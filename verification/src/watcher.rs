//! The completion watcher: when a player reports that every animation has
//! finished, the directive of the owner bound to that player advances to the
//! most recently queued entry set, or stops playback when none is queued.

use vstd::prelude::*;
use bevy::animation::AnimationPlayer;
use crate::binding::PGAnimatable;
use crate::directive::Anim;
use crate::directive::advance_spec;
use crate::player::all_animations_finished;
use crate::player::player_all_finished;

verus! {

/// `i` is the position of the first owner whose bound armature is `entity`.
pub open spec fn is_first_bound(owners: Seq<(PGAnimatable, Anim)>, entity: u64, i: int) -> bool {
    &&& 0 <= i < owners.len()
    &&& owners[i].0.armature == entity
    &&& forall|j: int| 0 <= j < i ==> owners[j].0.armature != entity
}

/// React to a player whose state changed this tick: when all of its
/// animations have finished, the first owner bound to the player's armature
/// has its directive advanced — the most recently queued entry set becomes
/// current, or playback stops when nothing is queued — and its position is
/// returned. Owners are untouched while playback is still running or when no
/// owner is bound to the armature.
pub fn play_next_after_finished(
    player: &AnimationPlayer,
    player_entity: u64,
    owners: &mut Vec<(PGAnimatable, Anim)>,
) -> (r: Option<usize>)
    ensures
        !player_all_finished(*player) ==> r is None && final(owners)@ == old(owners)@,
        (forall|j: int|
            0 <= j < old(owners)@.len() ==> old(owners)@[j].0.armature != player_entity) ==> r
            is None && final(owners)@ == old(owners)@,
        forall|i: int|
            (player_all_finished(*player) && is_first_bound(old(owners)@, player_entity, i))
                ==> {
                &&& r matches Some(at) && at == i
                &&& final(owners)@.len() == old(owners)@.len()
                &&& forall|j: int|
                    0 <= j < old(owners)@.len() && j != i ==> final(owners)@[j] == old(
                        owners,
                    )@[j]
                &&& final(owners)@[i].0 == old(owners)@[i].0
                &&& final(owners)@[i].1@ == advance_spec(old(owners)@[i].1@)
            },
{
    if !all_animations_finished(player) {
        return None;
    }
    let mut k: usize = 0;
    while k < owners.len()
        invariant
            k <= owners@.len(),
            player_all_finished(*player),
            owners@ == old(owners)@,
            forall|j: int| 0 <= j < k ==> owners@[j].0.armature != player_entity,
        decreases owners@.len() - k,
    {
        if owners[k].0.armature == player_entity {
            proof {
                assert(is_first_bound(owners@, player_entity, k as int));
            }
            let pair = &mut owners[k];
            pair.1.advance_after_finished();
            return Some(k);
        }
        k = k + 1;
    }
    None
}

} // verus!
