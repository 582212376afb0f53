//! Trusted view of the animation player: the set of graph nodes it is
//! playing, which of them repeat forever, and whether playback has finished.

use vstd::prelude::*;
use bevy::animation::AnimationPlayer;
use bevy::animation::graph::AnimationNodeIndex;

verus! {

#[verifier::external_type_specification]
#[verifier::external_body]
pub struct ExAnimationPlayer(AnimationPlayer);

/// The set of graph node indices with an active animation on the player.
pub uninterp spec fn player_nodes(p: AnimationPlayer) -> Set<usize>;

/// The subset of active node indices whose animation repeats forever.
pub uninterp spec fn player_looping(p: AnimationPlayer) -> Set<usize>;

/// Whether every active animation on the player has finished, according to
/// its repeat behavior; a function of the player's state alone.
pub uninterp spec fn player_all_finished(p: AnimationPlayer) -> bool;

/// Relies on `AnimationPlayer::playing_animations`: iterates the map of
/// active animations keyed by node index; the key set comes back with no
/// duplicates, in unspecified order.
#[verifier::external_body]
pub(crate) fn playing_node_indices(p: &AnimationPlayer) -> (r: Vec<usize>)
    ensures
        r@.to_set() == player_nodes(*p),
        r@.no_duplicates(),
{
    p.playing_animations().map(|(id, _active)| id.index()).collect()
}

/// Relies on `AnimationPlayer::stop_all`: clears the map of active
/// animations.
#[verifier::external_body]
pub(crate) fn stop_all_animations(p: &mut AnimationPlayer)
    ensures
        player_nodes(*final(p)) == Set::<usize>::empty(),
        player_looping(*final(p)) == Set::<usize>::empty(),
{
    p.stop_all();
}

/// Relies on `AnimationPlayer::play`: inserts a default active animation for
/// the node if absent; a fresh entry does not repeat, and an existing entry
/// keeps its repeat mode. Node indices are 32-bit.
#[verifier::external_body]
pub(crate) fn play_node(p: &mut AnimationPlayer, node: usize)
    requires
        node <= 0xffff_ffff,
    ensures
        player_nodes(*final(p)) == player_nodes(*old(p)).insert(node),
        player_looping(*final(p)) == (if player_nodes(*old(p)).contains(node) {
            player_looping(*old(p))
        } else {
            player_looping(*old(p)).remove(node)
        }),
{
    p.play(AnimationNodeIndex::new(node));
}

/// Relies on `AnimationPlayer::play` and `ActiveAnimation::repeat`: the
/// node's active animation is created if absent and set to repeat forever.
/// The two calls form one player operation here because `play` hands back a
/// borrow into the player that cannot outlive this body.
#[verifier::external_body]
pub(crate) fn play_node_looping(p: &mut AnimationPlayer, node: usize)
    requires
        node <= 0xffff_ffff,
    ensures
        player_nodes(*final(p)) == player_nodes(*old(p)).insert(node),
        player_looping(*final(p)) == player_looping(*old(p)).insert(node),
{
    p.play(AnimationNodeIndex::new(node)).repeat();
}

/// Relies on `AnimationPlayer::all_finished`: whether every active animation
/// has reached its repeat count.
#[verifier::external_body]
pub(crate) fn all_animations_finished(p: &AnimationPlayer) -> (r: bool)
    ensures
        r == player_all_finished(*p),
{
    p.all_finished()
}

} // verus!
