//! Binding a newly appeared skeleton instance to its logical owner: the
//! nearest ownership ancestor marked animatable supplies the default
//! configuration index the skeleton starts playing.

use vstd::prelude::*;
use crate::directive::Anim;
use crate::directive::AnimsConf;

verus! {

/// The armature identity used before a real skeleton instance is bound.
pub const ARMATURE_PLACEHOLDER: u64 = u64::MAX;

/// Marks a logical owner: the skeleton instance (armature) whose playback it
/// drives, and the configuration index played by default when the skeleton
/// first appears.
#[derive(Clone, Copy, Debug)]
pub struct PGAnimatable {
    pub armature: u64,
    pub default_anim: usize,
}

impl PGAnimatable {
    /// An owner marker with the given default configuration index and no
    /// bound skeleton yet.
    pub fn new(default_anim: usize) -> (r: Self)
        ensures
            r.armature == ARMATURE_PLACEHOLDER,
            r.default_anim == default_anim,
    {
        PGAnimatable { armature: ARMATURE_PLACEHOLDER, default_anim }
    }
}

/// One step of a skeleton's ownership-ancestor chain, nearest first: the
/// ancestor's identity, and its default configuration index when the
/// ancestor carries an animatable-owner marker.
#[derive(Clone, Copy, Debug)]
pub struct AncestorInfo {
    pub entity: u64,
    pub animatable_default: Option<usize>,
}

/// `i` is the position of the nearest ancestor that carries an
/// animatable-owner marker.
pub open spec fn is_first_animatable(ancestors: Seq<AncestorInfo>, i: int) -> bool {
    &&& 0 <= i < ancestors.len()
    &&& ancestors[i].animatable_default is Some
    &&& forall|j: int| 0 <= j < i ==> ancestors[j].animatable_default is None
}

/// The outcome of binding a skeleton instance: the owner found in its
/// ancestry (`None` is the degraded mode where no ancestor qualifies), the
/// owner marker rebound to the skeleton, and the owner's initial directive.
pub struct Binding {
    pub owner: Option<u64>,
    pub animatable: PGAnimatable,
    pub anim: Anim,
}

/// Walk the ownership ancestry of a newly bound skeleton, nearest ancestor
/// first; the first ancestor with an animatable-owner marker becomes the
/// owner, and its default configuration index seeds a looping single-entry
/// directive. With no qualifying ancestor the binding degrades to no owner
/// and default index 0.
pub fn update_animatable(armature: u64, ancestors: &Vec<AncestorInfo>) -> (r: Binding)
    ensures
        r.animatable.armature == armature,
        forall|i: int|
            is_first_animatable(ancestors@, i) ==> r.owner == Some(ancestors@[i].entity)
                && r.animatable.default_anim == ancestors@[i].animatable_default->Some_0,
        (forall|j: int| 0 <= j < ancestors@.len() ==> ancestors@[j].animatable_default is None)
            ==> r.owner is None && r.animatable.default_anim == 0,
        r.anim@.anims =~= seq![
            AnimsConf { index: r.animatable.default_anim, mask: None, speed: None },
        ],
        r.anim@.repeat == true,
        r.anim@.next is None,
{
    let mut owner: Option<u64> = None;
    let mut default_anim: usize = 0;
    let mut i: usize = 0;
    while i < ancestors.len()
        invariant
            i <= ancestors.len(),
            owner is None,
            default_anim == 0,
            forall|j: int| 0 <= j < i ==> ancestors@[j].animatable_default is None,
        decreases ancestors.len() - i,
    {
        match ancestors[i].animatable_default {
            Some(d) => {
                owner = Some(ancestors[i].entity);
                default_anim = d;
                proof {
                    assert(is_first_animatable(ancestors@, i as int));
                }
                return Binding {
                    owner,
                    animatable: PGAnimatable { armature, default_anim },
                    anim: Anim::new(default_anim),
                };
            },
            None => {},
        }
        i = i + 1;
    }
    Binding {
        owner: None,
        animatable: PGAnimatable { armature, default_anim: 0 },
        anim: Anim::new(0),
    }
}

} // verus!
