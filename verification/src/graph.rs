//! The indexed blend graph built over a model's clips: an index table whose
//! slot 0 is the graph's root node and whose slot `k >= 1` is the node of
//! clip `k - 1`, plus trusted views of the underlying animation graph.

use vstd::prelude::*;
use bevy::animation::AnimationClip;
use bevy::animation::AnimationTargetId;
use bevy::animation::graph::AnimationGraph;
use bevy::asset::Handle;
use bevy::asset::uuid::Uuid;

verus! {

#[verifier::external_type_specification]
#[verifier::external_body]
pub struct ExAnimationGraph(AnimationGraph);

/// A clip asset handle, opaque to the engine's logic: the generic
/// `bevy::asset::Handle` cannot be declared to the verifier (its `Asset`
/// bound is an outside trait), so the handle is carried in a hidden field
/// and only ever cloned into the graph builder.
#[verifier::external_body]
pub struct ClipHandle {
    pub handle: Handle<AnimationClip>,
}

/// How many nodes the animation graph holds.
pub uninterp spec fn graph_node_count(g: AnimationGraph) -> usize;

/// The index of the graph's root node.
pub uninterp spec fn graph_root(g: AnimationGraph) -> usize;

/// The mask bitfield of the node at `node`: bit N set means the node does
/// not animate targets of mask group N.
pub uninterp spec fn graph_mask_of(g: AnimationGraph, node: usize) -> u64;

/// The mask-group bitfield registered for the animation target identified by
/// `target` (the target id as an unsigned 128-bit value): bit N set means the
/// target belongs to mask group N; an unregistered target has no groups.
pub uninterp spec fn target_groups_of(g: AnimationGraph, target: u128) -> u64;

/// The target id derived from a hierarchical bone path, given as the UTF-8
/// bytes of its name segments; a function of the segments alone.
pub uninterp spec fn target_id_of(segments: Seq<Seq<u8>>) -> u128;

/// The UTF-8 bytes of each name in a segment list.
pub open spec fn segment_bytes(names: Seq<String>) -> Seq<Seq<u8>> {
    names.map_values(|s: String| vstd::utf8::encode_utf8(s@))
}

/// Relies on `AnimationGraph::from_clips`: the graph gets a root node at
/// index 0 and one clip node per clip, child of the root, with no mask;
/// node indices are assigned in order, so clip `i` is at node `i + 1`. The
/// fresh graph registers no mask groups. Node indices are 32-bit, so the
/// node count must stay below their range.
#[verifier::external_body]
pub(crate) fn from_clips_graph(clips: &Vec<ClipHandle>) -> (r: (
    AnimationGraph,
    Vec<usize>,
))
    requires
        clips@.len() < 0xffff_fffe,
    ensures
        r.1@.len() == clips@.len(),
        forall|i: int| 0 <= i < r.1@.len() ==> r.1@[i] == i + 1,
        graph_node_count(r.0) == clips@.len() + 1,
        graph_root(r.0) == 0,
        forall|n: usize| graph_mask_of(r.0, n) == 0,
        forall|t: u128| target_groups_of(r.0, t) == 0,
{
    let (graph, indices) = AnimationGraph::from_clips(clips.iter().map(|c| c.handle.clone()));
    let animations: Vec<usize> = indices.iter().map(|i| i.index()).collect();
    (graph, animations)
}

/// Relies on `AnimationGraphNode::mask`: writing 0 leaves the node unmasked
/// (full body); a node index outside the graph is rejected by the graph
/// lookup, so the caller must pass a node the graph holds.
#[verifier::external_body]
pub(crate) fn clear_node_mask(g: &mut AnimationGraph, node: usize)
    requires
        node < graph_node_count(*old(g)),
        node <= 0xffff_ffff,
    ensures
        graph_mask_of(*final(g), node) == 0,
        forall|m: usize| m != node ==> graph_mask_of(*final(g), m) == graph_mask_of(*old(g), m),
        graph_node_count(*final(g)) == graph_node_count(*old(g)),
        graph_root(*final(g)) == graph_root(*old(g)),
        forall|t: u128| target_groups_of(*final(g), t) == target_groups_of(*old(g), t),
{
    if let Some(n) = g.get_mut(bevy::animation::graph::AnimationNodeIndex::new(node)) {
        n.mask = 0;
    }
}

/// Relies on `AnimationGraphNode::mask` and
/// `AnimationGraphNode::add_mask_group`: the node's mask is replaced by the
/// single bit of `group`, clearing any previous mask.
#[verifier::external_body]
pub(crate) fn assign_node_mask(g: &mut AnimationGraph, node: usize, group: u32)
    requires
        node < graph_node_count(*old(g)),
        node <= 0xffff_ffff,
        group < 64,
    ensures
        graph_mask_of(*final(g), node) == (1u64 << group),
        forall|m: usize| m != node ==> graph_mask_of(*final(g), m) == graph_mask_of(*old(g), m),
        graph_node_count(*final(g)) == graph_node_count(*old(g)),
        graph_root(*final(g)) == graph_root(*old(g)),
        forall|t: u128| target_groups_of(*final(g), t) == target_groups_of(*old(g), t),
{
    if let Some(n) = g.get_mut(bevy::animation::graph::AnimationNodeIndex::new(node)) {
        n.mask = 0;
        n.add_mask_group(group);
    }
}

/// Relies on `AnimationTargetId::from_iter`: the id hashes the name
/// segments' bytes (lengths included), so it is a function of the segment
/// bytes alone.
#[verifier::external_body]
pub(crate) fn target_id_from_names(names: &Vec<String>) -> (r: u128)
    ensures
        r == target_id_of(segment_bytes(names@)),
{
    AnimationTargetId::from_iter(names.iter()).0.as_u128()
}

/// Relies on `AnimationGraph::add_target_to_mask_group`: the group's bit is
/// or-ed into the bitfield registered for the target, which starts at 0 when
/// the target was not registered before.
#[verifier::external_body]
pub(crate) fn add_target_group(g: &mut AnimationGraph, target: u128, group: u32)
    requires
        group < 64,
    ensures
        target_groups_of(*final(g), target) == (target_groups_of(*old(g), target) | (1u64
            << group)),
        forall|t: u128|
            t != target ==> target_groups_of(*final(g), t) == target_groups_of(*old(g), t),
        graph_node_count(*final(g)) == graph_node_count(*old(g)),
        graph_root(*final(g)) == graph_root(*old(g)),
        forall|m: usize| graph_mask_of(*final(g), m) == graph_mask_of(*old(g), m),
{
    g.add_target_to_mask_group(AnimationTargetId(Uuid::from_u128(target)), group);
}

/// A request to build the blend graph for a loaded model, holding its clip
/// assets in load order; consumed once the graph is built.
pub struct AnimGraphInit {
    pub clips: Vec<ClipHandle>,
}

/// The engine's index table over a built blend graph. Slot 0 addresses the
/// root node; slot `k >= 1` addresses the node of clip `k - 1`, so every
/// configuration index used elsewhere in the engine lives in this shifted
/// index space.
pub struct PGAnimGraph {
    /// The node index addressed by each configuration index.
    pub animations: Vec<usize>,
    /// Whether event markers and mask groups have been attached yet.
    pub initialized: bool,
}

impl PGAnimGraph {
    /// The table addresses a graph of `count` nodes, one slot per node;
    /// every node index fits the graph's 32-bit index space.
    pub open spec fn wf(self, count: usize) -> bool {
        &&& self.animations@.len() == count
        &&& forall|k: int|
            0 <= k < self.animations@.len() ==> #[trigger] self.animations@[k] < count
                && self.animations@[k] <= 0xffff_ffff
    }
}

/// Build the blend graph and its index table from a model's clip list: for a
/// model with `N` clips the table has `N + 1` slots, slot 0 is the root node
/// and slot `k >= 1` is the node of clip `k - 1`. Event markers and mask
/// groups are not attached yet.
pub fn init_graph(init: &AnimGraphInit) -> (r: (AnimationGraph, PGAnimGraph))
    requires
        init.clips@.len() < 0xffff_fffe,
    ensures
        r.1.animations@.len() == init.clips@.len() + 1,
        r.1.animations@[0] == graph_root(r.0),
        forall|k: int| 1 <= k < r.1.animations@.len() ==> r.1.animations@[k] == k,
        r.1.initialized == false,
        graph_node_count(r.0) == init.clips@.len() + 1,
        r.1.wf(graph_node_count(r.0)),
        forall|t: u128| target_groups_of(r.0, t) == 0,
{
    let (graph, mut animations) = from_clips_graph(&init.clips);
    animations.insert(0, 0);
    (graph, PGAnimGraph { animations, initialized: false })
}

} // verus!
