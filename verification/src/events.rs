//! Startup configuration and its one-shot attachment to a built graph:
//! timed start/end markers for configured clips, and mask groups registered
//! for hierarchical bone paths.

use vstd::prelude::*;
use vstd::utf8::encode_utf8;
use vstd::string::StringSliceAdditionalSpecFns;
use bevy::animation::graph::AnimationGraph;
use crate::graph::PGAnimGraph;
use crate::graph::add_target_group;
use crate::graph::graph_mask_of;
use crate::graph::graph_node_count;
use crate::graph::graph_root;
use crate::graph::segment_bytes;
use crate::graph::target_groups_of;
use crate::graph::target_id_from_names;
use crate::graph::target_id_of;

verus! {

broadcast use vstd::utf8::encode_utf8_valid_utf8;

/// The separator between the name segments of a hierarchical bone path:
/// the UTF-8 byte of `'/'`.
pub const PATH_SEPARATOR: u8 = 47;

/// A byte sequence split at every separator: splitting the empty sequence
/// gives one empty segment, and each separator starts a new segment.
pub open spec fn split_bytes(s: Seq<u8>, sep: u8) -> Seq<Seq<u8>>
    decreases s.len(),
{
    if s.len() == 0 {
        seq![Seq::<u8>::empty()]
    } else if s[0] == sep {
        seq![Seq::<u8>::empty()] + split_bytes(s.skip(1), sep)
    } else {
        let rest = split_bytes(s.skip(1), sep);
        seq![seq![s[0]] + rest[0]] + rest.drop_first()
    }
}

/// A split always produces at least one segment.
proof fn lemma_split_bytes_len(s: Seq<u8>, sep: u8)
    ensures
        split_bytes(s, sep).len() >= 1,
    decreases s.len(),
{
    if s.len() == 0 {
    } else if s[0] == sep {
    } else {
        lemma_split_bytes_len(s.skip(1), sep);
    }
}

/// A sequence without the separator is one single segment.
proof fn lemma_split_bytes_no_sep(s: Seq<u8>, sep: u8)
    requires
        forall|k: int| 0 <= k < s.len() ==> s[k] != sep,
    ensures
        split_bytes(s, sep) =~~= seq![s],
    decreases s.len(),
{
    if s.len() == 0 {
        assert(split_bytes(s, sep) =~~= seq![s]);
    } else {
        assert(forall|k: int| 0 <= k < s.skip(1).len() ==> s.skip(1)[k] == s[k + 1]);
        lemma_split_bytes_no_sep(s.skip(1), sep);
        let rest = split_bytes(s.skip(1), sep);
        assert(rest[0] == s.skip(1));
        assert(seq![s[0]] + s.skip(1) =~= s);
        assert(rest.drop_first() =~~= Seq::<Seq<u8>>::empty());
    }
}

/// Splitting at the first separator: everything before it is the first
/// segment, and the rest of the split continues after it.
proof fn lemma_split_bytes_first_sep(s: Seq<u8>, sep: u8, j: int)
    requires
        0 <= j < s.len(),
        s[j] == sep,
        forall|k: int| 0 <= k < j ==> s[k] != sep,
    ensures
        split_bytes(s, sep) =~~= seq![s.take(j)] + split_bytes(s.skip(j + 1), sep),
    decreases j,
{
    if j == 0 {
        assert(s.take(0) =~= Seq::<u8>::empty());
    } else {
        assert(forall|k: int| 0 <= k < s.skip(1).len() ==> s.skip(1)[k] == s[k + 1]);
        lemma_split_bytes_first_sep(s.skip(1), sep, j - 1);
        let rest = split_bytes(s.skip(1), sep);
        assert(s.skip(1).skip(j) =~= s.skip(j + 1));
        lemma_split_bytes_len(s.skip(j + 1), sep);
        assert(rest == seq![s.skip(1).take(j - 1)] + split_bytes(s.skip(j + 1), sep));
        assert(rest[0] == s.skip(1).take(j - 1));
        assert(seq![s[0]] + rest[0] =~= s.take(j));
        assert(rest.drop_first() =~= split_bytes(s.skip(j + 1), sep));
    }
}

/// The position of the first separator byte, if any.
fn find_sep(bytes: &[u8]) -> (r: Option<usize>)
    ensures
        match r {
            Some(j) => j < bytes@.len() && bytes@[j as int] == PATH_SEPARATOR && (forall|k: int|
                0 <= k < j ==> bytes@[k] != PATH_SEPARATOR),
            None => forall|k: int| 0 <= k < bytes@.len() ==> bytes@[k] != PATH_SEPARATOR,
        },
{
    let mut j: usize = 0;
    while j < bytes.len()
        invariant
            j <= bytes@.len(),
            forall|k: int| 0 <= k < j ==> bytes@[k] != PATH_SEPARATOR,
        decreases bytes@.len() - j,
    {
        if bytes[j] == PATH_SEPARATOR {
            return Some(j);
        }
        j = j + 1;
    }
    None
}

/// Split a hierarchical bone path into its name segments at every
/// separator, stated over the UTF-8 bytes of the path and of each segment.
pub fn split_path(path: &str) -> (r: Vec<String>)
    ensures
        r@.map_values(|t: String| encode_utf8(t@)) =~~= split_bytes(
            path.spec_bytes(),
            PATH_SEPARATOR,
        ),
    decreases path.spec_bytes().len(),
{
    let bytes = path.as_bytes();
    match find_sep(bytes) {
        None => {
            proof {
                lemma_split_bytes_no_sep(path.spec_bytes(), PATH_SEPARATOR);
            }
            let mut out: Vec<String> = Vec::new();
            out.push(path.to_owned());
            proof {
                assert(out@.map_values(|t: String| encode_utf8(t@)) =~~= seq![
                    path.spec_bytes(),
                ]);
            }
            out
        },
        Some(j) => {
            proof {
                broadcast use vstd::utf8::is_char_boundary_iff_not_is_continuation_byte;

                assert(vstd::utf8::valid_utf8(path.spec_bytes()));
                assert(!vstd::utf8::is_continuation_byte(path.spec_bytes()[j as int]));
            }
            let pieces = path.split_at(j);
            let seg = pieces.0;
            let tail0 = pieces.1;
            proof {
                broadcast use vstd::utf8::is_char_boundary_start_end_of_seq;

                let t = tail0.spec_bytes();
                assert(vstd::utf8::valid_utf8(t));
                assert(t[0] == PATH_SEPARATOR);
                if t.len() > 1 {
                    assert(vstd::utf8::is_leading_byte_width_1(t[0]));
                    assert(vstd::utf8::length_of_first_scalar(t) == 1);
                    assert(vstd::utf8::valid_utf8(vstd::utf8::pop_first_scalar(t)));
                    assert(vstd::utf8::is_char_boundary(vstd::utf8::pop_first_scalar(t), 0));
                    assert(vstd::utf8::is_char_boundary(t, 1));
                }
            }
            let tail = tail0.split_at(1).1;
            proof {
                assert(tail.spec_bytes() =~= path.spec_bytes().skip(j + 1));
                assert(tail.spec_bytes().len() < path.spec_bytes().len());
            }
            let mut r = split_path(tail);
            r.insert(0, seg.to_owned());
            proof {
                lemma_split_bytes_first_sep(path.spec_bytes(), PATH_SEPARATOR, j as int);
                assert(seg.spec_bytes() =~= path.spec_bytes().take(j as int));
                assert(r@.map_values(|t: String| encode_utf8(t@)) =~~= seq![
                    path.spec_bytes().take(j as int),
                ] + split_bytes(path.spec_bytes().skip(j + 1), PATH_SEPARATOR));
            }
            r
        },
    }
}

/// The engine's startup configuration: which configuration indices carry a
/// start marker, which carry an end marker, and which mask groups each
/// hierarchical bone path belongs to.
pub struct PGAnimsPlugin {
    pub anims_with_start_event: Vec<usize>,
    pub anims_with_end_event: Vec<usize>,
    pub targets_masks_mapping: Vec<(String, Vec<u32>)>,
}

impl Default for PGAnimsPlugin {
    /// A configuration with no event markers and no mask groups.
    fn default() -> (r: Self)
        ensures
            r.anims_with_start_event@.len() == 0,
            r.anims_with_end_event@.len() == 0,
            r.targets_masks_mapping@.len() == 0,
    {
        PGAnimsPlugin {
            anims_with_start_event: Vec::new(),
            anims_with_end_event: Vec::new(),
            targets_masks_mapping: Vec::new(),
        }
    }
}

/// Notification that the clip at a configuration index started playing on
/// the given skeleton instance.
#[derive(Clone, Copy, Debug, PartialEq, Eq, Structural)]
pub struct AnimStartEvent {
    pub anim: usize,
    pub armature_entity: u64,
}

/// Notification that the clip at a configuration index completed a pass on
/// the given skeleton instance; a looping clip completes one pass per loop.
#[derive(Clone, Copy, Debug, PartialEq, Eq, Structural)]
pub struct AnimEndEvent {
    pub anim: usize,
    pub armature_entity: u64,
}

/// A startup configuration the engine rejects: an event marker addressing a
/// slot that is not a clip, or a mask group beyond the graph's 64 groups.
#[derive(Clone, Copy, Debug, PartialEq, Eq, Structural)]
pub enum ConfigError {
    EventIndexOutOfRange { index: usize },
    MaskGroupOutOfRange { group: u32 },
}

/// Every configured event index addresses a clip slot of a table with
/// `table_len` slots: slot 0 is the root and carries no clip.
pub open spec fn event_indices_valid(indices: Seq<usize>, table_len: int) -> bool {
    forall|i: int| 0 <= i < indices.len() ==> 1 <= #[trigger] indices[i] < table_len
}

/// Every configured mask group names one of the graph's 64 groups.
pub open spec fn mask_mapping_valid(mapping: Seq<(String, Vec<u32>)>) -> bool {
    forall|i: int, j: int|
        0 <= i < mapping.len() && 0 <= j < mapping[i].1@.len() ==> #[trigger] mapping[i].1@[j]
            < 64
}

/// The bitfield holding one bit per listed mask group.
pub open spec fn group_bits(groups: Seq<u32>) -> u64
    decreases groups.len(),
{
    if groups.len() == 0 {
        0u64
    } else {
        group_bits(groups.drop_last()) | (1u64 << groups.last())
    }
}

/// The target id a bone path resolves to: the id of its separator-split
/// name segments.
pub open spec fn path_target(path: String) -> u128 {
    target_id_of(split_bytes(encode_utf8(path@), PATH_SEPARATOR))
}

/// The mask-group bitfield registered for target `t` after the whole
/// mapping is applied over an initial bitfield `init`: every mapping entry
/// whose path resolves to `t` contributes its groups' bits.
pub open spec fn targets_after(mapping: Seq<(String, Vec<u32>)>, t: u128, init: u64) -> u64
    decreases mapping.len(),
{
    if mapping.len() == 0 {
        init
    } else {
        let prev = targets_after(mapping.drop_last(), t, init);
        if path_target(mapping.last().0) == t {
            prev | group_bits(mapping.last().1@)
        } else {
            prev
        }
    }
}

/// Bitwise-or with the empty bitfield changes nothing.
proof fn lemma_or_zero(x: u64)
    ensures
        x | 0u64 == x,
{
    assert(x | 0u64 == x) by (bit_vector);
}

/// Bitwise-or is associative.
proof fn lemma_or_assoc(x: u64, y: u64, z: u64)
    ensures
        (x | y) | z == x | (y | z),
{
    assert((x | y) | z == x | (y | z)) by (bit_vector);
}

/// Attach the startup configuration to a freshly built graph, exactly once:
/// register each bone path's mask groups in the graph, and plan one start
/// marker and one end marker per configured index, each carrying that index
/// and the triggering skeleton's identity (the caller places start markers
/// at clip time 0 and end markers at the clip's duration). A table that was
/// already initialized is left untouched and yields no markers. A start or
/// end index outside the table's clip slots `1..=N`, or a mask group of 64
/// or more, is a configuration error and leaves graph and table unchanged.
#[verifier::loop_isolation(false)]
pub fn attach_animation_graphs(
    graph: &mut AnimationGraph,
    table: &mut PGAnimGraph,
    config: &PGAnimsPlugin,
    armature_entity: u64,
) -> (r: Result<(Vec<AnimStartEvent>, Vec<AnimEndEvent>), ConfigError>)
    ensures
        old(table).initialized ==> (r matches Ok(ev) && ev.0@.len() == 0 && ev.1@.len() == 0
            && *final(table) == *old(table) && *final(graph) == *old(graph)),
        !old(table).initialized ==> {
            let len = old(table).animations@.len() as int;
            &&& (r is Ok) == (event_indices_valid(config.anims_with_start_event@, len)
                && event_indices_valid(config.anims_with_end_event@, len)
                && mask_mapping_valid(config.targets_masks_mapping@))
            &&& (r matches Ok(ev) ==> {
                &&& final(table).initialized == true
                &&& final(table).animations@ == old(table).animations@
                &&& ev.0@.len() == config.anims_with_start_event@.len()
                &&& forall|i: int|
                    0 <= i < ev.0@.len() ==> ev.0@[i] == (AnimStartEvent {
                        anim: config.anims_with_start_event@[i],
                        armature_entity,
                    })
                &&& ev.1@.len() == config.anims_with_end_event@.len()
                &&& forall|i: int|
                    0 <= i < ev.1@.len() ==> ev.1@[i] == (AnimEndEvent {
                        anim: config.anims_with_end_event@[i],
                        armature_entity,
                    })
                &&& forall|t: u128|
                    target_groups_of(*final(graph), t) == targets_after(
                        config.targets_masks_mapping@,
                        t,
                        target_groups_of(*old(graph), t),
                    )
                &&& graph_node_count(*final(graph)) == graph_node_count(*old(graph))
                &&& graph_root(*final(graph)) == graph_root(*old(graph))
                &&& forall|m: usize|
                    graph_mask_of(*final(graph), m) == graph_mask_of(*old(graph), m)
            })
            &&& (r is Err ==> *final(table) == *old(table) && *final(graph) == *old(graph))
            &&& (r matches Err(e) ==> match e {
                ConfigError::EventIndexOutOfRange { index } => {
                    &&& (config.anims_with_start_event@.contains(index)
                        || config.anims_with_end_event@.contains(index))
                    &&& !(1 <= index < len)
                },
                ConfigError::MaskGroupOutOfRange { group } => {
                    &&& group >= 64
                    &&& exists|i: int, j: int|
                        0 <= i < config.targets_masks_mapping@.len() && 0 <= j
                            < config.targets_masks_mapping@[i].1@.len()
                            && #[trigger] config.targets_masks_mapping@[i].1@[j] == group
                    &&& event_indices_valid(config.anims_with_start_event@, len)
                    &&& event_indices_valid(config.anims_with_end_event@, len)
                },
            })
        },
{
    if table.initialized {
        return Ok((Vec::new(), Vec::new()));
    }
    let n = table.animations.len();

    let mut i: usize = 0;
    while i < config.anims_with_start_event.len()
        invariant
            i <= config.anims_with_start_event@.len(),
            forall|k: int|
                0 <= k < i ==> 1 <= #[trigger] config.anims_with_start_event@[k] < n,
        decreases config.anims_with_start_event@.len() - i,
    {
        let idx = config.anims_with_start_event[i];
        if idx < 1 || idx >= n {
            proof {
                assert(config.anims_with_start_event@[i as int] == idx);
                assert(config.anims_with_start_event@.contains(idx));
            }
            return Err(ConfigError::EventIndexOutOfRange { index: idx });
        }
        i = i + 1;
    }
    let mut i2: usize = 0;
    while i2 < config.anims_with_end_event.len()
        invariant
            i2 <= config.anims_with_end_event@.len(),
            forall|k: int| 0 <= k < i2 ==> 1 <= #[trigger] config.anims_with_end_event@[k] < n,
        decreases config.anims_with_end_event@.len() - i2,
    {
        let idx = config.anims_with_end_event[i2];
        if idx < 1 || idx >= n {
            proof {
                assert(config.anims_with_end_event@[i2 as int] == idx);
                assert(config.anims_with_end_event@.contains(idx));
            }
            return Err(ConfigError::EventIndexOutOfRange { index: idx });
        }
        i2 = i2 + 1;
    }
    let mut mi: usize = 0;
    while mi < config.targets_masks_mapping.len()
        invariant
            mi <= config.targets_masks_mapping@.len(),
            event_indices_valid(config.anims_with_start_event@, n as int),
            event_indices_valid(config.anims_with_end_event@, n as int),
            forall|k: int, j: int|
                0 <= k < mi && 0 <= j < config.targets_masks_mapping@[k].1@.len()
                    ==> #[trigger] config.targets_masks_mapping@[k].1@[j] < 64,
        decreases config.targets_masks_mapping@.len() - mi,
    {
        let groups = &config.targets_masks_mapping[mi].1;
        let mut gj: usize = 0;
        while gj < groups.len()
            invariant
                gj <= groups@.len(),
                groups@ == config.targets_masks_mapping@[mi as int].1@,
                mi < config.targets_masks_mapping@.len(),
                forall|j: int| 0 <= j < gj ==> #[trigger] groups@[j] < 64,
            decreases groups@.len() - gj,
        {
            let g = groups[gj];
            if g >= 64 {
                proof {
                    assert(config.targets_masks_mapping@[mi as int].1@[gj as int] == g);
                }
                return Err(ConfigError::MaskGroupOutOfRange { group: g });
            }
            gj = gj + 1;
        }
        mi = mi + 1;
    }

    let ghost g0 = *graph;
    let mut mi2: usize = 0;
    while mi2 < config.targets_masks_mapping.len()
        invariant
            mi2 <= config.targets_masks_mapping@.len(),
            mask_mapping_valid(config.targets_masks_mapping@),
            forall|t: u128|
                target_groups_of(*graph, t) == targets_after(
                    config.targets_masks_mapping@.take(mi2 as int),
                    t,
                    target_groups_of(g0, t),
                ),
            graph_node_count(*graph) == graph_node_count(g0),
            graph_root(*graph) == graph_root(g0),
            forall|m: usize| graph_mask_of(*graph, m) == graph_mask_of(g0, m),
        decreases config.targets_masks_mapping@.len() - mi2,
    {
        let pair = &config.targets_masks_mapping[mi2];
        let names = split_path(pair.0.as_str());
        let target = target_id_from_names(&names);
        proof {
            assert(segment_bytes(names@) =~~= split_bytes(
                encode_utf8(config.targets_masks_mapping@[mi2 as int].0@),
                PATH_SEPARATOR,
            ));
            assert(target == path_target(config.targets_masks_mapping@[mi2 as int].0));
        }
        let ghost g_entry = *graph;
        proof {
            lemma_or_zero(target_groups_of(*graph, target));
            assert(pair.1@.take(0) =~= Seq::<u32>::empty());
        }
        let mut gj2: usize = 0;
        while gj2 < pair.1.len()
            invariant
                gj2 <= pair.1@.len(),
                mask_mapping_valid(config.targets_masks_mapping@),
                mi2 < config.targets_masks_mapping@.len(),
                pair.1@ == config.targets_masks_mapping@[mi2 as int].1@,
                target == path_target(config.targets_masks_mapping@[mi2 as int].0),
                target_groups_of(*graph, target) == target_groups_of(g_entry, target)
                    | group_bits(pair.1@.take(gj2 as int)),
                forall|t: u128|
                    t != target ==> target_groups_of(*graph, t) == target_groups_of(
                        g_entry,
                        t,
                    ),
                graph_node_count(*graph) == graph_node_count(g_entry),
                graph_root(*graph) == graph_root(g_entry),
                forall|m: usize| graph_mask_of(*graph, m) == graph_mask_of(g_entry, m),
            decreases pair.1@.len() - gj2,
        {
            let g = pair.1[gj2];
            assert(g < 64);
            proof {
                lemma_or_assoc(
                    target_groups_of(g_entry, target),
                    group_bits(pair.1@.take(gj2 as int)),
                    1u64 << g,
                );
            }
            add_target_group(graph, target, g);
            proof {
                let taken = pair.1@.take(gj2 + 1 as int);
                assert(taken.drop_last() =~= pair.1@.take(gj2 as int));
                assert(taken.last() == pair.1@[gj2 as int]);
            }
            gj2 = gj2 + 1;
        }
        proof {
            assert(pair.1@.take(pair.1@.len() as int) =~= pair.1@);
            let taken = config.targets_masks_mapping@.take(mi2 + 1 as int);
            assert(taken.drop_last() =~= config.targets_masks_mapping@.take(mi2 as int));
            assert(taken.last() == config.targets_masks_mapping@[mi2 as int]);
            assert forall|t: u128|
                target_groups_of(*graph, t) == targets_after(
                    taken,
                    t,
                    target_groups_of(g0, t),
                ) by {
                assert(target_groups_of(g_entry, t) == targets_after(
                    config.targets_masks_mapping@.take(mi2 as int),
                    t,
                    target_groups_of(g0, t),
                ));
                if t == target {
                    assert(target_groups_of(*graph, t) == target_groups_of(g_entry, t)
                        | group_bits(pair.1@));
                } else {
                    assert(target_groups_of(*graph, t) == target_groups_of(g_entry, t));
                }
            }
        }
        mi2 = mi2 + 1;
    }
    proof {
        assert(config.targets_masks_mapping@.take(config.targets_masks_mapping@.len() as int)
            =~= config.targets_masks_mapping@);
    }

    let mut starts: Vec<AnimStartEvent> = Vec::new();
    let mut si: usize = 0;
    while si < config.anims_with_start_event.len()
        invariant
            si <= config.anims_with_start_event@.len(),
            starts@.len() == si,
            forall|k: int|
                0 <= k < si ==> starts@[k] == (AnimStartEvent {
                    anim: config.anims_with_start_event@[k],
                    armature_entity,
                }),
        decreases config.anims_with_start_event@.len() - si,
    {
        starts.push(
            AnimStartEvent { anim: config.anims_with_start_event[si], armature_entity },
        );
        si = si + 1;
    }
    let mut ends: Vec<AnimEndEvent> = Vec::new();
    let mut ei: usize = 0;
    while ei < config.anims_with_end_event.len()
        invariant
            ei <= config.anims_with_end_event@.len(),
            ends@.len() == ei,
            forall|k: int|
                0 <= k < ei ==> ends@[k] == (AnimEndEvent {
                    anim: config.anims_with_end_event@[k],
                    armature_entity,
                }),
        decreases config.anims_with_end_event@.len() - ei,
    {
        ends.push(AnimEndEvent { anim: config.anims_with_end_event[ei], armature_entity });
        ei = ei + 1;
    }

    table.initialized = true;
    Ok((starts, ends))
}


} // verus!
