//! Per-tick reconciliation of a directive against the animation player: when
//! the desired clip set already plays, nothing is touched; otherwise playback
//! is stopped and rebuilt with speed, repeat and mask applied per entry.

use vstd::prelude::*;
use bevy::animation::AnimationPlayer;
use bevy::animation::graph::AnimationGraph;
use crate::directive::Anim;
use crate::directive::AnimsConf;
use crate::directive::conf_index_set;
use crate::graph::PGAnimGraph;
use crate::graph::assign_node_mask;
use crate::graph::clear_node_mask;
use crate::graph::graph_mask_of;
use crate::graph::graph_node_count;
use crate::graph::graph_root;
use crate::graph::target_groups_of;
use crate::player::play_node;
use crate::player::play_node_looping;
use crate::player::player_looping;
use crate::player::player_nodes;
use crate::player::playing_node_indices;
use crate::player::stop_all_animations;

verus! {

/// Every entry addresses a clip slot of the index table: configuration
/// index 0 (the root) and indices beyond the table are caller errors.
pub open spec fn entries_valid(table: Seq<usize>, entries: Seq<AnimsConf>) -> bool {
    forall|i: int| 0 <= i < entries.len() ==> 1 <= #[trigger] entries[i].index < table.len()
}

/// Every masked entry names one of the graph's 64 mask groups.
pub open spec fn masks_valid(entries: Seq<AnimsConf>) -> bool {
    forall|i: int|
        0 <= i < entries.len() ==> (#[trigger] entries[i].mask matches Some(g) ==> g < 64)
}

/// The node each entry addresses through the index table.
pub open spec fn entry_nodes(table: Seq<usize>, entries: Seq<AnimsConf>) -> Seq<usize> {
    entries.map_values(|c: AnimsConf| table[c.index as int])
}

/// The set of nodes a directive wants playing, order-free and with
/// duplicates collapsed.
pub open spec fn desired_nodes(table: Seq<usize>, entries: Seq<AnimsConf>) -> Set<usize> {
    entry_nodes(table, entries).to_set()
}

/// Whether reconciliation must touch the player at all: only when the set of
/// currently playing nodes differs from the desired set.
pub open spec fn sync_changes(current: Set<usize>, table: Seq<usize>, entries: Seq<AnimsConf>) -> bool {
    current != desired_nodes(table, entries)
}

/// The node mask an entry applies: exactly its mask group's bit, or 0
/// (unmasked, full body) for an entry without a mask.
pub open spec fn mask_bits(mask: Option<u32>) -> u64 {
    match mask {
        Some(g) => 1u64 << g,
        None => 0u64,
    }
}

/// The mask node `m` carries after the entries are applied in order over an
/// initial mask `init`: the last entry addressing `m` wins, and a node no
/// entry addresses keeps `init`.
pub open spec fn mask_after(entries: Seq<AnimsConf>, table: Seq<usize>, m: usize, init: u64) -> u64
    decreases entries.len(),
{
    if entries.len() == 0 {
        init
    } else if table[entries.last().index as int] == m {
        mask_bits(entries.last().mask)
    } else {
        mask_after(entries.drop_last(), table, m, init)
    }
}

/// The explicit speed assignments a reconciliation requests: one
/// `(node, thousandths)` pair per entry that carries a speed, in entry
/// order. Entries without a speed play at the nominal rate.
pub open spec fn speed_requests(table: Seq<usize>, entries: Seq<AnimsConf>) -> Seq<(usize, u32)> {
    entries.filter(|c: AnimsConf| c.speed is Some).map_values(
        |c: AnimsConf| (table[c.index as int], c.speed->Some_0),
    )
}

/// Whether `v` holds `x`.
fn contains_value(v: &Vec<usize>, x: usize) -> (r: bool)
    ensures
        r == v@.contains(x),
{
    let mut i: usize = 0;
    while i < v.len()
        invariant
            i <= v.len(),
            forall|k: int| 0 <= k < i ==> v@[k] != x,
        decreases v.len() - i,
    {
        if v[i] == x {
            return true;
        }
        i = i + 1;
    }
    false
}

/// Whether two node lists name the same set of nodes, ignoring order and
/// duplicates.
fn node_sets_equal(a: &Vec<usize>, b: &Vec<usize>) -> (r: bool)
    ensures
        r == (a@.to_set() == b@.to_set()),
{
    let mut i: usize = 0;
    while i < a.len()
        invariant
            i <= a.len(),
            forall|k: int| 0 <= k < i ==> b@.contains(#[trigger] a@[k]),
        decreases a.len() - i,
    {
        if !contains_value(b, a[i]) {
            proof {
                assert(a@.to_set().contains(a@[i as int]));
                assert(!b@.to_set().contains(a@[i as int]));
            }
            return false;
        }
        i = i + 1;
    }
    let mut j: usize = 0;
    while j < b.len()
        invariant
            j <= b.len(),
            forall|k: int| 0 <= k < a@.len() ==> b@.contains(#[trigger] a@[k]),
            forall|k: int| 0 <= k < j ==> a@.contains(#[trigger] b@[k]),
        decreases b.len() - j,
    {
        if !contains_value(a, b[j]) {
            proof {
                assert(b@.to_set().contains(b@[j as int]));
                assert(!a@.to_set().contains(b@[j as int]));
            }
            return false;
        }
        j = j + 1;
    }
    proof {
        assert(a@.to_set() =~= b@.to_set());
    }
    true
}

/// Reconcile the player and the graph with a directive. When the set of
/// nodes already playing equals the desired set the call is a no-op and
/// returns `None`: re-issuing an unchanged directive never restarts
/// playback. Otherwise everything stops, each entry's node starts playing —
/// looping when the directive repeats, masked to exactly the entry's mask
/// group or unmasked when it has none — and the returned list carries the
/// explicit speed assignments (node, thousandths of nominal rate) for the
/// caller to apply to the freshly started animations.
pub fn update_animation(
    graph: &mut AnimationGraph,
    table: &PGAnimGraph,
    player: &mut AnimationPlayer,
    anim: &Anim,
) -> (r: Option<Vec<(usize, u32)>>)
    requires
        table.wf(graph_node_count(*old(graph))),
        entries_valid(table.animations@, anim.anims@),
        masks_valid(anim.anims@),
    ensures
        (r is None) == !sync_changes(player_nodes(*old(player)), table.animations@, anim.anims@),
        r is None ==> *final(player) == *old(player) && *final(graph) == *old(graph),
        r matches Some(speeds) ==> {
            &&& player_nodes(*final(player)) == desired_nodes(table.animations@, anim.anims@)
            &&& player_looping(*final(player)) == (if anim.repeat {
                desired_nodes(table.animations@, anim.anims@)
            } else {
                Set::<usize>::empty()
            })
            &&& forall|m: usize|
                graph_mask_of(*final(graph), m) == mask_after(
                    anim.anims@,
                    table.animations@,
                    m,
                    graph_mask_of(*old(graph), m),
                )
            &&& speeds@ == speed_requests(table.animations@, anim.anims@)
            &&& graph_node_count(*final(graph)) == graph_node_count(*old(graph))
            &&& graph_root(*final(graph)) == graph_root(*old(graph))
            &&& forall|t: u128|
                target_groups_of(*final(graph), t) == target_groups_of(*old(graph), t)
        },
{
    let current = playing_node_indices(player);
    let mut desired: Vec<usize> = Vec::new();
    let mut i: usize = 0;
    while i < anim.anims.len()
        invariant
            i <= anim.anims@.len(),
            entries_valid(table.animations@, anim.anims@),
            desired@ == entry_nodes(table.animations@, anim.anims@.take(i as int)),
        decreases anim.anims@.len() - i,
    {
        let idx = anim.anims[i].index;
        desired.push(table.animations[idx]);
        proof {
            assert(entry_nodes(table.animations@, anim.anims@.take(i + 1 as int)) =~= entry_nodes(
                table.animations@,
                anim.anims@.take(i as int),
            ).push(table.animations@[anim.anims@[i as int].index as int]));
        }
        i = i + 1;
    }
    proof {
        assert(anim.anims@.take(anim.anims@.len() as int) =~= anim.anims@);
    }

    if node_sets_equal(&current, &desired) {
        return None;
    }

    stop_all_animations(player);
    let mut speeds: Vec<(usize, u32)> = Vec::new();
    let mut k: usize = 0;
    while k < anim.anims.len()
        invariant
            k <= anim.anims@.len(),
            table.wf(graph_node_count(*graph)),
            entries_valid(table.animations@, anim.anims@),
            masks_valid(anim.anims@),
            player_nodes(*player) == desired_nodes(table.animations@, anim.anims@.take(k as int)),
            player_looping(*player) == (if anim.repeat {
                desired_nodes(table.animations@, anim.anims@.take(k as int))
            } else {
                Set::<usize>::empty()
            }),
            forall|m: usize|
                graph_mask_of(*graph, m) == mask_after(
                    anim.anims@.take(k as int),
                    table.animations@,
                    m,
                    graph_mask_of(*old(graph), m),
                ),
            speeds@ == speed_requests(table.animations@, anim.anims@.take(k as int)),
            graph_node_count(*graph) == graph_node_count(*old(graph)),
            graph_root(*graph) == graph_root(*old(graph)),
            forall|t: u128| target_groups_of(*graph, t) == target_groups_of(*old(graph), t),
        decreases anim.anims@.len() - k,
    {
        let entry_index = anim.anims[k].index;
        let entry_mask = anim.anims[k].mask;
        let entry_speed = anim.anims[k].speed;
        let node = table.animations[entry_index];
        let ghost pre_take = anim.anims@.take(k as int);
        let ghost post_take = anim.anims@.take(k + 1 as int);
        proof {
            assert(post_take.drop_last() =~= pre_take);
            assert(post_take.last() == anim.anims@[k as int]);
            assert(entry_nodes(table.animations@, post_take) =~= entry_nodes(
                table.animations@,
                pre_take,
            ).push(node));
            broadcast use vstd::seq_lib::lemma_seq_contains_after_push;

            assert(desired_nodes(table.animations@, post_take) =~= desired_nodes(
                table.animations@,
                pre_take,
            ).insert(node));
        }

        if anim.repeat {
            play_node_looping(player, node);
        } else {
            play_node(player, node);
        }

        match entry_mask {
            Some(group) => {
                assign_node_mask(graph, node, group);
            },
            None => {
                clear_node_mask(graph, node);
            },
        }

        match entry_speed {
            Some(s) => {
                speeds.push((node, s));
            },
            None => {},
        }
        proof {
            broadcast use vstd::prelude::Seq::lemma_filter_push;

            let f = |c: AnimsConf| c.speed is Some;
            let g = |c: AnimsConf| (table.animations@[c.index as int], c.speed->Some_0);
            assert(post_take =~= pre_take.push(anim.anims@[k as int]));
            assert(post_take.filter(f) == if f(anim.anims@[k as int]) {
                pre_take.filter(f).push(anim.anims@[k as int])
            } else {
                pre_take.filter(f)
            });
            if f(anim.anims@[k as int]) {
                assert(post_take.filter(f).map_values(g) =~= pre_take.filter(f).map_values(
                    g,
                ).push(g(anim.anims@[k as int])));
            }
            assert(speeds@ == speed_requests(table.animations@, post_take));
        }
        k = k + 1;
    }
    proof {
        assert(anim.anims@.take(anim.anims@.len() as int) =~= anim.anims@);
    }
    Some(speeds)
}

/// Idempotence: once the player's node set equals what a directive desires,
/// reconciling the same directive again changes nothing — the second call
/// never stops or replays animations.
pub proof fn lemma_sync_idempotent(table: Seq<usize>, entries: Seq<AnimsConf>)
    ensures
        !sync_changes(desired_nodes(table, entries), table, entries),
{
}

/// The reconciliation decision ignores entry order and duplicate entries:
/// two directives naming the same set of configuration indices desire the
/// same node set, so either both are no-ops or neither is.
pub proof fn lemma_sync_set_insensitive(
    table: Seq<usize>,
    e1: Seq<AnimsConf>,
    e2: Seq<AnimsConf>,
)
    requires
        conf_index_set(e1) == conf_index_set(e2),
    ensures
        desired_nodes(table, e1) == desired_nodes(table, e2),
        forall|current: Set<usize>|
            sync_changes(current, table, e1) == sync_changes(current, table, e2),
{
    assert forall|x: usize| desired_nodes(table, e1).contains(x) implies desired_nodes(
        table,
        e2,
    ).contains(x) by {
        lemma_desired_transfer(table, e1, e2, x);
    }
    assert forall|x: usize| desired_nodes(table, e2).contains(x) implies desired_nodes(
        table,
        e1,
    ).contains(x) by {
        lemma_desired_transfer(table, e2, e1, x);
    }
    assert(desired_nodes(table, e1) =~= desired_nodes(table, e2));
}

/// A node desired by `e1` is desired by any entry sequence naming the same
/// configuration indices.
proof fn lemma_desired_transfer(table: Seq<usize>, e1: Seq<AnimsConf>, e2: Seq<AnimsConf>, x: usize)
    requires
        conf_index_set(e1) == conf_index_set(e2),
        desired_nodes(table, e1).contains(x),
    ensures
        desired_nodes(table, e2).contains(x),
{
    let n1 = entry_nodes(table, e1);
    let k = choose|k: int| 0 <= k < n1.len() && n1[k] == x;
    let idx = e1[k].index;
    let m1 = e1.map_values(|c: AnimsConf| c.index);
    assert(m1[k] == idx);
    assert(conf_index_set(e1).contains(idx));
    let m2 = e2.map_values(|c: AnimsConf| c.index);
    assert(m2.contains(idx));
    let j = choose|j: int| 0 <= j < m2.len() && m2[j] == idx;
    assert(entry_nodes(table, e2)[j] == table[idx as int]);
    assert(entry_nodes(table, e2).contains(x));
}

/// Mask exclusivity: when entry `i` is the last entry addressing its node,
/// reconciliation leaves that node's mask exactly the entry's mask bit — a
/// masked entry's single group, or 0 (full body) for an unmasked entry —
/// regardless of whatever mask the node carried before.
pub proof fn lemma_mask_exclusive(
    entries: Seq<AnimsConf>,
    table: Seq<usize>,
    i: int,
    prev: u64,
)
    requires
        0 <= i < entries.len(),
        forall|j: int|
            i < j < entries.len() ==> table[#[trigger] entries[j].index as int] != table[entries[i].index as int],
    ensures
        mask_after(entries, table, table[entries[i].index as int], prev) == mask_bits(
            entries[i].mask,
        ),
    decreases entries.len(),
{
    let m = table[entries[i].index as int];
    if i == entries.len() - 1 {
        assert(table[entries.last().index as int] == m);
    } else {
        assert(table[entries.last().index as int] != m);
        assert(entries.drop_last()[i] == entries[i]);
        lemma_mask_exclusive(entries.drop_last(), table, i, prev);
    }
}

} // verus!
