//! The per-owner playback directive: which clips should be playing, whether
//! they loop, and which entry sets are queued to play next.

use vstd::prelude::*;
use std::collections::HashSet;

verus! {

broadcast use vstd::std_specs::hash::group_hash_axioms;

/// One entry of a directive: the configuration index of the clip to play
/// (index `k` addresses slot `k` of the graph's index table, so `k > 0`
/// denotes clip `k - 1`), an optional mask group restricting playback to part
/// of the skeleton, and an optional playback speed in thousandths of the
/// nominal rate (`None` plays at the nominal rate).
#[derive(Clone, Copy, Debug)]
pub struct AnimsConf {
    pub index: usize,
    pub mask: Option<u32>,
    pub speed: Option<u32>,
}

impl Default for AnimsConf {
    /// An entry for configuration index 0 with no mask and nominal speed.
    fn default() -> (r: Self)
        ensures
            r.index == 0,
            r.mask is None,
            r.speed is None,
    {
        AnimsConf { index: 0, mask: None, speed: None }
    }
}

impl AnimsConf {
    /// An unmasked, nominal-speed entry for the given configuration index.
    pub fn new(index: usize) -> (r: Self)
        ensures
            r == (AnimsConf { index, mask: None, speed: None }),
    {
        AnimsConf { index, mask: None, speed: None }
    }

    /// An entry restricted to the given mask group.
    pub fn new_with_mask(index: usize, mask: u32) -> (r: Self)
        ensures
            r == (AnimsConf { index, mask: Some(mask), speed: None }),
    {
        AnimsConf { index, mask: Some(mask), speed: None }
    }

    /// An entry played at `speed` thousandths of the nominal rate.
    pub fn new_with_speed(index: usize, speed: u32) -> (r: Self)
        ensures
            r == (AnimsConf { index, mask: None, speed: Some(speed) }),
    {
        AnimsConf { index, mask: None, speed: Some(speed) }
    }
}

/// An entry set: the clips that should be playing concurrently.
pub type Anims = Vec<AnimsConf>;

/// The set of configuration indices named by an entry sequence, collapsing
/// duplicates and forgetting order.
pub open spec fn conf_index_set(entries: Seq<AnimsConf>) -> Set<usize> {
    entries.map_values(|c: AnimsConf| c.index).to_set()
}

/// The mathematical state of a directive: the current entry set, the optional
/// queue of future entry sets, and the owner-level repeat flag.
pub struct AnimModel {
    pub anims: Seq<AnimsConf>,
    pub next: Option<Seq<Seq<AnimsConf>>>,
    pub repeat: bool,
}

/// The desired playback state of one logical owner, consumed by the
/// synchronizer each tick and advanced by the completion watcher.
#[derive(Clone, Debug)]
pub struct Anim {
    /// The clips that should currently be playing concurrently.
    pub anims: Anims,
    /// Future entry sets, drained last-in-first-out on completion.
    pub next: Option<Vec<Anims>>,
    /// Whether every current entry loops.
    pub repeat: bool,
}

impl View for Anim {
    type V = AnimModel;

    open spec fn view(&self) -> AnimModel {
        AnimModel {
            anims: self.anims@,
            next: match self.next {
                Some(q) => Some(q@.map_values(|s: Anims| s@)),
                None => None,
            },
            repeat: self.repeat,
        }
    }
}

/// How a directive changes when its owner's playback fully finishes: the most
/// recently queued entry set becomes current; with an empty or absent queue,
/// playback stops and the queue is cleared.
pub open spec fn advance_spec(m: AnimModel) -> AnimModel {
    match m.next {
        Some(q) => if q.len() > 0 {
            AnimModel { anims: q.last(), next: Some(q.drop_last()), repeat: m.repeat }
        } else {
            AnimModel { anims: Seq::empty(), next: None, repeat: m.repeat }
        },
        None => AnimModel { anims: Seq::empty(), next: None, repeat: m.repeat },
    }
}

impl Anim {
    /// A directive with one looping, unmasked, nominal-speed entry.
    pub fn new(anim_id: usize) -> (r: Self)
        ensures
            r@.anims =~= seq![AnimsConf { index: anim_id, mask: None, speed: None }],
            r@.next is None,
            r@.repeat == true,
    {
        Anim { anims: vec![AnimsConf::new(anim_id)], repeat: true, next: None }
    }

    /// The set of configuration indices currently desired, order-free and
    /// with duplicates collapsed.
    pub fn get(&self) -> (r: HashSet<usize>)
        ensures
            r@ == conf_index_set(self.anims@),
    {
        let mut r: HashSet<usize> = HashSet::new();
        let mut i: usize = 0;
        while i < self.anims.len()
            invariant
                i <= self.anims.len(),
                r@ == conf_index_set(self.anims@.take(i as int)),
            decreases self.anims.len() - i,
        {
            r.insert(self.anims[i].index);
            proof {
                broadcast use vstd::seq_lib::lemma_seq_contains_after_push;

                let prefix = self.anims@.take(i as int);
                let next_prefix = self.anims@.take(i + 1 as int);
                assert(next_prefix.map_values(|c: AnimsConf| c.index) =~= prefix.map_values(
                    |c: AnimsConf| c.index,
                ).push(self.anims@[i as int].index));
                assert(conf_index_set(next_prefix) =~= conf_index_set(prefix).insert(
                    self.anims@[i as int].index,
                ));
            }
            i = i + 1;
        }
        proof {
            assert(self.anims@.take(self.anims@.len() as int) =~= self.anims@);
        }
        r
    }

    /// Replace the entry set and the repeat flag wholesale.
    pub fn set(&mut self, anims: Anims, repeat: bool)
        ensures
            final(self)@.anims == anims@,
            final(self)@.repeat == repeat,
            final(self)@.next == old(self)@.next,
    {
        self.anims = anims;
        self.repeat = repeat;
    }

    /// Replace the entry set with one looping entry at `anim_id`.
    pub fn set_loop(&mut self, anim_id: usize)
        ensures
            final(self)@.anims =~= seq![AnimsConf { index: anim_id, mask: None, speed: None }],
            final(self)@.repeat == true,
            final(self)@.next == old(self)@.next,
    {
        self.anims = vec![AnimsConf::new(anim_id)];
        self.repeat = true;
    }

    /// Replace the entry set with one non-looping entry at `anim_id`.
    pub fn set_once(&mut self, anim_id: usize)
        ensures
            final(self)@.anims =~= seq![AnimsConf { index: anim_id, mask: None, speed: None }],
            final(self)@.repeat == false,
            final(self)@.next == old(self)@.next,
    {
        self.anims = vec![AnimsConf::new(anim_id)];
        self.repeat = false;
    }

    /// Install a stack of future entry sets, played last-in-first-out as each
    /// round of playback completes.
    pub fn set_next(&mut self, next: Vec<Anims>)
        ensures
            final(self)@.next == Some(next@.map_values(|s: Anims| s@)),
            final(self)@.anims == old(self)@.anims,
            final(self)@.repeat == old(self)@.repeat,
    {
        self.next = Some(next);
    }

    /// Clear the entry set; the player goes idle on the next reconciliation.
    pub fn stop_all(&mut self)
        ensures
            final(self)@.anims =~= Seq::<AnimsConf>::empty(),
            final(self)@.next == old(self)@.next,
            final(self)@.repeat == old(self)@.repeat,
    {
        self.anims.clear();
    }

    /// Advance the directive after its playback fully finished: pop the most
    /// recently queued entry set into the current entries, or, when no queued
    /// set remains, stop playback and clear the queue.
    pub fn advance_after_finished(&mut self)
        ensures
            final(self)@ == advance_spec(old(self)@),
    {
        let ghost m = self@;
        match &mut self.next {
            Some(queue) => {
                match queue.pop() {
                    Some(next_anims) => {
                        self.anims = next_anims;
                        proof {
                            let q = m.next->Some_0;
                            assert(q.drop_last() =~= self@.next->Some_0);
                        }
                    },
                    None => {
                        self.next = None;
                        self.anims.clear();
                        assert(self@.anims =~= Seq::<AnimsConf>::empty());
                    },
                }
            },
            None => {
                self.anims.clear();
                assert(self@.anims =~= Seq::<AnimsConf>::empty());
            },
        }
    }
}

impl Default for Anim {
    /// A directive with no entries, no queue, and looping enabled.
    fn default() -> (r: Self)
        ensures
            r@.anims =~= Seq::<AnimsConf>::empty(),
            r@.next is None,
            r@.repeat == true,
    {
        Anim { anims: Vec::new(), repeat: true, next: None }
    }
}

/// Queue draining is last-in-first-out: with `[s1, s2, s3]` queued, the entry
/// sets observed on consecutive completions are `s3`, then `s2`, then `s1`,
/// and the following completion stops playback and clears the queue.
pub proof fn lemma_queue_drain_lifo(
    m: AnimModel,
    s1: Seq<AnimsConf>,
    s2: Seq<AnimsConf>,
    s3: Seq<AnimsConf>,
)
    requires
        m.next == Some(seq![s1, s2, s3]),
    ensures
        advance_spec(m).anims == s3,
        advance_spec(advance_spec(m)).anims == s2,
        advance_spec(advance_spec(advance_spec(m))).anims == s1,
        advance_spec(advance_spec(advance_spec(advance_spec(m)))).anims
            =~= Seq::<AnimsConf>::empty(),
        advance_spec(advance_spec(advance_spec(advance_spec(m)))).next is None,
{
    let q = seq![s1, s2, s3];
    assert(q.last() == s3);
    assert(q.drop_last() =~= seq![s1, s2]);
    assert(seq![s1, s2].last() == s2);
    assert(seq![s1, s2].drop_last() =~= seq![s1]);
    assert(seq![s1].last() == s1);
    assert(seq![s1].drop_last() =~= Seq::<Seq<AnimsConf>>::empty());
}

} // verus!
