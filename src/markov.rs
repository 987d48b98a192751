use crate::chance::choose_from;
use crate::note::{in_scale, scale_pitches};
use std::collections::HashMap;
use vstd::prelude::*;

verus! {

broadcast use vstd::std_specs::hash::group_hash_axioms;

/// The pitches that follow `p` in `s`, in the order they occur; a pitch
/// that follows `p` several times occurs that many times.
pub open spec fn successors(s: Seq<u8>, p: u8) -> Seq<u8>
    decreases s.len(),
{
    if s.len() < 2 {
        seq![]
    } else {
        let rest = successors(s.drop_last(), p);
        if s[s.len() - 2] == p {
            rest.push(s[s.len() - 1])
        } else {
            rest
        }
    }
}

/// `p` occurs in `s` at some position other than the last.
pub open spec fn has_successor(s: Seq<u8>, p: u8) -> bool {
    exists|i: int| 0 <= i < s.len() - 1 && s[i] == p
}

/// The transition table of a seed: each pitch that is followed by another
/// maps to the list of its successors.
pub open spec fn transitions_of(s: Seq<u8>) -> Map<u8, Seq<u8>> {
    Map::new(|p: u8| has_successor(s, p), |p: u8| successors(s, p))
}

/// What a step of the chain may produce from `current`: one of its recorded
/// successors; the current pitch itself when its list is empty; a pitch of
/// the scale when it has no entry.
pub open spec fn is_step(table: Map<u8, Seq<u8>>, current: u8, next: u8) -> bool {
    if table.contains_key(current) {
        if table[current].len() > 0 {
            table[current].contains(next)
        } else {
            next == current
        }
    } else {
        in_scale(next)
    }
}

/// A first-order Markov chain over pitches.
pub struct MarkovChain {
    transitions: HashMap<u8, Vec<u8>>,
}

impl MarkovChain {
    /// The transition table, each successor list seen as a sequence.
    pub closed spec fn table(&self) -> Map<u8, Seq<u8>> {
        Map::new(
            |p: u8| self.transitions@.contains_key(p),
            |p: u8| self.transitions@[p]@,
        )
    }

    /// Builds the chain of a seed: for each adjacent pair of the seed the
    /// second pitch is appended to the list of the first.
    pub fn new_from_notes(notes: &[u8]) -> (r: Self)
        ensures
            r.table() == transitions_of(notes@),
    {
        let mut transitions: HashMap<u8, Vec<u8>> = HashMap::new();
        let n: usize = notes.len();
        if n == 0 {
            let r = MarkovChain { transitions };
            assert(r.table() =~= transitions_of(notes@));
            return r;
        }
        let steps: usize = n - 1;
        let mut i: usize = 0;
        while i < steps
            invariant
                steps == n - 1,
                n == notes@.len(),
                i <= steps,
                forall|p: u8| #[trigger]
                    transitions@.contains_key(p) <==> has_successor(notes@.take(i as int + 1), p),
                forall|p: u8| #[trigger]
                    transitions@.contains_key(p) ==> transitions@[p]@ == successors(
                        notes@.take(i as int + 1),
                        p,
                    ),
            decreases steps - i,
        {
            let key = notes[i];
            let next = notes[i + 1];
            let ghost before = notes@.take(i as int + 1);
            let ghost after = notes@.take(i as int + 2);
            assert(after.drop_last() =~= before);
            assert(after[after.len() - 2] == key);
            assert(after[after.len() - 1] == next);
            match transitions.remove(&key) {
                Some(mut list) => {
                    list.push(next);
                    transitions.insert(key, list);
                },
                None => {
                    transitions.insert(key, vec![next]);
                    assert(successors(before, key) =~= seq![]) by {
                        lemma_no_successor(before, key);
                    }
                },
            }
            assert forall|p: u8| has_successor(after, p) <==> (has_successor(before, p) || p == key) by {
                if has_successor(after, p) {
                    let j = choose|j: int| 0 <= j < after.len() - 1 && after[j] == p;
                    if j < before.len() - 1 {
                        assert(before[j] == p);
                    }
                }
                if has_successor(before, p) {
                    let j = choose|j: int| 0 <= j < before.len() - 1 && before[j] == p;
                    assert(after[j] == p);
                }
                if p == key {
                    assert(after[i as int] == p);
                }
            }
            i = i + 1;
        }
        assert(notes@.take(steps as int + 1) =~= notes@);
        let r = MarkovChain { transitions };
        assert(r.table() =~= transitions_of(notes@));
        r
    }

    /// The recorded successors of `pitch`, or `None` when it has no entry.
    pub fn transitions_for(&self, pitch: u8) -> (r: Option<&Vec<u8>>)
        ensures
            r is None <==> !self.table().contains_key(pitch),
            r matches Some(list) ==> list@ == self.table()[pitch],
    {
        self.transitions.get(&pitch)
    }

    /// One step of the chain: a random successor of `current_note` (repeated
    /// successors weigh more); the note itself when its list is empty; a
    /// random pitch of the scale when the note has no entry.
    pub fn next_note(&self, current_note: u8) -> (r: u8)
        ensures
            is_step(self.table(), current_note, r),
    {
        match self.transitions.get(&current_note) {
            Some(list) => match choose_from(list.as_slice()) {
                Some(p) => p,
                None => current_note,
            },
            None => {
                let scale = scale_pitches();
                match choose_from(scale.as_slice()) {
                    Some(p) => p,
                    None => scale[0],
                }
            },
        }
    }
}

/// The table records one successor for each position of the seed but the
/// last: a pitch's list is as long as the pitch occurs before the final
/// position, it is non-empty exactly for the pitches that are keys, and the
/// lists hold `len - 1` entries in all.
pub proof fn lemma_transition_counts(s: Seq<u8>, p: u8)
    requires
        s.len() > 0,
    ensures
        successors(s, p).len() == s.drop_last().to_multiset().count(p),
        transitions_of(s).contains_key(p) <==> successors(s, p).len() > 0,
        s.drop_last().to_multiset().len() == s.len() - 1,
    decreases s.len(),
{
    broadcast use vstd::seq_lib::group_to_multiset_ensures;

    let init = s.drop_last();
    if s.len() == 1 {
        assert(init =~= Seq::<u8>::empty());
        assert(!has_successor(s, p));
    } else {
        let t = init;
        lemma_transition_counts(t, p);
        assert(t.drop_last().push(t.last()) =~= init);
        assert(successors(s, p).len() > 0 ==> has_successor(s, p)) by {
            if successors(s, p).len() > 0 {
                if s[s.len() - 2] != p {
                    assert(has_successor(t, p));
                    let j = choose|j: int| 0 <= j < t.len() - 1 && t[j] == p;
                    assert(s[j] == p);
                }
            }
        }
        assert(has_successor(s, p) ==> successors(s, p).len() > 0) by {
            if has_successor(s, p) && s[s.len() - 2] != p {
                let j = choose|j: int| 0 <= j < s.len() - 1 && s[j] == p;
                assert(t[j] == p);
                assert(has_successor(t, p));
            }
        }
    }
}

/// A pitch that follows nothing in `s` has no successors there.
proof fn lemma_no_successor(s: Seq<u8>, p: u8)
    requires
        !has_successor(s, p),
    ensures
        successors(s, p) == Seq::<u8>::empty(),
    decreases s.len(),
{
    if s.len() >= 2 {
        let t = s.drop_last();
        assert(!has_successor(t, p)) by {
            if has_successor(t, p) {
                let j = choose|j: int| 0 <= j < t.len() - 1 && t[j] == p;
                assert(s[j] == p);
            }
        }
        lemma_no_successor(t, p);
        assert(s[s.len() - 2] != p);
    }
}

} // verus!
