use crate::chance::{choose_from, draw_between};
use crate::markov::{is_step, successors, transitions_of, MarkovChain};
use crate::note::{
    has_generated_dynamics, in_scale, scale, scale_pitches, Note, MAX_DURATION, MAX_VELOCITY,
    MIN_DURATION, MIN_VELOCITY,
};
use vstd::prelude::*;

verus! {

/// The pitch a Markov walk starts from: the seed's first pitch, or the
/// scale's first pitch for an empty seed.
pub open spec fn start_pitch(seed: Seq<u8>) -> u8 {
    if seed.len() > 0 {
        seed[0]
    } else {
        scale()[0]
    }
}

/// The pitch that note `i` of a Markov walk was drawn from.
pub open spec fn previous_pitch(seed: Seq<u8>, notes: Seq<Note>, i: int) -> u8 {
    if i == 0 {
        start_pitch(seed)
    } else {
        notes[i - 1].pitch
    }
}

/// A note of the given pitch with a random velocity and duration drawn from
/// the generators' ranges.
fn note_with_random_dynamics(pitch: u8) -> (n: Note)
    ensures
        n.pitch == pitch,
        has_generated_dynamics(n),
{
    let velocity = draw_between(MIN_VELOCITY, MAX_VELOCITY);
    let duration = draw_between(MIN_DURATION, MAX_DURATION);
    Note { pitch, velocity: velocity as u8, duration }
}

/// `count` independent random notes, each with a pitch of the scale.
pub fn generate_random_notes(count: u32) -> (notes: Vec<Note>)
    ensures
        notes@.len() == count,
        forall|i: int|
            0 <= i < notes@.len() ==> in_scale(#[trigger] notes@[i].pitch)
                && has_generated_dynamics(notes@[i]),
{
    let pitches = scale_pitches();
    let mut notes: Vec<Note> = Vec::new();
    let mut k: u32 = 0;
    while k < count
        invariant
            k <= count,
            pitches@ == scale(),
            notes@.len() == k,
            forall|i: int|
                0 <= i < notes@.len() ==> in_scale(#[trigger] notes@[i].pitch)
                    && has_generated_dynamics(notes@[i]),
        decreases count - k,
    {
        let pitch = match choose_from(pitches.as_slice()) {
            Some(p) => p,
            None => pitches[0],
        };
        notes.push(note_with_random_dynamics(pitch));
        k = k + 1;
    }
    notes
}

/// `count` notes whose pitches walk the Markov chain of `seed_pitches`,
/// starting from its first pitch.
pub fn generate_markov_notes(seed_pitches: &[u8], count: u32) -> (notes: Vec<Note>)
    ensures
        notes@.len() == count,
        forall|i: int|
            0 <= i < notes@.len() ==> is_step(
                transitions_of(seed_pitches@),
                previous_pitch(seed_pitches@, notes@, i),
                #[trigger] notes@[i].pitch,
            ) && has_generated_dynamics(notes@[i]),
        forall|i: int|
            0 <= i < notes@.len() ==> seed_pitches@.contains(#[trigger] notes@[i].pitch) || in_scale(
                notes@[i].pitch,
            ),
{
    let markov_chain = MarkovChain::new_from_notes(seed_pitches);
    let mut notes: Vec<Note> = Vec::new();
    let mut current_pitch: u8 = if seed_pitches.len() > 0 {
        seed_pitches[0]
    } else {
        let pitches = scale_pitches();
        pitches[0]
    };
    assert(seed_pitches@.len() > 0 ==> seed_pitches@.contains(current_pitch));
    let mut k: u32 = 0;
    while k < count
        invariant
            k <= count,
            markov_chain.table() == transitions_of(seed_pitches@),
            notes@.len() == k,
            current_pitch == previous_pitch(seed_pitches@, notes@, k as int),
            seed_pitches@.contains(current_pitch) || in_scale(current_pitch),
            forall|i: int|
                0 <= i < notes@.len() ==> is_step(
                    transitions_of(seed_pitches@),
                    previous_pitch(seed_pitches@, notes@, i),
                    #[trigger] notes@[i].pitch,
                ) && has_generated_dynamics(notes@[i]),
            forall|i: int|
                0 <= i < notes@.len() ==> seed_pitches@.contains(#[trigger] notes@[i].pitch)
                    || in_scale(notes@[i].pitch),
        decreases count - k,
    {
        let ghost from = current_pitch;
        current_pitch = markov_chain.next_note(current_pitch);
        proof {
            let table = transitions_of(seed_pitches@);
            if table.contains_key(from) && table[from].len() > 0 {
                lemma_successors_in_seed(seed_pitches@, from, current_pitch);
            }
        }
        let ghost old_notes = notes@;
        notes.push(note_with_random_dynamics(current_pitch));
        assert forall|i: int| 0 <= i < old_notes.len() implies previous_pitch(
            seed_pitches@,
            notes@,
            i,
        ) == previous_pitch(seed_pitches@, old_notes, i) by {
            if i > 0 {
                assert(notes@[i - 1] == old_notes[i - 1]);
            }
        }
        assert(notes@[k as int] == notes@.last());
        k = k + 1;
    }
    notes
}

/// Every successor recorded for a pitch occurs in the seed.
proof fn lemma_successors_in_seed(s: Seq<u8>, p: u8, x: u8)
    requires
        successors(s, p).contains(x),
    ensures
        s.contains(x),
    decreases s.len(),
{
    if s.len() >= 2 {
        let t = s.drop_last();
        if successors(t, p).contains(x) {
            lemma_successors_in_seed(t, p, x);
            let j = choose|j: int| 0 <= j < t.len() && t[j] == x;
            assert(s[j] == x);
        } else {
            assert(s[s.len() - 1] == x);
        }
    }
}

} // verus!
