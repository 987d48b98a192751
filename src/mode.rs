use crate::generator::{generate_markov_notes, generate_random_notes};
use crate::note::{has_generated_dynamics, in_scale, Note};
use crate::track::{events_of, serialize, smf_bytes, TICKS_PER_QUARTER};
use vstd::prelude::*;

verus! {

/// How pitches are chosen.
#[derive(Debug, Clone, Copy, PartialEq, Eq, Structural)]
pub enum Mode {
    /// Each pitch drawn independently from the scale.
    Random,
    /// Pitches walk the Markov chain of the fixed seed.
    Markov,
}

/// The seed that the Markov mode builds its chain from.
pub open spec fn markov_seed() -> Seq<u8> {
    seq![60u8, 61u8, 63u8, 66u8, 68u8, 71u8]
}

/// The mode a name selects, if any: `random` or `markov`.
pub open spec fn mode_named(name: Seq<char>) -> Option<Mode> {
    if name == "random"@ {
        Some(Mode::Random)
    } else if name == "markov"@ {
        Some(Mode::Markov)
    } else {
        None
    }
}

/// The mode a name selects, with random generation for any other name.
pub open spec fn mode_or_random(name: Seq<char>) -> Mode {
    match mode_named(name) {
        Some(m) => m,
        None => Mode::Random,
    }
}

/// What holds of the notes generated in `mode`: the requested number, the
/// generators' dynamics, and pitches of the scale (random mode) or of the
/// seed or the scale (Markov mode).
pub open spec fn generated_in_mode(mode: Mode, count: u32, notes: Seq<Note>) -> bool {
    &&& notes.len() == count
    &&& forall|i: int| 0 <= i < notes.len() ==> has_generated_dynamics(#[trigger] notes[i])
    &&& forall|i: int|
        0 <= i < notes.len() ==> match mode {
            Mode::Random => in_scale(#[trigger] notes[i].pitch),
            Mode::Markov => markov_seed().contains(notes[i].pitch) || in_scale(notes[i].pitch),
        }
}

/// Reads a mode name.
pub fn parse_mode(name: &str) -> (r: Option<Mode>)
    ensures
        r == mode_named(name@),
{
    proof {
        reveal_strlit("random");
        reveal_strlit("markov");
    }
    let given = name.to_owned();
    if given == "random".to_owned() {
        Some(Mode::Random)
    } else if given == "markov".to_owned() {
        Some(Mode::Markov)
    } else {
        None
    }
}

/// The seed of the Markov mode as a vector.
pub fn markov_seed_pitches() -> (r: Vec<u8>)
    ensures
        r@ == markov_seed(),
{
    let r: Vec<u8> = vec![60u8, 61u8, 63u8, 66u8, 68u8, 71u8];
    assert(r@ =~= markov_seed());
    r
}

/// `count` notes generated in the given mode.
pub fn generate_notes(mode: Mode, count: u32) -> (notes: Vec<Note>)
    ensures
        generated_in_mode(mode, count, notes@),
{
    match mode {
        Mode::Random => {
            let notes = generate_random_notes(count);
            assert forall|i: int| 0 <= i < notes@.len() implies has_generated_dynamics(
                #[trigger] notes@[i],
            ) by {
                assert(in_scale(notes@[i].pitch));
            }
            notes
        },
        Mode::Markov => {
            let seed = markov_seed_pitches();
            let notes = generate_markov_notes(seed.as_slice(), count);
            assert forall|i: int| 0 <= i < notes@.len() implies has_generated_dynamics(
                #[trigger] notes@[i],
            ) by {
                assert(seed@.contains(notes@[i].pitch) || in_scale(notes@[i].pitch));
            }
            notes
        },
    }
}

/// Generates `count` notes in the mode `mode_name` names (random generation
/// for an unknown name) and encodes them as a MIDI file.
pub fn generate_file(mode_name: &str, count: u32) -> (r: Result<Vec<u8>, &'static str>)
    ensures
        count <= 200_000_000 ==> r is Ok,
        r matches Ok(b) ==> b@.len() > 0 && exists|notes: Seq<Note>|
            generated_in_mode(mode_or_random(mode_name@), count, notes) && b@ == smf_bytes(
                TICKS_PER_QUARTER,
                events_of(notes),
            ),
{
    let mode = match parse_mode(mode_name) {
        Some(m) => m,
        None => Mode::Random,
    };
    let notes = generate_notes(mode, count);
    serialize(notes.as_slice())
}

} // verus!
