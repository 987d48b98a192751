use crate::note::Note;
use midly::MidiMessage::{NoteOff, NoteOn};
use midly::TrackEventKind::{Meta, Midi};
use midly::{Format, Header, MetaMessage, Smf, Timing};
use vstd::prelude::*;

verus! {

/// Ticks per quarter note of the file header.
pub const TICKS_PER_QUARTER: u16 = 480;

/// The MIDI channel all notes are played on.
pub const CHANNEL: u8 = 0;

/// What an event of the track does.
#[derive(Debug, Clone, Copy, PartialEq, Eq, Structural)]
pub enum EventKind {
    NoteOn { channel: u8, key: u8, vel: u8 },
    NoteOff { channel: u8, key: u8, vel: u8 },
    EndOfTrack,
}

/// An event of the track with the delta time (in ticks) that precedes it.
#[derive(Debug, Clone, Copy, PartialEq, Eq, Structural)]
pub struct TrackEvent {
    pub delta: u32,
    pub kind: EventKind,
}

/// The event that starts a note.
pub open spec fn note_on_event(n: Note) -> TrackEvent {
    TrackEvent {
        delta: n.duration,
        kind: EventKind::NoteOn { channel: CHANNEL, key: n.pitch, vel: n.velocity },
    }
}

/// The event that ends a note.
pub open spec fn note_off_event(n: Note) -> TrackEvent {
    TrackEvent { delta: n.duration, kind: EventKind::NoteOff { channel: CHANNEL, key: n.pitch, vel: 0 } }
}

pub open spec fn end_of_track_event() -> TrackEvent {
    TrackEvent { delta: 0, kind: EventKind::EndOfTrack }
}

/// The event stream of a note sequence: an on/off pair per note, in order,
/// then the end-of-track marker.
pub open spec fn events_of(notes: Seq<Note>) -> Seq<TrackEvent> {
    Seq::new(
        2 * notes.len() + 1,
        |i: int|
            if i == 2 * notes.len() {
                end_of_track_event()
            } else if i % 2 == 0 {
                note_on_event(notes[i / 2])
            } else {
                note_off_event(notes[i / 2])
            },
    )
}

/// Reads an event stream back: one note per note-on event, in order, with
/// the event's key, velocity and delta time.
pub open spec fn played_notes(events: Seq<TrackEvent>) -> Seq<Note>
    decreases events.len(),
{
    if events.len() == 0 {
        seq![]
    } else {
        let rest = played_notes(events.drop_first());
        match events[0].kind {
            EventKind::NoteOn { channel, key, vel } => seq![
                Note { pitch: key, velocity: vel, duration: events[0].delta },
            ] + rest,
            _ => rest,
        }
    }
}

/// The stream of `n` notes holds `2n + 1` events, and reading its note-on
/// events back gives the notes unchanged, in order.
pub proof fn lemma_events_round_trip(notes: Seq<Note>)
    ensures
        events_of(notes).len() == 2 * notes.len() + 1,
        played_notes(events_of(notes)) == notes,
    decreases notes.len(),
{
    let events = events_of(notes);
    if notes.len() == 0 {
        assert(events.drop_first() =~= seq![]);
        assert(played_notes(events.drop_first()) == Seq::<Note>::empty());
        assert(notes =~= seq![]);
    } else {
        let rest = notes.drop_first();
        lemma_events_round_trip(rest);
        let tail = events.drop_first();
        assert(tail.drop_first() =~= events_of(rest)) by {
            assert forall|i: int| 0 <= i < events_of(rest).len() implies tail.drop_first()[i]
                == events_of(rest)[i] by {
                assert((i + 2) % 2 == i % 2);
                assert((i + 2) / 2 == i / 2 + 1);
            }
        }
        assert(played_notes(tail) == played_notes(tail.drop_first()));
        assert(seq![notes[0]] + rest =~= notes);
    }
}

/// The event stream of a note sequence.
pub fn track_events(notes: &[Note]) -> (r: Vec<TrackEvent>)
    ensures
        r@ == events_of(notes@),
{
    let mut events: Vec<TrackEvent> = Vec::new();
    let mut i: usize = 0;
    while i < notes.len()
        invariant
            i <= notes@.len(),
            events@ =~= events_of(notes@).take(2 * i),
        decreases notes.len() - i,
    {
        let n = notes[i];
        events.push(
            TrackEvent {
                delta: n.duration,
                kind: EventKind::NoteOn { channel: CHANNEL, key: n.pitch, vel: n.velocity },
            },
        );
        events.push(
            TrackEvent {
                delta: n.duration,
                kind: EventKind::NoteOff { channel: CHANNEL, key: n.pitch, vel: 0 },
            },
        );
        proof {
            let all = events_of(notes@);
            assert((2 * i) % 2 == 0 && (2 * i) / 2 == i);
            assert((2 * i + 1) % 2 == 1 && (2 * i + 1) / 2 == i);
            assert(events@ =~= all.take(2 * i + 2));
        }
        i = i + 1;
    }
    events.push(TrackEvent { delta: 0, kind: EventKind::EndOfTrack });
    events
}

/// The bytes of a Standard MIDI File holding one track made of `events`,
/// with the given number of ticks per quarter note, as midly encodes them.
pub uninterp spec fn smf_bytes(ticks_per_quarter: u16, events: Seq<TrackEvent>) -> Seq<u8>;

/// Relies on midly's `Smf::write` into a `Vec<u8>` of a single-track file
/// with metrical timing: the bytes it writes, at least the 14-byte header
/// chunk and the 8-byte head of the track chunk; it fails only when the track
/// chunk exceeds 32-bit size, which takes more than 7 bytes per event
/// (a 4-byte delta and a 3-byte message at most).
#[verifier::external_body]
fn write_smf(ticks_per_quarter: u16, events: &Vec<TrackEvent>) -> (r: Result<Vec<u8>, &'static str>)
    ensures
        r matches Ok(b) ==> b@ == smf_bytes(ticks_per_quarter, events@) && b@.len() >= 22,
        events@.len() <= 500_000_000 ==> r is Ok,
{
    let mut smf = Smf::new(Header::new(Format::SingleTrack, Timing::Metrical(ticks_per_quarter.into())));
    smf.tracks.push(events.iter().map(|e| midly::TrackEvent { delta: e.delta.into(), kind: match e.kind {
        EventKind::NoteOn { channel, key, vel } => Midi { channel: channel.into(), message: NoteOn { key: key.into(), vel: vel.into() } },
        EventKind::NoteOff { channel, key, vel } => Midi { channel: channel.into(), message: NoteOff { key: key.into(), vel: vel.into() } },
        EventKind::EndOfTrack => Meta(MetaMessage::EndOfTrack) } }).collect());
    let mut buf = Vec::new();
    smf.write(&mut buf).map(|_| buf)
}

/// Encodes notes as a single-track MIDI file at 480 ticks per quarter note.
pub fn serialize(notes: &[Note]) -> (r: Result<Vec<u8>, &'static str>)
    ensures
        r matches Ok(b) ==> b@ == smf_bytes(TICKS_PER_QUARTER, events_of(notes@)) && b@.len() > 0,
        notes@.len() <= 200_000_000 ==> r is Ok,
{
    let events = track_events(notes);
    write_smf(TICKS_PER_QUARTER, &events)
}

} // verus!
