use disonante_generator::markov::MarkovChain;
use disonante_generator::mode::{generate_file, generate_notes, parse_mode, Mode};
use disonante_generator::note::scale_pitches;
use disonante_generator::track::{serialize, track_events, EventKind, TrackEvent};
use disonante_generator::{generate_markov_notes, generate_random_notes, Note};

const SCALE: [u8; 7] = [60, 62, 64, 66, 68, 70, 72];

fn dynamics_in_range(n: &Note) -> bool {
    (80..=120).contains(&n.velocity) && (100..=500).contains(&n.duration)
}

#[test]
fn random_notes_empty_for_zero() {
    assert!(generate_random_notes(0).is_empty());
}

#[test]
fn random_notes_stay_in_scale_and_ranges() {
    let notes = generate_random_notes(300);
    assert_eq!(notes.len(), 300);
    for n in &notes {
        assert!(SCALE.contains(&n.pitch));
        assert!(dynamics_in_range(n));
    }
}

#[test]
fn scale_has_seven_whole_tone_pitches() {
    assert_eq!(scale_pitches(), SCALE.to_vec());
}

#[test]
fn markov_notes_follow_the_chain() {
    let seed = vec![60, 62, 64, 62, 60, 60];
    let notes = generate_markov_notes(&seed, 200);
    assert_eq!(notes.len(), 200);
    let mut prev = 60u8;
    for n in &notes {
        let allowed: &[u8] = match prev {
            60 => &[62, 60],
            62 => &[64, 60],
            64 => &[62],
            _ => &SCALE,
        };
        assert!(allowed.contains(&n.pitch));
        assert!(dynamics_in_range(n));
        prev = n.pitch;
    }
}

#[test]
fn markov_notes_empty_seed_uses_scale() {
    let notes = generate_markov_notes(&[], 50);
    assert_eq!(notes.len(), 50);
    for n in &notes {
        assert!(SCALE.contains(&n.pitch));
    }
}

#[test]
fn markov_notes_zero_count() {
    assert!(generate_markov_notes(&[60, 61], 0).is_empty());
}

#[test]
fn chain_of_short_seed_is_empty() {
    let chain = MarkovChain::new_from_notes(&[61]);
    assert!(chain.transitions_for(61).is_none());
    let empty = MarkovChain::new_from_notes(&[]);
    assert!(empty.transitions_for(60).is_none());
}

#[test]
fn chain_last_pitch_has_no_entry() {
    let chain = MarkovChain::new_from_notes(&[60, 61, 63]);
    assert_eq!(chain.transitions_for(60).unwrap(), &[61]);
    assert_eq!(chain.transitions_for(61).unwrap(), &[63]);
    assert!(chain.transitions_for(63).is_none());
}

#[test]
fn next_note_unknown_pitch_falls_back_to_scale() {
    let chain = MarkovChain::new_from_notes(&[61, 63]);
    for _ in 0..50 {
        assert!(SCALE.contains(&chain.next_note(99)));
    }
}

#[test]
fn next_note_picks_recorded_successors() {
    let chain = MarkovChain::new_from_notes(&[60, 61, 60, 63]);
    for _ in 0..50 {
        let p = chain.next_note(60);
        assert!(p == 61 || p == 63);
    }
}

#[test]
fn track_events_pairs_and_end_marker() {
    let notes = vec![
        Note { pitch: 60, velocity: 100, duration: 200 },
        Note { pitch: 66, velocity: 81, duration: 480 },
    ];
    let events = track_events(&notes);
    assert_eq!(events.len(), 5);
    assert_eq!(
        events[0],
        TrackEvent { delta: 200, kind: EventKind::NoteOn { channel: 0, key: 60, vel: 100 } }
    );
    assert_eq!(
        events[1],
        TrackEvent { delta: 200, kind: EventKind::NoteOff { channel: 0, key: 60, vel: 0 } }
    );
    assert_eq!(
        events[2],
        TrackEvent { delta: 480, kind: EventKind::NoteOn { channel: 0, key: 66, vel: 81 } }
    );
    assert_eq!(
        events[3],
        TrackEvent { delta: 480, kind: EventKind::NoteOff { channel: 0, key: 66, vel: 0 } }
    );
    assert_eq!(events[4], TrackEvent { delta: 0, kind: EventKind::EndOfTrack });
}

#[test]
fn track_events_read_back_gives_notes() {
    let notes = generate_random_notes(40);
    let events = track_events(&notes);
    assert_eq!(events.len(), 2 * notes.len() + 1);
    let played: Vec<Note> = events
        .iter()
        .filter_map(|e| match e.kind {
            EventKind::NoteOn { key, vel, .. } => {
                Some(Note { pitch: key, velocity: vel, duration: e.delta })
            }
            _ => None,
        })
        .collect();
    assert_eq!(played, notes);
}

#[test]
fn track_events_of_no_notes() {
    let events = track_events(&[]);
    assert_eq!(events, vec![TrackEvent { delta: 0, kind: EventKind::EndOfTrack }]);
}

#[test]
fn serialize_one_note_exact_bytes() {
    let notes = vec![Note { pitch: 60, velocity: 100, duration: 200 }];
    let bytes = serialize(&notes).unwrap();
    let expected: Vec<u8> = vec![
        b'M', b'T', b'h', b'd', 0, 0, 0, 6, 0, 0, 0, 1, 0x01, 0xE0, b'M', b'T', b'r', b'k', 0,
        0, 0, 14, 0x81, 0x48, 0x90, 60, 100, 0x81, 0x48, 0x80, 60, 0, 0x00, 0xFF, 0x2F, 0x00,
    ];
    assert_eq!(bytes, expected);
}

#[test]
fn serialize_no_notes() {
    let bytes = serialize(&[]).unwrap();
    let expected: Vec<u8> = vec![
        b'M', b'T', b'h', b'd', 0, 0, 0, 6, 0, 0, 0, 1, 0x01, 0xE0, b'M', b'T', b'r', b'k', 0,
        0, 0, 4, 0x00, 0xFF, 0x2F, 0x00,
    ];
    assert_eq!(bytes, expected);
}

#[test]
fn parse_mode_names() {
    assert_eq!(parse_mode("random"), Some(Mode::Random));
    assert_eq!(parse_mode("markov"), Some(Mode::Markov));
    assert_eq!(parse_mode("invalido"), None);
    assert_eq!(parse_mode(""), None);
}

#[test]
fn generate_notes_markov_mode_uses_seed_or_scale() {
    let seed = [60u8, 61, 63, 66, 68, 71];
    let notes = generate_notes(Mode::Markov, 100);
    assert_eq!(notes.len(), 100);
    for n in &notes {
        assert!(seed.contains(&n.pitch) || SCALE.contains(&n.pitch));
        assert!(dynamics_in_range(n));
    }
}

#[test]
fn invalid_mode_still_writes_random_file() {
    let bytes = generate_file("invalido", 100).unwrap();
    assert!(!bytes.is_empty());
    assert_eq!(&bytes[0..4], b"MThd");
    assert_eq!(&bytes[8..14], &[0, 0, 0, 1, 0x01, 0xE0]);
    assert_eq!(&bytes[14..18], b"MTrk");
    let track_len = u32::from_be_bytes([bytes[18], bytes[19], bytes[20], bytes[21]]) as usize;
    assert_eq!(bytes.len(), 22 + track_len);
}

#[test]
fn markov_mode_writes_file() {
    let bytes = generate_file("markov", 10).unwrap();
    assert_eq!(&bytes[0..4], b"MThd");
}
