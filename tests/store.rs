use autorec::midi::{MidiEvent, RecordEvent};
use autorec::smf::{
    compute_midi_stats, encode_midi, file_note_histogram, note_histogram, SmfEvent, SmfEventKind,
};
use autorec::store::{
    check_rows_affected, legacy_recording, migration_action, prepare_recording, recording_midi,
    LegacyError, MigrationAction, MigrationStep, StoreError,
};

fn at(timestamp: u32, payload: MidiEvent) -> RecordEvent {
    RecordEvent { timestamp, payload }
}

/// A one-track file without tempo: NoteOn, NoteOff 192 ticks later, end.
fn legacy_file() -> Vec<u8> {
    let track: Vec<u8> = vec![
        0x00, 0x90, 0x3C, 0x64, 0x81, 0x40, 0x80, 0x3C, 0x00, 0x00, 0xFF, 0x2F, 0x00,
    ];
    let mut raw = b"MThd".to_vec();
    raw.extend_from_slice(&[0, 0, 0, 6, 0, 0, 0, 1, 0, 96]);
    raw.extend_from_slice(b"MTrk");
    raw.extend_from_slice(&(track.len() as u32).to_be_bytes());
    raw.extend_from_slice(&track);
    raw
}

#[test]
fn encode_builds_tempo_prelude_and_deltas() {
    let song = vec![
        at(10, MidiEvent::NoteOn { channel: 0, note: 60, velocity: 100 }),
        at(40, MidiEvent::ControlChange { channel: 0, controller: 64, value: 127 }),
        at(106, MidiEvent::NoteOff { channel: 0, note: 60 }),
    ];
    let track = encode_midi(&song);
    assert_eq!(
        track,
        vec![
            SmfEvent { delta: 0, kind: SmfEventKind::Tempo(500_000) },
            SmfEvent { delta: 0, kind: SmfEventKind::NoteOn { channel: 0, key: 60, vel: 100 } },
            SmfEvent {
                delta: 30,
                kind: SmfEventKind::Controller { channel: 0, controller: 64, value: 127 }
            },
            SmfEvent { delta: 66, kind: SmfEventKind::NoteOff { channel: 0, key: 60, vel: 0 } },
            SmfEvent { delta: 0, kind: SmfEventKind::EndOfTrack },
        ]
    );
    let stats = compute_midi_stats(&track);
    assert_eq!(stats.length_ticks, 96);
    assert_eq!(stats.length_micros, 500_000);
    assert_eq!(stats.note_count, 1);
}

#[test]
fn histogram_counts_note_ons_per_key() {
    let track = vec![
        SmfEvent { delta: 0, kind: SmfEventKind::NoteOn { channel: 0, key: 60, vel: 1 } },
        SmfEvent { delta: 0, kind: SmfEventKind::NoteOn { channel: 3, key: 60, vel: 1 } },
        SmfEvent { delta: 0, kind: SmfEventKind::NoteOff { channel: 0, key: 60, vel: 0 } },
        SmfEvent { delta: 0, kind: SmfEventKind::NoteOn { channel: 0, key: 127, vel: 1 } },
    ];
    let h = note_histogram(&track);
    assert_eq!(h.len(), 128);
    assert_eq!(h[60], 2);
    assert_eq!(h[127], 1);
    assert_eq!(h.iter().sum::<u32>(), 3);
}

#[test]
fn stored_midi_round_trips() {
    let song = vec![
        at(0, MidiEvent::NoteOn { channel: 0, note: 60, velocity: 100 }),
        at(96, MidiEvent::NoteOff { channel: 0, note: 60 }),
    ];
    let rec = prepare_recording(&song).unwrap();
    let smf = recording_midi(&rec.midi).unwrap();
    assert_ne!(smf, rec.midi);
    assert_eq!(&smf[0..4], b"MThd");
    let parsed = midly::Smf::parse(&smf).unwrap();
    assert_eq!(parsed.header.timing, midly::Timing::Metrical(96.into()));
    assert_eq!(parsed.tracks.len(), 1);
    assert_eq!(parsed.tracks[0].len(), 4);
    assert_eq!(
        parsed.tracks[0][0].kind,
        midly::TrackEventKind::Meta(midly::MetaMessage::Tempo(500_000.into()))
    );
    assert_eq!(parsed.tracks[0][2].delta.as_int(), 96);
    let h = file_note_histogram(&smf).unwrap();
    assert_eq!(h[60], 1);
}

#[test]
fn garbage_blob_fails_to_decode() {
    assert_eq!(recording_midi(&vec![1, 2, 3]), Err(StoreError::Codec));
    assert_eq!(file_note_histogram(&[1, 2, 3]), None);
}

#[test]
fn legacy_file_gets_tempo_and_stats() {
    let rec = legacy_recording(&legacy_file()).unwrap();
    assert_eq!(rec.held_length_micros, 1_250_000);
    assert_eq!(autorec::store::fix_length_micros(rec.held_length_micros), 1_000_000);
    assert_eq!(rec.stats.length_ticks, 192);
    assert_eq!(rec.stats.length_micros, 1_000_000);
    assert_eq!(rec.stats.note_count, 1);
    let smf = recording_midi(&rec.midi).unwrap();
    let parsed = midly::Smf::parse(&smf).unwrap();
    assert_eq!(
        parsed.tracks[0][0].kind,
        midly::TrackEventKind::Meta(midly::MetaMessage::Tempo(500_000.into()))
    );
    assert_eq!(parsed.tracks[0].len(), 4);
}

fn chunk(tag: &[u8], data: &[u8]) -> Vec<u8> {
    let mut c = tag.to_vec();
    c.extend_from_slice(&(data.len() as u32).to_be_bytes());
    c.extend_from_slice(data);
    c
}

#[test]
fn legacy_errors() {
    assert!(matches!(legacy_recording(&b"not midi".to_vec()), Err(LegacyError::Parse)));
    let no_track = chunk(b"MThd", &[0, 1, 0, 0, 0, 96]);
    assert!(matches!(legacy_recording(&no_track), Err(LegacyError::NoTrack)));
}

#[test]
fn legacy_file_keeps_every_track_and_event() {
    // Two tracks at 480 ticks per quarter: a program change and a text event
    // in the first, a note in the second.
    let mut raw = chunk(b"MThd", &[0, 1, 0, 2, 0x01, 0xE0]);
    raw.extend(chunk(
        b"MTrk",
        &[0x00, 0xC0, 0x05, 0x00, 0xFF, 0x01, 0x02, b'h', b'i', 0x00, 0xFF, 0x2F, 0x00],
    ));
    raw.extend(chunk(b"MTrk", &[0x00, 0x90, 0x3C, 0x64, 0x60, 0x80, 0x3C, 0x00, 0x00, 0xFF, 0x2F, 0x00]));
    let rec = legacy_recording(&raw).unwrap();
    assert_eq!(rec.stats.note_count, 0);
    let smf = recording_midi(&rec.midi).unwrap();
    let parsed = midly::Smf::parse(&smf).unwrap();
    let tempo = midly::TrackEventKind::Meta(midly::MetaMessage::Tempo(500_000.into()));
    assert_eq!(parsed.header.timing, midly::Timing::Metrical(480.into()));
    assert_eq!(parsed.header.format, midly::Format::Parallel);
    assert_eq!(parsed.tracks.len(), 2);
    assert_eq!(parsed.tracks[0].len(), 4);
    assert_eq!(parsed.tracks[0][0].kind, tempo);
    assert_eq!(
        parsed.tracks[0][1].kind,
        midly::TrackEventKind::Midi { channel: 0.into(), message: midly::MidiMessage::ProgramChange { program: 5.into() } }
    );
    assert_eq!(parsed.tracks[0][2].kind, midly::TrackEventKind::Meta(midly::MetaMessage::Text(b"hi")));
    assert_eq!(parsed.tracks[1][0].kind, tempo);
    assert_eq!(parsed.tracks[1].len(), 4);
    assert_eq!(parsed.tracks[1][2].delta.as_int(), 0x60);
}

#[test]
fn rows_affected_decides_not_found() {
    assert_eq!(check_rows_affected(0), Err(StoreError::NotFound));
    assert_eq!(check_rows_affected(1), Ok(()));
}

#[test]
fn migrations_run_in_order_then_stop() {
    assert_eq!(
        migration_action(None),
        MigrationAction::Apply { step: MigrationStep::Init, backup_of: None, new_version: 0 }
    );
    assert_eq!(
        migration_action(Some(0)),
        MigrationAction::Apply { step: MigrationStep::InlineMidi, backup_of: Some(0), new_version: 1 }
    );
    assert_eq!(
        migration_action(Some(1)),
        MigrationAction::Apply { step: MigrationStep::FixLength, backup_of: Some(1), new_version: 2 }
    );
    assert_eq!(migration_action(Some(2)), MigrationAction::Done);
    assert_eq!(migration_action(Some(3)), MigrationAction::TooNew);
    assert_eq!(migration_action(Some(-1)), MigrationAction::Invalid);
}

#[test]
fn second_startup_applies_nothing() {
    let mut version = None;
    let mut applied = 0;
    while let MigrationAction::Apply { new_version, .. } = migration_action(version) {
        version = Some(new_version);
        applied += 1;
    }
    assert_eq!(applied, 3);
    assert_eq!(migration_action(version), MigrationAction::Done);
}

#[test]
fn legacy_files_are_mid_files_in_name_order() {
    let names: Vec<String> = ["20240102-000000.mid", "notes.txt", "20240101-000000.mid", "x.MID", ".mid", "20240101-000000.mid"]
        .iter()
        .map(|s| s.to_string())
        .collect();
    assert_eq!(
        autorec::legacy::legacy_files(&names),
        vec![".mid".to_string(), "20240101-000000.mid".to_string(), "20240102-000000.mid".to_string()]
    );
}

#[test]
fn length_fix_restores_true_lengths() {
    for m in [0u128, 1, 2, 3, 4, 5, 7, 500_000, 1_000_001, 123_456_789] {
        let held = autorec::store::legacy_length_micros(m);
        assert_eq!(autorec::store::fix_length_micros(held), m);
    }
    assert_eq!(autorec::store::fix_length_micros(1_000_000), 800_000);
}

#[test]
fn legacy_creation_time_from_name() {
    assert_eq!(autorec::legacy::legacy_created_at("notes.mid", 42), 42);
    assert_eq!(autorec::legacy::legacy_created_at("20241301-000000.mid", 42), 42);
    let t = autorec::legacy::legacy_created_at("20240101-000000.mid", 42);
    let utc_midnight: i64 = 1_704_067_200_000_000;
    assert!((t - utc_midnight).abs() <= 15 * 3600 * 1_000_000);
}
