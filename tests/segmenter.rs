use autorec::keyboard::KeyboardState;
use autorec::midi::{MidiEvent, RecordEvent};
use autorec::segmenter::{Phase, Segmenter, SegmenterInput, SegmenterOutput, StopReason};

fn ev(timestamp: u32, payload: MidiEvent) -> SegmenterInput {
    SegmenterInput::Event(RecordEvent { timestamp, payload })
}

fn note_on(channel: u8, note: u8, velocity: u8) -> MidiEvent {
    MidiEvent::NoteOn { channel, note, velocity }
}

fn note_off(channel: u8, note: u8) -> MidiEvent {
    MidiEvent::NoteOff { channel, note }
}

fn cc(channel: u8, controller: u32, value: i32) -> MidiEvent {
    MidiEvent::ControlChange { channel, controller, value }
}

fn feed_all(seg: &mut Segmenter, inputs: &[SegmenterInput]) -> Vec<SegmenterOutput> {
    inputs
        .iter()
        .map(|i| {
            assert!(seg.accepts(i));
            seg.feed(*i)
        })
        .collect()
}

fn finished(outs: &[SegmenterOutput]) -> Vec<(Vec<RecordEvent>, StopReason)> {
    outs.iter()
        .filter_map(|o| match o {
            SegmenterOutput::SongFinished { song, reason } => Some((song.clone(), *reason)),
            _ => None,
        })
        .collect()
}

#[test]
fn keyboard_tracks_keys_and_sustain() {
    let mut k = KeyboardState::new();
    assert!(k.is_idle());
    k.update(&RecordEvent { timestamp: 0, payload: note_on(0, 60, 100) });
    assert!(!k.is_idle());
    k.update(&RecordEvent { timestamp: 1, payload: cc(0, 64, 64) });
    k.update(&RecordEvent { timestamp: 2, payload: note_off(0, 60) });
    assert!(!k.is_idle());
    k.update(&RecordEvent { timestamp: 3, payload: cc(0, 7, 0) });
    assert!(!k.is_idle());
    k.update(&RecordEvent { timestamp: 4, payload: cc(0, 64, 63) });
    assert!(k.is_idle());
}

#[test]
fn keyboard_keys_are_per_channel() {
    let mut k = KeyboardState::new();
    k.update(&RecordEvent { timestamp: 0, payload: note_on(1, 60, 100) });
    k.update(&RecordEvent { timestamp: 0, payload: note_off(0, 60) });
    assert!(!k.is_idle());
    k.update(&RecordEvent { timestamp: 0, payload: note_off(1, 60) });
    assert!(k.is_idle());
}

#[test]
fn silent_channel_records_nothing() {
    let mut seg = Segmenter::new();
    let outs = feed_all(&mut seg, &[SegmenterInput::Timeout, SegmenterInput::Timeout]);
    assert!(outs.iter().all(|o| matches!(o, SegmenterOutput::Nothing)));
    assert_eq!(seg.phase(), Phase::Waiting);
}

#[test]
fn single_event_then_silence_is_one_song() {
    let mut seg = Segmenter::new();
    let outs = feed_all(&mut seg, &[ev(5000, note_off(0, 60)), SegmenterInput::Timeout]);
    assert!(matches!(outs[0], SegmenterOutput::SongStarted));
    let songs = finished(&outs);
    assert_eq!(songs.len(), 1);
    assert_eq!(songs[0].0, vec![RecordEvent { timestamp: 0, payload: note_off(0, 60) }]);
    assert_eq!(songs[0].1, StopReason::Idle);
    assert_eq!(seg.phase(), Phase::Waiting);
}

#[test]
fn held_key_ends_after_six_timeouts() {
    let mut seg = Segmenter::new();
    let mut inputs = vec![ev(10, note_on(0, 60, 100))];
    inputs.extend(std::iter::repeat(SegmenterInput::Timeout).take(5));
    let outs = feed_all(&mut seg, &inputs);
    assert!(finished(&outs).is_empty());
    let last = seg.feed(SegmenterInput::Timeout);
    match last {
        SegmenterOutput::SongFinished { song, reason } => {
            assert_eq!(song, vec![RecordEvent { timestamp: 0, payload: note_on(0, 60, 100) }]);
            assert_eq!(reason, StopReason::Idle);
        }
        other => panic!("expected a finished song, got {:?}", other),
    }
}

#[test]
fn single_note_song() {
    let mut seg = Segmenter::new();
    let outs = feed_all(
        &mut seg,
        &[ev(0, note_on(0, 60, 100)), ev(96, note_off(0, 60)), SegmenterInput::Timeout],
    );
    let songs = finished(&outs);
    assert_eq!(songs.len(), 1);
    assert_eq!(
        songs[0].0,
        vec![
            RecordEvent { timestamp: 0, payload: note_on(0, 60, 100) },
            RecordEvent { timestamp: 96, payload: note_off(0, 60) },
        ]
    );
    let rec = autorec::store::prepare_recording(&songs[0].0).unwrap();
    assert_eq!(rec.stats.note_count, 1);
    assert_eq!(rec.stats.length_micros, 500_000);
    assert_eq!(rec.stats.length_ticks, 96);
}

#[test]
fn sustain_keeps_song_alive() {
    let mut seg = Segmenter::new();
    let t0 = 2000;
    let outs = feed_all(
        &mut seg,
        &[
            ev(0, note_on(0, 60, 100)),
            ev(1, cc(0, 64, 127)),
            ev(96, note_off(0, 60)),
            SegmenterInput::Timeout,
            SegmenterInput::Timeout,
            ev(t0, cc(0, 64, 0)),
            SegmenterInput::Timeout,
        ],
    );
    let songs = finished(&outs);
    assert_eq!(songs.len(), 1);
    assert_eq!(songs[0].0.len(), 4);
    assert_eq!(songs[0].0[3], RecordEvent { timestamp: t0, payload: cc(0, 64, 0) });
    let started = outs.iter().filter(|o| matches!(o, SegmenterOutput::SongStarted)).count();
    assert_eq!(started, 1);
}

#[test]
fn timestamps_are_song_relative() {
    let mut seg = Segmenter::new();
    let outs = feed_all(
        &mut seg,
        &[
            ev(1000, note_on(0, 60, 1)),
            ev(1000, note_on(0, 62, 1)),
            ev(1500, note_off(0, 60)),
            ev(1700, note_off(0, 62)),
            SegmenterInput::Timeout,
            ev(9000, note_off(1, 1)),
            SegmenterInput::Disconnect,
        ],
    );
    let songs = finished(&outs);
    assert_eq!(songs.len(), 2);
    let stamps: Vec<u32> = songs[0].0.iter().map(|e| e.timestamp).collect();
    assert_eq!(stamps, vec![0, 0, 500, 700]);
    assert_eq!(songs[1].0, vec![RecordEvent { timestamp: 0, payload: note_off(1, 1) }]);
    assert_eq!(songs[1].1, StopReason::Disconnect);
    assert_eq!(seg.phase(), Phase::Ended);
    assert!(!seg.accepts(&SegmenterInput::Timeout));
}

#[test]
fn disconnect_while_waiting_stops() {
    let mut seg = Segmenter::new();
    let out = seg.feed(SegmenterInput::Disconnect);
    assert!(matches!(out, SegmenterOutput::Stopped));
    assert_eq!(seg.phase(), Phase::Ended);
}

#[test]
fn ticks_going_backwards_are_refused() {
    let mut seg = Segmenter::new();
    seg.feed(ev(100, note_on(0, 60, 1)));
    assert!(!seg.accepts(&ev(99, note_off(0, 60))));
    assert!(seg.accepts(&ev(100, note_off(0, 60))));
}
