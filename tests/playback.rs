use autorec::coordinator::{queue_change, StateChange};
use autorec::queue::{MidiPlayQueue, QueueEvent};
use autorec::store::RecordingId;

#[test]
fn preemption_order() {
    let a = RecordingId(1);
    let b = RecordingId(2);
    let mut q = MidiPlayQueue::new();
    let mut log = Vec::new();
    // play(A)
    assert_eq!(q.take_handle(), None);
    log.push(q.started(a));
    assert_eq!(q.current(), Some(a));
    // play(B) before A ends: cancel A, wait for its end, then start B
    assert_eq!(q.take_handle(), Some(a));
    log.extend(q.finished());
    log.push(q.started(b));
    assert_eq!(
        log,
        vec![
            QueueEvent::PlaybackStart(a),
            QueueEvent::PlaybackStop(a),
            QueueEvent::PlaybackStart(b)
        ]
    );
    let changes: Vec<StateChange> = log.into_iter().map(queue_change).collect();
    assert!(matches!(changes[0], StateChange::PlayBegin { recording } if recording == a));
    assert!(matches!(changes[1], StateChange::PlayEnd));
    assert!(matches!(changes[2], StateChange::PlayBegin { recording } if recording == b));
}

#[test]
fn begins_match_ends_once_idle() {
    let mut q = MidiPlayQueue::new();
    let mut begins = 0;
    let mut ends = 0;
    for id in 0..5 {
        if q.take_handle().is_some() {
            if let Some(QueueEvent::PlaybackStop(_)) = q.finished() {
                ends += 1;
            }
        }
        if let QueueEvent::PlaybackStart(_) = q.started(RecordingId(id)) {
            begins += 1;
        }
        if id % 2 == 0 {
            // this one ends by itself
            if q.finished().is_some() {
                ends += 1;
            }
        }
    }
    // stop()
    if q.take_handle().is_some() {
        if q.finished().is_some() {
            ends += 1;
        }
    }
    assert_eq!(q.current(), None);
    assert_eq!(begins, 5);
    assert_eq!(begins, ends);
}

#[test]
fn stop_when_idle_is_noop() {
    let mut q: MidiPlayQueue<RecordingId> = MidiPlayQueue::new();
    assert_eq!(q.take_handle(), None);
    assert_eq!(q.finished(), None);
    assert_eq!(q.current(), None);
}
