use autorec::classify::{group_histograms, similarity_terms, ClassifyEntry};
use autorec::coordinator::{record_outcome, ConnectDecision, RecordingInfo, Session, StateChange};
use autorec::midi::{Device, DeviceInfo};
use autorec::store::{RecordingId, StoreError};

fn info(name: &str) -> DeviceInfo {
    DeviceInfo { client_name: name.to_string(), port_name: "MIDI 1".to_string() }
}

#[test]
fn connect_without_match_does_nothing() {
    let s = Session::new();
    assert_eq!(s.on_connected(&info("USB Keyboard"), "Digital Piano"), ConnectDecision::NoMatch);
    assert_eq!(s.on_connected(&info("digital piano"), "Digital Piano"), ConnectDecision::NoMatch);
    assert_eq!(s.listening_device(), None);
}

#[test]
fn connect_with_match_attaches() {
    let mut s = Session::new();
    let d = Device { client_id: 24, port_id: 0 };
    assert_eq!(s.on_connected(&info("Roland Digital Piano"), "Digital Piano"), ConnectDecision::Attach);
    assert_eq!(s.on_connected(&info("Anything"), ""), ConnectDecision::Attach);
    let change = s.attach(d, info("Roland Digital Piano"));
    assert!(matches!(change, StateChange::ListenBegin { device, .. } if device == d));
    assert_eq!(s.listening_device(), Some(d));
    assert_eq!(s.play_target(), Ok(d));
}

#[test]
fn connect_while_listening_changes_nothing() {
    let mut s = Session::new();
    let d = Device { client_id: 24, port_id: 0 };
    s.attach(d, info("Piano A"));
    assert_eq!(s.on_connected(&info("Piano B"), "Piano"), ConnectDecision::AlreadyListening);
    assert_eq!(s.listening_device(), Some(d));
    assert!(matches!(s.detach(), StateChange::ListenEnd));
    assert_eq!(s.listening_device(), None);
    assert_eq!(s.play_target(), Err(StoreError::NotFound));
}

#[test]
fn record_outcomes() {
    let rec = RecordingInfo {
        id: RecordingId(3),
        name: String::new(),
        created_at_micros: 0,
        length_micros: 500_000,
        note_count: 1,
    };
    match record_outcome(Ok(rec)) {
        StateChange::RecordEnd { recording } => {
            assert_eq!(recording.id, RecordingId(3));
            assert_eq!(recording.length_micros, 500_000);
            assert_eq!(recording.note_count, 1);
        }
        other => panic!("unexpected {:?}", other),
    }
    match record_outcome(Err(StoreError::Database)) {
        StateChange::RecordError { message } => {
            assert_eq!(message, "the database refused the operation")
        }
        other => panic!("unexpected {:?}", other),
    }
    assert_eq!(StoreError::NotFound.message(), "no recording has this id");
}

fn hist(pairs: &[(usize, u32)]) -> Vec<u32> {
    let mut h = vec![0; 128];
    for &(k, v) in pairs {
        h[k] = v;
    }
    h
}

fn entry(id: i32, name: &str, h: Vec<u32>) -> ClassifyEntry {
    ClassifyEntry { id: RecordingId(id), name: name.to_string(), histogram: h }
}

#[test]
fn classify_groups_by_name() {
    let target = RecordingId(9);
    let query = hist(&[(60, 2), (64, 1)]);
    let entries = vec![
        entry(1, "X", hist(&[(60, 1)])),
        entry(2, "X", hist(&[(64, 1), (60, 1)])),
        entry(3, "Y", hist(&[(40, 3)])),
        entry(4, "", hist(&[(60, 9)])),
        entry(9, "Z", query.clone()),
    ];
    let groups = group_histograms(target, &entries);
    let names: Vec<&str> = groups.iter().map(|g| g.name.as_str()).collect();
    assert_eq!(names, vec!["X", "Y"]);
    assert_eq!(groups[0].histogram[60], 2);
    assert_eq!(groups[0].histogram[64], 1);
    assert_eq!(groups[1].histogram[40], 3);

    let mut scored: Vec<(String, f64)> = groups
        .iter()
        .filter_map(|g| {
            let t = similarity_terms(&query, &g.histogram)?;
            Some((
                g.name.clone(),
                t.dot as f64 / ((t.norm_query as f64).sqrt() * (t.norm_group as f64).sqrt()),
            ))
        })
        .collect();
    scored.sort_by(|a, b| b.1.partial_cmp(&a.1).unwrap());
    assert_eq!(scored.len(), 2);
    assert_eq!(scored[0].0, "X");
    assert_eq!(scored[1].0, "Y");
    assert!((scored[0].1 - 1.0).abs() < 1e-12);
    assert!(scored.iter().all(|(_, s)| (0.0..=1.0 + 1e-12).contains(s)));
}

#[test]
fn similarity_terms_exact() {
    let a = hist(&[(0, 3), (1, 4)]);
    let b = hist(&[(0, 4), (2, 1)]);
    let t = similarity_terms(&a, &b).unwrap();
    assert_eq!(t.dot, 12);
    assert_eq!(t.norm_query, 25);
    assert_eq!(t.norm_group, 17);
    assert_eq!(similarity_terms(&a, &vec![0; 128]), None);
}

#[test]
fn merged_bins_saturate() {
    let entries = vec![
        entry(1, "X", hist(&[(5, u32::MAX - 1)])),
        entry(2, "X", hist(&[(5, 7)])),
    ];
    let groups = group_histograms(RecordingId(0), &entries);
    assert_eq!(groups[0].histogram[5], u32::MAX);
}
