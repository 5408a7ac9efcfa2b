use autorec::backend::{
    initial_ports, is_port_readable_midi, recorder_item, DeviceListener, MidiRecorder,
    RecorderItem, SeqEvent,
};
use autorec::midi::{tick_to_duration, Device, DeviceEvent, DeviceInfo, Manager, MidiEvent, RecordEvent};
use autorec::registry::MidiRegistry;

fn info(name: &str) -> DeviceInfo {
    DeviceInfo { client_name: name.to_string(), port_name: "port".to_string() }
}

#[test]
fn note_on_with_zero_velocity_is_note_off() {
    let r = recorder_item(&SeqEvent::NoteOn { channel: 2, note: 64, velocity: 0 }, 77);
    assert_eq!(
        r,
        RecorderItem::Event(RecordEvent {
            timestamp: 77,
            payload: MidiEvent::NoteOff { channel: 2, note: 64 }
        })
    );
}

#[test]
fn recorder_maps_events() {
    assert_eq!(
        recorder_item(&SeqEvent::NoteOn { channel: 0, note: 60, velocity: 100 }, 5),
        RecorderItem::Event(RecordEvent {
            timestamp: 5,
            payload: MidiEvent::NoteOn { channel: 0, note: 60, velocity: 100 }
        })
    );
    assert_eq!(
        recorder_item(&SeqEvent::Controller { channel: 1, param: 64, value: 127 }, 9),
        RecorderItem::Event(RecordEvent {
            timestamp: 9,
            payload: MidiEvent::ControlChange { channel: 1, controller: 64, value: 127 }
        })
    );
    assert_eq!(recorder_item(&SeqEvent::Other, 9), RecorderItem::Skip);
    assert_eq!(recorder_item(&SeqEvent::PortStart { client: 1, port: 0 }, 9), RecorderItem::Skip);
    assert_eq!(recorder_item(&SeqEvent::PortUnsubscribed, 9), RecorderItem::End);
}

#[test]
fn recorder_ends_once() {
    let mut rec = MidiRecorder::new();
    assert_eq!(rec.tick_to_duration(192), 1_000_000);
    assert_eq!(rec.next(&SeqEvent::Other, 1), RecorderItem::Skip);
    assert_eq!(rec.next(&SeqEvent::PortUnsubscribed, 2), RecorderItem::End);
}

#[test]
fn tick_durations() {
    assert_eq!(tick_to_duration(96), 500_000);
    assert_eq!(tick_to_duration(192), 1_000_000);
    assert_eq!(tick_to_duration(1), 5208);
    assert_eq!(tick_to_duration(0), 0);
}

#[test]
fn readable_midi_ports() {
    assert!(is_port_readable_midi(20, 2, 1 | 32));
    assert!(is_port_readable_midi(20, 2 | 1 << 20, 0x7f));
    assert!(!is_port_readable_midi(0, 2, 1 | 32));
    assert!(!is_port_readable_midi(20, 1 << 20, 1 | 32));
    assert!(!is_port_readable_midi(20, 2, 1));
    assert!(!is_port_readable_midi(20, 2, 32));
}

#[test]
fn registry_tracks_own_clients() {
    let mut reg = MidiRegistry::new();
    assert!(!reg.is_known_client(128));
    reg.register_client(128);
    assert!(reg.is_known_client(128));
    reg.drop_client(128);
    assert!(!reg.is_known_client(128));
    let m = Manager::new();
    assert!(!m.registry.is_known_client(0));
}

#[test]
fn initial_ports_skip_own_clients() {
    let mut reg = MidiRegistry::new();
    reg.register_client(130);
    let ports = vec![
        Device { client_id: 20, port_id: 0 },
        Device { client_id: 130, port_id: 0 },
        Device { client_id: 24, port_id: 1 },
    ];
    assert_eq!(
        initial_ports(&reg, &ports),
        vec![Device { client_id: 20, port_id: 0 }, Device { client_id: 24, port_id: 1 }]
    );
}

#[test]
fn listener_reports_connects_and_disconnects() {
    let mut l = DeviceListener::new();
    let d = Device { client_id: 20, port_id: 0 };
    assert!(l.port_started(d, true, true, info("own")).is_none());
    assert!(l.port_started(d, false, false, info("x")).is_none());
    assert!(l.port_exited(d).is_none());
    match l.port_started(d, false, true, info("Piano")) {
        Some(DeviceEvent::Connected { device, info }) => {
            assert_eq!(device, d);
            assert_eq!(info.client_name, "Piano");
        }
        other => panic!("unexpected {:?}", other),
    }
    assert!(l.is_active(d));
    assert!(l.port_started(d, false, true, info("Piano")).is_none());
    assert!(matches!(l.port_exited(d), Some(DeviceEvent::Disconnected { device }) if device == d));
    assert!(!l.is_active(d));
    assert!(l.port_exited(d).is_none());
}

#[test]
fn device_id_text() {
    assert_eq!(Device { client_id: 20, port_id: 0 }.id(), "20:0");
    assert_eq!(Device { client_id: 128, port_id: 13 }.id(), "128:13");
    assert_eq!(Device { client_id: -1, port_id: 2 }.id(), "-1:2");
}
