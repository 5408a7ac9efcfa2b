use vstd::prelude::*;

use crate::midi::{
    tick_to_duration, ticks_to_micros, Device, DeviceEvent, DeviceInfo, MidiEvent, RecordEvent,
    RECORDING_BPM, RECORDING_PPQ,
};
use crate::registry::MidiRegistry;

verus! {

/// The sequencer's system client (timer and announce ports).
pub const SYSTEM_CLIENT: i32 = 0;

/// The system port that announces ports appearing and leaving.
pub const SYSTEM_ANNOUNCE_PORT: i32 = 1;

/// Port type bit: the port speaks generic MIDI.
pub const PORT_TYPE_MIDI_GENERIC: u32 = 2;

/// Port capability bit: others may read from the port.
pub const PORT_CAP_READ: u32 = 1;

/// Port capability bit: others may subscribe to read from the port.
pub const PORT_CAP_SUBS_READ: u32 = 32;

/// A sequencer event, reduced to what the recorder and the listener read.
#[derive(Debug, Clone, Copy, PartialEq, Eq, Structural)]
pub enum SeqEvent {
    NoteOn { channel: u8, note: u8, velocity: u8 },
    NoteOff { channel: u8, note: u8 },
    Controller { channel: u8, param: u32, value: i32 },
    PortStart { client: i32, port: i32 },
    PortExit { client: i32, port: i32 },
    PortUnsubscribed,
    Other,
}

/// What the recorder makes of one sequencer event.
#[derive(Debug, Clone, Copy, PartialEq, Eq, Structural)]
pub enum RecorderItem {
    /// Not a note or controller event: dropped.
    Skip,
    /// A captured event.
    Event(RecordEvent),
    /// The source was unsubscribed: the stream ends.
    End,
}

/// The recorder's mapping of sequencer events to domain events.
pub open spec fn recorder_item_spec(event: SeqEvent, tick: u32) -> RecorderItem {
    match event {
        SeqEvent::NoteOn { channel, note, velocity } => if velocity > 0 {
            RecorderItem::Event(
                RecordEvent { timestamp: tick, payload: MidiEvent::NoteOn { channel, note, velocity } },
            )
        } else {
            RecorderItem::Event(
                RecordEvent { timestamp: tick, payload: MidiEvent::NoteOff { channel, note } },
            )
        },
        SeqEvent::NoteOff { channel, note } => RecorderItem::Event(
            RecordEvent { timestamp: tick, payload: MidiEvent::NoteOff { channel, note } },
        ),
        SeqEvent::Controller { channel, param, value } => RecorderItem::Event(
            RecordEvent {
                timestamp: tick,
                payload: MidiEvent::ControlChange { channel, controller: param, value },
            },
        ),
        SeqEvent::PortUnsubscribed => RecorderItem::End,
        _ => RecorderItem::Skip,
    }
}

/// Map an event received at queue tick `tick`. A NoteOn of velocity 0 is a
/// NoteOff; unsubscription ends the stream; other kinds are dropped.
pub fn recorder_item(event: &SeqEvent, tick: u32) -> (r: RecorderItem)
    ensures
        r == recorder_item_spec(*event, tick),
{
    match *event {
        SeqEvent::NoteOn { channel, note, velocity } => {
            let payload = if velocity > 0 {
                MidiEvent::NoteOn { channel, note, velocity }
            } else {
                MidiEvent::NoteOff { channel, note }
            };
            RecorderItem::Event(RecordEvent { timestamp: tick, payload })
        },
        SeqEvent::NoteOff { channel, note } => RecorderItem::Event(
            RecordEvent { timestamp: tick, payload: MidiEvent::NoteOff { channel, note } },
        ),
        SeqEvent::Controller { channel, param, value } => RecorderItem::Event(
            RecordEvent {
                timestamp: tick,
                payload: MidiEvent::ControlChange { channel, controller: param, value },
            },
        ),
        SeqEvent::PortUnsubscribed => RecorderItem::End,
        _ => RecorderItem::Skip,
    }
}

/// A port is a readable MIDI source when it belongs to a client other than
/// the system, speaks generic MIDI, and may be read and subscribed to.
pub open spec fn readable_midi_spec(client: i32, port_type: u32, capability: u32) -> bool {
    &&& client != SYSTEM_CLIENT
    &&& port_type & PORT_TYPE_MIDI_GENERIC != 0
    &&& capability & (PORT_CAP_READ | PORT_CAP_SUBS_READ) == (PORT_CAP_READ | PORT_CAP_SUBS_READ)
}

pub fn is_port_readable_midi(client: i32, port_type: u32, capability: u32) -> (r: bool)
    ensures
        r == readable_midi_spec(client, port_type, capability),
{
    client != SYSTEM_CLIENT && port_type & PORT_TYPE_MIDI_GENERIC != 0 && capability & (
    PORT_CAP_READ | PORT_CAP_SUBS_READ) == (PORT_CAP_READ | PORT_CAP_SUBS_READ)
}

/// The ports present at start-up that the listener reports as connected:
/// those whose client is not one of the application's own, in order.
pub fn initial_ports(registry: &MidiRegistry, ports: &Vec<Device>) -> (r: Vec<Device>)
    ensures
        r@ == ports@.filter(|d: Device| !registry@.contains(d.client_id)),
{
    let mut r: Vec<Device> = Vec::new();
    let mut i: usize = 0;
    while i < ports.len()
        invariant
            i <= ports.len(),
            r@ == ports@.subrange(0, i as int).filter(|d: Device| !registry@.contains(d.client_id)),
        decreases ports.len() - i,
    {
        let d = ports[i];
        proof {
            let f = |d: Device| !registry@.contains(d.client_id);
            assert(ports@.subrange(0, i + 1) == ports@.subrange(0, i as int).push(d));
            ports@.subrange(0, i as int).lemma_filter_push(d, f);
        }
        if !registry.is_known_client(d.client_id) {
            r.push(d);
        }
        i = i + 1;
    }
    assert(ports@.subrange(0, ports.len() as int) == ports@);
    r
}

/// The devices the listener has reported as connected and not yet as gone.
#[derive(Debug)]
pub struct DeviceListener {
    active: Vec<Device>,
}

impl View for DeviceListener {
    type V = Set<Device>;

    closed spec fn view(&self) -> Set<Device> {
        self.active@.to_set()
    }
}

impl DeviceListener {
    pub closed spec fn wf(&self) -> bool {
        self.active@.no_duplicates()
    }

    pub fn new() -> (r: Self)
        ensures
            r.wf(),
            r@ == Set::<Device>::empty(),
    {
        let r = DeviceListener { active: Vec::new() };
        assert(r.active@ =~= Seq::<Device>::empty());
        assert(r@ =~= Set::<Device>::empty());
        r
    }

    fn position(&self, device: Device) -> (r: Option<usize>)
        ensures
            match r {
                Some(i) => i < self.active@.len() && self.active@[i as int] == device,
                None => !self.active@.contains(device),
            },
    {
        let mut i: usize = 0;
        while i < self.active.len()
            invariant
                i <= self.active@.len(),
                forall|j: int| 0 <= j < i ==> self.active@[j] != device,
            decreases self.active.len() - i,
        {
            if self.active[i] == device {
                return Some(i);
            }
            i = i + 1;
        }
        None
    }

    pub fn is_active(&self, device: Device) -> (r: bool)
        ensures
            r == self@.contains(device),
    {
        self.position(device).is_some()
    }

    /// A port appeared. It is reported, and becomes active, only when its
    /// client is not one of the application's own, it is a readable MIDI
    /// port, and it is not active already.
    pub fn port_started(
        &mut self,
        device: Device,
        known_client: bool,
        readable_midi: bool,
        info: DeviceInfo,
    ) -> (r: Option<DeviceEvent>)
        requires
            old(self).wf(),
        ensures
            final(self).wf(),
            (!known_client && readable_midi && !old(self)@.contains(device)) ==> {
                &&& final(self)@ == old(self)@.insert(device)
                &&& r matches Some(DeviceEvent::Connected { device: d, info: i }) && d == device
                    && i.client_name@ == info.client_name@ && i.port_name@ == info.port_name@
            },
            !(!known_client && readable_midi && !old(self)@.contains(device)) ==> {
                &&& final(self)@ == old(self)@
                &&& r is None
            },
    {
        if known_client || !readable_midi || self.position(device).is_some() {
            return None;
        }
        let ghost before = self.active@;
        self.active.push(device);
        proof {
            assert(self.active@ == before.push(device));
            assert forall|x: Device| #[trigger] self@.contains(x) == old(self)@.insert(device).contains(x) by {
                if x != device && self@.contains(x) {
                    let k = choose|k: int| 0 <= k < self.active@.len() && self.active@[k] == x;
                    assert(before[k] == x);
                }
                if before.contains(x) {
                    let k = choose|k: int| 0 <= k < before.len() && before[k] == x;
                    assert(self.active@[k] == x);
                }
                if x == device {
                    assert(self.active@[before.len() as int] == x);
                }
            }
            assert(self@ =~= old(self)@.insert(device));
            assert(self.active@.no_duplicates()) by {
                assert forall|a: int, b: int| 0 <= a < b < self.active@.len() implies self.active@[a] != self.active@[b] by {
                    if b == self.active@.len() - 1 {
                        assert(before.contains(before[a]));
                    }
                }
            }
        }
        Some(DeviceEvent::Connected { device, info })
    }

    /// A port left. It is reported only if it was active, and is then no
    /// longer active.
    pub fn port_exited(&mut self, device: Device) -> (r: Option<DeviceEvent>)
        requires
            old(self).wf(),
        ensures
            final(self).wf(),
            final(self)@ == old(self)@.remove(device),
            old(self)@.contains(device) ==> r == Some(DeviceEvent::Disconnected { device }),
            !old(self)@.contains(device) ==> r is None,
    {
        match self.position(device) {
            None => {
                assert(self@ =~= old(self)@.remove(device));
                None
            },
            Some(i) => {
                let ghost before = self.active@;
                self.active.remove(i);
                proof {
                    assert(self.active@ == before.remove(i as int));
                    assert(self.active@.no_duplicates()) by {
                        assert forall|a: int, b: int| 0 <= a < b < self.active@.len() implies self.active@[a] != self.active@[b] by {
                            let a0 = if a < i { a } else { a + 1 };
                            let b0 = if b < i { b } else { b + 1 };
                            assert(self.active@[a] == before[a0]);
                            assert(self.active@[b] == before[b0]);
                        }
                    }
                    assert forall|x: Device| #[trigger] self@.contains(x) == old(self)@.remove(device).contains(x) by {
                        if self@.contains(x) {
                            let k = choose|k: int| 0 <= k < self.active@.len() && self.active@[k] == x;
                            let k0 = if k < i { k } else { k + 1 };
                            assert(before[k0] == x);
                            assert(k0 != i);
                        }
                        if old(self)@.remove(device).contains(x) {
                            let k = choose|k: int| 0 <= k < before.len() && before[k] == x;
                            assert(k != i);
                            let k1 = if k < i { k } else { k - 1 };
                            assert(self.active@[k1] == x);
                        }
                    }
                    assert(self@ =~= old(self)@.remove(device));
                }
                Some(DeviceEvent::Disconnected { device })
            },
        }
    }
}

/// The recorder's own state: the timing of its queue, and whether its
/// stream has ended.
#[derive(Debug)]
pub struct MidiRecorder {
    bpm: u32,
    ppq: u32,
    ended: bool,
}

impl MidiRecorder {
    pub closed spec fn ended(&self) -> bool {
        self.ended
    }

    pub closed spec fn timing(&self) -> (u32, u32) {
        (self.bpm, self.ppq)
    }

    /// A recorder whose queue runs at 120 BPM and 96 ticks per quarter note.
    pub fn new() -> (r: Self)
        ensures
            !r.ended(),
            r.timing() == (RECORDING_BPM as u32, RECORDING_PPQ as u32),
    {
        MidiRecorder { bpm: RECORDING_BPM as u32, ppq: RECORDING_PPQ as u32 , ended: false }
    }

    /// The length of `tick` ticks of this recorder's queue, in microseconds.
    pub fn tick_to_duration(&self, tick: u32) -> (r: u64)
        requires
            self.timing() == (RECORDING_BPM as u32, RECORDING_PPQ as u32),
        ensures
            r == ticks_to_micros(tick as int),
    {
        tick_to_duration(tick)
    }

    /// Map the next event of the stream; once the stream has ended, the
    /// recorder takes no more events.
    pub fn next(&mut self, event: &SeqEvent, tick: u32) -> (r: RecorderItem)
        requires
            !old(self).ended(),
        ensures
            r == recorder_item_spec(*event, tick),
            final(self).ended() == (r is End),
            final(self).timing() == old(self).timing(),
    {
        let r = recorder_item(event, tick);
        if let RecorderItem::End = r {
            self.ended = true;
        }
        r
    }
}

} // verus!
