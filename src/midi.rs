use vstd::prelude::*;

use crate::registry::MidiRegistry;

verus! {

/// Pulses (ticks) per quarter note of every stored recording.
pub const RECORDING_PPQ: u16 = 96;

/// Beats per minute that give the ticks of a recording their meaning.
pub const RECORDING_BPM: u16 = 120;

/// Microseconds per quarter note: 60 000 000 / RECORDING_BPM.
pub const RECORDING_TEMPO: u32 = 500_000;

/// A note or controller event as captured from the instrument.
#[derive(Debug, Clone, Copy, PartialEq, Eq, Structural)]
pub enum MidiEvent {
    NoteOn { channel: u8, note: u8, velocity: u8 },
    NoteOff { channel: u8, note: u8 },
    ControlChange { channel: u8, controller: u32, value: i32 },
}

/// A captured event with its timestamp in queue ticks.
#[derive(Debug, Clone, Copy, PartialEq, Eq, Structural)]
pub struct RecordEvent {
    pub timestamp: u32,
    pub payload: MidiEvent,
}

/// The decimal text of an integer, with a leading '-' when it is negative.
pub open spec fn decimal_digits(n: nat) -> Seq<char>
    decreases n,
{
    if n < 10 {
        seq![(n + '0' as nat) as char]
    } else {
        decimal_digits(n / 10).push(((n % 10) + '0' as nat) as char)
    }
}

pub open spec fn int_text(i: int) -> Seq<char> {
    if i < 0 {
        seq!['-'].add(decimal_digits((-i) as nat))
    } else {
        decimal_digits(i as nat)
    }
}

/// Relies on `format!` with the `Display` of `i32`: each number in decimal,
/// with a leading '-' when negative, joined by ':'.
#[verifier::external_body]
fn address_text(client: i32, port: i32) -> (r: String)
    ensures
        r@ == int_text(client as int).add(seq![':']).add(int_text(port as int)),
{
    format!("{}:{}", client, port)
}

/// A port on the sequencer bus, identified by its client and port numbers.
#[derive(Debug, Clone, Copy, PartialEq, Eq, Structural, Hash)]
pub struct Device {
    pub client_id: i32,
    pub port_id: i32,
}

impl Device {
    /// The address as the sequencer's tools write it: "client:port".
    pub fn id(&self) -> (r: String)
        ensures
            r@ == int_text(self.client_id as int).add(seq![':']).add(int_text(self.port_id as int)),
    {
        address_text(self.client_id, self.port_id)
    }
}

/// Names of a device, taken when it connected.
#[derive(Debug, Clone)]
pub struct DeviceInfo {
    pub client_name: String,
    pub port_name: String,
}

/// A device appearing on or leaving the bus.
#[derive(Debug, Clone)]
pub enum DeviceEvent {
    Connected { device: Device, info: DeviceInfo },
    Disconnected { device: Device },
}

/// The length in microseconds of `ticks` at the canonical tempo and resolution:
/// ticks * 60 000 000 / (BPM * PPQ), that is ticks / 192 seconds.
pub open spec fn ticks_to_micros(ticks: int) -> int {
    ticks * 60_000_000 / ((RECORDING_BPM as int) * (RECORDING_PPQ as int))
}

/// The length of `tick` queue ticks in microseconds.
pub fn tick_to_duration(tick: u32) -> (r: u64)
    ensures
        r == ticks_to_micros(tick as int),
        r == (tick as int) * 1_000_000 / 192,
{
    let bpm: u64 = RECORDING_BPM as u64;
    let ppq: u64 = RECORDING_PPQ as u64;
    assert(RECORDING_BPM == 120 && RECORDING_PPQ == 96);
    assert(bpm * ppq == 11520);
    let r = (tick as u64) * 60_000_000 / (bpm * ppq);
    assert((tick as int) * 60_000_000 / 11520 == (tick as int) * 1_000_000 / 192) by (nonlinear_arith);
    r
}

/// Owns the registry of the application's own sequencer clients.
#[derive(Debug)]
pub struct Manager {
    pub registry: MidiRegistry,
}

impl Manager {
    pub fn new() -> (r: Self)
        ensures
            r.registry@ == Set::<i32>::empty(),
    {
        Manager { registry: MidiRegistry::new() }
    }
}

} // verus!
