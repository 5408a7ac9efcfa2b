use std::collections::HashSet;

use vstd::prelude::*;

use crate::midi::{MidiEvent, RecordEvent};

verus! {

broadcast use vstd::std_specs::hash::group_hash_axioms;

/// The sustain pedal's controller number.
pub const SUSTAIN_CONTROLLER: u32 = 64;

/// Controller values at or above this engage the sustain pedal.
pub const SUSTAIN_ON_THRESHOLD: i32 = 64;

/// The key of a (channel, note) pair in the set of pressed keys.
pub open spec fn key_code(channel: u8, note: u8) -> u16 {
    ((channel as u16) * 256 + (note as u16)) as u16
}

/// What the keyboard holds down: keys and sustain pedals.
#[derive(Debug)]
pub struct KeyboardState {
    sustain_channels: HashSet<u8>,
    pressed_keys: HashSet<u16>,
}

/// The abstract state of a keyboard.
pub struct KeyboardView {
    pub pressed_keys: Set<(u8, u8)>,
    pub sustain_channels: Set<u8>,
}

/// The keyboard state after one event.
pub open spec fn keyboard_step(k: KeyboardView, e: MidiEvent) -> KeyboardView {
    match e {
        MidiEvent::NoteOn { channel, note, .. } => KeyboardView {
            pressed_keys: k.pressed_keys.insert((channel, note)),
            ..k
        },
        MidiEvent::NoteOff { channel, note } => KeyboardView {
            pressed_keys: k.pressed_keys.remove((channel, note)),
            ..k
        },
        MidiEvent::ControlChange { channel, controller, value } => {
            if controller == SUSTAIN_CONTROLLER {
                if value >= SUSTAIN_ON_THRESHOLD {
                    KeyboardView { sustain_channels: k.sustain_channels.insert(channel), ..k }
                } else {
                    KeyboardView { sustain_channels: k.sustain_channels.remove(channel), ..k }
                }
            } else {
                k
            }
        },
    }
}

/// No key is held and no sustain pedal is down.
pub open spec fn keyboard_idle(k: KeyboardView) -> bool {
    k.pressed_keys.is_empty() && k.sustain_channels.is_empty()
}

proof fn lemma_key_code_injective(c1: u8, n1: u8, c2: u8, n2: u8)
    ensures
        key_code(c1, n1) == key_code(c2, n2) <==> (c1 == c2 && n1 == n2),
{
}

impl View for KeyboardState {
    type V = KeyboardView;

    closed spec fn view(&self) -> KeyboardView {
        KeyboardView {
            pressed_keys: Set::new(|p: (u8, u8)| self.pressed_keys@.contains(key_code(p.0, p.1))),
            sustain_channels: self.sustain_channels@,
        }
    }
}

impl KeyboardState {
    /// A keyboard with nothing pressed.
    pub fn new() -> (r: Self)
        ensures
            r@.pressed_keys == Set::<(u8, u8)>::empty(),
            r@.sustain_channels == Set::<u8>::empty(),
    {
        let r = Self { sustain_channels: HashSet::new(), pressed_keys: HashSet::new() };
        assert(r@.pressed_keys =~= Set::<(u8, u8)>::empty());
        r
    }

    /// Apply one event: NoteOn presses, NoteOff releases, controller 64 at or
    /// above 64 latches the channel's sustain and below 64 releases it.
    pub fn update(&mut self, event: &RecordEvent)
        ensures
            final(self)@ == keyboard_step(old(self)@, event.payload),
    {
        match event.payload {
            MidiEvent::NoteOn { channel, note, .. } => {
                let code: u16 = (channel as u16) * 256 + (note as u16);
                self.pressed_keys.insert(code);
                assert forall|p: (u8, u8)| #[trigger] self@.pressed_keys.contains(p)
                    == old(self)@.pressed_keys.insert((channel, note)).contains(p) by {
                    lemma_key_code_injective(p.0, p.1, channel, note);
                }
                assert(self@.pressed_keys =~= old(self)@.pressed_keys.insert((channel, note)));
            },
            MidiEvent::NoteOff { channel, note } => {
                let code: u16 = (channel as u16) * 256 + (note as u16);
                self.pressed_keys.remove(&code);
                assert forall|p: (u8, u8)| #[trigger] self@.pressed_keys.contains(p)
                    == old(self)@.pressed_keys.remove((channel, note)).contains(p) by {
                    lemma_key_code_injective(p.0, p.1, channel, note);
                }
                assert(self@.pressed_keys =~= old(self)@.pressed_keys.remove((channel, note)));
            },
            MidiEvent::ControlChange { channel, controller, value } => {
                if controller == SUSTAIN_CONTROLLER {
                    if value >= SUSTAIN_ON_THRESHOLD {
                        self.sustain_channels.insert(channel);
                    } else {
                        self.sustain_channels.remove(&channel);
                    }
                }
                assert(self@.pressed_keys =~= old(self)@.pressed_keys);
            },
        }
    }

    /// True exactly when no key is held and no sustain pedal is down.
    pub fn is_idle(&self) -> (r: bool)
        ensures
            r == keyboard_idle(self@),
    {
        let r = self.sustain_channels.is_empty() && self.pressed_keys.is_empty();
        proof {
            if !self.pressed_keys@.is_empty() {
                let c = self.pressed_keys@.choose();
                let p: (u8, u8) = ((c / 256) as u8, (c % 256) as u8);
                assert(key_code(p.0, p.1) == c);
                assert(self@.pressed_keys.contains(p));
            }
            if self.pressed_keys@.is_empty() {
                assert(self@.pressed_keys =~= Set::<(u8, u8)>::empty());
            }
        }
        r
    }
}

} // verus!
