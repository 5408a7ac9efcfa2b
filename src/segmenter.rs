use vstd::prelude::*;

use crate::keyboard::{keyboard_idle, keyboard_step, KeyboardState, KeyboardView};
use crate::midi::{MidiEvent, RecordEvent};

verus! {

/// Seconds of silence the driver waits before it reports a timeout.
pub const IDLE_TIMEOUT_SECS: u64 = 5;

/// Consecutive timeouts with a non-idle keyboard after which a song ends anyway.
pub const MAX_IDLE_PERIODS: usize = 6;

/// Why a song ended.
#[derive(Debug, Clone, Copy, PartialEq, Eq, Structural)]
pub enum StopReason {
    /// The pianist was idle for too long.
    Idle,
    /// The device was disconnected or turned off.
    Disconnect,
}

/// Where the segmenter stands.
#[derive(Debug, Clone, Copy, PartialEq, Eq, Structural)]
pub enum Phase {
    /// Waiting, without timeout, for the first event of a song.
    Waiting,
    /// Recording a song; the driver waits for events with a timeout.
    Recording,
    /// The event stream has ended; nothing more is accepted.
    Ended,
}

/// What the driver observed: an event, the end of the stream, or an idle timeout.
#[derive(Debug, Clone, Copy, PartialEq, Eq, Structural)]
pub enum SegmenterInput {
    Event(RecordEvent),
    Disconnect,
    Timeout,
}

/// What the driver has to do after one input.
#[derive(Debug)]
pub enum SegmenterOutput {
    /// Nothing to report.
    Nothing,
    /// A song has begun.
    SongStarted,
    /// A song has ended; its events carry song-relative timestamps.
    SongFinished { song: Vec<RecordEvent>, reason: StopReason },
    /// The stream ended while no song was being recorded.
    Stopped,
}

/// The abstract output of one step.
pub enum StepOutput {
    Nothing,
    SongStarted,
    SongFinished(Seq<RecordEvent>, StopReason),
    Stopped,
}

impl View for SegmenterOutput {
    type V = StepOutput;

    open spec fn view(&self) -> StepOutput {
        match self {
            SegmenterOutput::Nothing => StepOutput::Nothing,
            SegmenterOutput::SongStarted => StepOutput::SongStarted,
            SegmenterOutput::SongFinished { song, reason } => StepOutput::SongFinished(
                song@,
                *reason,
            ),
            SegmenterOutput::Stopped => StepOutput::Stopped,
        }
    }
}

/// The abstract state of the segmenter.
pub struct SegmenterView {
    pub phase: Phase,
    pub song: Seq<RecordEvent>,
    pub start_tick: u32,
    pub last_tick: u32,
    pub keyboard: KeyboardView,
    pub idle_periods: nat,
}

pub open spec fn empty_keyboard() -> KeyboardView {
    KeyboardView { pressed_keys: Set::empty(), sustain_channels: Set::empty() }
}

/// The state in which the segmenter waits for a song to begin.
pub open spec fn waiting_state() -> SegmenterView {
    SegmenterView {
        phase: Phase::Waiting,
        song: Seq::empty(),
        start_tick: 0,
        last_tick: 0,
        keyboard: empty_keyboard(),
        idle_periods: 0,
    }
}

/// A song as stored: non-empty, starting at tick 0, timestamps non-decreasing.
pub open spec fn song_well_formed(song: Seq<RecordEvent>) -> bool {
    &&& song.len() > 0
    &&& song[0].timestamp == 0
    &&& forall|i: int, j: int|
        0 <= i <= j < song.len() ==> #[trigger] song[i].timestamp <= #[trigger] song[j].timestamp
}

/// The invariant of the segmenter's state.
pub open spec fn segmenter_wf(s: SegmenterView) -> bool {
    &&& s.idle_periods < MAX_IDLE_PERIODS
    &&& s.phase == Phase::Recording ==> {
        &&& song_well_formed(s.song)
        &&& s.start_tick <= s.last_tick
        &&& s.song.last().timestamp == s.last_tick - s.start_tick
    }
    &&& s.phase != Phase::Recording ==> s.song.len() == 0
}

/// Inputs the segmenter takes in state `s`: none once the stream has ended,
/// and queue ticks that never go backwards within a song.
pub open spec fn segmenter_accepts(s: SegmenterView, input: SegmenterInput) -> bool {
    &&& s.phase != Phase::Ended
    &&& match input {
        SegmenterInput::Event(e) => s.phase == Phase::Recording ==> s.last_tick <= e.timestamp,
        _ => true,
    }
}

/// One step of the segmenter: the next state and what is reported.
pub open spec fn segmenter_step(s: SegmenterView, input: SegmenterInput) -> (
    SegmenterView,
    StepOutput,
) {
    match s.phase {
        Phase::Waiting => match input {
            SegmenterInput::Event(e) => (
                SegmenterView {
                    phase: Phase::Recording,
                    song: seq![RecordEvent { timestamp: 0, payload: e.payload }],
                    start_tick: e.timestamp,
                    last_tick: e.timestamp,
                    keyboard: keyboard_step(empty_keyboard(), e.payload),
                    idle_periods: 0,
                },
                StepOutput::SongStarted,
            ),
            SegmenterInput::Disconnect => (
                SegmenterView { phase: Phase::Ended, ..waiting_state() },
                StepOutput::Stopped,
            ),
            SegmenterInput::Timeout => (s, StepOutput::Nothing),
        },
        Phase::Recording => match input {
            SegmenterInput::Event(e) => (
                SegmenterView {
                    song: s.song.push(
                        RecordEvent {
                            timestamp: (e.timestamp - s.start_tick) as u32,
                            payload: e.payload,
                        },
                    ),
                    last_tick: e.timestamp,
                    keyboard: keyboard_step(s.keyboard, e.payload),
                    idle_periods: 0,
                    ..s
                },
                StepOutput::Nothing,
            ),
            SegmenterInput::Disconnect => (
                SegmenterView { phase: Phase::Ended, ..waiting_state() },
                StepOutput::SongFinished(s.song, StopReason::Disconnect),
            ),
            SegmenterInput::Timeout => if keyboard_idle(s.keyboard) || s.idle_periods + 1
                >= MAX_IDLE_PERIODS {
                (waiting_state(), StepOutput::SongFinished(s.song, StopReason::Idle))
            } else {
                (SegmenterView { idle_periods: s.idle_periods + 1, ..s }, StepOutput::Nothing)
            },
        },
        Phase::Ended => (s, StepOutput::Nothing),
    }
}

/// Cuts a stream of timestamped events into songs at idle boundaries.
#[derive(Debug)]
pub struct Segmenter {
    phase: Phase,
    song: Vec<RecordEvent>,
    start_tick: u32,
    last_tick: u32,
    keyboard: KeyboardState,
    idle_periods: usize,
}

impl View for Segmenter {
    type V = SegmenterView;

    closed spec fn view(&self) -> SegmenterView {
        SegmenterView {
            phase: self.phase,
            song: self.song@,
            start_tick: self.start_tick,
            last_tick: self.last_tick,
            keyboard: self.keyboard@,
            idle_periods: self.idle_periods as nat,
        }
    }
}

impl Segmenter {
    /// A segmenter waiting for the first song.
    pub fn new() -> (r: Self)
        ensures
            r@ == waiting_state(),
            segmenter_wf(r@),
    {
        let r = Segmenter {
            phase: Phase::Waiting,
            song: Vec::new(),
            start_tick: 0,
            last_tick: 0,
            keyboard: KeyboardState::new(),
            idle_periods: 0,
        };
        assert(r@.song =~= Seq::<RecordEvent>::empty());
        r
    }

    /// The current phase: the driver waits with a timeout only while recording.
    pub fn phase(&self) -> (r: Phase)
        ensures
            r == self@.phase,
    {
        self.phase
    }

    /// Whether `input` may be fed in the current state.
    pub fn accepts(&self, input: &SegmenterInput) -> (r: bool)
        ensures
            r == segmenter_accepts(self@, *input),
    {
        if self.phase == Phase::Ended {
            return false;
        }
        match input {
            SegmenterInput::Event(e) => self.phase != Phase::Recording || self.last_tick
                <= e.timestamp,
            _ => true,
        }
    }

    fn reset_to(&mut self, phase: Phase) -> (song: Vec<RecordEvent>)
        ensures
            song@ == old(self)@.song,
            final(self)@ == (SegmenterView { phase, ..waiting_state() }),
    {
        let mut song = Vec::new();
        std::mem::swap(&mut song, &mut self.song);
        self.phase = phase;
        self.start_tick = 0;
        self.last_tick = 0;
        self.keyboard = KeyboardState::new();
        self.idle_periods = 0;
        proof {
            assert(self@.song =~= Seq::<RecordEvent>::empty());
            assert(self@.keyboard == empty_keyboard());
        }
        song
    }

    /// Take one input. A song begins with its first event, whose timestamp
    /// becomes 0; later events are rewritten relative to it. A timeout ends
    /// the song when no key is held and no pedal is down, or when it is the
    /// sixth timeout in a row; the end of the stream ends it too.
    pub fn feed(&mut self, input: SegmenterInput) -> (out: SegmenterOutput)
        requires
            segmenter_wf(old(self)@),
            segmenter_accepts(old(self)@, input),
        ensures
            segmenter_wf(final(self)@),
            (final(self)@, out@) == segmenter_step(old(self)@, input),
            out@ is SongFinished ==> song_well_formed(out@->SongFinished_0),
    {
        match self.phase {
            Phase::Waiting => match input {
                SegmenterInput::Event(e) => {
                    let mut keyboard = KeyboardState::new();
                    keyboard.update(&e);
                    self.keyboard = keyboard;
                    self.song = vec![RecordEvent { timestamp: 0, payload: e.payload }];
                    self.phase = Phase::Recording;
                    self.start_tick = e.timestamp;
                    self.last_tick = e.timestamp;
                    self.idle_periods = 0;
                    proof {
                        assert(self@.keyboard == keyboard_step(empty_keyboard(), e.payload));
                        assert(self@.song =~= seq![RecordEvent { timestamp: 0, payload: e.payload }]);
                    }
                    SegmenterOutput::SongStarted
                },
                SegmenterInput::Disconnect => {
                    let _ = self.reset_to(Phase::Ended);
                    SegmenterOutput::Stopped
                },
                SegmenterInput::Timeout => SegmenterOutput::Nothing,
            },
            Phase::Recording => match input {
                SegmenterInput::Event(e) => {
                    self.keyboard.update(&e);
                    let rel = RecordEvent {
                        timestamp: e.timestamp - self.start_tick,
                        payload: e.payload,
                    };
                    self.song.push(rel);
                    self.last_tick = e.timestamp;
                    self.idle_periods = 0;
                    proof {
                        let s = self@.song;
                        assert forall|i: int, j: int| 0 <= i <= j < s.len() implies #[trigger] s[i].timestamp
                            <= #[trigger] s[j].timestamp by {
                            if j == s.len() - 1 && i < j {
                                assert(old(self)@.song[i].timestamp <= old(self)@.song.last().timestamp);
                            }
                        }
                    }
                    SegmenterOutput::Nothing
                },
                SegmenterInput::Disconnect => {
                    let song = self.reset_to(Phase::Ended);
                    SegmenterOutput::SongFinished { song, reason: StopReason::Disconnect }
                },
                SegmenterInput::Timeout => {
                    if self.keyboard.is_idle() || self.idle_periods + 1 >= MAX_IDLE_PERIODS {
                        let song = self.reset_to(Phase::Waiting);
                        SegmenterOutput::SongFinished { song, reason: StopReason::Idle }
                    } else {
                        self.idle_periods = self.idle_periods + 1;
                        SegmenterOutput::Nothing
                    }
                },
            },
            Phase::Ended => SegmenterOutput::Nothing,
        }
    }
}

/// Feed a whole sequence of inputs, collecting what each step reports.
pub open spec fn segmenter_run(s: SegmenterView, inputs: Seq<SegmenterInput>) -> (
    SegmenterView,
    Seq<StepOutput>,
)
    decreases inputs.len(),
{
    if inputs.len() == 0 {
        (s, Seq::empty())
    } else {
        let (next, out) = segmenter_step(s, inputs[0]);
        let (last, outs) = segmenter_run(next, inputs.drop_first());
        (last, seq![out].add(outs))
    }
}

/// Every step from a well-formed state on an accepted input leads to a
/// well-formed state, and every song it finishes starts at tick 0 with
/// non-decreasing timestamps.
pub proof fn lemma_segmenter_step_well_formed(s: SegmenterView, input: SegmenterInput)
    requires
        segmenter_wf(s),
        segmenter_accepts(s, input),
    ensures
        segmenter_wf(segmenter_step(s, input).0),
        segmenter_step(s, input).1 is SongFinished ==> song_well_formed(
            segmenter_step(s, input).1->SongFinished_0,
        ),
{
    let next = segmenter_step(s, input).0;
    if s.phase == Phase::Recording {
        if let SegmenterInput::Event(e) = input {
            let t = next.song;
            assert(t.len() == s.song.len() + 1);
            assert(t[0] == s.song[0]);
            assert forall|i: int, j: int| 0 <= i <= j < t.len() implies #[trigger] t[i].timestamp
                <= #[trigger] t[j].timestamp by {
                if j == t.len() - 1 && i < j {
                    assert(s.song[i].timestamp <= s.song.last().timestamp);
                }
            }
        }
    }
}

/// A song of one event that leaves the keyboard idle ends at the first
/// timeout, as a single event at tick 0.
pub proof fn lemma_single_event_song(e: RecordEvent)
    requires
        keyboard_idle(keyboard_step(empty_keyboard(), e.payload)),
    ensures
        segmenter_run(waiting_state(), seq![SegmenterInput::Event(e), SegmenterInput::Timeout])
            == (waiting_state(), seq![
            StepOutput::SongStarted,
            StepOutput::SongFinished(
                seq![RecordEvent { timestamp: 0, payload: e.payload }],
                StopReason::Idle,
            ),
        ]),
{
    let inputs = seq![SegmenterInput::Event(e), SegmenterInput::Timeout];
    assert(inputs.drop_first() =~= seq![SegmenterInput::Timeout]);
    assert(inputs.drop_first().drop_first() =~= Seq::<SegmenterInput>::empty());
    let (s1, _) = segmenter_step(waiting_state(), SegmenterInput::Event(e));
    let (s2, o2) = segmenter_step(s1, SegmenterInput::Timeout);
    assert(segmenter_run(s2, Seq::empty()) == (s2, Seq::<StepOutput>::empty()));
    assert(s2 == waiting_state());
    let r1 = segmenter_run(s1, seq![SegmenterInput::Timeout]);
    assert(seq![SegmenterInput::Timeout].drop_first() =~= Seq::<SegmenterInput>::empty());
    assert(seq![o2].add(Seq::<StepOutput>::empty()) =~= seq![o2]);
    assert(r1 == (s2, seq![o2]));
    assert(seq![StepOutput::SongStarted].add(seq![o2]) =~= seq![StepOutput::SongStarted, o2]);
    assert(s1.song =~= seq![RecordEvent { timestamp: 0, payload: e.payload }]);
}

/// While no event arrives, a waiting segmenter stays waiting and reports
/// nothing: no song begins and none ends.
pub proof fn lemma_silence_records_nothing(inputs: Seq<SegmenterInput>)
    requires
        forall|i: int| 0 <= i < inputs.len() ==> #[trigger] inputs[i] == SegmenterInput::Timeout,
    ensures
        segmenter_run(waiting_state(), inputs).0 == waiting_state(),
        forall|i: int|
            0 <= i < inputs.len() ==> #[trigger] segmenter_run(waiting_state(), inputs).1[i]
                == StepOutput::Nothing,
        segmenter_run(waiting_state(), inputs).1.len() == inputs.len(),
    decreases inputs.len(),
{
    if inputs.len() > 0 {
        let rest = inputs.drop_first();
        assert forall|i: int| 0 <= i < rest.len() implies #[trigger] rest[i]
            == SegmenterInput::Timeout by {
            assert(rest[i] == inputs[i + 1]);
        }
        lemma_silence_records_nothing(rest);
        let outs = segmenter_run(waiting_state(), inputs).1;
        assert forall|i: int| 0 <= i < inputs.len() implies #[trigger] outs[i]
            == StepOutput::Nothing by {
            if i > 0 {
                assert(outs[i] == segmenter_run(waiting_state(), rest).1[i - 1]);
            }
        }
    }
}

/// Feeding one input and then the rest is stepping once and running on.
pub proof fn lemma_run_cons(s: SegmenterView, i: SegmenterInput, rest: Seq<SegmenterInput>)
    ensures
        segmenter_run(s, seq![i].add(rest)) == (
            segmenter_run(segmenter_step(s, i).0, rest).0,
            seq![segmenter_step(s, i).1].add(segmenter_run(segmenter_step(s, i).0, rest).1),
        ),
{
    assert(seq![i].add(rest).drop_first() =~= rest);
}

/// A sustain pedal keeps a song alive: a note played and released while the
/// pedal is down, then silence for two idle timeouts, then the pedal's
/// release and one more timeout make exactly one song of the four events.
pub proof fn lemma_sustain_keeps_song(start: u32, release: u32)
    requires
        96 <= release,
        start + release <= u32::MAX,
    ensures
        ({
            let ev = |t: int, m: MidiEvent| SegmenterInput::Event(RecordEvent { timestamp: t as u32, payload: m });
            let on = MidiEvent::NoteOn { channel: 0, note: 60, velocity: 100 };
            let pedal_down = MidiEvent::ControlChange { channel: 0, controller: 64, value: 127 };
            let off = MidiEvent::NoteOff { channel: 0, note: 60 };
            let pedal_up = MidiEvent::ControlChange { channel: 0, controller: 64, value: 0 };
            let inputs = seq![
                ev(start as int, on),
                ev(start + 1, pedal_down),
                ev(start + 96, off),
                SegmenterInput::Timeout,
                SegmenterInput::Timeout,
                ev(start + release, pedal_up),
                SegmenterInput::Timeout,
            ];
            let song = seq![
                RecordEvent { timestamp: 0, payload: on },
                RecordEvent { timestamp: 1, payload: pedal_down },
                RecordEvent { timestamp: 96, payload: off },
                RecordEvent { timestamp: release, payload: pedal_up },
            ];
            segmenter_run(waiting_state(), inputs) == (waiting_state(), seq![
                StepOutput::SongStarted,
                StepOutput::Nothing,
                StepOutput::Nothing,
                StepOutput::Nothing,
                StepOutput::Nothing,
                StepOutput::Nothing,
                StepOutput::SongFinished(song, StopReason::Idle),
            ])
        }),
{
    let on = MidiEvent::NoteOn { channel: 0, note: 60, velocity: 100 };
    let pedal_down = MidiEvent::ControlChange { channel: 0, controller: 64, value: 127 };
    let off = MidiEvent::NoteOff { channel: 0, note: 60 };
    let pedal_up = MidiEvent::ControlChange { channel: 0, controller: 64, value: 0 };
    let i1 = SegmenterInput::Event(RecordEvent { timestamp: start, payload: on });
    let i2 = SegmenterInput::Event(RecordEvent { timestamp: (start + 1) as u32, payload: pedal_down });
    let i3 = SegmenterInput::Event(RecordEvent { timestamp: (start + 96) as u32, payload: off });
    let i4 = SegmenterInput::Timeout;
    let i6 = SegmenterInput::Event(RecordEvent { timestamp: (start + release) as u32, payload: pedal_up });
    let s0 = waiting_state();
    let s1 = segmenter_step(s0, i1).0;
    let s2 = segmenter_step(s1, i2).0;
    let s3 = segmenter_step(s2, i3).0;
    let s4 = segmenter_step(s3, i4).0;
    let s5 = segmenter_step(s4, i4).0;
    let s6 = segmenter_step(s5, i6).0;
    let (s7, o7) = segmenter_step(s6, i4);
    // The pedal is down through the silence, and up at the end.
    assert(s3.keyboard.sustain_channels.contains(0u8));
    assert(!keyboard_idle(s3.keyboard));
    assert(s4.keyboard == s3.keyboard && s4.idle_periods == 1);
    assert(s5.keyboard == s3.keyboard && s5.idle_periods == 2);
    assert(s6.keyboard.pressed_keys =~= Set::<(u8, u8)>::empty());
    assert(s6.keyboard.sustain_channels =~= Set::<u8>::empty());
    assert(keyboard_idle(s6.keyboard));
    let song = seq![
        RecordEvent { timestamp: 0, payload: on },
        RecordEvent { timestamp: 1, payload: pedal_down },
        RecordEvent { timestamp: 96, payload: off },
        RecordEvent { timestamp: release, payload: pedal_up },
    ];
    assert(s6.song =~= song);
    assert(s7 == waiting_state());
    let empty = Seq::<SegmenterInput>::empty();
    assert(segmenter_run(s7, empty) == (s7, Seq::<StepOutput>::empty()));
    lemma_run_cons(s6, i4, empty);
    lemma_run_cons(s5, i6, seq![i4].add(empty));
    lemma_run_cons(s4, i4, seq![i6].add(seq![i4].add(empty)));
    lemma_run_cons(s3, i4, seq![i4].add(seq![i6].add(seq![i4].add(empty))));
    lemma_run_cons(s2, i3, seq![i4].add(seq![i4].add(seq![i6].add(seq![i4].add(empty)))));
    lemma_run_cons(s1, i2, seq![i3].add(seq![i4].add(seq![i4].add(seq![i6].add(seq![i4].add(empty))))));
    lemma_run_cons(s0, i1, seq![i2].add(seq![i3].add(seq![i4].add(seq![i4].add(seq![i6].add(seq![i4].add(empty)))))));
    let inputs = seq![i1, i2, i3, i4, i4, i6, i4];
    assert(inputs =~= seq![i1].add(seq![i2].add(seq![i3].add(seq![i4].add(seq![i4].add(seq![i6].add(seq![i4].add(empty))))))));
    let outs = segmenter_run(s0, inputs).1;
    assert(outs =~= seq![
        StepOutput::SongStarted,
        StepOutput::Nothing,
        StepOutput::Nothing,
        StepOutput::Nothing,
        StepOutput::Nothing,
        StepOutput::Nothing,
        StepOutput::SongFinished(song, StopReason::Idle),
    ]);
}

} // verus!
