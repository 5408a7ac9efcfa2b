use midly::{MetaMessage as Meta, MidiMessage as Msg, TrackEventKind as Kind};
use vstd::prelude::*;

use crate::midi::{ticks_to_micros, MidiEvent, RecordEvent, RECORDING_PPQ, RECORDING_TEMPO};

verus! {

#[verifier::external_type_specification]
#[verifier::external_body]
pub struct ExMidlyTrackEvent<'a>(midly::TrackEvent<'a>);

#[verifier::external_type_specification]
#[verifier::external_body]
pub struct ExMidlyTrackEventKind<'a>(midly::TrackEventKind<'a>);

#[verifier::external_type_specification]
#[verifier::external_body]
pub struct ExMidlyMessage(midly::MidiMessage);

#[verifier::external_type_specification]
#[verifier::external_body]
pub struct ExMidlyError(midly::Error);

/// The kind of one event of a track. The kinds the recorder writes and reads
/// are spelled out; any other event of a parsed file is kept as midly read it.
#[derive(Debug, Clone, Copy, PartialEq, Eq)]
pub enum SmfEventKind<'a> {
    NoteOn { channel: u8, key: u8, vel: u8 },
    NoteOff { channel: u8, key: u8, vel: u8 },
    Controller { channel: u8, controller: u8, value: u8 },
    /// Tempo meta event: microseconds per quarter note.
    Tempo(u32),
    EndOfTrack,
    /// Any other event, written back unchanged.
    Other(midly::TrackEventKind<'a>),
}

/// One event of a track: a delta time in ticks and its kind.
#[derive(Debug, Clone, Copy, PartialEq, Eq)]
pub struct SmfEvent<'a> {
    pub delta: u32,
    pub kind: SmfEventKind<'a>,
}

/// Tracks are written only when shorter than this, so that a chunk's
/// length always fits its four-byte field.
pub const MAX_TRACK_EVENTS: usize = 100_000_000;

/// The bytes of a single-track Standard MIDI File with metrical timing `ppq`
/// holding `track`.
pub uninterp spec fn smf_bytes(ppq: u16, track: Seq<SmfEvent>) -> Seq<u8>;

/// The tracks of a Standard MIDI File, if the bytes parse as one.
pub uninterp spec fn parsed_tracks(raw: Seq<u8>) -> Option<Seq<Seq<SmfEvent<'static>>>>;

/// The bytes of a Standard MIDI File with the header of the file `raw` and
/// the given tracks.
pub uninterp spec fn smf_file_bytes(raw: Seq<u8>, tracks: Seq<Seq<SmfEvent>>) -> Seq<u8>;

/// Relies on midly's `TrackEvent` and `MidiMessage::NoteOn` constructors.
#[verifier::external_body]
fn midly_note_on(delta: u32, channel: u8, key: u8, vel: u8) -> midly::TrackEvent<'static> {
    midly::TrackEvent {
        delta: delta.into(),
        kind: midly::TrackEventKind::Midi {
            channel: channel.into(),
            message: midly::MidiMessage::NoteOn { key: key.into(), vel: vel.into() },
        },
    }
}

/// Relies on midly's `TrackEvent` and `MidiMessage::NoteOff` constructors.
#[verifier::external_body]
fn midly_note_off(delta: u32, channel: u8, key: u8, vel: u8) -> midly::TrackEvent<'static> {
    midly::TrackEvent {
        delta: delta.into(),
        kind: midly::TrackEventKind::Midi {
            channel: channel.into(),
            message: midly::MidiMessage::NoteOff { key: key.into(), vel: vel.into() },
        },
    }
}

/// Relies on midly's `TrackEvent` and `MidiMessage::Controller` constructors.
#[verifier::external_body]
fn midly_controller(delta: u32, channel: u8, controller: u8, value: u8) -> midly::TrackEvent<
    'static,
> {
    midly::TrackEvent {
        delta: delta.into(),
        kind: midly::TrackEventKind::Midi {
            channel: channel.into(),
            message: midly::MidiMessage::Controller {
                controller: controller.into(),
                value: value.into(),
            },
        },
    }
}

/// Relies on midly's `TrackEvent` and `MetaMessage::Tempo` constructors.
#[verifier::external_body]
fn midly_tempo(delta: u32, tempo: u32) -> midly::TrackEvent<'static> {
    midly::TrackEvent {
        delta: delta.into(),
        kind: midly::TrackEventKind::Meta(midly::MetaMessage::Tempo(tempo.into())),
    }
}

/// Relies on midly's `TrackEvent` and `MetaMessage::EndOfTrack` constructors.
#[verifier::external_body]
fn midly_end_of_track(delta: u32) -> midly::TrackEvent<'static> {
    midly::TrackEvent {
        delta: delta.into(),
        kind: midly::TrackEventKind::Meta(midly::MetaMessage::EndOfTrack),
    }
}

/// Relies on midly's `TrackEvent` constructor.
#[verifier::external_body]
fn midly_other<'a>(delta: u32, kind: midly::TrackEventKind<'a>) -> midly::TrackEvent<'a> {
    midly::TrackEvent { delta: delta.into(), kind }
}

/// The midly event for one of ours.
pub fn midly_event<'a>(e: &SmfEvent<'a>) -> midly::TrackEvent<'a> {
    match e.kind {
        SmfEventKind::NoteOn { channel, key, vel } => midly_note_on(e.delta, channel, key, vel),
        SmfEventKind::NoteOff { channel, key, vel } => midly_note_off(e.delta, channel, key, vel),
        SmfEventKind::Controller { channel, controller, value } => midly_controller(
            e.delta,
            channel,
            controller,
            value,
        ),
        SmfEventKind::Tempo(t) => midly_tempo(e.delta, t),
        SmfEventKind::EndOfTrack => midly_end_of_track(e.delta),
        SmfEventKind::Other(k) => midly_other(e.delta, k),
    }
}

/// Relies on midly's `Smf::write_std` into a vector, which fails only on an
/// event whose data reaches 2^28 bytes, a chunk of 4 GiB or more, or more
/// than 65535 tracks. None of the kinds spelled out carries data, and each
/// is written in at most 10 bytes.
#[verifier::external_body]
pub(crate) fn write_single_track(ppq: u16, track: &Vec<SmfEvent>) -> (r: Vec<u8>)
    requires
        track.len() < MAX_TRACK_EVENTS,
        forall|i: int| 0 <= i < track@.len() ==> !((#[trigger] track@[i]).kind is Other),
    ensures
        r@ == smf_bytes(ppq, track@),
{
    let timing = midly::Timing::Metrical(midly::num::u15::new(ppq));
    let mut smf = midly::Smf::new(midly::Header::new(midly::Format::SingleTrack, timing));
    smf.tracks.push(track.iter().map(midly_event).collect());
    let mut out = Vec::new();
    smf.write_std(&mut out).expect("a track this short fits in a chunk");
    out
}

/// Relies on midly's `Smf::parse`, and reads each event of each track.
#[verifier::external_body]
pub(crate) fn parse_tracks<'a>(raw: &'a [u8]) -> (r: Result<Vec<Vec<SmfEvent<'a>>>, midly::Error>)
    ensures
        r is Ok <==> parsed_tracks(raw@) is Some,
        r matches Ok(ts) ==> parsed_tracks(raw@) == Some(tracks_view(ts@)),
{
    let smf = midly::Smf::parse(raw)?;
    Ok(smf.tracks.iter().map(|t| t.iter().map(|e| SmfEvent { delta: e.delta.as_int(), kind: our_kind(&e.kind) }).collect()).collect())
}

/// Relies on midly's `write_std`, given the header of `raw` (which parses)
/// and the tracks of `raw` each with the tempo prelude in front. Every event
/// of them was read from `raw`, so no event's data reaches 2^28 bytes; the
/// events of a track take at least two bytes each in `raw` and at most ten
/// bytes besides their data when written, so a chunk stays under six times
/// the length of `raw` plus the prelude, below 4 GiB; and they are fewer
/// than 65536.
#[verifier::external_body]
pub(crate) fn write_with_header_of(raw: &[u8], tracks: &Vec<Vec<SmfEvent>>) -> (r: Vec<u8>)
    requires
        raw@.len() < MAX_LEGACY_BYTES,
        parsed_tracks(raw@) matches Some(ts) && tracks_view(tracks@) == tracks_with_tempo(ts),
        tracks@.len() < 65536,
    ensures
        r@ == smf_file_bytes(raw@, tracks_view(tracks@)),
{
    let (header, _) = midly::parse(raw).expect("the file parsed before");
    let events: Vec<Vec<midly::TrackEvent>> = tracks.iter().map(|t| t.iter().map(midly_event).collect()).collect();
    let mut out = Vec::new();
    midly::write_std(&header, events.iter(), &mut out).expect("the chunks fit");
    out
}

/// The view of a list of tracks.
pub open spec fn tracks_view<'a>(ts: Seq<Vec<SmfEvent<'a>>>) -> Seq<Seq<SmfEvent<'a>>> {
    Seq::new(ts.len(), |i: int| ts[i]@)
}

/// A track with the tempo prelude in front.
pub open spec fn with_tempo<'a>(t: Seq<SmfEvent<'a>>) -> Seq<SmfEvent<'a>> {
    seq![tempo_prelude()].add(t)
}

/// Every track with the tempo prelude in front.
pub open spec fn tracks_with_tempo<'a>(ts: Seq<Seq<SmfEvent<'a>>>) -> Seq<Seq<SmfEvent<'a>>> {
    Seq::new(ts.len(), |i: int| with_tempo(ts[i]))
}

/// Legacy files are converted only when smaller than this: midly writes no
/// event whose data reaches 2^28 bytes, and below this bound none can.
pub const MAX_LEGACY_BYTES: usize = 0x1000_0000;

/// Relies on midly's `TrackEventKind`: tells its variants apart, one arm each.
#[verifier::external_body]
fn our_kind<'a>(kind: &midly::TrackEventKind<'a>) -> SmfEventKind<'a> {
    match *kind {
        Kind::Midi { channel, message } => our_message(channel.as_int(), &message, *kind),
        Kind::Meta(Meta::Tempo(t)) => SmfEventKind::Tempo(t.as_int()),
        Kind::Meta(Meta::EndOfTrack) => SmfEventKind::EndOfTrack,
        _ => SmfEventKind::Other(*kind),
    }
}

/// Relies on midly's `MidiMessage`: tells its variants apart, one arm each;
/// `kind` is the event that holds the message.
#[verifier::external_body]
fn our_message<'a>(channel: u8, message: &midly::MidiMessage, kind: midly::TrackEventKind<'a>) -> SmfEventKind<'a> {
    match *message {
        Msg::NoteOn { key, vel } => SmfEventKind::NoteOn { channel, key: key.as_int(), vel: vel.as_int() },
        Msg::NoteOff { key, vel } => SmfEventKind::NoteOff { channel, key: key.as_int(), vel: vel.as_int() },
        Msg::Controller { controller: c, value: v } => SmfEventKind::Controller { channel, controller: c.as_int(), value: v.as_int() },
        _ => SmfEventKind::Other(kind),
    }
}

/// The tempo meta event that opens every stored track.
pub open spec fn tempo_prelude() -> SmfEvent<'static> {
    SmfEvent { delta: 0, kind: SmfEventKind::Tempo(RECORDING_TEMPO) }
}

pub open spec fn end_of_track() -> SmfEvent<'static> {
    SmfEvent { delta: 0, kind: SmfEventKind::EndOfTrack }
}

/// The track event that stands for a captured event: a NoteOff is written
/// with velocity 0; a controller's number and value are cut to a byte.
pub open spec fn event_kind_of(e: MidiEvent) -> SmfEventKind<'static> {
    match e {
        MidiEvent::NoteOn { channel, note, velocity } => SmfEventKind::NoteOn {
            channel,
            key: note,
            vel: velocity,
        },
        MidiEvent::NoteOff { channel, note } => SmfEventKind::NoteOff { channel, key: note, vel: 0 },
        MidiEvent::ControlChange { channel, controller, value } => SmfEventKind::Controller {
            channel,
            controller: controller as u8,
            value: value as u8,
        },
    }
}

/// Timestamps never decrease along the sequence.
pub open spec fn timestamps_sorted(events: Seq<RecordEvent>) -> bool {
    forall|i: int, j: int|
        0 <= i <= j < events.len() ==> #[trigger] events[i].timestamp
            <= #[trigger] events[j].timestamp
}

/// The ticks between event `i` and the one before it; 0 for the first.
pub open spec fn delta_at(events: Seq<RecordEvent>, i: int) -> u32 {
    if i <= 0 {
        0
    } else {
        (events[i].timestamp - events[i - 1].timestamp) as u32
    }
}

pub open spec fn encoded_body(events: Seq<RecordEvent>) -> Seq<SmfEvent<'static>> {
    Seq::new(
        events.len(),
        |i: int| SmfEvent { delta: delta_at(events, i), kind: event_kind_of(events[i].payload) },
    )
}

/// The track stored for a song: the tempo prelude, one event per captured
/// event with the ticks since the previous one, and the end of the track.
pub open spec fn encoded_track(events: Seq<RecordEvent>) -> Seq<SmfEvent<'static>> {
    seq![tempo_prelude()].add(encoded_body(events)).push(end_of_track())
}

/// Build the track of a song.
pub fn encode_midi(events: &Vec<RecordEvent>) -> (r: Vec<SmfEvent<'static>>)
    requires
        timestamps_sorted(events@),
    ensures
        r@ == encoded_track(events@),
{
    let mut track: Vec<SmfEvent> = vec![SmfEvent { delta: 0, kind: SmfEventKind::Tempo(RECORDING_TEMPO) }];
    let mut last_time: u32 = if events.len() > 0 { events[0].timestamp } else { 0 };
    let mut i: usize = 0;
    while i < events.len()
        invariant
            i <= events.len(),
            timestamps_sorted(events@),
            track@ == seq![tempo_prelude()].add(encoded_body(events@).subrange(0, i as int)),
            i > 0 ==> last_time == events@[i - 1].timestamp,
            i == 0 && events.len() > 0 ==> last_time == events@[0].timestamp,
        decreases events.len() - i,
    {
        let e = events[i];
        let delta = e.timestamp - last_time;
        last_time = e.timestamp;
        let kind = match e.payload {
            MidiEvent::NoteOn { channel, note, velocity } => SmfEventKind::NoteOn {
                channel,
                key: note,
                vel: velocity,
            },
            MidiEvent::NoteOff { channel, note } => SmfEventKind::NoteOff {
                channel,
                key: note,
                vel: 0,
            },
            MidiEvent::ControlChange { channel, controller, value } => SmfEventKind::Controller {
                channel,
                controller: controller as u8,
                value: value as u8,
            },
        };
        track.push(SmfEvent { delta, kind });
        proof {
            assert(encoded_body(events@).subrange(0, i + 1) =~= encoded_body(events@).subrange(
                0,
                i as int,
            ).push(SmfEvent { delta, kind }));
        }
        i = i + 1;
    }
    track.push(SmfEvent { delta: 0, kind: SmfEventKind::EndOfTrack });
    proof {
        assert(encoded_body(events@).subrange(0, events.len() as int) =~= encoded_body(events@));
    }
    track
}

/// The sum of the delta times of a track.
pub open spec fn sum_deltas(t: Seq<SmfEvent>) -> int
    decreases t.len(),
{
    if t.len() == 0 {
        0
    } else {
        sum_deltas(t.drop_last()) + t.last().delta
    }
}

/// The number of NoteOn events of a track.
pub open spec fn note_on_count(t: Seq<SmfEvent>) -> nat
    decreases t.len(),
{
    if t.len() == 0 {
        0
    } else {
        note_on_count(t.drop_last()) + if t.last().kind is NoteOn {
            1nat
        } else {
            0nat
        }
    }
}

/// The number of NoteOn events of key `k` in a track.
pub open spec fn key_count(t: Seq<SmfEvent>, k: int) -> nat
    decreases t.len(),
{
    if t.len() == 0 {
        0
    } else {
        key_count(t.drop_last(), k) + if t.last().kind is NoteOn && t.last().kind->NoteOn_key
            == k {
            1nat
        } else {
            0nat
        }
    }
}

pub open spec fn saturate_u32(n: int) -> u32 {
    if n > u32::MAX {
        u32::MAX
    } else {
        n as u32
    }
}

/// Length and number of notes of a track.
#[derive(Debug, Clone, Copy, PartialEq, Eq, Structural)]
pub struct MidiStats {
    pub length_ticks: u128,
    pub length_micros: u128,
    pub note_count: u32,
}

pub proof fn lemma_sum_deltas_bound(t: Seq<SmfEvent>)
    ensures
        0 <= sum_deltas(t) <= t.len() * (u32::MAX as int),
    decreases t.len(),
{
    if t.len() > 0 {
        lemma_sum_deltas_bound(t.drop_last());
    }
}

/// The length of a track (the sum of its deltas, in ticks and in
/// microseconds) and its number of NoteOn events, saturating at `u32::MAX`.
pub fn compute_midi_stats(track: &Vec<SmfEvent>) -> (r: MidiStats)
    ensures
        r.length_ticks == sum_deltas(track@),
        r.length_micros == ticks_to_micros(sum_deltas(track@)),
        r.note_count == saturate_u32(note_on_count(track@) as int),
{
    let mut ticks: u128 = 0;
    let mut notes: u64 = 0;
    let mut i: usize = 0;
    while i < track.len()
        invariant
            i <= track.len(),
            ticks == sum_deltas(track@.subrange(0, i as int)),
            notes == note_on_count(track@.subrange(0, i as int)),
            notes <= i,
        decreases track.len() - i,
    {
        proof {
            assert(track@.subrange(0, i + 1).drop_last() =~= track@.subrange(0, i as int));
            lemma_sum_deltas_bound(track@.subrange(0, i as int));
            assert(i * (u32::MAX as int) <= 0x1_0000_0000_0000_0000 * 0x1_0000_0000) by (nonlinear_arith)
                requires i <= usize::MAX;
        }
        ticks = ticks + track[i].delta as u128;
        if let SmfEventKind::NoteOn { .. } = track[i].kind {
            notes = notes + 1;
        }
        i = i + 1;
    }
    proof {
        assert(track@.subrange(0, track.len() as int) =~= track@);
        lemma_sum_deltas_bound(track@);
        assert(track.len() * (u32::MAX as int) <= 0x1_0000_0000_0000_0000 * 0x1_0000_0000) by (nonlinear_arith)
            requires track.len() <= usize::MAX;
        assert(RECORDING_PPQ == 96 && crate::midi::RECORDING_BPM == 120);
    }
    let micros = ticks * 60_000_000 / 11520;
    let note_count: u32 = if notes > u32::MAX as u64 { u32::MAX } else { notes as u32 };
    MidiStats { length_ticks: ticks, length_micros: micros, note_count }
}

/// Bins of a NoteOn histogram: one per MIDI key.
pub const HISTOGRAM_BINS: usize = 128;

/// For each key below 128, the number of its NoteOn events, saturating at
/// `u32::MAX`.
pub fn note_histogram(track: &Vec<SmfEvent>) -> (r: Vec<u32>)
    ensures
        r@.len() == HISTOGRAM_BINS,
        forall|k: int| 0 <= k < HISTOGRAM_BINS ==> #[trigger] r@[k] == saturate_u32(key_count(track@, k) as int),
{
    let mut hist: Vec<u32> = Vec::new();
    let mut b: usize = 0;
    while b < HISTOGRAM_BINS
        invariant
            b <= HISTOGRAM_BINS,
            hist@.len() == b,
            forall|k: int| 0 <= k < b ==> #[trigger] hist@[k] == 0,
        decreases HISTOGRAM_BINS - b,
    {
        hist.push(0);
        b = b + 1;
    }
    let mut i: usize = 0;
    while i < track.len()
        invariant
            i <= track.len(),
            hist@.len() == HISTOGRAM_BINS,
            forall|k: int| 0 <= k < HISTOGRAM_BINS ==> #[trigger] hist@[k] == saturate_u32(key_count(track@.subrange(0, i as int), k) as int),
        decreases track.len() - i,
    {
        proof {
            assert(track@.subrange(0, i + 1).drop_last() =~= track@.subrange(0, i as int));
        }
        if let SmfEventKind::NoteOn { key, .. } = track[i].kind {
            if (key as usize) < HISTOGRAM_BINS && hist[key as usize] < u32::MAX {
                let v = hist[key as usize] + 1;
                hist.set(key as usize, v);
            }
        }
        i = i + 1;
    }
    proof {
        assert(track@.subrange(0, track.len() as int) =~= track@);
    }
    hist
}

/// The length of a song's track is the time from its first event to its last.
pub proof fn lemma_encoded_length(events: Seq<RecordEvent>)
    requires
        timestamps_sorted(events),
        events.len() > 0,
    ensures
        sum_deltas(encoded_track(events)) == events.last().timestamp - events[0].timestamp,
    decreases events.len(),
{
    let t = encoded_track(events);
    let head = seq![tempo_prelude()].add(encoded_body(events));
    let n = events.len() as int;
    assert(t.drop_last() =~= head);
    assert(t.last() == end_of_track());
    assert(sum_deltas(t) == sum_deltas(head));
    assert(head.last() == encoded_body(events)[n - 1]);
    if events.len() == 1 {
        assert(head.drop_last() =~= seq![tempo_prelude()]);
        assert(seq![tempo_prelude()].drop_last() =~= Seq::<SmfEvent>::empty());
        assert(sum_deltas(Seq::<SmfEvent>::empty()) == 0);
        assert(sum_deltas(seq![tempo_prelude()]) == 0);
    } else {
        assert(events[n - 2].timestamp <= events[n - 1].timestamp);
        let prefix = events.drop_last();
        assert(timestamps_sorted(prefix));
        lemma_encoded_length(prefix);
        let prefix_head = seq![tempo_prelude()].add(encoded_body(prefix));
        assert(encoded_track(prefix).drop_last() =~= prefix_head);
        assert(head.drop_last() =~= prefix_head);
        assert(sum_deltas(encoded_track(prefix)) == sum_deltas(prefix_head));
        assert(prefix.last() == events[n - 2]);
        assert(prefix[0] == events[0]);
    }
}

/// The NoteOn histogram of a file's first track: all zero when the file has
/// no track, `None` when the bytes are not a Standard MIDI File.
pub fn file_note_histogram(raw: &[u8]) -> (r: Option<Vec<u32>>)
    ensures
        parsed_tracks(raw@) is None <==> r is None,
        r matches Some(h) ==> h@.len() == HISTOGRAM_BINS,
        r matches Some(h) ==> forall|k: int| 0 <= k < HISTOGRAM_BINS ==> #[trigger] h@[k]
            == if parsed_tracks(raw@)->Some_0.len() > 0 {
            saturate_u32(key_count(parsed_tracks(raw@)->Some_0[0], k) as int)
        } else {
            0u32
        },
{
    match parse_tracks(raw) {
        Err(_) => None,
        Ok(tracks) => {
            if tracks.len() > 0 {
                Some(note_histogram(&tracks[0]))
            } else {
                let empty: Vec<SmfEvent> = Vec::new();
                let h = note_histogram(&empty);
                proof {
                    assert forall|k: int| 0 <= k < HISTOGRAM_BINS implies key_count(empty@, k) == 0 by {}
                }
                Some(h)
            }
        },
    }
}

} // verus!
