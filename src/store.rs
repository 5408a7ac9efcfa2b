use vstd::prelude::*;
use vstd::string::StringExecFns;

use crate::midi::{ticks_to_micros, RecordEvent, RECORDING_PPQ, RECORDING_TEMPO};
use crate::smf::{
    compute_midi_stats, encode_midi, encoded_body, encoded_track, note_on_count, parse_tracks, parsed_tracks,
    saturate_u32, smf_bytes, smf_file_bytes, sum_deltas, tempo_prelude, timestamps_sorted,
    tracks_view, tracks_with_tempo, with_tempo, write_single_track, write_with_header_of, lemma_sum_deltas_bound, MidiStats,
    SmfEvent, SmfEventKind, MAX_LEGACY_BYTES, MAX_TRACK_EVENTS,
};

verus! {

/// The zstd level of stored recordings.
pub const COMPRESSION_LEVEL: i32 = 5;

/// The latest schema version of the database.
pub const LATEST_VERSION: i32 = 2;

/// Songs longer than this many events are not stored.
pub const MAX_SONG_EVENTS: usize = 50_000_000;

/// A recording's identifier, issued by the store.
#[derive(Debug, Clone, Copy, PartialEq, Eq, Structural, Hash, PartialOrd, Ord)]
pub struct RecordingId(pub i32);

/// Why a store operation failed.
#[derive(Debug, Clone, Copy, PartialEq, Eq, Structural)]
pub enum StoreError {
    /// No recording has the given id.
    NotFound,
    /// Compressing or decompressing a blob failed.
    Codec,
    /// The song has more events than a track can hold.
    TooLong,
    /// The database refused the operation.
    Database,
}

/// What is stored for a converted legacy file: the compressed file, its
/// stats, and the length to hold until the length fix of the last migration.
#[derive(Debug)]
pub struct LegacyRecording {
    pub midi: Vec<u8>,
    pub stats: MidiStats,
    pub held_length_micros: u128,
}

/// The text of a store error, as subscribers read it.
pub open spec fn error_text(e: StoreError) -> Seq<char> {
    match e {
        StoreError::NotFound => "no recording has this id"@,
        StoreError::Codec => "the recording's data could not be decoded"@,
        StoreError::TooLong => "the song has too many events to store"@,
        StoreError::Database => "the database refused the operation"@,
    }
}

impl StoreError {
    pub fn message(&self) -> (r: String)
        ensures
            r@ == error_text(*self),
    {
        match self {
            StoreError::NotFound => String::from_str("no recording has this id"),
            StoreError::Codec => String::from_str("the recording's data could not be decoded"),
            StoreError::TooLong => String::from_str("the song has too many events to store"),
            StoreError::Database => String::from_str("the database refused the operation"),
        }
    }
}

/// Why converting a legacy recording failed.
#[derive(Debug, Clone, Copy, PartialEq, Eq, Structural)]
pub enum LegacyError {
    /// The file is not a Standard MIDI File.
    Parse,
    /// The file has no track.
    NoTrack,
    /// The file, one of its tracks, or its number of tracks is too large.
    TooLong,
}

/// The compressed bytes of `data` at the given zstd level.
pub uninterp spec fn zstd_encoded(level: i32, data: Seq<u8>) -> Seq<u8>;

/// Relies on zstd's `encode_all` from a slice into a vector: a single zstd
/// frame holding `data`, the same for the same input and level. Reading a
/// slice and writing a vector raise no I/O error, its only way to fail.
#[verifier::external_body]
fn compress(data: &[u8], level: i32) -> (r: Vec<u8>)
    ensures
        r@ == zstd_encoded(level, data@),
{
    zstd::encode_all(data, level).expect("compressing in memory does not fail")
}

/// Relies on zstd's `decode_all`: a frame that `encode_all` produced
/// decodes to the data it was made from.
#[verifier::external_body]
fn decompress(blob: &[u8]) -> (r: Option<Vec<u8>>)
    ensures
        forall|level: i32, data: Seq<u8>| blob@ == zstd_encoded(level, data) ==> r is Some && r->Some_0@ == data,
{
    zstd::decode_all(blob).ok()
}

/// What is stored for a new recording: the compressed file and its stats.
#[derive(Debug)]
pub struct NewRecording {
    pub midi: Vec<u8>,
    pub stats: MidiStats,
}

/// The stats a track has: length is the sum of its deltas, at 192 ticks a
/// second; the number of notes is that of its NoteOn events.
pub open spec fn stats_of(track: Seq<SmfEvent>) -> MidiStats {
    MidiStats {
        length_ticks: sum_deltas(track) as u128,
        length_micros: ticks_to_micros(sum_deltas(track)) as u128,
        note_count: saturate_u32(note_on_count(track) as int),
    }
}

/// The stored blob of a track.
pub open spec fn stored_blob(track: Seq<SmfEvent>) -> Seq<u8> {
    zstd_encoded(COMPRESSION_LEVEL, smf_bytes(RECORDING_PPQ, track))
}

/// Compress the file of `track` and derive its stats.
fn pack_track(track: &Vec<SmfEvent>) -> (r: NewRecording)
    requires
        track.len() < MAX_TRACK_EVENTS,
        forall|i: int| 0 <= i < track@.len() ==> !((#[trigger] track@[i]).kind is Other),
    ensures
        r.midi@ == stored_blob(track@),
        r.stats == stats_of(track@),
{
    let bytes = write_single_track(RECORDING_PPQ, track);
    let stats = compute_midi_stats(track);
    NewRecording { midi: compress(bytes.as_slice(), COMPRESSION_LEVEL), stats }
}

/// The row of a finished song: its track (tempo prelude, events, end of
/// track) written as a single-track file at 96 ticks per quarter and
/// compressed, with the track's stats.
pub fn prepare_recording(song: &Vec<RecordEvent>) -> (r: Result<NewRecording, StoreError>)
    requires
        timestamps_sorted(song@),
    ensures
        song.len() >= MAX_SONG_EVENTS <==> r == Err::<NewRecording, StoreError>(StoreError::TooLong),
        song.len() < MAX_SONG_EVENTS ==> (r matches Ok(rec) && rec.midi@ == stored_blob(
            encoded_track(song@),
        ) && rec.stats == stats_of(encoded_track(song@))),
{
    if song.len() >= MAX_SONG_EVENTS {
        return Err(StoreError::TooLong);
    }
    let track = encode_midi(song);
    proof {
        let t = encoded_track(song@);
        assert forall|i: int| 0 <= i < t.len() implies !((#[trigger] t[i]).kind is Other) by {
            if 0 < i < t.len() - 1 {
                assert(t[i] == encoded_body(song@)[i - 1]);
            }
        }
    }
    Ok(pack_track(&track))
}

/// The file of a stored recording. A blob that the store wrote decodes to
/// exactly the bytes that were compressed.
pub fn recording_midi(blob: &Vec<u8>) -> (r: Result<Vec<u8>, StoreError>)
    ensures
        forall|data: Seq<u8>|
            blob@ == zstd_encoded(COMPRESSION_LEVEL, data) ==> (r matches Ok(d) && d@ == data),
        r matches Err(e) ==> e == StoreError::Codec,
{
    match decompress(blob.as_slice()) {
        Some(d) => Ok(d),
        None => Err(StoreError::Codec),
    }
}

/// The outcome of a delete or rename that changed `rows_affected` rows.
pub fn check_rows_affected(rows_affected: u64) -> (r: Result<(), StoreError>)
    ensures
        r == (if rows_affected == 0 {
            Err::<(), StoreError>(StoreError::NotFound)
        } else {
            Ok(())
        }),
{
    if rows_affected == 0 {
        Err(StoreError::NotFound)
    } else {
        Ok(())
    }
}

/// The length a recording had under the schema before the length fix: the
/// true length times 120/96, rounded up.
pub open spec fn pre_fix_length(m: int) -> int {
    (m * 120 + 95) / 96
}

/// The length fix of the last migration: 96/120 of the held length.
pub open spec fn fixed_length(m: int) -> int {
    m * 96 / 120
}

/// The length fix gives back the true length of a converted legacy file.
pub proof fn lemma_fix_restores_length(m: int)
    requires
        m >= 0,
    ensures
        fixed_length(pre_fix_length(m)) == m,
{
    let q = m / 4;
    let r = m % 4;
    assert(m == 4 * q + r);
    let c: int = if r == 0 { 0 } else if r == 1 { 2 } else if r == 2 { 3 } else { 4 };
    assert(m * 120 + 95 == 96 * (5 * q + c) + (120 * r + 95 - 96 * c));
    assert(0 <= 120 * r + 95 - 96 * c < 96);
    assert(pre_fix_length(m) == 5 * q + c);
    assert((5 * q + c) * 96 == 120 * (4 * q) + 96 * c);
    assert(0 <= 96 * c - 120 * r < 120);
    assert(fixed_length(5 * q + c) == 4 * q + r);
}

/// The length to hold for a converted legacy file, so that the length fix
/// that follows leaves the true length.
pub fn legacy_length_micros(m: u128) -> (r: u128)
    requires
        m < 0x4000_0000_0000_0000_0000_0000_0000,
    ensures
        r == pre_fix_length(m as int),
        fixed_length(r as int) == m,
{
    proof {
        lemma_fix_restores_length(m as int);
    }
    (m * 120 + 95) / 96
}

/// The length fix of the last migration, on a held length in microseconds.
pub fn fix_length_micros(m: u128) -> (r: u128)
    ensures
        r == fixed_length(m as int),
{
    let q = m / 5;
    let r = m % 5;
    proof {
        assert(m == 5 * q + r);
        assert(m * 96 == 120 * (4 * q) + 96 * r);
        assert(0 <= 96 * r < 480);
        assert((96 * r) / 120 == (4 * r) / 5);
    }
    q * 4 + (r * 4) / 5
}

/// A legacy file fits the conversion: midly can write it again, as it is
/// small enough and has fewer than 65536 tracks.
pub open spec fn legacy_fits(raw: Seq<u8>, ts: Seq<Seq<SmfEvent>>) -> bool {
    &&& raw.len() < MAX_LEGACY_BYTES
    &&& ts.len() < 65536
}

/// Convert a legacy file: every track gets the tempo prelude in front, the
/// file is written again with its own header and compressed; the stats are
/// those of the first track with the prelude.
pub fn legacy_recording(raw: &Vec<u8>) -> (r: Result<LegacyRecording, LegacyError>)
    ensures
        parsed_tracks(raw@) is None <==> r == Err::<LegacyRecording, LegacyError>(LegacyError::Parse),
        parsed_tracks(raw@) matches Some(ts) ==> {
            &&& ts.len() == 0 <==> r == Err::<LegacyRecording, LegacyError>(LegacyError::NoTrack)
            &&& ts.len() > 0 && !legacy_fits(raw@, ts) <==> r == Err::<LegacyRecording, LegacyError>(LegacyError::TooLong)
            &&& ts.len() > 0 && legacy_fits(raw@, ts) ==> (r matches Ok(rec)
                && rec.midi@ == zstd_encoded(COMPRESSION_LEVEL, smf_file_bytes(raw@, tracks_with_tempo(ts)))
                && rec.stats == stats_of(with_tempo(ts[0]))
                && rec.held_length_micros == pre_fix_length(rec.stats.length_micros as int)
                && fixed_length(rec.held_length_micros as int) == rec.stats.length_micros)
        },
{
    let mut rest = match parse_tracks(raw.as_slice()) {
        Err(_) => return Err(LegacyError::Parse),
        Ok(ts) => ts,
    };
    let ghost ts = tracks_view(rest@);
    if rest.len() == 0 {
        return Err(LegacyError::NoTrack);
    }
    if raw.len() >= MAX_LEGACY_BYTES || rest.len() >= 65536 {
        return Err(LegacyError::TooLong);
    }
    let n = rest.len();
    let mut fixed: Vec<Vec<SmfEvent>> = Vec::new();
    let mut k: usize = 0;
    while k < n
        invariant
            k <= n,
            n == ts.len(),
            parsed_tracks(raw@) == Some(ts),
            rest@.len() == n - k,
            forall|i: int| 0 <= i < n - k ==> (#[trigger] rest@[i])@ == ts[i + k],
            tracks_view(fixed@) == tracks_with_tempo(ts.subrange(0, k as int)),
        decreases n - k,
    {
        let ghost rest_before = rest@;
        let mut track = rest.remove(0);
        assert(track@ == ts[k as int]);
        track.insert(0, SmfEvent { delta: 0, kind: SmfEventKind::Tempo(RECORDING_TEMPO) });
        let ghost before = fixed@;
        fixed.push(track);
        proof {
            assert(track@ =~= with_tempo(ts[k as int]));
            assert forall|i: int| 0 <= i < n - (k + 1) implies (#[trigger] rest@[i])@ == ts[i + k + 1] by {
                assert(rest@[i] == rest_before[i + 1]);
            }
            assert(fixed@ == before.push(track));
            assert(tracks_view(before).len() == before.len());
            assert(tracks_with_tempo(ts.subrange(0, k as int)).len() == k);
            assert(before.len() == k);
            assert forall|i: int| 0 <= i < k + 1 implies #[trigger] tracks_view(fixed@)[i]
                == tracks_with_tempo(ts.subrange(0, k + 1))[i] by {
                assert(ts.subrange(0, k + 1)[i] == ts[i]);
                if i < k {
                    assert(fixed@[i] == before[i]);
                    assert(ts.subrange(0, k as int)[i] == ts[i]);
                    assert(tracks_view(before)[i] == tracks_with_tempo(ts.subrange(0, k as int))[i]);
                } else {
                    assert(fixed@[i] == track);
                }
            }
            assert(tracks_view(fixed@) =~= tracks_with_tempo(ts.subrange(0, k + 1)));
        }
        k = k + 1;
    }
    proof {
        assert(ts.subrange(0, n as int) =~= ts);
        assert(legacy_fits(raw@, ts));
        assert(tracks_view(fixed@)[0] == tracks_with_tempo(ts)[0]);
    }
    let stats = compute_midi_stats(&fixed[0]);
    let n0 = fixed[0].len();
    proof {
        let t = fixed@[0]@;
        lemma_sum_deltas_bound(t);
        let sum = sum_deltas(t);
        assert(sum <= 0x1_0000_0000_0000_0000 * 0x1_0000_0000) by (nonlinear_arith)
            requires sum <= n0 * (u32::MAX as int), n0 <= usize::MAX;
        assert(RECORDING_PPQ == 96 && crate::midi::RECORDING_BPM == 120);
        assert(stats.length_micros == sum * 60_000_000 / 11520);
        assert(sum * 60_000_000 / 11520 < 0x4000_0000_0000_0000_0000_0000_0000) by (nonlinear_arith)
            requires 0 <= sum <= 0x1_0000_0000_0000_0000 * 0x1_0000_0000;
    }
    let held_length_micros = legacy_length_micros(stats.length_micros);
    let bytes = write_with_header_of(raw.as_slice(), &fixed);
    Ok(LegacyRecording { midi: compress(bytes.as_slice(), COMPRESSION_LEVEL), stats, held_length_micros })
}

/// A schema migration.
#[derive(Debug, Clone, Copy, PartialEq, Eq, Structural)]
pub enum MigrationStep {
    /// Create the recordings table and ingest the `*.mid` files of the directory.
    Init,
    /// Store each recording's file inline, compressed, with its stats.
    InlineMidi,
    /// Correct the lengths written by an earlier formula.
    FixLength,
}

/// What startup does at a schema version.
#[derive(Debug, Clone, Copy, PartialEq, Eq, Structural)]
pub enum MigrationAction {
    /// Back up the database as the given version (when there is one), apply
    /// `step`, and record `new_version`.
    Apply { step: MigrationStep, backup_of: Option<i32>, new_version: i32 },
    /// The schema is current.
    Done,
    /// The schema is newer than this program knows.
    TooNew,
    /// The recorded version is negative, which no migration wrote.
    Invalid,
}

/// The action at `version` (`None` for a database without migrations).
pub open spec fn migration_action_spec(version: Option<i32>) -> MigrationAction {
    match version {
        None => MigrationAction::Apply { step: MigrationStep::Init, backup_of: None, new_version: 0 },
        Some(v) => if v == 0 {
            MigrationAction::Apply {
                step: MigrationStep::InlineMidi,
                backup_of: Some(0),
                new_version: 1,
            }
        } else if v == 1 {
            MigrationAction::Apply {
                step: MigrationStep::FixLength,
                backup_of: Some(1),
                new_version: 2,
            }
        } else if v == LATEST_VERSION {
            MigrationAction::Done
        } else if v > LATEST_VERSION {
            MigrationAction::TooNew
        } else {
            MigrationAction::Invalid
        },
    }
}

pub fn migration_action(version: Option<i32>) -> (r: MigrationAction)
    ensures
        r == migration_action_spec(version),
{
    match version {
        None => MigrationAction::Apply { step: MigrationStep::Init, backup_of: None, new_version: 0 },
        Some(v) => if v == 0 {
            MigrationAction::Apply {
                step: MigrationStep::InlineMidi,
                backup_of: Some(0),
                new_version: 1,
            }
        } else if v == 1 {
            MigrationAction::Apply {
                step: MigrationStep::FixLength,
                backup_of: Some(1),
                new_version: 2,
            }
        } else if v == LATEST_VERSION {
            MigrationAction::Done
        } else if v > LATEST_VERSION {
            MigrationAction::TooNew
        } else {
            MigrationAction::Invalid
        },
    }
}

pub open spec fn migrations_left(version: Option<i32>) -> nat {
    match version {
        None => 3,
        Some(v) => if 0 <= v < LATEST_VERSION {
            (LATEST_VERSION - v) as nat
        } else {
            0
        },
    }
}

/// What a startup at `version` does: the versions it records, the versions
/// it backs up, and the version it ends at.
pub open spec fn migration_run(version: Option<i32>) -> (Seq<i32>, Seq<i32>, Option<i32>)
    decreases migrations_left(version),
{
    match migration_action_spec(version) {
        MigrationAction::Apply { step, backup_of, new_version } => {
            let (recorded, backups, last) = migration_run(Some(new_version));
            (
                seq![new_version].add(recorded),
                match backup_of {
                    Some(b) => seq![b].add(backups),
                    None => backups,
                },
                last,
            )
        },
        _ => (Seq::empty(), Seq::empty(), version),
    }
}

/// Startup is idempotent: from any version it knows, it ends at the latest
/// version, and a second startup records no migration and takes no backup.
pub proof fn lemma_migration_idempotent(version: Option<i32>)
    requires
        version matches Some(v) ==> 0 <= v <= LATEST_VERSION,
    ensures
        migration_run(version).2 == Some(LATEST_VERSION),
        migration_run(migration_run(version).2) == (
            Seq::<i32>::empty(),
            Seq::<i32>::empty(),
            Some(LATEST_VERSION),
        ),
    decreases migrations_left(version),
{
    match migration_action_spec(version) {
        MigrationAction::Apply { new_version, .. } => {
            lemma_migration_idempotent(Some(new_version));
        },
        _ => {},
    }
}

} // verus!
