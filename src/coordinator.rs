use vstd::prelude::*;

use crate::midi::{Device, DeviceInfo};
use crate::queue::QueueEvent;
use crate::store::{error_text, RecordingId, StoreError};

verus! {

/// What is known of a stored recording.
#[derive(Debug, Clone)]
pub struct RecordingInfo {
    pub id: RecordingId,
    pub name: String,
    /// Creation time, in microseconds since the Unix epoch (UTC).
    pub created_at_micros: i64,
    pub length_micros: u128,
    pub note_count: u32,
}

/// Changes of the application's state, announced to subscribers.
#[derive(Debug, Clone)]
pub enum StateChange {
    /// Listening to the given device begins.
    ListenBegin { device: Device, info: DeviceInfo },
    /// Listening ends, usually because the device went away.
    ListenEnd,
    /// A song begins.
    RecordBegin,
    /// A song was stored.
    RecordEnd { recording: RecordingInfo },
    /// A song could not be stored.
    RecordError { message: String },
    /// A recording was deleted.
    RecordDelete { recording_id: RecordingId },
    /// A recording was renamed.
    RecordUpdate { recording: RecordingInfo },
    /// Playback of a recording begins.
    PlayBegin { recording: RecordingId },
    /// Playback ends.
    PlayEnd,
}

/// `pattern` occurs in `s`.
pub open spec fn is_substring(pattern: Seq<char>, s: Seq<char>) -> bool {
    exists|i: int|
        0 <= i && i + pattern.len() <= s.len() && #[trigger] s.subrange(i, i + pattern.len())
            == pattern
}

/// Relies on `str::contains` with a `&str` pattern: true exactly when the
/// pattern occurs in the string.
#[verifier::external_body]
fn str_contains(s: &str, pattern: &str) -> (r: bool)
    ensures
        r == is_substring(pattern@, s@),
{
    s.contains(pattern)
}

/// What to do when a device connects.
#[derive(Debug, Clone, Copy, PartialEq, Eq, Structural)]
pub enum ConnectDecision {
    /// The client name does not contain the configured text: nothing happens.
    NoMatch,
    /// A device is listened to already: nothing changes.
    AlreadyListening,
    /// Start a recorder on the device.
    Attach,
}

/// The device slot of the coordinator.
#[derive(Debug)]
pub struct Session {
    listening: Option<Device>,
}

impl Session {
    pub closed spec fn listening(&self) -> Option<Device> {
        self.listening
    }

    pub fn new() -> (r: Self)
        ensures
            r.listening() is None,
    {
        Session { listening: None }
    }

    pub fn listening_device(&self) -> (r: Option<Device>)
        ensures
            r == self.listening(),
    {
        self.listening
    }

    /// A device connected whose client is named `info.client_name`: attach
    /// when the name contains `pattern` (case-sensitively) and no device is
    /// listened to.
    pub fn on_connected(&self, info: &DeviceInfo, pattern: &str) -> (r: ConnectDecision)
        ensures
            !is_substring(pattern@, info.client_name@) ==> r == ConnectDecision::NoMatch,
            is_substring(pattern@, info.client_name@) && self.listening() is Some ==> r
                == ConnectDecision::AlreadyListening,
            is_substring(pattern@, info.client_name@) && self.listening() is None ==> r
                == ConnectDecision::Attach,
    {
        if !str_contains(info.client_name.as_str(), pattern) {
            ConnectDecision::NoMatch
        } else if self.listening.is_some() {
            ConnectDecision::AlreadyListening
        } else {
            ConnectDecision::Attach
        }
    }

    /// A recorder was started on `device`.
    pub fn attach(&mut self, device: Device, info: DeviceInfo) -> (r: StateChange)
        requires
            old(self).listening() is None,
        ensures
            final(self).listening() == Some(device),
            r matches StateChange::ListenBegin { device: d, info: i } && d == device
                && i.client_name@ == info.client_name@ && i.port_name@ == info.port_name@,
    {
        self.listening = Some(device);
        StateChange::ListenBegin { device, info }
    }

    /// The recorder's stream ended.
    pub fn detach(&mut self) -> (r: StateChange)
        ensures
            final(self).listening() is None,
            r is ListenEnd,
    {
        self.listening = None;
        StateChange::ListenEnd
    }

    /// The device to play on: the one listened to; none is an error.
    pub fn play_target(&self) -> (r: Result<Device, StoreError>)
        ensures
            self.listening() matches Some(d) ==> r == Ok::<Device, StoreError>(d),
            self.listening() is None ==> r == Err::<Device, StoreError>(StoreError::NotFound),
    {
        match self.listening {
            Some(d) => Ok(d),
            None => Err(StoreError::NotFound),
        }
    }
}

/// The announcement of a playback queue event.
pub fn queue_change(event: QueueEvent<RecordingId>) -> (r: StateChange)
    ensures
        event matches QueueEvent::PlaybackStart(id) ==> r matches StateChange::PlayBegin {
            recording,
        } && recording == id,
        event is PlaybackStop ==> r is PlayEnd,
{
    match event {
        QueueEvent::PlaybackStart(recording) => StateChange::PlayBegin { recording },
        QueueEvent::PlaybackStop(_) => StateChange::PlayEnd,
    }
}

/// The announcement of storing a finished song.
pub fn record_outcome(stored: Result<RecordingInfo, StoreError>) -> (r: StateChange)
    ensures
        stored matches Ok(info) ==> r == (StateChange::RecordEnd { recording: info }),
        stored matches Err(e) ==> (r matches StateChange::RecordError { message } && message@
            == error_text(e)),
{
    match stored {
        Ok(recording) => StateChange::RecordEnd { recording },
        Err(error) => StateChange::RecordError { message: error.message() },
    }
}

} // verus!
