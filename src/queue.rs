use vstd::prelude::*;

verus! {

/// What the playback queue announces.
#[derive(Debug, Clone, Copy, PartialEq, Eq, Structural)]
pub enum QueueEvent<T> {
    PlaybackStart(T),
    PlaybackStop(T),
}

/// A single-slot playback queue: at most one playback runs at a time, a new
/// one replaces the old only after the old has announced its end.
///
/// The driver holds the player handles. Before a new playback it takes the
/// running one's token (`take_handle`), cancels it, and waits until its end
/// is reported (`finished`); then it starts the new player and reports it
/// (`started`).
pub struct MidiPlayQueue<T> {
    current: Option<T>,
    handle: Option<T>,
    running: Option<T>,
    starts: Ghost<nat>,
    stops: Ghost<nat>,
}

impl<T: Copy> MidiPlayQueue<T> {
    /// Every playback that started and has not reported its end is the one
    /// running; `current` shows it.
    pub closed spec fn wf(&self) -> bool {
        &&& self.starts@ == self.stops@ + if self.running is Some {
            1nat
        } else {
            0nat
        }
        &&& self.current == self.running
    }

    /// The token of the running playback.
    pub closed spec fn running(&self) -> Option<T> {
        self.running
    }

    /// The token whose player handle the queue still holds.
    pub closed spec fn handle(&self) -> Option<T> {
        self.handle
    }

    /// How many PlaybackStart events the queue has announced.
    pub closed spec fn starts(&self) -> nat {
        self.starts@
    }

    /// How many PlaybackStop events the queue has announced.
    pub closed spec fn stops(&self) -> nat {
        self.stops@
    }

    pub fn new() -> (r: Self)
        ensures
            r.wf(),
            r.running() is None,
            r.handle() is None,
            r.starts() == 0,
            r.stops() == 0,
    {
        MidiPlayQueue {
            current: None,
            handle: None,
            running: None,
            starts: Ghost(0),
            stops: Ghost(0),
        }
    }

    /// The token of the playback that is running, if any.
    pub fn current(&self) -> (r: Option<T>)
        requires
            self.wf(),
        ensures
            r == self.running(),
    {
        self.current
    }

    /// Give up the held player handle: the driver cancels that player and
    /// waits for it to report its end.
    pub fn take_handle(&mut self) -> (r: Option<T>)
        requires
            old(self).wf(),
        ensures
            final(self).wf(),
            r == old(self).handle(),
            final(self).handle() is None,
            final(self).running() == old(self).running(),
            final(self).starts() == old(self).starts(),
            final(self).stops() == old(self).stops(),
    {
        let r = self.handle;
        self.handle = None;
        r
    }

    /// A new player for `token` was spawned after the previous one ended.
    pub fn started(&mut self, token: T) -> (r: QueueEvent<T>)
        requires
            old(self).wf(),
            old(self).running() is None,
            old(self).handle() is None,
        ensures
            final(self).wf(),
            r == QueueEvent::PlaybackStart(token),
            final(self).running() == Some(token),
            final(self).handle() == Some(token),
            final(self).starts() == old(self).starts() + 1,
            final(self).stops() == old(self).stops(),
    {
        self.current = Some(token);
        self.running = Some(token);
        self.handle = Some(token);
        self.starts = Ghost(self.starts@ + 1);
        QueueEvent::PlaybackStart(token)
    }

    /// The player of the running playback ended, by itself or cancelled.
    pub fn finished(&mut self) -> (r: Option<QueueEvent<T>>)
        requires
            old(self).wf(),
        ensures
            final(self).wf(),
            final(self).running() is None,
            final(self).handle() == old(self).handle(),
            final(self).starts() == old(self).starts(),
            old(self).running() matches Some(t) ==> r == Some(QueueEvent::PlaybackStop(t))
                && final(self).stops() == old(self).stops() + 1,
            old(self).running() is None ==> r is None && final(self).stops() == old(self).stops(),
    {
        match self.running {
            Some(t) => {
                self.running = None;
                self.current = None;
                self.stops = Ghost(self.stops@ + 1);
                Some(QueueEvent::PlaybackStop(t))
            },
            None => None,
        }
    }

    /// Once no playback runs, the queue has announced as many ends as starts.
    pub proof fn lemma_balanced_when_idle(&self)
        requires
            self.wf(),
            self.running() is None,
        ensures
            self.starts() == self.stops(),
    {
    }
}

} // verus!
