//! The life of one playback request, and the rule that at most one request
//! streams at a time.
//!
//! A session alternates waiting (for PCM, for the end of the track, for a
//! cancellation) with decisions. The waiting is the caller's; the
//! decisions are here: `StreamSession::step` says, for the state a session
//! is in and the event that has arrived, where it goes and what is to be
//! done.

use vstd::prelude::*;

verus! {

/// Where a session stands.
#[derive(Clone, Copy, Debug, PartialEq, Eq, Structural)]
pub enum SessionState {
    /// Created; the provider has not begun to deliver.
    Idle,
    /// The provider delivers PCM and the response is flowing.
    Streaming,
    /// The provider could not start the track. Nothing was sent.
    Rejected,
    /// The track came to its end.
    Completed,
    /// A later request took over.
    Superseded,
    /// The client went away.
    ClientDisconnected,
    /// The encoder or the muxer failed.
    Aborted,
}

/// What can happen to a session.
#[derive(Clone, Copy, Debug, PartialEq, Eq, Structural)]
pub enum SessionEvent {
    /// The provider has begun to deliver the track.
    ProviderStarted,
    /// The provider could not start the track.
    ProviderFailed,
    /// A delivery of PCM has arrived in the queue.
    PcmArrived,
    /// The provider has signalled the end of the track.
    EndOfTrack,
    /// A later request has asked this session to stop.
    Cancelled,
    /// The client no longer reads the response.
    Disconnected,
    /// Encoding or muxing failed.
    EncoderFailed,
}

/// What the caller is to do next.
#[derive(Clone, Copy, Debug, PartialEq, Eq, Structural)]
pub enum SessionAction {
    /// Nothing.
    Ignore,
    /// Send the two header pages as the first chunk of the response.
    SendHeaders,
    /// Report that the track was not found; create no encoder.
    Reject,
    /// Run the delivery through the pipeline and forward what comes out,
    /// if anything.
    Transcode,
    /// Drop the queue, flush the pipeline, send the trailing pages as the
    /// last chunk and close the response.
    FlushAndClose,
    /// Tell the provider to stop and drop the queue; there is nobody to
    /// send to.
    StopProvider,
    /// Stop the provider, end the stream as well as can still be done and
    /// close the response with a server error.
    Abort,
}

/// A session has ended: nothing moves it any more.
pub open spec fn is_terminal(state: SessionState) -> bool {
    state != SessionState::Idle && state != SessionState::Streaming
}

/// The session's rule: for a state and an event, the next state and what
/// is to be done.
pub open spec fn next(state: SessionState, event: SessionEvent) -> (SessionState, SessionAction) {
    match state {
        SessionState::Idle => match event {
            SessionEvent::ProviderStarted => (SessionState::Streaming, SessionAction::SendHeaders),
            SessionEvent::ProviderFailed => (SessionState::Rejected, SessionAction::Reject),
            _ => (SessionState::Idle, SessionAction::Ignore),
        },
        SessionState::Streaming => match event {
            SessionEvent::PcmArrived => (SessionState::Streaming, SessionAction::Transcode),
            SessionEvent::EndOfTrack => (SessionState::Completed, SessionAction::FlushAndClose),
            SessionEvent::Cancelled => (SessionState::Superseded, SessionAction::FlushAndClose),
            SessionEvent::Disconnected => (
                SessionState::ClientDisconnected,
                SessionAction::StopProvider,
            ),
            SessionEvent::EncoderFailed => (SessionState::Aborted, SessionAction::Abort),
            _ => (SessionState::Streaming, SessionAction::Ignore),
        },
        _ => (state, SessionAction::Ignore),
    }
}

/// The state a session is in after a run of events.
pub open spec fn state_after(state: SessionState, events: Seq<SessionEvent>) -> SessionState
    decreases events.len(),
{
    if events.len() == 0 {
        state
    } else {
        next(state_after(state, events.drop_last()), events.last()).0
    }
}

/// What a session asked for over a run of events, one action per event.
pub open spec fn actions_of(state: SessionState, events: Seq<SessionEvent>) -> Seq<SessionAction>
    decreases events.len(),
{
    if events.len() == 0 {
        Seq::empty()
    } else {
        actions_of(state, events.drop_last()).push(
            next(state_after(state, events.drop_last()), events.last()).1,
        )
    }
}

/// How often `action` occurs in `actions`.
pub open spec fn count(actions: Seq<SessionAction>, action: SessionAction) -> nat
    decreases actions.len(),
{
    if actions.len() == 0 {
        0
    } else {
        count(actions.drop_last(), action) + if actions.last() == action {
            1nat
        } else {
            0nat
        }
    }
}

/// One playback request.
pub struct StreamSession {
    /// The number the registry gave the request.
    pub id: u64,
    /// Where the session stands.
    pub state: SessionState,
}

impl StreamSession {
    /// A session that has not begun.
    pub fn new(id: u64) -> (s: Self)
        ensures
            s.id == id,
            s.state == SessionState::Idle,
    {
        StreamSession { id, state: SessionState::Idle }
    }

    /// Whether the session has ended.
    pub fn is_over(&self) -> (over: bool)
        ensures
            over == is_terminal(self.state),
    {
        match self.state {
            SessionState::Idle => false,
            SessionState::Streaming => false,
            _ => true,
        }
    }

    /// Takes an event: moves the session on and says what is to be done.
    pub fn step(&mut self, event: SessionEvent) -> (action: SessionAction)
        ensures
            final(self).id == old(self).id,
            (final(self).state, action) == next(old(self).state, event),
    {
        let (state, action) = match self.state {
            SessionState::Idle => match event {
                SessionEvent::ProviderStarted => (
                    SessionState::Streaming,
                    SessionAction::SendHeaders,
                ),
                SessionEvent::ProviderFailed => (SessionState::Rejected, SessionAction::Reject),
                _ => (SessionState::Idle, SessionAction::Ignore),
            },
            SessionState::Streaming => match event {
                SessionEvent::PcmArrived => (SessionState::Streaming, SessionAction::Transcode),
                SessionEvent::EndOfTrack => (SessionState::Completed, SessionAction::FlushAndClose),
                SessionEvent::Cancelled => (SessionState::Superseded, SessionAction::FlushAndClose),
                SessionEvent::Disconnected => (
                    SessionState::ClientDisconnected,
                    SessionAction::StopProvider,
                ),
                SessionEvent::EncoderFailed => (SessionState::Aborted, SessionAction::Abort),
                _ => (SessionState::Streaming, SessionAction::Ignore),
            },
            other => (other, SessionAction::Ignore),
        };
        self.state = state;
        action
    }

    /// Looks at the registry's slot, as the consume loop does at its top
    /// and whenever the slot changes hands: a session that finds another
    /// in the slot, or none, takes that as its cancellation; one that
    /// finds itself goes on.
    pub fn observe(&mut self, current: Option<u64>) -> (action: SessionAction)
        ensures
            final(self).id == old(self).id,
            current == Some(old(self).id) ==> action == SessionAction::Ignore && final(self).state
                == old(self).state,
            current != Some(old(self).id) ==> (final(self).state, action) == next(
                old(self).state,
                SessionEvent::Cancelled,
            ),
    {
        let still_current = match current {
            Some(id) => id == self.id,
            None => false,
        };
        if still_current {
            SessionAction::Ignore
        } else {
            self.step(SessionEvent::Cancelled)
        }
    }
}

/// The actions over a prefix of the events are a prefix of the actions.
pub proof fn lemma_prefix(state: SessionState, events: Seq<SessionEvent>, k: int)
    requires
        0 <= k <= events.len(),
    ensures
        actions_of(state, events).len() == events.len(),
        actions_of(state, events).take(k) == actions_of(state, events.take(k)),
        k < events.len() ==> actions_of(state, events)[k] == next(
            state_after(state, events.take(k)),
            events[k],
        ).1,
    decreases events.len(),
{
    if events.len() == 0 {
        assert(events.take(k) =~= events);
        assert(actions_of(state, events).take(k) =~= actions_of(state, events));
    } else {
        let front = events.drop_last();
        lemma_prefix(state, front, if k < events.len() {
            k
        } else {
            k - 1
        });
        if k == events.len() {
            assert(events.take(k) =~= events);
            assert(actions_of(state, events).take(k) =~= actions_of(state, events));
        } else {
            assert(front.take(k) =~= events.take(k));
            assert(actions_of(state, events).take(k) =~= actions_of(state, front).take(k));
            if k == events.len() - 1 {
                assert(front.take(k) =~= front);
            } else {
                assert(front[k] == events[k]);
            }
        }
    }
}

/// What a session that began idle has asked for determines where it
/// stands: the headers went out once, and only if it got to stream; the
/// flush happened once, and only if it completed or was superseded.
pub proof fn lemma_history(events: Seq<SessionEvent>)
    ensures
        count(actions_of(SessionState::Idle, events), SessionAction::SendHeaders) == if state_after(
            SessionState::Idle,
            events,
        ) == SessionState::Idle || state_after(SessionState::Idle, events)
            == SessionState::Rejected {
            0nat
        } else {
            1nat
        },
        count(actions_of(SessionState::Idle, events), SessionAction::FlushAndClose)
            == if state_after(SessionState::Idle, events) == SessionState::Completed || state_after(
            SessionState::Idle,
            events,
        ) == SessionState::Superseded {
            1nat
        } else {
            0nat
        },
    decreases events.len(),
{
    if events.len() > 0 {
        lemma_history(events.drop_last());
        assert(actions_of(SessionState::Idle, events).drop_last() =~= actions_of(
            SessionState::Idle,
            events.drop_last(),
        ));
    }
}

/// An action occurs in a prefix no more often than in the whole.
proof fn lemma_count_prefix(actions: Seq<SessionAction>, action: SessionAction, k: int)
    requires
        0 <= k <= actions.len(),
    ensures
        count(actions.take(k), action) <= count(actions, action),
    decreases actions.len(),
{
    if k == actions.len() {
        assert(actions.take(k) =~= actions);
    } else {
        lemma_count_prefix(actions.drop_last(), action, k);
        assert(actions.drop_last().take(k) =~= actions.take(k));
    }
}

/// In every session the header pages are asked for before any audio is
/// transcoded or flushed, and once only.
pub proof fn lemma_headers_come_first(events: Seq<SessionEvent>, k: int)
    requires
        0 <= k < events.len(),
        actions_of(SessionState::Idle, events)[k] == SessionAction::Transcode || actions_of(
            SessionState::Idle,
            events,
        )[k] == SessionAction::FlushAndClose,
    ensures
        count(actions_of(SessionState::Idle, events).take(k), SessionAction::SendHeaders) == 1,
        count(actions_of(SessionState::Idle, events), SessionAction::SendHeaders) == 1,
{
    lemma_prefix(SessionState::Idle, events, k);
    lemma_history(events.take(k));
    lemma_history(events);
    lemma_count_prefix(actions_of(SessionState::Idle, events), SessionAction::SendHeaders, k);
}

/// In every session the stream is flushed and closed at most once, and no
/// audio is transcoded after that.
pub proof fn lemma_flushed_once(events: Seq<SessionEvent>, k: int)
    requires
        0 <= k < events.len(),
        actions_of(SessionState::Idle, events)[k] == SessionAction::Transcode || actions_of(
            SessionState::Idle,
            events,
        )[k] == SessionAction::FlushAndClose,
    ensures
        count(actions_of(SessionState::Idle, events).take(k), SessionAction::FlushAndClose) == 0,
        count(actions_of(SessionState::Idle, events), SessionAction::FlushAndClose) <= 1,
{
    lemma_prefix(SessionState::Idle, events, k);
    lemma_history(events.take(k));
    lemma_history(events);
}

/// A session that is asked to stop while it streams flushes, closes and is
/// superseded; after that nothing moves it.
pub proof fn lemma_superseded(event: SessionEvent)
    ensures
        next(SessionState::Streaming, SessionEvent::Cancelled) == (
            SessionState::Superseded,
            SessionAction::FlushAndClose,
        ),
        next(SessionState::Superseded, event) == (SessionState::Superseded, SessionAction::Ignore),
{
}

/// The one slot that says which session may stream.
///
/// A new request is installed in one step: it becomes the current session
/// and the caller learns which session, if any, it has to tell to stop.
pub struct SessionRegistry {
    /// The session that may stream, if any.
    pub current: Option<u64>,
    /// The number the next session gets; all earlier numbers are taken.
    pub next_id: u64,
}

impl SessionRegistry {
    /// Every session the registry knows of was numbered by it.
    pub open spec fn wf(&self) -> bool {
        self.current matches Some(id) ==> id < self.next_id
    }

    /// A registry with no session.
    pub fn new() -> (r: Self)
        ensures
            r.wf(),
            r.current is None,
            r.next_id == 0,
    {
        SessionRegistry { current: None, next_id: 0 }
    }

    /// Makes a new session the current one. Returns its number and the
    /// number of the session that was current until now, which is to be
    /// told to stop.
    pub fn install(&mut self) -> (r: (u64, Option<u64>))
        requires
            old(self).wf(),
            old(self).next_id < u64::MAX,
        ensures
            final(self).wf(),
            r.0 == old(self).next_id,
            r.1 == old(self).current,
            final(self).current == Some(r.0),
            final(self).next_id == old(self).next_id + 1,
            r.1 != Some(r.0),
    {
        let id = self.next_id;
        let superseded = self.current;
        self.current = Some(id);
        self.next_id = id + 1;
        (id, superseded)
    }

    /// Whether session `id` is the one that may stream. A session that
    /// finds it is not has been superseded.
    pub fn is_current(&self, id: u64) -> (b: bool)
        ensures
            b == (self.current == Some(id)),
    {
        match self.current {
            Some(current) => current == id,
            None => false,
        }
    }

    /// Gives the slot up when session `id` has ended, if it still holds it.
    /// Returns whether it did.
    pub fn release(&mut self, id: u64) -> (held: bool)
        requires
            old(self).wf(),
        ensures
            final(self).wf(),
            held == (old(self).current == Some(id)),
            final(self).next_id == old(self).next_id,
            final(self).current == if held {
                None
            } else {
                old(self).current
            },
    {
        if self.is_current(id) {
            self.current = None;
            true
        } else {
            false
        }
    }
}

/// How long a new request gives the session it has superseded to take
/// note and begin to close, in milliseconds.
pub const CANCEL_WINDOW_MILLIS: u64 = 50;

/// How long a request that has just been installed waits before it goes
/// on, in milliseconds: the acknowledgement window if it has superseded a
/// session, no time if it has not.
pub fn acknowledgement_wait(superseded: Option<u64>) -> (millis: u64)
    ensures
        millis == if superseded is Some {
            CANCEL_WINDOW_MILLIS
        } else {
            0
        },
{
    match superseded {
        Some(_) => CANCEL_WINDOW_MILLIS,
        None => 0,
    }
}

/// Single flight. When a second request is installed while a first is
/// current, the first is current no more; a streaming session that then
/// looks at the slot and does not find itself flushes, closes and is
/// superseded.
pub proof fn lemma_single_flight(
    before: SessionRegistry,
    after: SessionRegistry,
    first: u64,
    second: u64,
)
    requires
        before.wf(),
        before.current == Some(first),
        second == before.next_id,
        after.current == Some(second),
    ensures
        first != second,
        after.current != Some(first),
        next(SessionState::Streaming, SessionEvent::Cancelled) == (
            SessionState::Superseded,
            SessionAction::FlushAndClose,
        ),
{
}

} // verus!
