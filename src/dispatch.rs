use vstd::prelude::*;

verus! {

/// Error code with which the network client reports that the ledger executed the
/// message and rejected it (as opposed to a transport failure).
pub const EXECUTION_ERROR_CODE: u32 = 414;

/// How a call is to be carried out.
#[derive(Clone, Copy, Debug, PartialEq, Eq, Structural)]
pub struct CallFlags {
    /// Only estimate the fees: run locally and never send.
    pub is_fee: bool,
    /// Send without waiting for the transaction.
    pub async_call: bool,
    /// Run locally before sending, as a pre-flight check.
    pub local_run: bool,
    /// Capture the account and the chain configuration beforehand, and replay
    /// the call locally if the ledger rejects it.
    pub debug_fail: bool,
}

/// An error reported by the network client.
#[derive(Clone, Debug)]
pub struct ClientFailure {
    pub code: u32,
    pub message: String,
}

#[derive(Clone, Debug)]
pub enum CallError {
    /// The arguments do not fit the interface, or the message cannot be built.
    Encoding(String),
    /// The target account does not exist and no empty one may stand in for it.
    AccountUnavailable(String),
    /// The local executor failed.
    Emulation(String),
    /// Sending failed.
    Transport(String),
    /// The account or the chain configuration could not be captured for a replay.
    Capture(String),
    /// Processing the message failed; the code tells a rejected execution apart.
    Remote(ClientFailure),
}

/// How a call that succeeded ended.
#[derive(Clone, Copy, Debug, PartialEq, Eq, Structural)]
pub enum Completion {
    /// The fees were estimated locally; nothing was sent.
    FeeEstimated,
    /// The message was sent; its transaction was not awaited (empty outcome).
    Dispatched,
    /// The message was sent and its transaction observed.
    Confirmed,
}

#[derive(Clone, Copy, Debug, PartialEq, Eq, Structural)]
pub enum Stage {
    Start,
    Encoding,
    Emulating,
    Sending,
    Capturing,
    Processing,
    Replaying,
    Done,
}

/// What the outside world reports back to a call in progress.
#[derive(Debug)]
pub enum Event {
    Begin,
    Encoded(Result<(), String>),
    Emulated(Result<(), CallError>),
    Sent(Result<(), String>),
    Captured(Result<(), String>),
    Processed(Result<(), ClientFailure>),
    Replayed(Result<(), String>),
}

/// What a call in progress asks the outside world to do next.
#[derive(Debug)]
pub enum Action {
    EncodeMessage,
    Emulate { fee_mode: bool },
    /// Submit the encoded message and do not wait.
    SendMessage,
    CaptureDiagnostics,
    /// Submit the message and wait for its transaction.
    ProcessMessage,
    ReplayLocally,
    Finish(Result<Completion, CallError>),
    /// The event does not belong to the current stage; nothing changes.
    Ignore,
}

/// One call: its flags, where it stands, and the failure a replay is diagnosing.
#[derive(Clone, Debug)]
pub struct CallSession {
    pub flags: CallFlags,
    pub stage: Stage,
    pub pending: Option<ClientFailure>,
}

/// The message must be encoded up front on every path but the plain send-and-wait.
pub open spec fn needs_encoded_message(f: CallFlags) -> bool {
    f.is_fee || f.async_call || f.local_run || f.debug_fail
}

pub open spec fn is_submission(a: Action) -> bool {
    a is SendMessage || a is ProcessMessage
}

pub open spec fn fresh_session(flags: CallFlags) -> CallSession {
    CallSession { flags, stage: Stage::Start, pending: None }
}

pub open spec fn goto(s: CallSession, stage: Stage, a: Action) -> (CallSession, Action) {
    (CallSession { stage, ..s }, a)
}

/// Where a call goes once the local run is over (or when there is none).
pub open spec fn after_emulation(s: CallSession) -> (CallSession, Action) {
    if s.flags.async_call {
        goto(s, Stage::Sending, Action::SendMessage)
    } else if s.flags.debug_fail {
        goto(s, Stage::Capturing, Action::CaptureDiagnostics)
    } else {
        goto(s, Stage::Processing, Action::ProcessMessage)
    }
}

pub open spec fn done(s: CallSession, r: Result<Completion, CallError>) -> (CallSession, Action) {
    goto(s, Stage::Done, Action::Finish(r))
}

/// The path a call takes: fee estimation stops after the local run; an
/// asynchronous call is sent and not awaited; otherwise the call is sent and
/// awaited, with the diagnostic state captured first when replay is asked for.
/// A local run that is not a fee estimate is advisory: its outcome is ignored.
pub open spec fn next(s: CallSession, e: Event) -> (CallSession, Action) {
    match (s.stage, e) {
        (Stage::Start, Event::Begin) => {
            if needs_encoded_message(s.flags) {
                goto(s, Stage::Encoding, Action::EncodeMessage)
            } else {
                goto(s, Stage::Processing, Action::ProcessMessage)
            }
        },
        (Stage::Encoding, Event::Encoded(r)) => match r {
            Err(m) => done(s, Err(CallError::Encoding(m))),
            Ok(_) => if s.flags.is_fee || s.flags.local_run {
                goto(s, Stage::Emulating, Action::Emulate { fee_mode: s.flags.is_fee })
            } else {
                after_emulation(s)
            },
        },
        (Stage::Emulating, Event::Emulated(r)) => if s.flags.is_fee {
            match r {
                Ok(_) => done(s, Ok(Completion::FeeEstimated)),
                Err(err) => done(s, Err(err)),
            }
        } else {
            after_emulation(s)
        },
        (Stage::Sending, Event::Sent(r)) => match r {
            Ok(_) => done(s, Ok(Completion::Dispatched)),
            Err(m) => done(s, Err(CallError::Transport(m))),
        },
        (Stage::Capturing, Event::Captured(r)) => match r {
            Ok(_) => goto(s, Stage::Processing, Action::ProcessMessage),
            Err(m) => done(s, Err(CallError::Capture(m))),
        },
        (Stage::Processing, Event::Processed(r)) => match r {
            Ok(_) => done(s, Ok(Completion::Confirmed)),
            Err(f) => if s.flags.debug_fail && f.code == EXECUTION_ERROR_CODE {
                (
                    CallSession { stage: Stage::Replaying, pending: Some(f), ..s },
                    Action::ReplayLocally,
                )
            } else {
                done(s, Err(CallError::Remote(f)))
            },
        },
        (Stage::Replaying, Event::Replayed(_)) => match s.pending {
            Some(f) => (
                CallSession { stage: Stage::Done, pending: None, ..s },
                Action::Finish(Err(CallError::Remote(f))),
            ),
            None => (s, Action::Ignore),
        },
        _ => (s, Action::Ignore),
    }
}

/// The actions that a call takes when the outside world reports `events` in turn.
pub open spec fn run(s: CallSession, events: Seq<Event>) -> Seq<Action>
    decreases events.len(),
{
    if events.len() == 0 {
        seq![]
    } else {
        let (s2, a) = next(s, events[0]);
        seq![a] + run(s2, events.drop_first())
    }
}

/// A session that a call can reach: a replay always has the failure it diagnoses.
pub open spec fn session_wf(s: CallSession) -> bool {
    s.stage is Replaying ==> s.pending is Some
}

pub open spec fn on_fee_path(s: Stage) -> bool {
    s is Start || s is Encoding || s is Emulating || s is Done
}

pub open spec fn on_async_path(s: Stage) -> bool {
    !(s is Capturing || s is Processing || s is Replaying)
}

proof fn lemma_run_step(s: CallSession, events: Seq<Event>, i: int)
    requires
        0 < i < events.len(),
    ensures
        run(s, events).len() == events.len(),
        run(s, events)[0] == next(s, events[0]).1,
        run(s, events)[i] == run(next(s, events[0]).0, events.drop_first())[i - 1],
    decreases events.len(),
{
    lemma_run_len(s, events);
    lemma_run_len(next(s, events[0]).0, events.drop_first());
}

proof fn lemma_run_len(s: CallSession, events: Seq<Event>)
    ensures
        run(s, events).len() == events.len(),
    decreases events.len(),
{
    if events.len() > 0 {
        lemma_run_len(next(s, events[0]).0, events.drop_first());
    }
}

proof fn lemma_fee_run(s: CallSession, events: Seq<Event>)
    requires
        s.flags.is_fee,
        on_fee_path(s.stage),
    ensures
        run(s, events).len() == events.len(),
        forall|i: int| 0 <= i < events.len() ==> !is_submission(#[trigger] run(s, events)[i]),
    decreases events.len(),
{
    lemma_run_len(s, events);
    if events.len() > 0 {
        let s2 = next(s, events[0]).0;
        lemma_fee_run(s2, events.drop_first());
        assert forall|i: int| 0 <= i < events.len() implies !is_submission(
            #[trigger] run(s, events)[i],
        ) by {
            if i > 0 {
                lemma_run_step(s, events, i);
            }
        }
    }
}

/// A fee estimate never submits: whatever the outside world reports, a call made
/// with `is_fee` never asks to send the message or to process it on the network.
pub proof fn lemma_fee_mode_never_submits(flags: CallFlags, events: Seq<Event>)
    requires
        flags.is_fee,
    ensures
        run(fresh_session(flags), events).len() == events.len(),
        forall|i: int|
            0 <= i < events.len() ==> !is_submission(#[trigger] run(fresh_session(flags), events)[i]),
{
    lemma_fee_run(fresh_session(flags), events);
}

pub open spec fn async_safe(a: Action) -> bool {
    &&& !(a is ProcessMessage)
    &&& !(a is CaptureDiagnostics)
    &&& !(a is ReplayLocally)
    &&& !(a matches Action::Finish(Ok(Completion::Confirmed)))
}

proof fn lemma_async_run(s: CallSession, events: Seq<Event>)
    requires
        s.flags.async_call,
        on_async_path(s.stage),
    ensures
        run(s, events).len() == events.len(),
        forall|i: int| 0 <= i < events.len() ==> async_safe(#[trigger] run(s, events)[i]),
    decreases events.len(),
{
    lemma_run_len(s, events);
    if events.len() > 0 {
        let s2 = next(s, events[0]).0;
        lemma_async_run(s2, events.drop_first());
        assert forall|i: int| 0 <= i < events.len() implies async_safe(
            #[trigger] run(s, events)[i],
        ) by {
            if i > 0 {
                lemma_run_step(s, events, i);
            }
        }
    }
}

/// An asynchronous call never waits: it never asks to process the message (the
/// path that awaits the transaction), nor to capture or replay, and it never ends
/// as confirmed; once sent, it ends at once with the empty outcome.
pub proof fn lemma_async_call_never_waits(flags: CallFlags, events: Seq<Event>)
    requires
        flags.async_call,
    ensures
        run(fresh_session(flags), events).len() == events.len(),
        forall|i: int|
            0 <= i < events.len() ==> async_safe(#[trigger] run(fresh_session(flags), events)[i]),
        forall|s: CallSession|
            s.stage is Sending ==> #[trigger] next(s, Event::Sent(Ok(()))).1 == Action::Finish(
                Ok(Completion::Dispatched),
            ),
{
    lemma_async_run(fresh_session(flags), events);
}

/// The message was processed and the ledger rejected its execution.
pub open spec fn is_execution_failure(e: Event) -> bool {
    match e {
        Event::Processed(Err(f)) => f.code == EXECUTION_ERROR_CODE,
        _ => false,
    }
}

/// A local replay starts exactly when the message was processed and the ledger
/// rejected it with the execution error code, on a call that asked for replays;
/// any other failure ends the call unchanged. After the replay, whatever its
/// outcome, the call ends with the original failure.
pub proof fn lemma_replay_only_on_execution_error(s: CallSession, e: Event)
    ensures
        next(s, e).1 is ReplayLocally <==> (s.stage is Processing && s.flags.debug_fail
            && is_execution_failure(e)),
        s.stage is Processing ==> match e {
            Event::Processed(Err(f)) => !(s.flags.debug_fail && f.code == EXECUTION_ERROR_CODE)
                ==> next(s, e).1 == Action::Finish(Err(CallError::Remote(f))),
            _ => true,
        },
        session_wf(s) ==> session_wf(next(s, e).0),
        (session_wf(s) && s.stage is Replaying && e is Replayed) ==> next(s, e).1
            == Action::Finish(Err(CallError::Remote(s.pending.unwrap()))),
{
}

impl CallSession {
    pub fn new(flags: CallFlags) -> (r: CallSession)
        ensures
            r == fresh_session(flags),
    {
        CallSession { flags, stage: Stage::Start, pending: None }
    }

    fn leave_emulation(&mut self) -> (a: Action)
        ensures
            (*final(self), a) == after_emulation(*old(self)),
    {
        if self.flags.async_call {
            self.stage = Stage::Sending;
            Action::SendMessage
        } else if self.flags.debug_fail {
            self.stage = Stage::Capturing;
            Action::CaptureDiagnostics
        } else {
            self.stage = Stage::Processing;
            Action::ProcessMessage
        }
    }

    fn finish(&mut self, r: Result<Completion, CallError>) -> (a: Action)
        ensures
            (*final(self), a) == done(*old(self), r),
    {
        self.stage = Stage::Done;
        Action::Finish(r)
    }

    /// Takes the next event of the call and says what to do next.
    pub fn step(&mut self, event: Event) -> (a: Action)
        ensures
            (*final(self), a) == next(*old(self), event),
    {
        let f = self.flags;
        match event {
            Event::Begin => match self.stage {
                Stage::Start => {
                    if f.is_fee || f.async_call || f.local_run || f.debug_fail {
                        self.stage = Stage::Encoding;
                        Action::EncodeMessage
                    } else {
                        self.stage = Stage::Processing;
                        Action::ProcessMessage
                    }
                },
                _ => Action::Ignore,
            },
            Event::Encoded(r) => match self.stage {
                Stage::Encoding => match r {
                    Err(m) => self.finish(Err(CallError::Encoding(m))),
                    Ok(_) => {
                        if f.is_fee || f.local_run {
                            self.stage = Stage::Emulating;
                            Action::Emulate { fee_mode: f.is_fee }
                        } else {
                            self.leave_emulation()
                        }
                    },
                },
                _ => Action::Ignore,
            },
            Event::Emulated(r) => match self.stage {
                Stage::Emulating => {
                    if f.is_fee {
                        match r {
                            Ok(_) => self.finish(Ok(Completion::FeeEstimated)),
                            Err(err) => self.finish(Err(err)),
                        }
                    } else {
                        self.leave_emulation()
                    }
                },
                _ => Action::Ignore,
            },
            Event::Sent(r) => match self.stage {
                Stage::Sending => match r {
                    Ok(_) => self.finish(Ok(Completion::Dispatched)),
                    Err(m) => self.finish(Err(CallError::Transport(m))),
                },
                _ => Action::Ignore,
            },
            Event::Captured(r) => match self.stage {
                Stage::Capturing => match r {
                    Ok(_) => {
                        self.stage = Stage::Processing;
                        Action::ProcessMessage
                    },
                    Err(m) => self.finish(Err(CallError::Capture(m))),
                },
                _ => Action::Ignore,
            },
            Event::Processed(r) => match self.stage {
                Stage::Processing => match r {
                    Ok(_) => self.finish(Ok(Completion::Confirmed)),
                    Err(failure) => {
                        if f.debug_fail && failure.code == EXECUTION_ERROR_CODE {
                            self.stage = Stage::Replaying;
                            self.pending = Some(failure);
                            Action::ReplayLocally
                        } else {
                            self.finish(Err(CallError::Remote(failure)))
                        }
                    },
                },
                _ => Action::Ignore,
            },
            Event::Replayed(_) => match self.stage {
                Stage::Replaying => match self.pending.take() {
                    Some(failure) => {
                        self.stage = Stage::Done;
                        Action::Finish(Err(CallError::Remote(failure)))
                    },
                    None => Action::Ignore,
                },
                _ => Action::Ignore,
            },
        }
    }
}

} // verus!
