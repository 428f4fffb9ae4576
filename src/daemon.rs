use vstd::prelude::*;
use crate::addressing::{ephemeral_name, lemma_endpoints_distinct};
use crate::client::{client_next, ClientInput, ClientOp, ClientState, MAX_MESSAGE_LEN};
use crate::error::RendezvousError;

verus! {

/// Where the daemon stands.
#[derive(PartialEq, Eq, Structural, Clone, Copy, Debug)]
pub enum DaemonState {
    /// Waiting for the well-known endpoint to be bound.
    Starting,
    /// Waiting for the next message.
    Listening,
    /// Waiting for a reply to be delivered.
    Replying,
    /// The daemon could not start and must exit.
    Stopped(RendezvousError),
}

/// What the environment reports back to the daemon after an action.
#[derive(PartialEq, Eq, Debug)]
pub enum DaemonEvent {
    /// The well-known endpoint was bound, or another process holds it.
    Bound(bool),
    /// A message arrived from the endpoint named `sender`.
    Received { payload: Vec<u8>, sender: Vec<u8> },
    /// Receiving a message failed.
    ReceiveFailed,
    /// The reply was delivered, or delivery failed.
    ReplySent(bool),
}

/// What the daemon asks the environment to do next.
#[derive(PartialEq, Eq, Debug)]
pub enum DaemonAction {
    /// Bind the well-known endpoint.
    BindWellKnown,
    /// Block until one message arrives.
    Receive,
    /// Send `body` as one message to the endpoint named `to`.
    Reply { to: Vec<u8>, body: Vec<u8> },
    /// Report the error, then block until one message arrives.
    ReportAndReceive(RendezvousError),
    /// Report the error and end the process with a failure status.
    Exit(RendezvousError),
    /// The event did not fit the state; nothing new is to be done.
    Ignored,
}

/// The mathematical form of a `DaemonEvent`.
pub enum DaemonInput {
    Bound(bool),
    Received { payload: Seq<u8>, sender: Seq<u8> },
    ReceiveFailed,
    ReplySent(bool),
}

/// The mathematical form of a `DaemonAction`.
pub enum DaemonOp {
    BindWellKnown,
    Receive,
    Reply { to: Seq<u8>, body: Seq<u8> },
    ReportAndReceive(RendezvousError),
    Exit(RendezvousError),
    Ignored,
}

impl View for DaemonEvent {
    type V = DaemonInput;

    open spec fn view(&self) -> DaemonInput {
        match self {
            DaemonEvent::Bound(b) => DaemonInput::Bound(*b),
            DaemonEvent::Received { payload, sender } => DaemonInput::Received {
                payload: payload@,
                sender: sender@,
            },
            DaemonEvent::ReceiveFailed => DaemonInput::ReceiveFailed,
            DaemonEvent::ReplySent(b) => DaemonInput::ReplySent(*b),
        }
    }
}

impl View for DaemonAction {
    type V = DaemonOp;

    open spec fn view(&self) -> DaemonOp {
        match self {
            DaemonAction::BindWellKnown => DaemonOp::BindWellKnown,
            DaemonAction::Receive => DaemonOp::Receive,
            DaemonAction::Reply { to, body } => DaemonOp::Reply { to: to@, body: body@ },
            DaemonAction::ReportAndReceive(e) => DaemonOp::ReportAndReceive(*e),
            DaemonAction::Exit(e) => DaemonOp::Exit(*e),
            DaemonAction::Ignored => DaemonOp::Ignored,
        }
    }
}

/// The reply the daemon gives to any request: `I got it!`.
pub open spec fn reply_to(request: Seq<u8>) -> Seq<u8> {
    seq![73, 32, 103, 111, 116, 32, 105, 116, 33]
}

/// The daemon's answer to one request.
pub fn handle_request(request: &[u8]) -> (r: Vec<u8>)
    ensures
        r@ == reply_to(request@),
{
    let r: Vec<u8> = vec![73, 32, 103, 111, 116, 32, 105, 116, 33];
    assert(r@ =~= reply_to(request@));
    r
}

/// The transition of the daemon: from a state and an event, the next state and
/// the action to perform.
pub open spec fn daemon_next(s: DaemonState, e: DaemonInput) -> (DaemonState, DaemonOp) {
    match (s, e) {
        (DaemonState::Starting, DaemonInput::Bound(true)) => (DaemonState::Listening, DaemonOp::Receive),
        (DaemonState::Starting, DaemonInput::Bound(false)) => (
            DaemonState::Stopped(RendezvousError::AlreadyRunning),
            DaemonOp::Exit(RendezvousError::AlreadyRunning),
        ),
        (DaemonState::Listening, DaemonInput::Received { payload, sender }) => if payload.len()
            > MAX_MESSAGE_LEN {
            (DaemonState::Listening, DaemonOp::ReportAndReceive(RendezvousError::PayloadTooLarge))
        } else {
            (DaemonState::Replying, DaemonOp::Reply { to: sender, body: reply_to(payload) })
        },
        (DaemonState::Listening, DaemonInput::ReceiveFailed) => (
            DaemonState::Listening,
            DaemonOp::ReportAndReceive(RendezvousError::ExchangeFailed),
        ),
        (DaemonState::Replying, DaemonInput::ReplySent(true)) => (DaemonState::Listening, DaemonOp::Receive),
        (DaemonState::Replying, DaemonInput::ReplySent(false)) => (
            DaemonState::Listening,
            DaemonOp::ReportAndReceive(RendezvousError::ReplyDeliveryFailed),
        ),
        _ => (s, DaemonOp::Ignored),
    }
}

/// The actions the daemon performs when fed `events` in order, starting from `s`.
pub open spec fn daemon_run(s: DaemonState, events: Seq<DaemonInput>) -> Seq<DaemonOp>
    decreases events.len(),
{
    if events.len() == 0 {
        Seq::empty()
    } else {
        let (s2, op) = daemon_next(s, events[0]);
        seq![op] + daemon_run(s2, events.drop_first())
    }
}

proof fn lemma_daemon_run_unfold(s: DaemonState, events: Seq<DaemonInput>)
    requires
        events.len() > 0,
    ensures
        ({
            let (s2, op) = daemon_next(s, events[0]);
            let run = daemon_run(s, events);
            &&& run[0] == op
            &&& run.drop_first() == daemon_run(s2, events.drop_first())
            &&& run.len() == 1 + daemon_run(s2, events.drop_first()).len()
        }),
{
    let (s2, op) = daemon_next(s, events[0]);
    assert((seq![op] + daemon_run(s2, events.drop_first())).drop_first() =~= daemon_run(
        s2,
        events.drop_first(),
    ));
}

proof fn lemma_stopped_is_silent(e: RendezvousError, events: Seq<DaemonInput>)
    ensures
        forall|i: int|
            0 <= i < daemon_run(DaemonState::Stopped(e), events).len() ==> daemon_run(
                DaemonState::Stopped(e),
                events,
            )[i] == DaemonOp::Ignored,
    decreases events.len(),
{
    if events.len() > 0 {
        let s = DaemonState::Stopped(e);
        lemma_daemon_run_unfold(s, events);
        lemma_stopped_is_silent(e, events.drop_first());
        let run = daemon_run(s, events);
        assert forall|i: int| 0 <= i < run.len() implies run[i] == DaemonOp::Ignored by {
            if i > 0 {
                assert(run[i] == run.drop_first()[i - 1]);
            }
        }
    }
}

/// Race-loser silence: a daemon whose bind of the well-known endpoint is
/// refused exits with `AlreadyRunning` and never receives or answers a
/// message, whatever follows.
pub proof fn lemma_loser_never_accepts(rest: Seq<DaemonInput>)
    ensures
        ({
            let run = daemon_run(DaemonState::Starting, seq![DaemonInput::Bound(false)] + rest);
            &&& run[0] == DaemonOp::Exit(RendezvousError::AlreadyRunning)
            &&& forall|i: int|
                1 <= i < run.len() ==> run[i] == DaemonOp::Ignored
        }),
{
    let events = seq![DaemonInput::Bound(false)] + rest;
    assert(events.drop_first() =~= rest);
    lemma_daemon_run_unfold(DaemonState::Starting, events);
    lemma_stopped_is_silent(RendezvousError::AlreadyRunning, rest);
    let run = daemon_run(DaemonState::Starting, events);
    assert forall|i: int| 1 <= i < run.len() implies run[i] == DaemonOp::Ignored by {
        assert(run[i] == run.drop_first()[i - 1]);
    }
}

/// The state each of `n` daemon-mode processes reaches after its bind, when the
/// kernel grants the well-known endpoint to the one numbered `winner` only.
pub open spec fn race_outcome(n: nat, winner: nat) -> Seq<DaemonState> {
    Seq::new(n, |i: int| daemon_next(DaemonState::Starting, DaemonInput::Bound(i == winner)).0)
}

/// Single instance: since the kernel grants the exclusive bind to one process,
/// exactly that one of `n` racing daemons goes on listening and every other
/// one stops with `AlreadyRunning`.
pub proof fn lemma_single_instance(n: nat, winner: nat)
    requires
        winner < n,
    ensures
        race_outcome(n, winner).len() == n,
        forall|i: int|
            0 <= i < n ==> (race_outcome(n, winner)[i] == DaemonState::Listening <==> i == winner),
        forall|i: int|
            0 <= i < n && i != winner ==> race_outcome(n, winner)[i] == DaemonState::Stopped(
                RendezvousError::AlreadyRunning,
            ),
{
}

proof fn lemma_listening_never_exits(s: DaemonState, events: Seq<DaemonInput>)
    requires
        s is Listening || s is Replying,
    ensures
        forall|i: int|
            0 <= i < daemon_run(s, events).len() ==> !(daemon_run(s, events)[i] is Exit),
    decreases events.len(),
{
    if events.len() > 0 {
        let s2 = daemon_next(s, events[0]).0;
        lemma_daemon_run_unfold(s, events);
        lemma_listening_never_exits(s2, events.drop_first());
        let run = daemon_run(s, events);
        assert forall|i: int| 0 <= i < run.len() implies !(run[i] is Exit) by {
            if i > 0 {
                assert(run[i] == run.drop_first()[i - 1]);
            }
        }
    }
}

/// Once the daemon holds the well-known endpoint it never leaves its loop: no
/// failed receive or undeliverable reply makes it exit.
pub proof fn lemma_daemon_keeps_serving(rest: Seq<DaemonInput>)
    ensures
        ({
            let run = daemon_run(DaemonState::Starting, seq![DaemonInput::Bound(true)] + rest);
            forall|i: int| 0 <= i < run.len() ==> !(run[i] is Exit)
        }),
{
    let events = seq![DaemonInput::Bound(true)] + rest;
    assert(events.drop_first() =~= rest);
    lemma_daemon_run_unfold(DaemonState::Starting, events);
    lemma_listening_never_exits(DaemonState::Listening, rest);
    let run = daemon_run(DaemonState::Starting, events);
    assert forall|i: int| 0 <= i < run.len() implies !(run[i] is Exit) by {
        if i > 0 {
            assert(run[i] == run.drop_first()[i - 1]);
        }
    }
}

/// Message integrity: the client sends its payload byte for byte, whether it
/// reached the daemon at once, after retries or at its last attempt; the daemon
/// answers a request that fits in one message to the very endpoint it came
/// from, which belongs to the sending process and to no other, and rejects a
/// longer one without answering; and the client hands over a reply that fits
/// in one message as received, and rejects a longer one.
pub proof fn lemma_message_integrity(
    request: Seq<u8>,
    reply: Seq<u8>,
    pid: nat,
    other: nat,
    k: u32,
)
    ensures
        client_next(ClientState::Probing, request, ClientInput::Connected(true)).1 == ClientOp::Send(
            request,
        ),
        client_next(ClientState::Polling(k), request, ClientInput::Connected(true)).1 == ClientOp::Send(
            request,
        ),
        client_next(ClientState::LastTry, request, ClientInput::Connected(true)).1 == ClientOp::Send(
            request,
        ),
        request.len() <= MAX_MESSAGE_LEN ==> daemon_next(
            DaemonState::Listening,
            DaemonInput::Received { payload: request, sender: ephemeral_name(pid) },
        ).1 == (DaemonOp::Reply { to: ephemeral_name(pid), body: reply_to(request) }),
        request.len() > MAX_MESSAGE_LEN ==> daemon_next(
            DaemonState::Listening,
            DaemonInput::Received { payload: request, sender: ephemeral_name(pid) },
        ) == (DaemonState::Listening, DaemonOp::ReportAndReceive(RendezvousError::PayloadTooLarge)),
        other != pid ==> ephemeral_name(other) != ephemeral_name(pid),
        reply.len() <= MAX_MESSAGE_LEN ==> client_next(
            ClientState::Receiving,
            request,
            ClientInput::Received(reply),
        ).1 == ClientOp::Finish(Ok(reply)),
        reply.len() > MAX_MESSAGE_LEN ==> client_next(
            ClientState::Receiving,
            request,
            ClientInput::Received(reply),
        ).1 == ClientOp::Finish(Err(RendezvousError::PayloadTooLarge)),
{
    lemma_endpoints_distinct(other, pid);
}

/// The daemon: a single owned state, stepped one event at a time.
pub struct DaemonMachine {
    state: DaemonState,
}

impl DaemonMachine {
    /// The current state.
    pub closed spec fn state_spec(&self) -> DaemonState {
        self.state
    }

    /// A daemon about to bind the well-known endpoint.
    pub fn new() -> (r: DaemonMachine)
        ensures
            r.state_spec() == DaemonState::Starting,
    {
        DaemonMachine { state: DaemonState::Starting }
    }

    /// The first action of a new daemon: bind the well-known endpoint.
    pub fn first_action(&self) -> (r: DaemonAction)
        ensures
            r@ == DaemonOp::BindWellKnown,
    {
        DaemonAction::BindWellKnown
    }

    /// The current state.
    pub fn state(&self) -> (r: DaemonState)
        ensures
            r == self.state_spec(),
    {
        self.state
    }

    /// Takes one event and returns the next action.
    pub fn step(&mut self, event: DaemonEvent) -> (r: DaemonAction)
        ensures
            (final(self).state_spec(), r@) == daemon_next(old(self).state_spec(), event@),
    {
        let s = self.state;
        match (s, event) {
            (DaemonState::Starting, DaemonEvent::Bound(ok)) => if ok {
                self.state = DaemonState::Listening;
                DaemonAction::Receive
            } else {
                self.state = DaemonState::Stopped(RendezvousError::AlreadyRunning);
                DaemonAction::Exit(RendezvousError::AlreadyRunning)
            },
            (DaemonState::Listening, DaemonEvent::Received { payload, sender }) => {
                if payload.len() > MAX_MESSAGE_LEN {
                    DaemonAction::ReportAndReceive(RendezvousError::PayloadTooLarge)
                } else {
                    self.state = DaemonState::Replying;
                    let body = handle_request(payload.as_slice());
                    DaemonAction::Reply { to: sender, body }
                }
            },
            (DaemonState::Listening, DaemonEvent::ReceiveFailed) => {
                DaemonAction::ReportAndReceive(RendezvousError::ExchangeFailed)
            },
            (DaemonState::Replying, DaemonEvent::ReplySent(ok)) => {
                self.state = DaemonState::Listening;
                if ok {
                    DaemonAction::Receive
                } else {
                    DaemonAction::ReportAndReceive(RendezvousError::ReplyDeliveryFailed)
                }
            },
            _ => DaemonAction::Ignored,
        }
    }
}

} // verus!
