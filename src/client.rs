use vstd::prelude::*;
use crate::error::RendezvousError;

verus! {

/// How many times a client retries reaching the daemon after starting one.
pub const RETRY_COUNT: u32 = 100;

/// How long a client waits before each retry, in milliseconds.
pub const RETRY_DELAY_MS: u64 = 10;

/// The largest payload that fits in one message.
pub const MAX_MESSAGE_LEN: usize = 1024;

/// Where a client stands in its single rendezvous.
#[derive(PartialEq, Eq, Structural, Clone, Copy, Debug)]
pub enum ClientState {
    /// Waiting for its own reply endpoint to be bound.
    Binding,
    /// Waiting for the first attempt to reach the daemon.
    Probing,
    /// Waiting for a daemon to be launched.
    Detaching,
    /// Waiting for a retry to reach the daemon; the count includes this retry.
    Polling(u32),
    /// Waiting for the final, immediate attempt to reach the daemon.
    LastTry,
    /// Waiting for the request to be sent.
    Sending,
    /// Waiting for the reply.
    Receiving,
    /// The reply was handed over.
    Done,
    /// The rendezvous failed.
    Failed(RendezvousError),
}

/// What the environment reports back to a client after an action.
#[derive(PartialEq, Eq, Debug)]
pub enum ClientEvent {
    /// The reply endpoint was bound, or the bind was refused.
    LocalBound(bool),
    /// The daemon's endpoint could be associated, or not.
    Connected(bool),
    /// A daemon launch was attempted; whether the launch call itself succeeded.
    Spawned(bool),
    /// The request was sent, or sending failed.
    Sent(bool),
    /// A reply arrived with these bytes.
    Received(Vec<u8>),
    /// Receiving the reply failed.
    ReceiveFailed,
}

/// What a client asks the environment to do next.
#[derive(PartialEq, Eq, Debug)]
pub enum ClientAction {
    /// Bind the client's own reply endpoint.
    BindLocal,
    /// Try to associate with the daemon's endpoint.
    Connect,
    /// Launch a detached daemon.
    SpawnDaemon,
    /// Sleep this many milliseconds, then try to associate with the daemon.
    RetryConnect(u64),
    /// Send these bytes to the daemon as one message.
    Send(Vec<u8>),
    /// Block until one reply message arrives.
    Receive,
    /// The rendezvous is over, with the reply or the reason it failed.
    Finish(Result<Vec<u8>, RendezvousError>),
    /// The event did not fit the state; nothing new is to be done.
    Ignored,
}

/// The mathematical form of a `ClientEvent`.
pub enum ClientInput {
    LocalBound(bool),
    Connected(bool),
    Spawned(bool),
    Sent(bool),
    Received(Seq<u8>),
    ReceiveFailed,
}

/// The mathematical form of a `ClientAction`.
pub enum ClientOp {
    BindLocal,
    Connect,
    SpawnDaemon,
    RetryConnect(u64),
    Send(Seq<u8>),
    Receive,
    Finish(Result<Seq<u8>, RendezvousError>),
    Ignored,
}

impl View for ClientEvent {
    type V = ClientInput;

    open spec fn view(&self) -> ClientInput {
        match self {
            ClientEvent::LocalBound(b) => ClientInput::LocalBound(*b),
            ClientEvent::Connected(b) => ClientInput::Connected(*b),
            ClientEvent::Spawned(b) => ClientInput::Spawned(*b),
            ClientEvent::Sent(b) => ClientInput::Sent(*b),
            ClientEvent::Received(r) => ClientInput::Received(r@),
            ClientEvent::ReceiveFailed => ClientInput::ReceiveFailed,
        }
    }
}

impl View for ClientAction {
    type V = ClientOp;

    open spec fn view(&self) -> ClientOp {
        match self {
            ClientAction::BindLocal => ClientOp::BindLocal,
            ClientAction::Connect => ClientOp::Connect,
            ClientAction::SpawnDaemon => ClientOp::SpawnDaemon,
            ClientAction::RetryConnect(d) => ClientOp::RetryConnect(*d),
            ClientAction::Send(p) => ClientOp::Send(p@),
            ClientAction::Receive => ClientOp::Receive,
            ClientAction::Finish(Ok(r)) => ClientOp::Finish(Ok(r@)),
            ClientAction::Finish(Err(e)) => ClientOp::Finish(Err(*e)),
            ClientAction::Ignored => ClientOp::Ignored,
        }
    }
}

/// The transition of a client: from a state and an event, the next state and
/// the action to perform. `payload` is the request the client carries.
pub open spec fn client_next(s: ClientState, payload: Seq<u8>, e: ClientInput) -> (ClientState, ClientOp) {
    match (s, e) {
        (ClientState::Binding, ClientInput::LocalBound(true)) => (ClientState::Probing, ClientOp::Connect),
        (ClientState::Binding, ClientInput::LocalBound(false)) => (
            ClientState::Failed(RendezvousError::LocalBindFailed),
            ClientOp::Finish(Err(RendezvousError::LocalBindFailed)),
        ),
        (ClientState::Probing, ClientInput::Connected(true)) => (ClientState::Sending, ClientOp::Send(payload)),
        (ClientState::Probing, ClientInput::Connected(false)) => (ClientState::Detaching, ClientOp::SpawnDaemon),
        (ClientState::Detaching, ClientInput::Spawned(_)) => (
            ClientState::Polling(RETRY_COUNT),
            ClientOp::RetryConnect(RETRY_DELAY_MS),
        ),
        (ClientState::Polling(_), ClientInput::Connected(true)) => (ClientState::Sending, ClientOp::Send(payload)),
        (ClientState::Polling(k), ClientInput::Connected(false)) => if k <= 1 {
            (ClientState::LastTry, ClientOp::Connect)
        } else {
            (ClientState::Polling((k - 1) as u32), ClientOp::RetryConnect(RETRY_DELAY_MS))
        },
        (ClientState::LastTry, ClientInput::Connected(true)) => (ClientState::Sending, ClientOp::Send(payload)),
        (ClientState::LastTry, ClientInput::Connected(false)) => (
            ClientState::Failed(RendezvousError::DaemonUnreachable),
            ClientOp::Finish(Err(RendezvousError::DaemonUnreachable)),
        ),
        (ClientState::Sending, ClientInput::Sent(true)) => (ClientState::Receiving, ClientOp::Receive),
        (ClientState::Sending, ClientInput::Sent(false)) => (
            ClientState::Failed(RendezvousError::ExchangeFailed),
            ClientOp::Finish(Err(RendezvousError::ExchangeFailed)),
        ),
        (ClientState::Receiving, ClientInput::Received(r)) => if r.len() > MAX_MESSAGE_LEN {
            (
                ClientState::Failed(RendezvousError::PayloadTooLarge),
                ClientOp::Finish(Err(RendezvousError::PayloadTooLarge)),
            )
        } else {
            (ClientState::Done, ClientOp::Finish(Ok(r)))
        },
        (ClientState::Receiving, ClientInput::ReceiveFailed) => (
            ClientState::Failed(RendezvousError::ExchangeFailed),
            ClientOp::Finish(Err(RendezvousError::ExchangeFailed)),
        ),
        _ => (s, ClientOp::Ignored),
    }
}

/// The actions a client performs when fed `events` in order, starting from `s`.
pub open spec fn client_run(s: ClientState, payload: Seq<u8>, events: Seq<ClientInput>) -> Seq<ClientOp>
    decreases events.len(),
{
    if events.len() == 0 {
        Seq::empty()
    } else {
        let (s2, op) = client_next(s, payload, events[0]);
        seq![op] + client_run(s2, payload, events.drop_first())
    }
}

/// The state a client reaches when fed `events` in order, starting from `s`.
pub open spec fn client_final(s: ClientState, payload: Seq<u8>, events: Seq<ClientInput>) -> ClientState
    decreases events.len(),
{
    if events.len() == 0 {
        s
    } else {
        client_final(client_next(s, payload, events[0]).0, payload, events.drop_first())
    }
}

/// The total sleeping time, in milliseconds, that a sequence of actions asks for.
pub open spec fn wait_time(ops: Seq<ClientOp>) -> nat
    decreases ops.len(),
{
    if ops.len() == 0 {
        0
    } else {
        let d: nat = match ops[0] {
            ClientOp::RetryConnect(ms) => ms as nat,
            _ => 0,
        };
        d + wait_time(ops.drop_first())
    }
}

/// How many retries a client in state `s` may still wait for.
pub open spec fn retries_left(s: ClientState) -> nat {
    match s {
        ClientState::Binding | ClientState::Probing | ClientState::Detaching => RETRY_COUNT as nat,
        ClientState::Polling(k) => if k >= 1 { (k - 1) as nat } else { 0 },
        _ => 0,
    }
}

proof fn lemma_run_unfold(s: ClientState, payload: Seq<u8>, events: Seq<ClientInput>)
    requires
        events.len() > 0,
    ensures
        ({
            let (s2, op) = client_next(s, payload, events[0]);
            let run = client_run(s, payload, events);
            &&& run[0] == op
            &&& run.drop_first() == client_run(s2, payload, events.drop_first())
            &&& run.len() == 1 + client_run(s2, payload, events.drop_first()).len()
        }),
{
    let (s2, op) = client_next(s, payload, events[0]);
    assert((seq![op] + client_run(s2, payload, events.drop_first())).drop_first()
        =~= client_run(s2, payload, events.drop_first()));
}

proof fn lemma_wait_bounded_from(s: ClientState, payload: Seq<u8>, events: Seq<ClientInput>)
    ensures
        wait_time(client_run(s, payload, events)) <= retries_left(s) * (RETRY_DELAY_MS as nat),
    decreases events.len(),
{
    if events.len() > 0 {
        let (s2, op) = client_next(s, payload, events[0]);
        lemma_run_unfold(s, payload, events);
        lemma_wait_bounded_from(s2, payload, events.drop_first());
        let run = client_run(s, payload, events);
        assert(wait_time(run) == (match op {
            ClientOp::RetryConnect(ms) => ms as nat,
            _ => 0nat,
        }) + wait_time(client_run(s2, payload, events.drop_first())));
        let a = retries_left(s);
        let b = retries_left(s2);
        let w = wait_time(client_run(s2, payload, events.drop_first()));
        if op is RetryConnect {
            assert(op == ClientOp::RetryConnect(RETRY_DELAY_MS));
            assert(b + 1 <= a);
            assert(w + 10 <= a * 10) by (nonlinear_arith)
                requires
                    w <= b * 10,
                    b + 1 <= a,
            ;
        } else {
            assert(b <= a);
            assert(w <= a * 10) by (nonlinear_arith)
                requires
                    w <= b * 10,
                    b <= a,
            ;
        }
    }
}

/// Bounded wait: whatever the environment reports, a client sleeps in total
/// at most `RETRY_COUNT` times `RETRY_DELAY_MS` milliseconds.
pub proof fn lemma_bounded_wait(payload: Seq<u8>, events: Seq<ClientInput>)
    ensures
        wait_time(client_run(ClientState::Binding, payload, events)) <= (RETRY_COUNT as nat) * (
        RETRY_DELAY_MS as nat),
{
    lemma_wait_bounded_from(ClientState::Binding, payload, events);
}

/// `k` failed attempts to reach the daemon.
pub open spec fn failed_attempts(k: nat) -> Seq<ClientInput> {
    Seq::new(k, |i: int| ClientInput::Connected(false))
}

proof fn lemma_polling_gives_up(k: u32, payload: Seq<u8>)
    requires
        k >= 1,
    ensures
        client_final(ClientState::Polling(k), payload, failed_attempts(k as nat + 1)) == ClientState::Failed(
            RendezvousError::DaemonUnreachable,
        ),
        client_run(ClientState::Polling(k), payload, failed_attempts(k as nat + 1)).last() == ClientOp::Finish(
            Err(RendezvousError::DaemonUnreachable),
        ),
    decreases k,
{
    let ev = failed_attempts(k as nat + 1);
    let rest = failed_attempts(k as nat);
    assert(ev.drop_first() =~= rest);
    lemma_run_unfold(ClientState::Polling(k), payload, ev);
    let next = client_next(ClientState::Polling(k), payload, ev[0]).0;
    let run = client_run(ClientState::Polling(k), payload, ev);
    let sub = client_run(next, payload, rest);
    lemma_run_unfold(next, payload, rest);
    assert(client_final(ClientState::Polling(k), payload, ev) == client_final(next, payload, rest));
    assert(run.last() == sub.last()) by {
        assert(run.drop_first() == sub);
        assert(run[run.len() - 1] == run.drop_first()[run.len() - 2]);
    }
    if k > 1 {
        assert(next == ClientState::Polling((k - 1) as u32));
        lemma_polling_gives_up((k - 1) as u32, payload);
    } else {
        assert(next == ClientState::LastTry);
        assert(rest.drop_first() =~= Seq::<ClientInput>::empty());
        assert(client_final(ClientState::LastTry, payload, rest) == client_final(
            ClientState::Failed(RendezvousError::DaemonUnreachable),
            payload,
            rest.drop_first(),
        ));
    }
}

/// When no daemon ever becomes reachable (the launch failing or not), a client
/// that bound its endpoint, launched once, retried `RETRY_COUNT` times and made
/// one last immediate attempt ends with `DaemonUnreachable`.
pub proof fn lemma_unreachable_after_budget(payload: Seq<u8>, spawned: bool)
    ensures
        ({
            let events = seq![
                ClientInput::LocalBound(true),
                ClientInput::Connected(false),
                ClientInput::Spawned(spawned),
            ] + failed_attempts(RETRY_COUNT as nat + 1);
            &&& client_final(ClientState::Binding, payload, events) == ClientState::Failed(
                RendezvousError::DaemonUnreachable,
            )
            &&& client_run(ClientState::Binding, payload, events).last() == ClientOp::Finish(
                Err(RendezvousError::DaemonUnreachable),
            )
        }),
{
    let tail = failed_attempts(RETRY_COUNT as nat + 1);
    let events = seq![
        ClientInput::LocalBound(true),
        ClientInput::Connected(false),
        ClientInput::Spawned(spawned),
    ] + tail;
    let e1 = events.drop_first();
    let e2 = e1.drop_first();
    assert(e2.drop_first() =~= tail);
    lemma_run_unfold(ClientState::Binding, payload, events);
    lemma_run_unfold(ClientState::Probing, payload, e1);
    lemma_run_unfold(ClientState::Detaching, payload, e2);
    lemma_polling_gives_up(RETRY_COUNT, payload);
    assert(client_final(ClientState::Binding, payload, events) == client_final(
        ClientState::Probing,
        payload,
        e1,
    ));
    assert(client_final(ClientState::Probing, payload, e1) == client_final(
        ClientState::Detaching,
        payload,
        e2,
    ));
    assert(client_final(ClientState::Detaching, payload, e2) == client_final(
        ClientState::Polling(RETRY_COUNT),
        payload,
        tail,
    ));
    let run = client_run(ClientState::Binding, payload, events);
    let run1 = client_run(ClientState::Probing, payload, e1);
    let run2 = client_run(ClientState::Detaching, payload, e2);
    let run3 = client_run(ClientState::Polling(RETRY_COUNT), payload, tail);
    lemma_run_unfold(ClientState::Polling(RETRY_COUNT), payload, tail);
    assert(run.last() == run1.last());
    assert(run1.last() == run2.last());
    assert(run2.last() == run3.last());
}

proof fn lemma_no_detach_after_contact(s: ClientState, payload: Seq<u8>, events: Seq<ClientInput>)
    requires
        s is Sending || s is Receiving || s is Done || s is Failed,
    ensures
        forall|i: int|
            0 <= i < client_run(s, payload, events).len() ==> !(client_run(
                s,
                payload,
                events,
            )[i] is SpawnDaemon),
    decreases events.len(),
{
    if events.len() > 0 {
        let s2 = client_next(s, payload, events[0]).0;
        lemma_run_unfold(s, payload, events);
        lemma_no_detach_after_contact(s2, payload, events.drop_first());
        let run = client_run(s, payload, events);
        assert forall|i: int| 0 <= i < run.len() implies !(run[i] is SpawnDaemon) by {
            if i > 0 {
                assert(run[i] == run.drop_first()[i - 1]);
            }
        }
    }
}

/// Idempotent rendezvous: a client whose first attempt reaches a live daemon
/// sends its request at once and never launches a daemon, whatever follows.
pub proof fn lemma_live_daemon_no_detach(payload: Seq<u8>, rest: Seq<ClientInput>)
    ensures
        ({
            let run = client_run(
                ClientState::Binding,
                payload,
                seq![ClientInput::LocalBound(true), ClientInput::Connected(true)] + rest,
            );
            &&& run[1] == ClientOp::Send(payload)
            &&& forall|i: int| 0 <= i < run.len() ==> !(run[i] is SpawnDaemon)
        }),
{
    let events = seq![ClientInput::LocalBound(true), ClientInput::Connected(true)] + rest;
    let e1 = events.drop_first();
    assert(e1.drop_first() =~= rest);
    lemma_run_unfold(ClientState::Binding, payload, events);
    lemma_run_unfold(ClientState::Probing, payload, e1);
    lemma_no_detach_after_contact(ClientState::Sending, payload, rest);
    let run = client_run(ClientState::Binding, payload, events);
    let run1 = client_run(ClientState::Probing, payload, e1);
    assert forall|i: int| 0 <= i < run.len() implies !(run[i] is SpawnDaemon) by {
        if i > 1 {
            assert(run[i] == run1[i - 1]);
            assert(run1[i - 1] == run1.drop_first()[i - 2]);
        }
    }
}

/// One client's rendezvous: its state and the request it carries.
pub struct ClientMachine {
    state: ClientState,
    payload: Vec<u8>,
}

impl ClientMachine {
    /// The current state.
    pub closed spec fn state_spec(&self) -> ClientState {
        self.state
    }

    /// The request payload.
    pub closed spec fn payload_spec(&self) -> Seq<u8> {
        self.payload@
    }

    /// A client about to bind its reply endpoint, carrying `payload`; a
    /// payload that does not fit in one message is refused.
    pub fn new(payload: Vec<u8>) -> (r: Result<ClientMachine, RendezvousError>)
        ensures
            payload@.len() <= MAX_MESSAGE_LEN ==> (r matches Ok(m) && m.state_spec() == ClientState::Binding
                && m.payload_spec() == payload@),
            payload@.len() > MAX_MESSAGE_LEN ==> r == Err::<ClientMachine, RendezvousError>(
                RendezvousError::PayloadTooLarge,
            ),
    {
        if payload.len() > MAX_MESSAGE_LEN {
            Err(RendezvousError::PayloadTooLarge)
        } else {
            Ok(ClientMachine { state: ClientState::Binding, payload })
        }
    }

    /// The first action of a new client: bind its reply endpoint.
    pub fn first_action(&self) -> (r: ClientAction)
        ensures
            r@ == ClientOp::BindLocal,
    {
        ClientAction::BindLocal
    }

    /// The current state.
    pub fn state(&self) -> (r: ClientState)
        ensures
            r == self.state_spec(),
    {
        self.state
    }

    /// Takes one event and returns the next action.
    pub fn step(&mut self, event: ClientEvent) -> (r: ClientAction)
        ensures
            (final(self).state_spec(), r@) == client_next(old(self).state_spec(), old(self).payload_spec(), event@),
            final(self).payload_spec() == old(self).payload_spec(),
    {
        let s = self.state;
        match (s, event) {
            (ClientState::Binding, ClientEvent::LocalBound(ok)) => if ok {
                self.state = ClientState::Probing;
                ClientAction::Connect
            } else {
                self.state = ClientState::Failed(RendezvousError::LocalBindFailed);
                ClientAction::Finish(Err(RendezvousError::LocalBindFailed))
            },
            (ClientState::Probing, ClientEvent::Connected(ok)) => if ok {
                self.state = ClientState::Sending;
                ClientAction::Send(self.payload.clone())
            } else {
                self.state = ClientState::Detaching;
                ClientAction::SpawnDaemon
            },
            (ClientState::Detaching, ClientEvent::Spawned(_)) => {
                self.state = ClientState::Polling(RETRY_COUNT);
                ClientAction::RetryConnect(RETRY_DELAY_MS)
            },
            (ClientState::Polling(k), ClientEvent::Connected(ok)) => if ok {
                self.state = ClientState::Sending;
                ClientAction::Send(self.payload.clone())
            } else if k <= 1 {
                self.state = ClientState::LastTry;
                ClientAction::Connect
            } else {
                self.state = ClientState::Polling(k - 1);
                ClientAction::RetryConnect(RETRY_DELAY_MS)
            },
            (ClientState::LastTry, ClientEvent::Connected(ok)) => if ok {
                self.state = ClientState::Sending;
                ClientAction::Send(self.payload.clone())
            } else {
                self.state = ClientState::Failed(RendezvousError::DaemonUnreachable);
                ClientAction::Finish(Err(RendezvousError::DaemonUnreachable))
            },
            (ClientState::Sending, ClientEvent::Sent(ok)) => if ok {
                self.state = ClientState::Receiving;
                ClientAction::Receive
            } else {
                self.state = ClientState::Failed(RendezvousError::ExchangeFailed);
                ClientAction::Finish(Err(RendezvousError::ExchangeFailed))
            },
            (ClientState::Receiving, ClientEvent::Received(reply)) => if reply.len() > MAX_MESSAGE_LEN {
                self.state = ClientState::Failed(RendezvousError::PayloadTooLarge);
                ClientAction::Finish(Err(RendezvousError::PayloadTooLarge))
            } else {
                self.state = ClientState::Done;
                ClientAction::Finish(Ok(reply))
            },
            (ClientState::Receiving, ClientEvent::ReceiveFailed) => {
                self.state = ClientState::Failed(RendezvousError::ExchangeFailed);
                ClientAction::Finish(Err(RendezvousError::ExchangeFailed))
            },
            _ => ClientAction::Ignored,
        }
    }
}

} // verus!
