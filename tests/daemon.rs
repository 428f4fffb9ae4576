use daemon_rendezvous::addressing::ephemeral_endpoint;
use daemon_rendezvous::client::{ClientAction, ClientEvent, ClientMachine, MAX_MESSAGE_LEN};
use daemon_rendezvous::daemon::{handle_request, DaemonAction, DaemonEvent, DaemonMachine, DaemonState};
use daemon_rendezvous::error::RendezvousError;

fn listening_daemon() -> DaemonMachine {
    let mut d = DaemonMachine::new();
    assert_eq!(d.first_action(), DaemonAction::BindWellKnown);
    assert_eq!(d.step(DaemonEvent::Bound(true)), DaemonAction::Receive);
    assert_eq!(d.state(), DaemonState::Listening);
    d
}

#[test]
fn handler_reply() {
    assert_eq!(handle_request(br#"{"test":1}"#), b"I got it!".to_vec());
    assert_eq!(handle_request(b""), b"I got it!".to_vec());
}

#[test]
fn reply_goes_to_sender() {
    let mut d = listening_daemon();
    let sender = ephemeral_endpoint(4321);
    assert_eq!(
        d.step(DaemonEvent::Received { payload: b"abc".to_vec(), sender: sender.clone() }),
        DaemonAction::Reply { to: sender, body: b"I got it!".to_vec() }
    );
    assert_eq!(d.state(), DaemonState::Replying);
    assert_eq!(d.step(DaemonEvent::ReplySent(true)), DaemonAction::Receive);
}

#[test]
fn race_loser_exits_silently() {
    let mut d = DaemonMachine::new();
    assert_eq!(
        d.step(DaemonEvent::Bound(false)),
        DaemonAction::Exit(RendezvousError::AlreadyRunning)
    );
    assert_eq!(d.state(), DaemonState::Stopped(RendezvousError::AlreadyRunning));
    assert_eq!(
        d.step(DaemonEvent::Received { payload: vec![1], sender: vec![2] }),
        DaemonAction::Ignored
    );
    assert_eq!(d.step(DaemonEvent::Bound(true)), DaemonAction::Ignored);
}

#[test]
fn single_instance_among_racers() {
    let mut racers: Vec<DaemonMachine> = (0..5).map(|_| DaemonMachine::new()).collect();
    for (i, d) in racers.iter_mut().enumerate() {
        d.step(DaemonEvent::Bound(i == 2));
    }
    let listening = racers.iter().filter(|d| d.state() == DaemonState::Listening).count();
    assert_eq!(listening, 1);
    assert_eq!(racers[2].state(), DaemonState::Listening);
}

#[test]
fn loop_survives_bad_interactions() {
    let mut d = listening_daemon();
    assert_eq!(
        d.step(DaemonEvent::ReceiveFailed),
        DaemonAction::ReportAndReceive(RendezvousError::ExchangeFailed)
    );
    d.step(DaemonEvent::Received { payload: vec![], sender: ephemeral_endpoint(9) });
    assert_eq!(
        d.step(DaemonEvent::ReplySent(false)),
        DaemonAction::ReportAndReceive(RendezvousError::ReplyDeliveryFailed)
    );
    assert_eq!(d.state(), DaemonState::Listening);
}

#[test]
fn two_clients_race_to_boot_one_daemon() {
    let payload = br#"{"test":1}"#.to_vec();
    let mut a = ClientMachine::new(payload.clone()).unwrap();
    let mut b = ClientMachine::new(payload.clone()).unwrap();
    a.step(ClientEvent::LocalBound(true));
    b.step(ClientEvent::LocalBound(true));
    // Client A finds nothing and launches a daemon.
    assert_eq!(a.step(ClientEvent::Connected(false)), ClientAction::SpawnDaemon);
    assert_eq!(a.step(ClientEvent::Spawned(true)), ClientAction::RetryConnect(10));
    // Client B starts while A's daemon is still booting, and launches its own.
    assert_eq!(b.step(ClientEvent::Connected(false)), ClientAction::SpawnDaemon);
    assert_eq!(b.step(ClientEvent::Spawned(true)), ClientAction::RetryConnect(10));
    let mut daemon_a = DaemonMachine::new();
    let mut daemon_b = DaemonMachine::new();
    assert_eq!(daemon_a.step(DaemonEvent::Bound(true)), DaemonAction::Receive);
    assert_eq!(
        daemon_b.step(DaemonEvent::Bound(false)),
        DaemonAction::Exit(RendezvousError::AlreadyRunning)
    );
    // Both poll and converge on the winner.
    assert_eq!(a.step(ClientEvent::Connected(true)), ClientAction::Send(payload.clone()));
    assert_eq!(b.step(ClientEvent::Connected(false)), ClientAction::RetryConnect(10));
    assert_eq!(b.step(ClientEvent::Connected(true)), ClientAction::Send(payload.clone()));
    a.step(ClientEvent::Sent(true));
    b.step(ClientEvent::Sent(true));
    let addr_a = ephemeral_endpoint(100);
    let addr_b = ephemeral_endpoint(101);
    let reply_a = daemon_a.step(DaemonEvent::Received { payload: payload.clone(), sender: addr_a.clone() });
    assert_eq!(reply_a, DaemonAction::Reply { to: addr_a, body: b"I got it!".to_vec() });
    daemon_a.step(DaemonEvent::ReplySent(true));
    let reply_b = daemon_a.step(DaemonEvent::Received { payload: payload.clone(), sender: addr_b.clone() });
    assert_eq!(reply_b, DaemonAction::Reply { to: addr_b, body: b"I got it!".to_vec() });
    assert_eq!(
        a.step(ClientEvent::Received(b"I got it!".to_vec())),
        ClientAction::Finish(Ok(b"I got it!".to_vec()))
    );
    assert_eq!(
        b.step(ClientEvent::Received(b"I got it!".to_vec())),
        ClientAction::Finish(Ok(b"I got it!".to_vec()))
    );
}

#[test]
fn oversized_request_is_rejected() {
    let mut d = listening_daemon();
    assert_eq!(
        d.step(DaemonEvent::Received { payload: vec![1u8; MAX_MESSAGE_LEN + 1], sender: ephemeral_endpoint(5) }),
        DaemonAction::ReportAndReceive(RendezvousError::PayloadTooLarge)
    );
    assert_eq!(d.state(), DaemonState::Listening);
    assert_eq!(
        d.step(DaemonEvent::Received { payload: vec![1u8; MAX_MESSAGE_LEN], sender: ephemeral_endpoint(5) }),
        DaemonAction::Reply { to: ephemeral_endpoint(5), body: b"I got it!".to_vec() }
    );
}
