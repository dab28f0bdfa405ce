use bytes::Bytes;
use quic_tls::error::{HandshakeError, Level};
use quic_tls::keys::{KeyEvent, KeyLifecycle};
use quic_tls::session::{
    settle, ApplicationParameters, Context, CryptoSuite, Guard, Handshake, Progress, ServerName,
    Session, Status,
};
use std::task::Waker;

#[derive(Debug, Default)]
struct Transport {
    calls: Vec<&'static str>,
    inbox: Vec<Vec<u8>>,
    sent: Vec<Vec<u8>>,
    room: bool,
    refuse_keys: bool,
}

impl Transport {
    fn with_room() -> Self {
        Transport { room: true, ..Transport::default() }
    }

    fn receive(&mut self, name: &'static str, max_len: Option<usize>) -> Option<Bytes> {
        self.calls.push(name);
        if self.inbox.is_empty() {
            return None;
        }
        let mut chunk = self.inbox.remove(0);
        if let Some(max) = max_len {
            if chunk.len() > max {
                let rest = chunk.split_off(max);
                self.inbox.insert(0, rest);
            }
        }
        Some(Bytes::from(chunk))
    }

    fn answer(&mut self, name: &'static str) -> Result<(), HandshakeError> {
        self.calls.push(name);
        if self.refuse_keys {
            Err(HandshakeError::Transport { code: 8 })
        } else {
            Ok(())
        }
    }
}

impl Context<Engine> for Transport {
    fn on_handshake_keys(&mut self, _key: u8, _header_key: u8) -> Result<(), HandshakeError> {
        self.answer("on_handshake_keys")
    }

    fn on_zero_rtt_keys(
        &mut self,
        _key: u8,
        _header_key: u8,
        _application_parameters: ApplicationParameters,
    ) -> Result<(), HandshakeError> {
        self.answer("on_zero_rtt_keys")
    }

    fn on_one_rtt_keys(
        &mut self,
        _key: u8,
        _header_key: u8,
        _application_parameters: ApplicationParameters,
    ) -> Result<(), HandshakeError> {
        self.answer("on_one_rtt_keys")
    }

    fn on_server_name(&mut self, _server_name: ServerName) -> Result<(), HandshakeError> {
        self.answer("on_server_name")
    }

    fn on_application_protocol(&mut self, _protocol: Bytes) -> Result<(), HandshakeError> {
        self.answer("on_application_protocol")
    }

    fn on_handshake_complete(&mut self) -> Result<(), HandshakeError> {
        self.answer("on_handshake_complete")
    }

    fn receive_initial(&mut self, max_len: Option<usize>) -> Option<Bytes> {
        self.receive("receive_initial", max_len)
    }

    fn receive_handshake(&mut self, max_len: Option<usize>) -> Option<Bytes> {
        self.receive("receive_handshake", max_len)
    }

    fn receive_application(&mut self, max_len: Option<usize>) -> Option<Bytes> {
        self.receive("receive_application", max_len)
    }

    fn can_send_initial(&self) -> bool {
        self.room
    }

    fn send_initial(&mut self, transmission: Bytes) {
        self.calls.push("send_initial");
        self.sent.push(transmission.to_vec());
    }

    fn can_send_handshake(&self) -> bool {
        self.room
    }

    fn send_handshake(&mut self, transmission: Bytes) {
        self.calls.push("send_handshake");
        self.sent.push(transmission.to_vec());
    }

    fn can_send_application(&self) -> bool {
        self.room
    }

    fn send_application(&mut self, transmission: Bytes) {
        self.calls.push("send_application");
        self.sent.push(transmission.to_vec());
    }

    fn waker(&self) -> &Waker {
        Waker::noop()
    }
}

#[derive(Clone, Copy, Debug, PartialEq, Eq)]
enum Step {
    Wait,
    HandshakeKeys,
    ZeroRttKeys,
    OneRttKeys,
    Complete,
    Finish,
    GiveUp,
}

#[derive(Debug)]
struct Engine {
    script: Vec<Vec<Step>>,
    polls: usize,
}

impl Engine {
    fn new(script: Vec<Vec<Step>>) -> Self {
        Engine { script, polls: 0 }
    }
}

impl CryptoSuite for Engine {
    type InitialKey = u8;
    type InitialHeaderKey = u8;
    type HandshakeKey = u8;
    type HandshakeHeaderKey = u8;
    type ZeroRttKey = u8;
    type ZeroRttHeaderKey = u8;
    type OneRttKey = u8;
    type OneRttHeaderKey = u8;
}

impl Session for Engine {
    fn poll<C: Context<Self>>(&mut self, context: &mut C) -> Progress {
        self.polls += 1;
        let steps = if self.script.is_empty() { vec![Step::Wait] } else { self.script.remove(0) };
        let parameters = [1u8, 2, 3];
        for step in steps {
            let taken = match step {
                Step::Wait => return Progress::Pending,
                Step::Finish => return Progress::Ready,
                Step::GiveUp => return Progress::Failed(HandshakeError::Transport { code: 40 }),
                Step::HandshakeKeys => context.on_handshake_keys(1, 2),
                Step::ZeroRttKeys => context.on_zero_rtt_keys(
                    3,
                    4,
                    ApplicationParameters { transport_parameters: &parameters },
                ),
                Step::OneRttKeys => context.on_one_rtt_keys(
                    5,
                    6,
                    ApplicationParameters { transport_parameters: &parameters },
                ),
                Step::Complete => context.on_handshake_complete(),
            };
            if let Err(error) = taken {
                return Progress::Failed(error);
            }
        }
        Progress::Pending
    }
}

fn guard() -> Guard<Transport> {
    let mut guard = Guard::new(Transport::with_room());
    assert_eq!(guard.install_initial(), Ok(()));
    guard
}

#[test]
fn lifecycle_in_order() {
    let mut keys = KeyLifecycle::new();
    assert!(!keys.has(Level::Initial));
    assert_eq!(keys.install(Level::Initial), Ok(()));
    assert_eq!(keys.install(Level::Handshake), Ok(()));
    assert_eq!(keys.install(Level::ZeroRtt), Ok(()));
    assert_eq!(keys.install(Level::OneRtt), Ok(()));
    assert!(!keys.is_complete());
    assert_eq!(keys.complete(), Ok(()));
    assert!(keys.is_complete());
    assert_eq!(keys.failure(), None);
    for level in [Level::Initial, Level::Handshake, Level::ZeroRtt, Level::OneRtt] {
        assert!(keys.has(level));
    }
}

#[test]
fn lifecycle_zero_rtt_is_optional_and_may_follow_one_rtt() {
    let mut keys = KeyLifecycle::new();
    assert_eq!(keys.install(Level::Initial), Ok(()));
    assert_eq!(keys.install(Level::Handshake), Ok(()));
    assert_eq!(keys.install(Level::OneRtt), Ok(()));
    assert_eq!(keys.install(Level::ZeroRtt), Ok(()));
    assert_eq!(keys.complete(), Ok(()));

    let mut without = KeyLifecycle::new();
    assert_eq!(without.apply(KeyEvent::Install(Level::Initial)), Ok(()));
    assert_eq!(without.apply(KeyEvent::Install(Level::Handshake)), Ok(()));
    assert_eq!(without.apply(KeyEvent::Install(Level::OneRtt)), Ok(()));
    assert_eq!(without.apply(KeyEvent::Complete), Ok(()));
    assert!(!without.has(Level::ZeroRtt));
}

#[test]
fn lifecycle_one_rtt_before_handshake_is_refused() {
    let mut keys = KeyLifecycle::new();
    assert_eq!(keys.install(Level::OneRtt), Err(HandshakeError::KeysOutOfOrder(Level::OneRtt)));
    assert_eq!(keys.failure(), Some(HandshakeError::KeysOutOfOrder(Level::OneRtt)));
    assert!(!keys.has(Level::OneRtt));

    let mut with_initial = KeyLifecycle::new();
    assert_eq!(with_initial.install(Level::Initial), Ok(()));
    assert_eq!(
        with_initial.install(Level::OneRtt),
        Err(HandshakeError::KeysOutOfOrder(Level::OneRtt))
    );
    assert!(with_initial.failure().is_some());
}

#[test]
fn lifecycle_each_refusal() {
    let mut keys = KeyLifecycle::new();
    assert_eq!(
        keys.install(Level::Handshake),
        Err(HandshakeError::KeysOutOfOrder(Level::Handshake))
    );
    assert_eq!(keys.install(Level::Initial), Err(HandshakeError::AfterFailure));
    assert_eq!(keys.complete(), Err(HandshakeError::AfterFailure));
    assert_eq!(keys.failure(), Some(HandshakeError::KeysOutOfOrder(Level::Handshake)));

    let mut twice = KeyLifecycle::new();
    assert_eq!(twice.install(Level::Initial), Ok(()));
    assert_eq!(twice.install(Level::Initial), Err(HandshakeError::KeysRepeated(Level::Initial)));

    let mut zero = KeyLifecycle::new();
    assert_eq!(zero.install(Level::Initial), Ok(()));
    assert_eq!(zero.install(Level::ZeroRtt), Err(HandshakeError::KeysOutOfOrder(Level::ZeroRtt)));

    let mut early = KeyLifecycle::new();
    assert_eq!(early.install(Level::Initial), Ok(()));
    assert_eq!(early.install(Level::Handshake), Ok(()));
    assert_eq!(early.complete(), Err(HandshakeError::CompletionOutOfOrder));

    let mut done = KeyLifecycle::new();
    assert_eq!(done.install(Level::Initial), Ok(()));
    assert_eq!(done.install(Level::Handshake), Ok(()));
    assert_eq!(done.install(Level::OneRtt), Ok(()));
    assert_eq!(done.complete(), Ok(()));
    assert_eq!(done.complete(), Err(HandshakeError::CompletionRepeated));

    let mut late = KeyLifecycle::new();
    assert_eq!(late.install(Level::Initial), Ok(()));
    assert_eq!(late.install(Level::Handshake), Ok(()));
    assert_eq!(late.install(Level::OneRtt), Ok(()));
    assert_eq!(late.complete(), Ok(()));
    assert_eq!(late.install(Level::ZeroRtt), Err(HandshakeError::KeysOutOfOrder(Level::ZeroRtt)));
}

#[test]
fn lifecycle_first_failure_stays() {
    let mut keys = KeyLifecycle::new();
    keys.fail(HandshakeError::Transport { code: 1 });
    keys.fail(HandshakeError::Transport { code: 2 });
    assert_eq!(keys.failure(), Some(HandshakeError::Transport { code: 1 }));
}

#[test]
fn guard_refuses_one_rtt_keys_on_a_new_connection() {
    let mut guard = Guard::new(Transport::with_room());
    let parameters = [0u8; 2];
    let taken = Context::<Engine>::on_one_rtt_keys(
        &mut guard,
        1,
        2,
        ApplicationParameters { transport_parameters: &parameters },
    );
    assert_eq!(taken, Err(HandshakeError::KeysOutOfOrder(Level::OneRtt)));
    assert_eq!(guard.lifecycle().failure(), Some(HandshakeError::KeysOutOfOrder(Level::OneRtt)));
    assert!(guard.context().calls.is_empty());
}

#[test]
fn guard_passes_calls_on_in_order() {
    let mut guard = guard();
    let parameters = [0u8; 2];
    assert_eq!(Context::<Engine>::on_handshake_keys(&mut guard, 1, 2), Ok(()));
    assert_eq!(
        Context::<Engine>::on_one_rtt_keys(
            &mut guard,
            1,
            2,
            ApplicationParameters { transport_parameters: &parameters },
        ),
        Ok(())
    );
    assert_eq!(
        Context::<Engine>::on_server_name(&mut guard, ServerName { name: Bytes::from("a.b") }),
        Ok(())
    );
    assert_eq!(
        Context::<Engine>::on_application_protocol(&mut guard, Bytes::from("h3")),
        Ok(())
    );
    assert_eq!(Context::<Engine>::on_handshake_complete(&mut guard), Ok(()));
    assert!(guard.lifecycle().is_complete());
    assert_eq!(
        guard.context().calls,
        vec![
            "on_handshake_keys",
            "on_one_rtt_keys",
            "on_server_name",
            "on_application_protocol",
            "on_handshake_complete"
        ]
    );
    let _ = Context::<Engine>::waker(&guard);
}

#[test]
fn guard_passes_nothing_on_after_a_failure() {
    let mut guard = guard();
    guard.context();
    assert_eq!(
        Context::<Engine>::on_handshake_complete(&mut guard),
        Err(HandshakeError::CompletionOutOfOrder)
    );
    assert_eq!(
        Context::<Engine>::on_handshake_keys(&mut guard, 1, 2),
        Err(HandshakeError::AfterFailure)
    );
    assert_eq!(
        Context::<Engine>::on_server_name(&mut guard, ServerName { name: Bytes::new() }),
        Err(HandshakeError::AfterFailure)
    );
    assert_eq!(
        Context::<Engine>::on_application_protocol(&mut guard, Bytes::new()),
        Err(HandshakeError::AfterFailure)
    );
    assert!(Context::<Engine>::receive_initial(&mut guard, None).is_none());
    assert!(Context::<Engine>::receive_handshake(&mut guard, Some(4)).is_none());
    assert!(Context::<Engine>::receive_application(&mut guard, None).is_none());
    assert!(!Context::<Engine>::can_send_initial(&guard));
    assert!(!Context::<Engine>::can_send_handshake(&guard));
    assert!(!Context::<Engine>::can_send_application(&guard));
    Context::<Engine>::send_initial(&mut guard, Bytes::from("x"));
    Context::<Engine>::send_handshake(&mut guard, Bytes::from("y"));
    Context::<Engine>::send_application(&mut guard, Bytes::from("z"));
    assert_eq!(guard.lifecycle().failure(), Some(HandshakeError::CompletionOutOfOrder));
    let transport = guard.into_inner();
    assert!(transport.calls.is_empty());
    assert!(transport.sent.is_empty());
}

#[test]
fn guard_records_the_error_of_the_context() {
    let mut transport = Transport::with_room();
    transport.refuse_keys = true;
    let mut guard = Guard::new(transport);
    assert_eq!(guard.install_initial(), Ok(()));
    assert_eq!(
        Context::<Engine>::on_handshake_keys(&mut guard, 1, 2),
        Err(HandshakeError::Transport { code: 8 })
    );
    assert_eq!(guard.lifecycle().failure(), Some(HandshakeError::Transport { code: 8 }));
    assert!(guard.lifecycle().has(Level::Handshake));
}

#[test]
fn guard_receives_within_the_bound() {
    let mut guard = guard();
    let mut transport = Transport::with_room();
    transport.inbox.push(vec![1, 2, 3, 4, 5]);
    let mut guard_with_data = Guard::new(transport);
    let chunk = Context::<Engine>::receive_initial(&mut guard_with_data, Some(2)).unwrap();
    assert_eq!(chunk.as_ref(), &[1u8, 2][..]);
    let rest = Context::<Engine>::receive_handshake(&mut guard_with_data, None).unwrap();
    assert_eq!(rest.as_ref(), &[3u8, 4, 5][..]);
    assert!(Context::<Engine>::receive_application(&mut guard, Some(9)).is_none());
}

#[test]
fn guard_sends_where_there_is_room() {
    let mut guard = guard();
    assert!(Context::<Engine>::can_send_initial(&guard));
    Context::<Engine>::send_initial(&mut guard, Bytes::from("ab"));
    Context::<Engine>::send_handshake(&mut guard, Bytes::from("cd"));
    Context::<Engine>::send_application(&mut guard, Bytes::from("ef"));
    assert_eq!(guard.lifecycle().failure(), None);
    assert_eq!(guard.context().sent, vec![b"ab".to_vec(), b"cd".to_vec(), b"ef".to_vec()]);
}

#[test]
fn guard_fails_a_send_without_room() {
    let mut guard = Guard::new(Transport::default());
    assert!(!Context::<Engine>::can_send_handshake(&guard));
    Context::<Engine>::send_handshake(&mut guard, Bytes::from("cd"));
    assert_eq!(
        guard.lifecycle().failure(),
        Some(HandshakeError::SendWithoutRoom(Level::Handshake))
    );
    assert!(guard.context().sent.is_empty());

    let mut initial = Guard::new(Transport::default());
    Context::<Engine>::send_initial(&mut initial, Bytes::from("ab"));
    assert_eq!(
        initial.lifecycle().failure(),
        Some(HandshakeError::SendWithoutRoom(Level::Initial))
    );
    let mut application = Guard::new(Transport::default());
    Context::<Engine>::send_application(&mut application, Bytes::from("ef"));
    assert_eq!(
        application.lifecycle().failure(),
        Some(HandshakeError::SendWithoutRoom(Level::OneRtt))
    );
}

#[test]
fn guard_install_initial_twice_fails() {
    let mut guard = guard();
    assert_eq!(guard.install_initial(), Err(HandshakeError::KeysRepeated(Level::Initial)));
    guard.fail(HandshakeError::Transport { code: 3 });
    assert_eq!(guard.lifecycle().failure(), Some(HandshakeError::KeysRepeated(Level::Initial)));
}

#[test]
fn settle_each_report() {
    let mut keys = KeyLifecycle::new();
    assert_eq!(settle(Progress::Pending, &keys), Progress::Pending);
    assert_eq!(settle(Progress::Ready, &keys), Progress::Failed(HandshakeError::Incomplete));
    assert_eq!(
        settle(Progress::Failed(HandshakeError::Transport { code: 5 }), &keys),
        Progress::Failed(HandshakeError::Transport { code: 5 })
    );
    for level in [Level::Initial, Level::Handshake, Level::OneRtt] {
        assert_eq!(keys.install(level), Ok(()));
    }
    assert_eq!(settle(Progress::Ready, &keys), Progress::Failed(HandshakeError::Incomplete));
    assert_eq!(keys.complete(), Ok(()));
    assert_eq!(settle(Progress::Ready, &keys), Progress::Ready);
    assert_eq!(settle(Progress::Pending, &keys), Progress::Pending);
    keys.fail(HandshakeError::Transport { code: 6 });
    let failed = Progress::Failed(HandshakeError::Transport { code: 6 });
    assert_eq!(settle(Progress::Ready, &keys), failed);
    assert_eq!(settle(Progress::Pending, &keys), failed);
    assert_eq!(settle(Progress::Failed(HandshakeError::Incomplete), &keys), failed);
}

#[test]
fn drive_to_ready_and_again() {
    let mut guard = guard();
    let mut handshake = Handshake::new(Engine::new(vec![
        vec![Step::Wait],
        vec![Step::HandshakeKeys, Step::Wait],
        vec![Step::ZeroRttKeys, Step::OneRttKeys, Step::Complete, Step::Finish],
    ]));
    assert_eq!(handshake.status(), Status::Driving);
    assert_eq!(handshake.drive(&mut guard), Progress::Pending);
    assert_eq!(handshake.drive(&mut guard), Progress::Pending);
    assert_eq!(handshake.status(), Status::Driving);
    assert_eq!(handshake.drive(&mut guard), Progress::Ready);
    assert_eq!(handshake.status(), Status::Ready);
    let calls = guard.context().calls.len();
    assert_eq!(handshake.drive(&mut guard), Progress::Ready);
    assert_eq!(handshake.drive(&mut guard), Progress::Ready);
    assert_eq!(handshake.status(), Status::Ready);
    assert_eq!(guard.context().calls.len(), calls);
    assert_eq!(guard.lifecycle().failure(), None);
}

#[test]
fn drive_does_not_poll_a_ready_session() {
    let mut guard = guard();
    let mut handshake = Handshake::new(Engine::new(vec![vec![
        Step::HandshakeKeys,
        Step::OneRttKeys,
        Step::Complete,
        Step::Finish,
    ]]));
    assert_eq!(handshake.drive(&mut guard), Progress::Ready);
    assert_eq!(handshake.drive(&mut guard), Progress::Ready);
    assert_eq!(handshake.drive(&mut guard), Progress::Ready);
    let mut other = Guard::new(Transport::default());
    assert_eq!(handshake.drive(&mut other), Progress::Ready);
    assert_eq!(other.lifecycle().failure(), None);
}

#[test]
fn drive_fails_on_keys_out_of_order() {
    let mut guard = guard();
    let mut handshake = Handshake::new(Engine::new(vec![vec![Step::OneRttKeys, Step::Wait]]));
    assert_eq!(
        handshake.drive(&mut guard),
        Progress::Failed(HandshakeError::KeysOutOfOrder(Level::OneRtt))
    );
    assert_eq!(handshake.status(), Status::Failed);
    assert!(guard.context().calls.is_empty());
}

#[test]
fn drive_fails_where_the_session_hides_a_refusal() {
    let mut guard = guard();
    struct Careless(Engine);
    impl std::fmt::Debug for Careless {
        fn fmt(&self, f: &mut std::fmt::Formatter<'_>) -> std::fmt::Result {
            self.0.fmt(f)
        }
    }
    impl CryptoSuite for Careless {
        type InitialKey = u8;
        type InitialHeaderKey = u8;
        type HandshakeKey = u8;
        type HandshakeHeaderKey = u8;
        type ZeroRttKey = u8;
        type ZeroRttHeaderKey = u8;
        type OneRttKey = u8;
        type OneRttHeaderKey = u8;
    }
    impl Session for Careless {
        fn poll<C: Context<Self>>(&mut self, context: &mut C) -> Progress {
            let _ = context.on_handshake_complete();
            Progress::Pending
        }
    }
    let mut transport = Guard::new(CarelessTransport);
    assert_eq!(transport.install_initial(), Ok(()));
    let mut handshake = Handshake::new(Careless(Engine::new(vec![])));
    assert_eq!(
        handshake.drive(&mut transport),
        Progress::Failed(HandshakeError::CompletionOutOfOrder)
    );
    assert_eq!(handshake.status(), Status::Failed);
    assert_eq!(guard.lifecycle().failure(), None);

    struct CarelessTransport;
    impl Context<Careless> for CarelessTransport {
        fn on_handshake_keys(&mut self, _: u8, _: u8) -> Result<(), HandshakeError> {
            Ok(())
        }
        fn on_zero_rtt_keys(
            &mut self,
            _: u8,
            _: u8,
            _: ApplicationParameters,
        ) -> Result<(), HandshakeError> {
            Ok(())
        }
        fn on_one_rtt_keys(
            &mut self,
            _: u8,
            _: u8,
            _: ApplicationParameters,
        ) -> Result<(), HandshakeError> {
            Ok(())
        }
        fn on_server_name(&mut self, _: ServerName) -> Result<(), HandshakeError> {
            Ok(())
        }
        fn on_application_protocol(&mut self, _: Bytes) -> Result<(), HandshakeError> {
            Ok(())
        }
        fn on_handshake_complete(&mut self) -> Result<(), HandshakeError> {
            panic!("completion out of order must not be passed on")
        }
        fn receive_initial(&mut self, _: Option<usize>) -> Option<Bytes> {
            None
        }
        fn receive_handshake(&mut self, _: Option<usize>) -> Option<Bytes> {
            None
        }
        fn receive_application(&mut self, _: Option<usize>) -> Option<Bytes> {
            None
        }
        fn can_send_initial(&self) -> bool {
            false
        }
        fn send_initial(&mut self, _: Bytes) {}
        fn can_send_handshake(&self) -> bool {
            false
        }
        fn send_handshake(&mut self, _: Bytes) {}
        fn can_send_application(&self) -> bool {
            false
        }
        fn send_application(&mut self, _: Bytes) {}
        fn waker(&self) -> &Waker {
            Waker::noop()
        }
    }
}

#[test]
fn drive_fails_where_the_session_is_ready_too_early() {
    let mut guard = guard();
    let mut handshake =
        Handshake::new(Engine::new(vec![vec![Step::HandshakeKeys, Step::OneRttKeys, Step::Finish]]));
    assert_eq!(handshake.drive(&mut guard), Progress::Failed(HandshakeError::Incomplete));
    assert_eq!(handshake.status(), Status::Failed);
    assert_eq!(guard.lifecycle().failure(), Some(HandshakeError::Incomplete));
}

#[test]
fn drive_reports_the_failure_of_the_session() {
    let mut guard = guard();
    let mut handshake = Handshake::new(Engine::new(vec![vec![Step::Wait], vec![Step::GiveUp]]));
    assert_eq!(handshake.drive(&mut guard), Progress::Pending);
    assert_eq!(
        handshake.drive(&mut guard),
        Progress::Failed(HandshakeError::Transport { code: 40 })
    );
    assert_eq!(handshake.status(), Status::Failed);
    assert_eq!(guard.lifecycle().failure(), Some(HandshakeError::Transport { code: 40 }));
    assert!(!Context::<Engine>::can_send_initial(&guard));
}

#[test]
fn guard_lends_the_waker_of_its_context() {
    let mut guard = guard();
    assert!(Context::<Engine>::waker(&guard).will_wake(guard.context().waker()));
    guard.fail(HandshakeError::Transport { code: 3 });
    assert!(Context::<Engine>::waker(&guard).will_wake(guard.context().waker()));
}
