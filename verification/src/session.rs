//! The contract between a QUIC engine and a TLS engine. The TLS engine is a
//! `Session`; the QUIC engine lends it a `Context` for the length of one
//! call, through which handshake bytes, keys and notifications pass. A
//! `Guard` stands between the two and holds the TLS engine to the order
//! of the key lifecycle, and a `Handshake` drives the session and keeps
//! what it has reported.

use crate::buffer::contents;
use crate::error::{HandshakeError, Level};
use crate::keys::{KeyEvent, KeyLifecycle, KeyState};
use bytes::Bytes;
use core::task::Waker;
use vstd::prelude::*;

verus! {

/// `core::task::Waker`, the handle that wakes a task. Nothing is claimed
/// of it: it is only handed through.
#[verifier::external_type_specification]
#[verifier::external_body]
pub struct ExWaker(core::task::Waker);

/// The application parameters that are exchanged within the TLS handshake.
/// They are lent for the length of one call: the receiver copies what it
/// keeps.
#[derive(Debug)]
pub struct ApplicationParameters<'a> {
    /// Encoded transport parameters
    pub transport_parameters: &'a [u8],
}

/// The name of the server that a client asked for.
#[derive(Debug)]
pub struct ServerName {
    pub name: Bytes,
}

/// The key types of a TLS engine: for each level a key for packet
/// protection and a key for header protection.
pub trait CryptoSuite {
    type InitialKey;

    type InitialHeaderKey;

    type HandshakeKey;

    type HandshakeHeaderKey;

    type ZeroRttKey;

    type ZeroRttHeaderKey;

    type OneRttKey;

    type OneRttHeaderKey;
}

/// Whether a received chunk keeps to the bound that was asked for.
pub open spec fn within(chunk: Option<Bytes>, max_len: Option<usize>) -> bool {
    chunk matches Some(bytes) ==> (max_len matches Some(max) ==> contents(bytes).len() <= max)
}

/// What the QUIC engine offers to the TLS engine while the session is
/// driven. No method blocks.
pub trait Context<Crypto: CryptoSuite> {
    /// Takes over the handshake keys. An error is fatal to the handshake.
    fn on_handshake_keys(
        &mut self,
        key: Crypto::HandshakeKey,
        header_key: Crypto::HandshakeHeaderKey,
    ) -> Result<(), HandshakeError>;

    /// Takes over the zero-rtt keys and the application parameters that
    /// come with them. An error is fatal to the handshake.
    fn on_zero_rtt_keys(
        &mut self,
        key: Crypto::ZeroRttKey,
        header_key: Crypto::ZeroRttHeaderKey,
        application_parameters: ApplicationParameters,
    ) -> Result<(), HandshakeError>;

    /// Takes over the one-rtt keys and the application parameters that
    /// come with them. An error is fatal to the handshake.
    fn on_one_rtt_keys(
        &mut self,
        key: Crypto::OneRttKey,
        header_key: Crypto::OneRttHeaderKey,
        application_parameters: ApplicationParameters,
    ) -> Result<(), HandshakeError>;

    /// Is told the server name that the TLS engine has authenticated.
    fn on_server_name(&mut self, server_name: ServerName) -> Result<(), HandshakeError>;

    /// Is told the application protocol that the TLS engine has
    /// negotiated.
    fn on_application_protocol(&mut self, application_protocol: Bytes) -> Result<
        (),
        HandshakeError,
    >;

    /// Is told that the TLS engine has sent its Finished message and
    /// verified the peer's.
    fn on_handshake_complete(&mut self) -> Result<(), HandshakeError>;

    /// Receives data from the initial packet space: the next chunk of
    /// handshake bytes, of no more than `max_len` bytes where a bound is
    /// given, or nothing where none has arrived.
    fn receive_initial(&mut self, max_len: Option<usize>) -> (chunk: Option<Bytes>)
        ensures
            within(chunk, max_len),
    ;

    /// Receives data from the handshake packet space, as `receive_initial`
    /// does from the initial one.
    fn receive_handshake(&mut self, max_len: Option<usize>) -> (chunk: Option<Bytes>)
        ensures
            within(chunk, max_len),
    ;

    /// Receives data from the application packet space, as
    /// `receive_initial` does from the initial one.
    fn receive_application(&mut self, max_len: Option<usize>) -> (chunk: Option<Bytes>)
        ensures
            within(chunk, max_len),
    ;

    /// Whether there is room for handshake bytes to send in the initial
    /// packet space.
    fn can_send_initial(&self) -> bool;

    /// Hands over handshake bytes for sending in the initial packet space.
    fn send_initial(&mut self, transmission: Bytes);

    /// Whether there is room for handshake bytes to send in the handshake
    /// packet space.
    fn can_send_handshake(&self) -> bool;

    /// Hands over handshake bytes for sending in the handshake packet
    /// space.
    fn send_handshake(&mut self, transmission: Bytes);

    /// Whether there is room for handshake bytes to send in the
    /// application packet space.
    fn can_send_application(&self) -> bool;

    /// Hands over handshake bytes for sending in the application packet
    /// space.
    fn send_application(&mut self, transmission: Bytes);

    /// The handle by which the TLS engine asks to be driven again.
    fn waker(&self) -> &Waker;
}

/// Where a session stands after it was driven.
#[derive(Clone, Copy, Debug, PartialEq, Eq, Structural)]
pub enum Progress {
    /// The session waits for handshake bytes, for room to send, or for
    /// its waker.
    Pending,
    /// The handshake is done.
    Ready,
    /// The handshake has failed.
    Failed(HandshakeError),
}

/// A TLS engine's side of one connection.
pub trait Session: CryptoSuite + Sized + Send {
    /// Takes the handshake as far as it goes with what `context` offers
    /// now, and does not block.
    fn poll<C: Context<Self>>(&mut self, context: &mut C) -> Progress;
}

/// A TLS engine, which makes the sessions of an endpoint's connections.
pub trait Endpoint: 'static + Sized + Send {
    type Session: Session;

    /// A session for a connection that a client has opened, with the
    /// encoded transport parameters of this endpoint.
    fn new_server_session(&mut self, transport_parameters: &[u8]) -> Self::Session;

    /// A session for a connection to the server `server_name`, with the
    /// encoded transport parameters of this endpoint.
    fn new_client_session(
        &mut self,
        transport_parameters: &[u8],
        server_name: ServerName,
    ) -> Self::Session;

    /// The maximum length of a tag for any algorithm that may be negotiated
    fn max_tag_length(&self) -> usize;
}

/// The key state after a notification that carries `event` was handled by
/// a guard: a notification out of order is recorded as the failure, and so
/// is the error of a context that the notification was passed on to.
pub open spec fn guarded(
    before: KeyState,
    event: KeyEvent,
    answer: Result<(), HandshakeError>,
) -> KeyState {
    match (before.refusal(event), answer) {
        (None, Err(error)) => before.after(event).failed_with(error),
        _ => before.after(event),
    }
}

/// The key state after a notification that carries no key event was
/// handled by a guard.
pub open spec fn noticed(before: KeyState, answer: Result<(), HandshakeError>) -> KeyState {
    match answer {
        Err(error) => before.failed_with(error),
        Ok(()) => before,
    }
}

/// A context under guard. The guard keeps the key lifecycle of the
/// connection and is itself a context: it passes a call on to the context
/// it guards only where the call is in order, records as the failure what
/// is not, and passes nothing on after a failure.
pub struct Guard<C> {
    context: C,
    keys: KeyLifecycle,
}

impl<C> Guard<C> {
    /// The context under guard.
    pub closed spec fn inner(self) -> C {
        self.context
    }

    /// The state of the key lifecycle.
    pub closed spec fn keys(self) -> KeyState {
        self.keys@
    }

    /// A guard for the context of a new connection: no keys are installed.
    pub fn new(context: C) -> (guard: Self)
        ensures
            guard.inner() == context,
            guard.keys() == KeyState::fresh(),
    {
        Guard { context, keys: KeyLifecycle::new() }
    }

    /// The key lifecycle.
    pub fn lifecycle(&self) -> (keys: &KeyLifecycle)
        ensures
            keys@ == self.keys(),
    {
        &self.keys
    }

    /// The context under guard.
    pub fn context(&self) -> (context: &C)
        ensures
            *context == self.inner(),
    {
        &self.context
    }

    /// Gives the context back.
    pub fn into_inner(self) -> (context: C)
        ensures
            context == self.inner(),
    {
        self.context
    }

    /// Records that the QUIC engine has installed the initial keys, which
    /// it derives by itself.
    pub fn install_initial(&mut self) -> (taken: Result<(), HandshakeError>)
        ensures
            final(self).keys() == old(self).keys().after(KeyEvent::Install(Level::Initial)),
            final(self).inner() == old(self).inner(),
            taken == match old(self).keys().refusal(KeyEvent::Install(Level::Initial)) {
                Some(error) => Err::<(), HandshakeError>(error),
                None => Ok::<(), HandshakeError>(()),
            },
    {
        self.keys.install(Level::Initial)
    }

    /// Records a failure. The first failure stays.
    pub fn fail(&mut self, error: HandshakeError)
        ensures
            final(self).keys() == old(self).keys().failed_with(error),
            final(self).inner() == old(self).inner(),
    {
        self.keys.fail(error)
    }

    /// Keeps the answer of the context to a notification: an error is
    /// recorded as the failure.
    fn keep(&mut self, answer: Result<(), HandshakeError>) -> (kept: Result<(), HandshakeError>)
        ensures
            kept == answer,
            final(self).keys() == noticed(old(self).keys(), answer),
            final(self).inner() == old(self).inner(),
    {
        if let Err(error) = answer {
            self.keys.fail(error);
        }
        answer
    }
}

impl<Crypto: CryptoSuite, C: Context<Crypto>> Context<Crypto> for Guard<C> {
    /// Passes the handshake keys on where the initial keys are installed
    /// and the handshake keys are not: the context under guard is handed
    /// the keys, and its answer is the answer. Out of order the keys are
    /// dropped and the context is not called.
    fn on_handshake_keys(
        &mut self,
        key: Crypto::HandshakeKey,
        header_key: Crypto::HandshakeHeaderKey,
    ) -> (taken: Result<(), HandshakeError>)
        ensures
            final(self).keys() == guarded(
                old(self).keys(),
                KeyEvent::Install(Level::Handshake),
                taken,
            ),
            old(self).keys().refusal(KeyEvent::Install(Level::Handshake)) matches Some(error)
                ==> taken == Err::<(), HandshakeError>(error),
            old(self).keys().refusal(KeyEvent::Install(Level::Handshake)) is Some
                ==> final(self).inner() == old(self).inner(),
            old(self).keys().refusal(KeyEvent::Install(Level::Handshake)) is None ==> exists|
                lent: &mut C,
            |
                mut_ref_current(lent) == old(self).inner() && mut_ref_future(lent)
                    == final(self).inner() && #[trigger] call_ensures(
                    <C as Context<Crypto>>::on_handshake_keys,
                    (lent, key, header_key),
                    taken,
                ),
    {
        self.keys.install(Level::Handshake)?;
        let answer = self.context.on_handshake_keys(key, header_key);
        self.keep(answer)
    }

    /// Passes the zero-rtt keys on where the handshake keys are installed
    /// and the zero-rtt keys are not, as `on_handshake_keys` does with the
    /// handshake keys.
    fn on_zero_rtt_keys(
        &mut self,
        key: Crypto::ZeroRttKey,
        header_key: Crypto::ZeroRttHeaderKey,
        application_parameters: ApplicationParameters,
    ) -> (taken: Result<(), HandshakeError>)
        ensures
            final(self).keys() == guarded(
                old(self).keys(),
                KeyEvent::Install(Level::ZeroRtt),
                taken,
            ),
            old(self).keys().refusal(KeyEvent::Install(Level::ZeroRtt)) matches Some(error)
                ==> taken == Err::<(), HandshakeError>(error),
            old(self).keys().refusal(KeyEvent::Install(Level::ZeroRtt)) is Some
                ==> final(self).inner() == old(self).inner(),
            old(self).keys().refusal(KeyEvent::Install(Level::ZeroRtt)) is None ==> exists|
                lent: &mut C,
            |
                mut_ref_current(lent) == old(self).inner() && mut_ref_future(lent)
                    == final(self).inner() && #[trigger] call_ensures(
                    <C as Context<Crypto>>::on_zero_rtt_keys,
                    (lent, key, header_key, application_parameters),
                    taken,
                ),
    {
        self.keys.install(Level::ZeroRtt)?;
        let answer = self.context.on_zero_rtt_keys(key, header_key, application_parameters);
        self.keep(answer)
    }

    /// Passes the one-rtt keys on where the handshake keys are installed
    /// and the one-rtt keys are not, as `on_handshake_keys` does with the
    /// handshake keys.
    fn on_one_rtt_keys(
        &mut self,
        key: Crypto::OneRttKey,
        header_key: Crypto::OneRttHeaderKey,
        application_parameters: ApplicationParameters,
    ) -> (taken: Result<(), HandshakeError>)
        ensures
            final(self).keys() == guarded(
                old(self).keys(),
                KeyEvent::Install(Level::OneRtt),
                taken,
            ),
            old(self).keys().refusal(KeyEvent::Install(Level::OneRtt)) matches Some(error)
                ==> taken == Err::<(), HandshakeError>(error),
            old(self).keys().refusal(KeyEvent::Install(Level::OneRtt)) is Some
                ==> final(self).inner() == old(self).inner(),
            old(self).keys().refusal(KeyEvent::Install(Level::OneRtt)) is None ==> exists|
                lent: &mut C,
            |
                mut_ref_current(lent) == old(self).inner() && mut_ref_future(lent)
                    == final(self).inner() && #[trigger] call_ensures(
                    <C as Context<Crypto>>::on_one_rtt_keys,
                    (lent, key, header_key, application_parameters),
                    taken,
                ),
    {
        self.keys.install(Level::OneRtt)?;
        let answer = self.context.on_one_rtt_keys(key, header_key, application_parameters);
        self.keep(answer)
    }

    /// Passes the server name on, unless the handshake has failed: the
    /// answer of the context under guard is the answer.
    fn on_server_name(&mut self, server_name: ServerName) -> (taken: Result<(), HandshakeError>)
        ensures
            final(self).keys() == noticed(old(self).keys(), taken),
            old(self).keys().failure is Some ==> taken == Err::<(), HandshakeError>(
                HandshakeError::AfterFailure,
            ) && final(self).inner() == old(self).inner(),
            old(self).keys().failure is None ==> exists|lent: &mut C|
                mut_ref_current(lent) == old(self).inner() && mut_ref_future(lent)
                    == final(self).inner() && #[trigger] call_ensures(
                    <C as Context<Crypto>>::on_server_name,
                    (lent, server_name),
                    taken,
                ),
    {
        if self.keys.failure().is_some() {
            return Err(HandshakeError::AfterFailure);
        }
        let answer = self.context.on_server_name(server_name);
        self.keep(answer)
    }

    /// Passes the application protocol on, unless the handshake has
    /// failed: the answer of the context under guard is the answer.
    fn on_application_protocol(&mut self, application_protocol: Bytes) -> (taken: Result<
        (),
        HandshakeError,
    >)
        ensures
            final(self).keys() == noticed(old(self).keys(), taken),
            old(self).keys().failure is Some ==> taken == Err::<(), HandshakeError>(
                HandshakeError::AfterFailure,
            ) && final(self).inner() == old(self).inner(),
            old(self).keys().failure is None ==> exists|lent: &mut C|
                mut_ref_current(lent) == old(self).inner() && mut_ref_future(lent)
                    == final(self).inner() && #[trigger] call_ensures(
                    <C as Context<Crypto>>::on_application_protocol,
                    (lent, application_protocol),
                    taken,
                ),
    {
        if self.keys.failure().is_some() {
            return Err(HandshakeError::AfterFailure);
        }
        let answer = self.context.on_application_protocol(application_protocol);
        self.keep(answer)
    }

    /// Passes the completion on where the one-rtt keys are installed and
    /// completion was not reported before: the answer of the context
    /// under guard is the answer.
    fn on_handshake_complete(&mut self) -> (taken: Result<(), HandshakeError>)
        ensures
            final(self).keys() == guarded(old(self).keys(), KeyEvent::Complete, taken),
            old(self).keys().refusal(KeyEvent::Complete) matches Some(error) ==> taken == Err::<
                (),
                HandshakeError,
            >(error) && final(self).inner() == old(self).inner(),
            old(self).keys().refusal(KeyEvent::Complete) is None ==> exists|lent: &mut C|
                mut_ref_current(lent) == old(self).inner() && mut_ref_future(lent)
                    == final(self).inner() && #[trigger] call_ensures(
                    <C as Context<Crypto>>::on_handshake_complete,
                    (lent,),
                    taken,
                ),
    {
        self.keys.complete()?;
        let answer = self.context.on_handshake_complete();
        self.keep(answer)
    }

    /// Receives from the initial packet space: the chunk is the one that
    /// the context under guard hands out for `max_len`, and that context
    /// is left as its own `receive_initial` leaves it. After a failure
    /// nothing is received and the context is not asked.
    fn receive_initial(&mut self, max_len: Option<usize>) -> (chunk: Option<Bytes>)
        ensures
            final(self).keys() == old(self).keys(),
            old(self).keys().failure is Some ==> chunk is None,
            old(self).keys().failure is Some ==> final(self).inner() == old(self).inner(),
            old(self).keys().failure is None ==> exists|lent: &mut C|
                mut_ref_current(lent) == old(self).inner() && mut_ref_future(lent)
                    == final(self).inner() && #[trigger] call_ensures(
                    <C as Context<Crypto>>::receive_initial,
                    (lent, max_len),
                    chunk,
                ),
    {
        if self.keys.failure().is_some() {
            return None;
        }
        self.context.receive_initial(max_len)
    }

    /// Receives from the handshake packet space, as `receive_initial`
    /// does from the initial one.
    fn receive_handshake(&mut self, max_len: Option<usize>) -> (chunk: Option<Bytes>)
        ensures
            final(self).keys() == old(self).keys(),
            old(self).keys().failure is Some ==> chunk is None,
            old(self).keys().failure is Some ==> final(self).inner() == old(self).inner(),
            old(self).keys().failure is None ==> exists|lent: &mut C|
                mut_ref_current(lent) == old(self).inner() && mut_ref_future(lent)
                    == final(self).inner() && #[trigger] call_ensures(
                    <C as Context<Crypto>>::receive_handshake,
                    (lent, max_len),
                    chunk,
                ),
    {
        if self.keys.failure().is_some() {
            return None;
        }
        self.context.receive_handshake(max_len)
    }

    /// Receives from the application packet space, as `receive_initial`
    /// does from the initial one.
    fn receive_application(&mut self, max_len: Option<usize>) -> (chunk: Option<Bytes>)
        ensures
            final(self).keys() == old(self).keys(),
            old(self).keys().failure is Some ==> chunk is None,
            old(self).keys().failure is Some ==> final(self).inner() == old(self).inner(),
            old(self).keys().failure is None ==> exists|lent: &mut C|
                mut_ref_current(lent) == old(self).inner() && mut_ref_future(lent)
                    == final(self).inner() && #[trigger] call_ensures(
                    <C as Context<Crypto>>::receive_application,
                    (lent, max_len),
                    chunk,
                ),
    {
        if self.keys.failure().is_some() {
            return None;
        }
        self.context.receive_application(max_len)
    }

    /// Whether there is room in the initial packet space: the answer of
    /// the context under guard, and after a failure none.
    fn can_send_initial(&self) -> (room: bool)
        ensures
            self.keys().failure is Some ==> !room,
            self.keys().failure is None ==> call_ensures(
                <C as Context<Crypto>>::can_send_initial,
                (&self.inner(),),
                room,
            ),
    {
        self.keys.failure().is_none() && self.context.can_send_initial()
    }

    /// Passes bytes on for the initial packet space. The context under
    /// guard is asked for room first. With room it is handed the bytes, and
    /// is left as its own `send_initial` leaves it. Without room the bytes
    /// are dropped, the context is left as it was and the handshake fails.
    /// After a failure the bytes are dropped and nothing changes.
    fn send_initial(&mut self, transmission: Bytes)
        ensures
            old(self).keys().failure is Some ==> *final(self) == *old(self),
            old(self).keys().failure is None ==> ({
                ||| ({
                    &&& call_ensures(
                        <C as Context<Crypto>>::can_send_initial,
                        (&old(self).inner(),),
                        true,
                    )
                    &&& final(self).keys() == old(self).keys()
                    &&& exists|lent: &mut C|
                        mut_ref_current(lent) == old(self).inner() && mut_ref_future(lent)
                            == final(self).inner() && #[trigger] call_ensures(
                            <C as Context<Crypto>>::send_initial,
                            (lent, transmission),
                            (),
                        )
                })
                ||| ({
                    &&& call_ensures(
                        <C as Context<Crypto>>::can_send_initial,
                        (&old(self).inner(),),
                        false,
                    )
                    &&& final(self).keys() == old(self).keys().failed_with(
                        HandshakeError::SendWithoutRoom(Level::Initial),
                    )
                    &&& final(self).inner() == old(self).inner()
                })
            }),
    {
        if self.keys.failure().is_some() {
            return ;
        }
        if !self.context.can_send_initial() {
            self.keys.fail(HandshakeError::SendWithoutRoom(Level::Initial));
            return ;
        }
        self.context.send_initial(transmission)
    }

    /// Whether there is room in the handshake packet space: the answer of
    /// the context under guard, and after a failure none.
    fn can_send_handshake(&self) -> (room: bool)
        ensures
            self.keys().failure is Some ==> !room,
            self.keys().failure is None ==> call_ensures(
                <C as Context<Crypto>>::can_send_handshake,
                (&self.inner(),),
                room,
            ),
    {
        self.keys.failure().is_none() && self.context.can_send_handshake()
    }

    /// Passes bytes on for the handshake packet space, as `send_initial`
    /// does for the initial one.
    fn send_handshake(&mut self, transmission: Bytes)
        ensures
            old(self).keys().failure is Some ==> *final(self) == *old(self),
            old(self).keys().failure is None ==> ({
                ||| ({
                    &&& call_ensures(
                        <C as Context<Crypto>>::can_send_handshake,
                        (&old(self).inner(),),
                        true,
                    )
                    &&& final(self).keys() == old(self).keys()
                    &&& exists|lent: &mut C|
                        mut_ref_current(lent) == old(self).inner() && mut_ref_future(lent)
                            == final(self).inner() && #[trigger] call_ensures(
                            <C as Context<Crypto>>::send_handshake,
                            (lent, transmission),
                            (),
                        )
                })
                ||| ({
                    &&& call_ensures(
                        <C as Context<Crypto>>::can_send_handshake,
                        (&old(self).inner(),),
                        false,
                    )
                    &&& final(self).keys() == old(self).keys().failed_with(
                        HandshakeError::SendWithoutRoom(Level::Handshake),
                    )
                    &&& final(self).inner() == old(self).inner()
                })
            }),
    {
        if self.keys.failure().is_some() {
            return ;
        }
        if !self.context.can_send_handshake() {
            self.keys.fail(HandshakeError::SendWithoutRoom(Level::Handshake));
            return ;
        }
        self.context.send_handshake(transmission)
    }

    /// Whether there is room in the application packet space: the answer
    /// of the context under guard, and after a failure none.
    fn can_send_application(&self) -> (room: bool)
        ensures
            self.keys().failure is Some ==> !room,
            self.keys().failure is None ==> call_ensures(
                <C as Context<Crypto>>::can_send_application,
                (&self.inner(),),
                room,
            ),
    {
        self.keys.failure().is_none() && self.context.can_send_application()
    }

    /// Passes bytes on for the application packet space, as `send_initial`
    /// does for the initial one.
    fn send_application(&mut self, transmission: Bytes)
        ensures
            old(self).keys().failure is Some ==> *final(self) == *old(self),
            old(self).keys().failure is None ==> ({
                ||| ({
                    &&& call_ensures(
                        <C as Context<Crypto>>::can_send_application,
                        (&old(self).inner(),),
                        true,
                    )
                    &&& final(self).keys() == old(self).keys()
                    &&& exists|lent: &mut C|
                        mut_ref_current(lent) == old(self).inner() && mut_ref_future(lent)
                            == final(self).inner() && #[trigger] call_ensures(
                            <C as Context<Crypto>>::send_application,
                            (lent, transmission),
                            (),
                        )
                })
                ||| ({
                    &&& call_ensures(
                        <C as Context<Crypto>>::can_send_application,
                        (&old(self).inner(),),
                        false,
                    )
                    &&& final(self).keys() == old(self).keys().failed_with(
                        HandshakeError::SendWithoutRoom(Level::OneRtt),
                    )
                    &&& final(self).inner() == old(self).inner()
                })
            }),
    {
        if self.keys.failure().is_some() {
            return ;
        }
        if !self.context.can_send_application() {
            self.keys.fail(HandshakeError::SendWithoutRoom(Level::OneRtt));
            return ;
        }
        self.context.send_application(transmission)
    }

    /// The waker of the context under guard. It is lent at all times: to
    /// wake a connection whose handshake has failed does no harm.
    fn waker(&self) -> (waker: &Waker)
        ensures
            call_ensures(<C as Context<Crypto>>::waker, (&self.inner(),), waker),
    {
        self.context.waker()
    }
}

/// What a `Handshake` has last reported of its session.
#[derive(Clone, Copy, Debug, PartialEq, Eq, Structural)]
pub enum Status {
    /// The handshake is under way.
    Driving,
    /// The handshake is done.
    Ready,
    /// The handshake has failed.
    Failed,
}

/// What is reported of a session that has itself reported `reported`,
/// given the key lifecycle: a recorded failure comes first, and a session
/// is ready only where the lifecycle is complete.
pub open spec fn settled(reported: Progress, keys: KeyState) -> Progress {
    match keys.failure {
        Some(error) => Progress::Failed(error),
        None => match reported {
            Progress::Pending => Progress::Pending,
            Progress::Failed(error) => Progress::Failed(error),
            Progress::Ready => if keys.complete {
                Progress::Ready
            } else {
                Progress::Failed(HandshakeError::Incomplete)
            },
        },
    }
}

/// Whether a report agrees with the key lifecycle: a session is ready only
/// where the lifecycle is complete and has not failed, it is pending only
/// where the lifecycle has not failed, and its failure is recorded.
pub open spec fn agrees(progress: Progress, keys: KeyState) -> bool {
    match progress {
        Progress::Ready => keys.complete && keys.failure is None,
        Progress::Pending => keys.failure is None,
        Progress::Failed(_) => keys.failure is Some,
    }
}

/// The status that goes with a report.
pub open spec fn status_of(progress: Progress) -> Status {
    match progress {
        Progress::Pending => Status::Driving,
        Progress::Ready => Status::Ready,
        Progress::Failed(_) => Status::Failed,
    }
}

/// Holds the report of a session against the key lifecycle.
pub fn settle(reported: Progress, keys: &KeyLifecycle) -> (progress: Progress)
    ensures
        progress == settled(reported, keys@),
{
    match keys.failure() {
        Some(error) => Progress::Failed(error),
        None => match reported {
            Progress::Pending => Progress::Pending,
            Progress::Failed(error) => Progress::Failed(error),
            Progress::Ready => if keys.is_complete() {
                Progress::Ready
            } else {
                Progress::Failed(HandshakeError::Incomplete)
            },
        },
    }
}

/// A session with the last report of its handshake. A handshake that is
/// ready stays ready, and one that has failed is not driven again.
pub struct Handshake<S> {
    session: S,
    status: Status,
}

impl<S: Session> Handshake<S> {
    /// The session.
    pub closed spec fn session(self) -> S {
        self.session
    }

    /// The last report.
    pub closed spec fn spec_status(&self) -> Status {
        self.status
    }

    /// The handshake of a new session.
    pub fn new(session: S) -> (handshake: Self)
        ensures
            handshake.session() == session,
            handshake.spec_status() == Status::Driving,
    {
        Handshake { session, status: Status::Driving }
    }

    /// The last report.
    #[verifier::when_used_as_spec(spec_status)]
    pub fn status(&self) -> (status: Status)
        ensures
            status == self.spec_status(),
    {
        self.status
    }

    /// Drives the session once, under `guard`, and reports where the
    /// handshake stands. A handshake under way is polled once, with the
    /// guard as its context; what it reports is held against the key
    /// lifecycle as `settled` says, and a failure is recorded in the guard.
    /// A handshake that is ready is left as it is: the session is not
    /// called. A handshake that has failed must not be driven.
    pub fn drive<C: Context<S>>(&mut self, guard: &mut Guard<C>) -> (progress: Progress)
        requires
            old(self).status() != Status::Failed,
        ensures
            old(self).status() == Status::Ready ==> progress == Progress::Ready && *final(self)
                == *old(self) && *final(guard) == *old(guard),
            final(self).status() == status_of(progress),
            old(self).status() == Status::Driving ==> agrees(progress, final(guard).keys()),
            old(self).status() == Status::Driving ==> exists|
                lent: &mut S,
                under: &mut Guard<C>,
                reported: Progress,
            |
                ({
                    &&& mut_ref_current(lent) == old(self).session()
                    &&& mut_ref_future(lent) == final(self).session()
                    &&& mut_ref_current(under) == *old(guard)
                    &&& #[trigger] call_ensures(
                        <S as Session>::poll::<Guard<C>>,
                        (lent, under),
                        reported,
                    )
                    &&& progress == settled(reported, mut_ref_future(under).keys())
                    &&& final(guard).inner() == mut_ref_future(under).inner()
                    &&& final(guard).keys() == (match progress {
                        Progress::Failed(error) => mut_ref_future(under).keys().failed_with(error),
                        _ => mut_ref_future(under).keys(),
                    })
                }),
    {
        if self.status == Status::Ready {
            return Progress::Ready;
        }
        let reported = self.session.poll(guard);
        let progress = settle(reported, guard.lifecycle());
        match progress {
            Progress::Pending => {},
            Progress::Ready => {
                self.status = Status::Ready;
            },
            Progress::Failed(error) => {
                guard.fail(error);
                self.status = Status::Failed;
            },
        }
        progress
    }
}

} // verus!
