//! The lifecycle of a connection's keys. Keys are installed once per
//! level and in order: the initial keys first, the handshake keys after
//! them, the zero-rtt and one-rtt keys after the handshake keys, and
//! completion after the one-rtt keys. A step out of order is recorded as a
//! failure and never passed over.

use crate::error::{HandshakeError, Level};
use vstd::prelude::*;

verus! {

/// A step of the key lifecycle.
#[derive(Clone, Copy, Debug, PartialEq, Eq, Structural)]
pub enum KeyEvent {
    /// Keys of a level are offered for installation.
    Install(Level),
    /// The handshake is reported complete: both Finished messages are
    /// verified.
    Complete,
}

/// The state of the key lifecycle: which levels have their keys, whether
/// the handshake is complete, and the failure, if there was one.
pub struct KeyState {
    pub initial: bool,
    pub handshake: bool,
    pub zero_rtt: bool,
    pub one_rtt: bool,
    pub complete: bool,
    pub failure: Option<HandshakeError>,
}

impl KeyState {
    /// The state of a new connection: no keys.
    pub open spec fn fresh() -> KeyState {
        KeyState {
            initial: false,
            handshake: false,
            zero_rtt: false,
            one_rtt: false,
            complete: false,
            failure: None,
        }
    }

    /// Whether the keys of `level` are installed.
    pub open spec fn has(self, level: Level) -> bool {
        match level {
            Level::Initial => self.initial,
            Level::Handshake => self.handshake,
            Level::ZeroRtt => self.zero_rtt,
            Level::OneRtt => self.one_rtt,
        }
    }

    /// No level has keys without the level that it follows, and the
    /// handshake is not complete without the one-rtt keys.
    pub open spec fn ordered(self) -> bool {
        &&& self.handshake ==> self.initial
        &&& self.zero_rtt ==> self.handshake
        &&& self.one_rtt ==> self.handshake
        &&& self.complete ==> self.one_rtt
    }

    /// The state with the keys of `level` installed.
    pub open spec fn with(self, level: Level) -> KeyState {
        match level {
            Level::Initial => KeyState { initial: true, ..self },
            Level::Handshake => KeyState { handshake: true, ..self },
            Level::ZeroRtt => KeyState { zero_rtt: true, ..self },
            Level::OneRtt => KeyState { one_rtt: true, ..self },
        }
    }

    /// The state after the failure `error`: the first failure stays.
    pub open spec fn failed_with(self, error: HandshakeError) -> KeyState {
        if self.failure is Some {
            self
        } else {
            KeyState { failure: Some(error), ..self }
        }
    }

    /// Why `event` must be refused in this state, or `None` where it is in
    /// order.
    pub open spec fn refusal(self, event: KeyEvent) -> Option<HandshakeError> {
        if self.failure is Some {
            Some(HandshakeError::AfterFailure)
        } else {
            match event {
                KeyEvent::Install(level) => {
                    if self.has(level) {
                        Some(HandshakeError::KeysRepeated(level))
                    } else if self.complete || (level != Level::Initial && !self.has(
                        preceding(level),
                    )) {
                        Some(HandshakeError::KeysOutOfOrder(level))
                    } else {
                        None
                    }
                },
                KeyEvent::Complete => {
                    if self.complete {
                        Some(HandshakeError::CompletionRepeated)
                    } else if !self.one_rtt {
                        Some(HandshakeError::CompletionOutOfOrder)
                    } else {
                        None
                    }
                },
            }
        }
    }

    /// The state after `event`: the event takes effect where it is in
    /// order, and is recorded as the failure where it is not.
    pub open spec fn after(self, event: KeyEvent) -> KeyState {
        match self.refusal(event) {
            Some(error) => self.failed_with(error),
            None => match event {
                KeyEvent::Install(level) => self.with(level),
                KeyEvent::Complete => KeyState { complete: true, ..self },
            },
        }
    }
}

/// The level whose keys must be installed before those of `level`: the
/// initial keys before the handshake keys, the handshake keys before the
/// zero-rtt and the one-rtt keys.
pub open spec fn preceding(level: Level) -> Level {
    match level {
        Level::Initial => Level::Initial,
        Level::Handshake => Level::Initial,
        Level::ZeroRtt => Level::Handshake,
        Level::OneRtt => Level::Handshake,
    }
}

/// The lifecycle keeps its order, whatever is asked of it: after any event
/// no level has keys without the level that it follows.
pub proof fn lemma_order_is_kept(state: KeyState, event: KeyEvent)
    requires
        state.ordered(),
    ensures
        state.after(event).ordered(),
{
}

/// Keys are installed at most once, and nothing is taken back: an event
/// changes the keys of no level but its own, sets them only where they
/// were not set, and leaves a failure in place.
pub proof fn lemma_write_once(state: KeyState, event: KeyEvent, level: Level)
    ensures
        state.has(level) ==> state.after(event).has(level),
        state.complete ==> state.after(event).complete,
        state.failure is Some ==> state.after(event) == state,
        state.after(event).has(level) && !state.has(level) ==> event == KeyEvent::Install(level)
            && state.refusal(event) is None,
        state.has(level) && event == KeyEvent::Install(level) ==> state.after(event).failure
            is Some,
{
}

/// One-rtt keys, and zero-rtt keys, are refused where the handshake keys
/// are not installed, as on a new connection: the lifecycle fails, and the
/// keys are not installed.
pub proof fn lemma_keys_need_handshake_keys(state: KeyState, level: Level)
    requires
        !state.handshake,
        level == Level::OneRtt || level == Level::ZeroRtt,
        state.ordered(),
    ensures
        state.refusal(KeyEvent::Install(level)) is Some,
        state.after(KeyEvent::Install(level)).failure is Some,
        !state.after(KeyEvent::Install(level)).has(level),
        KeyState::fresh().refusal(KeyEvent::Install(Level::OneRtt)) == Some(
            HandshakeError::KeysOutOfOrder(Level::OneRtt),
        ),
{
}

/// The key lifecycle of one connection.
#[derive(Debug)]
pub struct KeyLifecycle {
    initial: bool,
    handshake: bool,
    zero_rtt: bool,
    one_rtt: bool,
    complete: bool,
    failure: Option<HandshakeError>,
}

impl View for KeyLifecycle {
    type V = KeyState;

    closed spec fn view(&self) -> KeyState {
        KeyState {
            initial: self.initial,
            handshake: self.handshake,
            zero_rtt: self.zero_rtt,
            one_rtt: self.one_rtt,
            complete: self.complete,
            failure: self.failure,
        }
    }
}

impl KeyLifecycle {
    #[verifier::type_invariant]
    spec fn in_order(self) -> bool {
        self@.ordered()
    }

    /// The lifecycle of a new connection: no keys are installed.
    pub fn new() -> (keys: Self)
        ensures
            keys@ == KeyState::fresh(),
    {
        KeyLifecycle {
            initial: false,
            handshake: false,
            zero_rtt: false,
            one_rtt: false,
            complete: false,
            failure: None,
        }
    }

    /// Whether the keys of `level` are installed.
    pub fn has(&self, level: Level) -> (installed: bool)
        ensures
            installed == self@.has(level),
            self@.ordered(),
    {
        proof {
            use_type_invariant(self);
        }
        match level {
            Level::Initial => self.initial,
            Level::Handshake => self.handshake,
            Level::ZeroRtt => self.zero_rtt,
            Level::OneRtt => self.one_rtt,
        }
    }

    /// Whether the handshake is complete.
    pub fn is_complete(&self) -> (complete: bool)
        ensures
            complete == self@.complete,
    {
        self.complete
    }

    /// The failure, if the lifecycle has failed.
    pub fn failure(&self) -> (failure: Option<HandshakeError>)
        ensures
            failure == self@.failure,
    {
        self.failure
    }

    /// Records a failure that came from outside the lifecycle. The first
    /// failure stays.
    pub fn fail(&mut self, error: HandshakeError)
        ensures
            final(self)@ == old(self)@.failed_with(error),
    {
        proof {
            use_type_invariant(&*self);
        }
        if self.failure.is_none() {
            self.failure = Some(error);
        }
    }

    /// Takes one step: `event` takes effect where it is in order, and is
    /// refused, and recorded as the failure, where it is not.
    pub fn apply(&mut self, event: KeyEvent) -> (taken: Result<(), HandshakeError>)
        ensures
            final(self)@ == old(self)@.after(event),
            taken == match old(self)@.refusal(event) {
                Some(error) => Err::<(), HandshakeError>(error),
                None => Ok::<(), HandshakeError>(()),
            },
    {
        proof {
            use_type_invariant(&*self);
        }
        if self.failure.is_some() {
            return Err(HandshakeError::AfterFailure);
        }
        match event {
            KeyEvent::Install(level) => {
                if self.has(level) {
                    self.failure = Some(HandshakeError::KeysRepeated(level));
                    return Err(HandshakeError::KeysRepeated(level));
                }
                let in_order = !self.complete && match level {
                    Level::Initial => true,
                    Level::Handshake => self.initial,
                    Level::ZeroRtt => self.handshake,
                    Level::OneRtt => self.handshake,
                };
                if !in_order {
                    self.failure = Some(HandshakeError::KeysOutOfOrder(level));
                    return Err(HandshakeError::KeysOutOfOrder(level));
                }
                match level {
                    Level::Initial => { self.initial = true; },
                    Level::Handshake => { self.handshake = true; },
                    Level::ZeroRtt => { self.zero_rtt = true; },
                    Level::OneRtt => { self.one_rtt = true; },
                }
                Ok(())
            },
            KeyEvent::Complete => {
                if self.complete {
                    self.failure = Some(HandshakeError::CompletionRepeated);
                    return Err(HandshakeError::CompletionRepeated);
                }
                if !self.one_rtt {
                    self.failure = Some(HandshakeError::CompletionOutOfOrder);
                    return Err(HandshakeError::CompletionOutOfOrder);
                }
                self.complete = true;
                Ok(())
            },
        }
    }

    /// Offers the keys of `level` for installation.
    pub fn install(&mut self, level: Level) -> (taken: Result<(), HandshakeError>)
        ensures
            final(self)@ == old(self)@.after(KeyEvent::Install(level)),
            taken == match old(self)@.refusal(KeyEvent::Install(level)) {
                Some(error) => Err::<(), HandshakeError>(error),
                None => Ok::<(), HandshakeError>(()),
            },
    {
        self.apply(KeyEvent::Install(level))
    }

    /// Reports the handshake complete.
    pub fn complete(&mut self) -> (taken: Result<(), HandshakeError>)
        ensures
            final(self)@ == old(self)@.after(KeyEvent::Complete),
            taken == match old(self)@.refusal(KeyEvent::Complete) {
                Some(error) => Err::<(), HandshakeError>(error),
                None => Ok::<(), HandshakeError>(()),
            },
    {
        self.apply(KeyEvent::Complete)
    }
}

} // verus!
