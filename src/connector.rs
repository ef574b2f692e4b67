use vstd::prelude::*;
use crate::protocol::{
    Reply, classify_reply, connect_signal, connect_token, is_connect_signal,
    register_prefix, register_token, reply_of, request_prefix, request_token,
};

verus! {

/// What a connector loop's runner reports after performing an action.
pub enum Event {
    /// A local client connection was accepted.
    ClientAccepted,
    /// The connection to the relay is established.
    RelayConnected,
    /// The connection to the local target is established.
    TargetConnected,
    /// One control token arrived; empty when the connection closed instead.
    Received(Vec<u8>),
    /// The spliced session is over.
    Ended,
    /// An operation failed.
    Failed,
}

/// What a connector loop asks its runner to do next.
pub enum Action {
    /// Drop any connection held for the last client and accept the next one
    /// on the local listener.
    Accept,
    /// Drop any connection held and dial the relay.
    DialRelay,
    /// Dial the local target.
    DialTarget,
    /// Send this control token to the relay, then wait for one in return.
    SendAndAwait(Vec<u8>),
    /// Send this control token to the relay, then splice the local client
    /// with the relay connection.
    SendAndSplice(Vec<u8>),
    /// Splice the relay connection with the local target.
    Splice,
}

#[derive(PartialEq, Eq, Structural, Clone, Copy, Debug)]
pub enum ProviderPhase {
    /// Dialing the relay.
    Connecting,
    /// Registered, waiting for the signal that a user is connected.
    Registered,
    /// Dialing the local target.
    Dialing,
    /// Relaying between the relay connection and the target.
    Relaying,
}

/// The provider side: keeps a service registered at the relay and, each time
/// a user's `CONNECT` arrives through it, dials the local target and splices.
pub struct Provider {
    pub service: Vec<u8>,
    pub phase: ProviderPhase,
}

/// The provider's next phase and action for `event` in `phase`.
pub open spec fn provider_step(service: Seq<u8>, phase: ProviderPhase, event: Event, next:
    ProviderPhase, action: Action) -> bool {
    match (phase, event) {
        (ProviderPhase::Connecting, Event::RelayConnected) => next == ProviderPhase::Registered
            && (action matches Action::SendAndAwait(t) && t@ == register_prefix() + service),
        (ProviderPhase::Registered, Event::Received(t)) => if t@ == connect_token() {
            next == ProviderPhase::Dialing && action is DialTarget
        } else {
            next == ProviderPhase::Connecting && action is DialRelay
        },
        (ProviderPhase::Dialing, Event::TargetConnected) => next == ProviderPhase::Relaying
            && action is Splice,
        _ => next == ProviderPhase::Connecting && action is DialRelay,
    }
}

impl Provider {
    /// A provider of `service`, about to dial the relay.
    pub fn new(service: Vec<u8>) -> (r: Self)
        ensures
            r.service@ == service@,
            r.phase == ProviderPhase::Connecting,
    {
        Provider { service, phase: ProviderPhase::Connecting }
    }

    /// The first action of the loop.
    pub fn start(&self) -> (r: Action)
        ensures
            r is DialRelay,
    {
        Action::DialRelay
    }

    /// Takes the outcome of the last action and decides the next one.
    pub fn step(&mut self, event: Event) -> (r: Action)
        ensures
            final(self).service@ == old(self).service@,
            provider_step(old(self).service@, old(self).phase, event, final(self).phase, r),
    {
        match (self.phase, event) {
            (ProviderPhase::Connecting, Event::RelayConnected) => {
                self.phase = ProviderPhase::Registered;
                Action::SendAndAwait(register_token(self.service.as_slice()))
            },
            (ProviderPhase::Registered, Event::Received(t)) => {
                if is_connect_signal(t.as_slice()) {
                    self.phase = ProviderPhase::Dialing;
                    Action::DialTarget
                } else {
                    self.phase = ProviderPhase::Connecting;
                    Action::DialRelay
                }
            },
            (ProviderPhase::Dialing, Event::TargetConnected) => {
                self.phase = ProviderPhase::Relaying;
                Action::Splice
            },
            _ => {
                self.phase = ProviderPhase::Connecting;
                Action::DialRelay
            },
        }
    }
}

#[derive(PartialEq, Eq, Structural, Clone, Copy, Debug)]
pub enum UserPhase {
    /// Waiting for a local client.
    Listening,
    /// Dialing the relay for the client.
    Dialing,
    /// Request sent, waiting for the relay's answer.
    Requesting,
    /// Relaying between the client and the relay connection.
    Relaying,
}

/// The user side: for each local client, asks the relay for the service and,
/// once it is granted, signals the provider with `CONNECT` and splices.
pub struct User {
    pub service: Vec<u8>,
    pub phase: UserPhase,
}

/// The user's next phase and action for `event` in `phase`.
pub open spec fn user_step(service: Seq<u8>, phase: UserPhase, event: Event, next: UserPhase,
    action: Action) -> bool {
    match (phase, event) {
        (UserPhase::Listening, Event::ClientAccepted) => next == UserPhase::Dialing
            && action is DialRelay,
        (UserPhase::Dialing, Event::RelayConnected) => next == UserPhase::Requesting
            && (action matches Action::SendAndAwait(t) && t@ == request_prefix() + service),
        (UserPhase::Requesting, Event::Received(t)) => if reply_of(t@) == Reply::Accepted {
            next == UserPhase::Relaying && (action matches Action::SendAndSplice(s) && s@
                == connect_token())
        } else {
            next == UserPhase::Listening && action is Accept
        },
        _ => next == UserPhase::Listening && action is Accept,
    }
}

impl User {
    /// A user of `service`, about to wait for its first local client.
    pub fn new(service: Vec<u8>) -> (r: Self)
        ensures
            r.service@ == service@,
            r.phase == UserPhase::Listening,
    {
        User { service, phase: UserPhase::Listening }
    }

    /// The first action of the loop.
    pub fn start(&self) -> (r: Action)
        ensures
            r is Accept,
    {
        Action::Accept
    }

    /// Takes the outcome of the last action and decides the next one.
    pub fn step(&mut self, event: Event) -> (r: Action)
        ensures
            final(self).service@ == old(self).service@,
            user_step(old(self).service@, old(self).phase, event, final(self).phase, r),
    {
        match (self.phase, event) {
            (UserPhase::Listening, Event::ClientAccepted) => {
                self.phase = UserPhase::Dialing;
                Action::DialRelay
            },
            (UserPhase::Dialing, Event::RelayConnected) => {
                self.phase = UserPhase::Requesting;
                Action::SendAndAwait(request_token(self.service.as_slice()))
            },
            (UserPhase::Requesting, Event::Received(t)) => {
                match classify_reply(t.as_slice()) {
                    Reply::Accepted => {
                        self.phase = UserPhase::Relaying;
                        Action::SendAndSplice(connect_signal())
                    },
                    _ => {
                        self.phase = UserPhase::Listening;
                        Action::Accept
                    },
                }
            },
            _ => {
                self.phase = UserPhase::Listening;
                Action::Accept
            },
        }
    }
}

} // verus!
