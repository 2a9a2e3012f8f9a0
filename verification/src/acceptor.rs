//! The accept loop's decisions.
//!
//! The acceptor waits for connections and starts one task for each. It never
//! learns how a task fares: a task reports its own failure and ends, and
//! nothing of that reaches the acceptor. Only a failed accept stops it, and
//! with it the server; it is not retried.

use vstd::prelude::*;

verus! {

/// What the accept loop does after an attempt to accept.
#[derive(Clone, Copy, Debug, PartialEq, Eq, Structural)]
pub enum Directive {
    /// Start a task for the new connection, then accept again.
    Spawn,
    /// Stop serving; the accept failure ends the server.
    Stop,
}

/// The acceptor as a mathematical value.
pub struct AcceptorState {
    /// The server still accepts connections.
    pub listening: bool,
}

impl AcceptorState {
    /// An acceptor that has just started.
    pub open spec fn initial() -> AcceptorState {
        AcceptorState { listening: true }
    }

    /// The answer to an attempt to accept, `connected` telling whether it
    /// produced a connection.
    pub open spec fn directive(self, connected: bool) -> Directive {
        if self.listening && connected {
            Directive::Spawn
        } else {
            Directive::Stop
        }
    }

    /// The acceptor after an attempt to accept.
    pub open spec fn after_accept(self, connected: bool) -> AcceptorState {
        AcceptorState { listening: self.listening && connected }
    }

    /// The acceptor after the attempts `attempts`, in order.
    pub open spec fn after_accepts(self, attempts: Seq<bool>) -> AcceptorState
        decreases attempts.len(),
    {
        if attempts.len() == 0 {
            self
        } else {
            self.after_accepts(attempts.drop_last()).after_accept(attempts.last())
        }
    }
}

/// The state of the accept loop.
pub struct Acceptor {
    listening: bool,
}

impl Acceptor {
    /// The acceptor as a mathematical value.
    pub closed spec fn view(&self) -> AcceptorState {
        AcceptorState { listening: self.listening }
    }

    /// An acceptor for a socket that is bound and listening.
    pub fn new() -> (acceptor: Acceptor)
        ensures
            acceptor@ == AcceptorState::initial(),
    {
        Acceptor { listening: true }
    }

    /// Whether the server still accepts connections.
    pub fn is_listening(&self) -> (listening: bool)
        ensures
            listening == self@.listening,
    {
        self.listening
    }

    /// Takes in the result of one attempt to accept and says what to do.
    pub fn on_accept(&mut self, connected: bool) -> (directive: Directive)
        ensures
            directive == old(self)@.directive(connected),
            final(self)@ == old(self)@.after_accept(connected),
    {
        if self.listening && connected {
            Directive::Spawn
        } else {
            self.listening = false;
            Directive::Stop
        }
    }
}

/// The acceptor goes on for as long as every accept succeeds, however many
/// connections that makes: it listens exactly if no attempt so far failed.
pub proof fn lemma_listens_until_accept_fails(attempts: Seq<bool>)
    ensures
        AcceptorState::initial().after_accepts(attempts).listening == (forall|k: int|
            0 <= k < attempts.len() ==> attempts[k]),
    decreases attempts.len(),
{
    if attempts.len() > 0 {
        let earlier = attempts.drop_last();
        lemma_listens_until_accept_fails(earlier);
        if forall|k: int| 0 <= k < attempts.len() ==> attempts[k] {
            assert forall|k: int| 0 <= k < earlier.len() implies earlier[k] by {
                assert(earlier[k] == attempts[k]);
            }
        } else if attempts.last() {
            let k = choose|k: int| 0 <= k < attempts.len() && !attempts[k];
            assert(!earlier[k]);
        }
    }
}

/// A stopped acceptor stays stopped.
pub proof fn lemma_stopped_stays_stopped(state: AcceptorState, connected: bool)
    requires
        !state.listening,
    ensures
        state.directive(connected) == Directive::Stop,
        !state.after_accept(connected).listening,
{
}

} // verus!
