use vstd::prelude::*;

use crate::message::DecodedMessage;

verus! {

/// Where a server instance stands in its life: `Created`, then `Running` once
/// its socket is bound, then `Stopped`. Its running flag is up until it is
/// stopped, and no instance leaves `Stopped`; a restart takes a new instance.
#[derive(PartialEq, Eq, Structural, Clone, Copy, Debug)]
pub enum ServerState {
    Created,
    Running,
    Stopped,
}

/// What the polling loop does next.
#[derive(PartialEq, Eq, Structural, Clone, Copy, Debug)]
pub enum PollStep {
    /// Try one non-blocking receive, then sleep one poll interval.
    Receive,
    /// Leave the loop: the instance was stopped.
    Exit,
}

/// The per-message callback of a server, called on the polling thread with
/// each message that decoded.
pub trait MessageHandler: Sized {
    /// `next` is a state that the handler may be in after it took `msg` in
    /// state `prev`.
    spec fn handles(prev: Self, msg: DecodedMessage, next: Self) -> bool;

    fn on_message(&mut self, msg: DecodedMessage)
        ensures
            Self::handles(*old(self), msg, *final(self)),
    ;
}

/// A request-reply server: the address it binds, the callback it dispatches
/// decoded messages to, and its running state.
pub struct ServerHandler<H: MessageHandler> {
    address_: String,
    handler_: H,
    state_: ServerState,
}

impl<H: MessageHandler> ServerHandler<H> {
    pub closed spec fn address_spec(&self) -> Seq<char> {
        self.address_@
    }

    pub closed spec fn handler_spec(&self) -> H {
        self.handler_
    }

    pub closed spec fn state(&self) -> ServerState {
        self.state_
    }

    /// The running flag is down: the instance was stopped.
    pub open spec fn is_closed_spec(&self) -> bool {
        self.state() == ServerState::Stopped
    }

    /// `next` is `prev` after it served one request that decoded to
    /// `decoded`: only an instance that was not stopped hands a decoded
    /// message to its callback, and then exactly once.
    pub open spec fn served_from(prev: Self, decoded: Option<DecodedMessage>, next: Self) -> bool {
        &&& next.state() == prev.state()
        &&& next.address_spec() == prev.address_spec()
        &&& if prev.state() != ServerState::Stopped && decoded is Some {
            H::handles(prev.handler_spec(), decoded->0, next.handler_spec())
        } else {
            next.handler_spec() == prev.handler_spec()
        }
    }

    /// A new instance at `address`, with its running flag up; nothing is
    /// bound until it runs.
    pub fn new(address: &str, handler: H) -> (s: Self)
        ensures
            s.address_spec() == address@,
            s.handler_spec() == handler,
            s.state() == ServerState::Created,
            !s.is_closed_spec(),
    {
        ServerHandler { address_: address.to_owned(), handler_: handler, state_: ServerState::Created }
    }

    /// Enters the running state at the start of `run`, once the socket is
    /// bound. Returns whether the instance is to be served; a stopped
    /// instance stays stopped.
    pub fn run(&mut self) -> (serving: bool)
        ensures
            serving == (old(self).state() != ServerState::Stopped),
            final(self).state() == (if serving {
                ServerState::Running
            } else {
                ServerState::Stopped
            }),
            final(self).address_spec() == old(self).address_spec(),
            final(self).handler_spec() == old(self).handler_spec(),
    {
        if self.state_ == ServerState::Stopped {
            false
        } else {
            self.state_ = ServerState::Running;
            true
        }
    }

    /// The check made at the top of each poll iteration.
    pub fn poll(&self) -> (step: PollStep)
        ensures
            step == (if self.is_closed_spec() {
                PollStep::Exit
            } else {
                PollStep::Receive
            }),
    {
        if self.state_ != ServerState::Stopped {
            PollStep::Receive
        } else {
            PollStep::Exit
        }
    }

    /// Handles one received request. `decoded` is what the codec made of
    /// `request`, `None` where it could not decode it. A running instance
    /// hands a decoded message to its callback once; the reply is always the
    /// request itself, so that every request is answered. A stopped instance
    /// still answers but dispatches nothing.
    pub fn serve(&mut self, request: Vec<u8>, decoded: Option<DecodedMessage>) -> (reply: Vec<u8>)
        ensures
            reply@ == request@,
            Self::served_from(*old(self), decoded, *final(self)),
    {
        if self.state_ != ServerState::Stopped {
            if let Some(msg) = decoded {
                self.handler_.on_message(msg);
            }
        }
        request
    }

    /// Stops the instance; the polling loop leaves at its next check. Calling
    /// it again changes nothing.
    pub fn close(&mut self)
        ensures
            final(self).state() == ServerState::Stopped,
            final(self).address_spec() == old(self).address_spec(),
            final(self).handler_spec() == old(self).handler_spec(),
    {
        self.state_ = ServerState::Stopped;
    }

    /// Whether the instance was stopped.
    pub fn is_closed(&self) -> (closed: bool)
        ensures
            closed == self.is_closed_spec(),
    {
        self.state_ == ServerState::Stopped
    }

    pub fn set_handler(&mut self, handler: H)
        ensures
            final(self).handler_spec() == handler,
            final(self).address_spec() == old(self).address_spec(),
            final(self).state() == old(self).state(),
    {
        self.handler_ = handler;
    }

    pub fn address(&self) -> (a: &str)
        ensures
            a@ == self.address_spec(),
    {
        self.address_.as_str()
    }

    pub fn set_address(&mut self, address: &str)
        ensures
            final(self).address_spec() == address@,
            final(self).handler_spec() == old(self).handler_spec(),
            final(self).state() == old(self).state(),
    {
        self.address_ = address.to_owned();
    }

    pub fn handler(&self) -> (h: &H)
        ensures
            *h == self.handler_spec(),
    {
        &self.handler_
    }

    pub fn handler_mut(&mut self) -> (h: &mut H)
        ensures
            *h == old(self).handler_spec(),
            final(self).handler_spec() == *final(h),
            final(self).address_spec() == old(self).address_spec(),
            final(self).state() == old(self).state(),
    {
        &mut self.handler_
    }

    /// Gives back the callback of a retired instance.
    pub fn into_handler(self) -> (h: H)
        ensures
            h == self.handler_spec(),
    {
        self.handler_
    }
}

/// Once an instance is closed its callback runs no more: whatever requests
/// it still serves, one after another, leave the callback as it was and the
/// instance stopped.
pub proof fn lemma_no_dispatch_after_close<H: MessageHandler>(
    states: Seq<ServerHandler<H>>,
    decoded: Seq<Option<DecodedMessage>>,
)
    requires
        states.len() == decoded.len() + 1,
        states[0].state() == ServerState::Stopped,
        forall|i: int|
            0 <= i < decoded.len() ==> #[trigger] ServerHandler::<H>::served_from(
                states[i],
                decoded[i],
                states[i + 1],
            ),
    ensures
        forall|i: int|
            0 <= i < states.len() ==> (#[trigger] states[i]).handler_spec()
                == states[0].handler_spec() && states[i].state() == ServerState::Stopped,
{
    assert forall|i: int| 0 <= i < states.len() implies (#[trigger] states[i]).handler_spec()
        == states[0].handler_spec() && states[i].state() == ServerState::Stopped by {
        lemma_stopped_prefix(states, decoded, i);
    }
}

proof fn lemma_stopped_prefix<H: MessageHandler>(
    states: Seq<ServerHandler<H>>,
    decoded: Seq<Option<DecodedMessage>>,
    i: int,
)
    requires
        states.len() == decoded.len() + 1,
        states[0].state() == ServerState::Stopped,
        forall|k: int|
            0 <= k < decoded.len() ==> #[trigger] ServerHandler::<H>::served_from(
                states[k],
                decoded[k],
                states[k + 1],
            ),
        0 <= i < states.len(),
    ensures
        states[i].handler_spec() == states[0].handler_spec(),
        states[i].state() == ServerState::Stopped,
    decreases i,
{
    if i > 0 {
        let k = i - 1;
        lemma_stopped_prefix(states, decoded, k);
        assert(ServerHandler::<H>::served_from(states[k], decoded[k], states[k + 1]));
    }
}

/// The messages among the codec's results, in order: those that decoded.
pub open spec fn decoded_messages(results: Seq<Option<DecodedMessage>>) -> Seq<DecodedMessage>
    decreases results.len(),
{
    if results.len() == 0 {
        Seq::empty()
    } else {
        let front = decoded_messages(results.drop_last());
        match results.last() {
            Some(m) => front.push(m),
            None => front,
        }
    }
}

/// `hs` are the states that a handler passes through when it takes `msgs`
/// one after another, in that order.
pub open spec fn handles_in_order<H: MessageHandler>(hs: Seq<H>, msgs: Seq<DecodedMessage>) -> bool {
    &&& hs.len() == msgs.len() + 1
    &&& forall|j: int| 0 <= j < msgs.len() ==> #[trigger] H::handles(hs[j], msgs[j], hs[j + 1])
}

/// The handler states of a run of served requests, one for the start and one
/// after each message that decoded.
pub open spec fn handler_trace<H: MessageHandler>(
    states: Seq<ServerHandler<H>>,
    results: Seq<Option<DecodedMessage>>,
) -> Seq<H>
    decreases results.len(),
{
    if results.len() == 0 || states.len() != results.len() + 1 {
        seq![states[0].handler_spec()]
    } else {
        let n = results.len() - 1;
        let front = handler_trace(states.take(n + 1), results.take(n));
        if results[n] is Some {
            front.push(states[n + 1].handler_spec())
        } else {
            front
        }
    }
}

/// A server that is not stopped hands its callback the messages that decoded,
/// in the order their requests came, once each and nothing else: the
/// callback goes from its first state to its last through exactly those
/// messages, in that order.
pub proof fn lemma_handler_gets_receipt_order<H: MessageHandler>(
    states: Seq<ServerHandler<H>>,
    results: Seq<Option<DecodedMessage>>,
)
    requires
        states.len() == results.len() + 1,
        states[0].state() != ServerState::Stopped,
        forall|i: int|
            0 <= i < results.len() ==> #[trigger] ServerHandler::<H>::served_from(
                states[i],
                results[i],
                states[i + 1],
            ),
    ensures
        exists|hs: Seq<H>|
            handles_in_order(hs, decoded_messages(results)) && hs[0] == states[0].handler_spec()
                && hs.last() == states.last().handler_spec(),
{
    lemma_trace(states, results);
    let hs = handler_trace(states, results);
    assert(handles_in_order(hs, decoded_messages(results)) && hs[0] == states[0].handler_spec()
        && hs.last() == states.last().handler_spec());
}

proof fn lemma_trace<H: MessageHandler>(
    states: Seq<ServerHandler<H>>,
    results: Seq<Option<DecodedMessage>>,
)
    requires
        states.len() == results.len() + 1,
        states[0].state() != ServerState::Stopped,
        forall|i: int|
            0 <= i < results.len() ==> #[trigger] ServerHandler::<H>::served_from(
                states[i],
                results[i],
                states[i + 1],
            ),
    ensures
        handles_in_order(handler_trace(states, results), decoded_messages(results)),
        handler_trace(states, results)[0] == states[0].handler_spec(),
        handler_trace(states, results).last() == states.last().handler_spec(),
        states.last().state() == states[0].state(),
    decreases results.len(),
{
    if results.len() > 0 {
        let n = results.len() - 1;
        let front = states.take(n + 1);
        let sub = results.take(n);
        assert(results.drop_last() =~= sub);
        assert forall|i: int| 0 <= i < sub.len() implies #[trigger] ServerHandler::<H>::served_from(
            front[i],
            sub[i],
            front[i + 1],
        ) by {
            assert(ServerHandler::<H>::served_from(states[i], results[i], states[i + 1]));
        }
        lemma_trace(front, sub);
        assert(ServerHandler::<H>::served_from(states[n], results[n], states[n + 1]));
        let t = handler_trace(front, sub);
        let msgs = decoded_messages(sub);
        match results[n] {
            Some(m) => {
                let t2 = t.push(states[n + 1].handler_spec());
                let msgs2 = msgs.push(m);
                assert(handler_trace(states, results) == t2);
                assert(decoded_messages(results) == msgs2);
                assert forall|j: int| 0 <= j < msgs2.len() implies #[trigger] H::handles(
                    t2[j],
                    msgs2[j],
                    t2[j + 1],
                ) by {
                    if j < msgs.len() {
                        assert(H::handles(t[j], msgs[j], t[j + 1]));
                    }
                }
            },
            None => {
                assert(handler_trace(states, results) == t);
                assert(decoded_messages(results) == msgs);
            },
        }
    }
}

} // verus!
