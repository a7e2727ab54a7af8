use vstd::prelude::*;

use crate::message::DecodedMessage;
use crate::server::{decoded_messages, MessageHandler, ServerHandler, ServerState};

verus! {

/// What a message leaves in the log: its JSON form, or nothing where it has
/// none.
pub open spec fn logged_of(m: DecodedMessage) -> Seq<String> {
    match m.json {
        Some(j) => seq![j],
        None => Seq::empty(),
    }
}

/// What a sequence of messages, taken in order, leaves in the log.
pub open spec fn rendered(msgs: Seq<DecodedMessage>) -> Seq<String>
    decreases msgs.len(),
{
    if msgs.len() == 0 {
        Seq::empty()
    } else {
        rendered(msgs.drop_last()) + logged_of(msgs.last())
    }
}

/// The callback that the server runs on each decoded message: it appends the
/// message's JSON form to the message log and queues the same string for the
/// event forwarder. Forwarding is best effort; the log keeps every entry.
pub struct DispatchBridge {
    log: Vec<String>,
    outbox: Vec<String>,
}

impl DispatchBridge {
    /// The message log, in order of receipt.
    pub closed spec fn log_spec(&self) -> Seq<String> {
        self.log@
    }

    /// The strings waiting for the event forwarder, oldest first.
    pub closed spec fn outbox_spec(&self) -> Seq<String> {
        self.outbox@
    }

    pub fn new() -> (b: DispatchBridge)
        ensures
            b.log_spec() == Seq::<String>::empty(),
            b.outbox_spec() == Seq::<String>::empty(),
    {
        DispatchBridge { log: Vec::new(), outbox: Vec::new() }
    }

    /// The message log, in order of receipt.
    pub fn received(&self) -> (r: &Vec<String>)
        ensures
            r@ == self.log_spec(),
    {
        &self.log
    }

    /// Hands the queued strings to the forwarder, oldest first, and empties
    /// the queue. The log is not touched.
    pub fn take_forwards(&mut self) -> (r: Vec<String>)
        ensures
            r@ == old(self).outbox_spec(),
            final(self).outbox_spec() == Seq::<String>::empty(),
            final(self).log_spec() == old(self).log_spec(),
    {
        let mut taken: Vec<String> = Vec::new();
        std::mem::swap(&mut taken, &mut self.outbox);
        taken
    }
}

impl MessageHandler for DispatchBridge {
    open spec fn handles(prev: DispatchBridge, msg: DecodedMessage, next: DispatchBridge) -> bool {
        &&& next.log_spec() == prev.log_spec() + logged_of(msg)
        &&& next.outbox_spec() == prev.outbox_spec() + logged_of(msg)
    }

    fn on_message(&mut self, msg: DecodedMessage) {
        if let Some(json) = msg.to_json_string() {
            self.log.push(json.clone());
            self.outbox.push(json);
        }
        assert(self.log@ =~= old(self).log@ + logged_of(msg));
        assert(self.outbox@ =~= old(self).outbox@ + logged_of(msg));
    }
}

/// The log follows the order of receipt: feeding a bridge the messages
/// `msgs` one after another appends their JSON forms, in that order, to what
/// the log held, and skips the messages that have none.
pub proof fn lemma_log_in_receipt_order(states: Seq<DispatchBridge>, msgs: Seq<DecodedMessage>)
    requires
        states.len() == msgs.len() + 1,
        forall|i: int|
            0 <= i < msgs.len() ==> #[trigger] DispatchBridge::handles(
                states[i],
                msgs[i],
                states[i + 1],
            ),
    ensures
        states.last().log_spec() == states[0].log_spec() + rendered(msgs),
    decreases msgs.len(),
{
    if msgs.len() == 0 {
        assert(states[0].log_spec() + rendered(msgs) =~= states[0].log_spec());
    } else {
        let n = msgs.len() - 1;
        let front = states.take(n + 1);
        let sub = msgs.take(n);
        assert(msgs.drop_last() =~= sub);
        assert forall|i: int| 0 <= i < sub.len() implies #[trigger] DispatchBridge::handles(
            front[i],
            sub[i],
            front[i + 1],
        ) by {
            assert(DispatchBridge::handles(states[i], msgs[i], states[i + 1]));
        }
        lemma_log_in_receipt_order(front, sub);
        assert(DispatchBridge::handles(states[n], msgs[n], states[n + 1]));
        assert(states[0].log_spec() + rendered(msgs) =~= (states[0].log_spec() + rendered(sub))
            + logged_of(msgs[n]));
    }
}

/// A server that is not stopped logs in order of receipt: serving requests
/// one after another, whose decoded forms are `results`, appends to its log
/// the JSON forms of the messages that decoded, in the order they came, once
/// each, and skips those that did not decode or render.
pub proof fn lemma_server_logs_in_receipt_order(
    states: Seq<ServerHandler<DispatchBridge>>,
    results: Seq<Option<DecodedMessage>>,
)
    requires
        states.len() == results.len() + 1,
        states[0].state() != ServerState::Stopped,
        forall|i: int|
            0 <= i < results.len() ==> #[trigger] ServerHandler::<DispatchBridge>::served_from(
                states[i],
                results[i],
                states[i + 1],
            ),
    ensures
        states.last().handler_spec().log_spec() == states[0].handler_spec().log_spec() + rendered(
            decoded_messages(results),
        ),
        states.last().state() == states[0].state(),
    decreases results.len(),
{
    if results.len() == 0 {
        assert(states[0].handler_spec().log_spec() + rendered(decoded_messages(results))
            =~= states[0].handler_spec().log_spec());
    } else {
        let n = results.len() - 1;
        let front = states.take(n + 1);
        let sub = results.take(n);
        assert(results.drop_last() =~= sub);
        assert forall|i: int| 0 <= i < sub.len() implies #[trigger] ServerHandler::<
            DispatchBridge,
        >::served_from(front[i], sub[i], front[i + 1]) by {
            assert(ServerHandler::<DispatchBridge>::served_from(states[i], results[i], states[i + 1]));
        }
        lemma_server_logs_in_receipt_order(front, sub);
        assert(ServerHandler::<DispatchBridge>::served_from(states[n], results[n], states[n + 1]));
        let before = decoded_messages(sub);
        match results[n] {
            Some(m) => {
                assert(before.push(m).drop_last() =~= before);
                assert(states[0].handler_spec().log_spec() + rendered(decoded_messages(results))
                    =~= (states[0].handler_spec().log_spec() + rendered(before)) + logged_of(m));
            },
            None => {},
        }
    }
}

} // verus!
