use vstd::prelude::*;
use crate::broker::{BrokerError, MessageBroker, remaining, selected};
use crate::message::Message;

verus! {

/// The in-memory broker: one ordered sequence of every stored message, across
/// all channels, oldest first.
///
/// Methods that change the store take `&mut self`, so each publish and each
/// consume is one exclusive step: a consume selects and removes its messages
/// without another consumer in between, and no message is handed out twice.
/// Callers that share one broker between tasks hold it behind a lock.
#[derive(Debug)]
pub struct LockedMessageQueue {
    messages: Vec<Message>,
}

impl LockedMessageQueue {
    /// An empty store.
    pub fn new() -> (r: LockedMessageQueue)
        ensures
            r.stored() == Seq::<Message>::empty(),
    {
        LockedMessageQueue { messages: Vec::new() }
    }

    /// The number of stored messages, over all channels.
    pub fn len(&self) -> (r: usize)
        ensures
            r == self.stored().len(),
    {
        self.messages.len()
    }
}

impl MessageBroker for LockedMessageQueue {
    /// The stored messages, oldest first.
    closed spec fn stored(&self) -> Seq<Message> {
        self.messages@
    }

    fn publish_message(&mut self, channel: String, message: Message) -> (r: Result<(), BrokerError>)
        ensures
            r is Ok,
            final(self).stored() == old(self).stored().push(message),
    {
        self.messages.push(message);
        Ok(())
    }

    fn consume_messages(&mut self, channel: String, amount: usize) -> (r: Result<Vec<Message>, BrokerError>)
        ensures
            r matches Ok(v) && v@ == selected(old(self).stored(), channel@, amount as nat),
            final(self).stored() == remaining(old(self).stored(), channel@, amount as nat),
    {
        let mut store: Vec<Message> = Vec::new();
        std::mem::swap(&mut self.messages, &mut store);
        let ghost s = store@;
        let mut taken: Vec<Message> = Vec::new();
        for m in it: store.into_iter()
            invariant
                it.seq() == s,
                self.messages@ == remaining(s.take(it.index() as int), channel@, amount as nat),
                taken@ == selected(s.take(it.index() as int), channel@, amount as nat),
        {
            proof {
                assert(s.take(it.index() + 1).drop_last() == s.take(it.index() as int));
            }
            if taken.len() < amount && m.is_on_channel(&channel) {
                taken.push(m);
            } else {
                self.messages.push(m);
            }
        }
        proof {
            assert(s.take(s.len() as int) == s);
        }
        Ok(taken)
    }
}

} // verus!
