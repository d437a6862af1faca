use vstd::prelude::*;
use crate::message::Message;

verus! {

/// The failure of a broker's storage backend. The in-memory backend never
/// produces it.
#[derive(Clone, Copy, Debug, PartialEq, Eq)]
pub enum BrokerError {
    StorageUnavailable,
}

/// The messages of `s` that belong to `channel`, in store order.
pub open spec fn in_channel(s: Seq<Message>, channel: Seq<char>) -> Seq<Message> {
    s.filter(|m: Message| m.channel@ == channel)
}

/// What a consume of `amount` messages of `channel` hands out from the store
/// `s`: scanning in store order, each message of the channel is taken while
/// fewer than `amount` have been taken.
pub open spec fn selected(s: Seq<Message>, channel: Seq<char>, amount: nat) -> Seq<Message>
    decreases s.len(),
{
    if s.len() == 0 {
        Seq::empty()
    } else {
        let before = selected(s.drop_last(), channel, amount);
        if s.last().channel@ == channel && before.len() < amount {
            before.push(s.last())
        } else {
            before
        }
    }
}

/// What stays in the store `s` after a consume of `amount` messages of
/// `channel`: every message that `selected` does not take, in store order.
pub open spec fn remaining(s: Seq<Message>, channel: Seq<char>, amount: nat) -> Seq<Message>
    decreases s.len(),
{
    if s.len() == 0 {
        Seq::empty()
    } else {
        let before = remaining(s.drop_last(), channel, amount);
        if s.last().channel@ == channel && selected(s.drop_last(), channel, amount).len() < amount {
            before
        } else {
            before.push(s.last())
        }
    }
}

/// A store of messages that producers publish to and consumers take from.
///
/// `stored` is the store's content: every message published and not yet
/// consumed, in publish order. A backend may fail, and then leaves the store
/// as it was.
pub trait MessageBroker {
    spec fn stored(&self) -> Seq<Message>;

    /// Appends `message` to the end of the store. The store files the message
    /// under `message.channel`; `channel` is not consulted.
    fn publish_message(&mut self, channel: String, message: Message) -> (r: Result<(), BrokerError>)
        ensures
            r is Ok ==> final(self).stored() == old(self).stored().push(message),
            r is Err ==> final(self).stored() == old(self).stored(),
    ;

    /// Removes and returns, in publish order, the first `amount` messages of
    /// `channel`, or all of them where there are fewer.
    fn consume_messages(&mut self, channel: String, amount: usize) -> (r: Result<Vec<Message>, BrokerError>)
        ensures
            r matches Ok(v) ==> v@ == selected(old(self).stored(), channel@, amount as nat)
                && final(self).stored() == remaining(old(self).stored(), channel@, amount as nat),
            r is Err ==> final(self).stored() == old(self).stored(),
    ;
}

} // verus!
