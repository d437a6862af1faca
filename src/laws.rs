//! Properties of publish and consume, stated over the store's content.
use vstd::prelude::*;
use crate::broker::{in_channel, remaining, selected};
use crate::message::Message;
use vstd::multiset::Multiset;

verus! {

/// The smaller of `amount` and the number of messages of `channel` in `s`:
/// how many messages a consume hands out.
pub open spec fn take_count(s: Seq<Message>, channel: Seq<char>, amount: nat) -> nat {
    let m = in_channel(s, channel).len();
    if amount <= m { amount } else { m }
}

/// Filing one more message under a channel appends it to that channel only.
proof fn lemma_in_channel_push(s: Seq<Message>, x: Message, channel: Seq<char>)
    ensures
        in_channel(s.push(x), channel) == if x.channel@ == channel {
            in_channel(s, channel).push(x)
        } else {
            in_channel(s, channel)
        },
{
    reveal(Seq::filter);
    assert(s.push(x).drop_last() == s);
}

/// A store without messages has none on any channel.
proof fn lemma_in_channel_empty(channel: Seq<char>)
    ensures
        in_channel(Seq::<Message>::empty(), channel) == Seq::<Message>::empty(),
{
    reveal(Seq::filter);
}

/// A consume hands out the oldest `take_count` messages of its channel and
/// keeps the rest of that channel, in order; the messages of every other
/// channel stay as they were.
pub proof fn lemma_consume_takes_oldest(s: Seq<Message>, channel: Seq<char>, amount: nat)
    ensures
        selected(s, channel, amount) == in_channel(s, channel).take(take_count(s, channel, amount) as int),
        in_channel(remaining(s, channel, amount), channel)
            == in_channel(s, channel).skip(take_count(s, channel, amount) as int),
        forall|c: Seq<char>| c != channel ==> #[trigger] in_channel(remaining(s, channel, amount), c) == in_channel(s, c),
    decreases s.len(),
{
    if s.len() == 0 {
        lemma_in_channel_empty(channel);
        assert(in_channel(s, channel).skip(0) == in_channel(s, channel));
    } else {
        let p = s.drop_last();
        let x = s.last();
        lemma_consume_takes_oldest(p, channel, amount);
        let fp = in_channel(p, channel);
        let rp = remaining(p, channel, amount);
        assert(s == p.push(x));
        lemma_in_channel_push(p, x, channel);
        lemma_in_channel_push(rp, x, channel);
        assert forall|c: Seq<char>| #[trigger] in_channel(s, c) == (if x.channel@ == c {
            in_channel(p, c).push(x)
        } else {
            in_channel(p, c)
        }) && in_channel(rp.push(x), c) == (if x.channel@ == c {
            in_channel(rp, c).push(x)
        } else {
            in_channel(rp, c)
        }) by {
            lemma_in_channel_push(p, x, c);
            lemma_in_channel_push(rp, x, c);
        }
        if x.channel@ == channel {
            if selected(p, channel, amount).len() < amount {
                assert(fp.push(x).take(fp.len() + 1 as int) == fp.push(x));
                assert(fp.push(x).skip(fp.len() + 1 as int) == fp.skip(fp.len() as int));
            } else {
                assert(fp.push(x).take(amount as int) == fp.take(amount as int));
                assert(fp.push(x).skip(amount as int) == fp.skip(amount as int).push(x));
            }
        }
    }
}

/// The messages of `ms` that belong to `channel` are all of `ms` where every
/// one belongs to it, and none where none does.
proof fn lemma_in_channel_uniform(ms: Seq<Message>, channel: Seq<char>)
    ensures
        (forall|i: int| 0 <= i < ms.len() ==> #[trigger] ms[i].channel@ == channel)
            ==> in_channel(ms, channel) == ms,
        (forall|i: int| 0 <= i < ms.len() ==> #[trigger] ms[i].channel@ != channel)
            ==> in_channel(ms, channel) == Seq::<Message>::empty(),
    decreases ms.len(),
{
    if ms.len() == 0 {
        lemma_in_channel_empty(channel);
    } else {
        let p = ms.drop_last();
        lemma_in_channel_uniform(p, channel);
        assert(ms == p.push(ms.last()));
        lemma_in_channel_push(p, ms.last(), channel);
        if forall|i: int| 0 <= i < ms.len() ==> #[trigger] ms[i].channel@ == channel {
            assert forall|i: int| 0 <= i < p.len() implies #[trigger] p[i].channel@ == channel by {
                assert(p[i] == ms[i]);
            }
        }
        if forall|i: int| 0 <= i < ms.len() ==> #[trigger] ms[i].channel@ != channel {
            assert forall|i: int| 0 <= i < p.len() implies #[trigger] p[i].channel@ != channel by {
                assert(p[i] == ms[i]);
            }
        }
    }
}

/// No message is both handed out and kept, and none is lost: what a consume
/// returns and what it leaves make up, message for message, the store it
/// started from. So a message that one consume returned cannot be returned by
/// a later one.
pub proof fn lemma_consume_partitions_store(s: Seq<Message>, channel: Seq<char>, amount: nat)
    ensures
        selected(s, channel, amount).to_multiset().add(remaining(s, channel, amount).to_multiset())
            == s.to_multiset(),
        selected(s, channel, amount).len() + remaining(s, channel, amount).len() == s.len(),
    decreases s.len(),
{
    broadcast use vstd::seq_lib::group_to_multiset_ensures;
    if s.len() == 0 {
        assert(selected(s, channel, amount).to_multiset() =~= Multiset::empty());
    } else {
        let p = s.drop_last();
        let x = s.last();
        lemma_consume_partitions_store(p, channel, amount);
        assert(s == p.push(x));
        let sp = selected(p, channel, amount);
        let rp = remaining(p, channel, amount);
        if x.channel@ == channel && sp.len() < amount {
            assert(sp.push(x).to_multiset().add(rp.to_multiset()) =~= s.to_multiset());
        } else {
            assert(sp.to_multiset().add(rp.push(x).to_multiset()) =~= s.to_multiset());
        }
    }
}

/// Messages published to one channel come out of it in the order they were
/// published: after publishing `ms`, all to `channel`, onto the store `s`, a
/// consume whose amount covers the channel returns the channel's earlier
/// messages followed by `ms`, in publish order.
pub proof fn lemma_fifo_within_channel(s: Seq<Message>, ms: Seq<Message>, channel: Seq<char>, amount: nat)
    requires
        forall|i: int| 0 <= i < ms.len() ==> #[trigger] ms[i].channel@ == channel,
        amount >= in_channel(s, channel).len() + ms.len(),
    ensures
        selected(s + ms, channel, amount) == in_channel(s, channel) + ms,
{
    reveal(Seq::filter);
    Seq::filter_distributes_over_add(s, ms, |m: Message| m.channel@ == channel);
    lemma_in_channel_uniform(ms, channel);
    lemma_consume_takes_oldest(s + ms, channel, amount);
    let all = in_channel(s, channel) + ms;
    assert(all.take(all.len() as int) == all);
}

/// Publishing to other channels does not change what a consume of `channel`
/// returns.
pub proof fn lemma_channel_isolation(s: Seq<Message>, ms: Seq<Message>, channel: Seq<char>, amount: nat)
    requires
        forall|i: int| 0 <= i < ms.len() ==> #[trigger] ms[i].channel@ != channel,
    ensures
        selected(s + ms, channel, amount) == selected(s, channel, amount),
{
    Seq::filter_distributes_over_add(s, ms, |m: Message| m.channel@ == channel);
    lemma_in_channel_uniform(ms, channel);
    lemma_consume_takes_oldest(s + ms, channel, amount);
    lemma_consume_takes_oldest(s, channel, amount);
    assert(in_channel(s, channel) + Seq::<Message>::empty() == in_channel(s, channel));
}

/// A consume of `amount` from a channel that holds at least `amount`
/// messages returns exactly `amount` of them and leaves the rest.
pub proof fn lemma_bounded_take(s: Seq<Message>, channel: Seq<char>, amount: nat)
    requires
        in_channel(s, channel).len() >= amount,
    ensures
        selected(s, channel, amount).len() == amount,
        in_channel(remaining(s, channel, amount), channel).len() == in_channel(s, channel).len() - amount,
{
    lemma_consume_takes_oldest(s, channel, amount);
}

/// A consume of `amount` from a channel that holds fewer messages returns
/// all of them and leaves the channel empty.
pub proof fn lemma_exhaustion(s: Seq<Message>, channel: Seq<char>, amount: nat)
    requires
        in_channel(s, channel).len() < amount,
    ensures
        selected(s, channel, amount) == in_channel(s, channel),
        in_channel(remaining(s, channel, amount), channel).len() == 0,
{
    lemma_consume_takes_oldest(s, channel, amount);
    let f = in_channel(s, channel);
    assert(f.take(f.len() as int) == f);
}

/// A consume from a channel without messages, or of amount zero, returns
/// nothing and leaves the store as it was.
pub proof fn lemma_empty_consume(s: Seq<Message>, channel: Seq<char>, amount: nat)
    requires
        in_channel(s, channel).len() == 0 || amount == 0,
    ensures
        selected(s, channel, amount) == Seq::<Message>::empty(),
        remaining(s, channel, amount) == s,
    decreases s.len(),
{
    if s.len() > 0 {
        let p = s.drop_last();
        assert(s == p.push(s.last()));
        lemma_in_channel_push(p, s.last(), channel);
        lemma_empty_consume(p, channel, amount);
    }
}

/// Of a channel holding a single message, a first consume returns that
/// message and a second consume of the same channel returns nothing: the
/// message is delivered once.
pub proof fn lemma_single_message_delivered_once(s: Seq<Message>, channel: Seq<char>, first: nat, second: nat)
    requires
        in_channel(s, channel).len() == 1,
        first >= 1,
    ensures
        selected(s, channel, first) == in_channel(s, channel),
        selected(remaining(s, channel, first), channel, second) == Seq::<Message>::empty(),
{
    lemma_exhaustion(s, channel, first + 1);
    lemma_consume_takes_oldest(s, channel, first);
    let f = in_channel(s, channel);
    assert(f.take(1) == f);
    lemma_empty_consume(remaining(s, channel, first), channel, second);
}

} // verus!
