use vstd::prelude::*;

verus! {

/// A consumer's request: the channel to take from and, optionally, how many
/// messages to take.
#[derive(Clone, Debug)]
pub struct ConsumeQuery {
    pub channel: String,
    pub amount: Option<usize>,
}

/// How many messages a consume takes when the request names no amount.
pub const DEFAULT_AMOUNT: usize = 1;

impl ConsumeQuery {
    /// The number of messages the request asks for: its amount, or one where
    /// it names none.
    pub fn requested_amount(&self) -> (r: usize)
        ensures
            r == match self.amount {
                Some(n) => n,
                None => DEFAULT_AMOUNT,
            },
    {
        match self.amount {
            Some(n) => n,
            None => DEFAULT_AMOUNT,
        }
    }
}

} // verus!
