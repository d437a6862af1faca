use vstd::prelude::*;

verus! {

/// JSON values are carried through the broker untouched: nothing here looks
/// inside one, so the type stays opaque.
#[verifier::external_type_specification]
#[verifier::external_body]
pub struct ExJsonValue(serde_json::Value);

/// The unit of data moved through the broker.
///
/// `channel` is the partition key; `headers` and `body` are opaque payloads
/// that are stored and handed back unmodified.
#[derive(Debug, PartialEq)]
pub struct Message {
    pub channel: String,
    pub headers: Option<serde_json::Value>,
    pub body: serde_json::Value,
}

impl Message {
    /// Builds a message from its parts, unchanged.
    pub fn new(channel: String, headers: Option<serde_json::Value>, body: serde_json::Value) -> (r: Message)
        ensures
            r.channel@ == channel@,
            r.headers == headers,
            r.body == body,
    {
        Message { channel, headers, body }
    }

    /// Whether this message belongs to `channel`.
    pub fn is_on_channel(&self, channel: &String) -> (r: bool)
        ensures
            r == (self.channel@ == channel@),
    {
        self.channel == *channel
    }
}

} // verus!
