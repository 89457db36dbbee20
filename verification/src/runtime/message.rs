//! Messages of the shared-memory channels.

use ov_channels::Message;
use vstd::prelude::*;

verus! {

/// A message of the channel crate: a kind and 255 bytes of payload.
#[verifier::external_type_specification]
#[verifier::external_body]
pub struct ExMessage(ov_channels::Message);

/// Kind of a message: 0 is a notification, 1 carries data.
pub uninterp spec fn message_kind(message: ov_channels::Message) -> u8;

/// Payload of a message.
pub uninterp spec fn message_payload(message: ov_channels::Message) -> Seq<u8>;

/// The payload of a data message: the bytes, cut off after 255, then zeros.
pub open spec fn padded(data: Seq<u8>) -> Seq<u8> {
    Seq::new(
        255,
        |i: int|
            if i < data.len() {
                data[i]
            } else {
                0u8
            },
    )
}

/// Calls `ov_channels::Message::data`. A data message has kind 1; its payload is the
/// bytes, cut off after 255, and zeros behind them.
#[verifier::external_body]
pub(crate) fn data_message(data: &[u8]) -> (r: Message)
    ensures
        message_kind(r) == 1,
        message_payload(r) == padded(data@),
{
    Message::data(data)
}

/// Calls `ov_channels::Message::as_data`. The payload of a message of kind 1, which is
/// always 255 bytes long; nothing for any other kind.
#[verifier::external_body]
pub(crate) fn message_data(message: &Message) -> (r: Option<Vec<u8>>)
    ensures
        r is Some == (message_kind(*message) == 1),
        r is Some ==> r->0@ == message_payload(*message) && r->0@.len() == 255,
{
    message.as_data().map(|payload| payload.to_vec())
}

/// Calls `ov_channels::Message::as_notification`. The first word of the payload of a
/// message of kind 0, low byte first; nothing for any other kind.
#[verifier::external_body]
pub(crate) fn message_notification(message: &Message) -> (r: Option<u32>)
    ensures
        r == (if message_kind(*message) == 0 {
            Some(crate::bytes::word_at(message_payload(*message), 0))
        } else {
            None
        }),
{
    message.as_notification()
}

} // verus!
