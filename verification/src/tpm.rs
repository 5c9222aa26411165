//! The framing of TPM messages, which commands and responses share.
//!
//! A message starts with a header of ten bytes: a tag of two, the length of
//! the whole message in four, and a code of four, each with its most
//! significant byte first.

use crate::bytes::{be_value, le_value};
use vstd::prelude::*;

verus! {

/// The length of a message's header.
pub const TPM_HEADER_SIZE: usize = 10;

/// The greatest length of a message.
pub const TPM_BUFSIZE: usize = 4096;

/// The tag of a message without sessions.
pub const TPM_ST_NO_SESSIONS: u16 = 0x8001;

/// The tag of a message with sessions.
pub const TPM_ST_SESSIONS: u16 = 0x8002;

/// The response to a command that could not be carried out: the tag of a
/// message without sessions, the length 10, and the code for a failure.
pub const TPM_RC_FAILURE_RESPONSE: [u8; 10] = [
    0x80, 0x01, 0x00, 0x00, 0x00, 0x0A, 0x00, 0x00, 0x01, 0x01,
];

/// The tag of a message.
pub open spec fn tag_of(message: Seq<u8>) -> nat {
    be_value(message.subrange(0, 2))
}

/// The length that a message's header announces.
pub open spec fn size_of(message: Seq<u8>) -> nat {
    be_value(message.subrange(2, 6))
}

/// Whether `message` is as long as its header announces, and no longer than a
/// message may be.
pub open spec fn is_framed(message: Seq<u8>) -> bool {
    &&& TPM_HEADER_SIZE <= message.len() <= TPM_BUFSIZE
    &&& size_of(message) == message.len()
}

/// A copy of the failure response.
pub fn failure_response() -> (response: Vec<u8>)
    ensures
        response@ == TPM_RC_FAILURE_RESPONSE@,
{
    vstd::slice::slice_to_vec(&TPM_RC_FAILURE_RESPONSE)
}

/// The failure response is itself a message without sessions, as long as its
/// header announces.
pub proof fn law_failure_response_is_a_message()
    ensures
        is_framed(TPM_RC_FAILURE_RESPONSE@),
        tag_of(TPM_RC_FAILURE_RESPONSE@) == TPM_ST_NO_SESSIONS,
{
    let m = TPM_RC_FAILURE_RESPONSE@;
    lemma_be_value2(m.subrange(0, 2));
    lemma_be_value4(m.subrange(2, 6));
}

proof fn lemma_be_value2(s: Seq<u8>)
    requires
        s.len() == 2,
    ensures
        be_value(s) == 256 * s[0] + s[1],
{
    reveal_with_fuel(le_value, 3);
}

proof fn lemma_be_value4(s: Seq<u8>)
    requires
        s.len() == 4,
    ensures
        be_value(s) == 0x100_0000 * s[0] + 0x1_0000 * s[1] + 0x100 * s[2] + s[3],
{
    reveal_with_fuel(le_value, 5);
}

} // verus!
