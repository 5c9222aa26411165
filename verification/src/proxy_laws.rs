//! What can be relied on when messages are exchanged with the proxy drivers.

use crate::bytes::{bytes_of, code_of, lemma_bytes_of_len, ByteOrder};
use crate::error::ErrorKind;
use crate::proxy::{
    check_request_write, HostReply, ProxyRequest, ProxyWireMessage, WriteFault,
};
use crate::words::{lemma_signed_code, lemma_words, lemma_written, long, signed, word};
use vstd::prelude::*;

verus! {

/// Whether the 48 bytes `wire` are laid out as the drivers expect: what is asked
/// for at 0, the address and the length of the request at 8 and 16, those of the
/// response at 24 and 32, and the return code at 40; the four bytes at 4 and at
/// 44 are spare.
pub open spec fn laid_out(order: ByteOrder, wire: Seq<u8>, m: ProxyWireMessage) -> bool {
    &&& wire.len() == 48
    &&& word(order, wire, 0) == m.selector
    &&& word(order, wire, 4) == m.reserved
    &&& long(order, wire, 8) == m.tx_data
    &&& long(order, wire, 16) == m.tx_size
    &&& long(order, wire, 24) == m.rx_data
    &&& long(order, wire, 32) == m.rx_size
    &&& signed(word(order, wire, 40)) == m.ret
    &&& word(order, wire, 44) == m.trailer
}

/// The bytes of a message are laid out as the drivers expect, in the order that
/// was asked for.
pub proof fn law_messages_are_laid_out(m: ProxyWireMessage, order: ByteOrder, wire: Vec<u8>)
    requires
        call_ensures(ProxyWireMessage::encode, (&m, order), wire),
    ensures
        laid_out(order, wire@, m),
{
    let w = wire@;
    lemma_bytes_of_len(order, m.selector as nat, 4);
    lemma_bytes_of_len(order, m.reserved as nat, 4);
    lemma_bytes_of_len(order, m.tx_data as nat, 8);
    lemma_bytes_of_len(order, m.tx_size as nat, 8);
    lemma_bytes_of_len(order, m.rx_data as nat, 8);
    lemma_bytes_of_len(order, m.rx_size as nat, 8);
    lemma_bytes_of_len(order, code_of(m.ret), 4);
    lemma_bytes_of_len(order, m.trailer as nat, 4);
    assert(w.subrange(0, 4) =~= bytes_of(order, m.selector as nat, 4));
    assert(w.subrange(4, 8) =~= bytes_of(order, m.reserved as nat, 4));
    assert(w.subrange(8, 16) =~= bytes_of(order, m.tx_data as nat, 8));
    assert(w.subrange(16, 24) =~= bytes_of(order, m.tx_size as nat, 8));
    assert(w.subrange(24, 32) =~= bytes_of(order, m.rx_data as nat, 8));
    assert(w.subrange(32, 40) =~= bytes_of(order, m.rx_size as nat, 8));
    assert(w.subrange(40, 44) =~= bytes_of(order, code_of(m.ret), 4));
    assert(w.subrange(44, 48) =~= bytes_of(order, m.trailer as nat, 4));
    lemma_signed_code(m.ret);
    lemma_written(w, 0, order, m.selector as nat);
    lemma_written(w, 4, order, m.reserved as nat);
    lemma_written(w, 8, order, m.tx_data as nat);
    lemma_written(w, 16, order, m.tx_size as nat);
    lemma_written(w, 24, order, m.rx_data as nat);
    lemma_written(w, 32, order, m.rx_size as nat);
    lemma_written(w, 40, order, code_of(m.ret));
    lemma_written(w, 44, order, m.trailer as nat);
}

/// Any 48 bytes are read as the message that is laid out in them.
pub proof fn law_messages_are_read(order: ByteOrder, wire: &[u8], m: ProxyWireMessage)
    requires
        wire@.len() == 48,
        call_ensures(ProxyWireMessage::decode, (order, wire), m),
    ensures
        laid_out(order, wire@, m),
{
    lemma_words(wire@, 0);
    lemma_words(wire@, 4);
    lemma_words(wire@, 8);
    lemma_words(wire@, 16);
    lemma_words(wire@, 24);
    lemma_words(wire@, 32);
    lemma_words(wire@, 40);
    lemma_words(wire@, 44);
    lemma_signed_code(m.ret);
}

/// The message for a request says what is asked for, where its two buffers are
/// and how long they are; all else in it is 0.
pub proof fn law_requests_are_put(
    request: ProxyRequest,
    tx_address: u64,
    rx_address: u64,
    m: ProxyWireMessage,
)
    requires
        call_ensures(ProxyRequest::message, (&request, tx_address, rx_address), m),
    ensures
        m.selector == request.selector,
        m.tx_data == tx_address && m.tx_size == request.tx@.len(),
        m.rx_data == rx_address && m.rx_size == request.rx@.len(),
        m.reserved == 0 && m.ret == 0 && m.trailer == 0,
{
    assert(request.tx@.len() == request.tx.len());
    assert(request.rx@.len() == request.rx.len());
}

/// The driver's report is the length at 32 and the return code at 40 of the
/// message that it left. It is taken if and only if the write of the message
/// returned 48: a negative number is an error of the system, and any other a
/// short write of so many bytes.
pub proof fn law_replies_are_judged(
    order: ByteOrder,
    written: isize,
    wire: &[u8],
    reply: HostReply,
    checked: Result<(), WriteFault>,
    r: Result<HostReply, WriteFault>,
)
    requires
        wire@.len() == 48,
        call_ensures(HostReply::from_wire, (order, wire), reply),
        call_ensures(check_request_write, (written,), checked),
        call_ensures(HostReply::after_write, (order, written, wire), r),
    ensures
        reply.size == long(order, wire@, 32),
        reply.ret == signed(word(order, wire@, 40)),
        r matches Ok(taken) ==> taken.size == reply.size && taken.ret == reply.ret,
        r is Ok <==> written == 48,
        checked is Ok <==> written == 48,
        r matches Err(e) ==> checked == Err::<(), WriteFault>(e),
        checked matches Err(e) ==> match e {
            WriteFault::Os => written < 0,
            WriteFault::Short(n) => written >= 0 && n == written,
        },
{
    lemma_words(wire@, 32);
    lemma_words(wire@, 40);
    lemma_signed_code(reply.ret);
    if let Ok(taken) = r {
        lemma_signed_code(taken.ret);
    }
}

/// Only a short write has a kind of its own: that nothing more could be written.
pub proof fn law_write_fault_kinds(fault: WriteFault, kind: Option<ErrorKind>)
    requires
        call_ensures(WriteFault::kind, (&fault,), kind),
    ensures
        fault is Os <==> kind is None,
        kind matches Some(k) ==> k is WriteZero,
{
}

} // verus!
