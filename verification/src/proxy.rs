//! The messages that the bridges exchange with the host's proxy drivers.
//!
//! A bridge hands a driver one message of 48 bytes by a single write. The
//! driver reads the request buffer that the message points to, fills the
//! response buffer, and puts the length of the response and its return code
//! into the message itself.

use crate::bytes::{
    bytes_of, code_of, i32_at, i32_bytes, lemma_byte_widths, lemma_bytes_of_len,
    lemma_code_of_injective, lemma_value_of_bytes_of, u32_at, u32_bytes, u64_at, u64_bytes,
    value_of, ByteOrder,
};
use crate::error::ErrorKind;
use vstd::prelude::*;

verus! {

/// The length of a message to a proxy driver.
pub const WIRE_SIZE: usize = 48;

/// Why a bridge does not forward a request.
#[derive(Clone, Copy, Debug, PartialEq, Eq, Structural)]
pub struct SizeExceeded {
    pub tx_size: u64,
    pub rx_size: u64,
}

/// What a driver reports of a request that it carried out: the length of the
/// response, and its return code.
#[derive(Clone, Copy, Debug, PartialEq, Eq, Structural)]
pub struct HostReply {
    pub size: u64,
    pub ret: i32,
}

impl HostReply {
    /// The report in `wire`, a message as the driver left it.
    pub fn from_wire(order: ByteOrder, wire: &[u8]) -> (reply: HostReply)
        requires
            wire@.len() == WIRE_SIZE,
        ensures
            reply.size == value_of(order, wire@.subrange(32, 40)),
            code_of(reply.ret) == value_of(order, wire@.subrange(40, 44)),
    {
        let m = ProxyWireMessage::decode(order, wire);
        HostReply { size: m.rx_size, ret: m.ret }
    }

    /// What came of the write of a message: the report in `wire`, the message
    /// as the driver left it, or what went wrong with the write.
    pub fn after_write(order: ByteOrder, written: isize, wire: &[u8]) -> (r: Result<
        HostReply,
        WriteFault,
    >)
        requires
            wire@.len() == WIRE_SIZE,
        ensures
            match r {
                Ok(reply) => {
                    &&& write_fault(written) is None
                    &&& reply.size == value_of(order, wire@.subrange(32, 40))
                    &&& code_of(reply.ret) == value_of(order, wire@.subrange(40, 44))
                },
                Err(fault) => write_fault(written) == Some(fault),
            },
    {
        match check_request_write(written) {
            Ok(()) => Ok(Self::from_wire(order, wire)),
            Err(fault) => Err(fault),
        }
    }
}

/// What went wrong with the write that carries a message.
#[derive(Clone, Copy, Debug, PartialEq, Eq, Structural)]
pub enum WriteFault {
    /// The system refused the write.
    Os,
    /// Only so many bytes were taken.
    Short(usize),
}

impl WriteFault {
    /// The kind of this error; that of a system error is the system's.
    pub fn kind(&self) -> (kind: Option<ErrorKind>)
        ensures
            kind == (match *self {
                WriteFault::Os => None::<ErrorKind>,
                WriteFault::Short(_) => Some(ErrorKind::WriteZero),
            }),
    {
        match self {
            WriteFault::Os => None,
            WriteFault::Short(_) => Some(ErrorKind::WriteZero),
        }
    }
}

/// What is wrong where the write of a message returned `written`, if anything.
pub open spec fn write_fault(written: isize) -> Option<WriteFault> {
    if written < 0 {
        Some(WriteFault::Os)
    } else if written != WIRE_SIZE {
        Some(WriteFault::Short(written as usize))
    } else {
        None
    }
}

/// Judges what the write of a message returned.
pub fn check_request_write(written: isize) -> (r: Result<(), WriteFault>)
    ensures
        r == (match write_fault(written) {
            Some(fault) => Err::<(), WriteFault>(fault),
            None => Ok::<(), WriteFault>(()),
        }),
{
    if written < 0 {
        return Err(WriteFault::Os);
    }
    if written as usize != WIRE_SIZE {
        return Err(WriteFault::Short(written as usize));
    }
    Ok(())
}

/// A message to a proxy driver, field by field in the order in which they
/// stand. The BPMP and the DCE driver share this layout: `selector` is the
/// number of the request for the one and of the interface for the other.
#[derive(Clone, Copy, Debug, PartialEq, Eq, Structural)]
pub struct ProxyWireMessage {
    pub selector: u32,
    pub reserved: u32,
    pub tx_data: u64,
    pub tx_size: u64,
    pub rx_data: u64,
    pub rx_size: u64,
    pub ret: i32,
    pub trailer: u32,
}

/// The bytes of a message: each field in the given order, with no gap between
/// two of them.
pub open spec fn wire_bytes(order: ByteOrder, m: ProxyWireMessage) -> Seq<u8> {
    bytes_of(order, m.selector as nat, 4) + bytes_of(order, m.reserved as nat, 4) + bytes_of(
        order,
        m.tx_data as nat,
        8,
    ) + bytes_of(order, m.tx_size as nat, 8) + bytes_of(order, m.rx_data as nat, 8) + bytes_of(
        order,
        m.rx_size as nat,
        8,
    ) + bytes_of(order, code_of(m.ret), 4) + bytes_of(order, m.trailer as nat, 4)
}

/// Whether `m` is what `wire` spells in the given order.
pub open spec fn wire_spells(order: ByteOrder, wire: Seq<u8>, m: ProxyWireMessage) -> bool {
    &&& m.selector == value_of(order, wire.subrange(0, 4))
    &&& m.reserved == value_of(order, wire.subrange(4, 8))
    &&& m.tx_data == value_of(order, wire.subrange(8, 16))
    &&& m.tx_size == value_of(order, wire.subrange(16, 24))
    &&& m.rx_data == value_of(order, wire.subrange(24, 32))
    &&& m.rx_size == value_of(order, wire.subrange(32, 40))
    &&& code_of(m.ret) == value_of(order, wire.subrange(40, 44))
    &&& m.trailer == value_of(order, wire.subrange(44, 48))
}

proof fn lemma_wire_parts(order: ByteOrder, m: ProxyWireMessage)
    ensures
        wire_bytes(order, m).len() == 48,
        wire_bytes(order, m).subrange(0, 4) == bytes_of(order, m.selector as nat, 4),
        wire_bytes(order, m).subrange(4, 8) == bytes_of(order, m.reserved as nat, 4),
        wire_bytes(order, m).subrange(8, 16) == bytes_of(order, m.tx_data as nat, 8),
        wire_bytes(order, m).subrange(16, 24) == bytes_of(order, m.tx_size as nat, 8),
        wire_bytes(order, m).subrange(24, 32) == bytes_of(order, m.rx_data as nat, 8),
        wire_bytes(order, m).subrange(32, 40) == bytes_of(order, m.rx_size as nat, 8),
        wire_bytes(order, m).subrange(40, 44) == bytes_of(order, code_of(m.ret), 4),
        wire_bytes(order, m).subrange(44, 48) == bytes_of(order, m.trailer as nat, 4),
{
    let wire = wire_bytes(order, m);
    lemma_bytes_of_len(order, m.selector as nat, 4);
    lemma_bytes_of_len(order, m.reserved as nat, 4);
    lemma_bytes_of_len(order, m.tx_data as nat, 8);
    lemma_bytes_of_len(order, m.tx_size as nat, 8);
    lemma_bytes_of_len(order, m.rx_data as nat, 8);
    lemma_bytes_of_len(order, m.rx_size as nat, 8);
    lemma_bytes_of_len(order, code_of(m.ret), 4);
    lemma_bytes_of_len(order, m.trailer as nat, 4);
    assert(wire.subrange(0, 4) =~= bytes_of(order, m.selector as nat, 4));
    assert(wire.subrange(4, 8) =~= bytes_of(order, m.reserved as nat, 4));
    assert(wire.subrange(8, 16) =~= bytes_of(order, m.tx_data as nat, 8));
    assert(wire.subrange(16, 24) =~= bytes_of(order, m.tx_size as nat, 8));
    assert(wire.subrange(24, 32) =~= bytes_of(order, m.rx_data as nat, 8));
    assert(wire.subrange(32, 40) =~= bytes_of(order, m.rx_size as nat, 8));
    assert(wire.subrange(40, 44) =~= bytes_of(order, code_of(m.ret), 4));
    assert(wire.subrange(44, 48) =~= bytes_of(order, m.trailer as nat, 4));
}

/// A message spells its own fields and those of no other message: what a
/// driver leaves untouched reads back as it was sent.
pub proof fn law_wire_round_trip(order: ByteOrder, m: ProxyWireMessage, other: ProxyWireMessage)
    ensures
        wire_bytes(order, m).len() == WIRE_SIZE,
        wire_spells(order, wire_bytes(order, m), m),
        wire_spells(order, wire_bytes(order, m), other) ==> other == m,
{
    lemma_wire_parts(order, m);
    lemma_byte_widths();
    lemma_value_of_bytes_of(order, m.selector as nat, 4);
    lemma_value_of_bytes_of(order, m.reserved as nat, 4);
    lemma_value_of_bytes_of(order, m.tx_data as nat, 8);
    lemma_value_of_bytes_of(order, m.tx_size as nat, 8);
    lemma_value_of_bytes_of(order, m.rx_data as nat, 8);
    lemma_value_of_bytes_of(order, m.rx_size as nat, 8);
    lemma_code_of_injective(m.ret, other.ret);
    lemma_value_of_bytes_of(order, code_of(m.ret), 4);
    lemma_value_of_bytes_of(order, m.trailer as nat, 4);
}

impl ProxyWireMessage {
    /// The bytes of this message in the given order.
    pub fn encode(&self, order: ByteOrder) -> (wire: Vec<u8>)
        ensures
            wire@ == wire_bytes(order, *self),
            wire@.len() == WIRE_SIZE,
    {
        let mut wire = u32_bytes(order, self.selector);
        wire.append(&mut u32_bytes(order, self.reserved));
        wire.append(&mut u64_bytes(order, self.tx_data));
        wire.append(&mut u64_bytes(order, self.tx_size));
        wire.append(&mut u64_bytes(order, self.rx_data));
        wire.append(&mut u64_bytes(order, self.rx_size));
        wire.append(&mut i32_bytes(order, self.ret));
        wire.append(&mut u32_bytes(order, self.trailer));
        wire
    }

    /// The message that `wire` spells in the given order.
    pub fn decode(order: ByteOrder, wire: &[u8]) -> (m: ProxyWireMessage)
        requires
            wire@.len() == WIRE_SIZE,
        ensures
            wire_spells(order, wire@, m),
    {
        ProxyWireMessage {
            selector: u32_at(order, wire, 0),
            reserved: u32_at(order, wire, 4),
            tx_data: u64_at(order, wire, 8),
            tx_size: u64_at(order, wire, 16),
            rx_data: u64_at(order, wire, 24),
            rx_size: u64_at(order, wire, 32),
            ret: i32_at(order, wire, 40),
            trailer: u32_at(order, wire, 44),
        }
    }
}

/// A request that a bridge forwards: what it asks for, the bytes that the guest
/// sends, and the response buffer as it stands, which is as long as the guest
/// allows the response to be.
#[derive(Debug)]
pub struct ProxyRequest {
    pub selector: u32,
    pub tx: Vec<u8>,
    pub rx: Vec<u8>,
}

impl ProxyRequest {
    /// The message for this request, with its two buffers at the given
    /// addresses.
    pub fn message(&self, tx_address: u64, rx_address: u64) -> (m: ProxyWireMessage)
        ensures
            m == (ProxyWireMessage {
                selector: self.selector,
                reserved: 0,
                tx_data: tx_address,
                tx_size: self.tx@.len() as u64,
                rx_data: rx_address,
                rx_size: self.rx@.len() as u64,
                ret: 0,
                trailer: 0,
            }),
    {
        ProxyWireMessage {
            selector: self.selector,
            reserved: 0,
            tx_data: tx_address,
            tx_size: self.tx.len() as u64,
            rx_data: rx_address,
            rx_size: self.rx.len() as u64,
            ret: 0,
            trailer: 0,
        }
    }
}

} // verus!
