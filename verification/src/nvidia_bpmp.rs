//! The bridge to the host's BPMP proxy driver.
//!
//! The guest fills a request into a window of registers and buffers, and sends
//! it by a write to one register. The bridge forwards the request to the host
//! and leaves the response in the window.

use crate::bus::{checked_range, BusAccessInfo, PlatformDeviceId};
use crate::bytes::{
    clear, code_of, i32_bytes, le_bytes, le_u32_prefix, le_value, lemma_byte_widths,
    lemma_bytes_of_len, lemma_code_of_injective, lemma_value_of_bytes_of, spliced, store, u64_at,
    u64_bytes, zeros, ByteOrder,
};
use crate::platform::{eio, eio_number};
use crate::proxy::{HostReply, ProxyRequest, SizeExceeded};
use vstd::prelude::*;
use vstd::slice::slice_to_vec;

verus! {

pub const NVIDIA_BPMP_MMIO_BASE: u64 = 0x090d_0000;

pub const NVIDIA_BPMP_MMIO_SIZE: u64 = 0x1000;

/// Where the guest puts its request.
pub const TX_BUFFER: usize = 0x0000;

/// Where the guest finds the response.
pub const RX_BUFFER: usize = 0x0200;

/// The length of the request.
pub const TX_SIZE: usize = 0x0400;

/// The length that the response may have, and then the length that it has.
pub const RX_SIZE: usize = 0x0408;

/// The driver's return code.
pub const RETURN_CODE: usize = 0x0410;

/// A write here sends the request; what is written is its number.
pub const MRQ: usize = 0x0500;

/// The length of the window.
pub const PROTOCOL_SIZE: usize = 0x0600;

/// The greatest length of a request or a response.
pub const MESSAGE_SIZE: usize = 0x0200;

/// The length of the request that `memory` announces.
pub open spec fn announced_tx(memory: Seq<u8>) -> nat {
    le_value(memory.subrange(TX_SIZE as int, TX_SIZE + 8))
}

/// The length that `memory` allows the response.
pub open spec fn announced_rx(memory: Seq<u8>) -> nat {
    le_value(memory.subrange(RX_SIZE as int, RX_SIZE + 8))
}

/// Whether the lengths that `memory` announces fit the buffers.
pub open spec fn sizes_fit(memory: Seq<u8>) -> bool {
    announced_tx(memory) <= MESSAGE_SIZE && announced_rx(memory) <= MESSAGE_SIZE
}

/// The number of a request that is sent by writing `data`: its first four
/// bytes, or all of them where there are fewer.
pub open spec fn request_number(data: Seq<u8>) -> nat {
    le_value(
        data.take(
            if data.len() < 4 {
                data.len() as int
            } else {
                4
            },
        ),
    )
}

/// Whether `request` is the one that `memory` announces, sent by writing
/// `data`.
pub open spec fn is_announced_request(memory: Seq<u8>, data: Seq<u8>, request: ProxyRequest) -> bool {
    &&& request.selector == request_number(data)
    &&& request.tx@ == memory.subrange(TX_BUFFER as int, TX_BUFFER + announced_tx(memory))
    &&& request.rx@ == memory.subrange(RX_BUFFER as int, RX_BUFFER + announced_rx(memory))
}

/// `memory` with a return code and the length of a response in place.
pub open spec fn completed(memory: Seq<u8>, ret: i32, size: u64) -> Seq<u8> {
    spliced(
        spliced(memory, RETURN_CODE as int, le_bytes(code_of(ret), 4)),
        RX_SIZE as int,
        le_bytes(size as nat, 8),
    )
}

/// `memory` after a request that was refused or that failed.
pub open spec fn failed(memory: Seq<u8>) -> Seq<u8> {
    completed(memory, (-eio_number()) as i32, 0)
}

/// `memory` after a request was forwarded: the driver left `rx` in the response
/// buffer and made its report, or none where the transfer failed.
pub open spec fn answered(memory: Seq<u8>, rx: Seq<u8>, reply: Option<HostReply>) -> Seq<u8> {
    match reply {
        Some(reply) => completed(spliced(memory, RX_BUFFER as int, rx), reply.ret, reply.size),
        None => failed(spliced(memory, RX_BUFFER as int, rx)),
    }
}

/// What a read of `len` bytes at `offset` shows: the window's bytes, or zeros
/// where the read leaves the window.
pub open spec fn shown(memory: Seq<u8>, offset: int, len: nat) -> Seq<u8> {
    if offset + len <= PROTOCOL_SIZE {
        memory.subrange(offset, offset + len)
    } else {
        zeros(len)
    }
}

/// What a write of the guest leads to.
#[derive(Debug)]
pub enum BpmpWrite {
    /// The write left the window and was dropped.
    Outside,
    /// The bytes are in the window.
    Stored,
    /// A request was sent whose lengths do not fit; it has been answered.
    Refused(SizeExceeded),
    /// A request was sent and is to be forwarded to the host.
    Forward(ProxyRequest),
}

/// The bridge to the host's BPMP driver: the window that it shows the guest.
pub struct NvidiaBpmpHost {
    memory: [u8; PROTOCOL_SIZE],
}

impl View for NvidiaBpmpHost {
    type V = Seq<u8>;

    closed spec fn view(&self) -> Seq<u8> {
        self.memory@
    }
}

impl NvidiaBpmpHost {
    /// The window never changes its length.
    pub proof fn lemma_window_len(&self)
        ensures
            self@.len() == PROTOCOL_SIZE,
    {
    }

    /// A bridge whose window is all zeros.
    pub fn new_with_backend() -> (device: Self)
        ensures
            device@ == zeros(PROTOCOL_SIZE as nat),
    {
        let device = NvidiaBpmpHost { memory: [0; PROTOCOL_SIZE] };
        assert(device.memory@ =~= zeros(PROTOCOL_SIZE as nat));
        device
    }

    /// A bridge whose window is all zeros.
    pub fn new() -> (device: Self)
        ensures
            device@ == zeros(PROTOCOL_SIZE as nat),
    {
        Self::new_with_backend()
    }

    /// The stretch of the window that an access meets, where it stays inside.
    pub fn range(offset: u64, len: usize) -> (r: Option<core::ops::Range<usize>>)
        ensures
            r is Some <==> offset + len <= PROTOCOL_SIZE,
            r matches Some(range) ==> range.start == offset && range.end == offset + len,
    {
        checked_range(offset, len, PROTOCOL_SIZE)
    }

    /// The number in the eight bytes at `offset`.
    pub fn read_u64(&self, offset: usize) -> (v: u64)
        requires
            offset + 8 <= PROTOCOL_SIZE,
        ensures
            v == le_value(self@.subrange(offset as int, offset + 8)),
    {
        u64_at(ByteOrder::Little, &self.memory, offset)
    }

    fn complete(&mut self, ret: i32, size: u64)
        ensures
            final(self)@ == completed(old(self)@, ret, size),
    {
        let code = i32_bytes(ByteOrder::Little, ret);
        store(&mut self.memory, RETURN_CODE, &code);
        let length = u64_bytes(ByteOrder::Little, size);
        store(&mut self.memory, RX_SIZE, &length);
    }

    /// Reports to the guest that its request failed.
    pub fn complete_with_error(&mut self)
        ensures
            final(self)@ == failed(old(self)@),
    {
        self.complete(-eio(), 0);
    }

    /// Takes up the request that the window announces, sent by writing `data`:
    /// gives it out to be forwarded, or answers it with an error where its
    /// lengths do not fit.
    pub fn transfer(&mut self, data: &[u8]) -> (r: Result<ProxyRequest, SizeExceeded>)
        ensures
            match r {
                Ok(request) => {
                    &&& sizes_fit(old(self)@)
                    &&& is_announced_request(old(self)@, data@, request)
                    &&& final(self)@ == old(self)@
                },
                Err(e) => {
                    &&& !sizes_fit(old(self)@)
                    &&& e.tx_size == announced_tx(old(self)@)
                    &&& e.rx_size == announced_rx(old(self)@)
                    &&& final(self)@ == failed(old(self)@)
                },
            },
    {
        let tx_size: u64 = self.read_u64(TX_SIZE);
        let rx_size: u64 = self.read_u64(RX_SIZE);
        if tx_size > MESSAGE_SIZE as u64 || rx_size > MESSAGE_SIZE as u64 {
            self.complete_with_error();
            return Err(SizeExceeded { tx_size, rx_size });
        }
        let tx = &self.memory[TX_BUFFER..TX_BUFFER + tx_size as usize];
        let rx = &self.memory[RX_BUFFER..RX_BUFFER + rx_size as usize];
        Ok(
            ProxyRequest {
                selector: le_u32_prefix(data),
                tx: slice_to_vec(tx),
                rx: slice_to_vec(rx),
            },
        )
    }

    /// Ends a request that was forwarded. `rx` is the response buffer that came
    /// with the request, as the driver left it; `reply` is the driver's report,
    /// or none where the transfer failed.
    pub fn finish_transfer(&mut self, rx: &[u8], reply: Option<HostReply>)
        requires
            rx@.len() <= MESSAGE_SIZE,
        ensures
            final(self)@ == answered(old(self)@, rx@, reply),
    {
        store(&mut self.memory, RX_BUFFER, rx);
        match reply {
            Some(reply) => self.complete(reply.ret, reply.size),
            None => self.complete_with_error(),
        }
    }

    /// The name under which the device shows up in diagnostics.
    pub fn debug_label(&self) -> (label: String)
        ensures
            label@ == "nvidia-bpmp-host"@,
    {
        "nvidia-bpmp-host".to_owned()
    }

    /// Which platform device this is.
    pub fn device_id(&self) -> (id: PlatformDeviceId)
        ensures
            id == PlatformDeviceId::NvidiaBpmpHost,
    {
        PlatformDeviceId::NvidiaBpmpHost
    }

    /// Serves a read of the guest: what the window holds, or zeros where the
    /// read leaves the window.
    pub fn read(&self, info: BusAccessInfo, data: &mut [u8])
        ensures
            final(data)@ == shown(self@, info.offset as int, old(data)@.len()),
    {
        let len: usize = data.len();
        match Self::range(info.offset, len) {
            None => clear(data),
            Some(range) => {
                store(data, 0, &self.memory[range.start..range.end]);
                assert(data@ =~= self@.subrange(info.offset as int, info.offset + len));
            },
        }
    }

    /// Serves a write of the guest.
    pub fn write(&mut self, info: BusAccessInfo, data: &[u8]) -> (r: BpmpWrite)
        ensures
            match r {
                BpmpWrite::Outside => {
                    &&& info.offset + data@.len() > PROTOCOL_SIZE
                    &&& final(self)@ == old(self)@
                },
                BpmpWrite::Stored => {
                    &&& info.offset + data@.len() <= PROTOCOL_SIZE
                    &&& info.offset != MRQ
                    &&& final(self)@ == spliced(old(self)@, info.offset as int, data@)
                },
                BpmpWrite::Refused(e) => {
                    &&& info.offset + data@.len() <= PROTOCOL_SIZE
                    &&& info.offset == MRQ
                    &&& !sizes_fit(old(self)@)
                    &&& e.tx_size == announced_tx(old(self)@)
                    &&& e.rx_size == announced_rx(old(self)@)
                    &&& final(self)@ == failed(old(self)@)
                },
                BpmpWrite::Forward(request) => {
                    &&& info.offset + data@.len() <= PROTOCOL_SIZE
                    &&& info.offset == MRQ
                    &&& sizes_fit(old(self)@)
                    &&& is_announced_request(old(self)@, data@, request)
                    &&& final(self)@ == old(self)@
                },
            },
    {
        let range = match Self::range(info.offset, data.len()) {
            None => return BpmpWrite::Outside,
            Some(range) => range,
        };
        if range.start == MRQ {
            match self.transfer(data) {
                Ok(request) => BpmpWrite::Forward(request),
                Err(e) => BpmpWrite::Refused(e),
            }
        } else {
            store(&mut self.memory, range.start, data);
            BpmpWrite::Stored
        }
    }
}

/// A write that stays in the window and sends no request is shown by a read of
/// the same stretch, and no other stretch changes.
pub proof fn law_write_then_read(memory: Seq<u8>, offset: int, data: Seq<u8>, from: int, len: nat)
    requires
        memory.len() == PROTOCOL_SIZE,
        0 <= offset,
        offset + data.len() <= PROTOCOL_SIZE,
        0 <= from,
        from + len <= offset || offset + data.len() <= from,
    ensures
        shown(spliced(memory, offset, data), offset, data.len()) == data,
        shown(spliced(memory, offset, data), from, len) == shown(memory, from, len),
{
    assert(shown(spliced(memory, offset, data), offset, data.len()) =~= data);
    assert(shown(spliced(memory, offset, data), from, len) =~= shown(memory, from, len));
}

/// After a request was refused or failed, the return code reads as the negated
/// number of an I/O error, the length of the response as 0, and nothing else
/// has changed.
pub proof fn law_failure_is_reported(memory: Seq<u8>, code: i32, from: int, len: nat)
    requires
        memory.len() == PROTOCOL_SIZE,
        0 <= from,
        from + len <= RX_SIZE || from >= RETURN_CODE + 4,
    ensures
        code_of(code) == le_value(shown(failed(memory), RETURN_CODE as int, 4)) <==> code
            == -eio_number(),
        announced_rx(failed(memory)) == 0,
        shown(failed(memory), from, len) == shown(memory, from, len),
{
    let ret = (-eio_number()) as i32;
    lemma_completed(memory, ret, 0);
    lemma_code_of_injective(code, ret);
    assert(shown(failed(memory), from, len) =~= shown(memory, from, len)) by {
        lemma_bytes_of_len(ByteOrder::Little, code_of(ret), 4);
        lemma_bytes_of_len(ByteOrder::Little, 0, 8);
    }
}

proof fn lemma_completed(memory: Seq<u8>, ret: i32, size: u64)
    requires
        memory.len() == PROTOCOL_SIZE,
    ensures
        completed(memory, ret, size).len() == PROTOCOL_SIZE,
        shown(completed(memory, ret, size), RETURN_CODE as int, 4) == le_bytes(code_of(ret), 4),
        le_value(shown(completed(memory, ret, size), RETURN_CODE as int, 4)) == code_of(ret),
        announced_rx(completed(memory, ret, size)) == size,
{
    let after = completed(memory, ret, size);
    lemma_byte_widths();
    lemma_code_of_injective(ret, ret);
    lemma_bytes_of_len(ByteOrder::Little, code_of(ret), 4);
    lemma_bytes_of_len(ByteOrder::Little, size as nat, 8);
    lemma_value_of_bytes_of(ByteOrder::Little, code_of(ret), 4);
    lemma_value_of_bytes_of(ByteOrder::Little, size as nat, 8);
    assert(after.subrange(RX_SIZE as int, RX_SIZE + 8) =~= le_bytes(size as nat, 8));
    assert(after.subrange(RETURN_CODE as int, RETURN_CODE + 4) =~= le_bytes(code_of(ret), 4));
}

/// After the driver's reply, the return code and the length of the response
/// read as the driver reported them, the response buffer shows what the driver
/// left there, and nothing else has changed.
pub proof fn law_reply_reaches_guest(
    memory: Seq<u8>,
    rx: Seq<u8>,
    reply: HostReply,
    code: i32,
    from: int,
    len: nat,
)
    requires
        memory.len() == PROTOCOL_SIZE,
        rx.len() <= MESSAGE_SIZE,
        0 <= from,
        from + len <= RX_BUFFER || RX_BUFFER + rx.len() <= from,
        from + len <= RX_SIZE || from >= RETURN_CODE + 4,
    ensures
        code_of(code) == le_value(
            shown(answered(memory, rx, Some(reply)), RETURN_CODE as int, 4),
        ) <==> code == reply.ret,
        announced_rx(answered(memory, rx, Some(reply))) == reply.size,
        shown(answered(memory, rx, Some(reply)), RX_BUFFER as int, rx.len()) == rx,
        shown(answered(memory, rx, Some(reply)), from, len) == shown(memory, from, len),
{
    let filled = spliced(memory, RX_BUFFER as int, rx);
    lemma_completed(filled, reply.ret, reply.size);
    lemma_code_of_injective(code, reply.ret);
    lemma_bytes_of_len(ByteOrder::Little, code_of(reply.ret), 4);
    lemma_bytes_of_len(ByteOrder::Little, reply.size as nat, 8);
    assert(shown(answered(memory, rx, Some(reply)), RX_BUFFER as int, rx.len()) =~= rx);
    assert(shown(answered(memory, rx, Some(reply)), from, len) =~= shown(memory, from, len));
}

/// A guest that writes its request and the two lengths, in this order, and then
/// the request's number has just that request forwarded: the bytes are those it
/// wrote, the number is the one it sent, and the response may be as long as it
/// allowed.
pub proof fn law_guest_request_is_forwarded(
    memory: Seq<u8>,
    tx: Seq<u8>,
    capacity: nat,
    mrq: u32,
    request: ProxyRequest,
)
    requires
        memory.len() == PROTOCOL_SIZE,
        tx.len() <= MESSAGE_SIZE,
        capacity <= MESSAGE_SIZE,
    ensures
        ({
            let a = spliced(memory, TX_BUFFER as int, tx);
            let b = spliced(a, TX_SIZE as int, le_bytes(tx.len(), 8));
            let c = spliced(b, RX_SIZE as int, le_bytes(capacity, 8));
            &&& sizes_fit(c)
            &&& is_announced_request(c, le_bytes(mrq as nat, 4), request) ==> {
                &&& request.selector == mrq
                &&& request.tx@ == tx
                &&& request.rx@.len() == capacity
            }
        }),
{
    let a = spliced(memory, TX_BUFFER as int, tx);
    let b = spliced(a, TX_SIZE as int, le_bytes(tx.len(), 8));
    let c = spliced(b, RX_SIZE as int, le_bytes(capacity, 8));
    lemma_byte_widths();
    lemma_bytes_of_len(ByteOrder::Little, tx.len(), 8);
    lemma_bytes_of_len(ByteOrder::Little, capacity, 8);
    lemma_bytes_of_len(ByteOrder::Little, mrq as nat, 4);
    lemma_value_of_bytes_of(ByteOrder::Little, tx.len(), 8);
    lemma_value_of_bytes_of(ByteOrder::Little, capacity, 8);
    lemma_value_of_bytes_of(ByteOrder::Little, mrq as nat, 4);
    assert(le_bytes(mrq as nat, 4).take(4) =~= le_bytes(mrq as nat, 4));
    assert(c.subrange(TX_SIZE as int, TX_SIZE + 8) =~= le_bytes(tx.len(), 8));
    assert(c.subrange(RX_SIZE as int, RX_SIZE + 8) =~= le_bytes(capacity, 8));
    assert(c.subrange(TX_BUFFER as int, TX_BUFFER + tx.len()) =~= tx);
}

} // verus!
