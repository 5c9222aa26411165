//! The bridge to the host's DCE proxy driver.
//!
//! As with the BPMP bridge, the guest fills a request into a window and sends
//! it by a write to a doorbell register. Beyond that the host sends events of
//! its own: the bridge puts an event's header into registers, its bytes into a
//! payload buffer, and waits for the guest to acknowledge the event's number.
//!
//! The payload buffer is memory that the guest maps as well. The bridge says
//! which stretch of it to read or write; the caller does so.

use crate::bus::{checked_range, BusAccessInfo, PlatformDeviceId};
use crate::bytes::{
    clear, code_of, i32_bytes, le_bytes, le_value, lemma_byte_widths, lemma_bytes_of_len,
    lemma_code_of_injective, lemma_value_of_bytes_of, spliced, store, u32_at,
    u32_bytes, u64_at, u64_bytes, zeros, ByteOrder,
};
use crate::error::ErrorKind;
use crate::platform::{eio, eio_number};
use crate::proxy::{HostReply, ProxyRequest, SizeExceeded};
use vstd::prelude::*;
use vstd::slice::slice_to_vec;

verus! {

pub const NVIDIA_DCE_MMIO_BASE: u64 = 0x090e_0000;

pub const NVIDIA_DCE_MMIO_SIZE: u64 = 0x1_0000;

/// Where the payload buffer is on the bus: `EVENT_BUFFER` bytes into the
/// device.
pub const NVIDIA_DCE_EVENT_PAYLOAD_BASE: u64 = 0x090e_4000;

/// How long the payload buffer is: `EVENT_MAX` bytes.
pub const NVIDIA_DCE_EVENT_PAYLOAD_SIZE: u64 = 0x1000;

/// Where the guest puts its request.
pub const TX_BUFFER: usize = 0x0000;

/// Where the guest finds the response.
pub const RX_BUFFER: usize = 0x1000;

/// The length of the request.
pub const TX_SIZE: usize = 0x2000;

/// The length that the response may have, and then the length that it has.
pub const RX_SIZE: usize = 0x2008;

/// The driver's return code.
pub const RETURN_CODE: usize = 0x2010;

/// The number of the interface that the request is for.
pub const INTERFACE: usize = 0x2018;

/// A write here sends the request.
pub const DOORBELL: usize = 0x2100;

/// The number of the last event.
pub const EVENT_SEQUENCE: usize = 0x3000;

/// The number of the interface that the last event is from.
pub const EVENT_INTERFACE: usize = 0x3004;

/// The length of the last event's payload.
pub const EVENT_SIZE: usize = 0x3008;

/// Where the guest acknowledges an event, by its number.
pub const EVENT_ACK: usize = 0x300c;

/// Where the payload buffer starts; what stands before it are the registers.
pub const EVENT_BUFFER: usize = 0x4000;

/// The greatest length of an event's payload.
pub const EVENT_MAX: usize = 0x1000;

/// The length of the window.
pub const PROTOCOL_SIZE: usize = 0x5000;

/// The greatest length of a request or a response.
pub const MAX_PAYLOAD: usize = 0x1000;

/// An event of the host: the interface that it is from, and its payload, which
/// is the first `size` bytes of `data`.
#[derive(Clone, Copy, Debug)]
pub struct DceHostEvent {
    pub interface: u32,
    pub size: u32,
    pub data: [u8; EVENT_MAX],
}

impl DceHostEvent {
    /// The event's payload.
    pub fn payload(&self) -> (bytes: &[u8])
        requires
            self.size <= EVENT_MAX,
        ensures
            bytes@ == self.data@.take(self.size as int),
    {
        &self.data[0..self.size as usize]
    }
}

/// What an access meets.
pub enum Place {
    /// Nothing: it leaves the window, or crosses into the payload buffer.
    Nowhere,
    /// The payload buffer, from this byte of it on.
    Payload(int),
    /// The registers, from this byte of the window on.
    Registers(int),
}

/// What an access of `len` bytes at `offset` meets.
pub open spec fn place(offset: int, len: nat) -> Place {
    if offset + len > PROTOCOL_SIZE {
        Place::Nowhere
    } else if offset >= EVENT_BUFFER {
        Place::Payload(offset - EVENT_BUFFER)
    } else if offset + len <= EVENT_BUFFER {
        Place::Registers(offset)
    } else {
        Place::Nowhere
    }
}

/// The bridge's state: its registers, the number of the last event, the last
/// number that the guest acknowledged in time, and how far the thread that
/// takes the host's events has come.
#[verifier::ext_equal]
pub struct DceView {
    pub control: Seq<u8>,
    pub sequence: u32,
    pub acknowledged: u32,
    pub event_source: bool,
    pub event_thread: bool,
}

/// The length of the request that `control` announces.
pub open spec fn announced_tx(control: Seq<u8>) -> nat {
    le_value(control.subrange(TX_SIZE as int, TX_SIZE + 8))
}

/// The length that `control` allows the response.
pub open spec fn announced_rx(control: Seq<u8>) -> nat {
    le_value(control.subrange(RX_SIZE as int, RX_SIZE + 8))
}

/// Whether the lengths that `control` announces fit the buffers.
pub open spec fn sizes_fit(control: Seq<u8>) -> bool {
    announced_tx(control) <= MAX_PAYLOAD && announced_rx(control) <= MAX_PAYLOAD
}

/// The interface that `control` names.
pub open spec fn named_interface(control: Seq<u8>) -> nat {
    le_value(control.subrange(INTERFACE as int, INTERFACE + 4))
}

/// Whether `request` is the one that `control` announces.
pub open spec fn is_announced_request(control: Seq<u8>, request: ProxyRequest) -> bool {
    &&& request.selector == named_interface(control)
    &&& request.tx@ == control.subrange(TX_BUFFER as int, TX_BUFFER + announced_tx(control))
    &&& request.rx@ == control.subrange(RX_BUFFER as int, RX_BUFFER + announced_rx(control))
}

/// `control` with a return code and the length of a response in place.
pub open spec fn completed(control: Seq<u8>, ret: i32, size: u64) -> Seq<u8> {
    spliced(
        spliced(control, RETURN_CODE as int, le_bytes(code_of(ret), 4)),
        RX_SIZE as int,
        le_bytes(size as nat, 8),
    )
}

/// `control` after a request that was refused or that failed.
pub open spec fn failed(control: Seq<u8>) -> Seq<u8> {
    completed(control, (-eio_number()) as i32, 0)
}

/// `control` after a request was forwarded: the driver left `rx` in the
/// response buffer and made its report, or none where the transfer failed.
pub open spec fn answered(control: Seq<u8>, rx: Seq<u8>, reply: Option<HostReply>) -> Seq<u8> {
    match reply {
        Some(reply) => completed(spliced(control, RX_BUFFER as int, rx), reply.ret, reply.size),
        None => failed(spliced(control, RX_BUFFER as int, rx)),
    }
}

/// The number of the event after the one with number `sequence`. No event has
/// the number 0.
pub open spec fn next_sequence(sequence: u32) -> u32 {
    if sequence == u32::MAX {
        1
    } else {
        (sequence + 1) as u32
    }
}

/// The state after the header of an event of `size` bytes from `interface` was
/// published.
pub open spec fn published(device: DceView, interface: u32, size: u32) -> DceView {
    let sequence = next_sequence(device.sequence);
    DceView {
        control: spliced(
            spliced(
                spliced(
                    device.control,
                    EVENT_INTERFACE as int,
                    le_bytes(interface as nat, 4),
                ),
                EVENT_SIZE as int,
                le_bytes(size as nat, 4),
            ),
            EVENT_SEQUENCE as int,
            le_bytes(sequence as nat, 4),
        ),
        sequence,
        ..device
    }
}

/// The number that stands in the acknowledge register.
pub open spec fn acknowledgement(control: Seq<u8>) -> nat {
    le_value(control.subrange(EVENT_ACK as int, EVENT_ACK + 4))
}

/// The state after the guest wrote `data` to the registers at `offset`, which
/// is not the doorbell: the bytes are in place, and a write that starts at the
/// acknowledge register acknowledges the last event where it leaves that
/// event's number there.
pub open spec fn stored(device: DceView, offset: int, data: Seq<u8>) -> DceView {
    let control = spliced(device.control, offset, data);
    DceView {
        control,
        acknowledged: if offset == EVENT_ACK && acknowledgement(control) == device.sequence {
            device.sequence
        } else {
            device.acknowledged
        },
        ..device
    }
}

/// Whether the thread that takes the host's events may be started.
pub open spec fn start_outcome(device: DceView) -> Result<(), StartError> {
    if device.event_thread {
        Err(StartError::AlreadyRunning)
    } else if !device.event_source {
        Err(StartError::Unavailable)
    } else {
        Ok(())
    }
}

/// The state after that thread was asked for: where it may be started, it takes
/// the source of events.
pub open spec fn start_requested(device: DceView) -> DceView {
    match start_outcome(device) {
        Ok(_) => DceView { event_source: false, ..device },
        Err(_) => device,
    }
}

/// The state after that thread was made, or could not be made.
pub open spec fn thread_noted(device: DceView, spawned: bool) -> DceView {
    DceView { event_thread: device.event_thread || spawned, ..device }
}

/// What is left to do after a read of the guest.
#[derive(Clone, Copy, Debug, PartialEq, Eq, Structural)]
pub enum DceRead {
    /// Nothing: the bytes are in place.
    Done,
    /// The bytes are to come from the payload buffer, from `start` on.
    Payload { start: usize },
}

/// What a write of the guest leads to.
#[derive(Debug)]
pub enum DceWrite {
    /// The write met nothing and was dropped.
    Nowhere,
    /// The bytes are to go into the payload buffer, from `start` on.
    Payload { start: usize },
    /// The bytes are in the registers.
    Stored,
    /// The bytes are in the registers and acknowledge the last event: whoever
    /// waits for that is to be woken.
    Acknowledged,
    /// A request was sent whose lengths do not fit; it has been answered.
    Refused(SizeExceeded),
    /// A request was sent and is to be forwarded to the host.
    Forward(ProxyRequest),
}

/// Why the thread that takes the host's events cannot be started.
#[derive(Clone, Copy, Debug, PartialEq, Eq, Structural)]
pub enum StartError {
    AlreadyRunning,
    Unavailable,
}

impl StartError {
    /// The kind of this error.
    pub fn kind(&self) -> (kind: ErrorKind)
        ensures
            kind == (match *self {
                StartError::AlreadyRunning => ErrorKind::AlreadyExists,
                StartError::Unavailable => ErrorKind::NotFound,
            }),
    {
        match self {
            StartError::AlreadyRunning => ErrorKind::AlreadyExists,
            StartError::Unavailable => ErrorKind::NotFound,
        }
    }

    /// What this error says.
    pub fn message(&self) -> (text: String)
        ensures
            text@ == (match *self {
                StartError::AlreadyRunning => "DCE event thread is already running"@,
                StartError::Unavailable => "DCE event backend is unavailable"@,
            }),
    {
        match self {
            StartError::AlreadyRunning => "DCE event thread is already running".to_owned(),
            StartError::Unavailable => "DCE event backend is unavailable".to_owned(),
        }
    }
}

/// The bridge to the host's DCE driver.
pub struct NvidiaDceHost {
    control: [u8; EVENT_BUFFER],
    sequence: u32,
    acknowledged: u32,
    event_source: bool,
    event_thread: bool,
}

impl View for NvidiaDceHost {
    type V = DceView;

    closed spec fn view(&self) -> DceView {
        DceView {
            control: self.control@,
            sequence: self.sequence,
            acknowledged: self.acknowledged,
            event_source: self.event_source,
            event_thread: self.event_thread,
        }
    }
}

impl NvidiaDceHost {
    /// The registers never change their length.
    pub proof fn lemma_registers_len(&self)
        ensures
            self@.control.len() == EVENT_BUFFER,
    {
    }

    /// A bridge whose registers are all zeros, before the first event.
    /// `event_source` tells whether there is a source of events.
    pub fn new_with_backend(event_source: bool) -> (device: Self)
        ensures
            device@ == (DceView {
                control: zeros(EVENT_BUFFER as nat),
                sequence: 0,
                acknowledged: 0,
                event_source,
                event_thread: false,
            }),
    {
        let device = NvidiaDceHost {
            control: [0; EVENT_BUFFER],
            sequence: 0,
            acknowledged: 0,
            event_source,
            event_thread: false,
        };
        assert(device.control@ =~= zeros(EVENT_BUFFER as nat));
        device
    }

    /// A bridge to a host driver, which is a source of events.
    pub fn new() -> (device: Self)
        ensures
            device@ == (DceView {
                control: zeros(EVENT_BUFFER as nat),
                sequence: 0,
                acknowledged: 0,
                event_source: true,
                event_thread: false,
            }),
    {
        Self::new_with_backend(true)
    }

    /// Whether the thread that takes the host's events may be started now; if
    /// so, the source of events is taken for it.
    pub fn start_event_thread(&mut self) -> (r: Result<(), StartError>)
        ensures
            r == start_outcome(old(self)@),
            final(self)@ == start_requested(old(self)@),
    {
        if self.event_thread {
            return Err(StartError::AlreadyRunning);
        }
        if !self.event_source {
            return Err(StartError::Unavailable);
        }
        self.event_source = false;
        Ok(())
    }

    /// Notes whether the thread that takes the host's events could be made.
    pub fn event_thread_spawned(&mut self, spawned: bool)
        ensures
            final(self)@ == thread_noted(old(self)@, spawned),
    {
        if spawned {
            self.event_thread = true;
        }
    }

    /// The stretch that an access meets, where it ends by `limit`.
    pub fn range(offset: u64, len: usize, limit: usize) -> (r: Option<core::ops::Range<usize>>)
        ensures
            r is Some <==> offset + len <= limit,
            r matches Some(range) ==> range.start == offset && range.end == offset + len,
    {
        checked_range(offset, len, limit)
    }

    /// The number in the eight bytes at `offset`.
    pub fn read_u64(&self, offset: usize) -> (v: u64)
        requires
            offset + 8 <= EVENT_BUFFER,
        ensures
            v == le_value(self@.control.subrange(offset as int, offset + 8)),
    {
        u64_at(ByteOrder::Little, &self.control, offset)
    }

    fn complete(&mut self, ret: i32, size: u64)
        ensures
            final(self)@ == (DceView {
                control: completed(old(self)@.control, ret, size),
                ..old(self)@
            }),
    {
        let code = i32_bytes(ByteOrder::Little, ret);
        store(&mut self.control, RETURN_CODE, &code);
        let length = u64_bytes(ByteOrder::Little, size);
        store(&mut self.control, RX_SIZE, &length);
    }

    /// Reports to the guest that its request failed.
    pub fn complete_with_error(&mut self)
        ensures
            final(self)@ == (DceView { control: failed(old(self)@.control), ..old(self)@ }),
    {
        self.complete(-eio(), 0);
    }

    /// Takes up the request that the registers announce: gives it out to be
    /// forwarded, or answers it with an error where its lengths do not fit.
    pub fn transfer(&mut self) -> (r: Result<ProxyRequest, SizeExceeded>)
        ensures
            match r {
                Ok(request) => {
                    &&& sizes_fit(old(self)@.control)
                    &&& is_announced_request(old(self)@.control, request)
                    &&& final(self)@ == old(self)@
                },
                Err(e) => {
                    &&& !sizes_fit(old(self)@.control)
                    &&& e.tx_size == announced_tx(old(self)@.control)
                    &&& e.rx_size == announced_rx(old(self)@.control)
                    &&& final(self)@ == (DceView {
                        control: failed(old(self)@.control),
                        ..old(self)@
                    })
                },
            },
    {
        let tx_size: u64 = self.read_u64(TX_SIZE);
        let rx_size: u64 = self.read_u64(RX_SIZE);
        if tx_size > MAX_PAYLOAD as u64 || rx_size > MAX_PAYLOAD as u64 {
            self.complete_with_error();
            return Err(SizeExceeded { tx_size, rx_size });
        }
        let interface: u32 = u32_at(ByteOrder::Little, &self.control, INTERFACE);
        let tx = &self.control[TX_BUFFER..TX_BUFFER + tx_size as usize];
        let rx = &self.control[RX_BUFFER..RX_BUFFER + rx_size as usize];
        Ok(ProxyRequest { selector: interface, tx: slice_to_vec(tx), rx: slice_to_vec(rx) })
    }

    /// Ends a request that was forwarded. `rx` is the response buffer that came
    /// with the request, as the driver left it; `reply` is the driver's report,
    /// or none where the transfer failed.
    pub fn finish_transfer(&mut self, rx: &[u8], reply: Option<HostReply>)
        requires
            rx@.len() <= MAX_PAYLOAD,
        ensures
            final(self)@ == (DceView {
                control: answered(old(self)@.control, rx@, reply),
                ..old(self)@
            }),
    {
        store(&mut self.control, RX_BUFFER, rx);
        match reply {
            Some(reply) => self.complete(reply.ret, reply.size),
            None => self.complete_with_error(),
        }
    }

    /// The name under which the device shows up in diagnostics.
    pub fn debug_label(&self) -> (label: String)
        ensures
            label@ == "nvidia-dce-host"@,
    {
        "nvidia-dce-host".to_owned()
    }

    /// Which platform device this is.
    pub fn device_id(&self) -> (id: PlatformDeviceId)
        ensures
            id == PlatformDeviceId::NvidiaDceHost,
    {
        PlatformDeviceId::NvidiaDceHost
    }

    /// Serves a read of the guest as far as the registers go. Where the read
    /// meets the payload buffer, `data` is left as it is; the caller fills it
    /// from there and hands it to `finish_payload_read`.
    pub fn read(&self, info: BusAccessInfo, data: &mut [u8]) -> (r: DceRead)
        ensures
            match place(info.offset as int, old(data)@.len()) {
                Place::Nowhere => {
                    &&& r == DceRead::Done
                    &&& final(data)@ == zeros(old(data)@.len())
                },
                Place::Payload(start) => {
                    &&& r matches DceRead::Payload { start: s } && s == start
                    &&& final(data)@ == old(data)@
                },
                Place::Registers(start) => {
                    &&& r == DceRead::Done
                    &&& final(data)@ == self@.control.subrange(start, start + old(data)@.len())
                },
            },
    {
        let len: usize = data.len();
        if Self::range(info.offset, len, PROTOCOL_SIZE).is_none() {
            clear(data);
            return DceRead::Done;
        }
        if info.offset >= EVENT_BUFFER as u64 {
            return match Self::range(info.offset - EVENT_BUFFER as u64, len, EVENT_MAX) {
                None => {
                    clear(data);
                    DceRead::Done
                },
                Some(range) => DceRead::Payload { start: range.start },
            };
        }
        match Self::range(info.offset, len, EVENT_BUFFER) {
            None => {
                clear(data);
                DceRead::Done
            },
            Some(range) => {
                store(data, 0, &self.control[range.start..range.end]);
                assert(data@ =~= self@.control.subrange(info.offset as int, info.offset + len));
                DceRead::Done
            },
        }
    }

    /// Ends a read that met the payload buffer: `data` stays as it was filled,
    /// or shows zeros where the payload buffer could not be read.
    pub fn finish_payload_read(data: &mut [u8], filled: bool)
        ensures
            final(data)@ == (if filled {
                old(data)@
            } else {
                zeros(old(data)@.len())
            }),
    {
        if !filled {
            clear(data);
        }
    }

    /// Serves a write of the guest.
    pub fn write(&mut self, info: BusAccessInfo, data: &[u8]) -> (r: DceWrite)
        ensures
            match place(info.offset as int, data@.len()) {
                Place::Nowhere => r is Nowhere && final(self)@ == old(self)@,
                Place::Payload(start) => {
                    &&& r matches DceWrite::Payload { start: s } && s == start
                    &&& final(self)@ == old(self)@
                },
                Place::Registers(start) => if start == DOORBELL {
                    match r {
                        DceWrite::Forward(request) => {
                            &&& sizes_fit(old(self)@.control)
                            &&& is_announced_request(old(self)@.control, request)
                            &&& final(self)@ == old(self)@
                        },
                        DceWrite::Refused(e) => {
                            &&& !sizes_fit(old(self)@.control)
                            &&& e.tx_size == announced_tx(old(self)@.control)
                            &&& e.rx_size == announced_rx(old(self)@.control)
                            &&& final(self)@ == (DceView {
                                control: failed(old(self)@.control),
                                ..old(self)@
                            })
                        },
                        _ => false,
                    }
                } else {
                    &&& final(self)@ == stored(old(self)@, start, data@)
                    &&& r is Stored || r is Acknowledged
                    &&& r is Acknowledged <==> start == EVENT_ACK && acknowledgement(
                        final(self)@.control,
                    ) == old(self)@.sequence
                },
            },
    {
        let len: usize = data.len();
        if Self::range(info.offset, len, PROTOCOL_SIZE).is_none() {
            return DceWrite::Nowhere;
        }
        if info.offset >= EVENT_BUFFER as u64 {
            return match Self::range(info.offset - EVENT_BUFFER as u64, len, EVENT_MAX) {
                None => DceWrite::Nowhere,
                Some(range) => DceWrite::Payload { start: range.start },
            };
        }
        let range = match Self::range(info.offset, len, EVENT_BUFFER) {
            None => return DceWrite::Nowhere,
            Some(range) => range,
        };
        if range.start == DOORBELL {
            return match self.transfer() {
                Ok(request) => DceWrite::Forward(request),
                Err(e) => DceWrite::Refused(e),
            };
        }
        store(&mut self.control, range.start, data);
        if range.start == EVENT_ACK {
            let ack: u32 = u32_at(ByteOrder::Little, &self.control, EVENT_ACK);
            if ack == self.sequence {
                self.acknowledged = ack;
                return DceWrite::Acknowledged;
            }
        }
        DceWrite::Stored
    }

    /// Publishes the header of an event whose payload is in place, and gives
    /// its number.
    pub fn publish_event(&mut self, event: &DceHostEvent) -> (sequence: u32)
        ensures
            final(self)@ == published(old(self)@, event.interface, event.size),
            sequence == final(self)@.sequence,
    {
        let from = u32_bytes(ByteOrder::Little, event.interface);
        store(&mut self.control, EVENT_INTERFACE, &from);
        let length = u32_bytes(ByteOrder::Little, event.size);
        store(&mut self.control, EVENT_SIZE, &length);
        let next: u32 = self.sequence.wrapping_add(1);
        self.sequence = if next < 1 {
            1
        } else {
            next
        };
        let number = u32_bytes(ByteOrder::Little, self.sequence);
        store(&mut self.control, EVENT_SEQUENCE, &number);
        self.sequence
    }

    /// The number of the last event.
    pub fn sequence(&self) -> (sequence: u32)
        ensures
            sequence == self@.sequence,
    {
        self.sequence
    }

    /// The last number that the guest acknowledged in time.
    pub fn acknowledged(&self) -> (acknowledged: u32)
        ensures
            acknowledged == self@.acknowledged,
    {
        self.acknowledged
    }
}

proof fn lemma_completed(control: Seq<u8>, ret: i32, size: u64)
    requires
        control.len() == EVENT_BUFFER,
    ensures
        completed(control, ret, size).len() == EVENT_BUFFER,
        le_value(completed(control, ret, size).subrange(RETURN_CODE as int, RETURN_CODE + 4))
            == code_of(ret),
        announced_rx(completed(control, ret, size)) == size,
{
    let after = completed(control, ret, size);
    lemma_byte_widths();
    lemma_code_of_injective(ret, ret);
    lemma_bytes_of_len(ByteOrder::Little, code_of(ret), 4);
    lemma_bytes_of_len(ByteOrder::Little, size as nat, 8);
    lemma_value_of_bytes_of(ByteOrder::Little, code_of(ret), 4);
    lemma_value_of_bytes_of(ByteOrder::Little, size as nat, 8);
    assert(after.subrange(RX_SIZE as int, RX_SIZE + 8) =~= le_bytes(size as nat, 8));
    assert(after.subrange(RETURN_CODE as int, RETURN_CODE + 4) =~= le_bytes(code_of(ret), 4));
}

/// A write to the registers that sends no request is shown by a read of the
/// same stretch, and no other stretch changes.
pub proof fn law_write_then_read(
    device: DceView,
    offset: int,
    data: Seq<u8>,
    from: int,
    to: int,
)
    requires
        device.control.len() == EVENT_BUFFER,
        0 <= offset,
        place(offset, data.len()) == Place::Registers(offset),
        0 <= from <= to <= EVENT_BUFFER,
        to <= offset || offset + data.len() <= from,
    ensures
        stored(device, offset, data).control.subrange(offset, offset + data.len()) == data,
        stored(device, offset, data).control.subrange(from, to) == device.control.subrange(
            from,
            to,
        ),
        stored(device, offset, data).sequence == device.sequence,
{
    let after = stored(device, offset, data).control;
    assert(after.subrange(offset, offset + data.len()) =~= data);
    assert(after.subrange(from, to) =~= device.control.subrange(from, to));
}

/// After a request was refused or failed, the return code reads as the negated
/// number of an I/O error, the length of the response as 0, and nothing else
/// has changed.
pub proof fn law_failure_is_reported(control: Seq<u8>, code: i32, from: int, to: int)
    requires
        control.len() == EVENT_BUFFER,
        0 <= from <= to <= EVENT_BUFFER,
        to <= RX_SIZE || from >= RETURN_CODE + 4,
    ensures
        code_of(code) == le_value(failed(control).subrange(RETURN_CODE as int, RETURN_CODE + 4))
            <==> code == -eio_number(),
        announced_rx(failed(control)) == 0,
        failed(control).subrange(from, to) == control.subrange(from, to),
{
    let ret = (-eio_number()) as i32;
    lemma_completed(control, ret, 0);
    lemma_code_of_injective(code, ret);
    lemma_bytes_of_len(ByteOrder::Little, code_of(ret), 4);
    lemma_bytes_of_len(ByteOrder::Little, 0, 8);
    assert(failed(control).subrange(from, to) =~= control.subrange(from, to));
}

/// After the driver's reply, the return code and the length of the response
/// read as the driver reported them, the response buffer shows what the driver
/// left there, and nothing else has changed.
pub proof fn law_reply_reaches_guest(
    control: Seq<u8>,
    rx: Seq<u8>,
    reply: HostReply,
    code: i32,
    from: int,
    to: int,
)
    requires
        control.len() == EVENT_BUFFER,
        rx.len() <= MAX_PAYLOAD,
        0 <= from <= to <= EVENT_BUFFER,
        to <= RX_BUFFER || RX_BUFFER + rx.len() <= from,
        to <= RX_SIZE || from >= RETURN_CODE + 4,
    ensures
        ({
            let after = answered(control, rx, Some(reply));
            &&& code_of(code) == le_value(after.subrange(RETURN_CODE as int, RETURN_CODE + 4))
                <==> code == reply.ret
            &&& announced_rx(after) == reply.size
            &&& after.subrange(RX_BUFFER as int, RX_BUFFER + rx.len()) == rx
            &&& after.subrange(from, to) == control.subrange(from, to)
        }),
{
    let filled = spliced(control, RX_BUFFER as int, rx);
    let after = answered(control, rx, Some(reply));
    lemma_completed(filled, reply.ret, reply.size);
    lemma_code_of_injective(code, reply.ret);
    lemma_bytes_of_len(ByteOrder::Little, code_of(reply.ret), 4);
    lemma_bytes_of_len(ByteOrder::Little, reply.size as nat, 8);
    assert(after.subrange(RX_BUFFER as int, RX_BUFFER + rx.len()) =~= rx);
    assert(after.subrange(from, to) =~= control.subrange(from, to));
}

/// A guest that writes its request, the two lengths and the interface, in this
/// order, has announced just that request: the bytes are those it wrote, the
/// interface is the one it named, and the response may be as long as it allowed.
pub proof fn law_guest_request_is_forwarded(
    control: Seq<u8>,
    tx: Seq<u8>,
    capacity: nat,
    interface: u32,
    request: ProxyRequest,
)
    requires
        control.len() == EVENT_BUFFER,
        tx.len() <= MAX_PAYLOAD,
        capacity <= MAX_PAYLOAD,
    ensures
        ({
            let a = spliced(control, TX_BUFFER as int, tx);
            let b = spliced(a, TX_SIZE as int, le_bytes(tx.len(), 8));
            let c = spliced(b, RX_SIZE as int, le_bytes(capacity, 8));
            let d = spliced(c, INTERFACE as int, le_bytes(interface as nat, 4));
            &&& sizes_fit(d)
            &&& is_announced_request(d, request) ==> {
                &&& request.selector == interface
                &&& request.tx@ == tx
                &&& request.rx@.len() == capacity
            }
        }),
{
    let a = spliced(control, TX_BUFFER as int, tx);
    let b = spliced(a, TX_SIZE as int, le_bytes(tx.len(), 8));
    let c = spliced(b, RX_SIZE as int, le_bytes(capacity, 8));
    let d = spliced(c, INTERFACE as int, le_bytes(interface as nat, 4));
    lemma_byte_widths();
    lemma_bytes_of_len(ByteOrder::Little, tx.len(), 8);
    lemma_bytes_of_len(ByteOrder::Little, capacity, 8);
    lemma_bytes_of_len(ByteOrder::Little, interface as nat, 4);
    lemma_value_of_bytes_of(ByteOrder::Little, tx.len(), 8);
    lemma_value_of_bytes_of(ByteOrder::Little, capacity, 8);
    lemma_value_of_bytes_of(ByteOrder::Little, interface as nat, 4);
    assert(d.subrange(TX_SIZE as int, TX_SIZE + 8) =~= le_bytes(tx.len(), 8));
    assert(d.subrange(RX_SIZE as int, RX_SIZE + 8) =~= le_bytes(capacity, 8));
    assert(d.subrange(INTERFACE as int, INTERFACE + 4) =~= le_bytes(interface as nat, 4));
    assert(d.subrange(TX_BUFFER as int, TX_BUFFER + tx.len()) =~= tx);
}

/// A published event shows in the registers: its interface, its length and its
/// number. The number is not 0 and not that of the event before, so an event
/// is not taken for acknowledged because the one before was. No other register
/// changes.
pub proof fn law_published_event_is_shown(
    device: DceView,
    interface: u32,
    size: u32,
    from: int,
    to: int,
)
    requires
        device.control.len() == EVENT_BUFFER,
        0 <= from <= to <= EVENT_BUFFER,
        to <= EVENT_SEQUENCE || from >= EVENT_SIZE + 4,
    ensures
        ({
            let after = published(device, interface, size);
            &&& le_value(after.control.subrange(EVENT_INTERFACE as int, EVENT_INTERFACE + 4))
                == interface
            &&& le_value(after.control.subrange(EVENT_SIZE as int, EVENT_SIZE + 4)) == size
            &&& le_value(after.control.subrange(EVENT_SEQUENCE as int, EVENT_SEQUENCE + 4))
                == after.sequence
            &&& after.sequence != 0
            &&& after.sequence != device.sequence
            &&& device.acknowledged == device.sequence ==> after.acknowledged != after.sequence
            &&& after.control.subrange(from, to) == device.control.subrange(from, to)
        }),
{
    let after = published(device, interface, size);
    let control = after.control;
    lemma_byte_widths();
    lemma_bytes_of_len(ByteOrder::Little, interface as nat, 4);
    lemma_bytes_of_len(ByteOrder::Little, size as nat, 4);
    lemma_bytes_of_len(ByteOrder::Little, after.sequence as nat, 4);
    lemma_value_of_bytes_of(ByteOrder::Little, interface as nat, 4);
    lemma_value_of_bytes_of(ByteOrder::Little, size as nat, 4);
    lemma_value_of_bytes_of(ByteOrder::Little, after.sequence as nat, 4);
    assert(control.subrange(EVENT_INTERFACE as int, EVENT_INTERFACE + 4) =~= le_bytes(
        interface as nat,
        4,
    ));
    assert(control.subrange(EVENT_SIZE as int, EVENT_SIZE + 4) =~= le_bytes(size as nat, 4));
    assert(control.subrange(EVENT_SEQUENCE as int, EVENT_SEQUENCE + 4) =~= le_bytes(
        after.sequence as nat,
        4,
    ));
    assert(control.subrange(from, to) =~= device.control.subrange(from, to));
}

/// A guest that writes an event's number to the acknowledge register
/// acknowledges the event, if and only if it is the last one.
pub proof fn law_acknowledge(device: DceView, number: u32)
    requires
        device.control.len() == EVENT_BUFFER,
    ensures
        place(EVENT_ACK as int, 4) == Place::Registers(EVENT_ACK as int),
        acknowledgement(stored(device, EVENT_ACK as int, le_bytes(number as nat, 4)).control)
            == number,
        stored(device, EVENT_ACK as int, le_bytes(number as nat, 4)).acknowledged == (if number
            == device.sequence {
            number
        } else {
            device.acknowledged
        }),
{
    let after = spliced(device.control, EVENT_ACK as int, le_bytes(number as nat, 4));
    lemma_byte_widths();
    lemma_bytes_of_len(ByteOrder::Little, number as nat, 4);
    lemma_value_of_bytes_of(ByteOrder::Little, number as nat, 4);
    assert(after.subrange(EVENT_ACK as int, EVENT_ACK + 4) =~= le_bytes(number as nat, 4));
}

/// The payload of an event that was put at the start of the payload buffer is
/// what reads of the window from `EVENT_BUFFER` on are sent to.
pub proof fn law_payload_is_shown(buffer: Seq<u8>, event: DceHostEvent, from: int, len: nat)
    requires
        buffer.len() == EVENT_MAX,
        event.size <= EVENT_MAX,
        0 <= from,
        from + len <= event.size,
    ensures
        place(EVENT_BUFFER + from, len) == Place::Payload(from),
        spliced(buffer, 0, event.data@.take(event.size as int)).subrange(from, from + len)
            == event.data@.subrange(from, from + len),
{
    assert(spliced(buffer, 0, event.data@.take(event.size as int)).subrange(from, from + len)
        =~= event.data@.subrange(from, from + len));
}

/// The thread that takes the host's events starts once at most: where it was
/// started, a second start is refused, as one too many or, if the thread could
/// not be made, for want of a source of events. Neither the guest's writes nor
/// the host's events change that.
pub proof fn law_event_thread_starts_once(
    device: DceView,
    spawned: bool,
    offset: int,
    data: Seq<u8>,
    interface: u32,
    size: u32,
)
    ensures
        start_outcome(device) is Ok ==> start_outcome(
            thread_noted(start_requested(device), spawned),
        ) == (if spawned {
            Err::<(), StartError>(StartError::AlreadyRunning)
        } else {
            Err::<(), StartError>(StartError::Unavailable)
        }),
        start_outcome(stored(device, offset, data)) == start_outcome(device),
        start_outcome(published(device, interface, size)) == start_outcome(device),
{
}

/// The number of the event that comes `k` events after number `sequence`.
pub open spec fn later_sequence(sequence: u32, k: nat) -> u32
    decreases k,
{
    if k == 0 {
        sequence
    } else {
        next_sequence(later_sequence(sequence, (k - 1) as nat))
    }
}

proof fn lemma_later_sequence(sequence: u32, k: nat)
    requires
        sequence != 0,
    ensures
        later_sequence(sequence, k) == (sequence - 1 + k) % 0xffff_ffff + 1,
    decreases k,
{
    if k > 0 {
        lemma_later_sequence(sequence, (k - 1) as nat);
        let a = sequence - 1 + k - 1;
        assert((a + 1) % 0xffff_ffff == (if a % 0xffff_ffff == 0xffff_fffe {
            0
        } else {
            a % 0xffff_ffff + 1
        }));
    }
}

/// Event numbers repeat only after all others have been used: between two
/// events with one number lie at least 2^32 - 2 others.
pub proof fn law_event_numbers_repeat_late(sequence: u32, i: nat, j: nat)
    requires
        sequence != 0,
        i < j,
        later_sequence(sequence, i) == later_sequence(sequence, j),
    ensures
        j - i >= 0xffff_ffff,
{
    lemma_later_sequence(sequence, i);
    lemma_later_sequence(sequence, j);
    let a = sequence - 1 + i;
    let b = sequence - 1 + j;
    assert(a % 0xffff_ffff == b % 0xffff_ffff);
    if b - a < 0xffff_ffff {
        assert(b / 0xffff_ffff == a / 0xffff_ffff || b / 0xffff_ffff == a / 0xffff_ffff + 1);
    }
}

} // verus!
