//! What the guest and the host can rely on at the DCE bridge, in terms of what
//! is written, read and published.

use crate::bus::{BusAccessInfo, PlatformDeviceId};
use crate::bytes::{code_of, le_bytes, lemma_bytes_of_len, spliced, ByteOrder};
use crate::error::ErrorKind;
use crate::nvidia_bpmp::{NVIDIA_BPMP_MMIO_BASE, NVIDIA_BPMP_MMIO_SIZE};
use crate::nvidia_dce::{
    completed, published, DceHostEvent, DceRead, DceView, DceWrite, NvidiaDceHost, StartError,
    NVIDIA_DCE_EVENT_PAYLOAD_BASE, NVIDIA_DCE_EVENT_PAYLOAD_SIZE, NVIDIA_DCE_MMIO_BASE,
    NVIDIA_DCE_MMIO_SIZE,
};
use crate::proxy::{HostReply, ProxyRequest, SizeExceeded};
use crate::words::{
    le_long, le_word, lemma_same_bytes, lemma_signed_code, lemma_words, lemma_written, signed,
};
use vstd::prelude::*;

verus! {

/// A read that stays in the registers, which are the first 0x4000 bytes, shows
/// them byte for byte, wherever it starts. One that stays in the payload buffer,
/// the 0x1000 bytes after them, is sent to the same place of that buffer and
/// leaves `data` alone. Every other read shows zeros.
pub proof fn law_dce_read(
    device: NvidiaDceHost,
    info: BusAccessInfo,
    data: &mut [u8],
    r: DceRead,
    i: int,
)
    requires
        call_ensures(NvidiaDceHost::read, (&device, info, data), r),
    ensures
        final(data)@.len() == old(data)@.len(),
        ({
            let end = info.offset + old(data)@.len();
            let in_data = 0 <= i < old(data)@.len();
            if info.offset >= 0x4000 && end <= 0x5000 {
                &&& r matches DceRead::Payload { start } && start == info.offset - 0x4000
                &&& in_data ==> final(data)@[i] == old(data)@[i]
            } else {
                &&& r is Done
                &&& in_data ==> final(data)@[i] == (if end <= 0x4000 {
                    device@.control[info.offset + i]
                } else {
                    0
                })
            }
        }),
{
    device.lemma_registers_len();
}

/// A read of the payload buffer shows what it was filled with, or zeros where
/// it could not be filled.
pub proof fn law_dce_payload_read(data: &mut [u8], filled: bool, i: int)
    requires
        call_ensures(NvidiaDceHost::finish_payload_read, (data, filled), ()),
        0 <= i < data@.len(),
    ensures
        final(data)@.len() == old(data)@.len(),
        final(data)@[i] == (if filled {
            old(data)@[i]
        } else {
            0
        }),
{
}

/// A new device shows zeros wherever its registers are read. No event has been
/// published or acknowledged, and no thread runs; there is a source of events
/// just where one was given.
pub proof fn law_dce_starts_empty(
    device: NvidiaDceHost,
    other: NvidiaDceHost,
    event_source: bool,
    numbers: Seq<u32>,
    i: int,
)
    requires
        call_ensures(NvidiaDceHost::new, (), device),
        call_ensures(NvidiaDceHost::new_with_backend, (event_source,), other),
        numbers.len() == 4,
        call_ensures(NvidiaDceHost::sequence, (&device,), numbers[0]),
        call_ensures(NvidiaDceHost::acknowledged, (&device,), numbers[1]),
        call_ensures(NvidiaDceHost::sequence, (&other,), numbers[2]),
        call_ensures(NvidiaDceHost::acknowledged, (&other,), numbers[3]),
        0 <= i < 0x4000,
    ensures
        device@.control.len() == 0x4000 && device@.control[i] == 0,
        other@.control.len() == 0x4000 && other@.control[i] == 0,
        numbers[0] == 0 && numbers[1] == 0 && numbers[2] == 0 && numbers[3] == 0,
        !device@.event_thread && !other@.event_thread,
        device@.event_source && other@.event_source == event_source,
{
}

/// Whether nothing but the registers differs between two states.
pub open spec fn differs_in_registers(a: DceView, b: DceView) -> bool {
    &&& a.control.len() == b.control.len()
    &&& a.sequence == b.sequence
    &&& a.acknowledged == b.acknowledged
    &&& a.event_source == b.event_source
    &&& a.event_thread == b.event_thread
}

/// Where a write of the guest goes. One that stays in the payload buffer is sent
/// to the same place of that buffer. One that stays in the registers sends a
/// request where it starts at 0x2100, and is stored where it starts anywhere
/// else. Every other write is dropped, and only what is stored or sent changes
/// the device.
pub proof fn law_dce_write_goes(
    device: &mut NvidiaDceHost,
    info: BusAccessInfo,
    data: &[u8],
    r: DceWrite,
)
    requires
        call_ensures(NvidiaDceHost::write, (device, info, data), r),
    ensures
        ({
            let end = info.offset + data@.len();
            if info.offset >= 0x4000 && end <= 0x5000 {
                &&& r matches DceWrite::Payload { start } && start == info.offset - 0x4000
                &&& final(device)@ == old(device)@
            } else if end > 0x4000 {
                &&& r is Nowhere
                &&& final(device)@ == old(device)@
            } else if info.offset == 0x2100 {
                r is Forward || r is Refused
            } else {
                r is Stored || r is Acknowledged
            }
        }),
{
}

/// What the guest writes anywhere in the registers but at 0x2100 is what any
/// later read shows where it meets it; where it does not, the read shows what it
/// showed before.
pub proof fn law_dce_write_then_read(
    device: &mut NvidiaDceHost,
    info: BusAccessInfo,
    data: &[u8],
    outcome: DceWrite,
    look: BusAccessInfo,
    before: &mut [u8],
    after: &mut [u8],
    reads: Seq<DceRead>,
    i: int,
)
    requires
        info.offset != 0x2100,
        info.offset + data@.len() <= 0x4000,
        look.offset + before@.len() <= 0x4000,
        before@.len() == after@.len(),
        0 <= i < before@.len(),
        reads.len() == 2,
        call_ensures(NvidiaDceHost::read, (&*old(device), look, before), reads[0]),
        call_ensures(NvidiaDceHost::write, (device, info, data), outcome),
        call_ensures(NvidiaDceHost::read, (&*final(device), look, after), reads[1]),
        info.offset < 0x4000,
    ensures
        ({
            let place = look.offset + i - info.offset;
            final(after)@[i] == (if 0 <= place < data@.len() {
                data@[place]
            } else {
                final(before)@[i]
            })
        }),
{
    device.lemma_registers_len();
}

/// A write acknowledges an event if and only if it starts at 0x300c and leaves
/// there the number of the last event. Then, and only then, the acknowledged
/// number becomes that number. No write changes the number of the last event.
pub proof fn law_dce_acknowledge(
    device: &mut NvidiaDceHost,
    info: BusAccessInfo,
    data: &[u8],
    r: DceWrite,
    last: u32,
    before: u32,
    after: u32,
    still_last: u32,
)
    requires
        call_ensures(NvidiaDceHost::write, (device, info, data), r),
        call_ensures(NvidiaDceHost::sequence, (&*old(device),), last),
        call_ensures(NvidiaDceHost::acknowledged, (&*old(device),), before),
        call_ensures(NvidiaDceHost::acknowledged, (&*final(device),), after),
        call_ensures(NvidiaDceHost::sequence, (&*final(device),), still_last),
    ensures
        still_last == last,
        r is Acknowledged <==> info.offset == 0x300c && info.offset + data@.len() <= 0x4000
            && le_word(final(device)@.control, 0x300c) == last,
        after == (if r is Acknowledged {
            last
        } else {
            before
        }),
        info.offset == 0x300c && data@.len() == 4 ==> (r is Acknowledged <==> le_word(data@, 0)
            == last),
        final(device)@.event_source == old(device)@.event_source,
        final(device)@.event_thread == old(device)@.event_thread,
{
    device.lemma_registers_len();
    let control = final(device)@.control;
    if info.offset == 0x300c && info.offset + data@.len() <= 0x4000 {
        lemma_words(control, 0x300c);
        if data@.len() == 4 {
            assert(control.subrange(0x300c, 0x3010) =~= data@);
            lemma_same_bytes(control, 0x300c, data@);
        }
    }
}

/// Whether `request` is the one that stands in the registers: the bytes from 0
/// on, as many as the number at 0x2000 says, the response buffer from 0x1000 on,
/// as long as the number at 0x2008 says, and the interface at 0x2018.
pub open spec fn holds_request(control: Seq<u8>, request: ProxyRequest) -> bool {
    &&& request.selector == le_word(control, 0x2018)
    &&& request.tx@.len() == le_long(control, 0x2000)
    &&& request.rx@.len() == le_long(control, 0x2008)
    &&& forall|i: int| 0 <= i < request.tx@.len() ==> request.tx@[i] == control[i]
    &&& forall|i: int| 0 <= i < request.rx@.len() ==> request.rx@[i] == control[0x1000 + i]
}

/// Whether `after` tells of a failure: the signed number at 0x2010 is that of an
/// I/O error, negated, and the number at 0x2008 is 0. All other bytes are those
/// of `before`.
pub open spec fn tells_failure(before: Seq<u8>, after: Seq<u8>) -> bool {
    &&& after.len() == before.len()
    &&& signed(le_word(after, 0x2010)) == -5
    &&& le_long(after, 0x2008) == 0
    &&& forall|i: int|
        0 <= i < 0x2008 || 0x2014 <= i < before.len() ==> #[trigger] after[i] == before[i]
}

/// Whether a request is taken up as it should be: forwarded, as it stands in
/// the registers and with nothing changed, if and only if both lengths are at
/// most 0x1000; otherwise refused, with the two lengths as the reason, and the
/// guest told of a failure.
pub open spec fn request_taken(
    before: DceView,
    after: DceView,
    r: Result<ProxyRequest, SizeExceeded>,
) -> bool {
    let tx_size = le_long(before.control, 0x2000);
    let rx_size = le_long(before.control, 0x2008);
    if tx_size <= 0x1000 && rx_size <= 0x1000 {
        &&& r matches Ok(request) && holds_request(before.control, request)
        &&& after == before
    } else {
        &&& r matches Err(e) && e.tx_size == tx_size && e.rx_size == rx_size
        &&& tells_failure(before.control, after.control)
        &&& differs_in_registers(before, after)
    }
}

/// A write at 0x2100, of whatever bytes, has the request in the registers taken
/// up as it should be.
pub proof fn law_dce_request(
    device: &mut NvidiaDceHost,
    info: BusAccessInfo,
    data: &[u8],
    outcome: DceWrite,
)
    requires
        info.offset == 0x2100,
        info.offset + data@.len() <= 0x4000,
        call_ensures(NvidiaDceHost::write, (device, info, data), outcome),
    ensures
        match outcome {
            DceWrite::Forward(request) => request_taken(old(device)@, final(device)@, Ok(request)),
            DceWrite::Refused(e) => request_taken(old(device)@, final(device)@, Err(e)),
            _ => false,
        },
{
    device.lemma_registers_len();
    lemma_words(old(device)@.control, 0x2000);
    lemma_words(old(device)@.control, 0x2008);
    lemma_words(old(device)@.control, 0x2018);
    lemma_completed_words(old(device)@.control, (-5) as i32, 0);
}

/// Taking a request up by itself comes to the same.
pub proof fn law_dce_transfer(device: &mut NvidiaDceHost, r: Result<ProxyRequest, SizeExceeded>)
    requires
        call_ensures(NvidiaDceHost::transfer, (device,), r),
    ensures
        request_taken(old(device)@, final(device)@, r),
{
    device.lemma_registers_len();
    lemma_words(old(device)@.control, 0x2000);
    lemma_words(old(device)@.control, 0x2008);
    lemma_words(old(device)@.control, 0x2018);
    lemma_completed_words(old(device)@.control, (-5) as i32, 0);
}

proof fn lemma_completed_words(control: Seq<u8>, ret: i32, size: u64)
    requires
        control.len() == 0x4000,
    ensures
        ({
            let after = completed(control, ret, size);
            &&& after.len() == 0x4000
            &&& signed(le_word(after, 0x2010)) == ret
            &&& le_long(after, 0x2008) == size
            &&& forall|i: int|
                0 <= i < 0x2008 || 0x2014 <= i < 0x4000 ==> #[trigger] after[i] == control[i]
        }),
{
    let after = completed(control, ret, size);
    lemma_signed_code(ret);
    lemma_bytes_of_len(ByteOrder::Little, code_of(ret), 4);
    lemma_bytes_of_len(ByteOrder::Little, size as nat, 8);
    assert(after.subrange(0x2010, 0x2014) =~= le_bytes(code_of(ret), 4));
    assert(after.subrange(0x2008, 0x2010) =~= le_bytes(size as nat, 8));
    lemma_written(after, 0x2010, ByteOrder::Little, code_of(ret));
    lemma_written(after, 0x2008, ByteOrder::Little, size as nat);
}

/// Whether a request was ended as it should be: the signed number at 0x2010 is
/// `ret`, the number at 0x2008 is `size`, the bytes from 0x1000 on are `rx`, and
/// nothing else changed.
pub open spec fn request_ended(
    before: DceView,
    after: DceView,
    rx: Seq<u8>,
    ret: int,
    size: int,
) -> bool {
    &&& differs_in_registers(before, after)
    &&& signed(le_word(after.control, 0x2010)) == ret
    &&& le_long(after.control, 0x2008) == size
    &&& forall|i: int| 0 <= i < rx.len() ==> #[trigger] after.control[0x1000 + i] == rx[i]
    &&& forall|i: int|
        0 <= i < 0x1000 || 0x1000 + rx.len() <= i < 0x2008 || 0x2014 <= i < 0x4000
            ==> #[trigger] after.control[i] == before.control[i]
}

/// After the driver's reply to any request, the guest finds the driver's return
/// code, the driver's length and the bytes that the driver left.
pub proof fn law_dce_reply(device: &mut NvidiaDceHost, rx: &[u8], reply: HostReply)
    requires
        rx@.len() <= 0x1000,
        call_ensures(NvidiaDceHost::finish_transfer, (device, rx, Some(reply)), ()),
    ensures
        request_ended(old(device)@, final(device)@, rx@, reply.ret as int, reply.size as int),
{
    device.lemma_registers_len();
    lemma_completed_words(spliced(old(device)@.control, 0x1000, rx@), reply.ret, reply.size);
    assert forall|i: int| 0 <= i < rx@.len() implies #[trigger] final(device)@.control[0x1000 + i]
        == rx@[i] by {}
}

/// After a request that was forwarded without a reply of the driver, whatever
/// the driver left in the response buffer, the guest finds the number of an I/O
/// error, negated, as the return code, and 0 as the length.
pub proof fn law_dce_failed_transfer(device: &mut NvidiaDceHost, rx: &[u8])
    requires
        rx@.len() <= 0x1000,
        call_ensures(NvidiaDceHost::finish_transfer, (device, rx, None), ()),
    ensures
        request_ended(old(device)@, final(device)@, rx@, -5, 0),
{
    device.lemma_registers_len();
    lemma_completed_words(spliced(old(device)@.control, 0x1000, rx@), (-5) as i32, 0);
    assert forall|i: int| 0 <= i < rx@.len() implies #[trigger] final(device)@.control[0x1000 + i]
        == rx@[i] by {}
}

/// Completing with an error tells the guest of a failure.
pub proof fn law_dce_complete_with_error(device: &mut NvidiaDceHost)
    requires
        call_ensures(NvidiaDceHost::complete_with_error, (device,), ()),
    ensures
        tells_failure(old(device)@.control, final(device)@.control),
        differs_in_registers(old(device)@, final(device)@),
{
    device.lemma_registers_len();
    lemma_completed_words(old(device)@.control, (-5) as i32, 0);
}

/// The number that the bridge reads at a place is the one in its eight bytes. A
/// stretch is given out if and only if it ends by the limit.
pub proof fn law_dce_read_u64(
    device: NvidiaDceHost,
    offset: usize,
    v: u64,
    id: PlatformDeviceId,
    at: u64,
    len: usize,
    limit: usize,
    r: Option<core::ops::Range<usize>>,
)
    requires
        offset + 8 <= 0x4000,
        call_ensures(NvidiaDceHost::read_u64, (&device, offset), v),
        call_ensures(NvidiaDceHost::device_id, (&device,), id),
        call_ensures(NvidiaDceHost::range, (at, len, limit), r),
    ensures
        v == le_long(device@.control, offset as int),
        id is NvidiaDceHost,
        match r {
            Some(range) => at + len <= limit && range.start == at && range.end - range.start == len,
            None => at + len > limit,
        },
{
    device.lemma_registers_len();
    lemma_words(device@.control, offset as int);
}

/// A published event's interface stands at 0x3004, its length at 0x3008 and its
/// number at 0x3000; the number is what publishing gives. It is one more than
/// the last number, and 1 after the greatest. No other byte changed, nor what
/// the guest acknowledged.
pub proof fn law_dce_publish(
    device: &mut NvidiaDceHost,
    event: DceHostEvent,
    number: u32,
    last: u32,
    now: u32,
)
    requires
        call_ensures(NvidiaDceHost::sequence, (&*old(device),), last),
        call_ensures(NvidiaDceHost::publish_event, (device, &event), number),
        call_ensures(NvidiaDceHost::sequence, (&*final(device),), now),
    ensures
        ({
            let before = old(device)@;
            let after = final(device)@;
            &&& le_word(after.control, 0x3000) == number
            &&& le_word(after.control, 0x3004) == event.interface
            &&& le_word(after.control, 0x3008) == event.size
            &&& number == now
            &&& number == (if last == 0xffff_ffff {
                1
            } else {
                last + 1
            })
            &&& after.acknowledged == before.acknowledged
            &&& after.event_source == before.event_source
            &&& after.event_thread == before.event_thread
            &&& after.control.len() == before.control.len()
            &&& forall|i: int|
                0 <= i < 0x3000 || 0x300c <= i < 0x4000 ==> #[trigger] after.control[i]
                    == before.control[i]
        }),
{
    device.lemma_registers_len();
    lemma_published_words(old(device)@, event.interface, event.size);
}

/// The registers that a published event fills.
pub proof fn lemma_published_words(before: DceView, interface: u32, size: u32)
    requires
        before.control.len() == 0x4000,
    ensures
        ({
            let after = published(before, interface, size);
            &&& after.control.len() == 0x4000
            &&& le_word(after.control, 0x3000) == after.sequence
            &&& le_word(after.control, 0x3004) == interface
            &&& le_word(after.control, 0x3008) == size
            &&& forall|i: int|
                0 <= i < 0x3000 || 0x300c <= i < 0x4000 ==> #[trigger] after.control[i]
                    == before.control[i]
        }),
{
    let after = published(before, interface, size);
    lemma_bytes_of_len(ByteOrder::Little, interface as nat, 4);
    lemma_bytes_of_len(ByteOrder::Little, size as nat, 4);
    lemma_bytes_of_len(ByteOrder::Little, after.sequence as nat, 4);
    assert(after.control.subrange(0x3000, 0x3004) =~= le_bytes(after.sequence as nat, 4));
    assert(after.control.subrange(0x3004, 0x3008) =~= le_bytes(interface as nat, 4));
    assert(after.control.subrange(0x3008, 0x300c) =~= le_bytes(size as nat, 4));
    lemma_written(after.control, 0x3000, ByteOrder::Little, after.sequence as nat);
    lemma_written(after.control, 0x3004, ByteOrder::Little, interface as nat);
    lemma_written(after.control, 0x3008, ByteOrder::Little, size as nat);
}

/// An event's payload is as long as the event says, and is the front of its
/// data.
pub proof fn law_event_payload(event: DceHostEvent, bytes: &[u8], i: int)
    requires
        event.size <= 0x1000,
        call_ensures(DceHostEvent::payload, (&event,), bytes),
        0 <= i < event.size,
    ensures
        bytes@.len() == event.size,
        bytes@[i] == event.data@[i],
{
}

/// A thread for events is refused if and only if one runs already, or else if
/// there is no source of events; the reasons are told apart in this order. Where
/// it is not refused, the source is used up. Once a thread was made it counts as
/// running for good. Nothing else changes.
pub proof fn law_dce_start(
    device: &mut NvidiaDceHost,
    r: Result<(), StartError>,
    noted: &mut NvidiaDceHost,
    spawned: bool,
)
    requires
        call_ensures(NvidiaDceHost::start_event_thread, (device,), r),
        call_ensures(NvidiaDceHost::event_thread_spawned, (noted, spawned), ()),
    ensures
        ({
            let before = old(device)@;
            let after = final(device)@;
            &&& r is Ok <==> !before.event_thread && before.event_source
            &&& r matches Err(e) ==> (e is AlreadyRunning <==> before.event_thread)
            &&& after.event_source <==> before.event_source && before.event_thread
            &&& after.event_thread == before.event_thread
            &&& after.control == before.control
            &&& after.sequence == before.sequence
            &&& after.acknowledged == before.acknowledged
        }),
        final(noted)@.event_thread <==> old(noted)@.event_thread || spawned,
        final(noted)@.event_source == old(noted)@.event_source,
        final(noted)@.control == old(noted)@.control,
        final(noted)@.sequence == old(noted)@.sequence,
        final(noted)@.acknowledged == old(noted)@.acknowledged,
{
}

/// A whole exchange. The guest writes its request at 0, its length at 0x2000,
/// the length that the response may have at 0x2008, the interface at 0x2018, and
/// anything at 0x2100. The request that is forwarded is the guest's. After the
/// driver's reply the guest reads the driver's return code at 0x2010, its length
/// at 0x2008, and the response, in any stretch, from 0x1000 on; after a failure
/// it reads -5 and 0.
pub proof fn law_dce_exchange(
    one: &mut NvidiaDceHost,
    two: &mut NvidiaDceHost,
    three: &mut NvidiaDceHost,
    four: &mut NvidiaDceHost,
    five: &mut NvidiaDceHost,
    six: &mut NvidiaDceHost,
    infos: Seq<BusAccessInfo>,
    tx: &[u8],
    tx_size: &[u8],
    rx_size: &[u8],
    interface: &[u8],
    bell: &[u8],
    outcomes: Seq<DceWrite>,
    rx: &[u8],
    reply: Option<HostReply>,
    code: &mut [u8],
    length: &mut [u8],
    response: &mut [u8],
    reads: Seq<DceRead>,
    from: int,
)
    requires
        infos.len() == 8 && outcomes.len() == 5 && reads.len() == 3,
        infos[0].offset == 0 && infos[1].offset == 0x2000 && infos[2].offset == 0x2008
            && infos[3].offset == 0x2018 && infos[4].offset == 0x2100 && infos[5].offset == 0x2010
            && infos[6].offset == 0x2008,
        tx@.len() <= 0x1000,
        tx_size@.len() == 8 && le_long(tx_size@, 0) == tx@.len(),
        rx_size@.len() == 8 && le_long(rx_size@, 0) <= 0x1000,
        interface@.len() == 4,
        bell@.len() <= 0x1000,
        call_ensures(NvidiaDceHost::write, (one, infos[0], tx), outcomes[0]),
        *two == *final(one),
        call_ensures(NvidiaDceHost::write, (two, infos[1], tx_size), outcomes[1]),
        *three == *final(two),
        call_ensures(NvidiaDceHost::write, (three, infos[2], rx_size), outcomes[2]),
        *four == *final(three),
        call_ensures(NvidiaDceHost::write, (four, infos[3], interface), outcomes[3]),
        *five == *final(four),
        call_ensures(NvidiaDceHost::write, (five, infos[4], bell), outcomes[4]),
        *six == *final(five),
        rx@.len() == le_long(rx_size@, 0),
        call_ensures(NvidiaDceHost::finish_transfer, (six, rx, reply), ()),
        code@.len() == 4 && length@.len() == 8,
        0 <= from && from + response@.len() <= rx@.len() && infos[7].offset == 0x1000 + from,
        call_ensures(NvidiaDceHost::read, (&*final(six), infos[5], code), reads[0]),
        call_ensures(NvidiaDceHost::read, (&*final(six), infos[6], length), reads[1]),
        call_ensures(NvidiaDceHost::read, (&*final(six), infos[7], response), reads[2]),
    ensures
        outcomes[4] matches DceWrite::Forward(request) && request.tx@ == tx@ && request.rx@.len()
            == le_long(rx_size@, 0) && request.selector == le_word(interface@, 0),
        signed(le_word(final(code)@, 0)) == (match reply {
            Some(reply) => reply.ret as int,
            None => -5,
        }),
        le_long(final(length)@, 0) == (match reply {
            Some(reply) => reply.size as int,
            None => 0,
        }),
        final(response)@ == rx@.subrange(from, from + old(response)@.len()),
{
    one.lemma_registers_len();
    two.lemma_registers_len();
    three.lemma_registers_len();
    four.lemma_registers_len();
    five.lemma_registers_len();
    six.lemma_registers_len();
    let w = old(five)@.control;
    assert(w.subrange(0x2000, 0x2008) =~= tx_size@);
    assert(w.subrange(0x2008, 0x2010) =~= rx_size@);
    assert(w.subrange(0x2018, 0x201c) =~= interface@);
    lemma_same_bytes(w, 0x2000, tx_size@);
    lemma_same_bytes(w, 0x2008, rx_size@);
    lemma_same_bytes(w, 0x2018, interface@);
    law_dce_request(five, infos[4], bell, outcomes[4]);
    match reply {
        Some(reply) => law_dce_reply(six, rx, reply),
        None => law_dce_failed_transfer(six, rx),
    }
    let after = final(six)@.control;
    assert(after.subrange(0x2010, 0x2014) =~= final(code)@);
    assert(after.subrange(0x2008, 0x2010) =~= final(length)@);
    lemma_same_bytes(after, 0x2010, final(code)@);
    lemma_same_bytes(after, 0x2008, final(length)@);
    if let DceWrite::Forward(request) = outcomes[4] {
        assert(forall|i: int| 0 <= i < tx@.len() ==> w[i] == tx@[i]);
        assert(request.tx@ =~= tx@);
    }
    assert(final(response)@ =~= rx@.subrange(from, from + old(response)@.len())) by {
        assert forall|i: int| 0 <= i < old(response)@.len() implies final(response)@[i] == rx@[from
            + i] by {
            assert(after[0x1000 + (from + i)] == rx@[from + i]);
        }
    }
}

/// A thread that runs already is told apart from a missing source of events by
/// kind and by text. The name of the device is always the same.
pub proof fn law_start_errors(
    e: StartError,
    kind: ErrorKind,
    text: String,
    device: NvidiaDceHost,
    label: String,
)
    requires
        call_ensures(StartError::kind, (&e,), kind),
        call_ensures(StartError::message, (&e,), text),
        call_ensures(NvidiaDceHost::debug_label, (&device,), label),
    ensures
        e is AlreadyRunning ==> kind is AlreadyExists && text@
            == "DCE event thread is already running"@,
        e is Unavailable ==> kind is NotFound && text@ == "DCE event backend is unavailable"@,
        label@ == "nvidia-dce-host"@,
{
}

/// Where the two bridges and the payload buffer are on the bus. Each window lies
/// in its region, the regions do not meet, and the payload buffer lies where the
/// window shows it.
pub proof fn law_bus_layout()
    ensures
        NVIDIA_BPMP_MMIO_BASE == 0x090d_0000 && NVIDIA_BPMP_MMIO_SIZE == 0x1000,
        NVIDIA_DCE_MMIO_BASE == 0x090e_0000 && NVIDIA_DCE_MMIO_SIZE == 0x1_0000,
        NVIDIA_DCE_EVENT_PAYLOAD_BASE == NVIDIA_DCE_MMIO_BASE + 0x4000,
        NVIDIA_DCE_EVENT_PAYLOAD_SIZE == 0x1000,
        0x600 <= NVIDIA_BPMP_MMIO_SIZE && 0x5000 <= NVIDIA_DCE_MMIO_SIZE,
        NVIDIA_BPMP_MMIO_BASE + NVIDIA_BPMP_MMIO_SIZE <= NVIDIA_DCE_MMIO_BASE,
{
}

} // verus!
