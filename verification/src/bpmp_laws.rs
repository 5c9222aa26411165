//! What the guest can rely on at the BPMP bridge, in terms of what it writes
//! and reads.

use crate::bus::{checked_range, BusAccessInfo, PlatformDeviceId};
use crate::bytes::{code_of, le_bytes, lemma_bytes_of_len, spliced, ByteOrder};
use crate::nvidia_bpmp::{completed, BpmpWrite, NvidiaBpmpHost};
use crate::proxy::{HostReply, ProxyRequest, SizeExceeded};
use crate::words::{
    le_long, le_prefix, le_word, lemma_prefix, lemma_same_bytes, lemma_signed_code, lemma_words,
    lemma_written, signed,
};
use vstd::prelude::*;

verus! {

/// A stretch is given out if and only if it ends by the limit, and is the one
/// that was asked for.
pub proof fn law_ranges(
    offset: u64,
    len: usize,
    limit: usize,
    r: Option<core::ops::Range<usize>>,
    of_window: Option<core::ops::Range<usize>>,
)
    requires
        call_ensures(checked_range, (offset, len, limit), r),
        call_ensures(NvidiaBpmpHost::range, (offset, len), of_window),
    ensures
        match r {
            Some(range) => offset + len <= limit && range.start == offset && range.end - range.start
                == len,
            None => offset + len > limit,
        },
        match of_window {
            Some(range) => offset + len <= 0x600 && range.start == offset && range.end - range.start
                == len,
            None => offset + len > 0x600,
        },
{
}

/// A read shows the window byte for byte, or zeros where it leaves the window
/// of 0x600 bytes. It always fills as many bytes as were asked for.
pub proof fn law_bpmp_read(device: NvidiaBpmpHost, info: BusAccessInfo, data: &mut [u8], i: int)
    requires
        call_ensures(NvidiaBpmpHost::read, (&device, info, data), ()),
        0 <= i < data@.len(),
    ensures
        final(data)@.len() == old(data)@.len(),
        final(data)@[i] == (if info.offset + old(data)@.len() <= 0x600 {
            device@[info.offset + i]
        } else {
            0
        }),
{
    device.lemma_window_len();
}

/// A new device shows zeros wherever it is read.
pub proof fn law_bpmp_starts_empty(
    device: NvidiaBpmpHost,
    other: NvidiaBpmpHost,
    info: BusAccessInfo,
    data: &mut [u8],
    again: &mut [u8],
    i: int,
)
    requires
        call_ensures(NvidiaBpmpHost::new, (), device),
        call_ensures(NvidiaBpmpHost::new_with_backend, (), other),
        call_ensures(NvidiaBpmpHost::read, (&device, info, data), ()),
        call_ensures(NvidiaBpmpHost::read, (&other, info, again), ()),
    ensures
        0 <= i < old(data)@.len() ==> final(data)@[i] == 0,
        0 <= i < old(again)@.len() ==> final(again)@[i] == 0,
{
}

/// What the guest writes anywhere in the window but at 0x500 is what any later
/// read shows where it meets it; where it does not, the read shows what it
/// showed before.
pub proof fn law_bpmp_write_then_read(
    device: &mut NvidiaBpmpHost,
    info: BusAccessInfo,
    data: &[u8],
    outcome: BpmpWrite,
    look: BusAccessInfo,
    before: &mut [u8],
    after: &mut [u8],
    i: int,
)
    requires
        info.offset != 0x500,
        info.offset + data@.len() <= 0x600,
        look.offset + before@.len() <= 0x600,
        before@.len() == after@.len(),
        0 <= i < before@.len(),
        call_ensures(NvidiaBpmpHost::read, (&*old(device), look, before), ()),
        call_ensures(NvidiaBpmpHost::write, (device, info, data), outcome),
        call_ensures(NvidiaBpmpHost::read, (&*final(device), look, after), ()),
    ensures
        outcome is Stored,
        ({
            let place = look.offset + i - info.offset;
            final(after)@[i] == (if 0 <= place < data@.len() {
                data@[place]
            } else {
                final(before)@[i]
            })
        }),
{
    device.lemma_window_len();
}

/// A write that leaves the window changes nothing that a read could show.
pub proof fn law_bpmp_write_outside(
    device: &mut NvidiaBpmpHost,
    info: BusAccessInfo,
    data: &[u8],
    outcome: BpmpWrite,
)
    requires
        call_ensures(NvidiaBpmpHost::write, (device, info, data), outcome),
    ensures
        outcome is Outside <==> info.offset + data@.len() > 0x600,
        outcome is Outside ==> final(device)@ == old(device)@,
{
}

/// Whether `request` is the one that stands in `window`: the bytes from 0 on,
/// as many as the number at 0x400 says, and the response buffer from 0x200 on,
/// as long as the number at 0x408 says.
pub open spec fn holds_request(window: Seq<u8>, request: ProxyRequest) -> bool {
    &&& request.tx@.len() == le_long(window, 0x400)
    &&& request.rx@.len() == le_long(window, 0x408)
    &&& forall|i: int| 0 <= i < request.tx@.len() ==> request.tx@[i] == window[i]
    &&& forall|i: int| 0 <= i < request.rx@.len() ==> request.rx@[i] == window[0x200 + i]
}

/// Whether `after` tells of a failure: the signed number at 0x410 is that of an
/// I/O error, negated, and the number at 0x408 is 0. All other bytes are those
/// of `before`.
pub open spec fn tells_failure(before: Seq<u8>, after: Seq<u8>) -> bool {
    &&& after.len() == before.len()
    &&& signed(le_word(after, 0x410)) == -5
    &&& le_long(after, 0x408) == 0
    &&& forall|i: int|
        0 <= i < 0x408 || 0x414 <= i < before.len() ==> #[trigger] after[i] == before[i]
}

/// A write at 0x500 sends a request. It is forwarded if and only if both
/// lengths are at most 0x200; it is then the request in the window, its number
/// the first four bytes written, and the window stays. Otherwise it is refused, with the
/// two lengths as the reason, and the guest is told of a failure.
pub proof fn law_bpmp_request(
    device: &mut NvidiaBpmpHost,
    info: BusAccessInfo,
    data: &[u8],
    outcome: BpmpWrite,
)
    requires
        info.offset == 0x500,
        info.offset + data@.len() <= 0x600,
        call_ensures(NvidiaBpmpHost::write, (device, info, data), outcome),
    ensures
        ({
            let window = old(device)@;
            if le_long(window, 0x400) <= 0x200 && le_long(window, 0x408) <= 0x200 {
                &&& outcome matches BpmpWrite::Forward(request) && holds_request(window, request)
                    && request.selector == le_prefix(data@)
                &&& final(device)@ == window
            } else {
                &&& outcome matches BpmpWrite::Refused(e) && e.tx_size == le_long(window, 0x400)
                    && e.rx_size == le_long(window, 0x408)
                &&& tells_failure(window, final(device)@)
            }
        }),
{
    device.lemma_window_len();
    lemma_words(old(device)@, 0x400);
    lemma_words(old(device)@, 0x408);
    lemma_prefix(data@);
    lemma_completed_words(old(device)@, (-5) as i32, 0);
}

/// Taking a request up by itself comes to the same as a write at 0x500.
pub proof fn law_bpmp_transfer(
    device: &mut NvidiaBpmpHost,
    data: &[u8],
    r: Result<ProxyRequest, SizeExceeded>,
)
    requires
        call_ensures(NvidiaBpmpHost::transfer, (device, data), r),
    ensures
        ({
            let window = old(device)@;
            match r {
                Ok(request) => {
                    &&& le_long(window, 0x400) <= 0x200
                    &&& le_long(window, 0x408) <= 0x200
                    &&& holds_request(window, request)
                    &&& request.selector == le_prefix(data@)
                    &&& final(device)@ == window
                },
                Err(e) => {
                    &&& le_long(window, 0x400) > 0x200 || le_long(window, 0x408) > 0x200
                    &&& e.tx_size == le_long(window, 0x400)
                    &&& e.rx_size == le_long(window, 0x408)
                    &&& tells_failure(window, final(device)@)
                },
            }
        }),
{
    device.lemma_window_len();
    lemma_words(old(device)@, 0x400);
    lemma_words(old(device)@, 0x408);
    lemma_completed_words(old(device)@, (-5) as i32, 0);
    lemma_prefix(data@);
}

proof fn lemma_completed_words(window: Seq<u8>, ret: i32, size: u64)
    requires
        window.len() == 0x600,
    ensures
        ({
            let after = completed(window, ret, size);
            &&& after.len() == 0x600
            &&& signed(le_word(after, 0x410)) == ret
            &&& le_long(after, 0x408) == size
            &&& forall|i: int|
                0 <= i < 0x408 || 0x414 <= i < 0x600 ==> #[trigger] after[i] == window[i]
        }),
{
    let after = completed(window, ret, size);
    lemma_signed_code(ret);
    lemma_bytes_of_len(ByteOrder::Little, code_of(ret), 4);
    lemma_bytes_of_len(ByteOrder::Little, size as nat, 8);
    assert(after.subrange(0x410, 0x414) =~= le_bytes(code_of(ret), 4));
    assert(after.subrange(0x408, 0x410) =~= le_bytes(size as nat, 8));
    lemma_written(after, 0x410, ByteOrder::Little, code_of(ret));
    lemma_written(after, 0x408, ByteOrder::Little, size as nat);
}

/// After the driver's reply to any request, the signed number at 0x410 is the
/// driver's return code, the number at 0x408 is the driver's length, the bytes
/// from 0x200 on are those that the driver left, and no other byte changed.
pub proof fn law_bpmp_reply(
    device: &mut NvidiaBpmpHost,
    rx: &[u8],
    reply: HostReply,
)
    requires
        rx@.len() <= 0x200,
        call_ensures(NvidiaBpmpHost::finish_transfer, (device, rx, Some(reply)), ()),
    ensures
        ({
            let after = final(device)@;
            &&& after.len() == 0x600
            &&& signed(le_word(after, 0x410)) == reply.ret
            &&& le_long(after, 0x408) == reply.size
            &&& forall|i: int| 0 <= i < rx@.len() ==> #[trigger] after[0x200 + i] == rx@[i]
            &&& forall|i: int|
                0 <= i < 0x200 || 0x200 + rx@.len() <= i < 0x408 || 0x414 <= i < 0x600
                    ==> #[trigger] after[i] == old(device)@[i]
        }),
{
    device.lemma_window_len();
    lemma_completed_words(
        spliced(old(device)@, 0x200, rx@),
        reply.ret,
        reply.size,
    );
    assert forall|i: int| 0 <= i < rx@.len() implies #[trigger] final(device)@[0x200 + i]
        == rx@[i] by {}
}

/// After a request that was forwarded without a reply of the driver, whatever
/// the driver left in the response buffer, the guest is told of a failure: the
/// signed number at 0x410 is -5 and the number at 0x408 is 0. The response
/// buffer shows what the driver left, and no other byte changed.
pub proof fn law_bpmp_failed_transfer(device: &mut NvidiaBpmpHost, rx: &[u8])
    requires
        rx@.len() <= 0x200,
        call_ensures(NvidiaBpmpHost::finish_transfer, (device, rx, None), ()),
    ensures
        ({
            let after = final(device)@;
            &&& after.len() == 0x600
            &&& signed(le_word(after, 0x410)) == -5
            &&& le_long(after, 0x408) == 0
            &&& forall|i: int| 0 <= i < rx@.len() ==> #[trigger] after[0x200 + i] == rx@[i]
            &&& forall|i: int|
                0 <= i < 0x200 || 0x200 + rx@.len() <= i < 0x408 || 0x414 <= i < 0x600
                    ==> #[trigger] after[i] == old(device)@[i]
        }),
{
    device.lemma_window_len();
    lemma_completed_words(spliced(old(device)@, 0x200, rx@), (-5) as i32, 0);
    assert forall|i: int| 0 <= i < rx@.len() implies #[trigger] final(device)@[0x200 + i]
        == rx@[i] by {}
}

/// Completing with an error tells the guest of a failure.
pub proof fn law_bpmp_complete_with_error(device: &mut NvidiaBpmpHost)
    requires
        call_ensures(NvidiaBpmpHost::complete_with_error, (device,), ()),
    ensures
        tells_failure(old(device)@, final(device)@),
{
    device.lemma_window_len();
    lemma_completed_words(old(device)@, (-5) as i32, 0);
}

/// The number that the bridge reads at a place is the one in its eight bytes.
pub proof fn law_bpmp_read_u64(
    device: NvidiaBpmpHost,
    offset: usize,
    v: u64,
    id: PlatformDeviceId,
)
    requires
        offset + 8 <= 0x600,
        call_ensures(NvidiaBpmpHost::read_u64, (&device, offset), v),
        call_ensures(NvidiaBpmpHost::device_id, (&device,), id),
    ensures
        v == le_long(device@, offset as int),
        id is NvidiaBpmpHost,
{
    device.lemma_window_len();
    lemma_words(device@, offset as int);
}

/// A whole exchange. The guest writes its request at 0, its length at 0x400,
/// the length that the response may have at 0x408, and the number of the
/// request at 0x500. The request that is forwarded is the guest's. After the
/// driver's reply the guest reads the driver's return code at 0x410, its length
/// at 0x408, and the response, in any stretch, from 0x200 on; after a failure it
/// reads -5 and 0.
pub proof fn law_bpmp_exchange(
    one: &mut NvidiaBpmpHost,
    two: &mut NvidiaBpmpHost,
    three: &mut NvidiaBpmpHost,
    four: &mut NvidiaBpmpHost,
    five: &mut NvidiaBpmpHost,
    infos: Seq<BusAccessInfo>,
    tx: &[u8],
    tx_size: &[u8],
    rx_size: &[u8],
    mrq: &[u8],
    outcomes: Seq<BpmpWrite>,
    rx: &[u8],
    reply: Option<HostReply>,
    code: &mut [u8],
    length: &mut [u8],
    response: &mut [u8],
    from: int,
)
    requires
        infos.len() == 7 && outcomes.len() == 4,
        infos[0].offset == 0 && infos[1].offset == 0x400 && infos[2].offset == 0x408
            && infos[3].offset == 0x500 && infos[4].offset == 0x410 && infos[5].offset == 0x408,
        tx@.len() <= 0x200,
        tx_size@.len() == 8 && le_long(tx_size@, 0) == tx@.len(),
        rx_size@.len() == 8 && le_long(rx_size@, 0) <= 0x200,
        mrq@.len() == 4,
        call_ensures(NvidiaBpmpHost::write, (one, infos[0], tx), outcomes[0]),
        *two == *final(one),
        call_ensures(NvidiaBpmpHost::write, (two, infos[1], tx_size), outcomes[1]),
        *three == *final(two),
        call_ensures(NvidiaBpmpHost::write, (three, infos[2], rx_size), outcomes[2]),
        *four == *final(three),
        call_ensures(NvidiaBpmpHost::write, (four, infos[3], mrq), outcomes[3]),
        *five == *final(four),
        rx@.len() == le_long(rx_size@, 0),
        call_ensures(NvidiaBpmpHost::finish_transfer, (five, rx, reply), ()),
        code@.len() == 4 && length@.len() == 8,
        0 <= from && from + response@.len() <= rx@.len() && infos[6].offset == 0x200 + from,
        call_ensures(NvidiaBpmpHost::read, (&*final(five), infos[4], code), ()),
        call_ensures(NvidiaBpmpHost::read, (&*final(five), infos[5], length), ()),
        call_ensures(NvidiaBpmpHost::read, (&*final(five), infos[6], response), ()),
    ensures
        outcomes[3] matches BpmpWrite::Forward(request) && request.tx@ == tx@ && request.rx@.len()
            == le_long(rx_size@, 0) && request.selector == le_word(mrq@, 0),
        signed(le_word(final(code)@, 0)) == (match reply {
            Some(reply) => reply.ret as int,
            None => -5,
        }),
        le_long(final(length)@, 0) == (match reply {
            Some(reply) => reply.size as int,
            None => 0,
        }),
        final(response)@ == rx@.subrange(from, from + old(response)@.len()),
{
    one.lemma_window_len();
    two.lemma_window_len();
    three.lemma_window_len();
    four.lemma_window_len();
    five.lemma_window_len();
    let w = old(four)@;
    assert(w.subrange(0x400, 0x408) =~= tx_size@);
    assert(w.subrange(0x408, 0x410) =~= rx_size@);
    lemma_same_bytes(w, 0x400, tx_size@);
    lemma_same_bytes(w, 0x408, rx_size@);
    law_bpmp_request(four, infos[3], mrq, outcomes[3]);
    match reply {
        Some(reply) => law_bpmp_reply(five, rx, reply),
        None => law_bpmp_failed_transfer(five, rx),
    }
    let after = final(five)@;
    assert(after.subrange(0x410, 0x414) =~= final(code)@);
    assert(after.subrange(0x408, 0x410) =~= final(length)@);
    lemma_same_bytes(after, 0x410, final(code)@);
    lemma_same_bytes(after, 0x408, final(length)@);
    if let BpmpWrite::Forward(request) = outcomes[3] {
        assert(forall|i: int| 0 <= i < tx@.len() ==> w[i] == tx@[i]);
        assert(request.tx@ =~= tx@);
    }
    assert(final(response)@ =~= rx@.subrange(from, from + old(response)@.len())) by {
        assert forall|i: int| 0 <= i < old(response)@.len() implies final(response)@[i] == rx@[from
            + i] by {
            assert(after[0x200 + (from + i)] == rx@[from + i]);
        }
    }
}

/// The name of the device is always the same.
pub proof fn law_bpmp_label(device: NvidiaBpmpHost, label: String)
    requires
        call_ensures(NvidiaBpmpHost::debug_label, (&device,), label),
    ensures
        label@ == "nvidia-bpmp-host"@,
{
}

} // verus!
