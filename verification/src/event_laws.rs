//! What can be relied on when the host's events are read and passed on.

use crate::bytes::ByteOrder;
use crate::dce_events::{
    after_all, after_poll, after_read, is_event_of, parse_host_event, poll_outcome, read_host_event,
    EventLoop, EventLoopAction, EventLoopInput, EventReadError, Happening, PollOutcome, ReadFault, Situation,
    ACK_WAIT_MILLIS, EVENT_POLL_MILLIS, HOST_EVENT_SIZE,
};
use crate::dce_laws::lemma_published_words;
use crate::error::ErrorKind;
use crate::nvidia_dce::{DceHostEvent, DceView, NvidiaDceHost};
use crate::platform::{host_byte_order, order_shown_by};
use crate::words::{le_word, lemma_words, word};
use vstd::endian::{endianness, Endian};
use vstd::prelude::*;

verus! {

/// Whether `event` is just what `bytes` hold: an interface and a length of four
/// bytes each, and then a payload of that length, at most 0x1000 bytes, with
/// nothing after it. The data beyond the payload are zeros.
pub open spec fn holds_event(order: ByteOrder, bytes: Seq<u8>, event: DceHostEvent) -> bool {
    &&& bytes.len() >= 8
    &&& event.interface == word(order, bytes, 0)
    &&& event.size == word(order, bytes, 4)
    &&& event.size <= 0x1000
    &&& bytes.len() == 8 + event.size
    &&& forall|i: int|
        0 <= i < 0x1000 ==> #[trigger] event.data@[i] == (if i < event.size {
            bytes[8 + i]
        } else {
            0
        })
}

/// Whether `e` tells what keeps `bytes` from holding an event: they are fewer
/// than a header has, or the length in the header is above 0x1000, or there are
/// not as many as the header announces.
pub open spec fn spoils_event(order: ByteOrder, bytes: Seq<u8>, e: EventReadError) -> bool {
    match e {
        EventReadError::Short(n) => bytes.len() < 8 && n == bytes.len(),
        EventReadError::TooLarge(size) => bytes.len() >= 8 && size == word(order, bytes, 4) && size
            > 0x1000,
        EventReadError::LengthMismatch { read, expected } => {
            &&& bytes.len() >= 8
            &&& word(order, bytes, 4) <= 0x1000
            &&& read == bytes.len()
            &&& expected == 8 + word(order, bytes, 4)
            &&& read != expected
        },
    }
}

/// The byte order of the machine.
pub open spec fn native() -> ByteOrder {
    if endianness() == Endian::Little {
        ByteOrder::Little
    } else {
        ByteOrder::Big
    }
}

proof fn lemma_event_data(order: ByteOrder, bytes: Seq<u8>, r: Result<DceHostEvent, EventReadError>)
    requires
        is_event_of(order, bytes, r),
        bytes.len() <= usize::MAX,
    ensures
        match r {
            Ok(event) => holds_event(order, bytes, event),
            Err(e) => spoils_event(order, bytes, e),
        },
{
    lemma_words(bytes, 0);
    lemma_words(bytes, 4);
    if let Ok(event) = r {
        assert forall|i: int| 0 <= i < 0x1000 implies #[trigger] event.data@[i] == (if i
            < event.size {
            bytes[8 + i]
        } else {
            0
        }) by {
            if i < event.size {
                assert(bytes.skip(8)[i] == bytes[8 + i]);
            }
        }
    }
}

/// Bytes from the driver come to the event that they hold, or to what keeps
/// them from holding one.
pub proof fn law_events_are_parsed(
    order: ByteOrder,
    bytes: &[u8],
    r: Result<DceHostEvent, EventReadError>,
)
    requires
        call_ensures(parse_host_event, (order, bytes), r),
    ensures
        match r {
            Ok(event) => holds_event(order, bytes@, event),
            Err(e) => spoils_event(order, bytes@, e),
        },
{
    assert(bytes@.len() == bytes.len());
    lemma_event_data(order, bytes@, r);
}

/// Bytes that were read in the machine's own byte order come to the event that
/// they hold in that order, or to what keeps them from holding one.
pub proof fn law_events_are_read(bytes: &[u8], r: Result<DceHostEvent, EventReadError>)
    requires
        call_ensures(read_host_event, (bytes,), r),
    ensures
        match r {
            Ok(event) => holds_event(native(), bytes@, event),
            Err(e) => spoils_event(native(), bytes@, e),
        },
{
    assert(bytes@.len() == bytes.len());
    lemma_event_data(native(), bytes@, r);
}

/// A read that returned a negative number gives an error of the system; any
/// other comes to what the bytes that it filled hold, and nothing after them
/// matters.
pub proof fn law_reads_are_judged(read: isize, buffer: &[u8], r: Result<DceHostEvent, ReadFault>)
    requires
        read <= buffer@.len(),
        call_ensures(after_read, (read, buffer), r),
    ensures
        r matches Err(ReadFault::Os) <==> read < 0,
        r matches Ok(event) ==> holds_event(native(), buffer@.take(read as int), event),
        r matches Err(ReadFault::Event(e)) ==> spoils_event(native(), buffer@.take(read as int), e),
{
    match r {
        Ok(event) => lemma_event_data(native(), buffer@.take(read as int), Ok(event)),
        Err(ReadFault::Event(e)) => lemma_event_data(native(), buffer@.take(read as int), Err(e)),
        Err(ReadFault::Os) => {},
    }
}

/// An event is read if and only if a poll found one. A poll that failed is an
/// error of the system, and any other one that there is no event yet.
pub proof fn law_polls_are_judged(
    ready: i32,
    revents: i16,
    outcome: PollOutcome,
    r: Option<Result<Option<DceHostEvent>, ReadFault>>,
)
    requires
        call_ensures(poll_outcome, (ready, revents), outcome),
        call_ensures(after_poll, (ready, revents), r),
    ensures
        outcome is Failed <==> ready < 0,
        outcome is Readable <==> ready > 0 && revents & 1 != 0,
        r matches Some(Err(ReadFault::Os)) <==> ready < 0,
        r is None <==> ready > 0 && revents & 1 != 0,
        r matches Some(Ok(event)) ==> event is None,
{
}

/// The byte order is the machine's, and is the one that the number 1 shows.
pub proof fn law_byte_order(order: ByteOrder, one: [u8; 2], shown: ByteOrder)
    requires
        call_ensures(host_byte_order, (), order),
        call_ensures(order_shown_by, (one,), shown),
    ensures
        order == native(),
        shown is Little <==> one@[0] == 1,
{
}

/// Whether the loop goes on to the next event, or ends where it is to stop.
pub open spec fn goes_on(
    stopping: bool,
    state: EventLoop,
    action: Option<EventLoopAction>,
) -> bool {
    if stopping {
        state is Stopped && action == Some(EventLoopAction::Exit)
    } else {
        state is Reading && action == Some(EventLoopAction::ReadHostEvent)
    }
}

/// Every event that a read of the driver gives is the one that is published
/// next, whatever its interface, its length and its payload, and whether or not
/// the loop is to stop: its payload is to be written first.
pub proof fn law_loop_takes_every_event(
    state: &mut EventLoop,
    device: &mut NvidiaDceHost,
    stopping: bool,
    event: DceHostEvent,
    action: Option<EventLoopAction>,
)
    requires
        *old(state) is Reading,
        call_ensures(
            EventLoop::step,
            (state, device, stopping, EventLoopInput::HostEvent(Ok(Some(event)))),
            action,
        ),
    ensures
        *final(state) matches EventLoop::Publishing(next) && next == event,
        action == Some(EventLoopAction::WritePayload),
        final(device)@ == old(device)@,
{
}

/// Where there is no event in time, or none could be read, or the payload could
/// not be written, or the first interrupt could not be raised, the device stays
/// as it is and the loop goes on. It starts in the same way.
pub proof fn law_loop_goes_on(
    state: &mut EventLoop,
    device: &mut NvidiaDceHost,
    stopping: bool,
    input: EventLoopInput,
    action: Option<EventLoopAction>,
)
    requires
        ({
            ||| *old(state) is Starting && input is Start
            ||| *old(state) is Reading && input matches EventLoopInput::HostEvent(Ok(None))
            ||| *old(state) is Reading && input matches EventLoopInput::HostEvent(Err(_))
            ||| *old(state) is Publishing && input == EventLoopInput::PayloadWritten(false)
            ||| *old(state) is Raising && input == EventLoopInput::IrqTriggered(false)
        }),
        call_ensures(EventLoop::step, (state, device, stopping, input), action),
    ensures
        goes_on(stopping, *final(state), action),
        final(device)@ == old(device)@,
{
}

/// Once an event's payload is written, its interface, its length and a new
/// number stand in the registers, the interrupt is to be raised, and the loop
/// has the event's number.
pub proof fn law_loop_publishes(
    state: &mut EventLoop,
    device: &mut NvidiaDceHost,
    stopping: bool,
    event: DceHostEvent,
    action: Option<EventLoopAction>,
    last: u32,
)
    requires
        *old(state) == EventLoop::Publishing(event),
        call_ensures(NvidiaDceHost::sequence, (&*old(device),), last),
        call_ensures(
            EventLoop::step,
            (state, device, stopping, EventLoopInput::PayloadWritten(true)),
            action,
        ),
    ensures
        ({
            let before = old(device)@;
            let after = final(device)@;
            &&& action == Some(EventLoopAction::TriggerIrq)
            &&& *final(state) matches EventLoop::Raising(number) && number == after.sequence
            &&& after.sequence == (if last == 0xffff_ffff {
                1
            } else {
                last + 1
            })
            &&& le_word(after.control, 0x3000) == after.sequence
            &&& le_word(after.control, 0x3004) == event.interface
            &&& le_word(after.control, 0x3008) == event.size
            &&& after.acknowledged == before.acknowledged
            &&& after.control.len() == before.control.len()
            &&& forall|i: int|
                0 <= i < 0x3000 || 0x300c <= i < 0x4000 ==> #[trigger] after.control[i]
                    == before.control[i]
        }),
{
    device.lemma_registers_len();
    lemma_published_words(old(device)@, event.interface, event.size);
}

/// Once the interrupt is raised, or was raised again, or needs no raising, the
/// loop waits for the event's acknowledgement, unless it has come or the loop is
/// to stop.
pub proof fn law_loop_waits(
    state: &mut EventLoop,
    device: &mut NvidiaDceHost,
    stopping: bool,
    input: EventLoopInput,
    action: Option<EventLoopAction>,
    number: u32,
    acknowledged: u32,
)
    requires
        ({
            ||| *old(state) == EventLoop::Raising(number) && input == EventLoopInput::IrqTriggered(
                true,
            )
            ||| *old(state) == EventLoop::Probing(number) && input == EventLoopInput::Resample(
                false,
            )
            ||| *old(state) == EventLoop::Reraising(number) && input is IrqTriggered
        }),
        call_ensures(NvidiaDceHost::acknowledged, (&*old(device),), acknowledged),
        call_ensures(EventLoop::step, (state, device, stopping, input), action),
    ensures
        if acknowledged != number && !stopping {
            &&& *final(state) == EventLoop::Waiting(number)
            &&& action == Some(EventLoopAction::WaitForAck)
        } else {
            goes_on(stopping, *final(state), action)
        },
        final(device)@ == old(device)@,
{
}

/// After each wait, an event that is not acknowledged makes the loop ask whether
/// the guest served the interrupt; if it did, the interrupt is raised again. An
/// event that is acknowledged ends the wait.
pub proof fn law_loop_raises_again(
    state: &mut EventLoop,
    device: &mut NvidiaDceHost,
    stopping: bool,
    action: Option<EventLoopAction>,
    number: u32,
    acknowledged: u32,
    probing: &mut EventLoop,
    later: &mut NvidiaDceHost,
    second: Option<EventLoopAction>,
)
    requires
        *old(state) == EventLoop::Waiting(number),
        call_ensures(NvidiaDceHost::acknowledged, (&*old(device),), acknowledged),
        call_ensures(EventLoop::step, (state, device, stopping, EventLoopInput::Waited), action),
        *old(probing) == EventLoop::Probing(number),
        call_ensures(
            EventLoop::step,
            (probing, later, stopping, EventLoopInput::Resample(true)),
            second,
        ),
    ensures
        if acknowledged != number {
            &&& *final(state) == EventLoop::Probing(number)
            &&& action == Some(EventLoopAction::PollResample)
        } else {
            goes_on(stopping, *final(state), action)
        },
        final(device)@ == old(device)@,
        *final(probing) == EventLoop::Reraising(number),
        second == Some(EventLoopAction::TriggerIrq),
        final(later)@ == old(later)@,
{
}

/// Whether the loop stands at the point to which an input belongs.
pub open spec fn expects(state: EventLoop, input: EventLoopInput) -> bool {
    match input {
        EventLoopInput::Start => state is Starting,
        EventLoopInput::HostEvent(_) => state is Reading,
        EventLoopInput::PayloadWritten(_) => state is Publishing,
        EventLoopInput::IrqTriggered(_) => state is Raising || state is Reraising,
        EventLoopInput::Waited => state is Waiting,
        EventLoopInput::Resample(_) => state is Probing,
    }
}

/// An input leads to an action if and only if the loop stands at the point to
/// which it belongs; otherwise nothing changes. A loop that has ended takes no
/// input.
pub proof fn law_loop_takes_what_it_expects(
    state: &mut EventLoop,
    device: &mut NvidiaDceHost,
    stopping: bool,
    input: EventLoopInput,
    action: Option<EventLoopAction>,
)
    requires
        call_ensures(EventLoop::step, (state, device, stopping, input), action),
    ensures
        action is Some <==> expects(*old(state), input),
        action is None ==> *final(state) == *old(state) && final(device)@ == old(device)@,
        *old(state) is Stopped ==> action is None,
{
}

/// The payload to be written is that of the event that is being published.
pub proof fn law_loop_payload(state: EventLoop, bytes: Option<&[u8]>, i: int)
    requires
        state matches EventLoop::Publishing(event) ==> event.size <= 0x1000,
        call_ensures(EventLoop::payload, (&state,), bytes),
    ensures
        bytes is Some <==> state is Publishing,
        state matches EventLoop::Publishing(event) ==> {
            &&& bytes->0@.len() == event.size
            &&& 0 <= i < event.size ==> bytes->0@[i] == event.data@[i]
        },
{
}

/// The events that reads of the driver gave during `history`, in order, without
/// those whose payload could not be written.
pub open spec fn events_read(before: Situation, history: Seq<Happening>) -> Seq<DceHostEvent>
    decreases history.len(),
{
    if history.len() == 0 {
        Seq::empty()
    } else {
        let so_far = events_read(before, history.drop_last());
        match (after_all(before, history.drop_last()).state, history.last()) {
            (
                EventLoop::Reading,
                Happening::Input { input: EventLoopInput::HostEvent(Ok(Some(event))), .. },
            ) => so_far.push(event),
            (
                EventLoop::Publishing(_),
                Happening::Input { input: EventLoopInput::PayloadWritten(false), .. },
            ) => so_far.drop_last(),
            _ => so_far,
        }
    }
}

/// Whether `after` shows `event` as newly published.
pub open spec fn shows_new(before: DceView, after: DceView, event: DceHostEvent) -> bool {
    &&& le_word(after.control, 0x3000) == after.sequence
    &&& after.sequence != before.sequence
    &&& le_word(after.control, 0x3004) == event.interface
    &&& le_word(after.control, 0x3008) == event.size
}

/// The events that were published during `history`, in order.
pub open spec fn events_published(before: Situation, history: Seq<Happening>) -> Seq<DceHostEvent>
    decreases history.len(),
{
    if history.len() == 0 {
        Seq::empty()
    } else {
        let so_far = events_published(before, history.drop_last());
        let then = after_all(before, history.drop_last());
        let now = after_all(before, history);
        match then.state {
            EventLoop::Publishing(event) if shows_new(then.device, now.device, event)
                => so_far.push(event),
            _ => so_far,
        }
    }
}

/// Whether the registers that are left when requests are answered during
/// `history` are as long as registers are.
pub open spec fn keeps_registers(history: Seq<Happening>) -> bool {
    forall|i: int|
        0 <= i < history.len() ==> (#[trigger] history[i] matches Happening::Answer { control }
            ==> control.len() == 0x4000)
}

proof fn lemma_registers_kept(before: Situation, history: Seq<Happening>)
    requires
        before.device.control.len() == 0x4000,
        keeps_registers(history),
    ensures
        after_all(before, history).device.control.len() == 0x4000,
    decreases history.len(),
{
    if history.len() > 0 {
        let h = history.drop_last();
        assert(keeps_registers(h)) by {
            assert forall|i: int| 0 <= i < h.len() implies (#[trigger] h[i] matches
                Happening::Answer { control } ==> control.len() == 0x4000) by {
                assert(h[i] == history[i]);
            }
        }
        lemma_registers_kept(before, h);
        let last = history.last();
        assert(last == history[history.len() - 1]);
        let then = after_all(before, h);
        if let EventLoop::Publishing(event) = then.state {
            lemma_published_words(then.device, event.interface, event.size);
        }
    }
}

/// Whatever happens, the events that are published are those that were read and
/// whose payload could be written, each once and in the order of reading. At
/// most the one that is being published is still to come.
pub proof fn law_events_are_passed_on_in_order(before: Situation, history: Seq<Happening>)
    requires
        before.state !is Publishing,
        before.device.control.len() == 0x4000,
        keeps_registers(history),
    ensures
        events_read(before, history) == (match after_all(before, history).state {
            EventLoop::Publishing(event) => events_published(before, history).push(event),
            _ => events_published(before, history),
        }),
    decreases history.len(),
{
    if history.len() > 0 {
        let h = history.drop_last();
        assert(keeps_registers(h)) by {
            assert forall|i: int| 0 <= i < h.len() implies (#[trigger] h[i] matches
                Happening::Answer { control } ==> control.len() == 0x4000) by {
                assert(h[i] == history[i]);
            }
        }
        law_events_are_passed_on_in_order(before, h);
        lemma_registers_kept(before, h);
        let then = after_all(before, h);
        if let EventLoop::Publishing(event) = then.state {
            lemma_published_words(then.device, event.interface, event.size);
            assert(events_published(before, h).push(event).drop_last() =~= events_published(
                before,
                h,
            ));
        }
    }
}

/// Bytes that end within a header are an early end; all others that are not an
/// event are bad data. An error of the system has the system's kind.
pub proof fn law_read_fault_kinds(
    order: ByteOrder,
    bytes: &[u8],
    e: EventReadError,
    kind: ErrorKind,
    fault: ReadFault,
    fault_kind: Option<ErrorKind>,
)
    requires
        call_ensures(parse_host_event, (order, bytes), Err(e)),
        call_ensures(EventReadError::kind, (&e,), kind),
        call_ensures(ReadFault::kind, (&fault,), fault_kind),
    ensures
        kind is UnexpectedEof <==> bytes@.len() < 8,
        kind is UnexpectedEof || kind is InvalidData,
        fault is Os <==> fault_kind is None,
        fault == ReadFault::Event(e) ==> fault_kind == Some(kind),
{
    law_events_are_parsed(order, bytes, Err(e));
}

/// How long the loop waits, in thousandths of a second: 200 for an event of the
/// driver, and 10 for an acknowledgement. An event has at most 0x1008 bytes.
pub proof fn law_loop_times()
    ensures
        EVENT_POLL_MILLIS == 200,
        ACK_WAIT_MILLIS == 10,
        HOST_EVENT_SIZE == 0x1008,
{
}

} // verus!
