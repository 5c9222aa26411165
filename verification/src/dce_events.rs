//! How the events of the host's DCE driver are taken in and passed on.

use crate::bytes::{
    bytes_of, le_bytes, lemma_byte_widths, lemma_bytes_of_len, lemma_value_of_bytes_of, store,
    u32_at, value_of, zeros, ByteOrder,
};
use crate::error::ErrorKind;
use crate::nvidia_dce::{
    later_sequence, law_acknowledge, next_sequence, published, stored, DceHostEvent, DceView,
    NvidiaDceHost, EVENT_ACK, EVENT_BUFFER, EVENT_MAX,
};
use crate::platform::{host_byte_order, machine_order, pollin, pollin_flag};
use vstd::prelude::*;

verus! {

/// The length of an event's header.
pub const EVENT_HEADER_SIZE: usize = 8;

/// The greatest length of an event, with its header.
pub const HOST_EVENT_SIZE: usize = 0x1008;

/// How long a poll of the driver waits for an event.
pub const EVENT_POLL_MILLIS: i32 = 200;

/// What a poll of the driver says.
#[derive(Clone, Copy, Debug, PartialEq, Eq, Structural)]
pub enum PollOutcome {
    /// The poll itself failed.
    Failed,
    /// There is no event yet.
    NotReady,
    /// There is an event to read.
    Readable,
}

/// Judges what a poll returned, and the flags that it set.
pub fn poll_outcome(ready: i32, revents: i16) -> (outcome: PollOutcome)
    ensures
        outcome == (if ready < 0 {
            PollOutcome::Failed
        } else if ready == 0 || revents & pollin_flag() == 0 {
            PollOutcome::NotReady
        } else {
            PollOutcome::Readable
        }),
{
    if ready < 0 {
        return PollOutcome::Failed;
    }
    if ready == 0 || revents & pollin() == 0 {
        return PollOutcome::NotReady;
    }
    PollOutcome::Readable
}

/// Why bytes from the driver are not an event.
#[derive(Clone, Copy, Debug, PartialEq, Eq, Structural)]
pub enum EventReadError {
    /// There are too few for a header.
    Short(usize),
    /// The header announces too long a payload.
    TooLarge(u32),
    /// There are more or fewer than the header announces.
    LengthMismatch { read: usize, expected: usize },
}

impl EventReadError {
    /// The kind of this error.
    pub fn kind(&self) -> (kind: ErrorKind)
        ensures
            kind == (match *self {
                EventReadError::Short(_) => ErrorKind::UnexpectedEof,
                EventReadError::TooLarge(_) => ErrorKind::InvalidData,
                EventReadError::LengthMismatch { .. } => ErrorKind::InvalidData,
            }),
    {
        match self {
            EventReadError::Short(_) => ErrorKind::UnexpectedEof,
            EventReadError::TooLarge(_) => ErrorKind::InvalidData,
            EventReadError::LengthMismatch { .. } => ErrorKind::InvalidData,
        }
    }
}

/// The length of the payload that the header of `bytes` announces.
pub open spec fn announced_size(order: ByteOrder, bytes: Seq<u8>) -> nat {
    value_of(order, bytes.subrange(4, 8))
}

/// What is wrong with `bytes` as an event, if anything.
pub open spec fn event_fault(order: ByteOrder, bytes: Seq<u8>) -> Option<EventReadError> {
    if bytes.len() < EVENT_HEADER_SIZE {
        Some(EventReadError::Short(bytes.len() as usize))
    } else if announced_size(order, bytes) > EVENT_MAX {
        Some(EventReadError::TooLarge(announced_size(order, bytes) as u32))
    } else if bytes.len() != EVENT_HEADER_SIZE + announced_size(order, bytes) {
        Some(
            EventReadError::LengthMismatch {
                read: bytes.len() as usize,
                expected: (EVENT_HEADER_SIZE + announced_size(order, bytes)) as usize,
            },
        )
    } else {
        None
    }
}

/// Whether `r` is what `bytes` come to in the given byte order: the event that
/// they spell, its payload followed by zeros, or what is wrong with them.
pub open spec fn is_event_of(
    order: ByteOrder,
    bytes: Seq<u8>,
    r: Result<DceHostEvent, EventReadError>,
) -> bool {
    match r {
        Ok(event) => {
            &&& event_fault(order, bytes) is None
            &&& event.interface == value_of(order, bytes.subrange(0, 4))
            &&& event.size == announced_size(order, bytes)
            &&& event.size <= EVENT_MAX
            &&& event.data@ == bytes.skip(8) + zeros((EVENT_MAX - event.size) as nat)
        },
        Err(e) => event_fault(order, bytes) == Some(e),
    }
}

/// Reads an event out of the bytes that one read of the driver returned.
pub fn parse_host_event(order: ByteOrder, bytes: &[u8]) -> (r: Result<DceHostEvent, EventReadError>)
    ensures
        is_event_of(order, bytes@, r),
{
    if bytes.len() < EVENT_HEADER_SIZE {
        return Err(EventReadError::Short(bytes.len()));
    }
    let interface: u32 = u32_at(order, bytes, 0);
    let size: u32 = u32_at(order, bytes, 4);
    if size as usize > EVENT_MAX {
        return Err(EventReadError::TooLarge(size));
    }
    let expected: usize = EVENT_HEADER_SIZE + size as usize;
    if bytes.len() != expected {
        return Err(EventReadError::LengthMismatch { read: bytes.len(), expected });
    }
    let mut data: [u8; EVENT_MAX] = [0; EVENT_MAX];
    store(&mut data, 0, &bytes[EVENT_HEADER_SIZE..expected]);
    assert(data@ =~= bytes@.skip(8) + zeros((EVENT_MAX - size) as nat));
    Ok(DceHostEvent { interface, size, data })
}

/// Reads an event out of the bytes that one read of the driver returned, which
/// are in this machine's byte order.
pub fn read_host_event(bytes: &[u8]) -> (r: Result<DceHostEvent, EventReadError>)
    ensures
        is_event_of(machine_order(), bytes@, r),
{
    parse_host_event(host_byte_order(), bytes)
}

/// Why no event could be read from the driver.
#[derive(Clone, Copy, Debug, PartialEq, Eq, Structural)]
pub enum ReadFault {
    /// The system reported an error, which is to be passed on.
    Os,
    /// What was read is not an event.
    Event(EventReadError),
}

impl ReadFault {
    /// The kind of this error; that of a system error is the system's.
    pub fn kind(&self) -> (kind: Option<ErrorKind>)
        ensures
            kind == (match *self {
                ReadFault::Os => None::<ErrorKind>,
                ReadFault::Event(EventReadError::Short(_)) => Some(ErrorKind::UnexpectedEof),
                ReadFault::Event(_) => Some(ErrorKind::InvalidData),
            }),
    {
        match self {
            ReadFault::Os => None,
            ReadFault::Event(e) => Some(e.kind()),
        }
    }
}

/// Goes by what a poll of the driver returned, and the flags that it set: where
/// there is an event, it is to be read, and nothing is settled yet. Otherwise
/// nothing is to be read: there is no event in time, or the poll failed.
pub fn after_poll(ready: i32, revents: i16) -> (r: Option<Result<Option<DceHostEvent>, ReadFault>>)
    ensures
        r is None <==> ready > 0 && revents & pollin_flag() != 0,
        r matches Some(Err(fault)) ==> fault == ReadFault::Os && ready < 0,
        r matches Some(Ok(event)) ==> event is None && ready >= 0,
{
    match poll_outcome(ready, revents) {
        PollOutcome::Failed => Some(Err(ReadFault::Os)),
        PollOutcome::NotReady => Some(Ok(None)),
        PollOutcome::Readable => None,
    }
}

/// What came of a read of the driver that returned `read` and left the bytes in
/// `buffer`: the event that they spell in this machine's byte order, what is
/// wrong with them, or an error of the system.
pub fn after_read(read: isize, buffer: &[u8]) -> (r: Result<DceHostEvent, ReadFault>)
    requires
        read <= buffer@.len(),
    ensures
        match r {
            Ok(event) => read >= 0 && is_event_of(
                machine_order(),
                buffer@.take(read as int),
                Ok(event),
            ),
            Err(ReadFault::Event(e)) => read >= 0 && is_event_of(
                machine_order(),
                buffer@.take(read as int),
                Err(e),
            ),
            Err(ReadFault::Os) => read < 0,
        },
{
    if read < 0 {
        return Err(ReadFault::Os);
    }
    let bytes = &buffer[0..read as usize];
    assert(bytes@ =~= buffer@.take(read as int));
    match read_host_event(bytes) {
        Ok(event) => Ok(event),
        Err(e) => Err(ReadFault::Event(e)),
    }
}

/// The bytes in which a driver hands over an event.
pub open spec fn event_bytes(order: ByteOrder, event: DceHostEvent) -> Seq<u8> {
    bytes_of(order, event.interface as nat, 4) + bytes_of(order, event.size as nat, 4)
        + event.data@.take(event.size as int)
}

/// An event that a driver hands over is taken in as it is: interface, length
/// and payload.
pub proof fn law_event_round_trip(
    order: ByteOrder,
    event: DceHostEvent,
    r: Result<DceHostEvent, EventReadError>,
)
    requires
        event.size <= EVENT_MAX,
        is_event_of(order, event_bytes(order, event), r),
    ensures
        r matches Ok(e) && e.interface == event.interface && e.size == event.size && e.data@.take(
            e.size as int,
        ) == event.data@.take(event.size as int),
{
    let bytes = event_bytes(order, event);
    lemma_byte_widths();
    lemma_bytes_of_len(order, event.interface as nat, 4);
    lemma_bytes_of_len(order, event.size as nat, 4);
    lemma_value_of_bytes_of(order, event.interface as nat, 4);
    lemma_value_of_bytes_of(order, event.size as nat, 4);
    assert(bytes.subrange(0, 4) =~= bytes_of(order, event.interface as nat, 4));
    assert(bytes.subrange(4, 8) =~= bytes_of(order, event.size as nat, 4));
    assert(bytes.skip(8) =~= event.data@.take(event.size as int));
    if let Ok(e) = r {
        assert(e.data@.take(e.size as int) =~= event.data@.take(event.size as int));
    }
}

/// Where the loop that passes events on stands.
#[derive(Debug)]
pub enum EventLoop {
    /// Before its first step.
    Starting,
    /// An event is being read from the driver.
    Reading,
    /// The payload of this event is being written.
    Publishing(DceHostEvent),
    /// The interrupt for the event with this number is being raised.
    Raising(u32),
    /// The guest is to acknowledge the event with this number.
    Waiting(u32),
    /// The guest has not acknowledged it so far; it is being asked whether the
    /// guest has served the interrupt all the same.
    Probing(u32),
    /// It has, and the interrupt is being raised again.
    Reraising(u32),
    /// The loop has ended.
    Stopped,
}

/// What the outside has to say to the loop.
#[derive(Debug)]
pub enum EventLoopInput {
    /// The loop is to begin.
    Start,
    /// What reading from the driver gave: an event, none in time, or a failure.
    HostEvent(Result<Option<DceHostEvent>, ReadFault>),
    /// Whether the payload could be written.
    PayloadWritten(bool),
    /// Whether the interrupt could be raised.
    IrqTriggered(bool),
    /// The guest acknowledged something, or a while has passed.
    Waited,
    /// Whether the guest has served the interrupt.
    Resample(bool),
}

/// What the loop wants done.
#[derive(Clone, Copy, Debug, PartialEq, Eq, Structural)]
pub enum EventLoopAction {
    /// Read an event from the driver.
    ReadHostEvent,
    /// Write the event's payload to the start of the payload buffer.
    WritePayload,
    /// Raise the interrupt.
    TriggerIrq,
    /// Wait for an acknowledgement, for `ACK_WAIT_MILLIS` at most.
    WaitForAck,
    /// Ask whether the guest has served the interrupt.
    PollResample,
    /// End.
    Exit,
}

/// How long the loop waits for an acknowledgement before it looks again.
pub const ACK_WAIT_MILLIS: u64 = 10;

/// The loop, the device and the action after a step.
pub struct Step {
    pub state: EventLoop,
    pub device: DceView,
    pub action: EventLoopAction,
}

/// The step that takes up the next event, unless the loop is to stop.
pub open spec fn next_event(device: DceView, stopping: bool) -> Step {
    if stopping {
        Step { state: EventLoop::Stopped, device, action: EventLoopAction::Exit }
    } else {
        Step { state: EventLoop::Reading, device, action: EventLoopAction::ReadHostEvent }
    }
}

/// The step that waits on for event `sequence` to be acknowledged, or takes up
/// the next event where it is or where the loop is to stop.
pub open spec fn wait_on(device: DceView, sequence: u32, stopping: bool) -> Step {
    if device.acknowledged != sequence && !stopping {
        Step { state: EventLoop::Waiting(sequence), device, action: EventLoopAction::WaitForAck }
    } else {
        next_event(device, stopping)
    }
}

/// The step that the loop makes on an input, or none where the input is not
/// the one that the loop stands at.
pub open spec fn step_on(
    state: EventLoop,
    device: DceView,
    stopping: bool,
    input: EventLoopInput,
) -> Option<Step> {
    match (state, input) {
        (EventLoop::Starting, EventLoopInput::Start) => Some(next_event(device, stopping)),
        (EventLoop::Reading, EventLoopInput::HostEvent(Ok(Some(event)))) => Some(
            Step {
                state: EventLoop::Publishing(event),
                device,
                action: EventLoopAction::WritePayload,
            },
        ),
        (EventLoop::Reading, EventLoopInput::HostEvent(Ok(None))) => Some(
            next_event(device, stopping),
        ),
        (EventLoop::Reading, EventLoopInput::HostEvent(Err(_))) => Some(
            next_event(device, stopping),
        ),
        (EventLoop::Publishing(event), EventLoopInput::PayloadWritten(written)) => if written {
            let after = published(device, event.interface, event.size);
            Some(
                Step {
                    state: EventLoop::Raising(after.sequence),
                    device: after,
                    action: EventLoopAction::TriggerIrq,
                },
            )
        } else {
            Some(next_event(device, stopping))
        },
        (EventLoop::Raising(sequence), EventLoopInput::IrqTriggered(raised)) => if raised {
            Some(wait_on(device, sequence, stopping))
        } else {
            Some(next_event(device, stopping))
        },
        (EventLoop::Waiting(sequence), EventLoopInput::Waited) => if device.acknowledged
            != sequence {
            Some(
                Step {
                    state: EventLoop::Probing(sequence),
                    device,
                    action: EventLoopAction::PollResample,
                },
            )
        } else {
            Some(next_event(device, stopping))
        },
        (EventLoop::Probing(sequence), EventLoopInput::Resample(served)) => if served {
            Some(
                Step {
                    state: EventLoop::Reraising(sequence),
                    device,
                    action: EventLoopAction::TriggerIrq,
                },
            )
        } else {
            Some(wait_on(device, sequence, stopping))
        },
        (EventLoop::Reraising(sequence), EventLoopInput::IrqTriggered(_)) => Some(
            wait_on(device, sequence, stopping),
        ),
        _ => None,
    }
}

/// Whether the payload that an event announces fits into it.
pub open spec fn event_fits(event: DceHostEvent) -> bool {
    event.size <= EVENT_MAX
}

impl EventLoopInput {
    /// Whether the event that this input brings, if any, has a payload that
    /// fits.
    pub open spec fn fits(self) -> bool {
        self matches EventLoopInput::HostEvent(Ok(Some(event))) ==> event_fits(event)
    }
}

impl EventLoop {
    /// Whether the event that is being published, if any, has a payload that
    /// fits.
    pub open spec fn fits(self) -> bool {
        self matches EventLoop::Publishing(event) ==> event_fits(event)
    }

    /// The payload to be written, where an event is being published.
    pub fn payload(&self) -> (bytes: Option<&[u8]>)
        requires
            self.fits(),
        ensures
            match *self {
                EventLoop::Publishing(event) => bytes matches Some(b) && b@ == event.data@.take(
                    event.size as int,
                ),
                _ => bytes is None,
            },
    {
        match self {
            EventLoop::Publishing(event) => Some(event.payload()),
            _ => None,
        }
    }

    fn read_next(&mut self, stopping: bool) -> (action: EventLoopAction)
        ensures
            forall|device: DceView|
                (Step { state: *final(self), device, action }) == #[trigger] next_event(
                    device,
                    stopping,
                ),
    {
        if stopping {
            *self = EventLoop::Stopped;
            EventLoopAction::Exit
        } else {
            *self = EventLoop::Reading;
            EventLoopAction::ReadHostEvent
        }
    }

    fn wait_further(&mut self, device: &NvidiaDceHost, sequence: u32, stopping: bool) -> (action:
        EventLoopAction)
        ensures
            (Step { state: *final(self), device: device@, action }) == wait_on(
                device@,
                sequence,
                stopping,
            ),
    {
        if device.acknowledged() != sequence && !stopping {
            *self = EventLoop::Waiting(sequence);
            EventLoopAction::WaitForAck
        } else {
            self.read_next(stopping)
        }
    }

    /// Takes an input and says what to do next. `stopping` tells whether the
    /// loop has been asked to stop. An input that the loop does not stand at
    /// changes nothing and gives no action.
    pub fn step(
        &mut self,
        device: &mut NvidiaDceHost,
        stopping: bool,
        input: EventLoopInput,
    ) -> (action: Option<EventLoopAction>)
        requires
            old(self).fits(),
            input.fits(),
        ensures
            final(self).fits(),
            match step_on(*old(self), old(device)@, stopping, input) {
                Some(step) => {
                    &&& *final(self) == step.state
                    &&& final(device)@ == step.device
                    &&& action == Some(step.action)
                },
                None => {
                    &&& *final(self) == *old(self)
                    &&& final(device)@ == old(device)@
                    &&& action is None
                },
            },
    {
        match (&*self, input) {
            (EventLoop::Starting, EventLoopInput::Start) => Some(self.read_next(stopping)),
            (EventLoop::Reading, EventLoopInput::HostEvent(Ok(Some(event)))) => {
                *self = EventLoop::Publishing(event);
                Some(EventLoopAction::WritePayload)
            },
            (EventLoop::Reading, EventLoopInput::HostEvent(_)) => Some(self.read_next(stopping)),
            (EventLoop::Publishing(event), EventLoopInput::PayloadWritten(written)) => {
                if written {
                    let sequence: u32 = device.publish_event(event);
                    *self = EventLoop::Raising(sequence);
                    Some(EventLoopAction::TriggerIrq)
                } else {
                    Some(self.read_next(stopping))
                }
            },
            (EventLoop::Raising(sequence), EventLoopInput::IrqTriggered(raised)) => {
                let sequence: u32 = *sequence;
                if raised {
                    Some(self.wait_further(device, sequence, stopping))
                } else {
                    Some(self.read_next(stopping))
                }
            },
            (EventLoop::Waiting(sequence), EventLoopInput::Waited) => {
                let sequence: u32 = *sequence;
                if device.acknowledged() != sequence {
                    *self = EventLoop::Probing(sequence);
                    Some(EventLoopAction::PollResample)
                } else {
                    Some(self.read_next(stopping))
                }
            },
            (EventLoop::Probing(sequence), EventLoopInput::Resample(served)) => {
                let sequence: u32 = *sequence;
                if served {
                    *self = EventLoop::Reraising(sequence);
                    Some(EventLoopAction::TriggerIrq)
                } else {
                    Some(self.wait_further(device, sequence, stopping))
                }
            },
            (EventLoop::Reraising(sequence), EventLoopInput::IrqTriggered(_)) => {
                let sequence: u32 = *sequence;
                Some(self.wait_further(device, sequence, stopping))
            },
            _ => None,
        }
    }
}

impl EventLoop {
    /// The number of the event that the guest is still to acknowledge.
    pub open spec fn outstanding(self) -> Option<u32> {
        match self {
            EventLoop::Raising(sequence) => Some(sequence),
            EventLoop::Waiting(sequence) => Some(sequence),
            EventLoop::Probing(sequence) => Some(sequence),
            EventLoop::Reraising(sequence) => Some(sequence),
            _ => None,
        }
    }

    /// How many steps the loop can still make once it is asked to stop.
    pub open spec fn steps_left(self) -> nat {
        match self {
            EventLoop::Starting => 1,
            EventLoop::Reading => 3,
            EventLoop::Publishing(_) => 2,
            EventLoop::Raising(_) => 1,
            EventLoop::Waiting(_) => 3,
            EventLoop::Probing(_) => 2,
            EventLoop::Reraising(_) => 1,
            EventLoop::Stopped => 0,
        }
    }
}

/// The loop keeps to an event until the guest has acknowledged it: it lets go
/// of an event's number only where that number is acknowledged, where it is
/// asked to stop, or where the event's interrupt could not be raised at all.
pub proof fn law_one_event_at_a_time(
    state: EventLoop,
    device: DceView,
    stopping: bool,
    input: EventLoopInput,
)
    requires
        state.outstanding() is Some,
        step_on(state, device, stopping, input) is Some,
    ensures
        ({
            let step = step_on(state, device, stopping, input)->0;
            ||| step.state.outstanding() == state.outstanding()
            ||| device.acknowledged == state.outstanding()->0
            ||| stopping
            ||| state is Raising && input == EventLoopInput::IrqTriggered(false)
        }),
{
}

/// Whether the event that the guest is still to acknowledge, if any, is the last
/// one that the device published.
pub open spec fn awaits_last(state: EventLoop, device: DceView) -> bool {
    state.outstanding() matches Some(sequence) ==> sequence == device.sequence
}

/// The loop always waits for the last event: this holds at its start, and
/// neither its steps nor the guest's writes change it. So a guest that writes
/// the number of the awaited event to the acknowledge register has it
/// acknowledged, and the wait ends.
pub proof fn law_awaited_event_can_be_acknowledged(
    state: EventLoop,
    device: DceView,
    stopping: bool,
    input: EventLoopInput,
    offset: int,
    data: Seq<u8>,
)
    requires
        device.control.len() == EVENT_BUFFER,
        awaits_last(state, device),
    ensures
        awaits_last(EventLoop::Starting, device),
        step_on(state, device, stopping, input) matches Some(step) ==> awaits_last(
            step.state,
            step.device,
        ),
        awaits_last(state, stored(device, offset, data)),
        state matches EventLoop::Waiting(sequence) ==> ({
            let after = stored(device, EVENT_ACK as int, le_bytes(sequence as nat, 4));
            &&& after.acknowledged == sequence
            &&& step_on(state, after, stopping, EventLoopInput::Waited) == Some(
                next_event(after, stopping),
            )
        }),
{
    if let EventLoop::Waiting(sequence) = state {
        law_acknowledge(device, sequence);
    }
}

/// The device changes in one step only: when the payload of an event has been
/// written. That step publishes the event's header, asks for the interrupt,
/// and leaves the loop with the event's number.
pub proof fn law_events_are_published_whole(
    state: EventLoop,
    device: DceView,
    stopping: bool,
    input: EventLoopInput,
)
    requires
        step_on(state, device, stopping, input) is Some,
    ensures
        ({
            let step = step_on(state, device, stopping, input)->0;
            match (state, input) {
                (EventLoop::Publishing(event), EventLoopInput::PayloadWritten(true)) => {
                    &&& step.device == published(device, event.interface, event.size)
                    &&& step.action == EventLoopAction::TriggerIrq
                    &&& step.state.outstanding() == Some(step.device.sequence)
                },
                _ => step.device == device,
            }
        }),
{
}

/// An event's number follows that of the event published before it. The number
/// is used up once the payload is written, also where the interrupt then cannot
/// be raised; an event whose payload could not be written uses none.
pub proof fn law_event_numbers_follow(
    event: DceHostEvent,
    device: DceView,
    stopping: bool,
    written: bool,
    stopping_later: bool,
    raised: bool,
)
    ensures
        step_on(
            EventLoop::Publishing(event),
            device,
            stopping,
            EventLoopInput::PayloadWritten(written),
        ) matches Some(step) && {
            &&& step.device.sequence == (if written {
                next_sequence(device.sequence)
            } else {
                device.sequence
            })
            &&& written ==> (step_on(
                step.state,
                step.device,
                stopping_later,
                EventLoopInput::IrqTriggered(raised),
            ) matches Some(after) && after.device.sequence == step.device.sequence)
        },
{
}

/// What can happen to the loop and the device that it serves.
pub enum Happening {
    /// The loop takes an input.
    Input { stopping: bool, input: EventLoopInput },
    /// The guest writes to the registers.
    GuestWrite { offset: int, data: Seq<u8> },
    /// A request of the guest is answered, which leaves these registers.
    Answer { control: Seq<u8> },
}

/// The loop and the device that it serves.
pub struct Situation {
    pub state: EventLoop,
    pub device: DceView,
}

/// The situation after something happened.
pub open spec fn after_one(before: Situation, happening: Happening) -> Situation {
    match happening {
        Happening::Input { stopping, input } => match step_on(
            before.state,
            before.device,
            stopping,
            input,
        ) {
            Some(step) => Situation { state: step.state, device: step.device },
            None => before,
        },
        Happening::GuestWrite { offset, data } => Situation {
            device: stored(before.device, offset, data),
            ..before
        },
        Happening::Answer { control } => Situation {
            device: DceView { control, ..before.device },
            ..before
        },
    }
}

/// The situation after all of `history` happened, in this order.
pub open spec fn after_all(before: Situation, history: Seq<Happening>) -> Situation
    decreases history.len(),
{
    if history.len() == 0 {
        before
    } else {
        after_one(after_all(before, history.drop_last()), history.last())
    }
}

/// How many events were published in the registers during `history`.
pub open spec fn published_in(before: Situation, history: Seq<Happening>) -> nat
    decreases history.len(),
{
    if history.len() == 0 {
        0
    } else {
        let so_far = published_in(before, history.drop_last());
        match (after_all(before, history.drop_last()).state, history.last()) {
            (
                EventLoop::Publishing(_),
                Happening::Input { input: EventLoopInput::PayloadWritten(true), .. },
            ) => so_far + 1,
            _ => so_far,
        }
    }
}

/// For how many events the interrupt could be raised during `history`, or could
/// not be raised, as `raised` says.
pub open spec fn raised_in(before: Situation, history: Seq<Happening>, raised: bool) -> nat
    decreases history.len(),
{
    if history.len() == 0 {
        0
    } else {
        let so_far = raised_in(before, history.drop_last(), raised);
        match (after_all(before, history.drop_last()).state, history.last()) {
            (
                EventLoop::Raising(_),
                Happening::Input { input: EventLoopInput::IrqTriggered(outcome), .. },
            ) => if outcome == raised {
                so_far + 1
            } else {
                so_far
            },
            _ => so_far,
        }
    }
}

proof fn lemma_numbers_count(before: Situation, history: Seq<Happening>)
    ensures
        after_all(before, history).device.sequence == later_sequence(
            before.device.sequence,
            published_in(before, history),
        ),
        published_in(before, history) + (if before.state is Raising {
            1int
        } else {
            0
        }) == raised_in(before, history, true) + raised_in(before, history, false) + (if after_all(
            before,
            history,
        ).state is Raising {
            1int
        } else {
            0
        }),
    decreases history.len(),
{
    if history.len() > 0 {
        lemma_numbers_count(before, history.drop_last());
    }
}

/// Whatever happens, the device's number has moved on by one for each event that
/// was published, and by nothing else. Where every interrupt could be raised,
/// and none is being raised at either end, that is one for each event that was
/// passed on in full: its number follows that of the one passed on before.
pub proof fn law_numbers_count_events(before: Situation, history: Seq<Happening>)
    ensures
        after_all(before, history).device.sequence == later_sequence(
            before.device.sequence,
            published_in(before, history),
        ),
        raised_in(before, history, false) == 0 && before.state !is Raising && after_all(
            before,
            history,
        ).state !is Raising ==> after_all(before, history).device.sequence == later_sequence(
            before.device.sequence,
            raised_in(before, history, true),
        ),
{
    lemma_numbers_count(before, history);
}

/// Once the loop is asked to stop, every step brings it nearer to its end, and
/// it ends with the action to exit.
pub proof fn law_loop_stops_when_asked(state: EventLoop, device: DceView, input: EventLoopInput)
    requires
        step_on(state, device, true, input) is Some,
    ensures
        ({
            let step = step_on(state, device, true, input)->0;
            &&& step.state.steps_left() < state.steps_left()
            &&& step.state is Stopped <==> step.action == EventLoopAction::Exit
        }),
{
}

} // verus!
