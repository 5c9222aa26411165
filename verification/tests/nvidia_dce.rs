use guest_bridges::bus::{BusAccessInfo, PlatformDeviceId};
use guest_bridges::bytes::ByteOrder;
use guest_bridges::dce_events::{
    after_poll, after_read, parse_host_event, poll_outcome, read_host_event, EventLoop,
    EventLoopAction, EventLoopInput, EventReadError, PollOutcome, ReadFault, HOST_EVENT_SIZE,
};
use guest_bridges::error::ErrorKind;
use guest_bridges::nvidia_bpmp::{NVIDIA_BPMP_MMIO_BASE, NVIDIA_BPMP_MMIO_SIZE};
use guest_bridges::nvidia_dce::{
    DceHostEvent, DceRead, DceWrite, NvidiaDceHost, StartError, DOORBELL, EVENT_ACK, EVENT_BUFFER,
    EVENT_INTERFACE, EVENT_MAX, EVENT_SEQUENCE, EVENT_SIZE, INTERFACE, MAX_PAYLOAD,
    NVIDIA_DCE_EVENT_PAYLOAD_BASE, NVIDIA_DCE_EVENT_PAYLOAD_SIZE, NVIDIA_DCE_MMIO_BASE,
    NVIDIA_DCE_MMIO_SIZE, PROTOCOL_SIZE, RETURN_CODE, RX_BUFFER, RX_SIZE, TX_BUFFER, TX_SIZE,
};
use guest_bridges::platform::host_byte_order;
use guest_bridges::proxy::HostReply;

#[derive(Default)]
struct BackendState {
    interface: u32,
    tx: Vec<u8>,
    rx_capacity: u64,
    fail: bool,
}

struct Machine {
    device: NvidiaDceHost,
    payload: Vec<u8>,
    backend: BackendState,
}

impl Machine {
    fn new() -> Self {
        Machine {
            device: NvidiaDceHost::new_with_backend(false),
            payload: vec![0; EVENT_MAX],
            backend: BackendState::default(),
        }
    }

    fn write(&mut self, info: BusAccessInfo, data: &[u8]) {
        match self.device.write(info, data) {
            DceWrite::Payload { start } => {
                self.payload[start..start + data.len()].copy_from_slice(data)
            }
            DceWrite::Forward(mut request) => {
                let order = host_byte_order();
                let mut wire = request.message(0x1000, 0x2000).encode(order);
                self.backend.interface = u32::from_ne_bytes(wire[0..4].try_into().unwrap());
                self.backend.rx_capacity = u64::from_ne_bytes(wire[32..40].try_into().unwrap());
                if self.backend.fail {
                    self.device.finish_transfer(&request.rx, None);
                    return;
                }
                self.backend.tx = request.tx.clone();
                let response = [0xde, 0xad, 0xbe, 0xef];
                request.rx[..response.len()].copy_from_slice(&response);
                wire[32..40].copy_from_slice(&(response.len() as u64).to_ne_bytes());
                wire[40..44].copy_from_slice(&(-7i32).to_ne_bytes());
                self.device
                    .finish_transfer(&request.rx, Some(HostReply::from_wire(order, &wire)));
            }
            _ => {}
        }
    }

    fn read(&self, info: BusAccessInfo, data: &mut [u8]) {
        if let DceRead::Payload { start } = self.device.read(info, data) {
            let len = data.len();
            data.copy_from_slice(&self.payload[start..start + len]);
            NvidiaDceHost::finish_payload_read(data, true);
        }
    }

    /// Passes one event on, and gives its number.
    fn publish_event(&mut self, event: DceHostEvent) -> u32 {
        let mut events = EventLoop::Starting;
        let device = &mut self.device;
        assert_eq!(
            events.step(device, false, EventLoopInput::Start),
            Some(EventLoopAction::ReadHostEvent)
        );
        assert_eq!(
            events.step(device, false, EventLoopInput::HostEvent(Ok(Some(event)))),
            Some(EventLoopAction::WritePayload)
        );
        let bytes = events.payload().unwrap();
        self.payload[..bytes.len()].copy_from_slice(bytes);
        assert_eq!(
            events.step(device, false, EventLoopInput::PayloadWritten(true)),
            Some(EventLoopAction::TriggerIrq)
        );
        device.sequence()
    }
}

fn access(offset: usize) -> BusAccessInfo {
    BusAccessInfo {
        offset: offset as u64,
        address: NVIDIA_DCE_MMIO_BASE + offset as u64,
        id: 0,
    }
}

fn event(interface: u32, payload: &[u8]) -> DceHostEvent {
    let mut data = [0; EVENT_MAX];
    data[..payload.len()].copy_from_slice(payload);
    DceHostEvent {
        interface,
        size: payload.len() as u32,
        data,
    }
}

fn register(machine: &Machine, offset: usize) -> u32 {
    let mut bytes = [0; 4];
    machine.read(access(offset), &mut bytes);
    u32::from_le_bytes(bytes)
}

#[test]
fn nvidia_dce_serializes_request_and_returns_response() {
    let mut machine = Machine::new();
    machine.write(access(TX_BUFFER), &[1, 2, 3]);
    machine.write(access(TX_SIZE), &3u64.to_le_bytes());
    machine.write(access(RX_SIZE), &16u64.to_le_bytes());
    machine.write(access(INTERFACE), &9u32.to_le_bytes());
    machine.write(access(DOORBELL), &1u32.to_le_bytes());

    assert_eq!(machine.backend.interface, 9);
    assert_eq!(machine.backend.tx, [1, 2, 3]);
    assert_eq!(machine.backend.rx_capacity, 16);

    let mut ret = [0; 4];
    machine.read(access(RETURN_CODE), &mut ret);
    assert_eq!(i32::from_le_bytes(ret), -7);
    let mut response = [0; 4];
    machine.read(access(RX_BUFFER), &mut response);
    assert_eq!(response, [0xde, 0xad, 0xbe, 0xef]);
}

#[test]
fn rejects_bad_sizes_bounds_and_backend_errors() {
    let mut machine = Machine::new();
    machine.write(access(TX_SIZE), &((MAX_PAYLOAD + 1) as u64).to_le_bytes());
    machine.write(access(DOORBELL), &1u32.to_le_bytes());
    assert!(machine.backend.tx.is_empty());

    let mut ret = [0; 4];
    machine.read(access(RETURN_CODE), &mut ret);
    assert_eq!(i32::from_le_bytes(ret), -libc::EIO);
    let mut outside = [1, 2];
    machine.read(access(PROTOCOL_SIZE - 1), &mut outside);
    assert_eq!(outside, [0, 0]);

    machine.backend.fail = true;
    machine.write(access(TX_SIZE), &0u64.to_le_bytes());
    machine.write(access(RX_SIZE), &8u64.to_le_bytes());
    machine.write(access(DOORBELL), &1u32.to_le_bytes());
    let mut rx_size = [1; 8];
    machine.read(access(RX_SIZE), &mut rx_size);
    assert_eq!(u64::from_le_bytes(rx_size), 0);
}

#[test]
fn publishes_event_and_observes_ack() {
    let mut machine = Machine::new();
    let sequence = machine.publish_event(event(3, &[1, 2, 3, 4]));
    let mut payload = [0; 4];
    machine.read(access(EVENT_BUFFER), &mut payload);
    assert_eq!(payload, [1, 2, 3, 4]);
    machine.write(access(EVENT_ACK), &sequence.to_le_bytes());
    assert_eq!(machine.device.acknowledged(), sequence);
}

#[test]
fn reads_variable_length_host_events() {
    let mut bytes = Vec::from(3u32.to_ne_bytes());
    bytes.extend_from_slice(&4u32.to_ne_bytes());
    bytes.extend_from_slice(&[1, 2, 3, 4]);

    let event = read_host_event(&bytes).unwrap();
    assert_eq!(event.interface, 3);
    assert_eq!(event.size, 4);
    assert_eq!(&event.data[..4], &[1, 2, 3, 4]);

    bytes.pop();
    let error = read_host_event(&bytes).unwrap_err();
    assert_eq!(error.kind(), ErrorKind::InvalidData);
}

#[test]
fn host_events_in_either_byte_order() {
    let little = [3, 0, 0, 0, 2, 0, 0, 0, 8, 9];
    let big = [0, 0, 0, 3, 0, 0, 0, 2, 8, 9];
    for (order, bytes) in [(ByteOrder::Little, little), (ByteOrder::Big, big)] {
        let event = parse_host_event(order, &bytes).unwrap();
        assert_eq!((event.interface, event.size), (3, 2));
        assert_eq!(event.payload(), &[8, 9]);
        assert_eq!(event.data[2], 0);
    }
}

#[test]
fn malformed_host_events_are_named() {
    let order = ByteOrder::Little;
    let short = parse_host_event(order, &[0; 7]).unwrap_err();
    assert_eq!(short, EventReadError::Short(7));
    assert_eq!(short.kind(), ErrorKind::UnexpectedEof);
    let mut large = vec![0; HOST_EVENT_SIZE];
    large[4..8].copy_from_slice(&0x1001u32.to_le_bytes());
    let large = parse_host_event(order, &large).unwrap_err();
    assert_eq!(large, EventReadError::TooLarge(0x1001));
    assert_eq!(large.kind(), ErrorKind::InvalidData);
    let mismatch = parse_host_event(order, &[0; 9]).unwrap_err();
    assert_eq!(
        mismatch,
        EventReadError::LengthMismatch {
            read: 9,
            expected: 8
        }
    );
    let mut full = vec![7; HOST_EVENT_SIZE];
    full[4..8].copy_from_slice(&(EVENT_MAX as u32).to_le_bytes());
    assert_eq!(
        parse_host_event(order, &full).unwrap().payload().len(),
        EVENT_MAX
    );
}

#[test]
fn poll_results_are_told_apart() {
    assert_eq!(poll_outcome(-1, libc::POLLIN), PollOutcome::Failed);
    assert_eq!(poll_outcome(0, libc::POLLIN), PollOutcome::NotReady);
    assert_eq!(poll_outcome(1, libc::POLLHUP), PollOutcome::NotReady);
    assert_eq!(poll_outcome(1, libc::POLLIN), PollOutcome::Readable);
    assert_eq!(
        poll_outcome(1, libc::POLLIN | libc::POLLHUP),
        PollOutcome::Readable
    );
}

#[test]
fn only_a_ready_poll_leads_to_a_read() {
    assert!(after_poll(1, libc::POLLIN).is_none());
    assert!(matches!(after_poll(0, 0), Some(Ok(None))));
    assert!(matches!(after_poll(1, libc::POLLHUP), Some(Ok(None))));
    assert!(matches!(
        after_poll(-1, libc::POLLIN),
        Some(Err(ReadFault::Os))
    ));
}

#[test]
fn outcomes_of_an_event_read() {
    let mut buffer = [0xff; HOST_EVENT_SIZE];
    buffer[..4].copy_from_slice(&3u32.to_ne_bytes());
    buffer[4..8].copy_from_slice(&2u32.to_ne_bytes());
    let event = after_read(10, &buffer).unwrap();
    assert_eq!((event.interface, event.size), (3, 2));
    assert_eq!(event.payload(), &[0xff, 0xff]);
    assert_eq!(event.data[2], 0);

    let refused = after_read(-1, &buffer).unwrap_err();
    assert_eq!(refused, ReadFault::Os);
    assert_eq!(refused.kind(), None);
    let short = after_read(0, &buffer).unwrap_err();
    assert_eq!(short, ReadFault::Event(EventReadError::Short(0)));
    assert_eq!(short.kind(), Some(ErrorKind::UnexpectedEof));
    let mismatch = after_read(11, &buffer).unwrap_err();
    assert_eq!(
        mismatch,
        ReadFault::Event(EventReadError::LengthMismatch {
            read: 11,
            expected: 10
        })
    );
    assert_eq!(mismatch.kind(), Some(ErrorKind::InvalidData));
}

#[test]
fn numbers_count_events() {
    let mut machine = Machine::new();
    for n in 1..=5 {
        assert_eq!(machine.publish_event(event(n, &[])), n);
        machine.write(access(EVENT_ACK), &n.to_le_bytes());
        machine.write(access(TX_BUFFER), &[n as u8]);
        assert_eq!(machine.device.sequence(), n);
    }
}

#[test]
fn published_event_shows_in_registers() {
    let mut machine = Machine::new();
    assert_eq!(machine.publish_event(event(5, &[1])), 1);
    assert_eq!(machine.publish_event(event(6, &[1, 2])), 2);
    assert_eq!(register(&machine, EVENT_SEQUENCE), 2);
    assert_eq!(register(&machine, EVENT_INTERFACE), 6);
    assert_eq!(register(&machine, EVENT_SIZE), 2);
    assert_eq!(machine.device.acknowledged(), 0);
}

#[test]
fn only_the_last_event_is_acknowledged() {
    let mut machine = Machine::new();
    machine.publish_event(event(1, &[]));
    machine.publish_event(event(1, &[]));
    assert!(matches!(
        machine.device.write(access(EVENT_ACK), &1u32.to_le_bytes()),
        DceWrite::Stored
    ));
    assert_eq!(machine.device.acknowledged(), 0);
    assert!(matches!(
        machine.device.write(access(EVENT_ACK), &2u32.to_le_bytes()),
        DceWrite::Acknowledged
    ));
    assert_eq!(machine.device.acknowledged(), 2);
    assert_eq!(register(&machine, EVENT_ACK), 2);
}

#[test]
fn short_and_long_acknowledgements() {
    let mut machine = Machine::new();
    machine.publish_event(event(1, &[]));
    // One byte is enough where the other three are zero already.
    machine.write(access(EVENT_ACK), &[1]);
    assert_eq!(machine.device.acknowledged(), 1);
    machine.publish_event(event(1, &[]));
    // A write that covers the register but starts before it does not count.
    machine.write(access(EVENT_SIZE), &[0, 0, 0, 0, 2, 0, 0, 0]);
    assert_eq!(machine.device.acknowledged(), 1);
    machine.write(access(EVENT_ACK), &[2, 0, 0, 0, 9, 9]);
    assert_eq!(machine.device.acknowledged(), 2);
}

#[test]
fn dce_accesses_across_the_payload_boundary_meet_nothing() {
    let mut machine = Machine::new();
    assert!(matches!(
        machine.device.write(access(EVENT_BUFFER - 1), &[1, 1]),
        DceWrite::Nowhere
    ));
    let mut seen = [9, 9];
    assert_eq!(
        machine.device.read(access(EVENT_BUFFER - 1), &mut seen),
        DceRead::Done
    );
    assert_eq!(seen, [0, 0]);
    machine.write(access(EVENT_BUFFER + 2), &[4, 5]);
    assert_eq!(machine.payload[2..4], [4, 5]);
    let mut seen = [0; 2];
    machine.read(access(EVENT_BUFFER + 2), &mut seen);
    assert_eq!(seen, [4, 5]);
    assert!(matches!(
        machine.device.write(access(PROTOCOL_SIZE), &[1]),
        DceWrite::Nowhere
    ));
}

#[test]
fn unreadable_payload_shows_zeros() {
    let device = NvidiaDceHost::new();
    let mut data = [3; 4];
    assert_eq!(
        device.read(access(EVENT_BUFFER + 8), &mut data),
        DceRead::Payload { start: 8 }
    );
    assert_eq!(data, [3; 4]);
    NvidiaDceHost::finish_payload_read(&mut data, true);
    assert_eq!(data, [3; 4]);
    NvidiaDceHost::finish_payload_read(&mut data, false);
    assert_eq!(data, [0; 4]);
}

#[test]
fn dce_stored_bytes_read_back_and_leave_the_rest() {
    let mut machine = Machine::new();
    machine.write(access(0x40), &[5, 6, 7]);
    let mut seen = [1; 5];
    machine.read(access(0x3f), &mut seen);
    assert_eq!(seen, [0, 5, 6, 7, 0]);
    assert_eq!(machine.device.read_u64(0x40), 0x0007_0605);
}

#[test]
fn dce_range_has_a_limit() {
    assert_eq!(NvidiaDceHost::range(4, 4, 8), Some(4..8));
    assert_eq!(NvidiaDceHost::range(4, 5, 8), None);
    assert_eq!(NvidiaDceHost::range(u64::MAX, 2, 8), None);
}

#[test]
fn event_thread_starts_once() {
    let mut device = NvidiaDceHost::new();
    assert_eq!(device.start_event_thread(), Ok(()));
    device.event_thread_spawned(true);
    let error = device.start_event_thread().unwrap_err();
    assert_eq!(error, StartError::AlreadyRunning);
    assert_eq!(error.kind(), ErrorKind::AlreadyExists);
    assert_eq!(error.message(), "DCE event thread is already running");
}

#[test]
fn event_thread_needs_a_source() {
    let mut device = NvidiaDceHost::new_with_backend(false);
    let error = device.start_event_thread().unwrap_err();
    assert_eq!(error, StartError::Unavailable);
    assert_eq!(error.kind(), ErrorKind::NotFound);
    assert_eq!(error.message(), "DCE event backend is unavailable");

    // A thread that could not be made has used the source up.
    let mut device = NvidiaDceHost::new();
    assert_eq!(device.start_event_thread(), Ok(()));
    device.event_thread_spawned(false);
    assert_eq!(device.start_event_thread(), Err(StartError::Unavailable));
}

#[test]
fn event_loop_waits_for_the_acknowledgement() {
    let mut device = NvidiaDceHost::new();
    let mut events = EventLoop::Starting;
    events.step(&mut device, false, EventLoopInput::Start);
    events.step(
        &mut device,
        false,
        EventLoopInput::HostEvent(Ok(Some(event(1, &[1])))),
    );
    events.step(&mut device, false, EventLoopInput::PayloadWritten(true));
    let mut step = |device: &mut NvidiaDceHost, input| events.step(device, false, input);
    assert_eq!(
        step(&mut device, EventLoopInput::IrqTriggered(true)),
        Some(EventLoopAction::WaitForAck)
    );
    assert_eq!(
        step(&mut device, EventLoopInput::Waited),
        Some(EventLoopAction::PollResample)
    );
    assert_eq!(
        step(&mut device, EventLoopInput::Resample(false)),
        Some(EventLoopAction::WaitForAck)
    );
    step(&mut device, EventLoopInput::Waited);
    assert_eq!(
        step(&mut device, EventLoopInput::Resample(true)),
        Some(EventLoopAction::TriggerIrq)
    );
    assert_eq!(
        step(&mut device, EventLoopInput::IrqTriggered(false)),
        Some(EventLoopAction::WaitForAck)
    );
    device.write(access(EVENT_ACK), &1u32.to_le_bytes());
    assert_eq!(
        step(&mut device, EventLoopInput::Waited),
        Some(EventLoopAction::ReadHostEvent)
    );
}

#[test]
fn event_loop_goes_on_after_failures() {
    let mut device = NvidiaDceHost::new();
    let mut events = EventLoop::Starting;
    let mut step = |device: &mut NvidiaDceHost, input| events.step(device, false, input);
    let read = Some(EventLoopAction::ReadHostEvent);
    assert_eq!(step(&mut device, EventLoopInput::Start), read);
    assert_eq!(
        step(&mut device, EventLoopInput::HostEvent(Err(ReadFault::Os))),
        read
    );
    assert_eq!(step(&mut device, EventLoopInput::HostEvent(Ok(None))), read);
    assert_eq!(
        step(
            &mut device,
            EventLoopInput::HostEvent(Err(ReadFault::Event(EventReadError::Short(1))))
        ),
        read
    );
    step(
        &mut device,
        EventLoopInput::HostEvent(Ok(Some(event(1, &[])))),
    );
    assert_eq!(
        step(&mut device, EventLoopInput::PayloadWritten(false)),
        read
    );
    assert_eq!(device.sequence(), 0);
    step(
        &mut device,
        EventLoopInput::HostEvent(Ok(Some(event(1, &[])))),
    );
    step(&mut device, EventLoopInput::PayloadWritten(true));
    assert_eq!(
        step(&mut device, EventLoopInput::IrqTriggered(false)),
        read
    );
    assert_eq!(device.sequence(), 1);
}

#[test]
fn event_loop_stops_when_asked() {
    let mut device = NvidiaDceHost::new();
    let mut events = EventLoop::Starting;
    assert_eq!(
        events.step(&mut device, true, EventLoopInput::Start),
        Some(EventLoopAction::Exit)
    );
    assert_eq!(events.step(&mut device, true, EventLoopInput::Start), None);

    let mut events = EventLoop::Waiting(7);
    assert!(events.payload().is_none());
    assert_eq!(
        events.step(&mut device, true, EventLoopInput::Waited),
        Some(EventLoopAction::PollResample)
    );
    assert_eq!(
        events.step(&mut device, true, EventLoopInput::Resample(false)),
        Some(EventLoopAction::Exit)
    );
    assert!(matches!(events, EventLoop::Stopped));
}

#[test]
fn dce_identity_and_regions() {
    let device = NvidiaDceHost::new();
    assert_eq!(device.debug_label(), "nvidia-dce-host");
    assert_eq!(device.device_id(), PlatformDeviceId::NvidiaDceHost);
    assert_eq!(
        NVIDIA_DCE_EVENT_PAYLOAD_BASE,
        NVIDIA_DCE_MMIO_BASE + EVENT_BUFFER as u64
    );
    assert_eq!(NVIDIA_DCE_EVENT_PAYLOAD_SIZE, EVENT_MAX as u64);
    assert!(PROTOCOL_SIZE as u64 <= NVIDIA_DCE_MMIO_SIZE);
    assert!(NVIDIA_BPMP_MMIO_BASE + NVIDIA_BPMP_MMIO_SIZE <= NVIDIA_DCE_MMIO_BASE);
}
