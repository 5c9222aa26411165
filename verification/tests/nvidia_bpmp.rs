use guest_bridges::bus::{BusAccessInfo, PlatformDeviceId};
use guest_bridges::nvidia_bpmp::{
    BpmpWrite, NvidiaBpmpHost, MESSAGE_SIZE, MRQ, NVIDIA_BPMP_MMIO_BASE, NVIDIA_BPMP_MMIO_SIZE,
    PROTOCOL_SIZE, RETURN_CODE, RX_BUFFER, RX_SIZE, TX_BUFFER, TX_SIZE,
};
use guest_bridges::platform::host_byte_order;
use guest_bridges::proxy::{HostReply, SizeExceeded};

#[derive(Default)]
struct BackendState {
    mrq: u32,
    tx: Vec<u8>,
    rx_capacity: u64,
    fail: bool,
}

fn access(offset: usize) -> BusAccessInfo {
    BusAccessInfo {
        offset: offset as u64,
        address: NVIDIA_BPMP_MMIO_BASE + offset as u64,
        id: 0,
    }
}

/// A write of the guest, with a driver that answers as `state` says.
fn write(device: &mut NvidiaBpmpHost, state: &mut BackendState, offset: usize, data: &[u8]) {
    if let BpmpWrite::Forward(mut request) = device.write(access(offset), data) {
        let order = host_byte_order();
        let mut wire = request.message(0x1000, 0x2000).encode(order);
        state.mrq = u32::from_ne_bytes(wire[0..4].try_into().unwrap());
        state.rx_capacity = u64::from_ne_bytes(wire[32..40].try_into().unwrap());
        if state.fail {
            device.finish_transfer(&request.rx, None);
            return;
        }
        let tx_size = u64::from_ne_bytes(wire[16..24].try_into().unwrap());
        state.tx = request.tx[..tx_size as usize].to_vec();
        let response = [0xde, 0xad, 0xbe, 0xef];
        request.rx[..response.len()].copy_from_slice(&response);
        wire[32..40].copy_from_slice(&(response.len() as u64).to_ne_bytes());
        wire[40..44].copy_from_slice(&(-7i32).to_ne_bytes());
        device.finish_transfer(&request.rx, Some(HostReply::from_wire(order, &wire)));
    }
}

#[test]
fn nvidia_bpmp_serializes_request_and_returns_response() {
    let mut state = BackendState::default();
    let mut device = NvidiaBpmpHost::new_with_backend();
    write(&mut device, &mut state, TX_BUFFER, &[1, 2, 3]);
    write(&mut device, &mut state, TX_SIZE, &3u64.to_le_bytes());
    write(&mut device, &mut state, RX_SIZE, &16u64.to_le_bytes());
    write(&mut device, &mut state, MRQ, &42u32.to_le_bytes());

    assert_eq!(state.mrq, 42);
    assert_eq!(state.tx, [1, 2, 3]);
    assert_eq!(state.rx_capacity, 16);

    let mut ret = [0; 4];
    device.read(access(RETURN_CODE), &mut ret);
    assert_eq!(i32::from_le_bytes(ret), -7);
    let mut rx_size = [0; 8];
    device.read(access(RX_SIZE), &mut rx_size);
    assert_eq!(u64::from_le_bytes(rx_size), 4);
    let mut response = [0; 4];
    device.read(access(RX_BUFFER), &mut response);
    assert_eq!(response, [0xde, 0xad, 0xbe, 0xef]);
}

#[test]
fn rejects_out_of_bounds_accesses_and_sizes() {
    let mut state = BackendState::default();
    let mut device = NvidiaBpmpHost::new_with_backend();
    write(&mut device, &mut state, PROTOCOL_SIZE - 1, &[1, 2]);
    let mut outside = [1, 2];
    device.read(access(PROTOCOL_SIZE - 1), &mut outside);
    assert_eq!(outside, [0, 0]);

    write(
        &mut device,
        &mut state,
        TX_SIZE,
        &((MESSAGE_SIZE + 1) as u64).to_le_bytes(),
    );
    write(&mut device, &mut state, MRQ, &1u32.to_le_bytes());
    assert_eq!(state.mrq, 0);

    let mut ret = [0; 4];
    device.read(access(RETURN_CODE), &mut ret);
    assert_eq!(i32::from_le_bytes(ret), -libc::EIO);
}

#[test]
fn reports_backend_errors() {
    let mut state = BackendState {
        fail: true,
        ..Default::default()
    };
    let mut device = NvidiaBpmpHost::new();
    write(&mut device, &mut state, RX_SIZE, &8u64.to_le_bytes());
    write(&mut device, &mut state, MRQ, &1u32.to_le_bytes());

    let mut ret = [0; 4];
    device.read(access(RETURN_CODE), &mut ret);
    assert_eq!(i32::from_le_bytes(ret), -libc::EIO);
    let mut rx_size = [1; 8];
    device.read(access(RX_SIZE), &mut rx_size);
    assert_eq!(u64::from_le_bytes(rx_size), 0);
}

#[test]
fn bpmp_range_ends_with_the_window() {
    assert_eq!(
        NvidiaBpmpHost::range(0, PROTOCOL_SIZE),
        Some(0..PROTOCOL_SIZE)
    );
    assert_eq!(
        NvidiaBpmpHost::range(PROTOCOL_SIZE as u64, 0),
        Some(PROTOCOL_SIZE..PROTOCOL_SIZE)
    );
    assert_eq!(NvidiaBpmpHost::range(1, PROTOCOL_SIZE), None);
    assert_eq!(NvidiaBpmpHost::range(u64::MAX, 1), None);
    assert_eq!(NvidiaBpmpHost::range(1, usize::MAX), None);
}

#[test]
fn bpmp_write_outside_changes_nothing() {
    let mut device = NvidiaBpmpHost::new();
    let outcome = device.write(access(PROTOCOL_SIZE - 1), &[7, 7]);
    assert!(matches!(outcome, BpmpWrite::Outside));
    let mut last = [9];
    device.read(access(PROTOCOL_SIZE - 1), &mut last);
    assert_eq!(last, [0]);
}

#[test]
fn bpmp_stored_bytes_read_back_and_leave_the_rest() {
    let mut device = NvidiaBpmpHost::new();
    assert!(matches!(
        device.write(access(0x20), &[5, 6, 7]),
        BpmpWrite::Stored
    ));
    let mut seen = [1; 5];
    device.read(access(0x1f), &mut seen);
    assert_eq!(seen, [0, 5, 6, 7, 0]);
    assert_eq!(device.read_u64(0x20), 0x0007_0605);
}

#[test]
fn bpmp_refusal_names_the_sizes() {
    let mut device = NvidiaBpmpHost::new();
    device.write(access(TX_SIZE), &2u64.to_le_bytes());
    device.write(access(RX_SIZE), &0x201u64.to_le_bytes());
    match device.write(access(MRQ), &[1]) {
        BpmpWrite::Refused(e) => assert_eq!(
            e,
            SizeExceeded {
                tx_size: 2,
                rx_size: 0x201
            }
        ),
        other => panic!("{:?}", other),
    }
    assert_eq!(device.read_u64(RX_SIZE), 0);
    assert_eq!(device.read_u64(TX_SIZE), 2);
}

#[test]
fn bpmp_request_number_is_padded_and_cut() {
    let mut device = NvidiaBpmpHost::new();
    let numbers: [(&[u8], u32); 4] = [
        (&[], 0),
        (&[0x11, 0x22], 0x2211),
        (&[1, 2, 3, 4], 0x0403_0201),
        (&[1, 2, 3, 4, 5, 6], 0x0403_0201),
    ];
    for (data, number) in numbers {
        match device.write(access(MRQ), data) {
            BpmpWrite::Forward(request) => {
                assert_eq!(request.selector, number);
                assert!(request.tx.is_empty());
                assert!(request.rx.is_empty());
            }
            other => panic!("{:?}", other),
        }
    }
}

#[test]
fn bpmp_largest_request_is_forwarded() {
    let mut device = NvidiaBpmpHost::new();
    let tx: Vec<u8> = (0..MESSAGE_SIZE).map(|i| i as u8).collect();
    device.write(access(TX_BUFFER), &tx);
    device.write(access(TX_SIZE), &(MESSAGE_SIZE as u64).to_le_bytes());
    device.write(access(RX_SIZE), &(MESSAGE_SIZE as u64).to_le_bytes());
    match device.write(access(MRQ), &9u32.to_le_bytes()) {
        BpmpWrite::Forward(request) => {
            assert_eq!(request.tx, tx);
            assert_eq!(request.rx.len(), MESSAGE_SIZE);
        }
        other => panic!("{:?}", other),
    }
}

#[test]
fn bpmp_failed_transfer_keeps_what_the_driver_left() {
    let mut device = NvidiaBpmpHost::new();
    device.write(access(RX_SIZE), &2u64.to_le_bytes());
    if let BpmpWrite::Forward(mut request) = device.write(access(MRQ), &[1]) {
        request.rx[0] = 0x55;
        device.finish_transfer(&request.rx, None);
    }
    let mut seen = [0; 2];
    device.read(access(RX_BUFFER), &mut seen);
    assert_eq!(seen, [0x55, 0]);
    assert_eq!(device.read_u64(RX_SIZE), 0);
}

#[test]
fn bpmp_identity_and_region() {
    let device = NvidiaBpmpHost::new();
    assert_eq!(device.debug_label(), "nvidia-bpmp-host");
    assert_eq!(device.device_id(), PlatformDeviceId::NvidiaBpmpHost);
    assert!(PROTOCOL_SIZE as u64 <= NVIDIA_BPMP_MMIO_SIZE);
}
