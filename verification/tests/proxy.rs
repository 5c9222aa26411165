use guest_bridges::bytes::{
    be_u16_at, clear, i32_at, i32_bytes, le_u32_prefix, store, u32_at, u32_bytes, u64_at,
    u64_bytes, ByteOrder,
};
use guest_bridges::error::ErrorKind;
use guest_bridges::platform::{host_byte_order, order_shown_by};
use guest_bridges::proxy::{
    check_request_write, HostReply, ProxyRequest, ProxyWireMessage, WriteFault, WIRE_SIZE,
};

const MESSAGE: ProxyWireMessage = ProxyWireMessage {
    selector: 0x0102_0304,
    reserved: 0,
    tx_data: 0x1112_1314_1516_1718,
    tx_size: 3,
    rx_data: 0x2122_2324_2526_2728,
    rx_size: 16,
    ret: -2,
    trailer: 5,
};

#[test]
fn message_layout() {
    let wire = MESSAGE.encode(ByteOrder::Little);
    assert_eq!(wire.len(), WIRE_SIZE);
    assert_eq!(wire[0..4], [4, 3, 2, 1]);
    assert_eq!(
        wire[8..16],
        [0x18, 0x17, 0x16, 0x15, 0x14, 0x13, 0x12, 0x11]
    );
    assert_eq!(wire[16..24], [3, 0, 0, 0, 0, 0, 0, 0]);
    assert_eq!(wire[40..44], [0xfe, 0xff, 0xff, 0xff]);
    let wire = MESSAGE.encode(ByteOrder::Big);
    assert_eq!(wire[0..4], [1, 2, 3, 4]);
    assert_eq!(wire[32..40], [0, 0, 0, 0, 0, 0, 0, 16]);
    assert_eq!(wire[44..48], [0, 0, 0, 5]);
}

#[test]
fn message_round_trip() {
    for order in [ByteOrder::Little, ByteOrder::Big] {
        let wire = MESSAGE.encode(order);
        assert_eq!(ProxyWireMessage::decode(order, &wire), MESSAGE);
        assert_eq!(
            HostReply::from_wire(order, &wire),
            HostReply { size: 16, ret: -2 }
        );
    }
}

#[test]
fn request_message_has_zeros_elsewhere() {
    let request = ProxyRequest {
        selector: 7,
        tx: vec![1, 2],
        rx: vec![0; 9],
    };
    assert_eq!(
        request.message(0x10, 0x20),
        ProxyWireMessage {
            selector: 7,
            reserved: 0,
            tx_data: 0x10,
            tx_size: 2,
            rx_data: 0x20,
            rx_size: 9,
            ret: 0,
            trailer: 0,
        }
    );
}

#[test]
fn request_writes_are_judged() {
    assert_eq!(check_request_write(48), Ok(()));
    assert_eq!(check_request_write(-1), Err(WriteFault::Os));
    assert_eq!(check_request_write(0), Err(WriteFault::Short(0)));
    assert_eq!(check_request_write(47), Err(WriteFault::Short(47)));
    assert_eq!(check_request_write(49), Err(WriteFault::Short(49)));
}

#[test]
fn byte_order_of_this_machine() {
    let order = host_byte_order();
    assert_eq!(u32_bytes(order, 0x0102_0304), 0x0102_0304u32.to_ne_bytes());
    assert_eq!(order_shown_by([1, 0]), ByteOrder::Little);
    assert_eq!(order_shown_by([0, 1]), ByteOrder::Big);
}

#[test]
fn numbers_as_bytes() {
    for v in [0u64, 1, 0xff, 0x100, 0xdead_beef, u64::MAX] {
        assert_eq!(u64_bytes(ByteOrder::Little, v), v.to_le_bytes());
        assert_eq!(u64_bytes(ByteOrder::Big, v), v.to_be_bytes());
        assert_eq!(u64_at(ByteOrder::Little, &v.to_le_bytes(), 0), v);
        assert_eq!(u64_at(ByteOrder::Big, &v.to_be_bytes(), 0), v);
    }
    for v in [0u32, 0x80, 0x1234_5678, u32::MAX] {
        assert_eq!(u32_bytes(ByteOrder::Little, v), v.to_le_bytes());
        assert_eq!(u32_bytes(ByteOrder::Big, v), v.to_be_bytes());
        assert_eq!(u32_at(ByteOrder::Little, &v.to_le_bytes(), 0), v);
        assert_eq!(u32_at(ByteOrder::Big, &v.to_be_bytes(), 0), v);
    }
    for v in [0i32, 1, -1, -5, i32::MAX, i32::MIN] {
        assert_eq!(i32_bytes(ByteOrder::Little, v), v.to_le_bytes());
        assert_eq!(i32_bytes(ByteOrder::Big, v), v.to_be_bytes());
        assert_eq!(i32_at(ByteOrder::Little, &v.to_le_bytes(), 0), v);
        assert_eq!(i32_at(ByteOrder::Big, &v.to_be_bytes(), 0), v);
    }
    assert_eq!(be_u16_at(&[0, 0x12, 0x34], 1), 0x1234);
    assert_eq!(le_u32_prefix(&[0x34, 0x12]), 0x1234);
    assert_eq!(le_u32_prefix(&[1, 0, 0, 0x80, 9]), 0x8000_0001);
}

#[test]
fn buffers_change_where_asked() {
    let mut buf = [1, 2, 3, 4];
    store(&mut buf, 1, &[8, 9]);
    assert_eq!(buf, [1, 8, 9, 4]);
    clear(&mut buf);
    assert_eq!(buf, [0; 4]);
}

#[test]
fn outcomes_of_a_request_write() {
    let order = ByteOrder::Little;
    let wire = MESSAGE.encode(order);
    assert_eq!(
        HostReply::after_write(order, 48, &wire),
        Ok(HostReply { size: 16, ret: -2 })
    );
    let refused = HostReply::after_write(order, -1, &wire).unwrap_err();
    assert_eq!(refused, WriteFault::Os);
    assert_eq!(refused.kind(), None);
    let short = HostReply::after_write(order, 12, &wire).unwrap_err();
    assert_eq!(short, WriteFault::Short(12));
    assert_eq!(short.kind(), Some(ErrorKind::WriteZero));
}
