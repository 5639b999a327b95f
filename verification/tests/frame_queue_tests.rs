use mac_sniff::frame::{frame_type_label, ingest_frame, parse_frame, FRAME_MIN_LEN};
use mac_sniff::mac::MacAddress;
use mac_sniff::queue::MacQueue;

fn frame_bytes(byte0: u8, dst: [u8; 6], src: [u8; 6]) -> Vec<u8> {
    let mut buf = vec![0u8; 24];
    buf[0] = byte0;
    buf[4..10].copy_from_slice(&dst);
    buf[10..16].copy_from_slice(&src);
    buf
}

#[test]
fn parse_frame_reads_fixed_header_fields() {
    // byte0 = 0b1000_1000: type bits = 0b10, subtype bits = 0b1000.
    let buf = frame_bytes(
        0x88,
        [0xAA, 0xBB, 0xCC, 0xDD, 0xEE, 0xFF],
        [0x01, 0x02, 0x03, 0x04, 0x05, 0x06],
    );
    let frame = parse_frame(&buf).expect("16 bytes are enough");
    assert_eq!(frame.frame_type, 2);
    assert_eq!(frame.frame_subtype, 8);
    assert_eq!(
        frame.destination_mac,
        MacAddress::new(0xAA, 0xBB, 0xCC, 0xDD, 0xEE, 0xFF)
    );
    assert_eq!(
        frame.source_mac,
        MacAddress::new(0x01, 0x02, 0x03, 0x04, 0x05, 0x06)
    );
}

#[test]
fn parse_frame_rejects_short_buffers() {
    assert!(parse_frame(&[]).is_none());
    assert!(parse_frame(&[0u8; FRAME_MIN_LEN - 1]).is_none());
    assert!(parse_frame(&[0u8; FRAME_MIN_LEN]).is_some());
}

#[test]
fn frame_type_labels_match_the_radio_taxonomy() {
    assert_eq!(frame_type_label(0), "Management");
    assert_eq!(frame_type_label(1), "Control");
    assert_eq!(frame_type_label(2), "Data");
    assert_eq!(frame_type_label(3), "Extension");
    assert_eq!(frame_type_label(7), "Unknown");
}

#[test]
fn queue_preserves_fifo_order() {
    let mut q = MacQueue::new(10);
    let a = MacAddress::new(1, 1, 1, 1, 1, 1);
    let b = MacAddress::new(2, 2, 2, 2, 2, 2);
    assert!(q.try_send(a));
    assert!(q.try_send(b));
    assert_eq!(q.try_recv(), Some(a));
    assert_eq!(q.try_recv(), Some(b));
    assert_eq!(q.try_recv(), None);
}

#[test]
fn queue_backpressure_drops_excess_without_corruption() {
    let mut q = MacQueue::new(3);
    for i in 0..3u8 {
        assert!(q.try_send(MacAddress::new(i, i, i, i, i, i)));
    }
    // Full: further offers fail and change nothing.
    assert!(!q.try_send(MacAddress::new(9, 9, 9, 9, 9, 9)));
    assert!(!q.try_send(MacAddress::new(8, 8, 8, 8, 8, 8)));
    assert_eq!(q.len(), 3);
    for i in 0..3u8 {
        assert_eq!(q.try_recv(), Some(MacAddress::new(i, i, i, i, i, i)));
    }
    assert_eq!(q.try_recv(), None);
}

#[test]
fn ingest_offers_destination_then_source() {
    let mut q = MacQueue::new(10);
    let buf = frame_bytes(
        0x00,
        [0xAA, 0xAA, 0xAA, 0xAA, 0xAA, 0xAA],
        [0xBB, 0xBB, 0xBB, 0xBB, 0xBB, 0xBB],
    );
    ingest_frame(&mut q, &buf);
    assert_eq!(q.len(), 2);
    assert_eq!(
        q.try_recv(),
        Some(MacAddress::new(0xAA, 0xAA, 0xAA, 0xAA, 0xAA, 0xAA))
    );
    assert_eq!(
        q.try_recv(),
        Some(MacAddress::new(0xBB, 0xBB, 0xBB, 0xBB, 0xBB, 0xBB))
    );
}

#[test]
fn ingest_ignores_short_frames_and_full_queues() {
    let mut q = MacQueue::new(1);
    ingest_frame(&mut q, &[0u8; 8]);
    assert_eq!(q.len(), 0);
    let buf = frame_bytes(
        0x00,
        [0xAA, 0xAA, 0xAA, 0xAA, 0xAA, 0xAA],
        [0xBB, 0xBB, 0xBB, 0xBB, 0xBB, 0xBB],
    );
    // Capacity 1: the destination fits, the source is dropped silently.
    ingest_frame(&mut q, &buf);
    assert_eq!(q.len(), 1);
    assert_eq!(
        q.try_recv(),
        Some(MacAddress::new(0xAA, 0xAA, 0xAA, 0xAA, 0xAA, 0xAA))
    );
}
