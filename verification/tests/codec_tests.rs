use krakenctl::codec::{
    blank_frame, brightness_frame, brightness_frame_checked, bulk_end_frame, bulk_header,
    bulk_start_frame, clear_slot_frame, delete_slot_frame, firmware_request_frame, liquid_frame,
    setup_slot_frame, show_slot_frame, slot_offset, status_request_frame, BULK_HEADER_LEN,
    FRAME_LEN,
};

fn padded(prefix: &[u8], len: usize) -> Vec<u8> {
    let mut v = prefix.to_vec();
    v.resize(len, 0);
    v
}

#[test]
fn command_frames_are_64_bytes_zero_padded() {
    assert_eq!(blank_frame(), padded(&[0x38, 1], FRAME_LEN));
    assert_eq!(liquid_frame(), padded(&[0x38, 1, 2], FRAME_LEN));
    assert_eq!(brightness_frame(50), padded(&[0x30, 2, 1, 50], FRAME_LEN));
    assert_eq!(show_slot_frame(3), padded(&[0x38, 1, 4, 3], FRAME_LEN));
    assert_eq!(clear_slot_frame(7), padded(&[0x30, 4, 7], FRAME_LEN));
    assert_eq!(delete_slot_frame(9), padded(&[0x32, 2, 9], FRAME_LEN));
    assert_eq!(bulk_start_frame(2), padded(&[0x36, 1, 2], FRAME_LEN));
    assert_eq!(bulk_end_frame(), padded(&[0x36, 2], FRAME_LEN));
    assert_eq!(status_request_frame(), padded(&[0x74, 1], FRAME_LEN));
    assert_eq!(firmware_request_frame(), padded(&[0x10, 1], FRAME_LEN));
}

#[test]
fn brightness_is_validated() {
    assert!(brightness_frame_checked(100).is_some());
    assert!(brightness_frame_checked(0).is_some());
    assert!(brightness_frame_checked(101).is_none());
    assert!(brightness_frame_checked(255).is_none());
}

#[test]
fn slot_offsets_follow_the_device_table() {
    assert_eq!(slot_offset(0), (0x00, 0x00));
    assert_eq!(slot_offset(1), (0x90, 0x01));
    assert_eq!(slot_offset(4), (0x40, 0x06));
    assert_eq!(slot_offset(10), (0xa0, 0x0f));
    assert_eq!(slot_offset(15), (0x70, 0x17));
}

#[test]
fn setup_frame_carries_slot_and_offset() {
    let frame = setup_slot_frame(5);
    assert_eq!(
        frame,
        padded(&[0x32, 1, 5, 6, 0xd0, 0x07, 0x90, 1, 1], FRAME_LEN)
    );
}

#[test]
fn bulk_header_is_512_bytes_with_payload_kind() {
    let fixed = [
        0x12u8, 0xfa, 0x01, 0xe8, 0xab, 0xcd, 0xef, 0x98, 0x76, 0x54, 0x32, 0x10,
    ];
    let still = bulk_header(false);
    assert_eq!(still.len(), BULK_HEADER_LEN);
    assert_eq!(&still[..12], &fixed);
    assert_eq!(still[12], 0);
    assert_eq!(&still[13..19], &[0x00, 0x00, 0x00, 0x00, 0x40, 0x06]);
    assert!(still[19..].iter().all(|&b| b == 0));

    let animated = bulk_header(true);
    assert_eq!(animated.len(), BULK_HEADER_LEN);
    assert_eq!(animated[12], 1);
    assert_eq!(&animated[..12], &fixed);
}
