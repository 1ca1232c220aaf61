use krakenctl::codec::FRAME_LEN;
use krakenctl::slots::SlotAllocator;
use krakenctl::transfer::{image_write_sequence, HostAction, BULK_DELAY_MS};

fn interrupt_frame(action: &HostAction) -> &Vec<u8> {
    match action {
        HostAction::WriteInterrupt(frame) => frame,
        _ => panic!("expected an interrupt write"),
    }
}

fn bulk_bytes(action: &HostAction) -> &Vec<u8> {
    match action {
        HostAction::WriteBulk(bytes) => bytes,
        _ => panic!("expected a bulk write"),
    }
}

fn check_pass(actions: &[HostAction], slot: u8, payload: &[u8], animated: bool) {
    assert_eq!(actions.len(), 9);
    let delete = interrupt_frame(&actions[0]);
    assert_eq!(&delete[..3], &[0x32, 2, slot]);
    let setup = interrupt_frame(&actions[1]);
    assert_eq!(&setup[..4], &[0x32, 1, slot, slot + 1]);
    let start = interrupt_frame(&actions[2]);
    assert_eq!(&start[..3], &[0x36, 1, slot]);
    assert!(matches!(actions[3], HostAction::SleepMs(BULK_DELAY_MS)));
    let header = bulk_bytes(&actions[4]);
    assert_eq!(header.len(), 512);
    assert_eq!(header[12], if animated { 1 } else { 0 });
    assert!(matches!(actions[5], HostAction::SleepMs(BULK_DELAY_MS)));
    assert_eq!(bulk_bytes(&actions[6]).as_slice(), payload);
    let end = interrupt_frame(&actions[7]);
    assert_eq!(&end[..2], &[0x36, 2]);
    let show = interrupt_frame(&actions[8]);
    assert_eq!(&show[..4], &[0x38, 1, 4, slot]);
}

#[test]
fn first_write_wipes_all_slots_then_writes_twice() {
    let mut alloc = SlotAllocator::new();
    let payload = vec![7u8; 32];
    let actions = image_write_sequence(&mut alloc, &payload, false);
    assert_eq!(actions.len(), 16 + 9 + 9);
    for (i, action) in actions[..16].iter().enumerate() {
        let frame = interrupt_frame(action);
        assert_eq!(frame.len(), FRAME_LEN);
        assert_eq!(&frame[..3], &[0x30, 4, i as u8]);
    }
    let first_slot = interrupt_frame(&actions[16])[2];
    assert!(first_slot < 16);
    check_pass(&actions[16..25], first_slot, &payload, false);
    check_pass(&actions[25..34], (first_slot + 1) % 16, &payload, false);
}

#[test]
fn later_writes_skip_the_wipe_and_advance() {
    let mut alloc = SlotAllocator::new();
    alloc.seed_if_fresh();
    let start = alloc.take_next();
    let payload = vec![1u8, 2, 3];
    let actions = image_write_sequence(&mut alloc, &payload, true);
    assert_eq!(actions.len(), 18);
    let first = (start + 1) % 16;
    check_pass(&actions[..9], first, &payload, true);
    check_pass(&actions[9..], (first + 1) % 16, &payload, true);
    // the allocator advanced twice
    assert_eq!(alloc.take_next(), (first + 2) % 16);
}

#[test]
fn animated_payload_marks_the_header() {
    let mut alloc = SlotAllocator::new();
    alloc.seed_if_fresh();
    alloc.take_next();
    let payload = vec![0u8; 8];
    let actions = image_write_sequence(&mut alloc, &payload, true);
    assert_eq!(bulk_bytes(&actions[4])[12], 1);
    let mut alloc2 = SlotAllocator::new();
    alloc2.seed_if_fresh();
    alloc2.take_next();
    let actions2 = image_write_sequence(&mut alloc2, &payload, false);
    assert_eq!(bulk_bytes(&actions2[4])[12], 0);
}
