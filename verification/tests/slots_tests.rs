use krakenctl::slots::SlotAllocator;

#[test]
fn allocation_round_robins_mod_16() {
    let mut alloc = SlotAllocator::new();
    alloc.seed_if_fresh();
    let start = alloc.take_next();
    assert!(start < 16);
    let mut expected = start;
    for _ in 0..16 {
        expected = (expected + 1) % 16;
        assert_eq!(alloc.take_next(), expected);
    }
    // the seventeenth allocation after the first returns to the start
    assert_eq!(expected, start);
}

#[test]
fn a_new_session_is_unseeded() {
    let mut first = SlotAllocator::new();
    assert!(first.is_fresh());
    first.seed_if_fresh();
    first.take_next();
    assert!(!first.is_fresh());
    // a separate session carries nothing over
    let second = SlotAllocator::new();
    assert!(second.is_fresh());
}

#[test]
fn seeding_twice_does_not_reseed() {
    let mut alloc = SlotAllocator::new();
    alloc.seed_if_fresh();
    let first = alloc.take_next();
    alloc.seed_if_fresh();
    assert_eq!(alloc.take_next(), (first + 1) % 16);
}
