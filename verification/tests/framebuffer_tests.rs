use krakenctl::framebuffer::{flip_both, FB_BYTES};

fn index_of(x: usize, y: usize, channel: usize) -> usize {
    4 * (y * 320 + x) + channel
}

#[test]
fn flip_keeps_the_exact_length() {
    let fb = vec![0u8; FB_BYTES];
    assert_eq!(flip_both(&fb).len(), FB_BYTES);
    assert_eq!(FB_BYTES, 320 * 320 * 4);
}

#[test]
fn flip_reflects_through_the_center() {
    let mut fb = vec![0u8; FB_BYTES];
    fb[index_of(0, 0, 0)] = 11;
    fb[index_of(319, 319, 1)] = 22;
    fb[index_of(5, 17, 2)] = 33;
    let flipped = flip_both(&fb);
    assert_eq!(flipped[index_of(319, 319, 0)], 11);
    assert_eq!(flipped[index_of(0, 0, 1)], 22);
    assert_eq!(flipped[index_of(314, 302, 2)], 33);
    // channels stay with their pixel
    assert_eq!(flipped[index_of(319, 319, 1)], 0);
}

#[test]
fn flipping_twice_restores_the_buffer() {
    let fb: Vec<u8> = (0..FB_BYTES).map(|i| (i % 251) as u8).collect();
    assert_eq!(flip_both(&flip_both(&fb)), fb);
}
