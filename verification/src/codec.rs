//! Builders for the fixed-layout byte frames of the device protocol.
//!
//! Every command travels in a 64-byte interrupt frame: a small number of
//! meaningful leading bytes followed by zero padding.  A bulk image transfer
//! is announced by a 512-byte header frame with a fixed 19-byte preamble.

use vstd::prelude::*;

verus! {

/// Length of every command frame.
pub const FRAME_LEN: usize = 64;

/// Length of the bulk transfer header frame.
pub const BULK_HEADER_LEN: usize = 512;

/// Number of image slots the device memory holds.
pub const SLOT_COUNT: u8 = 16;

/// A frame is its meaningful leading bytes padded with zeros to `len`.
pub open spec fn spec_zero_padded(prefix: Seq<u8>, len: nat) -> Seq<u8>
    recommends
        prefix.len() <= len,
{
    prefix + Seq::new((len - prefix.len()) as nat, |i: int| 0u8)
}

fn zero_padded(prefix: Vec<u8>, len: usize) -> (r: Vec<u8>)
    requires
        prefix.len() <= len,
    ensures
        r@ == spec_zero_padded(prefix@, len as nat),
        r@.len() == len,
{
    let ghost p = prefix@;
    let mut v = prefix;
    while v.len() < len
        invariant
            p.len() <= len,
            p.len() <= v.len() <= len,
            v@ =~= spec_zero_padded(p, v.len() as nat),
        decreases len - v.len(),
    {
        v.push(0);
    }
    assert(v@ =~= spec_zero_padded(p, len as nat));
    v
}

/// Frame that switches the display to a blank screen.
pub open spec fn spec_blank_frame() -> Seq<u8> {
    spec_zero_padded(seq![0x38u8, 1u8], FRAME_LEN as nat)
}

pub fn blank_frame() -> (r: Vec<u8>)
    ensures
        r@ == spec_blank_frame(),
        r@.len() == FRAME_LEN,
{
    zero_padded(vec![0x38, 1], FRAME_LEN)
}

/// Frame that switches the display to the liquid-temperature screen.
pub open spec fn spec_liquid_frame() -> Seq<u8> {
    spec_zero_padded(seq![0x38u8, 1u8, 2u8], FRAME_LEN as nat)
}

pub fn liquid_frame() -> (r: Vec<u8>)
    ensures
        r@ == spec_liquid_frame(),
        r@.len() == FRAME_LEN,
{
    zero_padded(vec![0x38, 1, 2], FRAME_LEN)
}

/// Frame that sets the display brightness, a percentage.
pub open spec fn spec_brightness_frame(brightness: u8) -> Seq<u8> {
    spec_zero_padded(seq![0x30u8, 2u8, 1u8, brightness], FRAME_LEN as nat)
}

pub fn brightness_frame(brightness: u8) -> (r: Vec<u8>)
    requires
        brightness <= 100,
    ensures
        r@ == spec_brightness_frame(brightness),
        r@.len() == FRAME_LEN,
{
    zero_padded(vec![0x30, 2, 1, brightness], FRAME_LEN)
}

/// The brightness command demands a percentage: a larger value yields no
/// frame, exactly as the device is never written then.
pub fn brightness_frame_checked(brightness: u8) -> (r: Option<Vec<u8>>)
    ensures
        (brightness <= 100) <==> (r is Some),
        r matches Some(f) ==> f@ == spec_brightness_frame(brightness) && f@.len() == FRAME_LEN,
{
    if brightness <= 100 {
        Some(brightness_frame(brightness))
    } else {
        None
    }
}

/// Frame that shows the image stored at `slot`.
pub open spec fn spec_show_slot_frame(slot: u8) -> Seq<u8> {
    spec_zero_padded(seq![0x38u8, 1u8, 4u8, slot], FRAME_LEN as nat)
}

pub fn show_slot_frame(slot: u8) -> (r: Vec<u8>)
    ensures
        r@ == spec_show_slot_frame(slot),
        r@.len() == FRAME_LEN,
{
    zero_padded(vec![0x38, 1, 4, slot], FRAME_LEN)
}

/// Frame that clears the image stored at `slot`.
pub open spec fn spec_clear_slot_frame(slot: u8) -> Seq<u8> {
    spec_zero_padded(seq![0x30u8, 4u8, slot], FRAME_LEN as nat)
}

pub fn clear_slot_frame(slot: u8) -> (r: Vec<u8>)
    ensures
        r@ == spec_clear_slot_frame(slot),
        r@.len() == FRAME_LEN,
{
    zero_padded(vec![0x30, 4, slot], FRAME_LEN)
}

/// Frame that deletes the image bucket at `slot` before it is rewritten.
pub open spec fn spec_delete_slot_frame(slot: u8) -> Seq<u8> {
    spec_zero_padded(seq![0x32u8, 2u8, slot], FRAME_LEN as nat)
}

pub fn delete_slot_frame(slot: u8) -> (r: Vec<u8>)
    ensures
        r@ == spec_delete_slot_frame(slot),
        r@.len() == FRAME_LEN,
{
    zero_padded(vec![0x32, 2, slot], FRAME_LEN)
}

/// The device memory offset bound to each slot, as a two-byte address.
/// The table encodes the physical memory layout of the device: the slot
/// order does not follow the offset order and must be kept exactly.
pub open spec fn spec_slot_offset(slot: int) -> (u8, u8) {
    if slot == 0 {
        (0x00, 0x00)
    } else if slot == 1 {
        (0x90, 0x01)
    } else if slot == 2 {
        (0x20, 0x03)
    } else if slot == 3 {
        (0xb0, 0x04)
    } else if slot == 4 {
        (0x40, 0x06)
    } else if slot == 5 {
        (0xd0, 0x07)
    } else if slot == 6 {
        (0x60, 0x09)
    } else if slot == 7 {
        (0xf0, 0x0a)
    } else if slot == 8 {
        (0x80, 0x0c)
    } else if slot == 9 {
        (0x10, 0x0e)
    } else if slot == 10 {
        (0xa0, 0x0f)
    } else if slot == 11 {
        (0x30, 0x11)
    } else if slot == 12 {
        (0xc0, 0x12)
    } else if slot == 13 {
        (0x50, 0x14)
    } else if slot == 14 {
        (0xe0, 0x15)
    } else {
        (0x70, 0x17)
    }
}

pub fn slot_offset(slot: u8) -> (r: (u8, u8))
    requires
        slot < SLOT_COUNT,
    ensures
        r == spec_slot_offset(slot as int),
{
    match slot {
        0 => (0x00, 0x00),
        1 => (0x90, 0x01),
        2 => (0x20, 0x03),
        3 => (0xb0, 0x04),
        4 => (0x40, 0x06),
        5 => (0xd0, 0x07),
        6 => (0x60, 0x09),
        7 => (0xf0, 0x0a),
        8 => (0x80, 0x0c),
        9 => (0x10, 0x0e),
        10 => (0xa0, 0x0f),
        11 => (0x30, 0x11),
        12 => (0xc0, 0x12),
        13 => (0x50, 0x14),
        14 => (0xe0, 0x15),
        _ => (0x70, 0x17),
    }
}

/// Frame that configures the bucket at `slot` with its memory offset.
pub open spec fn spec_setup_slot_frame(slot: u8) -> Seq<u8> {
    spec_zero_padded(
        seq![
            0x32u8,
            1u8,
            slot,
            (slot + 1) as u8,
            spec_slot_offset(slot as int).0,
            spec_slot_offset(slot as int).1,
            0x90u8,
            1u8,
            1u8,
        ],
        FRAME_LEN as nat,
    )
}

pub fn setup_slot_frame(slot: u8) -> (r: Vec<u8>)
    requires
        slot < SLOT_COUNT,
    ensures
        r@ == spec_setup_slot_frame(slot),
        r@.len() == FRAME_LEN,
{
    let (lo, hi) = slot_offset(slot);
    zero_padded(vec![0x32, 1, slot, slot + 1, lo, hi, 0x90, 1, 1], FRAME_LEN)
}

/// Frame that starts a bulk image write into `slot`.
pub open spec fn spec_bulk_start_frame(slot: u8) -> Seq<u8> {
    spec_zero_padded(seq![0x36u8, 1u8, slot], FRAME_LEN as nat)
}

pub fn bulk_start_frame(slot: u8) -> (r: Vec<u8>)
    ensures
        r@ == spec_bulk_start_frame(slot),
        r@.len() == FRAME_LEN,
{
    zero_padded(vec![0x36, 1, slot], FRAME_LEN)
}

/// Frame that ends a bulk image write.
pub open spec fn spec_bulk_end_frame() -> Seq<u8> {
    spec_zero_padded(seq![0x36u8, 2u8], FRAME_LEN as nat)
}

pub fn bulk_end_frame() -> (r: Vec<u8>)
    ensures
        r@ == spec_bulk_end_frame(),
        r@.len() == FRAME_LEN,
{
    zero_padded(vec![0x36, 2], FRAME_LEN)
}

/// Frame that requests the temperature and speed status report.
pub open spec fn spec_status_request_frame() -> Seq<u8> {
    spec_zero_padded(seq![0x74u8, 1u8], FRAME_LEN as nat)
}

pub fn status_request_frame() -> (r: Vec<u8>)
    ensures
        r@ == spec_status_request_frame(),
        r@.len() == FRAME_LEN,
{
    zero_padded(vec![0x74, 1], FRAME_LEN)
}

/// Frame that requests the firmware version report.
pub open spec fn spec_firmware_request_frame() -> Seq<u8> {
    spec_zero_padded(seq![0x10u8, 1u8], FRAME_LEN as nat)
}

pub fn firmware_request_frame() -> (r: Vec<u8>)
    ensures
        r@ == spec_firmware_request_frame(),
        r@.len() == FRAME_LEN,
{
    zero_padded(vec![0x10, 1], FRAME_LEN)
}

/// The bulk header: a fixed preamble whose byte 12 selects a static image
/// (0) or an animated payload (1), zero padded to 512 bytes.
pub open spec fn spec_bulk_header(animated: bool) -> Seq<u8> {
    spec_zero_padded(
        seq![
            0x12u8,
            0xfau8,
            0x01u8,
            0xe8u8,
            0xabu8,
            0xcdu8,
            0xefu8,
            0x98u8,
            0x76u8,
            0x54u8,
            0x32u8,
            0x10u8,
            (if animated { 1u8 } else { 0u8 }),
            0x00u8,
            0x00u8,
            0x00u8,
            0x00u8,
            0x40u8,
            0x06u8,
        ],
        BULK_HEADER_LEN as nat,
    )
}

pub fn bulk_header(animated: bool) -> (r: Vec<u8>)
    ensures
        r@ == spec_bulk_header(animated),
        r@.len() == BULK_HEADER_LEN,
{
    let kind: u8 = if animated { 1 } else { 0 };
    zero_padded(
        vec![
            0x12, 0xfa, 0x01, 0xe8, 0xab, 0xcd, 0xef, 0x98, 0x76, 0x54, 0x32, 0x10, kind, 0x00,
            0x00, 0x00, 0x00, 0x40, 0x06,
        ],
        BULK_HEADER_LEN,
    )
}

} // verus!
