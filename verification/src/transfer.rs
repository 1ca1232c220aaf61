//! The ordered transfer sequence that writes an image into the device.
//!
//! Writing an image is a strictly ordered run of transport steps: on the
//! first write of a session all 16 slots are cleared, then for each target
//! slot the bucket is deleted, configured, a bulk write is started, the
//! 512-byte header and the payload are sent with short pauses, the bulk
//! write is ended and the slot is shown.  As a mitigation for intermittent
//! device write failures the same image is unconditionally written to two
//! consecutive slots, each advancing the allocator.  The transport layer
//! performs the steps in order and aborts the run at its first failure.

use vstd::prelude::*;
use crate::codec::{
    spec_bulk_end_frame, spec_bulk_header, spec_bulk_start_frame, spec_clear_slot_frame,
    spec_delete_slot_frame, spec_setup_slot_frame, spec_show_slot_frame, SLOT_COUNT,
};
use crate::codec::{
    bulk_end_frame, bulk_header, bulk_start_frame, clear_slot_frame, delete_slot_frame,
    setup_slot_frame, show_slot_frame,
};
use crate::slots::{spec_slot_after, SlotAllocator};

verus! {

broadcast use vstd::prelude::Seq::lemma_push_map_commute;

/// Pause after starting a bulk write and after sending its header, giving
/// the device time to enter receiving mode.
pub const BULK_DELAY_MS: u64 = 100;

/// One step the transport layer must perform.
pub enum HostAction {
    /// Write a 64-byte command frame to the interrupt endpoint.
    WriteInterrupt(Vec<u8>),
    /// Pause for the given number of milliseconds.
    SleepMs(u64),
    /// Write the bytes to the bulk endpoint.
    WriteBulk(Vec<u8>),
}

/// The mathematical shape of a transport step.
pub enum ActionModel {
    Interrupt(Seq<u8>),
    Sleep(u64),
    Bulk(Seq<u8>),
}

impl View for HostAction {
    type V = ActionModel;

    open spec fn view(&self) -> ActionModel {
        match self {
            HostAction::WriteInterrupt(frame) => ActionModel::Interrupt(frame@),
            HostAction::SleepMs(ms) => ActionModel::Sleep(*ms),
            HostAction::WriteBulk(bytes) => ActionModel::Bulk(bytes@),
        }
    }
}

/// The models of a list of transport steps.
pub open spec fn spec_actions(s: Seq<HostAction>) -> Seq<ActionModel> {
    s.map_values(|a: HostAction| a@)
}

/// The full wipe that precedes the first image write of a session.
pub open spec fn spec_clear_all_actions() -> Seq<ActionModel> {
    Seq::new(SLOT_COUNT as nat, |i: int| ActionModel::Interrupt(spec_clear_slot_frame(i as u8)))
}

/// The run of steps that writes one image into one slot and shows it:
/// delete the bucket, configure it, start the bulk write, send the header
/// and the payload with pauses, end the bulk write, show the slot.
pub open spec fn spec_slot_write_pass(slot: u8, payload: Seq<u8>, animated: bool) -> Seq<
    ActionModel,
> {
    seq![
        ActionModel::Interrupt(spec_delete_slot_frame(slot)),
        ActionModel::Interrupt(spec_setup_slot_frame(slot)),
        ActionModel::Interrupt(spec_bulk_start_frame(slot)),
        ActionModel::Sleep(BULK_DELAY_MS),
        ActionModel::Bulk(spec_bulk_header(animated)),
        ActionModel::Sleep(BULK_DELAY_MS),
        ActionModel::Bulk(payload),
        ActionModel::Interrupt(spec_bulk_end_frame()),
        ActionModel::Interrupt(spec_show_slot_frame(slot)),
    ]
}

/// The whole sequence of one image write: an optional full wipe, then the
/// same image written to two consecutive slots starting at `start`.
pub open spec fn spec_image_write_sequence(
    first_write: bool,
    start: u8,
    payload: Seq<u8>,
    animated: bool,
) -> Seq<ActionModel> {
    (if first_write {
        spec_clear_all_actions()
    } else {
        Seq::<ActionModel>::empty()
    }) + spec_slot_write_pass(start, payload, animated) + spec_slot_write_pass(
        spec_slot_after(start, 1),
        payload,
        animated,
    )
}

fn clone_bytes(bytes: &Vec<u8>) -> (r: Vec<u8>)
    ensures
        r@ == bytes@,
{
    let mut r: Vec<u8> = Vec::new();
    let mut i: usize = 0;
    while i < bytes.len()
        invariant
            i <= bytes.len(),
            r@ =~= bytes@.subrange(0, i as int),
        decreases bytes.len() - i,
    {
        r.push(bytes[i]);
        i += 1;
    }
    assert(r@ =~= bytes@);
    r
}

fn push_slot_write_pass(actions: &mut Vec<HostAction>, slot: u8, payload: &Vec<u8>, animated: bool)
    requires
        slot < SLOT_COUNT,
    ensures
        spec_actions(final(actions)@) =~= spec_actions(old(actions)@) + spec_slot_write_pass(
            slot,
            payload@,
            animated,
        ),
{
    actions.push(HostAction::WriteInterrupt(delete_slot_frame(slot)));
    actions.push(HostAction::WriteInterrupt(setup_slot_frame(slot)));
    actions.push(HostAction::WriteInterrupt(bulk_start_frame(slot)));
    actions.push(HostAction::SleepMs(BULK_DELAY_MS));
    actions.push(HostAction::WriteBulk(bulk_header(animated)));
    actions.push(HostAction::SleepMs(BULK_DELAY_MS));
    actions.push(HostAction::WriteBulk(clone_bytes(payload)));
    actions.push(HostAction::WriteInterrupt(bulk_end_frame()));
    actions.push(HostAction::WriteInterrupt(show_slot_frame(slot)));
}

/// Builds the ordered transport steps that write `payload` into the device
/// and show it.  On the first write of a session the sequence begins with
/// the full wipe and the allocator is seeded; the image then goes to two
/// consecutive slots, and the allocator ends two requests further on.
pub fn image_write_sequence(
    alloc: &mut SlotAllocator,
    payload: &Vec<u8>,
    animated: bool,
) -> (r: Vec<HostAction>)
    requires
        old(alloc).wf(),
    ensures
        final(alloc).wf(),
        exists|start: u8|
            {
                &&& #[trigger] spec_actions(r@) == spec_image_write_sequence(
                    old(alloc).spec_counter() is None,
                    start,
                    payload@,
                    animated,
                )
                &&& start < SLOT_COUNT
                &&& old(alloc).spec_counter() is Some ==> start == old(alloc).spec_counter()->0
                &&& final(alloc).spec_counter() == Some(spec_slot_after(start, 2))
            },
{
    let first_write = alloc.is_fresh();
    let mut actions: Vec<HostAction> = Vec::new();
    if first_write {
        let mut i: u8 = 0;
        while i < SLOT_COUNT
            invariant
                i <= SLOT_COUNT,
                spec_actions(actions@) =~= spec_clear_all_actions().subrange(0, i as int),
            decreases SLOT_COUNT - i,
        {
            actions.push(HostAction::WriteInterrupt(clear_slot_frame(i)));
            assert(spec_actions(actions@) =~= spec_clear_all_actions().subrange(0, i + 1 as int));
            i += 1;
        }
        assert(spec_actions(actions@) =~= spec_clear_all_actions());
    }
    alloc.seed_if_fresh();
    let start = alloc.take_next();
    let second = alloc.take_next();
    assert(second == spec_slot_after(start, 1));
    push_slot_write_pass(&mut actions, start, payload, animated);
    push_slot_write_pass(&mut actions, second, payload, animated);
    proof {
        assert(spec_actions(actions@) =~= spec_image_write_sequence(
            first_write,
            start,
            payload@,
            animated,
        ));
        assert(final(alloc).spec_counter() == Some(spec_slot_after(start, 2)));
    }
    actions
}

} // verus!
