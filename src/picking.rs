//! GPU object picking: the encoding of entities in the ID buffer, the
//! decoding of a read-back value, and the decision whether a one-pixel
//! read-back may be scheduled at the cursor.
//!
//! The read-back is deliberately one frame behind: the value scheduled in
//! one frame is consumed at the start of the next, so the CPU never waits
//! for the GPU.

use vstd::prelude::*;

use crate::handle::EntityHandle;

verus! {

/// The entity that a value read back from the ID buffer names. The ID pass
/// writes `i + 1` for the entity at position `i` of the render list, so 0 is
/// the sentinel "no entity"; a value past the list names nothing either.
pub open spec fn decode_pick(list: Seq<EntityHandle>, value: u32) -> Option<EntityHandle> {
    if value == 0 || value > list.len() {
        None
    } else {
        Some(list[value - 1])
    }
}

/// The entity named by the read-back `value`, for the render list `list`.
pub fn picked_from(list: &Vec<EntityHandle>, value: u32) -> (r: Option<EntityHandle>)
    ensures
        r == decode_pick(list@, value),
{
    if value == 0 || value as usize > list.len() {
        None
    } else {
        Some(list[(value - 1) as usize])
    }
}

/// What the picking subsystem does with the read-back buffer at the end of a
/// frame.
#[derive(Clone, Copy, PartialEq, Eq, Structural, Debug)]
pub enum Readback {
    /// Copy the one ID-buffer pixel at column `left` and row `bottom` (rows
    /// counted from the bottom of the texture) into the read-back buffer.
    CopyPixel { left: u32, bottom: u32 },
    /// Write the sentinel 0 into the read-back buffer; no hardware copy.
    WriteSentinel,
}

/// Whether the cursor is known and inside `[0, width) x [0, height)`.
pub open spec fn cursor_in_bounds(cursor: Option<(i32, i32)>, width: u32, height: u32) -> bool {
    match cursor {
        Some((x, y)) => 0 <= x < width && 0 <= y < height,
        None => false,
    }
}

/// The read-back for a cursor in window coordinates (origin at the top
/// left): the pixel under it, with the row flipped to the texture's
/// bottom-up order, if it is inside the viewport; the sentinel otherwise.
pub open spec fn readback_spec(cursor: Option<(i32, i32)>, width: u32, height: u32) -> Readback {
    if cursor_in_bounds(cursor, width, height) {
        let (x, y) = cursor.unwrap();
        Readback::CopyPixel { left: x as u32, bottom: (height - 1 - y) as u32 }
    } else {
        Readback::WriteSentinel
    }
}

/// The read-back to schedule for `cursor` on a viewport of `width` by
/// `height` pixels. A coordinate outside the viewport is never handed to the
/// hardware copy: it counts as no pick.
pub fn readback_for(cursor: Option<(i32, i32)>, width: u32, height: u32) -> (r: Readback)
    ensures
        r == readback_spec(cursor, width, height),
{
    match cursor {
        Some((x, y)) => {
            if 0 <= x && 0 <= y && (x as u32) < width && (y as u32) < height {
                Readback::CopyPixel { left: x as u32, bottom: height - 1 - y as u32 }
            } else {
                Readback::WriteSentinel
            }
        },
        None => Readback::WriteSentinel,
    }
}

} // verus!
