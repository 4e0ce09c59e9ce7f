//! Screenshots: which part of the screen, and its pixels.

use vstd::prelude::*;

use crate::platform::region_select::DragState;
use crate::platform::ActionError;
use crate::profile::ScreenshotMode;

verus! {

/// The part of the screen to capture: left, top, width, height. The whole
/// screen, or the region that was dragged; `None` where none was.
pub fn capture_area(mode: ScreenshotMode, screen: (i32, i32, i32, i32), drag: &DragState) -> (r:
    Result<Option<(i32, i32, i32, i32)>, ActionError>)
    ensures
        if screen.2 <= 0 || screen.3 <= 0 {
            r matches Err(ActionError::Screenshot(e)) && e@ == "virtual screen size is 0"@
        } else {
            match mode {
                ScreenshotMode::FullScreen => r == Ok::<
                    Option<(i32, i32, i32, i32)>,
                    ActionError,
                >(Some(screen)),
                ScreenshotMode::RegionSelect => r matches Ok(area) && call_ensures(
                    DragState::selection,
                    (drag, screen),
                    area,
                ),
            }
        },
{
    if screen.2 <= 0 || screen.3 <= 0 {
        return Err(ActionError::Screenshot("virtual screen size is 0".to_owned()));
    }
    match mode {
        ScreenshotMode::FullScreen => Ok(Some(screen)),
        ScreenshotMode::RegionSelect => Ok(drag.selection(screen)),
    }
}

/// Whether a capture is complete: the copy succeeded and every line arrived.
pub fn captured(copied: bool, lines: i32, height: i32) -> (r: Result<(), ActionError>)
    ensures
        if copied && lines == height {
            r is Ok
        } else {
            r matches Err(ActionError::Screenshot(e)) && e@ == "BitBlt/GetDIBits failed"@
        },
{
    if copied && lines == height {
        Ok(())
    } else {
        Err(ActionError::Screenshot("BitBlt/GetDIBits failed".to_owned()))
    }
}

/// A byte of the picture with red first and no transparency, given the pixels
/// with blue first. Bytes behind the last whole pixel stay.
pub open spec fn opaque_byte(bgrx: Seq<u8>, i: int) -> u8 {
    if i >= bgrx.len() / 4 * 4 {
        bgrx[i]
    } else if i % 4 == 0 {
        bgrx[i + 2]
    } else if i % 4 == 2 {
        bgrx[i - 2]
    } else if i % 4 == 3 {
        255
    } else {
        bgrx[i]
    }
}

/// Turn pixels with blue first into opaque ones with red first.
pub fn bgrx_to_rgba(buf: &mut Vec<u8>)
    ensures
        final(buf)@.len() == old(buf)@.len(),
        forall|i: int|
            0 <= i < final(buf)@.len() ==> #[trigger] final(buf)@[i] == opaque_byte(
                old(buf)@,
                i,
            ),
{
    let ghost before = buf@;
    let total: usize = buf.len();
    let n: usize = total / 4;
    let mut k: usize = 0;
    while k < n
        invariant
            k <= n,
            total == before.len(),
            n == total / 4,
            buf@.len() == before.len(),
            forall|i: int|
                0 <= i < buf@.len() ==> #[trigger] buf@[i] == if i < 4 * k {
                    opaque_byte(before, i)
                } else {
                    before[i]
                },
        decreases n - k,
    {
        let at: usize = 4 * k;
        let blue: u8 = buf[at];
        let red: u8 = buf[at + 2];
        buf[at] = red;
        buf[at + 2] = blue;
        buf[at + 3] = 255;
        k += 1;
    }
}

/// Pixel by pixel red and blue change places, green stays, and nothing is
/// transparent. What is no whole pixel stays.
pub proof fn red_and_blue_change_places(bgrx: Seq<u8>, p: int, i: int)
    requires
        0 <= p,
        4 * p + 3 < bgrx.len(),
        4 * (bgrx.len() as int / 4) <= i < bgrx.len(),
    ensures
        opaque_byte(bgrx, 4 * p) == bgrx[4 * p + 2],
        opaque_byte(bgrx, 4 * p + 1) == bgrx[4 * p + 1],
        opaque_byte(bgrx, 4 * p + 2) == bgrx[4 * p],
        opaque_byte(bgrx, 4 * p + 3) == 255,
        opaque_byte(bgrx, i) == bgrx[i],
{
}

} // verus!
