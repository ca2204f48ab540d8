//! The per-frame decision: reduce the input, and redraw only when the
//! viewport actually changed.
//!
//! The rendered image is the one cached artifact of the system. It is
//! invalidated wholesale by any viewport mutation and never partially:
//! when [`crate::input::reduce`] reports a change the buffer is refilled
//! once, otherwise it is left byte-for-byte as it was.

use vstd::prelude::*;

use crate::fixed::MAX_DIM;
use crate::viewport::Viewport;
use crate::input::{FrameInput, InputError, reduce, reduced};
use crate::render::{frame_rendered, render};

verus! {

/// Runs one frame: folds the input snapshot into the viewport and, if and
/// only if that changed the viewport, renders the frame into the buffer.
/// A pixel-unit scroll event surfaces as the explicit error, with the
/// buffer untouched; the viewport keeps the mutations of the events before
/// it, and the caller decides whether to go on.
pub fn process_frame(
    input: &FrameInput,
    v: &mut Viewport,
    buf: &mut Vec<u8>,
    buffer_width: usize,
    buffer_height: usize,
) -> (r: Result<bool, InputError>)
    requires
        old(v).wf(),
        input.cursor_x < buffer_width <= MAX_DIM,
        input.cursor_y < buffer_height <= MAX_DIM,
        old(buf)@.len() == buffer_width * buffer_height * 4,
    ensures
        final(v).wf(),
        *final(v) == reduced(*old(v), *input, buffer_width as int, buffer_height as int).0,
        (r is Err) == reduced(*old(v), *input, buffer_width as int, buffer_height as int).2,
        r is Err ==> r == Err::<bool, InputError>(InputError::UnsupportedUnit)
            && final(buf)@ == old(buf)@,
        r matches Ok(changed) ==> changed == reduced(
            *old(v),
            *input,
            buffer_width as int,
            buffer_height as int,
        ).1,
        r == Ok::<bool, InputError>(true) ==> frame_rendered(
            *final(v),
            final(buf)@,
            buffer_width as int,
            buffer_height as int,
        ),
        r == Ok::<bool, InputError>(false) ==> final(buf)@ == old(buf)@,
{
    match reduce(input, v, buffer_width, buffer_height) {
        Err(e) => Err(e),
        Ok(changed) => {
            if changed {
                render(v, buffer_width, buffer_height, buf);
            }
            Ok(changed)
        },
    }
}

} // verus!
