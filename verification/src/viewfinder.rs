//! Turning the camera image a quarter turn to the right for the top screen, and when to give up
//! converting a camera frame.
//!
//! The 3DS' screens are vertical LCD panels rotated by 90 degrees, so a "horizontal" image has to
//! be written to the frame buffer column by column.

use vstd::prelude::*;

verus! {

/// Attempts at converting a camera frame to RGB before giving up.
pub const MAX_CONVERSION_ATTEMPTS: u32 = 2;

/// Whether to give up converting a frame once `failed_attempts` attempts have timed out.
pub fn conversion_gives_up(failed_attempts: u32) -> (give_up: bool)
    ensures
        give_up == (failed_attempts >= MAX_CONVERSION_ATTEMPTS),
{
    failed_attempts >= MAX_CONVERSION_ATTEMPTS
}

/// Position in the source image of the pixel that lands at frame-buffer position `p` when a
/// `width` x `height` image is rotated: frame-buffer column `p / height` is image column
/// `p / height`, read from the bottom row up.
pub open spec fn rotated_source(p: int, width: int, height: int) -> int {
    (height - 1 - p % height) * width + p / height
}

/// Writes the `width` x `height` image `src` (row after row) into `framebuf` rotated a quarter
/// turn to the right: image pixel `(i, j)` goes to frame-buffer position
/// `i * height + (height - 1 - j)`.
pub fn rotate_image_to_screen(src: &[u16], framebuf: &mut Vec<u16>, width: usize, height: usize)
    requires
        width * height <= src@.len(),
        width * height <= old(framebuf)@.len(),
    ensures
        final(framebuf)@.len() == old(framebuf)@.len(),
        forall|p: int|
            #![trigger final(framebuf)@[p]]
            0 <= p < old(framebuf)@.len() ==> final(framebuf)@[p] == if p < width * height {
                src@[rotated_source(p, width as int, height as int)]
            } else {
                old(framebuf)@[p]
            },
{
    let ghost old_fb = framebuf@;
    let fb_len: usize = framebuf.len();
    assert(width * height <= fb_len);
    let mut j: usize = 0;
    while j < height
        invariant
            width * height <= src@.len(),
            width * height <= old_fb.len(),
            width * height <= usize::MAX,
            framebuf@.len() == old_fb.len(),
            j <= height,
            forall|p: int|
                #![trigger framebuf@[p]]
                0 <= p < old_fb.len() ==> framebuf@[p] == if p < width * height && height - 1 - p % (height as int) < j {
                    src@[rotated_source(p, width as int, height as int)]
                } else {
                    old_fb[p]
                },
        decreases height - j,
    {
        let mut i: usize = 0;
        while i < width
            invariant
                width * height <= src@.len(),
                width * height <= old_fb.len(),
                width * height <= usize::MAX,
                framebuf@.len() == old_fb.len(),
                j < height,
                i <= width,
                forall|p: int|
                    #![trigger framebuf@[p]]
                    0 <= p < old_fb.len() ==> framebuf@[p] == if p < width * height && (height - 1 - p % (height as int) < j
                        || (height - 1 - p % (height as int) == j && p / (height as int) < i)) {
                        src@[rotated_source(p, width as int, height as int)]
                    } else {
                        old_fb[p]
                    },
            decreases width - i,
        {
            // Y-coordinate of where to draw in the frame buffer
            let draw_y = (height - 1) - j;
            // X-coordinate of where to draw in the frame buffer
            let draw_x = i;
            proof {
                assert(j * width + i < width * height) by (nonlinear_arith)
                    requires j < height, i < width;
                assert(j * width <= j * width + i);
                assert(draw_x * height + draw_y < width * height) by (nonlinear_arith)
                    requires draw_x < width, draw_y < height;
                vstd::arithmetic::div_mod::lemma_fundamental_div_mod_converse(
                    draw_x * height + draw_y, height as int, draw_x as int, draw_y as int);
            }
            // Index of the pixel to draw within the image buffer
            let read_index = j * width + i;
            // Index of where to draw in the frame buffer
            let draw_index = draw_x * height + draw_y;
            let ghost before = framebuf@;
            framebuf.set(draw_index, src[read_index]);
            proof {
                assert forall|p: int| 0 <= p < old_fb.len() implies #[trigger] framebuf@[p] == if p < width * height && (height - 1 - p % (height as int) < j
                    || (height - 1 - p % (height as int) == j && p / (height as int) < i + 1)) {
                    src@[rotated_source(p, width as int, height as int)]
                } else {
                    old_fb[p]
                } by {
                    if p != draw_index {
                        assert(framebuf@[p] == before[p]);
                        if 0 <= p < width * height && height - 1 - p % (height as int) == j && p / (height as int) == i {
                            vstd::arithmetic::div_mod::lemma_fundamental_div_mod(p, height as int);
                            assert(p == (p / (height as int)) * height + p % (height as int)) by (nonlinear_arith)
                                requires p == height * (p / (height as int)) + p % (height as int);
                        }
                    }
                }
            }
            i += 1;
        }
        proof {
            assert forall|p: int| 0 <= p < old_fb.len() implies #[trigger] framebuf@[p] == if p < width * height && height - 1 - p % (height as int) < j + 1 {
                src@[rotated_source(p, width as int, height as int)]
            } else {
                old_fb[p]
            } by {
                if 0 <= p < width * height {
                    assert(p / (height as int) < width) by (nonlinear_arith)
                        requires 0 <= p < width * height, height > 0;
                }
            }
        }
        j += 1;
    }
    proof {
        assert forall|p: int| 0 <= p < old_fb.len() implies #[trigger] framebuf@[p] == if p < width * height {
            src@[rotated_source(p, width as int, height as int)]
        } else {
            old_fb[p]
        } by {
            if 0 <= p < width * height {
                vstd::arithmetic::div_mod::lemma_mod_pos_bound(p, height as int);
            }
        }
    }
}

} // verus!
