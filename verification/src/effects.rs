//! Whole-image post effects: darkened scanlines and a brightening horizontal blur.

use vstd::prelude::*;

use crate::blend::{
    blend_rgb565, blue5, green6, pack_565_u16, red5, spec_blend, spec_pack, unpack_565_u16,
};
use crate::image::{walked_before, ImgView};

verus! {

/// Sum of the three channels of a packed color.
pub open spec fn brightness(color: u16) -> int {
    red5(color) + green6(color) + blue5(color)
}

/// The 1-2-1 weighted average of three channel values, rounded down.
pub open spec fn smooth3(left: int, center: int, right: int) -> int {
    (left + 2 * center + right) / 4
}

/// The center color smoothed with its neighbours, channel by channel, when that makes it
/// brighter; otherwise the center color unchanged.
pub open spec fn spec_blur(left: u16, center: u16, right: u16) -> u16 {
    let r = smooth3(red5(left) as int, red5(center) as int, red5(right) as int);
    let g = smooth3(green6(left) as int, green6(center) as int, green6(right) as int);
    let b = smooth3(blue5(left) as int, blue5(center) as int, blue5(right) as int);
    if brightness(center) < r + g + b {
        spec_pack(r, g, b) as u16
    } else {
        center
    }
}

/// Opacity kept by the pixels of row `row` under scanlines of opacity `scanline_alpha`: two rows
/// out of three stay at full opacity.
pub open spec fn scanline_row_alpha(row: int, scanline_alpha: u8) -> u8 {
    if row % 3 < 2 { 255 } else { scanline_alpha }
}

fn blur_pixel(left: u16, center: u16, right: u16) -> (blurred: u16)
    ensures
        blurred == spec_blur(left, center, right),
{
    let (lr, lg, lb) = unpack_565_u16(left);
    let (cr, cg, cb) = unpack_565_u16(center);
    let (rr, rg, rb) = unpack_565_u16(right);

    let (or, og, ob) = ((lr + 2 * cr + rr) / 4, (lg + 2 * cg + rg) / 4, (lb + 2 * cb + rb) / 4);

    if cr + cg + cb < or + og + ob {
        pack_565_u16((or, og, ob))
    } else {
        center
    }
}

/// The blur of the middle of three pixels of `fg` blended over `bg`, the opacity of each pixel
/// being the `alpha_palette` entry that `indices` selects.
pub fn lineblur_kernel(indices: [u8; 3], alpha_palette: &[u8], fg: u16, bg: u16) -> (color: u16)
    requires
        forall|k: int| 0 <= k < 3 ==> (#[trigger] indices@[k] as int) < alpha_palette@.len(),
    ensures
        color == spec_blur(
            spec_blend(bg, fg, alpha_palette@[indices@[0] as int]) as u16,
            spec_blend(bg, fg, alpha_palette@[indices@[1] as int]) as u16,
            spec_blend(bg, fg, alpha_palette@[indices@[2] as int]) as u16,
        ),
{
    assert(indices@[0] < alpha_palette@.len());
    assert(indices@[1] < alpha_palette@.len());
    assert(indices@[2] < alpha_palette@.len());
    let alpha = [
        alpha_palette[indices[0] as usize],
        alpha_palette[indices[1] as usize],
        alpha_palette[indices[2] as usize],
    ];
    let colors = [
        blend_rgb565(bg, fg, alpha[0]),
        blend_rgb565(bg, fg, alpha[1]),
        blend_rgb565(bg, fg, alpha[2]),
    ];
    blur_pixel(colors[0], colors[1], colors[2])
}

/// Darkens every third row of the image: rows `3k + 2` are blended towards black, keeping
/// `scanline_alpha` of their color; the other rows keep their color.
pub fn scanlines(buf: &mut Vec<u16>, image: ImgView, scanline_alpha: u8)
    requires
        image.fits(old(buf)@.len() as int),
    ensures
        final(buf)@.len() == old(buf)@.len(),
        forall|i: int|
            #![trigger final(buf)@[i]]
            0 <= i < old(buf)@.len() ==> final(buf)@[i] == if image.covers(i) {
                spec_blend(0, old(buf)@[i], scanline_row_alpha(image.row_of(i), scanline_alpha)) as u16
            } else {
                old(buf)@[i]
            },
{
    let ghost old_buf = buf@;
    let w = image.width;
    let h = image.height;
    let mut y: usize = 0;
    while y < h
        invariant
            image.fits(old_buf.len() as int),
            w == image.width,
            h == image.height,
            y <= h,
            buf@.len() == old_buf.len(),
            forall|i: int|
                #![trigger buf@[i]]
                0 <= i < old_buf.len() ==> buf@[i] == if walked_before(image, i, w as int, h as int, 0, y as int) {
                    spec_blend(0, old_buf[i], scanline_row_alpha(image.row_of(i), scanline_alpha)) as u16
                } else {
                    old_buf[i]
                },
        decreases h - y,
    {
        let alpha = if y % 3 < 2 { 255 } else { scanline_alpha };
        let mut x: usize = 0;
        while x < w
            invariant
                image.fits(old_buf.len() as int),
                w == image.width,
                h == image.height,
                y < h,
                x <= w,
                alpha == scanline_row_alpha(y as int, scanline_alpha),
                buf@.len() == old_buf.len(),
                forall|i: int|
                    #![trigger buf@[i]]
                    0 <= i < old_buf.len() ==> buf@[i] == if walked_before(image, i, w as int, h as int, x as int, y as int) {
                        spec_blend(0, old_buf[i], scanline_row_alpha(image.row_of(i), scanline_alpha)) as u16
                    } else {
                        old_buf[i]
                    },
            decreases w - x,
        {
            proof {
                image.lemma_index_in_bounds(x as int, y as int);
                image.lemma_coords_of_index(x as int, y as int);
            }
            let j = image.offset + y * image.stride + x;
            let pixel = buf[j];
            let ghost before = buf@;
            buf.set(j, blend_rgb565(0x0000, pixel, alpha));
            proof {
                assert forall|i: int| 0 <= i < old_buf.len() implies #[trigger] buf@[i] == if walked_before(image, i, w as int, h as int, x + 1, y as int) {
                    spec_blend(0, old_buf[i], scanline_row_alpha(image.row_of(i), scanline_alpha)) as u16
                } else {
                    old_buf[i]
                } by {
                    if i != j {
                        assert(buf@[i] == before[i]);
                        if image.offset <= i {
                            image.lemma_index_of_coords(i);
                        }
                    }
                }
            }
            x += 1;
        }
        y += 1;
    }
}

/// Smooths each pixel with its left and right neighbours where that brightens it; the first and
/// last pixel of each row are left as they are.
pub fn lineblur(buf: &mut Vec<u16>, image: ImgView)
    requires
        image.fits(old(buf)@.len() as int),
    ensures
        final(buf)@.len() == old(buf)@.len(),
        forall|i: int|
            #![trigger final(buf)@[i]]
            0 <= i < old(buf)@.len() ==> final(buf)@[i] == if image.covers(i) && 0 < image.col_of(i) < image.width - 1 {
                spec_blur(old(buf)@[i - 1], old(buf)@[i], old(buf)@[i + 1])
            } else {
                old(buf)@[i]
            },
{
    let ghost old_buf = buf@;
    let w = image.width;
    let h = image.height;
    let mut y: usize = 0;
    while y < h
        invariant
            image.fits(old_buf.len() as int),
            w == image.width,
            h == image.height,
            y <= h,
            buf@.len() == old_buf.len(),
            forall|i: int|
                #![trigger buf@[i]]
                0 <= i < old_buf.len() ==> buf@[i] == if walked_before(image, i, w as int, h as int, 0, y as int) && 0 < image.col_of(i) < w - 1 {
                    spec_blur(old_buf[i - 1], old_buf[i], old_buf[i + 1])
                } else {
                    old_buf[i]
                },
        decreases h - y,
    {
        let mut prev: u16 = 0x0000;
        let mut c: usize = 0;
        while c < w
            invariant
                image.fits(old_buf.len() as int),
                w == image.width,
                h == image.height,
                y < h,
                c <= w,
                buf@.len() == old_buf.len(),
                c > 0 ==> prev == old_buf[image.index(c - 1, y as int)],
                forall|i: int|
                    #![trigger buf@[i]]
                    0 <= i < old_buf.len() ==> buf@[i] == if walked_before(image, i, w as int, h as int, c as int, y as int) && 0 < image.col_of(i) < w - 1 {
                        spec_blur(old_buf[i - 1], old_buf[i], old_buf[i + 1])
                    } else {
                        old_buf[i]
                    },
            decreases w - c,
        {
            proof {
                image.lemma_index_in_bounds(c as int, y as int);
                image.lemma_coords_of_index(c as int, y as int);
            }
            let j = image.offset + y * image.stride + c;
            let ghost before = buf@;
            if c > 0 && c < w - 1 {
                proof {
                    image.lemma_index_in_bounds(c + 1, y as int);
                    image.lemma_coords_of_index(c + 1, y as int);
                    assert(image.index(c - 1, y as int) == j - 1);
                    assert(buf@[j + 1] == old_buf[j + 1]);
                }
                let left = prev;
                let center = buf[j];
                let right = buf[j + 1];
                prev = center;
                buf.set(j, blur_pixel(left, center, right));
            } else {
                prev = buf[j];
            }
            proof {
                assert(prev == old_buf[image.index(c as int, y as int)]);
                assert forall|i: int| 0 <= i < old_buf.len() implies #[trigger] buf@[i] == if walked_before(image, i, w as int, h as int, c + 1, y as int) && 0 < image.col_of(i) < w - 1 {
                    spec_blur(old_buf[i - 1], old_buf[i], old_buf[i + 1])
                } else {
                    old_buf[i]
                } by {
                    if i != j {
                        assert(buf@[i] == before[i]);
                        if image.offset <= i {
                            image.lemma_index_of_coords(i);
                        }
                    }
                }
            }
            c += 1;
        }
        y += 1;
    }
}

} // verus!
