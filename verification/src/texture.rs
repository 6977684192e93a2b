//! Packed low bit-depth textures (1, 2 or 4 bits per texel) and drawing them into images.

use vstd::prelude::*;

use crate::blend::{blend_rgb565, spec_blend};
use crate::image::{walked_before, ImgView};

verus! {

/// Mirroring applied to a texture while drawing it.
#[derive(Clone, Copy)]
pub struct Transform {
    pub flip_x: bool,
    pub flip_y: bool,
}

impl Default for Transform {
    fn default() -> (t: Transform)
        ensures
            !t.flip_x,
            !t.flip_y,
    {
        Transform { flip_x: false, flip_y: false }
    }
}

#[derive(Clone, Copy)]
/// A texture of `width` x `height` texels of `N` bits each, packed little-end first into bytes,
/// row after row.
pub struct TexNData<'a, const N: u8> {
    pub width: usize,
    pub height: usize,
    pub data: &'a [u8],
}

pub type Tex1Data<'a> = TexNData<'a, 1>;

pub type Tex2Data<'a> = TexNData<'a, 2>;

pub type Tex4Data<'a> = TexNData<'a, 4>;

/// What drawing a texel does to the destination pixel under it.
pub enum PixelRule {
    /// Texel 0 keeps the pixel; any other texel paints the color.
    Fill(u16),
    /// The texel selects the color from the palette.
    Palette(Seq<u16>),
    /// Texel 0 keeps the pixel; any other texel selects the color from the palette.
    PaletteKeyed(Seq<u16>),
    /// The texel selects an opacity with which the second color is blended over the first.
    Tint(Seq<u8>, u16, u16),
    /// The texel selects an opacity with which the color is blended over the pixel.
    Blend(Seq<u8>, u16),
}

impl PixelRule {
    /// The new value of a pixel that held `old` when a texel of `value` is drawn over it.
    pub open spec fn result(self, old: u16, value: u8) -> u16 {
        match self {
            PixelRule::Fill(color) => if value == 0 { old } else { color },
            PixelRule::Palette(palette) => palette[value as int],
            PixelRule::PaletteKeyed(palette) => if value == 0 { old } else { palette[value as int] },
            PixelRule::Tint(alphas, bg, fg) => spec_blend(bg, fg, alphas[value as int]) as u16,
            PixelRule::Blend(alphas, color) => spec_blend(old, color, alphas[value as int]) as u16,
        }
    }

    /// Every texel value below `bound` selects an entry of the table.
    pub open spec fn covers_values(self, bound: int) -> bool {
        match self {
            PixelRule::Fill(_) => true,
            PixelRule::Palette(palette) => bound <= palette.len(),
            PixelRule::PaletteKeyed(palette) => bound <= palette.len(),
            PixelRule::Tint(alphas, _, _) => bound <= alphas.len(),
            PixelRule::Blend(alphas, _) => bound <= alphas.len(),
        }
    }
}

/// The executable form of a [`PixelRule`], borrowing its table.
enum PixelOp<'p> {
    Fill(u16),
    Palette(&'p [u16]),
    PaletteKeyed(&'p [u16]),
    Tint(&'p [u8], u16, u16),
    Blend(&'p [u8], u16),
}

impl<'p> PixelOp<'p> {
    spec fn rule(self) -> PixelRule {
        match self {
            PixelOp::Fill(color) => PixelRule::Fill(color),
            PixelOp::Palette(palette) => PixelRule::Palette(palette@),
            PixelOp::PaletteKeyed(palette) => PixelRule::PaletteKeyed(palette@),
            PixelOp::Tint(alphas, bg, fg) => PixelRule::Tint(alphas@, bg, fg),
            PixelOp::Blend(alphas, color) => PixelRule::Blend(alphas@, color),
        }
    }

    fn apply(&self, old: u16, value: u8) -> (new: u16)
        requires
            self.rule().covers_values(value as int + 1),
        ensures
            new == self.rule().result(old, value),
    {
        match self {
            PixelOp::Fill(color) => if value == 0 { old } else { *color },
            PixelOp::Palette(palette) => palette[value as usize],
            PixelOp::PaletteKeyed(palette) => if value == 0 { old } else { palette[value as usize] },
            PixelOp::Tint(alphas, bg, fg) => blend_rgb565(*bg, *fg, alphas[value as usize]),
            PixelOp::Blend(alphas, color) => blend_rgb565(old, *color, alphas[value as usize]),
        }
    }
}

impl<'a, const N: u8> TexNData<'a, N> {
    /// Texels held by one byte.
    pub open spec fn per_byte() -> int {
        8int / (N as int)
    }

    /// Number of distinct texel values.
    pub open spec fn value_count() -> int {
        if N == 1 {
            2
        } else if N == 2 {
            4
        } else {
            16
        }
    }

    /// Mask of the low `N` bits.
    pub open spec fn value_mask() -> u8 {
        if N == 1 {
            1
        } else if N == 2 {
            3
        } else {
            15
        }
    }

    /// The depth is 1, 2 or 4 bits and the data holds every texel.
    pub open spec fn wf(self) -> bool {
        &&& N == 1 || N == 2 || N == 4
        &&& self.width * self.height <= Self::per_byte() * self.data@.len()
        &&& self.width * self.height <= usize::MAX
    }

    /// The value of texel `(x, y)`: the `N`-bit field of its byte, counted from the low end.
    pub open spec fn texel(self, x: int, y: int) -> u8 {
        let i = y * self.width + x;
        let slot = i % Self::per_byte();
        (self.data@[i / Self::per_byte()] >> ((slot * N) as u8)) & Self::value_mask()
    }

    /// Texel column drawn at destination column `x`.
    pub open spec fn source_x(self, x: int, t: Transform) -> int {
        if t.flip_x { self.width - x - 1 } else { x }
    }

    /// Texel row drawn at destination row `y`.
    pub open spec fn source_y(self, y: int, t: Transform) -> int {
        if t.flip_y { self.height - y - 1 } else { y }
    }

    /// Columns drawn into `dest`: the narrower of the texture and the view.
    pub open spec fn draw_width(self, dest: ImgView) -> int {
        if self.width <= dest.width { self.width as int } else { dest.width as int }
    }

    /// Rows drawn into `dest`: the lower of the texture and the view.
    pub open spec fn draw_height(self, dest: ImgView) -> int {
        if self.height <= dest.height { self.height as int } else { dest.height as int }
    }

    /// `old` with the texture drawn into `dest` with transform `t` and rule `op`: the pixels of
    /// the top-left drawing rectangle are updated from their texels, all other positions of the
    /// buffer are unchanged.
    pub open spec fn draw_result(
        self,
        old: Seq<u16>,
        dest: ImgView,
        t: Transform,
        op: PixelRule,
    ) -> Seq<u16> {
        Seq::new(
            old.len(),
            |i: int|
                if dest.in_rect(i, self.draw_width(dest), self.draw_height(dest)) {
                    op.result(
                        old[i],
                        self.texel(
                            self.source_x(dest.col_of(i), t),
                            self.source_y(dest.row_of(i), t),
                        ),
                    )
                } else {
                    old[i]
                },
        )
    }

    proof fn lemma_texel_index(self, x: int, y: int)
        requires
            self.wf(),
            0 <= x < self.width,
            0 <= y < self.height,
        ensures
            0 <= y * self.width + x < self.width * self.height,
            0 <= (y * self.width + x) / Self::per_byte() < self.data@.len(),
            0 <= ((y * self.width + x) % Self::per_byte()) * N < 8,
    {
        let i = y * self.width + x;
        assert(0 <= y * self.width + x < self.width * self.height) by (nonlinear_arith)
            requires 0 <= x < self.width, 0 <= y < self.height;
        let p = Self::per_byte();
        assert(p == 8 || p == 4 || p == 2);
        assert(i / p < self.data@.len()) by (nonlinear_arith)
            requires 0 <= i < p * self.data@.len(), p > 0;
        assert(0 <= i / p) by (nonlinear_arith)
            requires 0 <= i, p > 0;
        assert(0 <= i % p < p) by (nonlinear_arith)
            requires p > 0;
        assert(0 <= (i % p) * N < 8) by (nonlinear_arith)
            requires 0 <= i % p < p, p * N == 8;
    }

    /// Whether the depth is 1, 2 or 4 bits and the data holds every texel.
    pub fn is_valid(&self) -> (ok: bool)
        ensures
            ok == self.wf(),
    {
        if !(N == 1 || N == 2 || N == 4) {
            return false;
        }
        let per_byte: usize = if N == 1 { 8 } else if N == 2 { 4 } else { 2 };
        assert(per_byte == Self::per_byte());
        match (self.width.checked_mul(self.height), self.data.len().checked_mul(per_byte)) {
            (Some(texels), Some(capacity)) => texels <= capacity,
            (Some(texels), None) => true,
            (None, _) => false,
        }
    }

    /// The value of texel `(x, y)` (no bounds checks beyond the contract).
    pub fn get_value_at_unchecked(&self, x: usize, y: usize) -> (value: u8)
        requires
            self.wf(),
            x < self.width,
            y < self.height,
        ensures
            value == self.texel(x as int, y as int),
            (value as int) < Self::value_count(),
    {
        proof {
            self.lemma_texel_index(x as int, y as int);
        }
        let pixels_per_byte: usize = (8 / N) as usize;
        let pixel_mask: u8 = if N == 1 {
            1
        } else if N == 2 {
            3
        } else {
            15
        };

        let i = y * self.width + x;

        let byte_index = i / pixels_per_byte;
        let index_in_byte = (i % pixels_per_byte) as u8;

        let packed = self.data[byte_index];
        let shift = index_in_byte * N;
        let value = (packed >> shift) & pixel_mask;
        proof {
            assert(value <= pixel_mask) by (bit_vector)
                requires value == (packed >> shift) & pixel_mask;
        }
        value
    }

    fn draw_impl(&self, buf: &mut Vec<u16>, dest: ImgView, transform: Transform, op: &PixelOp)
        requires
            self.wf(),
            dest.fits(old(buf)@.len() as int),
            op.rule().covers_values(Self::value_count()),
        ensures
            final(buf)@ == self.draw_result(old(buf)@, dest, transform, op.rule()),
    {
        let ghost old_buf = buf@;
        let src_w = self.width;
        let src_h = self.height;
        let rw = if src_w <= dest.width { src_w } else { dest.width };
        let rh = if src_h <= dest.height { src_h } else { dest.height };
        let mut y: usize = 0;
        while y < rh
            invariant
                self.wf(),
                dest.fits(old_buf.len() as int),
                op.rule().covers_values(Self::value_count()),
                src_w == self.width,
                src_h == self.height,
                rw == self.draw_width(dest),
                rh == self.draw_height(dest),
                y <= rh,
                buf@.len() == old_buf.len(),
                forall|i: int|
                    #![trigger buf@[i]]
                    0 <= i < old_buf.len() ==> buf@[i] == if walked_before(
                        dest,
                        i,
                        rw as int,
                        rh as int,
                        0,
                        y as int,
                    ) {
                        op.rule().result(
                            old_buf[i],
                            self.texel(
                                self.source_x(dest.col_of(i), transform),
                                self.source_y(dest.row_of(i), transform),
                            ),
                        )
                    } else {
                        old_buf[i]
                    },
            decreases rh - y,
        {
            let mut x: usize = 0;
            while x < rw
                invariant
                    self.wf(),
                    dest.fits(old_buf.len() as int),
                    op.rule().covers_values(Self::value_count()),
                    src_w == self.width,
                    src_h == self.height,
                    rw == self.draw_width(dest),
                    rh == self.draw_height(dest),
                    y < rh,
                    x <= rw,
                    buf@.len() == old_buf.len(),
                    forall|i: int|
                        #![trigger buf@[i]]
                        0 <= i < old_buf.len() ==> buf@[i] == if walked_before(
                            dest,
                            i,
                            rw as int,
                            rh as int,
                            x as int,
                            y as int,
                        ) {
                            op.rule().result(
                                old_buf[i],
                                self.texel(
                                    self.source_x(dest.col_of(i), transform),
                                    self.source_y(dest.row_of(i), transform),
                                ),
                            )
                        } else {
                            old_buf[i]
                        },
                decreases rw - x,
            {
                let sy = if transform.flip_y { src_h - y - 1 } else { y };
                let sx = if transform.flip_x { src_w - x - 1 } else { x };
                let value = self.get_value_at_unchecked(sx, sy);
                proof {
                    dest.lemma_index_in_bounds(x as int, y as int);
                    dest.lemma_coords_of_index(x as int, y as int);
                }
                let j = dest.offset + y * dest.stride + x;
                let old_pixel = buf[j];
                let new_pixel = op.apply(old_pixel, value);
                let ghost before = buf@;
                buf.set(j, new_pixel);
                proof {
                    assert(j == dest.index(x as int, y as int));
                    assert forall|i: int| 0 <= i < old_buf.len() implies #[trigger] buf@[i] == if walked_before(
                        dest,
                        i,
                        rw as int,
                        rh as int,
                        x + 1,
                        y as int,
                    ) {
                        op.rule().result(
                            old_buf[i],
                            self.texel(
                                self.source_x(dest.col_of(i), transform),
                                self.source_y(dest.row_of(i), transform),
                            ),
                        )
                    } else {
                        old_buf[i]
                    } by {
                        if i == j {
                            assert(before[i] == old_buf[i]);
                        } else {
                            assert(buf@[i] == before[i]);
                            if dest.offset <= i {
                                dest.lemma_index_of_coords(i);
                            }
                        }
                    }
                }
                x += 1;
            }
            proof {
                assert forall|i: int| 0 <= i < old_buf.len() implies walked_before(
                    dest,
                    i,
                    rw as int,
                    rh as int,
                    rw as int,
                    y as int,
                ) == walked_before(dest, i, rw as int, rh as int, 0, y + 1) by {}
            }
            y += 1;
        }
        assert(buf@ =~= self.draw_result(old_buf, dest, transform, op.rule()));
    }
}

impl<'a> TexNData<'a, 1> {
    /// Position in the buffer that the foreground of texel `(x, y)` is painted at: one pixel to
    /// the right of the texel, counted along the view's slice.
    pub open spec fn shadow_fg_pos(dest: ImgView, x: int, y: int) -> int {
        dest.offset + y * dest.stride + x + 1
    }

    /// Position in the buffer that the shadow of texel `(x, y)` is painted at: one row below it.
    pub open spec fn shadow_pos(dest: ImgView, x: int, y: int) -> int {
        dest.offset + (y + 1) * dest.stride + x
    }

    /// Every set texel's foreground, and its shadow where the row below is inside the view,
    /// lands inside the view's slice.
    pub open spec fn shadow_fits(self, dest: ImgView) -> bool {
        forall|x: int, y: int|
            #![trigger self.texel(x, y)]
            0 <= x < self.width && 0 <= y < self.height && self.texel(x, y) != 0 ==> {
                &&& Self::shadow_fg_pos(dest, x, y) < dest.offset + dest.len
                &&& y + 1 < dest.height ==> Self::shadow_pos(dest, x, y) < dest.offset + dest.len
            }
    }

    /// The buffer after the first `k` texels, taken row by row, of a shadowed draw: each set texel
    /// paints `foreground` one pixel to its right and then, if the row below is inside the view,
    /// `shadow` one row below it.
    pub open spec fn shadow_walk(
        self,
        old: Seq<u16>,
        dest: ImgView,
        foreground: u16,
        shadow: u16,
        k: nat,
    ) -> Seq<u16>
        decreases k,
    {
        if k == 0 {
            old
        } else {
            let prev = self.shadow_walk(old, dest, foreground, shadow, (k - 1) as nat);
            let x = (k - 1) % (self.width as int);
            let y = (k - 1) / (self.width as int);
            if self.texel(x, y) != 0 {
                let painted = prev.update(Self::shadow_fg_pos(dest, x, y), foreground);
                if y + 1 < dest.height {
                    painted.update(Self::shadow_pos(dest, x, y), shadow)
                } else {
                    painted
                }
            } else {
                prev
            }
        }
    }

    /// A shadowed draw paints fixed colors at fixed positions: a position that held the same
    /// value in two buffers of the same length holds the same value after the draw.
    pub proof fn lemma_shadow_walk_pointwise(
        self,
        a: Seq<u16>,
        b: Seq<u16>,
        dest: ImgView,
        foreground: u16,
        shadow: u16,
        k: nat,
        i: int,
    )
        requires
            self.shadow_fits(dest),
            dest.offset + dest.len <= a.len(),
            k <= self.width * self.height,
            a.len() == b.len(),
            0 <= i < a.len(),
            a[i] == b[i],
        ensures
            self.shadow_walk(a, dest, foreground, shadow, k).len() == a.len(),
            self.shadow_walk(b, dest, foreground, shadow, k).len() == b.len(),
            self.shadow_walk(a, dest, foreground, shadow, k)[i] == self.shadow_walk(
                b,
                dest,
                foreground,
                shadow,
                k,
            )[i],
        decreases k,
    {
        if k > 0 {
            self.lemma_shadow_walk_pointwise(a, b, dest, foreground, shadow, (k - 1) as nat, i);
            let w = self.width as int;
            assert(w > 0) by (nonlinear_arith)
                requires 0 <= k - 1 < w * self.height, w >= 0, self.height >= 0;
            let x = (k - 1) % w;
            let y = (k - 1) / w;
            vstd::arithmetic::div_mod::lemma_fundamental_div_mod(k - 1, w);
            vstd::arithmetic::div_mod::lemma_mod_pos_bound(k - 1, w);
            assert(0 <= y < self.height) by (nonlinear_arith)
                requires k - 1 == w * y + x, 0 <= x < w, 0 <= k - 1 < w * self.height, w > 0;
        }
    }

    /// Once a shadowed draw has passed set texel `(x, y)`, the pixel one to the right of it
    /// holds `foreground` for good: no later texel's foreground or shadow lands there.
    proof fn lemma_shadow_walk_foreground_stays(
        self,
        a: Seq<u16>,
        dest: ImgView,
        foreground: u16,
        shadow: u16,
        k: nat,
        x: int,
        y: int,
    )
        requires
            self.shadow_fits(dest),
            dest.offset + dest.len <= a.len(),
            0 <= x < self.width,
            0 <= y < self.height,
            self.texel(x, y) != 0,
            x + 1 < dest.stride,
            y * self.width + x + 1 <= k <= self.width * self.height,
        ensures
            self.shadow_walk(a, dest, foreground, shadow, k)[Self::shadow_fg_pos(dest, x, y)]
                == foreground,
        decreases k,
    {
        let w = self.width as int;
        let s = dest.stride as int;
        let p = Self::shadow_fg_pos(dest, x, y);
        let prev = self.shadow_walk(a, dest, foreground, shadow, (k - 1) as nat);
        self.lemma_shadow_walk_pointwise(a, a, dest, foreground, shadow, (k - 1) as nat, 0);
        let xk = (k - 1) % w;
        let yk = (k - 1) / w;
        vstd::arithmetic::div_mod::lemma_fundamental_div_mod(k - 1, w);
        vstd::arithmetic::div_mod::lemma_mod_pos_bound(k - 1, w);
        assert(0 <= yk < self.height) by (nonlinear_arith)
            requires k - 1 == w * yk + xk, 0 <= xk < w, 0 <= k - 1 < w * self.height, w > 0;
        if k - 1 == y * w + x {
            vstd::arithmetic::div_mod::lemma_fundamental_div_mod_converse(k - 1, w, y, x);
            assert(xk == x && yk == y);
            assert((y + 1) * s == y * s + s) by (nonlinear_arith);
        } else {
            self.lemma_shadow_walk_foreground_stays(a, dest, foreground, shadow, (k - 1) as nat, x, y);
            assert(yk > y || (yk == y && xk > x)) by (nonlinear_arith)
                requires
                    k - 1 == w * yk + xk,
                    k - 1 > y * w + x,
                    0 <= xk < w,
                    0 <= x < w,
            ;
            if self.texel(xk, yk) != 0 {
                if yk > y {
                    assert(yk * s >= (y + 1) * s) by (nonlinear_arith)
                        requires yk >= y + 1, s > 0;
                }
                assert(yk * s + s >= (y + 1) * s) by (nonlinear_arith)
                    requires yk >= y, s > 0;
                assert((yk + 1) * s == yk * s + s) by (nonlinear_arith);
                assert((y + 1) * s == y * s + s) by (nonlinear_arith);
                assert(Self::shadow_fg_pos(dest, xk, yk) != p);
                assert(Self::shadow_pos(dest, xk, yk) != p);
            }
        }
    }

    /// Once a shadowed draw has passed set texel `(x, y)`, the pixel below it holds `shadow`
    /// unless the texel below-left of it is set (its foreground lands there later).
    proof fn lemma_shadow_walk_shadow_stays(
        self,
        a: Seq<u16>,
        dest: ImgView,
        foreground: u16,
        shadow: u16,
        k: nat,
        x: int,
        y: int,
    )
        requires
            self.shadow_fits(dest),
            dest.offset + dest.len <= a.len(),
            self.width < dest.stride,
            0 <= x < self.width,
            0 <= y < self.height,
            y + 1 < dest.height,
            self.texel(x, y) != 0,
            x == 0 || y + 1 >= self.height || self.texel(x - 1, y + 1) == 0,
            y * self.width + x + 1 <= k <= self.width * self.height,
        ensures
            self.shadow_walk(a, dest, foreground, shadow, k)[Self::shadow_pos(dest, x, y)] == shadow,
        decreases k,
    {
        let w = self.width as int;
        let s = dest.stride as int;
        let p = Self::shadow_pos(dest, x, y);
        self.lemma_shadow_walk_pointwise(a, a, dest, foreground, shadow, (k - 1) as nat, 0);
        let xk = (k - 1) % w;
        let yk = (k - 1) / w;
        vstd::arithmetic::div_mod::lemma_fundamental_div_mod(k - 1, w);
        vstd::arithmetic::div_mod::lemma_mod_pos_bound(k - 1, w);
        assert(0 <= yk < self.height) by (nonlinear_arith)
            requires k - 1 == w * yk + xk, 0 <= xk < w, 0 <= k - 1 < w * self.height, w > 0;
        if k - 1 == y * w + x {
            vstd::arithmetic::div_mod::lemma_fundamental_div_mod_converse(k - 1, w, y, x);
            assert(xk == x && yk == y);
        } else {
            self.lemma_shadow_walk_shadow_stays(a, dest, foreground, shadow, (k - 1) as nat, x, y);
            assert(yk > y || (yk == y && xk > x)) by (nonlinear_arith)
                requires
                    k - 1 == w * yk + xk,
                    k - 1 > y * w + x,
                    0 <= xk < w,
                    0 <= x < w,
            ;
            if self.texel(xk, yk) != 0 {
                assert((yk + 1) * s == yk * s + s) by (nonlinear_arith);
                assert((y + 1) * s == y * s + s) by (nonlinear_arith);
                if yk > y + 1 {
                    assert(yk * s >= (y + 2) * s) by (nonlinear_arith)
                        requires yk >= y + 2, s > 0;
                    assert((y + 2) * s == y * s + 2 * s) by (nonlinear_arith);
                } else if yk == y + 1 {
                    assert(xk != x - 1);
                } else {
                    assert(yk == y);
                }
                assert(Self::shadow_fg_pos(dest, xk, yk) != p);
                if yk > y {
                    assert(yk * s >= (y + 1) * s) by (nonlinear_arith)
                        requires yk >= y + 1, s > 0;
                }
                assert(Self::shadow_pos(dest, xk, yk) != p);
            }
        }
    }

    /// A shadowed draw paints `shadow` one row below every set texel whose row below is inside
    /// the view, unless the texel below-left of it is set (its foreground takes that pixel).
    pub proof fn lemma_shadow_walk_shadow(
        self,
        a: Seq<u16>,
        dest: ImgView,
        foreground: u16,
        shadow: u16,
        x: int,
        y: int,
    )
        requires
            self.shadow_fits(dest),
            dest.offset + dest.len <= a.len(),
            self.width < dest.stride,
            0 <= x < self.width,
            0 <= y < self.height,
            y + 1 < dest.height,
            self.texel(x, y) != 0,
            x == 0 || y + 1 >= self.height || self.texel(x - 1, y + 1) == 0,
        ensures
            self.shadow_walk(a, dest, foreground, shadow, (self.width * self.height) as nat)[
                Self::shadow_pos(dest, x, y)] == shadow,
    {
        assert(y * self.width + x + 1 <= self.width * self.height) by (nonlinear_arith)
            requires 0 <= x < self.width, 0 <= y < self.height;
        self.lemma_shadow_walk_shadow_stays(
            a,
            dest,
            foreground,
            shadow,
            (self.width * self.height) as nat,
            x,
            y,
        );
    }

    /// A shadowed draw paints `foreground` one pixel to the right of every set texel (when that
    /// pixel is still on the texel's row of the buffer): later texels' foregrounds and shadows
    /// never land there.
    pub proof fn lemma_shadow_walk_foreground(
        self,
        a: Seq<u16>,
        dest: ImgView,
        foreground: u16,
        shadow: u16,
        x: int,
        y: int,
    )
        requires
            self.shadow_fits(dest),
            dest.offset + dest.len <= a.len(),
            0 <= x < self.width,
            0 <= y < self.height,
            self.texel(x, y) != 0,
            x + 1 < dest.stride,
        ensures
            self.shadow_walk(a, dest, foreground, shadow, (self.width * self.height) as nat)[
                Self::shadow_fg_pos(dest, x, y)] == foreground,
    {
        assert(y * self.width + x + 1 <= self.width * self.height) by (nonlinear_arith)
            requires 0 <= x < self.width, 0 <= y < self.height;
        self.lemma_shadow_walk_foreground_stays(
            a,
            dest,
            foreground,
            shadow,
            (self.width * self.height) as nat,
            x,
            y,
        );
    }

    /// Whether every set texel's foreground, and its shadow where the row below is inside the
    /// view, lands inside the view's slice.
    pub fn shadow_fits_in(&self, dest: ImgView) -> (ok: bool)
        requires
            self.wf(),
        ensures
            ok == self.shadow_fits(dest),
    {
        let mut y: usize = 0;
        while y < self.height
            invariant
                self.wf(),
                y <= self.height,
                forall|x: int, yy: int|
                    #![trigger self.texel(x, yy)]
                    0 <= x < self.width && 0 <= yy < y && self.texel(x, yy) != 0 ==> {
                        &&& Self::shadow_fg_pos(dest, x, yy) < dest.offset + dest.len
                        &&& yy + 1 < dest.height ==> Self::shadow_pos(dest, x, yy) < dest.offset + dest.len
                    },
            decreases self.height - y,
        {
            let mut x: usize = 0;
            while x < self.width
                invariant
                    self.wf(),
                    y < self.height,
                    x <= self.width,
                    forall|xx: int, yy: int|
                        #![trigger self.texel(xx, yy)]
                        0 <= xx < self.width && 0 <= yy < self.height && (yy < y || (yy == y && xx < x))
                            && self.texel(xx, yy) != 0 ==> {
                            &&& Self::shadow_fg_pos(dest, xx, yy) < dest.offset + dest.len
                            &&& yy + 1 < dest.height ==> Self::shadow_pos(dest, xx, yy) < dest.offset
                                + dest.len
                        },
                decreases self.width - x,
            {
                if self.get_value_at_unchecked(x, y) != 0 {
                    assert(y as u128 * dest.stride as u128 <= 0xffff_ffff_ffff_ffffu128 * 0xffff_ffff_ffff_ffffu128)
                        by (nonlinear_arith)
                        requires y <= 0xffff_ffff_ffff_ffffu128, dest.stride <= 0xffff_ffff_ffff_ffffu128;
                    let row: u128 = y as u128 * dest.stride as u128;
                    let foreground_at: u128 = row + x as u128 + 1;
                    if foreground_at >= dest.len as u128 {
                        assert(self.texel(x as int, y as int) != 0);
                        return false;
                    }
                    if y + 1 < dest.height {
                        let shadow_at: u128 = row + dest.stride as u128 + x as u128;
                        if shadow_at >= dest.len as u128 {
                            assert(self.texel(x as int, y as int) != 0);
                            assert((y + 1) * dest.stride == y * dest.stride + dest.stride)
                                by (nonlinear_arith);
                            return false;
                        }
                        assert((y + 1) * dest.stride == y * dest.stride + dest.stride)
                            by (nonlinear_arith);
                    }
                }
                x += 1;
            }
            y += 1;
        }
        true
    }

    /// Draws the set texels in `foreground`, shifted one pixel along the row, each with a
    /// `shadow` pixel one row below the texel.
    pub fn draw_with_shadow(&self, buf: &mut Vec<u16>, dest: ImgView, foreground: u16, shadow: u16)
        requires
            self.wf(),
            dest.fits(old(buf)@.len() as int),
            self.shadow_fits(dest),
        ensures
            final(buf)@.len() == old(buf)@.len(),
            final(buf)@ == self.shadow_walk(
                old(buf)@,
                dest,
                foreground,
                shadow,
                (self.width * self.height) as nat,
            ),
    {
        let ghost old_buf = buf@;
        let dest_height = dest.height;
        let dest_stride = dest.stride;

        let mut y: usize = 0;
        while y < self.height
            invariant
                self.wf(),
                dest.fits(old_buf.len() as int),
                self.shadow_fits(dest),
                dest_height == dest.height,
                dest_stride == dest.stride,
                y <= self.height,
                buf@ == self.shadow_walk(old_buf, dest, foreground, shadow, (y * self.width) as nat),
                buf@.len() == old_buf.len(),
            decreases self.height - y,
        {
            let mut x: usize = 0;
            while x < self.width
                invariant
                    self.wf(),
                    dest.fits(old_buf.len() as int),
                    self.shadow_fits(dest),
                    dest_height == dest.height,
                    dest_stride == dest.stride,
                    y < self.height,
                    x <= self.width,
                    buf@ == self.shadow_walk(old_buf, dest, foreground, shadow, (y * self.width + x) as nat),
                    buf@.len() == old_buf.len(),
                decreases self.width - x,
            {
                proof {
                    let k = y * self.width + x;
                    vstd::arithmetic::div_mod::lemma_fundamental_div_mod_converse(
                        k, self.width as int, y as int, x as int);
                    assert((y * self.width + x + 1) - 1 == k);
                }
                let value = self.get_value_at_unchecked(x, y);
                if value != 0 {
                    proof {
                        assert(self.texel(x as int, y as int) != 0);
                    }
                    buf.set(dest.offset + y * dest_stride + x + 1, foreground);
                    if y + 1 < dest_height {
                        buf.set(dest.offset + (y + 1) * dest_stride + x, shadow);
                    }
                }
                x += 1;
            }
            proof {
                assert(y * self.width + self.width == (y + 1) * self.width) by (nonlinear_arith);
            }
            y += 1;
        }
        proof {
            assert(self.height * self.width == self.width * self.height) by (nonlinear_arith);
        }
    }
    /// Paints `color` wherever the texel is set; other pixels keep their value.
    pub fn draw_transparent(&self, buf: &mut Vec<u16>, dest: ImgView, color: u16)
        requires
            self.wf(),
            dest.fits(old(buf)@.len() as int),
        ensures
            final(buf)@ == self.draw_result(old(buf)@, dest, Transform { flip_x: false, flip_y: false }, PixelRule::Fill(color)),
    {
        self.draw_impl(buf, dest, Transform::default(), &PixelOp::Fill(color))
    }

    /// Paints every pixel with the palette entry of its texel.
    pub fn draw_opaque(&self, buf: &mut Vec<u16>, dest: ImgView, palette: &[u16; 2])
        requires
            self.wf(),
            dest.fits(old(buf)@.len() as int),
        ensures
            final(buf)@ == self.draw_result(old(buf)@, dest, Transform { flip_x: false, flip_y: false }, PixelRule::Palette(palette@)),
    {
        self.draw_impl(buf, dest, Transform::default(), &PixelOp::Palette(palette.as_slice()))
    }
}

impl<'a> TexNData<'a, 2> {
    /// Paints the palette entry of each nonzero texel, mirrored by `transform`.
    pub fn draw_paletted_transparent_with_transform(
        &self,
        buf: &mut Vec<u16>,
        dest: ImgView,
        palette: &[u16; 4],
        transform: Transform,
    )
        requires
            self.wf(),
            dest.fits(old(buf)@.len() as int),
        ensures
            final(buf)@ == self.draw_result(old(buf)@, dest, transform, PixelRule::PaletteKeyed(palette@)),
    {
        self.draw_impl(buf, dest, transform, &PixelOp::PaletteKeyed(palette.as_slice()))
    }

    /// Paints every pixel with `fg_color` blended over `bg_color` by the texel's opacity.
    pub fn draw_tinted(
        &self,
        buf: &mut Vec<u16>,
        dest: ImgView,
        alpha_palette: &[u8; 4],
        bg_color: u16,
        fg_color: u16,
    )
        requires
            self.wf(),
            dest.fits(old(buf)@.len() as int),
        ensures
            final(buf)@ == self.draw_result(old(buf)@, dest, Transform { flip_x: false, flip_y: false }, PixelRule::Tint(alpha_palette@, bg_color, fg_color)),
    {
        self.draw_impl(
            buf,
            dest,
            Transform::default(),
            &PixelOp::Tint(alpha_palette.as_slice(), bg_color, fg_color),
        )
    }

    /// Blends `color` over every pixel by the texel's opacity.
    pub fn draw_blend(&self, buf: &mut Vec<u16>, dest: ImgView, alpha_palette: &[u8; 4], color: u16)
        requires
            self.wf(),
            dest.fits(old(buf)@.len() as int),
        ensures
            final(buf)@ == self.draw_result(old(buf)@, dest, Transform { flip_x: false, flip_y: false }, PixelRule::Blend(alpha_palette@, color)),
    {
        self.draw_impl(buf, dest, Transform::default(), &PixelOp::Blend(alpha_palette.as_slice(), color))
    }
}

impl<'a> TexNData<'a, 4> {
    /// Paints the palette entry of each nonzero texel.
    pub fn draw_paletted_transparent(&self, buf: &mut Vec<u16>, dest: ImgView, palette: &[u16; 16])
        requires
            self.wf(),
            dest.fits(old(buf)@.len() as int),
        ensures
            final(buf)@ == self.draw_result(old(buf)@, dest, Transform { flip_x: false, flip_y: false }, PixelRule::PaletteKeyed(palette@)),
    {
        self.draw_impl(buf, dest, Transform::default(), &PixelOp::PaletteKeyed(palette.as_slice()))
    }

    /// Paints every pixel with the palette entry of its texel.
    pub fn draw_paletted_opaque(&self, buf: &mut Vec<u16>, dest: ImgView, palette: &[u16; 16])
        requires
            self.wf(),
            dest.fits(old(buf)@.len() as int),
        ensures
            final(buf)@ == self.draw_result(old(buf)@, dest, Transform { flip_x: false, flip_y: false }, PixelRule::Palette(palette@)),
    {
        self.draw_impl(buf, dest, Transform::default(), &PixelOp::Palette(palette.as_slice()))
    }
}

} // verus!
