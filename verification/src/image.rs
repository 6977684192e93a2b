//! Rectangular views into flat `u16` pixel buffers.
//!
//! A view names the slice of the buffer it may touch (`offset .. offset + len`) and lays out
//! `height` rows of `width` pixels, row `y` starting `y * stride` pixels into that slice.

use vstd::prelude::*;

verus! {

/// A rectangular region of a pixel buffer.
#[derive(Clone, Copy)]
pub struct ImgView {
    /// Start of the slice of the buffer that this view covers.
    pub offset: usize,
    /// Length of that slice.
    pub len: usize,
    /// Pixels per row.
    pub width: usize,
    /// Number of rows.
    pub height: usize,
    /// Distance in pixels between the starts of two rows.
    pub stride: usize,
}

/// Whether buffer position `i` is a pixel of `dest` inside the `w` x `h` rectangle at its top
/// left that a row-by-row walk has reached before pixel `(x, y)`.
pub open spec fn walked_before(dest: ImgView, i: int, w: int, h: int, x: int, y: int) -> bool {
    &&& dest.in_rect(i, w, h)
    &&& (dest.row_of(i) < y || (dest.row_of(i) == y && dest.col_of(i) < x))
}

impl ImgView {
    /// The rows of the view are laid out consistently inside its slice.
    pub open spec fn wf(self) -> bool {
        &&& self.stride > 0
        &&& self.width <= self.stride
        &&& self.height > 0 ==> self.stride * (self.height - 1) + self.width <= self.len
        &&& self.offset + self.len <= usize::MAX
    }

    /// The view is well formed and lies inside a buffer of `buf_len` pixels.
    pub open spec fn fits(self, buf_len: int) -> bool {
        &&& self.wf()
        &&& self.offset + self.len <= buf_len
    }

    /// Whether `(x, y)` is a pixel of the view.
    pub open spec fn contains(self, x: int, y: int) -> bool {
        0 <= x < self.width && 0 <= y < self.height
    }

    /// Position in the slice of the view (not the whole buffer) of pixel `(x, y)`.
    pub open spec fn local_index(self, x: int, y: int) -> int {
        y * self.stride + x
    }

    /// Position in the whole buffer of pixel `(x, y)`.
    pub open spec fn index(self, x: int, y: int) -> int {
        self.offset + self.local_index(x, y)
    }

    /// Row of the view that buffer position `i` falls in.
    pub open spec fn row_of(self, i: int) -> int {
        (i - self.offset) / (self.stride as int)
    }

    /// Column of the view that buffer position `i` falls in.
    pub open spec fn col_of(self, i: int) -> int {
        (i - self.offset) % (self.stride as int)
    }

    /// Whether buffer position `i` is one of the pixels `(x, y)` of the view with `x < w` and
    /// `y < h`.
    pub open spec fn in_rect(self, i: int, w: int, h: int) -> bool {
        &&& self.offset <= i
        &&& self.row_of(i) < h
        &&& self.col_of(i) < w
    }

    /// Whether buffer position `i` is a pixel of the view.
    pub open spec fn covers(self, i: int) -> bool {
        self.in_rect(i, self.width as int, self.height as int)
    }

    /// The row and column of a pixel's position are the pixel's coordinates.
    pub proof fn lemma_coords_of_index(self, x: int, y: int)
        requires
            self.stride > 0,
            0 <= x < self.stride,
            0 <= y,
        ensures
            self.row_of(self.index(x, y)) == y,
            self.col_of(self.index(x, y)) == x,
            self.offset <= self.index(x, y),
    {
        assert(0 <= y * self.stride) by (nonlinear_arith)
            requires 0 <= y, self.stride > 0;
        vstd::arithmetic::div_mod::lemma_fundamental_div_mod_converse(
            y * self.stride + x, self.stride as int, y, x);
    }

    /// A position inside the view's rows is the position of the pixel at its row and column.
    pub proof fn lemma_index_of_coords(self, i: int)
        requires
            self.stride > 0,
            self.offset <= i,
        ensures
            self.index(self.col_of(i), self.row_of(i)) == i,
            0 <= self.col_of(i) < self.stride,
            0 <= self.row_of(i),
    {
        vstd::arithmetic::div_mod::lemma_fundamental_div_mod(i - self.offset, self.stride as int);
        assert(self.row_of(i) * self.stride == self.stride * self.row_of(i)) by (nonlinear_arith);
        vstd::arithmetic::div_mod::lemma_div_pos_is_pos(i - self.offset, self.stride as int);
        vstd::arithmetic::div_mod::lemma_mod_pos_bound(i - self.offset, self.stride as int);
    }

    /// A view of a whole buffer holding `height` rows of `width` pixels.
    pub fn new(buf_len: usize, width: usize, height: usize) -> (view: ImgView)
        requires
            width > 0,
    ensures
            view == (ImgView { offset: 0, len: buf_len, width, height, stride: width }),
    {
        ImgView { offset: 0, len: buf_len, width, height, stride: width }
    }

    /// The sub-rectangle of `width` x `height` pixels whose top-left pixel is `(left, top)`; its
    /// slice ends after its last row, or after the last pixel of its last row where the rows'
    /// full stride would run past this view's slice.
    pub open spec fn sub(self, left: int, top: int, width: int, height: int) -> ImgView {
        let start = self.stride * top + left;
        ImgView {
            offset: (self.offset + start) as usize,
            len: (if height == 0 {
                0
            } else if self.len >= start + self.stride * height {
                self.stride * height
            } else {
                self.stride * (height - 1) + width
            }) as usize,
            width: width as usize,
            height: height as usize,
            stride: self.stride,
        }
    }

    /// Whether `sub(left, top, width, height)` may be taken: the rectangle lies inside the view
    /// and the end of its rows' strides is addressable.
    pub open spec fn can_sub(self, left: int, top: int, width: int, height: int) -> bool {
        &&& 0 <= left
        &&& 0 <= top
        &&& 0 <= width
        &&& 0 <= height
        &&& left + width <= self.width
        &&& top + height <= self.height
        &&& height == 0 ==> self.stride * top + left <= self.len
        &&& self.stride * (top + height) + left <= usize::MAX
    }

    /// Whether the view is well formed and lies inside a buffer of `buf_len` pixels.
    pub fn fits_in(&self, buf_len: usize) -> (ok: bool)
        ensures
            ok == self.fits(buf_len as int),
    {
        if self.stride == 0 || self.width > self.stride {
            return false;
        }
        let end = match self.offset.checked_add(self.len) {
            Some(end) => end,
            None => return false,
        };
        if end > buf_len {
            return false;
        }
        if self.height > 0 {
            let last_row = self.height - 1;
            match self.stride.checked_mul(last_row) {
                Some(row_start) => match row_start.checked_add(self.width) {
                    Some(row_end) => row_end <= self.len,
                    None => false,
                },
                None => false,
            }
        } else {
            true
        }
    }

    /// Whether `sub(left, top, width, height)` may be taken.
    pub fn can_sub_image(&self, left: usize, top: usize, width: usize, height: usize) -> (ok: bool)
        ensures
            ok == self.can_sub(left as int, top as int, width as int, height as int),
    {
        let right = match left.checked_add(width) {
            Some(right) => right,
            None => return false,
        };
        let bottom = match top.checked_add(height) {
            Some(bottom) => bottom,
            None => return false,
        };
        if right > self.width || bottom > self.height {
            return false;
        }
        let end = match self.stride.checked_mul(bottom) {
            Some(rows) => match rows.checked_add(left) {
                Some(end) => end,
                None => return false,
            },
            None => return false,
        };
        if height == 0 {
            assert(self.stride * top == self.stride * bottom);
            end <= self.len
        } else {
            true
        }
    }

    /// A pixel `(x, y)` of the view (`x` inside the stride) that lies outside the rectangle of
    /// `width` x `height` pixels at `(left, top)` is not a pixel of that sub-rectangle.
    pub proof fn lemma_outside_sub(
        self,
        x: int,
        y: int,
        left: int,
        top: int,
        width: int,
        height: int,
    )
        requires
            self.stride > 0,
            0 <= x < self.stride,
            0 <= y,
            0 <= left,
            0 <= top,
            0 <= width,
            left + width <= self.stride,
            self.offset + self.stride * top + left <= usize::MAX,
            !(left <= x < left + width && top <= y < top + height),
        ensures
            !self.sub(left, top, width, height).in_rect(self.index(x, y), width, height),
    {
        let s = self.stride as int;
        let sub = self.sub(left, top, width, height);
        let i = self.index(x, y);
        assert(0 <= s * top) by (nonlinear_arith)
            requires s > 0, top >= 0;
        assert(sub.offset == self.offset + s * top + left);
        let d = i - sub.offset;
        assert(d == (y - top) * s + (x - left)) by (nonlinear_arith)
            requires
                d == i - sub.offset,
                i == self.offset + y * s + x,
                sub.offset == self.offset + s * top + left,
        ;
        if d >= 0 {
            if x >= left {
                assert(y - top >= 0) by (nonlinear_arith)
                    requires d == (y - top) * s + (x - left), d >= 0, 0 <= x - left < s;
                vstd::arithmetic::div_mod::lemma_fundamental_div_mod_converse(d, s, y - top, x - left);
            } else {
                assert(d == (y - top - 1) * s + (s + x - left)) by (nonlinear_arith)
                    requires d == (y - top) * s + (x - left);
                assert(y - top - 1 >= 0) by (nonlinear_arith)
                    requires d == (y - top - 1) * s + (s + x - left), d >= 0, 0 <= s + x - left < s;
                vstd::arithmetic::div_mod::lemma_fundamental_div_mod_converse(
                    d,
                    s,
                    y - top - 1,
                    s + x - left,
                );
            }
        }
    }

    /// A sub-rectangle that may be taken is a well-formed view inside this view's slice.
    pub proof fn lemma_sub_fits(self, left: int, top: int, width: int, height: int)
        requires
            self.wf(),
            self.can_sub(left, top, width, height),
        ensures
            self.sub(left, top, width, height).wf(),
            self.sub(left, top, width, height).offset == self.offset + self.stride * top + left,
            self.sub(left, top, width, height).offset + self.sub(left, top, width, height).len
                <= self.offset + self.len,
    {
        let start = self.stride * top + left;
        if height > 0 {
            self.lemma_row_start_bound(top);
            assert(self.stride * (top + height - 1) + left + width <= self.len) by (nonlinear_arith)
                requires
                    self.stride * (self.height - 1) + self.width <= self.len,
                    top + height <= self.height,
                    height > 0,
                    left + width <= self.width,
                    0 <= left,
                    0 <= top,
            ;
            assert(self.stride * top + self.stride * height == self.stride * (top + height))
                by (nonlinear_arith);
            assert(self.stride * (top + height - 1) + self.stride == self.stride * (top + height))
                by (nonlinear_arith);
            assert(self.stride * (height - 1) <= self.stride * (top + height - 1))
                by (nonlinear_arith)
                requires self.stride > 0, height > 0, top >= 0;
            assert(self.stride * (height - 1) + self.stride == self.stride * height)
                by (nonlinear_arith);
            assert(0 <= self.stride * top) by (nonlinear_arith)
                requires self.stride > 0, top >= 0;
            assert(0 <= self.stride * (height - 1)) by (nonlinear_arith)
                requires self.stride > 0, height > 0;
            let len = if self.len >= start + self.stride * height {
                self.stride * height
            } else {
                self.stride * (height - 1) + width
            };
            assert(self.stride * (height - 1) + width <= len) by (nonlinear_arith)
                requires
                    len == self.stride * height || len == self.stride * (height - 1) + width,
                    width <= self.stride,
                    height > 0,
            ;
        } else {
            assert(0 <= self.stride * top) by (nonlinear_arith)
                requires self.stride > 0, top >= 0;
        }
    }

    /// The sub-rectangle of `width` x `height` pixels whose top-left pixel is `(left, top)`.
    pub fn sub_image(&self, left: usize, top: usize, width: usize, height: usize) -> (sub: ImgView)
        requires
            self.wf(),
            left + width <= self.width,
            top + height <= self.height,
            height == 0 ==> self.stride * top + left <= self.len,
            self.stride * (top + height) + left <= usize::MAX,
        ensures
            sub == self.sub(left as int, top as int, width as int, height as int),
            sub.width == width,
            sub.height == height,
            sub.stride == self.stride,
            sub.offset == self.offset + self.stride * top + left,
            sub.offset + sub.len <= self.offset + self.len,
            sub.wf(),
            forall|x: int, y: int|
                sub.contains(x, y) ==> #[trigger] sub.index(x, y) == self.index(left + x, top + y),
    {
        proof {
            if height > 0 {
                self.lemma_row_start_bound(top as int);
                assert(self.stride * (top + height - 1) + left + width <= self.len) by (nonlinear_arith)
                    requires
                        self.stride * (self.height - 1) + self.width <= self.len,
                        top + height <= self.height,
                        height > 0,
                        left + width <= self.width,
                ;
                assert(self.stride * top + self.stride * height == self.stride * (top + height))
                    by (nonlinear_arith);
                assert(self.stride * (top + height - 1) + self.stride == self.stride * (top + height))
                    by (nonlinear_arith);
                assert(self.stride * (height - 1) <= self.stride * (top + height - 1))
                    by (nonlinear_arith)
                    requires self.stride > 0, height > 0;
                assert(self.stride * (height - 1) + self.stride == self.stride * height)
                    by (nonlinear_arith);
            }
        }
        let start = self.stride * top + left;
        let len: usize;
        if height == 0 {
            len = 0;
        } else if self.len >= start + self.stride * height {
            len = self.stride * height;
        } else {
            len = self.stride * (height - 1) + width;
        }
        let sub = ImgView { offset: self.offset + start, len, width, height, stride: self.stride };
        proof {
            if height > 0 {
                assert(self.stride * (height - 1) + width <= len) by (nonlinear_arith)
                    requires
                        len == self.stride * height || len == self.stride * (height - 1) + width,
                        width <= self.stride,
                        height > 0,
                ;
            }
            assert forall|x: int, y: int| sub.contains(x, y) implies #[trigger] sub.index(x, y)
                == self.index(left + x, top + y) by {
                assert((top + y) * self.stride == top * self.stride + y * self.stride)
                    by (nonlinear_arith);
                assert(self.stride * top == top * self.stride) by (nonlinear_arith);
            }
        }
        sub
    }

    /// The start of any row up to `height` lies inside the slice.
    pub proof fn lemma_row_start_bound(self, y: int)
        requires
            self.wf(),
            0 <= y <= self.height,
            self.height > 0,
        ensures
            self.stride * y <= self.stride * self.height,
            y < self.height ==> self.stride * y + self.width <= self.len,
    {
        assert(self.stride * y <= self.stride * self.height) by (nonlinear_arith)
            requires 0 <= y <= self.height, self.stride > 0;
        if y < self.height {
            assert(self.stride * y <= self.stride * (self.height - 1)) by (nonlinear_arith)
                requires 0 <= y < self.height, self.stride > 0;
        }
    }

    /// Every pixel of the view lies inside its slice.
    pub proof fn lemma_index_in_bounds(self, x: int, y: int)
        requires
            self.wf(),
            self.contains(x, y),
        ensures
            0 <= self.local_index(x, y) < self.len,
            self.local_index(x, y) == self.stride * y + x,
    {
        self.lemma_row_start_bound(y);
        assert(y * self.stride == self.stride * y) by (nonlinear_arith);
        assert(0 <= self.stride * y) by (nonlinear_arith)
            requires 0 <= y, self.stride > 0;
    }
}

} // verus!
