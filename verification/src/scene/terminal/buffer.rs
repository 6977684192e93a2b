//! The terminal's character screen: a 216 x 182 pixel, 2-bit image of 27 x 13 character cells.
//!
//! Unlike the final frame buffer, the screen is oriented "correctly" (X goes right, Y goes down
//! the rows). Each byte holds four pixels, the first in its low bits; a cell row is 8 pixels,
//! that is 2 bytes.

use vstd::prelude::*;

use crate::encoding::{cp866_encoder, cp866_spec};
use crate::texture::{Tex1Data, Tex2Data};

verus! {

/// Width of the screen in pixels.
pub const WIDTH: usize = 216;

/// Height of the screen in pixels.
pub const HEIGHT: usize = 182;

/// Width of the screen in cells.
pub const WIDTH_CELLS: usize = 27;

/// Height of the screen in cells.
pub const HEIGHT_CELLS: usize = 13;

/// Width of a cell in pixels.
pub const CELL_WIDTH: usize = 8;

/// Height of a cell in pixels.
pub const CELL_HEIGHT: usize = 14;

/// Bits per pixel of the screen.
pub const BPP: usize = 2;

/// Bytes of the whole screen.
pub const SCREEN_BYTES: usize = 9828;

/// Bytes of one pixel row of the screen.
pub const ROW_BYTES: usize = 54;

/// Glyph code drawn for characters the code page cannot encode (a small square).
pub const MISSING_GLYPH: u8 = 254;

/// Each bit of `x` doubled into a pair of bits: bit `i` of `x` becomes bits `2i` and `2i + 1`.
pub open spec fn spread_bits(x: u8) -> u16 {
    let x = x as u16;
    ((x & 1) << 0) | ((x & 1) << 1) | ((x & 2) << 1) | ((x & 2) << 2) | ((x & 4) << 2) | ((x & 4) << 3) | ((x & 8) << 3) | ((x & 8) << 4) | ((x & 16) << 4) | ((x & 16) << 5) | ((x & 32) << 5) | ((x & 32) << 6) | ((x & 64) << 6) | ((x & 64) << 7) | ((x & 128) << 7) | ((x & 128) << 8)
}

/// Double up bits of a byte. Used to implement an efficient Tex1 -> Tex2 blit.
fn double_up_bits(x: u8) -> (doubled: u16)
    ensures
        doubled == spread_bits(x),
{
    let x0 = x as u16;
    // Spread bits apart, moving bit `i` to position `2*i`:
    // first the high nibble up by 4 slots, then pairs up by 2, then single bits up by 1.
    let x1 = (x0 | (x0 << 4)) & 0x0F0F;
    let x2 = (x1 | (x1 << 2)) & 0x3333;
    let x3 = (x2 | (x2 << 1)) & 0x5555;
    // Duplicate each bit into the slot above it.
    let doubled = x3 | (x3 << 1);
    proof {
        assert(doubled == ((x0 & 1) << 0) | ((x0 & 1) << 1) | ((x0 & 2) << 1) | ((x0 & 2) << 2) | ((x0 & 4) << 2) | ((x0 & 4) << 3) | ((x0 & 8) << 3) | ((x0 & 8) << 4) | ((x0 & 16) << 4) | ((x0 & 16) << 5) | ((x0 & 32) << 5) | ((x0 & 32) << 6) | ((x0 & 64) << 6) | ((x0 & 64) << 7) | ((x0 & 128) << 7) | ((x0 & 128) << 8)) by (bit_vector)
            requires
                x0 < 256,
                x1 == (x0 | (x0 << 4)) & 0x0F0F,
                x2 == (x1 | (x1 << 2)) & 0x3333,
                x3 == (x2 | (x2 << 1)) & 0x5555,
                doubled == x3 | (x3 << 1),
        ;
    }
    doubled
}

/// Each bit `i` of `x` appears as bits `2i` and `2i + 1` of its spread, which has no other bits.
pub proof fn lemma_spread_bits_pairs(x: u8, i: u16)
    requires
        i < 8,
    ensures
        (spread_bits(x) >> (2 * i)) & 3 == if (x >> (i as u8)) & 1 == 1 { 3u16 } else { 0u16 },
{
    let s = spread_bits(x);
    let xw = x as u16;
    assert((s >> (2 * i)) & 3 == if (xw >> i) & 1 == 1 { 3u16 } else { 0u16 }) by (bit_vector)
        requires
            i < 8,
            xw < 256,
            s == ((xw & 1) << 0) | ((xw & 1) << 1) | ((xw & 2) << 1) | ((xw & 2) << 2) | ((xw & 4) << 2) | ((xw & 4) << 3) | ((xw & 8) << 3) | ((xw & 8) << 4) | ((xw & 16) << 4) | ((xw & 16) << 5) | ((xw & 32) << 5) | ((xw & 32) << 6) | ((xw & 64) << 6) | ((xw & 64) << 7) | ((xw & 128) << 7) | ((xw & 128) << 8),
    ;
    assert((xw >> i) & 1 == ((x >> (i as u8)) & 1) as u16) by (bit_vector)
        requires
            i < 8,
            xw == x as u16,
    ;
}

/// A font atlas: glyph `code` is the 8 x 14 block of texels at column `code % glyphs_per_row`
/// and row `code / glyphs_per_row` of the grid of glyphs.
#[derive(Clone, Copy)]
pub struct FontAtlas {
    pub glyphs: Tex1Data<'static>,
    pub glyphs_per_row: usize,
}

impl FontAtlas {
    /// The atlas holds all 256 glyphs.
    pub open spec fn wf(self) -> bool {
        &&& self.glyphs.wf()
        &&& self.glyphs_per_row > 0
        &&& self.glyphs_per_row * 8 <= self.glyphs.width
        &&& (255int / self.glyphs_per_row as int + 1) * 14 <= self.glyphs.height
    }

    /// Whether the atlas is usable: see [`FontAtlas::wf`].
    pub fn is_valid(&self) -> (ok: bool)
        ensures
            ok == self.wf(),
    {
        if !self.glyphs.is_valid() || self.glyphs_per_row == 0 {
            return false;
        }
        let row_fits = match self.glyphs_per_row.checked_mul(8) {
            Some(row_width) => row_width <= self.glyphs.width,
            None => false,
        };
        let rows: usize = 255 / self.glyphs_per_row + 1;
        assert(rows <= 256);
        row_fits && rows * 14 <= self.glyphs.height
    }

    /// Byte of the atlas holding the first texel of row `r` of glyph `code`.
    pub open spec fn glyph_row_index(self, code: u8, r: int) -> int {
        let g = self.glyphs_per_row as int;
        let atlas_y = (code as int / g) * 14 + r;
        let atlas_x = (code as int % g) * 8;
        (atlas_y * self.glyphs.width + atlas_x) / 8
    }

    /// The 8 texels of row `r` of glyph `code`, one per bit.
    pub open spec fn glyph_row(self, code: u8, r: int) -> u8 {
        self.glyphs.data@[self.glyph_row_index(code, r)]
    }

    proof fn lemma_glyph_row_index(self, code: u8, r: int)
        requires
            self.wf(),
            0 <= r < 14,
        ensures
            0 <= self.glyph_row_index(code, r) < self.glyphs.data@.len(),
            ((code as int / self.glyphs_per_row as int) * 14 + r) * self.glyphs.width + (code as int
                % self.glyphs_per_row as int) * 8 < self.glyphs.width * self.glyphs.height,
    {
        let g = self.glyphs_per_row as int;
        let w = self.glyphs.width as int;
        let h = self.glyphs.height as int;
        let ay = (code as int / g) * 14 + r;
        let ax = (code as int % g) * 8;
        assert(code as int / g <= 255int / g) by (nonlinear_arith)
            requires 0 <= code <= 255, g > 0;
        assert(0 <= code as int % g < g) by (nonlinear_arith)
            requires g > 0;
        assert(0 <= code as int / g) by (nonlinear_arith)
            requires g > 0, code >= 0;
        assert(ay < h);
        assert(ax + 8 <= w) by (nonlinear_arith)
            requires ax == (code as int % g) * 8, 0 <= code as int % g < g, g * 8 <= w;
        assert(0 <= ay * w + ax < w * h) by (nonlinear_arith)
            requires 0 <= ay < h, 0 <= ax, ax + 8 <= w;
        assert((ay * w + ax) / 8 < self.glyphs.data@.len()) by (nonlinear_arith)
            requires 0 <= ay * w + ax < w * h, w * h <= 8 * self.glyphs.data@.len();
    }
}

/// First byte of the row of cell column `cell_x` in pixel row `buffer_y` (two bytes per cell row).
pub open spec fn cell_byte(cell_x: int, buffer_y: int) -> int {
    (buffer_y * 216 + cell_x * 8) * 2 / 8
}

/// The cell at column `cell_x` and row `cell_y` (which may stick out on the right, onto the
/// next pixel rows) lies inside the screen.
pub open spec fn cell_in_screen(cell_x: int, cell_y: int) -> bool {
    &&& 0 <= cell_x
    &&& 0 <= cell_y
    &&& cell_byte(cell_x, cell_y * 14 + 13) + 1 < 9828
}

/// Whether byte `k` is one of the two bytes of one of the first `rows` pixel rows of the cell.
pub open spec fn in_cell_rows(k: int, cell_x: int, cell_y: int, rows: int) -> bool {
    let d = k - cell_byte(cell_x, cell_y * 14);
    &&& 0 <= d
    &&& d / 54 < rows
    &&& d % 54 < 2
}

/// Whether byte `k` is one of the bytes of the cell.
pub open spec fn in_cell(k: int, cell_x: int, cell_y: int) -> bool {
    in_cell_rows(k, cell_x, cell_y, 14)
}

/// The screen with the cell's pixels inverted (every 2-bit value `v` becomes `3 - v`).
pub open spec fn inverted_cell(data: Seq<u8>, cell_x: int, cell_y: int) -> Seq<u8> {
    Seq::new(
        data.len(),
        |k: int| if in_cell(k, cell_x, cell_y) { data[k] ^ 0xff } else { data[k] },
    )
}

/// Inverting a cell twice gives back the screen it started from.
pub proof fn lemma_invert_cell_twice(data: Seq<u8>, cell_x: int, cell_y: int)
    ensures
        inverted_cell(inverted_cell(data, cell_x, cell_y), cell_x, cell_y) == data,
{
    assert forall|k: int| 0 <= k < data.len() implies #[trigger] inverted_cell(
        inverted_cell(data, cell_x, cell_y),
        cell_x,
        cell_y,
    )[k] == data[k] by {
        let b = data[k];
        assert((b ^ 0xff) ^ 0xff == b) by (bit_vector);
    }
    assert(inverted_cell(inverted_cell(data, cell_x, cell_y), cell_x, cell_y) =~= data);
}

/// The code-page byte whose glyph shows `ch`: its IBM866 byte, or a small square when it has none.
pub open spec fn glyph_code(ch: char) -> u8 {
    match cp866_spec().encoded(ch as u32) {
        Some(code) => code,
        None => MISSING_GLYPH,
    }
}

/// The byte that byte `k` of a cell gets when glyph `code` is drawn into the cell: row `r` of
/// the glyph, each texel doubled into a 2-bit pixel of value 0 or 3.
pub open spec fn glyph_byte(font: FontAtlas, code: u8, k: int, cell_x: int, cell_y: int) -> u8 {
    let d = k - cell_byte(cell_x, cell_y * 14);
    let doubled = spread_bits(font.glyph_row(code, d / 54));
    if d % 54 == 0 {
        (doubled % 256) as u8
    } else {
        (doubled / 256) as u8
    }
}

/// The screen with glyph `code` drawn into the first `rows` pixel rows of the cell.
pub open spec fn with_glyph_rows(
    data: Seq<u8>,
    font: FontAtlas,
    code: u8,
    cell_x: int,
    cell_y: int,
    rows: int,
) -> Seq<u8> {
    Seq::new(
        data.len(),
        |k: int|
            if in_cell_rows(k, cell_x, cell_y, rows) {
                glyph_byte(font, code, k, cell_x, cell_y)
            } else {
                data[k]
            },
    )
}

/// The screen with the glyph of `ch` drawn into the cell.
pub open spec fn with_glyph(data: Seq<u8>, font: FontAtlas, ch: char, cell_x: int, cell_y: int) -> Seq<
    u8,
> {
    with_glyph_rows(data, font, glyph_code(ch), cell_x, cell_y, 14)
}

proof fn lemma_cell_byte(cell_x: int, cell_y: int, r: int)
    requires
        0 <= cell_x,
        0 <= cell_y,
        0 <= r < 14,
    ensures
        cell_byte(cell_x, cell_y * 14 + r) == cell_byte(cell_x, cell_y * 14) + r * 54,
        cell_byte(cell_x, cell_y * 14) == cell_y * 14 * 54 + cell_x * 2,
        cell_byte(cell_x, cell_y * 14 + r) <= cell_byte(cell_x, cell_y * 14 + 13),
        0 <= cell_byte(cell_x, cell_y * 14),
{
    assert(((cell_y * 14 + r) * 216 + cell_x * 8) * 2 == ((cell_y * 14 + r) * 54 + cell_x * 2) * 8)
        by (nonlinear_arith);
    assert((cell_y * 14 * 216 + cell_x * 8) * 2 == (cell_y * 14 * 54 + cell_x * 2) * 8)
        by (nonlinear_arith);
    assert(0 <= cell_y * 14 * 54) by (nonlinear_arith)
        requires 0 <= cell_y;
}

/// Byte `k` of the bottom row of cells, as drawn with glyph `code` in every cell.
pub open spec fn bottom_row_byte(font: FontAtlas, code: u8, k: int) -> u8 {
    glyph_byte(font, code, k, (k - 9072) % 54 / 2, 12)
}

/// The screen moved up by one row of cells, with the bottom row of cells cleared to spaces.
pub open spec fn scrolled(data: Seq<u8>, font: FontAtlas) -> Seq<u8> {
    Seq::new(
        data.len(),
        |k: int|
            if k < 9072 {
                data[k + 756]
            } else {
                bottom_row_byte(font, glyph_code(' '), k)
            },
    )
}

/// A byte of the bottom pixel rows of cells belongs to the bottom-row cell of its column pair.
proof fn lemma_bottom_cell(k: int, x: int)
    requires
        9072 <= k < 9828,
        0 <= x < 27,
    ensures
        in_cell(k, x, 12) <==> (k - 9072) % 54 / 2 == x,
        cell_byte(x, 168) == 9072 + 2 * x,
{
    lemma_cell_byte(x, 12, 0);
    let q = (k - 9072) / 54;
    let m = (k - 9072) % 54;
    vstd::arithmetic::div_mod::lemma_fundamental_div_mod(k - 9072, 54);
    assert(0 <= m < 54);
    assert(0 <= q < 14);
    let d = k - 9072 - 2 * x;
    assert(d == q * 54 + (m - 2 * x));
    if m / 2 == x {
        assert(0 <= m - 2 * x < 2);
        vstd::arithmetic::div_mod::lemma_fundamental_div_mod_converse(d, 54, q, m - 2 * x);
    } else if m < 2 * x {
        if q > 0 {
            assert(d == (q - 1) * 54 + (54 + m - 2 * x));
            vstd::arithmetic::div_mod::lemma_fundamental_div_mod_converse(d, 54, q - 1, 54 + m - 2 * x);
        }
    } else {
        assert(m >= 2 * x + 2);
        vstd::arithmetic::div_mod::lemma_fundamental_div_mod_converse(d, 54, q, m - 2 * x);
    }
}

/// The character screen and the font its cells are drawn with.
pub struct ScreenBuffer {
    // format is Tex2 (4 pixels per byte)
    data: Vec<u8>,
    font: FontAtlas,
}

impl ScreenBuffer {
    /// The screen bytes.
    pub closed spec fn bytes(self) -> Seq<u8> {
        self.data@
    }

    /// The font that cells are drawn with.
    pub closed spec fn font(self) -> FontAtlas {
        self.font
    }

    /// The screen holds exactly one 216 x 182 2-bit image and the font holds every glyph.
    pub closed spec fn wf(self) -> bool {
        &&& self.data@.len() == SCREEN_BYTES
        &&& self.font.wf()
    }

    /// A screen showing `initial`, whose cells are drawn with `font`.
    pub fn new(initial: Tex2Data<'_>, font: FontAtlas) -> (screen: Self)
        requires
            initial.height == HEIGHT,
            initial.width == WIDTH,
            initial.data@.len() == SCREEN_BYTES,
            font.wf(),
        ensures
            screen.wf(),
            screen.bytes() == initial.data@,
            screen.font() == font,
    {
        Self { data: vstd::slice::slice_to_vec(initial.data), font }
    }

    /// Inverts the pixels of the cell at column `cell_x` and row `cell_y`.
    pub fn invert_cell(&mut self, cell_x: usize, cell_y: usize)
        requires
            old(self).wf(),
            cell_in_screen(cell_x as int, cell_y as int),
        ensures
            final(self).wf(),
            final(self).font() == old(self).font(),
            final(self).bytes() == inverted_cell(old(self).bytes(), cell_x as int, cell_y as int),
    {
        let ghost old_data = self.data@;
        let cell_start_y = cell_y * CELL_HEIGHT;
        let mut buffer_y = cell_start_y;
        while buffer_y < cell_start_y + CELL_HEIGHT
            invariant
                self.wf(),
                self.font == old(self).font,
                cell_in_screen(cell_x as int, cell_y as int),
                cell_start_y == cell_y * 14,
                cell_start_y <= buffer_y <= cell_start_y + 14,
                old_data.len() == SCREEN_BYTES,
                forall|k: int|
                    #![trigger self.data@[k]]
                    0 <= k < SCREEN_BYTES ==> self.data@[k] == if in_cell_rows(
                        k,
                        cell_x as int,
                        cell_y as int,
                        buffer_y - cell_start_y,
                    ) {
                        old_data[k] ^ 0xff
                    } else {
                        old_data[k]
                    },
            decreases cell_start_y + 14 - buffer_y,
        {
            let ghost r = buffer_y - cell_start_y;
            proof {
                lemma_cell_byte(cell_x as int, cell_y as int, r);
            }
            let byte_start = (buffer_y * WIDTH + cell_x * CELL_WIDTH) * BPP / 8;
            let ghost before = self.data@;
            let b0 = self.data[byte_start];
            self.data.set(byte_start, b0 ^ 0xff);
            let b1 = self.data[byte_start + 1];
            self.data.set(byte_start + 1, b1 ^ 0xff);
            proof {
                let base = cell_byte(cell_x as int, cell_y as int * 14);
                assert forall|k: int| 0 <= k < SCREEN_BYTES implies #[trigger] self.data@[k] == if in_cell_rows(
                    k,
                    cell_x as int,
                    cell_y as int,
                    r + 1,
                ) {
                    old_data[k] ^ 0xff
                } else {
                    old_data[k]
                } by {
                    if k != byte_start && k != byte_start + 1 {
                        assert(self.data@[k] == before[k]);
                    }
                }
            }
            buffer_y += 1;
        }
        proof {
            assert(self.data@ =~= inverted_cell(old_data, cell_x as int, cell_y as int));
        }
    }

    /// Draws the glyph of `ch` (its IBM866 glyph, or a small square) into the cell at column
    /// `cell_x` and row `cell_y`.
    pub fn blit_cell(&mut self, cell_x: usize, cell_y: usize, ch: char)
        requires
            old(self).wf(),
            cell_in_screen(cell_x as int, cell_y as int),
        ensures
            final(self).wf(),
            final(self).font() == old(self).font(),
            final(self).bytes() == with_glyph(old(self).bytes(), old(self).font(), ch, cell_x as int, cell_y as int),
    {
        let ghost old_data = self.data@;
        let cell_start_y = cell_y * CELL_HEIGHT;

        let encoder = cp866_encoder();
        let cp866_code = match encoder.encode_char(ch) {
            Some(code) => code,
            None => MISSING_GLYPH,
        };
        assert(cp866_code == glyph_code(ch));

        let glyphs_per_row = self.font.glyphs_per_row;
        let atlas_pos_x = cp866_code as usize % glyphs_per_row;
        let atlas_pos_y = cp866_code as usize / glyphs_per_row;
        let atlas_x = atlas_pos_x * CELL_WIDTH;

        let mut r: usize = 0;
        while r < CELL_HEIGHT
            invariant
                self.wf(),
                self.font == old(self).font,
                cell_in_screen(cell_x as int, cell_y as int),
                cell_start_y == cell_y * 14,
                cp866_code == glyph_code(ch),
                glyphs_per_row == self.font.glyphs_per_row,
                atlas_pos_x == cp866_code as int % glyphs_per_row as int,
                atlas_pos_y == cp866_code as int / glyphs_per_row as int,
                atlas_x == atlas_pos_x * 8,
                r <= 14,
                old_data.len() == SCREEN_BYTES,
                self.data@ == with_glyph_rows(old_data, self.font, cp866_code, cell_x as int, cell_y as int, r as int),
            decreases 14 - r,
        {
            proof {
                lemma_cell_byte(cell_x as int, cell_y as int, r as int);
                self.font.lemma_glyph_row_index(cp866_code, r as int);
            }
            let atlas_y = atlas_pos_y * CELL_HEIGHT + r;
            let buffer_y = cell_start_y + r;
            let row_value_tex1 = self.font.glyphs.data[(atlas_y * self.font.glyphs.width + atlas_x) / 8];
            let row_value_tex2 = double_up_bits(row_value_tex1);

            let byte_start = (buffer_y * WIDTH + cell_x * CELL_WIDTH) * BPP / 8;
            let ghost before = self.data@;
            self.data.set(byte_start, (row_value_tex2 & 0xff) as u8);
            self.data.set(byte_start + 1, (row_value_tex2 >> 8) as u8);
            proof {
                assert(row_value_tex1 == self.font.glyph_row(cp866_code, r as int));
                assert((row_value_tex2 & 0xff) as u8 == (row_value_tex2 % 256) as u8) by (bit_vector);
                assert((row_value_tex2 >> 8) as u8 == (row_value_tex2 / 256) as u8) by (bit_vector);
                assert(self.data@ =~= with_glyph_rows(old_data, self.font, cp866_code, cell_x as int, cell_y as int, r + 1));
            }
            r += 1;
        }
    }

    /// Moves the whole screen up by one row of cells and clears the bottom row of cells to spaces.
    pub fn scroll(&mut self)
        requires
            old(self).wf(),
        ensures
            final(self).wf(),
            final(self).font() == old(self).font(),
            final(self).bytes() == scrolled(old(self).bytes(), old(self).font()),
    {
        let ghost old_data = self.data@;
        let mut pixel_y: usize = 0;
        while pixel_y < HEIGHT - CELL_HEIGHT
            invariant
                self.wf(),
                self.font == old(self).font,
                pixel_y <= 168,
                old_data.len() == SCREEN_BYTES,
                forall|k: int|
                    #![trigger self.data@[k]]
                    0 <= k < SCREEN_BYTES ==> self.data@[k] == if k < pixel_y * 54 {
                        old_data[k + 756]
                    } else {
                        old_data[k]
                    },
            decreases 168 - pixel_y,
        {
            let byte_dst_start = pixel_y * WIDTH * BPP / 8;
            let byte_src_start = byte_dst_start + CELL_HEIGHT * WIDTH * BPP / 8;
            assert(byte_dst_start == pixel_y * 54);
            let mut j: usize = 0;
            while j < ROW_BYTES
                invariant
                    self.wf(),
                    self.font == old(self).font,
                    pixel_y < 168,
                    byte_dst_start == pixel_y * 54,
                    byte_src_start == byte_dst_start + 756,
                    j <= 54,
                    old_data.len() == SCREEN_BYTES,
                    forall|k: int|
                        #![trigger self.data@[k]]
                        0 <= k < SCREEN_BYTES ==> self.data@[k] == if k < pixel_y * 54 + j {
                            old_data[k + 756]
                        } else {
                            old_data[k]
                        },
                decreases 54 - j,
            {
                let value = self.data[byte_src_start + j];
                self.data.set(byte_dst_start + j, value);
                j += 1;
            }
            pixel_y += 1;
        }
        let ghost shifted = self.data@;

        let mut x: usize = 0;
        while x < WIDTH_CELLS
            invariant
                self.wf(),
                self.font == old(self).font,
                x <= 27,
                old_data.len() == SCREEN_BYTES,
                forall|k: int|
                    #![trigger self.data@[k]]
                    0 <= k < SCREEN_BYTES ==> self.data@[k] == if k < 9072 {
                        old_data[k + 756]
                    } else if (k - 9072) % 54 / 2 < x {
                        bottom_row_byte(self.font, glyph_code(' '), k)
                    } else {
                        old_data[k]
                    },
            decreases 27 - x,
        {
            proof {
                lemma_cell_byte(x as int, 12, 13);
            }
            let ghost before = self.data@;
            self.blit_cell(x, HEIGHT_CELLS - 1, ' ');
            proof {
                assert forall|k: int| 0 <= k < SCREEN_BYTES implies #[trigger] self.data@[k] == if k < 9072 {
                    old_data[k + 756]
                } else if (k - 9072) % 54 / 2 < x + 1 {
                    bottom_row_byte(self.font, glyph_code(' '), k)
                } else {
                    old_data[k]
                } by {
                    assert(self.data@[k] == with_glyph(before, self.font, ' ', x as int, 12)[k]);
                    if k >= 9072 {
                        lemma_bottom_cell(k, x as int);
                    } else {
                        lemma_cell_byte(x as int, 12, 0);
                    }
                }
            }
            x += 1;
        }
        proof {
            assert forall|k: int| 0 <= k < SCREEN_BYTES implies #[trigger] self.data@[k] == scrolled(old_data, self.font)[k] by {
                if k >= 9072 {
                    assert((k - 9072) % 54 / 2 < 27);
                }
            }
            assert(self.data@ =~= scrolled(old_data, self.font));
        }
    }

    /// The screen as a 2-bit texture.
    pub fn as_tex2(&self) -> (tex: Tex2Data<'_>)
        requires
            self.wf(),
        ensures
            tex.width == WIDTH,
            tex.height == HEIGHT,
            tex.data@ == self.bytes(),
            tex.wf(),
    {
        let tex = Tex2Data { width: WIDTH, height: HEIGHT, data: self.data.as_slice() };
        assert(Tex2Data::per_byte() == 4);
        assert(tex.width == 216 && tex.height == 182);
        assert(tex.width * tex.height == 39312) by (nonlinear_arith)
            requires tex.width == 216 && tex.height == 182;
        assert(tex.wf());
        tex
    }
}

/// Drawing a character's glyph into a cell puts the glyph's rows into the cell's pixel rows in
/// order, top to bottom: the two bytes of pixel row `r` of the cell are the low and high byte of
/// row `r` of the glyph with every texel doubled into a 2-bit pixel.
pub proof fn lemma_glyph_rows_in_order(
    data: Seq<u8>,
    font: FontAtlas,
    ch: char,
    cell_x: int,
    cell_y: int,
    r: int,
)
    requires
        0 <= cell_x,
        0 <= cell_y,
        0 <= r < 14,
        cell_byte(cell_x, cell_y * 14 + r) + 1 < data.len(),
    ensures
        with_glyph(data, font, ch, cell_x, cell_y)[cell_byte(cell_x, cell_y * 14 + r)] == (spread_bits(
            font.glyph_row(glyph_code(ch), r),
        ) % 256) as u8,
        with_glyph(data, font, ch, cell_x, cell_y)[cell_byte(cell_x, cell_y * 14 + r) + 1] == (spread_bits(
            font.glyph_row(glyph_code(ch), r),
        ) / 256) as u8,
{
    lemma_cell_byte(cell_x, cell_y, r);
    let base = cell_byte(cell_x, cell_y * 14);
    vstd::arithmetic::div_mod::lemma_fundamental_div_mod_converse(r * 54, 54, r, 0);
    vstd::arithmetic::div_mod::lemma_fundamental_div_mod_converse(r * 54 + 1, 54, r, 1);
    assert(in_cell_rows(base + r * 54, cell_x, cell_y, 14));
    assert(in_cell_rows(base + r * 54 + 1, cell_x, cell_y, 14));
}

/// Drawing a glyph into a cell leaves the cell to its left as it was: the bytes of every pixel
/// row of cell column `cell_x - 1` are not bytes of the cell at `cell_x`.
pub proof fn lemma_glyph_keeps_left_neighbour(
    data: Seq<u8>,
    font: FontAtlas,
    ch: char,
    cell_x: int,
    cell_y: int,
    r: int,
    b: int,
)
    requires
        1 <= cell_x < 27,
        0 <= cell_y,
        0 <= r < 14,
        0 <= b < 2,
        0 <= cell_byte(cell_x - 1, cell_y * 14 + r) + b < data.len(),
    ensures
        with_glyph(data, font, ch, cell_x, cell_y)[cell_byte(cell_x - 1, cell_y * 14 + r) + b]
            == data[cell_byte(cell_x - 1, cell_y * 14 + r) + b],
{
    lemma_cell_byte(cell_x - 1, cell_y, r);
    lemma_cell_byte(cell_x, cell_y, 0);
    let d = r * 54 + b - 2;
    if r > 0 {
        vstd::arithmetic::div_mod::lemma_fundamental_div_mod_converse(d, 54, r - 1, 52 + b);
    }
    assert(!in_cell_rows(cell_byte(cell_x - 1, cell_y * 14 + r) + b, cell_x, cell_y, 14));
}

/// Scrolling moves every cell up one row of cells and fills the bottom row with spaces: byte `b`
/// of pixel row `r` of cell `(x, y)` afterwards holds what the same byte of cell `(x, y + 1)`
/// held, and the cells of the bottom row show the space glyph, rows in order.
pub proof fn lemma_scroll_moves_cells_up(
    data: Seq<u8>,
    font: FontAtlas,
    x: int,
    y: int,
    r: int,
    b: int,
)
    requires
        data.len() == SCREEN_BYTES,
        0 <= x < WIDTH_CELLS,
        0 <= y < HEIGHT_CELLS - 1,
        0 <= r < 14,
        0 <= b < 2,
    ensures
        scrolled(data, font)[cell_byte(x, y * 14 + r) + b] == data[cell_byte(x, (y + 1) * 14 + r) + b],
        scrolled(data, font)[cell_byte(x, 12 * 14 + r)] == (spread_bits(
            font.glyph_row(glyph_code(' '), r),
        ) % 256) as u8,
        scrolled(data, font)[cell_byte(x, 12 * 14 + r) + 1] == (spread_bits(
            font.glyph_row(glyph_code(' '), r),
        ) / 256) as u8,
{
    assert(((y * 14 + r) * 216 + x * 8) * 2 == ((y * 14 + r) * 54 + 2 * x) * 8) by (nonlinear_arith);
    assert((((y + 1) * 14 + r) * 216 + x * 8) * 2 == (((y + 1) * 14 + r) * 54 + 2 * x) * 8)
        by (nonlinear_arith);
    assert(((168 + r) * 216 + x * 8) * 2 == ((168 + r) * 54 + 2 * x) * 8) by (nonlinear_arith);
    assert((y * 14 + r) * 54 + 2 * x + 1 < 9072) by (nonlinear_arith)
        requires 0 <= y < 12, 0 <= r < 14, 0 <= x < 27;
    lemma_cell_byte(x, 12, 0);
    vstd::arithmetic::div_mod::lemma_fundamental_div_mod_converse(r * 54 + 2 * x, 54, r, 2 * x);
    vstd::arithmetic::div_mod::lemma_fundamental_div_mod_converse(r * 54 + 2 * x + 1, 54, r, 2 * x + 1);
    vstd::arithmetic::div_mod::lemma_fundamental_div_mod_converse(r * 54, 54, r, 0);
    vstd::arithmetic::div_mod::lemma_fundamental_div_mod_converse(r * 54 + 1, 54, r, 1);
    assert((2 * x) / 2 == x && (2 * x + 1) / 2 == x);
}

} // verus!
