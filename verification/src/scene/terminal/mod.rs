//! A character terminal that types out queued text with a blinking cursor.

pub mod buffer;

use vstd::prelude::*;

use crate::blend::{blend_rgb565, spec_blend};
use crate::image::ImgView;
use crate::scene::SceneRequest;
use crate::texture::Tex2Data;
use crate::timer::{BackoffTimer, PeriodicSkippingTimer};
use buffer::{
    cell_byte, glyph_code, inverted_cell, lemma_glyph_keeps_left_neighbour, lemma_glyph_rows_in_order,
    scrolled, spread_bits, with_glyph, FontAtlas, ScreenBuffer,
};

verus! {

/// Ticks a typed character holds up the next command.
pub const WRITE_DELAY: u32 = 15;

/// Ticks a line break holds up the next command.
pub const NEWLINE_DELAY: u32 = 150;

/// Ticks between two blinks of the cursor.
pub const CURSOR_PERIOD: u32 = 500;

/// One step of typing.
pub enum TerminalCommand {
    WriteChar(char),
    Newline,
}

/// The command that types character `c`: a line break for `'\n'`, the character otherwise.
pub open spec fn command_for(c: char) -> TerminalCommand {
    if c == '\n' {
        TerminalCommand::Newline
    } else {
        TerminalCommand::WriteChar(c)
    }
}

/// The commands that type the characters `s`, in order.
pub open spec fn commands_for(s: Seq<char>) -> Seq<TerminalCommand> {
    Seq::new(s.len(), |i: int| command_for(s[i]))
}

/// Ticks that `command` holds up the next one.
pub open spec fn command_delay(command: TerminalCommand) -> int {
    match command {
        TerminalCommand::WriteChar(_) => WRITE_DELAY as int,
        TerminalCommand::Newline => NEWLINE_DELAY as int,
    }
}

/// Full-brightness color of the display.
pub const DISPLAY_FG: u16 = 0x17e9;

/// Opacity kept by every third column of the display ("scanlines").
pub const DIM_ALPHA: u8 = 0xa0;

/// Display colors, by index: passive background, active background, glow, foreground.
pub open spec fn regular_palette() -> Seq<u16> {
    seq![
        spec_blend(0, DISPLAY_FG, 0x18) as u16,
        spec_blend(0, DISPLAY_FG, 0x20) as u16,
        spec_blend(0, DISPLAY_FG, 0x50) as u16,
        DISPLAY_FG,
    ]
}

/// The display colors of the dimmed columns.
pub open spec fn dim_palette() -> Seq<u16> {
    Seq::new(4, |k: int| spec_blend(0, regular_palette()[k], DIM_ALPHA) as u16)
}

/// The 2-bit pixel `(x, y)` of the screen bytes.
pub open spec fn screen_texel(screen: Seq<u8>, x: int, y: int) -> u8 {
    let i = y * 216 + x;
    (screen[i / 4] >> (((i % 4) * 2) as u8)) & 3u8
}

/// The screen pixel shown at display position `(x, y)`: the screen sits 4 pixels from the left
/// and 7 from the top of the display, which is dark around it.
pub open spec fn display_sample(screen: Seq<u8>, x: int, y: int) -> u8 {
    if 4 <= x < 4 + 216 && 7 <= y < 7 + 182 {
        screen_texel(screen, x - 4, y - 7)
    } else {
        0
    }
}

/// Palette index shown at display position `(x, y)`: foreground where the screen pixel is lit,
/// glow next to a lit pixel on the same line, active background elsewhere on the screen and
/// passive background around it.
pub open spec fn display_index(screen: Seq<u8>, x: int, y: int) -> int {
    if 3 <= x < 4 + 217 && 7 <= y < 7 + 182 {
        if display_sample(screen, x, y) == 3 {
            3
        } else if display_sample(screen, x - 1, y) == 3 || display_sample(screen, x + 1, y) == 3 {
            2
        } else {
            1
        }
    } else {
        0
    }
}

/// Width of the display on the bottom screen (the screen is drawn rotated by a quarter turn).
pub const DISPLAY_WIDTH: usize = 196;

/// Height of the display on the bottom screen.
pub const DISPLAY_HEIGHT: usize = 224;

/// The color of the display at frame-buffer column `dst_x` and row `dst_y`: the display is
/// rotated, frame-buffer row `dst_y` showing display column `dst_y`; every third frame-buffer
/// column is dimmed.
pub open spec fn display_pixel(screen: Seq<u8>, dst_x: int, dst_y: int) -> u16 {
    let palette = if dst_x % 3 < 2 { regular_palette() } else { dim_palette() };
    palette[display_index(screen, dst_y, DISPLAY_WIDTH - dst_x - 1)]
}

/// `old` with the display of `screen` drawn into the 196 x 224 area at `(13, 12)` of `dest`.
pub open spec fn display_result(old: Seq<u16>, dest: ImgView, screen: Seq<u8>) -> Seq<u16> {
    Seq::new(
        old.len(),
        |i: int|
            if dest.in_rect(i, 13 + DISPLAY_WIDTH, 12 + DISPLAY_HEIGHT) && dest.col_of(i) >= 13
                && dest.row_of(i) >= 12 {
                display_pixel(screen, dest.col_of(i) - 13, dest.row_of(i) - 12)
            } else {
                old[i]
            },
    )
}

/// The observable state of a terminal.
pub struct TerminalModel {
    /// The screen bytes.
    pub screen: Seq<u8>,
    /// Commands waiting to be typed, first first.
    pub queue: Seq<TerminalCommand>,
    /// Tick from which the next command may be typed.
    pub command_tick: int,
    /// Tick at which the cursor blinks next.
    pub cursor_tick: int,
    /// Column of the cursor in the bottom row of cells (may be past the right edge).
    pub cursor: int,
}

/// The screen and cursor after typing `command` with the cursor at `cursor`: a character is
/// drawn at the cursor (when the cursor is on screen) and the cursor moves right; a line break
/// clears the cursor's cell, scrolls the screen up one row and returns the cursor to column 0.
pub open spec fn apply_command(
    screen: Seq<u8>,
    font: FontAtlas,
    cursor: int,
    command: TerminalCommand,
) -> (Seq<u8>, int) {
    match command {
        TerminalCommand::WriteChar(c) => (
            if cursor < 27 { with_glyph(screen, font, c, cursor, 12) } else { screen },
            cursor + 1,
        ),
        TerminalCommand::Newline => (
            scrolled(if cursor < 27 { with_glyph(screen, font, ' ', cursor, 12) } else { screen }, font),
            0,
        ),
    }
}

/// The terminal after typing, at tick `tick`, every command that is due: commands are typed one
/// after the other while the command tick has been reached, each pushing the command tick out
/// by its delay and restarting the cursor period at `tick`; when the queue runs dry at a due
/// tick, the command tick is reset to `tick`.
pub open spec fn typed_until(m: TerminalModel, font: FontAtlas, tick: int) -> TerminalModel
    decreases m.queue.len(),
{
    if m.command_tick > tick {
        m
    } else if m.queue.len() == 0 {
        TerminalModel { command_tick: tick, ..m }
    } else {
        let command = m.queue[0];
        let (screen, cursor) = apply_command(m.screen, font, m.cursor, command);
        typed_until(
            TerminalModel {
                screen,
                queue: m.queue.drop_first(),
                command_tick: m.command_tick + command_delay(command),
                cursor_tick: tick + CURSOR_PERIOD,
                cursor,
            },
            font,
            tick,
        )
    }
}

/// The terminal after the cursor's blink at tick `tick`: when the blink is due, the cursor's
/// cell (if on screen) is inverted and the next blink moves to the first period boundary after
/// `tick`.
pub open spec fn blinked(m: TerminalModel, tick: int) -> TerminalModel {
    if tick >= m.cursor_tick {
        TerminalModel {
            screen: if m.cursor < 27 { inverted_cell(m.screen, m.cursor, 12) } else { m.screen },
            cursor_tick: PeriodicSkippingTimer::next_after(m.cursor_tick, CURSOR_PERIOD as int, tick),
            ..m
        }
    } else {
        m
    }
}

/// The screen pixel at `(x, y)` of the display, reading the dark surround as 0.
fn sample_buffer(buffer: &Tex2Data, x: usize, y: usize) -> (value: u8)
    requires
        buffer.wf(),
        buffer.width == 216,
        buffer.height == 182,
    ensures
        value == display_sample(buffer.data@, x as int, y as int),
{
    if x >= 4 && x < 4 + 216 && y >= 7 && y < 7 + 182 {
        buffer.get_value_at_unchecked(x - 4, y - 7)
    } else {
        0x0
    }
}

/// A position of the 196 x 224 display area at `(13, 12)` of `dest` is the pixel at its
/// offset coordinates in `dest`.
proof fn lemma_sub_rect(dest: ImgView, sub: ImgView, i: int)
    requires
        dest.wf(),
        sub.wf(),
        sub.width == DISPLAY_WIDTH,
        sub.height == DISPLAY_HEIGHT,
        sub.stride == dest.stride,
        sub.offset == dest.offset + dest.stride * 12 + 13,
        13 + DISPLAY_WIDTH <= dest.width,
        12 + DISPLAY_HEIGHT <= dest.height,
    ensures
        sub.in_rect(i, DISPLAY_WIDTH as int, DISPLAY_HEIGHT as int) <==> (dest.in_rect(
            i,
            13 + DISPLAY_WIDTH,
            12 + DISPLAY_HEIGHT,
        ) && dest.col_of(i) >= 13 && dest.row_of(i) >= 12),
        sub.in_rect(i, DISPLAY_WIDTH as int, DISPLAY_HEIGHT as int) ==> sub.col_of(i) == dest.col_of(i) - 13
            && sub.row_of(i) == dest.row_of(i) - 12,
{
    if dest.offset <= i {
        dest.lemma_index_of_coords(i);
        let x = dest.col_of(i);
        let y = dest.row_of(i);
        if x >= 13 && y >= 12 {
            assert(i == sub.offset + (y - 12) * sub.stride + (x - 13)) by (nonlinear_arith)
                requires
                    i == dest.offset + y * dest.stride + x,
                    sub.offset == dest.offset + dest.stride * 12 + 13,
                    sub.stride == dest.stride;
            sub.lemma_coords_of_index(x - 13, y - 12);
        } else if sub.offset <= i {
            sub.lemma_index_of_coords(i);
            let sx = sub.col_of(i);
            let sy = sub.row_of(i);
            assert(i == dest.offset + (sy + 12) * dest.stride + (sx + 13)) by (nonlinear_arith)
                requires
                    i == sub.offset + sy * sub.stride + sx,
                    sub.offset == dest.offset + dest.stride * 12 + 13,
                    sub.stride == dest.stride;
            if sx + 13 < dest.stride {
                dest.lemma_coords_of_index(sx + 13, sy + 12);
            }
        }
    } else if sub.offset <= i {
        assert(dest.stride * 12 >= 0) by (nonlinear_arith)
            requires dest.stride > 0;
    }
}

/// A terminal: the character screen, the commands still to type, and the timers that pace the
/// typing and the cursor blink.
pub struct TerminalState {
    buffer: ScreenBuffer,
    command_queue: std::collections::VecDeque<TerminalCommand>,
    command_timer: BackoffTimer,
    cursor_timer: PeriodicSkippingTimer,
    cursor_position: usize,
}

impl TerminalState {
    /// The observable state of the terminal.
    pub closed spec fn model(self) -> TerminalModel {
        TerminalModel {
            screen: self.buffer.bytes(),
            queue: self.command_queue@,
            command_tick: self.command_timer.next_tick() as int,
            cursor_tick: self.cursor_timer.next_tick() as int,
            cursor: self.cursor_position as int,
        }
    }

    /// The font the terminal types with.
    pub closed spec fn font(self) -> FontAtlas {
        self.buffer.font()
    }

    /// The screen and font are consistent and the cursor blinks with its fixed period.
    pub closed spec fn wf(self) -> bool {
        &&& self.buffer.wf()
        &&& self.cursor_timer.period() == CURSOR_PERIOD
    }

    /// A terminal showing `logo`, typing with `font`, with nothing queued and both timers due.
    pub fn new(logo: Tex2Data<'_>, font: FontAtlas) -> (terminal: Self)
        requires
            logo.height == buffer::HEIGHT,
            logo.width == buffer::WIDTH,
            logo.data@.len() == buffer::SCREEN_BYTES,
            font.wf(),
        ensures
            terminal.wf(),
            terminal.font() == font,
            terminal.model() == (TerminalModel {
                screen: logo.data@,
                queue: Seq::empty(),
                command_tick: 0,
                cursor_tick: 0,
                cursor: 0,
            }),
    {
        Self {
            buffer: ScreenBuffer::new(logo, font),
            command_queue: std::collections::VecDeque::new(),
            cursor_timer: PeriodicSkippingTimer::new(CURSOR_PERIOD),
            command_timer: BackoffTimer::new(),
            cursor_position: 0,
        }
    }

    /// Whether typing every queued command can move the cursor no further than a `usize` holds.
    pub fn queue_fits(&self) -> (ok: bool)
        ensures
            ok == (self.model().cursor + self.model().queue.len() <= usize::MAX),
    {
        self.cursor_position <= usize::MAX - self.command_queue.len()
    }

    /// Queues `command` after the commands already waiting.
    pub fn push_command(&mut self, command: TerminalCommand)
        ensures
            final(self).wf() == old(self).wf(),
            final(self).font() == old(self).font(),
            final(self).model() == (TerminalModel {
                queue: old(self).model().queue.push(command),
                ..old(self).model()
            }),
    {
        self.command_queue.push_back(command);
    }

    /// Queues the commands that type `s`.
    pub fn push_string(&mut self, s: &str)
        ensures
            final(self).wf() == old(self).wf(),
            final(self).font() == old(self).font(),
            final(self).model() == (TerminalModel {
                queue: old(self).model().queue + commands_for(s@),
                ..old(self).model()
            }),
    {
        let ghost chars = s@;
        proof {
            broadcast use vstd::string::group_string_axioms;
        }
        for c in it: s.chars()
            invariant
                it.seq() == chars,
                self.wf() == old(self).wf(),
                self.font() == old(self).font(),
                self.model() == (TerminalModel {
                    queue: old(self).model().queue + commands_for(chars.take(it.index() as int)),
                    ..old(self).model()
                }),
        {
            if c == '\n' {
                self.push_command(TerminalCommand::Newline)
            } else {
                self.push_command(TerminalCommand::WriteChar(c))
            }
            proof {
                let i = it.index() as int;
                assert(commands_for(chars.take(i + 1)) =~= commands_for(chars.take(i)).push(
                    command_for(c),
                ));
                assert(old(self).model().queue + commands_for(chars.take(i + 1)) =~= (old(
                    self,
                ).model().queue + commands_for(chars.take(i))).push(command_for(c)));
            }
        }
        proof {
            assert(chars.take(chars.len() as int) =~= chars);
        }
    }

    /// Brings the terminal up to `request.tick` and draws its display into the 196 x 224 area at
    /// `(13, 12)` of `dest`.
    pub fn draw(&mut self, buf: &mut Vec<u16>, dest: ImgView, request: &SceneRequest)
        requires
            old(self).wf(),
            request.tick + CURSOR_PERIOD <= u32::MAX,
            old(self).model().cursor + old(self).model().queue.len() <= usize::MAX,
            dest.fits(old(buf)@.len() as int),
            13 + DISPLAY_WIDTH <= dest.width,
            12 + DISPLAY_HEIGHT <= dest.height,
            dest.stride * (12 + DISPLAY_HEIGHT) + 13 <= usize::MAX,
        ensures
            final(self).wf(),
            final(self).font() == old(self).font(),
            final(self).model() == blinked(
                typed_until(old(self).model(), old(self).font(), request.tick as int),
                request.tick as int,
            ),
            final(buf)@ == display_result(old(buf)@, dest, final(self).model().screen),
    {
        self.update(request.tick);

        let display_glow = blend_rgb565(0x0000, DISPLAY_FG, 0x50);
        let display_active_bg = blend_rgb565(0x0000, DISPLAY_FG, 0x20);
        let display_passive_bg = blend_rgb565(0x0000, DISPLAY_FG, 0x18);
        let palette_regular: [u16; 4] = [display_passive_bg, display_active_bg, display_glow, DISPLAY_FG];
        let palette_dim: [u16; 4] = [
            blend_rgb565(0x0000, palette_regular[0], DIM_ALPHA),
            blend_rgb565(0x0000, palette_regular[1], DIM_ALPHA),
            blend_rgb565(0x0000, palette_regular[2], DIM_ALPHA),
            blend_rgb565(0x0000, palette_regular[3], DIM_ALPHA),
        ];
        assert(palette_regular@ =~= regular_palette());
        assert(palette_dim@ =~= dim_palette());

        let display_contents = dest.sub_image(13, 12, DISPLAY_WIDTH, DISPLAY_HEIGHT);
        let buffer = self.buffer.as_tex2();
        let ghost screen = self.model().screen;
        let ghost old_buf = buf@;

        let dst_w = display_contents.width;
        let dst_stride = display_contents.stride;
        let dst_h = display_contents.height;

        let mut dst_x: usize = 0;
        while dst_x < dst_w
            invariant
                display_contents.fits(old_buf.len() as int),
                dst_w == DISPLAY_WIDTH,
                dst_h == DISPLAY_HEIGHT,
                dst_w == display_contents.width,
                dst_h == display_contents.height,
                dst_stride == display_contents.stride,
                buffer.wf(),
                buffer.width == 216,
                buffer.height == 182,
                buffer.data@ == screen,
                palette_regular@ == regular_palette(),
                palette_dim@ == dim_palette(),
                dst_x <= dst_w,
                buf@.len() == old_buf.len(),
                forall|i: int|
                    #![trigger buf@[i]]
                    0 <= i < old_buf.len() ==> buf@[i] == if display_contents.in_rect(i, dst_w as int, dst_h as int) && display_contents.col_of(i) < dst_x {
                        display_pixel(screen, display_contents.col_of(i), display_contents.row_of(i))
                    } else {
                        old_buf[i]
                    },
            decreases dst_w - dst_x,
        {
            let palette = if dst_x % 3 < 2 { &palette_regular } else { &palette_dim };
            let mut dst_y: usize = 0;
            while dst_y < dst_h
                invariant
                    display_contents.fits(old_buf.len() as int),
                    dst_w == DISPLAY_WIDTH,
                    dst_h == DISPLAY_HEIGHT,
                    dst_w == display_contents.width,
                    dst_h == display_contents.height,
                    dst_stride == display_contents.stride,
                    buffer.wf(),
                    buffer.width == 216,
                    buffer.height == 182,
                    buffer.data@ == screen,
                    palette@ == if dst_x % 3 < 2 { regular_palette() } else { dim_palette() },
                    dst_x < dst_w,
                    dst_y <= dst_h,
                    buf@.len() == old_buf.len(),
                    forall|i: int|
                        #![trigger buf@[i]]
                        0 <= i < old_buf.len() ==> buf@[i] == if display_contents.in_rect(i, dst_w as int, dst_h as int) && (display_contents.col_of(i) < dst_x || (display_contents.col_of(i) == dst_x && display_contents.row_of(i) < dst_y)) {
                            display_pixel(screen, display_contents.col_of(i), display_contents.row_of(i))
                        } else {
                            old_buf[i]
                        },
                decreases dst_h - dst_y,
            {
                let src_x = dst_y;
                let src_y = dst_w - dst_x - 1;

                let index: usize = if src_x >= 3 && src_x < 4 + 217 && src_y >= 7 && src_y < 7 + 182 {
                    let index_left = sample_buffer(&buffer, src_x - 1, src_y);
                    let index = sample_buffer(&buffer, src_x, src_y);
                    let index_right = sample_buffer(&buffer, src_x + 1, src_y);

                    if index == 3 {
                        3
                    } else if index_left == 3 || index_right == 3 {
                        2
                    } else {
                        1
                    }
                } else {
                    0
                };
                assert(index == display_index(screen, src_x as int, src_y as int));
                proof {
                    display_contents.lemma_index_in_bounds(dst_x as int, dst_y as int);
                    display_contents.lemma_coords_of_index(dst_x as int, dst_y as int);
                }
                let j = display_contents.offset + dst_y * dst_stride + dst_x;
                let ghost before = buf@;
                buf.set(j, palette[index]);
                proof {
                    assert forall|i: int| 0 <= i < old_buf.len() implies #[trigger] buf@[i] == if display_contents.in_rect(i, dst_w as int, dst_h as int) && (display_contents.col_of(i) < dst_x || (display_contents.col_of(i) == dst_x && display_contents.row_of(i) < dst_y + 1)) {
                        display_pixel(screen, display_contents.col_of(i), display_contents.row_of(i))
                    } else {
                        old_buf[i]
                    } by {
                        if i != j {
                            assert(buf@[i] == before[i]);
                            if display_contents.offset <= i {
                                display_contents.lemma_index_of_coords(i);
                            }
                        }
                    }
                }
                dst_y += 1;
            }
            dst_x += 1;
        }
        proof {
            assert forall|i: int| 0 <= i < old_buf.len() implies #[trigger] buf@[i] == if dest.in_rect(i, 13 + DISPLAY_WIDTH, 12 + DISPLAY_HEIGHT) && dest.col_of(i) >= 13 && dest.row_of(i) >= 12 {
                display_pixel(screen, dest.col_of(i) - 13, dest.row_of(i) - 12)
            } else {
                old_buf[i]
            } by {
                lemma_sub_rect(dest, display_contents, i);
            }
            assert(buf@ =~= display_result(old_buf, dest, screen));
        }
    }

    /// Types every command due at `tick`, then blinks the cursor if its blink is due.
    pub fn update(&mut self, tick: u32)
        requires
            old(self).wf(),
            tick + CURSOR_PERIOD <= u32::MAX,
            old(self).model().cursor + old(self).model().queue.len() <= usize::MAX,
        ensures
            final(self).wf(),
            final(self).font() == old(self).font(),
            final(self).model() == blinked(typed_until(old(self).model(), old(self).font(), tick as int), tick as int),
    {
        let ghost font = self.font();
        let ghost target = typed_until(self.model(), font, tick as int);
        while self.command_timer.ready(tick)
            invariant
                self.wf(),
                self.font() == font,
                tick + CURSOR_PERIOD <= u32::MAX,
                self.model().cursor + self.model().queue.len() <= usize::MAX,
                typed_until(self.model(), font, tick as int) == target,
            ensures
                self.model() == target,
            decreases self.command_queue@.len(),
        {
            if let Some(command) = self.command_queue.pop_front() {
                self.cursor_timer.reset(tick);
                let delay = match &command {
                    TerminalCommand::WriteChar(_) => WRITE_DELAY,
                    TerminalCommand::Newline => NEWLINE_DELAY,
                };
                self.command_timer.delay(delay);

                match command {
                    TerminalCommand::WriteChar(c) => {
                        if self.cursor_position < buffer::WIDTH_CELLS {
                            self.buffer.blit_cell(self.cursor_position, buffer::HEIGHT_CELLS - 1, c);
                        }
                        self.cursor_position += 1;
                    },
                    TerminalCommand::Newline => {
                        if self.cursor_position < buffer::WIDTH_CELLS {
                            self.buffer.blit_cell(
                                self.cursor_position,
                                buffer::HEIGHT_CELLS - 1,
                                ' ',
                            );
                        }
                        self.buffer.scroll();
                        self.cursor_position = 0;
                    },
                }
            } else {
                self.command_timer.reset(tick);
                break;
            }
        }

        if self.cursor_timer.update(tick) {
            if self.cursor_position < buffer::WIDTH_CELLS {
                self.buffer.invert_cell(self.cursor_position, buffer::HEIGHT_CELLS - 1);
            }
        }
    }
}

/// Pixel row `r` of the bottom row of cells holds bytes `(168 + r) * 54 + 2 * column` and the
/// next one, inside the screen.
proof fn lemma_bottom_row_bytes(column: int, r: int)
    requires
        0 <= column < 27,
        0 <= r < 14,
    ensures
        cell_byte(column, 12 * 14 + r) == (168 + r) * 54 + 2 * column,
        0 <= cell_byte(column, 12 * 14 + r),
        cell_byte(column, 12 * 14 + r) + 1 < buffer::SCREEN_BYTES,
{
    assert(((168 + r) * 216 + column * 8) * 2 == ((168 + r) * 54 + 2 * column) * 8)
        by (nonlinear_arith);
}

/// Typing a character that is not a line break draws its glyph, rows in order, into the cursor's
/// cell of the bottom row when the cursor is on screen (and changes nothing when it is past the
/// right edge), and moves the cursor one column right; a line break returns the cursor to
/// column 0.
pub proof fn lemma_typing_moves_cursor(
    screen: Seq<u8>,
    font: FontAtlas,
    cursor: int,
    c: char,
    r: int,
)
    requires
        screen.len() == buffer::SCREEN_BYTES,
        0 <= cursor,
        0 <= r < 14,
    ensures
        apply_command(screen, font, cursor, TerminalCommand::WriteChar(c)).1 == cursor + 1,
        apply_command(screen, font, cursor, TerminalCommand::Newline).1 == 0,
        cursor < 27 ==> apply_command(screen, font, cursor, TerminalCommand::WriteChar(c)).0[cell_byte(
            cursor,
            12 * 14 + r,
        )] == (spread_bits(font.glyph_row(glyph_code(c), r)) % 256) as u8,
        cursor < 27 ==> apply_command(screen, font, cursor, TerminalCommand::WriteChar(c)).0[cell_byte(
            cursor,
            12 * 14 + r,
        ) + 1] == (spread_bits(font.glyph_row(glyph_code(c), r)) / 256) as u8,
        cursor >= 27 ==> apply_command(screen, font, cursor, TerminalCommand::WriteChar(c)).0
            == screen,
{
    if cursor < 27 {
        lemma_bottom_row_bytes(cursor, r);
        lemma_glyph_rows_in_order(screen, font, c, cursor, 12, r);
    }
}

/// Typing two characters that are not line breaks from a cursor with room for both puts the
/// first into the cursor's cell and the second into the next cell of the bottom row, and leaves
/// the cursor two columns further right.
pub proof fn lemma_typing_fills_successive_cells(
    screen: Seq<u8>,
    font: FontAtlas,
    cursor: int,
    a: char,
    b: char,
    r: int,
)
    requires
        screen.len() == buffer::SCREEN_BYTES,
        0 <= cursor,
        cursor + 1 < 27,
        0 <= r < 14,
    ensures
        ({
            let (first, after_first) = apply_command(screen, font, cursor, TerminalCommand::WriteChar(a));
            let (second, after_second) = apply_command(
                first,
                font,
                after_first,
                TerminalCommand::WriteChar(b),
            );
            &&& after_second == cursor + 2
            &&& second[cell_byte(cursor, 12 * 14 + r)] == (spread_bits(
                font.glyph_row(glyph_code(a), r),
            ) % 256) as u8
            &&& second[cell_byte(cursor, 12 * 14 + r) + 1] == (spread_bits(
                font.glyph_row(glyph_code(a), r),
            ) / 256) as u8
            &&& second[cell_byte(cursor + 1, 12 * 14 + r)] == (spread_bits(
                font.glyph_row(glyph_code(b), r),
            ) % 256) as u8
            &&& second[cell_byte(cursor + 1, 12 * 14 + r) + 1] == (spread_bits(
                font.glyph_row(glyph_code(b), r),
            ) / 256) as u8
        }),
{
    let (first, after_first) = apply_command(screen, font, cursor, TerminalCommand::WriteChar(a));
    lemma_typing_moves_cursor(screen, font, cursor, a, r);
    assert(first.len() == screen.len());
    lemma_typing_moves_cursor(first, font, cursor + 1, b, r);
    lemma_bottom_row_bytes(cursor, r);
    lemma_glyph_keeps_left_neighbour(first, font, b, cursor + 1, 12, r, 0);
    lemma_glyph_keeps_left_neighbour(first, font, b, cursor + 1, 12, r, 1);
}

/// The display shows the screen turned a quarter turn: a lit pixel `(sx, sy)` of the screen
/// appears at column `188 - sy` and row `sx + 4` of the display area (so the screen's last row
/// lands in the display's first columns and its first pixels in the display's top rows), in the
/// foreground color, dimmed in every third column.
pub proof fn lemma_display_turns_screen(
    old: Seq<u16>,
    dest: ImgView,
    screen: Seq<u8>,
    sx: int,
    sy: int,
)
    requires
        dest.fits(old.len() as int),
        13 + DISPLAY_WIDTH <= dest.width,
        12 + DISPLAY_HEIGHT <= dest.height,
        0 <= sx < 216,
        0 <= sy < 182,
        screen_texel(screen, sx, sy) == 3,
    ensures
        ({
            let column = 188 - sy;
            let i = dest.index(13 + column, 12 + sx + 4);
            &&& 0 <= i < old.len()
            &&& display_result(old, dest, screen)[i] == if column % 3 < 2 {
                DISPLAY_FG
            } else {
                spec_blend(0, DISPLAY_FG, DIM_ALPHA) as u16
            }
        }),
{
    let column = 188 - sy;
    let x = 13 + column;
    let y = 12 + sx + 4;
    dest.lemma_index_in_bounds(x, y);
    dest.lemma_coords_of_index(x, y);
    assert(display_sample(screen, sx + 4, sy + 7) == 3);
    assert(display_index(screen, y - 12, DISPLAY_WIDTH - column - 1) == 3);
}

/// When the cursor blinks, every byte of the cursor's cell in the bottom row is inverted (each
/// 2-bit pixel `v` becomes `3 - v`), the cell to its left is left as it was, and the next blink
/// comes after `tick`; before its tick the cursor does not blink.
pub proof fn lemma_cursor_blinks_in_place(m: TerminalModel, tick: int, r: int, b: int)
    requires
        m.screen.len() == buffer::SCREEN_BYTES,
        0 <= m.cursor < 27,
        0 <= r < 14,
        0 <= b < 2,
    ensures
        tick >= m.cursor_tick ==> blinked(m, tick).screen[cell_byte(m.cursor, 12 * 14 + r) + b]
            == m.screen[cell_byte(m.cursor, 12 * 14 + r) + b] ^ 0xff,
        tick >= m.cursor_tick && m.cursor > 0 ==> blinked(m, tick).screen[cell_byte(
            m.cursor - 1,
            12 * 14 + r,
        ) + b] == m.screen[cell_byte(m.cursor - 1, 12 * 14 + r) + b],
        tick >= m.cursor_tick ==> blinked(m, tick).cursor_tick > tick,
        tick < m.cursor_tick ==> blinked(m, tick) == m,
{
    let c = m.cursor;
    lemma_bottom_row_bytes(c, r);
    vstd::arithmetic::div_mod::lemma_fundamental_div_mod_converse(r * 54 + b, 54, r, b);
    assert(buffer::in_cell(cell_byte(c, 12 * 14 + r) + b, c, 12)) by {
        assert(cell_byte(c, 168int) == 168 * 54 + 2 * c) by {
            lemma_bottom_row_bytes(c, 0);
        }
    }
    if c > 0 {
        lemma_bottom_row_bytes(c - 1, r);
        assert(cell_byte(c, 168int) == 168 * 54 + 2 * c) by {
            lemma_bottom_row_bytes(c, 0);
        }
        if r > 0 {
            vstd::arithmetic::div_mod::lemma_fundamental_div_mod_converse(
                r * 54 + b - 2,
                54,
                r - 1,
                52 + b,
            );
        }
        assert(!buffer::in_cell(cell_byte(c - 1, 12 * 14 + r) + b, c, 12));
    }
    if tick >= m.cursor_tick {
        crate::timer::lemma_periodic_update_lands_after(m.cursor_tick, CURSOR_PERIOD as int, tick);
    }
}

} // verus!
