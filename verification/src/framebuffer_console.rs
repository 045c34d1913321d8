use vstd::prelude::*;
use crate::console::{ConsoleColor, console_color_index, spec_console_color_index};
use crate::framebuffer::{
    Color,
    PixelFormat,
    Commit,
    Rectangle,
    Framebuffer,
    rows_fill,
    spec_color,
    spec_copy_within,
    spec_pixel_data,
};

verus! {

/// Pixel rows of a character cell.
pub const CHARACTER_HEIGHT: usize = 8;

/// Pixel columns of a character cell.
pub const CHARACTER_WIDTH: usize = 8;

/// The rows of the 8x8 glyph that `font8x8` draws for code point `index` of
/// basic Latin.
pub uninterp spec fn basic_legacy_glyph(index: int) -> Seq<u8>;

/// The glyph of `font8x8::legacy::BASIC_LEGACY` for code point `index`: eight
/// row bytes, bit `x` of a row set where column `x` is drawn.  The contract
/// names the table row; the glyph shapes themselves are not stated.
#[verifier::external_body]
fn legacy_glyph(index: usize) -> (g: [u8; 8])
    requires
        index < 128,
    ensures
        g@ == basic_legacy_glyph(index as int),
{
    font8x8::legacy::BASIC_LEGACY[index]
}

/// Whether column `gx` of row `gy` of `glyph` is drawn.
pub open spec fn glyph_bit(glyph: Seq<u8>, gx: int, gy: int) -> bool {
    (glyph[gy] >> (gx as u8)) & 1u8 == 1u8
}

/// Whether byte `p` belongs to a drawn pixel among the first `limit` pixels,
/// in row order, of the glyph cell at pixel `(x, y)`.
pub open spec fn in_glyph(p: int, line_bytes: int, x: int, y: int, glyph: Seq<u8>, limit: int) -> bool {
    let row = p / line_bytes;
    let col = (p % line_bytes) / 4;
    &&& y <= row < y + 8
    &&& x <= col < x + 8
    &&& (row - y) * 8 + (col - x) < limit
    &&& glyph_bit(glyph, col - x, row - y)
}

/// Memory `buf` with the drawn pixels among the first `limit` of the glyph
/// cell at pixel `(x, y)` set to `color`.
pub open spec fn glyph_fill(
    buf: Seq<u8>,
    line_bytes: int,
    x: int,
    y: int,
    glyph: Seq<u8>,
    color: Color,
    limit: int,
) -> Seq<u8> {
    Seq::new(
        buf.len(),
        |p: int|
            if in_glyph(p, line_bytes, x, y, glyph, limit) {
                spec_pixel_data(color)[(p % line_bytes) % 4]
            } else {
                buf[p]
            },
    )
}

proof fn lemma_pixel_coords(p: int, lb: int, row: int, col: int, k: int)
    requires
        lb > 0,
        0 <= k < 4,
        0 <= col,
        4 * col + k < lb,
        p == row * lb + 4 * col + k,
    ensures
        p / lb == row,
        (p % lb) / 4 == col,
        (p % lb) % 4 == k,
{
    vstd::arithmetic::div_mod::lemma_fundamental_div_mod_converse(p, lb, row, 4 * col + k);
}

proof fn lemma_pixel_decomp(p: int, lb: int)
    requires
        lb > 0,
    ensures
        p == (p / lb) * lb + 4 * ((p % lb) / 4) + (p % lb) % 4,
        0 <= p % lb < lb,
{
    vstd::arithmetic::div_mod::lemma_fundamental_div_mod(p, lb);
    assert(lb * (p / lb) == (p / lb) * lb) by (nonlinear_arith);
}

/// The colours of the console palette, as (red, green, blue).
pub open spec fn palette_rgb(i: int) -> (u8, u8, u8) {
    if i == 0 {
        (0x0d, 0x10, 0x1a)
    } else if i == 1 {
        (0xbf, 0x61, 0x6a)
    } else if i == 2 {
        (0x68, 0x87, 0x4d)
    } else if i == 3 {
        (0xf0, 0xdb, 0x54)
    } else if i == 4 {
        (0x81, 0xa1, 0xc1)
    } else if i == 5 {
        (0xb4, 0x8e, 0xad)
    } else if i == 6 {
        (0x50, 0x85, 0x94)
    } else if i == 7 {
        (0xd8, 0xde, 0xe9)
    } else if i == 8 {
        (0x2e, 0x34, 0x40)
    } else if i == 9 {
        (0xf5, 0x87, 0x87)
    } else if i == 10 {
        (0xa3, 0xbe, 0x8c)
    } else if i == 11 {
        (0xeb, 0xc8, 0x8b)
    } else if i == 12 {
        (0xaa, 0xd2, 0xfa)
    } else if i == 13 {
        (0xb4, 0x8e, 0xad)
    } else if i == 14 {
        (0x88, 0xc0, 0xd0)
    } else {
        (0xff, 0xff, 0xff)
    }
}

/// A text console drawn with an 8x8 font on any framebuffer, one pixel row
/// of spacing between text lines.  Each character cell drawn is committed on
/// its own; a scroll commits the whole screen.
pub struct FramebufferConsole<F: Framebuffer> {
    framebuffer: F,
    background_color: Color,
    foreground_color: Color,
    x: usize,
    y: usize,
    color_palette: [Color; 16],
}

impl<F: Framebuffer> FramebufferConsole<F> {
    pub closed spec fn fb(&self) -> F {
        self.framebuffer
    }

    pub closed spec fn background(&self) -> Color {
        self.background_color
    }

    pub closed spec fn foreground(&self) -> Color {
        self.foreground_color
    }

    /// The cursor's pixel column.
    pub closed spec fn cursor_x(&self) -> usize {
        self.x
    }

    /// The cursor's pixel row.
    pub closed spec fn cursor_y(&self) -> usize {
        self.y
    }

    pub closed spec fn palette(&self) -> Seq<Color> {
        self.color_palette@
    }

    /// Bytes per framebuffer line.
    pub open spec fn line_bytes(&self) -> int {
        self.fb().fb_line_length() * 4
    }

    /// A console on `framebuffer`, white on black at the top left corner, with
    /// its palette laid out for the framebuffer's pixel format.
    pub fn new(framebuffer: F) -> (c: FramebufferConsole<F>)
        ensures
            c.fb() == framebuffer,
            c.background() == (Color { r: 0, g: 0, b: 0 }),
            c.foreground() == (Color { r: 0xff, g: 0xff, b: 0xff }),
            c.cursor_x() == 0,
            c.cursor_y() == 0,
            c.palette().len() == 16,
            forall|i: int|
                0 <= i < 16 ==> c.palette()[i] == spec_color(
                    framebuffer.fb_pixel_format(),
                    palette_rgb(i).0,
                    palette_rgb(i).1,
                    palette_rgb(i).2,
                ),
    {
        let pixel_format = framebuffer.get_pixel_format();
        let color_palette = [
            Color::new(pixel_format, 0x0d, 0x10, 0x1a),
            Color::new(pixel_format, 0xbf, 0x61, 0x6a),
            Color::new(pixel_format, 0x68, 0x87, 0x4d),
            Color::new(pixel_format, 0xf0, 0xdb, 0x54),
            Color::new(pixel_format, 0x81, 0xa1, 0xc1),
            Color::new(pixel_format, 0xb4, 0x8e, 0xad),
            Color::new(pixel_format, 0x50, 0x85, 0x94),
            Color::new(pixel_format, 0xd8, 0xde, 0xe9),
            Color::new(pixel_format, 0x2e, 0x34, 0x40),
            Color::new(pixel_format, 0xf5, 0x87, 0x87),
            Color::new(pixel_format, 0xa3, 0xbe, 0x8c),
            Color::new(pixel_format, 0xeb, 0xc8, 0x8b),
            Color::new(pixel_format, 0xaa, 0xd2, 0xfa),
            Color::new(pixel_format, 0xb4, 0x8e, 0xad),
            Color::new(pixel_format, 0x88, 0xc0, 0xd0),
            Color::new(pixel_format, 0xff, 0xff, 0xff),
        ];
        FramebufferConsole {
            framebuffer,
            background_color: Color { r: 0, g: 0, b: 0 },
            foreground_color: Color { r: 0xff, g: 0xff, b: 0xff },
            x: 0,
            y: 0,
            color_palette,
        }
    }

    /// The framebuffer the console draws on.
    pub fn framebuffer(&self) -> (f: &F)
        ensures
            *f == self.fb(),
    {
        &self.framebuffer
    }

    /// The cursor's pixel column and row.
    pub fn cursor(&self) -> (c: (usize, usize))
        ensures
            c == (self.cursor_x(), self.cursor_y()),
    {
        (self.x, self.y)
    }

    /// Sets the colours for later writes from the palette.
    pub fn set_color(&mut self, foreground: ConsoleColor, background: ConsoleColor)
        requires
            old(self).palette().len() == 16,
        ensures
            final(self).foreground() == old(self).palette()[spec_console_color_index(
                foreground,
            ) as int],
            final(self).background() == old(self).palette()[spec_console_color_index(
                background,
            ) as int],
            final(self).fb() == old(self).fb(),
            final(self).cursor_x() == old(self).cursor_x(),
            final(self).cursor_y() == old(self).cursor_y(),
            final(self).palette() == old(self).palette(),
    {
        self.foreground_color = self.color_palette[console_color_index(foreground)];
        self.background_color = self.color_palette[console_color_index(background)];
    }

    /// Fills the framebuffer with the background colour and puts the cursor at
    /// the top left corner.
    pub fn clear_screen(&mut self)
        requires
            4 <= old(self).fb().fb_memory().len() <= isize::MAX,
        ensures
            final(self).fb().fb_memory() == crate::framebuffer::pattern_fill(
                old(self).fb().fb_memory(),
                0,
                old(self).fb().fb_memory().len() as int,
                old(self).background(),
            ),
            final(self).fb().fb_line_length() == old(self).fb().fb_line_length(),
            final(self).fb().fb_width() == old(self).fb().fb_width(),
            final(self).fb().fb_height() == old(self).fb().fb_height(),
            final(self).fb().committed() == old(self).fb().committed(),
            final(self).cursor_x() == 0,
            final(self).cursor_y() == 0,
            final(self).background() == old(self).background(),
            final(self).foreground() == old(self).foreground(),
            final(self).palette() == old(self).palette(),
    {
        self.x = 0;
        self.y = 0;
        self.framebuffer.clear_screen(self.background_color);
    }

    /// Whether a new line scrolls instead of moving the cursor down.
    pub open spec fn new_line_scrolls(&self) -> bool {
        self.cursor_y() + CHARACTER_HEIGHT + 1 >= self.fb().fb_height() - (CHARACTER_HEIGHT + 1)
    }

    /// What a new line needs: the scroll copies line 9 up to the start of the
    /// last line to the top, and clears the nine pixel rows from one above the
    /// cursor row.
    pub open spec fn new_line_defined(&self) -> bool {
        let lb = self.line_bytes();
        &&& self.fb().fb_height() >= CHARACTER_HEIGHT + 1
        &&& self.cursor_y() + CHARACTER_HEIGHT + 1 <= usize::MAX
        &&& self.new_line_scrolls() ==> {
            &&& self.fb().fb_height() >= 10
            &&& self.cursor_y() >= 1
            &&& self.fb().fb_width() >= 2
            &&& self.fb().fb_width() <= self.fb().fb_line_length() + 1
            &&& lb * self.fb().fb_height() <= self.fb().fb_memory().len()
            &&& lb * (self.cursor_y() + CHARACTER_HEIGHT + 1) <= self.fb().fb_memory().len()
            &&& self.fb().fb_memory().len() <= isize::MAX
        }
    }

    /// The framebuffer memory after a new line that scrolls.
    pub open spec fn scrolled_memory(&self) -> Seq<u8> {
        let lb = self.line_bytes();
        rows_fill(
            spec_copy_within(
                self.fb().fb_memory(),
                lb * (CHARACTER_HEIGHT + 1),
                lb * (self.fb().fb_height() - 1) + 1,
                0,
            ),
            lb,
            self.cursor_y() - 1,
            self.cursor_y() - 1 + CHARACTER_HEIGHT + 1,
            0,
            (self.fb().fb_width() - 1) * 4,
            self.background(),
        )
    }

    /// The commits after a new line: a scroll asks for the whole screen to be
    /// shown; moving the cursor down asks for nothing.
    pub open spec fn commits_after_new_line(&self) -> Seq<Commit> {
        if self.new_line_scrolls() {
            self.fb().committed().push(Commit::Whole)
        } else {
            self.fb().committed()
        }
    }

    /// Starts a new text line: the cursor goes to column 0 and one cell row
    /// down, or, near the bottom, the screen contents move up one cell row and
    /// the rows at the cursor are cleared.
    pub fn _new_line(&mut self)
        requires
            old(self).new_line_defined(),
        ensures
            final(self).cursor_x() == 0,
            old(self).new_line_scrolls() ==> final(self).cursor_y() == old(self).cursor_y()
                && final(self).fb().fb_memory() == old(self).scrolled_memory(),
            !old(self).new_line_scrolls() ==> final(self).cursor_y() == old(self).cursor_y()
                + CHARACTER_HEIGHT + 1 && final(self).fb().fb_memory() == old(self).fb().fb_memory(),
            final(self).fb().committed() == old(self).commits_after_new_line(),
            final(self).fb().fb_pixel_format() == old(self).fb().fb_pixel_format(),
            final(self).fb().fb_line_length() == old(self).fb().fb_line_length(),
            final(self).fb().fb_width() == old(self).fb().fb_width(),
            final(self).fb().fb_height() == old(self).fb().fb_height(),
            final(self).fb().fb_memory().len() == old(self).fb().fb_memory().len(),
            final(self).background() == old(self).background(),
            final(self).foreground() == old(self).foreground(),
            final(self).palette() == old(self).palette(),
    {
        let (width, height) = self.framebuffer.get_size();
        self.x = 0;
        if self.y + CHARACTER_HEIGHT + 1 >= height - (CHARACTER_HEIGHT + 1) {
            let ghost lb = self.line_bytes();
            let ghost ll = self.framebuffer.fb_line_length() as int;
            proof {
                assert(ll * (CHARACTER_HEIGHT + 1) * 4 == lb * (CHARACTER_HEIGHT + 1)
                    && ll * (height - 1) * 4 == lb * (height - 1)
                    && lb * (height - 1) + lb == lb * height
                    && lb * (CHARACTER_HEIGHT + 1) <= lb * (height - 1)) by (nonlinear_arith)
                    requires
                        lb == ll * 4,
                        ll >= 0,
                        height >= 10,
                ;
            }
            let first_line_offset = self.framebuffer.get_line_offset(CHARACTER_HEIGHT + 1);
            let last_line_offset = self.framebuffer.get_line_offset(height - 1);
            proof {
                assert(lb >= 4);
            }
            self.framebuffer.copy_within(first_line_offset, last_line_offset + 1, 0);
            proof {
                assert((ll * 4) * (self.y - 1 + (CHARACTER_HEIGHT + 1) + 1) == lb * (self.y
                    + CHARACTER_HEIGHT + 1)) by (nonlinear_arith)
                    requires
                        lb == ll * 4,
                        self.y >= 1,
                ;
            }
            self.framebuffer.draw_filled_rectangle(
                Rectangle {
                    x: 0,
                    y: self.y - 1,
                    width: width - 1,
                    height: CHARACTER_HEIGHT + 1,
                },
                self.background_color,
            );
            self.framebuffer.commit();
        } else {
            self.y = self.y + CHARACTER_HEIGHT + 1;
        }
    }

    /// Whether a glyph cell at the cursor lies inside the framebuffer lines.
    pub open spec fn glyph_fits(&self) -> bool {
        &&& self.cursor_x() + CHARACTER_WIDTH <= self.fb().fb_line_length()
        &&& self.line_bytes() * (self.cursor_y() + CHARACTER_HEIGHT) <= self.fb().fb_memory().len()
    }

    /// Draws the set pixels of `glyph` in the foreground colour in the cell at
    /// the cursor; the other pixels keep their colour.
    fn draw_glyph(&mut self, glyph: [u8; 8])
        requires
            old(self).glyph_fits(),
        ensures
            final(self).fb().fb_memory() == glyph_fill(
                old(self).fb().fb_memory(),
                old(self).line_bytes(),
                old(self).cursor_x() as int,
                old(self).cursor_y() as int,
                glyph@,
                old(self).foreground(),
                64,
            ),
            final(self).fb().fb_line_length() == old(self).fb().fb_line_length(),
            final(self).fb().fb_width() == old(self).fb().fb_width(),
            final(self).fb().fb_height() == old(self).fb().fb_height(),
            final(self).fb().fb_pixel_format() == old(self).fb().fb_pixel_format(),
            final(self).fb().committed() == old(self).fb().committed(),
            final(self).cursor_x() == old(self).cursor_x(),
            final(self).cursor_y() == old(self).cursor_y(),
            final(self).background() == old(self).background(),
            final(self).foreground() == old(self).foreground(),
            final(self).palette() == old(self).palette(),
    {
        let ghost lb = self.line_bytes();
        let ghost ll = self.framebuffer.fb_line_length() as int;
        let ghost mem0 = self.framebuffer.fb_memory();
        let ghost gx0 = self.x as int;
        let ghost gy0 = self.y as int;
        let len = self.framebuffer.raw_buffer().len();
        proof {
            assert(gy0 + 8 <= len) by (nonlinear_arith)
                requires
                    lb * (gy0 + 8) <= len,
                    lb >= 32,
                    gy0 >= 0,
            ;
        }
        let mut gy: usize = 0;
        proof {
            assert(glyph_fill(mem0, lb, gx0, gy0, glyph@, self.foreground_color, 0) =~= mem0);
        }
        while gy < CHARACTER_HEIGHT
            invariant
                gy <= 8,
                lb == ll * 4,
                ll == self.framebuffer.fb_line_length(),
                gx0 == self.x,
                gy0 == self.y,
                gx0 + 8 <= ll,
                lb * (gy0 + 8) <= mem0.len(),
                gy0 + 8 <= usize::MAX,
                self.framebuffer.fb_memory() == glyph_fill(mem0, lb, gx0, gy0, glyph@, self.foreground_color, gy * 8),
                self.framebuffer.fb_width() == old(self).framebuffer.fb_width(),
                self.framebuffer.fb_height() == old(self).framebuffer.fb_height(),
                self.framebuffer.fb_pixel_format() == old(self).framebuffer.fb_pixel_format(),
                self.framebuffer.committed() == old(self).framebuffer.committed(),
                self.framebuffer.fb_memory().len() == mem0.len(),
                self.foreground_color == old(self).foreground_color,
                self.background_color == old(self).background_color,
                self.color_palette == old(self).color_palette,
            decreases 8 - gy,
        {
            let row = glyph[gy];
            let mut gx: usize = 0;
            while gx < 8
                invariant
                    gy < 8,
                    gx <= 8,
                    row == glyph@[gy as int],
                    lb == ll * 4,
                    ll == self.framebuffer.fb_line_length(),
                    gx0 == self.x,
                    gy0 == self.y,
                    gx0 + 8 <= ll,
                    lb * (gy0 + 8) <= mem0.len(),
                    gy0 + 8 <= usize::MAX,
                    self.framebuffer.fb_memory() == glyph_fill(
                        mem0,
                        lb,
                        gx0,
                        gy0,
                        glyph@,
                        self.foreground_color,
                        gy * 8 + gx,
                    ),
                    self.framebuffer.fb_width() == old(self).framebuffer.fb_width(),
                    self.framebuffer.fb_height() == old(self).framebuffer.fb_height(),
                    self.framebuffer.fb_pixel_format() == old(self).framebuffer.fb_pixel_format(),
                    self.framebuffer.committed() == old(self).framebuffer.committed(),
                    self.framebuffer.fb_memory().len() == mem0.len(),
                self.framebuffer.fb_pixel_format() == old(self).framebuffer.fb_pixel_format(),
                self.framebuffer.committed() == old(self).framebuffer.committed(),
                self.framebuffer.fb_memory().len() == mem0.len(),
                    self.foreground_color == old(self).foreground_color,
                    self.background_color == old(self).background_color,
                    self.color_palette == old(self).color_palette,
                decreases 8 - gx,
            {
                let ghost limit = gy * 8 + gx;
                let ghost before = self.framebuffer.fb_memory();
                let px = self.x + gx;
                let py = self.y + gy;
                let ghost off = py * lb + 4 * px;
                proof {
                    assert(ll * py * 4 == py * lb && py * lb + lb <= lb * (gy0 + 8)) by (nonlinear_arith)
                        requires
                            lb == ll * 4,
                            ll >= 0,
                            py < gy0 + 8,
                    ;
                }
                if ((row >> (gx as u8)) & 1u8) == 1u8 {
                    self.framebuffer.set_pixel(px, py, self.foreground_color);
                    self.framebuffer.set_pixel(px, py, self.foreground_color);
                    self.framebuffer.set_pixel(px, py, self.foreground_color);
                    proof {
                        assert forall|p: int| 0 <= p < mem0.len() implies self.framebuffer.fb_memory()[p]
                            == glyph_fill(mem0, lb, gx0, gy0, glyph@, self.foreground_color, limit + 1)[p] by {
                            if off <= p < off + 4 {
                                lemma_pixel_coords(p, lb, py as int, px as int, p - off);
                            } else {
                                lemma_pixel_decomp(p, lb);
                                let row = p / lb;
                                let col = (p % lb) / 4;
                                if in_glyph(p, lb, gx0, gy0, glyph@, limit + 1) && !in_glyph(p, lb, gx0, gy0, glyph@, limit) {
                                    assert(row - gy0 == gy && col - gx0 == gx);
                                    assert(false);
                                }
                            }
                        }
                        assert(self.framebuffer.fb_memory() =~= glyph_fill(mem0, lb, gx0, gy0, glyph@, self.foreground_color, limit + 1));
                    }
                } else {
                    proof {
                        assert forall|p: int| 0 <= p < mem0.len() implies before[p]
                            == glyph_fill(mem0, lb, gx0, gy0, glyph@, self.foreground_color, limit + 1)[p] by {
                            lemma_pixel_decomp(p, lb);
                        }
                        assert(before =~= glyph_fill(mem0, lb, gx0, gy0, glyph@, self.foreground_color, limit + 1));
                    }
                }
                gx = gx + 1;
            }
            gy = gy + 1;
        }
    }

    /// The framebuffer memory after a new line.
    pub open spec fn memory_after_new_line(&self) -> Seq<u8> {
        if self.new_line_scrolls() {
            self.scrolled_memory()
        } else {
            self.fb().fb_memory()
        }
    }

    /// The cursor row after a new line.
    pub open spec fn y_after_new_line(&self) -> int {
        if self.new_line_scrolls() {
            self.cursor_y() as int
        } else {
            self.cursor_y() + CHARACTER_HEIGHT + 1
        }
    }

    /// Whether the cursor is at or past the right edge, so that a character
    /// starts a new line first.
    pub open spec fn wraps(&self) -> bool {
        self.cursor_x() >= self.fb().fb_width()
    }

    /// The cell where a backspace erases: one cell to the left, or the last
    /// cell of the line above when the cursor is in the first cell.
    pub open spec fn backspace_cell(&self) -> (int, int) {
        if self.cursor_x() < CHARACTER_WIDTH {
            (self.fb().fb_width() - CHARACTER_WIDTH, self.cursor_y() - (CHARACTER_HEIGHT + 1))
        } else {
            (self.cursor_x() - CHARACTER_WIDTH, self.cursor_y() as int)
        }
    }

    /// The code point whose glyph a byte is drawn with: bytes above 127 are
    /// drawn as '.'.
    pub open spec fn glyph_index(val: u8) -> int {
        if val > 127 {
            0x2E
        } else {
            val as int
        }
    }

    /// What writing `val` needs to stay in the framebuffer.
    pub open spec fn write_defined(&self, val: u8) -> bool {
        let lb = self.line_bytes();
        if val == 10 {
            self.new_line_defined()
        } else if val == 8 {
            let (bx, by) = self.backspace_cell();
            &&& self.fb().fb_width() >= CHARACTER_WIDTH
            &&& self.cursor_x() < CHARACTER_WIDTH ==> self.cursor_y() >= CHARACTER_HEIGHT + 1
            &&& bx + CHARACTER_WIDTH <= self.fb().fb_line_length()
            &&& lb * (by + CHARACTER_HEIGHT + 1) <= self.fb().fb_memory().len()
            &&& self.fb().fb_memory().len() <= isize::MAX
        } else {
            let x1 = if self.wraps() { 0 } else { self.cursor_x() as int };
            let y1 = if self.wraps() { self.y_after_new_line() } else { self.cursor_y() as int };
            &&& self.wraps() ==> self.new_line_defined()
            &&& x1 + CHARACTER_WIDTH <= self.fb().fb_line_length()
            &&& lb * (y1 + CHARACTER_HEIGHT) <= self.fb().fb_memory().len()
        }
    }

    /// Writes one byte: a newline starts a new line; a backspace (8) clears
    /// the cell to the left, or the last cell of the line above, and leaves the
    /// cursor column where it was; any other byte starts a new line when the
    /// cursor is past the right edge, is drawn with its glyph in the foreground
    /// colour, and moves the cursor one cell right.
    pub fn write_one(&mut self, val: u8)
        requires
            old(self).write_defined(val),
        ensures
            final(self).fb().fb_line_length() == old(self).fb().fb_line_length(),
            final(self).fb().fb_width() == old(self).fb().fb_width(),
            final(self).fb().fb_height() == old(self).fb().fb_height(),
            final(self).background() == old(self).background(),
            final(self).foreground() == old(self).foreground(),
            final(self).palette() == old(self).palette(),
            final(self).fb().fb_pixel_format() == old(self).fb().fb_pixel_format(),
            val == 10 ==> {
                &&& final(self).fb().committed() == old(self).commits_after_new_line()
                &&& final(self).cursor_x() == 0
                &&& final(self).cursor_y() == old(self).y_after_new_line()
                &&& final(self).fb().fb_memory() == old(self).memory_after_new_line()
            },
            val == 8 ==> ({
                let (bx, by) = old(self).backspace_cell();
                &&& final(self).fb().committed() == old(self).fb().committed().push(
                    Commit::Area(
                        (Rectangle {
                            x: bx as usize,
                            y: by as usize,
                            width: CHARACTER_WIDTH,
                            height: CHARACTER_HEIGHT,
                        }),
                    ),
                )
                &&& final(self).cursor_x() == bx + CHARACTER_WIDTH
                &&& final(self).cursor_y() == by
                &&& final(self).fb().fb_memory() == rows_fill(
                    old(self).fb().fb_memory(),
                    old(self).line_bytes(),
                    by,
                    by + CHARACTER_HEIGHT,
                    bx * 4,
                    (bx + CHARACTER_WIDTH) * 4,
                    old(self).background(),
                )
            }),
            val != 10 && val != 8 ==> ({
                let x1 = if old(self).wraps() { 0 } else { old(self).cursor_x() as int };
                let y1 = if old(self).wraps() { old(self).y_after_new_line() } else { old(self).cursor_y() as int };
                let m1 = if old(self).wraps() { old(self).memory_after_new_line() } else { old(self).fb().fb_memory() };
                let c1 = if old(self).wraps() { old(self).commits_after_new_line() } else { old(self).fb().committed() };
                &&& final(self).fb().committed() == c1.push(
                    Commit::Area(
                        (Rectangle {
                            x: x1 as usize,
                            y: y1 as usize,
                            width: CHARACTER_WIDTH,
                            height: CHARACTER_HEIGHT,
                        }),
                    ),
                )
                &&& final(self).cursor_x() == x1 + CHARACTER_WIDTH
                &&& final(self).cursor_y() == y1
                &&& final(self).fb().fb_memory() == glyph_fill(
                    m1,
                    old(self).line_bytes(),
                    x1,
                    y1,
                    basic_legacy_glyph(Self::glyph_index(val)),
                    old(self).foreground(),
                    64,
                )
            }),
    {
        if val == 10u8 {
            self._new_line();
        } else if val == 8u8 {
            if self.x < CHARACTER_WIDTH {
                self.y = self.y - (CHARACTER_HEIGHT + 1);
                self.x = self.framebuffer.get_size().0 - CHARACTER_WIDTH;
            } else {
                self.x = self.x - CHARACTER_WIDTH;
            }
            let ghost lb = self.line_bytes();
            proof {
                assert((self.framebuffer.fb_line_length() * 4) * (self.y + CHARACTER_HEIGHT + 1)
                    == lb * (self.y + CHARACTER_HEIGHT + 1));
            }
            self.framebuffer.draw_filled_rectangle(
                Rectangle { x: self.x, y: self.y, width: CHARACTER_WIDTH, height: CHARACTER_HEIGHT },
                self.background_color,
            );
            self.framebuffer.commit_area(
                Rectangle { x: self.x, y: self.y, width: CHARACTER_WIDTH, height: CHARACTER_HEIGHT },
            );
            self.x = self.x + CHARACTER_WIDTH;
        } else {
            if self.x >= self.framebuffer.get_size().0 {
                self._new_line();
            }
            let ci: usize = if val > 127 {
                0x2E
            } else {
                val as usize
            };
            let glyph = legacy_glyph(ci);
            self.draw_glyph(glyph);
            self.framebuffer.commit_area(
                Rectangle { x: self.x, y: self.y, width: CHARACTER_WIDTH, height: CHARACTER_HEIGHT },
            );
            self.x = self.x + CHARACTER_WIDTH;
        }
    }
}

} // verus!
