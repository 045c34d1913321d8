use vstd::prelude::*;
use crate::console::{
    Color,
    color_number,
    spec_color_number,
    vga_palette_order,
    lemma_color_number_is_palette_place,
};

verus! {

/// Bytes per text row: a character byte and an attribute byte per column.
pub const WIDTH: usize = 160;

/// Text rows on the screen.
pub const HEIGHT: usize = 25;

/// Bytes of the visible screen.
pub const SCREEN_BYTES: usize = 4000;

/// Bytes of the VGA text memory window at 0xB8000.
pub const VGA_MEMORY_SIZE: usize = 0x8000;

/// A character attribute: background colour in the high nibble, foreground in
/// the low nibble.
#[derive(Clone, Copy, Debug, PartialEq, Eq, Structural)]
pub struct ColorCode(pub u8);

impl ColorCode {
    /// The attribute for `foreground` on `background`.
    pub fn new(foreground: Color, background: Color) -> (c: ColorCode)
        ensures
            c.0 == spec_color_number(background) * 16 + spec_color_number(foreground),
            vga_palette_order()[(c.0 % 16) as int] == foreground,
            vga_palette_order()[(c.0 / 16) as int] == background,
    {
        proof {
            lemma_attribute_colors(foreground, background);
        }
        ColorCode(color_number(background) * 16 + color_number(foreground))
    }
}

/// An attribute byte names its colours by their places in the VGA palette
/// order: the low nibble is the foreground's place, the high nibble the
/// background's, so the two colours are read back from the byte.
pub proof fn lemma_attribute_colors(foreground: Color, background: Color)
    ensures
        ({
            let a = spec_color_number(background) * 16 + spec_color_number(foreground);
            &&& a < 256
            &&& vga_palette_order()[a % 16] == foreground
            &&& vga_palette_order()[a / 16] == background
        }),
{
    lemma_color_number_is_palette_place(foreground, background);
    lemma_color_number_is_palette_place(background, foreground);
    let f = spec_color_number(foreground) as int;
    let b = spec_color_number(background) as int;
    assert((b * 16 + f) % 16 == f && (b * 16 + f) / 16 == b && b * 16 + f < 256) by (nonlinear_arith)
        requires
            0 <= f < 16,
            0 <= b < 16,
    ;
}

/// Where a byte lands before the scroll check: a newline moves the cursor to
/// two bytes before the end of its row, any other byte is stored with the
/// attribute at the cursor.
pub open spec fn place_byte(buf: Seq<u8>, offset: int, color: u8, val: u8) -> (Seq<u8>, int) {
    if val == 10 {
        (buf, offset + WIDTH - offset % (WIDTH as int) - 2)
    } else {
        (buf.update(offset, val).update(offset + 1, color), offset)
    }
}

/// The memory after moving every visible row up by one and blanking the last
/// row in attribute `color`.
pub open spec fn scroll_up(buf: Seq<u8>, color: u8) -> Seq<u8> {
    Seq::new(
        buf.len(),
        |p: int|
            if p < SCREEN_BYTES - WIDTH {
                buf[p + WIDTH]
            } else if p < SCREEN_BYTES {
                if p % 2 == 0 {
                    32u8
                } else {
                    color
                }
            } else {
                buf[p]
            },
    )
}

/// The memory and cursor after writing `val`: the cursor moves on by one
/// character unless it was already past the last one, and then the screen
/// scrolls and the cursor goes to the start of the last row.
pub open spec fn write_result(buf: Seq<u8>, offset: int, color: u8, val: u8) -> (Seq<u8>, int) {
    let (b1, o1) = place_byte(buf, offset, color, val);
    if o1 <= SCREEN_BYTES - 2 {
        (b1, o1 + 2)
    } else {
        (scroll_up(b1, color), (WIDTH * (HEIGHT - 1)) as int)
    }
}

/// The memory and cursor after writing `bytes` one after the other.
pub open spec fn write_all(buf: Seq<u8>, offset: int, color: u8, bytes: Seq<u8>) -> (Seq<u8>, int)
    decreases bytes.len(),
{
    if bytes.len() == 0 {
        (buf, offset)
    } else {
        let (b, o) = write_all(buf, offset, color, bytes.drop_last());
        write_result(b, o, color, bytes.last())
    }
}

/// The VGA text-mode console, over a model of its text memory.
pub struct VgaTextMode {
    buffer: Vec<u8>,
    offset: usize,
    color: ColorCode,
}

impl VgaTextMode {
    /// The text memory.
    pub closed spec fn memory(&self) -> Seq<u8> {
        self.buffer@
    }

    /// The cursor as a byte offset into the text memory.
    pub closed spec fn cursor(&self) -> usize {
        self.offset
    }

    /// The attribute the console writes with.
    pub closed spec fn attribute(&self) -> u8 {
        self.color.0
    }

    /// The memory holds the whole text window and the cursor is on a
    /// character cell no further than one past the screen.
    pub open spec fn wf(&self) -> bool {
        &&& self.memory().len() == VGA_MEMORY_SIZE
        &&& self.cursor() <= SCREEN_BYTES
        &&& self.cursor() % 2 == 0
    }

    /// A console at the top left corner, writing light gray on black, over
    /// cleared text memory.
    pub fn new() -> (v: VgaTextMode)
        ensures
            v.wf(),
            v.memory() == Seq::new(VGA_MEMORY_SIZE as nat, |i: int| 0u8),
            v.cursor() == 0,
            v.attribute() == 0x07,
    {
        let buffer = vec![0u8; VGA_MEMORY_SIZE];
        proof {
            assert(buffer@ =~= Seq::new(VGA_MEMORY_SIZE as nat, |i: int| 0u8));
        }
        VgaTextMode { buffer, offset: 0, color: ColorCode::new(Color::LightGray, Color::Black) }
    }

    /// The text memory.
    pub fn text_memory(&self) -> (m: &Vec<u8>)
        ensures
            m@ == self.memory(),
    {
        &self.buffer
    }

    /// The cursor as a byte offset into the text memory.
    pub fn cursor_offset(&self) -> (o: usize)
        ensures
            o == self.cursor(),
    {
        self.offset
    }

    /// The byte offset of column byte `x` of row `y`.
    pub fn calc_offset(x: usize, y: usize) -> (o: isize)
        requires
            y * WIDTH + x <= isize::MAX,
        ensures
            o == y * WIDTH + x,
    {
        (y * WIDTH + x) as isize
    }

    /// Sets the attribute for later writes.
    pub fn set_color(&mut self, foreground: Color, background: Color)
        ensures
            final(self).attribute() == spec_color_number(background) * 16 + spec_color_number(
                foreground,
            ),
            final(self).memory() == old(self).memory(),
            final(self).cursor() == old(self).cursor(),
    {
        self.color = ColorCode::new(foreground, background);
    }

    /// Fills the screen with blanks in the current attribute and puts the
    /// cursor at the top left corner.
    pub fn clear_screen(&mut self)
        requires
            old(self).wf(),
        ensures
            final(self).wf(),
            final(self).cursor() == 0,
            final(self).attribute() == old(self).attribute(),
            final(self).memory() == Seq::new(
                VGA_MEMORY_SIZE as nat,
                |p: int|
                    if p < SCREEN_BYTES {
                        if p % 2 == 0 {
                            32u8
                        } else {
                            old(self).attribute()
                        }
                    } else {
                        old(self).memory()[p]
                    },
            ),
    {
        self.offset = 0;
        let mut i: usize = 0;
        while i < HEIGHT * WIDTH / 2
            invariant
                i <= SCREEN_BYTES / 2,
                self.offset == 2 * i,
                self.buffer@.len() == VGA_MEMORY_SIZE,
                self.color == old(self).color,
                forall|p: int|
                    0 <= p < VGA_MEMORY_SIZE ==> self.buffer@[p] == if p < 2 * i {
                        if p % 2 == 0 {
                            32u8
                        } else {
                            old(self).color.0
                        }
                    } else {
                        old(self).buffer@[p]
                    },
            decreases SCREEN_BYTES / 2 - i,
        {
            let o = self.offset;
            self.buffer.set(o, 32u8);
            self.buffer.set(o + 1, self.color.0);
            self.offset = self.offset + 2;
            i = i + 1;
        }
        self.offset = 0;
        proof {
            assert(self.buffer@ =~= Seq::new(
                VGA_MEMORY_SIZE as nat,
                |p: int|
                    if p < SCREEN_BYTES {
                        if p % 2 == 0 {
                            32u8
                        } else {
                            old(self).color.0
                        }
                    } else {
                        old(self).buffer@[p]
                    },
            ));
        }
    }

    /// Writes one byte: a newline ends the row, any other byte is shown in the
    /// current attribute; the screen scrolls when the cursor runs past its end.
    pub fn write_one(&mut self, val: u8)
        requires
            old(self).wf(),
        ensures
            final(self).wf(),
            final(self).attribute() == old(self).attribute(),
            (final(self).memory(), final(self).cursor() as int) == write_result(
                old(self).memory(),
                old(self).cursor() as int,
                old(self).attribute(),
                val,
            ),
    {
        if val == 10u8 {
            self.offset = self.offset + WIDTH - (self.offset % WIDTH) - 2;
        } else {
            let o = self.offset;
            self.buffer.set(o, val);
            self.buffer.set(o + 1, self.color.0);
        }
        let ghost placed = self.buffer@;
        if self.offset <= WIDTH * HEIGHT - 2 {
            self.offset = self.offset + 2;
        } else {
            let mut y: usize = 1;
            while y < HEIGHT
                invariant
                    1 <= y <= HEIGHT,
                    self.color == old(self).color,
                    self.buffer@.len() == VGA_MEMORY_SIZE,
                    placed.len() == VGA_MEMORY_SIZE,
                    forall|p: int|
                        0 <= p < VGA_MEMORY_SIZE ==> self.buffer@[p] == if p < (y - 1) * WIDTH {
                            placed[p + WIDTH]
                        } else {
                            placed[p]
                        },
                decreases HEIGHT - y,
            {
                let mut x: usize = 0;
                while x < WIDTH
                    invariant
                        1 <= y < HEIGHT,
                        x <= WIDTH,
                        self.color == old(self).color,
                        self.buffer@.len() == VGA_MEMORY_SIZE,
                        placed.len() == VGA_MEMORY_SIZE,
                        forall|p: int|
                            0 <= p < VGA_MEMORY_SIZE ==> self.buffer@[p] == if p < (y - 1)
                                * WIDTH + x {
                                placed[p + WIDTH]
                            } else {
                                placed[p]
                            },
                    decreases WIDTH - x,
                {
                    let dst = VgaTextMode::calc_offset(x, y - 1) as usize;
                    let src = VgaTextMode::calc_offset(x, y) as usize;
                    let v = self.buffer[src];
                    self.buffer.set(dst, v);
                    x = x + 1;
                }
                y = y + 1;
            }
            let mut x: usize = 0;
            while x < WIDTH / 2
                invariant
                    x <= WIDTH / 2,
                    self.buffer@.len() == VGA_MEMORY_SIZE,
                    placed.len() == VGA_MEMORY_SIZE,
                    self.color == old(self).color,
                    forall|p: int|
                        0 <= p < VGA_MEMORY_SIZE ==> self.buffer@[p] == if p < SCREEN_BYTES
                            - WIDTH {
                            placed[p + WIDTH]
                        } else if p < SCREEN_BYTES - WIDTH + 2 * x {
                            if p % 2 == 0 {
                                32u8
                            } else {
                                self.color.0
                            }
                        } else {
                            placed[p]
                        },
                decreases WIDTH / 2 - x,
            {
                let a = VgaTextMode::calc_offset(x * 2, HEIGHT - 1) as usize;
                let b = VgaTextMode::calc_offset(x * 2 + 1, HEIGHT - 1) as usize;
                self.buffer.set(a, 32u8);
                self.buffer.set(b, self.color.0);
                x = x + 1;
            }
            self.offset = WIDTH * (HEIGHT - 1);
            proof {
                assert(self.buffer@ =~= scroll_up(placed, self.color.0));
            }
        }
    }

    /// Writes every byte of `bytes` in order.
    pub fn write(&mut self, bytes: &[u8]) -> (n: usize)
        requires
            old(self).wf(),
        ensures
            final(self).wf(),
            n == bytes@.len(),
            final(self).attribute() == old(self).attribute(),
            (final(self).memory(), final(self).cursor() as int) == write_all(
                old(self).memory(),
                old(self).cursor() as int,
                old(self).attribute(),
                bytes@,
            ),
    {
        let mut i: usize = 0;
        while i < bytes.len()
            invariant
                self.wf(),
                self.attribute() == old(self).attribute(),
                i <= bytes@.len(),
                (self.memory(), self.cursor() as int) == write_all(
                    old(self).memory(),
                    old(self).cursor() as int,
                    old(self).attribute(),
                    bytes@.take(i as int),
                ),
            decreases bytes@.len() - i,
        {
            proof {
                assert(bytes@.take(i + 1).drop_last() =~= bytes@.take(i as int));
                assert(bytes@.take(i + 1).last() == bytes@[i as int]);
            }
            self.write_one(bytes[i]);
            i = i + 1;
        }
        proof {
            assert(bytes@.take(bytes@.len() as int) =~= bytes@);
        }
        bytes.len()
    }
}

} // verus!
