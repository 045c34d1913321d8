use vstd::prelude::*;

verus! {

/// The byte order of a framebuffer's pixels.
#[derive(Clone, Copy, Debug, PartialEq, Eq, Structural)]
pub enum PixelFormat {
    RGB,
    BGR,
    Monochrome,
}

/// A colour, with its components stored in the framebuffer's byte order.
#[derive(Clone, Copy, Debug, PartialEq, Eq, Structural)]
pub struct Color {
    pub r: u8,
    pub g: u8,
    pub b: u8,
}

/// The colour `(red, green, blue)` laid out for `pixel_format`: BGR swaps the
/// outer components and monochrome keeps the red one alone.
pub open spec fn spec_color(pixel_format: PixelFormat, red: u8, green: u8, blue: u8) -> Color {
    match pixel_format {
        PixelFormat::RGB => Color { r: red, g: green, b: blue },
        PixelFormat::BGR => Color { r: blue, g: green, b: red },
        PixelFormat::Monochrome => Color { r: red, g: 0, b: 0 },
    }
}

/// The four bytes a pixel of colour `c` takes in the framebuffer.
pub open spec fn spec_pixel_data(c: Color) -> Seq<u8> {
    seq![c.r, c.g, c.b, 0u8]
}

impl Color {
    /// The colour `(red, green, blue)` laid out for `pixel_format`.
    #[allow(non_snake_case)]
    pub fn new(pixel_format: PixelFormat, R: u8, G: u8, B: u8) -> (c: Color)
        ensures
            c == spec_color(pixel_format, R, G, B),
    {
        match pixel_format {
            PixelFormat::RGB => Color { r: R, g: G, b: B },
            PixelFormat::BGR => Color { r: B, g: G, b: R },
            PixelFormat::Monochrome => Color { r: R, g: 0, b: 0 },
        }
    }

    /// The four bytes a pixel of this colour takes: its three components and a
    /// zero byte.
    pub fn pixel_data(&self) -> (d: [u8; 4])
        ensures
            d@ == spec_pixel_data(*self),
    {
        [self.r, self.g, self.b, 0]
    }
}

/// A rectangle of pixels.
#[derive(Clone, Copy, Debug)]
pub struct Rectangle {
    pub x: usize,
    pub y: usize,
    pub width: usize,
    pub height: usize,
}

impl Rectangle {
    /// The coordinates one past the rectangle's right and bottom edges.
    pub fn end_coordinates(&self) -> (e: (usize, usize))
        requires
            self.x + self.width <= usize::MAX,
            self.y + self.height <= usize::MAX,
        ensures
            e.0 == self.x + self.width,
            e.1 == self.y + self.height,
    {
        (self.x + self.width, self.y + self.height)
    }
}

/// Memory `buf` after copying `buf[src..src_end]` to `buf[dest..]`.
pub open spec fn spec_copy_within(buf: Seq<u8>, src: int, src_end: int, dest: int) -> Seq<u8> {
    Seq::new(
        buf.len(),
        |p: int|
            if dest <= p < dest + (src_end - src) {
                buf[p - dest + src]
            } else {
                buf[p]
            },
    )
}

/// Copies `buf[src..src_end]` to `buf[dest..]`, as `copy_within` does, also
/// when the ranges overlap.
pub fn copy_within(buf: &mut Vec<u8>, src: usize, src_end: usize, dest: usize)
    requires
        src <= src_end <= old(buf)@.len(),
        dest + (src_end - src) <= old(buf)@.len(),
    ensures
        final(buf)@ == spec_copy_within(old(buf)@, src as int, src_end as int, dest as int),
{
    let n = src_end - src;
    let _len = buf.len();
    if dest <= src {
        let mut i: usize = 0;
        while i < n
            invariant
                i <= n,
                n == src_end - src,
                dest <= src,
                src + n <= old(buf)@.len(),
                old(buf)@.len() <= usize::MAX,
                buf@.len() == old(buf)@.len(),
                forall|p: int|
                    0 <= p < old(buf)@.len() ==> buf@[p] == if dest <= p < dest + i {
                        old(buf)@[p - dest + src]
                    } else {
                        old(buf)@[p]
                    },
            decreases n - i,
        {
            let v = buf[src + i];
            buf.set(dest + i, v);
            i = i + 1;
        }
    } else {
        let mut i: usize = n;
        while i > 0
            invariant
                i <= n,
                n == src_end - src,
                dest > src,
                dest + n <= old(buf)@.len(),
                old(buf)@.len() <= usize::MAX,
                buf@.len() == old(buf)@.len(),
                forall|p: int|
                    0 <= p < old(buf)@.len() ==> buf@[p] == if dest + i <= p < dest + n {
                        old(buf)@[p - dest + src]
                    } else {
                        old(buf)@[p]
                    },
            decreases i,
        {
            i = i - 1;
            let v = buf[src + i];
            buf.set(dest + i, v);
        }
    }
    assert(buf@ =~= spec_copy_within(old(buf)@, src as int, src_end as int, dest as int));
}

/// Writes the four bytes of `d` at `off`.
fn put_pixel_bytes(buf: &mut Vec<u8>, off: usize, d: [u8; 4])
    requires
        off + 4 <= old(buf)@.len(),
    ensures
        final(buf)@.len() == old(buf)@.len(),
        forall|p: int|
            0 <= p < old(buf)@.len() ==> final(buf)@[p] == if off <= p < off + 4 {
                d@[p - off]
            } else {
                old(buf)@[p]
            },
{
    let _len = buf.len();
    buf.set(off, d[0]);
    buf.set(off + 1, d[1]);
    buf.set(off + 2, d[2]);
    buf.set(off + 3, d[3]);
}

/// Memory `buf` with bytes `[start, end)` holding colour `color`, pixel after
/// pixel from `start`.
pub open spec fn pattern_fill(buf: Seq<u8>, start: int, end: int, color: Color) -> Seq<u8> {
    Seq::new(
        buf.len(),
        |p: int|
            if start <= p < end {
                spec_pixel_data(color)[(p - start) % 4]
            } else {
                buf[p]
            },
    )
}

/// Whether byte `p` lies in rows `first_row..=last_row`, at byte columns
/// `[col_start, col_end)`, of lines `line_bytes` bytes long.
pub open spec fn in_rows(
    p: int,
    line_bytes: int,
    first_row: int,
    last_row: int,
    col_start: int,
    col_end: int,
) -> bool {
    &&& first_row <= p / line_bytes <= last_row
    &&& col_start <= p % line_bytes < col_end
}

/// Memory `buf` with byte columns `[col_start, col_end)` of rows
/// `first_row..=last_row` holding colour `color`, pixel after pixel from
/// `col_start`.
pub open spec fn rows_fill(
    buf: Seq<u8>,
    line_bytes: int,
    first_row: int,
    last_row: int,
    col_start: int,
    col_end: int,
    color: Color,
) -> Seq<u8> {
    Seq::new(
        buf.len(),
        |p: int|
            if in_rows(p, line_bytes, first_row, last_row, col_start, col_end) {
                spec_pixel_data(color)[(p % line_bytes - col_start) % 4]
            } else {
                buf[p]
            },
    )
}

/// A request to put drawn pixels on the screen: the whole screen, or one
/// area of it.
#[derive(Clone, Copy, Debug)]
pub enum Commit {
    Whole,
    Area(Rectangle),
}

/// Memory `buf` with the four bytes at `off` holding colour `color`.
pub open spec fn pixel_set(buf: Seq<u8>, off: int, color: Color) -> Seq<u8> {
    Seq::new(
        buf.len(),
        |p: int|
            if off <= p < off + 4 {
                spec_pixel_data(color)[p - off]
            } else {
                buf[p]
            },
    )
}

/// A linear framebuffer: pixels of four bytes, line after line.  Drawing
/// changes its memory; a commit asks for what was drawn to be shown.
pub trait Framebuffer: Sized {
    /// The framebuffer memory.
    spec fn fb_memory(&self) -> Seq<u8>;

    /// Pixels per line, which may exceed the visible width.
    spec fn fb_line_length(&self) -> usize;

    /// Visible width in pixels.
    spec fn fb_width(&self) -> usize;

    /// Visible height in pixels.
    spec fn fb_height(&self) -> usize;

    spec fn fb_pixel_format(&self) -> PixelFormat;

    spec fn fb_bytes_per_pixel(&self) -> usize;

    /// The commits asked for so far, oldest first.
    spec fn committed(&self) -> Seq<Commit>;

    fn get_pixel_format(&self) -> (f: PixelFormat)
        ensures
            f == self.fb_pixel_format(),
    ;

    fn get_bytes_per_pixel(&self) -> (n: usize)
        ensures
            n == self.fb_bytes_per_pixel(),
    ;

    /// Width and height in pixels.
    fn get_size(&self) -> (s: (usize, usize))
        ensures
            s == (self.fb_width(), self.fb_height()),
    ;

    /// The line offset of line `y` plus `x`.
    fn get_pixel_index(&self, x: usize, y: usize) -> (i: usize)
        requires
            self.fb_line_length() * y * 4 + x <= usize::MAX,
        ensures
            i == self.fb_line_length() * y * 4 + x,
    ;

    /// The framebuffer memory.
    fn raw_buffer(&self) -> (b: &Vec<u8>)
        ensures
            b@ == self.fb_memory(),
    ;

    /// Copies bytes `[src, src_end)` of the framebuffer memory to `dest`, as
    /// `copy_within` on the raw buffer does.
    fn copy_within(&mut self, src: usize, src_end: usize, dest: usize)
        requires
            src <= src_end <= old(self).fb_memory().len(),
            dest + (src_end - src) <= old(self).fb_memory().len(),
        ensures
            final(self).fb_memory() == spec_copy_within(
                old(self).fb_memory(),
                src as int,
                src_end as int,
                dest as int,
            ),
            final(self).fb_line_length() == old(self).fb_line_length(),
            final(self).fb_width() == old(self).fb_width(),
            final(self).fb_height() == old(self).fb_height(),
            final(self).fb_pixel_format() == old(self).fb_pixel_format(),
            final(self).fb_bytes_per_pixel() == old(self).fb_bytes_per_pixel(),
            final(self).fb_memory().len() == old(self).fb_memory().len(),
            final(self).committed() == old(self).committed(),
    ;

    /// Sets pixel `(x, y)` to `color`.
    fn set_pixel(&mut self, x: usize, y: usize, color: Color)
        requires
            old(self).fb_line_length() * y * 4 + x * 4 + 4 <= old(self).fb_memory().len(),
        ensures
            final(self).fb_memory() == pixel_set(
                old(self).fb_memory(),
                old(self).fb_line_length() * y * 4 + x * 4,
                color,
            ),
            final(self).fb_line_length() == old(self).fb_line_length(),
            final(self).fb_width() == old(self).fb_width(),
            final(self).fb_height() == old(self).fb_height(),
            final(self).fb_pixel_format() == old(self).fb_pixel_format(),
            final(self).fb_bytes_per_pixel() == old(self).fb_bytes_per_pixel(),
            final(self).fb_memory().len() == old(self).fb_memory().len(),
            final(self).committed() == old(self).committed(),
    ;

    /// Fills the whole framebuffer memory with `color`.
    fn clear_screen(&mut self, color: Color)
        requires
            4 <= old(self).fb_memory().len() <= isize::MAX,
        ensures
            final(self).fb_memory() == pattern_fill(
                old(self).fb_memory(),
                0,
                old(self).fb_memory().len() as int,
                color,
            ),
            final(self).fb_line_length() == old(self).fb_line_length(),
            final(self).fb_width() == old(self).fb_width(),
            final(self).fb_height() == old(self).fb_height(),
            final(self).fb_pixel_format() == old(self).fb_pixel_format(),
            final(self).fb_bytes_per_pixel() == old(self).fb_bytes_per_pixel(),
            final(self).fb_memory().len() == old(self).fb_memory().len(),
            final(self).committed() == old(self).committed(),
    ;

    /// Draws the outline of `rectangle`, `thickness` pixels wide.
    fn draw_rectangle(&mut self, rectangle: Rectangle, color: Color, thickness: usize);

    /// Fills the pixel rows `rectangle.y..=rectangle.y + rectangle.height`
    /// between its left and right edges with `color`.
    fn draw_filled_rectangle(&mut self, rectangle: Rectangle, color: Color)
        requires
            rectangle.width >= 1,
            (rectangle.x + rectangle.width) * 4 <= old(self).fb_line_length() * 4,
            (old(self).fb_line_length() * 4) * (rectangle.y + rectangle.height + 1) <= old(
                self,
            ).fb_memory().len(),
            old(self).fb_memory().len() <= isize::MAX,
        ensures
            final(self).fb_memory() == rows_fill(
                old(self).fb_memory(),
                old(self).fb_line_length() * 4,
                rectangle.y as int,
                rectangle.y + rectangle.height,
                rectangle.x * 4,
                (rectangle.x + rectangle.width) * 4,
                color,
            ),
            final(self).fb_line_length() == old(self).fb_line_length(),
            final(self).fb_width() == old(self).fb_width(),
            final(self).fb_height() == old(self).fb_height(),
            final(self).fb_pixel_format() == old(self).fb_pixel_format(),
            final(self).fb_bytes_per_pixel() == old(self).fb_bytes_per_pixel(),
            final(self).fb_memory().len() == old(self).fb_memory().len(),
            final(self).committed() == old(self).committed(),
    ;

    /// The byte offset of line `y`.
    fn get_line_offset(&self, y: usize) -> (o: usize)
        requires
            self.fb_line_length() * y * 4 <= usize::MAX,
        ensures
            o == self.fb_line_length() * y * 4,
    ;

    /// Asks for the whole screen to be shown.
    fn commit(&mut self)
        ensures
            final(self).fb_memory() == old(self).fb_memory(),
            final(self).fb_line_length() == old(self).fb_line_length(),
            final(self).fb_width() == old(self).fb_width(),
            final(self).fb_height() == old(self).fb_height(),
            final(self).fb_pixel_format() == old(self).fb_pixel_format(),
            final(self).fb_bytes_per_pixel() == old(self).fb_bytes_per_pixel(),
            final(self).fb_memory().len() == old(self).fb_memory().len(),
            final(self).committed() == old(self).committed().push(Commit::Whole),
    ;

    /// Asks for `area` of the screen to be shown.
    fn commit_area(&mut self, area: Rectangle)
        ensures
            final(self).fb_memory() == old(self).fb_memory(),
            final(self).fb_line_length() == old(self).fb_line_length(),
            final(self).fb_width() == old(self).fb_width(),
            final(self).fb_height() == old(self).fb_height(),
            final(self).fb_pixel_format() == old(self).fb_pixel_format(),
            final(self).fb_bytes_per_pixel() == old(self).fb_bytes_per_pixel(),
            final(self).fb_memory().len() == old(self).fb_memory().len(),
            final(self).committed() == old(self).committed().push(Commit::Area(area)),
    ;
}

/// The linear framebuffer that the bootloader set up, four bytes per pixel.
pub struct VesaVbeFramebuffer {
    buffer: Vec<u8>,
    width: usize,
    height: usize,
    pixel_format: PixelFormat,
    bytes_per_pixel: usize,
    line_length: usize,
    commits: Ghost<Seq<Commit>>,
}

impl VesaVbeFramebuffer {
    /// The framebuffer memory.
    pub closed spec fn memory(&self) -> Seq<u8> {
        self.buffer@
    }

    pub closed spec fn spec_width(&self) -> usize {
        self.width
    }

    pub closed spec fn spec_height(&self) -> usize {
        self.height
    }

    pub closed spec fn spec_pixel_format(&self) -> PixelFormat {
        self.pixel_format
    }

    pub closed spec fn spec_bytes_per_pixel(&self) -> usize {
        self.bytes_per_pixel
    }

    /// Pixels per line, which may exceed the visible width.
    pub closed spec fn spec_line_length(&self) -> usize {
        self.line_length
    }

    /// The commits asked for so far, oldest first.
    pub closed spec fn commit_log(&self) -> Seq<Commit> {
        self.commits@
    }

    /// The byte offset of line `y`.
    pub open spec fn spec_line_offset(&self, y: int) -> int {
        self.spec_line_length() * y * 4
    }

    /// The byte offset of pixel `(x, y)`.
    pub open spec fn pixel_offset(&self, x: int, y: int) -> int {
        self.spec_line_offset(y) + x * 4
    }

    /// A framebuffer over `buffer`.
    pub fn new(
        buffer: Vec<u8>,
        width: usize,
        height: usize,
        pixel_format: PixelFormat,
        bytes_per_pixel: usize,
        line_length: usize,
    ) -> (f: VesaVbeFramebuffer)
        ensures
            f.memory() == buffer@,
            f.spec_width() == width,
            f.spec_height() == height,
            f.spec_pixel_format() == pixel_format,
            f.spec_bytes_per_pixel() == bytes_per_pixel,
            f.spec_line_length() == line_length,
            f.commit_log() == Seq::<Commit>::empty(),
    {
        VesaVbeFramebuffer {
            buffer,
            width,
            height,
            pixel_format,
            bytes_per_pixel,
            line_length,
            commits: Ghost(Seq::empty()),
        }
    }

    /// Fills bytes `[start_index, end_index)` with `color`: writes one pixel,
    /// then doubles the filled run by copying it behind itself while it fits,
    /// and copies the last part.
    pub fn _recursive_fill(&mut self, start_index: usize, end_index: usize, color: Color)
        requires
            start_index + 4 <= end_index <= old(self).memory().len(),
            end_index <= isize::MAX,
        ensures
            final(self).memory() == pattern_fill(
                old(self).memory(),
                start_index as int,
                end_index as int,
                color,
            ),
            final(self).spec_width() == old(self).spec_width(),
            final(self).spec_height() == old(self).spec_height(),
            final(self).spec_pixel_format() == old(self).spec_pixel_format(),
            final(self).spec_bytes_per_pixel() == old(self).spec_bytes_per_pixel(),
            final(self).spec_line_length() == old(self).spec_line_length(),
            final(self).commit_log() == old(self).commit_log(),
    {
        let pixel_data = color.pixel_data();
        put_pixel_bytes(&mut self.buffer, start_index, pixel_data);
        let mut current_length: usize = 4;
        let mut current_index: usize = 4 + start_index;
        while current_index + current_length < end_index
            invariant
                start_index + 4 <= end_index <= old(self).buffer@.len(),
                end_index <= isize::MAX,
                current_length >= 4,
                current_length % 4 == 0,
                current_index == start_index + current_length,
                current_index <= end_index,
                pixel_data@ == spec_pixel_data(color),
                self.buffer@.len() == old(self).buffer@.len(),
                self.width == old(self).width,
                self.height == old(self).height,
                self.pixel_format == old(self).pixel_format,
                self.bytes_per_pixel == old(self).bytes_per_pixel,
                self.line_length == old(self).line_length,
                self.commits == old(self).commits,
                forall|p: int|
                    0 <= p < self.buffer@.len() ==> self.buffer@[p] == if start_index <= p
                        < current_index {
                        spec_pixel_data(color)[(p - start_index) % 4]
                    } else {
                        old(self).buffer@[p]
                    },
            decreases end_index - current_index,
        {
            copy_within(
                &mut self.buffer,
                start_index,
                current_length + start_index,
                current_index,
            );
            current_index = current_index + current_length;
            current_length = current_length * 2;
        }
        copy_within(
            &mut self.buffer,
            start_index,
            end_index - current_index + start_index,
            current_index,
        );
        proof {
            assert(self.buffer@ =~= pattern_fill(
                old(self).buffer@,
                start_index as int,
                end_index as int,
                color,
            ));
        }
    }
}

impl Framebuffer for VesaVbeFramebuffer {
    open spec fn fb_memory(&self) -> Seq<u8> {
        self.memory()
    }

    open spec fn fb_line_length(&self) -> usize {
        self.spec_line_length()
    }

    open spec fn fb_width(&self) -> usize {
        self.spec_width()
    }

    open spec fn fb_height(&self) -> usize {
        self.spec_height()
    }

    open spec fn fb_pixel_format(&self) -> PixelFormat {
        self.spec_pixel_format()
    }

    open spec fn fb_bytes_per_pixel(&self) -> usize {
        self.spec_bytes_per_pixel()
    }

    open spec fn committed(&self) -> Seq<Commit> {
        self.commit_log()
    }

    fn copy_within(&mut self, src: usize, src_end: usize, dest: usize) {
        copy_within(&mut self.buffer, src, src_end, dest);
    }

    /// Nothing to do for the memory: the bootloader's framebuffer is the
    /// screen, so what is drawn is shown at once.  The request is recorded.
    fn commit(&mut self) {
        self.commits = Ghost(self.commits@.push(Commit::Whole));
    }

    /// Nothing to do for the memory, as for `commit`; the request is recorded.
    fn commit_area(&mut self, area: Rectangle) {
        self.commits = Ghost(self.commits@.push(Commit::Area(area)));
    }

    fn get_bytes_per_pixel(&self) -> (n: usize) {
        self.bytes_per_pixel
    }

    fn get_pixel_format(&self) -> (f: PixelFormat) {
        self.pixel_format
    }

    /// Width and height in pixels.
    fn get_size(&self) -> (s: (usize, usize)) {
        (self.width, self.height)
    }

    /// The framebuffer memory.
    fn raw_buffer(&self) -> (b: &Vec<u8>) {
        &self.buffer
    }

    /// The byte offset of line `y`.
    fn get_line_offset(&self, y: usize) -> (o: usize) {
        proof {
            vstd::arithmetic::mul::lemma_mul_is_associative(self.line_length as int, y as int, 4);
            vstd::arithmetic::mul::lemma_mul_nonnegative(self.line_length as int, y as int);
        }
        self.line_length * y * 4
    }

    /// The line offset of line `y` plus `x`.
    fn get_pixel_index(&self, x: usize, y: usize) -> (i: usize) {
        proof {
            vstd::arithmetic::mul::lemma_mul_nonnegative(self.line_length as int * y as int, 4);
        }
        self.get_line_offset(y) + x
    }

    /// Sets pixel `(x, y)` to `color`.
    fn set_pixel(&mut self, x: usize, y: usize, color: Color) {
        let len = self.buffer.len();
        let ll = self.line_length;
        assert(y * ll * 4 + x * 4 + 4 <= len && y * ll <= y * ll * 4) by (nonlinear_arith)
            requires
                ll * y * 4 + x * 4 + 4 <= len,
                0 <= y,
                0 <= ll,
                0 <= x,
        ;
        let pixel_offset = y * self.line_length * 4 + x * 4;
        let pixel_data = color.pixel_data();
        put_pixel_bytes(&mut self.buffer, pixel_offset, pixel_data);
        proof {
            assert(ll * y * 4 + x * 4 == pixel_offset) by (nonlinear_arith)
                requires
                    pixel_offset == y * ll * 4 + x * 4,
            ;
            assert(self.buffer@ =~= pixel_set(old(self).buffer@, pixel_offset as int, color));
        }
    }

    /// Fills the whole framebuffer memory with `color`.
    fn clear_screen(&mut self, color: Color) {
        let len = self.buffer.len();
        self._recursive_fill(0, len, color);
    }

    /// Fills the rectangle with `color`: its first row directly, then each row
    /// below by copying the first one, down to and including row
    /// `y + height`.
    fn draw_filled_rectangle(&mut self, rectangle: Rectangle, color: Color) {
        let ghost lb = self.line_length * 4;
        let ghost r0 = rectangle.y as int;
        let ghost r1 = rectangle.y + rectangle.height;
        let ghost c0 = rectangle.x * 4;
        let ghost c1 = (rectangle.x + rectangle.width) * 4;
        let len = self.buffer.len();
        let ghost ll = self.line_length as int;
        proof {
            assert(lb >= 4);
            assert(r1 + 1 <= lb * (r1 + 1)) by (nonlinear_arith)
                requires
                    lb >= 4,
                    r1 >= 0,
            ;
            assert(lb * r0 <= lb * (r1 + 1) && lb * r1 + lb == lb * (r1 + 1) && lb * r0 <= lb * r1)
                by (nonlinear_arith)
                requires
                    lb >= 0,
                    0 <= r0 <= r1,
            ;
            assert(ll * r0 * 4 == lb * r0) by (nonlinear_arith)
                requires
                    lb == ll * 4,
            ;
            assert(ll * r1 * 4 == lb * r1) by (nonlinear_arith)
                requires
                    lb == ll * 4,
            ;
        }
        let (x_start, y_start) = (rectangle.x * 4, rectangle.y);
        let (mut x_end, y_end) = rectangle.end_coordinates();
        x_end = x_end * 4;
        let line_offset_start = self.get_line_offset(y_start);
        self._recursive_fill(line_offset_start + x_start, line_offset_start + x_end, color);
        let line_offset_end = self.get_line_offset(y_end);
        let adder = 4 * self.line_length + x_start;
        let step = 4 * self.line_length;
        let mut y = line_offset_start;
        let ghost mut k: int = 0;
        proof {
            assert forall|p: int| 0 <= p < self.buffer@.len() implies self.buffer@[p] == rows_fill(
                old(self).buffer@, lb, r0, r0, c0, c1, color)[p] by {
                vstd::arithmetic::div_mod::lemma_fundamental_div_mod(p, lb);
                if line_offset_start + x_start <= p < line_offset_start + x_end {
                    vstd::arithmetic::div_mod::lemma_fundamental_div_mod_converse(
                        p,
                        lb,
                        r0,
                        p - lb * r0,
                    );
                }
                if in_rows(p, lb, r0, r0, c0, c1) {
                    assert(p == lb * r0 + p % lb);
                }
            }
        }
        while y < line_offset_end
            invariant
                lb == self.line_length * 4,
                lb > 0,
                step == lb,
                adder == lb + c0,
                x_start == c0,
                c0 + 4 <= c1 <= lb,
                line_offset_start == lb * r0,
                line_offset_end == lb * r1,
                line_offset_start + x_end == lb * r0 + c1,
                0 <= r0 <= r1,
                lb * r1 + lb <= len,
                len == self.buffer@.len(),
                self.buffer@.len() == old(self).buffer@.len(),
                y == lb * (r0 + k),
                0 <= k,
                r0 + k <= r1,
                x_end == c1,
                lb * r0 + c1 <= len,
                len <= isize::MAX,
                self.width == old(self).width,
                self.height == old(self).height,
                self.pixel_format == old(self).pixel_format,
                self.bytes_per_pixel == old(self).bytes_per_pixel,
                self.line_length == old(self).line_length,
                self.commits == old(self).commits,
                forall|p: int|
                    0 <= p < self.buffer@.len() ==> self.buffer@[p] == rows_fill(
                        old(self).buffer@,
                        lb,
                        r0,
                        r0 + k,
                        c0,
                        c1,
                        color,
                    )[p],
            decreases line_offset_end - y,
        {
            proof {
                assert(r0 + k < r1) by (nonlinear_arith)
                    requires
                        lb * (r0 + k) < lb * r1,
                        lb > 0,
                ;
                assert(lb * (r0 + k) + lb == lb * (r0 + k + 1)) by (nonlinear_arith);
                assert(lb * (r0 + k + 1) <= lb * r1) by (nonlinear_arith)
                    requires
                        r0 + k + 1 <= r1,
                        lb > 0,
                ;
            }
            let ghost before = self.buffer@;
            copy_within(&mut self.buffer, line_offset_start + x_start, line_offset_start + x_end, y + adder);
            proof {
                let nk = k + 1;
                assert forall|p: int| 0 <= p < self.buffer@.len() implies self.buffer@[p]
                    == rows_fill(old(self).buffer@, lb, r0, r0 + nk, c0, c1, color)[p] by {
                    vstd::arithmetic::div_mod::lemma_fundamental_div_mod(p, lb);
                    let dst = y + adder;
                    if dst <= p < dst + (c1 - c0) {
                        vstd::arithmetic::div_mod::lemma_fundamental_div_mod_converse(
                            p,
                            lb,
                            r0 + nk,
                            p - lb * (r0 + nk),
                        );
                        let srcp = p - dst + lb * r0 + c0;
                        assert(lb * r0 == r0 * lb) by (nonlinear_arith);
                        vstd::arithmetic::div_mod::lemma_fundamental_div_mod_converse(
                            srcp,
                            lb,
                            r0,
                            srcp - lb * r0,
                        );
                    } else {
                        if in_rows(p, lb, r0, r0 + nk, c0, c1) && p / lb == r0 + nk {
                            assert(p == lb * (r0 + nk) + p % lb);
                            assert(false);
                        }
                    }
                }
                k = nk;
            }
            y = y + step;
        }
        proof {
            assert(k == r1 - r0) by (nonlinear_arith)
                requires
                    y == lb * (r0 + k),
                    y >= lb * r1,
                    r0 + k <= r1,
                    lb > 0,
            ;
            assert(self.buffer@ =~= rows_fill(old(self).buffer@, lb, r0, r1, c0, c1, color));
        }
    }
    /// Draws nothing: outlines are not drawn.
    fn draw_rectangle(&mut self, rectangle: Rectangle, color: Color, thickness: usize)
        ensures
            *final(self) == *old(self),
    {
    }
}

} // verus!
