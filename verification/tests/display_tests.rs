use kernel::console::{Color as VgaColor, ConsoleColor};
use kernel::framebuffer::{Color, Framebuffer, PixelFormat, Rectangle, VesaVbeFramebuffer};
use kernel::framebuffer_console::FramebufferConsole;
use kernel::vga_textmode::{ColorCode, VgaTextMode};

#[test]
fn vga_color_code() {
    assert_eq!(ColorCode::new(VgaColor::LightGray, VgaColor::Black).0, 0x07);
    assert_eq!(ColorCode::new(VgaColor::Yellow, VgaColor::Blue).0, 0x1E);
}

#[test]
fn vga_writes_characters_and_newlines() {
    let mut v = VgaTextMode::new();
    assert_eq!(v.cursor_offset(), 0);
    v.write_one(b'A');
    assert_eq!(v.text_memory()[0], b'A');
    assert_eq!(v.text_memory()[1], 0x07);
    assert_eq!(v.cursor_offset(), 2);
    v.write_one(b'\n');
    assert_eq!(v.cursor_offset(), 160);
    v.set_color(VgaColor::White, VgaColor::Red);
    assert_eq!(v.write(b"hi"), 2);
    assert_eq!(&v.text_memory()[160..164], &[b'h', 0x4F, b'i', 0x4F]);
    assert_eq!(VgaTextMode::calc_offset(3, 2), 323);
}

#[test]
fn vga_clear_screen_blanks_in_the_current_attribute() {
    let mut v = VgaTextMode::new();
    v.write(b"xyz");
    v.set_color(VgaColor::Black, VgaColor::Cyan);
    v.clear_screen();
    assert_eq!(v.cursor_offset(), 0);
    assert_eq!(&v.text_memory()[0..4], &[b' ', 0x30, b' ', 0x30]);
    assert_eq!(v.text_memory()[3998], b' ');
    assert_eq!(v.text_memory()[4000], 0);
}

#[test]
fn vga_scrolls_at_the_bottom() {
    let mut v = VgaTextMode::new();
    v.write(b"top");
    for _ in 0..26 {
        v.write_one(b'\n');
    }
    // the first row moved off the screen and the cursor is on the last row
    assert_eq!(v.cursor_offset(), 160 * 24);
    assert_eq!(v.text_memory()[0], 0);
    assert_eq!(&v.text_memory()[3840..3842], &[b' ', 0x07]);
}

#[test]
fn framebuffer_colors() {
    assert_eq!(Color::new(PixelFormat::RGB, 1, 2, 3), Color { r: 1, g: 2, b: 3 });
    assert_eq!(Color::new(PixelFormat::BGR, 1, 2, 3), Color { r: 3, g: 2, b: 1 });
    assert_eq!(Color::new(PixelFormat::Monochrome, 1, 2, 3), Color { r: 1, g: 0, b: 0 });
    assert_eq!(Color { r: 9, g: 8, b: 7 }.pixel_data(), [9, 8, 7, 0]);
    let r = Rectangle { x: 2, y: 3, width: 4, height: 5 };
    assert_eq!(r.end_coordinates(), (6, 8));
}

fn fb() -> VesaVbeFramebuffer {
    VesaVbeFramebuffer::new(vec![0u8; 80 * 40 * 4], 80, 40, PixelFormat::RGB, 4, 80)
}

#[test]
fn framebuffer_pixels_and_fills() {
    let mut f = fb();
    assert_eq!(f.get_size(), (80, 40));
    assert_eq!(f.get_line_offset(2), 640);
    assert_eq!(f.get_pixel_index(5, 2), 645);
    f.set_pixel(5, 2, Color { r: 1, g: 2, b: 3 });
    assert_eq!(&f.raw_buffer()[660..664], &[1, 2, 3, 0]);
    f.clear_screen(Color { r: 7, g: 7, b: 7 });
    assert!(f.raw_buffer().chunks(4).all(|p| p == [7, 7, 7, 0]));
    f.draw_filled_rectangle(Rectangle { x: 1, y: 1, width: 2, height: 1 }, Color { r: 9, g: 0, b: 0 });
    // rows 1 and 2 (the bottom row is included), columns 1 and 2
    for y in 0..4usize {
        for x in 0..4usize {
            let o = y * 320 + x * 4;
            let inside = (1..=2).contains(&y) && (1..=2).contains(&x);
            let want: [u8; 4] = if inside { [9, 0, 0, 0] } else { [7, 7, 7, 0] };
            assert_eq!(&f.raw_buffer()[o..o + 4], &want, "pixel {} {}", x, y);
        }
    }
}

#[test]
fn framebuffer_copy_within_moves_bytes() {
    let mut f = VesaVbeFramebuffer::new(vec![1, 2, 3, 4, 5, 6, 7, 8], 2, 1, PixelFormat::RGB, 4, 2);
    f.copy_within(0, 4, 2);
    assert_eq!(f.raw_buffer().as_slice(), &[1, 2, 1, 2, 3, 4, 7, 8]);
}

#[test]
fn console_draws_glyphs() {
    let mut c = FramebufferConsole::new(fb());
    assert_eq!(c.cursor(), (0, 0));
    c.write_one(b'A');
    assert_eq!(c.cursor(), (8, 0));
    let mem = c.framebuffer().raw_buffer();
    // the first row of 'A' is 0x0C: pixels 2 and 3 are set
    assert_eq!(&mem[8..16], &[0xff, 0xff, 0xff, 0, 0xff, 0xff, 0xff, 0]);
    assert_eq!(&mem[0..8], &[0; 8]);
    assert_eq!(&mem[16..20], &[0; 4]);
    c.write_one(b'\n');
    assert_eq!(c.cursor(), (0, 9));
}

#[test]
fn console_backspace_and_colors() {
    let mut c = FramebufferConsole::new(fb());
    c.write_one(b'A');
    c.write_one(8);
    assert_eq!(c.cursor(), (8, 0));
    assert!(c.framebuffer().raw_buffer()[0..32].iter().all(|b| *b == 0));
    c.set_color(ConsoleColor::Red, ConsoleColor::BrightWhite);
    c.clear_screen();
    assert_eq!(c.cursor(), (0, 0));
    assert_eq!(&c.framebuffer().raw_buffer()[0..4], &[0xff, 0xff, 0xff, 0]);
    c.write_one(b'A');
    assert_eq!(&c.framebuffer().raw_buffer()[8..12], &[0xbf, 0x61, 0x6a, 0]);
}

#[test]
fn draw_rectangle_draws_nothing() {
    let mut fb = VesaVbeFramebuffer::new(vec![7u8; 64], 4, 4, PixelFormat::RGB, 4, 4);
    let white = Color::new(PixelFormat::RGB, 255, 255, 255);
    fb.draw_rectangle(Rectangle { x: 0, y: 0, width: 2, height: 2 }, white, 1);
    assert_eq!(fb.raw_buffer(), &vec![7u8; 64]);
}

#[test]
fn test_println_simple() {
    let mut v = VgaTextMode::new();
    assert_eq!(v.write(b"test_println_simple output\n"), 27);
    assert_eq!(v.cursor_offset(), 160);
}

#[test]
fn test_println_many() {
    let mut v = VgaTextMode::new();
    for _ in 0..200 {
        v.write(b"test_println_many output\n");
    }
    // a newline on the last row leaves the cursor just past the screen; the
    // next character goes there before the screen scrolls, and is lost
    assert_eq!(v.cursor_offset(), 4000);
    let line: Vec<u8> = v.text_memory()[160 * 24..160 * 24 + 46].iter().step_by(2).copied().collect();
    assert_eq!(line, b"est_println_many output".to_vec());
}

#[test]
fn test_println_output() {
    let mut v = VgaTextMode::new();
    v.clear_screen();
    let s = "Some test string that fits on a single line";
    v.write(s.as_bytes());
    for (i, c) in s.chars().enumerate() {
        let screen_char = char::from(v.text_memory()[i * 2]);
        assert_eq!(screen_char, c);
    }
}

#[test]
fn console_wraps_to_the_next_text_line_at_the_right_edge() {
    let mut c = FramebufferConsole::new(VesaVbeFramebuffer::new(
        vec![0u8; 16 * 480 * 4],
        16,
        480,
        PixelFormat::RGB,
        4,
        16,
    ));
    c.write_one(b' ');
    c.write_one(b' ');
    assert_eq!(c.cursor(), (16, 0));
    c.write_one(b' ');
    assert_eq!(c.cursor(), (8, 9));
    // a blank glyph draws nothing
    assert!(c.framebuffer().raw_buffer().iter().all(|b| *b == 0));
}

#[test]
fn console_scrolls_at_the_bottom() {
    // 8 pixels wide, 20 rows: the second new line scrolls
    let mut c = FramebufferConsole::new(VesaVbeFramebuffer::new(
        vec![0u8; 8 * 20 * 4],
        8,
        20,
        PixelFormat::RGB,
        4,
        8,
    ));
    c.write_one(b'\n');
    assert_eq!(c.cursor(), (0, 9));
    c.write_one(b'A');
    c.write_one(b'\n');
    assert_eq!(c.cursor(), (0, 9));
    // the text line of 'A' moved up to the top: its first row is 0x0C
    let mem = c.framebuffer().raw_buffer();
    assert_eq!(&mem[8..16], &[0xff, 0xff, 0xff, 0, 0xff, 0xff, 0xff, 0]);
}
