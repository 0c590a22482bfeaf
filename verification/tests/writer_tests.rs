use bulldog::writer::{draw_glyph, scroll_up, Glyph, LogLevel, TextWriter};

fn glyph_3x2() -> Glyph {
    Glyph { width: 3, height: 2, rows: vec![vec![0, 9, 0], vec![255, 0, 1]] }
}

const FG: (u8, u8, u8) = (0x11, 0x22, 0x33);
const BG: (u8, u8, u8) = (0x44, 0x55, 0x66);
const F: u32 = 0xFF11_2233;
const B: u32 = 0xFF44_5566;

#[test]
fn log_level_prefixes() {
    assert_eq!(LogLevel::Trace.prefix(), "[TRACE] ");
    assert_eq!(LogLevel::Debug.prefix(), "[DEBUG] ");
    assert_eq!(LogLevel::Info.prefix(), "[INFO ] ");
    assert_eq!(LogLevel::Warn.prefix(), "[WARN ] ");
    assert_eq!(LogLevel::Error.prefix(), "[ERROR] ");
}

#[test]
fn scroll_shifts_rows_and_clears_the_last_line() {
    let mut fb: Vec<u32> = (0..20).collect();
    scroll_up(&mut fb, 4, 4, 1, (1, 2, 3));
    assert_eq!(
        fb,
        vec![4, 5, 6, 7, 8, 9, 10, 11, 12, 13, 14, 15, 0x010203, 0x010203, 0x010203, 0x010203, 16, 17, 18, 19]
    );
    let mut fb: Vec<u32> = (0..12).collect();
    scroll_up(&mut fb, 3, 4, 2, (0, 0, 0));
    assert_eq!(fb, vec![6, 7, 8, 9, 10, 11, 0, 0, 0, 0, 0, 0]);
    let mut fb: Vec<u32> = (0..6).collect();
    scroll_up(&mut fb, 3, 2, 2, (0, 0, 9));
    assert_eq!(fb, vec![9; 6]);
    let mut fb: Vec<u32> = (0..6).collect();
    scroll_up(&mut fb, 3, 2, 0, (0, 0, 9));
    assert_eq!(fb, vec![0, 1, 2, 3, 4, 5]);
}

#[test]
fn glyph_is_drawn_in_its_box() {
    let mut fb = vec![7u32; 20];
    draw_glyph(&glyph_3x2(), FG, BG, &mut fb, 5, 4, 1, 1);
    assert_eq!(
        fb,
        vec![7, 7, 7, 7, 7, 7, B, F, B, 7, 7, F, B, F, 7, 7, 7, 7, 7, 7]
    );
}

#[test]
fn glyph_is_clipped_at_the_edges() {
    let mut fb = vec![7u32; 20];
    draw_glyph(&glyph_3x2(), FG, BG, &mut fb, 5, 4, 3, 3);
    assert_eq!(
        fb,
        vec![7, 7, 7, 7, 7, 7, 7, 7, 7, 7, 7, 7, 7, 7, 7, 7, 7, 7, B, F]
    );
    let mut fb = vec![7u32; 20];
    draw_glyph(&glyph_3x2(), FG, BG, &mut fb, 5, 4, 5, 0);
    assert_eq!(fb, vec![7u32; 20]);
    draw_glyph(&glyph_3x2(), FG, BG, &mut fb, 5, 4, 0, 4);
    assert_eq!(fb, vec![7u32; 20]);
    draw_glyph(&glyph_3x2(), FG, BG, &mut fb, 5, 3, 0, 2);
    assert_eq!(&fb[10..15], &[B, F, B, 7, 7]);
    assert_eq!(&fb[15..], &[7u32; 5]);
}

#[test]
fn raster_must_have_the_shape_it_claims() {
    static A: [u8; 2] = [1, 2];
    static B3: [u8; 3] = [1, 2, 3];
    let rows: Vec<&'static [u8]> = vec![&A, &A];
    let g = Glyph::checked(2, 2, &rows).unwrap();
    assert_eq!((g.width, g.height), (2, 2));
    assert_eq!(g.rows, vec![vec![1, 2], vec![1, 2]]);
    assert!(Glyph::checked(2, 3, &rows).is_none());
    assert!(Glyph::checked(3, 2, &rows).is_none());
    let ragged: Vec<&'static [u8]> = vec![&A, &B3];
    assert!(Glyph::checked(2, 2, &ragged).is_none());
    assert!(Glyph::checked(0, 0, &Vec::new()).is_some());
    assert!(Glyph::checked(0x1_0000, 0, &Vec::new()).is_none());
}

#[test]
fn writer_geometry_is_checked() {
    assert!(TextWriter::new(640, 480, 640, 16).is_some());
    assert!(TextWriter::new(641, 480, 640, 16).is_none());
    assert!(TextWriter::new(640, 8, 640, 16).is_none());
    assert!(TextWriter::new(0x4000_0000, 1, 0x4000_0000, 1).is_none());
    let w = TextWriter::new(8, 4, 10, 2).unwrap();
    assert_eq!(w.framebuffer, vec![0u32; 40]);
    assert_eq!((w.cursor_x, w.cursor_y), (0, 0));
    assert_eq!(w.fg_color, (255, 255, 255));
    assert_eq!(w.bg_color, (0, 0, 0));
    assert!(w.enable_scroll);
}

#[test]
fn colors_follow_the_log_level() {
    let mut w = TextWriter::new(8, 4, 8, 2).unwrap();
    w.set_color((1, 2, 3), (4, 5, 6));
    assert_eq!((w.fg_color, w.bg_color), ((1, 2, 3), (4, 5, 6)));
    w.set_log_level_color(LogLevel::Error);
    assert_eq!((w.fg_color, w.bg_color), ((255, 0, 0), (0, 0, 0)));
    w.set_log_level_color(LogLevel::Warn);
    assert_eq!(w.fg_color, (255, 255, 0));
    w.set_log_level_color(LogLevel::Info);
    assert_eq!(w.fg_color, (0, 255, 0));
    w.set_log_level_color(LogLevel::Debug);
    assert_eq!(w.fg_color, (0, 0, 255));
    w.set_log_level_color(LogLevel::Trace);
    assert_eq!(w.fg_color, (128, 128, 128));
}

#[test]
fn cursor_advances_wraps_and_scrolls() {
    let mut w = TextWriter::new(12, 6, 12, 2).unwrap();
    w.set_color(FG, BG);
    let g = glyph_3x2();
    w.put_glyph('a', &g);
    assert_eq!((w.cursor_x, w.cursor_y), (4, 0));
    assert_eq!(&w.framebuffer[..4], &[B, F, B, 0]);
    assert_eq!(&w.framebuffer[12..16], &[F, B, F, 0]);
    w.put_glyph('7', &g);
    assert_eq!((w.cursor_x, w.cursor_y), (0, 2));
    assert_eq!(&w.framebuffer[4..8], &[B, F, B, 0]);
    w.framebuffer[0] = 1;
    w.put_glyph('b', &g);
    assert_eq!((w.cursor_x, w.cursor_y), (4, 2));
    assert_eq!(w.framebuffer[0], 1);
    assert_eq!(&w.framebuffer[24..28], &[B, F, B, 0]);
    w.new_line();
    assert_eq!((w.cursor_x, w.cursor_y), (0, 4));
    assert_eq!(&w.framebuffer[..4], &[B, F, B, 0]);
    assert_eq!(&w.framebuffer[12..16], &[F, B, F, 0]);
    assert_eq!(&w.framebuffer[24..48], &[0u32; 24]);
    assert_eq!(&w.framebuffer[48..], &[0x0044_5566u32; 24]);
    w.enable_scroll = false;
    w.framebuffer[0] = 2;
    w.new_line();
    assert_eq!((w.cursor_x, w.cursor_y), (0, 4));
    assert_eq!(w.framebuffer[0], 2);
    assert_eq!(&w.framebuffer[48..], &[0x0044_5566u32; 24]);
}

#[test]
fn characters_are_rendered_with_the_font() {
    let mut w = TextWriter::new(64, 64, 64, 16).unwrap();
    w.write_char('A');
    assert_eq!((w.cursor_x, w.cursor_y), (8, 0));
    let lit = w.framebuffer.iter().filter(|p| **p == 0xFFFF_FFFF).count();
    let dark = w.framebuffer.iter().filter(|p| **p == 0xFF00_0000).count();
    assert!(lit > 0);
    assert_eq!(lit + dark, 7 * 16);
    assert!((0..16).all(|y| (7..64).all(|x| w.framebuffer[y * 64 + x] == 0)));
    w.write_char('1');
    assert_eq!((w.cursor_x, w.cursor_y), (17, 0));
    let before = w.framebuffer.clone();
    w.write_char('\u{1F43E}');
    assert_eq!((w.cursor_x, w.cursor_y), (17, 0));
    assert_eq!(w.framebuffer, before);
    w.write_char('\n');
    assert_eq!((w.cursor_x, w.cursor_y), (0, 16));
    w.write_str_inner("abcdefg");
    assert_eq!((w.cursor_x, w.cursor_y), (56, 16));
    w.write_char('h');
    assert_eq!((w.cursor_x, w.cursor_y), (0, 32));
    w.write_str_inner("");
    assert_eq!((w.cursor_x, w.cursor_y), (0, 32));
    w.write_char(' ');
    assert_eq!((w.cursor_x, w.cursor_y), (8, 32));
    assert!((32..48).all(|y| (0..7).all(|x| w.framebuffer[y * 64 + x] == 0xFF00_0000)));
}

#[test]
fn log_writes_prefix_message_and_newline() {
    let mut w = TextWriter::new(320, 64, 320, 16).unwrap();
    w.log(LogLevel::Warn, "ok");
    assert_eq!((w.cursor_x, w.cursor_y), (0, 16));
    assert_eq!(w.fg_color, (255, 255, 0));
    assert_eq!(w.bg_color, (0, 0, 0));
    let yellow = w.framebuffer.iter().filter(|p| **p == 0xFFFF_FF00).count();
    let black = w.framebuffer.iter().filter(|p| **p == 0xFF00_0000).count();
    assert!(yellow > 0);
    assert_eq!(yellow + black, 10 * 7 * 16);
    let mut plain = TextWriter::new(320, 64, 320, 16).unwrap();
    plain.set_log_level_color(LogLevel::Warn);
    plain.write_str_inner("[WARN ] ok\n");
    assert_eq!(plain.framebuffer, w.framebuffer);
}
