use hyperml_os::buffer::{Buffer, BUFFER_HEIGHT, BUFFER_WIDTH};
use hyperml_os::color::{Color, ColorCode, ScreenChar};
use hyperml_os::writer::{Writer, _print};

fn yellow_on_black() -> ColorCode {
    ColorCode::new(Color::Yellow, Color::Black)
}

fn fresh_writer() -> Writer {
    let buffer: &'static mut Buffer = Box::leak(Box::new(Buffer::new(yellow_on_black())));
    Writer::new(yellow_on_black(), buffer)
}

fn row_text(w: &Writer, row: usize, len: usize) -> Vec<u8> {
    (0..len).map(|col| w.read_char(row, col).ascii_character).collect()
}

fn grid(w: &Writer) -> Vec<ScreenChar> {
    let mut cells = Vec::new();
    for row in 0..BUFFER_HEIGHT {
        for col in 0..BUFFER_WIDTH {
            cells.push(w.read_char(row, col));
        }
    }
    cells
}

fn is_blank_row(w: &Writer, row: usize) -> bool {
    (0..BUFFER_WIDTH).all(|col| w.read_char(row, col).ascii_character == b' ')
}

#[test]
fn test_println_simple() {
    let mut w = fresh_writer();
    _print(&mut w, "test_println_simple output\n");
    assert_eq!(w.column_position(), 0);
}

#[test]
fn test_println_many() {
    let mut w = fresh_writer();
    for _ in 0..200 {
        _print(&mut w, "test_println_many output\n");
    }
    assert_eq!(w.column_position(), 0);
    let expected = b"test_println_many output";
    for row in 0..BUFFER_HEIGHT - 1 {
        assert_eq!(row_text(&w, row, expected.len()), expected.to_vec());
    }
    assert!(is_blank_row(&w, BUFFER_HEIGHT - 1));
}

#[test]
fn test_println_output() {
    let mut w = fresh_writer();
    let s = "Some test string that fits on a single line";
    _print(&mut w, &format!("{}\n", s));
    for (i, c) in s.chars().enumerate() {
        let screen_char = w.read_char(BUFFER_HEIGHT - 2, i);
        assert_eq!(char::from(screen_char.ascii_character), c);
    }
}

#[test]
fn color_codes_match_the_palette() {
    let all = [
        Color::Black, Color::Blue, Color::Green, Color::Cyan,
        Color::Red, Color::Magenta, Color::Brown, Color::LightGray,
        Color::DarkGray, Color::LightBlue, Color::LightGreen, Color::LightCyan,
        Color::LightRed, Color::Pink, Color::Yellow, Color::White,
    ];
    for (i, c) in all.iter().enumerate() {
        assert_eq!(c.code() as usize, i);
    }
}

#[test]
fn color_code_packs_background_high_foreground_low() {
    assert_eq!(ColorCode::new(Color::Yellow, Color::Black).0, 0x0e);
    assert_eq!(ColorCode::new(Color::White, Color::Blue).0, 0x1f);
    assert_eq!(ColorCode::new(Color::Black, Color::White).0, 0xf0);
    assert_eq!(ColorCode::new(Color::LightGreen, Color::Red).0, 0x4a);
}

#[test]
fn new_buffer_is_blank_in_its_colour() {
    let w = fresh_writer();
    for cell in grid(&w) {
        assert_eq!(cell, ScreenChar { ascii_character: b' ', color_code: yellow_on_black() });
    }
    assert_eq!(w.column_position(), 0);
    assert_eq!(w.color_code(), yellow_on_black());
}

#[test]
fn write_byte_stores_glyph_and_colour_at_cursor() {
    let mut w = fresh_writer();
    w.write_byte(b'A');
    w.write_byte(b'b');
    assert_eq!(w.read_char(BUFFER_HEIGHT - 1, 0), ScreenChar { ascii_character: b'A', color_code: ColorCode(0x0e) });
    assert_eq!(w.read_char(BUFFER_HEIGHT - 1, 1).ascii_character, b'b');
    assert_eq!(w.column_position(), 2);
}

#[test]
fn write_byte_passes_raw_bytes_through() {
    let mut w = fresh_writer();
    w.write_byte(0x01);
    assert_eq!(w.read_char(BUFFER_HEIGHT - 1, 0).ascii_character, 0x01);
}

#[test]
fn printable_line_lands_on_bottom_row() {
    let mut w = fresh_writer();
    w.write_string("abc xyz~");
    assert_eq!(row_text(&w, BUFFER_HEIGHT - 1, 8), b"abc xyz~".to_vec());
    assert_eq!(w.column_position(), 8);
    assert_eq!(w.read_char(BUFFER_HEIGHT - 1, 8).ascii_character, b' ');
}

#[test]
fn unprintable_bytes_become_sentinel() {
    let mut w = fresh_writer();
    w.write_string("\t\u{7f}\u{e9}");
    // a tab, DEL, then the two bytes of the UTF-8 encoding of e-acute
    assert_eq!(row_text(&w, BUFFER_HEIGHT - 1, 4), vec![0xfe, 0xfe, 0xfe, 0xfe]);
    assert_eq!(w.column_position(), 4);
}

#[test]
fn every_unprintable_byte_becomes_sentinel() {
    for b in 0u8..=0x7f {
        if (0x20..=0x7e).contains(&b) || b == b'\n' {
            continue;
        }
        let mut w = fresh_writer();
        let s = String::from(char::from(b));
        w.write_string(&s);
        assert_eq!(w.read_char(BUFFER_HEIGHT - 1, 0).ascii_character, 0xfe);
    }
}

#[test]
fn full_row_then_one_more_wraps() {
    let mut w = fresh_writer();
    let row: String = (0..BUFFER_WIDTH).map(|i| char::from(b'a' + (i % 26) as u8)).collect();
    w.write_string(&row);
    assert_eq!(w.column_position(), BUFFER_WIDTH);
    assert_eq!(row_text(&w, BUFFER_HEIGHT - 1, BUFFER_WIDTH), row.as_bytes().to_vec());
    w.write_string("Z");
    assert_eq!(w.column_position(), 1);
    assert_eq!(w.read_char(BUFFER_HEIGHT - 1, 0).ascii_character, b'Z');
    assert!((1..BUFFER_WIDTH).all(|c| w.read_char(BUFFER_HEIGHT - 1, c).ascii_character == b' '));
    assert_eq!(row_text(&w, BUFFER_HEIGHT - 2, BUFFER_WIDTH), row.as_bytes().to_vec());
}

#[test]
fn column_never_exceeds_width() {
    let mut w = fresh_writer();
    for _ in 0..3 * BUFFER_WIDTH + 7 {
        w.write_byte(b'x');
        assert!(w.column_position() <= BUFFER_WIDTH);
    }
    assert_eq!(w.column_position(), 7);
}

#[test]
fn more_lines_than_rows_scroll_in_order() {
    let mut w = fresh_writer();
    for i in 0..30 {
        w.write_string(&format!("line {:02}\n", i));
    }
    for row in 0..BUFFER_HEIGHT - 1 {
        let expected = format!("line {:02}", row + 6);
        assert_eq!(row_text(&w, row, 7), expected.as_bytes().to_vec());
    }
    assert!(is_blank_row(&w, BUFFER_HEIGHT - 1));
    assert_eq!(w.column_position(), 0);
}

#[test]
fn line_feed_scrolls_and_blanks_bottom_row() {
    let mut w = fresh_writer();
    w.write_string("top");
    w.write_byte(b'\n');
    assert_eq!(w.column_position(), 0);
    assert_eq!(row_text(&w, BUFFER_HEIGHT - 2, 3), b"top".to_vec());
    assert!(is_blank_row(&w, BUFFER_HEIGHT - 1));
}

#[test]
fn empty_string_changes_nothing() {
    let mut w = fresh_writer();
    w.write_string("ab\ncd");
    let before = grid(&w);
    let col = w.column_position();
    w.write_string("");
    assert_eq!(grid(&w), before);
    assert_eq!(w.column_position(), col);
}

#[test]
fn back_to_back_prints_equal_one_print() {
    let mut a = fresh_writer();
    let mut b = fresh_writer();
    let first = "first call site\nwith a partial line";
    let second = " and the rest\u{1}\n";
    _print(&mut a, first);
    _print(&mut a, second);
    _print(&mut b, &format!("{}{}", first, second));
    assert_eq!(grid(&a), grid(&b));
    assert_eq!(a.column_position(), b.column_position());
}

#[test]
fn hello_world_then_line_feed() {
    let mut w = fresh_writer();
    w.write_string("Hello World!");
    w.write_string("\n");
    assert_eq!(row_text(&w, BUFFER_HEIGHT - 2, 12), b"Hello World!".to_vec());
    assert_eq!(w.read_char(BUFFER_HEIGHT - 2, 12).ascii_character, b' ');
    assert!(is_blank_row(&w, BUFFER_HEIGHT - 1));
    assert_eq!(w.column_position(), 0);
}
