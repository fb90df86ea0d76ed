use kernel_core::vga_buffer::{Color, ColorCode, Writer, BUFFER_HEIGHT, BUFFER_WIDTH};

fn all_colors() -> Vec<Color> {
    vec![
        Color::Black,
        Color::Blue,
        Color::Green,
        Color::Cyan,
        Color::Red,
        Color::Magenta,
        Color::Brown,
        Color::LightGray,
        Color::DarkGrey,
        Color::LightBlue,
        Color::LightGreen,
        Color::LightCyan,
        Color::LightRed,
        Color::Pink,
        Color::Yellow,
        Color::White,
    ]
}

#[test]
fn color_code_round_trip_all_pairs() {
    for &fg in all_colors().iter() {
        for &bg in all_colors().iter() {
            let code = ColorCode::new(fg, bg);
            assert_eq!(code.foreground(), fg);
            assert_eq!(code.background(), bg);
        }
    }
}

#[test]
fn color_code_packs_nibbles() {
    let code = ColorCode::new(Color::Yellow, Color::Black);
    assert_eq!(code.0, 0x0e);
    let code = ColorCode::new(Color::Blue, Color::Red);
    assert_eq!(code.0, 0x41);
}

#[test]
fn raw_attribute_byte_decodes_by_nibbles() {
    let code = ColorCode(0x4e);
    assert_eq!(code.foreground(), Color::Yellow);
    assert_eq!(code.background(), Color::Red);
}

#[test]
fn write_byte_stores_the_byte_as_given() {
    let attr = ColorCode::new(Color::Yellow, Color::Black);
    let mut writer = Writer::new(attr);
    writer.write_byte(0x01);
    assert_eq!(writer.read_cell(BUFFER_HEIGHT - 1, 0).ascii_character, 0x01);
    assert_eq!(writer.column_position(), 1);
}

#[test]
fn fresh_writer_is_blank() {
    let attr = ColorCode::new(Color::Yellow, Color::Black);
    let writer = Writer::new(attr);
    assert_eq!(writer.column_position(), 0);
    for row in 0..BUFFER_HEIGHT {
        for col in 0..BUFFER_WIDTH {
            let cell = writer.read_cell(row, col);
            assert_eq!(cell.ascii_character, 0x20);
            assert_eq!(cell.color_code, attr);
        }
    }
}

#[test]
fn short_line_lands_on_last_row() {
    let attr = ColorCode::new(Color::White, Color::Blue);
    let mut writer = Writer::new(attr);
    let text = "hello world";
    writer.write_string(text);
    assert_eq!(writer.column_position(), text.len());
    for (i, byte) in text.bytes().enumerate() {
        let cell = writer.read_cell(BUFFER_HEIGHT - 1, i);
        assert_eq!(cell.ascii_character, byte);
        assert_eq!(cell.color_code, attr);
    }
    for col in text.len()..BUFFER_WIDTH {
        assert_eq!(writer.read_cell(BUFFER_HEIGHT - 1, col).ascii_character, 0x20);
    }
}

#[test]
fn unprintable_bytes_become_replacement_glyph() {
    let attr = ColorCode::new(Color::Yellow, Color::Black);
    let mut writer = Writer::new(attr);
    writer.write_string("a\u{7f}b");
    assert_eq!(writer.read_cell(BUFFER_HEIGHT - 1, 0).ascii_character, b'a');
    assert_eq!(writer.read_cell(BUFFER_HEIGHT - 1, 1).ascii_character, 0xfe);
    assert_eq!(writer.read_cell(BUFFER_HEIGHT - 1, 2).ascii_character, b'b');
    // A two-byte encoding renders as two replacement glyphs.
    let mut writer = Writer::new(attr);
    writer.write_string("\u{00fc}");
    assert_eq!(writer.column_position(), 2);
    assert_eq!(writer.read_cell(BUFFER_HEIGHT - 1, 0).ascii_character, 0xfe);
    assert_eq!(writer.read_cell(BUFFER_HEIGHT - 1, 1).ascii_character, 0xfe);
}

#[test]
fn full_row_wraps_by_scrolling() {
    let attr = ColorCode::new(Color::Yellow, Color::Black);
    let mut writer = Writer::new(attr);
    for _ in 0..BUFFER_WIDTH {
        writer.write_byte(b'x');
    }
    assert_eq!(writer.column_position(), BUFFER_WIDTH);
    writer.write_byte(b'y');
    assert_eq!(writer.column_position(), 1);
    assert_eq!(writer.read_cell(BUFFER_HEIGHT - 2, 0).ascii_character, b'x');
    assert_eq!(writer.read_cell(BUFFER_HEIGHT - 2, BUFFER_WIDTH - 1).ascii_character, b'x');
    assert_eq!(writer.read_cell(BUFFER_HEIGHT - 1, 0).ascii_character, b'y');
    assert_eq!(writer.read_cell(BUFFER_HEIGHT - 1, 1).ascii_character, 0x20);
}

#[test]
fn newline_scrolls_and_resets_column() {
    let attr = ColorCode::new(Color::Yellow, Color::Black);
    let mut writer = Writer::new(attr);
    writer.write_string("ab\ncd");
    assert_eq!(writer.column_position(), 2);
    assert_eq!(writer.read_cell(BUFFER_HEIGHT - 2, 0).ascii_character, b'a');
    assert_eq!(writer.read_cell(BUFFER_HEIGHT - 2, 1).ascii_character, b'b');
    assert_eq!(writer.read_cell(BUFFER_HEIGHT - 1, 0).ascii_character, b'c');
    assert_eq!(writer.read_cell(BUFFER_HEIGHT - 1, 1).ascii_character, b'd');
}

fn row_text(writer: &Writer, row: usize) -> String {
    let mut out = String::new();
    for col in 0..BUFFER_WIDTH {
        let b = writer.read_cell(row, col).ascii_character;
        if b == 0x20 {
            break;
        }
        out.push(b as char);
    }
    out
}

#[test]
fn many_scrolls_keep_only_trailing_lines() {
    let attr = ColorCode::new(Color::Yellow, Color::Black);
    let mut writer = Writer::new(attr);
    let total: usize = 30;
    for i in 0..total {
        writer.write_string(&format!("line{}\n", i));
    }
    // The last row is the blank cursor row; above it the trailing lines
    // stand in order, earlier ones are gone.
    assert_eq!(writer.column_position(), 0);
    assert_eq!(row_text(&writer, BUFFER_HEIGHT - 1), "");
    for j in 0..(BUFFER_HEIGHT - 1) {
        let expect = format!("line{}", total - 1 - j);
        assert_eq!(row_text(&writer, BUFFER_HEIGHT - 2 - j), expect);
    }
}
