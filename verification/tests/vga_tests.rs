use oxide_os::vga::{clear, write_fmt, Color, ScreenBuffer, ScreenChar, Writer, SCREEN_CELLS};

fn cell(ascii: u8) -> ScreenChar {
    ScreenChar { ascii, color: 7 }
}

fn row_text(screen: &ScreenBuffer, row: usize, len: usize) -> Vec<u8> {
    (0..len).map(|c| screen.get(row, c).ascii).collect()
}

#[test]
fn light_gray_is_attribute_seven() {
    assert_eq!(Color::LightGray.code(), 7);
}

#[test]
fn new_screen_is_zeroed() {
    let screen = ScreenBuffer::new();
    for i in 0..SCREEN_CELLS {
        assert_eq!(screen.cell(i), ScreenChar { ascii: 0, color: 0 });
    }
}

#[test]
fn from_cells_checks_size() {
    assert!(ScreenBuffer::from_cells(vec![cell(b'x'); 1999]).is_none());
    let screen = ScreenBuffer::from_cells(vec![cell(b'x'); 2000]).unwrap();
    assert_eq!(screen.get(24, 79), cell(b'x'));
}

#[test]
fn clear_fills_screen_with_gray_spaces() {
    let mut screen = ScreenBuffer::from_cells(vec![cell(b'x'); 2000]).unwrap();
    let mut w = Writer::new(Color::LightGray);
    w.write_str(&mut screen, "abc");
    clear(&mut w, &mut screen);
    assert_eq!((w.row(), w.column()), (0, 0));
    for i in 0..SCREEN_CELLS {
        assert_eq!(screen.cell(i), cell(b' '));
    }
}

#[test]
fn writer_clear_resets_cursor() {
    let mut screen = ScreenBuffer::new();
    let mut w = Writer::new(Color::LightGray);
    w.write_str(&mut screen, "abc\ndef");
    assert_eq!((w.row(), w.column()), (1, 3));
    w.clear(&mut screen);
    assert_eq!((w.row(), w.column()), (0, 0));
    assert_eq!(screen.get(1, 0), cell(b' '));
}

#[test]
fn write_fmt_starts_at_top_left() {
    let mut screen = ScreenBuffer::new();
    let mut w = Writer::new(Color::LightGray);
    clear(&mut w, &mut screen);
    write_fmt(&mut w, &mut screen, "Oxide OS");
    assert_eq!(row_text(&screen, 0, 9), b"Oxide OS ".to_vec());
    assert_eq!(screen.get(0, 0), cell(b'O'));
    assert_eq!(screen.get(1, 0), cell(b' '));
}

#[test]
fn write_fmt_continues_where_the_last_text_ended() {
    let mut screen = ScreenBuffer::new();
    let mut w = Writer::new(Color::LightGray);
    clear(&mut w, &mut screen);
    write_fmt(&mut w, &mut screen, "ab\n");
    write_fmt(&mut w, &mut screen, "c");
    assert_eq!(screen.get(0, 0), cell(b'a'));
    assert_eq!(screen.get(0, 1), cell(b'b'));
    assert_eq!(screen.get(1, 0), cell(b'c'));
    assert_eq!((w.row(), w.column()), (1, 1));
}

#[test]
fn log_scrolls_once_the_screen_is_full() {
    let mut screen = ScreenBuffer::new();
    let mut w = Writer::new(Color::LightGray);
    clear(&mut w, &mut screen);
    for n in 0..30 {
        write_fmt(&mut w, &mut screen, &format!("line {}\n", n));
    }
    assert_eq!(row_text(&screen, 0, 7), b"line 6 ".to_vec());
    assert_eq!(row_text(&screen, 23, 7), b"line 29".to_vec());
    assert_eq!(row_text(&screen, 24, 3), b"   ".to_vec());
    assert_eq!((w.row(), w.column()), (24, 0));
}

#[test]
fn newline_moves_to_next_row() {
    let mut screen = ScreenBuffer::new();
    clear(&mut Writer::new(Color::LightGray), &mut screen);
    let mut w = Writer::new(Color::LightGray);
    w.write_str(&mut screen, "ab\ncd");
    assert_eq!(row_text(&screen, 0, 3), b"ab ".to_vec());
    assert_eq!(row_text(&screen, 1, 3), b"cd ".to_vec());
    assert_eq!((w.row(), w.column()), (1, 2));
}

#[test]
fn full_row_wraps_before_next_character() {
    let mut screen = ScreenBuffer::new();
    clear(&mut Writer::new(Color::LightGray), &mut screen);
    let mut w = Writer::new(Color::LightGray);
    let line = "x".repeat(80);
    w.write_str(&mut screen, &line);
    assert_eq!((w.row(), w.column()), (0, 80));
    w.write_byte(&mut screen, b'y');
    assert_eq!((w.row(), w.column()), (1, 1));
    assert_eq!(screen.get(0, 79), cell(b'x'));
    assert_eq!(screen.get(1, 0), cell(b'y'));
}

#[test]
fn newline_on_bottom_row_scrolls() {
    let mut screen = ScreenBuffer::new();
    clear(&mut Writer::new(Color::LightGray), &mut screen);
    let mut w = Writer::new(Color::LightGray);
    for r in 0..25u8 {
        w.write_byte(&mut screen, b'a' + r);
        if r < 24 {
            w.write_byte(&mut screen, b'\n');
        }
    }
    assert_eq!(w.row(), 24);
    assert_eq!(screen.get(0, 0), cell(b'a'));
    assert_eq!(screen.get(24, 0), cell(b'y'));
    w.new_line(&mut screen);
    assert_eq!((w.row(), w.column()), (24, 0));
    assert_eq!(screen.get(0, 0), cell(b'b'));
    assert_eq!(screen.get(23, 0), cell(b'y'));
    assert_eq!(screen.get(24, 0), cell(b' '));
    w.write_str(&mut screen, "z");
    assert_eq!(screen.get(24, 0), cell(b'z'));
}

#[test]
fn clear_row_blanks_only_that_row() {
    let mut screen = ScreenBuffer::from_cells(vec![cell(b'x'); 2000]).unwrap();
    let w = Writer::new(Color::LightGray);
    w.clear_row(&mut screen, 3);
    assert_eq!(screen.get(2, 5), cell(b'x'));
    assert_eq!(screen.get(3, 0), cell(b' '));
    assert_eq!(screen.get(3, 79), cell(b' '));
    assert_eq!(screen.get(4, 0), cell(b'x'));
}

#[test]
fn writing_two_parts_equals_writing_the_whole() {
    let mut one = ScreenBuffer::new();
    let mut w1 = Writer::new(Color::LightGray);
    w1.write_str(&mut one, "hello\nwor");
    w1.write_str(&mut one, "ld\n!");
    let mut two = ScreenBuffer::new();
    let mut w2 = Writer::new(Color::LightGray);
    w2.write_str(&mut two, "hello\nworld\n!");
    assert_eq!((w1.row(), w1.column()), (w2.row(), w2.column()));
    for i in 0..SCREEN_CELLS {
        assert_eq!(one.cell(i), two.cell(i));
    }
}
