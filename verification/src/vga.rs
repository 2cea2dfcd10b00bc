//! VGA text mode: an 80x25 grid of character cells, written by a cursor that
//! wraps at the right edge and scrolls at the bottom.

use vstd::prelude::*;
use vstd::string::StringSliceAdditionalSpecFns;

verus! {

/// Columns of the text screen.
pub const BUFFER_WIDTH: usize = 80;

/// Rows of the text screen.
pub const BUFFER_HEIGHT: usize = 25;

/// Cells of the text screen, row after row.
pub const SCREEN_CELLS: usize = 2000;

/// The foreground colours the console writes with.
#[derive(Clone, Copy, Debug, PartialEq, Eq)]
pub enum Color {
    LightGray,
}

/// The VGA attribute byte of a colour.
pub open spec fn color_code(c: Color) -> u8 {
    match c {
        Color::LightGray => 7,
    }
}

impl Color {
    /// The VGA attribute byte of the colour.
    pub fn code(self) -> (b: u8)
        ensures
            b == color_code(self),
    {
        match self {
            Color::LightGray => 7,
        }
    }
}

/// One cell of the text screen: a code page 437 character and its attribute byte.
#[derive(Clone, Copy, Debug, PartialEq, Eq)]
pub struct ScreenChar {
    pub ascii: u8,
    pub color: u8,
}

/// The cell holding `ascii` in the given colour.
pub open spec fn char_cell(ascii: u8, color: Color) -> ScreenChar {
    ScreenChar { ascii, color: color_code(color) }
}

/// A cell of zero bytes.
pub open spec fn zero_cell() -> ScreenChar {
    ScreenChar { ascii: 0, color: 0 }
}

/// A space in the given colour.
pub open spec fn blank(color: Color) -> ScreenChar {
    ScreenChar { ascii: 0x20, color: color_code(color) }
}

/// The index of the cell at `row`, `column` in the row-major cell sequence.
pub open spec fn cell_index(row: int, column: int) -> int {
    row * 80 + column
}

/// The screen filled with spaces of the given colour.
pub open spec fn blank_screen(color: Color) -> Seq<ScreenChar> {
    Seq::new(2000, |i: int| blank(color))
}

/// The cells with row `row` filled with spaces of the given colour.
pub open spec fn with_row_cleared(cells: Seq<ScreenChar>, row: int, color: Color) -> Seq<
    ScreenChar,
> {
    Seq::new(
        cells.len(),
        |i: int|
            if row * 80 <= i < row * 80 + 80 {
                blank(color)
            } else {
                cells[i]
            },
    )
}

/// The screen moved up by one row, with a blank bottom row.
pub open spec fn scrolled(cells: Seq<ScreenChar>, color: Color) -> Seq<ScreenChar> {
    Seq::new(
        2000,
        |i: int|
            if i < 1920 {
                cells[i + 80]
            } else {
                blank(color)
            },
    )
}

/// Moving to the next row: one row down, or a scroll when on the bottom row.
pub open spec fn line_feed(row: int, cells: Seq<ScreenChar>, color: Color) -> (int, Seq<ScreenChar>) {
    if row < 24 {
        (row + 1, cells)
    } else {
        (row, scrolled(cells, color))
    }
}

/// A byte the writer can show: a newline or a printable ASCII character.
pub open spec fn is_writable(b: u8) -> bool {
    b == 10 || 0x20 <= b <= 0x7e
}

/// Every byte of `bytes` is one the writer can show.
pub open spec fn all_writable(bytes: Seq<u8>) -> bool {
    forall|i: int| 0 <= i < bytes.len() ==> is_writable(#[trigger] bytes[i])
}

/// The row, column and cells after writing one byte: a newline moves to the start
/// of the next line; a character goes to the next line first when the row is
/// full, is then stored at the cursor, and moves the cursor one column right.
pub open spec fn put_byte(row: int, column: int, cells: Seq<ScreenChar>, color: Color, byte: u8) -> (
    int,
    int,
    Seq<ScreenChar>,
) {
    if byte == 10 {
        let (r, c) = line_feed(row, cells, color);
        (r, 0, c)
    } else {
        let (r, col, c) = if column == 80 {
            let (r2, c2) = line_feed(row, cells, color);
            (r2, 0int, c2)
        } else {
            (row, column, cells)
        };
        (r, col + 1, c.update(cell_index(r, col), char_cell(byte, color)))
    }
}

/// The row, column and cells after writing `bytes` one after another.
pub open spec fn put_bytes(
    row: int,
    column: int,
    cells: Seq<ScreenChar>,
    color: Color,
    bytes: Seq<u8>,
) -> (int, int, Seq<ScreenChar>)
    decreases bytes.len(),
{
    if bytes.len() == 0 {
        (row, column, cells)
    } else {
        let (r, c, s) = put_bytes(row, column, cells, color, bytes.drop_last());
        put_byte(r, c, s, color, bytes.last())
    }
}

/// The memory of the text screen: 2000 cells, row after row.
pub struct ScreenBuffer {
    cells: Vec<ScreenChar>,
}

impl View for ScreenBuffer {
    type V = Seq<ScreenChar>;

    closed spec fn view(&self) -> Seq<ScreenChar> {
        self.cells@
    }
}

impl ScreenBuffer {
    /// A screen whose cells are all zero bytes.
    pub fn new() -> (s: ScreenBuffer)
        ensures
            s@.len() == SCREEN_CELLS,
            forall|i: int| 0 <= i < SCREEN_CELLS ==> #[trigger] s@[i] == zero_cell(),
    {
        let mut cells: Vec<ScreenChar> = Vec::new();
        let mut i: usize = 0;
        while i < SCREEN_CELLS
            invariant
                i <= SCREEN_CELLS,
                cells@.len() == i,
                forall|j: int| 0 <= j < i ==> #[trigger] cells@[j] == zero_cell(),
            decreases SCREEN_CELLS - i,
        {
            cells.push(ScreenChar { ascii: 0, color: 0 });
            i = i + 1;
        }
        ScreenBuffer { cells }
    }

    /// The screen holding `cells`, when there are exactly 2000 of them.
    pub fn from_cells(cells: Vec<ScreenChar>) -> (s: Option<ScreenBuffer>)
        ensures
            s.is_some() <==> cells@.len() == SCREEN_CELLS,
            s.is_some() ==> s.unwrap()@ == cells@,
    {
        if cells.len() == SCREEN_CELLS {
            Some(ScreenBuffer { cells })
        } else {
            None
        }
    }

    /// The cell at `index` in row-major order.
    pub fn cell(&self, index: usize) -> (c: ScreenChar)
        requires
            index < self@.len(),
        ensures
            c == self@[index as int],
    {
        self.cells[index]
    }

    /// The cell at `row`, `column`.
    pub fn get(&self, row: usize, column: usize) -> (c: ScreenChar)
        requires
            self@.len() == SCREEN_CELLS,
            row < BUFFER_HEIGHT,
            column < BUFFER_WIDTH,
        ensures
            c == self@[cell_index(row as int, column as int)],
    {
        self.cells[row * BUFFER_WIDTH + column]
    }
}

/// Stores `ascii` in `color` at `row`, `column`.
fn write_at(screen: &mut ScreenBuffer, row: usize, column: usize, ascii: u8, color: Color)
    requires
        old(screen)@.len() == SCREEN_CELLS,
        row < BUFFER_HEIGHT,
        column < BUFFER_WIDTH,
    ensures
        final(screen)@ == old(screen)@.update(
            cell_index(row as int, column as int),
            char_cell(ascii, color),
        ),
{
    screen.cells.set(row * BUFFER_WIDTH + column, ScreenChar { ascii, color: color.code() });
}

/// A cursor over the text screen that writes in one colour.
pub struct Writer {
    column: usize,
    row: usize,
    color: Color,
}

impl Writer {
    /// The cursor's row.
    pub closed spec fn row_at(&self) -> int {
        self.row as int
    }

    /// The cursor's column; 80 once the row is full.
    pub closed spec fn column_at(&self) -> int {
        self.column as int
    }

    /// The colour the writer writes in.
    pub closed spec fn color_of(&self) -> Color {
        self.color
    }

    /// The cursor is on the screen, or just past the end of a row.
    #[verifier::type_invariant]
    spec fn wf(&self) -> bool {
        self.row < BUFFER_HEIGHT && self.column <= BUFFER_WIDTH
    }

    /// A writer at the top-left corner.
    pub fn new(color: Color) -> (w: Writer)
        ensures
            w.row_at() == 0,
            w.column_at() == 0,
            w.color_of() == color,
    {
        Writer { column: 0, row: 0, color }
    }

    /// The cursor's row.
    pub fn row(&self) -> (r: usize)
        ensures
            r == self.row_at(),
            r < BUFFER_HEIGHT,
    {
        proof {
            use_type_invariant(self);
        }
        self.row
    }

    /// The cursor's column.
    pub fn column(&self) -> (c: usize)
        ensures
            c == self.column_at(),
            c <= BUFFER_WIDTH,
    {
        proof {
            use_type_invariant(self);
        }
        self.column
    }

    /// Fills the screen with spaces and moves the cursor to the top-left corner.
    pub fn clear(&mut self, screen: &mut ScreenBuffer)
        requires
            old(screen)@.len() == SCREEN_CELLS,
        ensures
            final(self).row_at() == 0,
            final(self).column_at() == 0,
            final(self).color_of() == old(self).color_of(),
            final(screen)@ == blank_screen(old(self).color_of()),
    {
        proof {
            use_type_invariant(&*self);
        }
        let ghost start = screen@;
        for row in 0..BUFFER_HEIGHT
            invariant
                self.color == old(self).color,
                screen@.len() == SCREEN_CELLS,
                forall|i: int|
                    0 <= i < SCREEN_CELLS ==> #[trigger] screen@[i] == if i < row * 80 {
                        blank(self.color)
                    } else {
                        start[i]
                    },
        {
            self.clear_row(screen, row);
        }
        self.column = 0;
        self.row = 0;
        assert(screen@ =~= blank_screen(self.color));
    }

    /// Fills row `row` with spaces.
    pub fn clear_row(&self, screen: &mut ScreenBuffer, row: usize)
        requires
            old(screen)@.len() == SCREEN_CELLS,
            row < BUFFER_HEIGHT,
        ensures
            final(screen)@ == with_row_cleared(old(screen)@, row as int, self.color_of()),
    {
        let ghost start = screen@;
        for column in 0..BUFFER_WIDTH
            invariant
                row < BUFFER_HEIGHT,
                screen@.len() == SCREEN_CELLS,
                forall|i: int|
                    0 <= i < SCREEN_CELLS ==> #[trigger] screen@[i] == if row * 80 <= i < row * 80
                        + column {
                        blank(self.color)
                    } else {
                        start[i]
                    },
        {
            write_at(screen, row, column, 0x20u8, self.color);
        }
        assert(screen@ =~= with_row_cleared(start, row as int, self.color));
    }

    /// Moves to the start of the next row, scrolling the screen up by one row when
    /// the cursor is on the bottom row.
    pub fn new_line(&mut self, screen: &mut ScreenBuffer)
        requires
            old(screen)@.len() == SCREEN_CELLS,
        ensures
            final(self).row_at() < BUFFER_HEIGHT,
            final(self).color_of() == old(self).color_of(),
            final(self).column_at() == 0,
            (final(self).row_at(), final(screen)@) == line_feed(
                old(self).row_at(),
                old(screen)@,
                old(self).color_of(),
            ),
    {
        proof {
            use_type_invariant(&*self);
        }
        if self.row < BUFFER_HEIGHT - 1 {
            self.row += 1;
        } else {
            let ghost start = screen@;
            for row in 1..BUFFER_HEIGHT
                invariant
                    screen@.len() == SCREEN_CELLS,
                    forall|i: int|
                        0 <= i < SCREEN_CELLS ==> #[trigger] screen@[i] == if i < (row - 1) * 80 {
                            start[i + 80]
                        } else {
                            start[i]
                        },
            {
                for column in 0..BUFFER_WIDTH
                    invariant
                        1 <= row < BUFFER_HEIGHT,
                        screen@.len() == SCREEN_CELLS,
                        forall|i: int|
                            0 <= i < SCREEN_CELLS ==> #[trigger] screen@[i] == if i < (row - 1) * 80
                                + column {
                                start[i + 80]
                            } else {
                                start[i]
                            },
                {
                    let character = screen.cells[row * BUFFER_WIDTH + column];
                    screen.cells.set((row - 1) * BUFFER_WIDTH + column, character);
                }
            }
            self.clear_row(screen, BUFFER_HEIGHT - 1);
            assert(screen@ =~= scrolled(start, self.color));
        }
        self.column = 0;
    }

    /// Writes one byte: a newline moves to the next row; a printable character is
    /// stored at the cursor, after moving to the next row when the current one is
    /// full.
    pub fn write_byte(&mut self, screen: &mut ScreenBuffer, byte: u8)
        requires
            old(screen)@.len() == SCREEN_CELLS,
            is_writable(byte),
        ensures
            final(self).row_at() < BUFFER_HEIGHT,
            final(self).column_at() <= BUFFER_WIDTH,
            final(self).color_of() == old(self).color_of(),
            final(screen)@.len() == SCREEN_CELLS,
            (final(self).row_at(), final(self).column_at(), final(screen)@) == put_byte(
                old(self).row_at(),
                old(self).column_at(),
                old(screen)@,
                old(self).color_of(),
                byte,
            ),
    {
        proof {
            use_type_invariant(&*self);
        }
        if byte == 10u8 {
            self.new_line(screen);
        } else {
            if self.column == BUFFER_WIDTH {
                self.new_line(screen);
            }
            write_at(screen, self.row, self.column, byte, self.color);
            self.column += 1;
        }
        proof {
            use_type_invariant(&*self);
        }
    }

    /// Writes the bytes of `text` one after another.
    pub fn write_str(&mut self, screen: &mut ScreenBuffer, text: &str)
        requires
            old(screen)@.len() == SCREEN_CELLS,
            all_writable(text.spec_bytes()),
        ensures
            final(self).row_at() < BUFFER_HEIGHT,
            final(self).column_at() <= BUFFER_WIDTH,
            final(self).color_of() == old(self).color_of(),
            final(screen)@.len() == SCREEN_CELLS,
            (final(self).row_at(), final(self).column_at(), final(screen)@) == put_bytes(
                old(self).row_at(),
                old(self).column_at(),
                old(screen)@,
                old(self).color_of(),
                text.spec_bytes(),
            ),
    {
        let bytes = text.as_bytes();
        let mut i: usize = 0;
        while i < bytes.len()
            invariant
                bytes@ == text.spec_bytes(),
                all_writable(bytes@),
                i <= bytes@.len(),
                self.color == old(self).color,
                screen@.len() == SCREEN_CELLS,
                (self.row_at(), self.column_at(), screen@) == put_bytes(
                    old(self).row_at(),
                    old(self).column_at(),
                    old(screen)@,
                    self.color,
                    bytes@.take(i as int),
                ),
            decreases bytes@.len() - i,
        {
            let byte: u8 = bytes[i];
            assert(is_writable(bytes@[i as int]));
            assert(bytes@.take(i as int + 1).drop_last() =~= bytes@.take(i as int));
            self.write_byte(screen, byte);
            i = i + 1;
        }
        assert(bytes@.take(i as int) =~= bytes@);
        proof {
            use_type_invariant(&*self);
        }
    }
}

/// Fills the screen with spaces in the console writer's colour and moves the
/// writer to the top-left corner.
pub fn clear(writer: &mut Writer, screen: &mut ScreenBuffer)
    requires
        old(screen)@.len() == SCREEN_CELLS,
    ensures
        final(writer).row_at() == 0,
        final(writer).column_at() == 0,
        final(writer).color_of() == old(writer).color_of(),
        final(screen)@ == blank_screen(old(writer).color_of()),
{
    writer.clear(screen);
}

/// Writes `text` with the console writer, continuing where the previous text
/// ended, so that the screen shows the log as it grows.
pub fn write_fmt(writer: &mut Writer, screen: &mut ScreenBuffer, text: &str)
    requires
        old(screen)@.len() == SCREEN_CELLS,
        all_writable(text.spec_bytes()),
    ensures
        final(writer).row_at() < BUFFER_HEIGHT,
        final(writer).column_at() <= BUFFER_WIDTH,
        final(writer).color_of() == old(writer).color_of(),
        final(screen)@.len() == SCREEN_CELLS,
        (final(writer).row_at(), final(writer).column_at(), final(screen)@) == put_bytes(
            old(writer).row_at(),
            old(writer).column_at(),
            old(screen)@,
            old(writer).color_of(),
            text.spec_bytes(),
        ),
{
    writer.write_str(screen, text);
}

/// Writing `a` and then `b` leaves the cursor and screen where writing `a + b` does.
pub proof fn lemma_put_bytes_concat(
    row: int,
    column: int,
    cells: Seq<ScreenChar>,
    color: Color,
    a: Seq<u8>,
    b: Seq<u8>,
)
    ensures
        put_bytes(row, column, cells, color, a + b) == ({
            let (r, c, s) = put_bytes(row, column, cells, color, a);
            put_bytes(r, c, s, color, b)
        }),
    decreases b.len(),
{
    if b.len() == 0 {
        assert(a + b =~= a);
    } else {
        assert((a + b).drop_last() =~= a + b.drop_last());
        assert((a + b).last() == b.last());
        lemma_put_bytes_concat(row, column, cells, color, a, b.drop_last());
    }
}

/// The cells after writing `bytes` on one row from `column`: the bytes in order,
/// everything else as before.
pub open spec fn text_on_row(
    cells: Seq<ScreenChar>,
    row: int,
    column: int,
    color: Color,
    bytes: Seq<u8>,
) -> Seq<ScreenChar> {
    Seq::new(
        cells.len(),
        |i: int|
            if cell_index(row, column) <= i < cell_index(row, column) + bytes.len() {
                char_cell(bytes[i - cell_index(row, column)], color)
            } else {
                cells[i]
            },
    )
}

/// Printable characters without a newline that fit on the current row are
/// stored side by side from the cursor on, and change no other cell; the
/// cursor ends just after them.
pub proof fn lemma_text_fits_on_row(
    row: int,
    column: int,
    cells: Seq<ScreenChar>,
    color: Color,
    bytes: Seq<u8>,
)
    requires
        cells.len() == SCREEN_CELLS,
        0 <= row < BUFFER_HEIGHT,
        0 <= column,
        column + bytes.len() <= BUFFER_WIDTH,
        forall|k: int| 0 <= k < bytes.len() ==> 0x20 <= #[trigger] bytes[k] <= 0x7e,
    ensures
        put_bytes(row, column, cells, color, bytes) == (
            row,
            column + bytes.len(),
            text_on_row(cells, row, column, color, bytes),
        ),
    decreases bytes.len(),
{
    if bytes.len() == 0 {
        assert(text_on_row(cells, row, column, color, bytes) =~= cells);
    } else {
        let front = bytes.drop_last();
        assert forall|k: int| 0 <= k < front.len() implies 0x20 <= #[trigger] front[k] <= 0x7e by {
            assert(front[k] == bytes[k]);
        }
        lemma_text_fits_on_row(row, column, cells, color, front);
        let last: u8 = bytes.last();
        assert(0x20 <= bytes[bytes.len() - 1] <= 0x7e);
        assert(text_on_row(cells, row, column, color, front).update(
            cell_index(row, column + front.len()),
            char_cell(last, color),
        ) =~= text_on_row(cells, row, column, color, bytes));
    }
}

/// A line feed on the bottom row moves every row up by one and leaves a blank
/// bottom row; on any other row it moves the cursor down and changes no cell.
pub proof fn lemma_line_feed_scrolls(row: int, cells: Seq<ScreenChar>, color: Color, r: int, c: int)
    requires
        cells.len() == SCREEN_CELLS,
        0 <= row < BUFFER_HEIGHT,
        0 <= r < BUFFER_HEIGHT,
        0 <= c < BUFFER_WIDTH,
    ensures
        row < 24 ==> line_feed(row, cells, color) == (row + 1, cells),
        row == 24 && r < 24 ==> line_feed(row, cells, color).1[cell_index(r, c)] == cells[cell_index(
            r + 1,
            c,
        )],
        row == 24 && r == 24 ==> line_feed(row, cells, color).1[cell_index(r, c)] == blank(color),
        line_feed(row, cells, color).0 == if row < 24 {
            row + 1
        } else {
            row
        },
        line_feed(row, cells, color).1.len() == SCREEN_CELLS,
{
}

/// A character written when the row is full goes to the start of the next row;
/// on the bottom row the screen first moves up one row, leaving the character
/// alone at the start of a blank bottom row. A newline on the bottom row moves
/// the screen up the same way and leaves the cursor at the start of that row.
pub proof fn lemma_full_row_wraps(row: int, cells: Seq<ScreenChar>, color: Color, b: u8)
    requires
        cells.len() == SCREEN_CELLS,
        0 <= row < BUFFER_HEIGHT,
        0x20 <= b <= 0x7e,
    ensures
        row < 24 ==> put_byte(row, 80, cells, color, b) == (
            row + 1,
            1int,
            cells.update(cell_index(row + 1, 0), char_cell(b, color)),
        ),
        row == 24 ==> put_byte(row, 80, cells, color, b).0 == 24,
        row == 24 ==> put_byte(row, 80, cells, color, b).1 == 1,
        row == 24 ==> put_byte(row, 80, cells, color, b).2.len() == SCREEN_CELLS,
        row == 24 ==> forall|i: int|
            0 <= i < 1920 ==> #[trigger] put_byte(row, 80, cells, color, b).2[i] == cells[i + 80],
        row == 24 ==> put_byte(row, 80, cells, color, b).2[1920] == char_cell(b, color),
        row == 24 ==> forall|i: int|
            1921 <= i < 2000 ==> #[trigger] put_byte(row, 80, cells, color, b).2[i] == blank(color),
        forall|c: int|
            0 <= c <= 80 ==> #[trigger] put_byte(24, c, cells, color, 10u8).0 == 24 && put_byte(
                24,
                c,
                cells,
                color,
                10u8,
            ).1 == 0 && put_byte(24, c, cells, color, 10u8).2 == Seq::new(
                2000,
                |i: int|
                    if i < 1920 {
                        cells[i + 80]
                    } else {
                        blank(color)
                    },
            ),
{
    if row == 24 {
        let after = put_byte(row, 80, cells, color, b).2;
        assert forall|i: int| 0 <= i < 1920 implies #[trigger] after[i] == cells[i + 80] by {}
        assert forall|i: int| 1921 <= i < 2000 implies #[trigger] after[i] == blank(color) by {}
    }
    assert forall|c: int| 0 <= c <= 80 implies #[trigger] put_byte(24, c, cells, color, 10u8).0 == 24
        && put_byte(24, c, cells, color, 10u8).1 == 0 && put_byte(24, c, cells, color, 10u8).2
        == Seq::new(
        2000,
        |i: int|
            if i < 1920 {
                cells[i + 80]
            } else {
                blank(color)
            },
    ) by {
        assert(put_byte(24, c, cells, color, 10u8).2 =~= Seq::new(
            2000,
            |i: int|
                if i < 1920 {
                    cells[i + 80]
                } else {
                    blank(color)
                },
        ));
    }
}

} // verus!
