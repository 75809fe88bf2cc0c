use vstd::prelude::*;
use vstd::string::StringSliceAdditionalSpecFns;
use crate::buffer::{blank, blank_row, Buffer, BUFFER_HEIGHT, BUFFER_WIDTH};
use crate::color::{ColorCode, ScreenChar};
use crate::screen::{displayed, ScreenState, LINE_FEED, UNPRINTABLE};

verus! {

/// Writes text to the bottom row of a buffer, wrapping and scrolling up as
/// rows fill.
pub struct Writer {
    column_position: usize,
    color_code: ColorCode,
    buffer: &'static mut Buffer,
}

impl Writer {
    /// The cursor never goes past the end of the bottom row.
    #[verifier::type_invariant]
    spec fn cursor_in_row(&self) -> bool {
        self.column_position <= BUFFER_WIDTH
    }
}

impl View for Writer {
    type V = ScreenState;

    closed spec fn view(&self) -> ScreenState {
        ScreenState { column: self.column_position as nat, color: self.color_code, rows: (*self.buffer)@ }
    }
}

impl Writer {
    /// A writer in `color_code` that starts at column 0 of the bottom row of `buffer`.
    pub fn new(color_code: ColorCode, buffer: &'static mut Buffer) -> (r: Writer)
        ensures
            r@ == (ScreenState { column: 0, color: color_code, rows: old(buffer)@ }),
            r@.wf(),
    {
        proof {
            buffer.lemma_shape();
        }
        Writer { column_position: 0, color_code, buffer }
    }

    /// The cursor column on the bottom row.
    pub fn column_position(&self) -> (r: usize)
        ensures
            r == self@.column,
    {
        self.column_position
    }

    /// The colour every written cell gets.
    pub fn color_code(&self) -> (r: ColorCode)
        ensures
            r == self@.color,
    {
        self.color_code
    }

    /// The cell at (`row`, `col`), read with a volatile load.
    pub fn read_char(&self, row: usize, col: usize) -> (r: ScreenChar)
        requires
            row < BUFFER_HEIGHT,
            col < BUFFER_WIDTH,
        ensures
            r == self@.rows[row as int][col as int],
    {
        self.buffer.read(row, col)
    }

    /// Writes one byte as it is: a line feed starts a new line, any other
    /// byte is stored at the cursor, after a wrap if the row is full.
    pub fn write_byte(&mut self, byte: u8)
        ensures
            final(self)@.wf(),
            final(self)@ == old(self)@.put_byte(byte),
    {
        proof {
            use_type_invariant(&*self);
            self.buffer.lemma_shape();
        }
        if byte == LINE_FEED {
            self.new_line();
        } else {
            if self.column_position >= BUFFER_WIDTH {
                self.new_line();
            }
            let row = BUFFER_HEIGHT - 1;
            let col = self.column_position;
            let color_code = self.color_code;
            self.buffer.write(row, col, ScreenChar { ascii_character: byte, color_code });
            self.column_position = self.column_position + 1;
            proof {
                self.buffer.lemma_shape();
            }
        }
    }

    /// Prints `s` byte by byte; bytes that are neither printable ASCII nor a
    /// line feed are shown as `UNPRINTABLE`.
    pub fn write_string(&mut self, s: &str)
        ensures
            final(self)@.wf(),
            final(self)@ == old(self)@.put_text(s.spec_bytes()),
    {
        proof {
            use_type_invariant(&*self);
            self.buffer.lemma_shape();
        }
        let bytes = s.as_bytes();
        let mut i: usize = 0;
        while i < bytes.len()
            invariant
                i <= bytes@.len(),
                bytes@ == s.spec_bytes(),
                self@.wf(),
                self@ == old(self)@.put_text(bytes@.subrange(0, i as int)),
            decreases bytes@.len() - i,
        {
            let byte = bytes[i];
            let shown = if (0x20u8 <= byte && byte <= 0x7eu8) || byte == LINE_FEED {
                byte
            } else {
                UNPRINTABLE
            };
            assert(shown == displayed(byte));
            self.write_byte(shown);
            assert(bytes@.subrange(0, i + 1).drop_last() =~= bytes@.subrange(0, i as int));
            i = i + 1;
        }
        assert(bytes@.subrange(0, i as int) =~= bytes@);
    }

    /// Moves every row up by one, dropping the top row, blanks the bottom
    /// row and returns the cursor to column 0.
    fn new_line(&mut self)
        ensures
            final(self)@ == old(self)@.new_line(),
    {
        proof {
            use_type_invariant(&*self);
            self.buffer.lemma_shape();
        }
        let ghost start = self@;
        let mut row: usize = 1;
        while row < BUFFER_HEIGHT
            invariant
                1 <= row <= BUFFER_HEIGHT,
                self@.wf(),
                start.wf(),
                self@.column == start.column,
                self@.color == start.color,
                forall|r: int| 0 <= r < row - 1 ==> #[trigger] self@.rows[r] == start.rows[r + 1],
                forall|r: int| row - 1 <= r < BUFFER_HEIGHT ==> #[trigger] self@.rows[r] == start.rows[r],
            decreases BUFFER_HEIGHT - row,
        {
            let mut col: usize = 0;
            while col < BUFFER_WIDTH
                invariant
                    1 <= row < BUFFER_HEIGHT,
                    col <= BUFFER_WIDTH,
                    self@.wf(),
                    start.wf(),
                    self@.column == start.column,
                    self@.color == start.color,
                    forall|r: int| 0 <= r < row - 1 ==> #[trigger] self@.rows[r] == start.rows[r + 1],
                    forall|r: int| row - 1 < r < BUFFER_HEIGHT ==> #[trigger] self@.rows[r] == start.rows[r],
                    forall|c: int| 0 <= c < col ==> #[trigger] self@.rows[row - 1][c] == start.rows[row as int][c],
                    forall|c: int| col <= c < BUFFER_WIDTH ==> #[trigger] self@.rows[row - 1][c] == start.rows[row - 1][c],
                decreases BUFFER_WIDTH - col,
            {
                let character = self.buffer.read(row, col);
                self.buffer.write(row - 1, col, character);
                proof {
                    self.buffer.lemma_shape();
                }
                col = col + 1;
            }
            assert(self@.rows[row - 1] =~= start.rows[row as int]);
            row = row + 1;
        }
        self.clear_row(BUFFER_HEIGHT - 1);
        self.column_position = 0;
        assert(self@.rows =~= start.new_line().rows);
    }

    /// Overwrites every cell of `row` with a blank in the writer's colour.
    fn clear_row(&mut self, row: usize)
        requires
            row < BUFFER_HEIGHT,
        ensures
            final(self)@ == (ScreenState {
                rows: old(self)@.rows.update(row as int, blank_row(old(self)@.color)),
                ..old(self)@
            }),
    {
        proof {
            use_type_invariant(&*self);
            self.buffer.lemma_shape();
        }
        let ghost start = self@;
        let blank_char = ScreenChar { ascii_character: 0x20u8, color_code: self.color_code };
        let mut col: usize = 0;
        while col < BUFFER_WIDTH
            invariant
                row < BUFFER_HEIGHT,
                col <= BUFFER_WIDTH,
                blank_char == blank(start.color),
                self@.wf(),
                start.wf(),
                self@.column == start.column,
                self@.color == start.color,
                forall|r: int| 0 <= r < BUFFER_HEIGHT && r != row ==> #[trigger] self@.rows[r] == start.rows[r],
                forall|c: int| 0 <= c < col ==> #[trigger] self@.rows[row as int][c] == blank_char,
                forall|c: int| col <= c < BUFFER_WIDTH ==> #[trigger] self@.rows[row as int][c] == start.rows[row as int][c],
            decreases BUFFER_WIDTH - col,
        {
            self.buffer.write(row, col, blank_char);
            proof {
                self.buffer.lemma_shape();
            }
            col = col + 1;
        }
        assert(self@.rows[row as int] =~= blank_row(start.color));
        assert(self@.rows =~= start.rows.update(row as int, blank_row(start.color)));
    }
}

/// Prints already formatted text through `writer`; the caller holds the
/// writer exclusively for the whole call.
pub fn _print(writer: &mut Writer, text: &str)
    ensures
        final(writer)@.wf(),
        final(writer)@ == old(writer)@.put_text(text.spec_bytes()),
{
    writer.write_string(text);
}

} // verus!
