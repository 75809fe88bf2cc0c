use vstd::prelude::*;
use crate::buffer::{blank_row, BUFFER_HEIGHT, BUFFER_WIDTH};
use crate::color::{ColorCode, ScreenChar};

verus! {

/// The line-feed byte.
pub const LINE_FEED: u8 = 0x0a;

/// The glyph shown in place of a byte that cannot be displayed.
pub const UNPRINTABLE: u8 = 0xfe;

/// Printable ASCII: space through tilde.
pub open spec fn is_printable(b: u8) -> bool {
    0x20 <= b <= 0x7e
}

/// The byte that reaches the screen for an input byte: printable bytes and
/// line feeds pass through, every other byte becomes `UNPRINTABLE`.
pub open spec fn displayed(b: u8) -> u8 {
    if is_printable(b) || b == LINE_FEED {
        b
    } else {
        UNPRINTABLE
    }
}

/// The grid after scrolling up one row: row 0 is dropped, every other row
/// moves up by one, and a blank row in `color` appears at the bottom.
pub open spec fn scrolled(rows: Seq<Seq<ScreenChar>>, color: ColorCode) -> Seq<Seq<ScreenChar>> {
    rows.subrange(1, rows.len() as int).push(blank_row(color))
}

/// What a writer shows: the cursor column on the bottom row, the colour it
/// writes with, and the rows of the grid, top first.
pub struct ScreenState {
    pub column: nat,
    pub color: ColorCode,
    pub rows: Seq<Seq<ScreenChar>>,
}

impl ScreenState {
    /// The cursor is within the row and the grid has its fixed shape.
    pub open spec fn wf(self) -> bool {
        &&& self.column <= BUFFER_WIDTH
        &&& self.rows.len() == BUFFER_HEIGHT
        &&& forall|r: int| 0 <= r < BUFFER_HEIGHT ==> (#[trigger] self.rows[r]).len() == BUFFER_WIDTH
    }

    /// Scroll up and return the cursor to column 0.
    pub open spec fn new_line(self) -> ScreenState {
        ScreenState { column: 0, color: self.color, rows: scrolled(self.rows, self.color) }
    }

    /// Effect of writing one byte as it is: a line feed starts a new line;
    /// any other byte first wraps if the bottom row is full, then lands at
    /// the cursor and advances it.
    pub open spec fn put_byte(self, b: u8) -> ScreenState {
        if b == LINE_FEED {
            self.new_line()
        } else {
            let s = if self.column >= BUFFER_WIDTH {
                self.new_line()
            } else {
                self
            };
            let last = BUFFER_HEIGHT - 1;
            ScreenState {
                column: s.column + 1,
                color: s.color,
                rows: s.rows.update(
                    last,
                    s.rows[last].update(
                        s.column as int,
                        ScreenChar { ascii_character: b, color_code: s.color },
                    ),
                ),
            }
        }
    }

    /// Effect of printing a byte string: each byte, as `displayed` turns it,
    /// written in order.
    pub open spec fn put_text(self, bytes: Seq<u8>) -> ScreenState
        decreases bytes.len(),
    {
        if bytes.len() == 0 {
            self
        } else {
            self.put_text(bytes.drop_last()).put_byte(displayed(bytes.last()))
        }
    }
}

/// The cells that a run of bytes occupies when written in `color`.
pub open spec fn drawn(bytes: Seq<u8>, color: ColorCode) -> Seq<ScreenChar> {
    bytes.map_values(|b: u8| ScreenChar { ascii_character: b, color_code: color })
}

/// A run of `k` line feeds.
pub open spec fn line_feeds(k: nat) -> Seq<u8> {
    Seq::new(k, |_i: int| LINE_FEED)
}

/// Writing a byte keeps the cursor within the row and the grid in shape.
pub proof fn lemma_put_byte_wf(s: ScreenState, b: u8)
    requires
        s.wf(),
    ensures
        s.put_byte(b).wf(),
        s.put_byte(b).color == s.color,
{
    let n = s.new_line();
    assert forall|r: int| 0 <= r < BUFFER_HEIGHT implies (#[trigger] n.rows[r]).len() == BUFFER_WIDTH by {
        if r < BUFFER_HEIGHT - 1 {
            assert(n.rows[r] == s.rows[r + 1]);
        }
    }
}

/// Printing any text leaves the column within `[0, BUFFER_WIDTH]`: a row
/// never overflows.
pub proof fn lemma_column_within_row(s: ScreenState, bytes: Seq<u8>)
    requires
        s.wf(),
    ensures
        s.put_text(bytes).wf(),
        s.put_text(bytes).color == s.color,
    decreases bytes.len(),
{
    if bytes.len() > 0 {
        lemma_column_within_row(s, bytes.drop_last());
        lemma_put_byte_wf(s.put_text(bytes.drop_last()), displayed(bytes.last()));
    }
}

/// Printing the empty text changes neither the cursor nor the grid.
pub proof fn lemma_empty_text_changes_nothing(s: ScreenState)
    ensures
        s.put_text(Seq::empty()) == s,
{
}

/// Printing `a` and then `b` has exactly the effect of printing `a + b`:
/// each print's whole effect is in place before the next one begins.
pub proof fn lemma_sequential_prints(s: ScreenState, a: Seq<u8>, b: Seq<u8>)
    ensures
        s.put_text(a + b) == s.put_text(a).put_text(b),
    decreases b.len(),
{
    if b.len() == 0 {
        assert(a + b =~= a);
    } else {
        assert((a + b).drop_last() =~= a + b.drop_last());
        assert((a + b).last() == b.last());
        lemma_sequential_prints(s, a, b.drop_last());
    }
}

/// A byte that is neither printable ASCII nor a line feed is shown as the
/// `UNPRINTABLE` glyph, never as itself.
pub proof fn lemma_unprintable_shown_as_sentinel(s: ScreenState, b: u8)
    requires
        s.wf(),
        !is_printable(b),
        b != LINE_FEED,
    ensures
        s.put_text(seq![b]) == s.put_byte(UNPRINTABLE),
        s.put_text(seq![b]).column >= 1,
        s.put_text(seq![b]).rows[BUFFER_HEIGHT - 1][s.put_text(seq![b]).column - 1].ascii_character
            == UNPRINTABLE,
{
    let one = seq![b];
    assert(one.drop_last() =~= Seq::<u8>::empty());
    assert(one.last() == b);
    assert(s.put_text(one) == s.put_text(one.drop_last()).put_byte(displayed(one.last())));
    lemma_put_byte_wf(s, UNPRINTABLE);
    let w = if s.column >= BUFFER_WIDTH {
        s.new_line()
    } else {
        s
    };
    assert(w.rows[BUFFER_HEIGHT - 1].len() == BUFFER_WIDTH);
}

/// Printable bytes written from column 0 land, in order, at the start of the
/// bottom row, and the cursor ends just after them.
proof fn lemma_printable_run(s: ScreenState, bytes: Seq<u8>)
    requires
        s.wf(),
        s.column == 0,
        bytes.len() <= BUFFER_WIDTH,
        forall|i: int| 0 <= i < bytes.len() ==> is_printable(#[trigger] bytes[i]),
    ensures
        s.put_text(bytes).wf(),
        s.put_text(bytes).color == s.color,
        s.put_text(bytes).column == bytes.len(),
        s.put_text(bytes).rows[BUFFER_HEIGHT - 1].subrange(0, bytes.len() as int)
            == drawn(bytes, s.color),
    decreases bytes.len(),
{
    lemma_column_within_row(s, bytes);
    if bytes.len() == 0 {
        assert(s.rows[BUFFER_HEIGHT - 1].subrange(0, 0) =~= drawn(bytes, s.color));
    } else {
        let init = bytes.drop_last();
        assert forall|i: int| 0 <= i < init.len() implies is_printable(#[trigger] init[i]) by {
            assert(init[i] == bytes[i]);
        }
        lemma_printable_run(s, init);
        let p = s.put_text(init);
        let t = s.put_text(bytes);
        assert(is_printable(bytes[bytes.len() - 1]));
        let last = BUFFER_HEIGHT - 1;
        assert(p.rows[last].subrange(0, init.len() as int) == drawn(init, s.color));
        assert forall|i: int| 0 <= i < init.len() implies #[trigger] t.rows[last][i] == drawn(
            bytes,
            s.color,
        )[i] by {
            assert(t.rows[last][i] == p.rows[last][i]);
            assert(p.rows[last][i] == p.rows[last].subrange(0, init.len() as int)[i]);
        }
        assert(t.rows[last].subrange(0, bytes.len() as int) =~= drawn(bytes, s.color));
    }
}

/// A printable line shorter than a row, printed from column 0, fills the
/// start of the bottom row in order; after a following line feed the same
/// cells stand at the start of the row above, and the cursor is back at 0.
pub proof fn lemma_printable_line(s: ScreenState, bytes: Seq<u8>)
    requires
        s.wf(),
        s.column == 0,
        bytes.len() < BUFFER_WIDTH,
        forall|i: int| 0 <= i < bytes.len() ==> is_printable(#[trigger] bytes[i]),
    ensures
        s.put_text(bytes).column == bytes.len(),
        s.put_text(bytes).rows[BUFFER_HEIGHT - 1].subrange(0, bytes.len() as int)
            == drawn(bytes, s.color),
        s.put_text(bytes.push(LINE_FEED)).column == 0,
        s.put_text(bytes.push(LINE_FEED)).rows[BUFFER_HEIGHT - 2].subrange(0, bytes.len() as int)
            == drawn(bytes, s.color),
{
    lemma_printable_run(s, bytes);
    assert(bytes.push(LINE_FEED).drop_last() =~= bytes);
    let t = s.put_text(bytes);
    assert(t.new_line().rows[BUFFER_HEIGHT - 2] == t.rows[BUFFER_HEIGHT - 1]);
}

/// A full row of printable bytes followed by one more printable byte, from
/// column 0: the first `BUFFER_WIDTH` fill a row that has moved up by one,
/// and the extra byte starts the new bottom row.
pub proof fn lemma_wrap_before_overflow(s: ScreenState, bytes: Seq<u8>)
    requires
        s.wf(),
        s.column == 0,
        bytes.len() == BUFFER_WIDTH + 1,
        forall|i: int| 0 <= i < bytes.len() ==> is_printable(#[trigger] bytes[i]),
    ensures
        s.put_text(bytes).column == 1,
        s.put_text(bytes).rows[BUFFER_HEIGHT - 1][0] == (ScreenChar {
            ascii_character: bytes[BUFFER_WIDTH as int],
            color_code: s.color,
        }),
        s.put_text(bytes).rows[BUFFER_HEIGHT - 2] == drawn(bytes.subrange(0, BUFFER_WIDTH as int), s.color),
{
    let init = bytes.drop_last();
    assert(init =~= bytes.subrange(0, BUFFER_WIDTH as int));
    assert forall|i: int| 0 <= i < init.len() implies is_printable(#[trigger] init[i]) by {
        assert(init[i] == bytes[i]);
    }
    lemma_printable_run(s, init);
    let p = s.put_text(init);
    assert(is_printable(bytes[BUFFER_WIDTH as int]));
    assert(p.rows[BUFFER_HEIGHT - 1].subrange(0, BUFFER_WIDTH as int) =~= p.rows[BUFFER_HEIGHT - 1]);
}

/// After `k` line feeds every row has moved up by `k`: the top `k` rows are
/// gone, the rest keep their order, and blank rows fill the bottom.
pub proof fn lemma_line_feeds_scroll(s: ScreenState, k: nat)
    requires
        s.wf(),
    ensures
        s.put_text(line_feeds(k)).wf(),
        k > 0 ==> s.put_text(line_feeds(k)).column == 0,
        forall|r: int|
            0 <= r < BUFFER_HEIGHT ==> #[trigger] s.put_text(line_feeds(k)).rows[r] == if r + k
                < BUFFER_HEIGHT {
                s.rows[r + k]
            } else {
                blank_row(s.color)
            },
    decreases k,
{
    lemma_column_within_row(s, line_feeds(k));
    if k == 0 {
        assert(line_feeds(0) =~= Seq::<u8>::empty());
    } else {
        assert(line_feeds(k).drop_last() =~= line_feeds((k - 1) as nat));
        lemma_line_feeds_scroll(s, (k - 1) as nat);
        let p = s.put_text(line_feeds((k - 1) as nat));
        let t = s.put_text(line_feeds(k));
        assert(t == p.new_line());
        assert forall|r: int| 0 <= r < BUFFER_HEIGHT implies #[trigger] t.rows[r] == if r + k
            < BUFFER_HEIGHT {
            s.rows[r + k]
        } else {
            blank_row(s.color)
        } by {
            if r < BUFFER_HEIGHT - 1 {
                assert(t.rows[r] == p.rows[r + 1]);
            }
        }
    }
}

} // verus!
