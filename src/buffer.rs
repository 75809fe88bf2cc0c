use vstd::prelude::*;
use volatile::Volatile;
use crate::color::{ColorCode, ScreenChar};

verus! {

/// Number of text rows of the display.
pub const BUFFER_HEIGHT: usize = 25;

/// Number of text columns of the display.
pub const BUFFER_WIDTH: usize = 80;

/// volatile::Volatile, a value reached only through volatile loads and stores.
#[verifier::external_type_specification]
#[verifier::external_body]
#[verifier::reject_recursive_types(T)]
pub struct ExVolatile<T: Copy>(Volatile<T>);

/// The two bytes (glyph, attribute) that a display cell holds.
pub uninterp spec fn cell_bytes(v: Volatile<[u8; 2]>) -> Seq<u8>;

/// Relies on volatile::Volatile::read: a volatile load of the value held.
#[verifier::external_body]
fn cell_read(v: &Volatile<[u8; 2]>) -> (r: [u8; 2])
    ensures
        r@ == cell_bytes(*v),
{
    v.read()
}

/// Relies on volatile::Volatile::write: a volatile store that replaces the value
/// held; it never panics.
#[verifier::external_body]
fn cell_write(v: &mut Volatile<[u8; 2]>, value: [u8; 2])
    ensures
        cell_bytes(*final(v)) == value@,
    no_unwind
{
    v.write(value)
}

/// Relies on volatile::Volatile::new: every cell of the grid holds `value`.
#[verifier::external_body]
fn cells_filled(value: [u8; 2]) -> (r: [[Volatile<[u8; 2]>; BUFFER_WIDTH]; BUFFER_HEIGHT])
    ensures
        forall|row: int, col: int|
            0 <= row < BUFFER_HEIGHT && 0 <= col < BUFFER_WIDTH ==> #[trigger] cell_bytes(
                r[row][col],
            ) == value@,
{
    core::array::from_fn(|_| core::array::from_fn(|_| Volatile::new(value)))
}

/// The display cell that two bytes (glyph first, attribute second) encode.
pub open spec fn char_of(bytes: Seq<u8>) -> ScreenChar {
    ScreenChar { ascii_character: bytes[0], color_code: ColorCode(bytes[1]) }
}

/// A blank cell in the given colour.
pub open spec fn blank(color: ColorCode) -> ScreenChar {
    ScreenChar { ascii_character: 0x20, color_code: color }
}

/// A row of blank cells in the given colour.
pub open spec fn blank_row(color: ColorCode) -> Seq<ScreenChar> {
    Seq::new(BUFFER_WIDTH as nat, |_col: int| blank(color))
}

/// A grid of blank cells in the given colour.
pub open spec fn blank_grid(color: ColorCode) -> Seq<Seq<ScreenChar>> {
    Seq::new(BUFFER_HEIGHT as nat, |_row: int| blank_row(color))
}

/// The text buffer: `BUFFER_HEIGHT` rows of `BUFFER_WIDTH` cells, each accessed
/// only through volatile loads and stores. A cell is held as a two-byte array,
/// glyph first and attribute second, the layout the display hardware reads.
pub struct Buffer {
    chars: [[Volatile<[u8; 2]>; BUFFER_WIDTH]; BUFFER_HEIGHT],
}

impl View for Buffer {
    type V = Seq<Seq<ScreenChar>>;

    closed spec fn view(&self) -> Seq<Seq<ScreenChar>> {
        Seq::new(
            BUFFER_HEIGHT as nat,
            |row: int| Seq::new(BUFFER_WIDTH as nat, |col: int| char_of(cell_bytes(self.chars[row][col]))),
        )
    }
}

impl Buffer {
    /// A buffer in ordinary memory whose every cell is blank in `color`.
    pub fn new(color: ColorCode) -> (r: Buffer)
        ensures
            r@ == blank_grid(color),
    {
        let chars = cells_filled([0x20u8, color.0]);
        let r = Buffer { chars };
        assert(r@ =~~= blank_grid(color));
        r
    }

    /// The grid always has `BUFFER_HEIGHT` rows of `BUFFER_WIDTH` cells.
    pub proof fn lemma_shape(&self)
        ensures
            self@.len() == BUFFER_HEIGHT,
            forall|row: int| 0 <= row < BUFFER_HEIGHT ==> #[trigger] self@[row].len() == BUFFER_WIDTH,
    {
    }

    /// Volatile load of the cell at (`row`, `col`).
    pub fn read(&self, row: usize, col: usize) -> (r: ScreenChar)
        requires
            row < BUFFER_HEIGHT,
            col < BUFFER_WIDTH,
        ensures
            r == self@[row as int][col as int],
    {
        let bytes = cell_read(&self.chars[row][col]);
        ScreenChar { ascii_character: bytes[0], color_code: ColorCode(bytes[1]) }
    }

    /// Volatile store of `ch` into the cell at (`row`, `col`); no other cell changes.
    pub fn write(&mut self, row: usize, col: usize, ch: ScreenChar)
        requires
            row < BUFFER_HEIGHT,
            col < BUFFER_WIDTH,
        ensures
            final(self)@ == old(self)@.update(row as int, old(self)@[row as int].update(col as int, ch)),
        no_unwind
    {
        cell_write(&mut self.chars[row][col], [ch.ascii_character, ch.color_code.0]);
        assert(final(self)@ =~~= old(self)@.update(row as int, old(self)@[row as int].update(col as int, ch)));
    }
}

} // verus!
