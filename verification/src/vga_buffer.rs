//! Text-mode display driver: a 16-color palette, packed color attributes,
//! and a writer over a fixed 25 x 80 surface of character cells.

use vstd::prelude::*;
use vstd::string::StringSliceAdditionalSpecFns;
use volatile::Volatile;

verus! {

/// The fixed 16-color palette of the text-mode hardware.
#[allow(dead_code)]
#[derive(Debug, Clone, Copy, PartialEq, Eq, Structural)]
pub enum Color {
    Black,
    Blue,
    Green,
    Cyan,
    Red,
    Magenta,
    Brown,
    LightGray,
    DarkGrey,
    LightBlue,
    LightGreen,
    LightCyan,
    LightRed,
    Pink,
    Yellow,
    White,
}

impl Color {
    /// The palette index of this color, a value below 16.
    pub open spec fn spec_code(self) -> u8 {
        match self {
            Color::Black => 0,
            Color::Blue => 1,
            Color::Green => 2,
            Color::Cyan => 3,
            Color::Red => 4,
            Color::Magenta => 5,
            Color::Brown => 6,
            Color::LightGray => 7,
            Color::DarkGrey => 8,
            Color::LightBlue => 9,
            Color::LightGreen => 10,
            Color::LightCyan => 11,
            Color::LightRed => 12,
            Color::Pink => 13,
            Color::Yellow => 14,
            Color::White => 15,
        }
    }

    /// The palette index of this color.
    pub fn code(self) -> (r: u8)
        ensures
            r == self.spec_code(),
    {
        match self {
            Color::Black => 0,
            Color::Blue => 1,
            Color::Green => 2,
            Color::Cyan => 3,
            Color::Red => 4,
            Color::Magenta => 5,
            Color::Brown => 6,
            Color::LightGray => 7,
            Color::DarkGrey => 8,
            Color::LightBlue => 9,
            Color::LightGreen => 10,
            Color::LightCyan => 11,
            Color::LightRed => 12,
            Color::Pink => 13,
            Color::Yellow => 14,
            Color::White => 15,
        }
    }
}

/// The color of the given palette index; indices at or above 16 are not used.
pub open spec fn color_from_code(code: u8) -> Color {
    if code == 0 {
        Color::Black
    } else if code == 1 {
        Color::Blue
    } else if code == 2 {
        Color::Green
    } else if code == 3 {
        Color::Cyan
    } else if code == 4 {
        Color::Red
    } else if code == 5 {
        Color::Magenta
    } else if code == 6 {
        Color::Brown
    } else if code == 7 {
        Color::LightGray
    } else if code == 8 {
        Color::DarkGrey
    } else if code == 9 {
        Color::LightBlue
    } else if code == 10 {
        Color::LightGreen
    } else if code == 11 {
        Color::LightCyan
    } else if code == 12 {
        Color::LightRed
    } else if code == 13 {
        Color::Pink
    } else if code == 14 {
        Color::Yellow
    } else {
        Color::White
    }
}

/// Every palette index is below 16.
pub proof fn lemma_color_code_bound(c: Color)
    ensures
        c.spec_code() < 16,
{
}

/// `color_from_code` inverts `spec_code`: every color is recovered from its index.
pub proof fn lemma_color_from_code_inverse(c: Color)
    ensures
        color_from_code(c.spec_code()) == c,
{
    match c {
        Color::Black => {},
        Color::Blue => {},
        Color::Green => {},
        Color::Cyan => {},
        Color::Red => {},
        Color::Magenta => {},
        Color::Brown => {},
        Color::LightGray => {},
        Color::DarkGrey => {},
        Color::LightBlue => {},
        Color::LightGreen => {},
        Color::LightCyan => {},
        Color::LightRed => {},
        Color::Pink => {},
        Color::Yellow => {},
        Color::White => {},
    }
}

/// A packed color attribute: the low nibble is the foreground palette index,
/// bits 4 to 7 are the background palette index.
#[derive(Debug, Clone, Copy, PartialEq, Eq, Structural)]
pub struct ColorCode(pub u8);

/// The packed byte that encodes the pair (foreground, background).
pub open spec fn attribute_byte(foreground: Color, background: Color) -> u8 {
    (background.spec_code() * 16 + foreground.spec_code()) as u8
}

/// The foreground palette index held in a packed attribute byte.
pub open spec fn foreground_code(attribute: u8) -> u8 {
    attribute % 16
}

/// The background palette index held in a packed attribute byte.
pub open spec fn background_code(attribute: u8) -> u8 {
    attribute / 16
}

impl View for ColorCode {
    type V = u8;

    open spec fn view(&self) -> u8 {
        self.0
    }
}

impl ColorCode {
    /// Combines exactly one foreground and one background color into a packed
    /// attribute byte.
    pub fn new(foreground: Color, background: Color) -> (r: ColorCode)
        ensures
            r@ == attribute_byte(foreground, background),
    {
        proof {
            lemma_color_code_bound(foreground);
            lemma_color_code_bound(background);
        }
        let f = foreground.code();
        let b = background.code();
        let packed = b << 4 | f;
        proof {
            assert(f < 16 && b < 16 ==> (b << 4 | f) == b * 16 + f) by (bit_vector);
        }
        ColorCode(packed)
    }

    /// The foreground color encoded in the low nibble.
    pub fn foreground(self) -> (r: Color)
        ensures
            r == color_from_code(foreground_code(self@)),
    {
        let byte = self.0;
        let low = byte & 0x0f;
        proof {
            assert(byte & 0x0f == byte % 16) by (bit_vector);
        }
        color_of_index(low)
    }

    /// The background color encoded in bits 4 to 7.
    pub fn background(self) -> (r: Color)
        ensures
            r == color_from_code(background_code(self@)),
    {
        let byte = self.0;
        let high = byte >> 4;
        proof {
            assert(byte >> 4 == byte / 16) by (bit_vector);
        }
        color_of_index(high)
    }
}

/// The color of the given palette index; indices at or above 16 fall back to
/// the last palette entry, as `color_from_code` does.
fn color_of_index(code: u8) -> (r: Color)
    ensures
        r == color_from_code(code),
{
    if code == 0 {
        Color::Black
    } else if code == 1 {
        Color::Blue
    } else if code == 2 {
        Color::Green
    } else if code == 3 {
        Color::Cyan
    } else if code == 4 {
        Color::Red
    } else if code == 5 {
        Color::Magenta
    } else if code == 6 {
        Color::Brown
    } else if code == 7 {
        Color::LightGray
    } else if code == 8 {
        Color::DarkGrey
    } else if code == 9 {
        Color::LightBlue
    } else if code == 10 {
        Color::LightGreen
    } else if code == 11 {
        Color::LightCyan
    } else if code == 12 {
        Color::LightRed
    } else if code == 13 {
        Color::Pink
    } else if code == 14 {
        Color::Yellow
    } else {
        Color::White
    }
}

/// Round trip: a color attribute built from a (foreground, background) pair
/// decodes, through its two nibble fields, back to the original pair, for
/// every one of the 16 x 16 combinations.
pub proof fn lemma_color_code_round_trip(foreground: Color, background: Color)
    ensures
        color_from_code(foreground_code(attribute_byte(foreground, background))) == foreground,
        color_from_code(background_code(attribute_byte(foreground, background))) == background,
{
    lemma_color_code_bound(foreground);
    lemma_color_code_bound(background);
    let f = foreground.spec_code() as int;
    let b = background.spec_code() as int;
    assert((b * 16 + f) % 16 == f && (b * 16 + f) / 16 == b) by (nonlinear_arith)
        requires
            0 <= f < 16,
            0 <= b < 16,
    ;
    lemma_color_from_code_inverse(foreground);
    lemma_color_from_code_inverse(background);
}

/// One character cell in the hardware's binary layout: the character byte
/// first, its color attribute second. The order is fixed by the hardware and
/// must never be swapped.
#[derive(Debug, Clone, Copy, PartialEq, Eq, Structural)]
pub struct ScreenChar {
    pub ascii_character: u8,
    pub color_code: ColorCode,
}

/// Rows of the hardware text surface.
pub const BUFFER_HEIGHT: usize = 25;

/// Columns of the hardware text surface.
pub const BUFFER_WIDTH: usize = 80;

#[verifier::external_type_specification]
#[verifier::external_body]
#[verifier::reject_recursive_types(T)]
pub struct ExVolatile<T: Copy>(Volatile<T>);

/// The raw bits of one hardware cell: the character in the low byte, the
/// color attribute in the high byte, as the hardware lays the pair out in
/// memory (character first, attribute second).
pub open spec fn cell_bits(ch: u8, attr: u8) -> u16 {
    (ch + attr * 256) as u16
}

/// The raw pair held in one volatile cell.
pub uninterp spec fn volatile_value(cell: Volatile<u16>) -> u16;

/// Packs one cell's character and attribute into its raw bits.
fn pack_cell(ch: u8, attr: u8) -> (bits: u16)
    ensures
        bits == cell_bits(ch, attr),
{
    let c: u16 = ch as u16;
    let a: u16 = attr as u16;
    proof {
        assert(c < 256 && a < 256 ==> (c | (a << 8)) == c + a * 256) by (bit_vector);
    }
    c | (a << 8)
}

/// Relies on volatile::Volatile::new: wraps the given value.
#[verifier::external_body]
fn volatile_new(bits: u16) -> (cell: Volatile<u16>)
    ensures
        volatile_value(cell) == bits,
{
    Volatile::new(bits)
}

/// Relies on volatile::Volatile::read: a volatile load, never reordered past
/// the stores around it, that returns the wrapped value.
#[verifier::external_body]
fn volatile_read(cell: &Volatile<u16>) -> (r: u16)
    ensures
        r == volatile_value(*cell),
{
    cell.read()
}

/// Relies on volatile::Volatile::write: a volatile store, guaranteed not to be
/// optimized away, that replaces the wrapped value.
#[verifier::external_body]
fn volatile_write(cell: &mut Volatile<u16>, bits: u16)
    ensures
        volatile_value(*final(cell)) == bits,
{
    cell.write(bits)
}

/// The hardware text surface: a fixed grid of character cells that display
/// hardware reads concurrently, so every access goes through a volatile cell.
/// On the reference hardware this is the memory at address 0xb8000; the
/// driver owns it exclusively.
pub struct Buffer {
    chars: Vec<Vec<Volatile<u16>>>,
}

/// The cell decoded from the raw bits of the hardware.
pub open spec fn screen_char_of(bits: u16) -> ScreenChar {
    ScreenChar { ascii_character: (bits % 256) as u8, color_code: ColorCode((bits / 256) as u8) }
}

/// Decoding the raw bits of a cell recovers the character and the attribute.
pub proof fn lemma_cell_bits_decode(ch: u8, attr: u8)
    ensures
        (screen_char_of(cell_bits(ch, attr)) == ScreenChar {
            ascii_character: ch,
            color_code: ColorCode(attr),
        }),
{
    assert((ch + attr * 256) % 256 == ch && (ch + attr * 256) / 256 == attr) by (nonlinear_arith)
        requires
            0 <= ch < 256,
            0 <= attr < 256,
    ;
}

/// The mathematical state of the display: the grid of cells, the cursor
/// column, and the active color attribute.
#[verifier::ext_equal]
pub struct VgaState {
    pub grid: Seq<Seq<ScreenChar>>,
    pub column: nat,
    pub color: ColorCode,
}

/// A well-formed display state: full grid, cursor within the row.
pub open spec fn state_wf(s: VgaState) -> bool {
    &&& s.grid.len() == BUFFER_HEIGHT
    &&& forall|r: int| 0 <= r < BUFFER_HEIGHT ==> (#[trigger] s.grid[r]).len() == BUFFER_WIDTH
    &&& s.column <= BUFFER_WIDTH
}

/// A blank cell: a space under the given color attribute.
pub open spec fn blank_char(color: ColorCode) -> ScreenChar {
    ScreenChar { ascii_character: 0x20, color_code: color }
}

/// A whole row of blank cells.
pub open spec fn blank_row(color: ColorCode) -> Seq<ScreenChar> {
    Seq::new(BUFFER_WIDTH as nat, |c: int| blank_char(color))
}

/// A whole surface of blank cells.
pub open spec fn blank_grid(color: ColorCode) -> Seq<Seq<ScreenChar>> {
    Seq::new(BUFFER_HEIGHT as nat, |r: int| blank_row(color))
}

/// One scroll step: every row is copied one position up and the freed last row
/// is cleared to blanks under the given attribute.
pub open spec fn scrolled(grid: Seq<Seq<ScreenChar>>, color: ColorCode) -> Seq<Seq<ScreenChar>> {
    Seq::new(
        BUFFER_HEIGHT as nat,
        |r: int|
            if r + 1 < BUFFER_HEIGHT {
                grid[r + 1]
            } else {
                blank_row(color)
            },
    )
}

/// The state after the driver handles one byte: a newline scrolls and resets
/// the column; any other byte lands at the cursor on the last row, after a
/// scroll if the row was already full, and advances the cursor.
pub open spec fn write_byte_spec(s: VgaState, byte: u8) -> VgaState {
    if byte == 0x0a {
        VgaState { grid: scrolled(s.grid, s.color), column: 0, ..s }
    } else {
        let grid0 = if s.column >= BUFFER_WIDTH {
            scrolled(s.grid, s.color)
        } else {
            s.grid
        };
        let col0: int = if s.column >= BUFFER_WIDTH {
            0
        } else {
            s.column as int
        };
        let cell = ScreenChar { ascii_character: byte, color_code: s.color };
        VgaState {
            grid: grid0.update(
                BUFFER_HEIGHT - 1,
                grid0[BUFFER_HEIGHT - 1].update(col0, cell),
            ),
            column: (col0 + 1) as nat,
            ..s
        }
    }
}

/// The byte actually rendered for one byte of text: printable ASCII and the
/// newline pass through, everything else becomes the fixed replacement glyph.
pub open spec fn glyph(byte: u8) -> u8 {
    if byte == 0x0a || (0x20 <= byte && byte <= 0x7e) {
        byte
    } else {
        0xfe
    }
}

/// The state after writing a whole text, byte by byte, through the glyph map.
pub open spec fn write_string_spec(s: VgaState, bytes: Seq<u8>) -> VgaState
    decreases bytes.len(),
{
    if bytes.len() == 0 {
        s
    } else {
        write_string_spec(write_byte_spec(s, glyph(bytes[0])), bytes.drop_first())
    }
}

/// The display driver: owns the surface, the cursor column and the active
/// color attribute. Writing is always pinned to the last row; finished rows
/// scroll upward.
pub struct Writer {
    column_position: usize,
    color_code: ColorCode,
    buffer: Buffer,
}

impl View for Writer {
    type V = VgaState;

    closed spec fn view(&self) -> VgaState {
        VgaState {
            grid: self.spec_grid(),
            column: self.column_position as nat,
            color: self.color_code,
        }
    }
}

impl Writer {
    /// The grid of cells currently held by the surface.
    pub closed spec fn spec_grid(self) -> Seq<Seq<ScreenChar>> {
        Seq::new(
            BUFFER_HEIGHT as nat,
            |r: int|
                Seq::new(
                    BUFFER_WIDTH as nat,
                    |c: int| screen_char_of(volatile_value(self.buffer.chars[r][c])),
                ),
        )
    }

    /// The writer owns a full surface and keeps its cursor within the row.
    pub closed spec fn wf(self) -> bool {
        &&& self.buffer.chars.len() == BUFFER_HEIGHT
        &&& forall|r: int|
            0 <= r < BUFFER_HEIGHT ==> (#[trigger] self.buffer.chars[r]).len() == BUFFER_WIDTH
        &&& self.column_position <= BUFFER_WIDTH
    }

    /// A well-formed writer presents a well-formed display state.
    pub proof fn lemma_wf_state(self)
        requires
            self.wf(),
        ensures
            state_wf(self@),
    {
    }

    /// A fresh driver over an all-blank surface, cursor at column zero.
    pub fn new(color_code: ColorCode) -> (w: Writer)
        ensures
            w.wf(),
            (w@ == VgaState { grid: blank_grid(color_code), column: 0 as nat, color: color_code }),
    {
        let mut chars: Vec<Vec<Volatile<u16>>> = Vec::new();
        let mut row: usize = 0;
        while row < BUFFER_HEIGHT
            invariant
                row <= BUFFER_HEIGHT,
                chars.len() == row,
                forall|r: int|
                    0 <= r < row ==> (#[trigger] chars[r]).len() == BUFFER_WIDTH,
                forall|r: int, c: int|
                    0 <= r < row && 0 <= c < BUFFER_WIDTH ==> volatile_value(
                        #[trigger] chars[r][c],
                    ) == cell_bits(0x20, color_code.0),
            decreases BUFFER_HEIGHT - row,
        {
            let mut line: Vec<Volatile<u16>> = Vec::new();
            let mut col: usize = 0;
            while col < BUFFER_WIDTH
                invariant
                    col <= BUFFER_WIDTH,
                    line.len() == col,
                    forall|c: int|
                        0 <= c < col ==> volatile_value(#[trigger] line[c]) == cell_bits(
                            0x20,
                            color_code.0,
                        ),
                decreases BUFFER_WIDTH - col,
            {
                line.push(volatile_new(pack_cell(0x20, color_code.0)));
                col = col + 1;
            }
            chars.push(line);
            row = row + 1;
        }
        let w = Writer { column_position: 0, color_code, buffer: Buffer { chars } };
        proof {
            lemma_cell_bits_decode(0x20, color_code.0);
            assert(w.spec_grid() =~~= blank_grid(color_code));
        }
        w
    }

    /// The current cursor column.
    pub fn column_position(&self) -> (c: usize)
        ensures
            c == self@.column,
    {
        self.column_position
    }

    /// The cell at the given position of the surface.
    pub fn read_cell(&self, row: usize, col: usize) -> (cell: ScreenChar)
        requires
            self.wf(),
            row < BUFFER_HEIGHT,
            col < BUFFER_WIDTH,
        ensures
            cell == self@.grid[row as int][col as int],
    {
        let bits = volatile_read(&self.buffer.chars[row][col]);
        ScreenChar { ascii_character: (bits % 256) as u8, color_code: ColorCode((bits / 256) as u8) }
    }

    /// Stores one cell at the given position, through a volatile write.
    fn write_cell(&mut self, row: usize, col: usize, cell: ScreenChar)
        requires
            old(self).wf(),
            row < BUFFER_HEIGHT,
            col < BUFFER_WIDTH,
        ensures
            final(self).wf(),
            final(self).spec_grid() =~~= old(self).spec_grid().update(
                row as int,
                old(self).spec_grid()[row as int].update(col as int, cell),
            ),
            final(self)@.column == old(self)@.column,
            final(self)@.color == old(self)@.color,
    {
        proof {
            lemma_cell_bits_decode(cell.ascii_character, cell.color_code.0);
        }
        let bits = pack_cell(cell.ascii_character, cell.color_code.0);
        let line = &mut self.buffer.chars[row];
        volatile_write(&mut line[col], bits);
    }

    /// Clears one row to blank cells under the active color attribute.
    fn clear_row(&mut self, row: usize)
        requires
            old(self).wf(),
            row < BUFFER_HEIGHT,
        ensures
            final(self).wf(),
            final(self)@.grid =~~= old(self)@.grid.update(
                row as int,
                blank_row(old(self)@.color),
            ),
            final(self)@.column == old(self)@.column,
            final(self)@.color == old(self)@.color,
    {
        let blank = ScreenChar { ascii_character: 0x20, color_code: self.color_code };
        let ghost g0 = self.spec_grid();
        let mut col: usize = 0;
        while col < BUFFER_WIDTH
            invariant
                col <= BUFFER_WIDTH,
                row < BUFFER_HEIGHT,
                self.wf(),
                blank == blank_char(self@.color),
                self@.column == old(self)@.column,
                self@.color == old(self)@.color,
                self.spec_grid() =~~= g0.update(
                    row as int,
                    blank_row(old(self)@.color).take(col as int) + g0[row as int].skip(
                        col as int,
                    ),
                ),
                g0 == old(self)@.grid,
            decreases BUFFER_WIDTH - col,
        {
            self.write_cell(row, col, blank);
            col = col + 1;
        }
    }

    /// Scrolls: every row moves one position up, the last row is cleared, and
    /// the cursor returns to column zero.
    fn new_line(&mut self)
        requires
            old(self).wf(),
        ensures
            final(self).wf(),
            final(self)@.grid =~~= scrolled(old(self)@.grid, old(self)@.color),
            final(self)@.column == 0,
            final(self)@.color == old(self)@.color,
    {
        let ghost g0 = self.spec_grid();
        let mut row: usize = 1;
        while row < BUFFER_HEIGHT
            invariant
                1 <= row <= BUFFER_HEIGHT,
                self.wf(),
                self@.color == old(self)@.color,
                g0 == old(self)@.grid,
                forall|r: int, c: int|
                    0 <= r < row - 1 && 0 <= c < BUFFER_WIDTH ==> (#[trigger] self.spec_grid()[r][c]) == g0[r + 1][c],
                forall|r: int, c: int|
                    row - 1 <= r < BUFFER_HEIGHT && 0 <= c < BUFFER_WIDTH
                        ==> (#[trigger] self.spec_grid()[r][c]) == g0[r][c],
            decreases BUFFER_HEIGHT - row,
        {
            let mut col: usize = 0;
            while col < BUFFER_WIDTH
                invariant
                    1 <= row < BUFFER_HEIGHT,
                    col <= BUFFER_WIDTH,
                    self.wf(),
                    self@.color == old(self)@.color,
                    g0 == old(self)@.grid,
                    forall|r: int, c: int|
                        0 <= r < row - 1 && 0 <= c < BUFFER_WIDTH ==> (#[trigger] self.spec_grid()[r][c]) == g0[r + 1][c],
                    forall|c: int|
                        0 <= c < col ==> (#[trigger] self.spec_grid()[row - 1][c]) == g0[row as int][c],
                    forall|c: int|
                        col <= c < BUFFER_WIDTH ==> (#[trigger] self.spec_grid()[row - 1][c]) == g0[row - 1][c],
                    forall|r: int, c: int|
                        row <= r < BUFFER_HEIGHT && 0 <= c < BUFFER_WIDTH
                            ==> (#[trigger] self.spec_grid()[r][c]) == g0[r][c],
                decreases BUFFER_WIDTH - col,
            {
                let character = self.read_cell(row, col);
                self.write_cell(row - 1, col, character);
                col = col + 1;
            }
            row = row + 1;
        }
        self.clear_row(BUFFER_HEIGHT - 1);
        self.column_position = 0;
        proof {
            assert(self.spec_grid() =~~= scrolled(g0, old(self)@.color));
        }
    }

    /// Renders one byte: a newline scrolls; any other byte is stored at the
    /// cursor on the last row, scrolling first when the row is full. The byte
    /// is stored as given; substitution of unprintable bytes is the text
    /// interface's concern.
    pub fn write_byte(&mut self, byte: u8)
        requires
            old(self).wf(),
        ensures
            final(self).wf(),
            final(self)@ =~~= write_byte_spec(old(self)@, byte),
    {
        if byte == 0x0a {
            self.new_line();
        } else {
            if self.column_position >= BUFFER_WIDTH {
                self.new_line();
            }
            let row = BUFFER_HEIGHT - 1;
            let col = self.column_position;
            let color_code = self.color_code;
            self.write_cell(row, col, ScreenChar { ascii_character: byte, color_code });
            self.column_position = col + 1;
        }
    }

    /// Writes a whole text: printable ASCII bytes and newlines are rendered
    /// as they are, every other byte of the encoding is replaced by the fixed
    /// placeholder glyph.
    pub fn write_string(&mut self, s: &str)
        requires
            old(self).wf(),
        ensures
            final(self).wf(),
            final(self)@ =~~= write_string_spec(old(self)@, s.spec_bytes()),
    {
        let bytes = s.as_bytes();
        let n = bytes.len();
        let mut i: usize = 0;
        while i < n
            invariant
                i <= n,
                n == bytes.len(),
                bytes@ == s.spec_bytes(),
                self.wf(),
                self@ =~~= write_string_spec(old(self)@, bytes@.take(i as int)),
            decreases n - i,
        {
            let byte = bytes[i];
            proof {
                lemma_write_string_spec_snoc(old(self)@, bytes@.take(i as int), byte);
                assert(bytes@.take(i as int).push(byte) =~= bytes@.take(i + 1));
            }
            if byte == 0x0a || (0x20 <= byte && byte <= 0x7e) {
                self.write_byte(byte);
            } else {
                self.write_byte(0xfe);
            }
            i = i + 1;
        }
        proof {
            assert(bytes@.take(n as int) =~= bytes@);
        }
    }
}

/// Writing one more byte at the end of a text is one more `write_byte_spec`
/// step on the state the text produced.
pub proof fn lemma_write_string_spec_snoc(s: VgaState, bytes: Seq<u8>, byte: u8)
    ensures
        write_string_spec(s, bytes.push(byte)) == write_byte_spec(
            write_string_spec(s, bytes),
            glyph(byte),
        ),
    decreases bytes.len(),
{
    if bytes.len() == 0 {
        assert(bytes.push(byte)[0] == byte);
        assert(bytes.push(byte).drop_first() =~= Seq::<u8>::empty());
        assert(write_string_spec(s, bytes.push(byte)) == write_string_spec(
            write_byte_spec(s, glyph(byte)),
            Seq::<u8>::empty(),
        ));
    } else {
        assert(bytes.push(byte)[0] == bytes[0]);
        assert(bytes.push(byte).drop_first() =~= bytes.drop_first().push(byte));
        assert(write_string_spec(s, bytes.push(byte)) == write_string_spec(
            write_byte_spec(s, glyph(bytes[0])),
            bytes.drop_first().push(byte),
        ));
        lemma_write_string_spec_snoc(write_byte_spec(s, glyph(bytes[0])), bytes.drop_first(), byte);
    }
}

/// Writing printable text from column zero appends it to the last row: the
/// cursor ends at the text's length, the first cells of the last row hold the
/// text's bytes under the active attribute, and every other cell of the
/// surface is untouched. A freshly cleared driver is the special case where
/// the rest of the surface is blank.
pub proof fn lemma_write_line(s: VgaState, bytes: Seq<u8>)
    requires
        state_wf(s),
        s.column == 0,
        bytes.len() < BUFFER_WIDTH,
        forall|i: int| 0 <= i < bytes.len() ==> 0x20 <= #[trigger] bytes[i] <= 0x7e,
    ensures
        state_wf(write_string_spec(s, bytes)),
        write_string_spec(s, bytes).column == bytes.len(),
        write_string_spec(s, bytes).color == s.color,
        forall|c: int|
            0 <= c < bytes.len() ==> write_string_spec(s, bytes).grid[BUFFER_HEIGHT - 1][c]
                == (ScreenChar { ascii_character: bytes[c], color_code: s.color }),
        forall|c: int|
            bytes.len() <= c < BUFFER_WIDTH ==> (#[trigger] write_string_spec(s, bytes).grid[
                BUFFER_HEIGHT - 1][c]) == s.grid[BUFFER_HEIGHT - 1][c],
        forall|r: int|
            0 <= r < BUFFER_HEIGHT - 1 ==> write_string_spec(s, bytes).grid[r] == s.grid[r],
    decreases bytes.len(),
{
    if bytes.len() == 0 {
    } else {
        let prefix = bytes.drop_last();
        let byte = bytes.last();
        lemma_write_line(s, prefix);
        assert(prefix.push(byte) =~= bytes);
        lemma_write_string_spec_snoc(s, prefix, byte);
        assert(glyph(byte) == byte);
        let tp = write_string_spec(s, prefix);
        let t = write_string_spec(s, bytes);
        assert(t == write_byte_spec(tp, byte));
        assert(forall|c: int|
            0 <= c < bytes.len() ==> t.grid[BUFFER_HEIGHT - 1][c] == (ScreenChar {
                ascii_character: bytes[c],
                color_code: s.color,
            }));
    }
}

/// A line that fits on one row: shorter than the width, printable ASCII only.
pub open spec fn line_ok(line: Seq<u8>) -> bool {
    &&& line.len() < BUFFER_WIDTH
    &&& forall|i: int| 0 <= i < line.len() ==> 0x20 <= #[trigger] line[i] <= 0x7e
}

/// A full surface row showing one line: its bytes under the given attribute,
/// padded with blanks.
pub open spec fn rendered_line(line: Seq<u8>, color: ColorCode) -> Seq<ScreenChar> {
    Seq::new(
        BUFFER_WIDTH as nat,
        |c: int|
            if c < line.len() {
                ScreenChar { ascii_character: line[c], color_code: color }
            } else {
                blank_char(color)
            },
    )
}

/// The state after writing each line in turn, each ended by a newline.
pub open spec fn write_lines_spec(s: VgaState, lines: Seq<Seq<u8>>) -> VgaState
    decreases lines.len(),
{
    if lines.len() == 0 {
        s
    } else {
        write_lines_spec(write_string_spec(s, lines[0].push(0x0a)), lines.drop_first())
    }
}

/// Writing one more line after a batch of lines equals writing the batch, then
/// that line and its newline.
pub proof fn lemma_write_lines_spec_snoc(s: VgaState, lines: Seq<Seq<u8>>, line: Seq<u8>)
    ensures
        write_lines_spec(s, lines.push(line)) == write_string_spec(
            write_lines_spec(s, lines),
            line.push(0x0a),
        ),
    decreases lines.len(),
{
    if lines.len() == 0 {
        assert(lines.push(line)[0] == line);
        assert(lines.push(line).drop_first() =~= Seq::<Seq<u8>>::empty());
        assert(write_lines_spec(s, lines.push(line)) == write_lines_spec(
            write_string_spec(s, line.push(0x0a)),
            Seq::<Seq<u8>>::empty(),
        ));
    } else {
        assert(lines.push(line)[0] == lines[0]);
        assert(lines.push(line).drop_first() =~= lines.drop_first().push(line));
        assert(write_lines_spec(s, lines.push(line)) == write_lines_spec(
            write_string_spec(s, lines[0].push(0x0a)),
            lines.drop_first().push(line),
        ));
        lemma_write_lines_spec_snoc(
            write_string_spec(s, lines[0].push(0x0a)),
            lines.drop_first(),
            line,
        );
    }
}

/// Every newline-terminated line scrolls the surface once, so only the
/// trailing rows-worth of lines stays visible, in order, directly above the
/// blank cursor row; all earlier lines are discarded. Rows that no written
/// line reaches still show what the starting surface showed, shifted up by
/// the number of lines written.
pub proof fn lemma_scroll_keeps_trailing_lines(s: VgaState, lines: Seq<Seq<u8>>)
    requires
        state_wf(s),
        s.column == 0,
        s.grid[BUFFER_HEIGHT - 1] == blank_row(s.color),
        forall|i: int| 0 <= i < lines.len() ==> line_ok(#[trigger] lines[i]),
    ensures
        state_wf(write_lines_spec(s, lines)),
        write_lines_spec(s, lines).column == 0,
        write_lines_spec(s, lines).color == s.color,
        write_lines_spec(s, lines).grid[BUFFER_HEIGHT - 1] == blank_row(s.color),
        forall|j: int|
            0 <= j < BUFFER_HEIGHT - 1 && j < lines.len() ==> (#[trigger] write_lines_spec(
                s,
                lines,
            ).grid[BUFFER_HEIGHT - 2 - j]) == rendered_line(lines[lines.len() - 1 - j], s.color),
        forall|r: int|
            0 <= r < BUFFER_HEIGHT - 1 - lines.len() ==> (#[trigger] write_lines_spec(
                s,
                lines,
            ).grid[r]) == s.grid[r + lines.len()],
    decreases lines.len(),
{
    if lines.len() == 0 {
    } else {
        let prefix = lines.drop_last();
        let line = lines.last();
        lemma_scroll_keeps_trailing_lines(s, prefix);
        assert(prefix.push(line) =~= lines);
        lemma_write_lines_spec_snoc(s, prefix, line);
        let tp = write_lines_spec(s, prefix);
        lemma_write_string_spec_snoc(tp, line, 0x0a);
        lemma_write_line(tp, line);
        let tl = write_string_spec(tp, line);
        let t = write_lines_spec(s, lines);
        assert(t == write_byte_spec(tl, 0x0a));
        assert(tl.grid[BUFFER_HEIGHT - 1] =~= rendered_line(line, s.color));
        assert(t.grid[BUFFER_HEIGHT - 2] == rendered_line(lines[lines.len() - 1], s.color));
        assert(t.grid[BUFFER_HEIGHT - 1] =~= blank_row(s.color));
        assert forall|j: int| 1 <= j < BUFFER_HEIGHT - 1 && j < lines.len() implies (
        #[trigger] t.grid[BUFFER_HEIGHT - 2 - j]) == rendered_line(
            lines[lines.len() - 1 - j],
            s.color,
        ) by {
            assert(t.grid[BUFFER_HEIGHT - 2 - j] == tl.grid[BUFFER_HEIGHT - 1 - j]);
            assert(tl.grid[BUFFER_HEIGHT - 1 - j] == tp.grid[BUFFER_HEIGHT - 1 - j]);
            assert(tp.grid[BUFFER_HEIGHT - 2 - (j - 1)] == rendered_line(
                prefix[prefix.len() - 1 - (j - 1)],
                s.color,
            ));
        }
        assert forall|r: int| 0 <= r < BUFFER_HEIGHT - 1 - lines.len() implies (
        #[trigger] t.grid[r]) == s.grid[r + lines.len()] by {
            assert(t.grid[r] == tl.grid[r + 1]);
            assert(tl.grid[r + 1] == tp.grid[r + 1]);
            assert(tp.grid[r + 1] == s.grid[r + 1 + prefix.len()]);
        }
    }
}

} // verus!
