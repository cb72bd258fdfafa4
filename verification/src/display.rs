//! The screen: the capability the interpreter draws through, and a
//! framebuffer that implements it.
//!
//! The screen is monochrome, 64 pixels wide and 32 pixels tall. A sprite is
//! eight pixels wide, one byte per row with the most significant bit on the
//! left, and is combined with the screen by exclusive or. The position a
//! sprite is drawn at wraps around the screen; the part of a sprite that
//! reaches past the right or the bottom edge is cut off.

use vstd::prelude::*;

verus! {

/// Width of the screen in pixels.
pub const DISPLAY_WIDTH: usize = 64;

/// Height of the screen in pixels.
pub const DISPLAY_HEIGHT: usize = 32;

/// Number of pixels on the screen.
pub const DISPLAY_PIXELS: usize = 2048;

/// A screen the interpreter can draw on.
///
/// What a kind of screen does with a sprite is its own affair; it says so in
/// `drawn` and `cleared`, and the interpreter promises no more of a screen
/// than the screen does.
pub trait Display {
    /// What this kind of screen promises of a call of `modify`: how the
    /// screen `after` the call and the answer `collision` relate to the
    /// screen before it and to the arguments. A screen that says nothing
    /// here promises nothing.
    open spec fn drawn(
        &self,
        sprite: Seq<u8>,
        n: u8,
        x: u8,
        y: u8,
        after: &Self,
        collision: bool,
    ) -> bool {
        true
    }

    /// What this kind of screen promises of a call of `clear`. A screen that
    /// says nothing here promises nothing.
    open spec fn cleared(&self, after: &Self) -> bool {
        true
    }

    /// Draws the first `n` rows of `sprite` at the display position (`x`, `y`)
    /// by exclusive or, and tells whether any lit pixel was turned off.
    fn modify(&mut self, sprite: &[u8], n: u8, x: u8, y: u8) -> (collision: bool)
        requires
            n <= sprite@.len(),
        ensures
            old(self).drawn(sprite@, n, x, y, final(self), collision),
    ;

    /// Width of the screen in pixels.
    fn width(&self) -> usize;

    /// Height of the screen in pixels.
    fn height(&self) -> usize;

    /// Turns every pixel off.
    fn clear(&mut self)
        ensures
            old(self).cleared(final(self)),
    ;
}

/// A screen that shows nothing and answers every draw with the same
/// collision flag, for tests that only care about what the interpreter does
/// with the answer.
pub struct DebugDisplay {
    pub ret: bool,
    pub width: usize,
    pub height: usize,
}

impl Display for DebugDisplay {
    /// The answer is the field `ret`, and nothing changes.
    open spec fn drawn(
        &self,
        sprite: Seq<u8>,
        n: u8,
        x: u8,
        y: u8,
        after: &Self,
        collision: bool,
    ) -> bool {
        collision == self.ret && *after == *self
    }

    /// Nothing changes.
    open spec fn cleared(&self, after: &Self) -> bool {
        *after == *self
    }

    #[allow(unused_variables)]
    fn modify(&mut self, sprite: &[u8], n: u8, x: u8, y: u8) -> (collision: bool) {
        self.ret
    }

    fn width(&self) -> (width: usize)
        ensures
            width == self.width,
    {
        self.width
    }

    fn height(&self) -> (height: usize)
        ensures
            height == self.height,
    {
        self.height
    }

    fn clear(&mut self) {
    }
}

/// Whether the pixel in column `col` of a sprite row is set. Column 0 is the
/// leftmost pixel and the most significant bit.
pub open spec fn sprite_bit(row: u8, col: int) -> bool {
    (row >> ((7 - col) as u8)) & 1u8 == 1u8
}

/// Position of the pixel (`px`, `py`) in the row-major pixel sequence.
pub open spec fn pixel_index(px: int, py: int) -> int {
    px + DISPLAY_WIDTH * py
}

/// Whether a sprite drawn at (`x`, `y`) has a set pixel over the screen pixel
/// number `i`, counting only the sprite's first `rows` rows and, of row
/// number `rows`, the first `cols` columns. The start position wraps; the
/// sprite itself does not.
pub open spec fn covers_up_to(sprite: Seq<u8>, rows: int, cols: int, x: u8, y: u8, i: int) -> bool {
    let row = i / (DISPLAY_WIDTH as int) - (y as int) % (DISPLAY_HEIGHT as int);
    let col = i % (DISPLAY_WIDTH as int) - (x as int) % (DISPLAY_WIDTH as int);
    &&& 0 <= col < 8
    &&& 0 <= row < rows || (row == rows && col < cols)
    &&& sprite_bit(sprite[row], col)
}

/// Whether the `n`-row sprite drawn at (`x`, `y`) has a set pixel over the
/// screen pixel number `i`.
pub open spec fn covers(sprite: Seq<u8>, n: int, x: u8, y: u8, i: int) -> bool {
    covers_up_to(sprite, n, 0, x, y, i)
}

/// The screen after the `n`-row sprite was drawn at (`x`, `y`): every pixel
/// under a set sprite pixel is flipped, every other pixel stays.
pub open spec fn blit(pixels: Seq<bool>, sprite: Seq<u8>, n: int, x: u8, y: u8) -> Seq<bool> {
    Seq::new(DISPLAY_PIXELS as nat, |i: int| pixels[i] != covers(sprite, n, x, y, i))
}

/// Whether drawing the first `rows` rows of the sprite, and the first `cols`
/// columns of the row after them, turns a lit pixel off.
pub open spec fn collides_up_to(
    pixels: Seq<bool>,
    sprite: Seq<u8>,
    rows: int,
    cols: int,
    x: u8,
    y: u8,
) -> bool {
    exists|i: int|
        0 <= i < DISPLAY_PIXELS && pixels[i] && #[trigger] covers_up_to(sprite, rows, cols, x, y, i)
}

/// Whether drawing the `n`-row sprite at (`x`, `y`) turns a lit pixel off.
pub open spec fn collides(pixels: Seq<bool>, sprite: Seq<u8>, n: int, x: u8, y: u8) -> bool {
    collides_up_to(pixels, sprite, n, 0, x, y)
}

/// The eight pixels of a sprite row, leftmost first.
pub fn u8_to_bool_array(byte: u8) -> (bits: [bool; 8])
    ensures
        forall|col: int| 0 <= col < 8 ==> bits@[col] == sprite_bit(byte, col),
{
    let mut bool_array = [false;8];
    let mut i: usize = 0;
    while i < 8
        invariant
            i <= 8,
            forall|col: int| 0 <= col < i ==> bool_array@[col] == sprite_bit(byte, col),
        decreases 8 - i,
    {
        let shift: u8 = i as u8;
        let mask: u8 = 0b1000_0000u8 >> shift;
        assert(((byte & (0b1000_0000u8 >> shift)) != 0) == ((byte >> ((7 - shift) as u8)) & 1u8
            == 1u8)) by (bit_vector)
            requires
                shift < 8,
        ;
        bool_array[i] = (byte & mask) != 0;
        i += 1;
    }
    bool_array
}

/// A framebuffer of 64 by 32 pixels, row by row from the top left.
pub struct DisplayBuffer {
    display: Vec<bool>,
    display_width: usize,
    display_height: usize,
}

impl View for DisplayBuffer {
    type V = Seq<bool>;

    /// The pixels, row by row; `true` is a lit pixel.
    closed spec fn view(&self) -> Seq<bool> {
        self.display@
    }
}

impl DisplayBuffer {
    #[verifier::type_invariant]
    spec fn sized(self) -> bool {
        &&& self.display_width == DISPLAY_WIDTH
        &&& self.display_height == DISPLAY_HEIGHT
        &&& self.display@.len() == DISPLAY_PIXELS
    }

    /// A dark screen.
    pub fn new() -> (buffer: Self)
        ensures
            buffer@.len() == DISPLAY_PIXELS,
            buffer@ == Seq::new(DISPLAY_PIXELS as nat, |i: int| false),
    {
        let display_width: usize = 64;
        let display_height: usize = 32;

        let display = vec![false; 2048];

        Self { display, display_width, display_height }
    }

    /// Width of the screen in pixels.
    pub fn get_width(&self) -> (width: usize)
        ensures
            width == DISPLAY_WIDTH,
    {
        proof {
            use_type_invariant(self);
        }
        self.display_width
    }

    /// Height of the screen in pixels.
    pub fn get_height(&self) -> (height: usize)
        ensures
            height == DISPLAY_HEIGHT,
    {
        proof {
            use_type_invariant(self);
        }
        self.display_height
    }

    /// The pixels, row by row from the top left.
    pub fn pixels(&self) -> (pixels: &Vec<bool>)
        ensures
            pixels@ == self@,
            pixels@.len() == DISPLAY_PIXELS,
    {
        proof {
            use_type_invariant(self);
        }
        &self.display
    }

    /// Whether the pixel in column `x` of row `y` is lit; `None` off screen.
    pub fn pixel(&self, x: usize, y: usize) -> (lit: Option<bool>)
        ensures
            lit == if x < DISPLAY_WIDTH && y < DISPLAY_HEIGHT {
                Some(self@[pixel_index(x as int, y as int)])
            } else {
                None
            },
    {
        proof {
            use_type_invariant(self);
        }
        if x < DISPLAY_WIDTH && y < DISPLAY_HEIGHT {
            Some(self.display[x + DISPLAY_WIDTH * y])
        } else {
            None
        }
    }
}

impl Display for DisplayBuffer {
    /// The sprite is combined with the pixels by exclusive or, and the
    /// answer tells whether that turned a lit pixel off.
    open spec fn drawn(
        &self,
        sprite: Seq<u8>,
        n: u8,
        x: u8,
        y: u8,
        after: &Self,
        collision: bool,
    ) -> bool {
        &&& after@ == blit(self@, sprite, n as int, x, y)
        &&& collision == collides(self@, sprite, n as int, x, y)
    }

    /// Every pixel is dark.
    open spec fn cleared(&self, after: &Self) -> bool {
        after@ == Seq::new(DISPLAY_PIXELS as nat, |i: int| false)
    }

    fn modify(&mut self, sprite: &[u8], n: u8, x: u8, y: u8) -> (collision: bool)
        ensures
            final(self)@.len() == DISPLAY_PIXELS,
            final(self)@ == blit(old(self)@, sprite@, n as int, x, y),
            collision == collides(old(self)@, sprite@, n as int, x, y),
    {
        proof {
            use_type_invariant(&*self);
        }
        // set when a lit pixel is turned off
        let mut result_flag = false;

        // the start position wraps: x = 68 is the same as x = 4
        let actual_x: usize = x as usize % DISPLAY_WIDTH;
        let actual_y: usize = y as usize % DISPLAY_HEIGHT;

        let ghost before = self.display@;
        let mut line: usize = 0;
        // rows past the bottom edge are cut off
        while line < n as usize && actual_y + line < DISPLAY_HEIGHT
            invariant
                line <= n <= sprite@.len(),
                actual_x == x as int % 64,
                actual_y == y as int % 32,
                before.len() == DISPLAY_PIXELS,
                self.display@.len() == DISPLAY_PIXELS,
                self.display_width == DISPLAY_WIDTH,
                self.display_height == DISPLAY_HEIGHT,
                forall|k: int|
                    0 <= k < DISPLAY_PIXELS ==> self.display@[k] == (before[k] != covers_up_to(
                        sprite@,
                        line as int,
                        0,
                        x,
                        y,
                        k,
                    )),
                result_flag == collides_up_to(before, sprite@, line as int, 0, x, y),
            decreases n - line,
        {
            let line_bools = u8_to_bool_array(sprite[line]);

            let mut i: usize = 0;
            while i < 8
                invariant
                    i <= 8,
                    line < n <= sprite@.len(),
                    actual_x == x as int % 64,
                    actual_y == y as int % 32,
                    actual_y + line < DISPLAY_HEIGHT,
                    before.len() == DISPLAY_PIXELS,
                    self.display@.len() == DISPLAY_PIXELS,
                    self.display_width == DISPLAY_WIDTH,
                    self.display_height == DISPLAY_HEIGHT,
                    forall|col: int|
                        0 <= col < 8 ==> line_bools@[col] == sprite_bit(sprite@[line as int], col),
                    forall|k: int|
                        0 <= k < DISPLAY_PIXELS ==> self.display@[k] == (before[k]
                            != covers_up_to(sprite@, line as int, i as int, x, y, k)),
                    result_flag == collides_up_to(before, sprite@, line as int, i as int, x, y),
                decreases 8 - i,
            {
                let b = line_bools[i];
                // columns past the right edge are cut off
                if actual_x + i < DISPLAY_WIDTH {
                    let index = actual_x + i + DISPLAY_WIDTH * (line + actual_y);
                    let lit = self.display[index];
                    proof {
                        assert(index as int % 64 == actual_x + i);
                        assert(index as int / 64 == line + actual_y);
                        assert(!covers_up_to(sprite@, line as int, i as int, x, y, index as int));
                        assert(lit == before[index as int]);
                    }
                    // on booleans, != is exclusive or
                    self.display[index] = lit != b;

                    if b && lit {
                        result_flag = true;
                    }
                    proof {
                        lemma_column_drawn(
                            before,
                            sprite@,
                            line as int,
                            i as int,
                            x,
                            y,
                            index as int,
                        );
                    }
                } else {
                    proof {
                        lemma_column_clipped(before, sprite@, line as int, i as int, x, y);
                    }
                }
                i += 1;
            }
            proof {
                lemma_row_done(before, sprite@, line as int, x, y);
            }
            line += 1;
        }
        proof {
            lemma_rows_clipped(before, sprite@, line as int, n as int, x, y);
            assert(self.display@ =~= blit(before, sprite@, n as int, x, y));
        }
        result_flag
    }

    fn height(&self) -> (height: usize)
        ensures
            height == DISPLAY_HEIGHT,
    {
        proof {
            use_type_invariant(self);
        }
        self.display_height
    }

    fn width(&self) -> (width: usize)
        ensures
            width == DISPLAY_WIDTH,
    {
        proof {
            use_type_invariant(self);
        }
        self.display_width
    }

    fn clear(&mut self)
        ensures
            final(self)@.len() == DISPLAY_PIXELS,
            final(self)@ == Seq::new(DISPLAY_PIXELS as nat, |i: int| false),
    {
        proof {
            use_type_invariant(&*self);
        }
        let mut i: usize = 0;
        while i < DISPLAY_PIXELS
            invariant
                i <= DISPLAY_PIXELS,
                self.display@.len() == DISPLAY_PIXELS,
                self.display_width == DISPLAY_WIDTH,
                self.display_height == DISPLAY_HEIGHT,
                forall|k: int| 0 <= k < i ==> !self.display@[k],
            decreases DISPLAY_PIXELS - i,
        {
            self.display[i] = false;
            i += 1;
        }
        assert(self.display@ =~= Seq::new(DISPLAY_PIXELS as nat, |i: int| false));
    }
}

/// A witness of a collision among the first `rows` rows and `cols` columns.
spec fn collision_at(
    pixels: Seq<bool>,
    sprite: Seq<u8>,
    rows: int,
    cols: int,
    x: u8,
    y: u8,
) -> int {
    choose|i: int|
        0 <= i < DISPLAY_PIXELS && pixels[i] && #[trigger] covers_up_to(sprite, rows, cols, x, y, i)
}

/// Drawing column `col` of row `row` onto pixel `index` extends what has
/// been drawn by exactly that pixel.
proof fn lemma_column_drawn(
    pixels: Seq<bool>,
    sprite: Seq<u8>,
    row: int,
    col: int,
    x: u8,
    y: u8,
    index: int,
)
    requires
        pixels.len() == DISPLAY_PIXELS,
        0 <= row,
        0 <= col < 8,
        0 <= index < DISPLAY_PIXELS,
        index % 64 == (x as int) % 64 + col,
        index / 64 == (y as int) % 32 + row,
    ensures
        forall|k: int|
            0 <= k < DISPLAY_PIXELS && k != index ==> covers_up_to(sprite, row, col + 1, x, y, k)
                == covers_up_to(sprite, row, col, x, y, k),
        covers_up_to(sprite, row, col + 1, x, y, index) == sprite_bit(sprite[row], col),
        collides_up_to(pixels, sprite, row, col + 1, x, y) == (collides_up_to(
            pixels,
            sprite,
            row,
            col,
            x,
            y,
        ) || (pixels[index] && sprite_bit(sprite[row], col))),
{
    assert forall|k: int| 0 <= k < DISPLAY_PIXELS && k != index implies covers_up_to(
        sprite,
        row,
        col + 1,
        x,
        y,
        k,
    ) == covers_up_to(sprite, row, col, x, y, k) by {
        if k % 64 == index % 64 && k / 64 == index / 64 {
            assert(k == 64 * (k / 64) + k % 64);
            assert(index == 64 * (index / 64) + index % 64);
        }
    }
    if collides_up_to(pixels, sprite, row, col + 1, x, y) {
        let k = collision_at(pixels, sprite, row, col + 1, x, y);
        if k != index {
            assert(covers_up_to(sprite, row, col, x, y, k));
        }
    }
    if collides_up_to(pixels, sprite, row, col, x, y) {
        let k = collision_at(pixels, sprite, row, col, x, y);
        assert(covers_up_to(sprite, row, col + 1, x, y, k));
    }
    if pixels[index] && sprite_bit(sprite[row], col) {
        assert(covers_up_to(sprite, row, col + 1, x, y, index));
    }
}

/// A column past the right edge of the screen lies over no pixel.
proof fn lemma_column_clipped(pixels: Seq<bool>, sprite: Seq<u8>, row: int, col: int, x: u8, y: u8)
    requires
        0 <= row,
        0 <= col < 8,
        (x as int) % 64 + col >= DISPLAY_WIDTH,
    ensures
        forall|k: int|
            0 <= k < DISPLAY_PIXELS ==> covers_up_to(sprite, row, col + 1, x, y, k)
                == covers_up_to(sprite, row, col, x, y, k),
        collides_up_to(pixels, sprite, row, col + 1, x, y) == collides_up_to(
            pixels,
            sprite,
            row,
            col,
            x,
            y,
        ),
{
    if collides_up_to(pixels, sprite, row, col + 1, x, y) {
        let k = collision_at(pixels, sprite, row, col + 1, x, y);
        assert(covers_up_to(sprite, row, col, x, y, k));
    }
    if collides_up_to(pixels, sprite, row, col, x, y) {
        let k = collision_at(pixels, sprite, row, col, x, y);
        assert(covers_up_to(sprite, row, col + 1, x, y, k));
    }
}

/// All eight columns of a row are the whole row.
proof fn lemma_row_done(pixels: Seq<bool>, sprite: Seq<u8>, row: int, x: u8, y: u8)
    requires
        0 <= row,
    ensures
        forall|k: int|
            covers_up_to(sprite, row, 8, x, y, k) == covers_up_to(sprite, row + 1, 0, x, y, k),
        collides_up_to(pixels, sprite, row, 8, x, y) == collides_up_to(
            pixels,
            sprite,
            row + 1,
            0,
            x,
            y,
        ),
{
    if collides_up_to(pixels, sprite, row, 8, x, y) {
        let k = collision_at(pixels, sprite, row, 8, x, y);
        assert(covers_up_to(sprite, row + 1, 0, x, y, k));
    }
    if collides_up_to(pixels, sprite, row + 1, 0, x, y) {
        let k = collision_at(pixels, sprite, row + 1, 0, x, y);
        assert(covers_up_to(sprite, row, 8, x, y, k));
    }
}

/// Rows past the bottom edge of the screen lie over no pixel: once `drawn`
/// rows reach the edge, they are all of the sprite that shows.
proof fn lemma_rows_clipped(pixels: Seq<bool>, sprite: Seq<u8>, drawn: int, n: int, x: u8, y: u8)
    requires
        0 <= drawn <= n,
        drawn == n || (y as int) % 32 + drawn >= DISPLAY_HEIGHT,
    ensures
        forall|k: int|
            0 <= k < DISPLAY_PIXELS ==> covers_up_to(sprite, drawn, 0, x, y, k) == covers(
                sprite,
                n,
                x,
                y,
                k,
            ),
        collides_up_to(pixels, sprite, drawn, 0, x, y) == collides(pixels, sprite, n, x, y),
{
    if collides_up_to(pixels, sprite, drawn, 0, x, y) {
        let k = collision_at(pixels, sprite, drawn, 0, x, y);
        assert(covers_up_to(sprite, n, 0, x, y, k));
    }
    if collides_up_to(pixels, sprite, n, 0, x, y) {
        let k = collision_at(pixels, sprite, n, 0, x, y);
        assert(covers_up_to(sprite, drawn, 0, x, y, k));
    }
}

} // verus!
