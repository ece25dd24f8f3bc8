use vstd::prelude::*;

verus! {

use vstd::arithmetic::div_mod::{lemma_add_mod_noop, lemma_mod_add_multiples_vanish, lemma_small_mod};

pub const DISPLAY_WIDTH: usize = 64;

pub const DISPLAY_HEIGHT: usize = 32;

/// Number of cells of the screen.
pub const DISPLAY_PIXELS: usize = DISPLAY_WIDTH * DISPLAY_HEIGHT;

pub const KEY_COUNT: usize = 16;

/// Sprites of the hexadecimal digits 0..F, five bytes each.
pub const FONTSET: [u8; 80] = [
    0xF0, 0x90, 0x90, 0x90, 0xF0, // 0
    0x20, 0x60, 0x20, 0x20, 0x70, // 1
    0xF0, 0x10, 0xF0, 0x80, 0xF0, // 2
    0xF0, 0x10, 0xF0, 0x10, 0xF0, // 3
    0x90, 0x90, 0xF0, 0x10, 0x10, // 4
    0xF0, 0x80, 0xF0, 0x10, 0xF0, // 5
    0xF0, 0x80, 0xF0, 0x90, 0xF0, // 6
    0xF0, 0x10, 0x20, 0x40, 0x40, // 7
    0xF0, 0x90, 0xF0, 0x90, 0xF0, // 8
    0xF0, 0x90, 0xF0, 0x10, 0xF0, // 9
    0xF0, 0x90, 0xF0, 0x90, 0x90, // A
    0xE0, 0x90, 0xE0, 0x90, 0xE0, // B
    0xF0, 0x80, 0x80, 0x80, 0xF0, // C
    0xE0, 0x90, 0x90, 0x90, 0xE0, // D
    0xF0, 0x80, 0xF0, 0x80, 0xF0, // E
    0xF0, 0x80, 0xF0, 0x80, 0x80, // F
];

pub type Timer = u8;

/// Frame-buffer colour (0RGB) of a lit cell.
pub const LIT_COLOR: u32 = 0x00FFFFFF;

/// Frame-buffer colour (0RGB) of a dark cell.
pub const DARK_COLOR: u32 = 0x00000000;

/// How long to beep for a sound timer value: each unit of the 60 Hz timer is
/// about 16.7 ms, and a beep lasts at least 50 ms.
pub fn beep_duration_ms(sound_timer: Timer) -> (ms: u32)
    ensures
        ms == if sound_timer as int * 1000 / 60 >= 50 {
            sound_timer as int * 1000 / 60
        } else {
            50
        },
        ms >= 50,
        sound_timer >= 3 ==> ms * 60 <= sound_timer * 1000 < ms * 60 + 60,
        sound_timer < 3 ==> ms == 50,
{
    let ms = sound_timer as u32 * 1000 / 60;
    if ms >= 50 {
        ms
    } else {
        50
    }
}

/// Whether bit `bit` (0 is the leftmost, most significant) of a sprite row is set.
pub open spec fn sprite_bit(byte: u8, bit: int) -> bool {
    byte & (0x80u8 >> (bit as u8)) != 0
}

/// The screen cell hit by bit `bit` of row `row` of a sprite drawn at (x, y)
/// on a `w` x `h` screen: coordinates wrap around the edges.
pub open spec fn sprite_cell(x: int, y: int, w: int, h: int, row: int, bit: int) -> int {
    ((y + row) % h) * w + (x + bit) % w
}

/// The screen and collision flag after the first `k` pixel steps of drawing
/// `sprite` at (x, y), row by row and, in a row, bit by bit from the left:
/// each set bit flips its cell, and the flag records whether a lit cell was
/// turned off.
pub open spec fn draw_steps(
    pixels: Seq<bool>,
    x: int,
    y: int,
    w: int,
    h: int,
    sprite: Seq<u8>,
    k: nat,
) -> (Seq<bool>, bool)
    decreases k,
{
    if k == 0 {
        (pixels, false)
    } else {
        let prev = draw_steps(pixels, x, y, w, h, sprite, (k - 1) as nat);
        let row = (k - 1) / 8;
        let bit = (k - 1) % 8;
        if sprite_bit(sprite[row], bit) {
            let cell = sprite_cell(x, y, w, h, row, bit);
            (prev.0.update(cell, !prev.0[cell]), prev.1 || prev.0[cell])
        } else {
            prev
        }
    }
}

/// The screen and collision flag once the whole sprite is drawn.
pub open spec fn draw_result(
    pixels: Seq<bool>,
    x: int,
    y: int,
    w: int,
    h: int,
    sprite: Seq<u8>,
) -> (Seq<bool>, bool) {
    draw_steps(pixels, x, y, w, h, sprite, (8 * sprite.len()) as nat)
}

/// Whether pixel step `i` (row `i / 8`, bit `i % 8`) of the sprite is a set bit.
pub open spec fn step_set(sprite: Seq<u8>, i: int) -> bool {
    sprite_bit(sprite[i / 8], i % 8)
}

/// The cell that pixel step `i` reaches.
pub open spec fn step_cell(x: int, y: int, w: int, h: int, i: int) -> int {
    sprite_cell(x, y, w, h, i / 8, i % 8)
}

/// Every set bit of the sprite, drawn at (x, y) on a `w` x `h` screen, reaches
/// a cell of a buffer of `len` pixels (so the screen has a width and a height
/// whenever a bit is set).
pub open spec fn sprite_fits(x: int, y: int, w: int, h: int, sprite: Seq<u8>, len: int) -> bool {
    forall|i: int|
        0 <= i < 8 * sprite.len() && #[trigger] step_set(sprite, i) ==> 0 < w && 0 < h && 0
            <= step_cell(x, y, w, h, i) < len
}

/// (a + b) % m for a and b below m, without overflow.
fn wrap_add(a: usize, b: usize, m: usize) -> (r: usize)
    requires
        a < m,
        b < m,
    ensures
        r == (a + b) % (m as int),
{
    if a >= m - b {
        proof {
            lemma_mod_add_multiples_vanish((a + b - m) as int, m as int);
            lemma_small_mod((a + b - m) as nat, m as nat);
        }
        a - (m - b)
    } else {
        proof {
            lemma_small_mod((a + b) as nat, m as nat);
        }
        a + b
    }
}

/// The cell reached by bit `bit` of row `row` of a sprite drawn at (x, y),
/// computed without overflow; `None` when it lies past `usize`.
fn cell_of(x: usize, y: usize, w: usize, h: usize, row: usize, bit: usize) -> (c: Option<usize>)
    requires
        0 < w,
        0 < h,
    ensures
        c matches Some(v) ==> v == sprite_cell(x as int, y as int, w as int, h as int, row as int, bit as int),
        c is None ==> sprite_cell(x as int, y as int, w as int, h as int, row as int, bit as int) > usize::MAX,
{
    let py = wrap_add(y % h, row % h, h);
    let px = wrap_add(x % w, bit % w, w);
    proof {
        lemma_add_mod_noop(y as int, row as int, h as int);
        lemma_add_mod_noop(x as int, bit as int, w as int);
    }
    match py.checked_mul(w) {
        Some(a) => match a.checked_add(px) {
            Some(c) => Some(c),
            None => None,
        },
        None => {
            proof {
                assert(py * w <= py * w + px);
            }
            None
        },
    }
}

pub struct Display {
    pub width: usize,
    pub height: usize,
    pub pixel: [bool; DISPLAY_PIXELS],
    pub modify_display: bool,
}

impl Display {
    pub fn new() -> (d: Self)
        ensures
            d.width == DISPLAY_WIDTH,
            d.height == DISPLAY_HEIGHT,
            forall|i: int| 0 <= i < DISPLAY_PIXELS ==> !#[trigger] d.pixel@[i],
            !d.modify_display,
    {
        Self {
            width: DISPLAY_WIDTH,
            height: DISPLAY_HEIGHT,
            pixel: [false; DISPLAY_PIXELS],
            modify_display: false,
        }
    }

    /// Clears the screen (opcode 00E0).
    pub fn clear(&mut self)
        ensures
            forall|i: int| 0 <= i < DISPLAY_PIXELS ==> !#[trigger] final(self).pixel@[i],
            final(self).modify_display,
            final(self).width == old(self).width,
            final(self).height == old(self).height,
    {
        self.pixel = [false; DISPLAY_PIXELS];
        self.modify_display = true;
    }

    /// Paints the screen into a frame buffer: lit cells white, dark cells black.
    pub fn render(&self, frame: &mut [u32; DISPLAY_PIXELS])
        ensures
            forall|i: int|
                0 <= i < DISPLAY_PIXELS ==> #[trigger] final(frame)@[i] == if self.pixel@[i] {
                    LIT_COLOR
                } else {
                    DARK_COLOR
                },
    {
        let mut i: usize = 0;
        while i < DISPLAY_PIXELS
            invariant
                i <= DISPLAY_PIXELS,
                forall|j: int|
                    0 <= j < i ==> #[trigger] frame@[j] == if self.pixel@[j] {
                        LIT_COLOR
                    } else {
                        DARK_COLOR
                    },
            decreases DISPLAY_PIXELS - i,
        {
            frame[i] = if self.pixel[i] {
                LIT_COLOR
            } else {
                DARK_COLOR
            };
            i += 1;
        }
    }

    /// Whether every set bit of `sprite` drawn at (x, y) lands in the pixel buffer.
    pub fn can_draw(&self, x: usize, y: usize, sprite: &[u8]) -> (fits: bool)
        ensures
            fits == sprite_fits(
                x as int,
                y as int,
                self.width as int,
                self.height as int,
                sprite@,
                DISPLAY_PIXELS as int,
            ),
    {
        let w = self.width;
        let h = self.height;
        let mut row: usize = 0;
        while row < sprite.len()
            invariant
                w == self.width,
                h == self.height,
                row <= sprite@.len(),
                forall|i: int|
                    0 <= i < 8 * row && #[trigger] step_set(sprite@, i) ==> 0 < w && 0 < h && 0
                        <= step_cell(x as int, y as int, w as int, h as int, i) < DISPLAY_PIXELS,
            decreases sprite@.len() - row,
        {
            let byte = sprite[row];
            let mut bit: u8 = 0;
            while bit < 8
                invariant
                    w == self.width,
                    h == self.height,
                    row < sprite@.len(),
                    byte == sprite@[row as int],
                    bit <= 8,
                    forall|i: int|
                        0 <= i < 8 * row + bit && #[trigger] step_set(sprite@, i) ==> 0 < w && 0
                            < h && 0 <= step_cell(x as int, y as int, w as int, h as int, i)
                            < DISPLAY_PIXELS,
                decreases 8 - bit,
            {
                let ghost k = 8 * row + bit;
                assert(k / 8 == row && k % 8 == bit) by (nonlinear_arith)
                    requires k == 8 * row + bit, bit < 8;
                if byte & (0x80u8 >> bit) != 0 {
                    assert(step_set(sprite@, k));
                    if w == 0 || h == 0 {
                        return false;
                    }
                    match cell_of(x, y, w, h, row, bit as usize) {
                        Some(c) => {
                            if c >= DISPLAY_PIXELS {
                                return false;
                            }
                        },
                        None => {
                            return false;
                        },
                    }
                }
                bit += 1;
            }
            row += 1;
        }
        true
    }

    /// Draws `sprite` with xor at (x, y), wrapping around the screen edges;
    /// returns true if any lit pixel was turned off (a collision).
    pub fn draw_sprite(&mut self, x: usize, y: usize, sprite: &[u8]) -> (collision: bool)
        requires
            sprite_fits(
                x as int,
                y as int,
                old(self).width as int,
                old(self).height as int,
                sprite@,
                DISPLAY_PIXELS as int,
            ),
        ensures
            final(self).pixel@ == draw_result(
                old(self).pixel@,
                x as int,
                y as int,
                old(self).width as int,
                old(self).height as int,
                sprite@,
            ).0,
            collision == draw_result(
                old(self).pixel@,
                x as int,
                y as int,
                old(self).width as int,
                old(self).height as int,
                sprite@,
            ).1,
            final(self).modify_display,
            final(self).width == old(self).width,
            final(self).height == old(self).height,
    {
        let w = self.width;
        let h = self.height;
        let ghost start = self.pixel@;
        let mut collision = false;
        let mut row: usize = 0;
        while row < sprite.len()
            invariant
                w == self.width,
                h == self.height,
                sprite_fits(x as int, y as int, w as int, h as int, sprite@, DISPLAY_PIXELS as int),
                row <= sprite@.len(),
                (self.pixel@, collision) == draw_steps(
                    start,
                    x as int,
                    y as int,
                    w as int,
                    h as int,
                    sprite@,
                    (8 * row) as nat,
                ),
            decreases sprite@.len() - row,
        {
            let byte = sprite[row];
            let mut bit: u8 = 0;
            while bit < 8
                invariant
                    w == self.width,
                    h == self.height,
                    sprite_fits(x as int, y as int, w as int, h as int, sprite@, DISPLAY_PIXELS as int),
                    row < sprite@.len(),
                    byte == sprite@[row as int],
                    bit <= 8,
                    (self.pixel@, collision) == draw_steps(
                        start,
                        x as int,
                        y as int,
                        w as int,
                        h as int,
                        sprite@,
                        (8 * row + bit) as nat,
                    ),
                decreases 8 - bit,
            {
                let ghost k = (8 * row + bit) as nat;
                assert((k + 1 - 1) / 8 == row && (k + 1 - 1) % 8 == bit) by (nonlinear_arith)
                    requires k == 8 * row + bit, bit < 8;
                if byte & (0x80u8 >> bit) != 0 {
                    assert(step_set(sprite@, k as int));
                    let index = match cell_of(x, y, w, h, row, bit as usize) {
                        Some(c) => c,
                        None => 0,
                    };
                    let lit = self.pixel[index];
                    if lit {
                        collision = true;
                    }
                    self.pixel[index] = !lit;
                }
                bit += 1;
            }
            row += 1;
        }
        self.modify_display = true;
        collision
    }
}

pub struct Keyboard {
    pub key: [bool; KEY_COUNT],
}

/// The lowest index below `n` whose key is pressed, if any.
pub open spec fn first_pressed_below(keys: Seq<bool>, n: int) -> Option<int>
    decreases n,
{
    if n <= 0 {
        None
    } else {
        match first_pressed_below(keys, n - 1) {
            Some(i) => Some(i),
            None => if keys[n - 1] {
                Some(n - 1)
            } else {
                None
            },
        }
    }
}

/// The lowest pressed key below `n` is the one that is pressed with none
/// pressed before it, and there is none exactly when no key below `n` is pressed.
pub proof fn lemma_first_pressed_below(keys: Seq<bool>, n: int)
    requires
        0 <= n <= keys.len(),
    ensures
        match first_pressed_below(keys, n) {
            Some(i) => 0 <= i < n && keys[i] && forall|j: int| 0 <= j < i ==> !#[trigger] keys[j],
            None => forall|j: int| 0 <= j < n ==> !#[trigger] keys[j],
        },
    decreases n,
{
    if n > 0 {
        lemma_first_pressed_below(keys, n - 1);
    }
}

impl Keyboard {
    pub fn new() -> (k: Self)
        ensures
            forall|i: int| 0 <= i < KEY_COUNT ==> !#[trigger] k.key@[i],
    {
        Self { key: [false; KEY_COUNT] }
    }

    pub fn is_pressed(&self, key: u8) -> (pressed: bool)
        requires
            key < KEY_COUNT,
        ensures
            pressed == self.key@[key as int],
    {
        self.key[key as usize]
    }

    /// The first pressed key, if any (used by opcode FX0A).
    pub fn first_pressed(&self) -> (first: Option<u8>)
        ensures
            first matches Some(k) ==> first_pressed_below(self.key@, KEY_COUNT as int) == Some(
                k as int,
            ),
            first is None ==> first_pressed_below(self.key@, KEY_COUNT as int) is None,
            first matches Some(k) ==> k < KEY_COUNT && self.key@[k as int] && forall|j: int|
                0 <= j < k ==> !#[trigger] self.key@[j],
            first is None <==> forall|j: int| 0 <= j < KEY_COUNT ==> !#[trigger] self.key@[j],
    {
        proof {
            lemma_first_pressed_below(self.key@, KEY_COUNT as int);
        }
        let mut i: usize = 0;
        while i < KEY_COUNT
            invariant
                i <= KEY_COUNT,
                first_pressed_below(self.key@, i as int) is None,
            decreases KEY_COUNT - i,
        {
            if self.key[i] {
                proof {
                    lemma_first_pressed_below(self.key@, i as int);
                    lemma_first_pressed_below(self.key@, KEY_COUNT as int);
                    let j = first_pressed_below(self.key@, KEY_COUNT as int)->Some_0;
                    assert(self.key@[i as int]);
                    assert(j == i) by {
                        if j < i {
                            assert(self.key@[j]);
                        }
                    }
                }
                return Some(i as u8);
            }
            i += 1;
        }
        None
    }
}

} // verus!
