//! Properties of the machine that span instructions or calls.
use vstd::prelude::*;
use crate::inout::{draw_result, draw_steps, sprite_bit, sprite_cell, sprite_fits, step_cell, step_set, FONTSET};
use crate::isa::Instruction;
use crate::machine::{bcd_digits, xorshift, Machine};
use crate::memory::FONTSET_START_ADDRESS;
use vstd::arithmetic::div_mod::lemma_fundamental_div_mod;

verus! {

/// A return right after a call gives back the state from before the call.
pub proof fn lemma_return_undoes_call(s: Machine, nnn: u16)
    requires
        s.can_execute(Instruction::Call(nnn)),
    ensures
        s.execute(Instruction::Call(nnn)).can_execute(Instruction::Return),
        s.execute(Instruction::Call(nnn)).execute(Instruction::Return) == s,
{
    let t = s.execute(Instruction::Call(nnn));
    assert(t.stack.drop_last() =~= s.stack);
}

/// FX55 and FX65 move the index pointer past the registers they store or
/// load; loading V0..=VX from where they were just stored gives them back.
pub proof fn lemma_load_after_store(s: Machine, x: usize)
    requires
        s.wf(),
        s.can_execute(Instruction::StoreRegisters(x)),
    ensures
        s.execute(Instruction::StoreRegisters(x)).index == s.index + x + 1,
        ({
            let stored = s.execute(Instruction::StoreRegisters(x));
            let rewound = Machine { index: s.index, ..stored };
            &&& rewound.can_execute(Instruction::LoadRegisters(x))
            &&& rewound.execute(Instruction::LoadRegisters(x)) == stored
            &&& rewound.execute(Instruction::LoadRegisters(x)).registers == s.registers
        }),
{
    let t = s.execute(Instruction::StoreRegisters(x));
    let r = Machine { index: s.index, ..t };
    let u = r.execute(Instruction::LoadRegisters(x));
    assert(u.registers =~= s.registers);
}

/// The xorshift generator never reaches the state zero from another state,
/// so the random bytes never get stuck at zero.
pub proof fn lemma_xorshift_nonzero(v: u16)
    requires
        v != 0,
    ensures
        xorshift(v) != 0,
{
    let a = v ^ (v << 7u16);
    let b = a ^ (a >> 9u16);
    let c = b ^ (b << 8u16);
    assert(v != 0 ==> a != 0) by (bit_vector)
        requires a == v ^ (v << 7u16);
    assert(a != 0 ==> b != 0) by (bit_vector)
        requires b == a ^ (a >> 9u16);
    assert(b != 0 ==> c != 0) by (bit_vector)
        requires c == b ^ (b << 8u16);
}

/// The three stored decimal digits are digits and spell the value.
pub proof fn lemma_bcd_digits(v: u8)
    ensures
        bcd_digits(v).len() == 3,
        bcd_digits(v)[0] < 10 && bcd_digits(v)[1] < 10 && bcd_digits(v)[2] < 10,
        100 * bcd_digits(v)[0] + 10 * bcd_digits(v)[1] + bcd_digits(v)[2] == v,
{
}

/// With VX other than VF, 8XY4 leaves the low byte of the sum in VX and the
/// carry in VF: VX' + 256 * VF' is the true sum.
pub proof fn lemma_add_carry(s: Machine, x: usize, y: usize)
    requires
        s.wf(),
        s.can_execute(Instruction::AddRegisters(x, y)),
        x != 0xF,
    ensures
        ({
            let t = s.execute(Instruction::AddRegisters(x, y));
            &&& t.registers[x as int] + 256 * t.registers[0xF] == s.registers[x as int]
                + s.registers[y as int]
            &&& t.registers[0xF] <= 1
        }),
{
}

/// With VX other than VF, 8XY5 leaves VX - VY modulo 256 in VX and sets VF
/// to 1 exactly when no borrow was needed.
pub proof fn lemma_sub_borrow(s: Machine, x: usize, y: usize)
    requires
        s.wf(),
        s.can_execute(Instruction::SubRegisters(x, y)),
        x != 0xF,
    ensures
        ({
            let t = s.execute(Instruction::SubRegisters(x, y));
            &&& t.registers[x as int] == s.registers[x as int] - s.registers[y as int] + 256 * (1
                - t.registers[0xF])
            &&& t.registers[0xF] <= 1
        }),
{
}

/// With VX other than VF, the shifts put VY shifted by one into VX and the
/// bit shifted out of VY into VF: no bit of VY is lost.
pub proof fn lemma_shifts_keep_dropped_bit(s: Machine, x: usize, y: usize)
    requires
        s.wf(),
        s.can_execute(Instruction::ShiftRight(x, y)),
        x != 0xF,
    ensures
        ({
            let t = s.execute(Instruction::ShiftRight(x, y));
            2 * t.registers[x as int] + t.registers[0xF] == s.registers[y as int]
                && t.registers[0xF] <= 1
        }),
        ({
            let t = s.execute(Instruction::ShiftLeft(x, y));
            t.registers[x as int] + 256 * t.registers[0xF] == 2 * s.registers[y as int]
                && t.registers[0xF] <= 1
        }),
{
}

/// With VX other than VF, the logic instructions 8XY1, 8XY2 and 8XY3 clear VF.
pub proof fn lemma_logic_clears_flag(s: Machine, x: usize, y: usize)
    requires
        s.wf(),
        s.can_execute(Instruction::Or(x, y)),
        x != 0xF,
    ensures
        s.execute(Instruction::Or(x, y)).registers[0xF] == 0,
        s.execute(Instruction::And(x, y)).registers[0xF] == 0,
        s.execute(Instruction::Xor(x, y)).registers[0xF] == 0,
        s.execute(Instruction::Or(x, y)).registers[x as int] == s.registers[x as int]
            | s.registers[y as int],
{
}

/// FX29 points the index at the five-byte font sprite of the low nibble of
/// VX, wherever the font is still in place.
pub proof fn lemma_font_sprite(s: Machine, x: usize)
    requires
        s.wf(),
        s.can_execute(Instruction::FontSprite(x)),
        s.memory.subrange(FONTSET_START_ADDRESS as int, FONTSET_START_ADDRESS + 80) == FONTSET@,
    ensures
        ({
            let t = s.execute(Instruction::FontSprite(x));
            let d = s.registers[x as int] % 16;
            t.memory.subrange(t.index as int, t.index + 5) == FONTSET@.subrange(5 * d, 5 * d + 5)
        }),
{
    let t = s.execute(Instruction::FontSprite(x));
    let d = s.registers[x as int] % 16;
    let font = s.memory.subrange(FONTSET_START_ADDRESS as int, FONTSET_START_ADDRESS + 80);
    assert forall|i: int| 0 <= i < 5 implies #[trigger] t.memory.subrange(
        t.index as int,
        t.index + 5,
    )[i] == FONTSET@.subrange(5 * d, 5 * d + 5)[i] by {
        assert(font[5 * d + i] == s.memory[FONTSET_START_ADDRESS + 5 * d + i]);
    }
    assert(t.memory.subrange(t.index as int, t.index + 5) =~= FONTSET@.subrange(5 * d, 5 * d + 5));
}

/// How many of the first `k` pixel steps of drawing `sprite` at (x, y) flip cell `q`.
pub open spec fn flip_count(
    x: int,
    y: int,
    w: int,
    h: int,
    sprite: Seq<u8>,
    q: int,
    k: nat,
) -> nat
    decreases k,
{
    if k == 0 {
        0
    } else {
        let row = (k - 1) / 8;
        let bit = (k - 1) % 8;
        flip_count(x, y, w, h, sprite, q, (k - 1) as nat) + if sprite_bit(sprite[row], bit)
            && sprite_cell(x, y, w, h, row, bit) == q {
            1nat
        } else {
            0nat
        }
    }
}

/// Every cell a sprite reaches lies on the screen.
pub proof fn lemma_sprite_cell_in_range(x: int, y: int, w: int, h: int, row: int, bit: int)
    requires
        0 < w,
        0 < h,
    ensures
        0 <= sprite_cell(x, y, w, h, row, bit) < w * h,
{
    let a = (y + row) % h;
    let b = (x + bit) % w;
    assert(0 <= a * w + b < w * h) by (nonlinear_arith)
        requires 0 <= a < h, 0 <= b < w;
}

/// On a screen whose cells all lie in the buffer, every sprite fits.
pub proof fn lemma_fits_when_screen_fits(
    x: int,
    y: int,
    w: int,
    h: int,
    sprite: Seq<u8>,
    len: int,
)
    requires
        0 < w,
        0 < h,
        w * h <= len,
    ensures
        sprite_fits(x, y, w, h, sprite, len),
{
    assert forall|i: int| 0 <= i < 8 * sprite.len() && #[trigger] step_set(sprite, i) implies 0 < w
        && 0 < h && 0 <= step_cell(x, y, w, h, i) < len by {
        lemma_sprite_cell_in_range(x, y, w, h, i / 8, i % 8);
    }
}

/// After `k` steps, a cell is lit exactly when it started lit xor it was flipped an odd
/// number of times.
pub proof fn lemma_draw_steps_parity(
    pixels: Seq<bool>,
    x: int,
    y: int,
    w: int,
    h: int,
    sprite: Seq<u8>,
    k: nat,
)
    requires
        sprite_fits(x, y, w, h, sprite, pixels.len() as int),
        k <= 8 * sprite.len(),
    ensures
        draw_steps(pixels, x, y, w, h, sprite, k).0.len() == pixels.len(),
        forall|q: int|
            0 <= q < pixels.len() ==> #[trigger] draw_steps(pixels, x, y, w, h, sprite, k).0[q]
                == (pixels[q] != (flip_count(x, y, w, h, sprite, q, k) % 2 == 1)),
    decreases k,
{
    if k > 0 {
        lemma_draw_steps_parity(pixels, x, y, w, h, sprite, (k - 1) as nat);
        if step_set(sprite, k - 1) {
            assert(0 <= step_cell(x, y, w, h, k - 1) < pixels.len());
        }
    }
}

/// Drawing a sprite twice at the same place gives back the screen: xor undoes itself.
pub proof fn lemma_draw_twice_restores(
    pixels: Seq<bool>,
    x: int,
    y: int,
    w: int,
    h: int,
    sprite: Seq<u8>,
)
    requires
        sprite_fits(x, y, w, h, sprite, pixels.len() as int),
    ensures
        draw_result(draw_result(pixels, x, y, w, h, sprite).0, x, y, w, h, sprite).0 == pixels,
{
    let k = (8 * sprite.len()) as nat;
    let once = draw_result(pixels, x, y, w, h, sprite).0;
    lemma_draw_steps_parity(pixels, x, y, w, h, sprite, k);
    lemma_draw_steps_parity(once, x, y, w, h, sprite, k);
    let twice = draw_result(once, x, y, w, h, sprite).0;
    assert forall|q: int| 0 <= q < pixels.len() implies #[trigger] twice[q] == pixels[q] by {
        assert(once[q] == (pixels[q] != (flip_count(x, y, w, h, sprite, q, k) % 2 == 1)));
    }
    assert(twice =~= pixels);
}

/// No two set bits of the sprite reach the same cell: the sprite does not
/// wrap around onto itself.
pub open spec fn no_self_overlap(x: int, y: int, w: int, h: int, sprite: Seq<u8>) -> bool {
    forall|i: int, j: int|
        0 <= i < j < 8 * sprite.len() && #[trigger] step_set(sprite, i) && #[trigger] step_set(
            sprite,
            j,
        ) ==> step_cell(x, y, w, h, i) != step_cell(x, y, w, h, j)
}

/// The sprite has at least one set bit.
pub open spec fn has_set_bit(sprite: Seq<u8>) -> bool {
    exists|i: int| 0 <= i < 8 * sprite.len() && #[trigger] step_set(sprite, i)
}

/// Some set bit of the sprite reaches a cell that is lit (`lit`) or dark (`!lit`) in `pixels`.
pub open spec fn hits_cell_lit(
    pixels: Seq<bool>,
    x: int,
    y: int,
    w: int,
    h: int,
    sprite: Seq<u8>,
    lit: bool,
) -> bool {
    exists|i: int|
        0 <= i < 8 * sprite.len() && #[trigger] step_set(sprite, i) && pixels[step_cell(
            x,
            y,
            w,
            h,
            i,
        )] == lit
}

/// A screen with every cell dark.
pub open spec fn blank(pixels: Seq<bool>) -> bool {
    forall|q: int| 0 <= q < pixels.len() ==> !#[trigger] pixels[q]
}

proof fn lemma_flip_count_none(
    x: int,
    y: int,
    w: int,
    h: int,
    sprite: Seq<u8>,
    q: int,
    k: nat,
)
    requires
        forall|i: int| 0 <= i < k && #[trigger] step_set(sprite, i) ==> step_cell(x, y, w, h, i) != q,
    ensures
        flip_count(x, y, w, h, sprite, q, k) == 0,
    decreases k,
{
    if k > 0 {
        assert(step_set(sprite, k - 1) ==> step_cell(x, y, w, h, k - 1) != q);
        lemma_flip_count_none(x, y, w, h, sprite, q, (k - 1) as nat);
    }
}

proof fn lemma_flip_count_single(
    x: int,
    y: int,
    w: int,
    h: int,
    sprite: Seq<u8>,
    i0: int,
    k: nat,
)
    requires
        no_self_overlap(x, y, w, h, sprite),
        0 <= i0 < 8 * sprite.len(),
        step_set(sprite, i0),
        k <= 8 * sprite.len(),
    ensures
        flip_count(x, y, w, h, sprite, step_cell(x, y, w, h, i0), k) == if i0 < k {
            1int
        } else {
            0int
        },
    decreases k,
{
    if k > 0 {
        lemma_flip_count_single(x, y, w, h, sprite, i0, (k - 1) as nat);
        let j = k - 1;
        if j != i0 && step_set(sprite, j) {
            if j < i0 {
                assert(step_cell(x, y, w, h, j) != step_cell(x, y, w, h, i0));
            } else {
                assert(step_cell(x, y, w, h, i0) != step_cell(x, y, w, h, j));
            }
        }
    }
}

proof fn lemma_collision_upto(
    pixels: Seq<bool>,
    x: int,
    y: int,
    w: int,
    h: int,
    sprite: Seq<u8>,
    k: nat,
)
    requires
        sprite_fits(x, y, w, h, sprite, pixels.len() as int),
        no_self_overlap(x, y, w, h, sprite),
        k <= 8 * sprite.len(),
    ensures
        draw_steps(pixels, x, y, w, h, sprite, k).1 == exists|i: int|
            0 <= i < k && #[trigger] step_set(sprite, i) && pixels[step_cell(x, y, w, h, i)],
    decreases k,
{
    if k > 0 {
        let i = k - 1;
        lemma_collision_upto(pixels, x, y, w, h, sprite, i as nat);
        lemma_draw_steps_parity(pixels, x, y, w, h, sprite, i as nat);
        if step_set(sprite, i) {
            let t = step_cell(x, y, w, h, i);
            assert forall|j: int| 0 <= j < i && #[trigger] step_set(sprite, j) implies step_cell(
                x,
                y,
                w,
                h,
                j,
            ) != t by {}
            lemma_flip_count_none(x, y, w, h, sprite, t, i as nat);
        } else {
            assert forall|j: int|
                0 <= j < k && #[trigger] step_set(sprite, j) implies 0 <= j < i by {}
        }
    }
}

/// For a sprite that does not wrap onto itself, the draw reports a collision
/// exactly when one of its set bits reaches a lit cell.
pub proof fn lemma_draw_collision(
    pixels: Seq<bool>,
    x: int,
    y: int,
    w: int,
    h: int,
    sprite: Seq<u8>,
)
    requires
        sprite_fits(x, y, w, h, sprite, pixels.len() as int),
        no_self_overlap(x, y, w, h, sprite),
    ensures
        draw_result(pixels, x, y, w, h, sprite).1 == hits_cell_lit(pixels, x, y, w, h, sprite, true),
{
    let n = (8 * sprite.len()) as nat;
    lemma_collision_upto(pixels, x, y, w, h, sprite, n);
    if draw_result(pixels, x, y, w, h, sprite).1 {
        let i = choose|i: int|
            0 <= i < n && #[trigger] step_set(sprite, i) && pixels[step_cell(x, y, w, h, i)];
        assert(0 <= i < 8 * sprite.len() && step_set(sprite, i) && pixels[step_cell(x, y, w, h, i)]
            == true);
    }
    if hits_cell_lit(pixels, x, y, w, h, sprite, true) {
        let i = choose|i: int|
            0 <= i < 8 * sprite.len() && #[trigger] step_set(sprite, i) && pixels[step_cell(
                x,
                y,
                w,
                h,
                i,
            )] == true;
        assert(0 <= i < n && step_set(sprite, i) && pixels[step_cell(x, y, w, h, i)]);
    }
}

/// Drawing a sprite that does not wrap onto itself a second time at the same
/// place reports a collision exactly when one of its set bits reaches a cell
/// that was dark before the first draw.
pub proof fn lemma_redraw_collision(
    pixels: Seq<bool>,
    x: int,
    y: int,
    w: int,
    h: int,
    sprite: Seq<u8>,
)
    requires
        sprite_fits(x, y, w, h, sprite, pixels.len() as int),
        no_self_overlap(x, y, w, h, sprite),
    ensures
        draw_result(draw_result(pixels, x, y, w, h, sprite).0, x, y, w, h, sprite).1
            == hits_cell_lit(pixels, x, y, w, h, sprite, false),
{
    let n = (8 * sprite.len()) as nat;
    let once = draw_result(pixels, x, y, w, h, sprite).0;
    lemma_draw_steps_parity(pixels, x, y, w, h, sprite, n);
    lemma_draw_collision(once, x, y, w, h, sprite);
    assert forall|i: int| 0 <= i < 8 * sprite.len() && #[trigger] step_set(sprite, i) implies once[step_cell(
        x,
        y,
        w,
        h,
        i,
    )] == !pixels[step_cell(x, y, w, h, i)] by {
        lemma_flip_count_single(x, y, w, h, sprite, i, n);
    }
    if hits_cell_lit(once, x, y, w, h, sprite, true) {
        let i = choose|i: int|
            0 <= i < 8 * sprite.len() && #[trigger] step_set(sprite, i) && once[step_cell(
                x,
                y,
                w,
                h,
                i,
            )] == true;
        assert(pixels[step_cell(x, y, w, h, i)] == false);
    }
    if hits_cell_lit(pixels, x, y, w, h, sprite, false) {
        let i = choose|i: int|
            0 <= i < 8 * sprite.len() && #[trigger] step_set(sprite, i) && pixels[step_cell(
                x,
                y,
                w,
                h,
                i,
            )] == false;
        assert(once[step_cell(x, y, w, h, i)] == true);
    }
}

/// Drawing on a dark screen a sprite that does not wrap onto itself reports
/// no collision, and drawing it again reports one exactly when the sprite has
/// a set bit.
pub proof fn lemma_draw_on_blank(
    pixels: Seq<bool>,
    x: int,
    y: int,
    w: int,
    h: int,
    sprite: Seq<u8>,
)
    requires
        sprite_fits(x, y, w, h, sprite, pixels.len() as int),
        blank(pixels),
        no_self_overlap(x, y, w, h, sprite),
    ensures
        !draw_result(pixels, x, y, w, h, sprite).1,
        draw_result(draw_result(pixels, x, y, w, h, sprite).0, x, y, w, h, sprite).1
            == has_set_bit(sprite),
{
    lemma_draw_collision(pixels, x, y, w, h, sprite);
    lemma_redraw_collision(pixels, x, y, w, h, sprite);
    if hits_cell_lit(pixels, x, y, w, h, sprite, true) {
        let i = choose|i: int|
            0 <= i < 8 * sprite.len() && #[trigger] step_set(sprite, i) && pixels[step_cell(
                x,
                y,
                w,
                h,
                i,
            )] == true;
        assert(0 <= step_cell(x, y, w, h, i) < pixels.len());
    }
    if has_set_bit(sprite) {
        let i = choose|i: int| 0 <= i < 8 * sprite.len() && #[trigger] step_set(sprite, i);
        assert(0 <= step_cell(x, y, w, h, i) < pixels.len());
        assert(pixels[step_cell(x, y, w, h, i)] == false);
    }
    if hits_cell_lit(pixels, x, y, w, h, sprite, false) {
        let i = choose|i: int|
            0 <= i < 8 * sprite.len() && #[trigger] step_set(sprite, i) && pixels[step_cell(
                x,
                y,
                w,
                h,
                i,
            )] == false;
        assert(has_set_bit(sprite));
    }
}

proof fn lemma_cell_decomposition_unique(a1: int, c1: int, a2: int, c2: int, w: int)
    requires
        0 <= c1 < w,
        0 <= c2 < w,
        a1 * w + c1 == a2 * w + c2,
    ensures
        a1 == a2,
        c1 == c2,
{
    assert(a1 == a2) by (nonlinear_arith)
        requires 0 <= c1 < w, 0 <= c2 < w, a1 * w + c1 == a2 * w + c2;
}

proof fn lemma_mod_close_equal(u: int, v: int, m: int)
    requires
        0 < m,
        u <= v < u + m,
        u % m == v % m,
    ensures
        u == v,
{
    lemma_fundamental_div_mod(u, m);
    lemma_fundamental_div_mod(v, m);
    let qu = u / m;
    let qv = v / m;
    assert(qu == qv) by (nonlinear_arith)
        requires u == m * qu + u % m, v == m * qv + v % m, u % m == v % m, u <= v < u + m, 0 < m;
}

/// A sprite never wraps onto itself on a screen at least eight cells wide and
/// at least as tall as the sprite.
pub proof fn lemma_no_self_overlap_when_small(x: int, y: int, w: int, h: int, sprite: Seq<u8>)
    requires
        8 <= w,
        sprite.len() <= h,
    ensures
        no_self_overlap(x, y, w, h, sprite),
{
    assert forall|i: int, j: int|
        0 <= i < j < 8 * sprite.len() && #[trigger] step_set(sprite, i) && #[trigger] step_set(
            sprite,
            j,
        ) implies step_cell(x, y, w, h, i) != step_cell(x, y, w, h, j) by {
        let ri = i / 8;
        let bi = i % 8;
        let rj = j / 8;
        let bj = j % 8;
        assert(0 <= ri <= rj < sprite.len() && 0 <= bi < 8 && 0 <= bj < 8 && (ri < rj || bi < bj))
            by (nonlinear_arith)
            requires 0 <= i < j < 8 * sprite.len(), ri == i / 8, bi == i % 8, rj == j / 8, bj
                == j % 8;
        if step_cell(x, y, w, h, i) == step_cell(x, y, w, h, j) {
            lemma_cell_decomposition_unique((y + ri) % h, (x + bi) % w, (y + rj) % h, (x + bj) % w, w);
            if ri < rj {
                lemma_mod_close_equal(y + ri, y + rj, h);
            } else {
                lemma_mod_close_equal(x + bi, x + bj, w);
            }
        }
    }
}

/// Every instruction keeps the sizes of memory, registers, screen and keypad,
/// and the stack within its sixteen levels.
pub proof fn lemma_execute_keeps_wf(s: Machine, ins: Instruction)
    requires
        s.wf(),
        s.can_execute(ins),
    ensures
        s.execute(ins).wf(),
{
    if let Instruction::Draw(x, y, n) = ins {
        lemma_draw_steps_parity(
            s.pixels,
            s.registers[x as int] as int % s.width as int,
            s.registers[y as int] as int % s.height as int,
            s.width as int,
            s.height as int,
            s.memory.subrange(s.index as int, s.index + n),
            (8 * n) as nat,
        );
    }
}

/// One cycle keeps the machine well formed.
pub proof fn lemma_step_keeps_wf(s: Machine)
    requires
        s.wf(),
        s.can_step(),
    ensures
        s.step().wf(),
{
    lemma_execute_keeps_wf(s.fetched(), crate::isa::decode_spec(s.opcode())->Some_0);
}

/// After `n` ticks each timer has counted down by `n`, stopping at zero;
/// nothing else changes.
pub proof fn lemma_ticks(s: Machine, n: nat)
    ensures
        s.ticks(n) == (Machine {
            delay: if s.delay >= n {
                (s.delay - n) as u8
            } else {
                0u8
            },
            sound: if s.sound >= n {
                (s.sound - n) as u8
            } else {
                0u8
            },
            ..s
        }),
    decreases n,
{
    if n > 0 {
        lemma_ticks(s.tick(), (n - 1) as nat);
    }
}

/// No instruction brings the generator's state from nonzero to zero.
pub proof fn lemma_execute_keeps_rng_nonzero(s: Machine, ins: Instruction)
    requires
        s.rng != 0,
    ensures
        s.execute(ins).rng != 0,
{
    if let Instruction::Random(_, _) = ins {
        lemma_xorshift_nonzero(s.rng);
    }
}

/// The generator's state is nonzero in a new machine and stays nonzero
/// through cycles, timer ticks and program loads.
pub proof fn lemma_rng_never_zero(s: Machine, program: Seq<u8>)
    ensures
        crate::machine::initial_machine().rng != 0,
        s.rng != 0 && s.can_step() ==> s.step().rng != 0,
        s.tick().rng == s.rng,
        s.loaded(program).rng == s.rng,
{
    if s.rng != 0 && s.can_step() {
        lemma_execute_keeps_rng_nonzero(s.fetched(), crate::isa::decode_spec(s.opcode())->Some_0);
    }
}

} // verus!
