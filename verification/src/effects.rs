//! What each instruction does, stated as relations between the state before
//! and after it (the program counter already past the opcode).
use vstd::prelude::*;
use vstd::arithmetic::power2::pow2;
use crate::encoding::{encode, lemma_decode_encode};
use crate::inout::{draw_result, sprite_bit, sprite_cell, DISPLAY_PIXELS, FONTSET, KEY_COUNT};
use crate::isa::Instruction;
use crate::machine::{initial_machine, xorshift, Machine};
use crate::memory::{MEMORY_SIZE, STACK_SIZE};

verus! {

/// Every register except `a` and `b` keeps its value.
pub open spec fn registers_kept_except(s: Machine, t: Machine, a: int, b: int) -> bool {
    &&& t.registers.len() == s.registers.len()
    &&& forall|i: int|
        0 <= i < s.registers.len() && i != a && i != b ==> #[trigger] t.registers[i] == s.registers[i]
}

/// Every memory byte outside `[from, to)` keeps its value.
pub open spec fn memory_kept_outside(s: Machine, t: Machine, from: int, to: int) -> bool {
    &&& t.memory.len() == s.memory.len()
    &&& forall|i: int|
        0 <= i < s.memory.len() && !(from <= i < to) ==> #[trigger] t.memory[i] == s.memory[i]
}

/// A cycle runs the instruction whose machine code sits at the program counter.
pub proof fn lemma_step_runs_encoded(s: Machine, ins: Instruction)
    requires
        ins.wf(),
        s.can_fetch(),
        s.opcode() == encode(ins),
    ensures
        s.step() == s.fetched().execute(ins),
{
    lemma_decode_encode(ins);
}

/// 00E0 darkens every cell and asks for a redraw; nothing else changes.
pub proof fn lemma_clear_screen(s: Machine)
    ensures
        ({
            let t = s.execute(Instruction::ClearScreen);
            &&& t == (Machine { pixels: t.pixels, redraw: true, ..s })
            &&& t.pixels.len() == DISPLAY_PIXELS
            &&& forall|q: int| 0 <= q < DISPLAY_PIXELS ==> !#[trigger] t.pixels[q]
        }),
{
}

/// 00EE takes the latest return address off the stack and jumps to it.
pub proof fn lemma_return(s: Machine)
    requires
        s.can_execute(Instruction::Return),
    ensures
        ({
            let t = s.execute(Instruction::Return);
            &&& t == (Machine { pc: t.pc, stack: t.stack, ..s })
            &&& t.stack.push(t.pc) == s.stack
        }),
{
    let t = s.execute(Instruction::Return);
    assert(t.stack.push(t.pc) =~= s.stack);
}

/// 1NNN jumps to NNN; 2NNN saves the address of the next instruction on the
/// stack and jumps to NNN; BNNN jumps to NNN + V0.
pub proof fn lemma_jumps(s: Machine, nnn: u16)
    requires
        s.wf(),
        nnn < 0x1000,
    ensures
        s.execute(Instruction::Jump(nnn)) == (Machine { pc: nnn, ..s }),
        ({
            let t = s.execute(Instruction::Call(nnn));
            &&& t == (Machine { pc: t.pc, stack: t.stack, ..s })
            &&& t.pc == nnn
            &&& t.stack.len() == s.stack.len() + 1
            &&& t.stack.last() == s.pc
            &&& t.stack.drop_last() == s.stack
        }),
        ({
            let t = s.execute(Instruction::JumpPlusV0(nnn));
            &&& t == (Machine { pc: t.pc, ..s })
            &&& t.pc == nnn + s.registers[0]
        }),
{
    let t = s.execute(Instruction::Call(nnn));
    assert(t.stack.drop_last() =~= s.stack);
}

/// The skips move the program counter past the next instruction exactly when
/// their condition holds, and change nothing else: 3XNN when VX == NN, 4XNN
/// when VX != NN, 5XY0 when VX == VY, 9XY0 when VX != VY, EX9E when key VX is
/// down, EXA1 when it is up.
pub proof fn lemma_skips(s: Machine, ins: Instruction)
    requires
        s.wf(),
        s.can_execute(ins),
        ins is SkipIfEqual || ins is SkipIfNotEqual || ins is SkipIfRegistersEqual
            || ins is SkipIfRegistersNotEqual || ins is SkipIfKey || ins is SkipIfNotKey,
        s.pc + 2 <= 0xFFFF,
    ensures
        ({
            let t = s.execute(ins);
            let skipped = t.pc == s.pc + 2;
            &&& t == (Machine { pc: t.pc, ..s })
            &&& t.pc == s.pc || skipped
            &&& (ins matches Instruction::SkipIfEqual(x, nn) ==> (skipped <==> s.registers[x as int]
                == nn))
            &&& (ins matches Instruction::SkipIfNotEqual(x, nn) ==> (skipped <==> s.registers[x as int]
                != nn))
            &&& (ins matches Instruction::SkipIfRegistersEqual(x, y) ==> (skipped <==> s.registers[x as int]
                == s.registers[y as int]))
            &&& (ins matches Instruction::SkipIfRegistersNotEqual(x, y) ==> (skipped
                <==> s.registers[x as int] != s.registers[y as int]))
            &&& (ins matches Instruction::SkipIfKey(x) ==> (skipped <==> s.keys[s.registers[x as int] as int]))
            &&& (ins matches Instruction::SkipIfNotKey(x) ==> (skipped <==> !s.keys[s.registers[x as int] as int]))
        }),
{
}

/// 6XNN puts NN in VX, 7XNN adds NN to VX modulo 256 with no flag, 8XY0 copies
/// VY to VX, FX07 copies the delay timer to VX; no other register changes.
pub proof fn lemma_register_loads(s: Machine, x: usize, y: usize, nn: u8)
    requires
        s.wf(),
        x < 16,
        y < 16,
    ensures
        ({
            let t = s.execute(Instruction::SetRegister(x, nn));
            &&& t == (Machine { registers: t.registers, ..s })
            &&& registers_kept_except(s, t, x as int, x as int)
            &&& t.registers[x as int] == nn
        }),
        ({
            let t = s.execute(Instruction::AddToRegister(x, nn));
            &&& t == (Machine { registers: t.registers, ..s })
            &&& registers_kept_except(s, t, x as int, x as int)
            &&& (t.registers[x as int] == s.registers[x as int] + nn || t.registers[x as int]
                == s.registers[x as int] + nn - 256)
        }),
        ({
            let t = s.execute(Instruction::Move(x, y));
            &&& t == (Machine { registers: t.registers, ..s })
            &&& registers_kept_except(s, t, x as int, x as int)
            &&& t.registers[x as int] == s.registers[y as int]
        }),
        ({
            let t = s.execute(Instruction::ReadDelay(x));
            &&& t == (Machine { registers: t.registers, ..s })
            &&& registers_kept_except(s, t, x as int, x as int)
            &&& t.registers[x as int] == s.delay
        }),
{
}

/// 8XY1, 8XY2 and 8XY3 put VX | VY, VX & VY and VX ^ VY in VX and then clear
/// VF; no other register changes.
pub proof fn lemma_logic(s: Machine, x: usize, y: usize)
    requires
        s.wf(),
        x < 16,
        y < 16,
    ensures
        ({
            let t = s.execute(Instruction::Or(x, y));
            &&& t == (Machine { registers: t.registers, ..s })
            &&& registers_kept_except(s, t, x as int, 0xF)
            &&& t.registers[0xF] == 0
            &&& (x != 0xF ==> t.registers[x as int] == s.registers[x as int] | s.registers[y as int])
        }),
        ({
            let t = s.execute(Instruction::And(x, y));
            &&& t == (Machine { registers: t.registers, ..s })
            &&& registers_kept_except(s, t, x as int, 0xF)
            &&& t.registers[0xF] == 0
            &&& (x != 0xF ==> t.registers[x as int] == s.registers[x as int] & s.registers[y as int])
        }),
        ({
            let t = s.execute(Instruction::Xor(x, y));
            &&& t == (Machine { registers: t.registers, ..s })
            &&& registers_kept_except(s, t, x as int, 0xF)
            &&& t.registers[0xF] == 0
            &&& (x != 0xF ==> t.registers[x as int] == s.registers[x as int] ^ s.registers[y as int])
        }),
{
}

/// Group 8 arithmetic changes only VX and VF and leaves a flag of 0 or 1 in
/// VF. With VX other than VF:
/// 8XY4 makes VX' + 256 VF' the sum VX + VY (VF' is the carry).
pub proof fn lemma_add_registers(s: Machine, x: usize, y: usize)
    requires
        s.wf(),
        x < 16,
        y < 16,
    ensures
        ({
            let t = s.execute(Instruction::AddRegisters(x, y));
            &&& t == (Machine { registers: t.registers, ..s })
            &&& registers_kept_except(s, t, x as int, 0xF)
            &&& t.registers[0xF] <= 1
            &&& (x != 0xF ==> t.registers[x as int] + 256 * t.registers[0xF] == s.registers[x as int]
                + s.registers[y as int])
        }),
{
}

/// Group 8 arithmetic changes only VX and VF and leaves a flag of 0 or 1 in
/// VF. With VX other than VF:
/// 8XY5 makes VX' the difference VX - VY, plus 256 when VF' is 0 (a borrow).
pub proof fn lemma_sub_registers(s: Machine, x: usize, y: usize)
    requires
        s.wf(),
        x < 16,
        y < 16,
    ensures
        ({
            let t = s.execute(Instruction::SubRegisters(x, y));
            &&& t == (Machine { registers: t.registers, ..s })
            &&& registers_kept_except(s, t, x as int, 0xF)
            &&& t.registers[0xF] <= 1
            &&& (x != 0xF ==> t.registers[x as int] == s.registers[x as int] - s.registers[y as int]
                + 256 * (1 - t.registers[0xF]))
        }),
{
}

/// Group 8 arithmetic changes only VX and VF and leaves a flag of 0 or 1 in
/// VF. With VX other than VF:
/// 8XY7 makes VX' the difference VY - VX, plus 256 when VF' is 0 (a borrow).
pub proof fn lemma_sub_reversed(s: Machine, x: usize, y: usize)
    requires
        s.wf(),
        x < 16,
        y < 16,
    ensures
        ({
            let t = s.execute(Instruction::SubReversed(x, y));
            &&& t == (Machine { registers: t.registers, ..s })
            &&& registers_kept_except(s, t, x as int, 0xF)
            &&& t.registers[0xF] <= 1
            &&& (x != 0xF ==> t.registers[x as int] == s.registers[y as int] - s.registers[x as int]
                + 256 * (1 - t.registers[0xF]))
        }),
{
}

/// Group 8 arithmetic changes only VX and VF and leaves a flag of 0 or 1 in
/// VF. With VX other than VF:
/// 8XY6 makes 2 VX' + VF' equal to VY (VF' is the bit shifted out).
pub proof fn lemma_shift_right(s: Machine, x: usize, y: usize)
    requires
        s.wf(),
        x < 16,
        y < 16,
    ensures
        ({
            let t = s.execute(Instruction::ShiftRight(x, y));
            &&& t == (Machine { registers: t.registers, ..s })
            &&& registers_kept_except(s, t, x as int, 0xF)
            &&& t.registers[0xF] <= 1
            &&& (x != 0xF ==> 2 * t.registers[x as int] + t.registers[0xF] == s.registers[y as int])
        }),
{
}

/// Group 8 arithmetic changes only VX and VF and leaves a flag of 0 or 1 in
/// VF. With VX other than VF:
/// 8XYE makes VX' + 256 VF' equal to 2 VY (VF' is the bit shifted out).
pub proof fn lemma_shift_left(s: Machine, x: usize, y: usize)
    requires
        s.wf(),
        x < 16,
        y < 16,
    ensures
        ({
            let t = s.execute(Instruction::ShiftLeft(x, y));
            &&& t == (Machine { registers: t.registers, ..s })
            &&& registers_kept_except(s, t, x as int, 0xF)
            &&& t.registers[0xF] <= 1
            &&& (x != 0xF ==> t.registers[x as int] + 256 * t.registers[0xF] == 2 * s.registers[y as int])
        }),
{
}

/// CXNN advances the generator once and puts in VX its low byte masked with
/// NN, so that VX has no bit outside NN; nothing else changes.
pub proof fn lemma_random(s: Machine, x: usize, nn: u8)
    requires
        s.wf(),
        x < 16,
    ensures
        ({
            let t = s.execute(Instruction::Random(x, nn));
            &&& t == (Machine { registers: t.registers, rng: t.rng, ..s })
            &&& registers_kept_except(s, t, x as int, x as int)
            &&& t.rng == xorshift(s.rng)
            &&& t.registers[x as int] == (t.rng as u8) & nn
            &&& t.registers[x as int] & !nn == 0
        }),
{
    let t = s.execute(Instruction::Random(x, nn));
    let v = t.rng as u8;
    assert((v & nn) & !nn == 0) by (bit_vector);
}

/// DXYN draws the N bytes at the index pointer at (VX, VY), wrapped onto the
/// screen, asks for a redraw, and leaves in VF 1 if the draw turned a lit
/// cell off and 0 otherwise, whatever VF held; nothing else changes.
pub proof fn lemma_draw(s: Machine, x: usize, y: usize, n: u8)
    requires
        s.wf(),
        s.can_execute(Instruction::Draw(x, y, n)),
    ensures
        ({
            let t = s.execute(Instruction::Draw(x, y, n));
            let drawn = draw_result(
                s.pixels,
                s.registers[x as int] as int % s.width as int,
                s.registers[y as int] as int % s.height as int,
                s.width as int,
                s.height as int,
                s.memory.subrange(s.index as int, s.index + n),
            );
            &&& t == (Machine { pixels: t.pixels, registers: t.registers, redraw: true, ..s })
            &&& t.pixels == drawn.0
            &&& registers_kept_except(s, t, 0xF, 0xF)
            &&& t.registers[0xF] <= 1
            &&& (t.registers[0xF] == 1 <==> drawn.1)
        }),
{
}

/// FX0A puts the lowest pressed key in VX when a key is down; when none is,
/// it moves the program counter back onto itself so that it runs again, and
/// changes nothing else.
pub proof fn lemma_wait_key(s: Machine, x: usize)
    requires
        s.wf(),
        x < 16,
    ensures
        ({
            let t = s.execute(Instruction::WaitKey(x));
            &&& (exists|k: int| 0 <= k < KEY_COUNT && #[trigger] s.keys[k]) ==> {
                &&& t == (Machine { registers: t.registers, ..s })
                &&& registers_kept_except(s, t, x as int, x as int)
                &&& t.registers[x as int] < KEY_COUNT
                &&& s.keys[t.registers[x as int] as int]
                &&& forall|j: int| 0 <= j < t.registers[x as int] ==> !#[trigger] s.keys[j]
            }
            &&& (forall|k: int| 0 <= k < KEY_COUNT ==> !#[trigger] s.keys[k]) ==> t == (Machine {
                pc: (s.pc - 2) as u16,
                ..s
            })
        }),
{
    crate::inout::lemma_first_pressed_below(s.keys, KEY_COUNT as int);
}

/// FX15 sets the delay timer to VX and FX18 the sound timer, each leaving the
/// other timer and everything else as it was.
pub proof fn lemma_set_timers(s: Machine, x: usize)
    requires
        s.wf(),
        x < 16,
    ensures
        s.execute(Instruction::SetDelay(x)) == (Machine { delay: s.registers[x as int], ..s }),
        s.execute(Instruction::SetSound(x)) == (Machine { sound: s.registers[x as int], ..s }),
{
}

/// ANNN sets the index pointer to NNN, FX1E adds VX to it modulo 2^16, FX29
/// points it at the five-byte font sprite of the low nibble of VX; nothing
/// else changes.
pub proof fn lemma_index(s: Machine, x: usize, nnn: u16)
    requires
        s.wf(),
        x < 16,
    ensures
        s.execute(Instruction::SetIndex(nnn)) == (Machine { index: nnn, ..s }),
        ({
            let t = s.execute(Instruction::AddToIndex(x));
            &&& t == (Machine { index: t.index, ..s })
            &&& (t.index == s.index + s.registers[x as int] || t.index == s.index + s.registers[x as int]
                - 0x10000)
        }),
        ({
            let t = s.execute(Instruction::FontSprite(x));
            &&& t == (Machine { index: t.index, ..s })
            &&& t.index == 0x50 + 5 * (s.registers[x as int] % 16)
        }),
{
}

/// FX33 writes the hundreds, tens and ones digits of VX at I, I + 1 and
/// I + 2; no other byte changes, and neither does the index pointer or
/// anything else.
pub proof fn lemma_store_bcd(s: Machine, x: usize)
    requires
        s.wf(),
        s.can_execute(Instruction::StoreBcd(x)),
    ensures
        ({
            let t = s.execute(Instruction::StoreBcd(x));
            let i = s.index as int;
            &&& t == (Machine { memory: t.memory, ..s })
            &&& memory_kept_outside(s, t, i, i + 3)
            &&& t.memory[i] < 10 && t.memory[i + 1] < 10 && t.memory[i + 2] < 10
            &&& 100 * t.memory[i] + 10 * t.memory[i + 1] + t.memory[i + 2] == s.registers[x as int]
        }),
{
}

/// FX55 copies V0..=VX to I..=I+X and moves the index pointer to I + X + 1;
/// no other byte, no register and nothing else changes.
pub proof fn lemma_store_registers(s: Machine, x: usize)
    requires
        s.wf(),
        s.can_execute(Instruction::StoreRegisters(x)),
    ensures
        ({
            let t = s.execute(Instruction::StoreRegisters(x));
            let i = s.index as int;
            &&& t == (Machine { memory: t.memory, index: t.index, ..s })
            &&& t.index == i + x + 1
            &&& memory_kept_outside(s, t, i, i + x + 1)
            &&& forall|j: int| 0 <= j <= x ==> #[trigger] t.memory[i + j] == s.registers[j]
        }),
{
}

/// FX65 copies I..=I+X to V0..=VX and moves the index pointer to I + X + 1;
/// no other register, no memory and nothing else changes.
pub proof fn lemma_load_registers(s: Machine, x: usize)
    requires
        s.wf(),
        s.can_execute(Instruction::LoadRegisters(x)),
    ensures
        ({
            let t = s.execute(Instruction::LoadRegisters(x));
            let i = s.index as int;
            &&& t == (Machine { registers: t.registers, index: t.index, ..s })
            &&& t.index == i + x + 1
            &&& t.registers.len() == 16
            &&& forall|j: int| 0 <= j <= x ==> #[trigger] t.registers[j] == s.memory[i + j]
            &&& forall|j: int| x < j < 16 ==> #[trigger] t.registers[j] == s.registers[j]
        }),
{
}

/// The opcode is stored big-endian: its high byte at the program counter,
/// its low byte right after.
pub proof fn lemma_opcode_big_endian(s: Machine)
    requires
        s.wf(),
        s.can_fetch(),
    ensures
        s.opcode() / 256 == s.memory[s.pc as int],
        s.opcode() % 256 == s.memory[s.pc + 1],
{
}

/// A cycle of an instruction that neither jumps, calls, returns, skips nor
/// waits leaves the program counter at the next opcode, two bytes on; a skip
/// leaves it two or four bytes on.
pub proof fn lemma_step_next_pc(s: Machine, ins: Instruction)
    requires
        s.wf(),
        s.can_step(),
        s.opcode() == encode(ins),
        ins.wf(),
    ensures
        !(ins is Jump || ins is Call || ins is Return || ins is JumpPlusV0 || ins is WaitKey
            || ins is SkipIfEqual || ins is SkipIfNotEqual || ins is SkipIfRegistersEqual
            || ins is SkipIfRegistersNotEqual || ins is SkipIfKey || ins is SkipIfNotKey) ==> s.step().pc
            == s.pc + 2,
        (ins is SkipIfEqual || ins is SkipIfNotEqual || ins is SkipIfRegistersEqual
            || ins is SkipIfRegistersNotEqual || ins is SkipIfKey || ins is SkipIfNotKey) ==> (
        s.step().pc == s.pc + 2 || s.step().pc == s.pc + 4),
{
    lemma_decode_encode(ins);
}

/// Bit 0 of a sprite row is its most significant bit and bit 7 its least:
/// bit `b` is set exactly when the `(7 - b)`-th binary digit of the byte is 1.
pub proof fn lemma_sprite_bit_order(byte: u8, b: int)
    requires
        0 <= b < 8,
    ensures
        sprite_bit(byte, b) == ((byte as int / pow2((7 - b) as nat) as int) % 2 == 1),
{
    vstd::arithmetic::power2::lemma2_to64();
    let bb = b as u8;
    assert(sprite_bit(byte, b) == (byte & (0x80u8 >> bb) != 0));
    if b == 0 {
        assert((byte & (0x80u8 >> 0u8) != 0) == ((byte / 128) % 2 == 1)) by (bit_vector);
        assert(pow2(7) == 128);
        assert(bb == 0u8);
        assert(sprite_bit(byte, b) == ((byte / 128) % 2 == 1));
        assert((7 - b) as nat == 7);
        assert(byte as int / pow2((7 - b) as nat) as int == byte / 128);
    } else if b == 1 {
        assert((byte & (0x80u8 >> 1u8) != 0) == ((byte / 64) % 2 == 1)) by (bit_vector);
        assert(pow2(6) == 64);
        assert(bb == 1u8);
        assert(sprite_bit(byte, b) == ((byte / 64) % 2 == 1));
        assert((7 - b) as nat == 6);
        assert(byte as int / pow2((7 - b) as nat) as int == byte / 64);
    } else if b == 2 {
        assert((byte & (0x80u8 >> 2u8) != 0) == ((byte / 32) % 2 == 1)) by (bit_vector);
        assert(pow2(5) == 32);
        assert(bb == 2u8);
        assert(sprite_bit(byte, b) == ((byte / 32) % 2 == 1));
        assert((7 - b) as nat == 5);
        assert(byte as int / pow2((7 - b) as nat) as int == byte / 32);
    } else if b == 3 {
        assert((byte & (0x80u8 >> 3u8) != 0) == ((byte / 16) % 2 == 1)) by (bit_vector);
        assert(pow2(4) == 16);
        assert(bb == 3u8);
        assert(sprite_bit(byte, b) == ((byte / 16) % 2 == 1));
        assert((7 - b) as nat == 4);
        assert(byte as int / pow2((7 - b) as nat) as int == byte / 16);
    } else if b == 4 {
        assert((byte & (0x80u8 >> 4u8) != 0) == ((byte / 8) % 2 == 1)) by (bit_vector);
        assert(pow2(3) == 8);
        assert(bb == 4u8);
        assert(sprite_bit(byte, b) == ((byte / 8) % 2 == 1));
        assert((7 - b) as nat == 3);
        assert(byte as int / pow2((7 - b) as nat) as int == byte / 8);
    } else if b == 5 {
        assert((byte & (0x80u8 >> 5u8) != 0) == ((byte / 4) % 2 == 1)) by (bit_vector);
        assert(pow2(2) == 4);
        assert(bb == 5u8);
        assert(sprite_bit(byte, b) == ((byte / 4) % 2 == 1));
        assert((7 - b) as nat == 2);
        assert(byte as int / pow2((7 - b) as nat) as int == byte / 4);
    } else if b == 6 {
        assert((byte & (0x80u8 >> 6u8) != 0) == ((byte / 2) % 2 == 1)) by (bit_vector);
        assert(pow2(1) == 2);
        assert(bb == 6u8);
        assert(sprite_bit(byte, b) == ((byte / 2) % 2 == 1));
        assert((7 - b) as nat == 1);
        assert(byte as int / pow2((7 - b) as nat) as int == byte / 2);
    } else {
        assert((byte & (0x80u8 >> 7u8) != 0) == (byte % 2 == 1)) by (bit_vector);
        assert(pow2(0) == 1);
        assert(bb == 7u8);
        assert(sprite_bit(byte, b) == (byte % 2 == 1));
        assert((7 - b) as nat == 0);
        assert(byte as int / pow2((7 - b) as nat) as int == byte / 1);
    }
}

/// Bit `b` of row `r` of a sprite drawn at (x, y) on a `w`-wide, `h`-high
/// screen lands in column (x + b) mod w of screen row (y + r) mod h, rows
/// being laid out one after another.
pub proof fn lemma_sprite_cell_position(x: int, y: int, w: int, h: int, r: int, b: int)
    requires
        0 < w,
        0 < h,
    ensures
        sprite_cell(x, y, w, h, r, b) % w == (x + b) % w,
        sprite_cell(x, y, w, h, r, b) / w == (y + r) % h,
{
    let row = (y + r) % h;
    let col = (x + b) % w;
    vstd::arithmetic::div_mod::lemma_fundamental_div_mod_converse(
        row * w + col,
        w,
        row,
        col,
    );
}

/// Loading a program puts its bytes from the start address on, leaves every
/// other byte, and points the program counter at the start; nothing else changes.
pub proof fn lemma_loaded(s: Machine, program: Seq<u8>)
    requires
        s.wf(),
        0x200 + program.len() <= MEMORY_SIZE,
    ensures
        ({
            let t = s.loaded(program);
            &&& t == (Machine { memory: t.memory, pc: 0x200, ..s })
            &&& memory_kept_outside(s, t, 0x200, 0x200 + program.len() as int)
            &&& forall|j: int| 0 <= j < program.len() ==> #[trigger] t.memory[0x200 + j] == program[j]
        }),
{
}

/// A new machine: memory is zero but for the font sprites at 0x50..0xA0,
/// registers are zero, the index is zero, execution starts at 0x200, the stack
/// is empty, the 64x32 screen is dark, no key is down, the timers are stopped
/// and the generator is seeded with 0xACE1.
pub proof fn lemma_initial()
    ensures
        ({
            let m = initial_machine();
            &&& m.wf()
            &&& forall|i: int| 0 <= i < 0x50 ==> #[trigger] m.memory[i] == 0
            &&& forall|i: int| 0xA0 <= i < MEMORY_SIZE ==> #[trigger] m.memory[i] == 0
            &&& forall|i: int| 0 <= i < 80 ==> #[trigger] m.memory[0x50 + i] == FONTSET@[i]
            &&& forall|i: int| 0 <= i < 16 ==> #[trigger] m.registers[i] == 0
            &&& forall|q: int| 0 <= q < DISPLAY_PIXELS ==> !#[trigger] m.pixels[q]
            &&& forall|k: int| 0 <= k < KEY_COUNT ==> !#[trigger] m.keys[k]
            &&& m.index == 0 && m.pc == 0x200 && m.stack.len() == 0
            &&& m.width == 64 && m.height == 32 && !m.redraw
            &&& m.delay == 0 && m.sound == 0 && m.rng == 0xACE1
        }),
{
    assert(FONTSET@.len() == 80);
}

/// A cycle can run exactly when there is no fault to report.
pub proof fn lemma_fault_iff_cannot_step(s: Machine)
    requires
        s.wf(),
    ensures
        s.fault() is None <==> s.can_step(),
{
}

/// Which instructions can run: a return needs a saved address, a call a free
/// stack level, a key skip a key number in VX, and DXYN, FX33, FX55 and FX65
/// need the bytes they touch from the index pointer on to lie in memory (and
/// DXYN a screen with cells for its set bits); every other instruction can
/// always run.
pub proof fn lemma_can_execute(s: Machine, ins: Instruction)
    requires
        s.wf(),
        ins.wf(),
    ensures
        ins is Return ==> (s.can_execute(ins) <==> s.stack.len() > 0),
        ins is Call ==> (s.can_execute(ins) <==> s.stack.len() < STACK_SIZE),
        ins matches Instruction::SkipIfKey(x) ==> (s.can_execute(ins) <==> s.registers[x as int]
            < KEY_COUNT),
        ins matches Instruction::SkipIfNotKey(x) ==> (s.can_execute(ins) <==> s.registers[x as int]
            < KEY_COUNT),
        ins is StoreBcd ==> (s.can_execute(ins) <==> s.index + 3 <= MEMORY_SIZE),
        ins matches Instruction::StoreRegisters(x) ==> (s.can_execute(ins) <==> s.index + x + 1
            <= MEMORY_SIZE),
        ins matches Instruction::LoadRegisters(x) ==> (s.can_execute(ins) <==> s.index + x + 1
            <= MEMORY_SIZE),
        ins matches Instruction::Draw(x, y, n) ==> (s.can_execute(ins) ==> s.index + n
            <= MEMORY_SIZE && s.width > 0 && s.height > 0),
        !(ins is Return || ins is Call || ins is SkipIfKey || ins is SkipIfNotKey || ins is StoreBcd
            || ins is StoreRegisters || ins is LoadRegisters || ins is Draw) ==> s.can_execute(ins),
{
}

} // verus!
