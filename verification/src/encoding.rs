//! The machine code of each instruction, and the law that decoding it gives
//! the instruction back.
use vstd::prelude::*;
use crate::isa::{decode_spec, op_kind, op_n, op_nn, op_nnn, op_x, op_y, Instruction};

verus! {

/// An opcode from its four nibbles, high first.
pub open spec fn nibbles(a: int, b: int, c: int, d: int) -> u16 {
    (a * 0x1000 + b * 0x100 + c * 0x10 + d) as u16
}

/// An opcode from its high nibble, the X nibble and a low byte.
pub open spec fn with_byte(a: int, x: int, nn: int) -> u16 {
    (a * 0x1000 + x * 0x100 + nn) as u16
}

/// An opcode from its high nibble and a twelve-bit address.
pub open spec fn with_address(a: int, nnn: int) -> u16 {
    (a * 0x1000 + nnn) as u16
}

/// The machine code of an instruction, as the CHIP-8 documentation lists it
/// (the ignored low nibble of 5XY0 and 9XY0 written 0).
pub open spec fn encode(ins: Instruction) -> u16 {
    match ins {
        Instruction::ClearScreen => 0x00E0,
        Instruction::Return => 0x00EE,
        Instruction::Jump(a) => with_address(0x1, a as int),
        Instruction::Call(a) => with_address(0x2, a as int),
        Instruction::SkipIfEqual(x, nn) => with_byte(0x3, x as int, nn as int),
        Instruction::SkipIfNotEqual(x, nn) => with_byte(0x4, x as int, nn as int),
        Instruction::SkipIfRegistersEqual(x, y) => nibbles(0x5, x as int, y as int, 0x0),
        Instruction::SetRegister(x, nn) => with_byte(0x6, x as int, nn as int),
        Instruction::AddToRegister(x, nn) => with_byte(0x7, x as int, nn as int),
        Instruction::Move(x, y) => nibbles(0x8, x as int, y as int, 0x0),
        Instruction::Or(x, y) => nibbles(0x8, x as int, y as int, 0x1),
        Instruction::And(x, y) => nibbles(0x8, x as int, y as int, 0x2),
        Instruction::Xor(x, y) => nibbles(0x8, x as int, y as int, 0x3),
        Instruction::AddRegisters(x, y) => nibbles(0x8, x as int, y as int, 0x4),
        Instruction::SubRegisters(x, y) => nibbles(0x8, x as int, y as int, 0x5),
        Instruction::ShiftRight(x, y) => nibbles(0x8, x as int, y as int, 0x6),
        Instruction::SubReversed(x, y) => nibbles(0x8, x as int, y as int, 0x7),
        Instruction::ShiftLeft(x, y) => nibbles(0x8, x as int, y as int, 0xE),
        Instruction::SkipIfRegistersNotEqual(x, y) => nibbles(0x9, x as int, y as int, 0x0),
        Instruction::SetIndex(a) => with_address(0xA, a as int),
        Instruction::JumpPlusV0(a) => with_address(0xB, a as int),
        Instruction::Random(x, nn) => with_byte(0xC, x as int, nn as int),
        Instruction::Draw(x, y, n) => nibbles(0xD, x as int, y as int, n as int),
        Instruction::SkipIfKey(x) => with_byte(0xE, x as int, 0x9E),
        Instruction::SkipIfNotKey(x) => with_byte(0xE, x as int, 0xA1),
        Instruction::ReadDelay(x) => with_byte(0xF, x as int, 0x07),
        Instruction::WaitKey(x) => with_byte(0xF, x as int, 0x0A),
        Instruction::SetDelay(x) => with_byte(0xF, x as int, 0x15),
        Instruction::SetSound(x) => with_byte(0xF, x as int, 0x18),
        Instruction::AddToIndex(x) => with_byte(0xF, x as int, 0x1E),
        Instruction::FontSprite(x) => with_byte(0xF, x as int, 0x29),
        Instruction::StoreBcd(x) => with_byte(0xF, x as int, 0x33),
        Instruction::StoreRegisters(x) => with_byte(0xF, x as int, 0x55),
        Instruction::LoadRegisters(x) => with_byte(0xF, x as int, 0x65),
    }
}

proof fn lemma_nibble_fields(a: u16, b: u16, c: u16, d: u16)
    requires
        a < 16,
        b < 16,
        c < 16,
        d < 16,
    ensures
        op_kind(nibbles(a as int, b as int, c as int, d as int)) == a,
        op_x(nibbles(a as int, b as int, c as int, d as int)) == b,
        op_y(nibbles(a as int, b as int, c as int, d as int)) == c,
        op_n(nibbles(a as int, b as int, c as int, d as int)) == d,
        op_nn(nibbles(a as int, b as int, c as int, d as int)) == c * 16 + d,
{
    let op = nibbles(a as int, b as int, c as int, d as int);
    assert(op == a * 0x1000 + b * 0x100 + c * 0x10 + d);
    assert(op / 0x1000 == a && (op / 0x100) % 0x10 == b && (op / 0x10) % 0x10 == c && op % 0x10
        == d && op % 0x100 == c * 16 + d) by (bit_vector)
        requires
            a < 16,
            b < 16,
            c < 16,
            d < 16,
            op == a * 0x1000 + b * 0x100 + c * 0x10 + d,
    ;
}

proof fn lemma_byte_fields(a: u16, x: u16, nn: u16)
    requires
        a < 16,
        x < 16,
        nn < 256,
    ensures
        op_kind(with_byte(a as int, x as int, nn as int)) == a,
        op_x(with_byte(a as int, x as int, nn as int)) == x,
        op_nn(with_byte(a as int, x as int, nn as int)) == nn,
{
    let op = with_byte(a as int, x as int, nn as int);
    assert(op == a * 0x1000 + x * 0x100 + nn);
    assert(op / 0x1000 == a && (op / 0x100) % 0x10 == x && op % 0x100 == nn) by (bit_vector)
        requires
            a < 16,
            x < 16,
            nn < 256,
            op == a * 0x1000 + x * 0x100 + nn,
    ;
}

proof fn lemma_address_fields(a: u16, nnn: u16)
    requires
        a < 16,
        nnn < 0x1000,
    ensures
        op_kind(with_address(a as int, nnn as int)) == a,
        op_nnn(with_address(a as int, nnn as int)) == nnn,
{
    let op = with_address(a as int, nnn as int);
    assert(op == a * 0x1000 + nnn);
    assert(op / 0x1000 == a && op % 0x1000 == nnn) by (bit_vector)
        requires
            a < 16,
            nnn < 0x1000,
            op == a * 0x1000 + nnn,
    ;
}

/// Decoding the machine code of any instruction gives that instruction back.
#[verifier::spinoff_prover]
pub proof fn lemma_decode_encode(ins: Instruction)
    requires
        ins.wf(),
    ensures
        decode_spec(encode(ins)) == Some(ins),
{
    match ins {
        Instruction::ClearScreen | Instruction::Return => {
            assert(op_kind(0x00E0) == 0 && op_kind(0x00EE) == 0);
        },
        Instruction::Jump(a) => lemma_address_fields(0x1, a),
        Instruction::Call(a) => lemma_address_fields(0x2, a),
        Instruction::SetIndex(a) => lemma_address_fields(0xA, a),
        Instruction::JumpPlusV0(a) => lemma_address_fields(0xB, a),
        Instruction::SkipIfEqual(x, nn) => lemma_byte_fields(0x3, x as u16, nn as u16),
        Instruction::SkipIfNotEqual(x, nn) => lemma_byte_fields(0x4, x as u16, nn as u16),
        Instruction::SetRegister(x, nn) => lemma_byte_fields(0x6, x as u16, nn as u16),
        Instruction::AddToRegister(x, nn) => lemma_byte_fields(0x7, x as u16, nn as u16),
        Instruction::Random(x, nn) => lemma_byte_fields(0xC, x as u16, nn as u16),
        Instruction::SkipIfKey(x) => lemma_byte_fields(0xE, x as u16, 0x9E),
        Instruction::SkipIfNotKey(x) => lemma_byte_fields(0xE, x as u16, 0xA1),
        Instruction::ReadDelay(x) => lemma_byte_fields(0xF, x as u16, 0x07),
        Instruction::WaitKey(x) => lemma_byte_fields(0xF, x as u16, 0x0A),
        Instruction::SetDelay(x) => lemma_byte_fields(0xF, x as u16, 0x15),
        Instruction::SetSound(x) => lemma_byte_fields(0xF, x as u16, 0x18),
        Instruction::AddToIndex(x) => lemma_byte_fields(0xF, x as u16, 0x1E),
        Instruction::FontSprite(x) => lemma_byte_fields(0xF, x as u16, 0x29),
        Instruction::StoreBcd(x) => lemma_byte_fields(0xF, x as u16, 0x33),
        Instruction::StoreRegisters(x) => lemma_byte_fields(0xF, x as u16, 0x55),
        Instruction::LoadRegisters(x) => lemma_byte_fields(0xF, x as u16, 0x65),
        Instruction::SkipIfRegistersEqual(x, y) => lemma_nibble_fields(0x5, x as u16, y as u16, 0x0),
        Instruction::SkipIfRegistersNotEqual(x, y) => lemma_nibble_fields(
            0x9,
            x as u16,
            y as u16,
            0x0,
        ),
        Instruction::Move(x, y) => lemma_nibble_fields(0x8, x as u16, y as u16, 0x0),
        Instruction::Or(x, y) => lemma_nibble_fields(0x8, x as u16, y as u16, 0x1),
        Instruction::And(x, y) => lemma_nibble_fields(0x8, x as u16, y as u16, 0x2),
        Instruction::Xor(x, y) => lemma_nibble_fields(0x8, x as u16, y as u16, 0x3),
        Instruction::AddRegisters(x, y) => lemma_nibble_fields(0x8, x as u16, y as u16, 0x4),
        Instruction::SubRegisters(x, y) => lemma_nibble_fields(0x8, x as u16, y as u16, 0x5),
        Instruction::ShiftRight(x, y) => lemma_nibble_fields(0x8, x as u16, y as u16, 0x6),
        Instruction::SubReversed(x, y) => lemma_nibble_fields(0x8, x as u16, y as u16, 0x7),
        Instruction::ShiftLeft(x, y) => lemma_nibble_fields(0x8, x as u16, y as u16, 0xE),
        Instruction::Draw(x, y, n) => lemma_nibble_fields(0xD, x as u16, y as u16, n as u16),
    }
}

proof fn lemma_reassemble(op: u16)
    ensures
        op_kind(op) < 16,
        op_x(op) < 16,
        op_y(op) < 16,
        op_n(op) < 16,
        op_nnn(op) < 0x1000,
        op == nibbles(op_kind(op), op_x(op) as int, op_y(op) as int, op_n(op) as int),
        op == with_byte(op_kind(op), op_x(op) as int, op_nn(op) as int),
        op == with_address(op_kind(op), op_nnn(op) as int),
        op_nn(op) == op_y(op) * 16 + op_n(op),
{
    let a = op / 0x1000;
    let b = (op / 0x100) % 0x10;
    let c = (op / 0x10) % 0x10;
    let d = op % 0x10;
    let nn = op % 0x100;
    let nnn = op % 0x1000;
    assert(a < 16 && b < 16 && c < 16 && d < 16 && nnn < 0x1000 && op == a * 0x1000 + b * 0x100
        + c * 0x10 + d && op == a * 0x1000 + b * 0x100 + nn && op == a * 0x1000 + nnn && nn == c
        * 16 + d) by (bit_vector)
        requires
            a == op / 0x1000,
            b == (op / 0x100) % 0x10,
            c == (op / 0x10) % 0x10,
            d == op % 0x10,
            nn == op % 0x100,
            nnn == op % 0x1000,
    ;
}

/// Every opcode the decoder knows is the machine code of the instruction it
/// decodes to (for 5XY_ and 9XY_, whose low nibble is ignored, up to that
/// nibble), and names registers and addresses in range.
#[verifier::spinoff_prover]
pub proof fn lemma_encode_decode(op: u16)
    ensures
        decode_spec(op) matches Some(ins) ==> ins.wf() && (encode(ins) == op || ((
        ins is SkipIfRegistersEqual || ins is SkipIfRegistersNotEqual) && encode(ins) == op - op
            % 16)),
{
    lemma_reassemble(op);
}

} // verus!
