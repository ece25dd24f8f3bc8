//! The abstract state of the machine and what one cycle does to it.
use vstd::prelude::*;
use crate::inout::{draw_result, first_pressed_below, sprite_fits, DISPLAY_PIXELS, KEY_COUNT, FONTSET};
use crate::isa::{decode_spec, Instruction};
use crate::memory::{write_bytes, FONTSET_START_ADDRESS, MEMORY_SIZE, STACK_SIZE, START_ADDRESS};

verus! {

/// The whole state of the machine as mathematical values.
pub struct Machine {
    pub memory: Seq<u8>,
    pub registers: Seq<u8>,
    pub index: u16,
    pub pc: u16,
    /// Saved return addresses, oldest first.
    pub stack: Seq<u16>,
    pub pixels: Seq<bool>,
    pub width: usize,
    pub height: usize,
    /// Set by the instructions that change the screen.
    pub redraw: bool,
    pub keys: Seq<bool>,
    pub delay: u8,
    pub sound: u8,
    /// State of the pseudo-random generator.
    pub rng: u16,
}

/// One xorshift step on 16 bits.
pub open spec fn xorshift(v: u16) -> u16 {
    let a = v ^ (v << 7u16);
    let b = a ^ (a >> 9u16);
    b ^ (b << 8u16)
}

/// The big-endian opcode stored at `pc` and `pc + 1`.
pub open spec fn opcode_at(memory: Seq<u8>, pc: int) -> u16 {
    (memory[pc] as int * 256 + memory[pc + 1] as int) as u16
}

/// Decimal digits of a byte, hundreds first.
pub open spec fn bcd_digits(v: u8) -> Seq<u8> {
    seq![(v / 100) as u8, ((v / 10) % 10) as u8, (v % 10) as u8]
}

/// A skip: the program counter jumps over the next instruction when `cond` holds.
pub open spec fn skip_if(s: Machine, cond: bool) -> Machine {
    if cond {
        Machine { pc: (s.pc + 2) as u16, ..s }
    } else {
        s
    }
}

/// Sets register X and then the flag register VF.
pub open spec fn set_with_flag(s: Machine, x: usize, value: u8, flag: u8) -> Machine {
    Machine { registers: s.registers.update(x as int, value).update(0xF, flag), ..s }
}

pub open spec fn set_register(s: Machine, x: usize, value: u8) -> Machine {
    Machine { registers: s.registers.update(x as int, value), ..s }
}

/// Why the next cycle cannot run.
#[derive(Clone, Copy, Debug, PartialEq, Eq)]
pub enum CycleFault {
    /// The opcode at the program counter lies (partly) outside memory.
    ProgramCounterOutOfMemory(u16),
    /// The opcode is not one of the instruction set.
    UnknownOpcode(u16),
    /// A call with every stack level in use.
    StackOverflow,
    /// A return without a call.
    StackUnderflow,
    /// A draw on a screen of zero width or height.
    BadDisplayShape,
    /// A draw with a set bit that reaches past the pixel buffer.
    SpriteOutsideBuffer,
    /// A draw, decimal store or register store/load that reaches past memory.
    MemoryOutOfRange,
    /// A key test on a register that holds no key number.
    KeyOutOfRange(u8),
}

impl Machine {
    /// Why the next cycle cannot run, if it cannot.
    pub open spec fn fault(self) -> Option<CycleFault> {
        if !self.can_fetch() {
            Some(CycleFault::ProgramCounterOutOfMemory(self.pc))
        } else {
            match decode_spec(self.opcode()) {
                None => Some(CycleFault::UnknownOpcode(self.opcode())),
                Some(ins) => self.fetched().fault_of(ins),
            }
        }
    }

    /// Why a decoded, well-formed instruction cannot run in this state, if it cannot.
    pub open spec fn fault_of(self, ins: Instruction) -> Option<CycleFault> {
        match ins {
            Instruction::Return => if self.stack.len() == 0 {
                Some(CycleFault::StackUnderflow)
            } else {
                None
            },
            Instruction::Call(_) => if self.stack.len() >= STACK_SIZE {
                Some(CycleFault::StackOverflow)
            } else {
                None
            },
            Instruction::Draw(x, y, n) => if self.index + n > MEMORY_SIZE {
                Some(CycleFault::MemoryOutOfRange)
            } else if self.width == 0 || self.height == 0 {
                Some(CycleFault::BadDisplayShape)
            } else if !self.draw_fits(x, y, n) {
                Some(CycleFault::SpriteOutsideBuffer)
            } else {
                None
            },
            Instruction::SkipIfKey(x) => if self.registers[x as int] >= KEY_COUNT {
                Some(CycleFault::KeyOutOfRange(self.registers[x as int]))
            } else {
                None
            },
            Instruction::SkipIfNotKey(x) => if self.registers[x as int] >= KEY_COUNT {
                Some(CycleFault::KeyOutOfRange(self.registers[x as int]))
            } else {
                None
            },
            Instruction::StoreBcd(_) => if self.index + 3 > MEMORY_SIZE {
                Some(CycleFault::MemoryOutOfRange)
            } else {
                None
            },
            Instruction::StoreRegisters(x) => if self.index + x + 1 > MEMORY_SIZE {
                Some(CycleFault::MemoryOutOfRange)
            } else {
                None
            },
            Instruction::LoadRegisters(x) => if self.index + x + 1 > MEMORY_SIZE {
                Some(CycleFault::MemoryOutOfRange)
            } else {
                None
            },
            _ => None,
        }
    }

    /// The sequences have the sizes of the machine's memories.
    pub open spec fn wf(self) -> bool {
        &&& self.memory.len() == MEMORY_SIZE
        &&& self.registers.len() == 16
        &&& self.stack.len() <= STACK_SIZE
        &&& self.pixels.len() == DISPLAY_PIXELS
        &&& self.keys.len() == KEY_COUNT
    }

    /// The sprite of DXYN lands in the pixel buffer.
    pub open spec fn draw_fits(self, x: usize, y: usize, n: u8) -> bool {
        sprite_fits(
            self.registers[x as int] as int % self.width as int,
            self.registers[y as int] as int % self.height as int,
            self.width as int,
            self.height as int,
            self.memory.subrange(self.index as int, self.index + n),
            DISPLAY_PIXELS as int,
        )
    }

    /// The opcode at the program counter can be read.
    pub open spec fn can_fetch(self) -> bool {
        self.pc + 1 < MEMORY_SIZE
    }

    pub open spec fn opcode(self) -> u16 {
        opcode_at(self.memory, self.pc as int)
    }

    /// The state right after the fetch: the program counter moved past the opcode.
    pub open spec fn fetched(self) -> Machine {
        Machine { pc: (self.pc + 2) as u16, ..self }
    }

    /// The instruction can run in this state: the stack, memory and key
    /// accesses it makes are in range.
    pub open spec fn can_execute(self, ins: Instruction) -> bool {
        &&& ins.wf()
        &&& match ins {
            Instruction::Return => self.stack.len() > 0,
            Instruction::Call(_) => self.stack.len() < STACK_SIZE,
            Instruction::Draw(x, y, n) => {
                &&& self.index + n <= MEMORY_SIZE
                &&& 0 < self.width
                &&& 0 < self.height
                &&& self.draw_fits(x, y, n)
            },
            Instruction::SkipIfKey(x) => self.registers[x as int] < KEY_COUNT,
            Instruction::SkipIfNotKey(x) => self.registers[x as int] < KEY_COUNT,
            Instruction::StoreBcd(_) => self.index + 3 <= MEMORY_SIZE,
            Instruction::StoreRegisters(x) => self.index + x + 1 <= MEMORY_SIZE,
            Instruction::LoadRegisters(x) => self.index + x + 1 <= MEMORY_SIZE,
            _ => true,
        }
    }

    /// One cycle is defined: the opcode can be fetched, it is known, and the
    /// instruction can run once the program counter has moved past it.
    pub open spec fn can_step(self) -> bool {
        &&& self.can_fetch()
        &&& decode_spec(self.opcode()) matches Some(ins)
        &&& self.fetched().can_execute(ins)
    }

    /// One fetch -> decode -> execute cycle.
    pub open spec fn step(self) -> Machine {
        self.fetched().execute(decode_spec(self.opcode())->Some_0)
    }

    /// What an instruction does, the program counter already past it.
    pub open spec fn execute(self, ins: Instruction) -> Machine {
        let r = self.registers;
        match ins {
            Instruction::ClearScreen => Machine {
                pixels: Seq::new(DISPLAY_PIXELS as nat, |i: int| false),
                redraw: true,
                ..self
            },
            Instruction::Return => Machine {
                pc: self.stack.last(),
                stack: self.stack.drop_last(),
                ..self
            },
            Instruction::Jump(nnn) => Machine { pc: nnn, ..self },
            Instruction::Call(nnn) => Machine { pc: nnn, stack: self.stack.push(self.pc), ..self },
            Instruction::SkipIfEqual(x, nn) => skip_if(self, r[x as int] == nn),
            Instruction::SkipIfNotEqual(x, nn) => skip_if(self, r[x as int] != nn),
            Instruction::SkipIfRegistersEqual(x, y) => skip_if(self, r[x as int] == r[y as int]),
            Instruction::SetRegister(x, nn) => set_register(self, x, nn),
            Instruction::AddToRegister(x, nn) => set_register(
                self,
                x,
                ((r[x as int] + nn) % 256) as u8,
            ),
            Instruction::Move(x, y) => set_register(self, x, r[y as int]),
            Instruction::Or(x, y) => set_with_flag(self, x, r[x as int] | r[y as int], 0),
            Instruction::And(x, y) => set_with_flag(self, x, r[x as int] & r[y as int], 0),
            Instruction::Xor(x, y) => set_with_flag(self, x, r[x as int] ^ r[y as int], 0),
            Instruction::AddRegisters(x, y) => {
                let sum = r[x as int] + r[y as int];
                set_with_flag(
                    self,
                    x,
                    (sum % 256) as u8,
                    if sum > 255 {
                        1
                    } else {
                        0
                    },
                )
            },
            Instruction::SubRegisters(x, y) => set_with_flag(
                self,
                x,
                ((r[x as int] - r[y as int] + 256) % 256) as u8,
                if r[x as int] >= r[y as int] {
                    1
                } else {
                    0
                },
            ),
            Instruction::ShiftRight(x, y) => set_with_flag(
                self,
                x,
                (r[y as int] / 2) as u8,
                (r[y as int] % 2) as u8,
            ),
            Instruction::SubReversed(x, y) => set_with_flag(
                self,
                x,
                ((r[y as int] - r[x as int] + 256) % 256) as u8,
                if r[y as int] >= r[x as int] {
                    1
                } else {
                    0
                },
            ),
            Instruction::ShiftLeft(x, y) => set_with_flag(
                self,
                x,
                ((r[y as int] * 2) % 256) as u8,
                (r[y as int] / 128) as u8,
            ),
            Instruction::SkipIfRegistersNotEqual(x, y) => skip_if(self, r[x as int] != r[y as int]),
            Instruction::SetIndex(nnn) => Machine { index: nnn, ..self },
            Instruction::JumpPlusV0(nnn) => Machine { pc: (nnn + r[0]) as u16, ..self },
            Instruction::Random(x, nn) => {
                let next = xorshift(self.rng);
                set_register(Machine { rng: next, ..self }, x, (next as u8) & nn)
            },
            Instruction::Draw(x, y, n) => {
                let drawn = draw_result(
                    self.pixels,
                    r[x as int] as int % self.width as int,
                    r[y as int] as int % self.height as int,
                    self.width as int,
                    self.height as int,
                    self.memory.subrange(self.index as int, self.index + n),
                );
                Machine {
                    pixels: drawn.0,
                    redraw: true,
                    registers: r.update(
                        0xF,
                        if drawn.1 {
                            1
                        } else {
                            0
                        },
                    ),
                    ..self
                }
            },
            Instruction::SkipIfKey(x) => skip_if(self, self.keys[r[x as int] as int]),
            Instruction::SkipIfNotKey(x) => skip_if(self, !self.keys[r[x as int] as int]),
            Instruction::ReadDelay(x) => set_register(self, x, self.delay),
            Instruction::WaitKey(x) => match first_pressed_below(self.keys, KEY_COUNT as int) {
                Some(k) => set_register(self, x, k as u8),
                None => Machine { pc: (self.pc - 2) as u16, ..self },
            },
            Instruction::SetDelay(x) => Machine { delay: r[x as int], ..self },
            Instruction::SetSound(x) => Machine { sound: r[x as int], ..self },
            Instruction::AddToIndex(x) => Machine {
                index: ((self.index + r[x as int]) % 0x10000) as u16,
                ..self
            },
            Instruction::FontSprite(x) => Machine {
                index: (FONTSET_START_ADDRESS + (r[x as int] % 16) * 5) as u16,
                ..self
            },
            Instruction::StoreBcd(x) => Machine {
                memory: write_bytes(self.memory, self.index as int, bcd_digits(r[x as int])),
                ..self
            },
            Instruction::StoreRegisters(x) => Machine {
                memory: write_bytes(self.memory, self.index as int, r.take(x + 1)),
                index: (self.index + x + 1) as u16,
                ..self
            },
            Instruction::LoadRegisters(x) => Machine {
                registers: write_bytes(
                    r,
                    0,
                    self.memory.subrange(self.index as int, self.index + x + 1),
                ),
                index: (self.index + x + 1) as u16,
                ..self
            },
        }
    }

    /// Both timers count down by one, stopping at zero.
    pub open spec fn tick(self) -> Machine {
        Machine {
            delay: if self.delay > 0 {
                (self.delay - 1) as u8
            } else {
                0
            },
            sound: if self.sound > 0 {
                (self.sound - 1) as u8
            } else {
                0
            },
            ..self
        }
    }

    /// The state after `k` cycles.
    pub open spec fn steps(self, k: nat) -> Machine
        decreases k,
    {
        if k == 0 {
            self
        } else {
            self.steps((k - 1) as nat).step()
        }
    }

    /// Each of the first `k` cycles can run.
    pub open spec fn steps_defined(self, k: nat) -> bool
        decreases k,
    {
        k == 0 || (self.steps_defined((k - 1) as nat) && self.steps((k - 1) as nat).can_step())
    }

    /// The state after `n` timer ticks.
    pub open spec fn ticks(self, n: nat) -> Machine
        decreases n,
    {
        if n == 0 {
            self
        } else {
            self.tick().ticks((n - 1) as nat)
        }
    }

    /// `program` copied to the start address, where execution begins.
    pub open spec fn loaded(self, program: Seq<u8>) -> Machine {
        Machine {
            memory: write_bytes(self.memory, START_ADDRESS as int, program),
            pc: START_ADDRESS as u16,
            ..self
        }
    }
}

/// The state of a new machine: zeroed memory with the font at its address,
/// cleared registers, empty stack, blank 64x32 screen, no key pressed,
/// stopped timers and the generator's seed.
pub open spec fn initial_machine() -> Machine {
    Machine {
        memory: write_bytes(
            Seq::new(MEMORY_SIZE as nat, |i: int| 0u8),
            FONTSET_START_ADDRESS as int,
            FONTSET@,
        ),
        registers: Seq::new(16, |i: int| 0u8),
        index: 0,
        pc: START_ADDRESS as u16,
        stack: Seq::empty(),
        pixels: Seq::new(DISPLAY_PIXELS as nat, |i: int| false),
        width: 64,
        height: 32,
        redraw: false,
        keys: Seq::new(KEY_COUNT as nat, |i: int| false),
        delay: 0,
        sound: 0,
        rng: 0xACE1,
    }
}

} // verus!
