//! The CPU: the machine's storage and its fetch -> decode -> execute cycle.
use vstd::prelude::*;
use crate::inout::{self, Timer, FONTSET, KEY_COUNT};
use crate::isa::{decode, Instruction};
use crate::laws::lemma_xorshift_nonzero;
use crate::machine::{initial_machine, xorshift, CycleFault, Machine};
use crate::memory::{self, write_bytes, FONTSET_START_ADDRESS, MEMORY_SIZE, START_ADDRESS};

verus! {

/// CPU cycles per 60 Hz frame (about 600 instructions per second).
pub const CYCLES_PER_FRAME: usize = 10;

broadcast use vstd::array::group_array_axioms;

pub struct Chip8 {
    pub memory: memory::Memory,
    pub registers: memory::registers,
    pub index_pointer: memory::index_pointer,
    pub program_counter: memory::program_counter,
    pub stack: memory::Stack,
    pub display: inout::Display,
    pub keyboard: inout::Keyboard,
    pub delay_timer: Timer,
    pub sound_timer: Timer,
    /// State of the pseudo-random generator used by opcode CXNN.
    pub random_state: u16,
}

impl View for Chip8 {
    type V = Machine;

    open spec fn view(&self) -> Machine {
        Machine {
            memory: self.memory@,
            registers: self.registers@,
            index: self.index_pointer,
            pc: self.program_counter,
            stack: self.stack@,
            pixels: self.display.pixel@,
            width: self.display.width,
            height: self.display.height,
            redraw: self.display.modify_display,
            keys: self.keyboard.key@,
            delay: self.delay_timer,
            sound: self.sound_timer,
            rng: self.random_state,
        }
    }
}

impl Chip8 {
    /// The abstract state of every machine is well formed: memory, registers,
    /// screen and keypad have their sizes, and the stack is within its levels.
    pub proof fn lemma_wf(&self)
        ensures
            self@.wf(),
    {
        self.stack.lemma_bounds();
    }

    pub fn new() -> (chip8: Self)
        ensures
            chip8@ == initial_machine(),
    {
        let mut chip8 = Self {
            memory: [0; MEMORY_SIZE],
            registers: [0; 16],
            index_pointer: 0,
            program_counter: START_ADDRESS as memory::program_counter,
            stack: memory::Stack::new(),
            display: inout::Display::new(),
            keyboard: inout::Keyboard::new(),
            delay_timer: 0,
            sound_timer: 0,
            random_state: 0xACE1,
        };
        Self::load_fontset(&mut chip8.memory);
        proof {
            assert(chip8.memory@ =~= initial_machine().memory);
            assert(chip8.registers@ =~= initial_machine().registers);
            assert(chip8.display.pixel@ =~= initial_machine().pixels);
            assert(chip8.keyboard.key@ =~= initial_machine().keys);
        }
        chip8
    }

    /// Copies the font sprites to their address.
    pub fn load_fontset(memory: &mut memory::Memory)
        ensures
            final(memory)@ == write_bytes(old(memory)@, FONTSET_START_ADDRESS as int, FONTSET@),
    {
        let start = FONTSET_START_ADDRESS;
        let mut i: usize = 0;
        while i < FONTSET.len()
            invariant
                i <= FONTSET@.len(),
                start == FONTSET_START_ADDRESS,
                FONTSET@.len() == 80,
                forall|j: int|
                    0 <= j < MEMORY_SIZE ==> #[trigger] memory@[j] == if start <= j < start + i {
                        FONTSET@[j - start]
                    } else {
                        old(memory)@[j]
                    },
            decreases FONTSET@.len() - i,
        {
            memory[start + i] = FONTSET[i];
            i += 1;
        }
        assert(memory@ =~= write_bytes(old(memory)@, FONTSET_START_ADDRESS as int, FONTSET@));
    }

    /// Loads a program at the start address and points the program counter at it.
    pub fn load_program(&mut self, program: &[u8])
        requires
            START_ADDRESS + program@.len() <= MEMORY_SIZE,
        ensures
            final(self)@ == old(self)@.loaded(program@),
    {
        let start = START_ADDRESS;
        let mut i: usize = 0;
        while i < program.len()
            invariant
                i <= program@.len(),
                start == START_ADDRESS,
                START_ADDRESS + program@.len() <= MEMORY_SIZE,
                self@ == (Machine { memory: self.memory@, ..old(self)@ }),
                forall|j: int|
                    0 <= j < MEMORY_SIZE ==> #[trigger] self.memory@[j] == if start <= j < start
                        + i {
                        program@[j - start]
                    } else {
                        old(self).memory@[j]
                    },
            decreases program@.len() - i,
        {
            self.memory[start + i] = program[i];
            i += 1;
        }
        self.program_counter = start as memory::program_counter;
        assert(self.memory@ =~= write_bytes(old(self).memory@, START_ADDRESS as int, program@));
    }

    /// Counts both timers down by one (called at 60 Hz), stopping at zero.
    pub fn tick_timers(&mut self)
        ensures
            final(self)@ == old(self)@.tick(),
    {
        if self.delay_timer > 0 {
            self.delay_timer -= 1;
        }
        if self.sound_timer > 0 {
            self.sound_timer -= 1;
        }
    }

    /// Advances the xorshift generator and returns the low byte of its new state.
    fn random_byte(&mut self) -> (byte: u8)
        ensures
            final(self)@ == (Machine { rng: xorshift(old(self).random_state), ..old(self)@ }),
            byte == xorshift(old(self).random_state) as u8,
            old(self).random_state != 0 ==> final(self).random_state != 0,
    {
        proof {
            if self.random_state != 0 {
                lemma_xorshift_nonzero(self.random_state);
            }
        }
        let mut value = self.random_state;
        value ^= value << 7u16;
        value ^= value >> 9u16;
        value ^= value << 8u16;
        self.random_state = value;
        value as u8
    }

    /// Tells whether the next cycle can run, and if not, why.
    pub fn check_cycle(&self) -> (r: Result<(), CycleFault>)
        ensures
            r is Ok <==> self@.can_step(),
            r matches Err(f) ==> self@.fault() == Some(f),
            r is Ok ==> self@.fault() is None,
    {
        let pc = self.program_counter as usize;
        if pc + 1 >= MEMORY_SIZE {
            return Err(CycleFault::ProgramCounterOutOfMemory(self.program_counter));
        }
        let opcode = (self.memory[pc] as u16) * 256 + self.memory[pc + 1] as u16;
        let ins = match decode(opcode) {
            Some(ins) => ins,
            None => {
                return Err(CycleFault::UnknownOpcode(opcode));
            },
        };
        let index = self.index_pointer as usize;
        match ins {
            Instruction::Return => {
                if self.stack.depth() == 0 {
                    return Err(CycleFault::StackUnderflow);
                }
            },
            Instruction::Call(_) => {
                if self.stack.depth() >= memory::STACK_SIZE {
                    return Err(CycleFault::StackOverflow);
                }
            },
            Instruction::Draw(x, y, n) => {
                if index + n as usize > MEMORY_SIZE {
                    return Err(CycleFault::MemoryOutOfRange);
                }
                let w = self.display.width;
                let h = self.display.height;
                if w == 0 || h == 0 {
                    return Err(CycleFault::BadDisplayShape);
                }
                let px = self.registers[x] as usize % w;
                let py = self.registers[y] as usize % h;
                let sprite = vstd::slice::slice_subrange(
                    self.memory.as_slice(),
                    index,
                    index + n as usize,
                );
                if !self.display.can_draw(px, py, sprite) {
                    return Err(CycleFault::SpriteOutsideBuffer);
                }
            },
            Instruction::SkipIfKey(x) | Instruction::SkipIfNotKey(x) => {
                if self.registers[x] as usize >= KEY_COUNT {
                    return Err(CycleFault::KeyOutOfRange(self.registers[x]));
                }
            },
            Instruction::StoreBcd(_) => {
                if index + 3 > MEMORY_SIZE {
                    return Err(CycleFault::MemoryOutOfRange);
                }
            },
            Instruction::StoreRegisters(x) | Instruction::LoadRegisters(x) => {
                if index + x + 1 > MEMORY_SIZE {
                    return Err(CycleFault::MemoryOutOfRange);
                }
            },
            _ => {},
        }
        Ok(())
    }

    /// One 60 Hz frame: `CYCLES_PER_FRAME` cycles, then one timer tick. Stops
    /// at the first cycle that cannot run and tells why, the cycles before it done.
    pub fn run_frame(&mut self) -> (r: Result<(), CycleFault>)
        ensures
            r is Ok ==> old(self)@.steps_defined(CYCLES_PER_FRAME as nat) && final(self)@ == old(
                self,
            )@.steps(CYCLES_PER_FRAME as nat).tick(),
            r matches Err(f) ==> exists|k: nat|
                k < CYCLES_PER_FRAME && old(self)@.steps_defined(k) && !old(self)@.steps(k).can_step()
                    && final(self)@ == #[trigger] old(self)@.steps(k) && final(self)@.fault() == Some(f),
    {
        let mut i: usize = 0;
        while i < CYCLES_PER_FRAME
            invariant
                i <= CYCLES_PER_FRAME,
                old(self)@.steps_defined(i as nat),
                self@ == old(self)@.steps(i as nat),
            decreases CYCLES_PER_FRAME - i,
        {
            match self.check_cycle() {
                Err(f) => {
                    return Err(f);
                },
                Ok(()) => {},
            }
            self.emulate_cycle();
            i += 1;
        }
        self.tick_timers();
        Ok(())
    }

    /// One fetch -> decode -> execute cycle.
    pub fn emulate_cycle(&mut self)
        requires
            old(self)@.can_step(),
        ensures
            final(self)@ == old(self)@.step(),
    {
        let pc = self.program_counter as usize;
        let opcode = (self.memory[pc] as u16) * 256 + self.memory[pc + 1] as u16;
        self.program_counter = self.program_counter + 2;
        assert(self@ == old(self)@.fetched());
        match decode(opcode) {
            Some(ins) => self.execute(ins),
            None => {},
        }
    }

    /// Runs a decoded instruction; the program counter is already past it.
    fn execute(&mut self, ins: Instruction)
        requires
            old(self)@.can_execute(ins),
            2 <= old(self).program_counter <= MEMORY_SIZE,
        ensures
            final(self)@ == old(self)@.execute(ins),
    {
        match ins {
            Instruction::ClearScreen => {
                self.display.clear();
                assert(self.display.pixel@ =~= old(self)@.execute(ins).pixels);
            },
            Instruction::Return => {
                self.program_counter = self.stack.pop();
            },
            Instruction::Jump(nnn) => {
                self.program_counter = nnn;
            },
            Instruction::Call(nnn) => {
                self.stack.push(self.program_counter);
                self.program_counter = nnn;
            },
            Instruction::SkipIfEqual(x, nn) => {
                if self.registers[x] == nn {
                    self.program_counter = self.program_counter + 2;
                }
            },
            Instruction::SkipIfNotEqual(x, nn) => {
                if self.registers[x] != nn {
                    self.program_counter = self.program_counter + 2;
                }
            },
            Instruction::SkipIfRegistersEqual(x, y) => {
                if self.registers[x] == self.registers[y] {
                    self.program_counter = self.program_counter + 2;
                }
            },
            Instruction::SetRegister(x, nn) => {
                self.registers[x] = nn;
            },
            Instruction::AddToRegister(x, nn) => {
                self.registers[x] = self.registers[x].wrapping_add(nn);
            },
            _ => {
                self.execute_rest(ins);
            },
        }
    }

    /// The instructions of group 8 and the rest of the set, past the first nine.
    fn execute_rest(&mut self, ins: Instruction)
        requires
            old(self)@.can_execute(ins),
            match ins {
                Instruction::ClearScreen | Instruction::Return | Instruction::Jump(..)
                | Instruction::Call(..) | Instruction::SkipIfEqual(..)
                | Instruction::SkipIfNotEqual(..) | Instruction::SkipIfRegistersEqual(..)
                | Instruction::SetRegister(..) | Instruction::AddToRegister(..) => false,
                _ => true,
            },
            2 <= old(self).program_counter <= MEMORY_SIZE,
        ensures
            final(self)@ == old(self)@.execute(ins),
    {
        match ins {
            Instruction::Move(x, y) => {
                self.registers[x] = self.registers[y];
            },
            Instruction::Or(x, y) => {
                self.registers[x] = self.registers[x] | self.registers[y];
                self.registers[0xF] = 0;
            },
            Instruction::And(x, y) => {
                self.registers[x] = self.registers[x] & self.registers[y];
                self.registers[0xF] = 0;
            },
            Instruction::Xor(x, y) => {
                self.registers[x] = self.registers[x] ^ self.registers[y];
                self.registers[0xF] = 0;
            },
            Instruction::AddRegisters(x, y) => {
                let sum = self.registers[x] as u16 + self.registers[y] as u16;
                self.registers[x] = (sum % 256) as u8;
                self.registers[0xF] = if sum > 255 {
                    1
                } else {
                    0
                };
            },
            Instruction::SubRegisters(x, y) => {
                let vx = self.registers[x];
                let vy = self.registers[y];
                self.registers[x] = vx.wrapping_sub(vy);
                self.registers[0xF] = if vx >= vy {
                    1
                } else {
                    0
                };
            },
            Instruction::ShiftRight(x, y) => {
                let vy = self.registers[y];
                self.registers[x] = vy / 2;
                self.registers[0xF] = vy % 2;
            },
            Instruction::SubReversed(x, y) => {
                let vx = self.registers[x];
                let vy = self.registers[y];
                self.registers[x] = vy.wrapping_sub(vx);
                self.registers[0xF] = if vy >= vx {
                    1
                } else {
                    0
                };
            },
            Instruction::ShiftLeft(x, y) => {
                let vy = self.registers[y];
                self.registers[x] = ((vy as u16 * 2) % 256) as u8;
                self.registers[0xF] = vy / 128;
            },
            _ => {
                self.execute_other(ins);
            },
        }
    }

    /// The instructions outside groups 0 to 8.
    fn execute_other(&mut self, ins: Instruction)
        requires
            old(self)@.can_execute(ins),
            match ins {
                Instruction::SkipIfRegistersNotEqual(..) | Instruction::SetIndex(..)
                | Instruction::JumpPlusV0(..) | Instruction::Random(..) | Instruction::Draw(..)
                | Instruction::SkipIfKey(..) | Instruction::SkipIfNotKey(..)
                | Instruction::ReadDelay(..) | Instruction::WaitKey(..) | Instruction::SetDelay(..)
                | Instruction::SetSound(..) | Instruction::AddToIndex(..)
                | Instruction::FontSprite(..) | Instruction::StoreBcd(..)
                | Instruction::StoreRegisters(..) | Instruction::LoadRegisters(..) => true,
                _ => false,
            },
            2 <= old(self).program_counter <= MEMORY_SIZE,
        ensures
            final(self)@ == old(self)@.execute(ins),
    {
        match ins {
            Instruction::SkipIfRegistersNotEqual(x, y) => {
                if self.registers[x] != self.registers[y] {
                    self.program_counter = self.program_counter + 2;
                }
            },
            Instruction::SetIndex(nnn) => {
                self.index_pointer = nnn;
            },
            Instruction::JumpPlusV0(nnn) => {
                self.program_counter = nnn + self.registers[0] as u16;
            },
            Instruction::Random(x, nn) => {
                let byte = self.random_byte();
                self.registers[x] = byte & nn;
            },
            Instruction::Draw(x, y, n) => {
                self.draw(x, y, n);
            },
            Instruction::SkipIfKey(x) => {
                if self.keyboard.is_pressed(self.registers[x]) {
                    self.program_counter = self.program_counter + 2;
                }
            },
            Instruction::SkipIfNotKey(x) => {
                if !self.keyboard.is_pressed(self.registers[x]) {
                    self.program_counter = self.program_counter + 2;
                }
            },
            Instruction::ReadDelay(x) => {
                self.registers[x] = self.delay_timer;
            },
            Instruction::WaitKey(x) => {
                match self.keyboard.first_pressed() {
                    Some(key) => {
                        self.registers[x] = key;
                    },
                    None => {
                        self.program_counter = self.program_counter - 2;
                    },
                }
            },
            Instruction::SetDelay(x) => {
                self.delay_timer = self.registers[x];
            },
            Instruction::SetSound(x) => {
                self.sound_timer = self.registers[x];
            },
            Instruction::AddToIndex(x) => {
                self.index_pointer = self.index_pointer.wrapping_add(self.registers[x] as u16);
            },
            Instruction::FontSprite(x) => {
                let digit = (self.registers[x] % 16) as u16;
                self.index_pointer = FONTSET_START_ADDRESS as u16 + digit * 5;
            },
            Instruction::StoreBcd(x) => {
                self.store_bcd(x);
            },
            Instruction::StoreRegisters(x) => {
                self.store_registers(x);
            },
            Instruction::LoadRegisters(x) => {
                self.load_registers(x);
            },
            _ => {},
        }
    }

    /// DXYN: draws the N-byte sprite at the index pointer at (VX, VY); VF is the collision flag.
    fn draw(&mut self, x: usize, y: usize, n: u8)
        requires
            old(self)@.can_execute(Instruction::Draw(x, y, n)),
        ensures
            final(self)@ == old(self)@.execute(Instruction::Draw(x, y, n)),
    {
        let start = self.index_pointer as usize;
        let end = start + n as usize;
        let px = self.registers[x] as usize % self.display.width;
        let py = self.registers[y] as usize % self.display.height;
        let sprite = vstd::slice::slice_subrange(self.memory.as_slice(), start, end);
        let collision = self.display.draw_sprite(px, py, sprite);
        self.registers[0xF] = if collision {
            1
        } else {
            0
        };
    }

    /// FX33: stores the decimal digits of VX at the index pointer, hundreds first.
    fn store_bcd(&mut self, x: usize)
        requires
            old(self)@.can_execute(Instruction::StoreBcd(x)),
        ensures
            final(self)@ == old(self)@.execute(Instruction::StoreBcd(x)),
    {
        let value = self.registers[x];
        let i = self.index_pointer as usize;
        self.memory[i] = value / 100;
        self.memory[i + 1] = (value / 10) % 10;
        self.memory[i + 2] = value % 10;
        assert(self.memory@ =~= old(self)@.execute(Instruction::StoreBcd(x)).memory);
    }

    /// FX55: stores V0..=VX in memory from the index pointer on, and moves
    /// the index pointer past them.
    fn store_registers(&mut self, x: usize)
        requires
            old(self)@.can_execute(Instruction::StoreRegisters(x)),
        ensures
            final(self)@ == old(self)@.execute(Instruction::StoreRegisters(x)),
    {
        let i = self.index_pointer as usize;
        let mut k: usize = 0;
        while k <= x
            invariant
                x < 16,
                i == self.index_pointer,
                i + x + 1 <= MEMORY_SIZE,
                k <= x + 1,
                self@ == (Machine { memory: self.memory@, ..old(self)@ }),
                forall|j: int|
                    0 <= j < MEMORY_SIZE ==> #[trigger] self.memory@[j] == if i <= j < i + k {
                        self.registers@[j - i]
                    } else {
                        old(self).memory@[j]
                    },
            decreases x + 1 - k,
        {
            self.memory[i + k] = self.registers[k];
            k += 1;
        }
        self.index_pointer = (i + x + 1) as u16;
        assert(self.memory@ =~= old(self)@.execute(Instruction::StoreRegisters(x)).memory);
    }

    /// FX65: loads V0..=VX from memory from the index pointer on, and moves
    /// the index pointer past them.
    fn load_registers(&mut self, x: usize)
        requires
            old(self)@.can_execute(Instruction::LoadRegisters(x)),
        ensures
            final(self)@ == old(self)@.execute(Instruction::LoadRegisters(x)),
    {
        let i = self.index_pointer as usize;
        let mut k: usize = 0;
        while k <= x
            invariant
                x < 16,
                i == self.index_pointer,
                i + x + 1 <= MEMORY_SIZE,
                k <= x + 1,
                self@ == (Machine { registers: self.registers@, ..old(self)@ }),
                forall|j: int|
                    0 <= j < 16 ==> #[trigger] self.registers@[j] == if j < k {
                        self.memory@[i + j]
                    } else {
                        old(self).registers@[j]
                    },
            decreases x + 1 - k,
        {
            self.registers[k] = self.memory[i + k];
            k += 1;
        }
        self.index_pointer = (i + x + 1) as u16;
        assert(self.registers@ =~= old(self)@.execute(Instruction::LoadRegisters(x)).registers);
    }
}

} // verus!
