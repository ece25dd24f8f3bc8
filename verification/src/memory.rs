#![allow(non_camel_case_types)]

use vstd::prelude::*;

verus! {

/// Bytes of addressable memory.
pub const MEMORY_SIZE: usize = 4096;

/// Address where programs are loaded and execution starts.
pub const START_ADDRESS: usize = 0x200;

/// Maximum number of nested routine calls.
pub const STACK_SIZE: usize = 16;

/// Address where the built-in font sprites are stored.
pub const FONTSET_START_ADDRESS: usize = 0x50;

pub type Memory = [u8; MEMORY_SIZE];

pub type registers = [u8; 16];

pub type index_pointer = u16;

pub type program_counter = u16;

/// The return-address stack of routine calls.
pub struct Stack {
    stack: [u16; STACK_SIZE],
    top: usize,
}

impl View for Stack {
    type V = Seq<u16>;

    /// The saved return addresses, oldest first.
    closed spec fn view(&self) -> Seq<u16> {
        if self.top <= STACK_SIZE {
            self.stack@.take(self.top as int)
        } else {
            self.stack@
        }
    }
}

impl Stack {
    #[verifier::type_invariant]
    spec fn inv(self) -> bool {
        self.top <= STACK_SIZE
    }

    /// All sixteen slots, the free ones above the saved addresses included.
    pub closed spec fn buffer(&self) -> Seq<u16> {
        self.stack@
    }

    /// The buffer has sixteen slots, and the saved addresses are its first
    /// ones: at most sixteen.
    pub proof fn lemma_bounds(&self)
        ensures
            self.buffer().len() == STACK_SIZE,
            self@.len() <= STACK_SIZE,
            self@ == self.buffer().take(self@.len() as int),
    {
        assert(self.stack@ =~= self.stack@.take(STACK_SIZE as int));
    }

    pub fn new() -> (s: Self)
        ensures
            s@ == Seq::<u16>::empty(),
            s.buffer() == Seq::new(STACK_SIZE as nat, |i: int| 0u16),
    {
        let s = Self { stack: [0; STACK_SIZE], top: 0 };
        assert(s@ =~= Seq::<u16>::empty());
        assert(s.buffer() =~= Seq::new(STACK_SIZE as nat, |i: int| 0u16));
        s
    }

    /// Number of saved return addresses.
    pub fn depth(&self) -> (n: usize)
        ensures
            n == self@.len(),
            n <= STACK_SIZE,
    {
        proof {
            use_type_invariant(self);
        }
        self.top
    }

    /// Saves a return address before jumping into a routine.
    pub fn push(&mut self, address: u16)
        requires
            old(self)@.len() < STACK_SIZE,
        ensures
            final(self)@ == old(self)@.push(address),
            final(self).buffer() == old(self).buffer().update(old(self)@.len() as int, address),
            final(self).buffer().len() == STACK_SIZE,
            final(self)@ == final(self).buffer().take(final(self)@.len() as int),
    {
        proof {
            use_type_invariant(&*self);
        }
        let top = self.top;
        self.stack[top] = address;
        self.top = top + 1;
        assert(self@ =~= old(self)@.push(address));
    }

    /// Recovers the most recent return address when a routine ends.
    pub fn pop(&mut self) -> (address: u16)
        requires
            old(self)@.len() > 0,
        ensures
            address == old(self)@.last(),
            final(self)@ == old(self)@.drop_last(),
            final(self).buffer() == old(self).buffer(),
            final(self)@ == final(self).buffer().take(final(self)@.len() as int),
    {
        proof {
            use_type_invariant(&*self);
        }
        let top = self.top - 1;
        self.top = top;
        let address = self.stack[top];
        assert(self@ =~= old(self)@.drop_last());
        address
    }
}


/// `mem` with `bytes` written from address `at` on; the rest unchanged.
pub open spec fn write_bytes(mem: Seq<u8>, at: int, bytes: Seq<u8>) -> Seq<u8> {
    Seq::new(
        mem.len(),
        |j: int|
            if at <= j < at + bytes.len() {
                bytes[j - at]
            } else {
                mem[j]
            },
    )
}

} // verus!
