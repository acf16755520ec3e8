//! The addressable byte memory, the return-address stack and the sixteen
//! general-purpose registers of the machine.
use vstd::prelude::*;

verus! {

/// Number of addressable bytes.
pub const MEMORY_SIZE: usize = 0x1000;

/// Capacity of the return-address stack.
pub const STACK_SIZE: usize = 0xf;

/// Number of general-purpose registers.
pub const REGISTERS_COUNT: usize = 0x10;

/// Flat addressable byte array with bounds-checked access.
pub struct Memory {
    memory: Vec<u8>,
}

impl View for Memory {
    type V = Seq<u8>;

    closed spec fn view(&self) -> Seq<u8> {
        self.memory@
    }
}

impl Memory {
    /// A memory is well formed when it spans exactly the addressable range.
    pub open spec fn wf(&self) -> bool {
        self@.len() == MEMORY_SIZE
    }

    pub fn new() -> (m: Memory)
        ensures
            m.wf(),
            forall|a: int| 0 <= a < MEMORY_SIZE ==> m@[a] == 0u8,
    {
        let mut memory: Vec<u8> = Vec::new();
        let mut i: usize = 0;
        while i < MEMORY_SIZE
            invariant
                i <= MEMORY_SIZE,
                memory@.len() == i,
                forall|a: int| 0 <= a < i ==> memory@[a] == 0u8,
            decreases MEMORY_SIZE - i,
        {
            memory.push(0);
            i += 1;
        }
        Memory { memory }
    }

    pub fn read(&self, address: u16) -> (data: u8)
        requires
            self.wf(),
            address < MEMORY_SIZE,
        ensures
            data == self@[address as int],
    {
        self.memory[address as usize]
    }

    pub fn write(&mut self, address: u16, data: u8)
        requires
            old(self).wf(),
            address < MEMORY_SIZE,
        ensures
            final(self).wf(),
            final(self)@ == old(self)@.update(address as int, data),
    {
        self.memory.set(address as usize, data);
    }
}

/// Fixed-depth stack of 16-bit return addresses. The view is the sequence of
/// live entries, bottom first.
pub struct Stack {
    memory: Vec<u16>,
}

impl View for Stack {
    type V = Seq<u16>;

    closed spec fn view(&self) -> Seq<u16> {
        self.memory@
    }
}

impl Stack {
    /// The stack never holds more than its fixed capacity.
    pub open spec fn wf(&self) -> bool {
        self@.len() <= STACK_SIZE
    }

    pub fn new() -> (s: Stack)
        ensures
            s.wf(),
            s@ == Seq::<u16>::empty(),
    {
        Stack { memory: Vec::new() }
    }

    /// Number of live entries.
    pub fn len(&self) -> (n: usize)
        ensures
            n == self@.len(),
    {
        self.memory.len()
    }

    pub fn pop(&mut self) -> (address: u16)
        requires
            old(self).wf(),
            old(self)@.len() > 0,
        ensures
            final(self).wf(),
            address == old(self)@.last(),
            final(self)@ == old(self)@.drop_last(),
    {
        let address = self.memory.pop().unwrap();
        address
    }

    pub fn push(&mut self, address: u16)
        requires
            old(self)@.len() < STACK_SIZE,
        ensures
            final(self).wf(),
            final(self)@ == old(self)@.push(address),
    {
        self.memory.push(address);
    }
}

/// The sixteen byte registers V0 through VF.
pub struct Registers {
    registers: Vec<u8>,
}

impl View for Registers {
    type V = Seq<u8>;

    closed spec fn view(&self) -> Seq<u8> {
        self.registers@
    }
}

impl Registers {
    pub open spec fn wf(&self) -> bool {
        self@.len() == REGISTERS_COUNT
    }

    pub fn new() -> (r: Registers)
        ensures
            r.wf(),
            forall|i: int| 0 <= i < REGISTERS_COUNT ==> r@[i] == 0u8,
    {
        let mut registers: Vec<u8> = Vec::new();
        let mut i: usize = 0;
        while i < REGISTERS_COUNT
            invariant
                i <= REGISTERS_COUNT,
                registers@.len() == i,
                forall|a: int| 0 <= a < i ==> registers@[a] == 0u8,
            decreases REGISTERS_COUNT - i,
        {
            registers.push(0);
            i += 1;
        }
        Registers { registers }
    }

    pub fn get_register_at(&self, index: usize) -> (data: u8)
        requires
            self.wf(),
            index < REGISTERS_COUNT,
        ensures
            data == self@[index as int],
    {
        self.registers[index]
    }

    pub fn set_register_at(&mut self, index: usize, data: u8)
        requires
            old(self).wf(),
            index < REGISTERS_COUNT,
        ensures
            final(self).wf(),
            final(self)@ == old(self)@.update(index as int, data),
    {
        self.registers.set(index, data);
    }
}

} // verus!
