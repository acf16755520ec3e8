//! A CHIP-8 interpreter core: fixed-width instruction machine over 4096 bytes
//! of memory, sixteen byte registers, a call stack, a 64x32 monochrome
//! framebuffer and two countdown timers. Every instruction's effect on the
//! machine state is stated as a contract and verified; the host supplies the
//! keypad, the display and the random source as capabilities.
pub mod chipset;
pub mod display;
pub mod gpu;
pub mod keyboard;
pub mod memory;
pub mod opcode_processor;
pub mod random_byte_generator;

use crate::chipset::{
    Chip8Chipset, CoreState, RandomByteGenerator, TickStop, PROGRAM_COUNTER_BOUNDARY,
};
use crate::display::GraphicDisplay;
use crate::gpu::{Chip8Gpu, Gpu, FRAME_PIXELS};
use crate::keyboard::Keyboard;
use crate::memory::{Memory, Registers, Stack, MEMORY_SIZE};
use crate::opcode_processor::Chip8OpCodesProcessor;
use vstd::prelude::*;

verus! {

/// `mem` with `data` written over it starting at `at`.
pub open spec fn store_bytes(mem: Seq<u8>, at: int, data: Seq<u8>) -> Seq<u8> {
    Seq::new(
        mem.len(),
        |a: int|
            if at <= a < at + data.len() {
                data[a - at]
            } else {
                mem[a]
            },
    )
}

/// The eighty bytes of the built-in font: sixteen glyphs of five bytes each,
/// one per hexadecimal digit, most significant bit leftmost.
pub open spec fn font_data() -> Seq<u8> {
    seq![
        0xf0u8, 0x90, 0x90, 0x90, 0xf0,  // 0
        0x20, 0x60, 0x20, 0x20, 0x70,  // 1
        0xf0, 0x10, 0xf0, 0x80, 0xf0,  // 2
        0xf0, 0x10, 0xf0, 0x10, 0xf0,  // 3
        0x90, 0x90, 0xf0, 0x10, 0x10,  // 4
        0xf0, 0x80, 0xf0, 0x10, 0xf0,  // 5
        0xf0, 0x80, 0xf0, 0x90, 0xf0,  // 6
        0xf0, 0x10, 0x20, 0x40, 0x40,  // 7
        0xf0, 0x90, 0xf0, 0x90, 0xf0,  // 8
        0xf0, 0x90, 0xf0, 0x10, 0xf0,  // 9
        0xf0, 0x90, 0xf0, 0x90, 0x90,  // A
        0xe0, 0x90, 0xe0, 0x90, 0xe0,  // B
        0xf0, 0x80, 0x80, 0x80, 0xf0,  // C
        0xe0, 0x90, 0x90, 0x90, 0xe0,  // D
        0xf0, 0x80, 0xf0, 0x80, 0xf0,  // E
        0xf0, 0x80, 0xf0, 0x80, 0x80,  // F
    ]
}

/// The built-in font table.
pub struct Fontset {
    values: Vec<u8>,
}

impl Fontset {
    pub closed spec fn wf(&self) -> bool {
        self.values@ == font_data()
    }

    pub fn new() -> (fontset: Fontset)
        ensures
            fontset.wf(),
    {
        let values = vec![
            0xf0u8, 0x90, 0x90, 0x90, 0xf0,  // 0
            0x20, 0x60, 0x20, 0x20, 0x70,  // 1
            0xf0, 0x10, 0xf0, 0x80, 0xf0,  // 2
            0xf0, 0x10, 0xf0, 0x10, 0xf0,  // 3
            0x90, 0x90, 0xf0, 0x10, 0x10,  // 4
            0xf0, 0x80, 0xf0, 0x10, 0xf0,  // 5
            0xf0, 0x80, 0xf0, 0x90, 0xf0,  // 6
            0xf0, 0x10, 0x20, 0x40, 0x40,  // 7
            0xf0, 0x90, 0xf0, 0x90, 0xf0,  // 8
            0xf0, 0x90, 0xf0, 0x10, 0xf0,  // 9
            0xf0, 0x90, 0xf0, 0x90, 0x90,  // A
            0xe0, 0x90, 0xe0, 0x90, 0xe0,  // B
            0xf0, 0x80, 0x80, 0x80, 0xf0,  // C
            0xe0, 0x90, 0x90, 0x90, 0xe0,  // D
            0xf0, 0x80, 0xf0, 0x80, 0xf0,  // E
            0xf0, 0x80, 0xf0, 0x80, 0x80,  // F
        ];
        proof {
            assert(values@ =~= font_data());
        }
        Fontset { values }
    }

    pub fn get_values(&self) -> (values: &Vec<u8>)
        requires
            self.wf(),
        ensures
            values@ == font_data(),
    {
        &self.values
    }
}

/// A machine being assembled: memory and registers exist, but no program
/// runs yet. [`Emulator::initialize`] loads the font and a program and hands
/// back a running machine.
pub struct Emulator {
    memory: Memory,
    stack: Stack,
    fontset: Fontset,
    registers: Registers,
    opcode_processor: Chip8OpCodesProcessor,
    gpu: Chip8Gpu,
}

impl Emulator {
    pub closed spec fn memory_view(&self) -> Seq<u8> {
        self.memory@
    }

    pub closed spec fn registers_view(&self) -> Seq<u8> {
        self.registers@
    }

    pub closed spec fn framebuffer_view(&self) -> Seq<u8> {
        self.gpu.pixels()
    }

    pub closed spec fn wf(&self) -> bool {
        &&& self.memory.wf()
        &&& self.registers.wf()
        &&& self.stack@.len() == 0
        &&& self.gpu.pixels().len() == FRAME_PIXELS
        &&& self.fontset.wf()
    }

    pub fn new() -> (emulator: Emulator)
        ensures
            emulator.wf(),
            forall|a: int| 0 <= a < MEMORY_SIZE ==> emulator.memory_view()[a] == 0u8,
            forall|i: int| 0 <= i < 16 ==> emulator.registers_view()[i] == 0u8,
            forall|i: int| 0 <= i < FRAME_PIXELS ==> emulator.framebuffer_view()[i] == 0u8,
    {
        Emulator {
            memory: Memory::new(),
            stack: Stack::new(),
            fontset: Fontset::new(),
            registers: Registers::new(),
            opcode_processor: Chip8OpCodesProcessor::new(),
            gpu: Chip8Gpu::new(),
        }
    }

    /// Write the font table into the low memory region.
    pub fn load_fonts(&mut self)
        requires
            old(self).wf(),
        ensures
            final(self).wf(),
            final(self).memory_view() == store_bytes(old(self).memory_view(), 0, font_data()),
            final(self).registers_view() == old(self).registers_view(),
            final(self).framebuffer_view() == old(self).framebuffer_view(),
    {
        let mut address: usize = 0;
        while address < 80
            invariant
                address <= 80,
                self.memory.wf(),
                self.fontset.wf(),
                self.registers == old(self).registers,
                self.stack == old(self).stack,
                self.gpu == old(self).gpu,
                forall|a: int| 0 <= a < address ==> self.memory@[a] == font_data()[a],
                forall|a: int|
                    address <= a < MEMORY_SIZE ==> self.memory@[a] == old(self).memory_view()[a],
            decreases 80 - address,
        {
            let font = self.fontset.get_values()[address];
            self.memory.write(address as u16, font);
            address += 1;
        }
        proof {
            assert(self.memory@ =~= store_bytes(old(self).memory_view(), 0, font_data()));
        }
    }

    /// Write a program into memory starting at the program-counter boundary.
    pub fn load_program(&mut self, data: &[u8])
        requires
            old(self).wf(),
            data@.len() <= MEMORY_SIZE - PROGRAM_COUNTER_BOUNDARY,
        ensures
            final(self).wf(),
            final(self).memory_view() == store_bytes(
                old(self).memory_view(),
                PROGRAM_COUNTER_BOUNDARY as int,
                data@,
            ),
            final(self).registers_view() == old(self).registers_view(),
            final(self).framebuffer_view() == old(self).framebuffer_view(),
    {
        let mut offset: usize = 0;
        while offset < data.len()
            invariant
                offset <= data@.len(),
                data@.len() <= MEMORY_SIZE - PROGRAM_COUNTER_BOUNDARY,
                self.memory.wf(),
                self.fontset == old(self).fontset,
                self.registers == old(self).registers,
                self.stack == old(self).stack,
                self.gpu == old(self).gpu,
                forall|a: int|
                    PROGRAM_COUNTER_BOUNDARY <= a < PROGRAM_COUNTER_BOUNDARY + offset
                        ==> self.memory@[a] == data@[a - PROGRAM_COUNTER_BOUNDARY],
                forall|a: int|
                    0 <= a < MEMORY_SIZE && !(PROGRAM_COUNTER_BOUNDARY <= a
                        < PROGRAM_COUNTER_BOUNDARY + offset) ==> self.memory@[a] == old(
                        self,
                    ).memory_view()[a],
            decreases data@.len() - offset,
        {
            let byte = data[offset];
            self.memory.write(PROGRAM_COUNTER_BOUNDARY + offset as u16, byte);
            offset += 1;
        }
        proof {
            assert(self.memory@ =~= store_bytes(
                old(self).memory_view(),
                PROGRAM_COUNTER_BOUNDARY as int,
                data@,
            ));
        }
    }

    /// Load the font and the program, wire up the host's capabilities, and
    /// hand back a running machine whose program counter stands at the
    /// program's first instruction.
    pub fn initialize<K: Keyboard, D: GraphicDisplay, R: RandomByteGenerator>(
        self,
        data: &[u8],
        keyboard: K,
        display: D,
        random_byte_generator: R,
    ) -> (initialized: InitializedEmulator<K, D, R>)
        requires
            self.wf(),
            data@.len() <= MEMORY_SIZE - PROGRAM_COUNTER_BOUNDARY,
        ensures
            initialized.wf(),
            initialized.state() == (CoreState {
                mem: store_bytes(
                    store_bytes(self.memory_view(), 0, font_data()),
                    PROGRAM_COUNTER_BOUNDARY as int,
                    data@,
                ),
                regs: self.registers_view(),
                stack: Seq::<u16>::empty(),
                pc: PROGRAM_COUNTER_BOUNDARY,
                i: 0,
                delay: 0,
                sound: 0,
                fb: self.framebuffer_view(),
            }),
    {
        let mut emulator = self;
        emulator.load_fonts();
        emulator.load_program(data);

        let initialized = InitializedEmulator {
            chipset: Chip8Chipset::new(
                emulator.memory,
                emulator.stack,
                emulator.registers,
                emulator.opcode_processor,
                emulator.gpu,
                keyboard,
                display,
                random_byte_generator,
            ),
        };
        proof {
            assert(initialized.state() =~= (CoreState {
                mem: store_bytes(
                    store_bytes(self.memory_view(), 0, font_data()),
                    PROGRAM_COUNTER_BOUNDARY as int,
                    data@,
                ),
                regs: self.registers_view(),
                stack: Seq::<u16>::empty(),
                pc: PROGRAM_COUNTER_BOUNDARY,
                i: 0,
                delay: 0,
                sound: 0,
                fb: self.framebuffer_view(),
            }));
        }
        initialized
    }
}

/// A machine with a program loaded, ready to be stepped by the host.
pub struct InitializedEmulator<K: Keyboard, D: GraphicDisplay, R: RandomByteGenerator> {
    chipset: Chip8Chipset<K, D, R>,
}

impl<K: Keyboard, D: GraphicDisplay, R: RandomByteGenerator> InitializedEmulator<K, D, R> {
    /// The mathematical state the machine is in.
    pub closed spec fn state(&self) -> CoreState {
        self.chipset.state()
    }

    pub open spec fn wf(&self) -> bool {
        crate::chipset::wf_state(self.state())
    }

    /// One fetch-decode-execute cycle; see [`Chip8Chipset::tick`].
    pub fn run_cycle(&mut self) -> (r: Result<(), TickStop>)
        requires
            old(self).wf(),
        ensures
            final(self).wf(),
            exists|rand: u8, polled: Option<crate::keyboard::Key>, waited: crate::keyboard::Key|
                (final(self).state(), r) == crate::chipset::step(
                    old(self).state(),
                    rand,
                    polled,
                    waited,
                ),
    {
        self.chipset.tick()
    }

    /// The keypad capability, for the host.
    pub fn get_keyboard(&self) -> &K {
        self.chipset.get_keyboard()
    }

    /// A read-only view of the machine, for the host's display and tests.
    pub fn get_chipset(&self) -> (chipset: &Chip8Chipset<K, D, R>)
        ensures
            chipset.state() == self.state(),
    {
        &self.chipset
    }
}

} // verus!
