//! The instruction executor: the fetch-decode-execute cycle over the whole
//! machine state. The spec function [`step`] is a complete functional model
//! of one cycle; [`Chip8Chipset::tick`] is proved to implement it for every
//! reachable state, up to the byte the random source drew and the keys the
//! user pressed.
use crate::display::GraphicDisplay;
use crate::gpu::{draw_collides, draw_fb, Chip8Gpu, Gpu, FRAME_PIXELS};
use crate::keyboard::{Key, Keyboard};
use crate::memory::{Memory, Registers, Stack, MEMORY_SIZE, STACK_SIZE};
use crate::opcode_processor::{
    key_wait_pc, key_wait_regs, op_class, op_n, op_nn, op_nnn, op_x, op_y, skp_pc, sknp_pc,
    lemma_opcode_fields, Chip8OpCodesProcessor, OpCode,
};
use vstd::prelude::*;

verus! {

/// Address at which loaded programs start and the program counter begins.
pub const PROGRAM_COUNTER_BOUNDARY: u16 = 0x200;

/// Size in bytes of one instruction word.
pub const INSTRUCTION_SIZE: u16 = 2;

/// Program-counter sentinel near the top of the address space. When the user
/// asks to quit during a key instruction, the program counter is set here so
/// that the next fetch falls outside memory and the machine halts.
pub const ESCAPE_SENTINEL: u16 = 0xfffd;

/// A source of random bytes for the random-number instruction. What it
/// returns is unconstrained: the executor's contract holds for every byte.
pub trait RandomByteGenerator {
    fn generate(&self) -> u8;
}

/// Why a cycle did not complete normally: either the machine halted (end of
/// program, or the user quit), or a fatal fault was detected. Fatal faults
/// leave the machine state as it was when they were found.
#[derive(Debug, PartialEq, Eq, Structural, Copy, Clone)]
pub enum TickStop {
    /// Normal termination: an all-zero word or a fetch outside memory.
    Halted,
    /// The decoded word matches no operation; carries the word.
    UnknownOpcode(u16),
    /// A font lookup for a value above 0xf; carries the value.
    FontIndexOutOfRange(u8),
    /// A memory access outside the addressable range.
    OutOfBoundsMemory,
    /// A subroutine call beyond the stack's capacity.
    StackOverflow,
    /// A subroutine return with nothing on the stack.
    StackUnderflow,
}

/// The mathematical state of the machine: memory, registers, stack, program
/// counter, address register, the two timers and the framebuffer.
#[verifier::ext_equal]
pub struct CoreState {
    pub mem: Seq<u8>,
    pub regs: Seq<u8>,
    pub stack: Seq<u16>,
    pub pc: u16,
    pub i: u16,
    pub delay: u8,
    pub sound: u8,
    pub fb: Seq<u8>,
}

/// Validity of a machine state: the components have their fixed sizes and
/// every stacked return address can still be advanced past.
pub open spec fn wf_state(s: CoreState) -> bool {
    &&& s.mem.len() == MEMORY_SIZE
    &&& s.regs.len() == 16
    &&& s.stack.len() <= STACK_SIZE
    &&& forall|k: int| 0 <= k < s.stack.len() ==> s.stack[k] <= ESCAPE_SENTINEL
    &&& s.fb.len() == FRAME_PIXELS
}

/// A timer counts down by one per cycle while nonzero.
pub open spec fn decremented(t: u8) -> u8 {
    if t > 0 {
        (t - 1) as u8
    } else {
        0
    }
}

/// Both timers counted down; everything else untouched.
pub open spec fn tick_timers(s: CoreState) -> CoreState {
    CoreState { delay: decremented(s.delay), sound: decremented(s.sound), ..s }
}

/// The big-endian instruction word at `pc`: high byte first.
pub open spec fn fetch_word(mem: Seq<u8>, pc: int) -> u16 {
    ((mem[pc] as u16) << 8) | (mem[pc + 1] as u16)
}

/// Register file after an arithmetic or bit operation of the 8xyn family,
/// or nothing when the low nibble selects no operation. The flags register
/// is written after the target register, so a target of VF keeps the flag.
pub open spec fn alu_regs(regs: Seq<u8>, x: int, y: int, n: u16) -> Option<Seq<u8>> {
    if n == 0 {
        Some(regs.update(x, regs[y]))
    } else if n == 1 {
        Some(regs.update(x, regs[x] | regs[y]))
    } else if n == 2 {
        Some(regs.update(x, regs[x] & regs[y]))
    } else if n == 3 {
        Some(regs.update(x, regs[x] ^ regs[y]))
    } else if n == 4 {
        Some(
            regs.update(x, ((regs[x] + regs[y]) % 256) as u8).update(
                0xf,
                if regs[x] + regs[y] > 0xff {
                    1u8
                } else {
                    0u8
                },
            ),
        )
    } else if n == 5 {
        Some(
            regs.update(x, ((regs[x] - regs[y]) % 256) as u8).update(
                0xf,
                if regs[x] > regs[y] {
                    1u8
                } else {
                    0u8
                },
            ),
        )
    } else if n == 6 {
        Some(regs.update(0xf, regs[x] & 1).update(x, regs[x] >> 1u8))
    } else if n == 7 {
        Some(
            regs.update(x, ((regs[y] - regs[x]) % 256) as u8).update(
                0xf,
                if regs[y] > regs[x] {
                    1u8
                } else {
                    0u8
                },
            ),
        )
    } else if n == 0xe {
        Some(
            regs.update(
                0xf,
                if regs[x] & 0x80 == 0x80 {
                    1u8
                } else {
                    0u8
                },
            ).update(x, regs[x] << 1u8),
        )
    } else {
        None
    }
}

/// One cycle of the Fxyn family. `waited` is the key the blocking key wait
/// came back with, when that operation runs.
pub open spec fn step_fx(s: CoreState, w: u16, waited: Key) -> (CoreState, Result<(), TickStop>) {
    let x = op_x(w) as int;
    let y = op_y(w);
    let n = op_n(w);
    let pc2 = (s.pc + 2) as u16;
    if y == 0 && n == 7 {
        (CoreState { regs: s.regs.update(x, s.delay), pc: pc2, ..s }, Ok(()))
    } else if y == 0 && n == 0xa {
        (
            CoreState {
                regs: key_wait_regs(s.regs, x, waited),
                pc: (key_wait_pc(s.pc, waited) + 2) as u16,
                ..s
            },
            Ok(()),
        )
    } else if y == 1 && n == 5 {
        (CoreState { delay: s.regs[x], pc: pc2, ..s }, Ok(()))
    } else if y == 1 && n == 8 {
        (CoreState { sound: s.regs[x], pc: pc2, ..s }, Ok(()))
    } else if y == 1 && n == 0xe {
        (CoreState { i: ((s.i + s.regs[x]) % 0x10000) as u16, pc: pc2, ..s }, Ok(()))
    } else if y == 2 && n == 9 {
        if s.regs[x] > 0xf {
            (s, Err(TickStop::FontIndexOutOfRange(s.regs[x])))
        } else {
            (CoreState { i: (5 * s.regs[x]) as u16, pc: pc2, ..s }, Ok(()))
        }
    } else if y == 3 && n == 3 {
        if s.i + 3 > MEMORY_SIZE {
            (s, Err(TickStop::OutOfBoundsMemory))
        } else {
            (
                CoreState {
                    mem: s.mem.update(s.i as int, (s.regs[x] / 100) as u8).update(
                        s.i + 1,
                        ((s.regs[x] % 100) / 10) as u8,
                    ).update(s.i + 2, (s.regs[x] % 10) as u8),
                    pc: pc2,
                    ..s
                },
                Ok(()),
            )
        }
    } else if y == 5 && n == 5 {
        if s.i + op_x(w) >= MEMORY_SIZE {
            (s, Err(TickStop::OutOfBoundsMemory))
        } else {
            (
                CoreState {
                    mem: Seq::new(
                        s.mem.len(),
                        |a: int|
                            if s.i <= a <= s.i + x {
                                s.regs[a - s.i]
                            } else {
                                s.mem[a]
                            },
                    ),
                    pc: pc2,
                    ..s
                },
                Ok(()),
            )
        }
    } else if y == 6 && n == 5 {
        if s.i + op_x(w) >= MEMORY_SIZE {
            (s, Err(TickStop::OutOfBoundsMemory))
        } else {
            (
                CoreState {
                    regs: Seq::new(
                        s.regs.len(),
                        |z: int|
                            if 0 <= z <= x {
                                s.mem[s.i + z]
                            } else {
                                s.regs[z]
                            },
                    ),
                    pc: pc2,
                    ..s
                },
                Ok(()),
            )
        }
    } else {
        (s, Err(TickStop::UnknownOpcode(w)))
    }
}

/// One dispatch of a fetched, nonzero instruction word against the state
/// whose timers have already counted down.
pub open spec fn step_op(
    s: CoreState,
    w: u16,
    rand: u8,
    polled: Option<Key>,
    waited: Key,
) -> (CoreState, Result<(), TickStop>) {
    let class = op_class(w);
    let x = op_x(w) as int;
    let y = op_y(w) as int;
    let n = op_n(w);
    let nn = op_nn(w) as u8;
    let nnn = op_nnn(w);
    let pc2 = (s.pc + 2) as u16;
    if class == 0 {
        if x == 0 && y == 0xe && n == 0 {
            (CoreState { fb: Seq::new(s.fb.len(), |i: int| 0u8), pc: pc2, ..s }, Ok(()))
        } else if x == 0 && y == 0xe && n == 0xe {
            if s.stack.len() == 0 {
                (s, Err(TickStop::StackUnderflow))
            } else {
                (
                    CoreState {
                        pc: (s.stack.last() + 2) as u16,
                        stack: s.stack.drop_last(),
                        ..s
                    },
                    Ok(()),
                )
            }
        } else {
            (s, Err(TickStop::UnknownOpcode(w)))
        }
    } else if class == 1 {
        (CoreState { pc: nnn, ..s }, Ok(()))
    } else if class == 2 {
        if s.stack.len() >= STACK_SIZE {
            (s, Err(TickStop::StackOverflow))
        } else {
            (CoreState { stack: s.stack.push(s.pc), pc: nnn, ..s }, Ok(()))
        }
    } else if class == 3 {
        (
            CoreState {
                pc: if s.regs[x] == nn {
                    (s.pc + 4) as u16
                } else {
                    pc2
                },
                ..s
            },
            Ok(()),
        )
    } else if class == 4 {
        (
            CoreState {
                pc: if s.regs[x] != nn {
                    (s.pc + 4) as u16
                } else {
                    pc2
                },
                ..s
            },
            Ok(()),
        )
    } else if class == 5 {
        if n == 0 {
            (
                CoreState {
                    pc: if s.regs[x] == s.regs[y] {
                        (s.pc + 4) as u16
                    } else {
                        pc2
                    },
                    ..s
                },
                Ok(()),
            )
        } else {
            (s, Err(TickStop::UnknownOpcode(w)))
        }
    } else if class == 6 {
        (CoreState { regs: s.regs.update(x, nn), pc: pc2, ..s }, Ok(()))
    } else if class == 7 {
        (
            CoreState { regs: s.regs.update(x, ((s.regs[x] + nn) % 256) as u8), pc: pc2, ..s },
            Ok(()),
        )
    } else if class == 8 {
        match alu_regs(s.regs, x, y, n) {
            Some(regs) => (CoreState { regs, pc: pc2, ..s }, Ok(())),
            None => (s, Err(TickStop::UnknownOpcode(w))),
        }
    } else if class == 9 {
        if n == 0 {
            (
                CoreState {
                    pc: if s.regs[x] != s.regs[y] {
                        (s.pc + 4) as u16
                    } else {
                        pc2
                    },
                    ..s
                },
                Ok(()),
            )
        } else {
            (s, Err(TickStop::UnknownOpcode(w)))
        }
    } else if class == 0xa {
        (CoreState { i: nnn, pc: pc2, ..s }, Ok(()))
    } else if class == 0xb {
        (CoreState { pc: (nnn + s.regs[0]) as u16, ..s }, Ok(()))
    } else if class == 0xc {
        (CoreState { regs: s.regs.update(x, rand & nn), pc: pc2, ..s }, Ok(()))
    } else if class == 0xd {
        if s.i + n > MEMORY_SIZE {
            (s, Err(TickStop::OutOfBoundsMemory))
        } else {
            (
                CoreState {
                    fb: draw_fb(
                        s.fb,
                        s.mem,
                        s.i as int,
                        s.regs[x] as int,
                        s.regs[y] as int,
                        n as int,
                    ),
                    regs: s.regs.update(
                        0xf,
                        if draw_collides(
                            s.fb,
                            s.mem,
                            s.i as int,
                            s.regs[x] as int,
                            s.regs[y] as int,
                            n as int,
                        ) {
                            1u8
                        } else {
                            0u8
                        },
                    ),
                    pc: pc2,
                    ..s
                },
                Ok(()),
            )
        }
    } else if class == 0xe {
        if y == 9 && n == 0xe {
            (CoreState { pc: (skp_pc(s.regs[x], s.pc, polled) + 2) as u16, ..s }, Ok(()))
        } else if y == 0xa && n == 1 {
            (CoreState { pc: (sknp_pc(s.regs[x], s.pc, polled) + 2) as u16, ..s }, Ok(()))
        } else {
            (s, Err(TickStop::UnknownOpcode(w)))
        }
    } else {
        step_fx(s, w, waited)
    }
}

/// One whole cycle from state `s0`: timers count down, then the word at the
/// program counter is fetched and dispatched. `rand` is the byte the random
/// source drew, `polled` the key the keypad poll reported and `waited` the
/// key the blocking wait came back with, for the cycles that consult them; a
/// cycle that does not consult them does not depend on them.
pub open spec fn step(
    s0: CoreState,
    rand: u8,
    polled: Option<Key>,
    waited: Key,
) -> (CoreState, Result<(), TickStop>) {
    let s = tick_timers(s0);
    if s.pc as int + 1 >= MEMORY_SIZE {
        (s, Err(TickStop::Halted))
    } else {
        let w = fetch_word(s.mem, s.pc as int);
        if op_class(w) == 0 && op_x(w) == 0 && op_y(w) == 0 && op_n(w) == 0 {
            (s, Err(TickStop::Halted))
        } else {
            step_op(s, w, rand, polled, waited)
        }
    }
}

/// The machine as a host drives it: one cycle at a time, with read access to
/// memory and to the word about to run. [`Chip8Chipset`] is the
/// implementation in this crate; the trait lets a host hold any machine
/// behind one interface with the same contracts.
pub trait Chipset {
    /// The mathematical state the machine is in.
    spec fn chipset_state(&self) -> CoreState;

    fn get_memory(&self) -> (memory: &Memory)
        requires
            wf_state(self.chipset_state()),
        ensures
            memory.wf(),
            memory@ == self.chipset_state().mem,
    ;

    fn tick(&mut self) -> (r: Result<(), TickStop>)
        requires
            wf_state(old(self).chipset_state()),
        ensures
            wf_state(final(self).chipset_state()),
            exists|rand: u8, polled: Option<Key>, waited: Key|
                (final(self).chipset_state(), r) == step(
                    old(self).chipset_state(),
                    rand,
                    polled,
                    waited,
                ),
    ;

    fn current_opcode(&mut self) -> (opcode: Option<OpCode>)
        requires
            wf_state(old(self).chipset_state()),
        ensures
            final(self).chipset_state() == old(self).chipset_state(),
            match opcode {
                Some(op) => old(self).chipset_state().pc as int + 1 < MEMORY_SIZE
                    && op.spec_word() == fetch_word(
                    old(self).chipset_state().mem,
                    old(self).chipset_state().pc as int,
                ),
                None => old(self).chipset_state().pc as int + 1 >= MEMORY_SIZE,
            },
    ;
}

/// Loading an immediate into a register and then adding the same immediate
/// leaves the register holding `(nn + nn) mod 256`, whatever it held before:
/// two cycles, the first running `LD Vx,nn`, the second `ADD Vx,nn`.
pub proof fn lemma_load_then_add(s: CoreState, x: int, nn: u8)
    requires
        wf_state(s),
        s.pc as int + 3 < MEMORY_SIZE,
        op_class(fetch_word(s.mem, s.pc as int)) == 6,
        op_x(fetch_word(s.mem, s.pc as int)) == x,
        op_nn(fetch_word(s.mem, s.pc as int)) == nn,
        op_class(fetch_word(s.mem, s.pc as int + 2)) == 7,
        op_x(fetch_word(s.mem, s.pc as int + 2)) == x,
        op_nn(fetch_word(s.mem, s.pc as int + 2)) == nn,
    ensures
        ({
            let (s1, r1) = step(s, 0, None, Key::Key0);
            let (s2, r2) = step(s1, 0, None, Key::Key0);
            r1 == Ok::<(), TickStop>(()) && r2 == Ok::<(), TickStop>(()) && s2.regs[x] == (nn + nn)
                % 256
        }),
{
    let w1 = fetch_word(s.mem, s.pc as int);
    let w2 = fetch_word(s.mem, s.pc as int + 2);
    lemma_opcode_fields(w1);
    lemma_opcode_fields(w2);
    let (s1, r1) = step(s, 0, None, Key::Key0);
    assert(s1.regs == tick_timers(s).regs.update(x, nn));
    let (s2, r2) = step(s1, 0, None, Key::Key0);
    assert(s2.regs[x] == (nn + nn) % 256);
}

/// The add-with-carry operation of the 8xy4 family: for any register
/// contents, the target register takes the sum modulo 256, and the flags
/// register takes 1 exactly when the sum exceeds 255. The one excluded
/// target is VF itself, which the carry overwrites.
pub proof fn lemma_add_sets_carry(regs: Seq<u8>, x: int, y: int)
    requires
        regs.len() == 16,
        0 <= x < 16,
        0 <= y < 16,
        x != 0xf,
    ensures
        ({
            let after = alu_regs(regs, x, y, 4).unwrap();
            after[x] == (regs[x] + regs[y]) % 256 && (after[0xf] == 1 <==> regs[x] + regs[y] > 255)
                && (after[0xf] == 0 <==> regs[x] + regs[y] <= 255)
        }),
{
}

/// The subtract operation of the 8xy5 family: the target register takes the
/// difference modulo 256 (wrapping below zero), and the flags register takes
/// 1 exactly when `V[x] > V[y]`. The one excluded target is VF itself.
pub proof fn lemma_sub_sets_borrow(regs: Seq<u8>, x: int, y: int)
    requires
        regs.len() == 16,
        0 <= x < 16,
        0 <= y < 16,
        x != 0xf,
    ensures
        ({
            let after = alu_regs(regs, x, y, 5).unwrap();
            after[x] == (regs[x] - regs[y]) % 256 && (after[0xf] == 1 <==> regs[x] > regs[y]) && (
            after[0xf] == 0 <==> regs[x] <= regs[y])
        }),
{
}

/// After a cycle that runs the clear-screen operation, reading any pixel of
/// the framebuffer yields 0, whatever the framebuffer held before.
pub proof fn lemma_clear_screen_clears(s: CoreState)
    requires
        wf_state(s),
        s.pc as int + 1 < MEMORY_SIZE,
        op_class(fetch_word(s.mem, s.pc as int)) == 0,
        op_x(fetch_word(s.mem, s.pc as int)) == 0,
        op_y(fetch_word(s.mem, s.pc as int)) == 0xe,
        op_n(fetch_word(s.mem, s.pc as int)) == 0,
    ensures
        ({
            let (s1, r1) = step(s, 0, None, Key::Key0);
            r1 == Ok::<(), TickStop>(()) && forall|i: int| 0 <= i < s1.fb.len() ==> s1.fb[i] == 0u8
        }),
{
}

/// Calling a subroutine and returning from it: the return lands the program
/// counter on the instruction after the call, and the stack is as it was
/// before the call. The first cycle runs `CALL nnn`; at `nnn` stands `RET`.
pub proof fn lemma_call_then_return(s: CoreState, nnn: u16)
    requires
        wf_state(s),
        s.pc as int + 1 < MEMORY_SIZE,
        s.stack.len() < STACK_SIZE,
        op_class(fetch_word(s.mem, s.pc as int)) == 2,
        op_nnn(fetch_word(s.mem, s.pc as int)) == nnn,
        nnn as int + 1 < MEMORY_SIZE,
        op_class(fetch_word(s.mem, nnn as int)) == 0,
        op_x(fetch_word(s.mem, nnn as int)) == 0,
        op_y(fetch_word(s.mem, nnn as int)) == 0xe,
        op_n(fetch_word(s.mem, nnn as int)) == 0xe,
    ensures
        ({
            let (s1, r1) = step(s, 0, None, Key::Key0);
            let (s2, r2) = step(s1, 0, None, Key::Key0);
            r1 == Ok::<(), TickStop>(()) && r2 == Ok::<(), TickStop>(()) && s2.pc == s.pc + 2
                && s2.stack == s.stack
        }),
{
    let w1 = fetch_word(s.mem, s.pc as int);
    let w2 = fetch_word(s.mem, nnn as int);
    lemma_opcode_fields(w1);
    lemma_opcode_fields(w2);
    let (s1, r1) = step(s, 0, None, Key::Key0);
    assert(s1.pc == nnn && s1.stack == s.stack.push(s.pc));
    let (s2, r2) = step(s1, 0, None, Key::Key0);
    assert(s2.stack =~= s.stack);
    assert(s2.pc == s.pc + 2);
}

/// The machine: every memory-mapped subsystem, the executor of the
/// operations, and the three capabilities the host supplies (keypad, display,
/// random source).
pub struct Chip8Chipset<K: Keyboard, D: GraphicDisplay, R: RandomByteGenerator> {
    memory: Memory,
    registers: Registers,
    address_register: u16,
    program_counter: u16,
    stack: Stack,
    opcode_processor: Chip8OpCodesProcessor,
    gpu: Chip8Gpu,
    keyboard: K,
    delay_timer: u8,
    sound_timer: u8,
    display: D,
    random_byte_generator: R,
}

impl<K: Keyboard, D: GraphicDisplay, R: RandomByteGenerator> Chip8Chipset<K, D, R> {
    /// The mathematical state this machine is in.
    pub closed spec fn state(&self) -> CoreState {
        CoreState {
            mem: self.memory@,
            regs: self.registers@,
            stack: self.stack@,
            pc: self.program_counter,
            i: self.address_register,
            delay: self.delay_timer,
            sound: self.sound_timer,
            fb: self.gpu.pixels(),
        }
    }

    pub open spec fn wf(&self) -> bool {
        wf_state(self.state())
    }

    pub fn new(
        memory: Memory,
        stack: Stack,
        registers: Registers,
        opcode_processor: Chip8OpCodesProcessor,
        gpu: Chip8Gpu,
        keyboard: K,
        display: D,
        random_byte_generator: R,
    ) -> (chipset: Chip8Chipset<K, D, R>)
        requires
            memory.wf(),
            registers.wf(),
            stack@.len() == 0,
            gpu.pixels().len() == FRAME_PIXELS,
        ensures
            chipset.wf(),
            chipset.state() == (CoreState {
                mem: memory@,
                regs: registers@,
                stack: stack@,
                pc: PROGRAM_COUNTER_BOUNDARY,
                i: 0,
                delay: 0,
                sound: 0,
                fb: gpu.pixels(),
            }),
    {
        Chip8Chipset {
            memory,
            registers,
            address_register: 0,
            program_counter: PROGRAM_COUNTER_BOUNDARY,
            stack,
            opcode_processor,
            gpu,
            keyboard,
            delay_timer: 0,
            sound_timer: 0,
            display,
            random_byte_generator,
        }
    }

    /// A read-only view of memory, for the host.
    pub fn get_memory(&self) -> (memory: &Memory)
        requires
            self.wf(),
        ensures
            memory.wf(),
            memory@ == self.state().mem,
    {
        &self.memory
    }

    /// A read-only view of the registers, for the host.
    pub fn get_registers(&self) -> (registers: &Registers)
        requires
            self.wf(),
        ensures
            registers.wf(),
            registers@ == self.state().regs,
    {
        &self.registers
    }

    /// A read-only view of the framebuffer device, for the host.
    pub fn get_gpu(&self) -> (gpu: &Chip8Gpu)
        ensures
            gpu.pixels() == self.state().fb,
    {
        &self.gpu
    }

    /// The keypad capability, for the host.
    pub fn get_keyboard(&self) -> &K {
        &self.keyboard
    }

    /// The address of the next instruction to fetch.
    pub fn get_program_counter(&self) -> (pc: u16)
        ensures
            pc == self.state().pc,
    {
        self.program_counter
    }

    /// The instruction word at the program counter, big-endian, or nothing
    /// when a whole word can no longer be fetched there.
    pub fn current_opcode(&mut self) -> (opcode: Option<OpCode>)
        requires
            old(self).wf(),
        ensures
            *final(self) == *old(self),
            match opcode {
                Some(op) => old(self).state().pc as int + 1 < MEMORY_SIZE && op.spec_word()
                    == fetch_word(old(self).state().mem, old(self).state().pc as int),
                None => old(self).state().pc as int + 1 >= MEMORY_SIZE,
            },
    {
        if self.program_counter as usize + 1 >= MEMORY_SIZE {
            return None;
        }

        let data = ((self.memory.read(self.program_counter) as u16) << 8) | (self.memory.read(
            self.program_counter + 1,
        ) as u16);

        Some(OpCode::from_data(data))
    }

    /// One fetch-decode-execute cycle. The result and the state afterwards
    /// are exactly those of [`step`], for the byte the random source drew and
    /// the keys the keypad reported during this cycle.
    #[verifier::rlimit(100)]
    pub fn tick(&mut self) -> (r: Result<(), TickStop>)
        requires
            old(self).wf(),
        ensures
            final(self).wf(),
            exists|rand: u8, polled: Option<Key>, waited: Key|
                (final(self).state(), r) == step(old(self).state(), rand, polled, waited),
    {
        if self.delay_timer > 0 {
            self.delay_timer -= 1;
        }
        if self.sound_timer > 0 {
            self.sound_timer -= 1;
        }

        proof {
            assert(self.state() =~= tick_timers(old(self).state()));
        }

        let opcode = match self.current_opcode() {
            Some(opcode) => opcode,
            None => {
                proof {
                    assert((self.state(), Err::<(), TickStop>(TickStop::Halted)) == step(
                        old(self).state(),
                        0u8,
                        Option::<Key>::None,
                        Key::Key0,
                    ));
                }
                return Err(TickStop::Halted);
            },
        };

        let ghost w = opcode.spec_word();
        proof {
            lemma_opcode_fields(w);
        }

        match opcode.get_parts() {
            (0x0, 0x0, 0xe, 0x0) => {
                self.opcode_processor.clear_screen(&mut self.gpu);
                self.display.draw(self.gpu.get_memory());
                self.program_counter += INSTRUCTION_SIZE;
                proof {
                    assert(self.state() =~= step(
                        old(self).state(),
                        0u8,
                        Option::<Key>::None,
                        Key::Key0,
                    ).0);
                    assert(step(old(self).state(), 0u8, Option::<Key>::None, Key::Key0).1
                        == Ok::<(), TickStop>(()));
                }
                Ok(())
            },
            (0x0, 0x0, 0xe, 0xe) => {
                if self.stack.len() == 0 {
                    proof {
                        assert((self.state(), Err::<(), TickStop>(TickStop::StackUnderflow))
                            == step(old(self).state(), 0u8, Option::<Key>::None, Key::Key0));
                    }
                    return Err(TickStop::StackUnderflow);
                }
                self.opcode_processor.return_from_subroutine(
                    &mut self.stack,
                    &mut self.program_counter,
                );
                self.program_counter += INSTRUCTION_SIZE;
                proof {
                    assert(self.state() =~= step(
                        old(self).state(),
                        0u8,
                        Option::<Key>::None,
                        Key::Key0,
                    ).0);
                    assert(step(old(self).state(), 0u8, Option::<Key>::None, Key::Key0).1
                        == Ok::<(), TickStop>(()));
                }
                Ok(())
            },
            (0x1, _, _, _) => {
                self.opcode_processor.jump_to_address(
                    &mut self.program_counter,
                    opcode.get_address(),
                );
                proof {
                    assert(self.state() =~= step(
                        old(self).state(),
                        0u8,
                        Option::<Key>::None,
                        Key::Key0,
                    ).0);
                    assert(step(old(self).state(), 0u8, Option::<Key>::None, Key::Key0).1
                        == Ok::<(), TickStop>(()));
                }
                Ok(())
            },
            (0x2, _, _, _) => {
                if self.stack.len() >= STACK_SIZE {
                    proof {
                        assert((self.state(), Err::<(), TickStop>(TickStop::StackOverflow)) == step(
                            old(self).state(),
                            0u8,
                            Option::<Key>::None,
                            Key::Key0,
                        ));
                    }
                    return Err(TickStop::StackOverflow);
                }
                self.opcode_processor.call_subroutine(
                    &mut self.program_counter,
                    opcode.get_address(),
                    &mut self.stack,
                );
                proof {
                    assert(self.state() =~= step(
                        old(self).state(),
                        0u8,
                        Option::<Key>::None,
                        Key::Key0,
                    ).0);
                    assert(step(old(self).state(), 0u8, Option::<Key>::None, Key::Key0).1
                        == Ok::<(), TickStop>(()));
                }
                Ok(())
            },
            (0x3, _, _, _) => {
                self.opcode_processor.cond_vx_equal_nn(
                    &self.registers,
                    &mut self.program_counter,
                    opcode.get_x(),
                    opcode.get_short_address(),
                );
                self.program_counter += INSTRUCTION_SIZE;
                proof {
                    assert(self.state() =~= step(
                        old(self).state(),
                        0u8,
                        Option::<Key>::None,
                        Key::Key0,
                    ).0);
                    assert(step(old(self).state(), 0u8, Option::<Key>::None, Key::Key0).1
                        == Ok::<(), TickStop>(()));
                }
                Ok(())
            },
            (0x4, _, _, _) => {
                self.opcode_processor.cond_vx_not_equal_nn(
                    &self.registers,
                    &mut self.program_counter,
                    opcode.get_x(),
                    opcode.get_short_address(),
                );
                self.program_counter += INSTRUCTION_SIZE;
                proof {
                    assert(self.state() =~= step(
                        old(self).state(),
                        0u8,
                        Option::<Key>::None,
                        Key::Key0,
                    ).0);
                    assert(step(old(self).state(), 0u8, Option::<Key>::None, Key::Key0).1
                        == Ok::<(), TickStop>(()));
                }
                Ok(())
            },
            (0x5, _, _, 0x0) => {
                self.opcode_processor.cond_vx_equal_vy(
                    &self.registers,
                    &mut self.program_counter,
                    opcode.get_x(),
                    opcode.get_y(),
                );
                self.program_counter += INSTRUCTION_SIZE;
                proof {
                    assert(self.state() =~= step(
                        old(self).state(),
                        0u8,
                        Option::<Key>::None,
                        Key::Key0,
                    ).0);
                    assert(step(old(self).state(), 0u8, Option::<Key>::None, Key::Key0).1
                        == Ok::<(), TickStop>(()));
                }
                Ok(())
            },
            (0x6, _, _, _) => {
                self.opcode_processor.const_vx_equal_nn(
                    &mut self.registers,
                    opcode.get_x(),
                    opcode.get_short_address(),
                );
                self.program_counter += INSTRUCTION_SIZE;
                proof {
                    assert(self.state() =~= step(
                        old(self).state(),
                        0u8,
                        Option::<Key>::None,
                        Key::Key0,
                    ).0);
                    assert(step(old(self).state(), 0u8, Option::<Key>::None, Key::Key0).1
                        == Ok::<(), TickStop>(()));
                }
                Ok(())
            },
            (0x7, _, _, _) => {
                self.opcode_processor.const_vx_plus_equal_nn(
                    &mut self.registers,
                    opcode.get_x(),
                    opcode.get_short_address(),
                );
                self.program_counter += INSTRUCTION_SIZE;
                proof {
                    assert(self.state() =~= step(
                        old(self).state(),
                        0u8,
                        Option::<Key>::None,
                        Key::Key0,
                    ).0);
                    assert(step(old(self).state(), 0u8, Option::<Key>::None, Key::Key0).1
                        == Ok::<(), TickStop>(()));
                }
                Ok(())
            },
            (0x8, _, _, 0x0) => {
                self.opcode_processor.assign_vx_equal_vy(
                    &mut self.registers,
                    opcode.get_x(),
                    opcode.get_y(),
                );
                self.program_counter += INSTRUCTION_SIZE;
                proof {
                    assert(self.state() =~= step(
                        old(self).state(),
                        0u8,
                        Option::<Key>::None,
                        Key::Key0,
                    ).0);
                    assert(step(old(self).state(), 0u8, Option::<Key>::None, Key::Key0).1
                        == Ok::<(), TickStop>(()));
                }
                Ok(())
            },
            (0x8, _, _, 0x1) => {
                self.opcode_processor.bitop_vx_equal_vx_or_vy(
                    &mut self.registers,
                    opcode.get_x(),
                    opcode.get_y(),
                );
                self.program_counter += INSTRUCTION_SIZE;
                proof {
                    assert(self.state() =~= step(
                        old(self).state(),
                        0u8,
                        Option::<Key>::None,
                        Key::Key0,
                    ).0);
                    assert(step(old(self).state(), 0u8, Option::<Key>::None, Key::Key0).1
                        == Ok::<(), TickStop>(()));
                }
                Ok(())
            },
            (0x8, _, _, 0x2) => {
                self.opcode_processor.bitop_vx_equal_vx_and_vy(
                    &mut self.registers,
                    opcode.get_x(),
                    opcode.get_y(),
                );
                self.program_counter += INSTRUCTION_SIZE;
                proof {
                    assert(self.state() =~= step(
                        old(self).state(),
                        0u8,
                        Option::<Key>::None,
                        Key::Key0,
                    ).0);
                    assert(step(old(self).state(), 0u8, Option::<Key>::None, Key::Key0).1
                        == Ok::<(), TickStop>(()));
                }
                Ok(())
            },
            (0x8, _, _, 0x3) => {
                self.opcode_processor.bitop_vx_equal_vx_xor_vy(
                    &mut self.registers,
                    opcode.get_x(),
                    opcode.get_y(),
                );
                self.program_counter += INSTRUCTION_SIZE;
                proof {
                    assert(self.state() =~= step(
                        old(self).state(),
                        0u8,
                        Option::<Key>::None,
                        Key::Key0,
                    ).0);
                    assert(step(old(self).state(), 0u8, Option::<Key>::None, Key::Key0).1
                        == Ok::<(), TickStop>(()));
                }
                Ok(())
            },
            (0x8, _, _, 0x4) => {
                self.opcode_processor.math_vx_equal_vx_plus_vy(
                    &mut self.registers,
                    opcode.get_x(),
                    opcode.get_y(),
                );
                self.program_counter += INSTRUCTION_SIZE;
                proof {
                    assert(self.state() =~= step(
                        old(self).state(),
                        0u8,
                        Option::<Key>::None,
                        Key::Key0,
                    ).0);
                    assert(step(old(self).state(), 0u8, Option::<Key>::None, Key::Key0).1
                        == Ok::<(), TickStop>(()));
                }
                Ok(())
            },
            (0x8, _, _, 0x5) => {
                self.opcode_processor.math_vx_equal_vx_minus_vy(
                    &mut self.registers,
                    opcode.get_x(),
                    opcode.get_y(),
                );
                self.program_counter += INSTRUCTION_SIZE;
                proof {
                    assert(self.state() =~= step(
                        old(self).state(),
                        0u8,
                        Option::<Key>::None,
                        Key::Key0,
                    ).0);
                    assert(step(old(self).state(), 0u8, Option::<Key>::None, Key::Key0).1
                        == Ok::<(), TickStop>(()));
                }
                Ok(())
            },
            (0x8, _, _, 0x6) => {
                self.opcode_processor.bitop_vx_equal_vx_shr(&mut self.registers, opcode.get_x());
                self.program_counter += INSTRUCTION_SIZE;
                proof {
                    assert(self.state() =~= step(
                        old(self).state(),
                        0u8,
                        Option::<Key>::None,
                        Key::Key0,
                    ).0);
                    assert(step(old(self).state(), 0u8, Option::<Key>::None, Key::Key0).1
                        == Ok::<(), TickStop>(()));
                }
                Ok(())
            },
            (0x8, _, _, 0x7) => {
                self.opcode_processor.math_vx_equal_vy_minus_vx(
                    &mut self.registers,
                    opcode.get_x(),
                    opcode.get_y(),
                );
                self.program_counter += INSTRUCTION_SIZE;
                proof {
                    assert(self.state() =~= step(
                        old(self).state(),
                        0u8,
                        Option::<Key>::None,
                        Key::Key0,
                    ).0);
                    assert(step(old(self).state(), 0u8, Option::<Key>::None, Key::Key0).1
                        == Ok::<(), TickStop>(()));
                }
                Ok(())
            },
            (0x8, _, _, 0xe) => {
                self.opcode_processor.bitop_vx_equal_vx_shl(&mut self.registers, opcode.get_x());
                self.program_counter += INSTRUCTION_SIZE;
                proof {
                    assert(self.state() =~= step(
                        old(self).state(),
                        0u8,
                        Option::<Key>::None,
                        Key::Key0,
                    ).0);
                    assert(step(old(self).state(), 0u8, Option::<Key>::None, Key::Key0).1
                        == Ok::<(), TickStop>(()));
                }
                Ok(())
            },
            (0x9, _, _, 0x0) => {
                self.opcode_processor.cond_vx_not_equal_vy(
                    &self.registers,
                    &mut self.program_counter,
                    opcode.get_x(),
                    opcode.get_y(),
                );
                self.program_counter += INSTRUCTION_SIZE;
                proof {
                    assert(self.state() =~= step(
                        old(self).state(),
                        0u8,
                        Option::<Key>::None,
                        Key::Key0,
                    ).0);
                    assert(step(old(self).state(), 0u8, Option::<Key>::None, Key::Key0).1
                        == Ok::<(), TickStop>(()));
                }
                Ok(())
            },
            (0xa, _, _, _) => {
                self.opcode_processor.mem_i_equal_nnn(
                    &mut self.address_register,
                    opcode.get_address(),
                );
                self.program_counter += INSTRUCTION_SIZE;
                proof {
                    assert(self.state() =~= step(
                        old(self).state(),
                        0u8,
                        Option::<Key>::None,
                        Key::Key0,
                    ).0);
                    assert(step(old(self).state(), 0u8, Option::<Key>::None, Key::Key0).1
                        == Ok::<(), TickStop>(()));
                }
                Ok(())
            },
            (0xb, _, _, _) => {
                self.opcode_processor.flow_pc_equal_v0_plus_nnn(
                    &mut self.program_counter,
                    opcode.get_address(),
                    &self.registers,
                );
                proof {
                    assert(self.state() =~= step(
                        old(self).state(),
                        0u8,
                        Option::<Key>::None,
                        Key::Key0,
                    ).0);
                    assert(step(old(self).state(), 0u8, Option::<Key>::None, Key::Key0).1
                        == Ok::<(), TickStop>(()));
                }
                Ok(())
            },
            (0xc, _, _, _) => {
                self.opcode_processor.rand_vx_equal_rand_and_nn(
                    &self.random_byte_generator,
                    &mut self.registers,
                    opcode.get_x(),
                    opcode.get_short_address(),
                );
                self.program_counter += INSTRUCTION_SIZE;
                proof {
                    let rand = choose|rand: u8|
                        self.registers@ == #[trigger] old(self).state().regs.update(
                            op_x(w) as int,
                            rand & (op_nn(w) as u8),
                        );
                    assert(self.state() =~= step(
                        old(self).state(),
                        rand,
                        Option::<Key>::None,
                        Key::Key0,
                    ).0);
                    assert(step(old(self).state(), rand, Option::<Key>::None, Key::Key0).1
                        == Ok::<(), TickStop>(()));
                }
                Ok(())
            },
            (0xd, _, _, _) => {
                let n = opcode.get_n();
                if self.address_register as usize + n as usize > MEMORY_SIZE {
                    proof {
                        assert((self.state(), Err::<(), TickStop>(TickStop::OutOfBoundsMemory))
                            == step(old(self).state(), 0u8, Option::<Key>::None, Key::Key0));
                    }
                    return Err(TickStop::OutOfBoundsMemory);
                }
                self.opcode_processor.draw_vx_vy_n(
                    opcode.get_x(),
                    opcode.get_y(),
                    n,
                    &mut self.gpu,
                    &self.memory,
                    self.address_register,
                    &mut self.registers,
                );
                self.display.draw(self.gpu.get_memory());
                self.program_counter += INSTRUCTION_SIZE;
                proof {
                    assert(self.state() =~= step(
                        old(self).state(),
                        0u8,
                        Option::<Key>::None,
                        Key::Key0,
                    ).0);
                    assert(step(old(self).state(), 0u8, Option::<Key>::None, Key::Key0).1
                        == Ok::<(), TickStop>(()));
                }
                Ok(())
            },
            (0xe, _, 0x9, 0xe) => {
                self.opcode_processor.keyop_if_key_equal_vx(
                    &mut self.keyboard,
                    &self.registers,
                    &mut self.program_counter,
                    opcode.get_x(),
                );
                self.program_counter += INSTRUCTION_SIZE;
                proof {
                    let polled = choose|polled: Option<Key>|
                        self.program_counter == skp_pc(
                            old(self).state().regs[op_x(w) as int],
                            old(self).state().pc,
                            polled,
                        ) + 2;
                    assert(self.state() =~= step(old(self).state(), 0u8, polled, Key::Key0).0);
                    assert(step(old(self).state(), 0u8, polled, Key::Key0).1 == Ok::<
                        (),
                        TickStop,
                    >(()));
                }
                Ok(())
            },
            (0xe, _, 0xa, 0x1) => {
                self.opcode_processor.keyop_if_key_not_equal_vx(
                    &mut self.keyboard,
                    &self.registers,
                    &mut self.program_counter,
                    opcode.get_x(),
                );
                self.program_counter += INSTRUCTION_SIZE;
                proof {
                    let polled = choose|polled: Option<Key>|
                        self.program_counter == sknp_pc(
                            old(self).state().regs[op_x(w) as int],
                            old(self).state().pc,
                            polled,
                        ) + 2;
                    assert(self.state() =~= step(old(self).state(), 0u8, polled, Key::Key0).0);
                    assert(step(old(self).state(), 0u8, polled, Key::Key0).1 == Ok::<
                        (),
                        TickStop,
                    >(()));
                }
                Ok(())
            },
            (0xf, _, 0x0, 0x7) => {
                self.opcode_processor.timer_vx_equal_get_delay(
                    self.delay_timer,
                    &mut self.registers,
                    opcode.get_x(),
                );
                self.program_counter += INSTRUCTION_SIZE;
                proof {
                    assert(self.state() =~= step(
                        old(self).state(),
                        0u8,
                        Option::<Key>::None,
                        Key::Key0,
                    ).0);
                    assert(step(old(self).state(), 0u8, Option::<Key>::None, Key::Key0).1
                        == Ok::<(), TickStop>(()));
                }
                Ok(())
            },
            (0xf, _, 0x0, 0xa) => {
                self.opcode_processor.keyop_vx_equal_key(
                    &mut self.keyboard,
                    &mut self.registers,
                    opcode.get_x(),
                    &mut self.program_counter,
                );
                self.program_counter += INSTRUCTION_SIZE;
                proof {
                    let waited = choose|waited: Key|
                        self.registers@ == key_wait_regs(
                            old(self).state().regs,
                            op_x(w) as int,
                            waited,
                        ) && self.program_counter == key_wait_pc(old(self).state().pc, waited) + 2;
                    assert(self.state() =~= step(
                        old(self).state(),
                        0u8,
                        Option::<Key>::None,
                        waited,
                    ).0);
                    assert(step(old(self).state(), 0u8, Option::<Key>::None, waited).1 == Ok::<
                        (),
                        TickStop,
                    >(()));
                }
                Ok(())
            },
            (0xf, _, 0x1, 0x5) => {
                self.opcode_processor.timer_delay_timer_equal_vx(
                    &mut self.delay_timer,
                    &self.registers,
                    opcode.get_x(),
                );
                self.program_counter += INSTRUCTION_SIZE;
                proof {
                    assert(self.state() =~= step(
                        old(self).state(),
                        0u8,
                        Option::<Key>::None,
                        Key::Key0,
                    ).0);
                    assert(step(old(self).state(), 0u8, Option::<Key>::None, Key::Key0).1
                        == Ok::<(), TickStop>(()));
                }
                Ok(())
            },
            (0xf, _, 0x1, 0x8) => {
                self.opcode_processor.sound_sound_timer_equal_vx(
                    &mut self.sound_timer,
                    &self.registers,
                    opcode.get_x(),
                );
                self.program_counter += INSTRUCTION_SIZE;
                proof {
                    assert(self.state() =~= step(
                        old(self).state(),
                        0u8,
                        Option::<Key>::None,
                        Key::Key0,
                    ).0);
                    assert(step(old(self).state(), 0u8, Option::<Key>::None, Key::Key0).1
                        == Ok::<(), TickStop>(()));
                }
                Ok(())
            },
            (0xf, _, 0x1, 0xe) => {
                self.opcode_processor.mem_i_equal_i_plus_vx(
                    &mut self.registers,
                    &mut self.address_register,
                    opcode.get_x(),
                );
                self.program_counter += INSTRUCTION_SIZE;
                proof {
                    assert(self.state() =~= step(
                        old(self).state(),
                        0u8,
                        Option::<Key>::None,
                        Key::Key0,
                    ).0);
                    assert(step(old(self).state(), 0u8, Option::<Key>::None, Key::Key0).1
                        == Ok::<(), TickStop>(()));
                }
                Ok(())
            },
            (0xf, _, 0x2, 0x9) => {
                if self.registers.get_register_at(opcode.get_x() as usize) > 0xf {
                    let value = self.registers.get_register_at(opcode.get_x() as usize);
                    proof {
                        assert((
                            self.state(),
                            Err::<(), TickStop>(TickStop::FontIndexOutOfRange(value)),
                        ) == step(old(self).state(), 0u8, Option::<Key>::None, Key::Key0));
                    }
                    return Err(TickStop::FontIndexOutOfRange(value));
                }
                self.opcode_processor.mem_i_equal_sprite_addr_vx(
                    &self.registers,
                    &mut self.address_register,
                    opcode.get_x(),
                );
                self.program_counter += INSTRUCTION_SIZE;
                proof {
                    assert(self.state() =~= step(
                        old(self).state(),
                        0u8,
                        Option::<Key>::None,
                        Key::Key0,
                    ).0);
                    assert(step(old(self).state(), 0u8, Option::<Key>::None, Key::Key0).1
                        == Ok::<(), TickStop>(()));
                }
                Ok(())
            },
            (0xf, _, 0x3, 0x3) => {
                if self.address_register as usize + 3 > MEMORY_SIZE {
                    proof {
                        assert((self.state(), Err::<(), TickStop>(TickStop::OutOfBoundsMemory))
                            == step(old(self).state(), 0u8, Option::<Key>::None, Key::Key0));
                    }
                    return Err(TickStop::OutOfBoundsMemory);
                }
                self.opcode_processor.mem_bcd(
                    &self.registers,
                    self.address_register,
                    &mut self.memory,
                    opcode.get_x(),
                );
                self.program_counter += INSTRUCTION_SIZE;
                proof {
                    assert(self.state() =~= step(
                        old(self).state(),
                        0u8,
                        Option::<Key>::None,
                        Key::Key0,
                    ).0);
                    assert(step(old(self).state(), 0u8, Option::<Key>::None, Key::Key0).1
                        == Ok::<(), TickStop>(()));
                }
                Ok(())
            },
            (0xf, _, 0x5, 0x5) => {
                if self.address_register as usize + opcode.get_x() as usize >= MEMORY_SIZE {
                    proof {
                        assert((self.state(), Err::<(), TickStop>(TickStop::OutOfBoundsMemory))
                            == step(old(self).state(), 0u8, Option::<Key>::None, Key::Key0));
                    }
                    return Err(TickStop::OutOfBoundsMemory);
                }
                self.opcode_processor.mem_reg_dump(
                    &self.registers,
                    &mut self.memory,
                    self.address_register,
                    opcode.get_x(),
                );
                self.program_counter += INSTRUCTION_SIZE;
                proof {
                    assert(self.memory@ =~= step(
                        old(self).state(),
                        0u8,
                        Option::<Key>::None,
                        Key::Key0,
                    ).0.mem);
                    assert(self.state() =~= step(
                        old(self).state(),
                        0u8,
                        Option::<Key>::None,
                        Key::Key0,
                    ).0);
                    assert(step(old(self).state(), 0u8, Option::<Key>::None, Key::Key0).1
                        == Ok::<(), TickStop>(()));
                }
                Ok(())
            },
            (0xf, _, 0x6, 0x5) => {
                if self.address_register as usize + opcode.get_x() as usize >= MEMORY_SIZE {
                    proof {
                        assert((self.state(), Err::<(), TickStop>(TickStop::OutOfBoundsMemory))
                            == step(old(self).state(), 0u8, Option::<Key>::None, Key::Key0));
                    }
                    return Err(TickStop::OutOfBoundsMemory);
                }
                self.opcode_processor.mem_reg_load(
                    &mut self.registers,
                    &self.memory,
                    self.address_register,
                    opcode.get_x(),
                );
                self.program_counter += INSTRUCTION_SIZE;
                proof {
                    assert(self.registers@ =~= step(
                        old(self).state(),
                        0u8,
                        Option::<Key>::None,
                        Key::Key0,
                    ).0.regs);
                    assert(self.state() =~= step(
                        old(self).state(),
                        0u8,
                        Option::<Key>::None,
                        Key::Key0,
                    ).0);
                    assert(step(old(self).state(), 0u8, Option::<Key>::None, Key::Key0).1
                        == Ok::<(), TickStop>(()));
                }
                Ok(())
            },
            (0x0, 0x0, 0x0, 0x0) => {
                proof {
                    assert((self.state(), Err::<(), TickStop>(TickStop::Halted)) == step(
                        old(self).state(),
                        0u8,
                        Option::<Key>::None,
                        Key::Key0,
                    ));
                }
                Err(TickStop::Halted)
            },
            _ => {
                let data = opcode.get_data();
                proof {
                    assert((self.state(), Err::<(), TickStop>(TickStop::UnknownOpcode(data)))
                        == step(old(self).state(), 0u8, Option::<Key>::None, Key::Key0));
                }
                Err(TickStop::UnknownOpcode(data))
            },
        }
    }
}

impl<K: Keyboard, D: GraphicDisplay, R: RandomByteGenerator> Chipset for Chip8Chipset<K, D, R> {
    closed spec fn chipset_state(&self) -> CoreState {
        self.state()
    }

    fn get_memory(&self) -> (memory: &Memory) {
        Chip8Chipset::<K, D, R>::get_memory(self)
    }

    fn tick(&mut self) -> (r: Result<(), TickStop>) {
        Chip8Chipset::<K, D, R>::tick(self)
    }

    fn current_opcode(&mut self) -> (opcode: Option<OpCode>) {
        Chip8Chipset::<K, D, R>::current_opcode(self)
    }
}

} // verus!
