//! Instruction words and the semantics of every operation. [`OpCode`] splits
//! a 16-bit word into its addressing fields; [`Chip8OpCodesProcessor`] carries
//! one method per operation, each with a contract that pins down its exact
//! effect on the machine state it touches.
use crate::chipset::{RandomByteGenerator, ESCAPE_SENTINEL, INSTRUCTION_SIZE};
use crate::gpu::{draw_collides, draw_fb, Gpu, FRAME_PIXELS};
use crate::keyboard::{Key, Keyboard};
use crate::memory::{Memory, Registers, Stack, MEMORY_SIZE, REGISTERS_COUNT, STACK_SIZE};
use vstd::arithmetic::div_mod::lemma_fundamental_div_mod;
use vstd::prelude::*;

verus! {

/// Operation class: the top nibble of an instruction word.
pub open spec fn op_class(w: u16) -> u16 {
    (w & 0xf000) >> 12
}

/// The `x` register field: bits 8 to 11.
pub open spec fn op_x(w: u16) -> u16 {
    (w & 0x0f00) >> 8
}

/// The `y` register field: bits 4 to 7.
pub open spec fn op_y(w: u16) -> u16 {
    (w & 0x00f0) >> 4
}

/// The low nibble.
pub open spec fn op_n(w: u16) -> u16 {
    w & 0x000f
}

/// The low byte.
pub open spec fn op_nn(w: u16) -> u16 {
    w & 0x00ff
}

/// The low twelve bits: an address.
pub open spec fn op_nnn(w: u16) -> u16 {
    w & 0x0fff
}

/// Every addressing field fits its width.
pub proof fn lemma_opcode_fields(w: u16)
    by (bit_vector)
    ensures
        (w & 0xf000) >> 12 < 16,
        (w & 0x0f00) >> 8 < 16,
        (w & 0x00f0) >> 4 < 16,
        w & 0x000f < 16,
        w & 0x00ff < 256,
        w & 0x0fff < 4096,
{
}

/// One 16-bit instruction word. The addressing fields are pure bit masks and
/// shifts of the word and are extracted on demand.
#[derive(Debug, PartialEq, Eq, Structural, Copy, Clone)]
pub struct OpCode {
    opcode: u16,
}

impl OpCode {
    /// The raw instruction word.
    pub closed spec fn spec_word(&self) -> u16 {
        self.opcode
    }

    pub fn from_data(data: u16) -> (opcode: OpCode)
        ensures
            opcode.spec_word() == data,
    {
        OpCode { opcode: data }
    }

    /// The raw instruction word, as fetched.
    pub fn get_data(&self) -> (data: u16)
        ensures
            data == self.spec_word(),
    {
        self.opcode
    }

    /// The dispatch selector: operation class and the three low nibbles.
    pub fn get_parts(&self) -> (parts: (u8, u8, u8, u8))
        ensures
            parts.0 == op_class(self.spec_word()),
            parts.1 == op_x(self.spec_word()),
            parts.2 == op_y(self.spec_word()),
            parts.3 == op_n(self.spec_word()),
    {
        proof {
            lemma_opcode_fields(self.opcode);
        }
        (
            ((self.opcode & 0xf000) >> 12) as u8,
            ((self.opcode & 0x0f00) >> 8) as u8,
            ((self.opcode & 0x00f0) >> 4) as u8,
            (self.opcode & 0x000f) as u8,
        )
    }

    pub fn get_address(&self) -> (nnn: u16)
        ensures
            nnn == op_nnn(self.spec_word()),
    {
        self.opcode & 0x0fff
    }

    pub fn get_x(&self) -> (x: u8)
        ensures
            x == op_x(self.spec_word()),
    {
        proof {
            lemma_opcode_fields(self.opcode);
        }
        ((self.opcode & 0x0f00) >> 8) as u8
    }

    pub fn get_y(&self) -> (y: u8)
        ensures
            y == op_y(self.spec_word()),
    {
        proof {
            lemma_opcode_fields(self.opcode);
        }
        ((self.opcode & 0x00f0) >> 4) as u8
    }

    pub fn get_short_address(&self) -> (nn: u8)
        ensures
            nn == op_nn(self.spec_word()),
    {
        proof {
            lemma_opcode_fields(self.opcode);
        }
        (self.opcode & 0x00ff) as u8
    }

    pub fn get_n(&self) -> (n: u8)
        ensures
            n == op_n(self.spec_word()),
    {
        proof {
            lemma_opcode_fields(self.opcode);
        }
        (self.opcode & 0x000f) as u8
    }
}

/// Program counter after polling the keypad for the skip-if-pressed
/// operation: skip when the polled key equals `vx`, halt through the escape
/// sentinel when the user asks to quit, fall through otherwise.
pub open spec fn skp_pc(vx: u8, pc: u16, polled: Option<Key>) -> u16 {
    match polled {
        Option::None => pc,
        Option::Some(key) => if key == Key::KeyESC {
            ESCAPE_SENTINEL
        } else if vx == key.spec_value() {
            (pc + INSTRUCTION_SIZE) as u16
        } else {
            pc
        },
    }
}

/// Program counter after polling the keypad for the skip-if-not-pressed
/// operation: skip when nothing is pressed or a different key is, halt
/// through the escape sentinel on quit.
pub open spec fn sknp_pc(vx: u8, pc: u16, polled: Option<Key>) -> u16 {
    match polled {
        Option::None => (pc + INSTRUCTION_SIZE) as u16,
        Option::Some(key) => if key == Key::KeyESC {
            ESCAPE_SENTINEL
        } else if vx != key.spec_value() {
            (pc + INSTRUCTION_SIZE) as u16
        } else {
            pc
        },
    }
}

/// Registers after the blocking key wait: the waited-for key lands in `V[x]`,
/// unless the user asked to quit, which leaves the registers alone.
pub open spec fn key_wait_regs(regs: Seq<u8>, x: int, key: Key) -> Seq<u8> {
    if key == Key::KeyESC {
        regs
    } else {
        regs.update(x, key.spec_value())
    }
}

/// Program counter after the blocking key wait: unchanged, unless the user
/// asked to quit, which routes it to the escape sentinel.
pub open spec fn key_wait_pc(pc: u16, key: Key) -> u16 {
    if key == Key::KeyESC {
        ESCAPE_SENTINEL
    } else {
        pc
    }
}

/// The executor of the individual operations.
pub struct Chip8OpCodesProcessor {}

impl Chip8OpCodesProcessor {
    pub fn new() -> Chip8OpCodesProcessor {
        Chip8OpCodesProcessor {  }
    }

    /// 00E0: clear the framebuffer.
    pub fn clear_screen<G: Gpu>(&self, display: &mut G)
        requires
            old(display).pixels().len() == FRAME_PIXELS,
        ensures
            final(display).pixels().len() == FRAME_PIXELS,
            forall|i: int| 0 <= i < FRAME_PIXELS ==> final(display).pixels()[i] == 0u8,
    {
        display.clear();
    }

    /// 00EE: return from a subroutine. The program counter becomes the
    /// address on top of the stack, which is popped.
    pub fn return_from_subroutine(&self, stack: &mut Stack, program_counter: &mut u16)
        requires
            old(stack).wf(),
            old(stack)@.len() > 0,
        ensures
            final(stack).wf(),
            final(stack)@ == old(stack)@.drop_last(),
            *final(program_counter) == old(stack)@.last(),
    {
        *program_counter = stack.pop();
    }

    /// 1nnn: jump.
    pub fn jump_to_address(&self, program_counter: &mut u16, address: u16)
        ensures
            *final(program_counter) == address,
    {
        *program_counter = address;
    }

    /// 2nnn: call a subroutine. The address of the call instruction itself is
    /// pushed; the return operation adds the instruction size on top.
    pub fn call_subroutine(&self, program_counter: &mut u16, address: u16, stack: &mut Stack)
        requires
            old(stack)@.len() < STACK_SIZE,
        ensures
            final(stack).wf(),
            final(stack)@ == old(stack)@.push(*old(program_counter)),
            *final(program_counter) == address,
    {
        stack.push(*program_counter);
        *program_counter = address;
    }

    /// 3xnn: skip the next instruction when `V[x] == nn`.
    pub fn cond_vx_equal_nn(&self, registers: &Registers, program_counter: &mut u16, x: u8, nn: u8)
        requires
            registers.wf(),
            x < REGISTERS_COUNT,
            *old(program_counter) + INSTRUCTION_SIZE <= 0xffff,
        ensures
            *final(program_counter) == if registers@[x as int] == nn {
                (*old(program_counter) + INSTRUCTION_SIZE) as u16
            } else {
                *old(program_counter)
            },
    {
        if registers.get_register_at(x as usize) == nn {
            *program_counter += INSTRUCTION_SIZE;
        }
    }

    /// 4xnn: skip the next instruction when `V[x] != nn`.
    pub fn cond_vx_not_equal_nn(
        &self,
        registers: &Registers,
        program_counter: &mut u16,
        x: u8,
        nn: u8,
    )
        requires
            registers.wf(),
            x < REGISTERS_COUNT,
            *old(program_counter) + INSTRUCTION_SIZE <= 0xffff,
        ensures
            *final(program_counter) == if registers@[x as int] != nn {
                (*old(program_counter) + INSTRUCTION_SIZE) as u16
            } else {
                *old(program_counter)
            },
    {
        if registers.get_register_at(x as usize) != nn {
            *program_counter += INSTRUCTION_SIZE;
        }
    }

    /// 5xy0: skip the next instruction when `V[x] == V[y]`.
    pub fn cond_vx_equal_vy(&self, registers: &Registers, program_counter: &mut u16, x: u8, y: u8)
        requires
            registers.wf(),
            x < REGISTERS_COUNT,
            y < REGISTERS_COUNT,
            *old(program_counter) + INSTRUCTION_SIZE <= 0xffff,
        ensures
            *final(program_counter) == if registers@[x as int] == registers@[y as int] {
                (*old(program_counter) + INSTRUCTION_SIZE) as u16
            } else {
                *old(program_counter)
            },
    {
        if registers.get_register_at(x as usize) == registers.get_register_at(y as usize) {
            *program_counter += INSTRUCTION_SIZE;
        }
    }

    /// 6xnn: load the immediate `nn` into `V[x]`.
    pub fn const_vx_equal_nn(&self, registers: &mut Registers, x: u8, nn: u8)
        requires
            old(registers).wf(),
            x < REGISTERS_COUNT,
        ensures
            final(registers).wf(),
            final(registers)@ == old(registers)@.update(x as int, nn),
    {
        registers.set_register_at(x as usize, nn);
    }

    /// 7xnn: add the immediate `nn` to `V[x]`, wrapping modulo 256 and
    /// leaving the flags register alone.
    pub fn const_vx_plus_equal_nn(&self, registers: &mut Registers, x: u8, nn: u8)
        requires
            old(registers).wf(),
            x < REGISTERS_COUNT,
        ensures
            final(registers).wf(),
            final(registers)@ == old(registers)@.update(
                x as int,
                ((old(registers)@[x as int] + nn) % 256) as u8,
            ),
    {
        let old_x = registers.get_register_at(x as usize);
        registers.set_register_at(x as usize, old_x.wrapping_add(nn));
    }

    /// 8xy0: copy `V[y]` into `V[x]`.
    pub fn assign_vx_equal_vy(&self, registers: &mut Registers, x: u8, y: u8)
        requires
            old(registers).wf(),
            x < REGISTERS_COUNT,
            y < REGISTERS_COUNT,
        ensures
            final(registers).wf(),
            final(registers)@ == old(registers)@.update(x as int, old(registers)@[y as int]),
    {
        let vy = registers.get_register_at(y as usize);
        registers.set_register_at(x as usize, vy);
    }

    /// 8xy1: bitwise or of `V[x]` and `V[y]` into `V[x]`.
    pub fn bitop_vx_equal_vx_or_vy(&self, registers: &mut Registers, x: u8, y: u8)
        requires
            old(registers).wf(),
            x < REGISTERS_COUNT,
            y < REGISTERS_COUNT,
        ensures
            final(registers).wf(),
            final(registers)@ == old(registers)@.update(
                x as int,
                old(registers)@[x as int] | old(registers)@[y as int],
            ),
    {
        let vx = registers.get_register_at(x as usize);
        let vy = registers.get_register_at(y as usize);
        registers.set_register_at(x as usize, vx | vy);
    }

    /// 8xy2: bitwise and of `V[x]` and `V[y]` into `V[x]`.
    pub fn bitop_vx_equal_vx_and_vy(&self, registers: &mut Registers, x: u8, y: u8)
        requires
            old(registers).wf(),
            x < REGISTERS_COUNT,
            y < REGISTERS_COUNT,
        ensures
            final(registers).wf(),
            final(registers)@ == old(registers)@.update(
                x as int,
                old(registers)@[x as int] & old(registers)@[y as int],
            ),
    {
        let vx = registers.get_register_at(x as usize);
        let vy = registers.get_register_at(y as usize);
        registers.set_register_at(x as usize, vx & vy);
    }

    /// 8xy3: bitwise exclusive or of `V[x]` and `V[y]` into `V[x]`.
    pub fn bitop_vx_equal_vx_xor_vy(&self, registers: &mut Registers, x: u8, y: u8)
        requires
            old(registers).wf(),
            x < REGISTERS_COUNT,
            y < REGISTERS_COUNT,
        ensures
            final(registers).wf(),
            final(registers)@ == old(registers)@.update(
                x as int,
                old(registers)@[x as int] ^ old(registers)@[y as int],
            ),
    {
        let vx = registers.get_register_at(x as usize);
        let vy = registers.get_register_at(y as usize);
        registers.set_register_at(x as usize, vx ^ vy);
    }

    /// 8xy4: add `V[y]` to `V[x]`. `V[x]` takes the sum modulo 256, and the
    /// flags register takes 1 exactly when the sum exceeds 255.
    pub fn math_vx_equal_vx_plus_vy(&self, registers: &mut Registers, x: u8, y: u8)
        requires
            old(registers).wf(),
            x < REGISTERS_COUNT,
            y < REGISTERS_COUNT,
        ensures
            final(registers).wf(),
            final(registers)@ == old(registers)@.update(
                x as int,
                ((old(registers)@[x as int] + old(registers)@[y as int]) % 256) as u8,
            ).update(
                0xf,
                if old(registers)@[x as int] + old(registers)@[y as int] > 0xff {
                    1u8
                } else {
                    0u8
                },
            ),
    {
        let vx = registers.get_register_at(x as usize);
        let vy = registers.get_register_at(y as usize);

        registers.set_register_at(x as usize, vx.wrapping_add(vy));

        if (vx as u16) + (vy as u16) > 0xff {
            registers.set_register_at(0xf, 0x1);
        } else {
            registers.set_register_at(0xf, 0x0);
        }
    }

    /// 8xy5: subtract `V[y]` from `V[x]`, wrapping modulo 256. The flags
    /// register takes 1 exactly when `V[x] > V[y]` (no borrow).
    pub fn math_vx_equal_vx_minus_vy(&self, registers: &mut Registers, x: u8, y: u8)
        requires
            old(registers).wf(),
            x < REGISTERS_COUNT,
            y < REGISTERS_COUNT,
        ensures
            final(registers).wf(),
            final(registers)@ == old(registers)@.update(
                x as int,
                ((old(registers)@[x as int] - old(registers)@[y as int]) % 256) as u8,
            ).update(
                0xf,
                if old(registers)@[x as int] > old(registers)@[y as int] {
                    1u8
                } else {
                    0u8
                },
            ),
    {
        let vx = registers.get_register_at(x as usize);
        let vy = registers.get_register_at(y as usize);

        registers.set_register_at(x as usize, vx.wrapping_sub(vy));

        if vx > vy {
            registers.set_register_at(0xf, 0x1);
        } else {
            registers.set_register_at(0xf, 0x0);
        }
    }

    /// 8xy6: shift `V[x]` right by one. The flags register takes the bit
    /// shifted out. This follows the reading in which the shift operations
    /// read and write `V[x]` alone and `V[y]` plays no part.
    pub fn bitop_vx_equal_vx_shr(&self, registers: &mut Registers, x: u8)
        requires
            old(registers).wf(),
            x < REGISTERS_COUNT,
        ensures
            final(registers).wf(),
            final(registers)@ == old(registers)@.update(
                0xf,
                old(registers)@[x as int] & 1,
            ).update(x as int, old(registers)@[x as int] >> 1u8),
    {
        let vx = registers.get_register_at(x as usize);
        registers.set_register_at(0xf, vx & 1);
        registers.set_register_at(x as usize, vx >> 1);
    }

    /// 8xy7: store `V[y] - V[x]` into `V[x]`, wrapping modulo 256. The flags
    /// register takes 1 exactly when `V[y] > V[x]`.
    pub fn math_vx_equal_vy_minus_vx(&self, registers: &mut Registers, x: u8, y: u8)
        requires
            old(registers).wf(),
            x < REGISTERS_COUNT,
            y < REGISTERS_COUNT,
        ensures
            final(registers).wf(),
            final(registers)@ == old(registers)@.update(
                x as int,
                ((old(registers)@[y as int] - old(registers)@[x as int]) % 256) as u8,
            ).update(
                0xf,
                if old(registers)@[y as int] > old(registers)@[x as int] {
                    1u8
                } else {
                    0u8
                },
            ),
    {
        let vx = registers.get_register_at(x as usize);
        let vy = registers.get_register_at(y as usize);

        registers.set_register_at(x as usize, vy.wrapping_sub(vx));

        if vy > vx {
            registers.set_register_at(0xf, 0x1);
        } else {
            registers.set_register_at(0xf, 0x0);
        }
    }

    /// 8xyE: shift `V[x]` left by one, wrapping. The flags register takes the
    /// bit shifted out. As with the right shift, `V[y]` plays no part.
    pub fn bitop_vx_equal_vx_shl(&self, registers: &mut Registers, x: u8)
        requires
            old(registers).wf(),
            x < REGISTERS_COUNT,
        ensures
            final(registers).wf(),
            final(registers)@ == old(registers)@.update(
                0xf,
                if old(registers)@[x as int] & 0x80 == 0x80 {
                    1u8
                } else {
                    0u8
                },
            ).update(x as int, old(registers)@[x as int] << 1u8),
    {
        let vx = registers.get_register_at(x as usize);

        if vx & 0x80 == 0x80 {
            registers.set_register_at(0xf, 0x1);
        } else {
            registers.set_register_at(0xf, 0x0);
        }

        registers.set_register_at(x as usize, vx << 1);
    }

    /// 9xy0: skip the next instruction when `V[x] != V[y]`.
    pub fn cond_vx_not_equal_vy(
        &self,
        registers: &Registers,
        program_counter: &mut u16,
        x: u8,
        y: u8,
    )
        requires
            registers.wf(),
            x < REGISTERS_COUNT,
            y < REGISTERS_COUNT,
            *old(program_counter) + INSTRUCTION_SIZE <= 0xffff,
        ensures
            *final(program_counter) == if registers@[x as int] != registers@[y as int] {
                (*old(program_counter) + INSTRUCTION_SIZE) as u16
            } else {
                *old(program_counter)
            },
    {
        if registers.get_register_at(x as usize) != registers.get_register_at(y as usize) {
            *program_counter += INSTRUCTION_SIZE;
        }
    }

    /// Annn: load the address `nnn` into the address register.
    pub fn mem_i_equal_nnn(&self, address_register: &mut u16, nnn: u16)
        ensures
            *final(address_register) == nnn,
    {
        *address_register = nnn;
    }

    /// Bnnn: jump to `nnn + V[0]`.
    pub fn flow_pc_equal_v0_plus_nnn(
        &self,
        program_counter: &mut u16,
        nnn: u16,
        registers: &Registers,
    )
        requires
            registers.wf(),
            nnn + registers@[0] <= 0xffff,
        ensures
            *final(program_counter) == nnn + registers@[0],
    {
        *program_counter = nnn + (registers.get_register_at(0) as u16);
    }

    /// Cxnn: load a random byte masked by `nn` into `V[x]`. The byte comes
    /// from the generator, so only its existence is promised.
    pub fn rand_vx_equal_rand_and_nn<R: RandomByteGenerator>(
        &self,
        generator: &R,
        registers: &mut Registers,
        x: u8,
        nn: u8,
    )
        requires
            old(registers).wf(),
            x < REGISTERS_COUNT,
        ensures
            final(registers).wf(),
            exists|r: u8|
                final(registers)@ == #[trigger] old(registers)@.update(x as int, r & nn),
    {
        let r = generator.generate();
        registers.set_register_at(x as usize, r & nn);
    }

    /// Dxyn: draw an `n`-row sprite from memory at the address register, at
    /// the position held in `V[x]` and `V[y]`. The flags register takes 1
    /// exactly when the draw erased a lit pixel.
    pub fn draw_vx_vy_n<G: Gpu>(
        &self,
        x: u8,
        y: u8,
        n: u8,
        display: &mut G,
        memory: &Memory,
        address_register: u16,
        registers: &mut Registers,
    )
        requires
            old(registers).wf(),
            x < REGISTERS_COUNT,
            y < REGISTERS_COUNT,
            memory.wf(),
            old(display).pixels().len() == FRAME_PIXELS,
            n <= 32,
            address_register + n <= MEMORY_SIZE,
        ensures
            final(registers).wf(),
            final(display).pixels() == draw_fb(
                old(display).pixels(),
                memory@,
                address_register as int,
                old(registers)@[x as int] as int,
                old(registers)@[y as int] as int,
                n as int,
            ),
            final(registers)@ == old(registers)@.update(
                0xf,
                if draw_collides(
                    old(display).pixels(),
                    memory@,
                    address_register as int,
                    old(registers)@[x as int] as int,
                    old(registers)@[y as int] as int,
                    n as int,
                ) {
                    1u8
                } else {
                    0u8
                },
            ),
    {
        let start_x = registers.get_register_at(x as usize);
        let start_y = registers.get_register_at(y as usize);
        let collision_detected = display.draw_sprite(start_x, start_y, n, address_register, memory);
        registers.set_register_at(0xf, if collision_detected {
            1
        } else {
            0
        });
    }

    /// Fx1E: add `V[x]` to the address register, wrapping modulo 2^16.
    pub fn mem_i_equal_i_plus_vx(&self, registers: &mut Registers, address_register: &mut u16, x: u8)
        requires
            old(registers).wf(),
            x < REGISTERS_COUNT,
        ensures
            final(registers).wf(),
            final(registers)@ == old(registers)@,
            *final(address_register) == ((*old(address_register) + old(registers)@[x as int])
                % 0x10000) as u16,
    {
        let vx = registers.get_register_at(x as usize);
        *address_register = (*address_register).wrapping_add(vx as u16);
    }

    /// Fx29: point the address register at the five-byte font glyph for the
    /// hexadecimal digit in `V[x]`. A value above 0xf has no glyph and is
    /// excluded; the executor reports it as a fatal error instead.
    pub fn mem_i_equal_sprite_addr_vx(
        &self,
        registers: &Registers,
        address_register: &mut u16,
        x: u8,
    )
        requires
            registers.wf(),
            x < REGISTERS_COUNT,
            registers@[x as int] <= 0xf,
        ensures
            *final(address_register) == 5 * registers@[x as int],
    {
        let vx = registers.get_register_at(x as usize);
        let glyph_address: u8 = 0x5 * vx;
        *address_register = glyph_address as u16;
    }

    /// Fx33: store the decimal digits of `V[x]` at the address register:
    /// hundreds, tens, ones.
    pub fn mem_bcd(&self, registers: &Registers, address_register: u16, memory: &mut Memory, x: u8)
        requires
            registers.wf(),
            old(memory).wf(),
            x < REGISTERS_COUNT,
            address_register + 3 <= MEMORY_SIZE,
        ensures
            final(memory).wf(),
            final(memory)@ == old(memory)@.update(
                address_register as int,
                (registers@[x as int] / 100) as u8,
            ).update(
                address_register as int + 1,
                ((registers@[x as int] % 100) / 10) as u8,
            ).update(address_register as int + 2, (registers@[x as int] % 10) as u8),
    {
        let vx = registers.get_register_at(x as usize);

        let hundreds: u8 = vx / 100;
        let remainder: u8 = vx - hundreds * 100;
        let tens: u8 = remainder / 10;
        let ones: u8 = remainder - tens * 10;

        proof {
            lemma_fundamental_div_mod(vx as int, 100);
            lemma_fundamental_div_mod(remainder as int, 10);
            lemma_fundamental_div_mod((vx % 100) as int, 10);
        }

        memory.write(address_register, hundreds);
        memory.write(address_register + 0x1, tens);
        memory.write(address_register + 0x2, ones);
    }

    /// Fx55: store `V[0]` through `V[x]` into memory starting at the address
    /// register.
    pub fn mem_reg_dump(&self, registers: &Registers, memory: &mut Memory, address_register: u16, x: u8)
        requires
            registers.wf(),
            old(memory).wf(),
            x < REGISTERS_COUNT,
            address_register + x < MEMORY_SIZE,
        ensures
            final(memory).wf(),
            forall|a: int|
                address_register <= a <= address_register + x ==> final(memory)@[a]
                    == registers@[a - address_register],
            forall|a: int|
                0 <= a < MEMORY_SIZE && !(address_register <= a <= address_register + x)
                    ==> final(memory)@[a] == old(memory)@[a],
    {
        let mut z: u16 = 0;
        while z <= x as u16
            invariant
                z <= x + 1,
                x < REGISTERS_COUNT,
                registers.wf(),
                memory.wf(),
                address_register + x < MEMORY_SIZE,
                forall|a: int|
                    address_register <= a < address_register + z ==> memory@[a] == registers@[a
                        - address_register],
                forall|a: int|
                    0 <= a < MEMORY_SIZE && !(address_register <= a < address_register + z)
                        ==> memory@[a] == old(memory)@[a],
            decreases x + 1 - z,
        {
            memory.write(address_register + z, registers.get_register_at(z as usize));
            z += 1;
        }
    }

    /// Fx65: load `V[0]` through `V[x]` from memory starting at the address
    /// register.
    pub fn mem_reg_load(&self, registers: &mut Registers, memory: &Memory, address_register: u16, x: u8)
        requires
            old(registers).wf(),
            memory.wf(),
            x < REGISTERS_COUNT,
            address_register + x < MEMORY_SIZE,
        ensures
            final(registers).wf(),
            forall|z: int|
                0 <= z <= x ==> final(registers)@[z] == memory@[address_register + z],
            forall|z: int|
                x < z < REGISTERS_COUNT ==> final(registers)@[z] == old(registers)@[z],
    {
        let mut z: u16 = 0;
        while z <= x as u16
            invariant
                z <= x + 1,
                x < REGISTERS_COUNT,
                registers.wf(),
                memory.wf(),
                address_register + x < MEMORY_SIZE,
                forall|i: int| 0 <= i < z ==> registers@[i] == memory@[address_register + i],
                forall|i: int| z <= i < REGISTERS_COUNT ==> registers@[i] == old(registers)@[i],
            decreases x + 1 - z,
        {
            registers.set_register_at(z as usize, memory.read(address_register + z));
            z += 1;
        }
    }

    /// Ex9E: poll the keypad and skip the next instruction when the pressed
    /// key equals `V[x]`. What is pressed depends on the user, so the
    /// contract holds for some polled answer.
    pub fn keyop_if_key_equal_vx<K: Keyboard>(
        &self,
        keyboard: &mut K,
        registers: &Registers,
        program_counter: &mut u16,
        x: u8,
    )
        requires
            registers.wf(),
            x < REGISTERS_COUNT,
            *old(program_counter) + INSTRUCTION_SIZE <= 0xffff,
        ensures
            exists|polled: Option<Key>|
                *final(program_counter) == #[trigger] skp_pc(
                    registers@[x as int],
                    *old(program_counter),
                    polled,
                ),
    {
        let ghost pc0 = *program_counter;
        let polled = keyboard.get_pressed_key();
        match polled {
            Option::Some(key) => {
                if key.value() == 0xff {
                    *program_counter = ESCAPE_SENTINEL;
                } else {
                    if registers.get_register_at(x as usize) == key.value() {
                        *program_counter += INSTRUCTION_SIZE;
                    }
                }
                proof {
                    assert(key == Key::KeyESC <==> key.spec_value() == 0xff);
                    assert(*program_counter == skp_pc(registers@[x as int], pc0, polled));
                }
            },
            Option::None => {
                proof {
                    assert(*program_counter == skp_pc(registers@[x as int], pc0, polled));
                }
            },
        }
    }

    /// ExA1: poll the keypad and skip the next instruction when nothing is
    /// pressed or the pressed key differs from `V[x]`.
    pub fn keyop_if_key_not_equal_vx<K: Keyboard>(
        &self,
        keyboard: &mut K,
        registers: &Registers,
        program_counter: &mut u16,
        x: u8,
    )
        requires
            registers.wf(),
            x < REGISTERS_COUNT,
            *old(program_counter) + INSTRUCTION_SIZE <= 0xffff,
        ensures
            exists|polled: Option<Key>|
                *final(program_counter) == #[trigger] sknp_pc(
                    registers@[x as int],
                    *old(program_counter),
                    polled,
                ),
    {
        let ghost pc0 = *program_counter;
        let polled = keyboard.get_pressed_key();
        match polled {
            Option::Some(key) => {
                if key.value() == 0xff {
                    *program_counter = ESCAPE_SENTINEL;
                } else {
                    if registers.get_register_at(x as usize) != key.value() {
                        *program_counter += INSTRUCTION_SIZE;
                    }
                }
                proof {
                    assert(key == Key::KeyESC <==> key.spec_value() == 0xff);
                    assert(*program_counter == sknp_pc(registers@[x as int], pc0, polled));
                }
            },
            Option::None => {
                *program_counter += INSTRUCTION_SIZE;
                proof {
                    assert(*program_counter == sknp_pc(registers@[x as int], pc0, polled));
                }
            },
        }
    }

    /// Fx0A: block until a key is pressed and store it in `V[x]`. A quit
    /// request leaves the registers alone and routes the program counter to
    /// the escape sentinel.
    pub fn keyop_vx_equal_key<K: Keyboard>(
        &self,
        keyboard: &mut K,
        registers: &mut Registers,
        x: u8,
        program_counter: &mut u16,
    )
        requires
            old(registers).wf(),
            x < REGISTERS_COUNT,
        ensures
            final(registers).wf(),
            exists|key: Key|
                final(registers)@ == #[trigger] key_wait_regs(old(registers)@, x as int, key)
                    && *final(program_counter) == key_wait_pc(*old(program_counter), key),
    {
        let ghost pc0 = *program_counter;
        let key = keyboard.wait_for_key_press();
        if key.value() == 0xff {
            *program_counter = ESCAPE_SENTINEL;
        } else {
            registers.set_register_at(x as usize, key.value());
        }
        proof {
            assert(key == Key::KeyESC <==> key.spec_value() == 0xff);
            assert(registers@ == key_wait_regs(old(registers)@, x as int, key));
            assert(*program_counter == key_wait_pc(pc0, key));
        }
    }

    /// Fx07: load the delay timer into `V[x]`.
    pub fn timer_vx_equal_get_delay(&self, delay_timer: u8, registers: &mut Registers, x: u8)
        requires
            old(registers).wf(),
            x < REGISTERS_COUNT,
        ensures
            final(registers).wf(),
            final(registers)@ == old(registers)@.update(x as int, delay_timer),
    {
        registers.set_register_at(x as usize, delay_timer);
    }

    /// Fx15: load `V[x]` into the delay timer.
    pub fn timer_delay_timer_equal_vx(&self, delay_timer: &mut u8, registers: &Registers, x: u8)
        requires
            registers.wf(),
            x < REGISTERS_COUNT,
        ensures
            *final(delay_timer) == registers@[x as int],
    {
        *delay_timer = registers.get_register_at(x as usize);
    }

    /// Fx18: load `V[x]` into the sound timer. The timer's expiry is a hook
    /// for an external buzzer; no sound is produced here.
    pub fn sound_sound_timer_equal_vx(&self, sound_timer: &mut u8, registers: &Registers, x: u8)
        requires
            registers.wf(),
            x < REGISTERS_COUNT,
        ensures
            *final(sound_timer) == registers@[x as int],
    {
        *sound_timer = registers.get_register_at(x as usize);
    }
}

} // verus!
