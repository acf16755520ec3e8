use chip8::chipset::RandomByteGenerator;
use chip8::gpu::{Chip8Gpu, Gpu};
use chip8::keyboard::{Key, Keyboard};
use chip8::memory::{Memory, Registers, Stack};
use chip8::opcode_processor::Chip8OpCodesProcessor;

struct MockedKeyboard;

impl Keyboard for MockedKeyboard {
    fn wait_for_key_press(&mut self) -> Key {
        Key::Key5
    }

    fn get_pressed_key(&mut self) -> Option<Key> {
        Some(Key::Key4)
    }
}

struct TestRandomByteGenerator {}

impl RandomByteGenerator for TestRandomByteGenerator {
    fn generate(&self) -> u8 {
        rand::random::<u8>()
    }
}

#[test]
fn opcode_processor_test_clear_display() {
    let mut memory = Memory::new();
    memory.write(0x300, 0xff);

    let mut display = Chip8Gpu::new();
    display.draw_sprite(0, 0, 1, 0x300, &memory);
    assert_eq!(1, display.get_pixel(0, 0));

    Chip8OpCodesProcessor::new().clear_screen(&mut display);

    for y in 0..32 {
        for x in 0..64 {
            assert_eq!(0, display.get_pixel(y, x));
        }
    }
}

#[test]
fn opcode_processor_test_return_from_subroutine() {
    let mut program_counter: u16 = 0x100;
    let mut stack = Stack::new();

    stack.push(program_counter);
    program_counter += 1;

    Chip8OpCodesProcessor::new().return_from_subroutine(&mut stack, &mut program_counter);

    assert_eq!(0x100, program_counter);
}

#[test]
fn opcode_processor_test_jump_to_address() {
    let mut memory = Memory::new();
    let mut program_counter: u16 = 0;

    memory.write(0x100, 0x5);

    Chip8OpCodesProcessor::new().jump_to_address(&mut program_counter, 0x100);

    assert_eq!(0x5, memory.read(program_counter));
}

#[test]
fn opcode_processor_test_call_subroutine() {
    let mut stack = Stack::new();
    let mut program_counter = 0x100;

    Chip8OpCodesProcessor::new().call_subroutine(&mut program_counter, 0x150, &mut stack);

    assert_eq!(0x150, program_counter);
    assert_eq!(0x100, stack.pop());
}

#[test]
fn opcode_processor_test_cond_vx_equal_nn_true() {
    let x: u8 = 0x2;
    let nn: u8 = 0xab;

    let mut registers = Registers::new();
    registers.set_register_at(x as usize, nn);

    let mut program_counter: u16 = 0x100;

    Chip8OpCodesProcessor::new().cond_vx_equal_nn(&registers, &mut program_counter, x, nn);

    assert_eq!(0x102, program_counter);
}

#[test]
fn opcode_processor_test_cond_vx_equal_nn_false() {
    let x: u8 = 0x2;
    let nn: u8 = 0xab;

    let mut registers = Registers::new();
    registers.set_register_at(x as usize, 0xaa);

    let mut program_counter: u16 = 0x100;

    Chip8OpCodesProcessor::new().cond_vx_equal_nn(&registers, &mut program_counter, x, nn);

    assert_eq!(0x100, program_counter);
}

#[test]
fn opcode_processor_test_cond_vx_not_equal_nn_true() {
    let x: u8 = 0x2;
    let nn: u8 = 0xab;

    let mut registers = Registers::new();
    registers.set_register_at(x as usize, 0xaa);

    let mut program_counter: u16 = 0x100;

    Chip8OpCodesProcessor::new().cond_vx_not_equal_nn(&registers, &mut program_counter, x, nn);

    assert_eq!(0x102, program_counter);
}

#[test]
fn opcode_processor_test_cond_vx_not_equal_nn_false() {
    let x: u8 = 0x2;
    let nn: u8 = 0xab;

    let mut registers = Registers::new();
    registers.set_register_at(x as usize, nn);

    let mut program_counter: u16 = 0x100;

    Chip8OpCodesProcessor::new().cond_vx_not_equal_nn(&registers, &mut program_counter, x, nn);

    assert_eq!(0x100, program_counter);
}

#[test]
fn opcode_processor_test_cond_vx_equal_vy_true() {
    let x: u8 = 0x2;
    let y: u8 = 0x3;

    let mut registers = Registers::new();
    registers.set_register_at(x as usize, 0xff);
    registers.set_register_at(y as usize, 0xff);

    let mut program_counter: u16 = 0x100;

    Chip8OpCodesProcessor::new().cond_vx_equal_vy(&registers, &mut program_counter, x, y);

    assert_eq!(0x102, program_counter);
}

#[test]
fn opcode_processor_test_cond_vx_equal_vy_false() {
    let x: u8 = 0x2;
    let y: u8 = 0x3;

    let mut registers = Registers::new();
    registers.set_register_at(x as usize, 0xff);
    registers.set_register_at(y as usize, 0xaa);

    let mut program_counter: u16 = 0x100;

    Chip8OpCodesProcessor::new().cond_vx_equal_vy(&registers, &mut program_counter, x, y);

    assert_eq!(0x100, program_counter);
}

#[test]
fn opcode_processor_test_const_vx_equal_nn() {
    let x: u8 = 0x2;
    let nn: u8 = 0x10;

    let mut registers = Registers::new();

    Chip8OpCodesProcessor::new().const_vx_equal_nn(&mut registers, x, nn);

    assert_eq!(0x10, registers.get_register_at(x as usize));
}

#[test]
fn opcode_processor_test_const_vx_plus_equal_nn_ok() {
    let x: u8 = 0x2;
    let nn: u8 = 0x1;

    let mut registers = Registers::new();
    registers.set_register_at(x as usize, 0x5);

    Chip8OpCodesProcessor::new().const_vx_plus_equal_nn(&mut registers, x, nn);

    assert_eq!(0x6, registers.get_register_at(x as usize));
}

#[test]
fn opcode_processor_test_const_vx_plus_equal_nn_will_wrap_on_overflow() {
    let x = 0x2;
    let vx = 0x5;
    let nn = 0xff;

    let mut registers = Registers::new();
    registers.set_register_at(x as usize, vx);

    Chip8OpCodesProcessor::new().const_vx_plus_equal_nn(&mut registers, x, nn);

    assert_eq!(
        (u16::from(vx) % 256 + u16::from(nn) % 256) as u8,
        registers.get_register_at(x as usize)
    );
}

#[test]
fn opcode_processor_test_assign_vx_equal_vy() {
    let x: u8 = 0x2;
    let y: u8 = 0x3;

    let mut registers = Registers::new();
    registers.set_register_at(x as usize, 0x1);
    registers.set_register_at(y as usize, 0x2);

    Chip8OpCodesProcessor::new().assign_vx_equal_vy(&mut registers, x, y);

    assert_eq!(0x2, registers.get_register_at(x as usize));
}

fn setup_bitop() -> (Registers, u8, u8) {
    let x: u8 = 0x2;
    let y: u8 = 0x3;

    let mut registers = Registers::new();
    registers.set_register_at(x as usize, 0x5a);
    registers.set_register_at(y as usize, 0x45);

    (registers, x, y)
}

#[test]
fn opcode_processor_test_bitop_vx_equal_vx_or_vy() {
    let (mut registers, x, y) = setup_bitop();

    Chip8OpCodesProcessor::new().bitop_vx_equal_vx_or_vy(&mut registers, x, y);

    assert_eq!(0x5f, registers.get_register_at(x as usize));
}

#[test]
fn opcode_processor_test_bitop_vx_equal_vx_and_vy() {
    let (mut registers, x, y) = setup_bitop();

    Chip8OpCodesProcessor::new().bitop_vx_equal_vx_and_vy(&mut registers, x, y);

    assert_eq!(0x40, registers.get_register_at(x as usize));
}

#[test]
fn opcode_processor_test_bitop_vx_equal_vx_xor_vy() {
    let (mut registers, x, y) = setup_bitop();

    Chip8OpCodesProcessor::new().bitop_vx_equal_vx_xor_vy(&mut registers, x, y);

    assert_eq!(0x1f, registers.get_register_at(x as usize));
}

#[test]
fn opcode_processor_test_math_vx_equal_vx_plus_vy_without_overflow() {
    let x: u8 = 0x1;
    let y: u8 = 0x2;

    let mut registers = Registers::new();
    registers.set_register_at(x as usize, 0xf);
    registers.set_register_at(y as usize, 0xa);
    registers.set_register_at(0xf, 0x1);

    Chip8OpCodesProcessor::new().math_vx_equal_vx_plus_vy(&mut registers, x, y);

    assert_eq!(0x19, registers.get_register_at(x as usize));
    assert_eq!(0x0, registers.get_register_at(0xf));
}

#[test]
fn opcode_processor_test_math_vx_equal_vx_plus_vy_with_overflow() {
    let x: u8 = 0x1;
    let y: u8 = 0x2;

    let mut registers = Registers::new();
    registers.set_register_at(x as usize, 0xff);
    registers.set_register_at(y as usize, 0x1);
    registers.set_register_at(0xf, 0x0);

    Chip8OpCodesProcessor::new().math_vx_equal_vx_plus_vy(&mut registers, x, y);

    assert_eq!(0x0, registers.get_register_at(x as usize));
    assert_eq!(0x1, registers.get_register_at(0xf));
}

#[test]
fn opcode_processor_test_math_vx_equal_vx_minus_vy_without_undeflow() {
    let x: u8 = 0x1;
    let y: u8 = 0x2;

    let mut registers = Registers::new();
    registers.set_register_at(x as usize, 0xff);
    registers.set_register_at(y as usize, 0x2);
    registers.set_register_at(0xf, 0x0);

    Chip8OpCodesProcessor::new().math_vx_equal_vx_minus_vy(&mut registers, x, y);

    assert_eq!(0xfd, registers.get_register_at(x as usize));
    assert_eq!(0x1, registers.get_register_at(0xf));
}

#[test]
fn opcode_processor_test_math_vx_equal_vx_minus_vy_with_undeflow() {
    let x: u8 = 0x1;
    let y: u8 = 0x2;

    let mut registers = Registers::new();
    registers.set_register_at(x as usize, 0x0);
    registers.set_register_at(y as usize, 0x1);
    registers.set_register_at(0xf, 0x1);

    Chip8OpCodesProcessor::new().math_vx_equal_vx_minus_vy(&mut registers, x, y);

    assert_eq!(0xff, registers.get_register_at(x as usize));
    assert_eq!(0x0, registers.get_register_at(0xf));
}

#[test]
fn opcode_processor_test_bitop_vx_equal_vx_shr_without_overflow() {
    let x: u8 = 0x1;
    let before = 0b0101_1110;
    let after = 0b0010_1111;

    let mut registers = Registers::new();
    registers.set_register_at(x as usize, before);
    registers.set_register_at(0xf, 0x1);

    Chip8OpCodesProcessor::new().bitop_vx_equal_vx_shr(&mut registers, x);

    assert_eq!(after, registers.get_register_at(x as usize));
    assert_eq!(0x0, registers.get_register_at(0xf as usize));
}

#[test]
fn opcode_processor_test_bitop_vx_equal_vx_shr_with_overflow() {
    let x: u8 = 0x1;
    let before = 0b1010_1111;
    let after = 0b0101_0111;

    let mut registers = Registers::new();
    registers.set_register_at(x as usize, before);
    registers.set_register_at(0xf, 0x0);

    Chip8OpCodesProcessor::new().bitop_vx_equal_vx_shr(&mut registers, x);

    assert_eq!(after, registers.get_register_at(x as usize));
    assert_eq!(0x1, registers.get_register_at(0xf as usize));
}

#[test]
fn opcode_processor_test_math_vx_equal_vy_minus_vx_without_underflow() {
    let x: u8 = 0x1;
    let y: u8 = 0x2;

    let mut registers = Registers::new();
    registers.set_register_at(x as usize, 0x2);
    registers.set_register_at(y as usize, 0xff);
    registers.set_register_at(0xf, 0x0);

    Chip8OpCodesProcessor::new().math_vx_equal_vy_minus_vx(&mut registers, x, y);

    assert_eq!(0xfd, registers.get_register_at(x as usize));
    assert_eq!(0x1, registers.get_register_at(0xf));
}

#[test]
fn opcode_processor_test_math_vx_equal_vy_minus_vx_with_underflow() {
    let x: u8 = 0x1;
    let y: u8 = 0x2;

    let mut registers = Registers::new();
    registers.set_register_at(x as usize, 0x1);
    registers.set_register_at(y as usize, 0x0);
    registers.set_register_at(0xf, 0x1);

    Chip8OpCodesProcessor::new().math_vx_equal_vy_minus_vx(&mut registers, x, y);

    assert_eq!(0xff, registers.get_register_at(x as usize));
    assert_eq!(0x0, registers.get_register_at(0xf));
}

#[test]
fn opcode_processor_test_bitop_vx_equal_vx_shl_with_overflow() {
    let x: u8 = 0x1;
    let before = 0b1010_1111;
    let after = 0b0101_1110;

    let mut registers = Registers::new();
    registers.set_register_at(x as usize, before);
    registers.set_register_at(0xf, 0x0);

    Chip8OpCodesProcessor::new().bitop_vx_equal_vx_shl(&mut registers, x);

    assert_eq!(after, registers.get_register_at(x as usize));
    assert_eq!(0x1, registers.get_register_at(0xf as usize));
}

#[test]
fn opcode_processor_test_bitop_vx_equal_vx_shl_without_overflow() {
    let x: u8 = 0x1;
    let before = 0b0010_1111;
    let after = 0b0101_1110;

    let mut registers = Registers::new();
    registers.set_register_at(x as usize, before);
    registers.set_register_at(0xf, 0x1);

    Chip8OpCodesProcessor::new().bitop_vx_equal_vx_shl(&mut registers, x);

    assert_eq!(after, registers.get_register_at(x as usize));
    assert_eq!(0x0, registers.get_register_at(0xf as usize));
}

#[test]
fn opcode_processor_test_cond_vx_not_equal_vy_true() {
    let x: u8 = 0x1;
    let y: u8 = 0x2;

    let mut program_counter: u16 = 0x100;

    let mut registers = Registers::new();
    registers.set_register_at(x as usize, 0xff);
    registers.set_register_at(y as usize, 0x0f);

    Chip8OpCodesProcessor::new().cond_vx_not_equal_vy(&registers, &mut program_counter, x, y);

    assert_eq!(0x102, program_counter);
}

#[test]
fn opcode_processor_test_cond_vx_not_equal_vy_false() {
    let x: u8 = 0x1;
    let y: u8 = 0x2;

    let mut program_counter: u16 = 0x100;

    let mut registers = Registers::new();
    registers.set_register_at(x as usize, 0xff);
    registers.set_register_at(y as usize, 0xff);

    Chip8OpCodesProcessor::new().cond_vx_not_equal_vy(&registers, &mut program_counter, x, y);

    assert_eq!(0x100, program_counter);
}

#[test]
fn opcode_processor_test_mem_i_equal_nnn() {
    let nnn: u16 = 0x200;
    let mut address_register: u16 = 0x100;

    Chip8OpCodesProcessor::new().mem_i_equal_nnn(&mut address_register, nnn);

    assert_eq!(0x200, address_register);
}

#[test]
fn opcode_processor_test_flow_pc_equal_v0_plus_nnn() {
    let nnn: u16 = 0x200;
    let mut program_counter: u16 = 0x100;

    let mut registers = Registers::new();
    registers.set_register_at(0, 0xff);

    Chip8OpCodesProcessor::new().flow_pc_equal_v0_plus_nnn(&mut program_counter, nnn, &registers);

    assert_eq!(0x2ff, program_counter);
}

#[test]
fn opcode_processor_test_rand_vx_equal_rand_and_nn() {
    let x: u8 = 0x1;
    let nn: u8 = 0xff;

    let mut registers = Registers::new();

    let generator = TestRandomByteGenerator {};
    Chip8OpCodesProcessor::new().rand_vx_equal_rand_and_nn(&generator, &mut registers, x, nn);
    let x_1 = registers.get_register_at(x as usize);

    Chip8OpCodesProcessor::new().rand_vx_equal_rand_and_nn(&generator, &mut registers, x, nn);
    let x_2 = registers.get_register_at(x as usize);

    Chip8OpCodesProcessor::new().rand_vx_equal_rand_and_nn(&generator, &mut registers, x, nn);
    let x_3 = registers.get_register_at(x as usize);

    assert_ne!(x_1, x_2);
    assert_ne!(x_1, x_3);
    assert_ne!(x_2, x_3);
}

#[test]
fn opcode_processor_test_rand_vx_masks_with_nn() {
    let x: u8 = 0x1;
    let nn: u8 = 0x0f;

    let mut registers = Registers::new();
    let generator = TestRandomByteGenerator {};

    for _ in 0..32 {
        Chip8OpCodesProcessor::new().rand_vx_equal_rand_and_nn(&generator, &mut registers, x, nn);
        assert_eq!(0, registers.get_register_at(x as usize) & !nn);
    }
}

#[test]
fn opcode_processor_test_mem_i_equal_i_plus_vx() {
    let x: u8 = 0x1;
    let mut address_register: u16 = 0xff;
    let mut registers = Registers::new();

    registers.set_register_at(x as usize, 0xf);

    Chip8OpCodesProcessor::new().mem_i_equal_i_plus_vx(&mut registers, &mut address_register, x);

    assert_eq!(0x10e, address_register);
}

#[test]
fn opcode_processor_test_mem_i_equal_sprite_addr_vx_ok() {
    let x: u8 = 0x1;
    let mut address_register: u16 = 0;

    let mut registers = Registers::new();

    registers.set_register_at(x as usize, 0x4);
    Chip8OpCodesProcessor::new().mem_i_equal_sprite_addr_vx(
        &mut registers,
        &mut address_register,
        x,
    );

    assert_eq!(0x14, address_register);
}

#[test]
fn opcode_processor_test_mem_bcd() {
    let x: u8 = 0x1;
    let address_register: u16 = 0;
    let mut memory = Memory::new();
    let mut registers = Registers::new();

    registers.set_register_at(x as usize, 253);
    Chip8OpCodesProcessor::new().mem_bcd(&registers, address_register, &mut memory, x);

    assert_eq!(2, memory.read(address_register));
    assert_eq!(5, memory.read(address_register + 1));
    assert_eq!(3, memory.read(address_register + 2));

    let mut memory = Memory::new();
    registers.set_register_at(x as usize, 49);
    Chip8OpCodesProcessor::new().mem_bcd(&registers, address_register, &mut memory, x);

    assert_eq!(0, memory.read(address_register));
    assert_eq!(4, memory.read(address_register + 1));
    assert_eq!(9, memory.read(address_register + 2));

    let mut memory = Memory::new();
    registers.set_register_at(x as usize, 7);
    Chip8OpCodesProcessor::new().mem_bcd(&registers, address_register, &mut memory, x);

    assert_eq!(0, memory.read(address_register));
    assert_eq!(0, memory.read(address_register + 1));
    assert_eq!(7, memory.read(address_register + 2));
}

#[test]
fn opcode_processor_test_mem_reg_dump() {
    let x: u8 = 0xf;
    let mut memory = Memory::new();
    let mut registers = Registers::new();
    let address_register: u16 = 0x200;

    let range = (0x0..=0xf).collect::<Vec<u8>>();

    for i in &range {
        registers.set_register_at(*i as usize, i + 5);
    }

    Chip8OpCodesProcessor::new().mem_reg_dump(&registers, &mut memory, address_register, x);

    for i in range {
        assert_eq!(i + 5, memory.read(address_register + u16::from(i)));
    }
}

#[test]
fn opcode_processor_test_mem_reg_load() {
    let x: u8 = 0xf;
    let mut memory = Memory::new();
    let mut registers = Registers::new();
    let address_register: u16 = 0x200;

    let range = (address_register..=(address_register + u16::from(x))).collect::<Vec<u16>>();

    for (i, address) in range.iter().enumerate() {
        memory.write(*address, i as u8);
    }

    Chip8OpCodesProcessor::new().mem_reg_load(&mut registers, &memory, address_register, x);

    for (i, _) in range.iter().enumerate() {
        assert_eq!(i as u8, registers.get_register_at(i));
    }
}

#[test]
fn opcode_processor_test_draw_vx_vy_n_without_collision() {
    let mut memory = Memory::new();
    let address_register: u16 = 0x0;
    let mut display = Chip8Gpu::new();
    let mut registers = Registers::new();

    registers.set_register_at(0, 10);

    Chip8OpCodesProcessor::new().draw_vx_vy_n(
        0,
        1,
        3,
        &mut display,
        &memory,
        address_register,
        &mut registers,
    );

    assert_eq!(0x0, registers.get_register_at(0xf));
}

#[test]
fn opcode_processor_test_draw_vx_vy_n_with_collision() {
    let mut memory = Memory::new();
    memory.write(0x0, 0xff);
    memory.write(0x1, 0xff);
    memory.write(0x2, 0xff);
    let address_register: u16 = 0x0;
    let mut display = Chip8Gpu::new();
    let mut registers = Registers::new();

    registers.set_register_at(0, 11);

    Chip8OpCodesProcessor::new().draw_vx_vy_n(
        0,
        1,
        3,
        &mut display,
        &memory,
        address_register,
        &mut registers,
    );
    assert_eq!(0x0, registers.get_register_at(0xf));

    Chip8OpCodesProcessor::new().draw_vx_vy_n(
        0,
        1,
        3,
        &mut display,
        &memory,
        address_register,
        &mut registers,
    );

    assert_eq!(0x1, registers.get_register_at(0xf));
}

#[test]
fn opcode_processor_test_keyop_vx_equal_key() {
    let mut keyboard = MockedKeyboard {};
    let mut registers = Registers::new();
    let mut program_counter = 0;

    Chip8OpCodesProcessor::new().keyop_vx_equal_key(
        &mut keyboard,
        &mut registers,
        0x1,
        &mut program_counter,
    );

    assert_eq!(0x5, registers.get_register_at(0x1));
}

#[test]
fn opcode_processor_test_keyop_if_key_equal_vx() {
    let mut keyboard = MockedKeyboard {};
    let registers = {
        let mut registers = Registers::new();
        registers.set_register_at(0x1, 0x4);
        registers
    };
    let mut program_counter = 0x0;

    Chip8OpCodesProcessor::new().keyop_if_key_equal_vx(
        &mut keyboard,
        &registers,
        &mut program_counter,
        0x1,
    );

    assert_eq!(0x2, program_counter);
}

#[test]
fn opcode_processor_test_keyop_if_key_not_equal_vx() {
    let mut keyboard = MockedKeyboard {};
    let registers = {
        let mut registers = Registers::new();
        registers.set_register_at(0x1, 0x5);
        registers
    };
    let mut program_counter = 0x0;

    Chip8OpCodesProcessor::new().keyop_if_key_equal_vx(
        &mut keyboard,
        &registers,
        &mut program_counter,
        0x1,
    );

    assert_eq!(0x0, program_counter);
}

#[test]
fn opcode_processor_test_timer_vx_equal_get_delay() {
    let delay_timer = 0x20;
    let mut registers = Registers::new();

    Chip8OpCodesProcessor::new().timer_vx_equal_get_delay(delay_timer, &mut registers, 0xa);

    assert_eq!(0x20, registers.get_register_at(0xa));
}

#[test]
fn opcode_processor_test_timer_delay_timer_equal_vx() {
    let mut delay_timer = 0x20;
    let mut registers = Registers::new();

    registers.set_register_at(0xa, 0x30);

    Chip8OpCodesProcessor::new().timer_delay_timer_equal_vx(&mut delay_timer, &registers, 0xa);

    assert_eq!(0x30, delay_timer);
}

#[test]
fn opcode_processor_test_sound_sound_timer_equal_vx() {
    let mut sound_timer = 0x11;
    let mut registers = Registers::new();

    registers.set_register_at(0x3, 0x42);

    Chip8OpCodesProcessor::new().sound_sound_timer_equal_vx(&mut sound_timer, &registers, 0x3);

    assert_eq!(0x42, sound_timer);
}
