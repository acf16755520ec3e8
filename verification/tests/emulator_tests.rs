use chip8::chipset::RandomByteGenerator;
use chip8::display::GraphicDisplay;
use chip8::gpu::GraphicMemory;
use chip8::keyboard::{Key, Keyboard};
use chip8::{Emulator, Fontset};

struct MockedKeyboard {}

impl Keyboard for MockedKeyboard {
    fn get_pressed_key(&mut self) -> Option<Key> {
        None
    }

    fn wait_for_key_press(&mut self) -> Key {
        Key::Key0
    }
}

struct MocketDisplay {}

impl GraphicDisplay for MocketDisplay {
    fn draw(&mut self, _memory: &GraphicMemory) {}
}

struct TestRandomByteGenerator {}

impl RandomByteGenerator for TestRandomByteGenerator {
    fn generate(&self) -> u8 {
        rand::random::<u8>()
    }
}

#[test]
fn lib_test_can_run_program() {
    let emulator = Emulator::new();

    let mut initialized_emulator = emulator.initialize(
        &[0x00, 0xe0],
        MockedKeyboard {},
        MocketDisplay {},
        TestRandomByteGenerator {},
    );

    while let Ok(()) = initialized_emulator.run_cycle() {}
}

#[test]
fn test_fontset_holds_sixteen_five_byte_glyphs() {
    let fontset = Fontset::new();
    let values = fontset.get_values();

    assert_eq!(80, values.len());
    assert_eq!(0xf0, values[0]);
    assert_eq!(0x70, values[9]);
    assert_eq!(0x80, values[79]);
}

#[test]
fn test_initialize_loads_fonts_and_program() {
    let emulator = Emulator::new();

    let mut initialized = emulator.initialize(
        &[0xa0, 0x00, 0xf0, 0x33],
        MockedKeyboard {},
        MocketDisplay {},
        TestRandomByteGenerator {},
    );

    {
        let memory = initialized.get_chipset().get_memory();
        // The font's first glyph at the bottom of memory.
        assert_eq!(0xf0, memory.read(0x000));
        assert_eq!(0x90, memory.read(0x001));
        // The program at the program-counter boundary.
        assert_eq!(0xa0, memory.read(0x200));
        assert_eq!(0x33, memory.read(0x203));
    }

    // LD I,0x000 then BCD V0 with V0 == 0: digits 0,0,0 over the font.
    assert_eq!(Ok(()), initialized.run_cycle());
    assert_eq!(Ok(()), initialized.run_cycle());
    let memory = initialized.get_chipset().get_memory();
    assert_eq!(0, memory.read(0x000));
    assert_eq!(0, memory.read(0x001));
    assert_eq!(0, memory.read(0x002));
}

#[test]
fn test_font_lookup_points_into_font_table() {
    let emulator = Emulator::new();

    // LD V1,0x0a; LD I,Font(V1); LD V2..V6 from memory at I.
    let mut initialized = emulator.initialize(
        &[0x61, 0x0a, 0xf1, 0x29, 0xf4, 0x65],
        MockedKeyboard {},
        MocketDisplay {},
        TestRandomByteGenerator {},
    );

    assert_eq!(Ok(()), initialized.run_cycle());
    assert_eq!(Ok(()), initialized.run_cycle());
    assert_eq!(Ok(()), initialized.run_cycle());

    // The glyph for hexadecimal digit A: 0xf0 0x90 0xf0 0x90 0x90.
    let registers = initialized.get_chipset().get_registers();
    assert_eq!(0xf0, registers.get_register_at(0));
    assert_eq!(0x90, registers.get_register_at(1));
    assert_eq!(0xf0, registers.get_register_at(2));
    assert_eq!(0x90, registers.get_register_at(3));
    assert_eq!(0x90, registers.get_register_at(4));
}
