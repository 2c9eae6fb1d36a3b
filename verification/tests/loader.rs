use chip8::{EngineState, Fault, CHIP8};

#[test]
fn new_machine_is_zeroed_and_starts_at_program_start() {
    let chip = CHIP8::new();
    assert!(chip.memory.iter().all(|&b| b == 0));
    assert_eq!(chip.vregister, [0u8; 16]);
    assert_eq!(chip.index_register, 0);
    assert_eq!(chip.program_counter, 0x200);
    assert_eq!(chip.stack_pointer, 0);
    assert_eq!(chip.stack, [0u16; 16]);
    assert_eq!(chip.delay_timer, 0);
    assert_eq!(chip.sound_timer, 0);
    assert!(chip.display.iter().all(|&p| p == 0));
    assert_eq!(chip.keypad, [false; 16]);
    assert_eq!(chip.state, EngineState::Running);
    assert!(!chip.debug);
}

#[test]
fn load_fonts_writes_the_table_at_0x50() {
    let mut chip = CHIP8::new();
    chip.load_fonts();
    assert_eq!(&chip.memory[0x50..0x55], &[0xF0, 0x90, 0x90, 0x90, 0xF0]);
    assert_eq!(&chip.memory[0x55..0x5A], &[0x20, 0x60, 0x20, 0x20, 0x70]);
    assert_eq!(&chip.memory[0x9B..0xA0], &[0xF0, 0x80, 0xF0, 0x80, 0x80]);
    assert_eq!(chip.memory[0x4F], 0);
    assert_eq!(chip.memory[0xA0], 0);
    assert_eq!(chip.memory.iter().filter(|&&b| b != 0).count(), 80);
}

#[test]
fn load_fonts_keeps_the_rest_of_memory() {
    let mut chip = CHIP8::new();
    chip.memory[0x4F] = 0xAA;
    chip.memory[0xA0] = 0xBB;
    chip.memory[0x60] = 0xCC;
    chip.load_fonts();
    assert_eq!(chip.memory[0x4F], 0xAA);
    assert_eq!(chip.memory[0xA0], 0xBB);
    assert_eq!(chip.memory[0x60], 0x10);
    assert_eq!(chip.program_counter, 0x200);
}

#[test]
fn font_set_matches_what_load_fonts_writes() {
    let mut chip = CHIP8::new();
    chip.load_fonts();
    let table = chip8::font::font_set();
    assert_eq!(&chip.memory[0x50..0xA0], &table[..]);
}

#[test]
fn load_rom_writes_the_image_at_0x200() {
    let mut chip = CHIP8::new();
    assert_eq!(chip.load_rom(&[0x60, 0x3C, 0x12, 0x00]), Ok(()));
    assert_eq!(&chip.memory[0x200..0x204], &[0x60, 0x3C, 0x12, 0x00]);
    assert_eq!(chip.memory[0x1FF], 0);
    assert_eq!(chip.memory[0x204], 0);
}

#[test]
fn load_rom_accepts_an_empty_image() {
    let mut chip = CHIP8::new();
    assert_eq!(chip.load_rom(&[]), Ok(()));
    assert!(chip.memory.iter().all(|&b| b == 0));
}

#[test]
fn load_rom_accepts_an_image_that_fills_memory() {
    let mut chip = CHIP8::new();
    let rom = vec![0x5A; 3584];
    assert_eq!(chip.load_rom(&rom), Ok(()));
    assert_eq!(chip.memory[0x200], 0x5A);
    assert_eq!(chip.memory[4095], 0x5A);
    assert_eq!(chip.memory[0x1FF], 0);
}

#[test]
fn load_rom_refuses_an_image_that_is_too_large() {
    let mut chip = CHIP8::new();
    let rom = vec![0x5A; 3585];
    assert_eq!(chip.load_rom(&rom), Err(Fault::RomTooLarge));
    assert!(chip.memory.iter().all(|&b| b == 0));
}
