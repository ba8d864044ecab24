use chip8::display::ChipDisplay;
use chip8::errors::ChipError;
use chip8::memory::ChipMemory;
use chip8::opcode::Opcode;
use chip8::registers::ChipRegisters;
use chip8::system::{init_chip8, ChipSystem};

#[test]
fn a_fresh_machine_is_all_zero() {
    let sys = init_chip8();
    for i in 0..16 {
        assert_eq!(sys.registers.get_gp(i), Ok(0));
    }
    assert_eq!(sys.registers.get_i(), 0);
    assert_eq!(sys.registers.get_pc(), 0);
    assert_eq!(sys.registers.get_d(), 0);
    assert_eq!(sys.registers.get_s(), 0);
    assert_eq!(sys.ram.get_byte(0), Ok(0));
    assert_eq!(sys.ram.get_byte(4095), Ok(0));
    assert_eq!(sys.display.get_pixel(0, 0), Some(false));
    assert_eq!(sys.display.get_pixel(63, 31), Some(false));
}

#[test]
fn the_machine_assembles_from_its_parts() {
    let ram = ChipMemory::init();
    let disp = ChipDisplay::init();
    let reg = ChipRegisters::init();
    let sys = ChipSystem::new(reg, disp, ram);
    assert_eq!(sys.ram.get_byte(512), Ok(0));
}

#[test]
fn memory_access_is_bounds_checked() {
    let mut m = ChipMemory::init();
    assert_eq!(m.set_byte(4095, 7), Ok(()));
    assert_eq!(m.get_byte(4095), Ok(7));
    assert_eq!(m.set_byte(4096, 7), Err(ChipError::OutOfBounds));
    assert_eq!(m.get_byte(4096), Err(ChipError::OutOfBounds));
    assert_eq!(m.get_byte(5000), Err(ChipError::OutOfBounds));
}

#[test]
fn a_rom_lands_at_the_program_start() {
    let mut m = ChipMemory::init();
    assert_eq!(m.set_byte(600, 0xee), Ok(()));
    assert_eq!(m.load_bytes(vec![1, 2, 3]), Ok(()));
    assert_eq!(m.get_byte(511), Ok(0));
    assert_eq!(m.get_byte(512), Ok(1));
    assert_eq!(m.get_byte(513), Ok(2));
    assert_eq!(m.get_byte(514), Ok(3));
    assert_eq!(m.get_byte(515), Ok(0));
    // Loading overwrote the cell a previous write had touched.
    assert_eq!(m.get_byte(600), Ok(0xee));
}

#[test]
fn the_largest_rom_fits_and_one_byte_more_is_refused() {
    let mut m = ChipMemory::init();
    let full: Vec<u8> = vec![0xaa; 3584];
    assert_eq!(m.load_bytes(full), Ok(()));
    assert_eq!(m.get_byte(512), Ok(0xaa));
    assert_eq!(m.get_byte(4095), Ok(0xaa));

    let mut m2 = ChipMemory::init();
    let too_big: Vec<u8> = vec![0xbb; 3585];
    assert_eq!(m2.load_bytes(too_big), Err(ChipError::RomTooLarge));
    // The refused image left memory untouched.
    assert_eq!(m2.get_byte(512), Ok(0));
    assert_eq!(m2.get_byte(4095), Ok(0));
}

#[test]
fn register_access_is_bounds_checked() {
    let mut r = ChipRegisters::init();
    assert_eq!(r.set_gp(15, 9), Ok(()));
    assert_eq!(r.get_gp(15), Ok(9));
    assert_eq!(r.set_gp(16, 9), Err(ChipError::OutOfBounds));
    assert_eq!(r.get_gp(16), Err(ChipError::OutOfBounds));
    assert_eq!(r.add_gp(16, 1), Err(ChipError::OutOfBounds));
}

#[test]
fn add_gp_accumulates_and_wraps() {
    let mut r = ChipRegisters::init();
    assert_eq!(r.set_gp(2, 250), Ok(()));
    assert_eq!(r.add_gp(2, 10), Ok(()));
    assert_eq!(r.get_gp(2), Ok(4));
    assert_eq!(r.add_gp(2, 5), Ok(()));
    assert_eq!(r.get_gp(2), Ok(9));
}

#[test]
fn sixteen_pushes_fit_and_the_seventeenth_overflows() {
    let mut r = ChipRegisters::init();
    for a in 0..16u16 {
        assert_eq!(r.push_stack(0x100 + a), Ok(()));
    }
    assert_eq!(r.push_stack(0x999), Err(ChipError::StackOverflow));
    // The stack still pops what the sixteen pushes stored.
    assert_eq!(r.pop_stack(), Ok(0x10f));
}

#[test]
fn popping_an_empty_stack_underflows() {
    let mut r = ChipRegisters::init();
    assert_eq!(r.pop_stack(), Err(ChipError::StackUnderflow));
}

#[test]
fn push_then_pop_returns_the_address() {
    let mut r = ChipRegisters::init();
    assert_eq!(r.push_stack(0xabc), Ok(()));
    assert_eq!(r.pop_stack(), Ok(0xabc));
    assert_eq!(r.pop_stack(), Err(ChipError::StackUnderflow));
}

#[test]
fn the_counter_steps_by_two_and_timers_stop_at_zero() {
    let mut r = ChipRegisters::init();
    r.set_pc(0x200);
    r.incr_pc();
    assert_eq!(r.get_pc(), 0x202);
    r.set_d(2);
    r.decr_d();
    r.decr_d();
    r.decr_d();
    assert_eq!(r.get_d(), 0);
    r.set_s(1);
    r.decr_s();
    r.decr_s();
    assert_eq!(r.get_s(), 0);
}

#[test]
fn the_counter_wraps_at_the_top_of_its_range() {
    let mut r = ChipRegisters::init();
    r.set_pc(0xfffe);
    r.incr_pc();
    assert_eq!(r.get_pc(), 0);
}

#[test]
fn a_word_splits_into_its_four_nibbles() {
    let comps = Opcode::new(0xabcd);
    assert_eq!(comps.h1, 0xa);
    assert_eq!(comps.v1, 0xb);
    assert_eq!(comps.v2, 0xc);
    assert_eq!(comps.v3, 0xd);
    let comps = Opcode::new(0x0000);
    assert_eq!((comps.h1, comps.v1, comps.v2, comps.v3), (0, 0, 0, 0));
    let comps = Opcode::new(0xffff);
    assert_eq!((comps.h1, comps.v1, comps.v2, comps.v3), (0xf, 0xf, 0xf, 0xf));
}

#[test]
fn pixels_off_the_grid_read_as_none() {
    let d = ChipDisplay::init();
    assert_eq!(d.get_pixel(63, 31), Some(false));
    assert_eq!(d.get_pixel(64, 0), None);
    assert_eq!(d.get_pixel(0, 32), None);
}

#[test]
fn pixel_reads_are_row_major() {
    let mut d = ChipDisplay::init();
    d.display[2 * 64 + 5] = true;
    assert_eq!(d.get_pixel(5, 2), Some(true));
    assert_eq!(d.get_pixel(2, 5), Some(false));
}

#[test]
fn the_memory_dump_is_hex_in_spaced_pairs_and_lines() {
    let mut m = ChipMemory::init();
    let text = m.dump_ram();
    // 4096 cells of two digits, a space before each of the 2048 pairs, a
    // line break before each of the 128 lines.
    assert_eq!(text.len(), 4096 * 2 + 2048 + 128);
    assert_eq!(&text[0..6], b" \n0000");
    assert_eq!(&text[6..9], b" 00");

    assert_eq!(m.set_byte(0, 0xab), Ok(()));
    assert_eq!(m.set_byte(1, 0x05), Ok(()));
    let text = m.dump_ram();
    assert_eq!(&text[0..6], b" \nab05");
}
