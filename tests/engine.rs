use chip8::chip::Chip;
use chip8::decode::Decoded;
use chip8::display::{COLOR_OFF, COLOR_ON, WINDOW_WIDTH};
use chip8::keypad::Key;
use chip8::machine::{Event, Fault};

fn run(chip: &mut Chip, op: Decoded) -> Result<Event, Fault> {
    chip.execute(op, &vec![])
}

fn with_regs(values: &[(usize, u8)]) -> Chip {
    let mut chip = Chip::new();
    for (x, nn) in values {
        run(&mut chip, Decoded::Move(*x, *nn)).unwrap();
    }
    chip
}

#[test]
fn engine_initial_state() {
    let chip = Chip::new();
    assert_eq!(chip.pc(), 0x200);
    assert_eq!(chip.index(), 0);
    assert_eq!(chip.registers(), &vec![0u8; 16]);
    assert_eq!(chip.memory().len(), 4096);
    assert!(chip.memory().iter().all(|b| *b == 0));
    assert!(chip.stack().is_empty());
    assert!(chip.display().pixels().iter().all(|p| !*p));
}

#[test]
fn engine_add_wraps() {
    let mut chip = with_regs(&[(3, 0xFF)]);
    assert_eq!(run(&mut chip, Decoded::Add(3, 0x01)), Ok(Event::Continue));
    assert_eq!(chip.registers()[3], 0x00);
    assert_eq!(chip.registers()[0xF], 0);
}

#[test]
fn engine_add_xy_wraps_without_flag() {
    let mut chip = with_regs(&[(0, 0xF0), (1, 0x20)]);
    run(&mut chip, Decoded::AddXY(0, 1)).unwrap();
    assert_eq!(chip.registers()[0], 0x10);
    assert_eq!(chip.registers()[0xF], 0);
}

#[test]
fn engine_sub_xy_wraps() {
    let mut chip = with_regs(&[(0, 0x00), (1, 0x01)]);
    run(&mut chip, Decoded::SubXY(0, 1)).unwrap();
    assert_eq!(chip.registers()[0], 0xFF);
}

#[test]
fn engine_sub_yx_wraps() {
    let mut chip = with_regs(&[(0, 0x01), (1, 0x00)]);
    run(&mut chip, Decoded::SubYX(0, 1)).unwrap();
    assert_eq!(chip.registers()[0], 0xFF);
    let mut chip = with_regs(&[(0, 0x03), (1, 0x10)]);
    run(&mut chip, Decoded::SubYX(0, 1)).unwrap();
    assert_eq!(chip.registers()[0], 0x0D);
}

#[test]
fn engine_shift_right_copies_source() {
    let mut chip = with_regs(&[(0, 0xAA), (1, 0x03)]);
    run(&mut chip, Decoded::ShiftRight(0, 1)).unwrap();
    assert_eq!(chip.registers()[0xF], 1);
    assert_eq!(chip.registers()[0], 0x01);
    assert_eq!(chip.registers()[1], 0x03);
}

#[test]
fn engine_shift_left_copies_source() {
    let mut chip = with_regs(&[(0, 0x01), (1, 0x81)]);
    run(&mut chip, Decoded::ShiftLeft(0, 1)).unwrap();
    assert_eq!(chip.registers()[0xF], 1);
    assert_eq!(chip.registers()[0], 0x02);
    let mut chip = with_regs(&[(1, 0x41)]);
    run(&mut chip, Decoded::ShiftLeft(0, 1)).unwrap();
    assert_eq!(chip.registers()[0xF], 0);
    assert_eq!(chip.registers()[0], 0x82);
}

#[test]
fn engine_logic_ops() {
    let mut chip = with_regs(&[(0, 0b1100), (1, 0b1010)]);
    run(&mut chip, Decoded::Or(0, 1)).unwrap();
    assert_eq!(chip.registers()[0], 0b1110);
    run(&mut chip, Decoded::And(0, 1)).unwrap();
    assert_eq!(chip.registers()[0], 0b1010);
    run(&mut chip, Decoded::Xor(0, 1)).unwrap();
    assert_eq!(chip.registers()[0], 0);
    run(&mut chip, Decoded::MoveXY(2, 1)).unwrap();
    assert_eq!(chip.registers()[2], 0b1010);
}

#[test]
fn engine_decimal_digits() {
    let mut chip = with_regs(&[(5, 156)]);
    run(&mut chip, Decoded::MoveIndex(0x300)).unwrap();
    run(&mut chip, Decoded::Decimal(5)).unwrap();
    assert_eq!(&chip.memory()[0x300..0x303], &[1, 5, 6]);
    let mut chip = with_regs(&[(5, 7)]);
    run(&mut chip, Decoded::MoveIndex(0x300)).unwrap();
    run(&mut chip, Decoded::Decimal(5)).unwrap();
    assert_eq!(&chip.memory()[0x300..0x303], &[0, 0, 7]);
}

#[test]
fn engine_store_load_round_trip() {
    let mut chip = with_regs(&[(0, 0x11), (1, 0x22), (2, 0x33), (3, 0x44), (4, 0x55)]);
    run(&mut chip, Decoded::MoveIndex(0x400)).unwrap();
    run(&mut chip, Decoded::Store(3)).unwrap();
    assert_eq!(&chip.memory()[0x400..0x405], &[0x11, 0x22, 0x33, 0x44, 0]);
    for x in 0..5 {
        run(&mut chip, Decoded::Move(x, 0)).unwrap();
    }
    run(&mut chip, Decoded::Load(3)).unwrap();
    assert_eq!(&chip.registers()[0..5], &[0x11, 0x22, 0x33, 0x44, 0]);
    assert_eq!(chip.index(), 0x400);
}

#[test]
fn engine_store_wraps_around_memory() {
    let mut chip = with_regs(&[(0, 0x12), (1, 0x34)]);
    run(&mut chip, Decoded::MoveIndex(0xFFF)).unwrap();
    run(&mut chip, Decoded::Store(1)).unwrap();
    assert_eq!(chip.memory()[0xFFF], 0x12);
    assert_eq!(chip.memory()[0], 0x34);
    run(&mut chip, Decoded::Jump(0xFFF)).unwrap();
    assert_eq!(chip.next_instruction(), 0x1234);
}

#[test]
fn engine_draw_collision() {
    let mut chip = Chip::new();
    chip.load_rom(vec![0xFF]);
    run(&mut chip, Decoded::MoveIndex(0x200)).unwrap();
    run(&mut chip, Decoded::Move(0, 3)).unwrap();
    run(&mut chip, Decoded::Move(1, 4)).unwrap();
    assert_eq!(run(&mut chip, Decoded::Draw(0, 1, 1)), Ok(Event::Redraw));
    assert_eq!(chip.registers()[0xF], 0);
    for x in 0..64 {
        for y in 0..32 {
            assert_eq!(chip.display().pixel(x, y), y == 4 && (3..11).contains(&x));
        }
    }
    assert_eq!(run(&mut chip, Decoded::Draw(0, 1, 1)), Ok(Event::Redraw));
    assert_eq!(chip.registers()[0xF], 1);
    assert!(chip.display().pixels().iter().all(|p| !*p));
}

#[test]
fn engine_draw_clips_at_edge_and_wraps_origin() {
    let mut chip = Chip::new();
    chip.load_rom(vec![0xFF, 0x81]);
    run(&mut chip, Decoded::MoveIndex(0x200)).unwrap();
    run(&mut chip, Decoded::Move(0, 60)).unwrap();
    run(&mut chip, Decoded::Move(1, 31 + 32)).unwrap();
    run(&mut chip, Decoded::Draw(0, 1, 2)).unwrap();
    let lit: Vec<(usize, usize)> = (0..32)
        .flat_map(|y| (0..64).map(move |x| (x, y)))
        .filter(|(x, y)| chip.display().pixel(*x, *y))
        .collect();
    assert_eq!(lit, vec![(60, 31), (61, 31), (62, 31), (63, 31)]);
}

#[test]
fn engine_clear_screen_then_render() {
    let mut chip = Chip::new();
    chip.load_rom(vec![0xF0]);
    run(&mut chip, Decoded::MoveIndex(0x200)).unwrap();
    run(&mut chip, Decoded::Draw(0, 0, 1)).unwrap();
    let frame = chip.render();
    assert_eq!(frame[0], COLOR_ON);
    assert_eq!(frame[9 * WINDOW_WIDTH + 39], COLOR_ON);
    assert_eq!(frame[40], COLOR_OFF);
    assert_eq!(frame[10 * WINDOW_WIDTH], COLOR_OFF);
    assert_eq!(run(&mut chip, Decoded::ClearScreen), Ok(Event::Redraw));
    assert_eq!(chip.display().pixels().len(), 64 * 32);
    assert!(chip.display().pixels().iter().all(|p| !*p));
    let frame = chip.render();
    assert_eq!(frame.len(), 640 * 320);
    assert!(frame.iter().all(|c| *c == COLOR_OFF));
}

#[test]
fn engine_call_return_round_trip() {
    let mut rom = vec![0u8; 0x102];
    rom[0] = 0x23;
    rom[1] = 0x00;
    rom[0x100] = 0x00;
    rom[0x101] = 0xEE;
    let mut chip = Chip::new();
    chip.load_rom(rom);
    assert_eq!(chip.step(&vec![]), Ok(Event::Continue));
    assert_eq!(chip.pc(), 0x300);
    assert_eq!(chip.stack(), &vec![0x202]);
    assert_eq!(chip.step(&vec![]), Ok(Event::Continue));
    assert_eq!(chip.pc(), 0x202);
    assert!(chip.stack().is_empty());
}

#[test]
fn engine_two_instruction_rom() {
    let mut chip = Chip::new();
    chip.load_rom(vec![0x6A, 0x02, 0x00, 0xEE]);
    assert_eq!(chip.step(&vec![]), Ok(Event::Continue));
    assert_eq!(chip.registers()[0xA], 2);
    assert_eq!(chip.step(&vec![]), Err(Fault::StackUnderflow));
    assert_eq!(chip.pc(), 0x202);
    assert_eq!(chip.registers()[0xA], 2);
}

#[test]
fn engine_illegal_word_stops() {
    let mut chip = Chip::new();
    chip.load_rom(vec![0xB1, 0x23]);
    assert_eq!(chip.step(&vec![]), Err(Fault::IllegalOpcode(0xB123)));
    assert_eq!(chip.pc(), 0x200);
    assert_eq!(run(&mut chip, Decoded::Illegal(0x0001)), Err(Fault::IllegalOpcode(0x0001)));
}

#[test]
fn engine_skips() {
    let mut chip = with_regs(&[(0, 5), (1, 5), (2, 6)]);
    let pc = chip.pc();
    run(&mut chip, Decoded::SkipEqual(0, 5)).unwrap();
    assert_eq!(chip.pc(), pc + 2);
    run(&mut chip, Decoded::SkipEqual(0, 6)).unwrap();
    assert_eq!(chip.pc(), pc + 2);
    run(&mut chip, Decoded::SkipNotEqual(0, 6)).unwrap();
    assert_eq!(chip.pc(), pc + 4);
    run(&mut chip, Decoded::SkipEqualXY(0, 1)).unwrap();
    assert_eq!(chip.pc(), pc + 6);
    run(&mut chip, Decoded::SkipNotEqualXY(0, 1)).unwrap();
    assert_eq!(chip.pc(), pc + 6);
    run(&mut chip, Decoded::SkipNotEqualXY(0, 2)).unwrap();
    assert_eq!(chip.pc(), pc + 8);
}

#[test]
fn engine_keys() {
    let mut chip = with_regs(&[(0, 0x4)]);
    let pc = chip.pc();
    chip.execute(Decoded::SkipKey(0), &vec![Key::X, Key::Q]).unwrap();
    assert_eq!(chip.pc(), pc + 2);
    chip.execute(Decoded::SkipKey(0), &vec![Key::W]).unwrap();
    assert_eq!(chip.pc(), pc + 2);
    chip.execute(Decoded::SkipNotKey(0), &vec![Key::Q]).unwrap();
    assert_eq!(chip.pc(), pc + 2);
    chip.execute(Decoded::SkipNotKey(0), &vec![]).unwrap();
    assert_eq!(chip.pc(), pc + 4);
}

#[test]
fn engine_get_key_waits() {
    let mut chip = Chip::new();
    chip.load_rom(vec![0xF3, 0x0A]);
    assert_eq!(chip.step(&vec![]), Ok(Event::AwaitingKey));
    assert_eq!(chip.pc(), 0x200);
    assert_eq!(chip.step(&vec![Key::V, Key::Key1]), Ok(Event::Continue));
    assert_eq!(chip.pc(), 0x202);
    assert_eq!(chip.registers()[3], 0xF);
}

#[test]
fn engine_random_is_masked() {
    let mut chip = Chip::new();
    assert_eq!(chip.apply(Decoded::Random(2, 0x0F), &vec![], 0xAB, 0), Ok(Event::Continue));
    assert_eq!(chip.registers()[2], 0x0B);
    for _ in 0..50 {
        run(&mut chip, Decoded::Random(2, 0x0F)).unwrap();
        assert_eq!(chip.registers()[2] & 0xF0, 0);
    }
    run(&mut chip, Decoded::Random(2, 0x00)).unwrap();
    assert_eq!(chip.registers()[2], 0);
}

#[test]
fn engine_delay_timer() {
    let mut chip = with_regs(&[(1, 30)]);
    run(&mut chip, Decoded::DelayTimerSet(1)).unwrap();
    run(&mut chip, Decoded::DelayTimerGet(2)).unwrap();
    let v = chip.registers()[2];
    assert!(v <= 30 && v >= 25);
    assert_eq!(chip.apply(Decoded::DelayTimerGet(4), &vec![], 0, 17), Ok(Event::Continue));
    assert_eq!(chip.registers()[4], 17);
    run(&mut chip, Decoded::SetSoundTimer(1)).unwrap();
    assert_eq!(chip.registers()[1], 30);
}

#[test]
fn engine_index_ops() {
    let mut chip = with_regs(&[(0, 0x1A), (1, 0x10)]);
    run(&mut chip, Decoded::FontChar(0)).unwrap();
    assert_eq!(chip.index(), 50);
    run(&mut chip, Decoded::AddIndex(1)).unwrap();
    assert_eq!(chip.index(), 66);
    run(&mut chip, Decoded::MoveIndex(0xFFF)).unwrap();
    run(&mut chip, Decoded::AddIndex(1)).unwrap();
    assert_eq!(chip.index(), 0x100F);
}

#[test]
fn engine_jump_and_font() {
    let mut chip = Chip::new();
    chip.load_font();
    assert_eq!(&chip.memory()[0..5], &[0xF0, 0x90, 0x90, 0x90, 0xF0]);
    assert_eq!(&chip.memory()[75..80], &[0xF0, 0x80, 0xF0, 0x80, 0x80]);
    assert_eq!(chip.memory()[80], 0);
    run(&mut chip, Decoded::Jump(0x345)).unwrap();
    assert_eq!(chip.pc(), 0x345);
    run(&mut chip, Decoded::Call(0x500)).unwrap();
    assert_eq!(chip.stack(), &vec![0x345]);
    assert_eq!(chip.pc(), 0x500);
}
