use chip8::machine::{add_with_carry, double, halve, key_is_down, subtract};
use chip8::{
    Chip8Error, HostReply, HostRequest, Machine, RandomSource, RngWrapper, SeededRng, DEFAULT_FONT,
};

fn bytes(words: &[u16]) -> Vec<u8> {
    let mut out = Vec::new();
    for word in words {
        out.push((word >> 8) as u8);
        out.push((word & 0xFF) as u8);
    }
    out
}

fn loaded(words: &[u16]) -> Machine {
    let mut machine = Machine::new();
    assert_eq!(machine.initialize(&bytes(words), &DEFAULT_FONT), Ok(()));
    machine
}

#[test]
fn a_new_machine_is_blank() {
    let machine = Machine::new();
    assert_eq!(machine.pc(), 0);
    assert_eq!(machine.index(), 0);
    assert_eq!(machine.registers(), [0u8; 16]);
    assert_eq!(machine.stack_depth(), 0);
    assert_eq!(machine.fault(), None);
    assert_eq!(machine.memory().len(), 4096);
    assert!(machine.memory().iter().all(|b| *b == 0));
}

#[test]
fn a_blank_machine_meets_an_invalid_instruction() {
    let mut machine = Machine::new();
    assert_eq!(machine.pending(), HostRequest::Nothing);
    assert_eq!(machine.step(HostReply::Nothing), Err(Chip8Error::InvalidInstruction));
    assert_eq!(machine.pc(), 2);
}

#[test]
fn pending_names_what_the_host_is_asked_for() {
    assert_eq!(loaded(&[0x00E0]).pending(), HostRequest::ClearDisplay);
    assert_eq!(loaded(&[0xE09E]).pending(), HostRequest::ReadKey);
    assert_eq!(loaded(&[0xE0A1]).pending(), HostRequest::ReadKey);
    assert_eq!(loaded(&[0xF00A]).pending(), HostRequest::ReadKey);
    assert_eq!(loaded(&[0xF007]).pending(), HostRequest::ReadDelayTimer);
    assert_eq!(loaded(&[0xC0FF]).pending(), HostRequest::RandomByte);
    assert_eq!(loaded(&[0x6001]).pending(), HostRequest::Nothing);
    assert_eq!(loaded(&[0x8014]).pending(), HostRequest::Nothing);
    assert_eq!(loaded(&[0xFFFF]).pending(), HostRequest::Nothing);
}

#[test]
fn pending_hands_out_register_values() {
    let mut machine = loaded(&[0x6A2A, 0xFA15, 0xFA18]);
    assert_eq!(machine.step(HostReply::Nothing), Ok(()));
    assert_eq!(machine.pending(), HostRequest::SetDelayTimer { value: 0x2A });
    assert_eq!(machine.step(HostReply::Nothing), Ok(()));
    assert_eq!(machine.pending(), HostRequest::StartSound { value: 0x2A });
}

#[test]
fn pending_hands_out_the_sprite_and_its_place() {
    let mut machine = loaded(&[0x6105, 0x6209, 0xA055, 0xD123]);
    for _ in 0..3 {
        assert_eq!(machine.step(HostReply::Nothing), Ok(()));
    }
    assert_eq!(
        machine.pending(),
        HostRequest::Draw { sprite: vec![0x20, 0x60, 0x20], x: 5, y: 9 }
    );
    // asking changes nothing
    assert_eq!(machine.pc(), 0x206);
    assert_eq!(
        machine.pending(),
        HostRequest::Draw { sprite: vec![0x20, 0x60, 0x20], x: 5, y: 9 }
    );
}

#[test]
fn a_stopped_machine_asks_nothing() {
    let mut machine = loaded(&[0x0000, 0x00E0]);
    assert_eq!(machine.step(HostReply::Nothing), Err(Chip8Error::InvalidInstruction));
    assert_eq!(machine.pending(), HostRequest::Nothing);
    let mut machine = loaded(&[0x1FFF]);
    assert_eq!(machine.step(HostReply::Nothing), Ok(()));
    assert_eq!(machine.pending(), HostRequest::Nothing);
}

#[test]
fn step_takes_the_hosts_answer() {
    let mut machine = loaded(&[0xD001, 0xD001, 0xC10F, 0xF207, 0xF30A]);
    assert_eq!(machine.step(HostReply::Collision(true)), Ok(()));
    assert_eq!(machine.registers()[0xF], 1);
    assert_eq!(machine.step(HostReply::Collision(false)), Ok(()));
    assert_eq!(machine.registers()[0xF], 0);
    assert_eq!(machine.step(HostReply::Byte(0xAB)), Ok(()));
    assert_eq!(machine.registers()[1], 0x0B);
    assert_eq!(machine.step(HostReply::Byte(0x33)), Ok(()));
    assert_eq!(machine.registers()[2], 0x33);
    assert_eq!(machine.step(HostReply::Key(Some(9))), Ok(()));
    assert_eq!(machine.registers()[3], 9);
    assert_eq!(machine.pc(), 0x20A);
}

#[test]
fn an_answer_of_the_wrong_kind_counts_as_none() {
    let mut machine = loaded(&[0x6F01, 0xD001, 0x6155, 0xC1FF, 0xF10A]);
    assert_eq!(machine.step(HostReply::Nothing), Ok(()));
    assert_eq!(machine.step(HostReply::Byte(1)), Ok(()));
    assert_eq!(machine.registers()[0xF], 0);
    assert_eq!(machine.step(HostReply::Nothing), Ok(()));
    assert_eq!(machine.step(HostReply::Key(Some(3))), Ok(()));
    assert_eq!(machine.registers()[1], 0);
    assert_eq!(machine.step(HostReply::Byte(7)), Ok(()));
    assert_eq!(machine.pc(), 0x208);
}

#[test]
fn byte_arithmetic() {
    assert_eq!(add_with_carry(0xFF, 0x01), (0x00, 1));
    assert_eq!(add_with_carry(0x10, 0x20), (0x30, 0));
    assert_eq!(add_with_carry(0xFF, 0xFF), (0xFE, 1));
    assert_eq!(add_with_carry(0x80, 0x7F), (0xFF, 0));
    assert_eq!(subtract(10, 5), (5, 1));
    assert_eq!(subtract(5, 10), (251, 0));
    assert_eq!(subtract(7, 7), (0, 0));
    assert_eq!(subtract(0, 1), (255, 0));
    assert_eq!(halve(5), (2, 1));
    assert_eq!(halve(4), (2, 0));
    assert_eq!(halve(0xFF), (0x7F, 1));
    assert_eq!(double(0x81), (0x02, 0x80));
    assert_eq!(double(0x41), (0x82, 0x00));
    assert_eq!(double(0xFF), (0xFE, 0x80));
}

#[test]
fn a_key_is_down_only_if_the_reply_names_it() {
    assert!(key_is_down(HostReply::Key(Some(7)), 7));
    assert!(key_is_down(HostReply::Key(Some(7)), 0xF7));
    assert!(!key_is_down(HostReply::Key(Some(8)), 7));
    assert!(!key_is_down(HostReply::Key(None), 0));
    assert!(!key_is_down(HostReply::Nothing, 0));
    assert!(!key_is_down(HostReply::Byte(7), 7));
    // a keypad that reports more than a nibble names no key
    assert!(!key_is_down(HostReply::Key(Some(0x17)), 0x17));
}

#[test]
fn the_seeded_generator_repeats_itself() {
    let mut rng = SeededRng::new(0);
    assert_eq!(rng.next_byte(), 0x14);
    assert_eq!(rng.next_byte(), 0x5D);
    assert_eq!(rng.next_byte(), 0x40);
    assert_eq!(rng.next_byte(), 0xA8);
    let mut rng = SeededRng::new(42);
    let first: Vec<u8> = (0..4).map(|_| rng.next_byte()).collect();
    assert_eq!(first, vec![0x91, 0xAA, 0xE3, 0x3A]);
    let mut again = SeededRng::new(42);
    let second: Vec<u8> = (0..4).map(|_| again.next_byte()).collect();
    assert_eq!(first, second);
}

#[test]
fn the_thread_generator_gives_varying_bytes() {
    let mut state = chip8::State::new(
        chip8::DebugDisplay { ret: false, width: 64, height: 32 },
        chip8::DebugTimer { value: 0 },
        chip8::DebugBeeper { value: 0 },
        chip8::DebugKeypad { currently_pressed: None },
    );
    let rng: &mut RngWrapper = &mut state.rng;
    let draws: Vec<u8> = (0..256).map(|_| rng.next_byte()).collect();
    assert!(draws.iter().any(|b| *b != draws[0]));
}

#[test]
fn the_program_counter_and_index_stay_in_their_bounds() {
    // an endless loop of index arithmetic, skips and indexed jumps
    let mut machine = loaded(&[0x60FF, 0xAFFF, 0xF01E, 0x3000, 0xF01E, 0xBF00]);
    for _ in 0..64 {
        let before = machine.pc();
        let result = machine.step(HostReply::Nothing);
        assert!((machine.index() as usize) < 4096);
        assert!(machine.pc() <= 0x10FE);
        if result.is_ok() {
            assert!(before + 1 < 4096);
        }
    }
}

struct Countdown {
    left: u8,
}

impl chip8::Timer for Countdown {
    fn set(&mut self, val: u8) {
        self.left = val;
    }

    fn get(&self) -> u8 {
        self.left
    }
}

struct Counter {
    next: u8,
}

impl RandomSource for Counter {
    fn next_byte(&mut self) -> u8 {
        self.next = self.next.wrapping_add(1);
        self.next
    }
}

#[test]
fn a_host_can_bring_its_own_devices() {
    let mut state = chip8::State::with_rng(
        chip8::DisplayBuffer::new(),
        Countdown { left: 0 },
        chip8::DebugBeeper { value: 0 },
        chip8::DebugKeypad { currently_pressed: None },
        Counter { next: 0x0F },
    );
    assert_eq!(state.initialize(&bytes(&[0x6009, 0xF015, 0xF107, 0xC2FF, 0xC3FF]), &[]), Ok(()));
    assert_eq!(state.execute(), Ok(()));
    assert_eq!(state.execute(), Ok(()));
    assert_eq!(state.delay_timer.left, 9);
    state.delay_timer.left -= 1;
    assert_eq!(state.execute(), Ok(()));
    assert_eq!(state.machine.registers()[1], 8);
    assert_eq!(state.execute(), Ok(()));
    assert_eq!(state.execute(), Ok(()));
    assert_eq!(state.machine.registers()[2], 0x10);
    assert_eq!(state.machine.registers()[3], 0x11);
}

fn loaded_with(quirks: chip8::Quirks, words: &[u16]) -> Machine {
    let mut machine = Machine::with_quirks(quirks);
    assert_eq!(machine.initialize(&bytes(words), &DEFAULT_FONT), Ok(()));
    machine
}

fn steps(machine: &mut Machine, count: usize) {
    for _ in 0..count {
        assert_eq!(machine.step(HostReply::Nothing), Ok(()));
    }
}

#[test]
fn the_usual_choices_are_the_default() {
    let usual = chip8::Quirks::default();
    assert!(!usual.shift_reads_vy);
    assert!(!usual.memory_moves_index);
    assert!(!usual.jump_adds_vx);
    assert_eq!(Machine::new().quirks(), usual);
}

#[test]
fn a_machine_keeps_its_choices_when_it_is_loaded() {
    let quirks =
        chip8::Quirks { shift_reads_vy: true, memory_moves_index: false, jump_adds_vx: true };
    let mut machine = Machine::with_quirks(quirks);
    assert_eq!(machine.quirks(), quirks);
    assert_eq!(machine.initialize(&[0x00, 0xE0], &DEFAULT_FONT), Ok(()));
    assert_eq!(machine.quirks(), quirks);
    assert_eq!(machine.pc(), 0x200);
}

#[test]
fn shifts_can_read_vy() {
    let quirks = chip8::Quirks { shift_reads_vy: true, ..chip8::Quirks::default() };
    let mut machine = loaded_with(quirks, &[0x6004, 0x6107, 0x8016]);
    steps(&mut machine, 3);
    assert_eq!(machine.registers()[0], 3);
    assert_eq!(machine.registers()[1], 7);
    assert_eq!(machine.registers()[0xF], 1);
    let mut machine = loaded_with(quirks, &[0x6001, 0x61C0, 0x801E]);
    steps(&mut machine, 3);
    assert_eq!(machine.registers()[0], 0x80);
    assert_eq!(machine.registers()[1], 0xC0);
    assert_eq!(machine.registers()[0xF], 0x80);
}

#[test]
fn storing_and_loading_can_move_the_index() {
    let quirks = chip8::Quirks { memory_moves_index: true, ..chip8::Quirks::default() };
    let mut machine = loaded_with(quirks, &[0x6011, 0x6122, 0xA400, 0xF155, 0xA400, 0xF165]);
    steps(&mut machine, 4);
    assert_eq!(&machine.memory()[0x400..0x402], &[0x11, 0x22]);
    assert_eq!(machine.index(), 0x402);
    steps(&mut machine, 2);
    assert_eq!(machine.index(), 0x402);
    assert_eq!(&machine.registers()[0..2], &[0x11, 0x22]);
    // the index wraps like every address
    let mut machine = loaded_with(quirks, &[0xAFFF, 0xF155]);
    steps(&mut machine, 2);
    assert_eq!(machine.index(), 0x001);
}

#[test]
fn the_indexed_jump_can_add_vx() {
    let quirks = chip8::Quirks { jump_adds_vx: true, ..chip8::Quirks::default() };
    let mut machine = loaded_with(quirks, &[0x6001, 0x6310, 0xB320]);
    steps(&mut machine, 3);
    assert_eq!(machine.pc(), 0x330);
    let mut machine = loaded(&[0x6001, 0x6310, 0xB320]);
    steps(&mut machine, 3);
    assert_eq!(machine.pc(), 0x321);
}
