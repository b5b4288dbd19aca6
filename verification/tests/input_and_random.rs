//! The random generator, input tokenization and the dictionary lookup
//! driven through the machine.

use rusty_z::instruction_set;
use rusty_z::memory_view::MemoryView;
use rusty_z::opcode::{OpCode, Operand};
use rusty_z::zmachine::{MachineState, ZMachine};
use rusty_z::zstring::{ZString, ZWord};

fn build_image() -> Vec<u8> {
    let mut data = vec![0u8; 0x3000];
    data[0x00] = 3;
    data[0x06] = 0x10;
    data[0x08] = 0x04;
    data[0x0A] = 0x03;
    data[0x0C] = 0x01;
    data[0x0E] = 0x20;
    data[0x18] = 0x05;
    data
}

/// Writes a small sorted dictionary at 0x400: no input codes, entry length
/// 6, the given encoded words.
fn write_dictionary(data: &mut Vec<u8>, words: &[&str]) {
    let mut entries: Vec<[u8; 4]> = Vec::new();
    for w in words {
        let chars: Vec<char> = w.chars().collect();
        match ZString::encode_word(&chars, 3) {
            ZWord::V3 { encoded, .. } => {
                entries.push([
                    (encoded[0] >> 8) as u8,
                    encoded[0] as u8,
                    (encoded[1] >> 8) as u8,
                    encoded[1] as u8,
                ]);
            }
            _ => panic!("expected the two-word form"),
        }
    }
    entries.sort();
    data[0x400] = 0; // no input codes
    data[0x401] = 6; // entry length
    data[0x402] = 0;
    data[0x403] = entries.len() as u8;
    for (j, e) in entries.iter().enumerate() {
        let base = 0x404 + 6 * j;
        data[base..base + 4].copy_from_slice(e);
    }
}

fn op1(a: u16) -> OpCode {
    let mut code = OpCode::form_base_opcode();
    code.operands[0] = Operand::LargeConstant { value: a };
    code.operand_count = 1;
    code
}

/// `random 0` re-randomizes and stores 0; subsequent positive draws stay in
/// `[1, r]`.
#[test]
fn random_zero_rerandomizes() {
    let mut m = ZMachine::new(build_image()).unwrap();
    let mut code = op1(0);
    instruction_set::random(&mut code, &mut m).unwrap();
    assert!(code.store);
    assert_eq!(code.result, 0);
    assert!(!m.random_generator.randoms_predictable);
    for _ in 0..50 {
        let mut draw = op1(10);
        instruction_set::random(&mut draw, &mut m).unwrap();
        assert!(draw.result >= 1 && draw.result <= 10);
    }
}

/// Seeded predictable mode with seed 3 yields 1, 2, 3, 1, 2, 3 for any
/// later range of at least 3.
#[test]
fn predictable_mode_cycles() {
    let mut m = ZMachine::new(build_image()).unwrap();
    let mut seed = op1((-3i16) as u16);
    instruction_set::random(&mut seed, &mut m).unwrap();
    assert_eq!(seed.result, 0);
    assert!(m.random_generator.randoms_predictable);
    let mut values = Vec::new();
    for _ in 0..6 {
        let mut draw = op1(5);
        instruction_set::random(&mut draw, &mut m).unwrap();
        values.push(draw.result);
    }
    assert_eq!(values, vec![1, 2, 3, 1, 2, 3]);
}

/// A large negative operand seeds the deterministic pseudo-random mode.
#[test]
fn large_seed_is_deterministic_mode() {
    let mut m = ZMachine::new(build_image()).unwrap();
    let mut seed = op1((-2000i16) as u16);
    instruction_set::random(&mut seed, &mut m).unwrap();
    assert_eq!(seed.result, 0);
    assert!(!m.random_generator.randoms_predictable);
    assert_eq!(m.random_generator.random_seed, 2000);
}

/// `sread` suspends the machine carrying the buffer addresses; delivering a
/// line lower-cases and trims it, writes it to the text buffer, and
/// tokenizes it into the parse buffer with dictionary addresses.
#[test]
fn sread_tokenizes_input() {
    let mut data = build_image();
    write_dictionary(&mut data, &["hello", "maze"]);
    // Global 0 names the status object; give object 1 an empty short name.
    data[0x100] = 0;
    data[0x101] = 1;
    let obj1 = 0x300 + 62;
    data[obj1 + 7] = 0x07;
    data[obj1 + 8] = 0x00;
    // Short name: one word of shift characters (an empty name).
    data[0x700] = 1;
    data[0x701] = 0x94;
    data[0x702] = 0xA5;
    // Text buffer at 0x900 (max 40), parse buffer at 0x950 (max 5).
    data[0x900] = 40;
    data[0x950] = 5;
    // sread 0x0900 0x0950 at the initial program counter.
    let code = [0xE4, 0x0F, 0x09, 0x00, 0x09, 0x50];
    for (i, b) in code.iter().enumerate() {
        data[0x1000 + i] = *b;
    }
    let mut m = ZMachine::new(data).unwrap();
    m.next_instruction().unwrap();
    assert_eq!(
        m.state,
        MachineState::TakingInput {
            text_buffer: 0x900,
            parse_buffer: 0x950
        }
    );
    let line: Vec<u8> = b"Hello xyzzy  ".to_vec();
    m.wait_for_input(&line).unwrap();
    assert_eq!(m.state, MachineState::Running);
    // The text buffer holds the lower-cased words, single-spaced.
    assert_eq!(&m.memory[0x901..0x901 + 12], b"hello xyzzy ");
    // Two tokens.
    assert_eq!(m.memory[0x951], 2);
    // First record: a real dictionary address, length 5, column 1.
    let rec0 = 0x952;
    let addr0 = ((m.memory[rec0] as u16) << 8) | m.memory[rec0 + 1] as u16;
    assert!(addr0 as usize >= 0x404 && (addr0 as usize) < 0x404 + 12);
    assert_eq!(m.memory[rec0 + 2], 5);
    assert_eq!(m.memory[rec0 + 3], 1);
    // Second record: unknown word, address 0, length 5, column 7.
    let rec1 = 0x956;
    assert_eq!(m.memory[rec1], 0);
    assert_eq!(m.memory[rec1 + 1], 0);
    assert_eq!(m.memory[rec1 + 2], 5);
    assert_eq!(m.memory[rec1 + 3], 7);
}

/// The dictionary lookup finds present words at their entry address and
/// misses absent ones.
#[test]
fn dictionary_binary_search() {
    let mut data = build_image();
    write_dictionary(&mut data, &["apple", "hello", "maze", "zebra"]);
    let dict = MemoryView { pointer: 0x400 };
    let lookup = |data: &Vec<u8>, s: &str| {
        let chars: Vec<char> = s.chars().collect();
        let z = ZString::encode_word(&chars, 3);
        instruction_set::sread_find_word_in_dictionary(&z, &dict, data).unwrap()
    };
    assert!(lookup(&data, "hello").is_some());
    assert!(lookup(&data, "apple").is_some());
    assert!(lookup(&data, "zebra").is_some());
    assert_eq!(lookup(&data, "plugh"), None);
    // The hit names the real entry: its first four bytes are the encoding.
    let a = lookup(&data, "maze").unwrap() as usize;
    let chars: Vec<char> = "maze".chars().collect();
    if let ZWord::V3 { encoded, .. } = ZString::encode_word(&chars, 3) {
        assert_eq!(m_u16(&data, a), encoded[0]);
        assert_eq!(m_u16(&data, a + 2), encoded[1]);
    }
}

fn m_u16(data: &Vec<u8>, a: usize) -> u16 {
    ((data[a] as u16) << 8) | data[a + 1] as u16
}

/// An over-long line is discarded: the machine resumes without writing.
#[test]
fn overlong_input_is_discarded() {
    let mut data = build_image();
    data[0x900] = 4; // tiny text buffer
    data[0x950] = 5;
    let code = [0xE4, 0x0F, 0x09, 0x00, 0x09, 0x50];
    for (i, b) in code.iter().enumerate() {
        data[0x1000 + i] = *b;
    }
    data[0x100] = 0;
    data[0x101] = 1;
    let obj1 = 0x300 + 62;
    data[obj1 + 7] = 0x07;
    data[0x700] = 1;
    data[0x701] = 0x94;
    data[0x702] = 0xA5;
    let mut m = ZMachine::new(data).unwrap();
    m.next_instruction().unwrap();
    let line: Vec<u8> = b"much too long".to_vec();
    m.wait_for_input(&line).unwrap();
    assert_eq!(m.state, MachineState::Running);
    assert_eq!(m.memory[0x901], 0);
}

/// `show_status` composes score and turns from globals 1 and 2.
#[test]
fn show_status_composes_line() {
    let mut data = build_image();
    data[0x100] = 0;
    data[0x101] = 1; // global 0: object 1
    data[0x102] = 0;
    data[0x103] = 42; // global 1: score
    data[0x104] = 0;
    data[0x105] = 7; // global 2: turns
    let obj1 = 0x300 + 62;
    data[obj1 + 7] = 0x07;
    data[obj1 + 8] = 0x00;
    data[0x700] = 1;
    data[0x701] = 0x94;
    data[0x702] = 0xA5;
    let mut m = ZMachine::new(data).unwrap();
    let mut code = OpCode::form_base_opcode();
    instruction_set::show_status(&mut code, &mut m).unwrap();
    let right: String = m.status_right.iter().collect();
    assert_eq!(right, "Score: 42 Turns: 7");
}

/// The header records the story version and the transcripting bit tracks
/// the image byte.
#[test]
fn header_fields_and_bits() {
    let mut data = build_image();
    data[0x10] = 0x01;
    let m = ZMachine::new(data).unwrap();
    assert_eq!(m.get_version(), 3);
    assert_eq!(m.header.pc_start, 0x1000);
    assert_eq!(m.header.dictionary_location, 0x400);
    assert!(m.header.transcripting(&m.memory));
    assert!(!m.header.fixed_font(&m.memory));
}
