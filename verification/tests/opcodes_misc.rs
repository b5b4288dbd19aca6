//! Remaining opcode behavior and the small utility surface.

use rusty_z::instruction_set;
use rusty_z::object_view::ObjectView;
use rusty_z::utility::MemoryTools;
use rusty_z::zinterface::LoopState;
use rusty_z::zmachine::ZMachine;

fn build_image() -> Vec<u8> {
    let mut data = vec![0u8; 0x3000];
    data[0x00] = 3;
    data[0x06] = 0x10;
    data[0x08] = 0x04;
    data[0x0A] = 0x03;
    data[0x0C] = 0x01;
    data[0x0E] = 0x20;
    data[0x18] = 0x05;
    data
}

fn machine_with(code: &[u8], at: usize) -> ZMachine {
    let mut data = build_image();
    for (i, b) in code.iter().enumerate() {
        data[at + i] = *b;
    }
    ZMachine::new(data).unwrap()
}

/// `and`, `or` and `test` work bitwise; `test` passes only when every mask
/// bit of the second operand is present in the first.
#[test]
fn bitwise_and_test() {
    // and #0F #3C -> L1 ; or #0F #30 -> L2 ;
    // test #3C #0C branch-on-true offset 5.
    let mut machine = machine_with(
        &[
            0x09, 0x0F, 0x3C, 0x01, // and
            0x08, 0x0F, 0x30, 0x02, // or
            0x07, 0x3C, 0x0C, 0xC5, // test, taken
        ],
        0x1000,
    );
    machine.call_stack.stack = vec![0, 0, 0];
    machine.call_stack.top_of_frame = 0;
    machine.next_instruction().unwrap();
    assert_eq!(machine.call_stack.stack[1], 0x0C);
    machine.next_instruction().unwrap();
    assert_eq!(machine.call_stack.stack[2], 0x3F);
    machine.next_instruction().unwrap();
    assert_eq!(machine.current_ip(), 0x1008 + 3 + 1 + 5 - 2);
}

/// `push`, `pull` and `pop` move values through the evaluation stack, and
/// `store`/`load` write and read variables in place.
#[test]
fn stack_and_variable_traffic() {
    // push #07 ; push #09 ; pop ; pull L1 ; store L2 #2A ; load V:2 -> L3.
    let mut machine = machine_with(
        &[
            0xE8, 0x7F, 0x07, // push 7
            0xE8, 0x7F, 0x09, // push 9
            0xB9, // pop
            0xE9, 0x7F, 0x01, // pull L1
            0x0D, 0x02, 0x2A, // store L2, 42
            0x9E, 0x02, 0x03, // load L2 -> L3
        ],
        0x1000,
    );
    machine.call_stack.stack = vec![0, 0, 0, 0];
    machine.call_stack.top_of_frame = 0;
    machine.next_instruction().unwrap();
    machine.next_instruction().unwrap();
    assert_eq!(machine.call_stack.stack.len(), 6);
    machine.next_instruction().unwrap();
    assert_eq!(machine.call_stack.stack.len(), 5);
    machine.next_instruction().unwrap();
    assert_eq!(machine.call_stack.stack.len(), 4);
    assert_eq!(machine.call_stack.stack[1], 7);
    machine.next_instruction().unwrap();
    assert_eq!(machine.call_stack.stack[2], 42);
    machine.next_instruction().unwrap();
    assert_eq!(machine.call_stack.stack[3], 42);
}

/// An inline `print` appends the decoded text and resumes after the
/// Z-string.
#[test]
fn inline_print() {
    // print "aqa" (one word with the end bit), then quit.
    let mut machine = machine_with(&[0xB2, 0x9A, 0xC6, 0xBA], 0x1000);
    machine.next_instruction().unwrap();
    let text: String = machine.output.iter().collect();
    assert_eq!(text, "aqa");
    assert_eq!(machine.current_ip(), 0x1003);
    machine.next_instruction().unwrap();
}

/// `print_char` and `new_line` append single characters.
#[test]
fn print_char_and_newline() {
    // print_char 'Z' (ZSCII 90), then new_line.
    let mut machine = machine_with(&[0xE5, 0x7F, 0x5A, 0xBB], 0x1000);
    machine.next_instruction().unwrap();
    machine.next_instruction().unwrap();
    let text: String = machine.output.iter().collect();
    assert_eq!(text, "Z\n");
}

/// `inc_chk` branches once the variable passes the bound.
#[test]
fn inc_chk_branches_after_increment() {
    // inc_chk L1, #05 with branch-on-true offset 6: L1 starts at 5, so
    // the increment reaches 6 > 5 and branches.
    let mut machine = machine_with(&[0x05, 0x01, 0x05, 0xC6], 0x1000);
    machine.call_stack.stack = vec![0, 5];
    machine.call_stack.top_of_frame = 0;
    machine.next_instruction().unwrap();
    assert_eq!(machine.call_stack.stack[1], 6);
    assert_eq!(machine.current_ip(), 0x1004 + 6 - 2);
}

/// Signed 16-bit arithmetic wraps two's-complement.
#[test]
fn arithmetic_wraps() {
    // add #7FFF (large) #01 -> L1, in the variable encoding of the
    // two-operand form: D4 1F 7F FF 01 01.
    let mut machine = machine_with(&[0xD4, 0x1F, 0x7F, 0xFF, 0x01, 0x01], 0x1000);
    machine.call_stack.stack = vec![0, 0];
    machine.call_stack.top_of_frame = 0;
    machine.next_instruction().unwrap();
    assert_eq!(machine.call_stack.stack[1], 0x8000);
}

/// The word helper reads big-endian.
#[test]
fn memory_tools_reads_big_endian() {
    let buf = [0x12u8, 0x34, 0x56];
    assert_eq!(MemoryTools::get_u16_at_position(&buf, 0), 0x1234);
    assert_eq!(MemoryTools::get_u16_at_position(&buf, 1), 0x3456);
}

/// The bit helpers count from the least significant bit.
#[test]
fn bit_helpers() {
    assert!(ObjectView::is_bit_set(0, 0x01));
    assert!(!ObjectView::is_bit_set(1, 0x01));
    assert!(ObjectView::is_bit_set_in_u16(15, 0x8000));
    assert!(ObjectView::is_bit_set_in_u32(31, 0x8000_0000));
    assert!(!ObjectView::is_bit_set_in_u32(30, 0x8000_0000));
}

/// The loop-state byte decodes back to its variant, with unknown bytes as
/// errors.
#[test]
fn loop_state_from_byte() {
    assert!(matches!(LoopState::from(0), LoopState::Running));
    assert!(matches!(LoopState::from(1), LoopState::Restarting));
    assert!(matches!(LoopState::from(2), LoopState::Quitting));
    assert!(matches!(LoopState::from(9), LoopState::Error));
}

/// The input cleaner lower-cases and trims; the splitter returns the
/// whitespace-free runs.
#[test]
fn cleaning_and_splitting() {
    let cleaned = instruction_set::lowercase_and_trim(&b"  Take LAMP \r\n".to_vec());
    assert_eq!(cleaned, b"  take lamp".to_vec());
    let words = instruction_set::split_words(&cleaned);
    assert_eq!(words, vec![b"take".to_vec(), b"lamp".to_vec()]);
}

/// The header dump names every parsed field.
#[test]
fn header_status_dump() {
    let machine = ZMachine::new(build_image()).unwrap();
    let dump: String = machine.header.get_status().iter().collect();
    assert!(dump.contains("version: 3"));
    assert!(dump.contains("dictionary: 1024"));
}
