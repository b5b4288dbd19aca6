//! End-to-end instruction scenarios: decode, execute, trailers, call and
//! return.

use rusty_z::opcode::{OpCode, OpForm, Operand};
use rusty_z::zmachine::{MachineState, ZMachine};
use rusty_z::FatalError;

/// A minimal valid story image: version 3, globals at 0x100, object table
/// at 0x300, dictionary at 0x400, abbreviations at 0x500, initial PC 0x1000.
fn build_image() -> Vec<u8> {
    let mut data = vec![0u8; 0x3000];
    data[0x00] = 3;
    data[0x01] = 0;
    data[0x06] = 0x10;
    data[0x07] = 0x00;
    data[0x08] = 0x04;
    data[0x09] = 0x00;
    data[0x0A] = 0x03;
    data[0x0B] = 0x00;
    data[0x0C] = 0x01;
    data[0x0D] = 0x00;
    data[0x0E] = 0x20;
    data[0x0F] = 0x00;
    data[0x18] = 0x05;
    data[0x19] = 0x00;
    data
}

fn machine_with(code: &[u8], at: usize) -> ZMachine {
    let mut data = build_image();
    for (i, b) in code.iter().enumerate() {
        data[at + i] = *b;
    }
    ZMachine::new(data).unwrap()
}

/// Arithmetic store: `add #1 #2 -> L5` (long form, two small constants).
/// With all locals zero, local 5 holds 3 afterwards and the program counter
/// sits just past the destination byte.
#[test]
fn arithmetic_store() {
    let mut machine = machine_with(&[0x14, 0x01, 0x02, 0x05], 0x1000);
    machine.call_stack.stack = vec![0, 0, 0, 0, 0, 0];
    machine.call_stack.top_of_frame = 0;
    machine.next_instruction().unwrap();
    assert_eq!(machine.call_stack.stack[5], 3);
    assert_eq!(machine.current_ip(), 0x1004);
}

/// Variable-form `je` with branch-on-true and a one-byte offset: comparing
/// a global, a local and a small constant that are all 5 takes the branch
/// to `PC_after_branch + 3 - 2`.
#[test]
fn variable_je_branch_on_true() {
    // C1 = 2OP je in variable form; type byte A7 = variable, variable,
    // small; operands: global 0xAB, local 5, constant 5; branch byte
    // 0x80 (on true) | 0x40 (one byte) | 0x03.
    let mut machine = machine_with(&[0xC1, 0xA7, 0xAB, 0x05, 0x05, 0xC3], 0x1000);
    machine.call_stack.stack = vec![0, 0, 0, 0, 0, 5];
    machine.call_stack.top_of_frame = 0;
    // Global number 0xAB - 0x10 = 0x9B lives at 0x100 + 2 * 0x9B.
    let g = 0x100 + 2 * 0x9B;
    machine.memory[g] = 0;
    machine.memory[g + 1] = 5;
    machine.next_instruction().unwrap();
    assert_eq!(machine.current_ip(), 0x1000 + 6 + 3 - 2);
}

/// A `je` that fails its comparison steps past the two branch bytes.
#[test]
fn je_not_taken_skips_branch_bytes() {
    // je #5 #6 with a two-byte branch-on-true trailer.
    let mut machine = machine_with(&[0x01, 0x05, 0x06, 0x80, 0x10], 0x1000);
    machine.next_instruction().unwrap();
    assert_eq!(machine.current_ip(), 0x1005);
}

/// Call with one argument: routine at packed 0x0800 (byte 0x1000) with two
/// locals defaulting to 0 and 0x000A.  After the call the return state is
/// on the stack, the frame pointer covers it, local 1 holds the argument,
/// local 2 its default, and the counter sits on the routine body.
#[test]
fn call_with_one_argument() {
    let mut machine = machine_with(&[0xE0, 0x0F, 0x08, 0x00, 0x00, 0x2A, 0x02], 0x2000);
    // Routine header: two locals, defaults 0x0000 and 0x000A.
    machine.memory[0x1000] = 0x02;
    machine.memory[0x1001] = 0x00;
    machine.memory[0x1002] = 0x00;
    machine.memory[0x1003] = 0x00;
    machine.memory[0x1004] = 0x0A;
    // A surrounding caller frame with two locals of its own.
    machine.call_stack.stack = vec![0x1111, 0x2222, 0x3333, 0, 7, 8];
    machine.call_stack.top_of_frame = 3;
    machine.ip = 0x2000;
    machine.next_instruction().unwrap();
    assert_eq!(machine.current_ip(), 0x1005);
    let stack = &machine.call_stack.stack;
    assert_eq!(stack.len(), 12);
    // Saved return state: PC halves of 0x2000, six consumed bytes, and the
    // caller's frame pointer.
    assert_eq!(stack[6], 0x2000);
    assert_eq!(stack[7], 0x0000);
    assert_eq!(stack[8], 6);
    assert_eq!(stack[9], 3);
    assert_eq!(machine.call_stack.top_of_frame, 9);
    // Callee locals: the argument, then the remaining default.
    assert_eq!(stack[10], 0x2A);
    assert_eq!(stack[11], 0x000A);
}

/// Return: executing `rtrue` inside the frame of the previous scenario
/// stores 1 in the caller's local 2, resumes at 0x2007, and restores the
/// stack.
#[test]
fn return_restores_caller() {
    let mut machine = machine_with(&[0xE0, 0x0F, 0x08, 0x00, 0x00, 0x2A, 0x02], 0x2000);
    machine.memory[0x1000] = 0x02;
    machine.memory[0x1004] = 0x0A;
    machine.memory[0x1005] = 0xB0; // rtrue
    machine.call_stack.stack = vec![0x1111, 0x2222, 0x3333, 0, 7, 8];
    machine.call_stack.top_of_frame = 3;
    machine.ip = 0x2000;
    machine.next_instruction().unwrap();
    machine.next_instruction().unwrap();
    assert_eq!(machine.current_ip(), 0x2007);
    assert_eq!(machine.call_stack.stack.len(), 6);
    assert_eq!(machine.call_stack.top_of_frame, 3);
    assert_eq!(machine.call_stack.stack[5], 1);
    assert_eq!(machine.call_stack.stack[4], 7);
}

/// Branch offset 0 in the one-byte form runs the full return-false
/// protocol: `verify` branches true into an offset-0 trailer, returning 0
/// to the caller's destination.
#[test]
fn branch_offset_zero_returns_false() {
    // BD = verify, which always branches true; branch byte 0xC0 is
    // branch-on-true with a one-byte offset of 0.
    let mut machine = machine_with(&[0xBD, 0xC0], 0x1005);
    // Frame as if called from 0x2000 with store destination local 2.
    machine.memory[0x2006] = 0x02;
    machine.call_stack.stack = vec![0x1111, 0x2222, 0x3333, 0, 7, 8, 0x2000, 0x0000, 6, 3];
    machine.call_stack.top_of_frame = 9;
    machine.ip = 0x1005;
    machine.next_instruction().unwrap();
    assert_eq!(machine.current_ip(), 0x2007);
    assert_eq!(machine.call_stack.stack[5], 0);
    assert_eq!(machine.call_stack.top_of_frame, 3);
}

/// Branch offset 1 in the one-byte form runs the full return-true protocol.
#[test]
fn branch_offset_one_returns_true() {
    let mut machine = machine_with(&[0xBD, 0xC1], 0x1005);
    machine.memory[0x2006] = 0x02;
    machine.call_stack.stack = vec![0x1111, 0x2222, 0x3333, 0, 7, 8, 0x2000, 0x0000, 6, 3];
    machine.call_stack.top_of_frame = 9;
    machine.ip = 0x1005;
    machine.next_instruction().unwrap();
    assert_eq!(machine.current_ip(), 0x2007);
    assert_eq!(machine.call_stack.stack[5], 1);
    assert_eq!(machine.call_stack.top_of_frame, 3);
}

/// `call 0` stores 0 and creates no frame.
#[test]
fn call_zero_stores_zero() {
    let mut machine = machine_with(&[0xE0, 0x3F, 0x00, 0x00, 0x05], 0x1000);
    machine.call_stack.stack = vec![0, 0, 0, 0, 0, 9];
    machine.call_stack.top_of_frame = 0;
    machine.next_instruction().unwrap();
    assert_eq!(machine.call_stack.stack.len(), 6);
    assert_eq!(machine.call_stack.stack[5], 0);
    assert_eq!(machine.call_stack.top_of_frame, 0);
    assert_eq!(machine.current_ip(), 0x1005);
}

/// Big-endian discipline at the opcode level: `storew` then `loadw` on the
/// same cell reads back the stored value.
#[test]
fn storew_then_loadw_round_trips() {
    // storew 0x0600 3 0x1234 (three large constants), then
    // loadw 0x0600 3 -> L1.
    let mut machine = machine_with(
        &[
            0xE1, 0x03, 0x06, 0x00, 0x00, 0x03, 0x12, 0x34, // storew
            0xCF, 0x0F, 0x06, 0x00, 0x00, 0x03, 0x01, // loadw -> L1
        ],
        0x1000,
    );
    machine.call_stack.stack = vec![0, 0];
    machine.call_stack.top_of_frame = 0;
    machine.next_instruction().unwrap();
    assert_eq!(machine.memory[0x0606], 0x12);
    assert_eq!(machine.memory[0x0607], 0x34);
    machine.next_instruction().unwrap();
    assert_eq!(machine.call_stack.stack[1], 0x1234);
}

/// `jump` moves the program counter by its signed operand.
#[test]
fn jump_signed_offset() {
    // jump -4 : 8C FF FC (short form, large constant).
    let mut machine = machine_with(&[0x8C, 0xFF, 0xFC], 0x1000);
    machine.next_instruction().unwrap();
    assert_eq!(machine.current_ip(), 0x0FFD);
}

/// `quit` stops the machine; `restart` asks for a reload.
#[test]
fn quit_and_restart_transition() {
    let mut machine = machine_with(&[0xBA], 0x1000);
    machine.next_instruction().unwrap();
    assert!(matches!(machine.state, MachineState::Stopped));
    let mut machine2 = machine_with(&[0xB7], 0x1000);
    machine2.next_instruction().unwrap();
    assert!(matches!(machine2.state, MachineState::Restarting));
}

/// The extended-opcode byte 0xBE is fatal in versions 1-3.
#[test]
fn extended_opcode_is_fatal() {
    let mut machine = machine_with(&[0xBE], 0x1000);
    assert_eq!(machine.next_instruction(), Err(FatalError::ExtendedOpcode));
}

/// A form/count/number tuple outside the dispatch table is a bad opcode.
#[test]
fn unknown_opcode_is_fatal() {
    // Variable form, opcode number 0x1F: not in the table.
    let mut machine = machine_with(&[0xFF, 0xFF], 0x1000);
    assert_eq!(machine.next_instruction(), Err(FatalError::BadOpcode));
}

/// Returning with no frame underflows the stack.
#[test]
fn return_without_frame_underflows() {
    let mut machine = machine_with(&[0xB0], 0x1000);
    assert_eq!(machine.next_instruction(), Err(FatalError::StackUnderflow));
}

/// A word load outside the image is a bad address.
#[test]
fn load_out_of_range_is_fatal() {
    // loadw 0xFFFF 0x7FFF -> sp : way past the 0x3000-byte image.
    let mut machine = machine_with(&[0xCF, 0x00, 0xFF, 0xFF, 0x7F, 0xFF, 0x00], 0x1000);
    assert_eq!(machine.next_instruction(), Err(FatalError::BadAddress));
}

/// A truncated or over-versioned image is rejected at load.
#[test]
fn malformed_images_are_rejected() {
    assert!(matches!(
        ZMachine::new(vec![3u8; 10]),
        Err(FatalError::MalformedImage)
    ));
    let mut data = build_image();
    data[0] = 4;
    assert!(matches!(
        ZMachine::new(data),
        Err(FatalError::MalformedImage)
    ));
}

/// Decoding shapes: the long form splits on bits 6 and 5, the short form on
/// bits 5 and 4.
#[test]
fn form_opcode_shapes() {
    let long = OpCode::form_opcode([0x54, 0x00]).unwrap();
    assert!(matches!(long.form, OpForm::Long));
    assert_eq!(long.operand_count, 2);
    assert!(matches!(long.operands[0], Operand::Variable { .. }));
    assert!(matches!(long.operands[1], Operand::SmallConstant { .. }));
    assert_eq!(long.code, 0x14);

    let short = OpCode::form_opcode([0x8C, 0x00]).unwrap();
    assert!(matches!(short.form, OpForm::Short));
    assert_eq!(short.operand_count, 1);
    assert!(matches!(short.operands[0], Operand::LargeConstant { .. }));

    let var = OpCode::form_opcode([0xE0, 0x0F]).unwrap();
    assert!(matches!(var.form, OpForm::Variable));
    assert_eq!(var.operand_count, 2);

    assert!(matches!(
        OpCode::form_opcode([0xBE, 0x00]),
        Err(FatalError::ExtendedOpcode)
    ));
}

/// `inc` and `dec` touch the named variable in place; `inc_chk` branches on
/// the comparison.
#[test]
fn inc_dec_in_place() {
    // inc L1 (short form, small constant operand 0x01): 95 01, then
    // dec L1: 96 01.
    let mut machine = machine_with(&[0x95, 0x01, 0x96, 0x01], 0x1000);
    machine.call_stack.stack = vec![0, 41];
    machine.call_stack.top_of_frame = 0;
    machine.next_instruction().unwrap();
    assert_eq!(machine.call_stack.stack[1], 42);
    machine.next_instruction().unwrap();
    assert_eq!(machine.call_stack.stack[1], 41);
}

/// `print_num` renders signed decimals into the transcript.
#[test]
fn print_num_renders_signed() {
    // print_num -12345: E6 3F CF C7.
    let mut machine = machine_with(&[0xE6, 0x3F, 0xCF, 0xC7], 0x1000);
    machine.next_instruction().unwrap();
    let text: String = machine.output.iter().collect();
    assert_eq!(text, "-12345");
}
