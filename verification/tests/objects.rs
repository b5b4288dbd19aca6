//! Object-tree and property-table behavior.

use rusty_z::instruction_set;
use rusty_z::opcode::{OpCode, Operand};
use rusty_z::zmachine::ZMachine;
use rusty_z::FatalError;

fn build_image() -> Vec<u8> {
    let mut data = vec![0u8; 0x3000];
    data[0x00] = 3;
    data[0x06] = 0x10;
    data[0x08] = 0x04;
    data[0x0A] = 0x03;
    data[0x0C] = 0x01;
    data[0x0E] = 0x20;
    data[0x18] = 0x05;
    data
}

/// The base of object `n`'s entry: table at 0x300, 62 defaults bytes, 9
/// bytes per entry, ids 1-based.
fn obj_base(n: usize) -> usize {
    0x300 + 62 + 9 * (n - 1)
}

fn machine() -> ZMachine {
    ZMachine::new(build_image()).unwrap()
}

fn op2(a: u16, b: u16) -> OpCode {
    let mut code = OpCode::form_base_opcode();
    code.operands[0] = Operand::LargeConstant { value: a };
    code.operands[1] = Operand::LargeConstant { value: b };
    code.operand_count = 2;
    code
}

/// Object insertion: with object 5 parentless and object 3 having child 7,
/// `insert_obj 5 3` makes 5 the first child of 3 with 7 as its sibling, and
/// the chain from `child(3)` visits 5 then 7 then ends.
#[test]
fn object_insertion() {
    let mut m = machine();
    m.memory[obj_base(3) + 6] = 7; // child(3) = 7
    let mut code = op2(5, 3);
    instruction_set::insert_obj(&mut code, &mut m).unwrap();
    let v5 = m.get_object_view(5);
    let v3 = m.get_object_view(3);
    assert_eq!(v5.get_parent(&m.memory), 3);
    assert_eq!(v5.get_sibling(&m.memory), 7);
    assert_eq!(v3.get_child(&m.memory), 5);
    // Walk the chain.
    let first = v3.get_child(&m.memory);
    let second = m.get_object_view(first).get_sibling(&m.memory);
    let third = m.get_object_view(second).get_sibling(&m.memory);
    assert_eq!((first, second, third), (5, 7, 0));
}

/// Removing an object unlinks it from its parent's chain and clears its
/// parent.
#[test]
fn object_removal() {
    let mut m = machine();
    // 3 -> children 5, 7.
    m.memory[obj_base(3) + 6] = 5;
    m.memory[obj_base(5) + 4] = 3;
    m.memory[obj_base(5) + 5] = 7;
    m.memory[obj_base(7) + 4] = 3;
    let mut code = op2(5, 0);
    instruction_set::remove_obj(&mut code, &mut m).unwrap();
    assert_eq!(m.get_object_view(5).get_parent(&m.memory), 0);
    assert_eq!(m.get_object_view(3).get_child(&m.memory), 7);
}

/// Attribute bits live most-significant-first: setting, testing and
/// clearing attribute `i` touches bit `7 - (i mod 8)` of byte `i / 8`.
#[test]
fn attribute_bits() {
    let mut m = machine();
    let mut code = op2(4, 0);
    instruction_set::set_attr(&mut code, &mut m).unwrap();
    assert_eq!(m.memory[obj_base(4)], 0x80);
    let mut code = op2(4, 9);
    instruction_set::set_attr(&mut code, &mut m).unwrap();
    assert_eq!(m.memory[obj_base(4) + 1], 0x40);
    let view = m.get_object_view(4);
    assert!(view.has_attribute(&m.memory, 0));
    assert!(view.has_attribute(&m.memory, 9));
    assert!(!view.has_attribute(&m.memory, 1));
    let mut code = op2(4, 0);
    instruction_set::clear_attr(&mut code, &mut m).unwrap();
    assert_eq!(m.memory[obj_base(4)], 0x00);
}

/// Builds a property table for object 1 at 0x700: no short name, property
/// 5 of width 2 holding 0xBEEF, then property 2 of width 1 holding 0x7F.
fn with_properties(m: &mut ZMachine) {
    let base = obj_base(1);
    m.memory[base + 7] = 0x07;
    m.memory[base + 8] = 0x00;
    m.memory[0x700] = 0; // text length
    m.memory[0x701] = 32 * (2 - 1) + 5; // size byte: width 2, number 5
    m.memory[0x702] = 0xBE;
    m.memory[0x703] = 0xEF;
    m.memory[0x704] = 32 * (1 - 1) + 2; // width 1, number 2
    m.memory[0x705] = 0x7F;
    m.memory[0x706] = 0; // terminator
    // Defaults array entry for property 3.
    m.memory[0x300 + 2 * (3 - 1)] = 0x12;
    m.memory[0x300 + 2 * (3 - 1) + 1] = 0x34;
}

/// `get_prop` returns the stored value when present and the default when
/// absent; `get_prop_addr` and `get_prop_len` locate the data bytes.
#[test]
fn property_lookup_returns_stored_or_default() {
    let mut m = machine();
    with_properties(&mut m);
    let mut code = op2(1, 5);
    instruction_set::get_prop(&mut code, &mut m).unwrap();
    assert_eq!(code.result, 0xBEEF);
    let mut code = op2(1, 2);
    instruction_set::get_prop(&mut code, &mut m).unwrap();
    assert_eq!(code.result, 0x7F);
    let mut code = op2(1, 3);
    instruction_set::get_prop(&mut code, &mut m).unwrap();
    assert_eq!(code.result, 0x1234);
    let mut code = op2(1, 5);
    instruction_set::get_prop_addr(&mut code, &mut m).unwrap();
    assert_eq!(code.result, 0x702);
    let mut code = op2(0x702, 0);
    instruction_set::get_prop_len(&mut code, &mut m).unwrap();
    assert_eq!(code.result, 2);
    let mut code = op2(1, 9);
    instruction_set::get_prop_addr(&mut code, &mut m).unwrap();
    assert_eq!(code.result, 0);
}

/// `get_next_prop` walks the descending numbers: 0 finds the first entry,
/// each entry names its successor, and the last answers 0.
#[test]
fn next_property_walk() {
    let mut m = machine();
    with_properties(&mut m);
    let mut code = op2(1, 0);
    instruction_set::get_next_prop(&mut code, &mut m).unwrap();
    assert_eq!(code.result, 5);
    let mut code = op2(1, 5);
    instruction_set::get_next_prop(&mut code, &mut m).unwrap();
    assert_eq!(code.result, 2);
    let mut code = op2(1, 2);
    instruction_set::get_next_prop(&mut code, &mut m).unwrap();
    assert_eq!(code.result, 0);
}

/// `put_prop` writes in place; a missing property is a fatal property
/// error.
#[test]
fn put_prop_writes_and_rejects_missing() {
    let mut m = machine();
    with_properties(&mut m);
    let mut code = OpCode::form_base_opcode();
    code.operands[0] = Operand::LargeConstant { value: 1 };
    code.operands[1] = Operand::LargeConstant { value: 5 };
    code.operands[2] = Operand::LargeConstant { value: 0x0102 };
    code.operand_count = 3;
    instruction_set::put_prop(&mut code, &mut m).unwrap();
    assert_eq!(m.memory[0x702], 0x01);
    assert_eq!(m.memory[0x703], 0x02);
    let mut code = OpCode::form_base_opcode();
    code.operands[0] = Operand::LargeConstant { value: 1 };
    code.operands[1] = Operand::LargeConstant { value: 9 };
    code.operands[2] = Operand::LargeConstant { value: 1 };
    code.operand_count = 3;
    assert_eq!(
        instruction_set::put_prop(&mut code, &mut m),
        Err(FatalError::BadProperty)
    );
}

/// `jin` branches exactly when the first object's parent is the second.
#[test]
fn jin_compares_parent() {
    let mut m = machine();
    m.memory[obj_base(5) + 4] = 3;
    let mut code = op2(5, 3);
    instruction_set::jin(&mut code, &mut m).unwrap();
    assert_eq!(code.result, 1);
    let mut code = op2(5, 4);
    instruction_set::jin(&mut code, &mut m).unwrap();
    assert_eq!(code.result, 0);
}

/// `je` with no comparison candidates never reports a match.
#[test]
fn je_without_candidates_is_false() {
    let mut m = machine();
    let mut code = OpCode::form_base_opcode();
    code.operands[0] = Operand::LargeConstant { value: 7 };
    code.operand_count = 1;
    instruction_set::je(&mut code, &mut m).unwrap();
    assert_eq!(code.result, 0);
}

/// Signed division truncates toward zero and rejects a zero divisor.
#[test]
fn signed_division() {
    let mut m = machine();
    let mut code = op2(0xFFF9u16, 2); // -7 / 2
    instruction_set::div(&mut code, &mut m).unwrap();
    assert_eq!(code.result as i16, -3);
    let mut code = op2(0xFFF9u16, 2); // -7 mod 2
    instruction_set::mod_fn(&mut code, &mut m).unwrap();
    assert_eq!(code.result as i16, -1);
    let mut code = op2(7, 0);
    assert_eq!(
        instruction_set::div(&mut code, &mut m),
        Err(FatalError::BadProperty)
    );
}


/// A store-and-branch opcode through a full step: `get_child` stores the
/// child id first, then takes its branch past the just-consumed destination
/// byte.
#[test]
fn get_child_stores_then_branches() {
    // get_child #3 -> L1, branch-on-true one-byte offset 5.
    let mut m = machine();
    m.memory[obj_base(3) + 6] = 7;
    let code = [0x92, 0x03, 0x01, 0xC5];
    for (i, b) in code.iter().enumerate() {
        m.memory[0x1000 + i] = *b;
    }
    m.call_stack.stack = vec![0, 0];
    m.call_stack.top_of_frame = 0;
    m.next_instruction().unwrap();
    assert_eq!(m.call_stack.stack[1], 7);
    // Two opcode bytes, the destination byte, the branch byte, then
    // offset - 2.
    assert_eq!(m.current_ip(), 0x1000 + 3 + 1 + 5 - 2);
}

/// The same opcode with no child stores 0 and falls through past both
/// trailer bytes.
#[test]
fn get_child_without_child_falls_through() {
    let mut m = machine();
    let code = [0x92, 0x03, 0x01, 0xC5];
    for (i, b) in code.iter().enumerate() {
        m.memory[0x1000 + i] = *b;
    }
    m.call_stack.stack = vec![0, 9];
    m.call_stack.top_of_frame = 0;
    m.next_instruction().unwrap();
    assert_eq!(m.call_stack.stack[1], 0);
    assert_eq!(m.current_ip(), 0x1004);
}


/// Re-inserting an object under its current parent moves it to the front
/// of the chain rather than leaving it in place.
#[test]
fn reinsert_moves_to_front() {
    let mut m = machine();
    // 3 -> children 7 then 5.
    m.memory[obj_base(3) + 6] = 7;
    m.memory[obj_base(7) + 4] = 3;
    m.memory[obj_base(7) + 5] = 5;
    m.memory[obj_base(5) + 4] = 3;
    let mut code = op2(5, 3);
    instruction_set::insert_obj(&mut code, &mut m).unwrap();
    assert_eq!(m.get_object_view(3).get_child(&m.memory), 5);
    assert_eq!(m.get_object_view(5).get_sibling(&m.memory), 7);
    assert_eq!(m.get_object_view(5).get_parent(&m.memory), 3);
    assert_eq!(m.get_object_view(7).get_sibling(&m.memory), 0);
}
