//! Decoding the opcode shell: form classification, operand kinds, operand
//! value resolution, and the dispatch table from `(form class, operand
//! count, number)` to the instruction.

use vstd::prelude::*;

use crate::FatalError;
use crate::global_variables_view::GlobalVariablesView;
use crate::memory_view::{MemoryView, image_sized, word_at};
use crate::zmachine::Stack;

verus! {

/// How the first byte (or two) of an instruction are laid out.
#[derive(Clone, Copy, Debug, PartialEq, Eq, Structural)]
pub enum OpForm {
    Short,
    Long,
    /// A two-operand instruction encoded in the variable form, to escape the
    /// long form's constraints (such as adding two large constants).  Kept
    /// apart from `Variable` so dispatch cannot collide a two-operand code
    /// with a true variable one.
    LongAsVariable,
    Variable,
}

/// One operand: its kind, and after resolution its value (and, for a
/// variable operand, the variable number it was read from).
#[derive(Clone, Copy, Debug, PartialEq, Eq, Structural)]
pub enum Operand {
    LargeConstant { value: u16 },
    Variable { value: u16, address: u8 },
    SmallConstant { value: u8 },
    Omitted,
}

/// The 16-bit value an operand carries.
pub open spec fn op_val(op: Operand) -> u16 {
    match op {
        Operand::LargeConstant { value } => value,
        Operand::Variable { value, address } => value,
        Operand::SmallConstant { value } => value as u16,
        Operand::Omitted => 0,
    }
}

impl Operand {
    /// The resolved 16-bit value.
    pub fn get_value(&self) -> (r: u16)
        requires
            !(*self is Omitted),
        ensures
            r == op_val(*self),
    {
        match *self {
            Operand::Omitted => 0,
            Operand::SmallConstant { value } => value as u16,
            Operand::LargeConstant { value } => value,
            Operand::Variable { value, address } => value,
        }
    }
}

/// Every instruction of the version 1-3 set, the target of dispatch.
#[derive(Clone, Copy, Debug, PartialEq, Eq, Structural)]
pub enum Instruction {
    DebugOp,
    Je,
    Jl,
    Jg,
    DecChk,
    IncChk,
    Jin,
    Test,
    Or,
    And,
    TestAttr,
    SetAttr,
    ClearAttr,
    Store,
    InsertObj,
    Loadw,
    Loadb,
    GetProp,
    GetPropAddr,
    GetNextProp,
    Add,
    Sub,
    Mul,
    Div,
    Mod,
    Jz,
    GetSibling,
    GetChild,
    GetParent,
    GetPropLen,
    Inc,
    Dec,
    PrintAddr,
    RemoveObj,
    PrintObj,
    Ret,
    Jump,
    PrintPaddr,
    Load,
    Rtrue,
    Rfalse,
    Print,
    PrintRet,
    Nop,
    Save,
    Restore,
    Restart,
    RetPopped,
    Pop,
    Quit,
    NewLine,
    ShowStatus,
    Verify,
    Call,
    Storew,
    Storeb,
    PutProp,
    Sread,
    PrintChar,
    PrintNum,
    Random,
    Push,
    Pull,
    SplitWindow,
    SetWindow,
    OutputStream,
    InputStream,
    SoundEffect,
}

/// The dispatch table: which instruction a `(form, operand count, number)`
/// tuple names, with `Long` and `LongAsVariable` collapsed.
pub open spec fn spec_instruction(form: OpForm, operand_count: u8, code: u8) -> Option<
    Instruction,
> {
    let two_op = form == OpForm::Long || form == OpForm::LongAsVariable;
    if two_op {
        if code == 0x0 {
            Some(Instruction::DebugOp)
        } else if code == 0x1 {
            Some(Instruction::Je)
        } else if code == 0x2 {
            Some(Instruction::Jl)
        } else if code == 0x3 {
            Some(Instruction::Jg)
        } else if code == 0x4 {
            Some(Instruction::DecChk)
        } else if code == 0x5 {
            Some(Instruction::IncChk)
        } else if code == 0x6 {
            Some(Instruction::Jin)
        } else if code == 0x7 {
            Some(Instruction::Test)
        } else if code == 0x8 {
            Some(Instruction::Or)
        } else if code == 0x9 {
            Some(Instruction::And)
        } else if code == 0xA {
            Some(Instruction::TestAttr)
        } else if code == 0xB {
            Some(Instruction::SetAttr)
        } else if code == 0xC {
            Some(Instruction::ClearAttr)
        } else if code == 0xD {
            Some(Instruction::Store)
        } else if code == 0xE {
            Some(Instruction::InsertObj)
        } else if code == 0xF {
            Some(Instruction::Loadw)
        } else if code == 0x10 {
            Some(Instruction::Loadb)
        } else if code == 0x11 {
            Some(Instruction::GetProp)
        } else if code == 0x12 {
            Some(Instruction::GetPropAddr)
        } else if code == 0x13 {
            Some(Instruction::GetNextProp)
        } else if code == 0x14 {
            Some(Instruction::Add)
        } else if code == 0x15 {
            Some(Instruction::Sub)
        } else if code == 0x16 {
            Some(Instruction::Mul)
        } else if code == 0x17 {
            Some(Instruction::Div)
        } else if code == 0x18 {
            Some(Instruction::Mod)
        } else {
            None
        }
    } else if form == OpForm::Short && operand_count == 1 {
        if code == 0x0 {
            Some(Instruction::Jz)
        } else if code == 0x1 {
            Some(Instruction::GetSibling)
        } else if code == 0x2 {
            Some(Instruction::GetChild)
        } else if code == 0x3 {
            Some(Instruction::GetParent)
        } else if code == 0x4 {
            Some(Instruction::GetPropLen)
        } else if code == 0x5 {
            Some(Instruction::Inc)
        } else if code == 0x6 {
            Some(Instruction::Dec)
        } else if code == 0x7 {
            Some(Instruction::PrintAddr)
        } else if code == 0x9 {
            Some(Instruction::RemoveObj)
        } else if code == 0xA {
            Some(Instruction::PrintObj)
        } else if code == 0xB {
            Some(Instruction::Ret)
        } else if code == 0xC {
            Some(Instruction::Jump)
        } else if code == 0xD {
            Some(Instruction::PrintPaddr)
        } else if code == 0xE {
            Some(Instruction::Load)
        } else {
            None
        }
    } else if form == OpForm::Short && operand_count == 0 {
        if code == 0x0 {
            Some(Instruction::Rtrue)
        } else if code == 0x1 {
            Some(Instruction::Rfalse)
        } else if code == 0x2 {
            Some(Instruction::Print)
        } else if code == 0x3 {
            Some(Instruction::PrintRet)
        } else if code == 0x4 {
            Some(Instruction::Nop)
        } else if code == 0x5 {
            Some(Instruction::Save)
        } else if code == 0x6 {
            Some(Instruction::Restore)
        } else if code == 0x7 {
            Some(Instruction::Restart)
        } else if code == 0x8 {
            Some(Instruction::RetPopped)
        } else if code == 0x9 {
            Some(Instruction::Pop)
        } else if code == 0xA {
            Some(Instruction::Quit)
        } else if code == 0xB {
            Some(Instruction::NewLine)
        } else if code == 0xC {
            Some(Instruction::ShowStatus)
        } else if code == 0xD {
            Some(Instruction::Verify)
        } else {
            None
        }
    } else if form == OpForm::Variable {
        if code == 0x0 {
            Some(Instruction::Call)
        } else if code == 0x1 {
            Some(Instruction::Storew)
        } else if code == 0x2 {
            Some(Instruction::Storeb)
        } else if code == 0x3 {
            Some(Instruction::PutProp)
        } else if code == 0x4 {
            Some(Instruction::Sread)
        } else if code == 0x5 {
            Some(Instruction::PrintChar)
        } else if code == 0x6 {
            Some(Instruction::PrintNum)
        } else if code == 0x7 {
            Some(Instruction::Random)
        } else if code == 0x8 {
            Some(Instruction::Push)
        } else if code == 0x9 {
            Some(Instruction::Pull)
        } else if code == 0xA {
            Some(Instruction::SplitWindow)
        } else if code == 0xB {
            Some(Instruction::SetWindow)
        } else if code == 0x13 {
            Some(Instruction::OutputStream)
        } else if code == 0x14 {
            Some(Instruction::InputStream)
        } else if code == 0x15 {
            Some(Instruction::SoundEffect)
        } else {
            None
        }
    } else {
        None
    }
}

/// The instruction the two raw instruction bytes name: the form, count and
/// number a well-formed shell would carry, looked up in the dispatch table.
pub open spec fn spec_decoded_instruction(b0: u8, b1: u8) -> Option<Instruction> {
    if b0 < 0x80 {
        spec_instruction(OpForm::Long, 2, (b0 % 32) as u8)
    } else if b0 < 0xb0 {
        spec_instruction(OpForm::Short, 1, (b0 % 16) as u8)
    } else if b0 < 0xc0 {
        spec_instruction(OpForm::Short, 0, (b0 % 16) as u8)
    } else if b0 < 0xe0 {
        spec_instruction(OpForm::LongAsVariable, spec_var_count(b1) as u8, (b0 % 32) as u8)
    } else {
        spec_instruction(OpForm::Variable, spec_var_count(b1) as u8, (b0 % 32) as u8)
    }
}

/// The operand shell for a 2-bit type field: 0 large, 1 small, 2 variable,
/// 3 omitted.
pub open spec fn spec_operand_for_bits(t: u8) -> Operand {
    if t == 0 {
        Operand::LargeConstant { value: 0 }
    } else if t == 1 {
        Operand::SmallConstant { value: 0 }
    } else if t == 2 {
        Operand::Variable { value: 0, address: 0 }
    } else {
        Operand::Omitted
    }
}

/// Field `i` (0 to 3, high bits first) of a variable-form type byte.
pub open spec fn type_bits(type_byte: u8, i: int) -> u8 {
    if i == 0 {
        type_byte / 64
    } else if i == 1 {
        (type_byte / 16) % 4
    } else if i == 2 {
        (type_byte / 4) % 4
    } else {
        type_byte % 4
    }
}

/// How many operands a variable-form type byte declares: fields up to the
/// first `11`.
pub open spec fn spec_var_count(type_byte: u8) -> int {
    if type_bits(type_byte, 0) == 3 {
        0
    } else if type_bits(type_byte, 1) == 3 {
        1
    } else if type_bits(type_byte, 2) == 3 {
        2
    } else if type_bits(type_byte, 3) == 3 {
        3
    } else {
        4
    }
}

/// Resolves operands `i` onward (up to `count`): each constant reads its
/// bytes at `base + rb`, and each variable operand reads a variable number
/// and dereferences it (0 pops the stack, 1-15 reads a local, 16-255 reads a
/// global).  Yields the resolved operands, the new read offset, and the
/// stack after any pops; `None` when a read leaves the image or the stack
/// underflows.
pub open spec fn spec_resolve(
    ops: Seq<Operand>,
    i: int,
    count: int,
    mem: Seq<u8>,
    base: int,
    rb: int,
    stack: Seq<u16>,
    tof: int,
    glob: int,
) -> Option<(Seq<Operand>, int, Seq<u16>)>
    decreases count - i,
{
    if i >= count || !(0 <= i < ops.len()) {
        Some((ops, rb, stack))
    } else {
        match ops[i] {
            Operand::Omitted => Some((ops, rb, stack)),
            Operand::LargeConstant { .. } => {
                if 0 <= base + rb && base + rb + 1 < mem.len() {
                    spec_resolve(
                        ops.update(
                            i,
                            Operand::LargeConstant { value: word_at(mem, base + rb) as u16 },
                        ),
                        i + 1,
                        count,
                        mem,
                        base,
                        rb + 2,
                        stack,
                        tof,
                        glob,
                    )
                } else {
                    None
                }
            },
            Operand::SmallConstant { .. } => {
                if 0 <= base + rb && base + rb < mem.len() {
                    spec_resolve(
                        ops.update(i, Operand::SmallConstant { value: mem[base + rb] }),
                        i + 1,
                        count,
                        mem,
                        base,
                        rb + 1,
                        stack,
                        tof,
                        glob,
                    )
                } else {
                    None
                }
            },
            Operand::Variable { .. } => {
                if !(0 <= base + rb && base + rb < mem.len()) {
                    None
                } else {
                    let addr = mem[base + rb];
                    if addr == 0 {
                        if stack.len() > 0 {
                            spec_resolve(
                                ops.update(
                                    i,
                                    Operand::Variable { value: stack.last(), address: 0 },
                                ),
                                i + 1,
                                count,
                                mem,
                                base,
                                rb + 1,
                                stack.drop_last(),
                                tof,
                                glob,
                            )
                        } else {
                            None
                        }
                    } else if addr <= 15 {
                        if tof + addr < stack.len() {
                            spec_resolve(
                                ops.update(
                                    i,
                                    Operand::Variable { value: stack[tof + addr], address: addr },
                                ),
                                i + 1,
                                count,
                                mem,
                                base,
                                rb + 1,
                                stack,
                                tof,
                                glob,
                            )
                        } else {
                            None
                        }
                    } else {
                        if 0 <= glob && glob + 2 * (addr - 16) + 1 < mem.len() {
                            spec_resolve(
                                ops.update(
                                    i,
                                    Operand::Variable {
                                        value: word_at(mem, glob + 2 * (addr - 16)) as u16,
                                        address: addr,
                                    },
                                ),
                                i + 1,
                                count,
                                mem,
                                base,
                                rb + 1,
                                stack,
                                tof,
                                glob,
                            )
                        } else {
                            None
                        }
                    }
                }
            },
        }
    }
}

/// A decoded instruction: its shell, operands, trailer flags, dispatch
/// target, progress counter and result slot.
pub struct OpCode {
    /// The address the instruction was decoded at, for diagnostics.
    pub ip: u32,
    /// The opcode number from the bottom bits of the first byte.
    pub code: u8,
    /// The encoding form.
    pub form: OpForm,
    /// The four operand slots; slots past `operand_count` stay `Omitted`.
    pub operands: Vec<Operand>,
    /// How many operands are present (0 to 4).
    pub operand_count: u8,
    /// Whether a branch trailer follows.
    pub branch: bool,
    /// Whether a store trailer follows.
    pub store: bool,
    /// Whether the instruction prints.
    pub print: bool,
    /// Whether the instruction suspends for input.
    pub input: bool,
    /// The dispatch target.
    pub instruction: Instruction,
    /// How many bytes of the instruction have been consumed so far; the
    /// machine advances the program counter by this after execution, so
    /// instructions that redirect control reset it to zero.
    pub read_bytes: u32,
    /// The handler's result, consumed by the store and branch trailers.
    pub result: u16,
}

/// The freshly initialized shell that the form functions fill in.
pub open spec fn spec_base_opcode(c: OpCode) -> bool {
    &&& c.ip == 0
    &&& c.code == 0
    &&& c.branch == false
    &&& c.store == false
    &&& c.print == false
    &&& c.input == false
    &&& c.instruction == Instruction::Nop
    &&& c.operands@.len() == 4
    &&& c.operands@ =~= seq![
        Operand::Omitted,
        Operand::Omitted,
        Operand::Omitted,
        Operand::Omitted,
    ]
    &&& c.operand_count == 0
    &&& c.read_bytes == 0
    &&& c.result == 0
}

impl OpCode {
    /// The decoded shape for the first two instruction bytes.
    pub open spec fn spec_formed(self, b0: u8, b1: u8) -> bool {
        &&& self.operands@.len() == 4
        &&& self.ip == 0
        &&& self.branch == false
        &&& self.store == false
        &&& self.print == false
        &&& self.input == false
        &&& self.result == 0
        &&& if b0 < 0x80 {
            &&& self.form == OpForm::Long
            &&& self.read_bytes == 1
            &&& self.operand_count == 2
            &&& self.code == b0 % 32
            &&& self.operands@[0] == (if (b0 / 64) % 2 == 0 {
                Operand::SmallConstant { value: 0 }
            } else {
                Operand::Variable { value: 0, address: 0 }
            })
            &&& self.operands@[1] == (if (b0 / 32) % 2 == 0 {
                Operand::SmallConstant { value: 0 }
            } else {
                Operand::Variable { value: 0, address: 0 }
            })
            &&& self.operands@[2] == Operand::Omitted
            &&& self.operands@[3] == Operand::Omitted
        } else if b0 < 0xc0 {
            &&& self.form == OpForm::Short
            &&& self.read_bytes == 1
            &&& self.code == b0 % 16
            &&& if b0 < 0xb0 {
                &&& self.operand_count == 1
                &&& self.operands@[0] == (if b0 < 0x90 {
                    Operand::LargeConstant { value: 0 }
                } else if b0 < 0xa0 {
                    Operand::SmallConstant { value: 0 }
                } else {
                    Operand::Variable { value: 0, address: 0 }
                })
            } else {
                self.operand_count == 0
            }
            &&& self.operands@[1] == Operand::Omitted
            &&& self.operands@[2] == Operand::Omitted
            &&& self.operands@[3] == Operand::Omitted
        } else {
            &&& self.form == (if b0 < 0xe0 {
                OpForm::LongAsVariable
            } else {
                OpForm::Variable
            })
            &&& self.read_bytes == 2
            &&& self.code == b0 % 32
            &&& self.operand_count == spec_var_count(b1)
            &&& forall|i: int|
                0 <= i < 4 ==> self.operands@[i] == (if i < spec_var_count(b1) {
                    spec_operand_for_bits(type_bits(b1, i))
                } else {
                    Operand::Omitted
                })
        }
    }

    /// A blank opcode shell.
    pub fn form_base_opcode() -> (r: OpCode)
        ensures
            spec_base_opcode(r),
    {
        OpCode {
            ip: 0,
            code: 0,
            branch: false,
            store: false,
            print: false,
            input: false,
            instruction: Instruction::Nop,
            form: OpForm::Short,
            operands: vec![
                Operand::Omitted,
                Operand::Omitted,
                Operand::Omitted,
                Operand::Omitted,
            ],
            operand_count: 0,
            read_bytes: 0,
            result: 0,
        }
    }

    /// Classifies the first two bytes of an instruction into its decoded
    /// shell.  Byte `0xBE` names the extended opcode set, which does not
    /// exist in versions 1-3.
    pub fn form_opcode(word: [u8; 2]) -> (r: Result<OpCode, FatalError>)
        ensures
            r is Ok <==> word[0] != 0xbe,
            r matches Ok(c) ==> c.spec_formed(word[0], word[1]),
            r matches Err(e) ==> e == FatalError::ExtendedOpcode,
    {
        let mut op_code = OpCode::form_base_opcode();
        if word[0] < 0x80 {
            OpCode::form_long_opcode(&mut op_code, word[0]);
        } else if word[0] < 0xc0 {
            if word[0] == 0xbe {
                return Err(FatalError::ExtendedOpcode);
            }
            OpCode::form_short_opcode(&mut op_code, word[0]);
        } else {
            OpCode::form_variable_opcode(&mut op_code, word[0], word[1]);
        }
        Ok(op_code)
    }

    /// Fills the shell for the long form: two operands whose kinds sit in
    /// bits 6 and 5 (0 small constant, 1 variable).
    pub fn form_long_opcode(code: &mut OpCode, id: u8)
        requires
            spec_base_opcode(*old(code)),
            id < 0x80,
        ensures
            final(code).spec_formed(id, 0),
            final(code).spec_formed(id, 1),
            forall|b1: u8| final(code).spec_formed(id, b1),
    {
        code.read_bytes = 1;
        code.form = OpForm::Long;
        code.operand_count = 2;
        code.code = id % 32;
        let first = if (id / 64) % 2 == 0 {
            Operand::SmallConstant { value: 0 }
        } else {
            Operand::Variable { value: 0, address: 0 }
        };
        let second = if (id / 32) % 2 == 0 {
            Operand::SmallConstant { value: 0 }
        } else {
            Operand::Variable { value: 0, address: 0 }
        };
        code.operands.set(0, first);
        code.operands.set(1, second);
    }

    /// Fills the shell for the short form: one operand whose kind sits in
    /// bits 5 and 4, or none at all for `0xB0` and up.
    pub fn form_short_opcode(code: &mut OpCode, id: u8)
        requires
            spec_base_opcode(*old(code)),
            0x80 <= id < 0xc0,
            id != 0xbe,
        ensures
            forall|b1: u8| final(code).spec_formed(id, b1),
    {
        code.read_bytes = 1;
        code.form = OpForm::Short;
        code.code = id % 16;
        if id < 0x90 {
            code.operand_count = 1;
            code.operands.set(0, Operand::LargeConstant { value: 0 });
        } else if id < 0xa0 {
            code.operand_count = 1;
            code.operands.set(0, Operand::SmallConstant { value: 0 });
        } else if id < 0xb0 {
            code.operand_count = 1;
            code.operands.set(0, Operand::Variable { value: 0, address: 0 });
        } else {
            code.operand_count = 0;
        }
    }

    /// Fills the shell for the variable form: the second byte carries four
    /// 2-bit operand kinds, stopping at the first `11`.
    pub fn form_variable_opcode(code: &mut OpCode, id: u8, second_byte: u8)
        requires
            spec_base_opcode(*old(code)),
            0xc0 <= id,
        ensures
            final(code).spec_formed(id, second_byte),
    {
        code.read_bytes = 2;
        code.code = id % 32;
        if id < 0xe0 {
            code.form = OpForm::LongAsVariable;
        } else {
            code.form = OpForm::Variable;
        }
        let t0 = second_byte / 64;
        let t1 = (second_byte / 16) % 4;
        let t2 = (second_byte / 4) % 4;
        let t3 = second_byte % 4;
        if t0 == 3 {
            return ;
        }
        code.operands.set(0, get_type_for_bit(t0));
        code.operand_count = 1;
        if t1 == 3 {
            return ;
        }
        code.operands.set(1, get_type_for_bit(t1));
        code.operand_count = 2;
        if t2 == 3 {
            return ;
        }
        code.operands.set(2, get_type_for_bit(t2));
        code.operand_count = 3;
        if t3 == 3 {
            return ;
        }
        code.operands.set(3, get_type_for_bit(t3));
        code.operand_count = 4;
    }

    /// Looks the `(form, count, number)` tuple up in the dispatch table and
    /// records the instruction; a tuple outside the table is `BadOpcode`.
    pub fn assign_instruction(code: &mut OpCode) -> (r: Result<(), FatalError>)
        ensures
            r is Ok <==> spec_instruction(
                old(code).form,
                old(code).operand_count,
                old(code).code,
            ) is Some,
            r matches Ok(_) ==> Some(final(code).instruction) == spec_instruction(
                old(code).form,
                old(code).operand_count,
                old(code).code,
            ),
            *final(code) == (OpCode { instruction: final(code).instruction, ..*old(code) }),
            r matches Err(e) ==> e == FatalError::BadOpcode && *final(code) == *old(code),
    {
        let two_op = match code.form {
            OpForm::Long | OpForm::LongAsVariable => true,
            _ => false,
        };
        let found: Option<Instruction> = if two_op {
            match code.code {
                0x0 => Some(Instruction::DebugOp),
                0x1 => Some(Instruction::Je),
                0x2 => Some(Instruction::Jl),
                0x3 => Some(Instruction::Jg),
                0x4 => Some(Instruction::DecChk),
                0x5 => Some(Instruction::IncChk),
                0x6 => Some(Instruction::Jin),
                0x7 => Some(Instruction::Test),
                0x8 => Some(Instruction::Or),
                0x9 => Some(Instruction::And),
                0xA => Some(Instruction::TestAttr),
                0xB => Some(Instruction::SetAttr),
                0xC => Some(Instruction::ClearAttr),
                0xD => Some(Instruction::Store),
                0xE => Some(Instruction::InsertObj),
                0xF => Some(Instruction::Loadw),
                0x10 => Some(Instruction::Loadb),
                0x11 => Some(Instruction::GetProp),
                0x12 => Some(Instruction::GetPropAddr),
                0x13 => Some(Instruction::GetNextProp),
                0x14 => Some(Instruction::Add),
                0x15 => Some(Instruction::Sub),
                0x16 => Some(Instruction::Mul),
                0x17 => Some(Instruction::Div),
                0x18 => Some(Instruction::Mod),
                _ => None,
            }
        } else {
            match (code.form, code.operand_count, code.code) {
                (OpForm::Short, 1, 0x0) => Some(Instruction::Jz),
                (OpForm::Short, 1, 0x1) => Some(Instruction::GetSibling),
                (OpForm::Short, 1, 0x2) => Some(Instruction::GetChild),
                (OpForm::Short, 1, 0x3) => Some(Instruction::GetParent),
                (OpForm::Short, 1, 0x4) => Some(Instruction::GetPropLen),
                (OpForm::Short, 1, 0x5) => Some(Instruction::Inc),
                (OpForm::Short, 1, 0x6) => Some(Instruction::Dec),
                (OpForm::Short, 1, 0x7) => Some(Instruction::PrintAddr),
                (OpForm::Short, 1, 0x9) => Some(Instruction::RemoveObj),
                (OpForm::Short, 1, 0xA) => Some(Instruction::PrintObj),
                (OpForm::Short, 1, 0xB) => Some(Instruction::Ret),
                (OpForm::Short, 1, 0xC) => Some(Instruction::Jump),
                (OpForm::Short, 1, 0xD) => Some(Instruction::PrintPaddr),
                (OpForm::Short, 1, 0xE) => Some(Instruction::Load),
                (OpForm::Short, 0, 0x0) => Some(Instruction::Rtrue),
                (OpForm::Short, 0, 0x1) => Some(Instruction::Rfalse),
                (OpForm::Short, 0, 0x2) => Some(Instruction::Print),
                (OpForm::Short, 0, 0x3) => Some(Instruction::PrintRet),
                (OpForm::Short, 0, 0x4) => Some(Instruction::Nop),
                (OpForm::Short, 0, 0x5) => Some(Instruction::Save),
                (OpForm::Short, 0, 0x6) => Some(Instruction::Restore),
                (OpForm::Short, 0, 0x7) => Some(Instruction::Restart),
                (OpForm::Short, 0, 0x8) => Some(Instruction::RetPopped),
                (OpForm::Short, 0, 0x9) => Some(Instruction::Pop),
                (OpForm::Short, 0, 0xA) => Some(Instruction::Quit),
                (OpForm::Short, 0, 0xB) => Some(Instruction::NewLine),
                (OpForm::Short, 0, 0xC) => Some(Instruction::ShowStatus),
                (OpForm::Short, 0, 0xD) => Some(Instruction::Verify),
                (OpForm::Variable, _, 0x0) => Some(Instruction::Call),
                (OpForm::Variable, _, 0x1) => Some(Instruction::Storew),
                (OpForm::Variable, _, 0x2) => Some(Instruction::Storeb),
                (OpForm::Variable, _, 0x3) => Some(Instruction::PutProp),
                (OpForm::Variable, _, 0x4) => Some(Instruction::Sread),
                (OpForm::Variable, _, 0x5) => Some(Instruction::PrintChar),
                (OpForm::Variable, _, 0x6) => Some(Instruction::PrintNum),
                (OpForm::Variable, _, 0x7) => Some(Instruction::Random),
                (OpForm::Variable, _, 0x8) => Some(Instruction::Push),
                (OpForm::Variable, _, 0x9) => Some(Instruction::Pull),
                (OpForm::Variable, _, 0xA) => Some(Instruction::SplitWindow),
                (OpForm::Variable, _, 0xB) => Some(Instruction::SetWindow),
                (OpForm::Variable, _, 0x13) => Some(Instruction::OutputStream),
                (OpForm::Variable, _, 0x14) => Some(Instruction::InputStream),
                (OpForm::Variable, _, 0x15) => Some(Instruction::SoundEffect),
                _ => None,
            }
        };
        match found {
            Some(instruction) => {
                code.instruction = instruction;
                Ok(())
            },
            None => Err(FatalError::BadOpcode),
        }
    }

    /// A handler that does nothing: the placeholder of a freshly formed
    /// shell before dispatch assigns the real instruction.
    pub fn null_instruction(_code: &mut OpCode, _env: &mut crate::zmachine::ZMachine) -> (r:
        Result<(), FatalError>)
        ensures
            r is Ok,
    {
        Ok(())
    }

    /// The shell used to run a synthesized `rfalse` (a one-byte branch
    /// offset of 0).
    pub fn form_rfalse() -> (r: OpCode)
        ensures
            r == (OpCode { instruction: Instruction::Rfalse, ..r }),
            spec_base_opcode((OpCode { instruction: Instruction::Nop, ..r })),
    {
        let mut rfalse = OpCode::form_base_opcode();
        rfalse.instruction = Instruction::Rfalse;
        rfalse
    }

    /// The shell used to run a synthesized `rtrue` (a one-byte branch
    /// offset of 1).
    pub fn form_rtrue() -> (r: OpCode)
        ensures
            r == (OpCode { instruction: Instruction::Rtrue, ..r }),
            spec_base_opcode((OpCode { instruction: Instruction::Nop, ..r })),
    {
        let mut rtrue = OpCode::form_base_opcode();
        rtrue.instruction = Instruction::Rtrue;
        rtrue
    }

    /// Resolves the operand values in place: constants read their bytes
    /// after the opcode shell, variable operands read a variable number and
    /// dereference it (0 pops the evaluation stack, 1-15 reads a local,
    /// 16-255 reads a global).
    pub fn read_variables(
        &mut self,
        frame_view: MemoryView,
        globals: GlobalVariablesView,
        call_stack: &mut Stack,
        mem: &Vec<u8>,
    ) -> (r: Result<(), FatalError>)
        requires
            image_sized(mem@),
            old(self).operands@.len() == 4,
            old(self).operand_count <= 4,
        ensures
            r is Ok <==> spec_resolve(
                old(self).operands@,
                0,
                old(self).operand_count as int,
                mem@,
                frame_view.pointer as int,
                old(self).read_bytes as int,
                old(call_stack).stack@,
                old(call_stack).top_of_frame as int,
                globals.view.pointer as int,
            ) is Some,
            r matches Ok(_) ==> ({
                let resolved = spec_resolve(
                    old(self).operands@,
                    0,
                    old(self).operand_count as int,
                    mem@,
                    frame_view.pointer as int,
                    old(self).read_bytes as int,
                    old(call_stack).stack@,
                    old(call_stack).top_of_frame as int,
                    globals.view.pointer as int,
                );
                &&& resolved matches Some((ops, rb, stack)) && final(self).operands@ == ops
                    && final(self).read_bytes == rb && final(call_stack).stack@ == stack
            }),
            final(call_stack).top_of_frame == old(call_stack).top_of_frame,
            final(self).operands@.len() == old(self).operands@.len(),
            *final(self) == (OpCode {
                operands: final(self).operands,
                read_bytes: final(self).read_bytes,
                ..*old(self)
            }),
            r matches Err(e) ==> (e == FatalError::BadAddress || e == FatalError::StackUnderflow),
    {
        let ghost ops0 = self.operands@;
        let ghost rb0 = self.read_bytes as int;
        let ghost stack0 = call_stack.stack@;
        let ghost count = self.operand_count as int;
        let ghost base = frame_view.pointer as int;
        let ghost glob = globals.view.pointer as int;
        let mut i: usize = 0;
        while i < self.operand_count as usize
            invariant
                image_sized(mem@),
                i <= 4,
                self.operand_count <= 4,
                self.operands@.len() == 4,
                count == self.operand_count as int,
                old(self).operands@.len() == 4,
                base == frame_view.pointer as int,
                glob == globals.view.pointer as int,
                ops0 == old(self).operands@,
                rb0 == old(self).read_bytes as int,
                stack0 == old(call_stack).stack@,
                call_stack.top_of_frame == old(call_stack).top_of_frame,
                *self == (OpCode {
                    operands: self.operands,
                    read_bytes: self.read_bytes,
                    ..*old(self)
                }),
                spec_resolve(ops0, 0, count, mem@, base, rb0, stack0,
                    old(call_stack).top_of_frame as int, glob) == spec_resolve(
                    self.operands@,
                    i as int,
                    count,
                    mem@,
                    base,
                    self.read_bytes as int,
                    call_stack.stack@,
                    old(call_stack).top_of_frame as int,
                    glob,
                ),
            decreases self.operand_count as int - i,
        {
            let ghost pre_ops = self.operands@;
            let ghost pre_rb = self.read_bytes as int;
            let ghost pre_stack = call_stack.stack@;
            let ghost tof = old(call_stack).top_of_frame as int;
            let kind = self.operands[i];
            match kind {
                Operand::Omitted => {
                    proof {
                        assert(spec_resolve(self.operands@, i as int, count, mem@, base,
                            self.read_bytes as int, call_stack.stack@, tof, glob) == Some(
                            (self.operands@, self.read_bytes as int, call_stack.stack@),
                        ));
                    }
                    return Ok(());
                },
                Operand::LargeConstant { .. } => {
                    let a64 = frame_view.pointer as u64 + self.read_bytes as u64;
                    if a64 + 1 >= mem.len() as u64 {
                        proof {
                            assert(spec_resolve(pre_ops, i as int, count, mem@, base, pre_rb,
                                pre_stack, tof, glob) is None);
                        }
                        return Err(FatalError::BadAddress);
                    }
                    let value = frame_view.read_u16_at(mem, a64 as u32);
                    self.operands.set(i, Operand::LargeConstant { value });
                    self.read_bytes = self.read_bytes + 2;
                },
                Operand::SmallConstant { .. } => {
                    let a64 = frame_view.pointer as u64 + self.read_bytes as u64;
                    if a64 >= mem.len() as u64 {
                        proof {
                            assert(spec_resolve(pre_ops, i as int, count, mem@, base, pre_rb,
                                pre_stack, tof, glob) is None);
                        }
                        return Err(FatalError::BadAddress);
                    }
                    let value = frame_view.read_at(mem, a64 as u32);
                    self.operands.set(i, Operand::SmallConstant { value });
                    self.read_bytes = self.read_bytes + 1;
                },
                Operand::Variable { .. } => {
                    let a64 = frame_view.pointer as u64 + self.read_bytes as u64;
                    if a64 >= mem.len() as u64 {
                        proof {
                            assert(spec_resolve(pre_ops, i as int, count, mem@, base, pre_rb,
                                pre_stack, tof, glob) is None);
                        }
                        return Err(FatalError::BadAddress);
                    }
                    let addr = frame_view.read_at(mem, a64 as u32);
                    let value: u16 = if addr == 0 {
                        match call_stack.stack.pop() {
                            Some(x) => x,
                            None => {
                                proof {
                                    assert(spec_resolve(pre_ops, i as int, count, mem@, base,
                                        pre_rb, pre_stack, tof, glob) is None);
                                }
                                return Err(FatalError::StackUnderflow);
                            },
                        }
                    } else if addr <= 15 {
                        let len = call_stack.stack.len();
                        if call_stack.top_of_frame >= len || len - call_stack.top_of_frame
                            <= addr as usize {
                            proof {
                                assert(spec_resolve(pre_ops, i as int, count, mem@, base, pre_rb,
                                    pre_stack, tof, glob) is None);
                            }
                            return Err(FatalError::StackUnderflow);
                        }
                        call_stack.get_local_variable(addr)
                    } else {
                        let index = (addr - 16) as u16;
                        let g64 = globals.view.pointer as u64 + 2 * index as u64;
                        if g64 + 1 >= mem.len() as u64 {
                            proof {
                                assert(spec_resolve(pre_ops, i as int, count, mem@, base, pre_rb,
                                    pre_stack, tof, glob) is None);
                            }
                            return Err(FatalError::BadAddress);
                        }
                        globals.view.read_u16_at(mem, g64 as u32)
                    };
                    self.operands.set(i, Operand::Variable { value, address: addr });
                    self.read_bytes = self.read_bytes + 1;
                },
            }
            proof {
                assert(spec_resolve(pre_ops, i as int, count, mem@, base, pre_rb, pre_stack, tof,
                    glob) == spec_resolve(self.operands@, i + 1, count, mem@, base,
                    self.read_bytes as int, call_stack.stack@, tof, glob));
            }
            i = i + 1;
        }
        proof {
            assert(spec_resolve(self.operands@, i as int, count, mem@, frame_view.pointer as int,
                self.read_bytes as int, call_stack.stack@,
                old(call_stack).top_of_frame as int, glob) == Some(
                (self.operands@, self.read_bytes as int, call_stack.stack@),
            ));
        }
        Ok(())
    }
}

/// The operand shell for a 2-bit type field.
pub fn get_type_for_bit(type_bits_value: u8) -> (r: Operand)
    requires
        type_bits_value < 4,
    ensures
        r == spec_operand_for_bits(type_bits_value),
{
    if type_bits_value == 0 {
        Operand::LargeConstant { value: 0 }
    } else if type_bits_value == 1 {
        Operand::SmallConstant { value: 0 }
    } else if type_bits_value == 2 {
        Operand::Variable { value: 0, address: 0 }
    } else {
        Operand::Omitted
    }
}

/// The mnemonic of the instruction a `(form, count, number)` tuple names,
/// for diagnostics; tuples outside the dispatch table read
/// `illegal_operation`.
pub fn return_name(code: &OpCode) -> (r: &'static str)
    ensures
        (match spec_instruction(code.form, code.operand_count, code.code) {
            Some(i) => match i {
                Instruction::DebugOp => r@ == "debug"@,
                Instruction::Je => r@ == "je"@,
                Instruction::Jl => r@ == "jl"@,
                Instruction::Jg => r@ == "jg"@,
                Instruction::DecChk => r@ == "dec_chk"@,
                Instruction::IncChk => r@ == "inc_chk"@,
                Instruction::Jin => r@ == "jin"@,
                Instruction::Test => r@ == "test"@,
                Instruction::Or => r@ == "or"@,
                Instruction::And => r@ == "and"@,
                Instruction::TestAttr => r@ == "test_attr"@,
                Instruction::SetAttr => r@ == "set_attr"@,
                Instruction::ClearAttr => r@ == "clear_attr"@,
                Instruction::Store => r@ == "store"@,
                Instruction::InsertObj => r@ == "insert_obj"@,
                Instruction::Loadw => r@ == "loadw"@,
                Instruction::Loadb => r@ == "loadb"@,
                Instruction::GetProp => r@ == "get_prop"@,
                Instruction::GetPropAddr => r@ == "get_prop_addr"@,
                Instruction::GetNextProp => r@ == "get_next_prop"@,
                Instruction::Add => r@ == "add"@,
                Instruction::Sub => r@ == "sub"@,
                Instruction::Mul => r@ == "mul"@,
                Instruction::Div => r@ == "div"@,
                Instruction::Mod => r@ == "mod_fn"@,
                Instruction::Jz => r@ == "jz"@,
                Instruction::GetSibling => r@ == "get_sibling"@,
                Instruction::GetChild => r@ == "get_child"@,
                Instruction::GetParent => r@ == "get_parent"@,
                Instruction::GetPropLen => r@ == "get_prop_len"@,
                Instruction::Inc => r@ == "inc"@,
                Instruction::Dec => r@ == "dec"@,
                Instruction::PrintAddr => r@ == "print_addr"@,
                Instruction::RemoveObj => r@ == "remove_obj"@,
                Instruction::PrintObj => r@ == "print_obj"@,
                Instruction::Ret => r@ == "ret"@,
                Instruction::Jump => r@ == "jump"@,
                Instruction::PrintPaddr => r@ == "print_paddr"@,
                Instruction::Load => r@ == "load"@,
                Instruction::Rtrue => r@ == "rtrue"@,
                Instruction::Rfalse => r@ == "rfalse"@,
                Instruction::Print => r@ == "print"@,
                Instruction::PrintRet => r@ == "print_ret"@,
                Instruction::Nop => r@ == "nop"@,
                Instruction::Save => r@ == "save"@,
                Instruction::Restore => r@ == "restore"@,
                Instruction::Restart => r@ == "restart"@,
                Instruction::RetPopped => r@ == "ret_popped"@,
                Instruction::Pop => r@ == "pop"@,
                Instruction::Quit => r@ == "quit"@,
                Instruction::NewLine => r@ == "new_line"@,
                Instruction::ShowStatus => r@ == "show_status"@,
                Instruction::Verify => r@ == "verify"@,
                Instruction::Call => r@ == "call"@,
                Instruction::Storew => r@ == "storew"@,
                Instruction::Storeb => r@ == "storeb"@,
                Instruction::PutProp => r@ == "put_prop"@,
                Instruction::Sread => r@ == "sread"@,
                Instruction::PrintChar => r@ == "print_char"@,
                Instruction::PrintNum => r@ == "print_num"@,
                Instruction::Random => r@ == "random"@,
                Instruction::Push => r@ == "push"@,
                Instruction::Pull => r@ == "pull"@,
                Instruction::SplitWindow => r@ == "split_window"@,
                Instruction::SetWindow => r@ == "set_window"@,
                Instruction::OutputStream => r@ == "output_stream"@,
                Instruction::InputStream => r@ == "input_stream"@,
                Instruction::SoundEffect => r@ == "sound_effect"@,
            },
            None => r@ == "illegal_operation"@,
        }),
{
    let two_op = match code.form {
        OpForm::Long | OpForm::LongAsVariable => true,
        _ => false,
    };
    if two_op {
        match code.code {
            0x0 => "debug",
            0x1 => "je",
            0x2 => "jl",
            0x3 => "jg",
            0x4 => "dec_chk",
            0x5 => "inc_chk",
            0x6 => "jin",
            0x7 => "test",
            0x8 => "or",
            0x9 => "and",
            0xA => "test_attr",
            0xB => "set_attr",
            0xC => "clear_attr",
            0xD => "store",
            0xE => "insert_obj",
            0xF => "loadw",
            0x10 => "loadb",
            0x11 => "get_prop",
            0x12 => "get_prop_addr",
            0x13 => "get_next_prop",
            0x14 => "add",
            0x15 => "sub",
            0x16 => "mul",
            0x17 => "div",
            0x18 => "mod_fn",
            _ => "illegal_operation",
        }
    } else {
        match (code.form, code.operand_count, code.code) {
            (OpForm::Short, 1, 0x0) => "jz",
            (OpForm::Short, 1, 0x1) => "get_sibling",
            (OpForm::Short, 1, 0x2) => "get_child",
            (OpForm::Short, 1, 0x3) => "get_parent",
            (OpForm::Short, 1, 0x4) => "get_prop_len",
            (OpForm::Short, 1, 0x5) => "inc",
            (OpForm::Short, 1, 0x6) => "dec",
            (OpForm::Short, 1, 0x7) => "print_addr",
            (OpForm::Short, 1, 0x9) => "remove_obj",
            (OpForm::Short, 1, 0xA) => "print_obj",
            (OpForm::Short, 1, 0xB) => "ret",
            (OpForm::Short, 1, 0xC) => "jump",
            (OpForm::Short, 1, 0xD) => "print_paddr",
            (OpForm::Short, 1, 0xE) => "load",
            (OpForm::Short, 0, 0x0) => "rtrue",
            (OpForm::Short, 0, 0x1) => "rfalse",
            (OpForm::Short, 0, 0x2) => "print",
            (OpForm::Short, 0, 0x3) => "print_ret",
            (OpForm::Short, 0, 0x4) => "nop",
            (OpForm::Short, 0, 0x5) => "save",
            (OpForm::Short, 0, 0x6) => "restore",
            (OpForm::Short, 0, 0x7) => "restart",
            (OpForm::Short, 0, 0x8) => "ret_popped",
            (OpForm::Short, 0, 0x9) => "pop",
            (OpForm::Short, 0, 0xA) => "quit",
            (OpForm::Short, 0, 0xB) => "new_line",
            (OpForm::Short, 0, 0xC) => "show_status",
            (OpForm::Short, 0, 0xD) => "verify",
            (OpForm::Variable, _, 0x0) => "call",
            (OpForm::Variable, _, 0x1) => "storew",
            (OpForm::Variable, _, 0x2) => "storeb",
            (OpForm::Variable, _, 0x3) => "put_prop",
            (OpForm::Variable, _, 0x4) => "sread",
            (OpForm::Variable, _, 0x5) => "print_char",
            (OpForm::Variable, _, 0x6) => "print_num",
            (OpForm::Variable, _, 0x7) => "random",
            (OpForm::Variable, _, 0x8) => "push",
            (OpForm::Variable, _, 0x9) => "pull",
            (OpForm::Variable, _, 0xA) => "split_window",
            (OpForm::Variable, _, 0xB) => "set_window",
            (OpForm::Variable, _, 0x13) => "output_stream",
            (OpForm::Variable, _, 0x14) => "input_stream",
            (OpForm::Variable, _, 0x15) => "sound_effect",
            _ => "illegal_operation",
        }
    }
}

} // verus!
