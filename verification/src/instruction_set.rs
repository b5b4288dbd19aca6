//! The opcode handlers.  Each takes the decoded opcode and the machine,
//! performs the handler effect, and leaves the store/branch trailer flags
//! and result for the machine to apply.

use vstd::prelude::*;

use crate::FatalError;
use crate::memory_view::{MemoryView, image_sized, with_word, word_at};
use crate::object_properties_view::{
    ObjectPropertiesView, find_prop, prop_id, prop_size, walk_in_bounds,
};
use crate::object_view::{ObjectView, attr_set};
use crate::opcode::{Instruction, OpCode, Operand, op_val};
use crate::text::{dec_signed, push_i16_decimal};
use crate::zmachine::{MachineState, ZMachine};
use crate::zstring::{
    Alphabet, ZString, ZWord, spec_decode, spec_decode_ok, spec_decode_zscii, zchars_of_words,
    zstring_words, zstring_words_ok,
};

verus! {

/// The signed reading of a 16-bit word (two's complement).
pub open spec fn s16(x: u16) -> int {
    if x >= 0x8000 {
        x - 0x10000
    } else {
        x as int
    }
}

/// An integer folded back into 16 bits (two's complement wrap-around).
pub open spec fn wrap16(x: int) -> u16 {
    (x % 0x10000) as u16
}

/// The absolute value.
pub open spec fn iabs(x: int) -> int {
    if x < 0 {
        -x
    } else {
        x
    }
}

/// Signed division truncating toward zero, as the `div` opcode computes it.
pub open spec fn trunc_div(x: int, y: int) -> int {
    if (x < 0) != (y < 0) {
        -(iabs(x) / iabs(y))
    } else {
        iabs(x) / iabs(y)
    }
}

/// Signed remainder whose sign follows the dividend, as the `mod` opcode
/// computes it.
pub open spec fn trunc_rem(x: int, y: int) -> int {
    if x < 0 {
        -(iabs(x) % iabs(y))
    } else {
        iabs(x) % iabs(y)
    }
}

/// Folding an integer shifted by a multiple of 2^16 gives the same word.
proof fn lemma_wrap_congruent(x: int, k: int)
    ensures
        wrap16(x + 0x10000 * k) == wrap16(x),
{
    vstd::arithmetic::div_mod::lemma_mod_multiples_vanish(k, x, 0x10000);
}

/// The value of operand `i`, or `BadOpcode` when it is absent.
pub fn operand_value(code: &OpCode, i: usize) -> (r: Result<u16, FatalError>)
    requires
        code.operands@.len() == 4,
    ensures
        r is Ok <==> (i < 4 && !(code.operands@[i as int] is Omitted)),
        r matches Ok(v) ==> v == op_val(code.operands@[i as int]),
        r matches Err(e) ==> e == FatalError::BadOpcode,
{
    if i >= 4 {
        return Err(FatalError::BadOpcode);
    }
    let op = code.operands[i];
    match op {
        Operand::Omitted => Err(FatalError::BadOpcode),
        _ => Ok(op.get_value()),
    }
}

/// Two's-complement 16-bit addition.
fn wrap_add(a: u16, b: u16) -> (r: u16)
    ensures
        r == wrap16(s16(a) + s16(b)),
{
    let s: u32 = a as u32 + b as u32;
    proof {
        let k: int = (if a >= 0x8000 {
            1int
        } else {
            0int
        }) + (if b >= 0x8000 {
            1int
        } else {
            0int
        });
        assert(s == s16(a) + s16(b) + 0x10000 * k);
        lemma_wrap_congruent(s16(a) + s16(b), k);
    }
    (s % 0x10000) as u16
}

/// Two's-complement 16-bit subtraction.
fn wrap_sub(a: u16, b: u16) -> (r: u16)
    ensures
        r == wrap16(s16(a) - s16(b)),
{
    let s: u32 = a as u32 + 0x10000 - b as u32;
    proof {
        let k: int = 1 + (if a >= 0x8000 {
            1int
        } else {
            0int
        }) - (if b >= 0x8000 {
            1int
        } else {
            0int
        });
        assert(s == s16(a) - s16(b) + 0x10000 * k);
        lemma_wrap_congruent(s16(a) - s16(b), k);
    }
    (s % 0x10000) as u16
}

/// Two's-complement 16-bit multiplication.
fn wrap_mul(a: u16, b: u16) -> (r: u16)
    ensures
        r == wrap16(s16(a) * s16(b)),
{
    proof {
        assert((a as int) * (b as int) <= 0xFFFF * 0xFFFF) by (nonlinear_arith)
            requires
                0 <= a as int <= 0xFFFF,
                0 <= b as int <= 0xFFFF,
        ;
    }
    let s: u64 = a as u64 * b as u64;
    proof {
        let ka: int = if a >= 0x8000 {
            1int
        } else {
            0int
        };
        let kb: int = if b >= 0x8000 {
            1int
        } else {
            0int
        };
        let k: int = ka * (b as int) + kb * (a as int) - 0x10000 * ka * kb;
        assert((a as int) * (b as int) == s16(a) * s16(b) + 0x10000 * k) by (nonlinear_arith)
            requires
                s16(a) == a - 0x10000 * ka,
                s16(b) == b - 0x10000 * kb,
                k == ka * (b as int) + kb * (a as int) - 0x10000 * ka * kb,
        ;
        lemma_wrap_congruent(s16(a) * s16(b), k);
    }
    (s % 0x10000) as u16
}

/// The magnitude of the signed reading of `x`.
fn magnitude(x: u16) -> (r: u32)
    ensures
        r == iabs(s16(x)),
{
    if x >= 0x8000 {
        0x10000 - x as u32
    } else {
        x as u32
    }
}

/// A non-negative value below 2^16 folded with the sign `negative`.
fn fold_sign(q: u32, negative: bool) -> (r: u16)
    requires
        q < 0x10000,
    ensures
        negative ==> r == wrap16(-(q as int)),
        !negative ==> r == q,
{
    if negative {
        if q == 0 {
            0
        } else {
            proof {
                lemma_wrap_congruent(-(q as int), 1);
                vstd::arithmetic::div_mod::lemma_small_mod((0x10000 - q) as nat, 0x10000);
            }
            (0x10000 - q) as u16
        }
    } else {
        proof {
            vstd::arithmetic::div_mod::lemma_small_mod(q as nat, 0x10000);
        }
        q as u16
    }
}

/// Truncating signed 16-bit division.
fn signed_div(a: u16, b: u16) -> (r: u16)
    requires
        s16(b) != 0,
    ensures
        r == wrap16(trunc_div(s16(a), s16(b))),
{
    let na = magnitude(a);
    let nb = magnitude(b);
    let q = na / nb;
    let negative = (a >= 0x8000) != (b >= 0x8000);
    proof {
        assert(q == iabs(s16(a)) / iabs(s16(b)));
        assert(q <= na);
    }
    fold_sign(q, negative)
}

/// Signed 16-bit remainder, sign following the dividend.
fn signed_mod(a: u16, b: u16) -> (r: u16)
    requires
        s16(b) != 0,
    ensures
        r == wrap16(trunc_rem(s16(a), s16(b))),
{
    let na = magnitude(a);
    let nb = magnitude(b);
    let rm = na % nb;
    proof {
        assert(rm == iabs(s16(a)) % iabs(s16(b)));
        assert(rm < nb);
    }
    fold_sign(rm, a >= 0x8000)
}

/// Bitwise and; stores.
pub fn and(code: &mut OpCode, machine: &mut ZMachine) -> (r: Result<(), FatalError>)
    requires
        old(code).operands@.len() == 4,
    ensures
        r is Ok <==> (!(old(code).operands@[0] is Omitted) && !(old(code).operands@[1]
            is Omitted)),
        r matches Ok(_) ==> *final(code) == (OpCode {
            store: true,
            result: op_val(old(code).operands@[0]) & op_val(old(code).operands@[1]),
            ..*old(code)
        }),
        *final(machine) == *old(machine),
        r matches Err(e) ==> e == FatalError::BadOpcode,
{
    let a = operand_value(code, 0)?;
    let b = operand_value(code, 1)?;
    code.store = true;
    code.result = a & b;
    Ok(())
}

/// Bitwise or; stores.
pub fn or(code: &mut OpCode, machine: &mut ZMachine) -> (r: Result<(), FatalError>)
    requires
        old(code).operands@.len() == 4,
    ensures
        r is Ok <==> (!(old(code).operands@[0] is Omitted) && !(old(code).operands@[1]
            is Omitted)),
        r matches Ok(_) ==> *final(code) == (OpCode {
            store: true,
            result: op_val(old(code).operands@[0]) | op_val(old(code).operands@[1]),
            ..*old(code)
        }),
        *final(machine) == *old(machine),
        r matches Err(e) ==> e == FatalError::BadOpcode,
{
    let a = operand_value(code, 0)?;
    let b = operand_value(code, 1)?;
    code.store = true;
    code.result = a | b;
    Ok(())
}

/// Signed 16-bit addition; stores.
pub fn add(code: &mut OpCode, machine: &mut ZMachine) -> (r: Result<(), FatalError>)
    requires
        old(code).operands@.len() == 4,
    ensures
        r is Ok <==> (!(old(code).operands@[0] is Omitted) && !(old(code).operands@[1]
            is Omitted)),
        r matches Ok(_) ==> *final(code) == (OpCode {
            store: true,
            result: wrap16(s16(op_val(old(code).operands@[0])) + s16(
                op_val(old(code).operands@[1]),
            )),
            ..*old(code)
        }),
        *final(machine) == *old(machine),
        r matches Err(e) ==> e == FatalError::BadOpcode,
{
    let a = operand_value(code, 0)?;
    let b = operand_value(code, 1)?;
    code.store = true;
    code.result = wrap_add(a, b);
    Ok(())
}

/// Signed 16-bit subtraction; stores.
pub fn sub(code: &mut OpCode, machine: &mut ZMachine) -> (r: Result<(), FatalError>)
    requires
        old(code).operands@.len() == 4,
    ensures
        r is Ok <==> (!(old(code).operands@[0] is Omitted) && !(old(code).operands@[1]
            is Omitted)),
        r matches Ok(_) ==> *final(code) == (OpCode {
            store: true,
            result: wrap16(s16(op_val(old(code).operands@[0])) - s16(
                op_val(old(code).operands@[1]),
            )),
            ..*old(code)
        }),
        *final(machine) == *old(machine),
        r matches Err(e) ==> e == FatalError::BadOpcode,
{
    let a = operand_value(code, 0)?;
    let b = operand_value(code, 1)?;
    code.store = true;
    code.result = wrap_sub(a, b);
    Ok(())
}

/// Signed 16-bit multiplication; stores.
pub fn mul(code: &mut OpCode, machine: &mut ZMachine) -> (r: Result<(), FatalError>)
    requires
        old(code).operands@.len() == 4,
    ensures
        r is Ok <==> (!(old(code).operands@[0] is Omitted) && !(old(code).operands@[1]
            is Omitted)),
        r matches Ok(_) ==> *final(code) == (OpCode {
            store: true,
            result: wrap16(s16(op_val(old(code).operands@[0])) * s16(
                op_val(old(code).operands@[1]),
            )),
            ..*old(code)
        }),
        *final(machine) == *old(machine),
        r matches Err(e) ==> e == FatalError::BadOpcode,
{
    let a = operand_value(code, 0)?;
    let b = operand_value(code, 1)?;
    code.store = true;
    code.result = wrap_mul(a, b);
    Ok(())
}

/// Signed division truncating toward zero; division by zero is fatal;
/// stores.
pub fn div(code: &mut OpCode, machine: &mut ZMachine) -> (r: Result<(), FatalError>)
    requires
        old(code).operands@.len() == 4,
    ensures
        r is Ok <==> (!(old(code).operands@[0] is Omitted) && !(old(code).operands@[1] is Omitted)
            && op_val(old(code).operands@[1]) != 0),
        r matches Ok(_) ==> *final(code) == (OpCode {
            store: true,
            result: wrap16(
                trunc_div(
                    s16(op_val(old(code).operands@[0])),
                    s16(op_val(old(code).operands@[1])),
                ),
            ),
            ..*old(code)
        }),
        *final(machine) == *old(machine),
        r matches Err(e) ==> (e == FatalError::BadOpcode || e == FatalError::BadProperty),
{
    let a = operand_value(code, 0)?;
    let b = operand_value(code, 1)?;
    if b == 0 {
        return Err(FatalError::BadProperty);
    }
    code.store = true;
    code.result = signed_div(a, b);
    Ok(())
}

/// Signed remainder, sign following the dividend; division by zero is
/// fatal; stores.
pub fn mod_fn(code: &mut OpCode, machine: &mut ZMachine) -> (r: Result<(), FatalError>)
    requires
        old(code).operands@.len() == 4,
    ensures
        r is Ok <==> (!(old(code).operands@[0] is Omitted) && !(old(code).operands@[1] is Omitted)
            && op_val(old(code).operands@[1]) != 0),
        r matches Ok(_) ==> *final(code) == (OpCode {
            store: true,
            result: wrap16(
                trunc_rem(
                    s16(op_val(old(code).operands@[0])),
                    s16(op_val(old(code).operands@[1])),
                ),
            ),
            ..*old(code)
        }),
        *final(machine) == *old(machine),
        r matches Err(e) ==> (e == FatalError::BadOpcode || e == FatalError::BadProperty),
{
    let a = operand_value(code, 0)?;
    let b = operand_value(code, 1)?;
    if b == 0 {
        return Err(FatalError::BadProperty);
    }
    code.store = true;
    code.result = signed_mod(a, b);
    Ok(())
}

/// A later operand equals the first; candidates stop at the first omitted
/// slot.
pub open spec fn je_match(ops: Seq<Operand>, i: int) -> bool
    decreases 4 - i,
{
    if !(1 <= i < 4) {
        false
    } else if ops[i] is Omitted {
        false
    } else if op_val(ops[i]) == op_val(ops[0]) {
        true
    } else {
        je_match(ops, i + 1)
    }
}

/// With no comparison candidates (the second operand already omitted), `je`
/// never matches, so it never branches on true.
pub proof fn lemma_je_no_candidates(ops: Seq<Operand>)
    requires
        ops.len() == 4,
        ops[1] is Omitted,
    ensures
        !je_match(ops, 1),
{
}

/// Branches when the first operand equals any other.
pub fn je(code: &mut OpCode, machine: &mut ZMachine) -> (r: Result<(), FatalError>)
    requires
        old(code).operands@.len() == 4,
    ensures
        r is Ok <==> !(old(code).operands@[0] is Omitted),
        r matches Ok(_) ==> *final(code) == (OpCode {
            branch: true,
            result: if je_match(old(code).operands@, 1) {
                1u16
            } else {
                0u16
            },
            ..*old(code)
        }),
        *final(machine) == *old(machine),
        r matches Err(e) ==> e == FatalError::BadOpcode,
{
    let candidate = operand_value(code, 0)?;
    code.branch = true;
    let mut i: usize = 1;
    while i < 4
        invariant
            1 <= i <= 4,
            code.operands@.len() == 4,
            candidate == op_val(code.operands@[0]),
            *code == (OpCode { branch: true, ..*old(code) }),
            !(old(code).operands@[0] is Omitted),
            je_match(code.operands@, 1) == (if i < 4 {
                je_match(code.operands@, i as int)
            } else {
                false
            }),
        decreases 4 - i,
    {
        let op = code.operands[i];
        match op {
            Operand::Omitted => {
                proof {
                    assert(!je_match(code.operands@, i as int));
                }
                code.result = 0;
                return Ok(());
            },
            _ => {
                if candidate == op.get_value() {
                    proof {
                        assert(je_match(code.operands@, i as int));
                    }
                    code.result = 1;
                    return Ok(());
                }
                proof {
                    assert(!(code.operands@[i as int] is Omitted));
                    assert(op_val(code.operands@[i as int]) != op_val(code.operands@[0]));
                    if i + 1 < 4 {
                        assert(je_match(code.operands@, i as int) == je_match(
                            code.operands@,
                            i + 1,
                        ));
                    } else {
                        assert(i == 3);
                        assert(!je_match(code.operands@, 4int));
                        assert(!je_match(code.operands@, 3int));
                    }
                }
            },
        }
        i = i + 1;
    }
    code.result = 0;
    Ok(())
}

/// Branches when the first operand is signed-less than the second.
pub fn jl(code: &mut OpCode, machine: &mut ZMachine) -> (r: Result<(), FatalError>)
    requires
        old(code).operands@.len() == 4,
    ensures
        r is Ok <==> (!(old(code).operands@[0] is Omitted) && !(old(code).operands@[1]
            is Omitted)),
        r matches Ok(_) ==> *final(code) == (OpCode {
            branch: true,
            result: if s16(op_val(old(code).operands@[0])) < s16(op_val(old(code).operands@[1])) {
                1u16
            } else {
                0u16
            },
            ..*old(code)
        }),
        *final(machine) == *old(machine),
        r matches Err(e) ==> e == FatalError::BadOpcode,
{
    let a = operand_value(code, 0)?;
    let b = operand_value(code, 1)?;
    code.branch = true;
    let sa = if a >= 0x8000 {
        a as i32 - 0x10000
    } else {
        a as i32
    };
    let sb = if b >= 0x8000 {
        b as i32 - 0x10000
    } else {
        b as i32
    };
    code.result = if sa < sb {
        1
    } else {
        0
    };
    Ok(())
}

/// Branches when the first operand is signed-greater than the second.
pub fn jg(code: &mut OpCode, machine: &mut ZMachine) -> (r: Result<(), FatalError>)
    requires
        old(code).operands@.len() == 4,
    ensures
        r is Ok <==> (!(old(code).operands@[0] is Omitted) && !(old(code).operands@[1]
            is Omitted)),
        r matches Ok(_) ==> *final(code) == (OpCode {
            branch: true,
            result: if s16(op_val(old(code).operands@[0])) > s16(op_val(old(code).operands@[1])) {
                1u16
            } else {
                0u16
            },
            ..*old(code)
        }),
        *final(machine) == *old(machine),
        r matches Err(e) ==> e == FatalError::BadOpcode,
{
    let a = operand_value(code, 0)?;
    let b = operand_value(code, 1)?;
    code.branch = true;
    let sa = if a >= 0x8000 {
        a as i32 - 0x10000
    } else {
        a as i32
    };
    let sb = if b >= 0x8000 {
        b as i32 - 0x10000
    } else {
        b as i32
    };
    code.result = if sa > sb {
        1
    } else {
        0
    };
    Ok(())
}

/// Branches when the operand is zero.
pub fn jz(code: &mut OpCode, machine: &mut ZMachine) -> (r: Result<(), FatalError>)
    requires
        old(code).operands@.len() == 4,
    ensures
        r is Ok <==> !(old(code).operands@[0] is Omitted),
        r matches Ok(_) ==> *final(code) == (OpCode {
            branch: true,
            result: if op_val(old(code).operands@[0]) == 0 {
                1u16
            } else {
                0u16
            },
            ..*old(code)
        }),
        *final(machine) == *old(machine),
        r matches Err(e) ==> e == FatalError::BadOpcode,
{
    let a = operand_value(code, 0)?;
    code.branch = true;
    code.result = if a == 0 {
        1
    } else {
        0
    };
    Ok(())
}

/// Branches when every bit of `flags` is set in `mask`.
pub fn test(code: &mut OpCode, machine: &mut ZMachine) -> (r: Result<(), FatalError>)
    requires
        old(code).operands@.len() == 4,
    ensures
        r is Ok <==> (!(old(code).operands@[0] is Omitted) && !(old(code).operands@[1]
            is Omitted)),
        r matches Ok(_) ==> *final(code) == (OpCode {
            branch: true,
            result: if op_val(old(code).operands@[0]) & op_val(old(code).operands@[1]) == op_val(
                old(code).operands@[1],
            ) {
                1u16
            } else {
                0u16
            },
            ..*old(code)
        }),
        *final(machine) == *old(machine),
        r matches Err(e) ==> e == FatalError::BadOpcode,
{
    let mask = operand_value(code, 0)?;
    let flags = operand_value(code, 1)?;
    code.branch = true;
    code.result = if mask & flags == flags {
        1
    } else {
        0
    };
    Ok(())
}

/// Stores the word at `arr + 2 * i`.
pub fn loadw(code: &mut OpCode, machine: &mut ZMachine) -> (r: Result<(), FatalError>)
    requires
        old(code).operands@.len() == 4,
        old(machine).wf(),
    ensures
        r is Ok <==> (!(old(code).operands@[0] is Omitted) && !(old(code).operands@[1] is Omitted)
            && op_val(old(code).operands@[0]) + 2 * op_val(old(code).operands@[1]) + 1 < old(
            machine,
        ).memory@.len()),
        r matches Ok(_) ==> *final(code) == (OpCode {
            store: true,
            result: word_at(
                old(machine).memory@,
                op_val(old(code).operands@[0]) + 2 * op_val(old(code).operands@[1]),
            ) as u16,
            ..*old(code)
        }),
        *final(machine) == *old(machine),
        r matches Err(e) ==> (e == FatalError::BadOpcode || e == FatalError::BadAddress),
{
    let start = operand_value(code, 0)?;
    let index = operand_value(code, 1)?;
    let address = start as u32 + index as u32 * 2;
    if address as u64 + 1 >= machine.memory.len() as u64 {
        return Err(FatalError::BadAddress);
    }
    code.store = true;
    code.result = machine.get_memory_view().read_u16_at(&machine.memory, address);
    Ok(())
}

/// Stores the byte at `arr + i`, zero-extended.
pub fn loadb(code: &mut OpCode, machine: &mut ZMachine) -> (r: Result<(), FatalError>)
    requires
        old(code).operands@.len() == 4,
        old(machine).wf(),
    ensures
        r is Ok <==> (!(old(code).operands@[0] is Omitted) && !(old(code).operands@[1] is Omitted)
            && op_val(old(code).operands@[0]) + op_val(old(code).operands@[1]) < old(
            machine,
        ).memory@.len()),
        r matches Ok(_) ==> *final(code) == (OpCode {
            store: true,
            result: old(machine).memory@[op_val(old(code).operands@[0]) + op_val(
                old(code).operands@[1],
            )] as u16,
            ..*old(code)
        }),
        *final(machine) == *old(machine),
        r matches Err(e) ==> (e == FatalError::BadOpcode || e == FatalError::BadAddress),
{
    let array = operand_value(code, 0)?;
    let byte_index = operand_value(code, 1)?;
    let address = array as u32 + byte_index as u32;
    if address as u64 >= machine.memory.len() as u64 {
        return Err(FatalError::BadAddress);
    }
    code.store = true;
    code.result = machine.get_memory_view().read_at(&machine.memory, address) as u16;
    Ok(())
}

/// Writes the word `v` at `arr + 2 * i`.
pub fn storew(code: &mut OpCode, machine: &mut ZMachine) -> (r: Result<(), FatalError>)
    requires
        old(code).operands@.len() == 4,
        old(machine).wf(),
    ensures
        r is Ok <==> (!(old(code).operands@[0] is Omitted) && !(old(code).operands@[1] is Omitted)
            && !(old(code).operands@[2] is Omitted) && op_val(old(code).operands@[0]) + 2 * op_val(
            old(code).operands@[1],
        ) + 1 < old(machine).memory@.len()),
        r matches Ok(_) ==> final(machine).memory@ == with_word(
            old(machine).memory@,
            op_val(old(code).operands@[0]) + 2 * op_val(old(code).operands@[1]),
            op_val(old(code).operands@[2]),
        ),
        r matches Ok(_) ==> *final(code) == *old(code),
        r matches Ok(_) ==> *final(machine) == (ZMachine {
            memory: final(machine).memory,
            ..*old(machine)
        }),
        r is Err ==> *final(machine) == *old(machine) && *final(code) == *old(code),
        final(machine).wf(),
        ZMachine::same_shape(*old(machine), *final(machine)),
        r matches Err(e) ==> (e == FatalError::BadOpcode || e == FatalError::BadAddress),
{
    let start = operand_value(code, 0)?;
    let index = operand_value(code, 1)?;
    let value = operand_value(code, 2)?;
    let address = start as u32 + index as u32 * 2;
    if address as u64 + 1 >= machine.memory.len() as u64 {
        return Err(FatalError::BadAddress);
    }
    let view = machine.get_memory_view();
    view.write_u16_at(&mut machine.memory, address, value);
    Ok(())
}

/// Writes the byte `v` at `arr + i`.
pub fn storeb(code: &mut OpCode, machine: &mut ZMachine) -> (r: Result<(), FatalError>)
    requires
        old(code).operands@.len() == 4,
        old(machine).wf(),
    ensures
        r is Ok <==> (!(old(code).operands@[0] is Omitted) && !(old(code).operands@[1] is Omitted)
            && !(old(code).operands@[2] is Omitted) && op_val(old(code).operands@[0]) + op_val(
            old(code).operands@[1],
        ) < old(machine).memory@.len()),
        r matches Ok(_) ==> final(machine).memory@ == old(machine).memory@.update(
            op_val(old(code).operands@[0]) + op_val(old(code).operands@[1]),
            (op_val(old(code).operands@[2]) % 256) as u8,
        ),
        r matches Ok(_) ==> *final(code) == *old(code),
        r matches Ok(_) ==> *final(machine) == (ZMachine {
            memory: final(machine).memory,
            ..*old(machine)
        }),
        r is Err ==> *final(machine) == *old(machine) && *final(code) == *old(code),
        final(machine).wf(),
        ZMachine::same_shape(*old(machine), *final(machine)),
        r matches Err(e) ==> (e == FatalError::BadOpcode || e == FatalError::BadAddress),
{
    let start = operand_value(code, 0)?;
    let index = operand_value(code, 1)?;
    let value = operand_value(code, 2)?;
    let address = start as u32 + index as u32;
    if address as u64 >= machine.memory.len() as u64 {
        return Err(FatalError::BadAddress);
    }
    let view = machine.get_memory_view();
    view.write_at(&mut machine.memory, address, (value % 256) as u8);
    Ok(())
}

/// Writes the second operand to the variable the first names, in place.
pub fn store(code: &mut OpCode, machine: &mut ZMachine) -> (r: Result<(), FatalError>)
    requires
        old(code).operands@.len() == 4,
        old(machine).wf(),
    ensures
        r is Ok <==> (!(old(code).operands@[0] is Omitted) && !(old(code).operands@[1] is Omitted)
            && old(machine).spec_peek_ok((op_val(old(code).operands@[0]) % 256) as u8)),
        r matches Ok(_) ==> ZMachine::spec_write_in_place(
            *old(machine),
            *final(machine),
            (op_val(old(code).operands@[0]) % 256) as u8,
            op_val(old(code).operands@[1]),
        ),
        r matches Ok(_) ==> *final(code) == *old(code),
        r is Err ==> *final(machine) == *old(machine),
        final(machine).wf(),
        ZMachine::same_shape(*old(machine), *final(machine)),
{
    let variable = operand_value(code, 0)?;
    let value = operand_value(code, 1)?;
    machine.write_variable_in_place((variable % 256) as u8, value)?;
    Ok(())
}

/// Stores the value of the variable the operand names, read without a pop.
pub fn load(code: &mut OpCode, machine: &mut ZMachine) -> (r: Result<(), FatalError>)
    requires
        old(code).operands@.len() == 4,
        old(machine).wf(),
    ensures
        r is Ok <==> (!(old(code).operands@[0] is Omitted) && old(machine).spec_peek_ok(
            (op_val(old(code).operands@[0]) % 256) as u8,
        )),
        r matches Ok(_) ==> *final(code) == (OpCode {
            store: true,
            result: old(machine).spec_peek_variable(
                (op_val(old(code).operands@[0]) % 256) as u8,
            ) as u16,
            ..*old(code)
        }),
        *final(machine) == *old(machine),
{
    let variable = operand_value(code, 0)?;
    let value = machine.read_variable((variable % 256) as u8)?;
    code.store = true;
    code.result = value;
    Ok(())
}

/// Pushes the operand onto the evaluation stack.
pub fn push(code: &mut OpCode, machine: &mut ZMachine) -> (r: Result<(), FatalError>)
    requires
        old(code).operands@.len() == 4,
        old(machine).wf(),
    ensures
        r is Ok <==> !(old(code).operands@[0] is Omitted),
        r matches Ok(_) ==> final(machine).call_stack.stack@ == old(
            machine,
        ).call_stack.stack@.push(op_val(old(code).operands@[0])),
        r matches Ok(_) ==> *final(machine) == (ZMachine {
            call_stack: final(machine).call_stack,
            ..*old(machine)
        }) && final(machine).call_stack.top_of_frame == old(machine).call_stack.top_of_frame,
        r matches Ok(_) ==> *final(code) == *old(code),
        final(machine).wf(),
        ZMachine::same_shape(*old(machine), *final(machine)),
{
    let value = operand_value(code, 0)?;
    machine.call_stack.stack.push(value);
    Ok(())
}

/// Pops the evaluation stack into the variable the operand names.
pub fn pull(code: &mut OpCode, machine: &mut ZMachine) -> (r: Result<(), FatalError>)
    requires
        old(code).operands@.len() == 4,
        old(machine).wf(),
    ensures
        final(machine).wf(),
        ZMachine::same_shape(*old(machine), *final(machine)),
        r is Ok <==> (!(old(code).operands@[0] is Omitted) && old(
            machine,
        ).call_stack.stack@.len() > 0 && ({
            let dest = (op_val(old(code).operands@[0]) % 256) as u8;
            dest == 0 || dest > 15 || old(machine).call_stack.top_of_frame + dest < old(
                machine,
            ).call_stack.stack@.len() - 1
        })),
        r matches Ok(_) ==> ZMachine::spec_store_variable_parts(
            *old(machine),
            old(machine).call_stack.stack@.drop_last(),
            *final(machine),
            (op_val(old(code).operands@[0]) % 256) as u8,
            old(machine).call_stack.stack@.last(),
        ),
        r matches Ok(_) ==> *final(code) == *old(code),
{
    let destination = operand_value(code, 0)?;
    if machine.call_stack.stack.len() == 0 {
        return Err(FatalError::StackUnderflow);
    }
    let value = match machine.call_stack.stack.pop() {
        Some(x) => x,
        None => {
            return Err(FatalError::StackUnderflow);
        },
    };
    machine.store_variable((destination % 256) as u8, value)?;
    Ok(())
}

/// Discards the top of the evaluation stack.
pub fn pop(code: &mut OpCode, machine: &mut ZMachine) -> (r: Result<(), FatalError>)
    requires
        old(machine).wf(),
    ensures
        r is Ok <==> old(machine).call_stack.stack@.len() > 0,
        r matches Ok(_) ==> final(machine).call_stack.stack@ == old(
            machine,
        ).call_stack.stack@.drop_last(),
        r matches Ok(_) ==> *final(machine) == (ZMachine {
            call_stack: final(machine).call_stack,
            ..*old(machine)
        }) && final(machine).call_stack.top_of_frame == old(machine).call_stack.top_of_frame,
        r is Err ==> *final(machine) == *old(machine),
        *final(code) == *old(code),
        final(machine).wf(),
        ZMachine::same_shape(*old(machine), *final(machine)),
{
    if machine.call_stack.stack.len() == 0 {
        return Err(FatalError::StackUnderflow);
    }
    machine.call_stack.stack.pop();
    Ok(())
}

/// Increments the named variable in place (signed, wrapping).
pub fn inc(code: &mut OpCode, machine: &mut ZMachine) -> (r: Result<(), FatalError>)
    requires
        old(code).operands@.len() == 4,
        old(machine).wf(),
    ensures
        r is Ok <==> (!(old(code).operands@[0] is Omitted) && old(machine).spec_peek_ok(
            (op_val(old(code).operands@[0]) % 256) as u8,
        )),
        r matches Ok(_) ==> ZMachine::spec_write_in_place(
            *old(machine),
            *final(machine),
            (op_val(old(code).operands@[0]) % 256) as u8,
            wrap16(
                old(machine).spec_peek_variable((op_val(old(code).operands@[0]) % 256) as u8) + 1,
            ),
        ),
        r matches Ok(_) ==> *final(code) == *old(code),
        final(machine).wf(),
        ZMachine::same_shape(*old(machine), *final(machine)),
{
    let variable = operand_value(code, 0)?;
    let addr = (variable % 256) as u8;
    let current = machine.read_variable(addr)?;
    let next = wrap_add(current, 1);
    proof {
        assert(s16(1u16) == 1);
        assert(s16(current) + 1 == current + 1 || s16(current) + 1 == current + 1 - 0x10000);
        lemma_wrap_congruent(current as int + 1, -1);
    }
    machine.write_variable_in_place(addr, next)?;
    Ok(())
}

/// Decrements the named variable in place (signed, wrapping).
pub fn dec(code: &mut OpCode, machine: &mut ZMachine) -> (r: Result<(), FatalError>)
    requires
        old(code).operands@.len() == 4,
        old(machine).wf(),
    ensures
        r is Ok <==> (!(old(code).operands@[0] is Omitted) && old(machine).spec_peek_ok(
            (op_val(old(code).operands@[0]) % 256) as u8,
        )),
        r matches Ok(_) ==> ZMachine::spec_write_in_place(
            *old(machine),
            *final(machine),
            (op_val(old(code).operands@[0]) % 256) as u8,
            wrap16(
                old(machine).spec_peek_variable((op_val(old(code).operands@[0]) % 256) as u8) - 1,
            ),
        ),
        r matches Ok(_) ==> *final(code) == *old(code),
        final(machine).wf(),
        ZMachine::same_shape(*old(machine), *final(machine)),
{
    let variable = operand_value(code, 0)?;
    let addr = (variable % 256) as u8;
    let current = machine.read_variable(addr)?;
    let next = wrap_sub(current, 1);
    proof {
        assert(s16(1u16) == 1);
        assert(s16(current) - 1 == current - 1 || s16(current) - 1 == current - 1 - 0x10000);
        lemma_wrap_congruent(current as int - 1, -1);
    }
    machine.write_variable_in_place(addr, next)?;
    Ok(())
}

/// Increments the named variable, then branches when it exceeds the second
/// operand (signed).
pub fn inc_chk(code: &mut OpCode, machine: &mut ZMachine) -> (r: Result<(), FatalError>)
    requires
        old(code).operands@.len() == 4,
        old(machine).wf(),
    ensures
        r is Ok <==> (!(old(code).operands@[0] is Omitted) && !(old(code).operands@[1] is Omitted)
            && old(machine).spec_peek_ok((op_val(old(code).operands@[0]) % 256) as u8)),
        r matches Ok(_) ==> ({
            let addr = (op_val(old(code).operands@[0]) % 256) as u8;
            let next = wrap16(old(machine).spec_peek_variable(addr) + 1);
            &&& ZMachine::spec_write_in_place(*old(machine), *final(machine), addr, next)
            &&& *final(code) == (OpCode {
                branch: true,
                result: if s16(next) > s16(op_val(old(code).operands@[1])) {
                    1u16
                } else {
                    0u16
                },
                ..*old(code)
            })
        }),
        final(machine).wf(),
        ZMachine::same_shape(*old(machine), *final(machine)),
{
    let variable = operand_value(code, 0)?;
    let value = operand_value(code, 1)?;
    code.branch = true;
    let addr = (variable % 256) as u8;
    let current = machine.read_variable(addr)?;
    let next = wrap_add(current, 1);
    proof {
        assert(s16(1u16) == 1);
        lemma_wrap_congruent(current as int + 1, -1);
        assert(s16(current) + 1 == current + 1 || s16(current) + 1 == current + 1 - 0x10000);
    }
    machine.write_variable_in_place(addr, next)?;
    let sn = if next >= 0x8000 {
        next as i32 - 0x10000
    } else {
        next as i32
    };
    let sv = if value >= 0x8000 {
        value as i32 - 0x10000
    } else {
        value as i32
    };
    code.result = if sn > sv {
        1
    } else {
        0
    };
    Ok(())
}

/// Decrements the named variable, then branches when it is below the second
/// operand (signed).
pub fn dec_chk(code: &mut OpCode, machine: &mut ZMachine) -> (r: Result<(), FatalError>)
    requires
        old(code).operands@.len() == 4,
        old(machine).wf(),
    ensures
        r is Ok <==> (!(old(code).operands@[0] is Omitted) && !(old(code).operands@[1] is Omitted)
            && old(machine).spec_peek_ok((op_val(old(code).operands@[0]) % 256) as u8)),
        r matches Ok(_) ==> ({
            let addr = (op_val(old(code).operands@[0]) % 256) as u8;
            let next = wrap16(old(machine).spec_peek_variable(addr) - 1);
            &&& ZMachine::spec_write_in_place(*old(machine), *final(machine), addr, next)
            &&& *final(code) == (OpCode {
                branch: true,
                result: if s16(next) < s16(op_val(old(code).operands@[1])) {
                    1u16
                } else {
                    0u16
                },
                ..*old(code)
            })
        }),
        final(machine).wf(),
        ZMachine::same_shape(*old(machine), *final(machine)),
{
    let variable = operand_value(code, 0)?;
    let value = operand_value(code, 1)?;
    code.branch = true;
    let addr = (variable % 256) as u8;
    let current = machine.read_variable(addr)?;
    let next = wrap_sub(current, 1);
    proof {
        assert(s16(1u16) == 1);
        lemma_wrap_congruent(current as int - 1, -1);
        assert(s16(current) - 1 == current - 1 || s16(current) - 1 == current - 1 - 0x10000);
    }
    machine.write_variable_in_place(addr, next)?;
    let sn = if next >= 0x8000 {
        next as i32 - 0x10000
    } else {
        next as i32
    };
    let sv = if value >= 0x8000 {
        value as i32 - 0x10000
    } else {
        value as i32
    };
    code.result = if sn < sv {
        1
    } else {
        0
    };
    Ok(())
}

/// No effect; some compilers used this slot for debugging markers.
pub fn debug(code: &mut OpCode, machine: &mut ZMachine) -> (r: Result<(), FatalError>)
    ensures
        r is Ok,
        *final(code) == *old(code),
        *final(machine) == *old(machine),
{
    Ok(())
}

/// No effect.
pub fn nop(code: &mut OpCode, machine: &mut ZMachine) -> (r: Result<(), FatalError>)
    ensures
        r is Ok,
        *final(code) == *old(code),
        *final(machine) == *old(machine),
{
    Ok(())
}

/// Always branches true: the checksum test is taken to pass.
pub fn verify(code: &mut OpCode, machine: &mut ZMachine) -> (r: Result<(), FatalError>)
    ensures
        r is Ok,
        *final(code) == (OpCode { branch: true, result: 1u16, ..*old(code) }),
        *final(machine) == *old(machine),
{
    code.branch = true;
    code.result = 1;
    Ok(())
}

/// Out of scope; branches false as a stub.
pub fn save(code: &mut OpCode, machine: &mut ZMachine) -> (r: Result<(), FatalError>)
    ensures
        r is Ok,
        *final(code) == (OpCode { branch: true, result: 0u16, ..*old(code) }),
        *final(machine) == *old(machine),
{
    code.branch = true;
    code.result = 0;
    Ok(())
}

/// Out of scope; branches false as a stub.
pub fn restore(code: &mut OpCode, machine: &mut ZMachine) -> (r: Result<(), FatalError>)
    ensures
        r is Ok,
        *final(code) == (OpCode { branch: true, result: 0u16, ..*old(code) }),
        *final(machine) == *old(machine),
{
    code.branch = true;
    code.result = 0;
    Ok(())
}

/// Asks for a fresh image: the driver reloads and resets.
pub fn restart(code: &mut OpCode, machine: &mut ZMachine) -> (r: Result<(), FatalError>)
    ensures
        r is Ok,
        *final(code) == (OpCode { read_bytes: 0u32, ..*old(code) }),
        *final(machine) == (ZMachine { state: MachineState::Restarting, ..*old(machine) }),
{
    machine.state = MachineState::Restarting;
    code.read_bytes = 0;
    Ok(())
}

/// Ends execution for good.
pub fn quit(code: &mut OpCode, machine: &mut ZMachine) -> (r: Result<(), FatalError>)
    ensures
        r is Ok,
        *final(code) == (OpCode { read_bytes: 0u32, ..*old(code) }),
        *final(machine) == (ZMachine { state: MachineState::Stopped, ..*old(machine) }),
{
    machine.state = MachineState::Stopped;
    code.read_bytes = 0;
    Ok(())
}

/// No effect in the version 1-3 scope.
pub fn split_window(code: &mut OpCode, machine: &mut ZMachine) -> (r: Result<(), FatalError>)
    ensures
        r is Ok,
        *final(code) == *old(code),
        *final(machine) == *old(machine),
{
    Ok(())
}

/// No effect in the version 1-3 scope.
pub fn set_window(code: &mut OpCode, machine: &mut ZMachine) -> (r: Result<(), FatalError>)
    ensures
        r is Ok,
        *final(code) == *old(code),
        *final(machine) == *old(machine),
{
    Ok(())
}

/// No effect in the version 1-3 scope.
pub fn output_stream(code: &mut OpCode, machine: &mut ZMachine) -> (r: Result<(), FatalError>)
    ensures
        r is Ok,
        *final(code) == *old(code),
        *final(machine) == *old(machine),
{
    Ok(())
}

/// No effect in the version 1-3 scope.
pub fn input_stream(code: &mut OpCode, machine: &mut ZMachine) -> (r: Result<(), FatalError>)
    ensures
        r is Ok,
        *final(code) == *old(code),
        *final(machine) == *old(machine),
{
    Ok(())
}

/// No effect in the version 1-3 scope.
pub fn sound_effect(code: &mut OpCode, machine: &mut ZMachine) -> (r: Result<(), FatalError>)
    ensures
        r is Ok,
        *final(code) == *old(code),
        *final(machine) == *old(machine),
{
    Ok(())
}

/// Prints the operand as a signed decimal number.
pub fn print_num(code: &mut OpCode, machine: &mut ZMachine) -> (r: Result<(), FatalError>)
    requires
        old(code).operands@.len() == 4,
    ensures
        r is Ok <==> !(old(code).operands@[0] is Omitted),
        r matches Ok(_) ==> final(machine).output@ == old(machine).output@ + dec_signed(
            s16(op_val(old(code).operands@[0])),
        ),
        r matches Ok(_) ==> *final(machine) == (ZMachine {
            output: final(machine).output,
            ..*old(machine)
        }),
        r matches Ok(_) ==> *final(code) == *old(code),
        r is Err ==> *final(machine) == *old(machine),
{
    let num = operand_value(code, 0)?;
    let signed: i16 = if num >= 0x8000 {
        proof {
            assert(num - 0x10000 >= i16::MIN);
        }
        ((num as i32) - 0x10000) as i16
    } else {
        num as i16
    };
    proof {
        assert(signed as int == s16(num));
    }
    push_i16_decimal(&mut machine.output, signed);
    Ok(())
}

/// Prints a newline.
pub fn new_line(code: &mut OpCode, machine: &mut ZMachine) -> (r: Result<(), FatalError>)
    ensures
        r is Ok,
        final(machine).output@ == old(machine).output@.push('\n'),
        *final(machine) == (ZMachine { output: final(machine).output, ..*old(machine) }),
        *final(code) == *old(code),
{
    machine.output.push('\n');
    Ok(())
}

/// Prints the ZSCII character the operand names; codes outside the table
/// print nothing.
pub fn print_char(code: &mut OpCode, machine: &mut ZMachine) -> (r: Result<(), FatalError>)
    requires
        old(code).operands@.len() == 4,
    ensures
        r is Ok <==> !(old(code).operands@[0] is Omitted),
        r matches Ok(_) ==> final(machine).output@ == old(machine).output@ + (match
            spec_decode_zscii(op_val(old(code).operands@[0])) {
            Some(c) => seq![c],
            None => Seq::empty(),
        }),
        r matches Ok(_) ==> *final(machine) == (ZMachine {
            output: final(machine).output,
            ..*old(machine)
        }),
        r matches Ok(_) ==> *final(code) == *old(code),
        r is Err ==> *final(machine) == *old(machine),
{
    let ch = operand_value(code, 0)?;
    match ZString::decode_zscii(ch) {
        Some(x) => {
            machine.output.push(x);
            proof {
                assert(final(machine).output@ =~= old(machine).output@ + seq![x]);
            }
        },
        None => {
            proof {
                assert(final(machine).output@ =~= old(machine).output@ + Seq::<char>::empty());
            }
        },
    }
    Ok(())
}

/// The absolute address of object `o`'s 9-byte entry.
pub open spec fn obj_base(m: ZMachine, o: int) -> int {
    m.header.object_table_location + 62 + 9 * (o - 1)
}

/// Object `o` is a real id whose entry lies inside the image.
pub open spec fn obj_fits(m: ZMachine, o: int) -> bool {
    &&& 1 <= o < 256
    &&& obj_base(m, o) + 9 <= m.memory@.len()
}

/// The parent id of object `o` in `m`.
pub open spec fn obj_parent(m: ZMachine, o: int) -> u8 {
    m.memory@[obj_base(m, o) + 4]
}

/// The sibling id of object `o` in `m`.
pub open spec fn obj_sibling(m: ZMachine, o: int) -> u8 {
    m.memory@[obj_base(m, o) + 5]
}

/// The child id of object `o` in `m`.
pub open spec fn obj_child(m: ZMachine, o: int) -> u8 {
    m.memory@[obj_base(m, o) + 6]
}

/// The property-table address of object `o` in `m`.
pub open spec fn obj_prop_table(m: ZMachine, o: int) -> int {
    word_at(m.memory@, obj_base(m, o) + 7)
}

/// The first size-byte cursor of the property table at `table`.
pub open spec fn prop_cursor(mem: Seq<u8>, table: int) -> int {
    table + 2 * mem[table] + 1
}

/// A checked view of object `object`'s entry: the id must be a 1-byte id of
/// versions 1-3 and the entry must lie inside the image.
fn object_view_checked(machine: &ZMachine, object: u16) -> (r: Result<ObjectView, FatalError>)
    requires
        machine.wf(),
    ensures
        r is Ok <==> obj_fits(*machine, object as int),
        r matches Ok(v) ==> ({
            &&& v.fits(machine.memory@)
            &&& v.object_id == object
            &&& v.view.pointer == obj_base(*machine, object as int)
            &&& v.defaults_view.pointer == machine.header.object_table_location
        }),
        r matches Err(e) ==> e == FatalError::BadAddress,
{
    if object == 0 || object >= 256 {
        return Err(FatalError::BadAddress);
    }
    let base64 = machine.header.object_table_location as u64 + 62 + 9 * (object as u64 - 1);
    if base64 + 9 > machine.memory.len() as u64 {
        return Err(FatalError::BadAddress);
    }
    Ok(machine.get_object_view(object))
}

/// Stores the parent id of the operand object.
pub fn get_parent(code: &mut OpCode, machine: &mut ZMachine) -> (r: Result<(), FatalError>)
    requires
        old(code).operands@.len() == 4,
        old(machine).wf(),
    ensures
        r is Ok <==> (!(old(code).operands@[0] is Omitted) && obj_fits(
            *old(machine),
            op_val(old(code).operands@[0]) as int,
        )),
        r matches Ok(_) ==> *final(code) == (OpCode {
            store: true,
            result: obj_parent(*old(machine), op_val(old(code).operands@[0]) as int) as u16,
            ..*old(code)
        }),
        *final(machine) == *old(machine),
{
    let object = operand_value(code, 0)?;
    let view = object_view_checked(machine, object)?;
    code.store = true;
    code.result = view.get_parent(&machine.memory);
    Ok(())
}

/// Stores the sibling id of the operand object and branches when non-zero.
pub fn get_sibling(code: &mut OpCode, machine: &mut ZMachine) -> (r: Result<(), FatalError>)
    requires
        old(code).operands@.len() == 4,
        old(machine).wf(),
    ensures
        r is Ok <==> (!(old(code).operands@[0] is Omitted) && obj_fits(
            *old(machine),
            op_val(old(code).operands@[0]) as int,
        )),
        r matches Ok(_) ==> *final(code) == (OpCode {
            store: true,
            branch: true,
            result: obj_sibling(*old(machine), op_val(old(code).operands@[0]) as int) as u16,
            ..*old(code)
        }),
        *final(machine) == *old(machine),
{
    let object = operand_value(code, 0)?;
    let view = object_view_checked(machine, object)?;
    code.store = true;
    code.branch = true;
    code.result = view.get_sibling(&machine.memory);
    Ok(())
}

/// Stores the child id of the operand object and branches when non-zero.
pub fn get_child(code: &mut OpCode, machine: &mut ZMachine) -> (r: Result<(), FatalError>)
    requires
        old(code).operands@.len() == 4,
        old(machine).wf(),
    ensures
        r is Ok <==> (!(old(code).operands@[0] is Omitted) && obj_fits(
            *old(machine),
            op_val(old(code).operands@[0]) as int,
        )),
        r matches Ok(_) ==> *final(code) == (OpCode {
            store: true,
            branch: true,
            result: obj_child(*old(machine), op_val(old(code).operands@[0]) as int) as u16,
            ..*old(code)
        }),
        *final(machine) == *old(machine),
{
    let object = operand_value(code, 0)?;
    let view = object_view_checked(machine, object)?;
    code.store = true;
    code.branch = true;
    code.result = view.get_child(&machine.memory);
    Ok(())
}

/// Branches when the first object's parent is the second operand.
pub fn jin(code: &mut OpCode, machine: &mut ZMachine) -> (r: Result<(), FatalError>)
    requires
        old(code).operands@.len() == 4,
        old(machine).wf(),
    ensures
        r is Ok <==> (!(old(code).operands@[0] is Omitted) && !(old(code).operands@[1] is Omitted)
            && obj_fits(*old(machine), op_val(old(code).operands@[0]) as int)),
        r matches Ok(_) ==> *final(code) == (OpCode {
            branch: true,
            result: if obj_parent(*old(machine), op_val(old(code).operands@[0]) as int) as int
                == op_val(old(code).operands@[1]) as int {
                1u16
            } else {
                0u16
            },
            ..*old(code)
        }),
        *final(machine) == *old(machine),
{
    let child = operand_value(code, 0)?;
    let parent = operand_value(code, 1)?;
    let view = object_view_checked(machine, child)?;
    code.branch = true;
    code.result = if view.get_parent(&machine.memory) == parent {
        1
    } else {
        0
    };
    Ok(())
}

/// Branches when the object has the attribute (0 to 31).
pub fn test_attr(code: &mut OpCode, machine: &mut ZMachine) -> (r: Result<(), FatalError>)
    requires
        old(code).operands@.len() == 4,
        old(machine).wf(),
    ensures
        r is Ok <==> (!(old(code).operands@[0] is Omitted) && !(old(code).operands@[1] is Omitted)
            && obj_fits(*old(machine), op_val(old(code).operands@[0]) as int) && op_val(
            old(code).operands@[1],
        ) < 32),
        r matches Ok(_) ==> *final(code) == (OpCode {
            branch: true,
            result: if attr_set(
                old(machine).memory@,
                obj_base(*old(machine), op_val(old(code).operands@[0]) as int),
                op_val(old(code).operands@[1]) as int,
            ) {
                1u16
            } else {
                0u16
            },
            ..*old(code)
        }),
        *final(machine) == *old(machine),
{
    let object = operand_value(code, 0)?;
    let attribute = operand_value(code, 1)?;
    if attribute >= 32 {
        return Err(FatalError::BadAddress);
    }
    let view = object_view_checked(machine, object)?;
    code.branch = true;
    code.result = if view.has_attribute(&machine.memory, attribute) {
        1
    } else {
        0
    };
    Ok(())
}

/// Sets an attribute bit (0 to 31) on the object.
pub fn set_attr(code: &mut OpCode, machine: &mut ZMachine) -> (r: Result<(), FatalError>)
    requires
        old(code).operands@.len() == 4,
        old(machine).wf(),
    ensures
        r is Ok <==> (!(old(code).operands@[0] is Omitted) && !(old(code).operands@[1] is Omitted)
            && obj_fits(*old(machine), op_val(old(code).operands@[0]) as int) && op_val(
            old(code).operands@[1],
        ) < 32),
        r matches Ok(_) ==> attr_set(
            final(machine).memory@,
            obj_base(*old(machine), op_val(old(code).operands@[0]) as int),
            op_val(old(code).operands@[1]) as int,
        ),
        r matches Ok(_) ==> ({
            let base = obj_base(*old(machine), op_val(old(code).operands@[0]) as int);
            let i = op_val(old(code).operands@[1]) as int;
            final(machine).memory@ == old(machine).memory@.update(
                base + i / 8,
                (old(machine).memory@[base + i / 8] | crate::object_view::spec_bit_mask(
                    i % 8,
                )) as u8,
            )
        }),
        r matches Ok(_) ==> *final(machine) == (ZMachine {
            memory: final(machine).memory,
            ..*old(machine)
        }),
        r matches Ok(_) ==> *final(code) == *old(code),
        r is Err ==> *final(machine) == *old(machine),
        final(machine).wf(),
        ZMachine::same_shape(*old(machine), *final(machine)),
{
    let object = operand_value(code, 0)?;
    let attribute = operand_value(code, 1)?;
    if attribute >= 32 {
        return Err(FatalError::BadAddress);
    }
    let view = object_view_checked(machine, object)?;
    view.set_attribute(&mut machine.memory, attribute);
    Ok(())
}

/// Clears an attribute bit (0 to 31) on the object.
pub fn clear_attr(code: &mut OpCode, machine: &mut ZMachine) -> (r: Result<(), FatalError>)
    requires
        old(code).operands@.len() == 4,
        old(machine).wf(),
    ensures
        r is Ok <==> (!(old(code).operands@[0] is Omitted) && !(old(code).operands@[1] is Omitted)
            && obj_fits(*old(machine), op_val(old(code).operands@[0]) as int) && op_val(
            old(code).operands@[1],
        ) < 32),
        r matches Ok(_) ==> !attr_set(
            final(machine).memory@,
            obj_base(*old(machine), op_val(old(code).operands@[0]) as int),
            op_val(old(code).operands@[1]) as int,
        ),
        r matches Ok(_) ==> ({
            let base = obj_base(*old(machine), op_val(old(code).operands@[0]) as int);
            let i = op_val(old(code).operands@[1]) as int;
            final(machine).memory@ == old(machine).memory@.update(
                base + i / 8,
                (old(machine).memory@[base + i / 8] & !crate::object_view::spec_bit_mask(
                    i % 8,
                )) as u8,
            )
        }),
        r matches Ok(_) ==> *final(machine) == (ZMachine {
            memory: final(machine).memory,
            ..*old(machine)
        }),
        r matches Ok(_) ==> *final(code) == *old(code),
        r is Err ==> *final(machine) == *old(machine),
        final(machine).wf(),
        ZMachine::same_shape(*old(machine), *final(machine)),
{
    let object = operand_value(code, 0)?;
    let attribute = operand_value(code, 1)?;
    if attribute >= 32 {
        return Err(FatalError::BadAddress);
    }
    let view = object_view_checked(machine, object)?;
    view.unset_attribute(&mut machine.memory, attribute);
    Ok(())
}

/// The chain member at or after `start` whose sibling byte names `obj`,
/// when the walk reaches it within `fuel` steps; 0 when the walk hits a
/// missing entry, the chain end, or runs out of fuel (the 255 possible
/// objects bound every healthy chain, so a longer walk means a cycle).
pub open spec fn unlink_pred(m: ZMachine, start: int, obj: int, fuel: nat) -> int
    decreases fuel,
{
    if fuel == 0 || !obj_fits(m, start) {
        0
    } else if obj_sibling(m, start) == obj {
        start
    } else if obj_sibling(m, start) == 0 {
        0
    } else {
        unlink_pred(m, obj_sibling(m, start) as int, obj, (fuel - 1) as nat)
    }
}

/// Unlinking `obj` from its parent's chain can succeed: it has no parent,
/// or it is the first child, or some chain member's sibling byte names it.
pub open spec fn unparent_ok(m: ZMachine, obj: int) -> bool {
    let par = obj_parent(m, obj) as int;
    if par == 0 {
        true
    } else if !obj_fits(m, par) {
        false
    } else if obj_child(m, par) == obj {
        true
    } else {
        unlink_pred(m, obj_child(m, par) as int, obj, 256) != 0
    }
}

/// The image after unlinking `obj` from its parent's chain: the parent's
/// child byte (when `obj` led the chain) or the predecessor's sibling byte
/// is redirected to `obj`'s sibling; a parentless object leaves the image
/// alone.
pub open spec fn unlinked_mem(m: ZMachine, obj: int) -> Seq<u8> {
    let par = obj_parent(m, obj) as int;
    if par == 0 {
        m.memory@
    } else if obj_child(m, par) == obj {
        m.memory@.update(obj_base(m, par) + 6, obj_sibling(m, obj))
    } else {
        m.memory@.update(
            obj_base(m, unlink_pred(m, obj_child(m, par) as int, obj, 256)) + 5,
            obj_sibling(m, obj),
        )
    }
}

/// Unlinks `obj_view`'s object from its parent's child-sibling chain.
fn unparent_object(obj_view: &ObjectView, machine: &mut ZMachine) -> (r: Result<(), FatalError>)
    requires
        old(machine).wf(),
        obj_fits(*old(machine), obj_view.object_id as int),
        obj_view.view.pointer == obj_base(*old(machine), obj_view.object_id as int),
        obj_view.attributes_length == 4,
        obj_view.related_obj_length == 1,
    ensures
        final(machine).wf(),
        ZMachine::same_shape(*old(machine), *final(machine)),
        *final(machine) == (ZMachine { memory: final(machine).memory, ..*old(machine) }),
        r is Ok <==> unparent_ok(*old(machine), obj_view.object_id as int),
        r matches Ok(_) ==> final(machine).memory@ == unlinked_mem(
            *old(machine),
            obj_view.object_id as int,
        ),
        r is Err ==> final(machine).memory@ == old(machine).memory@,
{
    let ghost m0 = *old(machine);
    let ghost obj = obj_view.object_id as int;
    let current_parent = obj_view.get_parent(&machine.memory);
    if current_parent == 0 {
        return Ok(());
    }
    let parent_view = object_view_checked(machine, current_parent)?;
    let mut current_child = parent_view.get_child(&machine.memory);
    if current_child == obj_view.object_id {
        let sibling = obj_view.get_sibling(&machine.memory);
        parent_view.set_child(&mut machine.memory, sibling as u16);
        return Ok(());
    }
    let ghost start0 = current_child as int;
    let mut last_child = current_child;
    let mut fuel: u16 = 256;
    while fuel > 0
        invariant
            machine.wf(),
            ZMachine::same_shape(m0, *machine),
            *machine == (ZMachine { memory: machine.memory, ..m0 }),
            machine.memory@ == m0.memory@,
            m0 == *old(machine),
            obj == obj_view.object_id as int,
            obj_fits(m0, obj),
            obj_view.view.pointer == obj_base(m0, obj),
            obj_view.attributes_length == 4,
            obj_view.related_obj_length == 1,
            current_parent == obj_parent(m0, obj),
            current_parent != 0,
            obj_fits(m0, current_parent as int),
            start0 == obj_child(m0, current_parent as int),
            start0 != obj,
            unlink_pred(m0, start0, obj, 256) == unlink_pred(
                m0,
                current_child as int,
                obj,
                fuel as nat,
            ),
        decreases fuel,
    {
        last_child = current_child;
        let current_view = match object_view_checked(machine, current_child) {
            Ok(v) => v,
            Err(e) => {
                proof {
                    assert(unlink_pred(m0, current_child as int, obj, fuel as nat) == 0);
                }
                return Err(e);
            },
        };
        current_child = current_view.get_sibling(&machine.memory);
        if current_child == obj_view.object_id as u16 {
            let next_view = object_view_checked(machine, current_child)?;
            let new_sibling = next_view.get_sibling(&machine.memory);
            let last_view = object_view_checked(machine, last_child)?;
            proof {
                assert(unlink_pred(m0, last_child as int, obj, fuel as nat) == last_child as int);
            }
            last_view.set_sibling(&mut machine.memory, new_sibling as u16);
            return Ok(());
        }
        if current_child == 0 {
            proof {
                assert(unlink_pred(m0, last_child as int, obj, fuel as nat) == 0);
            }
            return Err(FatalError::BadAddress);
        }
        proof {
            assert(unlink_pred(m0, last_child as int, obj, fuel as nat) == unlink_pred(
                m0,
                current_child as int,
                obj,
                (fuel - 1) as nat,
            ));
        }
        fuel = fuel - 1;
    }
    proof {
        assert(unlink_pred(m0, current_child as int, obj, 0nat) == 0);
    }
    Err(FatalError::BadAddress)
}

/// Moves the first object to be the first child of the second: unlinks it
/// from its old parent's chain, then links it in front of the new parent's
/// previous first child.
pub fn insert_obj(code: &mut OpCode, machine: &mut ZMachine) -> (r: Result<(), FatalError>)
    requires
        old(code).operands@.len() == 4,
        old(machine).wf(),
    ensures
        final(machine).wf(),
        ZMachine::same_shape(*old(machine), *final(machine)),
        *final(machine) == (ZMachine { memory: final(machine).memory, ..*old(machine) }),
        *final(code) == *old(code),
        r is Ok <==> ({
            let child = op_val(old(code).operands@[0]) as int;
            let parent = op_val(old(code).operands@[1]) as int;
            &&& !(old(code).operands@[0] is Omitted)
            &&& !(old(code).operands@[1] is Omitted)
            &&& parent < 256
            &&& obj_fits(*old(machine), child)
            &&& unparent_ok(*old(machine), child)
            &&& (parent == 0 || obj_fits(*old(machine), parent))
        }),
        r matches Ok(_) ==> ({
            let child = op_val(old(code).operands@[0]) as int;
            let parent = op_val(old(code).operands@[1]) as int;
            let unlinked = unlinked_mem(*old(machine), child);
            let reparented = unlinked.update(
                obj_base(*old(machine), child) + 4,
                (parent % 256) as u8,
            );
            &&& obj_fits(*old(machine), child)
            &&& parent < 256
            &&& obj_parent(*final(machine), child) == parent
            &&& (parent != 0 ==> obj_child(*final(machine), parent) == child)
            &&& (parent != 0 ==> obj_sibling(*final(machine), child) == reparented[obj_base(
                *old(machine),
                parent,
            ) + 6])
            &&& final(machine).memory@ == (if parent != 0 {
                reparented.update(obj_base(*old(machine), parent) + 6, (child % 256) as u8)
                    .update(
                    obj_base(*old(machine), child) + 5,
                    reparented[obj_base(*old(machine), parent) + 6],
                )
            } else {
                reparented
            })
            &&& ((obj_parent(*old(machine), child) == 0 && parent != 0 && obj_fits(
                *old(machine),
                parent,
            ) && child != parent) ==> ({
                &&& obj_sibling(*final(machine), child) == obj_child(*old(machine), parent)
                &&& final(machine).memory@ == old(machine).memory@.update(
                    obj_base(*old(machine), child) + 4,
                    (parent % 256) as u8,
                ).update(obj_base(*old(machine), parent) + 6, (child % 256) as u8).update(
                    obj_base(*old(machine), child) + 5,
                    obj_child(*old(machine), parent),
                )
            }))
        }),
{
    let child = operand_value(code, 0)?;
    let parent = operand_value(code, 1)?;
    if parent >= 256 {
        return Err(FatalError::BadAddress);
    }
    let child_view = object_view_checked(machine, child)?;
    let current_parent = child_view.get_parent(&machine.memory);
    if current_parent != 0 {
        unparent_object(&child_view, machine)?;
    }
    proof {
        assert(machine.memory@ == unlinked_mem(*old(machine), child as int));
    }
    child_view.set_parent(&mut machine.memory, parent);
    if parent != 0 {
        let parent_view = object_view_checked(machine, parent)?;
        let old_child = parent_view.get_child(&machine.memory);
        parent_view.set_child(&mut machine.memory, child % 256);
        let child_view2 = object_view_checked(machine, child)?;
        child_view2.set_sibling(&mut machine.memory, old_child);
    }
    Ok(())
}

/// Unlinks the object from its parent's chain and clears its parent id.
pub fn remove_obj(code: &mut OpCode, machine: &mut ZMachine) -> (r: Result<(), FatalError>)
    requires
        old(code).operands@.len() == 4,
        old(machine).wf(),
    ensures
        final(machine).wf(),
        ZMachine::same_shape(*old(machine), *final(machine)),
        *final(machine) == (ZMachine { memory: final(machine).memory, ..*old(machine) }),
        *final(code) == *old(code),
        r is Ok <==> (!(old(code).operands@[0] is Omitted) && obj_fits(
            *old(machine),
            op_val(old(code).operands@[0]) as int,
        ) && unparent_ok(*old(machine), op_val(old(code).operands@[0]) as int)),
        r matches Ok(_) ==> ({
            let obj = op_val(old(code).operands@[0]) as int;
            &&& obj_fits(*old(machine), obj)
            &&& obj_parent(*final(machine), obj) == 0
            &&& final(machine).memory@ == unlinked_mem(*old(machine), obj).update(
                obj_base(*old(machine), obj) + 4,
                0u8,
            )
        }),
{
    let obj = operand_value(code, 0)?;
    let view = object_view_checked(machine, obj)?;
    unparent_object(&view, machine)?;
    view.set_parent(&mut machine.memory, 0);
    Ok(())
}

/// A checked property-table view for object `object`.
fn properties_view_checked(machine: &ZMachine, object: u16) -> (r: Result<
    ObjectPropertiesView,
    FatalError,
>)
    requires
        machine.wf(),
    ensures
        r is Ok <==> (obj_fits(*machine, object as int) && obj_prop_table(*machine, object as int)
            < machine.memory@.len()),
        r matches Ok(v) ==> ({
            &&& v.fits(machine.memory@)
            &&& v.defaults_fit(machine.memory@)
            &&& v.view.pointer == obj_prop_table(*machine, object as int)
            &&& v.defaults_view.pointer == machine.header.object_table_location
        }),
        r matches Err(e) ==> e == FatalError::BadAddress,
{
    let view = object_view_checked(machine, object)?;
    let properties = view.get_properties_table_view(&machine.memory);
    if properties.view.pointer as u64 >= machine.memory.len() as u64 {
        return Err(FatalError::BadAddress);
    }
    Ok(properties)
}

/// Stores a property value: the stored 1- or 2-byte entry, or the default
/// from the defaults array when the object lacks the property.
pub fn get_prop(code: &mut OpCode, machine: &mut ZMachine) -> (r: Result<(), FatalError>)
    requires
        old(code).operands@.len() == 4,
        old(machine).wf(),
    ensures
        *final(machine) == *old(machine),
        r is Ok <==> ({
            let m = *old(machine);
            let object = op_val(old(code).operands@[0]) as int;
            let p = op_val(old(code).operands@[1]) as int;
            let table = obj_prop_table(m, object);
            let c0 = prop_cursor(m.memory@, table);
            &&& !(old(code).operands@[0] is Omitted)
            &&& !(old(code).operands@[1] is Omitted)
            &&& 1 <= p <= 31
            &&& obj_fits(m, object)
            &&& table < m.memory@.len()
            &&& walk_in_bounds(m.memory@, c0, p, false)
            &&& (match find_prop(m.memory@, c0, p, false) {
                Some((a, id, sz)) => (sz == 1 && a < m.memory@.len()) || (sz == 2 && a + 1
                    < m.memory@.len()),
                None => true,
            })
        }),
        r matches Ok(_) ==> ({
            let m = *old(machine);
            let object = op_val(old(code).operands@[0]) as int;
            let p = op_val(old(code).operands@[1]) as int;
            let table = obj_prop_table(m, object);
            &&& obj_fits(m, object)
            &&& 1 <= p <= 31
            &&& *final(code) == (OpCode {
                store: true,
                result: (match find_prop(m.memory@, prop_cursor(m.memory@, table), p, false) {
                    Some((a, id, sz)) => if sz == 1 {
                        m.memory@[a] as int
                    } else {
                        word_at(m.memory@, a)
                    },
                    None => word_at(
                        m.memory@,
                        m.header.object_table_location + 2 * (p - 1),
                    ),
                }) as u16,
                ..*old(code)
            })
        }),
{
    let object = operand_value(code, 0)?;
    let property = operand_value(code, 1)?;
    if property < 1 || property > 31 {
        return Err(FatalError::BadProperty);
    }
    let properties = properties_view_checked(machine, object)?;
    let value = properties.get_property(&machine.memory, (property % 256) as u8)?;
    code.store = true;
    code.result = value.value;
    Ok(())
}

/// Stores the absolute address of a property's data bytes, or 0 when the
/// object lacks the property.
pub fn get_prop_addr(code: &mut OpCode, machine: &mut ZMachine) -> (r: Result<(), FatalError>)
    requires
        old(code).operands@.len() == 4,
        old(machine).wf(),
    ensures
        *final(machine) == *old(machine),
        r is Ok <==> ({
            let m = *old(machine);
            let object = op_val(old(code).operands@[0]) as int;
            let p = op_val(old(code).operands@[1]) as int;
            let table = obj_prop_table(m, object);
            &&& !(old(code).operands@[0] is Omitted)
            &&& !(old(code).operands@[1] is Omitted)
            &&& p <= 255
            &&& obj_fits(m, object)
            &&& table < m.memory@.len()
            &&& walk_in_bounds(m.memory@, prop_cursor(m.memory@, table), p, p == 0)
        }),
        r matches Ok(_) ==> ({
            let m = *old(machine);
            let object = op_val(old(code).operands@[0]) as int;
            let p = op_val(old(code).operands@[1]) as int;
            let table = obj_prop_table(m, object);
            &&& obj_fits(m, object)
            &&& *final(code) == (OpCode {
                store: true,
                result: (match find_prop(m.memory@, prop_cursor(m.memory@, table), p, p == 0) {
                    Some((a, id, sz)) => a % 0x10000,
                    None => 0int,
                }) as u16,
                ..*old(code)
            })
        }),
{
    let object = operand_value(code, 0)?;
    let property = operand_value(code, 1)?;
    if property > 255 {
        return Err(FatalError::BadProperty);
    }
    let properties = properties_view_checked(machine, object)?;
    let addr = properties.get_property_addr(&machine.memory, property as u8)?;
    code.store = true;
    code.result = (addr % 0x10000) as u16;
    Ok(())
}

/// Stores the data length encoded in the size byte just below a property
/// data address (as handed out by the address lookup).
pub fn get_prop_len(code: &mut OpCode, machine: &mut ZMachine) -> (r: Result<(), FatalError>)
    requires
        old(code).operands@.len() == 4,
        old(machine).wf(),
    ensures
        *final(machine) == *old(machine),
        r is Ok <==> (!(old(code).operands@[0] is Omitted) && op_val(old(code).operands@[0]) >= 1
            && op_val(old(code).operands@[0]) - 1 < old(machine).memory@.len()),
        r matches Ok(_) ==> *final(code) == (OpCode {
            store: true,
            result: prop_size(
                old(machine).memory@[op_val(old(code).operands@[0]) - 1],
            ) as u16,
            ..*old(code)
        }),
{
    let property_address = operand_value(code, 0)?;
    if property_address == 0 {
        return Err(FatalError::BadAddress);
    }
    let address = property_address as u32 - 1;
    if address as u64 >= machine.memory.len() as u64 {
        return Err(FatalError::BadAddress);
    }
    let size_byte = machine.get_memory_view().read_at(&machine.memory, address);
    let info = ObjectPropertiesView::get_object_property_from_size_byte(size_byte);
    code.store = true;
    code.result = info.size as u16;
    Ok(())
}

/// Stores the number of the property after the named one (the first
/// property when the operand is 0); asking after an absent property is
/// fatal.
pub fn get_next_prop(code: &mut OpCode, machine: &mut ZMachine) -> (r: Result<(), FatalError>)
    requires
        old(code).operands@.len() == 4,
        old(machine).wf(),
    ensures
        *final(machine) == *old(machine),
        r is Ok <==> ({
            let m = *old(machine);
            let object = op_val(old(code).operands@[0]) as int;
            let p = op_val(old(code).operands@[1]) as int;
            let table = obj_prop_table(m, object);
            let c0 = prop_cursor(m.memory@, table);
            &&& !(old(code).operands@[0] is Omitted)
            &&& !(old(code).operands@[1] is Omitted)
            &&& p <= 255
            &&& obj_fits(m, object)
            &&& table < m.memory@.len()
            &&& walk_in_bounds(m.memory@, c0, p, p == 0)
            &&& (p == 0 || (match find_prop(m.memory@, c0, p, false) {
                Some((a, id, sz)) => a + sz < m.memory@.len(),
                None => false,
            }))
        }),
        r matches Ok(_) ==> ({
            let m = *old(machine);
            let object = op_val(old(code).operands@[0]) as int;
            let p = op_val(old(code).operands@[1]) as int;
            let table = obj_prop_table(m, object);
            let c0 = prop_cursor(m.memory@, table);
            &&& obj_fits(m, object)
            &&& *final(code) == (OpCode {
                store: true,
                result: (if p == 0 {
                    match find_prop(m.memory@, c0, 0, true) {
                        Some((a, id, sz)) => id,
                        None => 0int,
                    }
                } else {
                    match find_prop(m.memory@, c0, p, false) {
                        Some((a, id, sz)) => prop_id(m.memory@[a + sz]),
                        None => 0int,
                    }
                }) as u16,
                ..*old(code)
            })
        }),
{
    let object = operand_value(code, 0)?;
    let property = operand_value(code, 1)?;
    if property > 255 {
        return Err(FatalError::BadProperty);
    }
    let properties = properties_view_checked(machine, object)?;
    let info = properties.get_property_info(&machine.memory, property as u8)?;
    code.store = true;
    if property == 0 {
        code.result = info.id as u16;
        return Ok(());
    }
    let addr = match info.addr {
        Some(a) => a,
        None => {
            return Err(FatalError::BadProperty);
        },
    };
    proof {
        crate::object_properties_view::lemma_find_prop_bounds(
            machine.memory@,
            properties.first_prop_cursor(machine.memory@),
            property as int,
            false,
        );
    }
    let next_addr = addr as u64 + info.size as u64;
    if next_addr >= machine.memory.len() as u64 {
        return Err(FatalError::BadAddress);
    }
    let size_byte = machine.get_memory_view().read_at(&machine.memory, next_addr as u32);
    let found = ObjectPropertiesView::get_object_property_from_size_byte(size_byte);
    code.result = found.id as u16;
    Ok(())
}

/// Writes a property value in place; the property must exist with width 1
/// or 2.
pub fn put_prop(code: &mut OpCode, machine: &mut ZMachine) -> (r: Result<(), FatalError>)
    requires
        old(code).operands@.len() == 4,
        old(machine).wf(),
    ensures
        final(machine).wf(),
        ZMachine::same_shape(*old(machine), *final(machine)),
        *final(machine) == (ZMachine { memory: final(machine).memory, ..*old(machine) }),
        *final(code) == *old(code),
        r is Ok <==> ({
            let m = *old(machine);
            let object = op_val(old(code).operands@[0]) as int;
            let p = op_val(old(code).operands@[1]) as int;
            let table = obj_prop_table(m, object);
            let c0 = prop_cursor(m.memory@, table);
            &&& !(old(code).operands@[0] is Omitted)
            &&& !(old(code).operands@[1] is Omitted)
            &&& !(old(code).operands@[2] is Omitted)
            &&& p <= 255
            &&& obj_fits(m, object)
            &&& table < m.memory@.len()
            &&& walk_in_bounds(m.memory@, c0, p, p == 0)
            &&& (match find_prop(m.memory@, c0, p, p == 0) {
                Some((a, id, sz)) => (sz == 1 && a < m.memory@.len()) || (sz == 2 && a + 1
                    < m.memory@.len()),
                None => false,
            })
        }),
        r matches Ok(_) ==> ({
            let m = *old(machine);
            let object = op_val(old(code).operands@[0]) as int;
            let p = op_val(old(code).operands@[1]) as int;
            let v = op_val(old(code).operands@[2]);
            let table = obj_prop_table(m, object);
            &&& obj_fits(m, object)
            &&& match find_prop(m.memory@, prop_cursor(m.memory@, table), p, p == 0) {
                Some((a, id, sz)) => (sz == 1 && final(machine).memory@ == m.memory@.update(
                    a,
                    (v % 256) as u8,
                )) || (sz == 2 && final(machine).memory@ == with_word(m.memory@, a, v)),
                None => false,
            }
        }),
{
    let object = operand_value(code, 0)?;
    let property = operand_value(code, 1)?;
    let value = operand_value(code, 2)?;
    if property > 255 {
        return Err(FatalError::BadProperty);
    }
    let properties = properties_view_checked(machine, object)?;
    properties.write_property(&mut machine.memory, property as u8, value)?;
    Ok(())
}

/// The call-stack, frame-pointer and program-counter state after entering
/// the routine at packed address `packed` with arguments `args`: the saved
/// return state (PC halves, the caller's operand offset `rb`, the previous
/// frame pointer) followed by the routine's `k` locals, the first
/// `min(k, args)` from the arguments, the rest from the routine's default
/// words.
pub open spec fn spec_call_parts(
    stack: Seq<u16>,
    tof: int,
    ip: u32,
    rb: u32,
    mem: Seq<u8>,
    packed: u16,
    args: Seq<u16>,
) -> (Seq<u16>, int, int) {
    let address = (packed as int) * 2;
    let k = mem[address] as int;
    let n = if args.len() <= k {
        args.len() as int
    } else {
        k
    };
    let locals = Seq::new(
        k as nat,
        |i: int|
            if i < n {
                args[i]
            } else {
                word_at(mem, address + 1 + 2 * i) as u16
            },
    );
    let frame = seq![
        (ip as int % 0x10000) as u16,
        (ip as int / 0x10000) as u16,
        rb as u16,
        tof as u16,
    ];
    (stack + frame + locals, stack.len() + 3int, address + 1 + 2 * k)
}

/// The side conditions under which a call can be made: a real routine whose
/// header and default words lie inside the image, at most 15 locals, and
/// saved state that fits in stack words.
pub open spec fn spec_call_ok(tof: int, rb: u32, mem: Seq<u8>, packed: u16) -> bool {
    &&& packed != 0
    &&& (packed as int) * 2 < mem.len()
    &&& mem[(packed as int) * 2] <= 15
    &&& (packed as int) * 2 + 1 + 2 * mem[(packed as int) * 2] <= mem.len()
    &&& 0 <= tof <= 0xFFFF
    &&& rb <= 0xFFFF
}

/// Call/return round trip: after entering a frame as `call` does, the state
/// a matching `ret` computes - the stack below the frame, the previous frame
/// pointer, the return program counter and the caller's operand offset - is
/// exactly the pre-call state.  The caller's locals live below the frame, so
/// they are restored untouched; the pending store of the returned value then
/// lands at the caller's store destination by the store-trailer law.
pub proof fn lemma_call_ret_round_trip(
    stack: Seq<u16>,
    tof: int,
    ip: u32,
    rb: u32,
    mem: Seq<u8>,
    packed: u16,
    args: Seq<u16>,
)
    requires
        spec_call_ok(tof, rb, mem, packed),
        0 <= tof <= stack.len(),
    ensures
        ({
            let (s1, t1, ip1) = spec_call_parts(stack, tof, ip, rb, mem, packed, args);
            &&& 3 <= t1 < s1.len()
            &&& s1.take(t1 - 3) == stack
            &&& s1[t1] as int == tof
            &&& s1[t1 - 2] * 0x10000 + s1[t1 - 3] == ip
            &&& s1[t1 - 1] == rb
        }),
{
    let (s1, t1, ip1) = spec_call_parts(stack, tof, ip, rb, mem, packed, args);
    assert(s1.take(t1 - 3) =~= stack);
    assert(s1[t1] == tof as u16);
    assert(s1[t1 - 2] == (ip as int / 0x10000) as u16);
    assert(s1[t1 - 3] == (ip as int % 0x10000) as u16);
    assert((ip as int / 0x10000) * 0x10000 + (ip as int % 0x10000) == ip) by {
        vstd::arithmetic::div_mod::lemma_fundamental_div_mod(ip as int, 0x10000);
    }
}

/// Enters a routine: saves the return state, opens a frame, loads the
/// locals (arguments first, then the routine's defaults) and moves the
/// program counter to the routine body.  Calling packed address 0 creates
/// no frame and simply stores 0.
pub fn call(code: &mut OpCode, machine: &mut ZMachine) -> (r: Result<(), FatalError>)
    requires
        old(code).operands@.len() == 4,
        old(code).operand_count <= 4,
        old(machine).wf(),
    ensures
        final(machine).wf(),
        ZMachine::same_shape(*old(machine), *final(machine)),
        final(machine).memory@ == old(machine).memory@,
        final(machine).state == old(machine).state,
        final(machine).output@ == old(machine).output@,
        final(machine).random_generator == old(machine).random_generator,
        final(machine).status_left@ == old(machine).status_left@,
        final(machine).status_right@ == old(machine).status_right@,
        r is Ok <==> ({
            let packed = op_val(old(code).operands@[0]);
            &&& old(code).operand_count >= 1
            &&& !(old(code).operands@[0] is Omitted)
            &&& (packed == 0 || ({
                let k = old(machine).memory@[(packed as int) * 2] as int;
                &&& spec_call_ok(
                    old(machine).call_stack.top_of_frame as int,
                    old(code).read_bytes,
                    old(machine).memory@,
                    packed,
                )
                &&& (forall|i: int|
                    1 <= i < old(code).operand_count && i <= k ==> !((#[trigger] old(
                        code,
                    ).operands@[i]) is Omitted))
            }))
        }),
        r matches Ok(_) && op_val(old(code).operands@[0]) == 0 ==> (*final(code) == (OpCode {
            store: true,
            result: 0u16,
            ..*old(code)
        }) && *final(machine) == *old(machine)),
        r matches Ok(_) && op_val(old(code).operands@[0]) != 0 ==> ({
            let packed = op_val(old(code).operands@[0]);
            let args = Seq::new(
                (old(code).operand_count - 1) as nat,
                |i: int| op_val(old(code).operands@[i + 1]),
            );
            let (s1, t1, ip1) = spec_call_parts(
                old(machine).call_stack.stack@,
                old(machine).call_stack.top_of_frame as int,
                old(machine).ip,
                old(code).read_bytes,
                old(machine).memory@,
                packed,
                args,
            );
            &&& spec_call_ok(
                old(machine).call_stack.top_of_frame as int,
                old(code).read_bytes,
                old(machine).memory@,
                packed,
            )
            &&& final(machine).call_stack.stack@ == s1
            &&& final(machine).call_stack.top_of_frame as int == t1
            &&& final(machine).ip as int == ip1
            &&& *final(code) == (OpCode { read_bytes: 0u32, ..*old(code) })
        }),
{
    if code.operand_count == 0 {
        return Err(FatalError::BadOpcode);
    }
    let packed = operand_value(code, 0)?;
    if packed == 0 {
        code.result = 0;
        code.store = true;
        return Ok(());
    }
    let address = packed as u32 * 2;
    if address as u64 >= machine.memory.len() as u64 {
        return Err(FatalError::BadAddress);
    }
    let num_locals = machine.get_memory_view().read_at(&machine.memory, address);
    if num_locals > 15 {
        return Err(FatalError::BadAddress);
    }
    if address as u64 + 1 + 2 * num_locals as u64 > machine.memory.len() as u64 {
        return Err(FatalError::BadAddress);
    }
    if machine.call_stack.top_of_frame > 0xFFFF {
        return Err(FatalError::BadAddress);
    }
    if code.read_bytes > 0xFFFF {
        return Err(FatalError::BadAddress);
    }
    let nargs: usize = if code.operand_count >= 1 {
        (code.operand_count - 1) as usize
    } else {
        0
    };
    let ghost args = Seq::new(
        (old(code).operand_count - 1) as nat,
        |i: int| op_val(old(code).operands@[i + 1]),
    );
    let ghost (s1, t1, ip1) = spec_call_parts(
        old(machine).call_stack.stack@,
        old(machine).call_stack.top_of_frame as int,
        old(machine).ip,
        old(code).read_bytes,
        old(machine).memory@,
        packed,
        args,
    );
    let address_lhalf = (machine.ip % 0x10000) as u16;
    let address_uhalf = (machine.ip / 0x10000) as u16;
    machine.call_stack.stack.push(address_lhalf);
    machine.call_stack.stack.push(address_uhalf);
    machine.call_stack.stack.push(code.read_bytes as u16);
    machine.call_stack.switch_to_new_frame();
    let k = num_locals as usize;
    let ghost stack_prefix = machine.call_stack.stack@;
    let mut j: usize = 0;
    while j < k
        invariant
            machine.wf(),
            ZMachine::same_shape(*old(machine), *machine),
            machine.memory@ == old(machine).memory@,
            machine.state == old(machine).state,
            machine.output@ == old(machine).output@,
            machine.random_generator == old(machine).random_generator,
            machine.status_left@ == old(machine).status_left@,
            machine.status_right@ == old(machine).status_right@,
            machine.ip == old(machine).ip,
            machine.header == old(machine).header,
            machine.call_stack.top_of_frame == old(machine).call_stack.stack@.len() + 3,
            *code == *old(code),
            code.operands@.len() == 4,
            j <= k,
            k == old(machine).memory@[(packed as int) * 2],
            address == packed as u32 * 2,
            (packed as int) * 2 + 1 + 2 * k <= old(machine).memory@.len(),
            packed == op_val(old(code).operands@[0]),
            packed != 0,
            !(old(code).operands@[0] is Omitted),
            old(code).operand_count >= 1,
            nargs == old(code).operand_count - 1,
            nargs < 4,
            args == Seq::new(
                (old(code).operand_count - 1) as nat,
                |i: int| op_val(old(code).operands@[i + 1]),
            ),
            forall|i: int|
                1 <= i <= j && i < old(code).operand_count && i <= k ==> !((#[trigger] old(
                    code,
                ).operands@[i]) is Omitted),
            stack_prefix == old(machine).call_stack.stack@ + seq![
                (old(machine).ip as int % 0x10000) as u16,
                (old(machine).ip as int / 0x10000) as u16,
                old(code).read_bytes as u16,
                old(machine).call_stack.top_of_frame as u16,
            ],
            machine.call_stack.stack@ == stack_prefix + Seq::new(
                j as nat,
                |i: int|
                    if i < nargs && i < args.len() {
                        args[i]
                    } else {
                        word_at(old(machine).memory@, (packed as int) * 2 + 1 + 2 * i) as u16
                    },
            ),
        decreases k - j,
    {
        let value: u16 = if j < nargs {
            match operand_value(code, j + 1) {
                Ok(v) => v,
                Err(e) => {
                    proof {
                        assert(1 <= j + 1 < old(code).operand_count && j + 1 <= k);
                        assert((old(code).operands@[j + 1]) is Omitted);
                    }
                    return Err(e);
                },
            }
        } else {
            machine.get_memory_view().read_u16_at(
                &machine.memory,
                address + 1 + 2 * (j as u32),
            )
        };
        machine.call_stack.stack.push(value);
        proof {
            assert(machine.call_stack.stack@ =~= stack_prefix + Seq::new(
                (j + 1) as nat,
                |i: int|
                    if i < nargs && i < args.len() {
                        args[i]
                    } else {
                        word_at(old(machine).memory@, (packed as int) * 2 + 1 + 2 * i) as u16
                    },
            ));
        }
        j = j + 1;
    }
    machine.ip = address + 1 + 2 * (num_locals as u32);
    code.read_bytes = 0;
    proof {
        assert(nargs == args.len());
        assert(machine.call_stack.stack@ =~= s1);
    }
    Ok(())
}

/// Returns from the current frame: discards it, restores the saved operand
/// offset and program counter, and leaves the returned value pending for
/// the caller's store destination.
pub fn ret(code: &mut OpCode, machine: &mut ZMachine) -> (r: Result<(), FatalError>)
    requires
        old(code).operands@.len() == 4,
        old(machine).wf(),
    ensures
        final(machine).wf(),
        ZMachine::same_shape(*old(machine), *final(machine)),
        final(machine).memory@ == old(machine).memory@,
        final(machine).state == old(machine).state,
        final(machine).output@ == old(machine).output@,
        final(machine).random_generator == old(machine).random_generator,
        final(machine).status_left@ == old(machine).status_left@,
        final(machine).status_right@ == old(machine).status_right@,
        r is Ok <==> (!(old(code).operands@[0] is Omitted) && old(machine).call_stack.top_of_frame
            < old(machine).call_stack.stack@.len() && old(machine).call_stack.top_of_frame >= 3),
        r matches Ok(_) ==> ({
            let stack = old(machine).call_stack.stack@;
            let tof = old(machine).call_stack.top_of_frame as int;
            &&& final(machine).call_stack.stack@ == stack.take(tof - 3)
            &&& final(machine).call_stack.top_of_frame as int == stack[tof] as int
            &&& final(machine).ip as int == stack[tof - 2] * 0x10000 + stack[tof - 3]
            &&& *final(code) == (OpCode {
                read_bytes: stack[tof - 1] as u32,
                store: true,
                result: op_val(old(code).operands@[0]),
                ..*old(code)
            })
        }),
{
    let value = operand_value(code, 0)?;
    code.result = value;
    machine.call_stack.restore_last_frame()?;
    if machine.call_stack.stack.len() < 3 {
        return Err(FatalError::StackUnderflow);
    }
    let offset = match machine.call_stack.stack.pop() {
        Some(x) => x as u32,
        None => {
            return Err(FatalError::StackUnderflow);
        },
    };
    code.read_bytes = offset;
    code.store = true;
    let address_uhalf = match machine.call_stack.stack.pop() {
        Some(x) => x,
        None => {
            return Err(FatalError::StackUnderflow);
        },
    };
    let address_lhalf = match machine.call_stack.stack.pop() {
        Some(x) => x,
        None => {
            return Err(FatalError::StackUnderflow);
        },
    };
    machine.ip = (address_uhalf as u32) * 0x10000 + address_lhalf as u32;
    proof {
        let stack = old(machine).call_stack.stack@;
        let tof = old(machine).call_stack.top_of_frame as int;
        assert(machine.call_stack.stack@ =~= stack.take(tof - 3));
    }
    Ok(())
}

/// Returns true: `ret` with the constant 1.
pub fn rtrue(code: &mut OpCode, machine: &mut ZMachine) -> (r: Result<(), FatalError>)
    requires
        old(code).operands@.len() == 4,
        old(machine).wf(),
    ensures
        final(machine).wf(),
        ZMachine::same_shape(*old(machine), *final(machine)),
        final(machine).memory@ == old(machine).memory@,
        final(machine).state == old(machine).state,
        final(machine).output@ == old(machine).output@,
        final(machine).random_generator == old(machine).random_generator,
        final(machine).status_left@ == old(machine).status_left@,
        final(machine).status_right@ == old(machine).status_right@,
        r is Ok <==> (old(machine).call_stack.top_of_frame < old(
            machine,
        ).call_stack.stack@.len() && old(machine).call_stack.top_of_frame >= 3),
        r matches Ok(_) ==> ({
            let stack = old(machine).call_stack.stack@;
            let tof = old(machine).call_stack.top_of_frame as int;
            &&& final(machine).call_stack.stack@ == stack.take(tof - 3)
            &&& final(machine).call_stack.top_of_frame as int == stack[tof] as int
            &&& final(machine).ip as int == stack[tof - 2] * 0x10000 + stack[tof - 3]
            &&& *final(code) == (OpCode {
                read_bytes: stack[tof - 1] as u32,
                store: true,
                result: 1u16,
                operands: final(code).operands,
                ..*old(code)
            })
            &&& final(code).operands@ == old(code).operands@.update(
                0,
                Operand::SmallConstant { value: 1u8 },
            )
        }),
{
    code.operands.set(0, Operand::SmallConstant { value: 1 });
    ret(code, machine)
}

/// Returns false: `ret` with the constant 0.
pub fn rfalse(code: &mut OpCode, machine: &mut ZMachine) -> (r: Result<(), FatalError>)
    requires
        old(code).operands@.len() == 4,
        old(machine).wf(),
    ensures
        final(machine).wf(),
        ZMachine::same_shape(*old(machine), *final(machine)),
        final(machine).memory@ == old(machine).memory@,
        final(machine).state == old(machine).state,
        final(machine).output@ == old(machine).output@,
        final(machine).random_generator == old(machine).random_generator,
        final(machine).status_left@ == old(machine).status_left@,
        final(machine).status_right@ == old(machine).status_right@,
        r is Ok <==> (old(machine).call_stack.top_of_frame < old(
            machine,
        ).call_stack.stack@.len() && old(machine).call_stack.top_of_frame >= 3),
        r matches Ok(_) ==> ({
            let stack = old(machine).call_stack.stack@;
            let tof = old(machine).call_stack.top_of_frame as int;
            &&& final(machine).call_stack.stack@ == stack.take(tof - 3)
            &&& final(machine).call_stack.top_of_frame as int == stack[tof] as int
            &&& final(machine).ip as int == stack[tof - 2] * 0x10000 + stack[tof - 3]
            &&& *final(code) == (OpCode {
                read_bytes: stack[tof - 1] as u32,
                store: true,
                result: 0u16,
                operands: final(code).operands,
                ..*old(code)
            })
        }),
{
    code.operands.set(0, Operand::SmallConstant { value: 0 });
    ret(code, machine)
}

/// Returns the popped top of the evaluation stack.
pub fn ret_popped(code: &mut OpCode, machine: &mut ZMachine) -> (r: Result<(), FatalError>)
    requires
        old(code).operands@.len() == 4,
        old(machine).wf(),
    ensures
        final(machine).wf(),
        ZMachine::same_shape(*old(machine), *final(machine)),
        final(machine).memory@ == old(machine).memory@,
        final(machine).state == old(machine).state,
        final(machine).output@ == old(machine).output@,
        final(machine).random_generator == old(machine).random_generator,
        final(machine).status_left@ == old(machine).status_left@,
        final(machine).status_right@ == old(machine).status_right@,
        r is Ok <==> (old(machine).call_stack.stack@.len() > 0 && old(
            machine,
        ).call_stack.top_of_frame >= 3 && old(machine).call_stack.top_of_frame < old(
            machine,
        ).call_stack.stack@.len() - 1),
        r matches Ok(_) ==> ({
            let stack0 = old(machine).call_stack.stack@;
            let stack = stack0.drop_last();
            let tof = old(machine).call_stack.top_of_frame as int;
            &&& stack0.len() > 0
            &&& tof < stack.len()
            &&& tof >= 3
            &&& final(machine).call_stack.stack@ == stack.take(tof - 3)
            &&& final(machine).call_stack.top_of_frame as int == stack[tof] as int
            &&& final(machine).ip as int == stack[tof - 2] * 0x10000 + stack[tof - 3]
            &&& *final(code) == (OpCode {
                read_bytes: stack[tof - 1] as u32,
                store: true,
                result: stack0.last(),
                operands: final(code).operands,
                ..*old(code)
            })
        }),
{
    if machine.call_stack.stack.len() == 0 {
        return Err(FatalError::StackUnderflow);
    }
    let value = match machine.call_stack.stack.pop() {
        Some(x) => x,
        None => {
            return Err(FatalError::StackUnderflow);
        },
    };
    code.operands.set(0, Operand::LargeConstant { value });
    ret(code, machine)
}

/// An unconditional signed short jump: the program counter moves by the
/// operand, minus 2, plus the bytes already consumed.
pub fn jump(code: &mut OpCode, machine: &mut ZMachine) -> (r: Result<(), FatalError>)
    requires
        old(code).operands@.len() == 4,
        old(machine).wf(),
    ensures
        final(machine).wf(),
        ZMachine::same_shape(*old(machine), *final(machine)),
        final(machine).memory@ == old(machine).memory@,
        final(machine).state == old(machine).state,
        final(machine).output@ == old(machine).output@,
        final(machine).random_generator == old(machine).random_generator,
        final(machine).status_left@ == old(machine).status_left@,
        final(machine).status_right@ == old(machine).status_right@,
        r is Ok <==> (!(old(code).operands@[0] is Omitted) && 0 <= old(machine).ip as int + s16(
            op_val(old(code).operands@[0]),
        ) + old(code).read_bytes - 2 <= u32::MAX),
        r matches Ok(_) ==> ({
            &&& final(machine).ip as int == old(machine).ip as int + s16(
                op_val(old(code).operands@[0]),
            ) + old(code).read_bytes - 2
            &&& *final(code) == (OpCode { read_bytes: 0u32, ..*old(code) })
            &&& *final(machine) == (ZMachine { ip: final(machine).ip, ..*old(machine) })
        }),
{
    let offset = operand_value(code, 0)?;
    let signed: i64 = if offset >= 0x8000 {
        offset as i64 - 0x10000
    } else {
        offset as i64
    };
    let new_ip: i64 = machine.ip as i64 + signed + code.read_bytes as i64 - 2;
    if new_ip < 0 || new_ip > u32::MAX as i64 {
        return Err(FatalError::BadAddress);
    }
    machine.ip = new_ip as u32;
    code.read_bytes = 0;
    Ok(())
}

/// The decoded text of the Z-string at absolute address `a` of `m`'s image,
/// abbreviations expanded through the machine's abbreviations table.
pub open spec fn spec_ztext(m: ZMachine, a: int) -> Seq<char> {
    spec_decode(
        zchars_of_words(zstring_words(m.memory@, a)),
        0,
        Alphabet::A0,
        None,
        None,
        m.memory@,
        m.header.abbreviations_location as int,
        true,
    )
}

/// The Z-string at `a` decodes without running off the image.
pub open spec fn spec_ztext_ok(m: ZMachine, a: int) -> bool {
    &&& zstring_words_ok(m.memory@, a)
    &&& spec_decode_ok(
        zchars_of_words(zstring_words(m.memory@, a)),
        0,
        Alphabet::A0,
        None,
        None,
        m.memory@,
        m.header.abbreviations_location as int,
        true,
    )
}

/// Prints the Z-string that follows the opcode inline, and advances the
/// consumed-byte count past it.
pub fn print(code: &mut OpCode, machine: &mut ZMachine) -> (r: Result<(), FatalError>)
    requires
        old(code).operands@.len() == 4,
        old(machine).wf(),
    ensures
        final(machine).wf(),
        ZMachine::same_shape(*old(machine), *final(machine)),
        r is Ok <==> (old(machine).ip + old(code).read_bytes <= u32::MAX && spec_ztext_ok(
            *old(machine),
            old(machine).ip + old(code).read_bytes,
        ) && old(code).read_bytes + 2 * zstring_words(
            old(machine).memory@,
            old(machine).ip + old(code).read_bytes,
        ).len() <= u32::MAX),
        r matches Ok(_) ==> ({
            let a = old(machine).ip + old(code).read_bytes;
            &&& final(machine).output@ == old(machine).output@ + spec_ztext(*old(machine), a)
            &&& *final(machine) == (ZMachine { output: final(machine).output, ..*old(machine) })
            &&& *final(code) == (OpCode {
                read_bytes: (old(code).read_bytes + 2 * zstring_words(
                    old(machine).memory@,
                    a,
                ).len()) as u32,
                ..*old(code)
            })
        }),
        r is Err ==> *final(machine) == *old(machine),
{
    if machine.ip as u64 + code.read_bytes as u64 > u32::MAX as u64 {
        return Err(FatalError::BadAddress);
    }
    let view = machine.get_frame_view();
    let abbreviations_view = machine.get_abbreviations_view();
    let string = ZString::create(code.read_bytes, &view, &abbreviations_view, &machine.memory)?;
    proof {
        crate::zstring::lemma_zstring_words_len(
            machine.memory@,
            machine.ip + code.read_bytes,
        );
    }
    if code.read_bytes as u64 + string.encoded_length as u64 > u32::MAX as u64 {
        return Err(FatalError::BadAddress);
    }
    code.read_bytes = code.read_bytes + string.encoded_length;
    let mut i: usize = 0;
    let chars = string.chars;
    while i < chars.len()
        invariant
            i <= chars@.len(),
            machine.output@ == old(machine).output@ + chars@.take(i as int),
            *machine == (ZMachine { output: machine.output, ..*old(machine) }),
        decreases chars@.len() - i,
    {
        machine.output.push(chars[i]);
        proof {
            assert(machine.output@ =~= old(machine).output@ + chars@.take(i + 1));
        }
        i = i + 1;
    }
    proof {
        assert(chars@.take(chars@.len() as int) =~= chars@);
    }
    Ok(())
}

/// Prints the inline Z-string, a newline, and returns true.
pub fn print_ret(code: &mut OpCode, machine: &mut ZMachine) -> (r: Result<(), FatalError>)
    requires
        old(code).operands@.len() == 4,
        old(machine).wf(),
    ensures
        final(machine).wf(),
        ZMachine::same_shape(*old(machine), *final(machine)),
        r is Ok <==> ({
            let a = old(machine).ip + old(code).read_bytes;
            &&& a <= u32::MAX
            &&& spec_ztext_ok(*old(machine), a)
            &&& old(code).read_bytes + 2 * zstring_words(old(machine).memory@, a).len()
                <= u32::MAX
            &&& old(machine).call_stack.top_of_frame >= 3
            &&& old(machine).call_stack.top_of_frame < old(machine).call_stack.stack@.len()
        }),
        r matches Ok(_) ==> ({
            let a = old(machine).ip + old(code).read_bytes;
            let stack = old(machine).call_stack.stack@;
            let tof = old(machine).call_stack.top_of_frame as int;
            &&& spec_ztext_ok(*old(machine), a)
            &&& final(machine).output@ == old(machine).output@ + spec_ztext(*old(machine), a)
                + seq!['\n']
            &&& tof < stack.len()
            &&& tof >= 3
            &&& final(machine).call_stack.stack@ == stack.take(tof - 3)
            &&& final(machine).call_stack.top_of_frame as int == stack[tof] as int
            &&& final(machine).ip as int == stack[tof - 2] * 0x10000 + stack[tof - 3]
            &&& final(code).store && final(code).result == 1
        }),
{
    print(code, machine)?;
    new_line(code, machine)?;
    rtrue(code, machine)?;
    Ok(())
}

/// Appends the decoded text of the Z-string at `address` to the output.
fn print_text_at(machine: &mut ZMachine, address: u32) -> (r: Result<(), FatalError>)
    requires
        old(machine).wf(),
    ensures
        final(machine).wf(),
        ZMachine::same_shape(*old(machine), *final(machine)),
        r is Ok <==> spec_ztext_ok(*old(machine), address as int),
        r matches Ok(_) ==> final(machine).output@ == old(machine).output@ + spec_ztext(
            *old(machine),
            address as int,
        ),
        r matches Ok(_) ==> *final(machine) == (ZMachine {
            output: final(machine).output,
            ..*old(machine)
        }),
        r is Err ==> *final(machine) == *old(machine),
        r matches Err(e) ==> e == FatalError::BadAddress,
{
    let view = machine.get_memory_view();
    let abbreviations_view = machine.get_abbreviations_view();
    let string = ZString::create(address, &view, &abbreviations_view, &machine.memory)?;
    let chars = string.chars;
    let mut i: usize = 0;
    while i < chars.len()
        invariant
            i <= chars@.len(),
            machine.output@ == old(machine).output@ + chars@.take(i as int),
            *machine == (ZMachine { output: machine.output, ..*old(machine) }),
        decreases chars@.len() - i,
    {
        machine.output.push(chars[i]);
        proof {
            assert(machine.output@ =~= old(machine).output@ + chars@.take(i + 1));
        }
        i = i + 1;
    }
    proof {
        assert(chars@.take(chars@.len() as int) =~= chars@);
    }
    Ok(())
}

/// Prints the Z-string at the byte address in the operand.
pub fn print_addr(code: &mut OpCode, machine: &mut ZMachine) -> (r: Result<(), FatalError>)
    requires
        old(code).operands@.len() == 4,
        old(machine).wf(),
    ensures
        final(machine).wf(),
        ZMachine::same_shape(*old(machine), *final(machine)),
        r is Ok <==> (!(old(code).operands@[0] is Omitted) && spec_ztext_ok(
            *old(machine),
            op_val(old(code).operands@[0]) as int,
        )),
        r matches Ok(_) ==> final(machine).output@ == old(machine).output@ + spec_ztext(
            *old(machine),
            op_val(old(code).operands@[0]) as int,
        ),
        r matches Ok(_) ==> *final(machine) == (ZMachine {
            output: final(machine).output,
            ..*old(machine)
        }) && *final(code) == *old(code),
        r is Err ==> *final(machine) == *old(machine),
{
    let addr = operand_value(code, 0)?;
    print_text_at(machine, addr as u32)
}

/// Prints the Z-string at the packed address in the operand (unpacked by
/// doubling in versions 1-3).
pub fn print_paddr(code: &mut OpCode, machine: &mut ZMachine) -> (r: Result<(), FatalError>)
    requires
        old(code).operands@.len() == 4,
        old(machine).wf(),
    ensures
        final(machine).wf(),
        ZMachine::same_shape(*old(machine), *final(machine)),
        r is Ok <==> (!(old(code).operands@[0] is Omitted) && spec_ztext_ok(
            *old(machine),
            2 * op_val(old(code).operands@[0]) as int,
        )),
        r matches Ok(_) ==> final(machine).output@ == old(machine).output@ + spec_ztext(
            *old(machine),
            2 * op_val(old(code).operands@[0]) as int,
        ),
        r matches Ok(_) ==> *final(machine) == (ZMachine {
            output: final(machine).output,
            ..*old(machine)
        }) && *final(code) == *old(code),
        r is Err ==> *final(machine) == *old(machine),
{
    let packed_addr = operand_value(code, 0)?;
    print_text_at(machine, packed_addr as u32 * 2)
}

/// Prints the short name of the operand object, stored just past its
/// property table's text-length byte.
pub fn print_obj(code: &mut OpCode, machine: &mut ZMachine) -> (r: Result<(), FatalError>)
    requires
        old(code).operands@.len() == 4,
        old(machine).wf(),
    ensures
        final(machine).wf(),
        ZMachine::same_shape(*old(machine), *final(machine)),
        r is Ok <==> ({
            let object = op_val(old(code).operands@[0]) as int;
            let table = obj_prop_table(*old(machine), object);
            &&& !(old(code).operands@[0] is Omitted)
            &&& obj_fits(*old(machine), object)
            &&& table < old(machine).memory@.len()
            &&& spec_ztext_ok(*old(machine), table + 1)
        }),
        r matches Ok(_) ==> ({
            let object = op_val(old(code).operands@[0]) as int;
            let table = obj_prop_table(*old(machine), object);
            &&& obj_fits(*old(machine), object)
            &&& final(machine).output@ == old(machine).output@ + spec_ztext(
                *old(machine),
                table + 1,
            )
            &&& *final(machine) == (ZMachine { output: final(machine).output, ..*old(machine) })
            &&& *final(code) == *old(code)
        }),
        r is Err ==> *final(machine) == *old(machine),
{
    let object = operand_value(code, 0)?;
    let properties = properties_view_checked(machine, object)?;
    proof {
        assert(properties.view.pointer <= 0xFFFF);
    }
    print_text_at(machine, properties.view.pointer + 1)
}

/// Whether the header's flags select the hours/minutes status line.
pub open spec fn status_is_hours(h: crate::header::Header) -> bool {
    match h.flags {
        crate::header::HeaderFlags::V1 { flags } => flags.status_line
            == crate::header::StatusLineType::Hours,
    }
}

/// The right half of the status line: score and turns, or hours and minutes
/// with an AM/PM marker.
pub open spec fn spec_status_right(hours: bool, g1: u16, g2: u16) -> Seq<char> {
    if hours {
        seq!['T', 'i', 'm', 'e', ':', ' '] + crate::text::dec_digits(g1 as int) + seq![':']
            + crate::text::dec_digits(g2 as int) + (if g1 > 12 {
            seq![' ', 'P', 'M']
        } else {
            seq![' ', 'A', 'M']
        })
    } else {
        seq!['S', 'c', 'o', 'r', 'e', ':', ' '] + crate::text::dec_digits(g1 as int) + seq![
            ' ',
            'T',
            'u',
            'r',
            'n',
            's',
            ':',
            ' ',
        ] + crate::text::dec_digits(g2 as int)
    }
}

/// Appends every character of `src` to `dst`.
fn append_chars(dst: &mut Vec<char>, src: &Vec<char>)
    ensures
        final(dst)@ == old(dst)@ + src@,
{
    let mut i: usize = 0;
    while i < src.len()
        invariant
            i <= src@.len(),
            dst@ == old(dst)@ + src@.take(i as int),
        decreases src@.len() - i,
    {
        dst.push(src[i]);
        proof {
            assert(dst@ =~= old(dst)@ + src@.take(i + 1));
        }
        i = i + 1;
    }
    proof {
        assert(src@.take(src@.len() as int) =~= src@);
    }
}

/// Composes the status line from globals 0 (the current object), 1 and 2:
/// the object's short name on the left, score/turns or hours/minutes on the
/// right.
pub fn show_status(code: &mut OpCode, machine: &mut ZMachine) -> (r: Result<(), FatalError>)
    requires
        old(code).operands@.len() == 4,
        old(machine).wf(),
    ensures
        final(machine).wf(),
        ZMachine::same_shape(*old(machine), *final(machine)),
        r is Ok <==> ({
            let m = *old(machine);
            let g0 = word_at(m.memory@, m.glob()) as int;
            let table = obj_prop_table(m, g0);
            &&& obj_fits(m, g0)
            &&& table < m.memory@.len()
            &&& spec_ztext_ok(m, table + 1)
        }),
        r matches Ok(_) ==> ({
            let m = *old(machine);
            let g0 = word_at(m.memory@, m.glob()) as int;
            let g1 = word_at(m.memory@, m.glob() + 2) as u16;
            let g2 = word_at(m.memory@, m.glob() + 4) as u16;
            let table = obj_prop_table(m, g0);
            &&& obj_fits(m, g0)
            &&& final(machine).status_left@ == spec_ztext(m, table + 1)
            &&& final(machine).status_right@ == spec_status_right(status_is_hours(m.header), g1,
                g2)
            &&& *final(machine) == (ZMachine {
                status_left: final(machine).status_left,
                status_right: final(machine).status_right,
                ..m
            })
            &&& *final(code) == *old(code)
        }),
{
    let globals = machine.get_global_variables_view();
    let score_object = globals.read_global(&machine.memory, 0);
    let first_param = globals.read_global(&machine.memory, 1);
    let second_param = globals.read_global(&machine.memory, 2);
    let properties = properties_view_checked(machine, score_object)?;
    proof {
        assert(properties.view.pointer <= 0xFFFF);
    }
    let abbreviations_view = machine.get_abbreviations_view();
    let name = ZString::create(
        properties.view.pointer + 1,
        &machine.get_memory_view(),
        &abbreviations_view,
        &machine.memory,
    )?;
    let hours = match machine.header.flags {
        crate::header::HeaderFlags::V1 { flags } => matches!(
            flags.status_line,
            crate::header::StatusLineType::Hours
        ),
    };
    let mut right: Vec<char> = Vec::new();
    if hours {
        let label: Vec<char> = vec!['T', 'i', 'm', 'e', ':', ' '];
        append_chars(&mut right, &label);
        crate::text::push_u16_decimal(&mut right, first_param);
        right.push(':');
        crate::text::push_u16_decimal(&mut right, second_param);
        if first_param > 12 {
            let marker: Vec<char> = vec![' ', 'P', 'M'];
            append_chars(&mut right, &marker);
        } else {
            let marker: Vec<char> = vec![' ', 'A', 'M'];
            append_chars(&mut right, &marker);
        }
    } else {
        let label: Vec<char> = vec!['S', 'c', 'o', 'r', 'e', ':', ' '];
        append_chars(&mut right, &label);
        crate::text::push_u16_decimal(&mut right, first_param);
        let label2: Vec<char> = vec![' ', 'T', 'u', 'r', 'n', 's', ':', ' '];
        append_chars(&mut right, &label2);
        crate::text::push_u16_decimal(&mut right, second_param);
    }
    proof {
        assert(right@ =~= spec_status_right(
            hours,
            word_at(old(machine).memory@, old(machine).glob() + 2) as u16,
            word_at(old(machine).memory@, old(machine).glob() + 4) as u16,
        ));
    }
    machine.status_left = name.chars;
    machine.status_right = right;
    Ok(())
}

/// The `random` opcode: a positive operand draws a value in `[1, r]` and
/// stores it; a negative operand seeds (predictable mode below 1000) and
/// stores 0; zero re-randomizes from entropy and stores 0.
pub fn random(code: &mut OpCode, machine: &mut ZMachine) -> (r: Result<(), FatalError>)
    requires
        old(code).operands@.len() == 4,
        old(machine).wf(),
    ensures
        final(machine).wf(),
        ZMachine::same_shape(*old(machine), *final(machine)),
        r is Ok <==> !(old(code).operands@[0] is Omitted),
        r matches Ok(_) ==> ({
            let v = op_val(old(code).operands@[0]);
            &&& *final(machine) == (ZMachine {
                random_generator: final(machine).random_generator,
                ..*old(machine)
            })
            &&& (s16(v) > 0 ==> ({
                &&& *final(code) == (OpCode {
                    store: true,
                    result: final(code).result,
                    ..*old(code)
                })
                &&& 1 <= final(code).result <= v
                &&& (old(machine).random_generator.randoms_predictable ==> ({
                    let v0: u16 = if old(
                        machine,
                    ).random_generator.randoms_predictable_next < 1 {
                        1u16
                    } else {
                        old(machine).random_generator.randoms_predictable_next
                    };
                    final(code).result == (v0 - 1) % (v as int) + 1
                }))
            }))
            &&& (s16(v) < 0 ==> ({
                &&& *final(code) == (OpCode { store: true, result: 0u16, ..*old(code) })
                &&& final(machine).random_generator.random_seed == iabs(s16(v))
                &&& final(machine).random_generator.randoms_predictable == (iabs(s16(v)) < 1000)
            }))
            &&& (s16(v) == 0 ==> ({
                &&& *final(code) == (OpCode { store: true, result: 0u16, ..*old(code) })
                &&& !final(machine).random_generator.randoms_predictable
                &&& final(machine).random_generator.random_seed == 0
            }))
        }),
{
    let value = operand_value(code, 0)?;
    code.store = true;
    if value == 0 {
        machine.random_generator.seed(0);
        code.result = 0;
        return Ok(());
    }
    if value >= 0x8000 {
        let seed_magnitude = magnitude(value);
        proof {
            assert(iabs(s16(value)) <= 0x8000);
        }
        machine.random_generator.seed(seed_magnitude as u16);
        code.result = 0;
        return Ok(());
    }
    let drawn = machine.random_generator.next(value);
    code.result = drawn;
    Ok(())
}

/// Suspends for input: composes the status line, then parks the machine in
/// the input-taking state carrying the text and parse buffer addresses.
pub fn sread(code: &mut OpCode, machine: &mut ZMachine) -> (r: Result<(), FatalError>)
    requires
        old(code).operands@.len() == 4,
        old(machine).wf(),
    ensures
        final(machine).wf(),
        ZMachine::same_shape(*old(machine), *final(machine)),
        r is Ok <==> ({
            let m = *old(machine);
            let g0 = word_at(m.memory@, m.glob()) as int;
            let table = obj_prop_table(m, g0);
            &&& obj_fits(m, g0)
            &&& table < m.memory@.len()
            &&& spec_ztext_ok(m, table + 1)
            &&& !(old(code).operands@[0] is Omitted)
            &&& !(old(code).operands@[1] is Omitted)
        }),
        r matches Ok(_) ==> ({
            let m = *old(machine);
            let g0 = word_at(m.memory@, m.glob()) as int;
            let g1 = word_at(m.memory@, m.glob() + 2) as u16;
            let g2 = word_at(m.memory@, m.glob() + 4) as u16;
            let table = obj_prop_table(m, g0);
            &&& final(machine).state == (MachineState::TakingInput {
                text_buffer: op_val(old(code).operands@[0]),
                parse_buffer: op_val(old(code).operands@[1]),
            })
            &&& final(machine).memory@ == old(machine).memory@
            &&& final(machine).call_stack.stack@ == old(machine).call_stack.stack@
            &&& final(machine).output@ == old(machine).output@
            &&& final(machine).status_left@ == spec_ztext(m, table + 1)
            &&& final(machine).status_right@ == spec_status_right(status_is_hours(m.header), g1,
                g2)
            &&& final(code).input
        }),
{
    show_status(code, machine)?;
    let text_buffer = operand_value(code, 0)?;
    let parse_buffer = operand_value(code, 1)?;
    code.input = true;
    machine.state = MachineState::TakingInput { text_buffer, parse_buffer };
    Ok(())
}

/// The lower-case folding of an ASCII byte.
pub open spec fn lower_byte(b: u8) -> u8 {
    if 65 <= b <= 90 {
        (b + 32) as u8
    } else {
        b
    }
}

/// ASCII whitespace as the tokenizer sees it.
pub open spec fn is_ws(b: u8) -> bool {
    b == 32 || b == 9 || b == 10 || b == 13
}

/// `s` without its trailing whitespace.
pub open spec fn trim_right(s: Seq<u8>) -> Seq<u8>
    decreases s.len(),
{
    if s.len() == 0 {
        s
    } else if is_ws(s.last()) {
        trim_right(s.drop_last())
    } else {
        s
    }
}

/// The lower-cased, right-trimmed reading of raw input.
pub open spec fn spec_clean(s: Seq<u8>) -> Seq<u8> {
    trim_right(Seq::new(s.len(), |i: int| lower_byte(s[i])))
}

/// Lower-cases the input and strips trailing whitespace.
pub fn lowercase_and_trim(input: &Vec<u8>) -> (r: Vec<u8>)
    ensures
        r@ == spec_clean(input@),
{
    let mut out: Vec<u8> = Vec::new();
    let mut i: usize = 0;
    while i < input.len()
        invariant
            i <= input@.len(),
            out@ == Seq::new(i as nat, |k: int| lower_byte(input@[k])),
        decreases input@.len() - i,
    {
        let b = input[i];
        if b >= 65 && b <= 90 {
            out.push(b + 32);
        } else {
            out.push(b);
        }
        proof {
            assert(out@ =~= Seq::new((i + 1) as nat, |k: int| lower_byte(input@[k])));
        }
        i = i + 1;
    }
    let ghost mapped = Seq::new(input@.len(), |k: int| lower_byte(input@[k]));
    proof {
        assert(out@ =~= mapped);
    }
    loop
        invariant
            mapped == Seq::new(input@.len(), |k: int| lower_byte(input@[k])),
            trim_right(out@) == trim_right(mapped),
        decreases out@.len(),
    {
        let n = out.len();
        if n == 0 {
            proof {
                assert(trim_right(out@) == out@);
            }
            return out;
        }
        let last = out[n - 1];
        if last == 32 || last == 9 || last == 10 || last == 13 {
            let ghost before = out@;
            out.pop();
            proof {
                assert(is_ws(before.last()));
                assert(trim_right(before) == trim_right(before.drop_last()));
            }
        } else {
            proof {
                assert(!is_ws(out@.last()));
                assert(trim_right(out@) == out@);
            }
            return out;
        }
    }
}

/// The words of `text` from position `i` on, with `cur` the word being
/// gathered: whitespace closes the gathered word, anything else extends it.
pub open spec fn split_acc(text: Seq<u8>, i: int, cur: Seq<u8>) -> Seq<Seq<u8>>
    decreases text.len() - i,
{
    if !(0 <= i < text.len()) {
        if cur.len() == 0 {
            Seq::empty()
        } else {
            seq![cur]
        }
    } else if is_ws(text[i]) {
        if cur.len() == 0 {
            split_acc(text, i + 1, Seq::empty())
        } else {
            seq![cur] + split_acc(text, i + 1, Seq::empty())
        }
    } else {
        split_acc(text, i + 1, cur.push(text[i]))
    }
}

/// The maximal whitespace-free runs of `text`, in order.
pub open spec fn split_spec(text: Seq<u8>) -> Seq<Seq<u8>> {
    split_acc(text, 0, Seq::empty())
}

/// Splits cleaned text on ASCII whitespace into its words: exactly the
/// maximal whitespace-free runs, each non-empty.
pub fn split_words(text: &Vec<u8>) -> (r: Vec<Vec<u8>>)
    ensures
        word_views(r@) == split_spec(text@),
        forall|j: int|
            0 <= j < r@.len() ==> (#[trigger] r@[j])@.len() >= 1 && (forall|k: int|
                0 <= k < r@[j]@.len() ==> !is_ws(#[trigger] r@[j]@[k])),
{
    let mut words: Vec<Vec<u8>> = Vec::new();
    let mut current: Vec<u8> = Vec::new();
    let mut i: usize = 0;
    proof {
        assert(word_views(words@) =~= Seq::<Seq<u8>>::empty());
    }
    while i < text.len()
        invariant
            i <= text@.len(),
            split_spec(text@) == word_views(words@) + split_acc(text@, i as int, current@),
            forall|k: int| 0 <= k < current@.len() ==> !is_ws(#[trigger] current@[k]),
            forall|j: int|
                0 <= j < words@.len() ==> (#[trigger] words@[j])@.len() >= 1 && (forall|k: int|
                    0 <= k < words@[j]@.len() ==> !is_ws(#[trigger] words@[j]@[k])),
        decreases text@.len() - i,
    {
        let b = text[i];
        let ghost prev_words = words@;
        if b == 32 || b == 9 || b == 10 || b == 13 {
            proof {
                assert(is_ws(text@[i as int]));
                if current@.len() == 0 {
                    assert(split_acc(text@, i as int, current@) == split_acc(
                        text@,
                        i + 1,
                        Seq::<u8>::empty(),
                    ));
                    assert(current@ =~= Seq::<u8>::empty());
                }
            }
            if current.len() > 0 {
                let ghost closed = current@;
                let ghost closed_vec = current;
                proof {
                    assert(split_acc(text@, i as int, closed) == seq![closed] + split_acc(
                        text@,
                        i + 1,
                        Seq::empty(),
                    ));
                }
                words.push(current);
                current = Vec::new();
                proof {
                    assert(words@ == prev_words.push(closed_vec));
                    assert(word_views(words@) =~= word_views(prev_words).push(closed));
                    assert(word_views(prev_words) + (seq![closed] + split_acc(
                        text@,
                        i + 1,
                        Seq::empty(),
                    )) =~= word_views(words@) + split_acc(text@, i + 1, Seq::empty()));
                }
            }
        } else {
            let ghost prev_cur = current@;
            current.push(b);
            proof {
                assert(!is_ws(text@[i as int]));
                assert(current@ == prev_cur.push(text@[i as int]));
                assert(split_acc(text@, i as int, prev_cur) == split_acc(
                    text@,
                    i + 1,
                    current@,
                ));
            }
        }
        i = i + 1;
    }
    if current.len() > 0 {
        let ghost prev_words = words@;
        let ghost closed = current@;
        let ghost closed_vec = current;
        proof {
            assert(split_acc(text@, i as int, closed) == seq![closed]);
        }
        words.push(current);
        proof {
            assert(words@ == prev_words.push(closed_vec));
            assert(word_views(words@) =~= word_views(prev_words).push(closed));
            assert(word_views(prev_words) + seq![closed] =~= word_views(words@));
        }
    }
    proof {
        assert(split_spec(text@) =~= word_views(words@));
    }
    words
}

/// `mem` with `bytes` written over the range starting at `a`.
pub open spec fn splice(mem: Seq<u8>, a: int, bytes: Seq<u8>) -> Seq<u8> {
    Seq::new(
        mem.len(),
        |i: int|
            if a <= i < a + bytes.len() {
                bytes[i - a]
            } else {
                mem[i]
            },
    )
}

/// Writes `bytes` into the image at `a`.
fn write_bytes_at(mem: &mut Vec<u8>, a: u32, bytes: &Vec<u8>) -> (r: Result<(), FatalError>)
    requires
        image_sized(old(mem)@),
    ensures
        r is Ok <==> a + bytes@.len() <= old(mem)@.len(),
        r matches Ok(_) ==> final(mem)@ == splice(old(mem)@, a as int, bytes@),
        r is Err ==> final(mem)@ == old(mem)@,
        final(mem)@.len() == old(mem)@.len(),
        r matches Err(e) ==> e == FatalError::BadAddress,
{
    if bytes.len() as u64 > mem.len() as u64 || a as u64 > mem.len() as u64 - bytes.len() as u64 {
        return Err(FatalError::BadAddress);
    }
    let mut j: usize = 0;
    while j < bytes.len()
        invariant
            j <= bytes@.len(),
            a + bytes@.len() <= mem@.len(),
            image_sized(mem@),
            mem@.len() == old(mem)@.len(),
            mem@ == splice(old(mem)@, a as int, bytes@.take(j as int)),
        decreases bytes@.len() - j,
    {
        let view = MemoryView { pointer: 0 };
        view.write_at(mem, a + j as u32, bytes[j]);
        proof {
            assert(mem@ =~= splice(old(mem)@, a as int, bytes@.take(j + 1)));
        }
        j = j + 1;
    }
    proof {
        assert(bytes@.take(bytes@.len() as int) =~= bytes@);
        assert(mem@ =~= splice(old(mem)@, a as int, bytes@));
    }
    Ok(())
}

/// The words joined with a single space after each one, as the text buffer
/// stores them.
pub open spec fn joined(words: Seq<Seq<u8>>) -> Seq<u8>
    decreases words.len(),
{
    if words.len() == 0 {
        Seq::empty()
    } else {
        words[0] + seq![32u8] + joined(words.drop_first())
    }
}

/// Joining one more word appends it and a space.
pub proof fn lemma_joined_push(words: Seq<Seq<u8>>, w: Seq<u8>)
    ensures
        joined(words.push(w)) == joined(words) + w + seq![32u8],
    decreases words.len(),
{
    if words.len() == 0 {
        assert(words.push(w).drop_first() =~= Seq::<Seq<u8>>::empty());
        assert(joined(Seq::<Seq<u8>>::empty()) =~= Seq::<u8>::empty());
        assert(words.push(w)[0] == w);
        assert(joined(words.push(w)) =~= w + seq![32u8] + Seq::<u8>::empty());
        assert(joined(words.push(w)) =~= joined(words) + w + seq![32u8]);
    } else {
        lemma_joined_push(words.drop_first(), w);
        assert(words.push(w).drop_first() =~= words.drop_first().push(w));
        assert(words.push(w)[0] == words[0]);
        assert(joined(words.push(w)) =~= joined(words) + w + seq![32u8]);
    }
}

/// The views of a vector of word vectors.
pub open spec fn word_views(words: Seq<Vec<u8>>) -> Seq<Seq<u8>> {
    Seq::new(words.len(), |i: int| words[i]@)
}

/// Flattens the words into the single-spaced buffer layout.
fn joined_bytes(words: &Vec<Vec<u8>>) -> (r: Vec<u8>)
    ensures
        r@ == joined(word_views(words@)),
{
    let mut out: Vec<u8> = Vec::new();
    let mut j: usize = 0;
    proof {
        assert(word_views(words@.take(0)) =~= Seq::<Seq<u8>>::empty());
    }
    while j < words.len()
        invariant
            j <= words@.len(),
            out@ == joined(word_views(words@.take(j as int))),
        decreases words@.len() - j,
    {
        let word = &words[j];
        let mut k: usize = 0;
        let ghost base = out@;
        while k < word.len()
            invariant
                k <= word@.len(),
                out@ == base + word@.take(k as int),
                word@ == words@[j as int]@,
            decreases word@.len() - k,
        {
            out.push(word[k]);
            proof {
                assert(out@ =~= base + word@.take(k + 1));
            }
            k = k + 1;
        }
        out.push(32);
        proof {
            lemma_joined_push(word_views(words@.take(j as int)), words@[j as int]@);
            assert(word_views(words@.take(j + 1)) =~= word_views(words@.take(j as int)).push(
                words@[j as int]@,
            ));
            assert(word@.take(word@.len() as int) =~= word@);
            assert(out@ =~= joined(word_views(words@.take(j + 1))));
        }
        j = j + 1;
    }
    proof {
        assert(words@.take(words@.len() as int) =~= words@);
    }
    out
}

/// Writes the tokenized words, single-spaced, at the given text-buffer
/// address (the caller points it one byte past the buffer's maximum-length
/// byte).
pub fn sread_write_to_text_buffer(
    view: &MemoryView,
    words: &Vec<Vec<u8>>,
    text_buffer: u32,
    mem: &mut Vec<u8>,
) -> (r: Result<(), FatalError>)
    requires
        image_sized(old(mem)@),
    ensures
        r is Ok <==> text_buffer + joined(word_views(words@)).len() <= old(mem)@.len(),
        r matches Ok(_) ==> final(mem)@ == splice(
            old(mem)@,
            text_buffer as int,
            joined(word_views(words@)),
        ),
        r is Err ==> final(mem)@ == old(mem)@,
        final(mem)@.len() == old(mem)@.len(),
        r matches Err(e) ==> e == FatalError::BadAddress,
{
    let bytes = joined_bytes(words);
    write_bytes_at(mem, text_buffer, &bytes)
}

/// The 4-byte big-endian number a dictionary lookup compares: the first two
/// words of an entry (or of an encoded search key).
pub open spec fn entry_key(mem: Seq<u8>, a: int) -> int {
    word_at(mem, a) * 0x10000 + word_at(mem, a + 2)
}

/// The absolute address of dictionary entry `j`.
pub open spec fn dict_entry_addr(mem: Seq<u8>, dict: int, j: int) -> int {
    let n_codes = mem[dict] as int;
    let entry_len = mem[dict + n_codes + 1] as int;
    dict + n_codes + 4 + j * entry_len
}

/// How many entries the dictionary declares.
pub open spec fn dict_count(mem: Seq<u8>, dict: int) -> int {
    let n_codes = mem[dict] as int;
    word_at(mem, dict + n_codes + 2)
}

/// The dictionary entries are sorted ascending by their 4-byte keys, as the
/// format requires.
pub open spec fn dict_sorted(mem: Seq<u8>, dict: int) -> bool {
    forall|i: int, j: int|
        0 <= i < j < dict_count(mem, dict) ==> #[trigger] entry_key(
            mem,
            dict_entry_addr(mem, dict, i),
        ) <= #[trigger] entry_key(mem, dict_entry_addr(mem, dict, j))
}

/// The dictionary header can be read and all its declared entries lie in
/// the image: the separator count, the entry length (at least the 4 compared
/// bytes) and the entry count are followed by `count * length` bytes.
pub open spec fn dict_readable(mem: Seq<u8>, dict: int) -> bool {
    &&& 0 <= dict < mem.len()
    &&& dict + mem[dict] + 4 <= mem.len()
    &&& mem[dict + mem[dict] + 1] >= 4
    &&& dict + mem[dict] + 4 + dict_count(mem, dict) * mem[dict + mem[dict] + 1] <= mem.len()
}

/// Binary-searches the dictionary for an encoded word.  A hit is always a
/// real match; on a dictionary that is sorted as the format requires, a
/// miss means no entry matches.
pub fn sread_find_word_in_dictionary(string: &ZWord, dictionary: &MemoryView, mem: &Vec<u8>) -> (r:
    Result<Option<u32>, FatalError>)
    requires
        image_sized(mem@),
    ensures
        r is Ok <==> ((string is V3) && dict_readable(mem@, dictionary.pointer as int)),
        r matches Ok(Some(a)) ==> ({
            let dict = dictionary.pointer as int;
            exists|j: int|
                0 <= j < dict_count(mem@, dict) && a == dict_entry_addr(mem@, dict, j)
                    && (string matches ZWord::V3 { encoded, .. } && entry_key(mem@, a as int)
                    == encoded[0] * 0x10000 + encoded[1])
        }),
        (r matches Ok(o) && o is None && dict_sorted(mem@, dictionary.pointer as int)) ==> (forall|
            j: int,
        |
            0 <= j < dict_count(mem@, dictionary.pointer as int) ==> (string matches ZWord::V3 {
                encoded,
                ..
            } && #[trigger] entry_key(
                mem@,
                dict_entry_addr(mem@, dictionary.pointer as int, j),
            ) != encoded[0] * 0x10000 + encoded[1])),
        r matches Err(e) ==> e == FatalError::BadAddress,
{
    let ghost dict = dictionary.pointer as int;
    let target: u32 = match string {
        ZWord::V3 { encoded, .. } => (encoded[0] as u32) * 0x10000 + encoded[1] as u32,
        ZWord::V4 { .. } => {
            return Err(FatalError::BadAddress);
        },
    };
    if dictionary.pointer as u64 >= mem.len() as u64 {
        return Err(FatalError::BadAddress);
    }
    let num_input_codes = dictionary.read_at_head(mem, 0) as u32;
    if dictionary.pointer as u64 + num_input_codes as u64 + 4 > mem.len() as u64 {
        return Err(FatalError::BadAddress);
    }
    let entry_length = dictionary.read_at_head(mem, num_input_codes + 1) as u32;
    let dictionary_entries = dictionary.read_u16_at_head(mem, num_input_codes + 2) as u32;
    if entry_length < 4 {
        return Err(FatalError::BadAddress);
    }
    let base = dictionary.pointer + num_input_codes + 4;
    proof {
        assert(dictionary_entries as int * entry_length as int <= 0xFFFF * 0xFF)
            by (nonlinear_arith)
            requires
                0 <= dictionary_entries as int,
                dictionary_entries as int <= 0xFFFF,
                0 <= entry_length as int,
                entry_length as int <= 0xFF,
        ;
    }
    if base as u64 + dictionary_entries as u64 * entry_length as u64 > mem.len() as u64 {
        return Err(FatalError::BadAddress);
    }
    let view = MemoryView { pointer: 0 };
    let mut lo: u32 = 0;
    let mut hi: u32 = dictionary_entries;
    while lo < hi
        invariant
            image_sized(mem@),
            dict == dictionary.pointer as int,
            lo <= hi <= dictionary_entries,
            dictionary_entries == dict_count(mem@, dict),
            4 <= entry_length <= 255,
            dictionary_entries <= 0xFFFF,
            entry_length == mem@[dict + mem@[dict] + 1],
            num_input_codes == mem@[dict],
            base == dict + mem@[dict] + 4,
            base as u64 + dictionary_entries as u64 * entry_length as u64 <= mem@.len() as u64,
            string matches ZWord::V3 { encoded, .. } && target == encoded[0] * 0x10000 + encoded[1],
            dict_sorted(mem@, dict) ==> (forall|j: int|
                0 <= j < lo ==> #[trigger] entry_key(mem@, dict_entry_addr(mem@, dict, j))
                    < target),
            dict_sorted(mem@, dict) ==> (forall|j: int|
                hi <= j < dictionary_entries ==> #[trigger] entry_key(
                    mem@,
                    dict_entry_addr(mem@, dict, j),
                ) > target),
        decreases hi - lo,
    {
        let mid = lo + (hi - lo) / 2;
        proof {
            assert(mid as int * entry_length as int <= dictionary_entries as int
                * entry_length as int && 0 <= mid as int * entry_length as int)
                by (nonlinear_arith)
                requires
                    0 <= mid as int,
                    (mid as int) < (dictionary_entries as int),
                    0 <= entry_length as int,
            ;
        }
        let offset = base + mid * entry_length;
        proof {
            assert(mid < dictionary_entries);
            assert(offset == dict_entry_addr(mem@, dict, mid as int));
            assert((mid as int + 1) * (entry_length as int) <= (dictionary_entries as int)
                * (entry_length as int)) by (nonlinear_arith)
                requires
                    0 <= mid as int + 1,
                    mid as int + 1 <= dictionary_entries as int,
                    entry_length as int >= 4,
            ;
            assert((mid as int + 1) * (entry_length as int) == mid as int
                * (entry_length as int) + entry_length as int) by (nonlinear_arith);
            assert(offset + entry_length <= mem@.len());
        }
        let key = (view.read_u16_at(mem, offset) as u32) * 0x10000 + view.read_u16_at(
            mem,
            offset + 2,
        ) as u32;
        proof {
            assert(key == entry_key(mem@, offset as int));
        }
        if key == target {
            return Ok(Some(offset));
        } else if key < target {
            proof {
                if dict_sorted(mem@, dict) {
                    assert(forall|j: int|
                        0 <= j <= mid ==> #[trigger] entry_key(
                            mem@,
                            dict_entry_addr(mem@, dict, j),
                        ) <= entry_key(mem@, dict_entry_addr(mem@, dict, mid as int)));
                }
            }
            lo = mid + 1;
        } else {
            proof {
                if dict_sorted(mem@, dict) {
                    assert(forall|j: int|
                        mid <= j < dictionary_entries ==> entry_key(
                            mem@,
                            dict_entry_addr(mem@, dict, mid as int),
                        ) <= #[trigger] entry_key(mem@, dict_entry_addr(mem@, dict, j)));
                }
            }
            hi = mid;
        }
    }
    Ok(None)
}

/// The 1-based column at which word `k` starts in the single-spaced buffer
/// layout.
pub open spec fn word_pos(words: Seq<Seq<u8>>, k: int) -> int
    decreases k,
{
    if k <= 0 {
        1
    } else {
        word_pos(words, k - 1) + words[k - 1].len() + 1
    }
}

/// The characters of a token's bytes.
pub open spec fn word_chars(w: Seq<u8>) -> Seq<char> {
    Seq::new(w.len(), |i: int| w[i] as char)
}

/// `a` is a sound dictionary answer for the token `w`: the (16-bit record
/// width of the) address of an entry whose key is the token's encoded form,
/// or 0 - which, over a dictionary sorted as the format requires, means no
/// entry matches.
#[verifier::opaque]
pub open spec fn lookup_answer(mem: Seq<u8>, dict: int, w: Seq<u8>, a: int) -> bool {
    let key = crate::zstring::dict_key(crate::zstring::dict_zchars(word_chars(w)));
    ||| (exists|j: int|
        0 <= j < dict_count(mem, dict) && a == #[trigger] dict_entry_addr(mem, dict, j) % 0x10000
            && entry_key(mem, dict_entry_addr(mem, dict, j)) == key)
    ||| (a == 0 && (dict_sorted(mem, dict) ==> (forall|j: int|
        0 <= j < dict_count(mem, dict) ==> #[trigger] entry_key(
            mem,
            dict_entry_addr(mem, dict, j),
        ) != key)))
}

/// Encodes a token's bytes into the two-word dictionary search form.
fn encode_token(word: &Vec<u8>, version: u8) -> (r: ZWord)
    requires
        1 <= version <= 3,
    ensures
        r is V3,
        r matches ZWord::V3 { encoded, .. } ==> encoded[0] * 0x10000 + encoded[1]
            == crate::zstring::dict_key(crate::zstring::dict_zchars(word_chars(word@))),
{
    let mut chars: Vec<char> = Vec::new();
    let mut c: usize = 0;
    while c < word.len()
        invariant
            c <= word@.len(),
            chars@ == word_chars(word@.take(c as int)),
        decreases word@.len() - c,
    {
        chars.push(word[c] as char);
        proof {
            assert(chars@ =~= word_chars(word@.take(c + 1)));
        }
        c = c + 1;
    }
    proof {
        assert(word@.take(word@.len() as int) =~= word@);
        assert(chars@ =~= word_chars(word@));
    }
    ZString::encode_word(&chars, version)
}

/// Looks one token up: encodes it and binary-searches the dictionary,
/// reducing the answer to the 16-bit record word (0 when unknown).
#[verifier::rlimit(100)]
fn lookup_token(
    word: &Vec<u8>,
    dictionary_view: &MemoryView,
    version: u8,
    mem: &Vec<u8>,
) -> (r: Result<u16, FatalError>)
    requires
        image_sized(mem@),
        1 <= version <= 3,
    ensures
        r is Ok <==> dict_readable(mem@, dictionary_view.pointer as int),
        r matches Ok(a) ==> lookup_answer(
            mem@,
            dictionary_view.pointer as int,
            word@,
            a as int,
        ),
        r matches Err(e) ==> e == FatalError::BadAddress,
{
    let encoded_word = encode_token(word, version);
    let address = sread_find_word_in_dictionary(&encoded_word, dictionary_view, mem)?;
    let addr16: u16 = match address {
        Some(x) => (x % 0x10000) as u16,
        None => 0,
    };
    proof {
        reveal(crate::instruction_set::lookup_answer);
        assert(lookup_answer(mem@, dictionary_view.pointer as int, word@, addr16 as int));
    }
    Ok(addr16)
}

/// The first `k` records are correct: for record `j`, bytes 0-1 hold a
/// sound dictionary answer for token `j`, byte 2 its length and byte 3 its
/// 1-based column (both reduced to a byte).
#[verifier::opaque]
pub open spec fn records_ok(
    records: Seq<u8>,
    words: Seq<Vec<u8>>,
    mem: Seq<u8>,
    dict: int,
    k: int,
) -> bool {
    forall|j: int|
        0 <= j < k ==> {
            &&& lookup_answer(
                mem,
                dict,
                (#[trigger] words[j])@,
                records[4 * j] * 256 + records[4 * j + 1],
            )
            &&& records[4 * j + 2] == (words[j]@.len() % 256) as u8
            &&& records[4 * j + 3] == (word_pos(word_views(words), j) % 256) as u8
        }
}

/// Builds the 4-byte records for the first `token_count` tokens: the
/// dictionary answer word, the token length byte and the column byte.
#[verifier::rlimit(100)]
fn build_parse_records(
    words: &Vec<Vec<u8>>,
    dictionary_view: &MemoryView,
    version: u8,
    token_count: usize,
    mem: &Vec<u8>,
) -> (r: Result<Vec<u8>, FatalError>)
    requires
        image_sized(mem@),
        1 <= version <= 3,
        token_count <= words@.len(),
    ensures
        r is Ok <==> ((token_count == 0 || dict_readable(mem@, dictionary_view.pointer as int))
            && (forall|j: int|
            0 <= j < token_count ==> (#[trigger] words@[j])@.len() <= 0x10000000000 && word_pos(
                word_views(words@),
                j,
            ) <= 0x10000000000)),
        r matches Ok(records) ==> records@.len() == 4 * token_count && records_ok(
            records@,
            words@,
            mem@,
            dictionary_view.pointer as int,
            token_count as int,
        ),
        r matches Err(e) ==> e == FatalError::BadAddress,
{
    let mut records: Vec<u8> = Vec::new();
    let mut pos: u64 = 1;
    let mut k: usize = 0;
    let ghost dict = dictionary_view.pointer as int;
    proof {
        reveal(crate::instruction_set::records_ok);
        assert(records_ok(records@, words@, mem@, dict, 0));
    }
    while k < token_count
        invariant
            image_sized(mem@),
            dict == dictionary_view.pointer as int,
            token_count <= words@.len(),
            1 <= version <= 3,
            k <= token_count,
            records@.len() == 4 * k,
            pos == word_pos(word_views(words@), k as int),
            k == 0 || dict_readable(mem@, dict),
            forall|j: int|
                0 <= j < k ==> (#[trigger] words@[j])@.len() <= 0x10000000000 && word_pos(
                    word_views(words@),
                    j,
                ) <= 0x10000000000,
            records_ok(records@, words@, mem@, dict, k as int),
        decreases token_count - k,
    {
        let word = &words[k];
        let addr16 = lookup_token(word, dictionary_view, version, mem)?;
        if pos > 0x10000000000u64 || word.len() as u64 > 0x10000000000u64 {
            proof {
                assert(!((words@[k as int])@.len() <= 0x10000000000 && word_pos(
                    word_views(words@),
                    k as int,
                ) <= 0x10000000000));
            }
            return Err(FatalError::BadAddress);
        }
        records.push((addr16 / 256) as u8);
        records.push((addr16 % 256) as u8);
        records.push((word.len() % 256) as u8);
        records.push((pos % 256) as u8);
        proof {
            reveal(crate::instruction_set::records_ok);
            assert(word_views(words@)[k as int] == words@[k as int]@);
            assert(records@[4 * k as int] * 256 + records@[4 * k as int + 1] == addr16 as int);
            assert(records_ok(records@, words@, mem@, dict, k as int + 1));
        }
        pos = pos + word.len() as u64 + 1;
        k = k + 1;
    }
    Ok(records)
}

/// Writes the token records: the token count at `parse_buffer + 1`, then one
/// 4-byte record per token at `parse_buffer + 2 + 4k` holding the dictionary
/// address (0 when unknown), the token length, and its 1-based column.
#[verifier::rlimit(100)]
pub fn sread_write_to_parse_buffer(
    view: &MemoryView,
    words: &Vec<Vec<u8>>,
    dictionary_view: &MemoryView,
    parse_buffer: u32,
    version: u8,
    mem: &mut Vec<u8>,
) -> (r: Result<(), FatalError>)
    requires
        image_sized(old(mem)@),
        1 <= version <= 3,
    ensures
        final(mem)@.len() == old(mem)@.len(),
        r is Ok <==> ({
            let max_tokens = old(mem)@[parse_buffer as int] as int;
            let n = vstd::math::min(max_tokens, words@.len() as int);
            &&& parse_buffer < old(mem)@.len()
            &&& parse_buffer + 2 + 4 * n <= old(mem)@.len()
            &&& (n == 0 || dict_readable(old(mem)@, dictionary_view.pointer as int))
            &&& (forall|j: int|
                0 <= j < n ==> (#[trigger] words@[j])@.len() <= 0x10000000000 && word_pos(
                    word_views(words@),
                    j,
                ) <= 0x10000000000)
        }),
        r matches Ok(_) ==> ({
            let max_tokens = old(mem)@[parse_buffer as int] as int;
            let n = vstd::math::min(max_tokens, words@.len() as int);
            &&& parse_buffer + 2 + 4 * n <= old(mem)@.len()
            &&& final(mem)@[parse_buffer + 1] == n
            &&& (forall|k: int|
                0 <= k < n ==> lookup_answer(
                    old(mem)@,
                    dictionary_view.pointer as int,
                    (#[trigger] words@[k])@,
                    word_at(final(mem)@, parse_buffer + 2 + 4 * k),
                ))
            &&& (forall|k: int|
                0 <= k < n ==> #[trigger] final(mem)@[parse_buffer + 2 + 4 * k + 2] == (
                words@[k]@.len() % 256) as u8)
            &&& (forall|k: int|
                0 <= k < n ==> #[trigger] final(mem)@[parse_buffer + 2 + 4 * k + 3] == (word_pos(
                    word_views(words@),
                    k,
                ) % 256) as u8)
            &&& (forall|i: int|
                0 <= i < old(mem)@.len() && !(parse_buffer + 1 <= i < parse_buffer + 2 + 4 * n)
                    ==> #[trigger] final(mem)@[i] == old(mem)@[i])
        }),
{
    if parse_buffer as u64 >= mem.len() as u64 {
        return Err(FatalError::BadAddress);
    }
    let max_tokens = view.read_at(mem, parse_buffer);
    let token_count: usize = if (max_tokens as usize) < words.len() {
        max_tokens as usize
    } else {
        words.len()
    };
    let ghost n = token_count as int;
    let ghost dict = dictionary_view.pointer as int;
    if parse_buffer as u64 + 2 + 4 * token_count as u64 > mem.len() as u64 {
        return Err(FatalError::BadAddress);
    }
    let records = build_parse_records(words, dictionary_view, version, token_count, mem)?;
    let count_vec: Vec<u8> = vec![token_count as u8];
    let ghost mem0 = mem@;
    write_bytes_at(mem, parse_buffer + 1, &count_vec)?;
    let ghost mem1 = mem@;
    write_bytes_at(mem, parse_buffer + 2, &records)?;
    proof {
        reveal(crate::instruction_set::records_ok);
        assert(mem1[parse_buffer + 1] == token_count as u8);
        assert(final(mem)@[parse_buffer + 1] == token_count as u8);
        assert forall|j: int| 0 <= j < n implies lookup_answer(
            old(mem)@,
            dict,
            (#[trigger] words@[j])@,
            word_at(final(mem)@, parse_buffer + 2 + 4 * j),
        ) by {
            assert(final(mem)@[parse_buffer + 2 + 4 * j] == records@[4 * j]);
            assert(final(mem)@[parse_buffer + 2 + 4 * j + 1] == records@[4 * j + 1]);
            assert(word_at(final(mem)@, parse_buffer + 2 + 4 * j) == records@[4 * j] * 256
                + records@[4 * j + 1]);
        }
        assert forall|j: int| 0 <= j < n implies #[trigger] final(mem)@[parse_buffer + 2 + 4 * j
            + 2] == (words@[j]@.len() % 256) as u8 by {
            assert(final(mem)@[parse_buffer + 2 + 4 * j + 2] == records@[4 * j + 2]);
        }
        assert forall|j: int| 0 <= j < n implies #[trigger] final(mem)@[parse_buffer + 2 + 4 * j
            + 3] == (word_pos(word_views(words@), j) % 256) as u8 by {
            assert((words@[j])@.len() >= 0);
            assert(final(mem)@[parse_buffer + 2 + 4 * j + 3] == records@[4 * j + 3]);
        }
    }
    Ok(())
}

impl OpCode {
    /// Dispatches to the handler of the decoded instruction.
    pub fn execute(&mut self, env: &mut ZMachine) -> (r: Result<(), FatalError>)
        requires
            old(self).operands@.len() == 4,
            old(self).operand_count <= 4,
            old(env).wf(),
        ensures
            final(env).wf(),
            ZMachine::same_shape(*old(env), *final(env)),
            old(self).instruction == Instruction::Nop ==> (r is Ok && *final(self) == *old(self)
                && *final(env) == *old(env)),
            old(self).instruction == Instruction::Quit ==> (r is Ok && *final(env) == (ZMachine {
                state: MachineState::Stopped,
                ..*old(env)
            }) && *final(self) == (OpCode { read_bytes: 0u32, ..*old(self) })),
            r is Ok ==> spec_handler_effect(
                old(self).instruction,
                *old(self),
                *old(env),
                *final(self),
                *final(env),
            ),
    {
        match self.instruction {
            Instruction::DebugOp => debug(self, env),
            Instruction::Je => je(self, env),
            Instruction::Jl => jl(self, env),
            Instruction::Jg => jg(self, env),
            Instruction::DecChk => dec_chk(self, env),
            Instruction::IncChk => inc_chk(self, env),
            Instruction::Jin => jin(self, env),
            Instruction::Test => test(self, env),
            Instruction::Or => or(self, env),
            Instruction::And => and(self, env),
            Instruction::TestAttr => test_attr(self, env),
            Instruction::SetAttr => set_attr(self, env),
            Instruction::ClearAttr => clear_attr(self, env),
            Instruction::Store => store(self, env),
            Instruction::InsertObj => insert_obj(self, env),
            Instruction::Loadw => loadw(self, env),
            Instruction::Loadb => loadb(self, env),
            Instruction::GetProp => get_prop(self, env),
            Instruction::GetPropAddr => get_prop_addr(self, env),
            Instruction::GetNextProp => get_next_prop(self, env),
            Instruction::Add => crate::instruction_set::add(self, env),
            Instruction::Sub => crate::instruction_set::sub(self, env),
            Instruction::Mul => crate::instruction_set::mul(self, env),
            Instruction::Div => div(self, env),
            Instruction::Mod => mod_fn(self, env),
            Instruction::Jz => jz(self, env),
            Instruction::GetSibling => get_sibling(self, env),
            Instruction::GetChild => get_child(self, env),
            Instruction::GetParent => get_parent(self, env),
            Instruction::GetPropLen => get_prop_len(self, env),
            Instruction::Inc => inc(self, env),
            Instruction::Dec => dec(self, env),
            Instruction::PrintAddr => print_addr(self, env),
            Instruction::RemoveObj => remove_obj(self, env),
            Instruction::PrintObj => print_obj(self, env),
            Instruction::Ret => ret(self, env),
            Instruction::Jump => jump(self, env),
            Instruction::PrintPaddr => print_paddr(self, env),
            Instruction::Load => load(self, env),
            Instruction::Rtrue => rtrue(self, env),
            Instruction::Rfalse => rfalse(self, env),
            Instruction::Print => print(self, env),
            Instruction::PrintRet => print_ret(self, env),
            Instruction::Nop => nop(self, env),
            Instruction::Save => save(self, env),
            Instruction::Restore => restore(self, env),
            Instruction::Restart => restart(self, env),
            Instruction::RetPopped => ret_popped(self, env),
            Instruction::Pop => pop(self, env),
            Instruction::Quit => quit(self, env),
            Instruction::NewLine => new_line(self, env),
            Instruction::ShowStatus => show_status(self, env),
            Instruction::Verify => verify(self, env),
            Instruction::Call => call(self, env),
            Instruction::Storew => storew(self, env),
            Instruction::Storeb => storeb(self, env),
            Instruction::PutProp => put_prop(self, env),
            Instruction::Sread => sread(self, env),
            Instruction::PrintChar => print_char(self, env),
            Instruction::PrintNum => print_num(self, env),
            Instruction::Random => random(self, env),
            Instruction::Push => push(self, env),
            Instruction::Pull => pull(self, env),
            Instruction::SplitWindow => split_window(self, env),
            Instruction::SetWindow => set_window(self, env),
            Instruction::OutputStream => output_stream(self, env),
            Instruction::InputStream => input_stream(self, env),
            Instruction::SoundEffect => sound_effect(self, env),
        }
    }
}

/// The sibling chain starting at object `start`: the object, then its
/// sibling's chain.  `fuel` bounds the walk (255 objects exist, so any
/// longer chain is cyclic); the chain ends at id 0 or outside the table.
pub open spec fn sibling_chain(m: ZMachine, start: int, fuel: nat) -> Seq<int>
    decreases fuel,
{
    if fuel == 0 || start == 0 || !obj_fits(m, start) {
        Seq::empty()
    } else {
        seq![start] + sibling_chain(m, obj_sibling(m, start) as int, (fuel - 1) as nat)
    }
}

/// A sibling chain that avoids object `c` is untouched by a fresh insert of
/// `c` under `p`: the insert writes only `c`'s parent and sibling bytes and
/// `p`'s child byte, and no chain member's sibling byte coincides with
/// those.
pub proof fn lemma_chain_unchanged(m0: ZMachine, m1: ZMachine, c: int, p: int, s: int, fuel: nat)
    requires
        m0.wf(),
        m1.header == m0.header,
        obj_fits(m0, c),
        obj_fits(m0, p),
        c != p,
        m1.memory@ == m0.memory@.update(obj_base(m0, c) + 4, (p % 256) as u8).update(
            obj_base(m0, p) + 6,
            (c % 256) as u8,
        ).update(obj_base(m0, c) + 5, obj_child(m0, p)),
        !sibling_chain(m0, s, fuel).contains(c),
    ensures
        sibling_chain(m1, s, fuel) == sibling_chain(m0, s, fuel),
    decreases fuel,
{
    assert(m1.memory@.len() == m0.memory@.len());
    if fuel == 0 || s == 0 || !obj_fits(m0, s) {
        assert(obj_fits(m1, s) == obj_fits(m0, s));
    } else {
        let old_chain = sibling_chain(m0, s, fuel);
        assert(old_chain[0] == s);
        assert(s != c);
        assert(obj_base(m0, s) + 5 != obj_base(m0, c) + 4);
        assert(obj_base(m0, s) + 5 != obj_base(m0, p) + 6);
        assert(obj_base(m0, s) + 5 != obj_base(m0, c) + 5);
        assert(obj_sibling(m1, s) == obj_sibling(m0, s));
        let rest = sibling_chain(m0, obj_sibling(m0, s) as int, (fuel - 1) as nat);
        assert forall|k: int| 0 <= k < rest.len() implies rest[k] != c by {
            if rest[k] == c {
                assert(old_chain[k + 1] == c);
                assert(old_chain.contains(c));
            }
        }
        assert(!rest.contains(c));
        lemma_chain_unchanged(m0, m1, c, p, obj_sibling(m0, s) as int, (fuel - 1) as nat);
        assert(sibling_chain(m1, s, fuel) =~= sibling_chain(m0, s, fuel));
    }
}

/// Object-tree law for a fresh insert: when a parentless object `c` is
/// inserted under `p` (and `c` was not already in `p`'s chain), the new
/// chain from `child(p)` is `c` followed by the old chain, and `c` appears
/// in it exactly once - at its head.
pub proof fn lemma_insert_fresh_chain(m0: ZMachine, m1: ZMachine, c: int, p: int, fuel: nat)
    requires
        m0.wf(),
        m1.header == m0.header,
        obj_fits(m0, c),
        obj_fits(m0, p),
        c != p,
        p != 0,
        m1.memory@ == m0.memory@.update(obj_base(m0, c) + 4, (p % 256) as u8).update(
            obj_base(m0, p) + 6,
            (c % 256) as u8,
        ).update(obj_base(m0, c) + 5, obj_child(m0, p)),
        !sibling_chain(m0, obj_child(m0, p) as int, fuel).contains(c),
    ensures
        obj_child(m1, p) == c,
        obj_parent(m1, c) == p,
        sibling_chain(m1, c, fuel + 1) == seq![c] + sibling_chain(
            m0,
            obj_child(m0, p) as int,
            fuel,
        ),
        forall|k: int|
            1 <= k < sibling_chain(m1, c, fuel + 1).len() ==> #[trigger] sibling_chain(
                m1,
                c,
                fuel + 1,
            )[k] != c,
    decreases fuel,
{
    assert(m1.memory@.len() == m0.memory@.len());
    assert(obj_base(m0, p) + 6 != obj_base(m0, c) + 5);
    assert(obj_child(m1, p) == (c % 256) as u8);
    assert(obj_base(m0, c) + 4 != obj_base(m0, p) + 6);
    assert(obj_base(m0, c) + 4 != obj_base(m0, c) + 5);
    assert(obj_parent(m1, c) == (p % 256) as u8);
    assert(obj_fits(m1, c));
    assert(obj_sibling(m1, c) == obj_child(m0, p));
    lemma_chain_unchanged(m0, m1, c, p, obj_child(m0, p) as int, fuel);
    let old_chain = sibling_chain(m0, obj_child(m0, p) as int, fuel);
    assert(sibling_chain(m1, c, fuel + 1) =~= seq![c] + old_chain);
    assert forall|k: int|
        1 <= k < sibling_chain(m1, c, fuel + 1).len() implies #[trigger] sibling_chain(
        m1,
        c,
        fuel + 1,
    )[k] != c by {
        if sibling_chain(m1, c, fuel + 1)[k] == c {
            assert(old_chain[k - 1] == c);
            assert(old_chain.contains(c));
        }
    }
}

/// Only the program counter and call stack of `m1` differ from `m0`: the
/// image, state, output, random generator and status line are untouched.
pub open spec fn spec_machine_frame_moved(m0: ZMachine, m1: ZMachine) -> bool {
    &&& m1.header == m0.header
    &&& m1.memory@ == m0.memory@
    &&& m1.state == m0.state
    &&& m1.output@ == m0.output@
    &&& m1.random_generator == m0.random_generator
    &&& m1.status_left@ == m0.status_left@
    &&& m1.status_right@ == m0.status_right@
}

/// What a successful handler run does: for instruction `i`, executed with
/// the decoded opcode `c0` on machine `m0`, the opcode became `c1` and the
/// machine `m1`.  Each arm restates the corresponding handler's
/// success-path contract, so dispatch can carry one relation for the whole
/// table.
pub open spec fn spec_handler_effect(
    i: Instruction,
    c0: OpCode,
    m0: ZMachine,
    c1: OpCode,
    m1: ZMachine,
) -> bool {
    match i {
        Instruction::DebugOp => c1 == c0 && m1 == m0,
        Instruction::Nop => c1 == c0 && m1 == m0,
        Instruction::SplitWindow => c1 == c0 && m1 == m0,
        Instruction::SetWindow => c1 == c0 && m1 == m0,
        Instruction::OutputStream => c1 == c0 && m1 == m0,
        Instruction::InputStream => c1 == c0 && m1 == m0,
        Instruction::SoundEffect => c1 == c0 && m1 == m0,
        Instruction::Verify => c1 == (OpCode { branch: true, result: 1u16, ..c0 }) && m1 == m0,
        Instruction::Save => c1 == (OpCode { branch: true, result: 0u16, ..c0 }) && m1 == m0,
        Instruction::Restore => c1 == (OpCode { branch: true, result: 0u16, ..c0 }) && m1 == m0,
        Instruction::Restart => c1 == (OpCode { read_bytes: 0u32, ..c0 }) && m1 == (ZMachine {
            state: MachineState::Restarting,
            ..m0
        }),
        Instruction::Quit => c1 == (OpCode { read_bytes: 0u32, ..c0 }) && m1 == (ZMachine {
            state: MachineState::Stopped,
            ..m0
        }),
        Instruction::And => c1 == (OpCode {
            store: true,
            result: op_val(c0.operands@[0]) & op_val(c0.operands@[1]),
            ..c0
        }) && m1 == m0,
        Instruction::Or => c1 == (OpCode {
            store: true,
            result: op_val(c0.operands@[0]) | op_val(c0.operands@[1]),
            ..c0
        }) && m1 == m0,
        Instruction::Add => c1 == (OpCode {
            store: true,
            result: wrap16(s16(op_val(c0.operands@[0])) + s16(op_val(c0.operands@[1]))),
            ..c0
        }) && m1 == m0,
        Instruction::Sub => c1 == (OpCode {
            store: true,
            result: wrap16(s16(op_val(c0.operands@[0])) - s16(op_val(c0.operands@[1]))),
            ..c0
        }) && m1 == m0,
        Instruction::Mul => c1 == (OpCode {
            store: true,
            result: wrap16(s16(op_val(c0.operands@[0])) * s16(op_val(c0.operands@[1]))),
            ..c0
        }) && m1 == m0,
        Instruction::Div => c1 == (OpCode {
            store: true,
            result: wrap16(trunc_div(s16(op_val(c0.operands@[0])), s16(op_val(c0.operands@[1])))),
            ..c0
        }) && m1 == m0,
        Instruction::Mod => c1 == (OpCode {
            store: true,
            result: wrap16(trunc_rem(s16(op_val(c0.operands@[0])), s16(op_val(c0.operands@[1])))),
            ..c0
        }) && m1 == m0,
        Instruction::Je => c1 == (OpCode {
            branch: true,
            result: if je_match(c0.operands@, 1) {
                1u16
            } else {
                0u16
            },
            ..c0
        }) && m1 == m0,
        Instruction::Jl => c1 == (OpCode {
            branch: true,
            result: if s16(op_val(c0.operands@[0])) < s16(op_val(c0.operands@[1])) {
                1u16
            } else {
                0u16
            },
            ..c0
        }) && m1 == m0,
        Instruction::Jg => c1 == (OpCode {
            branch: true,
            result: if s16(op_val(c0.operands@[0])) > s16(op_val(c0.operands@[1])) {
                1u16
            } else {
                0u16
            },
            ..c0
        }) && m1 == m0,
        Instruction::Jz => c1 == (OpCode {
            branch: true,
            result: if op_val(c0.operands@[0]) == 0 {
                1u16
            } else {
                0u16
            },
            ..c0
        }) && m1 == m0,
        Instruction::Test => c1 == (OpCode {
            branch: true,
            result: if op_val(c0.operands@[0]) & op_val(c0.operands@[1]) == op_val(
                c0.operands@[1],
            ) {
                1u16
            } else {
                0u16
            },
            ..c0
        }) && m1 == m0,
        Instruction::Jin => c1 == (OpCode {
            branch: true,
            result: if obj_parent(m0, op_val(c0.operands@[0]) as int) as int == op_val(
                c0.operands@[1],
            ) as int {
                1u16
            } else {
                0u16
            },
            ..c0
        }) && m1 == m0,
        Instruction::TestAttr => c1 == (OpCode {
            branch: true,
            result: if attr_set(
                m0.memory@,
                obj_base(m0, op_val(c0.operands@[0]) as int),
                op_val(c0.operands@[1]) as int,
            ) {
                1u16
            } else {
                0u16
            },
            ..c0
        }) && m1 == m0,
        Instruction::GetParent => c1 == (OpCode {
            store: true,
            result: obj_parent(m0, op_val(c0.operands@[0]) as int) as u16,
            ..c0
        }) && m1 == m0,
        Instruction::GetSibling => c1 == (OpCode {
            store: true,
            branch: true,
            result: obj_sibling(m0, op_val(c0.operands@[0]) as int) as u16,
            ..c0
        }) && m1 == m0,
        Instruction::GetChild => c1 == (OpCode {
            store: true,
            branch: true,
            result: obj_child(m0, op_val(c0.operands@[0]) as int) as u16,
            ..c0
        }) && m1 == m0,
        Instruction::Loadw => c1 == (OpCode {
            store: true,
            result: word_at(
                m0.memory@,
                op_val(c0.operands@[0]) + 2 * op_val(c0.operands@[1]),
            ) as u16,
            ..c0
        }) && m1 == m0,
        Instruction::Loadb => c1 == (OpCode {
            store: true,
            result: m0.memory@[op_val(c0.operands@[0]) + op_val(c0.operands@[1])] as u16,
            ..c0
        }) && m1 == m0,
        Instruction::Storew => c1 == c0 && m1.memory@ == with_word(
            m0.memory@,
            op_val(c0.operands@[0]) + 2 * op_val(c0.operands@[1]),
            op_val(c0.operands@[2]),
        ) && m1 == (ZMachine { memory: m1.memory, ..m0 }),
        Instruction::Storeb => c1 == c0 && m1.memory@ == m0.memory@.update(
            op_val(c0.operands@[0]) + op_val(c0.operands@[1]),
            (op_val(c0.operands@[2]) % 256) as u8,
        ) && m1 == (ZMachine { memory: m1.memory, ..m0 }),
        Instruction::Store => c1 == c0 && ZMachine::spec_write_in_place(
            m0,
            m1,
            (op_val(c0.operands@[0]) % 256) as u8,
            op_val(c0.operands@[1]),
        ),
        Instruction::Load => c1 == (OpCode {
            store: true,
            result: m0.spec_peek_variable((op_val(c0.operands@[0]) % 256) as u8) as u16,
            ..c0
        }) && m1 == m0,
        Instruction::Push => c1 == c0 && m1.call_stack.stack@ == m0.call_stack.stack@.push(
            op_val(c0.operands@[0]),
        ) && m1 == (ZMachine { call_stack: m1.call_stack, ..m0 })
            && m1.call_stack.top_of_frame == m0.call_stack.top_of_frame,
        Instruction::Pull => c1 == c0 && m0.call_stack.stack@.len() > 0
            && ZMachine::spec_store_variable_parts(
            m0,
            m0.call_stack.stack@.drop_last(),
            m1,
            (op_val(c0.operands@[0]) % 256) as u8,
            m0.call_stack.stack@.last(),
        ),
        Instruction::Pop => c1 == c0 && m1.call_stack.stack@ == m0.call_stack.stack@.drop_last()
            && m1 == (ZMachine { call_stack: m1.call_stack, ..m0 })
            && m1.call_stack.top_of_frame == m0.call_stack.top_of_frame,
        Instruction::Inc => c1 == c0 && ZMachine::spec_write_in_place(
            m0,
            m1,
            (op_val(c0.operands@[0]) % 256) as u8,
            wrap16(m0.spec_peek_variable((op_val(c0.operands@[0]) % 256) as u8) + 1),
        ),
        Instruction::Dec => c1 == c0 && ZMachine::spec_write_in_place(
            m0,
            m1,
            (op_val(c0.operands@[0]) % 256) as u8,
            wrap16(m0.spec_peek_variable((op_val(c0.operands@[0]) % 256) as u8) - 1),
        ),
        Instruction::IncChk => ({
            let addr = (op_val(c0.operands@[0]) % 256) as u8;
            let next = wrap16(m0.spec_peek_variable(addr) + 1);
            &&& ZMachine::spec_write_in_place(m0, m1, addr, next)
            &&& c1 == (OpCode {
                branch: true,
                result: if s16(next) > s16(op_val(c0.operands@[1])) {
                    1u16
                } else {
                    0u16
                },
                ..c0
            })
        }),
        Instruction::DecChk => ({
            let addr = (op_val(c0.operands@[0]) % 256) as u8;
            let next = wrap16(m0.spec_peek_variable(addr) - 1);
            &&& ZMachine::spec_write_in_place(m0, m1, addr, next)
            &&& c1 == (OpCode {
                branch: true,
                result: if s16(next) < s16(op_val(c0.operands@[1])) {
                    1u16
                } else {
                    0u16
                },
                ..c0
            })
        }),
        Instruction::SetAttr => ({
            let base = obj_base(m0, op_val(c0.operands@[0]) as int);
            let a = op_val(c0.operands@[1]) as int;
            &&& c1 == c0
            &&& m1.memory@ == m0.memory@.update(
                base + a / 8,
                (m0.memory@[base + a / 8] | crate::object_view::spec_bit_mask(a % 8)) as u8,
            )
            &&& m1 == (ZMachine { memory: m1.memory, ..m0 })
        }),
        Instruction::ClearAttr => ({
            let base = obj_base(m0, op_val(c0.operands@[0]) as int);
            let a = op_val(c0.operands@[1]) as int;
            &&& c1 == c0
            &&& m1.memory@ == m0.memory@.update(
                base + a / 8,
                (m0.memory@[base + a / 8] & !crate::object_view::spec_bit_mask(a % 8)) as u8,
            )
            &&& m1 == (ZMachine { memory: m1.memory, ..m0 })
        }),
        Instruction::InsertObj => ({
            let child = op_val(c0.operands@[0]) as int;
            let parent = op_val(c0.operands@[1]) as int;
            let unlinked = unlinked_mem(m0, child);
            let reparented = unlinked.update(obj_base(m0, child) + 4, (parent % 256) as u8);
            &&& c1 == c0
            &&& obj_parent(m1, child) == parent
            &&& (parent != 0 ==> obj_child(m1, parent) == child)
            &&& m1.memory@ == (if parent != 0 {
                reparented.update(obj_base(m0, parent) + 6, (child % 256) as u8).update(
                    obj_base(m0, child) + 5,
                    reparented[obj_base(m0, parent) + 6],
                )
            } else {
                reparented
            })
            &&& m1 == (ZMachine { memory: m1.memory, ..m0 })
        }),
        Instruction::RemoveObj => ({
            let obj = op_val(c0.operands@[0]) as int;
            &&& c1 == c0
            &&& m1.memory@ == unlinked_mem(m0, obj).update(obj_base(m0, obj) + 4, 0u8)
            &&& m1 == (ZMachine { memory: m1.memory, ..m0 })
        }),
        Instruction::GetProp => ({
            let object = op_val(c0.operands@[0]) as int;
            let p = op_val(c0.operands@[1]) as int;
            let table = obj_prop_table(m0, object);
            &&& m1 == m0
            &&& c1 == (OpCode {
                store: true,
                result: (match find_prop(m0.memory@, prop_cursor(m0.memory@, table), p, false) {
                    Some((a, id, sz)) => if sz == 1 {
                        m0.memory@[a] as int
                    } else {
                        word_at(m0.memory@, a)
                    },
                    None => word_at(m0.memory@, m0.header.object_table_location + 2 * (p - 1)),
                }) as u16,
                ..c0
            })
        }),
        Instruction::GetPropAddr => ({
            let object = op_val(c0.operands@[0]) as int;
            let p = op_val(c0.operands@[1]) as int;
            let table = obj_prop_table(m0, object);
            &&& m1 == m0
            &&& c1 == (OpCode {
                store: true,
                result: (match find_prop(m0.memory@, prop_cursor(m0.memory@, table), p, p == 0) {
                    Some((a, id, sz)) => a % 0x10000,
                    None => 0int,
                }) as u16,
                ..c0
            })
        }),
        Instruction::GetNextProp => ({
            let object = op_val(c0.operands@[0]) as int;
            let p = op_val(c0.operands@[1]) as int;
            let c0c = prop_cursor(m0.memory@, obj_prop_table(m0, object));
            &&& m1 == m0
            &&& c1 == (OpCode {
                store: true,
                result: (if p == 0 {
                    match find_prop(m0.memory@, c0c, 0, true) {
                        Some((a, id, sz)) => id,
                        None => 0int,
                    }
                } else {
                    match find_prop(m0.memory@, c0c, p, false) {
                        Some((a, id, sz)) => prop_id(m0.memory@[a + sz]),
                        None => 0int,
                    }
                }) as u16,
                ..c0
            })
        }),
        Instruction::GetPropLen => ({
            &&& m1 == m0
            &&& c1 == (OpCode {
                store: true,
                result: prop_size(m0.memory@[op_val(c0.operands@[0]) - 1]) as u16,
                ..c0
            })
        }),
        Instruction::PutProp => ({
            let object = op_val(c0.operands@[0]) as int;
            let p = op_val(c0.operands@[1]) as int;
            let v = op_val(c0.operands@[2]);
            let table = obj_prop_table(m0, object);
            &&& c1 == c0
            &&& (match find_prop(m0.memory@, prop_cursor(m0.memory@, table), p, p == 0) {
                Some((a, id, sz)) => (sz == 1 && m1.memory@ == m0.memory@.update(
                    a,
                    (v % 256) as u8,
                )) || (sz == 2 && m1.memory@ == with_word(m0.memory@, a, v)),
                None => false,
            })
            &&& m1 == (ZMachine { memory: m1.memory, ..m0 })
        }),
        Instruction::Call => ({
            let packed = op_val(c0.operands@[0]);
            if packed == 0 {
                c1 == (OpCode { store: true, result: 0u16, ..c0 }) && m1 == m0
            } else {
                let args = Seq::new(
                    (c0.operand_count - 1) as nat,
                    |i: int| op_val(c0.operands@[i + 1]),
                );
                let (s1, t1, ip1) = spec_call_parts(
                    m0.call_stack.stack@,
                    m0.call_stack.top_of_frame as int,
                    m0.ip,
                    c0.read_bytes,
                    m0.memory@,
                    packed,
                    args,
                );
                &&& m1.call_stack.stack@ == s1
                &&& m1.call_stack.top_of_frame as int == t1
                &&& m1.ip as int == ip1
                &&& spec_machine_frame_moved(m0, m1)
                &&& c1 == (OpCode { read_bytes: 0u32, ..c0 })
            }
        }),
        Instruction::Ret => ({
            let stack = m0.call_stack.stack@;
            let tof = m0.call_stack.top_of_frame as int;
            &&& 3 <= tof < stack.len()
            &&& m1.call_stack.stack@ == stack.take(tof - 3)
            &&& m1.call_stack.top_of_frame as int == stack[tof] as int
            &&& m1.ip as int == stack[tof - 2] * 0x10000 + stack[tof - 3]
            &&& spec_machine_frame_moved(m0, m1)
            &&& c1 == (OpCode {
                read_bytes: stack[tof - 1] as u32,
                store: true,
                result: op_val(c0.operands@[0]),
                ..c0
            })
        }),
        Instruction::Rtrue => ({
            let stack = m0.call_stack.stack@;
            let tof = m0.call_stack.top_of_frame as int;
            &&& 3 <= tof < stack.len()
            &&& m1.call_stack.stack@ == stack.take(tof - 3)
            &&& m1.call_stack.top_of_frame as int == stack[tof] as int
            &&& m1.ip as int == stack[tof - 2] * 0x10000 + stack[tof - 3]
            &&& spec_machine_frame_moved(m0, m1)
            &&& c1 == (OpCode {
                read_bytes: stack[tof - 1] as u32,
                store: true,
                result: 1u16,
                operands: c1.operands,
                ..c0
            })
        }),
        Instruction::Rfalse => ({
            let stack = m0.call_stack.stack@;
            let tof = m0.call_stack.top_of_frame as int;
            &&& 3 <= tof < stack.len()
            &&& m1.call_stack.stack@ == stack.take(tof - 3)
            &&& m1.call_stack.top_of_frame as int == stack[tof] as int
            &&& m1.ip as int == stack[tof - 2] * 0x10000 + stack[tof - 3]
            &&& spec_machine_frame_moved(m0, m1)
            &&& c1 == (OpCode {
                read_bytes: stack[tof - 1] as u32,
                store: true,
                result: 0u16,
                operands: c1.operands,
                ..c0
            })
        }),
        Instruction::RetPopped => ({
            let stack0 = m0.call_stack.stack@;
            let stack = stack0.drop_last();
            let tof = m0.call_stack.top_of_frame as int;
            &&& stack0.len() > 0
            &&& 3 <= tof < stack.len()
            &&& m1.call_stack.stack@ == stack.take(tof - 3)
            &&& m1.call_stack.top_of_frame as int == stack[tof] as int
            &&& m1.ip as int == stack[tof - 2] * 0x10000 + stack[tof - 3]
            &&& spec_machine_frame_moved(m0, m1)
            &&& c1 == (OpCode {
                read_bytes: stack[tof - 1] as u32,
                store: true,
                result: stack0.last(),
                operands: c1.operands,
                ..c0
            })
        }),
        Instruction::Jump => ({
            &&& m1.ip as int == m0.ip + s16(op_val(c0.operands@[0])) + c0.read_bytes - 2
            &&& m1 == (ZMachine { ip: m1.ip, ..m0 })
            &&& c1 == (OpCode { read_bytes: 0u32, ..c0 })
        }),
        Instruction::Print => ({
            let a = m0.ip + c0.read_bytes;
            &&& m1.output@ == m0.output@ + spec_ztext(m0, a)
            &&& m1 == (ZMachine { output: m1.output, ..m0 })
            &&& c1 == (OpCode {
                read_bytes: (c0.read_bytes + 2 * zstring_words(m0.memory@, a).len()) as u32,
                ..c0
            })
        }),
        Instruction::PrintRet => ({
            let a = m0.ip + c0.read_bytes;
            let stack = m0.call_stack.stack@;
            let tof = m0.call_stack.top_of_frame as int;
            &&& m1.output@ == m0.output@ + spec_ztext(m0, a) + seq!['\n']
            &&& 3 <= tof < stack.len()
            &&& m1.call_stack.stack@ == stack.take(tof - 3)
            &&& m1.call_stack.top_of_frame as int == stack[tof] as int
            &&& m1.ip as int == stack[tof - 2] * 0x10000 + stack[tof - 3]
            &&& c1.store
            &&& c1.result == 1
        }),
        Instruction::PrintAddr => ({
            &&& m1.output@ == m0.output@ + spec_ztext(m0, op_val(c0.operands@[0]) as int)
            &&& m1 == (ZMachine { output: m1.output, ..m0 })
            &&& c1 == c0
        }),
        Instruction::PrintPaddr => ({
            &&& m1.output@ == m0.output@ + spec_ztext(m0, 2 * op_val(c0.operands@[0]) as int)
            &&& m1 == (ZMachine { output: m1.output, ..m0 })
            &&& c1 == c0
        }),
        Instruction::PrintObj => ({
            let table = obj_prop_table(m0, op_val(c0.operands@[0]) as int);
            &&& m1.output@ == m0.output@ + spec_ztext(m0, table + 1)
            &&& m1 == (ZMachine { output: m1.output, ..m0 })
            &&& c1 == c0
        }),
        Instruction::PrintChar => ({
            &&& m1.output@ == m0.output@ + (match spec_decode_zscii(op_val(c0.operands@[0])) {
                Some(c) => seq![c],
                None => Seq::empty(),
            })
            &&& m1 == (ZMachine { output: m1.output, ..m0 })
            &&& c1 == c0
        }),
        Instruction::PrintNum => ({
            &&& m1.output@ == m0.output@ + crate::text::dec_signed(s16(op_val(c0.operands@[0])))
            &&& m1 == (ZMachine { output: m1.output, ..m0 })
            &&& c1 == c0
        }),
        Instruction::NewLine => ({
            &&& m1.output@ == m0.output@.push('\n')
            &&& m1 == (ZMachine { output: m1.output, ..m0 })
            &&& c1 == c0
        }),
        Instruction::ShowStatus => ({
            let g0 = word_at(m0.memory@, m0.glob()) as int;
            let g1 = word_at(m0.memory@, m0.glob() + 2) as u16;
            let g2 = word_at(m0.memory@, m0.glob() + 4) as u16;
            let table = obj_prop_table(m0, g0);
            &&& m1.status_left@ == spec_ztext(m0, table + 1)
            &&& m1.status_right@ == spec_status_right(status_is_hours(m0.header), g1, g2)
            &&& m1 == (ZMachine {
                status_left: m1.status_left,
                status_right: m1.status_right,
                ..m0
            })
            &&& c1 == c0
        }),
        Instruction::Sread => ({
            let g0 = word_at(m0.memory@, m0.glob()) as int;
            let g1 = word_at(m0.memory@, m0.glob() + 2) as u16;
            let g2 = word_at(m0.memory@, m0.glob() + 4) as u16;
            let table = obj_prop_table(m0, g0);
            &&& m1.state == (MachineState::TakingInput {
                text_buffer: op_val(c0.operands@[0]),
                parse_buffer: op_val(c0.operands@[1]),
            })
            &&& m1.memory@ == m0.memory@
            &&& m1.call_stack.stack@ == m0.call_stack.stack@
            &&& m1.output@ == m0.output@
            &&& m1.status_left@ == spec_ztext(m0, table + 1)
            &&& m1.status_right@ == spec_status_right(status_is_hours(m0.header), g1, g2)
            &&& c1.input
        }),
        Instruction::Random => ({
            let v = op_val(c0.operands@[0]);
            &&& m1 == (ZMachine { random_generator: m1.random_generator, ..m0 })
            &&& (s16(v) > 0 ==> (c1 == (OpCode { store: true, result: c1.result, ..c0 }) && 1
                <= c1.result <= v))
            &&& (s16(v) < 0 ==> (c1 == (OpCode { store: true, result: 0u16, ..c0 })
                && m1.random_generator.random_seed == iabs(s16(v))
                && m1.random_generator.randoms_predictable == (iabs(s16(v)) < 1000)))
            &&& (s16(v) == 0 ==> (c1 == (OpCode { store: true, result: 0u16, ..c0 })
                && !m1.random_generator.randoms_predictable
                && m1.random_generator.random_seed == 0))
        }),
    }
}

} // verus!
