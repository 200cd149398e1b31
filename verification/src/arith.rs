//! The 16-bit signed arithmetic behind constant folding.
//!
//! Integer literals and integer operators work at `i16`; the emitter folds a
//! binary operation or a comparison of two `i16` constants instead of
//! emitting an instruction, exactly as the IR builder it models does.
//! Division and remainder are never folded (a constant division by zero has
//! no defined folded value) and always become instructions.

use vstd::prelude::*;

use crate::ast::Comparison;
use crate::ir::BasicType;
use crate::ir::FloatPredicate;
use crate::ir::IntBinOp;
use crate::ir::IntPredicate;
use crate::value::ValueType;

verus! {

/// The signed value of a 16-bit two's-complement pattern.
pub open spec fn i16_of_bits(bits: u64) -> int {
    let m = (bits & 0xffff) as int;
    if m >= 0x8000 {
        m - 0x10000
    } else {
        m
    }
}

/// The canonical 16-bit two's-complement pattern of an integer (reduced
/// modulo 2^16).
pub open spec fn bits_of_i16(v: int) -> u64 {
    (v % 0x10000) as u64
}

/// The folded signed result of an integer binary operation, where folding is
/// defined.
pub open spec fn spec_fold_int16(op: IntBinOp, a: u64, b: u64) -> Option<u64> {
    match op {
        IntBinOp::Add => Some(bits_of_i16(i16_of_bits(a) + i16_of_bits(b))),
        IntBinOp::Sub => Some(bits_of_i16(i16_of_bits(a) - i16_of_bits(b))),
        IntBinOp::Mul => Some(bits_of_i16(i16_of_bits(a) * i16_of_bits(b))),
        IntBinOp::SDiv => None,
        IntBinOp::SRem => None,
    }
}

/// What a signed comparison predicate means on integers.
pub open spec fn spec_icmp(pred: IntPredicate, x: int, y: int) -> bool {
    match pred {
        IntPredicate::EQ => x == y,
        IntPredicate::NE => x != y,
        IntPredicate::SLT => x < y,
        IntPredicate::SLE => x <= y,
        IntPredicate::SGT => x > y,
        IntPredicate::SGE => x >= y,
    }
}

/// Fold a 16-bit integer binary operation on two canonical constants;
/// addition, subtraction and multiplication wrap modulo 2^16.
pub fn fold_int16(op: IntBinOp, a: u64, b: u64) -> (r: Option<u64>)
    requires
        a <= 0xffff,
        b <= 0xffff,
    ensures
        r == spec_fold_int16(op, a, b),
        (r matches Some(bits) ==> bits <= 0xffff && bits & 0xffffu64 == bits),
    {
    proof {
        assert(a & 0xffff == a) by (bit_vector)
            requires
                a <= 0xffff,
        ;
        assert(b & 0xffff == b) by (bit_vector)
            requires
                b <= 0xffff,
        ;
    }
    let ghost x = i16_of_bits(a);
    let ghost y = i16_of_bits(b);
    match op {
        IntBinOp::Add => {
            let s = (a + b) % 0x10000;
            proof {
                if a >= 0x8000 && b >= 0x8000 {
                    vstd::arithmetic::div_mod::lemma_mod_multiples_vanish(2, x + y, 0x10000);
                } else if a >= 0x8000 || b >= 0x8000 {
                    vstd::arithmetic::div_mod::lemma_mod_multiples_vanish(1, x + y, 0x10000);
                }
                assert(s <= 0xffff);
                assert(s & 0xffff == s) by (bit_vector)
                    requires
                        s <= 0xffff,
                ;
            }
            Some(s)
        },
        IntBinOp::Sub => {
            let s = ((a + 0x10000) - b) % 0x10000;
            proof {
                if a >= 0x8000 && b < 0x8000 {
                    vstd::arithmetic::div_mod::lemma_mod_multiples_vanish(2, x - y, 0x10000);
                } else if a >= 0x8000 || b < 0x8000 {
                    vstd::arithmetic::div_mod::lemma_mod_multiples_vanish(1, x - y, 0x10000);
                }
                assert(s <= 0xffff);
                assert(s & 0xffff == s) by (bit_vector)
                    requires
                        s <= 0xffff,
                ;
            }
            Some(s)
        },
        IntBinOp::Mul => {
            proof {
                assert(a * b <= 0xffff * 0xffff) by (nonlinear_arith)
                    requires
                        a <= 0xffff,
                        b <= 0xffff,
                ;
            }
            let s = (a * b) % 0x10000;
            proof {
                let m = 0x10000int;
                vstd::arithmetic::div_mod::lemma_small_mod(a as nat, 0x10000nat);
                vstd::arithmetic::div_mod::lemma_small_mod(b as nat, 0x10000nat);
                if a >= 0x8000 {
                    vstd::arithmetic::div_mod::lemma_mod_multiples_vanish(1, x, m);
                }
                if b >= 0x8000 {
                    vstd::arithmetic::div_mod::lemma_mod_multiples_vanish(1, y, m);
                }
                assert(x % m == (a as int) % m);
                assert(y % m == (b as int) % m);
                vstd::arithmetic::div_mod::lemma_mul_mod_noop_general(x, y, m);
                vstd::arithmetic::div_mod::lemma_mul_mod_noop_general(a as int, b as int, m);
                assert((x * y) % m == ((a as int) * (b as int)) % m);
                let s2 = ((a * b) % 0x10000) as u64;
                assert(s2 <= 0xffff);
                assert(s2 & 0xffff == s2) by (bit_vector)
                    requires
                        s2 <= 0xffff,
                ;
            }
            Some(s)
        },
        IntBinOp::SDiv => None,
        IntBinOp::SRem => None,
    }
}

/// Fold a signed 16-bit comparison of two canonical constants.
pub fn fold_icmp16(pred: IntPredicate, a: u64, b: u64) -> (r: bool)
    requires
        a <= 0xffff,
        b <= 0xffff,
    ensures
        r == spec_icmp(pred, i16_of_bits(a), i16_of_bits(b)),
{
    proof {
        assert(a & 0xffff == a) by (bit_vector)
            requires
                a <= 0xffff,
        ;
        assert(b & 0xffff == b) by (bit_vector)
            requires
                b <= 0xffff,
        ;
    }
    // Shifting both patterns by 2^15 turns signed order into unsigned order.
    let xs = if a >= 0x8000 {
        a - 0x8000
    } else {
        a + 0x8000
    };
    let ys = if b >= 0x8000 {
        b - 0x8000
    } else {
        b + 0x8000
    };
    proof {
        assert(xs == i16_of_bits(a) + 0x8000);
        assert(ys == i16_of_bits(b) + 0x8000);
    }
    match pred {
        IntPredicate::EQ => xs == ys,
        IntPredicate::NE => xs != ys,
        IntPredicate::SLT => xs < ys,
        IntPredicate::SLE => xs <= ys,
        IntPredicate::SGT => xs > ys,
        IntPredicate::SGE => xs >= ys,
    }
}

/// The signed integer predicate a source comparison maps to.
pub open spec fn spec_int_pred(cmp: Comparison) -> Option<IntPredicate> {
    match cmp {
        Comparison::Equal => Some(IntPredicate::EQ),
        Comparison::NotEqual => Some(IntPredicate::NE),
        Comparison::Less => Some(IntPredicate::SLT),
        Comparison::LessOrEqual => Some(IntPredicate::SLE),
        Comparison::Greater => Some(IntPredicate::SGT),
        Comparison::GreaterOrEqual => Some(IntPredicate::SGE),
        Comparison::Unsupported => None,
    }
}

/// The ordered float predicate a source comparison maps to; every mapped
/// predicate is ordered, so NaN never compares equal (or unequal, or
/// anything else).
pub open spec fn spec_float_pred(cmp: Comparison) -> Option<FloatPredicate> {
    match cmp {
        Comparison::Equal => Some(FloatPredicate::OEQ),
        Comparison::NotEqual => Some(FloatPredicate::ONE),
        Comparison::Less => Some(FloatPredicate::OLT),
        Comparison::LessOrEqual => Some(FloatPredicate::OLE),
        Comparison::Greater => Some(FloatPredicate::OGT),
        Comparison::GreaterOrEqual => Some(FloatPredicate::OGE),
        Comparison::Unsupported => None,
    }
}

pub fn int_pred_of(cmp: Comparison) -> (r: Option<IntPredicate>)
    ensures
        r == spec_int_pred(cmp),
{
    match cmp {
        Comparison::Equal => Some(IntPredicate::EQ),
        Comparison::NotEqual => Some(IntPredicate::NE),
        Comparison::Less => Some(IntPredicate::SLT),
        Comparison::LessOrEqual => Some(IntPredicate::SLE),
        Comparison::Greater => Some(IntPredicate::SGT),
        Comparison::GreaterOrEqual => Some(IntPredicate::SGE),
        Comparison::Unsupported => None,
    }
}

pub fn float_pred_of(cmp: Comparison) -> (r: Option<FloatPredicate>)
    ensures
        r == spec_float_pred(cmp),
{
    match cmp {
        Comparison::Equal => Some(FloatPredicate::OEQ),
        Comparison::NotEqual => Some(FloatPredicate::ONE),
        Comparison::Less => Some(FloatPredicate::OLT),
        Comparison::LessOrEqual => Some(FloatPredicate::OLE),
        Comparison::Greater => Some(FloatPredicate::OGT),
        Comparison::GreaterOrEqual => Some(FloatPredicate::OGE),
        Comparison::Unsupported => None,
    }
}

/// The name of a surface type, for error messages.
pub open spec fn spec_value_type_name(vt: ValueType) -> Seq<char> {
    match vt {
        ValueType::Void => "void"@,
        ValueType::Bool => "bool"@,
        ValueType::I8 => "i8"@,
        ValueType::I16 => "i16"@,
        ValueType::I32 => "i32"@,
        ValueType::F32 => "float"@,
        ValueType::Str => "str"@,
    }
}

pub fn value_type_name(vt: ValueType) -> (r: &'static str)
    ensures
        r@ == spec_value_type_name(vt),
{
    match vt {
        ValueType::Void => "void",
        ValueType::Bool => "bool",
        ValueType::I8 => "i8",
        ValueType::I16 => "i16",
        ValueType::I32 => "i32",
        ValueType::F32 => "float",
        ValueType::Str => "str",
    }
}

/// The name of an IR type, for error messages.
pub open spec fn spec_basic_type_name(t: BasicType) -> Seq<char> {
    match t {
        BasicType::I1 => "i1"@,
        BasicType::I8 => "i8"@,
        BasicType::I16 => "i16"@,
        BasicType::I32 => "i32"@,
        BasicType::F32 => "float"@,
        BasicType::PtrI8 => "i8*"@,
    }
}

pub fn basic_type_name(t: BasicType) -> (r: &'static str)
    ensures
        r@ == spec_basic_type_name(t),
{
    match t {
        BasicType::I1 => "i1",
        BasicType::I8 => "i8",
        BasicType::I16 => "i16",
        BasicType::I32 => "i32",
        BasicType::F32 => "float",
        BasicType::PtrI8 => "i8*",
    }
}

} // verus!
