//! Expression emission: operators, comparisons and truthiness.

use vstd::prelude::*;

use crate::ast::Comparison;
use crate::ast::Expression;
use crate::ast::ExpressionType;
use crate::ast::Number;
use crate::ast::UnaryOperator;
use crate::convert::spec_constant_string;
use crate::convert::spec_truncate_bigint;
use crate::convert::truncate_bigint_to_u64;
use crate::convert::try_get_constant_string;
use crate::ir::Function;
use crate::ir::GlobalKind;
use crate::mangler::mangling;
use crate::mangler::spec_mangling;
use crate::scope::lemma_lookup_found;
use crate::scope::LLVMVariable;
use crate::scope::SymbolScope;
use crate::arith::fold_icmp16;
use crate::arith::fold_int16;
use crate::arith::float_pred_of;
use crate::arith::i16_of_bits;
use crate::arith::int_pred_of;
use crate::arith::spec_float_pred;
use crate::arith::spec_fold_int16;
use crate::arith::spec_int_pred;
use crate::arith::value_type_name;
use crate::ast::Operator;
use crate::codegen::expr_frame;
use crate::codegen::lemma_emit_frame_trans;
use crate::codegen::CodeGen;
use crate::codegen::Cursor;
use crate::errors::LLVMCompileError;
use crate::errors::LLVMCompileErrorType;
use crate::ir::BasicType;
use crate::ir::FloatBinOp;
use crate::ir::FloatPredicate;
use crate::ir::Instr;
use crate::ir::IntBinOp;
use crate::ir::IntPredicate;
use crate::ir::ValueRef;
use crate::value::Value;
use crate::value::ValueType;
use crate::value::ValueTypeGroup;

verus! {

/// Expression frames compose.
pub proof fn lemma_expr_frame_trans(a: CodeGen, b: CodeGen, c: CodeGen)
    requires
        expr_frame(a, b),
        expr_frame(b, c),
        (a.cursor matches Some(ca) ==> a.module.valid_pos(ca.fid, ca.bid)),
        (b.cursor matches Some(cb) ==> b.module.valid_pos(cb.fid, cb.bid)),
    ensures
        expr_frame(a, c),
{
    lemma_emit_frame_trans(a, b, c);
}

/// The instruction most recently appended at the cursor, if any.
pub open spec fn last_instr(cg: CodeGen) -> Option<Instr> {
    match cg.cursor {
        Some(c) => {
            if cg.module.valid_pos(c.fid, c.bid) && cg.module.functions[c.fid as int].blocks[c.bid as int].instrs.len() > 0 {
                Some(cg.module.functions[c.fid as int].blocks[c.bid as int].instrs@.last())
            } else {
                None
            }
        },
        None => None,
    }
}

/// The value is of the signed integer family.
pub open spec fn is_int_value(v: Value) -> bool {
    v.spec_get_type().spec_group() == ValueTypeGroup::Int
}

/// The value is a float.
pub open spec fn is_float_value(v: Value) -> bool {
    v.spec_get_type() == ValueType::F32
}

/// The operator applies to this operand pair: any operator but `//` when a
/// float is involved, and every operator of the subset on two integers.
pub open spec fn op_supported(a: Value, op: Operator, b: Value) -> bool {
    if is_int_value(a) && is_int_value(b) {
        op == Operator::Div || spec_int_op(op) is Some
    } else if (is_int_value(a) || is_float_value(a)) && (is_int_value(b) || is_float_value(b)) {
        spec_float_op(op) is Some
    } else {
        false
    }
}

/// The IR operation a source binary operator maps to at integer type, where
/// it maps to one (`/` instead divides as float).
pub open spec fn spec_int_op(op: Operator) -> Option<IntBinOp> {
    match op {
        Operator::Add => Some(IntBinOp::Add),
        Operator::Sub => Some(IntBinOp::Sub),
        Operator::Mult => Some(IntBinOp::Mul),
        Operator::FloorDiv => Some(IntBinOp::SDiv),
        Operator::Mod => Some(IntBinOp::SRem),
        _ => None,
    }
}

/// The IR operation a source binary operator maps to at float type, where it
/// maps to one (`//` of floats is rejected).
pub open spec fn spec_float_op(op: Operator) -> Option<FloatBinOp> {
    match op {
        Operator::Add => Some(FloatBinOp::FAdd),
        Operator::Sub => Some(FloatBinOp::FSub),
        Operator::Mult => Some(FloatBinOp::FMul),
        Operator::Div => Some(FloatBinOp::FDiv),
        Operator::Mod => Some(FloatBinOp::FRem),
        _ => None,
    }
}

impl CodeGen {
    /// Coerce a value to a branch condition, as `if` and `while` use it: a
    /// boolean is itself; an integer is true exactly when it is not 0; a
    /// float is true exactly when it is not 0.0, by an ordered comparison.
    /// Anything else is outside the subset.
    pub fn truth_value(&mut self, c: Cursor, v: Value) -> (r: Result<ValueRef, LLVMCompileError>)
        requires
            old(self).inv(),
            old(self).cursor == Some(c),
            old(self).module.open_at(c.fid, c.bid),
            v.wf(),
        ensures
            final(self).inv(),
            match r {
                Ok(cond) => {
                    &&& expr_frame(*old(self), *final(self))
                    &&& final(self).cursor_open()
                    &&& cond.ty() == BasicType::I1
                    &&& cond.canonical()
                    &&& match v {
                        Value::Bool { value } => cond == value && *final(self) == *old(self),
                        Value::I16 { value: ValueRef::ConstInt { bits, .. } } => *final(self)
                            == *old(self) && cond == (ValueRef::ConstInt {
                            ty: BasicType::I1,
                            bits: if i16_of_bits(bits) != 0 {
                                1u64
                            } else {
                                0u64
                            },
                        }),
                        Value::I8 { value } | Value::I16 { value } | Value::I32 { value } => (
                        last_instr(*final(self)) matches Some(i) && i == (Instr::ICmp {
                            dst: i->ICmp_dst,
                            pred: IntPredicate::NE,
                            a: value,
                            b: ValueRef::ConstInt {
                                ty: v.spec_get_type().spec_basic_type(),
                                bits: 0,
                            },
                        }) && cond == (ValueRef::Reg { id: i->ICmp_dst, ty: BasicType::I1 })),
                        Value::F32 { value } => (last_instr(*final(self)) matches Some(i) && i
                            == (Instr::FCmp {
                            dst: i->FCmp_dst,
                            pred: FloatPredicate::ONE,
                            a: value,
                            b: ValueRef::ConstFloat { bits: 0 },
                        }) && cond == (ValueRef::Reg { id: i->FCmp_dst, ty: BasicType::I1 })),
                        _ => false,
                    }
                },
                Err(e) => {
                    &&& e.location is Some
                    &&& ((v.spec_get_type() == ValueType::Void || v.spec_get_type()
                        == ValueType::Str) ==> e.error matches
                        LLVMCompileErrorType::NotImplemented(_))
                    // booleans never fail, and numeric inputs fail only when
                    // the function is out of register capacity
                    &&& (v.spec_get_type() == ValueType::Bool ==> false)
                    &&& ((is_int_value(v) || is_float_value(v)) ==> old(
                        self,
                    ).module.functions[c.fid as int].next_reg == usize::MAX)
                },
            },
    {
        match v {
            Value::Bool { value } => Ok(value),
            Value::I16 { value: ValueRef::ConstInt { ty, bits } } => {
                proof {
                    assert(bits <= 0xffff) by (bit_vector)
                        requires
                            bits & 0xffffu64 == bits,
                    ;
                }
                let truth = fold_icmp16(IntPredicate::NE, bits, 0);
                proof {
                    assert(0u64 & 0xffffu64 == 0u64) by (bit_vector);
                    assert(1u64 & 0x1u64 == 1u64) by (bit_vector);
                    assert(0u64 & 0x1u64 == 0u64) by (bit_vector);
                }
                Ok(
                    ValueRef::ConstInt {
                        ty: BasicType::I1,
                        bits: if truth {
                            1
                        } else {
                            0
                        },
                    },
                )
            },
            Value::I8 { value } | Value::I16 { value } | Value::I32 { value } => {
                let ty = v.get_type().to_basic_type();
                let zero = ValueRef::ConstInt { ty, bits: 0 };
                let cond = self.w_icmp(c, IntPredicate::NE, value, zero)?;
                Ok(cond)
            },
            Value::F32 { value } => {
                let zero = ValueRef::ConstFloat { bits: 0 };
                let cond = self.w_fcmp(c, FloatPredicate::ONE, value, zero)?;
                Ok(cond)
            },
            _ => Err(
                self.err_here(
                    LLVMCompileErrorType::NotImplemented(
                        "Unsupported condition value".to_owned(),
                    ),
                ),
            ),
        }
    }

    /// Emit a binary operation on two already-compiled values.
    ///
    /// Both integer: `+ - * // %` work at the widest operand type, after
    /// widening the narrower operand, and `//` is signed division; `/`
    /// always promotes both operands to float and divides as float, so its
    /// result is `F32`.  Both float: `+ - * / %` work at float and `//` is
    /// rejected.  Mixed integer and float: the integer operand is promoted
    /// to float.  Any other pairing is a type error.
    pub fn compile_op(&mut self, a: Value, op: Operator, b: Value) -> (r: Result<
        Value,
        LLVMCompileError,
    >)
        requires
            old(self).inv(),
            a.wf(),
            b.wf(),
            (old(self).cursor matches Some(c) ==> old(self).module.open_at(c.fid, c.bid)),
        ensures
            final(self).inv(),
            // a pairing outside the int/float families, an operator outside
            // the subset, and floor division involving a float all forbid
            // success
            (!(is_int_value(a) || is_float_value(a)) || !(is_int_value(b) || is_float_value(b))
                ==> r is Err),
            (op == Operator::Unsupported ==> r is Err),
            ((is_float_value(a) || is_float_value(b)) && op == Operator::FloorDiv ==> r is Err),
            match r {
                Ok(v) => {
                    &&& expr_frame(*old(self), *final(self))
                    &&& v.wf()
                    &&& (is_int_value(a) && is_int_value(b) ==> match op {
                        // `/` of integers always yields a float: the result
                        // is the register the float division just defined
                        Operator::Div => v.spec_get_type() == ValueType::F32 && (last_instr(
                            *final(self),
                        ) matches Some(i) && i matches Instr::FloatBin {
                            op: FloatBinOp::FDiv,
                            ..
                        } && v.spec_handle() == Some(
                            ValueRef::Reg { id: i->FloatBin_dst, ty: BasicType::F32 },
                        )),
                        // `//` of integers is signed division at the widest
                        // type, and the result is its register
                        Operator::FloorDiv => v.spec_get_type()
                            == ValueType::spec_merge_group(
                            a.spec_get_type(),
                            b.spec_get_type(),
                        )->Some_0 && (last_instr(*final(self)) matches Some(i) && i matches
                            Instr::IntBin { op: IntBinOp::SDiv, .. } && v.spec_handle() == Some(
                            ValueRef::Reg {
                                id: i->IntBin_dst,
                                ty: v.spec_get_type().spec_basic_type(),
                            },
                        )),
                        _ => v.spec_get_type() == ValueType::spec_merge_group(
                            a.spec_get_type(),
                            b.spec_get_type(),
                        )->Some_0 && match (a, b) {
                            (
                                Value::I16 { value: ValueRef::ConstInt { .. } },
                                Value::I16 { value: ValueRef::ConstInt { .. } },
                            ) => true,
                            // when nothing folds, the result is the register
                            // of the operation just emitted
                            _ => match spec_int_op(op) {
                                Some(iop) => (last_instr(*final(self)) matches Some(i) && i
                                    matches Instr::IntBin { op: iop2, .. } && iop2 == iop
                                    && v.spec_handle() == Some(
                                    ValueRef::Reg {
                                        id: i->IntBin_dst,
                                        ty: v.spec_get_type().spec_basic_type(),
                                    },
                                )),
                                None => true,
                            },
                        },
                    })
                    &&& ((is_int_value(a) && is_float_value(b)) || (is_float_value(a)
                        && is_int_value(b)) || (is_float_value(a) && is_float_value(b))
                        ==> v.spec_get_type() == ValueType::F32 && match spec_float_op(op) {
                            Some(fop) => (last_instr(*final(self)) matches Some(i) && i matches
                                Instr::FloatBin { op: fop2, .. } && fop2 == fop && v.spec_handle()
                                == Some(
                                ValueRef::Reg { id: i->FloatBin_dst, ty: BasicType::F32 },
                            )),
                            None => true,
                        })
                    // a fold happens exactly for two i16 constants under + - *
                    &&& (match (a, b) {
                        (
                            Value::I16 { value: ValueRef::ConstInt { bits: ba, .. } },
                            Value::I16 { value: ValueRef::ConstInt { bits: bb, .. } },
                        ) => match spec_int_op(op) {
                            Some(iop) => match spec_fold_int16(iop, ba, bb) {
                                Some(folded) => *final(self) == *old(self) && v == (Value::I16 {
                                    value: ValueRef::ConstInt { ty: BasicType::I16, bits: folded },
                                }),
                                None => true,
                            },
                            None => true,
                        },
                        _ => true,
                    })
                },
                Err(e) => {
                    &&& e.location is Some
                    // a pairing outside the int/float families is a type error
                    &&& (!(is_int_value(a) || is_float_value(a)) || !(is_int_value(b)
                        || is_float_value(b)) ==> e.error matches LLVMCompileErrorType::TypeError(
                        _,
                        _,
                    ))
                    &&& (op == Operator::Unsupported && (is_int_value(a) || is_float_value(a)) && (
                    is_int_value(b) || is_float_value(b)) ==> e.error matches
                        LLVMCompileErrorType::NotImplemented(_))
                    // floor division involving a float is outside the subset
                    &&& (op == Operator::FloorDiv && (is_float_value(a) || is_float_value(b)) && (
                    is_int_value(a) || is_float_value(a)) && (is_int_value(b) || is_float_value(b))
                        ==> e.error matches LLVMCompileErrorType::NotImplemented(_))
                    // on a supported pairing, failure happens only when the
                    // function is out of register capacity
                    &&& (op_supported(a, op, b) ==> (old(self).cursor matches Some(cc) && old(
                        self,
                    ).module.functions[cc.fid as int].next_reg + 8 >= usize::MAX))
                },
            },
    {
        let ta = a.get_type();
        let tb = b.get_type();
        let ga = ta.get_group();
        let gb = tb.get_group();
        let int_a = ga == ValueTypeGroup::Int;
        let int_b = gb == ValueTypeGroup::Int;
        let float_a = ta == ValueType::F32;
        let float_b = tb == ValueType::F32;
        if !(int_a || float_a) || !(int_b || float_b) {
            return Err(
                self.err_here(
                    LLVMCompileErrorType::TypeError(
                        value_type_name(ta).to_owned(),
                        value_type_name(tb).to_owned(),
                    ),
                ),
            );
        }
        if op == Operator::Unsupported {
            return Err(
                self.err_here(
                    LLVMCompileErrorType::NotImplemented(
                        "Unsupported binary operator".to_owned(),
                    ),
                ),
            );
        }
        if int_a && int_b {
            // Both integer.
            let w = match ValueType::merge_group(&ta, &tb) {
                Some(w) => w,
                None => {
                    return Err(
                        self.err_here(
                            LLVMCompileErrorType::TypeError(
                                value_type_name(ta).to_owned(),
                                value_type_name(tb).to_owned(),
                            ),
                        ),
                    );
                },
            };
            let ha = a.to_basic_value();
            let hb = b.to_basic_value();
            if op == Operator::Div {
                // In the surface language, `/` always returns a float.
                let c = self.ensure_positioned();
                if self.module.functions[c.fid].next_reg >= usize::MAX - 8 {
                    return Err(
                        self.err_here(
                            LLVMCompileErrorType::NotImplemented(
                                "function too large".to_owned(),
                            ),
                        ),
                    );
                }
                let ghost s0 = *self;
                let fa = self.w_si_to_fp(c, ha)?;
                let ghost s1 = *self;
                let fb = self.w_si_to_fp(c, hb)?;
                let ghost s2 = *self;
                let d = self.w_float_bin(c, FloatBinOp::FDiv, fa, fb)?;
                proof {
                    lemma_expr_frame_trans(*old(self), s0, s1);
                    lemma_expr_frame_trans(*old(self), s1, s2);
                    lemma_expr_frame_trans(*old(self), s2, *self);
                }
                Ok(Value::F32 { value: d })
            } else {
                let iop = match op {
                    Operator::Add => IntBinOp::Add,
                    Operator::Sub => IntBinOp::Sub,
                    Operator::Mult => IntBinOp::Mul,
                    Operator::FloorDiv => IntBinOp::SDiv,
                    Operator::Mod => IntBinOp::SRem,
                    _ => IntBinOp::Add,
                };
                // Fold two i16 constants where the operation folds.
                match (ha, hb) {
                    (
                        ValueRef::ConstInt { ty: BasicType::I16, bits: ba },
                        ValueRef::ConstInt { ty: BasicType::I16, bits: bb },
                    ) => {
                        proof {
                            assert(ba <= 0xffff) by (bit_vector)
                                requires
                                    ba & 0xffffu64 == ba,
                            ;
                            assert(bb <= 0xffff) by (bit_vector)
                                requires
                                    bb & 0xffffu64 == bb,
                            ;
                        }
                        match fold_int16(iop, ba, bb) {
                            Some(bits) => {
                                return Ok(
                                    Value::I16 {
                                        value: ValueRef::ConstInt { ty: BasicType::I16, bits },
                                    },
                                );
                            },
                            None => {},
                        }
                    },
                    _ => {},
                }
                let c = self.ensure_positioned();
                if self.module.functions[c.fid].next_reg >= usize::MAX - 8 {
                    return Err(
                        self.err_here(
                            LLVMCompileErrorType::NotImplemented(
                                "function too large".to_owned(),
                            ),
                        ),
                    );
                }
                let ghost s0 = *self;
                let wt = w.to_basic_type();
                let ca = if ta != w {
                    self.w_int_resize(c, wt, ha)?
                } else {
                    ha
                };
                let ghost s1 = *self;
                let cb = if tb != w {
                    self.w_int_resize(c, wt, hb)?
                } else {
                    hb
                };
                let ghost s2 = *self;
                let d = self.w_int_bin(c, iop, wt, ca, cb)?;
                proof {
                    lemma_expr_frame_trans(*old(self), s0, s1);
                    lemma_expr_frame_trans(*old(self), s1, s2);
                    lemma_expr_frame_trans(*old(self), s2, *self);
                }
                Ok(Value::from_basic_value(w, d))
            }
        } else {
            // At least one float: promote an integer operand, then work at
            // float.
            let fop = match op {
                Operator::Add => FloatBinOp::FAdd,
                Operator::Sub => FloatBinOp::FSub,
                Operator::Mult => FloatBinOp::FMul,
                Operator::Div => FloatBinOp::FDiv,
                Operator::Mod => FloatBinOp::FRem,
                Operator::FloorDiv => {
                    return Err(
                        self.err_here(
                            LLVMCompileErrorType::NotImplemented(
                                "Floor division of floats is not implemented".to_owned(),
                            ),
                        ),
                    );
                },
                Operator::Unsupported => {
                    return Err(
                        self.err_here(
                            LLVMCompileErrorType::NotImplemented(
                                "Unsupported binary operator".to_owned(),
                            ),
                        ),
                    );
                },
            };
            let ha = a.to_basic_value();
            let hb = b.to_basic_value();
            let c = self.ensure_positioned();
            if self.module.functions[c.fid].next_reg >= usize::MAX - 8 {
                return Err(
                    self.err_here(
                        LLVMCompileErrorType::NotImplemented("function too large".to_owned()),
                    ),
                );
            }
            let ghost s0 = *self;
            let fa = if !float_a {
                self.w_si_to_fp(c, ha)?
            } else {
                ha
            };
            let ghost s1 = *self;
            let fb = if !float_b {
                self.w_si_to_fp(c, hb)?
            } else {
                hb
            };
            let ghost s2 = *self;
            let d = self.w_float_bin(c, fop, fa, fb)?;
            proof {
                lemma_expr_frame_trans(*old(self), s0, s1);
                lemma_expr_frame_trans(*old(self), s1, s2);
                lemma_expr_frame_trans(*old(self), s2, *self);
            }
            Ok(Value::F32 { value: d })
        }
    }
}


/// An expression step leaves a state where it left it.
pub proof fn lemma_expr_frame_refl(x: CodeGen)
    requires
        x.inv(),
    ensures
        expr_frame(x, x),
{
    crate::ir::lemma_module_extends_refl(x.module);
}

/// Name resolution order: the local table of the function being emitted
/// first, then the module-wide globals.
pub open spec fn spec_resolve(cg: CodeGen, name: Seq<char>) -> Option<(LLVMVariable, SymbolScope)> {
    match cg.fn_value {
        Some(_) => match cg.locals.spec_load(name) {
            Some(v) => Some((v, SymbolScope::Local)),
            None => match cg.globals.spec_load(name) {
                Some(v) => Some((v, SymbolScope::Global)),
                None => None,
            },
        },
        None => match cg.globals.spec_load(name) {
            Some(v) => Some((v, SymbolScope::Global)),
            None => None,
        },
    }
}

impl CodeGen {
    /// Resolve a name: the local scope shadows the global scope, and a
    /// resolution never changes either table.
    pub fn resolve_name(&self, name: &String) -> (r: Option<(LLVMVariable, SymbolScope)>)
        requires
            self.inv(),
        ensures
            r == spec_resolve(*self, name@),
    {
        match self.fn_value {
            Some(_) => {
                match self.locals.load(name) {
                    Some(v) => Some((v, SymbolScope::Local)),
                    None => match self.globals.load(name) {
                        Some(v) => Some((v, SymbolScope::Global)),
                        None => None,
                    },
                }
            },
            None => match self.globals.load(name) {
                Some(v) => Some((v, SymbolScope::Global)),
                None => None,
            },
        }
    }

    /// Emit an expression and return its value.
    ///
    /// Literals become constants (integer literals truncate to 16 bits,
    /// signed); an identifier resolves local-then-global and loads through
    /// the symbol's storage pointer, and an unresolved identifier is a name
    /// error; binary operators, comparisons and calls delegate; unary
    /// negation applies at literal level; everything else is outside the
    /// subset.
    pub fn compile_expr(&mut self, expr: &Expression) -> (r: Result<Value, LLVMCompileError>)
        requires
            old(self).inv(),
            (old(self).cursor matches Some(c) ==> old(self).module.open_at(c.fid, c.bid)),
        ensures
            final(self).inv(),
            match r {
                Ok(v) => {
                    &&& expr_frame(*old(self), *final(self))
                    &&& v.wf()
                    &&& match expr.node {
                        ExpressionType::Number { value: Number::Integer { negative, magnitude } } => v
                            == (Value::I16 {
                            value: ValueRef::ConstInt {
                                ty: BasicType::I16,
                                bits: spec_truncate_bigint(negative, magnitude) & 0xffff,
                            },
                        }),
                        ExpressionType::Number { value: Number::Float { bits } } => v == (
                        Value::F32 { value: ValueRef::ConstFloat { bits } }),
                        ExpressionType::Number { value: Number::Complex } => false,
                        ExpressionType::True => v == (Value::Bool {
                            value: ValueRef::ConstInt { ty: BasicType::I1, bits: 1 },
                        }),
                        ExpressionType::False => v == (Value::Bool {
                            value: ValueRef::ConstInt { ty: BasicType::I1, bits: 0 },
                        }),
                        ExpressionType::NoneLiteral => v == Value::Void,
                        // a constant string literal becomes a pointer to the
                        // interned read-only global holding its contents
                        ExpressionType::Str { .. } => match spec_constant_string(
                            expr.node->Str_value,
                        ) {
                            Some(text) => (v matches Value::Str {
                                value: ValueRef::StrPtr { id },
                            } && id < final(self).module.globals.len()
                                && (final(self).module.globals[id as int].kind matches
                                GlobalKind::Text { .. })
                                && final(self).module.globals[id as int].kind->Text_data@ == text),
                            None => false,
                        },
                        ExpressionType::Identifier { .. } => match spec_resolve(
                            *old(self),
                            expr.node->Identifier_name@,
                        ) {
                            Some((var, _)) => v.spec_get_type() == var.value_type && (last_instr(
                                *final(self),
                            ) matches Some(i) && i matches Instr::Load { ptr, .. } && ptr
                                == var.pointer && v.spec_handle() == Some(
                                ValueRef::Reg {
                                    id: i->Load_dst,
                                    ty: var.value_type.spec_basic_type(),
                                },
                            )),
                            None => false,
                        },
                        ExpressionType::Unop {
                            op: UnaryOperator::Neg,
                            ..
                        } => match expr.node->Unop_a.node {
                            ExpressionType::Number { value: Number::Integer { negative, magnitude } } => v
                                == (Value::I16 {
                                value: ValueRef::ConstInt {
                                    ty: BasicType::I16,
                                    bits: spec_truncate_bigint(!negative, magnitude) & 0xffff,
                                },
                            }),
                            ExpressionType::Number { value: Number::Float { bits } } => v == (
                            Value::F32 { value: ValueRef::ConstFloat { bits: bits ^ 0x80000000 } }),
                            _ => true,
                        },
                        _ => true,
                    }
                },
                Err(e) => {
                    &&& e.location is Some
                    &&& match expr.node {
                    ExpressionType::Number { value: Number::Complex } => e.error matches
                        LLVMCompileErrorType::NotImplemented(_),
                    ExpressionType::Number { .. } => false,
                    ExpressionType::True => false,
                    ExpressionType::False => false,
                    ExpressionType::NoneLiteral => false,
                    ExpressionType::Identifier { .. } => {
                        &&& (spec_resolve(*old(self), expr.node->Identifier_name@) is None ==> (
                        e.error matches LLVMCompileErrorType::NameError(n) && n@
                            == expr.node->Identifier_name@) && e.location == Some(expr.location))
                        &&& (e.error matches LLVMCompileErrorType::NameError(_) ==> spec_resolve(
                            *old(self),
                            expr.node->Identifier_name@,
                        ) is None)
                    },
                    ExpressionType::Call { .. } => (expr.node->Call_args@.len() == 0 && e.error
                        matches LLVMCompileErrorType::NameError(_)) ==> e.location == Some(
                        expr.location,
                    ),
                    _ => true,
                    }
                },
            },
        decreases *expr,
    {
        self.set_loc(expr.location);
        match &expr.node {
            ExpressionType::Number { value } => match value {
                Number::Integer { negative, magnitude } => {
                    let trunc = truncate_bigint_to_u64(*negative, *magnitude);
                    let bits = trunc & 0xffff;
                    proof {
                        assert((trunc & 0xffffu64) & 0xffffu64 == trunc & 0xffffu64)
                            by (bit_vector);
                        lemma_expr_frame_refl(*self);
                    }
                    Ok(Value::I16 { value: ValueRef::ConstInt { ty: BasicType::I16, bits } })
                },
                Number::Float { bits } => {
                    proof {
                        lemma_expr_frame_refl(*self);
                    }
                    Ok(Value::F32 { value: ValueRef::ConstFloat { bits: *bits } })
                },
                Number::Complex => Err(
                    self.err_here(
                        LLVMCompileErrorType::NotImplemented(
                            "Imaginary numbers are not supported.".to_owned(),
                        ),
                    ),
                ),
            },
            ExpressionType::Str { value } => {
                match try_get_constant_string(value) {
                    Some(text) => {
                        if self.fn_value.is_some() {
                            let gid = self.module.intern_string(&text);
                            proof {
                                assert(expr_frame(*old(self), *self));
                            }
                            Ok(Value::Str { value: ValueRef::StrPtr { id: gid } })
                        } else {
                            Err(
                                self.err_here(
                                    LLVMCompileErrorType::NotImplemented(
                                        "String expression in global scope is not implemented.".to_owned(),
                                    ),
                                ),
                            )
                        }
                    },
                    None => Err(
                        self.err_here(
                            LLVMCompileErrorType::NotImplemented(
                                "Interpolated strings are not supported.".to_owned(),
                            ),
                        ),
                    ),
                }
            },
            ExpressionType::Call { function, args } => {
                proof {
                    assert(decreases_to!(*expr => *args));
                }
                self.compile_expr_call(function, args)
            },
            ExpressionType::Identifier { name } => {
                let resolved = self.resolve_name(name);
                match resolved {
                    Some((var, scope)) => {
                        proof {
                            match scope {
                                SymbolScope::Local => {
                                    lemma_lookup_found(self.locals.active(), name@);
                                },
                                SymbolScope::Global => {
                                    lemma_lookup_found(self.globals@, name@);
                                },
                            }
                        }
                        let c = self.ensure_positioned();
                        let ty = var.value_type.to_basic_type();
                        let lv = self.w_load(c, ty, var.pointer)?;
                        proof {
                            lemma_expr_frame_trans(*old(self), *old(self), *self);
                        }
                        Ok(Value::from_basic_value(var.value_type, lv))
                    },
                    None => Err(
                        self.err_here(LLVMCompileErrorType::NameError(name.clone())),
                    ),
                }
            },
            ExpressionType::Binop { a, op, b } => {
                let av = self.compile_expr(a)?;
                let ghost s1 = *self;
                let bv = self.compile_expr(b)?;
                let ghost s2 = *self;
                let v = self.compile_op(av, *op, bv)?;
                proof {
                    lemma_expr_frame_trans(*old(self), s1, s2);
                    lemma_expr_frame_trans(*old(self), s2, *self);
                }
                Ok(v)
            },
            ExpressionType::Compare { vals, ops } => {
                proof {
                    assert(decreases_to!(*expr => *vals));
                }
                self.compile_comparison(vals, ops)
            },
            ExpressionType::Unop { op, a } => {
                if !(*op == UnaryOperator::Neg) {
                    return Err(
                        self.err_here(
                            LLVMCompileErrorType::NotImplemented(
                                "Unimplemented unary operator".to_owned(),
                            ),
                        ),
                    );
                }
                match &a.node {
                    ExpressionType::Number { value } => match value {
                        Number::Integer { negative, magnitude } => {
                            let trunc = truncate_bigint_to_u64(!*negative, *magnitude);
                            let bits = trunc & 0xffff;
                            proof {
                                assert((trunc & 0xffffu64) & 0xffffu64 == trunc & 0xffffu64)
                                    by (bit_vector);
                                lemma_expr_frame_refl(*self);
                            }
                            Ok(
                                Value::I16 {
                                    value: ValueRef::ConstInt { ty: BasicType::I16, bits },
                                },
                            )
                        },
                        Number::Float { bits } => {
                            proof {
                                lemma_expr_frame_refl(*self);
                            }
                            Ok(
                                Value::F32 {
                                    value: ValueRef::ConstFloat { bits: *bits ^ 0x80000000 },
                                },
                            )
                        },
                        Number::Complex => Err(
                            self.err_here(
                                LLVMCompileErrorType::NotImplemented(
                                    "Complex numbers are not implemented.".to_owned(),
                                ),
                            ),
                        ),
                    },
                    _ => Err(
                        self.err_here(
                            LLVMCompileErrorType::NotImplemented(
                                "Unary operators apply only to numeric literals.".to_owned(),
                            ),
                        ),
                    ),
                }
            },
            ExpressionType::True => {
                proof {
                    assert(1u64 & 0x1u64 == 1u64) by (bit_vector);
                    lemma_expr_frame_refl(*self);
                }
                Ok(Value::Bool { value: ValueRef::ConstInt { ty: BasicType::I1, bits: 1 } })
            },
            ExpressionType::False => {
                proof {
                    assert(0u64 & 0x1u64 == 0u64) by (bit_vector);
                    lemma_expr_frame_refl(*self);
                }
                Ok(Value::Bool { value: ValueRef::ConstInt { ty: BasicType::I1, bits: 0 } })
            },
            ExpressionType::NoneLiteral => {
                proof {
                    lemma_expr_frame_refl(*self);
                }
                Ok(Value::Void)
            },
            ExpressionType::Unsupported => Err(
                self.err_here(
                    LLVMCompileErrorType::NotImplemented(
                        "Unsupported expression".to_owned(),
                    ),
                ),
            ),
        }
    }

    /// Emit a call.  The first argument is evaluated once, before overload
    /// resolution: the callee is looked up under its plain name first, then
    /// under the name mangled with the first argument's type, and an
    /// unresolved callee is a name error.  Each argument is coerced to the
    /// declared parameter type (integers resize; floats and strings pass
    /// through; anything else is outside the subset).
    #[verifier::rlimit(60)]
    pub fn compile_expr_call(&mut self, function: &Expression, args: &Vec<Expression>) -> (r:
        Result<Value, LLVMCompileError>)
        requires
            old(self).inv(),
            (old(self).cursor matches Some(c) ==> old(self).module.open_at(c.fid, c.bid)),
        ensures
            final(self).inv(),
            match r {
                Ok(v) => {
                    &&& expr_frame(*old(self), *final(self))
                    &&& v.wf()
                    // the call went to the requested name, or to one of its
                    // mangled overloads
                    &&& match function.node {
                        ExpressionType::Identifier { name } => (last_instr(*final(self)) matches
                            Some(i) && i matches Instr::Call { callee, .. } && callee
                            < final(self).module.functions.len()
                            && (final(self).module.functions[callee as int].name@ == name@
                            || exists|vt: ValueType| final(self).module.functions[callee as int].name@
                                == #[trigger] spec_mangling(name@, vt))),
                        _ => false,
                    }
                },
                Err(e) => {
                    &&& e.location is Some
                    &&& (!(function.node matches ExpressionType::Identifier { .. }) ==> e.error
                        matches LLVMCompileErrorType::NotImplemented(_))
                    // a call without arguments is owed a name error exactly
                    // when neither the plain nor the mangled name exists
                    &&& (args@.len() == 0 && (function.node matches ExpressionType::Identifier {
                        ..
                    }) ==> {
                        let name = function.node->Identifier_name;
                        &&& ((e.error matches LLVMCompileErrorType::NameError(_)) <==> !(old(
                            self,
                        ).module.has_function_named(name@) || old(self).module.has_function_named(
                            spec_mangling(name@, ValueType::Void),
                        )))
                        &&& ((e.error matches LLVMCompileErrorType::NameError(_)) ==> (e.error
                            matches LLVMCompileErrorType::NameError(n) && n@ == name@) && e.location
                            == Some(old(self).loc))
                    })
                },
            },
        decreases *args,
    {
        let func_name = match &function.node {
            ExpressionType::Identifier { name } => name,
            _ => {
                return Err(
                    self.err_here(
                        LLVMCompileErrorType::NotImplemented(
                            "Calling method is not implemented.".to_owned(),
                        ),
                    ),
                );
            },
        };
        // Evaluate the first argument, if there is one: overload resolution
        // needs its type.  A call without arguments resolves before anything
        // is emitted, so an unresolvable callee fails against the module as
        // it stood.
        let ghost mangle_tag: ValueType = ValueType::Void;
        let (fid, first): (usize, Option<Value>) = if args.len() == 0 {
            let f = match self.module.get_function(func_name) {
                Some(f) => f,
                None => {
                    let mangled = mangling(func_name, ValueType::Void);
                    match self.module.get_function(&mangled) {
                        Some(f) => f,
                        None => {
                            return Err(
                                self.err_here(
                                    LLVMCompileErrorType::NameError(func_name.clone()),
                                ),
                            );
                        },
                    }
                },
            };
            (f, None)
        } else {
            let c0 = self.ensure_positioned();
            proof {
                vstd::std_specs::vec::axiom_vec_index_decreases(*args, 0int);
            }
            let ghost sa = *self;
            let fv = self.compile_expr(&args[0])?;
            proof {
                lemma_expr_frame_trans(*old(self), sa, *self);
            }
            // Resolve the callee: the plain name first, then the mangled name.
            let tag = fv.get_type();
            proof {
                mangle_tag = tag;
            }
            let f = match self.module.get_function(func_name) {
                Some(f) => f,
                None => {
                    let mangled = mangling(func_name, tag);
                    match self.module.get_function(&mangled) {
                        Some(f) => f,
                        None => {
                            return Err(
                                self.err_here(
                                    LLVMCompileErrorType::NameError(func_name.clone()),
                                ),
                            );
                        },
                    }
                },
            };
            (f, Some(fv))
        };
        let c = self.ensure_positioned();
        let ghost s1 = *self;
        proof {
            lemma_expr_frame_refl(s1);
            assert(self.module.functions[fid as int].name@ == func_name@ || self.module.functions[
                fid as int].name@ == spec_mangling(func_name@, mangle_tag));
        }
        let ghost fname0 = self.module.functions[fid as int].name;
        if args.len() != self.module.functions[fid].params.len() {
            return Err(
                self.err_here(
                    LLVMCompileErrorType::TypeError(
                        "matching argument count".to_owned(),
                        "mismatched argument count".to_owned(),
                    ),
                ),
            );
        }
        let ghost params0 = self.module.functions[fid as int].params;
        let ghost ret0 = self.module.functions[fid as int].ret;
        let n = args.len();
        let mut coerced: Vec<ValueRef> = Vec::new();
        let mut i: usize = 0;
        while i < n
            invariant
                function.node matches ExpressionType::Identifier { .. },
                old(self).inv(),
                (old(self).cursor matches Some(cc) ==> old(self).module.open_at(cc.fid, cc.bid)),
                self.inv(),
                expr_frame(*old(self), *self),
                self.cursor == Some(c),
                self.module.open_at(c.fid, c.bid),
                n == args.len(),
                i <= n,
                fid < self.module.functions.len(),
                self.module.functions[fid as int].params == params0,
                self.module.functions[fid as int].ret == ret0,
                self.module.functions[fid as int].name == fname0,
                (fname0@ == function.node->Identifier_name@ || exists|vt: ValueType| fname0@
                    == #[trigger] spec_mangling(function.node->Identifier_name@, vt)),
                n == params0.len(),
                coerced@.len() == i,
                forall|j: int|
                    0 <= j < i ==> (#[trigger] coerced@[j]).ty() == params0[j],
                (first matches Some(v) ==> v.wf()),
            decreases n - i,
        {
            let ghost pre = *self;
            let value = if i == 0 {
                match &first {
                    Some(v) => *v,
                    None => {
                        proof {
                            vstd::std_specs::vec::axiom_vec_index_decreases(*args, i as int);
                        }
                        self.compile_expr(&args[i])?
                    },
                }
            } else {
                proof {
                    vstd::std_specs::vec::axiom_vec_index_decreases(*args, i as int);
                }
                self.compile_expr(&args[i])?
            };
            let ghost mid = *self;
            proof {
                lemma_expr_frame_refl(mid);
                lemma_expr_frame_trans(*old(self), pre, mid);
                assert(Function::extends(
                    pre.module.functions[fid as int],
                    mid.module.functions[fid as int],
                ));
            }
            let pty = self.module.functions[fid].params[i];
            let vt = value.get_type();
            let coerced_arg: ValueRef = match vt {
                ValueType::I8 | ValueType::I16 | ValueType::I32 => {
                    let h = value.to_basic_value();
                    if h.get_ty() == pty {
                        h
                    } else if pty == BasicType::I1 || pty == BasicType::I8 || pty
                        == BasicType::I16 || pty == BasicType::I32 {
                        self.w_int_resize(c, pty, h)?
                    } else {
                        return Err(
                            self.err_here(
                                LLVMCompileErrorType::NotImplemented(
                                    "Unimplemented argument type".to_owned(),
                                ),
                            ),
                        );
                    }
                },
                ValueType::F32 => {
                    let h = value.to_basic_value();
                    if pty == BasicType::F32 {
                        h
                    } else {
                        return Err(
                            self.err_here(
                                LLVMCompileErrorType::NotImplemented(
                                    "Unimplemented argument type".to_owned(),
                                ),
                            ),
                        );
                    }
                },
                ValueType::Str => {
                    let h = value.to_basic_value();
                    if pty == BasicType::PtrI8 {
                        h
                    } else {
                        return Err(
                            self.err_here(
                                LLVMCompileErrorType::NotImplemented(
                                    "Unimplemented argument type".to_owned(),
                                ),
                            ),
                        );
                    }
                },
                _ => {
                    return Err(
                        self.err_here(
                            LLVMCompileErrorType::NotImplemented(
                                "Unimplemented argument type".to_owned(),
                            ),
                        ),
                    );
                },
            };
            coerced.push(coerced_arg);
            proof {
                lemma_expr_frame_trans(*old(self), mid, *self);
            }
            i += 1;
        }
        let res = self.w_call(c, fid, coerced, true)?;
        proof {
            lemma_expr_frame_trans(*old(self), *old(self), *self);
        }
        // Decode the return value from the declared return type.
        match res {
            Some(rv) => {
                let vt = match rv.get_ty() {
                    BasicType::I1 => ValueType::Bool,
                    BasicType::I8 => ValueType::I8,
                    BasicType::I16 => ValueType::I16,
                    BasicType::I32 => ValueType::I32,
                    BasicType::F32 => ValueType::F32,
                    BasicType::PtrI8 => ValueType::Str,
                };
                Ok(Value::from_basic_value(vt, rv))
            },
            None => Ok(Value::Void),
        }
    }

    /// Emit a single comparison (chained comparisons are outside the
    /// subset).  Integer operands compare with signed predicates at the
    /// widest operand type; float operands compare with the matching ordered
    /// predicate, so a NaN operand makes every comparison false.  The result
    /// is boolean.
    pub fn compile_comparison(&mut self, vals: &Vec<Expression>, ops: &Vec<Comparison>) -> (r:
        Result<Value, LLVMCompileError>)
        requires
            old(self).inv(),
            (old(self).cursor matches Some(c) ==> old(self).module.open_at(c.fid, c.bid)),
        ensures
            final(self).inv(),
            match r {
                Ok(v) => {
                    &&& expr_frame(*old(self), *final(self))
                    &&& v.wf()
                    &&& v.spec_get_type() == ValueType::Bool
                    &&& ops@.len() == 1 && vals@.len() == 2
                    &&& match v {
                        Value::Bool { value: ValueRef::ConstInt { .. } } => true,
                        _ => {
                            // the result is the register of the comparison
                            // just emitted, with the mapped predicate
                            &&& (last_instr(*final(self)) matches Some(i) && match i {
                                Instr::ICmp { dst, pred, .. } => Some(pred) == spec_int_pred(
                                    ops[0],
                                ) && v.spec_handle() == Some(
                                    ValueRef::Reg { id: dst, ty: BasicType::I1 },
                                ),
                                Instr::FCmp { dst, pred, .. } => Some(pred) == spec_float_pred(
                                    ops[0],
                                ) && v.spec_handle() == Some(
                                    ValueRef::Reg { id: dst, ty: BasicType::I1 },
                                ),
                                _ => false,
                            })
                        },
                    }
                },
                Err(e) => {
                    &&& e.location is Some
                    &&& (!(ops.len() == 1 && vals.len() == 2) ==> e.error matches
                        LLVMCompileErrorType::NotImplemented(_))
                },
            },
        decreases *vals,
    {
        if !(ops.len() == 1 && vals.len() == 2) {
            return Err(
                self.err_here(
                    LLVMCompileErrorType::NotImplemented(
                        "Chained comparison is not implemented.".to_owned(),
                    ),
                ),
            );
        }
        proof {
            vstd::std_specs::vec::axiom_vec_index_decreases(*vals, 0int);
            vstd::std_specs::vec::axiom_vec_index_decreases(*vals, 1int);
        }
        let a = self.compile_expr(&vals[0])?;
        let ghost s1 = *self;
        let b = self.compile_expr(&vals[1])?;
        let ghost s2 = *self;
        proof {
            lemma_expr_frame_trans(*old(self), s1, s2);
        }
        let ta = a.get_type();
        let tb = b.get_type();
        let int_a = ta.get_group() == ValueTypeGroup::Int;
        let int_b = tb.get_group() == ValueTypeGroup::Int;
        if int_a && int_b {
            let pred = match int_pred_of(ops[0]) {
                Some(p) => p,
                None => {
                    return Err(
                        self.err_here(
                            LLVMCompileErrorType::NotImplemented(
                                "Unsupported comparison operator for integers".to_owned(),
                            ),
                        ),
                    );
                },
            };
            let w = match ValueType::merge_group(&ta, &tb) {
                Some(w) => w,
                None => {
                    return Err(
                        self.err_here(
                            LLVMCompileErrorType::TypeError(
                                value_type_name(ta).to_owned(),
                                value_type_name(tb).to_owned(),
                            ),
                        ),
                    );
                },
            };
            let ha = a.to_basic_value();
            let hb = b.to_basic_value();
            // Fold a comparison of two i16 constants.
            match (ha, hb) {
                (
                    ValueRef::ConstInt { ty: BasicType::I16, bits: ba },
                    ValueRef::ConstInt { ty: BasicType::I16, bits: bb },
                ) => {
                    proof {
                        assert(ba <= 0xffff) by (bit_vector)
                            requires
                                ba & 0xffffu64 == ba,
                        ;
                        assert(bb <= 0xffff) by (bit_vector)
                            requires
                                bb & 0xffffu64 == bb,
                        ;
                        assert(1u64 & 0x1u64 == 1u64) by (bit_vector);
                        assert(0u64 & 0x1u64 == 0u64) by (bit_vector);
                    }
                    let truth = fold_icmp16(pred, ba, bb);
                    return Ok(
                        Value::Bool {
                            value: ValueRef::ConstInt {
                                ty: BasicType::I1,
                                bits: if truth {
                                    1
                                } else {
                                    0
                                },
                            },
                        },
                    );
                },
                _ => {},
            }
            let c = self.ensure_positioned();
            let ghost s3 = *self;
            let wt = w.to_basic_type();
            let ca = if ta != w {
                self.w_int_resize(c, wt, ha)?
            } else {
                ha
            };
            let ghost s4 = *self;
            let cb = if tb != w {
                self.w_int_resize(c, wt, hb)?
            } else {
                hb
            };
            let ghost s5 = *self;
            let cond = self.w_icmp(c, pred, ca, cb)?;
            proof {
                lemma_expr_frame_trans(*old(self), s2, s3);
                lemma_expr_frame_trans(*old(self), s3, s4);
                lemma_expr_frame_trans(*old(self), s4, s5);
                lemma_expr_frame_trans(*old(self), s5, *self);
            }
            Ok(Value::Bool { value: cond })
        } else if ta == ValueType::F32 && tb == ValueType::F32 {
            let pred = match float_pred_of(ops[0]) {
                Some(p) => p,
                None => {
                    return Err(
                        self.err_here(
                            LLVMCompileErrorType::NotImplemented(
                                "Unsupported comparison operator for floats".to_owned(),
                            ),
                        ),
                    );
                },
            };
            let ha = a.to_basic_value();
            let hb = b.to_basic_value();
            let c = self.ensure_positioned();
            let ghost s3 = *self;
            let cond = self.w_fcmp(c, pred, ha, hb)?;
            proof {
                lemma_expr_frame_trans(*old(self), s2, s3);
                lemma_expr_frame_trans(*old(self), s3, *self);
            }
            Ok(Value::Bool { value: cond })
        } else {
            Err(
                self.err_here(
                    LLVMCompileErrorType::TypeError(
                        value_type_name(ta).to_owned(),
                        value_type_name(tb).to_owned(),
                    ),
                ),
            )
        }
    }
}

} // verus!
