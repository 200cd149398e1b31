//! Unit tests for the value model, the mangler, literal conversion, folding,
//! and the error paths of statement emission.

use dspython::arith::{fold_icmp16, fold_int16};
use dspython::ast::{
    Expression, ExpressionType, Location, Number, Parameter, Program, Statement, StatementType,
    StringGroup, UnaryOperator,
};
use dspython::compiler::get_assembly;
use dspython::convert::{truncate_bigint_to_u64, try_get_constant_string};
use dspython::errors::LLVMCompileErrorType;
use dspython::flags::CompilerFlags;
use dspython::ir::{BasicType, GlobalKind, IntBinOp, IntPredicate, Module, ValueRef};
use dspython::mangler::mangling;
use dspython::value::{ValueType, ValueTypeGroup};

fn loc() -> Location {
    Location::new(1, 1)
}

fn expr(node: ExpressionType) -> Expression {
    Expression { location: loc(), node }
}

fn stmt(node: StatementType) -> Statement {
    Statement { location: loc(), node }
}

fn compile(statements: Vec<Statement>) -> Result<Module, dspython::errors::LLVMCompileError> {
    get_assembly(
        "unit.py".to_string(),
        CompilerFlags::new(0),
        &Vec::new(),
        Program { statements },
    )
}

#[test]
fn value_type_groups_and_widths() {
    assert_eq!(ValueType::I8.get_group(), ValueTypeGroup::Int);
    assert_eq!(ValueType::I16.get_group(), ValueTypeGroup::Int);
    assert_eq!(ValueType::I32.get_group(), ValueTypeGroup::Int);
    assert_eq!(ValueType::F32.get_group(), ValueTypeGroup::Float);
    assert_eq!(ValueType::Bool.get_group(), ValueTypeGroup::Bool);
    assert_eq!(ValueType::Str.get_group(), ValueTypeGroup::Str);
    assert_eq!(ValueType::Void.get_group(), ValueTypeGroup::Void);
    assert_eq!(ValueType::Bool.get_bitwidth(), 1);
    assert_eq!(ValueType::I8.get_bitwidth(), 8);
    assert_eq!(ValueType::I16.get_bitwidth(), 16);
    assert_eq!(ValueType::I32.get_bitwidth(), 32);
    assert_eq!(ValueType::F32.get_bitwidth(), 32);
    assert!(ValueType::Void.is_void());
    assert!(!ValueType::I16.is_void());
}

#[test]
fn merge_group_widens_within_family() {
    assert_eq!(
        ValueType::merge_group(&ValueType::I8, &ValueType::I32),
        Some(ValueType::I32)
    );
    assert_eq!(
        ValueType::merge_group(&ValueType::I16, &ValueType::I8),
        Some(ValueType::I16)
    );
    assert_eq!(
        ValueType::merge_group(&ValueType::F32, &ValueType::F32),
        Some(ValueType::F32)
    );
    assert_eq!(ValueType::merge_group(&ValueType::I16, &ValueType::F32), None);
    assert_eq!(ValueType::merge_group(&ValueType::Str, &ValueType::I16), None);
}

#[test]
fn mangling_is_deterministic_and_tagged() {
    let base = "print".to_string();
    let a = mangling(&base, ValueType::I16);
    let b = mangling(&base, ValueType::I16);
    assert_eq!(a, b, "equal inputs give byte-equal names");
    assert_eq!(a, "print__i__");
    assert_eq!(mangling(&base, ValueType::Bool), "print__i__");
    assert_eq!(mangling(&base, ValueType::I8), "print__i__");
    assert_eq!(mangling(&base, ValueType::I32), "print__i__");
    assert_eq!(mangling(&base, ValueType::F32), "print__f__");
    assert_eq!(mangling(&base, ValueType::Str), "print__s__");
    assert_eq!(mangling(&base, ValueType::Void), "print");
}

#[test]
fn bigint_truncation() {
    assert_eq!(truncate_bigint_to_u64(false, 3), 3);
    assert_eq!(truncate_bigint_to_u64(true, 3), 3u64.wrapping_neg());
    assert_eq!(truncate_bigint_to_u64(true, 0), 0);
    assert_eq!(truncate_bigint_to_u64(false, u64::MAX), u64::MAX);
    assert_eq!(truncate_bigint_to_u64(true, 1), u64::MAX);
}

#[test]
fn fold_wraps_at_sixteen_bits() {
    // 30000 + 30000 wraps to -5536 in i16
    let sum = fold_int16(IntBinOp::Add, 30000, 30000).unwrap();
    assert_eq!(sum, ((30000i32 + 30000) as i16) as u16 as u64);
    // 2 - 5 is -3
    let diff = fold_int16(IntBinOp::Sub, 2, 5).unwrap();
    assert_eq!(diff, (-3i16) as u16 as u64);
    // 300 * 300 wraps
    let prod = fold_int16(IntBinOp::Mul, 300, 300).unwrap();
    assert_eq!(prod, ((300i32 * 300) as i16) as u16 as u64);
    // division is never folded
    assert_eq!(fold_int16(IntBinOp::SDiv, 7, 2), None);
    assert_eq!(fold_int16(IntBinOp::SRem, 7, 2), None);
}

#[test]
fn fold_compare_is_signed() {
    let neg_one = (-1i16) as u16 as u64;
    assert!(fold_icmp16(IntPredicate::SLT, neg_one, 1));
    assert!(!fold_icmp16(IntPredicate::SGT, neg_one, 1));
    assert!(fold_icmp16(IntPredicate::NE, 1, 0));
    assert!(fold_icmp16(IntPredicate::EQ, 42, 42));
    assert!(fold_icmp16(IntPredicate::SLE, neg_one, neg_one));
    assert!(fold_icmp16(IntPredicate::SGE, 5, neg_one));
}

#[test]
fn constant_string_of_joined_pieces() {
    let joined = StringGroup::Joined {
        values: vec![
            StringGroup::Constant {
                value: "ab".to_string(),
            },
            StringGroup::Constant {
                value: "cd".to_string(),
            },
        ],
    };
    assert_eq!(try_get_constant_string(&joined), Some("abcd".to_string()));
    let formatted = StringGroup::Joined {
        values: vec![
            StringGroup::Constant {
                value: "ab".to_string(),
            },
            StringGroup::FormattedValue,
        ],
    };
    assert_eq!(try_get_constant_string(&formatted), None);
}

#[test]
fn negative_literal_folds() {
    // x = -5 at module scope: the global holds the two's-complement pattern
    let statements = vec![stmt(StatementType::Assign {
        targets: vec![expr(ExpressionType::Identifier {
            name: "x".to_string(),
        })],
        value: expr(ExpressionType::Unop {
            op: UnaryOperator::Neg,
            a: Box::new(expr(ExpressionType::Number {
                value: Number::Integer {
                    negative: false,
                    magnitude: 5,
                },
            })),
        }),
    })];
    let m = compile(statements).expect("compiles");
    let gx = m.globals.iter().find(|g| g.name == "x").unwrap();
    match &gx.kind {
        GlobalKind::Var { ty, init } => {
            assert_eq!(*ty, BasicType::I16);
            assert_eq!(
                *init,
                ValueRef::ConstInt {
                    ty: BasicType::I16,
                    bits: ((-5i16) as u16) as u64
                }
            );
        }
        _ => panic!("x is not a variable"),
    }
}

#[test]
fn return_outside_function_is_syntax_error() {
    let statements = vec![stmt(StatementType::Return { value: None })];
    let e = compile(statements).expect_err("return outside function");
    assert_eq!(
        e.error,
        LLVMCompileErrorType::SyntaxError("'return' outside function".to_string())
    );
}

#[test]
fn missing_type_hint_is_syntax_error() {
    let statements = vec![stmt(StatementType::FunctionDef {
        is_async: false,
        name: "f".to_string(),
        args: vec![Parameter {
            arg: "a".to_string(),
            annotation: None,
        }],
        body: vec![stmt(StatementType::Pass)],
        returns: None,
    })];
    let e = compile(statements).expect_err("missing annotation");
    assert_eq!(
        e.error,
        LLVMCompileErrorType::SyntaxError("Must have type hint".to_string())
    );
}

#[test]
fn complex_literal_is_not_implemented() {
    let statements = vec![stmt(StatementType::Expression {
        expression: expr(ExpressionType::Number {
            value: Number::Complex,
        }),
    })];
    let e = compile(statements).expect_err("complex literals are rejected");
    assert!(matches!(e.error, LLVMCompileErrorType::NotImplemented(_)));
}

#[test]
fn chained_comparison_is_not_implemented() {
    let statements = vec![stmt(StatementType::FunctionDef {
        is_async: false,
        name: "f".to_string(),
        args: vec![],
        body: vec![stmt(StatementType::Expression {
            expression: expr(ExpressionType::Compare {
                vals: vec![
                    expr(ExpressionType::Number {
                        value: Number::Integer {
                            negative: false,
                            magnitude: 1,
                        },
                    }),
                    expr(ExpressionType::Number {
                        value: Number::Integer {
                            negative: false,
                            magnitude: 2,
                        },
                    }),
                    expr(ExpressionType::Number {
                        value: Number::Integer {
                            negative: false,
                            magnitude: 3,
                        },
                    }),
                ],
                ops: vec![
                    dspython::ast::Comparison::Less,
                    dspython::ast::Comparison::Less,
                ],
            }),
        })],
        returns: None,
    })];
    let e = compile(statements).expect_err("chained comparisons are rejected");
    assert!(matches!(e.error, LLVMCompileErrorType::NotImplemented(_)));
}

#[test]
fn import_of_arduino_library_allowed() {
    let ok = vec![stmt(StatementType::ImportFrom {
        module: Some("arduino.uno".to_string()),
    })];
    assert!(compile(ok).is_ok());
    let uno = vec![stmt(StatementType::ImportFrom {
        module: Some("uno".to_string()),
    })];
    assert!(compile(uno).is_ok());
    let other = vec![stmt(StatementType::ImportFrom {
        module: Some("os".to_string()),
    })];
    let e = compile(other).expect_err("other modules are rejected");
    assert!(matches!(e.error, LLVMCompileErrorType::NotImplemented(_)));
}

#[test]
fn async_function_is_not_implemented() {
    let statements = vec![stmt(StatementType::FunctionDef {
        is_async: true,
        name: "f".to_string(),
        args: vec![],
        body: vec![stmt(StatementType::Pass)],
        returns: None,
    })];
    let e = compile(statements).expect_err("async functions are rejected");
    assert!(matches!(e.error, LLVMCompileErrorType::NotImplemented(_)));
}

#[test]
fn optimization_level_range_checked() {
    let e = get_assembly(
        "unit.py".to_string(),
        CompilerFlags::new(4),
        &Vec::new(),
        Program { statements: vec![] },
    )
    .expect_err("level 4 does not exist");
    assert!(matches!(e.error, LLVMCompileErrorType::NotImplemented(_)));
    assert!(get_assembly(
        "unit.py".to_string(),
        CompilerFlags::new(3),
        &Vec::new(),
        Program { statements: vec![] },
    )
    .is_ok());
}

#[test]
fn docstrings_are_discarded() {
    // a leading string literal in a function body is documentation, not code
    let statements = vec![stmt(StatementType::FunctionDef {
        is_async: false,
        name: "setup".to_string(),
        args: vec![],
        body: vec![
            stmt(StatementType::Expression {
                expression: expr(ExpressionType::Str {
                    value: StringGroup::Constant {
                        value: "does the setup".to_string(),
                    },
                }),
            }),
            stmt(StatementType::Pass),
        ],
        returns: None,
    })];
    let m = compile(statements).expect("compiles");
    assert!(
        m.globals
            .iter()
            .all(|g| !matches!(&g.kind, GlobalKind::Text { data } if data == "does the setup")),
        "the documentation literal is not interned"
    );
}

#[test]
fn rebinding_with_other_type_is_type_error() {
    let statements = vec![stmt(StatementType::FunctionDef {
        is_async: false,
        name: "f".to_string(),
        args: vec![],
        body: vec![
            stmt(StatementType::Assign {
                targets: vec![expr(ExpressionType::Identifier {
                    name: "v".to_string(),
                })],
                value: expr(ExpressionType::Number {
                    value: Number::Integer {
                        negative: false,
                        magnitude: 1,
                    },
                }),
            }),
            stmt(StatementType::Assign {
                targets: vec![expr(ExpressionType::Identifier {
                    name: "v".to_string(),
                })],
                value: expr(ExpressionType::Number {
                    value: Number::Float {
                        bits: 1.5f32.to_bits(),
                    },
                }),
            }),
        ],
        returns: None,
    })];
    let e = compile(statements).expect_err("rebinding at another type");
    assert!(matches!(e.error, LLVMCompileErrorType::TypeError(_, _)));
}

#[test]
fn empty_program_compiles() {
    let m = compile(vec![]).expect("an empty program compiles");
    // only the prototype table is present, and nothing is unterminated
    assert!(m.functions.iter().all(|f| f.blocks.iter().all(|b| b.terminator.is_some())));
    assert!(m.globals.is_empty());
    assert!(m.get_function(&"pin_mode".to_string()).is_some());
    assert!(m.get_function(&"println__s__".to_string()).is_some());
}

#[test]
fn float_argument_resolves_float_overload() {
    // int(2.5) goes to int__f__, resolved through the mangled name
    let statements = vec![stmt(StatementType::FunctionDef {
        is_async: false,
        name: "setup".to_string(),
        args: vec![],
        body: vec![stmt(StatementType::Expression {
            expression: expr(ExpressionType::Call {
                function: Box::new(expr(ExpressionType::Identifier {
                    name: "int".to_string(),
                })),
                args: vec![expr(ExpressionType::Number {
                    value: Number::Float {
                        bits: 2.5f32.to_bits(),
                    },
                })],
            }),
        })],
        returns: None,
    })];
    let m = compile(statements).expect("compiles");
    let int_f = m.get_function(&"int__f__".to_string()).unwrap();
    let setup = m
        .functions
        .iter()
        .find(|f| f.name == "setup")
        .unwrap();
    let called = setup
        .blocks
        .iter()
        .flat_map(|b| b.instrs.iter())
        .any(|i| matches!(i, dspython::ir::Instr::Call { callee, .. } if *callee == int_f));
    assert!(called, "the float overload is called");
}
