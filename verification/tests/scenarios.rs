//! End-to-end scenarios: whole programs through `get_assembly`, checked
//! against the IR module that comes out.

use dspython::ast::{
    Comparison, Expression, ExpressionType, Location, Number, Operator, Parameter, Program,
    Statement, StatementType, StringGroup,
};
use dspython::compiler::get_assembly;
use dspython::errors::LLVMCompileErrorType;
use dspython::flags::CompilerFlags;
use dspython::ir::{
    BasicType, FloatPredicate, GlobalKind, Instr, IntBinOp, IntPredicate, Linkage, Module,
    Terminator, ValueRef,
};

fn loc(row: usize, column: usize) -> Location {
    Location::new(row, column)
}

fn expr(node: ExpressionType) -> Expression {
    Expression { location: loc(1, 1), node }
}

fn expr_at(row: usize, column: usize, node: ExpressionType) -> Expression {
    Expression {
        location: loc(row, column),
        node,
    }
}

fn stmt(node: StatementType) -> Statement {
    Statement { location: loc(1, 1), node }
}

fn int_lit(v: u64) -> Expression {
    expr(ExpressionType::Number {
        value: Number::Integer {
            negative: false,
            magnitude: v,
        },
    })
}

fn ident(name: &str) -> Expression {
    expr(ExpressionType::Identifier {
        name: name.to_string(),
    })
}

fn call(name: &str, args: Vec<Expression>) -> Expression {
    expr(ExpressionType::Call {
        function: Box::new(ident(name)),
        args,
    })
}

fn param(name: &str, ty: &str) -> Parameter {
    Parameter {
        arg: name.to_string(),
        annotation: Some(ident(ty)),
    }
}

fn def(name: &str, args: Vec<Parameter>, body: Vec<Statement>, ret: Option<&str>) -> Statement {
    stmt(StatementType::FunctionDef {
        is_async: false,
        name: name.to_string(),
        args,
        body,
        returns: ret.map(ident),
    })
}

fn compile(statements: Vec<Statement>) -> Result<Module, dspython::errors::LLVMCompileError> {
    get_assembly(
        "test.py".to_string(),
        CompilerFlags::new(2),
        &Vec::new(),
        Program { statements },
    )
}

fn find_fn<'a>(m: &'a Module, name: &str) -> &'a dspython::ir::Function {
    m.functions
        .iter()
        .find(|f| f.name == name)
        .unwrap_or_else(|| panic!("function {} not found", name))
}

fn all_instrs(f: &dspython::ir::Function) -> Vec<&Instr> {
    f.blocks.iter().flat_map(|b| b.instrs.iter()).collect()
}

/// `x = 1 + 2` then `print(x)`: the module holds a global `x` of type i16
/// initialized to the folded constant 3, and a call to `print__i__` whose
/// single argument is the 16-bit load of `x`.
#[test]
fn global_fold_and_print() {
    let statements = vec![
        stmt(StatementType::Assign {
            targets: vec![ident("x")],
            value: expr(ExpressionType::Binop {
                a: Box::new(int_lit(1)),
                op: Operator::Add,
                b: Box::new(int_lit(2)),
            }),
        }),
        stmt(StatementType::Expression {
            expression: call("print", vec![ident("x")]),
        }),
    ];
    let m = compile(statements).expect("program should compile");
    let gx = m
        .globals
        .iter()
        .find(|g| g.name == "x")
        .expect("global x exists");
    match &gx.kind {
        GlobalKind::Var { ty, init } => {
            assert_eq!(*ty, BasicType::I16);
            assert_eq!(
                *init,
                ValueRef::ConstInt {
                    ty: BasicType::I16,
                    bits: 3
                }
            );
        }
        _ => panic!("x is not a variable"),
    }
    let print_i = m.get_function(&"print__i__".to_string()).unwrap();
    let mut found = false;
    for f in &m.functions {
        for i in all_instrs(f) {
            if let Instr::Call { callee, args, .. } = i {
                if *callee == print_i {
                    assert_eq!(args.len(), 1);
                    assert_eq!(args[0].get_ty(), BasicType::I16);
                    found = true;
                }
            }
        }
    }
    assert!(found, "no call to print__i__ emitted");
}

/// `def add(a: int, b: int) -> int: return a + b`: an internal
/// `add(i16, i16) -> i16` whose body loads both parameters, adds, and
/// returns the sum.
#[test]
fn function_add() {
    let statements = vec![def(
        "add",
        vec![param("a", "int"), param("b", "int")],
        vec![stmt(StatementType::Return {
            value: Some(expr(ExpressionType::Binop {
                a: Box::new(ident("a")),
                op: Operator::Add,
                b: Box::new(ident("b")),
            })),
        })],
        Some("int"),
    )];
    let m = compile(statements).expect("program should compile");
    let f = find_fn(&m, "add");
    assert_eq!(f.linkage, Linkage::Internal);
    assert_eq!(f.params, vec![BasicType::I16, BasicType::I16]);
    assert_eq!(f.ret, Some(BasicType::I16));
    let instrs = all_instrs(f);
    let loads = instrs
        .iter()
        .filter(|i| matches!(i, Instr::Load { .. }))
        .count();
    assert!(loads >= 2, "both parameters are loaded");
    assert!(instrs
        .iter()
        .any(|i| matches!(i, Instr::IntBin { op: IntBinOp::Add, ty: BasicType::I16, .. })));
    let rets = f
        .blocks
        .iter()
        .filter_map(|b| b.terminator.as_ref())
        .filter(|t| matches!(t, Terminator::Ret { value: Some(_) }))
        .count();
    assert!(rets >= 1, "the sum is returned");
}

/// `def setup() -> None: pin_mode(13, 1)`: external linkage for the entry
/// point, one call to `pin_mode` whose i16 literal arguments were resized to
/// the declared i8 parameters.
#[test]
fn setup_pin_mode() {
    let statements = vec![def(
        "setup",
        vec![],
        vec![stmt(StatementType::Expression {
            expression: call("pin_mode", vec![int_lit(13), int_lit(1)]),
        })],
        None,
    )];
    let m = compile(statements).expect("program should compile");
    let f = find_fn(&m, "setup");
    assert_eq!(f.linkage, Linkage::External);
    assert_eq!(f.ret, None);
    let pin_mode = m.get_function(&"pin_mode".to_string()).unwrap();
    let instrs = all_instrs(f);
    let truncs = instrs
        .iter()
        .filter(|i| matches!(i, Instr::IntResize { to: BasicType::I8, .. }))
        .count();
    assert_eq!(truncs, 2, "both literals are truncated to i8");
    let calls: Vec<_> = instrs
        .iter()
        .filter_map(|i| match i {
            Instr::Call { callee, args, .. } if *callee == pin_mode => Some(args),
            _ => None,
        })
        .collect();
    assert_eq!(calls.len(), 1, "a single call to pin_mode");
    assert_eq!(calls[0].len(), 2);
    assert_eq!(calls[0][0].get_ty(), BasicType::I8);
    assert_eq!(calls[0][1].get_ty(), BasicType::I8);
}

/// A call to the undefined name `foo` fails with `NameError("foo")` citing
/// the call site's line and column.
#[test]
fn undefined_name_cites_location() {
    let statements = vec![Statement {
        location: loc(3, 7),
        node: StatementType::Expression {
            expression: expr_at(
                3,
                7,
                ExpressionType::Call {
                    function: Box::new(expr_at(
                        3,
                        7,
                        ExpressionType::Identifier {
                            name: "foo".to_string(),
                        },
                    )),
                    args: vec![],
                },
            ),
        },
    }];
    let e = compile(statements).expect_err("foo is not defined");
    assert_eq!(e.error, LLVMCompileErrorType::NameError("foo".to_string()));
    assert_eq!(e.location, Some(loc(3, 7)));
}

/// `def f() -> int: return 1.0` fails with a type error: expected i16,
/// found float.
#[test]
fn return_type_mismatch() {
    let statements = vec![def(
        "f",
        vec![],
        vec![stmt(StatementType::Return {
            value: Some(expr(ExpressionType::Number {
                value: Number::Float {
                    bits: 1.0f32.to_bits(),
                },
            })),
        })],
        Some("int"),
    )];
    let e = compile(statements).expect_err("float returned from an int function");
    assert_eq!(
        e.error,
        LLVMCompileErrorType::TypeError("i16".to_string(), "float".to_string())
    );
}

/// `while 1:` over four hardware calls, inside the `loop` entry point: the
/// loop header ends in a branch on the constant-true condition, and the body
/// holds the four calls and the back edge to the header.
#[test]
fn blink_loop() {
    let body = vec![stmt(StatementType::While {
        test: int_lit(1),
        body: vec![
            stmt(StatementType::Expression {
                expression: call("digital_write", vec![int_lit(13), int_lit(1)]),
            }),
            stmt(StatementType::Expression {
                expression: call("delay", vec![int_lit(500)]),
            }),
            stmt(StatementType::Expression {
                expression: call("digital_write", vec![int_lit(13), int_lit(0)]),
            }),
            stmt(StatementType::Expression {
                expression: call("delay", vec![int_lit(500)]),
            }),
        ],
        orelse: None,
    })];
    let statements = vec![def("loop", vec![], body, None)];
    let m = compile(statements).expect("program should compile");
    let f = find_fn(&m, "loop");
    assert_eq!(f.linkage, Linkage::External);
    // find the header: a block ending in a conditional branch on true
    let (header_idx, body_idx) = f
        .blocks
        .iter()
        .enumerate()
        .find_map(|(i, b)| match b.terminator {
            Some(Terminator::CondBr {
                cond:
                    ValueRef::ConstInt {
                        ty: BasicType::I1,
                        bits: 1,
                    },
                then_target,
                ..
            }) => Some((i, then_target)),
            _ => None,
        })
        .expect("a constant-true conditional branch");
    let body_block = &f.blocks[body_idx];
    let calls = body_block
        .instrs
        .iter()
        .filter(|i| matches!(i, Instr::Call { .. }))
        .count();
    assert_eq!(calls, 4, "four runtime calls in the loop body");
    assert_eq!(
        body_block.terminator,
        Some(Terminator::Br {
            target: header_idx
        }),
        "the body branches back to the header"
    );
}

/// Name resolution is local-then-global: a local binding shadows a global of
/// the same name without mutating the global.
#[test]
fn local_shadows_global() {
    let statements = vec![
        stmt(StatementType::Assign {
            targets: vec![ident("x")],
            value: int_lit(1),
        }),
        def(
            "f",
            vec![],
            vec![
                stmt(StatementType::Assign {
                    targets: vec![ident("x")],
                    value: int_lit(2),
                }),
                stmt(StatementType::Return {
                    value: Some(ident("x")),
                }),
            ],
            Some("int"),
        ),
    ];
    let m = compile(statements).expect("program should compile");
    let gx = m.globals.iter().find(|g| g.name == "x").unwrap();
    match &gx.kind {
        GlobalKind::Var { init, .. } => assert_eq!(
            *init,
            ValueRef::ConstInt {
                ty: BasicType::I16,
                bits: 1
            },
            "the global keeps its own initializer"
        ),
        _ => panic!("x is not a variable"),
    }
    let f = find_fn(&m, "f");
    let instrs = all_instrs(f);
    assert!(
        instrs.iter().any(|i| matches!(i, Instr::Alloca { .. })),
        "the shadowing binding allocates its own local slot"
    );
    assert!(
        instrs.iter().any(|i| matches!(
            i,
            Instr::Load {
                ptr: dspython::ir::Ptr::Local { .. },
                ..
            }
        )),
        "the read goes through the local slot"
    );
}

/// Identical string literals intern to a single read-only global.
#[test]
fn string_interning() {
    let statements = vec![def(
        "setup",
        vec![],
        vec![
            stmt(StatementType::Expression {
                expression: call(
                    "print",
                    vec![expr(ExpressionType::Str {
                        value: StringGroup::Constant {
                            value: "hi".to_string(),
                        },
                    })],
                ),
            }),
            stmt(StatementType::Expression {
                expression: call(
                    "println",
                    vec![expr(ExpressionType::Str {
                        value: StringGroup::Constant {
                            value: "hi".to_string(),
                        },
                    })],
                ),
            }),
        ],
        None,
    )];
    let m = compile(statements).expect("program should compile");
    let count = m
        .globals
        .iter()
        .filter(|g| matches!(&g.kind, GlobalKind::Text { data } if data == "hi"))
        .count();
    assert_eq!(count, 1, "one interned copy of the contents");
}

/// `if x:` on an integer compiles to exactly the IR of `if x != 0:`.
#[test]
fn truthiness_matches_explicit_compare() {
    let make = |test: Expression| {
        vec![def(
            "t",
            vec![param("x", "int")],
            vec![stmt(StatementType::If {
                test,
                body: vec![stmt(StatementType::Return {
                    value: Some(int_lit(1)),
                })],
                orelse: None,
            })],
            Some("int"),
        )]
    };
    let by_truth = compile(make(ident("x"))).expect("compiles");
    let by_compare = compile(make(expr(ExpressionType::Compare {
        vals: vec![ident("x"), int_lit(0)],
        ops: vec![Comparison::NotEqual],
    })))
    .expect("compiles");
    assert_eq!(by_truth, by_compare, "identical modules");
}

/// Float comparisons use the ordered predicates.
#[test]
fn float_compare_is_ordered() {
    let statements = vec![def(
        "h",
        vec![param("a", "float"), param("b", "float")],
        vec![stmt(StatementType::If {
            test: expr(ExpressionType::Compare {
                vals: vec![ident("a"), ident("b")],
                ops: vec![Comparison::Less],
            }),
            body: vec![stmt(StatementType::Return {
                value: Some(int_lit(1)),
            })],
            orelse: None,
        })],
        Some("int"),
    )];
    let m = compile(statements).expect("program should compile");
    let f = find_fn(&m, "h");
    assert!(all_instrs(f)
        .iter()
        .any(|i| matches!(i, Instr::FCmp { pred: FloatPredicate::OLT, .. })));
}

/// Integer `//` emits signed division; integer `/` promotes to float and
/// divides as float.
#[test]
fn division_operators() {
    let fdiv = vec![def(
        "q",
        vec![param("a", "int"), param("b", "int")],
        vec![stmt(StatementType::Return {
            value: Some(expr(ExpressionType::Binop {
                a: Box::new(ident("a")),
                op: Operator::FloorDiv,
                b: Box::new(ident("b")),
            })),
        })],
        Some("int"),
    )];
    let m = compile(fdiv).expect("program should compile");
    assert!(all_instrs(find_fn(&m, "q"))
        .iter()
        .any(|i| matches!(i, Instr::IntBin { op: IntBinOp::SDiv, .. })));

    let truediv = vec![def(
        "r",
        vec![param("a", "int"), param("b", "int")],
        vec![stmt(StatementType::Return {
            value: Some(expr(ExpressionType::Binop {
                a: Box::new(ident("a")),
                op: Operator::Div,
                b: Box::new(ident("b")),
            })),
        })],
        Some("float"),
    )];
    let m2 = compile(truediv).expect("program should compile");
    let instrs = all_instrs(find_fn(&m2, "r"));
    assert!(instrs
        .iter()
        .any(|i| matches!(i, Instr::FloatBin { op: dspython::ir::FloatBinOp::FDiv, .. })));
    assert_eq!(
        instrs
            .iter()
            .filter(|i| matches!(i, Instr::SiToFp { .. }))
            .count(),
        2,
        "both integer operands are promoted"
    );
}

/// The compiled module is well formed: every call's argument types match the
/// callee's declared parameters, every local read has a store in the same
/// function, and every block has exactly one terminator.
#[test]
fn module_well_formed() {
    let statements = vec![
        def(
            "setup",
            vec![],
            vec![stmt(StatementType::Expression {
                expression: call("pin_mode", vec![int_lit(13), int_lit(1)]),
            })],
            None,
        ),
        def(
            "loop",
            vec![],
            vec![stmt(StatementType::While {
                test: int_lit(1),
                body: vec![stmt(StatementType::Expression {
                    expression: call("delay", vec![int_lit(500)]),
                })],
                orelse: None,
            })],
            None,
        ),
    ];
    let m = compile(statements).expect("program should compile");
    for f in &m.functions {
        let mut stored: Vec<usize> = Vec::new();
        for b in &f.blocks {
            for i in &b.instrs {
                if let Instr::Store {
                    ptr: dspython::ir::Ptr::Local { reg },
                    ..
                } = i
                {
                    stored.push(*reg);
                }
            }
        }
        for b in &f.blocks {
            // every finished block has exactly one terminator
            assert!(b.terminator.is_some(), "unterminated block in {}", f.name);
            for i in &b.instrs {
                match i {
                    Instr::Call { callee, args, .. } => {
                        let target = &m.functions[*callee];
                        assert_eq!(args.len(), target.params.len());
                        for (a, p) in args.iter().zip(target.params.iter()) {
                            assert_eq!(a.get_ty(), *p, "argument type matches parameter");
                        }
                    }
                    Instr::Load {
                        ptr: dspython::ir::Ptr::Local { reg },
                        ..
                    } => {
                        assert!(stored.contains(reg), "local read preceded by a store");
                    }
                    _ => {}
                }
            }
        }
    }
}
