//! Statement emission: assignment, control flow, function definitions.

use vstd::prelude::*;

use crate::arith::value_type_name;
use crate::ast::Expression;
use crate::ast::ExpressionType;
use crate::ast::Statement;
use crate::codegen::emit_frame;
use crate::codegen::expr_frame;
use crate::codegen::is_entry_of_cur;
use crate::codegen::is_pos;
use crate::codegen::lemma_emit_frame_trans;
use crate::codegen::CodeGen;
use crate::codegen::Cursor;
use crate::convert::spec_constant_string;
use crate::convert::try_get_constant_string;
use crate::errors::LLVMCompileError;
use crate::errors::LLVMCompileErrorType;
use crate::ir::Function;
use crate::ir::GlobalKind;
use crate::ir::Instr;
use crate::ir::Ptr;
use crate::ir::Terminator;
use crate::ir::ValueRef;
use crate::scope::LLVMVariable;
use crate::value::ValueType;

verus! {

/// What one statement may do to the emitter, beyond an emission step: in
/// function scope the module-wide globals are untouched (a local shadowing a
/// global never mutates the global) and no function appears or disappears;
/// the scope depth is kept; at module scope the `returned` flag stays clear;
/// and the cursor block is open exactly when the statement did not end in a
/// terminal `return`.
pub open spec fn stmt_frame(o: CodeGen, n: CodeGen) -> bool {
    &&& emit_frame(o, n)
    &&& (o.fn_value is Some ==> n.globals == o.globals)
    &&& n.locals.depth() == o.locals.depth()
    &&& (o.fn_value is None ==> n.compile_context.returned == false)
    &&& (n.cursor matches Some(c) ==> (n.module.open_at(c.fid, c.bid)
        <==> !n.compile_context.returned))
}

/// A statement step leaves a state where it left it.
pub proof fn lemma_stmt_frame_refl(x: CodeGen)
    requires
        x.inv(),
        !x.compile_context.returned,
        (x.cursor matches Some(c) ==> x.module.open_at(c.fid, c.bid)),
    ensures
        stmt_frame(x, x),
{
    crate::ir::lemma_module_extends_refl(x.module);
}

/// Statement frames compose.
pub proof fn lemma_stmt_frame_trans(a: CodeGen, b: CodeGen, c: CodeGen)
    requires
        stmt_frame(a, b),
        stmt_frame(b, c),
        (a.cursor matches Some(ca) ==> a.module.valid_pos(ca.fid, ca.bid)),
        (b.cursor matches Some(cb) ==> b.module.valid_pos(cb.fid, cb.bid)),
    ensures
        stmt_frame(a, c),
{
    lemma_emit_frame_trans(a, b, c);
}

/// An expression step within a statement is a statement step that leaves the
/// `returned` flag clear.
pub proof fn lemma_expr_step_is_stmt_step(o: CodeGen, n: CodeGen)
    requires
        expr_frame(o, n),
        o.inv(),
        n.inv(),
        !o.compile_context.returned,
        (o.cursor matches Some(c) ==> o.module.open_at(c.fid, c.bid)),
    ensures
        stmt_frame(o, n),
{
}

/// Whether a statement is a bare constant-string expression: such a leading
/// statement is a documentation literal, discarded rather than compiled.
pub open spec fn spec_is_docstring(stmt: Statement) -> bool {
    match stmt.node {
        crate::ast::StatementType::Expression { expression } => match expression.node {
            ExpressionType::Str { value } => spec_constant_string(value) is Some,
            _ => false,
        },
        _ => false,
    }
}

/// Where compilation of a suite starts: past a leading documentation
/// literal, if there is one.
pub open spec fn doc_skip(body: Seq<Statement>) -> int {
    if body.len() > 0 && spec_is_docstring(body[0]) {
        1
    } else {
        0
    }
}

/// Split a leading documentation literal off a statement suite: the returned
/// index is where compilation starts, and the string is the documentation's
/// contents if there was any.
pub fn get_doc(body: &Vec<Statement>) -> (r: (usize, Option<String>))
    ensures
        r.0 as int == doc_skip(body@),
        (r.1 is Some <==> r.0 == 1),
        (match r.1 {
            Some(doc) => body@.len() > 0 && match body@[0].node {
                crate::ast::StatementType::Expression { expression } => match expression.node {
                    ExpressionType::Str { value } => spec_constant_string(value) == Some(doc@),
                    _ => false,
                },
                _ => false,
            },
            None => true,
        }),
{
    if body.len() > 0 {
        match &body[0].node {
            crate::ast::StatementType::Expression { expression } => match &expression.node {
                ExpressionType::Str { value } => match try_get_constant_string(value) {
                    Some(doc) => (1, Some(doc)),
                    None => (0, None),
                },
                _ => (0, None),
            },
            _ => (0, None),
        }
    } else {
        (0, None)
    }
}

impl CodeGen {
    /// Emit an assignment to a single name.
    ///
    /// In function scope the first binding of a name allocates a stack slot
    /// in the entry block and later bindings reuse it; rebinding at a
    /// different type is a type error; the module-wide globals are never
    /// touched.  At module scope the value must be a constant and becomes
    /// the initializer of a fresh internal global cell.
    pub fn compile_stmt_assign(&mut self, target: &Expression, value: &Expression) -> (r: Result<
        (),
        LLVMCompileError,
    >)
        requires
            old(self).inv(),
            !old(self).compile_context.returned,
            (old(self).cursor matches Some(c) ==> old(self).module.open_at(c.fid, c.bid)),
        ensures
            final(self).inv(),
            match r {
                Ok(_) => {
                    &&& stmt_frame(*old(self), *final(self))
                    &&& final(self).compile_context.returned == false
                    &&& match target.node {
                        ExpressionType::Identifier { .. } => {
                            let name = target.node->Identifier_name;
                            &&& (old(self).fn_value is Some ==> {
                                &&& (final(self).locals.spec_load(name@) matches Some(var2) && (
                                var2.pointer matches Ptr::Local { .. }))
                                // the single appended store goes through the
                                // binding's own slot
                                &&& (crate::cgexpr::last_instr(*final(self)) matches Some(i) && i
                                    matches Instr::Store { ptr, .. } && ptr == final(self).locals.spec_load(name@)->Some_0.pointer)
                                // rebinding reuses the existing slot and keeps
                                // the symbol's type
                                &&& (old(self).locals.spec_load(name@) matches Some(var)
                                    ==> final(self).locals.spec_load(name@) == Some(var))
                                &&& (forall|other: Seq<char>|
                                    other != name@ ==> #[trigger] final(self).locals.spec_load(
                                        other,
                                    ) == old(self).locals.spec_load(other))
                            })
                            &&& (old(self).fn_value is None ==> {
                                &&& final(self).globals.spec_load(name@) is Some
                                // a symbol's type never changes after creation
                                &&& (old(self).globals.spec_load(name@) matches Some(var)
                                    ==> final(self).globals.spec_load(name@)->Some_0.value_type == var.value_type)
                                // the binding names a fresh global cell of the
                                // module, with a constant initializer
                                &&& (exists|g: int|
                                    old(self).module.globals.len() <= g
                                        < final(self).module.globals.len() && (#[trigger] final(self).module.globals[g]).name@
                                        == name@ && (final(self).module.globals[g].kind matches
                                        GlobalKind::Var { .. }))
                                &&& (forall|other: Seq<char>|
                                    other != name@ ==> #[trigger] final(self).globals.spec_load(
                                        other,
                                    ) == old(self).globals.spec_load(other))
                            })
                        },
                        _ => false,
                    }
                },
                Err(e) => {
                    &&& e.location is Some
                    &&& (!(target.node matches ExpressionType::Identifier { .. })
                        ==> e.error matches LLVMCompileErrorType::NotImplemented(_))
                },
            },
    {
        let name = match &target.node {
            ExpressionType::Identifier { name } => name,
            _ => {
                return Err(
                    self.err_here(
                        LLVMCompileErrorType::NotImplemented(
                            "Failed to get assignee.".to_owned(),
                        ),
                    ),
                );
            },
        };
        let v = self.compile_expr(value)?;
        let ghost s1 = *self;
        let vt = v.get_type();
        if vt.is_void() {
            return Err(
                self.err_here(
                    LLVMCompileErrorType::TypeError("value".to_owned(), "void".to_owned()),
                ),
            );
        }
        match self.fn_value {
            Some(_) => {
                let c = match self.cursor {
                    Some(c) => c,
                    None => {
                        return Err(
                            self.err_here(
                                LLVMCompileErrorType::NotImplemented(
                                    "No insertion point".to_owned(),
                                ),
                            ),
                        );
                    },
                };
                let existing = self.locals.load(name);
                let ptr = match existing {
                    Some(var) => {
                        if !(var.value_type == vt) {
                            return Err(
                                self.err_here(
                                    LLVMCompileErrorType::TypeError(
                                        value_type_name(var.value_type).to_owned(),
                                        value_type_name(vt).to_owned(),
                                    ),
                                ),
                            );
                        }
                        proof {
                            // a resolved local binding names a stored Local slot
                            crate::scope::lemma_lookup_found(self.locals.active(), name@);
                        }
                        var.pointer
                    },
                    None => {
                        let reg = self.w_alloca(c, vt.to_basic_type())?;
                        Ptr::Local { reg }
                    },
                };
                let ghost s2 = *self;
                let h = v.to_basic_value();
                self.w_store(c, ptr, h);
                let ghost s3 = *self;
                self.bind_local(name, vt, ptr);
                proof {
                    crate::cgexpr::lemma_expr_frame_trans(*old(self), s1, s2);
                    crate::cgexpr::lemma_expr_frame_trans(*old(self), s2, s3);
                    assert(emit_frame(*old(self), *self));
                }
                Ok(())
            },
            None => {
                match self.globals.load(name) {
                    Some(var) => {
                        // a symbol's type never changes after creation
                        if !(var.value_type == vt) {
                            return Err(
                                self.err_here(
                                    LLVMCompileErrorType::TypeError(
                                        value_type_name(var.value_type).to_owned(),
                                        value_type_name(vt).to_owned(),
                                    ),
                                ),
                            );
                        }
                    },
                    None => {},
                }
                let h = v.to_basic_value();
                if !h.constant() {
                    return Err(
                        self.err_here(
                            LLVMCompileErrorType::NotImplemented(
                                "Global initializers must be constant expressions.".to_owned(),
                            ),
                        ),
                    );
                }
                let gid = self.module.add_global_var(name.clone(), vt.to_basic_type(), h);
                let ghost s2 = *self;
                self.globals.set(name, LLVMVariable { value_type: vt, pointer: Ptr::Global { id: gid } });
                proof {
                    // adding a global cell is an expression-sized step
                    assert(expr_frame(s1, s2));
                    crate::cgexpr::lemma_expr_frame_trans(*old(self), s1, s2);
                    // the refreshed table still names non-void global cells
                    assert forall|i: int| 0 <= i < self.globals@.len() implies (
                    #[trigger] self.globals@[i]).1.value_type != ValueType::Void && (
                    self.globals@[i].1.pointer matches Ptr::Global { .. }) by {
                        if i > 0 {
                            assert(self.globals@[i] == s2.globals@[i - 1]);
                        }
                    }
                }
                Ok(())
            },
        }
    }
}


/// The suite holds a top-level `return`, so its emission ends in a terminal
/// return instead of falling through.
pub open spec fn suite_returns(body: Seq<Statement>, start: int) -> bool {
    exists|i: int| start <= i < body.len() && (#[trigger] body[i].node) is Return
}

/// A top-level statement's footprint in the finished module: a function
/// definition leaves a function with the annotation-derived signature and
/// the entry-point linkage rule, and a module-level assignment leaves a
/// mutable global cell under the target's name.
pub open spec fn stmt_reflected(m: crate::ir::Module, s: Statement) -> bool {
    match s.node {
        crate::ast::StatementType::FunctionDef { name, args, returns: anns, .. } => exists|fi: int|
            0 <= fi < m.functions.len() && (#[trigger] m.functions[fi]).name@ == name@
                && m.functions[fi].params@.len() == args@.len() && (forall|j: int|
                0 <= j < args@.len() ==> Some(#[trigger] m.functions[fi].params@[j])
                    == spec_annotation_ty(args@[j])) && Some(m.functions[fi].ret)
                == spec_return_ty(anns) && m.functions[fi].linkage == (if name@ == "setup"@
                || name@ == "loop"@ {
                crate::ir::Linkage::External
            } else {
                crate::ir::Linkage::Internal
            }),
        crate::ast::StatementType::Assign { targets, .. } => targets@.len() == 1
            ==> match targets@[0].node {
            ExpressionType::Identifier { name } => exists|g: int|
                0 <= g < m.globals.len() && (#[trigger] m.globals[g]).name@ == name@ && (
                m.globals[g].kind matches GlobalKind::Var { .. }),
            _ => true,
        },
        _ => true,
    }
}

/// A statement's footprint survives any growth of the module.
pub proof fn lemma_reflected_monotone(o: crate::ir::Module, n: crate::ir::Module, s: Statement)
    requires
        stmt_reflected(o, s),
        crate::ir::Module::extends(o, n),
    ensures
        stmt_reflected(n, s),
{
    match s.node {
        crate::ast::StatementType::FunctionDef { name, args, returns: anns, .. } => {
            let fi = choose|fi: int|
                0 <= fi < o.functions.len() && (#[trigger] o.functions[fi]).name@ == name@
                    && o.functions[fi].params@.len() == args@.len() && (forall|j: int|
                    0 <= j < args@.len() ==> Some(#[trigger] o.functions[fi].params@[j])
                        == spec_annotation_ty(args@[j])) && Some(o.functions[fi].ret)
                    == spec_return_ty(anns) && o.functions[fi].linkage == (if name@ == "setup"@
                    || name@ == "loop"@ {
                    crate::ir::Linkage::External
                } else {
                    crate::ir::Linkage::Internal
                });
            assert(Function::extends(o.functions[fi], n.functions[fi]));
            assert(n.functions[fi].params@ == o.functions[fi].params@);
        },
        crate::ast::StatementType::Assign { targets, .. } => {
            if targets@.len() == 1 {
                match targets@[0].node {
                    ExpressionType::Identifier { name } => {
                        let g = choose|g: int|
                            0 <= g < o.globals.len() && (#[trigger] o.globals[g]).name@ == name@
                                && (o.globals[g].kind matches GlobalKind::Var { .. });
                        assert(n.globals[g] == o.globals[g]);
                    },
                    _ => {},
                }
            }
        },
        _ => {},
    }
}

/// What emitting one branch arm does: the module only grows, nothing outside
/// the arm's block chain changes, the arm block ends terminated, every block
/// created along the way ends terminated, and the `returned` flag is left
/// clear for the join point.
pub open spec fn arm_post(o: CodeGen, n: CodeGen, f: usize, arm_bb: usize) -> bool {
    &&& crate::ir::Module::extends(o.module, n.module)
    &&& n.fn_value == o.fn_value
    &&& n.mi_cursor == o.mi_cursor
    &&& n.module.functions.len() == o.module.functions.len()
    &&& n.globals == o.globals
    &&& n.locals.depth() == o.locals.depth()
    &&& n.compile_context.returned == false
    &&& forall|fi: int, bi: int|
        0 <= fi < o.module.functions.len() && 0 <= bi < o.module.functions[fi].blocks.len() && !(fi
            == f as int && bi == arm_bb as int) && !is_entry_of_cur(o, fi, bi)
            ==> #[trigger] n.module.functions[fi].blocks[bi] == o.module.functions[fi].blocks[bi]
    &&& n.module.functions[f as int].blocks[arm_bb as int].terminated()
    &&& forall|fi: int, bi: int|
        0 <= fi < n.module.functions.len() && 0 <= bi < n.module.functions[fi].blocks.len() && !(fi
            < o.module.functions.len() && bi < o.module.functions[fi].blocks.len()) ==> (
        #[trigger] n.module.functions[fi].blocks[bi]).terminated()
}

impl CodeGen {
    /// Emit the statements of a suite in order, stopping after a terminal
    /// `return`.
    pub fn emit_suite(&mut self, body: &Vec<Statement>, start: usize) -> (r: Result<
        (),
        LLVMCompileError,
    >)
        requires
            old(self).inv(),
            !old(self).compile_context.returned,
            (old(self).cursor matches Some(c) ==> old(self).module.open_at(c.fid, c.bid)),
            start <= body@.len(),
        ensures
            final(self).inv(),
            r is Ok ==> stmt_frame(*old(self), *final(self))
                && (final(self).compile_context.returned <==> suite_returns(body@, start as int)),
            (r matches Err(e) ==> e.location is Some),
        decreases *body, 1int,
    {
        let n = body.len();
        let mut i = start;
        proof {
            lemma_stmt_frame_refl(*old(self));
            assert(body@.take(n as int) =~= body@);
        }
        while i < n
            invariant
                old(self).inv(),
                !old(self).compile_context.returned,
                (old(self).cursor matches Some(c) ==> old(self).module.open_at(c.fid, c.bid)),
                self.inv(),
                stmt_frame(*old(self), *self),
                n == body.len(),
                start <= i <= n,
                body@.take(n as int) == body@,
                (self.compile_context.returned <==> suite_returns(body@.take(i as int), start as int)),
            ensures
                (self.compile_context.returned <==> suite_returns(body@, start as int)),
            decreases n - i,
        {
            if self.compile_context.returned {
                proof {
                    let j = choose|j: int|
                        start <= j < body@.take(i as int).len() && (#[trigger] body@.take(
                            i as int,
                        )[j].node) is Return;
                    assert(body@.take(i as int)[j] == body@[j]);
                    assert(suite_returns(body@, start as int)) by {
                        assert(start as int <= j < body@.len() && (#[trigger] body@[j].node)
                            is Return);
                    }
                }
                break;
            }
            proof {
                vstd::std_specs::vec::axiom_vec_index_decreases(*body, i as int);
            }
            let ghost pre = *self;
            self.compile_stmt(&body[i])?;
            proof {
                lemma_stmt_frame_trans(*old(self), pre, *self);
                assert forall|j: int| 0 <= j < i + 1 implies #[trigger] body@.take(
                    i as int + 1,
                )[j] == body@[j] by {}
                if self.compile_context.returned {
                    assert((body@.take(i as int + 1)[i as int].node) is Return);
                    assert(suite_returns(body@.take(i as int + 1), start as int));
                } else {
                    assert forall|j: int|
                        start <= j < i + 1 implies !((#[trigger] body@.take(i as int + 1)[j].node)
                        is Return) by {
                        if j < i {
                            assert(body@.take(i as int)[j] == body@[j]);
                            if (body@.take(i as int)[j].node) is Return {
                                assert(suite_returns(body@.take(i as int), start as int));
                                assert(false);
                            }
                        }
                    }
                }
            }
            i += 1;
        }
        Ok(())
    }

    /// Emit one branch arm: position at its (fresh, open) block, emit the
    /// suite, and branch to the join point unless the arm ended in a
    /// terminal `return`.
    fn emit_arm(&mut self, f: usize, arm_bb: usize, exit_bb: usize, body: &Vec<Statement>) -> (r:
        Result<bool, LLVMCompileError>)
        requires
            old(self).inv(),
            old(self).fn_value == Some(f),
            old(self).module.open_at(f, arm_bb),
            exit_bb < old(self).module.functions[f as int].blocks.len(),
            !old(self).compile_context.returned,
        ensures
            final(self).inv(),
            match r {
                Ok(fell) => {
                    &&& arm_post(*old(self), *final(self), f, arm_bb)
                    // the arm falls through to the join point exactly when
                    // its suite holds no terminal return
                    &&& (fell <==> !suite_returns(body@, 0))
                    &&& (fell ==> exists|bi: int|
                        0 <= bi < final(self).module.functions[f as int].blocks.len() && (
                        #[trigger] final(self).module.functions[f as int].blocks[bi]).terminator
                            == Some(Terminator::Br { target: exit_bb }))
                },
                Err(e) => e.location is Some,
            },
        decreases *body, 2int,
    {
        self.position_at_end(Cursor { fid: f, bid: arm_bb });
        let ghost a0 = *self;
        self.emit_suite(body, 0)?;
        let ghost s = *self;
        let fell = !self.compile_context.returned;
        if fell {
            let cc = match self.cursor {
                Some(cc) => cc,
                None => {
                    return Err(
                        self.err_here(
                            LLVMCompileErrorType::NotImplemented(
                                "No insertion point".to_owned(),
                            ),
                        ),
                    );
                },
            };
            self.terminate_cursor(cc, Terminator::Br { target: exit_bb });
            proof {
                assert(self.module.functions[f as int].blocks[cc.bid as int].terminator == Some(
                    Terminator::Br { target: exit_bb },
                ));
            }
        }
        self.compile_context.returned = false;
        proof {
            let o = *old(self);
            let n = *self;
            crate::ir::lemma_extends_trans(o.module, s.module, n.module);
            // blocks outside the arm chain are untouched
            assert forall|fi: int, bi: int|
                0 <= fi < o.module.functions.len() && 0 <= bi < o.module.functions[fi].blocks.len()
                    && !(fi == f as int && bi == arm_bb as int) && !is_entry_of_cur(o, fi, bi)
                    implies #[trigger] n.module.functions[fi].blocks[bi]
                == o.module.functions[fi].blocks[bi] by {
                assert(!is_pos(a0.cursor, fi, bi));
                assert(!is_entry_of_cur(a0, fi, bi));
                assert(s.module.functions[fi].blocks[bi] == o.module.functions[fi].blocks[bi]);
                if !s.compile_context.returned {
                    match s.cursor {
                        Some(cc) => {
                            if cc.fid as int == fi && cc.bid as int == bi {
                                // the suite cursor is the arm block or fresh
                                assert(is_pos(a0.cursor, cc.fid as int, cc.bid as int)
                                    || !a0.module.valid_pos(cc.fid, cc.bid));
                                assert(false);
                            }
                        },
                        None => {},
                    }
                }
            }
            // the arm block ends terminated
            assert(n.module.functions[f as int].blocks[arm_bb as int].terminated()) by {
                if is_pos(s.cursor, f as int, arm_bb as int) {
                    if s.compile_context.returned {
                        assert(!s.module.open_at(f, arm_bb));
                    } else {
                        assert(n.module.functions[f as int].blocks[arm_bb as int].terminator
                            is Some);
                    }
                } else {
                    // the suite moved on, terminating the arm block
                    assert(s.module.functions[f as int].blocks[arm_bb as int].terminated());
                    assert(Function::extends(
                        s.module.functions[f as int],
                        n.module.functions[f as int],
                    ));
                }
            }
            // every block created along the way ends terminated
            assert forall|fi: int, bi: int|
                0 <= fi < n.module.functions.len() && 0 <= bi < n.module.functions[fi].blocks.len()
                    && !(fi < o.module.functions.len() && bi
                    < o.module.functions[fi].blocks.len()) implies (
            #[trigger] n.module.functions[fi].blocks[bi]).terminated() by {
                assert(fi < s.module.functions.len() && bi < s.module.functions[fi].blocks.len());
                if is_pos(s.cursor, fi, bi) {
                    if s.compile_context.returned {
                        match s.cursor {
                            Some(cc) => {
                                assert(!s.module.open_at(cc.fid, cc.bid));
                                assert(Function::extends(
                                    s.module.functions[fi],
                                    n.module.functions[fi],
                                ));
                            },
                            None => {},
                        }
                    } else {
                        match s.cursor {
                            Some(cc) => {
                                assert(n.module.functions[cc.fid as int].blocks[cc.bid as int].terminator
                                    is Some);
                            },
                            None => {},
                        }
                    }
                } else {
                    assert(s.module.functions[fi].blocks[bi].terminated());
                    assert(Function::extends(s.module.functions[fi], n.module.functions[fi]));
                }
            }
        }
        Ok(fell)
    }

    /// Emit one statement.
    ///
    /// `return` is rejected outside a function and marks the block as
    /// returned inside one; assignment handles exactly one target; `from X
    /// import ...` is accepted only for the hardware library module (a name
    /// containing "arduino", or "uno"); `if` and `while` exist only inside a
    /// function; statement forms outside the subset are rejected.
    pub fn compile_stmt(&mut self, stmt: &Statement) -> (r: Result<(), LLVMCompileError>)
        requires
            old(self).inv(),
            !old(self).compile_context.returned,
            (old(self).cursor matches Some(c) ==> old(self).module.open_at(c.fid, c.bid)),
        ensures
            final(self).inv(),
            match r {
                Ok(_) => {
                    &&& stmt_frame(*old(self), *final(self))
                    &&& (final(self).compile_context.returned <==> stmt.node matches
                        crate::ast::StatementType::Return { .. })
                    &&& (old(self).fn_value is None ==> stmt_reflected(final(self).module, *stmt))
                    &&& match stmt.node {
                        crate::ast::StatementType::Return { .. } => {
                            &&& old(self).fn_value is Some
                            &&& final(self).compile_context.returned == true
                            // the block that was open now ends in a return;
                            // when it carries a value, `Module::wf` makes that
                            // value's type the function's declared return type
                            &&& (old(self).cursor matches Some(c)
                                && (final(self).module.functions[c.fid as int].blocks[c.bid as int].terminator
                                matches Some(Terminator::Ret { .. })))
                            // a returned float literal is returned as that
                            // exact constant (so it cannot satisfy an integer
                            // return type)
                            &&& (match stmt.node->Return_value {
                                Some(e) => match e.node {
                                    ExpressionType::Number { value: crate::ast::Number::Float { bits } } => (
                                    old(self).cursor matches Some(c2)
                                        && final(self).module.functions[c2.fid as int].blocks[c2.bid as int].terminator
                                        == Some(
                                        Terminator::Ret {
                                            value: Some(ValueRef::ConstFloat { bits }),
                                        },
                                    )),
                                    _ => true,
                                },
                                None => true,
                            })
                        },
                        crate::ast::StatementType::Pass => *final(self) == (CodeGen {
                            loc: stmt.location,
                            ..*old(self)
                        }),
                        crate::ast::StatementType::ImportFrom { .. } => (match stmt.node->ImportFrom_module {
                            Some(m) => crate::mangler::spec_contains(m@, "arduino"@) || m@
                                == "uno"@,
                            None => false,
                        }) && *final(self) == (CodeGen { loc: stmt.location, ..*old(self) }),
                        crate::ast::StatementType::Assign { .. } => stmt.node->Assign_targets@.len()
                            == 1,
                        _ => true,
                    }
                },
                Err(e) => {
                    &&& e.location is Some
                    &&& match stmt.node {
                        crate::ast::StatementType::Return { .. } => old(self).fn_value is None
                            ==> e.error matches LLVMCompileErrorType::SyntaxError(_),
                        crate::ast::StatementType::Pass => false,
                        crate::ast::StatementType::ImportFrom { .. } => !(match stmt.node->ImportFrom_module {
                            Some(m) => crate::mangler::spec_contains(m@, "arduino"@) || m@
                                == "uno"@,
                            None => false,
                        }),
                        crate::ast::StatementType::If { .. } => old(self).fn_value is None
                            ==> e.error matches LLVMCompileErrorType::NotImplemented(_),
                        crate::ast::StatementType::While { .. } => old(self).fn_value is None
                            ==> e.error matches LLVMCompileErrorType::NotImplemented(_),
                        crate::ast::StatementType::Unsupported => e.error matches
                            LLVMCompileErrorType::NotImplemented(_),
                        // tuple unpacking is rejected before the value is
                        // compiled: nothing was emitted
                        crate::ast::StatementType::Assign { .. } => stmt.node->Assign_targets@.len()
                            != 1 ==> (e.error matches LLVMCompileErrorType::NotImplemented(_))
                            && *final(self) == (CodeGen { loc: stmt.location, ..*old(self) }),
                        _ => true,
                    }
                },
            },
        decreases *stmt, 3int,
    {
        self.set_loc(stmt.location);
        match &stmt.node {
            crate::ast::StatementType::Expression { expression } => {
                let _ = self.compile_expr(expression)?;
                proof {
                    lemma_expr_step_is_stmt_step(*old(self), *self);
                }
                Ok(())
            },
            crate::ast::StatementType::FunctionDef { .. } => {
                proof {
                    assert(decreases_to!(*stmt, 3int => *stmt, 2int));
                }
                self.compile_stmt_function_def(stmt)
            },
            crate::ast::StatementType::AnnAssign { target, value } => match value {
                Some(v) => {
                    let res = self.compile_stmt_assign(target, v);
                    match res {
                        Ok(_) => Ok(()),
                        Err(e) => Err(e),
                    }
                },
                None => {
                    proof {
                        lemma_stmt_frame_refl(*self);
                    }
                    Ok(())
                },
            },
            crate::ast::StatementType::Assign { targets, value } => {
                if targets.len() != 1 {
                    return Err(
                        self.err_here(
                            LLVMCompileErrorType::NotImplemented(
                                "Variable unpacking is not implemented.".to_owned(),
                            ),
                        ),
                    );
                }
                let res = self.compile_stmt_assign(&targets[0], value);
                match res {
                    Ok(_) => Ok(()),
                    Err(e) => Err(e),
                }
            },
            crate::ast::StatementType::Return { value } => {
                let f = match self.fn_value {
                    Some(f) => f,
                    None => {
                        return Err(
                            self.err_here(
                                LLVMCompileErrorType::SyntaxError(
                                    "'return' outside function".to_owned(),
                                ),
                            ),
                        );
                    },
                };
                let c = match self.cursor {
                    Some(c) => c,
                    None => {
                        return Err(
                            self.err_here(
                                LLVMCompileErrorType::NotImplemented(
                                    "No insertion point".to_owned(),
                                ),
                            ),
                        );
                    },
                };
                match value {
                    Some(vexpr) => {
                        let rv = self.compile_expr(vexpr)?;
                        let ghost s1 = *self;
                        if rv.get_type().is_void() {
                            self.terminate_cursor(c, Terminator::Ret { value: None });
                        } else {
                            let declared = self.module.functions[f].ret;
                            let h = rv.to_basic_value();
                            match declared {
                                Some(dt) => {
                                    if h.get_ty() == dt {
                                        self.terminate_cursor(
                                            c,
                                            Terminator::Ret { value: Some(h) },
                                        );
                                    } else {
                                        return Err(
                                            self.err_here(
                                                LLVMCompileErrorType::TypeError(
                                                    crate::arith::basic_type_name(dt).to_owned(),
                                                    crate::arith::basic_type_name(
                                                        h.get_ty(),
                                                    ).to_owned(),
                                                ),
                                            ),
                                        );
                                    }
                                },
                                None => {
                                    return Err(
                                        self.err_here(
                                            LLVMCompileErrorType::TypeError(
                                                "void".to_owned(),
                                                crate::arith::basic_type_name(
                                                    h.get_ty(),
                                                ).to_owned(),
                                            ),
                                        ),
                                    );
                                },
                            }
                        }
                        let ghost s2 = *self;
                        self.compile_context.returned = true;
                        proof {
                            lemma_emit_frame_trans(*old(self), s1, s2);
                            assert(emit_frame(*old(self), *self));
                        }
                        Ok(())
                    },
                    None => {
                        self.terminate_cursor(c, Terminator::Ret { value: None });
                        let ghost s2 = *self;
                        self.compile_context.returned = true;
                        proof {
                            assert(emit_frame(*old(self), *self));
                        }
                        Ok(())
                    },
                }
            },
            crate::ast::StatementType::ImportFrom { module } => {
                match module {
                    Some(m) => {
                        if crate::mangler::contains_sub(m.as_str(), "arduino") || *m
                            == "uno".to_owned() {
                            proof {
                                lemma_stmt_frame_refl(*self);
                            }
                            Ok(())
                        } else {
                            Err(
                                self.err_here(
                                    LLVMCompileErrorType::NotImplemented(
                                        "Import is not implemented.".to_owned(),
                                    ),
                                ),
                            )
                        }
                    },
                    None => Err(
                        self.err_here(
                            LLVMCompileErrorType::NotImplemented(
                                "Unknown module name".to_owned(),
                            ),
                        ),
                    ),
                }
            },
            crate::ast::StatementType::If { .. } => {
                proof {
                    assert(decreases_to!(*stmt, 3int => *stmt, 2int));
                }
                self.compile_stmt_conditional(stmt)
            },
            crate::ast::StatementType::While { .. } => {
                proof {
                    assert(decreases_to!(*stmt, 3int => *stmt, 2int));
                }
                self.compile_stmt_while(stmt)
            },
            crate::ast::StatementType::Pass => {
                proof {
                    lemma_stmt_frame_refl(*self);
                }
                Ok(())
            },
            crate::ast::StatementType::Unsupported => Err(
                self.err_here(
                    LLVMCompileErrorType::NotImplemented("Unsupported statement".to_owned()),
                ),
            ),
        }
    }
}


impl CodeGen {
    /// Emit `if` / `elif` / `else`: three fresh blocks (then, else, end),
    /// a conditional branch on the truthiness of the test, both arms each
    /// ending in a branch to the end block unless they returned, and the
    /// cursor left at the open end block.
    pub fn compile_stmt_conditional(&mut self, stmt: &Statement) -> (r: Result<
        (),
        LLVMCompileError,
    >)
        requires
            old(self).inv(),
            !old(self).compile_context.returned,
            (old(self).cursor matches Some(c) ==> old(self).module.open_at(c.fid, c.bid)),
            stmt.node matches crate::ast::StatementType::If { .. },
        ensures
            final(self).inv(),
            (old(self).fn_value is None ==> (r matches Err(e) && e.error matches
                LLVMCompileErrorType::NotImplemented(_))),
            (r matches Err(e2) ==> e2.location is Some),
            r is Ok ==> {
                &&& stmt_frame(*old(self), *final(self))
                &&& final(self).compile_context.returned == false
                &&& match old(self).fn_value {
                    Some(f) => {
                        let base = old(self).module.functions[f as int].blocks.len() as int;
                        // a then block, an else block, and the end block where
                        // emission continues; the old block branches by condition
                        &&& final(self).module.functions[f as int].blocks.len() >= base + 3
                        &&& (match old(self).cursor {
                            Some(c0) => final(self).module.functions[c0.fid as int].blocks[c0.bid as int].terminator
                                matches Some(Terminator::CondBr { then_target, else_target, .. })
                                && then_target as int == base && else_target as int == base + 1,
                            None => false,
                        })
                        // a literal integer test branches on its constant
                        // truthiness (`if 1:` branches on true)
                        &&& (match (old(self).cursor, stmt.node->If_test.node) {
                            (
                                Some(c0),
                                ExpressionType::Number {
                                    value: crate::ast::Number::Integer { negative, magnitude },
                                },
                            ) => (final(self).module.functions[c0.fid as int].blocks[c0.bid as int].terminator
                                matches Some(Terminator::CondBr { cond, .. }) && cond == (
                            ValueRef::ConstInt {
                                ty: crate::ir::BasicType::I1,
                                bits: if crate::arith::i16_of_bits(
                                    crate::convert::spec_truncate_bigint(negative, magnitude)
                                        & 0xffff,
                                ) != 0 {
                                    1u64
                                } else {
                                    0u64
                                },
                            })),
                            _ => true,
                        })
                        &&& is_pos(final(self).cursor, f as int, base + 2)
                    },
                    None => false,
                }
            },
        decreases *stmt, 2int,
    {
        let (test, body, orelse) = match &stmt.node {
            crate::ast::StatementType::If { test, body, orelse } => (test, body, orelse),
            _ => {
                return Err(
                    self.err_here(
                        LLVMCompileErrorType::NotImplemented("Unsupported statement".to_owned()),
                    ),
                );
            },
        };
        let f = self.get_fn_value()?;
        let c0 = match self.cursor {
            Some(c) => c,
            None => {
                return Err(
                    self.err_here(
                        LLVMCompileErrorType::NotImplemented("No insertion point".to_owned()),
                    ),
                );
            },
        };
        let then_bb = self.w_append_block(f);
        let ghost s1 = *self;
        let else_bb = self.w_append_block(f);
        let ghost s2 = *self;
        let end_bb = self.w_append_block(f);
        let ghost s3 = *self;
        proof {
            assert(s3.module.functions[c0.fid as int].blocks[c0.bid as int]
                == old(self).module.functions[c0.fid as int].blocks[c0.bid as int]);
            assert(s3.module.open_at(c0.fid, c0.bid));
        }
        let test_v = self.compile_expr(test)?;
        let ghost s4 = *self;
        let cond = self.truth_value(c0, test_v)?;
        let ghost s5 = *self;
        self.terminate_cursor(
            c0,
            Terminator::CondBr { cond, then_target: then_bb, else_target: else_bb },
        );
        let ghost s6 = *self;
        proof {
            // the three fresh blocks are still open
            assert(s6.module.functions[f as int].blocks[then_bb as int]
                == s3.module.functions[f as int].blocks[then_bb as int]);
            assert(s6.module.functions[f as int].blocks[else_bb as int]
                == s3.module.functions[f as int].blocks[else_bb as int]);
            assert(s6.module.functions[f as int].blocks[end_bb as int]
                == s3.module.functions[f as int].blocks[end_bb as int]);
        }
        proof {
            assert(decreases_to!(*stmt, 2int => *body, 2int));
        }
        let _then_fell = self.emit_arm(f, then_bb, end_bb, body)?;
        let ghost s7 = *self;
        proof {
            assert(s7.module.functions[f as int].blocks[else_bb as int]
                == s6.module.functions[f as int].blocks[else_bb as int]);
            assert(s7.module.functions[f as int].blocks[end_bb as int]
                == s6.module.functions[f as int].blocks[end_bb as int]);
        }
        match orelse {
            Some(sts) => {
                proof {
                    assert(decreases_to!(*stmt, 2int => *sts, 2int));
                }
                let _else_fell = self.emit_arm(f, else_bb, end_bb, sts)?;
            },
            None => {
                self.position_at_end(Cursor { fid: f, bid: else_bb });
                self.terminate_cursor(
                    Cursor { fid: f, bid: else_bb },
                    Terminator::Br { target: end_bb },
                );
            },
        }
        let ghost s8 = *self;
        proof {
            assert(s8.module.functions[f as int].blocks[end_bb as int]
                == s7.module.functions[f as int].blocks[end_bb as int]);
        }
        self.position_at_end(Cursor { fid: f, bid: end_bb });
        proof {
            let o = *old(self);
            let n = *self;
            crate::ir::lemma_extends_trans(o.module, s3.module, s6.module);
            crate::ir::lemma_extends_trans(o.module, s6.module, s7.module);
            crate::ir::lemma_extends_trans(o.module, s7.module, s8.module);
            // untouched blocks
            assert forall|fi: int, bi: int|
                0 <= fi < o.module.functions.len() && 0 <= bi < o.module.functions[fi].blocks.len()
                    && !is_pos(o.cursor, fi, bi) && !is_entry_of_cur(o, fi, bi) implies
                #[trigger] n.module.functions[fi].blocks[bi]
                == o.module.functions[fi].blocks[bi] by {
                assert(s3.module.functions[fi].blocks[bi] == o.module.functions[fi].blocks[bi]);
                assert(s6.module.functions[fi].blocks[bi] == s3.module.functions[fi].blocks[bi]);
                assert(s7.module.functions[fi].blocks[bi] == s6.module.functions[fi].blocks[bi]);
                assert(s8.module.functions[fi].blocks[bi] == s7.module.functions[fi].blocks[bi]);
            }
            // all blocks created here end terminated, except the end block
            assert forall|fi: int, bi: int|
                0 <= fi < n.module.functions.len() && 0 <= bi < n.module.functions[fi].blocks.len()
                    && !(fi < o.module.functions.len() && bi
                    < o.module.functions[fi].blocks.len()) && !is_pos(n.cursor, fi, bi) implies (
            #[trigger] n.module.functions[fi].blocks[bi]).terminated() by {
                if fi != f as int {
                    assert(s3.module.functions[fi] == o.module.functions[fi]);
                    if bi < s6.module.functions[fi].blocks.len() {
                        assert(s6.module.functions[fi].blocks[bi].terminated());
                        assert(Function::extends(s6.module.functions[fi], s7.module.functions[fi]));
                        assert(Function::extends(s7.module.functions[fi], s8.module.functions[fi]));
                    } else if bi < s7.module.functions[fi].blocks.len() {
                        assert(s7.module.functions[fi].blocks[bi].terminated());
                        assert(Function::extends(s7.module.functions[fi], s8.module.functions[fi]));
                    } else {
                        assert(s8.module.functions[fi].blocks[bi].terminated());
                    }
                } else if bi == then_bb as int {
                    assert(s7.module.functions[fi].blocks[bi].terminated());
                    assert(Function::extends(s7.module.functions[fi], s8.module.functions[fi]));
                } else if bi == else_bb as int {
                    assert(s8.module.functions[fi].blocks[bi].terminated());
                } else if bi == end_bb as int {
                    assert(false);
                } else if bi < s6.module.functions[fi].blocks.len() {
                    // a block a sub-expression step created; such a block is
                    // never the insertion point, so it was left terminated
                    assert(bi >= s3.module.functions[fi].blocks.len());
                    if bi < s4.module.functions[fi].blocks.len() {
                        assert(s4.module.functions[fi].blocks[bi].terminated());
                        assert(Function::extends(s4.module.functions[fi], s5.module.functions[fi]));
                        assert(Function::extends(s5.module.functions[fi], s6.module.functions[fi]));
                    } else {
                        assert(bi < s5.module.functions[fi].blocks.len());
                        assert(s5.module.functions[fi].blocks[bi].terminated());
                        assert(Function::extends(s5.module.functions[fi], s6.module.functions[fi]));
                    }
                    assert(s6.module.functions[fi].blocks[bi].terminated());
                    assert(Function::extends(s6.module.functions[fi], s7.module.functions[fi]));
                    assert(Function::extends(s7.module.functions[fi], s8.module.functions[fi]));
                } else if bi < s7.module.functions[fi].blocks.len() {
                    // created inside the then arm
                    assert(s7.module.functions[fi].blocks[bi].terminated());
                    assert(Function::extends(s7.module.functions[fi], s8.module.functions[fi]));
                } else {
                    // created inside the else arm
                    assert(s8.module.functions[fi].blocks[bi].terminated());
                }
            }
            // the old cursor block keeps its conditional branch
            assert(n.module.functions[c0.fid as int].blocks[c0.bid as int].terminator
                == s6.module.functions[c0.fid as int].blocks[c0.bid as int].terminator) by {
                assert(Function::extends(
                    s6.module.functions[c0.fid as int],
                    s7.module.functions[c0.fid as int],
                ));
                assert(Function::extends(
                    s7.module.functions[c0.fid as int],
                    s8.module.functions[c0.fid as int],
                ));
            }
            assert(n.module.functions[c0.fid as int].blocks[c0.bid as int].terminated()) by {
                assert(s6.module.functions[c0.fid as int].blocks[c0.bid as int].terminated());
                assert(Function::extends(
                    s6.module.functions[c0.fid as int],
                    s7.module.functions[c0.fid as int],
                ));
                assert(Function::extends(
                    s7.module.functions[c0.fid as int],
                    s8.module.functions[c0.fid as int],
                ));
            }
            // the end block is open, and emission continues there
            assert(n.module.open_at(f, end_bb));
        }
        Ok(())
    }

    /// Emit `while`: four fresh blocks (header, body, else, end).  Control
    /// branches to the header, which re-evaluates the condition on every
    /// iteration and branches by truthiness to the body or the else suite;
    /// the body branches back to the header; the else suite falls through to
    /// the end block, where emission continues.
    pub fn compile_stmt_while(&mut self, stmt: &Statement) -> (r: Result<(), LLVMCompileError>)
        requires
            old(self).inv(),
            !old(self).compile_context.returned,
            (old(self).cursor matches Some(c) ==> old(self).module.open_at(c.fid, c.bid)),
            stmt.node matches crate::ast::StatementType::While { .. },
        ensures
            final(self).inv(),
            (old(self).fn_value is None ==> (r matches Err(e) && e.error matches
                LLVMCompileErrorType::NotImplemented(_))),
            (r matches Err(e2) ==> e2.location is Some),
            r is Ok ==> {
                &&& stmt_frame(*old(self), *final(self))
                &&& final(self).compile_context.returned == false
                &&& match old(self).fn_value {
                    Some(f) => {
                        let base = old(self).module.functions[f as int].blocks.len() as int;
                        // a header that branches by the re-evaluated condition
                        // to the body or the else suite, reached by an
                        // unconditional branch from the old block; emission
                        // continues at the end block
                        &&& final(self).module.functions[f as int].blocks.len() >= base + 4
                        &&& (match old(self).cursor {
                            Some(c0) => final(self).module.functions[c0.fid as int].blocks[c0.bid as int].terminator
                                matches Some(Terminator::Br { target }) && target as int == base,
                            None => false,
                        })
                        &&& (final(self).module.functions[f as int].blocks[base].terminator
                            matches Some(Terminator::CondBr { then_target, else_target, .. })
                            && then_target as int == base + 1 && else_target as int == base + 2)
                        &&& is_pos(final(self).cursor, f as int, base + 3)
                        // a literal integer test branches on its constant
                        // truthiness (`while 1:` branches on true)
                        &&& (match stmt.node->While_test.node {
                            ExpressionType::Number { value: crate::ast::Number::Integer { negative, magnitude } } => (
                            final(self).module.functions[f as int].blocks[base].terminator matches
                                Some(Terminator::CondBr { cond, .. }) && cond == (
                            ValueRef::ConstInt {
                                ty: crate::ir::BasicType::I1,
                                bits: if crate::arith::i16_of_bits(
                                    crate::convert::spec_truncate_bigint(negative, magnitude)
                                        & 0xffff,
                                ) != 0 {
                                    1u64
                                } else {
                                    0u64
                                },
                            })),
                            _ => true,
                        })
                        // the body, unless it returned, ends in a back edge
                        // to the header, which re-evaluates the condition
                        &&& (!suite_returns(stmt.node->While_body@, 0) ==> exists|bi: int|
                            0 <= bi < final(self).module.functions[f as int].blocks.len() && (
                            #[trigger] final(self).module.functions[f as int].blocks[bi]).terminator
                                == Some(
                                Terminator::Br {
                                    target: old(self).module.functions[f as int].blocks.len(),
                                },
                            ))
                        // the else suite (or an empty else) branches to the
                        // end block
                        &&& ((match stmt.node->While_orelse {
                            None => true,
                            Some(sts) => !suite_returns(sts@, 0),
                        }) ==> exists|bi: int|
                            0 <= bi < final(self).module.functions[f as int].blocks.len() && (
                            #[trigger] final(self).module.functions[f as int].blocks[bi]).terminator
                                == Some(
                                Terminator::Br {
                                    target: (old(self).module.functions[f as int].blocks.len()
                                        + 3) as usize,
                                },
                            ))
                    },
                    None => false,
                }
            },
        decreases *stmt, 2int,
    {
        let (test, body, orelse) = match &stmt.node {
            crate::ast::StatementType::While { test, body, orelse } => (test, body, orelse),
            _ => {
                return Err(
                    self.err_here(
                        LLVMCompileErrorType::NotImplemented("Unsupported statement".to_owned()),
                    ),
                );
            },
        };
        let f = self.get_fn_value()?;
        let c0 = match self.cursor {
            Some(c) => c,
            None => {
                return Err(
                    self.err_here(
                        LLVMCompileErrorType::NotImplemented("No insertion point".to_owned()),
                    ),
                );
            },
        };
        let while_bb = self.w_append_block(f);
        let loop_bb = self.w_append_block(f);
        let else_bb = self.w_append_block(f);
        let end_bb = self.w_append_block(f);
        let ghost s3 = *self;
        proof {
            assert(s3.module.functions[c0.fid as int].blocks[c0.bid as int]
                == old(self).module.functions[c0.fid as int].blocks[c0.bid as int]);
        }
        self.terminate_cursor(c0, Terminator::Br { target: while_bb });
        let ghost s4 = *self;
        let c_while = Cursor { fid: f, bid: while_bb };
        self.position_at_end(c_while);
        let ghost s5 = *self;
        proof {
            assert(s5.module.functions[f as int].blocks[while_bb as int]
                == s3.module.functions[f as int].blocks[while_bb as int]);
            assert(s5.module.open_at(f, while_bb));
        }
        let test_v = self.compile_expr(test)?;
        let ghost st = *self;
        let cond = self.truth_value(c_while, test_v)?;
        let ghost sc = *self;
        self.terminate_cursor(
            c_while,
            Terminator::CondBr { cond, then_target: loop_bb, else_target: else_bb },
        );
        let ghost s6 = *self;
        proof {
            assert(s6.module.functions[f as int].blocks[loop_bb as int]
                == s3.module.functions[f as int].blocks[loop_bb as int]);
            assert(s6.module.functions[f as int].blocks[else_bb as int]
                == s3.module.functions[f as int].blocks[else_bb as int]);
            assert(s6.module.functions[f as int].blocks[end_bb as int]
                == s3.module.functions[f as int].blocks[end_bb as int]);
        }
        proof {
            assert(decreases_to!(*stmt, 2int => *body, 2int));
        }
        // the body branches back to the header, which re-evaluates the test
        let body_fell = self.emit_arm(f, loop_bb, while_bb, body)?;
        let ghost s7 = *self;
        proof {
            assert(s7.module.functions[f as int].blocks[else_bb as int]
                == s6.module.functions[f as int].blocks[else_bb as int]);
            assert(s7.module.functions[f as int].blocks[end_bb as int]
                == s6.module.functions[f as int].blocks[end_bb as int]);
        }
        let ghost else_fell: bool = true;
        match orelse {
            Some(sts) => {
                proof {
                    assert(decreases_to!(*stmt, 2int => *sts, 2int));
                }
                let ef = self.emit_arm(f, else_bb, end_bb, sts)?;
                proof {
                    else_fell = ef;
                }
            },
            None => {
                self.position_at_end(Cursor { fid: f, bid: else_bb });
                self.terminate_cursor(
                    Cursor { fid: f, bid: else_bb },
                    Terminator::Br { target: end_bb },
                );
                proof {
                    assert(self.module.functions[f as int].blocks[else_bb as int].terminator
                        == Some(Terminator::Br { target: end_bb }));
                }
            },
        }
        let ghost s8 = *self;
        proof {
            assert(s8.module.functions[f as int].blocks[end_bb as int]
                == s7.module.functions[f as int].blocks[end_bb as int]);
        }
        self.position_at_end(Cursor { fid: f, bid: end_bb });
        proof {
            let o = *old(self);
            let n = *self;
            crate::ir::lemma_extends_trans(o.module, s3.module, s6.module);
            crate::ir::lemma_extends_trans(o.module, s6.module, s7.module);
            crate::ir::lemma_extends_trans(o.module, s7.module, s8.module);
            // the else branch to the end block survives to the final state
            if else_fell {
                let bi = choose|bi: int|
                    0 <= bi < s8.module.functions[f as int].blocks.len() && (
                    #[trigger] s8.module.functions[f as int].blocks[bi]).terminator == Some(
                        Terminator::Br { target: end_bb },
                    );
                assert(n.module.functions[f as int].blocks[bi].terminator == Some(
                    Terminator::Br { target: end_bb },
                ));
            }
            // the back edge and the else branch survive to the final state
            if body_fell {
                let bi = choose|bi: int|
                    0 <= bi < s7.module.functions[f as int].blocks.len() && (
                    #[trigger] s7.module.functions[f as int].blocks[bi]).terminator == Some(
                        Terminator::Br { target: while_bb },
                    );
                assert(Function::extends(
                    s7.module.functions[f as int],
                    s8.module.functions[f as int],
                ));
                assert(n.module.functions[f as int].blocks[bi].terminator == Some(
                    Terminator::Br { target: while_bb },
                ));
            }
            assert forall|fi: int, bi: int|
                0 <= fi < o.module.functions.len() && 0 <= bi < o.module.functions[fi].blocks.len()
                    && !is_pos(o.cursor, fi, bi) && !is_entry_of_cur(o, fi, bi) implies
                #[trigger] n.module.functions[fi].blocks[bi]
                == o.module.functions[fi].blocks[bi] by {
                assert(s3.module.functions[fi].blocks[bi] == o.module.functions[fi].blocks[bi]);
                assert(s6.module.functions[fi].blocks[bi] == s3.module.functions[fi].blocks[bi]);
                assert(s7.module.functions[fi].blocks[bi] == s6.module.functions[fi].blocks[bi]);
                assert(s8.module.functions[fi].blocks[bi] == s7.module.functions[fi].blocks[bi]);
            }
            assert forall|fi: int, bi: int|
                0 <= fi < n.module.functions.len() && 0 <= bi < n.module.functions[fi].blocks.len()
                    && !(fi < o.module.functions.len() && bi
                    < o.module.functions[fi].blocks.len()) && !is_pos(n.cursor, fi, bi) implies (
            #[trigger] n.module.functions[fi].blocks[bi]).terminated() by {
                if fi != f as int {
                    assert(s3.module.functions[fi] == o.module.functions[fi]);
                    if bi < s6.module.functions[fi].blocks.len() {
                        assert(s6.module.functions[fi].blocks[bi].terminated());
                        assert(Function::extends(s6.module.functions[fi], s7.module.functions[fi]));
                        assert(Function::extends(s7.module.functions[fi], s8.module.functions[fi]));
                    } else if bi < s7.module.functions[fi].blocks.len() {
                        assert(s7.module.functions[fi].blocks[bi].terminated());
                        assert(Function::extends(s7.module.functions[fi], s8.module.functions[fi]));
                    } else {
                        assert(s8.module.functions[fi].blocks[bi].terminated());
                    }
                } else if bi == while_bb as int {
                    assert(s6.module.functions[fi].blocks[bi].terminated());
                    assert(Function::extends(s6.module.functions[fi], s7.module.functions[fi]));
                    assert(Function::extends(s7.module.functions[fi], s8.module.functions[fi]));
                } else if bi == loop_bb as int {
                    assert(s7.module.functions[fi].blocks[bi].terminated());
                    assert(Function::extends(s7.module.functions[fi], s8.module.functions[fi]));
                } else if bi == else_bb as int {
                    assert(s8.module.functions[fi].blocks[bi].terminated());
                } else if bi == end_bb as int {
                    assert(false);
                } else if bi < s6.module.functions[fi].blocks.len() {
                    // a block a sub-expression step created; such a block is
                    // never the insertion point, so it was left terminated
                    assert(bi >= s5.module.functions[fi].blocks.len());
                    if bi < st.module.functions[fi].blocks.len() {
                        assert(st.module.functions[fi].blocks[bi].terminated());
                        assert(Function::extends(st.module.functions[fi], sc.module.functions[fi]));
                        assert(Function::extends(sc.module.functions[fi], s6.module.functions[fi]));
                    } else {
                        assert(bi < sc.module.functions[fi].blocks.len());
                        assert(sc.module.functions[fi].blocks[bi].terminated());
                        assert(Function::extends(sc.module.functions[fi], s6.module.functions[fi]));
                    }
                    assert(s6.module.functions[fi].blocks[bi].terminated());
                    assert(Function::extends(s6.module.functions[fi], s7.module.functions[fi]));
                    assert(Function::extends(s7.module.functions[fi], s8.module.functions[fi]));
                } else if bi < s7.module.functions[fi].blocks.len() {
                    assert(s7.module.functions[fi].blocks[bi].terminated());
                    assert(Function::extends(s7.module.functions[fi], s8.module.functions[fi]));
                } else {
                    assert(s8.module.functions[fi].blocks[bi].terminated());
                }
            }
            // the header block is untouched after its conditional branch
            assert(n.module.functions[f as int].blocks[while_bb as int]
                == s6.module.functions[f as int].blocks[while_bb as int]) by {
                assert(s7.module.functions[f as int].blocks[while_bb as int]
                    == s6.module.functions[f as int].blocks[while_bb as int]);
                assert(s8.module.functions[f as int].blocks[while_bb as int]
                    == s7.module.functions[f as int].blocks[while_bb as int]);
            }
            assert(n.module.functions[c0.fid as int].blocks[c0.bid as int].terminator
                == s4.module.functions[c0.fid as int].blocks[c0.bid as int].terminator) by {
                assert(Function::extends(
                    s4.module.functions[c0.fid as int],
                    s6.module.functions[c0.fid as int],
                ));
                assert(Function::extends(
                    s6.module.functions[c0.fid as int],
                    s7.module.functions[c0.fid as int],
                ));
                assert(Function::extends(
                    s7.module.functions[c0.fid as int],
                    s8.module.functions[c0.fid as int],
                ));
            }
            assert(n.module.functions[c0.fid as int].blocks[c0.bid as int].terminated()) by {
                assert(s4.module.functions[c0.fid as int].blocks[c0.bid as int].terminated());
                assert(Function::extends(
                    s4.module.functions[c0.fid as int],
                    s6.module.functions[c0.fid as int],
                ));
                assert(Function::extends(
                    s6.module.functions[c0.fid as int],
                    s7.module.functions[c0.fid as int],
                ));
                assert(Function::extends(
                    s7.module.functions[c0.fid as int],
                    s8.module.functions[c0.fid as int],
                ));
            }
            assert(n.module.open_at(f, end_bb));
        }
        Ok(())
    }
}


/// The IR parameter type an annotation names, if it names one the subset
/// accepts.
pub open spec fn spec_annotation_ty(p: crate::ast::Parameter) -> Option<crate::ir::BasicType> {
    match p.annotation {
        Some(e) => match e.node {
            ExpressionType::Identifier { name } => if name@ == "int"@ {
                Some(crate::ir::BasicType::I16)
            } else if name@ == "float"@ {
                Some(crate::ir::BasicType::F32)
            } else {
                None
            },
            _ => None,
        },
        None => None,
    }
}

/// The declared return type a return annotation names: the outer `None`
/// means the annotation is rejected; the inner `None` means void.
pub open spec fn spec_return_ty(ann: Option<Expression>) -> Option<
    Option<crate::ir::BasicType>,
> {
    match ann {
        None => Some(None),
        Some(e) => match e.node {
            ExpressionType::Identifier { name } => if name@ == "int"@ {
                Some(Some(crate::ir::BasicType::I16))
            } else if name@ == "int8"@ {
                Some(Some(crate::ir::BasicType::I8))
            } else if name@ == "float"@ {
                Some(Some(crate::ir::BasicType::F32))
            } else {
                None
            },
            ExpressionType::NoneLiteral => Some(None),
            _ => None,
        },
    }
}

impl CodeGen {
    /// Emit a function definition.
    ///
    /// Every parameter must carry a type annotation (`int` or `float`); the
    /// return annotation is `int`, `int8`, `float`, or `None`/absent for
    /// void.  The function gets internal linkage unless it is one of the two
    /// hardware entry points, `setup` and `loop`.  An entry block receives
    /// one stack slot per parameter, stored from the incoming value; a
    /// leading documentation literal in the body is discarded; and when the
    /// body does not end in a `return`, a synthetic return of zero (or a
    /// void return) closes the last block, so every block of the finished
    /// function ends with exactly one terminator.
    pub fn compile_stmt_function_def(&mut self, stmt: &Statement) -> (r: Result<
        (),
        LLVMCompileError,
    >)
        requires
            old(self).inv(),
            !old(self).compile_context.returned,
            (old(self).cursor matches Some(c) ==> old(self).module.open_at(c.fid, c.bid)),
            stmt.node matches crate::ast::StatementType::FunctionDef { .. },
        ensures
            final(self).inv(),
            (old(self).fn_value is Some ==> r is Err),
            (stmt.node->FunctionDef_is_async == true ==> r is Err),
            (r matches Err(e) ==> e.location is Some),
            // a parameter without an acceptable annotation forbids success
            ((exists|j: int|
                0 <= j < stmt.node->FunctionDef_args@.len() && (#[trigger] spec_annotation_ty(
                    stmt.node->FunctionDef_args@[j],
                )) is None) ==> r is Err),
            r is Ok ==> {
                &&& stmt_frame(*old(self), *final(self))
                &&& final(self).compile_context.returned == false
                &&& final(self).globals == old(self).globals
                &&& old(self).fn_value is None
                &&& final(self).module.functions.len() == old(self).module.functions.len() + 1
                &&& {
                    let fdef = final(self).module.functions[old(
                        self,
                    ).module.functions.len() as int];
                    &&& fdef.name@ == stmt.node->FunctionDef_name@
                    &&& fdef.linkage == (if stmt.node->FunctionDef_name@ == "setup"@
                        || stmt.node->FunctionDef_name@ == "loop"@ {
                        crate::ir::Linkage::External
                    } else {
                        crate::ir::Linkage::Internal
                    })
                    &&& Some(fdef.ret) == spec_return_ty(stmt.node->FunctionDef_returns)
                    &&& fdef.params@.len() == stmt.node->FunctionDef_args@.len()
                    &&& (forall|j: int|
                        0 <= j < stmt.node->FunctionDef_args@.len() ==> Some(fdef.params@[j])
                            == #[trigger] spec_annotation_ty(stmt.node->FunctionDef_args@[j]))
                    &&& fdef.fully_terminated()
                    &&& fdef.blocks.len() >= 1
                }
            },
        decreases *stmt, 2int,
    {
        let (is_async, name, args, body, ret_ann) = match &stmt.node {
            crate::ast::StatementType::FunctionDef { is_async, name, args, body, returns: ret_ann } => (
                *is_async,
                name,
                args,
                body,
                ret_ann,
            ),
            _ => {
                return Err(
                    self.err_here(
                        LLVMCompileErrorType::NotImplemented("Unsupported statement".to_owned()),
                    ),
                );
            },
        };
        if is_async {
            return Err(
                self.err_here(
                    LLVMCompileErrorType::NotImplemented(
                        "Async functions are not supported.".to_owned(),
                    ),
                ),
            );
        }
        if self.fn_value.is_some() {
            return Err(
                self.err_here(
                    LLVMCompileErrorType::NotImplemented(
                        "Nested function definitions are not supported.".to_owned(),
                    ),
                ),
            );
        }
        // Parse the parameter annotations.
        let np = args.len();
        let mut btypes: Vec<crate::ir::BasicType> = Vec::new();
        let mut vtypes: Vec<ValueType> = Vec::new();
        let mut pnames: Vec<String> = Vec::new();
        let mut pnames2: Vec<String> = Vec::new();
        let mut i: usize = 0;
        while i < np
            invariant
                old(self).inv(),
                *self == *old(self),
                np == args.len(),
                i <= np,
                btypes@.len() == i,
                vtypes@.len() == i,
                pnames@.len() == i,
                pnames2@.len() == i,
                forall|j: int|
                    0 <= j < i ==> Some(btypes@[j]) == #[trigger] spec_annotation_ty(args@[j]),
                forall|j: int|
                    0 <= j < i ==> (#[trigger] vtypes@[j]) != ValueType::Void
                        && vtypes@[j].spec_basic_type() == btypes@[j],
            decreases np - i,
        {
            let arg = &args[i];
            match &arg.annotation {
                None => {
                    return Err(
                        self.err_here(
                            LLVMCompileErrorType::SyntaxError("Must have type hint".to_owned()),
                        ),
                    );
                },
                Some(ann) => match &ann.node {
                    ExpressionType::Identifier { name: tyname } => {
                        if *tyname == "int".to_owned() {
                            btypes.push(crate::ir::BasicType::I16);
                            vtypes.push(ValueType::I16);
                        } else if *tyname == "float".to_owned() {
                            btypes.push(crate::ir::BasicType::F32);
                            vtypes.push(ValueType::F32);
                        } else {
                            return Err(
                                self.err_here(
                                    LLVMCompileErrorType::NotImplemented(
                                        "Unimplemented argument type".to_owned(),
                                    ),
                                ),
                            );
                        }
                    },
                    _ => {
                        return Err(
                            self.err_here(
                                LLVMCompileErrorType::NotImplemented(
                                    "Unrecognizable type".to_owned(),
                                ),
                            ),
                        );
                    },
                },
            }
            pnames.push(arg.arg.clone());
            pnames2.push(arg.arg.clone());
            i += 1;
        }
        // Parse the return annotation.
        let ret: Option<crate::ir::BasicType> = match ret_ann {
            Some(e) => match &e.node {
                ExpressionType::Identifier { name: tyname } => {
                    if *tyname == "int".to_owned() {
                        Some(crate::ir::BasicType::I16)
                    } else if *tyname == "int8".to_owned() {
                        Some(crate::ir::BasicType::I8)
                    } else if *tyname == "float".to_owned() {
                        Some(crate::ir::BasicType::F32)
                    } else {
                        return Err(
                            self.err_here(
                                LLVMCompileErrorType::NotImplemented(
                                    "Unknown return type".to_owned(),
                                ),
                            ),
                        );
                    }
                },
                ExpressionType::NoneLiteral => None,
                _ => {
                    return Err(
                        self.err_here(
                            LLVMCompileErrorType::NotImplemented(
                                "Unknown return annotation node".to_owned(),
                            ),
                        ),
                    );
                },
            },
            None => None,
        };
        // AVR entry points stay visible; everything else is internal.
        let linkage = if *name == "setup".to_owned() || *name == "loop".to_owned() {
            crate::ir::Linkage::External
        } else {
            crate::ir::Linkage::Internal
        };
        let fid = self.module.add_function(name.clone(), linkage, btypes, pnames, ret);
        let ghost sf = *self;
        let entry = self.w_append_block(fid);
        let ghost sb = *self;
        // Enter the function scope.
        self.fn_value = Some(fid);
        self.cursor = Some(Cursor { fid, bid: entry });
        self.locals.create();
        let ghost a0 = *self;
        proof {
            match a0.mi_cursor {
                Some(mc) => {
                    assert(mc.fid < old(self).module.functions.len());
                },
                None => {},
            }
            assert(a0.inv());
            lemma_stmt_frame_refl(a0);
        }
        // One stack slot per parameter, stored from the incoming value.
        let c_entry = Cursor { fid, bid: entry };
        let mut k: usize = 0;
        while k < np
            invariant
                a0.inv(),
                !a0.compile_context.returned,
                (a0.cursor matches Some(c) ==> a0.module.open_at(c.fid, c.bid)),
                self.inv(),
                stmt_frame(a0, *self),
                self.cursor == Some(c_entry),
                self.module.open_at(c_entry.fid, c_entry.bid),
                self.fn_value == Some(fid),
                !self.compile_context.returned,
                fid < self.module.functions.len(),
                c_entry.fid == fid && c_entry.bid == entry,
                np == args.len(),
                k <= np,
                vtypes@.len() == np,
                pnames2@.len() == np,
                self.module.functions[fid as int].params@.len() == np,
                forall|j: int|
                    0 <= j < np ==> (#[trigger] vtypes@[j]) != ValueType::Void
                        && vtypes@[j].spec_basic_type()
                        == self.module.functions[fid as int].params@[j],
            decreases np - k,
        {
            let ghost pre = *self;
            let bt = self.module.functions[fid].params[k];
            let reg = match self.w_alloca(c_entry, bt) {
                Ok(reg) => reg,
                Err(e) => {
                    return Err(e);
                },
            };
            let ghost s1 = *self;
            self.w_store(c_entry, Ptr::Local { reg }, ValueRef::Arg { index: k, ty: bt });
            let ghost s2 = *self;
            self.bind_local(&pnames2[k], vtypes[k], Ptr::Local { reg });
            proof {
                crate::cgexpr::lemma_expr_frame_trans(pre, s1, s2);
                assert(expr_frame(pre, s2));
                assert(emit_frame(pre, *self));
                lemma_stmt_frame_trans(a0, pre, *self);
            }
            k += 1;
        }
        // The body, past any leading documentation literal.
        let doc = get_doc(body);
        let ghost sp = *self;
        proof {
            assert(decreases_to!(*stmt, 2int => *body, 1int));
        }
        self.emit_suite(body, doc.0)?;
        let ghost ss = *self;
        // Synthetic terminator when the body did not end in a return.
        if !self.compile_context.returned {
            let cc = match self.cursor {
                Some(cc) => cc,
                None => {
                    return Err(
                        self.err_here(
                            LLVMCompileErrorType::NotImplemented(
                                "No insertion point".to_owned(),
                            ),
                        ),
                    );
                },
            };
            let rt = self.module.functions[fid].ret;
            let term = match rt {
                None => Terminator::Ret { value: None },
                Some(t) => match t {
                    crate::ir::BasicType::F32 => Terminator::Ret {
                        value: Some(ValueRef::ConstFloat { bits: 0 }),
                    },
                    crate::ir::BasicType::PtrI8 => Terminator::Ret { value: None },
                    _ => Terminator::Ret {
                        value: Some(ValueRef::ConstInt { ty: t, bits: 0 }),
                    },
                },
            };
            self.terminate_cursor(cc, term);
        }
        let ghost se = *self;
        // Leave the function scope.
        self.fn_value = None;
        self.locals.pop();
        self.cursor = self.mi_cursor;
        self.compile_context.returned = false;
        proof {
            let o = *old(self);
            let n = *self;
            crate::ir::lemma_extends_trans(o.module, sb.module, ss.module);
            crate::ir::lemma_extends_trans(o.module, ss.module, se.module);
            // the new function's signature survived
            assert(Function::extends(
                sb.module.functions[fid as int],
                ss.module.functions[fid as int],
            ));
            assert(Function::extends(
                ss.module.functions[fid as int],
                se.module.functions[fid as int],
            ));
            // every block of the finished function is terminated
            let fdef = n.module.functions[fid as int];
            assert forall|bi: int| 0 <= bi < fdef.blocks.len() implies (
            #[trigger] fdef.blocks[bi]).terminated() by {
                if is_pos(ss.cursor, fid as int, bi) {
                    if ss.compile_context.returned {
                        match ss.cursor {
                            Some(cc) => {
                                assert(!ss.module.open_at(cc.fid, cc.bid));
                                assert(Function::extends(
                                    ss.module.functions[fid as int],
                                    se.module.functions[fid as int],
                                ));
                            },
                            None => {},
                        }
                    } else {
                        match ss.cursor {
                            Some(cc) => {
                                assert(se.module.functions[cc.fid as int].blocks[cc.bid as int].terminator
                                    is Some);
                            },
                            None => {},
                        }
                    }
                } else if bi == entry as int {
                    // the suite moved away from the entry block, closing it
                    assert(ss.module.functions[fid as int].blocks[bi].terminated());
                    assert(Function::extends(
                        ss.module.functions[fid as int],
                        se.module.functions[fid as int],
                    ));
                } else {
                    // a block the suite created and left
                    assert(bi < ss.module.functions[fid as int].blocks.len());
                    assert(ss.module.functions[fid as int].blocks[bi].terminated());
                    assert(Function::extends(
                        ss.module.functions[fid as int],
                        se.module.functions[fid as int],
                    ));
                }
            }
            // blocks of older functions are untouched
            assert forall|fi: int, bi: int|
                0 <= fi < o.module.functions.len() && 0 <= bi < o.module.functions[fi].blocks.len()
                    && !is_pos(o.cursor, fi, bi) && !is_entry_of_cur(o, fi, bi) implies
                #[trigger] n.module.functions[fi].blocks[bi]
                == o.module.functions[fi].blocks[bi] by {
                assert(sb.module.functions[fi].blocks[bi] == o.module.functions[fi].blocks[bi]);
                assert(!is_pos(a0.cursor, fi, bi));
                assert(!is_entry_of_cur(a0, fi, bi));
                assert(ss.module.functions[fi].blocks[bi] == sb.module.functions[fi].blocks[bi]);
                if !ss.compile_context.returned {
                    match ss.cursor {
                        Some(cc) => {
                            assert(cc.fid == fid);
                            assert(se.module.functions[fi].blocks[bi]
                                == ss.module.functions[fi].blocks[bi]);
                        },
                        None => {},
                    }
                }
            }
            // nothing new outside the defined function, and it is closed
            assert forall|fi: int, bi: int|
                0 <= fi < n.module.functions.len() && 0 <= bi < n.module.functions[fi].blocks.len()
                    && !(fi < o.module.functions.len() && bi
                    < o.module.functions[fi].blocks.len()) && !is_pos(n.cursor, fi, bi) implies (
            #[trigger] n.module.functions[fi].blocks[bi]).terminated() by {
                if fi != fid as int {
                    assert(sb.module.functions[fi] == o.module.functions[fi]);
                    if bi < ss.module.functions[fi].blocks.len() {
                        assert(ss.module.functions[fi].blocks[bi].terminated());
                        assert(Function::extends(ss.module.functions[fi], se.module.functions[fi]));
                    } else {
                        assert(se.module.functions[fi].blocks[bi].terminated());
                    }
                }
            }
            // the module-scope insertion point is back and still open
            match o.cursor {
                Some(mc) => {
                    assert(n.module.functions[mc.fid as int].blocks[mc.bid as int]
                        == o.module.functions[mc.fid as int].blocks[mc.bid as int]);
                },
                None => {},
            }
        }
        Ok(())
    }
}

} // verus!
