//! The code emitter's mutable state and its builder wrappers.
//!
//! A `CodeGen` owns the module being built, the insertion cursor, the
//! per-emission context (the `returned` flag and the current source
//! location), and the symbol scopes.  Module-level statements that need
//! instructions are emitted into a synthetic internal initializer function,
//! created on first use and closed by the orchestrator.

use vstd::prelude::*;

use crate::ast::Location;
use crate::errors::LLVMCompileError;
use crate::errors::LLVMCompileErrorType;
use crate::ir::BasicType;
use crate::ir::FloatBinOp;
use crate::ir::FloatPredicate;
use crate::ir::Instr;
use crate::ir::IntBinOp;
use crate::ir::IntPredicate;
use crate::ir::Linkage;
use crate::ir::Module;
use crate::ir::Ptr;
use crate::ir::Terminator;
use crate::ir::ValueRef;
use crate::ir::lemma_extends_trans;
use crate::ir::lemma_store_exists_monotone;
use crate::ir::Function;
use crate::scope::Locals;
use crate::scope::VariableMap;

verus! {

/// Mutable per-emission state: the `returned` flag set by a `return`
/// statement so that control-flow emission does not add a terminator after a
/// terminal return.
#[derive(Debug, Clone, Copy, PartialEq, Eq, Structural)]
pub struct CompileContext {
    pub returned: bool,
}

impl CompileContext {
    pub fn new() -> (r: Self)
        ensures
            r.returned == false,
    {
        CompileContext { returned: false }
    }
}

/// An insertion point: a function and one of its blocks.
#[derive(Debug, Clone, Copy, PartialEq, Eq, Structural)]
pub struct Cursor {
    pub fid: usize,
    pub bid: usize,
}

/// Whether an optional cursor sits at the given position.
pub open spec fn is_pos(c: Option<Cursor>, fi: int, bi: int) -> bool {
    match c {
        Some(cc) => cc.fid == fi && cc.bid == bi,
        None => false,
    }
}

/// The emitter.
pub struct CodeGen {
    pub module: Module,
    pub compile_context: CompileContext,
    /// The user function currently being emitted, if any.
    pub fn_value: Option<usize>,
    /// The insertion point.
    pub cursor: Option<Cursor>,
    /// The open block of the synthetic module-level initializer, if one was
    /// created; the insertion point equals it whenever emission is at module
    /// scope.
    pub mi_cursor: Option<Cursor>,
    /// The most recent source location, for error reporting.
    pub loc: Location,
    /// The module-wide globals.
    pub globals: VariableMap,
    /// The per-function locals.
    pub locals: Locals,
}

/// The position is block 0 (the entry block, which receives stack slots) of
/// the function currently being emitted.
pub open spec fn is_entry_of_cur(o: CodeGen, fi: int, bi: int) -> bool {
    match o.fn_value {
        Some(f) => fi == f && bi == 0,
        None => false,
    }
}

impl CodeGen {
    /// Every local binding's storage slot has been stored to in the current
    /// function, so that later reads are preceded by a write.
    pub open spec fn locals_wf(self) -> bool {
        match self.fn_value {
            Some(f) => forall|i: int|
                0 <= i < self.locals.active().len() ==> (#[trigger] self.locals.active()[i]).1.value_type
                    != crate::value::ValueType::Void && match self.locals.active()[i].1.pointer {
                    Ptr::Local { reg } => self.module.functions[f as int].store_exists(reg),
                    Ptr::Global { .. } => false,
                },
            None => true,
        }
    }

    /// Every module-level binding names a non-void global cell.
    pub open spec fn globals_tbl_wf(self) -> bool {
        forall|i: int|
            0 <= i < self.globals@.len() ==> (#[trigger] self.globals@[i]).1.value_type
                != crate::value::ValueType::Void && (self.globals@[i].1.pointer matches
                Ptr::Global { .. })
    }

    /// The emitter's invariant.
    pub open spec fn inv(self) -> bool {
        &&& self.module.wf()
        &&& self.globals_tbl_wf()
        &&& (self.cursor matches Some(c) ==> self.module.valid_pos(c.fid, c.bid))
        &&& (self.mi_cursor matches Some(c) ==> self.module.open_at(c.fid, c.bid))
        &&& match self.fn_value {
            Some(f) => {
                &&& f < self.module.functions.len()
                &&& (self.cursor matches Some(c) && c.fid == f)
                &&& self.module.functions[f as int].blocks.len() >= 1
                &&& (self.mi_cursor matches Some(mc) ==> mc.fid != f)
                &&& self.locals.depth() == 1
                &&& self.locals_wf()
            },
            None => {
                &&& self.locals.depth() == 0
                &&& self.cursor == self.mi_cursor
            },
        }
    }

    /// The cursor block is open (it has no terminator yet).
    pub open spec fn cursor_open(self) -> bool {
        self.cursor matches Some(c) && self.module.open_at(c.fid, c.bid)
    }
}

/// What any single emission step may do to the emitter: the module only
/// grows; blocks other than the cursor block and the current entry block are
/// untouched; the entry block only collects stack slots; every block created
/// along the way is terminated unless it became the cursor; the old cursor
/// block is either still the cursor or was terminated; and the cursor only
/// stays put or moves to a block that did not exist before.
pub open spec fn emit_frame(o: CodeGen, n: CodeGen) -> bool {
    &&& Module::extends(o.module, n.module)
    &&& n.fn_value == o.fn_value
    &&& (o.mi_cursor is Some ==> n.mi_cursor == o.mi_cursor)
    &&& (o.fn_value is Some ==> n.mi_cursor == o.mi_cursor)
    &&& (o.fn_value is None ==> n.cursor == n.mi_cursor)
    &&& (o.fn_value matches Some(f) ==> n.module.functions.len() == o.module.functions.len()
        && (n.cursor matches Some(c) && c.fid == f))
    &&& forall|fi: int, bi: int|
        0 <= fi < o.module.functions.len() && 0 <= bi < o.module.functions[fi].blocks.len()
            && !is_pos(o.cursor, fi, bi) && !is_entry_of_cur(o, fi, bi)
            ==> #[trigger] n.module.functions[fi].blocks[bi] == o.module.functions[fi].blocks[bi]
    &&& forall|fi: int, bi: int|
        0 <= fi < n.module.functions.len() && 0 <= bi < n.module.functions[fi].blocks.len() && !(fi
            < o.module.functions.len() && bi < o.module.functions[fi].blocks.len()) && !is_pos(
            n.cursor,
            fi,
            bi,
        ) ==> (#[trigger] n.module.functions[fi].blocks[bi]).terminated()
    &&& (o.cursor matches Some(c) ==> is_pos(n.cursor, c.fid as int, c.bid as int)
        || n.module.functions[c.fid as int].blocks[c.bid as int].terminated())
    &&& (n.cursor matches Some(c) ==> is_pos(o.cursor, c.fid as int, c.bid as int)
        || !o.module.valid_pos(c.fid, c.bid))
}

/// What expression emission may do: an `emit_frame` step that additionally
/// keeps the cursor in place (once there is one), never sets the `returned`
/// flag, and leaves both symbol tables alone.
pub open spec fn expr_frame(o: CodeGen, n: CodeGen) -> bool {
    &&& emit_frame(o, n)
    &&& (o.cursor matches Some(c) ==> n.cursor == o.cursor)
    &&& n.compile_context == o.compile_context
    &&& n.locals == o.locals
    &&& n.globals == o.globals
    &&& (o.cursor_open() ==> n.cursor_open())
}

/// Emission frames compose.
pub proof fn lemma_emit_frame_trans(a: CodeGen, b: CodeGen, c: CodeGen)
    requires
        emit_frame(a, b),
        emit_frame(b, c),
        (a.cursor matches Some(ca) ==> a.module.valid_pos(ca.fid, ca.bid)),
        (b.cursor matches Some(cb) ==> b.module.valid_pos(cb.fid, cb.bid)),
    ensures
        emit_frame(a, c),
{
    lemma_extends_trans(a.module, b.module, c.module);
    match a.cursor {
        Some(ca) => {
            assert(Function::extends(
                a.module.functions[ca.fid as int],
                b.module.functions[ca.fid as int],
            ));
            assert(b.module.valid_pos(ca.fid, ca.bid));
            assert(Function::extends(
                b.module.functions[ca.fid as int],
                c.module.functions[ca.fid as int],
            ));
        },
        None => {},
    }
    // untouched blocks
    assert forall|fi: int, bi: int|
        0 <= fi < a.module.functions.len() && 0 <= bi < a.module.functions[fi].blocks.len()
            && !is_pos(a.cursor, fi, bi) && !is_entry_of_cur(a, fi, bi) implies
        #[trigger] c.module.functions[fi].blocks[bi] == a.module.functions[fi].blocks[bi] by {
        assert(b.module.functions[fi].blocks[bi] == a.module.functions[fi].blocks[bi]);
        assert(!is_pos(b.cursor, fi, bi)) by {
            if is_pos(b.cursor, fi, bi) {
                assert(is_pos(a.cursor, fi, bi) || !a.module.valid_pos(fi as usize, bi as usize));
            }
        }
        assert(!is_entry_of_cur(b, fi, bi));
    }
    // new blocks terminated unless they became the cursor
    assert forall|fi: int, bi: int|
        0 <= fi < c.module.functions.len() && 0 <= bi < c.module.functions[fi].blocks.len() && !(fi
            < a.module.functions.len() && bi < a.module.functions[fi].blocks.len()) && !is_pos(
            c.cursor,
            fi,
            bi,
        ) implies (#[trigger] c.module.functions[fi].blocks[bi]).terminated() by {
        if fi < b.module.functions.len() && bi < b.module.functions[fi].blocks.len() {
            // created in the a -> b step
            if is_pos(b.cursor, fi, bi) {
                // it was b's cursor; the b -> c step terminated it or kept it
                assert(c.module.functions[fi].blocks[bi].terminated());
            } else {
                assert(b.module.functions[fi].blocks[bi].terminated());
                assert(Function::extends(b.module.functions[fi], c.module.functions[fi]));
                assert(c.module.functions[fi].blocks[bi].terminated());
            }
        } else {
            // created in the b -> c step
            assert(c.module.functions[fi].blocks[bi].terminated());
        }
    }
    // the old cursor is the cursor or terminated
    match a.cursor {
        Some(ca) => {
            if is_pos(b.cursor, ca.fid as int, ca.bid as int) {
                assert(is_pos(c.cursor, ca.fid as int, ca.bid as int)
                    || c.module.functions[ca.fid as int].blocks[ca.bid as int].terminated());
            } else {
                assert(b.module.functions[ca.fid as int].blocks[ca.bid as int].terminated());
                assert(Function::extends(
                    b.module.functions[ca.fid as int],
                    c.module.functions[ca.fid as int],
                ));
            }
        },
        None => {},
    }
    // the cursor stays or moves to a fresh block
    match c.cursor {
        Some(cc) => {
            if is_pos(b.cursor, cc.fid as int, cc.bid as int) {
                if !is_pos(a.cursor, cc.fid as int, cc.bid as int) && a.module.valid_pos(
                    cc.fid,
                    cc.bid,
                ) {
                    assert(!b.module.valid_pos(cc.fid, cc.bid));
                    assert(false);
                }
            } else {
                assert(!b.module.valid_pos(cc.fid, cc.bid));
                assert(!a.module.valid_pos(cc.fid, cc.bid)) by {
                    if a.module.valid_pos(cc.fid, cc.bid) {
                        assert(Function::extends(
                            a.module.functions[cc.fid as int],
                            b.module.functions[cc.fid as int],
                        ));
                    }
                }
            }
        },
        None => {},
    }
}

/// Symbol slots keep their stores as the module grows.
pub proof fn lemma_locals_wf_monotone(o: CodeGen, n: CodeGen)
    requires
        o.inv(),
        Module::extends(o.module, n.module),
        n.locals == o.locals,
        n.fn_value == o.fn_value,
    ensures
        n.locals_wf(),
{
    match n.fn_value {
        Some(f) => {
            assert forall|i: int| 0 <= i < n.locals.active().len() implies (
            #[trigger] n.locals.active()[i]).1.value_type != crate::value::ValueType::Void
                && match n.locals.active()[i].1.pointer {
                Ptr::Local { reg } => n.module.functions[f as int].store_exists(reg),
                Ptr::Global { .. } => false,
            } by {
                assert(o.locals.active()[i].1.value_type != crate::value::ValueType::Void);
                match n.locals.active()[i].1.pointer {
                    Ptr::Local { reg } => {
                        assert(o.module.functions[f as int].store_exists(reg));
                        assert(Function::extends(
                            o.module.functions[f as int],
                            n.module.functions[f as int],
                        ));
                        lemma_store_exists_monotone(
                            o.module.functions[f as int],
                            n.module.functions[f as int],
                            reg,
                        );
                    },
                    Ptr::Global { .. } => {},
                }
            }
        },
        None => {},
    }
}

impl CodeGen {
    /// After one instruction is appended at the cursor (or a stack slot at
    /// the current entry block), the invariant and the expression frame hold.
    proof fn lemma_instr_step(o: CodeGen, n: CodeGen, fid: usize, bid: usize, instr: Instr, nr: usize)
        requires
            o.inv(),
            n.module.wf(),
            Module::only_instr_pushed(o.module, n.module, fid, bid, instr, nr),
            Module::extends(o.module, n.module),
            (is_pos(o.cursor, fid as int, bid as int) || (o.fn_value == Some(fid) && bid == 0
                && instr matches Instr::Alloca { .. })),
            n.compile_context == o.compile_context,
            n.fn_value == o.fn_value,
            n.cursor == o.cursor,
            n.mi_cursor == o.mi_cursor,
            n.locals == o.locals,
            n.globals == o.globals,
        ensures
            n.inv(),
            expr_frame(o, n),
    {
        lemma_locals_wf_monotone(o, n);
        match o.mi_cursor {
            Some(mc) => {
                if mc.fid as int != fid as int || mc.bid as int != bid as int {
                    assert(n.module.functions[mc.fid as int].blocks[mc.bid as int]
                        == o.module.functions[mc.fid as int].blocks[mc.bid as int]);
                } else {
                    assert(n.module.functions[mc.fid as int].blocks[mc.bid as int].terminator
                        == o.module.functions[mc.fid as int].blocks[mc.bid as int].terminator);
                }
                assert(n.module.open_at(mc.fid, mc.bid));
            },
            None => {},
        }
        assert forall|fi: int, bi: int|
            0 <= fi < o.module.functions.len() && 0 <= bi < o.module.functions[fi].blocks.len()
                && !is_pos(o.cursor, fi, bi) && !is_entry_of_cur(o, fi, bi) implies
            #[trigger] n.module.functions[fi].blocks[bi] == o.module.functions[fi].blocks[bi] by {
            if fi != fid as int {
                assert(n.module.functions[fi] == o.module.functions[fi]);
            }
        }
        match o.cursor {
            Some(c) => {
                if c.fid as int != fid as int || c.bid as int != bid as int {
                    assert(n.module.functions[c.fid as int].blocks[c.bid as int]
                        == o.module.functions[c.fid as int].blocks[c.bid as int]);
                } else {
                    assert(n.module.functions[c.fid as int].blocks[c.bid as int].terminator
                        == o.module.functions[c.fid as int].blocks[c.bid as int].terminator);
                }
            },
            None => {},
        }
    }

    /// A fresh emitter around an empty module.
    pub fn new(module: Module) -> (r: CodeGen)
        requires
            module.wf(),
        ensures
            r.inv(),
            r.module == module,
            r.fn_value is None,
            r.cursor is None,
            r.mi_cursor is None,
            r.compile_context.returned == false,
            r.globals@.len() == 0,
    {
        CodeGen {
            module,
            compile_context: CompileContext::new(),
            fn_value: None,
            cursor: None,
            mi_cursor: None,
            loc: Location { row: 0, column: 0 },
            globals: VariableMap::new(),
            locals: Locals::new(),
        }
    }

    /// Record the most recent source location.
    pub fn set_loc(&mut self, location: Location)
        ensures
            *final(self) == (CodeGen { loc: location, ..*old(self) }),
    {
        self.loc = location;
    }

    pub fn get_loc(&self) -> (r: Location)
        ensures
            r == self.loc,
    {
        self.loc
    }

    /// An error at the most recent source location.
    pub fn err_here(&self, e: LLVMCompileErrorType) -> (r: LLVMCompileError)
        ensures
            r.error == e,
            r.location == Some(self.loc),
    {
        LLVMCompileError::new(Some(self.loc), e)
    }

    /// The function currently being emitted; some constructs exist only
    /// inside a function.
    pub fn get_fn_value(&self) -> (r: Result<usize, LLVMCompileError>)
        ensures
            match r {
                Ok(f) => self.fn_value == Some(f),
                Err(e) => self.fn_value is None && (e.error matches
                    LLVMCompileErrorType::NotImplemented(_)) && e.location == Some(self.loc),
            },
    {
        match self.fn_value {
            Some(f) => Ok(f),
            None => Err(
                self.err_here(
                    LLVMCompileErrorType::NotImplemented(
                        "Attempted to get a function value outside function. Some features must be in the function.".to_owned(),
                    ),
                ),
            ),
        }
    }
}


impl CodeGen {
    /// Make sure there is an insertion point: at module scope the synthetic
    /// module-level initializer function is created on first use.
    pub fn ensure_positioned(&mut self) -> (c: Cursor)
        requires
            old(self).inv(),
        ensures
            final(self).inv(),
            expr_frame(*old(self), *final(self)),
            final(self).cursor == Some(c),
            final(self).loc == old(self).loc,
            final(self).module.open_at(c.fid, c.bid) || !old(self).cursor_open() && old(
                self,
            ).cursor is Some,
            (old(self).cursor matches Some(c0) ==> c == c0 && *final(self) == *old(self)),
            (old(self).cursor is None ==> final(self).module.open_at(c.fid, c.bid)
                && final(self).module.functions[c.fid as int].next_reg == 0),
    {
        match self.cursor {
            Some(c) => c,
            None => {
                let fid = self.module.add_function(
                    "__module_init".to_owned(),
                    Linkage::Internal,
                    Vec::new(),
                    Vec::new(),
                    None,
                );
                let bid = self.module.append_basic_block(fid);
                let c = Cursor { fid, bid };
                self.cursor = Some(c);
                self.mi_cursor = Some(c);
                proof {
                    let o = *old(self);
                    let n = *self;
                    lemma_extends_trans(o.module, n.module, n.module);
                    lemma_locals_wf_monotone(o, n);
                    assert forall|fi: int, bi: int|
                        0 <= fi < o.module.functions.len() && 0 <= bi
                            < o.module.functions[fi].blocks.len() && !is_pos(o.cursor, fi, bi)
                            && !is_entry_of_cur(o, fi, bi) implies
                        #[trigger] n.module.functions[fi].blocks[bi]
                            == o.module.functions[fi].blocks[bi] by {
                        assert(n.module.functions[fi] == o.module.functions[fi]);
                    }
                    assert forall|fi: int, bi: int|
                        0 <= fi < n.module.functions.len() && 0 <= bi
                            < n.module.functions[fi].blocks.len() && !(fi
                            < o.module.functions.len() && bi
                            < o.module.functions[fi].blocks.len()) && !is_pos(n.cursor, fi, bi)
                            implies (#[trigger] n.module.functions[fi].blocks[bi]).terminated()
                        by {
                        assert(fi == fid as int && bi == bid as int);
                        assert(false);
                    }
                }
                c
            },
        }
    }

    /// Move the insertion point to another block of the current function.
    pub fn position_at_end(&mut self, c: Cursor)
        requires
            old(self).inv(),
            old(self).fn_value == Some(c.fid),
            old(self).module.valid_pos(c.fid, c.bid),
        ensures
            final(self).inv(),
            *final(self) == (CodeGen { cursor: Some(c), ..*old(self) }),
    {
        self.cursor = Some(c);
    }

    /// Set the terminator of the (open) cursor block.
    pub fn terminate_cursor(&mut self, c: Cursor, t: Terminator)
        requires
            old(self).inv(),
            old(self).fn_value is Some,
            old(self).cursor == Some(c),
            old(self).module.open_at(c.fid, c.bid),
            old(self).module.term_ok(c.fid as int, t),
        ensures
            final(self).inv(),
            emit_frame(*old(self), *final(self)),
            Module::only_terminator_set(old(self).module, final(self).module, c.fid, c.bid, t),
            final(self).module.functions[c.fid as int].blocks[c.bid as int].terminator == Some(t),
            final(self).cursor == old(self).cursor,
            final(self).compile_context == old(self).compile_context,
            final(self).locals == old(self).locals,
            final(self).globals == old(self).globals,
            final(self).mi_cursor == old(self).mi_cursor,
            final(self).fn_value == old(self).fn_value,
            final(self).loc == old(self).loc,
    {
        self.module.terminate(c.fid, c.bid, t);
        proof {
            let o = *old(self);
            let n = *self;
            lemma_locals_wf_monotone(o, n);
            match o.mi_cursor {
                Some(mc) => {
                    assert(n.module.functions[mc.fid as int].blocks[mc.bid as int]
                        == o.module.functions[mc.fid as int].blocks[mc.bid as int]);
                },
                None => {},
            }
            assert forall|fi: int, bi: int|
                0 <= fi < o.module.functions.len() && 0 <= bi
                    < o.module.functions[fi].blocks.len() && !is_pos(o.cursor, fi, bi)
                    && !is_entry_of_cur(o, fi, bi) implies
                #[trigger] n.module.functions[fi].blocks[bi]
                    == o.module.functions[fi].blocks[bi] by {
                if fi != c.fid as int {
                    assert(n.module.functions[fi] == o.module.functions[fi]);
                }
            }
        }
    }

    /// Reserve a stack slot in the current function's entry block.
    pub fn w_alloca(&mut self, c: Cursor, ty: BasicType) -> (r: Result<
        usize,
        LLVMCompileError,
    >)
        requires
            old(self).inv(),
            old(self).fn_value is Some,
            old(self).cursor == Some(c),
        ensures
            final(self).inv(),
            match r {
                Ok(reg) => {
                    &&& expr_frame(*old(self), *final(self))
                    &&& reg == old(self).module.functions[c.fid as int].next_reg
                    &&& Module::only_instr_pushed(
                        old(self).module,
                        final(self).module,
                        c.fid,
                        0,
                        Instr::Alloca { dst: reg, ty },
                        (old(self).module.functions[c.fid as int].next_reg + 1) as usize,
                    )
                },
                Err(e) => *final(self) == *old(self) && (e.error matches
                    LLVMCompileErrorType::NotImplemented(_)) && e.location == Some(old(self).loc),
            },
            (r is Err <==> old(self).module.functions[c.fid as int].next_reg == usize::MAX),
    {
        if self.module.functions[c.fid].next_reg == usize::MAX {
            return Err(
                self.err_here(
                    LLVMCompileErrorType::NotImplemented("function too large".to_owned()),
                ),
            );
        }
        let reg = self.module.build_alloca(c.fid, ty);
        proof {
            CodeGen::lemma_instr_step(
                *old(self),
                *self,
                c.fid,
                0,
                Instr::Alloca { dst: reg, ty },
                (old(self).module.functions[c.fid as int].next_reg + 1) as usize,
            );
        }
        Ok(reg)
    }

    /// Read through a storage pointer at the cursor.
    pub fn w_load(&mut self, c: Cursor, ty: BasicType, ptr: Ptr) -> (r: Result<
        ValueRef,
        LLVMCompileError,
    >)
        requires
            old(self).inv(),
            old(self).cursor == Some(c),
            old(self).module.open_at(c.fid, c.bid),
            (ptr matches Ptr::Local { reg } ==> old(self).module.functions[c.fid as int].store_exists(
                reg,
            )),
        ensures
            final(self).inv(),
            match r {
                Ok(v) => {
                    &&& expr_frame(*old(self), *final(self))
                    &&& v == (ValueRef::Reg {
                        id: old(self).module.functions[c.fid as int].next_reg,
                        ty,
                    })
                    &&& v.ty() == ty
                    &&& Module::only_instr_pushed(
                        old(self).module,
                        final(self).module,
                        c.fid,
                        c.bid,
                        Instr::Load {
                            dst: old(self).module.functions[c.fid as int].next_reg,
                            ty,
                            ptr,
                        },
                        (old(self).module.functions[c.fid as int].next_reg + 1) as usize,
                    )
                },
                Err(e) => *final(self) == *old(self) && (e.error matches
                    LLVMCompileErrorType::NotImplemented(_)) && e.location == Some(old(self).loc),
            },
            (r is Err <==> old(self).module.functions[c.fid as int].next_reg == usize::MAX),
    {
        if self.module.functions[c.fid].next_reg == usize::MAX {
            return Err(
                self.err_here(
                    LLVMCompileErrorType::NotImplemented("function too large".to_owned()),
                ),
            );
        }
        let v = self.module.build_load(c.fid, c.bid, ty, ptr);
        proof {
            CodeGen::lemma_instr_step(
                *old(self),
                *self,
                c.fid,
                c.bid,
                Instr::Load { dst: old(self).module.functions[c.fid as int].next_reg, ty, ptr },
                (old(self).module.functions[c.fid as int].next_reg + 1) as usize,
            );
        }
        Ok(v)
    }

    /// Write through a storage pointer at the cursor.
    pub fn w_store(&mut self, c: Cursor, ptr: Ptr, value: ValueRef)
        requires
            old(self).inv(),
            old(self).cursor == Some(c),
            old(self).module.open_at(c.fid, c.bid),
            ptr matches Ptr::Local { .. },
        ensures
            final(self).inv(),
            expr_frame(*old(self), *final(self)),
            Module::only_instr_pushed(
                old(self).module,
                final(self).module,
                c.fid,
                c.bid,
                Instr::Store { ptr, value },
                old(self).module.functions[c.fid as int].next_reg,
            ),
            (ptr matches Ptr::Local { reg } ==> final(self).module.functions[c.fid as int].store_exists(
                reg,
            )),
    {
        self.module.build_store(c.fid, c.bid, ptr, value);
        proof {
            CodeGen::lemma_instr_step(
                *old(self),
                *self,
                c.fid,
                c.bid,
                Instr::Store { ptr, value },
                old(self).module.functions[c.fid as int].next_reg,
            );
        }
    }

    /// A signed integer binary operation at the cursor.
    pub fn w_int_bin(
        &mut self,
        c: Cursor,
        op: IntBinOp,
        ty: BasicType,
        a: ValueRef,
        b: ValueRef,
    ) -> (r: Result<ValueRef, LLVMCompileError>)
        requires
            old(self).inv(),
            old(self).cursor == Some(c),
            old(self).module.open_at(c.fid, c.bid),
        ensures
            final(self).inv(),
            match r {
                Ok(v) => {
                    &&& expr_frame(*old(self), *final(self))
                    &&& v == (ValueRef::Reg {
                        id: old(self).module.functions[c.fid as int].next_reg,
                        ty,
                    })
                    &&& v.ty() == ty
                    &&& Module::only_instr_pushed(
                        old(self).module,
                        final(self).module,
                        c.fid,
                        c.bid,
                        Instr::IntBin {
                            dst: old(self).module.functions[c.fid as int].next_reg,
                            op,
                            ty,
                            a,
                            b,
                        },
                        (old(self).module.functions[c.fid as int].next_reg + 1) as usize,
                    )
                },
                Err(e) => *final(self) == *old(self) && (e.error matches
                    LLVMCompileErrorType::NotImplemented(_)) && e.location == Some(old(self).loc),
            },
            (r is Err <==> old(self).module.functions[c.fid as int].next_reg == usize::MAX),
    {
        if self.module.functions[c.fid].next_reg == usize::MAX {
            return Err(
                self.err_here(
                    LLVMCompileErrorType::NotImplemented("function too large".to_owned()),
                ),
            );
        }
        let v = self.module.build_int_bin(c.fid, c.bid, op, ty, a, b);
        proof {
            CodeGen::lemma_instr_step(
                *old(self),
                *self,
                c.fid,
                c.bid,
                Instr::IntBin {
                    dst: old(self).module.functions[c.fid as int].next_reg,
                    op,
                    ty,
                    a,
                    b,
                },
                (old(self).module.functions[c.fid as int].next_reg + 1) as usize,
            );
        }
        Ok(v)
    }

    /// A float binary operation at the cursor.
    pub fn w_float_bin(&mut self, c: Cursor, op: FloatBinOp, a: ValueRef, b: ValueRef) -> (r:
        Result<ValueRef, LLVMCompileError>)
        requires
            old(self).inv(),
            old(self).cursor == Some(c),
            old(self).module.open_at(c.fid, c.bid),
        ensures
            final(self).inv(),
            match r {
                Ok(v) => {
                    &&& expr_frame(*old(self), *final(self))
                    &&& v == (ValueRef::Reg {
                        id: old(self).module.functions[c.fid as int].next_reg,
                        ty: BasicType::F32,
                    })
                    &&& v.ty() == BasicType::F32
                    &&& Module::only_instr_pushed(
                        old(self).module,
                        final(self).module,
                        c.fid,
                        c.bid,
                        Instr::FloatBin {
                            dst: old(self).module.functions[c.fid as int].next_reg,
                            op,
                            a,
                            b,
                        },
                        (old(self).module.functions[c.fid as int].next_reg + 1) as usize,
                    )
                },
                Err(e) => *final(self) == *old(self) && (e.error matches
                    LLVMCompileErrorType::NotImplemented(_)) && e.location == Some(old(self).loc),
            },
            (r is Err <==> old(self).module.functions[c.fid as int].next_reg == usize::MAX),
    {
        if self.module.functions[c.fid].next_reg == usize::MAX {
            return Err(
                self.err_here(
                    LLVMCompileErrorType::NotImplemented("function too large".to_owned()),
                ),
            );
        }
        let v = self.module.build_float_bin(c.fid, c.bid, op, a, b);
        proof {
            CodeGen::lemma_instr_step(
                *old(self),
                *self,
                c.fid,
                c.bid,
                Instr::FloatBin {
                    dst: old(self).module.functions[c.fid as int].next_reg,
                    op,
                    a,
                    b,
                },
                (old(self).module.functions[c.fid as int].next_reg + 1) as usize,
            );
        }
        Ok(v)
    }

    /// Signed integer to float conversion at the cursor.
    pub fn w_si_to_fp(&mut self, c: Cursor, a: ValueRef) -> (r: Result<
        ValueRef,
        LLVMCompileError,
    >)
        requires
            old(self).inv(),
            old(self).cursor == Some(c),
            old(self).module.open_at(c.fid, c.bid),
        ensures
            final(self).inv(),
            match r {
                Ok(v) => {
                    &&& expr_frame(*old(self), *final(self))
                    &&& v == (ValueRef::Reg {
                        id: old(self).module.functions[c.fid as int].next_reg,
                        ty: BasicType::F32,
                    })
                    &&& v.ty() == BasicType::F32
                    &&& Module::only_instr_pushed(
                        old(self).module,
                        final(self).module,
                        c.fid,
                        c.bid,
                        Instr::SiToFp {
                            dst: old(self).module.functions[c.fid as int].next_reg,
                            a,
                        },
                        (old(self).module.functions[c.fid as int].next_reg + 1) as usize,
                    )
                },
                Err(e) => *final(self) == *old(self) && (e.error matches
                    LLVMCompileErrorType::NotImplemented(_)) && e.location == Some(old(self).loc),
            },
            (r is Err <==> old(self).module.functions[c.fid as int].next_reg == usize::MAX),
    {
        if self.module.functions[c.fid].next_reg == usize::MAX {
            return Err(
                self.err_here(
                    LLVMCompileErrorType::NotImplemented("function too large".to_owned()),
                ),
            );
        }
        let v = self.module.build_si_to_fp(c.fid, c.bid, a);
        proof {
            CodeGen::lemma_instr_step(
                *old(self),
                *self,
                c.fid,
                c.bid,
                Instr::SiToFp { dst: old(self).module.functions[c.fid as int].next_reg, a },
                (old(self).module.functions[c.fid as int].next_reg + 1) as usize,
            );
        }
        Ok(v)
    }

    /// Integer resize (truncate or extend) at the cursor.
    pub fn w_int_resize(&mut self, c: Cursor, to: BasicType, a: ValueRef) -> (r: Result<
        ValueRef,
        LLVMCompileError,
    >)
        requires
            old(self).inv(),
            old(self).cursor == Some(c),
            old(self).module.open_at(c.fid, c.bid),
        ensures
            final(self).inv(),
            match r {
                Ok(v) => {
                    &&& expr_frame(*old(self), *final(self))
                    &&& v == (ValueRef::Reg {
                        id: old(self).module.functions[c.fid as int].next_reg,
                        ty: to,
                    })
                    &&& v.ty() == to
                    &&& Module::only_instr_pushed(
                        old(self).module,
                        final(self).module,
                        c.fid,
                        c.bid,
                        Instr::IntResize {
                            dst: old(self).module.functions[c.fid as int].next_reg,
                            to,
                            a,
                        },
                        (old(self).module.functions[c.fid as int].next_reg + 1) as usize,
                    )
                },
                Err(e) => *final(self) == *old(self) && (e.error matches
                    LLVMCompileErrorType::NotImplemented(_)) && e.location == Some(old(self).loc),
            },
            (r is Err <==> old(self).module.functions[c.fid as int].next_reg == usize::MAX),
    {
        if self.module.functions[c.fid].next_reg == usize::MAX {
            return Err(
                self.err_here(
                    LLVMCompileErrorType::NotImplemented("function too large".to_owned()),
                ),
            );
        }
        let v = self.module.build_int_resize(c.fid, c.bid, to, a);
        proof {
            CodeGen::lemma_instr_step(
                *old(self),
                *self,
                c.fid,
                c.bid,
                Instr::IntResize {
                    dst: old(self).module.functions[c.fid as int].next_reg,
                    to,
                    a,
                },
                (old(self).module.functions[c.fid as int].next_reg + 1) as usize,
            );
        }
        Ok(v)
    }

    /// A signed integer comparison at the cursor; the result is `i1`.
    pub fn w_icmp(&mut self, c: Cursor, pred: IntPredicate, a: ValueRef, b: ValueRef) -> (r:
        Result<ValueRef, LLVMCompileError>)
        requires
            old(self).inv(),
            old(self).cursor == Some(c),
            old(self).module.open_at(c.fid, c.bid),
        ensures
            final(self).inv(),
            match r {
                Ok(v) => {
                    &&& expr_frame(*old(self), *final(self))
                    &&& v == (ValueRef::Reg {
                        id: old(self).module.functions[c.fid as int].next_reg,
                        ty: BasicType::I1,
                    })
                    &&& v.ty() == BasicType::I1
                    &&& Module::only_instr_pushed(
                        old(self).module,
                        final(self).module,
                        c.fid,
                        c.bid,
                        Instr::ICmp {
                            dst: old(self).module.functions[c.fid as int].next_reg,
                            pred,
                            a,
                            b,
                        },
                        (old(self).module.functions[c.fid as int].next_reg + 1) as usize,
                    )
                },
                Err(e) => *final(self) == *old(self) && (e.error matches
                    LLVMCompileErrorType::NotImplemented(_)) && e.location == Some(old(self).loc),
            },
            (r is Err <==> old(self).module.functions[c.fid as int].next_reg == usize::MAX),
    {
        if self.module.functions[c.fid].next_reg == usize::MAX {
            return Err(
                self.err_here(
                    LLVMCompileErrorType::NotImplemented("function too large".to_owned()),
                ),
            );
        }
        let v = self.module.build_int_compare(c.fid, c.bid, pred, a, b);
        proof {
            CodeGen::lemma_instr_step(
                *old(self),
                *self,
                c.fid,
                c.bid,
                Instr::ICmp {
                    dst: old(self).module.functions[c.fid as int].next_reg,
                    pred,
                    a,
                    b,
                },
                (old(self).module.functions[c.fid as int].next_reg + 1) as usize,
            );
        }
        Ok(v)
    }

    /// An ordered float comparison at the cursor; the result is `i1`.
    pub fn w_fcmp(&mut self, c: Cursor, pred: FloatPredicate, a: ValueRef, b: ValueRef) -> (r:
        Result<ValueRef, LLVMCompileError>)
        requires
            old(self).inv(),
            old(self).cursor == Some(c),
            old(self).module.open_at(c.fid, c.bid),
        ensures
            final(self).inv(),
            match r {
                Ok(v) => {
                    &&& expr_frame(*old(self), *final(self))
                    &&& v == (ValueRef::Reg {
                        id: old(self).module.functions[c.fid as int].next_reg,
                        ty: BasicType::I1,
                    })
                    &&& v.ty() == BasicType::I1
                    &&& Module::only_instr_pushed(
                        old(self).module,
                        final(self).module,
                        c.fid,
                        c.bid,
                        Instr::FCmp {
                            dst: old(self).module.functions[c.fid as int].next_reg,
                            pred,
                            a,
                            b,
                        },
                        (old(self).module.functions[c.fid as int].next_reg + 1) as usize,
                    )
                },
                Err(e) => *final(self) == *old(self) && (e.error matches
                    LLVMCompileErrorType::NotImplemented(_)) && e.location == Some(old(self).loc),
            },
            (r is Err <==> old(self).module.functions[c.fid as int].next_reg == usize::MAX),
    {
        if self.module.functions[c.fid].next_reg == usize::MAX {
            return Err(
                self.err_here(
                    LLVMCompileErrorType::NotImplemented("function too large".to_owned()),
                ),
            );
        }
        let v = self.module.build_float_compare(c.fid, c.bid, pred, a, b);
        proof {
            CodeGen::lemma_instr_step(
                *old(self),
                *self,
                c.fid,
                c.bid,
                Instr::FCmp {
                    dst: old(self).module.functions[c.fid as int].next_reg,
                    pred,
                    a,
                    b,
                },
                (old(self).module.functions[c.fid as int].next_reg + 1) as usize,
            );
        }
        Ok(v)
    }

    /// A tail call at the cursor.  The coerced argument types must exactly
    /// match the callee's declared parameter types; the result is `Some`
    /// exactly when the callee returns a value.
    pub fn w_call(&mut self, c: Cursor, callee: usize, args: Vec<ValueRef>, tail: bool) -> (r:
        Result<Option<ValueRef>, LLVMCompileError>)
        requires
            old(self).inv(),
            old(self).cursor == Some(c),
            old(self).module.open_at(c.fid, c.bid),
            callee < old(self).module.functions.len(),
            args.len() == old(self).module.functions[callee as int].params.len(),
            forall|j: int|
                0 <= j < args.len() ==> (#[trigger] args[j]).ty()
                    == old(self).module.functions[callee as int].params[j],
        ensures
            final(self).inv(),
            match r {
                Ok(ret) => {
                    &&& expr_frame(*old(self), *final(self))
                    &&& match old(self).module.functions[callee as int].ret {
                        Some(ty) => ret == Some(
                            ValueRef::Reg {
                                id: old(self).module.functions[c.fid as int].next_reg,
                                ty,
                            },
                        ) && Module::only_instr_pushed(
                            old(self).module,
                            final(self).module,
                            c.fid,
                            c.bid,
                            Instr::Call {
                                dst: Some(old(self).module.functions[c.fid as int].next_reg),
                                dst_ty: Some(ty),
                                callee,
                                args,
                                tail,
                            },
                            (old(self).module.functions[c.fid as int].next_reg + 1) as usize,
                        ),
                        None => ret is None && Module::only_instr_pushed(
                            old(self).module,
                            final(self).module,
                            c.fid,
                            c.bid,
                            Instr::Call { dst: None, dst_ty: None, callee, args, tail },
                            old(self).module.functions[c.fid as int].next_reg,
                        ),
                    }
                },
                Err(e) => *final(self) == *old(self) && (e.error matches
                    LLVMCompileErrorType::NotImplemented(_)) && e.location == Some(old(self).loc),
            },
            (r is Err <==> old(self).module.functions[c.fid as int].next_reg == usize::MAX),
    {
        if self.module.functions[c.fid].next_reg == usize::MAX {
            return Err(
                self.err_here(
                    LLVMCompileErrorType::NotImplemented("function too large".to_owned()),
                ),
            );
        }
        let v = self.module.build_call(c.fid, c.bid, callee, args, tail);
        proof {
            let o = *old(self);
            match o.module.functions[callee as int].ret {
                Some(ty) => {
                    CodeGen::lemma_instr_step(
                        o,
                        *self,
                        c.fid,
                        c.bid,
                        Instr::Call {
                            dst: Some(o.module.functions[c.fid as int].next_reg),
                            dst_ty: Some(ty),
                            callee,
                            args,
                            tail,
                        },
                        (o.module.functions[c.fid as int].next_reg + 1) as usize,
                    );
                },
                None => {
                    CodeGen::lemma_instr_step(
                        o,
                        *self,
                        c.fid,
                        c.bid,
                        Instr::Call { dst: None, dst_ty: None, callee, args, tail },
                        o.module.functions[c.fid as int].next_reg,
                    );
                },
            }
        }
        Ok(v)
    }
}


impl CodeGen {
    /// Append a fresh, open basic block to a function of the module.
    pub fn w_append_block(&mut self, fid: usize) -> (bid: usize)
        requires
            old(self).inv(),
            fid < old(self).module.functions.len(),
        ensures
            final(self).inv(),
            Module::extends(old(self).module, final(self).module),
            Module::only_block_appended(old(self).module, final(self).module, fid),
            bid == old(self).module.functions[fid as int].blocks.len(),
            final(self).module.open_at(fid, bid),
            final(self).compile_context == old(self).compile_context,
            final(self).fn_value == old(self).fn_value,
            final(self).cursor == old(self).cursor,
            final(self).mi_cursor == old(self).mi_cursor,
            final(self).locals == old(self).locals,
            final(self).globals == old(self).globals,
            final(self).loc == old(self).loc,
    {
        let bid = self.module.append_basic_block(fid);
        proof {
            let o = *old(self);
            let n = *self;
            lemma_locals_wf_monotone(o, n);
            match o.mi_cursor {
                Some(mc) => {
                    if mc.fid as int == fid as int {
                        assert(n.module.functions[mc.fid as int].blocks[mc.bid as int]
                            == o.module.functions[mc.fid as int].blocks[mc.bid as int]);
                    } else {
                        assert(n.module.functions[mc.fid as int] == o.module.functions[mc.fid
                            as int]);
                    }
                },
                None => {},
            }
        }
        bid
    }

    /// Bind a local name to a typed storage slot; reads of the name will load
    /// through the slot, which has already been stored to.
    pub fn bind_local(&mut self, name: &String, vt: crate::value::ValueType, ptr: Ptr)
        requires
            old(self).inv(),
            old(self).fn_value is Some,
            vt != crate::value::ValueType::Void,
            (ptr matches Ptr::Local { .. }),
            (ptr matches Ptr::Local { reg } ==> old(self).module.functions[old(
                self,
            ).fn_value->Some_0 as int].store_exists(reg)),
        ensures
            final(self).inv(),
            final(self).module == old(self).module,
            final(self).compile_context == old(self).compile_context,
            final(self).fn_value == old(self).fn_value,
            final(self).cursor == old(self).cursor,
            final(self).mi_cursor == old(self).mi_cursor,
            final(self).globals == old(self).globals,
            final(self).loc == old(self).loc,
            final(self).locals.depth() == old(self).locals.depth(),
            final(self).locals.spec_load(name@) == Some(
                crate::scope::LLVMVariable { value_type: vt, pointer: ptr },
            ),
            forall|other: Seq<char>|
                other != name@ ==> #[trigger] final(self).locals.spec_load(other) == old(
                    self,
                ).locals.spec_load(other),
    {
        self.locals.set(name, crate::scope::LLVMVariable { value_type: vt, pointer: ptr });
        proof {
            let f = self.fn_value->Some_0;
            assert forall|i: int| 0 <= i < self.locals.active().len() implies (
            #[trigger] self.locals.active()[i]).1.value_type != crate::value::ValueType::Void
                && match self.locals.active()[i].1.pointer {
                Ptr::Local { reg } => self.module.functions[f as int].store_exists(reg),
                Ptr::Global { .. } => false,
            } by {
                if i > 0 {
                    assert(self.locals.active()[i] == old(self).locals.active()[i - 1]);
                }
            }
        }
    }
}

} // verus!
