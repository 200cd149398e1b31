//! The intermediate representation the emitter builds.
//!
//! A module owns functions and globals; a function owns basic blocks; a basic
//! block is a straight-line instruction sequence with at most one terminator,
//! and exactly one once emission of its function has finished.  Registers are
//! in SSA form: each instruction that produces a value gets a fresh id, and a
//! value reference carries the type it was created at.
//!
//! The builder methods on `Module` are the only way the emitter grows IR, and
//! each preserves the module invariant `Module::wf`:
//! - every `call` instruction's argument types exactly match the callee's
//!   declared parameter types;
//! - every load through a local storage pointer sits in a function that
//!   already holds a store through the same pointer;
//! - no two read-only string globals hold the same contents;
//! - every mutable global's initializer is a constant.

use vstd::prelude::*;

verus! {

/// An IR-level first-class type.
#[derive(Debug, Clone, Copy, PartialEq, Eq, Structural)]
pub enum BasicType {
    I1,
    I8,
    I16,
    I32,
    F32,
    PtrI8,
}

impl BasicType {
    /// Whether this is an integer type.
    pub open spec fn is_int(self) -> bool {
        match self {
            BasicType::I1 | BasicType::I8 | BasicType::I16 | BasicType::I32 => true,
            _ => false,
        }
    }

    /// The value mask of an integer type: an `n`-bit constant is canonical
    /// when masking changes nothing.
    pub open spec fn mask(self) -> u64 {
        match self {
            BasicType::I1 => 0x1u64,
            BasicType::I8 => 0xffu64,
            BasicType::I16 => 0xffffu64,
            BasicType::I32 => 0xffffffffu64,
            _ => 0u64,
        }
    }
}

/// Symbol visibility of a function or global.
#[derive(Debug, Clone, Copy, PartialEq, Eq, Structural)]
pub enum Linkage {
    External,
    Internal,
}

/// Signed integer comparison predicates.
#[derive(Debug, Clone, Copy, PartialEq, Eq, Structural)]
pub enum IntPredicate {
    EQ,
    NE,
    SLT,
    SLE,
    SGT,
    SGE,
}

/// Ordered float comparison predicates: each is false when an operand is NaN.
#[derive(Debug, Clone, Copy, PartialEq, Eq, Structural)]
pub enum FloatPredicate {
    OEQ,
    ONE,
    OLT,
    OLE,
    OGT,
    OGE,
}

/// A storage pointer: the address of a mutable global cell or of a
/// function-local stack slot (the register an `alloca` produced).
#[derive(Debug, Clone, Copy, PartialEq, Eq, Structural)]
pub enum Ptr {
    Global { id: usize },
    Local { reg: usize },
}

/// A reference to an IR value, carrying the type it was created at.
#[derive(Debug, Clone, Copy, PartialEq, Eq, Structural)]
pub enum ValueRef {
    /// The result of an instruction.
    Reg { id: usize, ty: BasicType },
    /// An incoming function parameter.
    Arg { index: usize, ty: BasicType },
    /// An integer constant; `bits` holds the two's-complement value.
    ConstInt { ty: BasicType, bits: u64 },
    /// A single-precision float constant, by its IEEE bits.
    ConstFloat { bits: u32 },
    /// The address of an interned read-only string global.
    StrPtr { id: usize },
}

impl ValueRef {
    /// The IR type of this value.
    pub open spec fn ty(self) -> BasicType {
        match self {
            ValueRef::Reg { ty, .. } => ty,
            ValueRef::Arg { ty, .. } => ty,
            ValueRef::ConstInt { ty, .. } => ty,
            ValueRef::ConstFloat { .. } => BasicType::F32,
            ValueRef::StrPtr { .. } => BasicType::PtrI8,
        }
    }

    /// An integer constant is canonical when its bits fit its type's width.
    pub open spec fn canonical(self) -> bool {
        match self {
            ValueRef::ConstInt { ty, bits } => ty.is_int() && bits & ty.mask() == bits,
            _ => true,
        }
    }

    /// Whether this value is a constant, usable as a global initializer.
    pub open spec fn is_const(self) -> bool {
        match self {
            ValueRef::ConstInt { .. } | ValueRef::ConstFloat { .. } | ValueRef::StrPtr {
                ..
            } => true,
            _ => false,
        }
    }

    pub fn get_ty(&self) -> (r: BasicType)
        ensures
            r == self.ty(),
    {
        match self {
            ValueRef::Reg { ty, .. } => *ty,
            ValueRef::Arg { ty, .. } => *ty,
            ValueRef::ConstInt { ty, .. } => *ty,
            ValueRef::ConstFloat { .. } => BasicType::F32,
            ValueRef::StrPtr { .. } => BasicType::PtrI8,
        }
    }

    pub fn constant(&self) -> (r: bool)
        ensures
            r == self.is_const(),
    {
        match self {
            ValueRef::ConstInt { .. } => true,
            ValueRef::ConstFloat { .. } => true,
            ValueRef::StrPtr { .. } => true,
            _ => false,
        }
    }
}

#[derive(Debug, Clone, Copy, PartialEq, Eq, Structural)]
pub enum IntBinOp {
    Add,
    Sub,
    Mul,
    SDiv,
    SRem,
}

#[derive(Debug, Clone, Copy, PartialEq, Eq, Structural)]
pub enum FloatBinOp {
    FAdd,
    FSub,
    FMul,
    FDiv,
    FRem,
}

/// A non-terminating instruction.
#[derive(Debug, Clone, PartialEq, Eq)]
pub enum Instr {
    /// Reserve a stack slot for a value of `ty`; the result register is the
    /// slot's address.
    Alloca { dst: usize, ty: BasicType },
    /// Read a value of `ty` through a storage pointer.
    Load { dst: usize, ty: BasicType, ptr: Ptr },
    /// Write a value through a storage pointer.
    Store { ptr: Ptr, value: ValueRef },
    /// A signed integer binary operation at type `ty`.
    IntBin { dst: usize, op: IntBinOp, ty: BasicType, a: ValueRef, b: ValueRef },
    /// A float binary operation at `f32`.
    FloatBin { dst: usize, op: FloatBinOp, a: ValueRef, b: ValueRef },
    /// Signed integer to float conversion.
    SiToFp { dst: usize, a: ValueRef },
    /// Integer resize (truncate or extend) to `to`.
    IntResize { dst: usize, to: BasicType, a: ValueRef },
    /// Signed integer comparison; the result is `i1`.
    ICmp { dst: usize, pred: IntPredicate, a: ValueRef, b: ValueRef },
    /// Ordered float comparison; the result is `i1`.
    FCmp { dst: usize, pred: FloatPredicate, a: ValueRef, b: ValueRef },
    /// Call function `callee` of the module; `dst` is `Some` exactly when the
    /// callee returns a value.
    Call { dst: Option<usize>, dst_ty: Option<BasicType>, callee: usize, args: Vec<ValueRef>, tail: bool },
}

/// The single terminator of a finished basic block.
#[derive(Debug, Clone, Copy, PartialEq, Eq, Structural)]
pub enum Terminator {
    Ret { value: Option<ValueRef> },
    Br { target: usize },
    CondBr { cond: ValueRef, then_target: usize, else_target: usize },
}

/// A basic block: a straight-line instruction sequence and at most one
/// terminator (exactly one once its function is finished).
#[derive(Debug, PartialEq, Eq)]
pub struct Block {
    pub instrs: Vec<Instr>,
    pub terminator: Option<Terminator>,
}

/// A function: a prototype when `blocks` is empty, a definition otherwise.
#[derive(Debug, PartialEq, Eq)]
pub struct Function {
    pub name: String,
    pub linkage: Linkage,
    pub params: Vec<BasicType>,
    pub param_names: Vec<String>,
    pub ret: Option<BasicType>,
    pub blocks: Vec<Block>,
    /// The next free SSA register id.
    pub next_reg: usize,
}

/// A module-level value.
#[derive(Debug, PartialEq, Eq)]
pub enum GlobalKind {
    /// An interned read-only NUL-terminated string.
    Text { data: String },
    /// A mutable cell with internal linkage, unnamed address and a constant
    /// initializer.
    Var { ty: BasicType, init: ValueRef },
}

#[derive(Debug, PartialEq, Eq)]
pub struct Global {
    pub name: String,
    pub kind: GlobalKind,
}

/// An IR module: the unit of compilation.
#[derive(Debug, PartialEq, Eq)]
pub struct Module {
    pub name: String,
    pub data_layout: String,
    pub triple: String,
    pub functions: Vec<Function>,
    pub globals: Vec<Global>,
}

// ---------------------------------------------------------------------------
// Spec-level structure and the module invariant
// ---------------------------------------------------------------------------

impl Block {
    pub open spec fn terminated(self) -> bool {
        self.terminator is Some
    }
}

impl Function {
    /// A store through local slot `reg` exists somewhere in this function.
    pub open spec fn store_exists(self, reg: usize) -> bool {
        exists|bi: int, ii: int|
            0 <= bi < self.blocks.len() && 0 <= ii < self.blocks[bi].instrs.len()
                && #[trigger] self.blocks[bi].instrs[ii] == (Instr::Store {
                ptr: Ptr::Local { reg },
                value: self.blocks[bi].instrs[ii]->Store_value,
            })
    }

    /// Every load through a local slot has a matching store in this function.
    pub open spec fn loads_stored(self) -> bool {
        forall|bi: int, ii: int|
            0 <= bi < self.blocks.len() && 0 <= ii < self.blocks[bi].instrs.len() ==> match #[trigger] self.blocks[bi].instrs[ii] {
                Instr::Load { ptr: Ptr::Local { reg }, .. } => self.store_exists(reg),
                _ => true,
            }
    }

    /// Every basic block of this function ends with exactly one terminator.
    pub open spec fn fully_terminated(self) -> bool {
        forall|bi: int| 0 <= bi < self.blocks.len() ==> (#[trigger] self.blocks[bi]).terminated()
    }

    /// `n` extends `o`: the signature is unchanged and blocks, instructions
    /// and registers have only been appended (and open blocks possibly
    /// terminated).
    pub open spec fn extends(o: Function, n: Function) -> bool {
        &&& n.name == o.name
        &&& n.linkage == o.linkage
        &&& n.params == o.params
        &&& n.param_names == o.param_names
        &&& n.ret == o.ret
        &&& o.next_reg <= n.next_reg
        &&& o.blocks.len() <= n.blocks.len()
        &&& forall|bi: int|
            0 <= bi < o.blocks.len() ==> Block::extends(
                #[trigger] o.blocks[bi],
                n.blocks[bi],
            )
    }
}

impl Block {
    pub open spec fn extends(o: Block, n: Block) -> bool {
        &&& o.instrs.len() <= n.instrs.len()
        &&& forall|ii: int| 0 <= ii < o.instrs.len() ==> #[trigger] n.instrs[ii] == o.instrs[ii]
        &&& (o.terminator is Some ==> n.terminator == o.terminator)
    }
}

impl Module {
    /// One call instruction is well typed against this module.
    pub open spec fn call_ok(self, i: Instr) -> bool {
        match i {
            Instr::Call { callee, args, .. } => {
                &&& callee < self.functions.len()
                &&& args.len() == self.functions[callee as int].params.len()
                &&& forall|j: int|
                    0 <= j < args.len() ==> (#[trigger] args[j]).ty()
                        == self.functions[callee as int].params[j]
            },
            _ => true,
        }
    }

    /// Every call instruction anywhere in the module passes arguments whose
    /// types exactly match the callee's declared parameter types.
    pub open spec fn calls_wf(self) -> bool {
        forall|fi: int, bi: int, ii: int|
            0 <= fi < self.functions.len() && 0 <= bi < self.functions[fi].blocks.len() && 0 <= ii
                < self.functions[fi].blocks[bi].instrs.len() ==> self.call_ok(
                #[trigger] self.functions[fi].blocks[bi].instrs[ii],
            )
    }

    /// Every local read sits in a function that stores through the same slot.
    pub open spec fn loads_wf(self) -> bool {
        forall|fi: int|
            0 <= fi < self.functions.len() ==> (#[trigger] self.functions[fi]).loads_stored()
    }

    /// Two interned string globals never hold the same contents.
    pub open spec fn strings_unique(self) -> bool {
        forall|i: int, j: int|
            (0 <= i < self.globals.len() && 0 <= j < self.globals.len() && ((
            #[trigger] self.globals[i].kind) matches GlobalKind::Text { .. }) && ((
            #[trigger] self.globals[j].kind) matches GlobalKind::Text { .. })
                && self.globals[i].kind->Text_data@ == self.globals[j].kind->Text_data@) ==> i == j
    }

    /// Every mutable global is initialized with a constant.
    pub open spec fn globals_const(self) -> bool {
        forall|i: int|
            0 <= i < self.globals.len() ==> match (#[trigger] self.globals[i]).kind {
                GlobalKind::Var { init, .. } => init.is_const(),
                GlobalKind::Text { .. } => true,
            }
    }

    /// Every store goes through a function-local stack slot: mutable global
    /// cells are written only by their initializers, never by a store, so
    /// emitted code cannot mutate a global behind a shadowing local.
    pub open spec fn stores_local(self) -> bool {
        forall|fi: int, bi: int, ii: int|
            0 <= fi < self.functions.len() && 0 <= bi < self.functions[fi].blocks.len() && 0 <= ii
                < self.functions[fi].blocks[bi].instrs.len() ==> match #[trigger] self.functions[fi].blocks[bi].instrs[ii] {
                Instr::Store { ptr, .. } => ptr matches Ptr::Local { .. },
                _ => true,
            }
    }

    /// One terminator is well formed in its function: a value-returning `ret`
    /// carries a value of the declared return type, and every branch targets
    /// an existing block with an `i1` condition.
    pub open spec fn term_ok(self, fi: int, t: Terminator) -> bool {
        match t {
            Terminator::Ret { value: Some(v) } => self.functions[fi].ret == Some(v.ty()),
            Terminator::Ret { value: None } => true,
            Terminator::Br { target } => target < self.functions[fi].blocks.len(),
            Terminator::CondBr { cond, then_target, else_target } => then_target
                < self.functions[fi].blocks.len() && else_target < self.functions[fi].blocks.len()
                && cond.ty() == BasicType::I1,
        }
    }

    /// Every terminator anywhere in the module is well formed.
    pub open spec fn terms_wf(self) -> bool {
        forall|fi: int, bi: int|
            0 <= fi < self.functions.len() && 0 <= bi < self.functions[fi].blocks.len()
                ==> match (#[trigger] self.functions[fi].blocks[bi]).terminator {
                Some(t) => self.term_ok(fi, t),
                None => true,
            }
    }

    /// Some function of the module bears this name.
    pub open spec fn has_function_named(self, name: Seq<char>) -> bool {
        exists|f: int|
            0 <= f < self.functions.len() && (#[trigger] self.functions[f].name)@ == name
    }

    /// The module invariant every builder operation preserves.
    pub open spec fn wf(self) -> bool {
        &&& self.calls_wf()
        &&& self.loads_wf()
        &&& self.strings_unique()
        &&& self.globals_const()
        &&& self.stores_local()
        &&& self.terms_wf()
    }

    /// Every block of every function ends with exactly one terminator.
    pub open spec fn fully_terminated(self) -> bool {
        forall|fi: int|
            0 <= fi < self.functions.len() ==> (#[trigger] self.functions[fi]).fully_terminated()
    }

    /// `n` extends `o`: nothing already emitted has changed; functions,
    /// blocks, instructions and globals have only been appended, and open
    /// blocks possibly terminated.
    pub open spec fn extends(o: Module, n: Module) -> bool {
        &&& n.name == o.name
        &&& n.data_layout == o.data_layout
        &&& n.triple == o.triple
        &&& o.functions.len() <= n.functions.len()
        &&& forall|fi: int|
            0 <= fi < o.functions.len() ==> Function::extends(
                #[trigger] o.functions[fi],
                n.functions[fi],
            )
        &&& o.globals.len() <= n.globals.len()
        &&& forall|gi: int| 0 <= gi < o.globals.len() ==> #[trigger] n.globals[gi] == o.globals[gi]
    }

    /// A valid insertion point: function and block indices in range.
    pub open spec fn valid_pos(self, fid: usize, bid: usize) -> bool {
        fid < self.functions.len() && bid < self.functions[fid as int].blocks.len()
    }

    /// The block at an insertion point is still open.
    pub open spec fn open_at(self, fid: usize, bid: usize) -> bool {
        self.valid_pos(fid, bid) && !self.functions[fid as int].blocks[bid as int].terminated()
    }
}

/// Extension is transitive; used to chain emission steps.
pub proof fn lemma_extends_trans(a: Module, b: Module, c: Module)
    requires
        Module::extends(a, b),
        Module::extends(b, c),
    ensures
        Module::extends(a, c),
{
    assert forall|fi: int| 0 <= fi < a.functions.len() implies Function::extends(
        #[trigger] a.functions[fi],
        c.functions[fi],
    ) by {
        assert(Function::extends(a.functions[fi], b.functions[fi]));
        assert(Function::extends(b.functions[fi], c.functions[fi]));
        assert forall|bi: int| 0 <= bi < a.functions[fi].blocks.len() implies Block::extends(
            #[trigger] a.functions[fi].blocks[bi],
            c.functions[fi].blocks[bi],
        ) by {
            assert(Block::extends(a.functions[fi].blocks[bi], b.functions[fi].blocks[bi]));
            assert(Block::extends(b.functions[fi].blocks[bi], c.functions[fi].blocks[bi]));
        }
    }
}

pub proof fn lemma_block_extends_refl(b: Block)
    ensures
        Block::extends(b, b),
{
}

pub proof fn lemma_fn_extends_refl(f: Function)
    ensures
        Function::extends(f, f),
{
    assert forall|bi: int| 0 <= bi < f.blocks.len() implies Block::extends(
        #[trigger] f.blocks[bi],
        f.blocks[bi],
    ) by {
        lemma_block_extends_refl(f.blocks[bi]);
    }
}

/// A store that exists keeps existing as the function grows.
pub proof fn lemma_store_exists_monotone(o: Function, n: Function, reg: usize)
    requires
        Function::extends(o, n),
        o.store_exists(reg),
    ensures
        n.store_exists(reg),
{
    let (bi, ii): (int, int) = choose|bi: int, ii: int|
        0 <= bi < o.blocks.len() && 0 <= ii < o.blocks[bi].instrs.len()
            && #[trigger] o.blocks[bi].instrs[ii] == (Instr::Store {
            ptr: Ptr::Local { reg },
            value: o.blocks[bi].instrs[ii]->Store_value,
        });
    assert(Block::extends(o.blocks[bi], n.blocks[bi]));
    assert(n.blocks[bi].instrs[ii] == o.blocks[bi].instrs[ii]);
}

// ---------------------------------------------------------------------------
// Precise deltas of the builder operations
// ---------------------------------------------------------------------------

impl Module {
    /// `n` equals `o` except that `instr` was appended to block `bid` of
    /// function `fid` and that function's register counter moved to
    /// `new_next_reg`.
    pub open spec fn only_instr_pushed(
        o: Module,
        n: Module,
        fid: usize,
        bid: usize,
        instr: Instr,
        new_next_reg: usize,
    ) -> bool {
        &&& o.valid_pos(fid, bid)
        &&& n.name == o.name
        &&& n.data_layout == o.data_layout
        &&& n.triple == o.triple
        &&& n.globals == o.globals
        &&& n.functions.len() == o.functions.len()
        &&& forall|f: int|
            0 <= f < o.functions.len() && f != fid as int ==> #[trigger] n.functions[f]
                == o.functions[f]
        &&& Function::only_instr_pushed(
            o.functions[fid as int],
            n.functions[fid as int],
            bid,
            instr,
            new_next_reg,
        )
    }

    /// `n` equals `o` except that one fresh, empty, open block was appended
    /// to function `fid`.
    pub open spec fn only_block_appended(o: Module, n: Module, fid: usize) -> bool {
        &&& fid < o.functions.len()
        &&& n.name == o.name
        &&& n.data_layout == o.data_layout
        &&& n.triple == o.triple
        &&& n.globals == o.globals
        &&& n.functions.len() == o.functions.len()
        &&& forall|f: int|
            0 <= f < o.functions.len() && f != fid as int ==> #[trigger] n.functions[f]
                == o.functions[f]
        &&& {
            let of = o.functions[fid as int];
            let nf = n.functions[fid as int];
            &&& nf.name == of.name
            &&& nf.linkage == of.linkage
            &&& nf.params == of.params
            &&& nf.param_names == of.param_names
            &&& nf.ret == of.ret
            &&& nf.next_reg == of.next_reg
            &&& nf.blocks.len() == of.blocks.len() + 1
            &&& forall|b: int| 0 <= b < of.blocks.len() ==> #[trigger] nf.blocks[b] == of.blocks[b]
            &&& nf.blocks[of.blocks.len() as int].instrs.len() == 0
            &&& nf.blocks[of.blocks.len() as int].terminator is None
        }
    }

    /// `n` equals `o` except that one function was appended.
    pub open spec fn only_fn_appended(o: Module, n: Module, f: Function) -> bool {
        &&& n.name == o.name
        &&& n.data_layout == o.data_layout
        &&& n.triple == o.triple
        &&& n.globals == o.globals
        &&& n.functions@ == o.functions@.push(f)
    }

    /// `n` equals `o` except that one global was appended.
    pub open spec fn only_global_appended(o: Module, n: Module) -> bool {
        &&& n.name == o.name
        &&& n.data_layout == o.data_layout
        &&& n.triple == o.triple
        &&& n.functions == o.functions
        &&& n.globals.len() == o.globals.len() + 1
        &&& forall|g: int| 0 <= g < o.globals.len() ==> #[trigger] n.globals[g] == o.globals[g]
    }

    /// `n` equals `o` except that the open block at (`fid`, `bid`) received
    /// its terminator.
    pub open spec fn only_terminator_set(
        o: Module,
        n: Module,
        fid: usize,
        bid: usize,
        t: Terminator,
    ) -> bool {
        &&& o.valid_pos(fid, bid)
        &&& n.name == o.name
        &&& n.data_layout == o.data_layout
        &&& n.triple == o.triple
        &&& n.globals == o.globals
        &&& n.functions.len() == o.functions.len()
        &&& forall|f: int|
            0 <= f < o.functions.len() && f != fid as int ==> #[trigger] n.functions[f]
                == o.functions[f]
        &&& {
            let of = o.functions[fid as int];
            let nf = n.functions[fid as int];
            &&& nf.name == of.name
            &&& nf.linkage == of.linkage
            &&& nf.params == of.params
            &&& nf.param_names == of.param_names
            &&& nf.ret == of.ret
            &&& nf.next_reg == of.next_reg
            &&& nf.blocks.len() == of.blocks.len()
            &&& forall|b: int|
                0 <= b < of.blocks.len() && b != bid as int ==> #[trigger] nf.blocks[b]
                    == of.blocks[b]
            &&& of.blocks[bid as int].terminator is None
            &&& nf.blocks[bid as int].terminator == Some(t)
            &&& nf.blocks[bid as int].instrs == of.blocks[bid as int].instrs
        }
    }
}

impl Function {
    /// `nf` equals `of` except that `instr` was appended to block `bid` and
    /// the register counter moved to `new_next_reg`.
    pub open spec fn only_instr_pushed(
        of: Function,
        nf: Function,
        bid: usize,
        instr: Instr,
        new_next_reg: usize,
    ) -> bool {
        &&& nf.name == of.name
        &&& nf.linkage == of.linkage
        &&& nf.params == of.params
        &&& nf.param_names == of.param_names
        &&& nf.ret == of.ret
        &&& nf.next_reg == new_next_reg
        &&& of.next_reg <= new_next_reg
        &&& nf.blocks.len() == of.blocks.len()
        &&& forall|b: int|
            0 <= b < of.blocks.len() && b != bid as int ==> #[trigger] nf.blocks[b] == of.blocks[b]
        &&& nf.blocks[bid as int].instrs@ == of.blocks[bid as int].instrs@.push(instr)
        &&& nf.blocks[bid as int].terminator == of.blocks[bid as int].terminator
    }
}

/// All function signatures of `o` survive unchanged into `n`.
pub open spec fn params_stable(o: Module, n: Module) -> bool {
    &&& o.functions.len() <= n.functions.len()
    &&& forall|f: int|
        0 <= f < o.functions.len() ==> #[trigger] n.functions[f].params == o.functions[f].params
}

/// A call that was well typed against `o` stays well typed against `n`.
proof fn lemma_call_ok_transfer(o: Module, n: Module, i: Instr)
    requires
        o.call_ok(i),
        params_stable(o, n),
    ensures
        n.call_ok(i),
{
}

/// Appending one instruction preserves the module invariant.
proof fn lemma_push_instr_wf(o: Module, n: Module, fid: usize, bid: usize, instr: Instr, nr: usize)
    requires
        o.wf(),
        Module::only_instr_pushed(o, n, fid, bid, instr, nr),
        o.call_ok(instr),
        (instr matches Instr::Load { ptr: Ptr::Local { reg }, .. } ==> o.functions[fid as int].store_exists(
            reg,
        )),
        (instr matches Instr::Store { ptr, .. } ==> ptr matches Ptr::Local { .. }),
    ensures
        n.wf(),
        Module::extends(o, n),
        (instr matches Instr::Store { ptr: Ptr::Local { reg }, .. } ==> n.functions[fid as int].store_exists(
            reg,
        )),
{
    let of = o.functions[fid as int];
    let nf = n.functions[fid as int];
    let oldlen = of.blocks[bid as int].instrs.len() as int;
    // extends
    assert forall|f: int| 0 <= f < o.functions.len() implies Function::extends(
        #[trigger] o.functions[f],
        n.functions[f],
    ) by {
        if f == fid as int {
            assert forall|b: int| 0 <= b < of.blocks.len() implies Block::extends(
                #[trigger] of.blocks[b],
                nf.blocks[b],
            ) by {
                if b == bid as int {
                    assert forall|ii: int| 0 <= ii < of.blocks[b].instrs.len() implies
                        #[trigger] nf.blocks[b].instrs[ii] == of.blocks[b].instrs[ii] by {}
                } else {
                    lemma_block_extends_refl(of.blocks[b]);
                }
            }
        } else {
            lemma_fn_extends_refl(o.functions[f]);
        }
    }
    assert(Module::extends(o, n));
    assert(params_stable(o, n));
    // calls stay well typed
    assert forall|fi: int, bi: int, ii: int|
        0 <= fi < n.functions.len() && 0 <= bi < n.functions[fi].blocks.len() && 0 <= ii
            < n.functions[fi].blocks[bi].instrs.len() implies n.call_ok(
        #[trigger] n.functions[fi].blocks[bi].instrs[ii],
    ) by {
        if fi == fid as int && bi == bid as int && ii == oldlen {
            assert(n.functions[fi].blocks[bi].instrs[ii] == instr);
            lemma_call_ok_transfer(o, n, instr);
        } else {
            assert(n.functions[fi].blocks[bi].instrs[ii] == o.functions[fi].blocks[bi].instrs[ii]);
            assert(o.call_ok(o.functions[fi].blocks[bi].instrs[ii]));
            lemma_call_ok_transfer(o, n, o.functions[fi].blocks[bi].instrs[ii]);
        }
    }
    // loads stay matched by stores
    assert forall|fi: int| 0 <= fi < n.functions.len() implies (
    #[trigger] n.functions[fi]).loads_stored() by {
        if fi == fid as int {
            assert forall|bi: int, ii: int|
                0 <= bi < nf.blocks.len() && 0 <= ii < nf.blocks[bi].instrs.len() implies match
                #[trigger] nf.blocks[bi].instrs[ii] {
                Instr::Load { ptr: Ptr::Local { reg }, .. } => nf.store_exists(reg),
                _ => true,
            } by {
                if bi == bid as int && ii == oldlen {
                    match instr {
                        Instr::Load { ptr: Ptr::Local { reg }, .. } => {
                            lemma_store_exists_monotone(of, nf, reg);
                        },
                        _ => {},
                    }
                } else {
                    assert(nf.blocks[bi].instrs[ii] == of.blocks[bi].instrs[ii]);
                    match of.blocks[bi].instrs[ii] {
                        Instr::Load { ptr: Ptr::Local { reg }, .. } => {
                            assert(of.store_exists(reg));
                            lemma_store_exists_monotone(of, nf, reg);
                        },
                        _ => {},
                    }
                }
            }
        } else {
            assert(n.functions[fi] == o.functions[fi]);
        }
    }
    // strings and global initializers untouched
    assert forall|i: int, j: int|
        (0 <= i < n.globals.len() && 0 <= j < n.globals.len() && ((
        #[trigger] n.globals[i].kind) matches GlobalKind::Text { .. }) && ((
        #[trigger] n.globals[j].kind) matches GlobalKind::Text { .. })
            && n.globals[i].kind->Text_data@ == n.globals[j].kind->Text_data@) implies i == j by {
        assert(n.globals[i] == o.globals[i]);
        assert(n.globals[j] == o.globals[j]);
    }
    assert forall|i: int| 0 <= i < n.globals.len() implies match (
    #[trigger] n.globals[i]).kind {
        GlobalKind::Var { init, .. } => init.is_const(),
        GlobalKind::Text { .. } => true,
    } by {
        assert(n.globals[i] == o.globals[i]);
    }
    // stores still go through local slots only
    assert forall|fi: int, bi: int, ii: int|
        0 <= fi < n.functions.len() && 0 <= bi < n.functions[fi].blocks.len() && 0 <= ii
            < n.functions[fi].blocks[bi].instrs.len() implies match #[trigger] n.functions[fi].blocks[bi].instrs[ii] {
        Instr::Store { ptr, .. } => ptr matches Ptr::Local { .. },
        _ => true,
    } by {
        if !(fi == fid as int && bi == bid as int && ii == oldlen) {
            assert(n.functions[fi].blocks[bi].instrs[ii] == o.functions[fi].blocks[bi].instrs[ii]);
        }
    }
    // terminators are untouched and their functions' shapes unchanged
    assert forall|fi: int, bi: int|
        0 <= fi < n.functions.len() && 0 <= bi < n.functions[fi].blocks.len() implies match (
    #[trigger] n.functions[fi].blocks[bi]).terminator {
        Some(t) => n.term_ok(fi, t),
        None => true,
    } by {
        assert(n.functions[fi].blocks[bi].terminator == o.functions[fi].blocks[bi].terminator);
        assert(n.functions[fi].ret == o.functions[fi].ret);
        assert(n.functions[fi].blocks.len() == o.functions[fi].blocks.len());
    }
    // a freshly pushed store is visible
    match instr {
        Instr::Store { ptr: Ptr::Local { reg }, .. } => {
            assert(nf.blocks[bid as int].instrs[oldlen] == instr);
            assert(nf.store_exists(reg));
        },
        _ => {},
    }
}

/// Appending an empty block preserves the module invariant.
proof fn lemma_append_block_wf(o: Module, n: Module, fid: usize)
    requires
        o.wf(),
        Module::only_block_appended(o, n, fid),
    ensures
        n.wf(),
        Module::extends(o, n),
{
    let of = o.functions[fid as int];
    let nf = n.functions[fid as int];
    assert forall|f: int| 0 <= f < o.functions.len() implies Function::extends(
        #[trigger] o.functions[f],
        n.functions[f],
    ) by {
        if f == fid as int {
            assert forall|b: int| 0 <= b < of.blocks.len() implies Block::extends(
                #[trigger] of.blocks[b],
                nf.blocks[b],
            ) by {
                lemma_block_extends_refl(of.blocks[b]);
            }
        } else {
            lemma_fn_extends_refl(o.functions[f]);
        }
    }
    assert(params_stable(o, n));
    assert forall|fi: int, bi: int, ii: int|
        0 <= fi < n.functions.len() && 0 <= bi < n.functions[fi].blocks.len() && 0 <= ii
            < n.functions[fi].blocks[bi].instrs.len() implies n.call_ok(
        #[trigger] n.functions[fi].blocks[bi].instrs[ii],
    ) by {
        assert(n.functions[fi].blocks[bi].instrs[ii] == o.functions[fi].blocks[bi].instrs[ii]);
        assert(o.call_ok(o.functions[fi].blocks[bi].instrs[ii]));
        lemma_call_ok_transfer(o, n, o.functions[fi].blocks[bi].instrs[ii]);
    }
    assert forall|fi: int| 0 <= fi < n.functions.len() implies (
    #[trigger] n.functions[fi]).loads_stored() by {
        if fi == fid as int {
            assert forall|bi: int, ii: int|
                0 <= bi < nf.blocks.len() && 0 <= ii < nf.blocks[bi].instrs.len() implies match
                #[trigger] nf.blocks[bi].instrs[ii] {
                Instr::Load { ptr: Ptr::Local { reg }, .. } => nf.store_exists(reg),
                _ => true,
            } by {
                assert(nf.blocks[bi].instrs[ii] == of.blocks[bi].instrs[ii]);
                match of.blocks[bi].instrs[ii] {
                    Instr::Load { ptr: Ptr::Local { reg }, .. } => {
                        assert(of.store_exists(reg));
                        lemma_store_exists_monotone(of, nf, reg);
                    },
                    _ => {},
                }
            }
        } else {
            assert(n.functions[fi] == o.functions[fi]);
        }
    }
    assert forall|i: int, j: int|
        (0 <= i < n.globals.len() && 0 <= j < n.globals.len() && ((
        #[trigger] n.globals[i].kind) matches GlobalKind::Text { .. }) && ((
        #[trigger] n.globals[j].kind) matches GlobalKind::Text { .. })
            && n.globals[i].kind->Text_data@ == n.globals[j].kind->Text_data@) implies i == j by {
        assert(n.globals[i] == o.globals[i]);
        assert(n.globals[j] == o.globals[j]);
    }
    assert forall|i: int| 0 <= i < n.globals.len() implies match (
    #[trigger] n.globals[i]).kind {
        GlobalKind::Var { init, .. } => init.is_const(),
        GlobalKind::Text { .. } => true,
    } by {
        assert(n.globals[i] == o.globals[i]);
    }
    assert forall|fi: int, bi: int, ii: int|
        0 <= fi < n.functions.len() && 0 <= bi < n.functions[fi].blocks.len() && 0 <= ii
            < n.functions[fi].blocks[bi].instrs.len() implies match #[trigger] n.functions[fi].blocks[bi].instrs[ii] {
        Instr::Store { ptr, .. } => ptr matches Ptr::Local { .. },
        _ => true,
    } by {
        assert(n.functions[fi].blocks[bi].instrs[ii] == o.functions[fi].blocks[bi].instrs[ii]);
    }
    assert forall|fi: int, bi: int|
        0 <= fi < n.functions.len() && 0 <= bi < n.functions[fi].blocks.len() implies match (
    #[trigger] n.functions[fi].blocks[bi]).terminator {
        Some(t) => n.term_ok(fi, t),
        None => true,
    } by {
        if fi == fid as int && bi == of.blocks.len() as int {
            assert(n.functions[fi].blocks[bi].terminator is None);
        } else {
            assert(n.functions[fi].blocks[bi].terminator == o.functions[fi].blocks[bi].terminator);
            assert(n.functions[fi].ret == o.functions[fi].ret);
            assert(o.functions[fi].blocks.len() <= n.functions[fi].blocks.len());
        }
    }
}

/// Appending a bodiless function preserves the module invariant.
proof fn lemma_append_fn_wf(o: Module, n: Module, f: Function)
    requires
        o.wf(),
        Module::only_fn_appended(o, n, f),
        f.blocks.len() == 0,
    ensures
        n.wf(),
        Module::extends(o, n),
{
    assert forall|fi: int| 0 <= fi < o.functions.len() implies Function::extends(
        #[trigger] o.functions[fi],
        n.functions[fi],
    ) by {
        lemma_fn_extends_refl(o.functions[fi]);
    }
    assert(params_stable(o, n));
    assert forall|fi: int, bi: int, ii: int|
        0 <= fi < n.functions.len() && 0 <= bi < n.functions[fi].blocks.len() && 0 <= ii
            < n.functions[fi].blocks[bi].instrs.len() implies n.call_ok(
        #[trigger] n.functions[fi].blocks[bi].instrs[ii],
    ) by {
        assert(fi < o.functions.len());
        assert(n.functions[fi] == o.functions[fi]);
        assert(o.call_ok(o.functions[fi].blocks[bi].instrs[ii]));
        lemma_call_ok_transfer(o, n, o.functions[fi].blocks[bi].instrs[ii]);
    }
    assert forall|fi: int| 0 <= fi < n.functions.len() implies (
    #[trigger] n.functions[fi]).loads_stored() by {
        if fi < o.functions.len() {
            assert(n.functions[fi] == o.functions[fi]);
        } else {
            assert(n.functions[fi] == f);
        }
    }
    assert forall|fi: int, bi: int, ii: int|
        0 <= fi < n.functions.len() && 0 <= bi < n.functions[fi].blocks.len() && 0 <= ii
            < n.functions[fi].blocks[bi].instrs.len() implies match #[trigger] n.functions[fi].blocks[bi].instrs[ii] {
        Instr::Store { ptr, .. } => ptr matches Ptr::Local { .. },
        _ => true,
    } by {
        assert(fi < o.functions.len());
        assert(n.functions[fi] == o.functions[fi]);
    }
    assert forall|fi: int, bi: int|
        0 <= fi < n.functions.len() && 0 <= bi < n.functions[fi].blocks.len() implies match (
    #[trigger] n.functions[fi].blocks[bi]).terminator {
        Some(t) => n.term_ok(fi, t),
        None => true,
    } by {
        assert(fi < o.functions.len());
        assert(n.functions[fi] == o.functions[fi]);
        match n.functions[fi].blocks[bi].terminator {
            Some(t) => {
                assert(o.term_ok(fi, t));
            },
            None => {},
        }
    }
}

/// Appending a global preserves the invariant as long as a fresh string is
/// not a duplicate and a fresh variable is initialized with a constant.
proof fn lemma_append_global_wf(o: Module, n: Module)
    requires
        o.wf(),
        Module::only_global_appended(o, n),
        match n.globals[o.globals.len() as int].kind {
            GlobalKind::Text { data } => forall|i: int|
                0 <= i < o.globals.len() ==> !((#[trigger] o.globals[i].kind) matches
                    GlobalKind::Text { .. } && o.globals[i].kind->Text_data@ == data@),
            GlobalKind::Var { init, .. } => init.is_const(),
        },
    ensures
        n.wf(),
        Module::extends(o, n),
{
    let newg = o.globals.len() as int;
    assert forall|fi: int| 0 <= fi < o.functions.len() implies Function::extends(
        #[trigger] o.functions[fi],
        n.functions[fi],
    ) by {
        lemma_fn_extends_refl(o.functions[fi]);
    }
    assert(params_stable(o, n));
    assert forall|fi: int, bi: int, ii: int|
        0 <= fi < n.functions.len() && 0 <= bi < n.functions[fi].blocks.len() && 0 <= ii
            < n.functions[fi].blocks[bi].instrs.len() implies n.call_ok(
        #[trigger] n.functions[fi].blocks[bi].instrs[ii],
    ) by {
        assert(o.call_ok(o.functions[fi].blocks[bi].instrs[ii]));
        lemma_call_ok_transfer(o, n, o.functions[fi].blocks[bi].instrs[ii]);
    }
    assert forall|i: int, j: int|
        (0 <= i < n.globals.len() && 0 <= j < n.globals.len() && ((
        #[trigger] n.globals[i].kind) matches GlobalKind::Text { .. }) && ((
        #[trigger] n.globals[j].kind) matches GlobalKind::Text { .. })
            && n.globals[i].kind->Text_data@ == n.globals[j].kind->Text_data@) implies i == j by {
        if i < newg && j < newg {
            assert(n.globals[i] == o.globals[i]);
            assert(n.globals[j] == o.globals[j]);
        } else if i < newg || j < newg {
            assert(false);
        }
    }
    assert forall|i: int| 0 <= i < n.globals.len() implies match (
    #[trigger] n.globals[i]).kind {
        GlobalKind::Var { init, .. } => init.is_const(),
        GlobalKind::Text { .. } => true,
    } by {
        if i < newg {
            assert(n.globals[i] == o.globals[i]);
        }
    }
    assert forall|fi: int, bi: int, ii: int|
        0 <= fi < n.functions.len() && 0 <= bi < n.functions[fi].blocks.len() && 0 <= ii
            < n.functions[fi].blocks[bi].instrs.len() implies match #[trigger] n.functions[fi].blocks[bi].instrs[ii] {
        Instr::Store { ptr, .. } => ptr matches Ptr::Local { .. },
        _ => true,
    } by {
        assert(n.functions[fi] == o.functions[fi]);
    }
    assert forall|fi: int, bi: int|
        0 <= fi < n.functions.len() && 0 <= bi < n.functions[fi].blocks.len() implies match (
    #[trigger] n.functions[fi].blocks[bi]).terminator {
        Some(t) => n.term_ok(fi, t),
        None => true,
    } by {
        assert(n.functions[fi] == o.functions[fi]);
        match n.functions[fi].blocks[bi].terminator {
            Some(t) => {
                assert(o.term_ok(fi, t));
            },
            None => {},
        }
    }
}

/// Setting a terminator preserves the module invariant.
proof fn lemma_set_terminator_wf(o: Module, n: Module, fid: usize, bid: usize, t: Terminator)
    requires
        o.wf(),
        Module::only_terminator_set(o, n, fid, bid, t),
        o.term_ok(fid as int, t),
    ensures
        n.wf(),
        Module::extends(o, n),
{
    let of = o.functions[fid as int];
    let nf = n.functions[fid as int];
    assert forall|f: int| 0 <= f < o.functions.len() implies Function::extends(
        #[trigger] o.functions[f],
        n.functions[f],
    ) by {
        if f == fid as int {
            assert forall|b: int| 0 <= b < of.blocks.len() implies Block::extends(
                #[trigger] of.blocks[b],
                nf.blocks[b],
            ) by {
                if b == bid as int {
                    assert(nf.blocks[b].instrs == of.blocks[b].instrs);
                    assert forall|ii: int| 0 <= ii < of.blocks[b].instrs.len() implies
                        #[trigger] nf.blocks[b].instrs[ii] == of.blocks[b].instrs[ii] by {}
                } else {
                    lemma_block_extends_refl(of.blocks[b]);
                }
            }
        } else {
            lemma_fn_extends_refl(o.functions[f]);
        }
    }
    assert(params_stable(o, n));
    assert forall|fi: int, bi: int, ii: int|
        0 <= fi < n.functions.len() && 0 <= bi < n.functions[fi].blocks.len() && 0 <= ii
            < n.functions[fi].blocks[bi].instrs.len() implies n.call_ok(
        #[trigger] n.functions[fi].blocks[bi].instrs[ii],
    ) by {
        assert(n.functions[fi].blocks[bi].instrs[ii] == o.functions[fi].blocks[bi].instrs[ii]);
        assert(o.call_ok(o.functions[fi].blocks[bi].instrs[ii]));
        lemma_call_ok_transfer(o, n, o.functions[fi].blocks[bi].instrs[ii]);
    }
    assert forall|fi: int| 0 <= fi < n.functions.len() implies (
    #[trigger] n.functions[fi]).loads_stored() by {
        if fi == fid as int {
            assert(Function::extends(of, nf));
            assert forall|bi: int, ii: int|
                0 <= bi < nf.blocks.len() && 0 <= ii < nf.blocks[bi].instrs.len() implies match
                #[trigger] nf.blocks[bi].instrs[ii] {
                Instr::Load { ptr: Ptr::Local { reg }, .. } => nf.store_exists(reg),
                _ => true,
            } by {
                assert(nf.blocks[bi].instrs[ii] == of.blocks[bi].instrs[ii]);
                match of.blocks[bi].instrs[ii] {
                    Instr::Load { ptr: Ptr::Local { reg }, .. } => {
                        assert(of.store_exists(reg));
                        lemma_store_exists_monotone(of, nf, reg);
                    },
                    _ => {},
                }
            }
        } else {
            assert(n.functions[fi] == o.functions[fi]);
        }
    }
    assert forall|i: int, j: int|
        (0 <= i < n.globals.len() && 0 <= j < n.globals.len() && ((
        #[trigger] n.globals[i].kind) matches GlobalKind::Text { .. }) && ((
        #[trigger] n.globals[j].kind) matches GlobalKind::Text { .. })
            && n.globals[i].kind->Text_data@ == n.globals[j].kind->Text_data@) implies i == j by {
        assert(n.globals[i] == o.globals[i]);
        assert(n.globals[j] == o.globals[j]);
    }
    assert forall|i: int| 0 <= i < n.globals.len() implies match (
    #[trigger] n.globals[i]).kind {
        GlobalKind::Var { init, .. } => init.is_const(),
        GlobalKind::Text { .. } => true,
    } by {
        assert(n.globals[i] == o.globals[i]);
    }
    assert forall|fi: int, bi: int, ii: int|
        0 <= fi < n.functions.len() && 0 <= bi < n.functions[fi].blocks.len() && 0 <= ii
            < n.functions[fi].blocks[bi].instrs.len() implies match #[trigger] n.functions[fi].blocks[bi].instrs[ii] {
        Instr::Store { ptr, .. } => ptr matches Ptr::Local { .. },
        _ => true,
    } by {
        if fi == fid as int && bi == bid as int {
            assert(n.functions[fi].blocks[bi].instrs == o.functions[fi].blocks[bi].instrs);
        } else if fi == fid as int {
            assert(n.functions[fi].blocks[bi] == o.functions[fi].blocks[bi]);
        } else {
            assert(n.functions[fi] == o.functions[fi]);
        }
        assert(n.functions[fi].blocks[bi].instrs[ii] == o.functions[fi].blocks[bi].instrs[ii]);
    }
    assert forall|fi: int, bi: int|
        0 <= fi < n.functions.len() && 0 <= bi < n.functions[fi].blocks.len() implies match (
    #[trigger] n.functions[fi].blocks[bi]).terminator {
        Some(tt) => n.term_ok(fi, tt),
        None => true,
    } by {
        assert(n.functions[fi].ret == o.functions[fi].ret);
        assert(n.functions[fi].blocks.len() == o.functions[fi].blocks.len());
        if !(fi == fid as int && bi == bid as int) {
            assert(n.functions[fi].blocks[bi].terminator == o.functions[fi].blocks[bi].terminator);
        }
    }
}

// ---------------------------------------------------------------------------
// Builder operations
// ---------------------------------------------------------------------------

impl Module {
    /// An empty module with the AVR data layout and triple supplied by the
    /// orchestrator.
    pub fn create(name: String, data_layout: String, triple: String) -> (r: Module)
        ensures
            r.name@ == name@,
            r.data_layout@ == data_layout@,
            r.triple@ == triple@,
            r.functions.len() == 0,
            r.globals.len() == 0,
            r.wf(),
            r.fully_terminated(),
    {
        Module { name, data_layout, triple, functions: Vec::new(), globals: Vec::new() }
    }

    /// Look a function up by name.
    pub fn get_function(&self, name: &String) -> (r: Option<usize>)
        ensures
            match r {
                Some(fid) => fid < self.functions.len() && self.functions[fid as int].name@
                    == name@,
                None => forall|f: int|
                    0 <= f < self.functions.len() ==> (#[trigger] self.functions[f].name)@
                        != name@,
            },
    {
        let n = self.functions.len();
        let mut i: usize = 0;
        while i < n
            invariant
                n == self.functions.len(),
                i <= n,
                forall|f: int| 0 <= f < i ==> (#[trigger] self.functions[f].name)@ != name@,
            decreases n - i,
        {
            if self.functions[i].name == *name {
                return Some(i);
            }
            i += 1;
        }
        None
    }

    /// Declare a function; it becomes a definition once blocks are appended.
    pub fn add_function(
        &mut self,
        name: String,
        linkage: Linkage,
        params: Vec<BasicType>,
        param_names: Vec<String>,
        ret: Option<BasicType>,
    ) -> (fid: usize)
        requires
            old(self).wf(),
        ensures
            final(self).wf(),
            Module::extends(*old(self), *final(self)),
            fid == old(self).functions.len(),
            final(self).functions.len() == old(self).functions.len() + 1,
            Module::only_fn_appended(
                *old(self),
                *final(self),
                Function {
                    name,
                    linkage,
                    params,
                    param_names,
                    ret,
                    blocks: final(self).functions[fid as int].blocks,
                    next_reg: 0,
                },
            ),
            final(self).functions[fid as int].name@ == name@,
            final(self).functions[fid as int].linkage == linkage,
            final(self).functions[fid as int].params == params,
            final(self).functions[fid as int].param_names == param_names,
            final(self).functions[fid as int].ret == ret,
            final(self).functions[fid as int].blocks.len() == 0,
            final(self).functions[fid as int].next_reg == 0,
    {
        let fid = self.functions.len();
        let f = Function {
            name,
            linkage,
            params,
            param_names,
            ret,
            blocks: Vec::new(),
            next_reg: 0,
        };
        self.functions.push(f);
        proof {
            lemma_append_fn_wf(*old(self), *self, self.functions[fid as int]);
        }
        fid
    }

    /// Append a fresh, open basic block to a function.
    pub fn append_basic_block(&mut self, fid: usize) -> (bid: usize)
        requires
            old(self).wf(),
            fid < old(self).functions.len(),
        ensures
            final(self).wf(),
            Module::extends(*old(self), *final(self)),
            Module::only_block_appended(*old(self), *final(self), fid),
            bid == old(self).functions[fid as int].blocks.len(),
            final(self).valid_pos(fid, bid),
            final(self).open_at(fid, bid),
    {
        let bid = self.functions[fid].blocks.len();
        self.functions[fid].blocks.push(Block { instrs: Vec::new(), terminator: None });
        proof {
            lemma_append_block_wf(*old(self), *self, fid);
        }
        bid
    }

    /// Intern a read-only string: reuse the existing global with the same
    /// contents if there is one, otherwise append a new one.
    pub fn intern_string(&mut self, data: &String) -> (gid: usize)
        requires
            old(self).wf(),
        ensures
            final(self).wf(),
            Module::extends(*old(self), *final(self)),
            gid < final(self).globals.len(),
            final(self).globals[gid as int].kind matches GlobalKind::Text { .. },
            final(self).globals[gid as int].kind->Text_data@ == data@,
            final(self).functions == old(self).functions,
            (final(self).globals == old(self).globals || Module::only_global_appended(
                *old(self),
                *final(self),
            )),
    {
        let n = self.globals.len();
        let mut i: usize = 0;
        while i < n
            invariant
                old(self).wf(),
                *self == *old(self),
                n == self.globals.len(),
                i <= n,
                forall|g: int|
                    0 <= g < i ==> !((#[trigger] self.globals[g].kind) matches GlobalKind::Text {
                        ..
                    } && self.globals[g].kind->Text_data@ == data@),
            decreases n - i,
        {
            match &self.globals[i].kind {
                GlobalKind::Text { data: existing } => {
                    if *existing == *data {
                        proof {
                            lemma_module_extends_refl(*self);
                        }
                        return i;
                    }
                },
                _ => {},
            }
            i += 1;
        }
        self.globals.push(Global { name: String::new(), kind: GlobalKind::Text { data: data.clone() } });
        proof {
            lemma_append_global_wf(*old(self), *self);
        }
        n
    }

    /// Add a mutable global cell with a constant initializer; it gets
    /// internal linkage and an unnamed address.
    pub fn add_global_var(&mut self, name: String, ty: BasicType, init: ValueRef) -> (gid: usize)
        requires
            old(self).wf(),
            init.is_const(),
        ensures
            final(self).wf(),
            Module::extends(*old(self), *final(self)),
            Module::only_global_appended(*old(self), *final(self)),
            gid == old(self).globals.len(),
            final(self).globals.len() == old(self).globals.len() + 1,
            final(self).globals[gid as int].name@ == name@,
            final(self).globals[gid as int].kind == (GlobalKind::Var { ty, init }),
            final(self).functions == old(self).functions,
    {
        let gid = self.globals.len();
        self.globals.push(Global { name, kind: GlobalKind::Var { ty, init } });
        proof {
            lemma_append_global_wf(*old(self), *self);
        }
        gid
    }

    /// Set the single terminator of an open block.
    pub fn terminate(&mut self, fid: usize, bid: usize, t: Terminator)
        requires
            old(self).wf(),
            old(self).open_at(fid, bid),
            old(self).term_ok(fid as int, t),
        ensures
            final(self).wf(),
            Module::extends(*old(self), *final(self)),
            Module::only_terminator_set(*old(self), *final(self), fid, bid, t),
            final(self).functions[fid as int].blocks[bid as int].terminator == Some(t),
    {
        self.functions[fid].blocks[bid].terminator = Some(t);
        proof {
            lemma_set_terminator_wf(*old(self), *self, fid, bid, t);
        }
    }

    /// Append a non-call instruction that produces no result.
    fn push_instr(&mut self, fid: usize, bid: usize, instr: Instr)
        requires
            old(self).wf(),
            old(self).valid_pos(fid, bid),
            old(self).call_ok(instr),
            (instr matches Instr::Load { ptr: Ptr::Local { reg }, .. } ==> old(
                self,
            ).functions[fid as int].store_exists(reg)),
            (instr matches Instr::Store { ptr, .. } ==> ptr matches Ptr::Local { .. }),
        ensures
            final(self).wf(),
            Module::extends(*old(self), *final(self)),
            Module::only_instr_pushed(
                *old(self),
                *final(self),
                fid,
                bid,
                instr,
                old(self).functions[fid as int].next_reg,
            ),
            (instr matches Instr::Store { ptr: Ptr::Local { reg }, .. }
                ==> final(self).functions[fid as int].store_exists(reg)),
    {
        self.functions[fid].blocks[bid].instrs.push(instr);
        proof {
            lemma_push_instr_wf(
                *old(self),
                *self,
                fid,
                bid,
                instr,
                old(self).functions[fid as int].next_reg,
            );
        }
    }

    /// Append an instruction that defines a fresh register.
    fn push_instr_bump(&mut self, fid: usize, bid: usize, instr: Instr)
        requires
            old(self).wf(),
            old(self).valid_pos(fid, bid),
            old(self).functions[fid as int].next_reg < usize::MAX,
            old(self).call_ok(instr),
            (instr matches Instr::Load { ptr: Ptr::Local { reg }, .. } ==> old(
                self,
            ).functions[fid as int].store_exists(reg)),
            (instr matches Instr::Store { ptr, .. } ==> ptr matches Ptr::Local { .. }),
        ensures
            final(self).wf(),
            Module::extends(*old(self), *final(self)),
            Module::only_instr_pushed(
                *old(self),
                *final(self),
                fid,
                bid,
                instr,
                (old(self).functions[fid as int].next_reg + 1) as usize,
            ),
    {
        let r = self.functions[fid].next_reg;
        self.functions[fid].next_reg = r + 1;
        self.functions[fid].blocks[bid].instrs.push(instr);
        proof {
            lemma_push_instr_wf(
                *old(self),
                *self,
                fid,
                bid,
                instr,
                (old(self).functions[fid as int].next_reg + 1) as usize,
            );
        }
    }

    /// Reserve a stack slot in the entry block of a function; the result is
    /// the slot's register id, usable as a local storage pointer.
    pub fn build_alloca(&mut self, fid: usize, ty: BasicType) -> (reg: usize)
        requires
            old(self).wf(),
            fid < old(self).functions.len(),
            old(self).functions[fid as int].blocks.len() >= 1,
            old(self).functions[fid as int].next_reg < usize::MAX,
        ensures
            final(self).wf(),
            Module::extends(*old(self), *final(self)),
            Module::only_instr_pushed(
                *old(self),
                *final(self),
                fid,
                0,
                Instr::Alloca { dst: reg, ty },
                (old(self).functions[fid as int].next_reg + 1) as usize,
            ),
            reg == old(self).functions[fid as int].next_reg,
    {
        let reg = self.functions[fid].next_reg;
        self.push_instr_bump(fid, 0, Instr::Alloca { dst: reg, ty });
        reg
    }

    /// Read a value through a storage pointer.  A load through a local slot
    /// demands that the function already stores through that slot.
    pub fn build_load(&mut self, fid: usize, bid: usize, ty: BasicType, ptr: Ptr) -> (r: ValueRef)
        requires
            old(self).wf(),
            old(self).open_at(fid, bid),
            old(self).functions[fid as int].next_reg < usize::MAX,
            (ptr matches Ptr::Local { reg } ==> old(self).functions[fid as int].store_exists(reg)),
        ensures
            final(self).wf(),
            Module::extends(*old(self), *final(self)),
            Module::only_instr_pushed(
                *old(self),
                *final(self),
                fid,
                bid,
                Instr::Load { dst: old(self).functions[fid as int].next_reg, ty, ptr },
                (old(self).functions[fid as int].next_reg + 1) as usize,
            ),
            r == (ValueRef::Reg { id: old(self).functions[fid as int].next_reg, ty }),
            r.ty() == ty,
    {
        let reg = self.functions[fid].next_reg;
        self.push_instr_bump(fid, bid, Instr::Load { dst: reg, ty, ptr });
        ValueRef::Reg { id: reg, ty }
    }

    /// Write a value through a storage pointer.
    pub fn build_store(&mut self, fid: usize, bid: usize, ptr: Ptr, value: ValueRef)
        requires
            old(self).wf(),
            old(self).open_at(fid, bid),
            ptr matches Ptr::Local { .. },
        ensures
            final(self).wf(),
            Module::extends(*old(self), *final(self)),
            Module::only_instr_pushed(
                *old(self),
                *final(self),
                fid,
                bid,
                Instr::Store { ptr, value },
                old(self).functions[fid as int].next_reg,
            ),
            (ptr matches Ptr::Local { reg } ==> final(self).functions[fid as int].store_exists(reg)),
    {
        self.push_instr(fid, bid, Instr::Store { ptr, value });
    }

    /// A signed integer binary operation.
    pub fn build_int_bin(
        &mut self,
        fid: usize,
        bid: usize,
        op: IntBinOp,
        ty: BasicType,
        a: ValueRef,
        b: ValueRef,
    ) -> (r: ValueRef)
        requires
            old(self).wf(),
            old(self).open_at(fid, bid),
            old(self).functions[fid as int].next_reg < usize::MAX,
        ensures
            final(self).wf(),
            Module::extends(*old(self), *final(self)),
            Module::only_instr_pushed(
                *old(self),
                *final(self),
                fid,
                bid,
                Instr::IntBin { dst: old(self).functions[fid as int].next_reg, op, ty, a, b },
                (old(self).functions[fid as int].next_reg + 1) as usize,
            ),
            r == (ValueRef::Reg { id: old(self).functions[fid as int].next_reg, ty }),
            r.ty() == ty,
    {
        let reg = self.functions[fid].next_reg;
        self.push_instr_bump(fid, bid, Instr::IntBin { dst: reg, op, ty, a, b });
        ValueRef::Reg { id: reg, ty }
    }

    /// A float binary operation; operands and result are `f32`.
    pub fn build_float_bin(
        &mut self,
        fid: usize,
        bid: usize,
        op: FloatBinOp,
        a: ValueRef,
        b: ValueRef,
    ) -> (r: ValueRef)
        requires
            old(self).wf(),
            old(self).open_at(fid, bid),
            old(self).functions[fid as int].next_reg < usize::MAX,
        ensures
            final(self).wf(),
            Module::extends(*old(self), *final(self)),
            Module::only_instr_pushed(
                *old(self),
                *final(self),
                fid,
                bid,
                Instr::FloatBin { dst: old(self).functions[fid as int].next_reg, op, a, b },
                (old(self).functions[fid as int].next_reg + 1) as usize,
            ),
            r == (ValueRef::Reg { id: old(self).functions[fid as int].next_reg, ty: BasicType::F32 }),
            r.ty() == BasicType::F32,
    {
        let reg = self.functions[fid].next_reg;
        self.push_instr_bump(fid, bid, Instr::FloatBin { dst: reg, op, a, b });
        ValueRef::Reg { id: reg, ty: BasicType::F32 }
    }

    /// Convert a signed integer to `f32`.
    pub fn build_si_to_fp(&mut self, fid: usize, bid: usize, a: ValueRef) -> (r: ValueRef)
        requires
            old(self).wf(),
            old(self).open_at(fid, bid),
            old(self).functions[fid as int].next_reg < usize::MAX,
        ensures
            final(self).wf(),
            Module::extends(*old(self), *final(self)),
            Module::only_instr_pushed(
                *old(self),
                *final(self),
                fid,
                bid,
                Instr::SiToFp { dst: old(self).functions[fid as int].next_reg, a },
                (old(self).functions[fid as int].next_reg + 1) as usize,
            ),
            r == (ValueRef::Reg { id: old(self).functions[fid as int].next_reg, ty: BasicType::F32 }),
            r.ty() == BasicType::F32,
    {
        let reg = self.functions[fid].next_reg;
        self.push_instr_bump(fid, bid, Instr::SiToFp { dst: reg, a });
        ValueRef::Reg { id: reg, ty: BasicType::F32 }
    }

    /// Resize an integer value (truncate or extend) to `to`.
    pub fn build_int_resize(
        &mut self,
        fid: usize,
        bid: usize,
        to: BasicType,
        a: ValueRef,
    ) -> (r: ValueRef)
        requires
            old(self).wf(),
            old(self).open_at(fid, bid),
            old(self).functions[fid as int].next_reg < usize::MAX,
        ensures
            final(self).wf(),
            Module::extends(*old(self), *final(self)),
            Module::only_instr_pushed(
                *old(self),
                *final(self),
                fid,
                bid,
                Instr::IntResize { dst: old(self).functions[fid as int].next_reg, to, a },
                (old(self).functions[fid as int].next_reg + 1) as usize,
            ),
            r == (ValueRef::Reg { id: old(self).functions[fid as int].next_reg, ty: to }),
            r.ty() == to,
    {
        let reg = self.functions[fid].next_reg;
        self.push_instr_bump(fid, bid, Instr::IntResize { dst: reg, to, a });
        ValueRef::Reg { id: reg, ty: to }
    }

    /// A signed integer comparison; the result is `i1`.
    pub fn build_int_compare(
        &mut self,
        fid: usize,
        bid: usize,
        pred: IntPredicate,
        a: ValueRef,
        b: ValueRef,
    ) -> (r: ValueRef)
        requires
            old(self).wf(),
            old(self).open_at(fid, bid),
            old(self).functions[fid as int].next_reg < usize::MAX,
        ensures
            final(self).wf(),
            Module::extends(*old(self), *final(self)),
            Module::only_instr_pushed(
                *old(self),
                *final(self),
                fid,
                bid,
                Instr::ICmp { dst: old(self).functions[fid as int].next_reg, pred, a, b },
                (old(self).functions[fid as int].next_reg + 1) as usize,
            ),
            r == (ValueRef::Reg { id: old(self).functions[fid as int].next_reg, ty: BasicType::I1 }),
            r.ty() == BasicType::I1,
    {
        let reg = self.functions[fid].next_reg;
        self.push_instr_bump(fid, bid, Instr::ICmp { dst: reg, pred, a, b });
        ValueRef::Reg { id: reg, ty: BasicType::I1 }
    }

    /// An ordered float comparison; the result is `i1` and is false whenever
    /// an operand is NaN.
    pub fn build_float_compare(
        &mut self,
        fid: usize,
        bid: usize,
        pred: FloatPredicate,
        a: ValueRef,
        b: ValueRef,
    ) -> (r: ValueRef)
        requires
            old(self).wf(),
            old(self).open_at(fid, bid),
            old(self).functions[fid as int].next_reg < usize::MAX,
        ensures
            final(self).wf(),
            Module::extends(*old(self), *final(self)),
            Module::only_instr_pushed(
                *old(self),
                *final(self),
                fid,
                bid,
                Instr::FCmp { dst: old(self).functions[fid as int].next_reg, pred, a, b },
                (old(self).functions[fid as int].next_reg + 1) as usize,
            ),
            r == (ValueRef::Reg { id: old(self).functions[fid as int].next_reg, ty: BasicType::I1 }),
            r.ty() == BasicType::I1,
    {
        let reg = self.functions[fid].next_reg;
        self.push_instr_bump(fid, bid, Instr::FCmp { dst: reg, pred, a, b });
        ValueRef::Reg { id: reg, ty: BasicType::I1 }
    }

    /// A (tail-callable) call.  The argument types must exactly match the
    /// callee's declared parameter types; the result is `Some` exactly when
    /// the callee returns a value, tagged with the declared return type.
    pub fn build_call(
        &mut self,
        fid: usize,
        bid: usize,
        callee: usize,
        args: Vec<ValueRef>,
        tail: bool,
    ) -> (r: Option<ValueRef>)
        requires
            old(self).wf(),
            old(self).open_at(fid, bid),
            old(self).functions[fid as int].next_reg < usize::MAX,
            callee < old(self).functions.len(),
            args.len() == old(self).functions[callee as int].params.len(),
            forall|j: int|
                0 <= j < args.len() ==> (#[trigger] args[j]).ty()
                    == old(self).functions[callee as int].params[j],
        ensures
            final(self).wf(),
            Module::extends(*old(self), *final(self)),
            match old(self).functions[callee as int].ret {
                Some(ty) => {
                    &&& r == Some(
                        ValueRef::Reg { id: old(self).functions[fid as int].next_reg, ty },
                    )
                    &&& Module::only_instr_pushed(
                        *old(self),
                        *final(self),
                        fid,
                        bid,
                        Instr::Call {
                            dst: Some(old(self).functions[fid as int].next_reg),
                            dst_ty: Some(ty),
                            callee,
                            args,
                            tail,
                        },
                        (old(self).functions[fid as int].next_reg + 1) as usize,
                    )
                },
                None => {
                    &&& r is None
                    &&& Module::only_instr_pushed(
                        *old(self),
                        *final(self),
                        fid,
                        bid,
                        Instr::Call { dst: None, dst_ty: None, callee, args, tail },
                        old(self).functions[fid as int].next_reg,
                    )
                },
            },
    {
        let ret = self.functions[callee].ret;
        match ret {
            Some(ty) => {
                let reg = self.functions[fid].next_reg;
                self.push_instr_bump(
                    fid,
                    bid,
                    Instr::Call { dst: Some(reg), dst_ty: Some(ty), callee, args, tail },
                );
                Some(ValueRef::Reg { id: reg, ty })
            },
            None => {
                self.push_instr(
                    fid,
                    bid,
                    Instr::Call { dst: None, dst_ty: None, callee, args, tail },
                );
                None
            },
        }
    }
}

/// Every module extends itself; used when a module is otherwise untouched.
pub proof fn lemma_module_extends_refl(m: Module)
    ensures
        Module::extends(m, m),
{
    assert forall|fi: int| 0 <= fi < m.functions.len() implies Function::extends(
        #[trigger] m.functions[fi],
        m.functions[fi],
    ) by {
        lemma_fn_extends_refl(m.functions[fi]);
    }
}

} // verus!
