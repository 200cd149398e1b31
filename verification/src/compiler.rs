//! The compile orchestrator.
//!
//! It owns one emitter for one compilation: the prototype table is installed
//! first, then every standard-library module is emitted, then the user
//! program, and finally the module is closed.  The module that comes out is
//! well formed — every call's argument types match the callee's declared
//! parameter types, every local read has a matching store in its function,
//! interned strings are unique, global initializers are constants — and
//! every basic block of every function ends with exactly one terminator.

use vstd::prelude::*;

use crate::ast::Program;
use crate::ast::Statement;
use crate::cgstmt::get_doc;
use crate::cgstmt::lemma_reflected_monotone;
use crate::cgstmt::stmt_reflected;
use crate::cgstmt::stmt_frame;
use crate::codegen::is_pos;
use crate::codegen::CodeGen;
use crate::errors::LLVMCompileError;
use crate::errors::LLVMCompileErrorType;
use crate::flags::CompilerFlags;
use crate::ir::Function;
use crate::ir::Module;
use crate::ir::Terminator;
use crate::prototypes::generate_prototypes;
use crate::prototypes::lemma_prototypes_stable;
use crate::prototypes::prototype_table_installed;

verus! {

/// The orchestrator's invariant between top-level statements: emission is at
/// module scope and every block of every function is terminated, except the
/// still-open block of the module-level initializer if one exists.
pub open spec fn module_level_ok(cg: CodeGen) -> bool {
    &&& cg.inv()
    &&& cg.fn_value is None
    &&& !cg.compile_context.returned
    &&& forall|fi: int, bi: int|
        0 <= fi < cg.module.functions.len() && 0 <= bi < cg.module.functions[fi].blocks.len()
            && !is_pos(cg.mi_cursor, fi, bi) ==> (
        #[trigger] cg.module.functions[fi].blocks[bi]).terminated()
}

/// One top-level statement keeps the orchestrator's invariant.
proof fn lemma_top_step(o: CodeGen, n: CodeGen)
    requires
        module_level_ok(o),
        stmt_frame(o, n),
        n.inv(),
    ensures
        module_level_ok(n),
{
    assert forall|fi: int, bi: int|
        0 <= fi < n.module.functions.len() && 0 <= bi < n.module.functions[fi].blocks.len()
            && !is_pos(n.mi_cursor, fi, bi) implies (
    #[trigger] n.module.functions[fi].blocks[bi]).terminated() by {
        if fi < o.module.functions.len() && bi < o.module.functions[fi].blocks.len() {
            if is_pos(o.mi_cursor, fi, bi) {
                // the old initializer block is still the initializer block
                assert(n.mi_cursor == o.mi_cursor);
                assert(false);
            } else {
                assert(o.module.functions[fi].blocks[bi].terminated());
                assert(Function::extends(o.module.functions[fi], n.module.functions[fi]));
            }
        } else {
            // a block created by this statement is terminated unless it is
            // the insertion point, which is the initializer block
            assert(n.cursor == n.mi_cursor);
        }
    }
}

/// One compilation: the source path (used only to name the module), the
/// flags, the emitter, and the parsed user program.
pub struct Compiler {
    pub source_path: String,
    pub compiler_flags: CompilerFlags,
    pub codegen: CodeGen,
    pub program: Program,
}

/// Emit a suite of top-level statements, starting past any leading
/// documentation literal.
fn emit_statements(cg: &mut CodeGen, stmts: &Vec<Statement>, start: usize) -> (r: Result<
    (),
    LLVMCompileError,
>)
    requires
        module_level_ok(*old(cg)),
        start <= stmts@.len(),
    ensures
        final(cg).inv(),
        r is Ok ==> {
            &&& module_level_ok(*final(cg))
            &&& Module::extends(old(cg).module, final(cg).module)
            // every statement left its footprint in the module
            &&& forall|j: int|
                start <= j < stmts@.len() ==> stmt_reflected(final(cg).module, #[trigger] stmts@[j])
        },
        (r matches Err(e) ==> e.location is Some),
{
    let n = stmts.len();
    let mut i = start;
    proof {
        crate::ir::lemma_module_extends_refl(cg.module);
    }
    while i < n
        invariant
            module_level_ok(*cg),
            n == stmts.len(),
            start <= i <= n,
            Module::extends(old(cg).module, cg.module),
            forall|j: int| start <= j < i ==> stmt_reflected(cg.module, #[trigger] stmts@[j]),
        decreases n - i,
    {
        let ghost pre = *cg;
        cg.compile_stmt(&stmts[i])?;
        proof {
            lemma_top_step(pre, *cg);
            crate::ir::lemma_extends_trans(old(cg).module, pre.module, cg.module);
            assert forall|j: int| start <= j < i + 1 implies stmt_reflected(
                cg.module,
                #[trigger] stmts@[j],
            ) by {
                if j < i {
                    lemma_reflected_monotone(pre.module, cg.module, stmts@[j]);
                }
            }
        }
        i += 1;
    }
    Ok(())
}

impl Compiler {
    /// A compiler around an already-prepared module (normally one freshly
    /// created with the prototype table installed) and a parsed program.
    pub fn new(
        source_path: String,
        compiler_flags: CompilerFlags,
        module: Module,
        program: Program,
    ) -> (r: Compiler)
        requires
            module.wf(),
            module.fully_terminated(),
        ensures
            module_level_ok(r.codegen),
            r.codegen.module == module,
            r.source_path@ == source_path@,
            r.compiler_flags == compiler_flags,
            r.program == program,
    {
        Compiler { source_path, compiler_flags, codegen: CodeGen::new(module), program }
    }

    /// Emit one standard-library module: its statements in order, past any
    /// leading documentation literal.
    pub fn compile_module(&mut self, module_ast: &Program) -> (r: Result<(), LLVMCompileError>)
        requires
            module_level_ok(old(self).codegen),
        ensures
            final(self).codegen.inv(),
            r is Ok ==> module_level_ok(final(self).codegen) && Module::extends(
                old(self).codegen.module,
                final(self).codegen.module,
            ),
            (r matches Err(e) ==> e.location is Some),
            final(self).source_path == old(self).source_path,
            final(self).compiler_flags == old(self).compiler_flags,
            final(self).program == old(self).program,
    {
        let d = get_doc(&module_ast.statements);
        emit_statements(&mut self.codegen, &module_ast.statements, d.0)
    }

    /// Emit every standard-library module, in the (sorted) order the caller
    /// collected them, so that their names exist before the user program is
    /// processed.
    pub fn prepare_module(&mut self, libs: &Vec<Program>) -> (r: Result<(), LLVMCompileError>)
        requires
            module_level_ok(old(self).codegen),
        ensures
            final(self).codegen.inv(),
            r is Ok ==> module_level_ok(final(self).codegen) && Module::extends(
                old(self).codegen.module,
                final(self).codegen.module,
            ),
            (r matches Err(e) ==> e.location is Some),
            final(self).source_path == old(self).source_path,
            final(self).compiler_flags == old(self).compiler_flags,
            final(self).program == old(self).program,
    {
        let n = libs.len();
        let mut i: usize = 0;
        while i < n
            invariant
                module_level_ok(self.codegen),
                n == libs.len(),
                i <= n,
                Module::extends(old(self).codegen.module, self.codegen.module),
                self.source_path == old(self).source_path,
                self.compiler_flags == old(self).compiler_flags,
                self.program == old(self).program,
            decreases n - i,
        {
            let ghost pre = *self;
            self.compile_module(&libs[i])?;
            proof {
                crate::ir::lemma_extends_trans(
                    old(self).codegen.module,
                    pre.codegen.module,
                    self.codegen.module,
                );
            }
            i += 1;
        }
        Ok(())
    }

    /// Emit the user program.
    pub fn compile(&mut self) -> (r: Result<(), LLVMCompileError>)
        requires
            module_level_ok(old(self).codegen),
        ensures
            final(self).codegen.inv(),
            r is Ok ==> {
                &&& module_level_ok(final(self).codegen)
                &&& Module::extends(old(self).codegen.module, final(self).codegen.module)
                // every statement of the program (past a documentation
                // literal) left its footprint in the module
                &&& forall|j: int|
                    crate::cgstmt::doc_skip(old(self).program.statements@) <= j < old(
                        self,
                    ).program.statements@.len() ==> stmt_reflected(
                        final(self).codegen.module,
                        #[trigger] old(self).program.statements@[j],
                    )
            },
            (r matches Err(e) ==> e.location is Some),
            final(self).source_path == old(self).source_path,
            final(self).compiler_flags == old(self).compiler_flags,
            final(self).program == old(self).program,
    {
        let d = get_doc(&self.program.statements);
        emit_statements(&mut self.codegen, &self.program.statements, d.0)
    }

    /// Close the module: if module-level statements opened the synthetic
    /// initializer function, give its block its terminator.  Afterwards
    /// every block of every function ends with exactly one terminator.
    pub fn finish(&mut self)
        requires
            module_level_ok(old(self).codegen),
        ensures
            final(self).codegen.inv(),
            final(self).codegen.module.wf(),
            final(self).codegen.module.fully_terminated(),
            Module::extends(old(self).codegen.module, final(self).codegen.module),
            final(self).source_path == old(self).source_path,
            final(self).compiler_flags == old(self).compiler_flags,
            final(self).program == old(self).program,
    {
        match self.codegen.mi_cursor {
            Some(mc) => {
                self.codegen.module.terminate(mc.fid, mc.bid, Terminator::Ret { value: None });
                self.codegen.mi_cursor = None;
                self.codegen.cursor = None;
                proof {
                    let o = old(self).codegen;
                    let n = self.codegen;
                    assert forall|fi: int|
                        0 <= fi < n.module.functions.len() implies (
                    #[trigger] n.module.functions[fi]).fully_terminated() by {
                        assert forall|bi: int|
                            0 <= bi < n.module.functions[fi].blocks.len() implies (
                        #[trigger] n.module.functions[fi].blocks[bi]).terminated() by {
                            if fi == mc.fid as int && bi == mc.bid as int {
                            } else {
                                assert(o.module.functions[fi].blocks[bi].terminated());
                                assert(Function::extends(
                                    o.module.functions[fi],
                                    n.module.functions[fi],
                                ));
                            }
                        }
                    }
                }
            },
            None => {
                self.codegen.cursor = None;
                proof {
                    crate::ir::lemma_module_extends_refl(self.codegen.module);
                    let n = self.codegen;
                    assert forall|fi: int|
                        0 <= fi < n.module.functions.len() implies (
                    #[trigger] n.module.functions[fi]).fully_terminated() by {
                        assert forall|bi: int|
                            0 <= bi < n.module.functions[fi].blocks.len() implies (
                        #[trigger] n.module.functions[fi].blocks[bi]).terminated() by {}
                    }
                }
            },
        }
    }
}

/// Compile a whole program against the standard-library modules and return
/// the finished IR module.
///
/// The produced module is well formed: every call's argument types exactly
/// match the callee's declared parameter types; every read through a local
/// slot sits in a function that stores through that slot; no two interned
/// strings share contents; every global initializer is a constant; and every
/// basic block ends with exactly one terminator.  An optimization level
/// above 3 is rejected.
pub fn get_assembly(
    source_path: String,
    flags: CompilerFlags,
    libs: &Vec<Program>,
    program: Program,
) -> (r: Result<Module, LLVMCompileError>)
    ensures
        (flags.optimization_level > 3 ==> r is Err),
        match r {
            Ok(m) => {
                &&& m.wf()
                &&& m.fully_terminated()
                // the module is named after the source and carries the AVR
                // data layout and triple
                &&& m.name@ == source_path@
                &&& m.data_layout@ == "e-P1-p:16:8-i8:8-i16:8-i32:8-i64:8-f32:8-f64:8-n8-a:8"@
                &&& m.triple@ == "avr"@
                // the runtime prototype table stands at its head
                &&& prototype_table_installed(m)
                // every statement of the program (past a documentation
                // literal) left its footprint: a definition its function with
                // the annotation-derived signature and entry-point linkage, a
                // module-level assignment its global cell
                &&& forall|j: int|
                    crate::cgstmt::doc_skip(program.statements@) <= j < program.statements@.len()
                        ==> stmt_reflected(m, #[trigger] program.statements@[j])
            },
            Err(e) => {
                &&& (flags.optimization_level > 3 ==> (e.error matches
                    LLVMCompileErrorType::NotImplemented(_)) && e.location is None)
                &&& (flags.optimization_level <= 3 ==> e.location is Some)
            },
        },
{
    if flags.optimization_level > 3 {
        return Err(
            LLVMCompileError::new(
                None,
                LLVMCompileErrorType::NotImplemented(
                    "The optimization level must be an integer from 0 to 3.".to_owned(),
                ),
            ),
        );
    }
    let mut module = Module::create(
        source_path.clone(),
        "e-P1-p:16:8-i8:8-i16:8-i32:8-i64:8-f32:8-f64:8-n8-a:8".to_owned(),
        "avr".to_owned(),
    );
    generate_prototypes(&mut module);
    proof {
        assert forall|fi: int| 0 <= fi < module.functions.len() implies (
        #[trigger] module.functions[fi]).fully_terminated() by {
            assert(module.functions[fi].blocks.len() == 0);
        }
    }
    let mut compiler = Compiler::new(source_path, flags, module, program);
    let ghost s0 = compiler;
    compiler.prepare_module(libs)?;
    let ghost s1 = compiler;
    compiler.compile()?;
    let ghost s2 = compiler;
    compiler.finish();
    proof {
        lemma_prototypes_stable(s0.codegen.module, s1.codegen.module);
        lemma_prototypes_stable(s1.codegen.module, s2.codegen.module);
        lemma_prototypes_stable(s2.codegen.module, compiler.codegen.module);
        assert forall|j: int|
            crate::cgstmt::doc_skip(s0.program.statements@) <= j < s0.program.statements@.len()
                implies stmt_reflected(
            compiler.codegen.module,
            #[trigger] s0.program.statements@[j],
        ) by {
            lemma_reflected_monotone(
                s2.codegen.module,
                compiler.codegen.module,
                s0.program.statements@[j],
            );
        }
    }
    let Compiler { codegen, .. } = compiler;
    Ok(codegen.module)
}

} // verus!
