//! The prototype table: declarations of the runtime-provided functions,
//! installed once per module before any user code is emitted, so user code
//! can call the hardware and the overloaded printing and conversion entries.

use vstd::prelude::*;

use crate::ir::BasicType;
use crate::ir::Function;
use crate::ir::Linkage;
use crate::ir::Module;

verus! {

/// The function at index `k` is a declaration with this signature.
pub open spec fn proto_named(
    m: Module,
    k: int,
    name: Seq<char>,
    params: Seq<BasicType>,
    ret: Option<BasicType>,
) -> bool {
    &&& 0 <= k < m.functions.len()
    &&& m.functions[k].name@ == name
    &&& m.functions[k].params@ == params
    &&& m.functions[k].ret == ret
}

/// All required runtime entries stand at the head of the module, by name and
/// signature.
pub open spec fn prototype_table_installed(m: Module) -> bool {
    let i8t = BasicType::I8;
    let i16t = BasicType::I16;
    let i32t = BasicType::I32;
    let f32t = BasicType::F32;
    let ptr = BasicType::PtrI8;
    &&& proto_named(m, 0, "pin_mode"@, seq![i8t, i8t], None)
    &&& proto_named(m, 1, "digital_write"@, seq![i8t, i8t], None)
    &&& proto_named(m, 2, "digital_read"@, seq![i8t], Some(i16t))
    &&& proto_named(m, 3, "analog_write"@, seq![i8t, i8t], None)
    &&& proto_named(m, 4, "analog_read"@, seq![i8t], Some(i16t))
    &&& proto_named(m, 5, "pulse_in"@, seq![i8t, i8t], Some(f32t))
    &&& proto_named(m, 6, "is_serial_available"@, Seq::<BasicType>::empty(), Some(BasicType::I1))
    &&& proto_named(m, 7, "serial_begin"@, seq![i16t], None)
    &&& proto_named(m, 8, "input"@, Seq::<BasicType>::empty(), Some(i16t))
    &&& proto_named(m, 9, "flush"@, Seq::<BasicType>::empty(), None)
    &&& proto_named(m, 10, "delay"@, seq![i32t], None)
    &&& proto_named(m, 11, "sin"@, seq![f32t], Some(f32t))
    &&& proto_named(m, 12, "cos"@, seq![f32t], Some(f32t))
    &&& proto_named(m, 13, "tan"@, seq![f32t], Some(f32t))
    &&& proto_named(m, 14, "print__i__"@, seq![i16t], None)
    &&& proto_named(m, 15, "print__f__"@, seq![f32t], None)
    &&& proto_named(m, 16, "print__s__"@, seq![ptr], None)
    &&& proto_named(m, 17, "println__i__"@, seq![i16t], None)
    &&& proto_named(m, 18, "println__f__"@, seq![f32t], None)
    &&& proto_named(m, 19, "println__s__"@, seq![ptr], None)
    &&& proto_named(m, 20, "int__i__"@, seq![i16t], Some(i16t))
    &&& proto_named(m, 21, "int__f__"@, seq![f32t], Some(i16t))
    &&& proto_named(m, 22, "float__i__"@, seq![i16t], Some(f32t))
    &&& proto_named(m, 23, "float__f__"@, seq![f32t], Some(f32t))
}

/// The installed table survives any growth of the module.
pub proof fn lemma_prototypes_stable(o: Module, n: Module)
    requires
        prototype_table_installed(o),
        Module::extends(o, n),
    ensures
        prototype_table_installed(n),
{
    assert forall|k: int| 0 <= k < 24 implies Function::extends(
        #[trigger] o.functions[k],
        n.functions[k],
    ) by {}
}


/// A one-entry parameter list.
fn params1(t: BasicType) -> (r: Vec<BasicType>)
    ensures
        r@ =~= seq![t],
{
    let mut r: Vec<BasicType> = Vec::new();
    r.push(t);
    r
}

/// Declare one runtime-provided function.
fn proto(
    module: &mut Module,
    name: &str,
    params: Vec<BasicType>,
    ret: Option<BasicType>,
)
    requires
        old(module).wf(),
    ensures
        final(module).wf(),
        Module::extends(*old(module), *final(module)),
        final(module).globals == old(module).globals,
        final(module).name == old(module).name,
        final(module).data_layout == old(module).data_layout,
        final(module).triple == old(module).triple,
        final(module).functions.len() == old(module).functions.len() + 1,
        forall|fi: int|
            0 <= fi < old(module).functions.len() ==> #[trigger] final(module).functions[fi]
                == old(module).functions[fi],
        final(module).functions[old(module).functions.len() as int].blocks.len() == 0,
        final(module).functions[old(module).functions.len() as int].name@ == name@,
        final(module).functions[old(module).functions.len() as int].params == params,
        final(module).functions[old(module).functions.len() as int].ret == ret,
{
    let n = params.len();
    let mut names: Vec<String> = Vec::new();
    let mut i: usize = 0;
    while i < n
        invariant
            i <= n,
        decreases n - i,
    {
        names.push(String::new());
        i += 1;
    }
    let _ = module.add_function(name.to_owned(), Linkage::External, params, names, ret);
}

/// Declarations of the hardware primitives.
#[verifier::rlimit(60)]
fn protos_hardware(module: &mut Module)
    requires
        old(module).wf(),
    ensures
        final(module).wf(),
        final(module).globals == old(module).globals,
        final(module).name == old(module).name,
        final(module).data_layout == old(module).data_layout,
        final(module).triple == old(module).triple,
        old(module).functions.len() <= final(module).functions.len(),
        forall|fi: int|
            0 <= fi < old(module).functions.len() ==> #[trigger] final(module).functions[fi]
                == old(module).functions[fi],
        forall|fi: int|
            old(module).functions.len() <= fi < final(module).functions.len()
                ==> (#[trigger] final(module).functions[fi]).blocks.len() == 0,
        final(module).functions.len() == old(module).functions.len() + 8,
        (proto_named(*final(module), old(module).functions.len() as int + 0, "pin_mode"@, seq![BasicType::I8, BasicType::I8], None)),
        (proto_named(*final(module), old(module).functions.len() as int + 1, "digital_write"@, seq![BasicType::I8, BasicType::I8], None)),
        (proto_named(*final(module), old(module).functions.len() as int + 2, "digital_read"@, seq![BasicType::I8], Some(BasicType::I16))),
        (proto_named(*final(module), old(module).functions.len() as int + 3, "analog_write"@, seq![BasicType::I8, BasicType::I8], None)),
        (proto_named(*final(module), old(module).functions.len() as int + 4, "analog_read"@, seq![BasicType::I8], Some(BasicType::I16))),
        (proto_named(*final(module), old(module).functions.len() as int + 5, "pulse_in"@, seq![BasicType::I8, BasicType::I8], Some(BasicType::F32))),
        (proto_named(*final(module), old(module).functions.len() as int + 6, "is_serial_available"@, Seq::<BasicType>::empty(), Some(BasicType::I1))),
        (proto_named(*final(module), old(module).functions.len() as int + 7, "serial_begin"@, seq![BasicType::I16], None)),
{
    let i8t = BasicType::I8;
    let i16t = BasicType::I16;
    let i32t = BasicType::I32;
    let f32t = BasicType::F32;
    proto(module, "pin_mode", vec![i8t, i8t], None);
    proof {
        assert(proto_named(*module, old(module).functions.len() as int + 0, "pin_mode"@, seq![BasicType::I8, BasicType::I8], None));
    }
    proto(module, "digital_write", vec![i8t, i8t], None);
    proof {
        assert(proto_named(*module, old(module).functions.len() as int + 1, "digital_write"@, seq![BasicType::I8, BasicType::I8], None));
    }
    proto(module, "digital_read", params1(i8t), Some(i16t));
    proof {
        assert(proto_named(*module, old(module).functions.len() as int + 2, "digital_read"@, seq![BasicType::I8], Some(BasicType::I16)));
    }
    proto(module, "analog_write", vec![i8t, i8t], None);
    proof {
        assert(proto_named(*module, old(module).functions.len() as int + 3, "analog_write"@, seq![BasicType::I8, BasicType::I8], None));
    }
    proto(module, "analog_read", params1(i8t), Some(i16t));
    proof {
        assert(proto_named(*module, old(module).functions.len() as int + 4, "analog_read"@, seq![BasicType::I8], Some(BasicType::I16)));
    }
    proto(module, "pulse_in", vec![i8t, i8t], Some(f32t));
    proof {
        assert(proto_named(*module, old(module).functions.len() as int + 5, "pulse_in"@, seq![BasicType::I8, BasicType::I8], Some(BasicType::F32)));
    }
    proto(module, "is_serial_available", vec![], Some(BasicType::I1));
    proof {
        assert(proto_named(*module, old(module).functions.len() as int + 6, "is_serial_available"@, Seq::<BasicType>::empty(), Some(BasicType::I1)));
    }
    proto(module, "serial_begin", params1(i16t), None);
    proof {
        assert(proto_named(*module, old(module).functions.len() as int + 7, "serial_begin"@, seq![BasicType::I16], None));
    }
}

/// Declarations of the remaining runtime entries and the math functions.
#[verifier::rlimit(60)]
fn protos_runtime(module: &mut Module)
    requires
        old(module).wf(),
    ensures
        final(module).wf(),
        final(module).globals == old(module).globals,
        final(module).name == old(module).name,
        final(module).data_layout == old(module).data_layout,
        final(module).triple == old(module).triple,
        old(module).functions.len() <= final(module).functions.len(),
        forall|fi: int|
            0 <= fi < old(module).functions.len() ==> #[trigger] final(module).functions[fi]
                == old(module).functions[fi],
        forall|fi: int|
            old(module).functions.len() <= fi < final(module).functions.len()
                ==> (#[trigger] final(module).functions[fi]).blocks.len() == 0,
        final(module).functions.len() == old(module).functions.len() + 6,
        (proto_named(*final(module), old(module).functions.len() as int + 0, "input"@, Seq::<BasicType>::empty(), Some(BasicType::I16))),
        (proto_named(*final(module), old(module).functions.len() as int + 1, "flush"@, Seq::<BasicType>::empty(), None)),
        (proto_named(*final(module), old(module).functions.len() as int + 2, "delay"@, seq![BasicType::I32], None)),
        (proto_named(*final(module), old(module).functions.len() as int + 3, "sin"@, seq![BasicType::F32], Some(BasicType::F32))),
        (proto_named(*final(module), old(module).functions.len() as int + 4, "cos"@, seq![BasicType::F32], Some(BasicType::F32))),
        (proto_named(*final(module), old(module).functions.len() as int + 5, "tan"@, seq![BasicType::F32], Some(BasicType::F32))),
{
    let i16t = BasicType::I16;
    let i32t = BasicType::I32;
    let f32t = BasicType::F32;
    proto(module, "input", vec![], Some(i16t));
    proof {
        assert(proto_named(*module, old(module).functions.len() as int + 0, "input"@, Seq::<BasicType>::empty(), Some(BasicType::I16)));
    }
    proto(module, "flush", vec![], None);
    proof {
        assert(proto_named(*module, old(module).functions.len() as int + 1, "flush"@, Seq::<BasicType>::empty(), None));
    }
    proto(module, "delay", params1(i32t), None);
    proof {
        assert(proto_named(*module, old(module).functions.len() as int + 2, "delay"@, seq![BasicType::I32], None));
    }
    proto(module, "sin", params1(f32t), Some(f32t));
    proof {
        assert(proto_named(*module, old(module).functions.len() as int + 3, "sin"@, seq![BasicType::F32], Some(BasicType::F32)));
    }
    proto(module, "cos", params1(f32t), Some(f32t));
    proof {
        assert(proto_named(*module, old(module).functions.len() as int + 4, "cos"@, seq![BasicType::F32], Some(BasicType::F32)));
    }
    proto(module, "tan", params1(f32t), Some(f32t));
    proof {
        assert(proto_named(*module, old(module).functions.len() as int + 5, "tan"@, seq![BasicType::F32], Some(BasicType::F32)));
    }
}

/// Declarations of the overloaded printing and conversion entries.
#[verifier::rlimit(60)]
fn protos_builtins(module: &mut Module)
    requires
        old(module).wf(),
    ensures
        final(module).wf(),
        final(module).globals == old(module).globals,
        final(module).name == old(module).name,
        final(module).data_layout == old(module).data_layout,
        final(module).triple == old(module).triple,
        old(module).functions.len() <= final(module).functions.len(),
        forall|fi: int|
            0 <= fi < old(module).functions.len() ==> #[trigger] final(module).functions[fi]
                == old(module).functions[fi],
        forall|fi: int|
            old(module).functions.len() <= fi < final(module).functions.len()
                ==> (#[trigger] final(module).functions[fi]).blocks.len() == 0,
        final(module).functions.len() == old(module).functions.len() + 10,
        (proto_named(*final(module), old(module).functions.len() as int + 0, "print__i__"@, seq![BasicType::I16], None)),
        (proto_named(*final(module), old(module).functions.len() as int + 1, "print__f__"@, seq![BasicType::F32], None)),
        (proto_named(*final(module), old(module).functions.len() as int + 2, "print__s__"@, seq![BasicType::PtrI8], None)),
        (proto_named(*final(module), old(module).functions.len() as int + 3, "println__i__"@, seq![BasicType::I16], None)),
        (proto_named(*final(module), old(module).functions.len() as int + 4, "println__f__"@, seq![BasicType::F32], None)),
        (proto_named(*final(module), old(module).functions.len() as int + 5, "println__s__"@, seq![BasicType::PtrI8], None)),
        (proto_named(*final(module), old(module).functions.len() as int + 6, "int__i__"@, seq![BasicType::I16], Some(BasicType::I16))),
        (proto_named(*final(module), old(module).functions.len() as int + 7, "int__f__"@, seq![BasicType::F32], Some(BasicType::I16))),
        (proto_named(*final(module), old(module).functions.len() as int + 8, "float__i__"@, seq![BasicType::I16], Some(BasicType::F32))),
        (proto_named(*final(module), old(module).functions.len() as int + 9, "float__f__"@, seq![BasicType::F32], Some(BasicType::F32))),
{
    let i16t = BasicType::I16;
    let f32t = BasicType::F32;
    let ptr = BasicType::PtrI8;
    proto(module, "print__i__", params1(i16t), None);
    proof {
        assert(proto_named(*module, old(module).functions.len() as int + 0, "print__i__"@, seq![BasicType::I16], None));
    }
    proto(module, "print__f__", params1(f32t), None);
    proof {
        assert(proto_named(*module, old(module).functions.len() as int + 1, "print__f__"@, seq![BasicType::F32], None));
    }
    proto(module, "print__s__", params1(ptr), None);
    proof {
        assert(proto_named(*module, old(module).functions.len() as int + 2, "print__s__"@, seq![BasicType::PtrI8], None));
    }
    proto(module, "println__i__", params1(i16t), None);
    proof {
        assert(proto_named(*module, old(module).functions.len() as int + 3, "println__i__"@, seq![BasicType::I16], None));
    }
    proto(module, "println__f__", params1(f32t), None);
    proof {
        assert(proto_named(*module, old(module).functions.len() as int + 4, "println__f__"@, seq![BasicType::F32], None));
    }
    proto(module, "println__s__", params1(ptr), None);
    proof {
        assert(proto_named(*module, old(module).functions.len() as int + 5, "println__s__"@, seq![BasicType::PtrI8], None));
    }
    proto(module, "int__i__", params1(i16t), Some(i16t));
    proof {
        assert(proto_named(*module, old(module).functions.len() as int + 6, "int__i__"@, seq![BasicType::I16], Some(BasicType::I16)));
    }
    proto(module, "int__f__", params1(f32t), Some(i16t));
    proof {
        assert(proto_named(*module, old(module).functions.len() as int + 7, "int__f__"@, seq![BasicType::F32], Some(BasicType::I16)));
    }
    proto(module, "float__i__", params1(i16t), Some(f32t));
    proof {
        assert(proto_named(*module, old(module).functions.len() as int + 8, "float__i__"@, seq![BasicType::I16], Some(BasicType::F32)));
    }
    proto(module, "float__f__", params1(f32t), Some(f32t));
    proof {
        assert(proto_named(*module, old(module).functions.len() as int + 9, "float__f__"@, seq![BasicType::F32], Some(BasicType::F32)));
    }
}

/// Install the whole prototype table: the hardware primitives, the math
/// entries, and the suffix-overloaded printing and conversion entries.
pub fn generate_prototypes(module: &mut Module)
    requires
        old(module).wf(),
    ensures
        final(module).wf(),
        final(module).globals == old(module).globals,
        final(module).name == old(module).name,
        final(module).data_layout == old(module).data_layout,
        final(module).triple == old(module).triple,
        forall|fi: int|
            0 <= fi < old(module).functions.len() ==> #[trigger] final(module).functions[fi]
                == old(module).functions[fi],
        forall|fi: int|
            old(module).functions.len() <= fi < final(module).functions.len()
                ==> (#[trigger] final(module).functions[fi]).blocks.len() == 0,
        (old(module).functions.len() == 0 ==> prototype_table_installed(*final(module))),
{
    protos_hardware(module);
    let ghost s1 = *module;
    protos_runtime(module);
    let ghost s2 = *module;
    protos_builtins(module);
    proof {
        let o = *old(module);
        let n = *module;
        assert forall|fi: int| 0 <= fi < o.functions.len() implies #[trigger] n.functions[fi]
            == o.functions[fi] by {
            assert(s1.functions[fi] == o.functions[fi]);
            assert(s2.functions[fi] == s1.functions[fi]);
        }
        assert forall|fi: int|
            o.functions.len() <= fi < n.functions.len() implies (
        #[trigger] n.functions[fi]).blocks.len() == 0 by {
            if fi < s1.functions.len() {
                assert(s2.functions[fi] == s1.functions[fi]);
                assert(n.functions[fi] == s2.functions[fi]);
            } else if fi < s2.functions.len() {
                assert(n.functions[fi] == s2.functions[fi]);
            }
        }
    }
}

} // verus!
