//! Symbol and scope store.
//!
//! One module-wide table of globals per compilation, and one table of locals
//! per function, pushed when the emitter enters a function definition and
//! popped when it leaves.  Local lookups precede global lookups.

use vstd::prelude::*;

use crate::ir::Ptr;
use crate::value::ValueType;

verus! {

/// What the store knows of one name: the value's type, fixed at creation,
/// and the storage pointer every read and write goes through.
#[derive(Debug, Clone, Copy, PartialEq, Eq, Structural)]
pub struct LLVMVariable {
    pub value_type: ValueType,
    pub pointer: Ptr,
}

/// Where a name was resolved.
#[derive(Debug, Clone, Copy, PartialEq, Eq, Structural)]
pub enum SymbolScope {
    Global,
    Local,
}

/// First-match lookup in a binding list; newer bindings sit in front.
pub open spec fn spec_lookup(s: Seq<(String, LLVMVariable)>, name: Seq<char>) -> Option<
    LLVMVariable,
>
    decreases s.len(),
{
    if s.len() == 0 {
        None
    } else if s[0].0@ == name {
        Some(s[0].1)
    } else {
        spec_lookup(s.skip(1), name)
    }
}

/// A mapping from names to variables; an insert for an existing name shadows
/// the older binding.
#[derive(Debug)]
pub struct VariableMap {
    pub entries: Vec<(String, LLVMVariable)>,
}

impl VariableMap {
    /// The bindings this map holds, newest first.
    pub open spec fn view(self) -> Seq<(String, LLVMVariable)> {
        self.entries@
    }

    pub open spec fn spec_load(self, name: Seq<char>) -> Option<LLVMVariable> {
        spec_lookup(self@, name)
    }

    pub fn new() -> (r: Self)
        ensures
            r@.len() == 0,
    {
        VariableMap { entries: Vec::new() }
    }

    /// Look a name up.
    pub fn load(&self, name: &String) -> (r: Option<LLVMVariable>)
        ensures
            r == self.spec_load(name@),
    {
        let n = self.entries.len();
        let mut i: usize = 0;
        proof {
            assert(self.entries@.skip(0) =~= self.entries@);
        }
        while i < n
            invariant
                n == self.entries.len(),
                i <= n,
                spec_lookup(self.entries@, name@) == spec_lookup(
                    self.entries@.skip(i as int),
                    name@,
                ),
            decreases n - i,
        {
            proof {
                assert(self.entries@.skip(i as int)[0] == self.entries@[i as int]);
            }
            if self.entries[i].0 == *name {
                return Some(self.entries[i].1);
            }
            proof {
                assert(self.entries@.skip(i as int).skip(1) =~= self.entries@.skip(i as int + 1));
            }
            i += 1;
        }
        proof {
            assert(self.entries@.skip(n as int).len() == 0);
        }
        None
    }

    /// Bind a name, shadowing any existing binding for it.
    pub fn set(&mut self, name: &String, value: LLVMVariable)
        ensures
            final(self).spec_load(name@) == Some(value),
            forall|other: Seq<char>|
                other != name@ ==> #[trigger] final(self).spec_load(other) == old(self).spec_load(
                    other,
                ),
            final(self)@.len() == old(self)@.len() + 1,
            final(self)@[0].0@ == name@,
            final(self)@[0].1 == value,
            final(self)@.skip(1) == old(self)@,
    {
        self.entries.insert(0, (name.clone(), value));
        proof {
            assert(self.entries@.skip(1) =~= old(self).entries@);
            assert forall|other: Seq<char>| other != name@ implies #[trigger] self.spec_load(other)
                == old(self).spec_load(other) by {
                assert(self.entries@[0].0@ == name@);
            }
        }
    }
}

/// The per-function local tables, as a stack whose top belongs to the
/// function currently being emitted.
#[derive(Debug)]
pub struct Locals {
    pub tables: Vec<VariableMap>,
}

impl Locals {
    /// How many function scopes are active.
    pub open spec fn depth(self) -> nat {
        self.tables@.len()
    }

    /// The bindings of the innermost active function scope.
    pub open spec fn active(self) -> Seq<(String, LLVMVariable)> {
        if self.tables@.len() > 0 {
            self.tables@.last()@
        } else {
            Seq::empty()
        }
    }

    pub open spec fn spec_load(self, name: Seq<char>) -> Option<LLVMVariable> {
        spec_lookup(self.active(), name)
    }

    pub fn new() -> (r: Self)
        ensures
            r.depth() == 0,
    {
        Locals { tables: Vec::new() }
    }

    /// Enter a function: push a fresh, empty local table.
    pub fn create(&mut self)
        ensures
            final(self).depth() == old(self).depth() + 1,
            final(self).active() == Seq::<(String, LLVMVariable)>::empty(),
    {
        self.tables.push(VariableMap::new());
        proof {
            assert(self.tables@.last()@ =~= Seq::<(String, LLVMVariable)>::empty());
        }
    }

    /// Leave a function: drop its local table.
    pub fn pop(&mut self)
        requires
            old(self).depth() > 0,
        ensures
            final(self).depth() == old(self).depth() - 1,
    {
        let _ = self.tables.pop();
    }

    /// Look a name up in the innermost function scope.
    pub fn load(&self, name: &String) -> (r: Option<LLVMVariable>)
        requires
            self.depth() > 0,
        ensures
            r == self.spec_load(name@),
    {
        let top = self.tables.len() - 1;
        self.tables[top].load(name)
    }

    /// Bind a name in the innermost function scope.
    pub fn set(&mut self, name: &String, value: LLVMVariable)
        requires
            old(self).depth() > 0,
        ensures
            final(self).depth() == old(self).depth(),
            final(self).spec_load(name@) == Some(value),
            forall|other: Seq<char>|
                other != name@ ==> #[trigger] final(self).spec_load(other) == old(self).spec_load(
                    other,
                ),
            final(self).active().len() == old(self).active().len() + 1,
            final(self).active()[0].0@ == name@,
            final(self).active()[0].1 == value,
            final(self).active().skip(1) == old(self).active(),
    {
        let top = self.tables.len() - 1;
        let mut table = self.tables.remove(top);
        table.set(name, value);
        self.tables.push(table);
    }
}

/// A successful lookup has a witness entry in the list.
pub proof fn lemma_lookup_found(s: Seq<(String, LLVMVariable)>, name: Seq<char>)
    requires
        spec_lookup(s, name) is Some,
    ensures
        exists|i: int|
            0 <= i < s.len() && #[trigger] s[i].1 == spec_lookup(s, name)->Some_0,
    decreases s.len(),
{
    if s[0].0@ == name {
        assert(s[0].1 == spec_lookup(s, name)->Some_0);
    } else {
        lemma_lookup_found(s.skip(1), name);
        let j = choose|j: int|
            0 <= j < s.skip(1).len() && #[trigger] s.skip(1)[j].1 == spec_lookup(
                s.skip(1),
                name,
            )->Some_0;
        assert(s[j + 1].1 == spec_lookup(s, name)->Some_0);
    }
}

} // verus!
