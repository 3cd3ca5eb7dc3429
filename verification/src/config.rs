//! The override configuration: an immutable, injected read-only table keyed
//! by declaration name, populated once before translation begins and passed
//! explicitly into every parsing call that consults it.

use vstd::prelude::*;

use crate::stmt::{Derives, Ownership};

verus! {

/// Per-class overrides.
#[derive(Debug, Clone)]
pub struct ClassData {
    /// Drop the whole class.
    pub skipped: bool,
    /// Keep the member set but suppress the class declaration itself.
    pub definition_skipped: bool,
    pub derives: Derives,
    pub ownership: Ownership,
}

/// Per-protocol overrides.
#[derive(Debug, Clone)]
pub struct ProtocolData {
    pub skipped: bool,
}

/// Per-struct overrides.
#[derive(Debug, Clone)]
pub struct StructData {
    pub skipped: bool,
}

/// Per-typedef overrides.
#[derive(Debug, Clone)]
pub struct TypedefData {
    pub skipped: bool,
}

/// Per-variable overrides.
#[derive(Debug, Clone)]
pub struct StaticData {
    pub skipped: bool,
}

/// Per-function overrides.
#[derive(Debug, Clone)]
pub struct FnData {
    pub skipped: bool,
}

/// Per-enum-constant overrides.
#[derive(Debug, Clone)]
pub struct ConstantData {
    pub skipped: bool,
}

/// Per-enum overrides.
#[derive(Debug, Clone)]
pub struct EnumData {
    pub skipped: bool,
    /// Force the raw constant value over a symbolic initializer expression.
    pub use_value: bool,
    pub constants: Vec<(String, ConstantData)>,
}

/// The whole override table. Safely shared by read access only: nothing
/// writes to it during traversal.
#[derive(Debug)]
pub struct Context {
    pub class_data: Vec<(String, ClassData)>,
    pub protocol_data: Vec<(String, ProtocolData)>,
    pub struct_data: Vec<(String, StructData)>,
    pub enum_data: Vec<(String, EnumData)>,
    pub typedef_data: Vec<(String, TypedefData)>,
    pub statics: Vec<(String, StaticData)>,
    pub fns: Vec<(String, FnData)>,
}

impl Context {
    /// An empty table: no declaration is overridden.
    pub fn new() -> (r: Self)
        ensures
            r.class_data@.len() == 0,
            r.protocol_data@.len() == 0,
            r.struct_data@.len() == 0,
            r.enum_data@.len() == 0,
            r.typedef_data@.len() == 0,
            r.statics@.len() == 0,
            r.fns@.len() == 0,
    {
        Context {
            class_data: Vec::new(),
            protocol_data: Vec::new(),
            struct_data: Vec::new(),
            enum_data: Vec::new(),
            typedef_data: Vec::new(),
            statics: Vec::new(),
            fns: Vec::new(),
        }
    }
}

/// The entry for `name`, if any: the first entry whose key matches.
pub open spec fn spec_lookup<T>(entries: Seq<(String, T)>, name: Seq<char>) -> Option<T>
    decreases entries.len(),
{
    if entries.len() == 0 {
        None
    } else if entries[0].0@ == name {
        Some(entries[0].1)
    } else {
        spec_lookup(entries.drop_first(), name)
    }
}

/// Linear search for `name` among `entries`.
pub fn lookup<'a, T>(entries: &'a Vec<(String, T)>, name: &String) -> (r: Option<&'a T>)
    ensures
        match r {
            Some(t) => spec_lookup(entries@, name@) == Some(*t),
            None => spec_lookup(entries@, name@) is None,
        },
{
    let mut i: usize = 0;
    proof {
        assert(entries@.skip(0) =~= entries@);
    }
    while i < entries.len()
        invariant
            i <= entries.len(),
            spec_lookup(entries@, name@) == spec_lookup(entries@.skip(i as int), name@),
            forall|j: int| 0 <= j < i ==> entries@[j].0@ != name@,
        decreases entries.len() - i,
    {
        if entries[i].0 == *name {
            proof {
                assert(entries@.skip(i as int)[0] == entries@[i as int]);
            }
            return Some(&entries[i].1);
        }
        proof {
            assert(entries@.skip(i as int)[0] == entries@[i as int]);
            assert(entries@.skip(i as int).drop_first() =~= entries@.skip(i as int + 1));
        }
        i = i + 1;
    }
    proof {
        assert(entries@.skip(i as int).len() == 0);
    }
    None
}

} // verus!
