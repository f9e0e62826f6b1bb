//! The shape of a configuration as the menu shows it: named fields, each a
//! nested structure, an array, an enum, or a value already rendered as text.
use vstd::prelude::*;

verus! {

/// What kind of value a field holds, as far as the menu shows it.
#[derive(Debug)]
pub enum FieldKind {
    /// A nested structure with fields of its own.
    Struct(ReflectedStruct),
    /// An array, shown as `<ARRAY>`.
    Array,
    /// An enum, shown as `<ENUM>`.
    Enum,
    /// A plain value: its text when its type is a known one, `None` otherwise.
    Opaque(Option<String>),
    /// A tuple, list, map or set, which the menu cannot show.
    Unsupported,
}

/// A named field of a structure.
#[derive(Debug)]
pub struct ReflectedField {
    pub name: String,
    pub kind: FieldKind,
}

/// A structure: its fields in declaration order.
#[derive(Debug)]
pub struct ReflectedStruct {
    pub fields: Vec<ReflectedField>,
}

/// The first field named `name`.
pub open spec fn field_named_in(fs: Seq<ReflectedField>, name: Seq<char>) -> Option<ReflectedField>
    decreases fs.len(),
{
    if fs.len() == 0 {
        None
    } else if fs[0].name@ == name {
        Some(fs[0])
    } else {
        field_named_in(fs.drop_first(), name)
    }
}

/// The field of `st` named `name`.
pub open spec fn field_named(st: ReflectedStruct, name: Seq<char>) -> Option<ReflectedField> {
    field_named_in(st.fields@, name)
}

/// The structure that `k` holds, when it is one.
pub open spec fn struct_of(k: FieldKind) -> ReflectedStruct {
    match k {
        FieldKind::Struct(st) => st,
        _ => arbitrary(),
    }
}

impl FieldKind {
    /// The nested structure, when this field holds one.
    pub fn as_struct(&self) -> (r: Option<&ReflectedStruct>)
        ensures
            match r {
                Some(st) => *self == FieldKind::Struct(*st),
                None => !(*self is Struct),
            },
    {
        match self {
            FieldKind::Struct(st) => Some(st),
            _ => None,
        }
    }
}

impl ReflectedStruct {
    /// The field named `name`.
    pub fn field(&self, name: &String) -> (r: Option<&ReflectedField>)
        ensures
            match r {
                Some(f) => field_named(*self, name@) == Some(*f),
                None => field_named(*self, name@) is None,
            },
    {
        let n = self.fields.len();
        let mut i: usize = 0;
        assert(self.fields@.skip(0) =~= self.fields@);
        while i < n
            invariant
                n == self.fields@.len(),
                i <= n,
                field_named(*self, name@) == field_named_in(self.fields@.skip(i as int), name@),
            decreases n - i,
        {
            assert(self.fields@.skip(i as int).drop_first() =~= self.fields@.skip(i + 1));
            if self.fields[i].name == *name {
                return Some(&self.fields[i]);
            }
            i = i + 1;
        }
        None
    }
}

} // verus!
