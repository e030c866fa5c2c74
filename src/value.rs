//! Typed named values held by a registry key.
use vstd::prelude::*;

verus! {

/// The kinds of data that the store defines for a value.
#[derive(Clone, Copy, Debug, PartialEq, Eq, Structural)]
pub enum ValueKind {
    Untyped,
    Str,
    ExpandStr,
    Binary,
    Dword,
    DwordBigEndian,
    Link,
    MultiStr,
    ResourceList,
    FullResourceDescriptor,
    ResourceRequirementsList,
    Qword,
}

/// The store's name of each kind, as printed beside a value.
pub open spec fn kind_tag(k: ValueKind) -> Seq<char> {
    match k {
        ValueKind::Untyped => "REG_NONE"@,
        ValueKind::Str => "REG_SZ"@,
        ValueKind::ExpandStr => "REG_EXPAND_SZ"@,
        ValueKind::Binary => "REG_BINARY"@,
        ValueKind::Dword => "REG_DWORD"@,
        ValueKind::DwordBigEndian => "REG_DWORD_BIG_ENDIAN"@,
        ValueKind::Link => "REG_LINK"@,
        ValueKind::MultiStr => "REG_MULTI_SZ"@,
        ValueKind::ResourceList => "REG_RESOURCE_LIST"@,
        ValueKind::FullResourceDescriptor => "REG_FULL_RESOURCE_DESCRIPTOR"@,
        ValueKind::ResourceRequirementsList => "REG_RESOURCE_REQUIREMENTS_LIST"@,
        ValueKind::Qword => "REG_QWORD"@,
    }
}

impl ValueKind {
    /// The store's name of this kind.
    pub fn tag(&self) -> (r: &'static str)
        ensures
            r@ == kind_tag(*self),
    {
        match self {
            ValueKind::Untyped => "REG_NONE",
            ValueKind::Str => "REG_SZ",
            ValueKind::ExpandStr => "REG_EXPAND_SZ",
            ValueKind::Binary => "REG_BINARY",
            ValueKind::Dword => "REG_DWORD",
            ValueKind::DwordBigEndian => "REG_DWORD_BIG_ENDIAN",
            ValueKind::Link => "REG_LINK",
            ValueKind::MultiStr => "REG_MULTI_SZ",
            ValueKind::ResourceList => "REG_RESOURCE_LIST",
            ValueKind::FullResourceDescriptor => "REG_FULL_RESOURCE_DESCRIPTOR",
            ValueKind::ResourceRequirementsList => "REG_RESOURCE_REQUIREMENTS_LIST",
            ValueKind::Qword => "REG_QWORD",
        }
    }
}

/// One value of a key: its name (empty for the key's default value), its kind,
/// and its data in display form.
#[derive(Debug)]
pub struct RegValue {
    pub name: String,
    pub kind: ValueKind,
    pub data: String,
}

/// What a value holds, as mathematical text.
pub struct ValueView {
    pub name: Seq<char>,
    pub kind: ValueKind,
    pub data: Seq<char>,
}

impl View for RegValue {
    type V = ValueView;

    open spec fn view(&self) -> ValueView {
        ValueView { name: self.name@, kind: self.kind, data: self.data@ }
    }
}

/// The views of a sequence of values.
pub open spec fn value_views(s: Seq<RegValue>) -> Seq<ValueView> {
    s.map_values(|v: RegValue| v@)
}

impl RegValue {
    pub fn new(name: String, kind: ValueKind, data: String) -> (r: RegValue)
        ensures
            r@ == (ValueView { name: name@, kind, data: data@ }),
    {
        RegValue { name, kind, data }
    }

    /// A copy of this value.
    pub fn duplicate(&self) -> (r: RegValue)
        ensures
            r@ == self@,
    {
        RegValue { name: self.name.clone(), kind: self.kind, data: self.data.clone() }
    }
}

} // verus!
