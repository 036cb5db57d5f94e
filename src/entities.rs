use vstd::prelude::*;

verus! {

/// Visibility of an item or a module as written in the source.
#[derive(Clone, Debug)]
pub enum RustVisibility {
    Public,
    Private,
    Crate,
    Super,
    /// Visible from the module at this path (from the crate root) and below it.
    InPath(Vec<String>),
}

impl RustVisibility {
    /// The keyword form of the visibility.
    pub fn as_str(&self) -> (r: &str)
        ensures
            r@ == self.spec_keyword(),
    {
        match self {
            RustVisibility::Public => "pub",
            RustVisibility::Private => "",
            RustVisibility::Crate => "pub(crate)",
            RustVisibility::Super => "pub(super)",
            RustVisibility::InPath(_) => "pub(in path)",
        }
    }

    pub open spec fn spec_keyword(&self) -> Seq<char> {
        match self {
            RustVisibility::Public => "pub"@,
            RustVisibility::Private => ""@,
            RustVisibility::Crate => "pub(crate)"@,
            RustVisibility::Super => "pub(super)"@,
            RustVisibility::InPath(_) => "pub(in path)"@,
        }
    }
}

/// Safety label of an item or a container.
///
/// Severity grows in the order `Safe < UnsafeContainer < Unsafe < Ffi`
/// (see `rank`).
#[derive(Clone, Copy, Debug, PartialEq, Eq, Structural)]
pub enum SafetyClassification {
    Safe,
    Unsafe,
    UnsafeContainer,
    Ffi,
}

/// Position of a classification in the severity order.
pub open spec fn rank(c: SafetyClassification) -> nat {
    match c {
        SafetyClassification::Safe => 0,
        SafetyClassification::UnsafeContainer => 1,
        SafetyClassification::Unsafe => 2,
        SafetyClassification::Ffi => 3,
    }
}

/// The more severe of two classifications.
pub open spec fn max_class(a: SafetyClassification, b: SafetyClassification) -> SafetyClassification {
    if rank(a) >= rank(b) {
        a
    } else {
        b
    }
}

impl SafetyClassification {
    pub fn as_str(&self) -> (r: &str)
        ensures
            r@ == self.spec_label(),
    {
        match self {
            SafetyClassification::Safe => "safe",
            SafetyClassification::Unsafe => "unsafe",
            SafetyClassification::UnsafeContainer => "unsafe_container",
            SafetyClassification::Ffi => "ffi",
        }
    }

    pub open spec fn spec_label(&self) -> Seq<char> {
        match self {
            SafetyClassification::Safe => "safe"@,
            SafetyClassification::Unsafe => "unsafe"@,
            SafetyClassification::UnsafeContainer => "unsafe_container"@,
            SafetyClassification::Ffi => "ffi"@,
        }
    }

    /// Severity of the classification, 0 for `Safe` up to 3 for `Ffi`.
    pub fn severity(&self) -> (r: u8)
        ensures
            r as nat == rank(*self),
    {
        match self {
            SafetyClassification::Safe => 0,
            SafetyClassification::UnsafeContainer => 1,
            SafetyClassification::Unsafe => 2,
            SafetyClassification::Ffi => 3,
        }
    }

    /// The more severe of `self` and `other`.
    pub fn max(self, other: SafetyClassification) -> (r: SafetyClassification)
        ensures
            r == max_class(self, other),
    {
        if self.severity() >= other.severity() {
            self
        } else {
            other
        }
    }
}

/// Why a region of code is unsafe.
#[derive(Clone, Debug)]
pub enum UnsafeReason {
    RawPointerDeref,
    MutableStatic,
    FfiCall,
    UnionFieldAccess,
    InlineAssembly,
    UnsafeTraitImpl,
    Custom(String),
}

impl UnsafeReason {
    pub fn as_str(&self) -> (r: &str)
        ensures
            r@ == self.spec_label(),
    {
        match self {
            UnsafeReason::RawPointerDeref => "raw_pointer_deref",
            UnsafeReason::MutableStatic => "mutable_static",
            UnsafeReason::FfiCall => "ffi_call",
            UnsafeReason::UnionFieldAccess => "union_field_access",
            UnsafeReason::InlineAssembly => "inline_assembly",
            UnsafeReason::UnsafeTraitImpl => "unsafe_trait_impl",
            UnsafeReason::Custom(_) => "custom",
        }
    }

    pub open spec fn spec_label(&self) -> Seq<char> {
        match self {
            UnsafeReason::RawPointerDeref => "raw_pointer_deref"@,
            UnsafeReason::MutableStatic => "mutable_static"@,
            UnsafeReason::FfiCall => "ffi_call"@,
            UnsafeReason::UnionFieldAccess => "union_field_access"@,
            UnsafeReason::InlineAssembly => "inline_assembly"@,
            UnsafeReason::UnsafeTraitImpl => "unsafe_trait_impl"@,
            UnsafeReason::Custom(_) => "custom"@,
        }
    }
}

/// The three forms of struct.
#[derive(Clone, Copy, Debug, PartialEq, Eq, Structural)]
pub enum RustStructKind {
    /// Named fields.
    Normal,
    /// Unnamed fields.
    Tuple,
    /// No fields.
    Unit,
}

} // verus!
