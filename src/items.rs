use vstd::prelude::*;
use crate::callable::RustCallable;
use crate::entities::{RustStructKind, RustVisibility, SafetyClassification};
use crate::types::{
    RustAttribute, RustGenericParam, RustLifetimeParam, RustTraitBound, RustType, RustTypeAlias,
};

verus! {

/// A field of a struct or of a struct-like enum variant.
#[derive(Clone, Debug)]
pub struct RustStructField {
    pub name: String,
    pub ty: RustType,
    pub visibility: RustVisibility,
    pub doc_comment: Option<String>,
    pub attributes: Vec<RustAttribute>,
}

impl RustStructField {
    pub fn new(name: String, ty: RustType) -> (r: Self)
        ensures
            r.name@ == name@,
            r.ty == ty,
            r.visibility is Private,
            r.doc_comment.is_none(),
            r.attributes@.len() == 0,
    {
        RustStructField {
            name,
            ty,
            visibility: RustVisibility::Private,
            doc_comment: None,
            attributes: Vec::new(),
        }
    }
}

/// A struct definition with its associated functions.
#[derive(Clone, Debug)]
pub struct RustStruct {
    pub name: String,
    pub kind: RustStructKind,
    pub visibility: RustVisibility,
    pub doc_comment: Option<String>,
    pub attributes: Vec<RustAttribute>,
    pub fields: Vec<RustStructField>,
    pub generic_params: Vec<RustGenericParam>,
    pub lifetime_params: Vec<RustLifetimeParam>,
    pub where_clauses: Vec<String>,
    pub derives: Vec<String>,
    /// Methods and associated functions, names unique.
    pub associated_items: Vec<RustCallable>,
    pub impl_traits: Vec<String>,
    pub is_public: bool,
    pub contains_unsafe: bool,
    pub start_line: usize,
    pub end_line: usize,
    /// Filled in by the classification pass.
    pub classification: SafetyClassification,
}

impl RustStruct {
    pub fn new(name: String, start_line: usize, end_line: usize) -> (r: Self)
        ensures
            r.name@ == name@,
            r.start_line == start_line,
            r.end_line == end_line,
            r.kind == RustStructKind::Normal,
            r.visibility is Private,
            r.doc_comment.is_none(),
            r.attributes@.len() == 0,
            r.fields@.len() == 0,
            r.generic_params@.len() == 0,
            r.lifetime_params@.len() == 0,
            r.where_clauses@.len() == 0,
            r.derives@.len() == 0,
            r.associated_items@.len() == 0,
            r.impl_traits@.len() == 0,
            !r.is_public,
            !r.contains_unsafe,
            r.classification == SafetyClassification::Safe,
    {
        RustStruct {
            name,
            kind: RustStructKind::Normal,
            visibility: RustVisibility::Private,
            doc_comment: None,
            attributes: Vec::new(),
            fields: Vec::new(),
            generic_params: Vec::new(),
            lifetime_params: Vec::new(),
            where_clauses: Vec::new(),
            derives: Vec::new(),
            associated_items: Vec::new(),
            impl_traits: Vec::new(),
            is_public: false,
            contains_unsafe: false,
            start_line,
            end_line,
            classification: SafetyClassification::Safe,
        }
    }
}

/// A variant of an enum.
#[derive(Clone, Debug)]
pub struct RustEnumVariant {
    pub name: String,
    /// Fields of a struct-like variant.
    pub fields: Option<Vec<RustStructField>>,
    /// Types of a tuple variant.
    pub tuple_types: Option<Vec<RustType>>,
    pub discriminant: Option<String>,
    pub doc_comment: Option<String>,
    pub attributes: Vec<RustAttribute>,
}

/// An enum definition with its associated functions.
#[derive(Clone, Debug)]
pub struct RustEnum {
    pub name: String,
    pub visibility: RustVisibility,
    pub doc_comment: Option<String>,
    pub attributes: Vec<RustAttribute>,
    pub variants: Vec<RustEnumVariant>,
    pub generic_params: Vec<RustGenericParam>,
    pub lifetime_params: Vec<RustLifetimeParam>,
    pub where_clauses: Vec<String>,
    pub derives: Vec<String>,
    /// Methods and associated functions, names unique.
    pub associated_items: Vec<RustCallable>,
    pub impl_traits: Vec<String>,
    pub is_public: bool,
    pub start_line: i32,
    pub end_line: i32,
    /// Filled in by the classification pass.
    pub classification: SafetyClassification,
}

/// A trait definition.
#[derive(Clone, Debug)]
pub struct RustTrait {
    pub name: String,
    pub visibility: RustVisibility,
    pub doc_comment: Option<String>,
    pub attributes: Vec<RustAttribute>,
    pub generic_params: Vec<RustGenericParam>,
    pub lifetime_params: Vec<RustLifetimeParam>,
    pub where_clauses: Vec<String>,
    pub super_traits: Vec<RustTraitBound>,
    /// Associated types, by name.
    pub associated_types: Vec<(String, RustType)>,
    /// Associated constants, by name.
    pub associated_consts: Vec<(String, String)>,
    /// Method declarations, names unique.
    pub methods: Vec<RustCallable>,
    /// Declared `unsafe trait`.
    pub is_unsafe: bool,
    pub is_auto: bool,
    pub start_line: usize,
    pub end_line: usize,
    /// Filled in by the classification pass.
    pub classification: SafetyClassification,
}

/// An `impl` block, inherent or of a trait.
#[derive(Clone, Debug)]
pub struct RustImpl {
    pub self_type: String,
    /// `None` for an inherent impl.
    pub trait_name: Option<String>,
    pub generic_params: Vec<RustGenericParam>,
    pub lifetime_params: Vec<RustLifetimeParam>,
    pub where_clauses: Vec<String>,
    /// Methods, names unique.
    pub methods: Vec<RustCallable>,
    pub associated_types: Vec<(String, RustType)>,
    pub associated_consts: Vec<(String, String)>,
    /// Declared `unsafe impl`.
    pub is_unsafe: bool,
    /// A negative impl such as `impl !Send for T`.
    pub is_negative: bool,
    pub start_line: usize,
    pub end_line: usize,
    /// Filled in by the classification pass.
    pub classification: SafetyClassification,
}

/// A macro definition.
#[derive(Clone, Debug)]
pub struct RustMacro {
    pub name: String,
    pub visibility: RustVisibility,
    pub doc_comment: Option<String>,
    pub attributes: Vec<RustAttribute>,
    /// The rules or tokens that define the macro.
    pub rules: Vec<String>,
    pub is_procedural: bool,
    pub is_derive: bool,
    pub is_attribute: bool,
    pub is_function_like: bool,
    /// Exported through `#[macro_use]`.
    pub exported_from_macro_use: bool,
    pub start_line: usize,
    pub end_line: usize,
}

impl RustMacro {
    /// A private, function-like `macro_rules!` macro with no rules yet.
    pub fn new(name: String, start_line: usize, end_line: usize) -> (r: Self)
        ensures
            r.name@ == name@,
            r.start_line == start_line,
            r.end_line == end_line,
            r.visibility is Private,
            r.doc_comment.is_none(),
            r.attributes@.len() == 0,
            r.rules@.len() == 0,
            !r.is_procedural,
            !r.is_derive,
            !r.is_attribute,
            r.is_function_like,
            !r.exported_from_macro_use,
    {
        RustMacro {
            name,
            visibility: RustVisibility::Private,
            doc_comment: None,
            attributes: Vec::new(),
            rules: Vec::new(),
            is_procedural: false,
            is_derive: false,
            is_attribute: false,
            is_function_like: true,
            exported_from_macro_use: false,
            start_line,
            end_line,
        }
    }
}

/// Any item that stands at module scope.
#[derive(Clone, Debug)]
pub enum RustItem {
    Struct(RustStruct),
    Enum(RustEnum),
    Trait(RustTrait),
    Impl(RustImpl),
    Macro(RustMacro),
    Function(RustCallable),
    TypeAlias(RustTypeAlias),
}

} // verus!
