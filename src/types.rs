use vstd::prelude::*;
use crate::entities::RustVisibility;

verus! {

/// An attribute such as `#[inline]` or `#![allow(x)]`.
#[derive(Clone, Debug)]
pub struct RustAttribute {
    pub name: String,
    pub arguments: Vec<String>,
    pub is_inner: bool,
}

impl RustAttribute {
    pub fn new(name: String, arguments: Vec<String>, is_inner: bool) -> (r: Self)
        ensures
            r.name@ == name@,
            r.arguments@ == arguments@,
            r.is_inner == is_inner,
    {
        RustAttribute { name, arguments, is_inner }
    }
}

/// Read access to the parts of an attribute.
pub trait AttributeOperations {
    spec fn spec_name(&self) -> Seq<char>;

    spec fn spec_arguments(&self) -> Seq<String>;

    spec fn spec_is_inner(&self) -> bool;

    fn get_name(&self) -> (r: &str)
        ensures
            r@ == self.spec_name(),
    ;

    fn get_arguments(&self) -> (r: &[String])
        ensures
            r@ == self.spec_arguments(),
    ;

    fn is_inner_attribute(&self) -> (r: bool)
        ensures
            r == self.spec_is_inner(),
    ;
}

impl AttributeOperations for RustAttribute {
    open spec fn spec_name(&self) -> Seq<char> {
        self.name@
    }

    open spec fn spec_arguments(&self) -> Seq<String> {
        self.arguments@
    }

    open spec fn spec_is_inner(&self) -> bool {
        self.is_inner
    }

    fn get_name(&self) -> (r: &str) {
        self.name.as_str()
    }

    fn get_arguments(&self) -> (r: &[String]) {
        self.arguments.as_slice()
    }

    fn is_inner_attribute(&self) -> (r: bool) {
        self.is_inner
    }
}

/// A type as written in a signature.
#[derive(Clone, Debug)]
pub struct RustType {
    pub name: String,
    pub is_reference: bool,
    pub is_mutable: bool,
    pub lifetime: Option<String>,
    pub generic_params: Vec<String>,
    pub is_sized: bool,
    pub is_static: bool,
    pub contains_raw_pointers: bool,
    pub is_union: bool,
}

impl Default for RustType {
    fn default() -> (r: Self)
        ensures
            r.name@.len() == 0,
            !r.is_reference,
            !r.is_mutable,
            r.lifetime.is_none(),
            r.generic_params@.len() == 0,
            r.is_sized,
            !r.is_static,
            !r.contains_raw_pointers,
            !r.is_union,
    {
        RustType {
            name: String::new(),
            is_reference: false,
            is_mutable: false,
            lifetime: None,
            generic_params: Vec::new(),
            is_sized: true,
            is_static: false,
            contains_raw_pointers: false,
            is_union: false,
        }
    }
}

impl RustType {
    /// A sized, owned, non-generic type of the given name.
    pub fn new(name: String) -> (r: Self)
        ensures
            r.name@ == name@,
            !r.is_reference,
            !r.is_mutable,
            r.lifetime.is_none(),
            r.generic_params@.len() == 0,
            r.is_sized,
            !r.is_static,
            !r.contains_raw_pointers,
            !r.is_union,
    {
        RustType { name, ..Default::default() }
    }

    /// The type's name, as it is displayed.
    pub fn to_string(&self) -> (r: String)
        ensures
            r@ == self.name@,
    {
        self.name.clone()
    }
}

/// A lifetime parameter such as `'a: 'b`.
#[derive(Clone, Debug)]
pub struct RustLifetimeParam {
    pub name: String,
    pub bounds: Vec<String>,
}

impl RustLifetimeParam {
    pub fn new(name: String) -> (r: Self)
        ensures
            r.name@ == name@,
            r.bounds@.len() == 0,
    {
        RustLifetimeParam { name, bounds: Vec::new() }
    }

    pub fn with_bounds(name: String, bounds: Vec<String>) -> (r: Self)
        ensures
            r.name@ == name@,
            r.bounds@ == bounds@,
    {
        RustLifetimeParam { name, bounds }
    }
}

/// A generic type or const parameter.
#[derive(Clone, Debug)]
pub struct RustGenericParam {
    pub name: String,
    /// Trait bounds such as `Send` or `Display`.
    pub bounds: Vec<String>,
    pub default_type: Option<String>,
    pub is_const: bool,
}

impl RustGenericParam {
    pub fn new(name: String) -> (r: Self)
        ensures
            r.name@ == name@,
            r.bounds@.len() == 0,
            r.default_type.is_none(),
            !r.is_const,
    {
        RustGenericParam { name, bounds: Vec::new(), default_type: None, is_const: false }
    }
}

/// A parameter of a function or method.
#[derive(Clone, Debug)]
pub struct RustParameter {
    pub name: String,
    pub rust_type: RustType,
    /// `self`, `&self` or `&mut self`.
    pub is_self: bool,
    pub is_mut: bool,
    pub default_value: Option<String>,
}

impl RustParameter {
    pub fn new(name: String, rust_type: RustType) -> (r: Self)
        ensures
            r.name@ == name@,
            r.rust_type == rust_type,
            !r.is_self,
            !r.is_mut,
            r.default_value.is_none(),
    {
        RustParameter { name, rust_type, is_self: false, is_mut: false, default_value: None }
    }
}

/// A bound in a trait's supertrait list.
#[derive(Clone, Debug)]
pub struct RustTraitBound {
    pub trait_name: String,
    pub generic_params: Vec<String>,
    pub is_sized: bool,
    /// A `?Trait` bound.
    pub is_optional: bool,
    pub lifetime_bounds: Vec<String>,
}

impl Default for RustTraitBound {
    fn default() -> (r: Self)
        ensures
            r.trait_name@.len() == 0,
            r.generic_params@.len() == 0,
            r.is_sized,
            !r.is_optional,
            r.lifetime_bounds@.len() == 0,
    {
        RustTraitBound {
            trait_name: String::new(),
            generic_params: Vec::new(),
            is_sized: true,
            is_optional: false,
            lifetime_bounds: Vec::new(),
        }
    }
}

/// A `type X = Y;` item.
#[derive(Clone, Debug)]
pub struct RustTypeAlias {
    pub name: String,
    pub visibility: RustVisibility,
    pub doc_comment: Option<String>,
    pub attributes: Vec<RustAttribute>,
    pub generic_params: Vec<RustGenericParam>,
    pub lifetime_params: Vec<RustLifetimeParam>,
    pub where_clauses: Vec<String>,
    pub target_type: RustType,
    pub start_line: usize,
    pub end_line: usize,
}

/// A `let`, `static` or `const` declaration.
#[derive(Clone, Debug)]
pub struct RustVariableDeclaration {
    pub name: String,
    pub type_info: Option<RustType>,
    pub is_mut: bool,
    pub is_static: bool,
    pub is_const: bool,
    pub initializer: Option<String>,
    pub visibility: RustVisibility,
    pub doc_comment: Option<String>,
    pub attributes: Vec<RustAttribute>,
    pub line_number: usize,
}

impl RustVariableDeclaration {
    pub fn new(name: String, line_number: usize) -> (r: Self)
        ensures
            r.name@ == name@,
            r.line_number == line_number,
            r.type_info.is_none(),
            !r.is_mut,
            !r.is_static,
            !r.is_const,
            r.initializer.is_none(),
            r.visibility is Private,
            r.doc_comment.is_none(),
            r.attributes@.len() == 0,
    {
        RustVariableDeclaration {
            name,
            type_info: None,
            is_mut: false,
            is_static: false,
            is_const: false,
            initializer: None,
            visibility: RustVisibility::Private,
            doc_comment: None,
            attributes: Vec::new(),
            line_number,
        }
    }
}

} // verus!
