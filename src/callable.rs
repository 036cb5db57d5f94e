use vstd::prelude::*;
use crate::entities::{RustVisibility, SafetyClassification, UnsafeReason};
use crate::safety::{CallSite, SafetyAnalysis, UnsafeBlock};
use crate::types::{
    RustAttribute, RustGenericParam, RustLifetimeParam, RustParameter, RustType,
    RustVariableDeclaration,
};

verus! {

/// A function or a method.
#[derive(Clone, Debug)]
pub struct RustCallable {
    pub name: String,
    pub visibility: RustVisibility,
    pub doc_comment: Option<String>,
    pub attributes: Vec<RustAttribute>,
    pub parameters: Vec<RustParameter>,
    pub return_type: Option<RustType>,
    pub is_async: bool,
    pub is_const: bool,
    /// Declared `unsafe fn`.
    pub is_unsafe: bool,
    /// Declared in an `extern` block, a foreign binding.
    pub is_extern: bool,
    pub extern_abi: Option<String>,
    pub generic_params: Vec<RustGenericParam>,
    pub lifetime_params: Vec<RustLifetimeParam>,
    pub where_clauses: Vec<String>,
    pub code: String,
    pub start_line: usize,
    pub end_line: usize,
    pub referenced_types: Vec<String>,
    pub accessed_variables: Vec<String>,
    pub call_sites: Vec<CallSite>,
    pub variable_declarations: Vec<RustVariableDeclaration>,
    pub cyclomatic_complexity: Option<usize>,
    pub safety_analysis: SafetyAnalysis,
}

impl RustCallable {
    /// A private, synchronous, safe-to-declare callable with no signature parts.
    pub fn new(
        name: String,
        code: String,
        start_line: usize,
        end_line: usize,
        safety_analysis: SafetyAnalysis,
    ) -> (r: Self)
        ensures
            r.name@ == name@,
            r.code@ == code@,
            r.start_line == start_line,
            r.end_line == end_line,
            r.safety_analysis == safety_analysis,
            r.visibility is Private,
            r.doc_comment.is_none(),
            r.attributes@.len() == 0,
            r.parameters@.len() == 0,
            r.return_type.is_none(),
            !r.is_async,
            !r.is_const,
            !r.is_unsafe,
            !r.is_extern,
            r.extern_abi.is_none(),
            r.generic_params@.len() == 0,
            r.lifetime_params@.len() == 0,
            r.where_clauses@.len() == 0,
            r.referenced_types@.len() == 0,
            r.accessed_variables@.len() == 0,
            r.call_sites@.len() == 0,
            r.variable_declarations@.len() == 0,
            r.cyclomatic_complexity.is_none(),
    {
        RustCallable {
            name,
            visibility: RustVisibility::Private,
            doc_comment: None,
            attributes: Vec::new(),
            parameters: Vec::new(),
            return_type: None,
            is_async: false,
            is_const: false,
            is_unsafe: false,
            is_extern: false,
            extern_abi: None,
            generic_params: Vec::new(),
            lifetime_params: Vec::new(),
            where_clauses: Vec::new(),
            code,
            start_line,
            end_line,
            referenced_types: Vec::new(),
            accessed_variables: Vec::new(),
            call_sites: Vec::new(),
            variable_declarations: Vec::new(),
            cyclomatic_complexity: None,
            safety_analysis,
        }
    }
}

/// Some unsafe region of `blocks` gives a foreign call as a reason.
pub open spec fn has_ffi_reason(blocks: Seq<UnsafeBlock>) -> bool {
    exists|i: int, j: int|
        0 <= i < blocks.len() && 0 <= j < blocks[i].reasons@.len()
            && #[trigger] blocks[i].reasons@[j] is FfiCall
}

/// The callable is, or directly invokes, a foreign binding.
pub open spec fn is_ffi(c: RustCallable) -> bool {
    c.is_extern || c.safety_analysis.ffi_interactions || has_ffi_reason(
        c.safety_analysis.unsafe_blocks@,
    )
}

/// The callable is declared unsafe or holds an unsafe construct of its own.
pub open spec fn is_directly_unsafe(c: RustCallable) -> bool {
    let s = c.safety_analysis;
    c.is_unsafe || s.raw_pointer_usage || s.unsafe_blocks@.len() > 0 || s.mutable_statics@.len()
        > 0 || s.unsafe_traits_used@.len() > 0
}

/// The classification of one callable, from its own signals alone.
pub open spec fn callable_class(c: RustCallable) -> SafetyClassification {
    if is_ffi(c) {
        SafetyClassification::Ffi
    } else if is_directly_unsafe(c) {
        SafetyClassification::Unsafe
    } else if c.safety_analysis.unsafe_fn_calls@.len() > 0 {
        SafetyClassification::UnsafeContainer
    } else {
        SafetyClassification::Safe
    }
}

fn blocks_have_ffi_reason(blocks: &Vec<UnsafeBlock>) -> (r: bool)
    ensures
        r == has_ffi_reason(blocks@),
{
    let mut i: usize = 0;
    while i < blocks.len()
        invariant
            0 <= i <= blocks@.len(),
            forall|a: int, b: int|
                0 <= a < i && 0 <= b < blocks@[a].reasons@.len() ==> !(
                #[trigger] blocks@[a].reasons@[b] is FfiCall),
        decreases blocks.len() - i,
    {
        let reasons = &blocks[i].reasons;
        let mut j: usize = 0;
        while j < reasons.len()
            invariant
                0 <= i < blocks@.len(),
                reasons@ == blocks@[i as int].reasons@,
                0 <= j <= reasons@.len(),
                forall|b: int| 0 <= b < j ==> !(#[trigger] reasons@[b] is FfiCall),
            decreases reasons.len() - j,
        {
            if let UnsafeReason::FfiCall = reasons[j] {
                return true;
            }
            j += 1;
        }
        i += 1;
    }
    false
}

/// Computes the classification of `c` from its unsafety signals:
/// `Ffi` for a foreign binding or a direct foreign call, else `Unsafe` for an
/// `unsafe fn` or an unsafe construct, else `UnsafeContainer` where it calls an
/// unsafe item, else `Safe`.
pub fn classify_callable(c: &RustCallable) -> (r: SafetyClassification)
    ensures
        r == callable_class(*c),
{
    let s = &c.safety_analysis;
    if c.is_extern || s.ffi_interactions || blocks_have_ffi_reason(&s.unsafe_blocks) {
        SafetyClassification::Ffi
    } else if c.is_unsafe || s.raw_pointer_usage || s.unsafe_blocks.len() > 0
        || s.mutable_statics.len() > 0 || s.unsafe_traits_used.len() > 0 {
        SafetyClassification::Unsafe
    } else if s.unsafe_fn_calls.len() > 0 {
        SafetyClassification::UnsafeContainer
    } else {
        SafetyClassification::Safe
    }
}

} // verus!
