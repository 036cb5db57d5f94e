use vstd::prelude::*;
use crate::entities::{SafetyClassification, UnsafeReason};
use crate::types::RustType;

verus! {

/// An `unsafe` region of code and why it is unsafe.
#[derive(Clone, Debug)]
pub struct UnsafeBlock {
    pub start_line: usize,
    pub end_line: usize,
    pub reasons: Vec<UnsafeReason>,
    /// Why the author needed `unsafe` here.
    pub explanation: Option<String>,
    pub containing_function: Option<String>,
}

impl UnsafeBlock {
    pub fn new(start_line: usize, end_line: usize) -> (r: Self)
        ensures
            r.start_line == start_line,
            r.end_line == end_line,
            r.reasons@.len() == 0,
            r.explanation.is_none(),
            r.containing_function.is_none(),
    {
        UnsafeBlock {
            start_line,
            end_line,
            reasons: Vec::new(),
            explanation: None,
            containing_function: None,
        }
    }
}

/// The unsafety signals of one callable and the classification computed from them.
#[derive(Clone, Debug)]
pub struct SafetyAnalysis {
    /// Filled in by the classification pass.
    pub classification: SafetyClassification,
    pub unsafe_blocks: Vec<UnsafeBlock>,
    /// Direct calls of items that are themselves unsafe or foreign.
    pub unsafe_fn_calls: Vec<String>,
    /// A raw pointer is dereferenced.
    pub raw_pointer_usage: bool,
    /// A foreign binding is invoked.
    pub ffi_interactions: bool,
    pub unsafe_traits_used: Vec<String>,
    pub mutable_statics: Vec<String>,
    pub safety_comments: Option<String>,
}

impl SafetyAnalysis {
    pub fn new(classification: SafetyClassification) -> (r: Self)
        ensures
            r.classification == classification,
            r.unsafe_blocks@.len() == 0,
            r.unsafe_fn_calls@.len() == 0,
            !r.raw_pointer_usage,
            !r.ffi_interactions,
            r.unsafe_traits_used@.len() == 0,
            r.mutable_statics@.len() == 0,
            r.safety_comments.is_none(),
    {
        SafetyAnalysis {
            classification,
            unsafe_blocks: Vec::new(),
            unsafe_fn_calls: Vec::new(),
            raw_pointer_usage: false,
            ffi_interactions: false,
            unsafe_traits_used: Vec::new(),
            mutable_statics: Vec::new(),
            safety_comments: None,
        }
    }
}

/// A recorded call of a callable, waiting to be resolved.
#[derive(Clone, Debug)]
pub struct CallSite {
    pub line_number: u32,
    pub caller_function: Option<String>,
    pub caller_module: Option<String>,
    /// The called name, as path segments (`a::b::f` is `["a", "b", "f"]`).
    pub callee: Vec<String>,
    /// For a method called through a trait object: the trait's name.
    pub dispatch_trait: Option<String>,
    pub argument_types: Vec<RustType>,
    pub is_unsafe_context: bool,
}

impl CallSite {
    pub fn new(line_number: u32) -> (r: Self)
        ensures
            r.line_number == line_number,
            r.caller_function.is_none(),
            r.caller_module.is_none(),
            r.callee@.len() == 0,
            r.dispatch_trait.is_none(),
            r.argument_types@.len() == 0,
            !r.is_unsafe_context,
    {
        CallSite {
            line_number,
            caller_function: None,
            caller_module: None,
            callee: Vec::new(),
            dispatch_trait: None,
            argument_types: Vec::new(),
            is_unsafe_context: false,
        }
    }
}

} // verus!
