use codeanalyzer::analysis::{analyze, AnalysisError, CodeAnalyzer};
use codeanalyzer::callable::{classify_callable, RustCallable};
use codeanalyzer::callgraph::{EdgeTarget, UnresolvedReason};
use codeanalyzer::classify::container_rule;
use codeanalyzer::entities::{RustStructKind, RustVisibility, SafetyClassification, UnsafeReason};
use codeanalyzer::items::{RustImpl, RustItem, RustMacro, RustStruct, RustStructField};
use codeanalyzer::link::{CrateRegistry, LinkError, RustCrate, RustDependency};
use codeanalyzer::module::{ModuleTree, RustModule, TreeError, UseAlias};
use codeanalyzer::resolve::{ItemCategory, ResolveError, Target};
use codeanalyzer::safety::{CallSite, SafetyAnalysis, UnsafeBlock};
use codeanalyzer::types::{
    AttributeOperations, RustAttribute, RustGenericParam, RustLifetimeParam, RustParameter,
    RustTraitBound, RustType, RustVariableDeclaration,
};

fn path(segs: &[&str]) -> Vec<String> {
    segs.iter().map(|s| s.to_string()).collect()
}

fn func(name: &str) -> RustCallable {
    RustCallable::new(
        name.to_string(),
        String::new(),
        1,
        2,
        SafetyAnalysis::new(SafetyClassification::Safe),
    )
}

fn pub_module(name: &str) -> RustModule {
    let mut m = RustModule::new(name.to_string());
    m.visibility = RustVisibility::Public;
    m
}

fn call(callee: &[&str]) -> CallSite {
    let mut site = CallSite::new(10);
    site.callee = path(callee);
    site
}

fn impl_of(trait_name: &str, self_type: &str, methods: Vec<RustCallable>) -> RustImpl {
    RustImpl {
        self_type: self_type.to_string(),
        trait_name: Some(trait_name.to_string()),
        generic_params: Vec::new(),
        lifetime_params: Vec::new(),
        where_clauses: Vec::new(),
        methods,
        associated_types: Vec::new(),
        associated_consts: Vec::new(),
        is_unsafe: false,
        is_negative: false,
        start_line: 1,
        end_line: 5,
        classification: SafetyClassification::Safe,
    }
}

/// root { a { foo }, b { bar (private) } }, foo calls `b::bar`.
fn sibling_tree() -> ModuleTree {
    let mut t = ModuleTree::new("root".to_string());
    t.insert_module(&path(&[]), pub_module("a")).unwrap();
    t.insert_module(&path(&[]), pub_module("b")).unwrap();
    let mut foo = func("foo");
    foo.call_sites.push(call(&["b", "bar"]));
    t.insert_item(&path(&["a"]), RustItem::Function(foo)).unwrap();
    t.insert_item(&path(&["b"]), RustItem::Function(func("bar"))).unwrap();
    t
}

#[test]
fn visibility_keywords() {
    assert_eq!(RustVisibility::Public.as_str(), "pub");
    assert_eq!(RustVisibility::Private.as_str(), "");
    assert_eq!(RustVisibility::Crate.as_str(), "pub(crate)");
    assert_eq!(RustVisibility::Super.as_str(), "pub(super)");
    assert_eq!(RustVisibility::InPath(path(&["a"])).as_str(), "pub(in path)");
}

#[test]
fn classification_labels_and_order() {
    assert_eq!(SafetyClassification::Safe.as_str(), "safe");
    assert_eq!(SafetyClassification::Unsafe.as_str(), "unsafe");
    assert_eq!(SafetyClassification::UnsafeContainer.as_str(), "unsafe_container");
    assert_eq!(SafetyClassification::Ffi.as_str(), "ffi");
    assert_eq!(SafetyClassification::Safe.severity(), 0);
    assert_eq!(SafetyClassification::UnsafeContainer.severity(), 1);
    assert_eq!(SafetyClassification::Unsafe.severity(), 2);
    assert_eq!(SafetyClassification::Ffi.severity(), 3);
    assert_eq!(
        SafetyClassification::Unsafe.max(SafetyClassification::Ffi),
        SafetyClassification::Ffi
    );
    assert_eq!(
        SafetyClassification::UnsafeContainer.max(SafetyClassification::Safe),
        SafetyClassification::UnsafeContainer
    );
}

#[test]
fn unsafe_reason_labels() {
    assert_eq!(UnsafeReason::RawPointerDeref.as_str(), "raw_pointer_deref");
    assert_eq!(UnsafeReason::MutableStatic.as_str(), "mutable_static");
    assert_eq!(UnsafeReason::FfiCall.as_str(), "ffi_call");
    assert_eq!(UnsafeReason::UnionFieldAccess.as_str(), "union_field_access");
    assert_eq!(UnsafeReason::InlineAssembly.as_str(), "inline_assembly");
    assert_eq!(UnsafeReason::UnsafeTraitImpl.as_str(), "unsafe_trait_impl");
    assert_eq!(UnsafeReason::Custom("x".to_string()).as_str(), "custom");
}

#[test]
fn constructors_set_defaults() {
    let a = RustAttribute::new("allow".to_string(), path(&["dead_code"]), true);
    assert_eq!(a.get_name(), "allow");
    assert_eq!(a.get_arguments(), &["dead_code".to_string()][..]);
    assert!(a.is_inner_attribute());
    let t = RustType::new("u32".to_string());
    assert_eq!(t.name, "u32");
    assert!(t.is_sized && !t.is_reference && t.generic_params.is_empty());
    assert_eq!(t.to_string(), "u32");
    let d = RustType::default();
    assert!(d.name.is_empty() && d.is_sized);
    let b = RustTraitBound::default();
    assert!(b.trait_name.is_empty() && b.is_sized && !b.is_optional);
    let l = RustLifetimeParam::new("'a".to_string());
    assert!(l.bounds.is_empty());
    let l2 = RustLifetimeParam::with_bounds("'a".to_string(), path(&["'b"]));
    assert_eq!(l2.bounds, path(&["'b"]));
    let g = RustGenericParam::new("T".to_string());
    assert!(g.bounds.is_empty() && g.default_type.is_none() && !g.is_const);
    let p = RustParameter::new("x".to_string(), RustType::new("i64".to_string()));
    assert!(!p.is_self && !p.is_mut && p.default_value.is_none());
    let v = RustVariableDeclaration::new("v".to_string(), 7);
    assert_eq!(v.line_number, 7);
    assert!(matches!(v.visibility, RustVisibility::Private));
    let f = RustStructField::new("f".to_string(), RustType::new("u8".to_string()));
    assert!(matches!(f.visibility, RustVisibility::Private));
    let s = RustStruct::new("S".to_string(), 3, 9);
    assert_eq!(s.kind, RustStructKind::Normal);
    assert_eq!((s.start_line, s.end_line), (3, 9));
    assert_eq!(s.classification, SafetyClassification::Safe);
    let m = RustMacro::new("m".to_string(), 1, 4);
    assert!(m.is_function_like && !m.is_procedural);
    let u = UnsafeBlock::new(5, 6);
    assert!(u.reasons.is_empty() && u.explanation.is_none());
    let c = CallSite::new(12);
    assert_eq!(c.line_number, 12);
    assert!(c.callee.is_empty() && !c.is_unsafe_context);
    let md = RustModule::new("m".to_string());
    assert!(md.parent.is_none() && !md.is_root_module && md.functions.is_empty());
    let cr = RustCrate::new("c".to_string(), "0.1.0".to_string(), ModuleTree::new("c".to_string()));
    assert_eq!(cr.edition, "2021");
    assert!(!cr.is_lib && cr.dependencies.is_empty());
    let dep = RustDependency::new("serde".to_string(), None);
    assert!(dep.is_external);
    let dep2 = RustDependency::new("core".to_string(), Some(0));
    assert!(!dep2.is_external);
}

#[test]
fn callable_classification_rules() {
    let safe = func("f");
    assert_eq!(classify_callable(&safe), SafetyClassification::Safe);
    let mut raw = func("g");
    raw.safety_analysis.raw_pointer_usage = true;
    assert_eq!(classify_callable(&raw), SafetyClassification::Unsafe);
    let mut ext = func("h");
    ext.is_extern = true;
    assert_eq!(classify_callable(&ext), SafetyClassification::Ffi);
    let mut blk = func("i");
    let mut b = UnsafeBlock::new(1, 2);
    b.reasons.push(UnsafeReason::FfiCall);
    blk.safety_analysis.unsafe_blocks.push(b);
    assert_eq!(classify_callable(&blk), SafetyClassification::Ffi);
    let mut caller = func("j");
    caller.safety_analysis.unsafe_fn_calls.push("g".to_string());
    assert_eq!(classify_callable(&caller), SafetyClassification::UnsafeContainer);
    let mut decl = func("k");
    decl.is_unsafe = true;
    assert_eq!(classify_callable(&decl), SafetyClassification::Unsafe);
}

#[test]
fn container_rule_values() {
    assert_eq!(container_rule(false, SafetyClassification::Safe), SafetyClassification::Safe);
    assert_eq!(container_rule(false, SafetyClassification::Ffi), SafetyClassification::UnsafeContainer);
    assert_eq!(container_rule(false, SafetyClassification::Unsafe), SafetyClassification::UnsafeContainer);
    assert_eq!(container_rule(true, SafetyClassification::Safe), SafetyClassification::Unsafe);
}

#[test]
fn duplicate_item_is_refused_and_tree_unchanged() {
    let mut t = ModuleTree::new("root".to_string());
    t.insert_item(&path(&[]), RustItem::Function(func("f"))).unwrap();
    let r = t.insert_item(&path(&[]), RustItem::Function(func("f")));
    assert_eq!(r, Err(TreeError::DuplicateName));
    assert_eq!(t.modules[0].functions.len(), 1);
    // same name in another category is fine
    t.insert_item(&path(&[]), RustItem::Struct(RustStruct::new("f".to_string(), 1, 2))).unwrap();
    assert_eq!(t.modules[0].structs.len(), 1);
    // and the same name in a submodule
    t.insert_module(&path(&[]), pub_module("m")).unwrap();
    t.insert_item(&path(&["m"]), RustItem::Function(func("f"))).unwrap();
    let dup = t.insert_module(&path(&[]), pub_module("m"));
    assert_eq!(dup, Err(TreeError::DuplicateName));
    assert_eq!(t.modules.len(), 2);
}

#[test]
fn missing_path_is_refused() {
    let mut t = ModuleTree::new("root".to_string());
    let r = t.insert_item(&path(&["nope"]), RustItem::Function(func("f")));
    assert_eq!(r, Err(TreeError::PathNotFound));
    let r2 = t.insert_module(&path(&["x", "y"]), pub_module("z"));
    assert_eq!(r2, Err(TreeError::PathNotFound));
    assert_eq!(t.modules.len(), 1);
}

#[test]
fn insert_then_resolve_module_round_trip() {
    let mut t = ModuleTree::new("root".to_string());
    let a = t.insert_module(&path(&[]), pub_module("a")).unwrap();
    let b = t.insert_module(&path(&["a"]), pub_module("b")).unwrap();
    let c = t.insert_module(&path(&["a", "b"]), pub_module("c")).unwrap();
    assert_eq!((a, b, c), (1, 2, 3));
    let r = t.resolve(&path(&["a", "b", "c"]), 0);
    assert_eq!(r, Ok(Target { category: ItemCategory::Module, module: b, index: c }));
    assert_eq!(t.modules[c].name, "c");
}

#[test]
fn lexical_lookup_searches_ancestors() {
    let mut t = ModuleTree::new("root".to_string());
    t.insert_module(&path(&[]), pub_module("a")).unwrap();
    t.insert_item(&path(&[]), RustItem::Function(func("helper"))).unwrap();
    // private `helper` in the root is visible from its descendant `a`
    let r = t.resolve(&path(&["helper"]), 1);
    assert_eq!(r, Ok(Target { category: ItemCategory::Function, module: 0, index: 0 }));
    assert_eq!(t.resolve(&path(&["missing"]), 1), Err(ResolveError::NameNotFound));
    assert_eq!(t.resolve(&path(&[]), 1), Err(ResolveError::NameNotFound));
}

#[test]
fn private_item_unreachable_from_outside() {
    let t = sibling_tree();
    assert_eq!(t.resolve(&path(&["b", "bar"]), 1), Err(ResolveError::VisibilityViolation));
    assert_eq!(t.resolve(&path(&["b", "bar"]), 0), Err(ResolveError::VisibilityViolation));
    assert_eq!(
        t.resolve(&path(&["bar"]), 2),
        Ok(Target { category: ItemCategory::Function, module: 2, index: 0 })
    );
}

#[test]
fn super_and_in_path_visibility() {
    let mut t = ModuleTree::new("root".to_string());
    t.insert_module(&path(&[]), pub_module("a")).unwrap();
    t.insert_module(&path(&["a"]), pub_module("b")).unwrap();
    t.insert_module(&path(&[]), pub_module("z")).unwrap();
    let mut s = func("s");
    s.visibility = RustVisibility::Super;
    t.insert_item(&path(&["a", "b"]), RustItem::Function(s)).unwrap();
    let mut p = func("p");
    p.visibility = RustVisibility::InPath(path(&["a"]));
    t.insert_item(&path(&["a", "b"]), RustItem::Function(p)).unwrap();
    assert!(t.resolve(&path(&["b", "s"]), 1).is_ok());
    assert_eq!(t.resolve(&path(&["a", "b", "s"]), 3), Err(ResolveError::VisibilityViolation));
    assert!(t.resolve(&path(&["b", "p"]), 1).is_ok());
    assert_eq!(t.resolve(&path(&["a", "b", "p"]), 3), Err(ResolveError::VisibilityViolation));
}

#[test]
fn module_with_raw_pointer_function_is_unsafe() {
    let mut t = ModuleTree::new("root".to_string());
    t.insert_module(&path(&[]), pub_module("m")).unwrap();
    t.insert_item(&path(&["m"]), RustItem::Function(func("safe_fn"))).unwrap();
    let mut deref = func("deref");
    let mut b = UnsafeBlock::new(3, 4);
    b.reasons.push(UnsafeReason::RawPointerDeref);
    deref.safety_analysis.unsafe_blocks.push(b);
    t.insert_item(&path(&["m"]), RustItem::Function(deref)).unwrap();
    t.classify();
    assert_eq!(t.modules[1].classification, SafetyClassification::Unsafe);
    assert_eq!(t.modules[1].functions[0].safety_analysis.classification, SafetyClassification::Safe);
    assert_eq!(t.modules[1].functions[1].safety_analysis.classification, SafetyClassification::Unsafe);
    // the root aggregates its submodule
    assert_eq!(t.modules[0].classification, SafetyClassification::Unsafe);
}

#[test]
fn struct_with_extern_calling_method_is_unsafe_container() {
    let mut t = ModuleTree::new("root".to_string());
    let mut s = RustStruct::new("Wrapper".to_string(), 1, 20);
    s.associated_items.push(func("plain"));
    let mut m = func("calls_c");
    m.safety_analysis.ffi_interactions = true;
    s.associated_items.push(m);
    t.insert_item(&path(&[]), RustItem::Struct(s)).unwrap();
    t.classify();
    let st = &t.modules[0].structs[0];
    assert_eq!(st.classification, SafetyClassification::UnsafeContainer);
    assert_eq!(st.associated_items[1].safety_analysis.classification, SafetyClassification::Ffi);
    assert_eq!(st.associated_items[0].safety_analysis.classification, SafetyClassification::Safe);
    assert_eq!(t.modules[0].classification, SafetyClassification::UnsafeContainer);
}

#[test]
fn classification_twice_is_identical() {
    let mut t = sibling_tree();
    let mut raw = func("raw");
    raw.safety_analysis.raw_pointer_usage = true;
    t.insert_item(&path(&["b"]), RustItem::Function(raw)).unwrap();
    t.classify();
    let first: Vec<SafetyClassification> = t.modules.iter().map(|m| m.classification).collect();
    let fns: Vec<SafetyClassification> = t.modules[2].functions.iter().map(|f| f.safety_analysis.classification).collect();
    t.classify();
    let second: Vec<SafetyClassification> = t.modules.iter().map(|m| m.classification).collect();
    let fns2: Vec<SafetyClassification> = t.modules[2].functions.iter().map(|f| f.safety_analysis.classification).collect();
    assert_eq!(first, second);
    assert_eq!(fns, fns2);
    assert_eq!(second, vec![SafetyClassification::Unsafe, SafetyClassification::Safe, SafetyClassification::Unsafe]);
}

#[test]
fn adding_unsafe_member_never_lowers_container() {
    let mut t = ModuleTree::new("root".to_string());
    let mut s = RustStruct::new("S".to_string(), 1, 2);
    let mut c = func("c");
    c.safety_analysis.unsafe_fn_calls.push("x".to_string());
    s.associated_items.push(c);
    t.insert_item(&path(&[]), RustItem::Struct(s)).unwrap();
    t.classify();
    let before = t.modules[0].structs[0].classification.severity();
    let mut u = func("u");
    u.is_unsafe = true;
    t.modules[0].structs[0].associated_items.push(u);
    t.classify();
    let after = t.modules[0].structs[0].classification.severity();
    assert_eq!(before, 1);
    assert!(after >= before);
    let mut imp = impl_of("Send", "S", Vec::new());
    imp.is_unsafe = true;
    t.insert_item(&path(&[]), RustItem::Impl(imp)).unwrap();
    t.classify();
    assert_eq!(t.modules[0].impls[0].classification, SafetyClassification::Unsafe);
    assert_eq!(t.modules[0].classification, SafetyClassification::Unsafe);
}

#[test]
fn private_call_in_sibling_is_unresolved_edge() {
    let t = sibling_tree();
    let g = t.call_edges();
    assert_eq!(g.slots.len(), 3);
    assert_eq!(g.slots[1][0][0], vec![EdgeTarget::Unresolved(UnresolvedReason::VisibilityViolation)]);
}

#[test]
fn call_resolution_outcomes() {
    let mut t = ModuleTree::new("root".to_string());
    let mut target = func("target");
    target.visibility = RustVisibility::Public;
    target.parameters.push(RustParameter::new("x".to_string(), RustType::new("u32".to_string())));
    t.insert_item(&path(&[]), RustItem::Function(target)).unwrap();
    t.insert_item(&path(&[]), RustItem::Struct(RustStruct::new("Point".to_string(), 1, 2))).unwrap();
    let mut caller = func("caller");
    let mut ok = call(&["target"]);
    ok.argument_types.push(RustType::new("u32".to_string()));
    caller.call_sites.push(ok);
    let mut unknown_ty = call(&["target"]);
    unknown_ty.argument_types.push(RustType::new(String::new()));
    caller.call_sites.push(unknown_ty);
    caller.call_sites.push(call(&["target"]));
    let mut wrong = call(&["target"]);
    wrong.argument_types.push(RustType::new("String".to_string()));
    caller.call_sites.push(wrong);
    caller.call_sites.push(call(&["Point"]));
    caller.call_sites.push(call(&["nowhere"]));
    t.insert_item(&path(&[]), RustItem::Function(caller)).unwrap();
    let g = t.call_edges();
    let edges = &g.slots[0][1];
    let target_ref = Target { category: ItemCategory::Function, module: 0, index: 0 };
    assert_eq!(edges[0], vec![EdgeTarget::Resolved(target_ref)]);
    assert_eq!(edges[1], vec![EdgeTarget::Resolved(target_ref)]);
    assert_eq!(edges[2], vec![EdgeTarget::Unresolved(UnresolvedReason::Incompatible)]);
    assert_eq!(edges[3], vec![EdgeTarget::Unresolved(UnresolvedReason::Incompatible)]);
    assert_eq!(edges[4], vec![EdgeTarget::Unresolved(UnresolvedReason::NotCallable)]);
    assert_eq!(edges[5], vec![EdgeTarget::Unresolved(UnresolvedReason::NameNotFound)]);
}

#[test]
fn trait_object_call_fans_out() {
    let mut t = ModuleTree::new("root".to_string());
    t.insert_module(&path(&[]), pub_module("shapes")).unwrap();
    t.insert_item(&path(&[]), RustItem::Impl(impl_of("Draw", "Circle", vec![func("draw")]))).unwrap();
    t.insert_item(&path(&[]), RustItem::Impl(impl_of("Other", "Circle", vec![func("draw")]))).unwrap();
    t.insert_item(&path(&["shapes"]), RustItem::Impl(impl_of("Draw", "Square", vec![func("area"), func("draw")]))).unwrap();
    let mut caller = func("render");
    let mut dyn_call = call(&["draw"]);
    dyn_call.dispatch_trait = Some("Draw".to_string());
    caller.call_sites.push(dyn_call);
    let mut none_call = call(&["paint"]);
    none_call.dispatch_trait = Some("Draw".to_string());
    caller.call_sites.push(none_call);
    t.insert_item(&path(&[]), RustItem::Function(caller)).unwrap();
    let g = t.call_edges();
    assert_eq!(
        g.slots[0][0][0],
        vec![
            EdgeTarget::Dispatch { module: 0, impl_index: 0, method: 0 },
            EdgeTarget::Dispatch { module: 1, impl_index: 0, method: 1 },
        ]
    );
    assert_eq!(g.slots[0][0][1], vec![EdgeTarget::Unresolved(UnresolvedReason::NoImplementor)]);
}

fn crate_with_deps(name: &str, deps: &[&str]) -> RustCrate {
    let mut c = RustCrate::new(name.to_string(), "1.0.0".to_string(), ModuleTree::new(name.to_string()));
    for d in deps {
        c.dependencies.push(RustDependency::new(d.to_string(), None));
    }
    c
}

#[test]
fn dependency_cycle_reports_chain() {
    let mut reg = CrateRegistry {
        crates: vec![
            crate_with_deps("A", &["B"]),
            crate_with_deps("B", &["C"]),
            crate_with_deps("C", &["A"]),
        ],
    };
    match reg.link() {
        Err(LinkError::CyclicDependency(chain)) => assert_eq!(chain, path(&["A", "B", "C", "A"])),
        Ok(()) => panic!("cycle not detected"),
    }
}

#[test]
fn linking_without_cycle_resolves_references() {
    let mut reg = CrateRegistry {
        crates: vec![crate_with_deps("app", &["lib", "serde"]), crate_with_deps("lib", &[])],
    };
    assert!(reg.link().is_ok());
    let deps = &reg.crates[0].dependencies;
    assert_eq!(deps[0].crate_ref, Some(1));
    assert!(!deps[0].is_external);
    assert_eq!(deps[1].crate_ref, None);
    assert!(deps[1].is_external);
}

#[test]
fn analysis_levels_and_call_edges() {
    let make = || CrateRegistry { crates: vec![{
        let mut c = RustCrate::new("demo".to_string(), "0.1.0".to_string(), sibling_tree());
        c.is_lib = true;
        c
    }] };
    let level1 = analyze(make(), 1).ok().unwrap();
    assert!(level1.call_graphs.is_empty());
    let level2 = analyze(make(), 2).ok().unwrap();
    assert_eq!(level2.call_graphs.len(), 1);
    let slots = &level2.call_graphs[0].slots;
    assert_eq!(slots[1][0][0], vec![EdgeTarget::Unresolved(UnresolvedReason::VisibilityViolation)]);
    assert!(slots[0].is_empty() && slots[2][0].is_empty());
    assert!(matches!(analyze(make(), 3), Err(AnalysisError::UnsupportedLevel)));
}

#[test]
fn analysis_fails_on_cycle() {
    let reg = CrateRegistry { crates: vec![crate_with_deps("x", &["y"]), crate_with_deps("y", &["x"])] };
    match analyze(reg, 1) {
        Err(AnalysisError::CyclicDependency(chain)) => assert_eq!(chain, path(&["x", "y", "x"])),
        _ => panic!("cycle not detected"),
    }
}

#[test]
fn analyzer_run_uses_its_level() {
    let opts = CodeAnalyzer {
        input: None,
        target_files: Vec::new(),
        source_analysis: None,
        output: None,
        build: None,
        no_build: true,
        no_clean_dependencies: false,
        project_root_pom: None,
        analysis_level: 2,
        verbose: false,
    };
    let reg = CrateRegistry { crates: vec![crate_with_deps("solo", &[])] };
    let rep = opts.run(reg).ok().unwrap();
    assert_eq!(rep.call_graphs.len(), 1);
    assert_eq!(rep.registry.crates[0].tree.modules[0].classification, SafetyClassification::Safe);
}

#[test]
fn impl_method_call_sites_are_resolved() {
    let mut t = ModuleTree::new("root".to_string());
    t.insert_item(&path(&[]), RustItem::Function(func("helper"))).unwrap();
    let mut m = func("method");
    m.call_sites.push(call(&["helper"]));
    m.call_sites.push(call(&["absent"]));
    t.insert_item(&path(&[]), RustItem::Impl(impl_of("Show", "T", vec![m]))).unwrap();
    let g = t.call_edges();
    let target = Target { category: ItemCategory::Function, module: 0, index: 0 };
    assert_eq!(g.method_slots[0][0][0][0], vec![EdgeTarget::Resolved(target)]);
    assert_eq!(g.method_slots[0][0][0][1], vec![EdgeTarget::Unresolved(UnresolvedReason::NameNotFound)]);
}

#[test]
fn use_alias_brings_name_into_scope() {
    let mut t = ModuleTree::new("root".to_string());
    t.insert_module(&path(&[]), pub_module("util")).unwrap();
    t.insert_module(&path(&[]), pub_module("app")).unwrap();
    let mut h = func("helper");
    h.visibility = RustVisibility::Public;
    t.insert_item(&path(&["util"]), RustItem::Function(h)).unwrap();
    t.modules[2].use_aliases.push(UseAlias { alias: "h".to_string(), target: path(&["util", "helper"]) });
    t.modules[2].use_aliases.push(UseAlias { alias: "u".to_string(), target: path(&["util"]) });
    let helper = Target { category: ItemCategory::Function, module: 1, index: 0 };
    assert_eq!(t.resolve(&path(&["h"]), 2), Ok(helper));
    assert_eq!(t.resolve(&path(&["u", "helper"]), 2), Ok(helper));
    assert_eq!(t.resolve(&path(&["h"]), 1), Err(ResolveError::NameNotFound));
}

#[test]
fn ensure_path_creates_missing_modules() {
    let mut t = ModuleTree::new("root".to_string());
    t.insert_module(&path(&[]), pub_module("a")).unwrap();
    let c = t.ensure_path(&path(&["a", "b", "c"]));
    assert_eq!(c, 3);
    assert_eq!(t.modules.len(), 4);
    assert_eq!(t.modules[2].parent, Some(1));
    assert_eq!(t.modules[3].parent, Some(2));
    assert_eq!(t.ensure_path(&path(&["a", "b", "c"])), 3);
    assert_eq!(t.modules.len(), 4);
    t.insert_item(&path(&["a", "b", "c"]), RustItem::Function(func("deep"))).unwrap();
    assert_eq!(t.modules[3].functions.len(), 1);
}

#[test]
fn malformed_tree_is_reported() {
    let mut broken = ModuleTree::new("root".to_string());
    broken.modules[0].is_root_module = false;
    let reg = CrateRegistry {
        crates: vec![
            crate_with_deps("ok", &[]),
            RustCrate::new("bad".to_string(), "1.0.0".to_string(), broken),
        ],
    };
    assert!(matches!(analyze(reg, 1), Err(AnalysisError::MalformedTree(1))));
    let empty = ModuleTree { modules: Vec::new() };
    assert!(!empty.is_well_formed());
    assert!(ModuleTree::new("r".to_string()).is_well_formed());
}

#[test]
fn module_with_clashing_items_is_refused() {
    let mut t = ModuleTree::new("root".to_string());
    let mut m = pub_module("m");
    m.functions.push(func("f"));
    m.functions.push(func("f"));
    assert_eq!(t.insert_module(&path(&[]), m), Err(TreeError::DuplicateName));
    assert_eq!(t.modules.len(), 1);
}

#[test]
fn member_call_sites_of_structs_enums_traits_are_resolved() {
    let mut t = ModuleTree::new("root".to_string());
    t.insert_item(&path(&[]), RustItem::Function(func("helper"))).unwrap();
    let mut s = RustStruct::new("S".to_string(), 1, 2);
    let mut m = func("new");
    m.call_sites.push(call(&["helper"]));
    s.associated_items.push(m);
    t.insert_item(&path(&[]), RustItem::Struct(s)).unwrap();
    let g = t.call_edges();
    let target = Target { category: ItemCategory::Function, module: 0, index: 0 };
    assert_eq!(g.struct_slots[0][0][0][0], vec![EdgeTarget::Resolved(target)]);
    assert!(g.enum_slots[0].is_empty() && g.trait_slots[0].is_empty());
}

#[test]
fn crate_class_is_root_aggregate() {
    let mut tree = ModuleTree::new("c".to_string());
    tree.insert_module(&path(&[]), pub_module("inner")).unwrap();
    let mut raw = func("raw");
    raw.safety_analysis.raw_pointer_usage = true;
    tree.insert_item(&path(&["inner"]), RustItem::Function(raw)).unwrap();
    let reg = CrateRegistry { crates: vec![RustCrate::new("c".to_string(), "1.0.0".to_string(), tree)] };
    let rep = analyze(reg, 1).ok().unwrap();
    assert_eq!(rep.registry.crates[0].classification(), SafetyClassification::Unsafe);
}

#[test]
fn unsafe_module_flag_alone_keeps_module_safe() {
    let mut t = ModuleTree::new("root".to_string());
    let mut m = pub_module("m");
    m.is_unsafe = true;
    t.insert_module(&path(&[]), m).unwrap();
    t.classify();
    assert_eq!(t.modules[1].classification, SafetyClassification::Safe);
}
