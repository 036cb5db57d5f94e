use vstd::prelude::*;
use crate::callable::RustCallable;
use crate::items::{RustEnum, RustImpl, RustStruct, RustTrait};
use crate::module::{views, ModuleTree, RustModule};
use crate::naming::{find_named, first_named, lemma_first_named_some};
use crate::resolve::{resolution, ItemCategory, ResolveError, Target};
use crate::safety::CallSite;
use crate::types::{RustParameter, RustType};

verus! {

/// Why a call site got no target. None of these is a failure of the run.
#[derive(Clone, Copy, Debug, PartialEq, Eq, Structural)]
pub enum UnresolvedReason {
    /// No candidate of that name is in scope.
    NameNotFound,
    /// Candidates exist, but none is visible from the caller.
    VisibilityViolation,
    /// The name resolves to something that is not a function.
    NotCallable,
    /// The function's parameters do not fit the recorded argument types.
    Incompatible,
    /// A call through a trait object whose method no impl provides.
    NoImplementor,
}

/// Where one call site leads.
#[derive(Clone, Copy, Debug, PartialEq, Eq, Structural)]
pub enum EdgeTarget {
    /// A function found by name resolution.
    Resolved(Target),
    /// Method `method` of impl `impl_index` in module `module`, one of the
    /// implementors of a trait method called through a trait object.
    Dispatch { module: usize, impl_index: usize, method: usize },
    /// No target; a normal outcome.
    Unresolved(UnresolvedReason),
}

/// One argument fits one parameter: its type is unknown or has the
/// parameter type's name.
pub open spec fn arg_fits(arg: RustType, param: RustParameter) -> bool {
    arg.name@.len() == 0 || arg.name@ == param.rust_type.name@
}

/// The recorded argument types fit the parameter list in number and shape.
pub open spec fn compatible(params: Seq<RustParameter>, args: Seq<RustType>) -> bool {
    params.len() == args.len() && forall|i: int| 0 <= i < args.len() ==> arg_fits(#[trigger] args[i], params[i])
}

/// Impl `k` of module `mm` implements trait `tr` and has a method named `n`.
pub open spec fn implements(mods: Seq<RustModule>, mm: int, k: int, tr: Seq<char>, n: Seq<char>) -> bool {
    let imp = mods[mm].impls@[k];
    0 <= mm < mods.len() && 0 <= k < mods[mm].impls@.len() && imp.trait_name is Some
        && imp.trait_name->0@ == tr && first_named(imp.methods@, n) is Some
}

/// The dispatch edge to impl `k` of module `mm` for method `n`.
pub open spec fn dispatch_edge(mods: Seq<RustModule>, mm: int, k: int, n: Seq<char>) -> EdgeTarget {
    EdgeTarget::Dispatch {
        module: mm as usize,
        impl_index: k as usize,
        method: first_named(mods[mm].impls@[k].methods@, n)->0 as usize,
    }
}

pub open spec fn edge_module(e: EdgeTarget) -> int {
    match e {
        EdgeTarget::Dispatch { module, .. } => module as int,
        _ => -1,
    }
}

pub open spec fn edge_impl(e: EdgeTarget) -> int {
    match e {
        EdgeTarget::Dispatch { impl_index, .. } => impl_index as int,
        _ => -1,
    }
}

/// `r` holds one dispatch edge for each implementor of `tr`'s method `n`,
/// in the order of modules and then of impls, and nothing else.
pub open spec fn fan_out(mods: Seq<RustModule>, tr: Seq<char>, n: Seq<char>, r: Seq<EdgeTarget>) -> bool {
    &&& forall|e: int| 0 <= e < r.len() ==> implements(mods, edge_module(#[trigger] r[e]), edge_impl(r[e]), tr, n)
        && r[e] == dispatch_edge(mods, edge_module(r[e]), edge_impl(r[e]), n)
    &&& forall|mm: int, k: int| implements(mods, mm, k, tr, n) ==> exists|e: int|
        0 <= e < r.len() && #[trigger] r[e] == #[trigger] dispatch_edge(mods, mm, k, n)
    &&& forall|e1: int, e2: int| 0 <= e1 < e2 < r.len() ==> before(
        edge_module(#[trigger] r[e1]),
        edge_impl(r[e1]),
        edge_module(#[trigger] r[e2]),
        edge_impl(r[e2]),
    )
}

/// The function that target `t` names.
pub open spec fn target_fn(mods: Seq<RustModule>, t: Target) -> RustCallable {
    mods[t.module as int].functions@[t.index as int]
}

/// Where a call site of module `m` leads when it is not a trait-object call.
///
/// The candidate bound is the one that `resolve` answers for the called
/// name: the first visible one in scope order (own module, then each
/// ancestor; own members before `use` aliases). A name that several visible
/// candidates share is thus bound to the nearest, as lexical scoping
/// shadows the outer ones; it is not reported as ambiguous.
pub open spec fn static_target(mods: Seq<RustModule>, m: int, site: CallSite) -> EdgeTarget {
    match resolution(mods, m, views(site.callee@)) {
        Ok(t) => if t.category != ItemCategory::Function {
            EdgeTarget::Unresolved(UnresolvedReason::NotCallable)
        } else if compatible(target_fn(mods, t).parameters@, site.argument_types@) {
            EdgeTarget::Resolved(t)
        } else {
            EdgeTarget::Unresolved(UnresolvedReason::Incompatible)
        },
        Err(ResolveError::VisibilityViolation) => EdgeTarget::Unresolved(
            UnresolvedReason::VisibilityViolation,
        ),
        Err(ResolveError::NameNotFound) => EdgeTarget::Unresolved(UnresolvedReason::NameNotFound),
    }
}

/// What the resolver records for one call site of module `m`.
pub open spec fn site_edges_ok(mods: Seq<RustModule>, m: int, site: CallSite, r: Seq<EdgeTarget>) -> bool {
    match site.dispatch_trait {
        Some(tr) => if site.callee@.len() > 0 && exists|mm: int, k: int|
            implements(mods, mm, k, tr@, site.callee@.last()@) {
            fan_out(mods, tr@, site.callee@.last()@, r)
        } else {
            r == seq![EdgeTarget::Unresolved(UnresolvedReason::NoImplementor)]
        },
        None => r == seq![static_target(mods, m, site)],
    }
}

fn check_compatible(params: &Vec<RustParameter>, args: &Vec<RustType>) -> (r: bool)
    ensures
        r == compatible(params@, args@),
{
    if params.len() != args.len() {
        return false;
    }
    let mut i: usize = 0;
    while i < args.len()
        invariant
            params@.len() == args@.len(),
            0 <= i <= args@.len(),
            forall|j: int| 0 <= j < i ==> arg_fits(#[trigger] args@[j], params@[j]),
        decreases args.len() - i,
    {
        if args[i].name.as_str().unicode_len() != 0 && args[i].name != params[i].rust_type.name {
            return false;
        }
        i += 1;
    }
    true
}

/// The call edges of one crate, in per-callable slots.
#[derive(Clone, Debug)]
pub struct CallGraph {
    /// `slots[m][f][s]`: the edges of call site `s` of function `f` of module `m`.
    pub slots: Vec<Vec<Vec<Vec<EdgeTarget>>>>,
    /// `method_slots[m][k][j][s]`: the edges of call site `s` of method `j`
    /// of impl `k` of module `m`.
    pub method_slots: Vec<Vec<Vec<Vec<Vec<EdgeTarget>>>>>,
    /// `struct_slots[m][k][j][s]`: the same for associated function `j` of
    /// struct `k` of module `m`.
    pub struct_slots: Vec<Vec<Vec<Vec<Vec<EdgeTarget>>>>>,
    /// The same for the associated functions of enums.
    pub enum_slots: Vec<Vec<Vec<Vec<Vec<EdgeTarget>>>>>,
    /// The same for the methods of traits.
    pub trait_slots: Vec<Vec<Vec<Vec<Vec<EdgeTarget>>>>>,
}

pub open spec fn fn_slots_ok(mods: Seq<RustModule>, m: int, c: RustCallable, slots: Seq<Vec<EdgeTarget>>) -> bool {
    slots.len() == c.call_sites@.len() && forall|s: int| 0 <= s < slots.len() ==> site_edges_ok(
        mods,
        m,
        c.call_sites@[s],
        #[trigger] slots[s]@,
    )
}

pub open spec fn module_slots_ok(mods: Seq<RustModule>, m: int, slots: Seq<Vec<Vec<EdgeTarget>>>) -> bool {
    slots.len() == mods[m].functions@.len() && forall|f: int| 0 <= f < slots.len() ==> fn_slots_ok(
        mods,
        m,
        mods[m].functions@[f],
        #[trigger] slots[f]@,
    )
}

pub open spec fn methods_slots_ok(mods: Seq<RustModule>, m: int, cs: Seq<RustCallable>, slots: Seq<Vec<Vec<EdgeTarget>>>) -> bool {
    slots.len() == cs.len() && forall|j: int| 0 <= j < slots.len() ==> fn_slots_ok(mods, m, cs[j], #[trigger] slots[j]@)
}

/// The member lists of the impls of module `md`.
pub open spec fn impl_groups(md: RustModule) -> Seq<Seq<RustCallable>> {
    md.impls@.map_values(|x: RustImpl| x.methods@)
}

/// The member lists of the structs of module `md`.
pub open spec fn struct_groups(md: RustModule) -> Seq<Seq<RustCallable>> {
    md.structs@.map_values(|x: RustStruct| x.associated_items@)
}

/// The member lists of the enums of module `md`.
pub open spec fn enum_groups(md: RustModule) -> Seq<Seq<RustCallable>> {
    md.enums@.map_values(|x: RustEnum| x.associated_items@)
}

/// The member lists of the traits of module `md`.
pub open spec fn trait_groups(md: RustModule) -> Seq<Seq<RustCallable>> {
    md.traits@.map_values(|x: RustTrait| x.methods@)
}

/// `slots[k]` holds the slots of the members `groups[k]` of one container
/// of module `m`.
pub open spec fn groups_ok(mods: Seq<RustModule>, m: int, groups: Seq<Seq<RustCallable>>, slots: Seq<Vec<Vec<Vec<EdgeTarget>>>>) -> bool {
    slots.len() == groups.len() && forall|k: int| 0 <= k < slots.len() ==> methods_slots_ok(
        mods,
        m,
        groups[k],
        #[trigger] slots[k]@,
    )
}

/// `g` holds, for every call site of every member of an impl, struct, enum
/// or trait, exactly the edges that the resolver owes it.
pub open spec fn members_ok(mods: Seq<RustModule>, g: CallGraph) -> bool {
    &&& g.method_slots@.len() == mods.len()
    &&& g.struct_slots@.len() == mods.len()
    &&& g.enum_slots@.len() == mods.len()
    &&& g.trait_slots@.len() == mods.len()
    &&& forall|m: int| 0 <= m < mods.len() ==> groups_ok(mods, m, impl_groups(mods[m]), #[trigger] g.method_slots@[m]@)
    &&& forall|m: int| 0 <= m < mods.len() ==> groups_ok(mods, m, struct_groups(mods[m]), #[trigger] g.struct_slots@[m]@)
    &&& forall|m: int| 0 <= m < mods.len() ==> groups_ok(mods, m, enum_groups(mods[m]), #[trigger] g.enum_slots@[m]@)
    &&& forall|m: int| 0 <= m < mods.len() ==> groups_ok(mods, m, trait_groups(mods[m]), #[trigger] g.trait_slots@[m]@)
}

/// `g` holds, for every call site of every module-level function, exactly
/// the edges that the resolver owes it.
pub open spec fn graph_ok(mods: Seq<RustModule>, g: Seq<Vec<Vec<Vec<EdgeTarget>>>>) -> bool {
    g.len() == mods.len() && forall|m: int| 0 <= m < g.len() ==> module_slots_ok(mods, m, #[trigger] g[m]@)
}

/// The pair `(mm, k)` comes before `(a, b)` in module-then-impl order.
pub open spec fn before(mm: int, k: int, a: int, b: int) -> bool {
    mm < a || (mm == a && k < b)
}

impl ModuleTree {
    /// One dispatch edge for each impl of trait `tr` that has a method `n`.
    pub fn implementors(&self, tr: &String, n: &String) -> (r: Vec<EdgeTarget>)
        ensures
            fan_out(self.modules@, tr@, n@, r@),
            r@.len() == 0 <==> !exists|mm: int, k: int| implements(self.modules@, mm, k, tr@, n@),
    {
        let ghost mods = self.modules@;
        let mut r: Vec<EdgeTarget> = Vec::new();
        let mut mm: usize = 0;
        while mm < self.modules.len()
            invariant
                mods == self.modules@,
                0 <= mm <= mods.len(),
                forall|e: int| 0 <= e < r@.len() ==> implements(mods, edge_module(#[trigger] r@[e]), edge_impl(r@[e]), tr@, n@)
                    && r@[e] == dispatch_edge(mods, edge_module(r@[e]), edge_impl(r@[e]), n@)
                    && before(edge_module(r@[e]), edge_impl(r@[e]), mm as int, 0),
                forall|a: int, b: int| implements(mods, a, b, tr@, n@) && a < mm ==> exists|e: int|
                    0 <= e < r@.len() && #[trigger] r@[e] == #[trigger] dispatch_edge(mods, a, b, n@),
                forall|e1: int, e2: int| 0 <= e1 < e2 < r@.len() ==> before(
                    edge_module(#[trigger] r@[e1]),
                    edge_impl(r@[e1]),
                    edge_module(#[trigger] r@[e2]),
                    edge_impl(r@[e2]),
                ),
            decreases self.modules.len() - mm,
        {
            let impls = &self.modules[mm].impls;
            let mut k: usize = 0;
            while k < impls.len()
                invariant
                    mods == self.modules@,
                    0 <= mm < mods.len(),
                    impls@ == mods[mm as int].impls@,
                    0 <= k <= impls@.len(),
                    forall|e: int| 0 <= e < r@.len() ==> implements(mods, edge_module(#[trigger] r@[e]), edge_impl(r@[e]), tr@, n@)
                        && r@[e] == dispatch_edge(mods, edge_module(r@[e]), edge_impl(r@[e]), n@)
                        && before(edge_module(r@[e]), edge_impl(r@[e]), mm as int, k as int),
                    forall|a: int, b: int| implements(mods, a, b, tr@, n@) && before(a, b, mm as int, k as int)
                        ==> exists|e: int|
                        0 <= e < r@.len() && #[trigger] r@[e] == #[trigger] dispatch_edge(mods, a, b, n@),
                    forall|e1: int, e2: int| 0 <= e1 < e2 < r@.len() ==> before(
                        edge_module(#[trigger] r@[e1]),
                        edge_impl(r@[e1]),
                        edge_module(#[trigger] r@[e2]),
                        edge_impl(r@[e2]),
                    ),
                decreases impls.len() - k,
            {
                let imp = &impls[k];
                let is_impl = match &imp.trait_name {
                    Some(t) => *t == *tr,
                    None => false,
                };
                let ghost old_r = r@;
                if is_impl {
                    if let Some(j) = find_named(&imp.methods, n) {
                        proof {
                            lemma_first_named_some(imp.methods@, n@);
                        }
                        let edge = EdgeTarget::Dispatch { module: mm, impl_index: k, method: j };
                        proof {
                            assert(implements(mods, mm as int, k as int, tr@, n@));
                            assert(edge == dispatch_edge(mods, mm as int, k as int, n@));
                        }
                        r.push(edge);
                        proof {
                            assert(r@[old_r.len() as int] == edge);
                            assert forall|e: int| 0 <= e < old_r.len() implies r@[e] == old_r[e] by {}
                        }
                    }
                }
                proof {
                    if r@ == old_r {
                        assert(!implements(mods, mm as int, k as int, tr@, n@));
                    }
                    assert forall|a: int, b: int| implements(mods, a, b, tr@, n@) && before(a, b, mm as int, k + 1)
                        implies exists|e: int|
                        0 <= e < r@.len() && #[trigger] r@[e] == #[trigger] dispatch_edge(mods, a, b, n@) by {
                        if a == mm && b == k {
                            assert(r@[old_r.len() as int] == dispatch_edge(mods, a, b, n@));
                        } else {
                            assert(before(a, b, mm as int, k as int));
                            let e = choose|e: int| 0 <= e < old_r.len() && #[trigger] old_r[e] == #[trigger] dispatch_edge(mods, a, b, n@);
                            assert(r@[e] == old_r[e]);
                        }
                    }
                }
                k += 1;
            }
            proof {
                assert forall|a: int, b: int| implements(mods, a, b, tr@, n@) && a < mm + 1 implies exists|e: int|
                    0 <= e < r@.len() && #[trigger] r@[e] == #[trigger] dispatch_edge(mods, a, b, n@) by {
                    if a < mm {
                    } else {
                        assert(before(a, b, mm as int, k as int));
                    }
                }
            }
            mm += 1;
        }
        proof {
            if r@.len() == 0 {
                assert forall|a: int, b: int| !implements(mods, a, b, tr@, n@) by {
                    if implements(mods, a, b, tr@, n@) {
                        assert(a < mm);
                        let e = choose|e: int|
                            0 <= e < r@.len() && #[trigger] r@[e] == #[trigger] dispatch_edge(mods, a, b, n@);
                    }
                }
            } else {
                assert(implements(mods, edge_module(r@[0]), edge_impl(r@[0]), tr@, n@));
            }
        }
        r
    }

    /// The edges that one call site of module `m` gets. A call through a
    /// trait object fans out to every implementor of the method; any other
    /// call is resolved by name from `m`. A call that finds no target gets
    /// one unresolved edge that says why.
    pub fn site_edges(&self, m: usize, site: &CallSite) -> (r: Vec<EdgeTarget>)
        requires
            self.wf(),
            m < self.modules@.len(),
        ensures
            site_edges_ok(self.modules@, m as int, *site, r@),
    {
        match &site.dispatch_trait {
            Some(tr) => {
                if site.callee.len() > 0 {
                    let v = self.implementors(tr, &site.callee[site.callee.len() - 1]);
                    if v.len() > 0 {
                        return v;
                    }
                }
                let mut v = Vec::new();
                v.push(EdgeTarget::Unresolved(UnresolvedReason::NoImplementor));
                proof {
                    assert(v@ =~= seq![EdgeTarget::Unresolved(UnresolvedReason::NoImplementor)]);
                }
                v
            },
            None => {
                let e = match self.resolve(&site.callee, m) {
                    Ok(t) => {
                        if t.category != ItemCategory::Function {
                            EdgeTarget::Unresolved(UnresolvedReason::NotCallable)
                        } else if check_compatible(
                            &self.modules[t.module].functions[t.index].parameters,
                            &site.argument_types,
                        ) {
                            EdgeTarget::Resolved(t)
                        } else {
                            EdgeTarget::Unresolved(UnresolvedReason::Incompatible)
                        }
                    },
                    Err(ResolveError::VisibilityViolation) => EdgeTarget::Unresolved(
                        UnresolvedReason::VisibilityViolation,
                    ),
                    Err(ResolveError::NameNotFound) => EdgeTarget::Unresolved(
                        UnresolvedReason::NameNotFound,
                    ),
                };
                let mut v = Vec::new();
                v.push(e);
                proof {
                    assert(v@ =~= seq![e]);
                }
                v
            },
        }
    }

    /// The edges of each call site of `c`, a callable of module `m`.
    pub fn callable_slots(&self, m: usize, c: &RustCallable) -> (r: Vec<Vec<EdgeTarget>>)
        requires
            self.wf(),
            m < self.modules@.len(),
        ensures
            fn_slots_ok(self.modules@, m as int, *c, r@),
    {
        let sites = &c.call_sites;
        let mut per_site: Vec<Vec<EdgeTarget>> = Vec::new();
        let mut s: usize = 0;
        while s < sites.len()
            invariant
                self.wf(),
                m < self.modules@.len(),
                sites@ == c.call_sites@,
                0 <= s <= sites@.len(),
                per_site@.len() == s,
                forall|k: int| 0 <= k < s ==> site_edges_ok(self.modules@, m as int, sites@[k], #[trigger] per_site@[k]@),
            decreases sites.len() - s,
        {
            let e = self.site_edges(m, &sites[s]);
            per_site.push(e);
            proof {
                assert forall|k: int| 0 <= k < s + 1 implies site_edges_ok(self.modules@, m as int, sites@[k], #[trigger] per_site@[k]@) by {}
            }
            s += 1;
        }
        per_site
    }

    /// The slots of every callable in `cs`, callables of module `m`.
    fn callables_slots(&self, m: usize, cs: &Vec<RustCallable>) -> (r: Vec<Vec<Vec<EdgeTarget>>>)
        requires
            self.wf(),
            m < self.modules@.len(),
        ensures
            r@.len() == cs@.len(),
            forall|f: int| 0 <= f < r@.len() ==> fn_slots_ok(self.modules@, m as int, cs@[f], #[trigger] r@[f]@),
    {
        let mut out: Vec<Vec<Vec<EdgeTarget>>> = Vec::new();
        let mut f: usize = 0;
        while f < cs.len()
            invariant
                self.wf(),
                m < self.modules@.len(),
                0 <= f <= cs@.len(),
                out@.len() == f,
                forall|j: int| 0 <= j < f ==> fn_slots_ok(self.modules@, m as int, cs@[j], #[trigger] out@[j]@),
            decreases cs.len() - f,
        {
            out.push(self.callable_slots(m, &cs[f]));
            proof {
                assert forall|j: int| 0 <= j < f + 1 implies fn_slots_ok(self.modules@, m as int, cs@[j], #[trigger] out@[j]@) by {}
            }
            f += 1;
        }
        out
    }

    /// The slots of the members of each impl of module `m`.
    fn impl_member_slots(&self, m: usize) -> (r: Vec<Vec<Vec<Vec<EdgeTarget>>>>)
        requires
            self.wf(),
            m < self.modules@.len(),
        ensures
            groups_ok(self.modules@, m as int, impl_groups(self.modules@[m as int]), r@),
    {
        let xs = &self.modules[m].impls;
        let ghost gs = impl_groups(self.modules@[m as int]);
        let mut out: Vec<Vec<Vec<Vec<EdgeTarget>>>> = Vec::new();
        let mut k: usize = 0;
        while k < xs.len()
            invariant
                self.wf(),
                m < self.modules@.len(),
                xs@ == self.modules@[m as int].impls@,
                gs == impl_groups(self.modules@[m as int]),
                0 <= k <= xs@.len(),
                out@.len() == k,
                forall|j: int| 0 <= j < k ==> methods_slots_ok(self.modules@, m as int, gs[j], #[trigger] out@[j]@),
            decreases xs.len() - k,
        {
            out.push(self.callables_slots(m, &xs[k].methods));
            proof {
                assert(gs[k as int] == xs@[k as int].methods@);
                assert forall|j: int| 0 <= j < k + 1 implies methods_slots_ok(self.modules@, m as int, gs[j], #[trigger] out@[j]@) by {}
            }
            k += 1;
        }
        out
    }

    /// The slots of the members of each struct of module `m`.
    fn struct_member_slots(&self, m: usize) -> (r: Vec<Vec<Vec<Vec<EdgeTarget>>>>)
        requires
            self.wf(),
            m < self.modules@.len(),
        ensures
            groups_ok(self.modules@, m as int, struct_groups(self.modules@[m as int]), r@),
    {
        let xs = &self.modules[m].structs;
        let ghost gs = struct_groups(self.modules@[m as int]);
        let mut out: Vec<Vec<Vec<Vec<EdgeTarget>>>> = Vec::new();
        let mut k: usize = 0;
        while k < xs.len()
            invariant
                self.wf(),
                m < self.modules@.len(),
                xs@ == self.modules@[m as int].structs@,
                gs == struct_groups(self.modules@[m as int]),
                0 <= k <= xs@.len(),
                out@.len() == k,
                forall|j: int| 0 <= j < k ==> methods_slots_ok(self.modules@, m as int, gs[j], #[trigger] out@[j]@),
            decreases xs.len() - k,
        {
            out.push(self.callables_slots(m, &xs[k].associated_items));
            proof {
                assert(gs[k as int] == xs@[k as int].associated_items@);
                assert forall|j: int| 0 <= j < k + 1 implies methods_slots_ok(self.modules@, m as int, gs[j], #[trigger] out@[j]@) by {}
            }
            k += 1;
        }
        out
    }

    /// The slots of the members of each enum of module `m`.
    fn enum_member_slots(&self, m: usize) -> (r: Vec<Vec<Vec<Vec<EdgeTarget>>>>)
        requires
            self.wf(),
            m < self.modules@.len(),
        ensures
            groups_ok(self.modules@, m as int, enum_groups(self.modules@[m as int]), r@),
    {
        let xs = &self.modules[m].enums;
        let ghost gs = enum_groups(self.modules@[m as int]);
        let mut out: Vec<Vec<Vec<Vec<EdgeTarget>>>> = Vec::new();
        let mut k: usize = 0;
        while k < xs.len()
            invariant
                self.wf(),
                m < self.modules@.len(),
                xs@ == self.modules@[m as int].enums@,
                gs == enum_groups(self.modules@[m as int]),
                0 <= k <= xs@.len(),
                out@.len() == k,
                forall|j: int| 0 <= j < k ==> methods_slots_ok(self.modules@, m as int, gs[j], #[trigger] out@[j]@),
            decreases xs.len() - k,
        {
            out.push(self.callables_slots(m, &xs[k].associated_items));
            proof {
                assert(gs[k as int] == xs@[k as int].associated_items@);
                assert forall|j: int| 0 <= j < k + 1 implies methods_slots_ok(self.modules@, m as int, gs[j], #[trigger] out@[j]@) by {}
            }
            k += 1;
        }
        out
    }

    /// The slots of the members of each trait of module `m`.
    fn trait_member_slots(&self, m: usize) -> (r: Vec<Vec<Vec<Vec<EdgeTarget>>>>)
        requires
            self.wf(),
            m < self.modules@.len(),
        ensures
            groups_ok(self.modules@, m as int, trait_groups(self.modules@[m as int]), r@),
    {
        let xs = &self.modules[m].traits;
        let ghost gs = trait_groups(self.modules@[m as int]);
        let mut out: Vec<Vec<Vec<Vec<EdgeTarget>>>> = Vec::new();
        let mut k: usize = 0;
        while k < xs.len()
            invariant
                self.wf(),
                m < self.modules@.len(),
                xs@ == self.modules@[m as int].traits@,
                gs == trait_groups(self.modules@[m as int]),
                0 <= k <= xs@.len(),
                out@.len() == k,
                forall|j: int| 0 <= j < k ==> methods_slots_ok(self.modules@, m as int, gs[j], #[trigger] out@[j]@),
            decreases xs.len() - k,
        {
            out.push(self.callables_slots(m, &xs[k].methods));
            proof {
                assert(gs[k as int] == xs@[k as int].methods@);
                assert forall|j: int| 0 <= j < k + 1 implies methods_slots_ok(self.modules@, m as int, gs[j], #[trigger] out@[j]@) by {}
            }
            k += 1;
        }
        out
    }

    /// The edges of every call site of every callable of the tree: module
    /// functions, and the members of impls, structs, enums and traits.
    pub fn call_edges(&self) -> (r: CallGraph)
        requires
            self.wf(),
        ensures
            graph_ok(self.modules@, r.slots@),
            members_ok(self.modules@, r),
    {
        let mut slots: Vec<Vec<Vec<Vec<EdgeTarget>>>> = Vec::new();
        let mut method_slots: Vec<Vec<Vec<Vec<Vec<EdgeTarget>>>>> = Vec::new();
        let mut struct_slots: Vec<Vec<Vec<Vec<Vec<EdgeTarget>>>>> = Vec::new();
        let mut enum_slots: Vec<Vec<Vec<Vec<Vec<EdgeTarget>>>>> = Vec::new();
        let mut trait_slots: Vec<Vec<Vec<Vec<Vec<EdgeTarget>>>>> = Vec::new();
        let mut m: usize = 0;
        while m < self.modules.len()
            invariant
                self.wf(),
                0 <= m <= self.modules@.len(),
                slots@.len() == m,
                method_slots@.len() == m,
                struct_slots@.len() == m,
                enum_slots@.len() == m,
                trait_slots@.len() == m,
                forall|i: int| 0 <= i < m ==> module_slots_ok(self.modules@, i, #[trigger] slots@[i]@),
                forall|i: int| 0 <= i < m ==> groups_ok(self.modules@, i, impl_groups(self.modules@[i]), #[trigger] method_slots@[i]@),
                forall|i: int| 0 <= i < m ==> groups_ok(self.modules@, i, struct_groups(self.modules@[i]), #[trigger] struct_slots@[i]@),
                forall|i: int| 0 <= i < m ==> groups_ok(self.modules@, i, enum_groups(self.modules@[i]), #[trigger] enum_slots@[i]@),
                forall|i: int| 0 <= i < m ==> groups_ok(self.modules@, i, trait_groups(self.modules@[i]), #[trigger] trait_slots@[i]@),
            decreases self.modules.len() - m,
        {
            slots.push(self.callables_slots(m, &self.modules[m].functions));
            method_slots.push(self.impl_member_slots(m));
            struct_slots.push(self.struct_member_slots(m));
            enum_slots.push(self.enum_member_slots(m));
            trait_slots.push(self.trait_member_slots(m));
            proof {
                assert forall|i: int| 0 <= i < m + 1 implies module_slots_ok(self.modules@, i, #[trigger] slots@[i]@) by {}
                assert forall|i: int| 0 <= i < m + 1 implies groups_ok(self.modules@, i, impl_groups(self.modules@[i]), #[trigger] method_slots@[i]@) by {}
                assert forall|i: int| 0 <= i < m + 1 implies groups_ok(self.modules@, i, struct_groups(self.modules@[i]), #[trigger] struct_slots@[i]@) by {}
                assert forall|i: int| 0 <= i < m + 1 implies groups_ok(self.modules@, i, enum_groups(self.modules@[i]), #[trigger] enum_slots@[i]@) by {}
                assert forall|i: int| 0 <= i < m + 1 implies groups_ok(self.modules@, i, trait_groups(self.modules@[i]), #[trigger] trait_slots@[i]@) by {}
            }
            m += 1;
        }
        CallGraph { slots, method_slots, struct_slots, enum_slots, trait_slots }
    }
}

} // verus!
