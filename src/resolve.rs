use vstd::prelude::*;
use crate::entities::RustVisibility;
use crate::module::{child, find_child, in_subtree, tree_wf, views, visible, walk, ModuleTree, RustModule};
use crate::naming::{find_named, first_named, lemma_first_named_some};
use crate::tree::{lemma_find_child_some, lemma_walk_push};

verus! {

/// The categories of names that a module holds.
#[derive(Clone, Copy, Debug, PartialEq, Eq, Structural)]
pub enum ItemCategory {
    Module,
    Struct,
    Enum,
    Trait,
    TypeAlias,
    Function,
    Macro,
}

/// A named thing in a module tree: entry `index` of `category` in module
/// `module`. For a submodule, `index` is the submodule's own index in the tree
/// and `module` its parent.
#[derive(Clone, Copy, Debug, PartialEq, Eq, Structural)]
pub struct Target {
    pub category: ItemCategory,
    pub module: usize,
    pub index: usize,
}

/// Why a name could not be resolved.
#[derive(Clone, Copy, Debug, PartialEq, Eq, Structural)]
pub enum ResolveError {
    /// Nothing of that name is in scope.
    NameNotFound,
    /// Something of that name is in scope, but none of it is visible.
    VisibilityViolation,
}

pub open spec fn opt_target(o: Option<int>, cat: ItemCategory, m: int) -> Seq<Target> {
    match o {
        Some(i) => seq![Target { category: cat, module: m as usize, index: i as usize }],
        None => Seq::empty(),
    }
}

/// What module `m` holds under the name `n`, submodule first, then one entry
/// per item category.
pub open spec fn members_named(mods: Seq<RustModule>, m: int, n: Seq<char>) -> Seq<Target> {
    let md = mods[m];
    opt_target(child(mods, m, n), ItemCategory::Module, m) + opt_target(
        first_named(md.structs@, n),
        ItemCategory::Struct,
        m,
    ) + opt_target(first_named(md.enums@, n), ItemCategory::Enum, m) + opt_target(
        first_named(md.traits@, n),
        ItemCategory::Trait,
        m,
    ) + opt_target(first_named(md.type_aliases@, n), ItemCategory::TypeAlias, m) + opt_target(
        first_named(md.functions@, n),
        ItemCategory::Function,
        m,
    ) + opt_target(first_named(md.macros@, n), ItemCategory::Macro, m)
}

/// The members named by the last segment of `path` in the module that the
/// other segments lead to from module `s`.
pub open spec fn direct_candidates(mods: Seq<RustModule>, s: int, path: Seq<Seq<char>>) -> Seq<
    Target,
> {
    if path.len() == 0 {
        Seq::empty()
    } else {
        match walk(mods, s, path.drop_last()) {
            Some(m) => members_named(mods, m, path.last()),
            None => Seq::empty(),
        }
    }
}

/// Where the first segment of `path` is a `use` alias of module `s`: the
/// candidates of the alias's target followed by the other segments, from the
/// crate root. Aliases are not followed further.
pub open spec fn alias_candidates(mods: Seq<RustModule>, s: int, path: Seq<Seq<char>>) -> Seq<Target> {
    if path.len() == 0 {
        Seq::empty()
    } else {
        match first_named(mods[s].use_aliases@, path[0]) {
            Some(i) => direct_candidates(
                mods,
                0,
                views(mods[s].use_aliases@[i].target@) + path.drop_first(),
            ),
            None => Seq::empty(),
        }
    }
}

/// The candidates for `path` seen from scope module `s` alone: its own
/// members first, then those reached through its `use` aliases.
pub open spec fn scope_candidates(mods: Seq<RustModule>, s: int, path: Seq<Seq<char>>) -> Seq<
    Target,
> {
    direct_candidates(mods, s, path) + alias_candidates(mods, s, path)
}

/// All candidates for `path` from module `u`: those of `u` itself, then of
/// each ancestor up to the root.
pub open spec fn candidates(mods: Seq<RustModule>, u: int, path: Seq<Seq<char>>) -> Seq<Target>
    decreases u,
{
    if 0 <= u < mods.len() && mods[u].parent is Some && (mods[u].parent->0 as int) < u {
        scope_candidates(mods, u, path) + candidates(mods, mods[u].parent->0 as int, path)
    } else {
        scope_candidates(mods, u, path)
    }
}

/// The visibility a target was declared with.
pub open spec fn target_vis(mods: Seq<RustModule>, t: Target) -> RustVisibility {
    let md = mods[t.module as int];
    let i = t.index as int;
    match t.category {
        ItemCategory::Module => mods[i].visibility,
        ItemCategory::Struct => md.structs@[i].visibility,
        ItemCategory::Enum => md.enums@[i].visibility,
        ItemCategory::Trait => md.traits@[i].visibility,
        ItemCategory::TypeAlias => md.type_aliases@[i].visibility,
        ItemCategory::Function => md.functions@[i].visibility,
        ItemCategory::Macro => md.macros@[i].visibility,
    }
}

pub open spec fn target_visible(mods: Seq<RustModule>, t: Target, u: int) -> bool {
    visible(mods, target_vis(mods, t), t.module as int, u)
}

/// The first of `cs` that is visible from `u`.
pub open spec fn first_visible(mods: Seq<RustModule>, cs: Seq<Target>, u: int) -> Option<Target>
    decreases cs.len(),
{
    if cs.len() == 0 {
        None
    } else if target_visible(mods, cs[0], u) {
        Some(cs[0])
    } else {
        first_visible(mods, cs.drop_first(), u)
    }
}

/// What `resolve` answers for `path` from module `u`.
pub open spec fn resolution(mods: Seq<RustModule>, u: int, path: Seq<Seq<char>>) -> Result<
    Target,
    ResolveError,
> {
    let cs = candidates(mods, u, path);
    match first_visible(mods, cs, u) {
        Some(t) => Ok(t),
        None => if cs.len() > 0 {
            Err(ResolveError::VisibilityViolation)
        } else {
            Err(ResolveError::NameNotFound)
        },
    }
}

/// The target points at an existing entry.
pub open spec fn target_in_tree(mods: Seq<RustModule>, t: Target) -> bool {
    let md = mods[t.module as int];
    let i = t.index as int;
    t.module < mods.len() && 0 <= i && match t.category {
        ItemCategory::Module => i < mods.len(),
        ItemCategory::Struct => i < md.structs@.len(),
        ItemCategory::Enum => i < md.enums@.len(),
        ItemCategory::Trait => i < md.traits@.len(),
        ItemCategory::TypeAlias => i < md.type_aliases@.len(),
        ItemCategory::Function => i < md.functions@.len(),
        ItemCategory::Macro => i < md.macros@.len(),
    }
}

proof fn lemma_first_visible_skip(mods: Seq<RustModule>, a: Seq<Target>, b: Seq<Target>, u: int)
    requires
        forall|k: int| 0 <= k < a.len() ==> !target_visible(mods, #[trigger] a[k], u),
    ensures
        first_visible(mods, a + b, u) == first_visible(mods, b, u),
    decreases a.len(),
{
    if a.len() > 0 {
        assert((a + b).drop_first() =~= a.drop_first() + b);
        assert((a + b)[0] == a[0]);
        assert forall|k: int| 0 <= k < a.drop_first().len() implies !target_visible(
            mods,
            #[trigger] a.drop_first()[k],
            u,
        ) by {
            assert(a.drop_first()[k] == a[k + 1]);
        }
        lemma_first_visible_skip(mods, a.drop_first(), b, u);
    } else {
        assert(a + b =~= b);
    }
}

proof fn lemma_first_visible_hit(mods: Seq<RustModule>, a: Seq<Target>, b: Seq<Target>, u: int, k: int)
    requires
        0 <= k < a.len(),
        target_visible(mods, a[k], u),
        forall|j: int| 0 <= j < k ==> !target_visible(mods, #[trigger] a[j], u),
    ensures
        first_visible(mods, a + b, u) == Some(a[k]),
{
    let pre = a.subrange(0, k);
    let post = a.subrange(k, a.len() as int) + b;
    assert(a + b =~= pre + post);
    assert forall|j: int| 0 <= j < pre.len() implies !target_visible(mods, #[trigger] pre[j], u) by {
        assert(pre[j] == a[j]);
    }
    lemma_first_visible_skip(mods, pre, post, u);
    assert(post[0] == a[k]);
}

pub open spec fn all_in_tree(mods: Seq<RustModule>, s: Seq<Target>) -> bool {
    forall|k: int| 0 <= k < s.len() ==> target_in_tree(mods, #[trigger] s[k])
}

proof fn lemma_all_in_tree_concat(mods: Seq<RustModule>, a: Seq<Target>, b: Seq<Target>)
    requires
        all_in_tree(mods, a),
        all_in_tree(mods, b),
    ensures
        all_in_tree(mods, a + b),
{
    assert forall|k: int| 0 <= k < (a + b).len() implies target_in_tree(mods, #[trigger] (a + b)[k]) by {
        if k < a.len() {
            assert((a + b)[k] == a[k]);
        } else {
            assert((a + b)[k] == b[k - a.len()]);
        }
    }
}

proof fn lemma_views_push(v: Seq<String>, x: String)
    ensures
        views(v.push(x)) == views(v).push(x@),
{
    assert(views(v.push(x)) =~= views(v).push(x@));
}

proof fn lemma_candidates_empty_path(mods: Seq<RustModule>, u: int, path: Seq<Seq<char>>)
    requires
        path.len() == 0,
    ensures
        candidates(mods, u, path).len() == 0,
    decreases u,
{
    if 0 <= u < mods.len() && mods[u].parent is Some && (mods[u].parent->0 as int) < u {
        lemma_candidates_empty_path(mods, mods[u].parent->0 as int, path);
    }
}

impl ModuleTree {
    fn push_found(&self, v: &mut Vec<Target>, found: Option<usize>, cat: ItemCategory, m: usize)
        requires
            all_in_tree(self.modules@, old(v)@),
            found is Some ==> target_in_tree(
                self.modules@,
                Target { category: cat, module: m, index: found->0 },
            ),
        ensures
            all_in_tree(self.modules@, final(v)@),
            final(v)@ == old(v)@ + opt_target(
                match found {
                    Some(i) => Some(i as int),
                    None => None,
                },
                cat,
                m as int,
            ),
    {
        if let Some(i) = found {
            v.push(Target { category: cat, module: m, index: i });
        }
        proof {
            assert forall|k: int| 0 <= k < final(v)@.len() implies target_in_tree(
                self.modules@,
                #[trigger] final(v)@[k],
            ) by {
                if k < old(v)@.len() {
                    assert(final(v)@[k] == old(v)@[k]);
                }
            }
            assert(final(v)@ =~= old(v)@ + opt_target(
                match found {
                    Some(i) => Some(i as int),
                    None => None,
                },
                cat,
                m as int,
            ));
        }
    }

    /// What module `m` holds under the name `n`.
    pub fn members_at(&self, m: usize, n: &String) -> (r: Vec<Target>)
        requires
            self.wf(),
            m < self.modules@.len(),
        ensures
            r@ == members_named(self.modules@, m as int, n@),
            all_in_tree(self.modules@, r@),
    {
        let ghost mods = self.modules@;
        let md = &self.modules[m];
        let mut v: Vec<Target> = Vec::new();
        let c = self.child_of(m, n);
        self.push_found(&mut v, c, ItemCategory::Module, m);
        let f = find_named(&md.structs, n);
        self.push_found(&mut v, f, ItemCategory::Struct, m);
        let f = find_named(&md.enums, n);
        self.push_found(&mut v, f, ItemCategory::Enum, m);
        let f = find_named(&md.traits, n);
        self.push_found(&mut v, f, ItemCategory::Trait, m);
        let f = find_named(&md.type_aliases, n);
        self.push_found(&mut v, f, ItemCategory::TypeAlias, m);
        let f = find_named(&md.functions, n);
        self.push_found(&mut v, f, ItemCategory::Function, m);
        let f = find_named(&md.macros, n);
        self.push_found(&mut v, f, ItemCategory::Macro, m);
        proof {
            assert(v@ =~= members_named(mods, m as int, n@));
        }
        v
    }
    /// The visibility that the target was declared with.
    pub fn vis_of(&self, t: Target) -> (r: &RustVisibility)
        requires
            target_in_tree(self.modules@, t),
        ensures
            *r == target_vis(self.modules@, t),
    {
        let md = &self.modules[t.module];
        match t.category {
            ItemCategory::Module => &self.modules[t.index].visibility,
            ItemCategory::Struct => &md.structs[t.index].visibility,
            ItemCategory::Enum => &md.enums[t.index].visibility,
            ItemCategory::Trait => &md.traits[t.index].visibility,
            ItemCategory::TypeAlias => &md.type_aliases[t.index].visibility,
            ItemCategory::Function => &md.functions[t.index].visibility,
            ItemCategory::Macro => &md.macros[t.index].visibility,
        }
    }

    /// The members named by the last segment of `path` in the module that
    /// the other segments lead to from `s`.
    fn direct_members(&self, s: usize, path: &Vec<String>) -> (r: Vec<Target>)
        requires
            self.wf(),
            s < self.modules@.len(),
        ensures
            r@ == direct_candidates(self.modules@, s as int, views(path@)),
            all_in_tree(self.modules@, r@),
    {
        if path.len() == 0 {
            return Vec::new();
        }
        let last = path.len() - 1;
        proof {
            assert(views(path@).drop_last() =~= views(path@).subrange(0, last as int));
            assert(views(path@).last() == path@[last as int]@);
        }
        match self.walk_prefix(s, path, last) {
            Some(m) => self.members_at(m, &path[last]),
            None => Vec::new(),
        }
    }

    /// The candidates for `path` in scope module `s` alone.
    fn scope_members(&self, s: usize, path: &Vec<String>) -> (r: Vec<Target>)
        requires
            self.wf(),
            s < self.modules@.len(),
            path@.len() > 0,
        ensures
            r@ == scope_candidates(self.modules@, s as int, views(path@)),
            all_in_tree(self.modules@, r@),
    {
        let ghost mods = self.modules@;
        let mut r = self.direct_members(s, path);
        let aliases = &self.modules[s].use_aliases;
        proof {
            assert(views(path@)[0] == path@[0]@);
        }
        match find_named(aliases, &path[0]) {
            Some(i) => {
                let target = &aliases[i].target;
                let mut full: Vec<String> = Vec::new();
                let mut k: usize = 0;
                while k < target.len()
                    invariant
                        0 <= k <= target@.len(),
                        views(full@) == views(target@).subrange(0, k as int),
                    decreases target.len() - k,
                {
                    let ghost before = full@;
                    full.push(target[k].clone());
                    proof {
                        lemma_views_push(before, target@[k as int]);
                        assert(views(full@) =~= views(target@).subrange(0, k + 1));
                    }
                    k += 1;
                }
                let mut k: usize = 1;
                proof {
                    assert(views(target@).subrange(0, target@.len() as int) =~= views(target@));
                    assert(views(path@).subrange(1, 1) =~= Seq::<Seq<char>>::empty());
                    assert(views(full@) =~= views(target@) + views(path@).subrange(1, 1));
                }
                while k < path.len()
                    invariant
                        1 <= k <= path@.len(),
                        views(full@) == views(target@) + views(path@).subrange(1, k as int),
                    decreases path.len() - k,
                {
                    let ghost before = full@;
                    full.push(path[k].clone());
                    proof {
                        lemma_views_push(before, path@[k as int]);
                        assert(views(full@) =~= views(target@) + views(path@).subrange(1, k + 1));
                    }
                    k += 1;
                }
                proof {
                    assert(views(path@).subrange(1, path@.len() as int) =~= views(path@).drop_first());
                    lemma_first_named_some(aliases@, path@[0]@);
                }
                let mut w = self.direct_members(0, &full);
                proof {
                    lemma_all_in_tree_concat(mods, r@, w@);
                }
                let ghost rv = r@;
                let ghost wv = w@;
                r.append(&mut w);
                proof {
                    assert(r@ =~= rv + wv);
                }
            },
            None => {
                proof {
                    assert(r@ =~= r@ + Seq::<Target>::empty());
                }
            },
        }
        r
    }

    /// Looks `path` up from module `from`: first in `from` itself, then in
    /// each ancestor up to the root, where all segments but the last name
    /// submodules; in each such scope its own members come before those
    /// reached through its `use` aliases. Answers the first candidate visible from `from`; fails with
    /// `VisibilityViolation` when candidates exist but none is visible, and
    /// with `NameNotFound` when there are none.
    pub fn resolve(&self, path: &Vec<String>, from: usize) -> (r: Result<Target, ResolveError>)
        requires
            self.wf(),
            from < self.modules@.len(),
        ensures
            r == resolution(self.modules@, from as int, views(path@)),
            r is Ok ==> target_in_tree(self.modules@, r->Ok_0),
    {
        let ghost mods = self.modules@;
        let ghost vp = views(path@);
        if path.len() == 0 {
            proof {
                lemma_candidates_empty_path(mods, from as int, vp);
            }
            return Err(ResolveError::NameNotFound);
        }
        let ghost mut seen: Seq<Target> = Seq::empty();
        let mut any = false;
        let mut s = from;
        loop
            invariant
                mods == self.modules@,
                tree_wf(mods),
                vp == views(path@),
                path@.len() > 0,
                from < mods.len(),
                s < mods.len(),
                candidates(mods, from as int, vp) == seen + candidates(mods, s as int, vp),
                forall|k: int| 0 <= k < seen.len() ==> !target_visible(mods, #[trigger] seen[k], from as int),
                any == (seen.len() > 0),
            decreases s,
        {
            let scope = self.scope_members(s, path);
            let ghost rest = if mods[s as int].parent is Some {
                candidates(mods, mods[s as int].parent->0 as int, vp)
            } else {
                Seq::<Target>::empty()
            };
            proof {
                assert(candidates(mods, s as int, vp) =~= scope@ + rest);
            }
            let mut i: usize = 0;
            while i < scope.len()
                invariant
                    mods == self.modules@,
                    tree_wf(mods),
                    from < mods.len(),
                    all_in_tree(mods, scope@),
                    0 <= i <= scope@.len(),
                    candidates(mods, s as int, vp) == scope@ + rest,
                    vp == views(path@),
                    forall|k: int| 0 <= k < seen.len() ==> !target_visible(mods, #[trigger] seen[k], from as int),
                    candidates(mods, from as int, vp) == seen + candidates(mods, s as int, vp),
                    forall|k: int| 0 <= k < i ==> !target_visible(mods, #[trigger] scope@[k], from as int),
                decreases scope.len() - i,
            {
                let t = scope[i];
                proof {
                    assert(target_in_tree(mods, scope@[i as int]));
                }
                if self.is_visible(self.vis_of(t), t.module, from) {
                    proof {
                        lemma_first_visible_hit(mods, scope@, rest, from as int, i as int);
                        lemma_first_visible_skip(mods, seen, scope@ + rest, from as int);
                        assert(seen + (scope@ + rest) =~= seen + candidates(mods, s as int, vp));
                    }
                    return Ok(t);
                }
                i += 1;
            }
            proof {
                assert forall|k: int| 0 <= k < (seen + scope@).len() implies !target_visible(
                    mods,
                    #[trigger] (seen + scope@)[k],
                    from as int,
                ) by {
                    if k < seen.len() {
                        assert((seen + scope@)[k] == seen[k]);
                    } else {
                        assert((seen + scope@)[k] == scope@[k - seen.len()]);
                    }
                }
                assert(seen + (scope@ + rest) =~= (seen + scope@) + rest);
                seen = seen + scope@;
            }
            any = any || scope.len() > 0;
            match self.modules[s].parent {
                Some(p) => {
                    proof {
                        assert(s >= 1);
                    }
                    s = p;
                },
                None => {
                    proof {
                        assert(rest =~= Seq::<Target>::empty());
                        assert(seen + rest =~= seen);
                        lemma_first_visible_skip(mods, seen, Seq::<Target>::empty(), from as int);
                    }
                    if any {
                        return Err(ResolveError::VisibilityViolation);
                    } else {
                        return Err(ResolveError::NameNotFound);
                    }
                },
            }
        }
    }
}

pub proof fn lemma_walk_in_range(mods: Seq<RustModule>, s: int, segs: Seq<Seq<char>>)
    requires
        tree_wf(mods),
        0 <= s < mods.len(),
        walk(mods, s, segs) is Some,
    ensures
        0 <= walk(mods, s, segs)->0 < mods.len(),
    decreases segs.len(),
{
    if segs.len() > 0 {
        lemma_find_child_some(mods, s, segs[0], mods.len() as int);
        lemma_walk_in_range(mods, child(mods, s, segs[0])->0, segs.drop_first());
    }
}

proof fn lemma_first_visible_is_visible(mods: Seq<RustModule>, cs: Seq<Target>, u: int)
    requires
        first_visible(mods, cs, u) is Some,
    ensures
        target_visible(mods, first_visible(mods, cs, u)->0, u),
    decreases cs.len(),
{
    if cs.len() > 0 && !target_visible(mods, cs[0], u) {
        lemma_first_visible_is_visible(mods, cs.drop_first(), u);
    }
}

/// Inserting a module under `parent_path` and then resolving
/// `parent_path` followed by the module's name from the root gives back
/// that very module, when it is visible from the root (public or crate-wide).
pub proof fn lemma_insert_module_then_resolve(
    before: Seq<RustModule>,
    parent_path: Seq<Seq<char>>,
    module: RustModule,
)
    requires
        tree_wf(before),
        before.len() < usize::MAX,
        walk(before, 0, parent_path) is Some,
        child(before, walk(before, 0, parent_path)->0, module.name@) is None,
        module.visibility is Public || module.visibility is Crate,
    ensures
        ({
            let p = walk(before, 0, parent_path)->0;
            let after = before.push(
                RustModule { parent: Some(p as usize), is_root_module: false, ..module },
            );
            resolution(after, 0, parent_path.push(module.name@)) == Ok::<Target, ResolveError>(
                Target {
                    category: ItemCategory::Module,
                    module: p as usize,
                    index: before.len() as usize,
                },
            )
        }),
{
    let p = walk(before, 0, parent_path)->0;
    lemma_walk_in_range(before, 0, parent_path);
    let m = RustModule { parent: Some(p as usize), is_root_module: false, ..module };
    let after = before.push(m);
    let path = parent_path.push(module.name@);
    assert(path.drop_last() =~= parent_path);
    lemma_walk_push(before, m, 0, parent_path);
    assert(after[0] == before[0]);
    assert(after[before.len() as int] == m);
    assert(find_child(after, p, module.name@, after.len() as int) == Some(before.len() as int));
    let t = Target { category: ItemCategory::Module, module: p as usize, index: before.len() as usize };
    let cs = candidates(after, 0, path);
    assert(cs == scope_candidates(after, 0, path));
    assert(cs[0] == t);
    assert(target_visible(after, t, 0));
}

/// An item declared private in module `m` is never the answer of `resolve`
/// from a module outside `m`'s subtree, however long the path.
pub proof fn lemma_private_unreachable(mods: Seq<RustModule>, u: int, path: Seq<Seq<char>>)
    requires
        tree_wf(mods),
        0 <= u < mods.len(),
    ensures
        match resolution(mods, u, path) {
            Ok(t) => target_vis(mods, t) is Private ==> in_subtree(mods, t.module as int, u),
            Err(_) => true,
        },
{
    let cs = candidates(mods, u, path);
    if first_visible(mods, cs, u) is Some {
        lemma_first_visible_is_visible(mods, cs, u);
    }
}

} // verus!
