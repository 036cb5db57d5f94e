use vstd::prelude::*;
use crate::entities::RustVisibility;
use crate::items::RustItem;
use crate::module::{
    categories_unique, child, find_child, in_subtree, tree_wf, views, visible, walk, ModuleTree,
    RustModule, TreeError,
};
use crate::naming::{all_names_unique, find_named, names_unique, Named};

verus! {

pub proof fn lemma_find_child_some(mods: Seq<RustModule>, p: int, n: Seq<char>, k: int)
    requires
        find_child(mods, p, n, k) is Some,
    ensures
        0 <= find_child(mods, p, n, k)->0 < k <= mods.len(),
        mods[find_child(mods, p, n, k)->0].parent is Some,
        mods[find_child(mods, p, n, k)->0].parent->0 as int == p,
        mods[find_child(mods, p, n, k)->0].name@ == n,
    decreases k,
{
    if k > 0 && k <= mods.len() && !(mods[k - 1].parent is Some && mods[k - 1].parent->0 as int
        == p && mods[k - 1].name@ == n) {
        lemma_find_child_some(mods, p, n, k - 1);
    }
}

pub proof fn lemma_find_child_none(mods: Seq<RustModule>, p: int, n: Seq<char>, k: int)
    requires
        find_child(mods, p, n, k) is None,
        0 <= k <= mods.len(),
    ensures
        forall|j: int|
            0 <= j < k ==> !((#[trigger] mods[j]).parent is Some && mods[j].parent->0 as int == p
                && mods[j].name@ == n),
    decreases k,
{
    if k > 0 {
        lemma_find_child_none(mods, p, n, k - 1);
    }
}

/// Adding a module at the end keeps every submodule lookup that succeeded before.
pub proof fn lemma_find_child_push(
    mods: Seq<RustModule>,
    m: RustModule,
    p: int,
    n: Seq<char>,
    k: int,
)
    requires
        0 <= k <= mods.len(),
    ensures
        find_child(mods.push(m), p, n, k) == find_child(mods, p, n, k),
    decreases k,
{
    if k > 0 {
        assert(mods.push(m)[k - 1] == mods[k - 1]);
        lemma_find_child_push(mods, m, p, n, k - 1);
    }
}

pub proof fn lemma_walk_push(mods: Seq<RustModule>, m: RustModule, s: int, segs: Seq<Seq<char>>)
    requires
        walk(mods, s, segs) is Some,
        m.parent is Some ==> child(mods, m.parent->0 as int, m.name@) is None,
    ensures
        walk(mods.push(m), s, segs) == walk(mods, s, segs),
    decreases segs.len(),
{
    if segs.len() > 0 {
        let c = child(mods, s, segs[0]);
        lemma_find_child_push(mods, m, s, segs[0], mods.len() as int);
        let np = mods.push(m);
        assert(np[mods.len() as int] == m);
        assert(child(np, s, segs[0]) == c);
        lemma_walk_push(mods, m, c->0, segs.drop_first());
    }
}

/// Following one more name after `segs` takes the submodule of that name.
pub proof fn lemma_walk_step(mods: Seq<RustModule>, s: int, segs: Seq<Seq<char>>, n: Seq<char>)
    ensures
        walk(mods, s, segs.push(n)) == match walk(mods, s, segs) {
            Some(m) => child(mods, m, n),
            None => None,
        },
    decreases segs.len(),
{
    if segs.len() > 0 {
        assert(segs.push(n).drop_first() =~= segs.drop_first().push(n));
        assert(segs.push(n)[0] == segs[0]);
        match child(mods, s, segs[0]) {
            Some(c) => {
                lemma_walk_step(mods, c, segs.drop_first(), n);
                assert(walk(mods, s, segs.push(n)) == walk(mods, c, segs.drop_first().push(n)));
                assert(walk(mods, s, segs) == walk(mods, c, segs.drop_first()));
            },
            None => {
                assert(walk(mods, s, segs.push(n)) is None);
            },
        }
    } else {
        let one = segs.push(n);
        assert(one.drop_first() =~= Seq::<Seq<char>>::empty());
        assert(one[0] == n);
        assert(walk(mods, s, segs) == Some(s));
        match child(mods, s, n) {
            Some(c) => {
                assert(walk(mods, c, one.drop_first()) == Some(c));
            },
            None => {},
        }
    }
}

/// A walk that succeeds succeeds on every prefix of its path.
pub proof fn lemma_walk_prefix(mods: Seq<RustModule>, s: int, segs: Seq<Seq<char>>, k: int)
    requires
        walk(mods, s, segs) is Some,
        0 <= k <= segs.len(),
    ensures
        walk(mods, s, segs.subrange(0, k)) is Some,
    decreases segs.len(),
{
    if k > 0 {
        let c = child(mods, s, segs[0])->0;
        assert(segs.subrange(0, k)[0] == segs[0]);
        assert(segs.subrange(0, k).drop_first() =~= segs.drop_first().subrange(0, k - 1));
        lemma_walk_prefix(mods, c, segs.drop_first(), k - 1);
    } else {
        assert(segs.subrange(0, 0) =~= Seq::<Seq<char>>::empty());
    }
}

/// Module `k` is the one that some non-empty prefix of `path` leads to
/// from the root.
pub open spec fn on_prefix(mods: Seq<RustModule>, path: Seq<Seq<char>>, k: int) -> bool {
    exists|j: int| 0 <= j < path.len() && #[trigger] walk(mods, 0, path.subrange(0, j + 1)) == Some(k)
}

/// Module `k` is the one that a prefix of `path`, of at most `i` names and
/// at least one, leads to from the root.
pub open spec fn reached_within(mods: Seq<RustModule>, path: Seq<Seq<char>>, i: int, k: int) -> bool {
    exists|j: int| 0 <= j < i && #[trigger] walk(mods, 0, path.subrange(0, j + 1)) == Some(k)
}

/// The slot that `item` would take in `m` already holds its name.
pub open spec fn slot_taken(m: RustModule, item: RustItem) -> bool {
    match item {
        RustItem::Struct(x) => exists|i: int|
            0 <= i < m.structs@.len() && (#[trigger] m.structs@[i]).spec_name() == x.spec_name(),
        RustItem::Enum(x) => exists|i: int|
            0 <= i < m.enums@.len() && (#[trigger] m.enums@[i]).spec_name() == x.spec_name(),
        RustItem::Trait(x) => exists|i: int|
            0 <= i < m.traits@.len() && (#[trigger] m.traits@[i]).spec_name() == x.spec_name(),
        RustItem::TypeAlias(x) => exists|i: int|
            0 <= i < m.type_aliases@.len() && (#[trigger] m.type_aliases@[i]).spec_name()
                == x.spec_name(),
        RustItem::Function(x) => exists|i: int|
            0 <= i < m.functions@.len() && (#[trigger] m.functions@[i]).spec_name()
                == x.spec_name(),
        RustItem::Macro(x) => exists|i: int|
            0 <= i < m.macros@.len() && (#[trigger] m.macros@[i]).spec_name() == x.spec_name(),
        RustItem::Impl(_) => false,
    }
}

/// `new_m` is `old_m` with `item` appended to its category and nothing else changed.
pub open spec fn inserted(old_m: RustModule, new_m: RustModule, item: RustItem) -> bool {
    match item {
        RustItem::Struct(x) => new_m.structs@ == old_m.structs@.push(x) && (RustModule {
            structs: new_m.structs,
            ..old_m
        }) == new_m,
        RustItem::Enum(x) => new_m.enums@ == old_m.enums@.push(x) && (RustModule {
            enums: new_m.enums,
            ..old_m
        }) == new_m,
        RustItem::Trait(x) => new_m.traits@ == old_m.traits@.push(x) && (RustModule {
            traits: new_m.traits,
            ..old_m
        }) == new_m,
        RustItem::Impl(x) => new_m.impls@ == old_m.impls@.push(x) && (RustModule {
            impls: new_m.impls,
            ..old_m
        }) == new_m,
        RustItem::TypeAlias(x) => new_m.type_aliases@ == old_m.type_aliases@.push(x) && (
        RustModule { type_aliases: new_m.type_aliases, ..old_m }) == new_m,
        RustItem::Function(x) => new_m.functions@ == old_m.functions@.push(x) && (RustModule {
            functions: new_m.functions,
            ..old_m
        }) == new_m,
        RustItem::Macro(x) => new_m.macros@ == old_m.macros@.push(x) && (RustModule {
            macros: new_m.macros,
            ..old_m
        }) == new_m,
    }
}

proof fn lemma_push_unique<T: Named>(s: Seq<T>, x: T)
    requires
        names_unique(s),
        forall|i: int| 0 <= i < s.len() ==> (#[trigger] s[i]).spec_name() != x.spec_name(),
    ensures
        names_unique(s.push(x)),
{
    let t = s.push(x);
    assert forall|i: int, j: int| 0 <= i < j < t.len() implies #[trigger] t[i].spec_name()
        != #[trigger] t[j].spec_name() by {
        if j == s.len() {
            assert(t[i] == s[i]);
        } else {
            assert(t[i] == s[i] && t[j] == s[j]);
        }
    }
}

/// Whether item names are unique within each category of `m`.
pub fn module_items_unique(m: &RustModule) -> (r: bool)
    ensures
        r == categories_unique(*m),
{
    all_names_unique(&m.structs) && all_names_unique(&m.enums) && all_names_unique(&m.traits)
        && all_names_unique(&m.type_aliases) && all_names_unique(&m.functions)
        && all_names_unique(&m.macros)
}

impl ModuleTree {
    /// Whether the tree is well formed (see `tree_wf`): a root module at
    /// index 0, every other module below an earlier one, sibling modules and
    /// items of one category named apart.
    pub fn is_well_formed(&self) -> (r: bool)
        ensures
            r == self.wf(),
    {
        let n = self.modules.len();
        if n == 0 || self.modules[0].parent.is_some() || !self.modules[0].is_root_module {
            return false;
        }
        let mut i: usize = 0;
        while i < n
            invariant
                n == self.modules@.len(),
                n >= 1,
                self.modules@[0].parent is None,
                self.modules@[0].is_root_module,
                0 <= i <= n,
                forall|k: int| 0 <= k < i ==> categories_unique(#[trigger] self.modules@[k]),
                forall|k: int|
                    1 <= k < i ==> (#[trigger] self.modules@[k]).parent is Some && (self.modules@[k].parent->0 as int)
                        < k && !self.modules@[k].is_root_module,
                forall|a: int, b: int|
                    1 <= a < i && a < b < n && (#[trigger] self.modules@[a]).parent
                        == (#[trigger] self.modules@[b]).parent ==> self.modules@[a].name@ != self.modules@[b].name@,
            decreases n - i,
        {
            let m = &self.modules[i];
            if !module_items_unique(m) {
                return false;
            }
            if i >= 1 {
                match m.parent {
                    Some(p) => {
                        if p >= i {
                            return false;
                        }
                    },
                    None => {
                        return false;
                    },
                }
                if m.is_root_module {
                    return false;
                }
                let mut j: usize = i + 1;
                while j < n
                    invariant
                        n == self.modules@.len(),
                        1 <= i < n,
                        m == self.modules@[i as int],
                        i + 1 <= j <= n,
                        forall|b: int|
                            i < b < j && m.parent == (#[trigger] self.modules@[b]).parent ==> m.name@
                                != self.modules@[b].name@,
                    decreases n - j,
                {
                    if self.modules[j].parent == m.parent && self.modules[j].name == m.name {
                        return false;
                    }
                    j += 1;
                }
            }
            i += 1;
        }
        true
    }

    /// The submodule of `p` named `n`.
    pub fn child_of(&self, p: usize, n: &String) -> (r: Option<usize>)
        ensures
            match r {
                Some(c) => child(self.modules@, p as int, n@) == Some(c as int) && c
                    < self.modules@.len(),
                None => child(self.modules@, p as int, n@) is None,
            },
    {
        let ghost mods = self.modules@;
        let mut k: usize = self.modules.len();
        while k > 0
            invariant
                k <= mods.len(),
                mods == self.modules@,
                child(mods, p as int, n@) == find_child(mods, p as int, n@, k as int),
            decreases k,
        {
            let m = &self.modules[k - 1];
            if m.parent == Some(p) && m.name == *n {
                return Some(k - 1);
            }
            k -= 1;
        }
        None
    }

    /// The module reached from `s` by following the submodule names `segs`.
    pub fn walk_from(&self, s: usize, segs: &Vec<String>) -> (r: Option<usize>)
        requires
            s < self.modules@.len(),
        ensures
            match r {
                Some(c) => walk(self.modules@, s as int, views(segs@)) == Some(c as int) && c
                    < self.modules@.len(),
                None => walk(self.modules@, s as int, views(segs@)) is None,
            },
    {
        let r = self.walk_prefix(s, segs, segs.len());
        proof {
            assert(views(segs@).subrange(0, segs@.len() as int) =~= views(segs@));
        }
        r
    }

    /// The module reached from `s` by following the first `count` names of `segs`.
    pub fn walk_prefix(&self, s: usize, segs: &Vec<String>, count: usize) -> (r: Option<usize>)
        requires
            s < self.modules@.len(),
            count <= segs@.len(),
        ensures
            match r {
                Some(c) => walk(self.modules@, s as int, views(segs@).subrange(0, count as int))
                    == Some(c as int) && c < self.modules@.len(),
                None => walk(self.modules@, s as int, views(segs@).subrange(0, count as int)) is None,
            },
    {
        let ghost mods = self.modules@;
        let ghost all = views(segs@).subrange(0, count as int);
        let mut cur = s;
        let mut i: usize = 0;
        proof {
            assert(all.subrange(0, all.len() as int) =~= all);
        }
        while i < count
            invariant
                mods == self.modules@,
                all == views(segs@).subrange(0, count as int),
                count <= segs@.len(),
                0 <= i <= count,
                cur < mods.len(),
                walk(mods, s as int, all) == walk(mods, cur as int, all.subrange(i as int, all.len() as int)),
            decreases count - i,
        {
            let ghost rest = all.subrange(i as int, all.len() as int);
            proof {
                assert(rest[0] == all[i as int]);
                assert(all[i as int] == segs@[i as int]@);
                assert(rest.drop_first() =~= all.subrange(i + 1, all.len() as int));
            }
            match self.child_of(cur, &segs[i]) {
                Some(c) => {
                    cur = c;
                },
                None => {
                    return None;
                },
            }
            i += 1;
        }
        proof {
            assert(all.subrange(i as int, all.len() as int) =~= Seq::<Seq<char>>::empty());
        }
        Some(cur)
    }

    /// Whether module `u` is `a` or lies below it.
    pub fn is_within(&self, a: usize, u: usize) -> (r: bool)
        requires
            self.wf(),
            u < self.modules@.len(),
        ensures
            r == in_subtree(self.modules@, a as int, u as int),
    {
        let ghost mods = self.modules@;
        let mut cur = u;
        loop
            invariant
                mods == self.modules@,
                tree_wf(mods),
                cur < mods.len(),
                in_subtree(mods, a as int, u as int) == in_subtree(mods, a as int, cur as int),
            decreases cur,
        {
            if cur == a {
                return true;
            }
            match self.modules[cur].parent {
                Some(p) => {
                    proof {
                        assert(cur >= 1);
                    }
                    cur = p;
                },
                None => {
                    return false;
                },
            }
        }
    }

    /// Whether an item of visibility `vis` declared in module `def` is visible from `u`.
    pub fn is_visible(&self, vis: &RustVisibility, def: usize, u: usize) -> (r: bool)
        requires
            self.wf(),
            def < self.modules@.len(),
            u < self.modules@.len(),
        ensures
            r == visible(self.modules@, *vis, def as int, u as int),
    {
        match vis {
            RustVisibility::Public => true,
            RustVisibility::Crate => true,
            RustVisibility::Private => self.is_within(def, u),
            RustVisibility::Super => match self.modules[def].parent {
                Some(p) => self.is_within(p, u),
                None => self.is_within(def, u),
            },
            RustVisibility::InPath(path) => match self.walk_from(0, path) {
                Some(t) => self.is_within(t, u),
                None => false,
            },
        }
    }

    /// Places `module` as a submodule of the module at `parent_path` (from
    /// the root) and returns its index.
    ///
    /// Fails with `PathNotFound` when no module stands at `parent_path`, and
    /// with `DuplicateName` when that module already has a submodule of the
    /// same name or when `module` itself holds two items of one category
    /// under one name; the tree is then unchanged.
    pub fn insert_module(&mut self, parent_path: &Vec<String>, module: RustModule) -> (r: Result<
        usize,
        TreeError,
    >)
        requires
            old(self).wf(),
        ensures
            final(self).wf(),
            match walk(old(self).modules@, 0, views(parent_path@)) {
                None => r == Err::<usize, TreeError>(TreeError::PathNotFound) && *final(self)
                    == *old(self),
                Some(p) => if child(old(self).modules@, p, module.name@) is Some || !categories_unique(
                    module,
                ) {
                    r == Err::<usize, TreeError>(TreeError::DuplicateName) && *final(self)
                        == *old(self)
                } else {
                    r == Ok::<usize, TreeError>(old(self).modules@.len() as usize)
                        && final(self).modules@ == old(self).modules@.push(
                        RustModule { parent: Some(p as usize), is_root_module: false, ..module },
                    )
                },
            },
    {
        let p = match self.walk_from(0, parent_path) {
            Some(p) => p,
            None => {
                return Err(TreeError::PathNotFound);
            },
        };
        if self.child_of(p, &module.name).is_some() || !module_items_unique(&module) {
            return Err(TreeError::DuplicateName);
        }
        Ok(self.push_child(p, module))
    }


    /// Appends `module` as a child of module `p`, which has no child of that name.
    fn push_child(&mut self, p: usize, module: RustModule) -> (idx: usize)
        requires
            old(self).wf(),
            p < old(self).modules@.len(),
            child(old(self).modules@, p as int, module.name@) is None,
            categories_unique(module),
        ensures
            final(self).wf(),
            idx == old(self).modules@.len(),
            final(self).modules@ == old(self).modules@.push(
                RustModule { parent: Some(p), is_root_module: false, ..module },
            ),
    {
        let ghost old_mods = self.modules@;
        proof {
            lemma_find_child_none(old_mods, p as int, module.name@, old_mods.len() as int);
        }
        let idx = self.modules.len();
        let mut module = module;
        module.parent = Some(p);
        module.is_root_module = false;
        self.modules.push(module);
        proof {
            let mods = self.modules@;
            assert(mods[idx as int] == module);
            assert forall|i: int, j: int|
                1 <= i < j < mods.len() && (#[trigger] mods[i]).parent == (#[trigger] mods[j]).parent
                implies mods[i].name@ != mods[j].name@ by {
                if j == idx {
                    assert(mods[i] == old_mods[i]);
                } else {
                    assert(mods[i] == old_mods[i] && mods[j] == old_mods[j]);
                }
            }
            assert forall|i: int| 0 <= i < mods.len() implies categories_unique(
                #[trigger] mods[i],
            ) by {
                if i < idx {
                    assert(mods[i] == old_mods[i]);
                }
            }
            assert forall|i: int| 1 <= i < mods.len() implies (#[trigger] mods[i]).parent is Some
                && (mods[i].parent->0 as int) < i && !mods[i].is_root_module by {
                if i < idx {
                    assert(mods[i] == old_mods[i]);
                }
            }
        }
        idx
    }

    /// Places `item` in the module at `at_path` (from the root).
    ///
    /// Fails with `PathNotFound` when no module stands there, and with
    /// `DuplicateName` when the item's category in that module already holds
    /// its name; the tree is then unchanged. Impls have no name and are
    /// always added.
    pub fn insert_item(&mut self, at_path: &Vec<String>, item: RustItem) -> (r: Result<
        (),
        TreeError,
    >)
        requires
            old(self).wf(),
        ensures
            final(self).wf(),
            match walk(old(self).modules@, 0, views(at_path@)) {
                None => r == Err::<(), TreeError>(TreeError::PathNotFound) && *final(self)
                    == *old(self),
                Some(m) => if slot_taken(old(self).modules@[m], item) {
                    r == Err::<(), TreeError>(TreeError::DuplicateName) && *final(self)
                        == *old(self)
                } else {
                    &&& r is Ok
                    &&& final(self).modules@.len() == old(self).modules@.len()
                    &&& forall|j: int|
                        0 <= j < old(self).modules@.len() && j != m ==> #[trigger] final(self).modules@[j]
                            == old(self).modules@[j]
                    &&& inserted(old(self).modules@[m], final(self).modules@[m], item)
                },
            },
    {
        let m = match self.walk_from(0, at_path) {
            Some(m) => m,
            None => {
                return Err(TreeError::PathNotFound);
            },
        };
        let ghost old_mods = self.modules@;
        match item {
            RustItem::Struct(x) => {
                if find_named(&self.modules[m].structs, &x.name).is_some() {
                    return Err(TreeError::DuplicateName);
                }
                proof {
                    lemma_push_unique(self.modules@[m as int].structs@, x);
                }
                self.modules[m].structs.push(x);
            },
            RustItem::Enum(x) => {
                if find_named(&self.modules[m].enums, &x.name).is_some() {
                    return Err(TreeError::DuplicateName);
                }
                proof {
                    lemma_push_unique(self.modules@[m as int].enums@, x);
                }
                self.modules[m].enums.push(x);
            },
            RustItem::Trait(x) => {
                if find_named(&self.modules[m].traits, &x.name).is_some() {
                    return Err(TreeError::DuplicateName);
                }
                proof {
                    lemma_push_unique(self.modules@[m as int].traits@, x);
                }
                self.modules[m].traits.push(x);
            },
            RustItem::TypeAlias(x) => {
                if find_named(&self.modules[m].type_aliases, &x.name).is_some() {
                    return Err(TreeError::DuplicateName);
                }
                proof {
                    lemma_push_unique(self.modules@[m as int].type_aliases@, x);
                }
                self.modules[m].type_aliases.push(x);
            },
            RustItem::Function(x) => {
                if find_named(&self.modules[m].functions, &x.name).is_some() {
                    return Err(TreeError::DuplicateName);
                }
                proof {
                    lemma_push_unique(self.modules@[m as int].functions@, x);
                }
                self.modules[m].functions.push(x);
            },
            RustItem::Macro(x) => {
                if find_named(&self.modules[m].macros, &x.name).is_some() {
                    return Err(TreeError::DuplicateName);
                }
                proof {
                    lemma_push_unique(self.modules@[m as int].macros@, x);
                }
                self.modules[m].macros.push(x);
            },
            RustItem::Impl(x) => {
                self.modules[m].impls.push(x);
            },
        }
        proof {
            let mods = self.modules@;
            assert forall|i: int| 0 <= i < mods.len() implies categories_unique(
                #[trigger] mods[i],
            ) by {
                if i != m {
                    assert(mods[i] == old_mods[i]);
                }
            }
            assert forall|i: int| 1 <= i < mods.len() implies (#[trigger] mods[i]).parent is Some
                && (mods[i].parent->0 as int) < i && !mods[i].is_root_module by {
                assert(mods[i].parent == old_mods[i].parent);
            }
            assert forall|i: int, j: int|
                1 <= i < j < mods.len() && (#[trigger] mods[i]).parent == (#[trigger] mods[j]).parent
                implies mods[i].name@ != mods[j].name@ by {
                assert(mods[i].name == old_mods[i].name && mods[j].name == old_mods[j].name);
                assert(mods[i].parent == old_mods[i].parent && mods[j].parent
                    == old_mods[j].parent);
            }
        }
        Ok(())
    }

    /// The module at `path` from the root, creating each missing module on
    /// the way as an empty public submodule. Modules already there are kept
    /// as they are, and every module added is one that a prefix of `path`
    /// leads to.
    pub fn ensure_path(&mut self, path: &Vec<String>) -> (r: usize)
        requires
            old(self).wf(),
        ensures
            final(self).wf(),
            walk(final(self).modules@, 0, views(path@)) == Some(r as int),
            r < final(self).modules@.len(),
            final(self).modules@.len() >= old(self).modules@.len(),
            final(self).modules@.subrange(0, old(self).modules@.len() as int) == old(self).modules@,
            walk(old(self).modules@, 0, views(path@)) is Some ==> final(self).modules@ == old(self).modules@,
            forall|k: int|
                old(self).modules@.len() <= k < final(self).modules@.len() ==> #[trigger] on_prefix(
                    final(self).modules@,
                    views(path@),
                    k,
                ),
    {
        let ghost orig = self.modules@;
        let ghost vp = views(path@);
        let mut cur: usize = 0;
        let mut i: usize = 0;
        proof {
            assert(vp.subrange(0, 0) =~= Seq::<Seq<char>>::empty());
            assert(orig.subrange(0, orig.len() as int) =~= orig);
        }
        while i < path.len()
            invariant
                self.wf(),
                vp == views(path@),
                0 <= i <= path@.len(),
                cur < self.modules@.len(),
                walk(self.modules@, 0, vp.subrange(0, i as int)) == Some(cur as int),
                self.modules@.len() >= orig.len(),
                self.modules@.subrange(0, orig.len() as int) == orig,
                (walk(orig, 0, vp) is Some ==> self.modules@ == orig && walk(orig, 0, vp.subrange(0, i as int))
                    is Some),
                forall|k: int|
                    orig.len() <= k < self.modules@.len() ==> #[trigger] reached_within(self.modules@, vp, i as int, k),
            decreases path.len() - i,
        {
            let ghost before = self.modules@;
            let ghost pre = vp.subrange(0, i as int);
            let ghost next = vp.subrange(0, i + 1);
            proof {
                assert(vp[i as int] == path@[i as int]@);
                lemma_walk_step(before, 0, pre, vp[i as int]);
                assert(pre.push(vp[i as int]) =~= next);
                if walk(orig, 0, vp) is Some {
                    lemma_walk_prefix(orig, 0, vp, i + 1);
                }
            }
            match self.child_of(cur, &path[i]) {
                Some(c) => {
                    proof {
                        assert forall|k: int| orig.len() <= k < self.modules@.len() implies #[trigger] reached_within(
                            self.modules@,
                            vp,
                            i + 1,
                            k,
                        ) by {
                            assert(reached_within(self.modules@, vp, i as int, k));
                            let j = choose|j: int|
                                0 <= j < i && #[trigger] walk(self.modules@, 0, vp.subrange(0, j + 1)) == Some(k);
                            assert(0 <= j < i + 1);
                        }
                    }
                    cur = c;
                },
                None => {
                    let mut m = RustModule::new(path[i].clone());
                    m.visibility = RustVisibility::Public;
                    let idx = self.push_child(cur, m);
                    proof {
                        let added = self.modules@[idx as int];
                        lemma_walk_push(before, added, 0, pre);
                        assert(self.modules@ == before.push(added));
                        assert(find_child(self.modules@, cur as int, vp[i as int], self.modules@.len() as int)
                            == Some(idx as int));
                        lemma_walk_step(self.modules@, 0, pre, vp[i as int]);
                        assert(self.modules@.subrange(0, orig.len() as int) =~= before.subrange(0, orig.len() as int));
                        assert forall|k: int| orig.len() <= k < self.modules@.len() implies #[trigger] reached_within(
                            self.modules@,
                            vp,
                            i + 1,
                            k,
                        ) by {
                            if k == idx {
                                assert(walk(self.modules@, 0, vp.subrange(0, i + 1)) == Some(k));
                            } else {
                                assert(reached_within(before, vp, i as int, k));
                                let j = choose|j: int|
                                    0 <= j < i && #[trigger] walk(before, 0, vp.subrange(0, j + 1)) == Some(k);
                                lemma_walk_push(before, added, 0, vp.subrange(0, j + 1));
                                assert(walk(self.modules@, 0, vp.subrange(0, j + 1)) == Some(k));
                            }
                        }
                    }
                    cur = idx;
                },
            }
            i += 1;
        }
        proof {
            assert(vp.subrange(0, path@.len() as int) =~= vp);
            assert forall|k: int| orig.len() <= k < self.modules@.len() implies #[trigger] on_prefix(
                self.modules@,
                vp,
                k,
            ) by {
                assert(reached_within(self.modules@, vp, i as int, k));
            }
        }
        cur
    }
}

} // verus!
