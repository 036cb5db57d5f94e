use vstd::prelude::*;
use crate::entities::SafetyClassification;
use crate::module::ModuleTree;

verus! {

/// A dependency of a crate: a name and, once linked, the identifier (index
/// in the registry) of the loaded crate that it names.
#[derive(Clone, Debug)]
pub struct RustDependency {
    pub name: String,
    /// Not among the crates being analyzed; then `crate_ref` is `None`.
    pub is_external: bool,
    pub crate_ref: Option<usize>,
}

impl RustDependency {
    /// A dependency that refers to crate `crate_ref`, or an external one.
    pub fn new(name: String, crate_ref: Option<usize>) -> (r: Self)
        ensures
            r.name@ == name@,
            r.crate_ref == crate_ref,
            r.is_external == crate_ref.is_none(),
    {
        let is_external = crate_ref.is_none();
        RustDependency { name, is_external, crate_ref }
    }
}

/// A crate with its module tree and its dependencies.
#[derive(Clone, Debug)]
pub struct RustCrate {
    pub name: String,
    pub version: String,
    pub is_lib: bool,
    pub tree: ModuleTree,
    pub edition: String,
    pub features: Vec<String>,
    pub dependencies: Vec<RustDependency>,
}

impl RustCrate {
    /// The crate's classification: the aggregate of its root module.
    pub fn classification(&self) -> (r: SafetyClassification)
        requires
            self.tree.wf(),
        ensures
            r == self.tree.modules@[0].classification,
    {
        self.tree.modules[0].classification
    }

    /// A binary crate of edition 2021 with no features and no dependencies.
    pub fn new(name: String, version: String, tree: ModuleTree) -> (r: Self)
        ensures
            r.name@ == name@,
            r.version@ == version@,
            r.tree == tree,
            !r.is_lib,
            r.edition@ == "2021"@,
            r.features@.len() == 0,
            r.dependencies@.len() == 0,
    {
        RustCrate {
            name,
            version,
            is_lib: false,
            tree,
            edition: String::from_str("2021"),
            features: Vec::new(),
            dependencies: Vec::new(),
        }
    }
}

/// Why linking stopped.
#[derive(Clone, Debug)]
pub enum LinkError {
    /// The chain of crate names that closes a dependency cycle, its first
    /// repeated crate last.
    CyclicDependency(Vec<String>),
}

/// The loaded crates; a crate's identifier is its index.
#[derive(Clone, Debug)]
pub struct CrateRegistry {
    pub crates: Vec<RustCrate>,
}

/// The names of the crates, in registry order.
pub open spec fn crate_names(crates: Seq<RustCrate>) -> Seq<Seq<char>> {
    crates.map_values(|c: RustCrate| c.name@)
}

/// `i` is the first index of `names` that holds `n`.
pub open spec fn is_first_crate(names: Seq<Seq<char>>, n: Seq<char>, i: int) -> bool {
    0 <= i < names.len() && names[i] == n && forall|k: int| 0 <= k < i ==> #[trigger] names[k] != n
}

/// The identifier of the crate named `n`, the first if several.
pub open spec fn crate_named(crates: Seq<RustCrate>, n: Seq<char>) -> Option<int> {
    let names = crate_names(crates);
    if exists|i: int| is_first_crate(names, n, i) {
        Some(choose|i: int| is_first_crate(names, n, i))
    } else {
        None
    }
}

/// `d` is linked against `crates`: it refers to the crate of its name, or is
/// external when there is none.
pub open spec fn dep_linked(crates: Seq<RustCrate>, d: RustDependency) -> bool {
    &&& d.crate_ref == (match crate_named(crates, d.name@) {
        Some(i) => Some(i as usize),
        None => None::<usize>,
    })
    &&& d.is_external == d.crate_ref.is_none()
}

/// `after` is `before` with each dependency's reference and flag filled in.
pub open spec fn deps_linked(crates: Seq<RustCrate>, before: Seq<RustDependency>, after: Seq<RustDependency>) -> bool {
    &&& after.len() == before.len()
    &&& forall|j: int| 0 <= j < before.len() ==> #[trigger] after[j].name == before[j].name && dep_linked(crates, after[j])
}

/// The crate that dependency `j` of crate `c` refers to, if it refers to a
/// loaded one.
pub open spec fn dep_target(crates: Seq<RustCrate>, c: usize, j: int) -> Option<usize> {
    match crates[c as int].dependencies@[j].crate_ref {
        Some(x) => if (x as int) < crates.len() {
            Some(x)
        } else {
            None
        },
        None => None,
    }
}

/// Depth-first search for a dependency cycle from the crate chain `path`:
/// the dependencies of its last crate are tried in declaration order; one
/// already on the chain closes a cycle, and the chain extended by it is the
/// answer.
pub open spec fn cycle_from(crates: Seq<RustCrate>, path: Seq<usize>) -> Option<Seq<usize>>
    decreases crates.len() + 1 - path.len(), crates[path.last() as int].dependencies@.len() + 1,
{
    if 0 < path.len() <= crates.len() && (path.last() as int) < crates.len() {
        scan_deps(crates, path, 0)
    } else {
        None
    }
}

/// The search of `cycle_from`, from dependency `j` of the chain's last crate on.
pub open spec fn scan_deps(crates: Seq<RustCrate>, path: Seq<usize>, j: int) -> Option<Seq<usize>>
    decreases crates.len() + 1 - path.len(), crates[path.last() as int].dependencies@.len() - j,
{
    let c = path.last();
    if 0 < path.len() <= crates.len() && (c as int) < crates.len() && 0 <= j
        < crates[c as int].dependencies@.len() {
        match dep_target(crates, c, j) {
            Some(x) => if path.contains(x) {
                Some(path.push(x))
            } else {
                match cycle_from(crates, path.push(x)) {
                    Some(ch) => Some(ch),
                    None => scan_deps(crates, path, j + 1),
                }
            },
            None => scan_deps(crates, path, j + 1),
        }
    } else {
        None
    }
}

/// The first cycle found when searching from crate `c`, then `c + 1`, and so on.
pub open spec fn first_cycle(crates: Seq<RustCrate>, c: int) -> Option<Seq<usize>>
    decreases crates.len() - c,
{
    if 0 <= c < crates.len() {
        match cycle_from(crates, seq![c as usize]) {
            Some(ch) => Some(ch),
            None => first_cycle(crates, c + 1),
        }
    } else {
        None
    }
}

proof fn lemma_chain_in_range(crates: Seq<RustCrate>, path: Seq<usize>, j: int)
    requires
        forall|k: int| 0 <= k < path.len() ==> (#[trigger] path[k] as int) < crates.len(),
    ensures
        scan_deps(crates, path, j) is Some ==> forall|k: int|
            0 <= k < scan_deps(crates, path, j)->0.len() ==> (#[trigger] scan_deps(crates, path, j)->0[k] as int) < crates.len(),
    decreases crates.len() + 1 - path.len(), crates[path.last() as int].dependencies@.len() - j,
{
    let c = path.last();
    if 0 < path.len() <= crates.len() && (c as int) < crates.len() && 0 <= j
        < crates[c as int].dependencies@.len() {
        match dep_target(crates, c, j) {
            Some(x) => {
                let p2 = path.push(x);
                assert(cycle_from(crates, p2) == if 0 < p2.len() <= crates.len() && (p2.last() as int)
                    < crates.len() {
                    scan_deps(crates, p2, 0)
                } else {
                    None
                });
                assert forall|k: int| 0 <= k < p2.len() implies (#[trigger] p2[k] as int) < crates.len() by {
                    if k < path.len() {
                        assert(p2[k] == path[k]);
                    }
                }
                if !path.contains(x) {
                    lemma_chain_in_range(crates, p2, 0);
                    lemma_chain_in_range(crates, path, j + 1);
                }
            },
            None => {
                lemma_chain_in_range(crates, path, j + 1);
            },
        }
    }
}

proof fn lemma_cycle_in_range(crates: Seq<RustCrate>, c: int)
    ensures
        first_cycle(crates, c) is Some ==> forall|k: int|
            0 <= k < first_cycle(crates, c)->0.len() ==> (#[trigger] first_cycle(crates, c)->0[k] as int) < crates.len(),
    decreases crates.len() - c,
{
    if 0 <= c < crates.len() {
        lemma_chain_in_range(crates, seq![c as usize], 0);
        lemma_cycle_in_range(crates, c + 1);
    }
}

/// Each crate of `ch` after the first is a dependency of the one before it.
pub open spec fn is_dep_chain(crates: Seq<RustCrate>, ch: Seq<usize>) -> bool {
    forall|i: int| 0 <= i < ch.len() - 1 ==> #[trigger] depends_on(crates, ch[i], ch[i + 1])
}

/// Some dependency of crate `a` refers to crate `b`.
pub open spec fn depends_on(crates: Seq<RustCrate>, a: usize, b: usize) -> bool {
    exists|j: int| 0 <= j < crates[a as int].dependencies@.len() && #[trigger] dep_target(crates, a, j) == Some(b)
}

/// `ch` extends `path` along dependencies and ends on a crate that it
/// already holds: a dependency cycle.
pub open spec fn closes_cycle(crates: Seq<RustCrate>, path: Seq<usize>, ch: Seq<usize>) -> bool {
    &&& ch.len() > path.len()
    &&& ch.subrange(0, path.len() as int) == path
    &&& is_dep_chain(crates, ch)
    &&& ch.drop_last().contains(ch.last())
}

proof fn lemma_scan_sound(crates: Seq<RustCrate>, path: Seq<usize>, j: int)
    requires
        path.len() > 0,
        is_dep_chain(crates, path),
    ensures
        scan_deps(crates, path, j) is Some ==> closes_cycle(crates, path, scan_deps(crates, path, j)->0),
    decreases crates.len() + 1 - path.len(), crates[path.last() as int].dependencies@.len() - j,
{
    let c = path.last();
    if 0 < path.len() <= crates.len() && (c as int) < crates.len() && 0 <= j
        < crates[c as int].dependencies@.len() {
        match dep_target(crates, c, j) {
            Some(x) => {
                let p2 = path.push(x);
                assert(p2.subrange(0, path.len() as int) =~= path);
                assert(depends_on(crates, c, x)) by {
                    assert(dep_target(crates, c, j) == Some(x));
                }
                assert forall|i: int| 0 <= i < p2.len() - 1 implies #[trigger] depends_on(crates, p2[i], p2[i + 1]) by {
                    if i < path.len() - 1 {
                        assert(p2[i] == path[i] && p2[i + 1] == path[i + 1]);
                        assert(depends_on(crates, path[i], path[i + 1]));
                    } else {
                        assert(p2[i] == c && p2[i + 1] == x);
                    }
                }
                assert(is_dep_chain(crates, p2));
                if path.contains(x) {
                    assert(p2.drop_last() =~= path);
                    assert(p2.last() == x);
                } else {
                    assert(cycle_from(crates, p2) == if 0 < p2.len() <= crates.len() && (p2.last() as int)
                        < crates.len() {
                        scan_deps(crates, p2, 0)
                    } else {
                        None
                    });
                    lemma_scan_sound(crates, p2, 0);
                    lemma_scan_sound(crates, path, j + 1);
                    if cycle_from(crates, p2) is Some {
                        let ch = cycle_from(crates, p2)->0;
                        assert(ch.subrange(0, path.len() as int) =~= ch.subrange(0, p2.len() as int).subrange(
                            0,
                            path.len() as int,
                        ));
                    }
                }
            },
            None => {
                lemma_scan_sound(crates, path, j + 1);
            },
        }
    }
}

/// A dependency cycle reported by the search is a genuine one: it starts at
/// some crate, each next crate is a dependency of the previous, and its last
/// crate already occurs earlier in the chain.
pub proof fn lemma_reported_cycle_is_real(crates: Seq<RustCrate>, c: int)
    ensures
        first_cycle(crates, c) is Some ==> closes_cycle(
            crates,
            seq![first_cycle(crates, c)->0[0]],
            first_cycle(crates, c)->0,
        ),
    decreases crates.len() - c,
{
    if 0 <= c < crates.len() {
        let p = seq![c as usize];
        lemma_scan_sound(crates, p, 0);
        lemma_reported_cycle_is_real(crates, c + 1);
        if cycle_from(crates, p) is Some {
            let ch = cycle_from(crates, p)->0;
            assert(ch.subrange(0, 1) == p);
            assert(ch[0] == ch.subrange(0, 1)[0]);
        }
    }
}

fn on_path(path: &Vec<usize>, x: usize) -> (r: bool)
    ensures
        r == path@.contains(x),
{
    let mut i: usize = 0;
    while i < path.len()
        invariant
            0 <= i <= path@.len(),
            forall|k: int| 0 <= k < i ==> path@[k] != x,
        decreases path.len() - i,
    {
        if path[i] == x {
            return true;
        }
        i += 1;
    }
    false
}

fn copy_path(path: &Vec<usize>) -> (r: Vec<usize>)
    ensures
        r@ == path@,
{
    let mut r: Vec<usize> = Vec::new();
    let mut i: usize = 0;
    while i < path.len()
        invariant
            0 <= i <= path@.len(),
            r@ == path@.subrange(0, i as int),
        decreases path.len() - i,
    {
        r.push(path[i]);
        proof {
            assert(r@ =~= path@.subrange(0, i + 1));
        }
        i += 1;
    }
    proof {
        assert(path@.subrange(0, path@.len() as int) =~= path@);
    }
    r
}

impl CrateRegistry {
    /// The cycle search of `cycle_from` on the chain `path`.
    fn search(&self, path: &mut Vec<usize>) -> (r: Option<Vec<usize>>)
        requires
            old(path)@.len() > 0,
            (old(path)@.last() as int) < self.crates@.len(),
        ensures
            final(path)@ == old(path)@,
            match r {
                Some(ch) => cycle_from(self.crates@, old(path)@) == Some(ch@),
                None => cycle_from(self.crates@, old(path)@) is None,
            },
        decreases self.crates@.len() + 1 - old(path)@.len(), self.crates@[old(path)@.last() as int].dependencies@.len() + 1,
    {
        let ghost crates = self.crates@;
        let ghost p0 = path@;
        if path.len() > self.crates.len() {
            return None;
        }
        let c = path[path.len() - 1];
        let deps = &self.crates[c].dependencies;
        let mut j: usize = 0;
        while j < deps.len()
            invariant
                crates == self.crates@,
                path@ == p0,
                p0 == old(path)@,
                0 < p0.len() <= crates.len(),
                c == p0.last(),
                (c as int) < crates.len(),
                deps@ == crates[c as int].dependencies@,
                0 <= j <= deps@.len(),
                cycle_from(crates, p0) == scan_deps(crates, p0, j as int),
            decreases deps.len() - j,
        {
            let target = match deps[j].crate_ref {
                Some(x) => if x < self.crates.len() {
                    Some(x)
                } else {
                    None
                },
                None => None,
            };
            assert(target == dep_target(crates, c, j as int));
            if let Some(x) = target {
                if on_path(path, x) {
                    let mut ch = copy_path(path);
                    ch.push(x);
                    return Some(ch);
                }
                path.push(x);
                let r = self.search(path);
                path.pop();
                proof {
                    assert(path@ =~= p0);
                    assert(p0.push(x).last() == x);
                }
                if r.is_some() {
                    return r;
                }
            }
            j += 1;
        }
        None
    }

    /// Searches every crate's dependencies for a cycle, crate by crate, and
    /// answers the first chain that closes one.
    pub fn find_cycle(&self) -> (r: Option<Vec<usize>>)
        ensures
            match r {
                Some(ch) => first_cycle(self.crates@, 0) == Some(ch@),
                None => first_cycle(self.crates@, 0) is None,
            },
    {
        let mut c: usize = 0;
        while c < self.crates.len()
            invariant
                0 <= c <= self.crates@.len(),
                first_cycle(self.crates@, 0) == first_cycle(self.crates@, c as int),
            decreases self.crates.len() - c,
        {
            let mut path: Vec<usize> = Vec::new();
            path.push(c);
            proof {
                assert(path@ =~= seq![c]);
            }
            let r = self.search(&mut path);
            if r.is_some() {
                return r;
            }
            c += 1;
        }
        None
    }

    /// The identifier of the crate named `n`.
    pub fn crate_index(&self, n: &String) -> (r: Option<usize>)
        ensures
            r == (match crate_named(self.crates@, n@) {
                Some(i) => Some(i as usize),
                None => None::<usize>,
            }),
    {
        let ghost names = crate_names(self.crates@);
        let mut i: usize = 0;
        while i < self.crates.len()
            invariant
                names == crate_names(self.crates@),
                0 <= i <= self.crates@.len(),
                forall|k: int| 0 <= k < i ==> #[trigger] names[k] != n@,
            decreases self.crates.len() - i,
        {
            if self.crates[i].name == *n {
                proof {
                    assert(is_first_crate(names, n@, i as int));
                    let j = choose|j: int| is_first_crate(names, n@, j);
                    if j < i {
                        assert(names[j] != n@);
                    } else if i < j {
                        assert(names[i as int] != n@);
                    }
                }
                return Some(i);
            }
            i += 1;
        }
        proof {
            assert forall|j: int| !is_first_crate(names, n@, j) by {
                if 0 <= j < names.len() {
                    assert(names[j] != n@);
                }
            }
        }
        None
    }

    /// The dependencies of crate `c`, each pointed at the loaded crate of
    /// its name, or made external.
    fn linked_deps(&self, c: usize) -> (r: Vec<RustDependency>)
        requires
            c < self.crates@.len(),
        ensures
            deps_linked(self.crates@, self.crates@[c as int].dependencies@, r@),
    {
        let deps = &self.crates[c].dependencies;
        let mut r: Vec<RustDependency> = Vec::new();
        let mut d: usize = 0;
        while d < deps.len()
            invariant
                deps@ == self.crates@[c as int].dependencies@,
                0 <= d <= deps@.len(),
                r@.len() == d,
                forall|j: int| 0 <= j < d ==> #[trigger] r@[j].name == deps@[j].name && dep_linked(self.crates@, r@[j]),
            decreases deps.len() - d,
        {
            let found = self.crate_index(&deps[d].name);
            let is_external = found.is_none();
            r.push(RustDependency { name: deps[d].name.clone(), is_external, crate_ref: found });
            d += 1;
        }
        r
    }

    /// Points every dependency at the loaded crate of its name; one with no
    /// such crate becomes external, with no reference.
    pub fn link_dependencies(&mut self)
        ensures
            final(self).crates@.len() == old(self).crates@.len(),
            forall|c: int|
                0 <= c < old(self).crates@.len() ==> deps_linked(
                    old(self).crates@,
                    old(self).crates@[c].dependencies@,
                    #[trigger] final(self).crates@[c].dependencies@,
                ),
            forall|c: int|
                0 <= c < old(self).crates@.len() ==> (RustCrate {
                    dependencies: final(self).crates@[c].dependencies,
                    ..old(self).crates@[c]
                }) == #[trigger] final(self).crates@[c],
    {
        let ghost orig = self.crates@;
        let mut all: Vec<Vec<RustDependency>> = Vec::new();
        let mut c: usize = 0;
        while c < self.crates.len()
            invariant
                self.crates@ == orig,
                0 <= c <= orig.len(),
                all@.len() == c,
                forall|k: int| 0 <= k < c ==> deps_linked(orig, orig[k].dependencies@, #[trigger] all@[k]@),
            decreases orig.len() - c,
        {
            all.push(self.linked_deps(c));
            c += 1;
        }
        let mut c: usize = self.crates.len();
        while c > 0
            invariant
                self.crates@.len() == orig.len(),
                0 <= c <= orig.len(),
                all@.len() == c,
                forall|k: int| 0 <= k < c ==> deps_linked(orig, orig[k].dependencies@, #[trigger] all@[k]@),
                forall|k: int| 0 <= k < c ==> #[trigger] self.crates@[k] == orig[k],
                forall|k: int|
                    c <= k < orig.len() ==> deps_linked(orig, orig[k].dependencies@, #[trigger] self.crates@[k].dependencies@)
                        && (RustCrate { dependencies: self.crates@[k].dependencies, ..orig[k] }) == self.crates@[k],
            decreases c,
        {
            c -= 1;
            let deps = all.pop().unwrap();
            self.crates[c].dependencies = deps;
        }
        proof {
            assert forall|k: int| 0 <= k < orig.len() implies (RustCrate {
                dependencies: self.crates@[k].dependencies,
                ..orig[k]
            }) == #[trigger] self.crates@[k] by {
                assert(deps_linked(orig, orig[k].dependencies@, self.crates@[k].dependencies@));
            }
        }
    }

    /// The names of the crates along `ch`.
    fn chain_names(&self, ch: &Vec<usize>) -> (names: Vec<String>)
        requires
            forall|k: int| 0 <= k < ch@.len() ==> (#[trigger] ch@[k] as int) < self.crates@.len(),
        ensures
            names@.len() == ch@.len(),
            forall|k: int| 0 <= k < ch@.len() ==> #[trigger] names@[k]@ == self.crates@[ch@[k] as int].name@,
    {
        let mut names: Vec<String> = Vec::new();
        let mut i: usize = 0;
        while i < ch.len()
            invariant
                0 <= i <= ch@.len(),
                forall|k: int| 0 <= k < ch@.len() ==> (#[trigger] ch@[k] as int) < self.crates@.len(),
                names@.len() == i,
                forall|k: int| 0 <= k < i ==> #[trigger] names@[k]@ == self.crates@[ch@[k] as int].name@,
            decreases ch.len() - i,
        {
            names.push(self.crates[ch[i]].name.clone());
            i += 1;
        }
        names
    }

    /// Links the dependencies of every crate, then checks the dependency
    /// graph for cycles: fails with `CyclicDependency` and the names along the
    /// first chain found (see `first_cycle`) when there is one.
    pub fn link(&mut self) -> (r: Result<(), LinkError>)
        ensures
            final(self).crates@.len() == old(self).crates@.len(),
            forall|c: int|
                0 <= c < old(self).crates@.len() ==> deps_linked(
                    old(self).crates@,
                    old(self).crates@[c].dependencies@,
                    #[trigger] final(self).crates@[c].dependencies@,
                ),
            forall|c: int|
                0 <= c < old(self).crates@.len() ==> (RustCrate {
                    dependencies: final(self).crates@[c].dependencies,
                    ..old(self).crates@[c]
                }) == #[trigger] final(self).crates@[c],
            match first_cycle(final(self).crates@, 0) {
                Some(ch) => match r {
                    Err(LinkError::CyclicDependency(names)) => names@.len() == ch.len() && forall|i: int|
                        0 <= i < ch.len() ==> #[trigger] names@[i]@ == final(self).crates@[ch[i] as int].name@,
                    Ok(_) => false,
                },
                None => r is Ok,
            },
    {
        self.link_dependencies();
        match self.find_cycle() {
            Some(ch) => {
                proof {
                    lemma_cycle_in_range(self.crates@, 0);
                    assert forall|k: int| 0 <= k < ch@.len() implies (#[trigger] ch@[k] as int) < self.crates@.len() by {
                        assert(ch@[k] == first_cycle(self.crates@, 0)->0[k]);
                    }
                }
                let names = self.chain_names(&ch);
                Err(LinkError::CyclicDependency(names))
            },
            None => Ok(()),
        }
    }
}

} // verus!
