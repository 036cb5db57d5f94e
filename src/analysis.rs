use vstd::prelude::*;
use crate::callgraph::{graph_ok, members_ok, CallGraph};
use crate::classify::tree_classified;
use crate::link::{crate_named, crate_names, deps_linked, first_cycle, CrateRegistry, LinkError, RustCrate};

verus! {

/// Why an analysis run produced nothing.
///
/// Cancellation and failures of the front end or the build happen outside
/// this library, before `analyze` is called: the caller reports them.
#[derive(Clone, Debug)]
pub enum AnalysisError {
    /// The analysis level is neither 1 nor 2.
    UnsupportedLevel,
    /// The module tree of this crate (by index) is not well formed: it has
    /// no root module, a module not below an earlier one, or names that
    /// clash within one category.
    MalformedTree(usize),
    /// The crate names along a dependency cycle, its first repeated crate last.
    CyclicDependency(Vec<String>),
}

/// The finished representation: the crates with their classified trees and
/// linked dependencies, and, at level 2, one call graph per crate.
///
/// Issues confined to one call site are non-fatal and recorded against it:
/// a call that finds no target, for instance one whose candidates are all
/// invisible, has an `Unresolved` edge that names the reason.
#[derive(Clone, Debug)]
pub struct Representation {
    pub registry: CrateRegistry,
    pub call_graphs: Vec<CallGraph>,
}

/// Crate `after` is crate `before` classified and linked against `crates`.
pub open spec fn crate_analyzed(crates: Seq<RustCrate>, before: RustCrate, after: RustCrate) -> bool {
    &&& tree_classified(before.tree.modules@, after.tree.modules@)
    &&& deps_linked(crates, before.dependencies@, after.dependencies@)
    &&& after.name == before.name
    &&& after.version == before.version
    &&& after.is_lib == before.is_lib
    &&& after.edition == before.edition
    &&& after.features == before.features
}

/// Each crate of `after` is the crate of `before` classified and linked.
pub open spec fn all_analyzed(before: Seq<RustCrate>, after: Seq<RustCrate>) -> bool {
    after.len() == before.len() && forall|c: int|
        0 <= c < before.len() ==> crate_analyzed(after, before[c], #[trigger] after[c])
}

/// The names along `ch` in `crates`.
pub open spec fn chain_named(crates: Seq<RustCrate>, ch: Seq<usize>, names: Seq<String>) -> bool {
    names.len() == ch.len() && forall|i: int|
        0 <= i < ch.len() ==> #[trigger] names[i]@ == crates[ch[i] as int].name@
}

pub open spec fn all_wf(crates: Seq<RustCrate>) -> bool {
    forall|c: int| 0 <= c < crates.len() ==> (#[trigger] crates[c]).tree.wf()
}

proof fn lemma_link_keeps_names(a: Seq<RustCrate>, b: Seq<RustCrate>)
    requires
        a.len() == b.len(),
        forall|c: int|
            0 <= c < a.len() ==> (RustCrate { dependencies: b[c].dependencies, ..a[c] }) == #[trigger] b[c],
    ensures
        forall|n: Seq<char>| #[trigger] crate_named(a, n) == crate_named(b, n),
{
    assert forall|j: int| 0 <= j < a.len() implies a[j].name == #[trigger] b[j].name by {
        assert((RustCrate { dependencies: b[j].dependencies, ..a[j] }) == b[j]);
    }
    assert(crate_names(a) =~= crate_names(b));
}

impl CrateRegistry {
    /// Classifies the module tree of every crate.
    pub fn classify_trees(&mut self)
        requires
            all_wf(old(self).crates@),
        ensures
            all_wf(final(self).crates@),
            final(self).crates@.len() == old(self).crates@.len(),
            forall|k: int|
                0 <= k < old(self).crates@.len() ==> tree_classified(
                    old(self).crates@[k].tree.modules@,
                    #[trigger] final(self).crates@[k].tree.modules@,
                ),
            forall|k: int|
                0 <= k < old(self).crates@.len() ==> (RustCrate {
                    tree: final(self).crates@[k].tree,
                    ..old(self).crates@[k]
                }) == #[trigger] final(self).crates@[k],
    {
        let ghost orig = self.crates@;
        let mut c: usize = 0;
        while c < self.crates.len()
            invariant
                self.crates@.len() == orig.len(),
                0 <= c <= orig.len(),
                all_wf(self.crates@),
                forall|k: int|
                    0 <= k < c ==> tree_classified(orig[k].tree.modules@, #[trigger] self.crates@[k].tree.modules@),
                forall|k: int|
                    0 <= k < c ==> (RustCrate { tree: self.crates@[k].tree, ..orig[k] }) == #[trigger] self.crates@[k],
                forall|k: int| c <= k < orig.len() ==> #[trigger] self.crates@[k] == orig[k],
            decreases orig.len() - c,
        {
            assert(self.crates@[c as int].tree.wf());
            self.crates[c].tree.classify();
            c += 1;
        }
    }

    /// The call graph of every crate.
    pub fn call_graphs(&self) -> (r: Vec<CallGraph>)
        requires
            all_wf(self.crates@),
        ensures
            r@.len() == self.crates@.len(),
            forall|k: int|
                0 <= k < r@.len() ==> graph_ok(self.crates@[k].tree.modules@, (#[trigger] r@[k]).slots@)
                    && members_ok(self.crates@[k].tree.modules@, r@[k]),
    {
        let mut graphs: Vec<CallGraph> = Vec::new();
        let mut c: usize = 0;
        while c < self.crates.len()
            invariant
                all_wf(self.crates@),
                0 <= c <= self.crates@.len(),
                graphs@.len() == c,
                forall|k: int|
                    0 <= k < c ==> graph_ok(self.crates@[k].tree.modules@, (#[trigger] graphs@[k]).slots@)
                        && members_ok(self.crates@[k].tree.modules@, graphs@[k]),
            decreases self.crates.len() - c,
        {
            assert(self.crates@[c as int].tree.wf());
            graphs.push(self.crates[c].tree.call_edges());
            c += 1;
        }
        graphs
    }
}

/// Crate `i` is the first whose module tree is not well formed.
pub open spec fn first_malformed(crates: Seq<RustCrate>, i: int) -> bool {
    0 <= i < crates.len() && !crates[i].tree.wf() && forall|k: int|
        0 <= k < i ==> (#[trigger] crates[k]).tree.wf()
}

/// What analyzing `crates` at `level` answers.
pub open spec fn analysis_outcome(
    crates: Seq<RustCrate>,
    level: u8,
    r: Result<Representation, AnalysisError>,
) -> bool {
    if level != 1 && level != 2 {
        r is Err && r->Err_0 is UnsupportedLevel
    } else if !all_wf(crates) {
        r is Err && r->Err_0 is MalformedTree && first_malformed(crates, r->Err_0->MalformedTree_0 as int)
    } else {
        match r {
            Ok(rep) => {
                &&& all_analyzed(crates, rep.registry.crates@)
                &&& first_cycle(rep.registry.crates@, 0) is None
                &&& level == 1 ==> rep.call_graphs@.len() == 0
                &&& level == 2 ==> rep.call_graphs@.len() == rep.registry.crates@.len() && forall|c: int|
                    0 <= c < rep.call_graphs@.len() ==> graph_ok(
                        rep.registry.crates@[c].tree.modules@,
                        (#[trigger] rep.call_graphs@[c]).slots@,
                    ) && members_ok(rep.registry.crates@[c].tree.modules@, rep.call_graphs@[c])
            },
            Err(AnalysisError::CyclicDependency(names)) => exists|l: Seq<RustCrate>|
                all_analyzed(crates, l) && #[trigger] first_cycle(l, 0) is Some && chain_named(
                    l,
                    first_cycle(l, 0)->0,
                    names@,
                ),
            Err(_) => false,
        }
    }
}

/// Analyzes a set of crates: classifies every tree, resolves the call sites
/// at level 2, and links the dependencies.
///
/// Fails with `UnsupportedLevel` unless `level` is 1 or 2, with
/// `MalformedTree` for the first crate whose tree is not well formed (a
/// missing root module among others), and with `CyclicDependency` when the
/// linked crates hold a dependency cycle; no partial result is handed out
/// then. Otherwise it succeeds; level 1 yields no call graph.
pub fn analyze(registry: CrateRegistry, level: u8) -> (r: Result<Representation, AnalysisError>)
    ensures
        analysis_outcome(registry.crates@, level, r),
{
    if level != 1 && level != 2 {
        return Err(AnalysisError::UnsupportedLevel);
    }
    let mut i: usize = 0;
    while i < registry.crates.len()
        invariant
            level == 1 || level == 2,
            0 <= i <= registry.crates@.len(),
            forall|k: int| 0 <= k < i ==> (#[trigger] registry.crates@[k]).tree.wf(),
        decreases registry.crates.len() - i,
    {
        if !registry.crates[i].tree.is_well_formed() {
            let r = Err(AnalysisError::MalformedTree(i));
            proof {
                assert(!registry.crates@[i as int].tree.wf());
                assert(!all_wf(registry.crates@));
                assert(first_malformed(registry.crates@, i as int));
            }
            return r;
        }
        i += 1;
    }
    let ghost orig = registry.crates@;
    let mut registry = registry;
    registry.classify_trees();
    let graphs = if level == 2 {
        registry.call_graphs()
    } else {
        Vec::new()
    };
    let ghost classified = registry.crates@;
    let linked = registry.link();
    proof {
        lemma_link_keeps_names(classified, registry.crates@);
        assert forall|k: int| 0 <= k < orig.len() implies crate_analyzed(
            registry.crates@,
            orig[k],
            #[trigger] registry.crates@[k],
        ) by {
            assert(registry.crates@[k].tree == classified[k].tree);
            assert(tree_classified(orig[k].tree.modules@, classified[k].tree.modules@));
            assert(deps_linked(classified, classified[k].dependencies@, registry.crates@[k].dependencies@));
            assert((RustCrate { tree: classified[k].tree, ..orig[k] }) == classified[k]);
            assert((RustCrate { dependencies: registry.crates@[k].dependencies, ..classified[k] })
                == registry.crates@[k]);
            assert(classified[k].dependencies == orig[k].dependencies);
        }
    }
    match linked {
        Err(LinkError::CyclicDependency(names)) => Err(AnalysisError::CyclicDependency(names)),
        Ok(()) => {
            proof {
                assert forall|k: int| 0 <= k < graphs@.len() implies graph_ok(
                    registry.crates@[k].tree.modules@,
                    (#[trigger] graphs@[k]).slots@,
                ) && members_ok(registry.crates@[k].tree.modules@, graphs@[k]) by {
                    assert(registry.crates@[k].tree == classified[k].tree);
                }
            }
            Ok(Representation { registry, call_graphs: graphs })
        },
    }
}

/// The options of one analysis run.
#[derive(Clone, Debug)]
pub struct CodeAnalyzer {
    /// Path to the project root directory.
    pub input: Option<String>,
    /// Paths of the files to analyze.
    pub target_files: Vec<String>,
    /// A single string of source code to analyze instead of the project.
    pub source_analysis: Option<String>,
    /// Directory for the output graphs; standard output when absent.
    pub output: Option<String>,
    /// Custom build command.
    pub build: Option<String>,
    pub no_build: bool,
    pub no_clean_dependencies: bool,
    /// Path to the project's root manifest.
    pub project_root_pom: Option<String>,
    /// 1 for the symbol table and classification, 2 for the call graph too.
    pub analysis_level: u8,
    pub verbose: bool,
}

impl CodeAnalyzer {
    /// Runs the analysis at this run's level on the crates that the front
    /// end produced; the answer is that of `analyze`.
    pub fn run(&self, registry: CrateRegistry) -> (r: Result<Representation, AnalysisError>)
        ensures
            analysis_outcome(registry.crates@, self.analysis_level, r),
    {
        analyze(registry, self.analysis_level)
    }
}

} // verus!
