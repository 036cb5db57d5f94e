use vstd::prelude::*;
use crate::callable::{callable_class, classify_callable, RustCallable};
use crate::entities::{max_class, rank, SafetyClassification};
use crate::items::{RustEnum, RustImpl, RustStruct, RustTrait};
use crate::naming::Named;
use crate::module::{categories_unique, tree_wf, ModuleTree, RustModule};
use crate::safety::SafetyAnalysis;

verus! {

/// Something that the classification pass labels.
pub trait Classify: Sized {
    /// The classification computed from the value's own unsafety signals;
    /// it never reads a stored classification.
    spec fn class_of(&self) -> SafetyClassification;

    /// The classification stored in the value.
    spec fn stored_class(&self) -> SafetyClassification;

    /// `after` is this value with every classification inside it written in,
    /// and nothing else changed.
    spec fn rewritten(&self, after: Self) -> bool;

    /// Every classification stored in this value equals the one in `other`.
    spec fn same_results(&self, other: Self) -> bool;

    proof fn lemma_rewritten(&self, after: Self)
        requires
            self.rewritten(after),
        ensures
            after.class_of() == self.class_of(),
            after.stored_class() == self.class_of(),
    ;

    proof fn lemma_twice(&self, b: Self, c: Self)
        requires
            self.rewritten(b),
            b.rewritten(c),
        ensures
            b.same_results(c),
    ;

    fn classify_in_place(&mut self) -> (r: SafetyClassification)
        ensures
            r == old(self).class_of(),
            old(self).rewritten(*final(self)),
    ;
}

/// The most severe class of the entries of `s`, `Safe` when there are none.
pub open spec fn max_of<T: Classify>(s: Seq<T>) -> SafetyClassification
    decreases s.len(),
{
    if s.len() == 0 {
        SafetyClassification::Safe
    } else {
        max_class(max_of(s.drop_last()), s.last().class_of())
    }
}

pub open spec fn all_rewritten<T: Classify>(a: Seq<T>, b: Seq<T>) -> bool {
    a.len() == b.len() && forall|k: int| 0 <= k < a.len() ==> (#[trigger] a[k]).rewritten(b[k])
}

pub open spec fn all_same_results<T: Classify>(a: Seq<T>, b: Seq<T>) -> bool {
    a.len() == b.len() && forall|k: int| 0 <= k < a.len() ==> (#[trigger] a[k]).same_results(b[k])
}

pub proof fn lemma_max_of_rewritten<T: Classify>(a: Seq<T>, b: Seq<T>)
    requires
        all_rewritten(a, b),
    ensures
        max_of(b) == max_of(a),
    decreases a.len(),
{
    if a.len() > 0 {
        let k = a.len() - 1;
        assert(a[k].rewritten(b[k]));
        a[k].lemma_rewritten(b[k]);
        assert forall|j: int| 0 <= j < a.drop_last().len() implies (
        #[trigger] a.drop_last()[j]).rewritten(b.drop_last()[j]) by {
            assert(a[j].rewritten(b[j]));
        }
        lemma_max_of_rewritten(a.drop_last(), b.drop_last());
    }
}

pub proof fn lemma_all_twice<T: Classify>(a: Seq<T>, b: Seq<T>, c: Seq<T>)
    requires
        all_rewritten(a, b),
        all_rewritten(b, c),
    ensures
        all_same_results(b, c),
{
    assert forall|k: int| 0 <= k < b.len() implies (#[trigger] b[k]).same_results(c[k]) by {
        assert(a[k].rewritten(b[k]));
        assert(b[k].rewritten(c[k]));
        a[k].lemma_twice(b[k], c[k]);
    }
}

/// Writes the classification of every entry of `v` and returns the most severe.
pub fn classify_all<T: Classify>(v: &mut Vec<T>) -> (r: SafetyClassification)
    ensures
        r == max_of(old(v)@),
        all_rewritten(old(v)@, final(v)@),
{
    let ghost orig = v@;
    let mut acc = SafetyClassification::Safe;
    let mut i: usize = 0;
    while i < v.len()
        invariant
            0 <= i <= v@.len(),
            v@.len() == orig.len(),
            forall|k: int| 0 <= k < i ==> (#[trigger] orig[k]).rewritten(v@[k]),
            forall|k: int| i <= k < orig.len() ==> v@[k] == #[trigger] orig[k],
            acc == max_of(orig.subrange(0, i as int)),
        decreases v.len() - i,
    {
        proof {
            assert(orig.subrange(0, i + 1).drop_last() =~= orig.subrange(0, i as int));
            assert(v@[i as int] == orig[i as int]);
        }
        let c = v[i].classify_in_place();
        acc = acc.max(c);
        i += 1;
    }
    proof {
        assert(orig.subrange(0, orig.len() as int) =~= orig);
    }
    acc
}

/// A struct, enum, trait or impl is `Unsafe` when declared unsafe itself;
/// otherwise it is `UnsafeContainer` as soon as it holds an `Unsafe` or `Ffi`
/// member, and else takes the most severe class of its members.
pub open spec fn container_class(own_unsafe: bool, members: SafetyClassification) -> SafetyClassification {
    if own_unsafe {
        SafetyClassification::Unsafe
    } else if rank(members) >= 2 {
        SafetyClassification::UnsafeContainer
    } else {
        members
    }
}

/// The container rule, given whether the container is declared unsafe and
/// the most severe class among its members.
pub fn container_rule(own_unsafe: bool, members: SafetyClassification) -> (r: SafetyClassification)
    ensures
        r == container_class(own_unsafe, members),
{
    if own_unsafe {
        SafetyClassification::Unsafe
    } else if members.severity() >= 2 {
        SafetyClassification::UnsafeContainer
    } else {
        members
    }
}

/// `c` with its computed classification written in.
pub open spec fn with_class(c: RustCallable) -> RustCallable {
    RustCallable {
        safety_analysis: SafetyAnalysis { classification: callable_class(c), ..c.safety_analysis },
        ..c
    }
}

impl Classify for RustCallable {
    open spec fn class_of(&self) -> SafetyClassification {
        callable_class(*self)
    }

    open spec fn stored_class(&self) -> SafetyClassification {
        self.safety_analysis.classification
    }

    open spec fn rewritten(&self, after: Self) -> bool {
        after == with_class(*self)
    }

    open spec fn same_results(&self, other: Self) -> bool {
        self.safety_analysis.classification == other.safety_analysis.classification
    }

    proof fn lemma_rewritten(&self, after: Self) {
    }

    proof fn lemma_twice(&self, b: Self, c: Self) {
    }

    fn classify_in_place(&mut self) -> (r: SafetyClassification) {
        let c = classify_callable(self);
        self.safety_analysis.classification = c;
        c
    }
}

impl Classify for RustStruct {
    open spec fn class_of(&self) -> SafetyClassification {
        container_class(false, max_of(self.associated_items@))
    }

    open spec fn stored_class(&self) -> SafetyClassification {
        self.classification
    }

    open spec fn rewritten(&self, after: Self) -> bool {
        &&& all_rewritten(self.associated_items@, after.associated_items@)
        &&& after.classification == self.class_of()
        &&& (RustStruct {
            associated_items: after.associated_items,
            classification: after.classification,
            ..*self
        }) == after
    }

    open spec fn same_results(&self, other: Self) -> bool {
        self.classification == other.classification && all_same_results(
            self.associated_items@,
            other.associated_items@,
        )
    }

    proof fn lemma_rewritten(&self, after: Self) {
        lemma_max_of_rewritten(self.associated_items@, after.associated_items@);
    }

    proof fn lemma_twice(&self, b: Self, c: Self) {
        lemma_max_of_rewritten(self.associated_items@, b.associated_items@);
        lemma_all_twice(self.associated_items@, b.associated_items@, c.associated_items@);
    }

    fn classify_in_place(&mut self) -> (r: SafetyClassification) {
        let m = classify_all(&mut self.associated_items);
        let c = container_rule(false, m);
        self.classification = c;
        c
    }
}

impl Classify for RustEnum {
    open spec fn class_of(&self) -> SafetyClassification {
        container_class(false, max_of(self.associated_items@))
    }

    open spec fn stored_class(&self) -> SafetyClassification {
        self.classification
    }

    open spec fn rewritten(&self, after: Self) -> bool {
        &&& all_rewritten(self.associated_items@, after.associated_items@)
        &&& after.classification == self.class_of()
        &&& (RustEnum {
            associated_items: after.associated_items,
            classification: after.classification,
            ..*self
        }) == after
    }

    open spec fn same_results(&self, other: Self) -> bool {
        self.classification == other.classification && all_same_results(
            self.associated_items@,
            other.associated_items@,
        )
    }

    proof fn lemma_rewritten(&self, after: Self) {
        lemma_max_of_rewritten(self.associated_items@, after.associated_items@);
    }

    proof fn lemma_twice(&self, b: Self, c: Self) {
        lemma_max_of_rewritten(self.associated_items@, b.associated_items@);
        lemma_all_twice(self.associated_items@, b.associated_items@, c.associated_items@);
    }

    fn classify_in_place(&mut self) -> (r: SafetyClassification) {
        let m = classify_all(&mut self.associated_items);
        let c = container_rule(false, m);
        self.classification = c;
        c
    }
}

impl Classify for RustTrait {
    open spec fn class_of(&self) -> SafetyClassification {
        container_class(self.is_unsafe, max_of(self.methods@))
    }

    open spec fn stored_class(&self) -> SafetyClassification {
        self.classification
    }

    open spec fn rewritten(&self, after: Self) -> bool {
        &&& all_rewritten(self.methods@, after.methods@)
        &&& after.classification == self.class_of()
        &&& (RustTrait { methods: after.methods, classification: after.classification, ..*self })
            == after
    }

    open spec fn same_results(&self, other: Self) -> bool {
        self.classification == other.classification && all_same_results(
            self.methods@,
            other.methods@,
        )
    }

    proof fn lemma_rewritten(&self, after: Self) {
        lemma_max_of_rewritten(self.methods@, after.methods@);
    }

    proof fn lemma_twice(&self, b: Self, c: Self) {
        lemma_max_of_rewritten(self.methods@, b.methods@);
        lemma_all_twice(self.methods@, b.methods@, c.methods@);
    }

    fn classify_in_place(&mut self) -> (r: SafetyClassification) {
        let m = classify_all(&mut self.methods);
        let c = container_rule(self.is_unsafe, m);
        self.classification = c;
        c
    }
}

impl Classify for RustImpl {
    open spec fn class_of(&self) -> SafetyClassification {
        container_class(self.is_unsafe, max_of(self.methods@))
    }

    open spec fn stored_class(&self) -> SafetyClassification {
        self.classification
    }

    open spec fn rewritten(&self, after: Self) -> bool {
        &&& all_rewritten(self.methods@, after.methods@)
        &&& after.classification == self.class_of()
        &&& (RustImpl { methods: after.methods, classification: after.classification, ..*self })
            == after
    }

    open spec fn same_results(&self, other: Self) -> bool {
        self.classification == other.classification && all_same_results(
            self.methods@,
            other.methods@,
        )
    }

    proof fn lemma_rewritten(&self, after: Self) {
        lemma_max_of_rewritten(self.methods@, after.methods@);
    }

    proof fn lemma_twice(&self, b: Self, c: Self) {
        lemma_max_of_rewritten(self.methods@, b.methods@);
        lemma_all_twice(self.methods@, b.methods@, c.methods@);
    }

    fn classify_in_place(&mut self) -> (r: SafetyClassification) {
        let m = classify_all(&mut self.methods);
        let c = container_rule(self.is_unsafe, m);
        self.classification = c;
        c
    }
}

/// The classification that a module has from its own items: the most
/// severe class among its structs, enums, traits, impls and functions,
/// `Safe` when it has none.
#[verifier::opaque]
pub open spec fn own_class(m: RustModule) -> SafetyClassification {
    let flag = SafetyClassification::Safe;
    max_class(
        max_class(
            max_class(max_class(max_class(flag, max_of(m.structs@)), max_of(m.enums@)), max_of(m.traits@)),
            max_of(m.impls@),
        ),
        max_of(m.functions@),
    )
}

/// The aggregate classification of module `i`: the most severe of its own
/// class and the aggregates of its submodules.
pub open spec fn module_class(mods: Seq<RustModule>, i: int) -> SafetyClassification
    decreases mods.len() - i, mods.len() - i,
{
    if 0 <= i < mods.len() {
        max_class(own_class(mods[i]), sub_class(mods, i, i + 1))
    } else {
        SafetyClassification::Safe
    }
}

/// The most severe aggregate among the submodules of `i` at index `k` or above.
pub open spec fn sub_class(mods: Seq<RustModule>, i: int, k: int) -> SafetyClassification
    decreases mods.len() - i, mods.len() - k,
{
    if 0 <= i < k < mods.len() {
        if mods[k].parent == Some(i as usize) {
            max_class(module_class(mods, k), sub_class(mods, i, k + 1))
        } else {
            sub_class(mods, i, k + 1)
        }
    } else {
        SafetyClassification::Safe
    }
}

/// `after` is module `before` with the classification of each of its items
/// written in; its own classification may differ.
#[verifier::opaque]
pub open spec fn module_rewritten(before: RustModule, after: RustModule) -> bool {
    &&& all_rewritten(before.structs@, after.structs@)
    &&& all_rewritten(before.enums@, after.enums@)
    &&& all_rewritten(before.traits@, after.traits@)
    &&& all_rewritten(before.impls@, after.impls@)
    &&& all_rewritten(before.functions@, after.functions@)
    &&& (RustModule {
        structs: after.structs,
        enums: after.enums,
        traits: after.traits,
        impls: after.impls,
        functions: after.functions,
        classification: after.classification,
        ..before
    }) == after
}

/// Every classification stored in module `a` equals the one in `b`.
pub open spec fn module_same_results(a: RustModule, b: RustModule) -> bool {
    &&& a.classification == b.classification
    &&& all_same_results(a.structs@, b.structs@)
    &&& all_same_results(a.enums@, b.enums@)
    &&& all_same_results(a.traits@, b.traits@)
    &&& all_same_results(a.impls@, b.impls@)
    &&& all_same_results(a.functions@, b.functions@)
}

/// The tree `after` is `before` with every classification written in.
#[verifier::opaque]
pub open spec fn tree_classified(before: Seq<RustModule>, after: Seq<RustModule>) -> bool {
    &&& after.len() == before.len()
    &&& forall|j: int|
        0 <= j < before.len() ==> module_rewritten(#[trigger] before[j], after[j])
            && after[j].classification == module_class(before, j)
}

/// Classifies every item of `m` in place and returns the module's own class.
fn classify_items(m: &mut RustModule) -> (r: SafetyClassification)
    ensures
        r == own_class(*old(m)),
        module_rewritten(*old(m), *final(m)),
        final(m).classification == old(m).classification,
{
    reveal(module_rewritten);
    reveal(own_class);
    let mut c = SafetyClassification::Safe;
    c = c.max(classify_all(&mut m.structs));
    c = c.max(classify_all(&mut m.enums));
    c = c.max(classify_all(&mut m.traits));
    c = c.max(classify_all(&mut m.impls));
    c = c.max(classify_all(&mut m.functions));
    c
}

proof fn lemma_rewritten_keeps_wf(before: Seq<RustModule>, after: Seq<RustModule>)
    requires
        tree_wf(before),
        after.len() == before.len(),
        forall|j: int| 0 <= j < before.len() ==> module_rewritten(#[trigger] before[j], after[j]),
    ensures
        tree_wf(after),
{
    reveal(module_rewritten);
    assert forall|i: int| 0 <= i < after.len() implies categories_unique(#[trigger] after[i]) by {
        let b = before[i];
        let a = after[i];
        assert(module_rewritten(b, a));
        assert(categories_unique(b));
        assert forall|x: int, y: int| 0 <= x < y < a.structs@.len() implies #[trigger] a.structs@[x].name@
            != #[trigger] a.structs@[y].name@ by {
            assert(b.structs@[x].rewritten(a.structs@[x]));
            assert(b.structs@[y].rewritten(a.structs@[y]));
            assert(b.structs@[x].spec_name() != b.structs@[y].spec_name());
        }
        assert forall|x: int, y: int| 0 <= x < y < a.enums@.len() implies #[trigger] a.enums@[x].name@
            != #[trigger] a.enums@[y].name@ by {
            assert(b.enums@[x].rewritten(a.enums@[x]));
            assert(b.enums@[y].rewritten(a.enums@[y]));
            assert(b.enums@[x].spec_name() != b.enums@[y].spec_name());
        }
        assert forall|x: int, y: int| 0 <= x < y < a.traits@.len() implies #[trigger] a.traits@[x].name@
            != #[trigger] a.traits@[y].name@ by {
            assert(b.traits@[x].rewritten(a.traits@[x]));
            assert(b.traits@[y].rewritten(a.traits@[y]));
            assert(b.traits@[x].spec_name() != b.traits@[y].spec_name());
        }
        assert forall|x: int, y: int| 0 <= x < y < a.functions@.len() implies #[trigger] a.functions@[x].name@
            != #[trigger] a.functions@[y].name@ by {
            assert(b.functions@[x].rewritten(a.functions@[x]));
            assert(b.functions@[y].rewritten(a.functions@[y]));
            assert(b.functions@[x].spec_name() != b.functions@[y].spec_name());
        }
    }
    assert forall|i: int| 1 <= i < after.len() implies (#[trigger] after[i]).parent is Some
        && (after[i].parent->0 as int) < i && !after[i].is_root_module by {
        assert(module_rewritten(before[i], after[i]));
    }
    assert forall|i: int, j: int|
        1 <= i < j < after.len() && (#[trigger] after[i]).parent == (#[trigger] after[j]).parent
        implies after[i].name@ != after[j].name@ by {
        assert(module_rewritten(before[i], after[i]));
        assert(module_rewritten(before[j], after[j]));
    }
    assert(module_rewritten(before[0], after[0]));
}

proof fn lemma_set_class_keeps_rewritten(b: RustModule, a: RustModule, c: SafetyClassification)
    requires
        module_rewritten(b, a),
    ensures
        module_rewritten(b, RustModule { classification: c, ..a }),
{
    reveal(module_rewritten);
}

proof fn lemma_sub_class_step(mods: Seq<RustModule>, q: int, i: int)
    requires
        0 <= q < i < mods.len(),
    ensures
        sub_class(mods, q, i) == if mods[i].parent == Some(q as usize) {
            max_class(module_class(mods, i), sub_class(mods, q, i + 1))
        } else {
            sub_class(mods, q, i + 1)
        },
{
}

impl ModuleTree {
    fn classify_module_at(&mut self, i: usize, sub: SafetyClassification) -> (c: SafetyClassification)
        requires
            i < old(self).modules@.len(),
        ensures
            c == max_class(own_class(old(self).modules@[i as int]), sub),
            final(self).modules@.len() == old(self).modules@.len(),
            forall|j: int|
                0 <= j < old(self).modules@.len() && j != i ==> #[trigger] final(self).modules@[j]
                    == old(self).modules@[j],
            module_rewritten(old(self).modules@[i as int], final(self).modules@[i as int]),
            final(self).modules@[i as int].classification == c,
    {
        let own = classify_items(&mut self.modules[i]);
        let c = own.max(sub);
        let ghost mid = self.modules@[i as int];
        self.modules[i].classification = c;
        proof {
            lemma_set_class_keeps_rewritten(old(self).modules@[i as int], mid, c);
            assert(self.modules@[i as int] == RustModule { classification: c, ..mid });
        }
        c
    }

    /// Writes the classification of every callable, container and module of
    /// the tree. Each module's class is the most severe of its own items' and
    /// its submodules' classes; children are finished before their parent.
    #[verifier::rlimit(80)]
    pub fn classify(&mut self)
        requires
            old(self).wf(),
        ensures
            final(self).wf(),
            tree_classified(old(self).modules@, final(self).modules@),
    {
        let ghost orig = self.modules@;
        let n = self.modules.len();
        let mut acc: Vec<SafetyClassification> = Vec::new();
        let mut k: usize = 0;
        while k < n
            invariant
                0 <= k <= n,
                acc@.len() == k,
                forall|p: int| 0 <= p < k ==> #[trigger] acc@[p] == SafetyClassification::Safe,
            decreases n - k,
        {
            acc.push(SafetyClassification::Safe);
            k += 1;
        }
        let mut i: usize = n;
        while i > 0
            invariant
                n == orig.len(),
                tree_wf(orig),
                0 <= i <= n,
                self.modules@.len() == n,
                acc@.len() == n,
                forall|j: int|
                    i <= j < n ==> module_rewritten(#[trigger] orig[j], self.modules@[j])
                        && self.modules@[j].classification == module_class(orig, j),
                forall|j: int| 0 <= j < i ==> #[trigger] self.modules@[j] == orig[j],
                forall|p: int| 0 <= p < i ==> #[trigger] acc@[p] == sub_class(orig, p, i as int),
            decreases i,
        {
            i -= 1;
            let par = self.modules[i].parent;
            proof {
                assert(par == orig[i as int].parent);
                assert(par is Some ==> (par->0 as int) < i);
            }
            let c = self.classify_module_at(i, acc[i]);
            proof {
                assert(module_class(orig, i as int) == c);
            }
            if let Some(p) = par {
                let cur = acc[p];
                acc.set(p, c.max(cur));
            }
            proof {
                assert forall|q: int| 0 <= q < i implies #[trigger] acc@[q] == sub_class(
                    orig,
                    q,
                    i as int,
                ) by {
                    lemma_sub_class_step(orig, q, i as int);
                }
            }
        }
        proof {
            lemma_rewritten_keeps_wf(orig, self.modules@);
            reveal(tree_classified);
        }
    }
}

/// Module aggregates from index `lo` up depend only on the own classes and
/// parent links of the modules from `lo` up.
pub proof fn lemma_module_class_agree(a: Seq<RustModule>, b: Seq<RustModule>, lo: int, k: int)
    requires
        a.len() == b.len(),
        0 <= lo <= k,
        forall|j: int|
            lo <= j < a.len() ==> own_class(#[trigger] a[j]) == own_class(b[j]) && a[j].parent
                == b[j].parent,
    ensures
        module_class(a, k) == module_class(b, k),
        forall|i: int| 0 <= i < k ==> #[trigger] sub_class(a, i, k) == sub_class(b, i, k),
    decreases a.len() - k,
{
    if k < a.len() {
        lemma_module_class_agree(a, b, lo, k + 1);
        assert(own_class(a[k]) == own_class(b[k]));
        assert(sub_class(a, k, k + 1) == sub_class(b, k, k + 1));
        assert(module_class(a, k) == module_class(b, k));
        assert forall|i: int| 0 <= i < k implies #[trigger] sub_class(a, i, k) == sub_class(b, i, k) by {
            assert(sub_class(a, i, k + 1) == sub_class(b, i, k + 1));
        }
    }
}

proof fn lemma_own_class_rewritten(b: RustModule, a: RustModule)
    requires
        module_rewritten(b, a),
    ensures
        own_class(a) == own_class(b),
        a.parent == b.parent,
{
    reveal(module_rewritten);
    reveal(own_class);
    lemma_max_of_rewritten(b.structs@, a.structs@);
    lemma_max_of_rewritten(b.enums@, a.enums@);
    lemma_max_of_rewritten(b.traits@, a.traits@);
    lemma_max_of_rewritten(b.impls@, a.impls@);
    lemma_max_of_rewritten(b.functions@, a.functions@);
}

proof fn lemma_module_twice(a: RustModule, b: RustModule, c: RustModule)
    requires
        module_rewritten(a, b),
        module_rewritten(b, c),
    ensures
        all_same_results(b.structs@, c.structs@),
        all_same_results(b.enums@, c.enums@),
        all_same_results(b.traits@, c.traits@),
        all_same_results(b.impls@, c.impls@),
        all_same_results(b.functions@, c.functions@),
{
    reveal(module_rewritten);
    lemma_all_twice(a.structs@, b.structs@, c.structs@);
    lemma_all_twice(a.enums@, b.enums@, c.enums@);
    lemma_all_twice(a.traits@, b.traits@, c.traits@);
    lemma_all_twice(a.impls@, b.impls@, c.impls@);
    lemma_all_twice(a.functions@, b.functions@, c.functions@);
}

/// Classifying a tree that is already classified changes no classification:
/// a second pass stores, in every module and every item, the same class as
/// the first.
pub proof fn lemma_classify_idempotent(t0: Seq<RustModule>, t1: Seq<RustModule>, t2: Seq<RustModule>)
    requires
        tree_classified(t0, t1),
        tree_classified(t1, t2),
    ensures
        t2.len() == t1.len(),
        forall|j: int| 0 <= j < t1.len() ==> module_same_results(#[trigger] t1[j], t2[j]),
{
    reveal(tree_classified);
    assert forall|j: int| 0 <= j < t0.len() implies own_class(#[trigger] t1[j]) == own_class(t0[j])
        && t1[j].parent == t0[j].parent by {
        lemma_own_class_rewritten(t0[j], t1[j]);
    }
    assert forall|j: int| 0 <= j < t1.len() implies module_same_results(#[trigger] t1[j], t2[j]) by {
        lemma_module_class_agree(t1, t0, 0, j);
        assert(module_rewritten(t0[j], t1[j]));
        assert(module_rewritten(t1[j], t2[j]));
        lemma_module_twice(t0[j], t1[j], t2[j]);
    }
}

/// Adding one member classified `Unsafe` or `Ffi` to a struct, enum, trait
/// or impl never lowers the container's classification.
pub proof fn lemma_container_monotone(own_unsafe: bool, members: Seq<RustCallable>, x: RustCallable)
    requires
        rank(callable_class(x)) >= 2,
    ensures
        rank(container_class(own_unsafe, max_of(members.push(x)))) >= rank(
            container_class(own_unsafe, max_of(members)),
        ),
{
    assert(members.push(x).drop_last() =~= members);
}

/// Adding one function classified `Unsafe` or `Ffi` to module `i` never
/// lowers the module's aggregate classification.
pub proof fn lemma_module_monotone(mods: Seq<RustModule>, i: int, m: RustModule, x: RustCallable)
    requires
        0 <= i < mods.len(),
        rank(callable_class(x)) >= 2,
        m.functions@ == mods[i].functions@.push(x),
        (RustModule { functions: m.functions, ..mods[i] }) == m,
    ensures
        rank(module_class(mods.update(i, m), i)) >= rank(module_class(mods, i)),
{
    let after = mods.update(i, m);
    reveal(own_class);
    assert(m.functions@.drop_last() =~= mods[i].functions@);
    assert forall|j: int| i + 1 <= j < mods.len() implies own_class(#[trigger] after[j]) == own_class(
        mods[j],
    ) && after[j].parent == mods[j].parent by {
        assert(after[j] == mods[j]);
    }
    lemma_module_class_agree(after, mods, i + 1, i + 1);
    assert(sub_class(after, i, i + 1) == sub_class(mods, i, i + 1));
}

} // verus!
