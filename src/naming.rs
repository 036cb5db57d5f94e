use vstd::prelude::*;
use crate::callable::RustCallable;
use crate::items::{RustEnum, RustMacro, RustStruct, RustTrait};
use crate::types::RustTypeAlias;

verus! {

/// An item that is looked up by its name.
pub trait Named {
    spec fn spec_name(&self) -> Seq<char>;

    fn name_ref(&self) -> (r: &String)
        ensures
            r@ == self.spec_name(),
    ;
}

/// No two entries of `s` share a name.
pub open spec fn names_unique<T: Named>(s: Seq<T>) -> bool {
    forall|i: int, j: int|
        0 <= i < j < s.len() ==> #[trigger] s[i].spec_name() != #[trigger] s[j].spec_name()
}

/// `i` is the first index of `s` whose entry is named `n`.
pub open spec fn is_first_named<T: Named>(s: Seq<T>, n: Seq<char>, i: int) -> bool {
    0 <= i < s.len() && s[i].spec_name() == n && forall|k: int|
        0 <= k < i ==> #[trigger] s[k].spec_name() != n
}

/// The first index of `s` whose entry is named `n`.
pub open spec fn first_named<T: Named>(s: Seq<T>, n: Seq<char>) -> Option<int> {
    if exists|i: int| is_first_named(s, n, i) {
        Some(choose|i: int| is_first_named(s, n, i))
    } else {
        None
    }
}

pub proof fn lemma_first_named_unique<T: Named>(s: Seq<T>, n: Seq<char>, i: int)
    requires
        is_first_named(s, n, i),
    ensures
        first_named(s, n) == Some(i),
{
    let j = choose|j: int| is_first_named(s, n, j);
    assert(is_first_named(s, n, j));
    if j < i {
        assert(s[j].spec_name() != n);
    } else if i < j {
        assert(s[i].spec_name() != n);
    }
}

pub proof fn lemma_first_named_some<T: Named>(s: Seq<T>, n: Seq<char>)
    requires
        first_named(s, n) is Some,
    ensures
        is_first_named(s, n, first_named(s, n)->0),
{
}

pub proof fn lemma_first_named_none<T: Named>(s: Seq<T>, n: Seq<char>)
    requires
        forall|k: int| 0 <= k < s.len() ==> #[trigger] s[k].spec_name() != n,
    ensures
        first_named(s, n) is None,
{
}

/// Where in `v` the entry named `name` stands, the first one if several.
pub fn find_named<T: Named>(v: &Vec<T>, name: &String) -> (r: Option<usize>)
    ensures
        r == (match first_named(v@, name@) {
            Some(i) => Some(i as usize),
            None => None::<usize>,
        }),
        r is None <==> forall|k: int| 0 <= k < v@.len() ==> #[trigger] v@[k].spec_name() != name@,
        r is Some ==> r->0 < v@.len() && v@[r->0 as int].spec_name() == name@,
{
    let mut i: usize = 0;
    while i < v.len()
        invariant
            0 <= i <= v@.len(),
            forall|k: int| 0 <= k < i ==> #[trigger] v@[k].spec_name() != name@,
        decreases v.len() - i,
    {
        if *v[i].name_ref() == *name {
            proof {
                lemma_first_named_unique(v@, name@, i as int);
            }
            return Some(i);
        }
        i += 1;
    }
    proof {
        lemma_first_named_none(v@, name@);
    }
    None
}

/// Whether no two entries of `v` share a name.
pub fn all_names_unique<T: Named>(v: &Vec<T>) -> (r: bool)
    ensures
        r == names_unique(v@),
{
    let mut i: usize = 0;
    while i < v.len()
        invariant
            0 <= i <= v@.len(),
            forall|a: int, b: int|
                0 <= a < i && a < b < v@.len() ==> #[trigger] v@[a].spec_name() != #[trigger] v@[b].spec_name(),
        decreases v.len() - i,
    {
        let mut j: usize = i + 1;
        while j < v.len()
            invariant
                0 <= i < v@.len(),
                i + 1 <= j <= v@.len(),
                forall|a: int, b: int|
                    0 <= a < i && a < b < v@.len() ==> #[trigger] v@[a].spec_name() != #[trigger] v@[b].spec_name(),
                forall|b: int| i < b < j ==> v@[i as int].spec_name() != #[trigger] v@[b].spec_name(),
            decreases v.len() - j,
        {
            if *v[i].name_ref() == *v[j].name_ref() {
                return false;
            }
            j += 1;
        }
        i += 1;
    }
    true
}

impl Named for RustStruct {
    open spec fn spec_name(&self) -> Seq<char> {
        self.name@
    }

    fn name_ref(&self) -> (r: &String) {
        &self.name
    }
}

impl Named for RustEnum {
    open spec fn spec_name(&self) -> Seq<char> {
        self.name@
    }

    fn name_ref(&self) -> (r: &String) {
        &self.name
    }
}

impl Named for RustTrait {
    open spec fn spec_name(&self) -> Seq<char> {
        self.name@
    }

    fn name_ref(&self) -> (r: &String) {
        &self.name
    }
}

impl Named for RustTypeAlias {
    open spec fn spec_name(&self) -> Seq<char> {
        self.name@
    }

    fn name_ref(&self) -> (r: &String) {
        &self.name
    }
}

impl Named for RustCallable {
    open spec fn spec_name(&self) -> Seq<char> {
        self.name@
    }

    fn name_ref(&self) -> (r: &String) {
        &self.name
    }
}

impl Named for RustMacro {
    open spec fn spec_name(&self) -> Seq<char> {
        self.name@
    }

    fn name_ref(&self) -> (r: &String) {
        &self.name
    }
}

} // verus!
