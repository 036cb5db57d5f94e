use vstd::prelude::*;
use crate::callable::RustCallable;
use crate::entities::{RustVisibility, SafetyClassification};
use crate::items::{RustEnum, RustImpl, RustMacro, RustStruct, RustTrait};
use crate::naming::{names_unique, Named};
use crate::types::{RustAttribute, RustTypeAlias, RustVariableDeclaration};

verus! {

/// A `use` item: `alias` stands for the path `target`, written from the
/// crate root (`use a::b::c as d;` is alias `d`, target `["a", "b", "c"]`).
#[derive(Clone, Debug)]
pub struct UseAlias {
    pub alias: String,
    pub target: Vec<String>,
}

impl Named for UseAlias {
    open spec fn spec_name(&self) -> Seq<char> {
        self.alias@
    }

    fn name_ref(&self) -> (r: &String) {
        &self.alias
    }
}

/// A module and the items declared directly in it.
///
/// Submodules are not held here: a module names its parent by index in the
/// `ModuleTree` that owns it.
#[derive(Clone, Debug)]
pub struct RustModule {
    pub name: String,
    pub doc_comment: Option<String>,
    pub attributes: Vec<RustAttribute>,
    pub visibility: RustVisibility,
    pub structs: Vec<RustStruct>,
    pub enums: Vec<RustEnum>,
    pub traits: Vec<RustTrait>,
    pub impls: Vec<RustImpl>,
    pub type_aliases: Vec<RustTypeAlias>,
    pub functions: Vec<RustCallable>,
    pub macros: Vec<RustMacro>,
    pub constants: Vec<RustVariableDeclaration>,
    pub use_declarations: Vec<String>,
    /// `use` items that bring a name into scope: looked up by `resolve`.
    pub use_aliases: Vec<UseAlias>,
    pub extern_crates: Vec<String>,
    /// Declared `unsafe mod`, as the front end saw it; the classification
    /// pass goes by the module's items and submodules alone.
    pub is_unsafe: bool,
    pub file_path: Option<String>,
    pub is_mod_rs: bool,
    pub is_root_module: bool,
    /// Index of the parent module in its tree; `None` for the root.
    pub parent: Option<usize>,
    /// Filled in by the classification pass.
    pub classification: SafetyClassification,
}

impl RustModule {
    /// An empty, private, non-root module.
    pub fn new(name: String) -> (r: Self)
        ensures
            r.name@ == name@,
            r.doc_comment.is_none(),
            r.attributes@.len() == 0,
            r.visibility is Private,
            r.structs@.len() == 0,
            r.enums@.len() == 0,
            r.traits@.len() == 0,
            r.impls@.len() == 0,
            r.type_aliases@.len() == 0,
            r.functions@.len() == 0,
            r.macros@.len() == 0,
            r.constants@.len() == 0,
            r.use_declarations@.len() == 0,
            r.use_aliases@.len() == 0,
            r.extern_crates@.len() == 0,
            !r.is_unsafe,
            r.file_path.is_none(),
            !r.is_mod_rs,
            !r.is_root_module,
            r.parent.is_none(),
            r.classification == SafetyClassification::Safe,
    {
        RustModule {
            name,
            doc_comment: None,
            attributes: Vec::new(),
            visibility: RustVisibility::Private,
            structs: Vec::new(),
            enums: Vec::new(),
            traits: Vec::new(),
            impls: Vec::new(),
            type_aliases: Vec::new(),
            functions: Vec::new(),
            macros: Vec::new(),
            constants: Vec::new(),
            use_declarations: Vec::new(),
            use_aliases: Vec::new(),
            extern_crates: Vec::new(),
            is_unsafe: false,
            file_path: None,
            is_mod_rs: false,
            is_root_module: false,
            parent: None,
            classification: SafetyClassification::Safe,
        }
    }
}

/// Item names are unique within each category of `m`.
pub open spec fn categories_unique(m: RustModule) -> bool {
    &&& names_unique(m.structs@)
    &&& names_unique(m.enums@)
    &&& names_unique(m.traits@)
    &&& names_unique(m.type_aliases@)
    &&& names_unique(m.functions@)
    &&& names_unique(m.macros@)
}

/// All modules of one crate. Module 0 is the root; every other module's
/// parent has a smaller index, so the tree has no cycles.
#[derive(Clone, Debug)]
pub struct ModuleTree {
    pub modules: Vec<RustModule>,
}

/// The shape of a well-formed tree, over its sequence of modules.
pub open spec fn tree_wf(mods: Seq<RustModule>) -> bool {
    &&& mods.len() >= 1
    &&& mods[0].parent is None
    &&& mods[0].is_root_module
    &&& forall|i: int|
        1 <= i < mods.len() ==> (#[trigger] mods[i]).parent is Some && (mods[i].parent->0 as int)
            < i && !mods[i].is_root_module
    &&& forall|i: int, j: int|
        1 <= i < j < mods.len() && (#[trigger] mods[i]).parent == (#[trigger] mods[j]).parent
            ==> mods[i].name@ != mods[j].name@
    &&& forall|i: int| 0 <= i < mods.len() ==> categories_unique(#[trigger] mods[i])
}

/// The last module below index `k` whose parent is `p` and whose name is `n`
/// (in a well-formed tree, the only one).
pub open spec fn find_child(mods: Seq<RustModule>, p: int, n: Seq<char>, k: int) -> Option<int>
    decreases k,
{
    if k <= 0 || k > mods.len() {
        None
    } else if mods[k - 1].parent is Some && mods[k - 1].parent->0 as int == p && mods[k - 1].name@
        == n {
        Some(k - 1)
    } else {
        find_child(mods, p, n, k - 1)
    }
}

/// The submodule of `p` named `n`.
pub open spec fn child(mods: Seq<RustModule>, p: int, n: Seq<char>) -> Option<int> {
    find_child(mods, p, n, mods.len() as int)
}

/// The module reached from `s` by following the submodule names `segs`.
pub open spec fn walk(mods: Seq<RustModule>, s: int, segs: Seq<Seq<char>>) -> Option<int>
    decreases segs.len(),
{
    if segs.len() == 0 {
        Some(s)
    } else {
        match child(mods, s, segs[0]) {
            Some(c) => walk(mods, c, segs.drop_first()),
            None => None,
        }
    }
}

/// The names of a sequence of strings.
pub open spec fn views(v: Seq<String>) -> Seq<Seq<char>> {
    v.map_values(|s: String| s@)
}

/// `u` is `a` or lies below `a`.
pub open spec fn in_subtree(mods: Seq<RustModule>, a: int, u: int) -> bool
    decreases u,
{
    if u == a {
        true
    } else if 0 <= u < mods.len() && mods[u].parent is Some && (mods[u].parent->0 as int) < u {
        in_subtree(mods, a, mods[u].parent->0 as int)
    } else {
        false
    }
}

/// An item of visibility `vis`, declared in module `def`, is visible from module `u`.
pub open spec fn visible(mods: Seq<RustModule>, vis: RustVisibility, def: int, u: int) -> bool {
    match vis {
        RustVisibility::Public => true,
        RustVisibility::Crate => true,
        RustVisibility::Private => in_subtree(mods, def, u),
        RustVisibility::Super => match mods[def].parent {
            Some(p) => in_subtree(mods, p as int, u),
            None => in_subtree(mods, def, u),
        },
        RustVisibility::InPath(path) => match walk(mods, 0, views(path@)) {
            Some(t) => in_subtree(mods, t, u),
            None => false,
        },
    }
}

/// Why a change to the tree was refused.
#[derive(Clone, Copy, Debug, PartialEq, Eq, Structural)]
pub enum TreeError {
    /// The category slot at that path already holds the name.
    DuplicateName,
    /// A module on the path does not exist.
    PathNotFound,
}

impl ModuleTree {
    pub open spec fn wf(&self) -> bool {
        tree_wf(self.modules@)
    }

    /// A tree that holds only its root module.
    pub fn new(root_name: String) -> (r: Self)
        ensures
            r.wf(),
            r.modules@.len() == 1,
            r.modules@[0].name@ == root_name@,
            r.modules@[0].visibility is Public,
    {
        let mut root = RustModule::new(root_name);
        root.is_root_module = true;
        root.visibility = RustVisibility::Public;
        let mut modules = Vec::new();
        modules.push(root);
        ModuleTree { modules }
    }
}

} // verus!
