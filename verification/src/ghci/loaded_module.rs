//! A module loaded into a `ghci` session.
use vstd::prelude::*;
use vstd::std_specs::cmp::{PartialEqSpec, PartialEqSpecImpl, PartialOrdSpec, PartialOrdSpecImpl};

use crate::path_order::{
    compare_paths, lemma_path_order, ordering_from, ordering_of, path_components, path_order,
};
use core::cmp::Ordering;

use crate::text::{opt_view, push_str};

verus! {

/// Information about a module loaded into a `ghci` session.
///
/// Equality and order are determined by the module's path alone, compared component by
/// component as `std::path::Path` compares paths.
#[derive(Debug, Clone)]
pub struct LoadedModule {
    /// The module's source file, relative to the session's working directory.
    path: String,
    /// The module's name.
    ///
    /// This is present if and only if the module is loaded by name.
    ///
    /// Entries in `:show targets` can be one of two types: module paths or module names (with `.`
    /// in place of path separators). Due to a `ghci` bug, the module can only be referred to as
    /// whichever form it was originally added as, so we use this to track how we refer to
    /// modules.
    name: Option<String>,
}

/// The contents of a [`LoadedModule`]: its path, and its name when it was loaded by name.
pub struct LoadedModuleView {
    pub path: Seq<char>,
    pub name: Option<Seq<char>>,
}

impl View for LoadedModule {
    type V = LoadedModuleView;

    closed spec fn view(&self) -> LoadedModuleView {
        LoadedModuleView { path: self.path@, name: opt_view(self.name) }
    }
}

/// The name to use to refer to a module loaded into a GHCi session.
#[derive(Debug)]
pub enum LoadedModuleName<'a> {
    /// A path to a Haskell source file, like `src/My/Cool/Module.hs`.
    Path(&'a str),
    /// A dotted module name, like `My.Cool.Module`.
    Name(&'a str),
}

impl<'a> LoadedModuleName<'a> {
    /// The text of the name: the path or the module name.
    pub open spec fn spec_text(&self) -> Seq<char> {
        match self {
            LoadedModuleName::Path(p) => p@,
            LoadedModuleName::Name(n) => n@,
        }
    }

    /// The name as text: the path or the module name.
    pub fn to_string(&self) -> (r: String)
        ensures
            r@ == self.spec_text(),
    {
        let mut r = String::new();
        match self {
            LoadedModuleName::Path(p) => push_str(&mut r, p),
            LoadedModuleName::Name(n) => push_str(&mut r, n),
        }
        r
    }
}

/// The text by which a module is referred to: its name if it was loaded by name, else its path.
pub open spec fn module_reference(m: LoadedModuleView) -> Seq<char> {
    match m.name {
        Some(n) => n,
        None => m.path,
    }
}

impl LoadedModule {
    /// Create a new module, loaded by path.
    pub fn new(path: String) -> (r: Self)
        ensures
            r@ == (LoadedModuleView { path: path@, name: None }),
    {
        LoadedModule { path, name: None }
    }

    /// Create a new module, loaded by name.
    pub fn with_name(path: String, name: String) -> (r: Self)
        ensures
            r@ == (LoadedModuleView { path: path@, name: Some(name@) }),
    {
        LoadedModule { path, name: Some(name) }
    }

    /// Get the name to use to refer to this module.
    pub fn name(&self) -> (r: LoadedModuleName<'_>)
        ensures
            match self@.name {
                Some(n) => r is Name && r.spec_text() == n,
                None => r is Path && r.spec_text() == self@.path,
            },
    {
        match &self.name {
            Some(name) => LoadedModuleName::Name(name.as_str()),
            None => LoadedModuleName::Path(self.path.as_str()),
        }
    }

    /// Get the module's source path.
    pub fn path(&self) -> (r: &String)
        ensures
            r@ == self@.path,
    {
        &self.path
    }

    /// The text by which the module is referred to; see [`module_reference`].
    pub fn to_string(&self) -> (r: String)
        ensures
            r@ == module_reference(self@),
    {
        self.name().to_string()
    }

    /// A copy of this module.
    pub fn duplicate(&self) -> (r: Self)
        ensures
            r@ == self@,
    {
        let name = match &self.name {
            Some(n) => Some(n.clone()),
            None => None,
        };
        LoadedModule { path: self.path.clone(), name }
    }
}

impl PartialEq for LoadedModule {
    fn eq(&self, other: &Self) -> (r: bool) {
        compare_paths(self.path.as_str(), other.path.as_str()) == 0
    }
}

impl PartialEqSpecImpl for LoadedModule {
    open spec fn obeys_eq_spec() -> bool {
        true
    }

    open spec fn eq_spec(&self, other: &Self) -> bool {
        path_order(self@.path, other@.path) == 0
    }
}

impl Eq for LoadedModule {
}

impl PartialOrd for LoadedModule {
    fn partial_cmp(&self, other: &Self) -> (r: Option<Ordering>) {
        Some(ordering_from(compare_paths(self.path.as_str(), other.path.as_str())))
    }
}

impl PartialOrdSpecImpl for LoadedModule {
    open spec fn obeys_partial_cmp_spec() -> bool {
        true
    }

    open spec fn partial_cmp_spec(&self, other: &Self) -> Option<Ordering> {
        Some(ordering_of(path_order(self@.path, other@.path)))
    }
}

/// A module is compared, for equality and for order, by its source path alone, component by
/// component (the name it was loaded by plays no part): equality is that of the components, it is symmetric, and the order is `Equal` exactly
/// for equal values.
pub proof fn lemma_compared_by_path(a: LoadedModule, b: LoadedModule)
    ensures
        PartialEqSpec::eq_spec(&a, &b) <==> path_components(a@.path) == path_components(b@.path),
        PartialEqSpec::eq_spec(&a, &b) <==> PartialEqSpec::eq_spec(&b, &a),
        PartialOrdSpec::partial_cmp_spec(&a, &b) == Some(ordering_of(path_order(a@.path, b@.path))),
        PartialOrdSpec::partial_cmp_spec(&a, &b) == Some(Ordering::Equal) <==> PartialEqSpec::eq_spec(&a, &b),
        PartialOrdSpec::partial_cmp_spec(&a, &b) == Some(Ordering::Less) <==> PartialOrdSpec::partial_cmp_spec(&b, &a) == Some(
            Ordering::Greater,
        ),
{
    lemma_path_order(a@.path, b@.path);
    lemma_path_order(b@.path, a@.path);
}

} // verus!
