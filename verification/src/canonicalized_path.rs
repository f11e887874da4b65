//! A path kept both as it was written and in canonical form.
use vstd::prelude::*;
use vstd::std_specs::cmp::{PartialEqSpec, PartialEqSpecImpl, PartialOrdSpec, PartialOrdSpecImpl};

use crate::path_order::{
    compare_paths, lemma_path_order, ordering_from, ordering_of, path_components, path_order,
};
use core::cmp::Ordering;

verus! {

/// A canonicalized path.
///
/// This stores both the canonicalized path and the pre-canonicalized path. It is shown as the
/// original path but compared (equality and order) as the canonical path, component by
/// component as `std::path::Path` compares paths.
#[derive(Debug, Clone)]
pub struct CanonicalizedUtf8PathBuf {
    canon: String,
    original: String,
}

/// The two forms of a [`CanonicalizedUtf8PathBuf`].
pub struct CanonicalizedPathView {
    pub canon: Seq<char>,
    pub original: Seq<char>,
}

impl View for CanonicalizedUtf8PathBuf {
    type V = CanonicalizedPathView;

    closed spec fn view(&self) -> CanonicalizedPathView {
        CanonicalizedPathView { canon: self.canon@, original: self.original@ }
    }
}

impl CanonicalizedUtf8PathBuf {
    /// Pair a path with its canonical form (which the file system gives).
    pub fn new(original: String, canon: String) -> (r: Self)
        ensures
            r@.original == original@,
            r@.canon == canon@,
    {
        CanonicalizedUtf8PathBuf { canon, original }
    }

    /// Get a reference to this canonical path.
    pub fn canon(&self) -> (r: &str)
        ensures
            r@ == self@.canon,
    {
        self.canon.as_str()
    }

    /// The path as it was originally written.
    pub fn original(&self) -> (r: &str)
        ensures
            r@ == self@.original,
    {
        self.original.as_str()
    }

    /// Display form: the original path.
    pub fn to_string(&self) -> (r: String)
        ensures
            r@ == self@.original,
    {
        self.original.clone()
    }

    /// Consume this path, keeping the canonical form.
    pub fn into_canon(self) -> (r: String)
        ensures
            r@ == self@.canon,
    {
        self.canon
    }
}

impl PartialEq for CanonicalizedUtf8PathBuf {
    fn eq(&self, other: &Self) -> (r: bool) {
        compare_paths(self.canon.as_str(), other.canon.as_str()) == 0
    }
}

impl PartialEqSpecImpl for CanonicalizedUtf8PathBuf {
    open spec fn obeys_eq_spec() -> bool {
        true
    }

    open spec fn eq_spec(&self, other: &Self) -> bool {
        path_order(self@.canon, other@.canon) == 0
    }
}

impl Eq for CanonicalizedUtf8PathBuf {
}

impl PartialOrd for CanonicalizedUtf8PathBuf {
    fn partial_cmp(&self, other: &Self) -> (r: Option<Ordering>) {
        Some(ordering_from(compare_paths(self.canon.as_str(), other.canon.as_str())))
    }
}

impl PartialOrdSpecImpl for CanonicalizedUtf8PathBuf {
    open spec fn obeys_partial_cmp_spec() -> bool {
        true
    }

    open spec fn partial_cmp_spec(&self, other: &Self) -> Option<Ordering> {
        Some(ordering_of(path_order(self@.canon, other@.canon)))
    }
}

/// A canonicalized path is compared, for equality and for order, by its canonical form alone,
/// component by component (the original form, which is what it shows, plays no part): equality is that of the components, it is symmetric, and the order is `Equal` exactly
/// for equal values.
pub proof fn lemma_compared_by_canon(a: CanonicalizedUtf8PathBuf, b: CanonicalizedUtf8PathBuf)
    ensures
        PartialEqSpec::eq_spec(&a, &b) <==> path_components(a@.canon) == path_components(b@.canon),
        PartialEqSpec::eq_spec(&a, &b) <==> PartialEqSpec::eq_spec(&b, &a),
        PartialOrdSpec::partial_cmp_spec(&a, &b) == Some(ordering_of(path_order(a@.canon, b@.canon))),
        PartialOrdSpec::partial_cmp_spec(&a, &b) == Some(Ordering::Equal) <==> PartialEqSpec::eq_spec(&a, &b),
        PartialOrdSpec::partial_cmp_spec(&a, &b) == Some(Ordering::Less) <==> PartialOrdSpec::partial_cmp_spec(&b, &a) == Some(
            Ordering::Greater,
        ),
{
    lemma_path_order(a@.canon, b@.canon);
    lemma_path_order(b@.canon, a@.canon);
}

} // verus!
