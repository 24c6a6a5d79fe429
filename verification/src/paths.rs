//! Absolute directory paths, modelled as their sequence of components.

use vstd::prelude::*;

verus! {

/// An absolute directory path, held as its path components from the
/// filesystem root downward. The empty component list is the filesystem
/// root itself.
pub struct DirPath {
    pub components: Vec<String>,
}

impl View for DirPath {
    type V = Seq<Seq<char>>;

    open spec fn view(&self) -> Seq<Seq<char>> {
        self.components.deep_view()
    }
}

impl DirPath {
    pub fn new(components: Vec<String>) -> (r: DirPath)
        ensures
            r@ == components.deep_view(),
    {
        DirPath { components }
    }

    /// Whether `self` is `other` or an ancestor of it, component-wise.
    pub fn is_prefix_of(&self, other: &DirPath) -> (r: bool)
        ensures
            r == self@.is_prefix_of(other@),
    {
        components_prefix(&self.components, &other.components)
    }
}

/// String equality, stated over the views.
pub fn string_eq(a: &String, b: &String) -> (r: bool)
    ensures
        r == (a@ == b@),
{
    *a == *b
}

/// Whether the components of `a` and `b` spell the same directory.
pub fn components_eq(a: &Vec<String>, b: &Vec<String>) -> (r: bool)
    ensures
        r == (a.deep_view() == b.deep_view()),
{
    if a.len() != b.len() {
        assert(a.deep_view().len() != b.deep_view().len());
        return false;
    }
    let n = a.len();
    let mut i: usize = 0;
    while i < n
        invariant
            n == a.len() == b.len(),
            i <= n,
            forall|j: int| 0 <= j < i ==> a.deep_view()[j] == b.deep_view()[j],
        decreases n - i,
    {
        assert(a.deep_view()[i as int] == a@[i as int]@);
        assert(b.deep_view()[i as int] == b@[i as int]@);
        if !string_eq(&a[i], &b[i]) {
            return false;
        }
        i += 1;
    }
    assert(a.deep_view() =~= b.deep_view());
    true
}

/// Whether the components of `a` are a prefix of those of `b`.
pub fn components_prefix(a: &Vec<String>, b: &Vec<String>) -> (r: bool)
    ensures
        r == a.deep_view().is_prefix_of(b.deep_view()),
{
    if a.len() > b.len() {
        return false;
    }
    let n = a.len();
    let mut i: usize = 0;
    while i < n
        invariant
            n == a.len() <= b.len(),
            i <= n,
            forall|j: int| 0 <= j < i ==> a.deep_view()[j] == b.deep_view()[j],
        decreases n - i,
    {
        assert(a.deep_view()[i as int] == a@[i as int]@);
        assert(b.deep_view()[i as int] == b@[i as int]@);
        if !string_eq(&a[i], &b[i]) {
            return false;
        }
        i += 1;
    }
    assert(a.deep_view() =~= b.deep_view().subrange(0, a.deep_view().len() as int));
    true
}

} // verus!
