//! Snapshots of the two ambient facts the matcher consults: which marker
//! files exist in which directories, and which binaries resolve on the
//! executable search path. Holding them as explicit values keeps the
//! matching logic a pure function of its inputs.

use vstd::prelude::*;
use crate::paths::{components_eq, string_eq, DirPath};

verus! {

/// One observed regular file: the directory that holds it and its name.
pub struct FsEntry {
    pub dir: DirPath,
    pub name: String,
}

/// The set of (directory, file name) pairs known to exist as regular files.
pub struct FsView {
    pub entries: Vec<FsEntry>,
}

impl FsView {
    /// Whether the view records a file called `name` in the directory `dir`.
    pub open spec fn contains(self, dir: Seq<Seq<char>>, name: Seq<char>) -> bool {
        exists|i: int|
            0 <= i < self.entries@.len() && self.entries@[i].dir@ == dir
                && self.entries@[i].name@ == name
    }

    pub fn new() -> (r: FsView)
        ensures
            forall|d: Seq<Seq<char>>, n: Seq<char>| !r.contains(d, n),
    {
        FsView { entries: Vec::new() }
    }

    /// Record that `dir` holds a regular file called `name`.
    pub fn record(&mut self, dir: DirPath, name: String)
        ensures
            final(self).contains(dir@, name@),
            forall|d: Seq<Seq<char>>, n: Seq<char>|
                old(self).contains(d, n) ==> final(self).contains(d, n),
            forall|d: Seq<Seq<char>>, n: Seq<char>|
                final(self).contains(d, n) ==> old(self).contains(d, n) || (d == dir@ && n
                    == name@),
    {
        let ghost pre = self.entries@;
        self.entries.push(FsEntry { dir, name });
        assert(forall|i: int| 0 <= i < pre.len() ==> self.entries@[i] == pre[i]);
        assert(self.entries@[pre.len() as int].dir@ == dir@);
    }

    /// Look `name` up in the directory `dir`.
    pub fn contains_file(&self, dir: &Vec<String>, name: &String) -> (r: bool)
        ensures
            r == self.contains(dir.deep_view(), name@),
    {
        let n = self.entries.len();
        let mut i: usize = 0;
        while i < n
            invariant
                n == self.entries@.len(),
                i <= n,
                forall|j: int|
                    0 <= j < i ==> !(self.entries@[j].dir@ == dir.deep_view()
                        && self.entries@[j].name@ == name@),
            decreases n - i,
        {
            let e = &self.entries[i];
            if components_eq(&e.dir.components, dir) && string_eq(&e.name, name) {
                return true;
            }
            i += 1;
        }
        false
    }
}

/// The set of binary names that resolve on the executable search path.
pub struct BinView {
    pub names: Vec<String>,
}

impl BinView {
    /// Whether the view records `name` as resolvable.
    pub open spec fn resolvable(self, name: Seq<char>) -> bool {
        exists|i: int| 0 <= i < self.names@.len() && self.names@[i]@ == name
    }

    pub fn new() -> (r: BinView)
        ensures
            forall|n: Seq<char>| !r.resolvable(n),
    {
        BinView { names: Vec::new() }
    }

    /// Record that `name` resolves.
    pub fn record(&mut self, name: String)
        ensures
            final(self).resolvable(name@),
            forall|n: Seq<char>| old(self).resolvable(n) ==> final(self).resolvable(n),
            forall|n: Seq<char>|
                final(self).resolvable(n) ==> old(self).resolvable(n) || n == name@,
    {
        let ghost pre = self.names@;
        self.names.push(name);
        assert(forall|i: int| 0 <= i < pre.len() ==> self.names@[i] == pre[i]);
        assert(self.names@[pre.len() as int]@ == name@);
    }

    /// Look `name` up in the view.
    pub fn is_resolvable(&self, name: &String) -> (r: bool)
        ensures
            r == self.resolvable(name@),
    {
        let n = self.names.len();
        let mut i: usize = 0;
        while i < n
            invariant
                n == self.names@.len(),
                i <= n,
                forall|j: int| 0 <= j < i ==> self.names@[j]@ != name@,
            decreases n - i,
        {
            if string_eq(&self.names[i], name) {
                return true;
            }
            i += 1;
        }
        false
    }
}

} // verus!
