//! The configuration model: profiles (entries), their preconditions, their
//! per-operation tool lists, and the merge of the two configuration
//! sources.

use vstd::prelude::*;
use crate::paths::DirPath;
use crate::search::{spec_path_search, path_search, Direction};
use crate::views::{BinView, FsView};

verus! {

/// A tool list written either as one command string or as a list of them.
#[derive(Debug, Clone)]
pub enum StringOrVec {
    Single(String),
    Multiple(Vec<String>),
}

impl StringOrVec {
    /// The strings held, as a sequence in either form.
    pub open spec fn names(self) -> Seq<Seq<char>> {
        match self {
            StringOrVec::Single(s) => seq![s@],
            StringOrVec::Multiple(v) => v.deep_view(),
        }
    }

    pub fn to_vec(&self) -> (r: Vec<String>)
        ensures
            r.deep_view() == self.names(),
    {
        match self {
            StringOrVec::Single(s) => {
                let r = vec![s.clone()];
                proof {
                    assert(r.deep_view() =~= seq![s@]);
                }
                r
            },
            StringOrVec::Multiple(v) => {
                let r = v.clone();
                proof {
                    assert(r.deep_view() =~= v.deep_view());
                }
                r
            },
        }
    }
}

/// The commands a profile registers, one optional list per operation.
#[derive(Debug, Clone)]
pub struct Tools {
    pub format: Option<StringOrVec>,
    pub check: Option<StringOrVec>,
    pub build: Option<StringOrVec>,
    pub test: Option<StringOrVec>,
    pub run: Option<StringOrVec>,
}

/// A profile's file requirement: every named file must be found by a
/// search in the declared direction.
#[derive(Debug, Clone)]
pub struct File {
    pub name: StringOrVec,
    pub search_direction: Direction,
}

/// A named profile: preconditions on the working directory, and the tool
/// lists it registers.
#[derive(Debug, Clone)]
pub struct Entry {
    pub name: String,
    pub bin: Option<StringOrVec>,
    pub file: Option<File>,
    pub tools: Tools,
}

impl Entry {
    /// The binary names the profile requires on the search path.
    pub open spec fn bin_names(self) -> Seq<Seq<char>> {
        match self.bin {
            Option::None => Seq::empty(),
            Option::Some(sv) => sv.names(),
        }
    }

    /// Every required binary resolves, according to `bins`.
    pub open spec fn bins_ok(self, bins: BinView) -> bool {
        forall|i: int|
            0 <= i < self.bin_names().len() ==> bins.resolvable(#[trigger] self.bin_names()[i])
    }

    /// Every required file is found by a search in the declared direction.
    pub open spec fn files_ok(
        self,
        cwd: Seq<Seq<char>>,
        root: Seq<Seq<char>>,
        fs: FsView,
    ) -> bool {
        match self.file {
            Option::None => true,
            Option::Some(f) => forall|i: int|
                0 <= i < f.name.names().len() ==> spec_path_search(
                    cwd,
                    root,
                    f.search_direction,
                    #[trigger] f.name.names()[i],
                    fs,
                ),
        }
    }

    /// A profile matches when all its required binaries resolve and all
    /// its required files are found. One with no requirements always
    /// matches.
    pub open spec fn spec_matches(
        self,
        cwd: Seq<Seq<char>>,
        root: Seq<Seq<char>>,
        fs: FsView,
        bins: BinView,
    ) -> bool {
        self.bins_ok(bins) && self.files_ok(cwd, root, fs)
    }

    pub fn matches(&self, cwd: &DirPath, repo_root: &DirPath, fs: &FsView, bins: &BinView) -> (r:
        bool)
        ensures
            r == self.spec_matches(cwd@, repo_root@, *fs, *bins),
    {
        if let Some(bin) = &self.bin {
            let names = bin.to_vec();
            let n = names.len();
            let mut i: usize = 0;
            assert(names.deep_view() == self.bin_names());
            while i < n
                invariant
                    n == names@.len(),
                    i <= n,
                    names.deep_view() == self.bin_names(),
                    forall|j: int|
                        0 <= j < i ==> bins.resolvable(#[trigger] names.deep_view()[j]),
                decreases n - i,
            {
                assert(names.deep_view()[i as int] == names@[i as int]@);
                if !bins.is_resolvable(&names[i]) {
                    return false;
                }
                i += 1;
            }
        }
        if let Some(file) = &self.file {
            let fnames = file.name.to_vec();
            let n = fnames.len();
            let mut i: usize = 0;
            while i < n
                invariant
                    n == fnames@.len(),
                    i <= n,
                    self.file == Option::Some(*file),
                    fnames.deep_view() == file.name.names(),
                    forall|j: int|
                        0 <= j < i ==> spec_path_search(
                            cwd@,
                            repo_root@,
                            file.search_direction,
                            #[trigger] fnames.deep_view()[j],
                            *fs,
                        ),
                decreases n - i,
            {
                assert(fnames.deep_view()[i as int] == fnames@[i as int]@);
                if !path_search(cwd, repo_root, &file.search_direction, &fnames[i], fs) {
                    proof {
                        assert(self.file is Some);
                        let ghost f = self.file.unwrap();
                        assert(f == *file);
                        assert(!spec_path_search(
                            cwd@,
                            repo_root@,
                            f.search_direction,
                            f.name.names()[i as int],
                            *fs,
                        ));
                    }
                    return false;
                }
                i += 1;
            }
        }
        true
    }
}

/// The file names an entry's file requirement asks for, if any.
pub open spec fn entry_file_names(e: Entry) -> Seq<Seq<char>> {
    match e.file {
        Option::None => Seq::empty(),
        Option::Some(f) => f.name.names(),
    }
}

/// The binary names an entry requires, if any.
pub open spec fn entry_bin_names(e: Entry) -> Seq<Seq<char>> {
    e.bin_names()
}

/// All file names that any entry of the list asks for, in list order.
pub open spec fn spec_file_names(entries: Seq<Entry>) -> Seq<Seq<char>>
    decreases entries.len(),
{
    if entries.len() == 0 {
        Seq::empty()
    } else {
        spec_file_names(entries.drop_last()) + entry_file_names(entries.last())
    }
}

/// All binary names that any entry of the list requires, in list order.
pub open spec fn spec_bin_names(entries: Seq<Entry>) -> Seq<Seq<char>>
    decreases entries.len(),
{
    if entries.len() == 0 {
        Seq::empty()
    } else {
        spec_bin_names(entries.drop_last()) + entry_bin_names(entries.last())
    }
}

/// An ordered profile list from one configuration source.
#[derive(Debug, Clone)]
pub struct Config {
    pub entries: Vec<Entry>,
}

impl Config {
    /// Append another source's profiles after this source's own.
    pub fn append(&mut self, other: Config)
        ensures
            final(self).entries@ == old(self).entries@ + other.entries@,
    {
        let mut other = other;
        self.entries.append(&mut other.entries);
    }

    /// Every file name any profile of this configuration asks for.
    pub fn file_names(&self) -> (r: Vec<String>)
        ensures
            r.deep_view() == spec_file_names(self.entries@),
    {
        let n = self.entries.len();
        let mut r: Vec<String> = Vec::new();
        let mut i: usize = 0;
        assert(r.deep_view() =~= spec_file_names(self.entries@.take(0)));
        while i < n
            invariant
                n == self.entries@.len(),
                i <= n,
                r.deep_view() == spec_file_names(self.entries@.take(i as int)),
            decreases n - i,
        {
            let ghost pre = r.deep_view();
            if let Some(file) = &self.entries[i].file {
                let mut part = file.name.to_vec();
                r.append(&mut part);
                proof {
                    assert(r.deep_view() =~= pre + entry_file_names(self.entries@[i as int]));
                }
            }
            proof {
                let taken = self.entries@.take(i + 1);
                assert(taken.drop_last() =~= self.entries@.take(i as int));
                assert(taken.last() == self.entries@[i as int]);
                if self.entries@[i as int].file is None {
                    assert(r.deep_view() =~= pre + entry_file_names(self.entries@[i as int]));
                }
            }
            i += 1;
        }
        proof {
            assert(self.entries@.take(n as int) =~= self.entries@);
        }
        r
    }

    /// Every binary name any profile of this configuration requires.
    pub fn bin_names(&self) -> (r: Vec<String>)
        ensures
            r.deep_view() == spec_bin_names(self.entries@),
    {
        let n = self.entries.len();
        let mut r: Vec<String> = Vec::new();
        let mut i: usize = 0;
        assert(r.deep_view() =~= spec_bin_names(self.entries@.take(0)));
        while i < n
            invariant
                n == self.entries@.len(),
                i <= n,
                r.deep_view() == spec_bin_names(self.entries@.take(i as int)),
            decreases n - i,
        {
            let ghost pre = r.deep_view();
            if let Some(bin) = &self.entries[i].bin {
                let mut part = bin.to_vec();
                r.append(&mut part);
                proof {
                    assert(r.deep_view() =~= pre + entry_bin_names(self.entries@[i as int]));
                }
            }
            proof {
                let taken = self.entries@.take(i + 1);
                assert(taken.drop_last() =~= self.entries@.take(i as int));
                assert(taken.last() == self.entries@[i as int]);
                if self.entries@[i as int].bin is None {
                    assert(r.deep_view() =~= pre + entry_bin_names(self.entries@[i as int]));
                }
            }
            i += 1;
        }
        proof {
            assert(self.entries@.take(n as int) =~= self.entries@);
        }
        r
    }
}

/// Neither configuration source was present: a terminal condition for the
/// whole invocation.
#[derive(Debug, Clone, Copy)]
pub enum ConfigError {
    NoConfigFound,
}

/// Combine the repository-scoped and user-scoped configuration sources.
/// Repository profiles precede user profiles, so repository rules shadow
/// user rules when both would match; a single present source is used
/// unchanged; two absent sources are the no-configuration condition.
pub fn merge(repo: Option<Config>, user: Option<Config>) -> (r: Result<Config, ConfigError>)
    ensures
        (repo is Some && user is Some) ==> (r matches Ok(c) && c.entries@
            == repo->0.entries@ + user->0.entries@),
        (repo is Some && user is None) ==> (r matches Ok(c) && c == repo->0),
        (repo is None && user is Some) ==> (r matches Ok(c) && c == user->0),
        (repo is None && user is None) ==> (r matches Err(e) && e is NoConfigFound),
{
    match (repo, user) {
        (Some(mut rc), Some(uc)) => {
            rc.append(uc);
            Ok(rc)
        },
        (Some(rc), None) => Ok(rc),
        (None, Some(uc)) => Ok(uc),
        (None, None) => Err(ConfigError::NoConfigFound),
    }
}

} // verus!
