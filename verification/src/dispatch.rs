//! Resolving an operation to a profile's tool list, and the fail-fast
//! loop that runs the list one command at a time.

use vstd::prelude::*;
use crate::config::{Config, ConfigError, Entry, StringOrVec, Tools};
use crate::paths::DirPath;
use crate::runner::RunOutcome;
use crate::tokenize::{spec_tokens, tokenize};
use crate::views::{BinView, FsView};

verus! {

/// The process exit status reported for configuration and resolution
/// failures, and for runner-level failures such as an unresolvable
/// program.
pub const FAILURE_CODE: i32 = 1;

/// The operation the program was invoked to perform.
#[derive(Debug, Clone, Copy, PartialEq, Eq, Structural)]
pub enum Operation {
    Format,
    Check,
    Build,
    Test,
    Run,
}

impl Operation {
    /// The operation's name, as configuration and diagnostics spell it.
    pub open spec fn spec_name(self) -> Seq<char> {
        match self {
            Operation::Format => "format"@,
            Operation::Check => "check"@,
            Operation::Build => "build"@,
            Operation::Test => "test"@,
            Operation::Run => "run"@,
        }
    }

    pub fn name(&self) -> (r: String)
        ensures
            r@ == self.spec_name(),
    {
        match self {
            Operation::Format => String::from_str("format"),
            Operation::Check => String::from_str("check"),
            Operation::Build => String::from_str("build"),
            Operation::Test => String::from_str("test"),
            Operation::Run => String::from_str("run"),
        }
    }
}

impl Tools {
    /// The tool list registered for `op`, if any.
    pub open spec fn spec_get(self, op: Operation) -> Option<StringOrVec> {
        match op {
            Operation::Format => self.format,
            Operation::Check => self.check,
            Operation::Build => self.build,
            Operation::Test => self.test,
            Operation::Run => self.run,
        }
    }

    pub fn get(&self, op: Operation) -> (r: &Option<StringOrVec>)
        ensures
            *r == self.spec_get(op),
    {
        match op {
            Operation::Format => &self.format,
            Operation::Check => &self.check,
            Operation::Build => &self.build,
            Operation::Test => &self.test,
            Operation::Run => &self.run,
        }
    }
}

/// The index of the first profile of the list that matches, scanning in
/// list order.
pub open spec fn spec_find_match(
    entries: Seq<Entry>,
    cwd: Seq<Seq<char>>,
    root: Seq<Seq<char>>,
    fs: FsView,
    bins: BinView,
) -> Option<int>
    decreases entries.len(),
{
    if entries.len() == 0 {
        Option::None
    } else if entries[0].spec_matches(cwd, root, fs, bins) {
        Option::Some(0int)
    } else {
        match spec_find_match(entries.skip(1), cwd, root, fs, bins) {
            Option::None => Option::None,
            Option::Some(i) => Option::Some(i + 1),
        }
    }
}

/// What `spec_find_match` returns: the first matching index, or nothing
/// when no profile matches.
pub proof fn lemma_find_match_characterization(
    entries: Seq<Entry>,
    cwd: Seq<Seq<char>>,
    root: Seq<Seq<char>>,
    fs: FsView,
    bins: BinView,
)
    ensures
        match spec_find_match(entries, cwd, root, fs, bins) {
            Option::Some(i) => 0 <= i < entries.len() && entries[i].spec_matches(cwd, root, fs, bins)
                && forall|j: int| 0 <= j < i ==> !entries[j].spec_matches(cwd, root, fs, bins),
            Option::None => forall|j: int|
                0 <= j < entries.len() ==> !entries[j].spec_matches(cwd, root, fs, bins),
        },
    decreases entries.len(),
{
    if entries.len() == 0 {
    } else if entries[0].spec_matches(cwd, root, fs, bins) {
    } else {
        lemma_find_match_characterization(entries.skip(1), cwd, root, fs, bins);
        assert(forall|j: int| 0 <= j < entries.len() - 1 ==> entries.skip(1)[j] == entries[j + 1]);
        match spec_find_match(entries.skip(1), cwd, root, fs, bins) {
            Option::Some(i) => {
                assert(entries[i + 1].spec_matches(cwd, root, fs, bins));
                assert forall|j: int| 0 <= j < i + 1 implies !entries[j].spec_matches(
                    cwd,
                    root,
                    fs,
                    bins,
                ) by {
                    if j > 0 {
                        assert(entries.skip(1)[j - 1] == entries[j]);
                    }
                }
            },
            Option::None => {
                assert forall|j: int| 0 <= j < entries.len() implies !entries[j].spec_matches(
                    cwd,
                    root,
                    fs,
                    bins,
                ) by {
                    if j > 0 {
                        assert(entries.skip(1)[j - 1] == entries[j]);
                    }
                }
            },
        }
    }
}

/// The converse: a first matching index determines the result.
pub proof fn lemma_find_match_at(
    entries: Seq<Entry>,
    cwd: Seq<Seq<char>>,
    root: Seq<Seq<char>>,
    fs: FsView,
    bins: BinView,
    i: int,
)
    requires
        0 <= i < entries.len(),
        entries[i].spec_matches(cwd, root, fs, bins),
        forall|j: int| 0 <= j < i ==> !entries[j].spec_matches(cwd, root, fs, bins),
    ensures
        spec_find_match(entries, cwd, root, fs, bins) == Option::Some(i),
    decreases entries.len(),
{
    if i == 0 {
    } else {
        assert(forall|j: int| 0 <= j < entries.len() - 1 ==> entries.skip(1)[j] == entries[j + 1]);
        lemma_find_match_at(entries.skip(1), cwd, root, fs, bins, i - 1);
    }
}

/// No matching index means no result.
pub proof fn lemma_find_match_none(
    entries: Seq<Entry>,
    cwd: Seq<Seq<char>>,
    root: Seq<Seq<char>>,
    fs: FsView,
    bins: BinView,
)
    requires
        forall|j: int| 0 <= j < entries.len() ==> !entries[j].spec_matches(cwd, root, fs, bins),
    ensures
        spec_find_match(entries, cwd, root, fs, bins) is None,
    decreases entries.len(),
{
    if entries.len() == 0 {
    } else {
        assert(forall|j: int| 0 <= j < entries.len() - 1 ==> entries.skip(1)[j] == entries[j + 1]);
        lemma_find_match_none(entries.skip(1), cwd, root, fs, bins);
    }
}

/// Matching is first-match: of two profiles that both match, the earlier
/// one in the list is the one selected.
pub proof fn lemma_first_match_wins(
    entries: Seq<Entry>,
    cwd: Seq<Seq<char>>,
    root: Seq<Seq<char>>,
    fs: FsView,
    bins: BinView,
    i: int,
    j: int,
)
    requires
        0 <= i < j < entries.len(),
        entries[i].spec_matches(cwd, root, fs, bins),
        entries[j].spec_matches(cwd, root, fs, bins),
    ensures
        spec_find_match(entries, cwd, root, fs, bins) matches Option::Some(k) && k <= i < j,
{
    lemma_find_match_characterization(entries, cwd, root, fs, bins);
    match spec_find_match(entries, cwd, root, fs, bins) {
        Option::Some(k) => {
            if k > i {
                assert(!entries[i].spec_matches(cwd, root, fs, bins));
            }
        },
        Option::None => {
            assert(!entries[i].spec_matches(cwd, root, fs, bins));
        },
    }
}

/// Scan the merged profile list in order and return the index of the
/// first profile whose preconditions all hold; absence of a match is not
/// an error here.
pub fn find_match(
    config: &Config,
    cwd: &DirPath,
    repo_root: &DirPath,
    fs: &FsView,
    bins: &BinView,
) -> (r: Option<usize>)
    ensures
        match r {
            Option::Some(i) => spec_find_match(config.entries@, cwd@, repo_root@, *fs, *bins)
                == Option::Some(i as int) && i < config.entries@.len(),
            Option::None => spec_find_match(config.entries@, cwd@, repo_root@, *fs, *bins) is None,
        },
{
    let n = config.entries.len();
    let mut i: usize = 0;
    while i < n
        invariant
            n == config.entries@.len(),
            i <= n,
            forall|j: int|
                0 <= j < i ==> !config.entries@[j].spec_matches(cwd@, repo_root@, *fs, *bins),
        decreases n - i,
    {
        if config.entries[i].matches(cwd, repo_root, fs, bins) {
            proof {
                lemma_find_match_at(config.entries@, cwd@, repo_root@, *fs, *bins, i as int);
            }
            return Some(i);
        }
        i += 1;
    }
    proof {
        lemma_find_match_none(config.entries@, cwd@, repo_root@, *fs, *bins);
    }
    None
}

/// A resolution failure: either no profile matched, or the matched
/// profile registers no tool list for the requested operation. Both are
/// terminal for the invocation.
#[derive(Debug, Clone, Copy, PartialEq, Eq, Structural)]
pub enum DispatchError {
    NoMatch,
    NoToolsForOperation,
}

impl DispatchError {
    /// The fixed non-zero process exit status for a resolution failure.
    pub fn exit_code(&self) -> (r: i32)
        ensures
            r == FAILURE_CODE,
    {
        FAILURE_CODE
    }
}

impl ConfigError {
    /// The fixed non-zero process exit status for a configuration failure.
    pub fn exit_code(&self) -> (r: i32)
        ensures
            r == FAILURE_CODE,
    {
        FAILURE_CODE
    }
}

/// Resolve `op` against the merged configuration: take the first matching
/// profile and hand back its command list for `op`. Success is owed
/// exactly when a profile matches and registers a list for `op`; a
/// matched profile without one is a configuration error, not a reason to
/// scan further.
pub fn select_commands(
    config: &Config,
    op: Operation,
    cwd: &DirPath,
    repo_root: &DirPath,
    fs: &FsView,
    bins: &BinView,
) -> (r: Result<Vec<String>, DispatchError>)
    ensures
        match r {
            Result::Ok(cmds) => spec_find_match(config.entries@, cwd@, repo_root@, *fs, *bins)
                matches Option::Some(k) && config.entries@[k].tools.spec_get(op)
                matches Option::Some(sv) && cmds.deep_view() == sv.names(),
            Result::Err(e) => match e {
                DispatchError::NoMatch => spec_find_match(
                    config.entries@,
                    cwd@,
                    repo_root@,
                    *fs,
                    *bins,
                ) is None,
                DispatchError::NoToolsForOperation => spec_find_match(
                    config.entries@,
                    cwd@,
                    repo_root@,
                    *fs,
                    *bins,
                ) matches Option::Some(k) && config.entries@[k].tools.spec_get(op) is None,
            },
        },
{
    match find_match(config, cwd, repo_root, fs, bins) {
        Option::Some(i) => match config.entries[i].tools.get(op) {
            Option::Some(sv) => Result::Ok(sv.to_vec()),
            Option::None => Result::Err(DispatchError::NoToolsForOperation),
        },
        Option::None => Result::Err(DispatchError::NoMatch),
    }
}

/// Where a dispatch stands: still running commands, finished with every
/// command at exit code zero, or stopped at the first failure with the
/// status it will report.
#[derive(Debug, Clone, Copy, PartialEq, Eq, Structural)]
pub enum DispatchStatus {
    Running,
    Succeeded,
    Failed(i32),
}

/// What the driver of the loop does next.
pub enum Action {
    /// Spawn this token list and report the outcome.
    Execute(Vec<String>),
    /// Print this command without running it.
    DryRun(String),
    /// Nothing: the dispatch is terminal.
    Done,
}

/// The fail-fast command loop, as a state machine: the driver asks for
/// the next action, performs whatever outside work it names, and reports
/// what happened; the machine decides how the loop goes on.
pub struct Dispatch {
    pub commands: Vec<String>,
    pub dry_run: bool,
    pub index: usize,
    pub status: DispatchStatus,
}

impl Dispatch {
    pub open spec fn wf(self) -> bool {
        &&& self.index <= self.commands@.len()
        &&& (self.status is Running ==> self.index < self.commands@.len())
        &&& (self.status is Succeeded ==> self.index == self.commands@.len())
        &&& (self.dry_run ==> !(self.status is Failed))
    }

    /// Start a dispatch over `commands`, in declared order.
    pub fn new(commands: Vec<String>, dry_run: bool) -> (d: Dispatch)
        ensures
            d.wf(),
            d.commands == commands,
            d.dry_run == dry_run,
            d.index == 0,
            d.status == if commands@.len() == 0 {
                DispatchStatus::Succeeded
            } else {
                DispatchStatus::Running
            },
    {
        let status = if commands.len() == 0 {
            DispatchStatus::Succeeded
        } else {
            DispatchStatus::Running
        };
        Dispatch { commands, dry_run, index: 0, status }
    }

    /// The next step. In dry-run mode no command is ever handed out for
    /// execution; a terminal dispatch hands out nothing at all.
    pub fn next_action(&self) -> (r: Action)
        requires
            self.wf(),
        ensures
            !(self.status is Running) ==> r is Done,
            self.status is Running && self.dry_run ==> (r matches Action::DryRun(c) && c@
                == self.commands.deep_view()[self.index as int]),
            self.status is Running && !self.dry_run ==> (r matches Action::Execute(t)
                && t.deep_view() == spec_tokens(self.commands.deep_view()[self.index as int])),
            self.dry_run ==> !(r is Execute),
    {
        match self.status {
            DispatchStatus::Running => {
                assert(self.commands.deep_view()[self.index as int]
                    == self.commands@[self.index as int]@);
                if self.dry_run {
                    Action::DryRun(self.commands[self.index].clone())
                } else {
                    Action::Execute(tokenize(self.commands[self.index].as_str()))
                }
            },
            _ => Action::Done,
        }
    }

    /// Record that the current command was printed, not run: a dry-run
    /// step is trivially successful and does not change control flow.
    pub fn advance_dry(&mut self)
        requires
            old(self).wf(),
            old(self).status is Running,
            old(self).dry_run,
        ensures
            final(self).wf(),
            final(self).commands == old(self).commands,
            final(self).dry_run == old(self).dry_run,
            final(self).index == old(self).index + 1,
            final(self).status == if old(self).index + 1 == old(self).commands@.len() {
                DispatchStatus::Succeeded
            } else {
                DispatchStatus::Running
            },
    {
        let n = self.commands.len();
        self.index += 1;
        if self.index == n {
            self.status = DispatchStatus::Succeeded;
        }
    }

    /// Record the outcome of the command just executed. The first
    /// non-zero exit code, and any runner-level failure, stops the loop
    /// at once; only exit code zero lets the next command run.
    pub fn advance(&mut self, outcome: RunOutcome)
        requires
            old(self).wf(),
            old(self).status is Running,
            !old(self).dry_run,
        ensures
            final(self).wf(),
            final(self).commands == old(self).commands,
            final(self).dry_run == old(self).dry_run,
            outcome == RunOutcome::Exited(0i32) ==> final(self).index == old(self).index + 1
                && final(self).status == if old(self).index + 1 == old(self).commands@.len() {
                DispatchStatus::Succeeded
            } else {
                DispatchStatus::Running
            },
            outcome matches RunOutcome::Exited(c) ==> (c != 0 ==> final(self).status
                == DispatchStatus::Failed(c) && final(self).index == old(self).index),
            (outcome is NotFound || outcome is NoExitCode) ==> final(self).status
                == DispatchStatus::Failed(FAILURE_CODE) && final(self).index == old(self).index,
    {
        match outcome {
            RunOutcome::Exited(code) => {
                if code == 0 {
                    let n = self.commands.len();
                    self.index += 1;
                    if self.index == n {
                        self.status = DispatchStatus::Succeeded;
                    }
                } else {
                    self.status = DispatchStatus::Failed(code);
                }
            },
            _ => {
                self.status = DispatchStatus::Failed(FAILURE_CODE);
            },
        }
    }

    /// The process exit status a terminal dispatch reports: zero after
    /// full success, the first failing command's own code otherwise.
    pub fn exit_code(&self) -> (r: i32)
        requires
            !(self.status is Running),
        ensures
            self.status is Succeeded ==> r == 0,
            self.status matches DispatchStatus::Failed(c) ==> r == c,
    {
        match self.status {
            DispatchStatus::Succeeded => 0,
            DispatchStatus::Failed(code) => code,
            DispatchStatus::Running => 0,
        }
    }
}

/// In dry-run mode a dispatch can never stand failed: the loop reports
/// success once every command has been printed.
pub proof fn lemma_dry_run_never_fails(d: Dispatch)
    requires
        d.wf(),
        d.dry_run,
    ensures
        !(d.status is Failed),
{
}

} // verus!
