//! The pure half of running one external command: the tokens handed to
//! the spawned process, the fixed-prefix re-emission of its output lines,
//! and the observed terminal state of the child.

use vstd::prelude::*;
use vstd::string::*;

verus! {

/// The terminal state of one executed command: its numeric exit code, or
/// a runner-level failure — the program did not resolve on the search
/// path, or the child ended without a numeric exit code (for instance
/// killed by a signal).
#[derive(Debug, Clone, Copy, PartialEq, Eq, Structural)]
pub enum RunOutcome {
    Exited(i32),
    NotFound,
    NoExitCode,
}

/// One runnable command: its whitespace-split tokens, and the indent
/// prefixed to every line the child prints.
pub struct Command {
    pub tokens: Vec<String>,
    pub indent: String,
}

impl Command {
    pub fn new(tokens: Vec<String>, indent: String) -> (r: Command)
        ensures
            r.tokens == tokens,
            r.indent == indent,
    {
        Command { tokens, indent }
    }

    /// The program to resolve and spawn: the first token.
    pub fn program(&self) -> (r: Option<&String>)
        ensures
            match r {
                Some(p) => self.tokens@.len() > 0 && p@ == self.tokens.deep_view()[0],
                None => self.tokens@.len() == 0,
            },
    {
        if self.tokens.len() > 0 {
            assert(self.tokens.deep_view()[0] == self.tokens@[0]@);
            Some(&self.tokens[0])
        } else {
            None
        }
    }

    /// The arguments handed to the program: every token after the first.
    pub fn args(&self) -> (r: Vec<String>)
        ensures
            self.tokens@.len() == 0 ==> r.deep_view() == Seq::<Seq<char>>::empty(),
            self.tokens@.len() > 0 ==> r.deep_view() == self.tokens.deep_view().skip(1),
    {
        let n = self.tokens.len();
        let mut r: Vec<String> = Vec::new();
        if n == 0 {
            proof {
                assert(r.deep_view() =~= Seq::<Seq<char>>::empty());
            }
            return r;
        }
        let mut i: usize = 1;
        proof {
            assert(r.deep_view() =~= self.tokens.deep_view().subrange(1, 1));
        }
        while i < n
            invariant
                1 <= i <= n,
                n == self.tokens@.len(),
                r.deep_view() == self.tokens.deep_view().subrange(1, i as int),
            decreases n - i,
        {
            let ghost pre = r.deep_view();
            let next = self.tokens[i].clone();
            assert(next@ == self.tokens.deep_view()[i as int]);
            r.push(next);
            proof {
                assert(r.deep_view() =~= pre.push(next@));
                assert(pre.push(next@) =~= self.tokens.deep_view().subrange(1, i + 1));
            }
            i += 1;
        }
        proof {
            assert(self.tokens.deep_view().subrange(1, n as int)
                =~= self.tokens.deep_view().skip(1));
        }
        r
    }

    /// A child output line as it is re-emitted: the indent, then the line.
    pub fn prefix_line(&self, line: &str) -> (r: String)
        ensures
            r@ == self.indent@ + line@,
    {
        let out = self.indent.clone();
        out.concat(line)
    }
}

/// The indent prefixed to child output when none is configured.
pub fn default_indent() -> (r: String)
    ensures
        r@ == "   "@,
{
    String::from_str("   ")
}

} // verus!
