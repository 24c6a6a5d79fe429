//! Whitespace tokenization of command strings. A command string is the
//! program name followed by its arguments; separators never reach a token,
//! so a token with an embedded space cannot be written.

use vstd::prelude::*;
use vstd::string::*;

verus! {

/// The characters treated as token separators.
pub open spec fn spec_is_space(c: char) -> bool {
    c == ' ' || c == '\t' || c == '\n' || c == '\r'
}

pub fn is_space(c: char) -> (r: bool)
    ensures
        r == spec_is_space(c),
{
    c == ' ' || c == '\t' || c == '\n' || c == '\r'
}

/// The tokens of `s`, given a token `cur` already begun to the left of
/// `s` and not yet closed.
pub open spec fn spec_tokens_from(s: Seq<char>, cur: Seq<char>) -> Seq<Seq<char>>
    decreases s.len(),
{
    if s.len() == 0 {
        if cur.len() == 0 {
            Seq::empty()
        } else {
            seq![cur]
        }
    } else if spec_is_space(s[0]) {
        (if cur.len() == 0 {
            Seq::<Seq<char>>::empty()
        } else {
            seq![cur]
        }) + spec_tokens_from(s.skip(1), Seq::empty())
    } else {
        spec_tokens_from(s.skip(1), cur.push(s[0]))
    }
}

/// The whitespace-separated tokens of `s`, in order.
pub open spec fn spec_tokens(s: Seq<char>) -> Seq<Seq<char>> {
    spec_tokens_from(s, Seq::empty())
}

/// Split a command string into its whitespace-separated tokens.
pub fn tokenize(s: &str) -> (r: Vec<String>)
    ensures
        r.deep_view() == spec_tokens(s@),
{
    let n = s.unicode_len();
    let mut toks: Vec<String> = Vec::new();
    let mut i: usize = 0;
    let mut start: usize = 0;
    proof {
        assert(s@.skip(0) =~= s@);
        assert(s@.subrange(0, 0) =~= Seq::<char>::empty());
        assert(toks.deep_view() =~= Seq::<Seq<char>>::empty());
        assert(Seq::<Seq<char>>::empty() + spec_tokens_from(s@, Seq::empty())
            =~= spec_tokens_from(s@, Seq::empty()));
    }
    while i < n
        invariant
            start <= i <= n,
            n == s@.len(),
            spec_tokens(s@) == toks.deep_view() + spec_tokens_from(
                s@.skip(i as int),
                s@.subrange(start as int, i as int),
            ),
        decreases n - i,
    {
        let ghost rest = s@.skip(i as int);
        let ghost cur = s@.subrange(start as int, i as int);
        assert(rest[0] == s@[i as int]);
        let c = s.get_char(i);
        if is_space(c) {
            proof {
                assert(rest.skip(1) =~= s@.skip(i + 1));
                assert(s@.subrange(i + 1, i + 1) =~= Seq::<char>::empty());
            }
            if start < i {
                let t = s.substring_char(start, i);
                let ghost pre = toks.deep_view();
                toks.push(t.to_owned());
                proof {
                    assert(toks.deep_view() =~= pre + seq![cur]);
                    assert(spec_tokens_from(rest, cur) == seq![cur] + spec_tokens_from(
                        rest.skip(1),
                        Seq::empty(),
                    ));
                    assert(pre + (seq![cur] + spec_tokens_from(rest.skip(1), Seq::empty()))
                        =~= (pre + seq![cur]) + spec_tokens_from(rest.skip(1), Seq::empty()));
                }
            } else {
                proof {
                    assert(cur =~= Seq::<char>::empty());
                    assert(spec_tokens_from(rest, cur) == (Seq::<Seq<char>>::empty()
                        + spec_tokens_from(rest.skip(1), Seq::empty())));
                    assert(Seq::<Seq<char>>::empty() + spec_tokens_from(rest.skip(1), Seq::empty())
                        =~= spec_tokens_from(rest.skip(1), Seq::empty()));
                }
            }
            i += 1;
            start = i;
        } else {
            proof {
                assert(rest.skip(1) =~= s@.skip(i + 1));
                assert(cur.push(s@[i as int]) =~= s@.subrange(start as int, i + 1));
            }
            i += 1;
        }
    }
    proof {
        assert(s@.skip(n as int) =~= Seq::<char>::empty());
    }
    if start < n {
        let t = s.substring_char(start, n);
        let ghost pre = toks.deep_view();
        let ghost cur = s@.subrange(start as int, n as int);
        toks.push(t.to_owned());
        proof {
            assert(toks.deep_view() =~= pre + seq![cur]);
            assert(spec_tokens_from(Seq::<char>::empty(), cur) == seq![cur]);
            assert(pre + seq![cur] =~= spec_tokens(s@)) by {
                assert(spec_tokens_from(s@.skip(n as int), cur) == seq![cur]);
            }
        }
    } else {
        proof {
            let ghost cur = s@.subrange(start as int, n as int);
            assert(cur =~= Seq::<char>::empty());
            assert(spec_tokens_from(Seq::<char>::empty(), Seq::<char>::empty())
                == Seq::<Seq<char>>::empty());
            assert(toks.deep_view() + Seq::<Seq<char>>::empty() =~= toks.deep_view());
        }
    }
    toks
}

} // verus!
