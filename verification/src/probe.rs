//! The one ambient fact the matcher needs from the machine: which binary
//! names resolve on the executable search path.

use vstd::prelude::*;
use crate::views::BinView;

verus! {

/// Relies on which::which: it returns Ok exactly when `name` resolves to
/// an executable on the search path. The outcome depends on the machine's
/// environment, so nothing is promised of it; callers record whichever
/// answer came back and reason from the record.
#[verifier::external_body]
fn which_resolves(name: &String) -> bool {
    which::which(name.as_str()).is_ok()
}

/// Ask the search path about each of `names` and record the ones that
/// resolved. Whatever the machine answered, the view only ever claims
/// names that were actually given.
pub fn resolve_binaries(names: &Vec<String>) -> (r: BinView)
    ensures
        forall|n: Seq<char>| #[trigger] r.resolvable(n) ==> names.deep_view().contains(n),
{
    let mut r = BinView::new();
    let count = names.len();
    let mut i: usize = 0;
    while i < count
        invariant
            count == names@.len(),
            i <= count,
            forall|n: Seq<char>| #[trigger] r.resolvable(n) ==> names.deep_view().contains(n),
        decreases count - i,
    {
        if which_resolves(&names[i]) {
            assert(names.deep_view()[i as int] == names@[i as int]@);
            r.record(names[i].clone());
        }
        i += 1;
    }
    r
}

} // verus!
