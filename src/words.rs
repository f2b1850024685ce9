//! The first word of a text.

use vstd::prelude::*;
use vstd::string::StrSliceExecFns;

verus! {

/// Whether no character of `s` is a space.
pub open spec fn has_no_space(s: Seq<char>) -> bool {
    forall|i: int| 0 <= i < s.len() ==> #[trigger] s[i] != ' '
}

/// The text before the first space of `s`, or all of `s` when it holds
/// no space.
pub fn first_word(s: &str) -> (r: &str)
    ensures
        r@.len() <= s@.len(),
        r@ == s@.take(r@.len() as int),
        has_no_space(r@),
        r@.len() < s@.len() ==> s@[r@.len() as int] == ' ',
{
    let n = s.unicode_len();
    let mut i: usize = 0;
    while i < n
        invariant
            n == s@.len(),
            i <= n,
            has_no_space(s@.take(i as int)),
        decreases n - i,
    {
        if s.get_char(i) == ' ' {
            let r = s.substring_char(0, i);
            assert(r@ =~= s@.take(i as int));
            return r;
        }
        assert(s@.take(i + 1) =~= s@.take(i as int).push(s@[i as int]));
        i = i + 1;
    }
    let r = s.substring_char(0, n);
    assert(r@ =~= s@.take(n as int));
    r
}

} // verus!
