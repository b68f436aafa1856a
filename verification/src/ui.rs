//! Pure helpers for the presentation layer.

use vstd::prelude::*;

use crate::text::{str_chars, string_from_chars};

verus! {

/// A text cut to at most `max_len` characters: a longer text keeps its
/// first `max_len - 3` characters (none when `max_len < 3`) and ends in
/// an ellipsis.
pub open spec fn truncated(s: Seq<char>, max_len: int) -> Seq<char> {
    if s.len() <= max_len {
        s
    } else {
        s.subrange(
            0,
            if max_len >= 3 {
                max_len - 3
            } else {
                0
            },
        ) + "..."@
    }
}

/// Truncate a text to at most `max_len` characters for display.
pub fn truncate(s: &str, max_len: usize) -> (r: String)
    ensures
        r@ == truncated(s@, max_len as int),
{
    let chars = str_chars(s);
    if chars.len() <= max_len {
        return String::from_str(s);
    }
    let k = if max_len >= 3 {
        max_len - 3
    } else {
        0
    };
    let mut head: Vec<char> = Vec::new();
    let mut i: usize = 0;
    while i < k
        invariant
            k <= chars@.len(),
            i <= k,
            head@ == chars@.subrange(0, i as int),
        decreases k - i,
    {
        head.push(chars[i]);
        i = i + 1;
        proof {
            assert(head@ =~= chars@.subrange(0, i as int));
        }
    }
    let mut out = string_from_chars(&head);
    out.append("...");
    out
}

} // verus!
