use vstd::prelude::*;

use crate::text::{is_white, is_white_char};

verus! {

/// Reading `s` left to right: the text so far, and whether a word break is pending.
pub open spec fn collapse_state(s: Seq<char>) -> (Seq<char>, bool)
    decreases s.len(),
{
    if s.len() == 0 {
        (Seq::empty(), false)
    } else {
        let (out, pending) = collapse_state(s.drop_last());
        let c = s.last();
        if is_white(c) {
            (out, out.len() > 0)
        } else if pending {
            (out.push(' ').push(c), false)
        } else {
            (out.push(c), false)
        }
    }
}

/// The words of `s`, split at white space, joined by single spaces.
pub open spec fn collapsed(s: Seq<char>) -> Seq<char> {
    collapse_state(s).0
}

/// Collapses runs of white space to one space and drops it at both ends.
pub fn normalize_address(address: &str) -> (r: String)
    ensures
        r@ == collapsed(address@),
{
    let n = address.unicode_len();
    let mut out = String::new();
    let mut pending = false;
    let mut i: usize = 0;
    while i < n
        invariant
            n == address@.len(),
            i <= n,
            (out@, pending) == collapse_state(address@.take(i as int)),
        decreases n - i,
    {
        proof {
            assert(address@.take(i as int + 1).drop_last() =~= address@.take(i as int));
        }
        let c = address.get_char(i);
        if is_white_char(c) {
            pending = out.as_str().unicode_len() > 0;
        } else {
            if pending {
                out.push(' ');
            }
            out.push(c);
            pending = false;
        }
        i = i + 1;
    }
    assert(address@.take(i as int) =~= address@);
    out
}

/// An optional address, collapsed; one that holds no word becomes `None`.
pub fn normalize_optional_address(address: Option<&str>) -> (r: Option<String>)
    ensures
        match address {
            None => r is None,
            Some(a) => if collapsed(a@).len() == 0 {
                r is None
            } else {
                r matches Some(s) && s@ == collapsed(a@)
            },
        },
{
    match address {
        None => None,
        Some(a) => {
            let normalized = normalize_address(a);
            if normalized.as_str().unicode_len() == 0 {
                None
            } else {
                Some(normalized)
            }
        },
    }
}

} // verus!
