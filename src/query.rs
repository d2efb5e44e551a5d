use vstd::prelude::*;

use crate::text::{absent_from, find_char_from, first_at_or_after, owned};

verus! {

/// `s` cut at every `sep`, read left to right.
pub open spec fn split_pieces(s: Seq<char>, sep: char) -> Seq<Seq<char>>
    decreases s.len(),
{
    if s.len() == 0 {
        seq![Seq::empty()]
    } else {
        let p = split_pieces(s.drop_last(), sep);
        if s.last() == sep {
            p.push(Seq::empty())
        } else {
            p.update(p.len() - 1, p.last().push(s.last()))
        }
    }
}

proof fn lemma_split_pieces_nonempty(s: Seq<char>, sep: char)
    ensures
        split_pieces(s, sep).len() >= 1,
    decreases s.len(),
{
    if s.len() > 0 {
        lemma_split_pieces_nonempty(s.drop_last(), sep);
    }
}

/// A piece as key and value: split at its first `=`; without one, the value is empty.
pub open spec fn split_once_eq(p: Seq<char>) -> (Seq<char>, Seq<char>) {
    if absent_from(p, '=', 0) {
        (p, Seq::empty())
    } else {
        let k = choose|k: int| #[trigger] first_at_or_after(p, '=', 0, k);
        (p.subrange(0, k), p.subrange(k + 1, p.len() as int))
    }
}

/// The (key, value) pairs of the non-empty pieces.
pub open spec fn pairs_of(pieces: Seq<Seq<char>>) -> Seq<(Seq<char>, Seq<char>)>
    decreases pieces.len(),
{
    if pieces.len() == 0 {
        seq![]
    } else {
        let r = pairs_of(pieces.drop_last());
        if pieces.last().len() == 0 {
            r
        } else {
            r.push(split_once_eq(pieces.last()))
        }
    }
}

/// The pairs of a query string: pieces between `&`, empty ones skipped, each split at `=`.
pub open spec fn query_pairs(q: Seq<char>) -> Seq<(Seq<char>, Seq<char>)> {
    pairs_of(split_pieces(q, '&'))
}

pub open spec fn pair_views(v: Seq<(String, String)>) -> Seq<(Seq<char>, Seq<char>)> {
    v.map_values(|p: (String, String)| (p.0@, p.1@))
}

fn split_once_at_eq(piece: &str) -> (r: (String, String))
    ensures
        (r.0@, r.1@) == split_once_eq(piece@),
{
    let n = piece.unicode_len();
    match find_char_from(piece, '=', 0) {
        None => (owned(piece), String::new()),
        Some(k) => {
            proof {
                let c = choose|k: int| #[trigger] first_at_or_after(piece@, '=', 0, k);
                if c < k {
                    assert(piece@[c] != '=');
                } else if k < c {
                    assert(piece@[k as int] != '=');
                }
            }
            (owned(piece.substring_char(0, k)), owned(piece.substring_char(k + 1, n)))
        },
    }
}

/// Splits a query string into its (key, value) pairs.
pub fn split_query(query: &str) -> (r: Vec<(String, String)>)
    ensures
        pair_views(r@) == query_pairs(query@),
{
    let n = query.unicode_len();
    let mut out: Vec<(String, String)> = Vec::new();
    let mut start: usize = 0;
    let mut i: usize = 0;
    let ghost done: Seq<Seq<char>> = seq![];
    assert(query@.take(0) =~= Seq::<char>::empty());
    assert(query@.subrange(0, 0) =~= Seq::<char>::empty());
    assert(done.push(Seq::<char>::empty()) =~= seq![Seq::<char>::empty()]);
    while i < n
        invariant
            n == query@.len(),
            start <= i <= n,
            split_pieces(query@.take(i as int), '&') == done.push(query@.subrange(start as int, i as int)),
            pair_views(out@) == pairs_of(done),
        decreases n - i,
    {
        let c = query.get_char(i);
        let ghost cur = query@.subrange(start as int, i as int);
        proof {
            assert(query@.take(i + 1).drop_last() =~= query@.take(i as int));
            assert(query@.take(i + 1).last() == c);
        }
        if c == '&' {
            if i > start {
                let piece = query.substring_char(start, i);
                let pair = split_once_at_eq(piece);
                let ghost before = out@;
                out.push(pair);
                assert(pair_views(out@) =~= pair_views(before).push((pair.0@, pair.1@)));
            }
            proof {
                assert(done.push(cur).drop_last() =~= done);
                done = done.push(cur);
                assert(query@.subrange(i + 1, i + 1) =~= Seq::<char>::empty());
            }
            start = i + 1;
        } else {
            proof {
                assert(query@.subrange(start as int, i + 1) =~= cur.push(c));
                assert(done.push(cur).update(done.len() as int, cur.push(c)) =~= done.push(cur.push(c)));
            }
        }
        i = i + 1;
    }
    let ghost cur = query@.subrange(start as int, n as int);
    assert(query@.take(n as int) =~= query@);
    if n > start {
        let piece = query.substring_char(start, n);
        let pair = split_once_at_eq(piece);
        let ghost before = out@;
        out.push(pair);
        assert(pair_views(out@) =~= pair_views(before).push((pair.0@, pair.1@)));
    }
    proof {
        assert(done.push(cur).drop_last() =~= done);
    }
    out
}

pub open spec fn is_digit(c: char) -> bool {
    '0' <= c && c <= '9'
}

pub open spec fn digit_of(c: char) -> nat {
    (c as u32 - '0' as u32) as nat
}

/// The number a string of decimal digits spells.
pub open spec fn digits_value(s: Seq<char>) -> nat
    decreases s.len(),
{
    if s.len() == 0 {
        0
    } else {
        digits_value(s.drop_last()) * 10 + digit_of(s.last())
    }
}

pub open spec fn all_digits(s: Seq<char>) -> bool {
    forall|i: int| 0 <= i < s.len() ==> is_digit(#[trigger] s[i])
}

/// A decimal integer as `i64` parsing reads it: an optional sign, then at least one digit,
/// within the range of `i64`.
pub open spec fn spec_parse_i64(s: Seq<char>) -> Option<i64> {
    let neg = s.len() > 0 && s[0] == '-';
    let signed = s.len() > 0 && (s[0] == '-' || s[0] == '+');
    let body = if signed {
        s.drop_first()
    } else {
        s
    };
    if body.len() == 0 || !all_digits(body) {
        None
    } else if neg {
        if digits_value(body) <= 9_223_372_036_854_775_808 {
            Some((0 - digits_value(body)) as i64)
        } else {
            None
        }
    } else if digits_value(body) <= 9_223_372_036_854_775_807 {
        Some(digits_value(body) as i64)
    } else {
        None
    }
}

proof fn lemma_digits_grow(s: Seq<char>, k: int)
    requires
        0 <= k <= s.len(),
        all_digits(s),
    ensures
        digits_value(s.take(k)) <= digits_value(s),
    decreases s.len() - k,
{
    if k < s.len() {
        lemma_digits_grow(s, k + 1);
        assert(s.take(k + 1).drop_last() =~= s.take(k));
        assert(digits_value(s.take(k + 1)) == digits_value(s.take(k)) * 10 + digit_of(s.take(k + 1).last()));
    } else {
        assert(s.take(k) =~= s);
    }
}

/// Reads a decimal `i64`.
pub fn parse_i64(text: &str) -> (r: Option<i64>)
    ensures
        r == spec_parse_i64(text@),
{
    let n = text.unicode_len();
    if n == 0 {
        return None;
    }
    let first = text.get_char(0);
    let neg = first == '-';
    let start: usize = if first == '-' || first == '+' {
        1
    } else {
        0
    };
    let ghost body = if start == 1 {
        text@.drop_first()
    } else {
        text@
    };
    assert(body =~= text@.subrange(start as int, n as int));
    if start == n {
        return None;
    }
    let mut acc: u128 = 0;
    let mut i: usize = start;
    while i < n
        invariant
            n == text@.len(),
            n > 0,
            start <= i <= n,
            start <= 1,
            (start == 1) == (text@[0] == '-' || text@[0] == '+'),
            neg == (text@[0] == '-'),
            body == (if start == 1 {
                text@.drop_first()
            } else {
                text@
            }),
            body == text@.subrange(start as int, n as int),
            all_digits(body.take(i - start)),
            acc as nat == digits_value(body.take(i - start)),
            acc <= 9_223_372_036_854_775_808,
        decreases n - i,
    {
        let c = text.get_char(i);
        proof {
            assert(body.take(i - start + 1).drop_last() =~= body.take(i - start));
            assert(body.take(i - start + 1).last() == c);
        }
        if !('0' <= c && c <= '9') {
            assert(!all_digits(body)) by {
                assert(body[i - start] == c);
            }
            return None;
        }
        let d: u128 = ((c as u32) - ('0' as u32)) as u128;
        acc = acc * 10 + d;
        if acc > 9_223_372_036_854_775_808 {
            proof {
                assert(all_digits(body.take(i - start + 1)));
                if all_digits(body) {
                    lemma_digits_grow(body, i - start + 1);
                }
            }
            return None;
        }
        i = i + 1;
    }
    assert(body.take(n - start) =~= body);
    if neg {
        Some((0 - (acc as i128)) as i64)
    } else if acc <= 9_223_372_036_854_775_807 {
        Some(acc as i64)
    } else {
        None
    }
}

/// The largest whole part a decimal reading keeps; larger values saturate.
pub open spec fn whole_cap() -> nat {
    1_000_000_000_000
}

pub open spec fn min_nat(a: nat, b: nat) -> nat {
    if a < b {
        a
    } else {
        b
    }
}

/// The first three fraction digits as thousandths; missing digits count as zero.
pub open spec fn thousandths(f: Seq<char>) -> nat {
    (if f.len() > 0 {
        digit_of(f[0]) * 100
    } else {
        0
    }) + (if f.len() > 1 {
        digit_of(f[1]) * 10
    } else {
        0
    }) + (if f.len() > 2 {
        digit_of(f[2])
    } else {
        0
    })
}

/// A non-negative decimal `W`, `W.F` or `.F` in thousandths, with the whole part capped
/// at `whole_cap()` and fraction digits past the third dropped.
pub open spec fn spec_parse_milli(s: Seq<char>) -> Option<nat> {
    let (w, f) = if absent_from(s, '.', 0) {
        (s, Seq::<char>::empty())
    } else {
        let k = choose|k: int| #[trigger] first_at_or_after(s, '.', 0, k);
        (s.subrange(0, k), s.subrange(k + 1, s.len() as int))
    };
    if (w.len() == 0 && f.len() == 0) || !all_digits(w) || !all_digits(f) || (!absent_from(s, '.', 0)
        && w.len() == 0 && f.len() == 0) {
        None
    } else {
        Some(min_nat(digits_value(w), whole_cap()) * 1000 + thousandths(f))
    }
}

fn digit_run(text: &str, from: usize, to: usize) -> (r: Option<u64>)
    requires
        from <= to <= text@.len(),
    ensures
        match r {
            Some(v) => all_digits(text@.subrange(from as int, to as int)) && v as nat == min_nat(
                digits_value(text@.subrange(from as int, to as int)),
                whole_cap(),
            ),
            None => !all_digits(text@.subrange(from as int, to as int)),
        },
{
    let ghost s = text@.subrange(from as int, to as int);
    let mut acc: u64 = 0;
    let mut i: usize = from;
    while i < to
        invariant
            from <= i <= to,
            to <= text@.len(),
            s == text@.subrange(from as int, to as int),
            all_digits(s.take(i - from)),
            acc as nat == min_nat(digits_value(s.take(i - from)), whole_cap()),
        decreases to - i,
    {
        let c = text.get_char(i);
        proof {
            assert(s.take(i - from + 1).drop_last() =~= s.take(i - from));
            assert(s.take(i - from + 1).last() == c);
            assert(s[i - from] == c);
        }
        if !('0' <= c && c <= '9') {
            return None;
        }
        let d: u64 = ((c as u32) - ('0' as u32)) as u64;
        let next: u64 = acc * 10 + d;
        proof {
            let v = digits_value(s.take(i - from));
            let dn = digit_of(c);
            assert(min_nat(min_nat(v, whole_cap()) * 10 + dn, whole_cap()) == min_nat(v * 10 + dn, whole_cap()))
                by (nonlinear_arith)
                requires
                    dn <= 9,
            ;
        }
        acc = if next > 1_000_000_000_000 {
            1_000_000_000_000
        } else {
            next
        };
        i = i + 1;
    }
    assert(s.take(to - from) =~= s);
    Some(acc)
}

fn digit_value_at(text: &str, i: usize) -> (r: u64)
    requires
        i < text@.len(),
        is_digit(text@[i as int]),
    ensures
        r as nat == digit_of(text@[i as int]),
{
    ((text.get_char(i) as u32) - ('0' as u32)) as u64
}

/// The largest reading `parse_milli` gives: the capped whole part and three decimals.
pub open spec fn milli_cap() -> nat {
    1_000_000_000_000_999
}

/// Reads a non-negative decimal in thousandths; see `spec_parse_milli`.
pub fn parse_milli(text: &str) -> (r: Option<u64>)
    ensures
        match r {
            Some(v) => spec_parse_milli(text@) == Some(v as nat) && v <= milli_cap(),
            None => spec_parse_milli(text@) is None,
        },
{
    let n = text.unicode_len();
    let (wend, fstart) = match find_char_from(text, '.', 0) {
        Some(k) => (k, k + 1),
        None => (n, n),
    };
    proof {
        if !absent_from(text@, '.', 0) {
            let c = choose|k: int| #[trigger] first_at_or_after(text@, '.', 0, k);
            if c < wend {
                assert(text@[c] != '.');
            } else if wend < c {
                assert(text@[wend as int] != '.');
            }
        } else {
            assert(text@.subrange(0, n as int) =~= text@);
            assert(text@.subrange(n as int, n as int) =~= Seq::<char>::empty());
        }
    }
    if wend == 0 && fstart >= n {
        return None;
    }
    let whole = match digit_run(text, 0, wend) {
        Some(v) => v,
        None => return None,
    };
    let ghost f = text@.subrange(fstart as int, n as int);
    match digit_run(text, fstart, n) {
        Some(_) => {},
        None => return None,
    }
    let mut frac: u64 = 0;
    if fstart < n {
        assert(f[0] == text@[fstart as int]);
        frac = frac + digit_value_at(text, fstart) * 100;
    }
    if fstart < n && n - fstart > 1 {
        assert(f[1] == text@[fstart + 1]);
        frac = frac + digit_value_at(text, fstart + 1) * 10;
    }
    if fstart < n && n - fstart > 2 {
        assert(f[2] == text@[fstart + 2]);
        frac = frac + digit_value_at(text, fstart + 2);
    }
    Some(whole * 1000 + frac)
}

} // verus!
