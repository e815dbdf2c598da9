//! Fixed-pattern byte scanning over a raw record.
//!
//! A record is a flat text buffer; the fields of interest always appear under
//! the double-quoted-key convention, so a first-occurrence search for a fixed
//! byte pattern followed by a delimited capture recognizes them without a
//! structural parse.

use crate::QUOTE;
use vstd::prelude::*;

verus! {

/// The pattern `pat` occurs in `buf` starting at index `i`.
pub open spec fn match_at(buf: Seq<u8>, pat: Seq<u8>, i: int) -> bool {
    0 <= i && i + pat.len() <= buf.len() && buf.subrange(i, i + pat.len()) == pat
}

/// Whether `b` is an ASCII decimal digit.
pub open spec fn is_digit(b: u8) -> bool {
    48 <= b <= 57
}

/// The smallest index `k >= from` with `buf[k] == b`, if any.
pub open spec fn first_byte_at(buf: Seq<u8>, b: u8, from: int) -> Option<int>
    decreases buf.len() - from,
{
    if from < 0 || from >= buf.len() {
        None
    } else if buf[from] == b {
        Some(from)
    } else {
        first_byte_at(buf, b, from + 1)
    }
}

/// The index right after the run of digits that starts at `from`
/// (`from` itself if no digit stands there).
pub open spec fn digits_end(buf: Seq<u8>, from: int) -> int
    decreases buf.len() - from,
{
    if 0 <= from < buf.len() && is_digit(buf[from]) {
        digits_end(buf, from + 1)
    } else {
        from
    }
}

/// A whole quoted-string field matches at `i`: the key pattern occurs there
/// and is followed by at least one non-quote byte and then a closing quote.
pub open spec fn str_match_at(buf: Seq<u8>, pat: Seq<u8>, i: int) -> bool {
    let j = i + pat.len();
    match_at(buf, pat, i) && j < buf.len() && buf[j] != QUOTE && (exists|k: int|
        j < k < buf.len() && buf[k] == QUOTE)
}

/// A numeric field matches at `i`: the key pattern occurs there and is
/// followed by at least one digit.
pub open spec fn num_match_at(buf: Seq<u8>, pat: Seq<u8>, i: int) -> bool {
    match_at(buf, pat, i) && i + pat.len() < buf.len() && is_digit(buf[i + pat.len()])
}

/// The smallest index `i >= from` where a quoted-string field matches.
pub open spec fn first_str_match(buf: Seq<u8>, pat: Seq<u8>, from: int) -> Option<int>
    decreases buf.len() - from,
{
    if from < 0 || from > buf.len() {
        None
    } else if from + pat.len() > buf.len() {
        None
    } else if str_match_at(buf, pat, from) {
        Some(from)
    } else if from == buf.len() {
        None
    } else {
        first_str_match(buf, pat, from + 1)
    }
}

/// The smallest index `i >= from` where a numeric field matches.
pub open spec fn first_num_match(buf: Seq<u8>, pat: Seq<u8>, from: int) -> Option<int>
    decreases buf.len() - from,
{
    if from < 0 || from > buf.len() {
        None
    } else if from + pat.len() > buf.len() {
        None
    } else if num_match_at(buf, pat, from) {
        Some(from)
    } else if from == buf.len() {
        None
    } else {
        first_num_match(buf, pat, from + 1)
    }
}

/// The value captured by the first quoted-string occurrence of `pat`:
/// the bytes between the end of the pattern and the next quote.
pub open spec fn str_field(buf: Seq<u8>, pat: Seq<u8>) -> Option<Seq<u8>> {
    match first_str_match(buf, pat, 0) {
        None => None,
        Some(i) => {
            let j = i + pat.len();
            match first_byte_at(buf, QUOTE, j) {
                None => None,
                Some(k) => Some(buf.subrange(j, k)),
            }
        },
    }
}

/// The digit run captured by the first numeric occurrence of `pat`.
pub open spec fn num_field(buf: Seq<u8>, pat: Seq<u8>) -> Option<Seq<u8>> {
    match first_num_match(buf, pat, 0) {
        None => None,
        Some(i) => {
            let j = i + pat.len();
            Some(buf.subrange(j, digits_end(buf, j)))
        },
    }
}

/// Whether `pat` occurs in `buf` at index `i`, checked byte by byte.
pub fn pat_matches_at(buf: &[u8], pat: &[u8], i: usize) -> (r: bool)
    requires
        i + pat@.len() <= buf@.len(),
    ensures
        r == match_at(buf@, pat@, i as int),
{
    let n = buf.len();
    let pl = pat.len();
    let mut k: usize = 0;
    while k < pl
        invariant
            0 <= k <= pl,
            pl == pat@.len(),
            n == buf@.len(),
            i + pat@.len() <= buf@.len(),
            forall|m: int| 0 <= m < k ==> buf@[i + m] == pat@[m],
        decreases pl - k,
    {
        if buf[i + k] != pat[k] {
            assert(buf@.subrange(i as int, i + pat@.len())[k as int] != pat@[k as int]);
            return false;
        }
        k += 1;
    }
    assert(buf@.subrange(i as int, i + pat@.len()) =~= pat@);
    true
}

/// What `first_byte_at` returns: the found index carries `b`, nothing
/// before it in the searched range does.
pub proof fn lemma_first_byte_at_props(buf: Seq<u8>, b: u8, from: int)
    requires
        0 <= from <= buf.len(),
    ensures
        match first_byte_at(buf, b, from) {
            Some(k) => from <= k < buf.len() && buf[k] == b && (forall|m: int|
                from <= m < k ==> buf[m] != b),
            None => forall|m: int| from <= m < buf.len() ==> buf[m] != b,
        },
    decreases buf.len() - from,
{
    if from < buf.len() && buf[from] != b {
        lemma_first_byte_at_props(buf, b, from + 1);
    }
}

/// A witness fixes `first_byte_at`: if `buf[k] == b` and nothing before `k`
/// matches, the search from `from` finds exactly `k`.
pub proof fn lemma_first_byte_at_found(buf: Seq<u8>, b: u8, from: int, k: int)
    requires
        0 <= from <= k < buf.len(),
        buf[k] == b,
        forall|m: int| from <= m < k ==> buf[m] != b,
    ensures
        first_byte_at(buf, b, from) == Some(k),
    decreases k - from,
{
    if from < k {
        lemma_first_byte_at_found(buf, b, from + 1, k);
    }
}

/// If no byte from `from` on equals `b`, the search returns nothing.
pub proof fn lemma_first_byte_at_none(buf: Seq<u8>, b: u8, from: int)
    requires
        0 <= from,
        forall|m: int| from <= m < buf.len() ==> buf[m] != b,
    ensures
        first_byte_at(buf, b, from) is None,
    decreases buf.len() - from,
{
    if from < buf.len() {
        lemma_first_byte_at_none(buf, b, from + 1);
    }
}

/// What `digits_end` returns: the end of the digit run that starts at `from`.
pub proof fn lemma_digits_end_props(buf: Seq<u8>, from: int)
    requires
        0 <= from <= buf.len(),
    ensures
        from <= digits_end(buf, from) <= buf.len(),
        forall|m: int| from <= m < digits_end(buf, from) ==> is_digit(buf[m]),
        digits_end(buf, from) < buf.len() ==> !is_digit(buf[digits_end(buf, from)]),
    decreases buf.len() - from,
{
    if from < buf.len() && is_digit(buf[from]) {
        lemma_digits_end_props(buf, from + 1);
    }
}

/// A maximal digit run fixes `digits_end`.
pub proof fn lemma_digits_end_is(buf: Seq<u8>, from: int, e: int)
    requires
        0 <= from <= e <= buf.len(),
        forall|m: int| from <= m < e ==> is_digit(buf[m]),
        e < buf.len() ==> !is_digit(buf[e]),
    ensures
        digits_end(buf, from) == e,
    decreases e - from,
{
    if from < e {
        lemma_digits_end_is(buf, from + 1, e);
    }
}

/// A witness fixes `first_str_match`, as for `first_byte_at`.
pub proof fn lemma_first_str_match_found(buf: Seq<u8>, pat: Seq<u8>, from: int, i: int)
    requires
        0 <= from <= i,
        str_match_at(buf, pat, i),
        forall|j: int| from <= j < i ==> !str_match_at(buf, pat, j),
    ensures
        first_str_match(buf, pat, from) == Some(i),
    decreases i - from,
{
    if from < i {
        lemma_first_str_match_found(buf, pat, from + 1, i);
    }
}

/// If no index matches a quoted-string field, the search returns nothing.
pub proof fn lemma_first_str_match_none(buf: Seq<u8>, pat: Seq<u8>, from: int)
    requires
        0 <= from,
        forall|j: int| !str_match_at(buf, pat, j),
    ensures
        first_str_match(buf, pat, from) is None,
    decreases buf.len() + 1 - from,
{
    if from <= buf.len() && from + pat.len() <= buf.len() && from < buf.len() {
        lemma_first_str_match_none(buf, pat, from + 1);
    }
}

/// A witness fixes `first_num_match`.
pub proof fn lemma_first_num_match_found(buf: Seq<u8>, pat: Seq<u8>, from: int, i: int)
    requires
        0 <= from <= i,
        num_match_at(buf, pat, i),
        forall|j: int| from <= j < i ==> !num_match_at(buf, pat, j),
    ensures
        first_num_match(buf, pat, from) == Some(i),
    decreases i - from,
{
    if from < i {
        lemma_first_num_match_found(buf, pat, from + 1, i);
    }
}

/// If no index matches a numeric field, the search returns nothing.
pub proof fn lemma_first_num_match_none(buf: Seq<u8>, pat: Seq<u8>, from: int)
    requires
        0 <= from,
        forall|j: int| !num_match_at(buf, pat, j),
    ensures
        first_num_match(buf, pat, from) is None,
    decreases buf.len() + 1 - from,
{
    if from <= buf.len() && from + pat.len() <= buf.len() && from < buf.len() {
        lemma_first_num_match_none(buf, pat, from + 1);
    }
}

/// The smallest index `k >= from` with `buf[k] == b`, by linear scan.
pub fn scan_byte(buf: &[u8], b: u8, from: usize) -> (r: Option<usize>)
    requires
        from <= buf@.len(),
    ensures
        match r {
            Some(k) => first_byte_at(buf@, b, from as int) == Some(k as int) && from <= k
                < buf@.len() && buf@[k as int] == b,
            None => first_byte_at(buf@, b, from as int) is None,
        },
{
    let n = buf.len();
    let mut k = from;
    while k < n
        invariant
            from <= k <= n,
            n == buf@.len(),
            forall|m: int| from <= m < k ==> buf@[m] != b,
        decreases n - k,
    {
        if buf[k] == b {
            proof {
                lemma_first_byte_at_found(buf@, b, from as int, k as int);
            }
            return Some(k);
        }
        k += 1;
    }
    proof {
        lemma_first_byte_at_none(buf@, b, from as int);
    }
    None
}

/// The end of the digit run starting at `from`, by linear scan.
pub fn scan_digits_end(buf: &[u8], from: usize) -> (e: usize)
    requires
        from <= buf@.len(),
    ensures
        e as int == digits_end(buf@, from as int),
        from <= e <= buf@.len(),
{
    let n = buf.len();
    let mut k = from;
    while k < n && 48 <= buf[k] && buf[k] <= 57
        invariant
            from <= k <= n,
            n == buf@.len(),
            forall|m: int| from <= m < k ==> is_digit(buf@[m]),
        decreases n - k,
    {
        k += 1;
    }
    proof {
        lemma_digits_end_is(buf@, from as int, k as int);
    }
    k
}

/// A fresh copy of `buf[s..e]`.
pub fn copy_range(buf: &[u8], s: usize, e: usize) -> (v: Vec<u8>)
    requires
        s <= e <= buf@.len(),
    ensures
        v@ == buf@.subrange(s as int, e as int),
{
    let mut v: Vec<u8> = Vec::new();
    let mut k = s;
    while k < e
        invariant
            s <= k <= e <= buf@.len(),
            v@ == buf@.subrange(s as int, k as int),
        decreases e - k,
    {
        v.push(buf[k]);
        k += 1;
        assert(v@ =~= buf@.subrange(s as int, k as int));
    }
    v
}

/// Whether two byte strings hold the same bytes.
pub fn bytes_eq(a: &[u8], b: &[u8]) -> (r: bool)
    ensures
        r == (a@ == b@),
{
    let n = a.len();
    if n != b.len() {
        return false;
    }
    let mut k: usize = 0;
    while k < n
        invariant
            0 <= k <= n,
            n == a@.len() && n == b@.len(),
            forall|m: int| 0 <= m < k ==> a@[m] == b@[m],
        decreases n - k,
    {
        if a[k] != b[k] {
            return false;
        }
        k += 1;
    }
    assert(a@ =~= b@);
    true
}

/// The first quoted-string occurrence of `pat` in `buf`, as the regular
/// expression `pat([^"]+)"` would find it: the value starts right after the
/// pattern and runs to the next quote, and a position whose capture would be
/// empty or unterminated is skipped in favor of a later one.
pub fn find_str_field(buf: &[u8], pat: &[u8]) -> (r: Option<Vec<u8>>)
    requires
        pat@.len() >= 1,
    ensures
        match r {
            Some(v) => str_field(buf@, pat@) == Some(v@),
            None => str_field(buf@, pat@) is None,
        },
{
    let n = buf.len();
    let pl = pat.len();
    if pl > n {
        proof {
            lemma_first_str_match_none(buf@, pat@, 0);
        }
        return None;
    }
    let mut i: usize = 0;
    while i <= n - pl
        invariant
            0 <= i,
            pl <= n,
            i + pl <= n + 1,
            1 <= pl == pat@.len(),
            n == buf@.len(),
            forall|j: int| 0 <= j < i ==> !str_match_at(buf@, pat@, j),
        decreases n - i,
    {
        if pat_matches_at(buf, pat, i) {
            let j = i + pl;
            if j < n && buf[j] != QUOTE {
                match scan_byte(buf, QUOTE, j + 1) {
                    Some(k) => {
                        proof {
                            lemma_first_byte_at_props(buf@, QUOTE, j + 1);
                            assert(str_match_at(buf@, pat@, i as int));
                            lemma_first_str_match_found(buf@, pat@, 0, i as int);
                            assert(first_byte_at(buf@, QUOTE, j as int) == Some(k as int));
                        }
                        return Some(copy_range(buf, j, k));
                    },
                    None => {
                        proof {
                            lemma_first_byte_at_props(buf@, QUOTE, j + 1);
                            assert forall|idx: int| !str_match_at(buf@, pat@, idx) by {
                                if idx >= i {
                                    assert(forall|k: int|
                                        j < k < n ==> buf@[k] != QUOTE);
                                }
                            }
                            lemma_first_str_match_none(buf@, pat@, 0);
                        }
                        return None;
                    },
                }
            }
            assert(!str_match_at(buf@, pat@, i as int));
        }
        i += 1;
    }
    proof {
        assert forall|j: int| !str_match_at(buf@, pat@, j) by {}
        lemma_first_str_match_none(buf@, pat@, 0);
    }
    None
}

/// The first numeric occurrence of `pat` in `buf`, as the regular expression
/// `pat(\d+)` would find it: the capture is the maximal digit run right after
/// the pattern, and a position not followed by a digit is skipped.
pub fn find_num_field(buf: &[u8], pat: &[u8]) -> (r: Option<Vec<u8>>)
    requires
        pat@.len() >= 1,
    ensures
        match r {
            Some(v) => num_field(buf@, pat@) == Some(v@) && v@.len() >= 1 && (forall|m: int|
                0 <= m < v@.len() ==> is_digit(v@[m])),
            None => num_field(buf@, pat@) is None,
        },
{
    let n = buf.len();
    let pl = pat.len();
    if pl > n {
        proof {
            lemma_first_num_match_none(buf@, pat@, 0);
        }
        return None;
    }
    let mut i: usize = 0;
    while i <= n - pl
        invariant
            0 <= i,
            pl <= n,
            i + pl <= n + 1,
            1 <= pl == pat@.len(),
            n == buf@.len(),
            forall|j: int| 0 <= j < i ==> !num_match_at(buf@, pat@, j),
        decreases n - i,
    {
        if pat_matches_at(buf, pat, i) {
            let j = i + pl;
            if j < n && 48 <= buf[j] && buf[j] <= 57 {
                proof {
                    lemma_first_num_match_found(buf@, pat@, 0, i as int);
                    lemma_digits_end_props(buf@, j as int);
                }
                let e = scan_digits_end(buf, j);
                return Some(copy_range(buf, j, e));
            }
            assert(!num_match_at(buf@, pat@, i as int));
        }
        i += 1;
    }
    proof {
        assert forall|j: int| !num_match_at(buf@, pat@, j) by {}
        lemma_first_num_match_none(buf@, pat@, 0);
    }
    None
}

} // verus!
