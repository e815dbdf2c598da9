//! Address normalization for the store's address columns.
//!
//! The sensor emits textual addresses in canonical form. An IPv4 address is
//! kept as its dotted-quad text; an IPv6 address is wrapped in brackets to
//! match the store's address-column convention. Text that is neither is an
//! upstream contract violation.

use crate::event::{digits_val, lemma_digits_val_nonneg};
use crate::scan::{first_byte_at, is_digit, scan_byte};
use crate::DOT;
use vstd::prelude::*;

verus! {

/// A canonical dotted-quad octet: one to three digits, value at most 255,
/// no leading zero.
pub open spec fn valid_octet(s: Seq<u8>) -> bool {
    1 <= s.len() <= 3 && (forall|i: int| 0 <= i < s.len() ==> is_digit(s[i])) && digits_val(s)
        <= 255 && (s.len() > 1 ==> s[0] != 48)
}

/// Canonical dotted-quad IPv4 text: exactly three dots separating four
/// valid octets.
pub open spec fn is_ipv4(s: Seq<u8>) -> bool {
    match first_byte_at(s, DOT, 0) {
        None => false,
        Some(a) => match first_byte_at(s, DOT, a + 1) {
            None => false,
            Some(b) => match first_byte_at(s, DOT, b + 1) {
                None => false,
                Some(c) => first_byte_at(s, DOT, c + 1) is None && valid_octet(
                    s.subrange(0, a),
                ) && valid_octet(s.subrange(a + 1, b)) && valid_octet(s.subrange(b + 1, c))
                    && valid_octet(s.subrange(c + 1, s.len() as int)),
            },
        },
    }
}

/// A byte that may appear in IPv6 text: a hexadecimal digit, a colon, or a
/// dot (for an embedded IPv4 tail).
pub open spec fn is_v6_byte(x: u8) -> bool {
    is_digit(x) || 97 <= x <= 102 || 65 <= x <= 70 || x == 58 || x == 46
}

/// The number of colons among the first `i` bytes.
pub open spec fn colons_before(s: Seq<u8>, i: int) -> int
    decreases i,
{
    if i <= 0 {
        0
    } else {
        colons_before(s, i - 1) + if s[i - 1] == 58 {
            1int
        } else {
            0int
        }
    }
}

/// The number of adjacent colon pairs that start among the first `i` bytes.
pub open spec fn double_colons_before(s: Seq<u8>, i: int) -> int
    decreases i,
{
    if i <= 0 {
        0
    } else {
        double_colons_before(s, i - 1) + if s[i - 1] == 58 && i < s.len() && s[i] == 58 {
            1int
        } else {
            0int
        }
    }
}

/// A group separator inside address text: a colon or a dot.
pub open spec fn is_sep(x: u8) -> bool {
    x == 58 || x == 46
}

/// IPv6 text, by shape: only IPv6 bytes; one to eight colons, and at most
/// seven without a `::` compression; at most one compression and never
/// three colons in a row; a colon at either end only as part of a `::`;
/// and no run of five bytes without a separator (a group has at most four
/// hexadecimal digits). This admits every textual IPv6 address and rejects
/// text without address shape; it is a shape check, not a full parser —
/// a few malformed colon arrangements (a compression next to eight full
/// groups, a misplaced dotted tail) still pass and are left to the store
/// column, which holds text either way.
pub open spec fn is_ipv6_text(s: Seq<u8>) -> bool {
    let n = s.len() as int;
    s.len() > 0 && (forall|i: int| 0 <= i < n ==> is_v6_byte(s[i])) && 1 <= colons_before(s, n)
        <= 8 && double_colons_before(s, n) <= 1 && (double_colons_before(s, n) == 0
        ==> colons_before(s, n) <= 7) && (forall|i: int|
        0 <= i && i + 2 < n ==> !((#[trigger] s[i]) == 58 && s[i + 1] == 58 && s[i + 2] == 58))
        && (s[0] == 58 ==> n >= 2 && s[1] == 58) && (s[n - 1] == 58 ==> n >= 2 && s[n - 2] == 58)
        && (forall|i: int|
        0 <= i && i + 4 < n ==> (#[trigger] is_sep(s[i])) || is_sep(s[i + 1]) || is_sep(s[i + 2])
            || is_sep(s[i + 3]) || is_sep(s[i + 4]))
}

/// The address column text for an extracted address: IPv4 as it stands,
/// IPv6 bracketed, anything else rejected.
pub open spec fn format_ip(s: Seq<u8>) -> Option<Seq<u8>> {
    if is_ipv4(s) {
        Some(s)
    } else if is_ipv6_text(s) {
        Some(seq![91u8] + s + seq![93u8])
    } else {
        None
    }
}

/// Whether `s[from..to]` is a valid canonical octet.
fn check_octet(s: &[u8], from: usize, to: usize) -> (r: bool)
    requires
        from <= to <= s@.len(),
    ensures
        r == valid_octet(s@.subrange(from as int, to as int)),
{
    let ghost oct = s@.subrange(from as int, to as int);
    let len = to - from;
    if len < 1 || len > 3 {
        return false;
    }
    let mut val: u32 = 0;
    let mut k = from;
    while k < to
        invariant
            from <= k <= to <= s@.len(),
            oct == s@.subrange(from as int, to as int),
            to - from <= 3,
            forall|m: int| from <= m < k ==> is_digit(s@[m]),
            val as int == digits_val(oct.take(k - from)),
            val as int <= (if k - from == 0 {
                0int
            } else if k - from == 1 {
                9int
            } else if k - from == 2 {
                99int
            } else {
                999int
            }),
        decreases to - k,
    {
        let b = s[k];
        if b < 48 || b > 57 {
            assert(oct[k - from] == s@[k as int]);
            return false;
        }
        proof {
            assert(oct.take(k - from + 1).drop_last() =~= oct.take(k - from));
            assert(oct.take(k - from + 1).last() == s@[k as int]);
            lemma_digits_val_nonneg(oct.take(k - from));
        }
        val = val * 10 + ((b - 48) as u32);
        k += 1;
    }
    assert(oct.take(to - from) =~= oct);
    if val > 255 {
        return false;
    }
    if len > 1 && s[from] == 48 {
        assert(oct[0] == s@[from as int]);
        return false;
    }
    true
}

/// Whether `s` is canonical dotted-quad IPv4 text.
pub fn is_ipv4_text(s: &[u8]) -> (r: bool)
    ensures
        r == is_ipv4(s@),
{
    let n = s.len();
    match scan_byte(s, DOT, 0) {
        None => false,
        Some(a) => match scan_byte(s, DOT, a + 1) {
            None => false,
            Some(b) => match scan_byte(s, DOT, b + 1) {
                None => false,
                Some(c) => {
                    match scan_byte(s, DOT, c + 1) {
                        Some(_) => false,
                        None => check_octet(s, 0, a) && check_octet(s, a + 1, b) && check_octet(
                            s,
                            b + 1,
                            c,
                        ) && check_octet(s, c + 1, n),
                    }
                },
            },
        },
    }
}

/// Whether `s` is IPv6 text, in one pass.
pub fn is_ipv6_exec(s: &[u8]) -> (r: bool)
    ensures
        r == is_ipv6_text(s@),
{
    let n = s.len();
    if n == 0 {
        return false;
    }
    if s[0] == 58 && (n < 2 || s[1] != 58) {
        return false;
    }
    if s[n - 1] == 58 && (n < 2 || s[n - 2] != 58) {
        return false;
    }
    let mut cc: u64 = 0;
    let mut dc: u64 = 0;
    let mut k: usize = 0;
    while k < n
        invariant
            0 <= k <= n,
            n == s@.len(),
            n >= 1,
            forall|m: int| 0 <= m < k ==> is_v6_byte(s@[m]),
            cc as int == colons_before(s@, k as int),
            dc as int == double_colons_before(s@, k as int),
            cc <= k,
            dc <= k,
            forall|m: int|
                0 <= m && m + 2 < k ==> !((#[trigger] s@[m]) == 58 && s@[m + 1] == 58 && s@[m + 2]
                    == 58),
            forall|m: int|
                0 <= m && m + 4 < k ==> (#[trigger] is_sep(s@[m])) || is_sep(s@[m + 1]) || is_sep(
                    s@[m + 2],
                ) || is_sep(s@[m + 3]) || is_sep(s@[m + 4]),
        decreases n - k,
    {
        let b = s[k];
        let digit = 48 <= b && b <= 57;
        let hex = (97 <= b && b <= 102) || (65 <= b && b <= 70);
        if !(digit || hex || b == 58 || b == 46) {
            return false;
        }
        if b == 58 {
            if k >= 2 && s[k - 1] == 58 && s[k - 2] == 58 {
                return false;
            }
            if k + 1 < n && s[k + 1] == 58 {
                dc += 1;
            }
            cc += 1;
        }
        if k >= 4 && s[k] != 58 && s[k] != 46 && s[k - 1] != 58 && s[k - 1] != 46 && s[k - 2]
            != 58 && s[k - 2] != 46 && s[k - 3] != 58 && s[k - 3] != 46 && s[k - 4] != 58 && s[k
            - 4] != 46 {
            proof {
                assert(!is_sep(s@[k as int - 4]));
                assert(!is_sep(s@[k as int - 3]));
                assert(!is_sep(s@[k as int - 2]));
                assert(!is_sep(s@[k as int - 1]));
                assert(!is_sep(s@[k as int]));
            }
            return false;
        }
        k += 1;
    }
    1 <= cc && cc <= 8 && dc <= 1 && (dc > 0 || cc <= 7)
}

/// The address column text for `s`, or nothing if `s` is not address text.
pub fn format_ip_addr(s: &[u8]) -> (r: Option<Vec<u8>>)
    ensures
        match r {
            Some(v) => format_ip(s@) == Some(v@),
            None => format_ip(s@) is None,
        },
{
    let n = s.len();
    if is_ipv4_text(s) {
        let v = crate::scan::copy_range(s, 0, n);
        assert(v@ =~= s@);
        return Some(v);
    }
    if is_ipv6_exec(s) {
        let mut v: Vec<u8> = Vec::new();
        v.push(91);
        let mut k: usize = 0;
        while k < n
            invariant
                0 <= k <= n,
                n == s@.len(),
                v@ == seq![91u8] + s@.take(k as int),
            decreases n - k,
        {
            v.push(s[k]);
            k += 1;
            assert(v@ =~= seq![91u8] + s@.take(k as int));
        }
        v.push(93);
        assert(v@ =~= seq![91u8] + s@ + seq![93u8]);
        return Some(v);
    }
    None
}

} // verus!
