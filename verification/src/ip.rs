//! Syntax of address literals, used to classify rewrite values and to
//! validate the data of an address record.

use vstd::prelude::*;
use vstd::string::StrSliceExecFns;

use crate::strutil::{find_char_from, split_on, split_str, str_views};

verus! {

pub open spec fn is_digit(c: char) -> bool {
    '0' <= c && c <= '9'
}

pub open spec fn digit_val(c: char) -> int {
    (c as u32) - 48
}

/// The numeric value of a digit sequence read in base ten.
pub open spec fn dec_val(s: Seq<char>) -> int
    decreases s.len(),
{
    if s.len() == 0 {
        0
    } else {
        dec_val(s.drop_last()) * 10 + digit_val(s.last())
    }
}

pub proof fn lemma_dec_val_nonneg(s: Seq<char>)
    requires
        forall|i: int| 0 <= i < s.len() ==> is_digit(#[trigger] s[i]),
    ensures
        dec_val(s) >= 0,
    decreases s.len(),
{
    if s.len() > 0 {
        lemma_dec_val_nonneg(s.drop_last());
    }
}

/// The value of a proper prefix never exceeds the value of the whole.
pub proof fn lemma_dec_val_prefix(s: Seq<char>, i: int)
    requires
        forall|j: int| 0 <= j < s.len() ==> is_digit(#[trigger] s[j]),
        0 <= i <= s.len(),
    ensures
        dec_val(s.take(i)) <= dec_val(s),
    decreases s.len() - i,
{
    if i < s.len() {
        lemma_dec_val_prefix(s, i + 1);
        let t = s.take(i + 1);
        assert(t.drop_last() =~= s.take(i));
        assert(dec_val(t) == dec_val(s.take(i)) * 10 + digit_val(s[i]));
        lemma_dec_val_nonneg(s.take(i));
    } else {
        assert(s.take(i) =~= s);
    }
}

/// Parse a decimal string as a `u32`; `None` on an empty string, a non-digit,
/// or overflow.
pub fn parse_dec_u32(s: &str) -> (r: Option<u32>)
    ensures
        match r {
            Some(v) => {
                &&& s@.len() > 0
                &&& forall|i: int| 0 <= i < s@.len() ==> ('0' <= #[trigger] s@[i] <= '9')
                &&& v == dec_val(s@)
                &&& dec_val(s@) <= u32::MAX
            },
            None => {
                ||| s@.len() == 0
                ||| (exists|i: int| 0 <= i < s@.len() && !('0' <= #[trigger] s@[i] <= '9'))
                ||| dec_val(s@) > u32::MAX
            },
        },
{
    let n = s.unicode_len();
    if n == 0 {
        return None;
    }
    let mut acc: u32 = 0;
    let mut i: usize = 0;
    while i < n
        invariant
            0 <= i <= n,
            n == s@.len(),
            forall|j: int| 0 <= j < i ==> is_digit(#[trigger] s@[j]),
            acc == dec_val(s@.take(i as int)),
        decreases n - i,
    {
        let c = s.get_char(i);
        let u = c as u32;
        if !(48 <= u && u <= 57) {
            return None;
        }
        let d = u - 48;
        if acc > (u32::MAX - d) / 10 {
            proof {
                let t = s@.take(i + 1);
                assert(t.drop_last() =~= s@.take(i as int));
                assert(dec_val(t) == acc * 10 + d);
                if forall|j: int| 0 <= j < s@.len() ==> ('0' <= #[trigger] s@[j] <= '9') {
                    lemma_dec_val_prefix(s@, i + 1);
                }
            }
            return None;
        }
        proof {
            let t = s@.take(i + 1);
            assert(t.drop_last() =~= s@.take(i as int));
        }
        acc = acc * 10 + d;
        i += 1;
    }
    proof {
        assert(s@.take(n as int) =~= s@);
    }
    Some(acc)
}

/// One octet of a dotted-quad address: one to three digits, no leading zero,
/// value at most 255.
pub open spec fn is_dec_octet(s: Seq<char>) -> bool {
    &&& 1 <= s.len() <= 3
    &&& forall|i: int| 0 <= i < s.len() ==> is_digit(#[trigger] s[i])
    &&& (s.len() > 1 ==> s[0] != '0')
    &&& dec_val(s) <= 255
}

/// Executable mirror of `is_dec_octet`.
pub fn is_dec_octet_exec(s: &str) -> (r: bool)
    ensures
        r == is_dec_octet(s@),
{
    let n = s.unicode_len();
    if n < 1 || n > 3 {
        return false;
    }
    let mut v: u32 = 0;
    let mut i: usize = 0;
    while i < n
        invariant
            0 <= i <= n,
            n == s@.len(),
            n <= 3,
            forall|j: int| 0 <= j < i ==> is_digit(#[trigger] s@[j]),
            v == dec_val(s@.take(i as int)),
            v <= 999,
        decreases n - i,
    {
        let c = s.get_char(i);
        let u = c as u32;
        if !(48 <= u && u <= 57) {
            return false;
        }
        proof {
            let t = s@.take(i + 1);
            assert(t.drop_last() =~= s@.take(i as int));
            lemma_dec_val_small(s@.take(i as int));
        }
        v = v * 10 + (u - 48);
        i += 1;
    }
    proof {
        assert(s@.take(n as int) =~= s@);
    }
    if n > 1 && s.get_char(0) == '0' {
        return false;
    }
    v <= 255
}

proof fn lemma_dec_val_small(s: Seq<char>)
    requires
        forall|i: int| 0 <= i < s.len() ==> is_digit(#[trigger] s[i]),
        s.len() <= 2,
    ensures
        dec_val(s) <= 99,
{
    if s.len() > 0 {
        if s.len() == 1 {
            assert(s.drop_last() =~= Seq::<char>::empty());
            assert(dec_val(s.drop_last()) == 0);
            assert(digit_val(s.last()) <= 9);
        } else {
            let d = s.drop_last();
            assert(d.drop_last() =~= Seq::<char>::empty());
            assert(dec_val(d.drop_last()) == 0);
            assert(is_digit(d.last()));
            assert(dec_val(d) == digit_val(d.last()));
            assert(dec_val(d) <= 9);
            assert(digit_val(s.last()) <= 9);
        }
    }
}

/// A dotted-quad address literal: four octets separated by three dots.
pub open spec fn ipv4_parts(s: Seq<char>, i: int, j: int, k: int) -> bool {
    &&& 0 <= i < j < k < s.len()
    &&& forall|m: int|
        0 <= m < s.len() ==> ((#[trigger] s[m] == '.') <==> (m == i || m == j || m == k))
    &&& is_dec_octet(s.subrange(0, i))
    &&& is_dec_octet(s.subrange(i + 1, j))
    &&& is_dec_octet(s.subrange(j + 1, k))
    &&& is_dec_octet(s.subrange(k + 1, s.len() as int))
}

pub open spec fn is_ipv4_chars(s: Seq<char>) -> bool {
    exists|i: int, j: int, k: int| ipv4_parts(s, i, j, k)
}

/// Check a string for dotted-quad address syntax.
pub fn is_ipv4_literal(s: &str) -> (r: bool)
    ensures
        r == is_ipv4_chars(s@),
{
    let n = s.unicode_len();
    let Some(i) = find_char_from(s, '.', 0) else {
        proof {
            assert forall|a: int, b: int, c: int| !ipv4_parts(s@, a, b, c) by {
                if ipv4_parts(s@, a, b, c) {
                    assert(s@[a] == '.');
                }
            }
        }
        return false;
    };
    let Some(j) = find_char_from(s, '.', i + 1) else {
        proof {
            assert forall|a: int, b: int, c: int| !ipv4_parts(s@, a, b, c) by {
                if ipv4_parts(s@, a, b, c) {
                    assert(s@[a] == '.' && s@[b] == '.');
                    assert(a == i || b == i || c == i);
                }
            }
        }
        return false;
    };
    let Some(k) = find_char_from(s, '.', j + 1) else {
        proof {
            assert forall|a: int, b: int, c: int| !ipv4_parts(s@, a, b, c) by {
                if ipv4_parts(s@, a, b, c) {
                    assert(s@[a] == '.' && s@[b] == '.' && s@[c] == '.');
                }
            }
        }
        return false;
    };
    if let Some(m) = find_char_from(s, '.', k + 1) {
        proof {
            assert forall|a: int, b: int, c: int| !ipv4_parts(s@, a, b, c) by {
                if ipv4_parts(s@, a, b, c) {
                    assert(s@[i as int] == '.' && s@[j as int] == '.' && s@[k as int] == '.'
                        && s@[m as int] == '.');
                }
            }
        }
        return false;
    }
    let o1 = is_dec_octet_exec(s.substring_char(0, i));
    let o2 = is_dec_octet_exec(s.substring_char(i + 1, j));
    let o3 = is_dec_octet_exec(s.substring_char(j + 1, k));
    let o4 = is_dec_octet_exec(s.substring_char(k + 1, n));
    let ok = o1 && o2 && o3 && o4;
    proof {
        if ok {
            assert(ipv4_parts(s@, i as int, j as int, k as int));
        } else {
            assert forall|a: int, b: int, c: int| !ipv4_parts(s@, a, b, c) by {
                if ipv4_parts(s@, a, b, c) {
                    assert(s@[a] == '.' && s@[b] == '.' && s@[c] == '.');
                    assert(a == i && b == j && c == k);
                }
            }
        }
    }
    ok
}

pub open spec fn is_hex_digit(c: char) -> bool {
    is_digit(c) || ('a' <= c && c <= 'f') || ('A' <= c && c <= 'F')
}

/// One colon-separated group of a hexadecimal address: one to four hex digits.
pub open spec fn is_h16(s: Seq<char>) -> bool {
    1 <= s.len() <= 4 && forall|i: int| 0 <= i < s.len() ==> is_hex_digit(#[trigger] s[i])
}

pub open spec fn all_h16(p: Seq<Seq<char>>, lo: int, hi: int) -> bool {
    forall|i: int| lo <= i < hi ==> is_h16(#[trigger] p[i])
}

/// A hexadecimal address literal: eight groups, or fewer with one `::`
/// elision at the start, the end, or between two groups.
pub open spec fn is_ipv6_chars(s: Seq<char>) -> bool {
    let p = split_on(s, ':');
    let n = p.len() as int;
    ||| (n == 8 && all_h16(p, 0, 8))
    ||| (n == 3 && p[0].len() == 0 && p[1].len() == 0 && p[2].len() == 0)
    ||| (3 <= n <= 9 && p[0].len() == 0 && p[1].len() == 0 && all_h16(p, 2, n))
    ||| (3 <= n <= 9 && p[n - 1].len() == 0 && p[n - 2].len() == 0 && all_h16(p, 0, n - 2))
    ||| (3 <= n <= 8 && (exists|i: int|
        0 < i < n - 1 && #[trigger] p[i].len() == 0 && all_h16(p, 0, i) && all_h16(p, i + 1, n)))
}

/// Executable mirror of `is_h16`.
pub fn is_h16_exec(s: &str) -> (r: bool)
    ensures
        r == is_h16(s@),
{
    let n = s.unicode_len();
    if n < 1 || n > 4 {
        return false;
    }
    let mut i: usize = 0;
    while i < n
        invariant
            0 <= i <= n,
            n == s@.len(),
            forall|j: int| 0 <= j < i ==> is_hex_digit(#[trigger] s@[j]),
        decreases n - i,
    {
        let c = s.get_char(i);
        let u = c as u32;
        if !((48 <= u && u <= 57) || (97 <= u && u <= 102) || (65 <= u && u <= 70)) {
            return false;
        }
        i += 1;
    }
    true
}

fn all_h16_exec(parts: &Vec<String>, lo: usize, hi: usize) -> (r: bool)
    requires
        lo <= hi <= parts@.len(),
    ensures
        r == all_h16(str_views(parts@), lo as int, hi as int),
{
    let mut i: usize = lo;
    while i < hi
        invariant
            lo <= i <= hi <= parts@.len(),
            forall|j: int| lo <= j < i ==> is_h16(#[trigger] str_views(parts@)[j]),
        decreases hi - i,
    {
        if !is_h16_exec(parts[i].as_str()) {
            proof {
                assert(str_views(parts@)[i as int] == parts@[i as int]@);
            }
            return false;
        }
        i += 1;
    }
    true
}

/// Is there one empty piece strictly between two runs of groups?
fn has_middle_elision(parts: &Vec<String>) -> (r: bool)
    requires
        parts@.len() >= 1,
    ensures
        r == (exists|i: int|
            0 < i < parts@.len() - 1 && #[trigger] str_views(parts@)[i].len() == 0 && all_h16(
                str_views(parts@),
                0,
                i,
            ) && all_h16(str_views(parts@), i + 1, parts@.len() as int)),
{
    let n = parts.len();
    let mut i: usize = 1;
    while n >= 1 && i < n - 1
        invariant
            1 <= i,
            n == parts@.len(),
            n >= 1,
            i <= n || n == 1,
            forall|j: int|
                0 < j < i && j < n - 1 ==> !(#[trigger] str_views(parts@)[j].len() == 0 && all_h16(
                    str_views(parts@),
                    0,
                    j,
                ) && all_h16(str_views(parts@), j + 1, n as int)),
        decreases n - i,
    {
        if parts[i].as_str().is_empty() && all_h16_exec(parts, 0, i) && all_h16_exec(
            parts,
            i + 1,
            n,
        ) {
            proof {
                assert(str_views(parts@)[i as int] == parts@[i as int]@);
            }
            return true;
        }
        i += 1;
    }
    false
}

/// Check a string for hexadecimal address syntax.
pub fn is_ipv6_literal(s: &str) -> (r: bool)
    ensures
        r == is_ipv6_chars(s@),
{
    let parts = split_str(s, ':');
    let n = parts.len();
    proof {
        crate::strutil::lemma_split_on_nonempty(s@, ':');
        assert(n >= 1);
    }
    let c1 = n == 8 && all_h16_exec(&parts, 0, 8);
    let c2 = n == 3 && parts[0].as_str().is_empty() && parts[1].as_str().is_empty()
        && parts[2].as_str().is_empty();
    let c3 = 3 <= n && n <= 9 && parts[0].as_str().is_empty() && parts[1].as_str().is_empty()
        && all_h16_exec(&parts, 2, n);
    let c4 = 3 <= n && n <= 9 && parts[n - 1].as_str().is_empty()
        && parts[n - 2].as_str().is_empty() && all_h16_exec(&parts, 0, n - 2);
    let c5 = 3 <= n && n <= 8 && has_middle_elision(&parts);
    c1 || c2 || c3 || c4 || c5
}

} // verus!
