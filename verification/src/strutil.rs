//! Character-level helpers shared by the hostname, extractor and parser code.
//!
//! Hostnames and labels in this crate are ASCII; specifications are stated
//! over `Seq<char>` views and the executable code walks strings with the
//! character accessors of vstd.

use vstd::prelude::*;
use vstd::string::StrSliceExecFns;
use vstd::utf8::is_ascii_chars;

verus! {

/// ASCII lower-casing of one character; everything else is untouched.
pub open spec fn to_lower_char(c: char) -> char {
    if 'A' <= c && c <= 'Z' {
        (((c as u32) + 32) as char)
    } else {
        c
    }
}

/// ASCII lower-casing of a whole character sequence.
pub open spec fn lower(s: Seq<char>) -> Seq<char> {
    s.map_values(|c: char| to_lower_char(c))
}

/// Lower-casing is idempotent.
pub proof fn lemma_lower_idempotent(s: Seq<char>)
    ensures
        lower(lower(s)) == lower(s),
{
    assert(lower(lower(s)) =~= lower(s));
}

/// Compare two string slices by their character sequences.
pub fn str_eq(a: &str, b: &str) -> (r: bool)
    ensures
        r == (a@ == b@),
{
    let an = a.unicode_len();
    let bn = b.unicode_len();
    if an != bn {
        return false;
    }
    let mut i: usize = 0;
    while i < an
        invariant
            i <= an,
            an == a@.len(),
            bn == b@.len(),
            an == bn,
            forall|j: int| 0 <= j < i ==> a@[j] == b@[j],
        decreases an - i,
    {
        if a.get_char(i) != b.get_char(i) {
            return false;
        }
        i += 1;
    }
    proof {
        assert(a@ =~= b@);
    }
    true
}

/// Does `s` start with the prefix `p`?
pub fn str_starts_with(s: &str, p: &str) -> (r: bool)
    ensures
        r == (s@.len() >= p@.len() && s@.subrange(0, p@.len() as int) == p@),
{
    let sn = s.unicode_len();
    let pn = p.unicode_len();
    if sn < pn {
        return false;
    }
    let mut i: usize = 0;
    while i < pn
        invariant
            i <= pn,
            sn == s@.len(),
            pn == p@.len(),
            sn >= pn,
            forall|j: int| 0 <= j < i ==> s@[j] == p@[j],
        decreases pn - i,
    {
        if s.get_char(i) != p.get_char(i) {
            proof {
                assert(s@.subrange(0, p@.len() as int)[i as int] != p@[i as int]);
            }
            return false;
        }
        i += 1;
    }
    proof {
        assert(s@.subrange(0, p@.len() as int) =~= p@);
    }
    true
}

/// Does `s` end with the suffix `p`?
pub fn str_ends_with(s: &str, p: &str) -> (r: bool)
    ensures
        r == (s@.len() >= p@.len() && s@.subrange(s@.len() - p@.len(), s@.len() as int) == p@),
{
    let sn = s.unicode_len();
    let pn = p.unicode_len();
    if sn < pn {
        return false;
    }
    let off = sn - pn;
    let mut i: usize = 0;
    while i < pn
        invariant
            i <= pn,
            sn == s@.len(),
            pn == p@.len(),
            sn >= pn,
            off == sn - pn,
            forall|j: int| 0 <= j < i ==> s@[off + j] == p@[j],
        decreases pn - i,
    {
        if s.get_char(off + i) != p.get_char(i) {
            proof {
                assert(s@.subrange(s@.len() - p@.len(), s@.len() as int)[i as int] != p@[i as int]);
            }
            return false;
        }
        i += 1;
    }
    proof {
        assert(s@.subrange(s@.len() - p@.len(), s@.len() as int) =~= p@);
    }
    true
}

/// First occurrence of `c` in `s` at or after `start`.
pub fn find_char_from(s: &str, c: char, start: usize) -> (r: Option<usize>)
    requires
        start <= s@.len(),
    ensures
        match r {
            Some(i) => {
                &&& start <= i < s@.len()
                &&& s@[i as int] == c
                &&& forall|j: int| start <= j < i ==> s@[j] != c
            },
            None => forall|j: int| start <= j < s@.len() ==> s@[j] != c,
        },
{
    let n = s.unicode_len();
    let mut i: usize = start;
    while i < n
        invariant
            start <= i <= n,
            n == s@.len(),
            forall|j: int| start <= j < i ==> s@[j] != c,
        decreases n - i,
    {
        if s.get_char(i) == c {
            return Some(i);
        }
        i += 1;
    }
    None
}

/// Splitting a character sequence on a separator; an empty input yields one
/// empty piece, and every separator opens a new piece.
pub open spec fn split_on(s: Seq<char>, c: char) -> Seq<Seq<char>>
    decreases s.len(),
{
    if s.len() == 0 {
        seq![Seq::<char>::empty()]
    } else if s[0] == c {
        seq![Seq::<char>::empty()] + split_on(s.drop_first(), c)
    } else {
        let r = split_on(s.drop_first(), c);
        seq![seq![s[0]] + r[0]] + r.drop_first()
    }
}

pub proof fn lemma_split_on_nonempty(s: Seq<char>, c: char)
    ensures
        split_on(s, c).len() >= 1,
    decreases s.len(),
{
    if s.len() > 0 && s[0] != c {
        lemma_split_on_nonempty(s.drop_first(), c);
    }
}

/// A sequence without the separator splits into itself alone.
pub proof fn lemma_split_on_whole(s: Seq<char>, c: char)
    requires
        forall|j: int| 0 <= j < s.len() ==> s[j] != c,
    ensures
        split_on(s, c) == seq![s],
    decreases s.len(),
{
    if s.len() == 0 {
        assert(s =~= Seq::<char>::empty());
        assert(split_on(s, c) =~~= seq![s]);
    } else {
        let d = s.drop_first();
        lemma_split_on_whole(d, c);
        let r = split_on(d, c);
        assert(r == seq![d]);
        assert(r[0] == d);
        assert(seq![s[0]] + d =~= s);
        assert(r.drop_first() =~= Seq::<Seq<char>>::empty());
        assert(split_on(s, c) =~~= seq![s]);
    }
}

/// Splitting at the first separator: the piece before it, then the split of
/// what follows it.
pub proof fn lemma_split_on_chunk(s: Seq<char>, c: char, i: int)
    requires
        0 <= i < s.len(),
        s[i] == c,
        forall|j: int| 0 <= j < i ==> s[j] != c,
    ensures
        split_on(s, c) == seq![s.take(i)] + split_on(s.skip(i + 1), c),
    decreases i,
{
    if i == 0 {
        assert(s.take(0) =~= Seq::<char>::empty());
        assert(s.skip(1) =~= s.drop_first());
        assert(split_on(s, c) =~= seq![s.take(0)] + split_on(s.skip(1), c));
    } else {
        let d = s.drop_first();
        lemma_split_on_chunk(d, c, i - 1);
        lemma_split_on_nonempty(d.skip(i), c);
        assert(d.take(i - 1) =~= s.take(i).drop_first());
        assert(d.skip(i) =~= s.skip(i + 1));
        let r = split_on(d, c);
        assert(r[0] == d.take(i - 1));
        assert(seq![s[0]] + r[0] =~= s.take(i));
        assert(r.drop_first() =~= split_on(s.skip(i + 1), c));
        assert(split_on(s, c) =~= seq![s.take(i)] + split_on(s.skip(i + 1), c));
    }
}

/// The character sequences behind a vector of strings.
pub open spec fn str_views(v: Seq<String>) -> Seq<Seq<char>> {
    v.map_values(|x: String| x@)
}

/// Split a string on a separator character.
pub fn split_str(s: &str, c: char) -> (r: Vec<String>)
    ensures
        str_views(r@) == split_on(s@, c),
{
    let n = s.unicode_len();
    let mut out: Vec<String> = Vec::new();
    let mut start: usize = 0;
    proof {
        assert(s@.skip(0) =~= s@);
        assert(str_views(out@) + split_on(s@, c) =~= split_on(s@, c));
    }
    loop
        invariant
            start <= n,
            n == s@.len(),
            split_on(s@, c) == str_views(out@) + split_on(s@.skip(start as int), c),
        decreases n - start,
    {
        match find_char_from(s, c, start) {
            Some(i) => {
                let piece = s.substring_char(start, i).to_owned();
                proof {
                    let rest = s@.skip(start as int);
                    lemma_split_on_chunk(rest, c, i - start);
                    assert(rest.take(i - start) =~= s@.subrange(start as int, i as int));
                    assert(rest.skip(i - start + 1) =~= s@.skip(i + 1));
                    assert(str_views(out@.push(piece)) =~= str_views(out@).push(piece@));
                    assert(str_views(out@) + split_on(s@.skip(start as int), c) =~= str_views(
                        out@.push(piece),
                    ) + split_on(s@.skip(i + 1), c));
                }
                out.push(piece);
                start = i + 1;
            },
            None => {
                let piece = s.substring_char(start, n).to_owned();
                proof {
                    let rest = s@.skip(start as int);
                    lemma_split_on_whole(rest, c);
                    assert(rest =~= s@.subrange(start as int, n as int));
                    assert(str_views(out@.push(piece)) =~= str_views(out@).push(piece@));
                    assert(str_views(out@) + split_on(s@.skip(start as int), c) =~= str_views(
                        out@.push(piece),
                    ));
                }
                out.push(piece);
                return out;
            },
        }
    }
}

/// The whitespace characters the parsers recognize.
pub open spec fn is_space(c: char) -> bool {
    c == ' ' || c == '\t' || c == '\r' || c == '\n'
}

/// Executable mirror of `is_space`.
pub fn is_space_exec(c: char) -> (r: bool)
    ensures
        r == is_space(c),
{
    c == ' ' || c == '\t' || c == '\r' || c == '\n'
}

/// The sequence without leading whitespace.
pub open spec fn trim_start_spec(s: Seq<char>) -> Seq<char>
    decreases s.len(),
{
    if s.len() > 0 && is_space(s[0]) {
        trim_start_spec(s.drop_first())
    } else {
        s
    }
}

/// The sequence without trailing whitespace.
pub open spec fn trim_end_spec(s: Seq<char>) -> Seq<char>
    decreases s.len(),
{
    if s.len() > 0 && is_space(s.last()) {
        trim_end_spec(s.drop_last())
    } else {
        s
    }
}

/// The sequence without leading and trailing whitespace.
pub open spec fn trim_spec(s: Seq<char>) -> Seq<char> {
    trim_end_spec(trim_start_spec(s))
}

/// Trim whitespace from both ends of a string slice.
pub fn trim_str<'a>(s: &'a str) -> (r: &'a str)
    ensures
        r@ == trim_spec(s@),
{
    let n = s.unicode_len();
    let mut a: usize = 0;
    proof {
        assert(s@.skip(0) =~= s@);
    }
    while a < n && is_space_exec(s.get_char(a))
        invariant
            a <= n,
            n == s@.len(),
            trim_start_spec(s@) == trim_start_spec(s@.skip(a as int)),
        decreases n - a,
    {
        proof {
            assert(s@.skip(a as int).drop_first() =~= s@.skip(a + 1));
        }
        a += 1;
    }
    proof {
        if a < n {
            assert(trim_start_spec(s@.skip(a as int)) == s@.skip(a as int));
        } else {
            assert(s@.skip(a as int) =~= Seq::<char>::empty());
        }
        assert(trim_start_spec(s@) == s@.subrange(a as int, n as int)) by {
            assert(s@.skip(a as int) =~= s@.subrange(a as int, n as int));
        }
    }
    let mut b: usize = n;
    while b > a && is_space_exec(s.get_char(b - 1))
        invariant
            a <= b <= n,
            n == s@.len(),
            trim_end_spec(s@.subrange(a as int, n as int)) == trim_end_spec(
                s@.subrange(a as int, b as int),
            ),
        decreases b,
    {
        proof {
            assert(s@.subrange(a as int, b as int).drop_last() =~= s@.subrange(a as int, b - 1));
        }
        b -= 1;
    }
    proof {
        assert(trim_end_spec(s@.subrange(a as int, b as int)) == s@.subrange(a as int, b as int));
    }
    s.substring_char(a, b)
}

/// The whitespace-separated tokens of a sequence, in order.
pub open spec fn tokens(s: Seq<char>) -> Seq<Seq<char>>
    decreases s.len(),
{
    if s.len() == 0 {
        seq![]
    } else if is_space(s[0]) {
        tokens(s.drop_first())
    } else {
        let r = tokens(s.drop_first());
        if s.len() > 1 && !is_space(s[1]) {
            seq![seq![s[0]] + r[0]] + r.drop_first()
        } else {
            seq![seq![s[0]]] + r
        }
    }
}

/// Reading one whole token from the front: if the first `i` characters are
/// solid and a boundary follows, they form the first token.
proof fn lemma_tokens_chunk(s: Seq<char>, i: int)
    requires
        0 < i <= s.len(),
        forall|j: int| 0 <= j < i ==> !is_space(#[trigger] s[j]),
        i == s.len() || is_space(s[i]),
    ensures
        tokens(s) == seq![s.take(i)] + tokens(s.skip(i)),
    decreases i,
{
    if i == 1 {
        if s.len() > 1 && !is_space(s[1]) {
            assert(false);
        }
        assert(s.take(1) =~= seq![s[0]]);
        assert(s.skip(1) =~= s.drop_first());
        assert(tokens(s) =~= seq![s.take(1)] + tokens(s.skip(1)));
    } else {
        let d = s.drop_first();
        lemma_tokens_chunk(d, i - 1);
        assert(d.take(i - 1) =~= s.take(i).drop_first());
        assert(d.skip(i - 1) =~= s.skip(i));
        let r = tokens(d);
        assert(r[0] == d.take(i - 1));
        assert(seq![s[0]] + r[0] =~= s.take(i));
        assert(r.drop_first() =~= tokens(s.skip(i)));
        assert(tokens(s) =~= seq![s.take(i)] + tokens(s.skip(i)));
    }
}

/// First whitespace character of `s` at or after `start`.
pub fn find_space_from(s: &str, start: usize) -> (r: Option<usize>)
    requires
        start <= s@.len(),
    ensures
        match r {
            Some(i) => {
                &&& start <= i < s@.len()
                &&& is_space(s@[i as int])
                &&& forall|j: int| start <= j < i ==> !is_space(#[trigger] s@[j])
            },
            None => forall|j: int| start <= j < s@.len() ==> !is_space(#[trigger] s@[j]),
        },
{
    let n = s.unicode_len();
    let mut i: usize = start;
    while i < n
        invariant
            start <= i <= n,
            n == s@.len(),
            forall|j: int| start <= j < i ==> !is_space(#[trigger] s@[j]),
        decreases n - i,
    {
        if is_space_exec(s.get_char(i)) {
            return Some(i);
        }
        i += 1;
    }
    None
}

/// Split a string into its whitespace-separated tokens.
pub fn split_tokens(s: &str) -> (r: Vec<String>)
    ensures
        str_views(r@) == tokens(s@),
{
    let n = s.unicode_len();
    let mut out: Vec<String> = Vec::new();
    let mut start: usize = 0;
    proof {
        assert(s@.skip(0) =~= s@);
        assert(str_views(out@) + tokens(s@) =~= tokens(s@));
    }
    loop
        invariant
            start <= n,
            n == s@.len(),
            tokens(s@) == str_views(out@) + tokens(s@.skip(start as int)),
        decreases n - start,
    {
        if start >= n {
            proof {
                assert(s@.skip(start as int) =~= Seq::<char>::empty());
                assert(str_views(out@) + tokens(s@.skip(start as int)) =~= str_views(out@));
            }
            return out;
        }
        if is_space_exec(s.get_char(start)) {
            proof {
                assert(s@.skip(start as int).drop_first() =~= s@.skip(start + 1));
            }
            start = start + 1;
        } else {
            let end = match find_space_from(s, start) {
                Some(i) => i,
                None => n,
            };
            let piece = s.substring_char(start, end).to_owned();
            proof {
                let rest = s@.skip(start as int);
                lemma_tokens_chunk(rest, end - start);
                assert(rest.take(end - start) =~= s@.subrange(start as int, end as int));
                assert(rest.skip(end - start) =~= s@.skip(end as int));
                assert(str_views(out@.push(piece)) =~= str_views(out@).push(piece@));
                assert(str_views(out@) + tokens(s@.skip(start as int)) =~= str_views(
                    out@.push(piece),
                ) + tokens(s@.skip(end as int)));
            }
            out.push(piece);
            start = end;
        }
    }
}

/// The value of the first pair whose key matches, if any.
pub open spec fn assoc(pairs: Seq<(String, String)>, key: Seq<char>) -> Option<Seq<char>>
    decreases pairs.len(),
{
    if pairs.len() == 0 {
        None
    } else if pairs[0].0@ == key {
        Some(pairs[0].1@)
    } else {
        assoc(pairs.drop_first(), key)
    }
}

/// If the first `i` keys miss and pair `i` hits, the lookup yields value `i`.
pub proof fn lemma_assoc_at(pairs: Seq<(String, String)>, key: Seq<char>, i: int)
    requires
        0 <= i < pairs.len(),
        forall|j: int| 0 <= j < i ==> #[trigger] pairs[j].0@ != key,
        pairs[i].0@ == key,
    ensures
        assoc(pairs, key) == Some(pairs[i].1@),
    decreases i,
{
    if i > 0 {
        lemma_assoc_at(pairs.drop_first(), key, i - 1);
    }
}

/// If no key matches, the lookup yields nothing.
pub proof fn lemma_assoc_none(pairs: Seq<(String, String)>, key: Seq<char>)
    requires
        forall|j: int| 0 <= j < pairs.len() ==> #[trigger] pairs[j].0@ != key,
    ensures
        assoc(pairs, key) is None,
    decreases pairs.len(),
{
    if pairs.len() > 0 {
        lemma_assoc_none(pairs.drop_first(), key);
    }
}

/// Find the value of the first pair whose key equals `key`.
pub fn assoc_get<'a>(pairs: &'a Vec<(String, String)>, key: &str) -> (r: Option<&'a String>)
    ensures
        match r {
            Some(v) => assoc(pairs@, key@) == Some(v@),
            None => assoc(pairs@, key@) is None,
        },
{
    let mut i: usize = 0;
    while i < pairs.len()
        invariant
            i <= pairs@.len(),
            forall|j: int| 0 <= j < i ==> #[trigger] pairs@[j].0@ != key@,
        decreases pairs@.len() - i,
    {
        if str_eq(pairs[i].0.as_str(), key) {
            proof {
                lemma_assoc_at(pairs@, key@, i as int);
            }
            return Some(&pairs[i].1);
        }
        i += 1;
    }
    proof {
        lemma_assoc_none(pairs@, key@);
    }
    None
}

/// Relies on `String::from_utf8`: bytes below 0x80 are valid UTF-8 and decode
/// to exactly one character per byte.
#[verifier::external_body]
fn bytes_to_string(v: Vec<u8>) -> (r: String)
    requires
        forall|i: int| 0 <= i < v@.len() ==> v@[i] < 128,
    ensures
        r@ == v@.map_values(|b: u8| b as char),
{
    match String::from_utf8(v) {
        Ok(s) => s,
        Err(_) => String::new(),
    }
}

/// Lower-case an ASCII string.
pub fn ascii_lower(s: &str) -> (r: String)
    requires
        is_ascii_chars(s@),
    ensures
        r@ == lower(s@),
        is_ascii_chars(r@),
{
    proof {
        vstd::string::is_ascii_spec_bytes(s);
    }
    let bytes = s.as_bytes_vec();
    let mut out: Vec<u8> = Vec::new();
    let mut i: usize = 0;
    while i < bytes.len()
        invariant
            i <= bytes@.len(),
            bytes@.len() == s@.len(),
            forall|j: int| 0 <= j < s@.len() ==> bytes@[j] == (s@[j] as u8),
            forall|j: int| 0 <= j < s@.len() ==> (s@[j] as u32) < 128,
            out@.len() == i,
            forall|j: int| 0 <= j < i ==> out@[j] < 128,
            forall|j: int| 0 <= j < i ==> (out@[j] as char) == to_lower_char(s@[j]),
        decreases bytes@.len() - i,
    {
        let b = bytes[i];
        let lb: u8 = if 65 <= b && b <= 90 {
            b + 32
        } else {
            b
        };
        proof {
            let c = s@[i as int];
            vstd::utf8::char_u32_cast(c, c as u32);
            assert((c as u8) as u32 == c as u32);
            if 'A' <= c && c <= 'Z' {
                vstd::utf8::char_u32_cast(to_lower_char(c), ((c as u32) + 32) as u32);
                assert((lb as char) == to_lower_char(c));
            } else {
                assert((lb as char) == c);
            }
        }
        out.push(lb);
        i += 1;
    }
    let r = bytes_to_string(out);
    proof {
        assert(r@ =~= lower(s@));
    }
    r
}

} // verus!
