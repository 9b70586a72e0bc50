//! Parsing the flat rewrite list: each line holds a value and a name, and
//! the value's syntax decides the record type.

use vstd::prelude::*;
use vstd::string::StrSliceExecFns;

use crate::ip::{is_ipv4_chars, is_ipv4_literal, is_ipv6_chars, is_ipv6_literal};
use crate::model::record::{DNSRecord, DNSRecordType};
use crate::strutil::{split_on, split_str, split_tokens, str_views, tokens, trim_spec, trim_str};

verus! {

/// The record type a rewrite value implies: a dotted-quad value is an
/// address record, a hexadecimal address value an `AAAA`, anything else a
/// `CNAME` target.
pub open spec fn classify_value(v: Seq<char>) -> DNSRecordType {
    if is_ipv4_chars(v) {
        DNSRecordType::A
    } else if is_ipv6_chars(v) {
        DNSRecordType::AAAA
    } else {
        DNSRecordType::CNAME
    }
}

/// The `(value, name, type)` triples a sequence of lines parses to; a line
/// without exactly two tokens is skipped.
pub open spec fn parsed_rewrites(lines: Seq<Seq<char>>) -> Seq<
    (Seq<char>, Seq<char>, DNSRecordType),
>
    decreases lines.len(),
{
    if lines.len() == 0 {
        seq![]
    } else {
        let rest = parsed_rewrites(lines.drop_first());
        let tk = tokens(lines[0]);
        if tk.len() == 2 {
            seq![(tk[0], tk[1], classify_value(tk[0]))] + rest
        } else {
            rest
        }
    }
}

/// Parsing distributes over concatenation of line sequences.
pub proof fn lemma_parsed_rewrites_append(a: Seq<Seq<char>>, b: Seq<Seq<char>>)
    ensures
        parsed_rewrites(a + b) == parsed_rewrites(a) + parsed_rewrites(b),
    decreases a.len(),
{
    if a.len() == 0 {
        assert(a + b =~= b);
        assert(parsed_rewrites(a) + parsed_rewrites(b) =~= parsed_rewrites(b));
    } else {
        lemma_parsed_rewrites_append(a.drop_first(), b);
        assert((a + b).drop_first() =~= a.drop_first() + b);
        assert((a + b)[0] == a[0]);
        let tk = tokens(a[0]);
        if tk.len() == 2 {
            assert(parsed_rewrites(a + b) =~= parsed_rewrites(a) + parsed_rewrites(b));
        } else {
            assert(parsed_rewrites(a + b) =~= parsed_rewrites(a) + parsed_rewrites(b));
        }
    }
}

/// Do the records carry exactly these parsed triples, with the fixed
/// time-to-live the parser assigns?
pub open spec fn rewrites_match(
    v: Seq<DNSRecord>,
    p: Seq<(Seq<char>, Seq<char>, DNSRecordType)>,
) -> bool {
    &&& v.len() == p.len()
    &&& forall|i: int|
        0 <= i < v.len() ==> {
            &&& (#[trigger] v[i]).value@ == p[i].0
            &&& v[i].name@ == p[i].1
            &&& v[i].record_type == p[i].2
            &&& v[i].ttl == Some(300u32)
        }
}

/// Parse pre-split lines into rewrite records, skipping lines that do not
/// hold exactly two tokens.
pub fn parse_rewrites_from_iter(lines: &Vec<String>) -> (r: Result<Vec<DNSRecord>, String>)
    ensures
        r matches Ok(v) && rewrites_match(v@, parsed_rewrites(str_views(lines@))),
{
    let mut out: Vec<DNSRecord> = Vec::new();
    let mut i: usize = 0;
    proof {
        assert(str_views(lines@).take(0) =~= Seq::<Seq<char>>::empty());
    }
    while i < lines.len()
        invariant
            i <= lines@.len(),
            rewrites_match(out@, parsed_rewrites(str_views(lines@).take(i as int))),
        decreases lines@.len() - i,
    {
        let line = &lines[i];
        let toks = split_tokens(line.as_str());
        proof {
            let lv = str_views(lines@);
            lemma_parsed_rewrites_append(lv.take(i as int), seq![lv[i as int]]);
            assert(lv.take(i + 1) =~= lv.take(i as int) + seq![lv[i as int]]);
            assert(seq![lv[i as int]].drop_first() =~= Seq::<Seq<char>>::empty());
            assert(parsed_rewrites(Seq::<Seq<char>>::empty()) =~= Seq::<
                (Seq<char>, Seq<char>, DNSRecordType),
            >::empty());
            assert(str_views(toks@) == tokens(line@));
            assert(lv[i as int] == line@);
            let tk = tokens(line@);
            if tk.len() == 2 {
                assert(parsed_rewrites(seq![lv[i as int]]) =~= seq![
                    (tk[0], tk[1], classify_value(tk[0])),
                ]);
            } else {
                assert(parsed_rewrites(seq![lv[i as int]]) =~= Seq::<
                    (Seq<char>, Seq<char>, DNSRecordType),
                >::empty());
                assert(parsed_rewrites(lv.take(i + 1)) =~= parsed_rewrites(lv.take(i as int)));
            }
        }
        if toks.len() == 2 {
            let value = toks[0].clone();
            let name = toks[1].clone();
            let record_type = if is_ipv4_literal(value.as_str()) {
                DNSRecordType::A
            } else if is_ipv6_literal(value.as_str()) {
                DNSRecordType::AAAA
            } else {
                DNSRecordType::CNAME
            };
            proof {
                assert(value@ == str_views(toks@)[0]);
                assert(name@ == str_views(toks@)[1]);
            }
            out.push(DNSRecord { record_type, name, value, ttl: Some(300) });
        }
        i += 1;
    }
    proof {
        assert(str_views(lines@).take(lines@.len() as int) =~= str_views(lines@));
    }
    Ok(out)
}

/// The lines that survive cleanup: trimmed, dropping empties and comments.
pub open spec fn cleaned_lines(lines: Seq<Seq<char>>) -> Seq<Seq<char>>
    decreases lines.len(),
{
    if lines.len() == 0 {
        seq![]
    } else {
        let t = trim_spec(lines[0]);
        let rest = cleaned_lines(lines.drop_first());
        if t.len() > 0 && t[0] != '#' {
            seq![t] + rest
        } else {
            rest
        }
    }
}

/// Cleanup distributes over concatenation of line sequences.
pub proof fn lemma_cleaned_lines_append(a: Seq<Seq<char>>, b: Seq<Seq<char>>)
    ensures
        cleaned_lines(a + b) == cleaned_lines(a) + cleaned_lines(b),
    decreases a.len(),
{
    if a.len() == 0 {
        assert(a + b =~= b);
        assert(cleaned_lines(a) + cleaned_lines(b) =~= cleaned_lines(b));
    } else {
        lemma_cleaned_lines_append(a.drop_first(), b);
        assert((a + b).drop_first() =~= a.drop_first() + b);
        assert((a + b)[0] == a[0]);
        assert(cleaned_lines(a + b) =~= cleaned_lines(a) + cleaned_lines(b));
    }
}

/// Parse a whole stored rewrite list: split into lines, trim each, drop
/// empty lines and `#` comments, then parse what remains.
pub fn parse_rewrites_from_str(s: &str) -> (r: Result<Vec<DNSRecord>, String>)
    ensures
        r matches Ok(v) && rewrites_match(
            v@,
            parsed_rewrites(cleaned_lines(split_on(s@, '\n'))),
        ),
{
    let raw = split_str(s, '\n');
    let mut cleaned: Vec<String> = Vec::new();
    let mut i: usize = 0;
    proof {
        assert(str_views(raw@).take(0) =~= Seq::<Seq<char>>::empty());
        assert(cleaned_lines(Seq::<Seq<char>>::empty()) =~= Seq::<Seq<char>>::empty());
    }
    while i < raw.len()
        invariant
            i <= raw@.len(),
            str_views(raw@) == split_on(s@, '\n'),
            str_views(cleaned@) == cleaned_lines(str_views(raw@).take(i as int)),
        decreases raw@.len() - i,
    {
        let t = trim_str(raw[i].as_str());
        proof {
            let rv = str_views(raw@);
            lemma_cleaned_lines_append(rv.take(i as int), seq![rv[i as int]]);
            assert(rv.take(i + 1) =~= rv.take(i as int) + seq![rv[i as int]]);
            assert(seq![rv[i as int]].drop_first() =~= Seq::<Seq<char>>::empty());
            assert(cleaned_lines(Seq::<Seq<char>>::empty()) =~= Seq::<Seq<char>>::empty());
            assert(rv[i as int] == raw@[i as int]@);
            assert(t@ == trim_spec(rv[i as int]));
            if t@.len() > 0 && t@[0] != '#' {
                assert(cleaned_lines(seq![rv[i as int]]) =~= seq![t@]);
            } else {
                assert(cleaned_lines(seq![rv[i as int]]) =~= Seq::<Seq<char>>::empty());
            }
        }
        if t.unicode_len() > 0 && t.get_char(0) != '#' {
            let kept = t.to_owned();
            proof {
                assert(str_views(cleaned@.push(kept)) =~= str_views(cleaned@).push(kept@));
                assert(cleaned_lines(str_views(raw@).take(i + 1)) =~= str_views(cleaned@).push(
                    kept@,
                ));
            }
            cleaned.push(kept);
        } else {
            proof {
                assert(cleaned_lines(str_views(raw@).take(i + 1)) =~= str_views(cleaned@));
            }
        }
        i += 1;
    }
    proof {
        assert(str_views(raw@).take(raw@.len() as int) =~= str_views(raw@));
    }
    parse_rewrites_from_iter(&cleaned)
}

} // verus!
