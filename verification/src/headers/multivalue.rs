//! Splitting of a multi-valued attribute.
//!
//! An attribute may carry several logical values in one raw string,
//! separated by `;`; a literal `;` inside a value is escaped as `\;`.  The
//! raw string splits at every `;` that no `\` immediately precedes, and
//! afterwards every remaining two-character `\;` collapses to `;`.  A value
//! ending in a literal `\` is indistinguishable from an escaped separator
//! before an absent following value; both leave a final segment ending in
//! `\`, which matches what the upstream attribute producer emits and is
//! preserved deliberately.

use vstd::prelude::*;
use vstd::string::StrSliceExecFns;
use vstd::string::StringExecFns;

verus! {

/// Whether position `i` of `s` is a split boundary: a `;` that no `\`
/// immediately precedes.
pub open spec fn is_boundary(s: Seq<char>, i: int) -> bool {
    s[i] == ';' && (i == 0 || s[i - 1] != '\\')
}

/// The raw (still escaped) segments of `s[i..]`, with `start` marking where
/// the segment under construction began.
pub open spec fn raw_segments_from(s: Seq<char>, i: int, start: int) -> Seq<Seq<char>>
    decreases s.len() - i,
{
    if i < 0 || i >= s.len() {
        seq![s.subrange(start, s.len() as int)]
    } else if is_boundary(s, i) {
        seq![s.subrange(start, i)] + raw_segments_from(s, i + 1, i + 1)
    } else {
        raw_segments_from(s, i + 1, start)
    }
}

/// The raw (still escaped) segments of `s`.  Splitting never yields fewer
/// than one segment: an empty input carries one empty value.
pub open spec fn raw_segments(s: Seq<char>) -> Seq<Seq<char>> {
    raw_segments_from(s, 0, 0)
}

/// `seg` with every two-character `\;` collapsed to `;`, scanning left to
/// right; any other `\` stays untouched.
pub open spec fn unescape(s: Seq<char>) -> Seq<char>
    decreases s.len(),
{
    if s.len() >= 2 && s[0] == '\\' && s[1] == ';' {
        seq![';'] + unescape(s.subrange(2, s.len() as int))
    } else if s.len() >= 1 {
        seq![s[0]] + unescape(s.subrange(1, s.len() as int))
    } else {
        Seq::<char>::empty()
    }
}

/// The logical values encoded by the raw multi-valued text `s`: its raw
/// segments, each unescaped.
pub open spec fn multi_values(s: Seq<char>) -> Seq<Seq<char>> {
    raw_segments(s).map_values(|seg: Seq<char>| unescape(seg))
}

/// Unescape the characters `from..to` of `s`.
fn unescape_segment(s: &str, from: usize, to: usize) -> (r: String)
    requires
        from <= to <= s@.len(),
    ensures
        r@ == unescape(s@.subrange(from as int, to as int)),
{
    let mut out = String::new();
    let mut j = from;
    while j < to
        invariant
            from <= j <= to <= s@.len(),
            out@ + unescape(s@.subrange(j as int, to as int)) == unescape(
                s@.subrange(from as int, to as int),
            ),
        decreases to - j,
    {
        let c = s.get_char(j);
        let ghost rest = s@.subrange(j as int, to as int);
        if c == '\\' && j + 1 < to && s.get_char(j + 1) == ';' {
            proof {
                reveal_strlit(";");
                assert(";"@ =~= seq![';']);
                assert(rest.subrange(2, rest.len() as int) =~= s@.subrange(
                    j + 2,
                    to as int,
                ));
            }
            out.append(";");
            j = j + 2;
        } else {
            let piece = s.substring_char(j, j + 1);
            proof {
                assert(piece@ =~= seq![s@[j as int]]);
                assert(rest.subrange(1, rest.len() as int) =~= s@.subrange(
                    j + 1,
                    to as int,
                ));
                if c == '\\' && j + 1 < to {
                    assert(rest.len() >= 2 && !(rest[0] == '\\' && rest[1] == ';'));
                }
            }
            out.append(piece);
            j = j + 1;
        }
    }
    proof {
        assert(s@.subrange(to as int, to as int) =~= Seq::<char>::empty());
    }
    out
}

/// Split the raw text of a multi-valued attribute into its logical values.
pub fn split_multi_values(s: &str) -> (r: Vec<String>)
    ensures
        r.deep_view() == multi_values(s@),
        r.len() >= 1,
{
    let len = s.unicode_len();
    let mut out: Vec<String> = Vec::new();
    let ghost mut done: Seq<Seq<char>> = Seq::empty();
    let mut start: usize = 0;
    let mut i: usize = 0;
    while i < len
        invariant
            start <= i <= len,
            len == s@.len(),
            raw_segments(s@) == done + raw_segments_from(s@, i as int, start as int),
            out.len() == done.len(),
            forall|k: int| 0 <= k < done.len() ==> out@[k]@ == unescape(done[k]),
        decreases len - i,
    {
        let c = s.get_char(i);
        let escaped = i > 0 && s.get_char(i - 1) == '\\';
        if c == ';' && !escaped {
            let seg = unescape_segment(s, start, i);
            out.push(seg);
            proof {
                done = done.push(s@.subrange(start as int, i as int));
                assert(raw_segments(s@) =~= done + raw_segments_from(s@, i + 1, i + 1));
            }
            start = i + 1;
        }
        i = i + 1;
    }
    let seg = unescape_segment(s, start, len);
    out.push(seg);
    proof {
        done = done.push(s@.subrange(start as int, len as int));
        assert(raw_segments(s@) =~= done);
        assert(out.deep_view() =~~= multi_values(s@));
    }
    out
}

} // verus!
