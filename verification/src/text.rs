//! Splitting text into lines and comma-separated fields.

use vstd::prelude::*;

verus! {

/// The fields of `s` split on the separator `sep`, in order. There is always
/// at least one field; a separator at the start or the end contributes an
/// empty field there, and `n` separators yield exactly `n + 1` fields.
pub open spec fn spec_split(s: Seq<char>, sep: char) -> Seq<Seq<char>>
    decreases s.len(),
{
    if s.len() == 0 {
        seq![Seq::<char>::empty()]
    } else if s[0] == sep {
        seq![Seq::<char>::empty()] + spec_split(s.drop_first(), sep)
    } else {
        let rest = spec_split(s.drop_first(), sep);
        seq![seq![s[0]] + rest[0]] + rest.drop_first()
    }
}

pub proof fn lemma_split_len(s: Seq<char>, sep: char)
    ensures
        spec_split(s, sep).len() >= 1,
    decreases s.len(),
{
    if s.len() == 0 {
    } else {
        lemma_split_len(s.drop_first(), sep);
    }
}

/// A separator-free text is a single field.
pub proof fn lemma_split_no_sep(s: Seq<char>, sep: char)
    requires
        forall|k: int| 0 <= k < s.len() ==> s[k] != sep,
    ensures
        spec_split(s, sep) == seq![s],
    decreases s.len(),
{
    if s.len() == 0 {
        assert(s =~= Seq::<char>::empty());
        assert(spec_split(s, sep) =~~= seq![s]);
    } else {
        lemma_split_no_sep(s.drop_first(), sep);
        lemma_split_len(s.drop_first(), sep);
        assert(seq![s[0]] + s.drop_first() =~= s);
        assert(spec_split(s, sep) =~~= seq![s]);
    }
}

/// Splitting `a + [sep] + b`, with `a` separator-free, yields `a` followed by
/// the fields of `b`.
pub proof fn lemma_split_append(a: Seq<char>, b: Seq<char>, sep: char)
    requires
        forall|k: int| 0 <= k < a.len() ==> a[k] != sep,
    ensures
        spec_split(a + seq![sep] + b, sep) == seq![a] + spec_split(b, sep),
    decreases a.len(),
{
    let s = a + seq![sep] + b;
    if a.len() == 0 {
        assert(s[0] == sep);
        assert(s.drop_first() =~= b);
        assert(a =~= Seq::<char>::empty());
        assert(spec_split(s, sep) =~~= seq![a] + spec_split(b, sep));
    } else {
        assert(s[0] == a[0]);
        assert(s[0] != sep);
        assert(s.drop_first() =~= a.drop_first() + seq![sep] + b);
        lemma_split_append(a.drop_first(), b, sep);
        let rest = spec_split(s.drop_first(), sep);
        assert(rest == seq![a.drop_first()] + spec_split(b, sep));
        assert(rest[0] == a.drop_first());
        assert(seq![s[0]] + rest[0] =~= a);
        assert(rest.drop_first() =~= spec_split(b, sep));
        assert(spec_split(s, sep) =~~= seq![a] + spec_split(b, sep));
    }
}

/// Split `s` on the separator `sep`, returning the fields in order.
pub fn split_str(s: &str, sep: char) -> (r: Vec<String>)
    ensures
        r.deep_view() == spec_split(s@, sep),
{
    let n = s.unicode_len();
    let mut r: Vec<String> = Vec::new();
    let mut start: usize = 0;
    let mut i: usize = 0;
    proof {
        assert(s@.subrange(0, n as int) =~= s@);
    }
    while i < n
        invariant
            start <= i <= n,
            n == s@.len(),
            forall|k: int| start <= k < i ==> s@[k] != sep,
            spec_split(s@, sep) == r.deep_view() + spec_split(
                s@.subrange(start as int, n as int),
                sep,
            ),
        decreases n - i,
    {
        let c = s.get_char(i);
        if c == sep {
            let field = s.substring_char(start, i).to_owned();
            proof {
                let tail = s@.subrange(start as int, n as int);
                assert(field@ + seq![sep] + s@.subrange(i + 1, n as int) =~= tail);
                lemma_split_append(field@, s@.subrange(i + 1, n as int), sep);
            }
            let ghost old_r = r.deep_view();
            r.push(field);
            proof {
                assert(r.deep_view() =~= old_r.push(field@));
                assert(r.deep_view() + spec_split(s@.subrange(i + 1, n as int), sep) =~= old_r
                    + (seq![field@] + spec_split(s@.subrange(i + 1, n as int), sep)));
            }
            start = i + 1;
        }
        i += 1;
    }
    let field = s.substring_char(start, n).to_owned();
    proof {
        lemma_split_no_sep(field@, sep);
    }
    let ghost old_r = r.deep_view();
    r.push(field);
    proof {
        assert(r.deep_view() =~= old_r.push(field@));
        assert(old_r + seq![field@] =~= old_r.push(field@));
    }
    r
}

/// The lines of `s`: the splits on `'\n'`, except that text ending in a
/// newline gets no empty final line (so a table ending in `'\n'` has exactly
/// one line per row, and empty text has no lines at all).
pub open spec fn spec_lines(s: Seq<char>) -> Seq<Seq<char>> {
    let parts = spec_split(s, '\n');
    if parts.len() >= 1 && parts.last().len() == 0 {
        parts.drop_last()
    } else {
        parts
    }
}

/// Split `s` into lines.
pub fn split_lines(s: &str) -> (r: Vec<String>)
    ensures
        r.deep_view() == spec_lines(s@),
{
    let mut parts = split_str(s, '\n');
    proof {
        lemma_split_len(s@, '\n');
    }
    if parts[parts.len() - 1].as_str().is_empty() {
        let ghost old_parts = parts.deep_view();
        parts.pop();
        proof {
            assert(parts.deep_view() =~= old_parts.drop_last());
        }
    }
    parts
}

} // verus!
