//! Splitting text on a separator character, with the lemmas that relate a
//! split to the concatenation it came from. The command tokenizer splits on
//! single spaces and the configuration parser splits on line feeds.

use vstd::prelude::*;
use vstd::string::*;

verus! {

/// No character of `s` equals `sep`.
pub open spec fn has_no(s: Seq<char>, sep: char) -> bool {
    forall|k: int| 0 <= k < s.len() ==> s[k] != sep
}

/// The pieces of `s` between occurrences of `sep`. Splitting the empty
/// sequence gives one empty piece; every occurrence of `sep` ends a piece.
pub open spec fn spec_split(s: Seq<char>, sep: char) -> Seq<Seq<char>>
    decreases s.len(),
{
    if s.len() == 0 {
        seq![Seq::<char>::empty()]
    } else if s[0] == sep {
        seq![Seq::<char>::empty()] + spec_split(s.skip(1), sep)
    } else {
        let r = spec_split(s.skip(1), sep);
        seq![seq![s[0]] + r[0]] + r.skip(1)
    }
}

/// A split always has at least one piece.
pub proof fn lemma_split_len(s: Seq<char>, sep: char)
    ensures
        spec_split(s, sep).len() >= 1,
    decreases s.len(),
{
    if s.len() == 0 {
    } else {
        lemma_split_len(s.skip(1), sep);
    }
}

/// Text free of the separator splits into itself alone.
pub proof fn lemma_split_single(s: Seq<char>, sep: char)
    requires
        has_no(s, sep),
    ensures
        spec_split(s, sep) == seq![s],
    decreases s.len(),
{
    if s.len() == 0 {
        assert(spec_split(s, sep) =~~= seq![s]);
    } else {
        assert(has_no(s.skip(1), sep));
        lemma_split_single(s.skip(1), sep);
        let r = spec_split(s.skip(1), sep);
        assert(seq![s[0]] + r[0] =~= s);
        assert(r.skip(1) =~~= Seq::<Seq<char>>::empty());
        assert(spec_split(s, sep) =~~= seq![s]);
    }
}

/// A separator-free piece followed by the separator splits off cleanly.
pub proof fn lemma_split_prepend(l: Seq<char>, s: Seq<char>, sep: char)
    requires
        has_no(l, sep),
    ensures
        spec_split(l + seq![sep] + s, sep) == seq![l] + spec_split(s, sep),
    decreases l.len(),
{
    let t = l + seq![sep] + s;
    if l.len() == 0 {
        assert(t =~= seq![sep] + s);
        assert(t[0] == sep);
        assert(t.skip(1) =~= s);
        assert(spec_split(t, sep) =~~= seq![l] + spec_split(s, sep));
    } else {
        assert(t[0] == l[0]);
        assert(t[0] != sep);
        assert(has_no(l.skip(1), sep));
        lemma_split_prepend(l.skip(1), s, sep);
        assert(t.skip(1) =~= l.skip(1) + seq![sep] + s);
        let r = spec_split(t.skip(1), sep);
        assert(r == seq![l.skip(1)] + spec_split(s, sep));
        assert(r[0] == l.skip(1));
        assert(seq![t[0]] + r[0] =~= l);
        assert(r.skip(1) =~~= spec_split(s, sep));
        assert(spec_split(t, sep) =~~= seq![l] + spec_split(s, sep));
    }
}

/// Whether two pieces of text hold the same characters.
pub fn str_eq(a: &str, b: &str) -> (r: bool)
    ensures
        r == (a@ == b@),
{
    let sa = String::from_str(a);
    let sb = String::from_str(b);
    sa == sb
}

/// Splits `s` at every occurrence of `sep`, returning the pieces in order.
pub fn split_on(s: &str, sep: char) -> (r: Vec<String>)
    ensures
        r@.map_values(|x: String| x@) == spec_split(s@, sep),
        r@.len() >= 1,
{
    let n = s.unicode_len();
    let mut r: Vec<String> = Vec::new();
    let mut start: usize = 0;
    let mut i: usize = 0;
    proof {
        assert(s@.skip(0) =~= s@);
        assert(r@.map_values(|x: String| x@) + spec_split(s@, sep) =~= spec_split(s@, sep));
    }
    while i < n
        invariant
            0 <= start <= i <= n,
            n == s@.len(),
            spec_split(s@, sep) == r@.map_values(|x: String| x@) + spec_split(
                s@.skip(start as int),
                sep,
            ),
            has_no(s@.subrange(start as int, i as int), sep),
        decreases n - i,
    {
        if s.get_char(i) == sep {
            let ghost line = s@.subrange(start as int, i as int);
            proof {
                assert(s@.skip(start as int) =~= line + seq![sep] + s@.skip(i + 1));
                lemma_split_prepend(line, s@.skip(i + 1), sep);
            }
            let piece = String::from_str(s.substring_char(start, i));
            let ghost pre = r@.map_values(|x: String| x@);
            r.push(piece);
            proof {
                assert(r@.map_values(|x: String| x@) =~= pre + seq![line]);
                assert((pre + seq![line]) + spec_split(s@.skip(i + 1), sep) =~= pre + (seq![line]
                    + spec_split(s@.skip(i + 1), sep)));
            }
            start = i + 1;
            proof {
                assert(has_no(s@.subrange(start as int, start as int), sep));
            }
        } else {
            proof {
                assert(s@.subrange(start as int, i + 1) =~= s@.subrange(start as int, i as int)
                    + seq![s@[i as int]]);
            }
        }
        i += 1;
    }
    let ghost line = s@.subrange(start as int, n as int);
    proof {
        assert(s@.skip(start as int) =~= line);
        lemma_split_single(line, sep);
    }
    let piece = String::from_str(s.substring_char(start, n));
    let ghost pre = r@.map_values(|x: String| x@);
    r.push(piece);
    proof {
        assert(r@.map_values(|x: String| x@) =~= pre + seq![line]);
        assert(pre + seq![line] =~= spec_split(s@, sep));
    }
    r
}

} // verus!
