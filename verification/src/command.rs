//! Command tokenization: a configured command string is split on single
//! ASCII space characters only — no quoting, no escaping, no shell. The
//! first token is the executable name, the rest are its arguments. The
//! binary spawns the process; the split itself is verified here.

use vstd::prelude::*;
use crate::text::{spec_split, split_on, lemma_split_len};

verus! {

/// The tokens of a command string: the pieces of the string between single
/// spaces, in order. An empty command gives one empty token.
pub open spec fn spec_tokenize(s: Seq<char>) -> Seq<Seq<char>> {
    spec_split(s, ' ')
}

/// Splits `command` on single spaces. The result is never empty, so the
/// executable name (the first token) always exists, though it may be the
/// empty string.
pub fn tokenize(command: &str) -> (r: Vec<String>)
    ensures
        r@.map_values(|x: String| x@) == spec_tokenize(command@),
        r@.len() >= 1,
{
    proof {
        lemma_split_len(command@, ' ');
    }
    split_on(command, ' ')
}

} // verus!
