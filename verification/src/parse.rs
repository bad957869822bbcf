//! Parsing the configuration's on-disk text format. The text is split into
//! lines; empty lines are ignored; each entry is a table-header line
//! `[devices.<name>]` followed by the three key lines `product`,
//! `on_plugged` and `on_unplugged`, in that order, each a double-quoted
//! value. Malformed text is rejected with a `ParseError` saying what was
//! wrong; so is a device name that occurs twice.

use vstd::prelude::*;
use vstd::string::*;
use crate::config::{Config, WatchedDevice, WatchedDeviceView, entry_view, unique_names};
use crate::ser::{is_name_char, is_value_char, valid_name, valid_value};
use crate::text::{spec_split, split_on};

verus! {

/// Why a configuration text was rejected.
#[derive(Debug, Clone, Copy, PartialEq, Eq, Structural)]
pub enum ParseError {
    /// An entry is cut off: fewer than three key lines follow a header.
    Truncated,
    /// A line where a `[devices.<name>]` header was expected is not one.
    BadHeader,
    /// A line where a key line was expected does not have the form
    /// `<key> = "<value>"` with the right key.
    BadKeyValue,
    /// Two entries carry the same device name.
    DuplicateDevice,
}

/// The device name of a well-formed header line `[devices.<name>]`, if the
/// line is one.
pub open spec fn spec_parse_header(l: Seq<char>) -> Option<Seq<char>> {
    let pre = "[devices."@;
    if l.len() >= pre.len() + 2 && l.subrange(0, pre.len() as int) == pre && l[l.len() - 1] == ']'
        && valid_name(l.subrange(pre.len() as int, l.len() - 1)) {
        Some(l.subrange(pre.len() as int, l.len() - 1))
    } else {
        None
    }
}

/// The value of a well-formed key line `<key> = "<value>"`, if the line is
/// one for the given key.
pub open spec fn spec_parse_kv(key: Seq<char>, l: Seq<char>) -> Option<Seq<char>> {
    let pre = key + " = \""@;
    if l.len() >= pre.len() + 1 && l.subrange(0, pre.len() as int) == pre && l[l.len() - 1] == '"'
        && valid_value(l.subrange(pre.len() as int, l.len() - 1)) {
        Some(l.subrange(pre.len() as int, l.len() - 1))
    } else {
        None
    }
}

/// The nonempty lines, in order.
pub open spec fn spec_nonempty(ls: Seq<Seq<char>>) -> Seq<Seq<char>>
    decreases ls.len(),
{
    if ls.len() == 0 {
        Seq::empty()
    } else if ls[0].len() == 0 {
        spec_nonempty(ls.skip(1))
    } else {
        seq![ls[0]] + spec_nonempty(ls.skip(1))
    }
}

/// Keeping the nonempty lines distributes over appending one line.
pub proof fn lemma_nonempty_snoc(ls: Seq<Seq<char>>, x: Seq<char>)
    ensures
        spec_nonempty(ls.push(x)) == spec_nonempty(ls) + (if x.len() == 0 {
            Seq::<Seq<char>>::empty()
        } else {
            seq![x]
        }),
    decreases ls.len(),
{
    reveal_with_fuel(spec_nonempty, 3);
    let tail: Seq<Seq<char>> = if x.len() == 0 {
        Seq::empty()
    } else {
        seq![x]
    };
    if ls.len() == 0 {
        assert(ls.push(x)[0] == x);
        assert(ls.push(x).skip(1) =~~= Seq::<Seq<char>>::empty());
        assert(spec_nonempty(ls.push(x)) =~~= spec_nonempty(ls) + tail);
    } else {
        assert(ls.push(x)[0] == ls[0]);
        assert(ls.push(x).skip(1) =~~= ls.skip(1).push(x));
        lemma_nonempty_snoc(ls.skip(1), x);
        assert(spec_nonempty(ls.push(x)) =~~= spec_nonempty(ls) + tail);
    }
}

/// One parsed entry and all entries of the nonempty lines `ls`, or the first
/// error. Entries are groups of four lines: a header and the three key lines
/// in order.
pub open spec fn spec_parse_entries(ls: Seq<Seq<char>>) -> Result<
    Seq<(Seq<char>, WatchedDeviceView)>,
    ParseError,
>
    decreases ls.len(),
{
    if ls.len() == 0 {
        Ok(Seq::empty())
    } else if ls.len() < 4 {
        Err(ParseError::Truncated)
    } else {
        match spec_parse_header(ls[0]) {
            None => Err(ParseError::BadHeader),
            Some(name) => match spec_parse_kv("product"@, ls[1]) {
                None => Err(ParseError::BadKeyValue),
                Some(product) => match spec_parse_kv("on_plugged"@, ls[2]) {
                    None => Err(ParseError::BadKeyValue),
                    Some(on_plugged) => match spec_parse_kv("on_unplugged"@, ls[3]) {
                        None => Err(ParseError::BadKeyValue),
                        Some(on_unplugged) => match spec_parse_entries(ls.skip(4)) {
                            Err(e) => Err(e),
                            Ok(rest) => Ok(
                                seq![
                                    (
                                        name,
                                        WatchedDeviceView { product, on_plugged, on_unplugged },
                                    ),
                                ] + rest,
                            ),
                        },
                    },
                },
            },
        }
    }
}

/// Prepends already-parsed entries to a parse result.
pub open spec fn with_prefix(
    pre: Seq<(Seq<char>, WatchedDeviceView)>,
    r: Result<Seq<(Seq<char>, WatchedDeviceView)>, ParseError>,
) -> Result<Seq<(Seq<char>, WatchedDeviceView)>, ParseError> {
    match r {
        Ok(es) => Ok(pre + es),
        Err(e) => Err(e),
    }
}

/// What parsing a whole configuration text yields: the entries of its
/// nonempty lines if they are well formed and the device names are unique,
/// else the first error.
pub open spec fn spec_parse(s: Seq<char>) -> Result<
    Seq<(Seq<char>, WatchedDeviceView)>,
    ParseError,
> {
    match spec_parse_entries(spec_nonempty(spec_split(s, '\n'))) {
        Err(e) => Err(e),
        Ok(es) => if unique_names(es) {
            Ok(es)
        } else {
            Err(ParseError::DuplicateDevice)
        },
    }
}

/// Whether `c` may stand in a device name.
pub fn name_char(c: char) -> (r: bool)
    ensures
        r == is_name_char(c),
{
    let u = c as u32;
    (('a' as u32) <= u && u <= ('z' as u32)) || (('A' as u32) <= u && u <= ('Z' as u32)) || (('0'
        as u32) <= u && u <= ('9' as u32)) || c == '-' || c == '_'
}

/// Whether every character of `s` may stand in a device name, and `s` is
/// nonempty.
pub fn is_valid_name(s: &str) -> (r: bool)
    ensures
        r == valid_name(s@),
{
    let n = s.unicode_len();
    if n == 0 {
        return false;
    }
    let mut i: usize = 0;
    while i < n
        invariant
            n == s@.len(),
            0 <= i <= n,
            forall|k: int| 0 <= k < i ==> is_name_char(s@[k]),
        decreases n - i,
    {
        if !name_char(s.get_char(i)) {
            return false;
        }
        i += 1;
    }
    true
}

/// Whether every character of `s` may stand in a quoted value.
pub fn is_valid_value(s: &str) -> (r: bool)
    ensures
        r == valid_value(s@),
{
    let n = s.unicode_len();
    let mut i: usize = 0;
    while i < n
        invariant
            n == s@.len(),
            0 <= i <= n,
            forall|k: int| 0 <= k < i ==> is_value_char(s@[k]),
        decreases n - i,
    {
        let c = s.get_char(i);
        if c == '"' || c == '\\' || c == '\n' {
            return false;
        }
        i += 1;
    }
    true
}

/// Parses a header line, returning the device name it carries.
pub fn parse_header(l: &str) -> (r: Option<String>)
    ensures
        match r {
            Some(name) => spec_parse_header(l@) == Some(name@),
            None => spec_parse_header(l@) is None,
        },
{
    let pre = "[devices.";
    let plen = pre.unicode_len();
    let n = l.unicode_len();
    if n < 2 || n - 2 < plen {
        return None;
    }
    let front = l.substring_char(0, plen);
    if !crate::text::str_eq(front, pre) {
        return None;
    }
    if l.get_char(n - 1) != ']' {
        return None;
    }
    let mid = l.substring_char(plen, n - 1);
    if !is_valid_name(mid) {
        return None;
    }
    Some(String::from_str(mid))
}

/// Parses a key line for the given key, returning the quoted value.
pub fn parse_kv(key: &str, l: &str) -> (r: Option<String>)
    ensures
        match r {
            Some(value) => spec_parse_kv(key@, l@) == Some(value@),
            None => spec_parse_kv(key@, l@) is None,
        },
{
    let mut pre = String::from_str(key);
    pre.append(" = \"");
    let plen = pre.as_str().unicode_len();
    let n = l.unicode_len();
    if n < 1 || n - 1 < plen {
        return None;
    }
    let front = l.substring_char(0, plen);
    if !crate::text::str_eq(front, pre.as_str()) {
        return None;
    }
    if l.get_char(n - 1) != '"' {
        return None;
    }
    let mid = l.substring_char(plen, n - 1);
    if !is_valid_value(mid) {
        return None;
    }
    Some(String::from_str(mid))
}

/// Keeps the nonempty lines, in order.
fn filter_nonempty(lines: Vec<String>) -> (r: Vec<String>)
    ensures
        r@.map_values(|x: String| x@) == spec_nonempty(lines@.map_values(|x: String| x@)),
{
    let ghost lv = lines@.map_values(|x: String| x@);
    let mut r: Vec<String> = Vec::new();
    let n = lines.len();
    let mut i: usize = 0;
    proof {
        assert(lv.subrange(0, 0) =~~= Seq::<Seq<char>>::empty());
        assert(r@.map_values(|x: String| x@) =~~= spec_nonempty(lv.subrange(0, 0)));
    }
    while i < n
        invariant
            n == lines.len(),
            0 <= i <= n,
            lv == lines@.map_values(|x: String| x@),
            r@.map_values(|x: String| x@) == spec_nonempty(lv.subrange(0, i as int)),
        decreases n - i,
    {
        let ghost pre = r@.map_values(|x: String| x@);
        proof {
            lemma_nonempty_snoc(lv.subrange(0, i as int), lv[i as int]);
            assert(lv.subrange(0, i as int).push(lv[i as int]) =~~= lv.subrange(0, i + 1));
        }
        if !lines[i].as_str().is_empty() {
            r.push(lines[i].clone());
            proof {
                assert(r@.map_values(|x: String| x@) =~~= pre + seq![lv[i as int]]);
            }
        }
        i += 1;
    }
    proof {
        assert(lv.subrange(0, n as int) =~~= lv);
    }
    r
}

/// Parses the nonempty lines into watched-device entries.
fn parse_entries(lines: &Vec<String>) -> (r: Result<Vec<(String, WatchedDevice)>, ParseError>)
    ensures
        match r {
            Ok(v) => spec_parse_entries(lines@.map_values(|x: String| x@)) == Ok::<
                _,
                ParseError,
            >(v@.map_values(|e: (String, WatchedDevice)| entry_view(e))),
            Err(e) => spec_parse_entries(lines@.map_values(|x: String| x@)) == Err::<
                Seq<(Seq<char>, WatchedDeviceView)>,
                _,
            >(e),
        },
{
    let ghost lv = lines@.map_values(|x: String| x@);
    let mut acc: Vec<(String, WatchedDevice)> = Vec::new();
    let m = lines.len();
    let mut i: usize = 0;
    proof {
        assert(lv.skip(0) =~~= lv);
        assert(acc@.map_values(|e: (String, WatchedDevice)| entry_view(e)) =~~= Seq::<
            (Seq<char>, WatchedDeviceView),
        >::empty());
    }
    while i < m
        invariant
            m == lines.len(),
            0 <= i <= m,
            lv == lines@.map_values(|x: String| x@),
            spec_parse_entries(lv) == with_prefix(
                acc@.map_values(|e: (String, WatchedDevice)| entry_view(e)),
                spec_parse_entries(lv.skip(i as int)),
            ),
        decreases m - i,
    {
        let ghost rest = lv.skip(i as int);
        let ghost pre = acc@.map_values(|e: (String, WatchedDevice)| entry_view(e));
        if m - i < 4 {
            return Err(ParseError::Truncated);
        }
        proof {
            assert(rest[0] == lv[i as int]);
            assert(rest[1] == lv[i + 1]);
            assert(rest[2] == lv[i + 2]);
            assert(rest[3] == lv[i + 3]);
        }
        let name = match parse_header(lines[i].as_str()) {
            None => {
                return Err(ParseError::BadHeader);
            },
            Some(nm) => nm,
        };
        let product = match parse_kv("product", lines[i + 1].as_str()) {
            None => {
                return Err(ParseError::BadKeyValue);
            },
            Some(v) => v,
        };
        let on_plugged = match parse_kv("on_plugged", lines[i + 2].as_str()) {
            None => {
                return Err(ParseError::BadKeyValue);
            },
            Some(v) => v,
        };
        let on_unplugged = match parse_kv("on_unplugged", lines[i + 3].as_str()) {
            None => {
                return Err(ParseError::BadKeyValue);
            },
            Some(v) => v,
        };
        let ghost ev = (name@, WatchedDeviceView { product: product@, on_plugged: on_plugged@, on_unplugged: on_unplugged@ });
        acc.push((name, WatchedDevice { product, on_plugged, on_unplugged }));
        proof {
            assert(acc@.map_values(|e: (String, WatchedDevice)| entry_view(e)) =~~= pre
                + seq![ev]);
            assert(rest.skip(4) =~~= lv.skip(i + 4));
            let t = spec_parse_entries(lv.skip(i + 4));
            if t is Ok {
                assert(spec_parse_entries(rest) == Ok::<_, ParseError>(seq![ev] + t->Ok_0));
                assert(pre + (seq![ev] + t->Ok_0) =~~= (pre + seq![ev]) + t->Ok_0);
            }
        }
        i += 4;
    }
    proof {
        assert(lv.skip(m as int) =~~= Seq::<Seq<char>>::empty());
        let fin = acc@.map_values(|e: (String, WatchedDevice)| entry_view(e));
        assert(fin + Seq::<(Seq<char>, WatchedDeviceView)>::empty() =~~= fin);
    }
    Ok(acc)
}

/// Whether the entries' device names are pairwise distinct.
pub(crate) fn check_unique(devices: &Vec<(String, WatchedDevice)>) -> (r: bool)
    ensures
        r == unique_names(devices@.map_values(|e: (String, WatchedDevice)| entry_view(e))),
{
    let ghost dv = devices@.map_values(|e: (String, WatchedDevice)| entry_view(e));
    let n = devices.len();
    let mut j: usize = 1;
    while j < n
        invariant
            n == devices.len(),
            1 <= j <= n || n == 0,
            dv == devices@.map_values(|e: (String, WatchedDevice)| entry_view(e)),
            forall|a: int, b: int| 0 <= a < b < j && b < n ==> dv[a].0 != dv[b].0,
        decreases n - j,
    {
        let mut a: usize = 0;
        while a < j
            invariant
                n == devices.len(),
                0 <= a <= j < n,
                dv == devices@.map_values(|e: (String, WatchedDevice)| entry_view(e)),
                forall|k: int| 0 <= k < a ==> dv[k].0 != dv[j as int].0,
            decreases j - a,
        {
            if devices[a].0 == devices[j].0 {
                assert(dv[a as int].0 == dv[j as int].0);
                assert(!unique_names(dv));
                return false;
            }
            a += 1;
        }
        j += 1;
    }
    true
}

impl Config {
    /// Parses configuration text. Returns the configuration the text
    /// describes — exactly when the text is well formed with unique device
    /// names — or the first error met; the relation to the text is
    /// `spec_parse` in both directions.
    pub fn parse(s: &str) -> (r: Result<Config, ParseError>)
        ensures
            match r {
                Ok(c) => spec_parse(s@) == Ok::<_, ParseError>(c@) && c.wf(),
                Err(e) => spec_parse(s@) == Err::<Seq<(Seq<char>, WatchedDeviceView)>, _>(e),
            },
    {
        let raw = split_on(s, '\n');
        let lines = filter_nonempty(raw);
        match parse_entries(&lines) {
            Err(e) => Err(e),
            Ok(devices) => {
                if check_unique(&devices) {
                    Ok(Config { devices })
                } else {
                    Err(ParseError::DuplicateDevice)
                }
            },
        }
    }
}

} // verus!
