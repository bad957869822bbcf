//! Writing a configuration out in its on-disk text format: one TOML table
//! per watched device,
//!
//! ```text
//! [devices.<name>]
//! product = "<identity string>"
//! on_plugged = "<command>"
//! on_unplugged = "<command>"
//! ```
//!
//! The format covers names made of bare-key characters and values free of
//! quotes, backslashes and line feeds; `representable` says exactly which
//! configurations the format can carry.

use vstd::prelude::*;
use vstd::string::*;
use crate::config::{Config, WatchedDeviceView, entry_view, unique_names};

verus! {

/// Characters allowed in a device name: a TOML bare key — ASCII letters,
/// digits, `-` and `_`.
pub open spec fn is_name_char(c: char) -> bool {
    (('a' as u32) <= (c as u32) && (c as u32) <= ('z' as u32)) || (('A' as u32) <= (c as u32) && (c
        as u32) <= ('Z' as u32)) || (('0' as u32) <= (c as u32) && (c as u32) <= ('9' as u32)) || c
        == '-' || c == '_'
}

/// Characters allowed in a quoted value: anything but a double quote, a
/// backslash (no escape sequences are used) and a line feed.
pub open spec fn is_value_char(c: char) -> bool {
    c != '"' && c != '\\' && c != '\n'
}

/// A device name the format can carry: nonempty, bare-key characters only.
pub open spec fn valid_name(s: Seq<char>) -> bool {
    s.len() >= 1 && forall|k: int| 0 <= k < s.len() ==> is_name_char(s[k])
}

/// A string value the format can carry.
pub open spec fn valid_value(s: Seq<char>) -> bool {
    forall|k: int| 0 <= k < s.len() ==> is_value_char(s[k])
}

/// The entry's name and all three strings fit the format.
pub open spec fn representable_entry(e: (Seq<char>, WatchedDeviceView)) -> bool {
    &&& valid_name(e.0)
    &&& valid_value(e.1.product)
    &&& valid_value(e.1.on_plugged)
    &&& valid_value(e.1.on_unplugged)
}

/// A configuration the format can carry faithfully: every entry fits the
/// format and device names are unique.
pub open spec fn representable(entries: Seq<(Seq<char>, WatchedDeviceView)>) -> bool {
    &&& unique_names(entries)
    &&& forall|i: int| 0 <= i < entries.len() ==> representable_entry(#[trigger] entries[i])
}

/// The built-in default configuration fits the text format, so writing it
/// out on first run and parsing the file back is the identity on it.
pub proof fn lemma_default_representable(entries: Seq<(Seq<char>, WatchedDeviceView)>)
    requires
        entries.len() == 1,
        entries[0].0 == "ergodox"@,
        entries[0].1.product == "3/feed/1307/111"@,
        entries[0].1.on_plugged == "setxkbmap us"@,
        entries[0].1.on_unplugged == "setxkbmap fr oss -option ctrl:nocaps"@,
    ensures
        representable(entries),
{
    reveal_strlit("ergodox");
    reveal_strlit("3/feed/1307/111");
    reveal_strlit("setxkbmap us");
    reveal_strlit("setxkbmap fr oss -option ctrl:nocaps");
    assert(valid_name("ergodox"@));
    assert(valid_value("3/feed/1307/111"@));
    assert(valid_value("setxkbmap us"@));
    assert(valid_value("setxkbmap fr oss -option ctrl:nocaps"@));
}

/// The table-header line for a device name.
pub open spec fn header_line(name: Seq<char>) -> Seq<char> {
    "[devices."@ + name + "]"@
}

/// A key/value line: the key, ` = `, and the value in double quotes.
pub open spec fn kv_line(key: Seq<char>, value: Seq<char>) -> Seq<char> {
    key + " = \""@ + value + "\""@
}

/// The four lines of one entry, each ended by a line feed.
pub open spec fn entry_text(e: (Seq<char>, WatchedDeviceView)) -> Seq<char> {
    header_line(e.0) + "\n"@ + kv_line("product"@, e.1.product) + "\n"@ + kv_line(
        "on_plugged"@,
        e.1.on_plugged,
    ) + "\n"@ + kv_line("on_unplugged"@, e.1.on_unplugged) + "\n"@
}

/// The serialized text of a configuration: the entries' texts in order.
pub open spec fn spec_serialize(entries: Seq<(Seq<char>, WatchedDeviceView)>) -> Seq<char>
    decreases entries.len(),
{
    if entries.len() == 0 {
        Seq::empty()
    } else {
        entry_text(entries[0]) + spec_serialize(entries.skip(1))
    }
}

/// Serializing distributes over appending one entry at the end.
pub proof fn lemma_serialize_snoc(
    entries: Seq<(Seq<char>, WatchedDeviceView)>,
    e: (Seq<char>, WatchedDeviceView),
)
    ensures
        spec_serialize(entries.push(e)) == spec_serialize(entries) + entry_text(e),
    decreases entries.len(),
{
    reveal_with_fuel(spec_serialize, 3);
    if entries.len() == 0 {
        assert(entries.push(e)[0] == e);
        assert(entries.push(e).skip(1) =~= Seq::<(Seq<char>, WatchedDeviceView)>::empty());
        assert(spec_serialize(entries.push(e)) =~= spec_serialize(entries) + entry_text(e));
    } else {
        assert(entries.push(e)[0] == entries[0]);
        assert(entries.push(e).skip(1) =~= entries.skip(1).push(e));
        lemma_serialize_snoc(entries.skip(1), e);
        assert(spec_serialize(entries.push(e)) =~= spec_serialize(entries) + entry_text(e));
    }
}

impl Config {
    /// Writes the configuration in its on-disk text format. The result is
    /// exactly `spec_serialize` of the configuration; it parses back to an
    /// equal configuration whenever the configuration is `representable`.
    #[verifier::rlimit(60)]
    pub fn to_toml(&self) -> (r: String)
        ensures
            r@ == spec_serialize(self@),
    {
        let mut out = String::new();
        let n = self.config_len();
        let mut i: usize = 0;
        proof {
            assert(self@.subrange(0, 0) =~= Seq::<(Seq<char>, WatchedDeviceView)>::empty());
        }
        while i < n
            invariant
                n == self.devices.len(),
                0 <= i <= n,
                out@ == spec_serialize(self@.subrange(0, i as int)),
            decreases n - i,
        {
            let ghost pre = self@.subrange(0, i as int);
            let ghost e = self@[i as int];
            let entry = &self.devices[i];
            out.append("[devices.");
            out.append(entry.0.as_str());
            out.append("]");
            out.append("\n");
            proof {
                assert(out@ =~= spec_serialize(pre) + (header_line(e.0) + "\n"@));
            }
            let ghost mark0 = out@;
            out.append("product");
            out.append(" = \"");
            out.append(entry.1.product.as_str());
            out.append("\"");
            out.append("\n");
            proof {
                assert(out@ =~= mark0 + (kv_line("product"@, e.1.product) + "\n"@));
            }
            let ghost mark1 = out@;
            out.append("on_plugged");
            out.append(" = \"");
            out.append(entry.1.on_plugged.as_str());
            out.append("\"");
            out.append("\n");
            proof {
                assert(out@ =~= mark1 + (kv_line("on_plugged"@, e.1.on_plugged) + "\n"@));
            }
            let ghost mark2 = out@;
            out.append("on_unplugged");
            out.append(" = \"");
            out.append(entry.1.on_unplugged.as_str());
            out.append("\"");
            out.append("\n");
            proof {
                assert(out@ =~= mark2 + (kv_line("on_unplugged"@, e.1.on_unplugged) + "\n"@));
                assert(out@ =~= spec_serialize(pre) + entry_text(e));
                lemma_serialize_snoc(pre, e);
                assert(pre.push(e) =~= self@.subrange(0, i + 1));
            }
            i += 1;
        }
        proof {
            assert(self@.subrange(0, n as int) =~= self@);
        }
        out
    }

    /// The number of watched-device entries.
    pub fn config_len(&self) -> (n: usize)
        ensures
            n == self@.len(),
    {
        self.devices.len()
    }

    /// Whether the text format can carry this configuration faithfully:
    /// every device name is a nonempty bare key, every string value is free
    /// of quotes, backslashes and line feeds, and device names are unique.
    /// Exactly for such configurations, writing the configuration out and
    /// parsing the result gives it back.
    pub fn is_representable(&self) -> (r: bool)
        ensures
            r == representable(self@),
    {
        let n = self.devices.len();
        let mut i: usize = 0;
        while i < n
            invariant
                n == self.devices.len(),
                0 <= i <= n,
                forall|k: int| 0 <= k < i ==> representable_entry(#[trigger] self@[k]),
            decreases n - i,
        {
            let entry = &self.devices[i];
            proof {
                assert(self@[i as int] == entry_view(self.devices@[i as int]));
            }
            let ok = crate::parse::is_valid_name(entry.0.as_str())
                && crate::parse::is_valid_value(entry.1.product.as_str())
                && crate::parse::is_valid_value(entry.1.on_plugged.as_str())
                && crate::parse::is_valid_value(entry.1.on_unplugged.as_str());
            if !ok {
                proof {
                    assert(!representable_entry(self@[i as int]));
                    assert(!representable(self@));
                }
                return false;
            }
            i += 1;
        }
        crate::parse::check_unique(&self.devices)
    }
}

} // verus!
