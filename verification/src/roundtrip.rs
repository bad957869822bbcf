//! The round-trip law: serializing a configuration the text format can carry
//! and parsing the result gives the configuration back — same device names,
//! same identity strings, same command strings, in the same order.

use vstd::prelude::*;
use crate::config::{Config, WatchedDeviceView, unique_names};
use crate::parse::{
    spec_nonempty, spec_parse, spec_parse_entries, spec_parse_header, spec_parse_kv,
    lemma_nonempty_snoc,
};
use crate::ser::{
    entry_text, header_line, is_name_char, is_value_char, kv_line, representable,
    representable_entry, spec_serialize, valid_name, valid_value,
};
use crate::text::{has_no, lemma_split_prepend, lemma_split_single, spec_split};

verus! {

/// A header line parses back to the name it was written from, contains no
/// line feed, and is not empty.
proof fn lemma_header_roundtrip(name: Seq<char>)
    requires
        valid_name(name),
    ensures
        spec_parse_header(header_line(name)) == Some(name),
        has_no(header_line(name), '\n'),
        header_line(name).len() > 0,
{
    reveal_strlit("[devices.");
    reveal_strlit("]");
    let pre = "[devices."@;
    let l = header_line(name);
    assert(l.len() == pre.len() + name.len() + 1);
    assert(l.subrange(0, pre.len() as int) =~= pre);
    assert(l[l.len() - 1] == ']');
    assert(l.subrange(pre.len() as int, l.len() - 1) =~= name);
    assert(pre.len() == 9);
    assert forall|k: int| 0 <= k < l.len() implies l[k] != '\n' by {
        if k < pre.len() {
            assert(l[k] == pre[k]);
        } else if k < pre.len() + name.len() {
            assert(l[k] == name[k - pre.len()]);
            assert(is_name_char(name[k - pre.len()]));
        } else {
            assert(l[k] == ']');
        }
    }
}

/// A key line parses back to the value it was written from, contains no line
/// feed, and is not empty.
proof fn lemma_kv_roundtrip(key: Seq<char>, value: Seq<char>)
    requires
        valid_value(value),
        has_no(key, '\n'),
    ensures
        spec_parse_kv(key, kv_line(key, value)) == Some(value),
        has_no(kv_line(key, value), '\n'),
        kv_line(key, value).len() > 0,
{
    reveal_strlit(" = \"");
    reveal_strlit("\"");
    let pre = key + " = \""@;
    let l = kv_line(key, value);
    assert(l.len() == pre.len() + value.len() + 1);
    assert(l.subrange(0, pre.len() as int) =~= pre);
    assert(l[l.len() - 1] == '"');
    assert(l.subrange(pre.len() as int, l.len() - 1) =~= value);
    assert forall|k: int| 0 <= k < l.len() implies l[k] != '\n' by {
        if pre.len() <= k < pre.len() + value.len() {
            assert(is_value_char(value[k - pre.len()]));
        }
    }
}

/// The four lines an entry is written as.
pub open spec fn entry_lines(e: (Seq<char>, WatchedDeviceView)) -> Seq<Seq<char>> {
    seq![
        header_line(e.0),
        kv_line("product"@, e.1.product),
        kv_line("on_plugged"@, e.1.on_plugged),
        kv_line("on_unplugged"@, e.1.on_unplugged),
    ]
}

/// The lines a whole configuration is written as, in order.
pub open spec fn config_lines(entries: Seq<(Seq<char>, WatchedDeviceView)>) -> Seq<Seq<char>>
    decreases entries.len(),
{
    if entries.len() == 0 {
        Seq::empty()
    } else {
        entry_lines(entries[0]) + config_lines(entries.skip(1))
    }
}

/// The keys contain no line feed.
proof fn lemma_key_facts()
    ensures
        has_no("product"@, '\n'),
        has_no("on_plugged"@, '\n'),
        has_no("on_unplugged"@, '\n'),
{
    reveal_strlit("product");
    reveal_strlit("on_plugged");
    reveal_strlit("on_unplugged");
}

/// Splitting one entry's text followed by more text yields the entry's four
/// lines followed by the split of the rest.
proof fn lemma_entry_split(e: (Seq<char>, WatchedDeviceView), s: Seq<char>)
    requires
        representable_entry(e),
    ensures
        spec_split(entry_text(e) + s, '\n') == entry_lines(e) + spec_split(s, '\n'),
{
    reveal_strlit("\n");
    lemma_key_facts();
    lemma_header_roundtrip(e.0);
    lemma_kv_roundtrip("product"@, e.1.product);
    lemma_kv_roundtrip("on_plugged"@, e.1.on_plugged);
    lemma_kv_roundtrip("on_unplugged"@, e.1.on_unplugged);
    let h = header_line(e.0);
    let k1 = kv_line("product"@, e.1.product);
    let k2 = kv_line("on_plugged"@, e.1.on_plugged);
    let k3 = kv_line("on_unplugged"@, e.1.on_unplugged);
    let nl = seq!['\n'];
    assert("\n"@ =~= nl);
    let t3 = k3 + nl + s;
    let t2 = k2 + nl + t3;
    let t1 = k1 + nl + t2;
    let t0 = h + nl + t1;
    assert(entry_text(e) + s =~= t0);
    lemma_split_prepend(k3, s, '\n');
    lemma_split_prepend(k2, t3, '\n');
    lemma_split_prepend(k1, t2, '\n');
    lemma_split_prepend(h, t1, '\n');
    assert(spec_split(t0, '\n') =~~= entry_lines(e) + spec_split(s, '\n'));
}

/// Splitting a serialized configuration yields its lines followed by one
/// empty piece (the text ends with a line feed).
proof fn lemma_serialize_split(entries: Seq<(Seq<char>, WatchedDeviceView)>)
    requires
        forall|i: int| 0 <= i < entries.len() ==> representable_entry(#[trigger] entries[i]),
    ensures
        spec_split(spec_serialize(entries), '\n') == config_lines(entries) + seq![
            Seq::<char>::empty(),
        ],
    decreases entries.len(),
{
    if entries.len() == 0 {
        assert(spec_split(spec_serialize(entries), '\n') =~~= config_lines(entries) + seq![
            Seq::<char>::empty(),
        ]);
    } else {
        assert(forall|i: int|
            0 <= i < entries.skip(1).len() ==> representable_entry(#[trigger] entries.skip(1)[i]));
        lemma_serialize_split(entries.skip(1));
        lemma_entry_split(entries[0], spec_serialize(entries.skip(1)));
        assert(spec_split(spec_serialize(entries), '\n') =~~= config_lines(entries) + seq![
            Seq::<char>::empty(),
        ]);
    }
}

/// Dropping empty lines leaves a sequence of nonempty lines unchanged.
proof fn lemma_nonempty_id(ls: Seq<Seq<char>>)
    requires
        forall|k: int| 0 <= k < ls.len() ==> (#[trigger] ls[k]).len() > 0,
    ensures
        spec_nonempty(ls) == ls,
    decreases ls.len(),
{
    if ls.len() == 0 {
        assert(spec_nonempty(ls) =~~= ls);
    } else {
        lemma_nonempty_id(ls.skip(1));
        assert(spec_nonempty(ls) =~~= ls);
    }
}

/// Every line a representable configuration is written as is nonempty.
proof fn lemma_config_lines_nonempty(entries: Seq<(Seq<char>, WatchedDeviceView)>)
    requires
        forall|i: int| 0 <= i < entries.len() ==> representable_entry(#[trigger] entries[i]),
    ensures
        forall|k: int| 0 <= k < config_lines(entries).len() ==> (#[trigger] config_lines(
            entries,
        )[k]).len() > 0,
    decreases entries.len(),
{
    if entries.len() == 0 {
    } else {
        lemma_key_facts();
        lemma_header_roundtrip(entries[0].0);
        lemma_kv_roundtrip("product"@, entries[0].1.product);
        lemma_kv_roundtrip("on_plugged"@, entries[0].1.on_plugged);
        lemma_kv_roundtrip("on_unplugged"@, entries[0].1.on_unplugged);
        assert(forall|i: int|
            0 <= i < entries.skip(1).len() ==> representable_entry(#[trigger] entries.skip(1)[i]));
        lemma_config_lines_nonempty(entries.skip(1));
        assert forall|k: int|
            0 <= k < config_lines(entries).len() implies (#[trigger] config_lines(
            entries,
        )[k]).len() > 0 by {
            if k >= 4 {
                assert(config_lines(entries)[k] == config_lines(entries.skip(1))[k - 4]);
            }
        }
    }
}

/// Parsing the lines a representable configuration is written as gives its
/// entries back.
proof fn lemma_parse_config_lines(entries: Seq<(Seq<char>, WatchedDeviceView)>)
    requires
        forall|i: int| 0 <= i < entries.len() ==> representable_entry(#[trigger] entries[i]),
    ensures
        spec_parse_entries(config_lines(entries)) == Ok::<_, crate::parse::ParseError>(entries),
    decreases entries.len(),
{
    if entries.len() == 0 {
        assert(config_lines(entries) =~~= Seq::<Seq<char>>::empty());
        assert(entries =~~= Seq::<(Seq<char>, WatchedDeviceView)>::empty());
    } else {
        let e = entries[0];
        lemma_key_facts();
        lemma_header_roundtrip(e.0);
        lemma_kv_roundtrip("product"@, e.1.product);
        lemma_kv_roundtrip("on_plugged"@, e.1.on_plugged);
        lemma_kv_roundtrip("on_unplugged"@, e.1.on_unplugged);
        assert(forall|i: int|
            0 <= i < entries.skip(1).len() ==> representable_entry(#[trigger] entries.skip(1)[i]));
        lemma_parse_config_lines(entries.skip(1));
        let ls = config_lines(entries);
        assert(ls.len() == 4 + config_lines(entries.skip(1)).len());
        assert(ls[0] == header_line(e.0));
        assert(ls[1] == kv_line("product"@, e.1.product));
        assert(ls[2] == kv_line("on_plugged"@, e.1.on_plugged));
        assert(ls[3] == kv_line("on_unplugged"@, e.1.on_unplugged));
        assert(ls.skip(4) =~~= config_lines(entries.skip(1)));
        let rebuilt = (
            e.0,
            WatchedDeviceView {
                product: e.1.product,
                on_plugged: e.1.on_plugged,
                on_unplugged: e.1.on_unplugged,
            },
        );
        assert(rebuilt.1 =~= e.1);
        assert(seq![rebuilt] + entries.skip(1) =~~= entries);
        assert(spec_parse_header(ls[0]) == Some(e.0));
        assert(spec_parse_kv("product"@, ls[1]) == Some(e.1.product));
        assert(spec_parse_kv("on_plugged"@, ls[2]) == Some(e.1.on_plugged));
        assert(spec_parse_kv("on_unplugged"@, ls[3]) == Some(e.1.on_unplugged));
        assert(spec_parse_entries(ls.skip(4)) == Ok::<_, crate::parse::ParseError>(
            entries.skip(1),
        ));
        assert(spec_parse_entries(ls) == Ok::<_, crate::parse::ParseError>(
            seq![rebuilt] + entries.skip(1),
        ));
    }
}

/// Round trip: for any configuration the text format can carry, writing it
/// out and parsing the result yields exactly the same configuration — the
/// same device names, identity strings and command strings, in order.
pub proof fn lemma_round_trip(c: Config)
    requires
        representable(c@),
    ensures
        spec_parse(spec_serialize(c@)) == Ok::<_, crate::parse::ParseError>(c@),
{
    lemma_serialize_split(c@);
    lemma_config_lines_nonempty(c@);
    lemma_nonempty_snoc(config_lines(c@), Seq::<char>::empty());
    assert(config_lines(c@) + seq![Seq::<char>::empty()] =~~= config_lines(c@).push(
        Seq::<char>::empty(),
    ));
    lemma_nonempty_id(config_lines(c@));
    assert(config_lines(c@) + Seq::<Seq<char>>::empty() =~~= config_lines(c@));
    lemma_parse_config_lines(c@);
    assert(unique_names(c@));
}

} // verus!
