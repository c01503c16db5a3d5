//! The serialization laws: what parsing the saved form of a document gives
//! back.  The central theorem is the round trip — reloading a saved document
//! reproduces every enabled entry, as a key-to-value mapping — together with
//! the facts it rests on: how each emitted line classifies, how the emitted
//! text parses, and what the probe finds in it.
use vstd::prelude::*;

use crate::config::{
    catalog_entry, custom_entry, custom_keys, default_entries, default_entry, enabled_of,
    group_lines, group_of, groups_text, parsed_entries, rank_label, rank_of, spec_parse,
    spec_serialize, EntryModel,
};
use crate::config::{add_candidate, collect_names, collect_pairs, has_key, key_index};
use crate::ini::{
    classify, parse_ini, parse_lines_from, pairs_lookup, probe, probe_from, probe_names,
    sec_pairs, section_lookup, top_section, LineKind, SecModel,
};
use crate::schema::{catalog, catalog_has_key};
use crate::schema::{
    core_catalog, debugging_catalog, mining_catalog, network_catalog, relay_catalog,
    rpc_catalog, wallet_catalog, zmq_catalog,
};
use crate::text::{is_space, split_lines, trim, trim_end, trim_start};

verus! {

/// A key that survives the trip through the file format: non-empty, free of
/// newlines and `=`, not opening a comment or a section header, and with no
/// surrounding whitespace for trimming to take.
pub open spec fn key_text_ok(k: Seq<char>) -> bool {
    &&& k.len() > 0
    &&& forall|i: int| 0 <= i < k.len() ==> k[i] != '\n' && k[i] != '='
    &&& k[0] != '#'
    &&& k[0] != '['
    &&& !is_space(k[0])
    &&& !is_space(k[k.len() - 1])
}

/// A value that survives the trip: free of newlines, with no surrounding
/// whitespace.
pub open spec fn value_text_ok(v: Seq<char>) -> bool {
    &&& forall|i: int| 0 <= i < v.len() ==> v[i] != '\n'
    &&& v.len() > 0 ==> !is_space(v[0]) && !is_space(v[v.len() - 1])
}

/// Every enabled entry of the document has a key and a value that survive
/// the trip through the file format.
pub open spec fn entries_text_ok(s: Seq<EntryModel>) -> bool {
    forall|i: int|
        0 <= i < s.len() && s[i].enabled ==> key_text_ok(#[trigger] s[i].key) && value_text_ok(
            s[i].value,
        )
}

/// No two enabled entries share a key.
pub open spec fn enabled_unique(s: Seq<EntryModel>) -> bool {
    forall|i: int, j: int|
        0 <= i < j < s.len() && s[i].enabled && s[j].enabled ==> #[trigger] s[i].key
            != #[trigger] s[j].key
}

/// Trimming does not change a sequence without surrounding whitespace.
proof fn lemma_trim_id(s: Seq<char>)
    requires
        s.len() == 0 || (!is_space(s[0]) && !is_space(s[s.len() - 1])),
    ensures
        trim(s) == s,
{
    assert(trim_start(s) == s);
    assert(trim_end(s) == s);
}

/// An emitted `key=value` line classifies as exactly that pair.
proof fn lemma_classify_pair(k: Seq<char>, v: Seq<char>)
    requires
        key_text_ok(k),
        value_text_ok(v),
    ensures
        classify(k + seq!['='] + v) == LineKind::Pair(k, v),
{
    let l = k + seq!['='] + v;
    if v.len() > 0 {
        assert(l[l.len() - 1] == v[v.len() - 1]);
    } else {
        assert(l[l.len() - 1] == '=');
    }
    assert(l[0] == k[0]);
    lemma_trim_id(l);
    let t = trim(l);
    assert(t == l);
    assert(forall|j: int| 0 <= j < k.len() ==> t[j] == k[j] && t[j] != '=');
    assert(t[k.len() as int] == '=');
    crate::text::lemma_char_index_is(t, '=', k.len() as int);
    assert(t.subrange(0, k.len() as int) =~= k);
    lemma_trim_id(k);
    assert(t.subrange(k.len() as int + 1, t.len() as int) =~= v);
    lemma_trim_id(v);
}

/// The body of the heading written above the group of rank `r`: the heading
/// without its final newline.
pub open spec fn label_body(r: int) -> Seq<char> {
    rank_label(r).drop_last()
}

/// Each group heading is one newline-terminated comment line.
proof fn lemma_label(r: int)
    ensures
        rank_label(r) == label_body(r) + seq!['\n'],
        forall|j: int| 0 <= j < label_body(r).len() ==> label_body(r)[j] != '\n',
        classify(label_body(r)) == LineKind::Comment,
{
    reveal_strlit("# Core\n");
    reveal_strlit("# Network\n");
    reveal_strlit("# RPC\n");
    reveal_strlit("# Wallet\n");
    reveal_strlit("# Debugging\n");
    reveal_strlit("# Mining\n");
    reveal_strlit("# Relay\n");
    reveal_strlit("# Custom\n");
    let b = label_body(r);
    assert(rank_label(r) =~= b + seq!['\n']);
    lemma_trim_id(b);
    assert(trim(b)[0] == '#');
}

/// The `key=value` pairs a group of entries serializes to.
pub open spec fn kv_of(g: Seq<EntryModel>) -> Seq<(Seq<char>, Seq<char>)> {
    g.map_values(|e: EntryModel| (e.key, e.value))
}

/// The pairs of the groups of rank `r` on, in emission order.
pub open spec fn kvs_from(entries: Seq<EntryModel>, r: int) -> Seq<(Seq<char>, Seq<char>)>
    decreases 9 - r,
{
    if r < 0 || r >= 9 {
        Seq::empty()
    } else {
        kv_of(group_of(entries, r)) + kvs_from(entries, r + 1)
    }
}

/// Every `key=value` pair the saved form of the document carries.
pub open spec fn all_kvs(entries: Seq<EntryModel>) -> Seq<(Seq<char>, Seq<char>)> {
    kvs_from(entries, 0)
}

/// Interpreting the lines of `t`, starting from the sections already built.
pub open spec fn parse_text(doc: Seq<SecModel>, t: Seq<char>) -> Option<Seq<SecModel>> {
    parse_lines_from(doc, split_lines(t))
}

/// The sections with the pairs `kvs` appended to the most recent section.
pub open spec fn extend_last(doc: Seq<SecModel>, kvs: Seq<(Seq<char>, Seq<char>)>) -> Seq<
    SecModel,
> {
    doc.update(
        doc.len() - 1,
        SecModel { name: doc.last().name, pairs: doc.last().pairs + kvs },
    )
}

/// An element of a filtered sequence comes from the source sequence.
proof fn lemma_filter_members<A>(s: Seq<A>, pred: spec_fn(A) -> bool, j: int)
    requires
        0 <= j < s.filter(pred).len(),
    ensures
        exists|i: int| 0 <= i < s.len() && s[i] == s.filter(pred)[j],
    decreases s.len(),
{
    reveal(Seq::filter);
    if s.len() > 0 {
        if pred(s.last()) && j == s.filter(pred).len() - 1 {
            assert(s[s.len() - 1] == s.filter(pred)[j]);
        } else {
            lemma_filter_members(s.drop_last(), pred, j);
            let i = choose|i: int|
                0 <= i < s.drop_last().len() && s.drop_last()[i] == s.drop_last().filter(pred)[j];
            assert(s[i] == s.filter(pred)[j]);
        }
    }
}

/// Consuming the emitted lines of a group appends its pairs to the most
/// recent section.
proof fn lemma_parse_group_lines(doc: Seq<SecModel>, g: Seq<EntryModel>, rest: Seq<char>)
    requires
        doc.len() > 0,
        forall|i: int|
            0 <= i < g.len() ==> key_text_ok(#[trigger] g[i].key) && value_text_ok(g[i].value),
    ensures
        parse_text(doc, group_lines(g) + rest) == parse_text(extend_last(doc, kv_of(g)), rest),
    decreases g.len(),
{
    if g.len() == 0 {
        assert(group_lines(g) + rest =~= rest);
        assert(extend_last(doc, kv_of(g)) =~~= doc);
    } else {
        let e = g[0];
        let body = e.key + seq!['='] + e.value;
        let tail = group_lines(g.drop_first()) + rest;
        assert(group_lines(g) + rest =~= body + seq!['\n'] + tail);
        assert(forall|j: int| 0 <= j < body.len() ==> body[j] != '\n');
        crate::text::lemma_split_lines_prepend(body, tail);
        lemma_classify_pair(e.key, e.value);
        let doc1 = doc.update(
            doc.len() - 1,
            SecModel { name: doc.last().name, pairs: doc.last().pairs.push((e.key, e.value)) },
        );
        assert(split_lines(body + seq!['\n'] + tail) == seq![body] + split_lines(tail));
        assert((seq![body] + split_lines(tail))[0] == body);
        assert((seq![body] + split_lines(tail)).drop_first() =~= split_lines(tail));
        assert(parse_text(doc, group_lines(g) + rest) == parse_lines_from(
            doc1,
            split_lines(tail),
        ));
        lemma_parse_group_lines(doc1, g.drop_first(), rest);
        assert(extend_last(doc1, kv_of(g.drop_first())) =~~= extend_last(doc, kv_of(g)));
    }
}

/// Consuming the emitted text of the groups of rank `r` on appends all
/// their pairs to the most recent section.
proof fn lemma_parse_groups(entries: Seq<EntryModel>, doc: Seq<SecModel>, r: int, any: bool)
    requires
        doc.len() > 0,
        entries_text_ok(entries),
    ensures
        parse_text(doc, groups_text(entries, r, any)) == Some(
            extend_last(doc, kvs_from(entries, r)),
        ),
    decreases 9 - r,
{
    if r < 0 || r >= 9 {
        assert(split_lines(Seq::<char>::empty()) =~= Seq::<Seq<char>>::empty());
        assert(extend_last(doc, kvs_from(entries, r)) =~~= doc);
    } else {
        let g = group_of(entries, r);
        assert forall|i: int| 0 <= i < g.len() implies key_text_ok(#[trigger] g[i].key)
            && value_text_ok(g[i].value) by {
            let pred = |e: EntryModel| e.enabled && rank_of(e) == r;
            entries.lemma_filter_pred(pred, i);
            lemma_filter_members(entries, pred, i);
        }
        if g.len() == 0 {
            lemma_parse_groups(entries, doc, r + 1, any);
            assert(kvs_from(entries, r) =~= kv_of(g) + kvs_from(entries, r + 1));
            assert(kv_of(g) =~= Seq::<(Seq<char>, Seq<char>)>::empty());
            assert(kvs_from(entries, r) =~= kvs_from(entries, r + 1));
        } else {
            let sep: Seq<char> = if any {
                seq!['\n']
            } else {
                Seq::empty()
            };
            let rest1 = rank_label(r) + group_lines(g) + groups_text(entries, r + 1, true);
            assert(groups_text(entries, r, any) =~= sep + rest1);
            lemma_label(r);
            let rest2 = group_lines(g) + groups_text(entries, r + 1, true);
            assert(rest1 =~= label_body(r) + seq!['\n'] + rest2);
            crate::text::lemma_split_lines_prepend(label_body(r), rest2);
            let doc0 = doc;
            // the optional blank separator line is skipped
            if any {
                assert(sep + rest1 =~= Seq::<char>::empty() + seq!['\n'] + rest1);
                crate::text::lemma_split_lines_prepend(Seq::empty(), rest1);
                assert(classify(Seq::<char>::empty()) == LineKind::Blank);
                assert(split_lines(sep + rest1) == seq![Seq::<char>::empty()] + split_lines(
                    rest1,
                ));
                assert((seq![Seq::<char>::empty()] + split_lines(rest1))[0]
                    == Seq::<char>::empty());
                assert((seq![Seq::<char>::empty()] + split_lines(rest1)).drop_first()
                    =~= split_lines(rest1));
                assert(parse_text(doc, groups_text(entries, r, any)) == parse_lines_from(
                    doc,
                    split_lines(rest1),
                ));
            } else {
                assert(sep + rest1 =~= rest1);
            }
            // the heading comment line is skipped
            assert((seq![label_body(r)] + split_lines(rest2))[0] == label_body(r));
            assert((seq![label_body(r)] + split_lines(rest2)).drop_first() =~= split_lines(
                rest2,
            ));
            assert(parse_lines_from(doc, split_lines(rest1)) == parse_lines_from(
                doc,
                split_lines(rest2),
            ));
            // the group's pair lines extend the most recent section
            lemma_parse_group_lines(doc, g, groups_text(entries, r + 1, true));
            let doc1 = extend_last(doc, kv_of(g));
            assert(doc1.len() > 0);
            lemma_parse_groups(entries, doc1, r + 1, true);
            assert(extend_last(doc1, kvs_from(entries, r + 1)) =~~= extend_last(
                doc,
                kvs_from(entries, r),
            ));
        }
    }
}

/// The single unnamed section every saved document parses to.
pub open spec fn serialized_section(entries: Seq<EntryModel>) -> SecModel {
    SecModel { name: Seq::empty(), pairs: all_kvs(entries) }
}

/// The saved form of a document parses to one unnamed top-level section
/// holding every emitted pair.
pub proof fn lemma_parse_serialized(entries: Seq<EntryModel>)
    requires
        entries_text_ok(entries),
    ensures
        parse_ini(spec_serialize(entries)) == Some(seq![serialized_section(entries)]),
{
    lemma_parse_groups(entries, seq![top_section()], 0, false);
    assert(extend_last(seq![top_section()], all_kvs(entries)) =~~= seq![
        serialized_section(entries),
    ]);
}


/// What a pair lookup says about membership: a found value is a pair of the
/// list, and a miss means no pair carries the key.
proof fn lemma_pairs_lookup_member(ps: Seq<(Seq<char>, Seq<char>)>, k: Seq<char>)
    ensures
        match pairs_lookup(ps, k) {
            Some(v) => exists|j: int| 0 <= j < ps.len() && ps[j] == (k, v),
            None => forall|j: int| 0 <= j < ps.len() ==> (#[trigger] ps[j]).0 != k,
        },
    decreases ps.len(),
{
    if ps.len() > 0 {
        if ps.last().0 == k {
            assert(ps[ps.len() - 1] == (k, ps.last().1));
        } else {
            lemma_pairs_lookup_member(ps.drop_last(), k);
            match pairs_lookup(ps.drop_last(), k) {
                Some(v) => {
                    let j = choose|j: int|
                        0 <= j < ps.drop_last().len() && ps.drop_last()[j] == (k, v);
                    assert(ps[j] == (k, v));
                },
                None => {
                    assert(forall|j: int|
                        0 <= j < ps.len() - 1 ==> ps[j] == ps.drop_last()[j]);
                },
            }
        }
    }
}

/// A pair list in which every pair with key `k` is `(k, v)`, and which holds
/// one, looks `k` up to `v`.
proof fn lemma_pairs_lookup_unique(ps: Seq<(Seq<char>, Seq<char>)>, k: Seq<char>, v: Seq<char>)
    requires
        exists|j: int| 0 <= j < ps.len() && (#[trigger] ps[j]).0 == k,
        forall|j: int| 0 <= j < ps.len() && (#[trigger] ps[j]).0 == k ==> ps[j] == (k, v),
    ensures
        pairs_lookup(ps, k) == Some(v),
    decreases ps.len(),
{
    if ps.len() > 0 {
        if ps.last().0 == k {
            assert(ps[ps.len() - 1] == (k, v));
        } else {
            let j = choose|j: int| 0 <= j < ps.len() && (#[trigger] ps[j]).0 == k;
            assert(ps.drop_last()[j] == ps[j]);
            assert(forall|i: int|
                0 <= i < ps.drop_last().len() ==> ps.drop_last()[i] == ps[i]);
            lemma_pairs_lookup_unique(ps.drop_last(), k, v);
        }
    }
}

/// Every emitted pair comes from an enabled entry.
proof fn lemma_kvs_member(entries: Seq<EntryModel>, r: int, p: (Seq<char>, Seq<char>))
    requires
        kvs_from(entries, r).contains(p),
    ensures
        exists|i: int|
            0 <= i < entries.len() && (#[trigger] entries[i]).enabled && p == (
                entries[i].key,
                entries[i].value,
            ),
    decreases 9 - r,
{
    if 0 <= r < 9 {
        let g = group_of(entries, r);
        let a = kv_of(g);
        let b = kvs_from(entries, r + 1);
        let j = choose|j: int| 0 <= j < (a + b).len() && (a + b)[j] == p;
        if j < a.len() {
            assert(a[j] == p);
            assert(g[j].enabled && p == (g[j].key, g[j].value));
            lemma_filter_members(entries, |e: EntryModel| e.enabled && rank_of(e) == r, j);
            let i = choose|i: int| 0 <= i < entries.len() && entries[i] == g[j];
            assert(entries[i].enabled && p == (entries[i].key, entries[i].value));
        } else {
            assert((a + b)[j] == b[j - a.len()]);
            assert(b.contains(p));
            lemma_kvs_member(entries, r + 1, p);
        }
    }
}

/// Every enabled entry's pair is emitted.
proof fn lemma_kvs_complete(entries: Seq<EntryModel>, i: int, r: int)
    requires
        0 <= i < entries.len(),
        entries[i].enabled,
        0 <= r <= rank_of(entries[i]),
    ensures
        kvs_from(entries, r).contains((entries[i].key, entries[i].value)),
    decreases 9 - r,
{
    let e = entries[i];
    assert(0 <= rank_of(e) <= 8);
    let g = group_of(entries, r);
    let a = kv_of(g);
    let b = kvs_from(entries, r + 1);
    if r == rank_of(e) {
        let pred = |x: EntryModel| x.enabled && rank_of(x) == r;
        entries.lemma_filter_contains(pred, i);
        let j = choose|j: int| 0 <= j < g.len() && g[j] == e;
        assert(a[j] == (e.key, e.value));
        assert((a + b)[j] == a[j]);
        assert(kvs_from(entries, r).contains((e.key, e.value)));
    } else {
        lemma_kvs_complete(entries, i, r + 1);
        let j = choose|j: int| 0 <= j < b.len() && b[j] == (e.key, e.value);
        assert((a + b)[a.len() + j] == b[j]);
        assert(kvs_from(entries, r).contains((e.key, e.value)));
    }
}

/// In the parsed saved form, the probe for any key is exactly a lookup
/// among the emitted pairs.
proof fn lemma_probe_main(entries: Seq<EntryModel>, k: Seq<char>)
    ensures
        probe(seq![serialized_section(entries)], k) == pairs_lookup(all_kvs(entries), k),
{
    reveal_strlit("main");
    reveal_strlit("test");
    reveal_strlit("signet");
    reveal_strlit("regtest");
    let doc = seq![serialized_section(entries)];
    let a = serialized_section(entries);
    assert forall|n: Seq<char>|
        #![trigger sec_pairs(doc, n)]
        true implies sec_pairs(doc, n) == (if a.name == n {
        a.pairs
    } else {
        Seq::<(Seq<char>, Seq<char>)>::empty()
    }) by {
        crate::ini::lemma_sec_pairs_single(a, n);
    }
    // only the unnamed top-level section exists, and it holds every pair
    assert(sec_pairs(doc, probe_names()[0]) == all_kvs(entries));
    assert(section_lookup(doc, probe_names()[0], k) == pairs_lookup(all_kvs(entries), k));
    assert("main"@.len() == 4 && "test"@.len() == 4 && "signet"@.len() == 6 && "regtest"@.len()
        == 7);
    assert(sec_pairs(doc, "main"@) =~= Seq::<(Seq<char>, Seq<char>)>::empty());
    assert(sec_pairs(doc, "test"@) =~= Seq::<(Seq<char>, Seq<char>)>::empty());
    assert(sec_pairs(doc, "signet"@) =~= Seq::<(Seq<char>, Seq<char>)>::empty());
    assert(sec_pairs(doc, "regtest"@) =~= Seq::<(Seq<char>, Seq<char>)>::empty());
    assert(section_lookup(doc, probe_names()[1], k) is None);
    assert(section_lookup(doc, probe_names()[2], k) is None);
    assert(section_lookup(doc, probe_names()[3], k) is None);
    assert(section_lookup(doc, probe_names()[4], k) is None);
    if pairs_lookup(all_kvs(entries), k) is None {
        assert(probe_from(doc, k, 5) is None);
        assert(probe_from(doc, k, 4) is None);
        assert(probe_from(doc, k, 3) is None);
        assert(probe_from(doc, k, 2) is None);
        assert(probe_from(doc, k, 1) is None);
        assert(probe_from(doc, k, 0) is None);
    } else {
        assert(probe_from(doc, k, 0) == pairs_lookup(all_kvs(entries), k));
    }
}

/// A document has an enabled entry with key `k` exactly when the filtered
/// enabled sequence has one; the entry at its first position comes from the
/// document.
proof fn lemma_has_enabled(s: Seq<EntryModel>, k: Seq<char>)
    ensures
        has_key(enabled_of(s), k) <==> exists|i: int|
            0 <= i < s.len() && (#[trigger] s[i]).enabled && s[i].key == k,
        has_key(enabled_of(s), k) ==> {
            let e = enabled_of(s)[key_index(enabled_of(s), k)];
            &&& e.enabled
            &&& e.key == k
            &&& exists|i: int| 0 <= i < s.len() && s[i] == e
        },
{
    let en = enabled_of(s);
    let pred = |e: EntryModel| e.enabled;
    crate::config::lemma_key_index(en, k);
    if has_key(en, k) {
        let ki = key_index(en, k);
        let e = en[ki];
        s.lemma_filter_pred(pred, ki);
        lemma_filter_members(s, pred, ki);
        let i = choose|i: int| 0 <= i < s.len() && s[i] == e;
        assert(s[i].enabled && s[i].key == k);
    }
    if exists|i: int| 0 <= i < s.len() && (#[trigger] s[i]).enabled && s[i].key == k {
        let i = choose|i: int| 0 <= i < s.len() && (#[trigger] s[i]).enabled && s[i].key == k;
        s.lemma_filter_contains(pred, i);
        let j = choose|j: int| 0 <= j < en.len() && en[j] == s[i];
        assert(en[j].key == k);
        assert(has_key(en, k));
    }
}

/// With enabled keys unique, the lookup among the emitted pairs finds
/// exactly the value of the document's one enabled entry with that key.
proof fn lemma_lookup_enabled(entries: Seq<EntryModel>, k: Seq<char>)
    requires
        enabled_unique(entries),
    ensures
        pairs_lookup(all_kvs(entries), k) == (if has_key(enabled_of(entries), k) {
            Some(enabled_of(entries)[key_index(enabled_of(entries), k)].value)
        } else {
            None
        }),
{
    let en = enabled_of(entries);
    let ps = all_kvs(entries);
    lemma_has_enabled(entries, k);
    lemma_pairs_lookup_member(ps, k);
    if has_key(en, k) {
        let e = en[key_index(en, k)];
        let i = choose|i: int| 0 <= i < entries.len() && entries[i] == e;
        lemma_kvs_complete(entries, i, 0);
        assert forall|j: int| 0 <= j < ps.len() && (#[trigger] ps[j]).0 == k implies ps[j] == (
            k,
            e.value,
        ) by {
            assert(ps.contains(ps[j]));
            lemma_kvs_member(entries, 0, ps[j]);
            let i2 = choose|i2: int|
                0 <= i2 < entries.len() && (#[trigger] entries[i2]).enabled && ps[j] == (
                    entries[i2].key,
                    entries[i2].value,
                );
            if i2 != i {
                assert(entries[i2].key != entries[i].key);
            }
        }
        assert(ps.contains((e.key, e.value)));
        let w = choose|w: int| 0 <= w < ps.len() && ps[w] == (e.key, e.value);
        assert(ps[w].0 == k);
        lemma_pairs_lookup_unique(ps, k, e.value);
    } else {
        match pairs_lookup(ps, k) {
            Some(v) => {
                let j = choose|j: int| 0 <= j < ps.len() && ps[j] == (k, v);
                assert(ps.contains(ps[j]));
                lemma_kvs_member(entries, 0, ps[j]);
                let i = choose|i: int|
                    0 <= i < entries.len() && (#[trigger] entries[i]).enabled && ps[j] == (
                        entries[i].key,
                        entries[i].value,
                    );
                assert(entries[i].key == k);
                assert(false);
            },
            None => {},
        }
    }
}



/// Collected keys are kept when more pairs are folded in.
proof fn lemma_collect_pairs_super(
    acc: Seq<Seq<char>>,
    ps: Seq<(Seq<char>, Seq<char>)>,
    x: Seq<char>,
)
    requires
        acc.contains(x),
    ensures
        collect_pairs(acc, ps).contains(x),
    decreases ps.len(),
{
    if ps.len() > 0 {
        let acc1 = add_candidate(acc, ps[0].0);
        if acc1 != acc {
            let j = choose|j: int| 0 <= j < acc.len() && acc[j] == x;
            assert(acc.push(ps[0].0)[j] == x);
        }
        lemma_collect_pairs_super(acc1, ps.drop_first(), x);
    }
}

/// A collected key was already collected or is an unrecognized key of the
/// folded pairs.
proof fn lemma_collect_pairs_member(
    acc: Seq<Seq<char>>,
    ps: Seq<(Seq<char>, Seq<char>)>,
    x: Seq<char>,
)
    requires
        collect_pairs(acc, ps).contains(x),
    ensures
        acc.contains(x) || ((exists|j: int|
            0 <= j < ps.len() && (#[trigger] ps[j]).0 == x) && !catalog_has_key(x)),
    decreases ps.len(),
{
    if ps.len() > 0 {
        let acc1 = add_candidate(acc, ps[0].0);
        lemma_collect_pairs_member(acc1, ps.drop_first(), x);
        if acc1.contains(x) {
            if acc1 != acc {
                let j = choose|j: int| 0 <= j < acc1.len() && acc1[j] == x;
                if j < acc.len() {
                    assert(acc[j] == x);
                } else {
                    assert(x == ps[0].0);
                }
            }
        } else {
            match choose|j: int| 0 <= j < ps.drop_first().len() && (#[trigger] ps.drop_first()[
                j
            ]).0 == x {
                j => {
                    if 0 <= j < ps.drop_first().len() && ps.drop_first()[j].0 == x {
                        assert(ps[j + 1].0 == x);
                    }
                },
            }
        }
    }
}

/// An unrecognized key among the folded pairs is collected.
proof fn lemma_collect_pairs_complete(
    acc: Seq<Seq<char>>,
    ps: Seq<(Seq<char>, Seq<char>)>,
    j: int,
)
    requires
        0 <= j < ps.len(),
        !catalog_has_key(ps[j].0),
    ensures
        collect_pairs(acc, ps).contains(ps[j].0),
    decreases ps.len(),
{
    let acc1 = add_candidate(acc, ps[0].0);
    if j == 0 {
        if acc.contains(ps[0].0) {
            lemma_collect_pairs_super(acc1, ps.drop_first(), ps[0].0);
        } else {
            assert(acc1 == acc.push(ps[0].0));
            assert(acc1[acc.len() as int] == ps[0].0);
            assert(acc1.contains(ps[0].0));
            lemma_collect_pairs_super(acc1, ps.drop_first(), ps[0].0);
        }
    } else {
        assert(ps.drop_first()[j - 1] == ps[j]);
        lemma_collect_pairs_complete(acc1, ps.drop_first(), j - 1);
    }
}

/// Collected keys are kept when further probed sections are folded in.
proof fn lemma_collect_names_super(acc: Seq<Seq<char>>, doc: Seq<SecModel>, i: int, x: Seq<char>)
    requires
        acc.contains(x),
    ensures
        collect_names(acc, doc, i).contains(x),
    decreases 5 - i,
{
    if 0 <= i < 5 {
        let acc1 = collect_pairs(acc, sec_pairs(doc, probe_names()[i]));
        lemma_collect_pairs_super(acc, sec_pairs(doc, probe_names()[i]), x);
        lemma_collect_names_super(acc1, doc, i + 1, x);
    }
}

/// A key collected over the probed sections was already collected or is an
/// unrecognized key of one of them.
proof fn lemma_collect_names_member(acc: Seq<Seq<char>>, doc: Seq<SecModel>, i: int, x: Seq<char>)
    requires
        collect_names(acc, doc, i).contains(x),
    ensures
        acc.contains(x) || (!catalog_has_key(x) && exists|ni: int, j: int|
            0 <= ni < 5 && 0 <= j < sec_pairs(doc, probe_names()[ni]).len() && (
            #[trigger] sec_pairs(doc, probe_names()[ni])[j]).0 == x),
    decreases 5 - i,
{
    if 0 <= i < 5 {
        let ps = sec_pairs(doc, probe_names()[i]);
        let acc1 = collect_pairs(acc, ps);
        lemma_collect_names_member(acc1, doc, i + 1, x);
        if acc1.contains(x) && !acc.contains(x) {
            lemma_collect_pairs_member(acc, ps, x);
            let j = choose|j: int| 0 <= j < ps.len() && (#[trigger] ps[j]).0 == x;
            assert(sec_pairs(doc, probe_names()[i])[j].0 == x);
        }
    }
}

/// An unrecognized key of a probed section is collected.
proof fn lemma_collect_names_complete(
    acc: Seq<Seq<char>>,
    doc: Seq<SecModel>,
    i: int,
    ni: int,
    j: int,
)
    requires
        0 <= i <= ni < 5,
        0 <= j < sec_pairs(doc, probe_names()[ni]).len(),
        !catalog_has_key(sec_pairs(doc, probe_names()[ni])[j].0),
    ensures
        collect_names(acc, doc, i).contains(sec_pairs(doc, probe_names()[ni])[j].0),
    decreases 5 - i,
{
    let ps = sec_pairs(doc, probe_names()[i]);
    let acc1 = collect_pairs(acc, ps);
    if i == ni {
        lemma_collect_pairs_complete(acc, ps, j);
        lemma_collect_names_super(acc1, doc, i + 1, ps[j].0);
    } else {
        lemma_collect_names_complete(acc1, doc, i + 1, ni, j);
    }
}

/// The probe finds a key exactly when some probed section holds it.
proof fn lemma_probe_some(doc: Seq<SecModel>, k: Seq<char>)
    ensures
        (probe(doc, k) is Some) <==> exists|ni: int|
            0 <= ni < 5 && (#[trigger] section_lookup(doc, probe_names()[ni], k)) is Some,
{
    assert(probe_from(doc, k, 5) is None);
    assert((probe_from(doc, k, 4) is Some) <==> (section_lookup(doc, probe_names()[4], k)
        is Some));
    assert((probe_from(doc, k, 3) is Some) <==> ((section_lookup(doc, probe_names()[3], k)
        is Some) || (probe_from(doc, k, 4) is Some)));
    assert((probe_from(doc, k, 2) is Some) <==> ((section_lookup(doc, probe_names()[2], k)
        is Some) || (probe_from(doc, k, 3) is Some)));
    assert((probe_from(doc, k, 1) is Some) <==> ((section_lookup(doc, probe_names()[1], k)
        is Some) || (probe_from(doc, k, 2) is Some)));
    assert((probe_from(doc, k, 0) is Some) <==> ((section_lookup(doc, probe_names()[0], k)
        is Some) || (probe_from(doc, k, 1) is Some)));
    if probe(doc, k) is Some {
        assert(exists|ni: int|
            0 <= ni < 5 && (#[trigger] section_lookup(doc, probe_names()[ni], k)) is Some);
    }
}

/// A pair list that carries a key looks it up to something.
proof fn lemma_pairs_lookup_found(ps: Seq<(Seq<char>, Seq<char>)>, k: Seq<char>, j: int)
    requires
        0 <= j < ps.len(),
        ps[j].0 == k,
    ensures
        pairs_lookup(ps, k) is Some,
{
    lemma_pairs_lookup_member(ps, k);
}

/// The key-to-value mapping of a document's enabled entries.
pub open spec fn enabled_map(s: Seq<EntryModel>) -> Map<Seq<char>, Seq<char>> {
    Map::new(
        |k: Seq<char>| has_key(enabled_of(s), k),
        |k: Seq<char>| enabled_of(s)[key_index(enabled_of(s), k)].value,
    )
}

/// Round trip: for a document whose enabled entries carry unique keys and
/// text that survives the file format, parsing the saved form reproduces,
/// as a key-to-value mapping, exactly the enabled entries — order aside.
pub proof fn lemma_round_trip(entries: Seq<EntryModel>)
    requires
        entries_text_ok(entries),
        enabled_unique(entries),
    ensures
        enabled_map(spec_parse(Some(spec_serialize(entries)))) == enabled_map(entries),
{
    lemma_parse_serialized(entries);
    let doc = seq![serialized_section(entries)];
    let re = parsed_entries(doc);
    assert(spec_parse(Some(spec_serialize(entries))) == re);
    let en = enabled_of(entries);
    let ck = custom_keys(doc);
    let ncat = catalog().len() as int;
    let cat_part = Seq::new(catalog().len(), |i: int| catalog_entry(doc, catalog()[i]));
    let cus_part = ck.map_values(|k: Seq<char>| custom_entry(doc, k));
    lemma_probed_sections(entries, 0);
    assert forall|k: Seq<char>|
        #![trigger enabled_map(re).dom().contains(k)]
        true implies (has_key(enabled_of(re), k) <==> has_key(en, k)) && (has_key(en, k)
        ==> enabled_of(re)[key_index(enabled_of(re), k)].value == en[key_index(en, k)].value) by {
        lemma_probe_main(entries, k);
        lemma_lookup_enabled(entries, k);
        lemma_has_enabled(re, k);
        lemma_has_enabled(entries, k);
        // an enabled reloaded entry with key k means the document had one
        if has_key(enabled_of(re), k) {
            let e2 = enabled_of(re)[key_index(enabled_of(re), k)];
            let idx = choose|idx: int| 0 <= idx < re.len() && re[idx] == e2;
            if idx < ncat {
                assert(re[idx] == cat_part[idx]);
                assert(re[idx] == catalog_entry(doc, catalog()[idx]));
                assert(probe(doc, k) is Some);
            } else {
                assert(re[idx] == cus_part[idx - ncat]);
                assert(re[idx] == custom_entry(doc, ck[idx - ncat]));
                assert(ck[idx - ncat] == k);
                assert(ck.contains(k));
                lemma_collect_names_member(Seq::empty(), doc, 0, k);
                let (ni, j) = choose|ni: int, j: int|
                    0 <= ni < 5 && 0 <= j < sec_pairs(doc, probe_names()[ni]).len() && (
                    #[trigger] sec_pairs(doc, probe_names()[ni])[j]).0 == k;
                lemma_pairs_lookup_found(sec_pairs(doc, probe_names()[ni]), k, j);
                assert(section_lookup(doc, probe_names()[ni], k) is Some);
                lemma_probe_some(doc, k);
                assert(probe(doc, k) is Some);
            }
            assert(has_key(en, k));
        }
        // an enabled document entry with key k reappears on reload
        if has_key(en, k) {
            let v = en[key_index(en, k)].value;
            assert(probe(doc, k) == Some(v));
            if catalog_has_key(k) {
                let ci = choose|ci: int| 0 <= ci < catalog().len() && catalog()[ci].key == k;
                assert(re[ci] == catalog_entry(doc, catalog()[ci]));
                assert(re[ci].enabled && re[ci].key == k);
                assert(has_key(enabled_of(re), k));
            } else {
                let e = en[key_index(en, k)];
                let i = choose|i: int| 0 <= i < entries.len() && entries[i] == e;
                lemma_kvs_complete(entries, i, 0);
                let j = choose|j: int|
                    0 <= j < all_kvs(entries).len() && all_kvs(entries)[j] == (e.key, e.value);
                lemma_collect_names_complete(Seq::empty(), doc, 0, 0, j);
                assert(ck.contains(k));
                let w = choose|w: int| 0 <= w < ck.len() && ck[w] == k;
                assert(re[ncat + w] == cus_part[w]);
                assert(re[ncat + w] == custom_entry(doc, k));
                assert(re[ncat + w].enabled && re[ncat + w].key == k);
                assert(has_key(enabled_of(re), k));
            }
            // every enabled reloaded entry with key k carries the probed value
            let e2 = enabled_of(re)[key_index(enabled_of(re), k)];
            let idx = choose|idx: int| 0 <= idx < re.len() && re[idx] == e2;
            if idx < ncat {
                assert(re[idx] == catalog_entry(doc, catalog()[idx]));
                assert(catalog()[idx].key == k);
                assert(e2.value == v);
            } else {
                assert(re[idx] == custom_entry(doc, ck[idx - ncat]));
                assert(ck[idx - ncat] == k);
                assert(e2.value == v);
            }
        }
    }
    assert forall|k: Seq<char>| true implies #[trigger] enabled_map(re).dom().contains(k)
        == enabled_map(entries).dom().contains(k) by {
        assert(enabled_map(re).dom().contains(k) == has_key(enabled_of(re), k));
        assert(enabled_map(entries).dom().contains(k) == has_key(en, k));
    }
    assert(enabled_map(re) =~= enabled_map(entries));
}

/// The `[main]` section of the parsed saved form holds exactly the emitted
/// pairs.
/// A file that omits a catalog key — including a missing or malformed
/// file — parses to that key's catalog default, disabled.
pub proof fn lemma_omitted_key_defaults(t: Option<Seq<char>>, i: int)
    requires
        0 <= i < catalog().len(),
        match t {
            Some(text) => match parse_ini(text) {
                Some(doc) => probe(doc, catalog()[i].key) is None,
                None => true,
            },
            None => true,
        },
    ensures
        spec_parse(t)[i] == default_entry(catalog()[i]),
{
    match t {
        Some(text) => match parse_ini(text) {
            Some(doc) => {
                let cat_part = Seq::new(
                    catalog().len(),
                    |j: int| catalog_entry(doc, catalog()[j]),
                );
                assert(spec_parse(t)[i] == cat_part[i]);
            },
            None => {
                assert(spec_parse(t)[i] == default_entries()[i]);
            },
        },
        None => {
            assert(spec_parse(t)[i] == default_entries()[i]);
        },
    }
}

/// Parsing a file that consists of the single line `key=1` (or `key=0`)
/// for a boolean-kind catalog key yields that key's entry with exactly
/// that text as its value, enabled.
pub proof fn lemma_parse_bool_literal(i: int, v: Seq<char>)
    requires
        0 <= i < catalog().len(),
        catalog()[i].config_type == crate::schema::ConfigType::Bool,
        v == "1"@ || v == "0"@,
    ensures
        spec_parse(Some(catalog()[i].key + seq!['='] + v))[i] == (EntryModel {
            key: catalog()[i].key,
            value: v,
            schema: Some(catalog()[i]),
            enabled: true,
        }),
{
    reveal_strlit("1");
    reveal_strlit("0");
    lemma_catalog_keys_text_ok();
    let k = catalog()[i].key;
    let text = k + seq!['='] + v;
    assert(value_text_ok(v));
    assert(forall|j: int| 0 <= j < text.len() ==> text[j] != '\n');
    crate::text::lemma_char_index_is(text, '\n', text.len() as int);
    assert(split_lines(text) == seq![text]);
    lemma_classify_pair(k, v);
    let sec = SecModel { name: Seq::empty(), pairs: seq![(k, v)] };
    let doc1 = seq![top_section()].update(
        0,
        SecModel { name: top_section().name, pairs: top_section().pairs.push((k, v)) },
    );
    assert(seq![text].drop_first() =~= Seq::<Seq<char>>::empty());
    assert(parse_lines_from(seq![top_section()], seq![text]) == parse_lines_from(
        doc1,
        seq![text].drop_first(),
    ));
    assert(parse_lines_from(doc1, Seq::<Seq<char>>::empty()) == Some(doc1));
    assert(parse_ini(text) == Some(doc1));
    assert(doc1 =~~= seq![sec]);
    crate::ini::lemma_sec_pairs_single(sec, Seq::empty());
    assert(sec_pairs(seq![sec], probe_names()[0]) == seq![(k, v)]);
    assert(pairs_lookup(seq![(k, v)], k) == Some(v));
    assert(probe_from(seq![sec], k, 0) == Some(v));
    assert(probe(doc1, k) == Some(v));
    let cat_part = Seq::new(catalog().len(), |j: int| catalog_entry(doc1, catalog()[j]));
    assert(spec_parse(Some(text))[i] == cat_part[i]);
}

/// After disabling a catalog key — leaving the document with no enabled
/// entry for it — saving and reloading brings the key back at its catalog
/// default, disabled.
pub proof fn lemma_disabled_key_reloads_default(entries: Seq<EntryModel>, i: int)
    requires
        entries_text_ok(entries),
        0 <= i < catalog().len(),
        forall|j: int|
            0 <= j < entries.len() ==> !((#[trigger] entries[j]).enabled && entries[j].key
                == catalog()[i].key),
    ensures
        spec_parse(Some(spec_serialize(entries)))[i] == default_entry(catalog()[i]),
{
    let k = catalog()[i].key;
    lemma_parse_serialized(entries);
    let doc = seq![serialized_section(entries)];
    lemma_probe_main(entries, k);
    lemma_pairs_lookup_member(all_kvs(entries), k);
    match pairs_lookup(all_kvs(entries), k) {
        Some(v) => {
            let j = choose|j: int|
                0 <= j < all_kvs(entries).len() && all_kvs(entries)[j] == (k, v);
            assert(all_kvs(entries).contains((k, v)));
            lemma_kvs_member(entries, 0, (k, v));
            assert(false);
        },
        None => {},
    }
    lemma_omitted_key_defaults(Some(spec_serialize(entries)), i);
}

/// A disabled schema-less key disappears entirely on save and reload: no
/// entry of the reloaded document carries it.
pub proof fn lemma_disabled_custom_key_vanishes(entries: Seq<EntryModel>, k: Seq<char>)
    requires
        entries_text_ok(entries),
        !catalog_has_key(k),
        forall|j: int|
            0 <= j < entries.len() ==> !((#[trigger] entries[j]).enabled && entries[j].key == k),
    ensures
        forall|idx: int|
            0 <= idx < spec_parse(Some(spec_serialize(entries))).len() ==> (
            #[trigger] spec_parse(Some(spec_serialize(entries)))[idx]).key != k,
{
    lemma_parse_serialized(entries);
    let doc = seq![serialized_section(entries)];
    let re = parsed_entries(doc);
    assert(spec_parse(Some(spec_serialize(entries))) == re);
    let ck = custom_keys(doc);
    let ncat = catalog().len() as int;
    let cat_part = Seq::new(catalog().len(), |j: int| catalog_entry(doc, catalog()[j]));
    let cus_part = ck.map_values(|x: Seq<char>| custom_entry(doc, x));
    lemma_probed_sections(entries, 0);
    assert forall|idx: int| 0 <= idx < re.len() implies (#[trigger] re[idx]).key != k by {
        if idx < ncat {
            assert(re[idx] == cat_part[idx]);
            assert(re[idx].key == catalog()[idx].key);
            if re[idx].key == k {
                assert(catalog_has_key(k));
            }
        } else {
            assert(re[idx] == cus_part[idx - ncat]);
            assert(re[idx].key == ck[idx - ncat]);
            if re[idx].key == k {
                assert(ck.contains(k));
                lemma_collect_names_member(Seq::empty(), doc, 0, k);
                let (ni, j) = choose|ni: int, j: int|
                    0 <= ni < 5 && 0 <= j < sec_pairs(doc, probe_names()[ni]).len() && (
                    #[trigger] sec_pairs(doc, probe_names()[ni])[j]).0 == k;
                lemma_probed_sections(entries, ni);
                let ps = sec_pairs(doc, probe_names()[ni]);
                if ni == 0 {
                    assert(ps == all_kvs(entries));
                    assert(ps.contains(ps[j]));
                    lemma_kvs_member(entries, 0, ps[j]);
                } else {
                    assert(ps.len() == 0);
                }
                assert(false);
            }
        }
    }
}

/// Every probed section of the parsed saved form is empty, except the
/// unnamed top-level one, which holds every emitted pair.
proof fn lemma_probed_sections(entries: Seq<EntryModel>, ni: int)
    requires
        0 <= ni < 5,
    ensures
        sec_pairs(seq![serialized_section(entries)], probe_names()[ni]) == if ni == 0 {
            all_kvs(entries)
        } else {
            Seq::<(Seq<char>, Seq<char>)>::empty()
        },
{
    reveal_strlit("main");
    reveal_strlit("test");
    reveal_strlit("signet");
    reveal_strlit("regtest");
    let doc = seq![serialized_section(entries)];
    let a = serialized_section(entries);
    let n = probe_names()[ni];
    crate::ini::lemma_sec_pairs_single(a, n);
    if ni == 0 {
        assert(sec_pairs(doc, n) == all_kvs(entries));
    } else {
        if ni == 1 {
            assert(n == "main"@);
            assert(n.len() == 4);
        } else if ni == 2 {
            assert(n == "test"@);
            assert(n.len() == 4);
        } else if ni == 3 {
            assert(n == "signet"@);
            assert(n.len() == 6);
        } else {
            assert(n == "regtest"@);
            assert(n.len() == 7);
        }
        assert(a.name != n);
    }
}




proof fn lemma_collect_pairs_distinct(acc: Seq<Seq<char>>, ps: Seq<(Seq<char>, Seq<char>)>)
    requires
        forall|i: int, j: int| 0 <= i < j < acc.len() ==> acc[i] != acc[j],
    ensures
        forall|i: int, j: int|
            0 <= i < j < collect_pairs(acc, ps).len() ==> collect_pairs(acc, ps)[i]
                != collect_pairs(acc, ps)[j],
    decreases ps.len(),
{
    if ps.len() > 0 {
        let acc1 = add_candidate(acc, ps[0].0);
        assert forall|i: int, j: int| 0 <= i < j < acc1.len() implies acc1[i] != acc1[j] by {
            if acc1 != acc && j == acc1.len() - 1 {
                assert(acc1[j] == ps[0].0);
                assert(acc1[i] == acc[i]);
                assert(!acc.contains(ps[0].0));
            }
        }
        lemma_collect_pairs_distinct(acc1, ps.drop_first());
        assert(collect_pairs(acc, ps) == collect_pairs(acc1, ps.drop_first()));
    } else {
        assert(collect_pairs(acc, ps) == acc);
    }
}

proof fn lemma_collect_names_distinct(acc: Seq<Seq<char>>, doc: Seq<SecModel>, ni: int)
    requires
        forall|i: int, j: int| 0 <= i < j < acc.len() ==> acc[i] != acc[j],
    ensures
        forall|i: int, j: int|
            0 <= i < j < collect_names(acc, doc, ni).len() ==> collect_names(acc, doc, ni)[i]
                != collect_names(acc, doc, ni)[j],
    decreases 5 - ni,
{
    if 0 <= ni < 5 {
        let ps = sec_pairs(doc, probe_names()[ni]);
        lemma_collect_pairs_distinct(acc, ps);
        lemma_collect_names_distinct(collect_pairs(acc, ps), doc, ni + 1);
        assert(collect_names(acc, doc, ni) == collect_names(collect_pairs(acc, ps), doc, ni + 1));
    } else {
        assert(collect_names(acc, doc, ni) == acc);
    }
}

/// The unrecognized keys a parsed file contributes are pairwise distinct,
/// and none of them is a catalog key: a freshly parsed document carries
/// one entry per catalog record plus its schema-less entries without
/// repetition.
pub proof fn lemma_custom_keys_wf(doc: Seq<SecModel>)
    ensures
        forall|i: int, j: int|
            0 <= i < j < custom_keys(doc).len() ==> custom_keys(doc)[i] != custom_keys(doc)[j],
        forall|i: int|
            0 <= i < custom_keys(doc).len() ==> !catalog_has_key(#[trigger] custom_keys(doc)[i]),
{
    lemma_collect_names_distinct(Seq::empty(), doc, 0);
    assert forall|i: int| 0 <= i < custom_keys(doc).len() implies !catalog_has_key(
        #[trigger] custom_keys(doc)[i],
    ) by {
        assert(custom_keys(doc).contains(custom_keys(doc)[i]));
        lemma_collect_names_member(Seq::empty(), doc, 0, custom_keys(doc)[i]);
    }
}

/// The document invariant on keys: no two entries share one.
pub open spec fn keys_unique(s: Seq<EntryModel>) -> bool {
    forall|i: int, j: int|
        0 <= i < j < s.len() ==> #[trigger] s[i].key != #[trigger] s[j].key
}

/// A document with pairwise distinct keys in particular has pairwise
/// distinct enabled keys, as the round trip requires.
pub proof fn lemma_keys_unique_enabled_unique(s: Seq<EntryModel>)
    requires
        keys_unique(s),
    ensures
        enabled_unique(s),
{
}

/// Updating an entry in place — as `set`, `enable`, `disable` and an
/// upserting `add_custom` do — keeps the document's keys distinct.
pub proof fn lemma_update_same_key_keeps_unique(s: Seq<EntryModel>, i: int, e: EntryModel)
    requires
        keys_unique(s),
        0 <= i < s.len(),
        e.key == s[i].key,
    ensures
        keys_unique(s.update(i, e)),
{
}

/// Appending an entry under a fresh key — as an inserting `add_custom`
/// does — keeps the document's keys distinct.
pub proof fn lemma_push_new_key_keeps_unique(s: Seq<EntryModel>, e: EntryModel)
    requires
        keys_unique(s),
        !has_key(s, e.key),
    ensures
        keys_unique(s.push(e)),
{
    crate::config::lemma_key_index(s, e.key);
}

/// Dropping every entry with one key — as `remove` does — keeps the
/// document's keys distinct.
pub proof fn lemma_remove_key_keeps_unique(s: Seq<EntryModel>, k: Seq<char>)
    requires
        keys_unique(s),
    ensures
        keys_unique(s.filter(|e: EntryModel| e.key != k)),
    decreases s.len(),
{
    reveal(Seq::filter);
    if s.len() > 0 {
        assert(keys_unique(s.drop_last()));
        lemma_remove_key_keeps_unique(s.drop_last(), k);
        let pred = |e: EntryModel| e.key != k;
        let f = s.drop_last().filter(pred);
        if pred(s.last()) {
            assert(s.filter(pred) == f.push(s.last()));
            assert forall|i: int, j: int|
                0 <= i < j < s.filter(pred).len() implies #[trigger] s.filter(pred)[i].key
                != #[trigger] s.filter(pred)[j].key by {
                if j == s.filter(pred).len() - 1 {
                    lemma_filter_members(s.drop_last(), pred, i);
                    let w = choose|w: int|
                        0 <= w < s.drop_last().len() && s.drop_last()[w] == f[i];
                    assert(s[w] == f[i]);
                    assert(s[w].key != s.last().key);
                } else {
                    assert(f[i] == s.filter(pred)[i] && f[j] == s.filter(pred)[j]);
                }
            }
        }
    }
}

#[verifier::rlimit(80)]
proof fn lemma_core_keys_text_ok()
    ensures
        forall|i: int|
            0 <= i < core_catalog().len() ==> key_text_ok(#[trigger] core_catalog()[i].key),
{
    reveal_strlit("datadir");
    reveal_strlit("blocksdir");
    reveal_strlit("pid");
    reveal_strlit("debuglogfile");
    reveal_strlit("settings");
    reveal_strlit("includeconf");
    reveal_strlit("loadblock");
    reveal_strlit("txindex");
    reveal_strlit("blockfilterindex");
    reveal_strlit("coinstatsindex");
    reveal_strlit("prune");
    reveal_strlit("dbcache");
    reveal_strlit("maxmempool");
    reveal_strlit("maxorphantx");
    reveal_strlit("mempoolexpiry");
    reveal_strlit("par");
    reveal_strlit("blockreconstructionextratxn");
    reveal_strlit("blocksonly");
    reveal_strlit("persistmempool");
    reveal_strlit("reindex");
    reveal_strlit("reindex-chainstate");
    reveal_strlit("sysperms");
    reveal_strlit("daemon");
    reveal_strlit("daemonwait");
    reveal_strlit("alertnotify");
    reveal_strlit("blocknotify");
    reveal_strlit("startupnotify");
    reveal_strlit("assumevalid");
    assert forall|i: int|
        0 <= i < core_catalog().len() implies key_text_ok(#[trigger] core_catalog()[i].key) by {
        if i == 0 {
            assert(key_text_ok("datadir"@));
        } else if i == 1 {
            assert(key_text_ok("blocksdir"@));
        } else if i == 2 {
            assert(key_text_ok("pid"@));
        } else if i == 3 {
            assert(key_text_ok("debuglogfile"@));
        } else if i == 4 {
            assert(key_text_ok("settings"@));
        } else if i == 5 {
            assert(key_text_ok("includeconf"@));
        } else if i == 6 {
            assert(key_text_ok("loadblock"@));
        } else if i == 7 {
            assert(key_text_ok("txindex"@));
        } else if i == 8 {
            assert(key_text_ok("blockfilterindex"@));
        } else if i == 9 {
            assert(key_text_ok("coinstatsindex"@));
        } else if i == 10 {
            assert(key_text_ok("prune"@));
        } else if i == 11 {
            assert(key_text_ok("dbcache"@));
        } else if i == 12 {
            assert(key_text_ok("maxmempool"@));
        } else if i == 13 {
            assert(key_text_ok("maxorphantx"@));
        } else if i == 14 {
            assert(key_text_ok("mempoolexpiry"@));
        } else if i == 15 {
            assert(key_text_ok("par"@));
        } else if i == 16 {
            assert(key_text_ok("blockreconstructionextratxn"@));
        } else if i == 17 {
            assert(key_text_ok("blocksonly"@));
        } else if i == 18 {
            assert(key_text_ok("persistmempool"@));
        } else if i == 19 {
            assert(key_text_ok("reindex"@));
        } else if i == 20 {
            assert(key_text_ok("reindex-chainstate"@));
        } else if i == 21 {
            assert(key_text_ok("sysperms"@));
        } else if i == 22 {
            assert(key_text_ok("daemon"@));
        } else if i == 23 {
            assert(key_text_ok("daemonwait"@));
        } else if i == 24 {
            assert(key_text_ok("alertnotify"@));
        } else if i == 25 {
            assert(key_text_ok("blocknotify"@));
        } else if i == 26 {
            assert(key_text_ok("startupnotify"@));
        } else if i == 27 {
            assert(key_text_ok("assumevalid"@));
        } else {
        }
    }
}

#[verifier::rlimit(80)]
proof fn lemma_network_keys_text_ok()
    ensures
        forall|i: int|
            0 <= i < network_catalog().len() ==> key_text_ok(#[trigger] network_catalog()[i].key),
{
    reveal_strlit("chain");
    reveal_strlit("testnet");
    reveal_strlit("regtest");
    reveal_strlit("signet");
    reveal_strlit("signetchallenge");
    reveal_strlit("signetseednode");
    reveal_strlit("listen");
    reveal_strlit("bind");
    reveal_strlit("whitebind");
    reveal_strlit("port");
    reveal_strlit("maxconnections");
    reveal_strlit("maxreceivebuffer");
    reveal_strlit("maxsendbuffer");
    reveal_strlit("maxuploadtarget");
    reveal_strlit("timeout");
    reveal_strlit("maxtimeadjustment");
    reveal_strlit("bantime");
    reveal_strlit("discover");
    reveal_strlit("dns");
    reveal_strlit("dnsseed");
    reveal_strlit("fixedseeds");
    reveal_strlit("forcednsseed");
    reveal_strlit("seednode");
    reveal_strlit("addnode");
    reveal_strlit("connect");
    reveal_strlit("onlynet");
    reveal_strlit("networkactive");
    reveal_strlit("proxy");
    reveal_strlit("proxyrandomize");
    reveal_strlit("onion");
    reveal_strlit("listenonion");
    reveal_strlit("torcontrol");
    reveal_strlit("torpassword");
    reveal_strlit("i2psam");
    reveal_strlit("i2pacceptincoming");
    reveal_strlit("cjdnsreachable");
    reveal_strlit("whitelist");
    reveal_strlit("peerblockfilters");
    reveal_strlit("peerbloomfilters");
    reveal_strlit("permitbaremultisig");
    reveal_strlit("externalip");
    reveal_strlit("upnp");
    reveal_strlit("asmap");
    assert forall|i: int|
        0 <= i < network_catalog().len() implies key_text_ok(#[trigger] network_catalog()[i].key) by {
        if i == 0 {
            assert(key_text_ok("chain"@));
        } else if i == 1 {
            assert(key_text_ok("testnet"@));
        } else if i == 2 {
            assert(key_text_ok("regtest"@));
        } else if i == 3 {
            assert(key_text_ok("signet"@));
        } else if i == 4 {
            assert(key_text_ok("signetchallenge"@));
        } else if i == 5 {
            assert(key_text_ok("signetseednode"@));
        } else if i == 6 {
            assert(key_text_ok("listen"@));
        } else if i == 7 {
            assert(key_text_ok("bind"@));
        } else if i == 8 {
            assert(key_text_ok("whitebind"@));
        } else if i == 9 {
            assert(key_text_ok("port"@));
        } else if i == 10 {
            assert(key_text_ok("maxconnections"@));
        } else if i == 11 {
            assert(key_text_ok("maxreceivebuffer"@));
        } else if i == 12 {
            assert(key_text_ok("maxsendbuffer"@));
        } else if i == 13 {
            assert(key_text_ok("maxuploadtarget"@));
        } else if i == 14 {
            assert(key_text_ok("timeout"@));
        } else if i == 15 {
            assert(key_text_ok("maxtimeadjustment"@));
        } else if i == 16 {
            assert(key_text_ok("bantime"@));
        } else if i == 17 {
            assert(key_text_ok("discover"@));
        } else if i == 18 {
            assert(key_text_ok("dns"@));
        } else if i == 19 {
            assert(key_text_ok("dnsseed"@));
        } else if i == 20 {
            assert(key_text_ok("fixedseeds"@));
        } else if i == 21 {
            assert(key_text_ok("forcednsseed"@));
        } else if i == 22 {
            assert(key_text_ok("seednode"@));
        } else if i == 23 {
            assert(key_text_ok("addnode"@));
        } else if i == 24 {
            assert(key_text_ok("connect"@));
        } else if i == 25 {
            assert(key_text_ok("onlynet"@));
        } else if i == 26 {
            assert(key_text_ok("networkactive"@));
        } else if i == 27 {
            assert(key_text_ok("proxy"@));
        } else if i == 28 {
            assert(key_text_ok("proxyrandomize"@));
        } else if i == 29 {
            assert(key_text_ok("onion"@));
        } else if i == 30 {
            assert(key_text_ok("listenonion"@));
        } else if i == 31 {
            assert(key_text_ok("torcontrol"@));
        } else if i == 32 {
            assert(key_text_ok("torpassword"@));
        } else if i == 33 {
            assert(key_text_ok("i2psam"@));
        } else if i == 34 {
            assert(key_text_ok("i2pacceptincoming"@));
        } else if i == 35 {
            assert(key_text_ok("cjdnsreachable"@));
        } else if i == 36 {
            assert(key_text_ok("whitelist"@));
        } else if i == 37 {
            assert(key_text_ok("peerblockfilters"@));
        } else if i == 38 {
            assert(key_text_ok("peerbloomfilters"@));
        } else if i == 39 {
            assert(key_text_ok("permitbaremultisig"@));
        } else if i == 40 {
            assert(key_text_ok("externalip"@));
        } else if i == 41 {
            assert(key_text_ok("upnp"@));
        } else if i == 42 {
            assert(key_text_ok("asmap"@));
        } else {
        }
    }
}

#[verifier::rlimit(80)]
proof fn lemma_rpc_keys_text_ok()
    ensures
        forall|i: int|
            0 <= i < rpc_catalog().len() ==> key_text_ok(#[trigger] rpc_catalog()[i].key),
{
    reveal_strlit("server");
    reveal_strlit("rpcuser");
    reveal_strlit("rpcpassword");
    reveal_strlit("rpcauth");
    reveal_strlit("rpccookiefile");
    reveal_strlit("rpcport");
    reveal_strlit("rpcbind");
    reveal_strlit("rpcallowip");
    reveal_strlit("rpcthreads");
    reveal_strlit("rpcserialversion");
    reveal_strlit("rpcwhitelist");
    reveal_strlit("rpcwhitelistdefault");
    reveal_strlit("rest");
    assert forall|i: int|
        0 <= i < rpc_catalog().len() implies key_text_ok(#[trigger] rpc_catalog()[i].key) by {
        if i == 0 {
            assert(key_text_ok("server"@));
        } else if i == 1 {
            assert(key_text_ok("rpcuser"@));
        } else if i == 2 {
            assert(key_text_ok("rpcpassword"@));
        } else if i == 3 {
            assert(key_text_ok("rpcauth"@));
        } else if i == 4 {
            assert(key_text_ok("rpccookiefile"@));
        } else if i == 5 {
            assert(key_text_ok("rpcport"@));
        } else if i == 6 {
            assert(key_text_ok("rpcbind"@));
        } else if i == 7 {
            assert(key_text_ok("rpcallowip"@));
        } else if i == 8 {
            assert(key_text_ok("rpcthreads"@));
        } else if i == 9 {
            assert(key_text_ok("rpcserialversion"@));
        } else if i == 10 {
            assert(key_text_ok("rpcwhitelist"@));
        } else if i == 11 {
            assert(key_text_ok("rpcwhitelistdefault"@));
        } else if i == 12 {
            assert(key_text_ok("rest"@));
        } else {
        }
    }
}

#[verifier::rlimit(80)]
proof fn lemma_wallet_keys_text_ok()
    ensures
        forall|i: int|
            0 <= i < wallet_catalog().len() ==> key_text_ok(#[trigger] wallet_catalog()[i].key),
{
    reveal_strlit("disablewallet");
    reveal_strlit("wallet");
    reveal_strlit("walletdir");
    reveal_strlit("addresstype");
    reveal_strlit("changetype");
    reveal_strlit("fallbackfee");
    reveal_strlit("discardfee");
    reveal_strlit("mintxfee");
    reveal_strlit("paytxfee");
    reveal_strlit("consolidatefeerate");
    reveal_strlit("maxapsfee");
    reveal_strlit("txconfirmtarget");
    reveal_strlit("spendzeroconfchange");
    reveal_strlit("walletrbf");
    reveal_strlit("avoidpartialspends");
    reveal_strlit("keypool");
    reveal_strlit("signer");
    reveal_strlit("walletbroadcast");
    reveal_strlit("walletnotify");
    assert forall|i: int|
        0 <= i < wallet_catalog().len() implies key_text_ok(#[trigger] wallet_catalog()[i].key) by {
        if i == 0 {
            assert(key_text_ok("disablewallet"@));
        } else if i == 1 {
            assert(key_text_ok("wallet"@));
        } else if i == 2 {
            assert(key_text_ok("walletdir"@));
        } else if i == 3 {
            assert(key_text_ok("addresstype"@));
        } else if i == 4 {
            assert(key_text_ok("changetype"@));
        } else if i == 5 {
            assert(key_text_ok("fallbackfee"@));
        } else if i == 6 {
            assert(key_text_ok("discardfee"@));
        } else if i == 7 {
            assert(key_text_ok("mintxfee"@));
        } else if i == 8 {
            assert(key_text_ok("paytxfee"@));
        } else if i == 9 {
            assert(key_text_ok("consolidatefeerate"@));
        } else if i == 10 {
            assert(key_text_ok("maxapsfee"@));
        } else if i == 11 {
            assert(key_text_ok("txconfirmtarget"@));
        } else if i == 12 {
            assert(key_text_ok("spendzeroconfchange"@));
        } else if i == 13 {
            assert(key_text_ok("walletrbf"@));
        } else if i == 14 {
            assert(key_text_ok("avoidpartialspends"@));
        } else if i == 15 {
            assert(key_text_ok("keypool"@));
        } else if i == 16 {
            assert(key_text_ok("signer"@));
        } else if i == 17 {
            assert(key_text_ok("walletbroadcast"@));
        } else if i == 18 {
            assert(key_text_ok("walletnotify"@));
        } else {
        }
    }
}

#[verifier::rlimit(80)]
proof fn lemma_debugging_keys_text_ok()
    ensures
        forall|i: int|
            0 <= i < debugging_catalog().len() ==> key_text_ok(#[trigger] debugging_catalog()[i].key),
{
    reveal_strlit("debug");
    reveal_strlit("debugexclude");
    reveal_strlit("logips");
    reveal_strlit("logsourcelocations");
    reveal_strlit("logthreadnames");
    reveal_strlit("logtimestamps");
    reveal_strlit("shrinkdebugfile");
    reveal_strlit("printtoconsole");
    reveal_strlit("uacomment");
    reveal_strlit("maxtxfee");
    assert forall|i: int|
        0 <= i < debugging_catalog().len() implies key_text_ok(#[trigger] debugging_catalog()[i].key) by {
        if i == 0 {
            assert(key_text_ok("debug"@));
        } else if i == 1 {
            assert(key_text_ok("debugexclude"@));
        } else if i == 2 {
            assert(key_text_ok("logips"@));
        } else if i == 3 {
            assert(key_text_ok("logsourcelocations"@));
        } else if i == 4 {
            assert(key_text_ok("logthreadnames"@));
        } else if i == 5 {
            assert(key_text_ok("logtimestamps"@));
        } else if i == 6 {
            assert(key_text_ok("shrinkdebugfile"@));
        } else if i == 7 {
            assert(key_text_ok("printtoconsole"@));
        } else if i == 8 {
            assert(key_text_ok("uacomment"@));
        } else if i == 9 {
            assert(key_text_ok("maxtxfee"@));
        } else {
        }
    }
}

#[verifier::rlimit(80)]
proof fn lemma_mining_keys_text_ok()
    ensures
        forall|i: int|
            0 <= i < mining_catalog().len() ==> key_text_ok(#[trigger] mining_catalog()[i].key),
{
    reveal_strlit("blockmaxweight");
    reveal_strlit("blockmintxfee");
    assert forall|i: int|
        0 <= i < mining_catalog().len() implies key_text_ok(#[trigger] mining_catalog()[i].key) by {
        if i == 0 {
            assert(key_text_ok("blockmaxweight"@));
        } else if i == 1 {
            assert(key_text_ok("blockmintxfee"@));
        } else {
        }
    }
}

#[verifier::rlimit(80)]
proof fn lemma_relay_keys_text_ok()
    ensures
        forall|i: int|
            0 <= i < relay_catalog().len() ==> key_text_ok(#[trigger] relay_catalog()[i].key),
{
    reveal_strlit("minrelaytxfee");
    reveal_strlit("datacarrier");
    reveal_strlit("datacarriersize");
    reveal_strlit("bytespersigop");
    reveal_strlit("whitelistforcerelay");
    reveal_strlit("whitelistrelay");
    assert forall|i: int|
        0 <= i < relay_catalog().len() implies key_text_ok(#[trigger] relay_catalog()[i].key) by {
        if i == 0 {
            assert(key_text_ok("minrelaytxfee"@));
        } else if i == 1 {
            assert(key_text_ok("datacarrier"@));
        } else if i == 2 {
            assert(key_text_ok("datacarriersize"@));
        } else if i == 3 {
            assert(key_text_ok("bytespersigop"@));
        } else if i == 4 {
            assert(key_text_ok("whitelistforcerelay"@));
        } else if i == 5 {
            assert(key_text_ok("whitelistrelay"@));
        } else {
        }
    }
}

#[verifier::rlimit(80)]
proof fn lemma_zmq_keys_text_ok()
    ensures
        forall|i: int|
            0 <= i < zmq_catalog().len() ==> key_text_ok(#[trigger] zmq_catalog()[i].key),
{
    reveal_strlit("zmqpubhashblock");
    reveal_strlit("zmqpubhashtx");
    reveal_strlit("zmqpubrawblock");
    reveal_strlit("zmqpubrawtx");
    reveal_strlit("zmqpubsequence");
    assert forall|i: int|
        0 <= i < zmq_catalog().len() implies key_text_ok(#[trigger] zmq_catalog()[i].key) by {
        if i == 0 {
            assert(key_text_ok("zmqpubhashblock"@));
        } else if i == 1 {
            assert(key_text_ok("zmqpubhashtx"@));
        } else if i == 2 {
            assert(key_text_ok("zmqpubrawblock"@));
        } else if i == 3 {
            assert(key_text_ok("zmqpubrawtx"@));
        } else if i == 4 {
            assert(key_text_ok("zmqpubsequence"@));
        } else {
        }
    }
}

/// Every key of the catalog survives the trip through the file format.
#[verifier::rlimit(60)]
pub proof fn lemma_catalog_keys_text_ok()
    ensures
        forall|i: int| 0 <= i < catalog().len() ==> key_text_ok(#[trigger] catalog()[i].key),
{
    lemma_core_keys_text_ok();
    lemma_network_keys_text_ok();
    lemma_rpc_keys_text_ok();
    lemma_wallet_keys_text_ok();
    lemma_debugging_keys_text_ok();
    lemma_mining_keys_text_ok();
    lemma_relay_keys_text_ok();
    lemma_zmq_keys_text_ok();
    assert forall|i: int| 0 <= i < catalog().len() implies key_text_ok(
        #[trigger] catalog()[i].key,
    ) by {
        let c0 = core_catalog();
        let c1 = network_catalog();
        let c2 = rpc_catalog();
        let c3 = wallet_catalog();
        let c4 = debugging_catalog();
        let c5 = mining_catalog();
        let c6 = relay_catalog();
        let c7 = zmq_catalog();
        let n0 = c0.len() as int;
        let n1 = n0 + c1.len();
        let n2 = n1 + c2.len();
        let n3 = n2 + c3.len();
        let n4 = n3 + c4.len();
        let n5 = n4 + c5.len();
        let n6 = n5 + c6.len();
        if i < n0 {
            assert(catalog()[i] == c0[i]);
        } else if i < n1 {
            assert(catalog()[i] == c1[i - n0]);
        } else if i < n2 {
            assert(catalog()[i] == c2[i - n1]);
        } else if i < n3 {
            assert(catalog()[i] == c3[i - n2]);
        } else if i < n4 {
            assert(catalog()[i] == c4[i - n3]);
        } else if i < n5 {
            assert(catalog()[i] == c5[i - n4]);
        } else if i < n6 {
            assert(catalog()[i] == c6[i - n5]);
        } else {
            assert(catalog()[i] == c7[i - n6]);
        }
    }
}

} // verus!
