//! The on-disk file format: line-oriented text with `#`-introduced comments,
//! optional `[section]` headers and `key=value` pairs.  The specification
//! models a file as a sequence of sections, each holding its pairs in file
//! order; a malformed line makes the whole file unparseable.
use vstd::prelude::*;

use crate::text::{
    char_index, chars_eq, copy_chars, find_from, first_newline, lemma_char_index_is, split_lines,
    subvec, trim, trim_chars,
};

verus! {

/// One `[name]`-delimited block of the file, at the specification level.
/// The unnamed top-level block has the empty name.
#[verifier::ext_equal]
pub ghost struct SecModel {
    pub name: Seq<char>,
    pub pairs: Seq<(Seq<char>, Seq<char>)>,
}

/// What one trimmed line of the file means.
pub ghost enum LineKind {
    Blank,
    Comment,
    Header(Seq<char>),
    Pair(Seq<char>, Seq<char>),
    Malformed,
}

/// Classifies one raw line of the file.
pub open spec fn classify(l: Seq<char>) -> LineKind {
    let t = trim(l);
    if t.len() == 0 {
        LineKind::Blank
    } else if t[0] == '#' {
        LineKind::Comment
    } else if t[0] == '[' {
        if t[t.len() - 1] == ']' {
            LineKind::Header(trim(t.subrange(1, t.len() - 1)))
        } else {
            LineKind::Malformed
        }
    } else {
        let i = char_index(t, '=');
        if 0 <= i < t.len() {
            let k = trim(t.subrange(0, i));
            if k.len() > 0 {
                LineKind::Pair(k, trim(t.subrange(i + 1, t.len() as int)))
            } else {
                LineKind::Malformed
            }
        } else {
            LineKind::Malformed
        }
    }
}

/// The empty unnamed section every file starts with.
pub open spec fn top_section() -> SecModel {
    SecModel { name: Seq::empty(), pairs: Seq::empty() }
}

/// Runs the line interpreter over `lines`, starting from the sections
/// already built.  A pair line extends the most recent section; a malformed
/// line fails the whole parse.
pub open spec fn parse_lines_from(doc: Seq<SecModel>, lines: Seq<Seq<char>>) -> Option<
    Seq<SecModel>,
>
    decreases lines.len(),
{
    if lines.len() == 0 {
        Some(doc)
    } else {
        match classify(lines[0]) {
            LineKind::Blank => parse_lines_from(doc, lines.drop_first()),
            LineKind::Comment => parse_lines_from(doc, lines.drop_first()),
            LineKind::Header(n) => parse_lines_from(
                doc.push(SecModel { name: n, pairs: Seq::empty() }),
                lines.drop_first(),
            ),
            LineKind::Pair(k, v) => parse_lines_from(
                doc.update(
                    doc.len() - 1,
                    SecModel {
                        name: doc.last().name,
                        pairs: doc.last().pairs.push((k, v)),
                    },
                ),
                lines.drop_first(),
            ),
            LineKind::Malformed => None,
        }
    }
}

/// The sections of a whole file, or `None` if some line is malformed.
pub open spec fn parse_ini(t: Seq<char>) -> Option<Seq<SecModel>> {
    parse_lines_from(seq![top_section()], split_lines(t))
}

/// Interpreting `l1 ++ l2` is interpreting `l1` and then, if that
/// succeeded, interpreting `l2` from where it left off.
pub proof fn lemma_parse_lines_append(doc: Seq<SecModel>, l1: Seq<Seq<char>>, l2: Seq<Seq<char>>)
    ensures
        parse_lines_from(doc, l1 + l2) == match parse_lines_from(doc, l1) {
            Some(d) => parse_lines_from(d, l2),
            None => None,
        },
    decreases l1.len(),
{
    if l1.len() == 0 {
        assert(l1 + l2 =~= l2);
    } else {
        assert((l1 + l2)[0] == l1[0]);
        assert((l1 + l2).drop_first() =~= l1.drop_first() + l2);
        match classify(l1[0]) {
            LineKind::Blank => {
                lemma_parse_lines_append(doc, l1.drop_first(), l2);
            },
            LineKind::Comment => {
                lemma_parse_lines_append(doc, l1.drop_first(), l2);
            },
            LineKind::Header(n) => {
                lemma_parse_lines_append(
                    doc.push(SecModel { name: n, pairs: Seq::empty() }),
                    l1.drop_first(),
                    l2,
                );
            },
            LineKind::Pair(k, v) => {
                lemma_parse_lines_append(
                    doc.update(
                        doc.len() - 1,
                        SecModel {
                            name: doc.last().name,
                            pairs: doc.last().pairs.push((k, v)),
                        },
                    ),
                    l1.drop_first(),
                    l2,
                );
            },
            LineKind::Malformed => {},
        }
    }
}

/// The value of the last pair with key `k`, if any: a later assignment of
/// the same key overrides an earlier one.
pub open spec fn pairs_lookup(pairs: Seq<(Seq<char>, Seq<char>)>, k: Seq<char>) -> Option<
    Seq<char>,
>
    decreases pairs.len(),
{
    if pairs.len() == 0 {
        None
    } else if pairs.last().0 == k {
        Some(pairs.last().1)
    } else {
        pairs_lookup(pairs.drop_last(), k)
    }
}

/// All pairs under sections named `name`, in file order: repeated sections
/// with one name merge.
pub open spec fn sec_pairs(doc: Seq<SecModel>, name: Seq<char>) -> Seq<(Seq<char>, Seq<char>)>
    decreases doc.len(),
{
    if doc.len() == 0 {
        Seq::empty()
    } else {
        (if doc[0].name == name {
            doc[0].pairs
        } else {
            Seq::empty()
        }) + sec_pairs(doc.drop_first(), name)
    }
}

/// The value `key` has in the section named `name`, if any.
pub open spec fn section_lookup(doc: Seq<SecModel>, name: Seq<char>, key: Seq<char>) -> Option<
    Seq<char>,
> {
    pairs_lookup(sec_pairs(doc, name), key)
}

pub proof fn lemma_pairs_lookup_append(
    a: Seq<(Seq<char>, Seq<char>)>,
    b: Seq<(Seq<char>, Seq<char>)>,
    k: Seq<char>,
)
    ensures
        pairs_lookup(a + b, k) == match pairs_lookup(b, k) {
            Some(v) => Some(v),
            None => pairs_lookup(a, k),
        },
    decreases b.len(),
{
    if b.len() == 0 {
        assert(a + b =~= a);
    } else {
        assert((a + b).last() == b.last());
        assert((a + b).drop_last() =~= a + b.drop_last());
        lemma_pairs_lookup_append(a, b.drop_last(), k);
    }
}

pub proof fn lemma_sec_pairs_append(d1: Seq<SecModel>, d2: Seq<SecModel>, name: Seq<char>)
    ensures
        sec_pairs(d1 + d2, name) == sec_pairs(d1, name) + sec_pairs(d2, name),
    decreases d1.len(),
{
    if d1.len() == 0 {
        assert(d1 + d2 =~= d2);
        assert(sec_pairs(d1, name) + sec_pairs(d2, name) =~= sec_pairs(d2, name));
    } else {
        assert((d1 + d2)[0] == d1[0]);
        assert((d1 + d2).drop_first() =~= d1.drop_first() + d2);
        lemma_sec_pairs_append(d1.drop_first(), d2, name);
        assert(sec_pairs(d1 + d2, name) =~= sec_pairs(d1, name) + sec_pairs(d2, name));
    }
}

pub proof fn lemma_sec_pairs_single(s: SecModel, name: Seq<char>)
    ensures
        sec_pairs(seq![s], name) == (if s.name == name {
            s.pairs
        } else {
            Seq::<(Seq<char>, Seq<char>)>::empty()
        }),
{
    assert(seq![s].drop_first() =~= Seq::<SecModel>::empty());
    assert(sec_pairs(Seq::<SecModel>::empty(), name) == Seq::<(Seq<char>, Seq<char>)>::empty());
    if s.name == name {
        assert(sec_pairs(seq![s], name) =~= s.pairs);
    } else {
        assert(sec_pairs(seq![s], name) =~= Seq::<(Seq<char>, Seq<char>)>::empty());
    }
}

/// The fixed, ordered list of section names the parser probes: the unnamed
/// top-level block first, then the chain-specific blocks, in this order
/// regardless of which chain is actually selected.
pub open spec fn probe_names() -> Seq<Seq<char>> {
    seq![Seq::empty(), "main"@, "test"@, "signet"@, "regtest"@]
}

/// Probes the section names from position `i` on; the first section whose
/// table holds `key` wins.
pub open spec fn probe_from(doc: Seq<SecModel>, key: Seq<char>, i: int) -> Option<Seq<char>>
    decreases probe_names().len() - i,
{
    if i < 0 || i >= probe_names().len() {
        None
    } else {
        match section_lookup(doc, probe_names()[i], key) {
            Some(v) => Some(v),
            None => probe_from(doc, key, i + 1),
        }
    }
}

/// The value the fixed probe order finds for `key`, if any section holds it.
pub open spec fn probe(doc: Seq<SecModel>, key: Seq<char>) -> Option<Seq<char>> {
    probe_from(doc, key, 0)
}

/// One `[name]`-delimited block of the file.
pub struct IniSec {
    pub name: Vec<char>,
    pub pairs: Vec<(Vec<char>, Vec<char>)>,
}

impl View for IniSec {
    type V = SecModel;

    open spec fn view(&self) -> SecModel {
        SecModel {
            name: self.name@,
            pairs: self.pairs@.map_values(|p: (Vec<char>, Vec<char>)| (p.0@, p.1@)),
        }
    }
}

/// The models of a vector of sections.
pub open spec fn doc_view(doc: Seq<IniSec>) -> Seq<SecModel> {
    doc.map_values(|s: IniSec| s@)
}

/// Splits `t` into its lines.
pub fn split_lines_exec(t: &Vec<char>) -> (r: Vec<Vec<char>>)
    ensures
        r@.map_values(|l: Vec<char>| l@) == split_lines(t@),
{
    let mut r: Vec<Vec<char>> = Vec::new();
    let mut p: usize = 0;
    proof {
        assert(r@.map_values(|l: Vec<char>| l@) =~= Seq::<Seq<char>>::empty());
        assert(t@.skip(0) =~= t@);
        assert(r@.map_values(|l: Vec<char>| l@) + split_lines(t@) =~= split_lines(t@));
    }
    while p < t.len()
        invariant
            p <= t@.len(),
            r@.map_values(|l: Vec<char>| l@) + split_lines(t@.skip(p as int)) == split_lines(t@),
        decreases t@.len() - p,
    {
        let i = find_from(t, p, '\n');
        let line = subvec(t, p, i);
        proof {
            let s = t@.skip(p as int);
            assert(s.len() > 0);
            assert(first_newline(s) == i - p);
            if i < t@.len() {
                assert(s.subrange(0, i - p) =~= t@.subrange(p as int, i as int));
                assert(s.subrange(i - p + 1, s.len() as int) =~= t@.skip(i as int + 1));
                assert(split_lines(s) == seq![line@] + split_lines(t@.skip(i as int + 1)));
            } else {
                assert(s =~= t@.subrange(p as int, i as int));
                assert(split_lines(s) == seq![line@]);
                assert(split_lines(t@.skip(i as int)) =~= Seq::<Seq<char>>::empty());
            }
        }
        let ghost old_r = r@;
        r.push(line);
        proof {
            assert(r@.map_values(|l: Vec<char>| l@) =~= old_r.map_values(|l: Vec<char>| l@)
                + seq![line@]);
            if i < t@.len() {
                assert(old_r.map_values(|l: Vec<char>| l@) + seq![line@] + split_lines(
                    t@.skip(i as int + 1),
                ) =~= old_r.map_values(|l: Vec<char>| l@) + split_lines(t@.skip(p as int)));
            } else {
                assert(old_r.map_values(|l: Vec<char>| l@) + seq![line@] + split_lines(
                    t@.skip(i as int),
                ) =~= old_r.map_values(|l: Vec<char>| l@) + split_lines(t@.skip(p as int)));
            }
        }
        if i < t.len() {
            p = i + 1;
        } else {
            p = i;
        }
    }
    proof {
        assert(split_lines(t@.skip(p as int)) =~= Seq::<Seq<char>>::empty());
        assert(r@.map_values(|l: Vec<char>| l@) =~= split_lines(t@));
    }
    r
}

/// Parses a whole file into its sections, or `None` if a line is malformed.
pub fn parse_ini_text(t: &Vec<char>) -> (r: Option<Vec<IniSec>>)
    ensures
        match r {
            Some(doc) => parse_ini(t@) == Some(doc_view(doc@)),
            None => parse_ini(t@) is None,
        },
{
    let lines = split_lines_exec(t);
    let mut doc: Vec<IniSec> = Vec::new();
    doc.push(IniSec { name: Vec::new(), pairs: Vec::new() });
    proof {
        assert(doc_view(doc@) =~~= seq![top_section()]);
        assert(lines@.map_values(|l: Vec<char>| l@).skip(0) =~= lines@.map_values(
            |l: Vec<char>| l@,
        ));
    }
    let mut j: usize = 0;
    while j < lines.len()
        invariant
            j <= lines@.len(),
            lines@.map_values(|l: Vec<char>| l@) == split_lines(t@),
            doc@.len() > 0,
            parse_ini(t@) == parse_lines_from(
                doc_view(doc@),
                lines@.map_values(|l: Vec<char>| l@).skip(j as int),
            ),
        decreases lines@.len() - j,
    {
        let line = &lines[j];
        let ghost rem = lines@.map_values(|l: Vec<char>| l@).skip(j as int);
        proof {
            assert(rem.len() > 0);
            assert(rem[0] == line@);
            assert(rem.drop_first() =~= lines@.map_values(|l: Vec<char>| l@).skip(j as int + 1));
        }
        let tr = trim_chars(line);
        if tr.len() == 0 {
            proof {
                assert(classify(line@) is Blank);
            }
        } else if tr[0] == '#' {
            proof {
                assert(classify(line@) is Comment);
            }
        } else if tr[0] == '[' {
            if tr[tr.len() - 1] == ']' {
                let inner = subvec(&tr, 1, tr.len() - 1);
                let name = trim_chars(&inner);
                proof {
                    assert(classify(line@) == LineKind::Header(name@));
                }
                let ghost old_doc = doc_view(doc@);
                doc.push(IniSec { name, pairs: Vec::new() });
                proof {
                    assert(doc_view(doc@) =~~= old_doc.push(
                        SecModel { name: trim(trim(line@).subrange(1, trim(line@).len() - 1)), pairs: Seq::empty() },
                    ));
                }
            } else {
                proof {
                    assert(classify(line@) is Malformed);
                }
                return None;
            }
        } else {
            let i = find_from(&tr, 0, '=');
            proof {
                assert(tr@.skip(0) =~= tr@);
            }
            if i == tr.len() {
                proof {
                    assert(char_index(tr@, '=') == tr@.len());
                    assert(classify(line@) is Malformed);
                }
                return None;
            }
            let kpart = subvec(&tr, 0, i);
            let k = trim_chars(&kpart);
            if k.len() == 0 {
                proof {
                    assert(classify(line@) is Malformed);
                }
                return None;
            }
            let vpart = subvec(&tr, i + 1, tr.len());
            let v = trim_chars(&vpart);
            proof {
                assert(classify(line@) == LineKind::Pair(k@, v@));
            }
            let ghost old_doc = doc_view(doc@);
            let mut last = doc.pop().unwrap();
            last.pairs.push((k, v));
            doc.push(last);
            proof {
                assert(doc_view(doc@) =~~= old_doc.update(
                    old_doc.len() - 1,
                    SecModel {
                        name: old_doc.last().name,
                        pairs: old_doc.last().pairs.push(
                            (
                                trim(trim(line@).subrange(0, char_index(trim(line@), '='))),
                                trim(
                                    trim(line@).subrange(
                                        char_index(trim(line@), '=') + 1,
                                        trim(line@).len() as int,
                                    ),
                                ),
                            ),
                        ),
                    },
                ));
            }
        }
        j += 1;
    }
    proof {
        assert(lines@.map_values(|l: Vec<char>| l@).skip(j as int) =~= Seq::<Seq<char>>::empty());
    }
    Some(doc)
}

/// Looks a key up among `pairs`; the last assignment wins.
pub fn pairs_lookup_exec(pairs: &Vec<(Vec<char>, Vec<char>)>, k: &Vec<char>) -> (r: Option<
    Vec<char>,
>)
    ensures
        match r {
            Some(v) => pairs_lookup(
                pairs@.map_values(|p: (Vec<char>, Vec<char>)| (p.0@, p.1@)),
                k@,
            ) == Some(v@),
            None => pairs_lookup(
                pairs@.map_values(|p: (Vec<char>, Vec<char>)| (p.0@, p.1@)),
                k@,
            ) is None,
        },
{
    let ghost pv = pairs@.map_values(|p: (Vec<char>, Vec<char>)| (p.0@, p.1@));
    let mut i: usize = pairs.len();
    assert(pv.take(i as int) =~= pv);
    while i > 0
        invariant
            i <= pairs@.len(),
            pv == pairs@.map_values(|p: (Vec<char>, Vec<char>)| (p.0@, p.1@)),
            pairs_lookup(pv, k@) == pairs_lookup(pv.take(i as int), k@),
        decreases i,
    {
        i -= 1;
        proof {
            assert(pv.take(i as int + 1).last() == pv[i as int]);
            assert(pv.take(i as int + 1).drop_last() =~= pv.take(i as int));
        }
        if chars_eq(&pairs[i].0, k) {
            return Some(copy_chars(&pairs[i].1));
        }
    }
    proof {
        assert(pv.take(0) =~= Seq::<(Seq<char>, Seq<char>)>::empty());
    }
    None
}

/// Looks a key up in the section named `name`.
pub fn section_lookup_exec(doc: &Vec<IniSec>, name: &Vec<char>, key: &Vec<char>) -> (r: Option<
    Vec<char>,
>)
    ensures
        match r {
            Some(v) => section_lookup(doc_view(doc@), name@, key@) == Some(v@),
            None => section_lookup(doc_view(doc@), name@, key@) is None,
        },
{
    let ghost dv = doc_view(doc@);
    let mut si: usize = doc.len();
    assert(dv.take(si as int) =~= dv);
    while si > 0
        invariant
            si <= doc@.len(),
            dv == doc_view(doc@),
            pairs_lookup(sec_pairs(dv, name@), key@) == pairs_lookup(
                sec_pairs(dv.take(si as int), name@),
                key@,
            ),
        decreases si,
    {
        si -= 1;
        proof {
            assert(dv.take(si as int + 1) =~= dv.take(si as int) + seq![dv[si as int]]);
            lemma_sec_pairs_append(dv.take(si as int), seq![dv[si as int]], name@);
            lemma_sec_pairs_single(dv[si as int], name@);
            lemma_pairs_lookup_append(
                sec_pairs(dv.take(si as int), name@),
                sec_pairs(seq![dv[si as int]], name@),
                key@,
            );
        }
        if chars_eq(&doc[si].name, name) {
            match pairs_lookup_exec(&doc[si].pairs, key) {
                Some(v) => {
                    return Some(v);
                },
                None => {
                    proof {
                        assert(pairs_lookup(
                            sec_pairs(dv.take(si as int + 1), name@),
                            key@,
                        ) == pairs_lookup(sec_pairs(dv.take(si as int), name@), key@));
                    }
                },
            }
        } else {
            proof {
                assert(sec_pairs(dv.take(si as int + 1), name@) =~= sec_pairs(
                    dv.take(si as int),
                    name@,
                ));
            }
        }
    }
    proof {
        assert(dv.take(0) =~= Seq::<SecModel>::empty());
    }
    None
}

/// Probes the fixed section-name order for `key`.
pub fn probe_exec(doc: &Vec<IniSec>, key: &Vec<char>) -> (r: Option<Vec<char>>)
    ensures
        match r {
            Some(v) => probe(doc_view(doc@), key@) == Some(v@),
            None => probe(doc_view(doc@), key@) is None,
        },
{
    let ghost dv = doc_view(doc@);
    let empty_name: Vec<char> = Vec::new();
    proof {
        assert(probe_names()[0] == Seq::<char>::empty());
        assert(empty_name@ == probe_names()[0]);
    }
    match section_lookup_exec(doc, &empty_name, key) {
        Some(v) => {
            return Some(v);
        },
        None => {
            proof {
                assert(probe_from(dv, key@, 0) == probe_from(dv, key@, 1));
            }
        },
    }
    let name = crate::text::str_to_chars("main");
    proof {
        assert(name@ == probe_names()[1]);
    }
    match section_lookup_exec(doc, &name, key) {
        Some(v) => {
            return Some(v);
        },
        None => {
            proof {
                assert(probe_from(dv, key@, 1) == probe_from(dv, key@, 2));
            }
        },
    }
    let name = crate::text::str_to_chars("test");
    proof {
        assert(name@ == probe_names()[2]);
    }
    match section_lookup_exec(doc, &name, key) {
        Some(v) => {
            return Some(v);
        },
        None => {
            proof {
                assert(probe_from(dv, key@, 2) == probe_from(dv, key@, 3));
            }
        },
    }
    let name = crate::text::str_to_chars("signet");
    proof {
        assert(name@ == probe_names()[3]);
    }
    match section_lookup_exec(doc, &name, key) {
        Some(v) => {
            return Some(v);
        },
        None => {
            proof {
                assert(probe_from(dv, key@, 3) == probe_from(dv, key@, 4));
            }
        },
    }
    let name = crate::text::str_to_chars("regtest");
    proof {
        assert(name@ == probe_names()[4]);
    }
    match section_lookup_exec(doc, &name, key) {
        Some(v) => {
            return Some(v);
        },
        None => {
            proof {
                assert(probe_from(dv, key@, 4) == probe_from(dv, key@, 5));
                assert(probe_from(dv, key@, 5) is None);
            }
        },
    }
    None
}

} // verus!
