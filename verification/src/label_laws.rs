//! What holds between reading and writing a label line: a line that
//! parses is written back as it stood, and the labels that come from
//! lines are exactly the canonical ones, which are read back as they were
//! written.

use vstd::prelude::*;
use crate::neutrino_label::{
    join_fields, join_fields_upto, join_sections_upto, lemma_marker_index, lemma_marker_index_is,
    line_of, marker_at, marker_index, parse_line, parse_sections, section_delims, section_marker,
    section_texts, split_fields, split_fields_from, split_sections_from, ParseErrorView,
};
use crate::text::{
    index_of_from, lemma_index_of_from, lemma_index_of_from_is, lemma_index_of_from_skip,
};

verus! {

/// Whether fields can be told apart in their section's text: there is one
/// more of them than separators, none is empty, and none but the last
/// holds its own separator after its first character.
pub open spec fn fields_canonical(fields: Seq<Seq<char>>, delims: Seq<char>) -> bool {
    &&& fields.len() == delims.len() + 1
    &&& forall|i: int| 0 <= i < fields.len() ==> (#[trigger] fields[i]).len() > 0
    &&& forall|i: int, j: int|
        0 <= i < delims.len() && 1 <= j < fields[i].len() ==> #[trigger] fields[i][j] != delims[i]
}

/// Whether a label can be read back from its line: the fields of every
/// section can be told apart, no section but the last holds the marker of
/// the next one, and the line holds no line feed.
pub open spec fn canonical(sections: Seq<Seq<Seq<char>>>) -> bool {
    &&& sections.len() == 11
    &&& forall|k: int| 0 <= k < 11 ==> fields_canonical(#[trigger] sections[k], section_delims(k))
    &&& forall|k: int, i: int|
        0 <= k < 10 ==> !#[trigger] marker_at(section_texts(sections)[k], k + 1, i)
    &&& !line_of(sections).contains('\n')
}

/// Joining a first field to a joined rest.
pub(crate) proof fn lemma_join_fields_cons(
    a: Seq<char>,
    rest: Seq<Seq<char>>,
    d: char,
    ds: Seq<char>,
    n: int,
)
    requires
        1 <= n <= rest.len(),
        n <= ds.len() + 1,
    ensures
        join_fields_upto(seq![a] + rest, seq![d] + ds, n + 1) == a + seq![d] + join_fields_upto(
            rest,
            ds,
            n,
        ),
    decreases n,
{
    let fields = seq![a] + rest;
    let delims = seq![d] + ds;
    if n == 1 {
        assert(join_fields_upto(fields, delims, 1) == a);
        assert(join_fields_upto(fields, delims, 2) == a + seq![d] + rest[0]);
    } else {
        lemma_join_fields_cons(a, rest, d, ds, n - 1);
        assert(fields[n] == rest[n - 1]);
        assert(delims[n - 1] == ds[n - 2]);
        assert(join_fields_upto(fields, delims, n + 1) =~= a + seq![d] + (join_fields_upto(
            rest,
            ds,
            n - 1,
        ) + seq![ds[n - 2]] + rest[n - 1]));
    }
}

/// The fields that a text splits into join to that text, are one more than
/// the separators, and are not empty.
pub proof fn lemma_split_fields_join(s: Seq<char>, from: int, delims: Seq<char>)
    requires
        0 <= from <= s.len(),
        split_fields_from(s, from, delims) is Some,
    ensures
        split_fields_from(s, from, delims)->0.len() == delims.len() + 1,
        join_fields(split_fields_from(s, from, delims)->0, delims) == s.skip(from),
        forall|i: int|
            0 <= i <= delims.len() ==> (#[trigger] split_fields_from(s, from, delims)->0[i]).len()
                > 0,
        fields_canonical(split_fields_from(s, from, delims)->0, delims),
    decreases delims.len(),
{
    let f = split_fields_from(s, from, delims)->0;
    if delims.len() == 0 {
        assert(join_fields_upto(f, delims, 1) == f[0]);
    } else {
        let d = delims[0];
        let ds = delims.drop_first();
        let p = index_of_from(s, d, from + 1);
        lemma_index_of_from(s, d, from + 1);
        lemma_split_fields_join(s, p + 1, ds);
        let rest = split_fields_from(s, p + 1, ds)->0;
        let a = s.subrange(from, p);
        assert(f == seq![a] + rest);
        assert(delims =~= seq![d] + ds);
        lemma_join_fields_cons(a, rest, d, ds, rest.len() as int);
        assert(a + seq![d] + s.skip(p + 1) =~= s.skip(from));
        assert forall|i: int| 0 <= i <= delims.len() implies (#[trigger] f[i]).len() > 0 by {
            if i > 0 {
                assert(f[i] == rest[i - 1]);
            }
        }
        assert forall|i: int, j: int|
            0 <= i < delims.len() && 1 <= j < f[i].len() implies #[trigger] f[i][j]
            != delims[i] by {
            if i > 0 {
                assert(f[i] == rest[i - 1]);
                assert(delims[i] == ds[i - 1]);
            } else {
                assert(f[0][j] == s[from + j]);
            }
        }
    }
}

/// Joining a first section text to a joined rest.
pub(crate) proof fn lemma_join_sections_cons(a: Seq<char>, rest: Seq<Seq<char>>, first: int, n: int)
    requires
        1 <= n <= rest.len(),
    ensures
        join_sections_upto(seq![a] + rest, first, n + 1) == a + section_marker(first + 1)
            + join_sections_upto(rest, first + 1, n),
    decreases n,
{
    let texts = seq![a] + rest;
    if n == 1 {
        assert(join_sections_upto(texts, first, 1) == a);
        assert(join_sections_upto(texts, first, 2) == a + section_marker(first + 1) + rest[0]);
    } else {
        lemma_join_sections_cons(a, rest, first, n - 1);
        assert(texts[n] == rest[n - 1]);
        assert(join_sections_upto(texts, first, n + 1) =~= a + section_marker(first + 1) + (
        join_sections_upto(rest, first + 1, n - 1) + section_marker(first + n) + rest[n - 1]));
    }
}

/// The section texts that a line splits into join to that line.
pub(crate) proof fn lemma_split_sections_join(s: Seq<char>, from: int, k: int)
    requires
        0 <= from <= s.len(),
        0 <= k <= 10,
        split_sections_from(s, from, k) is Some,
    ensures
        split_sections_from(s, from, k)->0.len() == 11 - k,
        join_sections_upto(split_sections_from(s, from, k)->0, k, 11 - k) == s.skip(from),
    decreases 10 - k,
{
    let t = split_sections_from(s, from, k)->0;
    if k < 10 {
        let p = marker_index(s, k + 1, from);
        lemma_marker_index(s, k + 1, from);
        lemma_split_sections_join(s, p + 3, k + 1);
        let rest = split_sections_from(s, p + 3, k + 1)->0;
        let a = s.subrange(from, p);
        assert(t == seq![a] + rest);
        lemma_join_sections_cons(a, rest, k, 10 - k);
        assert(section_marker(k + 1) =~= s.subrange(p, p + 3));
        assert(a + s.subrange(p, p + 3) + s.skip(p + 3) =~= s.skip(from));
    }
}

/// What the section texts parse to: one list of fields for each of them.
pub(crate) proof fn lemma_parse_sections(texts: Seq<Seq<char>>, k: int)
    requires
        0 <= k <= 11,
        parse_sections(texts, k) is Ok,
    ensures
        parse_sections(texts, k)->Ok_0.len() == 11 - k,
        forall|i: int|
            0 <= i < 11 - k ==> split_fields(texts[k + i], section_delims(k + i)) == Some(
                #[trigger] parse_sections(texts, k)->Ok_0[i],
            ),
    decreases 11 - k,
{
    if k < 11 {
        lemma_parse_sections(texts, k + 1);
        let r = parse_sections(texts, k)->Ok_0;
        let rest = parse_sections(texts, k + 1)->Ok_0;
        assert forall|i: int| 0 <= i < 11 - k implies split_fields(
            texts[k + i],
            section_delims(k + i),
        ) == Some(#[trigger] r[i]) by {
            if i > 0 {
                assert(r[i] == rest[i - 1]);
            }
        }
    }
}

/// A line that parses is the line of what it parses to: writing the label
/// gives the line back, character for character.
pub proof fn lemma_parse_then_emit(line: Seq<char>)
    requires
        parse_line(line) is Ok,
    ensures
        line_of(parse_line(line)->Ok_0) == line,
{
    let texts = split_sections_from(line, 0, 0)->0;
    let sections = parse_line(line)->Ok_0;
    lemma_split_sections_join(line, 0, 0);
    lemma_parse_sections(texts, 0);
    assert forall|k: int| 0 <= k < 11 implies join_fields(sections[k], section_delims(k))
        == texts[k] by {
        assert(split_fields(texts[k], section_delims(k)) == Some(sections[k]));
        lemma_split_fields_join(texts[k], 0, section_delims(k));
        assert(texts[k].skip(0) =~= texts[k]);
    }
    assert(section_texts(sections) =~= texts);
    assert(line.skip(0) =~= line);
}

/// Splitting what is left of a text gives what splitting the text from
/// there gives.
pub(crate) proof fn lemma_split_fields_skip(s: Seq<char>, a: int, from: int, delims: Seq<char>)
    requires
        0 <= a <= from <= s.len(),
    ensures
        split_fields_from(s.skip(a), from - a, delims) == split_fields_from(s, from, delims),
    decreases delims.len(),
{
    let t = s.skip(a);
    if delims.len() == 0 {
        assert(t.skip(from - a) =~= s.skip(from));
    } else {
        if from < s.len() {
            lemma_index_of_from_skip(s, delims[0], a, from + 1);
            let p = index_of_from(s, delims[0], from + 1);
            lemma_index_of_from(s, delims[0], from + 1);
            if p < s.len() {
                lemma_split_fields_skip(s, a, p + 1, delims.drop_first());
                assert(t.subrange(from - a, p - a) =~= s.subrange(from, p));
            }
        }
    }
}

/// Fields that can be told apart are read back from their section's text.
pub proof fn lemma_join_then_split(fields: Seq<Seq<char>>, delims: Seq<char>)
    requires
        fields_canonical(fields, delims),
    ensures
        split_fields(join_fields(fields, delims), delims) == Some(fields),
    decreases delims.len(),
{
    let s = join_fields(fields, delims);
    if delims.len() == 0 {
        assert(join_fields_upto(fields, delims, 1) == fields[0]);
        assert(s.skip(0) =~= s);
        assert(seq![s] =~= fields);
    } else {
        let a = fields[0];
        let rest = fields.drop_first();
        let d = delims[0];
        let ds = delims.drop_first();
        assert(fields =~= seq![a] + rest);
        assert(delims =~= seq![d] + ds);
        lemma_join_fields_cons(a, rest, d, ds, rest.len() as int);
        let tail = join_fields(rest, ds);
        assert(s == a + seq![d] + tail);
        assert forall|j: int| 1 <= j < a.len() implies s[j] != d by {
            assert(s[j] == fields[0][j]);
        }
        assert(s[a.len() as int] == d);
        lemma_index_of_from_is(s, d, 1, a.len() as int);
        assert(fields_canonical(rest, ds)) by {
            assert forall|i: int| 0 <= i < rest.len() implies (#[trigger] rest[i]).len() > 0 by {
                assert(rest[i] == fields[i + 1]);
            }
            assert forall|i: int, j: int|
                0 <= i < ds.len() && 1 <= j < rest[i].len() implies #[trigger] rest[i][j]
                != ds[i] by {
                assert(rest[i] == fields[i + 1]);
                assert(ds[i] == delims[i + 1]);
                assert(fields[i + 1][j] != delims[i + 1]);
            }
        }
        lemma_join_then_split(rest, ds);
        let after = a.len() as int + 1;
        lemma_split_fields_skip(s, after, after, ds);
        assert(s.skip(after) =~= tail);
        assert(s.subrange(0, a.len() as int) =~= a);
    }
}

/// Searching a marker in what is left of a line finds what searching in
/// the line finds.
pub(crate) proof fn lemma_marker_index_skip(s: Seq<char>, k: int, a: int, from: int)
    requires
        0 <= a <= from <= s.len(),
    ensures
        marker_index(s.skip(a), k, from - a) == marker_index(s, k, from) - a,
    decreases s.len() - from,
{
    let t = s.skip(a);
    if from + 3 <= s.len() {
        assert(t[from - a] == s[from]);
        assert(t[from - a + 1] == s[from + 1]);
        assert(t[from - a + 2] == s[from + 2]);
        if !marker_at(s, k, from) {
            lemma_marker_index_skip(s, k, a, from + 1);
        }
    }
}

/// Splitting what is left of a line into sections gives what splitting
/// the line from there gives.
pub(crate) proof fn lemma_split_sections_skip(s: Seq<char>, a: int, from: int, k: int)
    requires
        0 <= a <= from <= s.len(),
    ensures
        split_sections_from(s.skip(a), from - a, k) == split_sections_from(s, from, k),
    decreases 10 - k,
{
    let t = s.skip(a);
    if k >= 10 {
        assert(t.skip(from - a) =~= s.skip(from));
    } else {
        lemma_marker_index_skip(s, k + 1, a, from);
        lemma_marker_index(s, k + 1, from);
        let p = marker_index(s, k + 1, from);
        if p < s.len() {
            lemma_split_sections_skip(s, a, p + 3, k + 1);
            assert(t.subrange(from - a, p - a) =~= s.subrange(from, p));
        }
    }
}

/// Section texts that hold no marker of the section after them are read
/// back from the line that joins them.
pub(crate) proof fn lemma_join_then_split_sections(texts: Seq<Seq<char>>, k: int)
    requires
        0 <= k <= 10,
        texts.len() == 11 - k,
        forall|m: int, i: int| 0 <= m < 10 - k ==> !#[trigger] marker_at(texts[m], k + m + 1, i),
    ensures
        split_sections_from(join_sections_upto(texts, k, 11 - k), 0, k) == Some(texts),
    decreases 10 - k,
{
    let s = join_sections_upto(texts, k, 11 - k);
    if k == 10 {
        assert(s == texts[0]);
        assert(s.skip(0) =~= s);
        assert(seq![s] =~= texts);
    } else {
        let a = texts[0];
        let rest = texts.drop_first();
        assert(texts =~= seq![a] + rest);
        lemma_join_sections_cons(a, rest, k, 10 - k);
        let tail = join_sections_upto(rest, k + 1, 10 - k);
        let mark = section_marker(k + 1);
        assert(s == a + mark + tail);
        let n = a.len() as int;
        assert(s[n] == mark[0] && s[n + 1] == mark[1] && s[n + 2] == mark[2]);
        let next = k + 1;
        assert(marker_at(s, next, n));
        assert forall|j: int| 0 <= j < n implies !#[trigger] marker_at(s, next, j) by {
            if j + 3 <= n {
                assert(s[j] == a[j] && s[j + 1] == a[j + 1] && s[j + 2] == a[j + 2]);
                assert(!marker_at(texts[0], k + 0 + 1, j));
            } else if j + 2 == n {
                assert(s[j + 2] == '/');
            } else {
                assert(s[j + 1] == '/');
            }
        }
        lemma_marker_index_is(s, next, 0, n);
        assert forall|m: int, i: int| 0 <= m < 10 - (k + 1) implies !#[trigger] marker_at(
            rest[m],
            k + 1 + m + 1,
            i,
        ) by {
            assert(rest[m] == texts[m + 1]);
            assert(!marker_at(texts[m + 1], k + (m + 1) + 1, i));
        }
        lemma_join_then_split_sections(rest, k + 1);
        lemma_split_sections_skip(s, n + 3, n + 3, k + 1);
        assert(s.skip(n + 3) =~= tail);
        assert(s.subrange(0, n) =~= a);
    }
}

/// Section texts that all split give the fields that they split into.
pub(crate) proof fn lemma_parse_sections_ok(texts: Seq<Seq<char>>, sections: Seq<Seq<Seq<char>>>, k: int)
    requires
        0 <= k <= 11,
        texts.len() == 11,
        sections.len() == 11,
        forall|m: int|
            k <= m < 11 ==> split_fields(texts[m], section_delims(m)) == Some(
                #[trigger] sections[m],
            ),
    ensures
        parse_sections(texts, k) == Ok::<Seq<Seq<Seq<char>>>, ParseErrorView>(sections.skip(k)),
    decreases 11 - k,
{
    if k < 11 {
        lemma_parse_sections_ok(texts, sections, k + 1);
        assert(split_fields(texts[k], section_delims(k)) == Some(sections[k]));
        assert(seq![sections[k]] + sections.skip(k + 1) =~= sections.skip(k));
    } else {
        assert(sections.skip(k) =~= Seq::<Seq<Seq<char>>>::empty());
    }
}

/// A canonical label is read back from its line as it was written.
pub proof fn lemma_emit_then_parse(sections: Seq<Seq<Seq<char>>>)
    requires
        canonical(sections),
    ensures
        parse_line(line_of(sections)) == Ok::<Seq<Seq<Seq<char>>>, ParseErrorView>(sections),
{
    let texts = section_texts(sections);
    let line = line_of(sections);
    assert forall|m: int, i: int| 0 <= m < 10 - 0 implies !#[trigger] marker_at(
        texts[m],
        0 + m + 1,
        i,
    ) by {
        assert(!marker_at(section_texts(sections)[m], m + 1, i));
    }
    lemma_join_then_split_sections(texts, 0);
    assert forall|m: int| 0 <= m < 11 implies split_fields(texts[m], section_delims(m)) == Some(
        #[trigger] sections[m],
    ) by {
        lemma_join_then_split(sections[m], section_delims(m));
    }
    lemma_parse_sections_ok(texts, sections, 0);
    assert(sections.skip(0) =~= sections);
}

/// What a line parses to is canonical: the labels that come from lines are
/// the canonical ones, no others.
pub proof fn lemma_parsed_is_canonical(line: Seq<char>)
    requires
        parse_line(line) is Ok,
    ensures
        canonical(parse_line(line)->Ok_0),
{
    let texts = split_sections_from(line, 0, 0)->0;
    let sections = parse_line(line)->Ok_0;
    lemma_split_sections_join(line, 0, 0);
    lemma_parse_sections(texts, 0);
    lemma_parse_then_emit(line);
    assert forall|k: int| 0 <= k < 11 implies fields_canonical(
        #[trigger] sections[k],
        section_delims(k),
    ) && join_fields(sections[k], section_delims(k)) == texts[k] by {
        assert(split_fields(texts[k], section_delims(k)) == Some(sections[k]));
        lemma_split_fields_join(texts[k], 0, section_delims(k));
        assert(texts[k].skip(0) =~= texts[k]);
    }
    assert(section_texts(sections) =~= texts);
    lemma_split_sections_no_marker(line, 0, 0);
}

/// No section text that a line splits into holds the marker of the section
/// after it.
pub(crate) proof fn lemma_split_sections_no_marker(s: Seq<char>, from: int, k: int)
    requires
        0 <= from <= s.len(),
        0 <= k <= 10,
        split_sections_from(s, from, k) is Some,
    ensures
        forall|m: int, i: int|
            0 <= m < 10 - k ==> !#[trigger] marker_at(
                split_sections_from(s, from, k)->0[m],
                k + m + 1,
                i,
            ),
    decreases 10 - k,
{
    let t = split_sections_from(s, from, k)->0;
    if k < 10 {
        let p = marker_index(s, k + 1, from);
        lemma_marker_index(s, k + 1, from);
        lemma_split_sections_no_marker(s, p + 3, k + 1);
        lemma_split_sections_join(s, p + 3, k + 1);
        let rest = split_sections_from(s, p + 3, k + 1)->0;
        let a = s.subrange(from, p);
        assert(t == seq![a] + rest);
        assert forall|m: int, i: int| 0 <= m < 10 - k implies !#[trigger] marker_at(
            t[m],
            k + m + 1,
            i,
        ) by {
            if m == 0 {
                if marker_at(a, k + 1, i) {
                    assert(a[i] == s[from + i] && a[i + 1] == s[from + i + 1] && a[i + 2] == s[from
                        + i + 2]);
                    assert(marker_at(s, k + 1, from + i));
                }
            } else {
                assert(t[m] == rest[m - 1]);
                assert(!marker_at(rest[m - 1], (k + 1) + (m - 1) + 1, i));
            }
        }
    }
}

} // verus!
