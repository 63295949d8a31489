//! What holds between writing and reading a timing label file: the file
//! that is written for timings is read back as those timings, cut to whole
//! units of 100 nanoseconds.

use vstd::prelude::*;
use crate::engine::{label_file_line, timing_file_upto};
use crate::synthesizer::{
    is_space, line_entry, next_where, prepend_timings, time_value, timing_labels_from,
    TimingErrorView, TimingLabelView,
};
use crate::text::{
    decimal, index_of_from, is_digit, lemma_decimal_digits, lemma_index_of_from,
    lemma_index_of_from_is, lemma_index_of_from_skip, lemma_parse_decimal,
};

verus! {

/// Whether `s` is a word: it is not empty and holds no white space.
pub open spec fn is_word(s: Seq<char>) -> bool {
    s.len() > 0 && forall|i: int| 0 <= i < s.len() ==> !is_space(#[trigger] s[i])
}

/// A timing with its times cut to whole units of 100 nanoseconds.
pub open spec fn cut_to_units(t: TimingLabelView) -> TimingLabelView {
    TimingLabelView {
        start_time_ns: (t.start_time_ns / 100 * 100) as u64,
        end_time_ns: (t.end_time_ns / 100 * 100) as u64,
        phoneme: t.phoneme,
    }
}

/// A position before which the white-space test never gives `space`, and
/// at which it does or the text ends, is what `next_where` finds.
pub(crate) proof fn lemma_next_where_is(s: Seq<char>, from: int, space: bool, p: int)
    requires
        0 <= from <= p <= s.len(),
        forall|j: int| from <= j < p ==> is_space(#[trigger] s[j]) != space,
        p < s.len() ==> is_space(s[p]) == space,
    ensures
        next_where(s, from, space) == p,
    decreases p - from,
{
    if from < p {
        lemma_next_where_is(s, from + 1, space, p);
    }
}

/// The timing file of a first timing and more timings is the line of the
/// first and the file of the others.
pub(crate) proof fn lemma_timing_file_cons(first: TimingLabelView, rest: Seq<TimingLabelView>, n: int)
    requires
        0 <= n <= rest.len(),
    ensures
        timing_file_upto(seq![first] + rest, n + 1) == label_file_line(
            first.start_time_ns,
            first.end_time_ns,
            first.phoneme,
        ) + timing_file_upto(rest, n),
    decreases n,
{
    let all = seq![first] + rest;
    let line = label_file_line(first.start_time_ns, first.end_time_ns, first.phoneme);
    if n == 0 {
        assert(timing_file_upto(all, 0) =~= Seq::<char>::empty());
        assert(timing_file_upto(all, 1) =~= line + timing_file_upto(rest, 0));
    } else {
        lemma_timing_file_cons(first, rest, n - 1);
        assert(all[n] == rest[n - 1]);
        let last = label_file_line(
            rest[n - 1].start_time_ns,
            rest[n - 1].end_time_ns,
            rest[n - 1].phoneme,
        );
        assert((line + timing_file_upto(rest, n - 1)) + last =~= line + (timing_file_upto(
            rest,
            n - 1,
        ) + last));
    }
}

/// Reading what is left of a file gives what reading the file from there
/// gives.
pub(crate) proof fn lemma_timing_labels_skip(s: Seq<char>, from: int)
    requires
        0 <= from <= s.len(),
    ensures
        timing_labels_from(s.skip(from), 0) == timing_labels_from(s, from),
    decreases s.len() - from,
{
    let t = s.skip(from);
    lemma_index_of_from_skip(s, '\n', from, from);
    lemma_index_of_from(s, '\n', from);
    let e = index_of_from(s, '\n', from);
    assert(t.subrange(0, e - from) =~= s.subrange(from, e));
    if e < s.len() {
        lemma_timing_labels_skip(s, e + 1);
        lemma_timing_labels_skip(t, e - from + 1);
        assert(t.skip(e - from + 1) =~= s.skip(e + 1));
    }
}

/// One line of a timing file holds its timing, cut to whole units.
pub(crate) proof fn lemma_line_entry(t: TimingLabelView)
    requires
        is_word(t.phoneme),
    ensures
        ({
            let line = label_file_line(t.start_time_ns, t.end_time_ns, t.phoneme);
            &&& line.len() > 0
            &&& line.last() == '\n'
            &&& forall|j: int| 0 <= j < line.len() - 1 ==> line[j] != '\n'
            &&& line_entry(line.drop_last()) == Ok::<Option<TimingLabelView>, TimingErrorView>(
                Some(cut_to_units(t)),
            )
        }),
{
    let x = (t.start_time_ns / 100) as nat;
    let y = (t.end_time_ns / 100) as nat;
    let d1 = decimal(x);
    let d2 = decimal(y);
    let ph = t.phoneme;
    let line = label_file_line(t.start_time_ns, t.end_time_ns, ph);
    let m = line.drop_last();
    lemma_decimal_digits(x);
    lemma_decimal_digits(y);
    lemma_parse_decimal(x);
    lemma_parse_decimal(y);
    let n1 = d1.len() as int;
    let n2 = d2.len() as int;
    let n3 = ph.len() as int;
    assert(m =~= d1 + seq![' '] + d2 + seq![' '] + ph);
    assert(m.len() == n1 + 1 + n2 + 1 + n3);
    assert forall|j: int| 0 <= j < m.len() implies (if j < n1 {
        #[trigger] m[j] == d1[j]
    } else if j == n1 {
        m[j] == ' '
    } else if j < n1 + 1 + n2 {
        m[j] == d2[j - n1 - 1]
    } else if j == n1 + 1 + n2 {
        m[j] == ' '
    } else {
        m[j] == ph[j - n1 - n2 - 2]
    }) by {}
    assert(is_space(' '));
    assert(is_space('\n'));
    assert forall|j: int| 0 <= j < n1 implies !is_space(#[trigger] m[j]) by {
        assert(m[j] == d1[j]);
        assert(is_digit(d1[j]));
    }
    assert forall|j: int| n1 + 1 <= j < n1 + 1 + n2 implies !is_space(#[trigger] m[j]) by {
        assert(m[j] == d2[j - n1 - 1]);
        assert(is_digit(d2[j - n1 - 1]));
    }
    assert forall|j: int| n1 + n2 + 2 <= j < m.len() implies !is_space(#[trigger] m[j]) by {
        assert(m[j] == ph[j - n1 - n2 - 2]);
    }
    assert(m[n1] == ' ');
    assert(m[n1 + 1 + n2] == ' ');
    lemma_next_where_is(m, 0, false, 0);
    lemma_next_where_is(m, 0, true, n1);
    lemma_next_where_is(m, n1, false, n1 + 1);
    lemma_next_where_is(m, n1 + 1, true, n1 + 1 + n2);
    lemma_next_where_is(m, n1 + 1 + n2, false, n1 + n2 + 2);
    lemma_next_where_is(m, n1 + n2 + 2, true, m.len() as int);
    assert(m.subrange(0, n1) =~= d1);
    assert(m.subrange(n1 + 1, n1 + 1 + n2) =~= d2);
    assert(m.subrange(n1 + n2 + 2, m.len() as int) =~= ph);
    assert(time_value(d1) == Some((x * 100) as u64));
    assert(time_value(d2) == Some((y * 100) as u64));
    assert forall|j: int| 0 <= j < line.len() - 1 implies line[j] != '\n' by {
        assert(line[j] == m[j]);
        if j == n1 || j == n1 + 1 + n2 {
        } else {
            assert(!is_space(m[j]));
        }
    }
}

/// The file that is written for timings whose phonemes are words is read
/// back as those timings, with the times cut to whole units of 100
/// nanoseconds.
pub proof fn lemma_format_then_parse_timings(timings: Seq<TimingLabelView>)
    requires
        forall|i: int| 0 <= i < timings.len() ==> is_word((#[trigger] timings[i]).phoneme),
    ensures
        timing_labels_from(timing_file_upto(timings, timings.len() as int), 0) == Ok::<
            Seq<TimingLabelView>,
            TimingErrorView,
        >(Seq::new(timings.len(), |i: int| cut_to_units(timings[i]))),
    decreases timings.len(),
{
    let file = timing_file_upto(timings, timings.len() as int);
    let want = Seq::new(timings.len(), |i: int| cut_to_units(timings[i]));
    if timings.len() == 0 {
        assert(file =~= Seq::<char>::empty());
        assert(file.subrange(0, 0) =~= file);
        assert(want =~= Seq::<TimingLabelView>::empty());
        assert(line_entry(file) == Ok::<Option<TimingLabelView>, TimingErrorView>(None));
    } else {
        let first = timings[0];
        let rest = timings.drop_first();
        assert(timings =~= seq![first] + rest);
        lemma_timing_file_cons(first, rest, rest.len() as int);
        let line = label_file_line(first.start_time_ns, first.end_time_ns, first.phoneme);
        let tail = timing_file_upto(rest, rest.len() as int);
        assert(file == line + tail);
        lemma_line_entry(first);
        let e = line.len() - 1;
        assert forall|j: int| 0 <= j < e implies file[j] != '\n' by {
            assert(file[j] == line[j]);
        }
        assert(file[e] == '\n');
        lemma_index_of_from_is(file, '\n', 0, e);
        assert(file.subrange(0, e) =~= line.drop_last());
        assert forall|i: int| 0 <= i < rest.len() implies is_word((#[trigger] rest[i]).phoneme) by {
            assert(rest[i] == timings[i + 1]);
        }
        lemma_format_then_parse_timings(rest);
        lemma_timing_labels_skip(file, e + 1);
        assert(file.skip(e + 1) =~= tail);
        let rest_want = Seq::new(rest.len(), |i: int| cut_to_units(rest[i]));
        assert(seq![cut_to_units(first)] + rest_want =~= want);
        assert(timing_labels_from(file, 0) == prepend_timings(
            seq![cut_to_units(first)],
            timing_labels_from(file, e + 1),
        ));
    }
}

} // verus!
