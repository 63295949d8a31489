//! What holds of a task as a whole, where the lyrics decide the phonemes
//! and the backend times every phoneme as the labels of the score state
//! it: the phonemes of the answer lie in their note, one after the other.

use vstd::prelude::*;
use crate::engine::{
    labels_upto, merged_group_count, merged_part, merged_upto, note_phonemes_of, note_timings,
    taken_upto, to_caller_time,
};
use crate::neutrino_score::{
    cursor_after, duration_ns, lemma_duration_ns_range, lemma_note_labels_partition,
    lemma_phoneme_time_range, lemma_phonemes_upto_monotonic, lemma_point_at, lemma_points_len,
    lemma_range_ordered, lengths_in_range, note_end_ns, note_points, note_start_ns, phonemes_upto,
    point_end_ns, point_start_ns, points_of, range_end, range_start, total_phonemes, NoteView,
    ScoreView,
};
use crate::synthesizer::{
    katakana_of, mora_phonemes, mora_table, task_note_length,
    task_note_phonemes, task_notes_upto, task_pau_note, task_score, task_score_note,
    SynthesisNoteView, TimingLabelView,
};

verus! {

/// A time cut to whole units of 100 nanoseconds, as a label file states
/// it.
pub open spec fn cut_ns(t: int) -> int {
    t / 100 * 100
}

/// Whether the lyric decides the phonemes of every note: the caller states
/// none.
pub open spec fn lyrics_decide(notes: Seq<SynthesisNoteView>) -> bool {
    forall|i: int| 0 <= i < notes.len() ==> (#[trigger] notes[i]).phonemes.len() == 0
}

/// Whether the timings replay the labels of the score: one timing for
/// every phoneme, with the symbol and the times of its label, the times
/// cut to whole units.
pub open spec fn replays(timings: Seq<TimingLabelView>, score: ScoreView) -> bool {
    &&& timings.len() == total_phonemes(score.notes)
    &&& forall|k: int|
        0 <= k < timings.len() ==> {
            &&& (#[trigger] timings[k]).start_time_ns == cut_ns(point_start_ns(score, k))
            &&& timings[k].end_time_ns == cut_ns(point_end_ns(score, k))
            &&& timings[k].phoneme == points_of(score.notes)[k].symbol
        }
}

/// The timings grouped by the notes of the score.
pub open spec fn groups_of(
    notes: Seq<NoteView>,
    timings: Seq<TimingLabelView>,
) -> Seq<Seq<TimingLabelView>> {
    Seq::new(notes.len(), |m: int| note_timings(notes, timings, m))
}

/// A lyric has one phoneme or two.
pub(crate) proof fn lemma_mora_phonemes_len(mora: Seq<char>, katakana: Seq<char>)
    requires
        mora_phonemes(mora, katakana) is Ok,
    ensures
        1 <= mora_phonemes(mora, katakana)->Ok_0.len() <= 2,
{
    lemma_mora_table_len(mora);
    lemma_mora_table_len(katakana);
}

/// The table lists one phoneme or two for a mora.
pub(crate) proof fn lemma_mora_table_len(key: Seq<char>)
    ensures
        mora_table(key) is Some ==> 1 <= mora_table(key)->0.len() <= 2,
{
}

/// The score notes of the first `m` task notes: the leading silent note,
/// then the score note of every task note.
pub(crate) proof fn lemma_task_notes(notes: Seq<SynthesisNoteView>, m: int)
    requires
        0 <= m <= notes.len(),
        task_notes_upto(notes, m) is Ok,
    ensures
        task_notes_upto(notes, m)->Ok_0.len() == m + 1,
        task_notes_upto(notes, m)->Ok_0[0] == task_pau_note(0),
        forall|i: int|
            1 <= i <= m ==> task_note_phonemes(notes[i - 1]) is Ok && #[trigger] task_notes_upto(
                notes,
                m,
            )->Ok_0[i] == task_score_note(
                notes[i - 1],
                notes[0].start_time_ns as int,
                task_note_phonemes(notes[i - 1])->Ok_0,
            ),
    decreases m,
{
    if m > 0 {
        lemma_task_notes(notes, m - 1);
        let before = task_notes_upto(notes, m - 1)->Ok_0;
        let done = task_notes_upto(notes, m)->Ok_0;
        assert forall|i: int| 1 <= i <= m implies task_note_phonemes(notes[i - 1]) is Ok
            && #[trigger] done[i] == task_score_note(
            notes[i - 1],
            notes[0].start_time_ns as int,
            task_note_phonemes(notes[i - 1])->Ok_0,
        ) by {
            if i < m {
                assert(done[i] == before[i]);
            }
        }
    }
}

/// The shape of the score of a task whose lyrics decide: two notes more
/// than the task has, every one with a length that fits and with one
/// phoneme or two, at the synthesis tempo.
pub(crate) proof fn lemma_task_score_shape(notes: Seq<SynthesisNoteView>)
    requires
        task_score(notes) is Ok,
        lyrics_decide(notes),
    ensures
        task_score(notes)->Ok_0.notes.len() == notes.len() + 2,
        task_score(notes)->Ok_0.tempo == 60000,
        lengths_in_range(task_score(notes)->Ok_0.notes),
        forall|m: int|
            0 <= m < notes.len() + 2 ==> 1 <= (#[trigger] task_score(
                notes,
            )->Ok_0.notes[m]).phonemes.len() <= 2,
{
    let n = notes.len() as int;
    let done = task_notes_upto(notes, n)->Ok_0;
    let score = task_score(notes)->Ok_0;
    lemma_task_notes(notes, n);
    assert(score.notes.len() == n + 2);
    assert forall|m: int| 0 <= m < n + 2 implies 1 <= (#[trigger] score.notes[m]).phonemes.len()
        <= 2 && i32::MIN <= score.notes[m].length <= i32::MAX by {
        if 1 <= m <= n {
            assert(score.notes[m] == done[m]);
            let note = notes[m - 1];
            assert(note.phonemes.len() == 0);
            lemma_mora_phonemes_len(note.lyric, katakana_of(note.lyric));
            assert(0 <= task_note_length(note) <= i32::MAX);
        } else if m == 0 {
            assert(score.notes[0] == done[0]);
        }
    }
}

/// The groups of the first `m` notes hold as many timings as the notes
/// have phonemes.
pub(crate) proof fn lemma_groups_len(notes: Seq<NoteView>, timings: Seq<TimingLabelView>, m: int)
    requires
        timings.len() == total_phonemes(notes),
        0 <= m <= notes.len(),
    ensures
        labels_upto(groups_of(notes, timings), m) == phonemes_upto(notes, m),
        0 <= phonemes_upto(notes, m) <= timings.len(),
        m > 0 ==> groups_of(notes, timings)[m - 1].len() == notes[m - 1].phonemes.len(),
    decreases m,
{
    lemma_phonemes_upto_monotonic(notes, m, notes.len() as int);
    lemma_points_len(notes, m);
    if m > 0 {
        lemma_groups_len(notes, timings, m - 1);
    }
}

/// Where the lyrics decide, the merged timings are those of the backend.
pub(crate) proof fn lemma_merged_is_timings(
    task_notes: Seq<SynthesisNoteView>,
    notes: Seq<NoteView>,
    timings: Seq<TimingLabelView>,
    offset_ns: i64,
    m: int,
)
    requires
        lyrics_decide(task_notes),
        notes.len() == task_notes.len() + 2,
        forall|i: int| 0 <= i < notes.len() ==> (#[trigger] notes[i]).phonemes.len() >= 1,
        timings.len() == total_phonemes(notes),
        0 <= m <= notes.len(),
    ensures
        merged_upto(task_notes, groups_of(notes, timings), offset_ns, m) == timings.take(
            phonemes_upto(notes, m),
        ),
    decreases m,
{
    let groups = groups_of(notes, timings);
    lemma_groups_len(notes, timings, m);
    if m > 0 {
        lemma_merged_is_timings(task_notes, notes, timings, offset_ns, m - 1);
        lemma_groups_len(notes, timings, m - 1);
        let part = merged_part(task_notes, groups, offset_ns, m - 1);
        assert(groups[m - 1].len() == notes[m - 1].phonemes.len());
        if 1 <= m - 1 <= task_notes.len() {
            assert(task_notes[m - 2].phonemes.len() == 0);
        }
        assert(part == groups[m - 1]);
        assert(timings.take(phonemes_upto(notes, m - 1)) + timings.subrange(
            phonemes_upto(notes, m - 1),
            phonemes_upto(notes, m),
        ) =~= timings.take(phonemes_upto(notes, m)));
    } else {
        assert(timings.take(0) =~= Seq::<TimingLabelView>::empty());
    }
}

/// The phonemes of the answer lie in their note, one after the other.
///
/// For a task whose lyrics decide the phonemes, and timings that replay the
/// labels of its score: the answer for task note `i` has as many phonemes
/// as the note has, with the note's symbols; every phoneme starts no
/// earlier than the note's range and ends no later; none ends before it
/// starts; and each ends where the next one starts. The range is that of
/// the score, cut to whole units and brought to the caller's time base.
pub proof fn lemma_answer_phonemes_in_note(
    task_notes: Seq<SynthesisNoteView>,
    timings: Seq<TimingLabelView>,
    offset_ns: i64,
    i: int,
)
    requires
        task_score(task_notes) is Ok,
        lyrics_decide(task_notes),
        replays(timings, task_score(task_notes)->Ok_0),
        0 <= i < task_notes.len() <= usize::MAX,
    ensures
        ({
            let score = task_score(task_notes)->Ok_0;
            let groups = groups_of(score.notes, timings);
            let merged = merged_upto(
                task_notes,
                groups,
                offset_ns,
                merged_group_count(task_notes.len() as int, groups.len() as int),
            );
            let answer = note_phonemes_of(groups, merged, offset_ns, i + 1);
            let low = to_caller_time(cut_ns(range_start(score, i + 1)) as u64, offset_ns);
            let high = to_caller_time(cut_ns(range_end(score, i + 1)) as u64, offset_ns);
            &&& answer.note_index == i
            &&& answer.phonemes.len() == score.notes[i + 1].phonemes.len()
            &&& forall|j: int|
                0 <= j < answer.phonemes.len() ==> {
                    &&& (#[trigger] answer.phonemes[j]).symbol == score.notes[i + 1].phonemes[j]
                    &&& low <= answer.phonemes[j].start_time_ns
                    &&& answer.phonemes[j].start_time_ns <= answer.phonemes[j].end_time_ns
                    &&& answer.phonemes[j].end_time_ns <= high
                    &&& j + 1 < answer.phonemes.len() ==> answer.phonemes[j].end_time_ns
                        == answer.phonemes[j + 1].start_time_ns
                }
        }),
{
    let score = task_score(task_notes)->Ok_0;
    let notes = score.notes;
    let n = notes.len() as int;
    let groups = groups_of(notes, timings);
    lemma_task_score_shape(task_notes);
    assert(merged_group_count(task_notes.len() as int, groups.len() as int) == n);
    let merged = merged_upto(task_notes, groups, offset_ns, n);
    lemma_merged_is_timings(task_notes, notes, timings, offset_ns, n);
    assert(timings.take(phonemes_upto(notes, n)) =~= timings);
    assert(merged == timings);
    lemma_groups_len(notes, timings, i + 1);
    lemma_groups_len(notes, timings, i + 2);
    let from = phonemes_upto(notes, i + 1);
    let count = notes[i + 1].phonemes.len() as int;
    assert(phonemes_upto(notes, i + 2) == from + count);
    assert(taken_upto(groups, merged.len() as int, i + 1) == from);
    assert(taken_upto(groups, merged.len() as int, i + 2) == from + count);
    let answer = note_phonemes_of(groups, merged, offset_ns, i + 1);
    assert(answer.phonemes.len() == count);
    lemma_range_ordered(score, i + 1);
    lemma_duration_ns_range(notes[i + 1].length, score.tempo);
    let rs = range_start(score, i + 1);
    let re = range_end(score, i + 1);
    assert(re - rs <= 0x7fff_ffff_ffff_ffff) by {
        assert(note_end_ns(notes, score.tempo, i + 1) == note_start_ns(notes, score.tempo, i + 1)
            + duration_ns(notes[i + 1].length, score.tempo));
    }
    assert((re - rs) * count <= u64::MAX) by (nonlinear_arith)
        requires
            0 <= re - rs <= 0x7fff_ffff_ffff_ffff,
            1 <= count <= 2,
    ;
    lemma_points_len(notes, n);
    assert forall|j: int| 0 <= j < count implies {
        &&& (#[trigger] answer.phonemes[j]).symbol == notes[i + 1].phonemes[j]
        &&& to_caller_time(cut_ns(rs) as u64, offset_ns) <= answer.phonemes[j].start_time_ns
        &&& answer.phonemes[j].start_time_ns <= answer.phonemes[j].end_time_ns
        &&& answer.phonemes[j].end_time_ns <= to_caller_time(cut_ns(re) as u64, offset_ns)
        &&& j + 1 < count ==> answer.phonemes[j].end_time_ns == answer.phonemes[j
            + 1].start_time_ns
    } by {
        let k = from + j;
        lemma_point_at(notes, n, i + 1, j);
        assert(points_of(notes)[k] == note_points(notes, i + 1)[j]);
        lemma_note_labels_partition(score, i + 1, j);
        lemma_phoneme_time_range(rs, re, j, count);
        lemma_phoneme_time_range(rs, re, j + 1, count);
        assert(merged[k] == timings[k]);
        assert(rs <= point_start_ns(score, k) <= point_end_ns(score, k) <= re);
        if j + 1 < count {
            lemma_point_at(notes, n, i + 1, j + 1);
            assert(merged[k + 1] == timings[k + 1]);
        }
    }
}

/// The first note of a task starts where the caller's note starts: its
/// range in the score starts after the silent second, which, brought to
/// the caller's time base by the offset of the task, is the start of the
/// caller's first note.
pub proof fn lemma_first_note_start(task_notes: Seq<SynthesisNoteView>)
    requires
        task_score(task_notes) is Ok,
    ensures
        range_start(task_score(task_notes)->Ok_0, 1) == 1_000_000_000,
        task_notes[0].start_time_ns >= 1_000_000_000 - i64::MAX ==> to_caller_time(
            cut_ns(range_start(task_score(task_notes)->Ok_0, 1)) as u64,
            to_caller_time(
                task_score(task_notes)->Ok_0.notes[1].start_time_ns,
                task_notes[0].start_time_ns,
            ),
        ) == task_notes[0].start_time_ns,
{
    let score = task_score(task_notes)->Ok_0;
    let n = task_notes.len() as int;
    lemma_task_notes(task_notes, n);
    let done = task_notes_upto(task_notes, n)->Ok_0;
    assert(score.notes[0] == done[0]);
    assert(score.notes[1] == done[1]);
    assert(duration_ns(24000, 60000) == 1_000_000_000) by {
        assert(120_000_000_060_000int / 120_000int == 1_000_000_000int);
    }
    assert(cursor_after(score.notes, 60000, 0) == 0);
    assert(cursor_after(score.notes, 60000, 1) == 1_000_000_000);
    assert(score.notes[1].start_time_ns == 1_000_000_000);
}

} // verus!
