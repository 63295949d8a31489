//! What holds between the composer and the decomposer: the labels of a
//! score make that score again, as far as labels tell.

use vstd::prelude::*;
use crate::neutrino_label::{xx, Label};
use crate::neutrino_score::{
    absolute_pitch_text, all_notes_sing, beat_text, composed_label, curr_note_fields, decoded_notes,
    decoded_score, decoded_tempo, decoded_time_signature, field_option, label_length, label_pitch, lemma_note_name_roundtrip,
    lemma_point_at, lemma_points_len, lemma_points_within, lemma_time_signature_roundtrip,
    lengths_in_range, note_fields, note_name, note_points, opened_note, options_of, phonemes_upto, pitch_class_name, pitches_in_range, points_of, starts_note,
    text_or_xx, total_phonemes, with_phoneme, NoteView, ScoreView, };
use crate::text::{
    decimal, is_digit, lemma_decimal_digits, lemma_decimal_injective, lemma_parse_signed_decimal,
    signed_decimal,
};

verus! {

/// Whether `labels` are the labels that the score is composed to.
pub open spec fn composed_from(labels: Seq<Label>, score: ScoreView) -> bool {
    &&& labels.len() == total_phonemes(score.notes)
    &&& forall|k: int|
        0 <= k < labels.len() ==> (#[trigger] labels[k])@ == composed_label(
            score.notes,
            options_of(score),
            k,
        )
}

/// Whether no phoneme, language or language-dependent context of the notes
/// is the text `xx`, which a label reads as "none".
pub open spec fn no_xx_texts(notes: Seq<NoteView>) -> bool {
    forall|i: int|
        0 <= i < notes.len() ==> {
            &&& (#[trigger] notes[i]).language != Some(xx())
            &&& notes[i].language_dependent_context != Some(xx())
            &&& forall|j: int|
                0 <= j < notes[i].phonemes.len() ==> #[trigger] notes[i].phonemes[j] != xx()
        }
}

/// Whether a decoded note holds what a note of the score holds, but for
/// its start time.
pub open spec fn same_content(decoded: NoteView, note: NoteView) -> bool {
    &&& decoded.phonemes == note.phonemes
    &&& decoded.language == note.language
    &&& decoded.language_dependent_context == note.language_dependent_context
    &&& decoded.pitch == note.pitch
    &&& decoded.length == note.length
}

/// A numeral is not `xx`.
pub(crate) proof fn lemma_decimal_not_xx(n: nat)
    ensures
        decimal(n) != xx(),
{
    lemma_decimal_digits(n);
    assert(is_digit(decimal(n)[0]));
    assert(xx()[0] == 'x');
}

/// A signed numeral is not `xx`.
pub(crate) proof fn lemma_signed_decimal_not_xx(i: int)
    ensures
        signed_decimal(i) != xx(),
{
    if i < 0 {
        assert(signed_decimal(i)[0] == '-');
        assert(xx()[0] == 'x');
    } else {
        lemma_decimal_not_xx(i as nat);
    }
}

/// A pitch name is not `xx`.
pub(crate) proof fn lemma_note_name_not_xx(pitch: int)
    ensures
        note_name(pitch) != xx(),
{
    let head = pitch_class_name(pitch % 12);
    assert(note_name(pitch)[0] == head[0]);
    assert(xx()[0] == 'x');
}

/// The fields of the label of point `k` that the decomposer reads.
pub(crate) proof fn lemma_read_fields(score: ScoreView, labels: Seq<Label>, k: int)
    requires
        composed_from(labels, score),
        0 <= k < labels.len(),
    ensures
        ({
            let p = points_of(score.notes)[k];
            let note = score.notes[p.note_index];
            let l = labels[k];
            &&& l.phoneme.phoneme_id_current@ == p.symbol
            &&& l.curr_syllable.note_position_forward@ == decimal((p.note_index + 1) as nat)
            &&& l.curr_syllable.language@ == text_or_xx(note.language)
            &&& l.curr_syllable.language_dependent_context@ == text_or_xx(
                note.language_dependent_context,
            )
            &&& l.curr_note.absolute_pitch@ == absolute_pitch_text(note.pitch)
            &&& l.curr_note.beat@ == options_of(score).beat
            &&& l.curr_note.tempo@ == signed_decimal(score.tempo)
            &&& l.curr_note.length_triplet_32nd@ == signed_decimal(note.length)
        }),
{
    let p = points_of(score.notes)[k];
    let i = p.note_index;
    let l = labels[k];
    let want = composed_label(score.notes, options_of(score), k);
    assert(l@ == want);
    assert(l@[0] == l.phoneme.fields());
    assert(l@[2] == l.curr_syllable.fields());
    assert(l@[5] == l.curr_note.fields());
    assert(l.phoneme.fields()[3] == l.phoneme.phoneme_id_current@);
    assert(l.curr_syllable.fields()[1] == l.curr_syllable.note_position_forward@);
    assert(l.curr_syllable.fields()[3] == l.curr_syllable.language@);
    assert(l.curr_syllable.fields()[4] == l.curr_syllable.language_dependent_context@);
    assert(l.curr_note.fields()[0] == l.curr_note.absolute_pitch@);
    assert(l.curr_note.fields()[3] == l.curr_note.beat@);
    assert(l.curr_note.fields()[4] == l.curr_note.tempo@);
    assert(l.curr_note.fields()[7] == l.curr_note.length_triplet_32nd@);
    let shared = note_fields(score.notes, Some(i), options_of(score));
    let e = curr_note_fields(score.notes, i, options_of(score));
    assert(shared.len() == 9);
    assert(e[0] == shared[0]);
    assert(e[3] == shared[3]);
    assert(e[4] == shared[4]);
    assert(e[7] == shared[7]);
}

/// All labels of a composed score state the tempo, so the decomposer finds
/// it in the first one.
pub(crate) proof fn lemma_decoded_tempo(score: ScoreView, labels: Seq<Label>)
    requires
        composed_from(labels, score),
        labels.len() > 0,
        i32::MIN <= score.tempo <= i32::MAX,
    ensures
        decoded_tempo(labels) == score.tempo,
{
    lemma_read_fields(score, labels, 0);
    lemma_signed_decimal_not_xx(score.tempo);
    lemma_parse_signed_decimal(score.tempo);
}

/// All labels of a composed score state the time signature, so the
/// decomposer finds it in the first one.
pub(crate) proof fn lemma_decoded_time_signature(score: ScoreView, labels: Seq<Label>)
    requires
        composed_from(labels, score),
        labels.len() > 0,
        score.time_signatures.len() > 0,
        score.time_signatures[0].numerator != 0,
        score.time_signatures[0].denominator != 0,
    ensures
        decoded_time_signature(labels) == score.time_signatures[0],
{
    let ts = score.time_signatures[0];
    lemma_read_fields(score, labels, 0);
    lemma_decimal_digits(ts.numerator as nat);
    assert(is_digit(decimal(ts.numerator as nat)[0]));
    assert(beat_text(ts)[0] == decimal(ts.numerator as nat)[0]);
    assert(xx()[0] == 'x');
    lemma_time_signature_roundtrip(ts);
}

/// What the first `k` labels of a composed score decode to: with the last
/// of them belonging to phoneme `j` of note `i`, there are the leading
/// silent note, the notes before note `i` in full, and note `i` with its
/// phonemes up to `j`.
pub open spec fn decoded_prefix_ok(score: ScoreView, labels: Seq<Label>, k: int) -> bool {
    let r = decoded_notes(labels, score.tempo, k);
    &&& r is Ok
    &&& if k <= 0 {
        r->Ok_0.len() == 1
    } else {
        let p = points_of(score.notes)[k - 1];
        let d = r->Ok_0;
        let i = p.note_index;
        let note = score.notes[i];
        &&& d.len() == i + 2
        &&& forall|m: int| 1 <= m <= i ==> same_content(#[trigger] d[m], score.notes[m - 1])
        &&& d[i + 1].phonemes == note.phonemes.take(p.phoneme_index + 1)
        &&& d[i + 1].language == note.language
        &&& d[i + 1].language_dependent_context == note.language_dependent_context
        &&& d[i + 1].pitch == note.pitch
        &&& d[i + 1].length == note.length
    }
}

/// The point before the first point of a note is the last point of the
/// note before it; the point before any other point is the phoneme before
/// it in the same note.
pub(crate) proof fn lemma_point_before(notes: Seq<NoteView>, k: int)
    requires
        all_notes_sing(notes),
        1 <= k < total_phonemes(notes),
    ensures
        ({
            let p = points_of(notes)[k];
            let q = points_of(notes)[k - 1];
            if p.phoneme_index == 0 {
                q.note_index == p.note_index - 1 && q.phoneme_index == q.phoneme_count - 1
            } else {
                q.note_index == p.note_index && q.phoneme_index == p.phoneme_index - 1
            }
        }),
{
    let n = notes.len() as int;
    lemma_points_len(notes, n);
    lemma_points_within(notes, n, k);
    let p = points_of(notes)[k];
    let i = p.note_index;
    if p.phoneme_index == 0 {
        lemma_points_len(notes, i);
        assert(i > 0) by {
            if i == 0 {
                assert(phonemes_upto(notes, 0) == 0);
            }
        }
        let count = notes[i - 1].phonemes.len() as int;
        assert(count > 0);
        assert(phonemes_upto(notes, i) == phonemes_upto(notes, i - 1) + count);
        lemma_point_at(notes, n, i - 1, count - 1);
        assert(points_of(notes)[k - 1] == note_points(notes, i - 1)[count - 1]);
    } else {
        lemma_point_at(notes, n, i, p.phoneme_index - 1);
        assert(points_of(notes)[k - 1] == note_points(notes, i)[p.phoneme_index - 1]);
    }
}

/// The first `k` labels of a composed score decode as `decoded_prefix_ok`
/// says.
pub(crate) proof fn lemma_decoded_prefix(score: ScoreView, labels: Seq<Label>, k: int)
    requires
        composed_from(labels, score),
        all_notes_sing(score.notes),
        no_xx_texts(score.notes),
        pitches_in_range(score.notes),
        lengths_in_range(score.notes),
        0 <= k <= labels.len(),
    ensures
        decoded_prefix_ok(score, labels, k),
    decreases k,
{
    let notes = score.notes;
    let n = notes.len() as int;
    let tempo = score.tempo;
    if k > 0 {
        lemma_decoded_prefix(score, labels, k - 1);
        lemma_points_len(notes, n);
        lemma_points_within(notes, n, k - 1);
        lemma_read_fields(score, labels, k - 1);
        let before = decoded_notes(labels, tempo, k - 1)->Ok_0;
        let l = labels[k - 1];
        let p = points_of(notes)[k - 1];
        let i = p.note_index;
        let j = p.phoneme_index;
        let note = notes[i];
        assert(p.symbol == note.phonemes[j]);
        assert(p.symbol != xx());
        lemma_decimal_not_xx((i + 1) as nat);
        // Whether the label starts a note.
        if k - 1 > 0 {
            lemma_point_before(notes, k - 1);
            lemma_points_within(notes, n, k - 2);
            lemma_read_fields(score, labels, k - 2);
            let q = points_of(notes)[k - 2];
            if j == 0 {
                assert(q.note_index == i - 1);
                if decimal((i + 1) as nat) == decimal(i as nat) {
                    lemma_decimal_injective((i + 1) as nat, i as nat);
                }
                assert(starts_note(labels, k - 1));
            } else {
                assert(q.note_index == i);
                assert(!starts_note(labels, k - 1));
            }
        } else {
            assert(phonemes_upto(notes, i) + j == 0);
            lemma_points_len(notes, i);
            assert(j == 0);
        }
        assert(starts_note(labels, k - 1) == (j == 0));
        if j == 0 {
            // The pitch, the length and the texts of the opened note.
            match note.pitch {
                Some(pitch) => {
                    lemma_note_name_not_xx(pitch as int);
                    lemma_note_name_roundtrip(pitch as int);
                },
                None => {},
            }
            assert(label_pitch(l) == Ok::<Option<u8>, Seq<char>>(note.pitch));
            lemma_signed_decimal_not_xx(note.length);
            lemma_parse_signed_decimal(note.length);
            assert(label_length(l) == note.length);
            assert(field_option(text_or_xx(note.language)) == note.language);
            assert(field_option(text_or_xx(note.language_dependent_context))
                == note.language_dependent_context);
            let opened = opened_note(l, before.last(), tempo, note.pitch);
            let made = with_phoneme(opened, l);
            let d = before.push(made);
            assert(decoded_notes(labels, tempo, k) == Ok::<Seq<NoteView>, Seq<char>>(d));
            assert(made.phonemes =~= note.phonemes.take(1));
            if k - 1 > 0 {
                let q = points_of(notes)[k - 2];
                assert(before.len() == i + 1);
                assert(q.phoneme_index + 1 == notes[i - 1].phonemes.len());
                assert(notes[i - 1].phonemes.take(q.phoneme_index + 1) =~= notes[i - 1].phonemes);
                assert forall|m: int| 1 <= m <= i implies same_content(
                    #[trigger] d[m],
                    notes[m - 1],
                ) by {
                    assert(d[m] == before[m]);
                }
            } else {
                assert(i == 0) by {
                    if i > 0 {
                        assert(notes[0].phonemes.len() > 0);
                        crate::neutrino_score::lemma_phonemes_upto_monotonic(notes, 1, i);
                        assert(phonemes_upto(notes, 1) == phonemes_upto(notes, 0)
                            + notes[0].phonemes.len());
                    }
                }
                assert(before.len() == 1);
            }
            assert(d[i + 1] == made);
        } else {
            let last = with_phoneme(before.last(), l);
            let d = before.drop_last().push(last);
            assert(decoded_notes(labels, tempo, k) == Ok::<Seq<NoteView>, Seq<char>>(d));
            assert(before.len() == i + 2);
            assert(before.last() == before[i + 1]);
            assert(last.phonemes =~= note.phonemes.take(j + 1)) by {
                assert(note.phonemes.take(j + 1) =~= note.phonemes.take(j).push(note.phonemes[j]));
            }
            assert forall|m: int| 1 <= m <= i implies same_content(
                #[trigger] d[m],
                notes[m - 1],
            ) by {
                assert(d[m] == before[m]);
            }
            assert(d[i + 1] == last);
        }
    }
}

/// Composing a score and decomposing its labels gives the score back, as
/// far as labels tell: the tempo, the time signature, and for every note
/// its phonemes, its language, its language-dependent context, its pitch
/// and its length. The decoded score has a silent note before and after
/// these notes.
///
/// This holds of a score with notes that all have phonemes, whose texts
/// are not `xx`, with one time signature without a zero, and with MIDI
/// pitches.
pub proof fn lemma_compose_then_decompose(score: ScoreView, labels: Seq<Label>)
    requires
        composed_from(labels, score),
        score.notes.len() > 0,
        all_notes_sing(score.notes),
        no_xx_texts(score.notes),
        pitches_in_range(score.notes),
        lengths_in_range(score.notes),
        i32::MIN <= score.tempo <= i32::MAX,
        score.time_signatures.len() == 1,
        score.time_signatures[0].numerator != 0,
        score.time_signatures[0].denominator != 0,
    ensures
        decoded_score(labels) is Ok,
        decoded_score(labels)->Ok_0.tempo == score.tempo,
        decoded_score(labels)->Ok_0.time_signatures == score.time_signatures,
        decoded_score(labels)->Ok_0.notes.len() == score.notes.len() + 2,
        forall|i: int|
            0 <= i < score.notes.len() ==> same_content(
                #[trigger] decoded_score(labels)->Ok_0.notes[i + 1],
                score.notes[i],
            ),
{
    let notes = score.notes;
    let n = notes.len() as int;
    let total = labels.len() as int;
    lemma_points_len(notes, n);
    // There is a label: the first note has a phoneme.
    assert(total > 0) by {
        assert(notes[0].phonemes.len() > 0);
        crate::neutrino_score::lemma_phonemes_upto_monotonic(notes, 1, n);
        assert(phonemes_upto(notes, 1) == phonemes_upto(notes, 0) + notes[0].phonemes.len());
    }
    lemma_decoded_tempo(score, labels);
    lemma_decoded_time_signature(score, labels);
    lemma_decoded_prefix(score, labels, total);
    // The last label belongs to the last phoneme of the last note.
    let count = notes[n - 1].phonemes.len() as int;
    assert(count > 0);
    assert(phonemes_upto(notes, n) == phonemes_upto(notes, n - 1) + count);
    lemma_point_at(notes, n, n - 1, count - 1);
    let p = points_of(notes)[total - 1];
    assert(p == note_points(notes, n - 1)[count - 1]);
    let d = decoded_notes(labels, score.tempo, total)->Ok_0;
    assert(notes[n - 1].phonemes.take(count) =~= notes[n - 1].phonemes);
    let decoded = decoded_score(labels)->Ok_0;
    assert(decoded.time_signatures =~= score.time_signatures);
    assert forall|i: int| 0 <= i < n implies same_content(
        #[trigger] decoded.notes[i + 1],
        notes[i],
    ) by {
        assert(decoded.notes[i + 1] == d[i + 1]);
        if i < n - 1 {
            assert(same_content(d[i + 1], notes[i + 1 - 1]));
        }
    }
}

} // verus!
