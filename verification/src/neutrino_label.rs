//! The context label line: eleven sections of text fields, and the codec
//! between a label and its one-line text.
//!
//! A line reads `P/A:a/B:b/C:c/D:d/E:e/F:f/G:g/H:h/I:i/J:j`. Inside a section
//! the fields are separated by single punctuation characters that are fixed
//! for that section. Fields are kept as text, character for character.

use vstd::prelude::*;
use crate::text::{
    chars_of, concat, copy_range, find_char, index_of_from, lemma_index_of_from, str_eq, string_of,
};

verus! {

/// The text that stands for "not applicable".
pub open spec fn xx() -> Seq<char> {
    seq!['x', 'x']
}

/// One field of a label: a piece of text, kept as it is.
#[derive(Debug)]
pub struct LabelValue(String);

impl View for LabelValue {
    type V = Seq<char>;

    closed spec fn view(&self) -> Seq<char> {
        self.0@
    }
}

impl LabelValue {
    /// The field that holds `text`.
    pub fn new(text: String) -> (r: Self)
        ensures
            r@ == text@,
    {
        LabelValue(text)
    }

    /// The field that holds a copy of `text`.
    pub fn of(text: &str) -> (r: Self)
        ensures
            r@ == text@,
    {
        LabelValue(text.to_owned())
    }

    /// The field `xx`.
    pub fn not_applicable() -> (r: Self)
        ensures
            r@ == xx(),
    {
        proof {
            reveal_strlit("xx");
        }
        let r = LabelValue("xx".to_owned());
        assert(r@ =~= xx());
        r
    }

    /// The text of the field.
    pub fn as_str(&self) -> (r: &str)
        ensures
            r@ == self@,
    {
        self.0.as_str()
    }

    /// Whether the field is `xx`.
    pub fn is_xx(&self) -> (r: bool)
        ensures
            r == (self@ == xx()),
    {
        proof {
            reveal_strlit("xx");
        }
        assert("xx"@ =~= xx());
        str_eq(self.0.as_str(), "xx")
    }

    /// The text of the field, or `None` where the field is `xx`.
    pub fn as_option(&self) -> (r: Option<&str>)
        ensures
            self@ == xx() ==> r is None,
            self@ != xx() ==> r is Some && r->0@ == self@,
    {
        if self.is_xx() {
            None
        } else {
            Some(self.0.as_str())
        }
    }
}

impl Clone for LabelValue {
    fn clone(&self) -> (r: Self)
        ensures
            r@ == self@,
    {
        LabelValue(self.0.clone())
    }
}

impl Default for LabelValue {
    fn default() -> (r: Self)
        ensures
            r@ == Seq::<char>::empty(),
    {
        LabelValue(String::new())
    }
}

impl PartialEq for LabelValue {
    fn eq(&self, other: &Self) -> (r: bool) {
        self.0 == other.0
    }
}

impl Eq for LabelValue {

}

impl vstd::std_specs::cmp::PartialEqSpecImpl for LabelValue {
    open spec fn obeys_eq_spec() -> bool {
        true
    }

    open spec fn eq_spec(&self, other: &Self) -> bool {
        self@ == other@
    }
}

impl<'a> PartialEq<&'a str> for LabelValue {
    fn eq(&self, other: &&'a str) -> (r: bool) {
        str_eq(self.0.as_str(), *other)
    }
}

impl<'a> vstd::std_specs::cmp::PartialEqSpecImpl<&'a str> for LabelValue {
    open spec fn obeys_eq_spec() -> bool {
        true
    }

    open spec fn eq_spec(&self, other: &&'a str) -> bool {
        self@ == other@
    }
}

impl<'a> From<&'a str> for LabelValue {
    fn from(value: &'a str) -> (r: Self)
        ensures
            r@ == value@,
    {
        LabelValue(value.to_owned())
    }
}

impl<'a> vstd::std_specs::convert::FromSpecImpl<&'a str> for LabelValue {
    open spec fn obeys_from_spec() -> bool {
        false
    }

    open spec fn from_spec(value: &'a str) -> Self {
        arbitrary()
    }
}

impl From<String> for LabelValue {
    fn from(value: String) -> (r: Self)
        ensures
            r@ == value@,
    {
        LabelValue(value)
    }
}

impl vstd::std_specs::convert::FromSpecImpl<String> for LabelValue {
    open spec fn obeys_from_spec() -> bool {
        false
    }

    open spec fn from_spec(value: String) -> Self {
        arbitrary()
    }
}

/// The texts of the fields `f`.
pub open spec fn texts_of(f: Seq<LabelValue>) -> Seq<Seq<char>> {
    Seq::new(f.len(), |i: int| f[i]@)
}

/// The phoneme section (`P`): the current phoneme, its neighbours and its place in the syllable.
#[derive(Debug, PartialEq, Eq)]
pub struct PhonemeContext {
    pub language_independent_phoneme_id: LabelValue,
    pub phoneme_id_two_before: LabelValue,
    pub phoneme_id_previous: LabelValue,
    pub phoneme_id_current: LabelValue,
    pub phoneme_id_next: LabelValue,
    pub phoneme_id_two_after: LabelValue,
    pub phoneme_flag_two_before: LabelValue,
    pub phoneme_flag_before: LabelValue,
    pub phoneme_flag_current: LabelValue,
    pub phoneme_flag_next: LabelValue,
    pub phoneme_flag_two_after: LabelValue,
    pub syllable_phoneme_position_forward: LabelValue,
    pub syllable_phoneme_position_backward: LabelValue,
    pub distance_from_prev_vowel: LabelValue,
    pub distance_to_next_vowel: LabelValue,
    pub reserved: LabelValue,
}

impl PhonemeContext {
    /// The texts of the fields, in the order of the line.
    pub open spec fn fields(&self) -> Seq<Seq<char>> {
        seq![
            self.language_independent_phoneme_id@,
            self.phoneme_id_two_before@,
            self.phoneme_id_previous@,
            self.phoneme_id_current@,
            self.phoneme_id_next@,
            self.phoneme_id_two_after@,
            self.phoneme_flag_two_before@,
            self.phoneme_flag_before@,
            self.phoneme_flag_current@,
            self.phoneme_flag_next@,
            self.phoneme_flag_two_after@,
            self.syllable_phoneme_position_forward@,
            self.syllable_phoneme_position_backward@,
            self.distance_from_prev_vowel@,
            self.distance_to_next_vowel@,
            self.reserved@,
        ]
    }

    /// The section that holds `f`, in the order of the line.
    pub fn from_fields(f: &Vec<LabelValue>) -> (r: Self)
        requires
            f.len() == 16,
        ensures
            r.fields() == texts_of(f@),
    {
        let r = PhonemeContext {
            language_independent_phoneme_id: f[0].clone(),
            phoneme_id_two_before: f[1].clone(),
            phoneme_id_previous: f[2].clone(),
            phoneme_id_current: f[3].clone(),
            phoneme_id_next: f[4].clone(),
            phoneme_id_two_after: f[5].clone(),
            phoneme_flag_two_before: f[6].clone(),
            phoneme_flag_before: f[7].clone(),
            phoneme_flag_current: f[8].clone(),
            phoneme_flag_next: f[9].clone(),
            phoneme_flag_two_after: f[10].clone(),
            syllable_phoneme_position_forward: f[11].clone(),
            syllable_phoneme_position_backward: f[12].clone(),
            distance_from_prev_vowel: f[13].clone(),
            distance_to_next_vowel: f[14].clone(),
            reserved: f[15].clone(),
        };
        assert(r.fields() =~= texts_of(f@));
        r
    }

    /// The fields, in the order of the line.
    pub fn to_fields(&self) -> (f: Vec<LabelValue>)
        ensures
            f.len() == 16,
            texts_of(f@) == self.fields(),
    {
        let mut f: Vec<LabelValue> = Vec::new();
        f.push(self.language_independent_phoneme_id.clone());
        f.push(self.phoneme_id_two_before.clone());
        f.push(self.phoneme_id_previous.clone());
        f.push(self.phoneme_id_current.clone());
        f.push(self.phoneme_id_next.clone());
        f.push(self.phoneme_id_two_after.clone());
        f.push(self.phoneme_flag_two_before.clone());
        f.push(self.phoneme_flag_before.clone());
        f.push(self.phoneme_flag_current.clone());
        f.push(self.phoneme_flag_next.clone());
        f.push(self.phoneme_flag_two_after.clone());
        f.push(self.syllable_phoneme_position_forward.clone());
        f.push(self.syllable_phoneme_position_backward.clone());
        f.push(self.distance_from_prev_vowel.clone());
        f.push(self.distance_to_next_vowel.clone());
        f.push(self.reserved.clone());
        assert(texts_of(f@) =~= self.fields());
        f
    }
}

impl Clone for PhonemeContext {
    fn clone(&self) -> (r: Self)
        ensures
            r.fields() == self.fields(),
    {
        let r = PhonemeContext {
            language_independent_phoneme_id: self.language_independent_phoneme_id.clone(),
            phoneme_id_two_before: self.phoneme_id_two_before.clone(),
            phoneme_id_previous: self.phoneme_id_previous.clone(),
            phoneme_id_current: self.phoneme_id_current.clone(),
            phoneme_id_next: self.phoneme_id_next.clone(),
            phoneme_id_two_after: self.phoneme_id_two_after.clone(),
            phoneme_flag_two_before: self.phoneme_flag_two_before.clone(),
            phoneme_flag_before: self.phoneme_flag_before.clone(),
            phoneme_flag_current: self.phoneme_flag_current.clone(),
            phoneme_flag_next: self.phoneme_flag_next.clone(),
            phoneme_flag_two_after: self.phoneme_flag_two_after.clone(),
            syllable_phoneme_position_forward: self.syllable_phoneme_position_forward.clone(),
            syllable_phoneme_position_backward: self.syllable_phoneme_position_backward.clone(),
            distance_from_prev_vowel: self.distance_from_prev_vowel.clone(),
            distance_to_next_vowel: self.distance_to_next_vowel.clone(),
            reserved: self.reserved.clone(),
        };
        assert(r.fields() =~= self.fields());
        r
    }
}

/// The previous-syllable section (`A`).
#[derive(Debug, PartialEq, Eq)]
pub struct PrevSyllable {
    pub phoneme_count: LabelValue,
    pub note_position_forward: LabelValue,
    pub note_position_backward: LabelValue,
    pub language: LabelValue,
    pub language_dependent_context: LabelValue,
}

impl PrevSyllable {
    /// The texts of the fields, in the order of the line.
    pub open spec fn fields(&self) -> Seq<Seq<char>> {
        seq![
            self.phoneme_count@,
            self.note_position_forward@,
            self.note_position_backward@,
            self.language@,
            self.language_dependent_context@,
        ]
    }

    /// The section that holds `f`, in the order of the line.
    pub fn from_fields(f: &Vec<LabelValue>) -> (r: Self)
        requires
            f.len() == 5,
        ensures
            r.fields() == texts_of(f@),
    {
        let r = PrevSyllable {
            phoneme_count: f[0].clone(),
            note_position_forward: f[1].clone(),
            note_position_backward: f[2].clone(),
            language: f[3].clone(),
            language_dependent_context: f[4].clone(),
        };
        assert(r.fields() =~= texts_of(f@));
        r
    }

    /// The fields, in the order of the line.
    pub fn to_fields(&self) -> (f: Vec<LabelValue>)
        ensures
            f.len() == 5,
            texts_of(f@) == self.fields(),
    {
        let mut f: Vec<LabelValue> = Vec::new();
        f.push(self.phoneme_count.clone());
        f.push(self.note_position_forward.clone());
        f.push(self.note_position_backward.clone());
        f.push(self.language.clone());
        f.push(self.language_dependent_context.clone());
        assert(texts_of(f@) =~= self.fields());
        f
    }
}

impl Clone for PrevSyllable {
    fn clone(&self) -> (r: Self)
        ensures
            r.fields() == self.fields(),
    {
        let r = PrevSyllable {
            phoneme_count: self.phoneme_count.clone(),
            note_position_forward: self.note_position_forward.clone(),
            note_position_backward: self.note_position_backward.clone(),
            language: self.language.clone(),
            language_dependent_context: self.language_dependent_context.clone(),
        };
        assert(r.fields() =~= self.fields());
        r
    }
}

/// The current-syllable section (`B`).
#[derive(Debug, PartialEq, Eq)]
pub struct CurrSyllable {
    pub phoneme_count: LabelValue,
    pub note_position_forward: LabelValue,
    pub note_position_backward: LabelValue,
    pub language: LabelValue,
    pub language_dependent_context: LabelValue,
}

impl CurrSyllable {
    /// The texts of the fields, in the order of the line.
    pub open spec fn fields(&self) -> Seq<Seq<char>> {
        seq![
            self.phoneme_count@,
            self.note_position_forward@,
            self.note_position_backward@,
            self.language@,
            self.language_dependent_context@,
        ]
    }

    /// The section that holds `f`, in the order of the line.
    pub fn from_fields(f: &Vec<LabelValue>) -> (r: Self)
        requires
            f.len() == 5,
        ensures
            r.fields() == texts_of(f@),
    {
        let r = CurrSyllable {
            phoneme_count: f[0].clone(),
            note_position_forward: f[1].clone(),
            note_position_backward: f[2].clone(),
            language: f[3].clone(),
            language_dependent_context: f[4].clone(),
        };
        assert(r.fields() =~= texts_of(f@));
        r
    }

    /// The fields, in the order of the line.
    pub fn to_fields(&self) -> (f: Vec<LabelValue>)
        ensures
            f.len() == 5,
            texts_of(f@) == self.fields(),
    {
        let mut f: Vec<LabelValue> = Vec::new();
        f.push(self.phoneme_count.clone());
        f.push(self.note_position_forward.clone());
        f.push(self.note_position_backward.clone());
        f.push(self.language.clone());
        f.push(self.language_dependent_context.clone());
        assert(texts_of(f@) =~= self.fields());
        f
    }
}

impl Clone for CurrSyllable {
    fn clone(&self) -> (r: Self)
        ensures
            r.fields() == self.fields(),
    {
        let r = CurrSyllable {
            phoneme_count: self.phoneme_count.clone(),
            note_position_forward: self.note_position_forward.clone(),
            note_position_backward: self.note_position_backward.clone(),
            language: self.language.clone(),
            language_dependent_context: self.language_dependent_context.clone(),
        };
        assert(r.fields() =~= self.fields());
        r
    }
}

/// The next-syllable section (`C`).
#[derive(Debug, PartialEq, Eq)]
pub struct NextSyllable {
    pub phoneme_count: LabelValue,
    pub note_position_forward: LabelValue,
    pub note_position_backward: LabelValue,
    pub language: LabelValue,
    pub language_dependent_context: LabelValue,
}

impl NextSyllable {
    /// The texts of the fields, in the order of the line.
    pub open spec fn fields(&self) -> Seq<Seq<char>> {
        seq![
            self.phoneme_count@,
            self.note_position_forward@,
            self.note_position_backward@,
            self.language@,
            self.language_dependent_context@,
        ]
    }

    /// The section that holds `f`, in the order of the line.
    pub fn from_fields(f: &Vec<LabelValue>) -> (r: Self)
        requires
            f.len() == 5,
        ensures
            r.fields() == texts_of(f@),
    {
        let r = NextSyllable {
            phoneme_count: f[0].clone(),
            note_position_forward: f[1].clone(),
            note_position_backward: f[2].clone(),
            language: f[3].clone(),
            language_dependent_context: f[4].clone(),
        };
        assert(r.fields() =~= texts_of(f@));
        r
    }

    /// The fields, in the order of the line.
    pub fn to_fields(&self) -> (f: Vec<LabelValue>)
        ensures
            f.len() == 5,
            texts_of(f@) == self.fields(),
    {
        let mut f: Vec<LabelValue> = Vec::new();
        f.push(self.phoneme_count.clone());
        f.push(self.note_position_forward.clone());
        f.push(self.note_position_backward.clone());
        f.push(self.language.clone());
        f.push(self.language_dependent_context.clone());
        assert(texts_of(f@) =~= self.fields());
        f
    }
}

impl Clone for NextSyllable {
    fn clone(&self) -> (r: Self)
        ensures
            r.fields() == self.fields(),
    {
        let r = NextSyllable {
            phoneme_count: self.phoneme_count.clone(),
            note_position_forward: self.note_position_forward.clone(),
            note_position_backward: self.note_position_backward.clone(),
            language: self.language.clone(),
            language_dependent_context: self.language_dependent_context.clone(),
        };
        assert(r.fields() =~= self.fields());
        r
    }
}

/// The previous-note section (`D`).
#[derive(Debug, PartialEq, Eq)]
pub struct PrevNote {
    pub absolute_pitch: LabelValue,
    pub relative_pitch: LabelValue,
    pub key_signature: LabelValue,
    pub beat: LabelValue,
    pub tempo: LabelValue,
    pub length_syllable: LabelValue,
    pub length_centisecond: LabelValue,
    pub length_triplet_32nd: LabelValue,
    pub reserved: LabelValue,
}

impl PrevNote {
    /// The texts of the fields, in the order of the line.
    pub open spec fn fields(&self) -> Seq<Seq<char>> {
        seq![
            self.absolute_pitch@,
            self.relative_pitch@,
            self.key_signature@,
            self.beat@,
            self.tempo@,
            self.length_syllable@,
            self.length_centisecond@,
            self.length_triplet_32nd@,
            self.reserved@,
        ]
    }

    /// The section that holds `f`, in the order of the line.
    pub fn from_fields(f: &Vec<LabelValue>) -> (r: Self)
        requires
            f.len() == 9,
        ensures
            r.fields() == texts_of(f@),
    {
        let r = PrevNote {
            absolute_pitch: f[0].clone(),
            relative_pitch: f[1].clone(),
            key_signature: f[2].clone(),
            beat: f[3].clone(),
            tempo: f[4].clone(),
            length_syllable: f[5].clone(),
            length_centisecond: f[6].clone(),
            length_triplet_32nd: f[7].clone(),
            reserved: f[8].clone(),
        };
        assert(r.fields() =~= texts_of(f@));
        r
    }

    /// The fields, in the order of the line.
    pub fn to_fields(&self) -> (f: Vec<LabelValue>)
        ensures
            f.len() == 9,
            texts_of(f@) == self.fields(),
    {
        let mut f: Vec<LabelValue> = Vec::new();
        f.push(self.absolute_pitch.clone());
        f.push(self.relative_pitch.clone());
        f.push(self.key_signature.clone());
        f.push(self.beat.clone());
        f.push(self.tempo.clone());
        f.push(self.length_syllable.clone());
        f.push(self.length_centisecond.clone());
        f.push(self.length_triplet_32nd.clone());
        f.push(self.reserved.clone());
        assert(texts_of(f@) =~= self.fields());
        f
    }
}

impl Clone for PrevNote {
    fn clone(&self) -> (r: Self)
        ensures
            r.fields() == self.fields(),
    {
        let r = PrevNote {
            absolute_pitch: self.absolute_pitch.clone(),
            relative_pitch: self.relative_pitch.clone(),
            key_signature: self.key_signature.clone(),
            beat: self.beat.clone(),
            tempo: self.tempo.clone(),
            length_syllable: self.length_syllable.clone(),
            length_centisecond: self.length_centisecond.clone(),
            length_triplet_32nd: self.length_triplet_32nd.clone(),
            reserved: self.reserved.clone(),
        };
        assert(r.fields() =~= self.fields());
        r
    }
}

/// The current-note section (`E`): the note itself and its place in measure and phrase.
#[derive(Debug, PartialEq, Eq)]
pub struct CurrNote {
    pub absolute_pitch: LabelValue,
    pub relative_pitch: LabelValue,
    pub key_signature: LabelValue,
    pub beat: LabelValue,
    pub tempo: LabelValue,
    pub length_syllable: LabelValue,
    pub length_centisecond: LabelValue,
    pub length_triplet_32nd: LabelValue,
    pub reserved: LabelValue,
    pub measure_note_position_note_forward: LabelValue,
    pub measure_note_position_note_backward: LabelValue,
    pub measure_note_position_centisecond_forward: LabelValue,
    pub measure_note_position_centisecond_backward: LabelValue,
    pub measure_note_position_triplet_32nd_forward: LabelValue,
    pub measure_note_position_triplet_32nd_backward: LabelValue,
    pub measure_note_position_percent_forward: LabelValue,
    pub measure_note_position_percent_backward: LabelValue,
    pub phrase_note_position_note_forward: LabelValue,
    pub phrase_note_position_note_backward: LabelValue,
    pub phrase_note_position_centisecond_forward: LabelValue,
    pub phrase_note_position_centisecond_backward: LabelValue,
    pub phrase_note_position_triplet_32nd_forward: LabelValue,
    pub phrase_note_position_triplet_32nd_backward: LabelValue,
    pub phrase_note_position_percent_forward: LabelValue,
    pub phrase_note_position_percent_backward: LabelValue,
    pub slur_with_previous: LabelValue,
    pub slur_with_next: LabelValue,
    pub dynamic_mark: LabelValue,
    pub distance_to_next_accent_note: LabelValue,
    pub distance_to_previous_accent_note: LabelValue,
    pub distance_to_next_accent_centisecond: LabelValue,
    pub distance_to_previous_accent_centisecond: LabelValue,
    pub distance_to_next_accent_triplet_32nd: LabelValue,
    pub distance_to_previous_accent_triplet_32nd: LabelValue,
    pub distance_to_next_staccato_note: LabelValue,
    pub distance_to_previous_staccato_note: LabelValue,
    pub distance_to_next_staccato_centisecond: LabelValue,
    pub distance_to_previous_staccato_centisecond: LabelValue,
    pub distance_to_next_staccato_triplet_32nd: LabelValue,
    pub distance_to_previous_staccato_triplet_32nd: LabelValue,
    pub crescendo_position_note_forward: LabelValue,
    pub crescendo_position_note_backward: LabelValue,
    pub crescendo_position_second_forward: LabelValue,
    pub crescendo_position_second_backward: LabelValue,
    pub crescendo_position_triplet_32nd_forward: LabelValue,
    pub crescendo_position_triplet_32nd_backward: LabelValue,
    pub crescendo_position_percent_forward: LabelValue,
    pub crescendo_position_percent_backward: LabelValue,
    pub decrescendo_position_note_forward: LabelValue,
    pub decrescendo_position_note_backward: LabelValue,
    pub decrescendo_position_second_forward: LabelValue,
    pub decrescendo_position_second_backward: LabelValue,
    pub decrescendo_position_triplet_32nd_forward: LabelValue,
    pub decrescendo_position_triplet_32nd_backward: LabelValue,
    pub decrescendo_position_percent_forward: LabelValue,
    pub decrescendo_position_percent_backward: LabelValue,
    pub pitch_difference_from_previous_note: LabelValue,
    pub pitch_difference_to_next_note: LabelValue,
    pub reserved_2: LabelValue,
    pub reserved_3: LabelValue,
}

impl CurrNote {
    /// The texts of the fields, in the order of the line.
    pub open spec fn fields(&self) -> Seq<Seq<char>> {
        seq![
            self.absolute_pitch@,
            self.relative_pitch@,
            self.key_signature@,
            self.beat@,
            self.tempo@,
            self.length_syllable@,
            self.length_centisecond@,
            self.length_triplet_32nd@,
            self.reserved@,
            self.measure_note_position_note_forward@,
            self.measure_note_position_note_backward@,
            self.measure_note_position_centisecond_forward@,
            self.measure_note_position_centisecond_backward@,
            self.measure_note_position_triplet_32nd_forward@,
            self.measure_note_position_triplet_32nd_backward@,
            self.measure_note_position_percent_forward@,
            self.measure_note_position_percent_backward@,
            self.phrase_note_position_note_forward@,
            self.phrase_note_position_note_backward@,
            self.phrase_note_position_centisecond_forward@,
            self.phrase_note_position_centisecond_backward@,
            self.phrase_note_position_triplet_32nd_forward@,
            self.phrase_note_position_triplet_32nd_backward@,
            self.phrase_note_position_percent_forward@,
            self.phrase_note_position_percent_backward@,
            self.slur_with_previous@,
            self.slur_with_next@,
            self.dynamic_mark@,
            self.distance_to_next_accent_note@,
            self.distance_to_previous_accent_note@,
            self.distance_to_next_accent_centisecond@,
            self.distance_to_previous_accent_centisecond@,
            self.distance_to_next_accent_triplet_32nd@,
            self.distance_to_previous_accent_triplet_32nd@,
            self.distance_to_next_staccato_note@,
            self.distance_to_previous_staccato_note@,
            self.distance_to_next_staccato_centisecond@,
            self.distance_to_previous_staccato_centisecond@,
            self.distance_to_next_staccato_triplet_32nd@,
            self.distance_to_previous_staccato_triplet_32nd@,
            self.crescendo_position_note_forward@,
            self.crescendo_position_note_backward@,
            self.crescendo_position_second_forward@,
            self.crescendo_position_second_backward@,
            self.crescendo_position_triplet_32nd_forward@,
            self.crescendo_position_triplet_32nd_backward@,
            self.crescendo_position_percent_forward@,
            self.crescendo_position_percent_backward@,
            self.decrescendo_position_note_forward@,
            self.decrescendo_position_note_backward@,
            self.decrescendo_position_second_forward@,
            self.decrescendo_position_second_backward@,
            self.decrescendo_position_triplet_32nd_forward@,
            self.decrescendo_position_triplet_32nd_backward@,
            self.decrescendo_position_percent_forward@,
            self.decrescendo_position_percent_backward@,
            self.pitch_difference_from_previous_note@,
            self.pitch_difference_to_next_note@,
            self.reserved_2@,
            self.reserved_3@,
        ]
    }

    /// The section that holds `f`, in the order of the line.
    pub fn from_fields(f: &Vec<LabelValue>) -> (r: Self)
        requires
            f.len() == 60,
        ensures
            r.fields() == texts_of(f@),
    {
        let r = CurrNote {
            absolute_pitch: f[0].clone(),
            relative_pitch: f[1].clone(),
            key_signature: f[2].clone(),
            beat: f[3].clone(),
            tempo: f[4].clone(),
            length_syllable: f[5].clone(),
            length_centisecond: f[6].clone(),
            length_triplet_32nd: f[7].clone(),
            reserved: f[8].clone(),
            measure_note_position_note_forward: f[9].clone(),
            measure_note_position_note_backward: f[10].clone(),
            measure_note_position_centisecond_forward: f[11].clone(),
            measure_note_position_centisecond_backward: f[12].clone(),
            measure_note_position_triplet_32nd_forward: f[13].clone(),
            measure_note_position_triplet_32nd_backward: f[14].clone(),
            measure_note_position_percent_forward: f[15].clone(),
            measure_note_position_percent_backward: f[16].clone(),
            phrase_note_position_note_forward: f[17].clone(),
            phrase_note_position_note_backward: f[18].clone(),
            phrase_note_position_centisecond_forward: f[19].clone(),
            phrase_note_position_centisecond_backward: f[20].clone(),
            phrase_note_position_triplet_32nd_forward: f[21].clone(),
            phrase_note_position_triplet_32nd_backward: f[22].clone(),
            phrase_note_position_percent_forward: f[23].clone(),
            phrase_note_position_percent_backward: f[24].clone(),
            slur_with_previous: f[25].clone(),
            slur_with_next: f[26].clone(),
            dynamic_mark: f[27].clone(),
            distance_to_next_accent_note: f[28].clone(),
            distance_to_previous_accent_note: f[29].clone(),
            distance_to_next_accent_centisecond: f[30].clone(),
            distance_to_previous_accent_centisecond: f[31].clone(),
            distance_to_next_accent_triplet_32nd: f[32].clone(),
            distance_to_previous_accent_triplet_32nd: f[33].clone(),
            distance_to_next_staccato_note: f[34].clone(),
            distance_to_previous_staccato_note: f[35].clone(),
            distance_to_next_staccato_centisecond: f[36].clone(),
            distance_to_previous_staccato_centisecond: f[37].clone(),
            distance_to_next_staccato_triplet_32nd: f[38].clone(),
            distance_to_previous_staccato_triplet_32nd: f[39].clone(),
            crescendo_position_note_forward: f[40].clone(),
            crescendo_position_note_backward: f[41].clone(),
            crescendo_position_second_forward: f[42].clone(),
            crescendo_position_second_backward: f[43].clone(),
            crescendo_position_triplet_32nd_forward: f[44].clone(),
            crescendo_position_triplet_32nd_backward: f[45].clone(),
            crescendo_position_percent_forward: f[46].clone(),
            crescendo_position_percent_backward: f[47].clone(),
            decrescendo_position_note_forward: f[48].clone(),
            decrescendo_position_note_backward: f[49].clone(),
            decrescendo_position_second_forward: f[50].clone(),
            decrescendo_position_second_backward: f[51].clone(),
            decrescendo_position_triplet_32nd_forward: f[52].clone(),
            decrescendo_position_triplet_32nd_backward: f[53].clone(),
            decrescendo_position_percent_forward: f[54].clone(),
            decrescendo_position_percent_backward: f[55].clone(),
            pitch_difference_from_previous_note: f[56].clone(),
            pitch_difference_to_next_note: f[57].clone(),
            reserved_2: f[58].clone(),
            reserved_3: f[59].clone(),
        };
        assert(r.fields() =~= texts_of(f@));
        r
    }

    /// The fields, in the order of the line.
    pub fn to_fields(&self) -> (f: Vec<LabelValue>)
        ensures
            f.len() == 60,
            texts_of(f@) == self.fields(),
    {
        let mut f: Vec<LabelValue> = Vec::new();
        f.push(self.absolute_pitch.clone());
        f.push(self.relative_pitch.clone());
        f.push(self.key_signature.clone());
        f.push(self.beat.clone());
        f.push(self.tempo.clone());
        f.push(self.length_syllable.clone());
        f.push(self.length_centisecond.clone());
        f.push(self.length_triplet_32nd.clone());
        f.push(self.reserved.clone());
        f.push(self.measure_note_position_note_forward.clone());
        f.push(self.measure_note_position_note_backward.clone());
        f.push(self.measure_note_position_centisecond_forward.clone());
        f.push(self.measure_note_position_centisecond_backward.clone());
        f.push(self.measure_note_position_triplet_32nd_forward.clone());
        f.push(self.measure_note_position_triplet_32nd_backward.clone());
        f.push(self.measure_note_position_percent_forward.clone());
        f.push(self.measure_note_position_percent_backward.clone());
        f.push(self.phrase_note_position_note_forward.clone());
        f.push(self.phrase_note_position_note_backward.clone());
        f.push(self.phrase_note_position_centisecond_forward.clone());
        f.push(self.phrase_note_position_centisecond_backward.clone());
        f.push(self.phrase_note_position_triplet_32nd_forward.clone());
        f.push(self.phrase_note_position_triplet_32nd_backward.clone());
        f.push(self.phrase_note_position_percent_forward.clone());
        f.push(self.phrase_note_position_percent_backward.clone());
        f.push(self.slur_with_previous.clone());
        f.push(self.slur_with_next.clone());
        f.push(self.dynamic_mark.clone());
        f.push(self.distance_to_next_accent_note.clone());
        f.push(self.distance_to_previous_accent_note.clone());
        f.push(self.distance_to_next_accent_centisecond.clone());
        f.push(self.distance_to_previous_accent_centisecond.clone());
        f.push(self.distance_to_next_accent_triplet_32nd.clone());
        f.push(self.distance_to_previous_accent_triplet_32nd.clone());
        f.push(self.distance_to_next_staccato_note.clone());
        f.push(self.distance_to_previous_staccato_note.clone());
        f.push(self.distance_to_next_staccato_centisecond.clone());
        f.push(self.distance_to_previous_staccato_centisecond.clone());
        f.push(self.distance_to_next_staccato_triplet_32nd.clone());
        f.push(self.distance_to_previous_staccato_triplet_32nd.clone());
        f.push(self.crescendo_position_note_forward.clone());
        f.push(self.crescendo_position_note_backward.clone());
        f.push(self.crescendo_position_second_forward.clone());
        f.push(self.crescendo_position_second_backward.clone());
        f.push(self.crescendo_position_triplet_32nd_forward.clone());
        f.push(self.crescendo_position_triplet_32nd_backward.clone());
        f.push(self.crescendo_position_percent_forward.clone());
        f.push(self.crescendo_position_percent_backward.clone());
        f.push(self.decrescendo_position_note_forward.clone());
        f.push(self.decrescendo_position_note_backward.clone());
        f.push(self.decrescendo_position_second_forward.clone());
        f.push(self.decrescendo_position_second_backward.clone());
        f.push(self.decrescendo_position_triplet_32nd_forward.clone());
        f.push(self.decrescendo_position_triplet_32nd_backward.clone());
        f.push(self.decrescendo_position_percent_forward.clone());
        f.push(self.decrescendo_position_percent_backward.clone());
        f.push(self.pitch_difference_from_previous_note.clone());
        f.push(self.pitch_difference_to_next_note.clone());
        f.push(self.reserved_2.clone());
        f.push(self.reserved_3.clone());
        assert(texts_of(f@) =~= self.fields());
        f
    }
}

impl Clone for CurrNote {
    fn clone(&self) -> (r: Self)
        ensures
            r.fields() == self.fields(),
    {
        let r = CurrNote {
            absolute_pitch: self.absolute_pitch.clone(),
            relative_pitch: self.relative_pitch.clone(),
            key_signature: self.key_signature.clone(),
            beat: self.beat.clone(),
            tempo: self.tempo.clone(),
            length_syllable: self.length_syllable.clone(),
            length_centisecond: self.length_centisecond.clone(),
            length_triplet_32nd: self.length_triplet_32nd.clone(),
            reserved: self.reserved.clone(),
            measure_note_position_note_forward: self.measure_note_position_note_forward.clone(),
            measure_note_position_note_backward: self.measure_note_position_note_backward.clone(),
            measure_note_position_centisecond_forward: self.measure_note_position_centisecond_forward.clone(),
            measure_note_position_centisecond_backward: self.measure_note_position_centisecond_backward.clone(),
            measure_note_position_triplet_32nd_forward: self.measure_note_position_triplet_32nd_forward.clone(),
            measure_note_position_triplet_32nd_backward: self.measure_note_position_triplet_32nd_backward.clone(),
            measure_note_position_percent_forward: self.measure_note_position_percent_forward.clone(),
            measure_note_position_percent_backward: self.measure_note_position_percent_backward.clone(),
            phrase_note_position_note_forward: self.phrase_note_position_note_forward.clone(),
            phrase_note_position_note_backward: self.phrase_note_position_note_backward.clone(),
            phrase_note_position_centisecond_forward: self.phrase_note_position_centisecond_forward.clone(),
            phrase_note_position_centisecond_backward: self.phrase_note_position_centisecond_backward.clone(),
            phrase_note_position_triplet_32nd_forward: self.phrase_note_position_triplet_32nd_forward.clone(),
            phrase_note_position_triplet_32nd_backward: self.phrase_note_position_triplet_32nd_backward.clone(),
            phrase_note_position_percent_forward: self.phrase_note_position_percent_forward.clone(),
            phrase_note_position_percent_backward: self.phrase_note_position_percent_backward.clone(),
            slur_with_previous: self.slur_with_previous.clone(),
            slur_with_next: self.slur_with_next.clone(),
            dynamic_mark: self.dynamic_mark.clone(),
            distance_to_next_accent_note: self.distance_to_next_accent_note.clone(),
            distance_to_previous_accent_note: self.distance_to_previous_accent_note.clone(),
            distance_to_next_accent_centisecond: self.distance_to_next_accent_centisecond.clone(),
            distance_to_previous_accent_centisecond: self.distance_to_previous_accent_centisecond.clone(),
            distance_to_next_accent_triplet_32nd: self.distance_to_next_accent_triplet_32nd.clone(),
            distance_to_previous_accent_triplet_32nd: self.distance_to_previous_accent_triplet_32nd.clone(),
            distance_to_next_staccato_note: self.distance_to_next_staccato_note.clone(),
            distance_to_previous_staccato_note: self.distance_to_previous_staccato_note.clone(),
            distance_to_next_staccato_centisecond: self.distance_to_next_staccato_centisecond.clone(),
            distance_to_previous_staccato_centisecond: self.distance_to_previous_staccato_centisecond.clone(),
            distance_to_next_staccato_triplet_32nd: self.distance_to_next_staccato_triplet_32nd.clone(),
            distance_to_previous_staccato_triplet_32nd: self.distance_to_previous_staccato_triplet_32nd.clone(),
            crescendo_position_note_forward: self.crescendo_position_note_forward.clone(),
            crescendo_position_note_backward: self.crescendo_position_note_backward.clone(),
            crescendo_position_second_forward: self.crescendo_position_second_forward.clone(),
            crescendo_position_second_backward: self.crescendo_position_second_backward.clone(),
            crescendo_position_triplet_32nd_forward: self.crescendo_position_triplet_32nd_forward.clone(),
            crescendo_position_triplet_32nd_backward: self.crescendo_position_triplet_32nd_backward.clone(),
            crescendo_position_percent_forward: self.crescendo_position_percent_forward.clone(),
            crescendo_position_percent_backward: self.crescendo_position_percent_backward.clone(),
            decrescendo_position_note_forward: self.decrescendo_position_note_forward.clone(),
            decrescendo_position_note_backward: self.decrescendo_position_note_backward.clone(),
            decrescendo_position_second_forward: self.decrescendo_position_second_forward.clone(),
            decrescendo_position_second_backward: self.decrescendo_position_second_backward.clone(),
            decrescendo_position_triplet_32nd_forward: self.decrescendo_position_triplet_32nd_forward.clone(),
            decrescendo_position_triplet_32nd_backward: self.decrescendo_position_triplet_32nd_backward.clone(),
            decrescendo_position_percent_forward: self.decrescendo_position_percent_forward.clone(),
            decrescendo_position_percent_backward: self.decrescendo_position_percent_backward.clone(),
            pitch_difference_from_previous_note: self.pitch_difference_from_previous_note.clone(),
            pitch_difference_to_next_note: self.pitch_difference_to_next_note.clone(),
            reserved_2: self.reserved_2.clone(),
            reserved_3: self.reserved_3.clone(),
        };
        assert(r.fields() =~= self.fields());
        r
    }
}

/// The next-note section (`F`).
#[derive(Debug, PartialEq, Eq)]
pub struct NextNote {
    pub absolute_pitch: LabelValue,
    pub relative_pitch: LabelValue,
    pub key_signature: LabelValue,
    pub beat: LabelValue,
    pub tempo: LabelValue,
    pub length_syllable: LabelValue,
    pub length_centisecond: LabelValue,
    pub length_triplet_32nd: LabelValue,
    pub reserved: LabelValue,
}

impl NextNote {
    /// The texts of the fields, in the order of the line.
    pub open spec fn fields(&self) -> Seq<Seq<char>> {
        seq![
            self.absolute_pitch@,
            self.relative_pitch@,
            self.key_signature@,
            self.beat@,
            self.tempo@,
            self.length_syllable@,
            self.length_centisecond@,
            self.length_triplet_32nd@,
            self.reserved@,
        ]
    }

    /// The section that holds `f`, in the order of the line.
    pub fn from_fields(f: &Vec<LabelValue>) -> (r: Self)
        requires
            f.len() == 9,
        ensures
            r.fields() == texts_of(f@),
    {
        let r = NextNote {
            absolute_pitch: f[0].clone(),
            relative_pitch: f[1].clone(),
            key_signature: f[2].clone(),
            beat: f[3].clone(),
            tempo: f[4].clone(),
            length_syllable: f[5].clone(),
            length_centisecond: f[6].clone(),
            length_triplet_32nd: f[7].clone(),
            reserved: f[8].clone(),
        };
        assert(r.fields() =~= texts_of(f@));
        r
    }

    /// The fields, in the order of the line.
    pub fn to_fields(&self) -> (f: Vec<LabelValue>)
        ensures
            f.len() == 9,
            texts_of(f@) == self.fields(),
    {
        let mut f: Vec<LabelValue> = Vec::new();
        f.push(self.absolute_pitch.clone());
        f.push(self.relative_pitch.clone());
        f.push(self.key_signature.clone());
        f.push(self.beat.clone());
        f.push(self.tempo.clone());
        f.push(self.length_syllable.clone());
        f.push(self.length_centisecond.clone());
        f.push(self.length_triplet_32nd.clone());
        f.push(self.reserved.clone());
        assert(texts_of(f@) =~= self.fields());
        f
    }
}

impl Clone for NextNote {
    fn clone(&self) -> (r: Self)
        ensures
            r.fields() == self.fields(),
    {
        let r = NextNote {
            absolute_pitch: self.absolute_pitch.clone(),
            relative_pitch: self.relative_pitch.clone(),
            key_signature: self.key_signature.clone(),
            beat: self.beat.clone(),
            tempo: self.tempo.clone(),
            length_syllable: self.length_syllable.clone(),
            length_centisecond: self.length_centisecond.clone(),
            length_triplet_32nd: self.length_triplet_32nd.clone(),
            reserved: self.reserved.clone(),
        };
        assert(r.fields() =~= self.fields());
        r
    }
}

/// The previous-phrase section (`G`).
#[derive(Debug, PartialEq, Eq)]
pub struct PrevPhrase {
    pub syllable_count: LabelValue,
    pub phoneme_count: LabelValue,
}

impl PrevPhrase {
    /// The texts of the fields, in the order of the line.
    pub open spec fn fields(&self) -> Seq<Seq<char>> {
        seq![
            self.syllable_count@,
            self.phoneme_count@,
        ]
    }

    /// The section that holds `f`, in the order of the line.
    pub fn from_fields(f: &Vec<LabelValue>) -> (r: Self)
        requires
            f.len() == 2,
        ensures
            r.fields() == texts_of(f@),
    {
        let r = PrevPhrase {
            syllable_count: f[0].clone(),
            phoneme_count: f[1].clone(),
        };
        assert(r.fields() =~= texts_of(f@));
        r
    }

    /// The fields, in the order of the line.
    pub fn to_fields(&self) -> (f: Vec<LabelValue>)
        ensures
            f.len() == 2,
            texts_of(f@) == self.fields(),
    {
        let mut f: Vec<LabelValue> = Vec::new();
        f.push(self.syllable_count.clone());
        f.push(self.phoneme_count.clone());
        assert(texts_of(f@) =~= self.fields());
        f
    }
}

impl Clone for PrevPhrase {
    fn clone(&self) -> (r: Self)
        ensures
            r.fields() == self.fields(),
    {
        let r = PrevPhrase {
            syllable_count: self.syllable_count.clone(),
            phoneme_count: self.phoneme_count.clone(),
        };
        assert(r.fields() =~= self.fields());
        r
    }
}

/// The current-phrase section (`H`).
#[derive(Debug, PartialEq, Eq)]
pub struct CurrPhrase {
    pub syllable_count: LabelValue,
    pub phoneme_count: LabelValue,
}

impl CurrPhrase {
    /// The texts of the fields, in the order of the line.
    pub open spec fn fields(&self) -> Seq<Seq<char>> {
        seq![
            self.syllable_count@,
            self.phoneme_count@,
        ]
    }

    /// The section that holds `f`, in the order of the line.
    pub fn from_fields(f: &Vec<LabelValue>) -> (r: Self)
        requires
            f.len() == 2,
        ensures
            r.fields() == texts_of(f@),
    {
        let r = CurrPhrase {
            syllable_count: f[0].clone(),
            phoneme_count: f[1].clone(),
        };
        assert(r.fields() =~= texts_of(f@));
        r
    }

    /// The fields, in the order of the line.
    pub fn to_fields(&self) -> (f: Vec<LabelValue>)
        ensures
            f.len() == 2,
            texts_of(f@) == self.fields(),
    {
        let mut f: Vec<LabelValue> = Vec::new();
        f.push(self.syllable_count.clone());
        f.push(self.phoneme_count.clone());
        assert(texts_of(f@) =~= self.fields());
        f
    }
}

impl Clone for CurrPhrase {
    fn clone(&self) -> (r: Self)
        ensures
            r.fields() == self.fields(),
    {
        let r = CurrPhrase {
            syllable_count: self.syllable_count.clone(),
            phoneme_count: self.phoneme_count.clone(),
        };
        assert(r.fields() =~= self.fields());
        r
    }
}

/// The next-phrase section (`I`).
#[derive(Debug, PartialEq, Eq)]
pub struct NextPhrase {
    pub syllable_count: LabelValue,
    pub phoneme_count: LabelValue,
}

impl NextPhrase {
    /// The texts of the fields, in the order of the line.
    pub open spec fn fields(&self) -> Seq<Seq<char>> {
        seq![
            self.syllable_count@,
            self.phoneme_count@,
        ]
    }

    /// The section that holds `f`, in the order of the line.
    pub fn from_fields(f: &Vec<LabelValue>) -> (r: Self)
        requires
            f.len() == 2,
        ensures
            r.fields() == texts_of(f@),
    {
        let r = NextPhrase {
            syllable_count: f[0].clone(),
            phoneme_count: f[1].clone(),
        };
        assert(r.fields() =~= texts_of(f@));
        r
    }

    /// The fields, in the order of the line.
    pub fn to_fields(&self) -> (f: Vec<LabelValue>)
        ensures
            f.len() == 2,
            texts_of(f@) == self.fields(),
    {
        let mut f: Vec<LabelValue> = Vec::new();
        f.push(self.syllable_count.clone());
        f.push(self.phoneme_count.clone());
        assert(texts_of(f@) =~= self.fields());
        f
    }
}

impl Clone for NextPhrase {
    fn clone(&self) -> (r: Self)
        ensures
            r.fields() == self.fields(),
    {
        let r = NextPhrase {
            syllable_count: self.syllable_count.clone(),
            phoneme_count: self.phoneme_count.clone(),
        };
        assert(r.fields() =~= self.fields());
        r
    }
}

/// The song section (`J`).
#[derive(Debug, PartialEq, Eq)]
pub struct SongContext {
    pub syllable_per_measure: LabelValue,
    pub phoneme_per_measure: LabelValue,
    pub phrase_count: LabelValue,
}

impl SongContext {
    /// The texts of the fields, in the order of the line.
    pub open spec fn fields(&self) -> Seq<Seq<char>> {
        seq![
            self.syllable_per_measure@,
            self.phoneme_per_measure@,
            self.phrase_count@,
        ]
    }

    /// The section that holds `f`, in the order of the line.
    pub fn from_fields(f: &Vec<LabelValue>) -> (r: Self)
        requires
            f.len() == 3,
        ensures
            r.fields() == texts_of(f@),
    {
        let r = SongContext {
            syllable_per_measure: f[0].clone(),
            phoneme_per_measure: f[1].clone(),
            phrase_count: f[2].clone(),
        };
        assert(r.fields() =~= texts_of(f@));
        r
    }

    /// The fields, in the order of the line.
    pub fn to_fields(&self) -> (f: Vec<LabelValue>)
        ensures
            f.len() == 3,
            texts_of(f@) == self.fields(),
    {
        let mut f: Vec<LabelValue> = Vec::new();
        f.push(self.syllable_per_measure.clone());
        f.push(self.phoneme_per_measure.clone());
        f.push(self.phrase_count.clone());
        assert(texts_of(f@) =~= self.fields());
        f
    }
}

impl Clone for SongContext {
    fn clone(&self) -> (r: Self)
        ensures
            r.fields() == self.fields(),
    {
        let r = SongContext {
            syllable_per_measure: self.syllable_per_measure.clone(),
            phoneme_per_measure: self.phoneme_per_measure.clone(),
            phrase_count: self.phrase_count.clone(),
        };
        assert(r.fields() =~= self.fields());
        r
    }
}
/// One context label: the eleven sections of a line.
#[derive(Debug, PartialEq, Eq)]
pub struct Label {
    pub phoneme: PhonemeContext,
    pub prev_syllable: PrevSyllable,
    pub curr_syllable: CurrSyllable,
    pub next_syllable: NextSyllable,
    pub prev_note: PrevNote,
    pub curr_note: CurrNote,
    pub next_note: NextNote,
    pub prev_phrase: PrevPhrase,
    pub curr_phrase: CurrPhrase,
    pub next_phrase: NextPhrase,
    pub song: SongContext,
}

impl View for Label {
    type V = Seq<Seq<Seq<char>>>;

    /// The sections in the order of the line, each with the texts of its
    /// fields.
    open spec fn view(&self) -> Seq<Seq<Seq<char>>> {
        seq![
            self.phoneme.fields(),
            self.prev_syllable.fields(),
            self.curr_syllable.fields(),
            self.next_syllable.fields(),
            self.prev_note.fields(),
            self.curr_note.fields(),
            self.next_note.fields(),
            self.prev_phrase.fields(),
            self.curr_phrase.fields(),
            self.next_phrase.fields(),
            self.song.fields(),
        ]
    }
}

impl Clone for Label {
    fn clone(&self) -> (r: Self)
        ensures
            r@ == self@,
    {
        Label {
            phoneme: self.phoneme.clone(),
            prev_syllable: self.prev_syllable.clone(),
            curr_syllable: self.curr_syllable.clone(),
            next_syllable: self.next_syllable.clone(),
            prev_note: self.prev_note.clone(),
            curr_note: self.curr_note.clone(),
            next_note: self.next_note.clone(),
            prev_phrase: self.prev_phrase.clone(),
            curr_phrase: self.curr_phrase.clone(),
            next_phrase: self.next_phrase.clone(),
            song: self.song.clone(),
        }
    }
}

/// Why a line is not a label.
#[derive(Debug)]
pub struct ParseError {
    /// `root` where the section markers are missing, else the letter of the
    /// section that does not split into its fields.
    pub section: &'static str,
    pub message: LabelValue,
}

/// What a `ParseError` says.
pub struct ParseErrorView {
    pub section: Seq<char>,
    pub message: Seq<char>,
}

impl View for ParseError {
    type V = ParseErrorView;

    open spec fn view(&self) -> ParseErrorView {
        ParseErrorView { section: self.section@, message: self.message@ }
    }
}

impl Clone for ParseError {
    fn clone(&self) -> (r: Self)
        ensures
            r@ == self@,
    {
        ParseError { section: self.section, message: self.message.clone() }
    }
}

impl ParseError {
    /// The error as one line of text: the section in square brackets, a
    /// space, and the message.
    pub fn describe(&self) -> (r: String)
        ensures
            r@ == seq!['['] + self.section@ + seq![']', ' '] + self.message@,
    {
        proof {
            reveal_strlit("[");
            reveal_strlit("] ");
        }
        let a = concat("[", self.section);
        let b = concat(a.as_str(), "] ");
        let r = concat(b.as_str(), self.message.as_str());
        assert(r@ =~= seq!['['] + self.section@ + seq![']', ' '] + self.message@);
        r
    }
}

// ---------------------------------------------------------------------
// The grammar
// ---------------------------------------------------------------------

/// The letter of section `k`: `P` for the first, then `A` to `J`.
pub open spec fn section_letter(k: int) -> char {
    if k == 0 {
        'P'
    } else if k == 1 {
        'A'
    } else if k == 2 {
        'B'
    } else if k == 3 {
        'C'
    } else if k == 4 {
        'D'
    } else if k == 5 {
        'E'
    } else if k == 6 {
        'F'
    } else if k == 7 {
        'G'
    } else if k == 8 {
        'H'
    } else if k == 9 {
        'I'
    } else {
        'J'
    }
}

/// The characters that separate the fields of section `k`, in order.
pub open spec fn section_delims(k: int) -> Seq<char> {
    if k == 0 {
        "@^-+=_%^_~-![$]"@
    } else if k == 1 {
        "--@~"@
    } else if k == 2 {
        "__@|"@
    } else if k == 3 {
        "++@&"@
    } else if k == 4 {
        "!#$%|&;-"@
    } else if k == 5 {
        "]^=~!@#+]$|[&]=^~#_;$&%[|]-^+~=@$!%#||-&&+[;];~~^^@[#=!~+!^"@
    } else if k == 6 {
        "##-$$+%;"@
    } else if k == 10 {
        "~@"@
    } else {
        "_"@
    }
}

/// The number of fields of section `k`.
pub open spec fn field_count(k: int) -> nat {
    if k == 0 {
        16
    } else if 1 <= k <= 3 {
        5
    } else if k == 4 || k == 6 {
        9
    } else if k == 5 {
        60
    } else if k == 10 {
        3
    } else {
        2
    }
}

/// A section has one separator less than it has fields.
pub(crate) proof fn lemma_section_delims_len(k: int)
    ensures
        section_delims(k).len() + 1 == field_count(k),
{
    reveal_strlit("@^-+=_%^_~-![$]");
    reveal_strlit("--@~");
    reveal_strlit("__@|");
    reveal_strlit("++@&");
    reveal_strlit("!#$%|&;-");
    reveal_strlit("]^=~!@#+]$|[&]=^~#_;$&%[|]-^+~=@$!%#||-&&+[;];~~^^@[#=!~+!^");
    reveal_strlit("##-$$+%;");
    reveal_strlit("~@");
    reveal_strlit("_");
}

/// `rest` with `done` in front of it.
pub open spec fn prepend(done: Seq<Seq<char>>, rest: Option<Seq<Seq<char>>>) -> Option<
    Seq<Seq<char>>,
> {
    match rest {
        Some(r) => Some(done + r),
        None => None,
    }
}

/// The fields of `s[from..]`: each field but the last ends before the first
/// occurrence of its separator that leaves it at least one character; the
/// last field is what remains, and is not empty. `None` where a separator
/// is missing or the last field is empty.
pub open spec fn split_fields_from(s: Seq<char>, from: int, delims: Seq<char>) -> Option<
    Seq<Seq<char>>,
>
    decreases delims.len(),
{
    if delims.len() == 0 {
        if from < s.len() {
            Some(seq![s.skip(from)])
        } else {
            None
        }
    } else {
        let p = index_of_from(s, delims[0], from + 1);
        if p >= s.len() {
            None
        } else {
            prepend(seq![s.subrange(from, p)], split_fields_from(s, p + 1, delims.drop_first()))
        }
    }
}

/// The fields of the section text `s`.
pub open spec fn split_fields(s: Seq<char>, delims: Seq<char>) -> Option<Seq<Seq<char>>> {
    split_fields_from(s, 0, delims)
}

/// The first `n` fields with their separators between them.
pub open spec fn join_fields_upto(fields: Seq<Seq<char>>, delims: Seq<char>, n: int) -> Seq<char>
    decreases n,
{
    if n <= 0 {
        Seq::empty()
    } else if n == 1 {
        fields[0]
    } else {
        join_fields_upto(fields, delims, n - 1) + seq![delims[n - 2]] + fields[n - 1]
    }
}

/// The text of a section: its fields with the separators between them.
pub open spec fn join_fields(fields: Seq<Seq<char>>, delims: Seq<char>) -> Seq<char> {
    join_fields_upto(fields, delims, fields.len() as int)
}

/// The marker that opens section `k`, for `k` from 1 to 10: a slash, the
/// section's letter and a colon.
pub open spec fn section_marker(k: int) -> Seq<char> {
    seq!['/', section_letter(k), ':']
}

/// Whether the marker of section `k` stands at index `i` of `s`.
pub open spec fn marker_at(s: Seq<char>, k: int, i: int) -> bool {
    0 <= i && i + 3 <= s.len() && s[i] == '/' && s[i + 1] == section_letter(k) && s[i + 2] == ':'
}

/// The least index `i >= from` at which the marker of section `k` stands,
/// or `s.len()` when there is none.
pub open spec fn marker_index(s: Seq<char>, k: int, from: int) -> int
    decreases s.len() - from,
{
    if from + 3 > s.len() {
        s.len() as int
    } else if marker_at(s, k, from) {
        from
    } else {
        marker_index(s, k, from + 1)
    }
}

/// The texts of sections `k` to 10, where section `k` starts at `from`:
/// each section but the last ends before the first marker of the next one.
/// `None` where a marker is missing.
pub open spec fn split_sections_from(s: Seq<char>, from: int, k: int) -> Option<Seq<Seq<char>>>
    decreases 10 - k,
{
    if k >= 10 {
        Some(seq![s.skip(from)])
    } else {
        let p = marker_index(s, k + 1, from);
        if p >= s.len() {
            None
        } else {
            prepend(seq![s.subrange(from, p)], split_sections_from(s, p + 3, k + 1))
        }
    }
}

/// The first `n` of the texts of sections `first`, `first + 1` and so on,
/// with the markers between them.
pub open spec fn join_sections_upto(texts: Seq<Seq<char>>, first: int, n: int) -> Seq<char>
    decreases n,
{
    if n <= 0 {
        Seq::empty()
    } else if n == 1 {
        texts[0]
    } else {
        join_sections_upto(texts, first, n - 1) + section_marker(first + n - 1) + texts[n - 1]
    }
}

/// The texts of the sections of a label.
pub open spec fn section_texts(sections: Seq<Seq<Seq<char>>>) -> Seq<Seq<char>> {
    Seq::new(sections.len(), |k: int| join_fields(sections[k], section_delims(k)))
}

/// The line of a label: the texts of its sections with the markers between
/// them.
pub open spec fn line_of(sections: Seq<Seq<Seq<char>>>) -> Seq<char> {
    join_sections_upto(section_texts(sections), 0, sections.len() as int)
}

/// The message of the error for a line without its ten markers in order.
pub open spec fn root_message() -> Seq<char> {
    "missing required /A..../J sections"@
}

/// The message of the error for the section text `text`.
pub open spec fn mismatch_message(text: Seq<char>) -> Seq<char> {
    "format mismatch: "@ + text
}

/// The name of section `k` in an error.
pub open spec fn section_name(k: int) -> Seq<char> {
    seq![section_letter(k)]
}

/// The fields of the section texts `texts[k..]`, or the error of the first
/// of them that does not split.
pub open spec fn parse_sections(texts: Seq<Seq<char>>, k: int) -> Result<
    Seq<Seq<Seq<char>>>,
    ParseErrorView,
>
    decreases 11 - k,
{
    if k >= 11 {
        Ok(Seq::empty())
    } else {
        match split_fields(texts[k], section_delims(k)) {
            None => Err(
                ParseErrorView { section: section_name(k), message: mismatch_message(texts[k]) },
            ),
            Some(f) => match parse_sections(texts, k + 1) {
                Ok(rest) => Ok(seq![f] + rest),
                Err(e) => Err(e),
            },
        }
    }
}

/// What a line parses to. A line that holds a line feed, or lacks one of
/// the ten markers in order, is refused at the root; else the first section
/// that does not split into its fields is reported.
pub open spec fn parse_line(s: Seq<char>) -> Result<Seq<Seq<Seq<char>>>, ParseErrorView> {
    if s.contains('\n') {
        Err(ParseErrorView { section: "root"@, message: root_message() })
    } else {
        match split_sections_from(s, 0, 0) {
            None => Err(ParseErrorView { section: "root"@, message: root_message() }),
            Some(texts) => parse_sections(texts, 0),
        }
    }
}

// ---------------------------------------------------------------------
// Reading a line
// ---------------------------------------------------------------------

/// The letter of section `k`.
pub fn section_letter_of(k: usize) -> (c: char)
    requires
        k <= 10,
    ensures
        c == section_letter(k as int),
{
    if k == 0 {
        'P'
    } else if k == 1 {
        'A'
    } else if k == 2 {
        'B'
    } else if k == 3 {
        'C'
    } else if k == 4 {
        'D'
    } else if k == 5 {
        'E'
    } else if k == 6 {
        'F'
    } else if k == 7 {
        'G'
    } else if k == 8 {
        'H'
    } else if k == 9 {
        'I'
    } else {
        'J'
    }
}

/// The separators of section `k`.
pub fn section_delims_of(k: usize) -> (d: Vec<char>)
    requires
        k <= 10,
    ensures
        d@ == section_delims(k as int),
        d.len() + 1 == field_count(k as int),
{
    proof {
        lemma_section_delims_len(k as int);
    }
    if k == 0 {
        chars_of("@^-+=_%^_~-![$]")
    } else if k == 1 {
        chars_of("--@~")
    } else if k == 2 {
        chars_of("__@|")
    } else if k == 3 {
        chars_of("++@&")
    } else if k == 4 {
        chars_of("!#$%|&;-")
    } else if k == 5 {
        chars_of("]^=~!@#+]$|[&]=^~#_;$&%[|]-^+~=@$!%#||-&&+[;];~~^^@[#=!~+!^")
    } else if k == 6 {
        chars_of("##-$$+%;")
    } else if k == 10 {
        chars_of("~@")
    } else {
        chars_of("_")
    }
}

/// A position before which no marker of section `k` stands, and which
/// holds one or is the end, is the marker's index.
pub(crate) proof fn lemma_marker_index_is(s: Seq<char>, k: int, from: int, p: int)
    requires
        0 <= from <= p <= s.len(),
        forall|j: int| from <= j < p ==> !marker_at(s, k, j),
        p < s.len() ==> marker_at(s, k, p),
        p == s.len() || p + 3 <= s.len(),
    ensures
        marker_index(s, k, from) == p,
    decreases p - from,
{
    if from < p {
        lemma_marker_index_is(s, k, from + 1, p);
    }
}

/// `marker_index` is the first marker at or after `from`.
pub(crate) proof fn lemma_marker_index(s: Seq<char>, k: int, from: int)
    requires
        0 <= from <= s.len(),
    ensures
        from <= marker_index(s, k, from) <= s.len(),
        marker_index(s, k, from) < s.len() ==> marker_at(s, k, marker_index(s, k, from)),
        forall|j: int| from <= j < marker_index(s, k, from) ==> !marker_at(s, k, j),
    decreases s.len() - from,
{
    if from + 3 <= s.len() && !marker_at(s, k, from) {
        lemma_marker_index(s, k, from + 1);
    }
}

/// The first index at or after `from` where the marker of section `k`
/// stands, or `v.len()`.
pub fn find_marker(v: &Vec<char>, k: usize, from: usize) -> (p: usize)
    requires
        from <= v.len(),
        1 <= k <= 10,
    ensures
        p == marker_index(v@, k as int, from as int),
        from <= p <= v.len(),
        p < v.len() ==> p + 3 <= v.len(),
{
    let letter = section_letter_of(k);
    let n = v.len();
    let mut i: usize = from;
    while n >= 3 && i <= n - 3
        invariant
            from <= i <= n,
            n == v.len(),
            letter == section_letter(k as int),
            forall|j: int| from <= j < i ==> !marker_at(v@, k as int, j),
        decreases n - i,
    {
        if v[i] == '/' && v[i + 1] == letter && v[i + 2] == ':' {
            proof {
                lemma_marker_index_is(v@, k as int, from as int, i as int);
            }
            return i;
        }
        i += 1;
    }
    proof {
        assert forall|j: int| from <= j < n implies !marker_at(v@, k as int, j) by {}
        lemma_marker_index_is(v@, k as int, from as int, n as int);
    }
    n
}

/// The texts of the character vectors `t`.
pub open spec fn views_of(t: Seq<Vec<char>>) -> Seq<Seq<char>> {
    Seq::new(t.len(), |i: int| t[i]@)
}

/// The texts of the eleven sections of the line `v`, or `None` where one of
/// the ten markers is missing.
pub fn split_section_texts(v: &Vec<char>) -> (r: Option<Vec<Vec<char>>>)
    ensures
        match r {
            Some(t) => t.len() == 11 && split_sections_from(v@, 0, 0) == Some(views_of(t@)),
            None => split_sections_from(v@, 0, 0) is None,
        },
{
    let mut texts: Vec<Vec<char>> = Vec::new();
    let mut cur: usize = 0;
    let mut k: usize = 0;
    while k < 10
        invariant
            k <= 10,
            cur <= v.len(),
            texts.len() == k,
            split_sections_from(v@, 0, 0) == prepend(
                views_of(texts@),
                split_sections_from(v@, cur as int, k as int),
            ),
        decreases 10 - k,
    {
        let p = find_marker(v, k + 1, cur);
        if p >= v.len() {
            return None;
        }
        let text = copy_range(v, cur, p);
        proof {
            let done = views_of(texts@);
            let rest = split_sections_from(v@, p + 3, k + 1);
            assert(views_of(texts@.push(text)) =~= done + seq![text@]);
            assert(rest is Some ==> (done + seq![text@]) + rest->0 =~= done + (seq![text@]
                + rest->0));
        }
        texts.push(text);
        cur = p + 3;
        k += 1;
    }
    let last = copy_range(v, cur, v.len());
    proof {
        assert(v@.skip(cur as int) =~= v@.subrange(cur as int, v.len() as int));
        assert(views_of(texts@.push(last)) =~= views_of(texts@) + seq![last@]);
    }
    texts.push(last);
    Some(texts)
}

/// The fields of the text of section `k`, or `None` where it does not
/// split.
pub fn split_section_fields(text: &Vec<char>, k: usize) -> (r: Option<Vec<LabelValue>>)
    requires
        k <= 10,
    ensures
        match r {
            Some(f) => f.len() == field_count(k as int) && split_fields(
                text@,
                section_delims(k as int),
            ) == Some(texts_of(f@)),
            None => split_fields(text@, section_delims(k as int)) is None,
        },
{
    let delims = section_delims_of(k);
    let n = text.len();
    let mut fields: Vec<LabelValue> = Vec::new();
    let mut cur: usize = 0;
    let mut i: usize = 0;
    proof {
        assert(delims@.skip(0) =~= delims@);
        let rest = split_fields_from(text@, 0, delims@);
        assert(rest is Some ==> texts_of(fields@) + rest->0 =~= rest->0);
    }
    while i < delims.len()
        invariant
            i <= delims.len(),
            cur <= n,
            n == text.len(),
            fields.len() == i,
            delims@ == section_delims(k as int),
            delims.len() + 1 == field_count(k as int),
            split_fields_from(text@, 0, delims@) == prepend(
                texts_of(fields@),
                split_fields_from(text@, cur as int, delims@.skip(i as int)),
            ),
        decreases delims.len() - i,
    {
        let ghost ds = delims@.skip(i as int);
        proof {
            assert(ds[0] == delims@[i as int]);
            assert(ds.drop_first() =~= delims@.skip(i + 1));
        }
        if cur >= n {
            return None;
        }
        let p = find_char(text, delims[i], cur + 1);
        if p >= n {
            return None;
        }
        let field = LabelValue::new(string_of(text, cur, p));
        proof {
            let done = texts_of(fields@);
            let rest = split_fields_from(text@, p + 1, delims@.skip(i + 1));
            assert(texts_of(fields@.push(field)) =~= done + seq![field@]);
            assert(rest is Some ==> (done + seq![field@]) + rest->0 =~= done + (seq![field@]
                + rest->0));
        }
        fields.push(field);
        cur = p + 1;
        i += 1;
    }
    proof {
        assert(delims@.skip(i as int).len() == 0);
    }
    if cur >= n {
        return None;
    }
    let last = LabelValue::new(string_of(text, cur, n));
    proof {
        assert(text@.skip(cur as int) =~= text@.subrange(cur as int, n as int));
        assert(texts_of(fields@.push(last)) =~= texts_of(fields@) + seq![last@]);
    }
    fields.push(last);
    Some(fields)
}

/// The error for a line without its markers.
fn root_error() -> (e: ParseError)
    ensures
        e@ == (ParseErrorView { section: "root"@, message: root_message() }),
{
    ParseError {
        section: "root",
        message: LabelValue::of("missing required /A..../J sections"),
    }
}

/// The error for section `k`, whose text `text` does not split.
fn mismatch_error(text: &Vec<char>, k: usize) -> (e: ParseError)
    requires
        k <= 10,
    ensures
        e@ == (ParseErrorView {
            section: section_name(k as int),
            message: mismatch_message(text@),
        }),
{
    proof {
        reveal_strlit("P");
        reveal_strlit("A");
        reveal_strlit("B");
        reveal_strlit("C");
        reveal_strlit("D");
        reveal_strlit("E");
        reveal_strlit("F");
        reveal_strlit("G");
        reveal_strlit("H");
        reveal_strlit("I");
        reveal_strlit("J");
    }
    let section: &'static str = if k == 0 {
        "P"
    } else if k == 1 {
        "A"
    } else if k == 2 {
        "B"
    } else if k == 3 {
        "C"
    } else if k == 4 {
        "D"
    } else if k == 5 {
        "E"
    } else if k == 6 {
        "F"
    } else if k == 7 {
        "G"
    } else if k == 8 {
        "H"
    } else if k == 9 {
        "I"
    } else {
        "J"
    };
    assert(section@ =~= section_name(k as int));
    let body = string_of(text, 0, text.len());
    assert(body@ =~= text@);
    let message = concat("format mismatch: ", body.as_str());
    ParseError { section, message: LabelValue::new(message) }
}

/// Reads one line as a label.
///
/// The line is cut at the first `/A:`, then at the first `/B:` after it,
/// and so on to `/J:`; each section is cut into its fields at the section's
/// separators, every field taking at least one character and ending before
/// the first occurrence of its separator after that. Fields are kept as
/// they stand.
pub fn parse_label_line(line: &str) -> (r: Result<Label, ParseError>)
    ensures
        match r {
            Ok(label) => parse_line(line@) == Ok::<Seq<Seq<Seq<char>>>, ParseErrorView>(label@),
            Err(e) => parse_line(line@) == Err::<Seq<Seq<Seq<char>>>, ParseErrorView>(e@),
        },
{
    let v = chars_of(line);
    let nl = find_char(&v, '\n', 0);
    proof {
        lemma_index_of_from(v@, '\n', 0);
    }
    if nl < v.len() {
        assert(v@[nl as int] == '\n');
        assert(v@.contains('\n'));
        return Err(root_error());
    }
    assert(!v@.contains('\n'));
    let texts = match split_section_texts(&v) {
        Some(t) => t,
        None => {
            return Err(root_error());
        },
    };
    let ghost tv = views_of(texts@);
    proof {
        reveal_with_fuel(parse_sections, 12);
        assert forall|k: int| 0 <= k < 11 implies tv[k] == #[trigger] texts@[k]@ by {}
    }
    let p = match split_section_fields(&texts[0], 0) {
        Some(f) => f,
        None => {
            return Err(mismatch_error(&texts[0], 0));
        },
    };
    let a = match split_section_fields(&texts[1], 1) {
        Some(f) => f,
        None => {
            return Err(mismatch_error(&texts[1], 1));
        },
    };
    let b = match split_section_fields(&texts[2], 2) {
        Some(f) => f,
        None => {
            return Err(mismatch_error(&texts[2], 2));
        },
    };
    let c = match split_section_fields(&texts[3], 3) {
        Some(f) => f,
        None => {
            return Err(mismatch_error(&texts[3], 3));
        },
    };
    let d = match split_section_fields(&texts[4], 4) {
        Some(f) => f,
        None => {
            return Err(mismatch_error(&texts[4], 4));
        },
    };
    let e = match split_section_fields(&texts[5], 5) {
        Some(f) => f,
        None => {
            return Err(mismatch_error(&texts[5], 5));
        },
    };
    let f = match split_section_fields(&texts[6], 6) {
        Some(f) => f,
        None => {
            return Err(mismatch_error(&texts[6], 6));
        },
    };
    let g = match split_section_fields(&texts[7], 7) {
        Some(f) => f,
        None => {
            return Err(mismatch_error(&texts[7], 7));
        },
    };
    let h = match split_section_fields(&texts[8], 8) {
        Some(f) => f,
        None => {
            return Err(mismatch_error(&texts[8], 8));
        },
    };
    let i = match split_section_fields(&texts[9], 9) {
        Some(f) => f,
        None => {
            return Err(mismatch_error(&texts[9], 9));
        },
    };
    let j = match split_section_fields(&texts[10], 10) {
        Some(f) => f,
        None => {
            return Err(mismatch_error(&texts[10], 10));
        },
    };
    let label = Label {
        phoneme: PhonemeContext::from_fields(&p),
        prev_syllable: PrevSyllable::from_fields(&a),
        curr_syllable: CurrSyllable::from_fields(&b),
        next_syllable: NextSyllable::from_fields(&c),
        prev_note: PrevNote::from_fields(&d),
        curr_note: CurrNote::from_fields(&e),
        next_note: NextNote::from_fields(&f),
        prev_phrase: PrevPhrase::from_fields(&g),
        curr_phrase: CurrPhrase::from_fields(&h),
        next_phrase: NextPhrase::from_fields(&i),
        song: SongContext::from_fields(&j),
    };
    proof {
        assert(parse_sections(tv, 11) == Ok::<Seq<Seq<Seq<char>>>, ParseErrorView>(Seq::empty()));
        assert(parse_sections(tv, 0) is Ok);
        assert(parse_sections(tv, 0)->Ok_0 =~= label@);
    }
    Ok(label)
}


/// `n` fields that are all `xx`.
pub fn xx_fields(n: usize) -> (f: Vec<LabelValue>)
    ensures
        f.len() == n,
        forall|i: int| 0 <= i < n ==> (#[trigger] f@[i])@ == xx(),
{
    let mut f: Vec<LabelValue> = Vec::new();
    let mut i: usize = 0;
    while i < n
        invariant
            i <= n,
            f.len() == i,
            forall|j: int| 0 <= j < i ==> (#[trigger] f@[j])@ == xx(),
        decreases n - i,
    {
        f.push(LabelValue::not_applicable());
        i += 1;
    }
    f
}

impl Label {
    /// The label with `xx` in every field.
    pub fn blank() -> (r: Self)
        ensures
            forall|k: int, i: int|
                0 <= k < 11 && 0 <= i < field_count(k) ==> (#[trigger] r@[k][i]) == xx(),
            forall|k: int| 0 <= k < 11 ==> (#[trigger] r@[k]).len() == field_count(k),
    {
        let r = Label {
            phoneme: PhonemeContext::from_fields(&xx_fields(16)),
            prev_syllable: PrevSyllable::from_fields(&xx_fields(5)),
            curr_syllable: CurrSyllable::from_fields(&xx_fields(5)),
            next_syllable: NextSyllable::from_fields(&xx_fields(5)),
            prev_note: PrevNote::from_fields(&xx_fields(9)),
            curr_note: CurrNote::from_fields(&xx_fields(60)),
            next_note: NextNote::from_fields(&xx_fields(9)),
            prev_phrase: PrevPhrase::from_fields(&xx_fields(2)),
            curr_phrase: CurrPhrase::from_fields(&xx_fields(2)),
            next_phrase: NextPhrase::from_fields(&xx_fields(2)),
            song: SongContext::from_fields(&xx_fields(3)),
        };
        r
    }
}

// ---------------------------------------------------------------------
// Writing a line
// ---------------------------------------------------------------------

impl Label {
    /// The fields of section `k`.
    pub fn section_fields(&self, k: usize) -> (f: Vec<LabelValue>)
        requires
            k <= 10,
        ensures
            f.len() == field_count(k as int),
            texts_of(f@) == self@[k as int],
    {
        if k == 0 {
            self.phoneme.to_fields()
        } else if k == 1 {
            self.prev_syllable.to_fields()
        } else if k == 2 {
            self.curr_syllable.to_fields()
        } else if k == 3 {
            self.next_syllable.to_fields()
        } else if k == 4 {
            self.prev_note.to_fields()
        } else if k == 5 {
            self.curr_note.to_fields()
        } else if k == 6 {
            self.next_note.to_fields()
        } else if k == 7 {
            self.prev_phrase.to_fields()
        } else if k == 8 {
            self.curr_phrase.to_fields()
        } else if k == 9 {
            self.next_phrase.to_fields()
        } else {
            self.song.to_fields()
        }
    }

    /// The line of the label: every field as it stands, with the section's
    /// separators between the fields and the markers between the sections.
    pub fn to_line(&self) -> (r: String)
        ensures
            r@ == line_of(self@),
    {
        let mut out = String::new();
        let mut k: usize = 0;
        assert(out@ =~= join_sections_upto(section_texts(self@), 0, 0));
        while k < 11
            invariant
                k <= 11,
                out@ == join_sections_upto(section_texts(self@), 0, k as int),
            decreases 11 - k,
        {
            if k > 0 {
                out.push('/');
                out.push(section_letter_of(k));
                out.push(':');
            }
            let ghost before = out@;
            let fields = self.section_fields(k);
            let delims = section_delims_of(k);
            let mut i: usize = 0;
            assert(out@ =~= before + join_fields_upto(texts_of(fields@), delims@, 0));
            while i < fields.len()
                invariant
                    i <= fields.len(),
                    fields.len() == delims.len() + 1,
                    out@ == before + join_fields_upto(texts_of(fields@), delims@, i as int),
                decreases fields.len() - i,
            {
                if i > 0 {
                    out.push(delims[i - 1]);
                }
                append_str(&mut out, fields[i].as_str());
                proof {
                    let t = texts_of(fields@);
                    assert(t[i as int] == fields@[i as int]@);
                    if i == 0 {
                        assert(out@ =~= before + t[0]);
                    } else {
                        assert(out@ =~= before + (join_fields_upto(t, delims@, i as int)
                            + seq![delims@[i - 1]] + t[i as int]));
                    }
                }
                i += 1;
            }
            proof {
                let texts = section_texts(self@);
                let text = join_fields(self@[k as int], section_delims(k as int));
                assert(texts[k as int] == text);
                assert(out@ == before + text);
                if k == 0 {
                    assert(out@ =~= texts[0]);
                } else {
                    assert(section_marker(k as int) =~= seq!['/', section_letter(k as int), ':']);
                    assert(out@ =~= join_sections_upto(texts, 0, k as int) + section_marker(
                        k as int,
                    ) + texts[k as int]);
                }
            }
            k += 1;
        }
        out
    }
}

/// Appends the text `t` to `s`.
pub fn append_str(s: &mut String, t: &str)
    ensures
        final(s)@ == old(s)@ + t@,
{
    let tc = chars_of(t);
    let mut i: usize = 0;
    assert(s@ =~= old(s)@ + t@.take(0));
    while i < tc.len()
        invariant
            i <= tc.len(),
            tc@ == t@,
            s@ == old(s)@ + t@.take(i as int),
        decreases tc.len() - i,
    {
        s.push(tc[i]);
        assert(t@.take(i + 1) =~= t@.take(i as int).push(t@[i as int]));
        i += 1;
    }
    assert(t@.take(i as int) =~= t@);
}

} // verus!
