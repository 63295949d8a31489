//! The score model: notes in triplet-32nd units on a nanosecond time base,
//! and the arithmetic and small text formats that the composer and the
//! decomposer share.

use vstd::prelude::*;
use crate::neutrino_label::{
    texts_of, xx, xx_fields, CurrNote, CurrPhrase, CurrSyllable, Label, LabelValue, NextNote, NextPhrase,
    NextSyllable, PhonemeContext, PrevNote, PrevPhrase, PrevSyllable, SongContext,
};
use crate::text::{
    chars_of, concat, decimal, find_char, i64_to_string, index_of_from, is_digit,
    lemma_decimal_digits, lemma_index_of_from_is, lemma_parse_decimal, lemma_parse_signed_decimal,
    parse_i32, parse_i32_in, parse_signed, parse_unsigned, parse_unsigned_in, signed_decimal,
    str_eq, u64_to_string,
};

verus! {

/// The text of `value`, or `None` where it is `xx`.
pub fn xx_as_none(value: &str) -> (r: Option<&str>)
    ensures
        value@ == xx() ==> r is None,
        value@ != xx() ==> r is Some && r->0@ == value@,
{
    proof {
        reveal_strlit("xx");
    }
    assert("xx"@ =~= xx());
    if str_eq(value, "xx") {
        None
    } else {
        Some(value)
    }
}

// ---------------------------------------------------------------------
// Note lengths
// ---------------------------------------------------------------------

/// A note length in triplet-32nd units: 24 of them make a quarter note.
#[derive(Debug, Clone, Copy, PartialEq, Eq)]
pub struct NoteLength(i32);

impl NoteLength {
    /// The length in triplet-32nd units.
    pub closed spec fn units(self) -> int {
        self.0 as int
    }

    /// The units always fit in an `i32`.
    pub proof fn lemma_units_range(self)
        ensures
            i32::MIN <= self.units() <= i32::MAX,
    {
    }

    /// `count` quarter notes.
    pub fn from_4th_note(count: i32) -> (r: Self)
        requires
            i32::MIN <= count * 24 <= i32::MAX,
        ensures
            r.units() == count * 24,
    {
        NoteLength(count * 24)
    }

    /// `count` eighth notes.
    pub fn from_8th_note(count: i32) -> (r: Self)
        requires
            i32::MIN <= count * 12 <= i32::MAX,
        ensures
            r.units() == count * 12,
    {
        NoteLength(count * 12)
    }

    /// `count` sixteenth notes.
    pub fn from_16th_note(count: i32) -> (r: Self)
        requires
            i32::MIN <= count * 6 <= i32::MAX,
        ensures
            r.units() == count * 6,
    {
        NoteLength(count * 6)
    }

    /// `count` thirty-second notes.
    pub fn from_32nd_note(count: i32) -> (r: Self)
        requires
            i32::MIN <= count * 3 <= i32::MAX,
        ensures
            r.units() == count * 3,
    {
        NoteLength(count * 3)
    }

    /// `count` triplet thirty-second notes, the unit itself.
    pub fn from_32nd_triplet_note(count: i32) -> (r: Self)
        ensures
            r.units() == count,
    {
        NoteLength(count)
    }

    /// The length in triplet-32nd units.
    pub fn triplet_32nd(self) -> (r: i32)
        ensures
            r == self.units(),
    {
        self.0
    }

    /// The duration in nanoseconds at `tempo` beats per minute.
    pub fn to_nanoseconds(&self, tempo: i32) -> (r: u64)
        ensures
            r == duration_ns(self.units(), tempo as int),
    {
        length_triplet_32nd_to_nanoseconds(self.0, tempo)
    }
}

impl From<NoteLength> for i32 {
    fn from(length: NoteLength) -> (r: i32)
        ensures
            r == length.units(),
    {
        length.0
    }
}

impl vstd::std_specs::convert::FromSpecImpl<NoteLength> for i32 {
    open spec fn obeys_from_spec() -> bool {
        true
    }

    open spec fn from_spec(length: NoteLength) -> i32 {
        length.units() as i32
    }
}

/// `a / b` rounded to the nearest integer, halves upwards, for `a >= 0` and
/// `b > 0`.
pub open spec fn round_div(a: int, b: int) -> int {
    (2 * a + b) / (2 * b)
}

/// The nanoseconds that `units` triplet-32nd units last at `tempo` beats
/// per minute: `units * 2_500_000_000 / tempo`, rounded; zero where the
/// length or the tempo is not positive.
pub open spec fn duration_ns(units: int, tempo: int) -> int {
    if tempo <= 0 || units <= 0 {
        0
    } else {
        round_div(units * 2_500_000_000, tempo)
    }
}

/// A duration is never negative, and that of an `i32` length fits in 63
/// bits.
pub(crate) proof fn lemma_duration_ns_range(units: int, tempo: int)
    requires
        units <= i32::MAX,
    ensures
        0 <= duration_ns(units, tempo) <= 0x7fff_ffff_ffff_ffff,
{
    if tempo > 0 && units > 0 {
        let a = units * 2_500_000_000;
        assert(0 <= 2 * a + tempo <= 10_737_418_235_000_000_000 + tempo);
        assert((2 * a + tempo) / (2 * tempo) <= 0x7fff_ffff_ffff_ffff) by (nonlinear_arith)
            requires
                0 <= 2 * a <= 10_737_418_235_000_000_000,
                tempo > 0,
        ;
        assert((2 * a + tempo) / (2 * tempo) >= 0) by (nonlinear_arith)
            requires
                0 <= 2 * a,
                tempo > 0,
        ;
    }
}

/// The nanoseconds that `length_triplet_32nd` units last at `tempo` beats
/// per minute.
pub fn length_triplet_32nd_to_nanoseconds(length_triplet_32nd: i32, tempo: i32) -> (r: u64)
    ensures
        r == duration_ns(length_triplet_32nd as int, tempo as int),
{
    if tempo <= 0 || length_triplet_32nd <= 0 {
        return 0;
    }
    proof {
        lemma_duration_ns_range(length_triplet_32nd as int, tempo as int);
    }
    let a: u128 = (length_triplet_32nd as u128) * 2_500_000_000u128;
    let t: u128 = tempo as u128;
    let q: u128 = (2 * a + t) / (2 * t);
    q as u64
}

/// The centiseconds of a length for the label: `(units * 250 + tempo / 2) /
/// tempo` in whole numbers, the quotient cut towards zero; zero where the
/// tempo is not positive.
pub open spec fn centiseconds(units: int, tempo: int) -> int {
    if tempo <= 0 {
        0
    } else {
        let n = units * 250 + tempo / 2;
        if n >= 0 {
            n / tempo
        } else {
            -((-n) / tempo)
        }
    }
}

/// The centiseconds that `length_triplet_32nd` units last at `tempo` beats
/// per minute, as the label states them.
pub fn length_triplet_32nd_to_centiseconds(length_triplet_32nd: i32, tempo: i32) -> (r: i64)
    ensures
        r == centiseconds(length_triplet_32nd as int, tempo as int),
{
    if tempo <= 0 {
        return 0;
    }
    let t: i64 = tempo as i64;
    let n: i64 = (length_triplet_32nd as i64) * 250 + t / 2;
    if n >= 0 {
        let q = (n as u64) / (t as u64);
        assert(q <= n) by (nonlinear_arith)
            requires
                q == n / t,
                n >= 0,
                t > 0,
        ;
        q as i64
    } else {
        let m: u64 = (-n) as u64;
        let q = m / (t as u64);
        assert(q <= m) by (nonlinear_arith)
            requires
                q == (m as int) / (t as int),
                m >= 0,
                t > 0,
        ;
        -(q as i64)
    }
}

// ---------------------------------------------------------------------
// Pitch names
// ---------------------------------------------------------------------

/// The name of pitch class `pc`, from `C` for 0 to `B` for 11; sharps only.
pub open spec fn pitch_class_name(pc: int) -> Seq<char> {
    if pc == 0 {
        seq!['C']
    } else if pc == 1 {
        seq!['C', '#']
    } else if pc == 2 {
        seq!['D']
    } else if pc == 3 {
        seq!['D', '#']
    } else if pc == 4 {
        seq!['E']
    } else if pc == 5 {
        seq!['F']
    } else if pc == 6 {
        seq!['F', '#']
    } else if pc == 7 {
        seq!['G']
    } else if pc == 8 {
        seq!['G', '#']
    } else if pc == 9 {
        seq!['A']
    } else if pc == 10 {
        seq!['A', '#']
    } else {
        seq!['B']
    }
}

/// The pitch class that `name` names, if any.
pub open spec fn pitch_class_of(name: Seq<char>) -> Option<int> {
    if exists|pc: int| 0 <= pc < 12 && pitch_class_name(pc) == name {
        Some(choose|pc: int| 0 <= pc < 12 && pitch_class_name(pc) == name)
    } else {
        None
    }
}

/// The name of a pitch: the pitch class, then the octave, `pitch / 12 - 1`.
pub open spec fn note_name(pitch: int) -> Seq<char> {
    pitch_class_name(pitch % 12) + signed_decimal(pitch / 12 - 1)
}

/// The pitch that `name` names: a pitch class of one letter, or of a letter
/// and `#`, then the octave as a signed numeral; `None` where the name is
/// not of that form or the pitch is not within 0 to 127.
pub open spec fn note_name_value(name: Seq<char>) -> Option<u8> {
    if name.len() < 2 {
        None
    } else {
        let head_len: int = if name[1] == '#' {
            2
        } else {
            1
        };
        match (pitch_class_of(name.take(head_len)), parse_signed(name.skip(head_len))) {
            (Some(pc), Some(octave)) => {
                let midi = (octave + 1) * 12 + pc;
                if 0 <= midi <= 127 {
                    Some(midi as u8)
                } else {
                    None
                }
            },
            _ => None,
        }
    }
}

/// The twelve names are distinct, so a name has one pitch class.
pub(crate) proof fn lemma_pitch_class_of_name(pc: int)
    requires
        0 <= pc < 12,
    ensures
        pitch_class_of(pitch_class_name(pc)) == Some(pc),
{
    let name = pitch_class_name(pc);
    assert forall|q: int| 0 <= q < 12 && pitch_class_name(q) == name implies q == pc by {
        let other = pitch_class_name(q);
        assert(other.len() == name.len());
        assert(other[0] == name[0]);
    }
}

/// The name of pitch `pitch`.
pub fn midi_to_note_name(pitch: u8) -> (r: String)
    ensures
        r@ == note_name(pitch as int),
{
    let pc = pitch % 12;
    let octave: i64 = (pitch / 12) as i64 - 1;
    proof {
        reveal_strlit("C");
        reveal_strlit("C#");
        reveal_strlit("D");
        reveal_strlit("D#");
        reveal_strlit("E");
        reveal_strlit("F");
        reveal_strlit("F#");
        reveal_strlit("G");
        reveal_strlit("G#");
        reveal_strlit("A");
        reveal_strlit("A#");
        reveal_strlit("B");
    }
    let head: &str = if pc == 0 {
        "C"
    } else if pc == 1 {
        "C#"
    } else if pc == 2 {
        "D"
    } else if pc == 3 {
        "D#"
    } else if pc == 4 {
        "E"
    } else if pc == 5 {
        "F"
    } else if pc == 6 {
        "F#"
    } else if pc == 7 {
        "G"
    } else if pc == 8 {
        "G#"
    } else if pc == 9 {
        "A"
    } else if pc == 10 {
        "A#"
    } else {
        "B"
    };
    assert(head@ =~= pitch_class_name(pc as int));
    let tail = i64_to_string(octave);
    concat(head, tail.as_str())
}

/// The pitch class that the characters `v[0..len]` name.
fn pitch_class_in(v: &Vec<char>, len: usize) -> (r: Option<u8>)
    requires
        1 <= len <= 2,
        len <= v.len(),
    ensures
        match r {
            Some(pc) => pc < 12 && pitch_class_of(v@.take(len as int)) == Some(pc as int),
            None => pitch_class_of(v@.take(len as int)) is None,
        },
{
    let ghost name = v@.take(len as int);
    let c = v[0];
    assert(name[0] == c);
    let base: Option<u8> = if c == 'C' {
        Some(0)
    } else if c == 'D' {
        Some(2)
    } else if c == 'E' {
        Some(4)
    } else if c == 'F' {
        Some(5)
    } else if c == 'G' {
        Some(7)
    } else if c == 'A' {
        Some(9)
    } else if c == 'B' {
        Some(11)
    } else {
        None
    };
    let r: Option<u8> = match base {
        None => None,
        Some(b) => {
            if len == 1 {
                Some(b)
            } else if v[1] == '#' && b != 4 && b != 11 {
                assert(name[1] == '#');
                Some(b + 1)
            } else {
                None
            }
        },
    };
    proof {
        match r {
            Some(pc) => {
                assert(pitch_class_name(pc as int) =~= name);
                lemma_pitch_class_of_name(pc as int);
            },
            None => {
                assert forall|q: int| 0 <= q < 12 implies pitch_class_name(q) != name by {
                    let other = pitch_class_name(q);
                    if other == name {
                        assert(other[0] == name[0]);
                        if len == 2 {
                            assert(other.len() == 2);
                            assert(other[1] == name[1]);
                            assert(name[1] == v@[1]);
                        }
                    }
                }
            },
        }
    }
    r
}

/// The pitch that `name` names.
pub fn note_name_to_midi(name: &str) -> (r: Option<u8>)
    ensures
        r == note_name_value(name@),
{
    let v = chars_of(name);
    if v.len() < 2 {
        return None;
    }
    let head_len: usize = if v[1] == '#' {
        2
    } else {
        1
    };
    let pc = match pitch_class_in(&v, head_len) {
        Some(pc) => pc,
        None => {
            return None;
        },
    };
    assert(v@.skip(head_len as int) =~= v@.subrange(head_len as int, v.len() as int));
    let octave = match parse_i32_in(&v, head_len, v.len()) {
        Some(o) => o,
        None => {
            proof {
                let parsed = parse_signed(v@.skip(head_len as int));
                if parsed is Some {
                    let o = parsed->0;
                    assert(o < i32::MIN || o > i32::MAX);
                    assert(!(0 <= (o + 1) * 12 + pc <= 127));
                }
            }
            return None;
        },
    };
    let midi: i64 = (octave as i64 + 1) * 12 + pc as i64;
    if 0 <= midi && midi <= 127 {
        Some(midi as u8)
    } else {
        None
    }
}

/// Naming a pitch and reading the name gives the pitch back.
pub proof fn lemma_note_name_roundtrip(pitch: int)
    requires
        0 <= pitch <= 127,
    ensures
        note_name_value(note_name(pitch)) == Some(pitch as u8),
{
    let pc = pitch % 12;
    let octave = pitch / 12 - 1;
    let head = pitch_class_name(pc);
    let tail = signed_decimal(octave);
    let name = note_name(pitch);
    lemma_parse_signed_decimal(octave);
    lemma_pitch_class_of_name(pc);
    if octave < 0 {
        lemma_decimal_digits((-octave) as nat);
        assert(tail[0] == '-');
    } else {
        lemma_decimal_digits(octave as nat);
        assert(is_digit(decimal(octave as nat)[0]));
        assert(tail[0] != '#');
    }
    assert(tail.len() >= 1);
    if head.len() == 1 {
        assert(name[1] == tail[0]);
        assert(name.take(1) =~= head);
        assert(name.skip(1) =~= tail);
    } else {
        assert(name[1] == '#');
        assert(name.take(2) =~= head);
        assert(name.skip(2) =~= tail);
    }
}

/// The step from one pitch to another as the label states it: `p` and the
/// distance where the target is not lower, `m` and the distance where it
/// is.
pub open spec fn pitch_difference(current_pitch: int, target_pitch: int) -> Seq<char> {
    if target_pitch >= current_pitch {
        seq!['p'] + decimal((target_pitch - current_pitch) as nat)
    } else {
        seq!['m'] + decimal((current_pitch - target_pitch) as nat)
    }
}

/// The step from `current_pitch` to `target_pitch` as the label states it.
pub fn format_pitch_difference(current_pitch: u8, target_pitch: u8) -> (r: String)
    ensures
        r@ == pitch_difference(current_pitch as int, target_pitch as int),
{
    proof {
        reveal_strlit("p");
        reveal_strlit("m");
    }
    if target_pitch >= current_pitch {
        let d = u64_to_string((target_pitch - current_pitch) as u64);
        let r = concat("p", d.as_str());
        assert(r@ =~= pitch_difference(current_pitch as int, target_pitch as int));
        r
    } else {
        let d = u64_to_string((current_pitch - target_pitch) as u64);
        let r = concat("m", d.as_str());
        assert(r@ =~= pitch_difference(current_pitch as int, target_pitch as int));
        r
    }
}

// ---------------------------------------------------------------------
// Time signatures
// ---------------------------------------------------------------------

/// A time signature: `numerator / denominator`.
#[derive(Debug, Clone, Copy, PartialEq, Eq, Structural)]
pub struct TimeSignature {
    pub numerator: u8,
    pub denominator: u8,
}

impl Default for TimeSignature {
    fn default() -> (r: Self)
        ensures
            r == (TimeSignature { numerator: 4, denominator: 4 }),
    {
        TimeSignature { numerator: 4, denominator: 4 }
    }
}

/// The text of a time signature: the two numerals with a slash between.
pub open spec fn beat_text(ts: TimeSignature) -> Seq<char> {
    decimal(ts.numerator as nat) + seq!['/'] + decimal(ts.denominator as nat)
}

/// The time signature that `value` spells: an unsigned numeral up to 255,
/// the first slash, and another such numeral, neither of them zero.
pub open spec fn time_signature_value(value: Seq<char>) -> Option<TimeSignature> {
    let p = index_of_from(value, '/', 0);
    if p >= value.len() {
        None
    } else {
        match (parse_unsigned(value.take(p)), parse_unsigned(value.skip(p + 1))) {
            (Some(n), Some(d)) => if 1 <= n <= 255 && 1 <= d <= 255 {
                Some(TimeSignature { numerator: n as u8, denominator: d as u8 })
            } else {
                None
            },
            _ => None,
        }
    }
}

/// The time signature that `value` spells.
pub fn parse_time_signature(value: &str) -> (r: Option<TimeSignature>)
    ensures
        r == time_signature_value(value@),
{
    let v = chars_of(value);
    let p = find_char(&v, '/', 0);
    if p >= v.len() {
        return None;
    }
    assert(v@.take(p as int) =~= v@.subrange(0, p as int));
    assert(v@.skip(p + 1) =~= v@.subrange(p + 1, v.len() as int));
    let numerator = match parse_unsigned_in(&v, 0, p, 255) {
        Some(n) => n,
        None => {
            return None;
        },
    };
    let denominator = match parse_unsigned_in(&v, p + 1, v.len(), 255) {
        Some(d) => d,
        None => {
            return None;
        },
    };
    if numerator == 0 || denominator == 0 {
        return None;
    }
    Some(TimeSignature { numerator: numerator as u8, denominator: denominator as u8 })
}

/// The text of a time signature.
pub fn format_time_signature(ts: &TimeSignature) -> (r: String)
    ensures
        r@ == beat_text(*ts),
{
    proof {
        reveal_strlit("/");
    }
    let n = u64_to_string(ts.numerator as u64);
    let d = u64_to_string(ts.denominator as u64);
    let left = concat(n.as_str(), "/");
    let r = concat(left.as_str(), d.as_str());
    assert(r@ =~= beat_text(*ts));
    r
}

/// Writing a time signature without a zero and reading the text gives it
/// back.
pub proof fn lemma_time_signature_roundtrip(ts: TimeSignature)
    requires
        ts.numerator != 0,
        ts.denominator != 0,
    ensures
        time_signature_value(beat_text(ts)) == Some(ts),
{
    let n = decimal(ts.numerator as nat);
    let d = decimal(ts.denominator as nat);
    let s = beat_text(ts);
    lemma_decimal_digits(ts.numerator as nat);
    lemma_decimal_digits(ts.denominator as nat);
    lemma_parse_decimal(ts.numerator as nat);
    lemma_parse_decimal(ts.denominator as nat);
    assert forall|j: int| 0 <= j < n.len() implies s[j] != '/' by {
        assert(s[j] == n[j]);
        assert(is_digit(n[j]));
    }
    assert(s[n.len() as int] == '/');
    lemma_index_of_from_is(s, '/', 0, n.len() as int);
    assert(s.take(n.len() as int) =~= n);
    assert(s.skip(n.len() as int + 1) =~= d);
}

// ---------------------------------------------------------------------
// Notes and scores
// ---------------------------------------------------------------------

/// One note of a score. A note without a pitch is a rest.
#[derive(Debug, PartialEq, Eq)]
pub struct Note {
    /// The MIDI pitch, 0 to 127.
    pub pitch: Option<u8>,
    pub start_time_ns: u64,
    pub length: NoteLength,
    pub phonemes: Vec<String>,
    pub language: Option<String>,
    pub language_dependent_context: Option<String>,
}

/// What a `Note` holds.
pub struct NoteView {
    pub pitch: Option<u8>,
    pub start_time_ns: u64,
    pub length: int,
    pub phonemes: Seq<Seq<char>>,
    pub language: Option<Seq<char>>,
    pub language_dependent_context: Option<Seq<char>>,
}

/// The texts of the strings `v`.
pub open spec fn strings_view(v: Seq<String>) -> Seq<Seq<char>> {
    Seq::new(v.len(), |i: int| v[i]@)
}

/// The text of an optional string.
pub open spec fn option_view(s: Option<String>) -> Option<Seq<char>> {
    match s {
        Some(t) => Some(t@),
        None => None,
    }
}

impl View for Note {
    type V = NoteView;

    open spec fn view(&self) -> NoteView {
        NoteView {
            pitch: self.pitch,
            start_time_ns: self.start_time_ns,
            length: self.length.units(),
            phonemes: strings_view(self.phonemes@),
            language: option_view(self.language),
            language_dependent_context: option_view(self.language_dependent_context),
        }
    }
}

/// A copy of the strings `v`.
pub fn clone_strings(v: &Vec<String>) -> (r: Vec<String>)
    ensures
        strings_view(r@) == strings_view(v@),
{
    let mut r: Vec<String> = Vec::new();
    let mut i: usize = 0;
    while i < v.len()
        invariant
            i <= v.len(),
            r.len() == i,
            forall|j: int| 0 <= j < i ==> r@[j]@ == v@[j]@,
        decreases v.len() - i,
    {
        r.push(v[i].clone());
        i += 1;
    }
    assert(strings_view(r@) =~= strings_view(v@));
    r
}

/// A copy of an optional string.
pub fn clone_option(s: &Option<String>) -> (r: Option<String>)
    ensures
        option_view(r) == option_view(*s),
{
    match s {
        Some(t) => Some(t.clone()),
        None => None,
    }
}

impl Clone for Note {
    fn clone(&self) -> (r: Self)
        ensures
            r@ == self@,
    {
        Note {
            pitch: self.pitch,
            start_time_ns: self.start_time_ns,
            length: self.length,
            phonemes: clone_strings(&self.phonemes),
            language: clone_option(&self.language),
            language_dependent_context: clone_option(&self.language_dependent_context),
        }
    }
}

/// The views of the notes `v`.
pub open spec fn notes_view(v: Seq<Note>) -> Seq<NoteView> {
    Seq::new(v.len(), |i: int| v[i]@)
}

/// A score: notes in order, a tempo in beats per minute, and time
/// signatures, of which the first one counts.
#[derive(Debug, PartialEq, Eq)]
pub struct Score {
    pub notes: Vec<Note>,
    pub tempo: i32,
    pub time_signatures: Vec<TimeSignature>,
}

/// What a `Score` holds.
pub struct ScoreView {
    pub notes: Seq<NoteView>,
    pub tempo: int,
    pub time_signatures: Seq<TimeSignature>,
}

impl View for Score {
    type V = ScoreView;

    open spec fn view(&self) -> ScoreView {
        ScoreView {
            notes: notes_view(self.notes@),
            tempo: self.tempo as int,
            time_signatures: self.time_signatures@,
        }
    }
}

/// The score without notes, at 120 beats per minute in 4/4.
pub open spec fn default_score() -> ScoreView {
    ScoreView {
        notes: Seq::empty(),
        tempo: 120,
        time_signatures: seq![TimeSignature { numerator: 4, denominator: 4 }],
    }
}

impl Default for Score {
    fn default() -> (r: Self)
        ensures
            r@ == default_score(),
    {
        let mut time_signatures: Vec<TimeSignature> = Vec::new();
        time_signatures.push(TimeSignature { numerator: 4, denominator: 4 });
        let r = Score { notes: Vec::new(), tempo: 120, time_signatures };
        assert(r@.notes =~= Seq::empty());
        assert(r@.time_signatures =~= seq![TimeSignature { numerator: 4, denominator: 4 }]);
        r
    }
}

/// A copy of the notes `v`.
pub fn clone_notes(v: &Vec<Note>) -> (r: Vec<Note>)
    ensures
        notes_view(r@) == notes_view(v@),
{
    let mut r: Vec<Note> = Vec::new();
    let mut i: usize = 0;
    while i < v.len()
        invariant
            i <= v.len(),
            r.len() == i,
            forall|j: int| 0 <= j < i ==> r@[j]@ == v@[j]@,
        decreases v.len() - i,
    {
        r.push(v[i].clone());
        i += 1;
    }
    assert(notes_view(r@) =~= notes_view(v@));
    r
}

impl Clone for Score {
    fn clone(&self) -> (r: Self)
        ensures
            r@ == self@,
    {
        Score {
            notes: clone_notes(&self.notes),
            tempo: self.tempo,
            time_signatures: self.time_signatures.clone(),
        }
    }
}

/// Whether every pitch of the notes is a MIDI pitch, 0 to 127.
pub open spec fn pitches_in_range(notes: Seq<NoteView>) -> bool {
    forall|i: int|
        0 <= i < notes.len() ==> ((#[trigger] notes[i]).pitch is Some ==> notes[i].pitch->0
            <= 127)
}

/// What the composer writes into every label beside the notes themselves.
#[derive(Debug, PartialEq, Eq)]
pub struct ComposeOptions {
    pub tempo: i32,
    pub beat: String,
    pub key_signature: String,
    pub phrase_count: usize,
}

/// What a `ComposeOptions` holds.
pub struct ComposeOptionsView {
    pub tempo: int,
    pub beat: Seq<char>,
    pub key_signature: Seq<char>,
    pub phrase_count: nat,
}

impl View for ComposeOptions {
    type V = ComposeOptionsView;

    open spec fn view(&self) -> ComposeOptionsView {
        ComposeOptionsView {
            tempo: self.tempo as int,
            beat: self.beat@,
            key_signature: self.key_signature@,
            phrase_count: self.phrase_count as nat,
        }
    }
}

impl Default for ComposeOptions {
    fn default() -> (r: Self)
        ensures
            r@ == (ComposeOptionsView {
                tempo: 120,
                beat: seq!['4', '/', '4'],
                key_signature: seq!['0'],
                phrase_count: 1,
            }),
    {
        proof {
            reveal_strlit("4/4");
            reveal_strlit("0");
        }
        let r = ComposeOptions {
            tempo: 120,
            beat: "4/4".to_owned(),
            key_signature: "0".to_owned(),
            phrase_count: 1,
        };
        assert(r@.beat =~= seq!['4', '/', '4']);
        assert(r@.key_signature =~= seq!['0']);
        r
    }
}

/// The options that a score is composed with: its tempo, its first time
/// signature (4/4 where it has none), key signature `0`, one phrase.
pub open spec fn options_of(score: ScoreView) -> ComposeOptionsView {
    ComposeOptionsView {
        tempo: score.tempo,
        beat: beat_text(
            if score.time_signatures.len() > 0 {
                score.time_signatures[0]
            } else {
                TimeSignature { numerator: 4, denominator: 4 }
            },
        ),
        key_signature: seq!['0'],
        phrase_count: 1,
    }
}

/// Why a score cannot be composed, or labels cannot be read as a score.
#[derive(Debug, PartialEq, Eq)]
pub enum ComposeError {
    /// A label template that does not parse. The composer builds every
    /// field of a label itself and never gives this error.
    TemplateParse(String),
    /// The note at `note_index` has no phonemes.
    EmptyPhonemes { note_index: usize },
    /// A pitch field that is neither `xx` nor the name of a MIDI pitch.
    InvalidPitch(String),
}

/// What a `ComposeError` says.
pub enum ComposeErrorView {
    TemplateParse(Seq<char>),
    EmptyPhonemes { note_index: usize },
    InvalidPitch(Seq<char>),
}

impl View for ComposeError {
    type V = ComposeErrorView;

    open spec fn view(&self) -> ComposeErrorView {
        match self {
            ComposeError::TemplateParse(e) => ComposeErrorView::TemplateParse(e@),
            ComposeError::EmptyPhonemes { note_index } => ComposeErrorView::EmptyPhonemes {
                note_index: *note_index,
            },
            ComposeError::InvalidPitch(p) => ComposeErrorView::InvalidPitch(p@),
        }
    }
}

/// The text of an error.
pub open spec fn compose_error_text(e: ComposeErrorView) -> Seq<char> {
    match e {
        ComposeErrorView::TemplateParse(m) => "failed to parse template label: "@ + m,
        ComposeErrorView::EmptyPhonemes { note_index } => "note at index "@ + decimal(
            note_index as nat,
        ) + " has no phonemes"@,
        ComposeErrorView::InvalidPitch(p) => "invalid pitch label: "@ + p,
    }
}

impl ComposeError {
    /// The error as one line of text.
    pub fn message(&self) -> (r: String)
        ensures
            r@ == compose_error_text(self@),
    {
        match self {
            ComposeError::TemplateParse(e) => concat("failed to parse template label: ", e.as_str()),
            ComposeError::EmptyPhonemes { note_index } => {
                let n = u64_to_string(*note_index as u64);
                let left = concat("note at index ", n.as_str());
                concat(left.as_str(), " has no phonemes")
            },
            ComposeError::InvalidPitch(p) => concat("invalid pitch label: ", p.as_str()),
        }
    }
}

/// A label with the time range of its phoneme, `[start_time_ns,
/// end_time_ns)`.
#[derive(Debug, PartialEq, Eq)]
pub struct TimedLabel {
    pub label: Label,
    pub start_time_ns: u64,
    pub end_time_ns: u64,
}

impl std::ops::Deref for TimedLabel {
    type Target = Label;

    fn deref(&self) -> (r: &Label)
        ensures
            *r == self.label,
    {
        &self.label
    }
}

impl Clone for TimedLabel {
    fn clone(&self) -> (r: Self)
        ensures
            r.label@ == self.label@,
            r.start_time_ns == self.start_time_ns,
            r.end_time_ns == self.end_time_ns,
    {
        TimedLabel {
            label: self.label.clone(),
            start_time_ns: self.start_time_ns,
            end_time_ns: self.end_time_ns,
        }
    }
}


// ---------------------------------------------------------------------
// Points: the phonemes of a score, one after another
// ---------------------------------------------------------------------

/// One phoneme of a score, with its place among all phonemes and in its
/// note.
#[derive(Debug)]
pub struct Point {
    /// The place among all phonemes of the score.
    pub index: usize,
    pub note_index: usize,
    pub phoneme_index: usize,
    /// The number of phonemes of the note.
    pub phoneme_count: usize,
    pub symbol: String,
}

/// What a `Point` holds, but for its place among all phonemes.
pub struct PointView {
    pub note_index: int,
    pub phoneme_index: int,
    pub phoneme_count: int,
    pub symbol: Seq<char>,
}

impl View for Point {
    type V = PointView;

    open spec fn view(&self) -> PointView {
        PointView {
            note_index: self.note_index as int,
            phoneme_index: self.phoneme_index as int,
            phoneme_count: self.phoneme_count as int,
            symbol: self.symbol@,
        }
    }
}

/// The views of the points `v`.
pub open spec fn points_view(v: Seq<Point>) -> Seq<PointView> {
    Seq::new(v.len(), |i: int| v[i]@)
}

/// The points of note `i`, one for each of its phonemes.
pub open spec fn note_points(notes: Seq<NoteView>, i: int) -> Seq<PointView> {
    Seq::new(
        notes[i].phonemes.len(),
        |j: int|
            PointView {
                note_index: i,
                phoneme_index: j,
                phoneme_count: notes[i].phonemes.len() as int,
                symbol: notes[i].phonemes[j],
            },
    )
}

/// The points of the first `n` notes, note after note.
pub open spec fn points_upto(notes: Seq<NoteView>, n: int) -> Seq<PointView>
    decreases n,
{
    if n <= 0 {
        Seq::empty()
    } else {
        points_upto(notes, n - 1) + note_points(notes, n - 1)
    }
}

/// The points of a score.
pub open spec fn points_of(notes: Seq<NoteView>) -> Seq<PointView> {
    points_upto(notes, notes.len() as int)
}

/// The number of phonemes of the first `n` notes.
pub open spec fn phonemes_upto(notes: Seq<NoteView>, n: int) -> int
    decreases n,
{
    if n <= 0 {
        0
    } else {
        phonemes_upto(notes, n - 1) + notes[n - 1].phonemes.len()
    }
}

/// The number of phonemes of all the notes.
pub open spec fn total_phonemes(notes: Seq<NoteView>) -> int {
    phonemes_upto(notes, notes.len() as int)
}

/// There is one point for each phoneme.
pub(crate) proof fn lemma_points_len(notes: Seq<NoteView>, n: int)
    ensures
        points_upto(notes, n).len() == phonemes_upto(notes, n),
        phonemes_upto(notes, n) >= 0,
    decreases n,
{
    if n > 0 {
        lemma_points_len(notes, n - 1);
    }
}

/// The point of phoneme `j` of note `i` stands after the points of the
/// notes before it, at `phonemes_upto(notes, i) + j`.
pub(crate) proof fn lemma_point_at(notes: Seq<NoteView>, n: int, i: int, j: int)
    requires
        0 <= i < n,
        0 <= j < notes[i].phonemes.len(),
    ensures
        phonemes_upto(notes, i) + j < points_upto(notes, n).len(),
        points_upto(notes, n)[phonemes_upto(notes, i) + j] == note_points(notes, i)[j],
    decreases n,
{
    lemma_points_len(notes, n - 1);
    lemma_points_len(notes, i);
    if i == n - 1 {
    } else {
        lemma_point_at(notes, n - 1, i, j);
    }
}

/// Every point belongs to a note and to one of its phonemes.
pub(crate) proof fn lemma_points_within(notes: Seq<NoteView>, n: int, k: int)
    requires
        0 <= n <= notes.len(),
        0 <= k < points_upto(notes, n).len(),
    ensures
        0 <= points_upto(notes, n)[k].note_index < n,
        0 <= points_upto(notes, n)[k].phoneme_index < points_upto(notes, n)[k].phoneme_count,
        points_upto(notes, n)[k].phoneme_count == notes[points_upto(
            notes,
            n,
        )[k].note_index].phonemes.len(),
        points_upto(notes, n)[k].symbol == notes[points_upto(
            notes,
            n,
        )[k].note_index].phonemes[points_upto(notes, n)[k].phoneme_index],
        k == phonemes_upto(notes, points_upto(notes, n)[k].note_index) + points_upto(
            notes,
            n,
        )[k].phoneme_index,
    decreases n,
{
    lemma_points_len(notes, n - 1);
    if n > 0 {
        if k < points_upto(notes, n - 1).len() {
            lemma_points_within(notes, n - 1, k);
        }
    }
}

/// The phonemes of the notes, one after another.
pub fn flatten_points(notes: &Vec<Note>) -> (points: Vec<Point>)
    ensures
        points_view(points@) == points_of(notes_view(notes@)),
        points.len() == total_phonemes(notes_view(notes@)),
        forall|k: int| 0 <= k < points.len() ==> (#[trigger] points@[k]).index == k,
{
    let ghost nv = notes_view(notes@);
    let mut points: Vec<Point> = Vec::new();
    let mut note_index: usize = 0;
    assert(points_view(points@) =~= points_upto(nv, 0));
    while note_index < notes.len()
        invariant
            note_index <= notes.len(),
            nv == notes_view(notes@),
            points_view(points@) == points_upto(nv, note_index as int),
            forall|k: int| 0 <= k < points.len() ==> (#[trigger] points@[k]).index == k,
        decreases notes.len() - note_index,
    {
        let note = &notes[note_index];
        let count = note.phonemes.len();
        let ghost before = points_view(points@);
        let mut phoneme_index: usize = 0;
        assert(nv[note_index as int] == note@);
        assert(points_view(points@) =~= before + note_points(nv, note_index as int).take(0));
        while phoneme_index < count
            invariant
                phoneme_index <= count,
                note_index < notes.len(),
                count == note.phonemes.len(),
                *note == notes@[note_index as int],
                nv == notes_view(notes@),
                nv[note_index as int] == note@,
                points_view(points@) == before + note_points(nv, note_index as int).take(
                    phoneme_index as int,
                ),
                forall|k: int| 0 <= k < points.len() ==> (#[trigger] points@[k]).index == k,
            decreases count - phoneme_index,
        {
            let point = Point {
                index: points.len(),
                note_index,
                phoneme_index,
                phoneme_count: count,
                symbol: note.phonemes[phoneme_index].clone(),
            };
            proof {
                let np = note_points(nv, note_index as int);
                assert(np[phoneme_index as int] == point@);
                assert(np.take(phoneme_index + 1) =~= np.take(phoneme_index as int).push(
                    point@,
                ));
                assert(points_view(points@.push(point)) =~= points_view(points@).push(point@));
            }
            points.push(point);
            phoneme_index += 1;
        }
        proof {
            let np = note_points(nv, note_index as int);
            assert(np.take(count as int) =~= np);
        }
        note_index += 1;
    }
    proof {
        lemma_points_len(nv, notes.len() as int);
        assert(points_view(points@).len() == points.len());
    }
    points
}

/// The symbol of the point at `index`, or `xx` where there is none.
pub open spec fn symbol_at_spec(points: Seq<PointView>, index: int) -> Seq<char> {
    if 0 <= index < points.len() {
        points[index].symbol
    } else {
        xx()
    }
}

/// The symbol of the point `offset` places after `index`, or `xx` where
/// there is none.
pub fn symbol_at(points: &Vec<Point>, index: usize, offset: isize) -> (r: String)
    ensures
        r@ == symbol_at_spec(points_view(points@), index as int + offset as int),
{
    let shifted: i128 = index as i128 + offset as i128;
    if shifted < 0 || shifted >= points.len() as i128 {
        proof {
            reveal_strlit("xx");
        }
        let r = "xx".to_owned();
        assert(r@ =~= xx());
        r
    } else {
        let at: usize = shifted as usize;
        assert(points_view(points@)[at as int] == points@[at as int]@);
        points[at].symbol.clone()
    }
}

// ---------------------------------------------------------------------
// Time ranges
// ---------------------------------------------------------------------

/// The greater of two numbers.
pub open spec fn max_int(a: int, b: int) -> int {
    if a >= b {
        a
    } else {
        b
    }
}

/// The lesser of two numbers.
pub open spec fn min_int(a: int, b: int) -> int {
    if a <= b {
        a
    } else {
        b
    }
}

/// Where the first `n` notes end: each note starts at its own start time,
/// or where the note before it ends if that is later, and lasts its length.
pub open spec fn cursor_after(notes: Seq<NoteView>, tempo: int, n: int) -> int
    decreases n,
{
    if n <= 0 {
        0
    } else {
        max_int(cursor_after(notes, tempo, n - 1), notes[n - 1].start_time_ns as int)
            + duration_ns(notes[n - 1].length, tempo)
    }
}

/// Where note `i` starts.
pub open spec fn note_start_ns(notes: Seq<NoteView>, tempo: int, i: int) -> int {
    max_int(cursor_after(notes, tempo, i), notes[i].start_time_ns as int)
}

/// Where note `i` ends.
pub open spec fn note_end_ns(notes: Seq<NoteView>, tempo: int, i: int) -> int {
    cursor_after(notes, tempo, i + 1)
}

/// `x`, or the greatest `u64` where `x` is beyond it.
pub open spec fn clamp_u64(x: int) -> u64 {
    if x >= u64::MAX {
        u64::MAX
    } else if x <= 0 {
        0
    } else {
        x as u64
    }
}

/// A cursor grows by less than 2^63 with each note.
pub(crate) proof fn lemma_cursor_range(notes: Seq<NoteView>, tempo: int, n: int)
    requires
        0 <= n <= notes.len(),
        forall|i: int| 0 <= i < notes.len() ==> (#[trigger] notes[i]).length <= i32::MAX,
    ensures
        0 <= cursor_after(notes, tempo, n) <= u64::MAX + n * 0x8000_0000_0000_0000,
    decreases n,
{
    if n > 0 {
        lemma_cursor_range(notes, tempo, n - 1);
        lemma_duration_ns_range(notes[n - 1].length, tempo);
    }
}

/// The time range of every note, in nanoseconds, cut at the greatest
/// `u64`: a note starts at its own start time, or where the note before it
/// ends if that is later.
pub fn compute_note_time_ranges_ns(notes: &Vec<Note>, tempo: i32) -> (ranges: Vec<(u64, u64)>)
    ensures
        ranges.len() == notes.len(),
        forall|i: int|
            0 <= i < notes.len() ==> (#[trigger] ranges@[i]).0 == clamp_u64(
                note_start_ns(notes_view(notes@), tempo as int, i),
            ) && ranges@[i].1 == clamp_u64(note_end_ns(notes_view(notes@), tempo as int, i)),
{
    let ghost nv = notes_view(notes@);
    proof {
        lemma_note_lengths(notes@);
    }
    let mut current_ns: u128 = 0;
    let mut ranges: Vec<(u64, u64)> = Vec::new();
    let mut i: usize = 0;
    while i < notes.len()
        invariant
            i <= notes.len(),
            nv == notes_view(notes@),
            forall|j: int| 0 <= j < nv.len() ==> (#[trigger] nv[j]).length <= i32::MAX,
            current_ns == cursor_after(nv, tempo as int, i as int),
            ranges.len() == i,
            forall|j: int|
                0 <= j < i ==> (#[trigger] ranges@[j]).0 == clamp_u64(
                    note_start_ns(nv, tempo as int, j),
                ) && ranges@[j].1 == clamp_u64(note_end_ns(nv, tempo as int, j)),
        decreases notes.len() - i,
    {
        let note = &notes[i];
        assert(nv[i as int] == note@);
        proof {
            lemma_cursor_range(nv, tempo as int, i as int);
            lemma_cursor_range(nv, tempo as int, i + 1);
            lemma_duration_ns_range(note@.length, tempo as int);
            assert(i * 0x8000_0000_0000_0000 <= 0xffff_ffff_ffff_ffff * 0x8000_0000_0000_0000)
                by (nonlinear_arith)
                requires
                    0 <= i <= 0xffff_ffff_ffff_ffff,
            ;
        }
        let duration: u128 = length_triplet_32nd_to_nanoseconds(
            note.length.triplet_32nd(),
            tempo,
        ) as u128;
        let own: u128 = note.start_time_ns as u128;
        let start_ns: u128 = if current_ns >= own {
            current_ns
        } else {
            own
        };
        let end_ns: u128 = start_ns + duration;
        let limit: u128 = u64::MAX as u128;
        let start_cut: u64 = if start_ns >= limit {
            u64::MAX
        } else {
            start_ns as u64
        };
        let end_cut: u64 = if end_ns >= limit {
            u64::MAX
        } else {
            end_ns as u64
        };
        ranges.push((start_cut, end_cut));
        current_ns = end_ns;
        i += 1;
    }
    ranges
}

/// `a * b`, or the greatest `u64` where the product is beyond it.
pub open spec fn saturating_product(a: int, b: int) -> int {
    min_int(a * b, u64::MAX as int)
}

/// Where phoneme `j` of `count` starts in the range from `start` to `end`:
/// the span is divided evenly, in whole nanoseconds.
pub open spec fn phoneme_time(start: int, end: int, j: int, count: int) -> int {
    start + saturating_product(end - start, j) / count
}

/// A phoneme's time lies within its note's range.
pub(crate) proof fn lemma_phoneme_time_range(start: int, end: int, j: int, count: int)
    requires
        0 <= start <= end,
        0 <= j <= count,
        count > 0,
    ensures
        start <= phoneme_time(start, end, j, count) <= end,
{
    let span = end - start;
    let p = saturating_product(span, j);
    assert(0 <= span * j <= span * count) by (nonlinear_arith)
        requires
            0 <= span,
            0 <= j <= count,
    ;
    assert(0 <= p / count <= span) by (nonlinear_arith)
        requires
            0 <= p <= span * count,
            count > 0,
    ;
}

/// The time where phoneme `j` of `count` starts in the range from `start`
/// to `end`.
pub fn phoneme_time_ns(start: u64, end: u64, j: usize, count: usize) -> (r: u64)
    requires
        start <= end,
        j <= count,
        count > 0,
    ensures
        r == phoneme_time(start as int, end as int, j as int, count as int),
{
    proof {
        lemma_phoneme_time_range(start as int, end as int, j as int, count as int);
    }
    let span: u128 = (end - start) as u128;
    assert(span * j <= 0xffff_ffff_ffff_ffff * 0xffff_ffff_ffff_ffff) by (nonlinear_arith)
        requires
            0 <= span <= 0xffff_ffff_ffff_ffff,
            0 <= j <= 0xffff_ffff_ffff_ffff,
    ;
    let product: u128 = span * (j as u128);
    let limit: u128 = u64::MAX as u128;
    let cut: u128 = if product >= limit {
        limit
    } else {
        product
    };
    let share: u128 = cut / (count as u128);
    start + (share as u64)
}


// ---------------------------------------------------------------------
// The sections of a composed label
// ---------------------------------------------------------------------

/// The text `00`.
pub open spec fn flag_zero() -> Seq<char> {
    seq!['0', '0']
}

/// The fields of the phoneme section for point `k`: the symbol, its
/// neighbours two before to two after (`xx` past the ends), the flags, and
/// the place in the note counted from the front and from the back, both
/// from 1.
pub open spec fn phoneme_fields(points: Seq<PointView>, k: int) -> Seq<Seq<char>> {
    seq![
        points[k].symbol,
        symbol_at_spec(points, k - 2),
        symbol_at_spec(points, k - 1),
        points[k].symbol,
        symbol_at_spec(points, k + 1),
        symbol_at_spec(points, k + 2),
        xx(),
        xx(),
        flag_zero(),
        flag_zero(),
        flag_zero(),
        decimal((points[k].phoneme_index + 1) as nat),
        decimal((points[k].phoneme_count - points[k].phoneme_index) as nat),
        xx(),
        xx(),
        xx(),
    ]
}

/// Fills the phoneme section of `label` for the point at `index`.
pub fn fill_phoneme_context(label: &mut Label, points: &Vec<Point>, index: usize)
    requires
        index < points.len(),
        points@[index as int].phoneme_index < points@[index as int].phoneme_count,
    ensures
        final(label)@ == old(label)@.update(0, phoneme_fields(points_view(points@), index as int)),
{
    proof {
        reveal_strlit("00");
    }
    let current = &points[index];
    assert(points_view(points@)[index as int] == current@);
    let mut f: Vec<LabelValue> = Vec::new();
    f.push(LabelValue::new(current.symbol.clone()));
    f.push(LabelValue::new(symbol_at(points, index, -2)));
    f.push(LabelValue::new(symbol_at(points, index, -1)));
    f.push(LabelValue::new(current.symbol.clone()));
    f.push(LabelValue::new(symbol_at(points, index, 1)));
    f.push(LabelValue::new(symbol_at(points, index, 2)));
    f.push(LabelValue::not_applicable());
    f.push(LabelValue::not_applicable());
    f.push(LabelValue::of("00"));
    f.push(LabelValue::of("00"));
    f.push(LabelValue::of("00"));
    f.push(LabelValue::new(usize_to_string_plus_one(current.phoneme_index)));
    f.push(LabelValue::new(u64_to_string((current.phoneme_count - current.phoneme_index) as u64)));
    f.push(LabelValue::not_applicable());
    f.push(LabelValue::not_applicable());
    f.push(LabelValue::not_applicable());
    assert("00"@ =~= flag_zero());
    assert(texts_of(f@) =~= phoneme_fields(points_view(points@), index as int));
    label.phoneme = PhonemeContext::from_fields(&f);
    assert(label@ =~= old(label)@.update(0, phoneme_fields(points_view(points@), index as int)));
}

/// The numeral of `n + 1`.
pub fn usize_to_string_plus_one(n: usize) -> (r: String)
    requires
        n < usize::MAX,
    ensures
        r@ == decimal((n + 1) as nat),
{
    u64_to_string((n + 1) as u64)
}

/// The text of an optional text, `xx` where there is none.
pub open spec fn text_or_xx(s: Option<Seq<char>>) -> Seq<char> {
    match s {
        Some(t) => t,
        None => xx(),
    }
}

/// An optional index as a number.
pub open spec fn index_view(idx: Option<usize>) -> Option<int> {
    match idx {
        Some(i) => Some(i as int),
        None => None,
    }
}

/// The index of the note before note `i`, if there is one.
pub open spec fn prev_index(i: int) -> Option<int> {
    if i >= 1 {
        Some(i - 1)
    } else {
        None
    }
}

/// The index of the note after note `i` of `len`, if there is one.
pub open spec fn next_index(len: int, i: int) -> Option<int> {
    if i + 1 < len {
        Some(i + 1)
    } else {
        None
    }
}

/// The fields of a syllable section for the note at `idx`: its number of
/// phonemes, its place among the notes counted from the front and from the
/// back, both from 1, its language and its language-dependent context; all
/// `xx` where there is no such note.
pub open spec fn syllable_fields(notes: Seq<NoteView>, idx: Option<int>) -> Seq<Seq<char>> {
    match idx {
        Some(i) => seq![
            decimal(notes[i].phonemes.len()),
            decimal((i + 1) as nat),
            decimal((notes.len() - i) as nat),
            text_or_xx(notes[i].language),
            text_or_xx(notes[i].language_dependent_context),
        ],
        None => seq![xx(), xx(), xx(), xx(), xx()],
    }
}

/// The field of an optional text.
pub fn value_or_xx(s: &Option<String>) -> (r: LabelValue)
    ensures
        r@ == text_or_xx(option_view(*s)),
{
    match s {
        Some(t) => LabelValue::of(t.as_str()),
        None => LabelValue::not_applicable(),
    }
}

/// The fields of a syllable section for the note at `idx`.
pub fn fill_syllable(notes: &Vec<Note>, idx: Option<usize>) -> (f: Vec<LabelValue>)
    requires
        idx is Some ==> idx->0 < notes.len(),
    ensures
        f.len() == 5,
        texts_of(f@) == syllable_fields(notes_view(notes@), index_view(idx)),
{
    let mut f: Vec<LabelValue> = Vec::new();
    match idx {
        Some(i) => {
            let note = &notes[i];
            assert(notes_view(notes@)[i as int] == note@);
            f.push(LabelValue::new(u64_to_string(note.phonemes.len() as u64)));
            f.push(LabelValue::new(usize_to_string_plus_one(i)));
            f.push(LabelValue::new(u64_to_string((notes.len() - i) as u64)));
            f.push(value_or_xx(&note.language));
            f.push(value_or_xx(&note.language_dependent_context));
        },
        None => {
            f.push(LabelValue::not_applicable());
            f.push(LabelValue::not_applicable());
            f.push(LabelValue::not_applicable());
            f.push(LabelValue::not_applicable());
            f.push(LabelValue::not_applicable());
        },
    }
    assert(texts_of(f@) =~= syllable_fields(notes_view(notes@), index_view(idx)));
    f
}

/// Fills the three syllable sections of `label` for the note at
/// `note_index`: the note before it, the note itself and the note after it.
pub fn fill_syllable_contexts(label: &mut Label, notes: &Vec<Note>, note_index: usize)
    requires
        note_index < notes.len(),
    ensures
        final(label)@ == old(label)@.update(
            1,
            syllable_fields(notes_view(notes@), prev_index(note_index as int)),
        ).update(2, syllable_fields(notes_view(notes@), Some(note_index as int))).update(
            3,
            syllable_fields(
                notes_view(notes@),
                next_index(notes.len() as int, note_index as int),
            ),
        ),
{
    let prev: Option<usize> = if note_index >= 1 {
        Some(note_index - 1)
    } else {
        None
    };
    let next: Option<usize> = if note_index + 1 < notes.len() {
        Some(note_index + 1)
    } else {
        None
    };
    label.prev_syllable = PrevSyllable::from_fields(&fill_syllable(notes, prev));
    label.curr_syllable = CurrSyllable::from_fields(&fill_syllable(notes, Some(note_index)));
    label.next_syllable = NextSyllable::from_fields(&fill_syllable(notes, next));
    assert(label@ =~= old(label)@.update(
        1,
        syllable_fields(notes_view(notes@), prev_index(note_index as int)),
    ).update(2, syllable_fields(notes_view(notes@), Some(note_index as int))).update(
        3,
        syllable_fields(notes_view(notes@), next_index(notes.len() as int, note_index as int)),
    ));
}


/// The text `0`.
pub open spec fn text_zero() -> Seq<char> {
    seq!['0']
}

/// The text `1`.
pub open spec fn text_one() -> Seq<char> {
    seq!['1']
}

/// The absolute pitch of a note as the label states it: the note's name,
/// `xx` for a rest.
pub open spec fn absolute_pitch_text(pitch: Option<u8>) -> Seq<char> {
    match pitch {
        Some(p) => note_name(p as int),
        None => xx(),
    }
}

/// The relative pitch of a note as the label states it: the pitch class as
/// a numeral, `xx` for a rest.
pub open spec fn relative_pitch_text(pitch: Option<u8>) -> Seq<char> {
    match pitch {
        Some(p) => decimal((p % 12) as nat),
        None => xx(),
    }
}

/// The nine fields that the three note sections share, for the note at
/// `idx`: absolute and relative pitch, key signature, beat, tempo, length
/// in syllables (always 1), in centiseconds and in triplet-32nd units, and
/// a reserved field; all `xx` where there is no such note.
pub open spec fn note_fields(
    notes: Seq<NoteView>,
    idx: Option<int>,
    options: ComposeOptionsView,
) -> Seq<Seq<char>> {
    match idx {
        Some(i) => seq![
            absolute_pitch_text(notes[i].pitch),
            relative_pitch_text(notes[i].pitch),
            options.key_signature,
            options.beat,
            signed_decimal(options.tempo),
            text_one(),
            signed_decimal(centiseconds(notes[i].length, options.tempo)),
            signed_decimal(notes[i].length),
            xx(),
        ],
        None => seq![xx(), xx(), xx(), xx(), xx(), xx(), xx(), xx(), xx()],
    }
}

/// The nine fields that the three note sections share, for the note at
/// `idx`.
pub fn fill_note(notes: &Vec<Note>, idx: Option<usize>, options: &ComposeOptions) -> (f: Vec<
    LabelValue,
>)
    requires
        idx is Some ==> idx->0 < notes.len(),
    ensures
        f.len() == 9,
        texts_of(f@) == note_fields(notes_view(notes@), index_view(idx), options@),
{
    proof {
        reveal_strlit("1");
    }
    let mut f: Vec<LabelValue> = Vec::new();
    match idx {
        Some(i) => {
            let note = &notes[i];
            assert(notes_view(notes@)[i as int] == note@);
            let length = note.length.triplet_32nd();
            match note.pitch {
                Some(p) => {
                    f.push(LabelValue::new(midi_to_note_name(p)));
                    f.push(LabelValue::new(u64_to_string((p % 12) as u64)));
                },
                None => {
                    f.push(LabelValue::not_applicable());
                    f.push(LabelValue::not_applicable());
                },
            }
            f.push(LabelValue::of(options.key_signature.as_str()));
            f.push(LabelValue::of(options.beat.as_str()));
            f.push(LabelValue::new(i64_to_string(options.tempo as i64)));
            f.push(LabelValue::of("1"));
            f.push(
                LabelValue::new(
                    i64_to_string(length_triplet_32nd_to_centiseconds(length, options.tempo)),
                ),
            );
            f.push(LabelValue::new(i64_to_string(length as i64)));
            f.push(LabelValue::not_applicable());
        },
        None => {
            f.push(LabelValue::not_applicable());
            f.push(LabelValue::not_applicable());
            f.push(LabelValue::not_applicable());
            f.push(LabelValue::not_applicable());
            f.push(LabelValue::not_applicable());
            f.push(LabelValue::not_applicable());
            f.push(LabelValue::not_applicable());
            f.push(LabelValue::not_applicable());
            f.push(LabelValue::not_applicable());
        },
    }
    assert("1"@ =~= text_one());
    assert(texts_of(f@) =~= note_fields(notes_view(notes@), index_view(idx), options@));
    f
}

/// `n` times `xx`.
pub open spec fn xx_run(n: nat) -> Seq<Seq<char>> {
    Seq::new(n, |i: int| xx())
}

/// The step from note `i` to the note after it as the label states it;
/// `xx` where there is no next note or one of the two is a rest.
pub open spec fn pitch_difference_to_next(notes: Seq<NoteView>, i: int) -> Seq<char> {
    if i + 1 < notes.len() && notes[i].pitch is Some && notes[i + 1].pitch is Some {
        pitch_difference(notes[i].pitch->0 as int, notes[i + 1].pitch->0 as int)
    } else {
        xx()
    }
}

/// The place of a note in its measure as the label states it: first of one
/// note, at centisecond 0, unit 0 and percent 0 from the front, percent
/// 100 from the back.
pub open spec fn measure_position_fields() -> Seq<Seq<char>> {
    seq![
        text_one(),
        text_one(),
        text_zero(),
        text_zero(),
        text_zero(),
        text_zero(),
        text_zero(),
        seq!['1', '0', '0'],
    ]
}

/// The sixty fields of the current-note section for note `i`: the nine
/// shared fields, the place in the measure, eight phrase positions (`xx`),
/// no slur before or after (`0`), dynamic mark `n`, six accent and six
/// staccato distances (`xx`), eight crescendo and eight decrescendo
/// positions (`xx`), the pitch difference from the previous note (`xx`)
/// and to the next one, and two reserved fields (`xx`).
pub open spec fn curr_note_fields(
    notes: Seq<NoteView>,
    i: int,
    options: ComposeOptionsView,
) -> Seq<Seq<char>> {
    note_fields(notes, Some(i), options) + measure_position_fields() + xx_run(8) + seq![
        text_zero(),
        text_zero(),
        seq!['n'],
    ] + xx_run(28) + seq![xx(), pitch_difference_to_next(notes, i), xx(), xx()]
}

/// Appends `n` fields `xx` to `f`.
fn push_xx_run(f: &mut Vec<LabelValue>, n: usize)
    ensures
        texts_of(final(f)@) == texts_of(old(f)@) + xx_run(n as nat),
        final(f).len() == old(f).len() + n,
{
    let mut i: usize = 0;
    assert(texts_of(f@) =~= texts_of(old(f)@) + xx_run(0));
    while i < n
        invariant
            i <= n,
            f.len() == old(f).len() + i,
            texts_of(f@) == texts_of(old(f)@) + xx_run(i as nat),
        decreases n - i,
    {
        let ghost before = f@;
        f.push(LabelValue::not_applicable());
        assert(texts_of(f@) =~= texts_of(before).push(xx()));
        assert(xx_run((i + 1) as nat) =~= xx_run(i as nat).push(xx()));
        assert(texts_of(f@) =~= texts_of(old(f)@) + xx_run((i + 1) as nat));
        i += 1;
    }
}

/// Appends the field `v` to `f`.
fn push_value(f: &mut Vec<LabelValue>, v: LabelValue)
    ensures
        texts_of(final(f)@) == texts_of(old(f)@) + seq![v@],
        final(f).len() == old(f).len() + 1,
{
    f.push(v);
    assert(texts_of(f@) =~= texts_of(old(f)@) + seq![v@]);
}

/// The sixty fields of the current-note section for the note at
/// `note_index`.
pub fn fill_curr_note(notes: &Vec<Note>, note_index: usize, options: &ComposeOptions) -> (f: Vec<
    LabelValue,
>)
    requires
        note_index < notes.len(),
    ensures
        f.len() == 60,
        texts_of(f@) == curr_note_fields(notes_view(notes@), note_index as int, options@),
{
    proof {
        reveal_strlit("0");
        reveal_strlit("1");
        reveal_strlit("100");
        reveal_strlit("n");
    }
    let ghost nv = notes_view(notes@);
    let mut f = fill_note(notes, Some(note_index), options);
    push_value(&mut f, LabelValue::of("1"));
    push_value(&mut f, LabelValue::of("1"));
    push_value(&mut f, LabelValue::of("0"));
    push_value(&mut f, LabelValue::of("0"));
    push_value(&mut f, LabelValue::of("0"));
    push_value(&mut f, LabelValue::of("0"));
    push_value(&mut f, LabelValue::of("0"));
    push_value(&mut f, LabelValue::of("100"));
    proof {
        assert("0"@ =~= text_zero());
        assert("1"@ =~= text_one());
        assert("100"@ =~= seq!['1', '0', '0']);
        assert(texts_of(f@) =~= note_fields(nv, Some(note_index as int), options@)
            + measure_position_fields());
    }
    push_xx_run(&mut f, 8);
    push_value(&mut f, LabelValue::of("0"));
    push_value(&mut f, LabelValue::of("0"));
    push_value(&mut f, LabelValue::of("n"));
    proof {
        assert("n"@ =~= seq!['n']);
        assert(texts_of(f@) =~= note_fields(nv, Some(note_index as int), options@)
            + measure_position_fields() + xx_run(8) + seq![text_zero(), text_zero(), seq!['n']]);
    }
    push_xx_run(&mut f, 28);
    push_value(&mut f, LabelValue::not_applicable());
    let difference = if note_index + 1 < notes.len() {
        assert(nv[note_index as int] == notes@[note_index as int]@);
        assert(nv[note_index + 1] == notes@[note_index + 1]@);
        match (notes[note_index].pitch, notes[note_index + 1].pitch) {
            (Some(current), Some(next)) => LabelValue::new(format_pitch_difference(current, next)),
            _ => LabelValue::not_applicable(),
        }
    } else {
        LabelValue::not_applicable()
    };
    push_value(&mut f, difference);
    push_value(&mut f, LabelValue::not_applicable());
    push_value(&mut f, LabelValue::not_applicable());
    assert(texts_of(f@) =~= curr_note_fields(nv, note_index as int, options@));
    f
}

/// Fills the three note sections of `label` for the note at `note_index`:
/// the note before it, the note itself and the note after it.
pub fn fill_note_contexts(
    label: &mut Label,
    notes: &Vec<Note>,
    note_index: usize,
    options: &ComposeOptions,
)
    requires
        note_index < notes.len(),
    ensures
        final(label)@ == old(label)@.update(
            4,
            note_fields(notes_view(notes@), prev_index(note_index as int), options@),
        ).update(5, curr_note_fields(notes_view(notes@), note_index as int, options@)).update(
            6,
            note_fields(
                notes_view(notes@),
                next_index(notes.len() as int, note_index as int),
                options@,
            ),
        ),
{
    let prev: Option<usize> = if note_index >= 1 {
        Some(note_index - 1)
    } else {
        None
    };
    let next: Option<usize> = if note_index + 1 < notes.len() {
        Some(note_index + 1)
    } else {
        None
    };
    label.prev_note = PrevNote::from_fields(&fill_note(notes, prev, options));
    label.curr_note = CurrNote::from_fields(&fill_curr_note(notes, note_index, options));
    label.next_note = NextNote::from_fields(&fill_note(notes, next, options));
    assert(label@ =~= old(label)@.update(
        4,
        note_fields(notes_view(notes@), prev_index(note_index as int), options@),
    ).update(5, curr_note_fields(notes_view(notes@), note_index as int, options@)).update(
        6,
        note_fields(
            notes_view(notes@),
            next_index(notes.len() as int, note_index as int),
            options@,
        ),
    ));
}

/// The fields of the current-phrase section: the number of notes and the
/// number of phonemes of the score.
pub open spec fn curr_phrase_fields(notes: Seq<NoteView>) -> Seq<Seq<char>> {
    seq![decimal(notes.len()), decimal(total_phonemes(notes) as nat)]
}

/// The fields of the song section: `xx`, `xx` and the number of phrases.
pub open spec fn song_fields(options: ComposeOptionsView) -> Seq<Seq<char>> {
    seq![xx(), xx(), decimal(options.phrase_count)]
}

/// The number of phonemes of the notes.
pub fn count_phonemes(notes: &Vec<Note>) -> (total: usize)
    requires
        total_phonemes(notes_view(notes@)) <= usize::MAX,
    ensures
        total == total_phonemes(notes_view(notes@)),
{
    let ghost nv = notes_view(notes@);
    let mut total: usize = 0;
    let mut i: usize = 0;
    while i < notes.len()
        invariant
            i <= notes.len(),
            nv == notes_view(notes@),
            total == phonemes_upto(nv, i as int),
            phonemes_upto(nv, notes.len() as int) <= usize::MAX,
        decreases notes.len() - i,
    {
        proof {
            assert(nv[i as int] == notes@[i as int]@);
            lemma_phonemes_upto_monotonic(nv, i + 1, notes.len() as int);
        }
        total = total + notes[i].phonemes.len();
        i += 1;
    }
    total
}

/// More notes have at least as many phonemes.
pub(crate) proof fn lemma_phonemes_upto_monotonic(notes: Seq<NoteView>, m: int, n: int)
    requires
        m <= n,
    ensures
        phonemes_upto(notes, m) <= phonemes_upto(notes, n),
    decreases n - m,
{
    if m < n {
        lemma_phonemes_upto_monotonic(notes, m, n - 1);
        lemma_points_len(notes, n - 1);
    }
}

/// Fills the three phrase sections and the song section of `label`: the
/// previous and the next phrase are `xx`, the current phrase counts the
/// notes and the phonemes of the score.
pub fn fill_phrase_and_song_contexts(label: &mut Label, notes: &Vec<Note>, options: &ComposeOptions)
    requires
        total_phonemes(notes_view(notes@)) <= usize::MAX,
    ensures
        final(label)@ == old(label)@.update(7, xx_run(2)).update(
            8,
            curr_phrase_fields(notes_view(notes@)),
        ).update(9, xx_run(2)).update(10, song_fields(options@)),
{
    let total = count_phonemes(notes);
    let mut h: Vec<LabelValue> = Vec::new();
    h.push(LabelValue::new(u64_to_string(notes.len() as u64)));
    h.push(LabelValue::new(u64_to_string(total as u64)));
    assert(texts_of(h@) =~= curr_phrase_fields(notes_view(notes@)));
    let mut j: Vec<LabelValue> = Vec::new();
    j.push(LabelValue::not_applicable());
    j.push(LabelValue::not_applicable());
    j.push(LabelValue::new(u64_to_string(options.phrase_count as u64)));
    assert(texts_of(j@) =~= song_fields(options@));
    let g = xx_fields(2);
    let i = xx_fields(2);
    assert(texts_of(g@) =~= xx_run(2));
    assert(texts_of(i@) =~= xx_run(2));
    label.prev_phrase = PrevPhrase::from_fields(&g);
    label.curr_phrase = CurrPhrase::from_fields(&h);
    label.next_phrase = NextPhrase::from_fields(&i);
    label.song = SongContext::from_fields(&j);
    assert(label@ =~= old(label)@.update(7, xx_run(2)).update(
        8,
        curr_phrase_fields(notes_view(notes@)),
    ).update(9, xx_run(2)).update(10, song_fields(options@)));
}


// ---------------------------------------------------------------------
// Composing
// ---------------------------------------------------------------------

/// The label of point `k` of a score: the phoneme section of the point, the
/// syllable and note sections of its note and of the notes before and after
/// it, and the phrase and song sections of the score.
pub open spec fn composed_label(
    notes: Seq<NoteView>,
    options: ComposeOptionsView,
    k: int,
) -> Seq<Seq<Seq<char>>> {
    let points = points_of(notes);
    let i = points[k].note_index;
    seq![
        phoneme_fields(points, k),
        syllable_fields(notes, prev_index(i)),
        syllable_fields(notes, Some(i)),
        syllable_fields(notes, next_index(notes.len() as int, i)),
        note_fields(notes, prev_index(i), options),
        curr_note_fields(notes, i, options),
        note_fields(notes, next_index(notes.len() as int, i), options),
        xx_run(2),
        curr_phrase_fields(notes),
        xx_run(2),
        song_fields(options),
    ]
}

/// Where the range of note `i` starts, cut at the greatest `u64`.
pub open spec fn range_start(score: ScoreView, i: int) -> int {
    clamp_u64(note_start_ns(score.notes, score.tempo, i)) as int
}

/// Where the range of note `i` ends, cut at the greatest `u64`.
pub open spec fn range_end(score: ScoreView, i: int) -> int {
    clamp_u64(note_end_ns(score.notes, score.tempo, i)) as int
}

/// Where point `k` of a score starts: its note's range is divided evenly
/// among the note's phonemes.
pub open spec fn point_start_ns(score: ScoreView, k: int) -> int {
    let p = points_of(score.notes)[k];
    phoneme_time(
        range_start(score, p.note_index),
        range_end(score, p.note_index),
        p.phoneme_index,
        p.phoneme_count,
    )
}

/// Where point `k` of a score ends.
pub open spec fn point_end_ns(score: ScoreView, k: int) -> int {
    let p = points_of(score.notes)[k];
    phoneme_time(
        range_start(score, p.note_index),
        range_end(score, p.note_index),
        p.phoneme_index + 1,
        p.phoneme_count,
    )
}

/// Whether note `i` is the first note without phonemes.
pub open spec fn first_empty_note(notes: Seq<NoteView>, i: int) -> bool {
    &&& 0 <= i < notes.len()
    &&& notes[i].phonemes.len() == 0
    &&& forall|j: int| 0 <= j < i ==> (#[trigger] notes[j]).phonemes.len() > 0
}

/// Whether every note has a phoneme.
pub open spec fn all_notes_sing(notes: Seq<NoteView>) -> bool {
    forall|j: int| 0 <= j < notes.len() ==> (#[trigger] notes[j]).phonemes.len() > 0
}

/// The range of a note does not end before it starts.
pub(crate) proof fn lemma_range_ordered(score: ScoreView, i: int)
    requires
        0 <= i < score.notes.len(),
        score.notes[i].length <= i32::MAX,
    ensures
        0 <= range_start(score, i) <= range_end(score, i),
{
    lemma_duration_ns_range(score.notes[i].length, score.tempo);
}

/// The label of the point at `k`.
pub fn compose_point_label(
    notes: &Vec<Note>,
    points: &Vec<Point>,
    options: &ComposeOptions,
    k: usize,
) -> (label: Label)
    requires
        k < points.len(),
        points_view(points@) == points_of(notes_view(notes@)),
        points.len() == total_phonemes(notes_view(notes@)),
    ensures
        label@ == composed_label(notes_view(notes@), options@, k as int),
{
    let ghost nv = notes_view(notes@);
    let point = &points[k];
    proof {
        assert(points_view(points@)[k as int] == point@);
        lemma_points_within(nv, nv.len() as int, k as int);
    }
    let mut label = Label::blank();
    let ghost l0 = label@;
    fill_phoneme_context(&mut label, points, k);
    let ghost l1 = label@;
    fill_syllable_contexts(&mut label, notes, point.note_index);
    let ghost l2 = label@;
    fill_note_contexts(&mut label, notes, point.note_index, options);
    let ghost l3 = label@;
    fill_phrase_and_song_contexts(&mut label, notes, options);
    proof {
        let want = composed_label(nv, options@, k as int);
        assert(l0.len() == 11);
        assert(label@.len() == 11);
        assert(label@[0] == want[0]);
        assert(label@[1] == want[1]);
        assert(label@[2] == want[2]);
        assert(label@[3] == want[3]);
        assert(label@[4] == want[4]);
        assert(label@[5] == want[5]);
        assert(label@[6] == want[6]);
        assert(label@[7] == want[7]);
        assert(label@[8] == want[8]);
        assert(label@[9] == want[9]);
        assert(label@[10] == want[10]);
        assert(label@ =~= want);
    }
    label
}

/// The timed labels of a score, one for each phoneme, in order.
///
/// A score with a note without phonemes is refused, with the index of the
/// first such note. Else there is one label for each phoneme; it holds the
/// sections that `composed_label` describes, and its time range is the
/// phoneme's even share of its note's range.
pub fn compose_labels_from_score(score: &Score) -> (r: Result<Vec<TimedLabel>, ComposeError>)
    ensures
        match r {
            Ok(labels) => {
                &&& all_notes_sing(score@.notes)
                &&& labels.len() == total_phonemes(score@.notes)
                &&& forall|k: int|
                    0 <= k < labels.len() ==> {
                        &&& (#[trigger] labels@[k]).label@ == composed_label(
                            score@.notes,
                            options_of(score@),
                            k,
                        )
                        &&& labels@[k].start_time_ns == point_start_ns(score@, k)
                        &&& labels@[k].end_time_ns == point_end_ns(score@, k)
                    }
            },
            Err(e) => exists|i: int|
                first_empty_note(score@.notes, i) && e@ == (ComposeErrorView::EmptyPhonemes {
                    note_index: i as usize,
                }),
        },
{
    let ghost sv = score@;
    let ghost nv = score@.notes;
    let time_signature = if score.time_signatures.len() > 0 {
        score.time_signatures[0]
    } else {
        TimeSignature::default()
    };
    proof {
        reveal_strlit("0");
    }
    let options = ComposeOptions {
        tempo: score.tempo,
        beat: format_time_signature(&time_signature),
        key_signature: "0".to_owned(),
        phrase_count: 1,
    };
    assert("0"@ =~= seq!['0']);
    assert(options@ == options_of(sv));
    let mut i: usize = 0;
    while i < score.notes.len()
        invariant
            i <= score.notes.len(),
            nv == notes_view(score.notes@),
            forall|j: int| 0 <= j < i ==> (#[trigger] nv[j]).phonemes.len() > 0,
        decreases score.notes.len() - i,
    {
        assert(nv[i as int] == score.notes@[i as int]@);
        if score.notes[i].phonemes.len() == 0 {
            let e = ComposeError::EmptyPhonemes { note_index: i };
            assert(first_empty_note(score@.notes, i as int) && e@ == (
            ComposeErrorView::EmptyPhonemes { note_index: i as int as usize }));
            return Err(e);
        }
        i += 1;
    }
    let points = flatten_points(&score.notes);
    let ranges = compute_note_time_ranges_ns(&score.notes, options.tempo);
    let mut labels: Vec<TimedLabel> = Vec::new();
    let mut k: usize = 0;
    while k < points.len()
        invariant
            k <= points.len(),
            sv == score@,
            nv == notes_view(score.notes@),
            options@ == options_of(sv),
            options.tempo == score.tempo,
            points_view(points@) == points_of(nv),
            points.len() == total_phonemes(nv),
            ranges.len() == score.notes.len(),
            forall|i: int|
                0 <= i < score.notes.len() ==> (#[trigger] ranges@[i]).0 == range_start(sv, i)
                    && ranges@[i].1 == range_end(sv, i),
            labels.len() == k,
            forall|j: int|
                0 <= j < k ==> {
                    &&& (#[trigger] labels@[j]).label@ == composed_label(nv, options_of(sv), j)
                    &&& labels@[j].start_time_ns == point_start_ns(sv, j)
                    &&& labels@[j].end_time_ns == point_end_ns(sv, j)
                },
        decreases points.len() - k,
    {
        let point = &points[k];
        proof {
            assert(points_view(points@)[k as int] == point@);
            lemma_points_within(nv, nv.len() as int, k as int);
            assert(nv[point.note_index as int] == score.notes@[point.note_index as int]@);
            lemma_note_lengths(score.notes@);
            lemma_range_ordered(sv, point.note_index as int);
        }
        let label = compose_point_label(&score.notes, &points, &options, k);
        let note_start_ns = ranges[point.note_index].0;
        let note_end_ns = ranges[point.note_index].1;
        let start_time_ns = phoneme_time_ns(
            note_start_ns,
            note_end_ns,
            point.phoneme_index,
            point.phoneme_count,
        );
        let end_time_ns = phoneme_time_ns(
            note_start_ns,
            note_end_ns,
            point.phoneme_index + 1,
            point.phoneme_count,
        );
        labels.push(TimedLabel { label, start_time_ns, end_time_ns });
        k += 1;
    }
    Ok(labels)
}


/// Whether every length of the notes fits in an `i32`, as the length of
/// every `Note` does.
pub open spec fn lengths_in_range(notes: Seq<NoteView>) -> bool {
    forall|i: int| 0 <= i < notes.len() ==> i32::MIN <= (#[trigger] notes[i]).length <= i32::MAX
}

/// The notes of a score have lengths that fit in an `i32`.
pub proof fn lemma_note_lengths(notes: Seq<Note>)
    ensures
        lengths_in_range(notes_view(notes)),
{
    assert forall|i: int| 0 <= i < notes.len() implies i32::MIN <= (#[trigger] notes_view(
        notes,
    )[i]).length <= i32::MAX by {
        notes[i].length.lemma_units_range();
    }
}

/// The shares of a range are even: the first starts where the range
/// starts, the last ends where it ends, each ends where the next one
/// starts, none ends before it starts, and each is the whole quotient of
/// span by count long, or one nanosecond longer. This holds where the
/// product of span and count stays within `u64`, so that nothing
/// saturates.
pub proof fn lemma_phoneme_shares(start: int, end: int, count: int, j: int)
    requires
        0 <= start <= end,
        0 <= j < count,
        (end - start) * count <= u64::MAX,
    ensures
        phoneme_time(start, end, 0, count) == start,
        phoneme_time(start, end, count, count) == end,
        phoneme_time(start, end, j, count) <= phoneme_time(start, end, j + 1, count),
        (end - start) / count <= phoneme_time(start, end, j + 1, count) - phoneme_time(
            start,
            end,
            j,
            count,
        ) <= (end - start) / count + 1,
{
    let span = end - start;
    assert(span * 0 == 0);
    assert(0int / count == 0) by (nonlinear_arith)
        requires
            count > 0,
    ;
    assert((span * count) / count == span) by (nonlinear_arith)
        requires
            count > 0,
    ;
    assert(0 <= span * j && span * j + span == span * (j + 1) && span * (j + 1) <= span * count)
        by (nonlinear_arith)
        requires
            0 <= span,
            0 <= j < count,
    ;
    let a = span * j;
    let q = span / count;
    let r = span % count;
    assert(span == q * count + r && 0 <= r < count) by (nonlinear_arith)
        requires
            q == span / count,
            r == span % count,
            count > 0,
    ;
    assert(a / count + q <= (a + span) / count <= a / count + q + 1) by (nonlinear_arith)
        requires
            span == q * count + r,
            0 <= r < count,
            0 <= a,
            count > 0,
    ;
}

/// The labels of one note divide the note's range evenly: the label of its
/// first phoneme starts where the range starts, the label of its last
/// phoneme ends where the range ends, each label ends where the next one
/// starts, and each lasts the whole quotient of span by count, or one
/// nanosecond more. This holds where the product of span and count stays
/// within `u64`.
pub proof fn lemma_note_labels_partition(score: ScoreView, i: int, j: int)
    requires
        lengths_in_range(score.notes),
        0 <= i < score.notes.len(),
        0 <= j < score.notes[i].phonemes.len(),
        (range_end(score, i) - range_start(score, i)) * score.notes[i].phonemes.len()
            <= u64::MAX,
    ensures
        ({
            let k = phonemes_upto(score.notes, i) + j;
            let count = score.notes[i].phonemes.len() as int;
            let span = range_end(score, i) - range_start(score, i);
            &&& 0 <= k < total_phonemes(score.notes)
            &&& j == 0 ==> point_start_ns(score, k) == range_start(score, i)
            &&& j == count - 1 ==> point_end_ns(score, k) == range_end(score, i)
            &&& j + 1 < count ==> point_end_ns(score, k) == point_start_ns(score, k + 1)
            &&& point_start_ns(score, k) <= point_end_ns(score, k)
            &&& span / count <= point_end_ns(score, k) - point_start_ns(score, k) <= span
                / count + 1
        }),
{
    let notes = score.notes;
    let n = notes.len() as int;
    let count = notes[i].phonemes.len() as int;
    lemma_points_len(notes, n);
    lemma_points_len(notes, i);
    lemma_point_at(notes, n, i, j);
    lemma_range_ordered(score, i);
    lemma_phoneme_shares(range_start(score, i), range_end(score, i), count, j);
    if j + 1 < count {
        lemma_point_at(notes, n, i, j + 1);
    }
}

// ---------------------------------------------------------------------
// Transposing
// ---------------------------------------------------------------------

/// `p`, brought into the MIDI range 0 to 127.
pub open spec fn clamp_pitch(p: int) -> u8 {
    if p < 0 {
        0
    } else if p > 127 {
        127
    } else {
        p as u8
    }
}

/// A note with its pitch moved by `delta` semitones; a rest stays a rest.
pub open spec fn transpose_note(note: NoteView, delta: int) -> NoteView {
    NoteView {
        pitch: match note.pitch {
            Some(p) => Some(clamp_pitch(p + delta)),
            None => None,
        },
        ..note
    }
}

/// A score with every pitch moved by `delta` semitones and brought into
/// the MIDI range; the score itself where `delta` is zero.
pub open spec fn transpose_view(score: ScoreView, delta: int) -> ScoreView {
    if delta == 0 {
        score
    } else {
        ScoreView {
            notes: Seq::new(score.notes.len(), |i: int| transpose_note(score.notes[i], delta)),
            ..score
        }
    }
}

/// A copy of `score` with every pitch moved by `semitones` and brought
/// into the MIDI range. Rests stay rests; nothing else changes.
pub fn transpose(score: &Score, semitones: i32) -> (r: Score)
    ensures
        r@ == transpose_view(score@, semitones as int),
{
    if semitones == 0 {
        return score.clone();
    }
    let ghost nv = score@.notes;
    let mut notes: Vec<Note> = Vec::new();
    let mut i: usize = 0;
    while i < score.notes.len()
        invariant
            i <= score.notes.len(),
            nv == notes_view(score.notes@),
            notes.len() == i,
            forall|j: int| 0 <= j < i ==> (#[trigger] notes@[j])@ == transpose_note(
                nv[j],
                semitones as int,
            ),
        decreases score.notes.len() - i,
    {
        let mut note = score.notes[i].clone();
        assert(nv[i as int] == score.notes@[i as int]@);
        note.pitch = match note.pitch {
            Some(p) => {
                let shifted: i64 = p as i64 + semitones as i64;
                if shifted < 0 {
                    Some(0)
                } else if shifted > 127 {
                    Some(127)
                } else {
                    Some(shifted as u8)
                }
            },
            None => None,
        };
        notes.push(note);
        i += 1;
    }
    let r = Score {
        notes,
        tempo: score.tempo,
        time_signatures: score.time_signatures.clone(),
    };
    assert(r@.notes =~= transpose_view(score@, semitones as int).notes);
    r
}

/// Whether moving pitch `p` by `k` semitones and then by `-k` gives `p`
/// back: the moved pitch stays within 0 to 127, or the two moves both run
/// into the same end of the range.
pub open spec fn transpose_reversible(p: int, k: int) -> bool {
    ||| k == 0
    ||| (p <= 127 && 0 <= p + k <= 127)
    ||| (p == 0 && k > 127)
    ||| (p == 127 && k < -127)
}

/// Transposing by `k` and then by `-k` gives the score back, where no
/// pitch is cut at an end of the MIDI range on the way.
pub proof fn lemma_transpose_back(score: ScoreView, k: int)
    requires
        forall|i: int|
            0 <= i < score.notes.len() && (#[trigger] score.notes[i]).pitch is Some
                ==> transpose_reversible(score.notes[i].pitch->0 as int, k),
    ensures
        transpose_view(transpose_view(score, k), -k) == score,
{
    if k != 0 {
        let there = transpose_view(score, k);
        let back = transpose_view(there, -k);
        assert forall|i: int| 0 <= i < score.notes.len() implies back.notes[i]
            == score.notes[i] by {
            let n = score.notes[i];
            assert(there.notes[i] == transpose_note(n, k));
            assert(back.notes[i] == transpose_note(there.notes[i], -k));
        }
        assert(back.notes =~= score.notes);
    }
}

/// Where a pitch is cut on the way there, the way back does not restore
/// it: `transpose_reversible` leaves out no pitch that it could admit.
pub proof fn lemma_transpose_not_back(p: u8, k: int)
    requires
        !transpose_reversible(p as int, k),
    ensures
        clamp_pitch(clamp_pitch(p + k) - k) != p,
{
}


// ---------------------------------------------------------------------
// Decomposing
// ---------------------------------------------------------------------

/// The first tempo field of the current-note sections of `labels[from..]`
/// that is not `xx`.
pub open spec fn first_tempo_text(labels: Seq<Label>, from: int) -> Option<Seq<char>>
    decreases labels.len() - from,
{
    if from >= labels.len() {
        None
    } else if labels[from].curr_note.tempo@ != xx() {
        Some(labels[from].curr_note.tempo@)
    } else {
        first_tempo_text(labels, from + 1)
    }
}

/// The first beat field of the current-note sections of `labels[from..]`
/// that is not `xx`.
pub open spec fn first_beat_text(labels: Seq<Label>, from: int) -> Option<Seq<char>>
    decreases labels.len() - from,
{
    if from >= labels.len() {
        None
    } else if labels[from].curr_note.beat@ != xx() {
        Some(labels[from].curr_note.beat@)
    } else {
        first_beat_text(labels, from + 1)
    }
}

/// The number that `text` spells as a signed numeral within `i32`, else
/// `fallback`.
pub open spec fn i32_or(text: Seq<char>, fallback: int) -> int {
    match parse_signed(text) {
        Some(v) => if i32::MIN <= v <= i32::MAX {
            v
        } else {
            fallback
        },
        None => fallback,
    }
}

/// The tempo of the labels: the first tempo field that is not `xx`, read
/// as a whole number; 120 where there is none or it is no number.
pub open spec fn decoded_tempo(labels: Seq<Label>) -> int {
    match first_tempo_text(labels, 0) {
        Some(t) => i32_or(t, 120),
        None => 120,
    }
}

/// The time signature of the labels: the first beat field that is not
/// `xx`, read as a time signature; 4/4 where there is none or it is none.
pub open spec fn decoded_time_signature(labels: Seq<Label>) -> TimeSignature {
    let fallback = TimeSignature { numerator: 4, denominator: 4 };
    match first_beat_text(labels, 0) {
        Some(t) => match time_signature_value(t) {
            Some(ts) => ts,
            None => fallback,
        },
        None => fallback,
    }
}

/// The text `pau`.
pub open spec fn pau() -> Seq<char> {
    seq!['p', 'a', 'u']
}

/// The silent note that is put before the first and after the last note:
/// a rest of a hundred quarter notes with the one phoneme `pau`.
pub open spec fn pau_note(start_time_ns: u64) -> NoteView {
    NoteView {
        pitch: None,
        start_time_ns,
        length: 2400,
        phonemes: seq![pau()],
        language: Some(seq!['J', 'P', 'N']),
        language_dependent_context: Some(seq!['p']),
    }
}

/// Where the note after `prev` starts: where `prev` ends, cut at the
/// greatest `u64`.
pub open spec fn start_after(prev: NoteView, tempo: int) -> u64 {
    clamp_u64(prev.start_time_ns + duration_ns(prev.length, tempo))
}

/// Whether label `n` starts a new note: it is the first label, its note
/// position is `xx`, or its note position differs from that of the label
/// before it.
pub open spec fn starts_note(labels: Seq<Label>, n: int) -> bool {
    ||| n == 0
    ||| labels[n].curr_syllable.note_position_forward@ == xx()
    ||| labels[n].curr_syllable.note_position_forward@ != labels[n
        - 1].curr_syllable.note_position_forward@
}

/// The text of a field, `None` for `xx`.
pub open spec fn field_option(text: Seq<char>) -> Option<Seq<char>> {
    if text == xx() {
        None
    } else {
        Some(text)
    }
}

/// The pitch that a label states for its note: none for `xx`, else the
/// pitch that the absolute-pitch field names; the field itself where it
/// names none.
pub open spec fn label_pitch(label: Label) -> Result<Option<u8>, Seq<char>> {
    let text = label.curr_note.absolute_pitch@;
    if text == xx() {
        Ok(None)
    } else {
        match note_name_value(text) {
            Some(p) => Ok(Some(p)),
            None => Err(text),
        }
    }
}

/// The length that a label states for its note, in triplet-32nd units; 1
/// where the field is `xx` or no number.
pub open spec fn label_length(label: Label) -> int {
    let text = label.curr_note.length_triplet_32nd@;
    if text == xx() {
        1
    } else {
        i32_or(text, 1)
    }
}

/// The note that a label opens after the note `prev`, still without
/// phonemes.
pub open spec fn opened_note(label: Label, prev: NoteView, tempo: int, pitch: Option<u8>) -> NoteView {
    NoteView {
        pitch,
        start_time_ns: start_after(prev, tempo),
        length: label_length(label),
        phonemes: Seq::empty(),
        language: field_option(label.curr_syllable.language@),
        language_dependent_context: field_option(label.curr_syllable.language_dependent_context@),
    }
}

/// `note` with the current phoneme of `label` added, unless that is `xx`.
pub open spec fn with_phoneme(note: NoteView, label: Label) -> NoteView {
    let symbol = label.phoneme.phoneme_id_current@;
    if symbol == xx() {
        note
    } else {
        NoteView { phonemes: note.phonemes.push(symbol), ..note }
    }
}

/// The notes that the first `n` labels make, after the leading silent
/// note: a label that starts a note opens one, every label adds its
/// phoneme to the last note. Where a label that starts a note names no
/// pitch, the result is the text of its pitch field.
pub open spec fn decoded_notes(labels: Seq<Label>, tempo: int, n: int) -> Result<
    Seq<NoteView>,
    Seq<char>,
>
    decreases n,
{
    if n <= 0 {
        Ok(seq![pau_note(0)])
    } else {
        match decoded_notes(labels, tempo, n - 1) {
            Err(text) => Err(text),
            Ok(notes) => {
                let label = labels[n - 1];
                if starts_note(labels, n - 1) {
                    match label_pitch(label) {
                        Err(text) => Err(text),
                        Ok(pitch) => Ok(
                            notes.push(
                                with_phoneme(opened_note(label, notes.last(), tempo, pitch), label),
                            ),
                        ),
                    }
                } else {
                    Ok(notes.drop_last().push(with_phoneme(notes.last(), label)))
                }
            },
        }
    }
}

/// The score that labels make: the default score for no labels; else the
/// tempo and the time signature of the labels, the notes that the labels
/// make, and a silent note before and after them.
pub open spec fn decoded_score(labels: Seq<Label>) -> Result<ScoreView, ComposeErrorView> {
    if labels.len() == 0 {
        Ok(default_score())
    } else {
        let tempo = decoded_tempo(labels);
        match decoded_notes(labels, tempo, labels.len() as int) {
            Err(text) => Err(ComposeErrorView::InvalidPitch(text)),
            Ok(notes) => Ok(
                ScoreView {
                    notes: notes.push(pau_note(start_after(notes.last(), tempo))),
                    tempo,
                    time_signatures: seq![decoded_time_signature(labels)],
                },
            ),
        }
    }
}

/// The silent note that starts at `start_time_ns`.
fn make_pau_note(start_time_ns: u64) -> (r: Note)
    ensures
        r@ == pau_note(start_time_ns),
{
    proof {
        reveal_strlit("pau");
        reveal_strlit("JPN");
        reveal_strlit("p");
    }
    let mut phonemes: Vec<String> = Vec::new();
    phonemes.push("pau".to_owned());
    let r = Note {
        pitch: None,
        start_time_ns,
        length: NoteLength::from_4th_note(100),
        phonemes,
        language: Some("JPN".to_owned()),
        language_dependent_context: Some("p".to_owned()),
    };
    assert("pau"@ =~= pau());
    assert(r.phonemes@[0]@ == pau());
    assert(r@.phonemes =~= seq![pau()]);
    assert(r@.language->0 =~= seq!['J', 'P', 'N']);
    assert(r@.language_dependent_context->0 =~= seq!['p']);
    r
}

/// Where the note after `prev` starts.
fn start_time_after(prev: &Note, tempo: i32) -> (r: u64)
    ensures
        r == start_after(prev@, tempo as int),
{
    let duration = length_triplet_32nd_to_nanoseconds(prev.length.triplet_32nd(), tempo);
    let end: u128 = prev.start_time_ns as u128 + duration as u128;
    if end >= u64::MAX as u128 {
        u64::MAX
    } else {
        end as u64
    }
}

/// The text of a field as a string, `None` for `xx`.
fn field_to_option(value: &LabelValue) -> (r: Option<String>)
    ensures
        option_view(r) == field_option(value@),
{
    match value.as_option() {
        Some(t) => Some(t.to_owned()),
        None => None,
    }
}

/// The tempo of the labels.
fn decode_tempo(labels: &[Label]) -> (r: i32)
    ensures
        r == decoded_tempo(labels@),
{
    let mut i: usize = 0;
    while i < labels.len()
        invariant
            i <= labels.len(),
            first_tempo_text(labels@, 0) == first_tempo_text(labels@, i as int),
        decreases labels.len() - i,
    {
        match labels[i].curr_note.tempo.as_option() {
            Some(t) => {
                return match parse_i32(t) {
                    Some(v) => v,
                    None => 120,
                };
            },
            None => {},
        }
        i += 1;
    }
    120
}

/// The time signature of the labels.
fn decode_time_signature(labels: &[Label]) -> (r: TimeSignature)
    ensures
        r == decoded_time_signature(labels@),
{
    let mut i: usize = 0;
    while i < labels.len()
        invariant
            i <= labels.len(),
            first_beat_text(labels@, 0) == first_beat_text(labels@, i as int),
        decreases labels.len() - i,
    {
        match labels[i].curr_note.beat.as_option() {
            Some(t) => {
                return match parse_time_signature(t) {
                    Some(ts) => ts,
                    None => TimeSignature { numerator: 4, denominator: 4 },
                };
            },
            None => {},
        }
        i += 1;
    }
    TimeSignature { numerator: 4, denominator: 4 }
}

/// The score that the labels make.
///
/// No labels make the default score. Else the score has the tempo and the
/// time signature that the labels state first, a silent note, the notes of
/// the labels and another silent note. A label whose note position is `xx`
/// or differs from that of the label before it starts a note; a pitch
/// field that is neither `xx` nor a pitch name is refused.
pub fn labels_to_score(labels: &[Label]) -> (r: Result<Score, ComposeError>)
    ensures
        match r {
            Ok(score) => decoded_score(labels@) == Ok::<ScoreView, ComposeErrorView>(score@),
            Err(e) => decoded_score(labels@) == Err::<ScoreView, ComposeErrorView>(e@),
        },
{
    if labels.len() == 0 {
        return Ok(Score::default());
    }
    let tempo = decode_tempo(labels);
    let time_signature = decode_time_signature(labels);
    let mut notes: Vec<Note> = Vec::new();
    let mut current = make_pau_note(0);
    let mut n: usize = 0;
    assert(notes_view(notes@).push(current@) =~= seq![pau_note(0)]);
    while n < labels.len()
        invariant
            n <= labels.len(),
            tempo == decoded_tempo(labels@),
            decoded_notes(labels@, tempo as int, n as int) == Ok::<Seq<NoteView>, Seq<char>>(
                notes_view(notes@).push(current@),
            ),
        decreases labels.len() - n,
    {
        let label = &labels[n];
        let ghost before = notes_view(notes@).push(current@);
        assert(before.last() == current@);
        assert(before.drop_last() =~= notes_view(notes@));
        let starts = if n == 0 {
            true
        } else {
            let position = &label.curr_syllable.note_position_forward;
            position.is_xx() || *position != labels[n - 1].curr_syllable.note_position_forward
        };
        assert(starts == starts_note(labels@, n as int));
        if starts {
            let pitch: Option<u8> = match label.curr_note.absolute_pitch.as_option() {
                Some(name) => match note_name_to_midi(name) {
                    Some(p) => Some(p),
                    None => {
                        proof {
                            assert(labels@[n as int] == *label);
                            assert(label_pitch(*label) == Err::<Option<u8>, Seq<char>>(name@));
                            lemma_decoded_invalid_pitch(
                                labels@,
                                tempo as int,
                                labels.len() as int,
                                n as int,
                            );
                        }
                        return Err(ComposeError::InvalidPitch(name.to_owned()));
                    },
                },
                None => None,
            };
            let length = match label.curr_note.length_triplet_32nd.as_option() {
                Some(t) => match parse_i32(t) {
                    Some(v) => v,
                    None => 1,
                },
                None => 1,
            };
            let opened = Note {
                pitch,
                start_time_ns: start_time_after(&current, tempo),
                length: NoteLength::from_32nd_triplet_note(length),
                phonemes: Vec::new(),
                language: field_to_option(&label.curr_syllable.language),
                language_dependent_context: field_to_option(
                    &label.curr_syllable.language_dependent_context,
                ),
            };
            proof {
                assert(opened@.phonemes =~= Seq::<Seq<char>>::empty());
                assert(opened@ == opened_note(*label, current@, tempo as int, pitch));
                assert(notes_view(notes@.push(current)) =~= before);
            }
            notes.push(current);
            current = opened;
        }
        match label.phoneme.phoneme_id_current.as_option() {
            Some(symbol) => {
                let ghost old_phonemes = current@.phonemes;
                current.phonemes.push(symbol.to_owned());
                assert(current@.phonemes =~= old_phonemes.push(symbol@));
            },
            None => {},
        }
        n += 1;
    }
    let last = make_pau_note(start_time_after(&current, tempo));
    proof {
        let made = notes_view(notes@).push(current@);
        assert(made.last() == current@);
        assert(notes_view(notes@.push(current).push(last)) =~= made.push(last@));
    }
    notes.push(current);
    notes.push(last);
    let mut time_signatures: Vec<TimeSignature> = Vec::new();
    time_signatures.push(time_signature);
    assert(time_signatures@ =~= seq![time_signature]);
    Ok(Score { notes, tempo, time_signatures })
}

/// Once a label names no pitch, the labels make no notes.
pub(crate) proof fn lemma_decoded_invalid_pitch(labels: Seq<Label>, tempo: int, len: int, n: int)
    requires
        0 <= n < len,
        decoded_notes(labels, tempo, n) is Ok,
        starts_note(labels, n),
        label_pitch(labels[n]) is Err,
    ensures
        decoded_notes(labels, tempo, len) == Err::<Seq<NoteView>, Seq<char>>(
            label_pitch(labels[n])->Err_0,
        ),
    decreases len - n,
{
    if len > n + 1 {
        lemma_decoded_invalid_pitch(labels, tempo, len - 1, n);
    }
}

/// The notes of the score that the labels make.
pub fn labels_to_notes(labels: &[Label]) -> (r: Result<Vec<Note>, ComposeError>)
    ensures
        match r {
            Ok(notes) => decoded_score(labels@) is Ok && decoded_score(labels@)->Ok_0.notes
                == notes_view(notes@),
            Err(e) => decoded_score(labels@) == Err::<ScoreView, ComposeErrorView>(e@),
        },
{
    match labels_to_score(labels) {
        Ok(score) => Ok(score.notes),
        Err(e) => Err(e),
    }
}


} // verus!
