//! What a synthesis task is made of: the phonemes of a lyric, the timing
//! labels that the backend writes, and the score of a task.

use vstd::prelude::*;
use wana_kana::ConvertJapanese;
use crate::neutrino_score::{
    clamp_pitch, clamp_u64, duration_ns, length_triplet_32nd_to_nanoseconds, notes_view,
    round_div, strings_view, Note, NoteLength, NoteView, Score, ScoreView, TimeSignature,
};
use crate::text::{
    chars_eq, chars_of, concat, copy_range, find_char, index_of_from, lemma_index_of_from,
    parse_unsigned, parse_unsigned_in, string_of,
};

verus! {

// ---------------------------------------------------------------------
// Lyrics
// ---------------------------------------------------------------------

/// What `wana_kana` makes of a text when it converts it to katakana. The
/// conversion goes by tables of romaji and kana that fill pages; nothing is
/// stated of it here but that it is a function of the text.
pub uninterp spec fn katakana_of(input: Seq<char>) -> Seq<char>;

/// Taken on trust: `wana_kana::ConvertJapanese::to_katakana` on a `&str`,
/// with the crate's default options. The contract claims only that the
/// result depends on the input alone: equal texts give equal results, which
/// `katakana_of` names. What the result holds is not claimed.
#[verifier::external_body]
fn to_katakana(input: &str) -> (r: String)
    ensures
        r@ == katakana_of(input@),
{
    input.to_katakana()
}

/// A mora of one phoneme.
pub open spec fn one(a: Seq<char>) -> Option<Seq<Seq<char>>> {
    Some(seq![a])
}

/// A mora of two phonemes.
pub open spec fn two(a: Seq<char>, b: Seq<char>) -> Option<Seq<Seq<char>>> {
    Some(seq![a, b])
}

/// The mora table: the phonemes of each kana that it lists. The `v` row is
/// listed in katakana and, beside it, with a hiragana small vowel after
/// the katakana `ヴ`, as some editors write it.
pub open spec fn mora_table(key: Seq<char>) -> Option<Seq<Seq<char>>> {
    if key == "ア"@ {
        one("a"@)
    } else if key == "イ"@ {
        one("i"@)
    } else if key == "ウ"@ {
        one("u"@)
    } else if key == "エ"@ {
        one("e"@)
    } else if key == "オ"@ {
        one("o"@)
    } else if key == "キャ"@ {
        two("ky"@, "a"@)
    } else if key == "キュ"@ {
        two("ky"@, "u"@)
    } else if key == "キェ"@ {
        two("ky"@, "e"@)
    } else if key == "キョ"@ {
        two("ky"@, "o"@)
    } else if key == "カ"@ {
        two("k"@, "a"@)
    } else if key == "キ"@ {
        two("k"@, "i"@)
    } else if key == "ク"@ {
        two("k"@, "u"@)
    } else if key == "ケ"@ {
        two("k"@, "e"@)
    } else if key == "コ"@ {
        two("k"@, "o"@)
    } else if key == "シャ"@ {
        two("sh"@, "a"@)
    } else if key == "スィ"@ {
        two("s"@, "i"@)
    } else if key == "シュ"@ {
        two("sh"@, "u"@)
    } else if key == "シェ"@ {
        two("sh"@, "e"@)
    } else if key == "ショ"@ {
        two("sh"@, "o"@)
    } else if key == "サ"@ {
        two("s"@, "a"@)
    } else if key == "シ"@ {
        two("sh"@, "i"@)
    } else if key == "ス"@ {
        two("s"@, "u"@)
    } else if key == "セ"@ {
        two("s"@, "e"@)
    } else if key == "ソ"@ {
        two("s"@, "o"@)
    } else if key == "チャ"@ {
        two("ch"@, "a"@)
    } else if key == "チュ"@ {
        two("ch"@, "u"@)
    } else if key == "チェ"@ {
        two("ch"@, "e"@)
    } else if key == "チョ"@ {
        two("ch"@, "o"@)
    } else if key == "タ"@ {
        two("t"@, "a"@)
    } else if key == "チ"@ {
        two("ch"@, "i"@)
    } else if key == "ツ"@ {
        two("ts"@, "u"@)
    } else if key == "テ"@ {
        two("t"@, "e"@)
    } else if key == "ト"@ {
        two("t"@, "o"@)
    } else if key == "ツァ"@ {
        two("ts"@, "a"@)
    } else if key == "ツィ"@ {
        two("ts"@, "i"@)
    } else if key == "ツェ"@ {
        two("ts"@, "e"@)
    } else if key == "ツォ"@ {
        two("ts"@, "o"@)
    } else if key == "ナ"@ {
        two("n"@, "a"@)
    } else if key == "ニ"@ {
        two("n"@, "i"@)
    } else if key == "ヌ"@ {
        two("n"@, "u"@)
    } else if key == "ネ"@ {
        two("n"@, "e"@)
    } else if key == "ノ"@ {
        two("n"@, "o"@)
    } else if key == "ニャ"@ {
        two("ny"@, "a"@)
    } else if key == "ニュ"@ {
        two("ny"@, "u"@)
    } else if key == "ニェ"@ {
        two("ny"@, "e"@)
    } else if key == "ニョ"@ {
        two("ny"@, "o"@)
    } else if key == "ハ"@ {
        two("h"@, "a"@)
    } else if key == "ヒ"@ {
        two("h"@, "i"@)
    } else if key == "フ"@ {
        two("h"@, "u"@)
    } else if key == "ヘ"@ {
        two("h"@, "e"@)
    } else if key == "ホ"@ {
        two("h"@, "o"@)
    } else if key == "ヒャ"@ {
        two("hy"@, "a"@)
    } else if key == "ヒュ"@ {
        two("hy"@, "u"@)
    } else if key == "ヒェ"@ {
        two("hy"@, "e"@)
    } else if key == "ヒョ"@ {
        two("hy"@, "o"@)
    } else if key == "マ"@ {
        two("m"@, "a"@)
    } else if key == "ミ"@ {
        two("m"@, "i"@)
    } else if key == "ム"@ {
        two("m"@, "u"@)
    } else if key == "メ"@ {
        two("m"@, "e"@)
    } else if key == "モ"@ {
        two("m"@, "o"@)
    } else if key == "ファ"@ {
        two("f"@, "a"@)
    } else if key == "フィ"@ {
        two("f"@, "i"@)
    } else if key == "フェ"@ {
        two("f"@, "e"@)
    } else if key == "フォ"@ {
        two("f"@, "o"@)
    } else if key == "ヤ"@ {
        two("y"@, "a"@)
    } else if key == "ユ"@ {
        two("y"@, "u"@)
    } else if key == "イェ"@ {
        two("y"@, "e"@)
    } else if key == "ヨ"@ {
        two("y"@, "o"@)
    } else if key == "ミャ"@ {
        two("my"@, "a"@)
    } else if key == "ミュ"@ {
        two("my"@, "u"@)
    } else if key == "ミェ"@ {
        two("my"@, "e"@)
    } else if key == "ミョ"@ {
        two("my"@, "o"@)
    } else if key == "ラ"@ {
        two("r"@, "a"@)
    } else if key == "リ"@ {
        two("r"@, "i"@)
    } else if key == "ル"@ {
        two("r"@, "u"@)
    } else if key == "レ"@ {
        two("r"@, "e"@)
    } else if key == "ロ"@ {
        two("r"@, "o"@)
    } else if key == "リャ"@ {
        two("ry"@, "a"@)
    } else if key == "リュ"@ {
        two("ry"@, "u"@)
    } else if key == "リェ"@ {
        two("ry"@, "e"@)
    } else if key == "リョ"@ {
        two("ry"@, "o"@)
    } else if key == "ワ"@ {
        two("w"@, "a"@)
    } else if key == "ヲ"@ {
        one("o"@)
    } else if key == "ギャ"@ {
        two("gy"@, "a"@)
    } else if key == "ギュ"@ {
        two("gy"@, "u"@)
    } else if key == "ギェ"@ {
        two("gy"@, "e"@)
    } else if key == "ギョ"@ {
        two("gy"@, "o"@)
    } else if key == "ジャ"@ {
        two("j"@, "a"@)
    } else if key == "ジュ"@ {
        two("j"@, "u"@)
    } else if key == "ジェ"@ {
        two("j"@, "e"@)
    } else if key == "ジョ"@ {
        two("j"@, "o"@)
    } else if key == "ガ"@ {
        two("g"@, "a"@)
    } else if key == "ギ"@ {
        two("g"@, "i"@)
    } else if key == "グ"@ {
        two("g"@, "u"@)
    } else if key == "ゲ"@ {
        two("g"@, "e"@)
    } else if key == "ゴ"@ {
        two("g"@, "o"@)
    } else if key == "ビャ"@ {
        two("by"@, "a"@)
    } else if key == "ビュ"@ {
        two("by"@, "u"@)
    } else if key == "ビェ"@ {
        two("by"@, "e"@)
    } else if key == "ビョ"@ {
        two("by"@, "o"@)
    } else if key == "ザ"@ {
        two("z"@, "a"@)
    } else if key == "ジ"@ {
        two("j"@, "i"@)
    } else if key == "ズ"@ {
        two("z"@, "u"@)
    } else if key == "ゼ"@ {
        two("z"@, "e"@)
    } else if key == "ゾ"@ {
        two("z"@, "o"@)
    } else if key == "ピャ"@ {
        two("py"@, "a"@)
    } else if key == "ピュ"@ {
        two("py"@, "u"@)
    } else if key == "ピェ"@ {
        two("py"@, "e"@)
    } else if key == "ピョ"@ {
        two("py"@, "o"@)
    } else if key == "ダ"@ {
        two("d"@, "a"@)
    } else if key == "ヂ"@ {
        two("j"@, "i"@)
    } else if key == "ヅ"@ {
        two("z"@, "u"@)
    } else if key == "デ"@ {
        two("d"@, "e"@)
    } else if key == "ド"@ {
        two("d"@, "o"@)
    } else if key == "ヴァ"@ {
        two("v"@, "a"@)
    } else if key == "ヴィ"@ {
        two("v"@, "i"@)
    } else if key == "ヴェ"@ {
        two("v"@, "e"@)
    } else if key == "ヴォ"@ {
        two("v"@, "o"@)
    } else if key == "ヴぁ"@ {
        two("v"@, "a"@)
    } else if key == "ヴぃ"@ {
        two("v"@, "i"@)
    } else if key == "ヴ"@ {
        two("v"@, "u"@)
    } else if key == "ヴぇ"@ {
        two("v"@, "e"@)
    } else if key == "ヴぉ"@ {
        two("v"@, "o"@)
    } else if key == "バ"@ {
        two("b"@, "a"@)
    } else if key == "ビ"@ {
        two("b"@, "i"@)
    } else if key == "ブ"@ {
        two("b"@, "u"@)
    } else if key == "ベ"@ {
        two("b"@, "e"@)
    } else if key == "ボ"@ {
        two("b"@, "o"@)
    } else if key == "ウィ"@ {
        two("w"@, "i"@)
    } else if key == "ウェ"@ {
        two("w"@, "e"@)
    } else if key == "ウォ"@ {
        two("w"@, "o"@)
    } else if key == "パ"@ {
        two("p"@, "a"@)
    } else if key == "ピ"@ {
        two("p"@, "i"@)
    } else if key == "プ"@ {
        two("p"@, "u"@)
    } else if key == "ペ"@ {
        two("p"@, "e"@)
    } else if key == "ポ"@ {
        two("p"@, "o"@)
    } else if key == "ディ"@ {
        two("d"@, "i"@)
    } else if key == "デュ"@ {
        two("dy"@, "u"@)
    } else if key == "トゥ"@ {
        two("t"@, "u"@)
    } else if key == "ドゥ"@ {
        two("d"@, "u"@)
    } else if key == "ン"@ {
        one("N"@)
    } else if key == "ッ"@ {
        one("cl"@)
    } else if key == "ズィ"@ {
        two("z"@, "i"@)
    } else {
        None
    }
}

/// Whether `key` is a phoneme symbol of the backend.
pub open spec fn is_phoneme_symbol(key: Seq<char>) -> bool {
    key == "a"@ || key == "i"@ || key == "u"@ || key == "e"@ || key == "o"@ || key == "ky"@
    || key == "k"@ || key == "sh"@ || key == "s"@ || key == "ch"@ || key == "t"@ || key == "ts"@
    || key == "n"@ || key == "ny"@ || key == "h"@ || key == "hy"@ || key == "m"@ || key == "f"@
    || key == "y"@ || key == "my"@ || key == "r"@ || key == "ry"@ || key == "w"@ || key == "gy"@
    || key == "j"@ || key == "g"@ || key == "by"@ || key == "z"@ || key == "py"@ || key == "d"@
    || key == "v"@ || key == "b"@ || key == "p"@ || key == "dy"@ || key == "N"@ || key == "cl"@
    || key == "br"@ || key == "pau"@ || key == "sil"@
}

/// The symbol in lower case: `N` becomes `n`, the others have no upper
/// case.
pub open spec fn lower_symbol(key: Seq<char>) -> Seq<char> {
    if key == "N"@ {
        "n"@
    } else {
        key
    }
}

/// A lyric that is no mora of the table and no phoneme symbol.
#[derive(Debug, PartialEq, Eq)]
pub struct MoraError {
    pub mora: String,
}

impl MoraError {
    /// The error as one line of text.
    pub fn message(&self) -> (r: String)
        ensures
            r@ == "Unsupported mora: "@ + self.mora@,
    {
        concat("Unsupported mora: ", self.mora.as_str())
    }
}

/// The phonemes of the lyric `mora`, whose katakana form is `katakana`:
/// what the table lists for the lyric; else the lyric itself where it is a
/// phoneme symbol; else what the table lists for the katakana form; else
/// the katakana form in lower case where that is a phoneme symbol. `Err`
/// with the lyric where none of these holds.
pub open spec fn mora_phonemes(mora: Seq<char>, katakana: Seq<char>) -> Result<
    Seq<Seq<char>>,
    Seq<char>,
> {
    if mora_table(mora) is Some {
        Ok(mora_table(mora)->0)
    } else if is_phoneme_symbol(mora) {
        Ok(seq![mora])
    } else if mora_table(katakana) is Some {
        Ok(mora_table(katakana)->0)
    } else if is_phoneme_symbol(katakana) {
        Ok(seq![lower_symbol(katakana)])
    } else {
        Err(mora)
    }
}

/// Whether the characters `key` spell `text`.
fn is_text(key: &Vec<char>, text: &str) -> (r: bool)
    ensures
        r == (key@ == text@),
{
    let t = chars_of(text);
    chars_eq(key, &t)
}

/// The one phoneme `a`.
fn one_symbol(a: &str) -> (r: Vec<String>)
    ensures
        strings_view(r@) == seq![a@],
{
    let mut r: Vec<String> = Vec::new();
    r.push(a.to_owned());
    assert(strings_view(r@) =~= seq![a@]);
    r
}

/// The two phonemes `a` and `b`.
fn two_symbols(a: &str, b: &str) -> (r: Vec<String>)
    ensures
        strings_view(r@) == seq![a@, b@],
{
    let mut r: Vec<String> = Vec::new();
    r.push(a.to_owned());
    r.push(b.to_owned());
    assert(strings_view(r@) =~= seq![a@, b@]);
    r
}

/// The texts of optional strings.
pub open spec fn option_strings_view(v: Option<Vec<String>>) -> Option<Seq<Seq<char>>> {
    match v {
        Some(s) => Some(strings_view(s@)),
        None => None,
    }
}

/// What the mora table lists for `key`.
pub fn lookup_mora(key: &Vec<char>) -> (r: Option<Vec<String>>)
    ensures
        option_strings_view(r) == mora_table(key@),
{
    if is_text(key, "ア") {
        Some(one_symbol("a"))
    } else if is_text(key, "イ") {
        Some(one_symbol("i"))
    } else if is_text(key, "ウ") {
        Some(one_symbol("u"))
    } else if is_text(key, "エ") {
        Some(one_symbol("e"))
    } else if is_text(key, "オ") {
        Some(one_symbol("o"))
    } else if is_text(key, "キャ") {
        Some(two_symbols("ky", "a"))
    } else if is_text(key, "キュ") {
        Some(two_symbols("ky", "u"))
    } else if is_text(key, "キェ") {
        Some(two_symbols("ky", "e"))
    } else if is_text(key, "キョ") {
        Some(two_symbols("ky", "o"))
    } else if is_text(key, "カ") {
        Some(two_symbols("k", "a"))
    } else if is_text(key, "キ") {
        Some(two_symbols("k", "i"))
    } else if is_text(key, "ク") {
        Some(two_symbols("k", "u"))
    } else if is_text(key, "ケ") {
        Some(two_symbols("k", "e"))
    } else if is_text(key, "コ") {
        Some(two_symbols("k", "o"))
    } else if is_text(key, "シャ") {
        Some(two_symbols("sh", "a"))
    } else if is_text(key, "スィ") {
        Some(two_symbols("s", "i"))
    } else if is_text(key, "シュ") {
        Some(two_symbols("sh", "u"))
    } else if is_text(key, "シェ") {
        Some(two_symbols("sh", "e"))
    } else if is_text(key, "ショ") {
        Some(two_symbols("sh", "o"))
    } else if is_text(key, "サ") {
        Some(two_symbols("s", "a"))
    } else if is_text(key, "シ") {
        Some(two_symbols("sh", "i"))
    } else if is_text(key, "ス") {
        Some(two_symbols("s", "u"))
    } else if is_text(key, "セ") {
        Some(two_symbols("s", "e"))
    } else if is_text(key, "ソ") {
        Some(two_symbols("s", "o"))
    } else if is_text(key, "チャ") {
        Some(two_symbols("ch", "a"))
    } else if is_text(key, "チュ") {
        Some(two_symbols("ch", "u"))
    } else if is_text(key, "チェ") {
        Some(two_symbols("ch", "e"))
    } else if is_text(key, "チョ") {
        Some(two_symbols("ch", "o"))
    } else if is_text(key, "タ") {
        Some(two_symbols("t", "a"))
    } else if is_text(key, "チ") {
        Some(two_symbols("ch", "i"))
    } else if is_text(key, "ツ") {
        Some(two_symbols("ts", "u"))
    } else if is_text(key, "テ") {
        Some(two_symbols("t", "e"))
    } else if is_text(key, "ト") {
        Some(two_symbols("t", "o"))
    } else if is_text(key, "ツァ") {
        Some(two_symbols("ts", "a"))
    } else if is_text(key, "ツィ") {
        Some(two_symbols("ts", "i"))
    } else if is_text(key, "ツェ") {
        Some(two_symbols("ts", "e"))
    } else if is_text(key, "ツォ") {
        Some(two_symbols("ts", "o"))
    } else if is_text(key, "ナ") {
        Some(two_symbols("n", "a"))
    } else if is_text(key, "ニ") {
        Some(two_symbols("n", "i"))
    } else if is_text(key, "ヌ") {
        Some(two_symbols("n", "u"))
    } else if is_text(key, "ネ") {
        Some(two_symbols("n", "e"))
    } else if is_text(key, "ノ") {
        Some(two_symbols("n", "o"))
    } else if is_text(key, "ニャ") {
        Some(two_symbols("ny", "a"))
    } else if is_text(key, "ニュ") {
        Some(two_symbols("ny", "u"))
    } else if is_text(key, "ニェ") {
        Some(two_symbols("ny", "e"))
    } else if is_text(key, "ニョ") {
        Some(two_symbols("ny", "o"))
    } else if is_text(key, "ハ") {
        Some(two_symbols("h", "a"))
    } else if is_text(key, "ヒ") {
        Some(two_symbols("h", "i"))
    } else if is_text(key, "フ") {
        Some(two_symbols("h", "u"))
    } else if is_text(key, "ヘ") {
        Some(two_symbols("h", "e"))
    } else if is_text(key, "ホ") {
        Some(two_symbols("h", "o"))
    } else if is_text(key, "ヒャ") {
        Some(two_symbols("hy", "a"))
    } else if is_text(key, "ヒュ") {
        Some(two_symbols("hy", "u"))
    } else if is_text(key, "ヒェ") {
        Some(two_symbols("hy", "e"))
    } else if is_text(key, "ヒョ") {
        Some(two_symbols("hy", "o"))
    } else if is_text(key, "マ") {
        Some(two_symbols("m", "a"))
    } else if is_text(key, "ミ") {
        Some(two_symbols("m", "i"))
    } else if is_text(key, "ム") {
        Some(two_symbols("m", "u"))
    } else if is_text(key, "メ") {
        Some(two_symbols("m", "e"))
    } else if is_text(key, "モ") {
        Some(two_symbols("m", "o"))
    } else if is_text(key, "ファ") {
        Some(two_symbols("f", "a"))
    } else if is_text(key, "フィ") {
        Some(two_symbols("f", "i"))
    } else if is_text(key, "フェ") {
        Some(two_symbols("f", "e"))
    } else if is_text(key, "フォ") {
        Some(two_symbols("f", "o"))
    } else if is_text(key, "ヤ") {
        Some(two_symbols("y", "a"))
    } else if is_text(key, "ユ") {
        Some(two_symbols("y", "u"))
    } else if is_text(key, "イェ") {
        Some(two_symbols("y", "e"))
    } else if is_text(key, "ヨ") {
        Some(two_symbols("y", "o"))
    } else if is_text(key, "ミャ") {
        Some(two_symbols("my", "a"))
    } else if is_text(key, "ミュ") {
        Some(two_symbols("my", "u"))
    } else if is_text(key, "ミェ") {
        Some(two_symbols("my", "e"))
    } else if is_text(key, "ミョ") {
        Some(two_symbols("my", "o"))
    } else if is_text(key, "ラ") {
        Some(two_symbols("r", "a"))
    } else if is_text(key, "リ") {
        Some(two_symbols("r", "i"))
    } else if is_text(key, "ル") {
        Some(two_symbols("r", "u"))
    } else if is_text(key, "レ") {
        Some(two_symbols("r", "e"))
    } else if is_text(key, "ロ") {
        Some(two_symbols("r", "o"))
    } else if is_text(key, "リャ") {
        Some(two_symbols("ry", "a"))
    } else if is_text(key, "リュ") {
        Some(two_symbols("ry", "u"))
    } else if is_text(key, "リェ") {
        Some(two_symbols("ry", "e"))
    } else if is_text(key, "リョ") {
        Some(two_symbols("ry", "o"))
    } else if is_text(key, "ワ") {
        Some(two_symbols("w", "a"))
    } else if is_text(key, "ヲ") {
        Some(one_symbol("o"))
    } else if is_text(key, "ギャ") {
        Some(two_symbols("gy", "a"))
    } else if is_text(key, "ギュ") {
        Some(two_symbols("gy", "u"))
    } else if is_text(key, "ギェ") {
        Some(two_symbols("gy", "e"))
    } else if is_text(key, "ギョ") {
        Some(two_symbols("gy", "o"))
    } else if is_text(key, "ジャ") {
        Some(two_symbols("j", "a"))
    } else if is_text(key, "ジュ") {
        Some(two_symbols("j", "u"))
    } else if is_text(key, "ジェ") {
        Some(two_symbols("j", "e"))
    } else if is_text(key, "ジョ") {
        Some(two_symbols("j", "o"))
    } else if is_text(key, "ガ") {
        Some(two_symbols("g", "a"))
    } else if is_text(key, "ギ") {
        Some(two_symbols("g", "i"))
    } else if is_text(key, "グ") {
        Some(two_symbols("g", "u"))
    } else if is_text(key, "ゲ") {
        Some(two_symbols("g", "e"))
    } else if is_text(key, "ゴ") {
        Some(two_symbols("g", "o"))
    } else if is_text(key, "ビャ") {
        Some(two_symbols("by", "a"))
    } else if is_text(key, "ビュ") {
        Some(two_symbols("by", "u"))
    } else if is_text(key, "ビェ") {
        Some(two_symbols("by", "e"))
    } else if is_text(key, "ビョ") {
        Some(two_symbols("by", "o"))
    } else if is_text(key, "ザ") {
        Some(two_symbols("z", "a"))
    } else if is_text(key, "ジ") {
        Some(two_symbols("j", "i"))
    } else if is_text(key, "ズ") {
        Some(two_symbols("z", "u"))
    } else if is_text(key, "ゼ") {
        Some(two_symbols("z", "e"))
    } else if is_text(key, "ゾ") {
        Some(two_symbols("z", "o"))
    } else if is_text(key, "ピャ") {
        Some(two_symbols("py", "a"))
    } else if is_text(key, "ピュ") {
        Some(two_symbols("py", "u"))
    } else if is_text(key, "ピェ") {
        Some(two_symbols("py", "e"))
    } else if is_text(key, "ピョ") {
        Some(two_symbols("py", "o"))
    } else if is_text(key, "ダ") {
        Some(two_symbols("d", "a"))
    } else if is_text(key, "ヂ") {
        Some(two_symbols("j", "i"))
    } else if is_text(key, "ヅ") {
        Some(two_symbols("z", "u"))
    } else if is_text(key, "デ") {
        Some(two_symbols("d", "e"))
    } else if is_text(key, "ド") {
        Some(two_symbols("d", "o"))
    } else if is_text(key, "ヴァ") {
        Some(two_symbols("v", "a"))
    } else if is_text(key, "ヴィ") {
        Some(two_symbols("v", "i"))
    } else if is_text(key, "ヴェ") {
        Some(two_symbols("v", "e"))
    } else if is_text(key, "ヴォ") {
        Some(two_symbols("v", "o"))
    } else if is_text(key, "ヴぁ") {
        Some(two_symbols("v", "a"))
    } else if is_text(key, "ヴぃ") {
        Some(two_symbols("v", "i"))
    } else if is_text(key, "ヴ") {
        Some(two_symbols("v", "u"))
    } else if is_text(key, "ヴぇ") {
        Some(two_symbols("v", "e"))
    } else if is_text(key, "ヴぉ") {
        Some(two_symbols("v", "o"))
    } else if is_text(key, "バ") {
        Some(two_symbols("b", "a"))
    } else if is_text(key, "ビ") {
        Some(two_symbols("b", "i"))
    } else if is_text(key, "ブ") {
        Some(two_symbols("b", "u"))
    } else if is_text(key, "ベ") {
        Some(two_symbols("b", "e"))
    } else if is_text(key, "ボ") {
        Some(two_symbols("b", "o"))
    } else if is_text(key, "ウィ") {
        Some(two_symbols("w", "i"))
    } else if is_text(key, "ウェ") {
        Some(two_symbols("w", "e"))
    } else if is_text(key, "ウォ") {
        Some(two_symbols("w", "o"))
    } else if is_text(key, "パ") {
        Some(two_symbols("p", "a"))
    } else if is_text(key, "ピ") {
        Some(two_symbols("p", "i"))
    } else if is_text(key, "プ") {
        Some(two_symbols("p", "u"))
    } else if is_text(key, "ペ") {
        Some(two_symbols("p", "e"))
    } else if is_text(key, "ポ") {
        Some(two_symbols("p", "o"))
    } else if is_text(key, "ディ") {
        Some(two_symbols("d", "i"))
    } else if is_text(key, "デュ") {
        Some(two_symbols("dy", "u"))
    } else if is_text(key, "トゥ") {
        Some(two_symbols("t", "u"))
    } else if is_text(key, "ドゥ") {
        Some(two_symbols("d", "u"))
    } else if is_text(key, "ン") {
        Some(one_symbol("N"))
    } else if is_text(key, "ッ") {
        Some(one_symbol("cl"))
    } else if is_text(key, "ズィ") {
        Some(two_symbols("z", "i"))
    } else {
        None
    }
}

/// Whether `key` is a phoneme symbol of the backend.
pub fn is_phoneme(key: &Vec<char>) -> (r: bool)
    ensures
        r == is_phoneme_symbol(key@),
{
    is_text(key, "a") || is_text(key, "i") || is_text(key, "u") || is_text(key, "e")
        || is_text(key, "o") || is_text(key, "ky") || is_text(key, "k") || is_text(key, "sh")
        || is_text(key, "s") || is_text(key, "ch") || is_text(key, "t") || is_text(key, "ts")
        || is_text(key, "n") || is_text(key, "ny") || is_text(key, "h") || is_text(key, "hy")
        || is_text(key, "m") || is_text(key, "f") || is_text(key, "y") || is_text(key, "my")
        || is_text(key, "r") || is_text(key, "ry") || is_text(key, "w") || is_text(key, "gy")
        || is_text(key, "j") || is_text(key, "g") || is_text(key, "by") || is_text(key, "z")
        || is_text(key, "py") || is_text(key, "d") || is_text(key, "v") || is_text(key, "b")
        || is_text(key, "p") || is_text(key, "dy") || is_text(key, "N") || is_text(key, "cl")
        || is_text(key, "br") || is_text(key, "pau") || is_text(key, "sil")
}

/// The texts of a result of phonemes.
pub open spec fn phonemes_result_view(r: Result<Vec<String>, MoraError>) -> Result<
    Seq<Seq<char>>,
    Seq<char>,
> {
    match r {
        Ok(v) => Ok(strings_view(v@)),
        Err(e) => Err(e.mora@),
    }
}

/// The phonemes of the lyric `mora`, whose katakana form is `katakana`.
pub fn phonemes_of_mora(mora: &str, katakana: &str) -> (r: Result<Vec<String>, MoraError>)
    ensures
        phonemes_result_view(r) == mora_phonemes(mora@, katakana@),
{
    let m = chars_of(mora);
    match lookup_mora(&m) {
        Some(listed) => {
            return Ok(listed);
        },
        None => {},
    }
    if is_phoneme(&m) {
        return Ok(one_symbol(mora));
    }
    let k = chars_of(katakana);
    match lookup_mora(&k) {
        Some(listed) => {
            return Ok(listed);
        },
        None => {},
    }
    if is_phoneme(&k) {
        if is_text(&k, "N") {
            return Ok(one_symbol("n"));
        }
        return Ok(one_symbol(katakana));
    }
    Err(MoraError { mora: mora.to_owned() })
}

/// The phonemes of a lyric of one mora. The lyric is looked up as it
/// stands and in its katakana form; a phoneme symbol stands for itself.
pub fn mora_to_phonemes(mora: &str) -> (r: Result<Vec<String>, MoraError>)
    ensures
        phonemes_result_view(r) == mora_phonemes(mora@, katakana_of(mora@)),
{
    let katakana = to_katakana(mora);
    phonemes_of_mora(mora, katakana.as_str())
}

/// Every key of the mora table starts with a kana.
pub(crate) proof fn lemma_table_keys_start_with_kana(key: Seq<char>)
    requires
        mora_table(key) is Some,
    ensures
        key.len() > 0,
        key[0] as u32 >= 0x3040,
{
    reveal_strlit("ア");
    reveal_strlit("イ");
    reveal_strlit("ウ");
    reveal_strlit("エ");
    reveal_strlit("オ");
    reveal_strlit("キャ");
    reveal_strlit("キュ");
    reveal_strlit("キェ");
    reveal_strlit("キョ");
    reveal_strlit("カ");
    reveal_strlit("キ");
    reveal_strlit("ク");
    reveal_strlit("ケ");
    reveal_strlit("コ");
    reveal_strlit("シャ");
    reveal_strlit("スィ");
    reveal_strlit("シュ");
    reveal_strlit("シェ");
    reveal_strlit("ショ");
    reveal_strlit("サ");
    reveal_strlit("シ");
    reveal_strlit("ス");
    reveal_strlit("セ");
    reveal_strlit("ソ");
    reveal_strlit("チャ");
    reveal_strlit("チュ");
    reveal_strlit("チェ");
    reveal_strlit("チョ");
    reveal_strlit("タ");
    reveal_strlit("チ");
    reveal_strlit("ツ");
    reveal_strlit("テ");
    reveal_strlit("ト");
    reveal_strlit("ツァ");
    reveal_strlit("ツィ");
    reveal_strlit("ツェ");
    reveal_strlit("ツォ");
    reveal_strlit("ナ");
    reveal_strlit("ニ");
    reveal_strlit("ヌ");
    reveal_strlit("ネ");
    reveal_strlit("ノ");
    reveal_strlit("ニャ");
    reveal_strlit("ニュ");
    reveal_strlit("ニェ");
    reveal_strlit("ニョ");
    reveal_strlit("ハ");
    reveal_strlit("ヒ");
    reveal_strlit("フ");
    reveal_strlit("ヘ");
    reveal_strlit("ホ");
    reveal_strlit("ヒャ");
    reveal_strlit("ヒュ");
    reveal_strlit("ヒェ");
    reveal_strlit("ヒョ");
    reveal_strlit("マ");
    reveal_strlit("ミ");
    reveal_strlit("ム");
    reveal_strlit("メ");
    reveal_strlit("モ");
    reveal_strlit("ファ");
    reveal_strlit("フィ");
    reveal_strlit("フェ");
    reveal_strlit("フォ");
    reveal_strlit("ヤ");
    reveal_strlit("ユ");
    reveal_strlit("イェ");
    reveal_strlit("ヨ");
    reveal_strlit("ミャ");
    reveal_strlit("ミュ");
    reveal_strlit("ミェ");
    reveal_strlit("ミョ");
    reveal_strlit("ラ");
    reveal_strlit("リ");
    reveal_strlit("ル");
    reveal_strlit("レ");
    reveal_strlit("ロ");
    reveal_strlit("リャ");
    reveal_strlit("リュ");
    reveal_strlit("リェ");
    reveal_strlit("リョ");
    reveal_strlit("ワ");
    reveal_strlit("ヲ");
    reveal_strlit("ギャ");
    reveal_strlit("ギュ");
    reveal_strlit("ギェ");
    reveal_strlit("ギョ");
    reveal_strlit("ジャ");
    reveal_strlit("ジュ");
    reveal_strlit("ジェ");
    reveal_strlit("ジョ");
    reveal_strlit("ガ");
    reveal_strlit("ギ");
    reveal_strlit("グ");
    reveal_strlit("ゲ");
    reveal_strlit("ゴ");
    reveal_strlit("ビャ");
    reveal_strlit("ビュ");
    reveal_strlit("ビェ");
    reveal_strlit("ビョ");
    reveal_strlit("ザ");
    reveal_strlit("ジ");
    reveal_strlit("ズ");
    reveal_strlit("ゼ");
    reveal_strlit("ゾ");
    reveal_strlit("ピャ");
    reveal_strlit("ピュ");
    reveal_strlit("ピェ");
    reveal_strlit("ピョ");
    reveal_strlit("ダ");
    reveal_strlit("ヂ");
    reveal_strlit("ヅ");
    reveal_strlit("デ");
    reveal_strlit("ド");
    reveal_strlit("ヴァ");
    reveal_strlit("ヴィ");
    reveal_strlit("ヴェ");
    reveal_strlit("ヴォ");
    reveal_strlit("ヴぁ");
    reveal_strlit("ヴぃ");
    reveal_strlit("ヴ");
    reveal_strlit("ヴぇ");
    reveal_strlit("ヴぉ");
    reveal_strlit("バ");
    reveal_strlit("ビ");
    reveal_strlit("ブ");
    reveal_strlit("ベ");
    reveal_strlit("ボ");
    reveal_strlit("ウィ");
    reveal_strlit("ウェ");
    reveal_strlit("ウォ");
    reveal_strlit("パ");
    reveal_strlit("ピ");
    reveal_strlit("プ");
    reveal_strlit("ペ");
    reveal_strlit("ポ");
    reveal_strlit("ディ");
    reveal_strlit("デュ");
    reveal_strlit("トゥ");
    reveal_strlit("ドゥ");
    reveal_strlit("ン");
    reveal_strlit("ッ");
    reveal_strlit("ズィ");
}

/// Every phoneme symbol starts with a Latin letter.
pub(crate) proof fn lemma_symbols_start_with_letter(key: Seq<char>)
    requires
        is_phoneme_symbol(key),
    ensures
        key.len() > 0,
        key[0] as u32 <= 0x7f,
{
    reveal_strlit("a");
    reveal_strlit("i");
    reveal_strlit("u");
    reveal_strlit("e");
    reveal_strlit("o");
    reveal_strlit("ky");
    reveal_strlit("k");
    reveal_strlit("sh");
    reveal_strlit("s");
    reveal_strlit("ch");
    reveal_strlit("t");
    reveal_strlit("ts");
    reveal_strlit("n");
    reveal_strlit("ny");
    reveal_strlit("h");
    reveal_strlit("hy");
    reveal_strlit("m");
    reveal_strlit("f");
    reveal_strlit("y");
    reveal_strlit("my");
    reveal_strlit("r");
    reveal_strlit("ry");
    reveal_strlit("w");
    reveal_strlit("gy");
    reveal_strlit("j");
    reveal_strlit("g");
    reveal_strlit("by");
    reveal_strlit("z");
    reveal_strlit("py");
    reveal_strlit("d");
    reveal_strlit("v");
    reveal_strlit("b");
    reveal_strlit("p");
    reveal_strlit("dy");
    reveal_strlit("N");
    reveal_strlit("cl");
    reveal_strlit("br");
    reveal_strlit("pau");
    reveal_strlit("sil");
}

/// The `v` row in katakana: `ヴァ`, `ヴィ`, `ヴェ` and `ヴォ` are keys of the
/// table, and no row before them takes their place.
pub proof fn lemma_v_row_in_katakana(key: Seq<char>)
    requires
        key.len() == 2,
        key[0] == 'ヴ',
    ensures
        key[1] == 'ァ' ==> mora_table(key) == two("v"@, "a"@),
        key[1] == 'ィ' ==> mora_table(key) == two("v"@, "i"@),
        key[1] == 'ェ' ==> mora_table(key) == two("v"@, "e"@),
        key[1] == 'ォ' ==> mora_table(key) == two("v"@, "o"@),
{
    reveal_strlit("ア");
    reveal_strlit("イ");
    reveal_strlit("ウ");
    reveal_strlit("エ");
    reveal_strlit("オ");
    reveal_strlit("キャ");
    reveal_strlit("キュ");
    reveal_strlit("キェ");
    reveal_strlit("キョ");
    reveal_strlit("カ");
    reveal_strlit("キ");
    reveal_strlit("ク");
    reveal_strlit("ケ");
    reveal_strlit("コ");
    reveal_strlit("シャ");
    reveal_strlit("スィ");
    reveal_strlit("シュ");
    reveal_strlit("シェ");
    reveal_strlit("ショ");
    reveal_strlit("サ");
    reveal_strlit("シ");
    reveal_strlit("ス");
    reveal_strlit("セ");
    reveal_strlit("ソ");
    reveal_strlit("チャ");
    reveal_strlit("チュ");
    reveal_strlit("チェ");
    reveal_strlit("チョ");
    reveal_strlit("タ");
    reveal_strlit("チ");
    reveal_strlit("ツ");
    reveal_strlit("テ");
    reveal_strlit("ト");
    reveal_strlit("ツァ");
    reveal_strlit("ツィ");
    reveal_strlit("ツェ");
    reveal_strlit("ツォ");
    reveal_strlit("ナ");
    reveal_strlit("ニ");
    reveal_strlit("ヌ");
    reveal_strlit("ネ");
    reveal_strlit("ノ");
    reveal_strlit("ニャ");
    reveal_strlit("ニュ");
    reveal_strlit("ニェ");
    reveal_strlit("ニョ");
    reveal_strlit("ハ");
    reveal_strlit("ヒ");
    reveal_strlit("フ");
    reveal_strlit("ヘ");
    reveal_strlit("ホ");
    reveal_strlit("ヒャ");
    reveal_strlit("ヒュ");
    reveal_strlit("ヒェ");
    reveal_strlit("ヒョ");
    reveal_strlit("マ");
    reveal_strlit("ミ");
    reveal_strlit("ム");
    reveal_strlit("メ");
    reveal_strlit("モ");
    reveal_strlit("ファ");
    reveal_strlit("フィ");
    reveal_strlit("フェ");
    reveal_strlit("フォ");
    reveal_strlit("ヤ");
    reveal_strlit("ユ");
    reveal_strlit("イェ");
    reveal_strlit("ヨ");
    reveal_strlit("ミャ");
    reveal_strlit("ミュ");
    reveal_strlit("ミェ");
    reveal_strlit("ミョ");
    reveal_strlit("ラ");
    reveal_strlit("リ");
    reveal_strlit("ル");
    reveal_strlit("レ");
    reveal_strlit("ロ");
    reveal_strlit("リャ");
    reveal_strlit("リュ");
    reveal_strlit("リェ");
    reveal_strlit("リョ");
    reveal_strlit("ワ");
    reveal_strlit("ヲ");
    reveal_strlit("ギャ");
    reveal_strlit("ギュ");
    reveal_strlit("ギェ");
    reveal_strlit("ギョ");
    reveal_strlit("ジャ");
    reveal_strlit("ジュ");
    reveal_strlit("ジェ");
    reveal_strlit("ジョ");
    reveal_strlit("ガ");
    reveal_strlit("ギ");
    reveal_strlit("グ");
    reveal_strlit("ゲ");
    reveal_strlit("ゴ");
    reveal_strlit("ビャ");
    reveal_strlit("ビュ");
    reveal_strlit("ビェ");
    reveal_strlit("ビョ");
    reveal_strlit("ザ");
    reveal_strlit("ジ");
    reveal_strlit("ズ");
    reveal_strlit("ゼ");
    reveal_strlit("ゾ");
    reveal_strlit("ピャ");
    reveal_strlit("ピュ");
    reveal_strlit("ピェ");
    reveal_strlit("ピョ");
    reveal_strlit("ダ");
    reveal_strlit("ヂ");
    reveal_strlit("ヅ");
    reveal_strlit("デ");
    reveal_strlit("ド");
    reveal_strlit("ヴァ");
    reveal_strlit("ヴィ");
    reveal_strlit("ヴェ");
    reveal_strlit("ヴォ");
    reveal_strlit("ヴぁ");
    reveal_strlit("ヴぃ");
    reveal_strlit("ヴ");
    reveal_strlit("ヴぇ");
    reveal_strlit("ヴぉ");
    reveal_strlit("バ");
    reveal_strlit("ビ");
    reveal_strlit("ブ");
    reveal_strlit("ベ");
    reveal_strlit("ボ");
    reveal_strlit("ウィ");
    reveal_strlit("ウェ");
    reveal_strlit("ウォ");
    reveal_strlit("パ");
    reveal_strlit("ピ");
    reveal_strlit("プ");
    reveal_strlit("ペ");
    reveal_strlit("ポ");
    reveal_strlit("ディ");
    reveal_strlit("デュ");
    reveal_strlit("トゥ");
    reveal_strlit("ドゥ");
    reveal_strlit("ン");
    reveal_strlit("ッ");
    reveal_strlit("ズィ");
    if key[1] == 'ァ' {
        assert(key =~= "ヴァ"@);
    } else if key[1] == 'ィ' {
        assert(key =~= "ヴィ"@);
    } else if key[1] == 'ェ' {
        assert(key =~= "ヴェ"@);
    } else if key[1] == 'ォ' {
        assert(key =~= "ヴォ"@);
    }
}

/// The three cases of a lyric: a mora of the table gives what the table
/// lists; a phoneme symbol gives itself, unchanged; and a lyric is refused
/// exactly where neither it nor its katakana form is one or the other.
pub proof fn lemma_mora_phonemes_cases(mora: Seq<char>, katakana: Seq<char>)
    ensures
        mora_table(mora) is Some ==> mora_phonemes(mora, katakana) == Ok::<
            Seq<Seq<char>>,
            Seq<char>,
        >(mora_table(mora)->0),
        is_phoneme_symbol(mora) ==> mora_phonemes(mora, katakana) == Ok::<
            Seq<Seq<char>>,
            Seq<char>,
        >(seq![mora]),
        mora_phonemes(mora, katakana) is Err <==> (mora_table(mora) is None && !is_phoneme_symbol(
            mora,
        ) && mora_table(katakana) is None && !is_phoneme_symbol(katakana)),
        mora_phonemes(mora, katakana) is Err ==> mora_phonemes(mora, katakana)->Err_0 == mora,
{
    if is_phoneme_symbol(mora) {
        lemma_symbols_start_with_letter(mora);
        if mora_table(mora) is Some {
            lemma_table_keys_start_with_kana(mora);
        }
    }
}

// ---------------------------------------------------------------------
// Timing labels
// ---------------------------------------------------------------------

/// One phoneme with its time range in nanoseconds, as the backend timed it.
#[derive(Debug, PartialEq, Eq)]
pub struct TimingLabel {
    pub start_time_ns: u64,
    pub end_time_ns: u64,
    pub phoneme: String,
}

/// What a `TimingLabel` holds.
pub struct TimingLabelView {
    pub start_time_ns: u64,
    pub end_time_ns: u64,
    pub phoneme: Seq<char>,
}

impl View for TimingLabel {
    type V = TimingLabelView;

    open spec fn view(&self) -> TimingLabelView {
        TimingLabelView {
            start_time_ns: self.start_time_ns,
            end_time_ns: self.end_time_ns,
            phoneme: self.phoneme@,
        }
    }
}

impl Clone for TimingLabel {
    fn clone(&self) -> (r: Self)
        ensures
            r@ == self@,
    {
        TimingLabel {
            start_time_ns: self.start_time_ns,
            end_time_ns: self.end_time_ns,
            phoneme: self.phoneme.clone(),
        }
    }
}

/// The views of the timing labels `v`.
pub open spec fn timings_view(v: Seq<TimingLabel>) -> Seq<TimingLabelView> {
    Seq::new(v.len(), |i: int| v[i]@)
}

/// Why a timing label file cannot be read: a line of three or more words
/// whose first or second word is no time.
#[derive(Debug, PartialEq, Eq)]
pub enum TimingError {
    InvalidStartTime(String),
    InvalidEndTime(String),
}

/// What a `TimingError` says.
pub enum TimingErrorView {
    InvalidStartTime(Seq<char>),
    InvalidEndTime(Seq<char>),
}

impl View for TimingError {
    type V = TimingErrorView;

    open spec fn view(&self) -> TimingErrorView {
        match self {
            TimingError::InvalidStartTime(t) => TimingErrorView::InvalidStartTime(t@),
            TimingError::InvalidEndTime(t) => TimingErrorView::InvalidEndTime(t@),
        }
    }
}

impl TimingError {
    /// The error as one line of text.
    pub fn message(&self) -> (r: String)
        ensures
            r@ == match self@ {
                TimingErrorView::InvalidStartTime(t) => "Failed to parse start time in label file: "@
                    + t,
                TimingErrorView::InvalidEndTime(t) => "Failed to parse end time in label file: "@
                    + t,
            },
    {
        match self {
            TimingError::InvalidStartTime(t) => concat(
                "Failed to parse start time in label file: ",
                t.as_str(),
            ),
            TimingError::InvalidEndTime(t) => concat(
                "Failed to parse end time in label file: ",
                t.as_str(),
            ),
        }
    }
}

/// Whether `c` is white space: a character with the Unicode property
/// `White_Space`.
pub open spec fn is_space(c: char) -> bool {
    let u = c as u32;
    ||| 0x09 <= u <= 0x0d
    ||| u == 0x20
    ||| u == 0x85
    ||| u == 0xa0
    ||| u == 0x1680
    ||| 0x2000 <= u <= 0x200a
    ||| u == 0x2028
    ||| u == 0x2029
    ||| u == 0x202f
    ||| u == 0x205f
    ||| u == 0x3000
}

/// Whether `c` is white space.
pub fn is_space_char(c: char) -> (r: bool)
    ensures
        r == is_space(c),
{
    let u: u32 = c as u32;
    (0x09 <= u && u <= 0x0d) || u == 0x20 || u == 0x85 || u == 0xa0 || u == 0x1680 || (0x2000 <= u
        && u <= 0x200a) || u == 0x2028 || u == 0x2029 || u == 0x202f || u == 0x205f || u
        == 0x3000
}

/// The least index `i >= from` where the white-space test on `s[i]` gives
/// `space`, or `s.len()` when there is none.
pub open spec fn next_where(s: Seq<char>, from: int, space: bool) -> int
    decreases s.len() - from,
{
    if from >= s.len() {
        s.len() as int
    } else if is_space(s[from]) == space {
        from
    } else {
        next_where(s, from + 1, space)
    }
}

/// The first index at or after `from` where the white-space test gives
/// `space`.
pub fn find_where(v: &Vec<char>, from: usize, space: bool) -> (p: usize)
    requires
        from <= v.len(),
    ensures
        p == next_where(v@, from as int, space),
        from <= p <= v.len(),
{
    let mut i: usize = from;
    while i < v.len() && is_space_char(v[i]) != space
        invariant
            from <= i <= v.len(),
            next_where(v@, from as int, space) == next_where(v@, i as int, space),
        decreases v.len() - i,
    {
        i += 1;
    }
    i
}

/// The time that a word spells in units of 100 nanoseconds: an unsigned
/// numeral whose hundredfold fits in a `u64`.
pub open spec fn time_value(word: Seq<char>) -> Option<u64> {
    match parse_unsigned(word) {
        Some(n) => if n * 100 <= u64::MAX {
            Some((n * 100) as u64)
        } else {
            None
        },
        None => None,
    }
}

/// What one line of a timing label file holds. A line of fewer than three
/// words holds nothing. Else the first two words are the start and the end
/// in units of 100 nanoseconds and the third is the phoneme.
pub open spec fn line_entry(line: Seq<char>) -> Result<Option<TimingLabelView>, TimingErrorView> {
    let a0 = next_where(line, 0, false);
    let b0 = next_where(line, a0, true);
    let a1 = next_where(line, b0, false);
    let b1 = next_where(line, a1, true);
    let a2 = next_where(line, b1, false);
    let b2 = next_where(line, a2, true);
    if a2 >= line.len() {
        Ok(None)
    } else {
        match time_value(line.subrange(a0, b0)) {
            None => Err(TimingErrorView::InvalidStartTime(line.subrange(a0, b0))),
            Some(start) => match time_value(line.subrange(a1, b1)) {
                None => Err(TimingErrorView::InvalidEndTime(line.subrange(a1, b1))),
                Some(end) => Ok(
                    Some(
                        TimingLabelView {
                            start_time_ns: start,
                            end_time_ns: end,
                            phoneme: line.subrange(a2, b2),
                        },
                    ),
                ),
            },
        }
    }
}

/// `rest` with `done` in front of it.
pub open spec fn prepend_timings(
    done: Seq<TimingLabelView>,
    rest: Result<Seq<TimingLabelView>, TimingErrorView>,
) -> Result<Seq<TimingLabelView>, TimingErrorView> {
    match rest {
        Ok(r) => Ok(done + r),
        Err(e) => Err(e),
    }
}

/// The timing labels of the lines of `s[from..]`, in order, or the error
/// of the first line that has one. Lines end at a line feed.
pub open spec fn timing_labels_from(s: Seq<char>, from: int) -> Result<
    Seq<TimingLabelView>,
    TimingErrorView,
>
    decreases s.len() - from,
{
    if from < 0 || from > s.len() {
        Ok(Seq::empty())
    } else {
        let e = index_of_from(s, '\n', from);
        match line_entry(s.subrange(from, e)) {
            Err(x) => Err(x),
            Ok(entry) => {
                let here = match entry {
                    Some(l) => seq![l],
                    None => Seq::empty(),
                };
                if e >= s.len() {
                    Ok(here)
                } else {
                    proof {
                        lemma_index_of_from(s, '\n', from);
                    }
                    prepend_timings(here, timing_labels_from(s, e + 1))
                }
            },
        }
    }
}

/// The time that the word `line[from..to]` spells.
fn parse_time(line: &Vec<char>, from: usize, to: usize) -> (r: Option<u64>)
    requires
        from <= to <= line.len(),
    ensures
        r == time_value(line@.subrange(from as int, to as int)),
{
    match parse_unsigned_in(line, from, to, 184467440737095516u64) {
        Some(n) => Some(n * 100),
        None => None,
    }
}

/// What the line `line` holds.
pub fn parse_timing_line(line: &Vec<char>) -> (r: Result<Option<TimingLabel>, TimingError>)
    ensures
        match r {
            Ok(Some(l)) => line_entry(line@) == Ok::<Option<TimingLabelView>, TimingErrorView>(
                Some(l@),
            ),
            Ok(None) => line_entry(line@) == Ok::<Option<TimingLabelView>, TimingErrorView>(None),
            Err(e) => line_entry(line@) == Err::<Option<TimingLabelView>, TimingErrorView>(e@),
        },
{
    let a0 = find_where(line, 0, false);
    let b0 = find_where(line, a0, true);
    let a1 = find_where(line, b0, false);
    let b1 = find_where(line, a1, true);
    let a2 = find_where(line, b1, false);
    let b2 = find_where(line, a2, true);
    if a2 >= line.len() {
        return Ok(None);
    }
    let start = match parse_time(line, a0, b0) {
        Some(t) => t,
        None => {
            return Err(TimingError::InvalidStartTime(string_of(line, a0, b0)));
        },
    };
    let end = match parse_time(line, a1, b1) {
        Some(t) => t,
        None => {
            return Err(TimingError::InvalidEndTime(string_of(line, a1, b1)));
        },
    };
    Ok(Some(TimingLabel { start_time_ns: start, end_time_ns: end, phoneme: string_of(line, a2, b2) }))
}

/// The timing labels of a label file of the backend.
///
/// Every line of three or more words gives one label: start and end in
/// units of 100 nanoseconds, then the phoneme; the times are brought to
/// nanoseconds. Lines of fewer words are passed over. A line whose start
/// or end is no time, or too great for nanoseconds in a `u64`, fails the
/// whole file.
pub fn parse_timing_label_file(label_file_content: &str) -> (r: Result<
    Vec<TimingLabel>,
    TimingError,
>)
    ensures
        match r {
            Ok(labels) => timing_labels_from(label_file_content@, 0) == Ok::<
                Seq<TimingLabelView>,
                TimingErrorView,
            >(timings_view(labels@)),
            Err(e) => timing_labels_from(label_file_content@, 0) == Err::<
                Seq<TimingLabelView>,
                TimingErrorView,
            >(e@),
        },
{
    let v = chars_of(label_file_content);
    let mut labels: Vec<TimingLabel> = Vec::new();
    let mut cur: usize = 0;
    proof {
        let all = timing_labels_from(v@, 0);
        assert(all is Ok ==> timings_view(labels@) + all->Ok_0 =~= all->Ok_0);
    }
    loop
        invariant
            cur <= v.len(),
            v@ == label_file_content@,
            timing_labels_from(v@, 0) == prepend_timings(
                timings_view(labels@),
                timing_labels_from(v@, cur as int),
            ),
        decreases v.len() - cur,
    {
        let e = find_char(&v, '\n', cur);
        let line = copy_range(&v, cur, e);
        let ghost done = timings_view(labels@);
        match parse_timing_line(&line) {
            Err(x) => {
                return Err(x);
            },
            Ok(Some(l)) => {
                proof {
                    assert(timings_view(labels@.push(l)) =~= done + seq![l@]);
                    if e < v.len() {
                        let rest = timing_labels_from(v@, e + 1);
                        assert(rest is Ok ==> (done + seq![l@]) + rest->Ok_0 =~= done + (seq![l@]
                            + rest->Ok_0));
                    }
                }
                labels.push(l);
            },
            Ok(None) => {
                proof {
                    assert(done + Seq::<TimingLabelView>::empty() =~= done);
                    if e < v.len() {
                        let rest = timing_labels_from(v@, e + 1);
                        assert(rest is Ok ==> Seq::<TimingLabelView>::empty() + rest->Ok_0
                            =~= rest->Ok_0);
                    }
                }
            },
        }
        if e >= v.len() {
            return Ok(labels);
        }
        cur = e + 1;
    }
}

// ---------------------------------------------------------------------
// The score of a task
// ---------------------------------------------------------------------

/// A phoneme that the caller states for a note, with its time range on the
/// caller's time base, in nanoseconds.
#[derive(Debug, PartialEq, Eq)]
pub struct SynthesisPhoneme {
    pub symbol: String,
    pub start_time_ns: i64,
    pub end_time_ns: i64,
}

/// What a `SynthesisPhoneme` holds.
pub struct SynthesisPhonemeView {
    pub symbol: Seq<char>,
    pub start_time_ns: i64,
    pub end_time_ns: i64,
}

impl View for SynthesisPhoneme {
    type V = SynthesisPhonemeView;

    open spec fn view(&self) -> SynthesisPhonemeView {
        SynthesisPhonemeView {
            symbol: self.symbol@,
            start_time_ns: self.start_time_ns,
            end_time_ns: self.end_time_ns,
        }
    }
}

/// A note of a synthesis task, with its time range on the caller's time
/// base, in nanoseconds.
#[derive(Debug, PartialEq, Eq)]
pub struct SynthesisNote {
    pub start_time_ns: i64,
    pub end_time_ns: i64,
    pub pitch: i32,
    pub lyric: String,
    /// The phonemes that the caller states; empty where the lyric decides.
    pub phonemes: Vec<SynthesisPhoneme>,
}

/// What a `SynthesisNote` holds.
pub struct SynthesisNoteView {
    pub start_time_ns: i64,
    pub end_time_ns: i64,
    pub pitch: i32,
    pub lyric: Seq<char>,
    pub phonemes: Seq<SynthesisPhonemeView>,
}

impl View for SynthesisNote {
    type V = SynthesisNoteView;

    open spec fn view(&self) -> SynthesisNoteView {
        SynthesisNoteView {
            start_time_ns: self.start_time_ns,
            end_time_ns: self.end_time_ns,
            pitch: self.pitch,
            lyric: self.lyric@,
            phonemes: Seq::new(self.phonemes@.len(), |i: int| self.phonemes@[i]@),
        }
    }
}

/// The views of the task notes `v`.
pub open spec fn task_notes_view(v: Seq<SynthesisNote>) -> Seq<SynthesisNoteView> {
    Seq::new(v.len(), |i: int| v[i]@)
}

/// Why a task has no score.
#[derive(Debug, PartialEq, Eq)]
pub enum TaskError {
    NoNotes,
    UnsupportedMora(String),
}

/// What a `TaskError` says.
pub enum TaskErrorView {
    NoNotes,
    UnsupportedMora(Seq<char>),
}

impl View for TaskError {
    type V = TaskErrorView;

    open spec fn view(&self) -> TaskErrorView {
        match self {
            TaskError::NoNotes => TaskErrorView::NoNotes,
            TaskError::UnsupportedMora(m) => TaskErrorView::UnsupportedMora(m@),
        }
    }
}

impl TaskError {
    /// The error as one line of text.
    pub fn message(&self) -> (r: String)
        ensures
            r@ == match self@ {
                TaskErrorView::NoNotes => "No notes provided in synthesis task payload"@,
                TaskErrorView::UnsupportedMora(m) => "Unsupported mora: "@ + m,
            },
    {
        match self {
            TaskError::NoNotes => "No notes provided in synthesis task payload".to_owned(),
            TaskError::UnsupportedMora(m) => concat("Unsupported mora: ", m.as_str()),
        }
    }
}

/// The tempo of every task score. At 60000 beats per minute a quarter note
/// lasts a millisecond, so that note lengths count 1/24 milliseconds.
pub const SYNTHESIS_TEMPO: i32 = 60000;

/// The length of the silent note before and after the notes of a task:
/// one second at the synthesis tempo.
pub const PAU_LENGTH_UNITS: i32 = 24000;

/// The silent note of a task score that starts at `start_time_ns`.
pub open spec fn task_pau_note(start_time_ns: u64) -> NoteView {
    NoteView {
        pitch: None,
        start_time_ns,
        length: 24000,
        phonemes: seq![seq!['p', 'a', 'u']],
        language: Some(seq!['J', 'P', 'N']),
        language_dependent_context: Some(seq!['p']),
    }
}

/// The phonemes of a task note: the symbols that the caller states, or
/// where there are none the phonemes of the lyric.
pub open spec fn task_note_phonemes(note: SynthesisNoteView) -> Result<Seq<Seq<char>>, Seq<char>> {
    if note.phonemes.len() > 0 {
        Ok(Seq::new(note.phonemes.len(), |i: int| note.phonemes[i].symbol))
    } else {
        mora_phonemes(note.lyric, katakana_of(note.lyric))
    }
}

/// The length of a task note in triplet-32nd units at the synthesis tempo:
/// 24000 units for each second from start to end, rounded, nothing for a
/// note that ends before it starts, and no more than an `i32` holds.
pub open spec fn task_note_length(note: SynthesisNoteView) -> int {
    let span = note.end_time_ns - note.start_time_ns;
    if span <= 0 {
        0
    } else {
        let units = round_div(span * 24000, 1_000_000_000);
        if units > i32::MAX {
            i32::MAX as int
        } else {
            units
        }
    }
}

/// Where a task note starts in the score: as long after the leading silent
/// second as it starts after the first note of the task, and not before
/// it.
pub open spec fn task_note_start(note: SynthesisNoteView, first_start_ns: int) -> u64 {
    let after = note.start_time_ns - first_start_ns;
    clamp_u64((if after > 0 {
        after
    } else {
        0
    }) + 1_000_000_000)
}

/// The score note of a task note with the phonemes `phonemes`.
pub open spec fn task_score_note(
    note: SynthesisNoteView,
    first_start_ns: int,
    phonemes: Seq<Seq<char>>,
) -> NoteView {
    NoteView {
        pitch: Some(clamp_pitch(note.pitch as int)),
        start_time_ns: task_note_start(note, first_start_ns),
        length: task_note_length(note),
        phonemes,
        language: Some(seq!['J', 'P', 'N']),
        language_dependent_context: Some(seq!['0']),
    }
}

/// The leading silent note and the score notes of the first `n` task
/// notes, or the lyric of the first of them that has no phonemes.
pub open spec fn task_notes_upto(notes: Seq<SynthesisNoteView>, n: int) -> Result<
    Seq<NoteView>,
    Seq<char>,
>
    decreases n,
{
    if n <= 0 {
        Ok(seq![task_pau_note(0)])
    } else {
        match task_notes_upto(notes, n - 1) {
            Err(m) => Err(m),
            Ok(done) => match task_note_phonemes(notes[n - 1]) {
                Err(m) => Err(m),
                Ok(phonemes) => Ok(
                    done.push(task_score_note(notes[n - 1], notes[0].start_time_ns as int, phonemes)),
                ),
            },
        }
    }
}

/// The score of a task: a silent second, the notes of the task, and
/// another silent second that starts where the last note ends; at the
/// synthesis tempo, in 4/4. A task without notes has none, nor has one
/// with a lyric that is no mora.
pub open spec fn task_score(notes: Seq<SynthesisNoteView>) -> Result<ScoreView, TaskErrorView> {
    if notes.len() == 0 {
        Err(TaskErrorView::NoNotes)
    } else {
        match task_notes_upto(notes, notes.len() as int) {
            Err(m) => Err(TaskErrorView::UnsupportedMora(m)),
            Ok(done) => Ok(
                ScoreView {
                    notes: done.push(
                        task_pau_note(
                            clamp_u64(
                                done.last().start_time_ns + duration_ns(done.last().length, 60000),
                            ),
                        ),
                    ),
                    tempo: 60000,
                    time_signatures: seq![TimeSignature { numerator: 4, denominator: 4 }],
                },
            ),
        }
    }
}

/// Once a task note has no phonemes, the task has no score notes.
pub(crate) proof fn lemma_task_notes_fail(notes: Seq<SynthesisNoteView>, len: int, n: int)
    requires
        0 <= n < len,
        task_notes_upto(notes, n) is Ok,
        task_note_phonemes(notes[n]) is Err,
    ensures
        task_notes_upto(notes, len) == Err::<Seq<NoteView>, Seq<char>>(
            task_note_phonemes(notes[n])->Err_0,
        ),
    decreases len - n,
{
    if len > n + 1 {
        lemma_task_notes_fail(notes, len - 1, n);
    }
}

/// The silent note of a task score that starts at `start_time_ns`.
fn make_task_pau(start_time_ns: u64) -> (r: Note)
    ensures
        r@ == task_pau_note(start_time_ns),
{
    proof {
        reveal_strlit("pau");
        reveal_strlit("JPN");
        reveal_strlit("p");
    }
    let mut phonemes: Vec<String> = Vec::new();
    phonemes.push("pau".to_owned());
    let r = Note {
        pitch: None,
        start_time_ns,
        length: NoteLength::from_32nd_triplet_note(PAU_LENGTH_UNITS),
        phonemes,
        language: Some("JPN".to_owned()),
        language_dependent_context: Some("p".to_owned()),
    };
    assert("pau"@ =~= seq!['p', 'a', 'u']);
    assert(r.phonemes@[0]@ == seq!['p', 'a', 'u']);
    assert(r@.phonemes =~= seq![seq!['p', 'a', 'u']]);
    assert(r@.language->0 =~= seq!['J', 'P', 'N']);
    assert(r@.language_dependent_context->0 =~= seq!['p']);
    r
}

/// The phonemes of a task note.
pub fn phonemes_of_note(note: &SynthesisNote) -> (r: Result<Vec<String>, MoraError>)
    ensures
        phonemes_result_view(r) == task_note_phonemes(note@),
{
    if note.phonemes.len() == 0 {
        return mora_to_phonemes(note.lyric.as_str());
    }
    let mut symbols: Vec<String> = Vec::new();
    let mut i: usize = 0;
    while i < note.phonemes.len()
        invariant
            i <= note.phonemes.len(),
            symbols.len() == i,
            forall|j: int| 0 <= j < i ==> (#[trigger] symbols@[j])@ == note.phonemes@[j].symbol@,
        decreases note.phonemes.len() - i,
    {
        symbols.push(note.phonemes[i].symbol.clone());
        i += 1;
    }
    assert(strings_view(symbols@) =~= Seq::new(
        note@.phonemes.len(),
        |i: int| note@.phonemes[i].symbol,
    ));
    Ok(symbols)
}

/// The length of a task note in triplet-32nd units.
pub fn length_of_note(note: &SynthesisNote) -> (r: i32)
    ensures
        r == task_note_length(note@),
{
    if note.end_time_ns <= note.start_time_ns {
        return 0;
    }
    let span: i128 = note.end_time_ns as i128 - note.start_time_ns as i128;
    let units: i128 = (2 * (span * 24000) + 1_000_000_000) / 2_000_000_000;
    if units > i32::MAX as i128 {
        i32::MAX
    } else {
        units as i32
    }
}

/// Where a task note starts in the score.
pub fn start_of_note(note: &SynthesisNote, first_start_ns: i64) -> (r: u64)
    ensures
        r == task_note_start(note@, first_start_ns as int),
{
    let after: i128 = note.start_time_ns as i128 - first_start_ns as i128;
    let offset: i128 = if after > 0 {
        after
    } else {
        0
    };
    let start: i128 = offset + 1_000_000_000;
    if start >= u64::MAX as i128 {
        u64::MAX
    } else {
        start as u64
    }
}

/// The score of the notes of a task.
///
/// The score runs at the synthesis tempo. It opens with a silent second;
/// every task note follows as long after it as the note starts after the
/// first one, with its pitch brought into the MIDI range, its length
/// counted in 1/24 milliseconds, and the phonemes that the caller states,
/// or else those of its lyric; another silent second closes it.
pub fn task_notes_to_score(notes: &[SynthesisNote]) -> (r: Result<Score, TaskError>)
    ensures
        match r {
            Ok(score) => task_score(task_notes_view(notes@)) == Ok::<ScoreView, TaskErrorView>(
                score@,
            ),
            Err(e) => task_score(task_notes_view(notes@)) == Err::<ScoreView, TaskErrorView>(e@),
        },
{
    if notes.len() == 0 {
        return Err(TaskError::NoNotes);
    }
    let ghost tv = task_notes_view(notes@);
    let first_start_ns = notes[0].start_time_ns;
    assert(tv[0] == notes@[0]@);
    let mut score_notes: Vec<Note> = Vec::new();
    score_notes.push(make_task_pau(0));
    assert(notes_view(score_notes@) =~= seq![task_pau_note(0)]);
    let mut i: usize = 0;
    while i < notes.len()
        invariant
            i <= notes.len(),
            tv == task_notes_view(notes@),
            tv.len() > 0,
            first_start_ns == tv[0].start_time_ns,
            score_notes.len() == i + 1,
            task_notes_upto(tv, i as int) == Ok::<Seq<NoteView>, Seq<char>>(
                notes_view(score_notes@),
            ),
        decreases notes.len() - i,
    {
        let note = &notes[i];
        assert(tv[i as int] == note@);
        let phonemes = match phonemes_of_note(note) {
            Ok(p) => p,
            Err(e) => {
                proof {
                    lemma_task_notes_fail(tv, notes.len() as int, i as int);
                }
                return Err(TaskError::UnsupportedMora(e.mora));
            },
        };
        let pitch: u8 = if note.pitch < 0 {
            0
        } else if note.pitch > 127 {
            127
        } else {
            note.pitch as u8
        };
        let made = Note {
            pitch: Some(pitch),
            start_time_ns: start_of_note(note, first_start_ns),
            length: NoteLength::from_32nd_triplet_note(length_of_note(note)),
            phonemes,
            language: Some("JPN".to_owned()),
            language_dependent_context: Some("0".to_owned()),
        };
        proof {
            reveal_strlit("JPN");
            reveal_strlit("0");
            assert(made@.language->0 =~= seq!['J', 'P', 'N']);
            assert(made@.language_dependent_context->0 =~= seq!['0']);
            assert(made@ == task_score_note(
                note@,
                first_start_ns as int,
                task_note_phonemes(note@)->Ok_0,
            ));
            assert(notes_view(score_notes@.push(made)) =~= notes_view(score_notes@).push(made@));
        }
        score_notes.push(made);
        i += 1;
    }
    let last = &score_notes[score_notes.len() - 1];
    let ghost done = notes_view(score_notes@);
    assert(done.last() == last@);
    let duration = length_triplet_32nd_to_nanoseconds(last.length.triplet_32nd(), SYNTHESIS_TEMPO);
    let end: u128 = last.start_time_ns as u128 + duration as u128;
    let closing_start: u64 = if end >= u64::MAX as u128 {
        u64::MAX
    } else {
        end as u64
    };
    let closing = make_task_pau(closing_start);
    assert(notes_view(score_notes@.push(closing)) =~= done.push(closing@));
    score_notes.push(closing);
    let mut time_signatures: Vec<TimeSignature> = Vec::new();
    time_signatures.push(TimeSignature { numerator: 4, denominator: 4 });
    assert(time_signatures@ =~= seq![TimeSignature { numerator: 4, denominator: 4 }]);
    Ok(Score { notes: score_notes, tempo: SYNTHESIS_TEMPO, time_signatures })
}

} // verus!
