use neutrino_tau::neutrino_score::{NoteLength, Score, TimeSignature};
use neutrino_tau::synthesizer::{
    mora_to_phonemes, parse_timing_label_file, phonemes_of_mora, task_notes_to_score, MoraError,
    SynthesisNote, SynthesisPhoneme, TaskError, TimingError, TimingLabel,
};

const MORA_TABLE: [(&str, &[&str]); 143] = [
    ("ア", &["a"]),
    ("イ", &["i"]),
    ("ウ", &["u"]),
    ("エ", &["e"]),
    ("オ", &["o"]),
    ("キャ", &["ky", "a"]),
    ("キュ", &["ky", "u"]),
    ("キェ", &["ky", "e"]),
    ("キョ", &["ky", "o"]),
    ("カ", &["k", "a"]),
    ("キ", &["k", "i"]),
    ("ク", &["k", "u"]),
    ("ケ", &["k", "e"]),
    ("コ", &["k", "o"]),
    ("シャ", &["sh", "a"]),
    ("スィ", &["s", "i"]),
    ("シュ", &["sh", "u"]),
    ("シェ", &["sh", "e"]),
    ("ショ", &["sh", "o"]),
    ("サ", &["s", "a"]),
    ("シ", &["sh", "i"]),
    ("ス", &["s", "u"]),
    ("セ", &["s", "e"]),
    ("ソ", &["s", "o"]),
    ("チャ", &["ch", "a"]),
    ("チュ", &["ch", "u"]),
    ("チェ", &["ch", "e"]),
    ("チョ", &["ch", "o"]),
    ("タ", &["t", "a"]),
    ("チ", &["ch", "i"]),
    ("ツ", &["ts", "u"]),
    ("テ", &["t", "e"]),
    ("ト", &["t", "o"]),
    ("ツァ", &["ts", "a"]),
    ("ツィ", &["ts", "i"]),
    ("ツェ", &["ts", "e"]),
    ("ツォ", &["ts", "o"]),
    ("ナ", &["n", "a"]),
    ("ニ", &["n", "i"]),
    ("ヌ", &["n", "u"]),
    ("ネ", &["n", "e"]),
    ("ノ", &["n", "o"]),
    ("ニャ", &["ny", "a"]),
    ("ニュ", &["ny", "u"]),
    ("ニェ", &["ny", "e"]),
    ("ニョ", &["ny", "o"]),
    ("ハ", &["h", "a"]),
    ("ヒ", &["h", "i"]),
    ("フ", &["h", "u"]),
    ("ヘ", &["h", "e"]),
    ("ホ", &["h", "o"]),
    ("ヒャ", &["hy", "a"]),
    ("ヒュ", &["hy", "u"]),
    ("ヒェ", &["hy", "e"]),
    ("ヒョ", &["hy", "o"]),
    ("マ", &["m", "a"]),
    ("ミ", &["m", "i"]),
    ("ム", &["m", "u"]),
    ("メ", &["m", "e"]),
    ("モ", &["m", "o"]),
    ("ファ", &["f", "a"]),
    ("フィ", &["f", "i"]),
    ("フェ", &["f", "e"]),
    ("フォ", &["f", "o"]),
    ("ヤ", &["y", "a"]),
    ("ユ", &["y", "u"]),
    ("イェ", &["y", "e"]),
    ("ヨ", &["y", "o"]),
    ("ミャ", &["my", "a"]),
    ("ミュ", &["my", "u"]),
    ("ミェ", &["my", "e"]),
    ("ミョ", &["my", "o"]),
    ("ラ", &["r", "a"]),
    ("リ", &["r", "i"]),
    ("ル", &["r", "u"]),
    ("レ", &["r", "e"]),
    ("ロ", &["r", "o"]),
    ("リャ", &["ry", "a"]),
    ("リュ", &["ry", "u"]),
    ("リェ", &["ry", "e"]),
    ("リョ", &["ry", "o"]),
    ("ワ", &["w", "a"]),
    ("ヲ", &["o"]),
    ("ギャ", &["gy", "a"]),
    ("ギュ", &["gy", "u"]),
    ("ギェ", &["gy", "e"]),
    ("ギョ", &["gy", "o"]),
    ("ジャ", &["j", "a"]),
    ("ジュ", &["j", "u"]),
    ("ジェ", &["j", "e"]),
    ("ジョ", &["j", "o"]),
    ("ガ", &["g", "a"]),
    ("ギ", &["g", "i"]),
    ("グ", &["g", "u"]),
    ("ゲ", &["g", "e"]),
    ("ゴ", &["g", "o"]),
    ("ビャ", &["by", "a"]),
    ("ビュ", &["by", "u"]),
    ("ビェ", &["by", "e"]),
    ("ビョ", &["by", "o"]),
    ("ザ", &["z", "a"]),
    ("ジ", &["j", "i"]),
    ("ズ", &["z", "u"]),
    ("ゼ", &["z", "e"]),
    ("ゾ", &["z", "o"]),
    ("ピャ", &["py", "a"]),
    ("ピュ", &["py", "u"]),
    ("ピェ", &["py", "e"]),
    ("ピョ", &["py", "o"]),
    ("ダ", &["d", "a"]),
    ("ヂ", &["j", "i"]),
    ("ヅ", &["z", "u"]),
    ("デ", &["d", "e"]),
    ("ド", &["d", "o"]),
    ("ヴァ", &["v", "a"]),
    ("ヴィ", &["v", "i"]),
    ("ヴェ", &["v", "e"]),
    ("ヴォ", &["v", "o"]),
    ("ヴぁ", &["v", "a"]),
    ("ヴぃ", &["v", "i"]),
    ("ヴ", &["v", "u"]),
    ("ヴぇ", &["v", "e"]),
    ("ヴぉ", &["v", "o"]),
    ("バ", &["b", "a"]),
    ("ビ", &["b", "i"]),
    ("ブ", &["b", "u"]),
    ("ベ", &["b", "e"]),
    ("ボ", &["b", "o"]),
    ("ウィ", &["w", "i"]),
    ("ウェ", &["w", "e"]),
    ("ウォ", &["w", "o"]),
    ("パ", &["p", "a"]),
    ("ピ", &["p", "i"]),
    ("プ", &["p", "u"]),
    ("ペ", &["p", "e"]),
    ("ポ", &["p", "o"]),
    ("ディ", &["d", "i"]),
    ("デュ", &["dy", "u"]),
    ("トゥ", &["t", "u"]),
    ("ドゥ", &["d", "u"]),
    ("ン", &["N"]),
    ("ッ", &["cl"]),
    ("ズィ", &["z", "i"]),
];

const PHONEME_SYMBOLS: [&str; 39] = ["a", "i", "u", "e", "o", "ky", "k", "sh", "s", "ch", "t", "ts", "n", "ny", "h", "hy", "m", "f", "y", "my", "r", "ry", "w", "gy", "j", "g", "by", "z", "py", "d", "v", "b", "p", "dy", "N", "cl", "br", "pau", "sil"];

fn strings(v: &[&str]) -> Vec<String> {
    v.iter().map(|s| s.to_string()).collect()
}

fn task_note(start_ns: i64, end_ns: i64, pitch: i32, lyric: &str) -> SynthesisNote {
    SynthesisNote {
        start_time_ns: start_ns,
        end_time_ns: end_ns,
        pitch,
        lyric: lyric.to_string(),
        phonemes: vec![],
    }
}

#[test]
fn every_mora_of_the_table_gives_its_phonemes() {
    for (mora, phonemes) in MORA_TABLE.iter() {
        assert_eq!(mora_to_phonemes(mora), Ok(strings(phonemes)), "{}", mora);
    }
}

#[test]
fn phoneme_symbols_pass_unchanged() {
    for symbol in PHONEME_SYMBOLS.iter() {
        assert_eq!(mora_to_phonemes(symbol), Ok(strings(&[symbol])), "{}", symbol);
    }
}

#[test]
fn lyrics_are_brought_to_katakana() {
    // Hiragana and romaji are no keys of the table: they are found in
    // their katakana form.
    assert_eq!(mora_to_phonemes("きゃ"), Ok(strings(&["ky", "a"])));
    assert_eq!(mora_to_phonemes("あ"), Ok(strings(&["a"])));
    assert_eq!(mora_to_phonemes("ka"), Ok(strings(&["k", "a"])));
    assert_eq!(mora_to_phonemes("ん"), Ok(strings(&["N"])));
    assert_eq!(mora_to_phonemes("っ"), Ok(strings(&["cl"])));
}

#[test]
fn the_v_row_is_found_in_every_spelling() {
    // Katakana, hiragana (brought to katakana), and katakana with a
    // hiragana small vowel.
    for (lyric, vowel) in [
        ("ヴァ", "a"), ("ヴィ", "i"), ("ヴ", "u"), ("ヴェ", "e"), ("ヴォ", "o"),
        ("ゔぁ", "a"), ("ゔぃ", "i"), ("ゔ", "u"), ("ゔぇ", "e"), ("ゔぉ", "o"),
        ("ヴぁ", "a"), ("ヴぃ", "i"), ("ヴぇ", "e"), ("ヴぉ", "o"),
    ] {
        assert_eq!(mora_to_phonemes(lyric), Ok(strings(&["v", vowel])), "{}", lyric);
    }
    assert_eq!(phonemes_of_mora("x", "ヴァ"), Ok(strings(&["v", "a"])));
    assert_eq!(phonemes_of_mora("ヴァ", "ヴァ"), Ok(strings(&["v", "a"])));
}

#[test]
fn unknown_lyrics_are_refused() {
    let e = mora_to_phonemes("漢").unwrap_err();
    assert_eq!(e, MoraError { mora: "漢".to_string() });
    assert_eq!(e.message(), "Unsupported mora: 漢");
    assert!(mora_to_phonemes("").is_err());
    assert!(mora_to_phonemes("アア").is_err());
    assert!(mora_to_phonemes("?").is_err());
}

#[test]
fn phonemes_of_a_lyric_and_its_katakana_form() {
    // The lyric itself comes first, then its katakana form.
    assert_eq!(phonemes_of_mora("カ", "x"), Ok(strings(&["k", "a"])));
    assert_eq!(phonemes_of_mora("n", "ン"), Ok(strings(&["n"])));
    assert_eq!(phonemes_of_mora("x", "カ"), Ok(strings(&["k", "a"])));
    assert_eq!(phonemes_of_mora("K", "k"), Ok(strings(&["k"])));
    assert_eq!(phonemes_of_mora("x", "N"), Ok(strings(&["n"])));
    assert_eq!(
        phonemes_of_mora("x", "y z"),
        Err(MoraError { mora: "x".to_string() })
    );
}

#[test]
fn timing_label_file_is_read() {
    let content = "0 10000000 pau\n10000000 12500000 k\n12500000 15000000 a\n";
    let labels = parse_timing_label_file(content).unwrap();
    assert_eq!(
        labels,
        vec![
            TimingLabel { start_time_ns: 0, end_time_ns: 1_000_000_000, phoneme: "pau".to_string() },
            TimingLabel {
                start_time_ns: 1_000_000_000,
                end_time_ns: 1_250_000_000,
                phoneme: "k".to_string()
            },
            TimingLabel {
                start_time_ns: 1_250_000_000,
                end_time_ns: 1_500_000_000,
                phoneme: "a".to_string()
            },
        ]
    );
}

#[test]
fn timing_label_file_passes_over_short_lines() {
    let content = "\n1 2\n\t 3   4\u{3000}a  extra words\r\nonly\n5 6 b";
    let labels = parse_timing_label_file(content).unwrap();
    assert_eq!(
        labels,
        vec![
            TimingLabel { start_time_ns: 300, end_time_ns: 400, phoneme: "a".to_string() },
            TimingLabel { start_time_ns: 500, end_time_ns: 600, phoneme: "b".to_string() },
        ]
    );
    assert_eq!(parse_timing_label_file("").unwrap(), vec![]);
}

#[test]
fn timing_label_file_with_a_bad_time_fails() {
    let e = parse_timing_label_file("0 1 a\nx 2 b\n3 y c\n").unwrap_err();
    assert_eq!(e, TimingError::InvalidStartTime("x".to_string()));
    assert_eq!(e.message(), "Failed to parse start time in label file: x");
    let e = parse_timing_label_file("0 1 a\n3 -4 c\n").unwrap_err();
    assert_eq!(e, TimingError::InvalidEndTime("-4".to_string()));
    assert_eq!(e.message(), "Failed to parse end time in label file: -4");
    // The greatest time whose hundredfold fits, and the one after it.
    let labels = parse_timing_label_file("184467440737095516 0 a").unwrap();
    assert_eq!(labels[0].start_time_ns, 18_446_744_073_709_551_600);
    assert!(parse_timing_label_file("184467440737095517 0 a").is_err());
    // A bad time on a line of fewer than three words does not count.
    assert_eq!(parse_timing_label_file("x y").unwrap(), vec![]);
}

#[test]
fn task_without_notes_has_no_score() {
    let e = task_notes_to_score(&[]).unwrap_err();
    assert_eq!(e, TaskError::NoNotes);
    assert_eq!(e.message(), "No notes provided in synthesis task payload");
}

#[test]
fn task_with_an_unknown_lyric_has_no_score() {
    let notes = vec![
        task_note(0, 500_000_000, 69, "ア"),
        task_note(500_000_000, 600_000_000, 69, "漢"),
        task_note(600_000_000, 700_000_000, 69, "字"),
    ];
    let e = task_notes_to_score(&notes).unwrap_err();
    assert_eq!(e, TaskError::UnsupportedMora("漢".to_string()));
    assert_eq!(e.message(), "Unsupported mora: 漢");
}

#[test]
fn score_of_a_single_quarter_note() {
    let notes = vec![task_note(0, 500_000_000, 69, "ア")];
    let score = task_notes_to_score(&notes).unwrap();
    assert_eq!(score.tempo, 60000);
    assert_eq!(score.time_signatures, vec![TimeSignature { numerator: 4, denominator: 4 }]);
    assert_eq!(score.notes.len(), 3);
    let pau = &score.notes[0];
    assert_eq!(pau.pitch, None);
    assert_eq!(pau.start_time_ns, 0);
    assert_eq!(pau.length, NoteLength::from_32nd_triplet_note(24000));
    assert_eq!(pau.length.to_nanoseconds(score.tempo), 1_000_000_000);
    assert_eq!(pau.phonemes, strings(&["pau"]));
    assert_eq!(pau.language, Some("JPN".to_string()));
    assert_eq!(pau.language_dependent_context, Some("p".to_string()));
    let note = &score.notes[1];
    assert_eq!(note.pitch, Some(69));
    assert_eq!(note.start_time_ns, 1_000_000_000);
    assert_eq!(note.length, NoteLength::from_32nd_triplet_note(12000));
    assert_eq!(note.phonemes, strings(&["a"]));
    assert_eq!(note.language, Some("JPN".to_string()));
    assert_eq!(note.language_dependent_context, Some("0".to_string()));
    let last = &score.notes[2];
    assert_eq!(last.pitch, None);
    assert_eq!(last.start_time_ns, 1_500_000_000);
    assert_eq!(last.length, NoteLength::from_32nd_triplet_note(24000));
    assert_eq!(last.phonemes, strings(&["pau"]));
}

#[test]
fn score_of_a_task_on_its_own_time_base() {
    let notes = vec![
        SynthesisNote {
            start_time_ns: -2_000_000_000,
            end_time_ns: -1_000_000_000,
            pitch: 200,
            lyric: "ignored".to_string(),
            phonemes: vec![
                SynthesisPhoneme {
                    symbol: "k".to_string(),
                    start_time_ns: -2_000_000_000,
                    end_time_ns: -1_900_000_000,
                },
                SynthesisPhoneme {
                    symbol: "a".to_string(),
                    start_time_ns: -1_900_000_000,
                    end_time_ns: -1_000_000_000,
                },
            ],
        },
        // A note that ends before it starts has no length, and one that
        // starts before the first note starts with it.
        task_note(-3_000_000_000, -3_500_000_000, -4, "キャ"),
        task_note(250_000_000, 250_020_834, 60, "ン"),
    ];
    let score: Score = task_notes_to_score(&notes).unwrap();
    assert_eq!(score.notes.len(), 5);
    assert_eq!(score.notes[1].pitch, Some(127));
    assert_eq!(score.notes[1].start_time_ns, 1_000_000_000);
    assert_eq!(score.notes[1].length.triplet_32nd(), 24000);
    assert_eq!(score.notes[1].phonemes, strings(&["k", "a"]));
    assert_eq!(score.notes[2].pitch, Some(0));
    assert_eq!(score.notes[2].start_time_ns, 1_000_000_000);
    assert_eq!(score.notes[2].length.triplet_32nd(), 0);
    assert_eq!(score.notes[2].phonemes, strings(&["ky", "a"]));
    assert_eq!(score.notes[3].start_time_ns, 3_250_000_000);
    // 20_834 ns are 0.500016 units: rounded to 1; 1 unit lasts 41_667 ns.
    assert_eq!(score.notes[3].length.triplet_32nd(), 1);
    assert_eq!(score.notes[3].phonemes, strings(&["N"]));
    assert_eq!(score.notes[4].start_time_ns, 3_250_041_667);
}
