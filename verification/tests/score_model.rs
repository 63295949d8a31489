use neutrino_tau::neutrino_label::Label;
use neutrino_tau::neutrino_score::{
    compose_labels_from_score, format_pitch_difference, labels_to_notes, labels_to_score,
    length_triplet_32nd_to_centiseconds, length_triplet_32nd_to_nanoseconds, midi_to_note_name,
    note_name_to_midi, parse_time_signature, transpose, xx_as_none, ComposeError, Note,
    NoteLength, Score, TimeSignature,
};

fn note(pitch: Option<u8>, quarters: i32, phonemes: &[&str], ldc: &str) -> Note {
    Note {
        pitch,
        start_time_ns: 0,
        length: NoteLength::from_4th_note(quarters),
        phonemes: phonemes.iter().map(|p| p.to_string()).collect(),
        language: Some("JPN".to_string()),
        language_dependent_context: Some(ldc.to_string()),
    }
}

#[test]
fn xx_is_treated_as_none() {
    assert_eq!(xx_as_none("xx"), None);
    assert_eq!(xx_as_none("0"), Some("0"));
}

#[test]
fn score_to_labels() {
    let score = Score {
        notes: vec![
            Note {
                pitch: Some(60),
                start_time_ns: 0,
                length: NoteLength::from_4th_note(1),
                phonemes: vec!["pau".to_string()],
                language: Some("JPN".to_string()),
                language_dependent_context: Some("0".to_string()),
            },
            Note {
                pitch: Some(60),
                start_time_ns: 0,
                length: NoteLength::from_4th_note(1),
                phonemes: vec!["p".to_string(), "a".to_string()],
                language: Some("JPN".to_string()),
                language_dependent_context: Some("0".to_string()),
            },
            Note {
                pitch: Some(60),
                start_time_ns: 0,
                length: NoteLength::from_4th_note(1),
                phonemes: vec!["pau".to_string()],
                language: Some("JPN".to_string()),
                language_dependent_context: Some("0".to_string()),
            },
        ],
        tempo: 140,
        time_signatures: vec![TimeSignature {
            numerator: 3,
            denominator: 4,
        }],
    };
    let labels = compose_labels_from_score(&score).expect("compose should succeed");
    assert_eq!(labels.len(), 4);
    assert_eq!(
        labels[0].phoneme.phoneme_id_current.as_option(),
        Some("pau")
    );
    assert_eq!(labels[1].phoneme.phoneme_id_current.as_option(), Some("p"));
    assert_eq!(labels[2].phoneme.phoneme_id_current.as_option(), Some("a"));
    assert_eq!(
        labels[3].phoneme.phoneme_id_current.as_option(),
        Some("pau")
    );
    assert_eq!(labels[0].curr_syllable.language.as_option(), Some("JPN"));
    assert_eq!(
        labels[0]
            .curr_syllable
            .language_dependent_context
            .as_option(),
        Some("0")
    );
}

#[test]
fn labels_to_score_roundtrip() {
    let score = Score {
        notes: vec![
            Note {
                pitch: Some(60),
                start_time_ns: 0,
                length: NoteLength::from_4th_note(1),
                phonemes: vec!["p".to_string(), "a".to_string()],
                language: Some("JPN".to_string()),
                language_dependent_context: Some("0".to_string()),
            },
            Note {
                pitch: Some(62),
                start_time_ns: 0,
                length: NoteLength::from_4th_note(1),
                phonemes: vec!["r".to_string()],
                language: Some("JPN".to_string()),
                language_dependent_context: Some("0".to_string()),
            },
        ],
        tempo: 140,
        time_signatures: vec![TimeSignature {
            numerator: 3,
            denominator: 4,
        }],
    };

    let labels = compose_labels_from_score(&score).expect("compose should succeed");
    let plain_labels: Vec<Label> = labels.iter().map(|l| l.label.clone()).collect();
    let recovered = labels_to_score(&plain_labels).expect("recover should succeed");

    assert_eq!(recovered.tempo, 140);
    assert_eq!(
        recovered.time_signatures,
        vec![TimeSignature {
            numerator: 3,
            denominator: 4
        }]
    );
    // The recovered score carries a silent note before and after the notes.
    assert_eq!(recovered.notes.len(), 2 + 2);
    assert_eq!(recovered.notes[0].phonemes, vec!["pau".to_string()]);
    assert_eq!(
        recovered.notes[1].phonemes,
        vec!["p".to_string(), "a".to_string()]
    );
    assert_eq!(recovered.notes[2].phonemes, vec!["r".to_string()]);
    assert_eq!(recovered.notes[3].phonemes, vec!["pau".to_string()]);
    assert_eq!(recovered.notes[1].pitch, Some(60));
    assert_eq!(recovered.notes[2].pitch, Some(62));
    assert_eq!(recovered.notes[1].language, Some("JPN".to_string()));
    assert_eq!(
        recovered.notes[2].language_dependent_context,
        Some("0".to_string())
    );
    assert_eq!(recovered.notes[1].length, NoteLength::from_4th_note(1));
}

#[test]
fn triplet_length_to_centiseconds() {
    assert_eq!(length_triplet_32nd_to_centiseconds(24, 100), 60);
    assert_eq!(length_triplet_32nd_to_centiseconds(96, 100), 240);
    assert_eq!(length_triplet_32nd_to_centiseconds(24, 140), 43);
}

#[test]
fn pitch_difference_format() {
    assert_eq!(format_pitch_difference(60, 62), "p2");
    assert_eq!(format_pitch_difference(62, 60), "m2");
    assert_eq!(format_pitch_difference(60, 60), "p0");
}

#[test]
fn centiseconds_of_a_stopped_tempo_are_zero() {
    assert_eq!(length_triplet_32nd_to_centiseconds(24, 0), 0);
    assert_eq!(length_triplet_32nd_to_centiseconds(24, -5), 0);
    assert_eq!(length_triplet_32nd_to_centiseconds(-24, 100), -59);
}

#[test]
fn nanoseconds_of_a_length() {
    // 24 units are one quarter note: half a second at 120 beats per minute.
    assert_eq!(length_triplet_32nd_to_nanoseconds(24, 120), 500_000_000);
    assert_eq!(NoteLength::from_4th_note(1).to_nanoseconds(60), 1_000_000_000);
    // 1 unit at 60000 beats per minute: 2_500_000_000 / 60000 = 41666.67
    assert_eq!(length_triplet_32nd_to_nanoseconds(1, 60000), 41_667);
    assert_eq!(length_triplet_32nd_to_nanoseconds(24000, 60000), 1_000_000_000);
    assert_eq!(length_triplet_32nd_to_nanoseconds(24, 0), 0);
    assert_eq!(length_triplet_32nd_to_nanoseconds(24, -1), 0);
    assert_eq!(length_triplet_32nd_to_nanoseconds(-3, 120), 0);
    assert_eq!(length_triplet_32nd_to_nanoseconds(0, 120), 0);
    assert_eq!(
        length_triplet_32nd_to_nanoseconds(i32::MAX, 1),
        2_147_483_647u64 * 2_500_000_000u64
    );
}

#[test]
fn note_length_units() {
    assert_eq!(NoteLength::from_4th_note(2).triplet_32nd(), 48);
    assert_eq!(NoteLength::from_8th_note(2).triplet_32nd(), 24);
    assert_eq!(NoteLength::from_16th_note(2).triplet_32nd(), 12);
    assert_eq!(NoteLength::from_32nd_note(2).triplet_32nd(), 6);
    assert_eq!(NoteLength::from_32nd_triplet_note(2).triplet_32nd(), 2);
    let units: i32 = NoteLength::from_4th_note(-3).into();
    assert_eq!(units, -72);
}

#[test]
fn pitch_names() {
    assert_eq!(midi_to_note_name(60), "C4");
    assert_eq!(midi_to_note_name(61), "C#4");
    assert_eq!(midi_to_note_name(0), "C-1");
    assert_eq!(midi_to_note_name(127), "G9");
    assert_eq!(midi_to_note_name(71), "B4");
    assert_eq!(note_name_to_midi("C4"), Some(60));
    assert_eq!(note_name_to_midi("C5"), Some(72));
    assert_eq!(note_name_to_midi("A#3"), Some(58));
    assert_eq!(note_name_to_midi("C-1"), Some(0));
    assert_eq!(note_name_to_midi("G9"), Some(127));
    assert_eq!(note_name_to_midi("G#9"), None);
    assert_eq!(note_name_to_midi("C-2"), None);
    assert_eq!(note_name_to_midi("H4"), None);
    assert_eq!(note_name_to_midi("E#4"), None);
    assert_eq!(note_name_to_midi("C"), None);
    assert_eq!(note_name_to_midi(""), None);
    assert_eq!(note_name_to_midi("Cx"), None);
    assert_eq!(note_name_to_midi("C99999999999"), None);
    for p in 0..=127u8 {
        assert_eq!(note_name_to_midi(&midi_to_note_name(p)), Some(p));
    }
}

#[test]
fn time_signatures() {
    assert_eq!(
        parse_time_signature("3/4"),
        Some(TimeSignature { numerator: 3, denominator: 4 })
    );
    assert_eq!(
        parse_time_signature("+6/8"),
        Some(TimeSignature { numerator: 6, denominator: 8 })
    );
    assert_eq!(parse_time_signature("0/4"), None);
    assert_eq!(parse_time_signature("4/0"), None);
    assert_eq!(parse_time_signature("4"), None);
    assert_eq!(parse_time_signature("256/4"), None);
    assert_eq!(parse_time_signature("4/4/4"), None);
    assert_eq!(parse_time_signature("/"), None);
    assert_eq!(TimeSignature::default(), TimeSignature { numerator: 4, denominator: 4 });
}

#[test]
fn empty_phonemes_are_refused() {
    let score = Score {
        notes: vec![
            note(Some(60), 1, &["a"], "0"),
            note(Some(60), 1, &[], "0"),
            note(Some(60), 1, &[], "0"),
        ],
        tempo: 120,
        time_signatures: vec![TimeSignature::default()],
    };
    let e = compose_labels_from_score(&score).unwrap_err();
    assert_eq!(e, ComposeError::EmptyPhonemes { note_index: 1 });
    assert_eq!(e.message(), "note at index 1 has no phonemes");
}

#[test]
fn invalid_pitch_is_refused() {
    let score = Score {
        notes: vec![note(Some(60), 1, &["a"], "0")],
        tempo: 120,
        time_signatures: vec![TimeSignature::default()],
    };
    let labels = compose_labels_from_score(&score).unwrap();
    let mut label = labels[0].label.clone();
    label.curr_note.absolute_pitch = "Q7".into();
    let e = labels_to_score(&[label]).unwrap_err();
    assert_eq!(e, ComposeError::InvalidPitch("Q7".to_string()));
    assert_eq!(e.message(), "invalid pitch label: Q7");
    assert_eq!(
        ComposeError::TemplateParse("x".to_string()).message(),
        "failed to parse template label: x"
    );
}

#[test]
fn no_labels_make_the_default_score() {
    let score = labels_to_score(&[]).unwrap();
    assert_eq!(score, Score::default());
    assert_eq!(score.tempo, 120);
    assert!(score.notes.is_empty());
    assert_eq!(score.time_signatures, vec![TimeSignature::default()]);
    assert!(labels_to_notes(&[]).unwrap().is_empty());
}

#[test]
fn composed_line_of_a_small_score() {
    let score = Score {
        notes: vec![
            note(None, 4, &["pau"], "p"),
            note(Some(72), 1, &["r", "a"], "0"),
            note(Some(74), 1, &["r", "a"], "0"),
            note(None, 4, &["pau"], "p"),
        ],
        tempo: 100,
        time_signatures: vec![TimeSignature::default()],
    };
    let labels = compose_labels_from_score(&score).unwrap();
    assert_eq!(labels.len(), 6);
    assert_eq!(
        labels[1].label.to_line(),
        "r@xx^pau-r+a=r_xx%xx^00_00~00-1!2[xx$xx]xx/A:1-1-4@JPN~p/B:2_2_3@JPN|0/C:2+3+2@JPN&0/D:xx!xx#0$4/4%100|1&240;96-xx/E:C5]0^0=4/4~100!1@60#24+xx]1$1|0[0&0]0=0^100~xx#xx_xx;xx$xx&xx%xx[xx|0]0-n^xx+xx~xx=xx@xx$xx!xx%xx#xx|xx|xx-xx&xx&xx+xx[xx;xx]xx;xx~xx~xx^xx^xx@xx[xx#xx=xx!xx~xx+p2!xx^xx/F:D5#2#0-4/4$100$1+60%24;xx/G:xx_xx/H:4_6/I:xx_xx/J:xx~xx@1"
    );
    assert_eq!(
        labels[5].label.to_line(),
        "pau@r^a-pau+xx=xx_xx%xx^00_00~00-1!1[xx$xx]xx/A:2-3-2@JPN~0/B:1_4_1@JPN|p/C:xx+xx+xx@xx&xx/D:D5!2#0$4/4%100|1&60;24-xx/E:xx]xx^0=4/4~100!1@240#96+xx]1$1|0[0&0]0=0^100~xx#xx_xx;xx$xx&xx%xx[xx|0]0-n^xx+xx~xx=xx@xx$xx!xx%xx#xx|xx|xx-xx&xx&xx+xx[xx;xx]xx;xx~xx~xx^xx^xx@xx[xx#xx=xx!xx~xx+xx!xx^xx/F:xx#xx#xx-xx$xx$xx+xx%xx;xx/G:xx_xx/H:4_6/I:xx_xx/J:xx~xx@1"
    );
}

#[test]
fn label_times_divide_the_note() {
    let score = Score {
        notes: vec![
            note(None, 1, &["pau"], "p"),
            Note {
                pitch: Some(60),
                start_time_ns: 2_000_000_000,
                length: NoteLength::from_32nd_triplet_note(1),
                phonemes: vec!["k".to_string(), "y".to_string(), "a".to_string()],
                language: None,
                language_dependent_context: None,
            },
            note(Some(62), 1, &["a", "i"], "0"),
        ],
        tempo: 60,
        time_signatures: vec![],
    };
    let labels = compose_labels_from_score(&score).unwrap();
    assert_eq!(labels.len(), 6);
    // The first note: one second from 0.
    assert_eq!((labels[0].start_time_ns, labels[0].end_time_ns), (0, 1_000_000_000));
    // The second note starts at its own start time and lasts 1/24 s =
    // 41_666_667 ns; three shares of 13_888_889 ns each, cut to whole numbers.
    assert_eq!(labels[1].start_time_ns, 2_000_000_000);
    assert_eq!(labels[1].end_time_ns, 2_013_888_889);
    assert_eq!(labels[2].start_time_ns, 2_013_888_889);
    assert_eq!(labels[2].end_time_ns, 2_027_777_778);
    assert_eq!(labels[3].start_time_ns, 2_027_777_778);
    assert_eq!(labels[3].end_time_ns, 2_041_666_667);
    // The third note starts where the second one ends.
    assert_eq!(labels[4].start_time_ns, 2_041_666_667);
    assert_eq!(labels[4].end_time_ns, 2_541_666_667);
    assert_eq!(labels[5].start_time_ns, 2_541_666_667);
    assert_eq!(labels[5].end_time_ns, 3_041_666_667);
    // No time signature: 4/4. No language: xx.
    assert_eq!(labels[1].label.curr_note.beat, "4/4");
    assert_eq!(labels[1].label.curr_syllable.language, "xx");
    assert_eq!(labels[1].label.phoneme.syllable_phoneme_position_forward, "1");
    assert_eq!(labels[1].label.phoneme.syllable_phoneme_position_backward, "3");
    assert_eq!(labels[3].label.phoneme.syllable_phoneme_position_backward, "1");
    assert_eq!(labels[1].label.phoneme.phoneme_id_two_before, "xx");
    assert_eq!(labels[2].label.phoneme.phoneme_id_two_before, "pau");
    assert_eq!(labels[2].label.phoneme.phoneme_id_two_after, "a");
}

#[test]
fn transpose_moves_and_cuts_pitches() {
    let score = Score {
        notes: vec![
            note(None, 1, &["pau"], "p"),
            note(Some(60), 1, &["a"], "0"),
            note(Some(120), 1, &["a"], "0"),
            note(Some(3), 1, &["a"], "0"),
        ],
        tempo: 120,
        time_signatures: vec![TimeSignature::default()],
    };
    let up = transpose(&score, 10);
    let pitches: Vec<Option<u8>> = up.notes.iter().map(|n| n.pitch).collect();
    assert_eq!(pitches, vec![None, Some(70), Some(127), Some(13)]);
    let down = transpose(&score, -5);
    let pitches: Vec<Option<u8>> = down.notes.iter().map(|n| n.pitch).collect();
    assert_eq!(pitches, vec![None, Some(55), Some(115), Some(0)]);
    assert_eq!(transpose(&score, 0), score);
    // There and back, where nothing is cut.
    assert_eq!(transpose(&transpose(&score, 2), -2), score);
    assert_eq!(up.notes[1].phonemes, score.notes[1].phonemes);
    assert_eq!(up.tempo, 120);
}
