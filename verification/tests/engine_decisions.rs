use neutrino_tau::engine::{
    build_note_phonemes, client_arguments, client_arguments_here, first_pass, format_label_file, format_timing_file,
    judge_client_run, map_phonemes_to_notes, merge_phonemes_with_payload, must_kill_server,
    pass_after, pitch_skip_mask, server_action, synthesis_offset_ns, EngineError, NotePhonemes,
    Pass, PassFiles, ServerAction, SynthesizedPhoneme,
};
use neutrino_tau::neutrino_score::compose_labels_from_score;
use neutrino_tau::pitch_frames::{f0_bytes, f0_words, segment_frames};
use neutrino_tau::speaker::{SpeakerInfo, VoiceSource};
use neutrino_tau::synthesize_task::{default_sample_rate, phoneme_count, property_count};
use neutrino_tau::synthesizer::{
    parse_timing_label_file, task_notes_to_score, SynthesisNote, SynthesisPhoneme, TimingLabel,
};

fn timing(start: u64, end: u64, phoneme: &str) -> TimingLabel {
    TimingLabel { start_time_ns: start, end_time_ns: end, phoneme: phoneme.to_string() }
}

fn files() -> PassFiles {
    PassFiles {
        label_in: "in.lab".to_string(),
        label_out: "out.lab".to_string(),
        f0: "a.f0".to_string(),
        melspec: "a.melspec".to_string(),
        wav_out: "a.wav".to_string(),
    }
}

fn kya_task() -> Vec<SynthesisNote> {
    vec![SynthesisNote {
        start_time_ns: 0,
        end_time_ns: 500_000_000,
        pitch: 69,
        lyric: "キャ".to_string(),
        phonemes: vec![],
    }]
}

#[test]
fn a_cancelled_synthesis_runs_no_pass() {
    assert_eq!(first_pass(true), Err(EngineError::Cancelled));
    assert_eq!(first_pass(false), Ok(Pass::Timing));
    assert_eq!(EngineError::Cancelled.message(), "Synthesis cancelled");
}

#[test]
fn the_passes_run_in_order() {
    assert_eq!(pass_after(Pass::Timing), Some(Pass::F0));
    assert_eq!(pass_after(Pass::F0), Some(Pass::Waveform));
    assert_eq!(pass_after(Pass::Waveform), None);
}

#[test]
fn the_server_is_started_once() {
    assert_eq!(server_action(false), ServerAction::Spawn);
    assert_eq!(server_action(true), ServerAction::Reuse);
    assert!(must_kill_server(false, true));
    assert!(!must_kill_server(true, true));
    assert!(!must_kill_server(false, false));
}

#[test]
fn client_arguments_of_each_pass() {
    let common = ["in.lab", "out.lab", "a.f0", "a.melspec", "a.wav", "model/voice", "-n", "8", "-m", "-t"];
    let mut timing: Vec<&str> = common.to_vec();
    timing.extend(["--skip-melspec", "--skip-f0", "--skip-wav"]);
    assert_eq!(client_arguments(&files(), "model/voice", 8, Pass::Timing), timing);
    let mut f0: Vec<&str> = common.to_vec();
    f0.extend(["--skip-timing", "--skip-melspec", "--skip-wav"]);
    assert_eq!(client_arguments(&files(), "model/voice", 8, Pass::F0), f0);
    let mut wav: Vec<&str> = common.to_vec();
    wav.extend(["--skip-timing", "--skip-f0"]);
    assert_eq!(client_arguments(&files(), "model/voice", 8, Pass::Waveform), wav);
}

#[test]
fn client_arguments_on_this_machine() {
    let args = client_arguments_here(&files(), "model/voice", Pass::F0);
    assert_eq!(args.len(), 13);
    let cores: usize = args[7].parse().unwrap();
    assert!(cores >= 1);
    assert_eq!(args, client_arguments(&files(), "model/voice", cores, Pass::F0));
}

#[test]
fn client_runs_are_judged() {
    assert_eq!(judge_client_run(true, "done", "noise"), Ok("done".to_string()));
    assert_eq!(judge_client_run(true, "", ""), Ok("".to_string()));
    let e = judge_client_run(true, "x\nError: no model\n", "").unwrap_err();
    assert_eq!(e, EngineError::Client("x\nError: no model\n".to_string()));
    assert_eq!(e.message(), "Neutrino client error: x\nError: no model\n");
    assert_eq!(
        judge_client_run(true, "Recv failed: 5", "e"),
        Err(EngineError::Client("Recv failed: 5".to_string()))
    );
    assert_eq!(
        judge_client_run(false, "fine", "broken"),
        Err(EngineError::Client("broken".to_string()))
    );
    // The markers end in a space.
    assert_eq!(judge_client_run(true, "Error:", ""), Ok("Error:".to_string()));
}

#[test]
fn timings_are_grouped_by_note() {
    let score = task_notes_to_score(&kya_task()).unwrap();
    let timings = vec![
        timing(0, 10, "pau"),
        timing(10, 20, "ky"),
        timing(20, 30, "a"),
        timing(30, 40, "pau"),
        timing(40, 50, "extra"),
    ];
    let groups = map_phonemes_to_notes(&score, &timings).unwrap();
    assert_eq!(
        groups,
        vec![
            vec![timing(0, 10, "pau")],
            vec![timing(10, 20, "ky"), timing(20, 30, "a")],
            vec![timing(30, 40, "pau")],
        ]
    );
    let e = map_phonemes_to_notes(&score, &timings[..2]).unwrap_err();
    assert_eq!(e, EngineError::NotEnoughTimingLabels { note_start_time_ns: 1_000_000_000 });
    assert_eq!(
        e.message(),
        "Not enough timing labels for the number of phonemes in the score. Note start time: 1000000000 ns"
    );
    let e = map_phonemes_to_notes(&score, &timings[..3]).unwrap_err();
    assert_eq!(e, EngineError::NotEnoughTimingLabels { note_start_time_ns: 1_500_000_000 });
}

#[test]
fn caller_timings_stand_where_the_counts_agree() {
    let notes = vec![
        SynthesisNote {
            start_time_ns: 0,
            end_time_ns: 500_000_000,
            pitch: 69,
            lyric: "カ".to_string(),
            phonemes: vec![
                SynthesisPhoneme { symbol: "k".to_string(), start_time_ns: -1_500_000_000, end_time_ns: 100 },
                SynthesisPhoneme { symbol: "a".to_string(), start_time_ns: 100, end_time_ns: 500 },
            ],
        },
        SynthesisNote {
            start_time_ns: 500_000_000,
            end_time_ns: 900_000_000,
            pitch: 69,
            lyric: "ア".to_string(),
            phonemes: vec![],
        },
    ];
    let groups = vec![
        vec![timing(0, 10, "pau")],
        vec![timing(10, 20, "K"), timing(20, 30, "A")],
        vec![timing(30, 40, "b")],
        vec![timing(40, 50, "pau")],
        vec![timing(50, 60, "left out")],
    ];
    let merged = merge_phonemes_with_payload(&notes, &groups, 1_000_000_000);
    assert_eq!(
        merged,
        vec![
            timing(0, 10, "pau"),
            timing(0, 1_000_000_100, "k"),
            timing(1_000_000_100, 1_000_000_500, "a"),
            timing(30, 40, "b"),
            timing(40, 50, "pau"),
        ]
    );
    // Fewer groups than notes: what there is.
    assert_eq!(merge_phonemes_with_payload(&notes, &groups[..1], 0), vec![timing(0, 10, "pau")]);
    assert_eq!(merge_phonemes_with_payload(&notes, &[], 0), vec![]);
}

#[test]
fn note_phonemes_of_the_answer() {
    let groups = vec![
        vec![timing(0, 1_000_000_000, "pau")],
        vec![timing(1_000_000_000, 1_200_000_000, "ky"), timing(1_200_000_000, 1_500_000_000, "a")],
        vec![timing(1_500_000_000, 2_500_000_000, "pau")],
    ];
    let merged: Vec<TimingLabel> = groups.iter().flatten().cloned().collect();
    let answer = build_note_phonemes(&groups, &merged, 1_000_000_000);
    assert_eq!(
        answer,
        vec![NotePhonemes {
            note_index: 0,
            phonemes: vec![
                SynthesizedPhoneme { symbol: "ky".to_string(), start_time_ns: 0, end_time_ns: 200_000_000 },
                SynthesizedPhoneme {
                    symbol: "a".to_string(),
                    start_time_ns: 200_000_000,
                    end_time_ns: 500_000_000
                },
            ],
        }]
    );
    // Merged timings that run out leave the later notes short.
    let answer = build_note_phonemes(&groups, &merged[..2], 0);
    assert_eq!(answer.len(), 1);
    assert_eq!(answer[0].phonemes.len(), 1);
    assert_eq!(answer[0].phonemes[0].symbol, "ky");
    assert_eq!(build_note_phonemes(&groups[..2], &merged, 0), vec![]);
    assert_eq!(build_note_phonemes(&[], &merged, 0), vec![]);
}

#[test]
fn kana_chain_gives_two_phonemes_within_the_note() {
    let notes = kya_task();
    let score = task_notes_to_score(&notes).unwrap();
    let offset = synthesis_offset_ns(&score, &notes).unwrap();
    assert_eq!(offset, 1_000_000_000);
    let labels = compose_labels_from_score(&score).unwrap();
    // The backend is played by the label file itself: every phoneme with
    // the times that the score gives it.
    let replay: Vec<TimingLabel> = labels
        .iter()
        .map(|l| TimingLabel {
            start_time_ns: l.start_time_ns / 100 * 100,
            end_time_ns: l.end_time_ns / 100 * 100,
            phoneme: l.label.phoneme.phoneme_id_current.as_str().to_string(),
        })
        .collect();
    let file = format_timing_file(&replay);
    let timings = parse_timing_label_file(&file).unwrap();
    assert_eq!(timings, replay);
    let groups = map_phonemes_to_notes(&score, &timings).unwrap();
    let merged = merge_phonemes_with_payload(&notes, &groups, offset);
    assert_eq!(merged.len(), 4);
    let answer = build_note_phonemes(&groups, &merged, offset);
    assert_eq!(answer.len(), 1);
    assert_eq!(answer[0].note_index, 0);
    let phonemes = &answer[0].phonemes;
    assert_eq!(phonemes.len(), 2);
    assert_eq!(phonemes[0].symbol, "ky");
    assert_eq!(phonemes[1].symbol, "a");
    assert_eq!(phonemes[0].start_time_ns, 0);
    assert_eq!(phonemes[0].end_time_ns, phonemes[1].start_time_ns);
    assert_eq!(phonemes[1].end_time_ns, 500_000_000);
    assert!(phonemes[0].start_time_ns < phonemes[0].end_time_ns);
    // The answer counts the phonemes of the caller's notes, not the
    // silent notes around them.
    let counts: Vec<usize> = answer.iter().map(|n| n.phonemes.len()).collect();
    assert_eq!(phoneme_count(&counts), Some(2));
}

#[test]
fn answer_phonemes_lie_in_their_notes() {
    // Three notes on the caller's own time base; the lyrics decide.
    let notes: Vec<SynthesisNote> = [(-250_000_000i64, 0i64, "キャ"), (0, 333_333_300, "ン"), (400_000_000, 1_000_000_000, "ヴァ")]
        .iter()
        .map(|(start, end, lyric)| SynthesisNote {
            start_time_ns: *start,
            end_time_ns: *end,
            pitch: 60,
            lyric: lyric.to_string(),
            phonemes: vec![],
        })
        .collect();
    let score = task_notes_to_score(&notes).unwrap();
    let offset = synthesis_offset_ns(&score, &notes).unwrap();
    assert_eq!(offset, 1_250_000_000);
    let labels = compose_labels_from_score(&score).unwrap();
    let replay: Vec<TimingLabel> = labels
        .iter()
        .map(|l| TimingLabel {
            start_time_ns: l.start_time_ns / 100 * 100,
            end_time_ns: l.end_time_ns / 100 * 100,
            phoneme: l.label.phoneme.phoneme_id_current.as_str().to_string(),
        })
        .collect();
    let groups = map_phonemes_to_notes(&score, &replay).unwrap();
    let merged = merge_phonemes_with_payload(&notes, &groups, offset);
    assert_eq!(merged, replay);
    let answer = build_note_phonemes(&groups, &merged, offset);
    assert_eq!(answer.len(), 3);
    let symbols: Vec<Vec<&str>> = answer
        .iter()
        .map(|n| n.phonemes.iter().map(|p| p.symbol.as_str()).collect())
        .collect();
    assert_eq!(symbols, vec![vec!["ky", "a"], vec!["N"], vec!["v", "a"]]);
    for (i, note) in answer.iter().enumerate() {
        assert_eq!(note.note_index, i);
        let first = note.phonemes.first().unwrap();
        let last = note.phonemes.last().unwrap();
        // Whole units of a label file, and lengths in 1/24 ms: within a
        // tenth of a millisecond of the caller's note.
        assert!((first.start_time_ns - notes[i].start_time_ns).abs() < 100_000);
        assert!((last.end_time_ns - notes[i].end_time_ns).abs() < 100_000);
        for pair in note.phonemes.windows(2) {
            assert_eq!(pair[0].end_time_ns, pair[1].start_time_ns);
        }
        for p in note.phonemes.iter() {
            assert!(first.start_time_ns <= p.start_time_ns);
            assert!(p.start_time_ns <= p.end_time_ns);
            assert!(p.end_time_ns <= last.end_time_ns);
        }
    }
    assert_eq!(answer[0].phonemes[0].start_time_ns, -250_000_000);
    assert_eq!(answer[2].phonemes[1].end_time_ns, 1_000_000_000);
}

#[test]
fn single_quarter_note_keeps_its_time_range() {
    let notes = vec![SynthesisNote {
        start_time_ns: 0,
        end_time_ns: 500_000_000,
        pitch: 69,
        lyric: "ア".to_string(),
        phonemes: vec![],
    }];
    let score = task_notes_to_score(&notes).unwrap();
    let offset = synthesis_offset_ns(&score, &notes).unwrap();
    let labels = compose_labels_from_score(&score).unwrap();
    let replay: Vec<TimingLabel> = labels
        .iter()
        .map(|l| TimingLabel {
            start_time_ns: l.start_time_ns,
            end_time_ns: l.end_time_ns,
            phoneme: l.label.phoneme.phoneme_id_current.as_str().to_string(),
        })
        .collect();
    let groups = map_phonemes_to_notes(&score, &replay).unwrap();
    let merged = merge_phonemes_with_payload(&notes, &groups, offset);
    assert_eq!(merged.len(), 3);
    let answer = build_note_phonemes(&groups, &merged, offset);
    assert_eq!(
        answer,
        vec![NotePhonemes {
            note_index: 0,
            phonemes: vec![SynthesizedPhoneme {
                symbol: "a".to_string(),
                start_time_ns: 0,
                end_time_ns: 500_000_000
            }],
        }]
    );
}

#[test]
fn label_files_hold_one_line_for_each_label() {
    let score = task_notes_to_score(&kya_task()).unwrap();
    let labels = compose_labels_from_score(&score).unwrap();
    let file = format_label_file(&labels);
    let lines: Vec<&str> = file.lines().collect();
    assert_eq!(lines.len(), 4);
    assert!(file.ends_with('\n'));
    assert!(lines[0].starts_with("0 10000000 pau@xx^xx-pau+ky=a_"));
    assert!(lines[1].starts_with("10000000 12500000 ky@xx^pau-ky+a=pau_"));
    assert!(lines[2].starts_with("12500000 15000000 a@pau^ky-a+pau=xx_"));
    assert!(lines[3].starts_with("15000000 25000000 pau@ky^a-pau+xx=xx_"));
    assert_eq!(lines[1], format!("10000000 12500000 {}", labels[1].label.to_line()));
    assert_eq!(
        format_timing_file(&[timing(199, 250, "a"), timing(300, 99, "b")]),
        "1 2 a\n3 0 b\n"
    );
    assert_eq!(format_timing_file(&[]), "");
}

#[test]
fn flat_runs_of_the_pitch_trace_keep_their_ends() {
    // Pitches 5 5 5 5 7 7 - 7 7 7, the seventh frame without a pitch.
    let finite = [true, true, true, true, true, true, false, true, true, true];
    let equals_next = [true, true, true, false, true, false, false, true, true];
    let mask = pitch_skip_mask(&finite, &equals_next);
    assert_eq!(
        mask,
        vec![false, true, true, false, false, false, true, false, true, false]
    );
    assert_eq!(pitch_skip_mask(&[], &[]), Vec::<bool>::new());
    assert_eq!(pitch_skip_mask(&[true], &[]), vec![false]);
    assert_eq!(pitch_skip_mask(&[false, false], &[true]), vec![true, true]);
    assert_eq!(pitch_skip_mask(&[true, true, true], &[true, true]), vec![false, true, false]);
}

#[test]
fn synthesis_offset_needs_notes() {
    let notes = kya_task();
    let score = task_notes_to_score(&notes).unwrap();
    assert_eq!(synthesis_offset_ns(&score, &[]), None);
    let late = vec![SynthesisNote {
        start_time_ns: 2_500_000_000,
        end_time_ns: 3_000_000_000,
        pitch: 60,
        lyric: "ア".to_string(),
        phonemes: vec![],
    }];
    let score = task_notes_to_score(&late).unwrap();
    assert_eq!(synthesis_offset_ns(&score, &late), Some(-1_500_000_000));
}

#[test]
fn voices_are_described() {
    let voice = VoiceSource::describe(
        "MERROW",
        Some(SpeakerInfo {
            name: "Merrow".to_string(),
            gender: "female".to_string(),
            language: "Japanese".to_string(),
        }),
    );
    assert_eq!(voice.id(), "MERROW");
    assert_eq!(voice.name(), "Merrow");
    assert_eq!(voice.description(), "Gender=female, Language=Japanese");
    let voice = VoiceSource::describe("KIRITAN", None);
    assert_eq!(voice.id(), "KIRITAN");
    assert_eq!(voice.name(), "KIRITAN");
    assert_eq!(voice.description(), "No info.toml found");
}

#[test]
fn totals_of_a_task() {
    assert_eq!(default_sample_rate(), 44_100);
    assert_eq!(property_count(2, &[1, 0, 3]), Some(6));
    assert_eq!(property_count(0, &[]), Some(0));
    assert_eq!(property_count(1, &[usize::MAX]), None);
    assert_eq!(phoneme_count(&[2, 1, 2]), Some(5));
    assert_eq!(phoneme_count(&[usize::MAX, 0]), Some(usize::MAX));
    assert_eq!(phoneme_count(&[usize::MAX, 1]), None);
}

#[test]
fn a_curve_over_one_second_draws_a_hundred_frames() {
    // 99.84 frames in a second: frames 0 to 99.
    assert_eq!(segment_frames(true, true, 0, 1_000_000_000, 0, 100), Some((0, 99)));
    assert_eq!(segment_frames(true, true, 0, 1_000_000_000, 0, 1000), Some((0, 99)));
    // Frame 100 is at 1.0016 s.
    assert_eq!(segment_frames(true, true, 0, 1_001_602_564, 0, 1000), Some((0, 99)));
    assert_eq!(segment_frames(true, true, 0, 1_001_602_565, 0, 1000), Some((0, 100)));
    // The trace of the synthesis starts a second before the caller's time.
    assert_eq!(
        segment_frames(true, true, 0, 500_000_000, 1_000_000_000, 1000),
        Some((100, 149))
    );
    // Frames beyond the trace, and before it, are not drawn.
    assert_eq!(segment_frames(true, true, 0, 2_000_000_000, 0, 100), Some((0, 99)));
    assert_eq!(segment_frames(true, true, -500_000_000, 125_000_000, 0, 100), Some((0, 12)));
    assert_eq!(segment_frames(true, true, -1_000_000_000, -500_000_000, 0, 100), None);
    assert_eq!(segment_frames(true, true, 3_000_000_000, 4_000_000_000, 0, 100), None);
    assert_eq!(segment_frames(true, true, 0, 1_000_000_000, 0, 0), None);
}

#[test]
fn a_short_segment_draws_the_nearest_frame() {
    // From 1 ms to 2 ms there is no frame: the middle is nearest to frame 0.
    assert_eq!(segment_frames(true, true, 1_000_000, 2_000_000, 0, 100), Some((0, 0)));
    // Between frames 1 and 2, nearer to frame 2 (at 20.03 ms).
    assert_eq!(segment_frames(true, true, 17_000_000, 19_000_000, 0, 100), Some((2, 2)));
    assert_eq!(segment_frames(true, true, 11_000_000, 13_000_000, 0, 100), Some((1, 1)));
    // Just before the trace: nearest to frame -1, which is not there.
    assert_eq!(segment_frames(true, true, -9_000_000, -8_000_000, 0, 100), None);
    assert_eq!(segment_frames(true, true, -3_000_000, -1_000_000, 0, 100), Some((0, 0)));
}

#[test]
fn a_segment_without_a_pitch_or_a_span_draws_nothing() {
    assert_eq!(segment_frames(false, true, 0, 1_000_000_000, 0, 100), None);
    assert_eq!(segment_frames(true, false, 0, 1_000_000_000, 0, 100), None);
    assert_eq!(segment_frames(false, false, 0, 1_000_000_000, 0, 100), None);
    assert_eq!(segment_frames(true, true, 5, 5, 0, 100), None);
    assert_eq!(segment_frames(true, true, 1_000_000_000, 0, 0, 100), None);
    assert_eq!(
        segment_frames(true, true, i64::MIN, i64::MAX, i64::MAX, 100),
        Some((0, 99))
    );
}

#[test]
fn pitch_file_holds_four_bytes_for_each_frame() {
    // 440.0 as a 32-bit float is 0x43dc0000, written least byte first.
    let a4 = 440.0f32.to_bits();
    assert_eq!(a4, 0x43dc_0000);
    assert_eq!(f0_bytes(&[a4, 0, 0x0102_0304]), vec![0, 0, 0xdc, 0x43, 0, 0, 0, 0, 4, 3, 2, 1]);
    assert_eq!(f0_words(&[0, 0, 0xdc, 0x43, 0, 0, 0, 0, 4, 3, 2, 1]), vec![a4, 0, 0x0102_0304]);
    // Bytes after the last whole frame are left out.
    assert_eq!(f0_words(&[0, 0, 0xdc, 0x43, 9, 9, 9]), vec![a4]);
    assert_eq!(f0_words(&[1, 2, 3]), Vec::<u32>::new());
    assert_eq!(f0_bytes(&[]), Vec::<u8>::new());
    let frames: Vec<u32> = [0.0f32, 261.63, f32::NAN, -1.5, f32::INFINITY]
        .iter()
        .map(|f| f.to_bits())
        .collect();
    let bytes = f0_bytes(&frames);
    let flat: Vec<u8> = [0.0f32, 261.63, f32::NAN, -1.5, f32::INFINITY]
        .iter()
        .flat_map(|f| f.to_le_bytes())
        .collect();
    assert_eq!(bytes, flat);
    assert_eq!(f0_words(&bytes), frames);
    assert_eq!(f0_words(&f0_bytes(&[u32::MAX, 1, 0xffff_fffe])), vec![u32::MAX, 1, 0xffff_fffe]);
}
