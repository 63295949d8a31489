//! The decisions of the three-pass synthesis: how timings are grouped by
//! note and merged with what the caller states, what the backend client is
//! told and when its answer counts as a failure, and the texts of the
//! label files. Running the backend and moving files is left to the
//! caller.

use vstd::prelude::*;
use crate::neutrino_label::{append_str, line_of};
use crate::neutrino_score::{
    clamp_u64, notes_view, phonemes_upto,
    total_phonemes, NoteView, Score, TimedLabel,
};
use crate::synthesizer::{
    task_notes_view, timings_view, SynthesisNote, SynthesisNoteView, TimingLabel, TimingLabelView,
};
use crate::text::{concat, contains_seq, decimal, str_contains, u64_to_string};

verus! {

/// Why a synthesis stops.
#[derive(Debug, PartialEq, Eq)]
pub enum EngineError {
    /// The caller had cancelled before the first pass.
    Cancelled,
    /// The backend timed fewer phonemes than the score has; the note that
    /// starts at `note_start_time_ns` is the first to go short.
    NotEnoughTimingLabels { note_start_time_ns: u64 },
    /// The backend client failed, with what it printed.
    Client(String),
}

/// What an `EngineError` says.
pub enum EngineErrorView {
    Cancelled,
    NotEnoughTimingLabels { note_start_time_ns: u64 },
    Client(Seq<char>),
}

impl View for EngineError {
    type V = EngineErrorView;

    open spec fn view(&self) -> EngineErrorView {
        match self {
            EngineError::Cancelled => EngineErrorView::Cancelled,
            EngineError::NotEnoughTimingLabels {
                note_start_time_ns,
            } => EngineErrorView::NotEnoughTimingLabels { note_start_time_ns: *note_start_time_ns },
            EngineError::Client(m) => EngineErrorView::Client(m@),
        }
    }
}

/// The text of an error.
pub open spec fn engine_error_text(e: EngineErrorView) -> Seq<char> {
    match e {
        EngineErrorView::Cancelled => "Synthesis cancelled"@,
        EngineErrorView::NotEnoughTimingLabels {
            note_start_time_ns,
        } => "Not enough timing labels for the number of phonemes in the score. Note start time: "@
            + decimal(note_start_time_ns as nat) + " ns"@,
        EngineErrorView::Client(m) => "Neutrino client error: "@ + m,
    }
}

impl EngineError {
    /// The error as one line of text.
    pub fn message(&self) -> (r: String)
        ensures
            r@ == engine_error_text(self@),
    {
        match self {
            EngineError::Cancelled => "Synthesis cancelled".to_owned(),
            EngineError::NotEnoughTimingLabels { note_start_time_ns } => {
                let n = u64_to_string(*note_start_time_ns);
                let left = concat(
                    "Not enough timing labels for the number of phonemes in the score. Note start time: ",
                    n.as_str(),
                );
                concat(left.as_str(), " ns")
            },
            EngineError::Client(m) => concat("Neutrino client error: ", m.as_str()),
        }
    }
}

// ---------------------------------------------------------------------
// The order of the passes
// ---------------------------------------------------------------------

/// One run of the backend.
#[derive(Debug, Clone, Copy, PartialEq, Eq, Structural)]
pub enum Pass {
    /// Phoneme timings from the score.
    Timing,
    /// The pitch trace, with the timings fixed.
    F0,
    /// The audio, with timings and pitch trace fixed.
    Waveform,
}

/// The first pass of a synthesis, unless the caller has cancelled: the
/// token is looked at once, before anything runs.
pub fn first_pass(cancelled: bool) -> (r: Result<Pass, EngineError>)
    ensures
        cancelled ==> r == Err::<Pass, EngineError>(EngineError::Cancelled),
        !cancelled ==> r == Ok::<Pass, EngineError>(Pass::Timing),
{
    if cancelled {
        Err(EngineError::Cancelled)
    } else {
        Ok(Pass::Timing)
    }
}

/// The pass that follows `pass`: timing, then pitch, then audio, then
/// nothing.
pub fn pass_after(pass: Pass) -> (r: Option<Pass>)
    ensures
        r == match pass {
            Pass::Timing => Some(Pass::F0),
            Pass::F0 => Some(Pass::Waveform),
            Pass::Waveform => None,
        },
{
    match pass {
        Pass::Timing => Some(Pass::F0),
        Pass::F0 => Some(Pass::Waveform),
        Pass::Waveform => None,
    }
}

/// What to do about the backend server before the client runs.
#[derive(Debug, Clone, Copy, PartialEq, Eq, Structural)]
pub enum ServerAction {
    /// A server that still runs is used again.
    Reuse,
    /// Else one is started.
    Spawn,
}

/// What to do about the server, given whether one was started and still
/// runs.
pub fn server_action(running: bool) -> (r: ServerAction)
    ensures
        r == if running {
            ServerAction::Reuse
        } else {
            ServerAction::Spawn
        },
{
    if running {
        ServerAction::Reuse
    } else {
        ServerAction::Spawn
    }
}

/// Whether the server has to be killed after it was asked to shut down:
/// only where the request failed and there is a server.
pub fn must_kill_server(request_succeeded: bool, has_server: bool) -> (r: bool)
    ensures
        r == (!request_succeeded && has_server),
{
    !request_succeeded && has_server
}

// ---------------------------------------------------------------------
// The backend client
// ---------------------------------------------------------------------

/// The files of one pass.
#[derive(Debug, PartialEq, Eq)]
pub struct PassFiles {
    /// The labels of the score, read by the backend.
    pub label_in: String,
    /// The timing labels: written in the timing pass, read in the others.
    pub label_out: String,
    /// The pitch trace: written in the pitch pass, read in the audio pass.
    pub f0: String,
    pub melspec: String,
    /// The audio, written in the audio pass.
    pub wav_out: String,
}

/// The flags that tell the backend what not to compute in `pass`.
pub open spec fn skip_flags(pass: Pass) -> Seq<Seq<char>> {
    match pass {
        Pass::Timing => seq!["--skip-melspec"@, "--skip-f0"@, "--skip-wav"@],
        Pass::F0 => seq!["--skip-timing"@, "--skip-melspec"@, "--skip-wav"@],
        Pass::Waveform => seq!["--skip-timing"@, "--skip-f0"@],
    }
}

/// The arguments of the backend client for `pass`: the five files and the
/// model directory, `-n` with the number of cores, `-m`, `-t`, and the skip
/// flags of the pass.
pub open spec fn client_arguments_spec(
    files: PassFiles,
    model_dir: Seq<char>,
    cores: nat,
    pass: Pass,
) -> Seq<Seq<char>> {
    seq![
        files.label_in@,
        files.label_out@,
        files.f0@,
        files.melspec@,
        files.wav_out@,
        model_dir,
        "-n"@,
        decimal(cores),
        "-m"@,
        "-t"@,
    ] + skip_flags(pass)
}

/// The texts of the strings `v`.
pub open spec fn args_view(v: Seq<String>) -> Seq<Seq<char>> {
    Seq::new(v.len(), |i: int| v[i]@)
}

/// Appends a copy of `text` to `args`.
fn push_arg(args: &mut Vec<String>, text: &str)
    ensures
        args_view(final(args)@) == args_view(old(args)@).push(text@),
{
    args.push(text.to_owned());
    assert(args_view(args@) =~= args_view(old(args)@).push(text@));
}

/// The arguments of the backend client for `pass`.
pub fn client_arguments(files: &PassFiles, model_dir: &str, cores: usize, pass: Pass) -> (args: Vec<
    String,
>)
    ensures
        args_view(args@) == client_arguments_spec(*files, model_dir@, cores as nat, pass),
{
    let mut args: Vec<String> = Vec::new();
    assert(args_view(args@) =~= Seq::<Seq<char>>::empty());
    push_arg(&mut args, files.label_in.as_str());
    push_arg(&mut args, files.label_out.as_str());
    push_arg(&mut args, files.f0.as_str());
    push_arg(&mut args, files.melspec.as_str());
    push_arg(&mut args, files.wav_out.as_str());
    push_arg(&mut args, model_dir);
    push_arg(&mut args, "-n");
    let n = u64_to_string(cores as u64);
    push_arg(&mut args, n.as_str());
    push_arg(&mut args, "-m");
    push_arg(&mut args, "-t");
    match pass {
        Pass::Timing => {
            push_arg(&mut args, "--skip-melspec");
            push_arg(&mut args, "--skip-f0");
            push_arg(&mut args, "--skip-wav");
        },
        Pass::F0 => {
            push_arg(&mut args, "--skip-timing");
            push_arg(&mut args, "--skip-melspec");
            push_arg(&mut args, "--skip-wav");
        },
        Pass::Waveform => {
            push_arg(&mut args, "--skip-timing");
            push_arg(&mut args, "--skip-f0");
        },
    }
    assert(args_view(args@) =~= client_arguments_spec(*files, model_dir@, cores as nat, pass));
    args
}

/// Taken on trust: `num_cpus::get`, the number of logical cores that this
/// machine offers. Nothing is claimed of the number: it depends on the
/// machine and may change from call to call.
#[verifier::external_body]
fn logical_cores() -> (n: usize) {
    num_cpus::get()
}

/// The arguments of the backend client for `pass` on this machine: the
/// backend is told to use all logical cores, however many there are.
pub fn client_arguments_here(files: &PassFiles, model_dir: &str, pass: Pass) -> (args: Vec<String>)
    ensures
        exists|cores: nat|
            args_view(args@) == #[trigger] client_arguments_spec(*files, model_dir@, cores, pass),
{
    let cores = logical_cores();
    let args = client_arguments(files, model_dir, cores, pass);
    assert(args_view(args@) == client_arguments_spec(*files, model_dir@, cores as nat, pass));
    args
}

/// Whether what the client printed reports a failure: it holds `Error: `
/// or `Recv failed: `.
pub open spec fn reports_failure(stdout: Seq<char>) -> bool {
    contains_seq(stdout, "Error: "@) || contains_seq(stdout, "Recv failed: "@)
}

/// What a run of the client comes to. A run that ended well and printed no
/// failure gives what it printed. A run that ended well but printed a
/// failure fails with what it printed; a run that ended badly fails with
/// what it printed as errors.
pub fn judge_client_run(exit_success: bool, stdout: &str, stderr: &str) -> (r: Result<
    String,
    EngineError,
>)
    ensures
        match r {
            Ok(out) => exit_success && !reports_failure(stdout@) && out@ == stdout@,
            Err(e) => e@ == EngineErrorView::Client(
                if exit_success {
                    stdout@
                } else {
                    stderr@
                },
            ) && (!exit_success || reports_failure(stdout@)),
        },
{
    if exit_success {
        if str_contains(stdout, "Error: ") || str_contains(stdout, "Recv failed: ") {
            Err(EngineError::Client(stdout.to_owned()))
        } else {
            Ok(stdout.to_owned())
        }
    } else {
        Err(EngineError::Client(stderr.to_owned()))
    }
}

// ---------------------------------------------------------------------
// Timings by note
// ---------------------------------------------------------------------

/// The views of groups of timing labels.
pub open spec fn groups_view(groups: Seq<Vec<TimingLabel>>) -> Seq<Seq<TimingLabelView>> {
    Seq::new(groups.len(), |i: int| timings_view(groups[i]@))
}

/// The timing labels of note `i`: as many as the note has phonemes, after
/// those of the notes before it.
pub open spec fn note_timings(
    notes: Seq<NoteView>,
    timings: Seq<TimingLabelView>,
    i: int,
) -> Seq<TimingLabelView> {
    timings.subrange(phonemes_upto(notes, i), phonemes_upto(notes, i + 1))
}

/// Whether note `i` is the first whose phonemes the timings do not cover.
pub open spec fn first_short_note(notes: Seq<NoteView>, available: int, i: int) -> bool {
    0 <= i < notes.len() && phonemes_upto(notes, i) <= available < phonemes_upto(notes, i + 1)
}

/// A copy of the timing labels `timings[from..to]`.
fn copy_timings(timings: &[TimingLabel], from: usize, to: usize) -> (r: Vec<TimingLabel>)
    requires
        from <= to <= timings.len(),
    ensures
        timings_view(r@) == timings_view(timings@).subrange(from as int, to as int),
{
    let mut r: Vec<TimingLabel> = Vec::new();
    let mut i: usize = from;
    while i < to
        invariant
            from <= i <= to <= timings.len(),
            r.len() == i - from,
            forall|j: int| 0 <= j < i - from ==> (#[trigger] r@[j])@ == timings@[from + j]@,
        decreases to - i,
    {
        r.push(timings[i].clone());
        i += 1;
    }
    assert(timings_view(r@) =~= timings_view(timings@).subrange(from as int, to as int));
    r
}

/// The timing labels of the backend, grouped by the notes of the score:
/// each note takes as many labels as it has phonemes, in order. Labels
/// beyond the last phoneme are left out. Where the labels run out, the
/// first note that goes short is reported.
pub fn map_phonemes_to_notes(score: &Score, timings: &[TimingLabel]) -> (r: Result<
    Vec<Vec<TimingLabel>>,
    EngineError,
>)
    ensures
        match r {
            Ok(groups) => {
                &&& total_phonemes(score@.notes) <= timings.len()
                &&& groups.len() == score.notes.len()
                &&& forall|i: int|
                    0 <= i < groups.len() ==> #[trigger] groups_view(groups@)[i] == note_timings(
                        score@.notes,
                        timings_view(timings@),
                        i,
                    )
            },
            Err(e) => exists|i: int|
                first_short_note(score@.notes, timings.len() as int, i) && e@
                    == (EngineErrorView::NotEnoughTimingLabels {
                    note_start_time_ns: score@.notes[i].start_time_ns,
                }),
        },
{
    let ghost nv = score@.notes;
    let ghost tv = timings_view(timings@);
    let mut groups: Vec<Vec<TimingLabel>> = Vec::new();
    let mut taken: usize = 0;
    let mut i: usize = 0;
    while i < score.notes.len()
        invariant
            i <= score.notes.len(),
            nv == notes_view(score.notes@),
            tv == timings_view(timings@),
            taken == phonemes_upto(nv, i as int),
            taken <= timings.len(),
            groups.len() == i,
            forall|j: int|
                0 <= j < i ==> #[trigger] groups_view(groups@)[j] == note_timings(nv, tv, j),
        decreases score.notes.len() - i,
    {
        let note = &score.notes[i];
        assert(nv[i as int] == note@);
        let count = note.phonemes.len();
        if count > timings.len() - taken {
            let e = EngineError::NotEnoughTimingLabels { note_start_time_ns: note.start_time_ns };
            assert(first_short_note(score@.notes, timings.len() as int, i as int) && e@ == (
            EngineErrorView::NotEnoughTimingLabels {
                note_start_time_ns: score@.notes[i as int].start_time_ns,
            }));
            return Err(e);
        }
        let group = copy_timings(timings, taken, taken + count);
        proof {
            let before = groups_view(groups@);
            let after = groups_view(groups@.push(group));
            assert forall|j: int| 0 <= j < i + 1 implies #[trigger] after[j] == note_timings(
                nv,
                tv,
                j,
            ) by {
                if j < i {
                    assert(after[j] == before[j]);
                }
            }
        }
        groups.push(group);
        taken = taken + count;
        i += 1;
    }
    Ok(groups)
}

// ---------------------------------------------------------------------
// Merging with the caller's timings
// ---------------------------------------------------------------------

/// A time of the caller on the time base of the synthesis: `offset_ns`
/// later, and not before zero.
pub open spec fn to_synthesis_time(time_ns: i64, offset_ns: i64) -> u64 {
    clamp_u64(time_ns + offset_ns)
}

/// The timings that the caller states for a note, on the time base of the
/// synthesis.
pub open spec fn declared_timings(note: SynthesisNoteView, offset_ns: i64) -> Seq<TimingLabelView> {
    Seq::new(
        note.phonemes.len(),
        |j: int|
            TimingLabelView {
                start_time_ns: to_synthesis_time(note.phonemes[j].start_time_ns, offset_ns),
                end_time_ns: to_synthesis_time(note.phonemes[j].end_time_ns, offset_ns),
                phoneme: note.phonemes[j].symbol,
            },
    )
}

/// What group `i` adds to the merged timings. The first group belongs to
/// the leading silent note and group `i` to task note `i - 1`; where the
/// backend timed as many phonemes for a task note as the caller states,
/// the caller's timings and symbols stand, else those of the backend.
pub open spec fn merged_part(
    notes: Seq<SynthesisNoteView>,
    groups: Seq<Seq<TimingLabelView>>,
    offset_ns: i64,
    i: int,
) -> Seq<TimingLabelView> {
    if 1 <= i <= notes.len() && notes[i - 1].phonemes.len() == groups[i].len() {
        declared_timings(notes[i - 1], offset_ns)
    } else {
        groups[i]
    }
}

/// What the first `n` groups add up to.
pub open spec fn merged_upto(
    notes: Seq<SynthesisNoteView>,
    groups: Seq<Seq<TimingLabelView>>,
    offset_ns: i64,
    n: int,
) -> Seq<TimingLabelView>
    decreases n,
{
    if n <= 0 {
        Seq::empty()
    } else {
        merged_upto(notes, groups, offset_ns, n - 1) + merged_part(notes, groups, offset_ns, n - 1)
    }
}

/// The number of groups that are merged: one for each task note and the
/// two silent notes, as far as there are groups.
pub open spec fn merged_group_count(note_count: int, group_count: int) -> int {
    if group_count <= note_count + 2 {
        group_count
    } else {
        note_count + 2
    }
}

/// `time_ns` on the time base of the synthesis.
fn shift_to_synthesis(time_ns: i64, offset_ns: i64) -> (r: u64)
    ensures
        r == to_synthesis_time(time_ns, offset_ns),
{
    let t: i128 = time_ns as i128 + offset_ns as i128;
    if t <= 0 {
        0
    } else {
        t as u64
    }
}

/// The timings of the whole score, one for each phoneme: those of the
/// backend for the two silent notes, and for every task note the caller's
/// where the counts agree, else the backend's.
pub fn merge_phonemes_with_payload(
    notes: &[SynthesisNote],
    mapped_phoneme_groups: &[Vec<TimingLabel>],
    offset_ns: i64,
) -> (merged: Vec<TimingLabel>)
    ensures
        timings_view(merged@) == merged_upto(
            task_notes_view(notes@),
            groups_view(mapped_phoneme_groups@),
            offset_ns,
            merged_group_count(notes.len() as int, mapped_phoneme_groups.len() as int),
        ),
{
    let ghost nv = task_notes_view(notes@);
    let ghost gv = groups_view(mapped_phoneme_groups@);
    let group_count: usize = if notes.len() >= usize::MAX - 1 || mapped_phoneme_groups.len()
        <= notes.len() + 2 {
        mapped_phoneme_groups.len()
    } else {
        notes.len() + 2
    };
    let mut merged: Vec<TimingLabel> = Vec::new();
    let mut i: usize = 0;
    assert(timings_view(merged@) =~= merged_upto(nv, gv, offset_ns, 0));
    while i < group_count
        invariant
            i <= group_count <= mapped_phoneme_groups.len(),
            nv == task_notes_view(notes@),
            gv == groups_view(mapped_phoneme_groups@),
            timings_view(merged@) == merged_upto(nv, gv, offset_ns, i as int),
        decreases group_count - i,
    {
        let group = &mapped_phoneme_groups[i];
        assert(gv[i as int] == timings_view(group@));
        let ghost before = timings_view(merged@);
        if i >= 1 && i <= notes.len() && notes[i - 1].phonemes.len() == group.len() {
            let note = &notes[i - 1];
            assert(nv[i - 1] == note@);
            let ghost part = declared_timings(note@, offset_ns);
            let mut j: usize = 0;
            assert(timings_view(merged@) =~= before + part.take(0));
            while j < note.phonemes.len()
                invariant
                    j <= note.phonemes.len(),
                    part == declared_timings(note@, offset_ns),
                    timings_view(merged@) == before + part.take(j as int),
                decreases note.phonemes.len() - j,
            {
                let phoneme = &note.phonemes[j];
                let label = TimingLabel {
                    start_time_ns: shift_to_synthesis(phoneme.start_time_ns, offset_ns),
                    end_time_ns: shift_to_synthesis(phoneme.end_time_ns, offset_ns),
                    phoneme: phoneme.symbol.clone(),
                };
                proof {
                    assert(note@.phonemes[j as int] == phoneme@);
                    assert(part[j as int] == label@);
                    assert(part.take(j + 1) =~= part.take(j as int).push(label@));
                    assert(timings_view(merged@.push(label)) =~= timings_view(merged@).push(
                        label@,
                    ));
                }
                merged.push(label);
                j += 1;
            }
            assert(part.take(note.phonemes.len() as int) =~= part);
        } else {
            let mut j: usize = 0;
            assert(timings_view(merged@) =~= before + timings_view(group@).take(0));
            while j < group.len()
                invariant
                    j <= group.len(),
                    timings_view(merged@) == before + timings_view(group@).take(j as int),
                decreases group.len() - j,
            {
                let label = group[j].clone();
                proof {
                    let g = timings_view(group@);
                    assert(g[j as int] == label@);
                    assert(g.take(j + 1) =~= g.take(j as int).push(label@));
                    assert(timings_view(merged@.push(label)) =~= timings_view(merged@).push(
                        label@,
                    ));
                }
                merged.push(label);
                j += 1;
            }
            assert(timings_view(group@).take(group.len() as int) =~= timings_view(group@));
        }
        i += 1;
    }
    merged
}

// ---------------------------------------------------------------------
// The phonemes of the answer
// ---------------------------------------------------------------------

/// A phoneme of the answer, with its time range on the caller's time base,
/// in nanoseconds.
#[derive(Debug, PartialEq, Eq)]
pub struct SynthesizedPhoneme {
    pub symbol: String,
    pub start_time_ns: i64,
    pub end_time_ns: i64,
}

/// What a `SynthesizedPhoneme` holds.
pub struct SynthesizedPhonemeView {
    pub symbol: Seq<char>,
    pub start_time_ns: i64,
    pub end_time_ns: i64,
}

impl View for SynthesizedPhoneme {
    type V = SynthesizedPhonemeView;

    open spec fn view(&self) -> SynthesizedPhonemeView {
        SynthesizedPhonemeView {
            symbol: self.symbol@,
            start_time_ns: self.start_time_ns,
            end_time_ns: self.end_time_ns,
        }
    }
}

/// The phonemes of one note of the task.
#[derive(Debug, PartialEq, Eq)]
pub struct NotePhonemes {
    pub note_index: usize,
    pub phonemes: Vec<SynthesizedPhoneme>,
}

/// What a `NotePhonemes` holds.
pub struct NotePhonemesView {
    pub note_index: usize,
    pub phonemes: Seq<SynthesizedPhonemeView>,
}

impl View for NotePhonemes {
    type V = NotePhonemesView;

    open spec fn view(&self) -> NotePhonemesView {
        NotePhonemesView {
            note_index: self.note_index,
            phonemes: Seq::new(self.phonemes@.len(), |i: int| self.phonemes@[i]@),
        }
    }
}

/// A time of the synthesis on the caller's time base: `offset_ns`
/// earlier, within what an `i64` holds.
pub open spec fn to_caller_time(time_ns: u64, offset_ns: i64) -> i64 {
    let t = time_ns - offset_ns;
    if t > i64::MAX {
        i64::MAX
    } else if t < i64::MIN {
        i64::MIN
    } else {
        t as i64
    }
}

/// The number of labels in the first `n` groups.
pub open spec fn labels_upto(groups: Seq<Seq<TimingLabelView>>, n: int) -> int
    decreases n,
{
    if n <= 0 {
        0
    } else {
        labels_upto(groups, n - 1) + groups[n - 1].len()
    }
}

/// How many of `available` merged timings the first `n` groups take: each
/// group takes as many as it has labels, as long as there are any.
pub open spec fn taken_upto(groups: Seq<Seq<TimingLabelView>>, available: int, n: int) -> int {
    if labels_upto(groups, n) <= available {
        labels_upto(groups, n)
    } else {
        available
    }
}

/// The phonemes of the answer for group `i`: the merged timings that the
/// group takes, on the caller's time base, for task note `i - 1`.
pub open spec fn note_phonemes_of(
    groups: Seq<Seq<TimingLabelView>>,
    merged: Seq<TimingLabelView>,
    offset_ns: i64,
    i: int,
) -> NotePhonemesView {
    let from = taken_upto(groups, merged.len() as int, i);
    let to = taken_upto(groups, merged.len() as int, i + 1);
    NotePhonemesView {
        note_index: (i - 1) as usize,
        phonemes: Seq::new(
            (to - from) as nat,
            |j: int|
                SynthesizedPhonemeView {
                    symbol: merged[from + j].phoneme,
                    start_time_ns: to_caller_time(merged[from + j].start_time_ns, offset_ns),
                    end_time_ns: to_caller_time(merged[from + j].end_time_ns, offset_ns),
                },
        ),
    }
}

/// The label counts of groups grow with the number of groups.
pub(crate) proof fn lemma_labels_upto_monotonic(groups: Seq<Seq<TimingLabelView>>, m: int, n: int)
    requires
        m <= n,
    ensures
        0 <= labels_upto(groups, m) <= labels_upto(groups, n),
    decreases n,
{
    if n > 0 {
        if m < n {
            lemma_labels_upto_monotonic(groups, m, n - 1);
        } else {
            lemma_labels_upto_monotonic(groups, m - 1, n - 1);
        }
    }
}

/// `time_ns` on the caller's time base.
fn shift_to_caller(time_ns: u64, offset_ns: i64) -> (r: i64)
    ensures
        r == to_caller_time(time_ns, offset_ns),
{
    let t: i128 = time_ns as i128 - offset_ns as i128;
    if t > i64::MAX as i128 {
        i64::MAX
    } else if t < i64::MIN as i128 {
        i64::MIN
    } else {
        t as i64
    }
}

/// The phonemes of the answer, note by note: the merged timings are dealt
/// out to the groups in order, and all groups but the first and the last,
/// which belong to the silent notes, give the phonemes of a task note.
pub fn build_note_phonemes(
    mapped_phoneme_groups: &[Vec<TimingLabel>],
    merged_phonemes: &[TimingLabel],
    offset_ns: i64,
) -> (r: Vec<NotePhonemes>)
    ensures
        mapped_phoneme_groups.len() < 2 ==> r.len() == 0,
        mapped_phoneme_groups.len() >= 2 ==> r.len() == mapped_phoneme_groups.len() - 2,
        forall|k: int|
            0 <= k < r.len() ==> (#[trigger] r@[k])@ == note_phonemes_of(
                groups_view(mapped_phoneme_groups@),
                timings_view(merged_phonemes@),
                offset_ns,
                k + 1,
            ),
{
    let ghost gv = groups_view(mapped_phoneme_groups@);
    let ghost mv = timings_view(merged_phonemes@);
    let n = mapped_phoneme_groups.len();
    let mut r: Vec<NotePhonemes> = Vec::new();
    let mut taken: usize = 0;
    let mut i: usize = 0;
    while i < n
        invariant
            i <= n,
            n == mapped_phoneme_groups.len(),
            gv == groups_view(mapped_phoneme_groups@),
            mv == timings_view(merged_phonemes@),
            taken == taken_upto(gv, mv.len() as int, i as int),
            taken <= merged_phonemes.len(),
            i == 0 ==> r.len() == 0,
            1 <= i <= n - 1 ==> r.len() == i - 1,
            i == n && n >= 2 ==> r.len() == n - 2,
            i == n && n < 2 ==> r.len() == 0,
            forall|k: int|
                0 <= k < r.len() ==> (#[trigger] r@[k])@ == note_phonemes_of(
                    gv,
                    mv,
                    offset_ns,
                    k + 1,
                ),
        decreases n - i,
    {
        let group = &mapped_phoneme_groups[i];
        assert(gv[i as int] == timings_view(group@));
        proof {
            lemma_labels_upto_monotonic(gv, i as int, i + 1);
            lemma_labels_upto_monotonic(gv, 0, i as int);
        }
        let left = merged_phonemes.len() - taken;
        let count = if group.len() <= left {
            group.len()
        } else {
            left
        };
        assert(taken + count == taken_upto(gv, mv.len() as int, i + 1));
        if i >= 1 && i < n - 1 {
            let mut phonemes: Vec<SynthesizedPhoneme> = Vec::new();
            let mut j: usize = 0;
            while j < count
                invariant
                    j <= count,
                    taken + count <= merged_phonemes.len(),
                    mv == timings_view(merged_phonemes@),
                    phonemes.len() == j,
                    forall|k: int|
                        0 <= k < j ==> (#[trigger] phonemes@[k])@ == (SynthesizedPhonemeView {
                            symbol: mv[taken + k].phoneme,
                            start_time_ns: to_caller_time(mv[taken + k].start_time_ns, offset_ns),
                            end_time_ns: to_caller_time(mv[taken + k].end_time_ns, offset_ns),
                        }),
                decreases count - j,
            {
                let p = &merged_phonemes[taken + j];
                assert(mv[taken + j] == p@);
                phonemes.push(
                    SynthesizedPhoneme {
                        symbol: p.phoneme.clone(),
                        start_time_ns: shift_to_caller(p.start_time_ns, offset_ns),
                        end_time_ns: shift_to_caller(p.end_time_ns, offset_ns),
                    },
                );
                j += 1;
            }
            let made = NotePhonemes { note_index: i - 1, phonemes };
            assert(made@.phonemes =~= note_phonemes_of(gv, mv, offset_ns, i as int).phonemes);
            r.push(made);
        }
        taken = taken + count;
        i += 1;
    }
    r
}

// ---------------------------------------------------------------------
// Label files
// ---------------------------------------------------------------------

/// One line of a label file: start and end in units of 100 nanoseconds,
/// cut to whole units, the text, and a line feed.
pub open spec fn label_file_line(start_time_ns: u64, end_time_ns: u64, text: Seq<char>) -> Seq<
    char,
> {
    decimal((start_time_ns / 100) as nat) + seq![' '] + decimal((end_time_ns / 100) as nat)
        + seq![' '] + text + seq!['\n']
}

/// The first `n` lines of the label file of a score.
pub open spec fn label_file_upto(labels: Seq<TimedLabel>, n: int) -> Seq<char>
    decreases n,
{
    if n <= 0 {
        Seq::empty()
    } else {
        label_file_upto(labels, n - 1) + label_file_line(
            labels[n - 1].start_time_ns,
            labels[n - 1].end_time_ns,
            line_of(labels[n - 1].label@),
        )
    }
}

/// The first `n` lines of a timing label file.
pub open spec fn timing_file_upto(timings: Seq<TimingLabelView>, n: int) -> Seq<char>
    decreases n,
{
    if n <= 0 {
        Seq::empty()
    } else {
        timing_file_upto(timings, n - 1) + label_file_line(
            timings[n - 1].start_time_ns,
            timings[n - 1].end_time_ns,
            timings[n - 1].phoneme,
        )
    }
}

/// Appends one line of a label file to `out`.
fn append_label_line(out: &mut String, start_time_ns: u64, end_time_ns: u64, text: &str)
    ensures
        final(out)@ == old(out)@ + label_file_line(start_time_ns, end_time_ns, text@),
{
    let start = u64_to_string(start_time_ns / 100);
    let end = u64_to_string(end_time_ns / 100);
    append_str(out, start.as_str());
    out.push(' ');
    append_str(out, end.as_str());
    out.push(' ');
    append_str(out, text);
    out.push('\n');
    assert(out@ =~= old(out)@ + label_file_line(start_time_ns, end_time_ns, text@));
}

/// The label file of a score for the backend: one line for each label.
pub fn format_label_file(labels: &[TimedLabel]) -> (r: String)
    ensures
        r@ == label_file_upto(labels@, labels.len() as int),
{
    let mut out = String::new();
    let mut i: usize = 0;
    assert(out@ =~= label_file_upto(labels@, 0));
    while i < labels.len()
        invariant
            i <= labels.len(),
            out@ == label_file_upto(labels@, i as int),
        decreases labels.len() - i,
    {
        let label = &labels[i];
        let line = label.label.to_line();
        append_label_line(&mut out, label.start_time_ns, label.end_time_ns, line.as_str());
        i += 1;
    }
    out
}

/// The timing label file for the backend: one line for each timing.
pub fn format_timing_file(timings: &[TimingLabel]) -> (r: String)
    ensures
        r@ == timing_file_upto(timings_view(timings@), timings.len() as int),
{
    let ghost tv = timings_view(timings@);
    let mut out = String::new();
    let mut i: usize = 0;
    assert(out@ =~= timing_file_upto(tv, 0));
    while i < timings.len()
        invariant
            i <= timings.len(),
            tv == timings_view(timings@),
            out@ == timing_file_upto(tv, i as int),
        decreases timings.len() - i,
    {
        let timing = &timings[i];
        assert(tv[i as int] == timing@);
        append_label_line(
            &mut out,
            timing.start_time_ns,
            timing.end_time_ns,
            timing.phoneme.as_str(),
        );
        i += 1;
    }
    out
}

// ---------------------------------------------------------------------
// The pitch trace of the answer
// ---------------------------------------------------------------------

/// Whether frame `k` of a pitch trace is left out of the answer: its pitch
/// is no number, or it equals both its neighbours and the frame after it
/// has a pitch. `equals_next[i]` says whether frame `i` has the pitch of
/// frame `i + 1`. The first and the last frame stay unless they have no
/// pitch.
pub open spec fn frame_skipped(finite: Seq<bool>, equals_next: Seq<bool>, k: int) -> bool {
    !finite[k] || (1 <= k && k + 1 < finite.len() && equals_next[k - 1] && equals_next[k]
        && finite[k + 1])
}

/// For each frame of a pitch trace, whether it is left out of the answer.
pub fn pitch_skip_mask(finite: &[bool], equals_next: &[bool]) -> (skipped: Vec<bool>)
    requires
        equals_next.len() + 1 == finite.len() || (finite.len() == 0 && equals_next.len() == 0),
    ensures
        skipped.len() == finite.len(),
        forall|k: int|
            0 <= k < finite.len() ==> #[trigger] skipped@[k] == frame_skipped(
                finite@,
                equals_next@,
                k,
            ),
{
    let n = finite.len();
    let mut skipped: Vec<bool> = Vec::new();
    let mut k: usize = 0;
    while k < n
        invariant
            k <= n,
            n == finite.len(),
            equals_next.len() + 1 == n || (n == 0 && equals_next.len() == 0),
            skipped.len() == k,
            forall|j: int|
                0 <= j < k ==> #[trigger] skipped@[j] == frame_skipped(finite@, equals_next@, j),
        decreases n - k,
    {
        let flat = k >= 1 && k + 1 < n && equals_next[k - 1] && equals_next[k] && finite[k + 1];
        skipped.push(!finite[k] || flat);
        k += 1;
    }
    skipped
}

/// How much later a time of the caller is on the time base of the
/// synthesis: the start of the first score note after the leading silent
/// note, less the start of the first task note; `None` where there is no
/// such note.
pub fn synthesis_offset_ns(score: &Score, notes: &[SynthesisNote]) -> (r: Option<i64>)
    ensures
        (score.notes.len() < 2 || notes.len() == 0) ==> r is None,
        (score.notes.len() >= 2 && notes.len() > 0) ==> r == Some(
            to_caller_time(score.notes@[1].start_time_ns, notes@[0].start_time_ns),
        ),
{
    if score.notes.len() < 2 || notes.len() == 0 {
        None
    } else {
        Some(shift_to_caller(score.notes[1].start_time_ns, notes[0].start_time_ns))
    }
}

} // verus!
