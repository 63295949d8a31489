//! A bridge between a singing-voice editor and a singing synthesis backend
//! that is driven through label files: the model of scores and context
//! labels, and the decisions of the three-pass synthesis.
//!
//! - `neutrino_label`: the context label line and its text codec;
//!   `label_laws`: reading and writing a line undo each other.
//! - `neutrino_score`: notes and scores, the composer from a score to
//!   timed labels and the decomposer back; `score_laws`: the labels of a
//!   score make that score again.
//! - `synthesizer`: the phonemes of a lyric, the timing labels of the
//!   backend, and the score of a synthesis task.
//! - `task_laws`: the phonemes of the answer lie in their note, one after
//!   the other.
//! - `engine`: the order of the passes, the arguments and the verdict of
//!   the backend client, timings by note, and the label files;
//!   `timing_laws`: a timing file is read back as it was written.
//! - `pitch_frames`: the frames of the pitch trace that the caller's pitch
//!   curve draws over.
//! - `speaker`, `synthesize_task`: voices and the totals of a task.
//! - `text`: characters, searching and decimal numerals.
//!
//! Time is counted in whole nanoseconds and tempo in whole beats per
//! minute. Processes, files and floating-point pitch are left to the
//! caller.

pub mod engine;
pub mod label_laws;
pub mod neutrino_label;
pub mod neutrino_score;
pub mod pitch_frames;
pub mod score_laws;
pub mod speaker;
pub mod synthesize_task;
pub mod synthesizer;
pub mod task_laws;
pub mod text;
pub mod timing_laws;
