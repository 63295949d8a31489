//! The voices of the backend, as the host is told of them.

use vstd::prelude::*;
use crate::text::concat;

verus! {

/// What a voice's `info.toml` says of its speaker.
#[derive(Debug, PartialEq, Eq)]
pub struct SpeakerInfo {
    pub name: String,
    pub gender: String,
    pub language: String,
}

/// One voice: its identifier, the name to show, and a description.
#[derive(Debug, PartialEq, Eq)]
pub struct VoiceSource {
    id: String,
    name: String,
    description: String,
}

/// What a `VoiceSource` holds.
pub struct VoiceSourceView {
    pub id: Seq<char>,
    pub name: Seq<char>,
    pub description: Seq<char>,
}

impl View for VoiceSource {
    type V = VoiceSourceView;

    closed spec fn view(&self) -> VoiceSourceView {
        VoiceSourceView { id: self.id@, name: self.name@, description: self.description@ }
    }
}

/// The voice of the model directory named `directory`: with the speaker's
/// name, gender and language where the directory has an `info.toml`, else
/// under the directory's own name.
pub open spec fn voice_of(directory: Seq<char>, info: Option<SpeakerInfo>) -> VoiceSourceView {
    match info {
        Some(i) => VoiceSourceView {
            id: directory,
            name: i.name@,
            description: "Gender="@ + i.gender@ + ", Language="@ + i.language@,
        },
        None => VoiceSourceView {
            id: directory,
            name: directory,
            description: "No info.toml found"@,
        },
    }
}

impl VoiceSource {
    /// The voice of the model directory named `directory`.
    pub fn describe(directory: &str, info: Option<SpeakerInfo>) -> (r: Self)
        ensures
            r@ == voice_of(directory@, info),
    {
        match info {
            Some(i) => {
                let a = concat("Gender=", i.gender.as_str());
                let b = concat(a.as_str(), ", Language=");
                let description = concat(b.as_str(), i.language.as_str());
                VoiceSource { id: directory.to_owned(), name: i.name, description }
            },
            None => VoiceSource {
                id: directory.to_owned(),
                name: directory.to_owned(),
                description: "No info.toml found".to_owned(),
            },
        }
    }

    /// The identifier: the name of the model directory.
    pub fn id(&self) -> (r: &str)
        ensures
            r@ == self@.id,
    {
        self.id.as_str()
    }

    /// The name to show.
    pub fn name(&self) -> (r: &str)
        ensures
            r@ == self@.name,
    {
        self.name.as_str()
    }

    /// The description.
    pub fn description(&self) -> (r: &str)
        ensures
            r@ == self@.description,
    {
        self.description.as_str()
    }
}

} // verus!
