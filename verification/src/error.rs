//! The library's error type.

use vstd::prelude::*;
use vstd::string::StringExecFns;

verus! {

/// `std::io::Error`: the cause of a failed read, carried through as it is.
#[verifier::external_type_specification]
#[verifier::external_body]
pub struct ExIoError(std::io::Error);

/// What can go wrong between reading an input file and the end of playback.
#[derive(Debug)]
#[non_exhaustive]
pub enum Error {
    /// The input file could not be read.
    ReadInputFile(std::io::Error),
    /// The input file is not a MIDI file that the parser accepts; the text says why.
    ParseInputFile(String),
    /// The soundfont file could not be read.
    ReadSoundFontFile(std::io::Error),
    /// The soundfont file was refused; the text says why.
    ParseSoundFontFile(String),
    /// No built-in soundfont has this name.
    BuiltInSound(String),
    /// Playback could not be set up; the text says which step failed and why.
    AudioPlayback(String),
}

/// A message made of what failed and the detail that came with the failure.
pub open spec fn described(what: Seq<char>, detail: Seq<char>) -> Seq<char> {
    what + detail
}

/// Builds the message for a failure from what failed and the detail.
pub fn describe(what: &str, detail: &str) -> (text: String)
    ensures
        text@ == described(what@, detail@),
{
    let mut text = what.to_owned();
    text.append(detail);
    text
}

impl Error {
    /// What failed, as the opening words of the message.
    pub open spec fn what(&self) -> Seq<char> {
        match self {
            Error::ReadInputFile(_) => "Failed to read input file: "@,
            Error::ParseInputFile(_) => "Failed to parse MIDI file: "@,
            Error::ReadSoundFontFile(_) => "Failed to read sound font file: "@,
            Error::ParseSoundFontFile(_) => "Failed to parse sound font file: "@,
            Error::BuiltInSound(_) => "Unknown built-in sound: "@,
            Error::AudioPlayback(_) => "Audio playback failed: "@,
        }
    }

    /// The message of the error: what failed, then the detail. For the variants
    /// that carry a text the detail is that text; for the others it is what the
    /// underlying error displays.
    pub fn message(&self) -> (text: String)
        ensures
            match self {
                Error::ReadInputFile(cause) => exists|detail: String|
                    #[trigger] vstd::string::to_string_from_display_ensures::<std::io::Error>(
                        cause,
                        detail,
                    ) && text@ == described(self.what(), detail@),
                Error::ParseInputFile(detail) => text@ == described(self.what(), detail@),
                Error::ReadSoundFontFile(cause) => exists|detail: String|
                    #[trigger] vstd::string::to_string_from_display_ensures::<std::io::Error>(
                        cause,
                        detail,
                    ) && text@ == described(self.what(), detail@),
                Error::ParseSoundFontFile(detail) => text@ == described(self.what(), detail@),
                Error::BuiltInSound(detail) => text@ == described(self.what(), detail@),
                Error::AudioPlayback(detail) => text@ == described(self.what(), detail@),
            },
    {
        match self {
            Error::ReadInputFile(cause) => {
                let detail = cause.to_string();
                describe("Failed to read input file: ", detail.as_str())
            },
            Error::ParseInputFile(detail) => describe(
                "Failed to parse MIDI file: ",
                detail.as_str(),
            ),
            Error::ReadSoundFontFile(cause) => {
                let detail = cause.to_string();
                describe("Failed to read sound font file: ", detail.as_str())
            },
            Error::ParseSoundFontFile(detail) => describe(
                "Failed to parse sound font file: ",
                detail.as_str(),
            ),
            Error::BuiltInSound(detail) => describe("Unknown built-in sound: ", detail.as_str()),
            Error::AudioPlayback(detail) => describe("Audio playback failed: ", detail.as_str()),
        }
    }
}

} // verus!
