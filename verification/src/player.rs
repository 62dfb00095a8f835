//! A file together with the soundfont to play it with.

use vstd::prelude::*;
use crate::bridge::{load_midi_file, midi_refusal, playable_bytes, sequence_outcome};
use crate::encoder::{encode_smf, smf_bytes};
use crate::error::Error;
use crate::model::Smf;
use crate::pipeline::SetupFailure;
use crate::soundfont::SoundFont;

verus! {

/// A file and the soundfont to play it with.
#[derive(Debug)]
pub struct Player {
    smf: Smf,
    soundfont: SoundFont,
}

/// What is said of a file that cannot be handed to the engine.
pub open spec fn not_playable() -> Seq<char> {
    "the event model is not a conformant MIDI file"@
}

impl Player {
    /// The file to play.
    pub closed spec fn smf(&self) -> Smf {
        self.smf
    }

    /// The soundfont to play it with.
    pub closed spec fn soundfont(&self) -> SoundFont {
        self.soundfont
    }

    /// A player for `smf` that renders with `soundfont`.
    pub fn new(smf: Smf, soundfont: SoundFont) -> (made: Result<Player, Error>)
        ensures
            made matches Ok(player) && player.smf() == smf && player.soundfont() == soundfont,
    {
        Ok(Player { smf, soundfont })
    }

    /// The bytes of the soundfont, to load into the synthesis engine. `bundled`
    /// is the payload that the program carries for the built-in piano.
    pub fn soundfont_bytes<'a>(&'a self, bundled: &'a [u8]) -> (bytes: &'a [u8])
        ensures
            bytes@ == match self.soundfont() {
                SoundFont::Piano => bundled@,
                SoundFont::FromFile(data) => data@,
            },
    {
        self.soundfont.get_bytes(bundled)
    }

    /// Encodes the file and loads it with the engine's loader. A file that is not
    /// playable is not handed over, and is reported as a MIDI that failed to
    /// parse. For a playable file the outcome is the loader's: the sequence, or a
    /// playback error with the loader's words.
    pub fn load_sequence(&self) -> (outcome: Result<rustysynth::MidiFile, Error>)
        ensures
            !self.smf()@.playable() ==> (outcome matches Err(Error::AudioPlayback(text)) && text@
                == SetupFailure::ParseMidi.text(not_playable())),
            self.smf()@.playable() ==> match midi_refusal(smf_bytes(self.smf()@)) {
                None => outcome is Ok,
                Some(refusal) => outcome matches Err(Error::AudioPlayback(text)) && text@
                    == SetupFailure::ParseMidi.text(refusal),
            },
    {
        if !self.smf.is_playable() {
            return Err(
                SetupFailure::ParseMidi.error("the event model is not a conformant MIDI file"),
            );
        }
        let bytes = encode_smf(&self.smf);
        assert(playable_bytes(bytes@)) by {
            assert(self.smf@.playable() && bytes@ == smf_bytes(self.smf@));
        }
        sequence_outcome(load_midi_file(&bytes))
    }
}

} // verus!
