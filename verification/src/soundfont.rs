//! Where the soundfont bytes for playback come from.

use vstd::prelude::*;
use crate::error::Error;

verus! {

/// A soundfont: the one bundled with the program, or the bytes of a file.
#[derive(Debug)]
pub enum SoundFont {
    /// The bundled piano.
    Piano,
    /// The bytes of a soundfont file, as they were read.
    FromFile(Vec<u8>),
}

impl Default for SoundFont {
    fn default() -> (sound: SoundFont)
        ensures
            sound == SoundFont::Piano,
    {
        SoundFont::Piano
    }
}

impl SoundFont {
    /// Whether `name` names a built-in soundfont: `piano`, or `default` for the
    /// same.
    pub open spec fn built_in(name: Seq<char>) -> bool {
        name == "default"@ || name == "piano"@
    }

    /// The built-in soundfont of that name, or `Error::BuiltInSound` with the name
    /// where there is none.
    pub fn new_from_name(name: &str) -> (found: Result<SoundFont, Error>)
        ensures
            Self::built_in(name@) ==> found == Ok::<SoundFont, Error>(SoundFont::Piano),
            !Self::built_in(name@) ==> (found matches Err(Error::BuiltInSound(text)) && text@
                == name@),
    {
        let wanted = name.to_owned();
        let default = "default".to_owned();
        let piano = "piano".to_owned();
        if wanted == default || wanted == piano {
            Ok(SoundFont::Piano)
        } else {
            Err(Error::BuiltInSound(wanted))
        }
    }

    /// A soundfont made of what reading a soundfont file gave. The bytes are taken
    /// as they are: the synthesis engine is what judges them. A failure to read
    /// the file is `Error::ReadSoundFontFile` with its cause.
    pub fn new_from_file(read: Result<Vec<u8>, std::io::Error>) -> (made: Result<SoundFont, Error>)
        ensures
            match read {
                Ok(bytes) => made == Ok::<SoundFont, Error>(SoundFont::FromFile(bytes)),
                Err(cause) => made == Err::<SoundFont, Error>(Error::ReadSoundFontFile(cause)),
            },
    {
        match read {
            Ok(bytes) => Ok(SoundFont::FromFile(bytes)),
            Err(cause) => Err(Error::ReadSoundFontFile(cause)),
        }
    }

    /// The bytes of the soundfont. `bundled` is the payload that the program
    /// carries for the built-in piano.
    pub fn get_bytes<'a>(&'a self, bundled: &'a [u8]) -> (bytes: &'a [u8])
        ensures
            bytes@ == match self {
                SoundFont::Piano => bundled@,
                SoundFont::FromFile(data) => data@,
            },
    {
        match self {
            SoundFont::Piano => bundled,
            SoundFont::FromFile(data) => data.as_slice(),
        }
    }

    /// The names of the built-in soundfonts.
    pub fn list() -> (names: Vec<String>)
        ensures
            names@.len() == 1,
            names@[0]@ == "piano"@,
    {
        let mut names: Vec<String> = Vec::new();
        names.push("piano".to_owned());
        names
    }
}

} // verus!
