//! The options of the command line, and what one option implies for another.

use vstd::prelude::*;

verus! {

/// `std::path::PathBuf`: a path of the file system, carried through as it is.
#[verifier::external_type_specification]
#[verifier::external_body]
pub struct ExPathBuf(std::path::PathBuf);

/// `Clone::clone` of `std::path::PathBuf`: the copy is the same path.
pub assume_specification[ <std::path::PathBuf as Clone>::clone ](
    path: &std::path::PathBuf,
) -> (copy: std::path::PathBuf)
    ensures
        copy == *path,
;

/// The options of the program as a whole.
#[derive(Debug)]
pub struct Args {
    /// The MIDI file to read.
    pub file: std::path::PathBuf,
    /// Where to save the MIDI file that is produced.
    pub output: Option<std::path::PathBuf>,
    /// Whether to play the result at once.
    pub run: bool,
    /// Whether to list the built-in soundfonts.
    pub list: bool,
    /// The built-in soundfont to play with.
    pub sound: String,
    /// A soundfont file to play with in place of a built-in one.
    pub custom_sound: Option<std::path::PathBuf>,
}

impl Args {
    /// Completes the options as they came from the command line: with nowhere to
    /// save the result, the result is played. Nothing else changes.
    pub fn parse(raw: Args) -> (args: Args)
        ensures
            args.run == (raw.run || raw.output is None),
            args.file == raw.file,
            args.output == raw.output,
            args.list == raw.list,
            args.sound == raw.sound,
            args.custom_sound == raw.custom_sound,
    {
        let mut args = raw;
        if args.output.is_none() {
            args.run = true;
        }
        args
    }
}

/// The options of the command that generates a composition.
#[derive(Debug)]
pub struct Generate {
    /// The MIDI file to read.
    pub file: std::path::PathBuf,
    /// Where to save the MIDI file that is produced.
    pub output: Option<std::path::PathBuf>,
    /// Whether to play the result at once.
    pub run: bool,
    /// The built-in soundfont to play with.
    pub sound: String,
    /// A soundfont file to play with in place of a built-in one.
    pub custom_sound: Option<std::path::PathBuf>,
}

impl Clone for Generate {
    fn clone(&self) -> (copy: Generate)
        ensures
            copy == *self,
    {
        Generate {
            file: self.file.clone(),
            output: self.output.clone(),
            run: self.run,
            sound: self.sound.clone(),
            custom_sound: self.custom_sound.clone(),
        }
    }
}

impl Generate {
    /// Settles what one option implies for another: a soundfont file is given to
    /// be heard, so with one the result is played. Nothing else changes.
    pub fn resolve(&mut self)
        ensures
            final(self).run == (old(self).run || old(self).custom_sound is Some),
            final(self).file == old(self).file,
            final(self).output == old(self).output,
            final(self).sound == old(self).sound,
            final(self).custom_sound == old(self).custom_sound,
    {
        if self.custom_sound.is_some() {
            self.run = true;
        }
    }
}

} // verus!
