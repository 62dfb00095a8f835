//! What becomes of a finished composition.

use vstd::prelude::*;
use crate::error::Error;
use crate::model::Smf;
use crate::player::Player;
use crate::soundfont::SoundFont;

verus! {

/// A finished composition, where to save it, and the soundfont to play it with
/// if it is to be played.
#[derive(Debug)]
pub struct Output {
    pub smf: Smf,
    pub output_file: Option<std::path::PathBuf>,
    pub run_with_sound: Option<SoundFont>,
}

impl Output {
    /// Decides whether the composition is played: with a soundfont, the player to
    /// run; without one, nothing.
    pub fn process(self) -> (plan: Result<Option<Player>, Error>)
        ensures
            match self.run_with_sound {
                Some(soundfont) => plan matches Ok(Some(player)) && player.smf() == self.smf
                    && player.soundfont() == soundfont,
                None => plan matches Ok(None),
            },
    {
        match self.run_with_sound {
            Some(soundfont) => {
                let player = Player::new(self.smf, soundfont)?;
                Ok(Some(player))
            },
            None => Ok(None),
        }
    }
}

} // verus!
