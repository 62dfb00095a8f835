//! Standard MIDI File encoding of an in-memory event model, and the decisions of a
//! real-time playback pipeline that feeds rendered sample blocks to an output device.

pub mod args;
pub mod bridge;
pub mod encoder;
pub mod error;
pub mod input;
pub mod model;
pub mod output;
pub mod pipeline;
pub mod player;
pub mod reader;
pub mod soundfont;
pub mod vlq;

pub use args::{Args, Generate};
pub use error::Error;
pub use input::Input;
pub use output::Output;
pub use player::Player;
pub use soundfont::SoundFont;
