//! The decisions of the playback pipeline.
//!
//! Playing a file alternates work that only the audio host, the synthesis engine
//! and the clock can do with decisions about what to do next. The decisions are
//! here: the stages of a playback and what moves it from one to the next, the
//! text of each setup failure, how the output callback walks through a block of
//! rendered samples, and which rendered sample goes to which output channel.

use vstd::prelude::*;
use crate::error::{Error, describe, described};

verus! {

/// Frames in one block of rendered samples.
pub const BLOCK_SIZE: usize = 4096;

/// Milliseconds between two looks at whether the sequence has ended.
pub const POLL_INTERVAL_MS: u64 = 100;

/// Milliseconds given to the device to play what is already queued, once the
/// sequence has ended.
pub const SETTLE_MS: u64 = 500;

/// Where a playback stands.
#[derive(Clone, Copy, Debug, PartialEq, Eq)]
pub enum Stage {
    /// Nothing has been done yet.
    Uninitialized,
    /// The output device and its configuration are known.
    DeviceAcquired,
    /// The soundfont is loaded and the synthesizer exists.
    EngineLoaded,
    /// The sequence is encoded, loaded and set to play from the start, once.
    SequenceLoaded,
    /// The output stream runs and the callback feeds it.
    Streaming,
    /// The sequence has ended; what is queued is left to play out.
    Draining,
    /// Playback is over.
    Complete,
    /// A setup step failed; no sound was produced.
    Aborted,
}

/// What the driver reports back after doing what a stage asks for.
#[derive(Clone, Copy, Debug, PartialEq, Eq)]
pub enum Event {
    /// The work is done.
    Done,
    /// The work failed.
    Failed,
    /// The sequencer was asked whether the sequence has ended, and this is its
    /// answer.
    Polled { end_of_sequence: bool },
}

/// What the driver has to do in a stage.
#[derive(Clone, Copy, Debug, PartialEq, Eq)]
pub enum Action {
    /// Find the default output device and its native configuration.
    AcquireDevice,
    /// Load the soundfont into a synthesizer at the device's sample rate.
    LoadEngine,
    /// Encode the file, load it into the sequencer and start it, not looping.
    LoadSequence,
    /// Register the output callback for the device's sample format and start the
    /// stream.
    StartStream,
    /// Wait, then ask the sequencer whether the sequence has ended.
    Poll { wait_ms: u64 },
    /// Wait for the device to play out what is queued.
    Settle { wait_ms: u64 },
    /// Return to the caller: playback is over, or was never begun.
    Return,
}

impl Stage {
    /// The place of a stage in the order of a playback that succeeds.
    pub open spec fn rank(self) -> nat {
        match self {
            Stage::Uninitialized => 0,
            Stage::DeviceAcquired => 1,
            Stage::EngineLoaded => 2,
            Stage::SequenceLoaded => 3,
            Stage::Streaming => 4,
            Stage::Draining => 5,
            Stage::Complete => 6,
            Stage::Aborted => 7,
        }
    }

    /// Whether the stage is one of the setup steps, before any sound.
    pub open spec fn in_setup(self) -> bool {
        self.rank() <= 3
    }

    /// Whether the output stream has been started.
    pub open spec fn started(self) -> bool {
        4 <= self.rank() <= 6
    }

    /// Whether nothing follows the stage.
    pub open spec fn terminal(self) -> bool {
        self == Stage::Complete || self == Stage::Aborted
    }

    /// The setup stage that follows a setup stage, and streaming after the last.
    pub open spec fn next_step(self) -> Stage {
        match self {
            Stage::Uninitialized => Stage::DeviceAcquired,
            Stage::DeviceAcquired => Stage::EngineLoaded,
            Stage::EngineLoaded => Stage::SequenceLoaded,
            _ => Stage::Streaming,
        }
    }

    /// The stage that follows when `event` is reported. A setup step that is done
    /// leads to the next one, and one that fails aborts. While streaming, only the
    /// end of the sequence leads on, to draining, and draining that is done leads
    /// to completion. An event that means nothing in a stage leaves it as it is.
    pub open spec fn after(self, event: Event) -> Stage {
        if self.in_setup() && event == Event::Done {
            self.next_step()
        } else if self.in_setup() && event == Event::Failed {
            Stage::Aborted
        } else if self == Stage::Streaming && event == (Event::Polled { end_of_sequence: true }) {
            Stage::Draining
        } else if self == Stage::Draining && event == Event::Done {
            Stage::Complete
        } else {
            self
        }
    }

    /// What the driver has to do in the stage.
    pub open spec fn todo(self) -> Action {
        match self {
            Stage::Uninitialized => Action::AcquireDevice,
            Stage::DeviceAcquired => Action::LoadEngine,
            Stage::EngineLoaded => Action::LoadSequence,
            Stage::SequenceLoaded => Action::StartStream,
            Stage::Streaming => Action::Poll { wait_ms: POLL_INTERVAL_MS },
            Stage::Draining => Action::Settle { wait_ms: SETTLE_MS },
            Stage::Complete => Action::Return,
            Stage::Aborted => Action::Return,
        }
    }

    /// The stage in which a playback begins.
    pub fn start() -> (stage: Stage)
        ensures
            stage == Stage::Uninitialized,
    {
        Stage::Uninitialized
    }

    /// The stage that follows when `event` is reported.
    pub fn advance(self, event: Event) -> (next: Stage)
        ensures
            next == self.after(event),
    {
        match (self, event) {
            (Stage::Uninitialized, Event::Done) => Stage::DeviceAcquired,
            (Stage::DeviceAcquired, Event::Done) => Stage::EngineLoaded,
            (Stage::EngineLoaded, Event::Done) => Stage::SequenceLoaded,
            (Stage::SequenceLoaded, Event::Done) => Stage::Streaming,
            (Stage::Uninitialized, Event::Failed) => Stage::Aborted,
            (Stage::DeviceAcquired, Event::Failed) => Stage::Aborted,
            (Stage::EngineLoaded, Event::Failed) => Stage::Aborted,
            (Stage::SequenceLoaded, Event::Failed) => Stage::Aborted,
            (Stage::Streaming, Event::Polled { end_of_sequence: true }) => Stage::Draining,
            (Stage::Draining, Event::Done) => Stage::Complete,
            (stage, _) => stage,
        }
    }

    /// What the driver has to do in the stage.
    pub fn action(self) -> (action: Action)
        ensures
            action == self.todo(),
    {
        match self {
            Stage::Uninitialized => Action::AcquireDevice,
            Stage::DeviceAcquired => Action::LoadEngine,
            Stage::EngineLoaded => Action::LoadSequence,
            Stage::SequenceLoaded => Action::StartStream,
            Stage::Streaming => Action::Poll { wait_ms: POLL_INTERVAL_MS },
            Stage::Draining => Action::Settle { wait_ms: SETTLE_MS },
            Stage::Complete => Action::Return,
            Stage::Aborted => Action::Return,
        }
    }

    /// Whether nothing follows the stage.
    pub fn is_terminal(self) -> (yes: bool)
        ensures
            yes == self.terminal(),
    {
        match self {
            Stage::Complete => true,
            Stage::Aborted => true,
            _ => false,
        }
    }
}

/// The stage reached from `stage` when `events` are reported one after another.
pub open spec fn run(stage: Stage, events: Seq<Event>) -> Stage
    decreases events.len(),
{
    if events.len() == 0 {
        stage
    } else {
        run(stage.after(events[0]), events.drop_first())
    }
}

/// A playback only moves forward: whatever is reported, it stays where it is or
/// goes to a later stage, and a terminal stage is never left.
pub proof fn lemma_forward_only(stage: Stage, events: Seq<Event>)
    ensures
        run(stage, events).rank() >= stage.rank(),
        stage.terminal() ==> run(stage, events) == stage,
    decreases events.len(),
{
    if events.len() > 0 {
        lemma_forward_only(stage.after(events[0]), events.drop_first());
    }
}

/// There is no way back and no cancellation: once the stream has been started,
/// whatever is reported, the playback is streaming, draining or complete.
pub proof fn lemma_no_cancellation(stage: Stage, events: Seq<Event>)
    requires
        stage.started(),
    ensures
        run(stage, events).started(),
    decreases events.len(),
{
    if events.len() > 0 {
        lemma_no_cancellation(stage.after(events[0]), events.drop_first());
    }
}

/// A setup step that fails aborts the playback for good: the stream is never
/// started afterwards, whatever else is reported.
pub proof fn lemma_failure_aborts(stage: Stage, events: Seq<Event>)
    requires
        stage.in_setup(),
    ensures
        run(stage, seq![Event::Failed] + events) == Stage::Aborted,
{
    let all = seq![Event::Failed] + events;
    assert(all[0] == Event::Failed);
    assert(all.drop_first() =~= events);
    lemma_forward_only(Stage::Aborted, events);
}

/// The steps of setting up a playback that can fail.
#[derive(Clone, Copy, Debug, PartialEq, Eq)]
pub enum SetupFailure {
    /// The host has no default output device.
    NoOutputDevice,
    /// The device does not tell its native output configuration.
    OutputConfig,
    /// The synthesis engine refuses the soundfont.
    LoadSoundFont,
    /// The synthesis engine refuses the settings.
    CreateSynthesizer,
    /// The synthesis engine refuses the encoded MIDI.
    ParseMidi,
    /// The device wants samples in a form that cannot be supplied.
    SampleFormat,
    /// The output stream cannot be built.
    BuildStream,
    /// The output stream cannot be started.
    PlayStream,
}

impl SetupFailure {
    /// The words that say which step failed.
    pub open spec fn what(self) -> Seq<char> {
        match self {
            SetupFailure::NoOutputDevice => "No output device available"@,
            SetupFailure::OutputConfig => "Failed to get default output config: "@,
            SetupFailure::LoadSoundFont => "Failed to load soundfont: "@,
            SetupFailure::CreateSynthesizer => "Failed to create synthesizer: "@,
            SetupFailure::ParseMidi => "Failed to parse MIDI: "@,
            SetupFailure::SampleFormat => "Unsupported sample format"@,
            SetupFailure::BuildStream => "Failed to build output stream: "@,
            SetupFailure::PlayStream => "Failed to play stream: "@,
        }
    }

    /// Whether a detail follows the words: it does wherever a cause is known.
    pub open spec fn detailed(self) -> bool {
        self != SetupFailure::NoOutputDevice && self != SetupFailure::SampleFormat
    }

    /// The stage in which the step is taken.
    pub open spec fn stage(self) -> Stage {
        match self {
            SetupFailure::NoOutputDevice => Stage::Uninitialized,
            SetupFailure::OutputConfig => Stage::Uninitialized,
            SetupFailure::LoadSoundFont => Stage::DeviceAcquired,
            SetupFailure::CreateSynthesizer => Stage::DeviceAcquired,
            SetupFailure::ParseMidi => Stage::EngineLoaded,
            SetupFailure::SampleFormat => Stage::SequenceLoaded,
            SetupFailure::BuildStream => Stage::SequenceLoaded,
            SetupFailure::PlayStream => Stage::SequenceLoaded,
        }
    }

    /// The text of the failure, given the detail that came with it.
    pub open spec fn text(self, detail: Seq<char>) -> Seq<char> {
        if self.detailed() {
            described(self.what(), detail)
        } else {
            self.what()
        }
    }

    /// The error that the failure is reported as: a playback error with the text
    /// of the failure. `detail` is what the failing step said, and is left out
    /// where the failure has no cause to name.
    pub fn error(self, detail: &str) -> (error: Error)
        ensures
            error matches Error::AudioPlayback(text) && text@ == self.text(detail@),
    {
        let text = match self {
            SetupFailure::NoOutputDevice => "No output device available".to_owned(),
            SetupFailure::OutputConfig => describe("Failed to get default output config: ", detail),
            SetupFailure::LoadSoundFont => describe("Failed to load soundfont: ", detail),
            SetupFailure::CreateSynthesizer => describe("Failed to create synthesizer: ", detail),
            SetupFailure::ParseMidi => describe("Failed to parse MIDI: ", detail),
            SetupFailure::SampleFormat => "Unsupported sample format".to_owned(),
            SetupFailure::BuildStream => describe("Failed to build output stream: ", detail),
            SetupFailure::PlayStream => describe("Failed to play stream: ", detail),
        };
        Error::AudioPlayback(text)
    }
}

/// Every setup failure belongs to a stage before the stream is started, so
/// reporting it aborts the playback.
pub proof fn lemma_setup_failure_aborts(failure: SetupFailure)
    ensures
        failure.stage().in_setup(),
        failure.stage().after(Event::Failed) == Stage::Aborted,
{
}

/// How a device wants its samples.
#[derive(Clone, Copy, Debug, PartialEq, Eq)]
pub enum SampleFormat {
    /// 32-bit floating point.
    F32,
    /// 16-bit signed integers.
    I16,
    /// 16-bit unsigned integers.
    U16,
    /// Anything else.
    Other,
}

impl SampleFormat {
    /// Whether rendered samples can be supplied in this form.
    pub open spec fn supported(self) -> bool {
        !(self is Other)
    }

    /// Accepts the three forms in which samples can be supplied, and refuses any
    /// other as a setup failure.
    pub fn check(self) -> (checked: Result<(), Error>)
        ensures
            checked is Ok <==> self.supported(),
            checked matches Err(error) ==> (error matches Error::AudioPlayback(text) && text@
                == SetupFailure::SampleFormat.text(Seq::empty())),
    {
        match self {
            SampleFormat::Other => Err(SetupFailure::SampleFormat.error("")),
            _ => Ok(()),
        }
    }
}

/// The rendered sample that an output slot takes.
#[derive(Clone, Copy, Debug, PartialEq, Eq)]
pub enum Source {
    /// The arithmetic mean of the left and the right sample.
    Mean,
    /// The left sample, unchanged.
    Left,
    /// The right sample, unchanged.
    Right,
}

/// What the slot of a frame receives on a device with `channels` channels. A
/// single channel gets the mean of left and right. With two or more, the first
/// gets left, the second right, and the others are not written.
pub open spec fn routed(channels: usize, slot: usize) -> Option<Source> {
    if slot >= channels {
        None
    } else if channels == 1 {
        Some(Source::Mean)
    } else if slot == 0 {
        Some(Source::Left)
    } else if slot == 1 {
        Some(Source::Right)
    } else {
        None
    }
}

/// What the slot of a frame receives on a device with `channels` channels, or
/// `None` where the slot is left as it is.
pub fn route(channels: usize, slot: usize) -> (source: Option<Source>)
    ensures
        source == routed(channels, slot),
        channels == 1 && slot == 0 ==> source == Some(Source::Mean),
        channels >= 2 && slot == 0 ==> source == Some(Source::Left),
        channels >= 2 && slot == 1 ==> source == Some(Source::Right),
        channels >= 2 && slot >= 2 ==> source is None,
{
    if slot >= channels {
        None
    } else if channels == 1 {
        Some(Source::Mean)
    } else if slot == 0 {
        Some(Source::Left)
    } else if slot == 1 {
        Some(Source::Right)
    } else {
        None
    }
}

/// A frame after the callback has written to it: every slot that takes a
/// rendered sample holds it, and every other slot is as it was. `mean` is the
/// arithmetic mean of `left` and `right`.
pub open spec fn framed<T>(before: Seq<T>, channels: usize, left: T, right: T, mean: T) -> Seq<T> {
    Seq::new(
        before.len(),
        |slot: int|
            match routed(channels, slot as usize) {
                Some(Source::Mean) => mean,
                Some(Source::Left) => left,
                Some(Source::Right) => right,
                None => before[slot],
            },
    )
}

/// Writes one sample pair to a frame of a device with `channels` channels. A
/// single channel receives `mean`, which the caller computes as the arithmetic
/// mean of `left` and `right`. With two or more channels the first receives
/// `left` and the second `right`, both unchanged, and the others are not written.
/// A frame may be shorter than `channels`: what it has is written.
pub fn write_frame<T: Copy>(frame: &mut [T], channels: usize, left: T, right: T, mean: T)
    ensures
        final(frame)@ == framed(old(frame)@, channels, left, right, mean),
        channels == 1 && old(frame)@.len() == 1 ==> final(frame)@ == seq![mean],
        channels >= 2 && old(frame)@.len() >= 2 ==> final(frame)@[0] == left && final(frame)@[1]
            == right,
{
    if frame.len() > 0 {
        if channels == 1 {
            frame[0] = mean;
        } else if channels >= 2 {
            frame[0] = left;
            if frame.len() > 1 {
                frame[1] = right;
            }
        }
    }
}

/// The place of the output callback in the current block of rendered samples.
#[derive(Debug)]
pub struct BlockCursor {
    consumed: usize,
}

/// What the callback has to do for one output frame.
#[derive(Clone, Copy, Debug, PartialEq, Eq)]
pub struct FrameStep {
    /// Whether the block is used up, so that a new one has to be rendered first.
    pub refill: bool,
    /// The index, in the block, of the sample pair for this frame.
    pub index: usize,
}

impl BlockCursor {
    #[verifier::type_invariant]
    spec fn bounded(self) -> bool {
        self.consumed <= BLOCK_SIZE
    }

    /// The number of sample pairs of the current block that have been handed
    /// out; never more than `BLOCK_SIZE`.
    pub closed spec fn consumed(self) -> nat {
        self.consumed as nat
    }

    /// A cursor at the start of a block. The first block is the one that the
    /// buffers are created with.
    pub fn new() -> (cursor: BlockCursor)
        ensures
            cursor.consumed() == 0,
    {
        BlockCursor { consumed: 0 }
    }

    /// Hands out the next sample pair. Where the block is used up, a new block has
    /// to be rendered first and its first pair is handed out; otherwise the pair
    /// that follows the last one.
    pub fn next_frame(&mut self) -> (step: FrameStep)
        ensures
            old(self).consumed() <= BLOCK_SIZE,
            step.refill == (old(self).consumed() == BLOCK_SIZE),
            step.index == (if step.refill { 0 } else { old(self).consumed() }),
            step.index < BLOCK_SIZE,
            final(self).consumed() == step.index + 1,
    {
        proof {
            use_type_invariant(&*self);
        }
        let refill = self.consumed == BLOCK_SIZE;
        let index = if refill {
            0
        } else {
            self.consumed
        };
        self.consumed = index + 1;
        FrameStep { refill, index }
    }
}

} // verus!
