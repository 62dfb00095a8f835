//! The event model: a file header and ordered tracks of timed events.
//!
//! Integer fields are plain machine integers. The narrower ranges that the file
//! format gives them (four-bit channels, seven-bit data bytes and so on) are stated
//! by the `valid` predicates and are not enforced on construction.

use vstd::prelude::*;
use crate::vlq::VLQ_MAX;

verus! {

/// How the tracks of a file relate to each other.
#[derive(Clone, Copy, Debug, PartialEq, Eq)]
pub enum Format {
    /// One track holding everything.
    SingleTrack,
    /// Several tracks played together.
    Parallel,
    /// Several tracks played one after another.
    Sequential,
}

/// Frame rates of timecode-based timing.
#[derive(Clone, Copy, Debug, PartialEq, Eq)]
pub enum Fps {
    Fps24,
    Fps25,
    Fps29,
    Fps30,
}

/// What a tick means.
#[derive(Clone, Copy, Debug, PartialEq, Eq)]
pub enum Timing {
    /// Ticks per quarter note; fifteen bits.
    Metrical(u16),
    /// Frames per second and ticks per frame.
    Timecode(Fps, u8),
}

/// The file header.
#[derive(Clone, Copy, Debug, PartialEq, Eq)]
pub struct Header {
    pub format: Format,
    pub timing: Timing,
}

/// A channel voice message. Data fields are seven-bit; `bend` is a signed
/// fourteen-bit value centred on zero.
#[derive(Clone, Copy, Debug, PartialEq, Eq)]
pub enum MidiMessage {
    NoteOff { key: u8, vel: u8 },
    NoteOn { key: u8, vel: u8 },
    /// Polyphonic key pressure.
    Aftertouch { key: u8, vel: u8 },
    Controller { controller: u8, value: u8 },
    ProgramChange { program: u8 },
    ChannelAftertouch { vel: u8 },
    PitchBend { bend: i16 },
}

/// A meta event: information for the file, not for the wire.
#[derive(Clone, Debug, PartialEq, Eq)]
pub enum MetaMessage {
    /// Microseconds per quarter note; twenty-four bits.
    Tempo(u32),
    EndOfTrack,
    /// Numerator, denominator as a power of two, clocks per click, 32nd notes per
    /// quarter note.
    TimeSignature(u8, u8, u8, u8),
    /// Sharps (positive) or flats (negative), and whether the key is major.
    KeySignature(i8, bool),
    TrackName(Vec<u8>),
    Text(Vec<u8>),
    Copyright(Vec<u8>),
    /// Any other meta event, by its type code and payload.
    Other(u8, Vec<u8>),
}

/// What an event is, apart from when it happens.
#[derive(Clone, Debug, PartialEq, Eq)]
pub enum TrackEventKind {
    Midi { channel: u8, message: MidiMessage },
    /// System exclusive data, without the leading `0xF0`.
    SysEx(Vec<u8>),
    /// Raw bytes for the device.
    Escape(Vec<u8>),
    Meta(MetaMessage),
}

/// An event and the ticks that separate it from the one before it in its track.
#[derive(Clone, Debug, PartialEq, Eq)]
pub struct TrackEvent {
    pub delta: u32,
    pub kind: TrackEventKind,
}

/// A whole file: header and tracks, each track in playing order.
#[derive(Clone, Debug, PartialEq, Eq)]
pub struct Smf {
    pub header: Header,
    pub tracks: Vec<Vec<TrackEvent>>,
}

/// Mathematical value of a meta event.
pub enum MetaView {
    Tempo(u32),
    EndOfTrack,
    TimeSignature(u8, u8, u8, u8),
    KeySignature(i8, bool),
    TrackName(Seq<u8>),
    Text(Seq<u8>),
    Copyright(Seq<u8>),
    Other(u8, Seq<u8>),
}

/// Mathematical value of an event kind.
pub enum KindView {
    Midi { channel: u8, message: MidiMessage },
    SysEx(Seq<u8>),
    Escape(Seq<u8>),
    Meta(MetaView),
}

/// Mathematical value of an event.
pub struct EventView {
    pub delta: u32,
    pub kind: KindView,
}

/// Mathematical value of a file.
pub struct SmfView {
    pub header: Header,
    pub tracks: Seq<Seq<EventView>>,
}

impl View for MetaMessage {
    type V = MetaView;

    open spec fn view(&self) -> MetaView {
        match self {
            MetaMessage::Tempo(t) => MetaView::Tempo(*t),
            MetaMessage::EndOfTrack => MetaView::EndOfTrack,
            MetaMessage::TimeSignature(n, d, c, b) => MetaView::TimeSignature(*n, *d, *c, *b),
            MetaMessage::KeySignature(k, major) => MetaView::KeySignature(*k, *major),
            MetaMessage::TrackName(data) => MetaView::TrackName(data@),
            MetaMessage::Text(data) => MetaView::Text(data@),
            MetaMessage::Copyright(data) => MetaView::Copyright(data@),
            MetaMessage::Other(code, data) => MetaView::Other(*code, data@),
        }
    }
}

impl View for TrackEventKind {
    type V = KindView;

    open spec fn view(&self) -> KindView {
        match self {
            TrackEventKind::Midi { channel, message } => KindView::Midi {
                channel: *channel,
                message: *message,
            },
            TrackEventKind::SysEx(data) => KindView::SysEx(data@),
            TrackEventKind::Escape(data) => KindView::Escape(data@),
            TrackEventKind::Meta(meta) => KindView::Meta(meta@),
        }
    }
}

impl View for TrackEvent {
    type V = EventView;

    open spec fn view(&self) -> EventView {
        EventView { delta: self.delta, kind: self.kind@ }
    }
}

/// The values of a track's events, in order.
pub open spec fn track_view(events: Seq<TrackEvent>) -> Seq<EventView> {
    Seq::new(events.len(), |i: int| events[i]@)
}

/// The values of a file's tracks, in order.
pub open spec fn tracks_view(tracks: Seq<Vec<TrackEvent>>) -> Seq<Seq<EventView>> {
    Seq::new(tracks.len(), |i: int| track_view(tracks[i]@))
}

impl View for Smf {
    type V = SmfView;

    open spec fn view(&self) -> SmfView {
        SmfView { header: self.header, tracks: tracks_view(self.tracks@) }
    }
}

impl Timing {
    /// Metrical timing keeps the top bit of its sixteen clear.
    pub open spec fn valid(self) -> bool {
        match self {
            Timing::Metrical(ticks) => ticks < 0x8000,
            Timing::Timecode(_, _) => true,
        }
    }
}

impl MidiMessage {
    /// Every data field fits its seven bits, and a bend its fourteen.
    pub open spec fn valid(self) -> bool {
        match self {
            MidiMessage::NoteOff { key, vel } => key < 128 && vel < 128,
            MidiMessage::NoteOn { key, vel } => key < 128 && vel < 128,
            MidiMessage::Aftertouch { key, vel } => key < 128 && vel < 128,
            MidiMessage::Controller { controller, value } => controller < 128 && value < 128,
            MidiMessage::ProgramChange { program } => program < 128,
            MidiMessage::ChannelAftertouch { vel } => vel < 128,
            MidiMessage::PitchBend { bend } => -8192 <= bend <= 8191,
        }
    }
}

impl MetaView {
    /// A tempo fits twenty-four bits and a payload's length fits a four-byte
    /// variable-length quantity.
    pub open spec fn valid(self) -> bool {
        match self {
            MetaView::Tempo(t) => t < 0x100_0000,
            MetaView::TrackName(data) => data.len() <= VLQ_MAX,
            MetaView::Text(data) => data.len() <= VLQ_MAX,
            MetaView::Copyright(data) => data.len() <= VLQ_MAX,
            MetaView::Other(_, data) => data.len() <= VLQ_MAX,
            _ => true,
        }
    }

    /// Whether the encoder writes this event in a form that a reader gives back
    /// unchanged. It drops `Other`, and writes `Copyright` under the code of `Text`.
    pub open spec fn kept(self) -> bool {
        !(self is Other) && !(self is Copyright)
    }
}

impl KindView {
    /// The channel fits four bits and the rest is valid in its own terms.
    pub open spec fn valid(self) -> bool {
        match self {
            KindView::Midi { channel, message } => channel < 16 && message.valid(),
            KindView::SysEx(data) => data.len() <= VLQ_MAX,
            KindView::Escape(data) => data.len() <= VLQ_MAX,
            KindView::Meta(meta) => meta.valid(),
        }
    }

    /// Whether the encoder writes this event in a form that a reader gives back
    /// unchanged.
    pub open spec fn kept(self) -> bool {
        self matches KindView::Meta(meta) ==> meta.kept()
    }
}

impl EventView {
    /// The delta fits a four-byte variable-length quantity and the kind is valid.
    pub open spec fn valid(self) -> bool {
        self.delta <= VLQ_MAX && self.kind.valid()
    }
}

/// Every event of the track is valid.
pub open spec fn track_valid(events: Seq<EventView>) -> bool {
    forall|i: int| 0 <= i < events.len() ==> (#[trigger] events[i]).valid()
}

/// Every event of the track is one the encoder keeps.
pub open spec fn track_kept(events: Seq<EventView>) -> bool {
    forall|i: int| 0 <= i < events.len() ==> (#[trigger] events[i]).kind.kept()
}

/// The track ends with an end-of-track event, as the file format asks.
pub open spec fn track_terminated(events: Seq<EventView>) -> bool {
    events.len() > 0 && events.last().kind == KindView::Meta(MetaView::EndOfTrack)
}

impl SmfView {
    /// Every field of the file is within the range the format gives it.
    pub open spec fn valid(self) -> bool {
        &&& self.header.timing.valid()
        &&& forall|t: int| 0 <= t < self.tracks.len() ==> track_valid(#[trigger] self.tracks[t])
    }

    /// The file holds only events that the encoder keeps.
    pub open spec fn kept(self) -> bool {
        forall|t: int| 0 <= t < self.tracks.len() ==> track_kept(#[trigger] self.tracks[t])
    }
}

impl MidiMessage {
    /// Whether every data field fits its seven bits, and a bend its fourteen.
    pub fn is_valid(&self) -> (ok: bool)
        ensures
            ok == self.valid(),
    {
        match self {
            MidiMessage::NoteOff { key, vel } => *key < 128 && *vel < 128,
            MidiMessage::NoteOn { key, vel } => *key < 128 && *vel < 128,
            MidiMessage::Aftertouch { key, vel } => *key < 128 && *vel < 128,
            MidiMessage::Controller { controller, value } => *controller < 128 && *value < 128,
            MidiMessage::ProgramChange { program } => *program < 128,
            MidiMessage::ChannelAftertouch { vel } => *vel < 128,
            MidiMessage::PitchBend { bend } => -8192 <= *bend && *bend <= 8191,
        }
    }
}

impl MetaMessage {
    /// Whether a tempo fits its twenty-four bits and a payload's length a
    /// four-byte variable-length quantity.
    pub fn is_valid(&self) -> (ok: bool)
        ensures
            ok == self@.valid(),
    {
        match self {
            MetaMessage::Tempo(tempo) => *tempo < 0x100_0000,
            MetaMessage::TrackName(data) => data.len() <= VLQ_MAX as usize,
            MetaMessage::Text(data) => data.len() <= VLQ_MAX as usize,
            MetaMessage::Copyright(data) => data.len() <= VLQ_MAX as usize,
            MetaMessage::Other(_, data) => data.len() <= VLQ_MAX as usize,
            _ => true,
        }
    }
}

impl TrackEvent {
    /// Whether the delta and every field of the event are within the ranges of
    /// the format.
    pub fn is_valid(&self) -> (ok: bool)
        ensures
            ok == self@.valid(),
    {
        let kind_ok = match &self.kind {
            TrackEventKind::Midi { channel, message } => *channel < 16 && message.is_valid(),
            TrackEventKind::SysEx(data) => data.len() <= VLQ_MAX as usize,
            TrackEventKind::Escape(data) => data.len() <= VLQ_MAX as usize,
            TrackEventKind::Meta(meta) => meta.is_valid(),
        };
        self.delta <= VLQ_MAX && kind_ok
    }

    /// Whether the event is the end-of-track event.
    pub fn is_end_of_track(&self) -> (yes: bool)
        ensures
            yes == (self@.kind == KindView::Meta(MetaView::EndOfTrack)),
    {
        match &self.kind {
            TrackEventKind::Meta(MetaMessage::EndOfTrack) => true,
            _ => false,
        }
    }
}

} // verus!
