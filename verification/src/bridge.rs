//! The render bridge: hands the encoded file to the synthesis engine's loader.
//!
//! The engine reads a MIDI byte stream, not the event model, so the model is
//! encoded first. Only a file that the engine's loader can take in safely is
//! handed over: see `SmfView::playable`.

use vstd::prelude::*;
use crate::encoder::{encode_track, smf_bytes, track_body, written};
use crate::error::Error;
use crate::model::{
    EventView, MetaMessage, Smf, SmfView, Timing, TrackEvent, TrackEventKind, track_terminated,
    track_valid, track_view,
};
use crate::pipeline::SetupFailure;

verus! {

/// `rustysynth::MidiFile`: a loaded sequence, carried through as it is.
#[verifier::external_type_specification]
#[verifier::external_body]
pub struct ExMidiFile(rustysynth::MidiFile);

/// The ticks from the start of a track to its last event: the deltas of the
/// events that are written, added up.
pub open spec fn ticks(events: Seq<EventView>) -> nat
    decreases events.len(),
{
    if events.len() == 0 {
        0
    } else if written(events.last().kind) {
        ticks(events.drop_last()) + events.last().delta as nat
    } else {
        ticks(events.drop_last())
    }
}

/// Whether a track can be handed to the engine: its fields are within the ranges
/// of the format, it ends with an end-of-track event, and neither its length in
/// bytes nor its length in ticks leaves the range of a signed 32-bit number.
pub open spec fn track_playable(events: Seq<EventView>) -> bool {
    &&& track_valid(events)
    &&& track_terminated(events)
    &&& track_body(events).len() <= i32::MAX
    &&& ticks(events) <= i32::MAX
}

impl SmfView {
    /// Whether the file can be handed to the engine: the header's timing is
    /// valid, the number of tracks fits its field, and every track is playable.
    pub open spec fn playable(self) -> bool {
        &&& self.header.timing.valid()
        &&& self.tracks.len() <= u16::MAX
        &&& forall|t: int| 0 <= t < self.tracks.len() ==> track_playable(#[trigger] self.tracks[t])
    }
}

/// What `rustysynth::MidiFile::new` says of a byte stream that it refuses, and
/// `None` for one that it loads.
pub uninterp spec fn midi_refusal(bytes: Seq<u8>) -> Option<Seq<char>>;

/// Whether `bytes` is the encoding of a playable file.
pub open spec fn playable_bytes(bytes: Seq<u8>) -> bool {
    exists|smf: SmfView| #[trigger] smf.playable() && bytes == smf_bytes(smf)
}

/// Calls `rustysynth::MidiFile::new` on a reader over `bytes`, and turns a
/// refusal into the text that it displays. The loader is a function of the bytes
/// alone; the contract gives its outcome the name `midi_refusal`. The bytes must
/// be the encoding of a playable file: on other input the loader may read one
/// track's events out of the next track's bytes, add up ticks beyond what a
/// signed 32-bit number holds, or take a length with the top bit set for a size.
#[verifier::external_body]
pub(crate) fn load_midi_file(bytes: &Vec<u8>) -> (loaded: Result<rustysynth::MidiFile, String>)
    requires
        playable_bytes(bytes@),
    ensures
        loaded is Ok <==> midi_refusal(bytes@) is None,
        loaded matches Err(text) ==> midi_refusal(bytes@) == Some(text@),
{
    let mut reader = std::io::Cursor::new(bytes.as_slice());
    rustysynth::MidiFile::new(&mut reader).map_err(|refusal| refusal.to_string())
}

proof fn lemma_ticks_grow(events: Seq<EventView>, n: int)
    requires
        0 <= n <= events.len(),
    ensures
        ticks(events.take(n)) <= ticks(events),
    decreases events.len() - n,
{
    if n == events.len() {
        assert(events.take(n) =~= events);
    } else {
        lemma_ticks_grow(events, n + 1);
        assert(events.take(n + 1).drop_last() =~= events.take(n));
    }
}

/// Whether a track can be handed to the engine.
pub fn track_is_playable(events: &Vec<TrackEvent>) -> (ok: bool)
    ensures
        ok == track_playable(track_view(events@)),
{
    let ghost all = track_view(events@);
    if events.len() == 0 || !events[events.len() - 1].is_end_of_track() {
        return false;
    }
    let mut total: u64 = 0;
    let mut i: usize = 0;
    assert(all.take(0) =~= Seq::<EventView>::empty());
    while i < events.len()
        invariant
            i <= events.len(),
            all == track_view(events@),
            total == ticks(all.take(i as int)),
            total <= i32::MAX,
            forall|k: int| 0 <= k < i ==> (#[trigger] all[k]).valid(),
        decreases events.len() - i,
    {
        let event = &events[i];
        assert(all[i as int] == event@);
        if !event.is_valid() {
            return false;
        }
        proof {
            assert(all.take(i + 1).drop_last() =~= all.take(i as int));
            assert(all.take(i + 1).last() == event@);
            lemma_ticks_grow(all, i + 1);
        }
        let counts = match &event.kind {
            TrackEventKind::Meta(MetaMessage::Other(_, _)) => false,
            _ => true,
        };
        if counts {
            total = total + event.delta as u64;
        }
        if total > i32::MAX as u64 {
            return false;
        }
        i += 1;
    }
    assert(all.take(i as int) =~= all);
    encode_track(events).len() <= i32::MAX as usize
}

impl Smf {
    /// Whether the file can be handed to the engine.
    pub fn is_playable(&self) -> (ok: bool)
        ensures
            ok == self@.playable(),
    {
        let timing_ok = match self.header.timing {
            Timing::Metrical(ticks) => ticks < 0x8000,
            Timing::Timecode(_, _) => true,
        };
        if !timing_ok || self.tracks.len() > u16::MAX as usize {
            return false;
        }
        let mut t: usize = 0;
        while t < self.tracks.len()
            invariant
                t <= self.tracks.len(),
                forall|k: int| 0 <= k < t ==> track_playable(#[trigger] self@.tracks[k]),
            decreases self.tracks.len() - t,
        {
            assert(self@.tracks[t as int] == track_view(self.tracks@[t as int]@));
            if !track_is_playable(&self.tracks[t]) {
                return false;
            }
            t += 1;
        }
        true
    }
}

/// The outcome of loading a sequence, given what the engine's loader returned:
/// the loaded sequence, or a playback error that carries the loader's words.
pub fn sequence_outcome(loaded: Result<rustysynth::MidiFile, String>) -> (outcome: Result<
    rustysynth::MidiFile,
    Error,
>)
    ensures
        match loaded {
            Ok(sequence) => outcome == Ok::<rustysynth::MidiFile, Error>(sequence),
            Err(refusal) => outcome matches Err(Error::AudioPlayback(text)) && text@
                == SetupFailure::ParseMidi.text(refusal@),
        },
{
    match loaded {
        Ok(sequence) => Ok(sequence),
        Err(refusal) => Err(SetupFailure::ParseMidi.error(refusal.as_str())),
    }
}

} // verus!
