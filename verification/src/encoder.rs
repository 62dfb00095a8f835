//! The encoder: from the event model to the bytes of a Standard MIDI File.
//!
//! The spec functions say what the bytes are; the executable functions produce
//! exactly those bytes.

use vstd::prelude::*;
use crate::model::{
    EventView, Format, Fps, Header, KindView, MetaMessage, MetaView, MidiMessage, Smf, SmfView,
    Timing, TrackEvent, TrackEventKind, track_view,
};
use crate::reader::{lemma_round_trip, read_smf};
use crate::vlq::{vlq, write_length, write_variable_length};

verus! {

/// The tag that opens the header chunk: `MThd`.
pub open spec fn header_tag() -> Seq<u8> {
    seq![0x4Du8, 0x54u8, 0x68u8, 0x64u8]
}

/// The tag that opens a track chunk: `MTrk`.
pub open spec fn track_tag() -> Seq<u8> {
    seq![0x4Du8, 0x54u8, 0x72u8, 0x6Bu8]
}

/// A 16-bit value as two bytes, most significant first.
pub open spec fn be16(n: u16) -> Seq<u8> {
    seq![(n / 0x100) as u8, (n % 0x100) as u8]
}

/// A 32-bit value as four bytes, most significant first.
pub open spec fn be32(n: u32) -> Seq<u8> {
    seq![
        (n / 0x100_0000) as u8,
        ((n / 0x1_0000) % 0x100) as u8,
        ((n / 0x100) % 0x100) as u8,
        (n % 0x100) as u8,
    ]
}

/// The format code of the header: 0, 1 or 2.
pub open spec fn format_code(format: Format) -> u16 {
    match format {
        Format::SingleTrack => 0,
        Format::Parallel => 1,
        Format::Sequential => 2,
    }
}

/// Frames per second as a number.
pub open spec fn fps_code(fps: Fps) -> u8 {
    match fps {
        Fps::Fps24 => 24,
        Fps::Fps25 => 25,
        Fps::Fps29 => 29,
        Fps::Fps30 => 30,
    }
}

/// The timing field of the header. Metrical timing is the tick count itself.
/// Timecode timing has the negated frame rate, as a two's complement byte, on top
/// and the ticks per frame below.
pub open spec fn timing_field(timing: Timing) -> u16 {
    match timing {
        Timing::Metrical(ticks) => ticks,
        Timing::Timecode(fps, subframe) => ((0x100 - fps_code(fps)) * 0x100 + subframe) as u16,
    }
}

/// The header chunk of a file with `track_count` tracks: tag, the length 6, format
/// code, track count and timing field.
pub open spec fn header_chunk(header: Header, track_count: u16) -> Seq<u8> {
    header_tag() + be32(6) + be16(format_code(header.format)) + be16(track_count) + be16(
        timing_field(header.timing),
    )
}

/// The upper half of the status byte that each kind of channel message has.
pub open spec fn kind_nibble(message: MidiMessage) -> u8 {
    match message {
        MidiMessage::NoteOff { .. } => 0x80,
        MidiMessage::NoteOn { .. } => 0x90,
        MidiMessage::Aftertouch { .. } => 0xA0,
        MidiMessage::Controller { .. } => 0xB0,
        MidiMessage::ProgramChange { .. } => 0xC0,
        MidiMessage::ChannelAftertouch { .. } => 0xD0,
        MidiMessage::PitchBend { .. } => 0xE0,
    }
}

/// The status byte of a channel message: its kind, with the channel in the low half.
pub open spec fn status_byte(channel: u8, message: MidiMessage) -> u8 {
    kind_nibble(message) | channel
}

/// A bend moved from its signed range to the unsigned fourteen bits of the wire:
/// 8192 is added, so that a bend of zero becomes 8192.
pub open spec fn bend_value(bend: i16) -> int {
    (bend + 8192) % 0x4000
}

/// The data bytes of a channel message: two of them, or one for a program change
/// and for channel pressure. A bend gives its lower seven bits first.
pub open spec fn data_bytes(message: MidiMessage) -> Seq<u8> {
    match message {
        MidiMessage::NoteOff { key, vel } => seq![key, vel],
        MidiMessage::NoteOn { key, vel } => seq![key, vel],
        MidiMessage::Aftertouch { key, vel } => seq![key, vel],
        MidiMessage::Controller { controller, value } => seq![controller, value],
        MidiMessage::ProgramChange { program } => seq![program],
        MidiMessage::ChannelAftertouch { vel } => seq![vel],
        MidiMessage::PitchBend { bend } => seq![
            (bend_value(bend) % 0x80) as u8,
            (bend_value(bend) / 0x80) as u8,
        ],
    }
}

/// A channel message as written when `running` is the status byte last written in
/// the track: the status byte is left out where it would repeat.
pub open spec fn midi_bytes(channel: u8, message: MidiMessage, running: Option<u8>) -> Seq<u8> {
    if running == Some(status_byte(channel, message)) {
        data_bytes(message)
    } else {
        seq![status_byte(channel, message)] + data_bytes(message)
    }
}

/// The lower twenty-four bits of a tempo, most significant byte first.
pub open spec fn tempo_bytes(tempo: u32) -> Seq<u8> {
    seq![((tempo / 0x1_0000) % 0x100) as u8, ((tempo / 0x100) % 0x100) as u8, (tempo % 0x100) as u8]
}

/// A signed key as a two's complement byte.
pub open spec fn key_byte(key: i8) -> u8 {
    if key >= 0 {
        key as u8
    } else {
        (key + 0x100) as u8
    }
}

/// The mode byte of a key signature: 0 for a major key, 1 for a minor one.
pub open spec fn mode_byte(major: bool) -> u8 {
    if major {
        0
    } else {
        1
    }
}

/// A length-prefixed payload: the length as a variable-length quantity, then the
/// bytes.
pub open spec fn payload_bytes(data: Seq<u8>) -> Seq<u8> {
    vlq(data.len()) + data
}

/// A meta event as written: `0xFF`, the type code, the payload's length and the
/// payload. An event of any other type is not written at all.
pub open spec fn meta_bytes(meta: MetaView) -> Seq<u8> {
    match meta {
        MetaView::Tempo(tempo) => seq![0xFFu8, 0x51u8, 0x03u8] + tempo_bytes(tempo),
        MetaView::EndOfTrack => seq![0xFFu8, 0x2Fu8, 0x00u8],
        MetaView::TimeSignature(n, d, c, b) => seq![0xFFu8, 0x58u8, 0x04u8, n, d, c, b],
        MetaView::KeySignature(key, major) => seq![
            0xFFu8,
            0x59u8,
            0x02u8,
            key_byte(key),
            mode_byte(major),
        ],
        MetaView::TrackName(data) => seq![0xFFu8, 0x03u8] + payload_bytes(data),
        MetaView::Text(data) => seq![0xFFu8, 0x01u8] + payload_bytes(data),
        MetaView::Copyright(data) => seq![0xFFu8, 0x01u8] + payload_bytes(data),
        MetaView::Other(_, _) => Seq::empty(),
    }
}

/// Whether an event is written at all: every one but a meta event of another type.
pub open spec fn written(kind: KindView) -> bool {
    !(kind matches KindView::Meta(MetaView::Other(_, _)))
}

/// What follows the delta of an event that is written.
pub open spec fn kind_bytes(kind: KindView, running: Option<u8>) -> Seq<u8> {
    match kind {
        KindView::Midi { channel, message } => midi_bytes(channel, message, running),
        KindView::SysEx(data) => seq![0xF0u8] + payload_bytes(data),
        KindView::Escape(data) => seq![0xF7u8] + payload_bytes(data),
        KindView::Meta(meta) => meta_bytes(meta),
    }
}

/// An event as written when `running` is the status byte last written: its delta
/// as a variable-length quantity and then the event, or nothing for an event that
/// is dropped.
pub open spec fn event_bytes(event: EventView, running: Option<u8>) -> Seq<u8> {
    if written(event.kind) {
        vlq(event.delta as nat) + kind_bytes(event.kind, running)
    } else {
        Seq::empty()
    }
}

/// The running status after an event: the status byte of a channel message, and
/// nothing after any other event.
pub open spec fn status_after(kind: KindView) -> Option<u8> {
    match kind {
        KindView::Midi { channel, message } => Some(status_byte(channel, message)),
        _ => None,
    }
}

/// The events of a track as written one after another, starting with `running` as
/// the status byte last written.
pub open spec fn events_bytes(events: Seq<EventView>, running: Option<u8>) -> Seq<u8>
    decreases events.len(),
{
    if events.len() == 0 {
        Seq::empty()
    } else {
        event_bytes(events[0], running) + events_bytes(
            events.drop_first(),
            status_after(events[0].kind),
        )
    }
}

/// The body of a track chunk: its events, with no running status to start with.
pub open spec fn track_body(events: Seq<EventView>) -> Seq<u8> {
    events_bytes(events, None)
}

/// A track chunk: tag, the length of the body in four bytes, and the body.
pub open spec fn track_chunk(events: Seq<EventView>) -> Seq<u8> {
    track_tag() + be32(track_body(events).len() as u32) + track_body(events)
}

/// The track chunks of a file, one after another.
pub open spec fn chunks_bytes(tracks: Seq<Seq<EventView>>) -> Seq<u8>
    decreases tracks.len(),
{
    if tracks.len() == 0 {
        Seq::empty()
    } else {
        track_chunk(tracks[0]) + chunks_bytes(tracks.drop_first())
    }
}

/// A whole file: the header chunk, then one chunk for each track.
pub open spec fn smf_bytes(smf: SmfView) -> Seq<u8> {
    header_chunk(smf.header, smf.tracks.len() as u16) + chunks_bytes(smf.tracks)
}

impl SmfView {
    /// Whether the file's sizes can be written down: the number of tracks in 16
    /// bits and the length of each track's body in 32.
    pub open spec fn expressible(self) -> bool {
        &&& self.tracks.len() <= u16::MAX
        &&& forall|t: int|
            0 <= t < self.tracks.len() ==> track_body(#[trigger] self.tracks[t]).len() <= u32::MAX
    }
}

fn append_bytes(output: &mut Vec<u8>, data: &Vec<u8>)
    ensures
        final(output)@ == old(output)@ + data@,
{
    let ghost before = output@;
    let mut i: usize = 0;
    while i < data.len()
        invariant
            i <= data.len(),
            output@ == before + data@.take(i as int),
        decreases data.len() - i,
    {
        output.push(data[i]);
        i += 1;
        assert(data@.take(i as int) =~= data@.take(i - 1).push(data@[i - 1]));
    }
    assert(data@.take(data.len() as int) =~= data@);
}

fn write_be16(output: &mut Vec<u8>, n: u16)
    ensures
        final(output)@ == old(output)@ + be16(n),
{
    output.push((n / 0x100) as u8);
    output.push((n % 0x100) as u8);
}

fn write_be32(output: &mut Vec<u8>, n: u32)
    ensures
        final(output)@ == old(output)@ + be32(n),
{
    output.push((n / 0x100_0000) as u8);
    output.push(((n / 0x1_0000) % 0x100) as u8);
    output.push(((n / 0x100) % 0x100) as u8);
    output.push((n % 0x100) as u8);
}

fn write_payload(output: &mut Vec<u8>, data: &Vec<u8>)
    ensures
        final(output)@ == old(output)@ + payload_bytes(data@),
{
    write_length(output, data.len());
    append_bytes(output, data);
}

fn status_of(channel: u8, message: &MidiMessage) -> (status: u8)
    ensures
        status == status_byte(channel, *message),
{
    let kind: u8 = match message {
        MidiMessage::NoteOff { .. } => 0x80,
        MidiMessage::NoteOn { .. } => 0x90,
        MidiMessage::Aftertouch { .. } => 0xA0,
        MidiMessage::Controller { .. } => 0xB0,
        MidiMessage::ProgramChange { .. } => 0xC0,
        MidiMessage::ChannelAftertouch { .. } => 0xD0,
        MidiMessage::PitchBend { .. } => 0xE0,
    };
    kind | channel
}

fn write_data(output: &mut Vec<u8>, message: &MidiMessage)
    ensures
        final(output)@ == old(output)@ + data_bytes(*message),
{
    match message {
        MidiMessage::NoteOff { key, vel } => {
            output.push(*key);
            output.push(*vel);
        },
        MidiMessage::NoteOn { key, vel } => {
            output.push(*key);
            output.push(*vel);
        },
        MidiMessage::Aftertouch { key, vel } => {
            output.push(*key);
            output.push(*vel);
        },
        MidiMessage::Controller { controller, value } => {
            output.push(*controller);
            output.push(*value);
        },
        MidiMessage::ProgramChange { program } => {
            output.push(*program);
        },
        MidiMessage::ChannelAftertouch { vel } => {
            output.push(*vel);
        },
        MidiMessage::PitchBend { bend } => {
            // 0xA000 is 8192 and two turns of 0x4000 more, which keeps the sum
            // from going negative and leaves its remainder as it is.
            let lifted: u32 = (*bend as i32 + 0xA000) as u32;
            let value: u32 = lifted % 0x4000;
            assert(value == bend_value(*bend));
            output.push((value % 0x80) as u8);
            output.push((value / 0x80) as u8);
        },
    }
}

fn write_midi(output: &mut Vec<u8>, channel: u8, message: &MidiMessage, running: Option<u8>) -> (next:
    Option<u8>)
    ensures
        final(output)@ == old(output)@ + midi_bytes(channel, *message, running),
        next == Some(status_byte(channel, *message)),
{
    let ghost before = output@;
    let status = status_of(channel, message);
    let repeats = match running {
        Some(last) => last == status,
        None => false,
    };
    if !repeats {
        output.push(status);
    }
    write_data(output, message);
    assert(output@ =~= before + midi_bytes(channel, *message, running));
    Some(status)
}

fn write_meta(output: &mut Vec<u8>, meta: &MetaMessage)
    ensures
        final(output)@ == old(output)@ + meta_bytes(meta@),
{
    match meta {
        MetaMessage::Tempo(tempo) => {
            output.push(0xFF);
            output.push(0x51);
            output.push(0x03);
            output.push(((*tempo / 0x1_0000) % 0x100) as u8);
            output.push(((*tempo / 0x100) % 0x100) as u8);
            output.push((*tempo % 0x100) as u8);
        },
        MetaMessage::EndOfTrack => {
            output.push(0xFF);
            output.push(0x2F);
            output.push(0x00);
        },
        MetaMessage::TimeSignature(n, d, c, b) => {
            output.push(0xFF);
            output.push(0x58);
            output.push(0x04);
            output.push(*n);
            output.push(*d);
            output.push(*c);
            output.push(*b);
        },
        MetaMessage::KeySignature(key, major) => {
            output.push(0xFF);
            output.push(0x59);
            output.push(0x02);
            let byte: u8 = if *key >= 0 {
                *key as u8
            } else {
                (*key as i16 + 0x100) as u8
            };
            output.push(byte);
            output.push(if *major { 0 } else { 1 });
        },
        MetaMessage::TrackName(data) => {
            output.push(0xFF);
            output.push(0x03);
            write_payload(output, data);
        },
        MetaMessage::Text(data) => {
            output.push(0xFF);
            output.push(0x01);
            write_payload(output, data);
        },
        MetaMessage::Copyright(data) => {
            output.push(0xFF);
            output.push(0x01);
            write_payload(output, data);
        },
        MetaMessage::Other(_, _) => {},
    }
}

fn is_written(kind: &TrackEventKind) -> (yes: bool)
    ensures
        yes == written(kind@),
{
    match kind {
        TrackEventKind::Meta(MetaMessage::Other(_, _)) => false,
        _ => true,
    }
}

/// Appends one event to a track body. `running` is the status byte last written
/// in the track, if the event before was a channel message; the result is what it
/// is after this event.
pub fn write_event(output: &mut Vec<u8>, event: &TrackEvent, running: Option<u8>) -> (next: Option<
    u8,
>)
    ensures
        final(output)@ == old(output)@ + event_bytes(event@, running),
        next == status_after(event@.kind),
{
    let ghost before = output@;
    if is_written(&event.kind) {
        write_variable_length(output, event.delta);
    }
    let next = match &event.kind {
        TrackEventKind::Midi { channel, message } => write_midi(output, *channel, message, running),
        TrackEventKind::SysEx(data) => {
            output.push(0xF0);
            write_payload(output, data);
            None
        },
        TrackEventKind::Escape(data) => {
            output.push(0xF7);
            write_payload(output, data);
            None
        },
        TrackEventKind::Meta(meta) => {
            write_meta(output, meta);
            None
        },
    };
    assert(output@ =~= before + event_bytes(event@, running));
    next
}

/// Encodes the body of a track: its events in order, with running status that
/// starts afresh.
pub fn encode_track(events: &Vec<TrackEvent>) -> (body: Vec<u8>)
    ensures
        body@ == track_body(track_view(events@)),
{
    let ghost all = track_view(events@);
    let mut output: Vec<u8> = Vec::new();
    let mut running: Option<u8> = None;
    let mut i: usize = 0;
    assert(all.skip(0) =~= all);
    while i < events.len()
        invariant
            i <= events.len(),
            all == track_view(events@),
            track_body(all) == output@ + events_bytes(all.skip(i as int), running),
        decreases events.len() - i,
    {
        let event = &events[i];
        proof {
            let rest = all.skip(i as int);
            assert(rest[0] == event@);
            assert(rest.drop_first() =~= all.skip(i + 1));
        }
        running = write_event(&mut output, event, running);
        assert(track_body(all) =~= output@ + events_bytes(all.skip(i + 1), running));
        i += 1;
    }
    assert(all.skip(i as int) =~= Seq::<EventView>::empty());
    assert(track_body(all) =~= output@);
    output
}

fn write_header(output: &mut Vec<u8>, header: &Header, track_count: u16)
    ensures
        final(output)@ == old(output)@ + header_chunk(*header, track_count),
{
    output.push(0x4D);
    output.push(0x54);
    output.push(0x68);
    output.push(0x64);
    write_be32(output, 6);
    let format: u16 = match header.format {
        Format::SingleTrack => 0,
        Format::Parallel => 1,
        Format::Sequential => 2,
    };
    write_be16(output, format);
    write_be16(output, track_count);
    let timing: u16 = match header.timing {
        Timing::Metrical(ticks) => ticks,
        Timing::Timecode(fps, subframe) => {
            let rate: u16 = match fps {
                Fps::Fps24 => 24,
                Fps::Fps25 => 25,
                Fps::Fps29 => 29,
                Fps::Fps30 => 30,
            };
            (0x100 - rate) * 0x100 + subframe as u16
        },
    };
    write_be16(output, timing);
}

fn write_track_chunk(output: &mut Vec<u8>, body: &Vec<u8>)
    requires
        body@.len() <= u32::MAX,
    ensures
        final(output)@ == old(output)@ + track_tag() + be32(body@.len() as u32) + body@,
{
    output.push(0x4D);
    output.push(0x54);
    output.push(0x72);
    output.push(0x6B);
    write_be32(output, body.len() as u32);
    append_bytes(output, body);
}

/// Encodes a whole file, or gives `None` exactly where the file has more tracks,
/// or a track more bytes, than its size fields can say. A file whose fields are
/// valid and whose events the encoder keeps is read back from the bytes as it was.
pub fn try_encode_smf(smf: &Smf) -> (file: Option<Vec<u8>>)
    ensures
        file is Some <==> smf@.expressible(),
        file matches Some(bytes) ==> bytes@ == smf_bytes(smf@),
        file matches Some(bytes) ==> (smf@.valid() && smf@.kept() ==> read_smf(bytes@) == Some(
            smf@,
        )),
{
    proof {
        if smf@.valid() && smf@.kept() && smf@.expressible() {
            lemma_round_trip(smf@);
        }
    }
    let ghost all = smf@.tracks;
    if smf.tracks.len() > u16::MAX as usize {
        return None;
    }
    let mut output: Vec<u8> = Vec::new();
    write_header(&mut output, &smf.header, smf.tracks.len() as u16);
    let ghost head = output@;
    let mut t: usize = 0;
    assert(all.skip(0) =~= all);
    while t < smf.tracks.len()
        invariant
            t <= smf.tracks.len(),
            all == smf@.tracks,
            all.len() == smf.tracks@.len(),
            head + chunks_bytes(all) == output@ + chunks_bytes(all.skip(t as int)),
            forall|k: int| 0 <= k < t ==> track_body(#[trigger] all[k]).len() <= u32::MAX,
        decreases smf.tracks.len() - t,
    {
        let ghost rest = all.skip(t as int);
        assert(rest[0] == all[t as int]);
        assert(all[t as int] == track_view(smf.tracks@[t as int]@));
        assert(rest.drop_first() =~= all.skip(t + 1));
        let body = encode_track(&smf.tracks[t]);
        if body.len() > u32::MAX as usize {
            return None;
        }
        let ghost before = output@;
        write_track_chunk(&mut output, &body);
        assert(output@ =~= before + track_chunk(all[t as int]));
        assert(head + chunks_bytes(all) =~= output@ + chunks_bytes(all.skip(t + 1)));
        t += 1;
    }
    assert(all.skip(t as int) =~= Seq::<Seq<EventView>>::empty());
    assert(output@ =~= head + chunks_bytes(all));
    Some(output)
}

/// Encodes a whole file: the header chunk, then one chunk for each track. A file
/// whose fields are valid and whose events the encoder keeps is read back from
/// the bytes as it was.
pub fn encode_smf(smf: &Smf) -> (file: Vec<u8>)
    requires
        smf@.expressible(),
    ensures
        file@ == smf_bytes(smf@),
        smf@.valid() && smf@.kept() ==> read_smf(file@) == Some(smf@),
{
    match try_encode_smf(smf) {
        Some(file) => file,
        None => Vec::new(),
    }
}

/// Running status. Of two channel messages in a row with the same kind and
/// channel, the second is written without its status byte: the status byte
/// stands once in the bytes of the two.
pub proof fn lemma_status_written_once(first: EventView, second: EventView)
    requires
        first.kind is Midi,
        second.kind is Midi,
        status_after(first.kind) == status_after(second.kind),
    ensures
        events_bytes(seq![first, second], None) == vlq(first.delta as nat) + seq![
            status_after(first.kind)->0,
        ] + data_bytes(first.kind->message) + vlq(second.delta as nat) + data_bytes(
            second.kind->message,
        ),
{
    let events = seq![first, second];
    reveal_with_fuel(events_bytes, 3);
    assert(events.drop_first() =~= seq![second]);
    assert(events.drop_first().drop_first() =~= Seq::<EventView>::empty());
    assert(events_bytes(events, None) =~= vlq(first.delta as nat) + seq![
        status_after(first.kind)->0,
    ] + data_bytes(first.kind->message) + vlq(second.delta as nat) + data_bytes(
        second.kind->message,
    ));
}

/// Running status is forgotten at every event that is not a channel message:
/// a channel message that follows one is written with its status byte, also where
/// the channel message before had the same.
pub proof fn lemma_status_written_again(first: EventView, between: EventView, second: EventView)
    requires
        first.kind is Midi,
        !(between.kind is Midi),
        second.kind is Midi,
    ensures
        events_bytes(seq![first, between, second], None) == vlq(first.delta as nat) + seq![
            status_after(first.kind)->0,
        ] + data_bytes(first.kind->message) + event_bytes(between, status_after(first.kind))
            + vlq(second.delta as nat) + seq![status_after(second.kind)->0] + data_bytes(
            second.kind->message,
        ),
{
    let events = seq![first, between, second];
    reveal_with_fuel(events_bytes, 4);
    assert(events.drop_first() =~= seq![between, second]);
    assert(events.drop_first().drop_first() =~= seq![second]);
    assert(events.drop_first().drop_first().drop_first() =~= Seq::<EventView>::empty());
    assert(events_bytes(events, None) =~= vlq(first.delta as nat) + seq![
        status_after(first.kind)->0,
    ] + data_bytes(first.kind->message) + event_bytes(between, status_after(first.kind)) + vlq(
        second.delta as nat,
    ) + seq![status_after(second.kind)->0] + data_bytes(second.kind->message));
}

/// A bend within its range is written as the two halves of `bend + 8192`, seven
/// bits each, the lower half first; the bend can be told from them.
pub proof fn lemma_bend_bytes(bend: i16)
    requires
        -8192 <= bend <= 8191,
    ensures
        data_bytes(MidiMessage::PitchBend { bend }) == seq![
            ((bend + 8192) % 0x80) as u8,
            ((bend + 8192) / 0x80) as u8,
        ],
        (bend + 8192) % 0x80 < 0x80,
        (bend + 8192) / 0x80 < 0x80,
        (bend + 8192) % 0x80 + 0x80 * ((bend + 8192) / 0x80) - 8192 == bend,
{
}

/// The mode byte of a key signature, the last of its five bytes after the delta,
/// is 0 for a major key and 1 for a minor one, whatever the key.
pub proof fn lemma_key_mode(key: i8, major: bool)
    ensures
        meta_bytes(MetaView::KeySignature(key, major)).len() == 5,
        meta_bytes(MetaView::KeySignature(key, major))[4] == (if major {
            0u8
        } else {
            1u8
        }),
{
}

} // verus!
