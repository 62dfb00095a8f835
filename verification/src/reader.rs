//! What a conformant reader makes of the bytes of a Standard MIDI File, and the
//! proof that it gives back what the encoder was given.
//!
//! Nothing here runs: the reader is a set of spec functions, the yardstick for
//! the encoder's output.

use vstd::prelude::*;
use crate::encoder::{
    be16, be32, chunks_bytes, data_bytes, event_bytes, events_bytes, format_code,
    header_chunk, header_tag, key_byte, kind_bytes, kind_nibble, meta_bytes, midi_bytes,
    mode_byte, payload_bytes, smf_bytes, status_after, status_byte, tempo_bytes, timing_field,
    track_body, track_chunk, track_tag, written,
};
use crate::model::{
    EventView, Format, Fps, Header, KindView, MetaView, MidiMessage, SmfView, Timing,
    track_kept, track_valid,
};
use crate::vlq::{lemma_read_vlq_of_vlq, read_vlq, vlq, VLQ_MAX};

verus! {

/// The number that two bytes spell, most significant first.
pub open spec fn read_be16(bytes: Seq<u8>) -> nat
    recommends
        bytes.len() >= 2,
{
    (bytes[0] * 0x100 + bytes[1]) as nat
}

/// The number that four bytes spell, most significant first.
pub open spec fn read_be32(bytes: Seq<u8>) -> nat
    recommends
        bytes.len() >= 4,
{
    (bytes[0] * 0x100_0000 + bytes[1] * 0x1_0000 + bytes[2] * 0x100 + bytes[3]) as nat
}

/// The format that a format code stands for.
pub open spec fn read_format(code: nat) -> Option<Format> {
    if code == 0 {
        Some(Format::SingleTrack)
    } else if code == 1 {
        Some(Format::Parallel)
    } else if code == 2 {
        Some(Format::Sequential)
    } else {
        None
    }
}

/// The frame rate that the upper byte of a timecode timing field stands for.
pub open spec fn read_fps(byte: nat) -> Option<Fps> {
    if byte == 0x100 - 24 {
        Some(Fps::Fps24)
    } else if byte == 0x100 - 25 {
        Some(Fps::Fps25)
    } else if byte == 0x100 - 29 {
        Some(Fps::Fps29)
    } else if byte == 0x100 - 30 {
        Some(Fps::Fps30)
    } else {
        None
    }
}

/// The timing that a timing field stands for: metrical with the top bit clear,
/// timecode with it set.
pub open spec fn read_timing(field: nat) -> Option<Timing> {
    if field < 0x8000 {
        Some(Timing::Metrical(field as u16))
    } else {
        match read_fps(field / 0x100) {
            Some(fps) => Some(Timing::Timecode(fps, (field % 0x100) as u8)),
            None => None,
        }
    }
}

/// Reads the header chunk from the front of a file: the header and the number of
/// tracks that it announces.
pub open spec fn read_header(bytes: Seq<u8>) -> Option<(Header, nat)> {
    if bytes.len() < 14 || bytes.subrange(0, 4) != header_tag() || read_be32(
        bytes.subrange(4, 8),
    ) != 6 {
        None
    } else {
        match (
            read_format(read_be16(bytes.subrange(8, 10))),
            read_timing(read_be16(bytes.subrange(12, 14))),
        ) {
            (Some(format), Some(timing)) => Some(
                (Header { format, timing }, read_be16(bytes.subrange(10, 12))),
            ),
            _ => None,
        }
    }
}

/// Reads a length-prefixed payload from the front of `bytes`: the payload and the
/// number of bytes consumed.
pub open spec fn read_payload(bytes: Seq<u8>) -> Option<(Seq<u8>, nat)> {
    match read_vlq(bytes) {
        Some((len, used)) => if used + len <= bytes.len() {
            Some((bytes.subrange(used as int, (used + len) as int), used + len))
        } else {
            None
        },
        None => None,
    }
}

/// The signed key that a byte stands for.
pub open spec fn read_key(byte: u8) -> i8 {
    if byte < 0x80 {
        byte as i8
    } else {
        (byte - 0x100) as i8
    }
}

/// The meta event with the given type code and payload. Codes and lengths that
/// are not known stay as they are.
pub open spec fn read_meta(code: u8, data: Seq<u8>) -> MetaView {
    if code == 0x51 && data.len() == 3 {
        MetaView::Tempo((data[0] * 0x1_0000 + data[1] * 0x100 + data[2]) as u32)
    } else if code == 0x2F && data.len() == 0 {
        MetaView::EndOfTrack
    } else if code == 0x58 && data.len() == 4 {
        MetaView::TimeSignature(data[0], data[1], data[2], data[3])
    } else if code == 0x59 && data.len() == 2 {
        MetaView::KeySignature(read_key(data[0]), data[1] == 0)
    } else if code == 0x03 {
        MetaView::TrackName(data)
    } else if code == 0x01 {
        MetaView::Text(data)
    } else if code == 0x02 {
        MetaView::Copyright(data)
    } else {
        MetaView::Other(code, data)
    }
}

/// How many data bytes follow a status byte.
pub open spec fn data_count(status: u8) -> nat {
    if status / 0x10 == 0xC || status / 0x10 == 0xD {
        1
    } else {
        2
    }
}

/// The channel message that a status byte and its data bytes stand for.
pub open spec fn read_message(status: u8, first: u8, second: u8) -> MidiMessage {
    let kind = status / 0x10;
    if kind == 0x8 {
        MidiMessage::NoteOff { key: first, vel: second }
    } else if kind == 0x9 {
        MidiMessage::NoteOn { key: first, vel: second }
    } else if kind == 0xA {
        MidiMessage::Aftertouch { key: first, vel: second }
    } else if kind == 0xB {
        MidiMessage::Controller { controller: first, value: second }
    } else if kind == 0xC {
        MidiMessage::ProgramChange { program: first }
    } else if kind == 0xD {
        MidiMessage::ChannelAftertouch { vel: first }
    } else {
        MidiMessage::PitchBend { bend: (first + second * 0x80 - 8192) as i16 }
    }
}

/// Reads the data bytes of a channel message with the given status byte, starting
/// at `at`. Data bytes have the top bit clear.
pub open spec fn read_channel(status: u8, bytes: Seq<u8>, at: nat) -> Option<(KindView, nat)> {
    if at + data_count(status) > bytes.len() {
        None
    } else if bytes[at as int] >= 0x80 || (data_count(status) == 2 && bytes[at as int + 1] >= 0x80) {
        None
    } else {
        let second = if data_count(status) == 2 {
            bytes[at as int + 1]
        } else {
            0
        };
        Some(
            (
                KindView::Midi {
                    channel: status % 0x10,
                    message: read_message(status, bytes[at as int], second),
                },
                at + data_count(status),
            ),
        )
    }
}

/// Reads what follows an event's delta, when `running` is the status byte of the
/// channel message just before, if there was one: the event and the number of
/// bytes consumed.
pub open spec fn read_kind(bytes: Seq<u8>, running: Option<u8>) -> Option<(KindView, nat)> {
    if bytes.len() == 0 {
        None
    } else if bytes[0] < 0x80 {
        match running {
            Some(status) => read_channel(status, bytes, 0),
            None => None,
        }
    } else if bytes[0] < 0xF0 {
        read_channel(bytes[0], bytes, 1)
    } else if bytes[0] == 0xFF {
        if bytes.len() < 2 {
            None
        } else {
            match read_payload(bytes.skip(2)) {
                Some((data, used)) => Some((KindView::Meta(read_meta(bytes[1], data)), 2 + used)),
                None => None,
            }
        }
    } else if bytes[0] == 0xF0 {
        match read_payload(bytes.skip(1)) {
            Some((data, used)) => Some((KindView::SysEx(data), 1 + used)),
            None => None,
        }
    } else if bytes[0] == 0xF7 {
        match read_payload(bytes.skip(1)) {
            Some((data, used)) => Some((KindView::Escape(data), 1 + used)),
            None => None,
        }
    } else {
        None
    }
}

/// Reads one event from the front of `bytes`: the event and the number of bytes
/// consumed.
pub open spec fn read_event(bytes: Seq<u8>, running: Option<u8>) -> Option<(EventView, nat)> {
    match read_vlq(bytes) {
        Some((delta, used)) => match read_kind(bytes.skip(used as int), running) {
            Some((kind, more)) => Some((EventView { delta: delta as u32, kind }, used + more)),
            None => None,
        },
        None => None,
    }
}

/// Reads events until `bytes` is used up.
pub open spec fn read_events(bytes: Seq<u8>, running: Option<u8>) -> Option<Seq<EventView>>
    decreases bytes.len(),
{
    if bytes.len() == 0 {
        Some(Seq::empty())
    } else {
        match read_event(bytes, running) {
            Some((event, used)) => if 0 < used <= bytes.len() {
                match read_events(bytes.skip(used as int), status_after(event.kind)) {
                    Some(rest) => Some(seq![event] + rest),
                    None => None,
                }
            } else {
                None
            },
            None => None,
        }
    }
}

/// Reads a track chunk from the front of `bytes`: its events and the number of
/// bytes consumed.
pub open spec fn read_track_chunk(bytes: Seq<u8>) -> Option<(Seq<EventView>, nat)> {
    if bytes.len() < 8 || bytes.subrange(0, 4) != track_tag() {
        None
    } else {
        let len = read_be32(bytes.subrange(4, 8));
        if 8 + len > bytes.len() {
            None
        } else {
            match read_events(bytes.subrange(8, 8 + len as int), None) {
                Some(events) => Some((events, 8 + len)),
                None => None,
            }
        }
    }
}

/// Reads `count` track chunks, which must use up `bytes`.
pub open spec fn read_chunks(bytes: Seq<u8>, count: nat) -> Option<Seq<Seq<EventView>>>
    decreases count,
{
    if count == 0 {
        if bytes.len() == 0 {
            Some(Seq::empty())
        } else {
            None
        }
    } else {
        match read_track_chunk(bytes) {
            Some((events, used)) => match read_chunks(bytes.skip(used as int), (count - 1) as nat) {
                Some(rest) => Some(seq![events] + rest),
                None => None,
            },
            None => None,
        }
    }
}

/// Reads a whole file: the header chunk and as many track chunks as it announces.
pub open spec fn read_smf(bytes: Seq<u8>) -> Option<SmfView> {
    match read_header(bytes) {
        Some((header, count)) => match read_chunks(bytes.skip(14), count) {
            Some(tracks) => Some(SmfView { header, tracks }),
            None => None,
        },
        None => None,
    }
}

proof fn lemma_concat_parts(a: Seq<u8>, b: Seq<u8>)
    ensures
        (a + b).subrange(0, a.len() as int) =~= a,
        (a + b).skip(a.len() as int) =~= b,
        (a + b).len() == a.len() + b.len(),
        forall|i: int| 0 <= i < a.len() ==> (a + b)[i] == a[i],
        forall|i: int| 0 <= i < b.len() ==> (a + b)[a.len() + i] == b[i],
{
}

/// With a channel of four bits, the status byte is the kind plus the channel, and
/// both can be read off it again.
pub proof fn lemma_status_byte(channel: u8, message: MidiMessage)
    requires
        channel < 16,
    ensures
        status_byte(channel, message) == kind_nibble(message) + channel,
        0x80 <= status_byte(channel, message) < 0xF0,
        status_byte(channel, message) / 0x10 == kind_nibble(message) / 0x10,
        status_byte(channel, message) % 0x10 == channel,
{
    let kind = kind_nibble(message);
    assert((kind | channel) == kind + channel) by (bit_vector)
        requires
            channel < 16,
            kind == 0x80 || kind == 0x90 || kind == 0xA0 || kind == 0xB0 || kind == 0xC0 || kind
                == 0xD0 || kind == 0xE0,
    ;
}

/// Reading back a big-endian number gives the number.
pub proof fn lemma_read_be(n: u32, m: u16)
    ensures
        read_be32(be32(n)) == n,
        read_be16(be16(m)) == m,
{
}

proof fn lemma_read_payload(data: Seq<u8>, rest: Seq<u8>)
    requires
        data.len() <= VLQ_MAX,
    ensures
        read_payload(payload_bytes(data) + rest) == Some((data, payload_bytes(data).len())),
{
    let head = vlq(data.len());
    let bytes = payload_bytes(data) + rest;
    assert(bytes =~= head + (data + rest));
    lemma_read_vlq_of_vlq(data.len(), data + rest);
    assert(bytes.subrange(head.len() as int, (head.len() + data.len()) as int) =~= data);
}

proof fn lemma_read_channel(channel: u8, message: MidiMessage, running: Option<u8>, rest: Seq<u8>)
    requires
        channel < 16,
        message.valid(),
    ensures
        read_kind(midi_bytes(channel, message, running) + rest, running) == Some(
            (KindView::Midi { channel, message }, midi_bytes(channel, message, running).len()),
        ),
{
    lemma_status_byte(channel, message);
    let status = status_byte(channel, message);
    let data = data_bytes(message);
    let bytes = midi_bytes(channel, message, running) + rest;
    assert(data.len() == data_count(status));
    assert(data[0] < 0x80);
    assert(data.len() == 2 ==> data[1] < 0x80);
    let second = if data.len() == 2 {
        data[1]
    } else {
        0u8
    };
    assert(read_message(status, data[0], second) == message);
    if running == Some(status) {
        lemma_concat_parts(data, rest);
        assert(bytes[0] == data[0]);
    } else {
        lemma_concat_parts(seq![status] + data, rest);
        assert(bytes[0] == status);
        assert(bytes[1] == data[0]);
        assert(data.len() == 2 ==> bytes[2] == data[1]);
    }
}

/// The type code under which a meta event is written.
pub open spec fn meta_code(meta: MetaView) -> u8 {
    match meta {
        MetaView::Tempo(_) => 0x51,
        MetaView::EndOfTrack => 0x2F,
        MetaView::TimeSignature(_, _, _, _) => 0x58,
        MetaView::KeySignature(_, _) => 0x59,
        MetaView::TrackName(_) => 0x03,
        MetaView::Text(_) => 0x01,
        MetaView::Copyright(_) => 0x01,
        MetaView::Other(code, _) => code,
    }
}

/// The payload with which a meta event is written.
pub open spec fn meta_payload(meta: MetaView) -> Seq<u8> {
    match meta {
        MetaView::Tempo(tempo) => tempo_bytes(tempo),
        MetaView::EndOfTrack => Seq::empty(),
        MetaView::TimeSignature(n, d, c, b) => seq![n, d, c, b],
        MetaView::KeySignature(key, major) => seq![key_byte(key), mode_byte(major)],
        MetaView::TrackName(data) => data,
        MetaView::Text(data) => data,
        MetaView::Copyright(data) => data,
        MetaView::Other(_, data) => data,
    }
}

/// Every meta event that is written has one shape: `0xFF`, its type code, and its
/// payload behind a length prefix.
pub proof fn lemma_meta_shape(meta: MetaView)
    requires
        !(meta is Other),
    ensures
        meta_bytes(meta) == seq![0xFFu8, meta_code(meta)] + payload_bytes(meta_payload(meta)),
{
    reveal_with_fuel(crate::vlq::vlq_head, 2);
    assert(vlq(0) =~= seq![0u8]);
    assert(vlq(2) =~= seq![2u8]);
    assert(vlq(3) =~= seq![3u8]);
    assert(vlq(4) =~= seq![4u8]);
    assert(meta_bytes(meta) =~= seq![0xFFu8, meta_code(meta)] + payload_bytes(
        meta_payload(meta),
    ));
}

proof fn lemma_read_meta(meta: MetaView, running: Option<u8>, rest: Seq<u8>)
    requires
        meta.valid(),
        meta.kept(),
    ensures
        read_kind(meta_bytes(meta) + rest, running) == Some(
            (KindView::Meta(meta), meta_bytes(meta).len()),
        ),
{
    lemma_meta_shape(meta);
    let code = meta_code(meta);
    let data = meta_payload(meta);
    let bytes = meta_bytes(meta) + rest;
    assert(bytes[0] == 0xFF);
    assert(bytes[1] == code);
    assert(bytes.skip(2) =~= payload_bytes(data) + rest);
    lemma_read_payload(data, rest);
    match meta {
        MetaView::Tempo(tempo) => {
            assert(data[0] * 0x1_0000 + data[1] * 0x100 + data[2] == tempo);
        },
        MetaView::KeySignature(key, major) => {
            assert(read_key(key_byte(key)) == key);
        },
        _ => {},
    }
    assert(read_meta(code, data) == meta);
}

proof fn lemma_read_kind(kind: KindView, running: Option<u8>, rest: Seq<u8>)
    requires
        kind.valid(),
        kind.kept(),
    ensures
        read_kind(kind_bytes(kind, running) + rest, running) == Some(
            (kind, kind_bytes(kind, running).len()),
        ),
{
    let bytes = kind_bytes(kind, running) + rest;
    match kind {
        KindView::Midi { channel, message } => {
            lemma_read_channel(channel, message, running, rest);
        },
        KindView::SysEx(data) => {
            assert(bytes[0] == 0xF0);
            assert(bytes.skip(1) =~= payload_bytes(data) + rest);
            lemma_read_payload(data, rest);
        },
        KindView::Escape(data) => {
            assert(bytes[0] == 0xF7);
            assert(bytes.skip(1) =~= payload_bytes(data) + rest);
            lemma_read_payload(data, rest);
        },
        KindView::Meta(meta) => {
            lemma_read_meta(meta, running, rest);
        },
    }
}

/// Reading an event that the encoder wrote gives the event back and consumes
/// exactly its bytes, whatever follows them.
pub proof fn lemma_read_event(event: EventView, running: Option<u8>, rest: Seq<u8>)
    requires
        event.valid(),
        event.kind.kept(),
    ensures
        read_event(event_bytes(event, running) + rest, running) == Some(
            (event, event_bytes(event, running).len()),
        ),
        event_bytes(event, running).len() > 0,
{
    let head = vlq(event.delta as nat);
    let body = kind_bytes(event.kind, running);
    let bytes = event_bytes(event, running) + rest;
    assert(written(event.kind));
    assert(bytes =~= head + (body + rest));
    lemma_read_vlq_of_vlq(event.delta as nat, body + rest);
    assert(bytes.skip(head.len() as int) =~= body + rest);
    lemma_read_kind(event.kind, running, rest);
}

/// Reading a track body that the encoder wrote gives the track's events back.
pub proof fn lemma_read_events(events: Seq<EventView>, running: Option<u8>)
    requires
        track_valid(events),
        track_kept(events),
    ensures
        read_events(events_bytes(events, running), running) == Some(events),
    decreases events.len(),
{
    let bytes = events_bytes(events, running);
    if events.len() == 0 {
        assert(events =~= Seq::<EventView>::empty());
    } else {
        let first = events[0];
        let tail = events.drop_first();
        let next = status_after(first.kind);
        let tail_bytes = events_bytes(tail, next);
        assert(first.valid() && first.kind.kept());
        assert forall|i: int| 0 <= i < tail.len() implies (#[trigger] tail[i]).valid()
            && tail[i].kind.kept() by {
            assert(tail[i] == events[i + 1]);
        }
        lemma_read_event(first, running, tail_bytes);
        let used = event_bytes(first, running).len();
        assert(bytes.skip(used as int) =~= tail_bytes);
        lemma_read_events(tail, next);
        assert(seq![first] + tail =~= events);
    }
}

/// Reading a track chunk that the encoder wrote gives the track's events back and
/// consumes exactly the chunk, whatever follows it.
pub proof fn lemma_read_track_chunk(events: Seq<EventView>, rest: Seq<u8>)
    requires
        track_valid(events),
        track_kept(events),
        track_body(events).len() <= u32::MAX,
    ensures
        read_track_chunk(track_chunk(events) + rest) == Some(
            (events, track_chunk(events).len()),
        ),
        track_chunk(events).len() == 8 + track_body(events).len(),
{
    let body = track_body(events);
    let len = body.len() as u32;
    let bytes = track_chunk(events) + rest;
    assert(bytes.subrange(0, 4) =~= track_tag());
    assert(bytes.subrange(4, 8) =~= be32(len));
    lemma_read_be(len, 0);
    assert(bytes.subrange(8, 8 + len as int) =~= body);
    lemma_read_events(events, None);
}

proof fn lemma_read_chunks(tracks: Seq<Seq<EventView>>)
    requires
        forall|t: int| 0 <= t < tracks.len() ==> track_valid(#[trigger] tracks[t]),
        forall|t: int| 0 <= t < tracks.len() ==> track_kept(#[trigger] tracks[t]),
        forall|t: int| 0 <= t < tracks.len() ==> track_body(#[trigger] tracks[t]).len() <= u32::MAX,
    ensures
        read_chunks(chunks_bytes(tracks), tracks.len()) == Some(tracks),
    decreases tracks.len(),
{
    if tracks.len() == 0 {
        assert(tracks =~= Seq::<Seq<EventView>>::empty());
    } else {
        let first = tracks[0];
        let tail = tracks.drop_first();
        let bytes = chunks_bytes(tracks);
        assert forall|t: int| 0 <= t < tail.len() implies track_valid(#[trigger] tail[t])
            && track_kept(tail[t]) && track_body(tail[t]).len() <= u32::MAX by {
            assert(tail[t] == tracks[t + 1]);
        }
        lemma_read_track_chunk(first, chunks_bytes(tail));
        assert(bytes.skip(track_chunk(first).len() as int) =~= chunks_bytes(tail));
        lemma_read_chunks(tail);
        assert(seq![first] + tail =~= tracks);
    }
}

/// Reading a header chunk that the encoder wrote gives the header and the track
/// count back, whatever follows it.
pub proof fn lemma_read_header(header: Header, track_count: u16, rest: Seq<u8>)
    requires
        header.timing.valid(),
    ensures
        read_header(header_chunk(header, track_count) + rest) == Some(
            (header, track_count as nat),
        ),
        header_chunk(header, track_count).len() == 14,
{
    let bytes = header_chunk(header, track_count) + rest;
    let field = timing_field(header.timing);
    assert(bytes.subrange(0, 4) =~= header_tag());
    assert(bytes.subrange(4, 8) =~= be32(6));
    assert(bytes.subrange(8, 10) =~= be16(format_code(header.format)));
    assert(bytes.subrange(10, 12) =~= be16(track_count));
    assert(bytes.subrange(12, 14) =~= be16(field));
    lemma_read_be(6, field);
    lemma_read_be(6, track_count);
    lemma_read_be(6, format_code(header.format));
    assert(read_timing(field as nat) == Some(header.timing));
}

/// Round trip. A file whose fields are within the ranges of the format, which
/// holds only events that the encoder keeps, and whose sizes can be written down,
/// is read back from its encoding exactly as it was: the same header, the same
/// number of tracks, and in each track the same events in the same order.
pub proof fn lemma_round_trip(smf: SmfView)
    requires
        smf.valid(),
        smf.kept(),
        smf.expressible(),
    ensures
        read_smf(smf_bytes(smf)) == Some(smf),
{
    let count = smf.tracks.len() as u16;
    let head = header_chunk(smf.header, count);
    let chunks = chunks_bytes(smf.tracks);
    lemma_read_header(smf.header, count, chunks);
    assert(smf_bytes(smf).skip(14) =~= chunks);
    lemma_read_chunks(smf.tracks);
}

/// The length field of a track chunk says exactly how many bytes of body follow
/// it, for a track of any number of events.
pub proof fn lemma_chunk_length_field(events: Seq<EventView>)
    requires
        track_body(events).len() <= u32::MAX,
    ensures
        track_chunk(events).len() == 8 + track_body(events).len(),
        track_chunk(events).subrange(0, 4) == track_tag(),
        read_be32(track_chunk(events).subrange(4, 8)) == track_body(events).len(),
        track_chunk(events).skip(8) == track_body(events),
{
    let body = track_body(events);
    let chunk = track_chunk(events);
    assert(chunk.subrange(0, 4) =~= track_tag());
    assert(chunk.subrange(4, 8) =~= be32(body.len() as u32));
    lemma_read_be(body.len() as u32, 0);
    assert(chunk.skip(8) =~= body);
}

} // verus!
