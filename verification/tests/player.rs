use midi_playback::args::Args;
use midi_playback::bridge::track_is_playable;
use midi_playback::error::Error;
use midi_playback::input::Input;
use midi_playback::model::{
    Format, Header, MetaMessage, MidiMessage, Smf, Timing, TrackEvent, TrackEventKind,
};
use midi_playback::output::Output;
use midi_playback::player::Player;
use midi_playback::soundfont::SoundFont;
use std::path::PathBuf;

fn midi(delta: u32, channel: u8, message: MidiMessage) -> TrackEvent {
    TrackEvent { delta, kind: TrackEventKind::Midi { channel, message } }
}

fn meta(delta: u32, message: MetaMessage) -> TrackEvent {
    TrackEvent { delta, kind: TrackEventKind::Meta(message) }
}

fn one_note(format: Format) -> Smf {
    Smf {
        header: Header { format, timing: Timing::Metrical(480) },
        tracks: vec![vec![
            midi(0, 0, MidiMessage::NoteOn { key: 60, vel: 100 }),
            midi(480, 0, MidiMessage::NoteOn { key: 60, vel: 0 }),
            meta(480, MetaMessage::EndOfTrack),
        ]],
    }
}

fn refusal(smf: Smf) -> String {
    let player = Player::new(smf, SoundFont::Piano).unwrap();
    match player.load_sequence() {
        Err(Error::AudioPlayback(text)) => text,
        other => panic!("unexpected: {other:?}"),
    }
}

#[test]
fn a_playable_file_is_loaded_by_the_engine() {
    let player = Player::new(one_note(Format::SingleTrack), SoundFont::Piano).unwrap();
    let sequence = player.load_sequence().unwrap();
    // 960 ticks at 480 ticks per quarter note and 120 quarter notes per minute.
    assert!((sequence.get_length() - 1.0).abs() < 1e-9);
}

#[test]
fn the_tempo_in_the_file_reaches_the_engine() {
    let mut smf = one_note(Format::SingleTrack);
    smf.tracks[0].insert(0, meta(0, MetaMessage::Tempo(250_000)));
    let player = Player::new(smf, SoundFont::Piano).unwrap();
    assert!((player.load_sequence().unwrap().get_length() - 0.5).abs() < 1e-9);
}

#[test]
fn parallel_tracks_are_loaded_together() {
    let mut smf = one_note(Format::Parallel);
    smf.tracks.push(vec![meta(1920, MetaMessage::EndOfTrack)]);
    let player = Player::new(smf, SoundFont::Piano).unwrap();
    assert!((player.load_sequence().unwrap().get_length() - 2.0).abs() < 1e-9);
}

#[test]
fn the_engine_refuses_sequential_files_in_its_own_words() {
    assert_eq!(refusal(one_note(Format::Sequential)), "Failed to parse MIDI: the format 2 is not supported");
}

#[test]
fn a_track_without_its_end_is_not_handed_over() {
    let mut smf = one_note(Format::SingleTrack);
    smf.tracks[0].pop();
    assert!(!smf.is_playable());
    assert_eq!(refusal(smf), "Failed to parse MIDI: the event model is not a conformant MIDI file");
}

#[test]
fn a_field_out_of_range_is_not_handed_over() {
    let mut smf = one_note(Format::SingleTrack);
    smf.tracks[0][0] = midi(0, 16, MidiMessage::NoteOn { key: 60, vel: 100 });
    assert!(!smf.is_playable());
    assert_eq!(refusal(smf), "Failed to parse MIDI: the event model is not a conformant MIDI file");
}

#[test]
fn what_makes_a_track_playable() {
    let good = one_note(Format::SingleTrack).tracks.remove(0);
    assert!(track_is_playable(&good));
    assert!(!track_is_playable(&vec![]));
    assert!(track_is_playable(&vec![meta(0, MetaMessage::EndOfTrack)]));

    let mut data_byte = good.clone();
    data_byte[1] = midi(0, 0, MidiMessage::NoteOn { key: 128, vel: 0 });
    assert!(!track_is_playable(&data_byte));

    let mut bend = good.clone();
    bend[1] = midi(0, 0, MidiMessage::PitchBend { bend: 8192 });
    assert!(!track_is_playable(&bend));

    let mut tempo = good.clone();
    tempo[1] = meta(0, MetaMessage::Tempo(0x100_0000));
    assert!(!track_is_playable(&tempo));

    let mut delta = good.clone();
    delta[1].delta = 0x1000_0000;
    assert!(!track_is_playable(&delta));

    let mut end_in_the_middle = good.clone();
    end_in_the_middle.insert(0, meta(0, MetaMessage::EndOfTrack));
    assert!(track_is_playable(&end_in_the_middle));
}

#[test]
fn ticks_beyond_a_signed_32_bit_number_are_not_playable() {
    let mut track: Vec<TrackEvent> = (0..8).map(|_| meta(0x0FFF_FFFF, MetaMessage::Text(vec![]))).collect();
    track.push(meta(0, MetaMessage::EndOfTrack));
    // 8 * (2^28 - 1) = 2^31 - 8.
    assert!(track_is_playable(&track));
    track.insert(0, meta(7, MetaMessage::Text(vec![])));
    // 2^31 - 1, the largest signed 32-bit number.
    assert!(track_is_playable(&track));
    track.insert(0, meta(1, MetaMessage::Text(vec![])));
    assert!(!track_is_playable(&track));
}

#[test]
fn ticks_of_dropped_events_do_not_count() {
    let mut track: Vec<TrackEvent> =
        (0..16).map(|_| meta(0x0FFF_FFFF, MetaMessage::Other(0x06, vec![]))).collect();
    track.push(meta(0, MetaMessage::EndOfTrack));
    assert!(track_is_playable(&track));
}

#[test]
fn a_file_is_playable_when_its_header_and_tracks_are() {
    assert!(one_note(Format::SingleTrack).is_playable());
    let mut timing = one_note(Format::SingleTrack);
    timing.header.timing = Timing::Metrical(0x8000);
    assert!(!timing.is_playable());
    let mut second_track = one_note(Format::Parallel);
    second_track.tracks.push(vec![]);
    assert!(!second_track.is_playable());
    let no_tracks = Smf { header: one_note(Format::SingleTrack).header, tracks: vec![] };
    assert!(no_tracks.is_playable());
}

#[test]
fn the_player_hands_out_the_soundfont_bytes() {
    let bundled = [5u8, 6];
    let piano = Player::new(one_note(Format::SingleTrack), SoundFont::Piano).unwrap();
    assert_eq!(piano.soundfont_bytes(&bundled), &[5, 6]);
    let custom = Player::new(one_note(Format::SingleTrack), SoundFont::FromFile(vec![7])).unwrap();
    assert_eq!(custom.soundfont_bytes(&bundled), &[7]);
}

fn options(output: Option<&str>, run: bool) -> Args {
    Args {
        file: PathBuf::from("in.mid"),
        output: output.map(PathBuf::from),
        run,
        list: false,
        sound: String::from("piano"),
        custom_sound: None,
    }
}

#[test]
fn input_is_built_from_a_parsed_file() {
    let smf = one_note(Format::SingleTrack);
    let input = Input::build(options(Some("out.mid"), true), Ok(Ok(smf.clone()))).unwrap();
    assert_eq!(input.smf, smf);
    assert_eq!(input.output_file, Some(PathBuf::from("out.mid")));
    assert!(input.run);
    let input = Input::build(options(None, false), Ok(Ok(smf))).unwrap();
    assert_eq!(input.output_file, None);
    assert!(!input.run);
}

#[test]
fn a_file_that_does_not_parse_gives_no_input() {
    match Input::build(options(None, true), Ok(Err(String::from("bad header")))) {
        Err(error @ Error::ParseInputFile(_)) => {
            assert_eq!(error.message(), "Failed to parse MIDI file: bad header")
        }
        other => panic!("unexpected: {other:?}"),
    }
}

#[test]
fn a_file_that_cannot_be_read_gives_no_input() {
    let cause = std::io::Error::new(std::io::ErrorKind::NotFound, "no such file");
    match Input::build(options(None, true), Err(cause)) {
        Err(error @ Error::ReadInputFile(_)) => {
            assert_eq!(error.message(), "Failed to read input file: no such file")
        }
        other => panic!("unexpected: {other:?}"),
    }
}

#[test]
fn output_with_a_soundfont_is_played() {
    let output = Output {
        smf: one_note(Format::SingleTrack),
        output_file: None,
        run_with_sound: Some(SoundFont::FromFile(vec![1, 2])),
    };
    let player = output.process().unwrap().unwrap();
    assert_eq!(player.soundfont_bytes(&[]), &[1, 2]);
    assert!(player.load_sequence().is_ok());
}

#[test]
fn output_without_a_soundfont_is_not_played() {
    let output = Output {
        smf: one_note(Format::SingleTrack),
        output_file: Some(PathBuf::from("out.mid")),
        run_with_sound: None,
    };
    assert!(output.process().unwrap().is_none());
}

#[test]
fn the_engine_takes_a_track_of_the_most_ticks() {
    let mut track: Vec<TrackEvent> =
        (0..8).map(|_| midi(0x0FFF_FFFF, 0, MidiMessage::NoteOn { key: 60, vel: 1 })).collect();
    track.push(meta(7, MetaMessage::EndOfTrack));
    let smf = Smf {
        header: Header { format: Format::SingleTrack, timing: Timing::Metrical(480) },
        tracks: vec![track],
    };
    assert!(smf.is_playable());
    let player = Player::new(smf, SoundFont::Piano).unwrap();
    assert!(player.load_sequence().is_ok());
}

#[test]
fn the_engine_takes_timecode_timing_and_many_tracks() {
    let track = vec![midi(1, 9, MidiMessage::NoteOn { key: 36, vel: 100 }), meta(0, MetaMessage::EndOfTrack)];
    let smf = Smf {
        header: Header { format: Format::Parallel, timing: Timing::Timecode(midi_playback::model::Fps::Fps25, 40) },
        tracks: vec![track; 40_000],
    };
    assert!(smf.is_playable());
    let player = Player::new(smf, SoundFont::Piano).unwrap();
    assert!(player.load_sequence().is_ok());
}

fn next(state: &mut u64) -> u32 {
    *state = state.wrapping_mul(6364136223846793005).wrapping_add(1442695040888963407);
    (*state >> 33) as u32
}

fn some_event(state: &mut u64) -> TrackEvent {
    let delta = match next(state) % 4 {
        0 => 0,
        1 => next(state) % 128,
        2 => next(state) % 20_000,
        _ => next(state) % 3_000_000,
    };
    let data = |state: &mut u64| (next(state) % 128) as u8;
    let bytes = |state: &mut u64| (0..next(state) % 200).map(|_| next(state) as u8).collect::<Vec<u8>>();
    let channel = (next(state) % 16) as u8;
    let kind = match next(state) % 16 {
        0 => TrackEventKind::Midi { channel, message: MidiMessage::NoteOff { key: data(state), vel: data(state) } },
        1 | 2 | 3 => TrackEventKind::Midi { channel, message: MidiMessage::NoteOn { key: data(state), vel: data(state) } },
        4 => TrackEventKind::Midi { channel, message: MidiMessage::Aftertouch { key: data(state), vel: data(state) } },
        5 => TrackEventKind::Midi {
            channel,
            message: MidiMessage::Controller { controller: data(state), value: data(state) },
        },
        6 => TrackEventKind::Midi { channel, message: MidiMessage::ProgramChange { program: data(state) } },
        7 => TrackEventKind::Midi { channel, message: MidiMessage::ChannelAftertouch { vel: data(state) } },
        8 => TrackEventKind::Midi {
            channel,
            message: MidiMessage::PitchBend { bend: (next(state) % 16384) as i16 - 8192 },
        },
        9 => TrackEventKind::SysEx(bytes(state)),
        10 => TrackEventKind::Escape(bytes(state)),
        11 => TrackEventKind::Meta(MetaMessage::Tempo(next(state) % 0x100_0000)),
        12 => TrackEventKind::Meta(MetaMessage::TimeSignature(data(state), data(state), data(state), data(state))),
        13 => TrackEventKind::Meta(MetaMessage::KeySignature(next(state) as i8, next(state) % 2 == 0)),
        14 => TrackEventKind::Meta(MetaMessage::Text(bytes(state))),
        _ => TrackEventKind::Meta(MetaMessage::Other(next(state) as u8, bytes(state))),
    };
    TrackEvent { delta, kind }
}

#[test]
fn the_engine_loads_every_playable_file_of_a_sample() {
    let mut state = 0x5EED_u64;
    for round in 0..200 {
        let format = if round % 2 == 0 { Format::SingleTrack } else { Format::Parallel };
        let tracks = (0..1 + next(&mut state) % 4)
            .map(|_| {
                let mut track: Vec<TrackEvent> =
                    (0..next(&mut state) % 60).map(|_| some_event(&mut state)).collect();
                track.push(meta(next(&mut state) % 500, MetaMessage::EndOfTrack));
                track
            })
            .collect();
        let smf = Smf { header: Header { format, timing: Timing::Metrical(1 + (next(&mut state) % 0x7FFF) as u16) }, tracks };
        assert!(smf.is_playable());
        let player = Player::new(smf, SoundFont::Piano).unwrap();
        assert!(player.load_sequence().is_ok(), "round {round}");
    }
}
