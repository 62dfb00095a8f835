use midi_playback::error::Error;
use midi_playback::pipeline::{
    route, write_frame, Action, BlockCursor, Event, FrameStep, SampleFormat, SetupFailure, Source,
    Stage, BLOCK_SIZE, POLL_INTERVAL_MS, SETTLE_MS,
};

fn text_of(error: Error) -> String {
    match error {
        Error::AudioPlayback(text) => text,
        other => panic!("not a playback error: {other:?}"),
    }
}

#[test]
fn a_playback_that_succeeds_goes_through_every_stage() {
    let mut stage = Stage::start();
    let mut seen = vec![(stage, stage.action())];
    let events = [
        Event::Done,
        Event::Done,
        Event::Done,
        Event::Done,
        Event::Polled { end_of_sequence: false },
        Event::Polled { end_of_sequence: false },
        Event::Polled { end_of_sequence: true },
        Event::Done,
    ];
    for event in events {
        stage = stage.advance(event);
        seen.push((stage, stage.action()));
    }
    assert_eq!(
        seen,
        vec![
            (Stage::Uninitialized, Action::AcquireDevice),
            (Stage::DeviceAcquired, Action::LoadEngine),
            (Stage::EngineLoaded, Action::LoadSequence),
            (Stage::SequenceLoaded, Action::StartStream),
            (Stage::Streaming, Action::Poll { wait_ms: 100 }),
            (Stage::Streaming, Action::Poll { wait_ms: 100 }),
            (Stage::Streaming, Action::Poll { wait_ms: 100 }),
            (Stage::Draining, Action::Settle { wait_ms: 500 }),
            (Stage::Complete, Action::Return),
        ]
    );
    assert!(stage.is_terminal());
}

#[test]
fn waiting_times() {
    assert_eq!(POLL_INTERVAL_MS, 100);
    assert_eq!(SETTLE_MS, 500);
    assert_eq!(BLOCK_SIZE, 4096);
}

#[test]
fn a_setup_step_that_fails_aborts() {
    for stage in [
        Stage::Uninitialized,
        Stage::DeviceAcquired,
        Stage::EngineLoaded,
        Stage::SequenceLoaded,
    ] {
        let aborted = stage.advance(Event::Failed);
        assert_eq!(aborted, Stage::Aborted);
        assert_eq!(aborted.action(), Action::Return);
        assert!(aborted.is_terminal());
    }
}

#[test]
fn nothing_leaves_a_terminal_stage() {
    let events = [
        Event::Done,
        Event::Failed,
        Event::Polled { end_of_sequence: true },
        Event::Polled { end_of_sequence: false },
    ];
    for stage in [Stage::Complete, Stage::Aborted] {
        for event in events {
            assert_eq!(stage.advance(event), stage);
        }
    }
}

#[test]
fn a_running_stream_cannot_be_cancelled() {
    assert_eq!(Stage::Streaming.advance(Event::Failed), Stage::Streaming);
    assert_eq!(Stage::Streaming.advance(Event::Done), Stage::Streaming);
    assert_eq!(Stage::Draining.advance(Event::Failed), Stage::Draining);
    assert_eq!(Stage::Draining.advance(Event::Polled { end_of_sequence: true }), Stage::Draining);
}

#[test]
fn a_poll_means_nothing_during_setup() {
    for stage in [
        Stage::Uninitialized,
        Stage::DeviceAcquired,
        Stage::EngineLoaded,
        Stage::SequenceLoaded,
    ] {
        assert_eq!(stage.advance(Event::Polled { end_of_sequence: true }), stage);
        assert!(!stage.is_terminal());
    }
}

#[test]
fn setup_failures_with_a_cause_name_it() {
    let cases = [
        (SetupFailure::OutputConfig, "Failed to get default output config: busy"),
        (SetupFailure::LoadSoundFont, "Failed to load soundfont: busy"),
        (SetupFailure::CreateSynthesizer, "Failed to create synthesizer: busy"),
        (SetupFailure::ParseMidi, "Failed to parse MIDI: busy"),
        (SetupFailure::BuildStream, "Failed to build output stream: busy"),
        (SetupFailure::PlayStream, "Failed to play stream: busy"),
    ];
    for (failure, expected) in cases {
        assert_eq!(text_of(failure.error("busy")), expected);
    }
}

#[test]
fn setup_failures_without_a_cause_say_only_what_failed() {
    assert_eq!(text_of(SetupFailure::NoOutputDevice.error("ignored")), "No output device available");
    assert_eq!(text_of(SetupFailure::SampleFormat.error("ignored")), "Unsupported sample format");
}

#[test]
fn three_sample_formats_are_supported() {
    assert!(SampleFormat::F32.check().is_ok());
    assert!(SampleFormat::I16.check().is_ok());
    assert!(SampleFormat::U16.check().is_ok());
}

#[test]
fn any_other_sample_format_is_refused() {
    assert_eq!(text_of(SampleFormat::Other.check().unwrap_err()), "Unsupported sample format");
}

#[test]
fn a_single_channel_takes_the_mean() {
    assert_eq!(route(1, 0), Some(Source::Mean));
    assert_eq!(route(1, 1), None);
}

#[test]
fn two_channels_take_left_and_right() {
    assert_eq!(route(2, 0), Some(Source::Left));
    assert_eq!(route(2, 1), Some(Source::Right));
    assert_eq!(route(2, 2), None);
}

#[test]
fn further_channels_are_left_unwritten() {
    assert_eq!(route(6, 0), Some(Source::Left));
    assert_eq!(route(6, 1), Some(Source::Right));
    for slot in 2..6 {
        assert_eq!(route(6, slot), None);
    }
}

#[test]
fn no_channel_takes_nothing() {
    assert_eq!(route(0, 0), None);
}

#[test]
fn a_single_channel_device_receives_the_mean_in_every_frame() {
    let left = [0.5f32, -1.0, 0.25, 0.0];
    let right = [0.25f32, 1.0, 0.75, -0.5];
    let mut data = [9.0f32; 4];
    for (frame, (l, r)) in data.chunks_mut(1).zip(left.iter().zip(&right)) {
        write_frame(frame, 1, *l, *r, (l + r) * 0.5);
    }
    assert_eq!(data, [0.375, 0.0, 0.5, -0.25]);
}

#[test]
fn a_stereo_device_receives_left_and_right_unchanged() {
    let left = [0.5f32, -1.0, 0.25];
    let right = [0.25f32, 1.0, 0.75];
    let mut data = [9.0f32; 6];
    for (frame, (l, r)) in data.chunks_mut(2).zip(left.iter().zip(&right)) {
        write_frame(frame, 2, *l, *r, (l + r) * 0.5);
    }
    assert_eq!(data, [0.5, 0.25, -1.0, 1.0, 0.25, 0.75]);
}

#[test]
fn channels_beyond_the_second_are_not_written() {
    let mut data = [7i16; 10];
    for (index, frame) in data.chunks_mut(5).enumerate() {
        let base = 100 * (index as i16 + 1);
        write_frame(frame, 5, base + 1, base + 2, base + 3);
    }
    assert_eq!(data, [101, 102, 7, 7, 7, 201, 202, 7, 7, 7]);
}

#[test]
fn a_short_last_frame_takes_what_fits() {
    let mut data = [7u16; 3];
    for frame in data.chunks_mut(2) {
        write_frame(frame, 2, 1, 2, 3);
    }
    assert_eq!(data, [1, 2, 1]);
}

#[test]
fn an_empty_frame_and_a_device_without_channels_are_left_alone() {
    let mut nothing: [f32; 0] = [];
    write_frame(&mut nothing, 2, 1.0, 2.0, 1.5);
    let mut frame = [7u16, 7];
    write_frame(&mut frame, 0, 1, 2, 3);
    assert_eq!(frame, [7, 7]);
}

#[test]
fn writing_a_frame_follows_the_routing() {
    for channels in 0..5usize {
        let mut frame = vec!['-'; channels];
        write_frame(&mut frame, channels, 'l', 'r', 'm');
        for (slot, written) in frame.iter().enumerate() {
            let expected = match route(channels, slot) {
                Some(Source::Mean) => 'm',
                Some(Source::Left) => 'l',
                Some(Source::Right) => 'r',
                None => '-',
            };
            assert_eq!(*written, expected);
        }
    }
}

#[test]
fn the_first_block_is_consumed_before_any_refill() {
    let mut cursor = BlockCursor::new();
    for index in 0..BLOCK_SIZE {
        assert_eq!(cursor.next_frame(), FrameStep { refill: false, index });
    }
    assert_eq!(cursor.next_frame(), FrameStep { refill: true, index: 0 });
    assert_eq!(cursor.next_frame(), FrameStep { refill: false, index: 1 });
}

#[test]
fn one_refill_for_every_block_of_frames() {
    let mut cursor = BlockCursor::new();
    let mut refills = 0;
    for _ in 0..(3 * BLOCK_SIZE + 1) {
        let step = cursor.next_frame();
        assert!(step.index < BLOCK_SIZE);
        if step.refill {
            refills += 1;
        }
    }
    assert_eq!(refills, 3);
}
