use midi_playback::args::{Args, Generate};
use std::path::PathBuf;

fn generate(run: bool, custom_sound: Option<&str>) -> Generate {
    Generate {
        file: PathBuf::from("in.mid"),
        output: Some(PathBuf::from("out.mid")),
        run,
        sound: String::from("piano"),
        custom_sound: custom_sound.map(PathBuf::from),
    }
}

fn args(run: bool, output: Option<&str>) -> Args {
    Args {
        file: PathBuf::from("in.mid"),
        output: output.map(PathBuf::from),
        run,
        list: false,
        sound: String::from("piano"),
        custom_sound: None,
    }
}

#[test]
fn a_custom_soundfont_implies_playing() {
    let mut options = generate(false, Some("my.sf2"));
    options.resolve();
    assert!(options.run);
}

#[test]
fn without_a_custom_soundfont_nothing_changes() {
    let mut options = generate(false, None);
    options.resolve();
    assert!(!options.run);
    let mut options = generate(true, None);
    options.resolve();
    assert!(options.run);
}

#[test]
fn resolving_leaves_the_other_options_alone() {
    let mut options = generate(true, Some("my.sf2"));
    options.resolve();
    assert!(options.run);
    assert_eq!(options.file, PathBuf::from("in.mid"));
    assert_eq!(options.output, Some(PathBuf::from("out.mid")));
    assert_eq!(options.sound, "piano");
    assert_eq!(options.custom_sound, Some(PathBuf::from("my.sf2")));
}

#[test]
fn resolving_twice_is_resolving_once() {
    let mut once = generate(false, Some("my.sf2"));
    once.resolve();
    let mut twice = once.clone();
    twice.resolve();
    assert_eq!(once.run, twice.run);
}

#[test]
fn nowhere_to_save_implies_playing() {
    assert!(Args::parse(args(false, None)).run);
}

#[test]
fn with_somewhere_to_save_playing_is_as_asked() {
    assert!(!Args::parse(args(false, Some("out.mid"))).run);
    assert!(Args::parse(args(true, Some("out.mid"))).run);
}

#[test]
fn parsing_leaves_the_other_options_alone() {
    let parsed = Args::parse(args(false, None));
    assert_eq!(parsed.file, PathBuf::from("in.mid"));
    assert_eq!(parsed.output, None);
    assert!(!parsed.list);
    assert_eq!(parsed.sound, "piano");
    assert_eq!(parsed.custom_sound, None);
}
