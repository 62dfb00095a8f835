use midi_playback::error::Error;
use midi_playback::soundfont::SoundFont;
use std::io;

#[test]
fn piano_is_built_in() {
    assert!(matches!(SoundFont::new_from_name("piano"), Ok(SoundFont::Piano)));
}

#[test]
fn default_is_the_piano() {
    assert!(matches!(SoundFont::new_from_name("default"), Ok(SoundFont::Piano)));
    assert!(matches!(SoundFont::default(), SoundFont::Piano));
}

#[test]
fn any_other_name_is_refused_with_the_name() {
    for name in ["organ", "", "Piano", "piano "] {
        match SoundFont::new_from_name(name) {
            Err(Error::BuiltInSound(refused)) => assert_eq!(refused, name),
            other => panic!("unexpected: {other:?}"),
        }
    }
}

#[test]
fn the_built_in_soundfonts_are_listed() {
    assert_eq!(SoundFont::list(), vec![String::from("piano")]);
}

#[test]
fn every_listed_name_is_built_in() {
    for name in SoundFont::list() {
        assert!(SoundFont::new_from_name(&name).is_ok());
    }
}

#[test]
fn the_piano_has_the_bundled_bytes() {
    let bundled = [1u8, 2, 3];
    assert_eq!(SoundFont::Piano.get_bytes(&bundled), &[1, 2, 3]);
}

#[test]
fn a_file_has_its_own_bytes() {
    let bundled = [1u8, 2, 3];
    let sound = SoundFont::new_from_file(Ok(vec![9, 8])).unwrap();
    assert!(matches!(&sound, SoundFont::FromFile(bytes) if bytes == &[9, 8]));
    assert_eq!(sound.get_bytes(&bundled), &[9, 8]);
}

#[test]
fn an_empty_file_is_taken_as_it_is() {
    let sound = SoundFont::new_from_file(Ok(vec![])).unwrap();
    assert_eq!(sound.get_bytes(&[1]), &[] as &[u8]);
}

#[test]
fn a_file_that_cannot_be_read_gives_no_soundfont() {
    let cause = io::Error::new(io::ErrorKind::NotFound, "no such file");
    match SoundFont::new_from_file(Err(cause)) {
        Err(error @ Error::ReadSoundFontFile(_)) => {
            assert_eq!(error.message(), "Failed to read sound font file: no such file")
        }
        other => panic!("unexpected: {other:?}"),
    }
}
