use audio_converter::models::audio_file::{
    check_extension, find_cover_stream, is_allowed_input_type, parse_track_string, sort_by_track,
    AudioFile, AudioFileError, StreamInfo, Tags,
};

fn no_tags() -> Tags {
    Tags { artist: None, album: None, title: None, track: None }
}

fn with_track(path: &str, track: Option<&str>) -> AudioFile {
    AudioFile {
        path: path.to_string(),
        artist: None,
        album: None,
        title: None,
        track: track.map(|t| t.to_string()),
    }
}

#[test]
fn the_seven_input_types_are_accepted() {
    for extension in ["flac", "mp3", "ogg", "wav", "opus", "aac", "m4a"] {
        assert!(is_allowed_input_type(extension));
        assert_eq!(check_extension(Some(extension)), Ok(()));
    }
    for extension in ["", "txt", "FLAC", "Mp3", "flac ", "jpg", "m4b", "mp"] {
        assert!(!is_allowed_input_type(extension));
        assert_eq!(check_extension(Some(extension)), Err(AudioFileError::NotAnAudioFile));
    }
    assert_eq!(check_extension(None), Err(AudioFileError::NoExtension));
}

#[test]
fn a_file_keeps_its_path_and_tags() {
    let tags = Tags {
        artist: Some("A".to_string()),
        album: Some("B".to_string()),
        title: Some("T".to_string()),
        track: Some("3/12".to_string()),
    };
    let file = AudioFile::new("/music/song.flac".to_string(), tags).expect("an audio file");
    assert_eq!(file.path, "/music/song.flac");
    assert_eq!(file.artist.as_deref(), Some("A"));
    assert_eq!(file.album.as_deref(), Some("B"));
    assert_eq!(file.title.as_deref(), Some("T"));
    assert_eq!(file.track.as_deref(), Some("3/12"));
}

#[test]
fn a_path_is_judged_by_its_extension() {
    assert_eq!(AudioFile::accepts("/music/song.flac"), Ok(()));
    assert_eq!(AudioFile::accepts("song.m4a"), Ok(()));
    assert_eq!(AudioFile::accepts("/music/cover.jpg"), Err(AudioFileError::NotAnAudioFile));
    assert_eq!(AudioFile::accepts("/music/song.FLAC"), Err(AudioFileError::NotAnAudioFile));
    assert_eq!(AudioFile::accepts("/music/song"), Err(AudioFileError::NoExtension));
    assert_eq!(AudioFile::accepts("/music.d/song"), Err(AudioFileError::NoExtension));
    assert_eq!(AudioFile::accepts(""), Err(AudioFileError::NoExtension));
    assert_eq!(
        AudioFile::new("notes.txt".to_string(), no_tags()),
        Err(AudioFileError::NotAnAudioFile)
    );
    assert_eq!(AudioFile::new("notes".to_string(), no_tags()), Err(AudioFileError::NoExtension));
}

#[test]
fn a_file_of_known_extension() {
    let file = AudioFile::from_parts("x".to_string(), Some("ogg"), no_tags());
    assert_eq!(file, Ok(with_track("x", None)));
    assert_eq!(
        AudioFile::from_parts("x.ogg".to_string(), Some("exe"), no_tags()),
        Err(AudioFileError::NotAnAudioFile)
    );
    assert_eq!(
        AudioFile::from_parts("x.ogg".to_string(), None, no_tags()),
        Err(AudioFileError::NoExtension)
    );
}

#[test]
fn the_default_file_is_empty() {
    let file = AudioFile::default();
    assert_eq!(file, with_track("", None));
    assert_eq!(file.clone(), file);
}

#[test]
fn track_numbers_are_read_up_to_the_first_slash() {
    assert_eq!(parse_track_string("1"), Some(1));
    assert_eq!(parse_track_string("1/12"), Some(1));
    assert_eq!(parse_track_string("12/12"), Some(12));
    assert_eq!(parse_track_string("007"), Some(7));
    assert_eq!(parse_track_string("+5"), Some(5));
    assert_eq!(parse_track_string("3/"), Some(3));
    assert_eq!(parse_track_string("3/x/y"), Some(3));
    assert_eq!(parse_track_string("0"), Some(0));
    assert_eq!(parse_track_string("4294967295"), Some(u32::MAX));
    assert_eq!(parse_track_string("4294967296"), None);
    assert_eq!(parse_track_string("99999999999999999999999999"), None);
    assert_eq!(parse_track_string(""), None);
    assert_eq!(parse_track_string("/3"), None);
    assert_eq!(parse_track_string("+"), None);
    assert_eq!(parse_track_string("-1"), None);
    assert_eq!(parse_track_string(" 1"), None);
    assert_eq!(parse_track_string("1 "), None);
    assert_eq!(parse_track_string("1a"), None);
    assert_eq!(parse_track_string("one"), None);
    assert_eq!(parse_track_string("١"), None);
}

#[test]
fn track_numbers_agree_with_the_standard_parser() {
    for text in ["1", "+1", "++1", "01", "", "+", "-0", "4294967295", "4294967296", "1_0", "٣"] {
        assert_eq!(parse_track_string(text), text.parse::<u32>().ok());
    }
}

#[test]
fn track_order_puts_files_without_number_first() {
    assert_eq!(with_track("a", None).track_order(), -1);
    assert_eq!(with_track("a", Some("x")).track_order(), -1);
    assert_eq!(with_track("a", Some("0")).track_order(), 0);
    assert_eq!(with_track("a", Some("4294967295/1")).track_order(), 4294967295);
}

#[test]
fn files_are_sorted_by_track_number() {
    let files = vec![
        with_track("c", Some("3/4")),
        with_track("n", None),
        with_track("a", Some("1/4")),
        with_track("d", Some("10")),
        with_track("b", Some("2")),
    ];
    let sorted = sort_by_track(files);
    let paths: Vec<&str> = sorted.iter().map(|f| f.path.as_str()).collect();
    assert_eq!(paths, vec!["n", "a", "b", "c", "d"]);
    assert_eq!(sort_by_track(Vec::new()), Vec::new());
}

#[test]
fn sorting_keeps_every_file() {
    let files = vec![
        with_track("x", Some("2")),
        with_track("y", Some("2")),
        with_track("x", Some("2")),
        with_track("z", Some("1")),
    ];
    let mut sorted = sort_by_track(files.clone());
    assert_eq!(sorted[0].path, "z");
    let mut before = files;
    before.sort_by(|a, b| a.path.cmp(&b.path));
    sorted.sort_by(|a, b| a.path.cmp(&b.path));
    assert_eq!(sorted, before);
}

#[test]
fn a_directory_gives_its_audio_files_in_track_order() {
    let entries = vec![
        ("/m/two.flac".to_string(), Tags { track: Some("2/3".to_string()), ..no_tags() }),
        ("/m/cover.jpg".to_string(), no_tags()),
        ("/m/three.mp3".to_string(), Tags { track: Some("3/3".to_string()), ..no_tags() }),
        ("/m/README".to_string(), no_tags()),
        ("/m/one.ogg".to_string(), Tags { track: Some("1/3".to_string()), ..no_tags() }),
    ];
    let files = AudioFile::from_directory(true, entries).expect("a directory");
    let paths: Vec<&str> = files.iter().map(|f| f.path.as_str()).collect();
    assert_eq!(paths, vec!["/m/one.ogg", "/m/two.flac", "/m/three.mp3"]);
    assert_eq!(files[0].track.as_deref(), Some("1/3"));
}

#[test]
fn what_is_no_directory_gives_no_files() {
    let entries = vec![("/m/one.ogg".to_string(), no_tags())];
    assert_eq!(AudioFile::from_directory(false, entries), Err(AudioFileError::NotADirectory));
    assert_eq!(AudioFile::from_directory(true, Vec::new()), Ok(Vec::new()));
}

#[test]
fn the_cover_is_the_first_attached_picture() {
    let audio = StreamInfo { index: 0, video: false, attached_picture: false };
    let film = StreamInfo { index: 1, video: true, attached_picture: false };
    let odd = StreamInfo { index: 2, video: false, attached_picture: true };
    let cover = StreamInfo { index: 3, video: true, attached_picture: true };
    let second = StreamInfo { index: 4, video: true, attached_picture: true };
    assert_eq!(find_cover_stream(&[audio, film, odd, cover, second]), Some(3));
    assert_eq!(find_cover_stream(&[second, cover]), Some(4));
    assert_eq!(find_cover_stream(&[audio, film, odd]), None);
    assert_eq!(find_cover_stream(&[]), None);
}

#[test]
fn a_path_is_taken_only_where_an_input_type_stands_behind_a_dot() {
    let types = ["flac", "mp3", "ogg", "wav", "opus", "aac", "m4a"];
    let paths = [
        "song.flac",
        "song.flac/",
        "/music/a.b/song.mp3",
        "a.b.ogg",
        "dir.flac/song",
        ".flac",
        "..",
        ".",
        "song.",
        "song..wav",
        "song.wav.",
        "song.opus.txt",
        "song.txt.opus",
        "m4a",
        "song-m4a",
        "a\\b.aac",
        "C:song.m4a",
        "/",
        "",
    ];
    for path in paths {
        let verdict = AudioFile::accepts(path);
        if !path.contains('.') {
            assert_eq!(verdict, Err(AudioFileError::NoExtension));
        }
        if verdict.is_ok() {
            assert!(types.iter().any(|t| path.contains(&format!(".{t}"))));
        }
        let made = AudioFile::new(path.to_string(), no_tags());
        assert_eq!(made.map(|_| ()), verdict);
    }
    assert_eq!(AudioFile::accepts("song.flac/"), Ok(()));
    assert_eq!(AudioFile::accepts("a.b.ogg"), Ok(()));
    assert_eq!(AudioFile::accepts("song.txt.opus"), Ok(()));
    assert_eq!(AudioFile::accepts("dir.flac/song"), Err(AudioFileError::NoExtension));
    assert_eq!(AudioFile::accepts(".flac"), Err(AudioFileError::NoExtension));
    assert_eq!(AudioFile::accepts("song."), Err(AudioFileError::NotAnAudioFile));
    assert_eq!(AudioFile::accepts("song.opus.txt"), Err(AudioFileError::NotAnAudioFile));
}

#[test]
fn files_of_the_same_track_number_keep_their_order() {
    let files = vec![
        with_track("b2", Some("2")),
        with_track("n1", None),
        with_track("a2", Some("2/9")),
        with_track("x1", Some("1")),
        with_track("n2", Some("no number")),
        with_track("c2", Some("+2")),
        with_track("y1", Some("01")),
    ];
    let sorted = sort_by_track(files);
    let paths: Vec<&str> = sorted.iter().map(|f| f.path.as_str()).collect();
    assert_eq!(paths, vec!["n1", "n2", "x1", "y1", "b2", "a2", "c2"]);
}

#[test]
fn a_listing_holds_each_taken_entry_once_and_no_other() {
    let entry = |path: &str, track: Option<&str>| {
        (path.to_string(), Tags { track: track.map(|t| t.to_string()), ..no_tags() })
    };
    let entries = vec![
        entry("three", Some("3")),
        entry("cover", None),
        entry("one", Some("1")),
        entry("three", Some("3")),
        entry("notes", Some("0")),
        entry("two", Some("2")),
        entry("late", Some("1")),
    ];
    let extensions = vec![
        Some("flac".to_string()),
        Some("jpg".to_string()),
        Some("mp3".to_string()),
        Some("flac".to_string()),
        None,
        Some("m4a".to_string()),
    ];
    let files = AudioFile::from_entries(true, entries, &extensions).expect("a directory");
    let paths: Vec<&str> = files.iter().map(|f| f.path.as_str()).collect();
    assert_eq!(paths, vec!["one", "two", "three", "three"]);
    assert_eq!(files[0].track.as_deref(), Some("1"));
    assert_eq!(
        AudioFile::from_entries(false, vec![entry("a", None)], &vec![Some("flac".to_string())]),
        Err(AudioFileError::NotADirectory)
    );
    assert_eq!(AudioFile::from_entries(true, Vec::new(), &extensions), Ok(Vec::new()));
}

#[test]
fn an_entry_that_is_passed_over_takes_no_other_with_it() {
    let entries = vec![
        ("/m/README".to_string(), no_tags()),
        ("/m/b.flac".to_string(), Tags { track: Some("2".to_string()), ..no_tags() }),
        ("/m/sub.folder".to_string(), no_tags()),
        ("/m/b.flac".to_string(), Tags { track: Some("2".to_string()), ..no_tags() }),
        ("/m/a.wav".to_string(), Tags { track: Some("1".to_string()), ..no_tags() }),
        ("/m/.hidden".to_string(), no_tags()),
        ("/m/c.opus".to_string(), no_tags()),
        ("/m/d.aac.txt".to_string(), no_tags()),
    ];
    let files = AudioFile::from_directory(true, entries).expect("a directory");
    let paths: Vec<&str> = files.iter().map(|f| f.path.as_str()).collect();
    assert_eq!(paths, vec!["/m/c.opus", "/m/a.wav", "/m/b.flac", "/m/b.flac"]);
}
