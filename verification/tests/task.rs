use audio_converter::models::audio_file::AudioFile;
use audio_converter::models::settings::{OutputGrouping, Settings};
use audio_converter::models::task::{
    display_line, poll_ends_task, resolve_output_directory, StatusPoll, Task, TaskStatus,
    NO_ALBUM, NO_ARTIST, NO_TITLE,
};
use audio_converter::pipeline::TranscodeError;

fn file(path: &str, artist: Option<&str>, album: Option<&str>, title: Option<&str>) -> AudioFile {
    AudioFile {
        path: path.to_string(),
        artist: artist.map(|t| t.to_string()),
        album: album.map(|t| t.to_string()),
        title: title.map(|t| t.to_string()),
        track: None,
    }
}

fn settings(directory: &str, grouping: OutputGrouping) -> Settings {
    let mut settings = Settings::default();
    settings.out_directory = directory.to_string();
    settings.out_grouping = grouping;
    settings
}

#[test]
fn the_stand_ins_for_missing_tags() {
    assert_eq!(NO_ARTIST, "<no artist>");
    assert_eq!(NO_ALBUM, "<no album>");
    assert_eq!(NO_TITLE, "<no title>");
}

#[test]
fn the_output_directory_follows_the_grouping() {
    let song = file("/music/folder/song.flac", Some("A"), Some("B"), None);
    let parent = Some("folder");
    let dir = |grouping| resolve_output_directory(&settings("/out", grouping), &song, parent);
    assert_eq!(dir(OutputGrouping::NoGrouping), "/out");
    assert_eq!(dir(OutputGrouping::Copy), "/out/folder");
    assert_eq!(dir(OutputGrouping::ArtistAlbum), "/out/A - B");
    assert_eq!(dir(OutputGrouping::Album), "/out/B");
    assert_eq!(dir(OutputGrouping::Artist), "/out/A");
}

#[test]
fn missing_tags_are_replaced_in_the_folder_name() {
    let song = file("song.flac", None, None, None);
    let dir = |grouping| resolve_output_directory(&settings("./", grouping), &song, None);
    assert_eq!(dir(OutputGrouping::NoGrouping), "./");
    assert_eq!(dir(OutputGrouping::Copy), "./");
    assert_eq!(dir(OutputGrouping::ArtistAlbum), "./<no artist> - <no album>");
    assert_eq!(dir(OutputGrouping::Album), "./<no album>");
    assert_eq!(dir(OutputGrouping::Artist), "./<no artist>");
    let half = file("song.flac", Some("A"), None, None);
    assert_eq!(
        resolve_output_directory(&settings("/out", OutputGrouping::ArtistAlbum), &half, None),
        "/out/A - <no album>"
    );
}

#[test]
fn a_task_finds_the_folder_of_its_file() {
    let song = file("/music/folder/song.flac", Some("A"), Some("B"), None);
    let task = Task::new(song.clone(), settings("/out", OutputGrouping::Copy));
    assert_eq!(task.output_directory(), "/out/folder");
    let task = Task::new(file("song.flac", None, None, None), settings("/out", OutputGrouping::Copy));
    assert_eq!(task.output_directory(), "/out");
    let task = Task::new(file("/song.flac", None, None, None), settings("/out", OutputGrouping::Copy));
    assert_eq!(task.output_directory(), "/out");
    let task = Task::new(song, settings("/out", OutputGrouping::ArtistAlbum));
    assert_eq!(task.output_directory(), "/out/A - B");
}

#[test]
fn a_running_task_is_shown_by_artist_title_and_album() {
    assert_eq!(display_line(&file("x", Some("A"), Some("B"), Some("T"))), "A - T on B");
    assert_eq!(
        display_line(&file("x", None, None, None)),
        "<no artist> - <no title> on <no album>"
    );
}

#[test]
fn only_an_end_or_a_lost_conversion_ends_a_task() {
    assert!(poll_ends_task(StatusPoll::Received(TaskStatus::Completed)));
    assert!(poll_ends_task(StatusPoll::Received(TaskStatus::Failed)));
    assert!(poll_ends_task(StatusPoll::Disconnected));
    assert!(!poll_ends_task(StatusPoll::Received(TaskStatus::Started)));
    assert!(!poll_ends_task(StatusPoll::Received(TaskStatus::Paused)));
    assert!(!poll_ends_task(StatusPoll::Empty));
}

#[test]
fn a_new_task_waits() {
    let task = Task::new(file("a.flac", None, None, None), Settings::default());
    assert!(!task.is_started());
    assert!(!task.is_complete());
    assert!(!task.is_complete());
    assert_eq!(task.file.path, "a.flac");
}

#[test]
fn a_started_task_hands_out_its_job() {
    let song = file("/m/a.flac", Some("A"), Some("B"), None);
    let mut task = Task::new(song.clone(), settings("/out", OutputGrouping::ArtistAlbum));
    let job = task.start_transcode();
    assert!(task.is_started());
    assert_eq!(task.file, song);
    assert_eq!(job.file, song);
    assert_eq!(job.out_dir, "/out/A - B");
    assert_eq!(job.settings.out_directory, "/out");
    assert_eq!(job.settings.out_grouping, OutputGrouping::ArtistAlbum);
}

#[test]
fn a_task_ends_when_its_conversion_reports_the_end() {
    let mut task = Task::new(file("a.flac", None, None, None), Settings::default());
    let job = task.start_transcode();
    assert!(!task.is_complete());
    assert!(!task.is_complete());
    assert_eq!(job.finish(Ok(())), TaskStatus::Completed);
    assert!(task.is_complete());
}

#[test]
fn a_failed_conversion_ends_its_task_too() {
    let mut task = Task::new(file("a.flac", None, None, None), Settings::default());
    let job = task.start_transcode();
    assert_eq!(job.finish(Err(TranscodeError::Decode)), TaskStatus::Failed);
    assert!(!task.is_complete());
    assert!(task.is_complete());
}

#[test]
fn a_conversion_that_is_gone_without_a_word_ends_its_task() {
    let mut task = Task::new(file("a.flac", None, None, None), Settings::default());
    let job = task.start_transcode();
    drop(job);
    assert!(!task.is_complete());
    assert!(task.is_complete());
    assert!(task.is_complete());
}
