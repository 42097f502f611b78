use audio_converter::cover_art::{cover_for, output_metadata, parse_flac_picture_block, CoverEmbedding};
use audio_converter::models::audio_file::{AudioCodec, AudioContainer, AudioFile, Tags};
use audio_converter::models::settings::{OutputGrouping, Settings};
use audio_converter::pipeline::{Operation, Outcome, Pipeline};
use audio_converter::tasks_manager::TasksManager;
use audio_converter::transcode::{conversion_target, plan_encoder};
use base64::Engine;

fn song() -> AudioFile {
    let tags = Tags {
        artist: Some("A".to_string()),
        album: Some("B".to_string()),
        title: None,
        track: None,
    };
    AudioFile::new("song.flac".to_string(), tags).expect("an audio file")
}

fn opus_settings(container: AudioContainer) -> Settings {
    let mut settings = Settings::default();
    settings.select_codec(AudioCodec::OPUS);
    assert!(settings.select_container(container));
    settings.out_bitrate = 64000;
    settings.out_grouping = OutputGrouping::ArtistAlbum;
    settings.out_embed_art = true;
    settings.out_directory = "/out".to_string();
    settings
}

fn attached_art() -> Vec<u8> {
    let image = image::RgbImage::from_pixel(2, 2, image::Rgb([1, 2, 3]));
    let mut bytes = std::io::Cursor::new(Vec::new());
    image.write_to(&mut bytes, image::ImageFormat::Png).expect("a PNG file");
    bytes.into_inner()
}

#[test]
fn a_flac_song_becomes_an_opus_file_in_the_folder_of_its_album() {
    let settings = opus_settings(AudioContainer::OPUS);
    let mut manager = TasksManager::new();
    manager.queue_audio_file(song(), &settings).expect("queued");
    let jobs = manager.update(&settings);
    assert_eq!(jobs.len(), 1);
    let job = &jobs[0];
    assert_eq!(job.out_dir, "/out/A - B");
    assert_eq!(
        conversion_target(&job.out_dir, &job.file, job.settings.out_container),
        Ok("/out/A - B/song.opus".to_string())
    );
    let plan = plan_encoder(&job.settings, 44100, 0, false).expect("a plan");
    assert_eq!(plan.sample_rate, 48000);
    assert_eq!(plan.bit_rate, 64000);
}

#[test]
fn the_ogg_container_names_the_file_by_its_own_extension() {
    let settings = opus_settings(AudioContainer::OGG);
    let mut manager = TasksManager::new();
    manager.queue_audio_file(song(), &settings).expect("queued");
    let jobs = manager.update(&settings);
    assert_eq!(jobs[0].out_dir, "/out/A - B");
    assert_eq!(
        conversion_target(&jobs[0].out_dir, &jobs[0].file, jobs[0].settings.out_container),
        Ok("/out/A - B/song.ogg".to_string())
    );
}

#[test]
fn attached_art_becomes_the_picture_tag_of_the_opus_file() {
    let settings = opus_settings(AudioContainer::OGG);
    let art = attached_art();
    let cover = cover_for(&settings, Some(art.clone()));
    assert!(!cover.needs_stream());
    let input_tags = vec![
        ("ARTIST".to_string(), "A".to_string()),
        ("ALBUM".to_string(), "B".to_string()),
    ];
    let metadata = output_metadata(input_tags, &cover);
    assert_eq!(metadata.len(), 3);
    assert_eq!(metadata[0], ("ARTIST".to_string(), "A".to_string()));
    assert_eq!(metadata[1], ("ALBUM".to_string(), "B".to_string()));
    assert_eq!(metadata[2].0, "METADATA_BLOCK_PICTURE");
    let block = base64::engine::general_purpose::STANDARD.decode(&metadata[2].1).expect("base64");
    let picture = parse_flac_picture_block(&block).expect("a picture block");
    assert_eq!(picture.picture_type, 3);
    assert_eq!(picture.mime, "image/png");
    assert_eq!(picture.description, "Front cover");
    assert_eq!(picture.data, art);

    let without = cover_for(&settings, None);
    assert_eq!(without, CoverEmbedding::Skip);
    assert_eq!(output_metadata(Vec::new(), &without), Vec::new());
}

#[test]
fn an_mp3_with_cover_gets_two_streams_and_one_cover_packet() {
    let mut settings = Settings::default();
    settings.select_codec(AudioCodec::MP3);
    let cover = cover_for(&settings, Some(attached_art()));
    assert_eq!(cover.stream_count(), 2);
    let mut pipeline = Pipeline::new(cover.needs_stream());
    let outcomes = [
        Outcome::Done,
        Outcome::Done,
        Outcome::Item(0),
        Outcome::Done,
        Outcome::Done,
        Outcome::Done,
        Outcome::Done,
        Outcome::Done,
        Outcome::Item(0),
        Outcome::Done,
        Outcome::Item(0),
        Outcome::Done,
        Outcome::Item(0),
        Outcome::Done,
        Outcome::Item(0),
        Outcome::Done,
        Outcome::Empty,
        Outcome::Empty,
        Outcome::Empty,
        Outcome::Empty,
        Outcome::Done,
        Outcome::Empty,
        Outcome::Done,
        Outcome::Empty,
        Outcome::Done,
        Outcome::Empty,
        Outcome::Done,
        Outcome::Done,
    ];
    let mut done = vec![pipeline.awaited()];
    for outcome in outcomes {
        done.push(pipeline.advance(outcome));
    }
    let count = |operation: Operation| done.iter().filter(|o| **o == operation).count();
    assert_eq!(pipeline.result(), Some(Ok(())));
    assert_eq!(count(Operation::OpenEncoder) + count(Operation::AddCoverStream), 2);
    assert_eq!(count(Operation::WriteCover), 1);
    assert_eq!(count(Operation::WriteHeader), 1);
    assert_eq!(count(Operation::WriteTrailer), 1);
    assert_eq!(count(Operation::WritePacket), 1);
    let position = |operation: Operation| done.iter().position(|o| *o == operation).unwrap();
    assert!(position(Operation::WriteHeader) < position(Operation::WritePacket));
    assert!(position(Operation::WritePacket) < position(Operation::WriteCover));
    assert!(position(Operation::FlushDecoder) < position(Operation::FlushFilter));
    assert!(position(Operation::FlushFilter) < position(Operation::FlushEncoder));
    assert!(position(Operation::FlushEncoder) < position(Operation::WriteCover));
    assert!(position(Operation::WriteCover) < position(Operation::WriteTrailer));
}

#[test]
fn two_conversions_of_one_input_write_the_same_tags() {
    let settings = opus_settings(AudioContainer::OGG);
    let art = attached_art();
    let input_tags = || {
        vec![
            ("ARTIST".to_string(), "A".to_string()),
            ("METADATA_BLOCK_PICTURE".to_string(), "old".to_string()),
            ("ALBUM".to_string(), "B".to_string()),
        ]
    };
    let first = output_metadata(input_tags(), &cover_for(&settings, Some(art.clone())));
    let second = output_metadata(input_tags(), &cover_for(&settings, Some(art.clone())));
    assert_eq!(first, second);
    assert_eq!(first.len(), 3);
    assert_eq!(
        plan_encoder(&settings, 44100, 128_000, true),
        plan_encoder(&settings, 44100, 128_000, true)
    );
    let mut settings = settings;
    settings.select_codec(AudioCodec::AAC);
    let first = output_metadata(input_tags(), &cover_for(&settings, Some(art.clone())));
    let second = output_metadata(input_tags(), &cover_for(&settings, Some(art)));
    assert_eq!(first, input_tags());
    assert_eq!(first, second);
}
