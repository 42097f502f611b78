use audio_converter::models::audio_file::{AudioCodec, AudioContainer, AudioSampleRate};
use audio_converter::models::settings::{AppTheme, OutputGrouping, Settings};

#[test]
fn default_settings_are_valid() {
    let settings = Settings::default();
    assert!(settings.is_valid());
    assert_eq!(settings.app_theme, AppTheme::System);
    assert_eq!(settings.run_concurrent_task_count, 2);
    assert_eq!(settings.out_codec, AudioCodec::OPUS);
    assert_eq!(settings.out_container, AudioContainer::OGG);
    assert_eq!(settings.out_sample_rate, AudioSampleRate::Studio48);
    assert_eq!(settings.out_bitrate, 64000);
    assert_eq!(settings.out_directory, "./");
    assert_eq!(settings.out_grouping, OutputGrouping::ArtistAlbum);
    assert!(settings.out_embed_art);
    assert!(!settings.out_enable_cover_art_resize);
    assert_eq!(settings.out_cover_art_resolution, 500);
}

#[test]
fn every_codec_has_its_legal_containers() {
    let codecs = [
        AudioCodec::FLAC,
        AudioCodec::MP3,
        AudioCodec::AAC,
        AudioCodec::OPUS,
        AudioCodec::VORBIS,
    ];
    let containers = [
        AudioContainer::FLAC,
        AudioContainer::MP3,
        AudioContainer::M4A,
        AudioContainer::OPUS,
        AudioContainer::OGG,
    ];
    let legal = [
        [true, false, false, false, false],
        [false, true, false, false, false],
        [false, false, true, false, false],
        [false, false, false, true, true],
        [false, false, false, false, true],
    ];
    for (i, codec) in codecs.iter().enumerate() {
        for (j, container) in containers.iter().enumerate() {
            assert_eq!(codec.accepts_container(*container), legal[i][j]);
        }
        assert!(codec.accepts_container(codec.default_container()));
    }
}

#[test]
fn container_extensions_and_sample_rates() {
    assert_eq!(AudioContainer::FLAC.extension(), ".flac");
    assert_eq!(AudioContainer::MP3.extension(), ".mp3");
    assert_eq!(AudioContainer::M4A.extension(), ".m4a");
    assert_eq!(AudioContainer::OGG.extension(), ".ogg");
    assert_eq!(AudioContainer::OPUS.extension(), ".opus");
    assert_eq!(AudioSampleRate::CD44.hertz(), 44100);
    assert_eq!(AudioSampleRate::Studio48.hertz(), 48000);
    assert_eq!(AudioSampleRate::HiRes96.hertz(), 96000);
}

#[test]
fn the_highest_sample_rate_is_for_flac_alone() {
    assert!(AudioCodec::FLAC.accepts_sample_rate(AudioSampleRate::HiRes96));
    for codec in [AudioCodec::MP3, AudioCodec::AAC, AudioCodec::OPUS, AudioCodec::VORBIS] {
        assert!(!codec.accepts_sample_rate(AudioSampleRate::HiRes96));
        assert!(codec.accepts_sample_rate(AudioSampleRate::CD44));
        assert!(codec.accepts_sample_rate(AudioSampleRate::Studio48));
    }
}

#[test]
fn selecting_a_codec_keeps_the_settings_valid() {
    let mut settings = Settings::default();
    settings.select_codec(AudioCodec::FLAC);
    assert_eq!(settings.out_container, AudioContainer::FLAC);
    assert!(settings.select_sample_rate(AudioSampleRate::HiRes96));
    assert!(settings.is_valid());
    settings.select_codec(AudioCodec::MP3);
    assert_eq!(settings.out_codec, AudioCodec::MP3);
    assert_eq!(settings.out_container, AudioContainer::MP3);
    assert_eq!(settings.out_sample_rate, AudioSampleRate::Studio48);
    assert!(settings.is_valid());
    settings.select_sample_rate(AudioSampleRate::CD44);
    settings.select_codec(AudioCodec::VORBIS);
    assert_eq!(settings.out_container, AudioContainer::OGG);
    assert_eq!(settings.out_sample_rate, AudioSampleRate::CD44);
}

#[test]
fn an_illegal_choice_is_not_taken() {
    let mut settings = Settings::default();
    assert!(!settings.select_container(AudioContainer::MP3));
    assert_eq!(settings.out_container, AudioContainer::OGG);
    assert!(settings.select_container(AudioContainer::OPUS));
    assert_eq!(settings.out_container, AudioContainer::OPUS);
    assert!(!settings.select_sample_rate(AudioSampleRate::HiRes96));
    assert_eq!(settings.out_sample_rate, AudioSampleRate::Studio48);
}

#[test]
fn settings_without_room_for_a_task_are_invalid() {
    let mut settings = Settings::default();
    settings.run_concurrent_task_count = 0;
    assert!(!settings.is_valid());
    let mut settings = Settings::default();
    settings.out_container = AudioContainer::M4A;
    assert!(!settings.is_valid());
}

#[test]
fn a_copy_of_the_settings_is_not_touched_by_later_edits() {
    let mut settings = Settings::default();
    let snapshot = settings.clone();
    settings.select_codec(AudioCodec::FLAC);
    settings.out_directory.push_str("elsewhere");
    assert_eq!(snapshot.out_codec, AudioCodec::OPUS);
    assert_eq!(snapshot.out_directory, "./");
}
