use audio_converter::models::audio_file::{AudioCodec, AudioContainer, AudioFile, AudioSampleRate};
use audio_converter::models::settings::Settings;
use audio_converter::pipeline::TranscodeError;
use audio_converter::transcode::{
    filter_chain, conversion_target, output_path, plan_encoder, plan_filter, source_args,
    target_path, EncoderPlan, FrameFormat, TimeBase,
};

fn format(sample_rate: u32, sample_format: &str, channel_layout: u64) -> FrameFormat {
    FrameFormat { sample_rate, sample_format: sample_format.to_string(), channel_layout }
}

fn file(path: &str, title: Option<&str>) -> AudioFile {
    AudioFile {
        path: path.to_string(),
        artist: None,
        album: None,
        title: title.map(|t| t.to_string()),
        track: None,
    }
}

#[test]
fn the_encoder_follows_settings_and_decoder() {
    let settings = Settings::default();
    assert_eq!(
        plan_encoder(&settings, 44100, 320_000, true),
        Ok(EncoderPlan {
            sample_rate: 48000,
            bit_rate: 64000,
            max_bit_rate: 320_000,
            time_base: TimeBase { numerator: 1, denominator: 44100 },
            global_header: true,
        })
    );
    let mut settings = Settings::default();
    settings.select_codec(AudioCodec::FLAC);
    settings.select_sample_rate(AudioSampleRate::HiRes96);
    settings.out_bitrate = 0;
    assert_eq!(
        plan_encoder(&settings, 0x7fff_ffff, 0, false),
        Ok(EncoderPlan {
            sample_rate: 96000,
            bit_rate: 0,
            max_bit_rate: 0,
            time_base: TimeBase { numerator: 1, denominator: i32::MAX },
            global_header: false,
        })
    );
    settings.select_sample_rate(AudioSampleRate::CD44);
    assert_eq!(plan_encoder(&settings, 8000, 1, false).map(|p| p.sample_rate), Ok(44100));
}

#[test]
fn a_conversion_that_cannot_start_is_an_error() {
    let settings = Settings::default();
    assert_eq!(plan_encoder(&settings, 0, 1, false), Err(TranscodeError::InputUnsupported));
    assert_eq!(
        plan_encoder(&settings, 0x8000_0000, 1, false),
        Err(TranscodeError::InputUnsupported)
    );
    let mut settings = Settings::default();
    settings.out_container = AudioContainer::MP3;
    assert_eq!(plan_encoder(&settings, 44100, 1, false), Err(TranscodeError::IllegalContainer));
    assert_eq!(plan_encoder(&settings, 0, 1, false), Err(TranscodeError::IllegalContainer));
}

#[test]
fn the_source_of_the_filter_chain_takes_what_the_decoder_gives() {
    let text = source_args(TimeBase { numerator: 1, denominator: 44100 }, &format(44100, "s16", 3));
    assert_eq!(text, "time_base=1/44100:sample_rate=44100:sample_fmt=s16:channel_layout=0x3");
    let text = source_args(TimeBase { numerator: -1, denominator: 0 }, &format(0, "", 0x63f));
    assert_eq!(text, "time_base=-1/0:sample_rate=0:sample_fmt=:channel_layout=0x63f");
}

#[test]
fn the_filter_chain_gives_what_the_encoder_takes() {
    assert_eq!(
        filter_chain(&format(48000, "flt", 3)),
        "aresample=48000,aformat=sample_fmts=flt:channel_layouts=3"
    );
    assert_eq!(
        filter_chain(&format(96000, "s32", 1599)),
        "aresample=96000,aformat=sample_fmts=s32:channel_layouts=1599"
    );
}

#[test]
fn the_sink_is_held_to_the_frame_size_of_an_encoder_that_needs_it() {
    let decoder = format(44100, "s16p", 4);
    let encoder = format(48000, "flt", 3);
    let base = TimeBase { numerator: 1, denominator: 44100 };
    let plan = plan_filter(base, &decoder, &encoder, Some(false), 960);
    assert_eq!(plan.source, "time_base=1/44100:sample_rate=44100:sample_fmt=s16p:channel_layout=0x4");
    assert_eq!(plan.chain, "aresample=48000,aformat=sample_fmts=flt:channel_layouts=3");
    assert_eq!(plan.frame_size, Some(960));
    assert_eq!(plan_filter(base, &decoder, &encoder, Some(true), 960).frame_size, None);
    assert_eq!(plan_filter(base, &decoder, &encoder, None, 960).frame_size, None);
}

#[test]
fn the_output_is_named_by_stem_and_container() {
    assert_eq!(output_path("/out/A - B", "song", AudioContainer::OPUS), "/out/A - B/song.opus");
    assert_eq!(output_path("/out/A - B", "song", AudioContainer::OGG), "/out/A - B/song.ogg");
    assert_eq!(output_path("./", "a.b", AudioContainer::FLAC), "./a.b.flac");
    assert_eq!(output_path("", "x", AudioContainer::M4A), "x.m4a");
    assert_eq!(output_path("/", "", AudioContainer::MP3), "/.mp3");
}

#[test]
fn the_title_names_the_output_of_a_path_without_file_name() {
    let titled = file("..", Some("Title"));
    assert_eq!(
        target_path("/out", &titled, Some("stem"), AudioContainer::MP3),
        Ok("/out/stem.mp3".to_string())
    );
    assert_eq!(
        target_path("/out", &titled, None, AudioContainer::MP3),
        Ok("/out/Title.mp3".to_string())
    );
    assert_eq!(
        target_path("/out", &file("..", None), None, AudioContainer::MP3),
        Err(TranscodeError::OutputUnwritable)
    );
}

#[test]
fn the_output_takes_the_stem_of_the_input() {
    assert_eq!(
        conversion_target("/out", &file("/music/album/song.flac", None), AudioContainer::OGG),
        Ok("/out/song.ogg".to_string())
    );
    assert_eq!(
        conversion_target("/out", &file("song.tar.wav", Some("T")), AudioContainer::M4A),
        Ok("/out/song.tar.m4a".to_string())
    );
    assert_eq!(
        conversion_target("/out", &file("", Some("T")), AudioContainer::M4A),
        Ok("/out/T.m4a".to_string())
    );
    assert_eq!(
        conversion_target("/out", &file("", None), AudioContainer::M4A),
        Err(TranscodeError::OutputUnwritable)
    );
}
