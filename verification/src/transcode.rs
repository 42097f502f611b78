//! What a conversion asks of encoder, filter chain and output file, worked
//! out from the settings and from what the decoder reports.

use vstd::prelude::*;
use vstd::string::*;

use crate::models::audio_file::{
    container_extension, legal_container, sample_rate_hertz, AudioContainer, AudioFile,
};
use crate::paths::{path_file_stem, path_stem_text, reads_as_stem};
use crate::models::settings::Settings;
use crate::pipeline::TranscodeError;
use crate::text::{
    decimal_digits, hex_digits, join_path, joined_path, push_decimal, push_hex,
    push_signed_decimal, signed_decimal_digits,
};

verus! {

/// The length of one tick of a stream's clock, in seconds, as a fraction.
#[derive(Clone, Copy, Debug, PartialEq, Eq, Structural)]
pub struct TimeBase {
    pub numerator: i32,
    pub denominator: i32,
}

/// How the encoder of a conversion is to be set up.
#[derive(Clone, Copy, Debug, PartialEq, Eq, Structural)]
pub struct EncoderPlan {
    /// Samples per second of the output.
    pub sample_rate: i32,
    /// Bits per second asked of the encoder.
    pub bit_rate: usize,
    /// The highest bit rate the encoder may reach: that of the decoder.
    pub max_bit_rate: usize,
    /// The time base of encoder and output stream: one tick per sample of
    /// the input.
    pub time_base: TimeBase,
    /// Whether the encoder must write a global header, because the output
    /// container asks for one.
    pub global_header: bool,
}

/// What is asked of the encoder for given settings and a given decoder, or
/// the error that stops the conversion before it starts.
pub open spec fn encoder_plan(
    settings: Settings,
    decoder_rate: u32,
    decoder_max_bit_rate: usize,
    global_header: bool,
) -> Result<EncoderPlan, TranscodeError> {
    if !legal_container(settings.out_codec, settings.out_container) {
        Err(TranscodeError::IllegalContainer)
    } else if decoder_rate == 0 || decoder_rate > i32::MAX {
        Err(TranscodeError::InputUnsupported)
    } else {
        Ok(
            EncoderPlan {
                sample_rate: sample_rate_hertz(settings.out_sample_rate) as i32,
                bit_rate: settings.out_bitrate,
                max_bit_rate: decoder_max_bit_rate,
                time_base: TimeBase { numerator: 1, denominator: decoder_rate as i32 },
                global_header,
            },
        )
    }
}

/// Works out how the encoder is to be set up. The sample rate is the one the
/// settings ask for, the bit rate too; the highest bit rate and the time base
/// follow the decoder. A container that the codec cannot be packaged into is
/// an error, and so is a decoder whose sample rate is zero or does not fit
/// the encoder's field.
pub fn plan_encoder(
    settings: &Settings,
    decoder_rate: u32,
    decoder_max_bit_rate: usize,
    global_header: bool,
) -> (plan: Result<EncoderPlan, TranscodeError>)
    ensures
        plan == encoder_plan(*settings, decoder_rate, decoder_max_bit_rate, global_header),
{
    if !settings.out_codec.accepts_container(settings.out_container) {
        Err(TranscodeError::IllegalContainer)
    } else if decoder_rate == 0 || decoder_rate > 0x7fff_ffff {
        Err(TranscodeError::InputUnsupported)
    } else {
        Ok(
            EncoderPlan {
                sample_rate: settings.out_sample_rate.hertz() as i32,
                bit_rate: settings.out_bitrate,
                max_bit_rate: decoder_max_bit_rate,
                time_base: TimeBase { numerator: 1, denominator: decoder_rate as i32 },
                global_header,
            },
        )
    }
}

/// The arguments of the filter chain's source, which takes the decoded
/// frames as the decoder hands them out.
pub open spec fn source_arguments(
    time_base: TimeBase,
    sample_rate: u32,
    sample_format: Seq<char>,
    channel_layout: u64,
) -> Seq<char> {
    "time_base="@ + signed_decimal_digits(time_base.numerator as int) + "/"@ + signed_decimal_digits(
        time_base.denominator as int,
    ) + ":sample_rate="@ + decimal_digits(sample_rate as nat) + ":sample_fmt="@ + sample_format
        + ":channel_layout=0x"@ + hex_digits(channel_layout as nat)
}

/// The description of the filter chain between source and sink: resample to
/// the encoder's rate, then reformat to its sample format and channel layout.
pub open spec fn chain_description(
    sample_rate: u32,
    sample_format: Seq<char>,
    channel_layout: u64,
) -> Seq<char> {
    "aresample="@ + decimal_digits(sample_rate as nat) + ",aformat=sample_fmts="@ + sample_format
        + ":channel_layouts="@ + decimal_digits(channel_layout as nat)
}

/// The sink's frame size: that of the encoder where the encoder is known and
/// takes frames of one size only, none otherwise.
pub open spec fn sink_frame_size(variable_frame_size: Option<bool>, frame_size: u32) -> Option<
    u32,
> {
    if variable_frame_size == Some(false) {
        Some(frame_size)
    } else {
        None
    }
}

/// The format of the frames at one end of the filter chain.
#[derive(Debug)]
pub struct FrameFormat {
    /// Samples per second.
    pub sample_rate: u32,
    /// The name of the sample format.
    pub sample_format: String,
    /// The channel layout, as the bits of its mask.
    pub channel_layout: u64,
}

/// How the filter chain of a conversion is to be built.
#[derive(Debug)]
pub struct FilterPlan {
    /// The arguments of the source.
    pub source: String,
    /// The description of the chain between source and sink.
    pub chain: String,
    /// The frame size to hold the sink to, if any.
    pub frame_size: Option<u32>,
}

/// Writes the arguments of the filter chain's source.
pub fn source_args(time_base: TimeBase, decoder: &FrameFormat) -> (text: String)
    ensures
        text@ == source_arguments(
            time_base,
            decoder.sample_rate,
            decoder.sample_format@,
            decoder.channel_layout,
        ),
{
    let mut text = String::from_str("time_base=");
    push_signed_decimal(&mut text, time_base.numerator);
    text.append("/");
    push_signed_decimal(&mut text, time_base.denominator);
    text.append(":sample_rate=");
    push_decimal(&mut text, decoder.sample_rate as u64);
    text.append(":sample_fmt=");
    text.append(decoder.sample_format.as_str());
    text.append(":channel_layout=0x");
    push_hex(&mut text, decoder.channel_layout);
    text
}

/// Writes the description of the filter chain between source and sink.
pub fn filter_chain(encoder: &FrameFormat) -> (text: String)
    ensures
        text@ == chain_description(
            encoder.sample_rate,
            encoder.sample_format@,
            encoder.channel_layout,
        ),
{
    let mut text = String::from_str("aresample=");
    push_decimal(&mut text, encoder.sample_rate as u64);
    text.append(",aformat=sample_fmts=");
    text.append(encoder.sample_format.as_str());
    text.append(":channel_layouts=");
    push_decimal(&mut text, encoder.channel_layout);
    text
}

/// Works out how the filter chain is to be built: a source that takes what
/// the decoder hands out, a chain that turns it into what the encoder takes,
/// and a sink that is held to the encoder's frame size where the encoder
/// takes frames of one size only. `variable_frame_size` is `None` where the
/// encoder's codec is not known.
pub fn plan_filter(
    decoder_time_base: TimeBase,
    decoder: &FrameFormat,
    encoder: &FrameFormat,
    variable_frame_size: Option<bool>,
    encoder_frame_size: u32,
) -> (plan: FilterPlan)
    ensures
        plan.source@ == source_arguments(
            decoder_time_base,
            decoder.sample_rate,
            decoder.sample_format@,
            decoder.channel_layout,
        ),
        plan.chain@ == chain_description(
            encoder.sample_rate,
            encoder.sample_format@,
            encoder.channel_layout,
        ),
        plan.frame_size == sink_frame_size(variable_frame_size, encoder_frame_size),
{
    let frame_size = match variable_frame_size {
        Some(false) => Some(encoder_frame_size),
        _ => None,
    };
    FilterPlan { source: source_args(decoder_time_base, decoder), chain: filter_chain(encoder), frame_size }
}

/// The name of an output file: the input's stem and the container's
/// extension.
pub open spec fn output_name(stem: Seq<char>, container: AudioContainer) -> Seq<char> {
    stem + container_extension(container)
}

/// The path of an output file: its name below the output directory.
pub open spec fn output_location(
    directory: Seq<char>,
    stem: Seq<char>,
    container: AudioContainer,
) -> Seq<char> {
    joined_path(directory, output_name(stem, container))
}

/// The path of the output file for an input with the given stem.
pub fn output_path(directory: &str, stem: &str, container: AudioContainer) -> (path: String)
    ensures
        path@ == output_location(directory@, stem@, container),
{
    let mut name = String::from_str(stem);
    name.append(container.extension());
    join_path(directory, name.as_str())
}

/// The stem of an output file's name: the stem of the input's file name,
/// or the input's title where its path has no file name.
pub open spec fn output_stem(stem: Option<Seq<char>>, file: AudioFile) -> Option<Seq<char>> {
    match stem {
        Some(s) => Some(s),
        None => match file.title {
            Some(title) => Some(title@),
            None => None,
        },
    }
}

/// Whether `path` is the output path of an input whose file stem is `stem`,
/// or the failure of an input that has neither a file stem nor a title.
pub open spec fn is_target(
    path: Result<String, TranscodeError>,
    directory: Seq<char>,
    file: AudioFile,
    stem: Option<Seq<char>>,
    container: AudioContainer,
) -> bool {
    match output_stem(stem, file) {
        Some(name) => path matches Ok(p) && p@ == output_location(directory, name, container),
        None => path == Err::<String, TranscodeError>(TranscodeError::OutputUnwritable),
    }
}

/// The path of the output file of an input whose file stem is already known.
/// An input that has neither a file stem nor a title has no output path, and
/// its conversion fails before it starts.
pub fn target_path(
    directory: &str,
    file: &AudioFile,
    stem: Option<&str>,
    container: AudioContainer,
) -> (path: Result<String, TranscodeError>)
    ensures
        is_target(
            path,
            directory@,
            *file,
            match stem {
                Some(s) => Some(s@),
                None => None,
            },
            container,
        ),
{
    match stem {
        Some(name) => Ok(output_path(directory, name, container)),
        None => match &file.title {
            Some(title) => Ok(output_path(directory, title.as_str(), container)),
            None => Err(TranscodeError::OutputUnwritable),
        },
    }
}

/// The path of the output file of an input: in the given directory, named
/// by the stem of the input's file name and the container's extension. It
/// is the path that [`target_path`] gives for the stem of the input's path.
/// So the name is a part of the input's path that is not empty, or, where
/// the path has no file name, the input's title; an input with a title always
/// has an output path, and an input with an empty path and no title has
/// none.
pub fn conversion_target(directory: &str, file: &AudioFile, container: AudioContainer) -> (path:
    Result<String, TranscodeError>)
    ensures
        is_target(path, directory@, *file, path_stem_text(file.path@), container),
        reads_as_stem(file.path@, path_stem_text(file.path@)),
{
    match path_file_stem(file.path.as_str()) {
        Some(stem) => target_path(directory, file, Some(stem.as_str()), container),
        None => target_path(directory, file, None, container),
    }
}

} // verus!
