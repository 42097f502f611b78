//! What the user has chosen for the conversions to come.

use vstd::prelude::*;
use vstd::string::*;

use crate::models::audio_file::{
    default_container, legal_container, legal_sample_rate, AudioCodec, AudioContainer,
    AudioSampleRate,
};

verus! {

/// Colour scheme of the user interface.
#[derive(Clone, Copy, Debug, PartialEq, Eq, Structural)]
pub enum AppTheme {
    System,
    Dark,
    Light,
}

/// How output files are grouped into folders below the output directory.
#[derive(Clone, Copy, Debug, PartialEq, Eq, Structural)]
pub enum OutputGrouping {
    /// All files go to the output directory itself.
    NoGrouping,
    /// A folder named like the one that holds the input file.
    Copy,
    /// A folder named after artist and album.
    ArtistAlbum,
    /// A folder named after the album.
    Album,
    /// A folder named after the artist.
    Artist,
}

/// The settings of a conversion. A task keeps its own copy from the moment it
/// is queued, so later edits do not reach work that is already waiting or
/// running.
#[derive(Debug)]
pub struct Settings {
    pub app_theme: AppTheme,
    pub run_concurrent_task_count: usize,
    pub out_codec: AudioCodec,
    pub out_container: AudioContainer,
    pub out_sample_rate: AudioSampleRate,
    pub out_bitrate: usize,
    pub out_directory: String,
    pub out_grouping: OutputGrouping,
    pub out_embed_art: bool,
    pub out_enable_cover_art_resize: bool,
    pub out_cover_art_resolution: u32,
}

impl Clone for Settings {
    fn clone(&self) -> (copy: Self)
        ensures
            copy == *self,
    {
        Settings {
            app_theme: self.app_theme,
            run_concurrent_task_count: self.run_concurrent_task_count,
            out_codec: self.out_codec,
            out_container: self.out_container,
            out_sample_rate: self.out_sample_rate,
            out_bitrate: self.out_bitrate,
            out_directory: self.out_directory.clone(),
            out_grouping: self.out_grouping,
            out_embed_art: self.out_embed_art,
            out_enable_cover_art_resize: self.out_enable_cover_art_resize,
            out_cover_art_resolution: self.out_cover_art_resolution,
        }
    }
}

impl Default for Settings {
    fn default() -> (settings: Self)
        ensures
            settings.valid(),
            settings.app_theme == AppTheme::System,
            settings.run_concurrent_task_count == 2,
            settings.out_codec == AudioCodec::OPUS,
            settings.out_container == AudioContainer::OGG,
            settings.out_sample_rate == AudioSampleRate::Studio48,
            settings.out_bitrate == 64000,
            settings.out_directory@ == "./"@,
            settings.out_grouping == OutputGrouping::ArtistAlbum,
            settings.out_embed_art,
            !settings.out_enable_cover_art_resize,
            settings.out_cover_art_resolution == 500,
    {
        Settings {
            app_theme: AppTheme::System,
            run_concurrent_task_count: 2,
            out_codec: AudioCodec::OPUS,
            out_container: AudioContainer::OGG,
            out_sample_rate: AudioSampleRate::Studio48,
            out_bitrate: 64000,
            out_directory: String::from_str("./"),
            out_grouping: OutputGrouping::ArtistAlbum,
            out_embed_art: true,
            out_enable_cover_art_resize: false,
            out_cover_art_resolution: 500,
        }
    }
}

impl Settings {
    /// The settings are valid when the container is one that the codec can be
    /// packaged into, the sample rate is one that the codec can be asked for,
    /// and at least one task may run at a time.
    pub open spec fn valid(&self) -> bool {
        &&& legal_container(self.out_codec, self.out_container)
        &&& legal_sample_rate(self.out_codec, self.out_sample_rate)
        &&& self.run_concurrent_task_count >= 1
    }

    /// Whether the settings are valid.
    pub fn is_valid(&self) -> (valid: bool)
        ensures
            valid == self.valid(),
    {
        self.out_codec.accepts_container(self.out_container)
            && self.out_codec.accepts_sample_rate(self.out_sample_rate)
            && self.run_concurrent_task_count >= 1
    }

    /// Chooses a codec. The container becomes the codec's default one, and a
    /// sample rate that the codec cannot be asked for falls back to 48 kHz.
    pub fn select_codec(&mut self, codec: AudioCodec)
        ensures
            final(self).out_codec == codec,
            final(self).out_container == default_container(codec),
            final(self).out_sample_rate == if legal_sample_rate(codec, old(self).out_sample_rate) {
                old(self).out_sample_rate
            } else {
                AudioSampleRate::Studio48
            },
            legal_container(final(self).out_codec, final(self).out_container),
            legal_sample_rate(final(self).out_codec, final(self).out_sample_rate),
            old(self).run_concurrent_task_count >= 1 ==> final(self).valid(),
            final(self).run_concurrent_task_count == old(self).run_concurrent_task_count,
            final(self).app_theme == old(self).app_theme,
            final(self).out_bitrate == old(self).out_bitrate,
            final(self).out_directory == old(self).out_directory,
            final(self).out_grouping == old(self).out_grouping,
            final(self).out_embed_art == old(self).out_embed_art,
            final(self).out_enable_cover_art_resize == old(self).out_enable_cover_art_resize,
            final(self).out_cover_art_resolution == old(self).out_cover_art_resolution,
    {
        self.out_codec = codec;
        self.out_container = codec.default_container();
        if !codec.accepts_sample_rate(self.out_sample_rate) {
            self.out_sample_rate = AudioSampleRate::Studio48;
        }
    }

    /// Chooses a container, if the codec can be packaged into it. Says whether
    /// it was taken; the settings are unchanged where it was not.
    pub fn select_container(&mut self, container: AudioContainer) -> (taken: bool)
        ensures
            taken == legal_container(old(self).out_codec, container),
            taken ==> *final(self) == (Settings { out_container: container, ..*old(self) }),
            !taken ==> *final(self) == *old(self),
            old(self).valid() ==> final(self).valid(),
    {
        if self.out_codec.accepts_container(container) {
            self.out_container = container;
            true
        } else {
            false
        }
    }

    /// Chooses a sample rate, if the codec can be asked for it. Says whether
    /// it was taken; the settings are unchanged where it was not.
    pub fn select_sample_rate(&mut self, rate: AudioSampleRate) -> (taken: bool)
        ensures
            taken == legal_sample_rate(old(self).out_codec, rate),
            taken ==> *final(self) == (Settings { out_sample_rate: rate, ..*old(self) }),
            !taken ==> *final(self) == *old(self),
            old(self).valid() ==> final(self).valid(),
    {
        if self.out_codec.accepts_sample_rate(rate) {
            self.out_sample_rate = rate;
            true
        } else {
            false
        }
    }
}

} // verus!
