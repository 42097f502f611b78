//! Input files and the formats that a conversion can produce.

use vstd::prelude::*;
use vstd::seq_lib::*;
use vstd::string::*;

use crate::paths::{
    closes_behind_dot, path_extension, path_extension_text, reads_as_extension,
};
use crate::text::text_eq;

verus! {

/// Why an album cover could not be shown.
#[derive(Clone, Copy, Debug, PartialEq, Eq, Structural)]
pub enum AlbumArtError {
    NotFound,
    DecodeFailed,
}

/// Why a path was not taken as an input file.
#[derive(Clone, Copy, Debug, PartialEq, Eq, Structural)]
pub enum AudioFileError {
    /// The path has an extension, but not one of the accepted ones.
    NotAnAudioFile,
    /// A directory was asked for and the path is none.
    NotADirectory,
    /// The path has no extension at all.
    NoExtension,
}

/// The codecs that a conversion can encode to.
#[derive(Clone, Copy, Debug, PartialEq, Eq, Structural)]
pub enum AudioCodec {
    FLAC,
    MP3,
    AAC,
    OPUS,
    VORBIS,
}

/// The containers that a conversion can write.
#[derive(Clone, Copy, Debug, PartialEq, Eq, Structural)]
pub enum AudioContainer {
    FLAC,
    MP3,
    M4A,
    OPUS,
    OGG,
}

/// The sample rates that a conversion can be asked for.
#[derive(Clone, Copy, Debug, PartialEq, Eq, Structural)]
pub enum AudioSampleRate {
    CD44,
    Studio48,
    HiRes96,
}

/// Whether a codec may be packaged into a container.
pub open spec fn legal_container(codec: AudioCodec, container: AudioContainer) -> bool {
    match codec {
        AudioCodec::FLAC => container == AudioContainer::FLAC,
        AudioCodec::MP3 => container == AudioContainer::MP3,
        AudioCodec::AAC => container == AudioContainer::M4A,
        AudioCodec::OPUS => container == AudioContainer::OPUS || container == AudioContainer::OGG,
        AudioCodec::VORBIS => container == AudioContainer::OGG,
    }
}

/// The container that a codec is packaged into unless another is chosen.
pub open spec fn default_container(codec: AudioCodec) -> AudioContainer {
    match codec {
        AudioCodec::FLAC => AudioContainer::FLAC,
        AudioCodec::MP3 => AudioContainer::MP3,
        AudioCodec::AAC => AudioContainer::M4A,
        AudioCodec::OPUS => AudioContainer::OGG,
        AudioCodec::VORBIS => AudioContainer::OGG,
    }
}

/// Whether a sample rate may be asked of a codec: the highest rate is for
/// FLAC alone.
pub open spec fn legal_sample_rate(codec: AudioCodec, rate: AudioSampleRate) -> bool {
    rate == AudioSampleRate::HiRes96 ==> codec == AudioCodec::FLAC
}

/// The file extension of a container, with its dot.
pub open spec fn container_extension(container: AudioContainer) -> Seq<char> {
    match container {
        AudioContainer::FLAC => ".flac"@,
        AudioContainer::MP3 => ".mp3"@,
        AudioContainer::M4A => ".m4a"@,
        AudioContainer::OGG => ".ogg"@,
        AudioContainer::OPUS => ".opus"@,
    }
}

/// A sample rate in hertz.
pub open spec fn sample_rate_hertz(rate: AudioSampleRate) -> u32 {
    match rate {
        AudioSampleRate::CD44 => 44100,
        AudioSampleRate::Studio48 => 48000,
        AudioSampleRate::HiRes96 => 96000,
    }
}

impl AudioCodec {
    /// Whether this codec may be packaged into `container`.
    pub fn accepts_container(&self, container: AudioContainer) -> (legal: bool)
        ensures
            legal == legal_container(*self, container),
    {
        match self {
            AudioCodec::FLAC => container == AudioContainer::FLAC,
            AudioCodec::MP3 => container == AudioContainer::MP3,
            AudioCodec::AAC => container == AudioContainer::M4A,
            AudioCodec::OPUS => container == AudioContainer::OPUS || container
                == AudioContainer::OGG,
            AudioCodec::VORBIS => container == AudioContainer::OGG,
        }
    }

    /// The container that this codec is packaged into unless another is chosen.
    pub fn default_container(&self) -> (container: AudioContainer)
        ensures
            container == default_container(*self),
            legal_container(*self, container),
    {
        match self {
            AudioCodec::FLAC => AudioContainer::FLAC,
            AudioCodec::MP3 => AudioContainer::MP3,
            AudioCodec::AAC => AudioContainer::M4A,
            AudioCodec::OPUS => AudioContainer::OGG,
            AudioCodec::VORBIS => AudioContainer::OGG,
        }
    }

    /// Whether this codec may be asked for `rate`.
    pub fn accepts_sample_rate(&self, rate: AudioSampleRate) -> (legal: bool)
        ensures
            legal == legal_sample_rate(*self, rate),
    {
        rate != AudioSampleRate::HiRes96 || *self == AudioCodec::FLAC
    }
}

impl AudioContainer {
    /// The file extension of this container, with its dot.
    pub fn extension(&self) -> (text: &'static str)
        ensures
            text@ == container_extension(*self),
    {
        match self {
            AudioContainer::FLAC => ".flac",
            AudioContainer::MP3 => ".mp3",
            AudioContainer::M4A => ".m4a",
            AudioContainer::OGG => ".ogg",
            AudioContainer::OPUS => ".opus",
        }
    }
}

impl AudioSampleRate {
    /// This sample rate in hertz.
    pub fn hertz(&self) -> (rate: u32)
        ensures
            rate == sample_rate_hertz(*self),
    {
        match self {
            AudioSampleRate::CD44 => 44100,
            AudioSampleRate::Studio48 => 48000,
            AudioSampleRate::HiRes96 => 96000,
        }
    }
}

/// Whether an extension, written without its dot, is one of the accepted
/// input types. Upper and lower case are told apart.
pub open spec fn allowed_input_type(extension: Seq<char>) -> bool {
    ||| extension == "flac"@
    ||| extension == "mp3"@
    ||| extension == "ogg"@
    ||| extension == "wav"@
    ||| extension == "opus"@
    ||| extension == "aac"@
    ||| extension == "m4a"@
}

/// Whether `extension`, written without its dot, is an accepted input type.
pub fn is_allowed_input_type(extension: &str) -> (allowed: bool)
    ensures
        allowed == allowed_input_type(extension@),
{
    text_eq(extension, "flac") || text_eq(extension, "mp3") || text_eq(extension, "ogg")
        || text_eq(extension, "wav") || text_eq(extension, "opus") || text_eq(extension, "aac")
        || text_eq(extension, "m4a")
}

/// What the extension of a path says of it: nothing where the extension is an
/// accepted input type, else the reason for which the path is turned away.
pub open spec fn extension_verdict(extension: Option<Seq<char>>) -> Option<AudioFileError> {
    match extension {
        None => Some(AudioFileError::NoExtension),
        Some(e) => if allowed_input_type(e) {
            None
        } else {
            Some(AudioFileError::NotAnAudioFile)
        },
    }
}

/// Judges a path by its extension, given without its dot, or `None` where
/// the path has none.
pub fn check_extension(extension: Option<&str>) -> (verdict: Result<(), AudioFileError>)
    ensures
        match extension_verdict(
            match extension {
                Some(e) => Some(e@),
                None => None,
            },
        ) {
            None => verdict == Ok::<(), AudioFileError>(()),
            Some(e) => verdict == Err::<(), AudioFileError>(e),
        },
{
    match extension {
        None => Err(AudioFileError::NoExtension),
        Some(e) => if is_allowed_input_type(e) {
            Ok(())
        } else {
            Err(AudioFileError::NotAnAudioFile)
        },
    }
}

/// What the extension of a path says of it, as a result: the path is taken,
/// or turned away for the reason that [`extension_verdict`] gives.
pub open spec fn extension_judgement(extension: Option<Seq<char>>) -> Result<(), AudioFileError> {
    match extension_verdict(extension) {
        None => Ok(()),
        Some(e) => Err(e),
    }
}

/// Whether an accepted input type stands in a path directly behind a dot,
/// with nothing behind it but what may stand behind the last component of a
/// path. No path is taken as an input file without that.
pub open spec fn names_input_type(path: Seq<char>) -> bool {
    exists|extension: Seq<char>|
        allowed_input_type(extension) && #[trigger] closes_behind_dot(path, extension)
}

/// The name of the tag that holds the artist.
pub const TAG_ARTIST: &'static str = "ARTIST";

/// The name of the tag that holds the album.
pub const TAG_ALBUM: &'static str = "ALBUM";

/// The name of the tag that holds the title.
pub const TAG_TITLE: &'static str = "TITLE";

/// The name of the tag that holds the track number.
pub const TAG_TRACK: &'static str = "track";

/// What the tags of a file say of it.
#[derive(Debug, PartialEq, Eq)]
pub struct Tags {
    pub artist: Option<String>,
    pub album: Option<String>,
    pub title: Option<String>,
    /// The track number as the file gives it, such as `3` or `3/12`.
    pub track: Option<String>,
}

fn copy_text(text: &Option<String>) -> (copy: Option<String>)
    ensures
        copy == *text,
{
    match text {
        Some(t) => Some(t.clone()),
        None => None,
    }
}

/// One input file: its path and what its tags say.
#[derive(Debug, PartialEq, Eq)]
pub struct AudioFile {
    pub path: String,
    pub artist: Option<String>,
    pub album: Option<String>,
    pub title: Option<String>,
    pub track: Option<String>,
}

impl Clone for AudioFile {
    fn clone(&self) -> (copy: Self)
        ensures
            copy == *self,
    {
        AudioFile {
            path: self.path.clone(),
            artist: copy_text(&self.artist),
            album: copy_text(&self.album),
            title: copy_text(&self.title),
            track: copy_text(&self.track),
        }
    }
}

impl Default for AudioFile {
    fn default() -> (file: Self)
        ensures
            file.path@.len() == 0,
            file.artist is None,
            file.album is None,
            file.title is None,
            file.track is None,
    {
        AudioFile { path: String::new(), artist: None, album: None, title: None, track: None }
    }
}

/// Whether a character is a decimal digit.
pub open spec fn is_digit(c: char) -> bool {
    '0' <= c <= '9'
}

/// The number that a row of decimal digits stands for.
pub open spec fn digits_value(digits: Seq<char>) -> nat
    decreases digits.len(),
{
    if digits.len() == 0 {
        0
    } else {
        (digits_value(digits.drop_last()) * 10 + (digits.last() as u32 - '0' as u32)) as nat
    }
}

/// Whether a text holds nothing but decimal digits.
pub open spec fn all_digits(text: Seq<char>) -> bool {
    forall|i: int| 0 <= i < text.len() ==> is_digit(#[trigger] text[i])
}

/// A text without the `+` that may stand in front of a number.
pub open spec fn without_sign(text: Seq<char>) -> Seq<char> {
    if text.len() > 0 && text[0] == '+' {
        text.drop_first()
    } else {
        text
    }
}

/// A text read as a number: a `+` may stand in front, at least one digit
/// follows and nothing but digits, and the number fits 32 bits.
pub open spec fn parsed_number(text: Seq<char>) -> Option<u32> {
    let digits = without_sign(text);
    if digits.len() > 0 && all_digits(digits) && digits_value(digits) <= u32::MAX {
        Some(digits_value(digits) as u32)
    } else {
        None
    }
}

/// Where the first `/` of a text stands, or the text's length where it has
/// none.
pub open spec fn slash_position(text: Seq<char>) -> int
    decreases text.len(),
{
    if text.len() == 0 || text[0] == '/' {
        0
    } else {
        1 + slash_position(text.drop_first())
    }
}

/// The track number that a track tag gives: what stands before its first
/// `/`, read as a number.
pub open spec fn track_number(text: Seq<char>) -> Option<u32> {
    parsed_number(text.subrange(0, slash_position(text)))
}

/// The place of a file among the files of a directory: its track number, and
/// a place before all numbers for a file without one.
pub open spec fn track_key(file: AudioFile) -> int {
    match file.track {
        None => -1,
        Some(track) => match track_number(track@) {
            None => -1,
            Some(number) => number as int,
        },
    }
}

proof fn lemma_slash_position(text: Seq<char>, end: int)
    requires
        0 <= end <= text.len(),
        forall|j: int| 0 <= j < end ==> text[j] != '/',
        end == text.len() || text[end] == '/',
    ensures
        slash_position(text) == end,
    decreases text.len(),
{
    if end > 0 {
        let rest = text.drop_first();
        assert forall|j: int| 0 <= j < end - 1 implies rest[j] != '/' by {
            assert(rest[j] == text[j + 1]);
        }
        lemma_slash_position(rest, end - 1);
    }
}

proof fn lemma_digits_value_grows(digits: Seq<char>, k: int)
    requires
        0 <= k <= digits.len(),
        all_digits(digits),
    ensures
        digits_value(digits.subrange(0, k)) <= digits_value(digits),
    decreases digits.len() - k,
{
    if k < digits.len() {
        let longer = digits.subrange(0, k + 1);
        assert(longer.drop_last() =~= digits.subrange(0, k));
        assert(is_digit(digits[k]));
        assert(longer.last() == digits[k]);
        lemma_digits_value_grows(digits, k + 1);
    } else {
        assert(digits.subrange(0, k) =~= digits);
    }
}

/// Reads the track number off a track tag such as `3` or `3/12`.
pub fn parse_track_string(s: &str) -> (number: Option<u32>)
    ensures
        number == track_number(s@),
{
    let n: usize = s.unicode_len();
    let mut end: usize = 0;
    while end < n && s.get_char(end) != '/'
        invariant
            end <= n,
            n == s@.len(),
            forall|j: int| 0 <= j < end ==> s@[j] != '/',
        decreases n - end,
    {
        end += 1;
    }
    proof {
        lemma_slash_position(s@, end as int);
    }
    let ghost text = s@.subrange(0, end as int);
    let mut i: usize = 0;
    if end > 0 && s.get_char(0) == '+' {
        i = 1;
    }
    let start: usize = i;
    let ghost digits = s@.subrange(start as int, end as int);
    proof {
        if start == 1 {
            assert(text.drop_first() =~= digits);
        } else {
            assert(text =~= digits);
        }
    }
    if i == end {
        return None;
    }
    let mut value: u64 = 0;
    while i < end
        invariant
            start <= i <= end <= n,
            n == s@.len(),
            digits == s@.subrange(start as int, end as int),
            digits.len() > 0,
            track_number(s@) == parsed_number(text),
            digits == without_sign(text),
            forall|j: int| 0 <= j < i - start ==> is_digit(#[trigger] digits[j]),
            value == digits_value(digits.subrange(0, i - start)),
            value <= u32::MAX,
        decreases end - i,
    {
        let c: char = s.get_char(i);
        if c < '0' || c > '9' {
            assert(!is_digit(digits[i - start]));
            return None;
        }
        let ghost longer = digits.subrange(0, i - start + 1);
        assert(longer.drop_last() =~= digits.subrange(0, i - start));
        assert(longer.last() == c);
        value = value * 10 + (c as u32 - '0' as u32) as u64;
        i += 1;
        if value > 0xffff_ffff {
            proof {
                if all_digits(digits) {
                    lemma_digits_value_grows(digits, i - start);
                }
            }
            return None;
        }
    }
    assert(digits.subrange(0, i - start) =~= digits);
    Some(value as u32)
}

impl AudioFile {
    /// The file of a path whose extension is already known: see
    /// [`extension_verdict`]. `extension` is given without its dot.
    pub fn from_parts(path: String, extension: Option<&str>, tags: Tags) -> (file: Result<
        AudioFile,
        AudioFileError,
    >)
        ensures
            match extension_verdict(
                match extension {
                    Some(e) => Some(e@),
                    None => None,
                },
            ) {
                None => file matches Ok(f) && f.path == path && f.artist == tags.artist && f.album
                    == tags.album && f.title == tags.title && f.track == tags.track,
                Some(e) => file == Err::<AudioFile, AudioFileError>(e),
            },
    {
        match check_extension(extension) {
            Err(e) => Err(e),
            Ok(()) => Ok(
                AudioFile {
                    path,
                    artist: tags.artist,
                    album: tags.album,
                    title: tags.title,
                    track: tags.track,
                },
            ),
        }
    }

    /// Whether a path is taken as an input file. The path is judged by its
    /// extension, as [`check_extension`] judges it: the verdict is the one
    /// that belongs to the extension of the path. So a path without a dot is
    /// turned away for having no extension, and a path is taken only where an
    /// accepted input type stands in it directly behind a dot, with nothing
    /// behind it but what may stand behind the last component.
    pub fn accepts(path: &str) -> (verdict: Result<(), AudioFileError>)
        ensures
            verdict == extension_judgement(path_extension_text(path@)),
            reads_as_extension(path@, path_extension_text(path@)),
    {
        match path_extension(path) {
            Some(extension) => check_extension(Some(extension.as_str())),
            None => check_extension(None),
        }
    }

    /// Whether `file` is what [`AudioFile::from_parts`] makes of a path, its
    /// extension and tags: the file with that path and those tags where the
    /// extension is an accepted input type, else the reason for which the
    /// path is turned away.
    pub open spec fn made_from(
        file: Result<AudioFile, AudioFileError>,
        path: String,
        extension: Option<Seq<char>>,
        tags: Tags,
    ) -> bool {
        match extension_verdict(extension) {
            None => file matches Ok(f) && f.path == path && f.artist == tags.artist && f.album
                == tags.album && f.title == tags.title && f.track == tags.track,
            Some(e) => file == Err::<AudioFile, AudioFileError>(e),
        }
    }

    /// The input file of a path, with the tags that were read from it. The
    /// path is judged by its extension, as [`AudioFile::from_parts`] judges
    /// it. So a path without a dot is turned away for having no extension, a
    /// path with an extension that is no accepted input type is turned away
    /// for that, and a file is made only where an accepted input type stands
    /// in the path directly behind a dot, with nothing behind it but what may
    /// stand behind the last component.
    pub fn new(path: String, tags: Tags) -> (file: Result<AudioFile, AudioFileError>)
        ensures
            AudioFile::made_from(file, path, path_extension_text(path@), tags),
            reads_as_extension(path@, path_extension_text(path@)),
    {
        match path_extension(path.as_str()) {
            Some(extension) => AudioFile::from_parts(path, Some(extension.as_str()), tags),
            None => AudioFile::from_parts(path, None, tags),
        }
    }

    /// The place of this file among the files of a directory.
    pub fn track_order(&self) -> (key: i64)
        ensures
            key == track_key(*self),
    {
        match &self.track {
            None => -1,
            Some(track) => match parse_track_string(track.as_str()) {
                None => -1,
                Some(number) => number as i64,
            },
        }
    }
}

/// Whether files stand in the order of their track numbers, those without
/// one first.
pub open spec fn ordered_by_track(files: Seq<AudioFile>) -> bool {
    forall|i: int, j: int| 0 <= i <= j < files.len() ==> track_key(files[i]) <= track_key(files[j])
}

/// The file that an entry of a directory makes: the entry's path with the
/// entry's tags.
pub open spec fn file_of(entry: (String, Tags)) -> AudioFile {
    AudioFile {
        path: entry.0,
        artist: entry.1.artist,
        album: entry.1.album,
        title: entry.1.title,
        track: entry.1.track,
    }
}

/// Whether the entry at a place is taken as an input file: it has an
/// extension given, and that is an accepted input type.
pub open spec fn taken_at(extensions: Seq<Option<Seq<char>>>, at: int) -> bool {
    0 <= at < extensions.len() && extension_verdict(extensions[at]) is None
}

/// The files that the entries from a place on make, those entries left out
/// that are not taken as input files. `extensions` holds the extension of
/// each entry.
pub open spec fn taken_from(
    entries: Seq<(String, Tags)>,
    extensions: Seq<Option<Seq<char>>>,
    from: int,
) -> Seq<AudioFile>
    decreases entries.len() - from,
{
    if from < 0 || from >= entries.len() {
        Seq::empty()
    } else if taken_at(extensions, from) {
        seq![file_of(entries[from])] + taken_from(entries, extensions, from + 1)
    } else {
        taken_from(entries, extensions, from + 1)
    }
}

/// The extensions as texts.
pub open spec fn extension_texts(extensions: Seq<Option<String>>) -> Seq<Option<Seq<char>>> {
    Seq::new(
        extensions.len(),
        |i: int|
            match extensions[i] {
                Some(e) => Some(e@),
                None => None,
            },
    )
}

/// Whether `files` is the listing of a directory with the given entries and
/// their extensions. What is no directory has no listing. The listing of a
/// directory holds the file of each entry that is taken as an input file,
/// once for each such entry, and nothing else; the files stand in the order
/// of their track numbers, and files of the same track number in the order
/// of their entries.
pub open spec fn lists(
    is_directory: bool,
    entries: Seq<(String, Tags)>,
    extensions: Seq<Option<Seq<char>>>,
    files: Result<Vec<AudioFile>, AudioFileError>,
) -> bool {
    if is_directory {
        files matches Ok(found) && found@ == in_track_order(taken_from(entries, extensions, 0))
    } else {
        files == Err::<Vec<AudioFile>, AudioFileError>(AudioFileError::NotADirectory)
    }
}

/// The extension of each entry's path.
pub open spec fn extensions_of(entries: Seq<(String, Tags)>) -> Seq<Option<Seq<char>>> {
    Seq::new(entries.len(), |i: int| path_extension_text(entries[i].0@))
}

/// Whether `extensions` holds, for each entry, an extension that can be read
/// off the entry's path.
pub open spec fn read_off(entries: Seq<(String, Tags)>, extensions: Seq<Option<Seq<char>>>) -> bool {
    &&& extensions.len() == entries.len()
    &&& forall|i: int|
        0 <= i < entries.len() ==> reads_as_extension(entries[i].0@, #[trigger] extensions[i])
}

proof fn lemma_taken_is_among_entries(
    entries: Seq<(String, Tags)>,
    extensions: Seq<Option<Seq<char>>>,
    from: int,
    file: AudioFile,
)
    requires
        0 <= from,
        taken_from(entries, extensions, from).contains(file),
    ensures
        exists|j: int|
            from <= j < entries.len() && taken_at(extensions, j) && file == file_of(
                #[trigger] entries[j],
            ),
    decreases entries.len() - from,
{
    if from < entries.len() {
        let rest = taken_from(entries, extensions, from + 1);
        if taken_at(extensions, from) && file == file_of(entries[from]) {
        } else {
            let all = taken_from(entries, extensions, from);
            let k = choose|k: int| 0 <= k < all.len() && all[k] == file;
            if taken_at(extensions, from) {
                assert(all[k] == rest[k - 1]);
            }
            assert(rest.contains(file));
            lemma_taken_is_among_entries(entries, extensions, from + 1, file);
        }
    }
}

/// Where a file with the given place in track order goes into files that
/// stand in track order: behind the last of those that do not come later.
pub open spec fn place_of(files: Seq<AudioFile>, key: int) -> int
    decreases files.len(),
{
    if files.len() == 0 || track_key(files[0]) > key {
        0
    } else {
        1 + place_of(files.drop_first(), key)
    }
}

/// Files put in the order of their track numbers, those without one first.
/// Files of the same track number, and those without one, keep the order in
/// which they stood.
pub open spec fn in_track_order(files: Seq<AudioFile>) -> Seq<AudioFile>
    decreases files.len(),
{
    if files.len() == 0 {
        Seq::empty()
    } else {
        let earlier = in_track_order(files.drop_last());
        earlier.insert(place_of(earlier, track_key(files.last())), files.last())
    }
}

proof fn lemma_place_of(files: Seq<AudioFile>, key: int)
    ensures
        0 <= place_of(files, key) <= files.len(),
        forall|i: int| 0 <= i < place_of(files, key) ==> track_key(#[trigger] files[i]) <= key,
        place_of(files, key) < files.len() ==> track_key(files[place_of(files, key)]) > key,
    decreases files.len(),
{
    if files.len() > 0 && track_key(files[0]) <= key {
        let rest = files.drop_first();
        lemma_place_of(rest, key);
        assert forall|i: int| 0 <= i < place_of(files, key) implies track_key(
            #[trigger] files[i],
        ) <= key by {
            if i > 0 {
                assert(files[i] == rest[i - 1]);
            }
        }
        if place_of(files, key) < files.len() {
            assert(files[place_of(files, key)] == rest[place_of(rest, key)]);
        }
    }
}

/// Files put in track order stand in track order, and are the same files,
/// each as often as before.
pub proof fn lemma_in_track_order(files: Seq<AudioFile>)
    ensures
        ordered_by_track(in_track_order(files)),
        in_track_order(files).len() == files.len(),
        in_track_order(files).to_multiset() == files.to_multiset(),
    decreases files.len(),
{
    broadcast use vstd::multiset::group_multiset_axioms;

    if files.len() == 0 {
        assert(in_track_order(files) =~= files);
    } else {
        let earlier = in_track_order(files.drop_last());
        let file = files.last();
        let place = place_of(earlier, track_key(file));
        let sorted = in_track_order(files);
        lemma_in_track_order(files.drop_last());
        lemma_place_of(earlier, track_key(file));
        assert forall|i: int, j: int| 0 <= i <= j < sorted.len() implies track_key(sorted[i])
            <= track_key(sorted[j]) by {
            if j < place {
                assert(sorted[i] == earlier[i] && sorted[j] == earlier[j]);
            } else if j == place {
                if i < place {
                    assert(sorted[i] == earlier[i]);
                }
            } else {
                assert(sorted[j] == earlier[j - 1]);
                assert(track_key(earlier[place]) <= track_key(earlier[j - 1]));
                if i < place {
                    assert(sorted[i] == earlier[i]);
                } else if i > place {
                    assert(sorted[i] == earlier[i - 1]);
                }
            }
        }
        to_multiset_insert(earlier, place, file);
        to_multiset_build(files.drop_last(), file);
        assert(files.drop_last().push(file) =~= files);
    }
}

/// Puts files in the order of their track numbers, those without one first.
/// Files of the same track number keep the order in which they stood. The
/// result holds the same files, each as often as before.
pub fn sort_by_track(files: Vec<AudioFile>) -> (sorted: Vec<AudioFile>)
    ensures
        sorted@ == in_track_order(files@),
        ordered_by_track(sorted@),
        sorted@.to_multiset() == files@.to_multiset(),
{
    let mut sorted: Vec<AudioFile> = Vec::new();
    let mut i: usize = 0;
    assert(files@.subrange(0, 0) =~= Seq::<AudioFile>::empty());
    while i < files.len()
        invariant
            i <= files@.len(),
            sorted@ == in_track_order(files@.subrange(0, i as int)),
        decreases files@.len() - i,
    {
        let file = files[i].clone();
        let key: i64 = file.track_order();
        let mut place: usize = 0;
        proof {
            lemma_in_track_order(files@.subrange(0, i as int));
            assert(sorted@.subrange(0, sorted@.len() as int) =~= sorted@);
        }
        while place < sorted.len() && sorted[place].track_order() <= key
            invariant
                place <= sorted@.len(),
                place_of(sorted@, key as int) == place + place_of(
                    sorted@.subrange(place as int, sorted@.len() as int),
                    key as int,
                ),
            decreases sorted@.len() - place,
        {
            assert(sorted@.subrange(place as int, sorted@.len() as int).drop_first()
                =~= sorted@.subrange(place + 1, sorted@.len() as int));
            place += 1;
        }
        proof {
            let longer = files@.subrange(0, i + 1);
            assert(longer.drop_last() =~= files@.subrange(0, i as int));
            assert(longer.last() == file);
        }
        sorted.insert(place, file);
        i += 1;
    }
    proof {
        assert(files@.subrange(0, i as int) =~= files@);
        lemma_in_track_order(files@);
    }
    sorted
}

impl AudioFile {
    /// The listing of a directory whose entries' extensions are already
    /// known. `is_directory` says whether the path that was asked for is a
    /// directory; `entries` holds the path of each entry with the tags that
    /// were read from it, `extensions` the extension of each entry in the
    /// same order, without its dot. An entry whose extension is no accepted
    /// input type, or is not given, is passed over; every other entry makes
    /// a file of the listing. See [`lists`].
    pub fn from_entries(
        is_directory: bool,
        entries: Vec<(String, Tags)>,
        extensions: &Vec<Option<String>>,
    ) -> (files: Result<Vec<AudioFile>, AudioFileError>)
        ensures
            lists(is_directory, entries@, extension_texts(extensions@), files),
    {
        if !is_directory {
            return Err(AudioFileError::NotADirectory);
        }
        let ghost texts = extension_texts(extensions@);
        let mut left = entries;
        let mut accepted: Vec<AudioFile> = Vec::new();
        assert(accepted@ =~= taken_from(entries@, texts, left@.len() as int));
        while left.len() > 0
            invariant
                texts == extension_texts(extensions@),
                left@.len() <= entries@.len(),
                left@ == entries@.subrange(0, left@.len() as int),
                accepted@ == taken_from(entries@, texts, left@.len() as int),
            decreases left@.len(),
        {
            let at: usize = left.len() - 1;
            let entry = left.pop().unwrap();
            assert(entry == entries@[at as int]);
            assert(left@ =~= entries@.subrange(0, left@.len() as int));
            let ghost later = accepted@;
            let made = if at < extensions.len() {
                match &extensions[at] {
                    Some(extension) => AudioFile::from_parts(
                        entry.0,
                        Some(extension.as_str()),
                        entry.1,
                    ),
                    None => AudioFile::from_parts(entry.0, None, entry.1),
                }
            } else {
                Err(AudioFileError::NoExtension)
            };
            match made {
                Ok(file) => {
                    accepted.insert(0, file);
                    proof {
                        assert(taken_at(texts, at as int));
                        assert(file == file_of(entries@[at as int]));
                        assert(later.insert(0, file) =~= seq![file] + later);
                    }
                },
                Err(_) => {
                    assert(!taken_at(texts, at as int));
                },
            }
        }
        let sorted = sort_by_track(accepted);
        Ok(sorted)
    }

    /// The input files among the entries of a directory, in the order of
    /// their track numbers. `is_directory` says whether the path that was
    /// asked for is a directory; `entries` holds the path of each entry with
    /// the tags that were read from it. Each entry is judged by the extension
    /// of its path, and the result is the listing that
    /// [`AudioFile::from_entries`] makes of these extensions: the file of
    /// each entry that is taken, once for each, and no other. So an entry
    /// that is passed over takes no other file with it, and no file is found
    /// whose path does not hold an accepted input type behind a dot.
    pub fn from_directory(is_directory: bool, entries: Vec<(String, Tags)>) -> (files: Result<
        Vec<AudioFile>,
        AudioFileError,
    >)
        ensures
            lists(is_directory, entries@, extensions_of(entries@), files),
            read_off(entries@, extensions_of(entries@)),
            files matches Ok(found) ==> {
                &&& ordered_by_track(found@)
                &&& found@.len() <= entries@.len()
                &&& forall|i: int|
                    0 <= i < found@.len() ==> names_input_type((#[trigger] found@[i]).path@)
            },
    {
        let mut extensions: Vec<Option<String>> = Vec::new();
        let mut i: usize = 0;
        while i < entries.len()
            invariant
                i <= entries@.len(),
                extensions@.len() == i,
                forall|j: int|
                    0 <= j < i ==> #[trigger] extension_texts(extensions@)[j]
                        == path_extension_text(entries@[j].0@) && reads_as_extension(
                        entries@[j].0@,
                        extension_texts(extensions@)[j],
                    ),
            decreases entries@.len() - i,
        {
            let ghost before = extension_texts(extensions@);
            let extension = path_extension(entries[i].0.as_str());
            extensions.push(extension);
            proof {
                let now = extension_texts(extensions@);
                assert forall|j: int| 0 <= j < i + 1 implies #[trigger] now[j]
                    == path_extension_text(entries@[j].0@) && reads_as_extension(
                    entries@[j].0@,
                    now[j],
                ) by {
                    if j < i {
                        assert(now[j] == before[j]);
                    }
                }
            }
            i += 1;
        }
        let ghost texts = extension_texts(extensions@);
        let files = AudioFile::from_entries(is_directory, entries, &extensions);
        proof {
            assert(texts =~= extensions_of(entries@));
            assert(read_off(entries@, texts));
            if is_directory {
                let found = files->Ok_0@;
                let taken = taken_from(entries@, texts, 0);
                lemma_taken_is_no_longer(entries@, texts, 0);
                lemma_in_track_order(taken);
                assert forall|k: int| 0 <= k < found.len() implies names_input_type(
                    (#[trigger] found[k]).path@,
                ) by {
                    to_multiset_contains(found, found[k]);
                    to_multiset_contains(taken, found[k]);
                    assert(found.contains(found[k]));
                    lemma_taken_is_among_entries(entries@, texts, 0, found[k]);
                    let j = choose|j: int|
                        0 <= j < entries@.len() && taken_at(texts, j) && found[k] == file_of(
                            #[trigger] entries@[j],
                        );
                    assert(reads_as_extension(entries@[j].0@, texts[j]));
                    assert(closes_behind_dot(entries@[j].0@, texts[j]->0));
                }
            }
        }
        files
    }
}

proof fn lemma_taken_is_no_longer(
    entries: Seq<(String, Tags)>,
    extensions: Seq<Option<Seq<char>>>,
    from: int,
)
    requires
        0 <= from <= entries.len(),
    ensures
        taken_from(entries, extensions, from).len() <= entries.len() - from,
    decreases entries.len() - from,
{
    if from < entries.len() {
        lemma_taken_is_no_longer(entries, extensions, from + 1);
    }
}

/// One stream of an input file, as far as finding the cover goes.
#[derive(Clone, Copy, Debug, PartialEq, Eq, Structural)]
pub struct StreamInfo {
    /// The index of the stream in its file.
    pub index: usize,
    /// Whether the stream holds video.
    pub video: bool,
    /// Whether the stream is flagged as attached picture.
    pub attached_picture: bool,
}

/// Whether a stream carries the cover: a video stream that is flagged as
/// attached picture.
pub open spec fn carries_cover(stream: StreamInfo) -> bool {
    stream.video && stream.attached_picture
}

/// Finds the stream that carries the cover: the first video stream that is
/// flagged as attached picture. The cover is the first packet of that stream.
pub fn find_cover_stream(streams: &[StreamInfo]) -> (found: Option<usize>)
    ensures
        match found {
            Some(index) => exists|k: int|
                0 <= k < streams@.len() && carries_cover(#[trigger] streams@[k]) && streams@[k].index
                    == index && forall|j: int| 0 <= j < k ==> !carries_cover(#[trigger] streams@[j]),
            None => forall|k: int| 0 <= k < streams@.len() ==> !carries_cover(#[trigger] streams@[k]),
        },
{
    let mut k: usize = 0;
    while k < streams.len()
        invariant
            k <= streams@.len(),
            forall|j: int| 0 <= j < k ==> !carries_cover(#[trigger] streams@[j]),
        decreases streams@.len() - k,
    {
        if streams[k].video && streams[k].attached_picture {
            return Some(streams[k].index);
        }
        k += 1;
    }
    None
}

} // verus!
