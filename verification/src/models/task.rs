//! One scheduled conversion.
//!
//! A task is queued, then running, then completed or failed. It learns that
//! its conversion has ended by polling a channel, and never waits for it.

use std::sync::mpsc::{Receiver, Sender};
use vstd::prelude::*;
use vstd::string::*;

use crate::models::audio_file::AudioFile;
use crate::models::settings::{OutputGrouping, Settings};
use crate::paths::{
    parent_folder_text, path_file_name, path_parent, reads_as_file_name, reads_as_parent,
    reads_as_parent_folder, text_of,
};
use crate::pipeline::TranscodeError;
use crate::text::{join_path, joined_path};

verus! {

/// What stands for the artist of a file that names none.
pub const NO_ARTIST: &'static str = "<no artist>";

/// What stands for the album of a file that names none.
pub const NO_ALBUM: &'static str = "<no album>";

/// What stands for the title of a file that names none.
pub const NO_TITLE: &'static str = "<no title>";

/// What a running conversion reports of itself.
#[derive(Clone, Copy, Debug, PartialEq, Eq, Structural)]
pub enum TaskStatus {
    Started,
    /// Kept for later use: no conversion is ever paused.
    Paused,
    Failed,
    Completed,
}

/// What came of asking a task's channel for news, without waiting.
#[derive(Clone, Copy, Debug, PartialEq, Eq, Structural)]
pub enum StatusPoll {
    /// A report was waiting.
    Received(TaskStatus),
    /// No report was waiting; the conversion may still send one.
    Empty,
    /// No report was waiting and none can come: the conversion is gone.
    Disconnected,
}

/// The receiving end of a channel of the standard library. Nothing inside it
/// is visible here.
#[verifier::external_type_specification]
#[verifier::external_body]
#[verifier::reject_recursive_types(T)]
pub struct ExReceiver<T>(Receiver<T>);

/// The sending end of a channel of the standard library. Nothing inside it is
/// visible here.
#[verifier::external_type_specification]
#[verifier::external_body]
#[verifier::reject_recursive_types(T)]
pub struct ExSender<T>(Sender<T>);

/// Makes a channel by `std::sync::mpsc::channel`. Nothing is claimed of the
/// two ends.
#[verifier::external_body]
fn status_channel() -> (ends: (Sender<TaskStatus>, Receiver<TaskStatus>)) {
    std::sync::mpsc::channel()
}

/// Sends a report by `std::sync::mpsc::Sender::send`. A report that nobody
/// can receive any more is dropped.
#[verifier::external_body]
fn send_status(sender: &Sender<TaskStatus>, status: TaskStatus) {
    let _ = sender.send(status);
}

/// Asks a channel for a report by `std::sync::mpsc::Receiver::try_recv`,
/// which does not wait. What comes back depends on the sender, so nothing is
/// claimed of it.
#[verifier::external_body]
fn poll_status(receiver: &Receiver<TaskStatus>) -> (poll: StatusPoll) {
    match receiver.try_recv() {
        Ok(status) => StatusPoll::Received(status),
        Err(std::sync::mpsc::TryRecvError::Empty) => StatusPoll::Empty,
        Err(std::sync::mpsc::TryRecvError::Disconnected) => StatusPoll::Disconnected,
    }
}

/// Whether news from a task's channel says that its conversion has ended:
/// it has completed, it has failed, or it is gone without a word.
pub open spec fn ends_task(poll: StatusPoll) -> bool {
    poll == StatusPoll::Received(TaskStatus::Completed) || poll == StatusPoll::Received(
        TaskStatus::Failed,
    ) || poll == StatusPoll::Disconnected
}

/// Whether news from a task's channel says that its conversion has ended.
pub fn poll_ends_task(poll: StatusPoll) -> (ended: bool)
    ensures
        ended == ends_task(poll),
{
    match poll {
        StatusPoll::Received(TaskStatus::Completed) => true,
        StatusPoll::Received(TaskStatus::Failed) => true,
        StatusPoll::Received(TaskStatus::Paused) => false,
        StatusPoll::Received(TaskStatus::Started) => false,
        StatusPoll::Empty => false,
        StatusPoll::Disconnected => true,
    }
}

/// The report that a conversion sends when it has ended.
pub open spec fn closing_status(result: Result<(), TranscodeError>) -> TaskStatus {
    match result {
        Ok(_) => TaskStatus::Completed,
        Err(_) => TaskStatus::Failed,
    }
}

/// A text, or what stands for it where there is none.
pub open spec fn text_or(text: Option<String>, placeholder: Seq<char>) -> Seq<char> {
    match text {
        Some(t) => t@,
        None => placeholder,
    }
}

/// The name of the folder that a file's output is grouped into, if any.
/// `parent_folder` is the name of the folder that holds the input file.
pub open spec fn group_folder(
    grouping: OutputGrouping,
    file: AudioFile,
    parent_folder: Option<Seq<char>>,
) -> Option<Seq<char>> {
    match grouping {
        OutputGrouping::NoGrouping => None,
        OutputGrouping::Copy => parent_folder,
        OutputGrouping::ArtistAlbum => Some(
            text_or(file.artist, NO_ARTIST@) + " - "@ + text_or(file.album, NO_ALBUM@),
        ),
        OutputGrouping::Album => Some(text_or(file.album, NO_ALBUM@)),
        OutputGrouping::Artist => Some(text_or(file.artist, NO_ARTIST@)),
    }
}

/// The directory that a file's output goes to: the output directory of the
/// settings, or the file's group folder below it.
pub open spec fn output_directory(
    settings: Settings,
    file: AudioFile,
    parent_folder: Option<Seq<char>>,
) -> Seq<char> {
    match group_folder(settings.out_grouping, file, parent_folder) {
        None => settings.out_directory@,
        Some(folder) => joined_path(settings.out_directory@, folder),
    }
}

/// The line that shows a file in the list of running tasks.
pub open spec fn display_text(file: AudioFile) -> Seq<char> {
    text_or(file.artist, NO_ARTIST@) + " - "@ + text_or(file.title, NO_TITLE@) + " on "@ + text_or(
        file.album,
        NO_ALBUM@,
    )
}

fn text_or_placeholder<'a>(text: &'a Option<String>, placeholder: &'a str) -> (chosen: &'a str)
    ensures
        chosen@ == text_or(*text, placeholder@),
{
    match text {
        Some(t) => t.as_str(),
        None => placeholder,
    }
}

/// The directory that a file's output goes to. `parent_folder` is the name of
/// the folder that holds the input file, if it has one.
pub fn resolve_output_directory(
    settings: &Settings,
    file: &AudioFile,
    parent_folder: Option<&str>,
) -> (directory: String)
    ensures
        directory@ == output_directory(
            *settings,
            *file,
            match parent_folder {
                Some(p) => Some(p@),
                None => None,
            },
        ),
{
    let base = settings.out_directory.as_str();
    match settings.out_grouping {
        OutputGrouping::NoGrouping => String::from_str(base),
        OutputGrouping::Copy => match parent_folder {
            Some(folder) => join_path(base, folder),
            None => String::from_str(base),
        },
        OutputGrouping::ArtistAlbum => {
            let mut folder = String::from_str(text_or_placeholder(&file.artist, NO_ARTIST));
            folder.append(" - ");
            folder.append(text_or_placeholder(&file.album, NO_ALBUM));
            join_path(base, folder.as_str())
        },
        OutputGrouping::Album => join_path(base, text_or_placeholder(&file.album, NO_ALBUM)),
        OutputGrouping::Artist => join_path(base, text_or_placeholder(&file.artist, NO_ARTIST)),
    }
}

/// The line that shows a file in the list of running tasks: artist, title
/// and album, each with its stand-in where the file names none.
pub fn display_line(file: &AudioFile) -> (line: String)
    ensures
        line@ == display_text(*file),
{
    let mut line = String::from_str(text_or_placeholder(&file.artist, NO_ARTIST));
    line.append(" - ");
    line.append(text_or_placeholder(&file.title, NO_TITLE));
    line.append(" on ");
    line.append(text_or_placeholder(&file.album, NO_ALBUM));
    line
}

/// One conversion to be run: what to convert, how, where to, and the channel
/// on which to report.
#[derive(Debug)]
pub struct TranscodeJob {
    pub file: AudioFile,
    pub settings: Settings,
    /// The directory that the output goes to; it is created if it is missing.
    pub out_dir: String,
    /// The channel on which the conversion reports.
    pub status: Sender<TaskStatus>,
}

impl TranscodeJob {
    /// Reports how the conversion has ended: completed where it succeeded,
    /// failed where it did not.
    pub fn finish(&self, result: Result<(), TranscodeError>) -> (sent: TaskStatus)
        ensures
            sent == closing_status(result),
    {
        let status = match result {
            Ok(_) => TaskStatus::Completed,
            Err(_) => TaskStatus::Failed,
        };
        send_status(&self.status, status);
        status
    }
}

/// One scheduled conversion: a file, the settings as they were when the file
/// was queued, and, once the conversion runs, the channel that it reports on.
#[derive(Debug)]
pub struct Task {
    pub file: AudioFile,
    pub settings: Settings,
    /// The channel that the conversion reports on, once it has been started.
    pub status: Option<Receiver<TaskStatus>>,
}

/// Whether a job is the conversion of a task: it holds the task's file and
/// settings, and its output goes where the task's settings send it.
pub open spec fn job_of(job: TranscodeJob, task: Task) -> bool {
    &&& job.file == task.file
    &&& job.settings == task.settings
    &&& job.out_dir@ == output_directory(
        task.settings,
        task.file,
        parent_folder_text(task.file.path@),
    )
}

impl Task {
    /// Whether the task's conversion has been started.
    pub open spec fn started(&self) -> bool {
        self.status is Some
    }

    /// A queued task for a file, with the settings as they are now.
    pub fn new(file: AudioFile, settings: Settings) -> (task: Task)
        ensures
            task.file == file,
            task.settings == settings,
            !task.started(),
    {
        Task { file, settings, status: None }
    }

    /// Whether the task's conversion has been started.
    pub fn is_started(&self) -> (started: bool)
        ensures
            started == self.started(),
    {
        self.status.is_some()
    }

    /// The directory that the task's output goes to: the one that
    /// [`resolve_output_directory`] gives for the name of the folder that
    /// holds the task's file. The file's path is looked at only where the
    /// output is grouped by that folder.
    pub fn output_directory(&self) -> (directory: String)
        ensures
            directory@ == output_directory(
                self.settings,
                self.file,
                parent_folder_text(self.file.path@),
            ),
            self.settings.out_grouping == OutputGrouping::Copy ==> reads_as_parent_folder(
                self.file.path@,
                parent_folder_text(self.file.path@),
            ),
    {
        if self.settings.out_grouping == OutputGrouping::Copy {
            let folder = match path_parent(self.file.path.as_str()) {
                Some(parent) => {
                    let name = path_file_name(parent.as_str());
                    assert(reads_as_parent_folder(self.file.path@, text_of(name))) by {
                        if name is Some {
                            assert(reads_as_parent(self.file.path@, Some(parent@))
                                && reads_as_file_name(parent@, text_of(name)));
                        }
                    }
                    name
                },
                None => None,
            };
            match folder {
                Some(name) => resolve_output_directory(
                    &self.settings,
                    &self.file,
                    Some(name.as_str()),
                ),
                None => resolve_output_directory(&self.settings, &self.file, None),
            }
        } else {
            resolve_output_directory(&self.settings, &self.file, None)
        }
    }

    /// Starts the task: opens the channel on which the conversion reports,
    /// puts a first report on it, and hands out the job to be run. File and
    /// settings of the task stay as they are.
    pub fn start_transcode(&mut self) -> (job: TranscodeJob)
        ensures
            final(self).file == old(self).file,
            final(self).settings == old(self).settings,
            final(self).started(),
            job_of(job, *old(self)),
    {
        let (sender, receiver) = status_channel();
        send_status(&sender, TaskStatus::Started);
        self.status = Some(receiver);
        let out_dir = self.output_directory();
        TranscodeJob {
            file: self.file.clone(),
            settings: self.settings.clone(),
            out_dir,
            status: sender,
        }
    }

    /// Whether the task's conversion has ended, by the news on its channel.
    /// A task that has not been started has not ended.
    pub fn is_complete(&self) -> (ended: bool)
        ensures
            ended ==> self.started(),
    {
        match &self.status {
            None => false,
            Some(receiver) => poll_ends_task(poll_status(receiver)),
        }
    }
}

} // verus!
