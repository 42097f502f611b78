//! The scheduler: a queue of tasks that wait, and the tasks that run.
//!
//! Tasks are started in the order in which they were queued, as many at a
//! time as the settings allow. A task leaves the running ones only when its
//! conversion has ended.

use std::collections::VecDeque;
use vstd::prelude::*;

use crate::models::audio_file::{extension_verdict, AudioFile, AudioFileError};
use crate::paths::{path_extension_text, reads_as_extension};
use crate::models::settings::Settings;
use crate::models::task::{display_line, display_text, job_of, Task, TranscodeJob};

verus! {

/// The tasks that wait, first come first, and the tasks that run.
#[derive(Debug)]
pub struct TasksManager {
    pub queue: VecDeque<Task>,
    pub active_tasks: Vec<Task>,
}

/// Whether the task at a place is marked as ended. A place without a mark
/// counts as not ended.
pub open spec fn marked(ended: Seq<bool>, at: int) -> bool {
    0 <= at < ended.len() && ended[at]
}

/// The tasks from a place on that are not marked as ended, in their order.
pub open spec fn kept_from(tasks: Seq<Task>, ended: Seq<bool>, from: int) -> Seq<Task>
    decreases tasks.len() - from,
{
    if from < 0 || from >= tasks.len() {
        Seq::empty()
    } else if marked(ended, from) {
        kept_from(tasks, ended, from + 1)
    } else {
        seq![tasks[from]] + kept_from(tasks, ended, from + 1)
    }
}

/// The tasks that are not marked as ended, in their order.
pub open spec fn kept(tasks: Seq<Task>, ended: Seq<bool>) -> Seq<Task> {
    kept_from(tasks, ended, 0)
}

/// How many waiting tasks are started when `running` tasks run and at most
/// `limit` may: as many as there is room for, and no more than wait.
pub open spec fn to_start(waiting: nat, running: nat, limit: nat) -> nat {
    if running >= limit {
        0
    } else if waiting <= limit - running {
        waiting
    } else {
        (limit - running) as nat
    }
}

/// Whether a running task is a waiting one, started: file and settings are
/// the same.
pub open spec fn started_from(after: Task, before: Task) -> bool {
    after.file == before.file && after.settings == before.settings && after.started()
}

impl TasksManager {
    /// Whether `after` is this scheduler with the first `count` waiting tasks
    /// started and put behind the running ones, in the order in which they
    /// waited, and `jobs` are their conversions, in the same order.
    pub open spec fn starts(self, count: nat, after: TasksManager, jobs: Seq<TranscodeJob>) -> bool {
        let before = self.active_tasks@.len();
        &&& count <= self.queue@.len()
        &&& after.queue@ == self.queue@.skip(count as int)
        &&& after.active_tasks@.len() == before + count
        &&& after.active_tasks@.subrange(0, before as int) == self.active_tasks@
        &&& jobs.len() == count
        &&& forall|i: int|
            0 <= i < count ==> started_from(
                #[trigger] after.active_tasks@[before + i],
                self.queue@[i],
            )
        &&& forall|i: int| 0 <= i < count ==> job_of(#[trigger] jobs[i], self.queue@[i])
    }

    /// Whether `after` is this scheduler after one update in which the
    /// running tasks marked in `ended` had ended: those leave, and waiting
    /// tasks are started as far as `limit` allows.
    pub open spec fn updates_to(
        self,
        ended: Seq<bool>,
        limit: nat,
        after: TasksManager,
        jobs: Seq<TranscodeJob>,
    ) -> bool {
        let stay = kept(self.active_tasks@, ended);
        &&& ended.len() == self.active_tasks@.len()
        &&& forall|i: int| 0 <= i < ended.len() && ended[i] ==> (#[trigger] self.active_tasks@[i]).started()
        &&& after.queue@ == self.queue@.skip(to_start(self.queue@.len(), stay.len(), limit) as int)
        &&& after.active_tasks@.len() == stay.len() + to_start(self.queue@.len(), stay.len(), limit)
        &&& after.active_tasks@.subrange(0, stay.len() as int) == stay
        &&& jobs.len() == to_start(self.queue@.len(), stay.len(), limit)
        &&& forall|i: int|
            0 <= i < jobs.len() ==> started_from(
                #[trigger] after.active_tasks@[stay.len() + i],
                self.queue@[i],
            )
        &&& forall|i: int| 0 <= i < jobs.len() ==> job_of(#[trigger] jobs[i], self.queue@[i])
    }

    /// Whether `after` and `queued` are what queueing a file of the given
    /// extension makes of this scheduler. A file whose extension is an
    /// accepted input type stands at the end of the queue, as a task that has
    /// not been started, with these settings; any other file is turned away
    /// with the reason that belongs to its extension, and the queue is as it
    /// was. The running tasks are as they were.
    pub open spec fn queues(
        self,
        file: AudioFile,
        extension: Option<Seq<char>>,
        settings: Settings,
        after: TasksManager,
        queued: Result<(), AudioFileError>,
    ) -> bool {
        &&& after.active_tasks == self.active_tasks
        &&& match extension_verdict(extension) {
            None => {
                &&& queued == Ok::<(), AudioFileError>(())
                &&& after.queue@.len() == self.queue@.len() + 1
                &&& after.queue@.drop_last() == self.queue@
                &&& after.queue@.last().file == file
                &&& after.queue@.last().settings == settings
                &&& !after.queue@.last().started()
            },
            Some(e) => queued == Err::<(), AudioFileError>(e) && after.queue@ == self.queue@,
        }
    }

    /// A scheduler with nothing waiting and nothing running.
    pub fn new() -> (manager: TasksManager)
        ensures
            manager.queue@.len() == 0,
            manager.active_tasks@.len() == 0,
    {
        TasksManager { queue: VecDeque::new(), active_tasks: Vec::new() }
    }

    /// The number of tasks that wait.
    pub fn pending_count(&self) -> (count: usize)
        ensures
            count == self.queue@.len(),
    {
        self.queue.len()
    }

    /// The number of tasks that run.
    pub fn active_count(&self) -> (count: usize)
        ensures
            count == self.active_tasks@.len(),
    {
        self.active_tasks.len()
    }

    /// The lines that show the running tasks, one for each, in their order.
    pub fn active_lines(&self) -> (lines: Vec<String>)
        ensures
            lines@.len() == self.active_tasks@.len(),
            forall|i: int|
                0 <= i < lines@.len() ==> (#[trigger] lines@[i])@ == display_text(
                    self.active_tasks@[i].file,
                ),
    {
        let mut lines: Vec<String> = Vec::new();
        let mut i: usize = 0;
        while i < self.active_tasks.len()
            invariant
                i <= self.active_tasks@.len(),
                lines@.len() == i,
                forall|j: int|
                    0 <= j < i ==> (#[trigger] lines@[j])@ == display_text(
                        self.active_tasks@[j].file,
                    ),
            decreases self.active_tasks@.len() - i,
        {
            let line = display_line(&self.active_tasks[i].file);
            lines.push(line);
            i += 1;
        }
        lines
    }

    /// Queues a file whose extension is already known, given without its
    /// dot. A file whose extension is an accepted input type goes to the end
    /// of the queue, with a copy of the settings as they are now; any other
    /// file is turned away and the queue stays as it is. The running tasks
    /// are not touched.
    pub fn enqueue(
        &mut self,
        file: AudioFile,
        extension: Option<&str>,
        settings: &Settings,
    ) -> (queued: Result<(), AudioFileError>)
        ensures
            old(self).queues(
                file,
                match extension {
                    Some(e) => Some(e@),
                    None => None,
                },
                *settings,
                *final(self),
                queued,
            ),
    {
        match crate::models::audio_file::check_extension(extension) {
            Err(e) => Err(e),
            Ok(()) => {
                let task = Task::new(file, settings.clone());
                self.queue.push_back(task);
                assert(self.queue@.drop_last() =~= old(self).queue@);
                Ok(())
            },
        }
    }

    /// Queues a file. The file is judged by the extension of its path, and
    /// queued as [`TasksManager::enqueue`] queues a file of that extension. A
    /// file that is taken as input goes to the end of the queue, with a copy
    /// of the settings as they are now; that happens only where an accepted
    /// input type stands in the path directly behind a dot. A file whose path
    /// has no extension, as every path without a dot, or one that is no
    /// accepted input type, is turned away, and the queue stays as it is. The
    /// running tasks are not touched.
    pub fn queue_audio_file(&mut self, file: AudioFile, settings: &Settings) -> (queued: Result<
        (),
        AudioFileError,
    >)
        ensures
            old(self).queues(
                file,
                path_extension_text(file.path@),
                *settings,
                *final(self),
                queued,
            ),
            reads_as_extension(file.path@, path_extension_text(file.path@)),
    {
        match crate::paths::path_extension(file.path.as_str()) {
            Some(extension) => self.enqueue(file, Some(extension.as_str()), settings),
            None => self.enqueue(file, None, settings),
        }
    }

    /// Asks each running task whether its conversion has ended, without
    /// waiting for any.
    pub fn poll(&self) -> (ended: Vec<bool>)
        ensures
            ended@.len() == self.active_tasks@.len(),
            forall|i: int|
                0 <= i < ended@.len() && ended@[i] ==> (#[trigger] self.active_tasks@[i]).started(),
    {
        let mut ended: Vec<bool> = Vec::new();
        let mut i: usize = 0;
        while i < self.active_tasks.len()
            invariant
                i <= self.active_tasks@.len(),
                ended@.len() == i,
                forall|j: int|
                    0 <= j < i && ended@[j] ==> (#[trigger] self.active_tasks@[j]).started(),
            decreases self.active_tasks@.len() - i,
        {
            let task_ended = self.active_tasks[i].is_complete();
            ended.push(task_ended);
            i += 1;
        }
        ended
    }

    /// Drops the running tasks that are marked as ended; the others stay in
    /// their order. The queue is not touched.
    pub fn retire(&mut self, ended: &Vec<bool>)
        ensures
            final(self).active_tasks@ == kept(old(self).active_tasks@, ended@),
            final(self).queue == old(self).queue,
    {
        let mut i: usize = self.active_tasks.len();
        assert(self.active_tasks@ =~= old(self).active_tasks@.subrange(0, i as int) + kept_from(
            old(self).active_tasks@,
            ended@,
            i as int,
        ));
        while i > 0
            invariant
                i <= old(self).active_tasks@.len(),
                self.queue == old(self).queue,
                self.active_tasks@ == old(self).active_tasks@.subrange(0, i as int) + kept_from(
                    old(self).active_tasks@,
                    ended@,
                    i as int,
                ),
            decreases i,
        {
            i -= 1;
            if i < ended.len() && ended[i] {
                self.active_tasks.remove(i);
            }
            assert(self.active_tasks@ =~= old(self).active_tasks@.subrange(0, i as int) + kept_from(
                old(self).active_tasks@,
                ended@,
                i as int,
            ));
        }
        assert(self.active_tasks@ =~= kept(old(self).active_tasks@, ended@));
    }

    /// Starts waiting tasks, first come first, until `limit` tasks run or
    /// none waits, and hands out their conversions in the same order.
    pub fn start_waiting(&mut self, limit: usize) -> (jobs: Vec<TranscodeJob>)
        ensures
            old(self).starts(
                to_start(old(self).queue@.len(), old(self).active_tasks@.len(), limit as nat),
                *final(self),
                jobs@,
            ),
    {
        let mut jobs: Vec<TranscodeJob> = Vec::new();
        let ghost start = self.active_tasks@.len() as int;
        proof {
            assert(self.queue@ =~= old(self).queue@.skip(0));
            assert(self.active_tasks@.subrange(0, start) =~= old(self).active_tasks@);
        }
        while self.active_tasks.len() < limit && self.queue.len() > 0
            invariant
                start == old(self).active_tasks@.len(),
                jobs@.len() <= old(self).queue@.len(),
                jobs@.len() == 0 || start + jobs@.len() <= limit,
                old(self).starts(jobs@.len(), *self, jobs@),
            decreases self.queue@.len(),
        {
            let ghost before = *self;
            let ghost count = jobs@.len() as int;
            let mut task = self.queue.pop_front().unwrap();
            assert(task == old(self).queue@[count as int]);
            let job = task.start_transcode();
            self.active_tasks.push(task);
            jobs.push(job);
            proof {
                assert(self.queue@ =~= old(self).queue@.skip(count + 1));
                assert(self.active_tasks@.subrange(0, start as int) =~= old(self).active_tasks@) by {
                    assert(before.active_tasks@.subrange(0, start as int) == old(self).active_tasks@);
                }
                assert forall|i: int| 0 <= i < count + 1 implies started_from(
                    #[trigger] self.active_tasks@[start + i],
                    old(self).queue@[i],
                ) by {
                    if i < count {
                        assert(self.active_tasks@[start + i] == before.active_tasks@[start + i]);
                    }
                }
                assert forall|i: int| 0 <= i < count + 1 implies job_of(
                    #[trigger] jobs@[i],
                    old(self).queue@[i],
                ) by {
                    if i < count {
                        assert(jobs@[i] == jobs@.drop_last()[i]);
                    }
                }
            }
        }
        jobs
    }

    /// One update of the scheduler. The running tasks whose conversions have
    /// ended leave; then waiting tasks are started, first come first, until
    /// as many run as the settings allow or none waits. The conversions of
    /// the tasks that were started are handed out, in that order, to be run
    /// elsewhere. Nothing here waits for a conversion.
    pub fn update(&mut self, settings: &Settings) -> (jobs: Vec<TranscodeJob>)
        ensures
            exists|ended: Seq<bool>| #[trigger]
                old(self).updates_to(
                    ended,
                    settings.run_concurrent_task_count as nat,
                    *final(self),
                    jobs@,
                ),
            old(self).active_tasks@.len() <= settings.run_concurrent_task_count ==> final(self).active_tasks@.len() <= settings.run_concurrent_task_count,
    {
        let ended = self.poll();
        self.retire(&ended);
        let jobs = self.start_waiting(settings.run_concurrent_task_count);
        proof {
            lemma_kept_is_no_longer(old(self).active_tasks@, ended@, 0);
            assert(old(self).updates_to(
                ended@,
                settings.run_concurrent_task_count as nat,
                *self,
                jobs@,
            ));
        }
        jobs
    }
}

proof fn lemma_kept_is_no_longer(tasks: Seq<Task>, ended: Seq<bool>, from: int)
    requires
        0 <= from <= tasks.len(),
    ensures
        kept_from(tasks, ended, from).len() <= tasks.len() - from,
    decreases tasks.len() - from,
{
    if from < tasks.len() {
        lemma_kept_is_no_longer(tasks, ended, from + 1);
    }
}

/// With a limit that stays the same, no more tasks run after an update than
/// the limit allows, provided that no more ran before it. A scheduler starts
/// with no running task, and queueing starts none, so the number of running
/// tasks never exceeds such a limit.
pub proof fn law_running_within_limit(
    before: TasksManager,
    ended: Seq<bool>,
    limit: nat,
    after: TasksManager,
    jobs: Seq<TranscodeJob>,
)
    requires
        before.updates_to(ended, limit, after, jobs),
        before.active_tasks@.len() <= limit,
    ensures
        after.active_tasks@.len() <= limit,
{
    lemma_kept_is_no_longer(before.active_tasks@, ended, 0);
}

/// Tasks are started in the order in which they wait: whenever a task is
/// started in an update, every task that waited in front of it is started in
/// the same update, and stands in front of it among the running tasks; the
/// tasks that still wait keep their order.
pub proof fn law_first_come_first_started(
    before: TasksManager,
    ended: Seq<bool>,
    limit: nat,
    after: TasksManager,
    jobs: Seq<TranscodeJob>,
    earlier: int,
    later: int,
)
    requires
        before.updates_to(ended, limit, after, jobs),
        0 <= earlier < later < before.queue@.len(),
    ensures
        ({
            let stay = kept(before.active_tasks@, ended).len();
            let count = jobs.len();
            &&& count <= before.queue@.len()
            &&& later < count ==> earlier < count && started_from(
                after.active_tasks@[stay + earlier],
                before.queue@[earlier],
            ) && started_from(after.active_tasks@[stay + later], before.queue@[later])
            &&& earlier >= count ==> after.queue@[earlier - count] == before.queue@[earlier]
                && after.queue@[later - count] == before.queue@[later]
        }),
{
}

} // verus!
