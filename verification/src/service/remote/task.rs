//! Remote tasks: programs that run once on behalf of the server.

use crate::scheduler::time::{min_int, Span};
use crate::service::config::RemoteTaskConfig;
use crate::service::outbound::{OutboundEvent, RemoteTaskResultEnvelope};
use crate::service::protocol::{RemoteTaskResult, RemoteTaskStatus};
use crate::service::remote::probe::{checks, effective_timeout, limited_timeout, result_millis};
use crate::text::{blank, is_blank};
use vstd::prelude::*;

verus! {

/// Switch of the remote tasks.
#[derive(Debug, Clone, Copy, PartialEq, Eq, Structural)]
pub struct RemoteTaskOptions {
    /// Whether tasks may be run; only a start argument can allow it.
    pub enabled: bool,
}

impl Default for RemoteTaskOptions {
    fn default() -> (options: Self)
        ensures
            !options.enabled,
    {
        RemoteTaskOptions { enabled: false }
    }
}

impl RemoteTaskOptions {
    /// Checks the options. Every value is in order.
    pub fn validate(&self) -> (checked: Result<(), String>)
        ensures
            checked is Ok,
    {
        Ok(())
    }
}

/// Program to run.
#[derive(Debug, PartialEq, Eq)]
pub struct RemoteTaskRunRequest {
    /// Identity that the server gave the task.
    pub task_id: String,
    /// The program.
    pub program: String,
    /// Its arguments.
    pub args: Vec<String>,
    /// Time limit; the configured one where absent.
    pub timeout: Option<Span>,
}

/// What is wrong with a request, where something is.
pub open spec fn task_error(request: RemoteTaskRunRequest) -> Option<Seq<char>> {
    if blank(request.task_id@) {
        Some("remote_task.task_id cannot be empty"@)
    } else if blank(request.program@) {
        Some("remote_task.program cannot be empty"@)
    } else {
        None
    }
}

impl RemoteTaskRunRequest {
    /// Checks the request.
    pub fn validate(&self) -> (checked: Result<(), String>)
        ensures
            checks(checked, task_error(*self)),
    {
        if is_blank(self.task_id.as_str()) {
            return Err("remote_task.task_id cannot be empty".to_owned());
        }
        if is_blank(self.program.as_str()) {
            return Err("remote_task.program cannot be empty".to_owned());
        }
        Ok(())
    }
}

/// What follows the request for a task.
#[derive(Debug)]
pub enum TaskStart {
    /// The program runs.
    Run {
        /// The request.
        request: RemoteTaskRunRequest,
        /// Time limit.
        timeout: Span,
        /// Largest kept standard output, in bytes.
        max_stdout_bytes: usize,
        /// Largest kept error output, in bytes.
        max_stderr_bytes: usize,
    },
    /// The program does not run; this is the result.
    Refuse(RemoteTaskResult),
}

/// Result of a task that does not run.
pub open spec fn refused_task(
    request: RemoteTaskRunRequest,
    at: u64,
    result: RemoteTaskResult,
    reason: Seq<char>,
) -> bool {
    &&& result.task_id == request.task_id
    &&& result.status == RemoteTaskStatus::Rejected
    &&& result.exit_code is None
    &&& result.stdout@.len() == 0
    &&& result.stderr@.len() == 0
    &&& result.started_at == at
    &&& result.finished_at == at
    &&& result.duration_ms == 0
    &&& !result.timed_out
    &&& !result.stdout_truncated
    &&& !result.stderr_truncated
    &&& result.error matches Some(text) && text@ == reason
}

/// Result of a task that does not run.
pub fn rejected_task_result(request: RemoteTaskRunRequest, at: u64, reason: String) -> (result:
    RemoteTaskResult)
    ensures
        refused_task(request, at, result, reason@),
{
    RemoteTaskResult {
        task_id: request.task_id,
        status: RemoteTaskStatus::Rejected,
        exit_code: None,
        stdout: String::new(),
        stderr: String::new(),
        started_at: at,
        finished_at: at,
        duration_ms: 0,
        timed_out: false,
        stdout_truncated: false,
        stderr_truncated: false,
        error: Some(reason),
    }
}

/// Remote tasks.
#[derive(Debug, PartialEq, Eq, Structural)]
pub struct RemoteTaskManager {
    /// Switch.
    pub options: RemoteTaskOptions,
    /// Number of tasks that run.
    pub running: usize,
}

/// Whether a request to run a task was answered: what happens to it, and the tasks afterwards.
pub open spec fn task_started(
    before: RemoteTaskManager,
    request: RemoteTaskRunRequest,
    config: RemoteTaskConfig,
    at: u64,
    after: RemoteTaskManager,
    start: Result<TaskStart, String>,
) -> bool {
    &&& checks(start, task_error(request))
    &&& match start {
        Err(_) => after == before,
        Ok(
            TaskStart::Run { request: accepted, timeout, max_stdout_bytes, max_stderr_bytes },
        ) => {
            &&& before.options.enabled
            &&& before.running < config.max_concurrent
            &&& after == (RemoteTaskManager { running: (before.running + 1) as usize, ..before })
            &&& accepted == request
            &&& timeout == effective_timeout(request.timeout, config.timeout)
            &&& max_stdout_bytes == config.max_stdout_bytes
            &&& max_stderr_bytes == config.max_stderr_bytes
        },
        Ok(TaskStart::Refuse(result)) => {
            &&& after == before
            &&& if !before.options.enabled {
                refused_task(request, at, result, "remote task is disabled"@)
            } else {
                &&& before.running >= config.max_concurrent
                &&& refused_task(request, at, result, "remote task concurrency limit reached"@)
            }
        },
    }
}

impl RemoteTaskManager {
    /// The tasks after one asked for a place, and whether it got one.
    pub open spec fn with_slot(self, max_concurrent: usize) -> (RemoteTaskManager, bool) {
        if self.running < max_concurrent {
            (RemoteTaskManager { running: (self.running + 1) as usize, ..self }, true)
        } else {
            (self, false)
        }
    }

    /// The tasks after one gave its place back.
    pub open spec fn without_slot(self) -> RemoteTaskManager {
        RemoteTaskManager { running: (self.running - 1) as usize, ..self }
    }

    /// No tasks.
    pub fn new(options: RemoteTaskOptions) -> (manager: RemoteTaskManager)
        ensures
            manager == (RemoteTaskManager { options, running: 0 }),
    {
        RemoteTaskManager { options, running: 0 }
    }

    /// Takes one of the places for running tasks, where one is free.
    pub fn try_acquire_slot(&mut self, max_concurrent: usize) -> (acquired: bool)
        ensures
            (*final(self), acquired) == old(self).with_slot(max_concurrent),
    {
        if self.running >= max_concurrent {
            return false;
        }
        self.running += 1;
        true
    }

    /// Gives the place of a task that ended back.
    pub fn release_slot(&mut self)
        requires
            old(self).running > 0,
        ensures
            *final(self) == old(self).without_slot(),
    {
        self.running -= 1;
    }

    /// Decides about a task. An error comes back where something is wrong with the request; a
    /// refusal is reported to the server.
    pub fn start(&mut self, request: RemoteTaskRunRequest, config: &RemoteTaskConfig, at: u64) -> (start:
        Result<TaskStart, String>)
        ensures
            task_started(*old(self), request, *config, at, *final(self), start),
    {
        if let Err(text) = request.validate() {
            return Err(text);
        }
        if !self.options.enabled {
            return Ok(
                TaskStart::Refuse(
                    rejected_task_result(request, at, "remote task is disabled".to_owned()),
                ),
            );
        }
        if !self.try_acquire_slot(config.max_concurrent) {
            return Ok(
                TaskStart::Refuse(
                    rejected_task_result(
                        request,
                        at,
                        "remote task concurrency limit reached".to_owned(),
                    ),
                ),
            );
        }
        let timeout = limited_timeout(request.timeout, config.timeout);
        Ok(
            TaskStart::Run {
                request,
                timeout,
                max_stdout_bytes: config.max_stdout_bytes,
                max_stderr_bytes: config.max_stderr_bytes,
            },
        )
    }
}

/// Event that carries the result of a task.
pub fn task_result_event(
    agent_id: String,
    sequence: u64,
    created_at: u64,
    result: RemoteTaskResult,
) -> (event: OutboundEvent)
    ensures
        event == OutboundEvent::RemoteTaskResult(
            RemoteTaskResultEnvelope { agent_id, sequence, created_at, result },
        ),
{
    OutboundEvent::RemoteTaskResult(
        RemoteTaskResultEnvelope { agent_id, sequence, created_at, result },
    )
}

/// Kept output of a program.
#[derive(Debug, PartialEq, Eq)]
pub struct OutputText {
    /// The output.
    pub text: String,
    /// Whether some of it was not kept.
    pub truncated: bool,
}

impl OutputText {
    /// No output.
    pub fn empty() -> (output: OutputText)
        ensures
            output.text@.len() == 0,
            !output.truncated,
    {
        OutputText { text: String::new(), truncated: false }
    }

    /// Output whose reader failed.
    pub fn lost() -> (output: OutputText)
        ensures
            output.text@.len() == 0,
            output.truncated,
    {
        OutputText { text: String::new(), truncated: true }
    }
}

/// Text that `String::from_utf8_lossy` makes of bytes.
pub uninterp spec fn lossy_text(bytes: Seq<u8>) -> Seq<char>;

/// `String::from_utf8_lossy`: the text of the bytes, with a replacement character for what is
/// not UTF-8.
#[verifier::external_body]
fn text_from_utf8_lossy(bytes: &Vec<u8>) -> (text: String)
    ensures
        text@ == lossy_text(bytes@),
{
    String::from_utf8_lossy(bytes).into_owned()
}

/// Reader that keeps the start of a program's output and drops the rest.
#[derive(Debug)]
pub struct LimitedOutput {
    stored: Vec<u8>,
    truncated: bool,
    limit: usize,
}

/// Whether bytes are more than the limit allows.
pub open spec fn exceeds(bytes: Seq<u8>, limit: int) -> bool {
    bytes.len() > limit
}

/// Start of a sequence of bytes, as long as the limit allows.
pub open spec fn start_of(bytes: Seq<u8>, limit: int) -> Seq<u8> {
    bytes.take(min_int(bytes.len() as int, limit))
}

impl LimitedOutput {
    /// Bytes that were kept.
    pub closed spec fn kept(self) -> Seq<u8> {
        self.stored@
    }

    /// Whether some output was not kept.
    pub closed spec fn cut(self) -> bool {
        self.truncated
    }

    /// Largest number of bytes to keep.
    pub closed spec fn limit(self) -> int {
        self.limit as int
    }

    /// Whether no more is kept than the limit allows.
    pub open spec fn wf(self) -> bool {
        self.kept().len() <= self.limit()
    }

    /// Reader before the first output.
    pub fn new(limit: usize) -> (reader: LimitedOutput)
        ensures
            reader.limit() == limit,
            reader.kept() == Seq::<u8>::empty(),
            !reader.cut(),
            reader.wf(),
    {
        LimitedOutput { stored: Vec::new(), truncated: false, limit }
    }

    /// Takes the next piece of output. What exceeds the limit is dropped; output is taken all
    /// the same, so that the program never waits.
    pub fn push(&mut self, chunk: &[u8])
        requires
            old(self).wf(),
        ensures
            final(self).wf(),
            final(self).limit() == old(self).limit(),
            final(self).kept() == start_of(old(self).kept() + chunk@, old(self).limit()),
            final(self).cut() == (old(self).cut() || exceeds(
                old(self).kept() + chunk@,
                old(self).limit(),
            )),
    {
        let ghost before = self.stored@;
        let ghost cut = self.truncated;
        let mut i: usize = 0;
        let len = chunk.len();
        while i < len && self.stored.len() < self.limit
            invariant
                len == chunk@.len(),
                i <= len,
                self.limit == old(self).limit,
                self.truncated == cut,
                self.stored@ == before + chunk@.take(i as int),
                self.stored@.len() <= self.limit,
            decreases len - i,
        {
            self.stored.push(chunk[i]);
            i += 1;
            assert(self.stored@ =~= before + chunk@.take(i as int));
        }
        if i < len {
            self.truncated = true;
        }
        assert(self.stored@ =~= start_of(before + chunk@, self.limit as int));
    }

    /// The output could not be read any further.
    pub fn fail(&mut self)
        ensures
            final(self).kept() == old(self).kept(),
            final(self).limit() == old(self).limit(),
            final(self).cut(),
    {
        self.truncated = true;
    }

    /// Kept output as text.
    pub fn finish(self) -> (output: OutputText)
        ensures
            output.text@ == lossy_text(self.kept()),
            output.truncated == self.cut(),
    {
        OutputText { text: text_from_utf8_lossy(&self.stored), truncated: self.truncated }
    }
}

/// How a program ended.
#[derive(Debug)]
pub enum TaskExit {
    /// It could not be started.
    NotStarted(String),
    /// It ended by itself.
    Exited {
        /// Whether it reported success.
        success: bool,
        /// Its exit code.
        code: Option<i32>,
    },
    /// Waiting for it failed.
    WaitFailed(String),
    /// It ran too long and was stopped.
    TimedOut {
        /// Why stopping it failed, where it did.
        kill_error: Option<String>,
    },
}

/// Status of a task by how its program ended.
pub open spec fn exit_status(exit: TaskExit) -> RemoteTaskStatus {
    match exit {
        TaskExit::Exited { success, code } if success => RemoteTaskStatus::Success,
        TaskExit::TimedOut { .. } => RemoteTaskStatus::TimedOut,
        _ => RemoteTaskStatus::Failed,
    }
}

/// Error of a task by how its program ended.
pub open spec fn exit_error(exit: TaskExit) -> Option<String> {
    match exit {
        TaskExit::NotStarted(error) => Some(error),
        TaskExit::WaitFailed(error) => Some(error),
        TaskExit::TimedOut { kill_error } => kill_error,
        TaskExit::Exited { .. } => None,
    }
}

/// Result of a task.
pub open spec fn task_outcome(
    task_id: String,
    exit: TaskExit,
    stdout: OutputText,
    stderr: OutputText,
    started_at: u64,
    finished_at: u64,
    duration: Span,
) -> RemoteTaskResult {
    RemoteTaskResult {
        task_id,
        status: exit_status(exit),
        exit_code: match exit {
            TaskExit::Exited { success, code } => code,
            _ => None,
        },
        stdout: stdout.text,
        stderr: stderr.text,
        started_at,
        finished_at,
        duration_ms: result_millis(duration),
        timed_out: exit is TimedOut,
        stdout_truncated: stdout.truncated,
        stderr_truncated: stderr.truncated,
        error: exit_error(exit),
    }
}

/// Result of a task.
pub fn task_result(
    task_id: String,
    exit: TaskExit,
    stdout: OutputText,
    stderr: OutputText,
    started_at: u64,
    finished_at: u64,
    duration: Span,
) -> (result: RemoteTaskResult)
    ensures
        result == task_outcome(task_id, exit, stdout, stderr, started_at, finished_at, duration),
{
    let duration_ms: u64 = duration.saturating_millis();
    let (status, exit_code, timed_out, error) = match exit {
        TaskExit::NotStarted(error) => (RemoteTaskStatus::Failed, None, false, Some(error)),
        TaskExit::Exited { success, code } => {
            if success {
                (RemoteTaskStatus::Success, code, false, None)
            } else {
                (RemoteTaskStatus::Failed, code, false, None)
            }
        },
        TaskExit::WaitFailed(error) => (RemoteTaskStatus::Failed, None, false, Some(error)),
        TaskExit::TimedOut { kill_error } => (RemoteTaskStatus::TimedOut, None, true, kill_error),
    };
    RemoteTaskResult {
        task_id,
        status,
        exit_code,
        stdout: stdout.text,
        stderr: stderr.text,
        started_at,
        finished_at,
        duration_ms,
        timed_out,
        stdout_truncated: stdout.truncated,
        stderr_truncated: stderr.truncated,
        error,
    }
}

/// Pieces of output, one after the other.
pub open spec fn joined(chunks: Seq<Seq<u8>>) -> Seq<u8>
    decreases chunks.len(),
{
    if chunks.len() == 0 {
        Seq::empty()
    } else {
        joined(chunks.drop_last()) + chunks.last()
    }
}

/// What a reader has kept, and whether some output is missing, after it took pieces of output
/// one by one.
pub open spec fn taken(chunks: Seq<Seq<u8>>, limit: int) -> (Seq<u8>, bool)
    decreases chunks.len(),
{
    if chunks.len() == 0 {
        (Seq::empty(), false)
    } else {
        let (kept, cut) = taken(chunks.drop_last(), limit);
        let next = kept + chunks.last();
        (start_of(next, limit), cut || next.len() > limit)
    }
}

/// However the output is cut into pieces, exactly its start is kept, and it counts as cut exactly
/// where it is longer than the limit.
pub proof fn law_output_keeps_its_start(chunks: Seq<Seq<u8>>, limit: int)
    requires
        limit >= 0,
    ensures
        taken(chunks, limit).0 == start_of(joined(chunks), limit),
        taken(chunks, limit).1 == (joined(chunks).len() > limit),
    decreases chunks.len(),
{
    if chunks.len() == 0 {
        assert(start_of(Seq::<u8>::empty(), limit) =~= Seq::empty());
    } else {
        let front = chunks.drop_last();
        law_output_keeps_its_start(front, limit);
        let all = joined(front);
        let last = chunks.last();
        assert(start_of(start_of(all, limit) + last, limit) =~= start_of(all + last, limit));
    }
}

} // verus!
