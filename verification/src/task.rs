//! The state of a running extraction or compression: what it has done, what it is doing, and
//! how requests to pause, resume and cancel it change it.
use vstd::prelude::*;
use crate::contents::ExtractTaskEntry;
use crate::commands::{parse_compress_progress_line, spec_parse_compress_progress_line};
use crate::entries::{normalize_archive_entry_key, spec_normalize_archive_entry_key};
use crate::text::{chars_eq, chars_of, decimal, extend_str, push_decimal, string_of};

verus! {

/// Where a task stands.
#[derive(PartialEq, Eq, Structural, Clone, Copy, Debug)]
pub enum TaskStatus {
    Running,
    Paused,
    Canceling,
    Completed,
    Failed,
    Canceled,
}

/// The word a status is reported by.
pub open spec fn status_word(s: TaskStatus) -> Seq<char> {
    match s {
        TaskStatus::Running => "running"@,
        TaskStatus::Paused => "paused"@,
        TaskStatus::Canceling => "canceling"@,
        TaskStatus::Completed => "completed"@,
        TaskStatus::Failed => "failed"@,
        TaskStatus::Canceled => "canceled"@,
    }
}

/// The word a status is reported by.
pub fn status_text(s: TaskStatus) -> (r: String)
    ensures
        r@ == status_word(s),
{
    match s {
        TaskStatus::Running => String::from_str("running"),
        TaskStatus::Paused => String::from_str("paused"),
        TaskStatus::Canceling => String::from_str("canceling"),
        TaskStatus::Completed => String::from_str("completed"),
        TaskStatus::Failed => String::from_str("failed"),
        TaskStatus::Canceled => String::from_str("canceled"),
    }
}

/// Whether a task has ended: completed, failed or canceled.
pub open spec fn is_finished_status(s: TaskStatus) -> bool {
    s == TaskStatus::Completed || s == TaskStatus::Failed || s == TaskStatus::Canceled
}

/// What a task does.
#[derive(PartialEq, Eq, Structural, Clone, Copy, Debug)]
pub enum TaskKind {
    Extract,
    BatchExtract,
    Compress,
}

/// Why a task stopped before it was done.
#[derive(Debug)]
pub enum ExtractTaskError {
    Canceled,
    Failed(String),
}

/// The message of a task's error.
pub fn extract_task_error_message(error: ExtractTaskError) -> (r: String)
    ensures
        r@ == match error {
            ExtractTaskError::Canceled => "操作已取消。"@,
            ExtractTaskError::Failed(m) => m@,
        },
{
    match error {
        ExtractTaskError::Canceled => String::from_str("操作已取消。"),
        ExtractTaskError::Failed(message) => message,
    }
}

/// The state of a task.
#[derive(Debug)]
pub struct ExtractTaskState {
    pub status: TaskStatus,
    pub total: usize,
    pub completed: usize,
    pub total_bytes: u64,
    pub completed_bytes: u64,
    pub current_bytes: u64,
    pub current_total_bytes: u64,
    pub current_item: String,
    pub output_path: String,
    pub message: String,
    pub error: Option<String>,
    pub cancel_requested: bool,
    pub pause_requested: bool,
    pub child_pid: Option<u32>,
}

/// What a task reports of itself.
#[derive(Debug)]
pub struct ExtractTaskProgress {
    pub task_id: String,
    pub status: String,
    pub total: usize,
    pub completed: usize,
    pub total_bytes: u64,
    pub completed_bytes: u64,
    pub current_bytes: u64,
    pub current_total_bytes: u64,
    pub current_item: String,
    pub output_path: String,
    pub message: String,
    pub error: Option<String>,
}

/// The most bytes a task counts as done: its total, or one byte when the total is zero.
pub open spec fn byte_cap(total_bytes: u64) -> nat {
    if total_bytes == 0 {
        1
    } else {
        total_bytes as nat
    }
}

/// `a + b`, or the largest `u64` when that overflows.
pub open spec fn sat_add(a: u64, b: u64) -> u64 {
    if a + b > u64::MAX {
        u64::MAX
    } else {
        (a + b) as u64
    }
}

/// `a + b`, or the largest `usize` when that overflows.
pub open spec fn sat_add_usize(a: usize, b: usize) -> usize {
    if a + b > usize::MAX {
        usize::MAX
    } else {
        (a + b) as usize
    }
}

pub open spec fn min_u64(a: u64, b: u64) -> u64 {
    if a < b {
        a
    } else {
        b
    }
}

pub open spec fn min_usize(a: usize, b: usize) -> usize {
    if a < b {
        a
    } else {
        b
    }
}

pub open spec fn at_least_one(v: u64) -> u64 {
    if v == 0 {
        1
    } else {
        v
    }
}

/// The parts of a state that a request to pause, resume or cancel leaves alone.
pub open spec fn same_counts(a: ExtractTaskState, b: ExtractTaskState) -> bool {
    &&& a.total == b.total
    &&& a.completed == b.completed
    &&& a.total_bytes == b.total_bytes
    &&& a.completed_bytes == b.completed_bytes
    &&& a.current_bytes == b.current_bytes
    &&& a.current_total_bytes == b.current_total_bytes
    &&& a.current_item == b.current_item
    &&& a.output_path == b.output_path
    &&& a.error == b.error
    &&& a.child_pid == b.child_pid
}

/// What the end of a task does. Done: unless it was canceled, it is completed, with every
/// item and byte counted, nothing current, and a message naming where the output went.
/// Canceled or failed: it says so (a failure with its error).
pub open spec fn finish_effect(
    old_s: ExtractTaskState,
    new_s: ExtractTaskState,
    kind: TaskKind,
    outcome: Result<(), ExtractTaskError>,
) -> bool {
    &&& new_s.total == old_s.total
    &&& new_s.total_bytes == old_s.total_bytes
    &&& new_s.output_path == old_s.output_path
    &&& match outcome {
        Ok(()) => if old_s.status == TaskStatus::Canceled {
            new_s == old_s
        } else {
            &&& new_s.status == TaskStatus::Completed
            &&& new_s.completed == old_s.total
            &&& new_s.completed_bytes == old_s.total_bytes
            &&& new_s.current_bytes == 0
            &&& new_s.current_total_bytes == 0
            &&& new_s.current_item@ == Seq::<char>::empty()
            &&& new_s.child_pid is None
            &&& new_s.message@ == match kind {
                TaskKind::Extract => "解压完成，已保存到："@,
                TaskKind::BatchExtract => "批量解压完成，已保存到："@,
                TaskKind::Compress => "压缩完成，已保存到："@,
            } + old_s.output_path@
        },
        Err(ExtractTaskError::Canceled) => {
            &&& new_s.status == TaskStatus::Canceled
            &&& new_s.child_pid is None
            &&& new_s.message@ == if kind == TaskKind::Compress {
                "压缩已取消。"@
            } else {
                "解压已取消。"@
            }
            &&& new_s.completed == old_s.completed
            &&& new_s.completed_bytes == old_s.completed_bytes
        },
        Err(ExtractTaskError::Failed(e)) => {
            &&& new_s.status == TaskStatus::Failed
            &&& new_s.child_pid is None
            &&& new_s.error == Some(e)
            &&& new_s.message@ == e@
            &&& new_s.completed == old_s.completed
            &&& new_s.completed_bytes == old_s.completed_bytes
        },
    }
}

/// The bytes a task reports as done: those of finished items and of the current item, capped
/// at the total.
pub open spec fn reported_completed_bytes(s: ExtractTaskState) -> u64 {
    min_u64(sat_add(s.completed_bytes, s.current_bytes), s.total_bytes)
}

/// What a request to pause does: an ended task is left as it is (and no process is named);
/// otherwise the task is marked paused, its counts kept, and its process (if any) named.
pub open spec fn pause_effect(
    old_s: ExtractTaskState,
    new_s: ExtractTaskState,
    kind: TaskKind,
    pid: Option<u32>,
) -> bool {
    if old_s.finished() {
        new_s == old_s && pid is None
    } else {
        &&& new_s.status == TaskStatus::Paused
        &&& new_s.pause_requested
        &&& new_s.cancel_requested == old_s.cancel_requested
        &&& new_s.message@ == if kind == TaskKind::Compress {
            "压缩已暂停。"@
        } else {
            "解压已暂停。"@
        }
        &&& same_counts(new_s, old_s)
        &&& pid == old_s.child_pid
    }
}

/// What a request to resume does: an ended task is left as it is; otherwise it runs again,
/// no longer paused.
pub open spec fn resume_effect(
    old_s: ExtractTaskState,
    new_s: ExtractTaskState,
    kind: TaskKind,
    pid: Option<u32>,
) -> bool {
    if old_s.finished() {
        new_s == old_s && pid is None
    } else {
        &&& new_s.status == TaskStatus::Running
        &&& !new_s.pause_requested
        &&& new_s.cancel_requested == old_s.cancel_requested
        &&& new_s.message@ == if kind == TaskKind::Compress {
            "正在继续压缩。"@
        } else {
            "正在继续解压。"@
        }
        &&& same_counts(new_s, old_s)
        &&& pid == old_s.child_pid
    }
}

/// What a request to cancel does: an ended task is left as it is; otherwise it is marked to
/// be canceled and no longer paused.
pub open spec fn cancel_effect(
    old_s: ExtractTaskState,
    new_s: ExtractTaskState,
    kind: TaskKind,
    pid: Option<u32>,
) -> bool {
    if old_s.finished() {
        new_s == old_s && pid is None
    } else {
        &&& new_s.status == TaskStatus::Canceling
        &&& new_s.cancel_requested
        &&& !new_s.pause_requested
        &&& new_s.message@ == if kind == TaskKind::Compress {
            "正在取消压缩。"@
        } else {
            "正在取消解压。"@
        }
        &&& same_counts(new_s, old_s)
        &&& pid == old_s.child_pid
    }
}

/// What a worker does before its next step: stop when canceling was asked for, go on unless
/// pausing was asked for, and otherwise wait and ask again.
pub open spec fn spec_wait_decision(s: ExtractTaskState) -> WaitDecision {
    if s.cancel_requested {
        WaitDecision::Cancel
    } else if !s.pause_requested {
        WaitDecision::Proceed
    } else {
        WaitDecision::Wait
    }
}

impl ExtractTaskState {
    /// The counts stay within their totals: no more items done than there are, no more bytes
    /// of the current item than it has, and no more bytes done than the total (or one byte,
    /// for a total of zero).
    pub open spec fn wf(&self) -> bool {
        &&& self.completed <= self.total
        &&& self.current_bytes <= self.current_total_bytes
        &&& self.completed_bytes <= byte_cap(self.total_bytes)
    }

    /// Whether the task has ended.
    pub open spec fn finished(&self) -> bool {
        is_finished_status(self.status)
    }

    /// A task that has started: `total` items of `total_bytes` bytes in all, to be written to
    /// `output_path`, nothing done yet.
    pub fn new(total: usize, total_bytes: u64, output_path: String) -> (s: Self)
        ensures
            s.wf(),
            s.status == TaskStatus::Running,
            s.total == total,
            s.completed == 0,
            s.total_bytes == total_bytes,
            s.completed_bytes == 0,
            s.current_bytes == 0,
            s.current_total_bytes == 0,
            s.current_item@ == Seq::<char>::empty(),
            s.output_path@ == output_path@,
            s.message@ == "正在准备解压。"@,
            s.error is None,
            !s.cancel_requested,
            !s.pause_requested,
            s.child_pid is None,
    {
        ExtractTaskState {
            status: TaskStatus::Running,
            total,
            completed: 0,
            total_bytes,
            completed_bytes: 0,
            current_bytes: 0,
            current_total_bytes: 0,
            current_item: String::new(),
            output_path,
            message: String::from_str("正在准备解压。"),
            error: None,
            cancel_requested: false,
            pause_requested: false,
            child_pid: None,
        }
    }

    /// Whether the task has ended.
    pub fn is_finished(&self) -> (r: bool)
        ensures
            r == self.finished(),
    {
        self.status == TaskStatus::Completed || self.status == TaskStatus::Failed || self.status
            == TaskStatus::Canceled
    }

    /// A request to pause: an ended task is left as it is; otherwise the task is marked paused.
    /// Returns the process to stop, if one runs.
    pub fn request_pause(&mut self, kind: TaskKind) -> (pid: Option<u32>)
        ensures
            pause_effect(*old(self), *final(self), kind, pid),
            old(self).wf() ==> final(self).wf(),
    {
        if self.is_finished() {
            return None;
        }
        self.pause_requested = true;
        self.status = TaskStatus::Paused;
        self.message = if kind == TaskKind::Compress {
            String::from_str("压缩已暂停。")
        } else {
            String::from_str("解压已暂停。")
        };
        self.child_pid
    }

    /// A request to resume: an ended task is left as it is; otherwise the task runs again.
    /// Returns the process to continue, if one runs.
    pub fn request_resume(&mut self, kind: TaskKind) -> (pid: Option<u32>)
        ensures
            resume_effect(*old(self), *final(self), kind, pid),
            old(self).wf() ==> final(self).wf(),
    {
        if self.is_finished() {
            return None;
        }
        self.pause_requested = false;
        self.status = TaskStatus::Running;
        self.message = if kind == TaskKind::Compress {
            String::from_str("正在继续压缩。")
        } else {
            String::from_str("正在继续解压。")
        };
        self.child_pid
    }

    /// A request to cancel: an ended task is left as it is; otherwise the task is marked to be
    /// canceled and no longer paused. Returns the process to stop, if one runs.
    pub fn request_cancel(&mut self, kind: TaskKind) -> (pid: Option<u32>)
        ensures
            cancel_effect(*old(self), *final(self), kind, pid),
            old(self).wf() ==> final(self).wf(),
    {
        if self.is_finished() {
            return None;
        }
        self.cancel_requested = true;
        self.pause_requested = false;
        self.status = TaskStatus::Canceling;
        self.message = if kind == TaskKind::Compress {
            String::from_str("正在取消压缩。")
        } else {
            String::from_str("正在取消解压。")
        };
        self.child_pid
    }

    /// What a worker does before its next step: stop when canceling was asked for, go on
    /// unless pausing was asked for, and otherwise wait and ask again.
    pub fn wait_decision(&self) -> (r: WaitDecision)
        ensures
            r == spec_wait_decision(*self),
    {
        if self.cancel_requested {
            WaitDecision::Cancel
        } else if !self.pause_requested {
            WaitDecision::Proceed
        } else {
            WaitDecision::Wait
        }
    }

    /// A child process started for the task; returns whether it is to be stopped at once
    /// because pausing was asked for.
    pub fn attach_child(&mut self, pid: u32) -> (stop: bool)
        ensures
            final(self).child_pid == Some(pid),
            stop == old(self).pause_requested,
            final(self).status == old(self).status,
            final(self).message == old(self).message,
            final(self).cancel_requested == old(self).cancel_requested,
            final(self).pause_requested == old(self).pause_requested,
            final(self).completed == old(self).completed,
            final(self).completed_bytes == old(self).completed_bytes,
            final(self).current_bytes == old(self).current_bytes,
            final(self).current_total_bytes == old(self).current_total_bytes,
            final(self).total == old(self).total,
            final(self).total_bytes == old(self).total_bytes,
            old(self).wf() ==> final(self).wf(),
    {
        self.child_pid = Some(pid);
        self.pause_requested
    }

    /// The task's child process ended.
    pub fn detach_child(&mut self)
        ensures
            final(self).child_pid is None,
            final(self).status == old(self).status,
            final(self).completed == old(self).completed,
            final(self).completed_bytes == old(self).completed_bytes,
            final(self).current_bytes == old(self).current_bytes,
            final(self).current_total_bytes == old(self).current_total_bytes,
            final(self).total == old(self).total,
            final(self).total_bytes == old(self).total_bytes,
            old(self).wf() ==> final(self).wf(),
    {
        self.child_pid = None;
    }

    /// An item is done: one more item, the current item's bytes added (both capped at their
    /// totals), nothing of a current item left; a message, when given, replaces the last one.
    pub fn complete_entry(&mut self, message: String)
        requires
            old(self).wf(),
        ensures
            final(self).wf(),
            final(self).completed == min_usize(sat_add_usize(old(self).completed, 1), old(self).total),
            final(self).completed_bytes == min_u64(
                sat_add(old(self).completed_bytes, old(self).current_total_bytes),
                old(self).total_bytes,
            ),
            final(self).current_bytes == 0,
            final(self).message@ == if message@.len() == 0 {
                old(self).message@
            } else {
                message@
            },
            final(self).status == old(self).status,
            final(self).total == old(self).total,
            final(self).total_bytes == old(self).total_bytes,
            final(self).current_total_bytes == old(self).current_total_bytes,
            final(self).cancel_requested == old(self).cancel_requested,
            final(self).pause_requested == old(self).pause_requested,
    {
        let c = self.completed.saturating_add(1);
        self.completed = if c < self.total {
            c
        } else {
            self.total
        };
        let b = self.completed_bytes.saturating_add(self.current_total_bytes);
        self.completed_bytes = if b < self.total_bytes {
            b
        } else {
            self.total_bytes
        };
        self.current_bytes = 0;
        if chars_of(message.as_str()).len() > 0 {
            self.message = message;
        }
    }

    /// An item starts: the task runs, the item is the current one (at least one byte), and the
    /// message counts it: `正在解压 <n> / <total>` or `正在压缩 <n> / <total>`.
    pub fn begin_entry(&mut self, kind: TaskKind, display_path: String, size: u64)
        requires
            old(self).wf(),
        ensures
            final(self).wf(),
            final(self).status == TaskStatus::Running,
            final(self).current_item@ == display_path@,
            final(self).current_bytes == 0,
            final(self).current_total_bytes == at_least_one(size),
            final(self).message@ == (if kind == TaskKind::Compress {
                "正在压缩 "@
            } else {
                "正在解压 "@
            }) + decimal(sat_add_usize(old(self).completed, 1) as nat) + " / "@ + decimal(
                old(self).total as nat,
            ),
            final(self).completed == old(self).completed,
            final(self).completed_bytes == old(self).completed_bytes,
            final(self).total == old(self).total,
            final(self).total_bytes == old(self).total_bytes,
            final(self).cancel_requested == old(self).cancel_requested,
            final(self).pause_requested == old(self).pause_requested,
    {
        self.status = TaskStatus::Running;
        self.current_item = display_path;
        self.current_bytes = 0;
        self.current_total_bytes = if size == 0 {
            1
        } else {
            size
        };
        let mut m = if kind == TaskKind::Compress {
            chars_of("正在压缩 ")
        } else {
            chars_of("正在解压 ")
        };
        push_decimal(&mut m, self.completed.saturating_add(1) as u64);
        extend_str(&mut m, " / ");
        push_decimal(&mut m, self.total as u64);
        self.message = string_of(&m);
    }

    /// Several items are done at once (a solid block): as many items and their bytes (each at
    /// least one byte) are added, capped at the totals.
    pub fn complete_entries(&mut self, entries: &[ExtractTaskEntry])
        requires
            old(self).wf(),
            entries_bytes(entries@) <= u64::MAX,
        ensures
            final(self).wf(),
            final(self).completed == min_usize(
                sat_add_usize(old(self).completed, entries@.len() as usize),
                old(self).total,
            ),
            final(self).completed_bytes == min_u64(
                sat_add(old(self).completed_bytes, entries_bytes(entries@) as u64),
                old(self).total_bytes,
            ),
            final(self).current_bytes == 0,
            final(self).status == old(self).status,
            final(self).message == old(self).message,
            final(self).total == old(self).total,
            final(self).total_bytes == old(self).total_bytes,
            final(self).current_total_bytes == old(self).current_total_bytes,
            final(self).cancel_requested == old(self).cancel_requested,
            final(self).pause_requested == old(self).pause_requested,
    {
        let bytes = total_entry_bytes(entries);
        let c = self.completed.saturating_add(entries.len());
        self.completed = if c < self.total {
            c
        } else {
            self.total
        };
        let b = self.completed_bytes.saturating_add(bytes);
        self.completed_bytes = if b < self.total_bytes {
            b
        } else {
            self.total_bytes
        };
        self.current_bytes = 0;
    }

    /// The size of the output so far, while a tool compresses: the bytes done become at least
    /// that size, kept below the total (but at least one byte).
    pub fn observe_output_size(&mut self, output_size: Option<u64>)
        requires
            old(self).wf(),
        ensures
            final(self).wf(),
            final(self).completed_bytes == match output_size {
                Some(s) => {
                    let limit = if old(self).total_bytes <= 1 {
                        1
                    } else {
                        (old(self).total_bytes - 1) as u64
                    };
                    let running = min_u64(s, limit);
                    if old(self).completed_bytes < running {
                        running
                    } else {
                        old(self).completed_bytes
                    }
                },
                None => old(self).completed_bytes,
            },
            final(self).status == old(self).status,
            final(self).completed == old(self).completed,
            final(self).current_bytes == old(self).current_bytes,
            final(self).current_total_bytes == old(self).current_total_bytes,
            final(self).total == old(self).total,
            final(self).total_bytes == old(self).total_bytes,
            final(self).message == old(self).message,
            final(self).cancel_requested == old(self).cancel_requested,
            final(self).pause_requested == old(self).pause_requested,
    {
        if let Some(s) = output_size {
            let limit = if self.total_bytes <= 1 {
                1
            } else {
                self.total_bytes - 1
            };
            let running = if s < limit {
                s
            } else {
                limit
            };
            if self.completed_bytes < running {
                self.completed_bytes = running;
            }
        }
    }

    /// The size of the current item's output so far, while a tool extracts it: when known, it
    /// becomes the current bytes, capped at the item's size.
    pub fn observe_current_size(&mut self, size: Option<u64>)
        requires
            old(self).wf(),
        ensures
            final(self).wf(),
            final(self).current_bytes == min_u64(
                match size {
                    Some(s) => s,
                    None => old(self).current_bytes,
                },
                old(self).current_total_bytes,
            ),
            final(self).status == old(self).status,
            final(self).completed == old(self).completed,
            final(self).completed_bytes == old(self).completed_bytes,
            final(self).current_total_bytes == old(self).current_total_bytes,
            final(self).total == old(self).total,
            final(self).total_bytes == old(self).total_bytes,
            final(self).message == old(self).message,
            final(self).cancel_requested == old(self).cancel_requested,
            final(self).pause_requested == old(self).pause_requested,
    {
        let s = match size {
            Some(s) => s,
            None => self.current_bytes,
        };
        self.current_bytes = if s < self.current_total_bytes {
            s
        } else {
            self.current_total_bytes
        };
    }

    /// The end of a task. Done: unless it was canceled, it is completed, with every item and
    /// byte counted, nothing current, and a message naming where the output went. Canceled or
    /// failed: it says so (a failure with its error).
    pub fn finish(&mut self, kind: TaskKind, outcome: Result<(), ExtractTaskError>)
        requires
            old(self).wf(),
        ensures
            final(self).wf(),
            finish_effect(*old(self), *final(self), kind, outcome),
    {
        match outcome {
            Ok(()) => {
                if self.status != TaskStatus::Canceled {
                    self.status = TaskStatus::Completed;
                    self.completed = self.total;
                    self.completed_bytes = self.total_bytes;
                    self.current_bytes = 0;
                    self.current_total_bytes = 0;
                    self.current_item = String::new();
                    self.child_pid = None;
                    let mut m = match kind {
                        TaskKind::Extract => chars_of("解压完成，已保存到："),
                        TaskKind::BatchExtract => chars_of("批量解压完成，已保存到："),
                        TaskKind::Compress => chars_of("压缩完成，已保存到："),
                    };
                    extend_str(&mut m, self.output_path.as_str());
                    self.message = string_of(&m);
                }
            },
            Err(ExtractTaskError::Canceled) => {
                self.status = TaskStatus::Canceled;
                self.child_pid = None;
                self.message = if kind == TaskKind::Compress {
                    String::from_str("压缩已取消。")
                } else {
                    String::from_str("解压已取消。")
                };
            },
            Err(ExtractTaskError::Failed(error)) => {
                self.status = TaskStatus::Failed;
                self.child_pid = None;
                self.error = Some(error.clone());
                self.message = error;
            },
        }
    }

    /// What the task reports: its state, with the current item's bytes counted as done
    /// (capped at the total).
    pub fn progress(&self, task_id: &str) -> (p: ExtractTaskProgress)
        ensures
            p.task_id@ == task_id@,
            p.status@ == status_word(self.status),
            p.total == self.total,
            p.completed == self.completed,
            p.total_bytes == self.total_bytes,
            p.completed_bytes == reported_completed_bytes(*self),
            p.current_bytes == self.current_bytes,
            p.current_total_bytes == self.current_total_bytes,
            p.current_item@ == self.current_item@,
            p.output_path@ == self.output_path@,
            p.message@ == self.message@,
            p.error == self.error,
    {
        let b = self.completed_bytes.saturating_add(self.current_bytes);
        ExtractTaskProgress {
            task_id: String::from_str(task_id),
            status: status_text(self.status),
            total: self.total,
            completed: self.completed,
            total_bytes: self.total_bytes,
            completed_bytes: if b < self.total_bytes {
                b
            } else {
                self.total_bytes
            },
            current_bytes: self.current_bytes,
            current_total_bytes: self.current_total_bytes,
            current_item: self.current_item.clone(),
            output_path: self.output_path.clone(),
            message: self.message.clone(),
            error: crate::text::copy_opt_string(&self.error),
        }
    }
}

/// What a worker does before its next step.
#[derive(PartialEq, Eq, Structural, Clone, Copy, Debug)]
pub enum WaitDecision {
    Proceed,
    Wait,
    Cancel,
}

/// The bytes of a list of entries, each counted as at least one byte.
pub open spec fn entries_bytes(es: Seq<ExtractTaskEntry>) -> nat
    decreases es.len(),
{
    if es.len() == 0 {
        0
    } else {
        entries_bytes(es.drop_last()) + at_least_one(es.last().size) as nat
    }
}

proof fn lemma_entries_bytes_monotone(es: Seq<ExtractTaskEntry>, i: int)
    requires
        0 <= i <= es.len(),
    ensures
        entries_bytes(es.take(i)) <= entries_bytes(es),
    decreases es.len() - i,
{
    if i < es.len() {
        lemma_entries_bytes_monotone(es, i + 1);
        assert(es.take(i + 1).drop_last() == es.take(i));
    } else {
        assert(es.take(i) == es);
    }
}

/// Whether the bytes of a list of entries (each at least one byte) add up to at most the
/// largest `u64`.
pub fn entry_bytes_fit(entries: &[ExtractTaskEntry]) -> (r: bool)
    ensures
        r == (entries_bytes(entries@) <= u64::MAX),
{
    let mut total: u64 = 0;
    let mut i: usize = 0;
    while i < entries.len()
        invariant
            i <= entries.len(),
            total == entries_bytes(entries@.take(i as int)),
        decreases entries.len() - i,
    {
        assert(entries@.take(i + 1).drop_last() == entries@.take(i as int));
        let s = if entries[i].size == 0 {
            1
        } else {
            entries[i].size
        };
        match total.checked_add(s) {
            Some(t) => total = t,
            None => {
                proof {
                    lemma_entries_bytes_monotone(entries@, i + 1);
                }
                return false;
            },
        }
        i = i + 1;
    }
    assert(entries@.take(entries.len() as int) == entries@);
    true
}

/// The bytes of a list of entries, each counted as at least one byte.
pub fn total_entry_bytes(entries: &[ExtractTaskEntry]) -> (r: u64)
    requires
        entries_bytes(entries@) <= u64::MAX,
    ensures
        r == entries_bytes(entries@),
{
    let mut total: u64 = 0;
    let mut i: usize = 0;
    while i < entries.len()
        invariant
            i <= entries.len(),
            entries_bytes(entries@) <= u64::MAX,
            total == entries_bytes(entries@.take(i as int)),
        decreases entries.len() - i,
    {
        proof {
            lemma_entries_bytes_monotone(entries@, i + 1);
            assert(entries@.take(i + 1).drop_last() == entries@.take(i as int));
        }
        let s = if entries[i].size == 0 {
            1
        } else {
            entries[i].size
        };
        total = total + s;
        i = i + 1;
    }
    assert(entries@.take(entries.len() as int) == entries@);
    total
}

// ---------------------------------------------------------------------------
// Steps of extracting and compressing
// ---------------------------------------------------------------------------

impl ExtractTaskState {
    /// A compression task that has started: like `new`, with the output's name as the current
    /// item, the whole size as its size, and a message saying the task is being set up.
    pub fn new_compress(total: usize, total_bytes: u64, output_path: String, current_item: String) -> (s:
        Self)
        ensures
            s.wf(),
            s.status == TaskStatus::Running,
            s.total == total,
            s.completed == 0,
            s.total_bytes == total_bytes,
            s.completed_bytes == 0,
            s.current_bytes == 0,
            s.current_total_bytes == total_bytes,
            s.current_item@ == current_item@,
            s.output_path@ == output_path@,
            s.message@ == "正在创建压缩任务。"@,
            s.error is None,
            !s.cancel_requested,
            !s.pause_requested,
            s.child_pid is None,
    {
        let mut s = ExtractTaskState::new(total, total_bytes, output_path);
        s.current_item = current_item;
        s.current_total_bytes = total_bytes;
        s.message = String::from_str("正在创建压缩任务。");
        s
    }

    /// One of `count` archives to create starts (the `index`-th, from 0): its name is the
    /// current item and its size (at least one byte) the current size; with several archives
    /// the message counts them.
    pub fn begin_compress_plan(&mut self, index: usize, count: usize, name: &str, total_bytes: u64)
        requires
            old(self).wf(),
            index < count,
        ensures
            final(self).wf(),
            final(self).status == TaskStatus::Running,
            final(self).current_item@ == name@,
            final(self).current_bytes == 0,
            final(self).current_total_bytes == at_least_one(total_bytes),
            final(self).message@ == if count > 1 {
                "正在压缩任务 "@ + decimal(index as nat + 1) + " / "@ + decimal(count as nat) + "："@
                    + name@
            } else {
                "正在压缩。"@
            },
            final(self).completed == old(self).completed,
            final(self).completed_bytes == old(self).completed_bytes,
            final(self).total == old(self).total,
            final(self).total_bytes == old(self).total_bytes,
            final(self).cancel_requested == old(self).cancel_requested,
            final(self).pause_requested == old(self).pause_requested,
    {
        self.status = TaskStatus::Running;
        self.current_item = String::from_str(name);
        self.current_bytes = 0;
        self.current_total_bytes = if total_bytes == 0 {
            1
        } else {
            total_bytes
        };
        self.message = if count > 1 {
            let mut m = chars_of("正在压缩任务 ");
            push_decimal(&mut m, index as u64 + 1);
            extend_str(&mut m, " / ");
            push_decimal(&mut m, count as u64);
            extend_str(&mut m, "：");
            extend_str(&mut m, name);
            string_of(&m)
        } else {
            String::from_str("正在压缩。")
        };
    }

    /// One archive of a batch starts being extracted.
    pub fn begin_batch_archive(&mut self, archive_name: &str)
        requires
            old(self).wf(),
        ensures
            final(self).wf(),
            final(self).status == TaskStatus::Running,
            final(self).message@ == "正在解压 "@ + archive_name@,
            final(self).completed == old(self).completed,
            final(self).completed_bytes == old(self).completed_bytes,
            final(self).current_bytes == old(self).current_bytes,
            final(self).current_total_bytes == old(self).current_total_bytes,
            final(self).total == old(self).total,
            final(self).total_bytes == old(self).total_bytes,
            final(self).cancel_requested == old(self).cancel_requested,
            final(self).pause_requested == old(self).pause_requested,
    {
        self.status = TaskStatus::Running;
        let mut m = chars_of("正在解压 ");
        extend_str(&mut m, archive_name);
        self.message = string_of(&m);
    }

    /// A single compressed stream starts being decompressed into the file `output_name`;
    /// `archive_size` is the compressed file's size, when known (at least one byte).
    pub fn begin_single_stream(&mut self, output_name: String, archive_size: Option<u64>)
        requires
            old(self).wf(),
        ensures
            final(self).wf(),
            final(self).status == TaskStatus::Running,
            final(self).current_item@ == output_name@,
            final(self).current_bytes == 0,
            final(self).current_total_bytes == match archive_size {
                Some(s) => at_least_one(s),
                None => 1,
            },
            final(self).message@ == "正在解压单文件压缩流。"@,
            final(self).completed == old(self).completed,
            final(self).completed_bytes == old(self).completed_bytes,
            final(self).total == old(self).total,
            final(self).total_bytes == old(self).total_bytes,
            final(self).cancel_requested == old(self).cancel_requested,
            final(self).pause_requested == old(self).pause_requested,
    {
        self.status = TaskStatus::Running;
        self.current_item = output_name;
        self.current_bytes = 0;
        self.current_total_bytes = match archive_size {
            Some(s) => if s == 0 {
                1
            } else {
                s
            },
            None => 1,
        };
        self.message = String::from_str("正在解压单文件压缩流。");
    }

    /// The files of a solid 7Z block start being written together.
    pub fn begin_solid_block(&mut self, entries: &[ExtractTaskEntry])
        requires
            old(self).wf(),
            entries_bytes(entries@) <= u64::MAX,
        ensures
            final(self).wf(),
            final(self).status == TaskStatus::Running,
            final(self).current_item@ == "固实压缩数据块"@,
            final(self).current_bytes == 0,
            final(self).current_total_bytes == at_least_one(entries_bytes(entries@) as u64),
            final(self).message@ == "正在固实压缩 "@ + decimal(entries@.len()) + " 个文件"@,
            final(self).completed == old(self).completed,
            final(self).completed_bytes == old(self).completed_bytes,
            final(self).total == old(self).total,
            final(self).total_bytes == old(self).total_bytes,
            final(self).cancel_requested == old(self).cancel_requested,
            final(self).pause_requested == old(self).pause_requested,
    {
        let bytes = total_entry_bytes(entries);
        self.status = TaskStatus::Running;
        self.current_item = String::from_str("固实压缩数据块");
        self.current_bytes = 0;
        self.current_total_bytes = if bytes == 0 {
            1
        } else {
            bytes
        };
        let mut m = chars_of("正在固实压缩 ");
        push_decimal(&mut m, entries.len() as u64);
        extend_str(&mut m, " 个文件");
        self.message = string_of(&m);
    }

    /// A step of the task that is not one of its entries starts (testing the archive, writing
    /// volumes): the task runs, `item` is the current item with `size` bytes (at least one),
    /// and `message` says what happens.
    pub fn begin_step(&mut self, item: String, size: u64, message: &str)
        requires
            old(self).wf(),
        ensures
            final(self).wf(),
            final(self).status == TaskStatus::Running,
            final(self).current_item@ == item@,
            final(self).current_bytes == 0,
            final(self).current_total_bytes == at_least_one(size),
            final(self).message@ == message@,
            final(self).completed == old(self).completed,
            final(self).completed_bytes == old(self).completed_bytes,
            final(self).total == old(self).total,
            final(self).total_bytes == old(self).total_bytes,
            final(self).cancel_requested == old(self).cancel_requested,
            final(self).pause_requested == old(self).pause_requested,
    {
        self.status = TaskStatus::Running;
        self.current_item = item;
        self.current_bytes = 0;
        self.current_total_bytes = if size == 0 {
            1
        } else {
            size
        };
        self.message = String::from_str(message);
    }

    /// A compressing tool started for the task: it runs and says so; returns whether the tool
    /// is to be stopped at once because pausing was asked for.
    pub fn attach_compress_child(&mut self, pid: u32) -> (stop: bool)
        requires
            old(self).wf(),
        ensures
            final(self).wf(),
            final(self).child_pid == Some(pid),
            final(self).status == TaskStatus::Running,
            final(self).message@ == "正在压缩。"@,
            stop == old(self).pause_requested,
            final(self).completed == old(self).completed,
            final(self).completed_bytes == old(self).completed_bytes,
            final(self).current_bytes == old(self).current_bytes,
            final(self).current_total_bytes == old(self).current_total_bytes,
            final(self).total == old(self).total,
            final(self).total_bytes == old(self).total_bytes,
            final(self).cancel_requested == old(self).cancel_requested,
            final(self).pause_requested == old(self).pause_requested,
    {
        self.child_pid = Some(pid);
        self.status = TaskStatus::Running;
        self.message = String::from_str("正在压缩。");
        self.pause_requested
    }
}

// ---------------------------------------------------------------------------
// Messages of the tools
// ---------------------------------------------------------------------------

/// The error for a program that cannot be found.
pub open spec fn spec_command_not_found_message(program: Seq<char>) -> Seq<char> {
    "找不到命令："@ + program + "。请确认系统已安装对应压缩工具。"@
}

/// The error for a program that cannot be found.
pub fn command_not_found_message(program: &str) -> (r: String)
    ensures
        r@ == spec_command_not_found_message(program@),
{
    let mut m = chars_of("找不到命令：");
    extend_str(&mut m, program);
    extend_str(&mut m, "。请确认系统已安装对应压缩工具。");
    string_of(&m)
}

/// The error of a tool that failed: what it wrote to standard error, trimmed, or a message
/// naming the tool when that is blank.
pub open spec fn spec_child_error_message(stderr: Seq<char>, program: Seq<char>) -> Seq<char> {
    if crate::text::trim(stderr).len() == 0 {
        program + " 执行失败。"@
    } else {
        crate::text::trim(stderr)
    }
}

/// The error of a tool that failed.
pub fn child_error_message(stderr: &str, program: &str) -> (r: String)
    ensures
        r@ == spec_child_error_message(stderr@, program@),
{
    let c = chars_of(stderr);
    let t = crate::text::trim_chars(&c);
    if t.len() == 0 {
        let mut m = chars_of(program);
        extend_str(&mut m, " 执行失败。");
        string_of(&m)
    } else {
        string_of(&t)
    }
}

/// The last lines that a tool wrote to standard error, at most twelve.
pub fn push_recent_line(recent: &mut Vec<String>, line: String)
    requires
        old(recent)@.len() <= 12,
    ensures
        final(recent)@.len() <= 12,
        crate::text::string_views(final(recent)@) == if old(recent)@.len() < 12 {
            crate::text::string_views(old(recent)@).push(line@)
        } else {
            crate::text::string_views(old(recent)@).push(line@).drop_first()
        },
{
    let ghost before = crate::text::string_views(recent@);
    crate::text::push_string(recent, line);
    if recent.len() > 12 {
        let ghost pushed = recent@;
        recent.remove(0);
        assert(crate::text::string_views(recent@) =~= crate::text::string_views(pushed).drop_first());
    }
}

/// The lines that are not blank, joined with newlines.
pub open spec fn join_nonblank(lines: Seq<Seq<char>>) -> Seq<char>
    decreases lines.len(),
{
    if lines.len() == 0 {
        Seq::<char>::empty()
    } else {
        let before = join_nonblank(lines.drop_last());
        if crate::text::trim(lines.last()).len() == 0 {
            before
        } else if before.len() == 0 {
            lines.last()
        } else {
            before + seq!['\n'] + lines.last()
        }
    }
}

/// The error of a compressing tool that failed: the lines it last wrote to standard error
/// that are not blank, joined with newlines, or a message naming the tool when there are none.
pub open spec fn spec_compress_failure_message(recent: Seq<Seq<char>>, program: Seq<char>) -> Seq<
    char,
> {
    if join_nonblank(recent).len() == 0 {
        program + " 执行失败。"@
    } else {
        join_nonblank(recent)
    }
}

/// The error of a compressing tool that failed.
pub fn compress_failure_message(recent: &Vec<String>, program: &str) -> (r: String)
    ensures
        r@ == spec_compress_failure_message(crate::text::string_views(recent@), program@),
{
    let mut joined: Vec<char> = Vec::new();
    let mut i: usize = 0;
    let ghost rv = crate::text::string_views(recent@);
    while i < recent.len()
        invariant
            i <= recent.len(),
            rv == crate::text::string_views(recent@),
            joined@ == join_nonblank(rv.take(i as int)),
        decreases recent.len() - i,
    {
        assert(rv.take(i + 1).drop_last() == rv.take(i as int));
        assert(rv.take(i + 1).last() == recent@[i as int]@);
        let line = chars_of(recent[i].as_str());
        let t = crate::text::trim_chars(&line);
        if t.len() > 0 {
            if joined.len() > 0 {
                joined.push('\n');
            }
            crate::text::extend_chars(&mut joined, &line);
        }
        i = i + 1;
    }
    assert(rv.take(recent.len() as int) == rv);
    if joined.len() == 0 {
        let mut m = chars_of(program);
        extend_str(&mut m, " 执行失败。");
        string_of(&m)
    } else {
        string_of(&joined)
    }
}

// ---------------------------------------------------------------------------
// Progress read from a compressing tool's output
// ---------------------------------------------------------------------------

/// The entry that a key names: the last of the entries whose path has that key.
pub open spec fn keyed_entry(es: Seq<ExtractTaskEntry>, key: Seq<char>) -> Option<ExtractTaskEntry>
    decreases es.len(),
{
    if es.len() == 0 {
        None
    } else if spec_normalize_archive_entry_key(es.last().path@) == key {
        Some(es.last())
    } else {
        keyed_entry(es.drop_last(), key)
    }
}

fn keyed_entry_of(es: &Vec<ExtractTaskEntry>, key: &[char]) -> (r: Option<usize>)
    ensures
        match r {
            Some(i) => i < es@.len() && keyed_entry(es@, key@) == Some(es@[i as int]),
            None => keyed_entry(es@, key@) is None,
        },
{
    let mut i: usize = es.len();
    assert(es@.take(i as int) == es@);
    while i > 0
        invariant
            i <= es@.len(),
            keyed_entry(es@, key@) == keyed_entry(es@.take(i as int), key@),
        decreases i,
    {
        assert(es@.take(i as int).last() == es@[i - 1]);
        assert(es@.take(i as int).drop_last() == es@.take(i - 1));
        let k = normalize_archive_entry_key(es[i - 1].path.as_str());
        let kc = chars_of(k.as_str());
        if chars_eq(&kc, key) {
            return Some(i - 1);
        }
        i = i - 1;
    }
    None
}

fn seen_index(seen: &Vec<Vec<char>>, key: &[char]) -> (r: bool)
    ensures
        r == crate::text::views(seen@).contains(key@),
{
    let mut i: usize = 0;
    while i < seen.len()
        invariant
            i <= seen.len(),
            forall|j: int| 0 <= j < i ==> #[trigger] crate::text::views(seen@)[j] != key@,
        decreases seen.len() - i,
    {
        if chars_eq(&seen[i], key) {
            assert(crate::text::views(seen@)[i as int] == key@);
            return true;
        }
        i = i + 1;
    }
    false
}

/// The state after a compressing tool printed `line`: a line that names a path makes the
/// named entry (or the path itself) the current item; an entry it names for the first time
/// counts as done (capped at the totals), and the message counts the entries done.
pub open spec fn compress_line_effect(
    old_state: ExtractTaskState,
    new_state: ExtractTaskState,
    line: Seq<char>,
    entries: Seq<ExtractTaskEntry>,
    old_seen: Seq<Seq<char>>,
    new_seen: Seq<Seq<char>>,
) -> bool {
    match spec_parse_compress_progress_line(line) {
        None => new_state == old_state && new_seen == old_seen,
        Some(path) => {
            let key = spec_normalize_archive_entry_key(path);
            match keyed_entry(entries, key) {
                None => {
                    &&& new_state.current_item@ == path
                    &&& new_seen == old_seen
                    &&& new_state.completed == old_state.completed
                    &&& new_state.completed_bytes == old_state.completed_bytes
                    &&& new_state.current_bytes == old_state.current_bytes
                    &&& new_state.current_total_bytes == old_state.current_total_bytes
                    &&& new_state.message == old_state.message
                },
                Some(e) => {
                    let first = !old_seen.contains(key);
                    &&& new_state.current_item@ == e.display_path@
                    &&& new_state.current_total_bytes == at_least_one(e.size)
                    &&& new_state.current_bytes == at_least_one(e.size)
                    &&& new_seen == if first {
                        old_seen.push(key)
                    } else {
                        old_seen
                    }
                    &&& new_state.completed == if first {
                        min_usize(sat_add_usize(old_state.completed, 1), old_state.total)
                    } else {
                        old_state.completed
                    }
                    &&& new_state.completed_bytes == if first {
                        min_u64(sat_add(old_state.completed_bytes, at_least_one(e.size)), old_state.total_bytes)
                    } else {
                        old_state.completed_bytes
                    }
                    &&& new_state.message@ == "正在压缩 "@ + decimal(
                        min_usize(
                            if new_state.completed == 0 {
                                1
                            } else {
                                new_state.completed
                            },
                            new_state.total,
                        ) as nat,
                    ) + " / "@ + decimal(new_state.total as nat)
                },
            }
        },
    }
}

/// Reads one line of a compressing tool's output into the task's state; `seen` holds the keys
/// of the entries already counted.
pub fn update_compress_progress_from_line(
    state: &mut ExtractTaskState,
    line: &str,
    entries: &Vec<ExtractTaskEntry>,
    seen: &mut Vec<Vec<char>>,
)
    requires
        old(state).wf(),
    ensures
        final(state).wf(),
        compress_line_effect(
            *old(state),
            *final(state),
            line@,
            entries@,
            crate::text::views(old(seen)@),
            crate::text::views(final(seen)@),
        ),
        final(state).status == old(state).status,
        final(state).total == old(state).total,
        final(state).total_bytes == old(state).total_bytes,
        final(state).cancel_requested == old(state).cancel_requested,
        final(state).pause_requested == old(state).pause_requested,
{
    let path = match parse_compress_progress_line(line) {
        Some(p) => p,
        None => return,
    };
    let key_s = normalize_archive_entry_key(path.as_str());
    let key = chars_of(key_s.as_str());
    match keyed_entry_of(entries, &key) {
        None => {
            state.current_item = path;
        },
        Some(i) => {
            let e = &entries[i];
            state.current_item = e.display_path.clone();
            let size = if e.size == 0 {
                1
            } else {
                e.size
            };
            state.current_total_bytes = size;
            state.current_bytes = size;
            if !seen_index(seen, &key) {
                let ghost old_seen = crate::text::views(seen@);
                seen.push(key);
                proof {
                    crate::text::lemma_views_snoc(seen@);
                    assert(seen@.drop_last() =~= old(seen)@);
                }
                let c = state.completed.saturating_add(1);
                state.completed = if c < state.total {
                    c
                } else {
                    state.total
                };
                let b = state.completed_bytes.saturating_add(size);
                state.completed_bytes = if b < state.total_bytes {
                    b
                } else {
                    state.total_bytes
                };
            }
            let shown = if state.completed == 0 {
                1
            } else {
                state.completed
            };
            let shown = if shown < state.total {
                shown
            } else {
                state.total
            };
            let mut m = chars_of("正在压缩 ");
            push_decimal(&mut m, shown as u64);
            extend_str(&mut m, " / ");
            push_decimal(&mut m, state.total as u64);
            state.message = string_of(&m);
        },
    }
}

} // verus!
