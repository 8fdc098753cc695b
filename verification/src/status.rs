//! The status of a task and its textual form.
//!
//! A status is written as its lower-case name. Reading is exact
//! ([`TaskStatus::try_from`]) or ignores case ([`TaskStatus::parse`]).

use vstd::prelude::*;
use vstd::string::StringExecFns;

verus! {

/// The lifecycle state of a task.
///
/// `Pending`, `Queued`, `Running`, `Completed`, `Failed` and `Cancelled` form the
/// mandatory set; the others are the extended set.
#[derive(Clone, Copy, Debug, PartialEq, Eq, Structural)]
pub enum TaskStatus {
    /// Created, not yet assigned.
    Pending,
    /// A worker acknowledged receipt.
    Accepted,
    /// Assigned to a worker and handed to the broker.
    Queued,
    /// A worker has started processing.
    Running,
    /// Temporarily suspended.
    Paused,
    /// Failed, and being attempted again.
    Retrying,
    /// Finished successfully.
    Completed,
    /// Finished with an error.
    Failed,
    /// Cancelled before completion.
    Cancelled,
    /// Exceeded its time limit.
    Timeout,
    /// Refused by the worker.
    Rejected,
    /// Waiting on something else.
    Blocked,
}

/// The status that a text names exactly, if any.
pub open spec fn status_named(text: Seq<char>) -> Option<TaskStatus> {
    if text == "pending"@ {
        Some(TaskStatus::Pending)
    } else if text == "accepted"@ {
        Some(TaskStatus::Accepted)
    } else if text == "queued"@ {
        Some(TaskStatus::Queued)
    } else if text == "running"@ {
        Some(TaskStatus::Running)
    } else if text == "paused"@ {
        Some(TaskStatus::Paused)
    } else if text == "retrying"@ {
        Some(TaskStatus::Retrying)
    } else if text == "completed"@ {
        Some(TaskStatus::Completed)
    } else if text == "failed"@ {
        Some(TaskStatus::Failed)
    } else if text == "cancelled"@ {
        Some(TaskStatus::Cancelled)
    } else if text == "timeout"@ {
        Some(TaskStatus::Timeout)
    } else if text == "rejected"@ {
        Some(TaskStatus::Rejected)
    } else if text == "blocked"@ {
        Some(TaskStatus::Blocked)
    } else {
        None
    }
}

/// The message that goes with a text that names no status.
pub open spec fn invalid_status_message(text: Seq<char>) -> Seq<char> {
    "Invalid task status: "@ + text
}

/// The lower-case form of a text, as `str::to_lowercase` computes it.
pub uninterp spec fn lowercased(text: Seq<char>) -> Seq<char>;

/// Calls `str::to_lowercase`: the result is the lower-case form of `s`, which
/// depends on the characters of `s` alone.
#[verifier::external_body]
fn lowercase(s: &str) -> (r: String)
    ensures
        r@ == lowercased(s@),
{
    s.to_lowercase()
}

fn is_text(s: &String, lit: &str) -> (r: bool)
    ensures
        r == (s@ == lit@),
{
    let other = lit.to_owned();
    *s == other
}

impl TaskStatus {
    /// The lower-case name of the status.
    pub open spec fn name(self) -> Seq<char> {
        match self {
            TaskStatus::Pending => "pending"@,
            TaskStatus::Accepted => "accepted"@,
            TaskStatus::Queued => "queued"@,
            TaskStatus::Running => "running"@,
            TaskStatus::Paused => "paused"@,
            TaskStatus::Retrying => "retrying"@,
            TaskStatus::Completed => "completed"@,
            TaskStatus::Failed => "failed"@,
            TaskStatus::Cancelled => "cancelled"@,
            TaskStatus::Timeout => "timeout"@,
            TaskStatus::Rejected => "rejected"@,
            TaskStatus::Blocked => "blocked"@,
        }
    }

    /// Whether the status ends the life of a task.
    pub open spec fn terminal(self) -> bool {
        self is Completed || self is Failed || self is Cancelled
    }

    /// The lower-case name of the status.
    pub fn as_str(self) -> (r: &'static str)
        ensures
            r@ == self.name(),
    {
        match self {
            TaskStatus::Pending => "pending",
            TaskStatus::Accepted => "accepted",
            TaskStatus::Queued => "queued",
            TaskStatus::Running => "running",
            TaskStatus::Paused => "paused",
            TaskStatus::Retrying => "retrying",
            TaskStatus::Completed => "completed",
            TaskStatus::Failed => "failed",
            TaskStatus::Cancelled => "cancelled",
            TaskStatus::Timeout => "timeout",
            TaskStatus::Rejected => "rejected",
            TaskStatus::Blocked => "blocked",
        }
    }

    /// The lower-case name of the status, owned.
    pub fn to_string(self) -> (r: String)
        ensures
            r@ == self.name(),
    {
        self.as_str().to_owned()
    }

    /// Whether the status ends the life of a task.
    pub fn is_terminal(self) -> (r: bool)
        ensures
            r == self.terminal(),
    {
        match self {
            TaskStatus::Completed | TaskStatus::Failed | TaskStatus::Cancelled => true,
            _ => false,
        }
    }

    /// Reads a status from its exact lower-case name.
    ///
    /// Any other text is rejected with a message that quotes it.
    pub fn try_from(s: &str) -> (r: Result<TaskStatus, String>)
        ensures
            match r {
                Ok(status) => status_named(s@) == Some(status),
                Err(message) => status_named(s@) is None && message@ == invalid_status_message(
                    s@,
                ),
            },
    {
        let owned = s.to_owned();
        if is_text(&owned, "pending") {
            Ok(TaskStatus::Pending)
        } else if is_text(&owned, "accepted") {
            Ok(TaskStatus::Accepted)
        } else if is_text(&owned, "queued") {
            Ok(TaskStatus::Queued)
        } else if is_text(&owned, "running") {
            Ok(TaskStatus::Running)
        } else if is_text(&owned, "paused") {
            Ok(TaskStatus::Paused)
        } else if is_text(&owned, "retrying") {
            Ok(TaskStatus::Retrying)
        } else if is_text(&owned, "completed") {
            Ok(TaskStatus::Completed)
        } else if is_text(&owned, "failed") {
            Ok(TaskStatus::Failed)
        } else if is_text(&owned, "cancelled") {
            Ok(TaskStatus::Cancelled)
        } else if is_text(&owned, "timeout") {
            Ok(TaskStatus::Timeout)
        } else if is_text(&owned, "rejected") {
            Ok(TaskStatus::Rejected)
        } else if is_text(&owned, "blocked") {
            Ok(TaskStatus::Blocked)
        } else {
            Err("Invalid task status: ".to_owned().concat(s))
        }
    }

    /// Reads a status from a stored text, ignoring case.
    ///
    /// The text must name a status once lowered: [`TaskStatus::parse`] is the
    /// form that checks.
    pub fn from(s: String) -> (r: TaskStatus)
        requires
            status_named(lowercased(s@)) is Some,
        ensures
            status_named(lowercased(s@)) == Some(r),
    {
        let lower = lowercase(s.as_str());
        match TaskStatus::try_from(lower.as_str()) {
            Ok(status) => status,
            Err(_) => {
                assert(false);
                TaskStatus::Pending
            },
        }
    }

    /// Reads a status from a text, ignoring case, and rejects a text that
    /// names none with a message that quotes its lowered form.
    pub fn parse(s: &str) -> (r: Result<TaskStatus, String>)
        ensures
            match r {
                Ok(status) => status_named(lowercased(s@)) == Some(status),
                Err(message) => status_named(lowercased(s@)) is None
                    && message@ == invalid_status_message(lowercased(s@)),
            },
    {
        let lower = lowercase(s);
        match TaskStatus::try_from(lower.as_str()) {
            Ok(_) => Ok(TaskStatus::from(s.to_owned())),
            Err(message) => Err(message),
        }
    }
}

/// Every status is read back from its own name.
pub proof fn lemma_name_round_trip(status: TaskStatus)
    ensures
        status_named(status.name()) == Some(status),
{
    reveal_strlit("pending");
    reveal_strlit("accepted");
    reveal_strlit("queued");
    reveal_strlit("running");
    reveal_strlit("paused");
    reveal_strlit("retrying");
    reveal_strlit("completed");
    reveal_strlit("failed");
    reveal_strlit("cancelled");
    reveal_strlit("timeout");
    reveal_strlit("rejected");
    reveal_strlit("blocked");
    assert("pending"@.len() == 7 && "pending"@[0] == 'p' && "pending"@[1] == 'e');
    assert("accepted"@.len() == 8 && "accepted"@[0] == 'a');
    assert("queued"@.len() == 6 && "queued"@[0] == 'q');
    assert("running"@.len() == 7 && "running"@[0] == 'r' && "running"@[1] == 'u');
    assert("paused"@.len() == 6 && "paused"@[0] == 'p');
    assert("retrying"@.len() == 8 && "retrying"@[0] == 'r' && "retrying"@[2] == 't');
    assert("completed"@.len() == 9 && "completed"@[0] == 'c' && "completed"@[1] == 'o');
    assert("failed"@.len() == 6 && "failed"@[0] == 'f');
    assert("cancelled"@.len() == 9 && "cancelled"@[0] == 'c' && "cancelled"@[1] == 'a');
    assert("timeout"@.len() == 7 && "timeout"@[0] == 't');
    assert("rejected"@.len() == 8 && "rejected"@[0] == 'r' && "rejected"@[2] == 'j');
    assert("blocked"@.len() == 7 && "blocked"@[0] == 'b');
}

/// A text names at most one status, and only by that status's name.
pub proof fn lemma_named_is_name(text: Seq<char>, status: TaskStatus)
    ensures
        status_named(text) == Some(status) <==> text == status.name(),
{
    lemma_name_round_trip(status);
}

} // verus!
