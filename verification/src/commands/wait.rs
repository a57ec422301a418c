use vstd::prelude::*;
use crate::text::{concat, contains_str, contains_text, str_eq, u64_to_string, nat_text};

verus! {

/// Which condition a `wait` command waits for.
#[derive(Debug, Clone, Copy, PartialEq, Eq, Structural)]
pub struct WaitFlags {
    pub created: bool,
    pub updated: bool,
    pub deleted: bool,
    pub exists: bool,
}

/// What one poll of the resource gave.
#[derive(Debug)]
pub enum Poll {
    /// The resource was read; its provisioning state, if it has one.
    Found { state: Option<String> },
    /// Reading it failed, with this error text.
    Failed { message: String },
}

/// What a wait does after one poll.
#[derive(Debug, PartialEq, Eq)]
pub enum WaitStep {
    /// The condition holds: stop waiting.
    Done,
    /// Poll again after the interval.
    Retry,
    /// Give up with the poll's error.
    Fail,
}

/// One poll of `bastion wait`: a read resource is done when its
/// provisioning state is `Succeeded` and the wait is for it to exist, be
/// created or be updated, and keeps the wait going while a deletion is
/// awaited; a failed read ends a deletion wait, is
/// retried when it says the resource is not found, and fails otherwise.
pub open spec fn bastion_step_spec(f: WaitFlags, state: Option<Seq<char>>, error: Option<Seq<char>>) -> WaitStep {
    match error {
        None => {
            let st = match state {
                Some(s) => s,
                None => "Unknown"@,
            };
            if f.deleted {
                WaitStep::Retry
            } else if f.exists && st == "Succeeded"@ {
                WaitStep::Done
            } else if f.created && st == "Succeeded"@ {
                WaitStep::Done
            } else if f.updated && st == "Succeeded"@ {
                WaitStep::Done
            } else {
                WaitStep::Retry
            }
        },
        Some(e) => if f.deleted {
            WaitStep::Done
        } else if contains_text(e, "404"@) || contains_text(e, "ResourceNotFound"@) {
            WaitStep::Retry
        } else {
            WaitStep::Fail
        },
    }
}

/// The value of a poll: the state read, or the error text.
pub open spec fn poll_parts(p: Poll) -> (Option<Seq<char>>, Option<Seq<char>>) {
    match p {
        Poll::Found { state } => (
            match state {
                Some(s) => Some(s@),
                None => None,
            },
            None,
        ),
        Poll::Failed { message } => (None, Some(message@)),
    }
}

pub fn bastion_wait_step(f: WaitFlags, poll: &Poll) -> (r: WaitStep)
    ensures
        r == bastion_step_spec(f, poll_parts(*poll).0, poll_parts(*poll).1),
{
    match poll {
        Poll::Found { state } => {
            let st: &str = match state {
                Some(s) => s.as_str(),
                None => "Unknown",
            };
            if f.deleted {
                WaitStep::Retry
            } else if f.exists && str_eq(st, "Succeeded") {
                WaitStep::Done
            } else if f.created && str_eq(st, "Succeeded") {
                WaitStep::Done
            } else if f.updated && str_eq(st, "Succeeded") {
                WaitStep::Done
            } else {
                WaitStep::Retry
            }
        },
        Poll::Failed { message } => {
            if f.deleted {
                WaitStep::Done
            } else if contains_str(message.as_str(), "404") || contains_str(message.as_str(), "ResourceNotFound") {
                WaitStep::Retry
            } else {
                WaitStep::Fail
            }
        },
    }
}

/// One poll of `vm wait`: a read VM is done when waiting for it to exist,
/// or when created or updated and its provisioning state is `Succeeded`;
/// a failed read is done only when waiting for a deletion.
pub open spec fn vm_step_spec(f: WaitFlags, state: Option<Seq<char>>, error: Option<Seq<char>>) -> WaitStep {
    match error {
        None => {
            let st = match state {
                Some(s) => s,
                None => ""@,
            };
            if f.exists {
                WaitStep::Done
            } else if f.created && st == "Succeeded"@ {
                WaitStep::Done
            } else if f.updated && st == "Succeeded"@ {
                WaitStep::Done
            } else {
                WaitStep::Retry
            }
        },
        Some(_) => if f.deleted {
            WaitStep::Done
        } else {
            WaitStep::Retry
        },
    }
}

pub fn vm_wait_step(f: WaitFlags, poll: &Poll) -> (r: WaitStep)
    ensures
        r == vm_step_spec(f, poll_parts(*poll).0, poll_parts(*poll).1),
{
    match poll {
        Poll::Found { state } => {
            let st: &str = match state {
                Some(s) => s.as_str(),
                None => "",
            };
            if f.exists {
                WaitStep::Done
            } else if f.created && str_eq(st, "Succeeded") {
                WaitStep::Done
            } else if f.updated && str_eq(st, "Succeeded") {
                WaitStep::Done
            } else {
                WaitStep::Retry
            }
        },
        Poll::Failed { .. } => {
            if f.deleted {
                WaitStep::Done
            } else {
                WaitStep::Retry
            }
        },
    }
}

/// `bastion wait` gives up once the time since it started reaches the
/// timeout (whole seconds elapsed at least the timeout).
pub fn bastion_wait_expired(elapsed_secs: u64, timeout: u64) -> (r: bool)
    ensures
        r == (elapsed_secs >= timeout),
{
    elapsed_secs >= timeout
}

/// `vm wait` gives up once more whole seconds than the timeout passed.
pub fn vm_wait_expired(elapsed_secs: u64, timeout: u64) -> (r: bool)
    ensures
        r == (elapsed_secs > timeout),
{
    elapsed_secs > timeout
}

/// The error of a `bastion wait` that ran out of time.
pub fn bastion_timeout_message(name: &str, timeout: u64) -> (r: String)
    ensures
        r@ == "Timed out waiting for bastion host '"@ + name@ + "' after "@ + nat_text(timeout as nat) + "s"@,
{
    let a = concat("Timed out waiting for bastion host '", name);
    let b = concat(a.as_str(), "' after ");
    let c = concat(b.as_str(), u64_to_string(timeout).as_str());
    concat(c.as_str(), "s")
}

/// The error of a `vm wait` that ran out of time.
pub fn vm_timeout_message(timeout: u64) -> (r: String)
    ensures
        r@ == "Wait timed out after "@ + nat_text(timeout as nat) + "s"@,
{
    let c = concat("Wait timed out after ", u64_to_string(timeout).as_str());
    concat(c.as_str(), "s")
}

} // verus!
