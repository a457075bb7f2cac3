//! Locks that are files.

use crate::error::{server_error, ApiError, ApiErrorKind};
use crate::path::{join, join_path};
use crate::text::join2;
use vstd::prelude::*;

verus! {

/// What to do after an attempt to take a lock.
#[derive(Clone, Copy, Debug, PartialEq, Eq, Structural)]
pub enum LockStep {
    /// The lock is held.
    Acquired,
    /// The time is up.
    TimedOut,
    /// To try again after some milliseconds.
    Retry(u64),
}

/// Why a lock could not be taken.
#[derive(Clone, Debug)]
pub enum LockFailure {
    /// The directory for locks could not be made.
    CreateDir(String),
    /// The file could not be opened.
    Open(String),
    /// The time was up.
    TimedOut,
}

/// The directory for locks below a project's root.
pub open spec fn lock_dir_of(root: Seq<char>) -> Seq<char> {
    join(join(root, "data"@), ".locks"@)
}

/// The file of the lock `name`.
pub open spec fn lock_file(root: Seq<char>, name: Seq<char>) -> Seq<char> {
    join(lock_dir_of(root), name + ".lock"@)
}

/// What to do after an attempt to take a lock, `elapsed` whole seconds after the
/// first one.
pub open spec fn lock_next(acquired: bool, elapsed: int, timeout: int) -> LockStep {
    if acquired {
        LockStep::Acquired
    } else if elapsed >= timeout {
        LockStep::TimedOut
    } else {
        LockStep::Retry(50)
    }
}

/// The text for a lock that could not be taken.
pub open spec fn lock_failure_text(failure: LockFailure, name: Seq<char>) -> Seq<char> {
    match failure {
        LockFailure::CreateDir(cause) => "create lock dir failed: "@ + cause@,
        LockFailure::Open(cause) => "open lock file failed: "@ + cause@,
        LockFailure::TimedOut => "lock timeout: "@ + name,
    }
}

/// The directory for locks below a project's root.
pub fn lock_dir(root: &str) -> (r: String)
    ensures
        r@ == lock_dir_of(root@),
{
    join_path(join_path(root, "data").as_str(), ".locks")
}

/// The file of the lock `name`.
pub fn lock_path(root: &str, name: &str) -> (r: String)
    ensures
        r@ == lock_file(root@, name@),
{
    join_path(lock_dir(root).as_str(), join2(name, ".lock").as_str())
}

/// What to do after an attempt to take a lock, `elapsed` whole seconds after the
/// first one.
pub fn lock_step(acquired: bool, elapsed: u64, timeout: u64) -> (r: LockStep)
    ensures
        r == lock_next(acquired, elapsed as int, timeout as int),
{
    if acquired {
        LockStep::Acquired
    } else if elapsed >= timeout {
        LockStep::TimedOut
    } else {
        LockStep::Retry(50)
    }
}

/// The text for a lock that could not be taken.
pub fn lock_failure_message(failure: &LockFailure, name: &str) -> (r: String)
    ensures
        r@ == lock_failure_text(*failure, name@),
{
    match failure {
        LockFailure::CreateDir(cause) => join2("create lock dir failed: ", cause.as_str()),
        LockFailure::Open(cause) => join2("open lock file failed: ", cause.as_str()),
        LockFailure::TimedOut => join2("lock timeout: ", name),
    }
}

/// The error for a lock that could not be taken.
pub fn lock_error(failure: &LockFailure, name: &str) -> (r: ApiError)
    ensures
        r@ == server_error(lock_failure_text(*failure, name@)),
{
    ApiError::server(lock_failure_message(failure, name))
}

/// A lock that is free is taken whatever the time, and one that is not is given
/// up exactly when the time is up.
pub proof fn law_lock_outcome(acquired: bool, elapsed: int, timeout: int)
    ensures
        lock_next(acquired, elapsed, timeout) == LockStep::Acquired <==> acquired,
        lock_next(acquired, elapsed, timeout) == LockStep::TimedOut <==> !acquired && elapsed
            >= timeout,
{
}

/// A lock is a file of its own below the root of a project.
pub proof fn law_lock_path(root: &str, name: &str, dir: String, r: String)
    requires
        call_ensures(lock_dir, (root,), dir),
        call_ensures(lock_path, (root, name), r),
    ensures
        dir@ == join(join(root@, "data"@), ".locks"@),
        r@ == join(dir@, name@ + ".lock"@),
{
}

/// A lock that is taken is acquired at once. Otherwise it is tried again after 50
/// milliseconds, as long as there is time.
pub proof fn law_lock_step(acquired: bool, elapsed: u64, timeout: u64, r: LockStep)
    requires
        call_ensures(lock_step, (acquired, elapsed, timeout), r),
    ensures
        acquired ==> r == LockStep::Acquired,
        !acquired && elapsed >= timeout ==> r == LockStep::TimedOut,
        !acquired && elapsed < timeout ==> r == LockStep::Retry(50),
{
}

/// A lock that could not be taken is a failure of the gateway, with its cause.
pub proof fn law_lock_error(failure: &LockFailure, name: &str, text: String, r: ApiError)
    requires
        call_ensures(lock_failure_message, (failure, name), text),
        call_ensures(lock_error, (failure, name), r),
    ensures
        r.kind == ApiErrorKind::Server,
        r.message@ == text@,
        match *failure {
            LockFailure::CreateDir(cause) => text@ == "create lock dir failed: "@ + cause@,
            LockFailure::Open(cause) => text@ == "open lock file failed: "@ + cause@,
            LockFailure::TimedOut => text@ == "lock timeout: "@ + name@,
        },
{
}

} // verus!
