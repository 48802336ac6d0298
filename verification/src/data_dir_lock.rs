//! The data directory's owner lock: taken before anything else touches the
//! directory and held for the process's life. Contention is a refusal, never
//! a wait.

use vstd::prelude::*;
use crate::text;

verus! {

/// The lock file's name under the data directory.
pub const LOCK_FILE: &'static str = "LOCK";

/// Why the directory could not be owned.
#[derive(Debug)]
pub enum DataDirLockError {
    /// Another process holds the lock.
    Held { path: String },
    /// The lock file could not be created, opened, or locked.
    Io { path: String, err: String },
}

impl DataDirLockError {
    /// The text of the error.
    pub open spec fn message_text(&self) -> Seq<char> {
        match *self {
            DataDirLockError::Held { path } => path@ + ": held by another process — one process owns a data directory (ADR-0094 D7); stop it, or point this boot at another directory (fail-stop)"@,
            DataDirLockError::Io { path, err } => path@ + ": "@ + err@,
        }
    }

    /// The text of the error.
    pub fn message(&self) -> (r: String)
        ensures
            r@ == self.message_text(),
    {
        match self {
            DataDirLockError::Held { path } => {
                let mut out = text::owned(path.as_str());
                out.append(": held by another process — one process owns a data directory (ADR-0094 D7); stop it, or point this boot at another directory (fail-stop)");
                out
            },
            DataDirLockError::Io { path, err } => {
                let mut out = text::owned(path.as_str());
                out.append(": ");
                out.append(err.as_str());
                out
            },
        }
    }
}

/// A held lock. The directory is released with the file behind it.
#[derive(Debug)]
pub struct DataDirLock {
    path: String,
}

impl View for DataDirLock {
    type V = Seq<char>;

    closed spec fn view(&self) -> Seq<char> {
        self.path@
    }
}

impl DataDirLock {
    /// The lock file's path.
    pub fn path(&self) -> (r: &str)
        ensures
            r@ == self@,
    {
        self.path.as_str()
    }
}

/// The steps of taking the lock, in order.
#[derive(Copy, Clone, Debug, PartialEq, Eq, Structural)]
pub enum LockStage {
    /// Create the directory where it is absent.
    CreateDir,
    /// Open the lock file, creating it where it is absent.
    OpenFile,
    /// Try to lock the file exclusively, without waiting.
    TryLock,
}

/// How a step went.
#[derive(Debug)]
pub enum LockEvent {
    Done,
    /// Another owner holds the lock.
    Contended,
    Failed(String),
}

/// A lock being taken.
#[derive(Debug)]
pub struct Acquire {
    pub path: String,
    pub stage: LockStage,
}

/// What comes after a step.
#[derive(Debug)]
pub enum LockStep {
    Perform(Acquire),
    Owned(DataDirLock),
    Refused(DataDirLockError),
}

impl Acquire {
    /// The first step of locking `path`.
    pub fn begin(path: String) -> (r: Acquire)
        ensures
            r == (Acquire { path, stage: LockStage::CreateDir }),
    {
        Acquire { path, stage: LockStage::CreateDir }
    }

    /// What follows from the outcome of the current step.
    pub fn advance(self, event: LockEvent) -> (r: LockStep)
        ensures
            match (self.stage, event) {
                (_, LockEvent::Failed(err)) => r == LockStep::Refused(
                    DataDirLockError::Io { path: self.path, err },
                ),
                (_, LockEvent::Contended) => r == LockStep::Refused(
                    DataDirLockError::Held { path: self.path },
                ),
                (LockStage::CreateDir, LockEvent::Done) => r == LockStep::Perform(
                    Acquire { stage: LockStage::OpenFile, ..self },
                ),
                (LockStage::OpenFile, LockEvent::Done) => r == LockStep::Perform(
                    Acquire { stage: LockStage::TryLock, ..self },
                ),
                (LockStage::TryLock, LockEvent::Done) => r matches LockStep::Owned(held) && held@
                    == self.path@,
            },
    {
        match event {
            LockEvent::Failed(err) => LockStep::Refused(
                DataDirLockError::Io { path: self.path, err },
            ),
            LockEvent::Contended => LockStep::Refused(DataDirLockError::Held { path: self.path }),
            LockEvent::Done => match self.stage {
                LockStage::CreateDir => LockStep::Perform(
                    Acquire { path: self.path, stage: LockStage::OpenFile },
                ),
                LockStage::OpenFile => LockStep::Perform(
                    Acquire { path: self.path, stage: LockStage::TryLock },
                ),
                LockStage::TryLock => LockStep::Owned(DataDirLock { path: self.path }),
            },
        }
    }
}

} // verus!
