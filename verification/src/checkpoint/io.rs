//! File operations and their completions, as the machines of this module see
//! them.

use vstd::prelude::*;
use crate::lsn::Lsn;
use crate::text;

verus! {

/// Attempts to reap one completion before giving up.
pub const DEFAULT_CHECKPOINT_IMAGE_REAP_LIMIT: u32 = 32;

/// The errno of a missing file.
pub const ENOENT_ERRNO: i32 = 2;

/// What a completion token is for.
#[derive(Copy, Clone, Debug, PartialEq, Eq, Structural)]
pub enum TokenClass {
    File,
    Other,
}

impl TokenClass {
    /// The variant's name.
    pub open spec fn label(self) -> Seq<char> {
        match self {
            TokenClass::File => "File"@,
            TokenClass::Other => "Other"@,
        }
    }

    /// The variant's name.
    pub fn name(self) -> (r: &'static str)
        ensures
            r@ == self.label(),
    {
        match self {
            TokenClass::File => "File",
            TokenClass::Other => "Other",
        }
    }
}

/// Ties a completion to the operation it answers.
#[derive(Copy, Clone, Debug, PartialEq, Eq, Structural)]
pub struct CompletionToken {
    pub class: TokenClass,
    pub slot: u32,
    pub generation: u32,
}

impl CompletionToken {
    /// The token's debug form.
    pub open spec fn label(self) -> Seq<char> {
        "CompletionToken { class: "@ + self.class.label() + ", slot: "@ + text::dec_chars(
            self.slot as nat,
        ) + ", generation: "@ + text::dec_chars(self.generation as nat) + " }"@
    }

    /// The token's debug form.
    pub fn describe(self) -> (r: String)
        ensures
            r@ == self.label(),
    {
        let mut out = text::owned("CompletionToken { class: ");
        out.append(self.class.name());
        out.append(", slot: ");
        text::append_dec(&mut out, self.slot as u64);
        out.append(", generation: ");
        text::append_dec(&mut out, self.generation as u64);
        out.append(" }");
        out
    }
}

/// A checkpoint's id and the log position it begins at.
#[derive(Copy, Clone, Debug, PartialEq, Eq, Structural)]
pub struct CheckpointRef {
    pub id: u32,
    pub begin: Lsn,
}

impl CheckpointRef {
    /// The reference's debug form.
    pub open spec fn label(self) -> Seq<char> {
        "CheckpointRef { id: "@ + text::dec_chars(self.id as nat) + ", begin: "@
            + text::dec_chars(self.begin.segment as nat) + ":"@ + text::dec_chars(
            self.begin.offset as nat,
        ) + " }"@
    }

    /// The reference's debug form.
    pub fn describe(self) -> (r: String)
        ensures
            r@ == self.label(),
    {
        let mut out = text::owned("CheckpointRef { id: ");
        text::append_dec(&mut out, self.id as u64);
        out.append(", begin: ");
        text::append_dec(&mut out, self.begin.segment as u64);
        out.append(":");
        text::append_dec(&mut out, self.begin.offset as u64);
        out.append(" }");
        out
    }
}

/// How a file is opened.
#[derive(Copy, Clone, Debug, PartialEq, Eq, Structural)]
pub enum FileOpenMode {
    ReadOnly,
    ReadWriteCreateTruncate,
}

/// What a sync covers.
#[derive(Copy, Clone, Debug, PartialEq, Eq, Structural)]
pub enum FileSyncMode {
    DataOnly,
    Full,
}

/// A file operation. Buffers are named by their pool id; a write carries the
/// bytes its buffer is to hold.
#[derive(Debug, PartialEq, Eq)]
pub enum IoOp {
    FileOpen { dir: i32, name: String, mode: FileOpenMode, token: CompletionToken },
    FileWriteAt { fd: i32, offset_bytes: u64, buf: u32, data: Vec<u8>, token: CompletionToken },
    FileReadAt { fd: i32, offset_bytes: u64, buf: u32, len: u32, token: CompletionToken },
    FileSync { fd: i32, mode: FileSyncMode, token: CompletionToken },
    FileClose { fd: i32, token: CompletionToken },
    FileUnlink { dir: i32, name: String, token: CompletionToken },
    FileRename {
        old_dir: i32,
        old_name: String,
        new_dir: i32,
        new_name: String,
        token: CompletionToken,
    },
}

/// The model of a file operation.
pub enum Op {
    Open { dir: i32, name: Seq<char>, mode: FileOpenMode, token: CompletionToken },
    Write { fd: i32, offset: u64, buf: u32, data: Seq<u8>, token: CompletionToken },
    Read { fd: i32, offset: u64, buf: u32, len: u32, token: CompletionToken },
    Sync { fd: i32, mode: FileSyncMode, token: CompletionToken },
    Close { fd: i32, token: CompletionToken },
    Unlink { dir: i32, name: Seq<char>, token: CompletionToken },
    Rename {
        old_dir: i32,
        old_name: Seq<char>,
        new_dir: i32,
        new_name: Seq<char>,
        token: CompletionToken,
    },
}

impl View for IoOp {
    type V = Op;

    open spec fn view(&self) -> Op {
        match *self {
            IoOp::FileOpen { dir, name, mode, token } => Op::Open { dir, name: name@, mode, token },
            IoOp::FileWriteAt { fd, offset_bytes, buf, data, token } => Op::Write {
                fd,
                offset: offset_bytes,
                buf,
                data: data@,
                token,
            },
            IoOp::FileReadAt { fd, offset_bytes, buf, len, token } => Op::Read {
                fd,
                offset: offset_bytes,
                buf,
                len,
                token,
            },
            IoOp::FileSync { fd, mode, token } => Op::Sync { fd, mode, token },
            IoOp::FileClose { fd, token } => Op::Close { fd, token },
            IoOp::FileUnlink { dir, name, token } => Op::Unlink { dir, name: name@, token },
            IoOp::FileRename { old_dir, old_name, new_dir, new_name, token } => Op::Rename {
                old_dir,
                old_name: old_name@,
                new_dir,
                new_name: new_name@,
                token,
            },
        }
    }
}

/// What an operation came to.
#[derive(Copy, Clone, Debug, PartialEq, Eq, Structural)]
pub enum CompletionResult {
    Accepted,
    Recv { buf: u32 },
    RecvDropped,
    Sent { buf: u32 },
    Closed,
    FileOpened { fd: i32 },
    FileRead { buf: u32, len: u32 },
    FileWritten { buf: u32 },
    FileDone,
    FileClosed,
    Error { errno: i32, buf: Option<u32> },
}

impl CompletionResult {
    /// The variant's name.
    pub open spec fn label(self) -> Seq<char> {
        match self {
            CompletionResult::Accepted => "Accepted"@,
            CompletionResult::Recv { .. } => "Recv"@,
            CompletionResult::RecvDropped => "RecvDropped"@,
            CompletionResult::Sent { .. } => "Sent"@,
            CompletionResult::Closed => "Closed"@,
            CompletionResult::FileOpened { .. } => "FileOpened"@,
            CompletionResult::FileRead { .. } => "FileRead"@,
            CompletionResult::FileWritten { .. } => "FileWritten"@,
            CompletionResult::FileDone => "FileDone"@,
            CompletionResult::FileClosed => "FileClosed"@,
            CompletionResult::Error { .. } => "Error"@,
        }
    }

    /// The buffer a result returns.
    pub open spec fn returned(self) -> Option<u32> {
        match self {
            CompletionResult::Recv { buf } => Some(buf),
            CompletionResult::Sent { buf } => Some(buf),
            CompletionResult::FileRead { buf, .. } => Some(buf),
            CompletionResult::FileWritten { buf } => Some(buf),
            CompletionResult::Error { buf, .. } => buf,
            _ => None,
        }
    }
}

/// The variant's name.
pub fn result_name(result: &CompletionResult) -> (r: &'static str)
    ensures
        r@ == result.label(),
{
    match result {
        CompletionResult::Accepted => "Accepted",
        CompletionResult::Recv { .. } => "Recv",
        CompletionResult::RecvDropped => "RecvDropped",
        CompletionResult::Sent { .. } => "Sent",
        CompletionResult::Closed => "Closed",
        CompletionResult::FileOpened { .. } => "FileOpened",
        CompletionResult::FileRead { .. } => "FileRead",
        CompletionResult::FileWritten { .. } => "FileWritten",
        CompletionResult::FileDone => "FileDone",
        CompletionResult::FileClosed => "FileClosed",
        CompletionResult::Error { .. } => "Error",
    }
}

/// The buffer to release for a result nobody else takes.
pub fn release_result_buffer(result: &CompletionResult) -> (r: Option<u32>)
    ensures
        r == result.returned(),
{
    match result {
        CompletionResult::Recv { buf } => Some(*buf),
        CompletionResult::Sent { buf } => Some(*buf),
        CompletionResult::FileRead { buf, .. } => Some(*buf),
        CompletionResult::FileWritten { buf } => Some(*buf),
        CompletionResult::Error { buf, .. } => *buf,
        _ => None,
    }
}

/// A completed operation.
#[derive(Copy, Clone, Debug, PartialEq, Eq, Structural)]
pub struct Completion {
    pub token: CompletionToken,
    pub result: CompletionResult,
}

/// What one attempt to reap produced.
#[derive(Clone, Debug)]
pub enum Reaped {
    /// The backend failed with this error.
    Backend(String),
    /// This many completions other than one.
    Count(usize),
    One(Completion),
}

/// Why no completion could be taken.
#[derive(Clone, Debug)]
pub enum ReapError {
    Backend(String),
    UnexpectedCompletionCount { expected: usize, got: usize },
    UnexpectedToken { expected: CompletionToken, got: CompletionToken },
    ReapLimitExceeded { token: CompletionToken, attempts: u32 },
}

/// What follows an attempt to reap.
#[derive(Clone, Debug)]
pub enum ReapStep {
    /// Reap again.
    Again,
    /// The operation's result.
    Done(CompletionResult),
    /// Give up; a completion of another operation releases this buffer.
    Fail { error: ReapError, release: Option<u32> },
}

/// The step owed for an attempt. Nothing produced is tried again, up to the
/// limit.
pub open spec fn reap_owed(
    reaped: Reaped,
    token: CompletionToken,
    attempts: int,
    max_reaps: u32,
) -> ReapStep {
    match reaped {
        Reaped::Backend(source) => ReapStep::Fail {
            error: ReapError::Backend(source),
            release: None,
        },
        Reaped::Count(n) => if n != 0 {
            ReapStep::Fail {
                error: ReapError::UnexpectedCompletionCount { expected: 1, got: n },
                release: None,
            }
        } else if attempts < max_reaps {
            ReapStep::Again
        } else {
            ReapStep::Fail {
                error: ReapError::ReapLimitExceeded { token, attempts: max_reaps },
                release: None,
            }
        },
        Reaped::One(completion) => if completion.token != token {
            ReapStep::Fail {
                error: ReapError::UnexpectedToken { expected: token, got: completion.token },
                release: completion.result.returned(),
            }
        } else {
            ReapStep::Done(completion.result)
        },
    }
}

/// Judges the attempt numbered `attempts`, counting from 1.
pub fn judge_reap(reaped: Reaped, token: CompletionToken, attempts: u32, max_reaps: u32) -> (r:
    ReapStep)
    ensures
        r == reap_owed(reaped, token, attempts as int, max_reaps),
{
    match reaped {
        Reaped::Backend(source) => ReapStep::Fail {
            error: ReapError::Backend(source),
            release: None,
        },
        Reaped::Count(n) => {
            if n != 0 {
                ReapStep::Fail {
                    error: ReapError::UnexpectedCompletionCount { expected: 1, got: n },
                    release: None,
                }
            } else if attempts < max_reaps {
                ReapStep::Again
            } else {
                ReapStep::Fail {
                    error: ReapError::ReapLimitExceeded { token, attempts: max_reaps },
                    release: None,
                }
            }
        },
        Reaped::One(completion) => {
            if completion.token != token {
                ReapStep::Fail {
                    error: ReapError::UnexpectedToken { expected: token, got: completion.token },
                    release: release_result_buffer(&completion.result),
                }
            } else {
                ReapStep::Done(completion.result)
            }
        },
    }
}

/// The temporary name of a file being published.
pub fn temp_name(final_name: &str) -> (r: String)
    ensures
        r@ == final_name@ + ".tmp"@,
{
    let mut out = text::owned(final_name);
    out.append(".tmp");
    out
}

/// How long the next chunk is: what is left, at most one buffer.
pub open spec fn chunk_len(buf_size: usize, left: int) -> int {
    if buf_size <= left {
        buf_size as int
    } else {
        left
    }
}

/// A completion counts only when it is the one waited for: a result is handed
/// on exactly when one completion came, with the expected token.
pub proof fn law_only_the_awaited_completion_counts(
    reaped: Reaped,
    token: CompletionToken,
    attempts: int,
    max_reaps: u32,
)
    ensures
        reap_owed(reaped, token, attempts, max_reaps) matches ReapStep::Done(result) ==> (
        reaped matches Reaped::One(c) && c.token == token && c.result == result),
        reaped matches Reaped::One(c) ==> (c.token == token ==> reap_owed(
            reaped,
            token,
            attempts,
            max_reaps,
        ) == ReapStep::Done(c.result)),
        reaped matches Reaped::One(c) ==> (c.token != token ==> (reap_owed(
            reaped,
            token,
            attempts,
            max_reaps,
        ) matches ReapStep::Fail { error: ReapError::UnexpectedToken { expected, got }, release }
            && expected == token && got == c.token && release == c.result.returned())),
        reap_owed(reaped, token, attempts, max_reaps) is Again ==> (reaped matches Reaped::Count(n)
            && n == 0 && attempts < max_reaps),
        (reaped matches Reaped::Count(n) && n == 0 && attempts < max_reaps) ==> reap_owed(
            reaped,
            token,
            attempts,
            max_reaps,
        ) is Again,
        (reaped matches Reaped::Count(n) && n == 0 && attempts >= max_reaps) ==> (reap_owed(
            reaped,
            token,
            attempts,
            max_reaps,
        ) matches ReapStep::Fail { error: ReapError::ReapLimitExceeded { token: t, attempts: a }, .. }
            && t == token && a == max_reaps),
{
}

/// A completion gives back the buffer it carries, and only such a one does.
pub proof fn law_buffers_come_back(buf: u32, len: u32, errno: i32, fd: i32)
    ensures
        (CompletionResult::FileRead { buf, len }).returned() == Some(buf),
        (CompletionResult::FileWritten { buf }).returned() == Some(buf),
        (CompletionResult::Recv { buf }).returned() == Some(buf),
        (CompletionResult::Sent { buf }).returned() == Some(buf),
        (CompletionResult::Error { errno, buf: Some(buf) }).returned() == Some(buf),
        (CompletionResult::Error { errno, buf: None }).returned() is None,
        (CompletionResult::FileOpened { fd }).returned() is None,
        CompletionResult::FileDone.returned() is None,
        CompletionResult::FileClosed.returned() is None,
{
}

/// A chunk is as much as the buffer holds and as is left, and no less.
pub proof fn law_chunk_fills_the_buffer(buf_size: usize, left: int)
    ensures
        chunk_len(buf_size, left) <= buf_size,
        chunk_len(buf_size, left) <= left,
        chunk_len(buf_size, left) == buf_size || chunk_len(buf_size, left) == left,
{
}

/// The model of an operation has what the operation has.
pub proof fn law_operation_is_its_model(
    dir: i32,
    fd: i32,
    name: String,
    other: String,
    data: Vec<u8>,
    offset: u64,
    buf: u32,
    len: u32,
    mode: FileOpenMode,
    sync: FileSyncMode,
    token: CompletionToken,
)
    ensures
        (IoOp::FileOpen { dir, name, mode, token })@ == (Op::Open { dir, name: name@, mode, token }),
        (IoOp::FileWriteAt { fd, offset_bytes: offset, buf, data, token })@ == (Op::Write {
            fd,
            offset,
            buf,
            data: data@,
            token,
        }),
        (IoOp::FileReadAt { fd, offset_bytes: offset, buf, len, token })@ == (Op::Read {
            fd,
            offset,
            buf,
            len,
            token,
        }),
        (IoOp::FileSync { fd, mode: sync, token })@ == (Op::Sync { fd, mode: sync, token }),
        (IoOp::FileClose { fd, token })@ == (Op::Close { fd, token }),
        (IoOp::FileUnlink { dir, name, token })@ == (Op::Unlink { dir, name: name@, token }),
        (IoOp::FileRename { old_dir: dir, old_name: name, new_dir: dir, new_name: other, token })@
            == (Op::Rename {
            old_dir: dir,
            old_name: name@,
            new_dir: dir,
            new_name: other@,
            token,
        }),
{
}

/// A completion is waited for in at most 32 reaps unless told otherwise, and a
/// missing file is known by its errno.
pub proof fn law_reaps_have_their_limit()
    ensures
        DEFAULT_CHECKPOINT_IMAGE_REAP_LIMIT == 32,
        ENOENT_ERRNO == 2,
{
}

} // verus!
