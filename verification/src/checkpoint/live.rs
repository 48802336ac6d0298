//! The live publisher: writes a checkpoint image and then the recovery
//! manifest that names it, each through a temporary file that is synced,
//! closed and renamed before the directory is synced. One operation is in
//! flight at a time.

use vstd::prelude::*;
use crate::checkpoint::io;
use crate::checkpoint::io::{
    release_result_buffer, result_name, temp_name, Completion, CompletionResult, CompletionToken,
    FileOpenMode, FileSyncMode, IoOp, TokenClass,
};
use crate::text;

verus! {

/// Where the publisher writes and under which token.
#[derive(Copy, Clone, Debug, PartialEq, Eq, Structural)]
pub struct LiveCheckpointPublishConfig {
    pub dir: i32,
    pub token_slot: u32,
    pub token_generation: u32,
}

impl LiveCheckpointPublishConfig {
    /// Publishes into `dir` under slot `token_slot`, generation 0.
    pub fn new(dir: i32, token_slot: u32) -> (r: LiveCheckpointPublishConfig)
        ensures
            r == (LiveCheckpointPublishConfig { dir, token_slot, token_generation: 0 }),
    {
        LiveCheckpointPublishConfig { dir, token_slot, token_generation: 0 }
    }

    /// The same under another token generation.
    pub fn with_generation(self, token_generation: u32) -> (r: LiveCheckpointPublishConfig)
        ensures
            r == (LiveCheckpointPublishConfig { token_generation, ..self }),
    {
        LiveCheckpointPublishConfig { dir: self.dir, token_slot: self.token_slot, token_generation }
    }
}

/// What a step of the publisher reports.
#[derive(Copy, Clone, Debug, PartialEq, Eq, Structural)]
pub enum LiveCheckpointPublishEvent {
    Idle,
    Pending,
    Completed,
}

/// Which part of a publication a step belongs to.
#[derive(Copy, Clone, Debug, PartialEq, Eq, Structural)]
pub enum LiveCheckpointPublishPhase {
    OpenTemp,
    WriteTemp,
    SyncTemp,
    CloseTemp,
    Rename,
    SyncDir,
}

impl LiveCheckpointPublishPhase {
    /// The phase's name.
    pub open spec fn label(self) -> Seq<char> {
        match self {
            LiveCheckpointPublishPhase::OpenTemp => "open-temp"@,
            LiveCheckpointPublishPhase::WriteTemp => "write-temp"@,
            LiveCheckpointPublishPhase::SyncTemp => "sync-temp"@,
            LiveCheckpointPublishPhase::CloseTemp => "close-temp"@,
            LiveCheckpointPublishPhase::Rename => "rename"@,
            LiveCheckpointPublishPhase::SyncDir => "sync-dir"@,
        }
    }

    /// The phase's name.
    pub fn name(self) -> (r: &'static str)
        ensures
            r@ == self.label(),
    {
        match self {
            LiveCheckpointPublishPhase::OpenTemp => "open-temp",
            LiveCheckpointPublishPhase::WriteTemp => "write-temp",
            LiveCheckpointPublishPhase::SyncTemp => "sync-temp",
            LiveCheckpointPublishPhase::CloseTemp => "close-temp",
            LiveCheckpointPublishPhase::Rename => "rename",
            LiveCheckpointPublishPhase::SyncDir => "sync-dir",
        }
    }
}

/// Why a publication failed.
#[derive(Debug)]
pub enum LiveCheckpointPublishError {
    ManifestEncode(String),
    UnexpectedToken {
        phase: LiveCheckpointPublishPhase,
        expected: CompletionToken,
        got: CompletionToken,
    },
    OpenTemp { name: String, errno: i32 },
    WriteTemp { fd: i32, offset_bytes: u64, errno: i32 },
    MissingWriteBuffer { fd: i32, offset_bytes: u64, errno: i32 },
    SyncTemp { fd: i32, errno: i32 },
    CloseTemp { name: String, errno: i32 },
    Rename { old_name: String, new_name: String, errno: i32 },
    SyncDir { fd: i32, errno: i32 },
    UnexpectedCompletion { phase: LiveCheckpointPublishPhase, result: CompletionResult },
}

impl LiveCheckpointPublishError {
    /// The text of the error.
    pub open spec fn message_text(&self) -> Seq<char> {
        match *self {
            LiveCheckpointPublishError::ManifestEncode(error) => "checkpoint manifest encode failed: "@ + error@,
            LiveCheckpointPublishError::UnexpectedToken { phase, expected, got } => "checkpoint publish "@ + phase.label() + " got token "@ + got.label() + ", expected "@ + expected.label(),
            LiveCheckpointPublishError::OpenTemp { name, errno } => "open checkpoint temp file "@ + text::quoted(name@) + " failed with errno "@ + text::dec_int_chars(errno as int),
            LiveCheckpointPublishError::WriteTemp { fd, offset_bytes, errno } => "write checkpoint temp fd "@ + text::dec_int_chars(fd as int) + " at offset "@ + text::dec_chars(offset_bytes as nat) + " failed with errno "@ + text::dec_int_chars(errno as int),
            LiveCheckpointPublishError::MissingWriteBuffer { fd, offset_bytes, errno } => "write checkpoint temp fd "@ + text::dec_int_chars(fd as int) + " at offset "@ + text::dec_chars(offset_bytes as nat) + " failed with errno "@ + text::dec_int_chars(errno as int) + " without returning the buffer"@,
            LiveCheckpointPublishError::SyncTemp { fd, errno } => "sync checkpoint temp fd "@ + text::dec_int_chars(fd as int) + " failed with errno "@ + text::dec_int_chars(errno as int),
            LiveCheckpointPublishError::CloseTemp { name, errno } => "close checkpoint temp file "@ + text::quoted(name@) + " failed with errno "@ + text::dec_int_chars(errno as int),
            LiveCheckpointPublishError::Rename { old_name, new_name, errno } => "rename checkpoint "@ + text::quoted(old_name@) + " to "@ + text::quoted(new_name@) + " failed with errno "@ + text::dec_int_chars(errno as int),
            LiveCheckpointPublishError::SyncDir { fd, errno } => "sync checkpoint directory fd "@ + text::dec_int_chars(fd as int) + " failed with errno "@ + text::dec_int_chars(errno as int),
            LiveCheckpointPublishError::UnexpectedCompletion { phase, result } => "checkpoint publish "@ + phase.label() + " got unexpected completion kind "@ + result.label(),
        }
    }

    /// The text of the error.
    pub fn message(&self) -> (r: String)
        ensures
            r@ == self.message_text(),
    {
        match self {
            LiveCheckpointPublishError::ManifestEncode(error) => {
                let mut out = text::owned("checkpoint manifest encode failed: ");
                out.append(error.as_str());
                out
            },
            LiveCheckpointPublishError::UnexpectedToken { phase, expected, got } => {
                let mut out = text::owned("checkpoint publish ");
                out.append(phase.name());
                out.append(" got token ");
                out.append(got.describe().as_str());
                out.append(", expected ");
                out.append(expected.describe().as_str());
                out
            },
            LiveCheckpointPublishError::OpenTemp { name, errno } => {
                let mut out = text::owned("open checkpoint temp file ");
                out.append(text::quoted_string(name.as_str()).as_str());
                out.append(" failed with errno ");
                text::append_dec_int(&mut out, *errno as i64);
                out
            },
            LiveCheckpointPublishError::WriteTemp { fd, offset_bytes, errno } => {
                let mut out = text::owned("write checkpoint temp fd ");
                text::append_dec_int(&mut out, *fd as i64);
                out.append(" at offset ");
                text::append_dec(&mut out, *offset_bytes as u64);
                out.append(" failed with errno ");
                text::append_dec_int(&mut out, *errno as i64);
                out
            },
            LiveCheckpointPublishError::MissingWriteBuffer { fd, offset_bytes, errno } => {
                let mut out = text::owned("write checkpoint temp fd ");
                text::append_dec_int(&mut out, *fd as i64);
                out.append(" at offset ");
                text::append_dec(&mut out, *offset_bytes as u64);
                out.append(" failed with errno ");
                text::append_dec_int(&mut out, *errno as i64);
                out.append(" without returning the buffer");
                out
            },
            LiveCheckpointPublishError::SyncTemp { fd, errno } => {
                let mut out = text::owned("sync checkpoint temp fd ");
                text::append_dec_int(&mut out, *fd as i64);
                out.append(" failed with errno ");
                text::append_dec_int(&mut out, *errno as i64);
                out
            },
            LiveCheckpointPublishError::CloseTemp { name, errno } => {
                let mut out = text::owned("close checkpoint temp file ");
                out.append(text::quoted_string(name.as_str()).as_str());
                out.append(" failed with errno ");
                text::append_dec_int(&mut out, *errno as i64);
                out
            },
            LiveCheckpointPublishError::Rename { old_name, new_name, errno } => {
                let mut out = text::owned("rename checkpoint ");
                out.append(text::quoted_string(old_name.as_str()).as_str());
                out.append(" to ");
                out.append(text::quoted_string(new_name.as_str()).as_str());
                out.append(" failed with errno ");
                text::append_dec_int(&mut out, *errno as i64);
                out
            },
            LiveCheckpointPublishError::SyncDir { fd, errno } => {
                let mut out = text::owned("sync checkpoint directory fd ");
                text::append_dec_int(&mut out, *fd as i64);
                out.append(" failed with errno ");
                text::append_dec_int(&mut out, *errno as i64);
                out
            },
            LiveCheckpointPublishError::UnexpectedCompletion { phase, result } => {
                let mut out = text::owned("checkpoint publish ");
                out.append(phase.name());
                out.append(" got unexpected completion kind ");
                out.append(result_name(result));
                out
            },
        }
    }
}

/// A file on its way through a temporary name.
#[derive(Debug)]
pub struct LiveCheckpointFile {
    pub temp_name: String,
    pub final_name: String,
    pub bytes: Vec<u8>,
    pub next: LiveCheckpointNext,
}

/// What follows a published file.
#[derive(Debug)]
pub enum LiveCheckpointNext {
    /// The recovery manifest of these bytes.
    Manifest(Vec<u8>),
    Done,
}

/// Where a publication stands.
#[derive(Debug)]
pub enum LiveCheckpointPublishState {
    Idle,
    OpenTemp { file: LiveCheckpointFile },
    OpeningTemp { file: LiveCheckpointFile },
    WriteTemp { fd: i32, file: LiveCheckpointFile, offset: usize },
    WritingTemp { fd: i32, file: LiveCheckpointFile, offset: usize, chunk_len: usize, buf: u32 },
    SyncTemp { fd: i32, file: LiveCheckpointFile },
    SyncingTemp { fd: i32, file: LiveCheckpointFile },
    CloseTemp { fd: i32, file: LiveCheckpointFile },
    ClosingTemp { file: LiveCheckpointFile },
    Rename { file: LiveCheckpointFile },
    Renaming { file: LiveCheckpointFile },
    SyncDir { file: LiveCheckpointFile },
    SyncingDir { file: LiveCheckpointFile },
}

impl LiveCheckpointPublishState {
    /// The phase a state belongs to.
    pub open spec fn in_phase(&self) -> Option<LiveCheckpointPublishPhase> {
        match *self {
            LiveCheckpointPublishState::Idle => None,
            LiveCheckpointPublishState::OpenTemp { .. } => Some(
                LiveCheckpointPublishPhase::OpenTemp,
            ),
            LiveCheckpointPublishState::OpeningTemp { .. } => Some(
                LiveCheckpointPublishPhase::OpenTemp,
            ),
            LiveCheckpointPublishState::WriteTemp { .. } => Some(
                LiveCheckpointPublishPhase::WriteTemp,
            ),
            LiveCheckpointPublishState::WritingTemp { .. } => Some(
                LiveCheckpointPublishPhase::WriteTemp,
            ),
            LiveCheckpointPublishState::SyncTemp { .. } => Some(
                LiveCheckpointPublishPhase::SyncTemp,
            ),
            LiveCheckpointPublishState::SyncingTemp { .. } => Some(
                LiveCheckpointPublishPhase::SyncTemp,
            ),
            LiveCheckpointPublishState::CloseTemp { .. } => Some(
                LiveCheckpointPublishPhase::CloseTemp,
            ),
            LiveCheckpointPublishState::ClosingTemp { .. } => Some(
                LiveCheckpointPublishPhase::CloseTemp,
            ),
            LiveCheckpointPublishState::Rename { .. } => Some(LiveCheckpointPublishPhase::Rename),
            LiveCheckpointPublishState::Renaming { .. } => Some(LiveCheckpointPublishPhase::Rename),
            LiveCheckpointPublishState::SyncDir { .. } => Some(LiveCheckpointPublishPhase::SyncDir),
            LiveCheckpointPublishState::SyncingDir { .. } => Some(
                LiveCheckpointPublishPhase::SyncDir,
            ),
        }
    }

    /// The phase a state belongs to.
    fn phase(&self) -> (r: Option<LiveCheckpointPublishPhase>)
        ensures
            r == self.in_phase(),
    {
        match self {
            LiveCheckpointPublishState::Idle => None,
            LiveCheckpointPublishState::OpenTemp { .. }
            | LiveCheckpointPublishState::OpeningTemp { .. } => Some(
                LiveCheckpointPublishPhase::OpenTemp,
            ),
            LiveCheckpointPublishState::WriteTemp { .. }
            | LiveCheckpointPublishState::WritingTemp { .. } => Some(
                LiveCheckpointPublishPhase::WriteTemp,
            ),
            LiveCheckpointPublishState::SyncTemp { .. }
            | LiveCheckpointPublishState::SyncingTemp { .. } => Some(
                LiveCheckpointPublishPhase::SyncTemp,
            ),
            LiveCheckpointPublishState::CloseTemp { .. }
            | LiveCheckpointPublishState::ClosingTemp { .. } => Some(
                LiveCheckpointPublishPhase::CloseTemp,
            ),
            LiveCheckpointPublishState::Rename { .. }
            | LiveCheckpointPublishState::Renaming { .. } => Some(
                LiveCheckpointPublishPhase::Rename,
            ),
            LiveCheckpointPublishState::SyncDir { .. }
            | LiveCheckpointPublishState::SyncingDir { .. } => Some(
                LiveCheckpointPublishPhase::SyncDir,
            ),
        }
    }

    /// A chunk in flight lies within the file.
    pub open spec fn wf(&self) -> bool {
        match *self {
            LiveCheckpointPublishState::WriteTemp { file, offset, .. } => offset
                <= file.bytes@.len(),
            LiveCheckpointPublishState::WritingTemp { file, offset, chunk_len, .. } => offset
                + chunk_len <= file.bytes@.len(),
            _ => true,
        }
    }
}

/// The names of the recovery manifest's file.
#[derive(Debug)]
pub struct ManifestNames {
    pub temp_name: String,
    pub final_name: String,
}

/// Publishes one checkpoint image and its manifest at a time.
#[derive(Debug)]
pub struct LiveCheckpointPublisher {
    pub dir: i32,
    pub token: CompletionToken,
    pub manifest: ManifestNames,
    pub state: LiveCheckpointPublishState,
}

impl LiveCheckpointPublisher {
    /// An idle publisher.
    pub fn new(config: LiveCheckpointPublishConfig, manifest: ManifestNames) -> (r:
        LiveCheckpointPublisher)
        ensures
            r.dir == config.dir,
            r.token == (CompletionToken {
                class: TokenClass::File,
                slot: config.token_slot,
                generation: config.token_generation,
            }),
            r.manifest == manifest,
            r.state is Idle,
    {
        LiveCheckpointPublisher {
            dir: config.dir,
            token: CompletionToken {
                class: TokenClass::File,
                slot: config.token_slot,
                generation: config.token_generation,
            },
            manifest,
            state: LiveCheckpointPublishState::Idle,
        }
    }

    /// The token every operation carries.
    pub fn token(&self) -> (r: CompletionToken)
        ensures
            r == self.token,
    {
        self.token
    }

    /// Whether nothing is being published.
    pub fn is_idle(&self) -> (r: bool)
        ensures
            r == (self.state is Idle),
    {
        match &self.state {
            LiveCheckpointPublishState::Idle => true,
            _ => false,
        }
    }

    /// Whether the publication of an image, with its manifest to follow, is
    /// about to begin.
    pub open spec fn has_started(
        &self,
        image_name: Seq<char>,
        image: Seq<u8>,
        manifest: Seq<u8>,
    ) -> bool {
        self.state matches LiveCheckpointPublishState::OpenTemp { file } && file.temp_name@
            == image_name + ".tmp"@ && file.final_name@ == image_name && file.bytes@ == image
            && (file.next matches LiveCheckpointNext::Manifest(bytes) && bytes@ == manifest)
    }

    /// Starts publishing `image` under `image_name`, with the manifest to
    /// follow. A manifest that could not be encoded starts nothing.
    pub fn start(&mut self, image_name: String, image: Vec<u8>, manifest: Result<Vec<u8>, String>) -> (r:
        Result<(), LiveCheckpointPublishError>)
        requires
            old(self).state is Idle,
        ensures
            match manifest {
                Ok(bytes) => r is Ok && final(self).has_started(image_name@, image@, bytes@),
                Err(error) => r == Err::<(), LiveCheckpointPublishError>(
                    LiveCheckpointPublishError::ManifestEncode(error),
                ) && final(self).state is Idle,
            },
            *final(self) == (LiveCheckpointPublisher { state: final(self).state, ..*old(self) }),
    {
        match manifest {
            Err(error) => Err(LiveCheckpointPublishError::ManifestEncode(error)),
            Ok(bytes) => {
                let temp = temp_name(image_name.as_str());
                self.state = LiveCheckpointPublishState::OpenTemp {
                    file: LiveCheckpointFile {
                        temp_name: temp,
                        final_name: image_name,
                        bytes: image,
                        next: LiveCheckpointNext::Manifest(bytes),
                    },
                };
                Ok(())
            },
        }
    }

    /// Whether the next drive needs a write buffer.
    pub open spec fn needs_buffer(&self) -> bool {
        self.state matches LiveCheckpointPublishState::WriteTemp { file, offset, .. } && offset
            < file.bytes@.len()
    }

    /// Whether the next drive needs a write buffer.
    pub fn wants_buffer(&self) -> (r: bool)
        ensures
            r == self.needs_buffer(),
    {
        match &self.state {
            LiveCheckpointPublishState::WriteTemp { file, offset, .. } => *offset
                < file.bytes.len(),
            _ => false,
        }
    }

    /// What a drive issues and where it leaves the publication. `buf` is the
    /// leased write buffer, when one could be had.
    pub open spec fn driven(&self, buf_size: usize, buf: Option<u32>) -> (
        Option<io::Op>,
        LiveCheckpointPublishState,
    ) {
        match self.state {
            LiveCheckpointPublishState::OpenTemp { file } => (
                Some(
                    io::Op::Open {
                        dir: self.dir,
                        name: file.temp_name@,
                        mode: FileOpenMode::ReadWriteCreateTruncate,
                        token: self.token,
                    },
                ),
                LiveCheckpointPublishState::OpeningTemp { file },
            ),
            LiveCheckpointPublishState::WriteTemp { fd, file, offset } => if offset
                >= file.bytes@.len() {
                (
                    Some(io::Op::Sync { fd, mode: FileSyncMode::DataOnly, token: self.token }),
                    LiveCheckpointPublishState::SyncingTemp { fd, file },
                )
            } else {
                let n = io::chunk_len(buf_size, file.bytes@.len() - offset);
                match buf {
                    Some(buf) => (
                        Some(
                            io::Op::Write {
                                fd,
                                offset: offset as u64,
                                buf,
                                data: file.bytes@.subrange(offset as int, offset + n),
                                token: self.token,
                            },
                        ),
                        LiveCheckpointPublishState::WritingTemp {
                            fd,
                            file,
                            offset,
                            chunk_len: n as usize,
                            buf,
                        },
                    ),
                    None => (None, self.state),
                }
            },
            LiveCheckpointPublishState::SyncTemp { fd, file } => (
                Some(io::Op::Sync { fd, mode: FileSyncMode::DataOnly, token: self.token }),
                LiveCheckpointPublishState::SyncingTemp { fd, file },
            ),
            LiveCheckpointPublishState::CloseTemp { fd, file } => (
                Some(io::Op::Close { fd, token: self.token }),
                LiveCheckpointPublishState::ClosingTemp { file },
            ),
            LiveCheckpointPublishState::Rename { file } => (
                Some(
                    io::Op::Rename {
                        old_dir: self.dir,
                        old_name: file.temp_name@,
                        new_dir: self.dir,
                        new_name: file.final_name@,
                        token: self.token,
                    },
                ),
                LiveCheckpointPublishState::Renaming { file },
            ),
            LiveCheckpointPublishState::SyncDir { file } => (
                Some(io::Op::Sync { fd: self.dir, mode: FileSyncMode::Full, token: self.token }),
                LiveCheckpointPublishState::SyncingDir { file },
            ),
            other => (None, other),
        }
    }

    /// Issues the next operation, if one is owed. A write waits for a buffer.
    pub fn drive(&mut self, buf_size: usize, buf: Option<u32>, ops: &mut Vec<IoOp>) -> (r:
        LiveCheckpointPublishEvent)
        requires
            old(self).state.wf(),
        ensures
            final(self).state.wf(),
            r == (if old(self).state is Idle {
                LiveCheckpointPublishEvent::Idle
            } else {
                LiveCheckpointPublishEvent::Pending
            }),
            *final(self) == (LiveCheckpointPublisher {
                state: old(self).driven(buf_size, buf).1,
                ..*old(self)
            }),
            match old(self).driven(buf_size, buf).0 {
                Some(op) => final(ops)@.len() == old(ops)@.len() + 1 && final(ops)@.drop_last()
                    == old(ops)@ && final(ops)@.last()@ == op,
                None => final(ops)@ == old(ops)@,
            },
    {
        let token = self.token;
        let dir: i32 = self.dir;
        let mut state = LiveCheckpointPublishState::Idle;
        std::mem::swap(&mut state, &mut self.state);
        match state {
            LiveCheckpointPublishState::Idle => LiveCheckpointPublishEvent::Idle,
            LiveCheckpointPublishState::OpenTemp { file } => {
                ops.push(
                    IoOp::FileOpen {
                        dir,
                        name: file.temp_name.clone(),
                        mode: FileOpenMode::ReadWriteCreateTruncate,
                        token,
                    },
                );
                assert(ops@.drop_last() =~= old(ops)@);
                self.state = LiveCheckpointPublishState::OpeningTemp { file };
                LiveCheckpointPublishEvent::Pending
            },
            LiveCheckpointPublishState::WriteTemp { fd, file, offset } => {
                if offset >= file.bytes.len() {
                    ops.push(IoOp::FileSync { fd, mode: FileSyncMode::DataOnly, token });
                    assert(ops@.drop_last() =~= old(ops)@);
                    self.state = LiveCheckpointPublishState::SyncingTemp { fd, file };
                    return LiveCheckpointPublishEvent::Pending;
                }
                let left: usize = file.bytes.len() - offset;
                let chunk_len: usize = if buf_size <= left {
                    buf_size
                } else {
                    left
                };
                match buf {
                    None => {
                        self.state = LiveCheckpointPublishState::WriteTemp { fd, file, offset };
                    },
                    Some(buf) => {
                        let data = text::copy_bytes(
                            vstd::slice::slice_subrange(
                                file.bytes.as_slice(),
                                offset,
                                offset + chunk_len,
                            ),
                        );
                        ops.push(
                            IoOp::FileWriteAt { fd, offset_bytes: offset as u64, buf, data, token },
                        );
                        assert(ops@.drop_last() =~= old(ops)@);
                        self.state =
                        LiveCheckpointPublishState::WritingTemp { fd, file, offset, chunk_len, buf };
                    },
                }
                LiveCheckpointPublishEvent::Pending
            },
            LiveCheckpointPublishState::SyncTemp { fd, file } => {
                ops.push(IoOp::FileSync { fd, mode: FileSyncMode::DataOnly, token });
                assert(ops@.drop_last() =~= old(ops)@);
                self.state = LiveCheckpointPublishState::SyncingTemp { fd, file };
                LiveCheckpointPublishEvent::Pending
            },
            LiveCheckpointPublishState::CloseTemp { fd, file } => {
                ops.push(IoOp::FileClose { fd, token });
                assert(ops@.drop_last() =~= old(ops)@);
                self.state = LiveCheckpointPublishState::ClosingTemp { file };
                LiveCheckpointPublishEvent::Pending
            },
            LiveCheckpointPublishState::Rename { file } => {
                ops.push(
                    IoOp::FileRename {
                        old_dir: dir,
                        old_name: file.temp_name.clone(),
                        new_dir: dir,
                        new_name: file.final_name.clone(),
                        token,
                    },
                );
                assert(ops@.drop_last() =~= old(ops)@);
                self.state = LiveCheckpointPublishState::Renaming { file };
                LiveCheckpointPublishEvent::Pending
            },
            LiveCheckpointPublishState::SyncDir { file } => {
                ops.push(IoOp::FileSync { fd: dir, mode: FileSyncMode::Full, token });
                assert(ops@.drop_last() =~= old(ops)@);
                self.state = LiveCheckpointPublishState::SyncingDir { file };
                LiveCheckpointPublishEvent::Pending
            },
            inflight => {
                self.state = inflight;
                LiveCheckpointPublishEvent::Pending
            },
        }
    }

    /// Whether `done` is what the publication makes of a result for its own
    /// token: the event or error, and the state it is left in.
    pub open spec fn completes(
        &self,
        result: CompletionResult,
        done: Result<LiveCheckpointPublishEvent, LiveCheckpointPublishError>,
        next: LiveCheckpointPublishState,
    ) -> bool {
        let pending = Ok::<LiveCheckpointPublishEvent, LiveCheckpointPublishError>(
            LiveCheckpointPublishEvent::Pending,
        );
        match (self.state, result) {
            (
                LiveCheckpointPublishState::OpeningTemp { file },
                CompletionResult::FileOpened { fd },
            ) => done == pending && next == (LiveCheckpointPublishState::WriteTemp {
                fd,
                file,
                offset: 0,
            }),
            (
                LiveCheckpointPublishState::OpeningTemp { file },
                CompletionResult::Error { errno, buf: None },
            ) => done == Err::<LiveCheckpointPublishEvent, _>(
                LiveCheckpointPublishError::OpenTemp { name: file.temp_name, errno },
            ) && next is Idle,
            (
                LiveCheckpointPublishState::WritingTemp { fd, file, offset, chunk_len, .. },
                CompletionResult::FileWritten { .. },
            ) => done == pending && next == (LiveCheckpointPublishState::WriteTemp {
                fd,
                file,
                offset: (offset + chunk_len) as usize,
            }),
            (
                LiveCheckpointPublishState::WritingTemp { fd, offset, .. },
                CompletionResult::Error { errno, buf: Some(_) },
            ) => done == Err::<LiveCheckpointPublishEvent, _>(
                LiveCheckpointPublishError::WriteTemp { fd, offset_bytes: offset as u64, errno },
            ) && next is Idle,
            (
                LiveCheckpointPublishState::WritingTemp { fd, offset, .. },
                CompletionResult::Error { errno, buf: None },
            ) => done == Err::<LiveCheckpointPublishEvent, _>(
                LiveCheckpointPublishError::MissingWriteBuffer {
                    fd,
                    offset_bytes: offset as u64,
                    errno,
                },
            ) && next is Idle,
            (LiveCheckpointPublishState::SyncingTemp { fd, file }, CompletionResult::FileDone) => {
                done == pending && next == (LiveCheckpointPublishState::CloseTemp { fd, file })
            },
            (
                LiveCheckpointPublishState::SyncingTemp { fd, .. },
                CompletionResult::Error { errno, buf: None },
            ) => done == Err::<LiveCheckpointPublishEvent, _>(
                LiveCheckpointPublishError::SyncTemp { fd, errno },
            ) && next is Idle,
            (LiveCheckpointPublishState::ClosingTemp { file }, CompletionResult::FileClosed) => {
                done == pending && next == (LiveCheckpointPublishState::Rename { file })
            },
            (
                LiveCheckpointPublishState::ClosingTemp { file },
                CompletionResult::Error { errno, buf: None },
            ) => done == Err::<LiveCheckpointPublishEvent, _>(
                LiveCheckpointPublishError::CloseTemp { name: file.temp_name, errno },
            ) && next is Idle,
            (LiveCheckpointPublishState::Renaming { file }, CompletionResult::FileDone) => {
                done == pending && next == (LiveCheckpointPublishState::SyncDir { file })
            },
            (
                LiveCheckpointPublishState::Renaming { file },
                CompletionResult::Error { errno, buf: None },
            ) => done == Err::<LiveCheckpointPublishEvent, _>(
                LiveCheckpointPublishError::Rename {
                    old_name: file.temp_name,
                    new_name: file.final_name,
                    errno,
                },
            ) && next is Idle,
            (LiveCheckpointPublishState::SyncingDir { file }, CompletionResult::FileDone) => {
                match file.next {
                    LiveCheckpointNext::Manifest(bytes) => done == pending && (next matches
                        LiveCheckpointPublishState::OpenTemp { file: f } && f.temp_name@
                        == self.manifest.temp_name@ && f.final_name@ == self.manifest.final_name@
                        && f.bytes == bytes && f.next is Done),
                    LiveCheckpointNext::Done => done == Ok::<
                        LiveCheckpointPublishEvent,
                        LiveCheckpointPublishError,
                    >(LiveCheckpointPublishEvent::Completed) && next is Idle,
                }
            },
            (
                LiveCheckpointPublishState::SyncingDir { .. },
                CompletionResult::Error { errno, buf: None },
            ) => done == Err::<LiveCheckpointPublishEvent, _>(
                LiveCheckpointPublishError::SyncDir { fd: self.dir, errno },
            ) && next is Idle,
            (state, result) => done == Err::<LiveCheckpointPublishEvent, _>(
                LiveCheckpointPublishError::UnexpectedCompletion {
                    phase: state.in_phase()->0,
                    result,
                },
            ) && next == state,
        }
    }

    /// Takes the completion of the operation in flight. Returns the event or
    /// error, and the buffer to release. A completion of another operation or
    /// of an unexpected kind leaves the publication where it stands.
    pub fn on_completion(&mut self, completion: Completion) -> (r: (
        Result<LiveCheckpointPublishEvent, LiveCheckpointPublishError>,
        Option<u32>,
    ))
        requires
            old(self).state.wf(),
            !(old(self).state is Idle),
            completion.token == old(self).token ==> match (old(self).state, completion.result) {
                (
                    LiveCheckpointPublishState::WritingTemp { buf, .. },
                    CompletionResult::FileWritten { buf: got },
                ) => got == buf,
                (
                    LiveCheckpointPublishState::WritingTemp { buf, .. },
                    CompletionResult::Error { buf: Some(got), .. },
                ) => got == buf,
                _ => true,
            },
        ensures
            final(self).state.wf(),
            *final(self) == (LiveCheckpointPublisher { state: final(self).state, ..*old(self) }),
            r.1 == completion.result.returned(),
            if completion.token != old(self).token {
                r.0 == Err::<LiveCheckpointPublishEvent, _>(
                    LiveCheckpointPublishError::UnexpectedToken {
                        phase: old(self).state.in_phase()->0,
                        expected: old(self).token,
                        got: completion.token,
                    },
                ) && final(self).state == old(self).state
            } else {
                old(self).completes(completion.result, r.0, final(self).state)
            },
    {
        let result = completion.result;
        let release = release_result_buffer(&result);
        let phase = match self.state.phase() {
            Some(phase) => phase,
            None => LiveCheckpointPublishPhase::OpenTemp,
        };
        if completion.token != self.token {
            return (
                Err(
                    LiveCheckpointPublishError::UnexpectedToken {
                        phase,
                        expected: self.token,
                        got: completion.token,
                    },
                ),
                release,
            );
        }
        let mut state = LiveCheckpointPublishState::Idle;
        std::mem::swap(&mut state, &mut self.state);
        let outcome = match (state, result) {
            (
                LiveCheckpointPublishState::OpeningTemp { file },
                CompletionResult::FileOpened { fd },
            ) => {
                self.state = LiveCheckpointPublishState::WriteTemp { fd, file, offset: 0 };
                Ok(LiveCheckpointPublishEvent::Pending)
            },
            (
                LiveCheckpointPublishState::OpeningTemp { file },
                CompletionResult::Error { errno, buf: None },
            ) => Err(LiveCheckpointPublishError::OpenTemp { name: file.temp_name, errno }),
            (
                LiveCheckpointPublishState::WritingTemp { fd, file, offset, chunk_len, .. },
                CompletionResult::FileWritten { .. },
            ) => {
                assert(offset + chunk_len <= file.bytes.len());
                self.state =
                LiveCheckpointPublishState::WriteTemp { fd, file, offset: offset + chunk_len };
                Ok(LiveCheckpointPublishEvent::Pending)
            },
            (
                LiveCheckpointPublishState::WritingTemp { fd, offset, .. },
                CompletionResult::Error { errno, buf: Some(_) },
            ) => Err(
                LiveCheckpointPublishError::WriteTemp { fd, offset_bytes: offset as u64, errno },
            ),
            (
                LiveCheckpointPublishState::WritingTemp { fd, offset, .. },
                CompletionResult::Error { errno, buf: None },
            ) => Err(
                LiveCheckpointPublishError::MissingWriteBuffer {
                    fd,
                    offset_bytes: offset as u64,
                    errno,
                },
            ),
            (LiveCheckpointPublishState::SyncingTemp { fd, file }, CompletionResult::FileDone) => {
                self.state = LiveCheckpointPublishState::CloseTemp { fd, file };
                Ok(LiveCheckpointPublishEvent::Pending)
            },
            (
                LiveCheckpointPublishState::SyncingTemp { fd, .. },
                CompletionResult::Error { errno, buf: None },
            ) => Err(LiveCheckpointPublishError::SyncTemp { fd, errno }),
            (LiveCheckpointPublishState::ClosingTemp { file }, CompletionResult::FileClosed) => {
                self.state = LiveCheckpointPublishState::Rename { file };
                Ok(LiveCheckpointPublishEvent::Pending)
            },
            (
                LiveCheckpointPublishState::ClosingTemp { file },
                CompletionResult::Error { errno, buf: None },
            ) => Err(LiveCheckpointPublishError::CloseTemp { name: file.temp_name, errno }),
            (LiveCheckpointPublishState::Renaming { file }, CompletionResult::FileDone) => {
                self.state = LiveCheckpointPublishState::SyncDir { file };
                Ok(LiveCheckpointPublishEvent::Pending)
            },
            (
                LiveCheckpointPublishState::Renaming { file },
                CompletionResult::Error { errno, buf: None },
            ) => Err(
                LiveCheckpointPublishError::Rename {
                    old_name: file.temp_name,
                    new_name: file.final_name,
                    errno,
                },
            ),
            (LiveCheckpointPublishState::SyncingDir { file }, CompletionResult::FileDone) => {
                match file.next {
                    LiveCheckpointNext::Manifest(bytes) => {
                        self.state = LiveCheckpointPublishState::OpenTemp {
                            file: LiveCheckpointFile {
                                temp_name: self.manifest.temp_name.clone(),
                                final_name: self.manifest.final_name.clone(),
                                bytes,
                                next: LiveCheckpointNext::Done,
                            },
                        };
                        Ok(LiveCheckpointPublishEvent::Pending)
                    },
                    LiveCheckpointNext::Done => Ok(LiveCheckpointPublishEvent::Completed),
                }
            },
            (
                LiveCheckpointPublishState::SyncingDir { .. },
                CompletionResult::Error { errno, buf: None },
            ) => Err(LiveCheckpointPublishError::SyncDir { fd: self.dir, errno }),
            (state, result) => {
                self.state = state;
                Err(LiveCheckpointPublishError::UnexpectedCompletion { phase, result })
            },
        };
        (outcome, release)
    }
}

/// A file is renamed only when it is whole: the sync that leads to the rename
/// is issued once every byte of the file was written.
pub proof fn law_rename_follows_sync(p: LiveCheckpointPublisher, buf_size: usize, buf: Option<u32>)
    requires
        p.state.wf(),
        p.state is WriteTemp,
        p.driven(buf_size, buf).1 is SyncingTemp,
    ensures
        p.state matches LiveCheckpointPublishState::WriteTemp { file, offset, .. } && offset
            == file.bytes@.len() && p.driven(buf_size, buf).0 matches Some(io::Op::Sync {
            mode: FileSyncMode::DataOnly,
            ..
        }),
{
}

/// The manifest follows its image: it is opened only after the image's rename
/// was made durable by a sync of the directory, and a publication is complete
/// only after the manifest's was.
pub proof fn law_manifest_follows_image(
    p: LiveCheckpointPublisher,
    result: CompletionResult,
    done: Result<LiveCheckpointPublishEvent, LiveCheckpointPublishError>,
    next: LiveCheckpointPublishState,
)
    requires
        p.completes(result, done, next),
    ensures
        done == Ok::<LiveCheckpointPublishEvent, LiveCheckpointPublishError>(
            LiveCheckpointPublishEvent::Completed,
        ) ==> (p.state matches LiveCheckpointPublishState::SyncingDir { file }
            && file.next is Done && result is FileDone),
        next is OpenTemp && !(p.state is OpenTemp) ==> (p.state matches
            LiveCheckpointPublishState::SyncingDir { file } && file.next is Manifest
            && result is FileDone),
{
}

/// One turn of a publication: the buffer and the descriptor at hand, the
/// operation that a drive issues, and what its completion is answered.
pub struct Turn {
    pub buf: u32,
    pub fd: i32,
    pub op: Option<io::Op>,
    pub done: Result<LiveCheckpointPublishEvent, LiveCheckpointPublishError>,
}

/// The result of an operation that succeeds; `fd` is what an open gives.
pub open spec fn success(op: io::Op, fd: i32) -> CompletionResult {
    match op {
        io::Op::Open { .. } => CompletionResult::FileOpened { fd },
        io::Op::Write { buf, .. } => CompletionResult::FileWritten { buf },
        io::Op::Read { buf, len, .. } => CompletionResult::FileRead { buf, len },
        io::Op::Close { .. } => CompletionResult::FileClosed,
        io::Op::Sync { .. } | io::Op::Unlink { .. } | io::Op::Rename { .. } => {
            CompletionResult::FileDone
        },
    }
}

/// Whether turn `i` is a drive with a buffer at hand, followed by the success
/// of the operation it issued.
pub open spec fn goes_well(
    states: Seq<LiveCheckpointPublisher>,
    turns: Seq<Turn>,
    buf_size: usize,
    i: int,
) -> bool {
    let p = states[i];
    let t = turns[i];
    let next = states[i + 1];
    let (op, state) = p.driven(buf_size, Some(t.buf));
    &&& t.op == op
    &&& op matches Some(op) ==> (LiveCheckpointPublisher { state, ..p }).completes(
        success(op, t.fd),
        t.done,
        next.state,
    )
    &&& next == LiveCheckpointPublisher { state: next.state, ..p }
}

/// Whether every turn goes well; `states` holds the publisher before each turn
/// and after the last.
pub open spec fn all_go_well(
    states: Seq<LiveCheckpointPublisher>,
    turns: Seq<Turn>,
    buf_size: usize,
) -> bool {
    &&& states.len() == turns.len() + 1
    &&& forall|i: int| 0 <= i < turns.len() ==> #[trigger] goes_well(states, turns, buf_size, i)
}

/// How many writes `left` bytes take.
pub open spec fn write_count(left: int, buf_size: usize) -> nat
    decreases left,
{
    if left <= 0 || buf_size == 0 {
        0
    } else {
        1 + write_count(left - io::chunk_len(buf_size, left), buf_size)
    }
}

/// The writes of a file from an offset on, one buffer after another.
pub open spec fn write_ops(
    token: CompletionToken,
    fd: i32,
    bytes: Seq<u8>,
    offset: int,
    buf_size: usize,
    bufs: Seq<u32>,
) -> Seq<io::Op>
    decreases bytes.len() - offset,
{
    if offset < 0 || offset >= bytes.len() || buf_size == 0 {
        Seq::empty()
    } else {
        let end = offset + io::chunk_len(buf_size, bytes.len() - offset);
        seq![
            io::Op::Write {
                fd,
                offset: offset as u64,
                buf: bufs[0],
                data: bytes.subrange(offset, end),
                token,
            },
        ] + write_ops(token, fd, bytes, end, buf_size, bufs.skip(1))
    }
}

/// The operations that publish one file: its temporary name opened, every byte
/// written, the data synced, the file closed, renamed, and the directory
/// synced.
pub open spec fn file_ops(
    p: LiveCheckpointPublisher,
    temp_name: Seq<char>,
    final_name: Seq<char>,
    bytes: Seq<u8>,
    fd: i32,
    buf_size: usize,
    bufs: Seq<u32>,
) -> Seq<io::Op> {
    seq![
        io::Op::Open {
            dir: p.dir,
            name: temp_name,
            mode: FileOpenMode::ReadWriteCreateTruncate,
            token: p.token,
        },
    ] + write_ops(p.token, fd, bytes, 0, buf_size, bufs) + seq![
        io::Op::Sync { fd, mode: FileSyncMode::DataOnly, token: p.token },
        io::Op::Close { fd, token: p.token },
        io::Op::Rename {
            old_dir: p.dir,
            old_name: temp_name,
            new_dir: p.dir,
            new_name: final_name,
            token: p.token,
        },
        io::Op::Sync { fd: p.dir, mode: FileSyncMode::Full, token: p.token },
    ]
}

/// How many turns publish a file of `len` bytes.
pub open spec fn file_turns(len: nat, buf_size: usize) -> nat {
    write_count(len as int, buf_size) + 5
}

/// The buffers of the turns from `from` on.
pub open spec fn bufs_from(turns: Seq<Turn>, from: int) -> Seq<u32> {
    Seq::new((turns.len() - from) as nat, |i: int| turns[from + i].buf)
}

/// The bytes that a run of writes puts down.
pub open spec fn written(ops: Seq<io::Op>) -> Seq<u8>
    decreases ops.len(),
{
    if ops.len() == 0 {
        Seq::empty()
    } else {
        (match ops[0] {
            io::Op::Write { data, .. } => data,
            _ => Seq::empty(),
        }) + written(ops.skip(1))
    }
}

/// The order of a publication in which every operation succeeds. The image is
/// opened under its temporary name, written, synced, closed and renamed, and
/// the directory is synced; only then the same is done for the manifest. Every
/// turn is pending but the last, which completes the publication and leaves
/// the publisher idle.
pub proof fn law_publication_order(
    states: Seq<LiveCheckpointPublisher>,
    turns: Seq<Turn>,
    buf_size: usize,
    image_name: Seq<char>,
    image: Seq<u8>,
    manifest: Seq<u8>,
)
    requires
        buf_size > 0,
        all_go_well(states, turns, buf_size),
        states[0].has_started(image_name, image, manifest),
        turns.len() == file_turns(image.len(), buf_size) + file_turns(manifest.len(), buf_size),
    ensures
        ({
            let p = states[0];
            let half = file_turns(image.len(), buf_size) as int;
            let ops = file_ops(
                p,
                image_name + ".tmp"@,
                image_name,
                image,
                turns[0].fd,
                buf_size,
                bufs_from(turns, 1),
            ) + file_ops(
                p,
                p.manifest.temp_name@,
                p.manifest.final_name@,
                manifest,
                turns[half].fd,
                buf_size,
                bufs_from(turns, half + 1),
            );
            &&& ops.len() == turns.len()
            &&& forall|i: int|
                0 <= i < turns.len() ==> (#[trigger] turns[i]).op == Some(ops[i])
            &&& forall|i: int|
                0 <= i < turns.len() - 1 ==> (#[trigger] turns[i]).done == Ok::<
                    LiveCheckpointPublishEvent,
                    LiveCheckpointPublishError,
                >(LiveCheckpointPublishEvent::Pending)
            &&& turns.last().done == Ok::<LiveCheckpointPublishEvent, LiveCheckpointPublishError>(
                LiveCheckpointPublishEvent::Completed,
            )
            &&& states.last().state is Idle
        }),
{
    let p = states[0];
    let half = file_turns(image.len(), buf_size) as int;
    lemma_file(states, turns, buf_size, 0);
    lemma_file(states, turns, buf_size, half);
    let first = file_ops(
        p,
        image_name + ".tmp"@,
        image_name,
        image,
        turns[0].fd,
        buf_size,
        bufs_from(turns, 1),
    );
    let second = file_ops(
        p,
        p.manifest.temp_name@,
        p.manifest.final_name@,
        manifest,
        turns[half].fd,
        buf_size,
        bufs_from(turns, half + 1),
    );
    let ops = first + second;
    assert forall|i: int| 0 <= i < turns.len() implies (#[trigger] turns[i]).op == Some(ops[i]) by {
        if i < half {
            assert(turns[0 + i].op == Some(first[i]));
        } else {
            assert(turns[half + (i - half)].op == Some(second[i - half]));
        }
    }
}

/// The writes of a file put down all of its bytes, in order.
pub proof fn law_writes_cover_the_file(
    token: CompletionToken,
    fd: i32,
    bytes: Seq<u8>,
    offset: int,
    buf_size: usize,
    bufs: Seq<u32>,
)
    requires
        0 <= offset <= bytes.len(),
        buf_size > 0,
    ensures
        written(write_ops(token, fd, bytes, offset, buf_size, bufs)) == bytes.skip(offset),
    decreases bytes.len() - offset,
{
    let ops = write_ops(token, fd, bytes, offset, buf_size, bufs);
    if offset < bytes.len() {
        let end = offset + io::chunk_len(buf_size, bytes.len() - offset);
        law_writes_cover_the_file(token, fd, bytes, end, buf_size, bufs.skip(1));
        assert(ops.skip(1) =~= write_ops(token, fd, bytes, end, buf_size, bufs.skip(1)));
        assert(bytes.subrange(offset, end) + bytes.skip(end) =~= bytes.skip(offset));
    } else {
        assert(bytes.skip(offset) =~= Seq::empty());
    }
}

proof fn lemma_writes(
    states: Seq<LiveCheckpointPublisher>,
    turns: Seq<Turn>,
    buf_size: usize,
    k: int,
)
    requires
        buf_size > 0,
        all_go_well(states, turns, buf_size),
        0 <= k,
        states[k].state matches LiveCheckpointPublishState::WriteTemp { file, offset, .. } && offset
            <= file.bytes@.len() && k + write_count(file.bytes@.len() - offset, buf_size)
            < turns.len(),
    ensures
        states[k].state matches LiveCheckpointPublishState::WriteTemp { fd, file, offset } && ({
            let w = write_count(file.bytes@.len() - offset, buf_size);
            let ops = write_ops(
                states[k].token,
                fd,
                file.bytes@,
                offset as int,
                buf_size,
                bufs_from(turns, k),
            );
            &&& states[k + w] == LiveCheckpointPublisher {
                state: LiveCheckpointPublishState::WriteTemp {
                    fd,
                    file,
                    offset: file.bytes@.len() as usize,
                },
                ..states[k]
            }
            &&& ops.len() == w
            &&& forall|i: int| 0 <= i < w ==> turns[k + i].op == Some(#[trigger] ops[i])
            &&& forall|i: int|
                k <= i < k + w ==> (#[trigger] turns[i]).done == Ok::<
                    LiveCheckpointPublishEvent,
                    LiveCheckpointPublishError,
                >(LiveCheckpointPublishEvent::Pending)
        }),
    decreases
            match states[k].state {
                LiveCheckpointPublishState::WriteTemp { file, offset, .. } => file.bytes@.len()
                    - offset,
                _ => 0,
            },
{
    if let LiveCheckpointPublishState::WriteTemp { fd, file, offset } = states[k].state {
        let len = file.bytes@.len();
        assert(len == file.bytes.len());
        if offset < len {
            let end = offset + io::chunk_len(buf_size, len - offset);
            assert(goes_well(states, turns, buf_size, k));
            lemma_writes(states, turns, buf_size, k + 1);
            assert(bufs_from(turns, k).skip(1) =~= bufs_from(turns, k + 1));
            let rest = write_ops(
                states[k].token,
                fd,
                file.bytes@,
                end,
                buf_size,
                bufs_from(turns, k + 1),
            );
            let ops = write_ops(
                states[k].token,
                fd,
                file.bytes@,
                offset as int,
                buf_size,
                bufs_from(turns, k),
            );
            let w = write_count(len - offset, buf_size);
            assert forall|i: int| 0 <= i < w implies turns[k + i].op == Some(#[trigger] ops[i]) by {
                if i > 0 {
                    assert(ops[i] == rest[i - 1]);
                    assert(turns[k + 1 + (i - 1)].op == Some(rest[i - 1]));
                }
            }
        }
    }
}

proof fn lemma_file(
    states: Seq<LiveCheckpointPublisher>,
    turns: Seq<Turn>,
    buf_size: usize,
    k: int,
)
    requires
        buf_size > 0,
        all_go_well(states, turns, buf_size),
        0 <= k,
        states[k].state matches LiveCheckpointPublishState::OpenTemp { file } && k + file_turns(
            file.bytes@.len(),
            buf_size,
        ) <= turns.len(),
    ensures
        states[k].state matches LiveCheckpointPublishState::OpenTemp { file } && ({
            let n = file_turns(file.bytes@.len(), buf_size);
            let ops = file_ops(
                states[k],
                file.temp_name@,
                file.final_name@,
                file.bytes@,
                turns[k].fd,
                buf_size,
                bufs_from(turns, k + 1),
            );
            let last = turns[k + n - 1].done;
            let after = states[k + n];
            &&& ops.len() == n
            &&& forall|i: int| 0 <= i < n ==> turns[k + i].op == Some(#[trigger] ops[i])
            &&& forall|i: int|
                k <= i < k + n - 1 ==> (#[trigger] turns[i]).done == Ok::<
                    LiveCheckpointPublishEvent,
                    LiveCheckpointPublishError,
                >(LiveCheckpointPublishEvent::Pending)
            &&& after == LiveCheckpointPublisher { state: after.state, ..states[k] }
            &&& match file.next {
                LiveCheckpointNext::Manifest(bytes) => {
                    &&& last == Ok::<LiveCheckpointPublishEvent, LiveCheckpointPublishError>(
                        LiveCheckpointPublishEvent::Pending,
                    )
                    &&& after.state matches LiveCheckpointPublishState::OpenTemp { file: f }
                    &&& f.temp_name@ == after.manifest.temp_name@
                    &&& f.final_name@ == after.manifest.final_name@
                    &&& f.bytes == bytes
                    &&& f.next is Done
                },
                LiveCheckpointNext::Done => {
                    &&& last == Ok::<LiveCheckpointPublishEvent, LiveCheckpointPublishError>(
                        LiveCheckpointPublishEvent::Completed,
                    )
                    &&& after.state is Idle
                },
            }
        }),
{
    if let LiveCheckpointPublishState::OpenTemp { file } = states[k].state {
        let w = write_count(file.bytes@.len() as int, buf_size);
        assert(file.bytes@.len() == file.bytes.len());
        assert(goes_well(states, turns, buf_size, k));
        lemma_writes(states, turns, buf_size, k + 1);
        let s = k + 1 + w;
        assert(goes_well(states, turns, buf_size, s));
        assert(goes_well(states, turns, buf_size, s + 1));
        assert(goes_well(states, turns, buf_size, s + 2));
        assert(goes_well(states, turns, buf_size, s + 3));
        let writes = write_ops(
            states[k].token,
            turns[k].fd,
            file.bytes@,
            0,
            buf_size,
            bufs_from(turns, k + 1),
        );
        let ops = file_ops(
            states[k],
            file.temp_name@,
            file.final_name@,
            file.bytes@,
            turns[k].fd,
            buf_size,
            bufs_from(turns, k + 1),
        );
        assert forall|i: int| 0 <= i < w + 5 implies turns[k + i].op == Some(#[trigger] ops[i]) by {
            if 1 <= i <= w {
                assert(ops[i] == writes[i - 1]);
                assert(turns[k + 1 + (i - 1)].op == Some(writes[i - 1]));
            }
        }
    }
}

/// A step that failed ends the publication and says what failed: the phase's
/// own error, with the errno and the name or descriptor it was about.
pub proof fn law_failed_step_ends_the_publication(
    p: LiveCheckpointPublisher,
    errno: i32,
    done: Result<LiveCheckpointPublishEvent, LiveCheckpointPublishError>,
    next: LiveCheckpointPublishState,
)
    requires
        p.completes(CompletionResult::Error { errno, buf: None }, done, next),
    ensures
        p.state matches LiveCheckpointPublishState::OpeningTemp { file } ==> next is Idle && done
            == Err::<LiveCheckpointPublishEvent, _>(
            LiveCheckpointPublishError::OpenTemp { name: file.temp_name, errno },
        ),
        p.state matches LiveCheckpointPublishState::WritingTemp { fd, offset, .. } ==> next is Idle
            && done == Err::<LiveCheckpointPublishEvent, _>(
            LiveCheckpointPublishError::MissingWriteBuffer {
                fd,
                offset_bytes: offset as u64,
                errno,
            },
        ),
        p.state matches LiveCheckpointPublishState::SyncingTemp { fd, .. } ==> next is Idle && done
            == Err::<LiveCheckpointPublishEvent, _>(
            LiveCheckpointPublishError::SyncTemp { fd, errno },
        ),
        p.state matches LiveCheckpointPublishState::ClosingTemp { file } ==> next is Idle && done
            == Err::<LiveCheckpointPublishEvent, _>(
            LiveCheckpointPublishError::CloseTemp { name: file.temp_name, errno },
        ),
        p.state matches LiveCheckpointPublishState::Renaming { file } ==> next is Idle && done
            == Err::<LiveCheckpointPublishEvent, _>(
            LiveCheckpointPublishError::Rename {
                old_name: file.temp_name,
                new_name: file.final_name,
                errno,
            },
        ),
        p.state is SyncingDir ==> next is Idle && done == Err::<LiveCheckpointPublishEvent, _>(
            LiveCheckpointPublishError::SyncDir { fd: p.dir, errno },
        ),
{
}

/// A write that failed with its buffer ends the publication too, and a
/// completion of the wrong kind changes nothing but is reported.
pub proof fn law_wrong_completion_is_reported(
    p: LiveCheckpointPublisher,
    result: CompletionResult,
    done: Result<LiveCheckpointPublishEvent, LiveCheckpointPublishError>,
    next: LiveCheckpointPublishState,
)
    requires
        p.completes(result, done, next),
    ensures
        p.state matches LiveCheckpointPublishState::WritingTemp { fd, offset, .. } ==> (
        result matches CompletionResult::Error { errno, buf: Some(_) } ==> next is Idle && done
            == Err::<LiveCheckpointPublishEvent, _>(
            LiveCheckpointPublishError::WriteTemp { fd, offset_bytes: offset as u64, errno },
        )),
        p.state is OpeningTemp && !(result is FileOpened) ==> done is Err,
        p.state is WritingTemp && !(result is FileWritten) ==> done is Err,
        p.state is SyncingTemp && !(result is FileDone) ==> done is Err,
        p.state is ClosingTemp && !(result is FileClosed) ==> done is Err,
        p.state is Renaming && !(result is FileDone) ==> done is Err,
        p.state is SyncingDir && !(result is FileDone) ==> done is Err,
        done is Err && !(result is Error) ==> next == p.state,
{
}

/// A step that went well leads to the next with the same file: open to write,
/// write to write from behind the chunk, sync to close, close to rename,
/// rename to the directory's sync.
pub proof fn law_step_leads_to_the_next(
    p: LiveCheckpointPublisher,
    result: CompletionResult,
    done: Result<LiveCheckpointPublishEvent, LiveCheckpointPublishError>,
    next: LiveCheckpointPublishState,
)
    requires
        p.state.wf(),
        p.completes(result, done, next),
        done is Ok,
    ensures
        p.state matches LiveCheckpointPublishState::OpeningTemp { file } ==> (
        result matches CompletionResult::FileOpened { fd } && next == (
        LiveCheckpointPublishState::WriteTemp { fd, file, offset: 0 })),
        p.state matches LiveCheckpointPublishState::WritingTemp { fd, file, offset, chunk_len, .. }
            ==> (next matches LiveCheckpointPublishState::WriteTemp { fd: f, file: g, offset: o }
            && f == fd && g == file && o == offset + chunk_len),
        p.state matches LiveCheckpointPublishState::SyncingTemp { fd, file } ==> next == (
        LiveCheckpointPublishState::CloseTemp { fd, file }),
        p.state matches LiveCheckpointPublishState::ClosingTemp { file } ==> next == (
        LiveCheckpointPublishState::Rename { file }),
        p.state matches LiveCheckpointPublishState::Renaming { file } ==> next == (
        LiveCheckpointPublishState::SyncDir { file }),
{
    if let LiveCheckpointPublishState::WritingTemp { file, .. } = p.state {
        assert(file.bytes.len() == file.bytes@.len());
    }
}

/// A write takes the next bytes of the file at their place, as many as the
/// buffer holds, and waits where there is no buffer.
pub proof fn law_write_takes_the_next_bytes(
    p: LiveCheckpointPublisher,
    fd: i32,
    file: LiveCheckpointFile,
    offset: usize,
    buf_size: usize,
    buf: u32,
)
    requires
        p.state == (LiveCheckpointPublishState::WriteTemp { fd, file, offset }),
        offset < file.bytes@.len(),
        buf_size > 0,
    ensures
        p.driven(buf_size, None).0 is None,
        p.driven(buf_size, None).1 == p.state,
        p.driven(buf_size, Some(buf)).0 matches Some(
            io::Op::Write { fd: f, offset: at, buf: b, data, token },
        ) && f == fd && at == offset && b == buf && token == p.token && 0 < data.len() <= buf_size
            && offset + data.len() <= file.bytes@.len() && data == file.bytes@.subrange(
            offset as int,
            (offset + data.len()) as int,
        ) && (data.len() == buf_size || offset + data.len() == file.bytes@.len()),
        p.needs_buffer(),
{
    assert(file.bytes.len() == file.bytes@.len());
    let n = io::chunk_len(buf_size, file.bytes@.len() - offset);
    assert(file.bytes@.subrange(offset as int, offset + n).len() == n);
}

/// The phase of a state is the step it waits for or is about to take, and an
/// idle publisher is in none.
pub proof fn law_state_is_in_its_phase(state: LiveCheckpointPublishState)
    ensures
        state is Idle <==> state.in_phase() is None,
        state is OpenTemp || state is OpeningTemp <==> state.in_phase() == Some(
            LiveCheckpointPublishPhase::OpenTemp,
        ),
        state is WriteTemp || state is WritingTemp <==> state.in_phase() == Some(
            LiveCheckpointPublishPhase::WriteTemp,
        ),
        state is SyncTemp || state is SyncingTemp <==> state.in_phase() == Some(
            LiveCheckpointPublishPhase::SyncTemp,
        ),
        state is CloseTemp || state is ClosingTemp <==> state.in_phase() == Some(
            LiveCheckpointPublishPhase::CloseTemp,
        ),
        state is Rename || state is Renaming <==> state.in_phase() == Some(
            LiveCheckpointPublishPhase::Rename,
        ),
        state is SyncDir || state is SyncingDir <==> state.in_phase() == Some(
            LiveCheckpointPublishPhase::SyncDir,
        ),
{
}

} // verus!
