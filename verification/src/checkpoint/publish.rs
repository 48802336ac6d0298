//! Publishing a checkpoint image: open a temporary file, write the image piece
//! by piece, sync and close it, rename it and sync the directory. Any failure
//! after the open closes and unlinks the temporary file, and the first error is
//! the one reported.

use vstd::prelude::*;
use crate::checkpoint::io;
use crate::checkpoint::io::{
    judge_reap, release_result_buffer, result_name, temp_name, CheckpointRef, CompletionResult,
    CompletionToken, FileOpenMode, FileSyncMode, IoOp, ReapError, ReapStep, Reaped, TokenClass,
    DEFAULT_CHECKPOINT_IMAGE_REAP_LIMIT,
};
use crate::text;

verus! {

/// Where an image is published, under which token, and how patiently.
#[derive(Copy, Clone, Debug, PartialEq, Eq, Structural)]
pub struct CheckpointImagePublishConfig {
    pub dir: i32,
    pub token_slot: u32,
    pub token_generation: u32,
    pub max_reaps: u32,
}

impl CheckpointImagePublishConfig {
    /// Publishes into `dir` under slot `token_slot`, with the default limits.
    pub fn new(dir: i32, token_slot: u32) -> (r: CheckpointImagePublishConfig)
        ensures
            r == (CheckpointImagePublishConfig {
                dir,
                token_slot,
                token_generation: 0,
                max_reaps: DEFAULT_CHECKPOINT_IMAGE_REAP_LIMIT,
            }),
    {
        CheckpointImagePublishConfig {
            dir,
            token_slot,
            token_generation: 0,
            max_reaps: DEFAULT_CHECKPOINT_IMAGE_REAP_LIMIT,
        }
    }

    /// The same under another token generation.
    pub fn with_generation(self, token_generation: u32) -> (r: CheckpointImagePublishConfig)
        ensures
            r == (CheckpointImagePublishConfig { token_generation, ..self }),
    {
        CheckpointImagePublishConfig {
            dir: self.dir,
            token_slot: self.token_slot,
            token_generation,
            max_reaps: self.max_reaps,
        }
    }

    /// The same with another reap limit.
    pub fn with_max_reaps(self, max_reaps: u32) -> (r: CheckpointImagePublishConfig)
        ensures
            r == (CheckpointImagePublishConfig { max_reaps, ..self }),
    {
        CheckpointImagePublishConfig {
            dir: self.dir,
            token_slot: self.token_slot,
            token_generation: self.token_generation,
            max_reaps,
        }
    }
}

/// An image's footer: its section count and digest.
#[derive(Copy, Clone, Debug, PartialEq, Eq, Structural)]
pub struct CheckpointFooter {
    pub section_count: u32,
    pub digest: u64,
}

/// A published image.
#[derive(Copy, Clone, Debug, PartialEq, Eq, Structural)]
pub struct PublishedCheckpointImage {
    pub checkpoint: CheckpointRef,
    pub footer: CheckpointFooter,
    pub bytes_written: u64,
}

impl PublishedCheckpointImage {
    /// The checkpoint the image holds.
    pub fn checkpoint(self) -> (r: CheckpointRef)
        ensures
            r == self.checkpoint,
    {
        self.checkpoint
    }

    /// The image's footer.
    pub fn footer(self) -> (r: CheckpointFooter)
        ensures
            r == self.footer,
    {
        self.footer
    }

    /// The image's length.
    pub fn bytes_written(self) -> (r: u64)
        ensures
            r == self.bytes_written,
    {
        self.bytes_written
    }
}

/// Which part of a publication an operation belongs to.
#[derive(Copy, Clone, Debug, PartialEq, Eq, Structural)]
pub enum CheckpointImagePublishPhase {
    OpenTemp,
    WriteTemp,
    SyncTemp,
    CloseTemp,
    Rename,
    UnlinkTemp,
    SyncDir,
}

impl CheckpointImagePublishPhase {
    /// The phase's name.
    pub open spec fn label(self) -> Seq<char> {
        match self {
            CheckpointImagePublishPhase::OpenTemp => "open-temp"@,
            CheckpointImagePublishPhase::WriteTemp => "write-temp"@,
            CheckpointImagePublishPhase::SyncTemp => "sync-temp"@,
            CheckpointImagePublishPhase::CloseTemp => "close-temp"@,
            CheckpointImagePublishPhase::Rename => "rename"@,
            CheckpointImagePublishPhase::UnlinkTemp => "unlink-temp"@,
            CheckpointImagePublishPhase::SyncDir => "sync-dir"@,
        }
    }

    /// The phase's name.
    pub fn name(self) -> (r: &'static str)
        ensures
            r@ == self.label(),
    {
        match self {
            CheckpointImagePublishPhase::OpenTemp => "open-temp",
            CheckpointImagePublishPhase::WriteTemp => "write-temp",
            CheckpointImagePublishPhase::SyncTemp => "sync-temp",
            CheckpointImagePublishPhase::CloseTemp => "close-temp",
            CheckpointImagePublishPhase::Rename => "rename",
            CheckpointImagePublishPhase::UnlinkTemp => "unlink-temp",
            CheckpointImagePublishPhase::SyncDir => "sync-dir",
        }
    }
}

/// Why an image was not published.
#[derive(Debug)]
pub enum CheckpointImagePublishError {
    Encode(String),
    ScratchNotEmpty { len: usize },
    ZeroReapLimit,
    SectionCountTooLarge { count: usize, max_count: u32 },
    SectionCountMismatch { header: u32, sections: usize },
    SectionOrdinalMismatch { expected: u32, got: u32 },
    WriteBufferUnavailable,
    Backend { phase: CheckpointImagePublishPhase, source: String },
    UnexpectedCompletionCount { phase: CheckpointImagePublishPhase, expected: usize, got: usize },
    UnexpectedToken {
        phase: CheckpointImagePublishPhase,
        expected: CompletionToken,
        got: CompletionToken,
    },
    ReapLimitExceeded { phase: CheckpointImagePublishPhase, token: CompletionToken, attempts: u32 },
    OpenTemp { name: String, errno: i32 },
    WriteTemp { fd: i32, offset_bytes: u64, errno: i32 },
    MissingWriteBuffer { fd: i32, offset_bytes: u64, errno: i32 },
    SyncTemp { fd: i32, errno: i32 },
    CloseTemp { fd: i32, errno: i32 },
    Rename { old_name: String, new_name: String, errno: i32 },
    UnlinkTemp { name: String, errno: i32 },
    SyncDir { fd: i32, errno: i32 },
    UnexpectedCompletionKind { phase: CheckpointImagePublishPhase, result: CompletionResult },
}

impl CheckpointImagePublishError {
    /// The text of the error.
    pub open spec fn message_text(&self) -> Seq<char> {
        match *self {
            CheckpointImagePublishError::Encode(error) => "encode checkpoint image failed: "@ + error@,
            CheckpointImagePublishError::ScratchNotEmpty { len } => "checkpoint image publish scratch completions not empty: "@ + text::dec_chars(len as nat),
            CheckpointImagePublishError::ZeroReapLimit => "checkpoint image publish reap limit must be nonzero"@,
            CheckpointImagePublishError::SectionCountTooLarge { count, max_count } => "checkpoint image publish has "@ + text::dec_chars(count as nat) + " sections, above max "@ + text::dec_chars(max_count as nat),
            CheckpointImagePublishError::SectionCountMismatch { header, sections } => "checkpoint image header declares "@ + text::dec_chars(header as nat) + " sections, publish received "@ + text::dec_chars(sections as nat),
            CheckpointImagePublishError::SectionOrdinalMismatch { expected, got } => "checkpoint image section ordinal "@ + text::dec_chars(got as nat) + " does not match expected "@ + text::dec_chars(expected as nat),
            CheckpointImagePublishError::WriteBufferUnavailable => "checkpoint image publish could not lease a write buffer"@,
            CheckpointImagePublishError::Backend { phase, source } => "checkpoint image publish backend failed during "@ + phase.label() + ": "@ + source@,
            CheckpointImagePublishError::UnexpectedCompletionCount { phase, expected, got } => "checkpoint image publish "@ + phase.label() + " expected "@ + text::dec_chars(expected as nat) + " completion(s), got "@ + text::dec_chars(got as nat),
            CheckpointImagePublishError::UnexpectedToken { phase, expected, got } => "checkpoint image publish "@ + phase.label() + " got token "@ + got.label() + ", expected "@ + expected.label(),
            CheckpointImagePublishError::ReapLimitExceeded { phase, token, attempts } => "checkpoint image publish "@ + phase.label() + " saw no completion for "@ + token.label() + " after "@ + text::dec_chars(attempts as nat) + " reap attempts"@,
            CheckpointImagePublishError::OpenTemp { name, errno } => "open checkpoint temp file "@ + text::quoted(name@) + " failed with errno "@ + text::dec_int_chars(errno as int),
            CheckpointImagePublishError::WriteTemp { fd, offset_bytes, errno } => "write checkpoint temp fd "@ + text::dec_int_chars(fd as int) + " at offset "@ + text::dec_chars(offset_bytes as nat) + " failed with errno "@ + text::dec_int_chars(errno as int),
            CheckpointImagePublishError::MissingWriteBuffer { fd, offset_bytes, errno } => "write checkpoint temp fd "@ + text::dec_int_chars(fd as int) + " at offset "@ + text::dec_chars(offset_bytes as nat) + " failed with errno "@ + text::dec_int_chars(errno as int) + " without returning the buffer"@,
            CheckpointImagePublishError::SyncTemp { fd, errno } => "sync checkpoint temp fd "@ + text::dec_int_chars(fd as int) + " failed with errno "@ + text::dec_int_chars(errno as int),
            CheckpointImagePublishError::CloseTemp { fd, errno } => "close checkpoint temp fd "@ + text::dec_int_chars(fd as int) + " failed with errno "@ + text::dec_int_chars(errno as int),
            CheckpointImagePublishError::Rename { old_name, new_name, errno } => "rename checkpoint "@ + text::quoted(old_name@) + " to "@ + text::quoted(new_name@) + " failed with errno "@ + text::dec_int_chars(errno as int),
            CheckpointImagePublishError::UnlinkTemp { name, errno } => "unlink checkpoint temp file "@ + text::quoted(name@) + " failed with errno "@ + text::dec_int_chars(errno as int),
            CheckpointImagePublishError::SyncDir { fd, errno } => "sync checkpoint directory fd "@ + text::dec_int_chars(fd as int) + " failed with errno "@ + text::dec_int_chars(errno as int),
            CheckpointImagePublishError::UnexpectedCompletionKind { phase, result } => "checkpoint image publish "@ + phase.label() + " got unexpected completion kind "@ + result.label(),
        }
    }

    /// The text of the error.
    pub fn message(&self) -> (r: String)
        ensures
            r@ == self.message_text(),
    {
        match self {
            CheckpointImagePublishError::Encode(error) => {
                let mut out = text::owned("encode checkpoint image failed: ");
                out.append(error.as_str());
                out
            },
            CheckpointImagePublishError::ScratchNotEmpty { len } => {
                let mut out = text::owned("checkpoint image publish scratch completions not empty: ");
                text::append_dec(&mut out, *len as u64);
                out
            },
            CheckpointImagePublishError::ZeroReapLimit => text::owned("checkpoint image publish reap limit must be nonzero"),
            CheckpointImagePublishError::SectionCountTooLarge { count, max_count } => {
                let mut out = text::owned("checkpoint image publish has ");
                text::append_dec(&mut out, *count as u64);
                out.append(" sections, above max ");
                text::append_dec(&mut out, *max_count as u64);
                out
            },
            CheckpointImagePublishError::SectionCountMismatch { header, sections } => {
                let mut out = text::owned("checkpoint image header declares ");
                text::append_dec(&mut out, *header as u64);
                out.append(" sections, publish received ");
                text::append_dec(&mut out, *sections as u64);
                out
            },
            CheckpointImagePublishError::SectionOrdinalMismatch { expected, got } => {
                let mut out = text::owned("checkpoint image section ordinal ");
                text::append_dec(&mut out, *got as u64);
                out.append(" does not match expected ");
                text::append_dec(&mut out, *expected as u64);
                out
            },
            CheckpointImagePublishError::WriteBufferUnavailable => text::owned("checkpoint image publish could not lease a write buffer"),
            CheckpointImagePublishError::Backend { phase, source } => {
                let mut out = text::owned("checkpoint image publish backend failed during ");
                out.append(phase.name());
                out.append(": ");
                out.append(source.as_str());
                out
            },
            CheckpointImagePublishError::UnexpectedCompletionCount { phase, expected, got } => {
                let mut out = text::owned("checkpoint image publish ");
                out.append(phase.name());
                out.append(" expected ");
                text::append_dec(&mut out, *expected as u64);
                out.append(" completion(s), got ");
                text::append_dec(&mut out, *got as u64);
                out
            },
            CheckpointImagePublishError::UnexpectedToken { phase, expected, got } => {
                let mut out = text::owned("checkpoint image publish ");
                out.append(phase.name());
                out.append(" got token ");
                out.append(got.describe().as_str());
                out.append(", expected ");
                out.append(expected.describe().as_str());
                out
            },
            CheckpointImagePublishError::ReapLimitExceeded { phase, token, attempts } => {
                let mut out = text::owned("checkpoint image publish ");
                out.append(phase.name());
                out.append(" saw no completion for ");
                out.append(token.describe().as_str());
                out.append(" after ");
                text::append_dec(&mut out, *attempts as u64);
                out.append(" reap attempts");
                out
            },
            CheckpointImagePublishError::OpenTemp { name, errno } => {
                let mut out = text::owned("open checkpoint temp file ");
                out.append(text::quoted_string(name.as_str()).as_str());
                out.append(" failed with errno ");
                text::append_dec_int(&mut out, *errno as i64);
                out
            },
            CheckpointImagePublishError::WriteTemp { fd, offset_bytes, errno } => {
                let mut out = text::owned("write checkpoint temp fd ");
                text::append_dec_int(&mut out, *fd as i64);
                out.append(" at offset ");
                text::append_dec(&mut out, *offset_bytes as u64);
                out.append(" failed with errno ");
                text::append_dec_int(&mut out, *errno as i64);
                out
            },
            CheckpointImagePublishError::MissingWriteBuffer { fd, offset_bytes, errno } => {
                let mut out = text::owned("write checkpoint temp fd ");
                text::append_dec_int(&mut out, *fd as i64);
                out.append(" at offset ");
                text::append_dec(&mut out, *offset_bytes as u64);
                out.append(" failed with errno ");
                text::append_dec_int(&mut out, *errno as i64);
                out.append(" without returning the buffer");
                out
            },
            CheckpointImagePublishError::SyncTemp { fd, errno } => {
                let mut out = text::owned("sync checkpoint temp fd ");
                text::append_dec_int(&mut out, *fd as i64);
                out.append(" failed with errno ");
                text::append_dec_int(&mut out, *errno as i64);
                out
            },
            CheckpointImagePublishError::CloseTemp { fd, errno } => {
                let mut out = text::owned("close checkpoint temp fd ");
                text::append_dec_int(&mut out, *fd as i64);
                out.append(" failed with errno ");
                text::append_dec_int(&mut out, *errno as i64);
                out
            },
            CheckpointImagePublishError::Rename { old_name, new_name, errno } => {
                let mut out = text::owned("rename checkpoint ");
                out.append(text::quoted_string(old_name.as_str()).as_str());
                out.append(" to ");
                out.append(text::quoted_string(new_name.as_str()).as_str());
                out.append(" failed with errno ");
                text::append_dec_int(&mut out, *errno as i64);
                out
            },
            CheckpointImagePublishError::UnlinkTemp { name, errno } => {
                let mut out = text::owned("unlink checkpoint temp file ");
                out.append(text::quoted_string(name.as_str()).as_str());
                out.append(" failed with errno ");
                text::append_dec_int(&mut out, *errno as i64);
                out
            },
            CheckpointImagePublishError::SyncDir { fd, errno } => {
                let mut out = text::owned("sync checkpoint directory fd ");
                text::append_dec_int(&mut out, *fd as i64);
                out.append(" failed with errno ");
                text::append_dec_int(&mut out, *errno as i64);
                out
            },
            CheckpointImagePublishError::UnexpectedCompletionKind { phase, result } => {
                let mut out = text::owned("checkpoint image publish ");
                out.append(phase.name());
                out.append(" got unexpected completion kind ");
                out.append(result_name(result));
                out
            },
        }
    }
}

/// The inputs a publication starts from are sound: no completion left over
/// from another transfer, and at least one attempt to reap.
pub fn validate_publish_inputs(completions: usize, max_reaps: u32) -> (r: Result<
    (),
    CheckpointImagePublishError,
>)
    ensures
        r == (if completions != 0 {
            Err::<(), _>(CheckpointImagePublishError::ScratchNotEmpty { len: completions })
        } else if max_reaps == 0 {
            Err(CheckpointImagePublishError::ZeroReapLimit)
        } else {
            Ok(())
        }),
{
    if completions != 0 {
        return Err(CheckpointImagePublishError::ScratchNotEmpty { len: completions });
    }
    if max_reaps == 0 {
        return Err(CheckpointImagePublishError::ZeroReapLimit);
    }
    Ok(())
}

/// The first section whose ordinal is not its position.
pub open spec fn first_misplaced(ordinals: Seq<u32>, from: int) -> Option<int>
    decreases ordinals.len() - from,
{
    if from < 0 || from >= ordinals.len() {
        None
    } else if ordinals[from] != from as u32 {
        Some(from)
    } else {
        first_misplaced(ordinals, from + 1)
    }
}

/// The sections of an image match its header: as many as declared, no more
/// than an image can hold, each at its ordinal.
pub fn validate_publish_sections(declared: u32, ordinals: &[u32], max_sections: u32) -> (r: Result<
    (),
    CheckpointImagePublishError,
>)
    ensures
        r == (if ordinals@.len() > max_sections {
            Err::<(), _>(
                CheckpointImagePublishError::SectionCountTooLarge {
                    count: ordinals@.len() as usize,
                    max_count: max_sections,
                },
            )
        } else if declared != ordinals@.len() {
            Err(
                CheckpointImagePublishError::SectionCountMismatch {
                    header: declared,
                    sections: ordinals@.len() as usize,
                },
            )
        } else {
            match first_misplaced(ordinals@, 0) {
                Some(at) => Err(
                    CheckpointImagePublishError::SectionOrdinalMismatch {
                        expected: at as u32,
                        got: ordinals@[at],
                    },
                ),
                None => Ok(()),
            }
        }),
{
    if ordinals.len() > max_sections as usize {
        return Err(
            CheckpointImagePublishError::SectionCountTooLarge {
                count: ordinals.len(),
                max_count: max_sections,
            },
        );
    }
    if declared as usize != ordinals.len() {
        return Err(
            CheckpointImagePublishError::SectionCountMismatch {
                header: declared,
                sections: ordinals.len(),
            },
        );
    }
    let mut i: usize = 0;
    while i < ordinals.len()
        invariant
            i <= ordinals.len() <= max_sections,
            declared == ordinals@.len(),
            first_misplaced(ordinals@, 0) == first_misplaced(ordinals@, i as int),
        decreases ordinals.len() - i,
    {
        if ordinals[i] != i as u32 {
            return Err(
                CheckpointImagePublishError::SectionOrdinalMismatch {
                    expected: i as u32,
                    got: ordinals[i],
                },
            );
        }
        i += 1;
    }
    Ok(())
}

/// A piece of an image, or the error of one that could not be encoded.
#[derive(Debug)]
pub enum ImagePiece {
    Bytes(Vec<u8>),
    Failed(String),
}

/// A piece's bytes; none for a failed one.
pub open spec fn piece_bytes(piece: ImagePiece) -> Seq<u8> {
    match piece {
        ImagePiece::Bytes(bytes) => bytes@,
        ImagePiece::Failed(_) => Seq::empty(),
    }
}

/// The image the pieces make up.
pub open spec fn image_bytes(pieces: Seq<ImagePiece>) -> Seq<u8>
    decreases pieces.len(),
{
    if pieces.len() == 0 {
        Seq::empty()
    } else {
        image_bytes(pieces.drop_last()) + piece_bytes(pieces.last())
    }
}

proof fn lemma_piece_in_image(pieces: Seq<ImagePiece>, k: int)
    requires
        0 <= k < pieces.len(),
    ensures
        image_bytes(pieces.take(k + 1)) == image_bytes(pieces.take(k)) + piece_bytes(pieces[k]),
        image_bytes(pieces.take(k)).len() + piece_bytes(pieces[k]).len() <= image_bytes(
            pieces,
        ).len(),
        forall|a: int, b: int|
            0 <= a <= b <= piece_bytes(pieces[k]).len() ==> #[trigger] image_bytes(
                pieces,
            ).subrange(
                image_bytes(pieces.take(k)).len() + a,
                image_bytes(pieces.take(k)).len() + b,
            ) == piece_bytes(pieces[k]).subrange(a, b),
    decreases pieces.len(),
{
    assert(pieces.take(k + 1).drop_last() =~= pieces.take(k));
    assert(pieces.take(k + 1).last() == pieces[k]);
    let whole = image_bytes(pieces);
    let before = image_bytes(pieces.take(k));
    let own = piece_bytes(pieces[k]);
    if k == pieces.len() - 1 {
        assert(pieces.take(k + 1) =~= pieces);
        assert forall|a: int, b: int| 0 <= a <= b <= own.len() implies #[trigger] whole.subrange(
            before.len() + a,
            before.len() + b,
        ) == own.subrange(a, b) by {
            assert(whole.subrange(before.len() + a, before.len() + b) =~= own.subrange(a, b));
        }
    } else {
        let init = pieces.drop_last();
        lemma_piece_in_image(init, k);
        assert(init.take(k) =~= pieces.take(k));
        assert forall|a: int, b: int| 0 <= a <= b <= own.len() implies #[trigger] whole.subrange(
            before.len() + a,
            before.len() + b,
        ) == own.subrange(a, b) by {
            assert(image_bytes(init).subrange(before.len() + a, before.len() + b) == own.subrange(
                a,
                b,
            ));
            assert(whole.subrange(before.len() + a, before.len() + b) =~= image_bytes(
                init,
            ).subrange(before.len() + a, before.len() + b));
        }
    }
}

/// Publishes one image.
#[derive(Debug)]
pub struct ImagePublisher {
    pub dir: i32,
    pub token: CompletionToken,
    pub max_reaps: u32,
    pub checkpoint: CheckpointRef,
    pub footer: CheckpointFooter,
    pub temp_name: String,
    pub final_name: String,
    pub pieces: Vec<ImagePiece>,
    /// The piece being written, and how much of it was.
    pub piece: usize,
    pub at: usize,
    pub offset_bytes: u64,
    pub fd: i32,
    pub phase: CheckpointImagePublishPhase,
    /// Attempts to reap the operation in flight.
    pub attempts: u32,
    /// The write in flight: its buffer and length.
    pub buf: u32,
    pub chunk: usize,
    /// The first failure after the open.
    pub error: Option<CheckpointImagePublishError>,
}

/// What follows an attempt to reap.
#[derive(Debug)]
pub enum PublishStep {
    /// Reap again.
    Again,
    /// Issue the next operation.
    Next,
    Finished(Result<PublishedCheckpointImage, CheckpointImagePublishError>),
}

/// The publication's error for a failed reap.
pub open spec fn reap_failure(
    phase: CheckpointImagePublishPhase,
    error: ReapError,
) -> CheckpointImagePublishError {
    match error {
        ReapError::Backend(source) => CheckpointImagePublishError::Backend { phase, source },
        ReapError::UnexpectedCompletionCount { expected, got } => {
            CheckpointImagePublishError::UnexpectedCompletionCount { phase, expected, got }
        },
        ReapError::UnexpectedToken { expected, got } => {
            CheckpointImagePublishError::UnexpectedToken { phase, expected, got }
        },
        ReapError::ReapLimitExceeded { token, attempts } => {
            CheckpointImagePublishError::ReapLimitExceeded { phase, token, attempts }
        },
    }
}

fn reap_failure_of(phase: CheckpointImagePublishPhase, error: ReapError) -> (r:
    CheckpointImagePublishError)
    ensures
        r == reap_failure(phase, error),
{
    match error {
        ReapError::Backend(source) => CheckpointImagePublishError::Backend { phase, source },
        ReapError::UnexpectedCompletionCount { expected, got } => {
            CheckpointImagePublishError::UnexpectedCompletionCount { phase, expected, got }
        },
        ReapError::UnexpectedToken { expected, got } => {
            CheckpointImagePublishError::UnexpectedToken { phase, expected, got }
        },
        ReapError::ReapLimitExceeded { token, attempts } => {
            CheckpointImagePublishError::ReapLimitExceeded { phase, token, attempts }
        },
    }
}

impl ImagePublisher {
    /// The offset is what was written of the image, and all of it is written
    /// once the file is synced or renamed without an error.
    pub open spec fn wf(&self) -> bool {
        &&& self.piece <= self.pieces@.len()
        &&& self.piece < self.pieces@.len() ==> self.at + self.chunk <= piece_bytes(
            self.pieces@[self.piece as int],
        ).len()
        &&& self.piece == self.pieces@.len() ==> self.at == 0 && self.chunk == 0
        &&& self.offset_bytes == image_bytes(self.pieces@.take(self.piece as int)).len() + self.at
        &&& image_bytes(self.pieces@).len() <= u64::MAX
        &&& self.error is None && (self.phase is SyncTemp || self.phase is CloseTemp
            || self.phase is Rename || self.phase is SyncDir) ==> self.piece == self.pieces@.len()
        &&& self.phase is UnlinkTemp ==> self.error is Some
        &&& self.phase is OpenTemp || self.phase is WriteTemp || self.phase is SyncTemp
            || self.phase is Rename || self.phase is SyncDir ==> self.error is None
        &&& self.attempts <= self.max_reaps
        &&& self.max_reaps > 0
    }

    /// A publication about to open its temporary file.
    pub fn new(
        config: CheckpointImagePublishConfig,
        checkpoint: CheckpointRef,
        final_name: String,
        pieces: Vec<ImagePiece>,
        footer: CheckpointFooter,
    ) -> (r: ImagePublisher)
        requires
            image_bytes(pieces@).len() <= u64::MAX,
            config.max_reaps > 0,
        ensures
            r.wf(),
            r.dir == config.dir,
            r.token == (CompletionToken {
                class: TokenClass::File,
                slot: config.token_slot,
                generation: config.token_generation,
            }),
            r.max_reaps == config.max_reaps,
            r.checkpoint == checkpoint,
            r.footer == footer,
            r.temp_name@ == final_name@ + ".tmp"@,
            r.final_name == final_name,
            r.pieces == pieces,
            r.piece == 0,
            r.at == 0,
            r.offset_bytes == 0,
            r.fd == 0,
            r.phase is OpenTemp,
            r.attempts == 0,
            r.buf == 0,
            r.chunk == 0,
            r.error is None,
    {
        let temp = temp_name(final_name.as_str());
        let r = ImagePublisher {
            dir: config.dir,
            token: CompletionToken {
                class: TokenClass::File,
                slot: config.token_slot,
                generation: config.token_generation,
            },
            max_reaps: config.max_reaps,
            checkpoint,
            footer,
            temp_name: temp,
            final_name,
            pieces,
            piece: 0,
            at: 0,
            offset_bytes: 0,
            fd: 0,
            phase: CheckpointImagePublishPhase::OpenTemp,
            attempts: 0,
            buf: 0,
            chunk: 0,
            error: None,
        };
        proof {
            assert(r.pieces@.take(0) =~= Seq::empty());
        }
        r
    }

    /// Whether `next` stands at the next piece to write: every piece before it
    /// was written whole. Past the last piece the file is synced; a piece that
    /// could not be encoded ends the write.
    pub open spec fn settled(&self, next: ImagePublisher) -> bool {
        &&& self.piece <= next.piece <= self.pieces@.len()
        &&& forall|k: int| self.piece <= k < next.piece ==> #[trigger] self.pieces@[k] is Bytes
        &&& next.offset_bytes == self.offset_bytes
        &&& !(next.phase is CloseTemp) ==> next.error == self.error
        &&& match next.phase {
            CheckpointImagePublishPhase::WriteTemp => next.piece < self.pieces@.len() && next.at
                < piece_bytes(self.pieces@[next.piece as int]).len(),
            CheckpointImagePublishPhase::SyncTemp => next.piece == self.pieces@.len(),
            CheckpointImagePublishPhase::CloseTemp => next.piece < self.pieces@.len() && (
            self.pieces@[next.piece as int] matches ImagePiece::Failed(error) && next.error
                == Some(CheckpointImagePublishError::Encode(error))),
            _ => false,
        }
    }

    /// Moves past pieces that are written, and past the write phase when the
    /// last one is, or when one could not be encoded.
    fn settle_pieces(&mut self)
        requires
            old(self).wf(),
            old(self).phase is WriteTemp,
            old(self).chunk == 0,
        ensures
            final(self).wf(),
            final(self).chunk == 0,
            old(self).settled(*final(self)),
            *final(self) == (ImagePublisher {
                piece: final(self).piece,
                at: final(self).at,
                phase: final(self).phase,
                error: final(self).error,
                ..*old(self)
            }),
    {
        while self.piece < self.pieces.len()
            invariant
                self.wf(),
                self.phase is WriteTemp,
                self.chunk == 0,
                self.offset_bytes == old(self).offset_bytes,
                old(self).piece <= self.piece,
                forall|k: int|
                    old(self).piece <= k < self.piece ==> #[trigger] self.pieces@[k] is Bytes,
                *self == (ImagePublisher { piece: self.piece, at: self.at, ..*old(self) }),
            decreases self.pieces@.len() - self.piece,
        {
            let mut failed: Option<String> = None;
            match &self.pieces[self.piece] {
                ImagePiece::Bytes(bytes) => {
                    if self.at < bytes.len() {
                        return ;
                    }
                },
                ImagePiece::Failed(error) => {
                    failed = Some(error.clone());
                },
            }
            if let Some(error) = failed {
                self.error = Some(CheckpointImagePublishError::Encode(error));
                self.phase = CheckpointImagePublishPhase::CloseTemp;
                return ;
            }
            proof {
                lemma_piece_in_image(self.pieces@, self.piece as int);
            }
            self.piece += 1;
            self.at = 0;
        }
        self.phase = CheckpointImagePublishPhase::SyncTemp;
    }

    /// Whether the next operation is a write and needs a buffer. Finds the
    /// next piece to write.
    pub fn wants_buffer(&mut self) -> (r: bool)
        requires
            old(self).wf(),
            old(self).chunk == 0,
        ensures
            final(self).wf(),
            final(self).chunk == 0,
            r == (final(self).phase is WriteTemp),
            !(old(self).phase is WriteTemp) ==> *final(self) == *old(self),
            old(self).phase is WriteTemp ==> old(self).settled(*final(self)),
            *final(self) == (ImagePublisher {
                piece: final(self).piece,
                at: final(self).at,
                phase: final(self).phase,
                error: final(self).error,
                ..*old(self)
            }),
    {
        if self.phase == CheckpointImagePublishPhase::WriteTemp {
            self.settle_pieces();
        }
        self.phase == CheckpointImagePublishPhase::WriteTemp
    }

    /// Whether `op` is the operation owed in a phase. A write carries the next
    /// bytes of the image, at their place.
    pub open spec fn owes(&self, buf_size: usize, buf: u32, op: io::Op) -> bool {
        match self.phase {
            CheckpointImagePublishPhase::OpenTemp => op == (io::Op::Open {
                dir: self.dir,
                name: self.temp_name@,
                mode: FileOpenMode::ReadWriteCreateTruncate,
                token: self.token,
            }),
            CheckpointImagePublishPhase::WriteTemp => {
                let n = io::chunk_len(
                    buf_size,
                    piece_bytes(self.pieces@[self.piece as int]).len() - self.at,
                );
                op == (io::Op::Write {
                    fd: self.fd,
                    offset: self.offset_bytes,
                    buf,
                    data: image_bytes(self.pieces@).subrange(
                        self.offset_bytes as int,
                        self.offset_bytes + n,
                    ),
                    token: self.token,
                })
            },
            CheckpointImagePublishPhase::SyncTemp => op == (io::Op::Sync {
                fd: self.fd,
                mode: FileSyncMode::DataOnly,
                token: self.token,
            }),
            CheckpointImagePublishPhase::CloseTemp => op == (io::Op::Close {
                fd: self.fd,
                token: self.token,
            }),
            CheckpointImagePublishPhase::Rename => op == (io::Op::Rename {
                old_dir: self.dir,
                old_name: self.temp_name@,
                new_dir: self.dir,
                new_name: self.final_name@,
                token: self.token,
            }),
            CheckpointImagePublishPhase::UnlinkTemp => op == (io::Op::Unlink {
                dir: self.dir,
                name: self.temp_name@,
                token: self.token,
            }),
            CheckpointImagePublishPhase::SyncDir => op == (io::Op::Sync {
                fd: self.dir,
                mode: FileSyncMode::Full,
                token: self.token,
            }),
        }
    }

    /// Whether `op` is what a publication issues, and `next` where that leaves
    /// it. A write without a buffer fails the publication.
    pub open spec fn issues(
        &self,
        buf_size: usize,
        buf: Option<u32>,
        op: io::Op,
        next: ImagePublisher,
    ) -> bool {
        if self.phase is WriteTemp && buf is None {
            &&& op == (io::Op::Close { fd: self.fd, token: self.token })
            &&& next == (ImagePublisher {
                phase: CheckpointImagePublishPhase::CloseTemp,
                error: Some(CheckpointImagePublishError::WriteBufferUnavailable),
                attempts: 0,
                ..*self
            })
        } else {
            &&& self.owes(buf_size, buf->0, op)
            &&& next == (ImagePublisher {
                attempts: 0,
                buf: if self.phase is WriteTemp {
                    buf->0
                } else {
                    self.buf
                },
                chunk: if self.phase is WriteTemp {
                    io::chunk_len(
                        buf_size,
                        piece_bytes(self.pieces@[self.piece as int]).len() - self.at,
                    ) as usize
                } else {
                    0
                },
                ..*self
            })
        }
    }

    /// Issues the operation the phase owes. `buf` is the leased write buffer:
    /// without one a write fails the publication, and the close is issued.
    pub fn issue(&mut self, buf_size: usize, buf: Option<u32>) -> (r: IoOp)
        requires
            old(self).wf(),
            old(self).chunk == 0,
            buf_size > 0,
            old(self).phase is WriteTemp ==> old(self).piece < old(self).pieces@.len() && old(
                self).at < piece_bytes(old(self).pieces@[old(self).piece as int]).len(),
        ensures
            final(self).wf(),
            old(self).issues(buf_size, buf, r@, *final(self)),
    {
        self.attempts = 0;
        if self.phase == CheckpointImagePublishPhase::WriteTemp {
            match buf {
                None => {
                    self.error = Some(CheckpointImagePublishError::WriteBufferUnavailable);
                    self.phase = CheckpointImagePublishPhase::CloseTemp;
                },
                Some(buf) => {
                    let mut data: Vec<u8> = Vec::new();
                    if let ImagePiece::Bytes(bytes) = &self.pieces[self.piece] {
                        let left: usize = bytes.len() - self.at;
                        let n: usize = if buf_size <= left {
                            buf_size
                        } else {
                            left
                        };
                        data =
                        text::copy_bytes(
                            vstd::slice::slice_subrange(bytes.as_slice(), self.at, self.at + n),
                        );
                    }
                    proof {
                        lemma_piece_in_image(self.pieces@, self.piece as int);
                        let own = piece_bytes(self.pieces@[self.piece as int]);
                        let before = image_bytes(self.pieces@.take(self.piece as int));
                        let n = io::chunk_len(buf_size, own.len() - self.at);
                        assert(image_bytes(self.pieces@).subrange(
                            before.len() + self.at,
                            before.len() + (self.at + n),
                        ) == own.subrange(self.at as int, self.at + n));
                    }
                    self.buf = buf;
                    self.chunk = data.len();
                    return IoOp::FileWriteAt {
                        fd: self.fd,
                        offset_bytes: self.offset_bytes,
                        buf,
                        data,
                        token: self.token,
                    };
                },
            }
        }
        match self.phase {
            CheckpointImagePublishPhase::OpenTemp => IoOp::FileOpen {
                dir: self.dir,
                name: self.temp_name.clone(),
                mode: FileOpenMode::ReadWriteCreateTruncate,
                token: self.token,
            },
            CheckpointImagePublishPhase::SyncTemp => IoOp::FileSync {
                fd: self.fd,
                mode: FileSyncMode::DataOnly,
                token: self.token,
            },
            CheckpointImagePublishPhase::Rename => IoOp::FileRename {
                old_dir: self.dir,
                old_name: self.temp_name.clone(),
                new_dir: self.dir,
                new_name: self.final_name.clone(),
                token: self.token,
            },
            CheckpointImagePublishPhase::UnlinkTemp => IoOp::FileUnlink {
                dir: self.dir,
                name: self.temp_name.clone(),
                token: self.token,
            },
            CheckpointImagePublishPhase::SyncDir => IoOp::FileSync {
                fd: self.dir,
                mode: FileSyncMode::Full,
                token: self.token,
            },
            _ => IoOp::FileClose { fd: self.fd, token: self.token },
        }
    }

    /// The result that means the phase's operation succeeded.
    pub open spec fn succeeded(&self, result: CompletionResult) -> bool {
        match self.phase {
            CheckpointImagePublishPhase::OpenTemp => result is FileOpened,
            CheckpointImagePublishPhase::WriteTemp => result is FileWritten,
            CheckpointImagePublishPhase::CloseTemp => result is FileClosed,
            _ => result is FileDone,
        }
    }

    /// The error of a result that is no success.
    pub open spec fn failure(&self, result: CompletionResult) -> CheckpointImagePublishError {
        match (self.phase, result) {
            (CheckpointImagePublishPhase::WriteTemp, CompletionResult::Error {
                errno,
                buf: Some(_),
            }) => CheckpointImagePublishError::WriteTemp {
                fd: self.fd,
                offset_bytes: self.offset_bytes,
                errno,
            },
            (CheckpointImagePublishPhase::WriteTemp, CompletionResult::Error {
                errno,
                buf: None,
            }) => CheckpointImagePublishError::MissingWriteBuffer {
                fd: self.fd,
                offset_bytes: self.offset_bytes,
                errno,
            },
            (CheckpointImagePublishPhase::OpenTemp, CompletionResult::Error {
                errno,
                buf: None,
            }) => CheckpointImagePublishError::OpenTemp { name: self.temp_name, errno },
            (CheckpointImagePublishPhase::SyncTemp, CompletionResult::Error {
                errno,
                buf: None,
            }) => CheckpointImagePublishError::SyncTemp { fd: self.fd, errno },
            (CheckpointImagePublishPhase::CloseTemp, CompletionResult::Error {
                errno,
                buf: None,
            }) => CheckpointImagePublishError::CloseTemp { fd: self.fd, errno },
            (CheckpointImagePublishPhase::Rename, CompletionResult::Error {
                errno,
                buf: None,
            }) => CheckpointImagePublishError::Rename {
                old_name: self.temp_name,
                new_name: self.final_name,
                errno,
            },
            (CheckpointImagePublishPhase::UnlinkTemp, CompletionResult::Error {
                errno,
                buf: None,
            }) => CheckpointImagePublishError::UnlinkTemp { name: self.temp_name, errno },
            (CheckpointImagePublishPhase::SyncDir, CompletionResult::Error {
                errno,
                buf: None,
            }) => CheckpointImagePublishError::SyncDir { fd: self.dir, errno },
            (phase, result) => CheckpointImagePublishError::UnexpectedCompletionKind {
                phase,
                result,
            },
        }
    }

    fn failure_of(&self, result: CompletionResult) -> (r: CheckpointImagePublishError)
        ensures
            r == self.failure(result),
    {
        let phase = self.phase;
        match result {
            CompletionResult::Error { errno, buf: Some(_) } => match phase {
                CheckpointImagePublishPhase::WriteTemp => CheckpointImagePublishError::WriteTemp {
                    fd: self.fd,
                    offset_bytes: self.offset_bytes,
                    errno,
                },
                _ => CheckpointImagePublishError::UnexpectedCompletionKind { phase, result },
            },
            CompletionResult::Error { errno, buf: None } => match phase {
                CheckpointImagePublishPhase::OpenTemp => CheckpointImagePublishError::OpenTemp {
                    name: self.temp_name.clone(),
                    errno,
                },
                CheckpointImagePublishPhase::WriteTemp => {
                    CheckpointImagePublishError::MissingWriteBuffer {
                        fd: self.fd,
                        offset_bytes: self.offset_bytes,
                        errno,
                    }
                },
                CheckpointImagePublishPhase::SyncTemp => CheckpointImagePublishError::SyncTemp {
                    fd: self.fd,
                    errno,
                },
                CheckpointImagePublishPhase::CloseTemp => CheckpointImagePublishError::CloseTemp {
                    fd: self.fd,
                    errno,
                },
                CheckpointImagePublishPhase::Rename => CheckpointImagePublishError::Rename {
                    old_name: self.temp_name.clone(),
                    new_name: self.final_name.clone(),
                    errno,
                },
                CheckpointImagePublishPhase::UnlinkTemp => CheckpointImagePublishError::UnlinkTemp {
                    name: self.temp_name.clone(),
                    errno,
                },
                CheckpointImagePublishPhase::SyncDir => CheckpointImagePublishError::SyncDir {
                    fd: self.dir,
                    errno,
                },
            },
            _ => CheckpointImagePublishError::UnexpectedCompletionKind { phase, result },
        }
    }

    /// Whether `step` and `next` are what the publication makes of its
    /// operation's outcome: the result, or the error that stands for it.
    pub open spec fn advances(
        &self,
        outcome: Result<CompletionResult, CheckpointImagePublishError>,
        step: PublishStep,
        next: ImagePublisher,
    ) -> bool {
        let rested = ImagePublisher { chunk: 0, ..*self };
        match (self.phase, outcome) {
            (CheckpointImagePublishPhase::OpenTemp, Ok(CompletionResult::FileOpened { fd })) => {
                step is Next && next == (ImagePublisher {
                    fd,
                    phase: CheckpointImagePublishPhase::WriteTemp,
                    ..rested
                })
            },
            (CheckpointImagePublishPhase::OpenTemp, Err(error)) => step == PublishStep::Finished(
                Err(error),
            ),
            (CheckpointImagePublishPhase::WriteTemp, Ok(_)) => step is Next && next == (
            ImagePublisher {
                at: (self.at + self.chunk) as usize,
                offset_bytes: (self.offset_bytes + self.chunk) as u64,
                ..rested
            }),
            (CheckpointImagePublishPhase::WriteTemp, Err(error)) => step is Next && next == (
            ImagePublisher {
                error: Some(error),
                phase: CheckpointImagePublishPhase::CloseTemp,
                ..rested
            }),
            (CheckpointImagePublishPhase::SyncTemp, Ok(_)) => step is Next && next == (
            ImagePublisher { phase: CheckpointImagePublishPhase::CloseTemp, ..rested }),
            (CheckpointImagePublishPhase::SyncTemp, Err(error)) => step is Next && next == (
            ImagePublisher {
                error: Some(error),
                phase: CheckpointImagePublishPhase::CloseTemp,
                ..rested
            }),
            (CheckpointImagePublishPhase::CloseTemp, Ok(_)) => step is Next && next == (
            ImagePublisher {
                phase: if self.error is Some {
                    CheckpointImagePublishPhase::UnlinkTemp
                } else {
                    CheckpointImagePublishPhase::Rename
                },
                ..rested
            }),
            (CheckpointImagePublishPhase::CloseTemp, Err(error)) => step is Next && next == (
            ImagePublisher {
                error: if self.error is Some {
                    self.error
                } else {
                    Some(error)
                },
                phase: CheckpointImagePublishPhase::UnlinkTemp,
                ..rested
            }),
            (CheckpointImagePublishPhase::Rename, Ok(_)) => step is Next && next == (
            ImagePublisher { phase: CheckpointImagePublishPhase::SyncDir, ..rested }),
            (CheckpointImagePublishPhase::Rename, Err(error)) => step is Next && next == (
            ImagePublisher {
                error: Some(error),
                phase: CheckpointImagePublishPhase::UnlinkTemp,
                ..rested
            }),
            (CheckpointImagePublishPhase::UnlinkTemp, _) => step == PublishStep::Finished(
                Err(self.error->0),
            ),
            (CheckpointImagePublishPhase::SyncDir, Ok(_)) => step == PublishStep::Finished(
                Ok(
                    PublishedCheckpointImage {
                        checkpoint: self.checkpoint,
                        footer: self.footer,
                        bytes_written: self.offset_bytes,
                    },
                ),
            ),
            (CheckpointImagePublishPhase::SyncDir, Err(error)) => step == PublishStep::Finished(
                Err(error),
            ),
            _ => false,
        }
    }

    fn advance(&mut self, outcome: Result<CompletionResult, CheckpointImagePublishError>) -> (r:
        PublishStep)
        requires
            old(self).wf(),
            outcome matches Ok(result) ==> old(self).succeeded(result),
        ensures
            old(self).advances(outcome, r, *final(self)),
            !(r is Finished) ==> final(self).wf() && final(self).chunk == 0,
            !(r is Again),
    {
        let chunk: usize = self.chunk;
        self.chunk = 0;
        proof {
            if self.piece < self.pieces@.len() {
                lemma_piece_in_image(self.pieces@, self.piece as int);
            }
        }
        match self.phase {
            CheckpointImagePublishPhase::OpenTemp => match outcome {
                Ok(result) => {
                    if let CompletionResult::FileOpened { fd } = result {
                        self.fd = fd;
                    }
                    self.phase = CheckpointImagePublishPhase::WriteTemp;
                    PublishStep::Next
                },
                Err(error) => PublishStep::Finished(Err(error)),
            },
            CheckpointImagePublishPhase::WriteTemp => {
                match outcome {
                    Ok(_) => {
                        if self.piece < self.pieces.len() {
                            match &self.pieces[self.piece] {
                                ImagePiece::Bytes(bytes) => {
                                    assert(self.at + chunk <= bytes.len());
                                },
                                ImagePiece::Failed(_) => {},
                            }
                        }
                        self.at += chunk;
                        self.offset_bytes += chunk as u64;
                    },
                    Err(error) => {
                        self.error = Some(error);
                        self.phase = CheckpointImagePublishPhase::CloseTemp;
                    },
                }
                PublishStep::Next
            },
            CheckpointImagePublishPhase::SyncTemp => {
                if let Err(error) = outcome {
                    self.error = Some(error);
                }
                self.phase = CheckpointImagePublishPhase::CloseTemp;
                PublishStep::Next
            },
            CheckpointImagePublishPhase::CloseTemp => {
                if self.error.is_none() {
                    match outcome {
                        Ok(_) => {
                            self.phase = CheckpointImagePublishPhase::Rename;
                            return PublishStep::Next;
                        },
                        Err(error) => {
                            self.error = Some(error);
                        },
                    }
                }
                self.phase = CheckpointImagePublishPhase::UnlinkTemp;
                PublishStep::Next
            },
            CheckpointImagePublishPhase::Rename => {
                match outcome {
                    Ok(_) => {
                        self.phase = CheckpointImagePublishPhase::SyncDir;
                    },
                    Err(error) => {
                        self.error = Some(error);
                        self.phase = CheckpointImagePublishPhase::UnlinkTemp;
                    },
                }
                PublishStep::Next
            },
            CheckpointImagePublishPhase::UnlinkTemp => {
                let mut first: Option<CheckpointImagePublishError> = None;
                std::mem::swap(&mut first, &mut self.error);
                match first {
                    Some(error) => PublishStep::Finished(Err(error)),
                    None => PublishStep::Finished(Err(CheckpointImagePublishError::ZeroReapLimit)),
                }
            },
            CheckpointImagePublishPhase::SyncDir => match outcome {
                Ok(_) => PublishStep::Finished(
                    Ok(
                        PublishedCheckpointImage {
                            checkpoint: self.checkpoint,
                            footer: self.footer,
                            bytes_written: self.offset_bytes,
                        },
                    ),
                ),
                Err(error) => PublishStep::Finished(Err(error)),
            },
        }
    }

    /// The same after one more attempt to reap.
    pub open spec fn tried(&self) -> ImagePublisher {
        ImagePublisher { attempts: (self.attempts + 1) as u32, ..*self }
    }

    /// A write's completion returns the buffer the write was issued with.
    pub open spec fn returns_own_buffer(&self, reaped: Reaped) -> bool {
        match reaped {
            Reaped::One(completion) => completion.token == self.token && self.phase is WriteTemp
                ==> match completion.result {
                CompletionResult::FileWritten { buf } => buf == self.buf,
                CompletionResult::Error { buf: Some(buf), .. } => buf == self.buf,
                _ => true,
            },
            _ => true,
        }
    }

    /// Takes one attempt to reap the operation in flight. Returns what follows
    /// and the buffer to release.
    pub fn reaped(&mut self, reaped: Reaped) -> (r: (PublishStep, Option<u32>))
        requires
            old(self).wf(),
            old(self).attempts < old(self).max_reaps,
            old(self).returns_own_buffer(reaped),
        ensures
            match io::reap_owed(
                reaped,
                old(self).token,
                old(self).attempts + 1,
                old(self).max_reaps,
            ) {
                ReapStep::Again => r.0 is Again && r.1 is None && *final(self) == old(self).tried(),
                ReapStep::Fail { error, release } => r.1 == release && old(self).tried().advances(
                    Err(reap_failure(old(self).phase, error)),
                    r.0,
                    *final(self),
                ),
                ReapStep::Done(result) => r.1 == result.returned() && old(self).tried().advances(
                    if old(self).succeeded(result) {
                        Ok(result)
                    } else {
                        Err(old(self).failure(result))
                    },
                    r.0,
                    *final(self),
                ),
            },
            r.0 is Next ==> final(self).wf() && final(self).chunk == 0,
            r.0 is Again ==> final(self).wf() && final(self).attempts < final(self).max_reaps,
    {
        let token = self.token;
        let max_reaps: u32 = self.max_reaps;
        self.attempts += 1;
        let step = judge_reap(reaped, token, self.attempts, max_reaps);
        match step {
            ReapStep::Again => (PublishStep::Again, None),
            ReapStep::Fail { error, release } => {
                let failure = reap_failure_of(self.phase, error);
                (self.advance(Err(failure)), release)
            },
            ReapStep::Done(result) => {
                let release = release_result_buffer(&result);
                let ok = match self.phase {
                    CheckpointImagePublishPhase::OpenTemp => match result {
                        CompletionResult::FileOpened { .. } => true,
                        _ => false,
                    },
                    CheckpointImagePublishPhase::WriteTemp => match result {
                        CompletionResult::FileWritten { .. } => true,
                        _ => false,
                    },
                    CheckpointImagePublishPhase::CloseTemp => result
                        == CompletionResult::FileClosed,
                    _ => result == CompletionResult::FileDone,
                };
                if ok {
                    (self.advance(Ok(result)), release)
                } else {
                    let failure = self.failure_of(result);
                    (self.advance(Err(failure)), release)
                }
            },
        }
    }
}

/// A publication succeeds only whole: when the directory sync lands, every byte
/// of the image was written and the image is as long as reported.
pub proof fn law_published_image_is_whole(
    p: ImagePublisher,
    outcome: Result<CompletionResult, CheckpointImagePublishError>,
    published: PublishedCheckpointImage,
    next: ImagePublisher,
)
    requires
        p.wf(),
        p.advances(outcome, PublishStep::Finished(Ok(published)), next),
    ensures
        p.phase is SyncDir,
        published.checkpoint == p.checkpoint,
        published.bytes_written == image_bytes(p.pieces@).len(),
{
    assert(p.pieces@.take(p.pieces@.len() as int) =~= p.pieces@);
}

/// A failed write, sync or close never leads to a rename: the temporary file is
/// unlinked, and the first error is reported.
pub proof fn law_failed_image_is_unlinked(
    p: ImagePublisher,
    outcome: Result<CompletionResult, CheckpointImagePublishError>,
    step: PublishStep,
    next: ImagePublisher,
)
    requires
        p.advances(outcome, step, next),
        p.phase is CloseTemp,
        p.error is Some || outcome is Err,
    ensures
        step is Next,
        next.phase is UnlinkTemp,
        next.error is Some,
        p.error is Some ==> next.error == p.error,
{
}

/// One turn of a publication: the publisher before it, at the next piece to
/// write, with its operation issued, and after the reaps; the buffers at hand;
/// the operation, its outcome, and what follows.
pub struct Turn {
    pub start: ImagePublisher,
    pub ready: ImagePublisher,
    pub issued: ImagePublisher,
    pub next: ImagePublisher,
    pub buf_size: usize,
    pub buf: Option<u32>,
    pub op: io::Op,
    /// How often the operation was reaped.
    pub attempts: u32,
    pub outcome: Result<CompletionResult, CheckpointImagePublishError>,
    pub step: PublishStep,
}

impl Turn {
    /// Whether the turn is one that a publisher takes: the next piece is found,
    /// the operation is issued, and its outcome is taken.
    #[verifier::opaque]
    pub open spec fn sound(self) -> bool {
        &&& self.buf_size > 0
        &&& if self.start.phase is WriteTemp {
            self.start.settled(self.ready) && self.ready == (ImagePublisher {
                piece: self.ready.piece,
                at: self.ready.at,
                phase: self.ready.phase,
                error: self.ready.error,
                ..self.start
            })
        } else {
            self.ready == self.start
        }
        &&& self.ready.wf()
        &&& self.ready.chunk == 0
        &&& self.ready.issues(self.buf_size, self.buf, self.op, self.issued)
        &&& self.issued.wf()
        &&& self.outcome matches Ok(result) ==> self.issued.succeeded(result)
        &&& (ImagePublisher { attempts: self.attempts, ..self.issued }).advances(
            self.outcome,
            self.step,
            self.next,
        )
        &&& self.step is Next ==> self.next.wf() && self.next.chunk == 0
    }
}

/// Whether the turn after turn `i` starts where that one ended.
pub open spec fn leads_on(turns: Seq<Turn>, i: int) -> bool {
    turns[i].step is Next && turns[i + 1].start == turns[i].next
}

/// Whether turns make up a whole publication, from its start to its end.
pub open spec fn runs(turns: Seq<Turn>) -> bool {
    &&& turns.len() > 0
    &&& turns[0].start.wf()
    &&& turns[0].start.phase is OpenTemp
    &&& turns[0].start.piece == 0
    &&& turns[0].start.at == 0
    &&& turns[0].start.chunk == 0
    &&& forall|i: int| 0 <= i < turns.len() ==> (#[trigger] turns[i]).sound()
    &&& forall|i: int|
        0 <= i < turns.len() ==> ((#[trigger] turns[i]).step is Finished <==> i == turns.len() - 1)
    &&& forall|i: int| 0 <= i < turns.len() - 1 ==> #[trigger] leads_on(turns, i)
}

/// The bytes that the writes among turns `from` to `to` put down.
pub open spec fn written(turns: Seq<Turn>, from: int, to: int) -> Seq<u8>
    decreases to - from,
{
    if to <= from {
        Seq::empty()
    } else {
        written(turns, from, to - 1) + (match turns[to - 1].op {
            io::Op::Write { data, .. } => data,
            _ => Seq::empty(),
        })
    }
}

/// Whether turn `i` writes what follows the bytes written since turn 1.
pub open spec fn writes_on(turns: Seq<Turn>, fd: i32, i: int) -> bool {
    &&& turns[i].op matches io::Op::Write { fd: f, offset, data, token, .. }
    &&& f == fd
    &&& token == turns[0].start.token
    &&& offset == written(turns, 1, i).len()
    &&& data.len() > 0
}

/// Whether a publication goes in order, with `w` writes: the temporary file is
/// opened, contiguous writes spell the image, its data is synced, the file is
/// closed and renamed, and the directory is synced; the image is then reported
/// at its length.
pub open spec fn in_order(turns: Seq<Turn>, w: int) -> bool {
    let p = turns[0].start;
    let fd = turns[0].next.fd;
    &&& w >= 0
    &&& turns.len() == w + 5
    &&& turns[0].op == (io::Op::Open {
        dir: p.dir,
        name: p.temp_name@,
        mode: FileOpenMode::ReadWriteCreateTruncate,
        token: p.token,
    })
    &&& forall|i: int| 1 <= i <= w ==> #[trigger] writes_on(turns, fd, i)
    &&& written(turns, 1, w + 1) == image_bytes(p.pieces@)
    &&& turns[w + 1].op == (io::Op::Sync { fd, mode: FileSyncMode::DataOnly, token: p.token })
    &&& turns[w + 2].op == (io::Op::Close { fd, token: p.token })
    &&& turns[w + 3].op == (io::Op::Rename {
        old_dir: p.dir,
        old_name: p.temp_name@,
        new_dir: p.dir,
        new_name: p.final_name@,
        token: p.token,
    })
    &&& turns[w + 4].op == (io::Op::Sync { fd: p.dir, mode: FileSyncMode::Full, token: p.token })
    &&& turns[w + 4].step == PublishStep::Finished(
        Ok(
            PublishedCheckpointImage {
                checkpoint: p.checkpoint,
                footer: p.footer,
                bytes_written: image_bytes(p.pieces@).len() as u64,
            },
        ),
    )
}

/// A publication of an encoded image in which every operation succeeds, with a
/// buffer for every write, goes in order.
pub proof fn law_publication_order(turns: Seq<Turn>)
    requires
        runs(turns),
        forall|i: int| 0 <= i < turns.len() ==> (#[trigger] turns[i]).outcome is Ok,
        forall|i: int|
            0 <= i < turns.len() && (#[trigger] turns[i]).ready.phase is WriteTemp
                ==> turns[i].buf is Some,
        forall|k: int|
            0 <= k < turns[0].start.pieces@.len() ==> #[trigger] turns[0].start.pieces@[k] is Bytes,
    ensures
        exists|w: int| #[trigger] in_order(turns, w),
{
    let p = turns[0].start;
    assert(turns[0].sound());
    lemma_opened(turns[0]);
    assert(p.pieces@.take(0) =~= Seq::empty());
    assert(image_bytes(p.pieces@).take(0) =~= Seq::empty());
    assert(leads_on(turns, 0));
    let w = lemma_writes(turns, 1);
    assert(in_order(turns, w));
}

/// What a file's turns leave as it was.
spec fn carries_on(t: Turn) -> bool {
    &&& t.step is Next
    &&& same_publication(t.next, t.start)
    &&& t.next.wf()
    &&& t.next.chunk == 0
}

proof fn lemma_opened(t: Turn)
    requires
        t.sound(),
        t.start.phase is OpenTemp,
        t.outcome is Ok,
    ensures
        carries_on(t),
        t.next.phase is WriteTemp,
        t.next.offset_bytes == t.start.offset_bytes,
        t.op == (io::Op::Open {
            dir: t.start.dir,
            name: t.start.temp_name@,
            mode: FileOpenMode::ReadWriteCreateTruncate,
            token: t.start.token,
        }),
{
    reveal(Turn::sound);
}

proof fn lemma_wrote(t: Turn)
    requires
        t.sound(),
        t.start.phase is WriteTemp,
        t.ready.phase is WriteTemp,
        t.buf is Some,
        t.outcome is Ok,
    ensures
        carries_on(t),
        t.next.phase is WriteTemp,
        t.next.fd == t.start.fd,
        t.start.offset_bytes < t.next.offset_bytes,
        t.next.offset_bytes <= image_bytes(t.start.pieces@).len(),
        t.op == (io::Op::Write {
            fd: t.start.fd,
            offset: t.start.offset_bytes,
            buf: t.buf->0,
            data: image_bytes(t.start.pieces@).subrange(
                t.start.offset_bytes as int,
                t.next.offset_bytes as int,
            ),
            token: t.start.token,
        }),
{
    reveal(Turn::sound);
    let r = t.ready;
    let pieces = t.start.pieces@;
    lemma_piece_in_image(pieces, r.piece as int);
    lemma_piece_len_fits(pieces, r.piece as int);
    let own = piece_bytes(pieces[r.piece as int]);
    let n = io::chunk_len(t.buf_size, own.len() - r.at);
    assert(0 < n <= own.len() - r.at);
    assert(t.issued.chunk == n);
}

proof fn lemma_synced(t: Turn)
    requires
        t.sound(),
        t.start.phase is WriteTemp,
        !(t.ready.phase is WriteTemp),
        t.outcome is Ok,
        forall|k: int|
            0 <= k < t.start.pieces@.len() ==> #[trigger] t.start.pieces@[k] is Bytes,
    ensures
        carries_on(t),
        t.next.phase is CloseTemp,
        t.next.error is None,
        t.next.fd == t.start.fd,
        t.next.offset_bytes == t.start.offset_bytes,
        t.start.offset_bytes == image_bytes(t.start.pieces@).len(),
        t.op == (io::Op::Sync {
            fd: t.start.fd,
            mode: FileSyncMode::DataOnly,
            token: t.start.token,
        }),
{
    reveal(Turn::sound);
    let r = t.ready;
    assert(r.phase is SyncTemp) by {
        if r.phase is CloseTemp {
            assert(t.start.pieces@[r.piece as int] is Bytes);
        }
    }
    assert(t.start.pieces@.take(t.start.pieces@.len() as int) =~= t.start.pieces@);
}

proof fn lemma_closed(t: Turn)
    requires
        t.sound(),
        t.start.phase is CloseTemp,
        t.start.error is None,
        t.outcome is Ok,
    ensures
        carries_on(t),
        t.next.phase is Rename,
        t.next.offset_bytes == t.start.offset_bytes,
        t.op == (io::Op::Close { fd: t.start.fd, token: t.start.token }),
{
    reveal(Turn::sound);
}

proof fn lemma_renamed(t: Turn)
    requires
        t.sound(),
        t.start.phase is Rename,
        t.outcome is Ok,
    ensures
        carries_on(t),
        t.next.phase is SyncDir,
        t.next.offset_bytes == t.start.offset_bytes,
        t.op == (io::Op::Rename {
            old_dir: t.start.dir,
            old_name: t.start.temp_name@,
            new_dir: t.start.dir,
            new_name: t.start.final_name@,
            token: t.start.token,
        }),
{
    reveal(Turn::sound);
}

proof fn lemma_dir_synced(t: Turn)
    requires
        t.sound(),
        t.start.phase is SyncDir,
        t.outcome is Ok,
    ensures
        t.op == (io::Op::Sync {
            fd: t.start.dir,
            mode: FileSyncMode::Full,
            token: t.start.token,
        }),
        t.step == PublishStep::Finished(
            Ok(
                PublishedCheckpointImage {
                    checkpoint: t.start.checkpoint,
                    footer: t.start.footer,
                    bytes_written: t.start.offset_bytes,
                },
            ),
        ),
{
    reveal(Turn::sound);
}

proof fn lemma_writes(turns: Seq<Turn>, k: int) -> (w: int)
    requires
        runs(turns),
        forall|i: int| 0 <= i < turns.len() ==> (#[trigger] turns[i]).outcome is Ok,
        forall|i: int|
            0 <= i < turns.len() && (#[trigger] turns[i]).ready.phase is WriteTemp
                ==> turns[i].buf is Some,
        forall|i: int|
            0 <= i < turns[0].start.pieces@.len() ==> #[trigger] turns[0].start.pieces@[i] is Bytes,
        1 <= k < turns.len(),
        same_publication(turns[k].start, turns[0].start),
        turns[k].start.fd == turns[0].next.fd,
        turns[k].start.wf(),
        turns[k].start.chunk == 0,
        turns[k].start.phase is WriteTemp,
        written(turns, 1, k) == image_bytes(turns[0].start.pieces@).take(
            turns[k].start.offset_bytes as int,
        ),
        forall|i: int| 1 <= i < k ==> #[trigger] writes_on(turns, turns[0].next.fd, i),
    ensures
        w >= k - 1,
        turns.len() == w + 5,
        forall|i: int| 1 <= i <= w ==> #[trigger] writes_on(turns, turns[0].next.fd, i),
        written(turns, 1, w + 1) == image_bytes(turns[0].start.pieces@),
        same_publication(turns[w + 1].start, turns[0].start),
        turns[w + 1].op == (io::Op::Sync {
            fd: turns[0].next.fd,
            mode: FileSyncMode::DataOnly,
            token: turns[0].start.token,
        }),
        turns[w + 2].op == (io::Op::Close { fd: turns[0].next.fd, token: turns[0].start.token }),
        turns[w + 3].op == (io::Op::Rename {
            old_dir: turns[0].start.dir,
            old_name: turns[0].start.temp_name@,
            new_dir: turns[0].start.dir,
            new_name: turns[0].start.final_name@,
            token: turns[0].start.token,
        }),
        turns[w + 4].op == (io::Op::Sync {
            fd: turns[0].start.dir,
            mode: FileSyncMode::Full,
            token: turns[0].start.token,
        }),
        turns[w + 4].step == PublishStep::Finished(
            Ok(
                PublishedCheckpointImage {
                    checkpoint: turns[0].start.checkpoint,
                    footer: turns[0].start.footer,
                    bytes_written: image_bytes(turns[0].start.pieces@).len() as u64,
                },
            ),
        ),
    decreases turns.len() - k,
{
    let t = turns[k];
    let image = image_bytes(turns[0].start.pieces@);
    assert(t.sound());
    if t.ready.phase is WriteTemp {
        lemma_wrote(t);
        let offset = t.start.offset_bytes as int;
        let end = t.next.offset_bytes as int;
        assert(image.take(offset) + image.subrange(offset, end) =~= image.take(end));
        assert(written(turns, 1, k + 1) == image.take(end));
        assert(writes_on(turns, turns[0].next.fd, k));
        assert(leads_on(turns, k));
        lemma_writes(turns, k + 1)
    } else {
        lemma_synced(t);
        assert(image.take(image.len() as int) =~= image);
        assert(leads_on(turns, k));
        assert(turns[k + 1].sound());
        lemma_closed(turns[k + 1]);
        assert(leads_on(turns, k + 1));
        assert(turns[k + 2].sound());
        lemma_renamed(turns[k + 2]);
        assert(leads_on(turns, k + 2));
        assert(turns[k + 3].sound());
        lemma_dir_synced(turns[k + 3]);
        assert(turns[k + 3].step is Finished);
        k - 1
    }
}

/// Whether two publishers publish the same image in the same place.
spec fn same_publication(a: ImagePublisher, b: ImagePublisher) -> bool {
    &&& a.dir == b.dir
    &&& a.token == b.token
    &&& a.checkpoint == b.checkpoint
    &&& a.footer == b.footer
    &&& a.temp_name == b.temp_name
    &&& a.final_name == b.final_name
    &&& a.pieces == b.pieces
}

proof fn lemma_piece_len_fits(pieces: Seq<ImagePiece>, k: int)
    requires
        0 <= k < pieces.len(),
    ensures
        piece_bytes(pieces[k]).len() <= usize::MAX,
{
    if let ImagePiece::Bytes(bytes) = pieces[k] {
        assert(bytes.len() == bytes@.len());
    }
}

/// Whether the last turns of a publication, after turn `at`, only remove the
/// temporary file: it is closed where `close` says so, and unlinked, and the
/// publication reports `error`.
pub open spec fn cleans_up(
    turns: Seq<Turn>,
    at: int,
    close: bool,
    error: CheckpointImagePublishError,
) -> bool {
    let p = turns[at].start;
    let unlink = if close {
        at + 2
    } else {
        at + 1
    };
    &&& turns.len() == unlink + 1
    &&& close ==> turns[at + 1].op == (io::Op::Close { fd: p.fd, token: p.token })
    &&& turns[unlink].op == (io::Op::Unlink { dir: p.dir, name: p.temp_name@, token: p.token })
    &&& turns[unlink].step == PublishStep::Finished(Err(error))
}

/// A failed write or data sync is followed by the close and the unlink of the
/// temporary file and by nothing else, and its error is the one reported. A
/// write without a buffer and a piece that could not be encoded are answered by
/// the close, and the unlink follows; so it does after a failed close and after
/// a failed rename. In none of these the image is renamed later.
pub proof fn law_failure_cleans_up(turns: Seq<Turn>, at: int)
    requires
        runs(turns),
        0 <= at < turns.len(),
    ensures
        ({
            let t = turns[at];
            &&& t.outcome matches Err(error) ==> {
                &&& t.issued.phase is WriteTemp || t.issued.phase is SyncTemp ==> cleans_up(
                    turns,
                    at,
                    true,
                    error,
                )
                &&& t.issued.phase is CloseTemp && t.issued.error is None ==> cleans_up(
                    turns,
                    at,
                    false,
                    error,
                )
                &&& t.issued.phase is Rename ==> cleans_up(turns, at, false, error)
            }
            &&& t.ready.phase is WriteTemp && t.buf is None ==> {
                &&& t.op == (io::Op::Close { fd: t.start.fd, token: t.start.token })
                &&& cleans_up(turns, at, false, CheckpointImagePublishError::WriteBufferUnavailable)
            }
            &&& t.start.phase is WriteTemp && t.ready.phase is CloseTemp ==> {
                &&& t.op == (io::Op::Close { fd: t.start.fd, token: t.start.token })
                &&& t.ready.error matches Some(CheckpointImagePublishError::Encode(error))
                &&& cleans_up(turns, at, false, CheckpointImagePublishError::Encode(error))
            }
        }),
{
    let t = turns[at];
    assert(t.sound());
    lemma_failed(t);
    if t.step is Next {
        assert(leads_on(turns, at));
        assert(turns[at + 1].sound());
        if t.next.phase is CloseTemp && t.next.error is Some {
            lemma_closed_after(turns[at + 1]);
            assert(leads_on(turns, at + 1));
            assert(turns[at + 2].sound());
            lemma_unlinked(turns[at + 2]);
            assert(turns[at + 2].step is Finished);
        }
        if t.next.phase is UnlinkTemp && t.next.error is Some {
            lemma_unlinked(turns[at + 1]);
            assert(turns[at + 1].step is Finished);
        }
    }
}

/// What a failing turn leads to.
proof fn lemma_failed(t: Turn)
    requires
        t.sound(),
    ensures
        t.step is Next ==> same_publication(t.next, t.start) && (t.start.phase is OpenTemp
            || t.next.fd == t.start.fd),
        t.outcome matches Err(error) ==> {
            &&& t.issued.phase is WriteTemp || t.issued.phase is SyncTemp ==> t.step is Next
                && t.next.phase is CloseTemp && t.next.error == Some(error)
                && !(t.start.phase is OpenTemp)
            &&& (t.issued.phase is CloseTemp && t.issued.error is None) || t.issued.phase is Rename
                ==> t.step is Next && t.next.phase is UnlinkTemp && t.next.error == Some(error)
        },
        t.ready.phase is WriteTemp && t.buf is None ==> {
            &&& t.op == (io::Op::Close { fd: t.start.fd, token: t.start.token })
            &&& t.step is Next
            &&& t.next.phase is UnlinkTemp
            &&& t.next.error == Some(CheckpointImagePublishError::WriteBufferUnavailable)
        },
        t.start.phase is WriteTemp && t.ready.phase is CloseTemp ==> {
            &&& t.op == (io::Op::Close { fd: t.start.fd, token: t.start.token })
            &&& t.ready.error matches Some(CheckpointImagePublishError::Encode(_))
            &&& t.step is Next
            &&& t.next.phase is UnlinkTemp
            &&& t.next.error == t.ready.error
        },
{
    reveal(Turn::sound);
}

proof fn lemma_closed_after(t: Turn)
    requires
        t.sound(),
        t.start.phase is CloseTemp,
        t.start.error is Some,
    ensures
        carries_on(t),
        t.next.phase is UnlinkTemp,
        t.next.error == t.start.error,
        t.op == (io::Op::Close { fd: t.start.fd, token: t.start.token }),
{
    reveal(Turn::sound);
}

proof fn lemma_unlinked(t: Turn)
    requires
        t.sound(),
        t.start.phase is UnlinkTemp,
        t.start.error is Some,
    ensures
        t.op == (io::Op::Unlink {
            dir: t.start.dir,
            name: t.start.temp_name@,
            token: t.start.token,
        }),
        t.step == PublishStep::Finished(Err(t.start.error->0)),
{
    reveal(Turn::sound);
}

/// The sections of an image are numbered from zero in their order: the first
/// that is not where its number says is the one reported.
pub proof fn law_sections_are_numbered_in_order(ordinals: Seq<u32>)
    requires
        ordinals.len() <= u32::MAX,
    ensures
        first_misplaced(ordinals, 0) is None <==> (forall|i: int|
            0 <= i < ordinals.len() ==> #[trigger] ordinals[i] == i),
        first_misplaced(ordinals, 0) matches Some(at) ==> 0 <= at < ordinals.len() && ordinals[at]
            != at && (forall|i: int| 0 <= i < at ==> #[trigger] ordinals[i] == i),
{
    lemma_first_misplaced(ordinals, 0);
}

proof fn lemma_first_misplaced(ordinals: Seq<u32>, from: int)
    requires
        ordinals.len() <= u32::MAX,
        0 <= from <= ordinals.len(),
    ensures
        first_misplaced(ordinals, from) is None <==> (forall|i: int|
            from <= i < ordinals.len() ==> #[trigger] ordinals[i] == i),
        first_misplaced(ordinals, from) matches Some(at) ==> from <= at < ordinals.len()
            && ordinals[at] != at && (forall|i: int|
            from <= i < at ==> #[trigger] ordinals[i] == i),
    decreases ordinals.len() - from,
{
    if from < ordinals.len() && ordinals[from] == from as u32 {
        lemma_first_misplaced(ordinals, from + 1);
    }
}

/// The image is its pieces one after the other.
pub proof fn law_image_is_its_pieces(a: Seq<ImagePiece>, b: Seq<ImagePiece>, bytes: Vec<u8>)
    ensures
        image_bytes(a + b) == image_bytes(a) + image_bytes(b),
        image_bytes(seq![ImagePiece::Bytes(bytes)]) == bytes@,
        image_bytes(Seq::empty()) == Seq::<u8>::empty(),
    decreases b.len(),
{
    reveal_with_fuel(image_bytes, 2);
    let one = seq![ImagePiece::Bytes(bytes)];
    assert(one.drop_last() =~= Seq::<ImagePiece>::empty());
    assert(image_bytes(one) =~= bytes@);
    if b.len() == 0 {
        assert(a + b =~= a);
        assert(image_bytes(a) + Seq::<u8>::empty() =~= image_bytes(a));
    } else {
        law_image_is_its_pieces(a, b.drop_last(), bytes);
        assert((a + b).drop_last() =~= a + b.drop_last());
        assert((a + b).last() == b.last());
        assert(image_bytes(a + b) =~= image_bytes(a) + image_bytes(b));
    }
}

/// A step succeeds with the completion of its own kind and with no other, and
/// a failure names its step: the errno, and the name or descriptor it was
/// about.
pub proof fn law_failure_names_its_step(p: ImagePublisher, errno: i32)
    ensures
        !p.succeeded(CompletionResult::Error { errno, buf: None }),
        ({
            let error = p.failure(CompletionResult::Error { errno, buf: None });
            &&& p.phase is OpenTemp ==> error == (CheckpointImagePublishError::OpenTemp {
                name: p.temp_name,
                errno,
            })
            &&& p.phase is WriteTemp ==> error == (
            CheckpointImagePublishError::MissingWriteBuffer {
                fd: p.fd,
                offset_bytes: p.offset_bytes,
                errno,
            })
            &&& p.phase is SyncTemp ==> error == (CheckpointImagePublishError::SyncTemp {
                fd: p.fd,
                errno,
            })
            &&& p.phase is CloseTemp ==> error == (CheckpointImagePublishError::CloseTemp {
                fd: p.fd,
                errno,
            })
            &&& p.phase is Rename ==> error == (CheckpointImagePublishError::Rename {
                old_name: p.temp_name,
                new_name: p.final_name,
                errno,
            })
            &&& p.phase is UnlinkTemp ==> error == (CheckpointImagePublishError::UnlinkTemp {
                name: p.temp_name,
                errno,
            })
            &&& p.phase is SyncDir ==> error == (CheckpointImagePublishError::SyncDir {
                fd: p.dir,
                errno,
            })
        }),
{
}

/// What completes a step: an open file for the open, a write for the write, a
/// close for the close, and else a plain completion. A failed write with its
/// buffer is the write's own failure.
pub proof fn law_each_step_has_its_completion(p: ImagePublisher, fd: i32, buf: u32, errno: i32)
    ensures
        p.phase is OpenTemp <==> p.succeeded(CompletionResult::FileOpened { fd }),
        p.phase is WriteTemp <==> p.succeeded(CompletionResult::FileWritten { buf }),
        p.phase is CloseTemp <==> p.succeeded(CompletionResult::FileClosed),
        p.phase is SyncTemp || p.phase is Rename || p.phase is UnlinkTemp || p.phase is SyncDir
            <==> p.succeeded(CompletionResult::FileDone),
        p.phase is WriteTemp ==> p.failure(CompletionResult::Error { errno, buf: Some(buf) }) == (
        CheckpointImagePublishError::WriteTemp {
            fd: p.fd,
            offset_bytes: p.offset_bytes,
            errno,
        }),
{
}

/// A failure before the rename leaves nothing behind under the final name and
/// cleans up: a failed write or sync closes the file, a failed close or rename
/// unlinks it, and the publication ends with the first error.
pub proof fn law_first_failure_is_reported(
    p: ImagePublisher,
    outcome: Result<CompletionResult, CheckpointImagePublishError>,
    step: PublishStep,
    next: ImagePublisher,
)
    requires
        p.wf(),
        p.advances(outcome, step, next),
    ensures
        (p.phase is WriteTemp || p.phase is SyncTemp) && outcome is Err ==> step is Next
            && next.phase is CloseTemp && next.error == Some(outcome->Err_0),
        p.phase is Rename && outcome is Err ==> step is Next && next.phase is UnlinkTemp
            && next.error == Some(outcome->Err_0),
        p.phase is CloseTemp && outcome is Err && p.error is None ==> step is Next
            && next.phase is UnlinkTemp && next.error == Some(outcome->Err_0),
        p.phase is OpenTemp && outcome is Err ==> step == PublishStep::Finished(
            Err(outcome->Err_0),
        ),
        p.phase is UnlinkTemp ==> step == PublishStep::Finished(Err(p.error->0)),
        p.phase is SyncDir && outcome is Err ==> step == PublishStep::Finished(
            Err(outcome->Err_0),
        ),
        p.phase is CloseTemp && p.error is None && outcome is Ok ==> next.phase is Rename,
        step matches PublishStep::Finished(Ok(published)) ==> p.phase is SyncDir && outcome is Ok
            && published.checkpoint == p.checkpoint && published.footer == p.footer,
{
}

/// A failure to reap is reported as it came, with the phase it came in, and
/// every try is counted.
pub proof fn law_reap_failure_keeps_its_cause(
    phase: CheckpointImagePublishPhase,
    source: String,
    expected: CompletionToken,
    got: CompletionToken,
    n: usize,
    attempts: u32,
    p: ImagePublisher,
)
    ensures
        reap_failure(phase, ReapError::Backend(source)) == (CheckpointImagePublishError::Backend {
            phase,
            source,
        }),
        reap_failure(phase, ReapError::UnexpectedCompletionCount { expected: 1, got: n }) == (
        CheckpointImagePublishError::UnexpectedCompletionCount { phase, expected: 1, got: n }),
        reap_failure(phase, ReapError::UnexpectedToken { expected, got }) == (
        CheckpointImagePublishError::UnexpectedToken { phase, expected, got }),
        reap_failure(phase, ReapError::ReapLimitExceeded { token: expected, attempts }) == (
        CheckpointImagePublishError::ReapLimitExceeded { phase, token: expected, attempts }),
        p.attempts < u32::MAX ==> p.tried().attempts == p.attempts + 1,
        p.tried().phase == p.phase,
        p.tried().offset_bytes == p.offset_bytes,
        p.tried().error == p.error,
{
}

/// A publication without a buffer to write from is given up: the file is
/// closed and the reason kept.
pub proof fn law_no_buffer_gives_up(
    p: ImagePublisher,
    buf_size: usize,
    op: io::Op,
    next: ImagePublisher,
)
    requires
        p.phase is WriteTemp,
        p.issues(buf_size, None, op, next),
    ensures
        op == (io::Op::Close { fd: p.fd, token: p.token }),
        next.phase is CloseTemp,
        next.error matches Some(error) && error is WriteBufferUnavailable,
{
}

/// A write takes the next bytes of the image at their place in the file, as
/// many as the buffer holds of the piece it is in.
pub proof fn law_write_takes_the_next_bytes(
    p: ImagePublisher,
    buf_size: usize,
    buf: u32,
    op: io::Op,
    next: ImagePublisher,
)
    requires
        p.wf(),
        p.chunk == 0,
        p.phase is WriteTemp,
        buf_size > 0,
        p.piece < p.pieces@.len(),
        p.at < piece_bytes(p.pieces@[p.piece as int]).len(),
        p.issues(buf_size, Some(buf), op, next),
    ensures
        op matches io::Op::Write { fd, offset, buf: b, data, token } && fd == p.fd && offset
            == p.offset_bytes && b == buf && token == p.token && 0 < data.len() <= buf_size && data
            == image_bytes(p.pieces@).subrange(
            offset as int,
            (offset + data.len()) as int,
        ) && next.chunk == data.len(),
        next.buf == buf,
{
    lemma_piece_in_image(p.pieces@, p.piece as int);
    let piece = piece_bytes(p.pieces@[p.piece as int]);
    let n = io::chunk_len(buf_size, piece.len() - p.at);
    assert(image_bytes(p.pieces@).subrange(
        p.offset_bytes as int,
        p.offset_bytes + n,
    ).len() == n);
}

/// A piece that could not be encoded stops the publication where it stands:
/// the file is closed, the error is that piece's own, and every piece before
/// it was written.
pub proof fn law_failed_piece_stops_the_image(p: ImagePublisher, next: ImagePublisher, k: int)
    requires
        p.settled(next),
    ensures
        next.phase is CloseTemp ==> (p.pieces@[next.piece as int] matches ImagePiece::Failed(e)
            && next.error == Some(CheckpointImagePublishError::Encode(e))),
        p.piece <= k < next.piece ==> p.pieces@[k] is Bytes,
        next.phase is SyncTemp ==> next.piece == p.pieces@.len(),
        next.phase is WriteTemp ==> next.at < piece_bytes(p.pieces@[next.piece as int]).len(),
        next.offset_bytes == p.offset_bytes,
{
}

/// A step that went well leads to the next: the open to the first write, under
/// the descriptor it brought, a write to the place behind its chunk, the sync
/// to the close, the rename to the directory's sync.
pub proof fn law_step_leads_to_the_next(
    p: ImagePublisher,
    result: CompletionResult,
    step: PublishStep,
    next: ImagePublisher,
)
    requires
        p.wf(),
        p.succeeded(result),
        p.advances(Ok(result), step, next),
        p.offset_bytes + p.chunk <= u64::MAX,
        p.at + p.chunk <= usize::MAX,
    ensures
        p.phase is OpenTemp ==> (result matches CompletionResult::FileOpened { fd } && next.fd
            == fd && next.phase is WriteTemp && next.offset_bytes == p.offset_bytes),
        p.phase is WriteTemp ==> next.phase is WriteTemp && next.at == p.at + p.chunk
            && next.offset_bytes == p.offset_bytes + p.chunk && next.piece == p.piece && next.fd
            == p.fd,
        p.phase is SyncTemp ==> next.phase is CloseTemp && next.error is None,
        p.phase is Rename ==> next.phase is SyncDir,
        step is Next ==> next.chunk == 0 && next.pieces == p.pieces && next.final_name
            == p.final_name && next.temp_name == p.temp_name,
{
}

} // verus!
