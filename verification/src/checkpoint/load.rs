//! Loading a checkpoint image: open the file, read its header, sections and
//! footer part by part, make sure that nothing follows, and close it. Each part
//! is decoded once all of its bytes are read; the decoders are the image
//! format's, and their answers come back to the machine. Whatever goes wrong
//! after the open, the file is closed, and the first error is the one reported.

use vstd::prelude::*;
use crate::checkpoint::io;
use crate::checkpoint::io::{
    judge_reap, release_result_buffer, result_name, CheckpointRef, CompletionResult,
    CompletionToken, FileOpenMode, IoOp, ReapError, ReapStep, Reaped, TokenClass,
    DEFAULT_CHECKPOINT_IMAGE_REAP_LIMIT, ENOENT_ERRNO,
};
use crate::checkpoint::publish::CheckpointFooter;
use crate::text;

verus! {

/// Sections of a keyspace snapshot: the namespace catalog, then the records.
pub const CHECKPOINT_KEYSPACE_SNAPSHOT_SECTION_COUNT: u32 = 2;

/// Where an image is loaded from, under which token, and how patiently.
#[derive(Copy, Clone, Debug, PartialEq, Eq, Structural)]
pub struct CheckpointImageLoadConfig {
    pub dir: i32,
    pub token_slot: u32,
    pub token_generation: u32,
    pub max_reaps: u32,
}

impl CheckpointImageLoadConfig {
    /// Loads from `dir` under slot `token_slot`, with the default limits.
    pub fn new(dir: i32, token_slot: u32) -> (r: CheckpointImageLoadConfig)
        ensures
            r == (CheckpointImageLoadConfig {
                dir,
                token_slot,
                token_generation: 0,
                max_reaps: DEFAULT_CHECKPOINT_IMAGE_REAP_LIMIT,
            }),
    {
        CheckpointImageLoadConfig {
            dir,
            token_slot,
            token_generation: 0,
            max_reaps: DEFAULT_CHECKPOINT_IMAGE_REAP_LIMIT,
        }
    }

    /// The same under another token generation.
    pub fn with_generation(self, token_generation: u32) -> (r: CheckpointImageLoadConfig)
        ensures
            r == (CheckpointImageLoadConfig { token_generation, ..self }),
    {
        CheckpointImageLoadConfig {
            dir: self.dir,
            token_slot: self.token_slot,
            token_generation,
            max_reaps: self.max_reaps,
        }
    }

    /// The same with another reap limit.
    pub fn with_max_reaps(self, max_reaps: u32) -> (r: CheckpointImageLoadConfig)
        ensures
            r == (CheckpointImageLoadConfig { max_reaps, ..self }),
    {
        CheckpointImageLoadConfig {
            dir: self.dir,
            token_slot: self.token_slot,
            token_generation: self.token_generation,
            max_reaps,
        }
    }
}

/// What a section holds.
#[derive(Copy, Clone, Debug, PartialEq, Eq, Structural)]
pub enum CheckpointSectionKind {
    NamespaceCatalog,
    Records,
}

impl CheckpointSectionKind {
    /// The variant's name.
    pub open spec fn label(self) -> Seq<char> {
        match self {
            CheckpointSectionKind::NamespaceCatalog => "NamespaceCatalog"@,
            CheckpointSectionKind::Records => "Records"@,
        }
    }

    /// The variant's name.
    pub fn name(self) -> (r: &'static str)
        ensures
            r@ == self.label(),
    {
        match self {
            CheckpointSectionKind::NamespaceCatalog => "NamespaceCatalog",
            CheckpointSectionKind::Records => "Records",
        }
    }
}

/// A section of an image.
#[derive(Copy, Clone, Debug, PartialEq, Eq, Structural)]
pub struct CheckpointSectionMeta {
    pub ordinal: u32,
    pub kind: CheckpointSectionKind,
    pub payload_len: u32,
    pub checksum: u32,
}

/// A decoded image header.
#[derive(Debug)]
pub struct LoadedCheckpointHeader {
    pub cell: u16,
    pub checkpoint: CheckpointRef,
    pub namespaces: Vec<u32>,
    pub section_count: u32,
}

/// A loaded image.
#[derive(Debug)]
pub struct LoadedCheckpointImage {
    pub cell: u16,
    pub checkpoint: CheckpointRef,
    pub namespaces: Vec<u32>,
    pub sections: Vec<CheckpointSectionMeta>,
    pub footer: CheckpointFooter,
    pub bytes_read: u64,
}

impl LoadedCheckpointImage {
    /// The cell the image belongs to.
    pub fn cell(&self) -> (r: u16)
        ensures
            r == self.cell,
    {
        self.cell
    }

    /// The checkpoint the image holds.
    pub fn checkpoint(&self) -> (r: CheckpointRef)
        ensures
            r == self.checkpoint,
    {
        self.checkpoint
    }

    /// The namespaces the header lists.
    pub fn namespaces(&self) -> (r: &[u32])
        ensures
            r@ == self.namespaces@,
    {
        self.namespaces.as_slice()
    }

    /// The sections, in order.
    pub fn sections(&self) -> (r: &[CheckpointSectionMeta])
        ensures
            r@ == self.sections@,
    {
        self.sections.as_slice()
    }

    /// The image's footer.
    pub fn footer(&self) -> (r: CheckpointFooter)
        ensures
            r == self.footer,
    {
        self.footer
    }

    /// The image's length.
    pub fn bytes_read(&self) -> (r: u64)
        ensures
            r == self.bytes_read,
    {
        self.bytes_read
    }
}

/// A loaded keyspace snapshot: the image and its two payloads.
#[derive(Debug)]
pub struct LoadedCheckpointImagePayloads {
    pub image: LoadedCheckpointImage,
    pub namespace_catalog: Vec<u8>,
    pub records: Vec<u8>,
}

impl LoadedCheckpointImagePayloads {
    /// The image.
    pub fn image(&self) -> (r: &LoadedCheckpointImage)
        ensures
            *r == self.image,
    {
        &self.image
    }

    /// The payload of the catalog section.
    pub fn namespace_catalog(&self) -> (r: &[u8])
        ensures
            r@ == self.namespace_catalog@,
    {
        self.namespace_catalog.as_slice()
    }

    /// The payload of the records section.
    pub fn records(&self) -> (r: &[u8])
        ensures
            r@ == self.records@,
    {
        self.records.as_slice()
    }
}

/// Which part of a load an operation belongs to.
#[derive(Copy, Clone, Debug, PartialEq, Eq, Structural)]
pub enum CheckpointImageLoadPhase {
    Open,
    Read,
    Close,
}

impl CheckpointImageLoadPhase {
    /// The phase's name.
    pub open spec fn label(self) -> Seq<char> {
        match self {
            CheckpointImageLoadPhase::Open => "open"@,
            CheckpointImageLoadPhase::Read => "read"@,
            CheckpointImageLoadPhase::Close => "close"@,
        }
    }

    /// The phase's name.
    pub fn name(self) -> (r: &'static str)
        ensures
            r@ == self.label(),
    {
        match self {
            CheckpointImageLoadPhase::Open => "open",
            CheckpointImageLoadPhase::Read => "read",
            CheckpointImageLoadPhase::Close => "close",
        }
    }
}

/// A part of an image, read and decoded as a whole.
#[derive(Copy, Clone, Debug, PartialEq, Eq, Structural)]
pub enum ImagePart {
    HeaderPrefix,
    Header,
    SectionHeader,
    SectionBody,
    Footer,
}

impl ImagePart {
    /// The part's name.
    pub open spec fn label(self) -> Seq<char> {
        match self {
            ImagePart::HeaderPrefix => "header-prefix"@,
            ImagePart::Header => "header"@,
            ImagePart::SectionHeader => "section-header"@,
            ImagePart::SectionBody => "section-body"@,
            ImagePart::Footer => "footer"@,
        }
    }

    /// The part's name.
    pub fn name(self) -> (r: &'static str)
        ensures
            r@ == self.label(),
    {
        match self {
            ImagePart::HeaderPrefix => "header-prefix",
            ImagePart::Header => "header",
            ImagePart::SectionHeader => "section-header",
            ImagePart::SectionBody => "section-body",
            ImagePart::Footer => "footer",
        }
    }
}

/// Why an image was not loaded.
#[derive(Debug)]
pub enum CheckpointImageLoadError {
    Decode(String),
    ScratchNotEmpty { len: usize },
    ZeroReapLimit,
    ReadBufferUnavailable,
    Backend { phase: CheckpointImageLoadPhase, source: String },
    UnexpectedCompletionCount { phase: CheckpointImageLoadPhase, expected: usize, got: usize },
    UnexpectedToken {
        phase: CheckpointImageLoadPhase,
        expected: CompletionToken,
        got: CompletionToken,
    },
    ReapLimitExceeded { phase: CheckpointImageLoadPhase, token: CompletionToken, attempts: u32 },
    Missing { name: String },
    Open { name: String, errno: i32 },
    Read { fd: i32, offset_bytes: u64, errno: i32 },
    MissingReadBuffer { fd: i32, offset_bytes: u64, errno: i32 },
    ReadLenTooLarge {
        fd: i32,
        offset_bytes: u64,
        len: u32,
        requested_len: u32,
        buffer_len_bytes: usize,
    },
    UnexpectedEof { part: ImagePart, needed: usize, got: usize },
    CheckpointMismatch { expected: CheckpointRef, got: CheckpointRef },
    SectionOrdinalMismatch { expected: u32, got: u32 },
    SectionCountMismatchForPayloads { expected: u32, got: u32 },
    SectionKindMismatch {
        ordinal: u32,
        expected: CheckpointSectionKind,
        got: CheckpointSectionKind,
    },
    TrailingBytes { name: String, offset_bytes: u64 },
    Close { fd: i32, errno: i32 },
    UnexpectedCompletionKind { phase: CheckpointImageLoadPhase, result: CompletionResult },
}

impl CheckpointImageLoadError {
    /// The text of the error.
    pub open spec fn message_text(&self) -> Seq<char> {
        match *self {
            CheckpointImageLoadError::Decode(error) => "decode checkpoint image failed: "@ + error@,
            CheckpointImageLoadError::ScratchNotEmpty { len } => "checkpoint image load scratch completions not empty: "@ + text::dec_chars(len as nat),
            CheckpointImageLoadError::ZeroReapLimit => "checkpoint image load reap limit must be nonzero"@,
            CheckpointImageLoadError::ReadBufferUnavailable => "checkpoint image load could not lease a read buffer"@,
            CheckpointImageLoadError::Backend { phase, source } => "checkpoint image load backend failed during "@ + phase.label() + ": "@ + source@,
            CheckpointImageLoadError::UnexpectedCompletionCount { phase, expected, got } => "checkpoint image load "@ + phase.label() + " expected "@ + text::dec_chars(expected as nat) + " completion(s), got "@ + text::dec_chars(got as nat),
            CheckpointImageLoadError::UnexpectedToken { phase, expected, got } => "checkpoint image load "@ + phase.label() + " got token "@ + got.label() + ", expected "@ + expected.label(),
            CheckpointImageLoadError::ReapLimitExceeded { phase, token, attempts } => "checkpoint image load "@ + phase.label() + " saw no completion for "@ + token.label() + " after "@ + text::dec_chars(attempts as nat) + " reap attempts"@,
            CheckpointImageLoadError::Missing { name } => "checkpoint image "@ + text::quoted(name@) + " is missing"@,
            CheckpointImageLoadError::Open { name, errno } => "open checkpoint image "@ + text::quoted(name@) + " failed with errno "@ + text::dec_int_chars(errno as int),
            CheckpointImageLoadError::Read { fd, offset_bytes, errno } => "read checkpoint image fd "@ + text::dec_int_chars(fd as int) + " at offset "@ + text::dec_chars(offset_bytes as nat) + " failed with errno "@ + text::dec_int_chars(errno as int),
            CheckpointImageLoadError::MissingReadBuffer { fd, offset_bytes, errno } => "read checkpoint image fd "@ + text::dec_int_chars(fd as int) + " at offset "@ + text::dec_chars(offset_bytes as nat) + " failed with errno "@ + text::dec_int_chars(errno as int) + " without returning the buffer"@,
            CheckpointImageLoadError::ReadLenTooLarge { fd, offset_bytes, len, requested_len, buffer_len_bytes } => "read checkpoint image fd "@ + text::dec_int_chars(fd as int) + " at offset "@ + text::dec_chars(offset_bytes as nat) + " returned "@ + text::dec_chars(len as nat) + " bytes, requested "@ + text::dec_chars(requested_len as nat) + ", buffer size "@ + text::dec_chars(buffer_len_bytes as nat),
            CheckpointImageLoadError::UnexpectedEof { part, needed, got } => "checkpoint image ended during "@ + part.label() + ": got "@ + text::dec_chars(got as nat) + " bytes, needed "@ + text::dec_chars(needed as nat),
            CheckpointImageLoadError::CheckpointMismatch { expected, got } => "checkpoint image identity "@ + got.label() + " does not match requested "@ + expected.label(),
            CheckpointImageLoadError::SectionOrdinalMismatch { expected, got } => "checkpoint image section ordinal "@ + text::dec_chars(got as nat) + " does not match expected "@ + text::dec_chars(expected as nat),
            CheckpointImageLoadError::SectionCountMismatchForPayloads { expected, got } => "checkpoint image payload load expected "@ + text::dec_chars(expected as nat) + " sections, got "@ + text::dec_chars(got as nat),
            CheckpointImageLoadError::SectionKindMismatch { ordinal, expected, got } => "checkpoint image section "@ + text::dec_chars(ordinal as nat) + " kind "@ + got.label() + " does not match expected "@ + expected.label(),
            CheckpointImageLoadError::TrailingBytes { name, offset_bytes } => "checkpoint image "@ + text::quoted(name@) + " has trailing bytes after offset "@ + text::dec_chars(offset_bytes as nat),
            CheckpointImageLoadError::Close { fd, errno } => "close checkpoint image fd "@ + text::dec_int_chars(fd as int) + " failed with errno "@ + text::dec_int_chars(errno as int),
            CheckpointImageLoadError::UnexpectedCompletionKind { phase, result } => "checkpoint image load "@ + phase.label() + " got unexpected completion kind "@ + result.label(),
        }
    }

    /// The text of the error.
    pub fn message(&self) -> (r: String)
        ensures
            r@ == self.message_text(),
    {
        match self {
            CheckpointImageLoadError::Decode(error) => {
                let mut out = text::owned("decode checkpoint image failed: ");
                out.append(error.as_str());
                out
            },
            CheckpointImageLoadError::ScratchNotEmpty { len } => {
                let mut out = text::owned("checkpoint image load scratch completions not empty: ");
                text::append_dec(&mut out, *len as u64);
                out
            },
            CheckpointImageLoadError::ZeroReapLimit => text::owned("checkpoint image load reap limit must be nonzero"),
            CheckpointImageLoadError::ReadBufferUnavailable => text::owned("checkpoint image load could not lease a read buffer"),
            CheckpointImageLoadError::Backend { phase, source } => {
                let mut out = text::owned("checkpoint image load backend failed during ");
                out.append(phase.name());
                out.append(": ");
                out.append(source.as_str());
                out
            },
            CheckpointImageLoadError::UnexpectedCompletionCount { phase, expected, got } => {
                let mut out = text::owned("checkpoint image load ");
                out.append(phase.name());
                out.append(" expected ");
                text::append_dec(&mut out, *expected as u64);
                out.append(" completion(s), got ");
                text::append_dec(&mut out, *got as u64);
                out
            },
            CheckpointImageLoadError::UnexpectedToken { phase, expected, got } => {
                let mut out = text::owned("checkpoint image load ");
                out.append(phase.name());
                out.append(" got token ");
                out.append(got.describe().as_str());
                out.append(", expected ");
                out.append(expected.describe().as_str());
                out
            },
            CheckpointImageLoadError::ReapLimitExceeded { phase, token, attempts } => {
                let mut out = text::owned("checkpoint image load ");
                out.append(phase.name());
                out.append(" saw no completion for ");
                out.append(token.describe().as_str());
                out.append(" after ");
                text::append_dec(&mut out, *attempts as u64);
                out.append(" reap attempts");
                out
            },
            CheckpointImageLoadError::Missing { name } => {
                let mut out = text::owned("checkpoint image ");
                out.append(text::quoted_string(name.as_str()).as_str());
                out.append(" is missing");
                out
            },
            CheckpointImageLoadError::Open { name, errno } => {
                let mut out = text::owned("open checkpoint image ");
                out.append(text::quoted_string(name.as_str()).as_str());
                out.append(" failed with errno ");
                text::append_dec_int(&mut out, *errno as i64);
                out
            },
            CheckpointImageLoadError::Read { fd, offset_bytes, errno } => {
                let mut out = text::owned("read checkpoint image fd ");
                text::append_dec_int(&mut out, *fd as i64);
                out.append(" at offset ");
                text::append_dec(&mut out, *offset_bytes as u64);
                out.append(" failed with errno ");
                text::append_dec_int(&mut out, *errno as i64);
                out
            },
            CheckpointImageLoadError::MissingReadBuffer { fd, offset_bytes, errno } => {
                let mut out = text::owned("read checkpoint image fd ");
                text::append_dec_int(&mut out, *fd as i64);
                out.append(" at offset ");
                text::append_dec(&mut out, *offset_bytes as u64);
                out.append(" failed with errno ");
                text::append_dec_int(&mut out, *errno as i64);
                out.append(" without returning the buffer");
                out
            },
            CheckpointImageLoadError::ReadLenTooLarge { fd, offset_bytes, len, requested_len, buffer_len_bytes } => {
                let mut out = text::owned("read checkpoint image fd ");
                text::append_dec_int(&mut out, *fd as i64);
                out.append(" at offset ");
                text::append_dec(&mut out, *offset_bytes as u64);
                out.append(" returned ");
                text::append_dec(&mut out, *len as u64);
                out.append(" bytes, requested ");
                text::append_dec(&mut out, *requested_len as u64);
                out.append(", buffer size ");
                text::append_dec(&mut out, *buffer_len_bytes as u64);
                out
            },
            CheckpointImageLoadError::UnexpectedEof { part, needed, got } => {
                let mut out = text::owned("checkpoint image ended during ");
                out.append(part.name());
                out.append(": got ");
                text::append_dec(&mut out, *got as u64);
                out.append(" bytes, needed ");
                text::append_dec(&mut out, *needed as u64);
                out
            },
            CheckpointImageLoadError::CheckpointMismatch { expected, got } => {
                let mut out = text::owned("checkpoint image identity ");
                out.append(got.describe().as_str());
                out.append(" does not match requested ");
                out.append(expected.describe().as_str());
                out
            },
            CheckpointImageLoadError::SectionOrdinalMismatch { expected, got } => {
                let mut out = text::owned("checkpoint image section ordinal ");
                text::append_dec(&mut out, *got as u64);
                out.append(" does not match expected ");
                text::append_dec(&mut out, *expected as u64);
                out
            },
            CheckpointImageLoadError::SectionCountMismatchForPayloads { expected, got } => {
                let mut out = text::owned("checkpoint image payload load expected ");
                text::append_dec(&mut out, *expected as u64);
                out.append(" sections, got ");
                text::append_dec(&mut out, *got as u64);
                out
            },
            CheckpointImageLoadError::SectionKindMismatch { ordinal, expected, got } => {
                let mut out = text::owned("checkpoint image section ");
                text::append_dec(&mut out, *ordinal as u64);
                out.append(" kind ");
                out.append(got.name());
                out.append(" does not match expected ");
                out.append(expected.name());
                out
            },
            CheckpointImageLoadError::TrailingBytes { name, offset_bytes } => {
                let mut out = text::owned("checkpoint image ");
                out.append(text::quoted_string(name.as_str()).as_str());
                out.append(" has trailing bytes after offset ");
                text::append_dec(&mut out, *offset_bytes as u64);
                out
            },
            CheckpointImageLoadError::Close { fd, errno } => {
                let mut out = text::owned("close checkpoint image fd ");
                text::append_dec_int(&mut out, *fd as i64);
                out.append(" failed with errno ");
                text::append_dec_int(&mut out, *errno as i64);
                out
            },
            CheckpointImageLoadError::UnexpectedCompletionKind { phase, result } => {
                let mut out = text::owned("checkpoint image load ");
                out.append(phase.name());
                out.append(" got unexpected completion kind ");
                out.append(result_name(result));
                out
            },
        }
    }
}

/// The inputs a load starts from are sound: no completion left over from
/// another transfer, and at least one attempt to reap.
pub fn validate_load_inputs(completions: usize, max_reaps: u32) -> (r: Result<
    (),
    CheckpointImageLoadError,
>)
    ensures
        r == (if completions != 0 {
            Err::<(), _>(CheckpointImageLoadError::ScratchNotEmpty { len: completions })
        } else if max_reaps == 0 {
            Err(CheckpointImageLoadError::ZeroReapLimit)
        } else {
            Ok(())
        }),
{
    if completions != 0 {
        return Err(CheckpointImageLoadError::ScratchNotEmpty { len: completions });
    }
    if max_reaps == 0 {
        return Err(CheckpointImageLoadError::ZeroReapLimit);
    }
    Ok(())
}

/// What is wrong with the sections of a keyspace snapshot, if anything.
pub open spec fn snapshot_fault(sections: Seq<CheckpointSectionMeta>) -> Option<
    CheckpointImageLoadError,
> {
    if sections.len() != CHECKPOINT_KEYSPACE_SNAPSHOT_SECTION_COUNT {
        Some(
            CheckpointImageLoadError::SectionCountMismatchForPayloads {
                expected: CHECKPOINT_KEYSPACE_SNAPSHOT_SECTION_COUNT,
                got: sections.len() as u32,
            },
        )
    } else if sections[0].kind != CheckpointSectionKind::NamespaceCatalog {
        Some(
            CheckpointImageLoadError::SectionKindMismatch {
                ordinal: 0,
                expected: CheckpointSectionKind::NamespaceCatalog,
                got: sections[0].kind,
            },
        )
    } else if sections[1].kind != CheckpointSectionKind::Records {
        Some(
            CheckpointImageLoadError::SectionKindMismatch {
                ordinal: 1,
                expected: CheckpointSectionKind::Records,
                got: sections[1].kind,
            },
        )
    } else {
        None
    }
}

fn validate_snapshot_sections(sections: &[CheckpointSectionMeta]) -> (r: Option<
    CheckpointImageLoadError,
>)
    requires
        sections@.len() <= u32::MAX,
    ensures
        r == snapshot_fault(sections@),
{
    if sections.len() != CHECKPOINT_KEYSPACE_SNAPSHOT_SECTION_COUNT as usize {
        return Some(
            CheckpointImageLoadError::SectionCountMismatchForPayloads {
                expected: CHECKPOINT_KEYSPACE_SNAPSHOT_SECTION_COUNT,
                got: sections.len() as u32,
            },
        );
    }
    if sections[0].kind != CheckpointSectionKind::NamespaceCatalog {
        return Some(
            CheckpointImageLoadError::SectionKindMismatch {
                ordinal: 0,
                expected: CheckpointSectionKind::NamespaceCatalog,
                got: sections[0].kind,
            },
        );
    }
    if sections[1].kind != CheckpointSectionKind::Records {
        return Some(
            CheckpointImageLoadError::SectionKindMismatch {
                ordinal: 1,
                expected: CheckpointSectionKind::Records,
                got: sections[1].kind,
            },
        );
    }
    None
}

/// The fixed lengths of the image format.
#[derive(Copy, Clone, Debug, PartialEq, Eq, Structural)]
pub struct ImageLayout {
    pub header_fixed_len: usize,
    pub section_header_len: usize,
    pub section_trailer_len: usize,
    pub footer_len: usize,
}

impl ImageLayout {
    /// No part is empty, and a section's length fits.
    pub open spec fn wf(&self) -> bool {
        &&& self.header_fixed_len > 0
        &&& self.section_header_len > 0
        &&& self.section_trailer_len > 0
        &&& self.footer_len > 0
        &&& self.section_header_len + u32::MAX + self.section_trailer_len <= usize::MAX
    }
}

/// A decoder's answer.
#[derive(Debug)]
pub enum Decoded {
    /// The header's whole length, from its prefix.
    HeaderLen(Result<usize, String>),
    Header(Result<LoadedCheckpointHeader, String>),
    /// A section's ordinal and payload length.
    SectionHeader(Result<(u32, u32), String>),
    /// A section's meta data and payload.
    Section(Result<(CheckpointSectionMeta, Vec<u8>), String>),
    /// The footer, held against the sections' count and digest.
    Footer(Result<CheckpointFooter, String>),
}

/// Where a load stands.
#[derive(Debug)]
pub enum LoadState {
    Opening,
    /// Reading a part: `held` grows to `need` bytes, of which the first `base`
    /// came from the part before it.
    Reading { part: ImagePart, base: usize, need: usize, held: Vec<u8> },
    /// Waiting for the decoder of a part.
    Decoding { part: ImagePart, held: Vec<u8> },
    /// Making sure that nothing follows the footer.
    Probing,
    Closing,
}

/// What a load does next.
#[derive(Debug)]
pub enum LoadStep {
    /// Reap again.
    Again,
    /// Issue the next operation.
    Next,
    /// Decode the part that was read.
    Decode,
    Finished(Result<LoadedParts, CheckpointImageLoadError>),
}

/// What a load gathered.
#[derive(Debug)]
pub struct LoadedParts {
    pub image: LoadedCheckpointImage,
    pub payloads: Vec<Vec<u8>>,
}

/// Buffers to release.
#[derive(Copy, Clone, Debug, PartialEq, Eq, Structural)]
pub struct Release {
    /// The one the completion returned.
    pub returned: Option<u32>,
    /// The one the read was issued with.
    pub own: Option<u32>,
}

/// Loads one image.
#[derive(Debug)]
pub struct ImageLoader {
    pub dir: i32,
    pub token: CompletionToken,
    pub max_reaps: u32,
    pub checkpoint: CheckpointRef,
    pub name: String,
    pub layout: ImageLayout,
    /// Whether the payloads of a keyspace snapshot are wanted.
    pub payloads_wanted: bool,
    pub fd: i32,
    pub offset_bytes: u64,
    pub attempts: u32,
    /// The read in flight: its buffer and length.
    pub buf: u32,
    pub requested: u32,
    pub state: LoadState,
    pub header: Option<LoadedCheckpointHeader>,
    pub sections: Vec<CheckpointSectionMeta>,
    pub payloads: Vec<Vec<u8>>,
    pub footer: Option<CheckpointFooter>,
    /// The first failure after the open.
    pub error: Option<CheckpointImageLoadError>,
}

/// A state that reads a part from what is held of it.
pub open spec fn reading(
    state: LoadState,
    part: ImagePart,
    base: int,
    need: int,
    held: Seq<u8>,
) -> bool {
    state matches LoadState::Reading { part: p, base: b, need: n, held: h } && p == part && b
        == base && n == need && h@ == held
}

/// A state that waits for a part's decoder.
pub open spec fn decoding(state: LoadState, part: ImagePart, held: Seq<u8>) -> bool {
    state matches LoadState::Decoding { part: p, held: h } && p == part && h@ == held
}

/// A load's error for a failed reap.
pub open spec fn reap_failure(
    phase: CheckpointImageLoadPhase,
    error: ReapError,
) -> CheckpointImageLoadError {
    match error {
        ReapError::Backend(source) => CheckpointImageLoadError::Backend { phase, source },
        ReapError::UnexpectedCompletionCount { expected, got } => {
            CheckpointImageLoadError::UnexpectedCompletionCount { phase, expected, got }
        },
        ReapError::UnexpectedToken { expected, got } => {
            CheckpointImageLoadError::UnexpectedToken { phase, expected, got }
        },
        ReapError::ReapLimitExceeded { token, attempts } => {
            CheckpointImageLoadError::ReapLimitExceeded { phase, token, attempts }
        },
    }
}

fn reap_failure_of(phase: CheckpointImageLoadPhase, error: ReapError) -> (r:
    CheckpointImageLoadError)
    ensures
        r == reap_failure(phase, error),
{
    match error {
        ReapError::Backend(source) => CheckpointImageLoadError::Backend { phase, source },
        ReapError::UnexpectedCompletionCount { expected, got } => {
            CheckpointImageLoadError::UnexpectedCompletionCount { phase, expected, got }
        },
        ReapError::UnexpectedToken { expected, got } => {
            CheckpointImageLoadError::UnexpectedToken { phase, expected, got }
        },
        ReapError::ReapLimitExceeded { token, attempts } => {
            CheckpointImageLoadError::ReapLimitExceeded { phase, token, attempts }
        },
    }
}

impl ImageLoader {
    /// Every section read so far has its payload, no more sections were read
    /// than the header declares, and a load without an error reaches its end
    /// with all of them and the footer.
    pub open spec fn wf(&self) -> bool {
        &&& self.layout.wf()
        &&& self.max_reaps > 0
        &&& self.attempts <= self.max_reaps
        &&& self.sections@.len() == self.payloads@.len()
        &&& self.header matches Some(h) ==> h.checkpoint == self.checkpoint
            && self.sections@.len() <= h.section_count
        &&& self.header is None ==> self.sections@.len() == 0
        &&& match self.state {
            LoadState::Opening => self.error is None && self.header is None,
            LoadState::Reading { part, base, need, held } => {
                &&& self.error is None
                &&& base <= held@.len() < need
                &&& self.part_in_turn(part)
                &&& part is HeaderPrefix ==> need == self.layout.header_fixed_len
                &&& part is SectionHeader ==> need == self.layout.section_header_len
            },
            LoadState::Decoding { part, held } => {
                &&& self.error is None
                &&& self.part_in_turn(part)
                &&& part is HeaderPrefix ==> held@.len() == self.layout.header_fixed_len
                &&& part is SectionHeader ==> held@.len() == self.layout.section_header_len
            },
            LoadState::Probing => self.error is None && self.complete(),
            LoadState::Closing => self.error is None ==> self.complete() && (
            self.payloads_wanted ==> snapshot_fault(self.sections@) is None),
        }
    }

    /// A part's turn has come.
    pub open spec fn part_in_turn(&self, part: ImagePart) -> bool {
        match part {
            ImagePart::HeaderPrefix => self.header is None,
            ImagePart::Header => self.header is None,
            ImagePart::SectionHeader => self.header matches Some(h) && self.sections@.len()
                < h.section_count,
            ImagePart::SectionBody => self.header matches Some(h) && self.sections@.len()
                < h.section_count,
            ImagePart::Footer => self.header matches Some(h) && self.sections@.len()
                == h.section_count,
        }
    }

    /// Header, sections and footer are all there.
    pub open spec fn complete(&self) -> bool {
        &&& self.header matches Some(h) && self.sections@.len() == h.section_count
        &&& self.footer is Some
    }

    /// A load about to open its file.
    pub fn new(
        config: CheckpointImageLoadConfig,
        checkpoint: CheckpointRef,
        name: String,
        layout: ImageLayout,
        payloads_wanted: bool,
    ) -> (r: ImageLoader)
        requires
            layout.wf(),
            config.max_reaps > 0,
        ensures
            r.wf(),
            r.dir == config.dir,
            r.token == (CompletionToken {
                class: TokenClass::File,
                slot: config.token_slot,
                generation: config.token_generation,
            }),
            r.max_reaps == config.max_reaps,
            r.checkpoint == checkpoint,
            r.name == name,
            r.layout == layout,
            r.payloads_wanted == payloads_wanted,
            r.offset_bytes == 0,
            r.attempts == 0,
            r.state is Opening,
            r.error is None,
    {
        ImageLoader {
            dir: config.dir,
            token: CompletionToken {
                class: TokenClass::File,
                slot: config.token_slot,
                generation: config.token_generation,
            },
            max_reaps: config.max_reaps,
            checkpoint,
            name,
            layout,
            payloads_wanted,
            fd: 0,
            offset_bytes: 0,
            attempts: 0,
            buf: 0,
            requested: 0,
            state: LoadState::Opening,
            header: None,
            sections: Vec::new(),
            payloads: Vec::new(),
            footer: None,
            error: None,
        }
    }

    /// Whether the next operation is a read and needs a buffer.
    pub fn wants_buffer(&self) -> (r: bool)
        ensures
            r == (self.state is Reading || self.state is Probing),
    {
        match &self.state {
            LoadState::Reading { .. } => true,
            LoadState::Probing => true,
            _ => false,
        }
    }

    /// How many bytes the next read asks for.
    pub open spec fn asks(&self, buf_size: usize) -> int {
        match self.state {
            LoadState::Reading { need, held, .. } => io::chunk_len(buf_size, need - held@.len()),
            _ => 1,
        }
    }

    /// Issues the operation the state owes. `buf` is the leased read buffer:
    /// without one a read fails the load, and the close is issued.
    pub fn issue(&mut self, buf_size: usize, buf: Option<u32>) -> (r: IoOp)
        requires
            old(self).wf(),
            !(old(self).state is Decoding),
            0 < buf_size <= u32::MAX,
        ensures
            final(self).wf(),
            final(self).attempts == 0,
            match (old(self).state, buf) {
                (LoadState::Opening, _) => r@ == (io::Op::Open {
                    dir: old(self).dir,
                    name: old(self).name@,
                    mode: FileOpenMode::ReadOnly,
                    token: old(self).token,
                }) && *final(self) == (ImageLoader { attempts: 0, ..*old(self) }),
                (LoadState::Closing, _) => r@ == (io::Op::Close {
                    fd: old(self).fd,
                    token: old(self).token,
                }) && *final(self) == (ImageLoader { attempts: 0, ..*old(self) }),
                (_, Some(buf)) => r@ == (io::Op::Read {
                    fd: old(self).fd,
                    offset: old(self).offset_bytes,
                    buf,
                    len: old(self).asks(buf_size) as u32,
                    token: old(self).token,
                }) && *final(self) == (ImageLoader {
                    attempts: 0,
                    buf,
                    requested: old(self).asks(buf_size) as u32,
                    ..*old(self)
                }),
                (_, None) => r@ == (io::Op::Close { fd: old(self).fd, token: old(self).token })
                    && *final(self) == (ImageLoader {
                    attempts: 0,
                    error: Some(CheckpointImageLoadError::ReadBufferUnavailable),
                    state: LoadState::Closing,
                    ..*old(self)
                }),
            },
    {
        self.attempts = 0;
        let mut ask: u32 = 0;
        match &self.state {
            LoadState::Opening => {
                return IoOp::FileOpen {
                    dir: self.dir,
                    name: self.name.clone(),
                    mode: FileOpenMode::ReadOnly,
                    token: self.token,
                };
            },
            LoadState::Closing => {
                return IoOp::FileClose { fd: self.fd, token: self.token };
            },
            LoadState::Reading { need, held, .. } => {
                let left: usize = *need - held.len();
                ask = if buf_size <= left {
                    buf_size as u32
                } else {
                    left as u32
                };
            },
            _ => {
                ask = 1;
            },
        }
        match buf {
            Some(buf) => {
                self.buf = buf;
                self.requested = ask;
                IoOp::FileReadAt {
                    fd: self.fd,
                    offset_bytes: self.offset_bytes,
                    buf,
                    len: ask,
                    token: self.token,
                }
            },
            None => {
                self.error = Some(CheckpointImageLoadError::ReadBufferUnavailable);
                self.state = LoadState::Closing;
                IoOp::FileClose { fd: self.fd, token: self.token }
            },
        }
    }

    /// The phase the operation in flight belongs to.
    pub open spec fn phase(&self) -> CheckpointImageLoadPhase {
        match self.state {
            LoadState::Opening => CheckpointImageLoadPhase::Open,
            LoadState::Closing => CheckpointImageLoadPhase::Close,
            _ => CheckpointImageLoadPhase::Read,
        }
    }

    fn phase_of(&self) -> (r: CheckpointImageLoadPhase)
        ensures
            r == self.phase(),
    {
        match &self.state {
            LoadState::Opening => CheckpointImageLoadPhase::Open,
            LoadState::Closing => CheckpointImageLoadPhase::Close,
            _ => CheckpointImageLoadPhase::Read,
        }
    }

    /// The bytes a read returned; the error of any other result. `buf_size` is
    /// the buffers' size.
    pub open spec fn read_of(&self, result: CompletionResult, buf_size: usize) -> Result<
        u32,
        CheckpointImageLoadError,
    > {
        match result {
            CompletionResult::FileRead { len, .. } => if len > self.requested || len > buf_size {
                Err(
                    CheckpointImageLoadError::ReadLenTooLarge {
                        fd: self.fd,
                        offset_bytes: self.offset_bytes,
                        len,
                        requested_len: self.requested,
                        buffer_len_bytes: buf_size,
                    },
                )
            } else {
                Ok(len)
            },
            CompletionResult::Error { errno, buf: Some(_) } => Err(
                CheckpointImageLoadError::Read {
                    fd: self.fd,
                    offset_bytes: self.offset_bytes,
                    errno,
                },
            ),
            CompletionResult::Error { errno, buf: None } => Err(
                CheckpointImageLoadError::MissingReadBuffer {
                    fd: self.fd,
                    offset_bytes: self.offset_bytes,
                    errno,
                },
            ),
            result => Err(
                CheckpointImageLoadError::UnexpectedCompletionKind {
                    phase: CheckpointImageLoadPhase::Read,
                    result,
                },
            ),
        }
    }

    fn take_read(&self, result: CompletionResult, buf_size: usize) -> (r: Result<
        u32,
        CheckpointImageLoadError,
    >)
        ensures
            r == self.read_of(result, buf_size),
    {
        match result {
            CompletionResult::FileRead { len, .. } => {
                if len > self.requested || len as u64 > buf_size as u64 {
                    return Err(
                        CheckpointImageLoadError::ReadLenTooLarge {
                            fd: self.fd,
                            offset_bytes: self.offset_bytes,
                            len,
                            requested_len: self.requested,
                            buffer_len_bytes: buf_size,
                        },
                    );
                }
                Ok(len)
            },
            CompletionResult::Error { errno, buf: Some(_) } => Err(
                CheckpointImageLoadError::Read {
                    fd: self.fd,
                    offset_bytes: self.offset_bytes,
                    errno,
                },
            ),
            CompletionResult::Error { errno, buf: None } => Err(
                CheckpointImageLoadError::MissingReadBuffer {
                    fd: self.fd,
                    offset_bytes: self.offset_bytes,
                    errno,
                },
            ),
            result => Err(
                CheckpointImageLoadError::UnexpectedCompletionKind {
                    phase: CheckpointImageLoadPhase::Read,
                    result,
                },
            ),
        }
    }

    /// The buffers a result releases: the one it returned, and for a read that
    /// came back as something else, the one the read was issued with.
    pub open spec fn released(&self, result: CompletionResult) -> Release {
        Release {
            returned: result.returned(),
            own: if self.phase() is Read && !(result is FileRead) && !(result matches
                CompletionResult::Error { buf: Some(_), .. }) {
                Some(self.buf)
            } else {
                None
            },
        }
    }

    /// The load after a failure past the open: the file is closed next.
    pub open spec fn failed(&self, error: CheckpointImageLoadError) -> ImageLoader {
        ImageLoader { error: Some(error), state: LoadState::Closing, ..*self }
    }

    /// What a load makes of its operation's result, or of the error that
    /// stands for it. `window` is what the returned buffer holds.
    pub open spec fn advances(
        &self,
        outcome: Result<CompletionResult, CheckpointImageLoadError>,
        window: Seq<u8>,
        step: LoadStep,
        next: ImageLoader,
    ) -> bool {
        match self.state {
            LoadState::Opening => match outcome {
                Ok(CompletionResult::FileOpened { fd }) => step is Next && reading(
                    next.state,
                    ImagePart::HeaderPrefix,
                    0,
                    self.layout.header_fixed_len as int,
                    Seq::empty(),
                ) && next == (ImageLoader { fd, state: next.state, ..*self }),
                Ok(CompletionResult::Error { errno, buf: None }) => step == LoadStep::Finished(
                    Err(
                        if errno == ENOENT_ERRNO {
                            CheckpointImageLoadError::Missing { name: self.name }
                        } else {
                            CheckpointImageLoadError::Open { name: self.name, errno }
                        },
                    ),
                ),
                Ok(result) => step == LoadStep::Finished(
                    Err(
                        CheckpointImageLoadError::UnexpectedCompletionKind {
                            phase: CheckpointImageLoadPhase::Open,
                            result,
                        },
                    ),
                ),
                Err(error) => step == LoadStep::Finished(Err(error)),
            },
            LoadState::Reading { part, base, need, held } => match outcome {
                Err(error) => step is Next && next == self.failed(error),
                Ok(result) => match self.read_of(result, window.len() as usize) {
                    Err(error) => step is Next && next == self.failed(error),
                    Ok(len) => if len == 0 {
                        step is Next && next == self.failed(
                            CheckpointImageLoadError::UnexpectedEof {
                                part,
                                needed: (need - base) as usize,
                                got: (held@.len() - base) as usize,
                            },
                        )
                    } else {
                        let all = held@ + window.take(len as int);
                        &&& next == (ImageLoader {
                            offset_bytes: (self.offset_bytes + len) as u64,
                            state: next.state,
                            ..*self
                        })
                        &&& if all.len() == need {
                            step is Decode && decoding(next.state, part, all)
                        } else {
                            step is Next && reading(next.state, part, base as int, need as int, all)
                        }
                    },
                },
            },
            LoadState::Probing => match outcome {
                Err(error) => step is Next && next == self.failed(error),
                Ok(result) => match self.read_of(result, window.len() as usize) {
                    Err(error) => step is Next && next == self.failed(error),
                    Ok(len) => if len == 0 {
                        step is Next && next == (ImageLoader {
                            error: if self.payloads_wanted {
                                snapshot_fault(self.sections@)
                            } else {
                                None
                            },
                            state: LoadState::Closing,
                            ..*self
                        })
                    } else {
                        let end = (self.offset_bytes + len) as u64;
                        step is Next && next == (ImageLoader { offset_bytes: end, ..*self }).failed(
                            CheckpointImageLoadError::TrailingBytes {
                                name: self.name,
                                offset_bytes: end,
                            },
                        )
                    },
                },
            },
            LoadState::Closing => match (self.error, outcome) {
                (Some(error), _) => step == LoadStep::Finished(Err(error)),
                (None, Ok(CompletionResult::FileClosed)) => step matches LoadStep::Finished(
                    Ok(parts),
                ) && parts.payloads == self.payloads && (self.header matches Some(h)
                    && parts.image == (LoadedCheckpointImage {
                    cell: h.cell,
                    checkpoint: h.checkpoint,
                    namespaces: h.namespaces,
                    sections: self.sections,
                    footer: self.footer->0,
                    bytes_read: self.offset_bytes,
                })),
                (None, Ok(CompletionResult::Error { errno, buf: None })) => step
                    == LoadStep::Finished(
                    Err(CheckpointImageLoadError::Close { fd: self.fd, errno }),
                ),
                (None, Ok(result)) => step == LoadStep::Finished(
                    Err(
                        CheckpointImageLoadError::UnexpectedCompletionKind {
                            phase: CheckpointImageLoadPhase::Close,
                            result,
                        },
                    ),
                ),
                (None, Err(error)) => step == LoadStep::Finished(Err(error)),
            },
            LoadState::Decoding { .. } => false,
        }
    }

    fn fail(&mut self, error: CheckpointImageLoadError) -> (r: LoadStep)
        requires
            old(self).wf(),
            !(old(self).state is Opening),
        ensures
            final(self).wf(),
            r is Next,
            *final(self) == old(self).failed(error),
    {
        self.error = Some(error);
        self.state = LoadState::Closing;
        LoadStep::Next
    }

    fn on_read(&mut self, result: CompletionResult, window: &[u8]) -> (r: LoadStep)
        requires
            old(self).wf(),
            old(self).state is Reading,
            old(self).requested <= old(self).asks(window@.len() as usize),
            old(self).offset_bytes + u32::MAX <= u64::MAX,
        ensures
            final(self).wf(),
            !(r is Again),
            old(self).advances(Ok(result), window@, r, *final(self)),
    {
        let len: u32 = match self.take_read(result, window.len()) {
            Ok(len) => len,
            Err(error) => return self.fail(error),
        };
        let mut state = LoadState::Probing;
        std::mem::swap(&mut state, &mut self.state);
        match state {
            LoadState::Reading { part, base, need, held } => {
                let mut held = held;
                if len == 0 {
                    let got: usize = held.len() - base;
                    self.error =
                    Some(
                        CheckpointImageLoadError::UnexpectedEof { part, needed: need - base, got },
                    );
                    self.state = LoadState::Closing;
                    return LoadStep::Next;
                }
                let chunk = vstd::slice::slice_subrange(window, 0, len as usize);
                proof {
                    assert(chunk@ =~= window@.take(len as int));
                }
                text::push_bytes(&mut held, chunk);
                self.offset_bytes += len as u64;
                if held.len() == need {
                    self.state = LoadState::Decoding { part, held };
                    LoadStep::Decode
                } else {
                    self.state = LoadState::Reading { part, base, need, held };
                    LoadStep::Next
                }
            },
            other => {
                self.state = other;
                LoadStep::Next
            },
        }
    }

    fn on_probe(&mut self, result: CompletionResult, window: &[u8]) -> (r: LoadStep)
        requires
            old(self).wf(),
            old(self).state is Probing,
            old(self).offset_bytes + u32::MAX <= u64::MAX,
            old(self).sections@.len() <= u32::MAX,
        ensures
            final(self).wf(),
            !(r is Again),
            old(self).advances(Ok(result), window@, r, *final(self)),
    {
        let len: u32 = match self.take_read(result, window.len()) {
            Ok(len) => len,
            Err(error) => return self.fail(error),
        };
        if len == 0 {
            if self.payloads_wanted {
                self.error = validate_snapshot_sections(self.sections.as_slice());
            }
            self.state = LoadState::Closing;
            return LoadStep::Next;
        }
        self.offset_bytes += len as u64;
        let error = CheckpointImageLoadError::TrailingBytes {
            name: self.name.clone(),
            offset_bytes: self.offset_bytes,
        };
        self.error = Some(error);
        self.state = LoadState::Closing;
        LoadStep::Next
    }

    fn on_closed(&mut self, outcome: Result<CompletionResult, CheckpointImageLoadError>) -> (r:
        LoadStep)
        requires
            old(self).wf(),
            old(self).state is Closing,
        ensures
            r is Finished,
            forall|window: Seq<u8>| #[trigger]
                old(self).advances(outcome, window, r, *final(self)),
    {
        let mut first: Option<CheckpointImageLoadError> = None;
        std::mem::swap(&mut first, &mut self.error);
        if let Some(error) = first {
            return LoadStep::Finished(Err(error));
        }
        match outcome {
            Err(error) => LoadStep::Finished(Err(error)),
            Ok(CompletionResult::FileClosed) => {
                let mut header: Option<LoadedCheckpointHeader> = None;
                std::mem::swap(&mut header, &mut self.header);
                let mut sections: Vec<CheckpointSectionMeta> = Vec::new();
                std::mem::swap(&mut sections, &mut self.sections);
                let mut payloads: Vec<Vec<u8>> = Vec::new();
                std::mem::swap(&mut payloads, &mut self.payloads);
                match (header, self.footer) {
                    (Some(h), Some(footer)) => LoadStep::Finished(
                        Ok(
                            LoadedParts {
                                image: LoadedCheckpointImage {
                                    cell: h.cell,
                                    checkpoint: h.checkpoint,
                                    namespaces: h.namespaces,
                                    sections,
                                    footer,
                                    bytes_read: self.offset_bytes,
                                },
                                payloads,
                            },
                        ),
                    ),
                    _ => LoadStep::Finished(Err(CheckpointImageLoadError::ZeroReapLimit)),
                }
            },
            Ok(CompletionResult::Error { errno, buf: None }) => LoadStep::Finished(
                Err(CheckpointImageLoadError::Close { fd: self.fd, errno }),
            ),
            Ok(result) => LoadStep::Finished(
                Err(
                    CheckpointImageLoadError::UnexpectedCompletionKind {
                        phase: CheckpointImageLoadPhase::Close,
                        result,
                    },
                ),
            ),
        }
    }

    fn on_opened(&mut self, result: CompletionResult) -> (r: LoadStep)
        requires
            old(self).wf(),
            old(self).state is Opening,
        ensures
            !(r is Finished) ==> final(self).wf(),
            !(r is Again),
            forall|window: Seq<u8>| #[trigger]
                old(self).advances(Ok(result), window, r, *final(self)),
    {
        match result {
            CompletionResult::FileOpened { fd } => {
                self.fd = fd;
                self.state = LoadState::Reading {
                    part: ImagePart::HeaderPrefix,
                    base: 0,
                    need: self.layout.header_fixed_len,
                    held: Vec::new(),
                };
                LoadStep::Next
            },
            CompletionResult::Error { errno, buf: None } => {
                let name = self.name.clone();
                if errno == ENOENT_ERRNO {
                    LoadStep::Finished(Err(CheckpointImageLoadError::Missing { name }))
                } else {
                    LoadStep::Finished(Err(CheckpointImageLoadError::Open { name, errno }))
                }
            },
            result => LoadStep::Finished(
                Err(
                    CheckpointImageLoadError::UnexpectedCompletionKind {
                        phase: CheckpointImageLoadPhase::Open,
                        result,
                    },
                ),
            ),
        }
    }

    /// The same after one more attempt to reap.
    pub open spec fn tried(&self) -> ImageLoader {
        ImageLoader { attempts: (self.attempts + 1) as u32, ..*self }
    }

    /// A read's completion returns the buffer the read was issued with.
    pub open spec fn returns_own_buffer(&self, reaped: Reaped) -> bool {
        match reaped {
            Reaped::One(completion) => completion.token == self.token && (self.state is Reading
                || self.state is Probing) ==> match completion.result {
                CompletionResult::FileRead { buf, .. } => buf == self.buf,
                CompletionResult::Error { buf: Some(buf), .. } => buf == self.buf,
                _ => true,
            },
            _ => true,
        }
    }

    /// Takes one attempt to reap the operation in flight. `window` is what the
    /// buffer of a read holds, as long as every buffer. Returns what follows and
    /// the buffers to release.
    pub fn reaped(&mut self, reaped: Reaped, window: &[u8]) -> (r: (LoadStep, Release))
        requires
            old(self).wf(),
            !(old(self).state is Decoding),
            old(self).attempts < old(self).max_reaps,
            old(self).returns_own_buffer(reaped),
            old(self).state is Reading ==> old(self).requested <= old(self).asks(
                window@.len() as usize,
            ),
            old(self).offset_bytes + u32::MAX <= u64::MAX,
            old(self).sections@.len() <= u32::MAX,
        ensures
            !(r.0 is Finished) ==> final(self).wf(),
            r.0 is Again ==> final(self).attempts < final(self).max_reaps,
            match io::reap_owed(
                reaped,
                old(self).token,
                old(self).attempts + 1,
                old(self).max_reaps,
            ) {
                ReapStep::Again => r.0 is Again && r.1 == (Release { returned: None, own: None })
                    && *final(self) == old(self).tried(),
                ReapStep::Fail { error, release } => r.1 == (Release {
                    returned: release,
                    own: None,
                }) && old(self).tried().advances(
                    Err(reap_failure(old(self).phase(), error)),
                    window@,
                    r.0,
                    *final(self),
                ),
                ReapStep::Done(result) => r.1 == old(self).released(result) && old(
                    self,
                ).tried().advances(Ok(result), window@, r.0, *final(self)),
            },
    {
        let token = self.token;
        let max_reaps: u32 = self.max_reaps;
        self.attempts += 1;
        let phase = self.phase_of();
        match judge_reap(reaped, token, self.attempts, max_reaps) {
            ReapStep::Again => (LoadStep::Again, Release { returned: None, own: None }),
            ReapStep::Fail { error, release } => {
                let failure = reap_failure_of(phase, error);
                let step = match phase {
                    CheckpointImageLoadPhase::Open => LoadStep::Finished(Err(failure)),
                    CheckpointImageLoadPhase::Read => self.fail(failure),
                    CheckpointImageLoadPhase::Close => self.on_closed(Err(failure)),
                };
                (step, Release { returned: release, own: None })
            },
            ReapStep::Done(result) => {
                let returned = release_result_buffer(&result);
                let mine = match result {
                    CompletionResult::FileRead { .. } => false,
                    CompletionResult::Error { buf: Some(_), .. } => false,
                    _ => phase == CheckpointImageLoadPhase::Read,
                };
                let own = if mine {
                    Some(self.buf)
                } else {
                    None
                };
                let probing = match &self.state {
                    LoadState::Probing => true,
                    _ => false,
                };
                let step = match phase {
                    CheckpointImageLoadPhase::Open => self.on_opened(result),
                    CheckpointImageLoadPhase::Read => {
                        if probing {
                            self.on_probe(result, window)
                        } else {
                            self.on_read(result, window)
                        }
                    },
                    CheckpointImageLoadPhase::Close => self.on_closed(Ok(result)),
                };
                (step, Release { returned, own })
            },
        }
    }

    /// Whether an answer is the one the state waits for.
    pub open spec fn answers(&self, answer: Decoded) -> bool {
        match (self.state, answer) {
            (LoadState::Decoding { part: ImagePart::HeaderPrefix, .. }, Decoded::HeaderLen(_)) => true,
            (LoadState::Decoding { part: ImagePart::Header, .. }, Decoded::Header(_)) => true,
            (
                LoadState::Decoding { part: ImagePart::SectionHeader, .. },
                Decoded::SectionHeader(_),
            ) => true,
            (LoadState::Decoding { part: ImagePart::SectionBody, .. }, Decoded::Section(_)) => true,
            (LoadState::Decoding { part: ImagePart::Footer, .. }, Decoded::Footer(_)) => true,
            _ => false,
        }
    }

    /// The state reads the part that follows the header or a section: the next
    /// section while the header declares more, the footer otherwise.
    pub open spec fn reads_on(&self, state: LoadState) -> bool {
        if self.sections@.len() < self.header->0.section_count {
            reading(
                state,
                ImagePart::SectionHeader,
                0,
                self.layout.section_header_len as int,
                Seq::empty(),
            )
        } else {
            reading(state, ImagePart::Footer, 0, self.layout.footer_len as int, Seq::empty())
        }
    }

    /// What a load makes of a decoder's answer.
    pub open spec fn takes_answer(&self, answer: Decoded, step: LoadStep, next: ImageLoader) -> bool {
        let held = match self.state {
            LoadState::Decoding { held, .. } => held@,
            _ => Seq::empty(),
        };
        match answer {
            Decoded::HeaderLen(Ok(len)) => next == (ImageLoader { state: next.state, ..*self })
                && if len > self.layout.header_fixed_len {
                step is Next && reading(
                    next.state,
                    ImagePart::Header,
                    self.layout.header_fixed_len as int,
                    len as int,
                    held,
                )
            } else {
                step is Decode && decoding(next.state, ImagePart::Header, held)
            },
            Decoded::HeaderLen(Err(error)) => step is Next && next == self.failed(
                CheckpointImageLoadError::Decode(error),
            ),
            Decoded::Header(Ok(header)) => if header.checkpoint != self.checkpoint {
                step is Next && next == self.failed(
                    CheckpointImageLoadError::CheckpointMismatch {
                        expected: self.checkpoint,
                        got: header.checkpoint,
                    },
                )
            } else {
                step is Next && next.reads_on(next.state) && next == (ImageLoader {
                    header: Some(header),
                    state: next.state,
                    ..*self
                })
            },
            Decoded::Header(Err(error)) => step is Next && next == self.failed(
                CheckpointImageLoadError::Decode(error),
            ),
            Decoded::SectionHeader(Ok((ordinal, payload_len))) => if ordinal
                != self.sections@.len() {
                step is Next && next == self.failed(
                    CheckpointImageLoadError::SectionOrdinalMismatch {
                        expected: self.sections@.len() as u32,
                        got: ordinal,
                    },
                )
            } else {
                step is Next && next == (ImageLoader { state: next.state, ..*self }) && reading(
                    next.state,
                    ImagePart::SectionBody,
                    self.layout.section_header_len as int,
                    self.layout.section_header_len + payload_len + self.layout.section_trailer_len,
                    held,
                )
            },
            Decoded::SectionHeader(Err(error)) => step is Next && next == self.failed(
                CheckpointImageLoadError::Decode(error),
            ),
            Decoded::Section(Ok((meta, payload))) => step is Next && next.sections@
                == self.sections@.push(meta) && next.payloads@ == self.payloads@.push(payload)
                && next.reads_on(next.state) && next == (ImageLoader {
                sections: next.sections,
                payloads: next.payloads,
                state: next.state,
                ..*self
            }),
            Decoded::Section(Err(error)) => step is Next && next == self.failed(
                CheckpointImageLoadError::Decode(error),
            ),
            Decoded::Footer(Ok(footer)) => step is Next && next == (ImageLoader {
                footer: Some(footer),
                state: LoadState::Probing,
                ..*self
            }),
            Decoded::Footer(Err(error)) => step is Next && next == self.failed(
                CheckpointImageLoadError::Decode(error),
            ),
        }
    }

    fn start_next_part(&mut self)
        requires
            old(self).layout.wf(),
            old(self).header is Some,
        ensures
            final(self).reads_on(final(self).state),
            *final(self) == (ImageLoader { state: final(self).state, ..*old(self) }),
    {
        let mut more = false;
        if let Some(h) = &self.header {
            more = (self.sections.len() as u64) < h.section_count as u64;
        }
        self.state =
        if more {
            LoadState::Reading {
                part: ImagePart::SectionHeader,
                base: 0,
                need: self.layout.section_header_len,
                held: Vec::new(),
            }
        } else {
            LoadState::Reading {
                part: ImagePart::Footer,
                base: 0,
                need: self.layout.footer_len,
                held: Vec::new(),
            }
        };
    }

    /// Takes the decoder's answer on the part that was read.
    pub fn decoded(&mut self, answer: Decoded) -> (r: LoadStep)
        requires
            old(self).wf(),
            old(self).answers(answer),
        ensures
            final(self).wf(),
            old(self).takes_answer(answer, r, *final(self)),
    {
        match answer {
            Decoded::HeaderLen(Ok(len)) => {
                let mut state = LoadState::Closing;
                std::mem::swap(&mut state, &mut self.state);
                let held = match state {
                    LoadState::Decoding { held, .. } => held,
                    _ => Vec::new(),
                };
                if len > self.layout.header_fixed_len {
                    self.state = LoadState::Reading {
                        part: ImagePart::Header,
                        base: self.layout.header_fixed_len,
                        need: len,
                        held,
                    };
                    LoadStep::Next
                } else {
                    self.state = LoadState::Decoding { part: ImagePart::Header, held };
                    LoadStep::Decode
                }
            },
            Decoded::Header(Ok(header)) => {
                if header.checkpoint != self.checkpoint {
                    let error = CheckpointImageLoadError::CheckpointMismatch {
                        expected: self.checkpoint,
                        got: header.checkpoint,
                    };
                    return self.fail(error);
                }
                self.header = Some(header);
                self.start_next_part();
                LoadStep::Next
            },
            Decoded::SectionHeader(Ok((ordinal, payload_len))) => {
                let expected: u32 = self.sections.len() as u32;
                if ordinal != expected {
                    return self.fail(
                        CheckpointImageLoadError::SectionOrdinalMismatch { expected, got: ordinal },
                    );
                }
                let mut state = LoadState::Closing;
                std::mem::swap(&mut state, &mut self.state);
                let held = match state {
                    LoadState::Decoding { held, .. } => held,
                    _ => Vec::new(),
                };
                self.state = LoadState::Reading {
                    part: ImagePart::SectionBody,
                    base: self.layout.section_header_len,
                    need: self.layout.section_header_len + payload_len as usize
                        + self.layout.section_trailer_len,
                    held,
                };
                LoadStep::Next
            },
            Decoded::Section(Ok((meta, payload))) => {
                self.sections.push(meta);
                self.payloads.push(payload);
                self.start_next_part();
                LoadStep::Next
            },
            Decoded::Footer(Ok(footer)) => {
                self.footer = Some(footer);
                self.state = LoadState::Probing;
                LoadStep::Next
            },
            Decoded::HeaderLen(Err(error)) => self.fail(CheckpointImageLoadError::Decode(error)),
            Decoded::Header(Err(error)) => self.fail(CheckpointImageLoadError::Decode(error)),
            Decoded::SectionHeader(Err(error)) => self.fail(
                CheckpointImageLoadError::Decode(error),
            ),
            Decoded::Section(Err(error)) => self.fail(CheckpointImageLoadError::Decode(error)),
            Decoded::Footer(Err(error)) => self.fail(CheckpointImageLoadError::Decode(error)),
        }
    }
}

/// The payloads of a loaded keyspace snapshot: the catalog's, then the
/// records'.
pub fn into_payloads(parts: LoadedParts) -> (r: LoadedCheckpointImagePayloads)
    requires
        parts.payloads@.len() == CHECKPOINT_KEYSPACE_SNAPSHOT_SECTION_COUNT,
    ensures
        r.image == parts.image,
        r.namespace_catalog == parts.payloads@[0],
        r.records == parts.payloads@[1],
{
    let mut payloads = parts.payloads;
    let records = payloads.remove(1);
    let namespace_catalog = payloads.remove(0);
    LoadedCheckpointImagePayloads { image: parts.image, namespace_catalog, records }
}

/// A load that succeeds is of the requested checkpoint and complete: as many
/// sections as the header declares, each with its payload, and, where payloads
/// are wanted, exactly the catalog and the records.
pub proof fn law_loaded_image_is_requested(
    loader: ImageLoader,
    outcome: Result<CompletionResult, CheckpointImageLoadError>,
    window: Seq<u8>,
    parts: LoadedParts,
    next: ImageLoader,
)
    requires
        loader.wf(),
        loader.advances(outcome, window, LoadStep::Finished(Ok(parts)), next),
    ensures
        parts.image.checkpoint == loader.checkpoint,
        parts.image.sections@.len() == parts.payloads@.len(),
        loader.header matches Some(h) && parts.image.sections@.len() == h.section_count,
        loader.payloads_wanted ==> snapshot_fault(parts.image.sections@) is None
            && parts.payloads@.len() == CHECKPOINT_KEYSPACE_SNAPSHOT_SECTION_COUNT,
{
}

/// Nothing may follow an image's footer: a single byte read past it fails the
/// load, after the file is closed.
pub proof fn law_trailing_bytes_fail_closed(
    loader: ImageLoader,
    len: u32,
    buf: u32,
    window: Seq<u8>,
    step: LoadStep,
    next: ImageLoader,
)
    requires
        loader.state is Probing,
        0 < len <= loader.requested,
        len <= window.len() <= usize::MAX,
        loader.advances(Ok(CompletionResult::FileRead { buf, len }), window, step, next),
    ensures
        step is Next,
        next.state is Closing,
        next.error matches Some(error) && error is TrailingBytes,
{
}

/// A file that is not there is reported as missing, by its name; any other
/// failure to open it by its errno. Nothing is loaded from either.
pub proof fn law_missing_image_is_missing(
    loader: ImageLoader,
    errno: i32,
    window: Seq<u8>,
    step: LoadStep,
    next: ImageLoader,
)
    requires
        loader.state is Opening,
        loader.advances(
            Ok(CompletionResult::Error { errno, buf: None }),
            window,
            step,
            next,
        ),
    ensures
        errno == 2 ==> step == LoadStep::Finished(
            Err(CheckpointImageLoadError::Missing { name: loader.name }),
        ),
        errno != 2 ==> step == LoadStep::Finished(
            Err(CheckpointImageLoadError::Open { name: loader.name, errno }),
        ),
{
}

/// A read appends what it read: the bytes held before stay, the new ones are
/// the start of the window, and the place in the file moves on by as many. A
/// part is decoded exactly when all of it is held.
pub proof fn law_read_appends_its_bytes(
    loader: ImageLoader,
    part: ImagePart,
    base: usize,
    need: usize,
    held: Vec<u8>,
    buf: u32,
    len: u32,
    window: Seq<u8>,
    step: LoadStep,
    next: ImageLoader,
)
    requires
        loader.state == (LoadState::Reading { part, base, need, held }),
        0 < len <= loader.requested,
        len <= window.len() <= usize::MAX,
        loader.offset_bytes + len <= u64::MAX,
        loader.advances(Ok(CompletionResult::FileRead { buf, len }), window, step, next),
    ensures
        next.offset_bytes == loader.offset_bytes + len,
        next.error == loader.error,
        next.sections == loader.sections,
        next.payloads == loader.payloads,
        held@.len() + len == need ==> step is Decode && (next.state matches LoadState::Decoding {
            part: p,
            held: h,
        } && p == part && h@ == held@ + window.take(len as int)),
        held@.len() + len != need ==> step is Next && (next.state matches LoadState::Reading {
            part: p,
            base: b,
            need: n,
            held: h,
        } && p == part && b == base && n == need && h@ == held@ + window.take(len as int)),
{
}

/// An image that ends early is refused: a read of nothing before a part is
/// whole says which part it was, how much of it was needed and how much came.
pub proof fn law_short_image_is_refused(
    loader: ImageLoader,
    part: ImagePart,
    base: usize,
    need: usize,
    held: Vec<u8>,
    buf: u32,
    window: Seq<u8>,
    step: LoadStep,
    next: ImageLoader,
)
    requires
        loader.wf(),
        loader.state == (LoadState::Reading { part, base, need, held }),
        window.len() <= usize::MAX,
        loader.advances(Ok(CompletionResult::FileRead { buf, len: 0 }), window, step, next),
    ensures
        next.state is Closing,
        next.error matches Some(CheckpointImageLoadError::UnexpectedEof { part: p, needed, got })
            && p == part && needed == need - base && got == held@.len() - base && got < needed,
{
    assert(held.len() == held@.len());
}

/// A read that claims more than was asked for is refused, and one that failed
/// is reported where it failed.
pub proof fn law_bad_read_is_refused(
    loader: ImageLoader,
    result: CompletionResult,
    buf_size: usize,
)
    ensures
        loader.read_of(result, buf_size) matches Ok(len) ==> (
        result matches CompletionResult::FileRead { len: n, .. } && n == len && len
            <= loader.requested && len <= buf_size),
        (result matches CompletionResult::FileRead { len, .. } && len <= loader.requested && len
            <= buf_size) ==> loader.read_of(result, buf_size) is Ok,
        result matches CompletionResult::Error { errno, buf: Some(_) } ==> loader.read_of(
            result,
            buf_size,
        ) == Err::<u32, _>(
            CheckpointImageLoadError::Read {
                fd: loader.fd,
                offset_bytes: loader.offset_bytes,
                errno,
            },
        ),
        result matches CompletionResult::Error { errno, buf: None } ==> loader.read_of(
            result,
            buf_size,
        ) == Err::<u32, _>(
            CheckpointImageLoadError::MissingReadBuffer {
                fd: loader.fd,
                offset_bytes: loader.offset_bytes,
                errno,
            },
        ),
{
}

/// The first error stands: once a load has failed, closing the file reports
/// that error whatever the close brings. A load that has not failed reports a
/// close that did.
pub proof fn law_first_error_stands(
    loader: ImageLoader,
    outcome: Result<CompletionResult, CheckpointImageLoadError>,
    window: Seq<u8>,
    step: LoadStep,
    next: ImageLoader,
    errno: i32,
)
    requires
        loader.state is Closing,
        loader.advances(outcome, window, step, next),
    ensures
        loader.error matches Some(error) ==> step == LoadStep::Finished(Err(error)),
        loader.error is None && outcome == Ok::<_, CheckpointImageLoadError>(
            CompletionResult::Error { errno, buf: None },
        ) ==> step == LoadStep::Finished(
            Err(CheckpointImageLoadError::Close { fd: loader.fd, errno }),
        ),
        loader.error is None && outcome == Ok::<_, CheckpointImageLoadError>(
            CompletionResult::FileClosed,
        ) ==> (step matches LoadStep::Finished(Ok(_))),
        step matches LoadStep::Finished(Ok(_)) ==> loader.error is None,
{
}

/// What a load hands over is what it read: the header's cell, checkpoint and
/// namespaces, the sections and payloads in order, the footer, and how far it
/// read.
pub proof fn law_loaded_image_is_what_was_read(
    loader: ImageLoader,
    outcome: Result<CompletionResult, CheckpointImageLoadError>,
    window: Seq<u8>,
    parts: LoadedParts,
    next: ImageLoader,
)
    requires
        loader.wf(),
        loader.advances(outcome, window, LoadStep::Finished(Ok(parts)), next),
    ensures
        loader.state is Closing,
        parts.payloads == loader.payloads,
        parts.image.sections == loader.sections,
        parts.image.bytes_read == loader.offset_bytes,
        loader.footer == Some(parts.image.footer),
        loader.header matches Some(h) && parts.image.cell == h.cell && parts.image.namespaces
            == h.namespaces && parts.image.checkpoint == h.checkpoint,
{
}

/// The image of another checkpoint is refused, and a section out of its turn:
/// both are named. What is in its turn is kept: the section and its payload
/// behind those before it.
pub proof fn law_only_the_image_asked_for(
    loader: ImageLoader,
    answer: Decoded,
    step: LoadStep,
    next: ImageLoader,
)
    requires
        loader.wf(),
        loader.answers(answer),
        loader.takes_answer(answer, step, next),
        loader.sections@.len() <= u32::MAX,
    ensures
        answer matches Decoded::Header(Ok(h)) ==> (h.checkpoint != loader.checkpoint ==> (
        next.error matches Some(CheckpointImageLoadError::CheckpointMismatch { expected, got })
            && expected == loader.checkpoint && got == h.checkpoint && next.state is Closing)),
        answer matches Decoded::Header(Ok(h)) ==> (h.checkpoint == loader.checkpoint ==> next.error
            is None && next.header == Some(h)),
        answer matches Decoded::SectionHeader(Ok((ordinal, _))) ==> (ordinal
            != loader.sections@.len() ==> (next.error matches Some(
            CheckpointImageLoadError::SectionOrdinalMismatch { expected, got },
        ) && expected == loader.sections@.len() && got == ordinal && next.state is Closing)),
        answer matches Decoded::SectionHeader(Ok((ordinal, len))) ==> (ordinal
            == loader.sections@.len() ==> next.error is None && (
        next.state matches LoadState::Reading { part, base, need, .. } && part is SectionBody
            && need == loader.layout.section_header_len + len + loader.layout.section_trailer_len)),
        answer matches Decoded::Section(Ok((meta, payload))) ==> next.sections@
            == loader.sections@.push(meta) && next.payloads@ == loader.payloads@.push(payload),
        answer matches Decoded::Footer(Ok(footer)) ==> next.footer == Some(footer)
            && next.state is Probing,
{
}

/// What cannot be decoded fails the load with the decoder's words, whichever
/// part it was.
pub proof fn law_undecodable_part_fails(
    loader: ImageLoader,
    answer: Decoded,
    step: LoadStep,
    next: ImageLoader,
)
    requires
        loader.takes_answer(answer, step, next),
    ensures
        answer matches Decoded::HeaderLen(Err(e)) ==> next.state is Closing && next.error == Some(
            CheckpointImageLoadError::Decode(e),
        ),
        answer matches Decoded::Header(Err(e)) ==> next.state is Closing && next.error == Some(
            CheckpointImageLoadError::Decode(e),
        ),
        answer matches Decoded::SectionHeader(Err(e)) ==> next.state is Closing && next.error
            == Some(CheckpointImageLoadError::Decode(e)),
        answer matches Decoded::Section(Err(e)) ==> next.state is Closing && next.error == Some(
            CheckpointImageLoadError::Decode(e),
        ),
        answer matches Decoded::Footer(Err(e)) ==> next.state is Closing && next.error == Some(
            CheckpointImageLoadError::Decode(e),
        ),
{
}

/// After each part the next one in turn is read: another section while the
/// header announces more, and the footer after the last.
pub proof fn law_sections_are_read_to_the_last(loader: ImageLoader, state: LoadState)
    requires
        loader.header is Some,
        loader.reads_on(state),
    ensures
        state matches LoadState::Reading { part, base, held, need } && base == 0 && held@.len() == 0
            && (part is SectionHeader <==> loader.sections@.len() < loader.header->0.section_count)
            && (part is Footer <==> loader.sections@.len() >= loader.header->0.section_count) && (
        part is SectionHeader ==> need == loader.layout.section_header_len) && (part is Footer
            ==> need == loader.layout.footer_len),
{
}

/// A keyspace snapshot has two sections: the catalog, and then the records.
pub proof fn law_snapshot_is_catalog_then_records(sections: Seq<CheckpointSectionMeta>)
    requires
        sections.len() <= u32::MAX,
    ensures
        snapshot_fault(sections) is None <==> sections.len() == 2 && sections[0].kind
            == CheckpointSectionKind::NamespaceCatalog && sections[1].kind
            == CheckpointSectionKind::Records,
        sections.len() != 2 ==> (snapshot_fault(sections) matches Some(
            CheckpointImageLoadError::SectionCountMismatchForPayloads { expected, got },
        ) && expected == 2 && got == sections.len()),
{
}

/// No read buffer is lost: a completion during a read either carries the
/// loader's buffer back, or the loader's own is released.
pub proof fn law_read_buffer_is_released(loader: ImageLoader, result: CompletionResult)
    requires
        loader.state is Reading || loader.state is Probing,
    ensures
        loader.released(result).returned == result.returned(),
        result is FileRead || (result matches CompletionResult::Error { buf: Some(_), .. })
            ==> loader.released(result).own is None,
        !(result is FileRead) && !(result matches CompletionResult::Error { buf: Some(_), .. })
            ==> loader.released(result).own == Some(loader.buf),
{
}

/// A read asks for what is missing, as far as the buffer holds it, and the
/// probe past the footer for one byte.
pub proof fn law_read_asks_for_what_is_missing(loader: ImageLoader, buf_size: usize)
    ensures
        loader.state matches LoadState::Reading { need, held, .. } ==> loader.asks(buf_size)
            <= buf_size && loader.asks(buf_size) <= need - held@.len() && (loader.asks(buf_size)
            == buf_size || held@.len() + loader.asks(buf_size) == need),
        loader.state is Probing ==> loader.asks(buf_size) == 1,
        loader.state is Opening ==> loader.phase() is Open,
        loader.state is Closing ==> loader.phase() is Close,
        loader.state is Reading || loader.state is Probing ==> loader.phase() is Read,
{
}

/// A failure to reap is reported as it came, with the phase it came in, and
/// every try is counted.
pub proof fn law_reap_failure_keeps_its_cause(
    phase: CheckpointImageLoadPhase,
    source: String,
    expected: CompletionToken,
    got: CompletionToken,
    n: usize,
    attempts: u32,
    loader: ImageLoader,
)
    ensures
        reap_failure(phase, ReapError::Backend(source)) == (CheckpointImageLoadError::Backend {
            phase,
            source,
        }),
        reap_failure(phase, ReapError::UnexpectedCompletionCount { expected: 1, got: n }) == (
        CheckpointImageLoadError::UnexpectedCompletionCount { phase, expected: 1, got: n }),
        reap_failure(phase, ReapError::UnexpectedToken { expected, got }) == (
        CheckpointImageLoadError::UnexpectedToken { phase, expected, got }),
        reap_failure(phase, ReapError::ReapLimitExceeded { token: expected, attempts }) == (
        CheckpointImageLoadError::ReapLimitExceeded { phase, token: expected, attempts }),
        loader.attempts < u32::MAX ==> loader.tried().attempts == loader.attempts + 1,
        loader.tried().state == loader.state,
        loader.tried().offset_bytes == loader.offset_bytes,
        loader.tried().error == loader.error,
{
}

/// An image that ended where its footer did is closed without a fault where
/// only the image was asked for; where its payloads were, what makes it no
/// keyspace snapshot is the fault.
pub proof fn law_payloads_need_a_snapshot(
    loader: ImageLoader,
    buf: u32,
    window: Seq<u8>,
    step: LoadStep,
    next: ImageLoader,
)
    requires
        loader.state is Probing,
        window.len() <= usize::MAX,
        loader.advances(Ok(CompletionResult::FileRead { buf, len: 0 }), window, step, next),
    ensures
        step is Next,
        next.state is Closing,
        !loader.payloads_wanted ==> next.error is None,
        loader.payloads_wanted ==> next.error == snapshot_fault(loader.sections@),
        next.sections == loader.sections,
        next.payloads == loader.payloads,
{
}

} // verus!
