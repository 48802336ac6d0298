//! Mutation records: how a store effect is laid out as a log record's payload,
//! how a record is decoded back, and how records are reserved and staged. The
//! framing of a record (its header and length prefix) is the log's; its
//! encoded length for a payload comes in as an argument.

use vstd::bytes::{u32_from_le_bytes, u32_to_le_bytes, u64_from_le_bytes, u64_to_le_bytes};
use vstd::prelude::*;
use vstd::slice::slice_subrange;
use crate::text;
use crate::varint;

verus! {

/// Flag: the value is stored raw.
pub const MUTATION_FLAG_RAW: u16 = 1;

/// Flag: an expiry follows the payload's key and value.
pub const MUTATION_FLAG_HAS_EXPIRE: u16 = 2;

/// Payload bytes of a checkpoint-begin record.
pub const CHECKPOINT_BEGIN_PAYLOAD_LEN: usize = 4;

/// Latest expiry a record can carry: 40 bits of milliseconds.
pub const MAX_EXPIRE_MS: u64 = 1_099_511_627_775;

/// Bytes of an encoded expiry.
pub const EXPIRE_LEN: usize = 8;

/// What a log record describes.
#[derive(Copy, Clone, Debug, PartialEq, Eq, Structural)]
pub enum RecordKind {
    StringPostImage,
    Delete,
    ExpireAt,
    Namespace,
    CheckpointBegin,
}

impl RecordKind {
    /// The variant's name.
    pub open spec fn label(self) -> Seq<char> {
        match self {
            RecordKind::StringPostImage => "StringPostImage"@,
            RecordKind::Delete => "Delete"@,
            RecordKind::ExpireAt => "ExpireAt"@,
            RecordKind::Namespace => "Namespace"@,
            RecordKind::CheckpointBegin => "CheckpointBegin"@,
        }
    }

    /// The variant's name.
    pub fn name(self) -> (r: &'static str)
        ensures
            r@ == self.label(),
    {
        match self {
            RecordKind::StringPostImage => "StringPostImage",
            RecordKind::Delete => "Delete",
            RecordKind::ExpireAt => "ExpireAt",
            RecordKind::Namespace => "Namespace",
            RecordKind::CheckpointBegin => "CheckpointBegin",
        }
    }
}

/// One store mutation.
#[derive(Copy, Clone, Debug, PartialEq, Eq)]
pub enum MutationEffect<'a> {
    /// The key now holds this value.
    StringPostImage {
        key: &'a [u8],
        value: &'a [u8],
        expire_at_ms: Option<u64>,
        raw: bool,
    },
    /// The key is gone.
    Delete { key: &'a [u8] },
    /// The key now expires then, or never.
    ExpireAt { key: &'a [u8], expire_at_ms: Option<u64> },
}

/// The model of a mutation.
#[verifier::ext_equal]
pub enum Effect {
    StringPostImage { key: Seq<u8>, value: Seq<u8>, expire_at_ms: Option<u64>, raw: bool },
    Delete { key: Seq<u8> },
    ExpireAt { key: Seq<u8>, expire_at_ms: Option<u64> },
}

impl<'a> View for MutationEffect<'a> {
    type V = Effect;

    open spec fn view(&self) -> Effect {
        match *self {
            MutationEffect::StringPostImage { key, value, expire_at_ms, raw } => {
                Effect::StringPostImage { key: key@, value: value@, expire_at_ms, raw }
            },
            MutationEffect::Delete { key } => Effect::Delete { key: key@ },
            MutationEffect::ExpireAt { key, expire_at_ms } => Effect::ExpireAt {
                key: key@,
                expire_at_ms,
            },
        }
    }
}

/// A record of the log, its payload still encoded.
#[derive(Copy, Clone, Debug, PartialEq, Eq)]
pub struct RecordRef<'a> {
    pub kind: RecordKind,
    pub namespace: u32,
    pub flags: u16,
    pub payload: &'a [u8],
}

/// Why a mutation record was refused.
#[derive(Copy, Clone, Debug, PartialEq, Eq, Structural)]
pub enum MutationRecordDecodeError {
    UnsupportedKind { kind: RecordKind },
    UnknownFlags { kind: RecordKind, flags: u16 },
    InvalidLength,
    LengthOverflow { len: u64 },
    Truncated { needed: usize, available: usize },
    ExpireOutOfRange { expire_at_ms: u64 },
    TrailingBytes { bytes: usize },
}

/// Why the log cannot encode a record.
#[derive(Copy, Clone, Debug, PartialEq, Eq, Structural)]
pub enum LogCodecError {
    RecordTooLarge,
}

/// Why staging refused a record.
#[derive(Copy, Clone, Debug, PartialEq, Eq, Structural)]
pub enum LogStagingError {
    RecordCountOverflow,
    Full { needed: usize, available: usize },
    Codec(LogCodecError),
}

/// Why a mutation could not be reserved or staged.
#[derive(Copy, Clone, Debug, PartialEq, Eq, Structural)]
pub enum MutationStageError {
    Log(LogStagingError),
    CheckpointBeginRequiresEmptyStaging { staged_record_count: u32, staged_bytes: usize },
    ReservationStale {
        expected_bytes: u64,
        actual_bytes: u64,
        expected_record_count: u32,
        actual_record_count: u32,
    },
}

/// Why a checkpoint-begin record was refused.
#[derive(Copy, Clone, Debug, PartialEq, Eq, Structural)]
pub enum CheckpointBeginRecordDecodeError {
    UnsupportedKind { kind: RecordKind },
    UnknownFlags { flags: u16 },
    InvalidNamespace { namespace: u32 },
    InvalidLength { len: usize },
    InvalidCheckpointId { raw: u32 },
}

/// The log format's own constants.
#[derive(Copy, Clone, Debug, PartialEq, Eq, Structural)]
pub struct LogFormat {
    /// The namespace of control records.
    pub control_namespace: u32,
    /// The largest checkpoint id.
    pub max_checkpoint_id: u32,
}

impl MutationRecordDecodeError {
    /// The text of the error.
    pub open spec fn message_text(&self) -> Seq<char> {
        match *self {
            MutationRecordDecodeError::UnsupportedKind { kind } => "unsupported mutation log record kind "@ + kind.label(),
            MutationRecordDecodeError::UnknownFlags { kind, flags } => "unknown mutation log record flags "@ + text::hex_word(flags as nat) + " for "@ + kind.label(),
            MutationRecordDecodeError::InvalidLength => "invalid mutation payload length"@,
            MutationRecordDecodeError::LengthOverflow { len } => "mutation payload length "@ + text::dec_chars(len as nat) + " does not fit usize"@,
            MutationRecordDecodeError::Truncated { needed, available } => "truncated mutation payload: need "@ + text::dec_chars(needed as nat) + " bytes, have "@ + text::dec_chars(available as nat),
            MutationRecordDecodeError::ExpireOutOfRange { expire_at_ms } => "mutation expiry "@ + text::dec_chars(expire_at_ms as nat) + " exceeds record u40 bound"@,
            MutationRecordDecodeError::TrailingBytes { bytes } => "mutation payload has "@ + text::dec_chars(bytes as nat) + " trailing bytes"@,
        }
    }

    /// The text of the error.
    pub fn message(&self) -> (r: String)
        ensures
            r@ == self.message_text(),
    {
        match self {
            MutationRecordDecodeError::UnsupportedKind { kind } => {
                let mut out = text::owned("unsupported mutation log record kind ");
                out.append(kind.name());
                out
            },
            MutationRecordDecodeError::UnknownFlags { kind, flags } => {
                let mut out = text::owned("unknown mutation log record flags ");
                text::append_hex_word(&mut out, *flags);
                out.append(" for ");
                out.append(kind.name());
                out
            },
            MutationRecordDecodeError::InvalidLength => text::owned("invalid mutation payload length"),
            MutationRecordDecodeError::LengthOverflow { len } => {
                let mut out = text::owned("mutation payload length ");
                text::append_dec(&mut out, *len as u64);
                out.append(" does not fit usize");
                out
            },
            MutationRecordDecodeError::Truncated { needed, available } => {
                let mut out = text::owned("truncated mutation payload: need ");
                text::append_dec(&mut out, *needed as u64);
                out.append(" bytes, have ");
                text::append_dec(&mut out, *available as u64);
                out
            },
            MutationRecordDecodeError::ExpireOutOfRange { expire_at_ms } => {
                let mut out = text::owned("mutation expiry ");
                text::append_dec(&mut out, *expire_at_ms as u64);
                out.append(" exceeds record u40 bound");
                out
            },
            MutationRecordDecodeError::TrailingBytes { bytes } => {
                let mut out = text::owned("mutation payload has ");
                text::append_dec(&mut out, *bytes as u64);
                out.append(" trailing bytes");
                out
            },
        }
    }
}

impl MutationStageError {
    /// The text of the error; `log` is the text of a log error.
    pub open spec fn message_text(&self, log: Seq<char>) -> Seq<char> {
        match *self {
            MutationStageError::Log(_) => log,
            MutationStageError::CheckpointBeginRequiresEmptyStaging { staged_record_count, staged_bytes } => "checkpoint begin requires empty log staging, found "@ + text::dec_chars(staged_record_count as nat) + " record(s) and "@ + text::dec_chars(staged_bytes as nat) + " bytes"@,
            MutationStageError::ReservationStale { expected_bytes, actual_bytes, expected_record_count, actual_record_count } => "log staging reservation stale: expected "@ + text::dec_chars(expected_bytes as nat) + " bytes/"@ + text::dec_chars(expected_record_count as nat) + " records, got "@ + text::dec_chars(actual_bytes as nat) + " bytes/"@ + text::dec_chars(actual_record_count as nat) + " records"@,
        }
    }

    /// The text of the error; `log` is the text of a log error.
    pub fn message(&self, log: &str) -> (r: String)
        ensures
            r@ == self.message_text(log@),
    {
        match self {
            MutationStageError::Log(_) => text::owned(log),
            MutationStageError::CheckpointBeginRequiresEmptyStaging { staged_record_count, staged_bytes } => {
                let mut out = text::owned("checkpoint begin requires empty log staging, found ");
                text::append_dec(&mut out, *staged_record_count as u64);
                out.append(" record(s) and ");
                text::append_dec(&mut out, *staged_bytes as u64);
                out.append(" bytes");
                out
            },
            MutationStageError::ReservationStale { expected_bytes, actual_bytes, expected_record_count, actual_record_count } => {
                let mut out = text::owned("log staging reservation stale: expected ");
                text::append_dec(&mut out, *expected_bytes as u64);
                out.append(" bytes/");
                text::append_dec(&mut out, *expected_record_count as u64);
                out.append(" records, got ");
                text::append_dec(&mut out, *actual_bytes as u64);
                out.append(" bytes/");
                text::append_dec(&mut out, *actual_record_count as u64);
                out.append(" records");
                out
            },
        }
    }
}

impl CheckpointBeginRecordDecodeError {
    /// The text of the error.
    pub open spec fn message_text(&self, control_namespace: u32) -> Seq<char> {
        match *self {
            CheckpointBeginRecordDecodeError::UnsupportedKind { kind } => "unsupported checkpoint-begin log record kind "@ + kind.label(),
            CheckpointBeginRecordDecodeError::UnknownFlags { flags } => "checkpoint-begin log record has unknown flags "@ + text::hex_word(flags as nat),
            CheckpointBeginRecordDecodeError::InvalidNamespace { namespace } => "checkpoint-begin log record uses namespace "@ + text::dec_chars(namespace as nat) + ", expected "@ + text::dec_chars(control_namespace as nat),
            CheckpointBeginRecordDecodeError::InvalidLength { len } => "checkpoint-begin payload is "@ + text::dec_chars(len as nat) + " bytes"@,
            CheckpointBeginRecordDecodeError::InvalidCheckpointId { raw } => "checkpoint-begin checkpoint id "@ + text::dec_chars(raw as nat) + " exceeds v1 max"@,
        }
    }

    /// The text of the error.
    pub fn message(&self, control_namespace: u32) -> (r: String)
        ensures
            r@ == self.message_text(control_namespace),
    {
        match self {
            CheckpointBeginRecordDecodeError::UnsupportedKind { kind } => {
                let mut out = text::owned("unsupported checkpoint-begin log record kind ");
                out.append(kind.name());
                out
            },
            CheckpointBeginRecordDecodeError::UnknownFlags { flags } => {
                let mut out = text::owned("checkpoint-begin log record has unknown flags ");
                text::append_hex_word(&mut out, *flags);
                out
            },
            CheckpointBeginRecordDecodeError::InvalidNamespace { namespace } => {
                let mut out = text::owned("checkpoint-begin log record uses namespace ");
                text::append_dec(&mut out, *namespace as u64);
                out.append(", expected ");
                text::append_dec(&mut out, control_namespace as u64);
                out
            },
            CheckpointBeginRecordDecodeError::InvalidLength { len } => {
                let mut out = text::owned("checkpoint-begin payload is ");
                text::append_dec(&mut out, *len as u64);
                out.append(" bytes");
                out
            },
            CheckpointBeginRecordDecodeError::InvalidCheckpointId { raw } => {
                let mut out = text::owned("checkpoint-begin checkpoint id ");
                text::append_dec(&mut out, *raw as u64);
                out.append(" exceeds v1 max");
                out
            },
        }
    }
}

// ---- payload layout ----

/// A byte string with its length in front.
pub open spec fn prefixed(s: Seq<u8>) -> Seq<u8> {
    varint::varint(s.len()) + s
}

/// An encoded expiry; nothing when there is none.
pub open spec fn expire_bytes(expire_at_ms: Option<u64>) -> Seq<u8> {
    match expire_at_ms {
        Some(ms) => vstd::bytes::spec_u64_to_le_bytes(ms),
        None => Seq::empty(),
    }
}

/// The payload of a mutation record.
pub open spec fn payload_of(effect: Effect) -> Seq<u8> {
    match effect {
        Effect::StringPostImage { key, value, expire_at_ms, .. } => prefixed(key) + prefixed(value)
            + expire_bytes(expire_at_ms),
        Effect::Delete { key } => prefixed(key),
        Effect::ExpireAt { key, expire_at_ms } => prefixed(key) + expire_bytes(expire_at_ms),
    }
}

/// The flag bits of an expiry.
pub open spec fn expire_flag(expire_at_ms: Option<u64>) -> u16 {
    if expire_at_ms is Some {
        MUTATION_FLAG_HAS_EXPIRE
    } else {
        0
    }
}

/// The kind a mutation is recorded under.
pub open spec fn kind_of(effect: Effect) -> RecordKind {
    match effect {
        Effect::StringPostImage { .. } => RecordKind::StringPostImage,
        Effect::Delete { .. } => RecordKind::Delete,
        Effect::ExpireAt { .. } => RecordKind::ExpireAt,
    }
}

/// The flags a mutation is recorded under.
pub open spec fn flags_of(effect: Effect) -> u16 {
    match effect {
        Effect::StringPostImage { expire_at_ms, raw, .. } => if raw {
            (MUTATION_FLAG_RAW + expire_flag(expire_at_ms)) as u16
        } else {
            expire_flag(expire_at_ms)
        },
        Effect::Delete { .. } => 0,
        Effect::ExpireAt { expire_at_ms, .. } => expire_flag(expire_at_ms),
    }
}

fn expire_flag_of(expire_at_ms: Option<u64>) -> (r: u16)
    ensures
        r == expire_flag(expire_at_ms),
{
    if expire_at_ms.is_some() {
        MUTATION_FLAG_HAS_EXPIRE
    } else {
        0
    }
}

/// The kind and flags a mutation is recorded under.
pub fn mutation_effect_record_meta(effect: MutationEffect<'_>) -> (r: (RecordKind, u16))
    ensures
        r.0 == kind_of(effect@),
        r.1 == flags_of(effect@),
{
    match effect {
        MutationEffect::StringPostImage { expire_at_ms, raw, .. } => {
            let flags: u16 = expire_flag_of(expire_at_ms);
            if raw {
                (RecordKind::StringPostImage, MUTATION_FLAG_RAW + flags)
            } else {
                (RecordKind::StringPostImage, flags)
            }
        },
        MutationEffect::Delete { .. } => (RecordKind::Delete, 0),
        MutationEffect::ExpireAt { expire_at_ms, .. } => (
            RecordKind::ExpireAt,
            expire_flag_of(expire_at_ms),
        ),
    }
}

fn encode_prefixed(bytes: &[u8], out: &mut Vec<u8>)
    ensures
        final(out)@ == old(out)@ + prefixed(bytes@),
{
    varint::encode_u64(bytes.len() as u64, out);
    text::push_bytes(out, bytes);
    proof {
        assert(out@ =~= old(out)@ + prefixed(bytes@));
    }
}

fn encode_optional_expire(expire_at_ms: Option<u64>, out: &mut Vec<u8>)
    ensures
        final(out)@ == old(out)@ + expire_bytes(expire_at_ms),
{
    match expire_at_ms {
        Some(ms) => {
            let bytes = u64_to_le_bytes(ms);
            text::push_bytes(out, bytes.as_slice());
        },
        None => {
            proof {
                assert(out@ =~= old(out)@ + expire_bytes(expire_at_ms));
            }
        },
    }
}

/// Appends the payload of a mutation.
pub fn encode_mutation_payload(effect: MutationEffect<'_>, out: &mut Vec<u8>)
    ensures
        final(out)@ == old(out)@ + payload_of(effect@),
{
    match effect {
        MutationEffect::StringPostImage { key, value, expire_at_ms, .. } => {
            encode_prefixed(key, out);
            encode_prefixed(value, out);
            encode_optional_expire(expire_at_ms, out);
        },
        MutationEffect::Delete { key } => encode_prefixed(key, out),
        MutationEffect::ExpireAt { key, expire_at_ms } => {
            encode_prefixed(key, out);
            encode_optional_expire(expire_at_ms, out);
        },
    }
    proof {
        assert(out@ =~= old(out)@ + payload_of(effect@));
    }
}

/// The error of a payload no record can hold.
pub open spec fn too_large() -> MutationStageError {
    MutationStageError::Log(LogStagingError::Codec(LogCodecError::RecordTooLarge))
}

/// `n` as a length, or the error of one that is too large.
pub open spec fn length_of(n: int) -> Result<usize, MutationStageError> {
    if n <= usize::MAX {
        Ok(n as usize)
    } else {
        Err(too_large())
    }
}

fn checked_len_add(lhs: usize, rhs: usize) -> (r: Result<usize, MutationStageError>)
    ensures
        r == length_of(lhs + rhs),
{
    match lhs.checked_add(rhs) {
        Some(n) => Ok(n),
        None => Err(
            MutationStageError::Log(LogStagingError::Codec(LogCodecError::RecordTooLarge)),
        ),
    }
}

/// The length of a byte string of `len` bytes with its length in front.
pub fn len_prefixed_bytes_len(len: usize) -> (r: Result<usize, MutationStageError>)
    ensures
        r == length_of(varint::varint(len as nat).len() + len),
{
    checked_len_add(varint::encoded_len(len), len)
}

/// The length of an encoded expiry.
pub fn optional_expire_len(expire_at_ms: Option<u64>) -> (r: usize)
    ensures
        r == expire_bytes(expire_at_ms).len(),
{
    proof {
        vstd::bytes::lemma_auto_spec_u64_to_from_le_bytes();
    }
    if expire_at_ms.is_some() {
        EXPIRE_LEN
    } else {
        0
    }
}

/// The length of a mutation's payload.
pub fn mutation_effect_payload_len(effect: MutationEffect<'_>) -> (r: Result<
    usize,
    MutationStageError,
>)
    ensures
        r == length_of(payload_of(effect@).len() as int),
{
    match effect {
        MutationEffect::StringPostImage { key, value, expire_at_ms, .. } => {
            let key_len: usize = match len_prefixed_bytes_len(key.len()) {
                Ok(n) => n,
                Err(error) => return Err(error),
            };
            let value_len: usize = match len_prefixed_bytes_len(value.len()) {
                Ok(n) => n,
                Err(error) => return Err(error),
            };
            match checked_len_add(key_len, value_len) {
                Ok(n) => checked_len_add(n, optional_expire_len(expire_at_ms)),
                Err(error) => Err(error),
            }
        },
        MutationEffect::Delete { key } => len_prefixed_bytes_len(key.len()),
        MutationEffect::ExpireAt { key, expire_at_ms } => match len_prefixed_bytes_len(
            key.len(),
        ) {
            Ok(n) => checked_len_add(n, optional_expire_len(expire_at_ms)),
            Err(error) => Err(error),
        },
    }
}

/// The encoded length of a mutation's record: `framed` is the log's encoded
/// length for a payload of the mutation's length.
pub open spec fn record_len_of(effect: Effect, framed: Result<usize, LogCodecError>) -> Result<
    usize,
    MutationStageError,
> {
    if payload_of(effect).len() > usize::MAX {
        Err(too_large())
    } else {
        match framed {
            Ok(n) => Ok(n),
            Err(error) => Err(MutationStageError::Log(LogStagingError::Codec(error))),
        }
    }
}

/// The encoded length of a mutation's record.
pub fn mutation_effect_record_len(
    effect: MutationEffect<'_>,
    framed: Result<usize, LogCodecError>,
) -> (r: Result<usize, MutationStageError>)
    ensures
        r == record_len_of(effect@, framed),
{
    match mutation_effect_payload_len(effect) {
        Ok(_) => framed_len(framed),
        Err(error) => Err(error),
    }
}

fn framed_len(framed: Result<usize, LogCodecError>) -> (r: Result<usize, MutationStageError>)
    ensures
        r == (match framed {
            Ok(n) => Ok::<usize, MutationStageError>(n),
            Err(error) => Err(MutationStageError::Log(LogStagingError::Codec(error))),
        }),
{
    match framed {
        Ok(n) => Ok(n),
        Err(error) => Err(MutationStageError::Log(LogStagingError::Codec(error))),
    }
}

/// The encoded length of a checkpoint-begin record.
pub fn checkpoint_begin_record_len(framed: Result<usize, LogCodecError>) -> (r: Result<
    usize,
    MutationStageError,
>)
    ensures
        r == (match framed {
            Ok(n) => Ok::<usize, MutationStageError>(n),
            Err(error) => Err(MutationStageError::Log(LogStagingError::Codec(error))),
        }),
{
    framed_len(framed)
}

// ---- decoding ----

/// A length-prefixed byte string at the front of `s`, and what follows it.
pub open spec fn split_prefixed(s: Seq<u8>) -> Result<
    (Seq<u8>, Seq<u8>),
    MutationRecordDecodeError,
> {
    match varint::decoded(s) {
        None => Err(MutationRecordDecodeError::InvalidLength),
        Some((len, k)) => if len > usize::MAX || k + len > usize::MAX {
            Err(MutationRecordDecodeError::LengthOverflow { len: len })
        } else if s.len() < k + len {
            Err(
                MutationRecordDecodeError::Truncated {
                    needed: (k + len) as usize,
                    available: s.len() as usize,
                },
            )
        } else {
            Ok((s.subrange(k as int, k + len), s.skip(k + len)))
        },
    }
}

/// The expiry at the front of `s`, when the flags carry one, and what follows.
pub open spec fn split_expire(flags: u16, s: Seq<u8>) -> Result<
    (Option<u64>, Seq<u8>),
    MutationRecordDecodeError,
> {
    if flags & MUTATION_FLAG_HAS_EXPIRE == 0 {
        Ok((None, s))
    } else if s.len() < EXPIRE_LEN {
        Err(
            MutationRecordDecodeError::Truncated {
                needed: EXPIRE_LEN,
                available: s.len() as usize,
            },
        )
    } else {
        let ms = vstd::bytes::spec_u64_from_le_bytes(s.take(EXPIRE_LEN as int));
        if ms > MAX_EXPIRE_MS {
            Err(MutationRecordDecodeError::ExpireOutOfRange { expire_at_ms: ms })
        } else {
            Ok((Some(ms), s.skip(EXPIRE_LEN as int)))
        }
    }
}

/// The flags a kind allows; `None` for a kind that is no mutation.
pub open spec fn allowed_flags(kind: RecordKind) -> Option<u16> {
    match kind {
        RecordKind::StringPostImage => Some(3),
        RecordKind::Delete => Some(0),
        RecordKind::ExpireAt => Some(MUTATION_FLAG_HAS_EXPIRE),
        _ => None,
    }
}

/// Nothing follows the last field.
pub open spec fn ended(effect: Effect, rest: Seq<u8>) -> Result<Effect, MutationRecordDecodeError> {
    if rest.len() > 0 {
        Err(MutationRecordDecodeError::TrailingBytes { bytes: rest.len() as usize })
    } else {
        Ok(effect)
    }
}

/// The mutation a record describes, or the first thing wrong with it.
pub open spec fn decoded_effect(kind: RecordKind, flags: u16, payload: Seq<u8>) -> Result<
    Effect,
    MutationRecordDecodeError,
> {
    match allowed_flags(kind) {
        None => Err(MutationRecordDecodeError::UnsupportedKind { kind }),
        Some(allowed) => if flags & !allowed != 0 {
            Err(MutationRecordDecodeError::UnknownFlags { kind, flags })
        } else {
            match split_prefixed(payload) {
                Err(error) => Err(error),
                Ok((key, rest)) => match kind {
                    RecordKind::Delete => ended(Effect::Delete { key }, rest),
                    RecordKind::ExpireAt => match split_expire(flags, rest) {
                        Err(error) => Err(error),
                        Ok((expire_at_ms, tail)) => ended(
                            Effect::ExpireAt { key, expire_at_ms },
                            tail,
                        ),
                    },
                    _ => match split_prefixed(rest) {
                        Err(error) => Err(error),
                        Ok((value, more)) => match split_expire(flags, more) {
                            Err(error) => Err(error),
                            Ok((expire_at_ms, tail)) => ended(
                                Effect::StringPostImage {
                                    key,
                                    value,
                                    expire_at_ms,
                                    raw: flags & MUTATION_FLAG_RAW != 0,
                                },
                                tail,
                            ),
                        },
                    },
                },
            }
        },
    }
}

fn take_len_prefixed<'a>(input: &'a [u8]) -> (r: Result<
    (&'a [u8], &'a [u8]),
    MutationRecordDecodeError,
>)
    ensures
        match (r, split_prefixed(input@)) {
            (Ok((a, b)), Ok((x, y))) => a@ == x && b@ == y,
            (Err(e), Err(f)) => e == f,
            _ => false,
        },
{
    match varint::decode_u64(input) {
        None => Err(MutationRecordDecodeError::InvalidLength),
        Some((len, prefix_len)) => {
            if len > usize::MAX as u64 {
                return Err(MutationRecordDecodeError::LengthOverflow { len });
            }
            match prefix_len.checked_add(len as usize) {
                None => Err(MutationRecordDecodeError::LengthOverflow { len }),
                Some(needed) => {
                    if input.len() < needed {
                        return Err(
                            MutationRecordDecodeError::Truncated {
                                needed,
                                available: input.len(),
                            },
                        );
                    }
                    let bytes = slice_subrange(input, prefix_len, needed);
                    let rest = slice_subrange(input, needed, input.len());
                    proof {
                        assert(rest@ =~= input@.skip(needed as int));
                    }
                    Ok((bytes, rest))
                },
            }
        },
    }
}

fn take_optional_expire<'a>(flags: u16, input: &'a [u8]) -> (r: Result<
    (Option<u64>, &'a [u8]),
    MutationRecordDecodeError,
>)
    ensures
        match (r, split_expire(flags, input@)) {
            (Ok((a, b)), Ok((x, y))) => a == x && b@ == y,
            (Err(e), Err(f)) => e == f,
            _ => false,
        },
{
    if flags & MUTATION_FLAG_HAS_EXPIRE == 0 {
        return Ok((None, input));
    }
    if input.len() < EXPIRE_LEN {
        return Err(
            MutationRecordDecodeError::Truncated { needed: EXPIRE_LEN, available: input.len() },
        );
    }
    let head = slice_subrange(input, 0, EXPIRE_LEN);
    let ms: u64 = u64_from_le_bytes(head);
    proof {
        assert(head@ =~= input@.take(EXPIRE_LEN as int));
    }
    if ms > MAX_EXPIRE_MS {
        return Err(MutationRecordDecodeError::ExpireOutOfRange { expire_at_ms: ms });
    }
    let rest = slice_subrange(input, EXPIRE_LEN, input.len());
    proof {
        assert(rest@ =~= input@.skip(EXPIRE_LEN as int));
    }
    Ok((Some(ms), rest))
}

/// Decodes a mutation record.
pub fn decode_mutation_record<'a>(record: RecordRef<'a>) -> (r: Result<
    MutationEffect<'a>,
    MutationRecordDecodeError,
>)
    ensures
        match (r, decoded_effect(record.kind, record.flags, record.payload@)) {
            (Ok(effect), Ok(expected)) => effect@ == expected,
            (Err(e), Err(f)) => e == f,
            _ => false,
        },
{
    let kind = record.kind;
    let flags: u16 = record.flags;
    let allowed: u16 = match kind {
        RecordKind::StringPostImage => 3,
        RecordKind::Delete => 0,
        RecordKind::ExpireAt => MUTATION_FLAG_HAS_EXPIRE,
        _ => return Err(MutationRecordDecodeError::UnsupportedKind { kind }),
    };
    if flags & !allowed != 0 {
        return Err(MutationRecordDecodeError::UnknownFlags { kind, flags });
    }
    let (key, rest) = match take_len_prefixed(record.payload) {
        Ok(pair) => pair,
        Err(error) => return Err(error),
    };
    let mut tail = rest;
    let effect = match kind {
        RecordKind::Delete => MutationEffect::Delete { key },
        RecordKind::ExpireAt => {
            let (expire_at_ms, after) = match take_optional_expire(flags, rest) {
                Ok(pair) => pair,
                Err(error) => return Err(error),
            };
            tail = after;
            MutationEffect::ExpireAt { key, expire_at_ms }
        },
        _ => {
            let (value, more) = match take_len_prefixed(rest) {
                Ok(pair) => pair,
                Err(error) => return Err(error),
            };
            let (expire_at_ms, after) = match take_optional_expire(flags, more) {
                Ok(pair) => pair,
                Err(error) => return Err(error),
            };
            tail = after;
            MutationEffect::StringPostImage {
                key,
                value,
                expire_at_ms,
                raw: flags & MUTATION_FLAG_RAW != 0,
            }
        },
    };
    if tail.len() > 0 {
        return Err(MutationRecordDecodeError::TrailingBytes { bytes: tail.len() });
    }
    Ok(effect)
}

/// The checkpoint id a begin record carries, or the first thing wrong with it.
pub open spec fn decoded_begin(
    kind: RecordKind,
    namespace: u32,
    flags: u16,
    payload: Seq<u8>,
    format: LogFormat,
) -> Result<u32, CheckpointBeginRecordDecodeError> {
    let raw = vstd::bytes::spec_u32_from_le_bytes(payload);
    if kind != RecordKind::CheckpointBegin {
        Err(CheckpointBeginRecordDecodeError::UnsupportedKind { kind })
    } else if flags != 0 {
        Err(CheckpointBeginRecordDecodeError::UnknownFlags { flags })
    } else if namespace != format.control_namespace {
        Err(CheckpointBeginRecordDecodeError::InvalidNamespace { namespace })
    } else if payload.len() != CHECKPOINT_BEGIN_PAYLOAD_LEN {
        Err(CheckpointBeginRecordDecodeError::InvalidLength { len: payload.len() as usize })
    } else if raw > format.max_checkpoint_id {
        Err(CheckpointBeginRecordDecodeError::InvalidCheckpointId { raw })
    } else {
        Ok(raw)
    }
}

/// Decodes a checkpoint-begin record.
pub fn decode_checkpoint_begin_record(record: RecordRef<'_>, format: LogFormat) -> (r: Result<
    u32,
    CheckpointBeginRecordDecodeError,
>)
    ensures
        r == decoded_begin(record.kind, record.namespace, record.flags, record.payload@, format),
{
    if record.kind != RecordKind::CheckpointBegin {
        return Err(CheckpointBeginRecordDecodeError::UnsupportedKind { kind: record.kind });
    }
    if record.flags != 0 {
        return Err(CheckpointBeginRecordDecodeError::UnknownFlags { flags: record.flags });
    }
    if record.namespace != format.control_namespace {
        return Err(
            CheckpointBeginRecordDecodeError::InvalidNamespace { namespace: record.namespace },
        );
    }
    if record.payload.len() != CHECKPOINT_BEGIN_PAYLOAD_LEN {
        return Err(CheckpointBeginRecordDecodeError::InvalidLength { len: record.payload.len() });
    }
    let raw: u32 = u32_from_le_bytes(record.payload);
    if raw > format.max_checkpoint_id {
        return Err(CheckpointBeginRecordDecodeError::InvalidCheckpointId { raw });
    }
    Ok(raw)
}

// ---- staging ----

/// A staged record.
#[derive(Debug)]
pub struct StagedRecord {
    pub kind: RecordKind,
    pub namespace: u32,
    pub flags: u16,
    pub payload: Vec<u8>,
    /// The length the log frames it to.
    pub encoded_len: usize,
}

/// The model of a staged record.
pub struct Staged {
    pub kind: RecordKind,
    pub namespace: u32,
    pub flags: u16,
    pub payload: Seq<u8>,
    pub encoded_len: usize,
}

impl View for StagedRecord {
    type V = Staged;

    open spec fn view(&self) -> Staged {
        Staged {
            kind: self.kind,
            namespace: self.namespace,
            flags: self.flags,
            payload: self.payload@,
            encoded_len: self.encoded_len,
        }
    }
}

/// The models of staged records.
pub open spec fn staged_views(records: Seq<StagedRecord>) -> Seq<Staged> {
    records.map_values(|r: StagedRecord| r@)
}

/// The encoded bytes of staged records.
pub open spec fn staged_len(records: Seq<Staged>) -> nat
    decreases records.len(),
{
    if records.len() == 0 {
        0
    } else {
        staged_len(records.drop_last()) + records.last().encoded_len as nat
    }
}

/// What staging of a capacity answers to one more record of an encoded length.
pub open spec fn room_verdict(staged: Seq<Staged>, capacity: nat, encoded_len: usize) -> Result<
    (),
    LogStagingError,
> {
    if staged.len() >= u32::MAX {
        Err(LogStagingError::RecordCountOverflow)
    } else if encoded_len > capacity - staged_len(staged) {
        Err(
            LogStagingError::Full {
                needed: encoded_len,
                available: (capacity - staged_len(staged)) as usize,
            },
        )
    } else {
        Ok(())
    }
}

/// Records staged for the next log frame, within a byte capacity.
#[derive(Debug)]
pub struct LogStaging {
    capacity_bytes: usize,
    len_bytes: usize,
    records: Vec<StagedRecord>,
}

impl View for LogStaging {
    type V = Seq<Staged>;

    closed spec fn view(&self) -> Seq<Staged> {
        staged_views(self.records@)
    }
}

impl LogStaging {
    /// The byte capacity.
    pub closed spec fn capacity(&self) -> nat {
        self.capacity_bytes as nat
    }

    /// The staged bytes are the records' and fit the capacity.
    pub closed spec fn wf(&self) -> bool {
        &&& self.len_bytes == staged_len(staged_views(self.records@))
        &&& self.len_bytes <= self.capacity_bytes
        &&& self.records@.len() <= u32::MAX
    }

    /// Empty staging of this capacity.
    pub fn with_capacity(capacity_bytes: usize) -> (r: LogStaging)
        ensures
            r.wf(),
            r.capacity() == capacity_bytes,
            r@ == Seq::<Staged>::empty(),
    {
        let r = LogStaging { capacity_bytes, len_bytes: 0, records: Vec::new() };
        proof {
            assert(staged_views(r.records@) =~= Seq::empty());
        }
        r
    }

    /// The byte capacity.
    pub fn capacity_bytes(&self) -> (r: usize)
        ensures
            r == self.capacity(),
    {
        self.capacity_bytes
    }

    /// The staged bytes.
    pub fn len_bytes(&self) -> (r: usize)
        requires
            self.wf(),
        ensures
            r == staged_len(self@),
            r <= self.capacity(),
    {
        self.len_bytes
    }

    /// Bytes left.
    pub fn available_bytes(&self) -> (r: usize)
        requires
            self.wf(),
        ensures
            r == self.capacity() - staged_len(self@),
    {
        self.capacity_bytes - self.len_bytes
    }

    /// Staged records.
    pub fn record_count(&self) -> (r: u32)
        requires
            self.wf(),
        ensures
            r == self@.len(),
    {
        proof {
            assert(self@.len() == self.records@.len());
        }
        self.records.len() as u32
    }

    /// Whether nothing is staged.
    pub fn is_empty(&self) -> (r: bool)
        requires
            self.wf(),
        ensures
            r == (self@.len() == 0),
    {
        proof {
            assert(self@.len() == self.records@.len());
        }
        self.records.len() == 0
    }

    /// What staging answers to a record of this encoded length.
    pub open spec fn verdict(&self, encoded_len: usize) -> Result<(), LogStagingError> {
        room_verdict(self@, self.capacity(), encoded_len)
    }

    /// Stages one record, if it fits.
    pub fn try_push(
        &mut self,
        kind: RecordKind,
        namespace: u32,
        flags: u16,
        payload: Vec<u8>,
        encoded_len: usize,
    ) -> (r: Result<(), LogStagingError>)
        requires
            old(self).wf(),
        ensures
            final(self).wf(),
            final(self).capacity() == old(self).capacity(),
            r == old(self).verdict(encoded_len),
            final(self)@ == (if r is Ok {
                old(self)@.push(
                    Staged { kind, namespace, flags, payload: payload@, encoded_len },
                )
            } else {
                old(self)@
            }),
    {
        if self.record_count() == u32::MAX {
            return Err(LogStagingError::RecordCountOverflow);
        }
        let available: usize = self.available_bytes();
        if encoded_len > available {
            return Err(LogStagingError::Full { needed: encoded_len, available });
        }
        let ghost before = self@;
        self.records.push(StagedRecord { kind, namespace, flags, payload, encoded_len });
        self.len_bytes = self.len_bytes + encoded_len;
        proof {
            let added = Staged { kind, namespace, flags, payload: payload@, encoded_len };
            assert(staged_views(self.records@) =~= before.push(added));
            assert(before.push(added).drop_last() =~= before);
        }
        Ok(())
    }

    /// Takes every staged record, leaving staging empty.
    pub fn drain(&mut self) -> (r: Vec<StagedRecord>)
        requires
            old(self).wf(),
        ensures
            final(self).wf(),
            final(self).capacity() == old(self).capacity(),
            final(self)@ == Seq::<Staged>::empty(),
            staged_views(r@) == old(self)@,
    {
        let mut out: Vec<StagedRecord> = Vec::new();
        std::mem::swap(&mut out, &mut self.records);
        self.len_bytes = 0;
        proof {
            assert(staged_views(self.records@) =~= Seq::empty());
        }
        out
    }
}

/// Reserves room for one mutation.
pub fn reserve_mutation_effect(
    staging: &LogStaging,
    effect: MutationEffect<'_>,
    framed: Result<usize, LogCodecError>,
) -> (r: Result<MutationReservation, MutationStageError>)
    requires
        staging.wf(),
    ensures
        match r {
            Ok(reservation) => stage_verdict(*staging, effect@, framed) is Ok && record_len_of(
                effect@,
                framed,
            ) == Ok::<usize, MutationStageError>(reservation.len()) && reservation.start()
                == staging_mark(*staging),
            Err(error) => error == (if staging@.len() >= u32::MAX {
                MutationStageError::Log(LogStagingError::RecordCountOverflow)
            } else {
                stage_verdict(*staging, effect@, framed)->Err_0
            }) && (staging@.len() >= u32::MAX || stage_verdict(*staging, effect@, framed) is Err),
        },
{
    if staging.record_count() == u32::MAX {
        return Err(MutationStageError::Log(LogStagingError::RecordCountOverflow));
    }
    let needed: usize = match mutation_effect_record_len(effect, framed) {
        Ok(n) => n,
        Err(error) => return Err(error),
    };
    let available: usize = staging.available_bytes();
    if needed > available {
        return Err(MutationStageError::Log(LogStagingError::Full { needed, available }));
    }
    Ok(
        MutationReservation {
            record_len: needed,
            start_len_bytes: staging.len_bytes() as u64,
            start_record_count: staging.record_count(),
        },
    )
}

/// Checks that one mutation has room.
pub fn reserve_mutation_effect_capacity(
    staging: &LogStaging,
    effect: MutationEffect<'_>,
    framed: Result<usize, LogCodecError>,
) -> (r: Result<(), MutationStageError>)
    requires
        staging.wf(),
    ensures
        r is Ok <==> stage_verdict(*staging, effect@, framed) is Ok,
        r matches Err(error) ==> error == (if staging@.len() >= u32::MAX {
            MutationStageError::Log(LogStagingError::RecordCountOverflow)
        } else {
            stage_verdict(*staging, effect@, framed)->Err_0
        }),
{
    match reserve_mutation_effect(staging, effect, framed) {
        Ok(_) => Ok(()),
        Err(error) => Err(error),
    }
}

/// Reserves room for a whole command's records.
pub fn reserve_mutation_effect_batch(
    staging: &LogStaging,
    record_count: u32,
    record_len_bytes: usize,
) -> (r: Result<MutationBatchReservation, MutationStageError>)
    requires
        staging.wf(),
    ensures
        match r {
            Ok(reservation) => record_count + staging@.len() <= u32::MAX && record_len_bytes
                <= staging.capacity() - staged_len(staging@) && reservation.count()
                == record_count && reservation.len() == record_len_bytes && reservation.start()
                == staging_mark(*staging),
            Err(error) => if record_count + staging@.len() > u32::MAX {
                error == MutationStageError::Log(LogStagingError::RecordCountOverflow)
            } else {
                record_len_bytes > staging.capacity() - staged_len(staging@) && error
                    == MutationStageError::Log(
                    LogStagingError::Full {
                        needed: record_len_bytes,
                        available: (staging.capacity() - staged_len(staging@)) as usize,
                    },
                )
            },
        },
{
    if record_count > u32::MAX - staging.record_count() {
        return Err(MutationStageError::Log(LogStagingError::RecordCountOverflow));
    }
    let available: usize = staging.available_bytes();
    if record_len_bytes > available {
        return Err(
            MutationStageError::Log(LogStagingError::Full { needed: record_len_bytes, available }),
        );
    }
    Ok(
        MutationBatchReservation {
            record_count,
            record_len_bytes,
            start_len_bytes: staging.len_bytes() as u64,
            start_record_count: staging.record_count(),
        },
    )
}

/// What staging answers to a mutation.
pub open spec fn stage_verdict(
    staging: LogStaging,
    effect: Effect,
    framed: Result<usize, LogCodecError>,
) -> Result<(), MutationStageError> {
    effect_verdict(staging@, staging.capacity(), effect, framed)
}

/// What staging of a capacity answers to a mutation.
pub open spec fn effect_verdict(
    staged: Seq<Staged>,
    capacity: nat,
    effect: Effect,
    framed: Result<usize, LogCodecError>,
) -> Result<(), MutationStageError> {
    match record_len_of(effect, framed) {
        Err(error) => Err(error),
        Ok(n) => match room_verdict(staged, capacity, n) {
            Ok(()) => Ok(()),
            Err(error) => Err(MutationStageError::Log(error)),
        },
    }
}

/// The record a mutation is staged as.
pub open spec fn staged_record(
    namespace: u32,
    effect: Effect,
    framed: Result<usize, LogCodecError>,
) -> Staged {
    Staged {
        kind: kind_of(effect),
        namespace: namespace,
        flags: flags_of(effect),
        payload: payload_of(effect),
        encoded_len: framed->Ok_0,
    }
}

/// Stages one mutation. Refused mutations leave staging as it was.
pub fn stage_mutation_effect(
    staging: &mut LogStaging,
    namespace: u32,
    effect: MutationEffect<'_>,
    framed: Result<usize, LogCodecError>,
) -> (r: Result<(), MutationStageError>)
    requires
        old(staging).wf(),
    ensures
        final(staging).wf(),
        final(staging).capacity() == old(staging).capacity(),
        r == stage_verdict(*old(staging), effect@, framed),
        final(staging)@ == (if r is Ok {
            old(staging)@.push(staged_record(namespace, effect@, framed))
        } else {
            old(staging)@
        }),
{
    let encoded_len: usize = match mutation_effect_record_len(effect, framed) {
        Ok(n) => n,
        Err(error) => return Err(error),
    };
    let (kind, flags) = mutation_effect_record_meta(effect);
    let mut payload: Vec<u8> = Vec::new();
    encode_mutation_payload(effect, &mut payload);
    proof {
        assert(payload@ =~= payload_of(effect@));
    }
    match staging.try_push(kind, namespace, flags, payload, encoded_len) {
        Ok(()) => Ok(()),
        Err(error) => Err(MutationStageError::Log(error)),
    }
}

/// What staging answers to a checkpoint-begin record: it stands alone in its
/// frame.
pub open spec fn begin_verdict(staging: LogStaging, framed: Result<usize, LogCodecError>) -> Result<
    (),
    MutationStageError,
> {
    if staging@.len() > 0 {
        Err(
            MutationStageError::CheckpointBeginRequiresEmptyStaging {
                staged_record_count: staging@.len() as u32,
                staged_bytes: staged_len(staging@) as usize,
            },
        )
    } else {
        match framed {
            Err(error) => Err(MutationStageError::Log(LogStagingError::Codec(error))),
            Ok(n) => match staging.verdict(n) {
                Ok(()) => Ok(()),
                Err(error) => Err(MutationStageError::Log(error)),
            },
        }
    }
}

/// Stages the begin record of a checkpoint, into empty staging only.
pub fn stage_checkpoint_begin(
    staging: &mut LogStaging,
    checkpoint: u32,
    format: LogFormat,
    framed: Result<usize, LogCodecError>,
) -> (r: Result<(), MutationStageError>)
    requires
        old(staging).wf(),
    ensures
        final(staging).wf(),
        final(staging).capacity() == old(staging).capacity(),
        r == begin_verdict(*old(staging), framed),
        final(staging)@ == (if r is Ok {
            old(staging)@.push(
                Staged {
                    kind: RecordKind::CheckpointBegin,
                    namespace: format.control_namespace,
                    flags: 0,
                    payload: vstd::bytes::spec_u32_to_le_bytes(checkpoint),
                    encoded_len: framed->Ok_0,
                },
            )
        } else {
            old(staging)@
        }),
{
    if !staging.is_empty() {
        return Err(
            MutationStageError::CheckpointBeginRequiresEmptyStaging {
                staged_record_count: staging.record_count(),
                staged_bytes: staging.len_bytes(),
            },
        );
    }
    let encoded_len: usize = match checkpoint_begin_record_len(framed) {
        Ok(n) => n,
        Err(error) => return Err(error),
    };
    let payload = u32_to_le_bytes(checkpoint);
    match staging.try_push(
        RecordKind::CheckpointBegin,
        format.control_namespace,
        0,
        payload,
        encoded_len,
    ) {
        Ok(()) => Ok(()),
        Err(error) => Err(MutationStageError::Log(error)),
    }
}

// ---- reservations ----

/// How much is staged: bytes and records.
pub open spec fn staging_mark(staging: LogStaging) -> (nat, nat) {
    (staged_len(staging@), staging@.len())
}

/// Room reserved for one mutation.
#[derive(Debug)]
#[must_use]
pub struct MutationReservation {
    record_len: usize,
    start_len_bytes: u64,
    start_record_count: u32,
}

impl MutationReservation {
    /// The reserved bytes.
    pub closed spec fn len(&self) -> usize {
        self.record_len
    }

    /// How much was staged when the room was reserved.
    pub closed spec fn start(&self) -> (nat, nat) {
        (self.start_len_bytes as nat, self.start_record_count as nat)
    }

    /// The reserved bytes.
    pub fn record_len(&self) -> (r: usize)
        ensures
            r == self.len(),
    {
        self.record_len
    }
}

/// Room reserved for a command's records.
#[derive(Debug)]
#[must_use]
pub struct MutationBatchReservation {
    record_count: u32,
    record_len_bytes: usize,
    start_len_bytes: u64,
    start_record_count: u32,
}

impl MutationBatchReservation {
    /// The reserved records.
    pub closed spec fn count(&self) -> u32 {
        self.record_count
    }

    /// The reserved bytes.
    pub closed spec fn len(&self) -> usize {
        self.record_len_bytes
    }

    /// How much was staged when the room was reserved.
    pub closed spec fn start(&self) -> (nat, nat) {
        (self.start_len_bytes as nat, self.start_record_count as nat)
    }

    /// The reserved records.
    pub fn record_count(&self) -> (r: u32)
        ensures
            r == self.count(),
    {
        self.record_count
    }

    /// The reserved bytes.
    pub fn record_len_bytes(&self) -> (r: usize)
        ensures
            r == self.len(),
    {
        self.record_len_bytes
    }
}

/// What a batch staged.
#[derive(Copy, Clone, Debug, PartialEq, Eq, Structural)]
pub struct MutationBatchOutcome {
    pub record_count: u32,
    pub len_bytes: usize,
}

/// One cell's staging of log records.
#[derive(Debug)]
pub struct DurabilityCell {
    pub staging: LogStaging,
}

/// The error of a reservation that staging has moved past.
pub open spec fn stale(start: (nat, nat), staging: LogStaging) -> MutationStageError {
    MutationStageError::ReservationStale {
        expected_bytes: start.0 as u64,
        actual_bytes: staging_mark(staging).0 as u64,
        expected_record_count: start.1 as u32,
        actual_record_count: staging_mark(staging).1 as u32,
    }
}

impl DurabilityCell {
    /// A cell that holds one record of the largest encoded length.
    pub fn new(max_record_encoded_len: usize) -> (r: DurabilityCell)
        ensures
            r.staging.wf(),
            r.staging.capacity() == max_record_encoded_len,
            r.staging@ == Seq::<Staged>::empty(),
    {
        DurabilityCell::with_capacity(max_record_encoded_len)
    }

    /// A cell of this staging capacity.
    pub fn with_capacity(capacity_bytes: usize) -> (r: DurabilityCell)
        ensures
            r.staging.wf(),
            r.staging.capacity() == capacity_bytes,
            r.staging@ == Seq::<Staged>::empty(),
    {
        DurabilityCell { staging: LogStaging::with_capacity(capacity_bytes) }
    }

    /// The staged bytes.
    pub fn log_staging_bytes(&self) -> (r: u64)
        requires
            self.staging.wf(),
        ensures
            r == staged_len(self.staging@),
    {
        self.staging.len_bytes() as u64
    }

    /// The staging capacity.
    pub fn log_staging_capacity_bytes(&self) -> (r: u64)
        ensures
            r == self.staging.capacity(),
    {
        self.staging.capacity_bytes() as u64
    }

    /// Checks that one mutation has room.
    pub fn reserve_mutation_effect_capacity(
        &self,
        effect: MutationEffect<'_>,
        framed: Result<usize, LogCodecError>,
    ) -> (r: Result<(), MutationStageError>)
        requires
            self.staging.wf(),
        ensures
            r is Ok <==> stage_verdict(self.staging, effect@, framed) is Ok,
            r matches Err(error) ==> error == (if self.staging@.len() >= u32::MAX {
                MutationStageError::Log(LogStagingError::RecordCountOverflow)
            } else {
                stage_verdict(self.staging, effect@, framed)->Err_0
            }),
    {
        reserve_mutation_effect_capacity(&self.staging, effect, framed)
    }

    /// Reserves room for one mutation.
    pub fn reserve_mutation_effect(
        &self,
        effect: MutationEffect<'_>,
        framed: Result<usize, LogCodecError>,
    ) -> (r: Result<MutationReservation, MutationStageError>)
        requires
            self.staging.wf(),
        ensures
            match r {
                Ok(reservation) => stage_verdict(self.staging, effect@, framed) is Ok
                    && record_len_of(effect@, framed) == Ok::<usize, MutationStageError>(
                    reservation.len(),
                ) && reservation.start() == staging_mark(self.staging),
                Err(error) => error == (if self.staging@.len() >= u32::MAX {
                    MutationStageError::Log(LogStagingError::RecordCountOverflow)
                } else {
                    stage_verdict(self.staging, effect@, framed)->Err_0
                }) && (self.staging@.len() >= u32::MAX || stage_verdict(
                    self.staging,
                    effect@,
                    framed,
                ) is Err),
            },
    {
        reserve_mutation_effect(&self.staging, effect, framed)
    }

    /// Reserves room for a command's records.
    pub fn reserve_mutation_effect_batch(
        &self,
        record_count: u32,
        record_len_bytes: usize,
    ) -> (r: Result<MutationBatchReservation, MutationStageError>)
        requires
            self.staging.wf(),
        ensures
            match r {
                Ok(reservation) => record_count + self.staging@.len() <= u32::MAX
                    && record_len_bytes <= self.staging.capacity() - staged_len(self.staging@)
                    && reservation.count() == record_count && reservation.len()
                    == record_len_bytes && reservation.start() == staging_mark(self.staging),
                Err(error) => if record_count + self.staging@.len() > u32::MAX {
                    error == MutationStageError::Log(LogStagingError::RecordCountOverflow)
                } else {
                    record_len_bytes > self.staging.capacity() - staged_len(self.staging@)
                        && error == MutationStageError::Log(
                        LogStagingError::Full {
                            needed: record_len_bytes,
                            available: (self.staging.capacity() - staged_len(
                                self.staging@,
                            )) as usize,
                        },
                    )
                },
            },
    {
        reserve_mutation_effect_batch(&self.staging, record_count, record_len_bytes)
    }

    /// Turns a reservation into a sink for its mutation. A reservation that
    /// staging has moved past is refused.
    pub fn reserved_mutation_sink(
        &mut self,
        namespace: u32,
        reservation: MutationReservation,
    ) -> (r: Result<ReservedMutationSink<'_>, MutationStageError>)
        requires
            old(self).staging.wf(),
            reservation.start().0 + reservation.len() <= old(self).staging.capacity(),
            reservation.start().1 < u32::MAX,
        ensures
            match r {
                Ok(sink) => reservation.start() == staging_mark(old(self).staging)
                    && *sink.cell == *old(self) && *final(self) == *final(sink.cell)
                    && sink.namespace == namespace && sink.reserved_record_len
                    == reservation.len() && !sink.staged && sink.wf(),
                Err(error) => reservation.start() != staging_mark(old(self).staging) && error
                    == stale(reservation.start(), old(self).staging) && *final(self) == *old(self),
            },
    {
        let bytes: u64 = self.log_staging_bytes();
        let count: u32 = self.staging.record_count();
        if reservation.start_len_bytes != bytes || reservation.start_record_count != count {
            return Err(
                MutationStageError::ReservationStale {
                    expected_bytes: reservation.start_len_bytes,
                    actual_bytes: bytes,
                    expected_record_count: reservation.start_record_count,
                    actual_record_count: count,
                },
            );
        }
        Ok(
            ReservedMutationSink {
                cell: self,
                namespace,
                reserved_record_len: reservation.record_len,
                staged: false,
            },
        )
    }

    /// Turns a batch reservation into a sink for its mutations.
    pub fn reserved_mutation_batch_sink(
        &mut self,
        namespace: u32,
        reservation: MutationBatchReservation,
    ) -> (r: Result<ReservedMutationBatchSink<'_>, MutationStageError>)
        requires
            old(self).staging.wf(),
            reservation.start().0 + reservation.len() <= old(self).staging.capacity(),
            reservation.start().1 + reservation.count() <= u32::MAX,
        ensures
            match r {
                Ok(sink) => reservation.start() == staging_mark(old(self).staging)
                    && *sink.cell == *old(self) && *final(self) == *final(sink.cell)
                    && sink.namespace == namespace && sink.reserved_record_count
                    == reservation.count() && sink.reserved_len_bytes == reservation.len()
                    && sink.staged_record_count == 0 && sink.staged_len_bytes == 0 && sink.wf(),
                Err(error) => reservation.start() != staging_mark(old(self).staging) && error
                    == stale(reservation.start(), old(self).staging) && *final(self) == *old(self),
            },
    {
        let bytes: u64 = self.log_staging_bytes();
        let count: u32 = self.staging.record_count();
        if reservation.start_len_bytes != bytes || reservation.start_record_count != count {
            return Err(
                MutationStageError::ReservationStale {
                    expected_bytes: reservation.start_len_bytes,
                    actual_bytes: bytes,
                    expected_record_count: reservation.start_record_count,
                    actual_record_count: count,
                },
            );
        }
        Ok(
            ReservedMutationBatchSink {
                cell: self,
                namespace,
                reserved_record_count: reservation.record_count,
                reserved_len_bytes: reservation.record_len_bytes,
                staged_record_count: 0,
                staged_len_bytes: 0,
            },
        )
    }

    /// Stages one mutation.
    pub fn stage_mutation_effect(
        &mut self,
        namespace: u32,
        effect: MutationEffect<'_>,
        framed: Result<usize, LogCodecError>,
    ) -> (r: Result<(), MutationStageError>)
        requires
            old(self).staging.wf(),
        ensures
            final(self).staging.wf(),
            final(self).staging.capacity() == old(self).staging.capacity(),
            r == stage_verdict(old(self).staging, effect@, framed),
            final(self).staging@ == (if r is Ok {
                old(self).staging@.push(staged_record(namespace, effect@, framed))
            } else {
                old(self).staging@
            }),
    {
        stage_mutation_effect(&mut self.staging, namespace, effect, framed)
    }

    /// Stages the begin record of a checkpoint.
    pub fn stage_checkpoint_begin(
        &mut self,
        checkpoint: u32,
        format: LogFormat,
        framed: Result<usize, LogCodecError>,
    ) -> (r: Result<(), MutationStageError>)
        requires
            old(self).staging.wf(),
        ensures
            final(self).staging.wf(),
            final(self).staging.capacity() == old(self).staging.capacity(),
            r == begin_verdict(old(self).staging, framed),
            final(self).staging@ == (if r is Ok {
                old(self).staging@.push(
                    Staged {
                        kind: RecordKind::CheckpointBegin,
                        namespace: format.control_namespace,
                        flags: 0,
                        payload: vstd::bytes::spec_u32_to_le_bytes(checkpoint),
                        encoded_len: framed->Ok_0,
                    },
                )
            } else {
                old(self).staging@
            }),
    {
        stage_checkpoint_begin(&mut self.staging, checkpoint, format, framed)
    }

    /// Takes the staged records for a frame; `None` when nothing is staged.
    pub fn drain_frame(&mut self) -> (r: Option<Vec<StagedRecord>>)
        requires
            old(self).staging.wf(),
        ensures
            final(self).staging.wf(),
            final(self).staging.capacity() == old(self).staging.capacity(),
            final(self).staging@ == Seq::<Staged>::empty(),
            match r {
                Some(records) => old(self).staging@.len() > 0 && staged_views(records@)
                    == old(self).staging@,
                None => old(self).staging@.len() == 0,
            },
    {
        if self.staging.is_empty() {
            proof {
                assert(self.staging@ =~= Seq::empty());
            }
            return None;
        }
        Some(self.staging.drain())
    }
}

/// Stages the one mutation its reservation admitted.
#[derive(Debug)]
#[must_use]
pub struct ReservedMutationSink<'a> {
    pub cell: &'a mut DurabilityCell,
    pub namespace: u32,
    pub reserved_record_len: usize,
    pub staged: bool,
}

impl<'a> ReservedMutationSink<'a> {
    /// The reserved room is there until the mutation is staged.
    pub open spec fn wf(&self) -> bool {
        &&& self.cell.staging.wf()
        &&& !self.staged ==> self.cell.staging.verdict(self.reserved_record_len) is Ok
    }

    /// Whether the mutation was staged.
    pub fn staged(&self) -> (r: bool)
        ensures
            r == self.staged,
    {
        self.staged
    }

    /// Stages the reserved mutation. Its encoded length is the reserved one,
    /// and staging takes it.
    pub fn push(&mut self, effect: MutationEffect<'_>, framed: Result<usize, LogCodecError>)
        requires
            old(self).wf(),
            !old(self).staged,
            record_len_of(effect@, framed) == Ok::<usize, MutationStageError>(
                old(self).reserved_record_len,
            ),
        ensures
            final(self).wf(),
            final(self).staged,
            final(self).namespace == old(self).namespace,
            final(self).reserved_record_len == old(self).reserved_record_len,
            final(self).cell.staging@ == old(self).cell.staging@.push(
                staged_record(old(self).namespace, effect@, framed),
            ),
            final(self).cell.staging.capacity() == old(self).cell.staging.capacity(),
            *final(final(self).cell) == *final(old(self).cell),
    {
        let _ = self.cell.stage_mutation_effect(self.namespace, effect, framed);
        self.staged = true;
    }

    /// Whether the mutation was staged.
    pub fn finish(self) -> (r: bool)
        ensures
            r == self.staged,
            has_resolved(self),
    {
        self.staged
    }
}

/// Stages the mutations its batch reservation admitted.
#[derive(Debug)]
#[must_use]
pub struct ReservedMutationBatchSink<'a> {
    pub cell: &'a mut DurabilityCell,
    pub namespace: u32,
    pub reserved_record_count: u32,
    pub reserved_len_bytes: usize,
    pub staged_record_count: u32,
    pub staged_len_bytes: usize,
}

impl<'a> ReservedMutationBatchSink<'a> {
    /// What is left of the reservation is still free in staging.
    pub open spec fn wf(&self) -> bool {
        &&& self.cell.staging.wf()
        &&& self.staged_record_count <= self.reserved_record_count
        &&& self.staged_len_bytes <= self.reserved_len_bytes
        &&& self.cell.staging@.len() + (self.reserved_record_count - self.staged_record_count)
            <= u32::MAX
        &&& self.reserved_len_bytes - self.staged_len_bytes <= self.cell.staging.capacity()
            - staged_len(self.cell.staging@)
    }

    /// Stages one mutation of the batch, within the reserved records and bytes.
    pub fn push(&mut self, effect: MutationEffect<'_>, framed: Result<usize, LogCodecError>)
        requires
            old(self).wf(),
            old(self).staged_record_count < old(self).reserved_record_count,
            record_len_of(effect@, framed) is Ok,
            old(self).staged_len_bytes + framed->Ok_0 <= old(self).reserved_len_bytes,
        ensures
            final(self).wf(),
            final(self).namespace == old(self).namespace,
            final(self).reserved_record_count == old(self).reserved_record_count,
            final(self).reserved_len_bytes == old(self).reserved_len_bytes,
            final(self).staged_record_count == old(self).staged_record_count + 1,
            final(self).staged_len_bytes == old(self).staged_len_bytes + framed->Ok_0,
            final(self).cell.staging@ == old(self).cell.staging@.push(
                staged_record(old(self).namespace, effect@, framed),
            ),
            final(self).cell.staging.capacity() == old(self).cell.staging.capacity(),
            *final(final(self).cell) == *final(old(self).cell),
    {
        let before: u64 = self.cell.log_staging_bytes();
        let ghost was = self.cell.staging@;
        let _ = self.cell.stage_mutation_effect(self.namespace, effect, framed);
        proof {
            assert(self.cell.staging@.drop_last() =~= was);
        }
        let written: usize = (self.cell.log_staging_bytes() - before) as usize;
        self.staged_record_count += 1;
        self.staged_len_bytes += written;
    }

    /// What the batch staged.
    pub fn finish(self) -> (r: MutationBatchOutcome)
        ensures
            r.record_count == self.staged_record_count,
            r.len_bytes == self.staged_len_bytes,
            has_resolved(self),
    {
        MutationBatchOutcome {
            record_count: self.staged_record_count,
            len_bytes: self.staged_len_bytes,
        }
    }
}

// ---- laws ----

/// The expiry of a mutation, if it carries one, fits a record.
pub open spec fn expiry_fits(effect: Effect) -> bool {
    match effect {
        Effect::StringPostImage { expire_at_ms, .. } => expire_at_ms matches Some(ms) ==> ms
            <= MAX_EXPIRE_MS,
        Effect::Delete { .. } => true,
        Effect::ExpireAt { expire_at_ms, .. } => expire_at_ms matches Some(ms) ==> ms
            <= MAX_EXPIRE_MS,
    }
}

proof fn lemma_split_prefixed(s: Seq<u8>, rest: Seq<u8>)
    requires
        s.len() <= u64::MAX,
        prefixed(s).len() + rest.len() <= usize::MAX,
    ensures
        split_prefixed(prefixed(s) + rest) == Ok::<_, MutationRecordDecodeError>((s, rest)),
{
    let k = varint::varint(s.len()).len();
    varint::law_varint_round_trip(s.len() as u64, s + rest);
    assert(prefixed(s) + rest =~= varint::varint(s.len()) + (s + rest));
    assert((prefixed(s) + rest).subrange(k as int, (k + s.len()) as int) =~= s);
    assert((prefixed(s) + rest).skip((k + s.len()) as int) =~= rest);
}

proof fn lemma_split_expire(flags: u16, expire_at_ms: Option<u64>)
    requires
        expire_at_ms matches Some(ms) ==> ms <= MAX_EXPIRE_MS,
        (flags & MUTATION_FLAG_HAS_EXPIRE == 0) == (expire_at_ms is None),
    ensures
        split_expire(flags, expire_bytes(expire_at_ms)) == Ok::<_, MutationRecordDecodeError>(
            (expire_at_ms, Seq::<u8>::empty()),
        ),
{
    vstd::bytes::lemma_auto_spec_u64_to_from_le_bytes();
    if let Some(ms) = expire_at_ms {
        let bytes = vstd::bytes::spec_u64_to_le_bytes(ms);
        assert(bytes.take(EXPIRE_LEN as int) =~= bytes);
        assert(bytes.skip(EXPIRE_LEN as int) =~= Seq::<u8>::empty());
    }
}

/// A staged mutation decodes back to itself: the record under its kind and
/// flags, with its payload, describes the same mutation.
pub proof fn law_mutation_round_trip(effect: Effect)
    requires
        expiry_fits(effect),
        payload_of(effect).len() <= usize::MAX,
    ensures
        decoded_effect(kind_of(effect), flags_of(effect), payload_of(effect)) == Ok::<
            _,
            MutationRecordDecodeError,
        >(effect),
{
    assert(0u16 & !3u16 == 0 && 1u16 & !3u16 == 0 && 2u16 & !3u16 == 0 && 3u16 & !3u16 == 0 && 0u16
        & !2u16 == 0 && 2u16 & !2u16 == 0 && 0u16 & !0u16 == 0 && 0u16 & 2u16 == 0 && 1u16 & 2u16
        == 0 && 2u16 & 2u16 == 2 && 3u16 & 2u16 == 2 && 0u16 & 1u16 == 0 && 1u16 & 1u16 == 1 && 2u16
        & 1u16 == 0 && 3u16 & 1u16 == 1) by (bit_vector);
    match effect {
        Effect::StringPostImage { key, value, expire_at_ms, raw } => {
            let tail = expire_bytes(expire_at_ms);
            assert(payload_of(effect) =~= prefixed(key) + (prefixed(value) + tail));
            lemma_split_prefixed(key, prefixed(value) + tail);
            lemma_split_prefixed(value, tail);
            lemma_split_expire(flags_of(effect), expire_at_ms);
        },
        Effect::Delete { key } => {
            assert(payload_of(effect) =~= prefixed(key) + Seq::<u8>::empty());
            lemma_split_prefixed(key, Seq::empty());
        },
        Effect::ExpireAt { key, expire_at_ms } => {
            lemma_split_prefixed(key, expire_bytes(expire_at_ms));
            lemma_split_expire(flags_of(effect), expire_at_ms);
        },
    }
}

/// A staged checkpoint-begin record decodes back to its checkpoint id.
pub proof fn law_checkpoint_begin_round_trip(checkpoint: u32, format: LogFormat)
    requires
        checkpoint <= format.max_checkpoint_id,
    ensures
        decoded_begin(
            RecordKind::CheckpointBegin,
            format.control_namespace,
            0,
            vstd::bytes::spec_u32_to_le_bytes(checkpoint),
            format,
        ) == Ok::<u32, CheckpointBeginRecordDecodeError>(checkpoint),
{
    vstd::bytes::lemma_auto_spec_u32_to_from_le_bytes();
}

/// Admission is exact: a mutation that reserved its room is staged by the next
/// push, and staging grows by exactly the reserved length.
pub proof fn law_reservation_is_exact(
    staging: LogStaging,
    namespace: u32,
    effect: Effect,
    framed: Result<usize, LogCodecError>,
    reserved: usize,
)
    requires
        stage_verdict(staging, effect, framed) is Ok,
        record_len_of(effect, framed) == Ok::<usize, MutationStageError>(reserved),
    ensures
        staged_len(staging@.push(staged_record(namespace, effect, framed))) == staged_len(
            staging@,
        ) + reserved,
        staged_len(staging@) + reserved <= staging.capacity(),
{
    let after = staging@.push(staged_record(namespace, effect, framed));
    assert(after.drop_last() =~= staging@);
}

proof fn lemma_split_expire_before(flags: u16, expire_at_ms: Option<u64>, rest: Seq<u8>)
    requires
        expire_at_ms matches Some(ms) ==> ms <= MAX_EXPIRE_MS,
        (flags & MUTATION_FLAG_HAS_EXPIRE == 0) == (expire_at_ms is None),
    ensures
        split_expire(flags, expire_bytes(expire_at_ms) + rest) == Ok::<
            _,
            MutationRecordDecodeError,
        >((expire_at_ms, rest)),
{
    vstd::bytes::lemma_auto_spec_u64_to_from_le_bytes();
    match expire_at_ms {
        Some(ms) => {
            let bytes = vstd::bytes::spec_u64_to_le_bytes(ms);
            assert((bytes + rest).take(EXPIRE_LEN as int) =~= bytes);
            assert((bytes + rest).skip(EXPIRE_LEN as int) =~= rest);
        },
        None => {
            assert(expire_bytes(expire_at_ms) + rest =~= rest);
        },
    }
}

proof fn lemma_flag_bits(flags: u16)
    ensures
        flags & !3u16 == 0 <==> flags <= 3,
        flags & !2u16 == 0 <==> flags == 0 || flags == 2,
        flags & !0u16 == 0 <==> flags == 0,
        0u16 & 1u16 == 0,
        1u16 & 1u16 == 1,
        2u16 & 1u16 == 0,
        3u16 & 1u16 == 1,
        0u16 & 2u16 == 0,
        1u16 & 2u16 == 0,
        2u16 & 2u16 == 2,
        3u16 & 2u16 == 2,
{
    assert(flags & !3u16 == 0 <==> flags <= 3) by (bit_vector);
    assert(flags & !2u16 == 0 <==> flags == 0 || flags == 2) by (bit_vector);
    assert(flags & !0u16 == 0 <==> flags == 0) by (bit_vector);
    assert(0u16 & 1u16 == 0 && 1u16 & 1u16 == 1 && 2u16 & 1u16 == 0 && 3u16 & 1u16 == 1 && 0u16
        & 2u16 == 0 && 1u16 & 2u16 == 0 && 2u16 & 2u16 == 2 && 3u16 & 2u16 == 2) by (bit_vector);
}

/// The flags of a record say which optional parts it has: bit 0 that a
/// post-image is raw, bit 1 that an expiry follows. Nothing else sets a flag.
pub proof fn law_flags_name_the_parts(
    key: Seq<u8>,
    value: Seq<u8>,
    expire_at_ms: Option<u64>,
    raw: bool,
)
    ensures
        flags_of(Effect::StringPostImage { key, value, expire_at_ms, raw }) == (if raw {
            1int
        } else {
            0
        }) + (if expire_at_ms is Some {
            2int
        } else {
            0
        }),
        flags_of(Effect::ExpireAt { key, expire_at_ms }) == (if expire_at_ms is Some {
            2int
        } else {
            0
        }),
        flags_of(Effect::Delete { key }) == 0,
        kind_of(Effect::StringPostImage { key, value, expire_at_ms, raw })
            == RecordKind::StringPostImage,
        kind_of(Effect::ExpireAt { key, expire_at_ms }) == RecordKind::ExpireAt,
        kind_of(Effect::Delete { key }) == RecordKind::Delete,
{
}

/// How payloads are built from each other: a deletion is its key behind its
/// length, a post-image is its key and then its value, each behind its length,
/// and an expiry is eight more bytes, the low byte first. The raw flag is not
/// in the payload.
pub proof fn law_payload_is_built_in_order(key: Seq<u8>, value: Seq<u8>, ms: u64, raw: bool)
    ensures
        payload_of(Effect::Delete { key }) == varint::varint(key.len()) + key,
        payload_of(Effect::StringPostImage { key, value, expire_at_ms: None, raw }) == payload_of(
            Effect::Delete { key },
        ) + payload_of(Effect::Delete { key: value }),
        payload_of(Effect::StringPostImage { key, value, expire_at_ms: Some(ms), raw })
            == payload_of(
            Effect::StringPostImage { key, value, expire_at_ms: None, raw: !raw },
        ) + vstd::bytes::spec_u64_to_le_bytes(ms),
        payload_of(Effect::ExpireAt { key, expire_at_ms: None }) == payload_of(
            Effect::Delete { key },
        ),
        payload_of(Effect::ExpireAt { key, expire_at_ms: Some(ms) }) == payload_of(
            Effect::Delete { key },
        ) + vstd::bytes::spec_u64_to_le_bytes(ms),
        vstd::bytes::spec_u64_to_le_bytes(ms).len() == 8,
{
    vstd::bytes::lemma_auto_spec_u64_to_from_le_bytes();
    assert(prefixed(key) + prefixed(value) + Seq::<u8>::empty() =~= prefixed(key) + prefixed(
        value,
    ));
    assert(prefixed(key) + Seq::<u8>::empty() =~= prefixed(key));
}

/// A record that decodes was one that could be written: its kind is that of a
/// mutation, it carries no flag unknown to that kind, an expiry exactly where
/// the flag says so and of at most 40 bits, and the raw mark of its flag.
pub proof fn law_decoded_record_is_sound(kind: RecordKind, flags: u16, payload: Seq<u8>)
    ensures
        decoded_effect(kind, flags, payload) matches Ok(effect) ==> match effect {
            Effect::StringPostImage { expire_at_ms, raw, .. } => kind
                == RecordKind::StringPostImage && flags == (if raw {
                1int
            } else {
                0
            }) + (if expire_at_ms is Some {
                2int
            } else {
                0
            }) && (expire_at_ms matches Some(ms) ==> ms < 0x100_0000_0000),
            Effect::Delete { .. } => kind == RecordKind::Delete && flags == 0,
            Effect::ExpireAt { expire_at_ms, .. } => kind == RecordKind::ExpireAt && flags == (
            if expire_at_ms is Some {
                2int
            } else {
                0
            }) && (expire_at_ms matches Some(ms) ==> ms < 0x100_0000_0000),
        },
        kind == RecordKind::Namespace || kind == RecordKind::CheckpointBegin ==> decoded_effect(
            kind,
            flags,
            payload,
        ) == Err::<Effect, _>(MutationRecordDecodeError::UnsupportedKind { kind }),
        kind == RecordKind::StringPostImage && flags > 3 || kind == RecordKind::Delete && flags != 0
            || kind == RecordKind::ExpireAt && flags != 0 && flags != 2 ==> decoded_effect(
            kind,
            flags,
            payload,
        ) == Err::<Effect, _>(MutationRecordDecodeError::UnknownFlags { kind, flags }),
{
    lemma_flag_bits(flags);
}

/// Bytes behind a record's payload are refused, with their number.
pub proof fn law_trailing_bytes_are_refused(effect: Effect, extra: Seq<u8>)
    requires
        expiry_fits(effect),
        payload_of(effect).len() + extra.len() <= usize::MAX,
        extra.len() > 0,
    ensures
        decoded_effect(kind_of(effect), flags_of(effect), payload_of(effect) + extra) == Err::<
            Effect,
            _,
        >(MutationRecordDecodeError::TrailingBytes { bytes: extra.len() as usize }),
{
    lemma_flag_bits(flags_of(effect));
    match effect {
        Effect::StringPostImage { key, value, expire_at_ms, raw } => {
            let tail = expire_bytes(expire_at_ms) + extra;
            assert(payload_of(effect) + extra =~= prefixed(key) + (prefixed(value) + tail));
            lemma_split_prefixed(key, prefixed(value) + tail);
            lemma_split_prefixed(value, tail);
            lemma_split_expire_before(flags_of(effect), expire_at_ms, extra);
        },
        Effect::Delete { key } => {
            lemma_split_prefixed(key, extra);
        },
        Effect::ExpireAt { key, expire_at_ms } => {
            let tail = expire_bytes(expire_at_ms) + extra;
            assert(payload_of(effect) + extra =~= prefixed(key) + tail);
            lemma_split_prefixed(key, tail);
            lemma_split_expire_before(flags_of(effect), expire_at_ms, extra);
        },
    }
}

proof fn lemma_cut_varint(n: nat, m: int)
    requires
        0 <= m < varint::varint(n).len(),
    ensures
        varint::leading(varint::varint(n).take(m)) is None,
    decreases n,
{
    if n >= 128 && m > 0 {
        lemma_cut_varint(n / 128, m - 1);
        let cut = varint::varint(n).take(m);
        assert(varint::varint(n)[0] == (n % 128 + 128) as u8);
        assert(cut.skip(1) =~= varint::varint(n / 128).take(m - 1));
    }
}

proof fn lemma_cut_prefixed(s: Seq<u8>, m: int)
    requires
        prefixed(s).len() <= usize::MAX,
        0 <= m < prefixed(s).len(),
    ensures
        split_prefixed(prefixed(s).take(m)) is Err,
{
    let head = varint::varint(s.len());
    let cut = prefixed(s).take(m);
    if m < head.len() {
        assert(cut =~= head.take(m));
        lemma_cut_varint(s.len(), m);
    } else {
        assert(cut =~= head + s.take(m - head.len()));
        varint::law_varint_round_trip(s.len() as u64, s.take(m - head.len()));
    }
}

/// A payload that was cut short is refused.
pub proof fn law_cut_payload_is_refused(effect: Effect, m: int)
    requires
        expiry_fits(effect),
        payload_of(effect).len() <= usize::MAX,
        0 <= m < payload_of(effect).len(),
    ensures
        decoded_effect(kind_of(effect), flags_of(effect), payload_of(effect).take(m)) is Err,
{
    lemma_flag_bits(flags_of(effect));
    vstd::bytes::lemma_auto_spec_u64_to_from_le_bytes();
    let cut = payload_of(effect).take(m);
    match effect {
        Effect::StringPostImage { key, value, expire_at_ms, raw } => {
            let k = prefixed(key).len() as int;
            let v = prefixed(value).len() as int;
            let tail = expire_bytes(expire_at_ms);
            if m < k {
                assert(cut =~= prefixed(key).take(m));
                lemma_cut_prefixed(key, m);
            } else if m < k + v {
                assert(cut =~= prefixed(key) + prefixed(value).take(m - k));
                lemma_split_prefixed(key, prefixed(value).take(m - k));
                lemma_cut_prefixed(value, m - k);
            } else {
                let rest = tail.take(m - k - v);
                assert(cut =~= prefixed(key) + (prefixed(value) + rest));
                lemma_split_prefixed(key, prefixed(value) + rest);
                lemma_split_prefixed(value, rest);
            }
        },
        Effect::Delete { key } => {
            lemma_cut_prefixed(key, m);
        },
        Effect::ExpireAt { key, expire_at_ms } => {
            let k = prefixed(key).len() as int;
            if m < k {
                assert(cut =~= prefixed(key).take(m));
                lemma_cut_prefixed(key, m);
            } else {
                let rest = expire_bytes(expire_at_ms).take(m - k);
                assert(cut =~= prefixed(key) + rest);
                lemma_split_prefixed(key, rest);
            }
        },
    }
}

/// An expiry beyond 40 bits is refused on the way back, and named.
pub proof fn law_wide_expiry_is_refused(key: Seq<u8>, ms: u64)
    requires
        ms >= 0x100_0000_0000,
        payload_of(Effect::ExpireAt { key, expire_at_ms: Some(ms) }).len() <= usize::MAX,
    ensures
        decoded_effect(
            RecordKind::ExpireAt,
            2,
            payload_of(Effect::ExpireAt { key, expire_at_ms: Some(ms) }),
        ) == Err::<Effect, _>(MutationRecordDecodeError::ExpireOutOfRange { expire_at_ms: ms }),
{
    lemma_flag_bits(2);
    vstd::bytes::lemma_auto_spec_u64_to_from_le_bytes();
    let bytes = vstd::bytes::spec_u64_to_le_bytes(ms);
    lemma_split_prefixed(key, bytes);
    assert(bytes.take(EXPIRE_LEN as int) =~= bytes);
}

/// A checkpoint-begin record that decodes is unflagged, stands in the control
/// namespace and holds the four bytes of an id within the maximum; whatever
/// else is wrong with a record is refused.
pub proof fn law_checkpoint_begin_is_strict(
    kind: RecordKind,
    namespace: u32,
    flags: u16,
    payload: Seq<u8>,
    format: LogFormat,
)
    ensures
        decoded_begin(kind, namespace, flags, payload, format) matches Ok(id) ==> kind
            == RecordKind::CheckpointBegin && namespace == format.control_namespace && flags == 0
            && payload == vstd::bytes::spec_u32_to_le_bytes(id) && id <= format.max_checkpoint_id,
        kind != RecordKind::CheckpointBegin ==> decoded_begin(
            kind,
            namespace,
            flags,
            payload,
            format,
        ) == Err::<u32, _>(CheckpointBeginRecordDecodeError::UnsupportedKind { kind }),
        decoded_begin(kind, namespace, flags, payload, format) matches Err(
            CheckpointBeginRecordDecodeError::InvalidLength { len },
        ) ==> payload.len() != 4 && len == payload.len() as usize,
        decoded_begin(kind, namespace, flags, payload, format) matches Err(
            CheckpointBeginRecordDecodeError::InvalidCheckpointId { raw },
        ) ==> payload == vstd::bytes::spec_u32_to_le_bytes(raw) && raw > format.max_checkpoint_id,
        decoded_begin(kind, namespace, flags, payload, format) matches Err(
            CheckpointBeginRecordDecodeError::UnknownFlags { flags: f },
        ) ==> f == flags && f != 0,
        decoded_begin(kind, namespace, flags, payload, format) matches Err(
            CheckpointBeginRecordDecodeError::InvalidNamespace { namespace: n },
        ) ==> n == namespace && n != format.control_namespace,
{
    vstd::bytes::lemma_auto_spec_u32_to_from_le_bytes();
}

/// Staging takes a record exactly when its frame fits in what is free and the
/// record count has room; a refusal says how much was free.
pub proof fn law_staging_fills_to_capacity(staged: Seq<Staged>, capacity: nat, len: usize)
    requires
        staged_len(staged) <= capacity <= usize::MAX,
    ensures
        room_verdict(staged, capacity, len) is Ok <==> staged_len(staged) + len <= capacity
            && staged.len() < 0xffff_ffff,
        room_verdict(staged, capacity, len) matches Err(
            LogStagingError::Full { needed, available },
        ) ==> needed == len && staged_len(staged) + available == capacity,
        room_verdict(staged, capacity, len) == Err::<(), _>(LogStagingError::RecordCountOverflow)
            <==> staged.len() >= 0xffff_ffff,
{
}

/// What is staged is as long as its frames together.
pub proof fn law_staged_length_adds_up(staged: Seq<Staged>, record: Staged)
    ensures
        staged_len(staged.push(record)) == staged_len(staged) + record.encoded_len,
        staged_len(Seq::empty()) == 0,
{
    assert(staged.push(record).drop_last() =~= staged);
}

/// A mutation is staged with the length its frame was given, in the namespace
/// it is of, and refused where its frame is or where it does not fit.
pub proof fn law_mutation_takes_its_frame(
    staging: LogStaging,
    namespace: u32,
    effect: Effect,
    framed: Result<usize, LogCodecError>,
)
    ensures
        framed is Err ==> stage_verdict(staging, effect, framed) is Err,
        payload_of(effect).len() <= usize::MAX ==> (framed matches Err(error) ==> stage_verdict(
            staging,
            effect,
            framed,
        ) == Err::<(), _>(MutationStageError::Log(LogStagingError::Codec(error)))),
        stage_verdict(staging, effect, framed) is Ok ==> (framed matches Ok(n) && staged_record(
            namespace,
            effect,
            framed,
        ).encoded_len == n && staged_len(staging@) + n <= staging.capacity() && staging@.len()
            < 0xffff_ffff),
        framed matches Ok(n) && payload_of(effect).len() <= usize::MAX && staged_len(staging@) + n
            <= staging.capacity() && staging@.len() < 0xffff_ffff ==> stage_verdict(
            staging,
            effect,
            framed,
        ) is Ok,
        staged_record(namespace, effect, framed).namespace == namespace,
{
}

/// A checkpoint begins on an empty stage only; a record staged before it is
/// reported with its bytes.
pub proof fn law_checkpoint_begins_on_empty_staging(
    staging: LogStaging,
    framed: Result<usize, LogCodecError>,
)
    requires
        staging.wf(),
    ensures
        begin_verdict(staging, framed) is Ok ==> staging@.len() == 0,
        staging@.len() > 0 ==> (begin_verdict(staging, framed) matches Err(
            MutationStageError::CheckpointBeginRequiresEmptyStaging {
                staged_record_count,
                staged_bytes,
            },
        ) && staged_record_count == staging@.len() && staged_bytes == staged_len(staging@)),
        staging@.len() == 0 && (framed matches Ok(n) && n <= staging.capacity()) ==> begin_verdict(
            staging,
            framed,
        ) is Ok,
{
}

/// A length is taken exactly where it fits the machine, and else the record is
/// too large.
pub proof fn law_length_fits_or_is_refused(n: int)
    requires
        n >= 0,
    ensures
        n <= usize::MAX ==> (length_of(n) matches Ok(len) && len == n),
        n > usize::MAX ==> length_of(n) == Err::<usize, _>(
            MutationStageError::Log(LogStagingError::Codec(LogCodecError::RecordTooLarge)),
        ),
{
}

/// A reservation marks where staging stood: its bytes and its records. It is
/// stale as soon as either moved, and says from where to where.
pub proof fn law_reservation_marks_the_stage(staging: LogStaging, start: (nat, nat))
    requires
        staging.wf(),
        start.0 <= u64::MAX,
        start.1 <= u32::MAX,
        staged_len(staging@) <= u64::MAX,
        staging@.len() <= u32::MAX,
    ensures
        staging_mark(staging) == (staged_len(staging@), staging@.len()),
        stale(start, staging) matches MutationStageError::ReservationStale {
            expected_bytes,
            actual_bytes,
            expected_record_count,
            actual_record_count,
        } && expected_bytes == start.0 && actual_bytes == staged_len(staging@)
            && expected_record_count == start.1 && actual_record_count == staging@.len(),
{
}

/// The model of a mutation and of a staged record has the fields of the value.
pub proof fn law_models_have_the_fields<'a>(
    key: &'a [u8],
    value: &'a [u8],
    expire_at_ms: Option<u64>,
    raw: bool,
    record: StagedRecord,
)
    ensures
        (MutationEffect::StringPostImage { key, value, expire_at_ms, raw })@ == (
        Effect::StringPostImage { key: key@, value: value@, expire_at_ms, raw }),
        (MutationEffect::Delete { key })@ == (Effect::Delete { key: key@ }),
        (MutationEffect::ExpireAt { key, expire_at_ms })@ == (Effect::ExpireAt {
            key: key@,
            expire_at_ms,
        }),
        record@.kind == record.kind,
        record@.namespace == record.namespace,
        record@.flags == record.flags,
        record@.payload == record.payload@,
        record@.encoded_len == record.encoded_len,
{
}

} // verus!
