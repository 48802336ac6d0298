use inf_server::durability::{
    checkpoint_begin_record_len, decode_checkpoint_begin_record, decode_mutation_record,
    mutation_effect_payload_len, mutation_effect_record_len, reserve_mutation_effect_capacity,
    stage_mutation_effect, CheckpointBeginRecordDecodeError, DurabilityCell, LogCodecError,
    LogFormat, LogStaging, LogStagingError, MutationBatchOutcome, MutationEffect,
    MutationRecordDecodeError, MutationStageError, RecordKind, RecordRef, StagedRecord,
    MUTATION_FLAG_HAS_EXPIRE, MUTATION_FLAG_RAW,
};
use inf_server::varint::{decode_u64, encode_u64};

const FORMAT: LogFormat = LogFormat { control_namespace: u32::MAX, max_checkpoint_id: 0xff_ffff };

/// The log frames a record with a fixed overhead.
fn framed(effect: MutationEffect<'_>) -> Result<usize, LogCodecError> {
    Ok(mutation_effect_payload_len(effect).expect("small") + 11)
}

fn record_len(effect: MutationEffect<'_>) -> usize {
    mutation_effect_record_len(effect, framed(effect)).expect("small")
}

fn begin_framed() -> Result<usize, LogCodecError> {
    Ok(15)
}

fn stage(staging: &mut LogStaging, namespace: u32, effect: MutationEffect<'_>) {
    stage_mutation_effect(staging, namespace, effect, framed(effect)).expect("staged");
}

fn as_record(record: &StagedRecord) -> RecordRef<'_> {
    RecordRef {
        kind: record.kind,
        namespace: record.namespace,
        flags: record.flags,
        payload: &record.payload,
    }
}

fn decode_len_prefixed(input: &[u8]) -> (&[u8], &[u8]) {
    let (len, prefix) = decode_u64(input).expect("length");
    let len = len as usize;
    (&input[prefix..prefix + len], &input[prefix + len..])
}

#[test]
fn stages_string_post_image_payload_shape() {
    let mut staging = LogStaging::with_capacity(128);
    let effect = MutationEffect::StringPostImage {
        key: b"k",
        value: b"value",
        expire_at_ms: Some(42),
        raw: true,
    };

    stage(&mut staging, 9, effect);
    let records = staging.drain();
    assert_eq!(records.len(), 1);
    let record = &records[0];
    assert_eq!(record.kind, RecordKind::StringPostImage);
    assert_eq!(record.namespace, 9);
    assert_eq!(record.flags, MUTATION_FLAG_RAW | MUTATION_FLAG_HAS_EXPIRE);

    let (key, rest) = decode_len_prefixed(&record.payload);
    let (value, rest) = decode_len_prefixed(rest);
    assert_eq!(key, b"k");
    assert_eq!(value, b"value");
    assert_eq!(rest, 42u64.to_le_bytes());
}

#[test]
fn stages_delete_and_persist_expire_shapes() {
    let mut staging = LogStaging::with_capacity(128);
    stage(&mut staging, 1, MutationEffect::Delete { key: b"dead" });
    stage(&mut staging, 1, MutationEffect::ExpireAt { key: b"ttl", expire_at_ms: None });

    let records = staging.drain();
    assert_eq!(records.len(), 2);

    let delete = &records[0];
    let (key, rest) = decode_len_prefixed(&delete.payload);
    assert_eq!(delete.kind, RecordKind::Delete);
    assert_eq!(delete.flags, 0);
    assert_eq!(key, b"dead");
    assert!(rest.is_empty());

    let expire = &records[1];
    let (key, rest) = decode_len_prefixed(&expire.payload);
    assert_eq!(expire.kind, RecordKind::ExpireAt);
    assert_eq!(expire.flags, 0);
    assert_eq!(key, b"ttl");
    assert!(rest.is_empty());
}

#[test]
fn decodes_staged_mutation_records() {
    let mut staging = LogStaging::with_capacity(256);
    let image = MutationEffect::StringPostImage {
        key: b"k",
        value: b"value",
        expire_at_ms: Some(42),
        raw: true,
    };
    stage(&mut staging, 1, image);
    stage(&mut staging, 1, MutationEffect::Delete { key: b"dead" });
    stage(&mut staging, 1, MutationEffect::ExpireAt { key: b"ttl", expire_at_ms: None });

    let records = staging.drain();
    let effects: Vec<_> =
        records.iter().map(|record| decode_mutation_record(as_record(record)).unwrap()).collect();

    assert_eq!(
        effects,
        vec![
            MutationEffect::StringPostImage {
                key: b"k",
                value: b"value",
                expire_at_ms: Some(42),
                raw: true,
            },
            MutationEffect::Delete { key: b"dead" },
            MutationEffect::ExpireAt { key: b"ttl", expire_at_ms: None },
        ]
    );
}

#[test]
fn mutation_decoder_rejects_unknown_flags() {
    let record = RecordRef {
        kind: RecordKind::Delete,
        namespace: 1,
        flags: MUTATION_FLAG_RAW,
        payload: &[1, b'k'],
    };

    assert_eq!(
        decode_mutation_record(record),
        Err(MutationRecordDecodeError::UnknownFlags {
            kind: RecordKind::Delete,
            flags: MUTATION_FLAG_RAW,
        })
    );
}

#[test]
fn mutation_decoder_names_each_damage() {
    let decode = |kind, flags, payload: &[u8]| {
        decode_mutation_record(RecordRef { kind, namespace: 1, flags, payload })
            .expect_err("damaged")
    };
    assert_eq!(
        decode(RecordKind::Namespace, 0, b""),
        MutationRecordDecodeError::UnsupportedKind { kind: RecordKind::Namespace }
    );
    assert_eq!(decode(RecordKind::Delete, 0, b""), MutationRecordDecodeError::InvalidLength);
    assert_eq!(
        decode(RecordKind::Delete, 0, &[3, b'k']),
        MutationRecordDecodeError::Truncated { needed: 4, available: 2 }
    );
    assert_eq!(
        decode(RecordKind::Delete, 0, &[1, b'k', 9]),
        MutationRecordDecodeError::TrailingBytes { bytes: 1 }
    );
    let mut late = vec![1, b'k'];
    late.extend_from_slice(&u64::MAX.to_le_bytes());
    assert_eq!(
        decode(RecordKind::ExpireAt, MUTATION_FLAG_HAS_EXPIRE, &late),
        MutationRecordDecodeError::ExpireOutOfRange { expire_at_ms: u64::MAX }
    );
    assert_eq!(
        MutationRecordDecodeError::TrailingBytes { bytes: 1 }.message().is_empty(),
        false
    );
}

#[test]
fn durability_cell_default_holds_one_max_record() {
    let cell = DurabilityCell::new(1 << 20);

    assert_eq!(cell.log_staging_bytes(), 0);
    assert!(cell.log_staging_capacity_bytes() as usize >= 1 << 20);
}

#[test]
fn durability_cell_gauges_track_append_and_drain() {
    let effect = MutationEffect::StringPostImage {
        key: b"k",
        value: b"value",
        expire_at_ms: Some(42),
        raw: true,
    };
    let needed = record_len(effect);
    let mut cell = DurabilityCell::with_capacity(needed);
    let capacity = cell.log_staging_capacity_bytes();

    cell.reserve_mutation_effect_capacity(effect, framed(effect)).unwrap();
    cell.stage_mutation_effect(4, effect, framed(effect)).unwrap();
    assert_eq!(cell.log_staging_bytes(), needed as u64);
    assert_eq!(cell.log_staging_capacity_bytes(), capacity);

    let records = cell.drain_frame().expect("one frame");
    assert_eq!(records.len(), 1);
    assert_eq!(cell.log_staging_bytes(), 0);
    assert_eq!(cell.log_staging_capacity_bytes(), capacity);
    assert!(cell.drain_frame().is_none());
}

#[test]
fn stages_checkpoint_begin_as_isolated_control_record() {
    let needed = checkpoint_begin_record_len(begin_framed()).unwrap();
    let mut cell = DurabilityCell::with_capacity(needed);

    cell.stage_checkpoint_begin(7, FORMAT, begin_framed()).unwrap();
    assert_eq!(cell.log_staging_bytes(), needed as u64);

    let records = cell.drain_frame().expect("one frame");
    assert_eq!(records.len(), 1);
    let record = as_record(&records[0]);
    assert_eq!(record.kind, RecordKind::CheckpointBegin);
    assert_eq!(record.namespace, FORMAT.control_namespace);
    assert_eq!(record.flags, 0);
    assert_eq!(decode_checkpoint_begin_record(record, FORMAT), Ok(7));
}

#[test]
fn checkpoint_begin_rejects_nonempty_staging() {
    let effect = MutationEffect::Delete { key: b"k" };
    let needed = record_len(effect);
    let mut cell = DurabilityCell::with_capacity(
        needed + checkpoint_begin_record_len(begin_framed()).unwrap(),
    );

    cell.stage_mutation_effect(1, effect, framed(effect)).unwrap();
    assert_eq!(
        cell.stage_checkpoint_begin(7, FORMAT, begin_framed()),
        Err(MutationStageError::CheckpointBeginRequiresEmptyStaging {
            staged_record_count: 1,
            staged_bytes: needed,
        })
    );
}

#[test]
fn checkpoint_begin_decoder_rejects_noncanonical_record_shape() {
    let checkpoint_bytes = 7u32.to_le_bytes();
    let record = |kind, namespace, flags, payload| RecordRef { kind, namespace, flags, payload };
    let begin = RecordKind::CheckpointBegin;
    assert_eq!(
        decode_checkpoint_begin_record(
            record(RecordKind::Delete, FORMAT.control_namespace, 0, &checkpoint_bytes),
            FORMAT
        ),
        Err(CheckpointBeginRecordDecodeError::UnsupportedKind { kind: RecordKind::Delete })
    );
    assert_eq!(
        decode_checkpoint_begin_record(record(begin, 1, 0, &checkpoint_bytes), FORMAT),
        Err(CheckpointBeginRecordDecodeError::InvalidNamespace { namespace: 1 })
    );
    assert_eq!(
        decode_checkpoint_begin_record(
            record(begin, FORMAT.control_namespace, MUTATION_FLAG_RAW, &checkpoint_bytes),
            FORMAT
        ),
        Err(CheckpointBeginRecordDecodeError::UnknownFlags { flags: MUTATION_FLAG_RAW })
    );
    assert_eq!(
        decode_checkpoint_begin_record(
            record(begin, FORMAT.control_namespace, 0, &[0]),
            FORMAT
        ),
        Err(CheckpointBeginRecordDecodeError::InvalidLength { len: 1 })
    );
    assert_eq!(
        decode_checkpoint_begin_record(
            record(begin, FORMAT.control_namespace, 0, &u32::MAX.to_le_bytes()),
            FORMAT
        ),
        Err(CheckpointBeginRecordDecodeError::InvalidCheckpointId { raw: u32::MAX })
    );
}

#[test]
fn reserve_matches_actual_staged_length() {
    let effects = [
        MutationEffect::StringPostImage {
            key: b"k",
            value: b"value",
            expire_at_ms: Some(42),
            raw: true,
        },
        MutationEffect::StringPostImage {
            key: b"rawless",
            value: b"v",
            expire_at_ms: None,
            raw: false,
        },
        MutationEffect::Delete { key: b"dead" },
        MutationEffect::ExpireAt { key: b"ttl", expire_at_ms: Some(9) },
        MutationEffect::ExpireAt { key: b"persist", expire_at_ms: None },
    ];

    for effect in effects {
        let needed = record_len(effect);
        let mut staging = LogStaging::with_capacity(needed);
        let capacity = staging.capacity_bytes();

        reserve_mutation_effect_capacity(&staging, effect, framed(effect)).unwrap();
        stage(&mut staging, 3, effect);

        assert_eq!(staging.capacity_bytes(), capacity);
        assert_eq!(staging.len_bytes(), needed);
        assert_eq!(staging.record_count(), 1);
    }
}

#[test]
fn reserve_rejects_before_mutation_when_full() {
    let staging = LogStaging::with_capacity(1);
    let effect = MutationEffect::Delete { key: b"too-large" };
    let needed = record_len(effect);
    let result = reserve_mutation_effect_capacity(&staging, effect, framed(effect));

    assert_eq!(
        result,
        Err(MutationStageError::Log(LogStagingError::Full { needed, available: 1 }))
    );
    assert_eq!(staging.len_bytes(), 0);
    assert_eq!(staging.record_count(), 0);
}

#[test]
fn reserved_sink_stages_after_store_applies() {
    let effect = MutationEffect::StringPostImage {
        key: b"k",
        value: b"value",
        expire_at_ms: None,
        raw: false,
    };
    let needed = record_len(effect);
    let mut cell = DurabilityCell::with_capacity(needed);
    let reservation = cell.reserve_mutation_effect(effect, framed(effect)).unwrap();
    assert_eq!(reservation.record_len(), needed);

    let mut sink = cell.reserved_mutation_sink(2, reservation).unwrap();
    sink.push(effect, framed(effect));
    assert!(sink.staged());
    assert!(sink.finish());
    assert_eq!(cell.log_staging_bytes(), needed as u64);
}

#[test]
fn reserved_sink_allows_store_skip_without_staging() {
    let effect = MutationEffect::StringPostImage {
        key: b"k",
        value: b"ignored",
        expire_at_ms: None,
        raw: false,
    };
    let needed = record_len(effect);
    let mut cell = DurabilityCell::with_capacity(needed);
    let reservation = cell.reserve_mutation_effect(effect, framed(effect)).unwrap();
    let sink = cell.reserved_mutation_sink(2, reservation).unwrap();
    assert!(!sink.finish());
    assert_eq!(cell.log_staging_bytes(), 0);
}

#[test]
fn reservation_rejects_before_store_mutation_when_full() {
    let effect = MutationEffect::StringPostImage {
        key: b"k",
        value: b"value",
        expire_at_ms: None,
        raw: false,
    };
    let needed = record_len(effect);
    let cell = DurabilityCell::with_capacity(needed - 1);

    assert!(matches!(
        cell.reserve_mutation_effect(effect, framed(effect)),
        Err(MutationStageError::Log(LogStagingError::Full { .. }))
    ));
    assert_eq!(cell.log_staging_bytes(), 0);
}

#[test]
fn stale_reservation_is_rejected_before_sink_creation() {
    let effect = MutationEffect::Delete { key: b"k" };
    let needed = record_len(effect);
    let mut cell = DurabilityCell::with_capacity(needed * 2);
    let reservation = cell.reserve_mutation_effect(effect, framed(effect)).unwrap();

    cell.stage_mutation_effect(2, effect, framed(effect)).unwrap();
    assert_eq!(
        cell.reserved_mutation_sink(2, reservation).unwrap_err(),
        MutationStageError::ReservationStale {
            expected_bytes: 0,
            actual_bytes: needed as u64,
            expected_record_count: 0,
            actual_record_count: 1,
        }
    );
}

#[test]
fn reserved_batch_sink_stages_multiple_effects_after_whole_command_reservation() {
    let first = MutationEffect::Delete { key: b"a" };
    let second = MutationEffect::ExpireAt { key: b"b", expire_at_ms: Some(9) };
    let needed = record_len(first) + record_len(second);
    let mut cell = DurabilityCell::with_capacity(needed);
    let reservation = cell.reserve_mutation_effect_batch(2, needed).unwrap();

    assert_eq!(reservation.record_count(), 2);
    assert_eq!(reservation.record_len_bytes(), needed);

    let mut sink = cell.reserved_mutation_batch_sink(2, reservation).unwrap();
    sink.push(first, framed(first));
    sink.push(second, framed(second));
    let outcome = sink.finish();

    assert_eq!(outcome, MutationBatchOutcome { record_count: 2, len_bytes: needed });
    assert_eq!(cell.log_staging_bytes(), needed as u64);
}

#[test]
fn batch_reservation_rejects_before_any_staging_when_full() {
    let first = MutationEffect::Delete { key: b"a" };
    let second = MutationEffect::Delete { key: b"b" };
    let needed = record_len(first) + record_len(second);
    let cell = DurabilityCell::with_capacity(needed - 1);

    assert!(matches!(
        cell.reserve_mutation_effect_batch(2, needed),
        Err(MutationStageError::Log(LogStagingError::Full { .. }))
    ));
    assert_eq!(cell.log_staging_bytes(), 0);
}

#[test]
fn stale_batch_reservation_is_rejected_before_sink_creation() {
    let effect = MutationEffect::Delete { key: b"k" };
    let needed = record_len(effect);
    let mut cell = DurabilityCell::with_capacity(needed * 2);
    let reservation = cell.reserve_mutation_effect_batch(1, needed).unwrap();

    cell.stage_mutation_effect(2, effect, framed(effect)).unwrap();
    assert_eq!(
        cell.reserved_mutation_batch_sink(2, reservation).unwrap_err(),
        MutationStageError::ReservationStale {
            expected_bytes: 0,
            actual_bytes: needed as u64,
            expected_record_count: 0,
            actual_record_count: 1,
        }
    );
}

#[test]
fn staging_full_returns_backpressure_error() {
    let mut staging = LogStaging::with_capacity(1);
    let effect = MutationEffect::Delete { key: b"too-large" };
    let result = stage_mutation_effect(&mut staging, 1, effect, framed(effect));

    assert!(matches!(result, Err(MutationStageError::Log(LogStagingError::Full { .. }))));
}

#[test]
fn a_record_the_log_cannot_frame_is_refused() {
    let mut staging = LogStaging::with_capacity(64);
    let effect = MutationEffect::Delete { key: b"k" };
    let result =
        stage_mutation_effect(&mut staging, 1, effect, Err(LogCodecError::RecordTooLarge));
    assert_eq!(
        result,
        Err(MutationStageError::Log(LogStagingError::Codec(LogCodecError::RecordTooLarge)))
    );
    assert!(staging.is_empty());
}

#[test]
fn varints_round_trip() {
    for n in [0u64, 1, 127, 128, 300, u64::from(u32::MAX), u64::MAX] {
        let mut out = Vec::new();
        encode_u64(n, &mut out);
        assert_eq!(decode_u64(&out), Some((n, out.len())));
    }
    assert_eq!(decode_u64(&[0x80]), None);
}
