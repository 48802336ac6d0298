use inf_server::checkpoint::io::{
    judge_reap, temp_name, CheckpointRef, Completion, CompletionResult, CompletionToken,
    FileOpenMode, FileSyncMode, IoOp, ReapError, ReapStep, Reaped, TokenClass,
};
use inf_server::checkpoint::load::{
    into_payloads, validate_load_inputs, CheckpointImageLoadConfig, CheckpointImageLoadError,
    CheckpointSectionKind, CheckpointSectionMeta, Decoded, ImageLayout, ImageLoader, ImagePart,
    LoadState, LoadStep, LoadedCheckpointHeader, LoadedCheckpointImage,
    LoadedCheckpointImagePayloads, LoadedParts,
};
use inf_server::checkpoint::publish::{
    validate_publish_inputs, validate_publish_sections, CheckpointFooter,
    CheckpointImagePublishConfig, CheckpointImagePublishError, ImagePiece, ImagePublisher,
    PublishStep, PublishedCheckpointImage,
};
use inf_server::checkpoint::snapshot::{
    compose_image, encode_checkpoint_keyspace_snapshot_image_from_parts,
    encode_checkpoint_keyspace_snapshot_parts, encode_checkpoint_keyspace_snapshot_sections,
    encode_checkpoint_records_section_payload, image_pieces, published_snapshot,
    CheckpointKeyspacePublishConfig, CheckpointKeyspacePublishError,
    CheckpointKeyspaceSnapshotConfig, CheckpointKeyspaceSnapshotError,
    CheckpointRecordsSectionConfig, CheckpointRecordsSectionError, CheckpointStoreRecord,
    CheckpointWalk, EncodedSnapshotImage, KeyspaceSource, NamedStore, SectionFrame,
    SnapshotLimits, StoreWalk,
};
use inf_server::durability::{
    decode_mutation_record, LogStagingError, MutationEffect, MutationStageError, RecordKind,
    RecordRef, StagedRecord,
};
use inf_server::lsn::Lsn;

const DIR_FD: i32 = 40;
const TEMP_FD: i32 = 77;
const CHECKPOINT_FD: i32 = 78;
const TOKEN_SLOT: u32 = 17;
const TOKEN_GEN: u32 = 3;
const TEST_EIO: i32 = 5;
const LIMITS: SnapshotLimits =
    SnapshotLimits { max_section_payload_len: 1 << 20, max_header_namespaces: 64 };
const LAYOUT: ImageLayout = ImageLayout {
    header_fixed_len: 24,
    section_header_len: 28,
    section_trailer_len: 4,
    footer_len: 12,
};

fn checkpoint() -> CheckpointRef {
    CheckpointRef { id: 9, begin: Lsn { segment: 3, offset: 128 } }
}

fn token() -> CompletionToken {
    CompletionToken { class: TokenClass::File, slot: TOKEN_SLOT, generation: TOKEN_GEN }
}

fn publish_config() -> CheckpointImagePublishConfig {
    CheckpointImagePublishConfig::new(DIR_FD, TOKEN_SLOT).with_generation(TOKEN_GEN)
}

fn load_config() -> CheckpointImageLoadConfig {
    CheckpointImageLoadConfig::new(DIR_FD, TOKEN_SLOT).with_generation(TOKEN_GEN)
}

// An image format small enough to be read off the bytes.

fn u32_at(bytes: &[u8], at: usize) -> u32 {
    u32::from_le_bytes([bytes[at], bytes[at + 1], bytes[at + 2], bytes[at + 3]])
}

fn sum(bytes: &[u8]) -> u32 {
    bytes.iter().fold(0u32, |acc, b| acc.wrapping_mul(31).wrapping_add(u32::from(*b)))
}

fn header_bytes(cell: u16, section_count: u32, namespaces: &[u32]) -> Vec<u8> {
    let mut out = Vec::new();
    out.extend_from_slice(&u32::from(cell).to_le_bytes());
    out.extend_from_slice(&checkpoint().id.to_le_bytes());
    out.extend_from_slice(&checkpoint().begin.segment.to_le_bytes());
    out.extend_from_slice(&checkpoint().begin.offset.to_le_bytes());
    out.extend_from_slice(&section_count.to_le_bytes());
    out.extend_from_slice(&(namespaces.len() as u32).to_le_bytes());
    for namespace in namespaces {
        out.extend_from_slice(&namespace.to_le_bytes());
    }
    out
}

fn frame(ordinal: u32, kind: CheckpointSectionKind, payload: &[u8]) -> SectionFrame {
    let mut header = vec![0u8; LAYOUT.section_header_len];
    header[0..4].copy_from_slice(&ordinal.to_le_bytes());
    header[4] = match kind {
        CheckpointSectionKind::NamespaceCatalog => 0,
        CheckpointSectionKind::Records => 1,
    };
    header[8..12].copy_from_slice(&(payload.len() as u32).to_le_bytes());
    SectionFrame { header, payload: payload.to_vec(), trailer: sum(payload).to_le_bytes().to_vec() }
}

fn meta_of(frame: &SectionFrame) -> CheckpointSectionMeta {
    CheckpointSectionMeta {
        ordinal: u32_at(&frame.header, 0),
        kind: if frame.header[4] == 0 {
            CheckpointSectionKind::NamespaceCatalog
        } else {
            CheckpointSectionKind::Records
        },
        payload_len: frame.payload.len() as u32,
        checksum: sum(&frame.payload),
    }
}

fn footer_of(frames: &[SectionFrame]) -> CheckpointFooter {
    let digest = frames.iter().map(|f| u64::from(sum(&f.payload))).sum();
    CheckpointFooter { section_count: frames.len() as u32, digest }
}

fn footer_bytes(footer: CheckpointFooter) -> Vec<u8> {
    let mut out = footer.section_count.to_le_bytes().to_vec();
    out.extend_from_slice(&footer.digest.to_le_bytes());
    out
}

fn decode(part: ImagePart, held: &[u8], sections: &[CheckpointSectionMeta]) -> Decoded {
    match part {
        ImagePart::HeaderPrefix => {
            Decoded::HeaderLen(Ok(LAYOUT.header_fixed_len + 4 * u32_at(held, 20) as usize))
        }
        ImagePart::Header => Decoded::Header(Ok(LoadedCheckpointHeader {
            cell: u32_at(held, 0) as u16,
            checkpoint: CheckpointRef {
                id: u32_at(held, 4),
                begin: Lsn { segment: u32_at(held, 8), offset: u32_at(held, 12) },
            },
            section_count: u32_at(held, 16),
            namespaces: (0..u32_at(held, 20) as usize).map(|i| u32_at(held, 24 + 4 * i)).collect(),
        })),
        ImagePart::SectionHeader => {
            Decoded::SectionHeader(Ok((u32_at(held, 0), u32_at(held, 8))))
        }
        ImagePart::SectionBody => {
            let payload = held[28..held.len() - 4].to_vec();
            if sum(&payload) != u32_at(held, held.len() - 4) {
                return Decoded::Section(Err("section checksum mismatch".to_string()));
            }
            let kind = if held[4] == 0 {
                CheckpointSectionKind::NamespaceCatalog
            } else {
                CheckpointSectionKind::Records
            };
            let meta = CheckpointSectionMeta {
                ordinal: u32_at(held, 0),
                kind,
                payload_len: payload.len() as u32,
                checksum: sum(&payload),
            };
            Decoded::Section(Ok((meta, payload)))
        }
        ImagePart::Footer => {
            let digest: u64 = sections.iter().map(|m| u64::from(m.checksum)).sum();
            let footer = CheckpointFooter { section_count: u32_at(held, 0), digest };
            if footer_bytes(footer) != held {
                return Decoded::Footer(Err("footer mismatch".to_string()));
            }
            Decoded::Footer(Ok(footer))
        }
    }
}

fn namespaces() -> [u32; 2] {
    [1, 9]
}

fn sections(catalog: &[u8], records: &[u8]) -> Vec<SectionFrame> {
    vec![
        frame(0, CheckpointSectionKind::NamespaceCatalog, catalog),
        frame(1, CheckpointSectionKind::Records, records),
    ]
}

fn expected_image(frames: &[SectionFrame]) -> (Vec<u8>, CheckpointFooter) {
    let footer = footer_of(frames);
    let header = header_bytes(4, frames.len() as u32, &namespaces());
    (compose_image(&header, frames, &footer_bytes(footer)), footer)
}

/// A device that answers every operation at once.
#[derive(Default)]
struct TestDriver {
    observed: Vec<IoOp>,
    written: Vec<u8>,
    file_bytes: Vec<u8>,
    window: Vec<u8>,
    leased: Vec<u32>,
    silent: u32,
    open_errno: Option<i32>,
    write_errno: Option<i32>,
    close_errno: Option<i32>,
}

impl TestDriver {
    fn lease(&mut self) -> u32 {
        let buf = 100 + self.observed.len() as u32;
        self.leased.push(buf);
        buf
    }

    fn release(&mut self, buf: Option<u32>) {
        if let Some(buf) = buf {
            let at = self.leased.iter().position(|b| *b == buf).expect("leased");
            self.leased.remove(at);
        }
    }

    fn run(&mut self, op: IoOp, buf_size: usize) -> Reaped {
        if self.silent > 0 {
            self.silent -= 1;
            return Reaped::Count(0);
        }
        let (token, result) = match &op {
            IoOp::FileOpen { mode, token, .. } => (
                *token,
                match (self.open_errno, mode) {
                    (Some(errno), _) => CompletionResult::Error { errno, buf: None },
                    (None, FileOpenMode::ReadOnly) => {
                        CompletionResult::FileOpened { fd: CHECKPOINT_FD }
                    }
                    (None, _) => CompletionResult::FileOpened { fd: TEMP_FD },
                },
            ),
            IoOp::FileWriteAt { offset_bytes, buf, data, token, .. } => (
                *token,
                match self.write_errno {
                    Some(errno) => CompletionResult::Error { errno, buf: Some(*buf) },
                    None => {
                        assert!(data.len() <= buf_size);
                        let start = *offset_bytes as usize;
                        assert_eq!(start, self.written.len());
                        self.written.extend_from_slice(data);
                        CompletionResult::FileWritten { buf: *buf }
                    }
                },
            ),
            IoOp::FileReadAt { offset_bytes, buf, len, token, .. } => {
                let start = (*offset_bytes as usize).min(self.file_bytes.len());
                let available = &self.file_bytes[start..];
                let read = available.len().min(*len as usize);
                self.window = vec![0; buf_size];
                self.window[..read].copy_from_slice(&available[..read]);
                (*token, CompletionResult::FileRead { buf: *buf, len: read as u32 })
            }
            IoOp::FileClose { token, .. } => (
                *token,
                match self.close_errno {
                    Some(errno) => CompletionResult::Error { errno, buf: None },
                    None => CompletionResult::FileClosed,
                },
            ),
            IoOp::FileSync { token, .. }
            | IoOp::FileUnlink { token, .. }
            | IoOp::FileRename { token, .. } => (*token, CompletionResult::FileDone),
        };
        self.observed.push(op);
        Reaped::One(Completion { token, result })
    }

    fn closed(&self, fd: i32) -> bool {
        self.observed.contains(&IoOp::FileClose { fd, token: token() })
    }
}

fn publish(
    driver: &mut TestDriver,
    buf_size: usize,
    config: CheckpointImagePublishConfig,
    pieces: Vec<ImagePiece>,
    footer: CheckpointFooter,
) -> Result<PublishedCheckpointImage, CheckpointImagePublishError> {
    validate_publish_inputs(0, config.max_reaps)?;
    let mut publisher =
        ImagePublisher::new(config, checkpoint(), "ckpt-000009.ick".to_string(), pieces, footer);
    loop {
        let buf = if publisher.wants_buffer() { Some(driver.lease()) } else { None };
        let op = publisher.issue(buf_size, buf);
        let (mut step, release) = publisher.reaped(driver.run(op, buf_size));
        driver.release(release);
        while let PublishStep::Again = step {
            let (next, _) = publisher.reaped(Reaped::Count(0));
            step = next;
        }
        if let PublishStep::Finished(result) = step {
            return result;
        }
    }
}

fn publish_frames(
    driver: &mut TestDriver,
    buf_size: usize,
    frames: &[SectionFrame],
) -> Result<PublishedCheckpointImage, CheckpointImagePublishError> {
    let ordinals: Vec<u32> = frames.iter().map(|f| u32_at(&f.header, 0)).collect();
    validate_publish_sections(frames.len() as u32, &ordinals, 64)?;
    let footer = footer_of(frames);
    let header = header_bytes(4, frames.len() as u32, &namespaces());
    let pieces = image_pieces(&header, frames, &footer_bytes(footer));
    publish(driver, buf_size, publish_config(), pieces, footer)
}

fn load_parts(
    driver: &mut TestDriver,
    buf_size: usize,
    payloads_wanted: bool,
) -> Result<LoadedParts, CheckpointImageLoadError> {
    let config = load_config();
    validate_load_inputs(0, config.max_reaps)?;
    let mut loader = ImageLoader::new(
        config,
        checkpoint(),
        "ckpt-000009.ick".to_string(),
        LAYOUT,
        payloads_wanted,
    );
    loop {
        let buf = if loader.wants_buffer() { Some(driver.lease()) } else { None };
        let op = loader.issue(buf_size, buf);
        let reaped = driver.run(op, buf_size);
        let window = driver.window.clone();
        let (mut step, release) = loader.reaped(reaped, &window);
        driver.release(release.returned);
        driver.release(release.own);
        loop {
            match step {
                LoadStep::Again => step = loader.reaped(Reaped::Count(0), &window).0,
                LoadStep::Next => break,
                LoadStep::Decode => {
                    let answer = match &loader.state {
                        LoadState::Decoding { part, held } => {
                            decode(*part, held, &loader.sections)
                        }
                        other => panic!("nothing to decode in {other:?}"),
                    };
                    step = loader.decoded(answer);
                }
                LoadStep::Finished(result) => return result,
            }
        }
    }
}

fn load(
    driver: &mut TestDriver,
    buf_size: usize,
) -> Result<LoadedCheckpointImage, CheckpointImageLoadError> {
    load_parts(driver, buf_size, false).map(|parts| parts.image)
}

fn load_payloads(
    driver: &mut TestDriver,
    buf_size: usize,
) -> Result<LoadedCheckpointImagePayloads, CheckpointImageLoadError> {
    load_parts(driver, buf_size, true).map(into_payloads)
}

fn record<'a>(
    key: &'a [u8],
    value: &'a [u8],
    expire_at_ms: Option<u64>,
) -> CheckpointStoreRecord<'a> {
    let framed = Ok(key.len() + value.len() + 24);
    CheckpointStoreRecord { key, value, expire_at_ms, raw: false, framed }
}

fn walked<'a>(namespace: u32, records: Vec<CheckpointStoreRecord<'a>>) -> StoreWalk<'a> {
    let walk = CheckpointWalk { done: true, next_cursor: 0, records_emitted: records.len() };
    StoreWalk { namespace, empty: records.is_empty(), records, walk: Ok(walk) }
}

fn as_record(record: &StagedRecord) -> RecordRef<'_> {
    RecordRef {
        kind: record.kind,
        namespace: record.namespace,
        flags: record.flags,
        payload: &record.payload,
    }
}

fn keyspace() -> KeyspaceSource<'static> {
    KeyspaceSource {
        dbs: vec![
            walked(0, vec![record(b"d0", b"zero", None)]),
            walked(2, vec![record(b"d2", b"two", None)]),
        ],
        catalog_ids: vec![16],
        catalog: Ok(b"catalog:ledger".to_vec()),
        named: vec![NamedStore {
            store: walked(16, vec![record(b"ln", b"named", None)]),
            durable: true,
        }],
    }
}

/// A record that an earlier snapshot left in the buffer.
fn stale() -> StagedRecord {
    let mut left = vec![];
    encode_checkpoint_records_section_payload(
        &walked(7, vec![record(b"old", b"old", None)]),
        CheckpointRecordsSectionConfig::new(7, LIMITS),
        LIMITS,
        &mut left,
    )
    .unwrap();
    left.pop().expect("one record")
}

#[test]
fn records_section_payload_encodes_live_store_records_as_mutation_records() {
    let store =
        walked(42, vec![record(b"a", b"one", None), record(b"ttl", b"two", Some(5))]);
    let config = CheckpointRecordsSectionConfig::new(42, LIMITS);
    let mut payload = vec![stale()];

    let encoded =
        encode_checkpoint_records_section_payload(&store, config, LIMITS, &mut payload).unwrap();

    assert!(encoded.walk().done);
    assert_eq!(encoded.walk().records_emitted, 2);
    assert_eq!(encoded.payload_len(), payload.iter().map(|r| r.encoded_len).sum::<usize>());

    let mut effects = Vec::new();
    for staged in &payload {
        assert_eq!(staged.kind, RecordKind::StringPostImage);
        assert_eq!(staged.namespace, 42);
        match decode_mutation_record(as_record(staged)).unwrap() {
            MutationEffect::StringPostImage { key, value, expire_at_ms, raw } => {
                effects.push((key.to_vec(), value.to_vec(), expire_at_ms, raw))
            }
            other => panic!("unexpected checkpoint record effect: {other:?}"),
        }
    }
    assert_eq!(effects.len(), 2);
    effects.sort_by(|lhs, rhs| lhs.0.cmp(&rhs.0));
    assert_eq!(
        effects,
        [
            (b"a".to_vec(), b"one".to_vec(), None, false),
            (b"ttl".to_vec(), b"two".to_vec(), Some(5), false)
        ]
    );
}

#[test]
fn records_section_payload_fails_closed_when_budget_fills() {
    let store = walked(42, vec![record(b"a", b"one", None)]);
    let config = CheckpointRecordsSectionConfig::new(42, LIMITS).with_max_payload_bytes(1);
    let mut payload = vec![stale(), stale(), stale()];

    let error = encode_checkpoint_records_section_payload(&store, config, LIMITS, &mut payload)
        .unwrap_err();

    assert!(matches!(
        error,
        CheckpointRecordsSectionError::Stage(MutationStageError::Log(LogStagingError::Full { .. }))
    ));
    assert!(payload.is_empty());
}

#[test]
fn records_section_payload_rejects_invalid_budget_before_walk() {
    let store = StoreWalk {
        namespace: 42,
        empty: false,
        records: vec![],
        walk: Err("not walked".to_string()),
    };
    let zero = CheckpointRecordsSectionConfig::new(42, LIMITS).with_max_payload_bytes(0);
    let mut payload = vec![stale(), stale(), stale()];
    assert!(matches!(
        encode_checkpoint_records_section_payload(&store, zero, LIMITS, &mut payload),
        Err(CheckpointRecordsSectionError::ZeroPayloadBudget)
    ));
    assert!(payload.is_empty());

    let large = LIMITS.max_section_payload_len + 1;
    let over = CheckpointRecordsSectionConfig::new(42, LIMITS).with_max_payload_bytes(large);
    assert!(matches!(
        encode_checkpoint_records_section_payload(&store, over, LIMITS, &mut payload),
        Err(CheckpointRecordsSectionError::PayloadBudgetTooLarge { max_payload_bytes, max_allowed })
            if max_payload_bytes == large && max_allowed == LIMITS.max_section_payload_len
    ));
    assert!(matches!(
        encode_checkpoint_records_section_payload(
            &store,
            CheckpointRecordsSectionConfig::new(42, LIMITS),
            LIMITS,
            &mut payload
        ),
        Err(CheckpointRecordsSectionError::Walk(cause)) if cause == "not walked"
    ));
}

#[test]
fn keyspace_snapshot_sections_encode_catalog_records_and_header_namespaces() {
    let ledger = 16u32;
    let cache = 17u32;
    let mut source = keyspace();
    source.catalog_ids.push(cache);
    source.catalog = Ok(b"catalog:ledger,cache".to_vec());
    source.named.push(NamedStore {
        store: walked(cache, vec![record(b"volatile", b"skip", None)]),
        durable: false,
    });
    let mut namespaces = vec![99];
    let mut catalog = vec![1];
    let mut records = vec![stale()];

    let encoded = encode_checkpoint_keyspace_snapshot_sections(
        &source,
        CheckpointKeyspaceSnapshotConfig::new(LIMITS),
        LIMITS,
        &mut namespaces,
        &mut catalog,
        &mut records,
    )
    .unwrap();

    assert_eq!(namespaces, [0, 2, ledger, cache]);
    assert_eq!(encoded.namespace_count(), 4);
    assert_eq!(encoded.default_stores_walked(), 2);
    assert_eq!(encoded.named_stores_walked(), 1);
    assert_eq!(encoded.records_emitted(), 3);
    assert_eq!(encoded.catalog_payload_len(), catalog.len());
    assert_eq!(
        encoded.records_payload_len(),
        records.iter().map(|r: &StagedRecord| r.encoded_len).sum::<usize>()
    );
    assert_eq!(catalog, b"catalog:ledger,cache");

    let mut decoded = Vec::new();
    for staged in &records {
        match decode_mutation_record(as_record(staged)).unwrap() {
            MutationEffect::StringPostImage { key, value, .. } => {
                decoded.push((staged.namespace, key.to_vec(), value.to_vec()))
            }
            other => panic!("unexpected checkpoint snapshot effect: {other:?}"),
        }
    }
    assert_eq!(decoded.len(), 3);
    decoded.sort_by(|lhs, rhs| lhs.1.cmp(&rhs.1));
    assert_eq!(
        decoded,
        [
            (0, b"d0".to_vec(), b"zero".to_vec()),
            (2, b"d2".to_vec(), b"two".to_vec()),
            (ledger, b"ln".to_vec(), b"named".to_vec())
        ]
    );
}

#[test]
fn keyspace_snapshot_sections_fail_closed_on_records_budget() {
    let source = KeyspaceSource {
        dbs: vec![walked(0, vec![record(b"d0", b"zero", None)])],
        catalog_ids: vec![],
        catalog: Ok(vec![]),
        named: vec![],
    };
    let mut namespaces = vec![99];
    let mut catalog = vec![1];
    let mut records = vec![stale()];

    let error = encode_checkpoint_keyspace_snapshot_sections(
        &source,
        CheckpointKeyspaceSnapshotConfig::new(LIMITS).with_max_records_payload_bytes(1),
        LIMITS,
        &mut namespaces,
        &mut catalog,
        &mut records,
    )
    .unwrap_err();

    assert!(matches!(
        error,
        CheckpointKeyspaceSnapshotError::Records {
            namespace: 0,
            source: CheckpointRecordsSectionError::Stage(MutationStageError::Log(
                LogStagingError::Full { .. }
            ))
        }
    ));
    assert!(namespaces.is_empty());
    assert!(catalog.is_empty());
    assert!(records.is_empty());
}

#[test]
fn an_unfinished_walk_and_too_many_namespaces_are_refused() {
    let mut source = keyspace();
    source.dbs[1].walk = Ok(CheckpointWalk { done: false, next_cursor: 7, records_emitted: 1 });
    let mut namespaces = vec![];
    let mut catalog = vec![];
    let mut records = vec![];
    let config = CheckpointKeyspaceSnapshotConfig::new(LIMITS);
    assert!(matches!(
        encode_checkpoint_keyspace_snapshot_sections(
            &source,
            config,
            LIMITS,
            &mut namespaces,
            &mut catalog,
            &mut records,
        ),
        Err(CheckpointKeyspaceSnapshotError::IncompleteStoreWalk { namespace: 2, next_cursor: 7 })
    ));
    let narrow = SnapshotLimits { max_header_namespaces: 2, ..LIMITS };
    assert!(matches!(
        encode_checkpoint_keyspace_snapshot_sections(
            &keyspace(),
            config,
            narrow,
            &mut namespaces,
            &mut catalog,
            &mut records,
        ),
        Err(CheckpointKeyspaceSnapshotError::NamespaceSetTooLarge { count: 3, max_count: 2 })
    ));
    let broken = KeyspaceSource { catalog: Err("no room".to_string()), ..keyspace() };
    assert!(matches!(
        encode_checkpoint_keyspace_snapshot_parts(&broken, config, LIMITS),
        Err(error) if error.message("").contains("no room")
    ));
}

/// Encodes the staged records the way the log frames them.
fn records_payload(records: &[StagedRecord]) -> Vec<u8> {
    let mut out = Vec::new();
    for staged in records {
        let mut bytes = staged.namespace.to_le_bytes().to_vec();
        bytes.extend_from_slice(&(staged.payload.len() as u32).to_le_bytes());
        bytes.extend_from_slice(&staged.payload);
        bytes.resize(staged.encoded_len, 0);
        out.extend_from_slice(&bytes);
    }
    out
}

#[test]
fn publish_keyspace_snapshot_image_writes_composed_checkpoint() {
    let ledger = 16u32;
    let config = CheckpointKeyspacePublishConfig::new(
        CheckpointKeyspaceSnapshotConfig::new(LIMITS),
        publish_config(),
    );
    let mut driver = TestDriver::default();

    let parts =
        encode_checkpoint_keyspace_snapshot_parts(&keyspace(), config.snapshot, LIMITS).unwrap();
    let payload = records_payload(&parts.records);
    assert_eq!(payload.len(), parts.snapshot().records_payload_len());
    let frames = sections(&parts.catalog, &payload);
    let footer = footer_of(&frames);
    let header = header_bytes(4, 2, &parts.namespaces);
    let pieces = image_pieces(&header, &frames, &footer_bytes(footer));
    let image = publish(&mut driver, 13, config.image, pieces, footer);
    let published = published_snapshot(parts.snapshot(), image).unwrap();

    assert_eq!(published.image().checkpoint(), checkpoint());
    assert_eq!(published.image().bytes_written(), driver.written.len() as u64);
    assert_eq!(published.snapshot().records_emitted(), 3);
    assert!(driver.leased.is_empty());

    let mut reader = TestDriver { file_bytes: driver.written.clone(), ..TestDriver::default() };
    let loaded = load_payloads(&mut reader, 64).unwrap();
    assert_eq!(loaded.image().cell(), 4);
    assert_eq!(loaded.image().checkpoint(), checkpoint());
    assert_eq!(loaded.image().namespaces(), [0, 2, ledger]);
    assert_eq!(loaded.image().sections().len(), 2);
    assert_eq!(loaded.image().sections()[0].kind, CheckpointSectionKind::NamespaceCatalog);
    assert_eq!(loaded.image().sections()[1].kind, CheckpointSectionKind::Records);
    assert_eq!(loaded.namespace_catalog(), b"catalog:ledger");
    assert_eq!(loaded.records(), payload.as_slice());
    assert_eq!(loaded.image().footer(), published.image().footer());
    assert_eq!(loaded.image().bytes_read(), driver.written.len() as u64);
}

#[test]
fn a_snapshot_image_is_composed_or_names_its_first_fault() {
    let encoded = || {
        let mut frames = sections(b"catalog", b"records");
        let footer = footer_bytes(footer_of(&frames));
        let records = frames.pop().expect("records");
        let catalog = frames.pop().expect("catalog");
        EncodedSnapshotImage {
            header_fits: Ok(()),
            catalog_fits: Ok(()),
            records_fit: Ok(()),
            header: Ok(header_bytes(4, 2, &namespaces())),
            catalog: Ok(catalog),
            records: Ok(records),
            footer,
        }
    };
    let image = encode_checkpoint_keyspace_snapshot_image_from_parts(encoded()).unwrap();
    assert_eq!(image, expected_image(&sections(b"catalog", b"records")).0);

    let late = EncodedSnapshotImage {
        records_fit: Err("records too large".to_string()),
        header: Err("header too large".to_string()),
        ..encoded()
    };
    assert!(matches!(
        encode_checkpoint_keyspace_snapshot_image_from_parts(late),
        Err(CheckpointKeyspacePublishError::Section(cause)) if cause == "records too large"
    ));
    let early = EncodedSnapshotImage {
        header_fits: Err("too many namespaces".to_string()),
        ..encoded()
    };
    assert!(matches!(
        encode_checkpoint_keyspace_snapshot_image_from_parts(early),
        Err(CheckpointKeyspacePublishError::Header(cause)) if cause == "too many namespaces"
    ));
    let snapshot = encode_checkpoint_keyspace_snapshot_parts(
        &keyspace(),
        CheckpointKeyspaceSnapshotConfig::new(LIMITS),
        LIMITS,
    )
    .unwrap()
    .snapshot();
    assert!(matches!(
        published_snapshot(snapshot, Err(CheckpointImagePublishError::ZeroReapLimit)),
        Err(CheckpointKeyspacePublishError::Publish(CheckpointImagePublishError::ZeroReapLimit))
    ));
}

#[test]
fn publish_writes_syncs_closes_renames_and_dirsyncs_checkpoint_image() {
    let mut driver = TestDriver::default();
    let frames = sections(b"catalog", b"records-0123456789");
    let (expected, expected_footer) = expected_image(&frames);

    let published = publish_frames(&mut driver, 8, &frames).unwrap();

    assert_eq!(published.checkpoint(), checkpoint());
    assert_eq!(published.footer(), expected_footer);
    assert_eq!(published.bytes_written(), expected.len() as u64);
    assert_eq!(driver.written, expected);
    assert!(driver.leased.is_empty());
    assert_eq!(
        driver.observed.first(),
        Some(&IoOp::FileOpen {
            dir: DIR_FD,
            name: "ckpt-000009.ick.tmp".to_string(),
            mode: FileOpenMode::ReadWriteCreateTruncate,
            token: token(),
        })
    );
    assert!(driver.observed.contains(&IoOp::FileSync {
        fd: TEMP_FD,
        mode: FileSyncMode::DataOnly,
        token: token(),
    }));
    assert!(driver.closed(TEMP_FD));
    assert!(driver.observed.contains(&IoOp::FileRename {
        old_dir: DIR_FD,
        old_name: "ckpt-000009.ick.tmp".to_string(),
        new_dir: DIR_FD,
        new_name: "ckpt-000009.ick".to_string(),
        token: token(),
    }));
    assert_eq!(
        driver.observed.last(),
        Some(&IoOp::FileSync { fd: DIR_FD, mode: FileSyncMode::Full, token: token() })
    );
}

#[test]
fn load_checkpoint_image_returns_validated_summary_and_closes_file() {
    let frames = sections(b"catalog", b"records-0123456789");
    let metas: Vec<CheckpointSectionMeta> = frames.iter().map(meta_of).collect();
    let (image, footer) = expected_image(&frames);
    let mut driver = TestDriver { file_bytes: image.clone(), ..TestDriver::default() };

    let loaded = load(&mut driver, 9).unwrap();

    assert_eq!(loaded.cell(), 4);
    assert_eq!(loaded.checkpoint(), checkpoint());
    assert_eq!(loaded.namespaces(), namespaces().as_slice());
    assert_eq!(loaded.sections(), metas.as_slice());
    assert_eq!(loaded.footer(), footer);
    assert_eq!(loaded.bytes_read(), image.len() as u64);
    assert!(driver.leased.is_empty());
    assert!(driver.closed(CHECKPOINT_FD));
}

#[test]
fn load_checkpoint_image_payloads_returns_validated_payloads_and_closes_file() {
    let frames = sections(b"catalog", b"records-0123456789");
    let metas: Vec<CheckpointSectionMeta> = frames.iter().map(meta_of).collect();
    let (image, footer) = expected_image(&frames);
    let mut driver = TestDriver { file_bytes: image.clone(), ..TestDriver::default() };

    let loaded = load_payloads(&mut driver, 9).unwrap();

    assert_eq!(loaded.image().cell(), 4);
    assert_eq!(loaded.image().checkpoint(), checkpoint());
    assert_eq!(loaded.image().namespaces(), namespaces().as_slice());
    assert_eq!(loaded.image().sections(), metas.as_slice());
    assert_eq!(loaded.image().footer(), footer);
    assert_eq!(loaded.image().bytes_read(), image.len() as u64);
    assert_eq!(loaded.namespace_catalog(), b"catalog");
    assert_eq!(loaded.records(), b"records-0123456789");
    assert!(driver.leased.is_empty());
    assert!(driver.closed(CHECKPOINT_FD));
}

#[test]
fn load_checkpoint_image_payloads_rejects_unexpected_section_count_after_validation() {
    let frames = vec![frame(0, CheckpointSectionKind::NamespaceCatalog, b"catalog")];
    let (image, _) = expected_image(&frames);
    let mut driver = TestDriver { file_bytes: image, ..TestDriver::default() };

    let error = load_payloads(&mut driver, 64).unwrap_err();

    assert!(matches!(
        error,
        CheckpointImageLoadError::SectionCountMismatchForPayloads { expected: 2, got: 1 }
    ));
    assert!(driver.leased.is_empty());
    assert!(driver.closed(CHECKPOINT_FD));
}

#[test]
fn load_checkpoint_image_payloads_rejects_unexpected_section_kind_after_validation() {
    let frames = vec![
        frame(0, CheckpointSectionKind::Records, b"catalog"),
        frame(1, CheckpointSectionKind::Records, b"records"),
    ];
    let (image, _) = expected_image(&frames);
    let mut driver = TestDriver { file_bytes: image, ..TestDriver::default() };

    let error = load_payloads(&mut driver, 64).unwrap_err();

    assert!(matches!(
        error,
        CheckpointImageLoadError::SectionKindMismatch {
            ordinal: 0,
            expected: CheckpointSectionKind::NamespaceCatalog,
            got: CheckpointSectionKind::Records
        }
    ));
    assert!(driver.leased.is_empty());
    assert!(driver.closed(CHECKPOINT_FD));
}

#[test]
fn load_checkpoint_image_fails_closed_on_trailing_bytes_after_close() {
    let frames = sections(b"catalog", b"records");
    let (mut image, _) = expected_image(&frames);
    image.push(0xff);
    let mut driver = TestDriver { file_bytes: image, ..TestDriver::default() };

    let error = load(&mut driver, 64).unwrap_err();

    assert!(matches!(error, CheckpointImageLoadError::TrailingBytes { .. }));
    assert!(driver.leased.is_empty());
    assert!(driver.closed(CHECKPOINT_FD));
}

#[test]
fn a_damaged_or_foreign_image_is_refused_after_close() {
    let frames = sections(b"catalog", b"records");
    let (image, _) = expected_image(&frames);

    let mut damaged = image.clone();
    damaged[24 + 8 + 28] ^= 1;
    let mut driver = TestDriver { file_bytes: damaged, ..TestDriver::default() };
    let error = load(&mut driver, 64).unwrap_err();
    assert_eq!(
        error.message(),
        "decode checkpoint image failed: section checksum mismatch"
    );
    assert!(driver.closed(CHECKPOINT_FD));

    let mut short = image.clone();
    short.truncate(image.len() - 1);
    let mut driver = TestDriver { file_bytes: short, ..TestDriver::default() };
    assert!(matches!(
        load(&mut driver, 64).unwrap_err(),
        CheckpointImageLoadError::UnexpectedEof { part: ImagePart::Footer, needed: 12, got: 11 }
    ));

    let mut foreign = image.clone();
    foreign[4] = 8;
    let mut driver = TestDriver { file_bytes: foreign, ..TestDriver::default() };
    assert!(matches!(
        load(&mut driver, 64).unwrap_err(),
        CheckpointImageLoadError::CheckpointMismatch { expected, got }
            if expected == checkpoint() && got.id == 8
    ));

    let mut driver = TestDriver { open_errno: Some(2), ..TestDriver::default() };
    assert!(matches!(
        load(&mut driver, 64).unwrap_err(),
        CheckpointImageLoadError::Missing { name } if name == "ckpt-000009.ick"
    ));
}

#[test]
fn publish_closes_and_unlinks_temp_on_write_error_before_rename() {
    let frames = sections(b"catalog", b"records");
    let mut driver = TestDriver { write_errno: Some(TEST_EIO), ..TestDriver::default() };

    let error = publish_frames(&mut driver, 64, &frames).unwrap_err();

    assert!(matches!(error, CheckpointImagePublishError::WriteTemp { .. }));
    assert!(driver.leased.is_empty());
    assert!(driver.closed(TEMP_FD));
    assert!(driver.observed.contains(&IoOp::FileUnlink {
        dir: DIR_FD,
        name: "ckpt-000009.ick.tmp".to_string(),
        token: token(),
    }));
    assert!(!driver.observed.iter().any(|op| matches!(op, IoOp::FileRename { .. })));
}

#[test]
fn a_close_error_unlinks_and_a_silent_device_gives_up() {
    let frames = sections(b"catalog", b"records");
    let mut driver = TestDriver { close_errno: Some(TEST_EIO), ..TestDriver::default() };
    assert!(matches!(
        publish_frames(&mut driver, 64, &frames),
        Err(CheckpointImagePublishError::CloseTemp { fd: TEMP_FD, errno: TEST_EIO })
    ));
    assert!(matches!(driver.observed.last(), Some(IoOp::FileUnlink { .. })));

    let mut driver = TestDriver { silent: 1, ..TestDriver::default() };
    assert!(matches!(
        publish_frames(&mut driver, 64, &frames),
        Err(CheckpointImagePublishError::ReapLimitExceeded { attempts: 32, .. })
    ));
    assert!(driver.observed.is_empty());
}

#[test]
fn publish_inputs_are_judged_before_any_operation() {
    assert!(matches!(
        validate_publish_inputs(2, 32),
        Err(CheckpointImagePublishError::ScratchNotEmpty { len: 2 })
    ));
    assert!(matches!(
        validate_publish_inputs(0, 0),
        Err(CheckpointImagePublishError::ZeroReapLimit)
    ));
    assert!(validate_publish_inputs(0, publish_config().with_max_reaps(1).max_reaps).is_ok());
    assert_eq!(load_config().with_max_reaps(3).max_reaps, 3);
    assert!(matches!(
        validate_publish_sections(2, &[0], 64),
        Err(CheckpointImagePublishError::SectionCountMismatch { header: 2, sections: 1 })
    ));
    assert!(matches!(
        validate_publish_sections(2, &[0, 2], 64),
        Err(CheckpointImagePublishError::SectionOrdinalMismatch { expected: 1, got: 2 })
    ));
    assert!(validate_publish_sections(2, &[0, 1], 64).is_ok());
}

#[test]
fn a_reap_answers_only_its_own_operation() {
    let other = CompletionToken { generation: TOKEN_GEN + 1, ..token() };
    let stray =
        Completion { token: other, result: CompletionResult::FileWritten { buf: 6 } };
    assert!(matches!(
        judge_reap(Reaped::One(stray), token(), 1, 32),
        ReapStep::Fail {
            error: ReapError::UnexpectedToken { expected, got },
            release: Some(6)
        } if expected == token() && got == other
    ));
    assert!(matches!(judge_reap(Reaped::Count(0), token(), 31, 32), ReapStep::Again));
    assert!(matches!(
        judge_reap(Reaped::Count(0), token(), 32, 32),
        ReapStep::Fail { error: ReapError::ReapLimitExceeded { attempts: 32, .. }, release: None }
    ));
    assert!(matches!(
        judge_reap(Reaped::Count(2), token(), 1, 32),
        ReapStep::Fail {
            error: ReapError::UnexpectedCompletionCount { expected: 1, got: 2 },
            release: None
        }
    ));
    assert_eq!(temp_name("MANIFEST"), "MANIFEST.tmp");
}
