//! Keyspace snapshots: the namespaces, the catalog payload and the records
//! payload of a checkpoint image, gathered from store walks within a byte
//! budget. On any error every output is empty, so nothing partial can be
//! published.

use vstd::prelude::*;
use crate::checkpoint::publish;
use crate::checkpoint::publish::{
    CheckpointImagePublishConfig, CheckpointImagePublishError, ImagePiece,
    PublishedCheckpointImage,
};
use crate::durability;
use crate::durability::{
    LogCodecError, LogStaging, MutationEffect, MutationStageError, StagedRecord,
};
use crate::text;

verus! {

/// A live record of a store, and the encoded length of its log record.
#[derive(Copy, Clone, Debug)]
pub struct CheckpointStoreRecord<'a> {
    pub key: &'a [u8],
    pub value: &'a [u8],
    pub expire_at_ms: Option<u64>,
    pub raw: bool,
    pub framed: Result<usize, LogCodecError>,
}

impl<'a> CheckpointStoreRecord<'a> {
    /// The mutation that restores the record.
    pub open spec fn effect(&self) -> durability::Effect {
        durability::Effect::StringPostImage {
            key: self.key@,
            value: self.value@,
            expire_at_ms: self.expire_at_ms,
            raw: self.raw,
        }
    }
}

/// The mutation that restores a record.
pub fn checkpoint_store_record_effect<'a>(record: &CheckpointStoreRecord<'a>) -> (r: MutationEffect<
    'a,
>)
    ensures
        r@ == record.effect(),
        r matches MutationEffect::StringPostImage { key, value, expire_at_ms, raw } && key@
            == record.key@ && value@ == record.value@ && expire_at_ms == record.expire_at_ms && raw
            == record.raw,
{
    MutationEffect::StringPostImage {
        key: record.key,
        value: record.value,
        expire_at_ms: record.expire_at_ms,
        raw: record.raw,
    }
}

/// How far a store walk went.
#[derive(Copy, Clone, Debug, PartialEq, Eq, Structural)]
pub struct CheckpointWalk {
    pub done: bool,
    pub next_cursor: u64,
    pub records_emitted: usize,
}

/// A walk of one store: the records it handed out, and how it ended.
#[derive(Debug)]
pub struct StoreWalk<'a> {
    pub namespace: u32,
    /// The store holds nothing.
    pub empty: bool,
    pub records: Vec<CheckpointStoreRecord<'a>>,
    pub walk: Result<CheckpointWalk, String>,
}

/// A namespace's records and the room they may take.
#[derive(Copy, Clone, Debug, PartialEq, Eq, Structural)]
pub struct CheckpointRecordsSectionConfig {
    pub namespace: u32,
    pub max_payload_bytes: usize,
}

/// The image format's limits.
#[derive(Copy, Clone, Debug, PartialEq, Eq, Structural)]
pub struct SnapshotLimits {
    pub max_section_payload_len: usize,
    pub max_header_namespaces: usize,
}

impl CheckpointRecordsSectionConfig {
    /// As much room as a section has.
    pub fn new(namespace: u32, limits: SnapshotLimits) -> (r: CheckpointRecordsSectionConfig)
        ensures
            r.namespace == namespace,
            r.max_payload_bytes == limits.max_section_payload_len,
    {
        CheckpointRecordsSectionConfig {
            namespace,
            max_payload_bytes: limits.max_section_payload_len,
        }
    }

    /// The same with another budget.
    pub fn with_max_payload_bytes(self, max_payload_bytes: usize) -> (r:
        CheckpointRecordsSectionConfig)
        ensures
            r == (CheckpointRecordsSectionConfig { max_payload_bytes, ..self }),
    {
        CheckpointRecordsSectionConfig { namespace: self.namespace, max_payload_bytes }
    }
}

/// An encoded records section.
#[derive(Copy, Clone, Debug, PartialEq, Eq, Structural)]
pub struct EncodedCheckpointRecordsSection {
    pub walk: CheckpointWalk,
    pub payload_len: usize,
}

impl EncodedCheckpointRecordsSection {
    /// How far the walk went.
    pub fn walk(self) -> (r: CheckpointWalk)
        ensures
            r == self.walk,
    {
        self.walk
    }

    /// The payload's length.
    pub fn payload_len(self) -> (r: usize)
        ensures
            r == self.payload_len,
    {
        self.payload_len
    }
}

/// The room a snapshot's records may take.
#[derive(Copy, Clone, Debug, PartialEq, Eq, Structural)]
pub struct CheckpointKeyspaceSnapshotConfig {
    pub max_records_payload_bytes: usize,
}

impl CheckpointKeyspaceSnapshotConfig {
    /// As much room as a section has.
    pub fn new(limits: SnapshotLimits) -> (r: CheckpointKeyspaceSnapshotConfig)
        ensures
            r.max_records_payload_bytes == limits.max_section_payload_len,
    {
        CheckpointKeyspaceSnapshotConfig {
            max_records_payload_bytes: limits.max_section_payload_len,
        }
    }

    /// The same with another budget.
    pub fn with_max_records_payload_bytes(self, max_records_payload_bytes: usize) -> (r:
        CheckpointKeyspaceSnapshotConfig)
        ensures
            r.max_records_payload_bytes == max_records_payload_bytes,
    {
        CheckpointKeyspaceSnapshotConfig { max_records_payload_bytes }
    }
}

/// What a snapshot gathered.
#[derive(Copy, Clone, Debug, PartialEq, Eq, Structural)]
pub struct EncodedCheckpointKeyspaceSnapshot {
    pub namespace_count: usize,
    pub default_stores_walked: usize,
    pub named_stores_walked: usize,
    pub records_emitted: usize,
    pub catalog_payload_len: usize,
    pub records_payload_len: usize,
}

impl EncodedCheckpointKeyspaceSnapshot {
    /// Namespaces in the header.
    pub fn namespace_count(self) -> (r: usize)
        ensures
            r == self.namespace_count,
    {
        self.namespace_count
    }

    /// Numbered databases walked.
    pub fn default_stores_walked(self) -> (r: usize)
        ensures
            r == self.default_stores_walked,
    {
        self.default_stores_walked
    }

    /// Named databases walked.
    pub fn named_stores_walked(self) -> (r: usize)
        ensures
            r == self.named_stores_walked,
    {
        self.named_stores_walked
    }

    /// Records emitted.
    pub fn records_emitted(self) -> (r: usize)
        ensures
            r == self.records_emitted,
    {
        self.records_emitted
    }

    /// Bytes of the catalog payload.
    pub fn catalog_payload_len(self) -> (r: usize)
        ensures
            r == self.catalog_payload_len,
    {
        self.catalog_payload_len
    }

    /// Bytes of the records payload.
    pub fn records_payload_len(self) -> (r: usize)
        ensures
            r == self.records_payload_len,
    {
        self.records_payload_len
    }
}

/// A published snapshot: the image and what it gathered.
#[derive(Copy, Clone, Debug, PartialEq, Eq, Structural)]
pub struct PublishedCheckpointKeyspaceSnapshot {
    pub image: PublishedCheckpointImage,
    pub snapshot: EncodedCheckpointKeyspaceSnapshot,
}

impl PublishedCheckpointKeyspaceSnapshot {
    /// The published image.
    pub fn image(self) -> (r: PublishedCheckpointImage)
        ensures
            r == self.image,
    {
        self.image
    }

    /// What the snapshot gathered.
    pub fn snapshot(self) -> (r: EncodedCheckpointKeyspaceSnapshot)
        ensures
            r == self.snapshot,
    {
        self.snapshot
    }
}

/// Why a records section was not encoded.
#[derive(Debug)]
pub enum CheckpointRecordsSectionError {
    ZeroPayloadBudget,
    PayloadBudgetTooLarge { max_payload_bytes: usize, max_allowed: usize },
    Walk(String),
    Stage(MutationStageError),
}

/// Why a snapshot was not encoded.
#[derive(Debug)]
pub enum CheckpointKeyspaceSnapshotError {
    NamespaceSetTooLarge { count: usize, max_count: usize },
    Catalog(String),
    Records { namespace: u32, source: CheckpointRecordsSectionError },
    IncompleteStoreWalk { namespace: u32, next_cursor: u64 },
}

/// How a keyspace snapshot is taken and published.
#[derive(Copy, Clone, Debug)]
pub struct CheckpointKeyspacePublishConfig {
    pub snapshot: CheckpointKeyspaceSnapshotConfig,
    pub image: CheckpointImagePublishConfig,
}

impl CheckpointKeyspacePublishConfig {
    /// Both halves together.
    pub fn new(
        snapshot: CheckpointKeyspaceSnapshotConfig,
        image: CheckpointImagePublishConfig,
    ) -> (r: CheckpointKeyspacePublishConfig)
        ensures
            r == (CheckpointKeyspacePublishConfig { snapshot, image }),
    {
        CheckpointKeyspacePublishConfig { snapshot, image }
    }
}

/// Why a snapshot was not published.
#[derive(Debug)]
pub enum CheckpointKeyspacePublishError {
    Snapshot(CheckpointKeyspaceSnapshotError),
    Header(String),
    Section(String),
    Publish(CheckpointImagePublishError),
}

impl CheckpointRecordsSectionError {
    /// The text of the error; `log` is the text of a log error.
    pub open spec fn message_text(&self, log: Seq<char>) -> Seq<char> {
        match *self {
            CheckpointRecordsSectionError::ZeroPayloadBudget => "checkpoint records section payload budget must be nonzero"@,
            CheckpointRecordsSectionError::PayloadBudgetTooLarge { max_payload_bytes, max_allowed } => "checkpoint records section payload budget "@ + text::dec_chars(max_payload_bytes as nat) + " exceeds max "@ + text::dec_chars(max_allowed as nat),
            CheckpointRecordsSectionError::Walk(error) => error@,
            CheckpointRecordsSectionError::Stage(error) => "checkpoint records section staging failed: "@ + error.message_text(log),
        }
    }

    /// The text of the error; `log` is the text of a log error.
    pub fn message(&self, log: &str) -> (r: String)
        ensures
            r@ == self.message_text(log@),
    {
        match self {
            CheckpointRecordsSectionError::ZeroPayloadBudget => text::owned("checkpoint records section payload budget must be nonzero"),
            CheckpointRecordsSectionError::PayloadBudgetTooLarge { max_payload_bytes, max_allowed } => {
                let mut out = text::owned("checkpoint records section payload budget ");
                text::append_dec(&mut out, *max_payload_bytes as u64);
                out.append(" exceeds max ");
                text::append_dec(&mut out, *max_allowed as u64);
                out
            },
            CheckpointRecordsSectionError::Walk(error) => text::owned(error.as_str()),
            CheckpointRecordsSectionError::Stage(error) => {
                let mut out = text::owned("checkpoint records section staging failed: ");
                out.append(error.message(log).as_str());
                out
            },
        }
    }
}

impl CheckpointKeyspaceSnapshotError {
    /// The text of the error; `log` is the text of a log error.
    pub open spec fn message_text(&self, log: Seq<char>) -> Seq<char> {
        match *self {
            CheckpointKeyspaceSnapshotError::NamespaceSetTooLarge { count, max_count } => "checkpoint keyspace snapshot has "@ + text::dec_chars(count as nat) + " namespaces, above max "@ + text::dec_chars(max_count as nat),
            CheckpointKeyspaceSnapshotError::Catalog(error) => "checkpoint namespace catalog encode failed: "@ + error@,
            CheckpointKeyspaceSnapshotError::Records { namespace, source } => "checkpoint records snapshot for namespace "@ + text::dec_chars(namespace as nat) + " failed: "@ + source.message_text(log),
            CheckpointKeyspaceSnapshotError::IncompleteStoreWalk { namespace, next_cursor } => "checkpoint records snapshot for namespace "@ + text::dec_chars(namespace as nat) + " stopped at cursor "@ + text::dec_chars(next_cursor as nat),
        }
    }

    /// The text of the error; `log` is the text of a log error.
    pub fn message(&self, log: &str) -> (r: String)
        ensures
            r@ == self.message_text(log@),
    {
        match self {
            CheckpointKeyspaceSnapshotError::NamespaceSetTooLarge { count, max_count } => {
                let mut out = text::owned("checkpoint keyspace snapshot has ");
                text::append_dec(&mut out, *count as u64);
                out.append(" namespaces, above max ");
                text::append_dec(&mut out, *max_count as u64);
                out
            },
            CheckpointKeyspaceSnapshotError::Catalog(error) => {
                let mut out = text::owned("checkpoint namespace catalog encode failed: ");
                out.append(error.as_str());
                out
            },
            CheckpointKeyspaceSnapshotError::Records { namespace, source } => {
                let mut out = text::owned("checkpoint records snapshot for namespace ");
                text::append_dec(&mut out, *namespace as u64);
                out.append(" failed: ");
                out.append(source.message(log).as_str());
                out
            },
            CheckpointKeyspaceSnapshotError::IncompleteStoreWalk { namespace, next_cursor } => {
                let mut out = text::owned("checkpoint records snapshot for namespace ");
                text::append_dec(&mut out, *namespace as u64);
                out.append(" stopped at cursor ");
                text::append_dec(&mut out, *next_cursor as u64);
                out
            },
        }
    }
}

impl CheckpointKeyspacePublishError {
    /// The text of the error; `log` is the text of a log error.
    pub open spec fn message_text(&self, log: Seq<char>) -> Seq<char> {
        match *self {
            CheckpointKeyspacePublishError::Snapshot(error) => "checkpoint keyspace snapshot failed: "@ + error.message_text(log),
            CheckpointKeyspacePublishError::Header(error) => "checkpoint keyspace header encode failed: "@ + error@,
            CheckpointKeyspacePublishError::Section(error) => "checkpoint keyspace section encode failed: "@ + error@,
            CheckpointKeyspacePublishError::Publish(error) => "checkpoint keyspace image publish failed: "@ + error.message_text(),
        }
    }

    /// The text of the error; `log` is the text of a log error.
    pub fn message(&self, log: &str) -> (r: String)
        ensures
            r@ == self.message_text(log@),
    {
        match self {
            CheckpointKeyspacePublishError::Snapshot(error) => {
                let mut out = text::owned("checkpoint keyspace snapshot failed: ");
                out.append(error.message(log).as_str());
                out
            },
            CheckpointKeyspacePublishError::Header(error) => {
                let mut out = text::owned("checkpoint keyspace header encode failed: ");
                out.append(error.as_str());
                out
            },
            CheckpointKeyspacePublishError::Section(error) => {
                let mut out = text::owned("checkpoint keyspace section encode failed: ");
                out.append(error.as_str());
                out
            },
            CheckpointKeyspacePublishError::Publish(error) => {
                let mut out = text::owned("checkpoint keyspace image publish failed: ");
                out.append(error.message().as_str());
                out
            },
        }
    }
}

/// The records staged from the first `n` walked ones, within a capacity; the
/// first refusal stands.
pub open spec fn staged_walk<'a>(
    records: Seq<CheckpointStoreRecord<'a>>,
    n: int,
    namespace: u32,
    capacity: nat,
) -> Result<Seq<durability::Staged>, MutationStageError>
    decreases n,
{
    if n <= 0 {
        Ok(Seq::empty())
    } else {
        match staged_walk(records, n - 1, namespace, capacity) {
            Err(error) => Err(error),
            Ok(staged) => {
                let record = records[n - 1];
                match durability::effect_verdict(
                    staged,
                    capacity,
                    record.effect(),
                    record.framed,
                ) {
                    Err(error) => Err(error),
                    Ok(()) => Ok(
                        staged.push(
                            durability::staged_record(namespace, record.effect(), record.framed),
                        ),
                    ),
                }
            },
        }
    }
}

/// The records section of a store walk: its staged records and how far the
/// walk went.
pub open spec fn encoded_section<'a>(
    store: StoreWalk<'a>,
    config: CheckpointRecordsSectionConfig,
    limits: SnapshotLimits,
) -> Result<(Seq<durability::Staged>, CheckpointWalk), CheckpointRecordsSectionError> {
    if config.max_payload_bytes == 0 {
        Err(CheckpointRecordsSectionError::ZeroPayloadBudget)
    } else if config.max_payload_bytes > limits.max_section_payload_len {
        Err(
            CheckpointRecordsSectionError::PayloadBudgetTooLarge {
                max_payload_bytes: config.max_payload_bytes,
                max_allowed: limits.max_section_payload_len,
            },
        )
    } else {
        match store.walk {
            Err(error) => Err(CheckpointRecordsSectionError::Walk(error)),
            Ok(walk) => match staged_walk(
                store.records@,
                store.records@.len() as int,
                config.namespace,
                config.max_payload_bytes as nat,
            ) {
                Err(error) => Err(CheckpointRecordsSectionError::Stage(error)),
                Ok(staged) => Ok((staged, walk)),
            },
        }
    }
}

proof fn lemma_refusal_stands<'a>(
    records: Seq<CheckpointStoreRecord<'a>>,
    i: int,
    n: int,
    namespace: u32,
    capacity: nat,
)
    requires
        0 <= i <= n,
        staged_walk(records, i, namespace, capacity) is Err,
    ensures
        staged_walk(records, n, namespace, capacity) == staged_walk(
            records,
            i,
            namespace,
            capacity,
        ),
    decreases n - i,
{
    if i < n {
        lemma_refusal_stands(records, i, n - 1, namespace, capacity);
    }
}

/// Encodes the records section of a store walk into `out`. `out` is emptied
/// first and left empty on an error.
pub fn encode_checkpoint_records_section_payload(
    store: &StoreWalk<'_>,
    config: CheckpointRecordsSectionConfig,
    limits: SnapshotLimits,
    out: &mut Vec<StagedRecord>,
) -> (r: Result<EncodedCheckpointRecordsSection, CheckpointRecordsSectionError>)
    ensures
        match encoded_section(*store, config, limits) {
            Ok((staged, walk)) => durability::staged_views(final(out)@) == staged && r == Ok::<
                _,
                CheckpointRecordsSectionError,
            >(
                EncodedCheckpointRecordsSection {
                    walk,
                    payload_len: durability::staged_len(staged) as usize,
                },
            ) && durability::staged_len(staged) <= config.max_payload_bytes,
            Err(error) => r == Err::<EncodedCheckpointRecordsSection, _>(error)
                && final(out)@.len() == 0,
        },
{
    out.clear();
    if config.max_payload_bytes == 0 {
        return Err(CheckpointRecordsSectionError::ZeroPayloadBudget);
    }
    if config.max_payload_bytes > limits.max_section_payload_len {
        return Err(
            CheckpointRecordsSectionError::PayloadBudgetTooLarge {
                max_payload_bytes: config.max_payload_bytes,
                max_allowed: limits.max_section_payload_len,
            },
        );
    }
    let mut staging = LogStaging::with_capacity(config.max_payload_bytes);
    let mut refusal: Option<MutationStageError> = None;
    let mut i: usize = 0;
    while i < store.records.len() && refusal.is_none()
        invariant
            i <= store.records@.len(),
            staging.wf(),
            staging.capacity() == config.max_payload_bytes,
            staged_walk(
                store.records@,
                i as int,
                config.namespace,
                config.max_payload_bytes as nat,
            ) == (match refusal {
                Some(error) => Err::<Seq<durability::Staged>, MutationStageError>(error),
                None => Ok(staging@),
            }),
        decreases store.records.len() - i,
    {
        let record = &store.records[i];
        let effect = checkpoint_store_record_effect(record);
        if let Err(error) = durability::stage_mutation_effect(
            &mut staging,
            config.namespace,
            effect,
            record.framed,
        ) {
            refusal = Some(error);
        }
        i += 1;
    }
    proof {
        if refusal is Some {
            lemma_refusal_stands(
                store.records@,
                i as int,
                store.records@.len() as int,
                config.namespace,
                config.max_payload_bytes as nat,
            );
        }
    }
    match &store.walk {
        Err(error) => Err(CheckpointRecordsSectionError::Walk(error.clone())),
        Ok(walk) => match refusal {
            Some(error) => Err(CheckpointRecordsSectionError::Stage(error)),
            None => {
                let payload_len: usize = staging.len_bytes();
                *out = staging.drain();
                Ok(EncodedCheckpointRecordsSection { walk: *walk, payload_len })
            },
        },
    }
}

/// What a keyspace offers to a snapshot: its numbered databases, the ids of its
/// catalog, the encoded catalog, and its named databases with their durability.
#[derive(Debug)]
pub struct KeyspaceSource<'a> {
    pub dbs: Vec<StoreWalk<'a>>,
    pub catalog_ids: Vec<u32>,
    pub catalog: Result<Vec<u8>, String>,
    pub named: Vec<NamedStore<'a>>,
}

/// A named database.
#[derive(Debug)]
pub struct NamedStore<'a> {
    pub store: StoreWalk<'a>,
    pub durable: bool,
}

/// The ids of walked stores.
pub open spec fn store_ids<'a>(stores: Seq<StoreWalk<'a>>) -> Seq<u32> {
    stores.map_values(|s: StoreWalk<'a>| s.namespace)
}

/// Ids in strictly ascending order.
pub open spec fn ascending(ids: Seq<u32>) -> bool {
    forall|i: int, j: int| 0 <= i < j < ids.len() ==> #[trigger] ids[i] < #[trigger] ids[j]
}

/// `ids` is the set of `listed`, in ascending order.
pub open spec fn sorted_set(ids: Seq<u32>, listed: Seq<u32>) -> bool {
    ascending(ids) && ids.to_set() == listed.to_set()
}

proof fn lemma_sorted_set_unique(a: Seq<u32>, b: Seq<u32>, listed: Seq<u32>)
    requires
        sorted_set(a, listed),
        sorted_set(b, listed),
    ensures
        a == b,
    decreases a.len(),
{
    assert forall|x: u32| a.contains(x) <==> b.contains(x) by {
        assert(a.to_set().contains(x) <==> b.to_set().contains(x));
        vstd::seq_lib::seq_to_set_is_finite(a);
        assert(a.contains(x) <==> a.to_set().contains(x));
        assert(b.contains(x) <==> b.to_set().contains(x));
    }
    lemma_same_members_same_seq(a, b);
}

proof fn lemma_same_members_same_seq(a: Seq<u32>, b: Seq<u32>)
    requires
        ascending(a),
        ascending(b),
        forall|x: u32| a.contains(x) <==> b.contains(x),
    ensures
        a == b,
    decreases a.len(),
{
    if a.len() == 0 {
        if b.len() > 0 {
            assert(b.contains(b[0]));
        }
        assert(a =~= b);
    } else {
        assert(a.contains(a.last()));
        assert(b.contains(a.last()));
        assert(b.len() > 0);
        assert(b.contains(b.last()));
        assert(a.contains(b.last()));
        let i = choose|i: int| 0 <= i < a.len() && a[i] == b.last();
        let j = choose|j: int| 0 <= j < b.len() && b[j] == a.last();
        assert(a.last() == b.last());
        let a1 = a.drop_last();
        let b1 = b.drop_last();
        assert forall|x: u32| a1.contains(x) <==> b1.contains(x) by {
            if a1.contains(x) {
                let k = choose|k: int| 0 <= k < a1.len() && a1[k] == x;
                assert(a[k] == x);
                assert(a.contains(x));
                let m = choose|m: int| 0 <= m < b.len() && b[m] == x;
                assert(b[m] < b.last() ==> m < b.len() - 1);
                assert(a[k] < a[a.len() - 1]);
                assert(b1[m] == x);
            }
            if b1.contains(x) {
                let k = choose|k: int| 0 <= k < b1.len() && b1[k] == x;
                assert(b[k] == x);
                assert(b.contains(x));
                let m = choose|m: int| 0 <= m < a.len() && a[m] == x;
                assert(b[k] < b[b.len() - 1]);
                assert(a1[m] == x);
            }
        }
        lemma_same_members_same_seq(a1, b1);
        assert(a =~= a1.push(a.last()));
        assert(b =~= b1.push(b.last()));
    }
}

fn insert_id(ids: &mut Vec<u32>, id: u32)
    requires
        ascending(old(ids)@),
    ensures
        ascending(final(ids)@),
        forall|x: u32| #[trigger]
            final(ids)@.contains(x) <==> old(ids)@.contains(x) || x == id,
{
    let mut at: usize = 0;
    while at < ids.len() && ids[at] < id
        invariant
            at <= ids@.len(),
            ids@ == old(ids)@,
            forall|k: int| 0 <= k < at ==> #[trigger] ids@[k] < id,
        decreases ids.len() - at,
    {
        at += 1;
    }
    if at < ids.len() && ids[at] == id {
        return ;
    }
    ids.insert(at, id);
    proof {
        let before = old(ids)@;
        let now = ids@;
        assert(forall|k: int| 0 <= k < at ==> #[trigger] now[k] == before[k]);
        assert(now[at as int] == id);
        assert(forall|k: int| at < k < now.len() ==> #[trigger] now[k] == before[k - 1]);
        assert forall|x: u32| #[trigger] now.contains(x) <==> before.contains(x) || x == id by {
            if before.contains(x) {
                let k = choose|k: int| 0 <= k < before.len() && before[k] == x;
                if k < at {
                    assert(now[k] == x);
                } else {
                    assert(now[k + 1] == x);
                }
            }
        }
    }
}

/// The namespaces of a snapshot: every numbered database and every cataloged
/// namespace, once each, in ascending order. Too many empty the set.
pub fn collect_checkpoint_namespaces(
    source: &KeyspaceSource<'_>,
    limits: SnapshotLimits,
    namespaces: &mut Vec<u32>,
) -> (r: Result<(), CheckpointKeyspaceSnapshotError>)
    requires
        old(namespaces)@.len() == 0,
    ensures
        match r {
            Ok(()) => sorted_set(final(namespaces)@, store_ids(source.dbs@) + source.catalog_ids@)
                && final(namespaces)@.len() <= limits.max_header_namespaces,
            Err(error) => final(namespaces)@.len() == 0 && exists|ids: Seq<u32>|
                #![trigger ascending(ids)]
                sorted_set(ids, store_ids(source.dbs@) + source.catalog_ids@) && ids.len()
                    > limits.max_header_namespaces && error
                    == (CheckpointKeyspaceSnapshotError::NamespaceSetTooLarge {
                    count: ids.len() as usize,
                    max_count: limits.max_header_namespaces,
                }),
        },
{
    let ghost listed = store_ids(source.dbs@) + source.catalog_ids@;
    let mut i: usize = 0;
    while i < source.dbs.len()
        invariant
            i <= source.dbs@.len(),
            ascending(namespaces@),
            listed == store_ids(source.dbs@) + source.catalog_ids@,
            forall|x: u32| #[trigger]
                namespaces@.contains(x) <==> listed.take(i as int).contains(x),
        decreases source.dbs.len() - i,
    {
        insert_id(namespaces, source.dbs[i].namespace);
        proof {
            lemma_take_contains(listed, i as int);
            assert(listed[i as int] == source.dbs@[i as int].namespace);
        }
        i += 1;
    }
    let mut j: usize = 0;
    while j < source.catalog_ids.len()
        invariant
            j <= source.catalog_ids@.len(),
            i == source.dbs@.len(),
            ascending(namespaces@),
            listed == store_ids(source.dbs@) + source.catalog_ids@,
            forall|x: u32| #[trigger]
                namespaces@.contains(x) <==> listed.take(i + j).contains(x),
        decreases source.catalog_ids.len() - j,
    {
        insert_id(namespaces, source.catalog_ids[j]);
        proof {
            lemma_take_contains(listed, i + j);
            assert(listed[i + j] == source.catalog_ids@[j as int]);
            assert(i + (j + 1) == (i + j) + 1);
            assert(listed.take(i + (j + 1)) == listed.take((i + j) + 1));
        }
        j += 1;
    }
    proof {
        assert(listed.take(i + j) =~= listed);
        assert(namespaces@.to_set() =~= listed.to_set()) by {
            assert forall|x: u32| namespaces@.to_set().contains(x) <==> listed.to_set().contains(
                x,
            ) by {
                assert(namespaces@.contains(x) <==> listed.contains(x));
            }
        }
    }
    if namespaces.len() > limits.max_header_namespaces {
        let count: usize = namespaces.len();
        let ghost ids = namespaces@;
        namespaces.clear();
        assert(ascending(ids));
        return Err(
            CheckpointKeyspaceSnapshotError::NamespaceSetTooLarge {
                count,
                max_count: limits.max_header_namespaces,
            },
        );
    }
    Ok(())
}

proof fn lemma_take_contains(s: Seq<u32>, i: int)
    requires
        0 <= i < s.len(),
    ensures
        forall|x: u32| #[trigger]
            s.take(i + 1).contains(x) <==> s.take(i).contains(x) || x == s[i],
{
    let less = s.take(i);
    let more = s.take(i + 1);
    assert forall|x: u32| #[trigger] more.contains(x) <==> less.contains(x) || x == s[i] by {
        if less.contains(x) {
            let k = choose|k: int| 0 <= k < less.len() && less[k] == x;
            assert(more[k] == x);
        }
        if x == s[i] {
            assert(more[i] == x);
        }
        if more.contains(x) {
            let k = choose|k: int| 0 <= k < more.len() && more[k] == x;
            if k < i {
                assert(less[k] == x);
            }
        }
    }
}

/// The records of a snapshot so far, and how many the walks emitted.
pub struct Gathered {
    pub staged: Seq<durability::Staged>,
    pub emitted: nat,
}

/// What one store adds. An empty store adds nothing; a walk that stopped short
/// is an error.
pub open spec fn gathered_one<'a>(
    before: Gathered,
    store: StoreWalk<'a>,
    budget: usize,
    limits: SnapshotLimits,
) -> Result<Gathered, CheckpointKeyspaceSnapshotError> {
    let config = CheckpointRecordsSectionConfig {
        namespace: store.namespace,
        max_payload_bytes: (budget - durability::staged_len(before.staged)) as usize,
    };
    if store.empty {
        Ok(before)
    } else {
        match encoded_section(store, config, limits) {
            Err(source) => Err(
                CheckpointKeyspaceSnapshotError::Records { namespace: store.namespace, source },
            ),
            Ok((staged, walk)) => if !walk.done {
                Err(
                    CheckpointKeyspaceSnapshotError::IncompleteStoreWalk {
                        namespace: store.namespace,
                        next_cursor: walk.next_cursor,
                    },
                )
            } else {
                Ok(
                    Gathered {
                        staged: before.staged + staged,
                        emitted: before.emitted + walk.records_emitted as nat,
                    },
                )
            },
        }
    }
}

/// What the first `n` stores gather.
pub open spec fn gathered<'a>(
    stores: Seq<StoreWalk<'a>>,
    n: int,
    budget: usize,
    limits: SnapshotLimits,
) -> Result<Gathered, CheckpointKeyspaceSnapshotError>
    decreases n,
{
    if n <= 0 {
        Ok(Gathered { staged: Seq::empty(), emitted: 0 })
    } else {
        match gathered(stores, n - 1, budget, limits) {
            Err(error) => Err(error),
            Ok(before) => gathered_one(before, stores[n - 1], budget, limits),
        }
    }
}

/// The named stores a snapshot walks: the durable ones.
pub open spec fn durable_stores<'a>(named: Seq<NamedStore<'a>>) -> Seq<StoreWalk<'a>>
    decreases named.len(),
{
    if named.len() == 0 {
        Seq::empty()
    } else {
        let rest = durable_stores(named.drop_last());
        if named.last().durable {
            rest.push(named.last().store)
        } else {
            rest
        }
    }
}

/// Every store a snapshot walks: the numbered databases, then the durable named
/// ones.
pub open spec fn walked_stores<'a>(source: KeyspaceSource<'a>) -> Seq<StoreWalk<'a>> {
    source.dbs@ + durable_stores(source.named@)
}

/// The records all walks report.
pub open spec fn reported<'a>(stores: Seq<StoreWalk<'a>>) -> nat
    decreases stores.len(),
{
    if stores.len() == 0 {
        0
    } else {
        reported(stores.drop_last()) + (match stores.last().walk {
            Ok(walk) => walk.records_emitted as nat,
            Err(_) => 0,
        })
    }
}

proof fn lemma_staged_len_append(a: Seq<durability::Staged>, b: Seq<durability::Staged>)
    ensures
        durability::staged_len(a + b) == durability::staged_len(a) + durability::staged_len(b),
    decreases b.len(),
{
    if b.len() == 0 {
        assert(a + b =~= a);
    } else {
        lemma_staged_len_append(a, b.drop_last());
        assert((a + b).drop_last() =~= a + b.drop_last());
        assert((a + b).last() == b.last());
    }
}

/// Appends one store's records to a snapshot. On an error `records` is empty.
fn append_store_snapshot_records(
    store: &StoreWalk<'_>,
    budget: usize,
    limits: SnapshotLimits,
    records: &mut Vec<StagedRecord>,
    records_len: &mut usize,
    records_emitted: &mut usize,
) -> (r: Result<(), CheckpointKeyspaceSnapshotError>)
    requires
        *old(records_len) == durability::staged_len(durability::staged_views(old(records)@)),
        *old(records_len) <= budget,
        store.walk matches Ok(walk) ==> *old(records_emitted) + walk.records_emitted <= usize::MAX,
    ensures
        match gathered_one(
            (Gathered {
                staged: durability::staged_views(old(records)@),
                emitted: *old(records_emitted) as nat,
            }),
            *store,
            budget,
            limits,
        ) {
            Ok(after) => r is Ok && durability::staged_views(final(records)@) == after.staged
                && *final(records_emitted) == after.emitted && *final(records_len)
                == durability::staged_len(after.staged) && *final(records_len) <= budget,
            Err(error) => r == Err::<(), _>(error),
        },
{
    if store.empty {
        return Ok(());
    }
    let config = CheckpointRecordsSectionConfig {
        namespace: store.namespace,
        max_payload_bytes: budget - *records_len,
    };
    let mut scratch: Vec<StagedRecord> = Vec::new();
    match encode_checkpoint_records_section_payload(store, config, limits, &mut scratch) {
        Err(source) => Err(
            CheckpointKeyspaceSnapshotError::Records { namespace: store.namespace, source },
        ),
        Ok(encoded) => {
            let walk = encoded.walk();
            if !walk.done {
                return Err(
                    CheckpointKeyspaceSnapshotError::IncompleteStoreWalk {
                        namespace: store.namespace,
                        next_cursor: walk.next_cursor,
                    },
                );
            }
            proof {
                lemma_staged_len_append(
                    durability::staged_views(records@),
                    durability::staged_views(scratch@),
                );
                assert(durability::staged_views(records@ + scratch@) =~= durability::staged_views(
                    records@,
                ) + durability::staged_views(scratch@));
            }
            records.append(&mut scratch);
            *records_len += encoded.payload_len();
            *records_emitted += walk.records_emitted;
            Ok(())
        },
    }
}

/// Whether `r` and the outputs are what a snapshot of `source` makes.
pub open spec fn snapshot_outcome<'a>(
    source: KeyspaceSource<'a>,
    config: CheckpointKeyspaceSnapshotConfig,
    limits: SnapshotLimits,
    namespaces: Seq<u32>,
    catalog: Seq<u8>,
    records: Seq<durability::Staged>,
    r: Result<EncodedCheckpointKeyspaceSnapshot, CheckpointKeyspaceSnapshotError>,
) -> bool {
    let stores = walked_stores(source);
    let gathering = gathered(
        stores,
        stores.len() as int,
        config.max_records_payload_bytes,
        limits,
    );
    exists|ids: Seq<u32>|
        #![trigger ascending(ids)]
        sorted_set(ids, store_ids(source.dbs@) + source.catalog_ids@) && if ids.len()
            > limits.max_header_namespaces {
            r == Err::<EncodedCheckpointKeyspaceSnapshot, _>(
                CheckpointKeyspaceSnapshotError::NamespaceSetTooLarge {
                    count: ids.len() as usize,
                    max_count: limits.max_header_namespaces,
                },
            )
        } else {
            match source.catalog {
                Err(error) => r == Err::<EncodedCheckpointKeyspaceSnapshot, _>(
                    CheckpointKeyspaceSnapshotError::Catalog(error),
                ),
                Ok(bytes) => match gathering {
                    Err(error) => r == Err::<EncodedCheckpointKeyspaceSnapshot, _>(error),
                    Ok(all) => {
                        &&& namespaces == ids
                        &&& catalog == bytes@
                        &&& records == all.staged
                        &&& r == Ok::<_, CheckpointKeyspaceSnapshotError>(
                            EncodedCheckpointKeyspaceSnapshot {
                                namespace_count: ids.len() as usize,
                                default_stores_walked: source.dbs@.len() as usize,
                                named_stores_walked: durable_stores(source.named@).len() as usize,
                                records_emitted: all.emitted as usize,
                                catalog_payload_len: bytes@.len() as usize,
                                records_payload_len: durability::staged_len(all.staged) as usize,
                            },
                        )
                    },
                },
            }
        }
}

proof fn lemma_gathered_error_stands<'a>(
    stores: Seq<StoreWalk<'a>>,
    i: int,
    n: int,
    budget: usize,
    limits: SnapshotLimits,
)
    requires
        0 <= i <= n,
        gathered(stores, i, budget, limits) is Err,
    ensures
        gathered(stores, n, budget, limits) == gathered(stores, i, budget, limits),
    decreases n - i,
{
    if i < n {
        lemma_gathered_error_stands(stores, i, n - 1, budget, limits);
    }
}

proof fn lemma_gathered_bounded<'a>(
    stores: Seq<StoreWalk<'a>>,
    n: int,
    budget: usize,
    limits: SnapshotLimits,
)
    requires
        0 <= n <= stores.len(),
    ensures
        gathered(stores, n, budget, limits) matches Ok(g) ==> g.emitted <= reported(stores.take(n)),
    decreases n,
{
    if n > 0 {
        lemma_gathered_bounded(stores, n - 1, budget, limits);
        assert(stores.take(n).drop_last() =~= stores.take(n - 1));
        assert(stores.take(n).last() == stores[n - 1]);
    }
}

proof fn lemma_reported_prefix<'a>(stores: Seq<StoreWalk<'a>>, n: int)
    requires
        0 <= n <= stores.len(),
    ensures
        reported(stores.take(n)) <= reported(stores),
    decreases stores.len(),
{
    if n < stores.len() {
        lemma_reported_prefix(stores.drop_last(), n);
        assert(stores.drop_last().take(n) =~= stores.take(n));
    } else {
        assert(stores.take(n) =~= stores);
    }
}

/// Encodes the sections of a keyspace snapshot. The outputs are emptied first,
/// and left empty on an error.
pub fn encode_checkpoint_keyspace_snapshot_sections(
    source: &KeyspaceSource<'_>,
    config: CheckpointKeyspaceSnapshotConfig,
    limits: SnapshotLimits,
    namespaces: &mut Vec<u32>,
    catalog: &mut Vec<u8>,
    records: &mut Vec<StagedRecord>,
) -> (r: Result<EncodedCheckpointKeyspaceSnapshot, CheckpointKeyspaceSnapshotError>)
    requires
        reported(walked_stores(*source)) <= usize::MAX,
    ensures
        snapshot_outcome(
            *source,
            config,
            limits,
            final(namespaces)@,
            final(catalog)@,
            durability::staged_views(final(records)@),
            r,
        ),
        r is Err ==> final(namespaces)@.len() == 0 && final(catalog)@.len() == 0
            && final(records)@.len() == 0,
{
    namespaces.clear();
    catalog.clear();
    records.clear();
    if let Err(error) = collect_checkpoint_namespaces(source, limits, namespaces) {
        return Err(error);
    }
    let ghost ids = namespaces@;
    proof {
        assert(ascending(ids));
    }
    match &source.catalog {
        Ok(bytes) => text::push_bytes(catalog, bytes.as_slice()),
        Err(error) => {
            namespaces.clear();
            return Err(CheckpointKeyspaceSnapshotError::Catalog(error.clone()));
        },
    }
    proof {
        assert(catalog@ =~= source.catalog->Ok_0@);
        assert(durability::staged_views(records@) =~= Seq::empty());
    }
    let budget: usize = config.max_records_payload_bytes;
    let ghost stores = walked_stores(*source);
    let mut records_len: usize = 0;
    let mut records_emitted: usize = 0;
    let mut i: usize = 0;
    while i < source.dbs.len()
        invariant
            i <= source.dbs@.len(),
            stores == walked_stores(*source),
            reported(stores) <= usize::MAX,
            sorted_set(ids, store_ids(source.dbs@) + source.catalog_ids@),
            namespaces@ == ids,
            ids.len() <= limits.max_header_namespaces,
            source.catalog matches Ok(bytes) && catalog@ == bytes@,
            budget == config.max_records_payload_bytes,
            gathered(stores, i as int, budget, limits) matches Ok(g) && g.staged
                == durability::staged_views(records@) && g.emitted == records_emitted,
            records_len == durability::staged_len(durability::staged_views(records@)),
            records_len <= budget,
        decreases source.dbs.len() - i,
    {
        proof {
            lemma_next_store(stores, i as int, budget, limits);
            assert(stores[i as int] == source.dbs@[i as int]);
        }
        if let Err(error) = append_store_snapshot_records(
            &source.dbs[i],
            budget,
            limits,
            records,
            &mut records_len,
            &mut records_emitted,
        ) {
            namespaces.clear();
            catalog.clear();
            records.clear();
            proof {
                lemma_gathered_error_stands(stores, i + 1, stores.len() as int, budget, limits);
                assert(ascending(ids));
            }
            return Err(error);
        }
        i += 1;
    }
    let mut named_stores_walked: usize = 0;
    let mut j: usize = 0;
    proof {
        assert(source.named@.take(0) =~= Seq::empty());
    }
    while j < source.named.len()
        invariant
            j <= source.named@.len(),
            i == source.dbs@.len(),
            stores == walked_stores(*source),
            reported(stores) <= usize::MAX,
            sorted_set(ids, store_ids(source.dbs@) + source.catalog_ids@),
            namespaces@ == ids,
            ids.len() <= limits.max_header_namespaces,
            source.catalog matches Ok(bytes) && catalog@ == bytes@,
            budget == config.max_records_payload_bytes,
            named_stores_walked == durable_stores(source.named@.take(j as int)).len(),
            named_stores_walked <= j,
            gathered(stores, i + named_stores_walked, budget, limits) matches Ok(g) && g.staged
                == durability::staged_views(records@) && g.emitted == records_emitted,
            records_len == durability::staged_len(durability::staged_views(records@)),
            records_len <= budget,
        decreases source.named.len() - j,
    {
        proof {
            assert(source.named@.take(j + 1).drop_last() =~= source.named@.take(j as int));
            assert(source.named@.take(j + 1).last() == source.named@[j as int]);
        }
        if source.named[j].durable {
            proof {
                lemma_durable_prefix(source.named@, j as int);
                let at = i + named_stores_walked;
                assert(stores[at] == source.named@[j as int].store);
                lemma_next_store(stores, at, budget, limits);
            }
            if let Err(error) = append_store_snapshot_records(
                &source.named[j].store,
                budget,
                limits,
                records,
                &mut records_len,
                &mut records_emitted,
            ) {
                namespaces.clear();
                catalog.clear();
                records.clear();
                proof {
                    lemma_gathered_error_stands(
                        stores,
                        i + named_stores_walked + 1,
                        stores.len() as int,
                        budget,
                        limits,
                    );
                    assert(ascending(ids));
                }
                return Err(error);
            }
            named_stores_walked += 1;
        }
        j += 1;
    }
    proof {
        assert(source.named@.take(j as int) =~= source.named@);
        assert(ascending(ids));
        assert(stores.len() == i + named_stores_walked);
    }
    Ok(
        EncodedCheckpointKeyspaceSnapshot {
            namespace_count: namespaces.len(),
            default_stores_walked: source.dbs.len(),
            named_stores_walked,
            records_emitted,
            catalog_payload_len: catalog.len(),
            records_payload_len: records_len,
        },
    )
}

proof fn lemma_next_store<'a>(
    stores: Seq<StoreWalk<'a>>,
    n: int,
    budget: usize,
    limits: SnapshotLimits,
)
    requires
        0 <= n < stores.len(),
        reported(stores) <= usize::MAX,
    ensures
        gathered(stores, n, budget, limits) matches Ok(g) ==> (stores[n].walk matches Ok(walk)
            ==> g.emitted + walk.records_emitted <= usize::MAX),
{
    lemma_gathered_bounded(stores, n, budget, limits);
    lemma_reported_prefix(stores, n + 1);
    assert(stores.take(n + 1).drop_last() =~= stores.take(n));
    assert(stores.take(n + 1).last() == stores[n]);
}

proof fn lemma_durable_prefix<'a>(named: Seq<NamedStore<'a>>, j: int)
    requires
        0 <= j < named.len(),
        named[j].durable,
    ensures
        durable_stores(named.take(j)).len() < durable_stores(named).len(),
        durable_stores(named)[durable_stores(named.take(j)).len() as int] == named[j].store,
    decreases named.len(),
{
    if j == named.len() - 1 {
        assert(named.take(j) =~= named.drop_last());
    } else {
        lemma_durable_prefix(named.drop_last(), j);
        assert(named.drop_last().take(j) =~= named.take(j));
    }
}

/// A snapshot's encoded sections.
#[derive(Debug)]
pub struct EncodedCheckpointKeyspaceSnapshotParts {
    pub namespaces: Vec<u32>,
    pub catalog: Vec<u8>,
    pub records: Vec<StagedRecord>,
    pub snapshot: EncodedCheckpointKeyspaceSnapshot,
}

impl EncodedCheckpointKeyspaceSnapshotParts {
    /// What the snapshot gathered.
    pub fn snapshot(&self) -> (r: EncodedCheckpointKeyspaceSnapshot)
        ensures
            r == self.snapshot,
    {
        self.snapshot
    }
}

/// Encodes the sections of a keyspace snapshot into parts of its own.
pub fn encode_checkpoint_keyspace_snapshot_parts(
    source: &KeyspaceSource<'_>,
    config: CheckpointKeyspaceSnapshotConfig,
    limits: SnapshotLimits,
) -> (r: Result<EncodedCheckpointKeyspaceSnapshotParts, CheckpointKeyspacePublishError>)
    requires
        reported(walked_stores(*source)) <= usize::MAX,
    ensures
        match r {
            Ok(parts) => snapshot_outcome(
                *source,
                config,
                limits,
                parts.namespaces@,
                parts.catalog@,
                durability::staged_views(parts.records@),
                Ok(parts.snapshot),
            ),
            Err(error) => error matches CheckpointKeyspacePublishError::Snapshot(cause)
                && snapshot_outcome(
                *source,
                config,
                limits,
                Seq::empty(),
                Seq::empty(),
                Seq::empty(),
                Err(cause),
            ),
        },
{
    let mut namespaces: Vec<u32> = Vec::new();
    let mut catalog: Vec<u8> = Vec::new();
    let mut records: Vec<StagedRecord> = Vec::new();
    match encode_checkpoint_keyspace_snapshot_sections(
        source,
        config,
        limits,
        &mut namespaces,
        &mut catalog,
        &mut records,
    ) {
        Ok(snapshot) => Ok(
            EncodedCheckpointKeyspaceSnapshotParts { namespaces, catalog, records, snapshot },
        ),
        Err(error) => {
            proof {
                assert(namespaces@ =~= Seq::empty());
                assert(catalog@ =~= Seq::empty());
                assert(durability::staged_views(records@) =~= Seq::empty());
            }
            Err(CheckpointKeyspacePublishError::Snapshot(error))
        },
    }
}

/// An encoded section: its header, payload and trailer.
#[derive(Debug)]
pub struct SectionFrame {
    pub header: Vec<u8>,
    pub payload: Vec<u8>,
    pub trailer: Vec<u8>,
}

/// The bytes of encoded sections, one after another.
pub open spec fn frames_bytes(frames: Seq<SectionFrame>) -> Seq<u8>
    decreases frames.len(),
{
    if frames.len() == 0 {
        Seq::empty()
    } else {
        frames_bytes(frames.drop_last()) + frames.last().header@ + frames.last().payload@
            + frames.last().trailer@
    }
}

/// Composes an image: its header, its sections in order, its footer.
pub fn compose_image(header: &[u8], frames: &[SectionFrame], footer: &[u8]) -> (r: Vec<u8>)
    ensures
        r@ == header@ + frames_bytes(frames@) + footer@,
{
    let mut image = text::copy_bytes(header);
    let mut i: usize = 0;
    proof {
        assert(frames@.take(0) =~= Seq::empty());
        assert(image@ =~= header@ + frames_bytes(frames@.take(0)));
    }
    while i < frames.len()
        invariant
            i <= frames@.len(),
            image@ == header@ + frames_bytes(frames@.take(i as int)),
        decreases frames.len() - i,
    {
        proof {
            assert(frames@.take(i + 1).drop_last() =~= frames@.take(i as int));
            assert(frames@.take(i + 1).last() == frames@[i as int]);
        }
        text::push_bytes(&mut image, frames[i].header.as_slice());
        text::push_bytes(&mut image, frames[i].payload.as_slice());
        text::push_bytes(&mut image, frames[i].trailer.as_slice());
        i += 1;
        proof {
            assert(image@ =~= header@ + frames_bytes(frames@.take(i as int)));
        }
    }
    proof {
        assert(frames@.take(i as int) =~= frames@);
    }
    text::push_bytes(&mut image, footer);
    image
}

/// The pieces an image is published in, in the order they are written: the
/// header, each section's header, payload and trailer, and the footer.
pub fn image_pieces(header: &[u8], frames: &[SectionFrame], footer: &[u8]) -> (r: Vec<ImagePiece>)
    ensures
        publish::image_bytes(r@) == header@ + frames_bytes(frames@) + footer@,
        forall|i: int| 0 <= i < r@.len() ==> #[trigger] r@[i] is Bytes,
        r@.len() == 2 + 3 * frames@.len(),
{
    let mut pieces: Vec<ImagePiece> = Vec::new();
    proof {
        assert(publish::image_bytes(pieces@) =~= Seq::empty());
        assert(frames@.take(0) =~= Seq::empty());
    }
    push_piece(&mut pieces, header);
    proof {
        assert(publish::image_bytes(pieces@) =~= header@ + frames_bytes(frames@.take(0)));
    }
    let mut i: usize = 0;
    while i < frames.len()
        invariant
            i <= frames@.len(),
            publish::image_bytes(pieces@) == header@ + frames_bytes(frames@.take(i as int)),
            forall|k: int| 0 <= k < pieces@.len() ==> #[trigger] pieces@[k] is Bytes,
            pieces@.len() == 1 + 3 * i,
        decreases frames.len() - i,
    {
        proof {
            assert(frames@.take(i + 1).drop_last() =~= frames@.take(i as int));
            assert(frames@.take(i + 1).last() == frames@[i as int]);
        }
        push_piece(&mut pieces, frames[i].header.as_slice());
        push_piece(&mut pieces, frames[i].payload.as_slice());
        push_piece(&mut pieces, frames[i].trailer.as_slice());
        i += 1;
        proof {
            assert(publish::image_bytes(pieces@) =~= header@ + frames_bytes(
                frames@.take(i as int),
            ));
        }
    }
    proof {
        assert(frames@.take(i as int) =~= frames@);
    }
    push_piece(&mut pieces, footer);
    pieces
}

fn push_piece(pieces: &mut Vec<ImagePiece>, bytes: &[u8])
    requires
        forall|k: int| 0 <= k < old(pieces)@.len() ==> #[trigger] old(pieces)@[k] is Bytes,
    ensures
        publish::image_bytes(final(pieces)@) == publish::image_bytes(old(pieces)@) + bytes@,
        final(pieces)@.len() == old(pieces)@.len() + 1,
        forall|k: int| 0 <= k < final(pieces)@.len() ==> #[trigger] final(pieces)@[k] is Bytes,
{
    pieces.push(ImagePiece::Bytes(text::copy_bytes(bytes)));
    proof {
        assert(pieces@.drop_last() =~= old(pieces)@);
    }
}

/// What the image format made of a snapshot: whether it takes the header and
/// the two sections, and what they encode to.
#[derive(Debug)]
pub struct EncodedSnapshotImage {
    pub header_fits: Result<(), String>,
    pub catalog_fits: Result<(), String>,
    pub records_fit: Result<(), String>,
    pub header: Result<Vec<u8>, String>,
    pub catalog: Result<SectionFrame, String>,
    pub records: Result<SectionFrame, String>,
    pub footer: Vec<u8>,
}

impl EncodedSnapshotImage {
    /// Why the header or a section is not taken: the first reason.
    pub open spec fn unfit(&self) -> Option<CheckpointKeyspacePublishError> {
        match (self.header_fits, self.catalog_fits, self.records_fit) {
            (Err(e), _, _) => Some(CheckpointKeyspacePublishError::Header(e)),
            (_, Err(e), _) => Some(CheckpointKeyspacePublishError::Section(e)),
            (_, _, Err(e)) => Some(CheckpointKeyspacePublishError::Section(e)),
            _ => None,
        }
    }

    /// The image the encodings make up, or the first reason against it.
    pub open spec fn composed(&self) -> Result<Seq<u8>, CheckpointKeyspacePublishError> {
        match (self.unfit(), self.header, self.catalog, self.records) {
            (Some(e), _, _, _) => Err(e),
            (_, Err(e), _, _) => Err(CheckpointKeyspacePublishError::Header(e)),
            (_, _, Err(e), _) => Err(CheckpointKeyspacePublishError::Section(e)),
            (_, _, _, Err(e)) => Err(CheckpointKeyspacePublishError::Section(e)),
            (None, Ok(header), Ok(catalog), Ok(records)) => Ok(
                header@ + frames_bytes(seq![catalog, records]) + self.footer@,
            ),
        }
    }
}

fn fits(
    header: Result<(), String>,
    catalog: Result<(), String>,
    records: Result<(), String>,
) -> (r: Result<(), CheckpointKeyspacePublishError>)
    ensures
        r == (match (header, catalog, records) {
            (Err(e), _, _) => Err::<(), _>(CheckpointKeyspacePublishError::Header(e)),
            (_, Err(e), _) => Err(CheckpointKeyspacePublishError::Section(e)),
            (_, _, Err(e)) => Err(CheckpointKeyspacePublishError::Section(e)),
            _ => Ok(()),
        }),
{
    match header {
        Err(e) => Err(CheckpointKeyspacePublishError::Header(e)),
        Ok(_) => match catalog {
            Err(e) => Err(CheckpointKeyspacePublishError::Section(e)),
            Ok(_) => match records {
                Err(e) => Err(CheckpointKeyspacePublishError::Section(e)),
                Ok(_) => Ok(()),
            },
        },
    }
}

/// Composes the whole image of a snapshot from what its parts encode to.
pub fn encode_checkpoint_keyspace_snapshot_image_from_parts(encoded: EncodedSnapshotImage) -> (r:
    Result<Vec<u8>, CheckpointKeyspacePublishError>)
    ensures
        match encoded.composed() {
            Ok(image) => r matches Ok(bytes) && bytes@ == image,
            Err(error) => r == Err::<Vec<u8>, _>(error),
        },
{
    if let Err(error) = fits(encoded.header_fits, encoded.catalog_fits, encoded.records_fit) {
        return Err(error);
    }
    let header = match encoded.header {
        Ok(bytes) => bytes,
        Err(e) => return Err(CheckpointKeyspacePublishError::Header(e)),
    };
    let catalog = match encoded.catalog {
        Ok(frame) => frame,
        Err(e) => return Err(CheckpointKeyspacePublishError::Section(e)),
    };
    let records = match encoded.records {
        Ok(frame) => frame,
        Err(e) => return Err(CheckpointKeyspacePublishError::Section(e)),
    };
    let mut frames: Vec<SectionFrame> = Vec::new();
    frames.push(catalog);
    frames.push(records);
    assert(frames@ =~= seq![catalog, records]);
    Ok(compose_image(header.as_slice(), frames.as_slice(), encoded.footer.as_slice()))
}

/// Concludes the publication of a snapshot's image.
pub fn published_snapshot(
    snapshot: EncodedCheckpointKeyspaceSnapshot,
    published: Result<PublishedCheckpointImage, CheckpointImagePublishError>,
) -> (r: Result<PublishedCheckpointKeyspaceSnapshot, CheckpointKeyspacePublishError>)
    ensures
        r == (match published {
            Ok(image) => Ok::<_, CheckpointKeyspacePublishError>(
                PublishedCheckpointKeyspaceSnapshot { image, snapshot },
            ),
            Err(error) => Err(CheckpointKeyspacePublishError::Publish(error)),
        }),
{
    match published {
        Ok(image) => Ok(PublishedCheckpointKeyspaceSnapshot { image, snapshot }),
        Err(error) => Err(CheckpointKeyspacePublishError::Publish(error)),
    }
}

/// A snapshot's namespaces are determined by what the keyspace lists: two
/// outcomes of the same source name the same ones.
pub proof fn law_snapshot_is_deterministic<'a>(
    source: KeyspaceSource<'a>,
    config: CheckpointKeyspaceSnapshotConfig,
    limits: SnapshotLimits,
    a: (Seq<u32>, Seq<u8>, Seq<durability::Staged>),
    b: (Seq<u32>, Seq<u8>, Seq<durability::Staged>),
    ra: EncodedCheckpointKeyspaceSnapshot,
    rb: EncodedCheckpointKeyspaceSnapshot,
)
    requires
        snapshot_outcome(source, config, limits, a.0, a.1, a.2, Ok(ra)),
        snapshot_outcome(source, config, limits, b.0, b.1, b.2, Ok(rb)),
    ensures
        a == b,
        ra == rb,
{
    lemma_sorted_set_unique(a.0, b.0, store_ids(source.dbs@) + source.catalog_ids@);
}

/// A snapshot keeps to its budget: the records payload is never longer than
/// allowed.
pub proof fn law_snapshot_keeps_budget<'a>(
    stores: Seq<StoreWalk<'a>>,
    n: int,
    budget: usize,
    limits: SnapshotLimits,
)
    requires
        0 <= n <= stores.len(),
    ensures
        gathered(stores, n, budget, limits) matches Ok(g) ==> durability::staged_len(g.staged)
            <= budget,
    decreases n,
{
    if n > 0 {
        law_snapshot_keeps_budget(stores, n - 1, budget, limits);
        if let Ok(before) = gathered(stores, n - 1, budget, limits) {
            let store = stores[n - 1];
            let room = (budget - durability::staged_len(before.staged)) as usize;
            lemma_walk_keeps_capacity(
                store.records@,
                store.records@.len() as int,
                store.namespace,
                room as nat,
            );
            if let Ok(staged) = staged_walk(
                store.records@,
                store.records@.len() as int,
                store.namespace,
                room as nat,
            ) {
                lemma_staged_len_append(before.staged, staged);
            }
        }
    }
}

proof fn lemma_walk_keeps_capacity<'a>(
    records: Seq<CheckpointStoreRecord<'a>>,
    n: int,
    namespace: u32,
    capacity: nat,
)
    requires
        n <= records.len(),
    ensures
        staged_walk(records, n, namespace, capacity) matches Ok(staged) ==> durability::staged_len(
            staged,
        ) <= capacity,
    decreases n,
{
    if n > 0 {
        lemma_walk_keeps_capacity(records, n - 1, namespace, capacity);
        if let Ok(staged) = staged_walk(records, n - 1, namespace, capacity) {
            let record = records[n - 1];
            let pushed = staged.push(
                durability::staged_record(namespace, record.effect(), record.framed),
            );
            assert(pushed.drop_last() =~= staged);
        }
    }
}

/// A store record's effect is the record: its key, its value, its expiry and
/// its raw mark, whatever they are.
pub proof fn law_effect_is_the_store_record<'a>(record: CheckpointStoreRecord<'a>)
    ensures
        record.effect() matches durability::Effect::StringPostImage {
            key,
            value,
            expire_at_ms,
            raw,
        } && key == record.key@ && value == record.value@ && expire_at_ms == record.expire_at_ms
            && raw == record.raw,
{
}

/// A snapshot restores what the store held: the staged records of a walk, each
/// decoded, give back the walked key, value, expiry and raw mark, in order and
/// in the namespace of the section.
pub proof fn law_walk_restores_the_store<'a>(
    records: Seq<CheckpointStoreRecord<'a>>,
    n: int,
    namespace: u32,
    capacity: nat,
)
    requires
        0 <= n <= records.len(),
        forall|i: int|
            0 <= i < n ==> ((#[trigger] records[i]).expire_at_ms matches Some(ms) ==> ms
                < 0x100_0000_0000),
    ensures
        staged_walk(records, n, namespace, capacity) matches Ok(staged) ==> staged.len() == n && (
        forall|i: int|
            0 <= i < n ==> (#[trigger] staged[i]).namespace == namespace && records[i].framed
                == Ok::<usize, LogCodecError>(staged[i].encoded_len) && durability::decoded_effect(
                staged[i].kind,
                staged[i].flags,
                staged[i].payload,
            ) == Ok::<_, durability::MutationRecordDecodeError>(
                durability::Effect::StringPostImage {
                    key: records[i].key@,
                    value: records[i].value@,
                    expire_at_ms: records[i].expire_at_ms,
                    raw: records[i].raw,
                },
            )),
    decreases n,
{
    if n > 0 {
        law_walk_restores_the_store(records, n - 1, namespace, capacity);
        if let Ok(staged) = staged_walk(records, n, namespace, capacity) {
            let record = records[n - 1];
            assert(records[n - 1].expire_at_ms == record.expire_at_ms);
            durability::law_mutation_round_trip(record.effect());
        }
    }
}

/// A section is encoded under a budget that is neither zero nor above the
/// section limit, from a walk that succeeded, and hands that walk back. A walk
/// that failed is reported as it failed.
pub proof fn law_section_needs_its_walk<'a>(
    store: StoreWalk<'a>,
    config: CheckpointRecordsSectionConfig,
    limits: SnapshotLimits,
)
    ensures
        encoded_section(store, config, limits) matches Ok((staged, walk)) ==> 0
            < config.max_payload_bytes <= limits.max_section_payload_len && store.walk == Ok::<
            _,
            String,
        >(walk) && staged.len() == store.records@.len(),
        config.max_payload_bytes == 0 ==> encoded_section(store, config, limits) == Err::<
            (Seq<durability::Staged>, CheckpointWalk),
            _,
        >(CheckpointRecordsSectionError::ZeroPayloadBudget),
        config.max_payload_bytes > limits.max_section_payload_len ==> (encoded_section(
            store,
            config,
            limits,
        ) matches Err(
            CheckpointRecordsSectionError::PayloadBudgetTooLarge { max_payload_bytes, max_allowed },
        ) && max_payload_bytes == config.max_payload_bytes && max_allowed
            == limits.max_section_payload_len) || config.max_payload_bytes == 0,
        0 < config.max_payload_bytes <= limits.max_section_payload_len && store.walk is Err
            ==> encoded_section(store, config, limits) == Err::<
            (Seq<durability::Staged>, CheckpointWalk),
            _,
        >(CheckpointRecordsSectionError::Walk(store.walk->Err_0)),
{
    lemma_walk_length(
        store.records@,
        store.records@.len() as int,
        config.namespace,
        config.max_payload_bytes as nat,
    );
}

proof fn lemma_walk_length<'a>(
    records: Seq<CheckpointStoreRecord<'a>>,
    n: int,
    namespace: u32,
    capacity: nat,
)
    requires
        0 <= n <= records.len(),
    ensures
        staged_walk(records, n, namespace, capacity) matches Ok(staged) ==> staged.len() == n,
    decreases n,
{
    if n > 0 {
        lemma_walk_length(records, n - 1, namespace, capacity);
    }
}

/// The frames of the first `n` records together.
pub open spec fn framed_total<'a>(records: Seq<CheckpointStoreRecord<'a>>, n: int) -> nat
    decreases n,
{
    if n <= 0 {
        0
    } else {
        framed_total(records, n - 1) + records[n - 1].framed->Ok_0 as nat
    }
}

/// A walk whose frames fit the budget together is staged whole.
pub proof fn law_walk_that_fits_is_staged<'a>(
    records: Seq<CheckpointStoreRecord<'a>>,
    n: int,
    namespace: u32,
    capacity: nat,
)
    requires
        0 <= n <= records.len(),
        n < 0xffff_ffff,
        framed_total(records, n) <= capacity,
        forall|i: int|
            0 <= i < n ==> (#[trigger] records[i]).framed is Ok && durability::payload_of(
                records[i].effect(),
            ).len() <= usize::MAX,
    ensures
        staged_walk(records, n, namespace, capacity) matches Ok(staged) && staged.len() == n
            && durability::staged_len(staged) == framed_total(records, n),
    decreases n,
{
    if n > 0 {
        law_walk_that_fits_is_staged(records, n - 1, namespace, capacity);
        let staged = staged_walk(records, n - 1, namespace, capacity)->Ok_0;
        let record = records[n - 1];
        let pushed = staged.push(
            durability::staged_record(namespace, record.effect(), record.framed),
        );
        assert(pushed.drop_last() =~= staged);
    }
}

/// What the first `n` stores hold, in walking order: the namespace and the
/// post-image of every record of every store that is not empty.
pub open spec fn held_records<'a>(stores: Seq<StoreWalk<'a>>, n: int) -> Seq<
    (u32, durability::Effect),
>
    decreases n,
{
    if n <= 0 {
        Seq::empty()
    } else {
        let store = stores[n - 1];
        held_records(stores, n - 1) + (if store.empty {
            Seq::empty()
        } else {
            Seq::new(
                store.records@.len(),
                |i: int|
                    (
                        store.namespace,
                        durability::Effect::StringPostImage {
                            key: store.records@[i].key@,
                            value: store.records@[i].value@,
                            expire_at_ms: store.records@[i].expire_at_ms,
                            raw: store.records@[i].raw,
                        },
                    ),
            )
        })
    }
}

/// Whether every record of a store has an expiry that a log record can hold.
pub open spec fn expiries_fit<'a>(store: StoreWalk<'a>) -> bool {
    forall|i: int|
        0 <= i < store.records@.len() ==> ((#[trigger] store.records@[i]).expire_at_ms matches Some(
            ms,
        ) ==> ms < 0x100_0000_0000)
}

/// A keyspace snapshot restores the keyspace: its staged records, each
/// decoded, are the records of the walked stores, all of them and in order,
/// each in the namespace of its store. Every store that is not empty was
/// walked to its end, and the snapshot counts what the walks emitted.
pub proof fn law_snapshot_restores_the_keyspace<'a>(
    stores: Seq<StoreWalk<'a>>,
    n: int,
    budget: usize,
    limits: SnapshotLimits,
)
    requires
        0 <= n <= stores.len(),
        forall|i: int| 0 <= i < n ==> expiries_fit(#[trigger] stores[i]),
    ensures
        gathered(stores, n, budget, limits) matches Ok(g) ==> {
            &&& g.staged.len() == held_records(stores, n).len()
            &&& forall|i: int|
                0 <= i < g.staged.len() ==> (#[trigger] g.staged[i]).namespace == held_records(
                    stores,
                    n,
                )[i].0 && durability::decoded_effect(
                    g.staged[i].kind,
                    g.staged[i].flags,
                    g.staged[i].payload,
                ) == Ok::<_, durability::MutationRecordDecodeError>(held_records(stores, n)[i].1)
            &&& forall|i: int|
                0 <= i < n ==> (#[trigger] stores[i]).empty || (stores[i].walk matches Ok(walk)
                    && walk.done)
        },
    decreases n,
{
    if n > 0 {
        law_snapshot_restores_the_keyspace(stores, n - 1, budget, limits);
        if let Ok(g) = gathered(stores, n, budget, limits) {
            let before = gathered(stores, n - 1, budget, limits)->Ok_0;
            let store = stores[n - 1];
            assert(expiries_fit(stores[n - 1]));
            if !store.empty {
                let room = (budget - durability::staged_len(before.staged)) as usize;
                law_walk_restores_the_store(
                    store.records@,
                    store.records@.len() as int,
                    store.namespace,
                    room as nat,
                );
                let own = staged_walk(
                    store.records@,
                    store.records@.len() as int,
                    store.namespace,
                    room as nat,
                )->Ok_0;
                assert(g.staged == before.staged + own);
                let held = held_records(stores, n);
                assert forall|i: int| 0 <= i < g.staged.len() implies (
                #[trigger] g.staged[i]).namespace == held[i].0 && durability::decoded_effect(
                    g.staged[i].kind,
                    g.staged[i].flags,
                    g.staged[i].payload,
                ) == Ok::<_, durability::MutationRecordDecodeError>(held[i].1) by {
                    if i < before.staged.len() {
                        assert(g.staged[i] == before.staged[i]);
                        assert(held[i] == held_records(stores, n - 1)[i]);
                    } else {
                        assert(g.staged[i] == own[i - before.staged.len()]);
                    }
                }
            } else {
                assert(held_records(stores, n) =~= held_records(stores, n - 1));
            }
        }
    }
}

/// The count of a snapshot is what the walks of its stores reported.
pub proof fn law_snapshot_counts_its_walks<'a>(
    stores: Seq<StoreWalk<'a>>,
    n: int,
    budget: usize,
    limits: SnapshotLimits,
)
    requires
        0 < n <= stores.len(),
    ensures
        gathered(stores, n, budget, limits) matches Ok(g) ==> (gathered(
            stores,
            n - 1,
            budget,
            limits,
        ) matches Ok(before) && g.emitted - before.emitted == (if stores[n - 1].empty {
            0int
        } else {
            stores[n - 1].walk->Ok_0.records_emitted as int
        })),
        gathered(stores, 0, budget, limits) matches Ok(g) && g.emitted == 0 && g.staged.len() == 0,
        (gathered(stores, n - 1, budget, limits) is Ok && !stores[n - 1].empty && (
        stores[n - 1].walk matches Ok(walk) && !walk.done)) ==> gathered(
            stores,
            n,
            budget,
            limits,
        ) is Err,
{
}

/// The stores of a snapshot are every default store and every named store that
/// is durable, in order; no other named store is walked.
pub proof fn law_durable_stores_are_walked<'a>(
    a: Seq<NamedStore<'a>>,
    b: Seq<NamedStore<'a>>,
    store: NamedStore<'a>,
    source: KeyspaceSource<'a>,
)
    ensures
        durable_stores(a + b) == durable_stores(a) + durable_stores(b),
        store.durable ==> durable_stores(seq![store]) == seq![store.store],
        !store.durable ==> durable_stores(seq![store]) == Seq::<StoreWalk<'a>>::empty(),
        walked_stores(source).take(source.dbs@.len() as int) == source.dbs@,
        walked_stores(source).skip(source.dbs@.len() as int) == durable_stores(source.named@),
    decreases b.len(),
{
    reveal_with_fuel(durable_stores, 2);
    assert(seq![store].drop_last() =~= Seq::<NamedStore<'a>>::empty());
    assert(walked_stores(source).take(source.dbs@.len() as int) =~= source.dbs@);
    assert(walked_stores(source).skip(source.dbs@.len() as int) =~= durable_stores(source.named@));
    if b.len() == 0 {
        assert(a + b =~= a);
    } else {
        law_durable_stores_are_walked(a, b.drop_last(), store, source);
        assert((a + b).drop_last() =~= a + b.drop_last());
        assert((a + b).last() == b.last());
    }
}

/// A snapshot names every namespace once, in ascending order: those of the
/// default stores and those of the catalog, and no other. It carries the
/// catalog as it was encoded, and its counts are those of what it holds.
pub proof fn law_snapshot_names_every_namespace<'a>(
    source: KeyspaceSource<'a>,
    config: CheckpointKeyspaceSnapshotConfig,
    limits: SnapshotLimits,
    namespaces: Seq<u32>,
    catalog: Seq<u8>,
    records: Seq<durability::Staged>,
    done: EncodedCheckpointKeyspaceSnapshot,
)
    requires
        snapshot_outcome(source, config, limits, namespaces, catalog, records, Ok(done)),
    ensures
        forall|i: int, j: int| 0 <= i < j < namespaces.len() ==> namespaces[i] < namespaces[j],
        forall|id: u32|
            #![trigger namespaces.contains(id)]
            namespaces.contains(id) <==> source.catalog_ids@.contains(id) || (exists|i: int|
                0 <= i < source.dbs@.len() && (#[trigger] source.dbs@[i]).namespace == id),
        namespaces.len() <= limits.max_header_namespaces,
        source.catalog matches Ok(bytes) && bytes@ == catalog,
        done.namespace_count == namespaces.len() as usize,
        done.default_stores_walked == source.dbs@.len() as usize,
        done.catalog_payload_len == catalog.len() as usize,
        done.records_payload_len == durability::staged_len(records) as usize,
{
    let listed = store_ids(source.dbs@) + source.catalog_ids@;
    assert forall|id: u32| #![trigger namespaces.contains(id)]
        namespaces.contains(id) <==> source.catalog_ids@.contains(id) || (exists|i: int|
            0 <= i < source.dbs@.len() && (#[trigger] source.dbs@[i]).namespace == id) by {
        assert(namespaces.to_set().contains(id) <==> listed.to_set().contains(id));
        assert(namespaces.to_set().contains(id) <==> namespaces.contains(id));
        assert(listed.to_set().contains(id) <==> listed.contains(id));
        if listed.contains(id) {
            let k = choose|k: int| 0 <= k < listed.len() && listed[k] == id;
            if k < source.dbs@.len() {
                assert(source.dbs@[k].namespace == id);
            } else {
                assert(source.catalog_ids@[k - source.dbs@.len()] == id);
            }
        }
        if source.catalog_ids@.contains(id) {
            let k = choose|k: int| 0 <= k < source.catalog_ids@.len() && source.catalog_ids@[k] == id;
            assert(listed[source.dbs@.len() + k] == id);
        }
        if exists|i: int| 0 <= i < source.dbs@.len() && (#[trigger] source.dbs@[i]).namespace == id {
            let k = choose|i: int|
                0 <= i < source.dbs@.len() && (#[trigger] source.dbs@[i]).namespace == id;
            assert(listed[k] == id);
        }
    }
}

/// The sections of an image stand whole and in order: a frame is its header,
/// its payload and its trailer, and frames follow one another.
pub proof fn law_frames_stand_in_order(a: Seq<SectionFrame>, b: Seq<SectionFrame>, f: SectionFrame)
    ensures
        frames_bytes(a + b) == frames_bytes(a) + frames_bytes(b),
        frames_bytes(seq![f]) == f.header@ + f.payload@ + f.trailer@,
        frames_bytes(Seq::empty()) == Seq::<u8>::empty(),
    decreases b.len(),
{
    reveal_with_fuel(frames_bytes, 2);
    assert(seq![f].drop_last() =~= Seq::<SectionFrame>::empty());
    assert(frames_bytes(seq![f]) =~= f.header@ + f.payload@ + f.trailer@);
    if b.len() == 0 {
        assert(a + b =~= a);
        assert(frames_bytes(a) + Seq::<u8>::empty() =~= frames_bytes(a));
    } else {
        law_frames_stand_in_order(a, b.drop_last(), f);
        assert((a + b).drop_last() =~= a + b.drop_last());
        assert((a + b).last() == b.last());
        assert(frames_bytes(a + b) =~= frames_bytes(a) + frames_bytes(b));
    }
}

/// An image is composed exactly where every part of it fits and was encoded:
/// header, catalog section, records section, footer. A part that failed is
/// reported with its own error.
pub proof fn law_image_is_all_of_its_parts(e: EncodedSnapshotImage)
    ensures
        e.composed() is Ok <==> e.header_fits is Ok && e.catalog_fits is Ok && e.records_fit is Ok
            && e.header is Ok && e.catalog is Ok && e.records is Ok,
        e.composed() matches Ok(image) ==> (e.header matches Ok(header) && (
        e.catalog matches Ok(catalog) && (e.records matches Ok(records) && image == header@ + (
        catalog.header@ + catalog.payload@ + catalog.trailer@) + (records.header@
            + records.payload@ + records.trailer@) + e.footer@))),
        e.header_fits matches Err(error) ==> e.composed() == Err::<Seq<u8>, _>(
            CheckpointKeyspacePublishError::Header(error),
        ),
{
    reveal_with_fuel(frames_bytes, 3);
    if let Ok(image) = e.composed() {
        let header = e.header->Ok_0;
        let catalog = e.catalog->Ok_0;
        let records = e.records->Ok_0;
        let both = seq![catalog, records];
        assert(both.drop_last() =~= seq![catalog]);
        assert(seq![catalog].drop_last() =~= Seq::<SectionFrame>::empty());
        assert(image =~= header@ + (catalog.header@ + catalog.payload@ + catalog.trailer@) + (
        records.header@ + records.payload@ + records.trailer@) + e.footer@);
    }
}

/// A store that cannot be snapshotted is named: a section that failed with its
/// cause, and a walk that stopped short with the place it stopped at. An empty
/// store is passed over.
pub proof fn law_failed_store_is_named<'a>(
    before: Gathered,
    store: StoreWalk<'a>,
    budget: usize,
    limits: SnapshotLimits,
)
    ensures
        store.empty ==> gathered_one(before, store, budget, limits)
            == Ok::<Gathered, CheckpointKeyspaceSnapshotError>(before),
        gathered_one(before, store, budget, limits) matches Err(
            CheckpointKeyspaceSnapshotError::Records { namespace, .. },
        ) ==> namespace == store.namespace,
        gathered_one(before, store, budget, limits) matches Err(
            CheckpointKeyspaceSnapshotError::IncompleteStoreWalk { namespace, next_cursor },
        ) ==> namespace == store.namespace && (store.walk matches Ok(walk) && !walk.done
            && next_cursor == walk.next_cursor),
        gathered_one(before, store, budget, limits) matches Err(error) ==> error is Records
            || error is IncompleteStoreWalk,
        gathered_one(before, store, budget, limits) matches Ok(after) ==> after.staged.len()
            >= before.staged.len() && after.staged.take(before.staged.len() as int)
            == before.staged,
{
    if let Ok(after) = gathered_one(before, store, budget, limits) {
        assert(after.staged.take(before.staged.len() as int) =~= before.staged);
    }
}

/// A snapshot is refused for its reason: too many namespaces, a catalog that
/// could not be encoded, or the first store that failed, in this order.
pub proof fn law_snapshot_is_refused_for_its_reason<'a>(
    source: KeyspaceSource<'a>,
    config: CheckpointKeyspaceSnapshotConfig,
    limits: SnapshotLimits,
    namespaces: Seq<u32>,
    catalog: Seq<u8>,
    records: Seq<durability::Staged>,
    r: Result<EncodedCheckpointKeyspaceSnapshot, CheckpointKeyspaceSnapshotError>,
)
    requires
        snapshot_outcome(source, config, limits, namespaces, catalog, records, r),
    ensures
        source.catalog is Err ==> r is Err,
        source.catalog matches Err(e) ==> (r matches Err(error) && (error
            is NamespaceSetTooLarge || error == CheckpointKeyspaceSnapshotError::Catalog(e))),
        gathered(
            walked_stores(source),
            walked_stores(source).len() as int,
            config.max_records_payload_bytes,
            limits,
        ) is Err ==> r is Err,
        r matches Ok(done) ==> done.records_emitted == (gathered(
            walked_stores(source),
            walked_stores(source).len() as int,
            config.max_records_payload_bytes,
            limits,
        )->Ok_0.emitted) as usize && done.named_stores_walked == durable_stores(
            source.named@,
        ).len() as usize && records == gathered(
            walked_stores(source),
            walked_stores(source).len() as int,
            config.max_records_payload_bytes,
            limits,
        )->Ok_0.staged,
{
}

} // verus!
