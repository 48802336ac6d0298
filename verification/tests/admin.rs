use inf_server::admin::command::{command_introspection, CommandMeta, KeySpec};
use inf_server::admin::conn::{client, debug, hello, ClientStep};
use inf_server::admin::facts::{
    DbCount, DiskFull, InfoFacts, PathCache, TierNsFacts, TripwireNames, WorstAmp, WriteAccounting,
};
use inf_server::admin::host::{process_cpu_words, process_rss_bytes};
use inf_server::admin::info::{info, publish_and_total_memory};
use inf_server::admin::lines::human_bytes;
use inf_server::admin::ns::{
    apply_ns_set, default_db_index, inf_ns, next_local_ns_id, ns_reply, NsApply, NsEntry,
    NsSetUpdate, NsStep,
};
use inf_server::admin::resp::{Protocol, RespWriter};
use inf_server::admin::sections;
use inf_server::admin::settings::{config, push_pressure, ConfigStep};
use inf_server::clients::ClientRegistry;
use inf_server::config::ConfigStore;
use inf_server::control::boards::{MemoryBoard, MemoryGauges};
use inf_server::namespace::{EvictionPolicy, NsError, NsMode, NsSpec, TierIoMode, TierSpec};

fn reply(w: &RespWriter) -> String {
    String::from_utf8(w.out.clone()).expect("text")
}

fn run_config(store: &mut ConfigStore, argv: &[&[u8]]) -> (ConfigStep, String) {
    let mut w = RespWriter::new(Protocol::Resp2);
    let step = config(argv, store, &mut w);
    (step, reply(&w))
}

fn numbers(argv: &[&[u8]]) -> Vec<Option<i64>> {
    argv.iter()
        .map(|a| core::str::from_utf8(a).ok().and_then(|s| s.parse::<i64>().ok()))
        .collect()
}

fn run_client(registry: &mut ClientRegistry, argv: &[&[u8]]) -> (ClientStep, String) {
    let mut w = RespWriter::new(Protocol::Resp2);
    let step = client(argv, &numbers(argv), 1, 0, registry, &mut w);
    (step, reply(&w))
}

const NAMES: TripwireNames = TripwireNames {
    cmds_per_iter: "cmds_per_iter",
    conn_state_bytes: "conn_state_bytes",
    cqes_per_reap: "cqes_per_reap",
    doc_arena_bytes: "doc_arena_bytes",
    doc_intern_bytes: "doc_intern_bytes",
    doc_path_cache_bytes: "doc_path_cache_bytes",
    doc_resident_bytes: "doc_resident_bytes",
    doc_scratch_bytes: "doc_scratch_bytes",
    doc_slack_bytes: "doc_slack_bytes",
    doc_tape_bytes: "doc_tape_bytes",
    evict_bytes: "evict_bytes",
    fabric_msgs_per_batch: "fabric_msgs_per_batch",
    index_bytes: "index_bytes",
    loop_iter_p999_us: "loop_iter_p999_us",
    process_rss: "process_rss",
    records_live_bytes: "records_live_bytes",
    records_slack_bytes: "records_slack_bytes",
    sqes_per_submit: "sqes_per_submit",
    wheel_bytes: "wheel_bytes",
    wire_buffers_bytes: "wire_buffers_bytes",
};

fn facts() -> InfoFacts {
    InfoFacts { names: NAMES, ..InfoFacts::default() }
}

fn run_info(f: &InfoFacts, argv: &[&[u8]]) -> String {
    let mut w = RespWriter::new(Protocol::Resp2);
    info(argv, f, &ConfigStore::default(), &mut w);
    reply(&w)
}

fn run_scoped(f: &InfoFacts, argv: &[&[u8]]) -> String {
    let mut w = RespWriter::new(Protocol::Resp2);
    sections::info(argv, f, &ConfigStore::default(), &mut w);
    reply(&w)
}

#[test]
fn config_get_set_roundtrip() {
    let mut store = ConfigStore::default();
    assert_eq!(
        run_config(&mut store, &[b"CONFIG", b"GET", b"maxmemory"]).1,
        "*2\r\n$9\r\nmaxmemory\r\n$1\r\n0\r\n"
    );
    assert_eq!(
        run_config(&mut store, &[b"CONFIG", b"SET", b"maxmemory", b"100mb"]),
        (ConfigStep::PushPressure, "+OK\r\n".to_string())
    );
    assert_eq!(
        run_config(&mut store, &[b"CONFIG", b"GET", b"maxmemory"]).1,
        "*2\r\n$9\r\nmaxmemory\r\n$9\r\n104857600\r\n"
    );
    let (_, reply) = run_config(&mut store, &[b"CONFIG", b"SET", b"databases", b"32"]);
    assert!(reply.starts_with("-ERR CONFIG SET failed"), "{reply:?}");
}

#[test]
fn config_set_stores_all_pairs_or_none() {
    let mut store = ConfigStore::default();
    let (step, reply) = run_config(
        &mut store,
        &[b"CONFIG", b"SET", b"maxmemory", b"1mb", b"databases", b"32"],
    );
    assert_eq!(step, ConfigStep::Replied);
    assert!(reply.starts_with("-ERR CONFIG SET failed"), "{reply:?}");
    assert_eq!(store.get("maxmemory"), Some("0"));
    let (step, _) = run_config(
        &mut store,
        &[b"CONFIG", b"SET", b"maxmemory", b"1mb", b"maxmemory-policy", b"allkeys-lru"],
    );
    assert_eq!(step, ConfigStep::PushPressure);
    assert_eq!(store.get("maxmemory"), Some("1048576"));
    assert_eq!(store.get("maxmemory-policy"), Some("allkeys-lru"));
    assert_eq!(
        run_config(&mut store, &[b"CONFIG", b"RESETSTAT"]),
        (ConfigStep::ResetStats, "+OK\r\n".to_string())
    );
    let (_, reply) = run_config(&mut store, &[b"CONFIG", b"NOPE"]);
    assert!(reply.contains("'NOPE'"), "{reply:?}");
    let (_, reply) = run_config(&mut store, &[b"CONFIG", b"\xff"]);
    assert!(reply.contains('\u{fffd}'), "{reply:?}");
}

#[test]
fn node_budgets_divide_by_the_cells() {
    let mut store = ConfigStore::default();
    store.set(b"maxmemory", b"10mb").unwrap();
    store.set(b"maxmemory-policy", b"volatile-ttl").unwrap();
    let pressure = push_pressure(&store, 4, 1 << 40);
    assert_eq!(pressure.shares, 4);
    assert_eq!(pressure.limit_bytes, (10 << 20) / 4);
    assert_eq!(pressure.policy, EvictionPolicy::VolatileTtl);
    assert_eq!(push_pressure(&store, 0, 1 << 40).shares, 1);
    assert_eq!(push_pressure(&store, 0, 1 << 40).limit_bytes, 10 << 20);
}

#[test]
fn client_name_and_kill_flow() {
    let mut registry = ClientRegistry::default();
    assert_eq!(run_client(&mut registry, &[b"CLIENT", b"ID"]).1, ":1\r\n");
    // No name yet: null, not an empty bulk.
    assert_eq!(run_client(&mut registry, &[b"CLIENT", b"GETNAME"]).1, "$-1\r\n");
    assert_eq!(run_client(&mut registry, &[b"CLIENT", b"SETNAME", b"worker-1"]).1, "+OK\r\n");
    assert_eq!(run_client(&mut registry, &[b"CLIENT", b"GETNAME"]).1, "$8\r\nworker-1\r\n");
    let (_, reply) = run_client(&mut registry, &[b"CLIENT", b"SETNAME", b"has space"]);
    assert!(reply.starts_with("-ERR Client names"), "{reply:?}");
    // Kill marks the registry; the plane sweeps it.
    assert_eq!(run_client(&mut registry, &[b"CLIENT", b"KILL", b"ID", b"1"]).1, ":1\r\n");
    assert_eq!(registry.take_kill_requests(), vec![1]);
    assert_eq!(run_client(&mut registry, &[b"CLIENT", b"KILL", b"ID", b"99"]).1, ":0\r\n");
    let (_, text) = run_client(&mut registry, &[b"CLIENT", b"LIST"]);
    assert!(text.contains("id=1"), "{text}");
    assert!(text.contains("name=worker-1"), "{text}");
    assert!(text.contains("resp=2"), "{text}");
}

#[test]
fn client_subcommands_report_their_arity() {
    let mut registry = ClientRegistry::default();
    let (step, _) = run_client(&mut registry, &[b"CLIENT", b"SETNAME"]);
    assert!(matches!(step, ClientStep::Arity(_)), "{step:?}");
    let (step, reply) = run_client(&mut registry, &[b"CLIENT", b"NOPE"]);
    assert!(matches!(step, ClientStep::Replied));
    assert!(reply.starts_with("-ERR"), "{reply:?}");
}

#[test]
fn hello_switches_the_protocol() {
    let mut registry = ClientRegistry::default();
    let mut w = RespWriter::new(Protocol::Resp2);
    hello(2, Some(3), 7, 0, &mut registry, &mut w);
    assert_eq!(w.proto, Protocol::Resp3);
    assert!(reply(&w).starts_with("%7\r\n$6\r\nserver\r\n"), "{}", reply(&w));
    assert!(reply(&w).contains("$5\r\nproto\r\n:3\r\n$2\r\nid\r\n:7\r\n"), "{}", reply(&w));
    assert_eq!(registry.get(7).expect("registered").resp, 3);

    let mut w = RespWriter::new(Protocol::Resp2);
    hello(2, Some(4), 7, 0, &mut registry, &mut w);
    assert_eq!(reply(&w), "-NOPROTO unsupported protocol version\r\n");
    assert_eq!(registry.get(7).expect("registered").resp, 3);

    let mut w = RespWriter::new(Protocol::Resp2);
    hello(1, None, 8, 0, &mut registry, &mut w);
    assert!(reply(&w).starts_with("*14\r\n$6\r\nserver\r\n"), "{}", reply(&w));
}

#[test]
fn debug_answers_without_side_effects() {
    let run = |argv: &[&[u8]], sleepable: bool, object: Option<(&str, u64)>| {
        let mut w = RespWriter::new(Protocol::Resp2);
        debug(argv, sleepable, object, &mut w);
        reply(&w)
    };
    assert_eq!(run(&[b"DEBUG", b"SLEEP", b"0.1"], true, None), "+OK\r\n");
    assert_eq!(run(&[b"DEBUG", b"SLEEP", b"x"], false, None), "-ERR value is not a valid float\r\n");
    assert_eq!(run(&[b"DEBUG", b"JMAP"], false, None), "+OK\r\n");
    assert_eq!(run(&[b"DEBUG", b"OBJECT", b"k"], false, None), "-ERR no such key\r\n");
    assert_eq!(
        run(&[b"DEBUG", b"OBJECT", b"k"], false, Some(("embstr", 5))),
        "+Value at:0x0 refcount:1 encoding:embstr serializedlength:5 lru:0 lru_seconds_idle:0\r\n"
    );
}

#[test]
fn info_sections_filter() {
    let mut f = facts();
    f.store.dbs.push(DbCount { db: 0, keys: 1, expires: 0 });
    f.memory.dbs.push(DbCount { db: 0, keys: 1, expires: 0 });
    let all = run_info(&f, &[b"INFO"]);
    for section in ["# Server", "# Clients", "# Memory", "# Stats", "# Replication", "# Keyspace"] {
        assert!(all.contains(section), "missing {section}: {all}");
    }
    assert!(all.contains("db0:keys=1,expires=0"), "{all}");
    let server_only = run_info(&f, &[b"INFO", b"server"]);
    assert!(server_only.contains("# Server"));
    assert!(!server_only.contains("# Memory"), "{server_only}");
    assert_eq!(run_info(&f, &[b"INFO", b"server", b"ALL"]), all);
    assert_eq!(run_info(&f, &[b"INFO", b"Everything", b"server"]), all);
    assert_eq!(run_info(&f, &[b"INFO", b"server", b"nosuchsection"]), server_only);
}

#[test]
fn scoped_info_renders_nothing_for_an_unknown_section() {
    let f = facts();
    assert_eq!(run_scoped(&f, &[b"INFO", b"nope"]), "$0\r\n\r\n");
    assert_eq!(run_info(&f, &[b"INFO", b"nosuchsection"]), "$0\r\n\r\n");
    assert_eq!(run_info(&f, &[b"INFO", b"loophist", b"nope"]), "$0\r\n\r\n");
    let text = run_scoped(&f, &[b"INFO", b"memory"]);
    assert!(text.contains("# Memory"), "{text}");
    assert!(!text.contains("# Server"), "{text}");
}

#[test]
fn info_exposes_every_document_and_tripwire_domain() {
    let mut f = facts();
    f.store.path_cache = Some(PathCache { hits: 1, misses: 2, evictions: 3 });
    let memory = run_info(&f, &[b"INFO", b"memory"]);
    for name in [
        "doc_tape_bytes",
        "doc_arena_bytes",
        "doc_resident_bytes",
        "doc_intern_bytes",
        "doc_slack_bytes",
        "doc_scratch_bytes",
        "doc_path_cache_bytes",
        "docs_live",
    ] {
        assert!(memory.contains(&format!("{name}:")), "missing {name}: {memory}");
    }
    let tripwires = run_info(&f, &[b"INFO", b"tripwires"]);
    for name in [
        NAMES.cmds_per_iter,
        NAMES.conn_state_bytes,
        NAMES.cqes_per_reap,
        NAMES.doc_arena_bytes,
        NAMES.doc_intern_bytes,
        NAMES.doc_path_cache_bytes,
        NAMES.doc_resident_bytes,
        NAMES.doc_scratch_bytes,
        NAMES.doc_slack_bytes,
        NAMES.doc_tape_bytes,
        NAMES.evict_bytes,
        NAMES.fabric_msgs_per_batch,
        NAMES.index_bytes,
        NAMES.loop_iter_p999_us,
        NAMES.process_rss,
        NAMES.records_live_bytes,
        NAMES.records_slack_bytes,
        NAMES.sqes_per_submit,
        NAMES.wheel_bytes,
        NAMES.wire_buffers_bytes,
    ] {
        assert!(tripwires.contains(&format!("{name}:")), "missing {name}: {tripwires}");
    }
}

/// With a memory board wired, the memory section folds every cell's
/// publication; without one it renders and labels the cell's.
#[test]
fn info_memory_aggregates_across_cells_via_the_board() {
    let local = MemoryGauges { used_bytes: 500, ..MemoryGauges::default() };
    let mut f = facts();
    let (node_scope, gauges) = publish_and_total_memory(None, 0, local);
    f.memory.node_scope = node_scope;
    f.memory.gauges = gauges;
    let bare = run_info(&f, &[b"INFO", b"memory"]);
    assert!(bare.contains("memory_scope:cell"), "{bare}");

    let mut board = MemoryBoard::new(2);
    board.slot_mut(1).publish(MemoryGauges {
        used_bytes: 1_000,
        docs_live: 41,
        ..MemoryGauges::default()
    });
    let (node_scope, gauges) = publish_and_total_memory(Some(&mut board), 0, local);
    f.memory.node_scope = node_scope;
    f.memory.gauges = gauges;
    let noded = run_info(&f, &[b"INFO", b"memory"]);
    assert!(noded.contains("memory_scope:node"), "{noded}");
    assert!(noded.contains("docs_live:41"), "peer docs fold into the total: {noded}");
    // The serving cell published its own slot: the totals exceed the peer's
    // contribution alone.
    assert!(board.totals().used_bytes > 1_000, "serving cell published its slot");
    assert_eq!(board.totals().used_bytes, 1_500);
}

/// On a memory-mode node the section renders in full, every `tiering_*`
/// field is zero, and no namespace has a line.
#[test]
fn info_tiering_is_all_zero_without_a_tiered_namespace() {
    let text = run_info(&facts(), &[b"INFO", b"tiering"]);
    assert!(text.contains("# Tiering"), "{text}");
    for line in text.lines().filter(|l| l.starts_with("tiering_")) {
        let (name, value) = line.split_once(':').expect("key:value shape");
        assert_eq!(value, "0", "{name} must be zero on a memory-mode node");
    }
    for name in [
        "tiering_user_bytes",
        "tiering_wal_bytes",
        "tiering_flush_bytes",
        "tiering_compaction_bytes",
        "tiering_written_bytes",
        "tiering_write_amp_milli_max",
        "tiering_write_amp_undefined_ns",
        "tiering_blob_user_bytes",
        "tiering_blob_bytes",
        "tiering_blob_extents_live",
        "tiering_blob_extents_created",
        "tiering_blob_extents_reclaimed",
        "tiering_blob_reclaim_slices",
        "tiering_blob_rmw_ops",
        "tiering_blob_write_amp_milli_max",
        "tiering_blob_write_amp_undefined_ns",
        "tiering_blob_reclaimable",
        "tiering_blob_reclaim_deferred",
        "tiering_promotions",
        "tiering_promoted_bytes",
        "tiering_promote_first_touch",
        "tiering_promote_skip_window",
        "tiering_promote_skip_pinned",
        "tiering_promote_skip_disk",
        "tiering_promote_skip_stale",
        "tiering_promote_skip_cap",
        "tiering_promote_filter_bytes",
        "tiering_shadow_enabled",
        "tiering_shadow_created",
        "tiering_shadow_pending",
        "tiering_shadow_pinned_bytes",
        "tiering_shadow_fallback_pin",
        "tiering_shadow_fallback_fence",
        "tiering_shadow_fallback_ticketed",
        "tiering_shadow_verified_pending",
        "tiering_shadow_dbsize_drains",
        "tiering_shadow_rebuild_reads",
        "tiering_shadow_scan_twins_emitted",
        "tiering_shadow_bytes",
    ] {
        assert!(text.contains(&format!("{name}:0")), "missing {name}: {text}");
    }
}

/// A tiered namespace publishes its watermarks, its budget and its write
/// counters on one line.
#[test]
fn info_tiering_renders_per_namespace_watermarks_and_write_counters() {
    let mut f = facts();
    f.store.tables = 1;
    f.store.write = WriteAccounting { user_bytes: 8, ..WriteAccounting::default() };
    f.store.namespaces.push(TierNsFacts { id: 17, user_bytes: 8, ..TierNsFacts::default() });

    let text = run_info(&f, &[b"INFO", b"tiering"]);
    let line = text
        .lines()
        .find(|l| l.starts_with("tiering_ns17:"))
        .expect("the tiered namespace has a line");
    for field in ["head=", "flushed=", "ro_boundary=", "tail=", "committed_bytes=", "budget_bytes="]
    {
        assert!(line.contains(field), "missing {field}: {line}");
    }
    assert!(line.contains("user_bytes=8"), "{line}");
    assert!(line.contains("wal_bytes=0"), "no WAL record was staged: {line}");
    assert!(text.contains("tiering_user_bytes:8"), "the aggregate sums the lines: {text}");
    assert!(text.contains("tiering_tables:1"), "{text}");
}

/// With a tiered namespace live, the RAM-hit percentiles are absent, replaced
/// by a named disclosure.
#[test]
fn info_tiering_ram_hit_split_renders_absent_not_zero_when_tiered() {
    let mut f = facts();
    f.store.tables = 1;
    f.store.namespaces.push(TierNsFacts { id: 23, ..TierNsFacts::default() });
    let text = run_info(&f, &[b"INFO", b"tiering"]);
    for absent in ["tiering_ram_hit_p50_us:", "tiering_ram_hit_p99_us:", "tiering_ram_hit_p999_us:"]
    {
        assert!(!text.contains(absent), "{absent} must be absent, not zero: {text}");
    }
    assert!(text.contains("tiering_ram_hit_split:unmeasured-iteration-clock"), "{text}");
    // The cold half of the split still renders numerically.
    assert!(text.contains("tiering_cold_p99_us:"), "{text}");
    assert!(text.contains("cold_pool_dry:0"), "{text}");
    assert!(text.contains("cold_queue_full:0"), "{text}");
}

#[test]
fn info_persistence_renders_admission_busy_refusals() {
    let mut f = facts();
    f.node.log_admission_busy = 31_260_000;
    let text = run_info(&f, &[b"INFO", b"persistence"]);
    assert!(text.contains("log_admission_busy:31260000"), "{text}");
}

#[test]
fn info_tripwires_renders_recycle_pool_bytes() {
    let mut f = facts();
    f.node.reply_pool_bytes = 4096 * 100;
    f.node.cmd_pool_bytes = 4096 * 7;
    f.node.cold_pool_bytes = 1 << 24;
    let text = run_info(&f, &[b"INFO", b"tripwires"]);
    assert!(text.contains("reply_pool_bytes:409600"), "{text}");
    assert!(text.contains("cmd_pool_bytes:28672"), "{text}");
    assert!(text.contains("cold_pool_bytes:16777216"), "{text}");
}

/// A namespace line carries its write-amplification ratio, the aggregate is
/// the maximum, and a namespace without a denominator says so and is counted.
#[test]
fn info_tiering_reports_write_amplification_per_namespace() {
    let expect_milli = 1_382u64;
    let mut f = facts();
    f.store.tables = 2;
    f.store.amp = WorstAmp { milli_max: expect_milli, unbounded_namespaces: 1 };
    f.store.namespaces.push(TierNsFacts {
        id: 7,
        write_amp_milli: Some(expect_milli),
        ..TierNsFacts::default()
    });
    f.store.namespaces.push(TierNsFacts { id: 9, ..TierNsFacts::default() });

    let text = run_info(&f, &[b"INFO", b"tiering"]);
    let ns7 = text.lines().find(|l| l.starts_with("tiering_ns7:")).expect("ns 7 line");
    let ns9 = text.lines().find(|l| l.starts_with("tiering_ns9:")).expect("ns 9 line");
    assert!(ns7.contains(&format!("write_amp_milli={expect_milli}")), "{ns7}");
    assert!(ns9.contains("write_amp_milli=undefined"), "no denominator: {ns9}");
    assert!(
        text.contains(&format!("tiering_write_amp_milli_max:{expect_milli}")),
        "the aggregate is the worst measured namespace: {text}"
    );
    assert!(
        text.contains("tiering_write_amp_undefined_ns:1"),
        "the unbounded namespace is counted, not averaged: {text}"
    );
}

/// A namespace line splits the blob leg out as its own ratio.
#[test]
fn info_tiering_splits_the_blob_write_amplification_leg() {
    let expect_milli = 1_021u64;
    let mut f = facts();
    f.store.tables = 1;
    f.store.blob_amp = WorstAmp { milli_max: expect_milli, unbounded_namespaces: 0 };
    f.store.namespaces.push(TierNsFacts {
        id: 21,
        blob_user_bytes: 9_000,
        blob_write_amp_milli: Some(expect_milli),
        disk_full: DiskFull::Device,
        ..TierNsFacts::default()
    });

    let text = run_info(&f, &[b"INFO", b"tiering"]);
    let line = text.lines().find(|l| l.starts_with("tiering_ns21:")).expect("ns line");
    assert!(line.contains("blob_user_bytes=9000"), "{line}");
    assert!(line.contains(&format!("blob_write_amp_milli={expect_milli}")), "{line}");
    assert!(
        text.contains(&format!("tiering_blob_write_amp_milli_max:{expect_milli}")),
        "the aggregate is the worst blob namespace: {text}"
    );
    assert!(
        text.contains("tiering_blob_write_amp_undefined_ns:0"),
        "a namespace with blob activity has a denominator: {text}"
    );
}

const TIER: TierSpec = TierSpec {
    mem_budget_bytes: 8 << 20,
    disk_budget_bytes: 0,
    mutable_permille: 500,
    maintain_slice_bytes: 1 << 18,
    cold_read_qd: 32,
    compaction_dead_ratio_pct: 50,
    compaction_slice_bytes: 1 << 18,
    blob_threshold_bytes: 1 << 16,
    tier_io_mode: TierIoMode::Direct,
    tail_stall_timeout_ms: 500,
};

/// The namespaces of a node without the durable runtime.
struct Registry {
    entries: Vec<NsEntry>,
    config: ConfigStore,
}

impl Registry {
    fn new() -> Registry {
        Registry { entries: vec![], config: ConfigStore::default() }
    }

    fn add(&mut self, id: u32, name: &[u8], mode: NsMode, tier: Option<TierSpec>) {
        let spec = NsSpec {
            id,
            name: name.to_vec(),
            mode,
            fsync: None,
            policy: None,
            maxmemory: None,
            tier,
        };
        self.entries.push(NsEntry { spec, keys: 0, expires: 0 });
    }

    fn find(&mut self, name: &[u8]) -> Option<&mut NsEntry> {
        self.entries.iter_mut().find(|e| e.spec.name == name)
    }

    /// Runs a command and performs its step.
    fn run(&mut self, argv: &[&[u8]]) -> String {
        let mut w = RespWriter::new(Protocol::Resp2);
        match inf_ns(argv, &self.entries, &[(3, 1)], &self.config, TIER, &mut w) {
            NsStep::Replied | NsStep::UseDb(_) | NsStep::UseNs(_) => {}
            NsStep::Arity(name) => panic!("arity of {name}"),
            NsStep::Create(spec) => {
                let outcome = if spec.tier.is_some() {
                    Err(NsError::TierRequiresDurable)
                } else if self.find(&spec.name).is_some() {
                    Err(NsError::Exists)
                } else {
                    self.entries.push(NsEntry { spec, keys: 0, expires: 0 });
                    Ok(())
                };
                ns_reply(&outcome, &mut w);
            }
            NsStep::Update { name, update } => {
                let entry = self.find(&name).expect("found");
                let outcome = match apply_ns_set(update) {
                    NsApply::SetTier(tier) if tier.compaction_dead_ratio_pct < 50 => {
                        let reason = "COMPACTION-DEAD-RATIO is 50..=100";
                        Err(NsError::InvalidTierConfig(reason.to_string()))
                    }
                    NsApply::SetTier(tier) => {
                        entry.spec.tier = Some(tier);
                        Ok(())
                    }
                    NsApply::SetMemory { policy, maxmemory } => {
                        entry.spec.policy = policy;
                        entry.spec.maxmemory = maxmemory;
                        Ok(())
                    }
                };
                ns_reply(&outcome, &mut w);
            }
            NsStep::Drop { name } => {
                let before = self.entries.len();
                self.entries.retain(|e| e.spec.name != name);
                let gone = self.entries.len() < before;
                ns_reply(&if gone { Ok(()) } else { Err(NsError::Unknown) }, &mut w);
            }
        }
        reply(&w)
    }
}

/// Tier keys need durable mode and a budget; they hot-reload, but for the
/// create-only ones, and read back whole.
#[test]
fn inf_ns_tiering_surface() {
    let mut store = Registry::new();
    // Tier keys without MEM-BUDGET refuse.
    let r = store.run(&[b"INF.NS", b"CREATE", b"t", b"MODE", b"durable", b"DISK-BUDGET", b"1gb"]);
    assert!(r.starts_with("-ERR tiering keys require MEM-BUDGET"), "{r:?}");
    // MEM-BUDGET on MODE memory is refused by the registry.
    let r = store.run(&[b"INF.NS", b"CREATE", b"t", b"MEM-BUDGET", b"64mb"]);
    assert!(r.starts_with("-ERR tiering keys (MEM-BUDGET ...) apply to MODE durable"), "{r:?}");
    // A tiered durable create parses, but the node runtime owns it.
    let r = store.run(&[b"INF.NS", b"CREATE", b"t", b"MODE", b"durable", b"MEM-BUDGET", b"64mb"]);
    assert!(r.starts_with("-ERR durable namespaces need the node runtime"), "{r:?}");

    store.add(16, b"tiered", NsMode::Durable, Some(TIER));
    assert_eq!(store.run(&[b"INF.NS", b"USE", b"tiered"]), "+OK\r\n");
    let r = store.run(&[b"INF.NS", b"SET", b"tiered", b"MUTABLE-FRACTION", b"300"]);
    assert_eq!(r, "+OK\r\n");
    assert_eq!(
        store.find(b"tiered").expect("found").spec.tier.expect("tiered").mutable_permille,
        300
    );
    let r = store.run(&[b"INF.NS", b"SET", b"tiered", b"TIER-IO-MODE", b"buffered"]);
    assert!(r.starts_with("-ERR TIER-IO-MODE is create-only"), "{r:?}");
    let r = store.run(&[b"INF.NS", b"SET", b"tiered", b"COMPACTION-DEAD-RATIO", b"10"]);
    assert!(r.starts_with("-ERR COMPACTION-DEAD-RATIO is 50..=100"), "{r:?}");
    // INFO reads the whole tier block back, key for key.
    let text = store.run(&[b"INF.NS", b"INFO", b"tiered"]);
    for field in [
        "mem-budget",
        "disk-budget",
        "mutable-fraction",
        "cold-read-qd",
        "compaction-dead-ratio",
        "blob-threshold",
        "tier-io-mode",
        "tail-stall-timeout",
    ] {
        assert!(text.contains(field), "missing {field}: {text}");
    }
    assert!(text.contains("300"), "the reloaded fraction renders: {text}");
    // The pressure keys refuse on a tiered namespace.
    let r = store.run(&[b"INF.NS", b"SET", b"tiered", b"MAXMEMORY", b"1mb"]);
    assert!(r.starts_with("-ERR MAXMEMORY does not apply to tiered namespaces"), "{r:?}");
}

/// `MAXMEMORY` and `EVICTION` hot-reload on memory namespaces only.
#[test]
fn inf_ns_memory_pressure_surface() {
    let mut store = Registry::new();
    let r = store.run(&[b"INF.NS", b"CREATE", b"cache", b"EVICTION", b"allkeys-random"]);
    assert_eq!(r, "+OK\r\n");
    let r = store.run(&[
        b"INF.NS",
        b"SET",
        b"cache",
        b"MAXMEMORY",
        b"1mb",
        b"EVICTION",
        b"allkeys-lru",
    ]);
    assert_eq!(r, "+OK\r\n");
    let text = store.run(&[b"INF.NS", b"INFO", b"cache"]);
    assert!(text.contains("allkeys-lru"), "{text}");
    assert!(text.contains("1048576"), "{text}");
    assert_eq!(store.find(b"cache").expect("found").spec.maxmemory, Some(1 << 20));
    // `inherit` and `0` return the knobs to the node's.
    let r = store.run(&[
        b"INF.NS", b"SET", b"cache", b"MAXMEMORY", b"0", b"EVICTION", b"inherit",
    ]);
    assert_eq!(r, "+OK\r\n");
    assert_eq!(store.find(b"cache").expect("found").spec.maxmemory, None);
    let text = store.run(&[b"INF.NS", b"INFO", b"cache"]);
    assert!(text.contains("inherit"), "{text}");
    // Tier keys on a memory namespace answer the create-time rule.
    let r = store.run(&[b"INF.NS", b"SET", b"cache", b"MEM-BUDGET", b"8mb"]);
    assert!(r.starts_with("-ERR not a tiered namespace"), "{r:?}");
    // Durable namespaces refuse both keys.
    store.add(31, b"ledger", NsMode::Durable, None);
    let r = store.run(&[b"INF.NS", b"SET", b"ledger", b"MAXMEMORY", b"1mb"]);
    assert!(r.starts_with("-ERR durable namespaces do not evict"), "{r:?}");
}

#[test]
fn namespaces_are_listed_dropped_and_numbered() {
    let mut store = Registry::new();
    assert_eq!(next_local_ns_id(&store.entries), 16);
    assert_eq!(store.run(&[b"INF.NS", b"CREATE", b"a"]), "+OK\r\n");
    assert_eq!(store.find(b"a").expect("created").spec.id, 16);
    store.add(31, b"ledger", NsMode::Durable, None);
    assert_eq!(next_local_ns_id(&store.entries), 32);
    let text = store.run(&[b"INF.NS", b"LIST"]);
    assert!(text.starts_with("*18\r\n$3\r\ndb0\r\n$3\r\ndb1\r\n"), "{text}");
    assert!(text.ends_with("$1\r\na\r\n$6\r\nledger\r\n"), "{text}");
    let text = store.run(&[b"INF.NS", b"INFO", b"db0"]);
    assert!(text.starts_with("*12\r\n"), "{text}");
    assert!(text.contains("$4\r\nkeys\r\n"), "{text}");
    assert_eq!(store.run(&[b"INF.NS", b"DROP", b"a"]), "+OK\r\n");
    assert_eq!(store.run(&[b"INF.NS", b"DROP", b"a"]), "-ERR namespace not found\r\n");
    let r = store.run(&[b"INF.NS", b"USE", b"a"]);
    assert!(r.starts_with("-ERR"), "{r:?}");
    assert_eq!(default_db_index(b"db15"), Some(15));
    assert_eq!(default_db_index(b"db16"), None);
    assert_eq!(default_db_index(b"dbx"), None);
    assert!(matches!(
        apply_ns_set(NsSetUpdate::Tier(TIER)),
        NsApply::SetTier(tier) if tier == TIER
    ));
}

const TABLE: [CommandMeta; 3] = [
    CommandMeta {
        name: "command",
        arity: -1,
        readonly: false,
        write: false,
        denyoom: false,
        admin: false,
        fast: false,
        keys: KeySpec { first: 0, last: 0, step: 0 },
    },
    CommandMeta {
        name: "mset",
        arity: -3,
        readonly: false,
        write: true,
        denyoom: true,
        admin: false,
        fast: false,
        keys: KeySpec { first: 1, last: -1, step: 2 },
    },
    CommandMeta {
        name: "ping",
        arity: -1,
        readonly: true,
        write: false,
        denyoom: false,
        admin: false,
        fast: true,
        keys: KeySpec { first: 0, last: 0, step: 0 },
    },
];

fn run_command(argv: &[&[u8]]) -> String {
    let found: Vec<Option<usize>> = argv
        .iter()
        .map(|a| TABLE.iter().position(|m| m.name.as_bytes().eq_ignore_ascii_case(a)))
        .collect();
    let mut w = RespWriter::new(Protocol::Resp2);
    command_introspection(argv, &TABLE, &found, true, &mut w);
    reply(&w)
}

#[test]
fn command_introspection_shapes() {
    let count = run_command(&[b"COMMAND", b"COUNT"]);
    assert_eq!(count, format!(":{}\r\n", TABLE.len()));
    let getkeys =
        run_command(&[b"COMMAND", b"GETKEYS", b"MSET", b"k1", b"v1", b"k2", b"v2"]);
    assert_eq!(getkeys, "*2\r\n$2\r\nk1\r\n$2\r\nk2\r\n");
    let nokeys = run_command(&[b"COMMAND", b"GETKEYS", b"PING"]);
    assert!(nokeys.starts_with("-ERR The command has no key arguments"), "{nokeys:?}");
}

#[test]
fn command_rows_carry_flags_and_key_positions() {
    let rows = run_command(&[b"COMMAND"]);
    assert!(rows.starts_with("*3\r\n"), "{rows}");
    assert!(rows.contains("$4\r\nping\r\n:-1\r\n*2\r\n+readonly\r\n+fast\r\n"), "{rows}");
    let missing = run_command(&[b"COMMAND", b"INFO", b"nope"]);
    assert_eq!(missing, "*1\r\n*-1\r\n");
}

#[test]
fn sizes_round_as_a_float_prints() {
    let expected = |bytes: u64| {
        for (suffix, scale) in [("G", 1u64 << 30), ("M", 1 << 20), ("K", 1 << 10)] {
            if bytes >= scale {
                return format!("{:.2}{suffix}", bytes as f64 / scale as f64);
            }
        }
        format!("{bytes}B")
    };
    let mut samples = vec![0, 1, 1023, 1024, 1029, 1030, 1035, 1536, 1 << 20, (1 << 20) + 5243];
    for shift in [31u32, 40, 52, 53, 54, 60, 63] {
        for delta in [0u64, 1, 3, 5_368_709, 1_234_567_891] {
            samples.push((1u64 << shift) + delta);
            samples.push((1u64 << shift) - 1 - delta);
        }
    }
    samples.push(u64::MAX);
    let mut seed = 0x9e37_79b9_7f4a_7c15u64;
    for shift in 0..400u32 {
        seed = seed.wrapping_mul(6_364_136_223_846_793_005).wrapping_add(1_442_695_040_888_963_407);
        samples.push(seed >> (shift % 60));
    }
    for bytes in samples {
        assert_eq!(human_bytes(bytes), expected(bytes), "{bytes}");
    }
}

#[test]
fn process_figures_are_read_off_procfs_text() {
    let status = "Name:\tx\nVmPeak:\t  99 kB\nVmRSS:\t   1234 kB\nThreads:\t1\n";
    assert_eq!(process_rss_bytes(status), 1234 * 1024);
    assert_eq!(process_rss_bytes("Name:\tx\n"), 0);
    assert_eq!(process_rss_bytes("VmRSS:\tmany kB\n"), 0);
    assert_eq!(process_rss_bytes("VmRSS:\u{2003}7\u{85}kB\n"), 7 * 1024, "white space is Unicode's");
    let stat = "42 (a) b) S 1 2 3 4 5 6 7 8 9 10 77 88 0\n";
    assert_eq!(process_cpu_words(stat), Some((Some("77"), Some("88"))));
    assert_eq!(process_cpu_words("42 (a) S 1"), Some((None, None)));
    assert_eq!(process_cpu_words("no parenthesis"), None);
}
