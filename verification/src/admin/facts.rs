//! What `INFO` renders: the gauges of a cell, its keyspace and its host.

use vstd::prelude::*;
use crate::control::boards::{MemoryGauges, RecoverPhases};
use crate::durable::gauges::IoProvenance;

verus! {

/// Which fields a reply carries and under which names. The scoped layout
/// names the scope of every fold and gives no name two scopes.
#[derive(Copy, Clone, Debug, PartialEq, Eq, Structural)]
pub enum Layout {
    Plain,
    Scoped,
}

/// One class of the device budget.
#[derive(Debug, Default)]
pub struct ClassBudget {
    pub name: String,
    pub bytes: u64,
    pub ops: u64,
    pub deferrals: u64,
}

/// This cell's gauges.
#[derive(Debug, Default)]
pub struct NodeGauges {
    pub cell: u16,
    pub cells: u16,
    pub tcp_port: u16,
    pub rng_state: u64,
    pub run_id: [u64; 3],
    pub tripwires: [u64; 5],
    pub raw_counters: [u64; 6],
    pub tiering_split: [u64; 15],
    pub tier_flush: [u64; 9],
    pub io_budget: Vec<ClassBudget>,
    pub recover_phases: RecoverPhases,
    pub io_provenance: IoProvenance,
    pub blind_overwrites_ceiling: Option<u64>,
    pub accept_errors: u64,
    pub accounted_host_write_bytes: u64,
    pub acks_per_sec: u64,
    pub barrier_class_degraded: u64,
    pub barrier_class_fua: u64,
    pub ckpt_age_s: u64,
    pub ckpt_bound_splits: u64,
    pub ckpt_buffer_bytes: u64,
    pub ckpt_bytes_last: u64,
    pub ckpt_bytes_total: u64,
    pub ckpt_cap_bytes: u64,
    pub ckpt_in_progress: u64,
    pub ckpt_interval_bytes: u64,
    pub ckpt_io_mode_buffered: u64,
    pub ckpt_last_begin_lsn: u64,
    pub ckpt_last_unix_ms: u64,
    pub ckpt_padding_bytes: u64,
    pub ckpt_records_since_begin: u64,
    pub ckpt_replay_bytes_per_s: u64,
    pub ckpt_walks_behind: u64,
    pub ckpts_aborted: u64,
    pub ckpts_completed: u64,
    pub cmd_pool_bytes: u64,
    pub cob_disconnections: u64,
    pub cold_pool_bytes: u64,
    pub conn_state_bytes: u64,
    pub connections: u64,
    pub fabric_rtt_p50_ns: u64,
    pub fill_target_bytes: u64,
    pub fill_window_us: u64,
    pub flush_group_window_us: u64,
    pub frame_records_last: u64,
    pub frame_waits_barrier: u64,
    pub frame_waits_fill: u64,
    pub frame_waits_group: u64,
    pub frame_waits_pace: u64,
    pub frame_waits_reorder: u64,
    pub frame_waits_rotation: u64,
    pub frames_in_flight: u64,
    pub frames_in_flight_max: u64,
    pub fsync_group_p50: u64,
    pub fsync_group_p99: u64,
    pub fsync_p50_us: u64,
    pub fsync_p999_us: u64,
    pub fsync_p99_us: u64,
    pub fsyncs_completion: u64,
    pub fsyncs_fua: u64,
    pub fsyncs_linked: u64,
    pub fsyncs_per_sec: u64,
    pub fsyncs_seal: u64,
    pub fsyncs_standalone: u64,
    pub fua_p50_us: u64,
    pub fua_p99_us: u64,
    pub group_round_target: u64,
    pub idle_disconnections: u64,
    pub io_budget_model_absent: u64,
    pub io_budget_read_bytes_per_s: u64,
    pub io_budget_write_bytes_per_s: u64,
    pub io_class_configured_fua: u64,
    pub loading: u64,
    pub loading_cells_ready: u64,
    pub loading_loaded_bytes: u64,
    pub loading_start_unix_ms: u64,
    pub loading_total_bytes: u64,
    pub log_acks_gated: u64,
    pub log_admission_busy: u64,
    pub log_admission_oversized: u64,
    pub log_admission_parked: u64,
    pub log_admission_parked_total: u64,
    pub log_frame_bytes: u64,
    pub log_frames_queued: u64,
    pub log_fsyncs_completed: u64,
    pub log_last_durable_lsn: u64,
    pub log_padding_bytes: u64,
    pub log_pending_bytes: u64,
    pub log_records_appended: u64,
    pub log_segments_live: u64,
    pub log_staging_bytes: u64,
    pub log_staging_capacity: u64,
    pub log_watermark_lag: u64,
    pub log_write_stall_p50_us: u64,
    pub log_write_stall_p999_us: u64,
    pub log_write_stall_p99_us: u64,
    pub loop_snapshot_bytes: u64,
    pub manifest_bytes_total: u64,
    pub manifests_aborted: u64,
    pub manifests_published: u64,
    pub ns_drop_tombstones: u64,
    pub process_id: u64,
    pub pubsub_channels: u64,
    pub pubsub_delivered: u64,
    pub pubsub_fan_msgs: u64,
    pub pubsub_patterns: u64,
    pub pubsub_state_bytes: u64,
    pub rdb_last_save_ms: u64,
    pub recover_records: u64,
    pub recover_recycled_residue_slacks: u64,
    pub recover_replay_records: u64,
    pub recover_segment_residue_stops: u64,
    pub recover_stale_files_removed: u64,
    pub recover_stale_residue_slacks: u64,
    pub recv_dropped: u64,
    pub recycle_fallbacks: u64,
    pub recycle_misses: u64,
    pub recycle_pool_bytes: u64,
    pub recycle_pool_full: u64,
    pub recycle_sentinels: u64,
    pub recycle_wait_active_bytes_max: u64,
    pub recycle_waits_expired: u64,
    pub recycle_waits_satisfied: u64,
    pub recycle_waits_started: u64,
    pub rejected_connections: u64,
    pub reopened_packed_tails: u64,
    pub reply_pool_bytes: u64,
    pub rotations_unzeroed: u64,
    pub rotations_upgrade: u64,
    pub segment_inline_preallocs: u64,
    pub segment_prealloc_failures: u64,
    pub segment_preallocs: u64,
    pub segment_rotations: u64,
    pub segments_recycled: u64,
    pub segments_truncated: u64,
    pub shadow_fallback_staging: u64,
    pub total_connections: u64,
    pub wire_buffers_bytes: u64,
    pub write_amp_log_checkpoint_undefined: u64,
    pub write_amp_milli_accounted_host: u64,
    pub write_amp_milli_log_checkpoint: u64,
    pub zero_fill_bytes: u64,
}

/// Tiering code-path counters.
#[derive(Copy, Clone, Debug, Default, PartialEq, Eq, Structural)]
pub struct TieringCounters {
    pub cold_read_errors: u64,
    pub cold_resolves: u64,
    pub compact_slices: u64,
    pub demote_sealed_bytes: u64,
    pub demote_slices: u64,
    pub flush_confirmed_bytes: u64,
    pub flush_slices: u64,
    pub region_commit_pages: u64,
    pub region_decommit_pages: u64,
    pub seal_hole_bytes: u64,
    pub seal_holes: u64,
    pub tail_alloc_stalls: u64,
    pub tail_allocs: u64,
    pub write_replans: u64,
}

/// Read-promotion counters.
#[derive(Copy, Clone, Debug, Default, PartialEq, Eq, Structural)]
pub struct PromotionCounters {
    pub first_touch: u64,
    pub promoted_bytes: u64,
    pub promotions: u64,
    pub skip_cap: u64,
    pub skip_disk: u64,
    pub skip_pinned: u64,
    pub skip_stale: u64,
    pub skip_window: u64,
}

/// Shadow-slot counters and gauges.
#[derive(Copy, Clone, Debug, Default, PartialEq, Eq, Structural)]
pub struct ShadowCounters {
    pub bytes: u64,
    pub compaction_deferred: u64,
    pub created: u64,
    pub dbsize_drains: u64,
    pub dbsize_fence: u64,
    pub dbsize_reads: u64,
    pub deferred_origin: u64,
    pub deferred_walk: u64,
    pub delete_run_refused: u64,
    pub dropped_by_removal: u64,
    pub enabled: u64,
    pub exact_miss_inserts: u64,
    pub fallback_fence: u64,
    pub fallback_multi: u64,
    pub fallback_off: u64,
    pub fallback_origin: u64,
    pub fallback_pin: u64,
    pub fallback_ticketed: u64,
    pub fallback_tickets: u64,
    pub forced_by_delete: u64,
    pub pending: u64,
    pub pending_peak: u64,
    pub pin_cap_bytes: u64,
    pub pinned_bytes: u64,
    pub pinned_bytes_peak: u64,
    pub promote_skip: u64,
    pub read_errors: u64,
    pub reads_foreground: u64,
    pub reads_issued: u64,
    pub rebuild_over_cap: u64,
    pub rebuild_reads: u64,
    pub rebuild_settled_distinct: u64,
    pub rebuild_settled_same_key: u64,
    pub reconcile_paused: u64,
    pub resolved_collision: u64,
    pub resolved_same_key: u64,
    pub retargeted: u64,
    pub scan_twins_emitted: u64,
    pub settled_without_read: u64,
    pub stale: u64,
    pub verified: u64,
    pub verified_pending: u64,
}

/// Address-space usage of the tiered tables.
#[derive(Copy, Clone, Debug, Default, PartialEq, Eq, Structural)]
pub struct TieringUsage {
    pub allocated_bytes: u64,
    pub committed_bytes: u64,
    pub dead_bytes: u64,
    pub index_bytes: u64,
    pub live_bytes: u64,
    pub reserved_bytes: u64,
}

/// Bytes by leg of the write path.
#[derive(Copy, Clone, Debug, Default, PartialEq, Eq, Structural)]
pub struct WriteAccounting {
    pub blob_bytes: u64,
    pub blob_user_bytes: u64,
    pub compaction_bytes: u64,
    pub flush_bytes: u64,
    pub user_bytes: u64,
    pub wal_bytes: u64,
    pub written_bytes: u64,
}

/// The worst namespace of a write-amplification leg, and how many have none.
#[derive(Copy, Clone, Debug, Default, PartialEq, Eq, Structural)]
pub struct WorstAmp {
    pub milli_max: u64,
    pub unbounded_namespaces: u64,
}

/// Blob-extent lifecycle gauges.
#[derive(Copy, Clone, Debug, Default, PartialEq, Eq, Structural)]
pub struct ExtentStats {
    pub created: u64,
    pub disk_bytes: u64,
    pub live: u64,
    pub live_bytes: u64,
    pub quarantine_revived: u64,
    pub quarantined: u64,
    pub reclaim_deferred: u64,
    pub reclaim_slices: u64,
    pub reclaimable: u64,
    pub reclaimed: u64,
    pub rmw_ops: u64,
}

/// Disk-admission gauges.
#[derive(Copy, Clone, Debug, Default, PartialEq, Eq, Structural)]
pub struct DiskAdmission {
    pub compact_idle_pressure: u64,
    pub full_namespaces: u64,
    pub refusals: u64,
    pub used_bytes: u64,
}

/// Index-maintenance counters.
#[derive(Copy, Clone, Debug, Default, PartialEq, Eq, Structural)]
pub struct IdxCounters {
    pub degraded_trips: u64,
    pub maint_inserts: u64,
    pub maint_prunes: u64,
    pub maint_removes: u64,
    pub skipped_inexact: u64,
    pub skipped_nan: u64,
    pub skipped_sparse: u64,
    pub skipped_toolong: u64,
}

/// Index-backfill progress.
#[derive(Copy, Clone, Debug, Default, PartialEq, Eq, Structural)]
pub struct IdxBackfill {
    pub docs_scanned_total: u64,
    pub entries_inserted_total: u64,
    pub parked: u64,
    pub published: u64,
    pub walking: u64,
}

/// This boot's sidecar loads and rebuilds.
#[derive(Copy, Clone, Debug, Default, PartialEq, Eq, Structural)]
pub struct IdxSidecar {
    pub damaged_sections: u64,
    pub entries_loaded: u64,
    pub loaded: u64,
    pub rebuilt: u64,
}

/// Keyspace counters.
#[derive(Copy, Clone, Debug, Default, PartialEq, Eq, Structural)]
pub struct StoreStats {
    pub evicted_keys: u64,
    pub expired_active: u64,
    pub expired_lazy: u64,
    pub index_grows: u64,
    pub keyspace_hits: u64,
    pub keyspace_misses: u64,
    pub wheel_fallback: u64,
    pub wheel_stale: u64,
}

/// This cell's memory by domain.
#[derive(Copy, Clone, Debug, Default, PartialEq, Eq, Structural)]
pub struct MemoryReport {
    pub doc_arena_bytes: u64,
    pub doc_intern_bytes: u64,
    pub doc_path_cache_bytes: u64,
    pub doc_resident_bytes: u64,
    pub doc_scratch_bytes: u64,
    pub doc_slack_bytes: u64,
    pub doc_tape_bytes: u64,
    pub evict_bytes: u64,
    pub idx_slack_bytes: u64,
    pub idx_tree_bytes: u64,
    pub index_bytes: u64,
    pub records_live_bytes: u64,
    pub records_resident_bytes: u64,
    pub records_slack_bytes: u64,
    pub wheel_bytes: u64,
}

/// The frozen names of the tripwire gauges.
#[derive(Copy, Clone, Debug, Default)]
pub struct TripwireNames {
    pub cmds_per_iter: &'static str,
    pub conn_state_bytes: &'static str,
    pub cqes_per_reap: &'static str,
    pub doc_arena_bytes: &'static str,
    pub doc_intern_bytes: &'static str,
    pub doc_path_cache_bytes: &'static str,
    pub doc_resident_bytes: &'static str,
    pub doc_scratch_bytes: &'static str,
    pub doc_slack_bytes: &'static str,
    pub doc_tape_bytes: &'static str,
    pub evict_bytes: &'static str,
    pub fabric_msgs_per_batch: &'static str,
    pub index_bytes: &'static str,
    pub loop_iter_p999_us: &'static str,
    pub process_rss: &'static str,
    pub records_live_bytes: &'static str,
    pub records_slack_bytes: &'static str,
    pub sqes_per_submit: &'static str,
    pub wheel_bytes: &'static str,
    pub wire_buffers_bytes: &'static str,
}

/// The path-program cache's counters.
#[derive(Copy, Clone, Debug, Default, PartialEq, Eq, Structural)]
pub struct PathCache {
    pub hits: u64,
    pub misses: u64,
    pub evictions: u64,
}

/// The keys of one database.
#[derive(Copy, Clone, Debug, Default, PartialEq, Eq, Structural)]
pub struct DbCount {
    pub db: u16,
    pub keys: u64,
    pub expires: u64,
}

/// Which disk-admission leg refuses writes.
#[derive(Copy, Clone, Debug, Default, PartialEq, Eq, Structural)]
pub enum DiskFull {
    #[default]
    Clear,
    Budget,
    Device,
}

/// One tiered namespace.
#[derive(Copy, Clone, Debug, Default, PartialEq, Eq, Structural)]
pub struct TierNsFacts {
    pub id: u32,
    pub head: u64,
    pub flushed: u64,
    pub ro_boundary: u64,
    pub tail: u64,
    pub committed_bytes: u64,
    pub budget_bytes: u64,
    pub disk_budget_bytes: u64,
    pub mutable_permille: u32,
    pub live_bytes: u64,
    pub dead_bytes: u64,
    pub user_bytes: u64,
    pub wal_bytes: u64,
    pub flush_bytes: u64,
    pub compaction_bytes: u64,
    pub write_amp_milli: Option<u64>,
    pub blob_user_bytes: u64,
    pub blob_bytes: u64,
    pub blob_write_amp_milli: Option<u64>,
    pub blob_extents_live: u64,
    pub blob_disk_bytes: u64,
    pub disk_used_bytes: u64,
    pub disk_full: DiskFull,
    pub diskfull_refusals: u64,
    pub compact_idle_pressure: u64,
    pub promotions: u64,
    pub promoted_bytes: u64,
    pub shadow_pending: u64,
    pub shadow_pinned_bytes: u64,
}

/// This cell's keyspace.
#[derive(Debug, Default)]
pub struct StoreFacts {
    /// Tiered tables.
    pub tables: u64,
    /// Bytes of one table's promotion filter.
    pub filter_bytes: u64,
    pub tiering: TieringCounters,
    pub promotion: PromotionCounters,
    pub shadow: ShadowCounters,
    pub usage: TieringUsage,
    pub write: WriteAccounting,
    pub amp: WorstAmp,
    pub blob_amp: WorstAmp,
    pub extents: ExtentStats,
    pub disk: DiskAdmission,
    pub namespaces: Vec<TierNsFacts>,
    pub stats: StoreStats,
    pub expiry_debt_ms: u64,
    pub path_cache: Option<PathCache>,
    pub idx: IdxCounters,
    pub backfill: IdxBackfill,
    pub sidecar: IdxSidecar,
    pub report: MemoryReport,
    pub dbs: Vec<DbCount>,
}

/// The memory fold: over the node where a board is wired, else this cell.
#[derive(Debug, Default)]
pub struct MemoryFold {
    pub node_scope: bool,
    pub gauges: MemoryGauges,
    pub pool_used_bytes: u64,
    pub dbs: Vec<DbCount>,
}

/// The process and its clocks, with the fractions already rendered.
#[derive(Debug, Default)]
pub struct HostFacts {
    pub os: String,
    pub now_secs: u64,
    /// When the wall clock was anchored, in clock milliseconds.
    pub anchor_ms: u64,
    pub wall_ms: u64,
    pub rss: u64,
    pub fragmentation: String,
    pub loaded_perc: String,
    pub eta_seconds: u64,
    pub cpu_sys: String,
    pub cpu_user: String,
}

/// Everything `INFO` renders, besides the configuration.
#[derive(Debug, Default)]
pub struct InfoFacts {
    pub node: NodeGauges,
    pub store: StoreFacts,
    pub memory: MemoryFold,
    pub host: HostFacts,
    pub names: TripwireNames,
    /// The loop histogram's lines.
    pub loop_text: String,
}

impl InfoFacts {
    /// The promotion filters' bytes fit a counter.
    pub open spec fn filters_fit(&self) -> bool {
        self.store.tables * self.store.filter_bytes <= u64::MAX
    }

    /// The derived figures fit their counters.
    pub open spec fn wf(&self) -> bool {
        &&& self.filters_fit()
        &&& self.host.wall_ms * 1000 <= u64::MAX
        &&& self.store.stats.expired_lazy + self.store.stats.expired_active <= u64::MAX
    }
}

} // verus!
