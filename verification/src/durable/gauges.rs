//! The durable plane's gauges: one snapshot of a cell's counters, with the
//! write-amplification figures derived from them.

use vstd::prelude::*;
use crate::ckpt::CkptPhase;
use crate::durable::cell;
use crate::durable::cell::{distance, DurableCell};
use crate::lsn::Lsn;

verus! {

/// What one I/O class spent and how often it was deferred.
#[derive(Copy, Clone, Debug, Default, PartialEq, Eq, Structural)]
pub struct ClassCounters {
    pub bytes: u64,
    pub ops: u64,
    pub deferrals: u64,
}

/// Where the device model came from.
#[derive(Clone, Debug, Default)]
pub struct IoProvenance {
    pub source: String,
    pub schema: u32,
    pub identity: String,
}

/// The group-commit ledger's counters.
#[derive(Copy, Clone, Debug, Default, PartialEq, Eq, Structural)]
pub struct CommitFacts {
    pub watermark: Option<Lsn>,
    pub queued_up_to: Option<Lsn>,
    pub pending_log_bytes: u64,
    pub fsyncs_completed: u64,
    pub frames_queued: u64,
    pub fsyncs_linked: u64,
    pub fsyncs_seal: u64,
    pub fsyncs_standalone: u64,
    pub fsyncs_completion: u64,
    pub fsyncs_write_through: u64,
    pub idle_ticks: u64,
    pub pending_entries: u64,
    pub write_through_entries: u64,
    pub frame_bytes_queued: u64,
}

/// The staging ring's counters.
#[derive(Copy, Clone, Debug, Default, PartialEq, Eq, Structural)]
pub struct StagingFacts {
    pub resident_bytes: u64,
    pub capacity_bytes: u64,
    pub padding_bytes: u64,
    pub frames_in_flight: u64,
    pub in_flight_max: u64,
    pub in_flight: u64,
    pub pending_records: u64,
    pub append_bytes: u64,
}

/// The segment rotor's counters.
#[derive(Copy, Clone, Debug, Default, PartialEq, Eq, Structural)]
pub struct RotorFacts {
    pub sealed: u64,
    pub next_ready: bool,
    pub active_write_through: bool,
    pub configured_write_through: bool,
    pub zero_fill_bytes: u64,
    pub rotations_unzeroed: u64,
    pub rotations_upgrade: u64,
    pub reopened_packed_tails: u64,
    pub segments_recycled: u64,
    pub recycle_misses: u64,
    pub recycle_fallbacks: u64,
    pub recycle_pool_bytes: u64,
    pub recycle_pool_full: u64,
    pub recycle_sentinels: u64,
    pub rotations: u64,
    pub inline_preallocs: u64,
    pub prealloc_failures: u64,
    pub recycle_waits_started: u64,
    pub recycle_waits_satisfied: u64,
    pub recycle_waits_expired: u64,
    pub recycle_wait_active_bytes_max: u64,
    pub preallocs: u64,
}

/// Percentiles of the latency and group histograms.
#[derive(Copy, Clone, Debug, Default, PartialEq, Eq, Structural)]
pub struct LatencyFacts {
    pub fsync_p50_us: u64,
    pub fsync_p99_us: u64,
    pub fsync_p999_us: u64,
    pub fsync_group_p50: u64,
    pub fsync_group_p99: u64,
    pub write_stall_p50_us: u64,
    pub write_stall_p99_us: u64,
    pub write_stall_p999_us: u64,
    pub fua_p50_us: u64,
    pub fua_p99_us: u64,
    pub write_stall_max_us: u64,
}

/// The device budget's ledger.
#[derive(Debug, Default)]
pub struct BudgetFacts {
    pub model_absent: bool,
    pub write_bytes_per_s: u64,
    pub read_bytes_per_s: u64,
    pub classes: Vec<ClassCounters>,
}

/// Everything the gauges read from the parts around the cell.
#[derive(Debug, Default)]
pub struct DurableFacts {
    pub commit: CommitFacts,
    pub staging: StagingFacts,
    pub rotor: RotorFacts,
    pub latency: LatencyFacts,
    pub budget: BudgetFacts,
    /// Commands parked on the drain.
    pub admission_parked: u64,
    /// The seal pacer's wait episodes.
    pub frame_waits_pace: u64,
    pub ckpt_resident_bytes: u64,
    pub ckpt_replay_bytes_per_s: u64,
    pub ckpt_cap_bytes: u64,
    pub ckpt_bound_splits: u64,
    pub io_provenance: IoProvenance,
}

/// The durable plane's gauges of one cell.
#[derive(Debug)]
pub struct DurableStats {
    pub records_appended: u64,
    pub acks_gated: u64,
    pub pending_log_bytes: u64,
    pub last_durable_lsn: u64,
    pub watermark_lag_lsn: u64,
    pub fsyncs_completed: u64,
    pub frames_queued: u64,
    pub staging_resident_bytes: u64,
    pub manifests_published: u64,
    pub manifests_aborted: u64,
    pub fsyncs_per_sec: u64,
    pub acks_per_sec: u64,
    pub fsync_p50_us: u64,
    pub fsync_p99_us: u64,
    pub fsync_p999_us: u64,
    pub fsync_group_p50: u64,
    pub fsync_group_p99: u64,
    pub write_stall_p50_us: u64,
    pub write_stall_p99_us: u64,
    pub write_stall_p999_us: u64,
    pub staging_capacity_bytes: u64,
    pub admission_parked: u64,
    pub admission_parked_total: u64,
    pub fsyncs_linked: u64,
    pub fsyncs_seal: u64,
    pub fsyncs_standalone: u64,
    pub fsyncs_completion: u64,
    pub segments_truncated: u64,
    pub ckpt_in_progress: u64,
    pub log_segments_live: u64,
    pub barrier_class_fua: u64,
    pub io_class_configured_fua: u64,
    pub fsyncs_fua: u64,
    pub fua_p50_us: u64,
    pub fua_p99_us: u64,
    pub log_padding_bytes: u64,
    pub zero_fill_bytes: u64,
    pub rotations_unzeroed: u64,
    pub rotations_upgrade: u64,
    pub reopened_packed_tails: u64,
    pub barrier_class_degraded: u64,
    pub frames_in_flight: u64,
    pub frames_in_flight_max: u64,
    pub frame_waits_barrier: u64,
    pub frame_waits_rotation: u64,
    pub frame_waits_reorder: u64,
    pub frame_waits_fill: u64,
    pub fill_window_us: u64,
    pub fill_target_bytes: u64,
    pub frame_waits_group: u64,
    pub flush_group_window_us: u64,
    pub frame_records_last: u64,
    pub group_round_target: u64,
    pub io_provenance: IoProvenance,
    pub frames_in_flight_now: u64,
    pub records_staged: u64,
    pub everysec_idle_ticks: u64,
    pub frames_awaiting_watermark: u64,
    pub fsync_entries: u64,
    pub write_through_entries: u64,
    pub hold_open: u64,
    pub fill_hold_open: u64,
    pub group_hold_open: u64,
    pub io_budget_model_absent: u64,
    pub io_budget_write_bytes_per_s: u64,
    pub io_budget_read_bytes_per_s: u64,
    pub io_budget: Vec<ClassCounters>,
    pub frame_waits_pace: u64,
    pub log_frame_bytes: u64,
    pub ckpt_bytes_total: u64,
    pub ckpt_bytes_last: u64,
    pub ckpt_padding_bytes: u64,
    pub manifest_bytes_total: u64,
    pub ckpt_interval_bytes: u64,
    pub ckpt_records_since_begin: u64,
    pub ckpt_replay_bytes_per_s: u64,
    pub ckpt_cap_bytes: u64,
    pub ckpt_io_mode_buffered: u64,
    pub ckpt_io_mode_downgrades: u64,
    pub ckpt_bound_splits: u64,
    pub write_amp_milli_log_checkpoint: u64,
    pub write_amp_log_checkpoint_undefined: u64,
    pub accounted_host_write_bytes: u64,
    pub write_amp_milli_accounted_host: u64,
    pub segments_recycled: u64,
    pub recycle_misses: u64,
    pub recycle_fallbacks: u64,
    pub recycle_pool_bytes: u64,
    pub recycle_pool_full: u64,
    pub recycle_sentinels: u64,
    pub segment_rotations: u64,
    pub segment_preallocs: u64,
    pub segment_inline_preallocs: u64,
    pub segment_prealloc_failures: u64,
    pub recycle_waits_started: u64,
    pub recycle_waits_satisfied: u64,
    pub recycle_waits_expired: u64,
    pub recycle_wait_active_bytes_max: u64,
    pub write_stall_max_us: u64,
}

/// 1 for true, 0 for false.
pub open spec fn bit(b: bool) -> u64 {
    if b {
        1
    } else {
        0
    }
}

/// 1 for true, 0 for false.
pub fn bit_of(b: bool) -> (r: u64)
    ensures
        r == bit(b),
{
    if b {
        1
    } else {
        0
    }
}

/// A log position as one number; 0 when there is none.
pub open spec fn position(at: Option<Lsn>) -> u64 {
    match at {
        Some(lsn) => lsn.packed(),
        None => 0,
    }
}

/// `n` capped at the largest counter value.
pub open spec fn capped(n: int) -> u64 {
    if n > u64::MAX {
        u64::MAX
    } else {
        n as u64
    }
}

/// Thousandths of `written` per byte of `appended`, rounded up: the figure may
/// overstate and never understates.
pub open spec fn milli(written: u64, appended: u64) -> u64 {
    capped((written * 1000 + appended - 1) / appended as int)
}

/// The log frame, checkpoint and manifest bytes.
pub open spec fn log_checkpoint_bytes(log: u64, ckpt: u64, manifest: u64) -> u64 {
    capped(log + ckpt + manifest)
}

/// Every byte handed to the host for durable state.
pub open spec fn host_bytes(log: u64, zero_fill: u64, ckpt: u64, manifest: u64) -> u64 {
    capped(log + zero_fill + ckpt + manifest)
}

fn milli_of(written: u64, appended: u64) -> (r: u64)
    requires
        appended > 0,
    ensures
        r == milli(written, appended),
{
    let n: u128 = (written as u128 * 1000 + (appended as u128 - 1)) / appended as u128;
    if n > u64::MAX as u128 {
        u64::MAX
    } else {
        n as u64
    }
}

fn sum_capped(a: u64, b: u64) -> (r: u64)
    ensures
        r == capped(a + b),
{
    if a <= u64::MAX - b {
        a + b
    } else {
        u64::MAX
    }
}

impl DurableCell {
    /// The gauges. The write-amplification figures are undefined until a
    /// checkpoint has been published and something was appended: a ratio over
    /// the log alone would read as the figure.
    pub open spec fn gauges(&self, f: DurableFacts) -> DurableStats {
        let m = self.manifest.stats;
        let k = self.ckpt.gauges(self.records_appended, f.ckpt_resident_bytes);
        let undefined = k.completed == 0 || f.staging.append_bytes == 0;
        let host = host_bytes(
            f.commit.frame_bytes_queued,
            f.rotor.zero_fill_bytes,
            k.bytes_total,
            m.bytes_written,
        );
        DurableStats {
            records_appended: self.records_appended,
            acks_gated: self.acks_gated,
            pending_log_bytes: f.commit.pending_log_bytes,
            last_durable_lsn: position(f.commit.watermark),
            watermark_lag_lsn: cell::above(position(f.commit.queued_up_to), position(f.commit.watermark)),
            fsyncs_completed: f.commit.fsyncs_completed,
            frames_queued: f.commit.frames_queued,
            staging_resident_bytes: f.staging.resident_bytes,
            manifests_published: m.published,
            manifests_aborted: m.aborted,
            fsyncs_per_sec: self.fsyncs_last_sec,
            acks_per_sec: self.acks_last_sec,
            fsync_p50_us: f.latency.fsync_p50_us,
            fsync_p99_us: f.latency.fsync_p99_us,
            fsync_p999_us: f.latency.fsync_p999_us,
            fsync_group_p50: f.latency.fsync_group_p50,
            fsync_group_p99: f.latency.fsync_group_p99,
            write_stall_p50_us: f.latency.write_stall_p50_us,
            write_stall_p99_us: f.latency.write_stall_p99_us,
            write_stall_p999_us: f.latency.write_stall_p999_us,
            staging_capacity_bytes: f.staging.capacity_bytes,
            admission_parked: f.admission_parked,
            admission_parked_total: self.parked_total,
            fsyncs_linked: f.commit.fsyncs_linked,
            fsyncs_seal: f.commit.fsyncs_seal,
            fsyncs_standalone: f.commit.fsyncs_standalone,
            fsyncs_completion: f.commit.fsyncs_completion,
            segments_truncated: m.truncated_segments,
            ckpt_in_progress: bit(!(self.ckpt.phase is Idle)),
            log_segments_live: (f.rotor.sealed + 1 + bit(f.rotor.next_ready)) as u64,
            barrier_class_fua: bit(f.rotor.active_write_through),
            io_class_configured_fua: bit(f.rotor.configured_write_through),
            fsyncs_fua: f.commit.fsyncs_write_through,
            fua_p50_us: f.latency.fua_p50_us,
            fua_p99_us: f.latency.fua_p99_us,
            log_padding_bytes: f.staging.padding_bytes,
            zero_fill_bytes: f.rotor.zero_fill_bytes,
            rotations_unzeroed: f.rotor.rotations_unzeroed,
            rotations_upgrade: f.rotor.rotations_upgrade,
            reopened_packed_tails: f.rotor.reopened_packed_tails,
            barrier_class_degraded: bit(self.fua_degraded_windows >= 3),
            frames_in_flight: f.staging.frames_in_flight,
            frames_in_flight_max: f.staging.in_flight_max,
            frame_waits_barrier: self.frame_waits_barrier,
            frame_waits_rotation: self.frame_waits_rotation,
            frame_waits_reorder: self.frame_waits_reorder,
            frame_waits_fill: self.frame_waits_fill,
            fill_window_us: self.fill.window / 1000,
            fill_target_bytes: self.fill.target_bytes as u64,
            frame_waits_group: self.frame_waits_group,
            flush_group_window_us: self.group.window / 1000,
            frame_records_last: self.last_frame_records as u64,
            group_round_target: self.group_round_target,
            io_provenance: f.io_provenance,
            frames_in_flight_now: f.staging.in_flight,
            records_staged: f.staging.pending_records,
            everysec_idle_ticks: f.commit.idle_ticks,
            frames_awaiting_watermark: self.frame_seqs@.len() as u64,
            fsync_entries: f.commit.pending_entries,
            write_through_entries: f.commit.write_through_entries,
            hold_open: bit(self.frame_held),
            fill_hold_open: bit(self.fill_since is Some),
            group_hold_open: bit(self.group_since is Some),
            io_budget_model_absent: bit(f.budget.model_absent),
            io_budget_write_bytes_per_s: f.budget.write_bytes_per_s,
            io_budget_read_bytes_per_s: f.budget.read_bytes_per_s,
            io_budget: f.budget.classes,
            frame_waits_pace: f.frame_waits_pace,
            log_frame_bytes: f.commit.frame_bytes_queued,
            ckpt_bytes_total: k.bytes_total,
            ckpt_bytes_last: k.bytes_last,
            ckpt_padding_bytes: k.padding_bytes,
            manifest_bytes_total: m.bytes_written,
            ckpt_interval_bytes: k.interval_bytes,
            ckpt_records_since_begin: k.records_since_begin,
            ckpt_replay_bytes_per_s: f.ckpt_replay_bytes_per_s,
            ckpt_cap_bytes: f.ckpt_cap_bytes,
            ckpt_io_mode_buffered: k.io_mode_buffered,
            ckpt_io_mode_downgrades: k.io_mode_downgrades,
            ckpt_bound_splits: f.ckpt_bound_splits,
            write_amp_milli_log_checkpoint: if undefined { 0 } else { milli(log_checkpoint_bytes(f.commit.frame_bytes_queued, k.bytes_total, m.bytes_written), f.staging.append_bytes) },
            write_amp_log_checkpoint_undefined: bit(undefined),
            accounted_host_write_bytes: host,
            write_amp_milli_accounted_host: if undefined { 0 } else { milli(host, f.staging.append_bytes) },
            segments_recycled: f.rotor.segments_recycled,
            recycle_misses: f.rotor.recycle_misses,
            recycle_fallbacks: f.rotor.recycle_fallbacks,
            recycle_pool_bytes: f.rotor.recycle_pool_bytes,
            recycle_pool_full: f.rotor.recycle_pool_full,
            recycle_sentinels: f.rotor.recycle_sentinels,
            segment_rotations: f.rotor.rotations,
            segment_preallocs: (f.rotor.preallocs + f.rotor.inline_preallocs) as u64,
            segment_inline_preallocs: f.rotor.inline_preallocs,
            segment_prealloc_failures: f.rotor.prealloc_failures,
            recycle_waits_started: f.rotor.recycle_waits_started,
            recycle_waits_satisfied: f.rotor.recycle_waits_satisfied,
            recycle_waits_expired: f.rotor.recycle_waits_expired,
            recycle_wait_active_bytes_max: f.rotor.recycle_wait_active_bytes_max,
            write_stall_max_us: f.latency.write_stall_max_us,
        }
    }

    /// The counters for the stats flush.
    pub fn stats(&self, f: DurableFacts) -> (r: DurableStats)
        requires
            f.rotor.sealed + 2 <= u64::MAX,
            f.rotor.preallocs + f.rotor.inline_preallocs <= u64::MAX,
        ensures
            r == self.gauges(f),
    {
        let durable: u64 = position_of(f.commit.watermark);
        let queued: u64 = position_of(f.commit.queued_up_to);
        let m = self.manifest.stats();
        let k = self.ckpt.stats(self.records_appended, f.ckpt_resident_bytes);
        let in_progress = match &self.ckpt.phase {
            CkptPhase::Idle => false,
            _ => true,
        };
        let host: u64 = sum_capped(
            sum_capped(
                sum_capped(f.commit.frame_bytes_queued, f.rotor.zero_fill_bytes),
                k.bytes_total,
            ),
            m.bytes_written,
        );
        let undefined = k.completed == 0 || f.staging.append_bytes == 0;
        let mut write_amp: u64 = 0;
        let mut write_amp_host: u64 = 0;
        if !undefined {
            let log_ckpt: u64 = sum_capped(
                sum_capped(f.commit.frame_bytes_queued, k.bytes_total),
                m.bytes_written,
            );
            write_amp = milli_of(log_ckpt, f.staging.append_bytes);
            write_amp_host = milli_of(host, f.staging.append_bytes);
        }
        DurableStats {
            records_appended: self.records_appended,
            acks_gated: self.acks_gated,
            pending_log_bytes: f.commit.pending_log_bytes,
            last_durable_lsn: durable,
            watermark_lag_lsn: distance(queued, durable),
            fsyncs_completed: f.commit.fsyncs_completed,
            frames_queued: f.commit.frames_queued,
            staging_resident_bytes: f.staging.resident_bytes,
            manifests_published: m.published,
            manifests_aborted: m.aborted,
            fsyncs_per_sec: self.fsyncs_last_sec,
            acks_per_sec: self.acks_last_sec,
            fsync_p50_us: f.latency.fsync_p50_us,
            fsync_p99_us: f.latency.fsync_p99_us,
            fsync_p999_us: f.latency.fsync_p999_us,
            fsync_group_p50: f.latency.fsync_group_p50,
            fsync_group_p99: f.latency.fsync_group_p99,
            write_stall_p50_us: f.latency.write_stall_p50_us,
            write_stall_p99_us: f.latency.write_stall_p99_us,
            write_stall_p999_us: f.latency.write_stall_p999_us,
            staging_capacity_bytes: f.staging.capacity_bytes,
            admission_parked: f.admission_parked,
            admission_parked_total: self.parked_total,
            fsyncs_linked: f.commit.fsyncs_linked,
            fsyncs_seal: f.commit.fsyncs_seal,
            fsyncs_standalone: f.commit.fsyncs_standalone,
            fsyncs_completion: f.commit.fsyncs_completion,
            segments_truncated: m.truncated_segments,
            ckpt_in_progress: bit_of(in_progress),
            log_segments_live: f.rotor.sealed + 1 + bit_of(f.rotor.next_ready),
            barrier_class_fua: bit_of(f.rotor.active_write_through),
            io_class_configured_fua: bit_of(f.rotor.configured_write_through),
            fsyncs_fua: f.commit.fsyncs_write_through,
            fua_p50_us: f.latency.fua_p50_us,
            fua_p99_us: f.latency.fua_p99_us,
            log_padding_bytes: f.staging.padding_bytes,
            zero_fill_bytes: f.rotor.zero_fill_bytes,
            rotations_unzeroed: f.rotor.rotations_unzeroed,
            rotations_upgrade: f.rotor.rotations_upgrade,
            reopened_packed_tails: f.rotor.reopened_packed_tails,
            barrier_class_degraded: bit_of(self.fua_degraded_windows >= 3),
            frames_in_flight: f.staging.frames_in_flight,
            frames_in_flight_max: f.staging.in_flight_max,
            frame_waits_barrier: self.frame_waits_barrier,
            frame_waits_rotation: self.frame_waits_rotation,
            frame_waits_reorder: self.frame_waits_reorder,
            frame_waits_fill: self.frame_waits_fill,
            fill_window_us: self.fill.window / 1000,
            fill_target_bytes: self.fill.target_bytes as u64,
            frame_waits_group: self.frame_waits_group,
            flush_group_window_us: self.group.window / 1000,
            frame_records_last: self.last_frame_records as u64,
            group_round_target: self.group_round_target,
            io_provenance: f.io_provenance,
            frames_in_flight_now: f.staging.in_flight,
            records_staged: f.staging.pending_records,
            everysec_idle_ticks: f.commit.idle_ticks,
            frames_awaiting_watermark: self.frame_seqs.len() as u64,
            fsync_entries: f.commit.pending_entries,
            write_through_entries: f.commit.write_through_entries,
            hold_open: bit_of(self.frame_held),
            fill_hold_open: bit_of(self.fill_since.is_some()),
            group_hold_open: bit_of(self.group_since.is_some()),
            io_budget_model_absent: bit_of(f.budget.model_absent),
            io_budget_write_bytes_per_s: f.budget.write_bytes_per_s,
            io_budget_read_bytes_per_s: f.budget.read_bytes_per_s,
            io_budget: f.budget.classes,
            frame_waits_pace: f.frame_waits_pace,
            log_frame_bytes: f.commit.frame_bytes_queued,
            ckpt_bytes_total: k.bytes_total,
            ckpt_bytes_last: k.bytes_last,
            ckpt_padding_bytes: k.padding_bytes,
            manifest_bytes_total: m.bytes_written,
            ckpt_interval_bytes: k.interval_bytes,
            ckpt_records_since_begin: k.records_since_begin,
            ckpt_replay_bytes_per_s: f.ckpt_replay_bytes_per_s,
            ckpt_cap_bytes: f.ckpt_cap_bytes,
            ckpt_io_mode_buffered: k.io_mode_buffered,
            ckpt_io_mode_downgrades: k.io_mode_downgrades,
            ckpt_bound_splits: f.ckpt_bound_splits,
            write_amp_milli_log_checkpoint: write_amp,
            write_amp_log_checkpoint_undefined: bit_of(undefined),
            accounted_host_write_bytes: host,
            write_amp_milli_accounted_host: write_amp_host,
            segments_recycled: f.rotor.segments_recycled,
            recycle_misses: f.rotor.recycle_misses,
            recycle_fallbacks: f.rotor.recycle_fallbacks,
            recycle_pool_bytes: f.rotor.recycle_pool_bytes,
            recycle_pool_full: f.rotor.recycle_pool_full,
            recycle_sentinels: f.rotor.recycle_sentinels,
            segment_rotations: f.rotor.rotations,
            segment_preallocs: f.rotor.preallocs + f.rotor.inline_preallocs,
            segment_inline_preallocs: f.rotor.inline_preallocs,
            segment_prealloc_failures: f.rotor.prealloc_failures,
            recycle_waits_started: f.rotor.recycle_waits_started,
            recycle_waits_satisfied: f.rotor.recycle_waits_satisfied,
            recycle_waits_expired: f.rotor.recycle_waits_expired,
            recycle_wait_active_bytes_max: f.rotor.recycle_wait_active_bytes_max,
            write_stall_max_us: f.latency.write_stall_max_us,
        }
    }
}

fn position_of(at: Option<Lsn>) -> (r: u64)
    ensures
        r == position(at),
{
    match at {
        Some(lsn) => lsn.to_u64(),
        None => 0,
    }
}

/// The reported amplification never understates: the bytes written are at most
/// the figure times the bytes appended, in thousandths, unless the figure is
/// at its cap.
pub proof fn law_write_amp_never_understates(written: u64, appended: u64)
    requires
        appended > 0,
    ensures
        milli(written, appended) < u64::MAX ==> written * 1000 <= milli(written, appended)
            * appended,
{
    let q = (written * 1000 + appended - 1) / appended as int;
    assert(written * 1000 <= q * appended) by (nonlinear_arith)
        requires
            appended > 0,
            q == (written * 1000 + appended - 1) / appended as int,
    ;
}

/// Write amplification is the smallest number of thousandths that does not
/// understate it: one less would.
pub proof fn law_write_amp_is_tight(written: u64, appended: u64)
    requires
        appended > 0,
        milli(written, appended) > 0,
    ensures
        (milli(written, appended) - 1) * appended < written * 1000,
{
    let q = (written * 1000 + appended - 1) / appended as int;
    assert((q - 1) * appended < written * 1000) by (nonlinear_arith)
        requires
            appended > 0,
            q == (written * 1000 + appended - 1) / appended as int,
    ;
    if q > u64::MAX {
        assert((u64::MAX - 1) * appended <= (q - 1) * appended) by (nonlinear_arith)
            requires
                appended > 0,
                q > u64::MAX,
        ;
    }
}

/// Write amplification is undefined until a checkpoint completed and something
/// was appended, and shown as zero until then; from there it weighs the log,
/// the checkpoints and the manifests against what was appended, and the host's
/// with the pre-zeroed bytes.
pub proof fn law_write_amp_weighs_all_bytes(c: DurableCell, f: DurableFacts)
    ensures
        ({
            let g = c.gauges(f);
            let log = f.commit.frame_bytes_queued;
            let sum = log + c.ckpt.stats.bytes_total + c.manifest.stats.bytes_written;
            &&& g.write_amp_log_checkpoint_undefined == 1 <==> c.ckpt.stats.completed == 0
                || f.staging.append_bytes == 0
            &&& g.write_amp_log_checkpoint_undefined == 1 ==> g.write_amp_milli_log_checkpoint == 0
                && g.write_amp_milli_accounted_host == 0
            &&& g.write_amp_log_checkpoint_undefined == 0 && sum <= u64::MAX
                ==> g.write_amp_milli_log_checkpoint == milli(sum as u64, f.staging.append_bytes)
            &&& sum + f.rotor.zero_fill_bytes <= u64::MAX ==> g.accounted_host_write_bytes == sum
                + f.rotor.zero_fill_bytes
            &&& g.write_amp_log_checkpoint_undefined == 0 ==> g.write_amp_milli_accounted_host
                == milli(g.accounted_host_write_bytes, f.staging.append_bytes)
            &&& g.accounted_host_write_bytes >= log
        }),
{
}

/// The durable watermark and how far the log runs ahead of it.
pub proof fn law_lag_is_what_is_not_durable(c: DurableCell, f: DurableFacts, w: Lsn, q: Lsn)
    ensures
        f.commit.watermark == Some(w) ==> c.gauges(f).last_durable_lsn == w.packed(),
        f.commit.watermark is None ==> c.gauges(f).last_durable_lsn == 0,
        f.commit.watermark == Some(w) && f.commit.queued_up_to == Some(q) && w.packed()
            <= q.packed() ==> c.gauges(f).last_durable_lsn + c.gauges(f).watermark_lag_lsn
            == q.packed(),
        f.commit.watermark == Some(w) && f.commit.queued_up_to == Some(q) && w.packed()
            > q.packed() ==> c.gauges(f).watermark_lag_lsn == 0,
{
}

/// The gauges that stand for a yes or no: one for yes, zero for no. The
/// barrier class counts as degraded after three windows in a row.
pub proof fn law_flags_are_ones_and_zeros(c: DurableCell, f: DurableFacts)
    ensures
        ({
            let g = c.gauges(f);
            &&& g.ckpt_in_progress == (if c.ckpt.phase is Idle {
                0u64
            } else {
                1
            })
            &&& g.barrier_class_degraded == (if c.fua_degraded_windows >= 3 {
                1u64
            } else {
                0
            })
            &&& g.barrier_class_fua == (if f.rotor.active_write_through {
                1u64
            } else {
                0
            })
            &&& g.io_class_configured_fua == (if f.rotor.configured_write_through {
                1u64
            } else {
                0
            })
            &&& g.hold_open == (if c.frame_held {
                1u64
            } else {
                0
            })
            &&& g.fill_hold_open == (if c.fill_since is Some {
                1u64
            } else {
                0
            })
            &&& g.group_hold_open == (if c.group_since is Some {
                1u64
            } else {
                0
            })
            &&& g.io_budget_model_absent == (if f.budget.model_absent {
                1u64
            } else {
                0
            })
        }),
{
}

/// The gauges of the cell's own counters show those counters.
pub proof fn law_gauges_show_the_counters(c: DurableCell, f: DurableFacts)
    requires
        f.rotor.sealed + 2 <= u64::MAX,
        f.rotor.preallocs + f.rotor.inline_preallocs <= u64::MAX,
    ensures
        ({
            let g = c.gauges(f);
            &&& g.records_appended == c.records_appended
            &&& g.acks_gated == c.acks_gated
            &&& g.fsyncs_per_sec == c.fsyncs_last_sec
            &&& g.acks_per_sec == c.acks_last_sec
            &&& g.admission_parked == f.admission_parked
            &&& g.admission_parked_total == c.parked_total
            &&& g.frame_waits_barrier == c.frame_waits_barrier
            &&& g.frame_waits_rotation == c.frame_waits_rotation
            &&& g.frame_waits_reorder == c.frame_waits_reorder
            &&& g.frame_waits_fill == c.frame_waits_fill
            &&& g.frame_waits_group == c.frame_waits_group
            &&& g.frame_waits_pace == f.frame_waits_pace
            &&& g.frame_records_last == c.last_frame_records
            &&& g.group_round_target == c.group_round_target
            &&& g.fill_window_us * 1000 <= c.fill.window < g.fill_window_us * 1000 + 1000
            &&& g.flush_group_window_us * 1000 <= c.group.window < g.flush_group_window_us * 1000
                + 1000
            &&& g.fill_target_bytes == c.fill.target_bytes
            &&& g.manifests_published == c.manifest.stats.published
            &&& g.manifests_aborted == c.manifest.stats.aborted
            &&& g.manifest_bytes_total == c.manifest.stats.bytes_written
            &&& g.segments_truncated == c.manifest.stats.truncated_segments
            &&& g.ckpt_bytes_total == c.ckpt.stats.bytes_total
            &&& g.ckpt_bytes_last == c.ckpt.stats.bytes_last
            &&& g.ckpt_padding_bytes == c.ckpt.stats.padding_bytes
            &&& g.ckpt_interval_bytes == c.ckpt.interval_bytes
            &&& g.log_segments_live == f.rotor.sealed + 1 + (if f.rotor.next_ready {
                1int
            } else {
                0
            })
            &&& g.segment_preallocs == f.rotor.preallocs + f.rotor.inline_preallocs
            &&& g.segment_inline_preallocs == f.rotor.inline_preallocs
            &&& g.segment_rotations == f.rotor.rotations
        }),
{
}

/// The gauges of the commit path, of staging and of latency show the facts
/// they are given, each under its own name.
pub proof fn law_gauges_show_the_facts(c: DurableCell, f: DurableFacts)
    ensures
        ({
            let g = c.gauges(f);
            &&& g.pending_log_bytes == f.commit.pending_log_bytes
            &&& g.fsyncs_completed == f.commit.fsyncs_completed
            &&& g.frames_queued == f.commit.frames_queued
            &&& g.fsyncs_linked == f.commit.fsyncs_linked
            &&& g.fsyncs_seal == f.commit.fsyncs_seal
            &&& g.fsyncs_standalone == f.commit.fsyncs_standalone
            &&& g.fsyncs_completion == f.commit.fsyncs_completion
            &&& g.fsyncs_fua == f.commit.fsyncs_write_through
            &&& g.everysec_idle_ticks == f.commit.idle_ticks
            &&& g.fsync_entries == f.commit.pending_entries
            &&& g.write_through_entries == f.commit.write_through_entries
            &&& g.log_frame_bytes == f.commit.frame_bytes_queued
            &&& g.staging_resident_bytes == f.staging.resident_bytes
            &&& g.staging_capacity_bytes == f.staging.capacity_bytes
            &&& g.log_padding_bytes == f.staging.padding_bytes
            &&& g.frames_in_flight == f.staging.frames_in_flight
            &&& g.frames_in_flight_max == f.staging.in_flight_max
            &&& g.frames_in_flight_now == f.staging.in_flight
            &&& g.records_staged == f.staging.pending_records
            &&& g.fsync_p50_us == f.latency.fsync_p50_us
            &&& g.fsync_p99_us == f.latency.fsync_p99_us
            &&& g.fsync_p999_us == f.latency.fsync_p999_us
            &&& g.fsync_group_p50 == f.latency.fsync_group_p50
            &&& g.fsync_group_p99 == f.latency.fsync_group_p99
            &&& g.write_stall_p50_us == f.latency.write_stall_p50_us
            &&& g.write_stall_p99_us == f.latency.write_stall_p99_us
            &&& g.write_stall_p999_us == f.latency.write_stall_p999_us
            &&& g.write_stall_max_us == f.latency.write_stall_max_us
            &&& g.fua_p50_us == f.latency.fua_p50_us
            &&& g.fua_p99_us == f.latency.fua_p99_us
            &&& g.zero_fill_bytes == f.rotor.zero_fill_bytes
            &&& g.rotations_unzeroed == f.rotor.rotations_unzeroed
            &&& g.rotations_upgrade == f.rotor.rotations_upgrade
            &&& g.reopened_packed_tails == f.rotor.reopened_packed_tails
            &&& g.segments_recycled == f.rotor.segments_recycled
            &&& g.recycle_misses == f.rotor.recycle_misses
            &&& g.recycle_fallbacks == f.rotor.recycle_fallbacks
            &&& g.recycle_pool_bytes == f.rotor.recycle_pool_bytes
            &&& g.recycle_pool_full == f.rotor.recycle_pool_full
            &&& g.recycle_sentinels == f.rotor.recycle_sentinels
            &&& g.recycle_waits_started == f.rotor.recycle_waits_started
            &&& g.recycle_waits_satisfied == f.rotor.recycle_waits_satisfied
            &&& g.recycle_waits_expired == f.rotor.recycle_waits_expired
            &&& g.recycle_wait_active_bytes_max == f.rotor.recycle_wait_active_bytes_max
            &&& g.segment_prealloc_failures == f.rotor.prealloc_failures
            &&& g.io_budget_write_bytes_per_s == f.budget.write_bytes_per_s
            &&& g.io_budget_read_bytes_per_s == f.budget.read_bytes_per_s
            &&& g.io_budget == f.budget.classes
            &&& g.ckpt_replay_bytes_per_s == f.ckpt_replay_bytes_per_s
            &&& g.ckpt_cap_bytes == f.ckpt_cap_bytes
            &&& g.ckpt_bound_splits == f.ckpt_bound_splits
            &&& g.io_provenance == f.io_provenance
        }),
{
}

} // verus!
