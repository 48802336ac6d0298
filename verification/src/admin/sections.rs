//! `INFO`: the section renderers. The memory section is folded over the node;
//! tiering, persistence and tripwires are this cell's slice.

use vstd::prelude::*;
use crate::admin::facts::{
    ClassBudget, DbCount, DiskFull, HostFacts, InfoFacts, Layout, NodeGauges, TierNsFacts,
};
use crate::admin::lines;
use crate::admin::resp;
use crate::admin::resp::RespWriter;
use crate::config;
use crate::config::ConfigStore;
use crate::text;

verus! {

/// The barrier class a flag stands for.
pub open spec fn class_label(fua: u64) -> Seq<char> {
    if fua == 1 {
        "fua"@
    } else {
        "flush"@
    }
}

fn class_name(fua: u64) -> (r: &'static str)
    ensures
        r@ == class_label(fua),
{
    if fua == 1 {
        "fua"
    } else {
        "flush"
    }
}

/// The scope of a fold.
pub open spec fn scope_label(node_scope: bool) -> Seq<char> {
    if node_scope {
        "node"@
    } else {
        "cell"@
    }
}

fn scope_name(node_scope: bool) -> (r: &'static str)
    ensures
        r@ == scope_label(node_scope),
{
    if node_scope {
        "node"
    } else {
        "cell"
    }
}

/// Seconds since the wall clock was anchored.
pub open spec fn uptime_of(host: HostFacts) -> nat {
    let anchor = host.anchor_ms / 1000;
    if host.now_secs >= anchor {
        (host.now_secs - anchor) as nat
    } else {
        0
    }
}

fn uptime_secs(host: &HostFacts) -> (r: u64)
    ensures
        r == uptime_of(*host),
{
    let anchor: u64 = host.anchor_ms / 1000;
    if host.now_secs >= anchor {
        host.now_secs - anchor
    } else {
        0
    }
}

/// The node's identity: 32 hexadecimal digits, or 40 in the scoped layout.
pub open spec fn run_text(node: NodeGauges, layout: Layout) -> Seq<char> {
    match layout {
        Layout::Plain => text::hex_chars(node.rng_state as nat, 16) + text::hex_chars(
            node.cell as nat,
            16,
        ),
        Layout::Scoped => text::hex_chars(node.run_id@[0] as nat, 16) + text::hex_chars(
            node.run_id@[1] as nat,
            16,
        ) + text::hex_chars(node.run_id@[2] as nat, 8),
    }
}

/// The node's identity.
pub fn render_run_id(node: &NodeGauges, layout: Layout) -> (r: String)
    ensures
        r@ == run_text(*node, layout),
{
    let mut out = text::owned("");
    proof {
        reveal_strlit("");
    }
    match layout {
        Layout::Plain => {
            text::append_hex(&mut out, node.rng_state, 16);
            text::append_hex(&mut out, node.cell as u64, 16);
        },
        Layout::Scoped => {
            text::append_hex(&mut out, node.run_id[0], 16);
            text::append_hex(&mut out, node.run_id[1], 16);
            text::append_hex(&mut out, node.run_id[2], 8);
        },
    }
    proof {
        assert(out@ =~= run_text(*node, layout));
    }
    out
}

/// The replication identity: the node's own in the scoped layout.
pub open spec fn replid_text(node: NodeGauges, layout: Layout) -> Seq<char> {
    match layout {
        Layout::Plain => text::hex_chars(node.rng_state as nat, 40),
        Layout::Scoped => run_text(node, layout),
    }
}

fn render_replid(node: &NodeGauges, layout: Layout) -> (r: String)
    ensures
        r@ == replid_text(*node, layout),
{
    match layout {
        Layout::Plain => {
            let mut out = text::owned("");
            text::append_hex(&mut out, node.rng_state, 40);
            proof {
                reveal_strlit("");
                assert(out@ =~= replid_text(*node, layout));
            }
            out
        },
        Layout::Scoped => render_run_id(node, layout),
    }
}

/// A configured value, or the default.
pub open spec fn setting_of(
    rows: Seq<config::ConfigRow>,
    key: Seq<char>,
    default: Seq<char>,
) -> Seq<char> {
    match config::find_row(rows, key, 0) {
        Some(i) => rows[i].value,
        None => default,
    }
}

/// A configured value, or the default.
pub fn setting<'a>(config: &'a ConfigStore, key: &str, default: &'a str) -> (r: &'a str)
    ensures
        r@ == setting_of(config@, key@, default@),
{
    match config.get(key) {
        Some(value) => value,
        None => default,
    }
}

/// One device-budget class: bytes, operations and deferrals.
pub open spec fn class_line(t: Seq<char>, c: ClassBudget) -> Seq<char> {
    let t = t + "io_budget_bytes_"@ + c.name@ + ":"@ + text::dec_chars(c.bytes as nat) + "\r\n"@;
    let t = t + "io_budget_ops_"@ + c.name@ + ":"@ + text::dec_chars(c.ops as nat) + "\r\n"@;
    t + "io_budget_deferrals_"@ + c.name@ + ":"@ + text::dec_chars(c.deferrals as nat) + "\r\n"@
}

/// The device-budget classes, in order.
pub open spec fn class_text(t: Seq<char>, classes: Seq<ClassBudget>) -> Seq<char>
    decreases classes.len(),
{
    if classes.len() == 0 {
        t
    } else {
        class_line(class_text(t, classes.drop_last()), classes.last())
    }
}

fn class_lines(text: &mut String, classes: &[ClassBudget])
    ensures
        final(text)@ == class_text(old(text)@, classes@),
{
    let mut i: usize = 0;
    proof {
        assert(classes@.take(0) =~= Seq::empty());
    }
    while i < classes.len()
        invariant
            i <= classes@.len(),
            text@ == class_text(old(text)@, classes@.take(i as int)),
        decreases classes.len() - i,
    {
        proof {
            assert(classes@.take(i + 1).drop_last() =~= classes@.take(i as int));
            assert(classes@.take(i + 1).last() == classes@[i as int]);
        }
        let c = &classes[i];
        text.append("io_budget_bytes_");
        text.append(c.name.as_str());
        text.append(":");
        text::append_dec(text, c.bytes);
        text.append("\r\n");
        text.append("io_budget_ops_");
        text.append(c.name.as_str());
        text.append(":");
        text::append_dec(text, c.ops);
        text.append("\r\n");
        text.append("io_budget_deferrals_");
        text.append(c.name.as_str());
        text.append(":");
        text::append_dec(text, c.deferrals);
        text.append("\r\n");
        i += 1;
    }
    proof {
        assert(classes@.take(i as int) =~= classes@);
    }
}

/// One line per database that holds keys.
pub open spec fn db_text(t: Seq<char>, dbs: Seq<DbCount>) -> Seq<char>
    decreases dbs.len(),
{
    if dbs.len() == 0 {
        t
    } else {
        let rest = db_text(t, dbs.drop_last());
        let d = dbs.last();
        if d.keys == 0 {
            rest
        } else {
            rest + "db"@ + text::dec_chars(d.db as nat) + ":keys="@ + text::dec_chars(
                d.keys as nat,
            ) + ",expires="@ + text::dec_chars(d.expires as nat) + ",avg_ttl=0\r\n"@
        }
    }
}

fn db_lines(text: &mut String, dbs: &[DbCount])
    ensures
        final(text)@ == db_text(old(text)@, dbs@),
{
    let mut i: usize = 0;
    proof {
        assert(dbs@.take(0) =~= Seq::empty());
    }
    while i < dbs.len()
        invariant
            i <= dbs@.len(),
            text@ == db_text(old(text)@, dbs@.take(i as int)),
        decreases dbs.len() - i,
    {
        proof {
            assert(dbs@.take(i + 1).drop_last() =~= dbs@.take(i as int));
            assert(dbs@.take(i + 1).last() == dbs@[i as int]);
        }
        let d = dbs[i];
        if d.keys != 0 {
            text.append("db");
            text::append_dec(text, d.db as u64);
            text.append(":keys=");
            text::append_dec(text, d.keys);
            text.append(",expires=");
            text::append_dec(text, d.expires);
            text.append(",avg_ttl=0\r\n");
        }
        i += 1;
    }
    proof {
        assert(dbs@.take(i as int) =~= dbs@);
    }
}

/// A write-amplification ratio in thousandths; `undefined` where bytes were
/// written and none admitted.
pub open spec fn amp_text(milli: Option<u64>) -> Seq<char> {
    match milli {
        Some(n) => text::dec_chars(n as nat),
        None => "undefined"@,
    }
}

fn append_amp(text: &mut String, milli: Option<u64>)
    ensures
        final(text)@ == old(text)@ + amp_text(milli),
{
    match milli {
        Some(n) => text::append_dec(text, n),
        None => text.append("undefined"),
    }
}

/// Which admission leg refuses.
pub open spec fn disk_label(full: DiskFull) -> Seq<char> {
    match full {
        DiskFull::Clear => "none"@,
        DiskFull::Budget => "budget"@,
        DiskFull::Device => "device"@,
    }
}

fn disk_name(full: DiskFull) -> (r: &'static str)
    ensures
        r@ == disk_label(full),
{
    match full {
        DiskFull::Clear => "none",
        DiskFull::Budget => "budget",
        DiskFull::Device => "device",
    }
}

/// One tiered namespace's line: watermarks, budgets, write counters and
/// ratios.
pub open spec fn tier_ns_line(t: Seq<char>, n: TierNsFacts) -> Seq<char> {
    let t = t + "tiering_ns"@ + text::dec_chars(n.id as nat);
    let t = t + ":head="@ + text::dec_chars(n.head as nat);
    let t = t + ",flushed="@ + text::dec_chars(n.flushed as nat);
    let t = t + ",ro_boundary="@ + text::dec_chars(n.ro_boundary as nat);
    let t = t + ",tail="@ + text::dec_chars(n.tail as nat);
    let t = t + ",committed_bytes="@ + text::dec_chars(n.committed_bytes as nat);
    let t = t + ",budget_bytes="@ + text::dec_chars(n.budget_bytes as nat);
    let t = t + ",disk_budget_bytes="@ + text::dec_chars(n.disk_budget_bytes as nat);
    let t = t + ",mutable_permille="@ + text::dec_chars(n.mutable_permille as nat);
    let t = t + ",live_bytes="@ + text::dec_chars(n.live_bytes as nat);
    let t = t + ",dead_bytes="@ + text::dec_chars(n.dead_bytes as nat);
    let t = t + ",user_bytes="@ + text::dec_chars(n.user_bytes as nat);
    let t = t + ",wal_bytes="@ + text::dec_chars(n.wal_bytes as nat);
    let t = t + ",flush_bytes="@ + text::dec_chars(n.flush_bytes as nat);
    let t = t + ",compaction_bytes="@ + text::dec_chars(n.compaction_bytes as nat);
    let t = t + ",write_amp_milli="@ + amp_text(n.write_amp_milli);
    let t = t + ",blob_user_bytes="@ + text::dec_chars(n.blob_user_bytes as nat);
    let t = t + ",blob_bytes="@ + text::dec_chars(n.blob_bytes as nat);
    let t = t + ",blob_write_amp_milli="@ + amp_text(n.blob_write_amp_milli);
    let t = t + ",blob_extents_live="@ + text::dec_chars(n.blob_extents_live as nat);
    let t = t + ",blob_disk_bytes="@ + text::dec_chars(n.blob_disk_bytes as nat);
    let t = t + ",disk_used_bytes="@ + text::dec_chars(n.disk_used_bytes as nat);
    let t = t + ",disk_full="@ + disk_label(n.disk_full);
    let t = t + ",diskfull_refusals="@ + text::dec_chars(n.diskfull_refusals as nat);
    let t = t + ",compact_idle_pressure="@ + text::dec_chars(n.compact_idle_pressure as nat);
    let t = t + ",promotions="@ + text::dec_chars(n.promotions as nat);
    let t = t + ",promoted_bytes="@ + text::dec_chars(n.promoted_bytes as nat);
    let t = t + ",shadow_pending="@ + text::dec_chars(n.shadow_pending as nat);
    let t = t + ",shadow_pinned_bytes="@ + text::dec_chars(n.shadow_pinned_bytes as nat);
    t + "\r\n"@
}

/// The tiered namespaces' lines, in order.
pub open spec fn tiering_namespace_text(t: Seq<char>, ns: Seq<TierNsFacts>) -> Seq<char>
    decreases ns.len(),
{
    if ns.len() == 0 {
        t
    } else {
        tier_ns_line(tiering_namespace_text(t, ns.drop_last()), ns.last())
    }
}

/// The tiered namespaces' lines, in order.
pub fn tiering_namespace_lines(text: &mut String, ns: &[TierNsFacts])
    ensures
        final(text)@ == tiering_namespace_text(old(text)@, ns@),
{
    let mut i: usize = 0;
    proof {
        assert(ns@.take(0) =~= Seq::empty());
    }
    while i < ns.len()
        invariant
            i <= ns@.len(),
            text@ == tiering_namespace_text(old(text)@, ns@.take(i as int)),
        decreases ns.len() - i,
    {
        proof {
            assert(ns@.take(i + 1).drop_last() =~= ns@.take(i as int));
            assert(ns@.take(i + 1).last() == ns@[i as int]);
        }
        let n = &ns[i];
        text.append("tiering_ns");
        text::append_dec(text, n.id as u64);
        text.append(":head=");
        text::append_dec(text, n.head as u64);
        text.append(",flushed=");
        text::append_dec(text, n.flushed as u64);
        text.append(",ro_boundary=");
        text::append_dec(text, n.ro_boundary as u64);
        text.append(",tail=");
        text::append_dec(text, n.tail as u64);
        text.append(",committed_bytes=");
        text::append_dec(text, n.committed_bytes as u64);
        text.append(",budget_bytes=");
        text::append_dec(text, n.budget_bytes as u64);
        text.append(",disk_budget_bytes=");
        text::append_dec(text, n.disk_budget_bytes as u64);
        text.append(",mutable_permille=");
        text::append_dec(text, n.mutable_permille as u64);
        text.append(",live_bytes=");
        text::append_dec(text, n.live_bytes as u64);
        text.append(",dead_bytes=");
        text::append_dec(text, n.dead_bytes as u64);
        text.append(",user_bytes=");
        text::append_dec(text, n.user_bytes as u64);
        text.append(",wal_bytes=");
        text::append_dec(text, n.wal_bytes as u64);
        text.append(",flush_bytes=");
        text::append_dec(text, n.flush_bytes as u64);
        text.append(",compaction_bytes=");
        text::append_dec(text, n.compaction_bytes as u64);
        text.append(",write_amp_milli=");
        append_amp(text, n.write_amp_milli);
        text.append(",blob_user_bytes=");
        text::append_dec(text, n.blob_user_bytes as u64);
        text.append(",blob_bytes=");
        text::append_dec(text, n.blob_bytes as u64);
        text.append(",blob_write_amp_milli=");
        append_amp(text, n.blob_write_amp_milli);
        text.append(",blob_extents_live=");
        text::append_dec(text, n.blob_extents_live as u64);
        text.append(",blob_disk_bytes=");
        text::append_dec(text, n.blob_disk_bytes as u64);
        text.append(",disk_used_bytes=");
        text::append_dec(text, n.disk_used_bytes as u64);
        text.append(",disk_full=");
        text.append(disk_name(n.disk_full));
        text.append(",diskfull_refusals=");
        text::append_dec(text, n.diskfull_refusals as u64);
        text.append(",compact_idle_pressure=");
        text::append_dec(text, n.compact_idle_pressure as u64);
        text.append(",promotions=");
        text::append_dec(text, n.promotions as u64);
        text.append(",promoted_bytes=");
        text::append_dec(text, n.promoted_bytes as u64);
        text.append(",shadow_pending=");
        text::append_dec(text, n.shadow_pending as u64);
        text.append(",shadow_pinned_bytes=");
        text::append_dec(text, n.shadow_pinned_bytes as u64);
        text.append("\r\n");
        i += 1;
    }
    proof {
        assert(ns@.take(i as int) =~= ns@);
    }
}

/// The log gauges.
pub open spec fn log_gauge_text(t: Seq<char>, f: InfoFacts) -> Seq<char> {
    let t = lines::num(t, "log_records_appended"@, f.node.log_records_appended as nat);
    let t = lines::num(t, "pending_log_bytes"@, f.node.log_pending_bytes as nat);
    let t = lines::num(t, "last_durable_lsn"@, f.node.log_last_durable_lsn as nat);
    let t = lines::num(t, "watermark_lag_lsn"@, f.node.log_watermark_lag as nat);
    let t = lines::num(t, "fsyncs_completed"@, f.node.log_fsyncs_completed as nat);
    let t = lines::num(t, "acks_gated"@, f.node.log_acks_gated as nat);
    let t = lines::num(t, "log_frames_queued"@, f.node.log_frames_queued as nat);
    let t = lines::num(t, "log_staging_bytes"@, f.node.log_staging_bytes as nat);
    let t = lines::num(t, "log_admission_busy"@, f.node.log_admission_busy as nat);
    let t = lines::num(t, "log_admission_oversized"@, f.node.log_admission_oversized as nat);
    let t = lines::num(t, "log_admission_parked"@, f.node.log_admission_parked as nat);
    let t = lines::num(t, "log_admission_parked_total"@, f.node.log_admission_parked_total as nat);
    let t = lines::num(t, "log_staging_capacity_bytes"@, f.node.log_staging_capacity as nat);
    let t = lines::num(t, "log_write_stall_p50_us"@, f.node.log_write_stall_p50_us as nat);
    let t = lines::num(t, "log_write_stall_p99_us"@, f.node.log_write_stall_p99_us as nat);
    let t = lines::num(t, "log_write_stall_p999_us"@, f.node.log_write_stall_p999_us as nat);
    t
}

/// The log gauges.
pub fn log_gauge_lines(text: &mut String, f: &InfoFacts)
    ensures
        final(text)@ == log_gauge_text(old(text)@, *f),
{
    lines::push_num(text, "log_records_appended", f.node.log_records_appended);
    lines::push_num(text, "pending_log_bytes", f.node.log_pending_bytes);
    lines::push_num(text, "last_durable_lsn", f.node.log_last_durable_lsn);
    lines::push_num(text, "watermark_lag_lsn", f.node.log_watermark_lag);
    lines::push_num(text, "fsyncs_completed", f.node.log_fsyncs_completed);
    lines::push_num(text, "acks_gated", f.node.log_acks_gated);
    lines::push_num(text, "log_frames_queued", f.node.log_frames_queued);
    lines::push_num(text, "log_staging_bytes", f.node.log_staging_bytes);
    lines::push_num(text, "log_admission_busy", f.node.log_admission_busy);
    lines::push_num(text, "log_admission_oversized", f.node.log_admission_oversized);
    lines::push_num(text, "log_admission_parked", f.node.log_admission_parked);
    lines::push_num(text, "log_admission_parked_total", f.node.log_admission_parked_total);
    lines::push_num(text, "log_staging_capacity_bytes", f.node.log_staging_capacity);
    lines::push_num(text, "log_write_stall_p50_us", f.node.log_write_stall_p50_us);
    lines::push_num(text, "log_write_stall_p99_us", f.node.log_write_stall_p99_us);
    lines::push_num(text, "log_write_stall_p999_us", f.node.log_write_stall_p999_us);
}

/// The sync gauges.
pub open spec fn fsync_gauge_text(t: Seq<char>, f: InfoFacts) -> Seq<char> {
    let t = lines::num(t, "fsyncs_per_sec"@, f.node.fsyncs_per_sec as nat);
    let t = lines::num(t, "acks_per_sec"@, f.node.acks_per_sec as nat);
    let t = lines::num(t, "fsync_latency_p50_us"@, f.node.fsync_p50_us as nat);
    let t = lines::num(t, "fsync_latency_p99_us"@, f.node.fsync_p99_us as nat);
    let t = lines::num(t, "fsync_latency_p999_us"@, f.node.fsync_p999_us as nat);
    let t = lines::num(t, "fsync_group_p50"@, f.node.fsync_group_p50 as nat);
    let t = lines::num(t, "fsync_group_p99"@, f.node.fsync_group_p99 as nat);
    let t = lines::num(t, "fsyncs_linked"@, f.node.fsyncs_linked as nat);
    let t = lines::num(t, "fsyncs_seal"@, f.node.fsyncs_seal as nat);
    let t = lines::num(t, "fsyncs_standalone"@, f.node.fsyncs_standalone as nat);
    let t = lines::num(t, "fsyncs_completion"@, f.node.fsyncs_completion as nat);
    t
}

/// The sync gauges.
pub fn fsync_gauge_lines(text: &mut String, f: &InfoFacts)
    ensures
        final(text)@ == fsync_gauge_text(old(text)@, *f),
{
    lines::push_num(text, "fsyncs_per_sec", f.node.fsyncs_per_sec);
    lines::push_num(text, "acks_per_sec", f.node.acks_per_sec);
    lines::push_num(text, "fsync_latency_p50_us", f.node.fsync_p50_us);
    lines::push_num(text, "fsync_latency_p99_us", f.node.fsync_p99_us);
    lines::push_num(text, "fsync_latency_p999_us", f.node.fsync_p999_us);
    lines::push_num(text, "fsync_group_p50", f.node.fsync_group_p50);
    lines::push_num(text, "fsync_group_p99", f.node.fsync_group_p99);
    lines::push_num(text, "fsyncs_linked", f.node.fsyncs_linked);
    lines::push_num(text, "fsyncs_seal", f.node.fsyncs_seal);
    lines::push_num(text, "fsyncs_standalone", f.node.fsyncs_standalone);
    lines::push_num(text, "fsyncs_completion", f.node.fsyncs_completion);
}

/// The barrier, frame-pipeline and device-model gauges.
pub open spec fn barrier_gauge_text(t: Seq<char>, f: InfoFacts) -> Seq<char> {
    let t = lines::txt(t, "barrier_class"@, class_label(f.node.barrier_class_fua));
    let t = lines::txt(t, "io_class_configured"@, class_label(f.node.io_class_configured_fua));
    let t = lines::num(t, "fsyncs_fua"@, f.node.fsyncs_fua as nat);
    let t = lines::num(t, "fua_latency_p50_us"@, f.node.fua_p50_us as nat);
    let t = lines::num(t, "fua_latency_p99_us"@, f.node.fua_p99_us as nat);
    let t = lines::num(t, "log_padding_bytes"@, f.node.log_padding_bytes as nat);
    let t = lines::num(t, "zero_fill_bytes"@, f.node.zero_fill_bytes as nat);
    let t = lines::num(t, "rotations_unzeroed"@, f.node.rotations_unzeroed as nat);
    let t = lines::num(t, "rotations_upgrade"@, f.node.rotations_upgrade as nat);
    let t = lines::num(t, "reopened_packed_tails"@, f.node.reopened_packed_tails as nat);
    let t = lines::num(t, "barrier_class_degraded"@, f.node.barrier_class_degraded as nat);
    let t = lines::num(t, "frames_in_flight"@, f.node.frames_in_flight as nat);
    let t = lines::num(t, "frames_in_flight_max"@, f.node.frames_in_flight_max as nat);
    let t = lines::num(t, "frame_waits_barrier"@, f.node.frame_waits_barrier as nat);
    let t = lines::num(t, "frame_waits_rotation"@, f.node.frame_waits_rotation as nat);
    let t = lines::num(t, "frame_waits_reorder"@, f.node.frame_waits_reorder as nat);
    let t = lines::num(t, "frame_waits_fill"@, f.node.frame_waits_fill as nat);
    let t = lines::num(t, "fill_window_us"@, f.node.fill_window_us as nat);
    let t = lines::num(t, "fill_target_bytes"@, f.node.fill_target_bytes as nat);
    let t = lines::num(t, "frame_waits_group"@, f.node.frame_waits_group as nat);
    let t = lines::num(t, "flush_group_window_us"@, f.node.flush_group_window_us as nat);
    let t = lines::num(t, "frame_records_last"@, f.node.frame_records_last as nat);
    let t = lines::num(t, "group_round_target"@, f.node.group_round_target as nat);
    let t = lines::txt(t, "io_properties_source"@, f.node.io_provenance.source@);
    let t = lines::num(t, "io_properties_schema"@, f.node.io_provenance.schema as nat);
    let t = lines::txt(t, "io_properties_identity"@, f.node.io_provenance.identity@);
    t
}

/// The barrier, frame-pipeline and device-model gauges.
pub fn barrier_gauge_lines(text: &mut String, f: &InfoFacts)
    ensures
        final(text)@ == barrier_gauge_text(old(text)@, *f),
{
    lines::push_txt(text, "barrier_class", class_name(f.node.barrier_class_fua));
    lines::push_txt(text, "io_class_configured", class_name(f.node.io_class_configured_fua));
    lines::push_num(text, "fsyncs_fua", f.node.fsyncs_fua);
    lines::push_num(text, "fua_latency_p50_us", f.node.fua_p50_us);
    lines::push_num(text, "fua_latency_p99_us", f.node.fua_p99_us);
    lines::push_num(text, "log_padding_bytes", f.node.log_padding_bytes);
    lines::push_num(text, "zero_fill_bytes", f.node.zero_fill_bytes);
    lines::push_num(text, "rotations_unzeroed", f.node.rotations_unzeroed);
    lines::push_num(text, "rotations_upgrade", f.node.rotations_upgrade);
    lines::push_num(text, "reopened_packed_tails", f.node.reopened_packed_tails);
    lines::push_num(text, "barrier_class_degraded", f.node.barrier_class_degraded);
    lines::push_num(text, "frames_in_flight", f.node.frames_in_flight);
    lines::push_num(text, "frames_in_flight_max", f.node.frames_in_flight_max);
    lines::push_num(text, "frame_waits_barrier", f.node.frame_waits_barrier);
    lines::push_num(text, "frame_waits_rotation", f.node.frame_waits_rotation);
    lines::push_num(text, "frame_waits_reorder", f.node.frame_waits_reorder);
    lines::push_num(text, "frame_waits_fill", f.node.frame_waits_fill);
    lines::push_num(text, "fill_window_us", f.node.fill_window_us);
    lines::push_num(text, "fill_target_bytes", f.node.fill_target_bytes);
    lines::push_num(text, "frame_waits_group", f.node.frame_waits_group);
    lines::push_num(text, "flush_group_window_us", f.node.flush_group_window_us);
    lines::push_num(text, "frame_records_last", f.node.frame_records_last);
    lines::push_num(text, "group_round_target", f.node.group_round_target);
    lines::push_txt(text, "io_properties_source", f.node.io_provenance.source.as_str());
    lines::push_num(text, "io_properties_schema", f.node.io_provenance.schema as u64);
    lines::push_txt(text, "io_properties_identity", f.node.io_provenance.identity.as_str());
}

/// The device budget's ledger and the checkpoint domain's bytes.
pub open spec fn io_budget_text(t: Seq<char>, f: InfoFacts) -> Seq<char> {
    let t = lines::txt(
        t,
        "io_budget_model"@,
        if f.node.io_budget_model_absent == 1 { "absent"@ } else { "probed"@ },
    );
    let t = lines::num(
        t,
        "io_budget_write_bytes_per_s"@,
        f.node.io_budget_write_bytes_per_s as nat,
    );
    let t = lines::num(t, "io_budget_read_bytes_per_s"@, f.node.io_budget_read_bytes_per_s as nat);
    let t = class_text(t, f.node.io_budget@);
    let t = lines::num(t, "frame_waits_pace"@, f.node.frame_waits_pace as nat);
    let t = lines::num(t, "log_frame_bytes"@, f.node.log_frame_bytes as nat);
    let t = lines::num(t, "ckpt_bytes_total"@, f.node.ckpt_bytes_total as nat);
    let t = lines::num(t, "ckpt_bytes_last"@, f.node.ckpt_bytes_last as nat);
    let t = lines::num(t, "ckpt_padding_bytes"@, f.node.ckpt_padding_bytes as nat);
    let t = lines::num(t, "manifest_bytes_total"@, f.node.manifest_bytes_total as nat);
    let t = lines::num(t, "ckpt_interval_bytes"@, f.node.ckpt_interval_bytes as nat);
    let t = lines::num(t, "ckpt_replay_bytes_per_s"@, f.node.ckpt_replay_bytes_per_s as nat);
    let t = lines::num(t, "ckpt_cap_bytes"@, f.node.ckpt_cap_bytes as nat);
    let t = lines::txt(
        t,
        "ckpt_io_mode"@,
        if f.node.ckpt_io_mode_buffered == 1 { "buffered"@ } else { "direct"@ },
    );
    let t = lines::num(t, "ckpt_records_since_begin"@, f.node.ckpt_records_since_begin as nat);
    let t = lines::num(
        t,
        "write_amp_milli_log_checkpoint"@,
        f.node.write_amp_milli_log_checkpoint as nat,
    );
    let t = lines::num(
        t,
        "write_amp_log_checkpoint_undefined"@,
        f.node.write_amp_log_checkpoint_undefined as nat,
    );
    t
}

/// The device budget's ledger and the checkpoint domain's bytes.
pub fn io_budget_lines(text: &mut String, f: &InfoFacts)
    ensures
        final(text)@ == io_budget_text(old(text)@, *f),
{
    lines::push_txt(
        text,
        "io_budget_model",
        if f.node.io_budget_model_absent == 1 { "absent" } else { "probed" },
    );
    lines::push_num(text, "io_budget_write_bytes_per_s", f.node.io_budget_write_bytes_per_s);
    lines::push_num(text, "io_budget_read_bytes_per_s", f.node.io_budget_read_bytes_per_s);
    class_lines(text, f.node.io_budget.as_slice());
    lines::push_num(text, "frame_waits_pace", f.node.frame_waits_pace);
    lines::push_num(text, "log_frame_bytes", f.node.log_frame_bytes);
    lines::push_num(text, "ckpt_bytes_total", f.node.ckpt_bytes_total);
    lines::push_num(text, "ckpt_bytes_last", f.node.ckpt_bytes_last);
    lines::push_num(text, "ckpt_padding_bytes", f.node.ckpt_padding_bytes);
    lines::push_num(text, "manifest_bytes_total", f.node.manifest_bytes_total);
    lines::push_num(text, "ckpt_interval_bytes", f.node.ckpt_interval_bytes);
    lines::push_num(text, "ckpt_replay_bytes_per_s", f.node.ckpt_replay_bytes_per_s);
    lines::push_num(text, "ckpt_cap_bytes", f.node.ckpt_cap_bytes);
    lines::push_txt(
        text,
        "ckpt_io_mode",
        if f.node.ckpt_io_mode_buffered == 1 { "buffered" } else { "direct" },
    );
    lines::push_num(text, "ckpt_records_since_begin", f.node.ckpt_records_since_begin);
    lines::push_num(text, "write_amp_milli_log_checkpoint", f.node.write_amp_milli_log_checkpoint);
    lines::push_num(
        text,
        "write_amp_log_checkpoint_undefined",
        f.node.write_amp_log_checkpoint_undefined,
    );
}

/// The segment-recycling gauges.
pub open spec fn recycle_gauge_text(t: Seq<char>, f: InfoFacts, layout: Layout) -> Seq<char> {
    let t = lines::num(t, "accounted_host_write_bytes"@, f.node.accounted_host_write_bytes as nat);
    let t = lines::num(
        t,
        "write_amp_milli_accounted_host"@,
        f.node.write_amp_milli_accounted_host as nat,
    );
    let t = lines::num(t, "segments_recycled"@, f.node.segments_recycled as nat);
    let t = lines::num(t, "recycle_misses"@, f.node.recycle_misses as nat);
    let t = lines::num(t, "recycle_fallbacks"@, f.node.recycle_fallbacks as nat);
    let t = lines::num(t, "recycle_pool_bytes"@, f.node.recycle_pool_bytes as nat);
    let t = lines::num(t, "recycle_pool_full"@, f.node.recycle_pool_full as nat);
    let t = if layout == Layout::Scoped {
        lines::num(t, "recycle_sentinels"@, f.node.recycle_sentinels as nat)
    } else {
        t
    };
    let t = lines::num(t, "segment_rotations"@, f.node.segment_rotations as nat);
    let t = lines::num(t, "segment_preallocs"@, f.node.segment_preallocs as nat);
    let t = lines::num(t, "segment_inline_preallocs"@, f.node.segment_inline_preallocs as nat);
    let t = lines::num(t, "segment_prealloc_failures"@, f.node.segment_prealloc_failures as nat);
    let t = lines::num(t, "recycle_waits_started"@, f.node.recycle_waits_started as nat);
    let t = lines::num(t, "recycle_waits_satisfied"@, f.node.recycle_waits_satisfied as nat);
    let t = lines::num(t, "recycle_waits_expired"@, f.node.recycle_waits_expired as nat);
    let t = lines::num(
        t,
        "recycle_wait_active_bytes_max"@,
        f.node.recycle_wait_active_bytes_max as nat,
    );
    let t = lines::num(
        t,
        "recover_segment_residue_stops"@,
        f.node.recover_segment_residue_stops as nat,
    );
    let t = lines::num(
        t,
        "recover_recycled_residue_slacks"@,
        f.node.recover_recycled_residue_slacks as nat,
    );
    let t = if layout == Layout::Scoped {
        lines::num(t, "recover_stale_residue_slacks"@, f.node.recover_stale_residue_slacks as nat)
    } else {
        t
    };
    t
}

/// The segment-recycling gauges.
pub fn recycle_gauge_lines(text: &mut String, f: &InfoFacts, layout: Layout)
    ensures
        final(text)@ == recycle_gauge_text(old(text)@, *f, layout),
{
    lines::push_num(text, "accounted_host_write_bytes", f.node.accounted_host_write_bytes);
    lines::push_num(text, "write_amp_milli_accounted_host", f.node.write_amp_milli_accounted_host);
    lines::push_num(text, "segments_recycled", f.node.segments_recycled);
    lines::push_num(text, "recycle_misses", f.node.recycle_misses);
    lines::push_num(text, "recycle_fallbacks", f.node.recycle_fallbacks);
    lines::push_num(text, "recycle_pool_bytes", f.node.recycle_pool_bytes);
    lines::push_num(text, "recycle_pool_full", f.node.recycle_pool_full);
    if layout == Layout::Scoped {
        lines::push_num(text, "recycle_sentinels", f.node.recycle_sentinels);
    }
    lines::push_num(text, "segment_rotations", f.node.segment_rotations);
    lines::push_num(text, "segment_preallocs", f.node.segment_preallocs);
    lines::push_num(text, "segment_inline_preallocs", f.node.segment_inline_preallocs);
    lines::push_num(text, "segment_prealloc_failures", f.node.segment_prealloc_failures);
    lines::push_num(text, "recycle_waits_started", f.node.recycle_waits_started);
    lines::push_num(text, "recycle_waits_satisfied", f.node.recycle_waits_satisfied);
    lines::push_num(text, "recycle_waits_expired", f.node.recycle_waits_expired);
    lines::push_num(text, "recycle_wait_active_bytes_max", f.node.recycle_wait_active_bytes_max);
    lines::push_num(text, "recover_segment_residue_stops", f.node.recover_segment_residue_stops);
    lines::push_num(
        text,
        "recover_recycled_residue_slacks",
        f.node.recover_recycled_residue_slacks,
    );
    if layout == Layout::Scoped {
        lines::push_num(text, "recover_stale_residue_slacks", f.node.recover_stale_residue_slacks);
    }
}

/// The boot's recovery by phase, in bytes and microseconds.
pub open spec fn recover_gauge_text(t: Seq<char>, f: InfoFacts, layout: Layout) -> Seq<char> {
    let t = lines::num(t, "recover_start_us"@, (f.node.recover_phases.start_ns / 1000) as nat);
    let t = lines::num(t, "recover_ckpt_bytes"@, f.node.recover_phases.ckpt_bytes as nat);
    let t = lines::num(t, "recover_ckpt_us"@, (f.node.recover_phases.ckpt_ns / 1000) as nat);
    let t = lines::num(t, "recover_replay_bytes"@, f.node.recover_phases.replay_bytes as nat);
    let t = lines::num(t, "recover_replay_frames"@, f.node.recover_phases.replay_frames as nat);
    let t = lines::num(t, "recover_replay_us"@, (f.node.recover_phases.replay_ns / 1000) as nat);
    let t = lines::num(t, "recover_audit_bytes"@, f.node.recover_phases.audit_bytes as nat);
    let t = lines::num(
        t,
        "recover_audit_valid_frames"@,
        f.node.recover_phases.audit_valid_frames as nat,
    );
    let t = lines::num(
        t,
        "recover_audit_foreign_frames"@,
        f.node.recover_phases.audit_foreign_frames as nat,
    );
    let t = lines::num(t, "recover_audit_us"@, (f.node.recover_phases.audit_ns / 1000) as nat);
    let t = lines::num(t, "recover_finish_us"@, (f.node.recover_phases.finish_ns / 1000) as nat);
    let t = lines::num(
        t,
        "recover_stale_files_removed"@,
        f.node.recover_stale_files_removed as nat,
    );
    let t = lines::num(t, "recover_records"@, f.node.recover_records as nat);
    let t = if layout == Layout::Scoped {
        lines::num(t, "recover_replay_records"@, f.node.recover_replay_records as nat)
    } else {
        t
    };
    let t = lines::num(t, "recover_total_us"@, (f.node.recover_phases.total_ns / 1000) as nat);
    t
}

/// The boot's recovery by phase, in bytes and microseconds.
pub fn recover_gauge_lines(text: &mut String, f: &InfoFacts, layout: Layout)
    ensures
        final(text)@ == recover_gauge_text(old(text)@, *f, layout),
{
    lines::push_num(text, "recover_start_us", f.node.recover_phases.start_ns / 1000);
    lines::push_num(text, "recover_ckpt_bytes", f.node.recover_phases.ckpt_bytes);
    lines::push_num(text, "recover_ckpt_us", f.node.recover_phases.ckpt_ns / 1000);
    lines::push_num(text, "recover_replay_bytes", f.node.recover_phases.replay_bytes);
    lines::push_num(text, "recover_replay_frames", f.node.recover_phases.replay_frames);
    lines::push_num(text, "recover_replay_us", f.node.recover_phases.replay_ns / 1000);
    lines::push_num(text, "recover_audit_bytes", f.node.recover_phases.audit_bytes);
    lines::push_num(text, "recover_audit_valid_frames", f.node.recover_phases.audit_valid_frames);
    lines::push_num(
        text,
        "recover_audit_foreign_frames",
        f.node.recover_phases.audit_foreign_frames,
    );
    lines::push_num(text, "recover_audit_us", f.node.recover_phases.audit_ns / 1000);
    lines::push_num(text, "recover_finish_us", f.node.recover_phases.finish_ns / 1000);
    lines::push_num(text, "recover_stale_files_removed", f.node.recover_stale_files_removed);
    lines::push_num(text, "recover_records", f.node.recover_records);
    if layout == Layout::Scoped {
        lines::push_num(text, "recover_replay_records", f.node.recover_replay_records);
    }
    lines::push_num(text, "recover_total_us", f.node.recover_phases.total_ns / 1000);
}

/// The checkpoint, manifest and truncation gauges.
pub open spec fn ckpt_gauge_text(t: Seq<char>, f: InfoFacts, layout: Layout) -> Seq<char> {
    let t = lines::num(t, "ckpts_completed"@, f.node.ckpts_completed as nat);
    let t = lines::num(t, "ckpts_aborted"@, f.node.ckpts_aborted as nat);
    let t = if layout == Layout::Scoped {
        lines::num(t, "ckpt_bound_splits"@, f.node.ckpt_bound_splits as nat)
    } else {
        t
    };
    let t = lines::num(t, "ckpt_last_unix_ms"@, f.node.ckpt_last_unix_ms as nat);
    let t = lines::num(t, "ckpt_last_begin_lsn"@, f.node.ckpt_last_begin_lsn as nat);
    let t = lines::num(t, "ckpt_buffer_bytes"@, f.node.ckpt_buffer_bytes as nat);
    let t = lines::num(t, "ckpt_age_s"@, f.node.ckpt_age_s as nat);
    let t = lines::num(t, "manifests_published"@, f.node.manifests_published as nat);
    let t = lines::num(t, "manifests_aborted"@, f.node.manifests_aborted as nat);
    let t = lines::num(t, "segments_truncated"@, f.node.segments_truncated as nat);
    let t = lines::num(t, "log_segments_live"@, f.node.log_segments_live as nat);
    t
}

/// The checkpoint, manifest and truncation gauges.
pub fn ckpt_gauge_lines(text: &mut String, f: &InfoFacts, layout: Layout)
    ensures
        final(text)@ == ckpt_gauge_text(old(text)@, *f, layout),
{
    lines::push_num(text, "ckpts_completed", f.node.ckpts_completed);
    lines::push_num(text, "ckpts_aborted", f.node.ckpts_aborted);
    if layout == Layout::Scoped {
        lines::push_num(text, "ckpt_bound_splits", f.node.ckpt_bound_splits);
    }
    lines::push_num(text, "ckpt_last_unix_ms", f.node.ckpt_last_unix_ms);
    lines::push_num(text, "ckpt_last_begin_lsn", f.node.ckpt_last_begin_lsn);
    lines::push_num(text, "ckpt_buffer_bytes", f.node.ckpt_buffer_bytes);
    lines::push_num(text, "ckpt_age_s", f.node.ckpt_age_s);
    lines::push_num(text, "manifests_published", f.node.manifests_published);
    lines::push_num(text, "manifests_aborted", f.node.manifests_aborted);
    lines::push_num(text, "segments_truncated", f.node.segments_truncated);
    lines::push_num(text, "log_segments_live", f.node.log_segments_live);
}

/// The index-maintenance, backfill and sidecar counters.
pub open spec fn index_stat_text(t: Seq<char>, f: InfoFacts) -> Seq<char> {
    let t = lines::num(t, "idx_maint_inserts"@, f.store.idx.maint_inserts as nat);
    let t = lines::num(t, "idx_maint_removes"@, f.store.idx.maint_removes as nat);
    let t = lines::num(t, "idx_maint_prunes"@, f.store.idx.maint_prunes as nat);
    let t = lines::num(t, "idx_skipped_sparse"@, f.store.idx.skipped_sparse as nat);
    let t = lines::num(t, "idx_skipped_inexact"@, f.store.idx.skipped_inexact as nat);
    let t = lines::num(t, "idx_skipped_nan"@, f.store.idx.skipped_nan as nat);
    let t = lines::num(t, "idx_skipped_toolong"@, f.store.idx.skipped_toolong as nat);
    let t = lines::num(t, "idx_degraded_trips"@, f.store.idx.degraded_trips as nat);
    let t = lines::num(t, "idx_backfill_walking"@, f.store.backfill.walking as nat);
    let t = lines::num(t, "idx_backfill_parked"@, f.store.backfill.parked as nat);
    let t = lines::num(t, "idx_backfill_published"@, f.store.backfill.published as nat);
    let t = lines::num(t, "idx_backfill_scanned"@, f.store.backfill.docs_scanned_total as nat);
    let t = lines::num(t, "idx_backfill_inserted"@, f.store.backfill.entries_inserted_total as nat);
    let t = lines::num(t, "idx_sidecar_loaded"@, f.store.sidecar.loaded as nat);
    let t = lines::num(t, "idx_sidecar_rebuilt"@, f.store.sidecar.rebuilt as nat);
    let t = lines::num(t, "idx_sidecar_entries_loaded"@, f.store.sidecar.entries_loaded as nat);
    let t = lines::num(t, "idx_sidecar_damaged"@, f.store.sidecar.damaged_sections as nat);
    t
}

/// The index-maintenance, backfill and sidecar counters.
pub fn index_stat_lines(text: &mut String, f: &InfoFacts)
    ensures
        final(text)@ == index_stat_text(old(text)@, *f),
{
    lines::push_num(text, "idx_maint_inserts", f.store.idx.maint_inserts);
    lines::push_num(text, "idx_maint_removes", f.store.idx.maint_removes);
    lines::push_num(text, "idx_maint_prunes", f.store.idx.maint_prunes);
    lines::push_num(text, "idx_skipped_sparse", f.store.idx.skipped_sparse);
    lines::push_num(text, "idx_skipped_inexact", f.store.idx.skipped_inexact);
    lines::push_num(text, "idx_skipped_nan", f.store.idx.skipped_nan);
    lines::push_num(text, "idx_skipped_toolong", f.store.idx.skipped_toolong);
    lines::push_num(text, "idx_degraded_trips", f.store.idx.degraded_trips);
    lines::push_num(text, "idx_backfill_walking", f.store.backfill.walking);
    lines::push_num(text, "idx_backfill_parked", f.store.backfill.parked);
    lines::push_num(text, "idx_backfill_published", f.store.backfill.published);
    lines::push_num(text, "idx_backfill_scanned", f.store.backfill.docs_scanned_total);
    lines::push_num(text, "idx_backfill_inserted", f.store.backfill.entries_inserted_total);
    lines::push_num(text, "idx_sidecar_loaded", f.store.sidecar.loaded);
    lines::push_num(text, "idx_sidecar_rebuilt", f.store.sidecar.rebuilt);
    lines::push_num(text, "idx_sidecar_entries_loaded", f.store.sidecar.entries_loaded);
    lines::push_num(text, "idx_sidecar_damaged", f.store.sidecar.damaged_sections);
}

/// The cold-read gauges. While a tiered table is live the RAM-hit
/// percentiles are absent and a named line says so: the clock cannot
/// resolve them.
pub open spec fn tiering_read_text(t: Seq<char>, f: InfoFacts, layout: Layout) -> Seq<char> {
    let t = if f.store.tables == 0 {
        lines::num(t, "tiering_ram_hit_p50_us"@, f.node.tiering_split@[0] as nat)
    } else {
        t
    };
    let t = if f.store.tables == 0 {
        lines::num(t, "tiering_ram_hit_p99_us"@, f.node.tiering_split@[1] as nat)
    } else {
        t
    };
    let t = if f.store.tables == 0 {
        lines::num(t, "tiering_ram_hit_p999_us"@, f.node.tiering_split@[2] as nat)
    } else {
        t
    };
    let t = if f.store.tables != 0 {
        lines::line(t, "tiering_ram_hit_split:unmeasured-iteration-clock"@)
    } else {
        t
    };
    let t = lines::num(t, "tiering_cold_p50_us"@, f.node.tiering_split@[3] as nat);
    let t = lines::num(t, "tiering_cold_p99_us"@, f.node.tiering_split@[4] as nat);
    let t = lines::num(t, "tiering_cold_p999_us"@, f.node.tiering_split@[5] as nat);
    let t = lines::num(t, "cold_read_qd_p99"@, f.node.tiering_split@[6] as nat);
    let t = lines::num(t, "coalesce_ratio_milli"@, f.node.tiering_split@[7] as nat);
    let t = lines::num(t, "cold_reads_inflight"@, f.node.tiering_split@[8] as nat);
    let t = lines::num(t, "cold_queue_depth"@, f.node.tiering_split@[9] as nat);
    let t = lines::num(t, "cold_read_p99_us"@, f.node.tiering_split@[10] as nat);
    let t = lines::num(t, "cold_reads_issued"@, f.node.tiering_split@[11] as nat);
    let t = lines::num(t, "cold_reads_enqueued"@, f.node.tiering_split@[12] as nat);
    let t = lines::num(t, "cold_pool_dry"@, f.node.tiering_split@[13] as nat);
    let t = lines::num(t, "cold_queue_full"@, f.node.tiering_split@[14] as nat);
    let t = lines::num(t, "tiering_tail_allocs"@, f.store.tiering.tail_allocs as nat);
    let t = lines::num(t, "tiering_seal_holes"@, f.store.tiering.seal_holes as nat);
    let t = lines::num(t, "tiering_seal_hole_bytes"@, f.store.tiering.seal_hole_bytes as nat);
    let t = lines::num(
        t,
        "tiering_region_commit_pages"@,
        f.store.tiering.region_commit_pages as nat,
    );
    let t = lines::num(
        t,
        "tiering_region_decommit_pages"@,
        f.store.tiering.region_decommit_pages as nat,
    );
    let t = lines::num(t, "tiering_cold_resolves"@, f.store.tiering.cold_resolves as nat);
    let t = if layout == Layout::Scoped {
        lines::num(t, "tiering_cold_read_errors"@, f.store.tiering.cold_read_errors as nat)
    } else {
        t
    };
    let t = if layout == Layout::Scoped {
        lines::num(t, "tiering_write_replans"@, f.store.tiering.write_replans as nat)
    } else {
        t
    };
    let t = if layout == Layout::Scoped {
        lines::num(t, "tiering_walk_behind"@, f.node.ckpt_walks_behind as nat)
    } else {
        t
    };
    let t = match f.node.blind_overwrites_ceiling {
        Some(n) => lines::num(t, "blind_overwrites_ceiling"@, n as nat),
        None => t,
    };
    t
}

/// The cold-read gauges. While a tiered table is live the RAM-hit
/// percentiles are absent and a named line says so: the clock cannot
/// resolve them.
pub fn tiering_read_lines(text: &mut String, f: &InfoFacts, layout: Layout)
    ensures
        final(text)@ == tiering_read_text(old(text)@, *f, layout),
{
    if f.store.tables == 0 {
        lines::push_num(text, "tiering_ram_hit_p50_us", f.node.tiering_split[0]);
    }
    if f.store.tables == 0 {
        lines::push_num(text, "tiering_ram_hit_p99_us", f.node.tiering_split[1]);
    }
    if f.store.tables == 0 {
        lines::push_num(text, "tiering_ram_hit_p999_us", f.node.tiering_split[2]);
    }
    if f.store.tables != 0 {
        lines::push(text, "tiering_ram_hit_split:unmeasured-iteration-clock");
    }
    lines::push_num(text, "tiering_cold_p50_us", f.node.tiering_split[3]);
    lines::push_num(text, "tiering_cold_p99_us", f.node.tiering_split[4]);
    lines::push_num(text, "tiering_cold_p999_us", f.node.tiering_split[5]);
    lines::push_num(text, "cold_read_qd_p99", f.node.tiering_split[6]);
    lines::push_num(text, "coalesce_ratio_milli", f.node.tiering_split[7]);
    lines::push_num(text, "cold_reads_inflight", f.node.tiering_split[8]);
    lines::push_num(text, "cold_queue_depth", f.node.tiering_split[9]);
    lines::push_num(text, "cold_read_p99_us", f.node.tiering_split[10]);
    lines::push_num(text, "cold_reads_issued", f.node.tiering_split[11]);
    lines::push_num(text, "cold_reads_enqueued", f.node.tiering_split[12]);
    lines::push_num(text, "cold_pool_dry", f.node.tiering_split[13]);
    lines::push_num(text, "cold_queue_full", f.node.tiering_split[14]);
    lines::push_num(text, "tiering_tail_allocs", f.store.tiering.tail_allocs);
    lines::push_num(text, "tiering_seal_holes", f.store.tiering.seal_holes);
    lines::push_num(text, "tiering_seal_hole_bytes", f.store.tiering.seal_hole_bytes);
    lines::push_num(text, "tiering_region_commit_pages", f.store.tiering.region_commit_pages);
    lines::push_num(text, "tiering_region_decommit_pages", f.store.tiering.region_decommit_pages);
    lines::push_num(text, "tiering_cold_resolves", f.store.tiering.cold_resolves);
    if layout == Layout::Scoped {
        lines::push_num(text, "tiering_cold_read_errors", f.store.tiering.cold_read_errors);
    }
    if layout == Layout::Scoped {
        lines::push_num(text, "tiering_write_replans", f.store.tiering.write_replans);
    }
    if layout == Layout::Scoped {
        lines::push_num(text, "tiering_walk_behind", f.node.ckpt_walks_behind);
    }
    if let Some(n) = f.node.blind_overwrites_ceiling {
        lines::push_num(text, "blind_overwrites_ceiling", n);
    }
}

/// The demotion and flush gauges.
pub open spec fn tiering_flush_text(t: Seq<char>, f: InfoFacts) -> Seq<char> {
    let t = lines::num(t, "tiering_tail_alloc_stalls"@, f.store.tiering.tail_alloc_stalls as nat);
    let t = lines::num(t, "tiering_demote_slices"@, f.store.tiering.demote_slices as nat);
    let t = lines::num(
        t,
        "tiering_demote_sealed_bytes"@,
        f.store.tiering.demote_sealed_bytes as nat,
    );
    let t = lines::num(t, "tiering_flush_slices"@, f.store.tiering.flush_slices as nat);
    let t = lines::num(
        t,
        "tiering_flush_confirmed_bytes"@,
        f.store.tiering.flush_confirmed_bytes as nat,
    );
    let t = lines::num(t, "tiering_flush_rounds"@, f.node.tier_flush@[0] as nat);
    let t = lines::num(t, "tiering_flush_write_retries"@, f.node.tier_flush@[1] as nat);
    let t = lines::num(t, "tiering_flush_stale_completions"@, f.node.tier_flush@[2] as nat);
    let t = lines::num(t, "tiering_flush_round_p50_us"@, f.node.tier_flush@[3] as nat);
    let t = lines::num(t, "tiering_flush_round_p99_us"@, f.node.tier_flush@[4] as nat);
    let t = lines::num(t, "tiering_flush_rounds_inflight"@, f.node.tier_flush@[5] as nat);
    let t = lines::num(t, "tiering_files_sealed"@, f.node.tier_flush@[6] as nat);
    let t = lines::num(t, "tiering_files_active"@, f.node.tier_flush@[7] as nat);
    let t = lines::num(t, "tiering_flush_rounds_deferred"@, f.node.tier_flush@[8] as nat);
    let t = lines::num(t, "tiering_compact_slices"@, f.store.tiering.compact_slices as nat);
    t
}

/// The demotion and flush gauges.
pub fn tiering_flush_lines(text: &mut String, f: &InfoFacts)
    ensures
        final(text)@ == tiering_flush_text(old(text)@, *f),
{
    lines::push_num(text, "tiering_tail_alloc_stalls", f.store.tiering.tail_alloc_stalls);
    lines::push_num(text, "tiering_demote_slices", f.store.tiering.demote_slices);
    lines::push_num(text, "tiering_demote_sealed_bytes", f.store.tiering.demote_sealed_bytes);
    lines::push_num(text, "tiering_flush_slices", f.store.tiering.flush_slices);
    lines::push_num(text, "tiering_flush_confirmed_bytes", f.store.tiering.flush_confirmed_bytes);
    lines::push_num(text, "tiering_flush_rounds", f.node.tier_flush[0]);
    lines::push_num(text, "tiering_flush_write_retries", f.node.tier_flush[1]);
    lines::push_num(text, "tiering_flush_stale_completions", f.node.tier_flush[2]);
    lines::push_num(text, "tiering_flush_round_p50_us", f.node.tier_flush[3]);
    lines::push_num(text, "tiering_flush_round_p99_us", f.node.tier_flush[4]);
    lines::push_num(text, "tiering_flush_rounds_inflight", f.node.tier_flush[5]);
    lines::push_num(text, "tiering_files_sealed", f.node.tier_flush[6]);
    lines::push_num(text, "tiering_files_active", f.node.tier_flush[7]);
    lines::push_num(text, "tiering_flush_rounds_deferred", f.node.tier_flush[8]);
    lines::push_num(text, "tiering_compact_slices", f.store.tiering.compact_slices);
}

/// The read-promotion counters.
pub open spec fn tiering_promotion_text(t: Seq<char>, f: InfoFacts) -> Seq<char> {
    let t = lines::num(t, "tiering_promotions"@, f.store.promotion.promotions as nat);
    let t = lines::num(t, "tiering_promoted_bytes"@, f.store.promotion.promoted_bytes as nat);
    let t = lines::num(t, "tiering_promote_first_touch"@, f.store.promotion.first_touch as nat);
    let t = lines::num(t, "tiering_promote_skip_window"@, f.store.promotion.skip_window as nat);
    let t = lines::num(t, "tiering_promote_skip_pinned"@, f.store.promotion.skip_pinned as nat);
    let t = lines::num(t, "tiering_promote_skip_disk"@, f.store.promotion.skip_disk as nat);
    let t = lines::num(t, "tiering_promote_skip_stale"@, f.store.promotion.skip_stale as nat);
    let t = lines::num(t, "tiering_promote_skip_cap"@, f.store.promotion.skip_cap as nat);
    t
}

/// The read-promotion counters.
pub fn tiering_promotion_lines(text: &mut String, f: &InfoFacts)
    ensures
        final(text)@ == tiering_promotion_text(old(text)@, *f),
{
    lines::push_num(text, "tiering_promotions", f.store.promotion.promotions);
    lines::push_num(text, "tiering_promoted_bytes", f.store.promotion.promoted_bytes);
    lines::push_num(text, "tiering_promote_first_touch", f.store.promotion.first_touch);
    lines::push_num(text, "tiering_promote_skip_window", f.store.promotion.skip_window);
    lines::push_num(text, "tiering_promote_skip_pinned", f.store.promotion.skip_pinned);
    lines::push_num(text, "tiering_promote_skip_disk", f.store.promotion.skip_disk);
    lines::push_num(text, "tiering_promote_skip_stale", f.store.promotion.skip_stale);
    lines::push_num(text, "tiering_promote_skip_cap", f.store.promotion.skip_cap);
}

/// The shadow-slot counters.
pub open spec fn tiering_shadow_text(t: Seq<char>, f: InfoFacts, layout: Layout) -> Seq<char> {
    let t = lines::num(t, "tiering_shadow_enabled"@, f.store.shadow.enabled as nat);
    let t = if layout == Layout::Scoped {
        lines::num(t, "tiering_shadow_reconcile_paused"@, f.store.shadow.reconcile_paused as nat)
    } else {
        t
    };
    let t = lines::num(t, "tiering_shadow_created"@, f.store.shadow.created as nat);
    let t = lines::num(
        t,
        "tiering_shadow_resolved_same_key"@,
        f.store.shadow.resolved_same_key as nat,
    );
    let t = lines::num(
        t,
        "tiering_shadow_resolved_collision"@,
        f.store.shadow.resolved_collision as nat,
    );
    let t = lines::num(t, "tiering_shadow_verified"@, f.store.shadow.verified as nat);
    let t = lines::num(
        t,
        "tiering_shadow_settled_without_read"@,
        f.store.shadow.settled_without_read as nat,
    );
    let t = lines::num(
        t,
        "tiering_shadow_verified_pending"@,
        f.store.shadow.verified_pending as nat,
    );
    let t = lines::num(t, "tiering_shadow_stale"@, f.store.shadow.stale as nat);
    let t = lines::num(t, "tiering_shadow_read_errors"@, f.store.shadow.read_errors as nat);
    let t = lines::num(t, "tiering_shadow_reads_issued"@, f.store.shadow.reads_issued as nat);
    let t = lines::num(
        t,
        "tiering_shadow_reads_foreground"@,
        f.store.shadow.reads_foreground as nat,
    );
    let t = lines::num(t, "tiering_shadow_pending"@, f.store.shadow.pending as nat);
    let t = lines::num(t, "tiering_shadow_pending_peak"@, f.store.shadow.pending_peak as nat);
    let t = lines::num(t, "tiering_shadow_pinned_bytes"@, f.store.shadow.pinned_bytes as nat);
    let t = lines::num(
        t,
        "tiering_shadow_pinned_bytes_peak"@,
        f.store.shadow.pinned_bytes_peak as nat,
    );
    let t = lines::num(t, "tiering_shadow_pin_cap_bytes"@, f.store.shadow.pin_cap_bytes as nat);
    let t = lines::num(t, "tiering_shadow_fallback_off"@, f.store.shadow.fallback_off as nat);
    let t = lines::num(t, "tiering_shadow_fallback_fence"@, f.store.shadow.fallback_fence as nat);
    let t = lines::num(t, "tiering_shadow_fallback_multi"@, f.store.shadow.fallback_multi as nat);
    let t = lines::num(
        t,
        "tiering_shadow_fallback_ticketed"@,
        f.store.shadow.fallback_ticketed as nat,
    );
    let t = lines::num(
        t,
        "tiering_shadow_fallback_tickets"@,
        f.store.shadow.fallback_tickets as nat,
    );
    let t = lines::num(t, "tiering_shadow_fallback_pin"@, f.store.shadow.fallback_pin as nat);
    let t = lines::num(t, "tiering_shadow_fallback_origin"@, f.store.shadow.fallback_origin as nat);
    let t = lines::num(
        t,
        "tiering_shadow_fallback_staging"@,
        f.node.shadow_fallback_staging as nat,
    );
    let t = lines::num(
        t,
        "tiering_shadow_exact_miss_inserts"@,
        f.store.shadow.exact_miss_inserts as nat,
    );
    let t = lines::num(
        t,
        "tiering_shadow_compaction_deferred"@,
        f.store.shadow.compaction_deferred as nat,
    );
    let t = lines::num(t, "tiering_shadow_promote_skip"@, f.store.shadow.promote_skip as nat);
    let t = lines::num(
        t,
        "tiering_shadow_scan_twins_emitted"@,
        f.store.shadow.scan_twins_emitted as nat,
    );
    let t = lines::num(
        t,
        "tiering_shadow_forced_by_delete"@,
        f.store.shadow.forced_by_delete as nat,
    );
    let t = if layout == Layout::Scoped {
        lines::num(
            t,
            "tiering_shadow_delete_run_refused"@,
            f.store.shadow.delete_run_refused as nat,
        )
    } else {
        t
    };
    let t = lines::num(t, "tiering_shadow_retargeted"@, f.store.shadow.retargeted as nat);
    let t = lines::num(
        t,
        "tiering_shadow_dropped_by_removal"@,
        f.store.shadow.dropped_by_removal as nat,
    );
    let t = lines::num(t, "tiering_shadow_deferred_walk"@, f.store.shadow.deferred_walk as nat);
    let t = lines::num(t, "tiering_shadow_deferred_origin"@, f.store.shadow.deferred_origin as nat);
    let t = lines::num(t, "tiering_shadow_dbsize_drains"@, f.store.shadow.dbsize_drains as nat);
    let t = lines::num(t, "tiering_shadow_dbsize_reads"@, f.store.shadow.dbsize_reads as nat);
    let t = if layout == Layout::Scoped {
        lines::num(t, "tiering_shadow_dbsize_fence"@, f.store.shadow.dbsize_fence as nat)
    } else {
        t
    };
    let t = lines::num(t, "tiering_shadow_rebuild_reads"@, f.store.shadow.rebuild_reads as nat);
    let t = lines::num(
        t,
        "tiering_shadow_rebuild_settled_same_key"@,
        f.store.shadow.rebuild_settled_same_key as nat,
    );
    let t = lines::num(
        t,
        "tiering_shadow_rebuild_settled_distinct"@,
        f.store.shadow.rebuild_settled_distinct as nat,
    );
    let t = lines::num(
        t,
        "tiering_shadow_rebuild_over_cap"@,
        f.store.shadow.rebuild_over_cap as nat,
    );
    let t = lines::num(t, "tiering_shadow_bytes"@, f.store.shadow.bytes as nat);
    let t = lines::num(
        t,
        "tiering_promote_filter_bytes"@,
        (f.store.tables * f.store.filter_bytes) as nat,
    );
    t
}

/// The shadow-slot counters.
pub fn tiering_shadow_lines(text: &mut String, f: &InfoFacts, layout: Layout)
    requires
        f.filters_fit(),
    ensures
        final(text)@ == tiering_shadow_text(old(text)@, *f, layout),
{
    lines::push_num(text, "tiering_shadow_enabled", f.store.shadow.enabled);
    if layout == Layout::Scoped {
        lines::push_num(text, "tiering_shadow_reconcile_paused", f.store.shadow.reconcile_paused);
    }
    lines::push_num(text, "tiering_shadow_created", f.store.shadow.created);
    lines::push_num(text, "tiering_shadow_resolved_same_key", f.store.shadow.resolved_same_key);
    lines::push_num(text, "tiering_shadow_resolved_collision", f.store.shadow.resolved_collision);
    lines::push_num(text, "tiering_shadow_verified", f.store.shadow.verified);
    lines::push_num(
        text,
        "tiering_shadow_settled_without_read",
        f.store.shadow.settled_without_read,
    );
    lines::push_num(text, "tiering_shadow_verified_pending", f.store.shadow.verified_pending);
    lines::push_num(text, "tiering_shadow_stale", f.store.shadow.stale);
    lines::push_num(text, "tiering_shadow_read_errors", f.store.shadow.read_errors);
    lines::push_num(text, "tiering_shadow_reads_issued", f.store.shadow.reads_issued);
    lines::push_num(text, "tiering_shadow_reads_foreground", f.store.shadow.reads_foreground);
    lines::push_num(text, "tiering_shadow_pending", f.store.shadow.pending);
    lines::push_num(text, "tiering_shadow_pending_peak", f.store.shadow.pending_peak);
    lines::push_num(text, "tiering_shadow_pinned_bytes", f.store.shadow.pinned_bytes);
    lines::push_num(text, "tiering_shadow_pinned_bytes_peak", f.store.shadow.pinned_bytes_peak);
    lines::push_num(text, "tiering_shadow_pin_cap_bytes", f.store.shadow.pin_cap_bytes);
    lines::push_num(text, "tiering_shadow_fallback_off", f.store.shadow.fallback_off);
    lines::push_num(text, "tiering_shadow_fallback_fence", f.store.shadow.fallback_fence);
    lines::push_num(text, "tiering_shadow_fallback_multi", f.store.shadow.fallback_multi);
    lines::push_num(text, "tiering_shadow_fallback_ticketed", f.store.shadow.fallback_ticketed);
    lines::push_num(text, "tiering_shadow_fallback_tickets", f.store.shadow.fallback_tickets);
    lines::push_num(text, "tiering_shadow_fallback_pin", f.store.shadow.fallback_pin);
    lines::push_num(text, "tiering_shadow_fallback_origin", f.store.shadow.fallback_origin);
    lines::push_num(text, "tiering_shadow_fallback_staging", f.node.shadow_fallback_staging);
    lines::push_num(text, "tiering_shadow_exact_miss_inserts", f.store.shadow.exact_miss_inserts);
    lines::push_num(text, "tiering_shadow_compaction_deferred", f.store.shadow.compaction_deferred);
    lines::push_num(text, "tiering_shadow_promote_skip", f.store.shadow.promote_skip);
    lines::push_num(text, "tiering_shadow_scan_twins_emitted", f.store.shadow.scan_twins_emitted);
    lines::push_num(text, "tiering_shadow_forced_by_delete", f.store.shadow.forced_by_delete);
    if layout == Layout::Scoped {
        lines::push_num(
            text,
            "tiering_shadow_delete_run_refused",
            f.store.shadow.delete_run_refused,
        );
    }
    lines::push_num(text, "tiering_shadow_retargeted", f.store.shadow.retargeted);
    lines::push_num(text, "tiering_shadow_dropped_by_removal", f.store.shadow.dropped_by_removal);
    lines::push_num(text, "tiering_shadow_deferred_walk", f.store.shadow.deferred_walk);
    lines::push_num(text, "tiering_shadow_deferred_origin", f.store.shadow.deferred_origin);
    lines::push_num(text, "tiering_shadow_dbsize_drains", f.store.shadow.dbsize_drains);
    lines::push_num(text, "tiering_shadow_dbsize_reads", f.store.shadow.dbsize_reads);
    if layout == Layout::Scoped {
        lines::push_num(text, "tiering_shadow_dbsize_fence", f.store.shadow.dbsize_fence);
    }
    lines::push_num(text, "tiering_shadow_rebuild_reads", f.store.shadow.rebuild_reads);
    lines::push_num(
        text,
        "tiering_shadow_rebuild_settled_same_key",
        f.store.shadow.rebuild_settled_same_key,
    );
    lines::push_num(
        text,
        "tiering_shadow_rebuild_settled_distinct",
        f.store.shadow.rebuild_settled_distinct,
    );
    lines::push_num(text, "tiering_shadow_rebuild_over_cap", f.store.shadow.rebuild_over_cap);
    lines::push_num(text, "tiering_shadow_bytes", f.store.shadow.bytes);
    lines::push_num(text, "tiering_promote_filter_bytes", f.store.tables * f.store.filter_bytes);
}

/// The write-path accounting.
pub open spec fn tiering_write_text(t: Seq<char>, f: InfoFacts) -> Seq<char> {
    let t = lines::num(t, "tiering_reserved_bytes"@, f.store.usage.reserved_bytes as nat);
    let t = lines::num(t, "tiering_committed_bytes"@, f.store.usage.committed_bytes as nat);
    let t = lines::num(t, "tiering_allocated_bytes"@, f.store.usage.allocated_bytes as nat);
    let t = lines::num(t, "tiering_dead_bytes"@, f.store.usage.dead_bytes as nat);
    let t = lines::num(t, "tiering_live_bytes"@, f.store.usage.live_bytes as nat);
    let t = lines::num(t, "tiering_index_bytes"@, f.store.usage.index_bytes as nat);
    let t = lines::num(t, "tiering_user_bytes"@, f.store.write.user_bytes as nat);
    let t = lines::num(t, "tiering_wal_bytes"@, f.store.write.wal_bytes as nat);
    let t = lines::num(t, "tiering_flush_bytes"@, f.store.write.flush_bytes as nat);
    let t = lines::num(t, "tiering_compaction_bytes"@, f.store.write.compaction_bytes as nat);
    let t = lines::num(t, "tiering_written_bytes"@, f.store.write.written_bytes as nat);
    let t = lines::num(t, "tiering_write_amp_milli_max"@, f.store.amp.milli_max as nat);
    let t = lines::num(
        t,
        "tiering_write_amp_undefined_ns"@,
        f.store.amp.unbounded_namespaces as nat,
    );
    t
}

/// The write-path accounting.
pub fn tiering_write_lines(text: &mut String, f: &InfoFacts)
    ensures
        final(text)@ == tiering_write_text(old(text)@, *f),
{
    lines::push_num(text, "tiering_reserved_bytes", f.store.usage.reserved_bytes);
    lines::push_num(text, "tiering_committed_bytes", f.store.usage.committed_bytes);
    lines::push_num(text, "tiering_allocated_bytes", f.store.usage.allocated_bytes);
    lines::push_num(text, "tiering_dead_bytes", f.store.usage.dead_bytes);
    lines::push_num(text, "tiering_live_bytes", f.store.usage.live_bytes);
    lines::push_num(text, "tiering_index_bytes", f.store.usage.index_bytes);
    lines::push_num(text, "tiering_user_bytes", f.store.write.user_bytes);
    lines::push_num(text, "tiering_wal_bytes", f.store.write.wal_bytes);
    lines::push_num(text, "tiering_flush_bytes", f.store.write.flush_bytes);
    lines::push_num(text, "tiering_compaction_bytes", f.store.write.compaction_bytes);
    lines::push_num(text, "tiering_written_bytes", f.store.write.written_bytes);
    lines::push_num(text, "tiering_write_amp_milli_max", f.store.amp.milli_max);
    lines::push_num(text, "tiering_write_amp_undefined_ns", f.store.amp.unbounded_namespaces);
}

/// The blob-extent and disk-admission gauges.
pub open spec fn tiering_extent_text(t: Seq<char>, f: InfoFacts, layout: Layout) -> Seq<char> {
    let t = lines::num(t, "tiering_blob_user_bytes"@, f.store.write.blob_user_bytes as nat);
    let t = lines::num(t, "tiering_blob_bytes"@, f.store.write.blob_bytes as nat);
    let t = lines::num(t, "tiering_blob_write_amp_milli_max"@, f.store.blob_amp.milli_max as nat);
    let t = lines::num(
        t,
        "tiering_blob_write_amp_undefined_ns"@,
        f.store.blob_amp.unbounded_namespaces as nat,
    );
    let t = lines::num(t, "tiering_blob_extents_live"@, f.store.extents.live as nat);
    let t = lines::num(t, "tiering_blob_extent_bytes_live"@, f.store.extents.live_bytes as nat);
    let t = lines::num(t, "tiering_blob_extents_created"@, f.store.extents.created as nat);
    let t = lines::num(t, "tiering_blob_extents_reclaimed"@, f.store.extents.reclaimed as nat);
    let t = lines::num(t, "tiering_blob_reclaimable"@, f.store.extents.reclaimable as nat);
    let t = lines::num(
        t,
        "tiering_blob_reclaim_deferred"@,
        f.store.extents.reclaim_deferred as nat,
    );
    let t = lines::num(t, "tiering_blob_reclaim_slices"@, f.store.extents.reclaim_slices as nat);
    let t = if layout == Layout::Scoped {
        lines::num(t, "tiering_blob_quarantined"@, f.store.extents.quarantined as nat)
    } else {
        t
    };
    let t = if layout == Layout::Scoped {
        lines::num(t, "tiering_blob_quarantine_revived"@, f.store.extents.quarantine_revived as nat)
    } else {
        t
    };
    let t = lines::num(t, "tiering_blob_rmw_ops"@, f.store.extents.rmw_ops as nat);
    let t = lines::num(t, "tiering_blob_disk_bytes"@, f.store.extents.disk_bytes as nat);
    let t = lines::num(t, "tiering_diskfull_ns"@, f.store.disk.full_namespaces as nat);
    let t = lines::num(t, "tiering_diskfull_refusals"@, f.store.disk.refusals as nat);
    let t = lines::num(
        t,
        "tiering_compact_idle_pressure"@,
        f.store.disk.compact_idle_pressure as nat,
    );
    let t = lines::num(t, "tiering_disk_used_bytes"@, f.store.disk.used_bytes as nat);
    t
}

/// The blob-extent and disk-admission gauges.
pub fn tiering_extent_lines(text: &mut String, f: &InfoFacts, layout: Layout)
    ensures
        final(text)@ == tiering_extent_text(old(text)@, *f, layout),
{
    lines::push_num(text, "tiering_blob_user_bytes", f.store.write.blob_user_bytes);
    lines::push_num(text, "tiering_blob_bytes", f.store.write.blob_bytes);
    lines::push_num(text, "tiering_blob_write_amp_milli_max", f.store.blob_amp.milli_max);
    lines::push_num(
        text,
        "tiering_blob_write_amp_undefined_ns",
        f.store.blob_amp.unbounded_namespaces,
    );
    lines::push_num(text, "tiering_blob_extents_live", f.store.extents.live);
    lines::push_num(text, "tiering_blob_extent_bytes_live", f.store.extents.live_bytes);
    lines::push_num(text, "tiering_blob_extents_created", f.store.extents.created);
    lines::push_num(text, "tiering_blob_extents_reclaimed", f.store.extents.reclaimed);
    lines::push_num(text, "tiering_blob_reclaimable", f.store.extents.reclaimable);
    lines::push_num(text, "tiering_blob_reclaim_deferred", f.store.extents.reclaim_deferred);
    lines::push_num(text, "tiering_blob_reclaim_slices", f.store.extents.reclaim_slices);
    if layout == Layout::Scoped {
        lines::push_num(text, "tiering_blob_quarantined", f.store.extents.quarantined);
    }
    if layout == Layout::Scoped {
        lines::push_num(
            text,
            "tiering_blob_quarantine_revived",
            f.store.extents.quarantine_revived,
        );
    }
    lines::push_num(text, "tiering_blob_rmw_ops", f.store.extents.rmw_ops);
    lines::push_num(text, "tiering_blob_disk_bytes", f.store.extents.disk_bytes);
    lines::push_num(text, "tiering_diskfull_ns", f.store.disk.full_namespaces);
    lines::push_num(text, "tiering_diskfull_refusals", f.store.disk.refusals);
    lines::push_num(text, "tiering_compact_idle_pressure", f.store.disk.compact_idle_pressure);
    lines::push_num(text, "tiering_disk_used_bytes", f.store.disk.used_bytes);
}

/// The tiering section: cell aggregates, then one line per tiered namespace.
#[verifier::opaque]
pub open spec fn tiering_body(t: Seq<char>, f: InfoFacts, layout: Layout) -> Seq<char> {
    let t = lines::line(t, "# Tiering"@);
    let t = lines::num(t, "tiering_tables"@, f.store.tables as nat);
    let t = tiering_read_text(t, f, layout);
    let t = tiering_flush_text(t, f);
    let t = tiering_promotion_text(t, f);
    let t = tiering_shadow_text(t, f, layout);
    let t = tiering_write_text(t, f);
    let t = tiering_extent_text(t, f, layout);
    let t = tiering_namespace_text(t, f.store.namespaces@);
    let t = t + "\r\n"@;
    t
}

/// The tiering section: cell aggregates, then one line per tiered namespace.
pub fn tiering_section(text: &mut String, f: &InfoFacts, layout: Layout)
    requires
        f.filters_fit(),
    ensures
        final(text)@ == tiering_body(old(text)@, *f, layout),
{
    proof {
        reveal(tiering_body);
    }
    lines::push(text, "# Tiering");
    lines::push_num(text, "tiering_tables", f.store.tables);
    tiering_read_lines(text, f, layout);
    tiering_flush_lines(text, f);
    tiering_promotion_lines(text, f);
    tiering_shadow_lines(text, f, layout);
    tiering_write_lines(text, f);
    tiering_extent_lines(text, f, layout);
    tiering_namespace_lines(text, f.store.namespaces.as_slice());
    text.append("\r\n");
}

/// The server section.
#[verifier::opaque]
pub open spec fn server_body(t: Seq<char>, f: InfoFacts, layout: Layout) -> Seq<char> {
    let t = lines::line(t, "# Server"@);
    let t = lines::line(t, "infinitydb_version:0.1.0-alpha.0"@);
    let t = lines::line(t, "redis_version:7.4.0-compat"@);
    let t = lines::line(t, "redis_git_sha1:00000000"@);
    let t = lines::line(t, "redis_git_dirty:0"@);
    let t = lines::line(t, "redis_mode:standalone"@);
    let t = lines::txt(t, "os"@, f.host.os@);
    let t = lines::line(t, "arch_bits:64"@);
    let t = lines::num(t, "process_id"@, f.node.process_id as nat);
    let t = lines::txt(t, "run_id"@, run_text(f.node, layout));
    let t = if layout == Layout::Plain {
        lines::num(t, "tcp_port"@, f.node.tcp_port as nat)
    } else {
        t
    };
    let t = lines::num(t, "server_time_usec"@, (f.host.wall_ms * 1000) as nat);
    let t = lines::num(t, "uptime_in_seconds"@, uptime_of(f.host) as nat);
    let t = lines::num(t, "uptime_in_days"@, (uptime_of(f.host) / 86_400) as nat);
    let t = lines::line(t, "config_file:"@);
    let t = lines::num(t, "cell"@, f.node.cell as nat);
    let t = lines::num(t, "cells"@, f.node.cells as nat);
    let t = t + "\r\n"@;
    t
}

/// The server section.
pub fn server_section(text: &mut String, f: &InfoFacts, layout: Layout)
    requires
        f.host.wall_ms * 1000 <= u64::MAX,
    ensures
        final(text)@ == server_body(old(text)@, *f, layout),
{
    proof {
        reveal(server_body);
    }
    let run_id = render_run_id(&f.node, layout);
    let uptime: u64 = uptime_secs(&f.host);
    lines::push(text, "# Server");
    lines::push(text, "infinitydb_version:0.1.0-alpha.0");
    lines::push(text, "redis_version:7.4.0-compat");
    lines::push(text, "redis_git_sha1:00000000");
    lines::push(text, "redis_git_dirty:0");
    lines::push(text, "redis_mode:standalone");
    lines::push_txt(text, "os", f.host.os.as_str());
    lines::push(text, "arch_bits:64");
    lines::push_num(text, "process_id", f.node.process_id);
    lines::push_txt(text, "run_id", run_id.as_str());
    if layout == Layout::Plain {
        lines::push_num(text, "tcp_port", f.node.tcp_port as u64);
    }
    lines::push_num(text, "server_time_usec", f.host.wall_ms * 1000);
    lines::push_num(text, "uptime_in_seconds", uptime);
    lines::push_num(text, "uptime_in_days", uptime / 86_400);
    lines::push(text, "config_file:");
    lines::push_num(text, "cell", f.node.cell as u64);
    lines::push_num(text, "cells", f.node.cells as u64);
    text.append("\r\n");
}

/// The clients section.
#[verifier::opaque]
pub open spec fn clients_body(
    t: Seq<char>,
    f: InfoFacts,
    layout: Layout,
    rows: Seq<config::ConfigRow>,
) -> Seq<char> {
    let t = lines::line(t, "# Clients"@);
    let t = lines::num(t, "connected_clients"@, f.node.connections as nat);
    let t = lines::line(t, "cluster_connections:0"@);
    let t = lines::txt(t, "maxclients"@, setting_of(rows, "maxclients"@, "10000"@));
    let t = lines::line(t, "blocked_clients:0"@);
    let t = lines::line(t, "tracking_clients:0"@);
    let t = if layout == Layout::Plain {
        lines::num(t, "total_connections_received"@, f.node.total_connections as nat)
    } else {
        t
    };
    let t = t + "\r\n"@;
    t
}

/// The clients section.
pub fn clients_section(text: &mut String, f: &InfoFacts, layout: Layout, config: &ConfigStore)
    ensures
        final(text)@ == clients_body(old(text)@, *f, layout, config@),
{
    proof {
        reveal(clients_body);
    }
    lines::push(text, "# Clients");
    lines::push_num(text, "connected_clients", f.node.connections);
    lines::push(text, "cluster_connections:0");
    lines::push_txt(text, "maxclients", setting(config, "maxclients", "10000"));
    lines::push(text, "blocked_clients:0");
    lines::push(text, "tracking_clients:0");
    if layout == Layout::Plain {
        lines::push_num(text, "total_connections_received", f.node.total_connections);
    }
    text.append("\r\n");
}

/// The memory section: byte gauges folded over the node, or over this cell where no board is wired.
#[verifier::opaque]
pub open spec fn memory_body(
    t: Seq<char>,
    f: InfoFacts,
    layout: Layout,
    rows: Seq<config::ConfigRow>,
) -> Seq<char> {
    let t = lines::line(t, "# Memory"@);
    let t = lines::num(t, "used_memory"@, f.memory.gauges.used_bytes as nat);
    let t = lines::txt(t, "used_memory_human"@, lines::human(f.memory.gauges.used_bytes as nat));
    let t = lines::num(t, "used_memory_rss"@, f.host.rss as nat);
    let t = if layout == Layout::Scoped {
        lines::num(t, f.names.process_rss@, f.host.rss as nat)
    } else {
        t
    };
    let t = lines::txt(t, "memory_scope"@, scope_label(f.memory.node_scope));
    let t = lines::txt(t, "maxmemory"@, setting_of(rows, "maxmemory"@, "0"@));
    let t = lines::txt(
        t,
        "maxmemory_policy"@,
        setting_of(rows, "maxmemory-policy"@, "noeviction"@),
    );
    let t = if layout == Layout::Scoped {
        lines::num(t, "used_memory_pool"@, f.memory.pool_used_bytes as nat)
    } else {
        t
    };
    let t = lines::txt(t, "mem_fragmentation_ratio"@, f.host.fragmentation@);
    let t = lines::line(t, "mem_allocator:inf-arena"@);
    let t = if layout == Layout::Plain {
        lines::num(t, "doc_tape_bytes"@, f.memory.gauges.doc_tape_bytes as nat)
    } else {
        t
    };
    let t = if layout == Layout::Scoped {
        lines::num(t, "used_memory_doc_tape"@, f.memory.gauges.doc_tape_bytes as nat)
    } else {
        t
    };
    let t = if layout == Layout::Plain {
        lines::num(t, "doc_arena_bytes"@, f.memory.gauges.doc_arena_bytes as nat)
    } else {
        t
    };
    let t = if layout == Layout::Scoped {
        lines::num(t, "used_memory_doc_arena"@, f.memory.gauges.doc_arena_bytes as nat)
    } else {
        t
    };
    let t = if layout == Layout::Plain {
        lines::num(t, "doc_resident_bytes"@, f.memory.gauges.doc_resident_bytes as nat)
    } else {
        t
    };
    let t = if layout == Layout::Scoped {
        lines::num(t, "used_memory_doc_resident"@, f.memory.gauges.doc_resident_bytes as nat)
    } else {
        t
    };
    let t = if layout == Layout::Plain {
        lines::num(t, "doc_intern_bytes"@, f.memory.gauges.doc_intern_bytes as nat)
    } else {
        t
    };
    let t = if layout == Layout::Scoped {
        lines::num(t, "used_memory_doc_intern"@, f.memory.gauges.doc_intern_bytes as nat)
    } else {
        t
    };
    let t = if layout == Layout::Plain {
        lines::num(t, "doc_slack_bytes"@, f.memory.gauges.doc_slack_bytes as nat)
    } else {
        t
    };
    let t = if layout == Layout::Scoped {
        lines::num(t, "used_memory_doc_slack"@, f.memory.gauges.doc_slack_bytes as nat)
    } else {
        t
    };
    let t = if layout == Layout::Plain {
        lines::num(t, "doc_scratch_bytes"@, f.memory.gauges.doc_scratch_bytes as nat)
    } else {
        t
    };
    let t = if layout == Layout::Scoped {
        lines::num(t, "used_memory_doc_scratch"@, f.memory.gauges.doc_scratch_bytes as nat)
    } else {
        t
    };
    let t = if layout == Layout::Plain {
        lines::num(t, "doc_path_cache_bytes"@, f.memory.gauges.doc_path_cache_bytes as nat)
    } else {
        t
    };
    let t = if layout == Layout::Scoped {
        lines::num(t, "used_memory_doc_path_cache"@, f.memory.gauges.doc_path_cache_bytes as nat)
    } else {
        t
    };
    let t = lines::num(t, "docs_live"@, f.memory.gauges.docs_live as nat);
    let t = if layout == Layout::Plain {
        lines::num(t, "idx_tree_bytes"@, f.memory.gauges.idx_tree_bytes as nat)
    } else {
        t
    };
    let t = if layout == Layout::Scoped {
        lines::num(t, "used_memory_idx_tree"@, f.memory.gauges.idx_tree_bytes as nat)
    } else {
        t
    };
    let t = if layout == Layout::Plain {
        lines::num(t, "idx_slack_bytes"@, f.memory.gauges.idx_slack_bytes as nat)
    } else {
        t
    };
    let t = if layout == Layout::Scoped {
        lines::num(t, "used_memory_idx_slack"@, f.memory.gauges.idx_slack_bytes as nat)
    } else {
        t
    };
    let t = t + "\r\n"@;
    t
}

/// The memory section: byte gauges folded over the node, or over this cell where no board is wired.
pub fn memory_section(text: &mut String, f: &InfoFacts, layout: Layout, config: &ConfigStore)
    ensures
        final(text)@ == memory_body(old(text)@, *f, layout, config@),
{
    proof {
        reveal(memory_body);
    }
    let human = lines::human_bytes(f.memory.gauges.used_bytes);
    lines::push(text, "# Memory");
    lines::push_num(text, "used_memory", f.memory.gauges.used_bytes);
    lines::push_txt(text, "used_memory_human", human.as_str());
    lines::push_num(text, "used_memory_rss", f.host.rss);
    if layout == Layout::Scoped {
        lines::push_num(text, f.names.process_rss, f.host.rss);
    }
    lines::push_txt(text, "memory_scope", scope_name(f.memory.node_scope));
    lines::push_txt(text, "maxmemory", setting(config, "maxmemory", "0"));
    lines::push_txt(text, "maxmemory_policy", setting(config, "maxmemory-policy", "noeviction"));
    if layout == Layout::Scoped {
        lines::push_num(text, "used_memory_pool", f.memory.pool_used_bytes);
    }
    lines::push_txt(text, "mem_fragmentation_ratio", f.host.fragmentation.as_str());
    lines::push(text, "mem_allocator:inf-arena");
    if layout == Layout::Plain {
        lines::push_num(text, "doc_tape_bytes", f.memory.gauges.doc_tape_bytes);
    }
    if layout == Layout::Scoped {
        lines::push_num(text, "used_memory_doc_tape", f.memory.gauges.doc_tape_bytes);
    }
    if layout == Layout::Plain {
        lines::push_num(text, "doc_arena_bytes", f.memory.gauges.doc_arena_bytes);
    }
    if layout == Layout::Scoped {
        lines::push_num(text, "used_memory_doc_arena", f.memory.gauges.doc_arena_bytes);
    }
    if layout == Layout::Plain {
        lines::push_num(text, "doc_resident_bytes", f.memory.gauges.doc_resident_bytes);
    }
    if layout == Layout::Scoped {
        lines::push_num(text, "used_memory_doc_resident", f.memory.gauges.doc_resident_bytes);
    }
    if layout == Layout::Plain {
        lines::push_num(text, "doc_intern_bytes", f.memory.gauges.doc_intern_bytes);
    }
    if layout == Layout::Scoped {
        lines::push_num(text, "used_memory_doc_intern", f.memory.gauges.doc_intern_bytes);
    }
    if layout == Layout::Plain {
        lines::push_num(text, "doc_slack_bytes", f.memory.gauges.doc_slack_bytes);
    }
    if layout == Layout::Scoped {
        lines::push_num(text, "used_memory_doc_slack", f.memory.gauges.doc_slack_bytes);
    }
    if layout == Layout::Plain {
        lines::push_num(text, "doc_scratch_bytes", f.memory.gauges.doc_scratch_bytes);
    }
    if layout == Layout::Scoped {
        lines::push_num(text, "used_memory_doc_scratch", f.memory.gauges.doc_scratch_bytes);
    }
    if layout == Layout::Plain {
        lines::push_num(text, "doc_path_cache_bytes", f.memory.gauges.doc_path_cache_bytes);
    }
    if layout == Layout::Scoped {
        lines::push_num(text, "used_memory_doc_path_cache", f.memory.gauges.doc_path_cache_bytes);
    }
    lines::push_num(text, "docs_live", f.memory.gauges.docs_live);
    if layout == Layout::Plain {
        lines::push_num(text, "idx_tree_bytes", f.memory.gauges.idx_tree_bytes);
    }
    if layout == Layout::Scoped {
        lines::push_num(text, "used_memory_idx_tree", f.memory.gauges.idx_tree_bytes);
    }
    if layout == Layout::Plain {
        lines::push_num(text, "idx_slack_bytes", f.memory.gauges.idx_slack_bytes);
    }
    if layout == Layout::Scoped {
        lines::push_num(text, "used_memory_idx_slack", f.memory.gauges.idx_slack_bytes);
    }
    text.append("\r\n");
}

/// The progress of a boot recovery.
pub open spec fn loading_text(t: Seq<char>, f: InfoFacts) -> Seq<char> {
    let t = lines::num(t, "loading_start_time"@, (f.node.loading_start_unix_ms / 1000) as nat);
    let t = lines::num(t, "loading_total_bytes"@, f.node.loading_total_bytes as nat);
    let t = lines::num(t, "loading_loaded_bytes"@, f.node.loading_loaded_bytes as nat);
    let t = lines::txt(t, "loading_loaded_perc"@, f.host.loaded_perc@);
    let t = lines::num(t, "loading_eta_seconds"@, f.host.eta_seconds as nat);
    let t = lines::num(t, "loading_cells_ready"@, f.node.loading_cells_ready as nat);
    let t = lines::num(t, "loading_cells"@, f.node.cells as nat);
    t
}

/// The progress of a boot recovery.
pub fn loading_lines(text: &mut String, f: &InfoFacts)
    ensures
        final(text)@ == loading_text(old(text)@, *f),
{
    lines::push_num(text, "loading_start_time", f.node.loading_start_unix_ms / 1000);
    lines::push_num(text, "loading_total_bytes", f.node.loading_total_bytes);
    lines::push_num(text, "loading_loaded_bytes", f.node.loading_loaded_bytes);
    lines::push_txt(text, "loading_loaded_perc", f.host.loaded_perc.as_str());
    lines::push_num(text, "loading_eta_seconds", f.host.eta_seconds);
    lines::push_num(text, "loading_cells_ready", f.node.loading_cells_ready);
    lines::push_num(text, "loading_cells", f.node.cells as u64);
}

/// The persistence section.
#[verifier::opaque]
pub open spec fn persistence_body(t: Seq<char>, f: InfoFacts, layout: Layout) -> Seq<char> {
    let t = lines::line(t, "# Persistence"@);
    let t = lines::num(t, "loading"@, (if f.node.loading != 0 { 1int } else { 0int }) as nat);
    let t = if f.node.loading != 0 {
        loading_text(t, f)
    } else {
        t
    };
    let t = lines::line(t, "rdb_changes_since_last_save:0"@);
    let t = lines::num(t, "rdb_bgsave_in_progress"@, f.node.ckpt_in_progress as nat);
    let t = lines::num(t, "rdb_last_save_time"@, (f.node.rdb_last_save_ms / 1000) as nat);
    let t = if layout == Layout::Scoped {
        lines::num(t, "ns_drop_tombstones"@, f.node.ns_drop_tombstones as nat)
    } else {
        t
    };
    let t = lines::line(t, "aof_enabled:0"@);
    let t = lines::line(t, "aof_rewrite_in_progress:0"@);
    let t = log_gauge_text(t, f);
    let t = fsync_gauge_text(t, f);
    let t = barrier_gauge_text(t, f);
    let t = io_budget_text(t, f);
    let t = recycle_gauge_text(t, f, layout);
    let t = recover_gauge_text(t, f, layout);
    let t = ckpt_gauge_text(t, f, layout);
    let t = t + "\r\n"@;
    t
}

/// The persistence section.
pub fn persistence_section(text: &mut String, f: &InfoFacts, layout: Layout)
    ensures
        final(text)@ == persistence_body(old(text)@, *f, layout),
{
    proof {
        reveal(persistence_body);
    }
    lines::push(text, "# Persistence");
    lines::push_num(text, "loading", if f.node.loading != 0 { 1 } else { 0 });
    if f.node.loading != 0 {
        loading_lines(text, f);
    }
    lines::push(text, "rdb_changes_since_last_save:0");
    lines::push_num(text, "rdb_bgsave_in_progress", f.node.ckpt_in_progress);
    lines::push_num(text, "rdb_last_save_time", f.node.rdb_last_save_ms / 1000);
    if layout == Layout::Scoped {
        lines::push_num(text, "ns_drop_tombstones", f.node.ns_drop_tombstones);
    }
    lines::push(text, "aof_enabled:0");
    lines::push(text, "aof_rewrite_in_progress:0");
    log_gauge_lines(text, f);
    fsync_gauge_lines(text, f);
    barrier_gauge_lines(text, f);
    io_budget_lines(text, f);
    recycle_gauge_lines(text, f, layout);
    recover_gauge_lines(text, f, layout);
    ckpt_gauge_lines(text, f, layout);
    text.append("\r\n");
}

/// The stats section.
#[verifier::opaque]
pub open spec fn stats_body(t: Seq<char>, f: InfoFacts, layout: Layout) -> Seq<char> {
    let t = lines::line(t, "# Stats"@);
    let t = lines::num(t, "total_connections_received"@, f.node.total_connections as nat);
    let t = lines::num(t, "total_commands_processed"@, f.node.raw_counters@[4] as nat);
    let t = lines::line(t, "instantaneous_ops_per_sec:0"@);
    let t = if layout == Layout::Plain {
        lines::line(t, "rejected_connections:0"@)
    } else {
        t
    };
    let t = if layout == Layout::Scoped {
        lines::num(t, "rejected_connections"@, f.node.rejected_connections as nat)
    } else {
        t
    };
    let t = if layout == Layout::Scoped {
        lines::num(t, "accept_errors"@, f.node.accept_errors as nat)
    } else {
        t
    };
    let t = lines::num(
        t,
        "expired_keys"@,
        (f.store.stats.expired_lazy + f.store.stats.expired_active) as nat,
    );
    let t = lines::num(t, "expired_active"@, f.store.stats.expired_active as nat);
    let t = lines::num(t, "expired_lazy"@, f.store.stats.expired_lazy as nat);
    let t = if layout == Layout::Scoped {
        lines::num(t, "expiry_debt_ms"@, f.store.expiry_debt_ms as nat)
    } else {
        t
    };
    let t = lines::num(t, "evicted_keys"@, f.store.stats.evicted_keys as nat);
    let t = lines::num(t, "keyspace_hits"@, f.store.stats.keyspace_hits as nat);
    let t = lines::num(t, "keyspace_misses"@, f.store.stats.keyspace_misses as nat);
    let t = lines::num(t, "index_grows"@, f.store.stats.index_grows as nat);
    let t = match f.store.path_cache {
        Some(cache) => {
            let t = lines::num(t, "path_cache_hits"@, cache.hits as nat);
            let t = lines::num(t, "path_cache_misses"@, cache.misses as nat);
            lines::num(t, "path_cache_evictions"@, cache.evictions as nat)
        },
        None => t,
    };
    let t = index_stat_text(t, f);
    let t = lines::num(t, "pubsub_channels"@, f.node.pubsub_channels as nat);
    let t = lines::num(t, "pubsub_patterns"@, f.node.pubsub_patterns as nat);
    let t = lines::num(
        t,
        "client_output_buffer_limit_disconnections"@,
        f.node.cob_disconnections as nat,
    );
    let t = if layout == Layout::Scoped {
        lines::num(t, "idle_disconnections"@, f.node.idle_disconnections as nat)
    } else {
        t
    };
    let t = lines::line(t, "latest_fork_usec:0"@);
    let t = if layout == Layout::Plain {
        t + "\r\n"@
    } else {
        t
    };
    t
}

/// The stats section.
pub fn stats_section(text: &mut String, f: &InfoFacts, layout: Layout)
    requires
        f.store.stats.expired_lazy + f.store.stats.expired_active <= u64::MAX,
    ensures
        final(text)@ == stats_body(old(text)@, *f, layout),
{
    proof {
        reveal(stats_body);
    }
    lines::push(text, "# Stats");
    lines::push_num(text, "total_connections_received", f.node.total_connections);
    lines::push_num(text, "total_commands_processed", f.node.raw_counters[4]);
    lines::push(text, "instantaneous_ops_per_sec:0");
    if layout == Layout::Plain {
        lines::push(text, "rejected_connections:0");
    }
    if layout == Layout::Scoped {
        lines::push_num(text, "rejected_connections", f.node.rejected_connections);
    }
    if layout == Layout::Scoped {
        lines::push_num(text, "accept_errors", f.node.accept_errors);
    }
    lines::push_num(
        text,
        "expired_keys",
        f.store.stats.expired_lazy + f.store.stats.expired_active,
    );
    lines::push_num(text, "expired_active", f.store.stats.expired_active);
    lines::push_num(text, "expired_lazy", f.store.stats.expired_lazy);
    if layout == Layout::Scoped {
        lines::push_num(text, "expiry_debt_ms", f.store.expiry_debt_ms);
    }
    lines::push_num(text, "evicted_keys", f.store.stats.evicted_keys);
    lines::push_num(text, "keyspace_hits", f.store.stats.keyspace_hits);
    lines::push_num(text, "keyspace_misses", f.store.stats.keyspace_misses);
    lines::push_num(text, "index_grows", f.store.stats.index_grows);
    if let Some(cache) = f.store.path_cache {
        lines::push_num(text, "path_cache_hits", cache.hits);
        lines::push_num(text, "path_cache_misses", cache.misses);
        lines::push_num(text, "path_cache_evictions", cache.evictions);
    }
    index_stat_lines(text, f);
    lines::push_num(text, "pubsub_channels", f.node.pubsub_channels);
    lines::push_num(text, "pubsub_patterns", f.node.pubsub_patterns);
    lines::push_num(text, "client_output_buffer_limit_disconnections", f.node.cob_disconnections);
    if layout == Layout::Scoped {
        lines::push_num(text, "idle_disconnections", f.node.idle_disconnections);
    }
    lines::push(text, "latest_fork_usec:0");
    if layout == Layout::Plain {
        text.append("\r\n");
    }
}

/// The replication section.
#[verifier::opaque]
pub open spec fn replication_body(t: Seq<char>, f: InfoFacts, layout: Layout) -> Seq<char> {
    let t = lines::line(t, "# Replication"@);
    let t = lines::line(t, "role:master"@);
    let t = lines::line(t, "connected_slaves:0"@);
    let t = lines::line(t, "master_failover_state:no-failover"@);
    let t = lines::txt(t, "master_replid"@, replid_text(f.node, layout));
    let t = lines::line(t, "master_repl_offset:0"@);
    let t = t + "\r\n"@;
    t
}

/// The replication section.
pub fn replication_section(text: &mut String, f: &InfoFacts, layout: Layout)
    ensures
        final(text)@ == replication_body(old(text)@, *f, layout),
{
    proof {
        reveal(replication_body);
    }
    let replid = render_replid(&f.node, layout);
    lines::push(text, "# Replication");
    lines::push(text, "role:master");
    lines::push(text, "connected_slaves:0");
    lines::push(text, "master_failover_state:no-failover");
    lines::push_txt(text, "master_replid", replid.as_str());
    lines::push(text, "master_repl_offset:0");
    text.append("\r\n");
}

/// The processor section.
#[verifier::opaque]
pub open spec fn cpu_body(t: Seq<char>, f: InfoFacts) -> Seq<char> {
    let t = lines::line(t, "# CPU"@);
    let t = lines::txt(t, "used_cpu_sys"@, f.host.cpu_sys@);
    let t = lines::txt(t, "used_cpu_user"@, f.host.cpu_user@);
    let t = t + "\r\n"@;
    t
}

/// The processor section.
pub fn cpu_section(text: &mut String, f: &InfoFacts)
    ensures
        final(text)@ == cpu_body(old(text)@, *f),
{
    proof {
        reveal(cpu_body);
    }
    lines::push(text, "# CPU");
    lines::push_txt(text, "used_cpu_sys", f.host.cpu_sys.as_str());
    lines::push_txt(text, "used_cpu_user", f.host.cpu_user.as_str());
    text.append("\r\n");
}

/// The tripwires section: this cell's slice.
#[verifier::opaque]
pub open spec fn tripwires_body(t: Seq<char>, f: InfoFacts, layout: Layout) -> Seq<char> {
    let t = lines::line(t, "# Tripwires"@);
    let t = if layout == Layout::Scoped {
        lines::line(t, "tripwire_scope:cell"@)
    } else {
        t
    };
    let t = lines::num(t, f.names.sqes_per_submit@, f.node.tripwires@[0] as nat);
    let t = lines::num(t, f.names.cqes_per_reap@, f.node.tripwires@[1] as nat);
    let t = lines::num(t, f.names.cmds_per_iter@, f.node.tripwires@[2] as nat);
    let t = lines::num(t, f.names.fabric_msgs_per_batch@, f.node.tripwires@[3] as nat);
    let t = lines::num(t, f.names.loop_iter_p999_us@, f.node.tripwires@[4] as nat);
    let t = lines::num(t, "fabric_rtt_p50_ns"@, f.node.fabric_rtt_p50_ns as nat);
    let t = lines::num(t, "recv_dropped"@, f.node.recv_dropped as nat);
    let t = lines::num(t, "raw_submits"@, f.node.raw_counters@[0] as nat);
    let t = lines::num(t, "raw_sqes"@, f.node.raw_counters@[1] as nat);
    let t = lines::num(t, "raw_cqes"@, f.node.raw_counters@[2] as nat);
    let t = lines::num(t, "raw_iterations"@, f.node.raw_counters@[3] as nat);
    let t = lines::num(t, "raw_commands"@, f.node.raw_counters@[4] as nat);
    let t = lines::num(t, "raw_fabric_msgs"@, f.node.raw_counters@[5] as nat);
    let t = lines::num(t, f.names.records_live_bytes@, f.store.report.records_live_bytes as nat);
    let t = lines::num(t, f.names.records_slack_bytes@, f.store.report.records_slack_bytes as nat);
    let t = lines::num(t, "records_resident_bytes"@, f.store.report.records_resident_bytes as nat);
    let t = lines::num(t, f.names.index_bytes@, f.store.report.index_bytes as nat);
    let t = lines::num(t, f.names.wheel_bytes@, f.store.report.wheel_bytes as nat);
    let t = lines::num(t, f.names.evict_bytes@, f.store.report.evict_bytes as nat);
    let t = lines::num(t, f.names.doc_tape_bytes@, f.store.report.doc_tape_bytes as nat);
    let t = lines::num(t, f.names.doc_arena_bytes@, f.store.report.doc_arena_bytes as nat);
    let t = lines::num(t, f.names.doc_resident_bytes@, f.store.report.doc_resident_bytes as nat);
    let t = lines::num(t, f.names.doc_intern_bytes@, f.store.report.doc_intern_bytes as nat);
    let t = lines::num(t, f.names.doc_slack_bytes@, f.store.report.doc_slack_bytes as nat);
    let t = lines::num(t, f.names.doc_scratch_bytes@, f.store.report.doc_scratch_bytes as nat);
    let t = lines::num(
        t,
        f.names.doc_path_cache_bytes@,
        f.store.report.doc_path_cache_bytes as nat,
    );
    let t = lines::num(t, "idx_tree_bytes"@, f.store.report.idx_tree_bytes as nat);
    let t = lines::num(t, "idx_slack_bytes"@, f.store.report.idx_slack_bytes as nat);
    let t = lines::num(t, "wheel_fallback"@, f.store.stats.wheel_fallback as nat);
    let t = lines::num(t, "wheel_stale"@, f.store.stats.wheel_stale as nat);
    let t = if layout == Layout::Plain {
        lines::num(t, "evicted_keys"@, f.store.stats.evicted_keys as nat)
    } else {
        t
    };
    let t = lines::num(t, "pubsub_fan_msgs"@, f.node.pubsub_fan_msgs as nat);
    let t = lines::num(t, "pubsub_delivered"@, f.node.pubsub_delivered as nat);
    let t = lines::num(t, "pubsub_state_bytes"@, f.node.pubsub_state_bytes as nat);
    let t = lines::num(t, f.names.wire_buffers_bytes@, f.node.wire_buffers_bytes as nat);
    let t = lines::num(t, f.names.conn_state_bytes@, f.node.conn_state_bytes as nat);
    let t = lines::num(t, "reply_pool_bytes"@, f.node.reply_pool_bytes as nat);
    let t = lines::num(t, "cmd_pool_bytes"@, f.node.cmd_pool_bytes as nat);
    let t = lines::num(t, "cold_pool_bytes"@, f.node.cold_pool_bytes as nat);
    let t = if layout == Layout::Plain {
        lines::num(t, f.names.process_rss@, f.host.rss as nat)
    } else {
        t
    };
    let t = if layout == Layout::Scoped {
        lines::num(t, "loop_snapshot_bytes"@, f.node.loop_snapshot_bytes as nat)
    } else {
        t
    };
    let t = t + "\r\n"@;
    t
}

/// The tripwires section: this cell's slice.
pub fn tripwires_section(text: &mut String, f: &InfoFacts, layout: Layout)
    ensures
        final(text)@ == tripwires_body(old(text)@, *f, layout),
{
    proof {
        reveal(tripwires_body);
    }
    lines::push(text, "# Tripwires");
    if layout == Layout::Scoped {
        lines::push(text, "tripwire_scope:cell");
    }
    lines::push_num(text, f.names.sqes_per_submit, f.node.tripwires[0]);
    lines::push_num(text, f.names.cqes_per_reap, f.node.tripwires[1]);
    lines::push_num(text, f.names.cmds_per_iter, f.node.tripwires[2]);
    lines::push_num(text, f.names.fabric_msgs_per_batch, f.node.tripwires[3]);
    lines::push_num(text, f.names.loop_iter_p999_us, f.node.tripwires[4]);
    lines::push_num(text, "fabric_rtt_p50_ns", f.node.fabric_rtt_p50_ns);
    lines::push_num(text, "recv_dropped", f.node.recv_dropped);
    lines::push_num(text, "raw_submits", f.node.raw_counters[0]);
    lines::push_num(text, "raw_sqes", f.node.raw_counters[1]);
    lines::push_num(text, "raw_cqes", f.node.raw_counters[2]);
    lines::push_num(text, "raw_iterations", f.node.raw_counters[3]);
    lines::push_num(text, "raw_commands", f.node.raw_counters[4]);
    lines::push_num(text, "raw_fabric_msgs", f.node.raw_counters[5]);
    lines::push_num(text, f.names.records_live_bytes, f.store.report.records_live_bytes);
    lines::push_num(text, f.names.records_slack_bytes, f.store.report.records_slack_bytes);
    lines::push_num(text, "records_resident_bytes", f.store.report.records_resident_bytes);
    lines::push_num(text, f.names.index_bytes, f.store.report.index_bytes);
    lines::push_num(text, f.names.wheel_bytes, f.store.report.wheel_bytes);
    lines::push_num(text, f.names.evict_bytes, f.store.report.evict_bytes);
    lines::push_num(text, f.names.doc_tape_bytes, f.store.report.doc_tape_bytes);
    lines::push_num(text, f.names.doc_arena_bytes, f.store.report.doc_arena_bytes);
    lines::push_num(text, f.names.doc_resident_bytes, f.store.report.doc_resident_bytes);
    lines::push_num(text, f.names.doc_intern_bytes, f.store.report.doc_intern_bytes);
    lines::push_num(text, f.names.doc_slack_bytes, f.store.report.doc_slack_bytes);
    lines::push_num(text, f.names.doc_scratch_bytes, f.store.report.doc_scratch_bytes);
    lines::push_num(text, f.names.doc_path_cache_bytes, f.store.report.doc_path_cache_bytes);
    lines::push_num(text, "idx_tree_bytes", f.store.report.idx_tree_bytes);
    lines::push_num(text, "idx_slack_bytes", f.store.report.idx_slack_bytes);
    lines::push_num(text, "wheel_fallback", f.store.stats.wheel_fallback);
    lines::push_num(text, "wheel_stale", f.store.stats.wheel_stale);
    if layout == Layout::Plain {
        lines::push_num(text, "evicted_keys", f.store.stats.evicted_keys);
    }
    lines::push_num(text, "pubsub_fan_msgs", f.node.pubsub_fan_msgs);
    lines::push_num(text, "pubsub_delivered", f.node.pubsub_delivered);
    lines::push_num(text, "pubsub_state_bytes", f.node.pubsub_state_bytes);
    lines::push_num(text, f.names.wire_buffers_bytes, f.node.wire_buffers_bytes);
    lines::push_num(text, f.names.conn_state_bytes, f.node.conn_state_bytes);
    lines::push_num(text, "reply_pool_bytes", f.node.reply_pool_bytes);
    lines::push_num(text, "cmd_pool_bytes", f.node.cmd_pool_bytes);
    lines::push_num(text, "cold_pool_bytes", f.node.cold_pool_bytes);
    if layout == Layout::Plain {
        lines::push_num(text, f.names.process_rss, f.host.rss);
    }
    if layout == Layout::Scoped {
        lines::push_num(text, "loop_snapshot_bytes", f.node.loop_snapshot_bytes);
    }
    text.append("\r\n");
}

/// The keyspace section: one line per database that holds keys.
#[verifier::opaque]
pub open spec fn keyspace_body(t: Seq<char>, f: InfoFacts, layout: Layout) -> Seq<char> {
    let t = lines::line(t, "# Keyspace"@);
    let t = if layout == Layout::Scoped {
        lines::txt(t, "keyspace_scope"@, scope_label(f.memory.node_scope))
    } else {
        t
    };
    let t = db_text(
        t,
        match layout {
            Layout::Plain => f.store.dbs@,
            Layout::Scoped => f.memory.dbs@,
        },
    );
    let t = t + "\r\n"@;
    t
}

/// The keyspace section: one line per database that holds keys.
pub fn keyspace_section(text: &mut String, f: &InfoFacts, layout: Layout)
    ensures
        final(text)@ == keyspace_body(old(text)@, *f, layout),
{
    proof {
        reveal(keyspace_body);
    }
    lines::push(text, "# Keyspace");
    if layout == Layout::Scoped {
        lines::push_txt(text, "keyspace_scope", scope_name(f.memory.node_scope));
    }
    match layout {
        Layout::Plain => db_lines(text, f.store.dbs.as_slice()),
        Layout::Scoped => db_lines(text, f.memory.dbs.as_slice()),
    }
    text.append("\r\n");
}

/// The text without the blank lines at its end.
pub open spec fn trimmed(t: Seq<u8>) -> Seq<u8>
    decreases t.len(),
{
    if text::has_suffix(t, seq![13u8, 10u8, 13u8, 10u8]) {
        trimmed(t.take(t.len() - 2))
    } else {
        t
    }
}

/// The text as bytes, without the blank lines at its end.
pub(crate) fn finish(text: &str) -> (r: Vec<u8>)
    ensures
        r@ == trimmed(text::utf8(text@)),
{
    let mut out: Vec<u8> = text::bytes_of(text);
    let blank: [u8; 4] = [13, 10, 13, 10];
    proof {
        assert(blank@ =~= seq![13u8, 10u8, 13u8, 10u8]);
    }
    while text::ends_with(out.as_slice(), blank.as_slice())
        invariant
            blank@ == seq![13u8, 10u8, 13u8, 10u8],
            trimmed(out@) == trimmed(text::utf8(text@)),
        decreases out.len(),
    {
        let ghost before = out@;
        let keep: usize = out.len() - 2;
        out.truncate(keep);
        proof {
            assert(out@ =~= before.take(before.len() - 2));
        }
    }
    out
}

/// What an argument of `INFO` names.
pub enum Named {
    /// `all`, `default` or `everything`.
    Everything,
    /// A section, by its position.
    Section(int),
    /// No section of this build.
    Unknown,
}

/// What an argument names, in any case.
pub open spec fn named(arg: Seq<u8>) -> Named {
    if text::is_word(arg, "all"@) || text::is_word(arg, "default"@) || text::is_word(
        arg,
        "everything"@,
    ) {
        Named::Everything
    } else if text::is_word(arg, "server"@) {
        Named::Section(0)
    } else if text::is_word(arg, "clients"@) {
        Named::Section(1)
    } else if text::is_word(arg, "memory"@) {
        Named::Section(2)
    } else if text::is_word(arg, "persistence"@) {
        Named::Section(3)
    } else if text::is_word(arg, "tiering"@) {
        Named::Section(4)
    } else if text::is_word(arg, "stats"@) {
        Named::Section(5)
    } else if text::is_word(arg, "replication"@) {
        Named::Section(6)
    } else if text::is_word(arg, "cpu"@) {
        Named::Section(7)
    } else if text::is_word(arg, "tripwires"@) {
        Named::Section(8)
    } else if text::is_word(arg, "keyspace"@) {
        Named::Section(9)
    } else if text::is_word(arg, "loophist"@) {
        Named::Section(10)
    } else {
        Named::Unknown
    }
}

/// The position that stands for every section.
pub const EVERYTHING: usize = 11;

/// What an argument names: a section's position, [`EVERYTHING`], or nothing.
pub(crate) fn section_of(arg: &[u8]) -> (r: Option<usize>)
    ensures
        match named(arg@) {
            Named::Everything => r == Some(EVERYTHING),
            Named::Section(i) => r matches Some(k) && k == i && k < EVERYTHING,
            Named::Unknown => r is None,
        },
{
    if text::word(arg, "all") || text::word(arg, "default") || text::word(arg, "everything") {
        Some(EVERYTHING)
    } else if text::word(arg, "server") {
        Some(0)
    } else if text::word(arg, "clients") {
        Some(1)
    } else if text::word(arg, "memory") {
        Some(2)
    } else if text::word(arg, "persistence") {
        Some(3)
    } else if text::word(arg, "tiering") {
        Some(4)
    } else if text::word(arg, "stats") {
        Some(5)
    } else if text::word(arg, "replication") {
        Some(6)
    } else if text::word(arg, "cpu") {
        Some(7)
    } else if text::word(arg, "tripwires") {
        Some(8)
    } else if text::word(arg, "keyspace") {
        Some(9)
    } else if text::word(arg, "loophist") {
        Some(10)
    } else {
        None
    }
}

/// Whether some argument of the command names a section.
pub open spec fn asks_for(argv: Seq<&[u8]>, section: int) -> bool {
    exists|i: int|
        1 <= i < argv.len() && named((#[trigger] argv[i])@) == Named::Section(section)
}

/// Whether the command asks for every section: it names none, or says so.
pub open spec fn asks_for_all(argv: Seq<&[u8]>) -> bool {
    argv.len() == 1 || exists|i: int|
        1 <= i < argv.len() && named((#[trigger] argv[i])@) is Everything
}

/// The sections a command asks for, rendered. The loop histogram is rendered
/// only where it is named.
pub open spec fn scoped_text(
    argv: Seq<&[u8]>,
    f: InfoFacts,
    rows: Seq<config::ConfigRow>,
) -> Seq<char> {
    let all = asks_for_all(argv);
    let layout = Layout::Scoped;
    let t = Seq::<char>::empty();
    let t = if all || asks_for(argv, 0) {
        server_body(t, f, layout)
    } else {
        t
    };
    let t = if all || asks_for(argv, 1) {
        clients_body(t, f, layout, rows)
    } else {
        t
    };
    let t = if all || asks_for(argv, 2) {
        memory_body(t, f, layout, rows)
    } else {
        t
    };
    let t = if all || asks_for(argv, 3) {
        persistence_body(t, f, layout)
    } else {
        t
    };
    let t = if all || asks_for(argv, 4) {
        tiering_body(t, f, layout)
    } else {
        t
    };
    let t = if all || asks_for(argv, 5) {
        stats_body(t, f, layout)
    } else {
        t
    };
    let t = if all || asks_for(argv, 6) {
        replication_body(t, f, layout)
    } else {
        t
    };
    let t = if all || asks_for(argv, 7) {
        cpu_body(t, f)
    } else {
        t
    };
    let t = if all || asks_for(argv, 8) {
        tripwires_body(t, f, layout)
    } else {
        t
    };
    let t = if asks_for(argv, 10) {
        t + f.loop_text@
    } else {
        t
    };
    if all || asks_for(argv, 9) {
        keyspace_body(t, f, layout)
    } else {
        t
    }
}

/// Whether a section is named.
pub fn asks(argv: &[&[u8]], section: usize) -> (r: bool)
    requires
        section < EVERYTHING,
    ensures
        r == asks_for(argv@, section as int),
{
    let mut i: usize = 1;
    while i < argv.len()
        invariant
            1 <= i,
            section < EVERYTHING,
            forall|k: int|
                1 <= k < i && k < argv@.len() ==> named((#[trigger] argv@[k])@) != Named::Section(
                    section as int,
                ),
        decreases argv.len() - i,
    {
        if let Some(k) = section_of(argv[i]) {
            if k == section {
                return true;
            }
        }
        i += 1;
    }
    false
}

/// Whether every section is asked for.
pub fn asks_all(argv: &[&[u8]]) -> (r: bool)
    ensures
        r == asks_for_all(argv@),
{
    if argv.len() == 1 {
        return true;
    }
    let mut i: usize = 1;
    while i < argv.len()
        invariant
            1 <= i,
            forall|k: int|
                1 <= k < i && k < argv@.len() ==> !(named((#[trigger] argv@[k])@) is Everything),
        decreases argv.len() - i,
    {
        if let Some(k) = section_of(argv[i]) {
            if k == EVERYTHING {
                return true;
            }
        }
        i += 1;
    }
    false
}

/// `INFO [section ...]` in the scoped layout: a bare command, or one that
/// says so, gives every section; otherwise only those it names, and a name
/// this build lacks selects nothing.
pub fn info(argv: &[&[u8]], f: &InfoFacts, config: &ConfigStore, w: &mut RespWriter)
    requires
        f.wf(),
    ensures
        final(w)@ == old(w)@ + resp::verbatim_reply(
            old(w).proto,
            trimmed(text::utf8(scoped_text(argv@, *f, config@))),
        ),
        final(w).proto == old(w).proto,
{
    let all: bool = asks_all(argv);
    let layout = Layout::Scoped;
    let mut text = text::owned("");
    proof {
        reveal_strlit("");
        assert(text@ =~= Seq::empty());
    }
    if all || asks(argv, 0) {
        server_section(&mut text, f, layout);
    }
    if all || asks(argv, 1) {
        clients_section(&mut text, f, layout, config);
    }
    if all || asks(argv, 2) {
        memory_section(&mut text, f, layout, config);
    }
    if all || asks(argv, 3) {
        persistence_section(&mut text, f, layout);
    }
    if all || asks(argv, 4) {
        tiering_section(&mut text, f, layout);
    }
    if all || asks(argv, 5) {
        stats_section(&mut text, f, layout);
    }
    if all || asks(argv, 6) {
        replication_section(&mut text, f, layout);
    }
    if all || asks(argv, 7) {
        cpu_section(&mut text, f);
    }
    if all || asks(argv, 8) {
        tripwires_section(&mut text, f, layout);
    }
    if asks(argv, 10) {
        text.append(f.loop_text.as_str());
    }
    if all || asks(argv, 9) {
        keyspace_section(&mut text, f, layout);
    }
    w.verbatim(finish(text.as_str()).as_slice());
}

/// Unknown names select nothing: a command that names only sections this
/// build lacks is answered with an empty body.
pub proof fn law_unknown_sections_are_empty(
    argv: Seq<&[u8]>,
    f: InfoFacts,
    rows: Seq<config::ConfigRow>,
)
    requires
        argv.len() > 1,
        forall|i: int| 1 <= i < argv.len() ==> named((#[trigger] argv[i])@) is Unknown,
    ensures
        trimmed(text::utf8(scoped_text(argv, f, rows))) == Seq::<u8>::empty(),
{
    assert(scoped_text(argv, f, rows) =~= Seq::empty());
    assert(text::utf8(Seq::empty()) =~= Seq::<u8>::empty());
    assert(!text::has_suffix(Seq::<u8>::empty(), seq![13u8, 10u8, 13u8, 10u8]));
}

} // verus!
