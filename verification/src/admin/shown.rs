//! What `INFO` shows: every row of a section is the fact that its name says,
//! and a section that is asked for has all of its rows.

use vstd::prelude::*;
use crate::admin::facts::{
    ClassBudget, DbCount, DiskFull, HostFacts, InfoFacts, Layout, NodeGauges, TierNsFacts,
};
use crate::admin::info;
use crate::admin::lines;
use crate::admin::sections;
use crate::config;
use crate::text;

verus! {

broadcast proof fn lemma_classes_keep(
    t: Seq<char>,
    classes: Seq<ClassBudget>,
    label: Seq<char>,
    value: Seq<char>,
)
    requires
        lines::ended(t),
        lines::shows(t, label, value),
    ensures
        #[trigger] lines::shows(sections::class_text(t, classes), label, value),
    decreases classes.len(),
{
    if classes.len() > 0 {
        lemma_classes_keep(t, classes.drop_last(), label, value);
        lemma_classes_end(t, classes.drop_last());
        lemma_class_line(sections::class_text(t, classes.drop_last()), classes.last());
    }
}

broadcast proof fn lemma_classes_end(t: Seq<char>, classes: Seq<ClassBudget>)
    requires
        lines::ended(t),
    ensures
        #[trigger] lines::ended(sections::class_text(t, classes)),
    decreases classes.len(),
{
    if classes.len() > 0 {
        lemma_classes_end(t, classes.drop_last());
        lemma_class_line(sections::class_text(t, classes.drop_last()), classes.last());
    }
}

proof fn lemma_class_line(t: Seq<char>, c: ClassBudget)
    requires
        lines::ended(t),
    ensures
        lines::ended(sections::class_line(t, c)),
        forall|label: Seq<char>, value: Seq<char>|
            lines::shows(t, label, value) ==> #[trigger] lines::shows(
                sections::class_line(t, c),
                label,
                value,
            ),
        lines::shows(
            sections::class_line(t, c),
            "io_budget_bytes_"@ + c.name@,
            text::dec_chars(c.bytes as nat),
        ),
        lines::shows(
            sections::class_line(t, c),
            "io_budget_ops_"@ + c.name@,
            text::dec_chars(c.ops as nat),
        ),
        lines::shows(
            sections::class_line(t, c),
            "io_budget_deferrals_"@ + c.name@,
            text::dec_chars(c.deferrals as nat),
        ),
{
    let a = lines::num(t, "io_budget_bytes_"@ + c.name@, c.bytes as nat);
    let b = lines::num(a, "io_budget_ops_"@ + c.name@, c.ops as nat);
    let d = lines::num(b, "io_budget_deferrals_"@ + c.name@, c.deferrals as nat);
    broadcast use lines::group_rows;

    assert(a =~= t + "io_budget_bytes_"@ + c.name@ + ":"@ + text::dec_chars(c.bytes as nat)
        + "\r\n"@);
    assert(b =~= a + "io_budget_ops_"@ + c.name@ + ":"@ + text::dec_chars(c.ops as nat) + "\r\n"@);
    assert(d =~= b + "io_budget_deferrals_"@ + c.name@ + ":"@ + text::dec_chars(
        c.deferrals as nat,
    ) + "\r\n"@);
    assert(sections::class_line(t, c) == d);
}

/// Every class of the device budget is shown: its bytes, its operations and
/// its deferrals, under its own name.
pub proof fn law_every_class_is_shown(t: Seq<char>, classes: Seq<ClassBudget>, i: int)
    requires
        lines::ended(t),
        0 <= i < classes.len(),
    ensures
        ({
            let out = sections::class_text(t, classes);
            let c = classes[i];
            &&& lines::shows(out, "io_budget_bytes_"@ + c.name@, text::dec_chars(c.bytes as nat))
            &&& lines::shows(out, "io_budget_ops_"@ + c.name@, text::dec_chars(c.ops as nat))
            &&& lines::shows(
                out,
                "io_budget_deferrals_"@ + c.name@,
                text::dec_chars(c.deferrals as nat),
            )
        }),
    decreases classes.len(),
{
    let rest = classes.drop_last();
    lemma_classes_end(t, rest);
    lemma_class_line(sections::class_text(t, rest), classes.last());
    if i < rest.len() {
        law_every_class_is_shown(t, rest, i);
        assert(rest[i] == classes[i]);
    }
}

proof fn lemma_db_line(t: Seq<char>, d: DbCount)
    requires
        lines::ended(t),
    ensures
        ({
            let value = "keys="@ + text::dec_chars(d.keys as nat) + ",expires="@ + text::dec_chars(
                d.expires as nat,
            ) + ",avg_ttl=0"@;
            let out = t + "db"@ + text::dec_chars(d.db as nat) + ":keys="@ + text::dec_chars(
                d.keys as nat,
            ) + ",expires="@ + text::dec_chars(d.expires as nat) + ",avg_ttl=0\r\n"@;
            &&& lines::ended(out)
            &&& lines::shows(out, "db"@ + text::dec_chars(d.db as nat), value)
            &&& forall|l: Seq<char>, v: Seq<char>|
                lines::shows(t, l, v) ==> #[trigger] lines::shows(out, l, v)
        }),
{
    let label = "db"@ + text::dec_chars(d.db as nat);
    let value = "keys="@ + text::dec_chars(d.keys as nat) + ",expires="@ + text::dec_chars(
        d.expires as nat,
    ) + ",avg_ttl=0"@;
    let out = t + "db"@ + text::dec_chars(d.db as nat) + ":keys="@ + text::dec_chars(d.keys as nat)
        + ",expires="@ + text::dec_chars(d.expires as nat) + ",avg_ttl=0\r\n"@;
    broadcast use lines::group_rows;

    reveal_strlit(":keys=");
    reveal_strlit(":");
    reveal_strlit("keys=");
    reveal_strlit(",avg_ttl=0\r\n");
    reveal_strlit(",avg_ttl=0");
    reveal_strlit("\r\n");
    assert(":keys="@ =~= ":"@ + "keys="@);
    assert(",avg_ttl=0\r\n"@ =~= ",avg_ttl=0"@ + "\r\n"@);
    assert(out =~= lines::txt(t, label, value));
}

broadcast proof fn lemma_dbs_keep(
    t: Seq<char>,
    dbs: Seq<DbCount>,
    label: Seq<char>,
    value: Seq<char>,
)
    requires
        lines::ended(t),
        lines::shows(t, label, value),
    ensures
        #[trigger] lines::shows(sections::db_text(t, dbs), label, value),
    decreases dbs.len(),
{
    if dbs.len() > 0 {
        lemma_dbs_keep(t, dbs.drop_last(), label, value);
        lemma_dbs_end(t, dbs.drop_last());
        lemma_db_line(sections::db_text(t, dbs.drop_last()), dbs.last());
    }
}

broadcast proof fn lemma_dbs_end(t: Seq<char>, dbs: Seq<DbCount>)
    requires
        lines::ended(t),
    ensures
        #[trigger] lines::ended(sections::db_text(t, dbs)),
    decreases dbs.len(),
{
    if dbs.len() > 0 {
        lemma_dbs_end(t, dbs.drop_last());
        lemma_db_line(sections::db_text(t, dbs.drop_last()), dbs.last());
    }
}

/// Every database that holds a key is shown with its keys and its expiries,
/// and an empty one has no row.
pub proof fn law_databases_with_keys_are_shown(t: Seq<char>, dbs: Seq<DbCount>, i: int)
    requires
        lines::ended(t),
        0 <= i < dbs.len(),
    ensures
        dbs[i].keys > 0 ==> lines::shows(
            sections::db_text(t, dbs),
            "db"@ + text::dec_chars(dbs[i].db as nat),
            "keys="@ + text::dec_chars(dbs[i].keys as nat) + ",expires="@ + text::dec_chars(
                dbs[i].expires as nat,
            ) + ",avg_ttl=0"@,
        ),
        dbs.last().keys == 0 ==> sections::db_text(t, dbs) == sections::db_text(t, dbs.drop_last()),
    decreases dbs.len(),
{
    let rest = dbs.drop_last();
    lemma_dbs_end(t, rest);
    lemma_db_line(sections::db_text(t, rest), dbs.last());
    if i < rest.len() {
        law_databases_with_keys_are_shown(t, rest, i);
        assert(rest[i] == dbs[i]);
    }
}

/// What the row of a tiered namespace says of it, behind the row's label.
#[verifier::opaque]
pub open spec fn tier_row(n: TierNsFacts) -> Seq<char> {
    let v = "head="@ + text::dec_chars(n.head as nat);
    let v = v + ",flushed="@ + text::dec_chars(n.flushed as nat);
    let v = v + ",ro_boundary="@ + text::dec_chars(n.ro_boundary as nat);
    let v = v + ",tail="@ + text::dec_chars(n.tail as nat);
    let v = v + ",committed_bytes="@ + text::dec_chars(n.committed_bytes as nat);
    let v = v + ",budget_bytes="@ + text::dec_chars(n.budget_bytes as nat);
    let v = v + ",disk_budget_bytes="@ + text::dec_chars(n.disk_budget_bytes as nat);
    let v = v + ",mutable_permille="@ + text::dec_chars(n.mutable_permille as nat);
    let v = v + ",live_bytes="@ + text::dec_chars(n.live_bytes as nat);
    let v = v + ",dead_bytes="@ + text::dec_chars(n.dead_bytes as nat);
    let v = v + ",user_bytes="@ + text::dec_chars(n.user_bytes as nat);
    let v = v + ",wal_bytes="@ + text::dec_chars(n.wal_bytes as nat);
    let v = v + ",flush_bytes="@ + text::dec_chars(n.flush_bytes as nat);
    let v = v + ",compaction_bytes="@ + text::dec_chars(n.compaction_bytes as nat);
    let v = v + ",write_amp_milli="@ + sections::amp_text(n.write_amp_milli);
    let v = v + ",blob_user_bytes="@ + text::dec_chars(n.blob_user_bytes as nat);
    let v = v + ",blob_bytes="@ + text::dec_chars(n.blob_bytes as nat);
    let v = v + ",blob_write_amp_milli="@ + sections::amp_text(n.blob_write_amp_milli);
    let v = v + ",blob_extents_live="@ + text::dec_chars(n.blob_extents_live as nat);
    let v = v + ",blob_disk_bytes="@ + text::dec_chars(n.blob_disk_bytes as nat);
    let v = v + ",disk_used_bytes="@ + text::dec_chars(n.disk_used_bytes as nat);
    let v = v + ",disk_full="@ + sections::disk_label(n.disk_full);
    let v = v + ",diskfull_refusals="@ + text::dec_chars(n.diskfull_refusals as nat);
    let v = v + ",compact_idle_pressure="@ + text::dec_chars(n.compact_idle_pressure as nat);
    let v = v + ",promotions="@ + text::dec_chars(n.promotions as nat);
    let v = v + ",promoted_bytes="@ + text::dec_chars(n.promoted_bytes as nat);
    let v = v + ",shadow_pending="@ + text::dec_chars(n.shadow_pending as nat);
    v + ",shadow_pinned_bytes="@ + text::dec_chars(n.shadow_pinned_bytes as nat)
}

proof fn lemma_row_shown(t: Seq<char>, label: Seq<char>, value: Seq<char>)
    requires
        lines::ended(t),
    ensures
        lines::ended(lines::txt(t, label, value)),
        lines::shows(lines::txt(t, label, value), label, value),
        forall|l: Seq<char>, v: Seq<char>|
            lines::shows(t, l, v) ==> #[trigger] lines::shows(lines::txt(t, label, value), l, v),
{
    broadcast use lines::group_rows;

}

proof fn lemma_field_joins(t: Seq<char>, row: Seq<char>, label: Seq<char>, value: Seq<char>)
    ensures
        t + row + label + value == t + (row + label + value),
{
    assert(t + row + label + value =~= t + (row + label + value));
}

#[verifier::spinoff_prover]
#[verifier::rlimit(60)]
proof fn lemma_tier_row(t: Seq<char>, n: TierNsFacts)
    requires
        lines::ended(t),
    ensures
        lines::ended(sections::tier_ns_line(t, n)),
        lines::shows(
            sections::tier_ns_line(t, n),
            "tiering_ns"@ + text::dec_chars(n.id as nat),
            tier_row(n),
        ),
        forall|l: Seq<char>, v: Seq<char>|
            lines::shows(t, l, v) ==> #[trigger] lines::shows(sections::tier_ns_line(t, n), l, v),
{
    reveal(tier_row);
    let label = "tiering_ns"@ + text::dec_chars(n.id as nat);
    let start = t + label + ":"@;
    assert(t + "tiering_ns"@ + text::dec_chars(n.id as nat) + ":head="@ + text::dec_chars(
        n.head as nat,
    ) == start + ("head="@ + text::dec_chars(n.head as nat))) by {
        reveal_strlit(":head=");
        reveal_strlit(":");
        reveal_strlit("head=");
        assert(":head="@ =~= ":"@ + "head="@);
        assert(t + "tiering_ns"@ + text::dec_chars(n.id as nat) + ":head="@ + text::dec_chars(
            n.head as nat,
        ) =~= start + ("head="@ + text::dec_chars(n.head as nat)));
    }
    let v0 = "head="@ + text::dec_chars(n.head as nat);
    lemma_field_joins(start, v0, ",flushed="@, text::dec_chars(n.flushed as nat));
    let v1 = v0 + ",flushed="@ + text::dec_chars(n.flushed as nat);
    lemma_field_joins(start, v1, ",ro_boundary="@, text::dec_chars(n.ro_boundary as nat));
    let v2 = v1 + ",ro_boundary="@ + text::dec_chars(n.ro_boundary as nat);
    lemma_field_joins(start, v2, ",tail="@, text::dec_chars(n.tail as nat));
    let v3 = v2 + ",tail="@ + text::dec_chars(n.tail as nat);
    lemma_field_joins(start, v3, ",committed_bytes="@, text::dec_chars(n.committed_bytes as nat));
    let v4 = v3 + ",committed_bytes="@ + text::dec_chars(n.committed_bytes as nat);
    lemma_field_joins(start, v4, ",budget_bytes="@, text::dec_chars(n.budget_bytes as nat));
    let v5 = v4 + ",budget_bytes="@ + text::dec_chars(n.budget_bytes as nat);
    lemma_field_joins(
        start,
        v5,
        ",disk_budget_bytes="@,
        text::dec_chars(n.disk_budget_bytes as nat),
    );
    let v6 = v5 + ",disk_budget_bytes="@ + text::dec_chars(n.disk_budget_bytes as nat);
    lemma_field_joins(start, v6, ",mutable_permille="@, text::dec_chars(n.mutable_permille as nat));
    let v7 = v6 + ",mutable_permille="@ + text::dec_chars(n.mutable_permille as nat);
    lemma_field_joins(start, v7, ",live_bytes="@, text::dec_chars(n.live_bytes as nat));
    let v8 = v7 + ",live_bytes="@ + text::dec_chars(n.live_bytes as nat);
    lemma_field_joins(start, v8, ",dead_bytes="@, text::dec_chars(n.dead_bytes as nat));
    let v9 = v8 + ",dead_bytes="@ + text::dec_chars(n.dead_bytes as nat);
    lemma_field_joins(start, v9, ",user_bytes="@, text::dec_chars(n.user_bytes as nat));
    let v10 = v9 + ",user_bytes="@ + text::dec_chars(n.user_bytes as nat);
    lemma_field_joins(start, v10, ",wal_bytes="@, text::dec_chars(n.wal_bytes as nat));
    let v11 = v10 + ",wal_bytes="@ + text::dec_chars(n.wal_bytes as nat);
    lemma_field_joins(start, v11, ",flush_bytes="@, text::dec_chars(n.flush_bytes as nat));
    let v12 = v11 + ",flush_bytes="@ + text::dec_chars(n.flush_bytes as nat);
    lemma_field_joins(
        start,
        v12,
        ",compaction_bytes="@,
        text::dec_chars(n.compaction_bytes as nat),
    );
    let v13 = v12 + ",compaction_bytes="@ + text::dec_chars(n.compaction_bytes as nat);
    lemma_field_joins(start, v13, ",write_amp_milli="@, sections::amp_text(n.write_amp_milli));
    let v14 = v13 + ",write_amp_milli="@ + sections::amp_text(n.write_amp_milli);
    lemma_field_joins(start, v14, ",blob_user_bytes="@, text::dec_chars(n.blob_user_bytes as nat));
    let v15 = v14 + ",blob_user_bytes="@ + text::dec_chars(n.blob_user_bytes as nat);
    lemma_field_joins(start, v15, ",blob_bytes="@, text::dec_chars(n.blob_bytes as nat));
    let v16 = v15 + ",blob_bytes="@ + text::dec_chars(n.blob_bytes as nat);
    lemma_field_joins(
        start,
        v16,
        ",blob_write_amp_milli="@,
        sections::amp_text(n.blob_write_amp_milli),
    );
    let v17 = v16 + ",blob_write_amp_milli="@ + sections::amp_text(n.blob_write_amp_milli);
    lemma_field_joins(
        start,
        v17,
        ",blob_extents_live="@,
        text::dec_chars(n.blob_extents_live as nat),
    );
    let v18 = v17 + ",blob_extents_live="@ + text::dec_chars(n.blob_extents_live as nat);
    lemma_field_joins(start, v18, ",blob_disk_bytes="@, text::dec_chars(n.blob_disk_bytes as nat));
    let v19 = v18 + ",blob_disk_bytes="@ + text::dec_chars(n.blob_disk_bytes as nat);
    lemma_field_joins(start, v19, ",disk_used_bytes="@, text::dec_chars(n.disk_used_bytes as nat));
    let v20 = v19 + ",disk_used_bytes="@ + text::dec_chars(n.disk_used_bytes as nat);
    lemma_field_joins(start, v20, ",disk_full="@, sections::disk_label(n.disk_full));
    let v21 = v20 + ",disk_full="@ + sections::disk_label(n.disk_full);
    lemma_field_joins(
        start,
        v21,
        ",diskfull_refusals="@,
        text::dec_chars(n.diskfull_refusals as nat),
    );
    let v22 = v21 + ",diskfull_refusals="@ + text::dec_chars(n.diskfull_refusals as nat);
    lemma_field_joins(
        start,
        v22,
        ",compact_idle_pressure="@,
        text::dec_chars(n.compact_idle_pressure as nat),
    );
    let v23 = v22 + ",compact_idle_pressure="@ + text::dec_chars(n.compact_idle_pressure as nat);
    lemma_field_joins(start, v23, ",promotions="@, text::dec_chars(n.promotions as nat));
    let v24 = v23 + ",promotions="@ + text::dec_chars(n.promotions as nat);
    lemma_field_joins(start, v24, ",promoted_bytes="@, text::dec_chars(n.promoted_bytes as nat));
    let v25 = v24 + ",promoted_bytes="@ + text::dec_chars(n.promoted_bytes as nat);
    lemma_field_joins(start, v25, ",shadow_pending="@, text::dec_chars(n.shadow_pending as nat));
    let v26 = v25 + ",shadow_pending="@ + text::dec_chars(n.shadow_pending as nat);
    lemma_field_joins(
        start,
        v26,
        ",shadow_pinned_bytes="@,
        text::dec_chars(n.shadow_pinned_bytes as nat),
    );
    let v27 = v26 + ",shadow_pinned_bytes="@ + text::dec_chars(n.shadow_pinned_bytes as nat);
    assert(v27 == tier_row(n));
    assert(sections::tier_ns_line(t, n) == start + v27 + "\r\n"@);
    lemma_row_shown(t, label, tier_row(n));
}

broadcast proof fn lemma_namespaces_keep(
    t: Seq<char>,
    ns: Seq<TierNsFacts>,
    label: Seq<char>,
    value: Seq<char>,
)
    requires
        lines::ended(t),
        lines::shows(t, label, value),
    ensures
        #[trigger] lines::shows(sections::tiering_namespace_text(t, ns), label, value),
    decreases ns.len(),
{
    if ns.len() > 0 {
        lemma_namespaces_keep(t, ns.drop_last(), label, value);
        lemma_namespaces_end(t, ns.drop_last());
        lemma_tier_row(sections::tiering_namespace_text(t, ns.drop_last()), ns.last());
    }
}

broadcast proof fn lemma_namespaces_end(t: Seq<char>, ns: Seq<TierNsFacts>)
    requires
        lines::ended(t),
    ensures
        #[trigger] lines::ended(sections::tiering_namespace_text(t, ns)),
    decreases ns.len(),
{
    if ns.len() > 0 {
        lemma_namespaces_end(t, ns.drop_last());
        lemma_tier_row(sections::tiering_namespace_text(t, ns.drop_last()), ns.last());
    }
}

/// Every tiered namespace has a row under its id.
#[verifier::spinoff_prover]
#[verifier::rlimit(100)]
pub proof fn law_every_tiered_namespace_is_shown(t: Seq<char>, ns: Seq<TierNsFacts>, i: int)
    requires
        lines::ended(t),
        0 <= i < ns.len(),
    ensures
        lines::shows(
            sections::tiering_namespace_text(t, ns),
            "tiering_ns"@ + text::dec_chars(ns[i].id as nat),
            tier_row(ns[i]),
        ),
    decreases ns.len(),
{
    let rest = ns.drop_last();
    lemma_namespaces_end(t, rest);
    lemma_tier_row(sections::tiering_namespace_text(t, rest), ns.last());
    if i < rest.len() {
        law_every_tiered_namespace_is_shown(t, rest, i);
        assert(rest[i] == ns[i]);
    }
}

#[verifier::spinoff_prover]
broadcast proof fn lemma_log_gauge_keeps(
    t: Seq<char>,
    f: InfoFacts,
    label: Seq<char>,
    value: Seq<char>,
)
    requires
        lines::ended(t),
        lines::shows(t, label, value),
    ensures
        #[trigger] lines::shows(sections::log_gauge_text(t, f), label, value),
{
    broadcast use lines::group_rows;

}

broadcast proof fn lemma_log_gauge_ends(t: Seq<char>, f: InfoFacts)
    requires
        lines::ended(t),
    ensures
        #[trigger] lines::ended(sections::log_gauge_text(t, f)),
{
    broadcast use lines::group_rows;

}

/// The log rows show the log: each row is the fact its name says.
#[verifier::spinoff_prover]
#[verifier::rlimit(60)]
pub proof fn law_log_rows(t: Seq<char>, f: InfoFacts)
    requires
        lines::ended(t),
    ensures
        ({
            let out = sections::log_gauge_text(t, f);
            &&& lines::counts(out, "log_records_appended"@, f.node.log_records_appended as nat)
            &&& lines::counts(out, "pending_log_bytes"@, f.node.log_pending_bytes as nat)
            &&& lines::counts(out, "last_durable_lsn"@, f.node.log_last_durable_lsn as nat)
            &&& lines::counts(out, "watermark_lag_lsn"@, f.node.log_watermark_lag as nat)
            &&& lines::counts(out, "fsyncs_completed"@, f.node.log_fsyncs_completed as nat)
            &&& lines::counts(out, "acks_gated"@, f.node.log_acks_gated as nat)
            &&& lines::counts(out, "log_frames_queued"@, f.node.log_frames_queued as nat)
            &&& lines::counts(out, "log_staging_bytes"@, f.node.log_staging_bytes as nat)
            &&& lines::counts(out, "log_admission_busy"@, f.node.log_admission_busy as nat)
            &&& lines::counts(
                out,
                "log_admission_oversized"@,
                f.node.log_admission_oversized as nat,
            )
            &&& lines::counts(out, "log_admission_parked"@, f.node.log_admission_parked as nat)
            &&& lines::counts(
                out,
                "log_admission_parked_total"@,
                f.node.log_admission_parked_total as nat,
            )
            &&& lines::counts(
                out,
                "log_staging_capacity_bytes"@,
                f.node.log_staging_capacity as nat,
            )
            &&& lines::counts(out, "log_write_stall_p50_us"@, f.node.log_write_stall_p50_us as nat)
            &&& lines::counts(out, "log_write_stall_p99_us"@, f.node.log_write_stall_p99_us as nat)
            &&& lines::counts(
                out,
                "log_write_stall_p999_us"@,
                f.node.log_write_stall_p999_us as nat,
            )
        }),
{
    broadcast use lines::group_rows;

}

#[verifier::spinoff_prover]
broadcast proof fn lemma_fsync_gauge_keeps(
    t: Seq<char>,
    f: InfoFacts,
    label: Seq<char>,
    value: Seq<char>,
)
    requires
        lines::ended(t),
        lines::shows(t, label, value),
    ensures
        #[trigger] lines::shows(sections::fsync_gauge_text(t, f), label, value),
{
    broadcast use lines::group_rows;

}

broadcast proof fn lemma_fsync_gauge_ends(t: Seq<char>, f: InfoFacts)
    requires
        lines::ended(t),
    ensures
        #[trigger] lines::ended(sections::fsync_gauge_text(t, f)),
{
    broadcast use lines::group_rows;

}

/// The sync rows show the syncs: rates, latencies and how they were issued.
#[verifier::spinoff_prover]
#[verifier::rlimit(60)]
pub proof fn law_fsync_rows(t: Seq<char>, f: InfoFacts)
    requires
        lines::ended(t),
    ensures
        ({
            let out = sections::fsync_gauge_text(t, f);
            &&& lines::counts(out, "fsyncs_per_sec"@, f.node.fsyncs_per_sec as nat)
            &&& lines::counts(out, "acks_per_sec"@, f.node.acks_per_sec as nat)
            &&& lines::counts(out, "fsync_latency_p50_us"@, f.node.fsync_p50_us as nat)
            &&& lines::counts(out, "fsync_latency_p99_us"@, f.node.fsync_p99_us as nat)
            &&& lines::counts(out, "fsync_latency_p999_us"@, f.node.fsync_p999_us as nat)
            &&& lines::counts(out, "fsync_group_p50"@, f.node.fsync_group_p50 as nat)
            &&& lines::counts(out, "fsync_group_p99"@, f.node.fsync_group_p99 as nat)
            &&& lines::counts(out, "fsyncs_linked"@, f.node.fsyncs_linked as nat)
            &&& lines::counts(out, "fsyncs_seal"@, f.node.fsyncs_seal as nat)
            &&& lines::counts(out, "fsyncs_standalone"@, f.node.fsyncs_standalone as nat)
            &&& lines::counts(out, "fsyncs_completion"@, f.node.fsyncs_completion as nat)
        }),
{
    broadcast use lines::group_rows;

}

#[verifier::spinoff_prover]
broadcast proof fn lemma_barrier_gauge_keeps(
    t: Seq<char>,
    f: InfoFacts,
    label: Seq<char>,
    value: Seq<char>,
)
    requires
        lines::ended(t),
        lines::shows(t, label, value),
    ensures
        #[trigger] lines::shows(sections::barrier_gauge_text(t, f), label, value),
{
    broadcast use lines::group_rows;

}

broadcast proof fn lemma_barrier_gauge_ends(t: Seq<char>, f: InfoFacts)
    requires
        lines::ended(t),
    ensures
        #[trigger] lines::ended(sections::barrier_gauge_text(t, f)),
{
    broadcast use lines::group_rows;

}

/// The barrier rows show the barrier class, the frame waits and the hold
/// policies.
#[verifier::spinoff_prover]
#[verifier::rlimit(60)]
pub proof fn law_barrier_rows(t: Seq<char>, f: InfoFacts)
    requires
        lines::ended(t),
    ensures
        ({
            let out = sections::barrier_gauge_text(t, f);
            &&& lines::shows(out, "barrier_class"@, sections::class_label(f.node.barrier_class_fua))
            &&& lines::shows(
                out,
                "io_class_configured"@,
                sections::class_label(f.node.io_class_configured_fua),
            )
            &&& lines::counts(out, "fsyncs_fua"@, f.node.fsyncs_fua as nat)
            &&& lines::counts(out, "fua_latency_p50_us"@, f.node.fua_p50_us as nat)
            &&& lines::counts(out, "fua_latency_p99_us"@, f.node.fua_p99_us as nat)
            &&& lines::counts(out, "log_padding_bytes"@, f.node.log_padding_bytes as nat)
            &&& lines::counts(out, "zero_fill_bytes"@, f.node.zero_fill_bytes as nat)
            &&& lines::counts(out, "rotations_unzeroed"@, f.node.rotations_unzeroed as nat)
            &&& lines::counts(out, "rotations_upgrade"@, f.node.rotations_upgrade as nat)
            &&& lines::counts(out, "reopened_packed_tails"@, f.node.reopened_packed_tails as nat)
            &&& lines::counts(out, "barrier_class_degraded"@, f.node.barrier_class_degraded as nat)
            &&& lines::counts(out, "frames_in_flight"@, f.node.frames_in_flight as nat)
            &&& lines::counts(out, "frames_in_flight_max"@, f.node.frames_in_flight_max as nat)
            &&& lines::counts(out, "frame_waits_barrier"@, f.node.frame_waits_barrier as nat)
            &&& lines::counts(out, "frame_waits_rotation"@, f.node.frame_waits_rotation as nat)
            &&& lines::counts(out, "frame_waits_reorder"@, f.node.frame_waits_reorder as nat)
            &&& lines::counts(out, "frame_waits_fill"@, f.node.frame_waits_fill as nat)
            &&& lines::counts(out, "fill_window_us"@, f.node.fill_window_us as nat)
            &&& lines::counts(out, "fill_target_bytes"@, f.node.fill_target_bytes as nat)
            &&& lines::counts(out, "frame_waits_group"@, f.node.frame_waits_group as nat)
            &&& lines::counts(out, "flush_group_window_us"@, f.node.flush_group_window_us as nat)
            &&& lines::counts(out, "frame_records_last"@, f.node.frame_records_last as nat)
            &&& lines::counts(out, "group_round_target"@, f.node.group_round_target as nat)
            &&& lines::shows(out, "io_properties_source"@, f.node.io_provenance.source@)
            &&& lines::counts(out, "io_properties_schema"@, f.node.io_provenance.schema as nat)
            &&& lines::shows(out, "io_properties_identity"@, f.node.io_provenance.identity@)
        }),
{
    broadcast use lines::group_rows;

}

#[verifier::spinoff_prover]
broadcast proof fn lemma_io_budget_keeps(
    t: Seq<char>,
    f: InfoFacts,
    label: Seq<char>,
    value: Seq<char>,
)
    requires
        lines::ended(t),
        lines::shows(t, label, value),
    ensures
        #[trigger] lines::shows(sections::io_budget_text(t, f), label, value),
{
    broadcast use {lines::group_rows, lemma_classes_keep, lemma_classes_end};

}

broadcast proof fn lemma_io_budget_ends(t: Seq<char>, f: InfoFacts)
    requires
        lines::ended(t),
    ensures
        #[trigger] lines::ended(sections::io_budget_text(t, f)),
{
    broadcast use {lines::group_rows, lemma_classes_keep, lemma_classes_end};

}

/// The budget rows show the device model, its classes and the checkpoint
/// stream.
#[verifier::spinoff_prover]
#[verifier::rlimit(60)]
pub proof fn law_budget_rows(t: Seq<char>, f: InfoFacts)
    requires
        lines::ended(t),
    ensures
        ({
            let out = sections::io_budget_text(t, f);
            &&& lines::shows(
                out,
                "io_budget_model"@,
                if f.node.io_budget_model_absent == 1 { "absent"@ } else { "probed"@ },
            )
            &&& lines::counts(
                out,
                "io_budget_write_bytes_per_s"@,
                f.node.io_budget_write_bytes_per_s as nat,
            )
            &&& lines::counts(
                out,
                "io_budget_read_bytes_per_s"@,
                f.node.io_budget_read_bytes_per_s as nat,
            )
            &&& lines::counts(out, "frame_waits_pace"@, f.node.frame_waits_pace as nat)
            &&& lines::counts(out, "log_frame_bytes"@, f.node.log_frame_bytes as nat)
            &&& lines::counts(out, "ckpt_bytes_total"@, f.node.ckpt_bytes_total as nat)
            &&& lines::counts(out, "ckpt_bytes_last"@, f.node.ckpt_bytes_last as nat)
            &&& lines::counts(out, "ckpt_padding_bytes"@, f.node.ckpt_padding_bytes as nat)
            &&& lines::counts(out, "manifest_bytes_total"@, f.node.manifest_bytes_total as nat)
            &&& lines::counts(out, "ckpt_interval_bytes"@, f.node.ckpt_interval_bytes as nat)
            &&& lines::counts(
                out,
                "ckpt_replay_bytes_per_s"@,
                f.node.ckpt_replay_bytes_per_s as nat,
            )
            &&& lines::counts(out, "ckpt_cap_bytes"@, f.node.ckpt_cap_bytes as nat)
            &&& lines::shows(
                out,
                "ckpt_io_mode"@,
                if f.node.ckpt_io_mode_buffered == 1 { "buffered"@ } else { "direct"@ },
            )
            &&& lines::counts(
                out,
                "ckpt_records_since_begin"@,
                f.node.ckpt_records_since_begin as nat,
            )
            &&& lines::counts(
                out,
                "write_amp_milli_log_checkpoint"@,
                f.node.write_amp_milli_log_checkpoint as nat,
            )
            &&& lines::counts(
                out,
                "write_amp_log_checkpoint_undefined"@,
                f.node.write_amp_log_checkpoint_undefined as nat,
            )
            &&& forall|label: Seq<char>, value: Seq<char>|
                (forall|s: Seq<char>|
                    lines::ended(s) ==> #[trigger] lines::shows(
                        sections::class_text(s, f.node.io_budget@),
                        label,
                        value,
                    )) ==> #[trigger] lines::shows(out, label, value)
        }),
{
    broadcast use {lines::group_rows, lemma_classes_keep, lemma_classes_end};

}

#[verifier::spinoff_prover]
broadcast proof fn lemma_recycle_gauge_keeps(
    t: Seq<char>,
    f: InfoFacts,
    layout: Layout,
    label: Seq<char>,
    value: Seq<char>,
)
    requires
        lines::ended(t),
        lines::shows(t, label, value),
    ensures
        #[trigger] lines::shows(sections::recycle_gauge_text(t, f, layout), label, value),
{
    broadcast use lines::group_rows;

}

broadcast proof fn lemma_recycle_gauge_ends(t: Seq<char>, f: InfoFacts, layout: Layout)
    requires
        lines::ended(t),
    ensures
        #[trigger] lines::ended(sections::recycle_gauge_text(t, f, layout)),
{
    broadcast use lines::group_rows;

}

/// The recycling rows show the segments and how they were reused.
#[verifier::spinoff_prover]
#[verifier::rlimit(60)]
pub proof fn law_recycle_rows(t: Seq<char>, f: InfoFacts, layout: Layout)
    requires
        lines::ended(t),
    ensures
        ({
            let out = sections::recycle_gauge_text(t, f, layout);
            &&& lines::counts(
                out,
                "accounted_host_write_bytes"@,
                f.node.accounted_host_write_bytes as nat,
            )
            &&& lines::counts(
                out,
                "write_amp_milli_accounted_host"@,
                f.node.write_amp_milli_accounted_host as nat,
            )
            &&& lines::counts(out, "segments_recycled"@, f.node.segments_recycled as nat)
            &&& lines::counts(out, "recycle_misses"@, f.node.recycle_misses as nat)
            &&& lines::counts(out, "recycle_fallbacks"@, f.node.recycle_fallbacks as nat)
            &&& lines::counts(out, "recycle_pool_bytes"@, f.node.recycle_pool_bytes as nat)
            &&& lines::counts(out, "recycle_pool_full"@, f.node.recycle_pool_full as nat)
            &&& layout == Layout::Scoped ==> lines::counts(
                out,
                "recycle_sentinels"@,
                f.node.recycle_sentinels as nat,
            )
            &&& lines::counts(out, "segment_rotations"@, f.node.segment_rotations as nat)
            &&& lines::counts(out, "segment_preallocs"@, f.node.segment_preallocs as nat)
            &&& lines::counts(
                out,
                "segment_inline_preallocs"@,
                f.node.segment_inline_preallocs as nat,
            )
            &&& lines::counts(
                out,
                "segment_prealloc_failures"@,
                f.node.segment_prealloc_failures as nat,
            )
            &&& lines::counts(out, "recycle_waits_started"@, f.node.recycle_waits_started as nat)
            &&& lines::counts(
                out,
                "recycle_waits_satisfied"@,
                f.node.recycle_waits_satisfied as nat,
            )
            &&& lines::counts(out, "recycle_waits_expired"@, f.node.recycle_waits_expired as nat)
            &&& lines::counts(
                out,
                "recycle_wait_active_bytes_max"@,
                f.node.recycle_wait_active_bytes_max as nat,
            )
            &&& lines::counts(
                out,
                "recover_segment_residue_stops"@,
                f.node.recover_segment_residue_stops as nat,
            )
            &&& lines::counts(
                out,
                "recover_recycled_residue_slacks"@,
                f.node.recover_recycled_residue_slacks as nat,
            )
            &&& layout == Layout::Scoped ==> lines::counts(
                out,
                "recover_stale_residue_slacks"@,
                f.node.recover_stale_residue_slacks as nat,
            )
        }),
{
    broadcast use lines::group_rows;

}

#[verifier::spinoff_prover]
broadcast proof fn lemma_recover_gauge_keeps(
    t: Seq<char>,
    f: InfoFacts,
    layout: Layout,
    label: Seq<char>,
    value: Seq<char>,
)
    requires
        lines::ended(t),
        lines::shows(t, label, value),
    ensures
        #[trigger] lines::shows(sections::recover_gauge_text(t, f, layout), label, value),
{
    broadcast use lines::group_rows;

}

broadcast proof fn lemma_recover_gauge_ends(t: Seq<char>, f: InfoFacts, layout: Layout)
    requires
        lines::ended(t),
    ensures
        #[trigger] lines::ended(sections::recover_gauge_text(t, f, layout)),
{
    broadcast use lines::group_rows;

}

/// The recovery rows show each phase with its bytes and its time in
/// microseconds.
#[verifier::spinoff_prover]
#[verifier::rlimit(60)]
pub proof fn law_recover_rows(t: Seq<char>, f: InfoFacts, layout: Layout)
    requires
        lines::ended(t),
    ensures
        ({
            let out = sections::recover_gauge_text(t, f, layout);
            &&& lines::counts(
                out,
                "recover_start_us"@,
                (f.node.recover_phases.start_ns / 1000) as nat,
            )
            &&& lines::counts(out, "recover_ckpt_bytes"@, f.node.recover_phases.ckpt_bytes as nat)
            &&& lines::counts(
                out,
                "recover_ckpt_us"@,
                (f.node.recover_phases.ckpt_ns / 1000) as nat,
            )
            &&& lines::counts(
                out,
                "recover_replay_bytes"@,
                f.node.recover_phases.replay_bytes as nat,
            )
            &&& lines::counts(
                out,
                "recover_replay_frames"@,
                f.node.recover_phases.replay_frames as nat,
            )
            &&& lines::counts(
                out,
                "recover_replay_us"@,
                (f.node.recover_phases.replay_ns / 1000) as nat,
            )
            &&& lines::counts(out, "recover_audit_bytes"@, f.node.recover_phases.audit_bytes as nat)
            &&& lines::counts(
                out,
                "recover_audit_valid_frames"@,
                f.node.recover_phases.audit_valid_frames as nat,
            )
            &&& lines::counts(
                out,
                "recover_audit_foreign_frames"@,
                f.node.recover_phases.audit_foreign_frames as nat,
            )
            &&& lines::counts(
                out,
                "recover_audit_us"@,
                (f.node.recover_phases.audit_ns / 1000) as nat,
            )
            &&& lines::counts(
                out,
                "recover_finish_us"@,
                (f.node.recover_phases.finish_ns / 1000) as nat,
            )
            &&& lines::counts(
                out,
                "recover_stale_files_removed"@,
                f.node.recover_stale_files_removed as nat,
            )
            &&& lines::counts(out, "recover_records"@, f.node.recover_records as nat)
            &&& layout == Layout::Scoped ==> lines::counts(
                out,
                "recover_replay_records"@,
                f.node.recover_replay_records as nat,
            )
            &&& lines::counts(
                out,
                "recover_total_us"@,
                (f.node.recover_phases.total_ns / 1000) as nat,
            )
        }),
{
    broadcast use lines::group_rows;

}

#[verifier::spinoff_prover]
broadcast proof fn lemma_ckpt_gauge_keeps(
    t: Seq<char>,
    f: InfoFacts,
    layout: Layout,
    label: Seq<char>,
    value: Seq<char>,
)
    requires
        lines::ended(t),
        lines::shows(t, label, value),
    ensures
        #[trigger] lines::shows(sections::ckpt_gauge_text(t, f, layout), label, value),
{
    broadcast use lines::group_rows;

}

broadcast proof fn lemma_ckpt_gauge_ends(t: Seq<char>, f: InfoFacts, layout: Layout)
    requires
        lines::ended(t),
    ensures
        #[trigger] lines::ended(sections::ckpt_gauge_text(t, f, layout)),
{
    broadcast use lines::group_rows;

}

/// The checkpoint rows show the checkpoints and the manifests.
#[verifier::spinoff_prover]
#[verifier::rlimit(60)]
pub proof fn law_checkpoint_rows(t: Seq<char>, f: InfoFacts, layout: Layout)
    requires
        lines::ended(t),
    ensures
        ({
            let out = sections::ckpt_gauge_text(t, f, layout);
            &&& lines::counts(out, "ckpts_completed"@, f.node.ckpts_completed as nat)
            &&& lines::counts(out, "ckpts_aborted"@, f.node.ckpts_aborted as nat)
            &&& layout == Layout::Scoped ==> lines::counts(
                out,
                "ckpt_bound_splits"@,
                f.node.ckpt_bound_splits as nat,
            )
            &&& lines::counts(out, "ckpt_last_unix_ms"@, f.node.ckpt_last_unix_ms as nat)
            &&& lines::counts(out, "ckpt_last_begin_lsn"@, f.node.ckpt_last_begin_lsn as nat)
            &&& lines::counts(out, "ckpt_buffer_bytes"@, f.node.ckpt_buffer_bytes as nat)
            &&& lines::counts(out, "ckpt_age_s"@, f.node.ckpt_age_s as nat)
            &&& lines::counts(out, "manifests_published"@, f.node.manifests_published as nat)
            &&& lines::counts(out, "manifests_aborted"@, f.node.manifests_aborted as nat)
            &&& lines::counts(out, "segments_truncated"@, f.node.segments_truncated as nat)
            &&& lines::counts(out, "log_segments_live"@, f.node.log_segments_live as nat)
        }),
{
    broadcast use lines::group_rows;

}

#[verifier::spinoff_prover]
broadcast proof fn lemma_index_stat_keeps(
    t: Seq<char>,
    f: InfoFacts,
    label: Seq<char>,
    value: Seq<char>,
)
    requires
        lines::ended(t),
        lines::shows(t, label, value),
    ensures
        #[trigger] lines::shows(sections::index_stat_text(t, f), label, value),
{
    broadcast use lines::group_rows;

}

broadcast proof fn lemma_index_stat_ends(t: Seq<char>, f: InfoFacts)
    requires
        lines::ended(t),
    ensures
        #[trigger] lines::ended(sections::index_stat_text(t, f)),
{
    broadcast use lines::group_rows;

}

/// The index rows show the indexes: maintenance, backfill and sidecars.
#[verifier::spinoff_prover]
#[verifier::rlimit(60)]
pub proof fn law_index_rows(t: Seq<char>, f: InfoFacts)
    requires
        lines::ended(t),
    ensures
        ({
            let out = sections::index_stat_text(t, f);
            &&& lines::counts(out, "idx_maint_inserts"@, f.store.idx.maint_inserts as nat)
            &&& lines::counts(out, "idx_maint_removes"@, f.store.idx.maint_removes as nat)
            &&& lines::counts(out, "idx_maint_prunes"@, f.store.idx.maint_prunes as nat)
            &&& lines::counts(out, "idx_skipped_sparse"@, f.store.idx.skipped_sparse as nat)
            &&& lines::counts(out, "idx_skipped_inexact"@, f.store.idx.skipped_inexact as nat)
            &&& lines::counts(out, "idx_skipped_nan"@, f.store.idx.skipped_nan as nat)
            &&& lines::counts(out, "idx_skipped_toolong"@, f.store.idx.skipped_toolong as nat)
            &&& lines::counts(out, "idx_degraded_trips"@, f.store.idx.degraded_trips as nat)
            &&& lines::counts(out, "idx_backfill_walking"@, f.store.backfill.walking as nat)
            &&& lines::counts(out, "idx_backfill_parked"@, f.store.backfill.parked as nat)
            &&& lines::counts(out, "idx_backfill_published"@, f.store.backfill.published as nat)
            &&& lines::counts(
                out,
                "idx_backfill_scanned"@,
                f.store.backfill.docs_scanned_total as nat,
            )
            &&& lines::counts(
                out,
                "idx_backfill_inserted"@,
                f.store.backfill.entries_inserted_total as nat,
            )
            &&& lines::counts(out, "idx_sidecar_loaded"@, f.store.sidecar.loaded as nat)
            &&& lines::counts(out, "idx_sidecar_rebuilt"@, f.store.sidecar.rebuilt as nat)
            &&& lines::counts(
                out,
                "idx_sidecar_entries_loaded"@,
                f.store.sidecar.entries_loaded as nat,
            )
            &&& lines::counts(out, "idx_sidecar_damaged"@, f.store.sidecar.damaged_sections as nat)
        }),
{
    broadcast use lines::group_rows;

}

#[verifier::spinoff_prover]
broadcast proof fn lemma_tiering_read_keeps(
    t: Seq<char>,
    f: InfoFacts,
    layout: Layout,
    label: Seq<char>,
    value: Seq<char>,
)
    requires
        lines::ended(t),
        lines::shows(t, label, value),
    ensures
        #[trigger] lines::shows(sections::tiering_read_text(t, f, layout), label, value),
{
    broadcast use lines::group_rows;

}

broadcast proof fn lemma_tiering_read_ends(t: Seq<char>, f: InfoFacts, layout: Layout)
    requires
        lines::ended(t),
    ensures
        #[trigger] lines::ended(sections::tiering_read_text(t, f, layout)),
{
    broadcast use lines::group_rows;

}

/// The tiered read rows show the cold path.
#[verifier::spinoff_prover]
#[verifier::rlimit(60)]
pub proof fn law_tiering_read_rows(t: Seq<char>, f: InfoFacts, layout: Layout)
    requires
        lines::ended(t),
    ensures
        ({
            let out = sections::tiering_read_text(t, f, layout);
            &&& f.store.tables == 0 ==> lines::counts(
                out,
                "tiering_ram_hit_p50_us"@,
                f.node.tiering_split@[0] as nat,
            )
            &&& f.store.tables == 0 ==> lines::counts(
                out,
                "tiering_ram_hit_p99_us"@,
                f.node.tiering_split@[1] as nat,
            )
            &&& f.store.tables == 0 ==> lines::counts(
                out,
                "tiering_ram_hit_p999_us"@,
                f.node.tiering_split@[2] as nat,
            )
            &&& lines::counts(out, "tiering_cold_p50_us"@, f.node.tiering_split@[3] as nat)
            &&& lines::counts(out, "tiering_cold_p99_us"@, f.node.tiering_split@[4] as nat)
            &&& lines::counts(out, "tiering_cold_p999_us"@, f.node.tiering_split@[5] as nat)
            &&& lines::counts(out, "cold_read_qd_p99"@, f.node.tiering_split@[6] as nat)
            &&& lines::counts(out, "coalesce_ratio_milli"@, f.node.tiering_split@[7] as nat)
            &&& lines::counts(out, "cold_reads_inflight"@, f.node.tiering_split@[8] as nat)
            &&& lines::counts(out, "cold_queue_depth"@, f.node.tiering_split@[9] as nat)
            &&& lines::counts(out, "cold_read_p99_us"@, f.node.tiering_split@[10] as nat)
            &&& lines::counts(out, "cold_reads_issued"@, f.node.tiering_split@[11] as nat)
            &&& lines::counts(out, "cold_reads_enqueued"@, f.node.tiering_split@[12] as nat)
            &&& lines::counts(out, "cold_pool_dry"@, f.node.tiering_split@[13] as nat)
            &&& lines::counts(out, "cold_queue_full"@, f.node.tiering_split@[14] as nat)
            &&& lines::counts(out, "tiering_tail_allocs"@, f.store.tiering.tail_allocs as nat)
            &&& lines::counts(out, "tiering_seal_holes"@, f.store.tiering.seal_holes as nat)
            &&& lines::counts(
                out,
                "tiering_seal_hole_bytes"@,
                f.store.tiering.seal_hole_bytes as nat,
            )
            &&& lines::counts(
                out,
                "tiering_region_commit_pages"@,
                f.store.tiering.region_commit_pages as nat,
            )
            &&& lines::counts(
                out,
                "tiering_region_decommit_pages"@,
                f.store.tiering.region_decommit_pages as nat,
            )
            &&& lines::counts(out, "tiering_cold_resolves"@, f.store.tiering.cold_resolves as nat)
            &&& layout == Layout::Scoped ==> lines::counts(
                out,
                "tiering_cold_read_errors"@,
                f.store.tiering.cold_read_errors as nat,
            )
            &&& layout == Layout::Scoped ==> lines::counts(
                out,
                "tiering_write_replans"@,
                f.store.tiering.write_replans as nat,
            )
            &&& layout == Layout::Scoped ==> lines::counts(
                out,
                "tiering_walk_behind"@,
                f.node.ckpt_walks_behind as nat,
            )
            &&& f.node.blind_overwrites_ceiling is Some ==> lines::counts(
                out,
                "blind_overwrites_ceiling"@,
                f.node.blind_overwrites_ceiling->0 as nat,
            )
        }),
{
    broadcast use lines::group_rows;

}

#[verifier::spinoff_prover]
broadcast proof fn lemma_tiering_flush_keeps(
    t: Seq<char>,
    f: InfoFacts,
    label: Seq<char>,
    value: Seq<char>,
)
    requires
        lines::ended(t),
        lines::shows(t, label, value),
    ensures
        #[trigger] lines::shows(sections::tiering_flush_text(t, f), label, value),
{
    broadcast use lines::group_rows;

}

broadcast proof fn lemma_tiering_flush_ends(t: Seq<char>, f: InfoFacts)
    requires
        lines::ended(t),
    ensures
        #[trigger] lines::ended(sections::tiering_flush_text(t, f)),
{
    broadcast use lines::group_rows;

}

/// The tiered flush rows show demotion and flush.
#[verifier::spinoff_prover]
#[verifier::rlimit(60)]
pub proof fn law_tiering_flush_rows(t: Seq<char>, f: InfoFacts)
    requires
        lines::ended(t),
    ensures
        ({
            let out = sections::tiering_flush_text(t, f);
            &&& lines::counts(
                out,
                "tiering_tail_alloc_stalls"@,
                f.store.tiering.tail_alloc_stalls as nat,
            )
            &&& lines::counts(out, "tiering_demote_slices"@, f.store.tiering.demote_slices as nat)
            &&& lines::counts(
                out,
                "tiering_demote_sealed_bytes"@,
                f.store.tiering.demote_sealed_bytes as nat,
            )
            &&& lines::counts(out, "tiering_flush_slices"@, f.store.tiering.flush_slices as nat)
            &&& lines::counts(
                out,
                "tiering_flush_confirmed_bytes"@,
                f.store.tiering.flush_confirmed_bytes as nat,
            )
            &&& lines::counts(out, "tiering_flush_rounds"@, f.node.tier_flush@[0] as nat)
            &&& lines::counts(out, "tiering_flush_write_retries"@, f.node.tier_flush@[1] as nat)
            &&& lines::counts(out, "tiering_flush_stale_completions"@, f.node.tier_flush@[2] as nat)
            &&& lines::counts(out, "tiering_flush_round_p50_us"@, f.node.tier_flush@[3] as nat)
            &&& lines::counts(out, "tiering_flush_round_p99_us"@, f.node.tier_flush@[4] as nat)
            &&& lines::counts(out, "tiering_flush_rounds_inflight"@, f.node.tier_flush@[5] as nat)
            &&& lines::counts(out, "tiering_files_sealed"@, f.node.tier_flush@[6] as nat)
            &&& lines::counts(out, "tiering_files_active"@, f.node.tier_flush@[7] as nat)
            &&& lines::counts(out, "tiering_flush_rounds_deferred"@, f.node.tier_flush@[8] as nat)
            &&& lines::counts(out, "tiering_compact_slices"@, f.store.tiering.compact_slices as nat)
        }),
{
    broadcast use lines::group_rows;

}

#[verifier::spinoff_prover]
broadcast proof fn lemma_tiering_promotion_keeps(
    t: Seq<char>,
    f: InfoFacts,
    label: Seq<char>,
    value: Seq<char>,
)
    requires
        lines::ended(t),
        lines::shows(t, label, value),
    ensures
        #[trigger] lines::shows(sections::tiering_promotion_text(t, f), label, value),
{
    broadcast use lines::group_rows;

}

broadcast proof fn lemma_tiering_promotion_ends(t: Seq<char>, f: InfoFacts)
    requires
        lines::ended(t),
    ensures
        #[trigger] lines::ended(sections::tiering_promotion_text(t, f)),
{
    broadcast use lines::group_rows;

}

/// The promotion rows show what was promoted, and what was not and why.
#[verifier::spinoff_prover]
#[verifier::rlimit(60)]
pub proof fn law_tiering_promotion_rows(t: Seq<char>, f: InfoFacts)
    requires
        lines::ended(t),
    ensures
        ({
            let out = sections::tiering_promotion_text(t, f);
            &&& lines::counts(out, "tiering_promotions"@, f.store.promotion.promotions as nat)
            &&& lines::counts(
                out,
                "tiering_promoted_bytes"@,
                f.store.promotion.promoted_bytes as nat,
            )
            &&& lines::counts(
                out,
                "tiering_promote_first_touch"@,
                f.store.promotion.first_touch as nat,
            )
            &&& lines::counts(
                out,
                "tiering_promote_skip_window"@,
                f.store.promotion.skip_window as nat,
            )
            &&& lines::counts(
                out,
                "tiering_promote_skip_pinned"@,
                f.store.promotion.skip_pinned as nat,
            )
            &&& lines::counts(out, "tiering_promote_skip_disk"@, f.store.promotion.skip_disk as nat)
            &&& lines::counts(
                out,
                "tiering_promote_skip_stale"@,
                f.store.promotion.skip_stale as nat,
            )
            &&& lines::counts(out, "tiering_promote_skip_cap"@, f.store.promotion.skip_cap as nat)
        }),
{
    broadcast use lines::group_rows;

}

#[verifier::spinoff_prover]
#[verifier::rlimit(60)]
broadcast proof fn lemma_tiering_shadow_keeps(
    t: Seq<char>,
    f: InfoFacts,
    layout: Layout,
    label: Seq<char>,
    value: Seq<char>,
)
    requires
        lines::ended(t),
        lines::shows(t, label, value),
    ensures
        #[trigger] lines::shows(sections::tiering_shadow_text(t, f, layout), label, value),
{
    broadcast use lines::group_rows;

}

broadcast proof fn lemma_tiering_shadow_ends(t: Seq<char>, f: InfoFacts, layout: Layout)
    requires
        lines::ended(t),
    ensures
        #[trigger] lines::ended(sections::tiering_shadow_text(t, f, layout)),
{
    broadcast use lines::group_rows;

}

/// The shadow rows show the shadowed overwrites.
#[verifier::spinoff_prover]
#[verifier::rlimit(60)]
pub proof fn law_tiering_shadow_rows(t: Seq<char>, f: InfoFacts, layout: Layout)
    requires
        lines::ended(t),
    ensures
        ({
            let out = sections::tiering_shadow_text(t, f, layout);
            &&& lines::counts(out, "tiering_shadow_enabled"@, f.store.shadow.enabled as nat)
            &&& layout == Layout::Scoped ==> lines::counts(
                out,
                "tiering_shadow_reconcile_paused"@,
                f.store.shadow.reconcile_paused as nat,
            )
            &&& lines::counts(out, "tiering_shadow_created"@, f.store.shadow.created as nat)
            &&& lines::counts(
                out,
                "tiering_shadow_resolved_same_key"@,
                f.store.shadow.resolved_same_key as nat,
            )
            &&& lines::counts(
                out,
                "tiering_shadow_resolved_collision"@,
                f.store.shadow.resolved_collision as nat,
            )
            &&& lines::counts(out, "tiering_shadow_verified"@, f.store.shadow.verified as nat)
            &&& lines::counts(
                out,
                "tiering_shadow_settled_without_read"@,
                f.store.shadow.settled_without_read as nat,
            )
            &&& lines::counts(
                out,
                "tiering_shadow_verified_pending"@,
                f.store.shadow.verified_pending as nat,
            )
            &&& lines::counts(out, "tiering_shadow_stale"@, f.store.shadow.stale as nat)
            &&& lines::counts(out, "tiering_shadow_read_errors"@, f.store.shadow.read_errors as nat)
            &&& lines::counts(
                out,
                "tiering_shadow_reads_issued"@,
                f.store.shadow.reads_issued as nat,
            )
            &&& lines::counts(
                out,
                "tiering_shadow_reads_foreground"@,
                f.store.shadow.reads_foreground as nat,
            )
            &&& lines::counts(out, "tiering_shadow_pending"@, f.store.shadow.pending as nat)
            &&& lines::counts(
                out,
                "tiering_shadow_pending_peak"@,
                f.store.shadow.pending_peak as nat,
            )
            &&& lines::counts(
                out,
                "tiering_shadow_pinned_bytes"@,
                f.store.shadow.pinned_bytes as nat,
            )
            &&& lines::counts(
                out,
                "tiering_shadow_pinned_bytes_peak"@,
                f.store.shadow.pinned_bytes_peak as nat,
            )
            &&& lines::counts(
                out,
                "tiering_shadow_pin_cap_bytes"@,
                f.store.shadow.pin_cap_bytes as nat,
            )
            &&& lines::counts(
                out,
                "tiering_shadow_fallback_off"@,
                f.store.shadow.fallback_off as nat,
            )
            &&& lines::counts(
                out,
                "tiering_shadow_fallback_fence"@,
                f.store.shadow.fallback_fence as nat,
            )
            &&& lines::counts(
                out,
                "tiering_shadow_fallback_multi"@,
                f.store.shadow.fallback_multi as nat,
            )
            &&& lines::counts(
                out,
                "tiering_shadow_fallback_ticketed"@,
                f.store.shadow.fallback_ticketed as nat,
            )
            &&& lines::counts(
                out,
                "tiering_shadow_fallback_tickets"@,
                f.store.shadow.fallback_tickets as nat,
            )
            &&& lines::counts(
                out,
                "tiering_shadow_fallback_pin"@,
                f.store.shadow.fallback_pin as nat,
            )
            &&& lines::counts(
                out,
                "tiering_shadow_fallback_origin"@,
                f.store.shadow.fallback_origin as nat,
            )
            &&& lines::counts(
                out,
                "tiering_shadow_fallback_staging"@,
                f.node.shadow_fallback_staging as nat,
            )
            &&& lines::counts(
                out,
                "tiering_shadow_exact_miss_inserts"@,
                f.store.shadow.exact_miss_inserts as nat,
            )
            &&& lines::counts(
                out,
                "tiering_shadow_compaction_deferred"@,
                f.store.shadow.compaction_deferred as nat,
            )
            &&& lines::counts(
                out,
                "tiering_shadow_promote_skip"@,
                f.store.shadow.promote_skip as nat,
            )
            &&& lines::counts(
                out,
                "tiering_shadow_scan_twins_emitted"@,
                f.store.shadow.scan_twins_emitted as nat,
            )
            &&& lines::counts(
                out,
                "tiering_shadow_forced_by_delete"@,
                f.store.shadow.forced_by_delete as nat,
            )
            &&& layout == Layout::Scoped ==> lines::counts(
                out,
                "tiering_shadow_delete_run_refused"@,
                f.store.shadow.delete_run_refused as nat,
            )
            &&& lines::counts(out, "tiering_shadow_retargeted"@, f.store.shadow.retargeted as nat)
            &&& lines::counts(
                out,
                "tiering_shadow_dropped_by_removal"@,
                f.store.shadow.dropped_by_removal as nat,
            )
            &&& lines::counts(
                out,
                "tiering_shadow_deferred_walk"@,
                f.store.shadow.deferred_walk as nat,
            )
            &&& lines::counts(
                out,
                "tiering_shadow_deferred_origin"@,
                f.store.shadow.deferred_origin as nat,
            )
            &&& lines::counts(
                out,
                "tiering_shadow_dbsize_drains"@,
                f.store.shadow.dbsize_drains as nat,
            )
            &&& lines::counts(
                out,
                "tiering_shadow_dbsize_reads"@,
                f.store.shadow.dbsize_reads as nat,
            )
            &&& layout == Layout::Scoped ==> lines::counts(
                out,
                "tiering_shadow_dbsize_fence"@,
                f.store.shadow.dbsize_fence as nat,
            )
            &&& lines::counts(
                out,
                "tiering_shadow_rebuild_reads"@,
                f.store.shadow.rebuild_reads as nat,
            )
            &&& lines::counts(
                out,
                "tiering_shadow_rebuild_settled_same_key"@,
                f.store.shadow.rebuild_settled_same_key as nat,
            )
            &&& lines::counts(
                out,
                "tiering_shadow_rebuild_settled_distinct"@,
                f.store.shadow.rebuild_settled_distinct as nat,
            )
            &&& lines::counts(
                out,
                "tiering_shadow_rebuild_over_cap"@,
                f.store.shadow.rebuild_over_cap as nat,
            )
            &&& lines::counts(out, "tiering_shadow_bytes"@, f.store.shadow.bytes as nat)
            &&& lines::counts(
                out,
                "tiering_promote_filter_bytes"@,
                (f.store.tables * f.store.filter_bytes) as nat,
            )
        }),
{
    broadcast use lines::group_rows;

}

#[verifier::spinoff_prover]
broadcast proof fn lemma_tiering_write_keeps(
    t: Seq<char>,
    f: InfoFacts,
    label: Seq<char>,
    value: Seq<char>,
)
    requires
        lines::ended(t),
        lines::shows(t, label, value),
    ensures
        #[trigger] lines::shows(sections::tiering_write_text(t, f), label, value),
{
    broadcast use lines::group_rows;

}

broadcast proof fn lemma_tiering_write_ends(t: Seq<char>, f: InfoFacts)
    requires
        lines::ended(t),
    ensures
        #[trigger] lines::ended(sections::tiering_write_text(t, f)),
{
    broadcast use lines::group_rows;

}

/// The tiered write rows show the bytes of the tier.
#[verifier::spinoff_prover]
#[verifier::rlimit(60)]
pub proof fn law_tiering_write_rows(t: Seq<char>, f: InfoFacts)
    requires
        lines::ended(t),
    ensures
        ({
            let out = sections::tiering_write_text(t, f);
            &&& lines::counts(out, "tiering_reserved_bytes"@, f.store.usage.reserved_bytes as nat)
            &&& lines::counts(out, "tiering_committed_bytes"@, f.store.usage.committed_bytes as nat)
            &&& lines::counts(out, "tiering_allocated_bytes"@, f.store.usage.allocated_bytes as nat)
            &&& lines::counts(out, "tiering_dead_bytes"@, f.store.usage.dead_bytes as nat)
            &&& lines::counts(out, "tiering_live_bytes"@, f.store.usage.live_bytes as nat)
            &&& lines::counts(out, "tiering_index_bytes"@, f.store.usage.index_bytes as nat)
            &&& lines::counts(out, "tiering_user_bytes"@, f.store.write.user_bytes as nat)
            &&& lines::counts(out, "tiering_wal_bytes"@, f.store.write.wal_bytes as nat)
            &&& lines::counts(out, "tiering_flush_bytes"@, f.store.write.flush_bytes as nat)
            &&& lines::counts(
                out,
                "tiering_compaction_bytes"@,
                f.store.write.compaction_bytes as nat,
            )
            &&& lines::counts(out, "tiering_written_bytes"@, f.store.write.written_bytes as nat)
            &&& lines::counts(out, "tiering_write_amp_milli_max"@, f.store.amp.milli_max as nat)
            &&& lines::counts(
                out,
                "tiering_write_amp_undefined_ns"@,
                f.store.amp.unbounded_namespaces as nat,
            )
        }),
{
    broadcast use lines::group_rows;

}

#[verifier::spinoff_prover]
broadcast proof fn lemma_tiering_extent_keeps(
    t: Seq<char>,
    f: InfoFacts,
    layout: Layout,
    label: Seq<char>,
    value: Seq<char>,
)
    requires
        lines::ended(t),
        lines::shows(t, label, value),
    ensures
        #[trigger] lines::shows(sections::tiering_extent_text(t, f, layout), label, value),
{
    broadcast use lines::group_rows;

}

broadcast proof fn lemma_tiering_extent_ends(t: Seq<char>, f: InfoFacts, layout: Layout)
    requires
        lines::ended(t),
    ensures
        #[trigger] lines::ended(sections::tiering_extent_text(t, f, layout)),
{
    broadcast use lines::group_rows;

}

/// The extent rows show the blobs and the disk.
#[verifier::spinoff_prover]
#[verifier::rlimit(60)]
pub proof fn law_tiering_extent_rows(t: Seq<char>, f: InfoFacts, layout: Layout)
    requires
        lines::ended(t),
    ensures
        ({
            let out = sections::tiering_extent_text(t, f, layout);
            &&& lines::counts(out, "tiering_blob_user_bytes"@, f.store.write.blob_user_bytes as nat)
            &&& lines::counts(out, "tiering_blob_bytes"@, f.store.write.blob_bytes as nat)
            &&& lines::counts(
                out,
                "tiering_blob_write_amp_milli_max"@,
                f.store.blob_amp.milli_max as nat,
            )
            &&& lines::counts(
                out,
                "tiering_blob_write_amp_undefined_ns"@,
                f.store.blob_amp.unbounded_namespaces as nat,
            )
            &&& lines::counts(out, "tiering_blob_extents_live"@, f.store.extents.live as nat)
            &&& lines::counts(
                out,
                "tiering_blob_extent_bytes_live"@,
                f.store.extents.live_bytes as nat,
            )
            &&& lines::counts(out, "tiering_blob_extents_created"@, f.store.extents.created as nat)
            &&& lines::counts(
                out,
                "tiering_blob_extents_reclaimed"@,
                f.store.extents.reclaimed as nat,
            )
            &&& lines::counts(out, "tiering_blob_reclaimable"@, f.store.extents.reclaimable as nat)
            &&& lines::counts(
                out,
                "tiering_blob_reclaim_deferred"@,
                f.store.extents.reclaim_deferred as nat,
            )
            &&& lines::counts(
                out,
                "tiering_blob_reclaim_slices"@,
                f.store.extents.reclaim_slices as nat,
            )
            &&& layout == Layout::Scoped ==> lines::counts(
                out,
                "tiering_blob_quarantined"@,
                f.store.extents.quarantined as nat,
            )
            &&& layout == Layout::Scoped ==> lines::counts(
                out,
                "tiering_blob_quarantine_revived"@,
                f.store.extents.quarantine_revived as nat,
            )
            &&& lines::counts(out, "tiering_blob_rmw_ops"@, f.store.extents.rmw_ops as nat)
            &&& lines::counts(out, "tiering_blob_disk_bytes"@, f.store.extents.disk_bytes as nat)
            &&& lines::counts(out, "tiering_diskfull_ns"@, f.store.disk.full_namespaces as nat)
            &&& lines::counts(out, "tiering_diskfull_refusals"@, f.store.disk.refusals as nat)
            &&& lines::counts(
                out,
                "tiering_compact_idle_pressure"@,
                f.store.disk.compact_idle_pressure as nat,
            )
            &&& lines::counts(out, "tiering_disk_used_bytes"@, f.store.disk.used_bytes as nat)
        }),
{
    broadcast use lines::group_rows;

}

#[verifier::spinoff_prover]
broadcast proof fn lemma_loading_keeps(
    t: Seq<char>,
    f: InfoFacts,
    label: Seq<char>,
    value: Seq<char>,
)
    requires
        lines::ended(t),
        lines::shows(t, label, value),
    ensures
        #[trigger] lines::shows(sections::loading_text(t, f), label, value),
{
    broadcast use lines::group_rows;

}

broadcast proof fn lemma_loading_ends(t: Seq<char>, f: InfoFacts)
    requires
        lines::ended(t),
    ensures
        #[trigger] lines::ended(sections::loading_text(t, f)),
{
    broadcast use lines::group_rows;

}

/// The loading rows show how far recovery is.
#[verifier::spinoff_prover]
#[verifier::rlimit(60)]
pub proof fn law_loading_rows(t: Seq<char>, f: InfoFacts)
    requires
        lines::ended(t),
    ensures
        ({
            let out = sections::loading_text(t, f);
            &&& lines::counts(
                out,
                "loading_start_time"@,
                (f.node.loading_start_unix_ms / 1000) as nat,
            )
            &&& lines::counts(out, "loading_total_bytes"@, f.node.loading_total_bytes as nat)
            &&& lines::counts(out, "loading_loaded_bytes"@, f.node.loading_loaded_bytes as nat)
            &&& lines::shows(out, "loading_loaded_perc"@, f.host.loaded_perc@)
            &&& lines::counts(out, "loading_eta_seconds"@, f.host.eta_seconds as nat)
            &&& lines::counts(out, "loading_cells_ready"@, f.node.loading_cells_ready as nat)
            &&& lines::counts(out, "loading_cells"@, f.node.cells as nat)
        }),
{
    broadcast use lines::group_rows;

}

broadcast group group_parts {
    lemma_classes_keep,
    lemma_classes_end,
    lemma_dbs_keep,
    lemma_dbs_end,
    lemma_namespaces_keep,
    lemma_namespaces_end,
    lemma_log_gauge_keeps,
    lemma_log_gauge_ends,
    lemma_fsync_gauge_keeps,
    lemma_fsync_gauge_ends,
    lemma_barrier_gauge_keeps,
    lemma_barrier_gauge_ends,
    lemma_io_budget_keeps,
    lemma_io_budget_ends,
    lemma_recycle_gauge_keeps,
    lemma_recycle_gauge_ends,
    lemma_recover_gauge_keeps,
    lemma_recover_gauge_ends,
    lemma_ckpt_gauge_keeps,
    lemma_ckpt_gauge_ends,
    lemma_index_stat_keeps,
    lemma_index_stat_ends,
    lemma_tiering_read_keeps,
    lemma_tiering_read_ends,
    lemma_tiering_flush_keeps,
    lemma_tiering_flush_ends,
    lemma_tiering_promotion_keeps,
    lemma_tiering_promotion_ends,
    lemma_tiering_shadow_keeps,
    lemma_tiering_shadow_ends,
    lemma_tiering_write_keeps,
    lemma_tiering_write_ends,
    lemma_tiering_extent_keeps,
    lemma_tiering_extent_ends,
    lemma_loading_keeps,
    lemma_loading_ends,
}

/// INFO tiering has the rows of all its parts.
#[verifier::spinoff_prover]
#[verifier::rlimit(100)]
pub proof fn law_tiering_section(t: Seq<char>, f: InfoFacts, layout: Layout)
    requires
        lines::ended(t),
    ensures
        ({
            let out = sections::tiering_body(t, f, layout);
            &&& lines::counts(out, "tiering_tables"@, f.store.tables as nat)
            &&& forall|label: Seq<char>, value: Seq<char>|
                (forall|s: Seq<char>|
                    lines::ended(s) ==> #[trigger] lines::shows(
                        sections::tiering_read_text(s, f, layout),
                        label,
                        value,
                    )) ==> #[trigger] lines::shows(out, label, value)
            &&& forall|label: Seq<char>, value: Seq<char>|
                (forall|s: Seq<char>|
                    lines::ended(s) ==> #[trigger] lines::shows(
                        sections::tiering_flush_text(s, f),
                        label,
                        value,
                    )) ==> #[trigger] lines::shows(out, label, value)
            &&& forall|label: Seq<char>, value: Seq<char>|
                (forall|s: Seq<char>|
                    lines::ended(s) ==> #[trigger] lines::shows(
                        sections::tiering_promotion_text(s, f),
                        label,
                        value,
                    )) ==> #[trigger] lines::shows(out, label, value)
            &&& forall|label: Seq<char>, value: Seq<char>|
                (forall|s: Seq<char>|
                    lines::ended(s) ==> #[trigger] lines::shows(
                        sections::tiering_shadow_text(s, f, layout),
                        label,
                        value,
                    )) ==> #[trigger] lines::shows(out, label, value)
            &&& forall|label: Seq<char>, value: Seq<char>|
                (forall|s: Seq<char>|
                    lines::ended(s) ==> #[trigger] lines::shows(
                        sections::tiering_write_text(s, f),
                        label,
                        value,
                    )) ==> #[trigger] lines::shows(out, label, value)
            &&& forall|label: Seq<char>, value: Seq<char>|
                (forall|s: Seq<char>|
                    lines::ended(s) ==> #[trigger] lines::shows(
                        sections::tiering_extent_text(s, f, layout),
                        label,
                        value,
                    )) ==> #[trigger] lines::shows(out, label, value)
            &&& forall|label: Seq<char>, value: Seq<char>|
                (forall|s: Seq<char>|
                    lines::ended(s) ==> #[trigger] lines::shows(
                        sections::tiering_namespace_text(s, f.store.namespaces@),
                        label,
                        value,
                    )) ==> #[trigger] lines::shows(out, label, value)
        }),
{
    broadcast use {lines::group_rows, group_parts};

    reveal(sections::tiering_body);
}

/// INFO server shows the server: its process, its clock and its cell.
#[verifier::spinoff_prover]
#[verifier::rlimit(60)]
pub proof fn law_server_section(t: Seq<char>, f: InfoFacts, layout: Layout)
    requires
        lines::ended(t),
    ensures
        ({
            let out = sections::server_body(t, f, layout);
            &&& lines::has_line(out, "# Server"@)
            &&& lines::has_line(out, "infinitydb_version:0.1.0-alpha.0"@)
            &&& lines::has_line(out, "redis_version:7.4.0-compat"@)
            &&& lines::has_line(out, "redis_git_sha1:00000000"@)
            &&& lines::has_line(out, "redis_git_dirty:0"@)
            &&& lines::has_line(out, "redis_mode:standalone"@)
            &&& lines::shows(out, "os"@, f.host.os@)
            &&& lines::has_line(out, "arch_bits:64"@)
            &&& lines::counts(out, "process_id"@, f.node.process_id as nat)
            &&& lines::shows(out, "run_id"@, sections::run_text(f.node, layout))
            &&& layout == Layout::Plain ==> lines::counts(out, "tcp_port"@, f.node.tcp_port as nat)
            &&& lines::counts(out, "server_time_usec"@, (f.host.wall_ms * 1000) as nat)
            &&& lines::counts(out, "uptime_in_seconds"@, sections::uptime_of(f.host) as nat)
            &&& lines::counts(out, "uptime_in_days"@, (sections::uptime_of(f.host) / 86_400) as nat)
            &&& lines::has_line(out, "config_file:"@)
            &&& lines::counts(out, "cell"@, f.node.cell as nat)
            &&& lines::counts(out, "cells"@, f.node.cells as nat)
        }),
{
    broadcast use {lines::group_rows, group_parts};

    reveal(sections::server_body);
}

/// INFO clients shows the connections and the limit on them.
#[verifier::spinoff_prover]
#[verifier::rlimit(60)]
pub proof fn law_clients_section(
    t: Seq<char>,
    f: InfoFacts,
    layout: Layout,
    rows: Seq<config::ConfigRow>,
)
    requires
        lines::ended(t),
    ensures
        ({
            let out = sections::clients_body(t, f, layout, rows);
            &&& lines::has_line(out, "# Clients"@)
            &&& lines::counts(out, "connected_clients"@, f.node.connections as nat)
            &&& lines::has_line(out, "cluster_connections:0"@)
            &&& lines::shows(
                out,
                "maxclients"@,
                sections::setting_of(rows, "maxclients"@, "10000"@),
            )
            &&& lines::has_line(out, "blocked_clients:0"@)
            &&& lines::has_line(out, "tracking_clients:0"@)
            &&& layout == Layout::Plain ==> lines::counts(
                out,
                "total_connections_received"@,
                f.node.total_connections as nat,
            )
        }),
{
    broadcast use {lines::group_rows, group_parts};

    reveal(sections::clients_body);
}

/// INFO memory shows the memory in use, by kind, and the memory settings.
#[verifier::spinoff_prover]
#[verifier::rlimit(60)]
pub proof fn law_memory_section(
    t: Seq<char>,
    f: InfoFacts,
    layout: Layout,
    rows: Seq<config::ConfigRow>,
)
    requires
        lines::ended(t),
    ensures
        ({
            let out = sections::memory_body(t, f, layout, rows);
            &&& lines::has_line(out, "# Memory"@)
            &&& lines::counts(out, "used_memory"@, f.memory.gauges.used_bytes as nat)
            &&& lines::shows(
                out,
                "used_memory_human"@,
                lines::human(f.memory.gauges.used_bytes as nat),
            )
            &&& lines::counts(out, "used_memory_rss"@, f.host.rss as nat)
            &&& layout == Layout::Scoped ==> lines::counts(
                out,
                f.names.process_rss@,
                f.host.rss as nat,
            )
            &&& lines::shows(out, "memory_scope"@, sections::scope_label(f.memory.node_scope))
            &&& lines::shows(out, "maxmemory"@, sections::setting_of(rows, "maxmemory"@, "0"@))
            &&& lines::shows(
                out,
                "maxmemory_policy"@,
                sections::setting_of(rows, "maxmemory-policy"@, "noeviction"@),
            )
            &&& layout == Layout::Scoped ==> lines::counts(
                out,
                "used_memory_pool"@,
                f.memory.pool_used_bytes as nat,
            )
            &&& lines::shows(out, "mem_fragmentation_ratio"@, f.host.fragmentation@)
            &&& lines::has_line(out, "mem_allocator:inf-arena"@)
            &&& layout == Layout::Plain ==> lines::counts(
                out,
                "doc_tape_bytes"@,
                f.memory.gauges.doc_tape_bytes as nat,
            )
            &&& layout == Layout::Scoped ==> lines::counts(
                out,
                "used_memory_doc_tape"@,
                f.memory.gauges.doc_tape_bytes as nat,
            )
            &&& layout == Layout::Plain ==> lines::counts(
                out,
                "doc_arena_bytes"@,
                f.memory.gauges.doc_arena_bytes as nat,
            )
            &&& layout == Layout::Scoped ==> lines::counts(
                out,
                "used_memory_doc_arena"@,
                f.memory.gauges.doc_arena_bytes as nat,
            )
            &&& layout == Layout::Plain ==> lines::counts(
                out,
                "doc_resident_bytes"@,
                f.memory.gauges.doc_resident_bytes as nat,
            )
            &&& layout == Layout::Scoped ==> lines::counts(
                out,
                "used_memory_doc_resident"@,
                f.memory.gauges.doc_resident_bytes as nat,
            )
            &&& layout == Layout::Plain ==> lines::counts(
                out,
                "doc_intern_bytes"@,
                f.memory.gauges.doc_intern_bytes as nat,
            )
            &&& layout == Layout::Scoped ==> lines::counts(
                out,
                "used_memory_doc_intern"@,
                f.memory.gauges.doc_intern_bytes as nat,
            )
            &&& layout == Layout::Plain ==> lines::counts(
                out,
                "doc_slack_bytes"@,
                f.memory.gauges.doc_slack_bytes as nat,
            )
            &&& layout == Layout::Scoped ==> lines::counts(
                out,
                "used_memory_doc_slack"@,
                f.memory.gauges.doc_slack_bytes as nat,
            )
            &&& layout == Layout::Plain ==> lines::counts(
                out,
                "doc_scratch_bytes"@,
                f.memory.gauges.doc_scratch_bytes as nat,
            )
            &&& layout == Layout::Scoped ==> lines::counts(
                out,
                "used_memory_doc_scratch"@,
                f.memory.gauges.doc_scratch_bytes as nat,
            )
            &&& layout == Layout::Plain ==> lines::counts(
                out,
                "doc_path_cache_bytes"@,
                f.memory.gauges.doc_path_cache_bytes as nat,
            )
            &&& layout == Layout::Scoped ==> lines::counts(
                out,
                "used_memory_doc_path_cache"@,
                f.memory.gauges.doc_path_cache_bytes as nat,
            )
            &&& lines::counts(out, "docs_live"@, f.memory.gauges.docs_live as nat)
            &&& layout == Layout::Plain ==> lines::counts(
                out,
                "idx_tree_bytes"@,
                f.memory.gauges.idx_tree_bytes as nat,
            )
            &&& layout == Layout::Scoped ==> lines::counts(
                out,
                "used_memory_idx_tree"@,
                f.memory.gauges.idx_tree_bytes as nat,
            )
            &&& layout == Layout::Plain ==> lines::counts(
                out,
                "idx_slack_bytes"@,
                f.memory.gauges.idx_slack_bytes as nat,
            )
            &&& layout == Layout::Scoped ==> lines::counts(
                out,
                "used_memory_idx_slack"@,
                f.memory.gauges.idx_slack_bytes as nat,
            )
        }),
{
    broadcast use {lines::group_rows, group_parts};

    reveal(sections::memory_body);
}

/// INFO persistence shows whether it loads, and how far, and the last save.
#[verifier::spinoff_prover]
#[verifier::rlimit(100)]
pub proof fn law_persistence_section(t: Seq<char>, f: InfoFacts, layout: Layout)
    requires
        lines::ended(t),
    ensures
        ({
            let out = sections::persistence_body(t, f, layout);
            &&& lines::counts(
                out,
                "loading"@,
                (if f.node.loading != 0 { 1int } else { 0int }) as nat,
            )
            &&& lines::counts(out, "rdb_bgsave_in_progress"@, f.node.ckpt_in_progress as nat)
            &&& lines::counts(out, "rdb_last_save_time"@, (f.node.rdb_last_save_ms / 1000) as nat)
            &&& layout == Layout::Scoped ==> lines::counts(
                out,
                "ns_drop_tombstones"@,
                f.node.ns_drop_tombstones as nat,
            )
            &&& f.node.loading != 0 ==> forall|label: Seq<char>, value: Seq<char>|
                (forall|s: Seq<char>|
                    lines::ended(s) ==> #[trigger] lines::shows(
                        sections::loading_text(s, f),
                        label,
                        value,
                    )) ==> #[trigger] lines::shows(out, label, value)
        }),
{
    broadcast use {lines::group_rows, group_parts};

    reveal(sections::persistence_body);
}

/// INFO persistence has the rows of the log, its syncs and its barriers.
#[verifier::spinoff_prover]
#[verifier::rlimit(100)]
pub proof fn law_persistence_has_the_log(t: Seq<char>, f: InfoFacts, layout: Layout)
    requires
        lines::ended(t),
    ensures
        ({
            let out = sections::persistence_body(t, f, layout);
            &&& forall|label: Seq<char>, value: Seq<char>|
                (forall|s: Seq<char>|
                    lines::ended(s) ==> #[trigger] lines::shows(
                        sections::log_gauge_text(s, f),
                        label,
                        value,
                    )) ==> #[trigger] lines::shows(out, label, value)
            &&& forall|label: Seq<char>, value: Seq<char>|
                (forall|s: Seq<char>|
                    lines::ended(s) ==> #[trigger] lines::shows(
                        sections::fsync_gauge_text(s, f),
                        label,
                        value,
                    )) ==> #[trigger] lines::shows(out, label, value)
            &&& forall|label: Seq<char>, value: Seq<char>|
                (forall|s: Seq<char>|
                    lines::ended(s) ==> #[trigger] lines::shows(
                        sections::barrier_gauge_text(s, f),
                        label,
                        value,
                    )) ==> #[trigger] lines::shows(out, label, value)
        }),
{
    broadcast use {lines::group_rows, group_parts};

    reveal(sections::persistence_body);
}

/// INFO persistence has the rows of the device budget and of recycling.
#[verifier::spinoff_prover]
#[verifier::rlimit(100)]
pub proof fn law_persistence_has_the_budget(t: Seq<char>, f: InfoFacts, layout: Layout)
    requires
        lines::ended(t),
    ensures
        ({
            let out = sections::persistence_body(t, f, layout);
            &&& forall|label: Seq<char>, value: Seq<char>|
                (forall|s: Seq<char>|
                    lines::ended(s) ==> #[trigger] lines::shows(
                        sections::io_budget_text(s, f),
                        label,
                        value,
                    )) ==> #[trigger] lines::shows(out, label, value)
            &&& forall|label: Seq<char>, value: Seq<char>|
                (forall|s: Seq<char>|
                    lines::ended(s) ==> #[trigger] lines::shows(
                        sections::recycle_gauge_text(s, f, layout),
                        label,
                        value,
                    )) ==> #[trigger] lines::shows(out, label, value)
        }),
{
    broadcast use {lines::group_rows, group_parts};

    reveal(sections::persistence_body);
}

/// INFO persistence has the rows of the recovery and of the checkpoints.
#[verifier::spinoff_prover]
#[verifier::rlimit(100)]
pub proof fn law_persistence_has_the_checkpoints(t: Seq<char>, f: InfoFacts, layout: Layout)
    requires
        lines::ended(t),
    ensures
        ({
            let out = sections::persistence_body(t, f, layout);
            &&& forall|label: Seq<char>, value: Seq<char>|
                (forall|s: Seq<char>|
                    lines::ended(s) ==> #[trigger] lines::shows(
                        sections::recover_gauge_text(s, f, layout),
                        label,
                        value,
                    )) ==> #[trigger] lines::shows(out, label, value)
            &&& forall|label: Seq<char>, value: Seq<char>|
                (forall|s: Seq<char>|
                    lines::ended(s) ==> #[trigger] lines::shows(
                        sections::ckpt_gauge_text(s, f, layout),
                        label,
                        value,
                    )) ==> #[trigger] lines::shows(out, label, value)
        }),
{
    broadcast use {lines::group_rows, group_parts};

    reveal(sections::persistence_body);
}

/// INFO stats shows the counters: connections, commands, expiry, eviction and
/// hits.
#[verifier::spinoff_prover]
#[verifier::rlimit(60)]
pub proof fn law_stats_section(t: Seq<char>, f: InfoFacts, layout: Layout)
    requires
        lines::ended(t),
    ensures
        ({
            let out = sections::stats_body(t, f, layout);
            &&& lines::counts(out, "total_connections_received"@, f.node.total_connections as nat)
            &&& lines::counts(out, "total_commands_processed"@, f.node.raw_counters@[4] as nat)
            &&& layout == Layout::Scoped ==> lines::counts(
                out,
                "rejected_connections"@,
                f.node.rejected_connections as nat,
            )
            &&& layout == Layout::Scoped ==> lines::counts(
                out,
                "accept_errors"@,
                f.node.accept_errors as nat,
            )
            &&& lines::counts(
                out,
                "expired_keys"@,
                (f.store.stats.expired_lazy + f.store.stats.expired_active) as nat,
            )
            &&& lines::counts(out, "expired_active"@, f.store.stats.expired_active as nat)
            &&& lines::counts(out, "expired_lazy"@, f.store.stats.expired_lazy as nat)
            &&& layout == Layout::Scoped ==> lines::counts(
                out,
                "expiry_debt_ms"@,
                f.store.expiry_debt_ms as nat,
            )
            &&& lines::counts(out, "evicted_keys"@, f.store.stats.evicted_keys as nat)
            &&& lines::counts(out, "keyspace_hits"@, f.store.stats.keyspace_hits as nat)
            &&& lines::counts(out, "keyspace_misses"@, f.store.stats.keyspace_misses as nat)
            &&& lines::counts(out, "index_grows"@, f.store.stats.index_grows as nat)
            &&& f.store.path_cache is Some ==> lines::counts(
                out,
                "path_cache_hits"@,
                f.store.path_cache->0.hits as nat,
            )
            &&& f.store.path_cache is Some ==> lines::counts(
                out,
                "path_cache_misses"@,
                f.store.path_cache->0.misses as nat,
            )
            &&& f.store.path_cache is Some ==> lines::counts(
                out,
                "path_cache_evictions"@,
                f.store.path_cache->0.evictions as nat,
            )
            &&& lines::counts(out, "pubsub_channels"@, f.node.pubsub_channels as nat)
            &&& lines::counts(out, "pubsub_patterns"@, f.node.pubsub_patterns as nat)
            &&& lines::counts(
                out,
                "client_output_buffer_limit_disconnections"@,
                f.node.cob_disconnections as nat,
            )
            &&& layout == Layout::Scoped ==> lines::counts(
                out,
                "idle_disconnections"@,
                f.node.idle_disconnections as nat,
            )
            &&& forall|label: Seq<char>, value: Seq<char>|
                (forall|s: Seq<char>|
                    lines::ended(s) ==> #[trigger] lines::shows(
                        sections::index_stat_text(s, f),
                        label,
                        value,
                    )) ==> #[trigger] lines::shows(out, label, value)
        }),
{
    broadcast use {lines::group_rows, group_parts};

    reveal(sections::stats_body);
}

/// INFO replication shows the replication id.
#[verifier::spinoff_prover]
#[verifier::rlimit(60)]
pub proof fn law_replication_section(t: Seq<char>, f: InfoFacts, layout: Layout)
    requires
        lines::ended(t),
    ensures
        ({
            let out = sections::replication_body(t, f, layout);
            &&& lines::has_line(out, "# Replication"@)
            &&& lines::has_line(out, "role:master"@)
            &&& lines::has_line(out, "connected_slaves:0"@)
            &&& lines::has_line(out, "master_failover_state:no-failover"@)
            &&& lines::shows(out, "master_replid"@, sections::replid_text(f.node, layout))
            &&& lines::has_line(out, "master_repl_offset:0"@)
        }),
{
    broadcast use {lines::group_rows, group_parts};

    reveal(sections::replication_body);
}

/// INFO cpu shows the processor time.
#[verifier::spinoff_prover]
#[verifier::rlimit(60)]
pub proof fn law_cpu_section(t: Seq<char>, f: InfoFacts)
    requires
        lines::ended(t),
    ensures
        ({
            let out = sections::cpu_body(t, f);
            &&& lines::has_line(out, "# CPU"@)
            &&& lines::shows(out, "used_cpu_sys"@, f.host.cpu_sys@)
            &&& lines::shows(out, "used_cpu_user"@, f.host.cpu_user@)
        }),
{
    broadcast use {lines::group_rows, group_parts};

    reveal(sections::cpu_body);
}

/// INFO tripwires shows the tripwires under the names they are given.
#[verifier::spinoff_prover]
#[verifier::rlimit(60)]
pub proof fn law_tripwires_section(t: Seq<char>, f: InfoFacts, layout: Layout)
    requires
        lines::ended(t),
    ensures
        ({
            let out = sections::tripwires_body(t, f, layout);
            &&& lines::has_line(out, "# Tripwires"@)
            &&& layout == Layout::Scoped ==> lines::has_line(out, "tripwire_scope:cell"@)
            &&& lines::counts(out, f.names.sqes_per_submit@, f.node.tripwires@[0] as nat)
            &&& lines::counts(out, f.names.cqes_per_reap@, f.node.tripwires@[1] as nat)
            &&& lines::counts(out, f.names.cmds_per_iter@, f.node.tripwires@[2] as nat)
            &&& lines::counts(out, f.names.fabric_msgs_per_batch@, f.node.tripwires@[3] as nat)
            &&& lines::counts(out, f.names.loop_iter_p999_us@, f.node.tripwires@[4] as nat)
            &&& lines::counts(out, "fabric_rtt_p50_ns"@, f.node.fabric_rtt_p50_ns as nat)
            &&& lines::counts(out, "recv_dropped"@, f.node.recv_dropped as nat)
            &&& lines::counts(out, "raw_submits"@, f.node.raw_counters@[0] as nat)
            &&& lines::counts(out, "raw_sqes"@, f.node.raw_counters@[1] as nat)
            &&& lines::counts(out, "raw_cqes"@, f.node.raw_counters@[2] as nat)
            &&& lines::counts(out, "raw_iterations"@, f.node.raw_counters@[3] as nat)
            &&& lines::counts(out, "raw_commands"@, f.node.raw_counters@[4] as nat)
            &&& lines::counts(out, "raw_fabric_msgs"@, f.node.raw_counters@[5] as nat)
            &&& lines::counts(
                out,
                f.names.records_live_bytes@,
                f.store.report.records_live_bytes as nat,
            )
            &&& lines::counts(
                out,
                f.names.records_slack_bytes@,
                f.store.report.records_slack_bytes as nat,
            )
            &&& lines::counts(
                out,
                "records_resident_bytes"@,
                f.store.report.records_resident_bytes as nat,
            )
            &&& lines::counts(out, f.names.index_bytes@, f.store.report.index_bytes as nat)
            &&& lines::counts(out, f.names.wheel_bytes@, f.store.report.wheel_bytes as nat)
            &&& lines::counts(out, f.names.evict_bytes@, f.store.report.evict_bytes as nat)
            &&& lines::counts(out, f.names.doc_tape_bytes@, f.store.report.doc_tape_bytes as nat)
            &&& lines::counts(out, f.names.doc_arena_bytes@, f.store.report.doc_arena_bytes as nat)
            &&& lines::counts(
                out,
                f.names.doc_resident_bytes@,
                f.store.report.doc_resident_bytes as nat,
            )
            &&& lines::counts(
                out,
                f.names.doc_intern_bytes@,
                f.store.report.doc_intern_bytes as nat,
            )
            &&& lines::counts(out, f.names.doc_slack_bytes@, f.store.report.doc_slack_bytes as nat)
            &&& lines::counts(
                out,
                f.names.doc_scratch_bytes@,
                f.store.report.doc_scratch_bytes as nat,
            )
            &&& lines::counts(
                out,
                f.names.doc_path_cache_bytes@,
                f.store.report.doc_path_cache_bytes as nat,
            )
            &&& lines::counts(out, "idx_tree_bytes"@, f.store.report.idx_tree_bytes as nat)
            &&& lines::counts(out, "idx_slack_bytes"@, f.store.report.idx_slack_bytes as nat)
            &&& lines::counts(out, "wheel_fallback"@, f.store.stats.wheel_fallback as nat)
            &&& lines::counts(out, "wheel_stale"@, f.store.stats.wheel_stale as nat)
            &&& layout == Layout::Plain ==> lines::counts(
                out,
                "evicted_keys"@,
                f.store.stats.evicted_keys as nat,
            )
            &&& lines::counts(out, "pubsub_fan_msgs"@, f.node.pubsub_fan_msgs as nat)
            &&& lines::counts(out, "pubsub_delivered"@, f.node.pubsub_delivered as nat)
            &&& lines::counts(out, "pubsub_state_bytes"@, f.node.pubsub_state_bytes as nat)
            &&& lines::counts(out, f.names.wire_buffers_bytes@, f.node.wire_buffers_bytes as nat)
            &&& lines::counts(out, f.names.conn_state_bytes@, f.node.conn_state_bytes as nat)
            &&& lines::counts(out, "reply_pool_bytes"@, f.node.reply_pool_bytes as nat)
            &&& lines::counts(out, "cmd_pool_bytes"@, f.node.cmd_pool_bytes as nat)
            &&& lines::counts(out, "cold_pool_bytes"@, f.node.cold_pool_bytes as nat)
            &&& layout == Layout::Plain ==> lines::counts(
                out,
                f.names.process_rss@,
                f.host.rss as nat,
            )
            &&& layout == Layout::Scoped ==> lines::counts(
                out,
                "loop_snapshot_bytes"@,
                f.node.loop_snapshot_bytes as nat,
            )
        }),
{
    broadcast use {lines::group_rows, group_parts};

    reveal(sections::tripwires_body);
}

/// INFO keyspace has a row for every database that holds a key.
#[verifier::spinoff_prover]
#[verifier::rlimit(60)]
pub proof fn law_keyspace_section(t: Seq<char>, f: InfoFacts, layout: Layout)
    requires
        lines::ended(t),
    ensures
        ({
            let out = sections::keyspace_body(t, f, layout);
            &&& layout == Layout::Scoped ==> lines::shows(
                out,
                "keyspace_scope"@,
                sections::scope_label(f.memory.node_scope),
            )
            &&& layout == Layout::Plain ==> forall|label: Seq<char>, value: Seq<char>|
                (forall|s: Seq<char>|
                    lines::ended(s) ==> #[trigger] lines::shows(
                        sections::db_text(s, f.store.dbs@),
                        label,
                        value,
                    )) ==> #[trigger] lines::shows(out, label, value)
            &&& layout == Layout::Scoped ==> forall|label: Seq<char>, value: Seq<char>|
                (forall|s: Seq<char>|
                    lines::ended(s) ==> #[trigger] lines::shows(
                        sections::db_text(s, f.memory.dbs@),
                        label,
                        value,
                    )) ==> #[trigger] lines::shows(out, label, value)
        }),
{
    broadcast use {lines::group_rows, group_parts};

    reveal(sections::keyspace_body);
}

proof fn lemma_shape(arg: Seq<u8>, token: Seq<char>)
    requires
        vstd::utf8::is_ascii_chars(token),
        token.len() > 0,
    ensures
        text::is_word(arg, token) ==> arg.len() == token.len() && text::lower(arg[0])
            == text::lower(token[0] as u8),
{
    vstd::utf8::is_ascii_chars_encode_utf8(token);
    if text::is_word(arg, token) {
        assert(text::lower_all(arg).len() == text::lower_all(text::utf8(token)).len());
        assert(text::lower_all(arg)[0] == text::lower_all(text::utf8(token))[0]);
    }
}

/// The sections go by their names, in any case: each name is one section,
/// `all`, `default` and `everything` are all of them.
#[verifier::spinoff_prover]
#[verifier::rlimit(40)]
pub proof fn law_sections_go_by_their_names(arg: Seq<u8>)
    ensures
        text::is_word(arg, "all"@) || text::is_word(arg, "default"@) || text::is_word(
            arg,
            "everything"@,
        ) <==> sections::named(arg) is Everything,
        text::is_word(arg, "server"@) <==> sections::named(arg) == sections::Named::Section(0),
        text::is_word(arg, "clients"@) <==> sections::named(arg) == sections::Named::Section(1),
        text::is_word(arg, "memory"@) <==> sections::named(arg) == sections::Named::Section(2),
        text::is_word(arg, "persistence"@) <==> sections::named(arg) == sections::Named::Section(
            3,
        ),
        text::is_word(arg, "tiering"@) <==> sections::named(arg) == sections::Named::Section(4),
        text::is_word(arg, "stats"@) <==> sections::named(arg) == sections::Named::Section(5),
        text::is_word(arg, "replication"@) <==> sections::named(arg) == sections::Named::Section(
            6,
        ),
        text::is_word(arg, "cpu"@) <==> sections::named(arg) == sections::Named::Section(7),
        text::is_word(arg, "tripwires"@) <==> sections::named(arg) == sections::Named::Section(8),
        text::is_word(arg, "keyspace"@) <==> sections::named(arg) == sections::Named::Section(9),
        text::is_word(arg, "loophist"@) <==> sections::named(arg) == sections::Named::Section(10),
{
    reveal_strlit("all");
    reveal_strlit("default");
    reveal_strlit("everything");
    reveal_strlit("server");
    reveal_strlit("clients");
    reveal_strlit("memory");
    reveal_strlit("persistence");
    reveal_strlit("tiering");
    reveal_strlit("stats");
    reveal_strlit("replication");
    reveal_strlit("cpu");
    reveal_strlit("tripwires");
    reveal_strlit("keyspace");
    reveal_strlit("loophist");
    lemma_shape(arg, "all"@);
    lemma_shape(arg, "default"@);
    lemma_shape(arg, "everything"@);
    lemma_shape(arg, "server"@);
    lemma_shape(arg, "clients"@);
    lemma_shape(arg, "memory"@);
    lemma_shape(arg, "persistence"@);
    lemma_shape(arg, "tiering"@);
    lemma_shape(arg, "stats"@);
    lemma_shape(arg, "replication"@);
    lemma_shape(arg, "cpu"@);
    lemma_shape(arg, "tripwires"@);
    lemma_shape(arg, "keyspace"@);
    lemma_shape(arg, "loophist"@);
}

/// INFO with the name of one section asks for that section and no other, in
/// both layouts; without a name it asks for all.
pub proof fn law_one_name_asks_for_one_section(argv: Seq<&[u8]>, k: int)
    requires
        argv.len() == 2,
        sections::named(argv[1]@) == sections::Named::Section(k),
    ensures
        forall|s: int| #[trigger] sections::asks_for(argv, s) <==> s == k,
        !sections::asks_for_all(argv),
        forall|s: int| #[trigger] info::wants(argv, s) <==> s == k,
        forall|s: int| #[trigger] info::wants(argv.take(1), s),
{
    assert forall|s: int| #[trigger] sections::asks_for(argv, s) implies s == k by {
        let i = choose|i: int|
            1 <= i < argv.len() && sections::named((#[trigger] argv[i])@)
                == sections::Named::Section(s);
        assert(i == 1);
    }
    assert(sections::named(argv[1]@) == sections::Named::Section(k));
    assert(sections::asks_for(argv, k));
    if exists|i: int| 1 <= i < argv.len() && sections::named((#[trigger] argv[i])@) is Everything {
        let i = choose|i: int|
            1 <= i < argv.len() && sections::named((#[trigger] argv[i])@) is Everything;
        assert(i == 1);
    }
}

/// INFO of one section is that section and nothing else.
pub proof fn law_one_section_is_shown_alone(
    argv: Seq<&[u8]>,
    f: InfoFacts,
    rows: Seq<config::ConfigRow>,
    k: int,
)
    requires
        argv.len() == 2,
        sections::named(argv[1]@) == sections::Named::Section(k),
    ensures
        ({
            let shown = info::plain_text(argv, f, rows);
            let none = Seq::<char>::empty();
            &&& k == 0 ==> shown == sections::server_body(none, f, Layout::Plain)
            &&& k == 1 ==> shown == sections::clients_body(none, f, Layout::Plain, rows)
            &&& k == 2 ==> shown == sections::memory_body(none, f, Layout::Plain, rows)
            &&& k == 3 ==> shown == sections::persistence_body(none, f, Layout::Plain)
            &&& k == 4 ==> shown == sections::tiering_body(none, f, Layout::Plain)
            &&& k == 5 ==> shown == sections::stats_body(none, f, Layout::Plain)
            &&& k == 6 ==> shown == sections::replication_body(none, f, Layout::Plain)
            &&& k == 7 ==> shown == sections::cpu_body(none, f)
            &&& k == 8 ==> shown == sections::tripwires_body(none, f, Layout::Plain)
            &&& k == 9 ==> shown == sections::keyspace_body(none, f, Layout::Plain)
        }),
{
    law_one_name_asks_for_one_section(argv, k);
}

/// INFO of one section in the scoped layout is that section and nothing else;
/// the loop histogram is a section of its own there.
pub proof fn law_one_scoped_section_is_shown_alone(
    argv: Seq<&[u8]>,
    f: InfoFacts,
    rows: Seq<config::ConfigRow>,
    k: int,
)
    requires
        argv.len() == 2,
        sections::named(argv[1]@) == sections::Named::Section(k),
    ensures
        ({
            let shown = sections::scoped_text(argv, f, rows);
            let none = Seq::<char>::empty();
            &&& k == 0 ==> shown == sections::server_body(none, f, Layout::Scoped)
            &&& k == 1 ==> shown == sections::clients_body(none, f, Layout::Scoped, rows)
            &&& k == 2 ==> shown == sections::memory_body(none, f, Layout::Scoped, rows)
            &&& k == 3 ==> shown == sections::persistence_body(none, f, Layout::Scoped)
            &&& k == 4 ==> shown == sections::tiering_body(none, f, Layout::Scoped)
            &&& k == 5 ==> shown == sections::stats_body(none, f, Layout::Scoped)
            &&& k == 6 ==> shown == sections::replication_body(none, f, Layout::Scoped)
            &&& k == 7 ==> shown == sections::cpu_body(none, f)
            &&& k == 8 ==> shown == sections::tripwires_body(none, f, Layout::Scoped)
            &&& k == 9 ==> shown == sections::keyspace_body(none, f, Layout::Scoped)
            &&& k == 10 ==> shown == f.loop_text@
        }),
{
    law_one_name_asks_for_one_section(argv, k);
    if k == 10 {
        assert(Seq::<char>::empty() + f.loop_text@ =~= f.loop_text@);
    }
}

/// INFO of everything is every section, in order; the loop histogram comes only
/// where it is named.
pub proof fn law_everything_is_shown_in_order(
    argv: Seq<&[u8]>,
    f: InfoFacts,
    rows: Seq<config::ConfigRow>,
)
    requires
        sections::asks_for_all(argv),
        !sections::asks_for(argv, 10),
    ensures
        info::plain_text(argv, f, rows) == all_sections(f, rows, Layout::Plain),
        sections::scoped_text(argv, f, rows) == all_sections(f, rows, Layout::Scoped),
{
}

/// The sections one behind the other.
pub open spec fn all_sections(f: InfoFacts, rows: Seq<config::ConfigRow>, layout: Layout) -> Seq<
    char,
> {
    let t = sections::server_body(Seq::empty(), f, layout);
    let t = sections::clients_body(t, f, layout, rows);
    let t = sections::memory_body(t, f, layout, rows);
    let t = sections::persistence_body(t, f, layout);
    let t = sections::tiering_body(t, f, layout);
    let t = sections::stats_body(t, f, layout);
    let t = sections::replication_body(t, f, layout);
    let t = sections::cpu_body(t, f);
    let t = sections::tripwires_body(t, f, layout);
    sections::keyspace_body(t, f, layout)
}

/// The uptime is the seconds since the clock was anchored, and a clock that
/// went back shows none.
pub proof fn law_uptime_counts_from_the_anchor(host: HostFacts)
    ensures
        host.now_secs * 1000 >= host.anchor_ms ==> 1000 * sections::uptime_of(host) + host.anchor_ms
            >= host.now_secs * 1000 && 1000 * sections::uptime_of(host) + host.anchor_ms
            < host.now_secs * 1000 + 1000,
        host.now_secs < host.anchor_ms / 1000 ==> sections::uptime_of(host) == 0,
{
}

/// A setting is shown as its row has it, and by its default where there is no
/// such row.
pub proof fn law_setting_is_shown_from_its_row(
    rows: Seq<config::ConfigRow>,
    key: Seq<char>,
    default: Seq<char>,
    i: int,
)
    ensures
        config::find_row(rows, key, 0) == Some(i) ==> sections::setting_of(rows, key, default)
            == rows[i].value,
        (forall|j: int| 0 <= j < rows.len() ==> (#[trigger] rows[j]).key != key)
            ==> sections::setting_of(rows, key, default) == default,
{
    config::law_key_is_found(rows, key);
}

/// Trimming takes empty lines off the end and nothing else: what is left is
/// the start of the text, and it does not end with an empty line.
pub proof fn law_only_empty_lines_are_trimmed(t: Seq<u8>)
    ensures
        sections::trimmed(t).len() <= t.len(),
        sections::trimmed(t) == t.take(sections::trimmed(t).len() as int),
        !text::has_suffix(sections::trimmed(t), seq![13u8, 10u8, 13u8, 10u8]),
        (t.len() - sections::trimmed(t).len()) % 2 == 0,
        !text::has_suffix(t, seq![13u8, 10u8, 13u8, 10u8]) ==> sections::trimmed(t) == t,
        forall|i: int|
            sections::trimmed(t).len() <= i < t.len() ==> #[trigger] t[i] == 13 || t[i] == 10,
    decreases t.len(),
{
    if text::has_suffix(t, seq![13u8, 10u8, 13u8, 10u8]) {
        let rest = t.take(t.len() - 2);
        law_only_empty_lines_are_trimmed(rest);
        let left = sections::trimmed(rest).len() as int;
        assert(rest.take(left) =~= t.take(left));
        let end = t.skip(t.len() - 4);
        assert(end[2] == 13 && end[3] == 10);
        assert forall|i: int| left <= i < t.len() implies #[trigger] t[i] == 13 || t[i] == 10 by {
            if i < rest.len() {
                assert(rest[i] == t[i]);
            } else {
                assert(t[i] == end[i - (t.len() - 4)]);
            }
        }
    } else {
        assert(t.take(t.len() as int) =~= t);
    }
}

/// The words that stand for a state: the barrier class, the scope of a fold,
/// what filled the disk, and a write amplification that is not defined.
pub proof fn law_states_have_their_words(n: u64)
    ensures
        sections::class_label(1) == "fua"@,
        n != 1 ==> sections::class_label(n) == "flush"@,
        sections::scope_label(true) == "node"@,
        sections::scope_label(false) == "cell"@,
        sections::disk_label(DiskFull::Clear) == "none"@,
        sections::disk_label(DiskFull::Budget) == "budget"@,
        sections::disk_label(DiskFull::Device) == "device"@,
        sections::amp_text(None) == "undefined"@,
        sections::amp_text(Some(n)) == text::dec_chars(n as nat),
{
}

/// The run id is forty digits: the node's own where the node has one, and else
/// made of its seed and its cell.
pub proof fn law_run_id_is_the_nodes(node: NodeGauges)
    ensures
        sections::run_text(node, Layout::Scoped) == text::hex_chars(node.run_id@[0] as nat, 16)
            + text::hex_chars(node.run_id@[1] as nat, 16) + text::hex_chars(
            node.run_id@[2] as nat,
            8,
        ),
        sections::run_text(node, Layout::Plain) == text::hex_chars(node.rng_state as nat, 16)
            + text::hex_chars(node.cell as nat, 16),
        sections::replid_text(node, Layout::Scoped) == sections::run_text(node, Layout::Scoped),
        sections::replid_text(node, Layout::Plain) == text::hex_chars(node.rng_state as nat, 40),
{
}

} // verus!
