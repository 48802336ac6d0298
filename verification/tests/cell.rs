use inf_server::ckpt::manifest::ManifestCell;
use inf_server::ckpt::{CkptCell, CkptConfig, CkptIoMode};
use inf_server::durable::cell::{
    DurableCell, MaintainOutcome, MaintainStep, ReserveOutcome, ReserveStep, SealFacts, SealStep,
    ZeroFillEvent, ZeroFillStep, ZERO_FILL_SLICE_BYTES,
};
use inf_server::durable::gauges::DurableFacts;
use inf_server::durable::{FillConfig, FrameLayout, FramePlan, GroupHoldConfig};
use inf_server::lsn::Lsn;

fn lsn(offset: u32) -> Lsn {
    Lsn { segment: 1, offset }
}

fn cell(fua_p50_us: u64) -> DurableCell {
    let cfg = CkptConfig {
        interval_bytes: 1 << 20,
        slice_bytes: 4096,
        stream_bytes_per_sec: 0,
        cap_records: 0,
    };
    DurableCell::new(
        CkptCell::new(0, cfg, &[], CkptIoMode::Direct, 1 << 20),
        ManifestCell::new(0, None),
        fua_p50_us,
        FillConfig::default(),
        GroupHoldConfig::default(),
    )
}

#[test]
fn pre_zeroing_asks_before_it_takes_a_slice() {
    let mut c = cell(0);
    let offer = ZeroFillStep::Offer { bytes: ZERO_FILL_SLICE_BYTES };
    assert_eq!(c.zero_fill(ZeroFillEvent::Begun { pending: true }), offer);
    assert_eq!(
        c.zero_fill(ZeroFillEvent::Admitted(true)),
        ZeroFillStep::TakeSlice { limit: ZERO_FILL_SLICE_BYTES }
    );
    assert_eq!(
        c.zero_fill(ZeroFillEvent::Sliced(Some(4096))),
        ZeroFillStep::Queue { refund: ZERO_FILL_SLICE_BYTES - 4096 }
    );
    assert_eq!(c.zero_fill(ZeroFillEvent::Queued), ZeroFillStep::TakeBarrier);
    assert_eq!(c.zero_fill(ZeroFillEvent::Barrier(Some(9))), ZeroFillStep::Done);
    assert_eq!(c.zero_fill_ticket, Some(9));
    assert_eq!(
        c.zero_fill(ZeroFillEvent::Begun { pending: false }),
        ZeroFillStep::Done,
        "one barrier in flight"
    );
    let synced = c.on_synced(9, None);
    assert!(synced.zero_fill_ready);
    assert_eq!(c.zero_fill(ZeroFillEvent::Admitted(false)), ZeroFillStep::TakeBarrier);
    assert_eq!(
        c.zero_fill(ZeroFillEvent::Sliced(None)),
        ZeroFillStep::Withdraw { bytes: ZERO_FILL_SLICE_BYTES }
    );
    assert_eq!(c.maintain(false, MaintainOutcome::Quiet), MaintainStep::ZeroFill);
    assert_eq!(
        c.zero_fill(ZeroFillEvent::Begun { pending: true }),
        ZeroFillStep::TakeBarrier,
        "no consumer, no zeroing"
    );
}

#[test]
fn space_exhaustion_waits_and_other_errors_stop_the_node() {
    let mut c = cell(0);
    assert_eq!(c.on_reserved(ReserveOutcome::Reserved), ReserveStep::Queue);
    assert_eq!(c.on_reserved(ReserveOutcome::NextNotReady), ReserveStep::Wait);
    assert_eq!(c.on_reserved(ReserveOutcome::Failed { space_exhausted: true }), ReserveStep::Wait);
    assert_eq!(
        c.maintain(true, MaintainOutcome::Barrier { fd: Some(4) }),
        MaintainStep::IssueBarrier { fd: 4 }
    );
    assert_eq!(c.maintain(true, MaintainOutcome::Barrier { fd: None }), MaintainStep::ZeroFill);
    assert_eq!(
        c.maintain(true, MaintainOutcome::Failed { space_exhausted: true }),
        MaintainStep::ZeroFill
    );
    assert!(!c.failed);
    assert_eq!(
        c.on_reserved(ReserveOutcome::Failed { space_exhausted: false }),
        ReserveStep::FailStop
    );
    assert!(c.failed);
    assert_eq!(c.maintain(true, MaintainOutcome::Quiet), MaintainStep::Nothing);
    let mut c = cell(0);
    assert_eq!(
        c.maintain(true, MaintainOutcome::Failed { space_exhausted: false }),
        MaintainStep::FailStop
    );
    assert_eq!(
        c.fail_stop("segment maintain", "gone"),
        "durable-path segment maintain failed (fail-stop, §8.4): gone"
    );
}

#[test]
fn written_frames_coalesce_and_still_ack() {
    let mut c = cell(0);
    for end in [64, 128, 192] {
        c.stage();
        let (id, ops) = c.queue_frame(lsn(end), lsn(end - 64), 1, FramePlan::Plain, 0, 0);
        assert_eq!(ops, 1);
        c.on_log_written(id, 1_000);
    }
    c.coalesce_frame_seqs(Some(lsn(192)), &[]);
    assert_eq!(c.frame_seqs.len(), 1);
    assert!(!c.quiescent(true, true, 1, false));
    assert!(c.quiescent(true, true, 0, false));
    assert_eq!(c.on_synced(1, Some(lsn(192))).acked, Some(3));
    assert_eq!(c.group_round_target, 3);
}

#[test]
fn a_paced_frame_is_held_until_the_pacer_grants_it() {
    let mut c = cell(0);
    let mut facts = SealFacts {
        can_seal: true,
        extent_barrier_pending: false,
        drained: false,
        pace: None,
        frame_len: 4096,
        rotation_due: false,
        plan: FramePlan::LinkedFsync,
        reorder_window_full: false,
        active_layout: FrameLayout::Aligned,
        next_layout: FrameLayout::Aligned,
        standalone_due: false,
    };
    assert!(c.needs_pace(&facts));
    facts.pace = Some(false);
    assert!(matches!(c.seal_log(&facts, 0).step, SealStep::Held(_)));
    assert!(c.frame_held);
    facts.pace = Some(true);
    assert_eq!(c.seal_log(&facts, 0).step, SealStep::Reserve);
    facts.drained = true;
    assert!(!c.needs_pace(&facts));
    facts.can_seal = false;
    facts.standalone_due = true;
    assert_eq!(c.seal_log(&facts, 0).step, SealStep::Standalone);
    assert!(!c.frame_held);
}

#[test]
fn a_tick_measures_rates_and_trips_on_slow_write_through() {
    let mut c = cell(100);
    assert_eq!(c.stage_tiered(), 1);
    c.note_gated_ack();
    c.note_parked();
    c.on_everysec_tick(7, 2, 2 * 301);
    assert_eq!((c.fsyncs_last_sec, c.acks_last_sec, c.parked_total), (7, 1, 1));
    assert_eq!(c.fua_degraded_windows, 1);
    c.on_everysec_tick(7, 2, 2 * 301);
    assert_eq!((c.fsyncs_last_sec, c.fua_degraded_windows), (0, 1), "no sample, no verdict");
    c.on_everysec_tick(9, 3, 2 * 301 + 300);
    assert_eq!(c.fua_degraded_windows, 0, "one healthy window clears the run");
}

#[test]
fn gauges_derive_lag_and_amplification() {
    let mut c = cell(0);
    let facts = || {
        let mut f = DurableFacts::default();
        f.commit.watermark = Some(lsn(100));
        f.commit.queued_up_to = Some(lsn(164));
        f.commit.frame_bytes_queued = 1_000;
        f.staging.append_bytes = 600;
        f.rotor.sealed = 3;
        f
    };
    let stats = c.stats(facts());
    assert_eq!(stats.last_durable_lsn, lsn(100).to_u64());
    assert_eq!(stats.watermark_lag_lsn, 64);
    assert_eq!(stats.write_amp_log_checkpoint_undefined, 1, "no checkpoint wrote yet");
    assert_eq!(stats.write_amp_milli_log_checkpoint, 0);
    c.ckpt.stats.completed = 1;
    c.ckpt.stats.bytes_total = 500;
    let stats = c.stats(facts());
    assert_eq!(stats.write_amp_log_checkpoint_undefined, 0);
    assert_eq!(stats.write_amp_milli_log_checkpoint, 2_500);
}
