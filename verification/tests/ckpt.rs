use inf_server::ckpt::manifest::{
    truncation_budget, truncation_targets, ListedFile, ManifestCell, PendingManifest, SwapAction, SwapOutcome, SwapPhase, TieredNs,
};
use inf_server::ckpt::{
    ckpt_token, probe_direct, CkptCell, CkptConfig, CkptIoMode, CkptPhase, ProbeOutcome,
    SectionLease, ABORT_BACKOFF_SLICES, RETRY_BACKOFF_SLICES,
};
use inf_server::control::boards::CkptBoard;
use inf_server::control::handle::{ControlHandle, ControlMsg, IndexFloor};
use inf_server::durable::cell::{
    DurableCell, FrameBarrier, HoldReason, SealFacts, SealStep,
};
use inf_server::durable::{FillConfig, FrameLayout, FramePlan, GroupHoldConfig};
use inf_server::lsn::Lsn;

fn lsn(off: u32) -> Lsn {
    Lsn { segment: 0, offset: off }
}

fn config() -> CkptConfig {
    CkptConfig { interval_bytes: 1 << 20, slice_bytes: 4096, stream_bytes_per_sec: 0, cap_records: 0 }
}

fn cell(outcome: ProbeOutcome) -> CkptCell {
    let mode = probe_direct(outcome).expect("no boot error");
    CkptCell::new(0, config(), &[], mode, 1 << 20)
}

fn header() -> SectionLease {
    SectionLease { offset: 0, len: 4096 }
}

#[test]
fn probe_selects_buffered_where_direct_is_refused_and_still_opens_streams() {
    let mut ckpt = cell(ProbeOutcome::Refused);
    assert_eq!(ckpt.io_mode(), CkptIoMode::Buffered);
    assert_eq!(ckpt.stats(0, 0).io_mode_buffered, 1);
    ckpt.open_stream(1, lsn(40), vec![16], false, 0, header());
    assert!(matches!(ckpt.phase, CkptPhase::Stream(_)));

    let direct = cell(ProbeOutcome::Passed);
    assert_eq!(direct.io_mode(), CkptIoMode::Direct);
    assert_eq!(direct.stats(0, 0).io_mode_buffered, 0);
    assert_eq!(probe_direct(ProbeOutcome::Failed), None);
}

#[test]
fn probe_writes_a_block_so_a_refused_direct_write_selects_buffered() {
    let ckpt = cell(ProbeOutcome::Refused);
    assert_eq!(ckpt.io_mode(), CkptIoMode::Buffered);
    assert_eq!(ckpt.stats(0, 0).io_mode_downgrades, 0, "a boot decision, not a downgrade");
    assert_eq!(cell(ProbeOutcome::Passed).io_mode(), CkptIoMode::Direct);
}

#[test]
fn refused_direct_write_downgrades_once_and_retries_at_once() {
    let mut ckpt = cell(ProbeOutcome::Passed);
    assert!(ckpt.io_mode_direct());
    ckpt.requested = true;
    ckpt.open_stream(1, lsn(40), vec![16], false, 0, header());
    assert_eq!(ckpt.abort_refused_direct(), Some(1));
    assert!(matches!(ckpt.phase, CkptPhase::Idle));
    assert!(!ckpt.io_mode_direct());
    assert_eq!(ckpt.io_mode(), CkptIoMode::Buffered);
    let stats = ckpt.stats(0, 0);
    assert_eq!((stats.aborted, stats.io_mode_buffered, stats.io_mode_downgrades), (1, 1, 1));
    assert!(!ckpt.tick_backoff(), "no backoff: the mode changed, retry now");
    assert!(ckpt.should_begin(0, 0), "the trigger state is untouched");
    ckpt.open_stream(2, lsn(80), vec![16], false, 0, header());
    assert!(matches!(ckpt.phase, CkptPhase::Stream(_)));
}

#[test]
fn abort_backs_off_before_the_trigger_refires() {
    let mut ckpt = cell(ProbeOutcome::Passed);
    assert!(!ckpt.tick_backoff(), "fresh cell: no backoff");
    ckpt.requested = true;
    ckpt.open_stream(1, lsn(40), vec![16], false, 0, header());
    assert_eq!(ckpt.abort(), Some(1));
    assert!(matches!(ckpt.phase, CkptPhase::Idle));
    assert_eq!(ckpt.stats(0, 0).aborted, 1);
    let mut held = 0;
    while ckpt.tick_backoff() {
        held += 1;
    }
    assert_eq!(held, ABORT_BACKOFF_SLICES);
    assert!(ckpt.should_begin(0, 0), "the manual request survives the backoff");
    assert!(!ckpt.tick_backoff(), "backoff is one-shot per abort");
}

#[test]
fn boot_ids_follow_the_largest_image() {
    let fresh = CkptCell::new(0, config(), &[], CkptIoMode::Direct, 1);
    assert_eq!(fresh.pending_id(), 1);
    let listed = [Some(3), None, Some(7), Some(2)];
    assert_eq!(CkptCell::new(0, config(), &listed, CkptIoMode::Direct, 1).pending_id(), 8);
    assert_eq!(ckpt_token(0x100_0002), (2, 1));
}

#[test]
fn triggers_count_bytes_records_and_requests() {
    let mut ckpt = cell(ProbeOutcome::Passed);
    assert!(!ckpt.should_begin((1 << 20) - 1, 0));
    assert!(ckpt.should_begin(1 << 20, 0));
    ckpt.cfg.cap_records = 5;
    assert!(ckpt.should_begin(0, 5));
    ckpt.cfg.interval_bytes = 0;
    assert!(!ckpt.should_begin(u64::MAX, u64::MAX), "manual only");
    ckpt.request_ckpt(9);
    assert!(ckpt.should_begin(0, 0));
    assert_eq!(ckpt.req_epoch, 9);
}

#[test]
fn manifest_swap_waits_for_the_watermark_and_commits_once() {
    let mut m = ManifestCell::new(0, None);
    assert!(m.idle());
    m.note_published_ick(4, Lsn { segment: 2, offset: 8 }, 3);
    assert!(matches!(m.swap_slice(None, 5, &[]), SwapAction::OpenCkptDir));
    let done = m.swap_outcome(SwapOutcome::DirOpened);
    assert_eq!((done.units, done.sync), (1, Some(1)));
    m.on_synced();
    let begin = Lsn { segment: 2, offset: 8 }.to_u64();
    assert!(matches!(m.swap_slice(Some(begin - 1), 5, &[]), SwapAction::Nothing));
    let tiered = [
        TieredNs { ns: 16, stands: true },
        TieredNs { ns: 17, stands: false },
        TieredNs { ns: 18, stands: true },
    ];
    let manifest = match m.swap_slice(Some(begin), 5, &tiered) {
        SwapAction::StageManifest(manifest) => manifest,
        other => panic!("{other:?}"),
    };
    assert_eq!(manifest.segments, vec![2, 3, 4, 5]);
    assert_eq!(manifest.tiers, vec![16, 18], "a dropped store has no section");
    m.swap_outcome(SwapOutcome::StageFailed);
    assert_eq!(m.stats().aborted, 1);
    let mut waited = 0;
    while !matches!(m.phase, SwapPhase::WatermarkWait { .. }) {
        assert!(matches!(m.swap_slice(Some(begin), 5, &[]), SwapAction::Nothing));
        waited += 1;
    }
    assert_eq!(waited, RETRY_BACKOFF_SLICES + 1);
    m.swap_outcome(SwapOutcome::StageWritten { manifest, bytes: 100 });
    m.on_synced();
    assert!(matches!(m.swap_slice(Some(begin), 5, &[]), SwapAction::Rename));
    m.swap_outcome(SwapOutcome::Renamed);
    assert_eq!(m.floor(), None, "the old unit stays until the commit");
    m.on_synced();
    let SwapAction::Commit { tiers } = m.swap_slice(Some(begin), 5, &tiered) else {
        panic!("the commit barrier landed");
    };
    assert_eq!(tiers, vec![16, 18]);
    let listed = vec![
        ListedFile { name: b"3.ick".to_vec(), path: b"ckpt/3.ick".to_vec(), image: Some(3) },
        ListedFile { name: b"4.ick".to_vec(), path: b"ckpt/4.ick".to_vec(), image: Some(4) },
        ListedFile { name: b"5.ick.new".to_vec(), path: b"ckpt/5.ick.new".to_vec(), image: None },
    ];
    m.swap_outcome(SwapOutcome::Committed { listed });
    assert_eq!(m.floor(), Some(2));
    assert_eq!(m.take_published(), Some((3, 4)));
    assert_eq!(m.take_published(), None);
    assert_eq!(m.gc_queue, vec![b"ckpt/3.ick".to_vec(), b"ckpt/5.ick.new".to_vec()]);

    // Without a control plane the caller unlinks; with one the queue takes it.
    m.defer_unlink(b"again".to_vec());
    let (done, paths) = m.gc_slice(1, None);
    assert_eq!((done, paths), (1, vec![b"again".to_vec()]));
    let floor = IndexFloor { first_id: 1, first_generation: 1, slots: 1 };
    let (mut handle, _) = ControlHandle::detached(1, 0, floor);
    let (done, paths) = m.gc_slice(5, Some(&mut handle));
    assert_eq!((done, paths.len()), (2, 0));
    assert!(matches!(&handle.queue[0], ControlMsg::Unlink(p) if p == b"ckpt/5.ick.new"));
    assert_eq!(m.stats().ick_orphans_removed, 3);
}

#[test]
fn truncation_budget_follows_the_backlog() {
    assert_eq!(truncation_budget(0), 2);
    assert_eq!(truncation_budget(9), 5);
    assert_eq!(truncation_budget(1_000), 16);
    assert_eq!(truncation_targets(&[7, 8, 9]), vec![7, 8]);
}

fn durable() -> DurableCell {
    DurableCell::new(
        cell(ProbeOutcome::Passed),
        ManifestCell::new(0, Some(PendingManifest { ckpt_id: 1, begin_lsn: lsn(0) })),
        0,
        FillConfig::design_point(),
        GroupHoldConfig::default(),
    )
}

fn facts(plan: FramePlan) -> SealFacts {
    SealFacts {
        can_seal: true,
        extent_barrier_pending: false,
        drained: true,
        pace: None,
        frame_len: 100,
        rotation_due: false,
        plan,
        reorder_window_full: false,
        active_layout: FrameLayout::Aligned,
        next_layout: FrameLayout::Aligned,
        standalone_due: false,
    }
}

#[test]
fn a_held_frame_counts_one_episode_and_seals_at_its_window() {
    let mut cell = durable();
    let first = cell.seal_log(&facts(FramePlan::Plain), 1_000);
    assert_eq!(first.step, SealStep::Held(HoldReason::Fill));
    assert_eq!(first.fill_timer, Some(1_001_000));
    let second = cell.seal_log(&facts(FramePlan::Plain), 2_000);
    assert_eq!(second.step, SealStep::Held(HoldReason::Fill));
    assert_eq!(cell.frame_waits_fill, 1, "one episode");
    assert_eq!(cell.seal_log(&facts(FramePlan::Plain), 1_001_000).step, SealStep::Reserve);
    assert_eq!(
        durable().seal_log(&facts(FramePlan::Wait), 0).step,
        SealStep::Held(HoldReason::Barrier)
    );
    let line = cell.on_log_error("Fsync", 5);
    assert_eq!(line, "durable-path I/O failed (fail-stop, §8.4): errno 5 on Fsync");
    assert_eq!(cell.seal_log(&facts(FramePlan::Plain), 2_000_000).step, SealStep::Nothing);
}

#[test]
fn acks_fire_only_behind_the_watermark() {
    let mut cell = durable();
    assert_eq!(cell.stage(), 1);
    assert_eq!(cell.stage(), 2);
    let (first, ops) = cell.queue_frame(lsn(64), lsn(0), 2, FramePlan::LinkedFsync, 7, 0);
    assert_eq!((first, ops), (1, 2));
    assert_eq!(cell.stage(), 3);
    let (second, ops) = cell.queue_frame(lsn(128), lsn(64), 1, FramePlan::Plain, 0, 1_000);
    assert_eq!((second, ops), (2, 1));
    assert_eq!(cell.on_log_written(second, 3_000), (2, FrameBarrier::Bare));
    assert_eq!(cell.on_log_written(first, 9_000), (9, FrameBarrier::Linked(7)));
    assert_eq!(cell.on_synced(7, None).acked, None);
    assert_eq!(cell.on_synced(7, Some(lsn(127))).acked, Some(2));
    assert_eq!(cell.on_synced(8, Some(lsn(128))).acked, Some(3));
    assert_eq!(cell.acked_seq, 3);
}

#[test]
fn checkpoint_requests_publish_back_at_the_commit() {
    let mut cell = durable();
    let mut board = CkptBoard::new(1);
    cell.request_ckpt(4);
    assert!(cell.ckpt.should_begin(0, 0));
    cell.publish_committed(&mut board, 10);
    assert_eq!(board.slot(0).published(), 0, "nothing was committed");
    assert_eq!(cell.manifest_stats().published, 0);
    assert_eq!(DurableCell::arm_boot_barriers(&[Some(3), None, Some(4)], Some(9)), vec![3, 4, 9]);
}
