use inf_server::ckpt::manifest::{ManifestCell, SwapAction, SwapDone, SwapOutcome};
use inf_server::ckpt::{
    CkptCell, CkptConfig, CkptIoMode, CkptPhase, IdxSidecarMeta, SectionLease, Streaming, EINVAL,
};
use inf_server::control::handle::{ControlHandle, ControlMsg, IndexFloor, CONTROL_QUEUE};
use inf_server::durable::cell::DurableCell;
use inf_server::durable::ckpt::{image_is_v2, SealedDisposal, SliceStep};
use inf_server::durable::fill::{
    BlobRef, Block, Fill, FillAction, FillEvent, LiveFile, NsKind, PendingSection, SectionFacts,
    TierEntry,
};
use inf_server::durable::{FillConfig, GroupHoldConfig};
use inf_server::lsn::Lsn;

const BEGIN: Lsn = Lsn { segment: 2, offset: 64 };

fn cell_with(cfg: CkptConfig) -> DurableCell {
    DurableCell::new(
        CkptCell::new(0, cfg, &[], CkptIoMode::Direct, 1 << 20),
        ManifestCell::new(0, None),
        0,
        FillConfig::design_point(),
        GroupHoldConfig::default(),
    )
}

fn config() -> CkptConfig {
    CkptConfig { interval_bytes: 1 << 20, slice_bytes: 4096, stream_bytes_per_sec: 0, cap_records: 0 }
}

/// What a section holds.
#[derive(Clone, Copy, PartialEq, Eq, Debug)]
enum Class {
    Record(u32),
    Ref(u32),
    Live(u32, u32),
    Blob(u32, u64),
    Pair(u32),
    Final(u32, u64),
}

fn kind(class: Class) -> &'static str {
    match class {
        Class::Record(_) => "records",
        Class::Ref(_) => "refs",
        Class::Live(..) => "live",
        Class::Blob(..) => "blobs",
        Class::Pair(_) | Class::Final(..) => "index",
    }
}

/// A store and an image stream whose sections hold a few entries each.
struct Sim {
    section_cap: usize,
    pending: Vec<Class>,
    blocks: Vec<Vec<Class>>,
    records: usize,
    refs: usize,
    live: Vec<LiveFile>,
    blobs: Vec<BlobRef>,
    plan: Vec<IdxSidecarMeta>,
    pairs: u32,
    eligible: bool,
    pinned: bool,
    grant: bool,
    begun: u32,
    released: u32,
    ended: u32,
}

impl Sim {
    fn new() -> Sim {
        Sim {
            section_cap: 4,
            pending: vec![],
            blocks: vec![],
            records: 6,
            refs: 3,
            live: vec![],
            blobs: vec![],
            plan: vec![],
            pairs: 0,
            eligible: true,
            pinned: false,
            grant: true,
            begun: 0,
            released: 0,
            ended: 0,
        }
    }

    fn facts(&self) -> SectionFacts {
        let pending = match self.pending.first() {
            None => PendingSection::Empty,
            Some(Class::Pair(id)) | Some(Class::Final(id, _)) => {
                PendingSection::Index { ns: 16, index_id: *id, generation: 7 }
            }
            Some(_) => PendingSection::Records,
        };
        SectionFacts {
            full: self.pending.len() >= self.section_cap,
            can_seal: !self.pending.is_empty(),
            pending,
        }
    }

    /// Stages images from `cursor` until one does not fit.
    fn images(&mut self, fill: &mut Fill, ns: u32, cursor: u64, resume: Option<u64>) -> (bool, u64, Option<u64>) {
        let mut at = resume.unwrap_or(cursor);
        while (at as usize) < self.records {
            if !fill.take_image(self.pending.len() < self.section_cap, 100) {
                return (false, cursor, Some(at));
            }
            self.pending.push(Class::Record(ns));
            at += 1;
        }
        (true, 0, None)
    }

    fn perform(&mut self, st: &mut Streaming, fill: &mut Fill, action: FillAction) -> FillEvent {
        match action {
            FillAction::Find(ns) => FillEvent::Found(match ns {
                16 => NsKind::Plain,
                17 => NsKind::Tiered { pinned: self.pinned },
                18 => NsKind::Gone,
                _ => NsKind::TierGone,
            }),
            FillAction::Scan { ns, cursor, resume, limit } => {
                assert_eq!(limit, 32);
                let (done, group, chain) = self.images(fill, ns, cursor, resume);
                FillEvent::Scanned { done, group, chain }
            }
            FillAction::Refs { ns, cursor, begin, release, .. } => {
                assert_eq!(begin, cursor == 0);
                self.begun += u32::from(begin);
                self.released += u32::from(release);
                for _ in 0..self.refs {
                    self.pending.push(Class::Ref(ns));
                }
                FillEvent::RefsStaged { refs: self.refs as u32, next: 0 }
            }
            FillAction::Images { ns, cursor, resume, .. } => {
                let (done, group, chain) = self.images(fill, ns, cursor, resume);
                FillEvent::ImagesStaged { done, group, chain }
            }
            FillAction::LiveFiles { .. } => {
                FillEvent::Listed(self.live.iter().map(|f| TierEntry::Live(*f)).collect())
            }
            FillAction::BlobRefs { from, .. } => FillEvent::Listed(
                self.blobs.iter().filter(|b| b.addr >= from).map(|b| TierEntry::Blob(*b)).collect(),
            ),
            FillAction::StageEntry { ns, entry } => {
                self.pending.push(match entry {
                    TierEntry::Live(f) => Class::Live(ns, f.id),
                    TierEntry::Blob(b) => Class::Blob(ns, b.addr),
                });
                FillEvent::EntryStaged
            }
            FillAction::EndWalk { .. } => {
                self.ended += 1;
                FillEvent::WalkEnded
            }
            FillAction::Plan => FillEvent::Planned(self.plan.clone()),
            FillAction::CheckIndex(_) => FillEvent::Judged { eligible: self.eligible },
            FillAction::Pull { meta, .. } => {
                for n in 0..self.pairs {
                    assert_eq!(st.note_pair(fill, meta.fixed8, 3), u64::from(n));
                    self.pending.push(Class::Pair(meta.index_id));
                }
                FillEvent::Pulled { pairs: self.pairs, next: None }
            }
            FillAction::StageFinal { meta, pairs } => {
                self.pending.push(Class::Final(meta.index_id, pairs));
                FillEvent::FinalStaged
            }
            FillAction::Admit(_) => FillEvent::Admitted(self.grant),
            FillAction::Seal(block) => {
                if block == Block::Section {
                    self.blocks.push(std::mem::take(&mut self.pending));
                }
                FillEvent::Sealed(SectionLease { offset: 0, len: 4096 })
            }
            FillAction::Write { .. } | FillAction::Done { .. } => unreachable!("the slice is over"),
        }
    }
}

/// Runs one slice; the step it started with and the units it charged.
fn slice(cell: &mut DurableCell, sim: &mut Sim, now: u64) -> (SliceStep, u32) {
    let step = cell.ckpt_slice(0, true, false, now, 64);
    let SliceStep::Fill { slice_cap, phase } = step else {
        return (step, step.units());
    };
    let CkptPhase::Stream(st) = &mut cell.ckpt.phase else { panic!("streaming") };
    let mut fill = Fill::begin(slice_cap, phase);
    let mut event = FillEvent::Started;
    loop {
        let action = st.fill_step(&mut fill, event, sim.facts());
        match action {
            FillAction::Write { units, .. } | FillAction::Done { units } => return (step, units),
            _ => event = sim.perform(st, &mut fill, action),
        }
    }
}

/// A cell whose stream is open over these namespaces.
fn streaming(cfg: CkptConfig, ns_ids: Vec<u32>, v2: bool) -> DurableCell {
    let mut cell = cell_with(cfg);
    cell.request_ckpt(5);
    let mut sim = Sim::new();
    assert_eq!(slice(&mut cell, &mut sim, 0).0, SliceStep::StageBegin(1));
    cell.note_begin_staged(0, 0);
    assert_eq!(slice(&mut cell, &mut sim, 0), (SliceStep::Rest(0), 0));
    cell.ckpt.on_frame_sealed(BEGIN);
    let opened = slice(&mut cell, &mut sim, 0);
    assert_eq!(opened, (SliceStep::OpenStream { id: 1, begin_lsn: BEGIN }, 1));
    assert_eq!(cell.note_stream_opened(ns_ids, v2, 0, SectionLease { offset: 0, len: 4096 }), 1);
    assert_eq!(slice(&mut cell, &mut sim, 0), (SliceStep::Rest(0), 0), "the header is in flight");
    assert_eq!(cell.on_ckpt_written().len, 4096);
    cell
}

/// Runs slices until the completion sync is issued.
fn drain(cell: &mut DurableCell, sim: &mut Sim) {
    for _ in 0..100 {
        match slice(cell, sim, 0).0 {
            SliceStep::Fill { .. } => {
                let CkptPhase::Stream(st) = &cell.ckpt.phase else { panic!("streaming") };
                if st.in_flight.is_some() {
                    cell.on_ckpt_written();
                }
            }
            SliceStep::Sync(seq) => {
                let CkptPhase::Stream(st) = &cell.ckpt.phase else { panic!("streaming") };
                assert_eq!(st.write_seq, seq);
                return;
            }
            other => panic!("{other:?}"),
        }
    }
    panic!("the image never drained");
}

fn index(id: u32) -> IdxSidecarMeta {
    IdxSidecarMeta { ns: 16, index_id: id, generation: 7, key_encoding_version: 1, fixed8: true }
}

#[test]
fn an_image_streams_its_sections_in_order_and_publishes_once() {
    let mut cell = streaming(config(), vec![16, 17, 18, 19], true);
    let mut sim = Sim::new();
    sim.live = (1..=5)
        .map(|id| LiveFile { id, data_len: 10, dead_bytes: 0, byte_exact: true })
        .collect();
    sim.blobs = vec![BlobRef { addr: 9, extent_id: 1, len: 2 }];
    sim.plan = vec![index(1), index(2)];
    sim.pairs = 2;
    drain(&mut cell, &mut sim);

    let kinds: Vec<&str> = sim.blocks.iter().map(|b| kind(b[0])).collect();
    assert_eq!(
        kinds,
        [
            "records", "records", "refs", "records", "records", "live", "live", "blobs", "index",
            "index"
        ]
    );
    for block in &sim.blocks {
        assert!(block.iter().all(|c| kind(*c) == kind(block[0])), "pure: {block:?}");
    }
    let live: Vec<Class> =
        sim.blocks.iter().flatten().copied().filter(|c| kind(*c) == "live").collect();
    assert_eq!(live, (1..=5).map(|id| Class::Live(17, id)).collect::<Vec<_>>());
    assert_eq!(sim.blocks.last().expect("blocks").last(), Some(&Class::Final(2, 2)));
    assert_eq!((sim.begun, sim.released, sim.ended), (1, 0, 1));
    let CkptPhase::Stream(st) = &cell.ckpt.phase else { panic!("streaming") };
    assert_eq!(st.bound_splits, 2, "one split per store of six images");

    assert_eq!(slice(&mut cell, &mut sim, 0), (SliceStep::Rest(0), 0));
    cell.on_ckpt_synced();
    assert_eq!(slice(&mut cell, &mut sim, 0), (SliceStep::Publish, 1));
    cell.note_published(77, 9_000, 500, 1 << 21, &[Some(1), None, Some(0)]);
    assert!(matches!(cell.ckpt.phase, CkptPhase::Idle));
    assert_eq!(cell.ckpt.walks_behind, 1);
    let stats = cell.ckpt_stats(0);
    assert_eq!((stats.completed, stats.bytes_last, stats.last_unix_ms), (1, 9_000, 77));
    assert_eq!(stats.interval_bytes, 1 << 21);
    assert_eq!(
        slice(&mut cell, &mut sim, 0),
        (SliceStep::Rest(0), 0),
        "a pending manifest holds the next trigger"
    );
}

#[test]
fn a_first_version_image_has_no_sidecars_and_an_empty_one_has_a_footer() {
    let mut cell = streaming(config(), vec![], false);
    let mut sim = Sim::new();
    sim.plan = vec![index(1)];
    drain(&mut cell, &mut sim);
    assert!(sim.blocks.is_empty());
    let CkptPhase::Stream(st) = &cell.ckpt.phase else { panic!("streaming") };
    assert!(st.footer_staged && st.sidecar_plan.is_none());
    assert!(!image_is_v2(&[false, false], false));
    assert!(image_is_v2(&[false, true], false));
    assert!(image_is_v2(&[], true));
}

#[test]
fn an_index_that_no_longer_stands_is_abandoned() {
    let mut cell = streaming(config(), vec![18], true);
    let mut sim = Sim::new();
    sim.plan = vec![index(1)];
    sim.eligible = false;
    drain(&mut cell, &mut sim);
    assert!(sim.blocks.is_empty(), "no pair, no final marker");
}

#[test]
fn a_deferred_block_stays_staged_and_a_leaked_pin_is_released() {
    let mut cell = streaming(config(), vec![17], true);
    let mut sim = Sim::new();
    sim.pinned = true;
    sim.grant = false;
    let (_, units) = slice(&mut cell, &mut sim, 0);
    assert_eq!(units, 1);
    assert!(sim.blocks.is_empty());
    assert_eq!(sim.pending.len(), 3, "the references stay staged");
    assert_eq!((sim.begun, sim.released), (1, 1));
    sim.grant = true;
    drain(&mut cell, &mut sim);
    assert_eq!(sim.blocks[0], vec![Class::Ref(17); 3]);
}

#[test]
fn a_slice_stops_at_its_bytes() {
    let cfg = CkptConfig { slice_bytes: 50, ..config() };
    let mut cell = streaming(cfg, vec![17], true);
    let mut sim = Sim::new();
    sim.section_cap = 1_000;
    sim.live = (1..=5)
        .map(|id| LiveFile { id, data_len: 10, dead_bytes: 0, byte_exact: true })
        .collect();
    // References fill the slice; nothing else is taken up in it.
    slice(&mut cell, &mut sim, 0);
    assert_eq!(sim.pending, vec![Class::Ref(17); 3]);
    let CkptPhase::Stream(st) = &cell.ckpt.phase else { panic!("streaming") };
    assert_eq!((st.streamed_bytes, st.tier_pass, st.in_flight), (72, 1, None));
}

#[test]
fn the_pace_holds_only_without_a_device_model() {
    let cfg = CkptConfig { stream_bytes_per_sec: 1_000, ..config() };
    let mut cell = streaming(cfg, vec![16], false);
    let step = |cell: &mut DurableCell, absent: bool, now_ms: u64| {
        matches!(cell.ckpt_slice(0, true, absent, now_ms * 1_000_000, 64), SliceStep::Fill { .. })
    };
    let CkptPhase::Stream(st) = &mut cell.ckpt.phase else { panic!("streaming") };
    st.streamed_bytes = 5;
    assert!(!step(&mut cell, true, 5));
    assert!(step(&mut cell, true, 6));
    assert!(step(&mut cell, false, 0));
}

#[test]
fn errors_abort_the_checkpoint_never_the_cell() {
    let mut cell = streaming(config(), vec![16], false);
    assert_eq!(cell.on_ckpt_error(EINVAL), Some(1));
    assert_eq!(cell.ckpt.io_mode(), CkptIoMode::Buffered);
    assert!(!cell.ckpt.tick_backoff(), "the other mode is tried at once");
    assert_eq!(cell.on_ckpt_error(EINVAL), None, "nothing is in progress");

    let mut cell = streaming(config(), vec![16], false);
    assert_eq!(cell.on_ckpt_error(5), Some(1));
    assert_eq!(cell.ckpt.io_mode(), CkptIoMode::Direct);
    assert_eq!(cell.ckpt.pending_id(), 2);
    assert!(!cell.failed);
    assert_eq!(cell.abort_ckpt(), None, "already idle");
    assert!(!cell.manifest.truncation_exempt(1));
    cell.failed = true;
    assert_eq!(cell.ckpt_slice(u64::MAX, true, false, 0, 64), SliceStep::Rest(0));
    assert!(matches!(cell.manifest_slice(None, 0, &[]), SwapAction::Nothing));
}

fn published() -> DurableCell {
    let mut cell = streaming(config(), vec![], false);
    drain(&mut cell, &mut Sim::new());
    cell.on_ckpt_synced();
    cell.note_published(77, 100, 0, 1 << 20, &[]);
    cell
}

fn plane() -> ControlHandle {
    ControlHandle::detached(1, 0, IndexFloor { first_id: 1, first_generation: 1, slots: 1 }).0
}

#[test]
fn a_manifest_slice_commits_publishes_and_truncates() {
    let mut cell = published();
    let mut control = plane();
    assert!(cell.truncation_targets(&[0, 1]).is_empty(), "no floor yet");
    assert!(matches!(cell.manifest_slice(None, 3, &[]), SwapAction::OpenCkptDir));
    let done = cell.manifest.swap_outcome(SwapOutcome::DirOpened);
    let slice = cell.finish_manifest_slice(done, vec![], Some(&mut control), 80);
    assert_eq!((slice.units, slice.syncs, slice.unlinks.len()), (1, 1, 0));
    cell.on_manifest_synced();
    let SwapAction::StageManifest(manifest) = cell.manifest_slice(Some(BEGIN), 3, &[]) else {
        panic!("the watermark covers the begin");
    };
    assert_eq!(manifest.segments, vec![2, 3]);
    cell.manifest.swap_outcome(SwapOutcome::StageWritten { manifest, bytes: 64 });
    cell.on_manifest_error();
    assert_eq!(cell.manifest_stats().aborted, 1);
    for _ in 0..=64 {
        assert!(matches!(cell.manifest_slice(Some(BEGIN), 3, &[]), SwapAction::Nothing));
    }
    let SwapAction::StageManifest(manifest) = cell.manifest_slice(Some(BEGIN), 3, &[]) else {
        panic!("the backoff ran out");
    };
    cell.manifest.swap_outcome(SwapOutcome::StageWritten { manifest, bytes: 64 });
    cell.on_manifest_synced();
    assert!(matches!(cell.manifest_slice(Some(BEGIN), 3, &[]), SwapAction::Rename));
    cell.manifest.swap_outcome(SwapOutcome::Renamed);
    cell.on_manifest_synced();
    assert!(matches!(cell.manifest_slice(Some(BEGIN), 3, &[]), SwapAction::Commit { .. }));
    let done = cell.manifest.swap_outcome(SwapOutcome::Committed { listed: vec![] });

    assert_eq!(cell.truncation_targets(&[0, 1]), vec![0, 1]);
    let disposals =
        vec![SealedDisposal::Recycled, SealedDisposal::Unlink(b"log/1".to_vec())];
    let slice = cell.finish_manifest_slice(done, disposals, Some(&mut control), 90);
    assert_eq!((slice.units, slice.syncs), (3, 0));
    assert!(matches!(&control.queue[..], [ControlMsg::Unlink(p)] if p == b"log/1"));
    assert_eq!(control.ckpt_board().slot(0).published(), 5, "the request's epoch");
    assert_eq!(control.ckpt_board().slot(0).last_unix_ms(), 90);
    assert_eq!(cell.manifest_stats().truncated_segments, 2);
}

#[test]
fn deletions_wait_for_a_full_control_queue_and_are_handed_back_without_one() {
    let mut cell = published();
    let mut control = plane();
    while control.queue.len() < CONTROL_QUEUE {
        assert!(control.request_unlink(b"filler".to_vec()));
    }
    let rest = SwapDone { units: 0, sync: None };
    let disposals = || {
        vec![SealedDisposal::Unlink(b"log/0".to_vec()), SealedDisposal::Unlink(b"log/1".to_vec())]
    };
    let slice = cell.finish_manifest_slice(rest, disposals(), Some(&mut control), 0);
    assert_eq!(slice.units, 2);
    assert_eq!(control.queue.len(), CONTROL_QUEUE);
    assert_eq!(cell.manifest.gc_queue, vec![b"log/0".to_vec(), b"log/1".to_vec()]);

    let mut cell = published();
    cell.manifest.defer_unlink(b"ckpt/0.ick".to_vec());
    let slice = cell.finish_manifest_slice(rest, disposals(), None, 0);
    assert_eq!(slice.units, 3);
    assert_eq!(
        slice.unlinks,
        vec![b"log/0".to_vec(), b"log/1".to_vec(), b"ckpt/0.ick".to_vec()]
    );
}

#[test]
fn a_checkpoint_begins_only_when_nothing_holds_it() {
    let begin = |cell: &mut DurableCell, fits: bool| cell.ckpt_slice(0, fits, false, 0, 64);
    let mut cell = cell_with(config());
    assert_eq!(begin(&mut cell, true), SliceStep::Rest(0), "not triggered");
    cell.request_ckpt(5);
    assert_eq!(begin(&mut cell, false), SliceStep::Rest(0), "the marker does not fit");
    assert_eq!(begin(&mut cell, true), SliceStep::StageBegin(1));
    cell.ckpt.backoff_slices = 1;
    assert_eq!(begin(&mut cell, true), SliceStep::Rest(0), "a backoff runs");
    assert_eq!(begin(&mut cell, true), SliceStep::StageBegin(1));
    cell.manifest.note_published_ick(1, BEGIN, 0);
    assert_eq!(begin(&mut cell, true), SliceStep::Rest(0), "a manifest is pending");

    let mut cell = streaming(config(), vec![], false);
    drain(&mut cell, &mut Sim::new());
    assert_eq!(begin(&mut cell, true), SliceStep::Rest(0), "the sync is in flight");
    cell.on_ckpt_synced();
    assert_eq!(begin(&mut cell, true), SliceStep::Publish);
}
