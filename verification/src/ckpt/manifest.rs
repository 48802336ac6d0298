//! The recovery-unit swap: a published image becomes the one that recovery
//! starts from once its manifest is staged, renamed and durably named. Every
//! durability barrier rides the driver, one in flight at a time.

use vstd::prelude::*;
use vstd::string::*;
use crate::ckpt::{MAX_TRUNC_PER_SLICE_ADAPTIVE, MAX_UNLINKS_PER_SLICE, RETRY_BACKOFF_SLICES};
use crate::control::handle::{ControlHandle, ControlMsg, CONTROL_QUEUE};
use crate::lsn::Lsn;
use crate::text;

verus! {

/// A published image awaiting its manifest.
#[derive(Copy, Clone, Debug, PartialEq, Eq, Structural)]
pub struct PendingManifest {
    pub ckpt_id: u64,
    pub begin_lsn: Lsn,
}

/// The recovery unit a manifest names: an image, the position it begins at,
/// the log segments from there to the tail, and the namespaces whose tiered
/// files it lists.
#[derive(Debug)]
pub struct Manifest {
    pub ckpt_id: u64,
    pub begin_lsn: Lsn,
    pub segments: Vec<u32>,
    pub tiers: Vec<u32>,
}

/// A namespace with tiered files, and whether its store stands.
#[derive(Copy, Clone, Debug, PartialEq, Eq, Structural)]
pub struct TieredNs {
    pub ns: u32,
    pub stands: bool,
}

/// The namespaces whose store stands, in order.
pub open spec fn standing(tiered: Seq<TieredNs>) -> Seq<u32>
    decreases tiered.len(),
{
    if tiered.len() == 0 {
        Seq::empty()
    } else if tiered.last().stands {
        standing(tiered.drop_last()).push(tiered.last().ns)
    } else {
        standing(tiered.drop_last())
    }
}

/// Cumulative manifest and truncation gauges.
#[derive(Copy, Clone, Debug, PartialEq, Eq, Structural)]
pub struct ManifestStats {
    pub published: u64,
    /// Manifest bytes written and barriers issued.
    pub bytes_written: u64,
    pub syncs_issued: u64,
    /// Failed swaps: counted, old recovery unit kept.
    pub aborted: u64,
    pub truncated_segments: u64,
    pub ick_orphans_removed: u64,
}

impl Default for ManifestStats {
    fn default() -> (r: ManifestStats)
        ensures
            r == no_manifest_stats(),
    {
        ManifestStats {
            published: 0,
            bytes_written: 0,
            syncs_issued: 0,
            aborted: 0,
            truncated_segments: 0,
            ick_orphans_removed: 0,
        }
    }
}

/// All gauges zero.
pub open spec fn no_manifest_stats() -> ManifestStats {
    ManifestStats {
        published: 0,
        bytes_written: 0,
        syncs_issued: 0,
        aborted: 0,
        truncated_segments: 0,
        ick_orphans_removed: 0,
    }
}

/// Where the recovery-unit transition stands.
#[derive(Debug)]
pub enum SwapPhase {
    /// An aborted swap waiting out its retry backoff.
    Backoff { pending: PendingManifest, slices: u32 },
    Idle,
    /// The image was renamed; its directory barrier is not queued yet.
    IckDirPending { pending: PendingManifest },
    /// The directory barrier is in flight.
    IckDirQueued { pending: PendingManifest },
    /// The image is durably named; the durable watermark must cover its begin.
    WatermarkWait { pending: PendingManifest },
    /// The staged manifest's barrier is in flight.
    StageQueued { manifest: Manifest },
    /// The staged manifest is durable; the rename comes next.
    StageSynced { manifest: Manifest },
    /// Renamed; the commit barrier is in flight.
    DirQueued { manifest: Manifest },
    /// The commit barrier landed.
    DirSynced { manifest: Manifest },
    /// An in-flight step failed; clean up next.
    Failed,
}

/// What the driver of the machine does next.
#[derive(Debug)]
pub enum SwapAction {
    Nothing,
    /// Remove the staging file, best effort.
    RemoveStaging,
    /// Open the checkpoint directory.
    OpenCkptDir,
    /// Unlink a stale staging file, then create and write this manifest.
    StageManifest(Manifest),
    /// Rename the staged manifest and open the shard directory.
    Rename,
    /// Commit the file retirements of these namespaces, then list the
    /// checkpoint directory.
    Commit { tiers: Vec<u32> },
}

/// What came of an action.
#[derive(Debug)]
pub enum SwapOutcome {
    StagingRemoved,
    DirOpened,
    DirOpenFailed,
    /// The stale staging file could not be unlinked.
    StaleUnlinkFailed,
    StageWritten { manifest: Manifest, bytes: u64 },
    StageFailed,
    Renamed,
    RenameFailed,
    Committed { listed: Vec<ListedFile> },
}

/// A file of the checkpoint directory: its name, its path, and the image id
/// its name carries.
#[derive(Debug)]
pub struct ListedFile {
    pub name: Vec<u8>,
    pub path: Vec<u8>,
    pub image: Option<u64>,
}

/// What a slice charges, and the sequence number of the barrier it queues.
#[derive(Copy, Clone, Debug, PartialEq, Eq, Structural)]
pub struct SwapDone {
    pub units: u32,
    pub sync: Option<u64>,
}

/// The segments from `first` to `last`, in order.
pub open spec fn segment_run(first: u32, last: u32) -> Seq<u32> {
    Seq::new(
        if first <= last {
            (last - first + 1) as nat
        } else {
            0
        },
        |i: int| (first + i) as u32,
    )
}

/// Whether the publication guard is satisfied: the durable watermark covers
/// the begin position.
pub open spec fn covered(watermark: Option<u64>, pending: PendingManifest) -> bool {
    watermark matches Some(w) && w >= pending.begin_lsn.packed()
}

/// Whether an action is the one owed in a phase.
pub open spec fn owed(
    phase: SwapPhase,
    watermark: Option<u64>,
    active: u32,
    tiered: Seq<TieredNs>,
    action: SwapAction,
) -> bool {
    match phase {
        SwapPhase::Failed => action is RemoveStaging,
        SwapPhase::IckDirPending { .. } => action is OpenCkptDir,
        SwapPhase::WatermarkWait { pending } => if covered(watermark, pending) {
            action matches SwapAction::StageManifest(m) && m.ckpt_id == pending.ckpt_id
                && m.begin_lsn == pending.begin_lsn && m.segments@ == segment_run(
                pending.begin_lsn.segment,
                active,
            ) && m.tiers@ == standing(tiered)
        } else {
            action is Nothing
        },
        SwapPhase::StageSynced { .. } => action is Rename,
        SwapPhase::DirSynced { .. } => action matches SwapAction::Commit { tiers } && tiers@
            == standing(tiered),
        _ => action is Nothing,
    }
}

/// The phase after a slice that only waits: a backoff counts down and then
/// returns to the watermark check; every other phase stays.
pub open spec fn waited(phase: SwapPhase) -> SwapPhase {
    match phase {
        SwapPhase::Backoff { pending, slices } => if slices == 0 {
            SwapPhase::WatermarkWait { pending }
        } else {
            SwapPhase::Backoff { pending, slices: (slices - 1) as u32 }
        },
        other => other,
    }
}

/// Whether an outcome answers the action owed in a phase.
pub open spec fn answers(phase: SwapPhase, outcome: SwapOutcome) -> bool {
    match outcome {
        SwapOutcome::StagingRemoved => phase is Failed,
        SwapOutcome::DirOpened => phase is IckDirPending,
        SwapOutcome::DirOpenFailed => phase is IckDirPending,
        SwapOutcome::StaleUnlinkFailed => phase is WatermarkWait,
        SwapOutcome::StageWritten { manifest, .. } => phase matches SwapPhase::WatermarkWait {
            pending,
        } && manifest.ckpt_id == pending.ckpt_id && manifest.begin_lsn == pending.begin_lsn,
        SwapOutcome::StageFailed => phase is WatermarkWait,
        SwapOutcome::Renamed => phase is StageSynced,
        SwapOutcome::RenameFailed => phase is StageSynced,
        SwapOutcome::Committed { .. } => phase is DirSynced,
    }
}

/// The transition a phase carries.
pub open spec fn transition_of(phase: SwapPhase) -> Option<PendingManifest> {
    match phase {
        SwapPhase::Backoff { pending, .. } => Some(pending),
        SwapPhase::Idle => None,
        SwapPhase::IckDirPending { pending } => Some(pending),
        SwapPhase::IckDirQueued { pending } => Some(pending),
        SwapPhase::WatermarkWait { pending } => Some(pending),
        SwapPhase::StageQueued { manifest } => Some(
            PendingManifest { ckpt_id: manifest.ckpt_id, begin_lsn: manifest.begin_lsn },
        ),
        SwapPhase::StageSynced { manifest } => Some(
            PendingManifest { ckpt_id: manifest.ckpt_id, begin_lsn: manifest.begin_lsn },
        ),
        SwapPhase::DirQueued { manifest } => Some(
            PendingManifest { ckpt_id: manifest.ckpt_id, begin_lsn: manifest.begin_lsn },
        ),
        SwapPhase::DirSynced { manifest } => Some(
            PendingManifest { ckpt_id: manifest.ckpt_id, begin_lsn: manifest.begin_lsn },
        ),
        SwapPhase::Failed => None,
    }
}

/// The phase that retries a failed step after the backoff.
pub open spec fn retry_of(phase: SwapPhase) -> SwapPhase {
    SwapPhase::Backoff { pending: transition_of(phase)->0, slices: RETRY_BACKOFF_SLICES }
}

/// Whether a barrier is in flight.
pub open spec fn barrier_in_flight(phase: SwapPhase) -> bool {
    phase is IckDirQueued || phase is StageQueued || phase is DirQueued
}

/// Whether a listed file is garbage once `named` is the image the manifest
/// names: another image, or a staging file left behind.
pub open spec fn stale(f: ListedFile, named: Option<u64>) -> bool {
    (f.image is Some && f.image != named) || text::has_suffix(
        f.name@,
        text::utf8(".ick.new"@),
    )
}

/// The paths of the stale files, in listing order.
pub open spec fn stale_paths(listed: Seq<ListedFile>, named: Option<u64>) -> Seq<Seq<u8>>
    decreases listed.len(),
{
    if listed.len() == 0 {
        Seq::empty()
    } else {
        let rest = stale_paths(listed.drop_last(), named);
        if stale(listed.last(), named) {
            rest.push(listed.last().path@)
        } else {
            rest
        }
    }
}

/// The swap machine of one cell.
#[derive(Debug)]
pub struct ManifestCell {
    pub cell: u16,
    /// Truncation floor from the durable manifest.
    pub floor: Option<u32>,
    /// The image the durable manifest names.
    pub named_ckpt: Option<u64>,
    /// The request epoch the transition in flight satisfies.
    pub pending_epoch: u64,
    /// Epoch and image id of a commit not yet reported.
    pub just_published: Option<(u64, u64)>,
    pub phase: SwapPhase,
    pub sync_seq: u64,
    /// Paths of stale files to unlink.
    pub gc_queue: Vec<Vec<u8>>,
    pub stats: ManifestStats,
}

/// The contents of a queue of paths.
pub open spec fn paths(q: Seq<Vec<u8>>) -> Seq<Seq<u8>> {
    q.map_values(|n: Vec<u8>| n@)
}

fn segment_list(first: u32, last: u32) -> (r: Vec<u32>)
    ensures
        r@ == segment_run(first, last),
{
    let mut out: Vec<u32> = Vec::new();
    let mut i: u64 = first as u64;
    while i <= last as u64
        invariant
            first <= i,
            i <= last + 1 || i == first,
            out.len() == i - first,
            forall|k: int| 0 <= k < out.len() ==> #[trigger] out@[k] == first + k,
        decreases last + 1 - i,
    {
        out.push(i as u32);
        i += 1;
    }
    proof {
        assert(out@ =~= segment_run(first, last));
    }
    out
}

fn standing_list(tiered: &[TieredNs]) -> (r: Vec<u32>)
    ensures
        r@ == standing(tiered@),
{
    let mut out: Vec<u32> = Vec::new();
    let mut i: usize = 0;
    proof {
        assert(tiered@.take(0) =~= Seq::empty());
    }
    while i < tiered.len()
        invariant
            i <= tiered.len(),
            out@ == standing(tiered@.take(i as int)),
        decreases tiered.len() - i,
    {
        proof {
            assert(tiered@.take(i + 1).drop_last() =~= tiered@.take(i as int));
        }
        if tiered[i].stands {
            out.push(tiered[i].ns);
        }
        i += 1;
    }
    proof {
        assert(tiered@.take(i as int) =~= tiered@);
    }
    out
}

impl ManifestCell {
    /// The machine at boot; `recovered` is the recovery unit that boot loaded.
    pub fn new(cell: u16, recovered: Option<PendingManifest>) -> (r: ManifestCell)
        ensures
            r.cell == cell,
            r.floor == (match recovered {
                Some(m) => Some(m.begin_lsn.segment),
                None => None,
            }),
            r.named_ckpt == (match recovered {
                Some(m) => Some(m.ckpt_id),
                None => None,
            }),
            r.pending_epoch == 0,
            r.just_published is None,
            r.phase == SwapPhase::Idle,
            r.sync_seq == 0,
            r.gc_queue@ == Seq::<Vec<u8>>::empty(),
            r.stats == no_manifest_stats(),
    {
        let (floor, named_ckpt) = match recovered {
            Some(m) => (Some(m.begin_lsn.segment), Some(m.ckpt_id)),
            None => (None, None),
        };
        ManifestCell {
            cell,
            floor,
            named_ckpt,
            pending_epoch: 0,
            just_published: None,
            phase: SwapPhase::Idle,
            sync_seq: 0,
            gc_queue: Vec::new(),
            stats: ManifestStats::default(),
        }
    }

    /// The truncation floor: sealed segments below it are deletable.
    pub fn floor(&self) -> (r: Option<u32>)
        ensures
            r == self.floor,
    {
        self.floor
    }

    /// Whether no transition is in flight.
    pub fn idle(&self) -> (r: bool)
        ensures
            r == (self.phase is Idle),
    {
        match &self.phase {
            SwapPhase::Idle => true,
            _ => false,
        }
    }

    /// Whether a segment is exempt from truncation: none is.
    pub fn truncation_exempt(&self, segment: u32) -> (r: bool)
        ensures
            !r,
    {
        false
    }

    /// An image was renamed to its final name: begin the transition.
    pub fn note_published_ick(&mut self, ckpt_id: u64, begin_lsn: Lsn, epoch: u64)
        requires
            old(self).phase is Idle,
        ensures
            *final(self) == (ManifestCell {
                pending_epoch: epoch,
                phase: SwapPhase::IckDirPending {
                    pending: PendingManifest { ckpt_id: ckpt_id, begin_lsn: begin_lsn },
                },
                ..*old(self)
            }),
    {
        self.pending_epoch = epoch;
        self.phase = SwapPhase::IckDirPending { pending: PendingManifest { ckpt_id, begin_lsn } };
    }

    /// The owning cell.
    pub fn cell(&self) -> (r: u16)
        ensures
            r == self.cell,
    {
        self.cell
    }

    /// Takes the commit not yet reported: epoch and image id.
    pub fn take_published(&mut self) -> (r: Option<(u64, u64)>)
        ensures
            r == old(self).just_published,
            *final(self) == (ManifestCell { just_published: None, ..*old(self) }),
    {
        let r = self.just_published;
        self.just_published = None;
        r
    }

    /// A barrier landed: advance the phase.
    pub fn on_synced(&mut self)
        requires
            barrier_in_flight(old(self).phase),
        ensures
            *final(self) == (ManifestCell {
                phase: synced_phase(old(self).phase),
                ..*old(self)
            }),
    {
        let mut phase = SwapPhase::Failed;
        std::mem::swap(&mut phase, &mut self.phase);
        self.phase = match phase {
            SwapPhase::IckDirQueued { pending } => SwapPhase::WatermarkWait { pending },
            SwapPhase::StageQueued { manifest } => SwapPhase::StageSynced { manifest },
            SwapPhase::DirQueued { manifest } => SwapPhase::DirSynced { manifest },
            other => other,
        };
    }

    /// A barrier failed: the old recovery unit is kept, and the transition is
    /// retried after the backoff.
    pub fn on_sync_error(&mut self)
        requires
            barrier_in_flight(old(self).phase),
            old(self).stats.aborted < u64::MAX,
        ensures
            *final(self) == (ManifestCell {
                phase: retry_of(old(self).phase),
                stats: ManifestStats {
                    aborted: (old(self).stats.aborted + 1) as u64,
                    ..old(self).stats
                },
                ..*old(self)
            }),
    {
        self.retry();
    }

    fn retry(&mut self)
        requires
            transition_of(old(self).phase) is Some,
            old(self).stats.aborted < u64::MAX,
        ensures
            *final(self) == (ManifestCell {
                phase: retry_of(old(self).phase),
                stats: ManifestStats {
                    aborted: (old(self).stats.aborted + 1) as u64,
                    ..old(self).stats
                },
                ..*old(self)
            }),
    {
        self.stats.aborted += 1;
        let pending = match &self.phase {
            SwapPhase::Backoff { pending, .. } => *pending,
            SwapPhase::IckDirPending { pending } => *pending,
            SwapPhase::IckDirQueued { pending } => *pending,
            SwapPhase::WatermarkWait { pending } => *pending,
            SwapPhase::StageQueued { manifest } => PendingManifest {
                ckpt_id: manifest.ckpt_id,
                begin_lsn: manifest.begin_lsn,
            },
            SwapPhase::StageSynced { manifest } => PendingManifest {
                ckpt_id: manifest.ckpt_id,
                begin_lsn: manifest.begin_lsn,
            },
            SwapPhase::DirQueued { manifest } => PendingManifest {
                ckpt_id: manifest.ckpt_id,
                begin_lsn: manifest.begin_lsn,
            },
            SwapPhase::DirSynced { manifest } => PendingManifest {
                ckpt_id: manifest.ckpt_id,
                begin_lsn: manifest.begin_lsn,
            },
            _ => PendingManifest { ckpt_id: 0, begin_lsn: Lsn { segment: 0, offset: 0 } },
        };
        self.phase = SwapPhase::Backoff { pending, slices: RETRY_BACKOFF_SLICES };
    }

    /// One maintenance slice: the action the phase owes. `watermark` is the
    /// durable watermark (packed), `active` the tail segment, `tiered` the
    /// namespaces with tiered files. A backoff counts down here; every other
    /// phase waits for the action's outcome.
    pub fn swap_slice(
        &mut self,
        watermark: Option<u64>,
        active: u32,
        tiered: &[TieredNs],
    ) -> (r: SwapAction)
        ensures
            owed(old(self).phase, watermark, active, tiered@, r),
            *final(self) == (ManifestCell { phase: waited(old(self).phase), ..*old(self) }),
            r matches SwapAction::StageManifest(m) ==> (forall|s: u32|
                m.segments@.contains(s) <==> m.begin_lsn.segment <= s <= active),
    {
        let mut next: Option<SwapPhase> = None;
        let action = match &self.phase {
            SwapPhase::Backoff { pending, slices } => {
                let pending: PendingManifest = *pending;
                let slices: u32 = *slices;
                next =
                if slices == 0 {
                    Some(SwapPhase::WatermarkWait { pending })
                } else {
                    Some(SwapPhase::Backoff { pending, slices: slices - 1 })
                };
                SwapAction::Nothing
            },
            SwapPhase::Failed => SwapAction::RemoveStaging,
            SwapPhase::IckDirPending { .. } => SwapAction::OpenCkptDir,
            SwapPhase::WatermarkWait { pending } => {
                let ready = match watermark {
                    Some(w) => w >= pending.begin_lsn.to_u64(),
                    None => false,
                };
                if ready {
                    SwapAction::StageManifest(
                        Manifest {
                            ckpt_id: pending.ckpt_id,
                            begin_lsn: pending.begin_lsn,
                            segments: segment_list(pending.begin_lsn.segment, active),
                            tiers: standing_list(tiered),
                        },
                    )
                } else {
                    SwapAction::Nothing
                }
            },
            SwapPhase::StageSynced { .. } => SwapAction::Rename,
            SwapPhase::DirSynced { .. } => SwapAction::Commit { tiers: standing_list(tiered) },
            _ => SwapAction::Nothing,
        };
        proof {
            if action is StageManifest {
                law_manifest_spans_the_log(
                    old(self).phase,
                    watermark,
                    active,
                    tiered@,
                    action->StageManifest_0,
                );
            }
        }
        if let Some(phase) = next {
            self.phase = phase;
        }
        action
    }

    /// Whether the counters an outcome raises have room.
    pub open spec fn can_count(&self, outcome: SwapOutcome) -> bool {
        match outcome {
            SwapOutcome::DirOpened | SwapOutcome::Renamed => self.can_queue(),
            SwapOutcome::StageWritten { bytes, .. } => self.can_queue() && self.stats.bytes_written
                + bytes <= u64::MAX,
            SwapOutcome::Committed { .. } => self.stats.published < u64::MAX,
            _ => self.stats.aborted < u64::MAX,
        }
    }

    /// Whether one more barrier can be counted.
    pub open spec fn can_queue(&self) -> bool {
        self.stats.syncs_issued < u64::MAX && self.sync_seq < u64::MAX
    }

    /// The machine after a step that queued a barrier.
    pub open spec fn with_barrier(&self, phase: SwapPhase, bytes: u64) -> ManifestCell {
        ManifestCell {
            phase: phase,
            sync_seq: (self.sync_seq + 1) as u64,
            stats: ManifestStats {
                bytes_written: (self.stats.bytes_written + bytes) as u64,
                syncs_issued: (self.stats.syncs_issued + 1) as u64,
                ..self.stats
            },
            ..*self
        }
    }

    /// The machine after a failed step.
    pub open spec fn with_retry(&self) -> ManifestCell {
        ManifestCell {
            phase: retry_of(self.phase),
            stats: ManifestStats { aborted: (self.stats.aborted + 1) as u64, ..self.stats },
            ..*self
        }
    }

    /// What an outcome does to the machine.
    pub open spec fn takes(&self, outcome: SwapOutcome, next: ManifestCell, done: SwapDone) -> bool {
        let barrier = Some((self.sync_seq + 1) as u64);
        match outcome {
            SwapOutcome::StagingRemoved => {
                &&& next == ManifestCell {
                    phase: SwapPhase::Idle,
                    stats: ManifestStats { aborted: (self.stats.aborted + 1) as u64, ..self.stats },
                    ..*self
                }
                &&& done == SwapDone { units: 1, sync: None }
            },
            SwapOutcome::DirOpened => {
                &&& next == self.with_barrier(
                    SwapPhase::IckDirQueued { pending: transition_of(self.phase)->0 },
                    0,
                )
                &&& done == SwapDone { units: 1, sync: barrier }
            },
            SwapOutcome::DirOpenFailed => {
                &&& next == self.with_retry()
                &&& done == SwapDone { units: 1, sync: None }
            },
            SwapOutcome::StaleUnlinkFailed => {
                &&& next == self.with_retry()
                &&& done == SwapDone { units: 1, sync: None }
            },
            SwapOutcome::StageWritten { manifest, bytes } => {
                &&& next == self.with_barrier(SwapPhase::StageQueued { manifest: manifest }, bytes)
                &&& done == SwapDone { units: 3, sync: barrier }
            },
            SwapOutcome::StageFailed => {
                &&& next == self.with_retry()
                &&& done == SwapDone { units: 1, sync: None }
            },
            SwapOutcome::Renamed => {
                &&& next == self.with_barrier(
                    SwapPhase::DirQueued { manifest: self.phase->StageSynced_manifest },
                    0,
                )
                &&& done == SwapDone { units: 2, sync: barrier }
            },
            SwapOutcome::RenameFailed => {
                &&& next == self.with_retry()
                &&& done == SwapDone { units: 1, sync: None }
            },
            SwapOutcome::Committed { listed } => {
                let m = transition_of(self.phase)->0;
                &&& next == ManifestCell {
                    floor: Some(m.begin_lsn.segment),
                    named_ckpt: Some(m.ckpt_id),
                    just_published: Some((self.pending_epoch, m.ckpt_id)),
                    phase: SwapPhase::Idle,
                    stats: ManifestStats {
                        published: (self.stats.published + 1) as u64,
                        ..self.stats
                    },
                    gc_queue: next.gc_queue,
                    ..*self
                }
                &&& paths(next.gc_queue@) == paths(self.gc_queue@) + stale_paths(
                    listed@,
                    Some(m.ckpt_id),
                )
                &&& done == SwapDone { units: 1, sync: None }
            },
        }
    }

    /// Takes the outcome of the action the last slice asked for. A directory
    /// that could not be listed counts as empty.
    pub fn swap_outcome(&mut self, outcome: SwapOutcome) -> (r: SwapDone)
        requires
            answers(old(self).phase, outcome),
            old(self).can_count(outcome),
        ensures
            old(self).takes(outcome, *final(self), r),
    {
        match outcome {
            SwapOutcome::StagingRemoved => {
                self.phase = SwapPhase::Idle;
                self.stats.aborted += 1;
                SwapDone { units: 1, sync: None }
            },
            SwapOutcome::DirOpened => {
                let mut phase = SwapPhase::Failed;
                std::mem::swap(&mut phase, &mut self.phase);
                if let SwapPhase::IckDirPending { pending } = phase {
                    self.phase = SwapPhase::IckDirQueued { pending };
                }
                self.queue_barrier(1)
            },
            SwapOutcome::DirOpenFailed => {
                self.retry();
                SwapDone { units: 1, sync: None }
            },
            SwapOutcome::StaleUnlinkFailed => {
                self.retry();
                SwapDone { units: 1, sync: None }
            },
            SwapOutcome::StageWritten { manifest, bytes } => {
                self.stats.bytes_written += bytes;
                self.phase = SwapPhase::StageQueued { manifest };
                self.queue_barrier(3)
            },
            SwapOutcome::StageFailed => {
                self.retry();
                SwapDone { units: 1, sync: None }
            },
            SwapOutcome::Renamed => {
                let mut phase = SwapPhase::Failed;
                std::mem::swap(&mut phase, &mut self.phase);
                if let SwapPhase::StageSynced { manifest } = phase {
                    self.phase = SwapPhase::DirQueued { manifest };
                }
                self.queue_barrier(2)
            },
            SwapOutcome::RenameFailed => {
                self.retry();
                SwapDone { units: 1, sync: None }
            },
            SwapOutcome::Committed { listed } => {
                if let SwapPhase::DirSynced { manifest } = &self.phase {
                    let ckpt_id: u64 = manifest.ckpt_id;
                    let segment: u32 = manifest.begin_lsn.segment;
                    self.floor = Some(segment);
                    self.named_ckpt = Some(ckpt_id);
                    self.stats.published += 1;
                    self.just_published = Some((self.pending_epoch, ckpt_id));
                }
                self.phase = SwapPhase::Idle;
                self.fill_gc_queue(listed.as_slice());
                SwapDone { units: 1, sync: None }
            },
        }
    }

    fn queue_barrier(&mut self, units: u32) -> (r: SwapDone)
        requires
            old(self).can_queue(),
        ensures
            r == (SwapDone { units: units, sync: Some((old(self).sync_seq + 1) as u64) }),
            *final(self) == (ManifestCell {
                sync_seq: (old(self).sync_seq + 1) as u64,
                stats: ManifestStats {
                    syncs_issued: (old(self).stats.syncs_issued + 1) as u64,
                    ..old(self).stats
                },
                ..*old(self)
            }),
    {
        self.sync_seq += 1;
        self.stats.syncs_issued += 1;
        SwapDone { units, sync: Some(self.sync_seq) }
    }

    /// Queues every listed image that the manifest does not name and every
    /// staging file left behind.
    pub fn fill_gc_queue(&mut self, listed: &[ListedFile])
        ensures
            *final(self) == (ManifestCell { gc_queue: final(self).gc_queue, ..*old(self) }),
            paths(final(self).gc_queue@) == paths(old(self).gc_queue@) + stale_paths(
                listed@,
                old(self).named_ckpt,
            ),
    {
        let ghost before = *self;
        let mut i: usize = 0;
        proof {
            assert(listed@.take(0) =~= Seq::empty());
        }
        while i < listed.len()
            invariant
                i <= listed.len(),
                *self == (ManifestCell { gc_queue: self.gc_queue, ..before }),
                paths(self.gc_queue@) == paths(before.gc_queue@) + stale_paths(
                    listed@.take(i as int),
                    before.named_ckpt,
                ),
            decreases listed.len() - i,
        {
            let f = &listed[i];
            let stale_ick = match f.image {
                Some(id) => match self.named_ckpt {
                    Some(named) => id != named,
                    None => true,
                },
                None => false,
            };
            proof {
                assert(listed@.take(i + 1).drop_last() =~= listed@.take(i as int));
                assert(listed@.take(i + 1).last() == *f);
            }
            if stale_ick || is_staging_name(f.name.as_slice()) {
                let ghost held = self.gc_queue@;
                let path = text::copy_bytes(f.path.as_slice());
                self.gc_queue.push(path);
                proof {
                    assert(paths(self.gc_queue@) =~= paths(held).push(f.path@));
                }
            }
            i += 1;
        }
        proof {
            assert(listed@.take(i as int) =~= listed@);
        }
    }

    /// A path whose delegated unlink must be retried joins the queue.
    pub fn defer_unlink(&mut self, path: Vec<u8>)
        ensures
            *final(self) == (ManifestCell { gc_queue: final(self).gc_queue, ..*old(self) }),
            final(self).gc_queue@ == old(self).gc_queue@.push(path),
    {
        self.gc_queue.push(path);
    }

    /// Takes up to `budget` queued unlinks off the queue's end: delegated to
    /// the control plane where there is one and as far as its queue has room,
    /// else handed back for the caller to perform. How many were taken, and
    /// the paths to unlink at once.
    pub fn gc_slice(&mut self, budget: u32, control: Option<&mut ControlHandle>) -> (r: (
        u32,
        Vec<Vec<u8>>,
    ))
        requires
            old(self).stats.ick_orphans_removed + budget <= u64::MAX,
        ensures
            r.0 == gc_count(
                old(self).gc_queue@.len(),
                budget,
                match control {
                    Some(c) => Some(c.queue@.len()),
                    None => None,
                },
            ),
            final(self).gc_queue@ == old(self).gc_queue@.take(old(self).gc_queue@.len() - r.0),
            *final(self) == (ManifestCell {
                gc_queue: final(self).gc_queue,
                stats: ManifestStats {
                    ick_orphans_removed: (old(self).stats.ick_orphans_removed + r.0) as u64,
                    ..old(self).stats
                },
                ..*old(self)
            }),
            match control {
                Some(c) => r.1@.len() == 0 && final(c).queue@ == c.queue@ + delegated(
                    taken(old(self).gc_queue@, r.0 as nat),
                ) && *final(c) == (ControlHandle { queue: final(c).queue, ..*c }),
                None => r.1@ == taken(old(self).gc_queue@, r.0 as nat),
            },
    {
        let ghost before = self.gc_queue@;
        let mut done: u32 = 0;
        match control {
            Some(c) => {
                let ghost queued = c.queue@;
                let ghost start = *c;
                proof {
                    assert(before.take(before.len() as int) =~= before);
                    assert(queued =~= queued + delegated(taken(before, 0)));
                }
                while done < budget && self.gc_queue.len() > 0 && c.queue.len() < CONTROL_QUEUE
                    invariant
                        done <= budget,
                        done <= before.len(),
                        old(self).stats.ick_orphans_removed + budget <= u64::MAX,
                        self.gc_queue@ == before.take(before.len() - done),
                        c.queue@ == queued + delegated(taken(before, done as nat)),
                        c.queue@.len() == queued.len() + done,
                        done > 0 ==> c.queue@.len() <= CONTROL_QUEUE,
                        *c == (ControlHandle { queue: c.queue, ..start }),
                        *self == (ManifestCell {
                            gc_queue: self.gc_queue,
                            stats: ManifestStats {
                                ick_orphans_removed: (old(self).stats.ick_orphans_removed
                                    + done) as u64,
                                ..old(self).stats
                            },
                            ..*old(self)
                        }),
                    decreases budget - done,
                {
                    let ghost held = self.gc_queue@;
                    let ghost sent = c.queue@;
                    if let Some(path) = self.gc_queue.pop() {
                        let _ = c.request_unlink(path);
                        self.stats.ick_orphans_removed += 1;
                        done += 1;
                        proof {
                            assert(self.gc_queue@ =~= before.take(before.len() - done));
                            assert(taken(before, done as nat) =~= taken(
                                before,
                                (done - 1) as nat,
                            ).push(path));
                            assert(c.queue@ =~= queued + delegated(taken(before, done as nat)));
                        }
                    }
                }
                (done, Vec::new())
            },
            None => {
                let mut paths: Vec<Vec<u8>> = Vec::new();
                proof {
                    assert(before.take(before.len() as int) =~= before);
                    assert(paths@ =~= taken(before, 0));
                }
                while done < budget && self.gc_queue.len() > 0
                    invariant
                        done <= budget,
                        done <= before.len(),
                        old(self).stats.ick_orphans_removed + budget <= u64::MAX,
                        self.gc_queue@ == before.take(before.len() - done),
                        paths@ == taken(before, done as nat),
                        *self == (ManifestCell {
                            gc_queue: self.gc_queue,
                            stats: ManifestStats {
                                ick_orphans_removed: (old(self).stats.ick_orphans_removed
                                    + done) as u64,
                                ..old(self).stats
                            },
                            ..*old(self)
                        }),
                    decreases budget - done,
                {
                    if let Some(path) = self.gc_queue.pop() {
                        paths.push(path);
                        self.stats.ick_orphans_removed += 1;
                        done += 1;
                        proof {
                            assert(self.gc_queue@ =~= before.take(before.len() - done));
                            assert(paths@ =~= taken(before, done as nat));
                        }
                    }
                }
                (done, paths)
            },
        }
    }

    /// Counts truncated segments.
    pub fn note_truncated(&mut self, n: u64)
        requires
            old(self).stats.truncated_segments + n <= u64::MAX,
        ensures
            *final(self) == (ManifestCell {
                stats: ManifestStats {
                    truncated_segments: (old(self).stats.truncated_segments + n) as u64,
                    ..old(self).stats
                },
                ..*old(self)
            }),
    {
        self.stats.truncated_segments += n;
    }

    /// The machine after a slice's truncations and deletions, its commit
    /// reported.
    pub open spec fn drained(&self, gc_queue: Vec<Vec<u8>>, truncated: nat, gone: nat) -> ManifestCell {
        ManifestCell {
            just_published: None,
            gc_queue: gc_queue,
            stats: ManifestStats {
                truncated_segments: (self.stats.truncated_segments + truncated) as u64,
                ick_orphans_removed: (self.stats.ick_orphans_removed + gone) as u64,
                ..self.stats
            },
            ..*self
        }
    }

    /// The gauges.
    pub fn stats(&self) -> (r: ManifestStats)
        ensures
            r == self.stats,
    {
        self.stats
    }
}

/// The phase once its barrier landed.
pub open spec fn synced_phase(phase: SwapPhase) -> SwapPhase {
    match phase {
        SwapPhase::IckDirQueued { pending } => SwapPhase::WatermarkWait { pending },
        SwapPhase::StageQueued { manifest } => SwapPhase::StageSynced { manifest },
        SwapPhase::DirQueued { manifest } => SwapPhase::DirSynced { manifest },
        other => other,
    }
}

/// How many unlinks a slice takes: the budget, the queue and the room of the
/// control plane bound it.
pub open spec fn gc_count(queued: nat, budget: u32, control: Option<nat>) -> nat {
    let bound = if queued <= budget {
        queued
    } else {
        budget as nat
    };
    match control {
        None => bound,
        Some(len) => {
            let room = if len <= CONTROL_QUEUE {
                (CONTROL_QUEUE - len) as nat
            } else {
                0
            };
            if bound <= room {
                bound
            } else {
                room
            }
        },
    }
}

/// The last `n` paths of the queue, newest first.
pub open spec fn taken(queue: Seq<Vec<u8>>, n: nat) -> Seq<Vec<u8>> {
    Seq::new(n, |i: int| queue[queue.len() - 1 - i])
}

/// The messages that delegate these unlinks.
pub open spec fn delegated(paths: Seq<Vec<u8>>) -> Seq<ControlMsg> {
    paths.map_values(|p: Vec<u8>| ControlMsg::Unlink(p))
}

fn is_staging_name(name: &[u8]) -> (r: bool)
    ensures
        r == text::has_suffix(name@, text::utf8(".ick.new"@)),
{
    text::ends_with(name, ".ick.new".as_bytes())
}

/// Half of the backlog, at least the fixed cap, at most the adaptive ceiling.
pub open spec fn trunc_budget(backlog: nat) -> nat {
    let half = (backlog + 1) / 2;
    let raised = if half > MAX_UNLINKS_PER_SLICE {
        half
    } else {
        MAX_UNLINKS_PER_SLICE as nat
    };
    if raised > MAX_TRUNC_PER_SLICE_ADAPTIVE {
        MAX_TRUNC_PER_SLICE_ADAPTIVE as nat
    } else {
        raised
    }
}

/// How many covered segments one slice may forget.
pub fn truncation_budget(backlog: usize) -> (r: usize)
    ensures
        r == trunc_budget(backlog as nat),
{
    let half: usize = backlog / 2 + backlog % 2;
    let raised: usize = if half > MAX_UNLINKS_PER_SLICE {
        half
    } else {
        MAX_UNLINKS_PER_SLICE
    };
    if raised > MAX_TRUNC_PER_SLICE_ADAPTIVE {
        MAX_TRUNC_PER_SLICE_ADAPTIVE
    } else {
        raised
    }
}

/// The oldest of the sealed segments below the floor, as many as one slice's
/// budget allows.
pub open spec fn oldest(sealed_below: Seq<u32>) -> Seq<u32> {
    sealed_below.take(
        if trunc_budget(sealed_below.len()) < sealed_below.len() {
            trunc_budget(sealed_below.len()) as int
        } else {
            sealed_below.len() as int
        },
    )
}

/// The sealed segments one slice forgets.
pub fn truncation_targets(sealed_below: &[u32]) -> (r: Vec<u32>)
    ensures
        r@ == oldest(sealed_below@),
{
    let budget: usize = truncation_budget(sealed_below.len());
    let mut out: Vec<u32> = Vec::new();
    let mut i: usize = 0;
    while i < sealed_below.len() && i < budget
        invariant
            i <= sealed_below.len(),
            i <= budget,
            out@ == sealed_below@.take(i as int),
        decreases sealed_below.len() - i,
    {
        out.push(sealed_below[i]);
        i += 1;
        proof {
            assert(sealed_below@.take(i as int) =~= sealed_below@.take(i - 1).push(
                sealed_below@[i - 1],
            ));
        }
    }
    out
}

/// The publication guard: no manifest is staged before the durable watermark
/// covers the position it begins at.
pub proof fn law_publication_guard(
    phase: SwapPhase,
    watermark: Option<u64>,
    active: u32,
    tiered: Seq<TieredNs>,
    action: SwapAction,
)
    requires
        owed(phase, watermark, active, tiered, action),
        action is StageManifest,
    ensures
        phase matches SwapPhase::WatermarkWait { pending } && covered(watermark, pending),
{
}

/// The floor and the named image move only at the commit, and then to the
/// transition that was in flight; a failed step leaves them and keeps that
/// transition for the retry.
pub proof fn law_old_unit_kept_until_commit(
    cell: ManifestCell,
    outcome: SwapOutcome,
    next: ManifestCell,
    done: SwapDone,
)
    requires
        answers(cell.phase, outcome),
        cell.takes(outcome, next, done),
    ensures
        outcome !is Committed ==> next.floor == cell.floor && next.named_ckpt == cell.named_ckpt
            && next.just_published == cell.just_published,
        outcome is Committed ==> (transition_of(cell.phase) matches Some(m) && next.floor == Some(
            m.begin_lsn.segment,
        ) && next.named_ckpt == Some(m.ckpt_id) && next.just_published == Some(
            (cell.pending_epoch, m.ckpt_id),
        )),
        outcome !is Committed && outcome !is StagingRemoved ==> transition_of(next.phase)
            == transition_of(cell.phase),
{
}

/// Truncation is a slice, never a burst, and keeps up with its backlog: it
/// forgets the oldest segments first, never more than the ceiling, and at
/// least half of a backlog within it.
pub proof fn law_truncation_is_bounded(sealed_below: Seq<u32>)
    ensures
        oldest(sealed_below).len() <= MAX_TRUNC_PER_SLICE_ADAPTIVE,
        oldest(sealed_below) == sealed_below.take(oldest(sealed_below).len() as int),
        sealed_below.len() <= 2 * MAX_TRUNC_PER_SLICE_ADAPTIVE ==> 2 * oldest(sealed_below).len()
            >= sealed_below.len(),
{
}

/// A staged manifest lists exactly the segments from its begin position to the
/// tail: the begin segment, the active one and all between, once each and in
/// order.
pub proof fn law_manifest_spans_the_log(
    phase: SwapPhase,
    watermark: Option<u64>,
    active: u32,
    tiered: Seq<TieredNs>,
    manifest: Manifest,
)
    requires
        owed(phase, watermark, active, tiered, SwapAction::StageManifest(manifest)),
    ensures
        forall|s: u32|
            manifest.segments@.contains(s) <==> manifest.begin_lsn.segment <= s <= active,
        forall|i: int, j: int|
            0 <= i < j < manifest.segments@.len() ==> manifest.segments@[i]
                < manifest.segments@[j],
        manifest.begin_lsn.segment <= active ==> manifest.segments@.first()
            == manifest.begin_lsn.segment && manifest.segments@.last() == active,
{
    let first = manifest.begin_lsn.segment;
    assert forall|s: u32| first <= s <= active implies manifest.segments@.contains(s) by {
        assert(manifest.segments@[s - first] == s);
    }
}

/// A manifest is staged as soon as the durable watermark reaches the position
/// its image begins at, and not before; it names that image and that position.
pub proof fn law_manifest_names_its_image(
    pending: PendingManifest,
    watermark: Option<u64>,
    active: u32,
    tiered: Seq<TieredNs>,
    action: SwapAction,
)
    requires
        owed(SwapPhase::WatermarkWait { pending }, watermark, active, tiered, action),
    ensures
        watermark is None ==> action is Nothing,
        watermark matches Some(w) && w < pending.begin_lsn.segment * 0x1_0000_0000
            + pending.begin_lsn.offset ==> action is Nothing,
        watermark matches Some(w) && w >= pending.begin_lsn.segment * 0x1_0000_0000
            + pending.begin_lsn.offset ==> (action matches SwapAction::StageManifest(m)
            && m.ckpt_id == pending.ckpt_id && m.begin_lsn == pending.begin_lsn),
{
}

/// The tiers of a manifest, and the retirements of its commit, are those of
/// the namespaces whose store stands, in order.
pub proof fn law_standing_tiers_are_listed(a: Seq<TieredNs>, b: Seq<TieredNs>, ns: u32)
    ensures
        standing(a + b) == standing(a) + standing(b),
        standing(seq![TieredNs { ns, stands: true }]) == seq![ns],
        standing(seq![TieredNs { ns, stands: false }]) == Seq::<u32>::empty(),
        standing(Seq::empty()) == Seq::<u32>::empty(),
    decreases b.len(),
{
    reveal_with_fuel(standing, 2);
    assert(seq![TieredNs { ns, stands: true }].drop_last() =~= Seq::<TieredNs>::empty());
    assert(seq![TieredNs { ns, stands: false }].drop_last() =~= Seq::<TieredNs>::empty());
    if b.len() == 0 {
        assert(a + b =~= a);
    } else {
        law_standing_tiers_are_listed(a, b.drop_last(), ns);
        assert((a + b).drop_last() =~= a + b.drop_last());
        assert((a + b).last() == b.last());
    }
}

/// The manifest that is staged and the commit that follows it list the
/// standing tiers of the slice they are owed in.
pub proof fn law_actions_list_the_tiers(
    phase: SwapPhase,
    watermark: Option<u64>,
    active: u32,
    tiered: Seq<TieredNs>,
    action: SwapAction,
)
    requires
        owed(phase, watermark, active, tiered, action),
    ensures
        action matches SwapAction::StageManifest(m) ==> m.tiers@ == standing(tiered),
        action matches SwapAction::Commit { tiers } ==> tiers@ == standing(tiered),
{
}

/// One step after the other: the directory opens for an image just renamed,
/// the manifest is renamed once its staged bytes are durable, the commit comes
/// once the rename is durable, and a failed step cleans up. A phase whose
/// barrier is in flight, a backoff and an idle machine owe nothing.
pub proof fn law_steps_follow_their_barriers(
    phase: SwapPhase,
    watermark: Option<u64>,
    active: u32,
    tiered: Seq<TieredNs>,
    action: SwapAction,
)
    requires
        owed(phase, watermark, active, tiered, action),
    ensures
        action is OpenCkptDir <==> phase is IckDirPending,
        action is Rename <==> phase is StageSynced,
        action is Commit <==> phase is DirSynced,
        action is RemoveStaging <==> phase is Failed,
        phase is Idle || phase is Backoff || phase is IckDirQueued || phase is StageQueued
            || phase is DirQueued ==> action is Nothing,
{
}

/// A barrier that lands moves its transition on by one step and keeps what it
/// is about: from the image's directory to the watermark check, from the
/// staged manifest to its rename, from the rename to its commit.
pub proof fn law_barrier_moves_one_step(phase: SwapPhase)
    ensures
        phase matches SwapPhase::IckDirQueued { pending } ==> synced_phase(phase)
            == (SwapPhase::WatermarkWait { pending }),
        phase matches SwapPhase::StageQueued { manifest } ==> synced_phase(phase)
            == (SwapPhase::StageSynced { manifest }),
        phase matches SwapPhase::DirQueued { manifest } ==> synced_phase(phase)
            == (SwapPhase::DirSynced { manifest }),
        barrier_in_flight(phase) <==> phase is IckDirQueued || phase is StageQueued
            || phase is DirQueued,
        barrier_in_flight(phase) ==> !barrier_in_flight(synced_phase(phase)),
{
}

/// The phase after a number of slices that only wait.
pub open spec fn after_waits(phase: SwapPhase, n: nat) -> SwapPhase
    decreases n,
{
    if n == 0 {
        phase
    } else {
        waited(after_waits(phase, (n - 1) as nat))
    }
}

proof fn lemma_backoff_runs_down(pending: PendingManifest, slices: u32, n: nat)
    requires
        n <= slices,
    ensures
        after_waits(SwapPhase::Backoff { pending, slices }, n) == (SwapPhase::Backoff {
            pending,
            slices: (slices - n) as u32,
        }),
    decreases n,
{
    if n > 0 {
        lemma_backoff_runs_down(pending, slices, (n - 1) as nat);
    }
}

/// A failed barrier or step waits out 64 slices and returns to the watermark
/// check with the same image and position, not sooner.
pub proof fn law_retry_returns_after_the_backoff(phase: SwapPhase, n: nat)
    requires
        transition_of(phase) is Some,
    ensures
        n <= 64 ==> after_waits(retry_of(phase), n) is Backoff,
        after_waits(retry_of(phase), 65) == (SwapPhase::WatermarkWait {
            pending: transition_of(phase)->0,
        }),
        transition_of(retry_of(phase)) == transition_of(phase),
{
    let pending = transition_of(phase)->0;
    lemma_backoff_runs_down(pending, RETRY_BACKOFF_SLICES, 64);
    if n <= 64 {
        lemma_backoff_runs_down(pending, RETRY_BACKOFF_SLICES, n);
    }
}

/// The transition of a phase is the image it is about: none only where the
/// machine is idle or a step failed for good.
pub proof fn law_phase_names_its_image(phase: SwapPhase, pending: PendingManifest, m: Manifest)
    ensures
        transition_of(phase) is None <==> phase is Idle || phase is Failed,
        phase == (SwapPhase::IckDirPending { pending }) || phase == (SwapPhase::IckDirQueued {
            pending,
        }) || phase == (SwapPhase::WatermarkWait { pending }) ==> transition_of(phase) == Some(
            pending,
        ),
        phase == (SwapPhase::StageQueued { manifest: m }) || phase == (SwapPhase::StageSynced {
            manifest: m,
        }) || phase == (SwapPhase::DirQueued { manifest: m }) || phase == (SwapPhase::DirSynced {
            manifest: m,
        }) ==> (transition_of(phase) matches Some(t) && t.ckpt_id == m.ckpt_id && t.begin_lsn
            == m.begin_lsn),
        waited(phase) == phase || phase is Backoff,
        transition_of(waited(phase)) == transition_of(phase),
{
}

/// Every barrier gets a number of its own, one past the last, and is counted;
/// a step that queues none leaves the count. What was written is counted with
/// the staged manifest's barrier, a failed step with the retries.
pub proof fn law_each_barrier_is_counted(
    cell: ManifestCell,
    outcome: SwapOutcome,
    next: ManifestCell,
    done: SwapDone,
)
    requires
        answers(cell.phase, outcome),
        cell.can_count(outcome),
        cell.takes(outcome, next, done),
    ensures
        done.sync is Some <==> barrier_in_flight(next.phase),
        done.sync is Some <==> outcome is DirOpened || outcome is StageWritten
            || outcome is Renamed,
        done.sync matches Some(seq) ==> seq == cell.sync_seq + 1 && next.sync_seq == seq
            && next.stats.syncs_issued == cell.stats.syncs_issued + 1,
        done.sync is None ==> next.sync_seq == cell.sync_seq && next.stats.syncs_issued
            == cell.stats.syncs_issued,
        next.stats.bytes_written - cell.stats.bytes_written == (match outcome {
            SwapOutcome::StageWritten { bytes, .. } => bytes as int,
            _ => 0,
        }),
        next.stats.aborted - cell.stats.aborted == (if outcome is StagingRemoved
            || outcome is DirOpenFailed || outcome is StaleUnlinkFailed || outcome is StageFailed
            || outcome is RenameFailed {
            1int
        } else {
            0
        }),
        next.stats.published - cell.stats.published == (if outcome is Committed {
            1int
        } else {
            0
        }),
        done.units == (if outcome is StageWritten {
            3u32
        } else if outcome is Renamed {
            2u32
        } else {
            1u32
        }),
{
}

/// Where an outcome leads: an opened directory and a written manifest to their
/// barriers, a rename to the commit barrier with the manifest that was staged,
/// a failure to the backoff, a commit and a clean-up to rest.
pub proof fn law_outcome_leads_on(
    cell: ManifestCell,
    outcome: SwapOutcome,
    next: ManifestCell,
    done: SwapDone,
)
    requires
        answers(cell.phase, outcome),
        cell.takes(outcome, next, done),
    ensures
        outcome is DirOpened ==> next.phase is IckDirQueued,
        outcome matches SwapOutcome::StageWritten { manifest, .. } ==> next.phase
            == (SwapPhase::StageQueued { manifest }),
        outcome is Renamed ==> (cell.phase matches SwapPhase::StageSynced { manifest }
            && next.phase == (SwapPhase::DirQueued { manifest })),
        outcome is DirOpenFailed || outcome is StaleUnlinkFailed || outcome is StageFailed
            || outcome is RenameFailed ==> next.phase is Backoff,
        outcome is Committed || outcome is StagingRemoved ==> next.phase is Idle,
        next.pending_epoch == cell.pending_epoch,
        outcome !is Committed ==> next.gc_queue == cell.gc_queue,
{
}

/// Garbage collection spares the image that the manifest names: a listed file
/// is garbage exactly when it is another image or a staging file left behind.
pub proof fn law_named_image_is_spared(f: ListedFile, named: u64)
    ensures
        f.image == Some(named) && !text::has_suffix(f.name@, text::utf8(".ick.new"@)) ==> !stale(
            f,
            Some(named),
        ),
        f.image is None && !text::has_suffix(f.name@, text::utf8(".ick.new"@)) ==> !stale(
            f,
            Some(named),
        ),
        f.image matches Some(id) && id != named ==> stale(f, Some(named)),
        text::has_suffix(f.name@, text::utf8(".ick.new"@)) ==> stale(f, Some(named)),
        f.image is Some ==> stale(f, None),
{
}

/// The collection queues the path of every stale file, in listing order, and
/// no other.
pub proof fn law_every_stale_file_is_queued(
    a: Seq<ListedFile>,
    b: Seq<ListedFile>,
    f: ListedFile,
    named: Option<u64>,
)
    ensures
        stale_paths(a + b, named) == stale_paths(a, named) + stale_paths(b, named),
        stale(f, named) ==> stale_paths(seq![f], named) == seq![f.path@],
        !stale(f, named) ==> stale_paths(seq![f], named) == Seq::<Seq<u8>>::empty(),
    decreases b.len(),
{
    reveal_with_fuel(stale_paths, 2);
    assert(seq![f].drop_last() =~= Seq::<ListedFile>::empty());
    if b.len() == 0 {
        assert(a + b =~= a);
    } else {
        law_every_stale_file_is_queued(a, b.drop_last(), f, named);
        assert((a + b).drop_last() =~= a + b.drop_last());
        assert((a + b).last() == b.last());
    }
}

/// A commit queues what the image it names makes garbage, after what was
/// already queued.
pub proof fn law_commit_collects_the_rest(
    cell: ManifestCell,
    listed: Vec<ListedFile>,
    next: ManifestCell,
    done: SwapDone,
)
    requires
        answers(cell.phase, SwapOutcome::Committed { listed }),
        cell.takes(SwapOutcome::Committed { listed }, next, done),
    ensures
        next.named_ckpt is Some,
        paths(next.gc_queue@) == paths(cell.gc_queue@) + stale_paths(listed@, next.named_ckpt),
        cell.phase matches SwapPhase::DirSynced { manifest } && next.named_ckpt == Some(
            manifest.ckpt_id,
        ) && next.floor == Some(manifest.begin_lsn.segment),
{
}

/// A slice unlinks as much as its budget, its queue and the control plane's
/// room allow, and no less.
pub proof fn law_unlinks_use_their_room(queued: nat, budget: u32, len: nat)
    ensures
        gc_count(queued, budget, None) <= queued,
        gc_count(queued, budget, None) <= budget,
        gc_count(queued, budget, None) == queued || gc_count(queued, budget, None) == budget,
        gc_count(queued, budget, Some(len)) <= gc_count(queued, budget, None),
        gc_count(queued, budget, Some(len)) == gc_count(queued, budget, None) || gc_count(
            queued,
            budget,
            Some(len),
        ) + len == CONTROL_QUEUE || (len > CONTROL_QUEUE && gc_count(queued, budget, Some(len))
            == 0),
        len <= CONTROL_QUEUE ==> gc_count(queued, budget, Some(len)) + len <= CONTROL_QUEUE,
{
}

/// What a slice takes is the end of the queue, newest first, and each path is
/// delegated as one unlink of that path.
pub proof fn law_newest_path_goes_first(queue: Seq<Vec<u8>>, n: nat)
    requires
        n <= queue.len(),
    ensures
        queue.take(queue.len() - n) + taken(queue, n).reverse() == queue,
        delegated(taken(queue, n)).len() == n,
        forall|i: int|
            0 <= i < n ==> #[trigger] delegated(taken(queue, n))[i] == ControlMsg::Unlink(
                queue[queue.len() - 1 - i],
            ),
{
    assert(queue.take(queue.len() - n) + taken(queue, n).reverse() =~= queue);
}

/// A slice forgets half of its backlog, rounded up: all of a backlog of two or
/// less, and 16 of one of 31 or more.
pub proof fn law_truncation_follows_its_backlog(sealed_below: Seq<u32>)
    ensures
        oldest(sealed_below).len() <= 16,
        sealed_below.len() >= 31 ==> oldest(sealed_below).len() == 16,
        sealed_below.len() <= 2 ==> oldest(sealed_below) == sealed_below,
        3 <= sealed_below.len() <= 32 ==> 2 * oldest(sealed_below).len() == sealed_below.len() + (
        sealed_below.len() % 2),
        sealed_below.len() >= 2 ==> oldest(sealed_below).len() >= 2,
        oldest(sealed_below).is_prefix_of(sealed_below),
{
    assert(sealed_below.take(sealed_below.len() as int) =~= sealed_below);
}

} // verus!
