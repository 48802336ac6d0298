//! The durable cell's checkpoint side: the slice machine that fills and writes
//! a checkpoint image, the walks of tiered namespaces and of index sidecars,
//! the manifest slice, and their completion hooks.
//!
//! A slice alternates decisions with work on the store and the staging file:
//! each function here decides from the stream state and what the last piece of
//! work reported, and the caller performs what comes back.

use vstd::prelude::*;
use crate::ckpt;
use crate::ckpt::manifest;
use crate::ckpt::manifest::{ManifestCell, ManifestStats, SwapAction, SwapDone, TieredNs};
use crate::ckpt::{
    CkptCell, CkptPhase, CkptStats, SectionLease, Streaming, EINVAL,
    MAX_TRUNC_PER_SLICE_ADAPTIVE, MAX_UNLINKS_PER_SLICE,
};
use crate::control::boards;
use crate::control::boards::CkptBoard;
use crate::control::handle::{ControlHandle, CONTROL_QUEUE};
use crate::durable::cell::DurableCell;
use crate::durable::fill;
use crate::durable::fill::{FillPhase, FillTurn};
use crate::lsn::Lsn;

verus! {

/// What a slice does at its entry.
#[derive(Copy, Clone, Debug, PartialEq, Eq, Structural)]
pub enum SliceStep {
    /// Nothing to do; charge these units.
    Rest(u32),
    /// Stage the begin marker of this checkpoint.
    StageBegin(u64),
    /// Create the staging file and its header block.
    OpenStream { id: u64, begin_lsn: Lsn },
    /// Rename the staging file to its final name.
    Publish,
    /// Sync the staging file under this sequence number.
    Sync(u64),
    /// Fill the pending section: a [`Fill`](crate::durable::fill::Fill) of this
    /// size, from this phase on.
    Fill { slice_cap: u32, phase: FillPhase },
}

impl SliceStep {
    /// The units a step charges at once. A filling slice charges at its end.
    pub open spec fn charge(self) -> u32 {
        match self {
            SliceStep::Rest(units) => units,
            SliceStep::OpenStream { .. } => 1,
            SliceStep::Publish => 1,
            _ => 0,
        }
    }

    /// The units a step charges at once.
    pub fn units(self) -> (r: u32)
        ensures
            r == self.charge(),
    {
        match self {
            SliceStep::Rest(units) => units,
            SliceStep::OpenStream { .. } => 1,
            SliceStep::Publish => 1,
            _ => 0,
        }
    }
}

/// What forgetting a sealed segment came to.
#[derive(Debug)]
pub enum SealedDisposal {
    /// Its file waits to be reused.
    Recycled,
    /// Its file at this path is to be deleted.
    Unlink(Vec<u8>),
}

/// The paths to delete, in order.
pub open spec fn unlinks(disposals: Seq<SealedDisposal>) -> Seq<Vec<u8>>
    decreases disposals.len(),
{
    if disposals.len() == 0 {
        Seq::empty()
    } else {
        let rest = unlinks(disposals.skip(1));
        match disposals[0] {
            SealedDisposal::Recycled => rest,
            SealedDisposal::Unlink(path) => seq![path] + rest,
        }
    }
}

/// How many of `n` deletions a control queue of length `queued` takes.
pub open spec fn queue_takes(queued: nat, n: nat) -> nat {
    let room = if queued <= CONTROL_QUEUE {
        (CONTROL_QUEUE - queued) as nat
    } else {
        0
    };
    if n <= room {
        n
    } else {
        room
    }
}

/// What the rest of a manifest slice came to.
#[derive(Debug)]
pub struct ManifestSlice {
    /// Maintenance units to charge, about one per file operation.
    pub units: u32,
    /// Barriers to charge to the checkpoint class.
    pub syncs: u64,
    /// Paths to delete at once: there is no control plane to take them.
    pub unlinks: Vec<Vec<u8>>,
}

/// Whether an image needs the second version: a tiered namespace or an index
/// declared on a durable one asks for it.
pub fn image_is_v2(tiered: &[bool], indexed: bool) -> (r: bool)
    ensures
        r == (indexed || exists|i: int| 0 <= i < tiered@.len() && #[trigger] tiered@[i]),
{
    let mut i: usize = 0;
    while i < tiered.len()
        invariant
            i <= tiered@.len(),
            forall|k: int| 0 <= k < i ==> !(#[trigger] tiered@[k]),
        decreases tiered.len() - i,
    {
        if tiered[i] {
            return true;
        }
        i += 1;
    }
    indexed
}

/// How many tiered tables began their walk under a checkpoint older than `id`.
pub open spec fn behind(walks: Seq<Option<u64>>, id: u64) -> nat
    decreases walks.len(),
{
    if walks.len() == 0 {
        0
    } else {
        behind(walks.drop_last(), id) + (if walks.last() matches Some(w) && w < id {
            1nat
        } else {
            0nat
        })
    }
}

fn count_behind(walks: &[Option<u64>], id: u64) -> (r: u64)
    ensures
        r == behind(walks@, id),
{
    let mut n: u64 = 0;
    let mut i: usize = 0;
    proof {
        assert(walks@.take(0) =~= Seq::empty());
    }
    while i < walks.len()
        invariant
            i <= walks@.len(),
            n == behind(walks@.take(i as int), id),
            n <= i,
        decreases walks.len() - i,
    {
        proof {
            assert(walks@.take(i + 1).drop_last() =~= walks@.take(i as int));
            assert(walks@.take(i + 1).last() == walks@[i as int]);
        }
        if let Some(w) = walks[i] {
            if w < id {
                n += 1;
            }
        }
        i += 1;
    }
    proof {
        assert(walks@.take(i as int) =~= walks@);
    }
    n
}

/// The bytes one slice may emit: the configured cap and the budget's units of
/// 1 KiB, whichever is smaller, and at least 1.
pub open spec fn slice_bytes(configured: u32, budget_units: u32) -> u32 {
    let units: int = budget_units * 1024;
    let least: int = if configured <= units {
        configured as int
    } else {
        units
    };
    if least < 1 {
        1
    } else {
        least as u32
    }
}

fn slice_cap_of(configured: u32, budget_units: u32) -> (r: u32)
    ensures
        r == slice_bytes(configured, budget_units),
{
    let units: u64 = budget_units as u64 * 1024;
    let least: u32 = if configured as u64 <= units {
        configured
    } else {
        units as u32
    };
    if least < 1 {
        1
    } else {
        least
    }
}

/// A control board once a committed manifest is published on it: the request
/// epoch it satisfies and its checkpoint id.
pub open spec fn committed_board(
    board: Seq<boards::CkptSlotView>,
    m: ManifestCell,
    unix_now_ms: u64,
) -> Seq<boards::CkptSlotView> {
    match m.just_published {
        Some((epoch, id)) => board.update(
            m.cell as int,
            boards::CkptSlotView {
                published: boards::max_epoch(board[m.cell as int].published, epoch),
                ckpt_id: id,
                unix_ms: unix_now_ms,
                ..board[m.cell as int]
            },
        ),
        None => board,
    }
}

fn unlinked(disposals: Vec<SealedDisposal>) -> (r: Vec<Vec<u8>>)
    ensures
        r@ == unlinks(disposals@),
{
    let mut left = disposals;
    let mut out: Vec<Vec<u8>> = Vec::new();
    proof {
        assert(out@ + unlinks(left@) =~= unlinks(disposals@));
    }
    while left.len() > 0
        invariant
            out@ + unlinks(left@) == unlinks(disposals@),
        decreases left.len(),
    {
        let ghost held = left@;
        let ghost before = out@;
        let disposal = left.remove(0);
        proof {
            assert(left@ =~= held.skip(1));
        }
        if let SealedDisposal::Unlink(path) = disposal {
            out.push(path);
            proof {
                assert(before + (seq![path] + unlinks(left@)) =~= out@ + unlinks(left@));
            }
        }
    }
    proof {
        assert(out@ + unlinks(left@) =~= out@);
    }
    out
}

proof fn lemma_behind_bounded(walks: Seq<Option<u64>>, id: u64)
    ensures
        behind(walks, id) <= walks.len(),
    decreases walks.len(),
{
    if walks.len() > 0 {
        lemma_behind_bounded(walks.drop_last(), id);
    }
}

/// The state of a stream in a phase, if it streams.
pub open spec fn stream_of(phase: CkptPhase) -> Option<Streaming> {
    match phase {
        CkptPhase::Stream(st) => Some(st),
        _ => None,
    }
}

impl DurableCell {
    /// The stream, when there is one, is well formed.
    pub open spec fn stream_wf(&self) -> bool {
        self.ckpt.phase matches CkptPhase::Stream(st) ==> st.wf()
    }

    /// The step one checkpoint slice starts with.
    pub open spec fn slice_step(
        &self,
        frame_bytes_total: u64,
        begin_fits: bool,
        model_absent: bool,
        now: u64,
        budget_units: u32,
    ) -> SliceStep {
        if self.failed {
            SliceStep::Rest(0)
        } else {
            match self.ckpt.phase {
                CkptPhase::Idle => if self.ckpt.backoff_slices == 0 && self.manifest.phase is Idle
                    && self.ckpt.triggered(frame_bytes_total, self.records_appended)
                    && begin_fits {
                    SliceStep::StageBegin(self.ckpt.next_id)
                } else {
                    SliceStep::Rest(0)
                },
                CkptPhase::AwaitBeginLsn { .. } => SliceStep::Rest(0),
                CkptPhase::Begun { id, begin_lsn } => SliceStep::OpenStream { id, begin_lsn },
                CkptPhase::Stream(st) => if st.sync_done {
                    SliceStep::Publish
                } else if st.in_flight is Some || st.paced_out(
                    model_absent,
                    self.ckpt.cfg.stream_bytes_per_sec,
                    now,
                ) {
                    SliceStep::Rest(0)
                } else if st.footer_staged {
                    if st.sync_issued {
                        SliceStep::Rest(0)
                    } else {
                        SliceStep::Sync((st.write_seq + 1) as u64)
                    }
                } else {
                    SliceStep::Fill {
                        slice_cap: slice_bytes(self.ckpt.cfg.slice_bytes, budget_units),
                        phase: st.first_phase(),
                    }
                },
            }
        }
    }

    /// One fuzzy-checkpoint slice: at most one recovery-unit transition is in
    /// flight, so a pending manifest holds the next trigger. One section is in
    /// flight at most; the completion sync follows the footer's write.
    /// `begin_fits` says that the log staging has room for a begin marker.
    pub fn ckpt_slice(
        &mut self,
        frame_bytes_total: u64,
        begin_fits: bool,
        model_absent: bool,
        now: u64,
        budget_units: u32,
    ) -> (r: SliceStep)
        requires
            old(self).stream_wf(),
            old(self).ckpt.phase matches CkptPhase::Stream(st) ==> st.write_seq < u64::MAX,
        ensures
            final(self).stream_wf(),
            r == old(self).slice_step(
                frame_bytes_total,
                begin_fits,
                model_absent,
                now,
                budget_units,
            ),
            *final(self) == (DurableCell { ckpt: final(self).ckpt, ..*old(self) }),
            final(self).ckpt == (CkptCell {
                backoff_slices: if !old(self).failed && old(self).ckpt.phase is Idle && old(
                    self).ckpt.backoff_slices > 0 {
                    (old(self).ckpt.backoff_slices - 1) as u32
                } else {
                    old(self).ckpt.backoff_slices
                },
                phase: final(self).ckpt.phase,
                ..old(self).ckpt
            }),
            match (r, old(self).ckpt.phase) {
                (SliceStep::Sync(seq), CkptPhase::Stream(st)) => final(self).ckpt.phase
                    == CkptPhase::Stream(
                    Streaming { sync_issued: true, write_seq: seq, ..st },
                ),
                _ => final(self).ckpt.phase == old(self).ckpt.phase,
            },
    {
        if self.failed {
            return SliceStep::Rest(0);
        }
        let rate: u32 = self.ckpt.cfg.stream_bytes_per_sec;
        let configured: u32 = self.ckpt.cfg.slice_bytes;
        let idle = match &self.ckpt.phase {
            CkptPhase::Idle => true,
            _ => false,
        };
        if idle {
            if self.ckpt.tick_backoff() {
                return SliceStep::Rest(0);
            }
            if self.manifest.idle() && self.ckpt.should_begin(
                frame_bytes_total,
                self.records_appended,
            ) && begin_fits {
                return SliceStep::StageBegin(self.ckpt.pending_id());
            }
            return SliceStep::Rest(0);
        }
        match &mut self.ckpt.phase {
            CkptPhase::Begun { id, begin_lsn } => SliceStep::OpenStream {
                id: *id,
                begin_lsn: *begin_lsn,
            },
            CkptPhase::Stream(st) => {
                if st.sync_done {
                    return SliceStep::Publish;
                }
                if st.in_flight.is_some() || st.pace_holds(model_absent, rate, now) {
                    return SliceStep::Rest(0);
                }
                if st.footer_staged {
                    if st.sync_issued {
                        return SliceStep::Rest(0);
                    }
                    st.sync_issued = true;
                    st.write_seq += 1;
                    return SliceStep::Sync(st.write_seq);
                }
                let phase = if !st.walk_done {
                    FillPhase::Walking
                } else if !st.sidecar_done {
                    FillPhase::Sidecars
                } else {
                    FillPhase::Settled
                };
                SliceStep::Fill { slice_cap: slice_cap_of(configured, budget_units), phase }
            },
            _ => SliceStep::Rest(0),
        }
    }

    /// The begin marker was staged at `at`, as one record of the log.
    pub fn note_begin_staged(&mut self, at: u64, frame_bytes_total: u64)
        requires
            old(self).wf(),
            old(self).records_appended < u64::MAX,
            old(self).last_seq < u64::MAX,
        ensures
            final(self).wf(),
            *final(self) == (DurableCell {
                records_appended: (old(self).records_appended + 1) as u64,
                last_seq: (old(self).last_seq + 1) as u64,
                ckpt: final(self).ckpt,
                ..*old(self)
            }),
            final(self).ckpt == (CkptCell {
                requested: false,
                epoch_in_flight: old(self).ckpt.req_epoch,
                bytes_at_begin: frame_bytes_total,
                records_at_begin: final(self).records_appended,
                phase: CkptPhase::AwaitBeginLsn { id: old(self).ckpt.next_id, at: at },
                ..old(self).ckpt
            }),
    {
        self.records_appended += 1;
        self.last_seq += 1;
        let records: u64 = self.records_appended;
        self.ckpt.note_begin_staged(at, frame_bytes_total, records);
    }

    /// The staging file was created and its header staged: the write is queued
    /// under sequence number 1.
    pub fn note_stream_opened(
        &mut self,
        ns_ids: Vec<u32>,
        v2: bool,
        now: u64,
        header: SectionLease,
    ) -> (r: u64)
        requires
            old(self).ckpt.phase is Begun,
        ensures
            final(self).stream_wf(),
            r == 1,
            *final(self) == (DurableCell { ckpt: final(self).ckpt, ..*old(self) }),
            final(self).ckpt == (CkptCell { phase: final(self).ckpt.phase, ..old(self).ckpt }),
            match (old(self).ckpt.phase, final(self).ckpt.phase) {
                (CkptPhase::Begun { id, begin_lsn }, CkptPhase::Stream(st)) => st.write_seq == 1
                    && ckpt::opened(
                    (Streaming { write_seq: 0, ..st }),
                    id,
                    begin_lsn,
                    ns_ids@,
                    v2,
                    now,
                    header,
                ),
                _ => false,
            },
    {
        let mut id: u64 = 0;
        let mut begin = Lsn { segment: 0, offset: 0 };
        if let CkptPhase::Begun { id: i, begin_lsn } = &self.ckpt.phase {
            id = *i;
            begin = *begin_lsn;
        }
        self.ckpt.open_stream(id, begin, ns_ids, v2, now, header);
        if let CkptPhase::Stream(st) = &mut self.ckpt.phase {
            st.write_seq = 1;
        }
        1
    }

    /// The staging file carries its final name: the image waits for the
    /// manifest swap, with the request epoch it satisfies. `walks` holds the
    /// checkpoint each tiered table's walk began under; those begun under an
    /// older one are counted.
    pub fn note_published(
        &mut self,
        unix_now_ms: u64,
        file_bytes: u64,
        padding: u64,
        next_interval: u64,
        walks: &[Option<u64>],
    )
        requires
            old(self).ckpt.can_publish(file_bytes, padding),
            old(self).ckpt.walks_behind + walks@.len() <= u64::MAX,
            old(self).manifest.phase is Idle,
        ensures
            old(self).ckpt.phase matches CkptPhase::Stream(st) && *final(self) == (DurableCell {
                ckpt: CkptCell {
                    next_id: (st.id + 1) as u64,
                    bytes_at_last: old(self).ckpt.bytes_at_begin,
                    records_at_last: old(self).ckpt.records_at_begin,
                    interval_bytes: next_interval,
                    phase: CkptPhase::Idle,
                    walks_behind: (old(self).ckpt.walks_behind + behind(walks@, st.id)) as u64,
                    stats: CkptStats {
                        completed: (old(self).ckpt.stats.completed + 1) as u64,
                        bytes_last: file_bytes,
                        bytes_total: (old(self).ckpt.stats.bytes_total + file_bytes) as u64,
                        padding_bytes: (old(self).ckpt.stats.padding_bytes + padding) as u64,
                        interval_bytes: next_interval,
                        last_unix_ms: unix_now_ms,
                        last_begin_lsn: st.begin_lsn.packed(),
                        ..old(self).ckpt.stats
                    },
                    ..old(self).ckpt
                },
                manifest: ManifestCell {
                    pending_epoch: old(self).ckpt.epoch_in_flight,
                    phase: manifest::SwapPhase::IckDirPending {
                        pending: manifest::PendingManifest {
                            ckpt_id: st.id,
                            begin_lsn: st.begin_lsn,
                        },
                    },
                    ..old(self).manifest
                },
                ..*old(self)
            }),
    {
        let (id, begin) = self.ckpt.publish(unix_now_ms, file_bytes, padding, next_interval);
        proof {
            lemma_behind_bounded(walks@, id);
        }
        self.ckpt.note_walks_behind(count_behind(walks, id));
        let epoch: u64 = self.ckpt.epoch_in_flight;
        self.manifest.note_published_ick(id, begin, epoch);
    }

    /// The checkpoint could not go on: it is aborted, never the process.
    /// Returns the id whose staging file is to be removed.
    pub fn abort_ckpt(&mut self) -> (r: Option<u64>)
        requires
            old(self).ckpt.can_abort(),
        ensures
            r == ckpt::phase_id(old(self).ckpt.phase),
            *final(self) == (DurableCell { ckpt: old(self).ckpt.aborted(), ..*old(self) }),
    {
        self.ckpt.abort()
    }

    /// A section, header or footer write completed. Returns the lease to
    /// release.
    pub fn on_ckpt_written(&mut self) -> (r: SectionLease)
        requires
            old(self).stream_wf(),
            stream_of(old(self).ckpt.phase) matches Some(st) && st.in_flight is Some,
        ensures
            final(self).stream_wf(),
            stream_of(old(self).ckpt.phase) matches Some(st) && st.in_flight == Some(r)
                && *final(self) == (DurableCell {
                ckpt: CkptCell {
                    phase: CkptPhase::Stream(Streaming { in_flight: None, ..st }),
                    ..old(self).ckpt
                },
                ..*old(self)
            }),
    {
        let mut lease = SectionLease { offset: 0, len: 0 };
        if let CkptPhase::Stream(st) = &mut self.ckpt.phase {
            if let Some(held) = st.in_flight {
                lease = held;
                st.in_flight = None;
            }
        }
        lease
    }

    /// The completion sync landed: the next slice publishes.
    pub fn on_ckpt_synced(&mut self)
        requires
            old(self).stream_wf(),
            stream_of(old(self).ckpt.phase) matches Some(st) && st.sync_issued,
        ensures
            final(self).stream_wf(),
            stream_of(old(self).ckpt.phase) matches Some(st) && *final(self) == (DurableCell {
                ckpt: CkptCell {
                    phase: CkptPhase::Stream(Streaming { sync_done: true, ..st }),
                    ..old(self).ckpt
                },
                ..*old(self)
            }),
    {
        if let CkptPhase::Stream(st) = &mut self.ckpt.phase {
            st.sync_done = true;
        }
    }

    /// A checkpoint operation failed: the checkpoint is aborted. A refused
    /// direct write downgrades the cell to buffered staging for good and
    /// retries at once. Returns the id whose staging file is to be removed.
    pub fn on_ckpt_error(&mut self, errno: i32) -> (r: Option<u64>)
        requires
            old(self).ckpt.can_abort(),
            old(self).ckpt.io_mode_downgrades < u64::MAX,
        ensures
            r == ckpt::phase_id(old(self).ckpt.phase),
            *final(self) == (DurableCell {
                ckpt: if errno == EINVAL && old(self).ckpt.io_mode is Direct {
                    CkptCell {
                        io_mode: ckpt::CkptIoMode::Buffered,
                        io_mode_downgrades: (old(self).ckpt.io_mode_downgrades + 1) as u64,
                        backoff_slices: 0,
                        ..old(self).ckpt.aborted()
                    }
                } else {
                    old(self).ckpt.aborted()
                },
                ..*old(self)
            }),
    {
        if errno == EINVAL && self.ckpt.io_mode_direct() {
            return self.ckpt.abort_refused_direct();
        }
        self.ckpt.abort()
    }

    /// The manifest step of one maintenance slice; none once the plane failed.
    pub fn manifest_slice(
        &mut self,
        watermark: Option<Lsn>,
        active: u32,
        tiered: &[TieredNs],
    ) -> (r: SwapAction)
        ensures
            old(self).failed ==> r is Nothing && *final(self) == *old(self),
            !old(self).failed ==> {
                &&& crate::ckpt::manifest::owed(
                    old(self).manifest.phase,
                    match watermark {
                        Some(lsn) => Some(lsn.packed()),
                        None => None,
                    },
                    active,
                    tiered@,
                    r,
                )
                &&& *final(self) == (DurableCell {
                    manifest: crate::ckpt::manifest::ManifestCell {
                        phase: crate::ckpt::manifest::waited(old(self).manifest.phase),
                        ..old(self).manifest
                    },
                    ..*old(self)
                })
            },
    {
        if self.failed {
            return SwapAction::Nothing;
        }
        let packed: Option<u64> = match watermark {
            Some(lsn) => Some(lsn.to_u64()),
            None => None,
        };
        self.manifest.swap_slice(packed, active, tiered)
    }

    /// A committed manifest is published on the control board: the request
    /// epoch it satisfies and its checkpoint id.
    pub fn publish_committed(&mut self, board: &mut CkptBoard, unix_now_ms: u64)
        requires
            old(self).manifest.cell < old(board)@.len(),
        ensures
            *final(self) == (DurableCell {
                manifest: crate::ckpt::manifest::ManifestCell {
                    just_published: None,
                    ..old(self).manifest
                },
                ..*old(self)
            }),
            final(board)@ == committed_board(old(board)@, old(self).manifest, unix_now_ms),
    {
        if let Some((epoch, id)) = self.manifest.take_published() {
            let slot = board.slot_mut(self.manifest.cell());
            slot.publish(epoch, id, unix_now_ms);
        }
    }

    /// The sealed segments a slice forgets: none before a manifest set the
    /// floor; else the oldest of `sealed_below` the floor, as many as the
    /// backlog's budget allows.
    pub fn truncation_targets(&self, sealed_below: &[u32]) -> (r: Vec<u32>)
        ensures
            r@ == (if self.manifest.floor is None {
                Seq::<u32>::empty()
            } else {
                manifest::oldest(sealed_below@)
            }),
    {
        if self.manifest.floor().is_none() {
            return Vec::new();
        }
        manifest::truncation_targets(sealed_below)
    }

    /// The rest of a manifest slice, once its swap step is through and the
    /// truncation targets were forgotten: a committed manifest is published on
    /// the control board, the forgotten segments' files are deleted, and the
    /// oldest stale files with them. Deletions are delegated to the control
    /// plane where there is one; what its queue refuses waits for a later
    /// slice.
    pub fn finish_manifest_slice(
        &mut self,
        swapped: SwapDone,
        disposals: Vec<SealedDisposal>,
        control: Option<&mut ControlHandle>,
        unix_now_ms: u64,
    ) -> (r: ManifestSlice)
        requires
            disposals@.len() <= MAX_TRUNC_PER_SLICE_ADAPTIVE,
            swapped.units <= 3,
            old(self).manifest.stats.truncated_segments + disposals@.len() <= u64::MAX,
            old(self).manifest.stats.ick_orphans_removed + MAX_UNLINKS_PER_SLICE <= u64::MAX,
            control matches Some(c) ==> old(self).manifest.cell < c.ckpt_board@.len(),
        ensures
            r.syncs == (if swapped.sync is Some {
                1u64
            } else {
                0
            }),
            *final(self) == (DurableCell { manifest: final(self).manifest, ..*old(self) }),
            match control {
                Some(c) => {
                    let paths = unlinks(disposals@);
                    let sent = queue_takes(c.queue@.len(), paths.len());
                    let queue = c.queue@ + manifest::delegated(paths.take(sent as int));
                    let held = old(self).manifest.gc_queue@ + paths.skip(sent as int);
                    let gone = manifest::gc_count(
                        held.len(),
                        MAX_UNLINKS_PER_SLICE as u32,
                        Some(queue.len()),
                    );
                    &&& r.units == swapped.units + disposals@.len() + gone
                    &&& r.unlinks@.len() == 0
                    &&& final(self).manifest == old(self).manifest.drained(
                        final(self).manifest.gc_queue,
                        disposals@.len(),
                        gone,
                    )
                    &&& final(self).manifest.gc_queue@ == held.take(held.len() - gone)
                    &&& final(c).queue@ == queue + manifest::delegated(manifest::taken(held, gone))
                    &&& final(c).ckpt_board@ == committed_board(
                        c.ckpt_board@,
                        old(self).manifest,
                        unix_now_ms,
                    )
                    &&& *final(c) == (ControlHandle {
                        queue: final(c).queue,
                        ckpt_board: final(c).ckpt_board,
                        ..*c
                    })
                },
                None => {
                    let held = old(self).manifest.gc_queue@;
                    let gone = manifest::gc_count(held.len(), MAX_UNLINKS_PER_SLICE as u32, None);
                    &&& r.units == swapped.units + disposals@.len() + gone
                    &&& r.unlinks@ == unlinks(disposals@) + manifest::taken(held, gone)
                    &&& final(self).manifest == old(self).manifest.drained(
                        final(self).manifest.gc_queue,
                        disposals@.len(),
                        gone,
                    )
                    &&& final(self).manifest.gc_queue@ == held.take(held.len() - gone)
                },
            },
    {
        let forgotten: usize = disposals.len();
        let syncs: u64 = if swapped.sync.is_some() {
            1
        } else {
            0
        };
        self.manifest.note_truncated(forgotten as u64);
        match control {
            Some(c) => {
                self.publish_committed(&mut c.ckpt_board, unix_now_ms);
                self.delegate(disposals, c);
                let (gone, none): (u32, Vec<Vec<u8>>) = self.manifest.gc_slice(
                    MAX_UNLINKS_PER_SLICE as u32,
                    Some(c),
                );
                ManifestSlice {
                    units: swapped.units + forgotten as u32 + gone,
                    syncs,
                    unlinks: none,
                }
            },
            None => {
                let _ = self.manifest.take_published();
                let mut paths = unlinked(disposals);
                let (gone, mut more): (u32, Vec<Vec<u8>>) = self.manifest.gc_slice(
                    MAX_UNLINKS_PER_SLICE as u32,
                    None,
                );
                paths.append(&mut more);
                ManifestSlice {
                    units: swapped.units + forgotten as u32 + gone,
                    syncs,
                    unlinks: paths,
                }
            },
        }
    }

    /// Delegates the deletions; what the control queue refuses joins the
    /// manifest's own queue.
    fn delegate(&mut self, disposals: Vec<SealedDisposal>, control: &mut ControlHandle)
        ensures
            ({
                let paths = unlinks(disposals@);
                let sent = queue_takes(old(control).queue@.len(), paths.len());
                &&& final(control).queue@ == old(control).queue@ + manifest::delegated(
                    paths.take(sent as int),
                )
                &&& final(self).manifest.gc_queue@ == old(self).manifest.gc_queue@ + paths.skip(
                    sent as int,
                )
            }),
            *final(control) == (ControlHandle { queue: final(control).queue, ..*old(control) }),
            *final(self) == (DurableCell {
                manifest: ManifestCell {
                    gc_queue: final(self).manifest.gc_queue,
                    ..old(self).manifest
                },
                ..*old(self)
            }),
    {
        let mut left = unlinked(disposals);
        let ghost paths = left@;
        let ghost queued = control.queue@;
        let ghost held = self.manifest.gc_queue@;
        let ghost sent = queue_takes(queued.len(), paths.len());
        let ghost mut done: int = 0;
        proof {
            assert(paths.skip(0) =~= paths);
            assert(control.queue@ =~= queued + manifest::delegated(paths.take(0)));
            assert(self.manifest.gc_queue@ =~= held + Seq::<Vec<u8>>::empty());
        }
        while left.len() > 0
            invariant
                0 <= done <= paths.len(),
                left@ == paths.skip(done),
                sent == queue_takes(queued.len(), paths.len()),
                control.queue@ == queued + manifest::delegated(
                    paths.take(if done <= sent {
                        done
                    } else {
                        sent as int
                    }),
                ),
                self.manifest.gc_queue@ == held + (if done <= sent {
                    Seq::<Vec<u8>>::empty()
                } else {
                    paths.subrange(sent as int, done)
                }),
                *control == (ControlHandle { queue: control.queue, ..*old(control) }),
                *self == (DurableCell {
                    manifest: ManifestCell {
                        gc_queue: self.manifest.gc_queue,
                        ..old(self).manifest
                    },
                    ..*old(self)
                }),
            decreases left.len(),
        {
            let path = left.remove(0);
            if control.queue.len() < CONTROL_QUEUE {
                let _ = control.request_unlink(path);
            } else {
                self.manifest.defer_unlink(path);
            }
            proof {
                assert(path == paths[done]);
                done = done + 1;
                assert(left@ =~= paths.skip(done));
                if done <= sent {
                    assert(paths.take(done) =~= paths.take(done - 1).push(path));
                    assert(control.queue@ =~= queued + manifest::delegated(paths.take(done)));
                } else {
                    assert(self.manifest.gc_queue@ =~= held + paths.subrange(sent as int, done));
                }
            }
        }
        proof {
            assert(done == paths.len());
            assert(paths.subrange(sent as int, done) =~= paths.skip(sent as int));
            if done <= sent {
                assert(paths.skip(sent as int) =~= Seq::<Vec<u8>>::empty());
            }
        }
    }

    /// A manifest barrier landed.
    pub fn on_manifest_synced(&mut self)
        requires
            manifest::barrier_in_flight(old(self).manifest.phase),
        ensures
            *final(self) == (DurableCell {
                manifest: ManifestCell {
                    phase: manifest::synced_phase(old(self).manifest.phase),
                    ..old(self).manifest
                },
                ..*old(self)
            }),
    {
        self.manifest.on_synced();
    }

    /// A manifest barrier failed: the old recovery unit stays.
    pub fn on_manifest_error(&mut self)
        requires
            manifest::barrier_in_flight(old(self).manifest.phase),
            old(self).manifest.stats.aborted < u64::MAX,
        ensures
            *final(self) == (DurableCell {
                manifest: ManifestCell {
                    phase: manifest::retry_of(old(self).manifest.phase),
                    stats: ManifestStats {
                        aborted: (old(self).manifest.stats.aborted + 1) as u64,
                        ..old(self).manifest.stats
                    },
                    ..old(self).manifest
                },
                ..*old(self)
            }),
    {
        self.manifest.on_sync_error();
    }

    /// The manifest and truncation gauges.
    pub fn manifest_stats(&self) -> (r: ManifestStats)
        ensures
            r == self.manifest.stats,
    {
        self.manifest.stats()
    }

    /// The manual trigger: the latest request epoch rides the next checkpoint.
    pub fn request_ckpt(&mut self, epoch: u64)
        ensures
            *final(self) == (DurableCell {
                ckpt: CkptCell {
                    requested: true,
                    req_epoch: boards::max_epoch(old(self).ckpt.req_epoch, epoch),
                    ..old(self).ckpt
                },
                ..*old(self)
            }),
    {
        self.ckpt.request_ckpt(epoch);
    }

    /// The checkpoint gauges.
    pub fn ckpt_stats(&self, resident_bytes: u64) -> (r: CkptStats)
        ensures
            r == self.ckpt.gauges(self.records_appended, resident_bytes),
    {
        self.ckpt.stats(self.records_appended, resident_bytes)
    }
}

/// A checkpoint is published complete: every namespace was walked, every
/// planned index was emitted, the footer was written, no write is in flight,
/// and the sync over all of them landed.
pub proof fn law_published_is_complete(
    cell: DurableCell,
    total: u64,
    fits: bool,
    absent: bool,
    now: u64,
    units: u32,
)
    requires
        cell.stream_wf(),
        cell.slice_step(total, fits, absent, now, units) is Publish,
    ensures
        stream_of(cell.ckpt.phase) matches Some(st) && {
            &&& st.ns_idx == st.ns_ids@.len()
            &&& st.v2 ==> (st.sidecar_plan matches Some(plan) && st.sidecar_at == plan@.len())
            &&& st.footer_staged
            &&& st.in_flight is None
            &&& st.sync_issued
            &&& st.sync_done
        },
{
}

/// A slice issues nothing out of turn. A plane that failed rests. From the idle
/// phase a checkpoint begins exactly when no backoff runs, no manifest
/// transition is pending, the trigger fired and its marker fits; nothing else
/// comes of that phase. While a write or the completion sync is in flight the
/// slice rests. The completion sync comes once, after the footer's write, and
/// the publication after the sync.
pub proof fn law_slice_waits_its_turn(
    cell: DurableCell,
    total: u64,
    fits: bool,
    absent: bool,
    now: u64,
    units: u32,
)
    requires
        cell.stream_wf(),
    ensures
        ({
            let step = cell.slice_step(total, fits, absent, now, units);
            &&& cell.failed ==> step == SliceStep::Rest(0)
            &&& step is StageBegin <==> {
                &&& !cell.failed
                &&& cell.ckpt.phase is Idle
                &&& cell.ckpt.backoff_slices == 0
                &&& cell.manifest.phase is Idle
                &&& cell.ckpt.triggered(total, cell.records_appended)
                &&& fits
            }
            &&& step matches SliceStep::StageBegin(id) ==> id == cell.ckpt.next_id
            &&& cell.ckpt.phase is Idle && step !is StageBegin ==> step == SliceStep::Rest(0)
            &&& cell.ckpt.phase is AwaitBeginLsn ==> step == SliceStep::Rest(0)
            &&& stream_of(cell.ckpt.phase) matches Some(st) ==> {
                &&& st.in_flight is Some || (st.sync_issued && !st.sync_done) ==> step
                    == SliceStep::Rest(0)
                &&& step is Fill ==> !st.footer_staged
            }
            &&& step is Sync ==> (stream_of(cell.ckpt.phase) matches Some(st) && st.footer_staged
                && st.in_flight is None && !st.sync_issued)
            &&& step is Publish ==> (stream_of(cell.ckpt.phase) matches Some(st) && st.sync_done)
        }),
{
}

/// The device operations of one slice: the header's write, the completion
/// sync, or the writes a filling slice queues. `turns` is how its filling went.
pub open spec fn slice_ops(step: SliceStep, turns: Seq<FillTurn>) -> nat {
    match step {
        SliceStep::OpenStream { .. } => 1,
        SliceStep::Sync(_) => 1,
        SliceStep::Fill { .. } => fill::writes(turns),
        _ => 0,
    }
}

/// A slice issues at most one device operation, and none where the plane
/// failed, the phase is idle, or a write or its sync is in flight.
pub proof fn law_slice_issues_one_op(
    cell: DurableCell,
    total: u64,
    fits: bool,
    absent: bool,
    now: u64,
    units: u32,
    turns: Seq<FillTurn>,
)
    requires
        cell.stream_wf(),
        cell.slice_step(total, fits, absent, now, units) matches SliceStep::Fill {
            slice_cap,
            phase,
        } ==> fill::fill_runs(turns, slice_cap, phase),
    ensures
        ({
            let step = cell.slice_step(total, fits, absent, now, units);
            &&& slice_ops(step, turns) <= 1
            &&& cell.failed ==> slice_ops(step, turns) == 0
            &&& cell.ckpt.phase is Idle ==> slice_ops(step, turns) == 0
            &&& stream_of(cell.ckpt.phase) matches Some(st) ==> (st.in_flight is Some || (
            st.sync_issued && !st.sync_done) ==> slice_ops(step, turns) == 0)
        }),
{
    if let SliceStep::Fill { slice_cap, phase } = cell.slice_step(total, fits, absent, now, units) {
        fill::law_fill_writes_at_most_once(turns, slice_cap, phase);
    }
}

/// A checkpoint moves on whenever it can: a begin that was logged opens its
/// stream at that position, a durable image is published, a staged footer is
/// synced under the next sequence number, and an open stream with nothing in
/// flight is filled.
pub proof fn law_slice_moves_the_checkpoint_on(
    cell: DurableCell,
    total: u64,
    fits: bool,
    absent: bool,
    now: u64,
    units: u32,
)
    requires
        cell.stream_wf(),
        !cell.failed,
    ensures
        ({
            let step = cell.slice_step(total, fits, absent, now, units);
            let rate = cell.ckpt.cfg.stream_bytes_per_sec;
            &&& cell.ckpt.phase matches CkptPhase::Begun { id, begin_lsn } ==> step == (
            SliceStep::OpenStream { id, begin_lsn })
            &&& stream_of(cell.ckpt.phase) matches Some(st) ==> {
                &&& st.sync_done ==> step == SliceStep::Publish
                &&& st.footer_staged && !st.sync_issued && st.in_flight is None && st.write_seq
                    < u64::MAX ==> (step matches SliceStep::Sync(seq) && seq == st.write_seq + 1)
                &&& !st.footer_staged && st.in_flight is None && (!absent || rate == 0) ==> (
                step matches SliceStep::Fill { slice_cap, phase } && slice_cap == slice_bytes(
                    cell.ckpt.cfg.slice_bytes,
                    units,
                ) && (phase is Walking <==> !st.walk_done) && (phase is Sidecars <==> st.walk_done
                    && !st.sidecar_done))
            }
        }),
{
}

/// A slice streams no more than is configured and than its budget of kibibytes
/// allows, and something in any case.
pub proof fn law_slice_keeps_its_budget(configured: u32, units: u32)
    ensures
        configured >= 1 && units >= 1 ==> slice_bytes(configured, units) <= configured
            && slice_bytes(configured, units) <= units * 1024 && (slice_bytes(configured, units)
            == configured || slice_bytes(configured, units) == units * 1024),
        configured == 0 || units == 0 ==> slice_bytes(configured, units) == 1,
{
}

/// A commit is reported on the board of its own cell: the image and the time,
/// and the epoch it satisfies, which is never lowered. No other cell's slot
/// moves, and without a commit none does.
pub proof fn law_commit_is_reported_by_its_cell(
    board: Seq<boards::CkptSlotView>,
    m: ManifestCell,
    unix_now_ms: u64,
    c: int,
)
    requires
        m.cell < board.len(),
        0 <= c < board.len(),
    ensures
        ({
            let after = committed_board(board, m, unix_now_ms);
            &&& after.len() == board.len()
            &&& m.just_published is None ==> after == board
            &&& c != m.cell ==> after[c] == board[c]
            &&& m.just_published matches Some((epoch, id)) ==> {
                let slot = after[m.cell as int];
                &&& slot.ckpt_id == id
                &&& slot.unix_ms == unix_now_ms
                &&& slot.published >= epoch
                &&& slot.published >= board[m.cell as int].published
                &&& slot.published == epoch || slot.published == board[m.cell as int].published
                &&& slot.req == board[m.cell as int].req
            }
        }),
{
}

/// A sealed segment that was recycled is not unlinked, and every other is, in
/// order.
pub proof fn law_recycled_segments_are_kept(
    disposals: Seq<SealedDisposal>,
    rest: Seq<SealedDisposal>,
    path: Vec<u8>,
)
    ensures
        unlinks(seq![SealedDisposal::Unlink(path)] + rest) == seq![path] + unlinks(rest),
        unlinks(seq![SealedDisposal::Recycled] + rest) == unlinks(rest),
        unlinks(Seq::empty()) == Seq::<Vec<u8>>::empty(),
        unlinks(disposals + rest) == unlinks(disposals) + unlinks(rest),
    decreases disposals.len(),
{
    let u = seq![SealedDisposal::Unlink(path)] + rest;
    let k = seq![SealedDisposal::Recycled] + rest;
    assert(u.skip(1) =~= rest);
    assert(k.skip(1) =~= rest);
    if disposals.len() == 0 {
        assert(disposals + rest =~= rest);
        assert(unlinks(disposals) + unlinks(rest) =~= unlinks(rest));
    } else {
        law_recycled_segments_are_kept(disposals.skip(1), rest, path);
        assert((disposals + rest).skip(1) =~= disposals.skip(1) + rest);
        assert(unlinks(disposals + rest) =~= unlinks(disposals) + unlinks(rest));
    }
}

/// The control plane takes what it has room for, and no less.
pub proof fn law_queue_takes_what_fits(queued: nat, n: nat)
    ensures
        queue_takes(queued, n) <= n,
        queued <= 256 ==> queued + queue_takes(queued, n) <= 256,
        queue_takes(queued, n) < n ==> queued + queue_takes(queued, n) >= 256,
        queued > 256 ==> queue_takes(queued, n) == 0,
{
}

/// Walks behind a checkpoint are those pinned to an older image.
pub proof fn law_older_walks_are_behind(walks: Seq<Option<u64>>, w: u64, id: u64)
    ensures
        behind(walks.push(Some(w)), id) == behind(walks, id) + (if w < id {
            1nat
        } else {
            0nat
        }),
        behind(walks.push(None), id) == behind(walks, id),
        behind(Seq::empty(), id) == 0,
{
    assert(walks.push(Some(w)).drop_last() =~= walks);
    assert(walks.push(None).drop_last() =~= walks);
}

/// What a step of the checkpoint charges: the units it rested for, one for
/// opening the stream and for publishing, and nothing for the rest.
pub proof fn law_steps_charge_their_units(
    units: u32,
    id: u64,
    begin_lsn: Lsn,
    slice_cap: u32,
    phase: FillPhase,
)
    ensures
        SliceStep::Rest(units).charge() == units,
        (SliceStep::OpenStream { id, begin_lsn }).charge() == 1,
        SliceStep::Publish.charge() == 1,
        SliceStep::StageBegin(id).charge() == 0,
        SliceStep::Sync(id).charge() == 0,
        (SliceStep::Fill { slice_cap, phase }).charge() == 0,
{
}

/// A truncation slice and a commit drain what they were given: what was
/// truncated and removed is counted, the commit counts as reported, and
/// nothing else of the manifest moves.
pub proof fn law_drained_slice_is_counted(
    m: ManifestCell,
    gc_queue: Vec<Vec<u8>>,
    truncated: nat,
    gone: nat,
)
    requires
        m.stats.truncated_segments + truncated <= u64::MAX,
        m.stats.ick_orphans_removed + gone <= u64::MAX,
    ensures
        m.drained(gc_queue, truncated, gone).stats.truncated_segments
            == m.stats.truncated_segments + truncated,
        m.drained(gc_queue, truncated, gone).stats.ick_orphans_removed
            == m.stats.ick_orphans_removed + gone,
        m.drained(gc_queue, truncated, gone).stats.published == m.stats.published,
        m.drained(gc_queue, truncated, gone).just_published is None,
        m.drained(gc_queue, truncated, gone).gc_queue == gc_queue,
        m.drained(gc_queue, truncated, gone).floor == m.floor,
        m.drained(gc_queue, truncated, gone).named_ckpt == m.named_ckpt,
        m.drained(gc_queue, truncated, gone).phase == m.phase,
        m.drained(gc_queue, truncated, gone).sync_seq == m.sync_seq,
{
}

} // verus!
