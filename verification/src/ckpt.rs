//! Per-cell checkpoint and manifest state machines. The checkpoint machine
//! walks one image at a time from trigger to publication; the manifest machine
//! swaps the recovery unit to a published image. Both are driven in bounded
//! maintenance slices: they say which file operation comes next, and take its
//! outcome.
//!
//! A checkpoint I/O error aborts the checkpoint, never the process: the
//! previous checkpoint and the whole log stay valid.

pub mod manifest;

use vstd::prelude::*;
use vstd::string::*;
use crate::lsn::Lsn;
use crate::text;

verus! {

/// Entries pulled from a store per walk call.
pub const SCAN_CHUNK_ENTRIES: usize = 32;

/// Maintenance slices between retry attempts of an aborted manifest swap.
pub const RETRY_BACKOFF_SLICES: u32 = 64;

/// Maintenance slices between a checkpoint abort and the next trigger.
pub const ABORT_BACKOFF_SLICES: u32 = 64;

/// Per-slice cap on unlinks.
pub const MAX_UNLINKS_PER_SLICE: usize = 2;

/// Ceiling of the adaptive truncation budget.
pub const MAX_TRUNC_PER_SLICE_ADAPTIVE: usize = 16;

/// The errno of a refused direct write.
pub const EINVAL: i32 = 22;

/// How the staging file is written: directly, or through the page cache where
/// the filesystem refuses direct I/O.
#[derive(Copy, Clone, Debug, PartialEq, Eq, Structural)]
pub enum CkptIoMode {
    Direct,
    Buffered,
}

/// Checkpoint tunables.
#[derive(Copy, Clone, Debug, PartialEq, Eq, Structural)]
pub struct CkptConfig {
    /// Floor of the byte trigger; 0 leaves manual checkpoints only.
    pub interval_bytes: u64,
    /// Most bytes one slice streams.
    pub slice_bytes: u32,
    /// Pace of the walk without a device model; 0 is unpaced.
    pub stream_bytes_per_sec: u32,
    /// Records between checkpoints; 0 disables the record trigger.
    pub cap_records: u64,
}

/// Cumulative checkpoint gauges of one cell.
#[derive(Copy, Clone, Debug, PartialEq, Eq, Structural)]
pub struct CkptStats {
    pub completed: u64,
    pub aborted: u64,
    /// 1 when the staging mode in force is buffered.
    pub io_mode_buffered: u64,
    pub io_mode_downgrades: u64,
    pub last_unix_ms: u64,
    pub last_begin_lsn: u64,
    /// Live checkpoint-buffer bytes (0 when idle).
    pub buffer_bytes: u64,
    pub bytes_total: u64,
    pub bytes_last: u64,
    pub padding_bytes: u64,
    pub interval_bytes: u64,
    pub records_since_begin: u64,
}

/// All gauges zero.
pub open spec fn no_ckpt_stats() -> CkptStats {
    CkptStats {
        completed: 0,
        aborted: 0,
        io_mode_buffered: 0,
        io_mode_downgrades: 0,
        last_unix_ms: 0,
        last_begin_lsn: 0,
        buffer_bytes: 0,
        bytes_total: 0,
        bytes_last: 0,
        padding_bytes: 0,
        interval_bytes: 0,
        records_since_begin: 0,
    }
}

impl Default for CkptStats {
    fn default() -> (r: CkptStats)
        ensures
            r == no_ckpt_stats(),
    {
        CkptStats {
            completed: 0,
            aborted: 0,
            io_mode_buffered: 0,
            io_mode_downgrades: 0,
            last_unix_ms: 0,
            last_begin_lsn: 0,
            buffer_bytes: 0,
            bytes_total: 0,
            bytes_last: 0,
            padding_bytes: 0,
            interval_bytes: 0,
            records_since_begin: 0,
        }
    }
}

/// A queued write of the image: where it goes and how long it is.
#[derive(Copy, Clone, Debug, PartialEq, Eq, Structural)]
pub struct SectionLease {
    pub offset: u64,
    pub len: u32,
}

/// One index the sidecar phase emits.
#[derive(Copy, Clone, Debug, PartialEq, Eq, Structural)]
pub struct IdxSidecarMeta {
    pub ns: u32,
    pub index_id: u32,
    pub generation: u64,
    pub key_encoding_version: u16,
    pub fixed8: bool,
}

/// Streaming state of the checkpoint in flight.
#[derive(Debug)]
pub struct Streaming {
    pub id: u64,
    pub begin_lsn: Lsn,
    /// Pacing base in clock nanoseconds.
    pub opened_at: u64,
    /// Record bytes streamed so far.
    pub streamed_bytes: u64,
    /// Durable namespaces captured when the stream opened, ascending.
    pub ns_ids: Vec<u32>,
    pub ns_idx: usize,
    pub cursor: u64,
    /// Position inside an overflow chain where the walk resumes.
    pub resume: Option<u64>,
    /// Sections sealed because the next image would not fit.
    pub bound_splits: u64,
    /// Tiered-namespace walk pass.
    pub tier_pass: u8,
    pub walk_done: bool,
    /// Whether the stream can hold index sidecars.
    pub v2: bool,
    /// Captured once when the record walk completes.
    pub sidecar_plan: Option<Vec<IdxSidecarMeta>>,
    pub sidecar_at: usize,
    /// Where the current index resumes; `None` is its start.
    pub sidecar_cursor: Option<u64>,
    pub sidecar_emitted: u64,
    pub sidecar_done: bool,
    pub footer_staged: bool,
    pub sync_issued: bool,
    pub sync_done: bool,
    /// The queued write, at most one.
    pub in_flight: Option<SectionLease>,
    pub write_seq: u64,
}

/// Where a checkpoint stands. At most one is in flight per cell.
#[derive(Debug)]
pub enum CkptPhase {
    Idle,
    /// The begin marker is staged; its position resolves at the next seal.
    AwaitBeginLsn { id: u64, at: u64 },
    /// Begin position known; the next slice creates the staging file.
    Begun { id: u64, begin_lsn: Lsn },
    Stream(Streaming),
}

/// A freshly opened stream with its header write in flight.
pub open spec fn opened(
    st: Streaming,
    id: u64,
    begin_lsn: Lsn,
    ns_ids: Seq<u32>,
    v2: bool,
    now: u64,
    header: SectionLease,
) -> bool {
    &&& st.id == id
    &&& st.begin_lsn == begin_lsn
    &&& st.opened_at == now
    &&& st.streamed_bytes == 0
    &&& st.ns_ids@ == ns_ids
    &&& st.ns_idx == 0
    &&& st.cursor == 0
    &&& st.resume is None
    &&& st.bound_splits == 0
    &&& st.tier_pass == 0
    &&& !st.walk_done
    &&& st.v2 == v2
    &&& st.sidecar_plan is None
    &&& st.sidecar_at == 0
    &&& st.sidecar_cursor is None
    &&& st.sidecar_emitted == 0
    &&& !st.sidecar_done
    &&& !st.footer_staged
    &&& !st.sync_issued
    &&& !st.sync_done
    &&& st.in_flight == Some(header)
    &&& st.write_seq == 0
}

/// The checkpoint id a phase carries.
pub open spec fn phase_id(phase: CkptPhase) -> Option<u64> {
    match phase {
        CkptPhase::Idle => None,
        CkptPhase::AwaitBeginLsn { id, .. } => Some(id),
        CkptPhase::Begun { id, .. } => Some(id),
        CkptPhase::Stream(st) => Some(st.id),
    }
}

/// The checkpoint machine of one cell.
#[derive(Debug)]
pub struct CkptCell {
    pub cfg: CkptConfig,
    pub cell: u16,
    pub io_mode: CkptIoMode,
    /// In-band downgrades to buffered mode: 0 or 1 in a cell's life.
    pub io_mode_downgrades: u64,
    /// Slices left before an aborted checkpoint may be retried.
    pub backoff_slices: u32,
    pub next_id: u64,
    /// Manual trigger latch.
    pub requested: bool,
    /// Latest request epoch seen.
    pub req_epoch: u64,
    pub epoch_in_flight: u64,
    /// Frame bytes at the last completed checkpoint's begin.
    pub bytes_at_last: u64,
    pub bytes_at_begin: u64,
    pub records_at_last: u64,
    pub records_at_begin: u64,
    /// The byte trigger in force.
    pub interval_bytes: u64,
    pub phase: CkptPhase,
    pub stats: CkptStats,
    /// Publications whose walk of some tiered table began under an older id.
    pub walks_behind: u64,
}

/// The first id past every listed image: one more than the largest, 1 when
/// there is none.
pub open spec fn next_image_id(listed: Seq<Option<u64>>) -> nat
    decreases listed.len(),
{
    if listed.len() == 0 {
        1
    } else {
        let rest = next_image_id(listed.drop_last());
        match listed.last() {
            Some(id) => if id + 1 > rest {
                (id + 1) as nat
            } else {
                rest
            },
            None => rest,
        }
    }
}

/// What the boot probe of the checkpoint directory found.
#[derive(Copy, Clone, Debug, PartialEq, Eq, Structural)]
pub enum ProbeOutcome {
    /// Create, aligned write and sync all passed.
    Passed,
    /// The filesystem does not take direct I/O.
    Refused,
    /// Any other error: the boot's.
    Failed,
}

/// The staging mode a probe selects; `None` fails the boot.
pub open spec fn probed_mode(outcome: ProbeOutcome) -> Option<CkptIoMode> {
    match outcome {
        ProbeOutcome::Passed => Some(CkptIoMode::Direct),
        ProbeOutcome::Refused => Some(CkptIoMode::Buffered),
        ProbeOutcome::Failed => None,
    }
}

/// The staging mode a probe selects.
pub fn probe_direct(outcome: ProbeOutcome) -> (r: Option<CkptIoMode>)
    ensures
        r == probed_mode(outcome),
{
    match outcome {
        ProbeOutcome::Passed => Some(CkptIoMode::Direct),
        ProbeOutcome::Refused => Some(CkptIoMode::Buffered),
        ProbeOutcome::Failed => None,
    }
}

/// The slot and generation halves of a sequence number: its low 24 bits, and
/// the next 32.
pub open spec fn split_seq(seq: u64) -> (u32, u32) {
    ((seq % 0x100_0000) as u32, ((seq / 0x100_0000) % 0x1_0000_0000) as u32)
}

/// Splits a sequence number across a completion token's slot and generation.
pub fn ckpt_token(seq: u64) -> (r: (u32, u32))
    ensures
        r == split_seq(seq),
{
    ((seq % 0x100_0000) as u32, ((seq / 0x100_0000) % 0x1_0000_0000) as u32)
}

/// A token names its sequence number: the number comes back from the halves
/// while it is below the range both halves span.
pub proof fn law_token_names_its_seq(seq: u64)
    requires
        seq < 0x100_0000_0000_0000,
    ensures
        split_seq(seq).1 * 0x100_0000 + split_seq(seq).0 == seq,
        split_seq(seq).0 < 0x100_0000,
{
}

impl CkptCell {
    /// Whether the automatic or manual trigger fires at these totals.
    pub open spec fn triggered(&self, frame_bytes_total: u64, records_total: u64) -> bool {
        self.requested || (self.cfg.interval_bytes != 0 && (since(
            frame_bytes_total,
            self.bytes_at_last,
        ) >= self.interval_bytes || (self.cfg.cap_records > 0 && since(
            records_total,
            self.records_at_last,
        ) >= self.cfg.cap_records)))
    }

    /// Whether an abort can be counted and the next id named.
    pub open spec fn can_abort(&self) -> bool {
        &&& self.stats.aborted < u64::MAX
        &&& phase_id(self.phase) matches Some(id) ==> id < u64::MAX
    }

    /// The machine after an abort.
    pub open spec fn aborted(&self) -> CkptCell {
        match phase_id(self.phase) {
            None => *self,
            Some(id) => CkptCell {
                phase: CkptPhase::Idle,
                next_id: (id + 1) as u64,
                stats: CkptStats { aborted: (self.stats.aborted + 1) as u64, ..self.stats },
                backoff_slices: ABORT_BACKOFF_SLICES,
                ..*self
            },
        }
    }

    /// A machine at boot. `listed` holds the ids of the images in the
    /// directory, `io_mode` the probe's verdict, `interval` the trigger derived
    /// before any checkpoint wrote.
    pub fn new(
        cell: u16,
        cfg: CkptConfig,
        listed: &[Option<u64>],
        io_mode: CkptIoMode,
        interval: u64,
    ) -> (r: CkptCell)
        requires
            next_image_id(listed@) <= u64::MAX,
        ensures
            r.cfg == cfg,
            r.cell == cell,
            r.io_mode == io_mode,
            r.io_mode_downgrades == 0,
            r.backoff_slices == 0,
            r.next_id == next_image_id(listed@),
            !r.requested,
            r.req_epoch == 0,
            r.epoch_in_flight == 0,
            r.bytes_at_last == 0,
            r.bytes_at_begin == 0,
            r.records_at_last == 0,
            r.records_at_begin == 0,
            r.interval_bytes == interval,
            r.phase == CkptPhase::Idle,
            r.stats == no_ckpt_stats(),
            r.walks_behind == 0,
    {
        let mut next_id: u64 = 1;
        let mut i: usize = 0;
        proof {
            assert(listed@.take(0) =~= Seq::empty());
        }
        while i < listed.len()
            invariant
                i <= listed.len(),
                next_image_id(listed@) <= u64::MAX,
                next_id == next_image_id(listed@.take(i as int)),
            decreases listed.len() - i,
        {
            proof {
                lemma_next_id_grows(listed@, i + 1);
                assert(listed@.take(i + 1).drop_last() =~= listed@.take(i as int));
                assert(listed@.take(i + 1).last() == listed@[i as int]);
            }
            if let Some(id) = listed[i] {
                if id >= next_id {
                    next_id = id + 1;
                }
            }
            i += 1;
        }
        proof {
            assert(listed@.take(i as int) =~= listed@);
        }
        CkptCell {
            cfg,
            cell,
            io_mode,
            io_mode_downgrades: 0,
            backoff_slices: 0,
            next_id,
            requested: false,
            req_epoch: 0,
            epoch_in_flight: 0,
            bytes_at_last: 0,
            bytes_at_begin: 0,
            records_at_last: 0,
            records_at_begin: 0,
            interval_bytes: interval,
            phase: CkptPhase::Idle,
            stats: CkptStats::default(),
            walks_behind: 0,
        }
    }

    /// The id the next checkpoint will carry.
    pub fn pending_id(&self) -> (r: u64)
        ensures
            r == self.next_id,
    {
        self.next_id
    }

    /// The staging mode in force.
    pub fn io_mode(&self) -> (r: CkptIoMode)
        ensures
            r == self.io_mode,
    {
        self.io_mode
    }

    /// Whether the staging mode is direct.
    pub fn io_mode_direct(&self) -> (r: bool)
        ensures
            r == (self.io_mode == CkptIoMode::Direct),
    {
        self.io_mode == CkptIoMode::Direct
    }

    /// A checkpoint operation was refused under direct I/O: the cell turns to
    /// buffered I/O for good, the checkpoint aborts, and the next slice may
    /// retry at once. Returns the id whose staging file is to be removed.
    pub fn abort_refused_direct(&mut self) -> (r: Option<u64>)
        requires
            old(self).io_mode == CkptIoMode::Direct,
            old(self).can_abort(),
            old(self).io_mode_downgrades < u64::MAX,
        ensures
            r == phase_id(old(self).phase),
            *final(self) == (CkptCell {
                io_mode: CkptIoMode::Buffered,
                io_mode_downgrades: (old(self).io_mode_downgrades + 1) as u64,
                backoff_slices: 0,
                ..old(self).aborted()
            }),
    {
        self.io_mode = CkptIoMode::Buffered;
        self.io_mode_downgrades += 1;
        let r = self.abort();
        self.backoff_slices = 0;
        r
    }

    /// One slice of abort backoff elapsed; true while the trigger is held.
    pub fn tick_backoff(&mut self) -> (r: bool)
        ensures
            r == (old(self).backoff_slices > 0),
            *final(self) == (CkptCell {
                backoff_slices: if old(self).backoff_slices > 0 {
                    (old(self).backoff_slices - 1) as u32
                } else {
                    0
                },
                ..*old(self)
            }),
    {
        if self.backoff_slices > 0 {
            self.backoff_slices -= 1;
            return true;
        }
        false
    }

    /// Trigger check: a manual request, the byte threshold, or the record cap.
    /// A zero interval floor leaves manual checkpoints only.
    pub fn should_begin(&self, frame_bytes_total: u64, records_total: u64) -> (r: bool)
        ensures
            r == self.triggered(frame_bytes_total, records_total),
            !self.requested && self.cfg.interval_bytes != 0 && self.cfg.cap_records == 0
                && frame_bytes_total >= self.bytes_at_last ==> r == (frame_bytes_total
                - self.bytes_at_last >= self.interval_bytes),
    {
        if self.requested {
            return true;
        }
        if self.cfg.interval_bytes == 0 {
            return false;
        }
        let bytes_since: u64 = elapsed_since(frame_bytes_total, self.bytes_at_last);
        let records_since: u64 = elapsed_since(records_total, self.records_at_last);
        bytes_since >= self.interval_bytes || (self.cfg.cap_records > 0 && records_since
            >= self.cfg.cap_records)
    }

    /// The begin marker was staged at `at`: the manual latch is consumed, the
    /// request epoch rides this checkpoint, and the trigger base is captured.
    pub fn note_begin_staged(&mut self, at: u64, frame_bytes_total: u64, records_total: u64)
        ensures
            *final(self) == (CkptCell {
                requested: false,
                epoch_in_flight: old(self).req_epoch,
                bytes_at_begin: frame_bytes_total,
                records_at_begin: records_total,
                phase: CkptPhase::AwaitBeginLsn { id: old(self).next_id, at: at },
                ..*old(self)
            }),
    {
        self.requested = false;
        self.epoch_in_flight = self.req_epoch;
        self.bytes_at_begin = frame_bytes_total;
        self.records_at_begin = records_total;
        self.phase = CkptPhase::AwaitBeginLsn { id: self.next_id, at };
    }

    /// The frame carrying the begin marker was sealed at `begin_lsn`. Nothing
    /// changes when no marker waits.
    pub fn on_frame_sealed(&mut self, begin_lsn: Lsn)
        ensures
            *final(self) == (CkptCell {
                phase: match old(self).phase {
                    CkptPhase::AwaitBeginLsn { id, .. } => CkptPhase::Begun {
                        id: id,
                        begin_lsn: begin_lsn,
                    },
                    other => other,
                },
                ..*old(self)
            }),
    {
        if let CkptPhase::AwaitBeginLsn { id, .. } = &self.phase {
            let id: u64 = *id;
            self.phase = CkptPhase::Begun { id, begin_lsn };
        }
    }

    /// The staging file exists and its header block is staged.
    pub fn open_stream(
        &mut self,
        id: u64,
        begin_lsn: Lsn,
        ns_ids: Vec<u32>,
        v2: bool,
        now: u64,
        header: SectionLease,
    )
        ensures
            final(self).phase matches CkptPhase::Stream(st) && opened(
                st,
                id,
                begin_lsn,
                ns_ids@,
                v2,
                now,
                header,
            ),
            *final(self) == (CkptCell { phase: final(self).phase, ..*old(self) }),
    {
        self.phase = CkptPhase::Stream(
            Streaming {
                id,
                begin_lsn,
                opened_at: now,
                streamed_bytes: 0,
                ns_ids,
                ns_idx: 0,
                cursor: 0,
                resume: None,
                bound_splits: 0,
                tier_pass: 0,
                walk_done: false,
                v2,
                sidecar_plan: None,
                sidecar_at: 0,
                sidecar_cursor: None,
                sidecar_emitted: 0,
                sidecar_done: false,
                footer_staged: false,
                sync_issued: false,
                sync_done: false,
                in_flight: Some(header),
                write_seq: 0,
            },
        );
    }

    /// Whether the gauges of a publication of these sizes can be counted.
    pub open spec fn can_publish(&self, file_bytes: u64, padding: u64) -> bool {
        &&& self.phase matches CkptPhase::Stream(st) && st.sync_done && st.in_flight is None
            && st.id < u64::MAX
        &&& self.stats.bytes_total + file_bytes <= u64::MAX
        &&& self.stats.padding_bytes + padding <= u64::MAX
        &&& self.stats.completed < u64::MAX
    }

    /// The staging file was renamed to its final name: the checkpoint is
    /// published. The triggers re-base to the totals captured at its begin, and
    /// the next interval is the one derived from the bytes it wrote. Returns
    /// the published id and begin position.
    pub fn publish(
        &mut self,
        unix_now_ms: u64,
        file_bytes: u64,
        padding: u64,
        next_interval: u64,
    ) -> (r: (u64, Lsn))
        requires
            old(self).can_publish(file_bytes, padding),
        ensures
            old(self).phase matches CkptPhase::Stream(st) && r == (st.id, st.begin_lsn)
                && *final(self) == (CkptCell {
                next_id: (st.id + 1) as u64,
                bytes_at_last: old(self).bytes_at_begin,
                records_at_last: old(self).records_at_begin,
                interval_bytes: next_interval,
                phase: CkptPhase::Idle,
                stats: CkptStats {
                    bytes_total: (old(self).stats.bytes_total + file_bytes) as u64,
                    bytes_last: file_bytes,
                    padding_bytes: (old(self).stats.padding_bytes + padding) as u64,
                    interval_bytes: next_interval,
                    completed: (old(self).stats.completed + 1) as u64,
                    last_unix_ms: unix_now_ms,
                    last_begin_lsn: st.begin_lsn.packed(),
                    ..old(self).stats
                },
                ..*old(self)
            }),
            !old(self).requested && next_interval > 0 ==> !final(self).triggered(
                old(self).bytes_at_begin,
                old(self).records_at_begin,
            ),
    {
        let mut id: u64 = 0;
        let mut begin = Lsn { segment: 0, offset: 0 };
        if let CkptPhase::Stream(st) = &self.phase {
            id = st.id;
            begin = st.begin_lsn;
        }
        self.next_id = id + 1;
        self.bytes_at_last = self.bytes_at_begin;
        self.records_at_last = self.records_at_begin;
        self.stats.bytes_total += file_bytes;
        self.stats.bytes_last = file_bytes;
        self.stats.padding_bytes += padding;
        self.interval_bytes = next_interval;
        self.stats.interval_bytes = next_interval;
        self.stats.completed += 1;
        self.stats.last_unix_ms = unix_now_ms;
        self.stats.last_begin_lsn = begin.to_u64();
        self.phase = CkptPhase::Idle;
        (id, begin)
    }

    /// Aborts the checkpoint in progress: the trigger state is untouched, and
    /// the next attempt carries the next id after a backoff. Returns the id
    /// whose staging file is to be removed; `None` when nothing was in
    /// progress.
    pub fn abort(&mut self) -> (r: Option<u64>)
        requires
            old(self).can_abort(),
        ensures
            r == phase_id(old(self).phase),
            *final(self) == old(self).aborted(),
    {
        let id = match &self.phase {
            CkptPhase::Idle => None,
            CkptPhase::AwaitBeginLsn { id, .. } => Some(*id),
            CkptPhase::Begun { id, .. } => Some(*id),
            CkptPhase::Stream(st) => Some(st.id),
        };
        if let Some(id) = id {
            self.phase = CkptPhase::Idle;
            self.next_id = id + 1;
            self.stats.aborted += 1;
            self.backoff_slices = ABORT_BACKOFF_SLICES;
        }
        id
    }

    /// Counts publications whose tiered walks began under an older id.
    pub fn note_walks_behind(&mut self, behind: u64)
        requires
            old(self).walks_behind + behind <= u64::MAX,
        ensures
            *final(self) == (CkptCell {
                walks_behind: (old(self).walks_behind + behind) as u64,
                ..*old(self)
            }),
    {
        self.walks_behind += behind;
    }

    /// The manual trigger: latches a request and keeps the latest epoch.
    pub fn request_ckpt(&mut self, epoch: u64)
        ensures
            *final(self) == (CkptCell {
                requested: true,
                req_epoch: if old(self).req_epoch >= epoch {
                    old(self).req_epoch
                } else {
                    epoch
                },
                ..*old(self)
            }),
    {
        self.requested = true;
        if self.req_epoch < epoch {
            self.req_epoch = epoch;
        }
    }

    /// The gauges at `records_total` staged records; `resident_bytes` is what
    /// the stream's buffers hold.
    pub open spec fn gauges(&self, records_total: u64, resident_bytes: u64) -> CkptStats {
        CkptStats {
            buffer_bytes: if self.phase is Stream {
                resident_bytes
            } else {
                0
            },
            interval_bytes: self.interval_bytes,
            records_since_begin: since(
                records_total,
                if self.phase is Idle {
                    self.records_at_last
                } else {
                    self.records_at_begin
                },
            ),
            io_mode_buffered: if self.io_mode == CkptIoMode::Buffered {
                1
            } else {
                0
            },
            io_mode_downgrades: self.io_mode_downgrades,
            ..self.stats
        }
    }

    /// The gauges of the maintenance flush.
    pub fn stats(&self, records_total: u64, resident_bytes: u64) -> (r: CkptStats)
        ensures
            r == self.gauges(records_total, resident_bytes),
    {
        let buffer_bytes: u64 = match &self.phase {
            CkptPhase::Stream(_) => resident_bytes,
            _ => 0,
        };
        let base: u64 = match &self.phase {
            CkptPhase::Idle => self.records_at_last,
            _ => self.records_at_begin,
        };
        let buffered: u64 = if self.io_mode == CkptIoMode::Buffered {
            1
        } else {
            0
        };
        CkptStats {
            completed: self.stats.completed,
            aborted: self.stats.aborted,
            io_mode_buffered: buffered,
            io_mode_downgrades: self.io_mode_downgrades,
            last_unix_ms: self.stats.last_unix_ms,
            last_begin_lsn: self.stats.last_begin_lsn,
            buffer_bytes,
            bytes_total: self.stats.bytes_total,
            bytes_last: self.stats.bytes_last,
            padding_bytes: self.stats.padding_bytes,
            interval_bytes: self.interval_bytes,
            records_since_begin: elapsed_since(records_total, base),
        }
    }
}

/// How far `total` is past `base`, 0 when it is not.
pub open spec fn since(total: u64, base: u64) -> u64 {
    if total >= base {
        (total - base) as u64
    } else {
        0
    }
}

/// How far `total` is past `base`, 0 when it is not.
pub fn elapsed_since(total: u64, base: u64) -> (r: u64)
    ensures
        r == since(total, base),
{
    if total >= base {
        total - base
    } else {
        0
    }
}

proof fn lemma_next_id_grows(s: Seq<Option<u64>>, k: int)
    requires
        0 <= k <= s.len(),
    ensures
        next_image_id(s.take(k)) <= next_image_id(s),
    decreases s.len() - k,
{
    if k < s.len() {
        lemma_next_id_grows(s, k + 1);
        assert(s.take(k + 1).drop_last() =~= s.take(k));
    } else {
        assert(s.take(k) =~= s);
    }
}

/// The next id is past every listed image and at least 1.
pub proof fn law_next_id_is_fresh(listed: Seq<Option<u64>>)
    ensures
        next_image_id(listed) >= 1,
        forall|i: int|
            0 <= i < listed.len() ==> (#[trigger] listed[i] matches Some(id) ==> id
                < next_image_id(listed)),
    decreases listed.len(),
{
    if listed.len() > 0 {
        let rest = listed.drop_last();
        law_next_id_is_fresh(rest);
        assert forall|i: int| 0 <= i < listed.len() implies (#[trigger] listed[i] matches Some(id)
            ==> id < next_image_id(listed)) by {
            if i < rest.len() {
                assert(rest[i] == listed[i]);
            }
        }
    }
}

/// An abort leaves the trigger as it was: a machine that would have begun
/// still would, once the backoff has run out.
pub proof fn law_abort_keeps_trigger(c: CkptCell, frame_bytes: u64, records: u64)
    ensures
        c.aborted().triggered(frame_bytes, records) == c.triggered(frame_bytes, records),
        c.aborted().phase == CkptPhase::Idle,
{
}

/// A checkpoint is due by what was logged since the last completed one began:
/// without a manual request and below the record cap, it begins exactly when
/// the frame bytes since then reach the interval.
pub proof fn law_trigger_counts_since_last_begin(c: CkptCell, frame_bytes: u64, records: u64)
    requires
        !c.requested,
        c.cfg.interval_bytes != 0,
        c.cfg.cap_records > 0 ==> records - c.records_at_last < c.cfg.cap_records,
    ensures
        frame_bytes >= c.bytes_at_last ==> (c.triggered(frame_bytes, records) <==> frame_bytes
            - c.bytes_at_last >= c.interval_bytes),
        c.interval_bytes > 0 && frame_bytes <= c.bytes_at_last ==> !c.triggered(
            frame_bytes,
            records,
        ),
{
}

/// A manual request begins a checkpoint whatever was logged; without one, a
/// cell whose triggers are off never begins; and the record cap, where there
/// is one, begins a checkpoint once that many records were appended since the
/// last one began.
pub proof fn law_trigger_by_request_or_cap(c: CkptCell, frame_bytes: u64, records: u64)
    ensures
        c.requested ==> c.triggered(frame_bytes, records),
        !c.requested && c.cfg.interval_bytes == 0 ==> !c.triggered(frame_bytes, records),
        c.cfg.interval_bytes != 0 && c.cfg.cap_records > 0 && records - c.records_at_last
            >= c.cfg.cap_records ==> c.triggered(frame_bytes, records),
        !c.requested && c.interval_bytes > 0 && frame_bytes == c.bytes_at_last && (
        c.cfg.cap_records == 0 || records == c.records_at_last) ==> !c.triggered(
            frame_bytes,
            records,
        ),
{
}

/// Only what was logged since the last begin counts: two cells that differ
/// only in how much each had logged before it decide alike.
pub proof fn law_trigger_forgets_older_bytes(
    c: CkptCell,
    d: CkptCell,
    frame_bytes: u64,
    records: u64,
    older_bytes: u64,
    older_records: u64,
)
    requires
        frame_bytes + older_bytes <= u64::MAX,
        records + older_records <= u64::MAX,
        c.bytes_at_last + older_bytes <= u64::MAX,
        c.records_at_last + older_records <= u64::MAX,
        d == (CkptCell {
            bytes_at_last: (c.bytes_at_last + older_bytes) as u64,
            records_at_last: (c.records_at_last + older_records) as u64,
            ..c
        }),
    ensures
        d.triggered((frame_bytes + older_bytes) as u64, (records + older_records) as u64)
            == c.triggered(frame_bytes, records),
{
}

/// An abort burns the id of the attempt, counts it, and backs off for 64
/// slices; the request, the trigger's bases and the interval stay. Without an
/// attempt it changes nothing.
pub proof fn law_abort_burns_its_id(c: CkptCell)
    requires
        c.can_abort(),
    ensures
        c.phase is Idle ==> c.aborted() == c,
        c.phase !is Idle ==> c.aborted().stats.aborted == c.stats.aborted + 1
            && c.aborted().backoff_slices == 64 && c.aborted().phase is Idle,
        c.phase matches CkptPhase::AwaitBeginLsn { id, .. } ==> c.aborted().next_id == id + 1,
        c.phase matches CkptPhase::Begun { id, .. } ==> c.aborted().next_id == id + 1,
        c.phase matches CkptPhase::Stream(st) ==> c.aborted().next_id == st.id + 1,
        c.aborted().requested == c.requested,
        c.aborted().req_epoch == c.req_epoch,
        c.aborted().bytes_at_last == c.bytes_at_last,
        c.aborted().records_at_last == c.records_at_last,
        c.aborted().interval_bytes == c.interval_bytes,
        c.aborted().io_mode == c.io_mode,
        c.aborted().stats.completed == c.stats.completed,
{
}

/// The next image id is one past the highest listed, or 1 where no image is
/// listed.
pub proof fn law_next_id_follows_the_highest(listed: Seq<Option<u64>>)
    ensures
        next_image_id(listed) == 1 || exists|i: int|
            0 <= i < listed.len() && (#[trigger] listed[i] matches Some(id) && id + 1
                == next_image_id(listed)),
        (forall|i: int| 0 <= i < listed.len() ==> (#[trigger] listed[i]) is None)
            ==> next_image_id(listed) == 1,
    decreases listed.len(),
{
    if listed.len() > 0 {
        let rest = listed.drop_last();
        law_next_id_follows_the_highest(rest);
        if next_image_id(listed) != 1 {
            if next_image_id(listed) == next_image_id(rest) {
                let i = choose|i: int|
                    0 <= i < rest.len() && (#[trigger] rest[i] matches Some(id) && id + 1
                        == next_image_id(rest));
                assert(listed[i] == rest[i]);
            } else {
                assert(listed[listed.len() - 1] == listed.last());
            }
        }
        if forall|i: int| 0 <= i < listed.len() ==> (#[trigger] listed[i]) is None {
            assert forall|i: int| 0 <= i < rest.len() implies (#[trigger] rest[i]) is None by {
                assert(listed[i] is None);
            }
            assert(listed[listed.len() - 1] is None);
        }
    }
}

/// Direct I/O is used exactly where the probe passed, buffered I/O where the
/// file system refused it, and no cell starts on a probe that failed.
pub proof fn law_probe_decides_the_mode(outcome: ProbeOutcome)
    ensures
        probed_mode(outcome) == Some(CkptIoMode::Direct) <==> outcome == ProbeOutcome::Passed,
        probed_mode(outcome) == Some(CkptIoMode::Buffered) <==> outcome == ProbeOutcome::Refused,
        probed_mode(outcome) is None <==> outcome == ProbeOutcome::Failed,
{
}

/// What the gauges show: records appended since the checkpoint in flight
/// began, or since the last completed one where none is in flight; buffers
/// only while a stream holds them; the interval and the mode in force.
pub proof fn law_gauges_show_the_cell(c: CkptCell, records: u64, resident: u64)
    ensures
        c.phase is Idle && records >= c.records_at_last ==> c.gauges(
            records,
            resident,
        ).records_since_begin == records - c.records_at_last,
        c.phase !is Idle && records >= c.records_at_begin ==> c.gauges(
            records,
            resident,
        ).records_since_begin == records - c.records_at_begin,
        c.phase is Stream ==> c.gauges(records, resident).buffer_bytes == resident,
        c.phase !is Stream ==> c.gauges(records, resident).buffer_bytes == 0,
        c.gauges(records, resident).interval_bytes == c.interval_bytes,
        c.gauges(records, resident).io_mode_downgrades == c.io_mode_downgrades,
        c.gauges(records, resident).io_mode_buffered == 1 <==> c.io_mode == CkptIoMode::Buffered,
        c.gauges(records, resident).io_mode_buffered == 0 <==> c.io_mode == CkptIoMode::Direct,
        c.gauges(records, resident).completed == c.stats.completed,
        c.gauges(records, resident).aborted == c.stats.aborted,
        c.gauges(records, resident).last_unix_ms == c.stats.last_unix_ms,
        c.gauges(records, resident).last_begin_lsn == c.stats.last_begin_lsn,
        c.gauges(records, resident).bytes_total == c.stats.bytes_total,
        c.gauges(records, resident).bytes_last == c.stats.bytes_last,
        c.gauges(records, resident).padding_bytes == c.stats.padding_bytes,
{
}

/// An attempt is known by its id in every phase, and an idle cell has none.
pub proof fn law_attempt_is_known_by_its_id(phase: CkptPhase)
    ensures
        phase is Idle <==> phase_id(phase) is None,
        phase matches CkptPhase::AwaitBeginLsn { id, .. } ==> phase_id(phase) == Some(id),
        phase matches CkptPhase::Begun { id, .. } ==> phase_id(phase) == Some(id),
        phase matches CkptPhase::Stream(st) ==> phase_id(phase) == Some(st.id),
{
}

/// Only a durable image is published: its sync is done and nothing of it is in
/// flight.
pub proof fn law_only_a_durable_image_is_published(c: CkptCell, file_bytes: u64, padding: u64)
    requires
        c.can_publish(file_bytes, padding),
    ensures
        c.phase matches CkptPhase::Stream(st) && st.sync_done && st.in_flight is None,
{
}

/// What was logged since a base, and nothing where the count is behind it.
pub proof fn law_since_is_the_difference(total: u64, base: u64)
    ensures
        total >= base ==> since(total, base) + base == total,
        total < base ==> since(total, base) == 0,
{
}

/// The limits of a slice and of a retry: what one slice scans, unlinks and
/// forgets, and how long a failed attempt waits.
pub proof fn law_slices_have_their_limits()
    ensures
        SCAN_CHUNK_ENTRIES == 32,
        MAX_UNLINKS_PER_SLICE == 2,
        MAX_TRUNC_PER_SLICE_ADAPTIVE == 16,
        RETRY_BACKOFF_SLICES == 64,
        ABORT_BACKOFF_SLICES == RETRY_BACKOFF_SLICES,
        EINVAL == 22,
{
}

} // verus!
