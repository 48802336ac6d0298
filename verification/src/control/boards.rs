//! Node-wide boards with one slot per cell. Each slot has a single writer, the
//! owning cell; readers fold across slots.

use vstd::prelude::*;
use vstd::string::*;
use std::collections::BTreeMap;
use crate::lsn::Lsn;

verus! {

/// Recycled residue that recovery proved at boot: segments whose data ended at
/// a foreign-segment frame, and slacks classified as recycled residue.
#[derive(Copy, Clone, Debug, PartialEq, Eq, Structural)]
pub struct RecoveredResidue {
    pub segment_residue_stops: u64,
    pub recycled_residue_slacks: u64,
}

impl Default for RecoveredResidue {
    fn default() -> (r: RecoveredResidue)
        ensures
            r.segment_residue_stops == 0,
            r.recycled_residue_slacks == 0,
    {
        RecoveredResidue { segment_residue_stops: 0, recycled_residue_slacks: 0 }
    }
}

/// A boot's recovery decomposed by phase: loop-clock nanoseconds and bytes.
#[derive(Copy, Clone, Debug, Default, PartialEq, Eq, Structural)]
pub struct RecoverPhases {
    pub start_ns: u64,
    pub ckpt_ns: u64,
    pub ckpt_bytes: u64,
    pub replay_ns: u64,
    pub replay_bytes: u64,
    pub replay_frames: u64,
    pub audit_ns: u64,
    pub audit_bytes: u64,
    pub audit_valid_frames: u64,
    pub audit_foreign_frames: u64,
    pub finish_ns: u64,
    pub total_ns: u64,
}

/// One cell's boot-recovery slot on the [`RecoveryBoard`].
#[derive(Debug)]
pub struct CellRecoverySlot {
    ready: bool,
    bytes_total: u64,
    bytes_done: u64,
    segments_total: u64,
    segments_done: u64,
    records: u64,
    torn_at: u64,
    residue: RecoveredResidue,
    skipped_unknown_ns: u64,
    phase_ns: [u64; 5],
    phase_bytes: [u64; 3],
    phase: u8,
}

/// The mathematical content of a [`CellRecoverySlot`].
pub struct RecoverySlotView {
    pub ready: bool,
    pub bytes: (u64, u64),
    pub segments: (u64, u64),
    pub records: u64,
    pub torn_truncated_at: Option<u64>,
    pub residue: RecoveredResidue,
    pub skipped_unknown_ns: u64,
    pub phase_ns: Seq<u64>,
    pub phase_bytes: Seq<u64>,
    pub phase: u8,
}

impl View for CellRecoverySlot {
    type V = RecoverySlotView;

    closed spec fn view(&self) -> RecoverySlotView {
        RecoverySlotView {
            ready: self.ready,
            bytes: (self.bytes_done, self.bytes_total),
            segments: (self.segments_done, self.segments_total),
            records: self.records,
            torn_truncated_at: if self.torn_at == 0 {
                None
            } else {
                Some((self.torn_at - 1) as u64)
            },
            residue: self.residue,
            skipped_unknown_ns: self.skipped_unknown_ns,
            phase_ns: self.phase_ns@,
            phase_bytes: self.phase_bytes@,
            phase: self.phase,
        }
    }
}

/// A slot before its cell published anything.
pub open spec fn blank_recovery_slot() -> RecoverySlotView {
    RecoverySlotView {
        ready: false,
        bytes: (0, 0),
        segments: (0, 0),
        records: 0,
        torn_truncated_at: None,
        residue: RecoveredResidue { segment_residue_stops: 0, recycled_residue_slacks: 0 },
        skipped_unknown_ns: 0,
        phase_ns: seq![0u64, 0u64, 0u64, 0u64, 0u64],
        phase_bytes: seq![0u64, 0u64, 0u64],
        phase: 0,
    }
}

impl Default for CellRecoverySlot {
    fn default() -> (r: CellRecoverySlot)
        ensures
            r@ == blank_recovery_slot(),
    {
        let r = CellRecoverySlot {
            ready: false,
            bytes_total: 0,
            bytes_done: 0,
            segments_total: 0,
            segments_done: 0,
            records: 0,
            torn_at: 0,
            residue: RecoveredResidue { segment_residue_stops: 0, recycled_residue_slacks: 0 },
            skipped_unknown_ns: 0,
            phase_ns: [0, 0, 0, 0, 0],
            phase_bytes: [0, 0, 0],
            phase: 0,
        };
        proof {
            assert(r.phase_ns@ =~= seq![0u64, 0u64, 0u64, 0u64, 0u64]);
            assert(r.phase_bytes@ =~= seq![0u64, 0u64, 0u64]);
        }
        r
    }
}

/// The name of a recovery phase: codes 1 to 6 are recovery steps, codes from
/// 10 on are setup steps published before the loop starts.
pub open spec fn phase_label(code: u8) -> Seq<char> {
    if code == 0 {
        "spawned"@
    } else if code == 1 {
        "start"@
    } else if code == 2 {
        "checkpoint"@
    } else if code == 3 {
        "replay"@
    } else if code == 4 {
        "audit"@
    } else if code == 5 {
        "finish"@
    } else if code == 6 {
        "complete"@
    } else if code == 10 {
        "setup:listen"@
    } else if code == 11 {
        "setup:pool"@
    } else if code == 12 {
        "setup:driver"@
    } else if code == 13 {
        "setup:register"@
    } else if code == 14 {
        "setup:keyspace"@
    } else if code == 15 {
        "setup:plane"@
    } else if code == 16 {
        "setup:loop"@
    } else {
        "unknown"@
    }
}

impl CellRecoverySlot {
    /// Publishes one progress sample.
    pub fn publish(&mut self, bytes_done: u64, bytes_total: u64, segs_done: u64, segs_total: u64)
        ensures
            final(self)@ == (RecoverySlotView {
                bytes: (bytes_done, bytes_total),
                segments: (segs_done, segs_total),
                ..old(self)@
            }),
    {
        self.bytes_done = bytes_done;
        self.bytes_total = bytes_total;
        self.segments_done = segs_done;
        self.segments_total = segs_total;
    }

    /// Marks this cell recovered, once. A torn position below the largest
    /// packed value is kept.
    pub fn mark_ready(
        &mut self,
        records: u64,
        torn_truncated_at: Option<Lsn>,
        residue: RecoveredResidue,
        phases: RecoverPhases,
        skipped_unknown_ns: u64,
    )
        requires
            !old(self)@.ready,
            torn_truncated_at matches Some(lsn) ==> lsn.packed() < u64::MAX,
        ensures
            final(self)@ == (RecoverySlotView {
                ready: true,
                records: records,
                torn_truncated_at: match torn_truncated_at {
                    Some(lsn) => Some(lsn.packed()),
                    None => None,
                },
                residue: residue,
                skipped_unknown_ns: skipped_unknown_ns,
                phase_ns: seq![
                    phases.start_ns,
                    phases.ckpt_ns,
                    phases.replay_ns,
                    phases.audit_ns,
                    phases.finish_ns,
                ],
                phase_bytes: seq![phases.ckpt_bytes, phases.replay_bytes, phases.audit_bytes],
                ..old(self)@
            }),
    {
        self.records = records;
        self.skipped_unknown_ns = skipped_unknown_ns;
        self.torn_at = match torn_truncated_at {
            Some(lsn) => lsn.to_u64() + 1,
            None => 0,
        };
        self.residue = residue;
        self.phase_ns = [
            phases.start_ns,
            phases.ckpt_ns,
            phases.replay_ns,
            phases.audit_ns,
            phases.finish_ns,
        ];
        self.phase_bytes = [phases.ckpt_bytes, phases.replay_bytes, phases.audit_bytes];
        self.ready = true;
        proof {
            assert(self.phase_ns@ =~= seq![
                phases.start_ns,
                phases.ckpt_ns,
                phases.replay_ns,
                phases.audit_ns,
                phases.finish_ns,
            ]);
            assert(self.phase_bytes@ =~= seq![
                phases.ckpt_bytes,
                phases.replay_bytes,
                phases.audit_bytes,
            ]);
        }
    }

    /// The boot's phase decomposition: phase times in pipeline order, and the
    /// bytes the checkpoint, replay and audit phases read.
    pub fn phases(&self) -> (r: ([u64; 5], [u64; 3]))
        ensures
            r.0@ == self@.phase_ns,
            r.1@ == self@.phase_bytes,
    {
        (self.phase_ns, self.phase_bytes)
    }

    /// Tail records this boot skipped for an unexplained namespace id.
    pub fn records_skipped_unknown_ns(&self) -> (r: u64)
        ensures
            r == self@.skipped_unknown_ns,
    {
        self.skipped_unknown_ns
    }

    /// The recycled-residue facts of this cell's boot.
    pub fn residue(&self) -> (r: RecoveredResidue)
        ensures
            r == self@.residue,
    {
        self.residue
    }

    /// Publishes the phase the next recovery step will run.
    pub fn publish_phase(&mut self, code: u8)
        ensures
            final(self)@ == (RecoverySlotView { phase: code, ..old(self)@ }),
    {
        self.phase = code;
    }

    /// Last published phase code (0 when recovery never stepped).
    pub fn phase(&self) -> (r: u8)
        ensures
            r == self@.phase,
    {
        self.phase
    }

    /// The name of a phase code.
    pub fn phase_name(code: u8) -> (r: &'static str)
        ensures
            r@ == phase_label(code),
    {
        match code {
            0 => "spawned",
            1 => "start",
            2 => "checkpoint",
            3 => "replay",
            4 => "audit",
            5 => "finish",
            6 => "complete",
            10 => "setup:listen",
            11 => "setup:pool",
            12 => "setup:driver",
            13 => "setup:register",
            14 => "setup:keyspace",
            15 => "setup:plane",
            16 => "setup:loop",
            _ => "unknown",
        }
    }

    /// Whether this cell finished recovery.
    pub fn ready(&self) -> (r: bool)
        ensures
            r == self@.ready,
    {
        self.ready
    }

    /// Bytes done and bytes in all.
    pub fn bytes(&self) -> (r: (u64, u64))
        ensures
            r == self@.bytes,
    {
        (self.bytes_done, self.bytes_total)
    }

    /// Segments done and segments in all.
    pub fn segments(&self) -> (r: (u64, u64))
        ensures
            r == self@.segments,
    {
        (self.segments_done, self.segments_total)
    }

    /// Records recovered, valid once ready.
    pub fn records(&self) -> (r: u64)
        ensures
            r == self@.records,
    {
        self.records
    }

    /// Where this cell truncated a torn final write, if it did.
    pub fn torn_truncated_at(&self) -> (r: Option<Lsn>)
        ensures
            match self@.torn_truncated_at {
                Some(packed) => r matches Some(lsn) && lsn.packed() == packed,
                None => r is None,
            },
    {
        if self.torn_at == 0 {
            None
        } else {
            Some(Lsn::from_u64(self.torn_at - 1))
        }
    }
}

/// The sum of the first components.
pub open spec fn sum_done(s: Seq<RecoverySlotView>) -> nat
    decreases s.len(),
{
    if s.len() == 0 {
        0
    } else {
        sum_done(s.drop_last()) + s.last().bytes.0 as nat
    }
}

/// The sum of the second components.
pub open spec fn sum_total(s: Seq<RecoverySlotView>) -> nat
    decreases s.len(),
{
    if s.len() == 0 {
        0
    } else {
        sum_total(s.drop_last()) + s.last().bytes.1 as nat
    }
}

/// How many slots are ready.
pub open spec fn count_ready(s: Seq<RecoverySlotView>) -> nat
    decreases s.len(),
{
    if s.len() == 0 {
        0
    } else {
        count_ready(s.drop_last()) + if s.last().ready {
            1nat
        } else {
            0nat
        }
    }
}

proof fn lemma_sums_grow(s: Seq<RecoverySlotView>, k: int)
    requires
        0 <= k <= s.len(),
    ensures
        sum_done(s.take(k)) <= sum_done(s),
        sum_total(s.take(k)) <= sum_total(s),
    decreases s.len() - k,
{
    if k < s.len() {
        lemma_sums_grow(s, k + 1);
        assert(s.take(k + 1).drop_last() =~= s.take(k));
    } else {
        assert(s.take(k) =~= s);
    }
}

proof fn lemma_count_bound(s: Seq<RecoverySlotView>)
    ensures
        count_ready(s) <= s.len(),
    decreases s.len(),
{
    if s.len() > 0 {
        lemma_count_bound(s.drop_last());
    }
}

/// The node serves when every cell is ready: the count of ready cells reaches
/// the cell count exactly then.
pub proof fn law_all_ready_is_full_count(s: Seq<RecoverySlotView>)
    ensures
        (forall|i: int| 0 <= i < s.len() ==> (#[trigger] s[i]).ready) <==> count_ready(s)
            == s.len(),
    decreases s.len(),
{
    if s.len() > 0 {
        let rest = s.drop_last();
        law_all_ready_is_full_count(rest);
        lemma_count_bound(rest);
        if forall|i: int| 0 <= i < s.len() ==> (#[trigger] s[i]).ready {
            assert forall|i: int| 0 <= i < rest.len() implies (#[trigger] rest[i]).ready by {
                assert(s[i].ready);
            }
            assert(s[s.len() - 1].ready);
        }
        if count_ready(s) == s.len() {
            assert forall|i: int| 0 <= i < s.len() implies (#[trigger] s[i]).ready by {
                if i < rest.len() {
                    assert(rest[i].ready);
                }
            }
        }
    }
}

/// Node-wide boot-recovery progress: one slot per cell. The node answers
/// "loading" until every cell is ready.
#[derive(Debug)]
pub struct RecoveryBoard {
    cells: Vec<CellRecoverySlot>,
    start_unix_ms: u64,
}

spec fn recovery_views(s: Seq<CellRecoverySlot>) -> Seq<RecoverySlotView> {
    s.map_values(|c: CellRecoverySlot| c@)
}

impl View for RecoveryBoard {
    type V = Seq<RecoverySlotView>;

    closed spec fn view(&self) -> Seq<RecoverySlotView> {
        recovery_views(self.cells@)
    }
}

impl RecoveryBoard {
    /// When the board was made, in unix milliseconds.
    pub closed spec fn started(&self) -> u64 {
        self.start_unix_ms
    }

    /// A board of `cells` blank slots.
    pub fn new(cells: u16, start_unix_ms: u64) -> (r: RecoveryBoard)
        ensures
            r@ == Seq::new(cells as nat, |i: int| blank_recovery_slot()),
            r.started() == start_unix_ms,
    {
        let mut slots: Vec<CellRecoverySlot> = Vec::new();
        let mut i: u16 = 0;
        while i < cells
            invariant
                i <= cells,
                slots.len() == i,
                forall|k: int| 0 <= k < i ==> (#[trigger] slots@[k])@ == blank_recovery_slot(),
            decreases cells - i,
        {
            slots.push(CellRecoverySlot::default());
            i += 1;
        }
        let r = RecoveryBoard { cells: slots, start_unix_ms };
        proof {
            assert(r@ =~= Seq::new(cells as nat, |i: int| blank_recovery_slot()));
        }
        r
    }

    /// A cell's slot.
    pub fn slot(&self, cell: u16) -> (r: &CellRecoverySlot)
        requires
            cell < self@.len(),
        ensures
            r@ == self@[cell as int],
    {
        &self.cells[cell as usize]
    }

    /// A cell's slot, for its owner to write.
    pub fn slot_mut(&mut self, cell: u16) -> (r: &mut CellRecoverySlot)
        requires
            cell < old(self)@.len(),
        ensures
            (*r)@ == old(self)@[cell as int],
            final(self)@ == old(self)@.update(cell as int, (*final(r))@),
            final(self).started() == old(self).started(),
    {
        proof {
            let held = self.cells@;
            assert forall|c: CellRecoverySlot| #[trigger]
                recovery_views(held.update(cell as int, c)) == recovery_views(held).update(
                    cell as int,
                    c@,
                ) by {
                assert(recovery_views(held.update(cell as int, c)) =~= recovery_views(
                    held,
                ).update(cell as int, c@));
            }
        }
        &mut self.cells[cell as usize]
    }

    /// Whether every cell finished recovery.
    pub fn all_ready(&self) -> (r: bool)
        ensures
            r == (forall|i: int| 0 <= i < self@.len() ==> (#[trigger] self@[i]).ready),
    {
        let mut i: usize = 0;
        while i < self.cells.len()
            invariant
                i <= self.cells.len(),
                self@.len() == self.cells.len(),
                forall|k: int| 0 <= k < i ==> (#[trigger] self@[k]).ready,
            decreases self.cells.len() - i,
        {
            proof {
                assert(self@[i as int] == self.cells@[i as int]@);
            }
            if !self.cells[i].ready() {
                return false;
            }
            i += 1;
        }
        true
    }

    /// How many cells finished recovery.
    pub fn ready_cells(&self) -> (r: u64)
        ensures
            r == count_ready(self@),
    {
        let mut n: u64 = 0;
        let mut i: usize = 0;
        while i < self.cells.len()
            invariant
                i <= self.cells.len(),
                self@.len() == self.cells.len(),
                n == count_ready(self@.take(i as int)),
                n <= i,
            decreases self.cells.len() - i,
        {
            proof {
                assert(self@.take(i + 1).drop_last() =~= self@.take(i as int));
                assert(self@.take(i + 1).last() == self.cells@[i as int]@);
            }
            if self.cells[i].ready() {
                n += 1;
            }
            i += 1;
        }
        proof {
            assert(self@.take(i as int) =~= self@);
        }
        n
    }

    /// The number of cells.
    pub fn cell_count(&self) -> (r: u64)
        ensures
            r == self@.len(),
    {
        self.cells.len() as u64
    }

    /// Bytes done and bytes in all, over every cell.
    pub fn bytes(&self) -> (r: (u64, u64))
        requires
            sum_done(self@) <= u64::MAX,
            sum_total(self@) <= u64::MAX,
        ensures
            r.0 == sum_done(self@),
            r.1 == sum_total(self@),
    {
        let mut done: u64 = 0;
        let mut total: u64 = 0;
        let mut i: usize = 0;
        while i < self.cells.len()
            invariant
                i <= self.cells.len(),
                self@.len() == self.cells.len(),
                sum_done(self@) <= u64::MAX,
                sum_total(self@) <= u64::MAX,
                done == sum_done(self@.take(i as int)),
                total == sum_total(self@.take(i as int)),
            decreases self.cells.len() - i,
        {
            proof {
                lemma_sums_grow(self@, i + 1);
                assert(self@.take(i + 1).drop_last() =~= self@.take(i as int));
                assert(self@.take(i + 1).last() == self.cells@[i as int]@);
            }
            let (d, t) = self.cells[i].bytes();
            done += d;
            total += t;
            i += 1;
        }
        proof {
            assert(self@.take(i as int) =~= self@);
        }
        (done, total)
    }

    /// When the board was made, in unix milliseconds.
    pub fn start_unix_ms(&self) -> (r: u64)
        ensures
            r == self.started(),
    {
        self.start_unix_ms
    }
}

/// One cell's checkpoint request and publication slot.
#[derive(Copy, Clone, Debug, PartialEq, Eq, Structural)]
pub struct CkptSlot {
    /// Highest requested epoch.
    req: u64,
    /// Highest epoch whose checkpoint reached a durable manifest.
    published: u64,
    ckpt_id: u64,
    unix_ms: u64,
}

impl Default for CkptSlot {
    fn default() -> (r: CkptSlot)
        ensures
            r@ == (CkptSlotView { req: 0, published: 0, ckpt_id: 0, unix_ms: 0 }),
    {
        CkptSlot { req: 0, published: 0, ckpt_id: 0, unix_ms: 0 }
    }
}

/// The mathematical content of a [`CkptSlot`].
pub struct CkptSlotView {
    pub req: u64,
    pub published: u64,
    pub ckpt_id: u64,
    pub unix_ms: u64,
}

impl View for CkptSlot {
    type V = CkptSlotView;

    closed spec fn view(&self) -> CkptSlotView {
        CkptSlotView {
            req: self.req,
            published: self.published,
            ckpt_id: self.ckpt_id,
            unix_ms: self.unix_ms,
        }
    }
}

/// The larger of two epochs.
pub open spec fn max_epoch(a: u64, b: u64) -> u64 {
    if a >= b {
        a
    } else {
        b
    }
}

/// The larger of two epochs.
pub fn later(a: u64, b: u64) -> (r: u64)
    ensures
        r == max_epoch(a, b),
{
    if a >= b {
        a
    } else {
        b
    }
}

impl CkptSlot {
    /// Highest requested epoch.
    pub fn req(&self) -> (r: u64)
        ensures
            r == self@.req,
    {
        self.req
    }

    /// Raises the requested epoch; a lower request changes nothing.
    pub fn raise_req(&mut self, epoch: u64)
        ensures
            final(self)@ == (CkptSlotView { req: max_epoch(old(self)@.req, epoch), ..old(self)@ }),
    {
        self.req = later(self.req, epoch);
    }

    /// Publication at the manifest commit. The published epoch never falls.
    pub fn publish(&mut self, epoch: u64, ckpt_id: u64, unix_ms: u64)
        ensures
            final(self)@ == (CkptSlotView {
                req: old(self)@.req,
                published: max_epoch(old(self)@.published, epoch),
                ckpt_id: ckpt_id,
                unix_ms: unix_ms,
            }),
    {
        self.ckpt_id = ckpt_id;
        self.unix_ms = unix_ms;
        self.published = later(self.published, epoch);
    }

    /// Highest durably published epoch.
    pub fn published(&self) -> (r: u64)
        ensures
            r == self@.published,
    {
        self.published
    }

    /// When the last publication happened, in unix milliseconds.
    pub fn last_unix_ms(&self) -> (r: u64)
        ensures
            r == self@.unix_ms,
    {
        self.unix_ms
    }

    /// The last published checkpoint id.
    pub fn last_ckpt_id(&self) -> (r: u64)
        ensures
            r == self@.ckpt_id,
    {
        self.ckpt_id
    }
}

/// Node-wide checkpoint board: one slot per cell.
#[derive(Debug)]
pub struct CkptBoard {
    cells: Vec<CkptSlot>,
}

spec fn ckpt_views(s: Seq<CkptSlot>) -> Seq<CkptSlotView> {
    s.map_values(|c: CkptSlot| c@)
}

impl View for CkptBoard {
    type V = Seq<CkptSlotView>;

    closed spec fn view(&self) -> Seq<CkptSlotView> {
        ckpt_views(self.cells@)
    }
}

/// The lowest published epoch, 0 on an empty board.
pub open spec fn lowest_published(s: Seq<CkptSlotView>) -> u64
    decreases s.len(),
{
    if s.len() == 0 {
        0
    } else if s.len() == 1 {
        s[0].published
    } else {
        let rest = lowest_published(s.drop_last());
        if rest <= s.last().published {
            rest
        } else {
            s.last().published
        }
    }
}

/// The newest publication time, 0 on an empty board.
pub open spec fn newest_unix_ms(s: Seq<CkptSlotView>) -> u64
    decreases s.len(),
{
    if s.len() == 0 {
        0
    } else {
        max_epoch(newest_unix_ms(s.drop_last()), s.last().unix_ms)
    }
}

/// The sum of the published epochs.
pub open spec fn sum_published(s: Seq<CkptSlotView>) -> nat
    decreases s.len(),
{
    if s.len() == 0 {
        0
    } else {
        sum_published(s.drop_last()) + s.last().published as nat
    }
}

proof fn lemma_published_grow(s: Seq<CkptSlotView>, k: int)
    requires
        0 <= k <= s.len(),
    ensures
        sum_published(s.take(k)) <= sum_published(s),
    decreases s.len() - k,
{
    if k < s.len() {
        lemma_published_grow(s, k + 1);
        assert(s.take(k + 1).drop_last() =~= s.take(k));
    } else {
        assert(s.take(k) =~= s);
    }
}

/// A checkpoint request is complete on every cell exactly when the lowest
/// published epoch covers it.
pub proof fn law_min_published_covers_all(s: Seq<CkptSlotView>, epoch: u64)
    requires
        s.len() > 0,
    ensures
        lowest_published(s) >= epoch <==> (forall|i: int|
            0 <= i < s.len() ==> (#[trigger] s[i]).published >= epoch),
    decreases s.len(),
{
    if s.len() > 1 {
        let rest = s.drop_last();
        law_min_published_covers_all(rest, epoch);
        if lowest_published(s) >= epoch {
            assert forall|i: int| 0 <= i < s.len() implies (#[trigger] s[i]).published >= epoch by {
                if i < rest.len() {
                    assert(rest[i].published >= epoch);
                }
            }
        } else {
            if forall|i: int| 0 <= i < s.len() ==> (#[trigger] s[i]).published >= epoch {
                assert forall|i: int| 0 <= i < rest.len() implies (#[trigger] rest[i]).published
                    >= epoch by {
                    assert(s[i].published >= epoch);
                }
                assert(s[s.len() - 1].published >= epoch);
            }
        }
    }
}

impl CkptBoard {
    /// A board of `cells` blank slots.
    pub fn new(cells: u16) -> (r: CkptBoard)
        ensures
            r@ == Seq::new(
                cells as nat,
                |i: int| CkptSlotView { req: 0, published: 0, ckpt_id: 0, unix_ms: 0 },
            ),
    {
        let mut slots: Vec<CkptSlot> = Vec::new();
        let mut i: u16 = 0;
        while i < cells
            invariant
                i <= cells,
                slots.len() == i,
                forall|k: int|
                    0 <= k < i ==> (#[trigger] slots@[k])@ == (CkptSlotView {
                        req: 0,
                        published: 0,
                        ckpt_id: 0,
                        unix_ms: 0,
                    }),
            decreases cells - i,
        {
            slots.push(CkptSlot::default());
            i += 1;
        }
        let r = CkptBoard { cells: slots };
        proof {
            assert(r@ =~= Seq::new(
                cells as nat,
                |i: int| CkptSlotView { req: 0, published: 0, ckpt_id: 0, unix_ms: 0 },
            ));
        }
        r
    }

    /// A cell's slot.
    pub fn slot(&self, cell: u16) -> (r: &CkptSlot)
        requires
            cell < self@.len(),
        ensures
            r@ == self@[cell as int],
    {
        &self.cells[cell as usize]
    }

    /// A cell's slot, for writing.
    pub fn slot_mut(&mut self, cell: u16) -> (r: &mut CkptSlot)
        requires
            cell < old(self)@.len(),
        ensures
            (*r)@ == old(self)@[cell as int],
            final(self)@ == old(self)@.update(cell as int, (*final(r))@),
    {
        proof {
            let held = self.cells@;
            assert forall|c: CkptSlot| #[trigger]
                ckpt_views(held.update(cell as int, c)) == ckpt_views(held).update(
                    cell as int,
                    c@,
                ) by {
                assert(ckpt_views(held.update(cell as int, c)) =~= ckpt_views(held).update(
                    cell as int,
                    c@,
                ));
            }
        }
        &mut self.cells[cell as usize]
    }

    /// Raises the requested epoch of every cell.
    pub fn raise_all(&mut self, epoch: u64)
        ensures
            final(self)@ == old(self)@.map_values(
                |c: CkptSlotView| CkptSlotView { req: max_epoch(c.req, epoch), ..c },
            ),
    {
        let ghost before = self@;
        let mut i: usize = 0;
        while i < self.cells.len()
            invariant
                i <= self.cells.len(),
                self@.len() == self.cells.len(),
                before.len() == self.cells.len(),
                forall|k: int|
                    0 <= k < i ==> #[trigger] self@[k] == (CkptSlotView {
                        req: max_epoch(before[k].req, epoch),
                        ..before[k]
                    }),
                forall|k: int| i <= k < before.len() ==> #[trigger] self@[k] == before[k],
            decreases self.cells.len() - i,
        {
            let mut slot = self.cells[i];
            slot.raise_req(epoch);
            let ghost held = self.cells@;
            proof {
                assert(self@[i as int] == before[i as int]);
                assert(self@[i as int] == held[i as int]@);
            }
            self.cells.set(i, slot);
            proof {
                assert(self@ =~= ckpt_views(held).update(i as int, slot@));
            }
            i += 1;
        }
        proof {
            assert(self@ =~= before.map_values(
                |c: CkptSlotView| CkptSlotView { req: max_epoch(c.req, epoch), ..c },
            ));
        }
    }

    /// The lowest published epoch across cells.
    pub fn min_published(&self) -> (r: u64)
        ensures
            r == lowest_published(self@),
    {
        if self.cells.len() == 0 {
            return 0;
        }
        let mut low: u64 = self.cells[0].published();
        let mut i: usize = 1;
        proof {
            assert(self@.take(1)[0] == self.cells@[0]@);
        }
        while i < self.cells.len()
            invariant
                1 <= i <= self.cells.len(),
                self@.len() == self.cells.len(),
                low == lowest_published(self@.take(i as int)),
            decreases self.cells.len() - i,
        {
            proof {
                assert(self@.take(i + 1).drop_last() =~= self@.take(i as int));
                assert(self@.take(i + 1).last() == self.cells@[i as int]@);
            }
            let p: u64 = self.cells[i].published();
            if p < low {
                low = p;
            }
            i += 1;
        }
        proof {
            assert(self@.take(i as int) =~= self@);
        }
        low
    }

    /// The sum of published epochs, a change signal for parked waiters.
    pub fn published_sum(&self) -> (r: u64)
        requires
            sum_published(self@) <= u64::MAX,
        ensures
            r == sum_published(self@),
    {
        let mut sum: u64 = 0;
        let mut i: usize = 0;
        while i < self.cells.len()
            invariant
                i <= self.cells.len(),
                self@.len() == self.cells.len(),
                sum_published(self@) <= u64::MAX,
                sum == sum_published(self@.take(i as int)),
            decreases self.cells.len() - i,
        {
            proof {
                lemma_published_grow(self@, i + 1);
                assert(self@.take(i + 1).drop_last() =~= self@.take(i as int));
                assert(self@.take(i + 1).last() == self.cells@[i as int]@);
            }
            sum += self.cells[i].published();
            i += 1;
        }
        proof {
            assert(self@.take(i as int) =~= self@);
        }
        sum
    }

    /// The newest publication time across cells (0 before the first).
    pub fn max_unix_ms(&self) -> (r: u64)
        ensures
            r == newest_unix_ms(self@),
    {
        let mut top: u64 = 0;
        let mut i: usize = 0;
        while i < self.cells.len()
            invariant
                i <= self.cells.len(),
                self@.len() == self.cells.len(),
                top == newest_unix_ms(self@.take(i as int)),
            decreases self.cells.len() - i,
        {
            proof {
                assert(self@.take(i + 1).drop_last() =~= self@.take(i as int));
                assert(self@.take(i + 1).last() == self.cells@[i as int]@);
            }
            top = later(top, self.cells[i].last_unix_ms());
            i += 1;
        }
        proof {
            assert(self@.take(i as int) =~= self@);
        }
        top
    }
}

/// One cell's memory publication, and field for field the node-wide fold.
#[derive(Copy, Clone, Debug, PartialEq, Eq, Structural)]
pub struct MemoryGauges {
    pub used_bytes: u64,
    pub docs_live: u64,
    pub doc_tape_bytes: u64,
    pub doc_arena_bytes: u64,
    pub doc_resident_bytes: u64,
    pub doc_intern_bytes: u64,
    pub doc_slack_bytes: u64,
    pub doc_scratch_bytes: u64,
    pub doc_path_cache_bytes: u64,
    pub idx_tree_bytes: u64,
    pub idx_slack_bytes: u64,
}

impl Default for MemoryGauges {
    fn default() -> (r: MemoryGauges)
        ensures
            r == no_memory(),
    {
        MemoryGauges {
            used_bytes: 0,
            docs_live: 0,
            doc_tape_bytes: 0,
            doc_arena_bytes: 0,
            doc_resident_bytes: 0,
            doc_intern_bytes: 0,
            doc_slack_bytes: 0,
            doc_scratch_bytes: 0,
            doc_path_cache_bytes: 0,
            idx_tree_bytes: 0,
            idx_slack_bytes: 0,
        }
    }
}

/// All gauges zero.
pub open spec fn no_memory() -> MemoryGauges {
    MemoryGauges {
        used_bytes: 0,
        docs_live: 0,
        doc_tape_bytes: 0,
        doc_arena_bytes: 0,
        doc_resident_bytes: 0,
        doc_intern_bytes: 0,
        doc_slack_bytes: 0,
        doc_scratch_bytes: 0,
        doc_path_cache_bytes: 0,
        idx_tree_bytes: 0,
        idx_slack_bytes: 0,
    }
}

/// Sums of memory gauges, unbounded.
pub struct MemorySums {
    pub used_bytes: nat,
    pub docs_live: nat,
    pub doc_tape_bytes: nat,
    pub doc_arena_bytes: nat,
    pub doc_resident_bytes: nat,
    pub doc_intern_bytes: nat,
    pub doc_slack_bytes: nat,
    pub doc_scratch_bytes: nat,
    pub doc_path_cache_bytes: nat,
    pub idx_tree_bytes: nat,
    pub idx_slack_bytes: nat,
}

/// The field-wise sum of a list of publications.
pub open spec fn memory_sums(s: Seq<MemoryGauges>) -> MemorySums
    decreases s.len(),
{
    if s.len() == 0 {
        MemorySums {
            used_bytes: 0,
            docs_live: 0,
            doc_tape_bytes: 0,
            doc_arena_bytes: 0,
            doc_resident_bytes: 0,
            doc_intern_bytes: 0,
            doc_slack_bytes: 0,
            doc_scratch_bytes: 0,
            doc_path_cache_bytes: 0,
            idx_tree_bytes: 0,
            idx_slack_bytes: 0,
        }
    } else {
        let rest = memory_sums(s.drop_last());
        let g = s.last();
        MemorySums {
            used_bytes: rest.used_bytes + g.used_bytes as nat,
            docs_live: rest.docs_live + g.docs_live as nat,
            doc_tape_bytes: rest.doc_tape_bytes + g.doc_tape_bytes as nat,
            doc_arena_bytes: rest.doc_arena_bytes + g.doc_arena_bytes as nat,
            doc_resident_bytes: rest.doc_resident_bytes + g.doc_resident_bytes as nat,
            doc_intern_bytes: rest.doc_intern_bytes + g.doc_intern_bytes as nat,
            doc_slack_bytes: rest.doc_slack_bytes + g.doc_slack_bytes as nat,
            doc_scratch_bytes: rest.doc_scratch_bytes + g.doc_scratch_bytes as nat,
            doc_path_cache_bytes: rest.doc_path_cache_bytes + g.doc_path_cache_bytes as nat,
            idx_tree_bytes: rest.idx_tree_bytes + g.idx_tree_bytes as nat,
            idx_slack_bytes: rest.idx_slack_bytes + g.idx_slack_bytes as nat,
        }
    }
}

/// Whether every sum fits a gauge.
pub open spec fn sums_fit(t: MemorySums) -> bool {
    &&& t.used_bytes <= u64::MAX
    &&& t.docs_live <= u64::MAX
    &&& t.doc_tape_bytes <= u64::MAX
    &&& t.doc_arena_bytes <= u64::MAX
    &&& t.doc_resident_bytes <= u64::MAX
    &&& t.doc_intern_bytes <= u64::MAX
    &&& t.doc_slack_bytes <= u64::MAX
    &&& t.doc_scratch_bytes <= u64::MAX
    &&& t.doc_path_cache_bytes <= u64::MAX
    &&& t.idx_tree_bytes <= u64::MAX
    &&& t.idx_slack_bytes <= u64::MAX
}

/// Whether a fold reports the sums.
pub open spec fn folds(g: MemoryGauges, t: MemorySums) -> bool {
    &&& g.used_bytes == t.used_bytes
    &&& g.docs_live == t.docs_live
    &&& g.doc_tape_bytes == t.doc_tape_bytes
    &&& g.doc_arena_bytes == t.doc_arena_bytes
    &&& g.doc_resident_bytes == t.doc_resident_bytes
    &&& g.doc_intern_bytes == t.doc_intern_bytes
    &&& g.doc_slack_bytes == t.doc_slack_bytes
    &&& g.doc_scratch_bytes == t.doc_scratch_bytes
    &&& g.doc_path_cache_bytes == t.doc_path_cache_bytes
    &&& g.idx_tree_bytes == t.idx_tree_bytes
    &&& g.idx_slack_bytes == t.idx_slack_bytes
}

proof fn lemma_memory_grow(s: Seq<MemoryGauges>, k: int)
    requires
        0 <= k <= s.len(),
        sums_fit(memory_sums(s)),
    ensures
        sums_fit(memory_sums(s.take(k))),
    decreases s.len(),
{
    if k < s.len() {
        assert(s.take(k) =~= s.drop_last().take(k));
        lemma_memory_grow(s.drop_last(), k);
    } else {
        assert(s.take(k) =~= s);
    }
}

/// One cell's memory publication slot.
#[derive(Copy, Clone, Debug)]
pub struct MemorySlot {
    gauges: MemoryGauges,
}

impl View for MemorySlot {
    type V = MemoryGauges;

    closed spec fn view(&self) -> MemoryGauges {
        self.gauges
    }
}

impl Default for MemorySlot {
    fn default() -> (r: MemorySlot)
        ensures
            r@ == no_memory(),
    {
        MemorySlot { gauges: MemoryGauges::default() }
    }
}

impl MemorySlot {
    /// Publishes the owning cell's gauges.
    pub fn publish(&mut self, g: MemoryGauges)
        ensures
            final(self)@ == g,
    {
        self.gauges = g;
    }

    /// The last publication.
    pub fn read(&self) -> (r: MemoryGauges)
        ensures
            r == self@,
    {
        self.gauges
    }
}

/// Node-wide memory board: one slot per cell.
#[derive(Debug)]
pub struct MemoryBoard {
    cells: Vec<MemorySlot>,
}

spec fn memory_views(s: Seq<MemorySlot>) -> Seq<MemoryGauges> {
    s.map_values(|c: MemorySlot| c@)
}

impl View for MemoryBoard {
    type V = Seq<MemoryGauges>;

    closed spec fn view(&self) -> Seq<MemoryGauges> {
        memory_views(self.cells@)
    }
}

impl MemoryBoard {
    /// A board of `cells` blank slots.
    pub fn new(cells: u16) -> (r: MemoryBoard)
        ensures
            r@ == Seq::new(cells as nat, |i: int| no_memory()),
    {
        let mut slots: Vec<MemorySlot> = Vec::new();
        let mut i: u16 = 0;
        while i < cells
            invariant
                i <= cells,
                slots.len() == i,
                forall|k: int| 0 <= k < i ==> (#[trigger] slots@[k])@ == no_memory(),
            decreases cells - i,
        {
            slots.push(MemorySlot::default());
            i += 1;
        }
        let r = MemoryBoard { cells: slots };
        proof {
            assert(r@ =~= Seq::new(cells as nat, |i: int| no_memory()));
        }
        r
    }

    /// A cell's slot.
    pub fn slot(&self, cell: u16) -> (r: &MemorySlot)
        requires
            cell < self@.len(),
        ensures
            r@ == self@[cell as int],
    {
        &self.cells[cell as usize]
    }

    /// A cell's slot, for its owner to write.
    pub fn slot_mut(&mut self, cell: u16) -> (r: &mut MemorySlot)
        requires
            cell < old(self)@.len(),
        ensures
            (*r)@ == old(self)@[cell as int],
            final(self)@ == old(self)@.update(cell as int, (*final(r))@),
    {
        proof {
            let held = self.cells@;
            assert forall|c: MemorySlot| #[trigger]
                memory_views(held.update(cell as int, c)) == memory_views(held).update(
                    cell as int,
                    c@,
                ) by {
                assert(memory_views(held.update(cell as int, c)) =~= memory_views(held).update(
                    cell as int,
                    c@,
                ));
            }
        }
        &mut self.cells[cell as usize]
    }

    /// Field-wise sum across every cell's last publication.
    pub fn totals(&self) -> (r: MemoryGauges)
        requires
            sums_fit(memory_sums(self@)),
        ensures
            folds(r, memory_sums(self@)),
    {
        let mut t = MemoryGauges::default();
        let mut i: usize = 0;
        while i < self.cells.len()
            invariant
                i <= self.cells.len(),
                self@.len() == self.cells.len(),
                sums_fit(memory_sums(self@)),
                folds(t, memory_sums(self@.take(i as int))),
            decreases self.cells.len() - i,
        {
            proof {
                lemma_memory_grow(self@, i + 1);
                assert(self@.take(i + 1).drop_last() =~= self@.take(i as int));
                assert(self@.take(i + 1).last() == self.cells@[i as int]@);
            }
            let g = self.cells[i].read();
            t = MemoryGauges {
                used_bytes: t.used_bytes + g.used_bytes,
                docs_live: t.docs_live + g.docs_live,
                doc_tape_bytes: t.doc_tape_bytes + g.doc_tape_bytes,
                doc_arena_bytes: t.doc_arena_bytes + g.doc_arena_bytes,
                doc_resident_bytes: t.doc_resident_bytes + g.doc_resident_bytes,
                doc_intern_bytes: t.doc_intern_bytes + g.doc_intern_bytes,
                doc_slack_bytes: t.doc_slack_bytes + g.doc_slack_bytes,
                doc_scratch_bytes: t.doc_scratch_bytes + g.doc_scratch_bytes,
                doc_path_cache_bytes: t.doc_path_cache_bytes + g.doc_path_cache_bytes,
                idx_tree_bytes: t.idx_tree_bytes + g.idx_tree_bytes,
                idx_slack_bytes: t.idx_slack_bytes + g.idx_slack_bytes,
            };
            i += 1;
        }
        proof {
            assert(self@.take(i as int) =~= self@);
        }
        t
    }
}

/// Per-cell, per-index-slot readiness: each cell publishes the generation it
/// last reported ready for the index at a slot (0 when none). A report of
/// another generation reads as not ready.
#[derive(Debug)]
pub struct IndexBoard {
    rows: Vec<Vec<u64>>,
    index_slots: usize,
}

impl IndexBoard {
    /// Every cell has one word per slot.
    pub closed spec fn wf(&self) -> bool {
        forall|c: int| 0 <= c < self.rows.len() ==> (#[trigger] self.rows@[c]).len()
            == self.index_slots
    }

    /// The number of cells.
    pub closed spec fn cell_count(&self) -> nat {
        self.rows@.len()
    }

    /// The number of index slots.
    pub closed spec fn slot_count(&self) -> nat {
        self.index_slots as nat
    }

    /// The generation `cell` last reported ready for `slot`.
    pub closed spec fn report(&self, cell: int, slot: int) -> u64 {
        self.rows@[cell]@[slot]
    }

    /// A board on which no cell has reported anything.
    pub fn new(cells: u16, index_slots: usize) -> (r: IndexBoard)
        ensures
            r.wf(),
            r.cell_count() == cells,
            r.slot_count() == index_slots,
            forall|c: int, k: int|
                0 <= c < cells && 0 <= k < index_slots ==> #[trigger] r.report(c, k) == 0,
    {
        let mut rows: Vec<Vec<u64>> = Vec::new();
        let mut i: u16 = 0;
        while i < cells
            invariant
                i <= cells,
                rows.len() == i,
                forall|c: int| 0 <= c < i ==> (#[trigger] rows@[c]).len() == index_slots,
                forall|c: int, k: int|
                    0 <= c < i && 0 <= k < index_slots ==> #[trigger] rows@[c]@[k] == 0,
            decreases cells - i,
        {
            let mut row: Vec<u64> = Vec::new();
            let mut j: usize = 0;
            while j < index_slots
                invariant
                    j <= index_slots,
                    row.len() == j,
                    forall|k: int| 0 <= k < j ==> #[trigger] row@[k] == 0,
                decreases index_slots - j,
            {
                row.push(0);
                j += 1;
            }
            rows.push(row);
            i += 1;
        }
        IndexBoard { rows, index_slots }
    }

    fn store(&mut self, cell: u16, slot: usize, word: u64)
        requires
            old(self).wf(),
            cell < old(self).cell_count(),
            slot < old(self).slot_count(),
        ensures
            final(self).wf(),
            final(self).cell_count() == old(self).cell_count(),
            final(self).slot_count() == old(self).slot_count(),
            forall|c: int, k: int|
                0 <= c < old(self).cell_count() && 0 <= k < old(self).slot_count()
                    ==> #[trigger] final(self).report(c, k) == (if c == cell && k == slot {
                    word
                } else {
                    old(self).report(c, k)
                }),
    {
        let row = &mut self.rows[cell as usize];
        row[slot] = word;
    }

    /// This cell reports ready for the index at `slot`, at `generation`.
    pub fn publish_ready(&mut self, cell: u16, slot: usize, generation: u64)
        requires
            old(self).wf(),
            cell < old(self).cell_count(),
            slot < old(self).slot_count(),
            generation > 0,
        ensures
            final(self).wf(),
            final(self).cell_count() == old(self).cell_count(),
            final(self).slot_count() == old(self).slot_count(),
            forall|c: int, k: int|
                0 <= c < old(self).cell_count() && 0 <= k < old(self).slot_count()
                    ==> #[trigger] final(self).report(c, k) == (if c == cell && k == slot {
                    generation
                } else {
                    old(self).report(c, k)
                }),
    {
        self.store(cell, slot, generation);
    }

    /// Clears this cell's report.
    pub fn clear(&mut self, cell: u16, slot: usize)
        requires
            old(self).wf(),
            cell < old(self).cell_count(),
            slot < old(self).slot_count(),
        ensures
            final(self).wf(),
            final(self).cell_count() == old(self).cell_count(),
            final(self).slot_count() == old(self).slot_count(),
            forall|c: int, k: int|
                0 <= c < old(self).cell_count() && 0 <= k < old(self).slot_count()
                    ==> #[trigger] final(self).report(c, k) == (if c == cell && k == slot {
                    0
                } else {
                    old(self).report(c, k)
                }),
    {
        self.store(cell, slot, 0);
    }

    /// The generation `cell` last reported ready for `slot` (0 when none).
    pub fn cell_ready_generation(&self, cell: u16, slot: usize) -> (r: u64)
        requires
            self.wf(),
            cell < self.cell_count(),
            slot < self.slot_count(),
        ensures
            r == self.report(cell as int, slot as int),
    {
        self.rows[cell as usize][slot]
    }

    /// Whether every cell reports exactly `generation` for `slot`.
    pub fn fleet_ready(&self, slot: usize, generation: u64) -> (r: bool)
        requires
            self.wf(),
            slot < self.slot_count(),
            generation > 0,
        ensures
            r == (forall|c: int|
                0 <= c < self.cell_count() ==> #[trigger] self.report(c, slot as int)
                    == generation),
    {
        let mut i: usize = 0;
        while i < self.rows.len()
            invariant
                i <= self.rows.len(),
                self.wf(),
                slot < self.slot_count(),
                forall|c: int| 0 <= c < i ==> #[trigger] self.report(c, slot as int) == generation,
            decreases self.rows.len() - i,
        {
            if self.rows[i][slot] != generation {
                proof {
                    assert(self.report(i as int, slot as int) != generation);
                }
                return false;
            }
            i += 1;
        }
        true
    }
}

/// The place of one create's answer on the [`VerdictBoard`]. A copy names the
/// same place: whoever holds one reads what the writer set.
#[derive(Copy, Clone, Debug, PartialEq, Eq, Structural)]
pub struct CreateVerdict {
    /// The epoch of the persist that carries the create.
    pub epoch: u64,
}

/// What the writer decided about a create.
#[derive(Copy, Clone, Debug, PartialEq, Eq, Structural)]
pub enum CreateOutcome {
    /// The name was free across existing and pending entries.
    Accepted,
    /// An existing or earlier-pending entry holds the name.
    NameExists,
    /// The pending set is full.
    AtCapacity,
}

/// The catalog writer's answers to creates, each read by its origin once the
/// persist that carried the request ran.
#[derive(Debug)]
pub struct VerdictBoard {
    decided: BTreeMap<u64, CreateOutcome>,
}

impl View for VerdictBoard {
    type V = Map<u64, CreateOutcome>;

    closed spec fn view(&self) -> Map<u64, CreateOutcome> {
        self.decided@
    }
}

/// What a board holds under an epoch.
pub open spec fn decided_at(board: Map<u64, CreateOutcome>, epoch: u64) -> Option<CreateOutcome> {
    if board.contains_key(epoch) {
        Some(board[epoch])
    } else {
        None
    }
}

impl VerdictBoard {
    /// A board without answers.
    pub fn new() -> (r: VerdictBoard)
        ensures
            r@ == Map::<u64, CreateOutcome>::empty(),
    {
        VerdictBoard { decided: BTreeMap::new() }
    }
}

impl CreateVerdict {
    /// The verdict of the create that a persist carries.
    pub fn new(epoch: u64) -> (r: CreateVerdict)
        ensures
            r.epoch == epoch,
    {
        CreateVerdict { epoch }
    }

    /// Records the writer's decision.
    pub fn set(self, board: &mut VerdictBoard, outcome: CreateOutcome)
        ensures
            final(board)@ == old(board)@.insert(self.epoch, outcome),
    {
        broadcast use vstd::std_specs::btree::group_btree_axioms;

        board.decided.insert(self.epoch, outcome);
    }

    /// The writer's decision; `None` until it ran.
    pub fn get(self, board: &VerdictBoard) -> (r: Option<CreateOutcome>)
        ensures
            r == decided_at(board@, self.epoch),
    {
        broadcast use vstd::std_specs::btree::group_btree_axioms;

        match board.decided.get(&self.epoch) {
            Some(outcome) => Some(*outcome),
            None => None,
        }
    }

    /// Forgets the outcome, once nobody waits for it.
    pub fn release(self, board: &mut VerdictBoard)
        ensures
            final(board)@ == old(board)@.remove(self.epoch),
    {
        broadcast use vstd::std_specs::btree::group_btree_axioms;

        board.decided.remove(&self.epoch);
    }
}

/// A verdict is one place: once it is set, every copy of it reads the outcome,
/// and no other verdict changes.
pub proof fn law_verdict_is_shared(
    board: Map<u64, CreateOutcome>,
    verdict: CreateVerdict,
    copy: CreateVerdict,
    other: CreateVerdict,
    outcome: CreateOutcome,
)
    requires
        copy == verdict,
        other != verdict,
    ensures
        decided_at(board.insert(verdict.epoch, outcome), copy.epoch) == Some(outcome),
        decided_at(board.insert(verdict.epoch, outcome), other.epoch) == decided_at(
            board,
            other.epoch,
        ),
{
}

/// The newest checkpoint time is that of some cell, and no cell's is newer.
pub proof fn law_newest_is_the_latest(s: Seq<CkptSlotView>)
    ensures
        forall|i: int| 0 <= i < s.len() ==> (#[trigger] s[i]).unix_ms <= newest_unix_ms(s),
        s.len() > 0 ==> exists|i: int|
            0 <= i < s.len() && (#[trigger] s[i]).unix_ms == newest_unix_ms(s),
        s.len() == 0 ==> newest_unix_ms(s) == 0,
    decreases s.len(),
{
    if s.len() > 0 {
        let rest = s.drop_last();
        law_newest_is_the_latest(rest);
        assert forall|i: int| 0 <= i < s.len() implies (#[trigger] s[i]).unix_ms
            <= newest_unix_ms(s) by {
            if i < rest.len() {
                assert(rest[i] == s[i]);
            }
        }
        if s.last().unix_ms == newest_unix_ms(s) {
            assert(s[s.len() - 1].unix_ms == newest_unix_ms(s));
        } else {
            let i = choose|i: int|
                0 <= i < rest.len() && (#[trigger] rest[i]).unix_ms == newest_unix_ms(rest);
            assert(s[i].unix_ms == newest_unix_ms(s));
        }
    }
}

/// The lowest published epoch is some cell's own.
pub proof fn law_lowest_is_some_cells(s: Seq<CkptSlotView>)
    requires
        s.len() > 0,
    ensures
        exists|i: int| 0 <= i < s.len() && (#[trigger] s[i]).published == lowest_published(s),
    decreases s.len(),
{
    if s.len() == 1 {
        assert(s[0].published == lowest_published(s));
    } else {
        let rest = s.drop_last();
        law_lowest_is_some_cells(rest);
        if lowest_published(s) == s.last().published {
            assert(s[s.len() - 1].published == lowest_published(s));
        } else {
            let i = choose|i: int|
                0 <= i < rest.len() && (#[trigger] rest[i]).published == lowest_published(rest);
            assert(s[i].published == lowest_published(s));
        }
    }
}

/// Totals over the cells: one more cell adds what it reports, and no cells
/// report nothing.
pub proof fn law_totals_add_up(
    s: Seq<RecoverySlotView>,
    slot: RecoverySlotView,
    c: Seq<CkptSlotView>,
    ckpt: CkptSlotView,
)
    ensures
        sum_done(s.push(slot)) == sum_done(s) + slot.bytes.0,
        sum_total(s.push(slot)) == sum_total(s) + slot.bytes.1,
        count_ready(s.push(slot)) == count_ready(s) + (if slot.ready {
            1nat
        } else {
            0nat
        }),
        sum_published(c.push(ckpt)) == sum_published(c) + ckpt.published,
        sum_done(Seq::empty()) == 0,
        sum_total(Seq::empty()) == 0,
        count_ready(Seq::empty()) == 0,
        sum_published(Seq::empty()) == 0,
{
    assert(s.push(slot).drop_last() =~= s);
    assert(c.push(ckpt).drop_last() =~= c);
}

/// The memory totals add every gauge of every cell to its own total.
pub proof fn law_memory_totals_add_up(s: Seq<MemoryGauges>, g: MemoryGauges)
    ensures
        ({
            let t = memory_sums(s.push(g));
            let before = memory_sums(s);
            &&& t.used_bytes == before.used_bytes + g.used_bytes
            &&& t.docs_live == before.docs_live + g.docs_live
            &&& t.doc_tape_bytes == before.doc_tape_bytes + g.doc_tape_bytes
            &&& t.doc_arena_bytes == before.doc_arena_bytes + g.doc_arena_bytes
            &&& t.doc_resident_bytes == before.doc_resident_bytes + g.doc_resident_bytes
            &&& t.doc_intern_bytes == before.doc_intern_bytes + g.doc_intern_bytes
            &&& t.doc_slack_bytes == before.doc_slack_bytes + g.doc_slack_bytes
            &&& t.doc_scratch_bytes == before.doc_scratch_bytes + g.doc_scratch_bytes
            &&& t.doc_path_cache_bytes == before.doc_path_cache_bytes + g.doc_path_cache_bytes
            &&& t.idx_tree_bytes == before.idx_tree_bytes + g.idx_tree_bytes
            &&& t.idx_slack_bytes == before.idx_slack_bytes + g.idx_slack_bytes
        }),
        memory_sums(Seq::empty()).used_bytes == 0,
        memory_sums(seq![g]).used_bytes == g.used_bytes,
{
    reveal_with_fuel(memory_sums, 2);
    assert(s.push(g).drop_last() =~= s);
    assert(seq![g].drop_last() =~= Seq::<MemoryGauges>::empty());
}

/// The folded gauges are the totals, each under its own name.
pub proof fn law_folded_gauges_are_the_totals(g: MemoryGauges, t: MemorySums)
    requires
        folds(g, t),
    ensures
        g.used_bytes == t.used_bytes,
        g.docs_live == t.docs_live,
        g.doc_tape_bytes == t.doc_tape_bytes,
        g.doc_arena_bytes == t.doc_arena_bytes,
        g.doc_resident_bytes == t.doc_resident_bytes,
        g.doc_intern_bytes == t.doc_intern_bytes,
        g.doc_slack_bytes == t.doc_slack_bytes,
        g.doc_scratch_bytes == t.doc_scratch_bytes,
        g.doc_path_cache_bytes == t.doc_path_cache_bytes,
        g.idx_tree_bytes == t.idx_tree_bytes,
        g.idx_slack_bytes == t.idx_slack_bytes,
{
}

/// The higher of two epochs is one of them and below neither.
pub proof fn law_higher_epoch_wins(a: u64, b: u64)
    ensures
        max_epoch(a, b) >= a,
        max_epoch(a, b) >= b,
        max_epoch(a, b) == a || max_epoch(a, b) == b,
{
}

/// Each phase of a recovery has a name of its own, by its code.
pub proof fn law_phases_have_their_names(code: u8)
    ensures
        phase_label(0) == "spawned"@,
        phase_label(1) == "start"@,
        phase_label(2) == "checkpoint"@,
        phase_label(3) == "replay"@,
        phase_label(4) == "audit"@,
        phase_label(5) == "finish"@,
        phase_label(6) == "complete"@,
        phase_label(10) == "setup:listen"@,
        phase_label(11) == "setup:pool"@,
        phase_label(12) == "setup:driver"@,
        phase_label(13) == "setup:register"@,
        phase_label(14) == "setup:keyspace"@,
        phase_label(15) == "setup:plane"@,
        phase_label(16) == "setup:loop"@,
        7 <= code <= 9 || code > 16 ==> phase_label(code) == "unknown"@,
{
}

/// A recovery slot starts out with nothing done and not ready.
pub proof fn law_blank_slot_is_not_ready()
    ensures
        !blank_recovery_slot().ready,
        blank_recovery_slot().bytes == (0u64, 0u64),
        blank_recovery_slot().records == 0,
        blank_recovery_slot().torn_truncated_at is None,
        phase_label(blank_recovery_slot().phase) == "spawned"@,
{
}

} // verus!
