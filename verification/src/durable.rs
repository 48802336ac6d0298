//! Per-cell durable plane: the frame-hold policies, the sequence-keyed ack map,
//! the frame ledger, and the gauges, driven from the loop's stage, seal, reap
//! and timer steps.
//!
//! Acks are keyed by sequence number, not by log position: a record gets its
//! sequence number when it is staged, its position only when its frame is
//! sealed. Frames are first-in first-out, so once the durable watermark covers
//! a frame's end it covers every sequence number staged into it.

pub mod cell;
pub mod ckpt;
pub mod fill;
pub mod gauges;

use std::collections::VecDeque;
use vstd::prelude::*;
use crate::lsn::Lsn;

verus! {

/// The unit every frame on an aligned segment is padded to.
pub const FRAME_ALIGN: u32 = 4096;

/// How a frame's barrier is carried.
#[derive(Copy, Clone, Debug, PartialEq, Eq, Structural)]
pub enum FramePlan {
    /// No barrier to carry.
    Plain,
    /// The write itself is durable on completion.
    WriteThrough,
    /// A linked sync follows the write.
    LinkedFsync,
    /// A barrier is due that cannot be carried yet.
    Wait,
}

/// How frames lie on a segment.
#[derive(Copy, Clone, Debug, PartialEq, Eq, Structural)]
pub enum FrameLayout {
    Packed,
    Aligned,
}

/// A frame's length on the device.
pub open spec fn padded_len(layout: FrameLayout, frame_len: u32) -> nat {
    match layout {
        FrameLayout::Packed => frame_len as nat,
        FrameLayout::Aligned => ((frame_len + FRAME_ALIGN - 1) / FRAME_ALIGN as int
            * FRAME_ALIGN) as nat,
    }
}

fn padded(layout: FrameLayout, frame_len: u32) -> (r: u64)
    ensures
        r == padded_len(layout, frame_len),
{
    match layout {
        FrameLayout::Packed => frame_len as u64,
        FrameLayout::Aligned => (frame_len as u64 + 4095) / 4096 * 4096,
    }
}

/// The frame-fill policy. On an aligned segment a frame without a barrier is
/// held until it reaches `target_bytes` on the device or `window` nanoseconds
/// pass since the seal step first saw it. A frame that carries a barrier is
/// never held: an ack waits on it.
#[derive(Copy, Clone, Debug, PartialEq, Eq, Structural)]
pub struct FillConfig {
    /// Hold bound in nanoseconds; 0 is off.
    pub window: u64,
    /// The padded length at which a held frame seals.
    pub target_bytes: u32,
}

/// What the fill policy says about the pending frame.
#[derive(Copy, Clone, Debug, PartialEq, Eq, Structural)]
pub enum FillDecision {
    Seal,
    Hold,
}

/// Whether `window` nanoseconds have passed since `since`; a clock that is not
/// running has not elapsed.
pub open spec fn elapsed(since: Option<u64>, now: u64, window: u64) -> bool {
    since matches Some(t) && now >= t + window
}

fn has_elapsed(since: Option<u64>, now: u64, window: u64) -> (r: bool)
    ensures
        r == elapsed(since, now, window),
{
    match since {
        Some(t) => now >= t && now - t >= window,
        None => false,
    }
}

impl Default for FillConfig {
    fn default() -> (r: FillConfig)
        ensures
            r == (FillConfig { window: 0, target_bytes: 0 }),
    {
        FillConfig { window: 0, target_bytes: 0 }
    }
}

impl FillConfig {
    /// The product default: a millisecond window and a 16 KiB target.
    pub fn design_point() -> (r: FillConfig)
        ensures
            r == (FillConfig { window: 1_000_000, target_bytes: 16_384 }),
    {
        FillConfig { window: 1_000_000, target_bytes: 16_384 }
    }

    /// Whether the policy is engaged.
    pub fn enabled(&self) -> (r: bool)
        ensures
            r == (self.window > 0),
    {
        self.window > 0
    }

    /// Whether the policy holds the pending frame.
    pub open spec fn holds(
        self,
        plan: FramePlan,
        layout: FrameLayout,
        frame_len: u32,
        since: Option<u64>,
        now: u64,
    ) -> bool {
        &&& self.window > 0
        &&& layout == FrameLayout::Aligned
        &&& plan == FramePlan::Plain
        &&& padded_len(layout, frame_len) < self.target_bytes
        &&& !elapsed(since, now, self.window)
    }

    /// The decision: hold while the policy is on, the frame lands on an
    /// aligned segment, carries no barrier, is below the target on the device,
    /// and the window has not passed. `since` is `None` at first sight.
    pub fn decide(
        &self,
        plan: FramePlan,
        layout: FrameLayout,
        frame_len: u32,
        since: Option<u64>,
        now: u64,
    ) -> (r: FillDecision)
        ensures
            r == (if self.holds(plan, layout, frame_len, since, now) {
                FillDecision::Hold
            } else {
                FillDecision::Seal
            }),
    {
        if !self.enabled() || layout != FrameLayout::Aligned {
            return FillDecision::Seal;
        }
        if plan != FramePlan::Plain || padded(layout, frame_len) >= self.target_bytes as u64 {
            return FillDecision::Seal;
        }
        if has_elapsed(since, now, self.window) {
            FillDecision::Seal
        } else {
            FillDecision::Hold
        }
    }
}

/// The group hold: a due linked-sync frame on a packed segment (or the
/// standalone sync over frames already written) waits, bounded, for the round
/// of records it just acked to come back. Write-through plans are never held.
#[derive(Copy, Clone, Debug, PartialEq, Eq, Structural)]
pub struct GroupHoldConfig {
    /// Hold bound in nanoseconds; 0 is off.
    pub window: u64,
}

/// What the group hold says about the pending frame.
#[derive(Copy, Clone, Debug, PartialEq, Eq, Structural)]
pub enum GroupDecision {
    Seal,
    Hold,
}

impl Default for GroupHoldConfig {
    fn default() -> (r: GroupHoldConfig)
        ensures
            r == (GroupHoldConfig { window: 0 }),
    {
        GroupHoldConfig { window: 0 }
    }
}

impl GroupHoldConfig {
    /// The measured arm: 250 microseconds.
    pub fn arm() -> (r: GroupHoldConfig)
        ensures
            r == (GroupHoldConfig { window: 250_000 }),
    {
        GroupHoldConfig { window: 250_000 }
    }

    /// A round smaller than this is a trickle, never a round to wait for.
    pub const MIN_GROUP: u64 = 2;

    /// Whether the policy is engaged.
    pub fn enabled(&self) -> (r: bool)
        ensures
            r == (self.window > 0),
    {
        self.window > 0
    }

    /// Whether the policy holds the pending barrier.
    pub open spec fn holds(
        self,
        plan: FramePlan,
        layout: FrameLayout,
        uncovered_records: u64,
        round_target: u64,
        since: Option<u64>,
        now: u64,
    ) -> bool {
        &&& self.window > 0
        &&& layout == FrameLayout::Packed
        &&& plan == FramePlan::LinkedFsync
        &&& round_target >= 2
        &&& uncovered_records < round_target
        &&& !elapsed(since, now, self.window)
    }

    /// The decision: hold while the policy is on, the barrier is a linked sync
    /// on a packed segment, the round is a group that has not re-arrived, and
    /// the window has not passed.
    pub fn decide(
        &self,
        plan: FramePlan,
        layout: FrameLayout,
        uncovered_records: u64,
        round_target: u64,
        since: Option<u64>,
        now: u64,
    ) -> (r: GroupDecision)
        ensures
            r == (if self.holds(plan, layout, uncovered_records, round_target, since, now) {
                GroupDecision::Hold
            } else {
                GroupDecision::Seal
            }),
    {
        if !self.enabled() || layout != FrameLayout::Packed {
            return GroupDecision::Seal;
        }
        if plan != FramePlan::LinkedFsync || round_target < Self::MIN_GROUP {
            return GroupDecision::Seal;
        }
        if uncovered_records >= round_target {
            return GroupDecision::Seal;
        }
        if has_elapsed(since, now, self.window) {
            GroupDecision::Seal
        } else {
            GroupDecision::Hold
        }
    }
}

/// The two hold policies never compete for one frame: whatever their windows,
/// a frame one of them holds, the other seals.
pub proof fn law_policies_never_compete(
    fill: FillConfig,
    group: GroupHoldConfig,
    plan: FramePlan,
    layout: FrameLayout,
    frame_len: u32,
    uncovered: u64,
    target: u64,
    fill_since: Option<u64>,
    group_since: Option<u64>,
    now: u64,
)
    ensures
        !(fill.holds(plan, layout, frame_len, fill_since, now) && group.holds(
            plan,
            layout,
            uncovered,
            target,
            group_since,
            now,
        )),
{
}

/// No frame that carries a write-through barrier is held by either policy, and
/// no hold outlives its window.
pub proof fn law_holds_are_bounded(
    fill: FillConfig,
    group: GroupHoldConfig,
    plan: FramePlan,
    layout: FrameLayout,
    frame_len: u32,
    uncovered: u64,
    target: u64,
    since: u64,
    now: u64,
)
    ensures
        plan == FramePlan::WriteThrough ==> !fill.holds(plan, layout, frame_len, Some(since), now)
            && !group.holds(plan, layout, uncovered, target, Some(since), now),
        now >= since + fill.window ==> !fill.holds(plan, layout, frame_len, Some(since), now),
        now >= since + group.window ==> !group.holds(
            plan,
            layout,
            uncovered,
            target,
            Some(since),
            now,
        ),
{
}

/// Boot-recovery stepping.
#[derive(Copy, Clone, Debug, PartialEq, Eq, Structural)]
pub struct RecoverConfig {
    /// Most bytes one recovery step consumes before yielding to the loop.
    pub step_bytes: u64,
    /// Pacing against the loop clock; `None` is flat out.
    pub throttle_bytes_per_sec: Option<u64>,
    /// Whether boot readers prefetch on a thread of their own.
    pub boot_prefetch: bool,
}

impl Default for RecoverConfig {
    fn default() -> (r: RecoverConfig)
        ensures
            r == (RecoverConfig {
                step_bytes: 8_388_608,
                throttle_bytes_per_sec: None,
                boot_prefetch: false,
            }),
    {
        RecoverConfig { step_bytes: 8_388_608, throttle_bytes_per_sec: None, boot_prefetch: false }
    }
}

/// The number a token's halves name.
pub open spec fn joined(slot: u32, generation: u32) -> nat {
    (slot as nat) + (generation as nat) * 0x100_0000
}

/// The completion token halves of a sync ticket or a write sequence number:
/// the low 24 bits and the rest.
pub fn write_token(seq: u64) -> (r: (u32, u32))
    requires
        seq < 0x100_0000_0000_0000,
    ensures
        r.0 < 0x100_0000,
        joined(r.0, r.1) == seq,
{
    ((seq % 0x100_0000) as u32, (seq / 0x100_0000) as u32)
}

/// The completion token halves of a sync ticket.
pub fn fsync_token(ticket: u64) -> (r: (u32, u32))
    requires
        ticket < 0x100_0000_0000_0000,
    ensures
        r.0 < 0x100_0000,
        joined(r.0, r.1) == ticket,
{
    write_token(ticket)
}

/// The write sequence number a token names.
pub fn write_seq_of(slot: u32, generation: u32) -> (r: u64)
    requires
        slot < 0x100_0000,
    ensures
        r == joined(slot, generation),
{
    slot as u64 + generation as u64 * 0x100_0000
}

/// The ticket a token names.
pub fn token_ticket(slot: u32, generation: u32) -> (r: u64)
    requires
        slot < 0x100_0000,
    ensures
        r == joined(slot, generation),
{
    write_seq_of(slot, generation)
}

/// Distinct numbers get distinct tokens.
pub proof fn law_tokens_are_distinct(slot1: u32, gen1: u32, slot2: u32, gen2: u32)
    requires
        slot1 < 0x100_0000,
        slot2 < 0x100_0000,
        joined(slot1, gen1) == joined(slot2, gen2),
    ensures
        slot1 == slot2,
        gen1 == gen2,
{
}

/// Whether some coverage point lies in `lo..hi`.
pub open spec fn covers_within(points: Seq<Lsn>, lo: Lsn, hi: Lsn) -> bool {
    exists|k: int|
        0 <= k < points.len() && lo.packed() <= (#[trigger] points[k]).packed() < hi.packed()
}

/// Whether entry `k` has no written successor.
pub open spec fn stops_at(map: Seq<(Lsn, u64)>, written: Lsn, k: int) -> bool {
    k + 1 >= map.len() || map[k + 1].0.packed() > written.packed()
}

/// Whether the walk over the map stops at or before entry `i`: one of the first
/// `i + 1` entries has no written successor.
pub open spec fn walk_stopped(map: Seq<(Lsn, u64)>, written: Lsn, i: int) -> bool {
    exists|k: int| 0 <= k <= i && #[trigger] stops_at(map, written, k)
}

/// Whether entry `i` survives: the walk stopped before it could be merged, or
/// a coverage point lies between it and its successor.
pub open spec fn kept(map: Seq<(Lsn, u64)>, written: Lsn, points: Seq<Lsn>, i: int) -> bool {
    walk_stopped(map, written, i) || covers_within(points, map[i].0, map[i + 1].0)
}

/// The surviving entries among the first `n`, in order.
pub open spec fn survivors(
    map: Seq<(Lsn, u64)>,
    written: Lsn,
    points: Seq<Lsn>,
    n: int,
) -> Seq<(Lsn, u64)>
    decreases n,
{
    if n <= 0 {
        Seq::empty()
    } else {
        let rest = survivors(map, written, points, n - 1);
        if kept(map, written, points, n - 1) {
            rest.push(map[n - 1])
        } else {
            rest
        }
    }
}

fn point_within(points: &[Lsn], lo: Lsn, hi: Lsn) -> (r: bool)
    ensures
        r == covers_within(points@, lo, hi),
{
    let a: u64 = lo.to_u64();
    let b: u64 = hi.to_u64();
    let mut i: usize = 0;
    while i < points.len()
        invariant
            i <= points.len(),
            a == lo.packed(),
            b == hi.packed(),
            forall|k: int|
                0 <= k < i ==> !(lo.packed() <= (#[trigger] points@[k]).packed() < hi.packed()),
        decreases points.len() - i,
    {
        let p: u64 = points[i].to_u64();
        if a <= p && p < b {
            proof {
                assert(lo.packed() <= points@[i as int].packed() < hi.packed());
            }
            return true;
        }
        i += 1;
    }
    false
}

proof fn lemma_stopped_survivors(
    map: Seq<(Lsn, u64)>,
    written: Lsn,
    points: Seq<Lsn>,
    j: int,
    n: int,
)
    requires
        0 <= j <= n <= map.len(),
        j < n ==> walk_stopped(map, written, j),
    ensures
        survivors(map, written, points, n) == survivors(map, written, points, j) + map.subrange(
            j,
            n,
        ),
    decreases n - j,
{
    if n > j {
        lemma_stopped_survivors(map, written, points, j, n - 1);
        let k = choose|k: int| 0 <= k <= j && #[trigger] stops_at(map, written, k);
        assert(0 <= k <= n - 1 && stops_at(map, written, k));
        assert(walk_stopped(map, written, n - 1));
        assert(map.subrange(j, n) =~= map.subrange(j, n - 1).push(map[n - 1]));
    } else {
        assert(map.subrange(j, n) =~= Seq::empty());
    }
}

/// Coalesces the ack map over the written prefix: an entry goes when its
/// successor is written and no coverage point lies between them. `points` are
/// the positions the pending syncs will cover up to.
pub fn coalesce_ack_map(map: &mut VecDeque<(Lsn, u64)>, written: Lsn, points: &[Lsn])
    ensures
        final(map)@ == survivors(old(map)@, written, points@, old(map)@.len() as int),
{
    let ghost orig = map@;
    let ghost mut j: int = 0;
    let end: u64 = written.to_u64();
    let mut i: usize = 0;
    let mut open = true;
    proof {
        assert(orig.subrange(0, orig.len() as int) =~= orig);
    }
    while open && i < map.len() && map.len() - i > 1
        invariant
            end == written.packed(),
            0 <= j <= orig.len(),
            i == survivors(orig, written, points@, j).len(),
            map@ == survivors(orig, written, points@, j) + orig.subrange(j, orig.len() as int),
            forall|k: int| 0 <= k < j ==> !#[trigger] stops_at(orig, written, k),
            !open ==> walk_stopped(orig, written, j),
            !open ==> j < orig.len(),
        decreases map.len() - i, if open {
            1int
        } else {
            0int
        },
    {
        let a = map[i].0;
        let b = map[i + 1].0;
        proof {
            assert(map@[i as int] == orig[j]);
            assert(map@[i + 1] == orig[j + 1]);
        }
        if b.to_u64() > end {
            open = false;
            proof {
                assert(stops_at(orig, written, j));
                assert(walk_stopped(orig, written, j));
            }
        } else {
            proof {
                assert(!stops_at(orig, written, j));
                assert(!walk_stopped(orig, written, j));
                assert(orig.subrange(j, orig.len() as int).skip(1) =~= orig.subrange(
                    j + 1,
                    orig.len() as int,
                ));
            }
            if point_within(points, a, b) {
                proof {
                    assert(survivors(orig, written, points@, j + 1) == survivors(
                        orig,
                        written,
                        points@,
                        j,
                    ).push(orig[j]));
                    assert(map@ =~= survivors(orig, written, points@, j + 1) + orig.subrange(
                        j + 1,
                        orig.len() as int,
                    ));
                    j = j + 1;
                }
                i += 1;
            } else {
                let ghost before = map@;
                let _ = map.remove(i);
                proof {
                    assert(survivors(orig, written, points@, j + 1) == survivors(
                        orig,
                        written,
                        points@,
                        j,
                    ));
                    assert(map@ =~= before.remove(i as int));
                    assert(map@ =~= survivors(orig, written, points@, j + 1) + orig.subrange(
                        j + 1,
                        orig.len() as int,
                    ));
                    j = j + 1;
                }
            }
        }
    }
    proof {
        let n = orig.len() as int;
        if j < n {
            if open {
                assert(stops_at(orig, written, j));
                assert(walk_stopped(orig, written, j));
            }
            lemma_stopped_survivors(orig, written, points@, j, n);
        } else {
            assert(orig.subrange(j, n) =~= Seq::empty());
        }
        assert(map@ =~= survivors(orig, written, points@, n));
    }
}

/// Whether frame ends strictly ascend.
pub open spec fn ends_ascend(map: Seq<(Lsn, u64)>) -> bool {
    forall|i: int, j: int|
        0 <= i < j < map.len() ==> (#[trigger] map[i]).0.packed() < (#[trigger] map[j]).0.packed()
}

/// How many leading frames the watermark covers.
pub open spec fn covered_count(map: Seq<(Lsn, u64)>, watermark: Lsn) -> nat
    decreases map.len(),
{
    if map.len() == 0 || map[0].0.packed() > watermark.packed() {
        0
    } else {
        1 + covered_count(map.skip(1), watermark)
    }
}

/// The sequence number a watermark acks up to: the last covered frame's.
pub open spec fn acked_by(map: Seq<(Lsn, u64)>, watermark: Lsn) -> Option<u64> {
    let n = covered_count(map, watermark);
    if n == 0 {
        None
    } else {
        Some(map[n - 1].1)
    }
}

pub proof fn lemma_covered_count(map: Seq<(Lsn, u64)>, watermark: Lsn, m: int)
    requires
        0 <= m <= map.len(),
        forall|k: int| 0 <= k < m ==> (#[trigger] map[k]).0.packed() <= watermark.packed(),
        m < map.len() ==> map[m].0.packed() > watermark.packed(),
    ensures
        covered_count(map, watermark) == m,
    decreases map.len(),
{
    if m > 0 {
        let rest = map.skip(1);
        assert forall|k: int| 0 <= k < m - 1 implies (#[trigger] rest[k]).0.packed()
            <= watermark.packed() by {
            assert(rest[k] == map[k + 1]);
        }
        lemma_covered_count(rest, watermark, m - 1);
    }
}

pub proof fn lemma_count_splits(map: Seq<(Lsn, u64)>, watermark: Lsn)
    ensures
        covered_count(map, watermark) <= map.len(),
        forall|k: int|
            0 <= k < covered_count(map, watermark) ==> (#[trigger] map[k]).0.packed()
                <= watermark.packed(),
        covered_count(map, watermark) < map.len() ==> map[covered_count(
            map,
            watermark,
        ) as int].0.packed() > watermark.packed(),
    decreases map.len(),
{
    if map.len() > 0 && map[0].0.packed() <= watermark.packed() {
        let rest = map.skip(1);
        lemma_count_splits(rest, watermark);
        assert forall|k: int| 0 <= k < covered_count(map, watermark) implies (
        #[trigger] map[k]).0.packed() <= watermark.packed() by {
            if k > 0 {
                assert(rest[k - 1] == map[k]);
            }
        }
    }
}

proof fn lemma_survivors_extend(
    map: Seq<(Lsn, u64)>,
    written: Lsn,
    points: Seq<Lsn>,
    m: int,
    n: int,
)
    requires
        0 <= m <= n <= map.len(),
    ensures
        survivors(map, written, points, m).len() <= survivors(map, written, points, n).len(),
        survivors(map, written, points, n).len() <= survivors(map, written, points, m).len() + (n
            - m),
        forall|k: int|
            0 <= k < survivors(map, written, points, m).len() ==> #[trigger] survivors(
                map,
                written,
                points,
                n,
            )[k] == survivors(map, written, points, m)[k],
        forall|k: int|
            survivors(map, written, points, m).len() <= k < survivors(map, written, points, n).len()
                ==> exists|q: int|
                m <= q < n && #[trigger] map[q] == (#[trigger] survivors(
                    map,
                    written,
                    points,
                    n,
                )[k]),
    decreases n - m,
{
    if n > m {
        lemma_survivors_extend(map, written, points, m, n - 1);
        let prev = survivors(map, written, points, n - 1);
        let now = survivors(map, written, points, n);
        assert forall|k: int|
            survivors(map, written, points, m).len() <= k < now.len() implies exists|q: int|
            m <= q < n && #[trigger] map[q] == (#[trigger] now[k]) by {
            if k < prev.len() {
                let q = choose|q: int| m <= q < n - 1 && #[trigger] map[q] == prev[k];
                assert(map[q] == now[k]);
            } else {
                assert(map[n - 1] == now[k]);
            }
        }
    }
}

/// Coalescing changes no ack: a watermark that lands on a coverage point acks
/// the same sequence number over the coalesced map as over the full one.
pub proof fn law_coalescing_keeps_acks(
    map: Seq<(Lsn, u64)>,
    written: Lsn,
    points: Seq<Lsn>,
    watermark: Lsn,
)
    requires
        ends_ascend(map),
        forall|i: int|
            0 <= i && i + 1 < map.len() && (#[trigger] map[i]).0.packed() <= watermark.packed()
                && watermark.packed() < map[i + 1].0.packed() && map[i + 1].0.packed()
                <= written.packed() ==> covers_within(points, map[i].0, map[i + 1].0),
    ensures
        acked_by(survivors(map, written, points, map.len() as int), watermark) == acked_by(
            map,
            watermark,
        ),
{
    let n = map.len() as int;
    let all = survivors(map, written, points, n);
    lemma_count_splits(map, watermark);
    let c = covered_count(map, watermark) as int;
    let head = survivors(map, written, points, c);
    lemma_survivors_extend(map, written, points, 0, c);
    lemma_survivors_extend(map, written, points, c, n);
    let m = head.len() as int;
    assert forall|k: int| 0 <= k < m implies (#[trigger] all[k]).0.packed()
        <= watermark.packed() by {
        let q = choose|q: int| 0 <= q < c && #[trigger] map[q] == head[k];
        assert(all[k] == head[k]);
    }
    if m < all.len() {
        let q = choose|q: int| c <= q < n && #[trigger] map[q] == all[m];
        if c < q {
            assert(map[c].0.packed() < map[q].0.packed());
        }
        assert(all[m].0.packed() > watermark.packed());
    }
    lemma_covered_count(all, watermark, m);
    if c > 0 {
        let last = c - 1;
        assert(map[last].0.packed() <= watermark.packed());
        if last + 1 >= n || map[last + 1].0.packed() > written.packed() {
            assert(stops_at(map, written, last));
            assert(walk_stopped(map, written, last));
        } else {
            assert(covers_within(points, map[last].0, map[last + 1].0));
        }
        assert(kept(map, written, points, last));
        assert(head.last() == map[last]);
        assert(all[m - 1] == head[m - 1]);
    }
}

/// How many points lie below a position.
pub open spec fn points_below(points: Seq<Lsn>, x: nat) -> nat
    decreases points.len(),
{
    if points.len() == 0 {
        0
    } else {
        points_below(points.drop_last(), x) + if points.last().packed() < x {
            1nat
        } else {
            0nat
        }
    }
}

proof fn lemma_points_below(points: Seq<Lsn>, a: nat, b: nat)
    requires
        a <= b,
    ensures
        points_below(points, a) <= points_below(points, b) <= points.len(),
        (exists|k: int| 0 <= k < points.len() && a <= (#[trigger] points[k]).packed() < b)
            ==> points_below(points, a) < points_below(points, b),
    decreases points.len(),
{
    if points.len() > 0 {
        let rest = points.drop_last();
        lemma_points_below(rest, a, b);
        if exists|k: int| 0 <= k < points.len() && a <= (#[trigger] points[k]).packed() < b {
            let k = choose|k: int|
                0 <= k < points.len() && a <= (#[trigger] points[k]).packed() < b;
            if k < rest.len() {
                assert(a <= rest[k].packed() < b);
            }
        }
    }
}

proof fn lemma_open_survivors(map: Seq<(Lsn, u64)>, written: Lsn, points: Seq<Lsn>, n: int)
    requires
        ends_ascend(map),
        0 <= n < map.len(),
        n > 0 ==> !walk_stopped(map, written, n - 1),
    ensures
        survivors(map, written, points, n).len() <= points_below(
            points,
            map[n].0.packed() as nat,
        ),
    decreases n,
{
    if n > 0 {
        if n - 1 > 0 && walk_stopped(map, written, n - 2) {
            let k = choose|k: int| 0 <= k <= n - 2 && #[trigger] stops_at(map, written, k);
            assert(walk_stopped(map, written, n - 1));
        }
        lemma_open_survivors(map, written, points, n - 1);
        assert(map[n - 1].0.packed() < map[n].0.packed());
        lemma_points_below(points, map[n - 1].0.packed() as nat, map[n].0.packed() as nat);
    }
}

/// The coalesced map is bounded: at most the frames behind the written prefix,
/// one per coverage point, and one more.
pub proof fn law_ack_map_is_bounded(map: Seq<(Lsn, u64)>, written: Lsn, points: Seq<Lsn>)
    requires
        ends_ascend(map),
    ensures
        survivors(map, written, points, map.len() as int).len() <= (map.len() - covered_count(
            map,
            written,
        )) + points.len() + 1,
{
    let n = map.len() as int;
    lemma_count_splits(map, written);
    let c = covered_count(map, written) as int;
    if c == 0 {
        lemma_survivors_extend(map, written, points, 0, n);
    } else {
        let last = c - 1;
        if last > 0 && walk_stopped(map, written, last - 1) {
            let k = choose|k: int| 0 <= k <= last - 1 && #[trigger] stops_at(map, written, k);
            assert(map[k + 1].0.packed() <= written.packed());
        }
        lemma_open_survivors(map, written, points, last);
        lemma_points_below(points, map[last].0.packed() as nat, map[last].0.packed() as nat);
        lemma_survivors_extend(map, written, points, last, n);
    }
}

/// Padding rounds an aligned frame up to whole blocks of 4096 bytes, never
/// past the next one; a packed frame is not padded.
pub proof fn law_padding_is_the_next_block(frame_len: u32)
    ensures
        padded_len(FrameLayout::Packed, frame_len) == frame_len,
        padded_len(FrameLayout::Aligned, frame_len) % 4096 == 0,
        frame_len <= padded_len(FrameLayout::Aligned, frame_len) < frame_len + 4096,
{
}

/// The fill policy holds a frame at first sight exactly when it is on, the
/// frame carries no barrier, it lands on an aligned segment, and some whole
/// number of blocks holds it below the target. From there it holds until its
/// window is over.
pub proof fn law_fill_waits_for_small_frames(
    fill: FillConfig,
    plan: FramePlan,
    layout: FrameLayout,
    frame_len: u32,
    since: u64,
    now: u64,
)
    ensures
        fill.holds(plan, layout, frame_len, None, now) <==> fill.window > 0 && plan
            == FramePlan::Plain && layout == FrameLayout::Aligned && (exists|blocks: nat|
            frame_len <= #[trigger] (blocks * 4096) < fill.target_bytes),
        fill.holds(plan, layout, frame_len, Some(since), now) <==> fill.holds(
            plan,
            layout,
            frame_len,
            None,
            now,
        ) && now < since + fill.window,
{
    let need = padded_len(FrameLayout::Aligned, frame_len);
    let blocks = ((frame_len + 4095) / 4096) as nat;
    assert(need == blocks * 4096);
    if exists|b: nat| frame_len <= #[trigger] (b * 4096) < fill.target_bytes {
        let b = choose|b: nat| frame_len <= #[trigger] (b * 4096) < fill.target_bytes;
        assert(blocks <= b);
    }
}

/// The group policy holds a barrier at first sight exactly when it is on, the
/// frame asks for a linked sync on a packed segment, the last round had at
/// least two records, and this one has fewer. From there it holds until its
/// window is over. A round that reached its target is never held, nor is a
/// lone writer.
pub proof fn law_group_waits_for_its_round(
    group: GroupHoldConfig,
    plan: FramePlan,
    layout: FrameLayout,
    uncovered: u64,
    target: u64,
    since: u64,
    now: u64,
)
    ensures
        uncovered >= target || target <= 1 ==> !group.holds(
            plan,
            layout,
            uncovered,
            target,
            None,
            now,
        ),
        group.holds(plan, layout, uncovered, target, None, now) ==> group.window > 0 && plan
            == FramePlan::LinkedFsync && layout == FrameLayout::Packed,
        group.window > 0 && uncovered < target && target >= 2 ==> group.holds(
            FramePlan::LinkedFsync,
            FrameLayout::Packed,
            uncovered,
            target,
            None,
            now,
        ),
        group.holds(plan, layout, uncovered, target, Some(since), now) <==> group.holds(
            plan,
            layout,
            uncovered,
            target,
            None,
            now,
        ) && now < since + group.window,
{
}

/// A token's slot is the low 24 bits of its sequence number and its generation
/// the rest.
pub proof fn law_token_splits_at_bit_24(slot: u32, generation: u32)
    requires
        slot < 0x100_0000,
    ensures
        joined(slot, generation) % 0x100_0000 == slot,
        joined(slot, generation) / 0x100_0000 == generation,
{
}

/// Coalescing is invisible to every sync that can still come: at each fsync
/// point in flight, and at every watermark at or past what is written, the
/// coalesced map acknowledges what the full map would.
pub proof fn law_coalescing_is_invisible_to_syncs(
    map: Seq<(Lsn, u64)>,
    written: Lsn,
    points: Seq<Lsn>,
    watermark: Lsn,
)
    requires
        ends_ascend(map),
        points.contains(watermark) || watermark.packed() >= written.packed(),
    ensures
        acked_by(survivors(map, written, points, map.len() as int), watermark) == acked_by(
            map,
            watermark,
        ),
{
    assert forall|i: int|
        0 <= i && i + 1 < map.len() && (#[trigger] map[i]).0.packed() <= watermark.packed()
            && watermark.packed() < map[i + 1].0.packed() && map[i + 1].0.packed()
            <= written.packed() implies covers_within(points, map[i].0, map[i + 1].0) by {
        let k = choose|k: int| 0 <= k < points.len() && points[k] == watermark;
        assert(points[k].packed() == watermark.packed());
    }
    law_coalescing_keeps_acks(map, written, points, watermark);
}

/// The acknowledgement at a watermark is that of the last frame that ends at
/// or below it: every such frame's records are acknowledged, and a frame that
/// ends above never is.
pub proof fn law_ack_is_the_last_covered(map: Seq<(Lsn, u64)>, watermark: Lsn, i: int)
    requires
        ends_ascend(map),
        0 <= i < map.len(),
        map[i].0.packed() <= watermark.packed(),
        i + 1 < map.len() ==> map[i + 1].0.packed() > watermark.packed(),
    ensures
        acked_by(map, watermark) == Some(map[i].1),
{
    assert forall|k: int| 0 <= k < i + 1 implies (#[trigger] map[k]).0.packed()
        <= watermark.packed() by {
        if k < i {
            assert(map[k].0.packed() < map[i].0.packed());
        }
    }
    lemma_covered_count(map, watermark, i + 1);
}

} // verus!
