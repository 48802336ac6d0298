//! One cell's durable state and the steps that move it: staging, sealing,
//! write and sync completions, the everysec tick, and the next segment's
//! pre-zeroing.

use std::collections::VecDeque;
use vstd::prelude::*;
use crate::ckpt::manifest::ManifestCell;
use crate::ckpt::{CkptCell, CkptPhase};
use crate::durable::{
    coalesce_ack_map, FillConfig, FillDecision, FrameLayout, FramePlan, GroupDecision,
    GroupHoldConfig,
};
use crate::durable;
use crate::lsn::Lsn;
use crate::text;

verus! {

/// Bytes one pre-zeroing slice writes at most.
pub const ZERO_FILL_SLICE_BYTES: u64 = 262_144;

/// The ticket a frame's write completion settles, if any.
#[derive(Copy, Clone, Debug, PartialEq, Eq, Structural)]
pub enum FrameBarrier {
    Bare,
    Linked(u64),
    WriteThrough(u64),
}

/// A sealed frame awaiting its write completion.
#[derive(Copy, Clone, Debug, PartialEq, Eq, Structural)]
pub struct InFlightFrame {
    pub id: u64,
    /// Submission time in clock nanoseconds.
    pub submitted_at: u64,
    pub barrier: FrameBarrier,
}

/// One cell's durable state.
#[derive(Debug)]
pub struct DurableCell {
    pub ckpt: CkptCell,
    pub manifest: ManifestCell,
    /// Frames awaiting their write completion, in queue order.
    pub in_flight: Vec<InFlightFrame>,
    /// The pre-zeroing barrier in flight.
    pub zero_fill_ticket: Option<u64>,
    /// The probed write-through latency; 0 disarms the tripwire.
    pub fua_p50_us_probed: u64,
    pub fua_degraded_windows: u32,
    pub fua_tick_count_prev: u64,
    pub fua_tick_window_sum_us: u64,
    pub parked_total: u64,
    pub frame_waits_barrier: u64,
    pub frame_waits_rotation: u64,
    pub frame_waits_reorder: u64,
    pub frame_waits_fill: u64,
    pub frame_waits_group: u64,
    /// Set from the first step that held the pending frame until it issues.
    pub frame_held: bool,
    pub fill: FillConfig,
    pub fill_since: Option<u64>,
    pub group: GroupHoldConfig,
    pub group_since: Option<u64>,
    pub last_frame_records: u32,
    /// The population the last sync completion measured.
    pub group_round_target: u64,
    pub write_through_wanted: bool,
    /// Last sequence number assigned.
    pub last_seq: u64,
    /// Last sequence number acked.
    pub acked_seq: u64,
    /// Frames queued and not yet durable: end position and last sequence number.
    pub frame_seqs: VecDeque<(Lsn, u64)>,
    pub write_seq: u64,
    pub records_appended: u64,
    pub acks_gated: u64,
    pub tick_fsyncs_prev: u64,
    pub tick_acks_prev: u64,
    pub fsyncs_last_sec: u64,
    pub acks_last_sec: u64,
    /// A terminal log error froze the plane.
    pub failed: bool,
}

/// What the seal step reads from the log's parts.
#[derive(Copy, Clone, Debug, PartialEq, Eq, Structural)]
pub struct SealFacts {
    /// Records are staged and may be sealed.
    pub can_seal: bool,
    /// An extent barrier must land before the staged frame.
    pub extent_barrier_pending: bool,
    /// No frame is in flight.
    pub drained: bool,
    /// What the seal pacer said; asked only behind frames in flight.
    pub pace: Option<bool>,
    pub frame_len: u32,
    pub rotation_due: bool,
    pub plan: FramePlan,
    pub reorder_window_full: bool,
    pub active_layout: FrameLayout,
    pub next_layout: FrameLayout,
    /// A sync is due over frames already written, with nothing staged.
    pub standalone_due: bool,
}

/// Why a frame or a standalone sync is held.
#[derive(Copy, Clone, Debug, PartialEq, Eq, Structural)]
pub enum HoldReason {
    Pace,
    Rotation,
    Reorder,
    Barrier,
    Fill,
    Group,
}

/// What the seal step does.
#[derive(Copy, Clone, Debug, PartialEq, Eq, Structural)]
pub enum SealStep {
    Nothing,
    Held(HoldReason),
    /// Reserve space and queue the frame.
    Reserve,
    /// Issue a standalone sync.
    Standalone,
}

/// The seal step's verdict and the timer it arms.
#[derive(Copy, Clone, Debug, PartialEq, Eq, Structural)]
pub struct SealDecision {
    pub step: SealStep,
    /// Wake at this time to seal a frame held for fill.
    pub fill_timer: Option<u64>,
    /// Wake at this time to seal a held group.
    pub group_timer: Option<u64>,
}

/// What a sync completion releases.
#[derive(Copy, Clone, Debug, PartialEq, Eq, Structural)]
pub struct SyncedOutcome {
    /// The next segment is pre-zeroed and ready.
    pub zero_fill_ready: bool,
    /// Acks up to this sequence number may fire.
    pub acked: Option<u64>,
    /// Records newly covered.
    pub group_records: Option<u64>,
}

/// Saturating distance.
pub open spec fn above(a: u64, b: u64) -> u64 {
    if a >= b {
        (a - b) as u64
    } else {
        0
    }
}

pub fn distance(a: u64, b: u64) -> (r: u64)
    ensures
        r == above(a, b),
{
    if a >= b {
        a - b
    } else {
        0
    }
}

/// One more when the episode is new.
pub open spec fn counted(n: u64, held: bool) -> u64 {
    if held {
        n
    } else {
        (n + 1) as u64
    }
}

impl DurableCell {
    /// An open policy clock is a held frame; frame ends ascend; the sequence
    /// numbers of queued frames lie between the acked and the assigned one, in
    /// order.
    pub open spec fn wf(&self) -> bool {
        &&& self.fill_since is Some ==> self.frame_held
        &&& self.group_since is Some ==> self.frame_held
        &&& durable::ends_ascend(self.frame_seqs@)
        &&& self.acked_seq <= self.last_seq
        &&& forall|i: int|
            0 <= i < self.frame_seqs@.len() ==> self.acked_seq <= (
            #[trigger] self.frame_seqs@[i]).1 <= self.last_seq
        &&& forall|i: int, j: int|
            0 <= i < j < self.frame_seqs@.len() ==> (#[trigger] self.frame_seqs@[i]).1 <= (
            #[trigger] self.frame_seqs@[j]).1
    }

    /// A cell at boot.
    pub fn new(
        ckpt: CkptCell,
        manifest: ManifestCell,
        fua_p50_us_probed: u64,
        fill: FillConfig,
        group: GroupHoldConfig,
    ) -> (r: DurableCell)
        ensures
            r.wf(),
            r.ckpt == ckpt,
            r.manifest == manifest,
            r.fua_p50_us_probed == fua_p50_us_probed,
            r.fill == fill,
            r.group == group,
            r.in_flight@ == Seq::<InFlightFrame>::empty(),
            r.frame_seqs@ == Seq::<(Lsn, u64)>::empty(),
            r.zero_fill_ticket is None,
            r.fua_degraded_windows == 0,
            r.fua_tick_count_prev == 0,
            r.fua_tick_window_sum_us == 0,
            r.parked_total == 0,
            r.frame_waits_barrier == 0,
            r.frame_waits_rotation == 0,
            r.frame_waits_reorder == 0,
            r.frame_waits_fill == 0,
            r.frame_waits_group == 0,
            !r.frame_held,
            r.fill_since is None,
            r.group_since is None,
            r.last_frame_records == 0,
            r.group_round_target == 0,
            r.write_through_wanted,
            r.last_seq == 0,
            r.acked_seq == 0,
            r.write_seq == 0,
            r.records_appended == 0,
            r.acks_gated == 0,
            r.tick_fsyncs_prev == 0,
            r.tick_acks_prev == 0,
            r.fsyncs_last_sec == 0,
            r.acks_last_sec == 0,
            !r.failed,
    {
        DurableCell {
            ckpt,
            manifest,
            in_flight: Vec::new(),
            zero_fill_ticket: None,
            fua_p50_us_probed,
            fua_degraded_windows: 0,
            fua_tick_count_prev: 0,
            fua_tick_window_sum_us: 0,
            parked_total: 0,
            frame_waits_barrier: 0,
            frame_waits_rotation: 0,
            frame_waits_reorder: 0,
            frame_waits_fill: 0,
            frame_waits_group: 0,
            frame_held: false,
            fill,
            fill_since: None,
            group,
            group_since: None,
            last_frame_records: 0,
            group_round_target: 0,
            write_through_wanted: true,
            last_seq: 0,
            acked_seq: 0,
            frame_seqs: VecDeque::new(),
            write_seq: 0,
            records_appended: 0,
            acks_gated: 0,
            tick_fsyncs_prev: 0,
            tick_acks_prev: 0,
            fsyncs_last_sec: 0,
            acks_last_sec: 0,
            failed: false,
        }
    }

    /// The boot barriers: one sync per directory handle that has a descriptor,
    /// then one on the active segment.
    pub fn arm_boot_barriers(dirs: &[Option<i32>], active: Option<i32>) -> (r: Vec<i32>)
        ensures
            r@ == with_descriptor(dirs@.push(active)),
    {
        let mut out: Vec<i32> = Vec::new();
        let mut i: usize = 0;
        proof {
            assert(dirs@.take(0) =~= Seq::empty());
        }
        while i < dirs.len()
            invariant
                i <= dirs.len(),
                out@ == with_descriptor(dirs@.take(i as int)),
            decreases dirs.len() - i,
        {
            proof {
                assert(dirs@.take(i + 1).drop_last() =~= dirs@.take(i as int));
                assert(dirs@.take(i + 1).last() == dirs@[i as int]);
            }
            if let Some(fd) = dirs[i] {
                out.push(fd);
            }
            i += 1;
        }
        proof {
            assert(dirs@.take(i as int) =~= dirs@);
            assert(dirs@.push(active).drop_last() =~= dirs@);
        }
        if let Some(fd) = active {
            out.push(fd);
        }
        out
    }

    /// One record was staged; returns its sequence number.
    pub fn stage(&mut self) -> (r: u64)
        requires
            old(self).wf(),
            !old(self).failed,
            old(self).records_appended < u64::MAX,
            old(self).last_seq < u64::MAX,
        ensures
            final(self).wf(),
            r == old(self).last_seq + 1,
            *final(self) == (DurableCell {
                records_appended: (old(self).records_appended + 1) as u64,
                last_seq: r,
                ..*old(self)
            }),
    {
        self.records_appended += 1;
        self.last_seq += 1;
        self.last_seq
    }

    /// One record of a tiered namespace was staged through its table; returns
    /// its sequence number. The bookkeeping is [`stage`](Self::stage)'s.
    pub fn stage_tiered(&mut self) -> (r: u64)
        requires
            old(self).wf(),
            !old(self).failed,
            old(self).records_appended < u64::MAX,
            old(self).last_seq < u64::MAX,
        ensures
            final(self).wf(),
            r == old(self).last_seq + 1,
            *final(self) == (DurableCell {
                records_appended: (old(self).records_appended + 1) as u64,
                last_seq: r,
                ..*old(self)
            }),
    {
        self.stage()
    }

    /// Whether no checkpoint streams and no manifest swap is pending.
    pub fn ckpt_transition_idle(&self) -> (r: bool)
        ensures
            r == (self.ckpt.phase is Idle && self.manifest.phase is Idle),
    {
        let idle = match &self.ckpt.phase {
            CkptPhase::Idle => true,
            _ => false,
        };
        idle && self.manifest.idle()
    }

    /// Counts one gated ack.
    pub fn note_gated_ack(&mut self)
        requires
            old(self).acks_gated < u64::MAX,
        ensures
            *final(self) == (DurableCell {
                acks_gated: (old(self).acks_gated + 1) as u64,
                ..*old(self)
            }),
    {
        self.acks_gated += 1;
    }

    /// Counts one admission park episode.
    pub fn note_parked(&mut self)
        requires
            old(self).parked_total < u64::MAX,
        ensures
            *final(self) == (DurableCell {
                parked_total: (old(self).parked_total + 1) as u64,
                ..*old(self)
            }),
    {
        self.parked_total += 1;
    }

    /// Whether the seal step must ask the pacer: a staged frame behind frames
    /// in flight.
    pub fn needs_pace(&self, f: &SealFacts) -> (r: bool)
        ensures
            r == self.paced(*f),
    {
        !self.failed && f.can_seal && !f.extent_barrier_pending && !f.drained
    }

    /// Whether the seal step must ask the pacer.
    pub open spec fn paced(&self, f: SealFacts) -> bool {
        !self.failed && f.can_seal && !f.extent_barrier_pending && !f.drained
    }

    /// The layout the pending frame lands on.
    pub open spec fn landing(f: SealFacts, rotation_due: bool) -> FrameLayout {
        if rotation_due {
            f.next_layout
        } else {
            f.active_layout
        }
    }

    /// Whether the group policy holds a barrier of this plan.
    pub open spec fn group_waits(
        &self,
        f: SealFacts,
        plan: FramePlan,
        rotation_due: bool,
        now: u64,
    ) -> bool {
        self.group.holds(
            plan,
            Self::landing(f, rotation_due),
            above(self.last_seq, self.acked_seq),
            self.group_round_target,
            self.group_since,
            now,
        )
    }

    /// The verdict of the seal step. The correctness holds come first, then the
    /// fill policy, then the group hold.
    pub open spec fn seal_verdict(&self, f: SealFacts, now: u64) -> SealStep {
        if self.failed {
            SealStep::Nothing
        } else if f.can_seal {
            if f.extent_barrier_pending {
                SealStep::Nothing
            } else if !f.drained && f.pace == Some(false) {
                SealStep::Held(HoldReason::Pace)
            } else if f.rotation_due && !f.drained {
                SealStep::Held(HoldReason::Rotation)
            } else if f.plan == FramePlan::Wait {
                if f.reorder_window_full {
                    SealStep::Held(HoldReason::Reorder)
                } else {
                    SealStep::Held(HoldReason::Barrier)
                }
            } else if self.fill.holds(
                f.plan,
                Self::landing(f, f.rotation_due),
                f.frame_len,
                self.fill_since,
                now,
            ) {
                SealStep::Held(HoldReason::Fill)
            } else if self.group_waits(f, f.plan, f.rotation_due, now) {
                SealStep::Held(HoldReason::Group)
            } else {
                SealStep::Reserve
            }
        } else if f.standalone_due {
            if self.group_waits(f, FramePlan::LinkedFsync, false, now) {
                SealStep::Held(HoldReason::Group)
            } else {
                SealStep::Standalone
            }
        } else {
            SealStep::Nothing
        }
    }

    /// The state after a verdict. A hold counts once per episode and starts its
    /// policy's clock; a standalone sync ends the episode and both clocks; a
    /// reservation keeps them until the frame is queued.
    pub open spec fn after_verdict(&self, step: SealStep, now: u64) -> DurableCell {
        match step {
            SealStep::Nothing => *self,
            SealStep::Reserve => *self,
            SealStep::Standalone => DurableCell {
                frame_held: false,
                fill_since: None,
                group_since: None,
                ..*self
            },
            SealStep::Held(reason) => DurableCell {
                frame_held: true,
                frame_waits_rotation: if reason == HoldReason::Rotation {
                    counted(self.frame_waits_rotation, self.frame_held)
                } else {
                    self.frame_waits_rotation
                },
                frame_waits_reorder: if reason == HoldReason::Reorder {
                    counted(self.frame_waits_reorder, self.frame_held)
                } else {
                    self.frame_waits_reorder
                },
                frame_waits_barrier: if reason == HoldReason::Barrier {
                    counted(self.frame_waits_barrier, self.frame_held)
                } else {
                    self.frame_waits_barrier
                },
                frame_waits_fill: if reason == HoldReason::Fill {
                    counted(self.frame_waits_fill, self.frame_held)
                } else {
                    self.frame_waits_fill
                },
                frame_waits_group: if reason == HoldReason::Group {
                    counted(self.frame_waits_group, self.frame_held)
                } else {
                    self.frame_waits_group
                },
                fill_since: if reason == HoldReason::Fill && self.fill_since is None {
                    Some(now)
                } else {
                    self.fill_since
                },
                group_since: if reason == HoldReason::Group && self.group_since is None {
                    Some(now)
                } else {
                    self.group_since
                },
                ..*self
            },
        }
    }

    /// The wait counters have room.
    pub open spec fn can_count_waits(&self) -> bool {
        &&& self.frame_waits_rotation < u64::MAX
        &&& self.frame_waits_reorder < u64::MAX
        &&& self.frame_waits_barrier < u64::MAX
        &&& self.frame_waits_fill < u64::MAX
        &&& self.frame_waits_group < u64::MAX
    }

    /// The seal step: at most one frame, or a standalone sync.
    pub fn seal_log(&mut self, f: &SealFacts, now: u64) -> (r: SealDecision)
        requires
            old(self).wf(),
            old(self).can_count_waits(),
            old(self).paced(*f) ==> f.pace is Some,
            now + old(self).fill.window <= u64::MAX,
            now + old(self).group.window <= u64::MAX,
        ensures
            final(self).wf(),
            r.step == old(self).seal_verdict(*f, now),
            f.rotation_due && !f.drained ==> r.step != SealStep::Reserve,
            *final(self) == old(self).after_verdict(r.step, now),
            r.fill_timer == (if r.step == SealStep::Held(HoldReason::Fill) && old(
                self).fill_since is None {
                Some((now + old(self).fill.window) as u64)
            } else {
                None
            }),
            r.group_timer == (if r.step == SealStep::Held(HoldReason::Group) && old(
                self).group_since is None {
                Some((now + old(self).group.window) as u64)
            } else {
                None
            }),
    {
        let none = SealDecision { step: SealStep::Nothing, fill_timer: None, group_timer: None };
        if self.failed {
            return none;
        }
        if f.can_seal {
            if f.extent_barrier_pending {
                return none;
            }
            let refused = match f.pace {
                Some(granted) => !granted,
                None => false,
            };
            if !f.drained && refused {
                self.frame_held = true;
                return SealDecision {
                    step: SealStep::Held(HoldReason::Pace),
                    fill_timer: None,
                    group_timer: None,
                };
            }
            if f.rotation_due && !f.drained {
                if !self.frame_held {
                    self.frame_waits_rotation += 1;
                }
                self.frame_held = true;
                return SealDecision {
                    step: SealStep::Held(HoldReason::Rotation),
                    fill_timer: None,
                    group_timer: None,
                };
            }
            if f.plan == FramePlan::Wait {
                let reason = if f.reorder_window_full {
                    if !self.frame_held {
                        self.frame_waits_reorder += 1;
                    }
                    HoldReason::Reorder
                } else {
                    if !self.frame_held {
                        self.frame_waits_barrier += 1;
                    }
                    HoldReason::Barrier
                };
                self.frame_held = true;
                return SealDecision {
                    step: SealStep::Held(reason),
                    fill_timer: None,
                    group_timer: None,
                };
            }
            let (held, timer) = self.fill_holds(f, now);
            if held {
                return SealDecision {
                    step: SealStep::Held(HoldReason::Fill),
                    fill_timer: timer,
                    group_timer: None,
                };
            }
            let (held, timer) = self.group_holds(f, f.plan, f.rotation_due, now);
            if held {
                return SealDecision {
                    step: SealStep::Held(HoldReason::Group),
                    fill_timer: None,
                    group_timer: timer,
                };
            }
            SealDecision { step: SealStep::Reserve, fill_timer: None, group_timer: None }
        } else if f.standalone_due {
            let (held, timer) = self.group_holds(f, FramePlan::LinkedFsync, false, now);
            if held {
                return SealDecision {
                    step: SealStep::Held(HoldReason::Group),
                    fill_timer: None,
                    group_timer: timer,
                };
            }
            self.note_issued();
            SealDecision { step: SealStep::Standalone, fill_timer: None, group_timer: None }
        } else {
            none
        }
    }

    /// The seal step issued what it was holding: the hold episode and both
    /// policy clocks end here, and only here.
    fn note_issued(&mut self)
        ensures
            *final(self) == (DurableCell {
                frame_held: false,
                fill_since: None,
                group_since: None,
                ..*old(self)
            }),
    {
        self.frame_held = false;
        self.fill_since = None;
        self.group_since = None;
    }

    /// Holds the pending frame for fill: counts the episode and, at its first
    /// hold, starts the clock. Returns whether it holds and the timer to arm.
    fn fill_holds(&mut self, f: &SealFacts, now: u64) -> (r: (bool, Option<u64>))
        requires
            old(self).can_count_waits(),
            now + old(self).fill.window <= u64::MAX,
        ensures
            r.0 == old(self).fill.holds(
                f.plan,
                Self::landing(*f, f.rotation_due),
                f.frame_len,
                old(self).fill_since,
                now,
            ),
            *final(self) == (if r.0 {
                old(self).after_verdict(SealStep::Held(HoldReason::Fill), now)
            } else {
                *old(self)
            }),
            r.1 == (if r.0 && old(self).fill_since is None {
                Some((now + old(self).fill.window) as u64)
            } else {
                None
            }),
    {
        let layout = if f.rotation_due {
            f.next_layout
        } else {
            f.active_layout
        };
        match self.fill.decide(f.plan, layout, f.frame_len, self.fill_since, now) {
            FillDecision::Seal => (false, None),
            FillDecision::Hold => {
                if !self.frame_held {
                    self.frame_waits_fill += 1;
                }
                self.frame_held = true;
                if self.fill_since.is_none() {
                    self.fill_since = Some(now);
                    (true, Some(now + self.fill.window))
                } else {
                    (true, None)
                }
            },
        }
    }

    /// Holds the pending barrier for its group, in the same way.
    fn group_holds(
        &mut self,
        f: &SealFacts,
        plan: FramePlan,
        rotation_due: bool,
        now: u64,
    ) -> (r: (bool, Option<u64>))
        requires
            old(self).can_count_waits(),
            now + old(self).group.window <= u64::MAX,
        ensures
            r.0 == old(self).group_waits(*f, plan, rotation_due, now),
            *final(self) == (if r.0 {
                old(self).after_verdict(SealStep::Held(HoldReason::Group), now)
            } else {
                *old(self)
            }),
            r.1 == (if r.0 && old(self).group_since is None {
                Some((now + old(self).group.window) as u64)
            } else {
                None
            }),
    {
        let layout = if rotation_due {
            f.next_layout
        } else {
            f.active_layout
        };
        let uncovered: u64 = distance(self.last_seq, self.acked_seq);
        match self.group.decide(
            plan,
            layout,
            uncovered,
            self.group_round_target,
            self.group_since,
            now,
        ) {
            GroupDecision::Seal => (false, None),
            GroupDecision::Hold => {
                if !self.frame_held {
                    self.frame_waits_group += 1;
                }
                self.frame_held = true;
                if self.group_since.is_none() {
                    self.group_since = Some(now);
                    (true, Some(now + self.group.window))
                } else {
                    (true, None)
                }
            },
        }
    }

    /// The barrier a plan carries with its ticket.
    pub open spec fn barrier_of(plan: FramePlan, ticket: u64) -> FrameBarrier {
        match plan {
            FramePlan::WriteThrough => FrameBarrier::WriteThrough(ticket),
            FramePlan::LinkedFsync => FrameBarrier::Linked(ticket),
            _ => FrameBarrier::Bare,
        }
    }

    /// The pending records were sealed into a frame that ends at `end`. The
    /// frame joins the ack map and the in-flight list under the next write
    /// sequence number, and a waiting begin marker resolves to `marker_lsn`.
    /// Returns the sequence number and the operations to charge: one write,
    /// and one more for a linked sync.
    pub fn queue_frame(
        &mut self,
        end: Lsn,
        marker_lsn: Lsn,
        records: u32,
        plan: FramePlan,
        ticket: u64,
        now: u64,
    ) -> (r: (u64, u64))
        requires
            old(self).wf(),
            plan != FramePlan::Wait,
            old(self).write_seq < u64::MAX,
            old(self).frame_seqs@.len() > 0 ==> old(self).frame_seqs@.last().0.packed()
                < end.packed(),
        ensures
            final(self).wf(),
            r.0 == old(self).write_seq + 1,
            r.1 == (if plan == FramePlan::LinkedFsync {
                2u64
            } else {
                1u64
            }),
            final(self).frame_seqs@ == old(self).frame_seqs@.push((end, old(self).last_seq)),
            final(self).in_flight@ == old(self).in_flight@.push(
                InFlightFrame {
                    id: r.0,
                    submitted_at: now,
                    barrier: Self::barrier_of(plan, ticket),
                },
            ),
            final(self).ckpt == (CkptCell {
                phase: match old(self).ckpt.phase {
                    CkptPhase::AwaitBeginLsn { id, .. } => CkptPhase::Begun {
                        id: id,
                        begin_lsn: marker_lsn,
                    },
                    other => other,
                },
                ..old(self).ckpt
            }),
            *final(self) == (DurableCell {
                frame_held: false,
                fill_since: None,
                group_since: None,
                last_frame_records: records,
                write_seq: r.0,
                frame_seqs: final(self).frame_seqs,
                in_flight: final(self).in_flight,
                ckpt: final(self).ckpt,
                ..*old(self)
            }),
    {
        self.note_issued();
        self.last_frame_records = records;
        self.ckpt.on_frame_sealed(marker_lsn);
        self.frame_seqs.push_back((end, self.last_seq));
        let (barrier, ops) = match plan {
            FramePlan::WriteThrough => (FrameBarrier::WriteThrough(ticket), 1u64),
            FramePlan::LinkedFsync => (FrameBarrier::Linked(ticket), 2u64),
            _ => (FrameBarrier::Bare, 1u64),
        };
        self.write_seq += 1;
        self.in_flight.push(InFlightFrame { id: self.write_seq, submitted_at: now, barrier });
        (self.write_seq, ops)
    }

    /// The position of the first in-flight frame with `id`, from `from` on.
    pub open spec fn frame_index(frames: Seq<InFlightFrame>, id: u64, from: int) -> Option<int>
        decreases frames.len() - from,
    {
        if from < 0 || from >= frames.len() {
            None
        } else if frames[from].id == id {
            Some(from)
        } else {
            Self::frame_index(frames, id, from + 1)
        }
    }

    /// A frame's write completed, in any order: it leaves the in-flight list.
    /// Returns the write latency in microseconds and the barrier to settle.
    pub fn on_log_written(&mut self, id: u64, now: u64) -> (r: (u64, FrameBarrier))
        requires
            Self::frame_index(old(self).in_flight@, id, 0) is Some,
        ensures
            Self::frame_index(old(self).in_flight@, id, 0) matches Some(at) && 0 <= at
                < old(self).in_flight@.len() && r.0 == above(
                now,
                old(self).in_flight@[at].submitted_at,
            ) / 1000 && r.1 == old(self).in_flight@[at].barrier && final(self).in_flight@
                == old(self).in_flight@.remove(at),
            *final(self) == (DurableCell { in_flight: final(self).in_flight, ..*old(self) }),
    {
        let mut i: usize = 0;
        while i < self.in_flight.len() && self.in_flight[i].id != id
            invariant
                i <= self.in_flight.len(),
                Self::frame_index(self.in_flight@, id, 0) == Self::frame_index(
                    self.in_flight@,
                    id,
                    i as int,
                ),
                Self::frame_index(self.in_flight@, id, 0) is Some,
                *self == *old(self),
            decreases self.in_flight.len() - i,
        {
            i += 1;
        }
        let frame = self.in_flight.remove(i);
        (distance(now, frame.submitted_at) / 1000, frame.barrier)
    }

    /// Coalesces the ack map over the written prefix. `points` are the
    /// positions the pending syncs will cover up to.
    pub fn coalesce_frame_seqs(&mut self, written: Option<Lsn>, points: &[Lsn])
        requires
            old(self).wf(),
        ensures
            final(self).wf(),
            final(self).frame_seqs@ == (match written {
                Some(w) => durable::survivors(
                    old(self).frame_seqs@,
                    w,
                    points@,
                    old(self).frame_seqs@.len() as int,
                ),
                None => old(self).frame_seqs@,
            }),
            *final(self) == (DurableCell { frame_seqs: final(self).frame_seqs, ..*old(self) }),
    {
        if let Some(w) = written {
            let ghost before = self.frame_seqs@;
            coalesce_ack_map(&mut self.frame_seqs, w, points);
            proof {
                lemma_survivors_ordered(before, w, points@, before.len() as int);
            }
        }
    }

    /// A sync completed. `watermark` is how far the durable prefix now reaches,
    /// when it moved: every queued frame that ends at or before it is acked, up
    /// to its last sequence number, and the round the group hold waits for is
    /// the population this completion reveals.
    pub fn on_synced(&mut self, ticket: u64, watermark: Option<Lsn>) -> (r: SyncedOutcome)
        requires
            old(self).wf(),
        ensures
            final(self).wf(),
            r.zero_fill_ready == (old(self).zero_fill_ticket == Some(ticket)),
            r.acked == (match watermark {
                Some(w) => durable::acked_by(old(self).frame_seqs@, w),
                None => None,
            }),
            r.group_records == (match r.acked {
                Some(seq) => Some(above(seq, old(self).acked_seq)),
                None => None,
            }),
            final(self).frame_seqs@ == (match watermark {
                Some(w) => old(self).frame_seqs@.skip(
                    durable::covered_count(old(self).frame_seqs@, w) as int,
                ),
                None => old(self).frame_seqs@,
            }),
            watermark matches Some(w) ==> (forall|i: int|
                0 <= i < final(self).frame_seqs@.len() ==> (#[trigger] final(
                    self).frame_seqs@[i]).0.packed() > w.packed()),
            *final(self) == (DurableCell {
                zero_fill_ticket: if r.zero_fill_ready {
                    None
                } else {
                    old(self).zero_fill_ticket
                },
                group_round_target: match r.acked {
                    Some(_) => above(old(self).last_seq, old(self).acked_seq),
                    None => old(self).group_round_target,
                },
                acked_seq: match r.acked {
                    Some(seq) => seq,
                    None => old(self).acked_seq,
                },
                frame_seqs: final(self).frame_seqs,
                ..*old(self)
            }),
    {
        proof {
            if let Some(w) = watermark {
                law_sync_acks_all_it_covers(*self, w);
            }
        }
        let ready = match self.zero_fill_ticket {
            Some(t) => t == ticket,
            None => false,
        };
        if ready {
            self.zero_fill_ticket = None;
        }
        let mut acked: Option<u64> = None;
        let ghost orig = self.frame_seqs@;
        if let Some(w) = watermark {
            let end: u64 = w.to_u64();
            let ghost mut n: int = 0;
            proof {
                assert(orig.skip(0) =~= orig);
            }
            while self.frame_seqs.len() > 0 && self.frame_seqs[0].0.to_u64() <= end
                invariant
                    end == w.packed(),
                    0 <= n <= orig.len(),
                    self.frame_seqs@ == orig.skip(n),
                    durable::covered_count(orig, w) == n + durable::covered_count(
                        orig.skip(n),
                        w,
                    ),
                    acked == (if n == 0 {
                        None
                    } else {
                        Some(orig[n - 1].1)
                    }),
                    *self == (DurableCell {
                        zero_fill_ticket: self.zero_fill_ticket,
                        frame_seqs: self.frame_seqs,
                        ..*old(self)
                    }),
                    self.zero_fill_ticket == (if ready {
                        None
                    } else {
                        old(self).zero_fill_ticket
                    }),
                decreases self.frame_seqs.len(),
            {
                let front = self.frame_seqs.pop_front();
                proof {
                    assert(orig.skip(n)[0] == orig[n]);
                    assert(orig.skip(n).skip(1) =~= orig.skip(n + 1));
                    assert(self.frame_seqs@ =~= orig.skip(n + 1));
                    n = n + 1;
                }
                if let Some(entry) = front {
                    acked = Some(entry.1);
                }
            }
            proof {
                assert(durable::covered_count(orig.skip(n), w) == 0) by {
                    if orig.skip(n).len() > 0 {
                        assert(self.frame_seqs@[0] == orig.skip(n)[0]);
                    }
                }
            }
        }
        let mut group_records: Option<u64> = None;
        if let Some(seq) = acked {
            group_records = Some(distance(seq, self.acked_seq));
            self.group_round_target = distance(self.last_seq, self.acked_seq);
            self.acked_seq = seq;
        }
        SyncedOutcome { zero_fill_ready: ready, acked, group_records }
    }

    /// The everysec tick: closes the one-second rate window and checks the
    /// barrier-class tripwire. The caller re-arms the timer one second on.
    pub fn on_everysec_tick(&mut self, fsyncs_completed: u64, fua_count: u64, fua_sum_us: u64)
        requires
            fsyncs_completed >= old(self).tick_fsyncs_prev,
            old(self).acks_gated >= old(self).tick_acks_prev,
            old(self).fua_p50_us_probed != 0 ==> fua_count >= old(self).fua_tick_count_prev
                && fua_sum_us >= old(self).fua_tick_window_sum_us,
        ensures
            *final(self) == (DurableCell {
                fsyncs_last_sec: (fsyncs_completed - old(self).tick_fsyncs_prev) as u64,
                tick_fsyncs_prev: fsyncs_completed,
                acks_last_sec: (old(self).acks_gated - old(self).tick_acks_prev) as u64,
                tick_acks_prev: old(self).acks_gated,
                ..old(self).after_tripwire(fua_count, fua_sum_us)
            }),
    {
        self.fsyncs_last_sec = fsyncs_completed - self.tick_fsyncs_prev;
        self.tick_fsyncs_prev = fsyncs_completed;
        self.acks_last_sec = self.acks_gated - self.tick_acks_prev;
        self.tick_acks_prev = self.acks_gated;
        self.check_barrier_class_tripwire(fua_count, fua_sum_us);
    }

    /// The tripwire state after a window: the window's mean write-through
    /// latency above three times the probed one is a breach; a window without
    /// samples changes no verdict; one healthy window clears the run.
    pub open spec fn after_tripwire(&self, count: u64, sum_us: u64) -> DurableCell {
        if self.fua_p50_us_probed == 0 {
            *self
        } else {
            let n = count - self.fua_tick_count_prev;
            let sum = sum_us - self.fua_tick_window_sum_us;
            DurableCell {
                fua_tick_count_prev: count,
                fua_tick_window_sum_us: sum_us,
                fua_degraded_windows: if n == 0 {
                    self.fua_degraded_windows
                } else if sum / n > 3 * self.fua_p50_us_probed {
                    if self.fua_degraded_windows == u32::MAX {
                        u32::MAX
                    } else {
                        (self.fua_degraded_windows + 1) as u32
                    }
                } else {
                    0
                },
                ..*self
            }
        }
    }

    fn check_barrier_class_tripwire(&mut self, count: u64, sum_us: u64)
        requires
            old(self).fua_p50_us_probed != 0 ==> count >= old(self).fua_tick_count_prev && sum_us
                >= old(self).fua_tick_window_sum_us,
        ensures
            *final(self) == old(self).after_tripwire(count, sum_us),
    {
        if self.fua_p50_us_probed == 0 {
            return ;
        }
        let window_count: u64 = count - self.fua_tick_count_prev;
        let window_sum: u64 = sum_us - self.fua_tick_window_sum_us;
        self.fua_tick_count_prev = count;
        self.fua_tick_window_sum_us = sum_us;
        if window_count == 0 {
            return ;
        }
        let mean_us: u64 = window_sum / window_count;
        if mean_us as u128 > 3 * (self.fua_p50_us_probed as u128) {
            if self.fua_degraded_windows < u32::MAX {
                self.fua_degraded_windows += 1;
            }
        } else {
            self.fua_degraded_windows = 0;
        }
    }

    /// Nothing durable is in motion: nothing staged, no frame in flight, no
    /// sync pending or owed, no checkpoint or manifest transition open.
    pub fn quiescent(
        &self,
        staging_empty: bool,
        staging_drained: bool,
        pending_fsyncs: usize,
        sync_due: bool,
    ) -> (r: bool)
        ensures
            r == (staging_empty && staging_drained && self.in_flight@.len() == 0
                && pending_fsyncs == 0 && !sync_due && self.ckpt.phase is Idle
                && self.manifest.phase is Idle),
    {
        staging_empty && staging_drained && self.in_flight.len() == 0 && pending_fsyncs == 0
            && !sync_due && self.ckpt_transition_idle()
    }

    /// A terminal error on the durable path: the plane freezes, and the
    /// process is to end with this line.
    pub fn fail_stop(&mut self, what: &str, detail: &str) -> (r: String)
        ensures
            r@ == "durable-path "@ + what@ + " failed (fail-stop, §8.4): "@ + detail@,
            *final(self) == (DurableCell { failed: true, ..*old(self) }),
    {
        self.failed = true;
        let mut line = text::owned("durable-path ");
        line.append(what);
        line.append(" failed (fail-stop, §8.4): ");
        line.append(detail);
        line
    }

    /// A terminal error of a write or a sync, by its token class: the plane
    /// freezes, and the process is to end with this line.
    pub fn on_log_error(&mut self, class: &str, errno: i32) -> (r: String)
        ensures
            r@ == "durable-path I/O failed (fail-stop, §8.4): errno "@ + text::dec_int_chars(
                errno as int,
            ) + " on "@ + class@,
            *final(self) == (DurableCell { failed: true, ..*old(self) }),
    {
        self.failed = true;
        let mut line = text::owned("durable-path I/O failed (fail-stop, §8.4): errno ");
        text::append_dec_int(&mut line, errno as i64);
        line.append(" on ");
        line.append(class);
        line
    }

    /// The barrier check that ends pre-zeroing: one barrier is in flight at
    /// most.
    pub open spec fn zero_fill_barrier(&self) -> ZeroFillStep {
        if self.zero_fill_ticket is None {
            ZeroFillStep::TakeBarrier
        } else {
            ZeroFillStep::Done
        }
    }

    /// The step pre-zeroing owes. The budget is asked before a slice is taken;
    /// an offer no slice came of goes back whole, and ends the entry.
    pub open spec fn zero_fill_step(&self, event: ZeroFillEvent) -> ZeroFillStep {
        match event {
            ZeroFillEvent::Begun { pending } => if self.write_through_wanted && pending {
                ZeroFillStep::Offer { bytes: ZERO_FILL_SLICE_BYTES }
            } else {
                self.zero_fill_barrier()
            },
            ZeroFillEvent::Admitted(granted) => if granted {
                ZeroFillStep::TakeSlice { limit: ZERO_FILL_SLICE_BYTES }
            } else {
                self.zero_fill_barrier()
            },
            ZeroFillEvent::Sliced(Some(len)) => ZeroFillStep::Queue {
                refund: (ZERO_FILL_SLICE_BYTES - len) as u64,
            },
            ZeroFillEvent::Sliced(None) => ZeroFillStep::Withdraw {
                bytes: ZERO_FILL_SLICE_BYTES,
            },
            ZeroFillEvent::Queued => self.zero_fill_barrier(),
            ZeroFillEvent::Barrier(_) => ZeroFillStep::Done,
        }
    }

    /// Drives the next segment's pre-zeroing: the next slice when the budget
    /// grants it, the barrier once every zero byte landed.
    pub fn zero_fill(&mut self, event: ZeroFillEvent) -> (r: ZeroFillStep)
        requires
            event matches ZeroFillEvent::Sliced(Some(len)) ==> len <= ZERO_FILL_SLICE_BYTES,
            event matches ZeroFillEvent::Barrier(_) ==> old(self).zero_fill_ticket is None,
        ensures
            r == old(self).zero_fill_step(event),
            *final(self) == (DurableCell {
                zero_fill_ticket: match event {
                    ZeroFillEvent::Barrier(ticket) => ticket,
                    _ => old(self).zero_fill_ticket,
                },
                ..*old(self)
            }),
    {
        match event {
            ZeroFillEvent::Begun { pending } => {
                if self.write_through_wanted && pending {
                    return ZeroFillStep::Offer { bytes: ZERO_FILL_SLICE_BYTES };
                }
            },
            ZeroFillEvent::Admitted(granted) => {
                if granted {
                    return ZeroFillStep::TakeSlice { limit: ZERO_FILL_SLICE_BYTES };
                }
            },
            ZeroFillEvent::Sliced(slice) => {
                return match slice {
                    Some(len) => ZeroFillStep::Queue { refund: ZERO_FILL_SLICE_BYTES - len },
                    None => ZeroFillStep::Withdraw { bytes: ZERO_FILL_SLICE_BYTES },
                };
            },
            ZeroFillEvent::Queued => {},
            ZeroFillEvent::Barrier(ticket) => {
                self.zero_fill_ticket = ticket;
                return ZeroFillStep::Done;
            },
        }
        if self.zero_fill_ticket.is_none() {
            ZeroFillStep::TakeBarrier
        } else {
            ZeroFillStep::Done
        }
    }

    /// What follows the reservation a seal asked for. A segment not ready or
    /// out of space makes the staged frame wait; any other error is terminal.
    pub fn on_reserved(&mut self, outcome: ReserveOutcome) -> (r: ReserveStep)
        ensures
            r == (match outcome {
                ReserveOutcome::Reserved => ReserveStep::Queue,
                ReserveOutcome::NextNotReady => ReserveStep::Wait,
                ReserveOutcome::Failed { space_exhausted } => if space_exhausted {
                    ReserveStep::Wait
                } else {
                    ReserveStep::FailStop
                },
            }),
            *final(self) == (DurableCell {
                failed: old(self).failed || r is FailStop,
                ..*old(self)
            }),
    {
        match outcome {
            ReserveOutcome::Reserved => ReserveStep::Queue,
            ReserveOutcome::NextNotReady => ReserveStep::Wait,
            ReserveOutcome::Failed { space_exhausted } => {
                if space_exhausted {
                    ReserveStep::Wait
                } else {
                    self.failed = true;
                    ReserveStep::FailStop
                }
            },
        }
    }

    /// What one maintenance entry does with the outcome of keeping the next
    /// segment ready.
    pub fn maintain(
        &mut self,
        write_through_wanted: bool,
        outcome: MaintainOutcome,
    ) -> (r: MaintainStep)
        ensures
            r == old(self).maintain_step(outcome),
            *final(self) == (if old(self).failed {
                *old(self)
            } else {
                DurableCell {
                    write_through_wanted: write_through_wanted,
                    failed: r is FailStop,
                    ..*old(self)
                }
            }),
    {
        if self.failed {
            return MaintainStep::Nothing;
        }
        self.write_through_wanted = write_through_wanted;
        match outcome {
            MaintainOutcome::Barrier { fd } => match fd {
                Some(fd) => MaintainStep::IssueBarrier { fd },
                None => MaintainStep::ZeroFill,
            },
            MaintainOutcome::Quiet => MaintainStep::ZeroFill,
            MaintainOutcome::Failed { space_exhausted } => if space_exhausted {
                MaintainStep::ZeroFill
            } else {
                self.failed = true;
                MaintainStep::FailStop
            },
        }
    }

    /// The step owed for an outcome.
    pub open spec fn maintain_step(&self, outcome: MaintainOutcome) -> MaintainStep {
        if self.failed {
            MaintainStep::Nothing
        } else {
            match outcome {
                MaintainOutcome::Barrier { fd: Some(fd) } => MaintainStep::IssueBarrier { fd },
                MaintainOutcome::Barrier { fd: None } => MaintainStep::ZeroFill,
                MaintainOutcome::Quiet => MaintainStep::ZeroFill,
                MaintainOutcome::Failed { space_exhausted } => if space_exhausted {
                    MaintainStep::ZeroFill
                } else {
                    MaintainStep::FailStop
                },
            }
        }
    }
}

/// What came of a step of pre-zeroing.
#[derive(Copy, Clone, Debug, PartialEq, Eq, Structural)]
pub enum ZeroFillEvent {
    /// A maintenance entry; `pending` says that bytes are left to zero.
    Begun { pending: bool },
    Admitted(bool),
    /// The length of the slice that was taken, if any was left.
    Sliced(Option<u64>),
    Queued,
    /// The ticket of the barrier that was issued, if one was due.
    Barrier(Option<u64>),
}

/// What pre-zeroing does next.
#[derive(Copy, Clone, Debug, PartialEq, Eq, Structural)]
pub enum ZeroFillStep {
    /// Offer one write of this many bytes to the device budget.
    Offer { bytes: u64 },
    /// Take a slice of at most `limit` bytes.
    TakeSlice { limit: u64 },
    /// Refund the unissued bytes and queue the slice's write.
    Queue { refund: u64 },
    /// Refund the whole offer, bytes and operation. The entry is over.
    Withdraw { bytes: u64 },
    /// Issue the barrier, if every zero byte landed.
    TakeBarrier,
    Done,
}

/// What a frame's reservation came to.
#[derive(Copy, Clone, Debug, PartialEq, Eq, Structural)]
pub enum ReserveOutcome {
    Reserved,
    /// Pre-zeroing is in flight on the segment the rotation needs.
    NextNotReady,
    Failed { space_exhausted: bool },
}

/// What follows a reservation.
#[derive(Copy, Clone, Debug, PartialEq, Eq, Structural)]
pub enum ReserveStep {
    /// Queue the frame.
    Queue,
    /// The frame waits for a later seal step.
    Wait,
    FailStop,
}

/// What keeping the next segment ready came to.
#[derive(Copy, Clone, Debug, PartialEq, Eq, Structural)]
pub enum MaintainOutcome {
    /// A segment was preallocated; its directory wants a barrier.
    Barrier { fd: Option<i32> },
    Quiet,
    Failed { space_exhausted: bool },
}

/// What a maintenance entry does next. Pre-zeroing follows a barrier too.
#[derive(Copy, Clone, Debug, PartialEq, Eq, Structural)]
pub enum MaintainStep {
    Nothing,
    IssueBarrier { fd: i32 },
    ZeroFill,
    FailStop,
}

/// The descriptors among the handles that have one, in order.
pub open spec fn with_descriptor(handles: Seq<Option<i32>>) -> Seq<i32>
    decreases handles.len(),
{
    if handles.len() == 0 {
        Seq::empty()
    } else {
        let rest = with_descriptor(handles.drop_last());
        match handles.last() {
            Some(fd) => rest.push(fd),
            None => rest,
        }
    }
}

proof fn lemma_survivors_ordered(map: Seq<(Lsn, u64)>, written: Lsn, points: Seq<Lsn>, n: int)
    requires
        durable::ends_ascend(map),
        0 <= n <= map.len(),
        forall|i: int, j: int|
            0 <= i < j < map.len() ==> (#[trigger] map[i]).1 <= (#[trigger] map[j]).1,
    ensures
        durable::ends_ascend(durable::survivors(map, written, points, n)),
        forall|i: int, j: int|
            0 <= i < j < durable::survivors(map, written, points, n).len() ==> (
            #[trigger] durable::survivors(map, written, points, n)[i]).1 <= (
            #[trigger] durable::survivors(map, written, points, n)[j]).1,
        forall|k: int|
            0 <= k < durable::survivors(map, written, points, n).len() ==> exists|q: int|
                0 <= q < n && #[trigger] map[q] == (#[trigger] durable::survivors(
                    map,
                    written,
                    points,
                    n,
                )[k]),
    decreases n,
{
    if n > 0 {
        lemma_survivors_ordered(map, written, points, n - 1);
        let prev = durable::survivors(map, written, points, n - 1);
        let now = durable::survivors(map, written, points, n);
        assert forall|k: int| 0 <= k < now.len() implies exists|q: int|
            0 <= q < n && #[trigger] map[q] == (#[trigger] now[k]) by {
            if k < prev.len() {
                let q = choose|q: int| 0 <= q < n - 1 && #[trigger] map[q] == prev[k];
                assert(map[q] == now[k]);
            } else {
                assert(map[n - 1] == now[k]);
            }
        }
        assert forall|i: int, j: int| 0 <= i < j < now.len() implies (#[trigger] now[i]).0.packed()
            < (#[trigger] now[j]).0.packed() && now[i].1 <= now[j].1 by {
            let q = choose|q: int| 0 <= q < n - 1 && #[trigger] map[q] == prev[i];
            if j < prev.len() {
                assert(prev[i] == now[i] && prev[j] == now[j]);
            } else {
                assert(now[j] == map[n - 1]);
                assert(now[i] == map[q]);
            }
        }
    }
}

/// An ack never runs ahead of durability: what a sync completion acks is the
/// sequence number of a queued frame that the watermark covers, and it never
/// moves back.
pub proof fn law_ack_waits_for_watermark(cell: DurableCell, watermark: Lsn)
    requires
        cell.wf(),
    ensures
        durable::acked_by(cell.frame_seqs@, watermark) matches Some(seq) ==> {
            &&& exists|i: int|
                0 <= i < cell.frame_seqs@.len() && (#[trigger] cell.frame_seqs@[i]).1 == seq
                    && cell.frame_seqs@[i].0.packed() <= watermark.packed()
            &&& cell.acked_seq <= seq <= cell.last_seq
        },
{
    durable::lemma_count_splits(cell.frame_seqs@, watermark);
    let n = durable::covered_count(cell.frame_seqs@, watermark);
    if n > 0 {
        let e = cell.frame_seqs@[n - 1];
        assert(e.0.packed() <= watermark.packed());
    }
}

/// A hold episode is counted once: once a frame is held, further holds of the
/// same frame change no wait counter.
pub proof fn law_episode_counted_once(cell: DurableCell, reason: HoldReason, now: u64)
    requires
        cell.frame_held,
    ensures
        ({
            let next = cell.after_verdict(SealStep::Held(reason), now);
            &&& next.frame_held
            &&& next.frame_waits_rotation == cell.frame_waits_rotation
            &&& next.frame_waits_reorder == cell.frame_waits_reorder
            &&& next.frame_waits_barrier == cell.frame_waits_barrier
            &&& next.frame_waits_fill == cell.frame_waits_fill
            &&& next.frame_waits_group == cell.frame_waits_group
        }),
{
}

/// Rotation is a drain point: while the log rotates and frames are still in
/// flight, nothing is reserved. A healthy cell with a frame to seal, a granted
/// pace and no extent barrier pending says that it waits for the rotation.
pub proof fn law_rotation_is_a_drain_point(cell: DurableCell, f: SealFacts, now: u64)
    requires
        f.rotation_due,
        !f.drained,
    ensures
        cell.seal_verdict(f, now) != SealStep::Reserve,
        !cell.failed && f.can_seal && !f.extent_barrier_pending && f.pace == Some(true)
            ==> cell.seal_verdict(f, now) == SealStep::Held(HoldReason::Rotation),
{
}

/// A frame is reserved only when nothing stands in its way: the cell is
/// healthy, there is a frame, no extent barrier is pending, its plan can go
/// ahead, and while frames are in flight the pacer did not refuse it. And a
/// frame that nothing stands in the way of is reserved at once where no hold
/// policy is on, or where the frame is written through.
pub proof fn law_reserve_is_owed(cell: DurableCell, f: SealFacts, now: u64)
    ensures
        cell.seal_verdict(f, now) == SealStep::Reserve ==> !cell.failed && f.can_seal
            && !f.extent_barrier_pending && f.plan != FramePlan::Wait && (f.drained || (f.pace
            != Some(false) && !f.rotation_due)),
        !cell.failed && f.can_seal && !f.extent_barrier_pending && f.plan != FramePlan::Wait && (
        f.drained || (f.pace == Some(true) && !f.rotation_due)) && ((cell.fill.window == 0
            && cell.group.window == 0) || f.plan == FramePlan::WriteThrough)
            ==> cell.seal_verdict(f, now) == SealStep::Reserve,
{
}

/// A failed cell and one behind an extent barrier do nothing; a standalone
/// barrier is issued only where there is no frame to carry it, and only when
/// one is due.
pub proof fn law_nothing_moves_past_a_barrier(cell: DurableCell, f: SealFacts, now: u64)
    ensures
        cell.failed ==> cell.seal_verdict(f, now) == SealStep::Nothing,
        f.can_seal && f.extent_barrier_pending ==> cell.seal_verdict(f, now) == SealStep::Nothing,
        !f.can_seal && !f.standalone_due ==> cell.seal_verdict(f, now) == SealStep::Nothing,
        cell.seal_verdict(f, now) == SealStep::Standalone ==> !cell.failed && !f.can_seal
            && f.standalone_due,
        !cell.failed && !f.can_seal && f.standalone_due && cell.group.window == 0
            ==> cell.seal_verdict(f, now) == SealStep::Standalone,
        !cell.failed && (if f.can_seal {
            !f.extent_barrier_pending
        } else {
            f.standalone_due
        }) ==> cell.seal_verdict(f, now) != SealStep::Nothing,
{
}

/// Each hold names its cause: the pacer that refused while frames are in
/// flight, a plan that has to wait (for the reorder window or for a barrier),
/// or a policy that waits for more records. A policy sees the layout of the
/// segment that the frame will land in.
pub proof fn law_hold_names_its_cause(cell: DurableCell, f: SealFacts, now: u64)
    requires
        cell.wf(),
        !cell.failed,
        f.can_seal,
        !f.extent_barrier_pending,
    ensures
        (cell.seal_verdict(f, now) == SealStep::Held(HoldReason::Pace)) <==> (!f.drained && f.pace
            == Some(false)),
        f.drained && f.plan == FramePlan::Wait && f.reorder_window_full ==> cell.seal_verdict(
            f,
            now,
        ) == SealStep::Held(HoldReason::Reorder),
        f.drained && f.plan == FramePlan::Wait && !f.reorder_window_full ==> cell.seal_verdict(
            f,
            now,
        ) == SealStep::Held(HoldReason::Barrier),
        f.pace == Some(true) && !f.rotation_due && f.plan == FramePlan::Wait
            ==> cell.seal_verdict(f, now) == (if f.reorder_window_full {
            SealStep::Held(HoldReason::Reorder)
        } else {
            SealStep::Held(HoldReason::Barrier)
        }),
        cell.seal_verdict(f, now) == SealStep::Held(HoldReason::Fill) ==> f.plan
            == FramePlan::Plain && f.frame_len < cell.fill.target_bytes && (if f.rotation_due {
            f.next_layout
        } else {
            f.active_layout
        }) == FrameLayout::Aligned,
        cell.seal_verdict(f, now) == SealStep::Held(HoldReason::Group) ==> f.plan
            == FramePlan::LinkedFsync && cell.last_seq - cell.acked_seq < cell.group_round_target
            && cell.group_round_target >= 2 && (if f.rotation_due {
            f.next_layout
        } else {
            f.active_layout
        }) == FrameLayout::Packed,
        f.drained && f.plan == FramePlan::Plain && cell.fill.window > 0 && f.frame_len + 4095
            < cell.fill.target_bytes && cell.fill_since is None && f.active_layout
            == FrameLayout::Aligned && f.next_layout == FrameLayout::Aligned
            ==> cell.seal_verdict(f, now) == SealStep::Held(HoldReason::Fill),
        f.drained && f.plan == FramePlan::LinkedFsync && cell.group.window > 0
            && cell.group_round_target >= 2 && cell.last_seq - cell.acked_seq
            < cell.group_round_target && cell.group_since is None && f.active_layout
            == FrameLayout::Packed && f.next_layout == FrameLayout::Packed ==> cell.seal_verdict(
            f,
            now,
        ) == SealStep::Held(HoldReason::Group),
        f.plan != FramePlan::Wait && (f.drained || (f.pace == Some(true) && !f.rotation_due)) ==> (
        cell.seal_verdict(f, now) == SealStep::Held(HoldReason::Fill) <==> cell.fill.holds(
            f.plan,
            if f.rotation_due {
                f.next_layout
            } else {
                f.active_layout
            },
            f.frame_len,
            cell.fill_since,
            now,
        )),
        f.plan != FramePlan::Wait && (f.drained || (f.pace == Some(true) && !f.rotation_due)) ==> (
        cell.seal_verdict(f, now) == SealStep::Held(HoldReason::Group) <==> cell.group.holds(
            f.plan,
            if f.rotation_due {
                f.next_layout
            } else {
                f.active_layout
            },
            (cell.last_seq - cell.acked_seq) as u64,
            cell.group_round_target,
            cell.group_since,
            now,
        )),
        cell.seal_verdict(f, now) == SealStep::Held(HoldReason::Fill) ==> (
        cell.fill_since matches Some(t) ==> now < t + cell.fill.window),
        cell.seal_verdict(f, now) == SealStep::Held(HoldReason::Group) ==> (
        cell.group_since matches Some(t) ==> now < t + cell.group.window),
{
}

/// A standalone barrier waits for its group like a linked one would: only for
/// records still missing from the last round, and only on a packed segment.
pub proof fn law_standalone_waits_for_its_group(cell: DurableCell, f: SealFacts, now: u64)
    requires
        cell.wf(),
        !cell.failed,
        !f.can_seal,
        f.standalone_due,
    ensures
        cell.seal_verdict(f, now) == SealStep::Standalone || cell.seal_verdict(f, now)
            == SealStep::Held(HoldReason::Group),
        cell.seal_verdict(f, now) == SealStep::Held(HoldReason::Group) <==> (cell.group.window > 0
            && f.active_layout == FrameLayout::Packed && cell.group_round_target >= 2
            && cell.last_seq - cell.acked_seq < cell.group_round_target && (
        cell.group_since matches Some(t) ==> now < t + cell.group.window)),
{
}

/// A new hold raises the counter of its own cause by one and no other; a
/// pacer's refusal is no wait. A policy's clock starts with its first hold and
/// keeps its start. Nothing else of the cell moves.
pub proof fn law_new_hold_counts_its_cause(cell: DurableCell, reason: HoldReason, now: u64)
    requires
        !cell.frame_held,
        cell.can_count_waits(),
    ensures
        ({
            let next = cell.after_verdict(SealStep::Held(reason), now);
            &&& next.frame_held
            &&& next.frame_waits_rotation - cell.frame_waits_rotation == (if reason
                == HoldReason::Rotation {
                1int
            } else {
                0
            })
            &&& next.frame_waits_reorder - cell.frame_waits_reorder == (if reason
                == HoldReason::Reorder {
                1int
            } else {
                0
            })
            &&& next.frame_waits_barrier - cell.frame_waits_barrier == (if reason
                == HoldReason::Barrier {
                1int
            } else {
                0
            })
            &&& next.frame_waits_fill - cell.frame_waits_fill == (if reason == HoldReason::Fill {
                1int
            } else {
                0
            })
            &&& next.frame_waits_group - cell.frame_waits_group == (if reason
                == HoldReason::Group {
                1int
            } else {
                0
            })
        }),
{
}

/// The clocks of the hold policies: set at the first hold of their own policy,
/// kept through every later hold, and cleared by a standalone barrier. No
/// verdict touches the sequence numbers, the frames in flight, the
/// acknowledgement map, the checkpoint or the failure state.
pub proof fn law_verdict_keeps_the_log(cell: DurableCell, step: SealStep, now: u64)
    ensures
        ({
            let next = cell.after_verdict(step, now);
            &&& next.last_seq == cell.last_seq
            &&& next.acked_seq == cell.acked_seq
            &&& next.write_seq == cell.write_seq
            &&& next.frame_seqs == cell.frame_seqs
            &&& next.in_flight == cell.in_flight
            &&& next.ckpt == cell.ckpt
            &&& next.manifest == cell.manifest
            &&& next.failed == cell.failed
            &&& next.records_appended == cell.records_appended
            &&& next.group_round_target == cell.group_round_target
            &&& step is Held ==> (cell.fill_since is Some ==> next.fill_since == cell.fill_since)
            &&& step is Held ==> (cell.group_since is Some ==> next.group_since
                == cell.group_since)
            &&& step == SealStep::Held(HoldReason::Fill) && cell.fill_since is None
                ==> next.fill_since == Some(now)
            &&& step == SealStep::Held(HoldReason::Group) && cell.group_since is None
                ==> next.group_since == Some(now)
            &&& step is Held && step != SealStep::Held(HoldReason::Fill) ==> next.fill_since
                == cell.fill_since
            &&& step is Held && step != SealStep::Held(HoldReason::Group) ==> next.group_since
                == cell.group_since
            &&& step == SealStep::Standalone ==> !next.frame_held && next.fill_since is None
                && next.group_since is None
            &&& step == SealStep::Nothing || step == SealStep::Reserve ==> next == cell
        }),
{
}

/// A sync acknowledges all that it covers and no more: every frame that ends
/// at or below the watermark leaves the map, its records acknowledged, and
/// every frame that ends above stays.
pub proof fn law_sync_acks_all_it_covers(cell: DurableCell, watermark: Lsn)
    requires
        cell.wf(),
    ensures
        forall|i: int|
            0 <= i < cell.frame_seqs@.len() ==> ((#[trigger] cell.frame_seqs@[i]).0.packed()
                <= watermark.packed() <==> i < durable::covered_count(
                cell.frame_seqs@,
                watermark,
            )),
        forall|i: int|
            0 <= i < cell.frame_seqs@.len() && (#[trigger] cell.frame_seqs@[i]).0.packed()
                <= watermark.packed() ==> (durable::acked_by(
                cell.frame_seqs@,
                watermark,
            ) matches Some(seq) && cell.frame_seqs@[i].1 <= seq),
        (forall|i: int|
            0 <= i < cell.frame_seqs@.len() ==> (#[trigger] cell.frame_seqs@[i]).0.packed()
                > watermark.packed()) ==> durable::acked_by(cell.frame_seqs@, watermark) is None,
{
    let map = cell.frame_seqs@;
    durable::lemma_count_splits(map, watermark);
    let n = durable::covered_count(map, watermark) as int;
    assert forall|i: int| 0 <= i < map.len() && (#[trigger] map[i]).0.packed()
        <= watermark.packed() implies i < n by {
        if i >= n && i > n {
            assert(map[n].0.packed() < map[i].0.packed());
        }
    }
    assert forall|i: int| 0 <= i < map.len() && (#[trigger] map[i]).0.packed()
        <= watermark.packed() implies (durable::acked_by(map, watermark) matches Some(seq)
        && map[i].1 <= seq) by {
        if i < n - 1 {
            assert(map[i].1 <= map[n - 1].1);
        }
    }
    if n > 0 {
        assert(map[0].0.packed() <= watermark.packed());
    }
}

/// A written frame is found by its id: the first frame in flight that carries
/// it, and none only when no frame does.
pub proof fn law_written_frame_is_found(frames: Seq<InFlightFrame>, id: u64)
    ensures
        DurableCell::frame_index(frames, id, 0) matches Some(at) ==> 0 <= at < frames.len()
            && frames[at].id == id && (forall|k: int| 0 <= k < at ==> (#[trigger] frames[k]).id
            != id),
        DurableCell::frame_index(frames, id, 0) is None ==> (forall|k: int|
            0 <= k < frames.len() ==> (#[trigger] frames[k]).id != id),
{
    lemma_frame_index(frames, id, 0);
}

proof fn lemma_frame_index(frames: Seq<InFlightFrame>, id: u64, from: int)
    requires
        0 <= from <= frames.len(),
    ensures
        DurableCell::frame_index(frames, id, from) matches Some(at) ==> from <= at < frames.len()
            && frames[at].id == id && (forall|k: int| from <= k < at ==> (#[trigger] frames[k]).id
            != id),
        DurableCell::frame_index(frames, id, from) is None ==> (forall|k: int|
            from <= k < frames.len() ==> (#[trigger] frames[k]).id != id),
    decreases frames.len() - from,
{
    if from < frames.len() && frames[from].id != id {
        lemma_frame_index(frames, id, from + 1);
    }
}

/// A frame that carries a barrier settles the ticket it was queued with, by
/// the barrier of its plan; a plain frame settles none.
pub proof fn law_frame_settles_its_ticket(ticket: u64)
    ensures
        DurableCell::barrier_of(FramePlan::LinkedFsync, ticket) == FrameBarrier::Linked(ticket),
        DurableCell::barrier_of(FramePlan::WriteThrough, ticket) == FrameBarrier::WriteThrough(
            ticket,
        ),
        DurableCell::barrier_of(FramePlan::Plain, ticket) == FrameBarrier::Bare,
{
}

/// The barrier-class tripwire: a window whose mean write-through latency is
/// above three times the probed median joins the run of degraded windows, a
/// window at or below it ends the run, and a window without samples says
/// nothing. Each window counts only its own samples.
pub proof fn law_tripwire_judges_the_window(cell: DurableCell, count: u64, sum_us: u64)
    requires
        cell.fua_p50_us_probed != 0,
        count >= cell.fua_tick_count_prev,
        sum_us >= cell.fua_tick_window_sum_us,
    ensures
        ({
            let next = cell.after_tripwire(count, sum_us);
            let n = count - cell.fua_tick_count_prev;
            let sum = sum_us - cell.fua_tick_window_sum_us;
            let run = cell.fua_degraded_windows;
            &&& next.fua_tick_count_prev == count
            &&& next.fua_tick_window_sum_us == sum_us
            &&& n == 0 ==> next.fua_degraded_windows == run
            &&& n > 0 && sum < n * (3 * cell.fua_p50_us_probed + 1) ==> next.fua_degraded_windows
                == 0
            &&& n > 0 && sum >= n * (3 * cell.fua_p50_us_probed + 1) && run < u32::MAX
                ==> next.fua_degraded_windows == run + 1
            &&& n > 0 && sum >= n * (3 * cell.fua_p50_us_probed + 1) && run == u32::MAX
                ==> next.fua_degraded_windows == u32::MAX
        }),
{
    let n = count - cell.fua_tick_count_prev;
    let sum = sum_us - cell.fua_tick_window_sum_us;
    let limit = 3 * cell.fua_p50_us_probed + 1;
    if n > 0 {
        if sum >= n * limit {
            assert(sum / n >= limit) by (nonlinear_arith)
                requires
                    n > 0,
                    sum >= n * limit,
            ;
        } else {
            assert(sum / n < limit) by (nonlinear_arith)
                requires
                    n > 0,
                    sum < n * limit,
            ;
        }
    }
}

/// A cell whose device was never probed has no tripwire.
pub proof fn law_unprobed_cell_has_no_tripwire(cell: DurableCell, count: u64, sum_us: u64)
    requires
        cell.fua_p50_us_probed == 0,
    ensures
        cell.after_tripwire(count, sum_us) == cell,
{
}

/// Pre-zeroing spends what it was granted: bytes are offered to the pacer only
/// for a pending segment of a cell that writes through, the slice taken is at
/// most the offer, what the slice left over is refunded, and an offer without
/// a slice is withdrawn whole.
pub proof fn law_zero_fill_spends_its_grant(
    cell: DurableCell,
    later: DurableCell,
    pending: bool,
    bytes: u64,
    len: u64,
)
    requires
        cell.zero_fill_step(ZeroFillEvent::Begun { pending }) == (ZeroFillStep::Offer { bytes }),
        len <= bytes,
    ensures
        pending && cell.write_through_wanted,
        bytes == 262_144,
        later.zero_fill_step(ZeroFillEvent::Admitted(true)) == (ZeroFillStep::TakeSlice {
            limit: bytes,
        }),
        later.zero_fill_step(ZeroFillEvent::Sliced(Some(len))) matches ZeroFillStep::Queue {
            refund,
        } && refund + len == bytes,
        later.zero_fill_step(ZeroFillEvent::Sliced(None)) == (ZeroFillStep::Withdraw { bytes }),
{
}

/// A pending segment of a cell that writes through is always offered, and a
/// pass ends with the segment's barrier, taken only while none is in flight.
pub proof fn law_zero_fill_ends_with_one_barrier(cell: DurableCell, event: ZeroFillEvent)
    ensures
        cell.write_through_wanted ==> cell.zero_fill_step(
            ZeroFillEvent::Begun { pending: true },
        ) is Offer,
        cell.zero_fill_step(event) is TakeBarrier ==> cell.zero_fill_ticket is None,
        cell.zero_fill_ticket is None ==> cell.zero_fill_step(ZeroFillEvent::Queued) is TakeBarrier
            && cell.zero_fill_step(ZeroFillEvent::Admitted(false)) is TakeBarrier
            && cell.zero_fill_step(ZeroFillEvent::Begun { pending: false }) is TakeBarrier,
        cell.zero_fill_ticket is None && !cell.write_through_wanted ==> cell.zero_fill_step(
            ZeroFillEvent::Begun { pending: true },
        ) is TakeBarrier,
        cell.zero_fill_ticket is Some ==> cell.zero_fill_step(ZeroFillEvent::Queued) is Done
            && cell.zero_fill_step(ZeroFillEvent::Admitted(false)) is Done,
        event is Barrier ==> cell.zero_fill_step(event) is Done,
{
}

/// Running out of space is no failure: maintenance goes on. Every other error
/// stops the cell, and a stopped cell does nothing. A barrier that is due is
/// issued on the descriptor that it is due on.
pub proof fn law_only_real_errors_stop(cell: DurableCell, outcome: MaintainOutcome)
    ensures
        cell.failed ==> cell.maintain_step(outcome) is Nothing,
        !cell.failed ==> (cell.maintain_step(outcome) is FailStop <==> outcome
            == (MaintainOutcome::Failed { space_exhausted: false })),
        !cell.failed ==> (outcome matches MaintainOutcome::Barrier { fd: Some(fd) }
            ==> cell.maintain_step(outcome) == (MaintainStep::IssueBarrier { fd })),
        cell.maintain_step(outcome) matches MaintainStep::IssueBarrier { fd } ==> outcome == (
        MaintainOutcome::Barrier { fd: Some(fd) }),
        !cell.failed && (outcome is Quiet || outcome == (MaintainOutcome::Barrier { fd: None }))
            ==> cell.maintain_step(outcome) is ZeroFill,
        !cell.failed && outcome == (MaintainOutcome::Failed { space_exhausted: true })
            ==> cell.maintain_step(outcome) is ZeroFill,
{
}

/// The boot barriers arm every handle that has a descriptor, in order, and no
/// other: joined handles arm what each part arms.
pub proof fn law_every_handle_is_armed(a: Seq<Option<i32>>, b: Seq<Option<i32>>, fd: i32)
    ensures
        with_descriptor(a + b) == with_descriptor(a) + with_descriptor(b),
        with_descriptor(seq![Some(fd)]) == seq![fd],
        with_descriptor(seq![None]) == Seq::<i32>::empty(),
    decreases b.len(),
{
    reveal_with_fuel(with_descriptor, 2);
    assert(seq![Some(fd)].drop_last() =~= Seq::<Option<i32>>::empty());
    assert(seq![None::<i32>].drop_last() =~= Seq::<Option<i32>>::empty());
    if b.len() == 0 {
        assert(a + b =~= a);
    } else {
        law_every_handle_is_armed(a, b.drop_last(), fd);
        assert((a + b).drop_last() =~= a + b.drop_last());
        assert((a + b).last() == b.last());
    }
}

/// The pacer is asked exactly where its answer matters: for a frame that a
/// healthy cell could seal, with no extent barrier pending, while frames are
/// in flight. Everywhere else the verdict does not depend on it.
pub proof fn law_pacer_is_asked_where_it_matters(
    cell: DurableCell,
    f: SealFacts,
    other: Option<bool>,
    now: u64,
)
    ensures
        cell.paced(f) <==> !cell.failed && f.can_seal && !f.extent_barrier_pending && !f.drained,
        !cell.paced(f) ==> cell.seal_verdict(f, now) == cell.seal_verdict(
            (SealFacts { pace: other, ..f }),
            now,
        ),
{
}

/// How far one number is above another: nothing where it is not.
pub proof fn law_distance_is_never_negative(a: u64, b: u64)
    ensures
        a >= b ==> above(a, b) + b == a,
        a < b ==> above(a, b) == 0,
{
}

} // verus!
