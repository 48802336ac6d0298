use std::collections::VecDeque;

use inf_server::durable::{
    coalesce_ack_map, fsync_token, token_ticket, write_seq_of, write_token, FillConfig,
    FillDecision, FrameLayout, FramePlan, GroupDecision, GroupHoldConfig,
};
use inf_server::lsn::Lsn;

const MICROS: u64 = 1_000;

fn lsn(off: u32) -> Lsn {
    Lsn { segment: 1, offset: off }
}

fn map(ends: &[u32]) -> VecDeque<(Lsn, u64)> {
    ends.iter().map(|&e| (lsn(e), u64::from(e))).collect()
}

#[test]
fn written_plain_frames_without_a_coverage_point_collapse_to_one() {
    let mut m = map(&[64, 128, 192, 256]);
    coalesce_ack_map(&mut m, lsn(256), &[]);
    assert_eq!(m, map(&[256]));
}

#[test]
fn a_coverage_point_between_two_written_frames_keeps_the_earlier() {
    let mut m = map(&[64, 128, 192]);
    coalesce_ack_map(&mut m, lsn(192), &[lsn(64)]);
    assert_eq!(m, map(&[64, 192]));
}

#[test]
fn unwritten_frames_are_never_merged_into() {
    let mut m = map(&[64, 128, 192]);
    coalesce_ack_map(&mut m, lsn(64), &[]);
    assert_eq!(m, map(&[64, 128, 192]));
    coalesce_ack_map(&mut m, lsn(128), &[]);
    assert_eq!(m, map(&[128, 192]));
}

#[test]
fn barrier_less_frame_holds_until_target_or_window() {
    let fill = FillConfig::design_point();
    let t0 = 10 * MICROS;
    let d = |frame_len: u32, since: Option<u64>, now: u64| {
        fill.decide(FramePlan::Plain, FrameLayout::Aligned, frame_len, since, now)
    };
    assert_eq!(d(2_400, None, t0), FillDecision::Hold, "first sight: the hold starts");
    assert_eq!(d(2_400, Some(t0), t0 + 999 * MICROS), FillDecision::Hold);
    assert_eq!(d(2_400, Some(t0), t0 + 1_000 * MICROS), FillDecision::Seal);
    assert_eq!(d(16 << 10, None, t0), FillDecision::Seal, "at the target");
    assert_eq!(d((16 << 10) - 100, None, t0), FillDecision::Seal, "padded to the target");
    assert_eq!(d((8 << 10) + 1, None, t0), FillDecision::Hold, "padded to 12 KiB: below");
    assert_eq!(d((12 << 10) + 1, None, t0), FillDecision::Seal, "padded to 16 KiB: at");
    assert_eq!(
        FillConfig::default().decide(FramePlan::Plain, FrameLayout::Aligned, 100, None, t0),
        FillDecision::Seal,
        "policy off"
    );
    assert_eq!(
        fill.decide(FramePlan::Plain, FrameLayout::Packed, 100, None, t0),
        FillDecision::Seal,
        "no padding on a packed segment — nothing to fill against"
    );
}

#[test]
fn barrier_carrying_and_waiting_frames_are_never_held() {
    let t0 = 10 * MICROS;
    for plan in [FramePlan::WriteThrough, FramePlan::LinkedFsync, FramePlan::Wait] {
        assert_eq!(
            FillConfig::design_point().decide(plan, FrameLayout::Aligned, 100, None, t0),
            FillDecision::Seal,
            "{plan:?}"
        );
    }
}

const T0: u64 = 1_000_000;

#[test]
fn only_a_flush_class_barrier_on_a_packed_segment_can_hold() {
    let arm = GroupHoldConfig::arm();
    let off = GroupHoldConfig::default();
    assert!(!off.enabled());
    assert_eq!(
        off.decide(FramePlan::LinkedFsync, FrameLayout::Packed, 1, 8, None, T0),
        GroupDecision::Seal
    );
    for plan in [FramePlan::Plain, FramePlan::WriteThrough] {
        assert_eq!(
            arm.decide(plan, FrameLayout::Packed, 1, 8, None, T0),
            GroupDecision::Seal,
            "{plan:?}"
        );
    }
    assert_eq!(
        arm.decide(FramePlan::LinkedFsync, FrameLayout::Aligned, 1, 8, None, T0),
        GroupDecision::Seal
    );
}

#[test]
fn holds_only_while_a_group_is_still_arriving_and_inside_the_window() {
    let arm = GroupHoldConfig::arm();
    assert_eq!(
        arm.decide(FramePlan::LinkedFsync, FrameLayout::Packed, 4, 8, None, T0),
        GroupDecision::Hold
    );
    assert_eq!(
        arm.decide(FramePlan::LinkedFsync, FrameLayout::Packed, 4, 4, None, T0),
        GroupDecision::Seal
    );
    let plan = FramePlan::LinkedFsync;
    let packed = FrameLayout::Packed;
    assert_eq!(arm.decide(plan, packed, 0, 1, None, T0), GroupDecision::Seal);
    assert_eq!(arm.decide(plan, packed, 0, 0, None, T0), GroupDecision::Seal);
    assert_eq!(arm.decide(plan, packed, 8, 8, None, T0), GroupDecision::Seal);
    assert_eq!(arm.decide(plan, packed, 9, 8, None, T0), GroupDecision::Seal);
    assert_eq!(arm.decide(plan, packed, 3, 8, None, T0), GroupDecision::Hold);
    let since = Some(T0);
    assert_eq!(
        arm.decide(plan, packed, 3, 8, since, T0 + 249 * MICROS),
        GroupDecision::Hold
    );
    assert_eq!(
        arm.decide(plan, packed, 3, 8, since, T0 + 250 * MICROS),
        GroupDecision::Seal
    );
    assert_eq!(
        arm.decide(plan, packed, 8, 8, since, T0 + 100 * MICROS),
        GroupDecision::Seal
    );
}

#[test]
fn tokens_name_their_numbers() {
    for seq in [0u64, 1, 0xff_ffff, 0x100_0000, (1 << 56) - 1] {
        let (slot, generation) = write_token(seq);
        assert_eq!(write_seq_of(slot, generation), seq);
        let (slot, generation) = fsync_token(seq);
        assert_eq!(token_ticket(slot, generation), seq);
    }
    assert_eq!(write_token(0x100_0001), (1, 1));
}

#[test]
fn packed_positions_keep_their_order() {
    let a = Lsn { segment: 1, offset: u32::MAX };
    let b = Lsn { segment: 2, offset: 0 };
    assert!(a.to_u64() < b.to_u64());
    assert_eq!(Lsn::from_u64(a.to_u64()), a);
    assert_eq!(b.to_u64(), 2 << 32);
}
