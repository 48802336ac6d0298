//! Boot narration: which lines the control plane prints while cells recover.

use vstd::prelude::*;
use crate::control::boards;
use crate::control::boards::{CellRecoverySlot, RecoveredResidue, RecoveryBoard};
use crate::text;

verus! {

/// Nanoseconds between two progress lines.
pub const PROGRESS_EVERY_NS: u64 = 1_000_000_000;

/// Nanoseconds after which a cell that is not ready is named.
pub const STUCK_AFTER_NS: u64 = 5_000_000_000;

/// One line to print.
#[derive(Copy, Clone, Debug, PartialEq, Eq, Structural)]
pub enum Narration {
    /// The cell recovered.
    Recovered { cell: u16 },
    /// The aggregate progress of all cells.
    Progress,
    /// The cell is not ready.
    Stuck { cell: u16 },
}

/// The lines of the first `n` cells that became ready unannounced.
pub open spec fn newly_ready(
    announced: Seq<bool>,
    slots: Seq<boards::RecoverySlotView>,
    n: int,
) -> Seq<Narration>
    decreases n,
{
    if n <= 0 {
        Seq::empty()
    } else {
        let before = newly_ready(announced, slots, n - 1);
        if !announced[n - 1] && slots[n - 1].ready {
            before.push(Narration::Recovered { cell: (n - 1) as u16 })
        } else {
            before
        }
    }
}

/// The lines of the first `n` cells that are not ready.
pub open spec fn not_ready(slots: Seq<boards::RecoverySlotView>, n: int) -> Seq<Narration>
    decreases n,
{
    if n <= 0 {
        Seq::empty()
    } else {
        let before = not_ready(slots, n - 1);
        if slots[n - 1].ready {
            before
        } else {
            before.push(Narration::Stuck { cell: (n - 1) as u16 })
        }
    }
}

/// Whether every slot is ready.
pub open spec fn all_ready(slots: Seq<boards::RecoverySlotView>) -> bool {
    forall|i: int| 0 <= i < slots.len() ==> (#[trigger] slots[i]).ready
}

/// Which cells were announced, and when the next progress line is due.
#[derive(Debug)]
pub struct Narrator {
    pub announced: Vec<bool>,
    pub next_progress_ns: u64,
}

impl Narrator {
    /// Nothing announced; the first progress line after a second.
    pub fn new(cells: u16) -> (r: Narrator)
        ensures
            r.announced@ == Seq::new(cells as nat, |i: int| false),
            r.next_progress_ns == PROGRESS_EVERY_NS,
    {
        let mut announced: Vec<bool> = Vec::new();
        let mut i: u16 = 0;
        while i < cells
            invariant
                i <= cells,
                announced@ == Seq::new(i as nat, |k: int| false),
            decreases cells - i,
        {
            announced.push(false);
            i += 1;
            proof {
                assert(announced@ =~= Seq::new(i as nat, |k: int| false));
            }
        }
        Narrator { announced, next_progress_ns: PROGRESS_EVERY_NS }
    }

    /// The lines due now, with the time since boot: each cell that became
    /// ready, once; then, while some cell is not, progress at most once a
    /// second, and after five seconds the cells that hold it up.
    pub fn poll(&mut self, board: &RecoveryBoard, elapsed_ns: u64) -> (r: Vec<Narration>)
        requires
            board@.len() == old(self).announced@.len(),
            board@.len() <= u16::MAX,
            elapsed_ns <= u64::MAX - PROGRESS_EVERY_NS,
        ensures
            final(self).announced@ == Seq::new(
                old(self).announced@.len(),
                |i: int| old(self).announced@[i] || board@[i].ready,
            ),
            ({
                let due = elapsed_ns >= old(self).next_progress_ns && !all_ready(board@);
                &&& final(self).next_progress_ns == (if due {
                    (elapsed_ns + PROGRESS_EVERY_NS) as u64
                } else {
                    old(self).next_progress_ns
                })
                &&& r@ == newly_ready(old(self).announced@, board@, board@.len() as int) + (
                if !due {
                    Seq::empty()
                } else if elapsed_ns >= STUCK_AFTER_NS {
                    seq![Narration::Progress] + not_ready(board@, board@.len() as int)
                } else {
                    seq![Narration::Progress]
                })
            }),
    {
        let ghost before = self.announced@;
        let mut lines: Vec<Narration> = Vec::new();
        let cells: u16 = self.announced.len() as u16;
        let mut cell: u16 = 0;
        while cell < cells
            invariant
                cell <= cells,
                cells == before.len(),
                self.announced@.len() == cells,
                board@.len() == cells,
                self.next_progress_ns == old(self).next_progress_ns,
                lines@ == newly_ready(before, board@, cell as int),
                forall|k: int|
                    0 <= k < cell ==> #[trigger] self.announced@[k] == (before[k]
                        || board@[k].ready),
                forall|k: int| cell <= k < cells ==> #[trigger] self.announced@[k] == before[k],
            decreases cells - cell,
        {
            if !self.announced[cell as usize] && board.slot(cell).ready() {
                self.announced.set(cell as usize, true);
                lines.push(Narration::Recovered { cell });
            }
            cell += 1;
        }
        proof {
            assert(self.announced@ =~= Seq::new(before.len(), |i: int| before[i] || board@[i].ready));
        }
        if elapsed_ns >= self.next_progress_ns && !board.all_ready() {
            self.next_progress_ns = elapsed_ns + PROGRESS_EVERY_NS;
            let ghost told = lines@;
            lines.push(Narration::Progress);
            if elapsed_ns >= STUCK_AFTER_NS {
                let mut at: u16 = 0;
                proof {
                    assert(lines@ =~= told + (seq![Narration::Progress] + not_ready(board@, 0)));
                }
                while at < cells
                    invariant
                        at <= cells,
                        board@.len() == cells,
                        lines@ == told + (seq![Narration::Progress] + not_ready(
                            board@,
                            at as int,
                        )),
                    decreases cells - at,
                {
                    if !board.slot(at).ready() {
                        let ghost held = lines@;
                        lines.push(Narration::Stuck { cell: at });
                        proof {
                            assert(lines@ =~= told + (seq![Narration::Progress] + not_ready(
                                board@,
                                at + 1,
                            )));
                        }
                    }
                    at += 1;
                }
            } else {
                proof {
                    assert(lines@ =~= told + seq![Narration::Progress]);
                }
            }
        } else {
            proof {
                assert(lines@ =~= lines@ + Seq::empty());
            }
        }
        lines
    }
}

/// What follows the counts on a recovered cell's line. The position's text is
/// the caller's.
pub open spec fn notes_text(
    torn: Option<Seq<char>>,
    residue: RecoveredResidue,
    unknown: u64,
) -> Seq<char> {
    let truncated = match torn {
        Some(at) => ", torn tail truncated at "@ + at + " (M2-S14)"@,
        None => Seq::empty(),
    };
    let recycled = if residue.segment_residue_stops == 0 && residue.recycled_residue_slacks == 0 {
        Seq::empty()
    } else {
        ", recycled residue: "@ + text::dec_chars(residue.segment_residue_stops as nat)
            + " segment stops, "@ + text::dec_chars(residue.recycled_residue_slacks as nat)
            + " slacks (ADR-0090)"@
    };
    let skipped = if unknown == 0 {
        Seq::empty()
    } else {
        ", "@ + text::dec_chars(unknown as nat)
            + " records of untombstoned unknown namespaces skipped (foreign log or corruption — ADR-0103 D4)"@
    };
    truncated + recycled + skipped
}

/// What follows the counts on a recovered cell's line.
pub fn recovered_notes(slot: &CellRecoverySlot, torn: Option<&str>) -> (r: String)
    ensures
        r@ == notes_text(
            match torn {
                Some(s) => Some(s@),
                None => None,
            },
            slot@.residue,
            slot@.skipped_unknown_ns,
        ),
{
    let mut out = text::owned("");
    proof {
        reveal_strlit("");
        assert(out@ =~= Seq::empty());
    }
    if let Some(at) = torn {
        out.append(", torn tail truncated at ");
        out.append(at);
        out.append(" (M2-S14)");
    }
    let ghost truncated = out@;
    let residue = slot.residue();
    if residue.segment_residue_stops != 0 || residue.recycled_residue_slacks != 0 {
        out.append(", recycled residue: ");
        text::append_dec(&mut out, residue.segment_residue_stops);
        out.append(" segment stops, ");
        text::append_dec(&mut out, residue.recycled_residue_slacks);
        out.append(" slacks (ADR-0090)");
    }
    let ghost recycled = out@;
    let unknown: u64 = slot.records_skipped_unknown_ns();
    if unknown != 0 {
        out.append(", ");
        text::append_dec(&mut out, unknown);
        out.append(
            " records of untombstoned unknown namespaces skipped (foreign log or corruption — ADR-0103 D4)",
        );
    }
    proof {
        assert(out@ =~= notes_text(
            match torn {
                Some(s) => Some(s@),
                None => None,
            },
            slot@.residue,
            slot@.skipped_unknown_ns,
        ));
    }
    out
}

/// A cell is announced once: no line of a poll names a cell announced before.
pub proof fn law_announced_once(
    announced: Seq<bool>,
    slots: Seq<boards::RecoverySlotView>,
    n: int,
)
    requires
        0 <= n <= announced.len(),
        n <= u16::MAX,
    ensures
        forall|k: int|
            0 <= k < newly_ready(announced, slots, n).len() ==> {
                &&& (#[trigger] newly_ready(announced, slots, n)[k]) matches Narration::Recovered {
                    cell,
                }
                &&& cell < n
                &&& !announced[cell as int]
                &&& slots[cell as int].ready
            },
    decreases n,
{
    if n > 0 {
        law_announced_once(announced, slots, n - 1);
    }
}

proof fn lemma_newly_ready_has(
    announced: Seq<bool>,
    slots: Seq<boards::RecoverySlotView>,
    n: int,
    c: int,
)
    requires
        0 <= c < n <= u16::MAX,
        !announced[c],
        slots[c].ready,
    ensures
        newly_ready(announced, slots, n).contains(Narration::Recovered { cell: c as u16 }),
    decreases n,
{
    let now = newly_ready(announced, slots, n);
    if c == n - 1 {
        assert(now[now.len() - 1] == (Narration::Recovered { cell: c as u16 }));
    } else {
        lemma_newly_ready_has(announced, slots, n - 1, c);
        let before = newly_ready(announced, slots, n - 1);
        let i = choose|i: int|
            0 <= i < before.len() && before[i] == (Narration::Recovered { cell: c as u16 });
        assert(now[i] == before[i]);
    }
}

proof fn lemma_not_ready_has(slots: Seq<boards::RecoverySlotView>, n: int, c: int)
    requires
        0 <= c < n <= u16::MAX,
        !slots[c].ready,
    ensures
        not_ready(slots, n).contains(Narration::Stuck { cell: c as u16 }),
    decreases n,
{
    let now = not_ready(slots, n);
    if c == n - 1 {
        assert(now[now.len() - 1] == (Narration::Stuck { cell: c as u16 }));
    } else {
        lemma_not_ready_has(slots, n - 1, c);
        let before = not_ready(slots, n - 1);
        let i = choose|i: int|
            0 <= i < before.len() && before[i] == (Narration::Stuck { cell: c as u16 });
        assert(now[i] == before[i]);
    }
}

/// Every cell that is ready and was not announced is announced, in the order
/// of the cells; every cell that is not ready is named when recovery is stuck.
pub proof fn law_no_cell_is_passed_over(
    announced: Seq<bool>,
    slots: Seq<boards::RecoverySlotView>,
    c: int,
)
    requires
        announced.len() == slots.len(),
        0 <= c < slots.len() <= u16::MAX,
    ensures
        !announced[c] && slots[c].ready ==> newly_ready(
            announced,
            slots,
            slots.len() as int,
        ).contains(Narration::Recovered { cell: c as u16 }),
        !slots[c].ready ==> not_ready(slots, slots.len() as int).contains(
            Narration::Stuck { cell: c as u16 },
        ),
{
    if !announced[c] && slots[c].ready {
        lemma_newly_ready_has(announced, slots, slots.len() as int, c);
    }
    if !slots[c].ready {
        lemma_not_ready_has(slots, slots.len() as int, c);
    }
}

/// Cells are named in their order, each once: of two announcements the later
/// is of a later cell, and the same holds of the cells that are stuck, which
/// are those not ready.
pub proof fn law_cells_are_named_in_order(
    announced: Seq<bool>,
    slots: Seq<boards::RecoverySlotView>,
    n: int,
)
    requires
        0 <= n <= announced.len(),
        n <= slots.len(),
        n <= u16::MAX,
    ensures
        forall|i: int, j: int|
            0 <= i < j < newly_ready(announced, slots, n).len() ==> (#[trigger] newly_ready(
                announced,
                slots,
                n,
            )[i])->Recovered_cell < (#[trigger] newly_ready(announced, slots, n)[j])->Recovered_cell,
        forall|i: int|
            0 <= i < not_ready(slots, n).len() ==> ((#[trigger] not_ready(
                slots,
                n,
            )[i]) matches Narration::Stuck { cell } && cell < n && !slots[cell as int].ready),
        forall|i: int, j: int|
            0 <= i < j < not_ready(slots, n).len() ==> (#[trigger] not_ready(
                slots,
                n,
            )[i])->Stuck_cell < (#[trigger] not_ready(slots, n)[j])->Stuck_cell,
    decreases n,
{
    if n > 0 {
        law_cells_are_named_in_order(announced, slots, n - 1);
        law_announced_once(announced, slots, n - 1);
    }
}

/// The notes of a recovered cell say what there is to say: a torn tail, a
/// recycled residue, records skipped; and nothing where there is nothing.
pub proof fn law_quiet_recovery_has_no_notes(
    torn: Option<Seq<char>>,
    residue: RecoveredResidue,
    unknown: u64,
)
    ensures
        torn is None && residue.segment_residue_stops == 0 && residue.recycled_residue_slacks == 0
            && unknown == 0 ==> notes_text(torn, residue, unknown) == Seq::<char>::empty(),
        torn is Some || residue.segment_residue_stops > 0 || residue.recycled_residue_slacks > 0
            || unknown > 0 ==> notes_text(torn, residue, unknown).len() > 0,
        torn matches Some(at) ==> notes_text(torn, residue, unknown) == ", torn tail truncated at "@
            + at + " (M2-S14)"@ + notes_text(None, residue, unknown),
{
    reveal_strlit(", torn tail truncated at ");
    reveal_strlit(", recycled residue: ");
    reveal_strlit(", ");
    if let Some(at) = torn {
        assert(notes_text(torn, residue, unknown) =~= ", torn tail truncated at "@ + at
            + " (M2-S14)"@ + notes_text(None, residue, unknown));
    }
}

/// Recovery is over when every cell is ready: then there is no progress to
/// tell and no cell is stuck.
pub proof fn law_nothing_to_tell_when_all_are_ready(slots: Seq<boards::RecoverySlotView>)
    requires
        all_ready(slots),
    ensures
        forall|i: int| 0 <= i < slots.len() ==> (#[trigger] slots[i]).ready,
        not_ready(slots, slots.len() as int) == Seq::<Narration>::empty(),
{
    lemma_none_stuck(slots, slots.len() as int);
}

proof fn lemma_none_stuck(slots: Seq<boards::RecoverySlotView>, n: int)
    requires
        all_ready(slots),
        0 <= n <= slots.len(),
    ensures
        not_ready(slots, n) == Seq::<Narration>::empty(),
    decreases n,
{
    if n > 0 {
        lemma_none_stuck(slots, n - 1);
        assert(slots[n - 1].ready);
    }
}

/// Progress is told once a second, and a cell that is not ready is named once
/// recovery has taken five.
pub proof fn law_narration_keeps_its_pace()
    ensures
        PROGRESS_EVERY_NS == 1_000_000_000,
        STUCK_AFTER_NS == 5 * PROGRESS_EVERY_NS,
{
}

} // verus!
