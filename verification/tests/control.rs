use inf_server::control::boards::{
    CellRecoverySlot, CkptBoard, CreateOutcome, CreateVerdict, IndexBoard, MemoryBoard,
    MemoryGauges, RecoverPhases, RecoveredResidue, RecoveryBoard, VerdictBoard,
};
use inf_server::control::catalog::{DropTombstones, PendingCreates, PENDING_CREATE_MAX};
use inf_server::control::handle::{
    ControlHandle, ControlStep, IndexFloor, CONTROL_QUEUE,
};
use inf_server::control::narration::{recovered_notes, Narration, Narrator};
use inf_server::lsn::Lsn;
use inf_server::namespace::{FsyncClass, IndexCatalog, NsCatalog, NsMode, NsSpec};

fn entry(id: u32) -> NsSpec {
    NsSpec {
        id,
        name: format!("ns{id}").into_bytes(),
        mode: NsMode::Durable,
        fsync: Some(FsyncClass::Everysec),
        policy: None,
        maxmemory: None,
        tier: None,
    }
}

fn catalog(next_id: u32, entries: Vec<NsSpec>) -> NsCatalog {
    NsCatalog {
        next_id,
        entries,
        index: IndexCatalog { next_id: 1, next_generation: 1 },
        dropped: Vec::new(),
    }
}

fn floor() -> IndexFloor {
    IndexFloor { first_id: 1, first_generation: 1, slots: 4 }
}

#[test]
fn tombstones_add_stamp_retire_and_reconcile() {
    let mut t = DropTombstones::default();
    t.add(18);
    t.add(16);
    t.add(18);
    assert_eq!(t.entries, vec![(16, None), (18, None)]);
    t.retire(u64::MAX);
    assert_eq!(t.len(), 2, "unstamped tombstones never retire");
    t.stamp(16, 3);
    t.retire(2);
    assert_eq!(t.len(), 2, "not every cell published epoch 3 yet");
    t.retire(3);
    assert_eq!(t.entries, vec![(18, None)]);
    t.add(20);
    t.stamp(20, 9);
    t.stamp_unstamped(5);
    assert_eq!(t.entries, vec![(18, Some(5)), (20, Some(9))]);
    t.stamp(20, 7);
    assert_eq!(t.entries[1], (20, Some(9)));
    let mut catalog = catalog(21, vec![entry(17), entry(18)]);
    t.reconcile(&mut catalog);
    assert_eq!(catalog.dropped, vec![18, 20]);
    assert_eq!(catalog.entries.len(), 1, "a tombstoned entry is replica lag, never live");
    assert_eq!(catalog.entries[0].id, 17);
}

#[test]
fn pending_creates_merge_admit_retire_and_verdict() {
    let mut pending = PendingCreates::default();
    let mut first = catalog(17, vec![entry(16)]);
    assert_eq!(pending.accept(&mut first, entry(17)), CreateOutcome::Accepted);
    assert_eq!(first.entries.len(), 2);
    assert_eq!(pending.len(), 1);
    let mut stale = catalog(18, vec![entry(16)]);
    pending.merge(&mut stale);
    assert_eq!(stale.entries.iter().map(|e| e.id).collect::<Vec<_>>(), vec![16, 17]);
    let mut dup = entry(18);
    dup.name = b"ns17".to_vec();
    assert_eq!(pending.accept(&mut stale, dup), CreateOutcome::NameExists);
    let mut dup16 = entry(19);
    dup16.name = b"ns16".to_vec();
    assert_eq!(pending.accept(&mut stale, dup16), CreateOutcome::NameExists);
    assert_eq!(pending.len(), 1, "a refused create never joins the set");
    pending.retire(17);
    assert_eq!(pending.len(), 0);
    let mut again = catalog(20, vec![entry(16)]);
    let mut reuse = entry(20);
    reuse.name = b"ns17".to_vec();
    assert_eq!(pending.accept(&mut again, reuse), CreateOutcome::Accepted);
    pending.retire(20);
    for id in 100..(100 + PENDING_CREATE_MAX as u32) {
        let mut c = catalog(id + 1, Vec::new());
        assert_eq!(pending.accept(&mut c, entry(id)), CreateOutcome::Accepted);
    }
    let mut full = catalog(1_000, Vec::new());
    assert_eq!(pending.accept(&mut full, entry(999)), CreateOutcome::AtCapacity);
    assert!(full.entries.is_empty(), "a refused create never joins the payload");
    let mut board = VerdictBoard::new();
    let verdict = CreateVerdict::new(1);
    let copy = verdict.clone();
    assert_eq!(verdict.get(&board), None, "unset until the writer ran");
    verdict.set(&mut board, CreateOutcome::NameExists);
    assert_eq!(verdict.get(&board), Some(CreateOutcome::NameExists));
    assert_eq!(copy.get(&board), Some(CreateOutcome::NameExists), "a clone reads the same place");
    assert_eq!(CreateVerdict::new(2).get(&board), None);
    verdict.release(&mut board);
    assert_eq!(copy.get(&board), None);
}

#[test]
fn ddl_flows_through_the_inbox() {
    let (mut handle, mut inbox) = ControlHandle::detached(2, 7, floor());
    assert_eq!(handle.recovery_board().start_unix_ms(), 7);
    assert_eq!(handle.alloc_ns_id(), 16);
    assert_eq!(handle.next_ns_id(), 17);
    assert_eq!((handle.alloc_index_id(), handle.alloc_index_generation()), (1, 1));
    assert_eq!((handle.next_index_id(), handle.next_index_generation()), (2, 2));

    // A create joins the payload, and a stale export still carries it.
    let (epoch, verdict) = handle.request_persist_create(catalog(16, Vec::new()), entry(16));
    assert_eq!(epoch, 1);
    assert!(!handle.persisted(epoch));
    match inbox.next(&mut handle) {
        ControlStep::WriteMeta { catalog, epoch, verdict: outcome } => {
            assert_eq!(catalog.next_id, 17, "the counter covers its allocator");
            assert_eq!(catalog.index, IndexCatalog { next_id: 2, next_generation: 2 });
            assert_eq!(catalog.entries.len(), 1);
            assert_eq!(outcome, Some(CreateOutcome::Accepted), "a create was carried");
            assert_eq!(handle.create_verdict(verdict), None, "not durable yet");
            inbox.meta_written(&mut handle, epoch);
        }
        other => panic!("{other:?}"),
    }
    assert_eq!(handle.create_verdict(verdict), Some(CreateOutcome::Accepted));
    assert!(handle.persisted(epoch));
    handle.release_verdict(verdict);
    assert_eq!(handle.create_verdict(verdict), None);
    assert_eq!(handle.pending_creates(), 1);
    let again = handle.request_persist(catalog(16, Vec::new()));
    assert_eq!(again, 2);
    match inbox.next(&mut handle) {
        ControlStep::WriteMeta { catalog, .. } => assert_eq!(catalog.entries[0].id, 16),
        other => panic!("{other:?}"),
    }
    handle.create_applied(16);
    assert!(matches!(inbox.next(&mut handle), ControlStep::Handled));
    assert_eq!(handle.pending_creates(), 0);

    // A durable drop leaves a tombstone until every cell checkpointed past it.
    handle.request_persist_drop(catalog(17, vec![entry(16)]), 16, true);
    match inbox.next(&mut handle) {
        ControlStep::WriteMeta { catalog, .. } => {
            assert!(catalog.entries.is_empty());
            assert_eq!(catalog.dropped, vec![16]);
        }
        other => panic!("{other:?}"),
    }
    assert_eq!(handle.drop_tombstones(), 1);
    let ckpt = handle.request_ckpt_all();
    handle.stamp_drop(16, ckpt);
    assert!(matches!(inbox.next(&mut handle), ControlStep::Handled));
    handle.ckpt_board.slot_mut(0).publish(ckpt, 1, 10);
    handle.request_persist(catalog(17, Vec::new()));
    match inbox.next(&mut handle) {
        ControlStep::WriteMeta { catalog, .. } => assert_eq!(catalog.dropped, vec![16]),
        other => panic!("{other:?}"),
    }
    handle.ckpt_board.slot_mut(1).publish(ckpt, 1, 11);
    handle.request_persist(catalog(17, Vec::new()));
    match inbox.next(&mut handle) {
        ControlStep::WriteMeta { catalog, .. } => assert!(catalog.dropped.is_empty()),
        other => panic!("{other:?}"),
    }
    assert!(matches!(inbox.next(&mut handle), ControlStep::Idle));
    assert_eq!(handle.request_ckpt_cell(1), ckpt + 1);
    assert_eq!(handle.ckpt_board().slot(1).req(), ckpt + 1);
    assert_eq!(handle.ckpt_board().slot(0).req(), ckpt);
}

#[test]
fn a_full_queue_refuses_unlinks_only() {
    let (mut handle, mut inbox) = ControlHandle::detached(1, 0, floor());
    for _ in 0..CONTROL_QUEUE {
        assert!(handle.request_unlink(b"stale".to_vec()));
    }
    assert!(!handle.request_unlink(b"stale".to_vec()));
    match inbox.next(&mut handle) {
        ControlStep::Unlink(path) => assert_eq!(path, b"stale"),
        other => panic!("{other:?}"),
    }
    assert!(handle.request_unlink(b"kept".to_vec()));
}

#[test]
fn reboot_restamps_survivors_and_keeps_counters() {
    let mut seed = catalog(40, vec![entry(39)]);
    seed.dropped = vec![17, 20];
    seed.index = IndexCatalog { next_id: 5, next_generation: 9 };
    let (handle, inbox) = ControlHandle::detached_with_catalog(Some(&seed), 3, 0, floor());
    assert_eq!(handle.next_ns_id(), 40);
    assert_eq!((handle.next_index_id(), handle.next_index_generation()), (5, 9));
    assert_eq!(handle.drop_tombstones(), 2);
    assert_eq!(inbox.writer.tombstones.entries, vec![(17, Some(1)), (20, Some(1))]);
    for cell in 0..3 {
        assert_eq!(handle.ckpt_board().slot(cell).req(), 1);
    }
}

fn phases() -> RecoverPhases {
    RecoverPhases {
        start_ns: 1,
        ckpt_ns: 2,
        ckpt_bytes: 3,
        replay_ns: 4,
        replay_bytes: 5,
        replay_frames: 6,
        audit_ns: 7,
        audit_bytes: 8,
        audit_valid_frames: 9,
        audit_foreign_frames: 10,
        finish_ns: 11,
        total_ns: 25,
    }
}

#[test]
fn narration_announces_once_then_paces() {
    let mut board = RecoveryBoard::new(2, 0);
    let mut narrator = Narrator::new(2);
    assert!(narrator.poll(&board, 500_000_000).is_empty());
    assert_eq!(narrator.poll(&board, 1_000_000_000), vec![Narration::Progress]);
    assert!(narrator.poll(&board, 1_900_000_000).is_empty());
    board.slot_mut(1).mark_ready(
        10,
        Some(Lsn { segment: 1, offset: 8 }),
        RecoveredResidue { segment_residue_stops: 2, recycled_residue_slacks: 3 },
        phases(),
        4,
    );
    assert_eq!(
        narrator.poll(&board, 6_000_000_000),
        vec![Narration::Recovered { cell: 1 }, Narration::Progress, Narration::Stuck { cell: 0 }]
    );
    assert!(narrator.poll(&board, 6_100_000_000).is_empty(), "announced once");
    assert_eq!(
        recovered_notes(board.slot(1), Some("1:8")),
        ", torn tail truncated at 1:8 (M2-S14), recycled residue: 2 segment stops, 3 slacks \
         (ADR-0090), 4 records of untombstoned unknown namespaces skipped (foreign log or \
         corruption — ADR-0103 D4)"
    );
    assert_eq!(recovered_notes(board.slot(0), None), "");
    assert_eq!(board.ready_cells(), 1);
    assert!(!board.all_ready());
    board.slot_mut(0).publish_phase(2);
    assert_eq!((board.slot(0).phase(), board.slot(0).ready()), (2, false));
    assert_eq!(CellRecoverySlot::phase_name(3), "replay");
    assert_eq!(CellRecoverySlot::phase_name(99), "unknown");
}

#[test]
fn boards_fold_over_cells() {
    let mut ckpt = CkptBoard::new(2);
    assert_eq!(ckpt.min_published(), 0);
    ckpt.slot_mut(0).publish(4, 1, 100);
    ckpt.slot_mut(1).publish(2, 1, 300);
    ckpt.slot_mut(1).publish(1, 2, 200);
    assert_eq!(ckpt.min_published(), 2, "a publication never regresses");
    assert_eq!(ckpt.published_sum(), 6);
    assert_eq!(ckpt.max_unix_ms(), 200);
    assert_eq!((ckpt.slot(0).last_ckpt_id(), ckpt.slot(1).last_ckpt_id()), (1, 2));

    let mut memory = MemoryBoard::new(2);
    memory.slot_mut(0).publish(MemoryGauges { used_bytes: 5, ..MemoryGauges::default() });
    memory.slot_mut(1).publish(MemoryGauges {
        used_bytes: 7,
        docs_live: 1,
        ..MemoryGauges::default()
    });
    let totals = memory.totals();
    assert_eq!((totals.used_bytes, totals.docs_live), (12, 1));

    let mut index = IndexBoard::new(2, 3);
    index.publish_ready(0, 2, 9);
    assert!(!index.fleet_ready(2, 9));
    index.publish_ready(1, 2, 9);
    assert!(index.fleet_ready(2, 9));
    index.clear(0, 2);
    assert!(!index.fleet_ready(2, 9));
    assert_eq!(index.cell_ready_generation(1, 2), 9);
}
