//! The handle every cell shares, and the writer's inbox: id and epoch
//! allocators, the node-wide boards, and the bounded queue of control work.

use vstd::prelude::*;
use crate::control::boards;
use crate::control::boards::{
    CkptBoard, CreateOutcome, CreateVerdict, IndexBoard, MemoryBoard, RecoveryBoard, VerdictBoard,
};
use crate::control::catalog;
use crate::control::catalog::{
    CatalogWriter, DropTombstones, PendingCreates, PersistReq, WriterInputs,
};
use crate::namespace;
use crate::namespace::{NsCatalog, NsSpec, FIRST_NAMED_NS_ID};

verus! {

/// Most queued control messages.
pub const CONTROL_QUEUE: usize = 256;

/// Where the index allocators start, and how many index slots a cell has.
#[derive(Copy, Clone, Debug, PartialEq, Eq, Structural)]
pub struct IndexFloor {
    pub first_id: u32,
    pub first_generation: u64,
    pub slots: usize,
}

/// Work for the control plane.
#[derive(Debug)]
pub enum ControlMsg {
    Persist(PersistReq),
    /// A drop reached every cell; its tombstone retires with this checkpoint.
    StampDrop { id: u32, ckpt_epoch: u64 },
    /// A create reached every cell; its pending entry retires.
    CreateApplied { id: u32 },
    /// A file outside every recovery unit, to delete off the loop.
    Unlink(Vec<u8>),
}

/// What the next queued message asks of the outside.
#[derive(Debug)]
pub enum ControlStep {
    /// The queue is empty.
    Idle,
    /// The message changed the writer's own state only.
    Handled,
    /// Swap this catalog in and report back with
    /// [`ControlInbox::meta_written`]. A failed swap is fatal. The verdict is
    /// that of the create it carried, already on the handle's board.
    WriteMeta { catalog: NsCatalog, epoch: u64, verdict: Option<CreateOutcome> },
    /// Delete this file; a failure is not fatal.
    Unlink(Vec<u8>),
}

/// The allocators, boards and queue the cells share.
#[derive(Debug)]
pub struct ControlHandle {
    pub queue: Vec<ControlMsg>,
    pub next_ns_id: u32,
    pub next_index_id: u32,
    pub next_index_generation: u64,
    pub next_epoch: u64,
    pub persisted_epoch: u64,
    pub ckpt_epoch: u64,
    pub ckpt_board: CkptBoard,
    pub recovery: RecoveryBoard,
    pub memory_board: MemoryBoard,
    pub index_board: IndexBoard,
    pub drop_tombstones: usize,
    pub pending_creates: usize,
    pub verdicts: VerdictBoard,
}

/// The writer's side of the control plane.
#[derive(Debug)]
pub struct ControlInbox {
    pub writer: CatalogWriter,
}

/// The counter after one allocation.
pub open spec fn bumped_u32(n: u32) -> u32 {
    if n == u32::MAX {
        0
    } else {
        (n + 1) as u32
    }
}

/// The counter after one allocation.
pub open spec fn bumped_u64(n: u64) -> u64 {
    if n == u64::MAX {
        0
    } else {
        (n + 1) as u64
    }
}

/// The counters a node starts from: those of the recovered catalog, never
/// below their floors.
pub open spec fn seeded_u32(seed: Option<NsCatalog>, held: u32, floor: u32) -> u32 {
    if seed is Some && held >= floor {
        held
    } else {
        floor
    }
}

/// The counters a node starts from: those of the recovered catalog, never
/// below their floors.
pub open spec fn seeded_u64(seed: Option<NsCatalog>, held: u64, floor: u64) -> u64 {
    if seed is Some && held >= floor {
        held
    } else {
        floor
    }
}

/// The ids a recovered catalog tombstones.
pub open spec fn seeded_ids(seed: Option<NsCatalog>) -> Seq<u32> {
    match seed {
        Some(c) => c.dropped@,
        None => Seq::empty(),
    }
}

/// Every request of the board raised to an epoch.
pub open spec fn requested(board: Seq<boards::CkptSlotView>, epoch: u64) -> Seq<
    boards::CkptSlotView,
> {
    board.map_values(
        |c: boards::CkptSlotView|
            boards::CkptSlotView { req: boards::max_epoch(c.req, epoch), ..c },
    )
}

impl ControlHandle {
    /// Live tombstones of the catalog writer.
    pub fn drop_tombstones(&self) -> (r: usize)
        ensures
            r == self.drop_tombstones,
    {
        self.drop_tombstones
    }

    /// Creates in flight.
    pub fn pending_creates(&self) -> (r: usize)
        ensures
            r == self.pending_creates,
    {
        self.pending_creates
    }

    /// Reports that every cell carries a created namespace.
    pub fn create_applied(&mut self, id: u32)
        requires
            old(self).queue@.len() < CONTROL_QUEUE,
        ensures
            final(self).queue@ == old(self).queue@.push(ControlMsg::CreateApplied { id }),
            *final(self) == (ControlHandle { queue: final(self).queue, ..*old(self) }),
    {
        self.queue.push(ControlMsg::CreateApplied { id });
    }

    /// Reports the checkpoint that retires a drop's tombstone.
    pub fn stamp_drop(&mut self, id: u32, ckpt_epoch: u64)
        requires
            old(self).queue@.len() < CONTROL_QUEUE,
        ensures
            final(self).queue@ == old(self).queue@.push(ControlMsg::StampDrop { id, ckpt_epoch }),
            *final(self) == (ControlHandle { queue: final(self).queue, ..*old(self) }),
    {
        self.queue.push(ControlMsg::StampDrop { id, ckpt_epoch });
    }

    /// Allocates one namespace id.
    pub fn alloc_ns_id(&mut self) -> (r: u32)
        ensures
            r == old(self).next_ns_id,
            *final(self) == (ControlHandle {
                next_ns_id: bumped_u32(old(self).next_ns_id),
                ..*old(self)
            }),
    {
        let id: u32 = self.next_ns_id;
        self.next_ns_id = if id == u32::MAX {
            0
        } else {
            id + 1
        };
        id
    }

    /// The namespace id to be handed out next.
    pub fn next_ns_id(&self) -> (r: u32)
        ensures
            r == self.next_ns_id,
    {
        self.next_ns_id
    }

    /// Allocates one index id.
    pub fn alloc_index_id(&mut self) -> (r: u32)
        ensures
            r == old(self).next_index_id,
            *final(self) == (ControlHandle {
                next_index_id: bumped_u32(old(self).next_index_id),
                ..*old(self)
            }),
    {
        let id: u32 = self.next_index_id;
        self.next_index_id = if id == u32::MAX {
            0
        } else {
            id + 1
        };
        id
    }

    /// The index id to be handed out next.
    pub fn next_index_id(&self) -> (r: u32)
        ensures
            r == self.next_index_id,
    {
        self.next_index_id
    }

    /// Allocates one index generation.
    pub fn alloc_index_generation(&mut self) -> (r: u64)
        ensures
            r == old(self).next_index_generation,
            *final(self) == (ControlHandle {
                next_index_generation: bumped_u64(old(self).next_index_generation),
                ..*old(self)
            }),
    {
        let generation: u64 = self.next_index_generation;
        self.next_index_generation = if generation == u64::MAX {
            0
        } else {
            generation + 1
        };
        generation
    }

    /// The index generation to be handed out next.
    pub fn next_index_generation(&self) -> (r: u64)
        ensures
            r == self.next_index_generation,
    {
        self.next_index_generation
    }

    /// Queues a catalog for a durable swap; the epoch to await.
    pub fn request_persist(&mut self, catalog: NsCatalog) -> (r: u64)
        requires
            old(self).queue@.len() < CONTROL_QUEUE,
            old(self).next_epoch < u64::MAX,
        ensures
            r == old(self).next_epoch + 1,
            final(self).queue@ == old(self).queue@.push(
                ControlMsg::Persist(
                    PersistReq { catalog, epoch: r, drop: None, dropped: None, create: None },
                ),
            ),
            *final(self) == (ControlHandle {
                queue: final(self).queue,
                next_epoch: r,
                ..*old(self)
            }),
    {
        self.send_persist(catalog, None, None, None)
    }

    /// Queues the catalog of a drop: a durable namespace leaves a tombstone,
    /// and any namespace retires from the pending creates.
    pub fn request_persist_drop(&mut self, catalog: NsCatalog, id: u32, tombstone: bool) -> (r: u64)
        requires
            old(self).queue@.len() < CONTROL_QUEUE,
            old(self).next_epoch < u64::MAX,
        ensures
            r == old(self).next_epoch + 1,
            final(self).queue@ == old(self).queue@.push(
                ControlMsg::Persist(
                    PersistReq {
                        catalog,
                        epoch: r,
                        drop: if tombstone {
                            Some(id)
                        } else {
                            None
                        },
                        dropped: Some(id),
                        create: None,
                    },
                ),
            ),
            *final(self) == (ControlHandle {
                queue: final(self).queue,
                next_epoch: r,
                ..*old(self)
            }),
    {
        let drop: Option<u32> = if tombstone {
            Some(id)
        } else {
            None
        };
        self.send_persist(catalog, drop, Some(id), None)
    }

    /// Queues the catalog of a create. [`ControlHandle::create_verdict`] reads
    /// the verdict's outcome once its epoch is durable.
    pub fn request_persist_create(&mut self, catalog: NsCatalog, spec: NsSpec) -> (r: (
        u64,
        CreateVerdict,
    ))
        requires
            old(self).queue@.len() < CONTROL_QUEUE,
            old(self).next_epoch < u64::MAX,
        ensures
            r.0 == old(self).next_epoch + 1,
            r.1.epoch == r.0,
            final(self).queue@ == old(self).queue@.push(
                ControlMsg::Persist(
                    PersistReq {
                        catalog,
                        epoch: r.0,
                        drop: None,
                        dropped: None,
                        create: Some(spec),
                    },
                ),
            ),
            *final(self) == (ControlHandle {
                queue: final(self).queue,
                next_epoch: r.0,
                ..*old(self)
            }),
    {
        let epoch: u64 = self.send_persist(catalog, None, None, Some(spec));
        (epoch, CreateVerdict::new(epoch))
    }

    /// What the writer decided about a create, once the persist that carried
    /// it is durable; `None` before.
    pub open spec fn create_outcome(&self, verdict: CreateVerdict) -> Option<CreateOutcome> {
        if self.persisted_epoch >= verdict.epoch {
            boards::decided_at(self.verdicts@, verdict.epoch)
        } else {
            None
        }
    }

    /// What the writer decided about a create, once the persist that carried
    /// it is durable; `None` before.
    pub fn create_verdict(&self, verdict: CreateVerdict) -> (r: Option<CreateOutcome>)
        ensures
            r == self.create_outcome(verdict),
    {
        if self.persisted(verdict.epoch) {
            verdict.get(&self.verdicts)
        } else {
            None
        }
    }

    /// Forgets the outcome of a create that nobody waits for any longer.
    pub fn release_verdict(&mut self, verdict: CreateVerdict)
        ensures
            final(self).verdicts@ == old(self).verdicts@.remove(verdict.epoch),
            *final(self) == (ControlHandle { verdicts: final(self).verdicts, ..*old(self) }),
    {
        verdict.release(&mut self.verdicts);
    }

    fn send_persist(
        &mut self,
        catalog: NsCatalog,
        drop: Option<u32>,
        dropped: Option<u32>,
        create: Option<NsSpec>,
    ) -> (r: u64)
        requires
            old(self).queue@.len() < CONTROL_QUEUE,
            old(self).next_epoch < u64::MAX,
        ensures
            r == old(self).next_epoch + 1,
            final(self).queue@ == old(self).queue@.push(
                ControlMsg::Persist(PersistReq { catalog, epoch: r, drop, dropped, create }),
            ),
            *final(self) == (ControlHandle {
                queue: final(self).queue,
                next_epoch: r,
                ..*old(self)
            }),
    {
        let epoch: u64 = self.next_epoch + 1;
        self.next_epoch = epoch;
        self.queue.push(ControlMsg::Persist(PersistReq { catalog, epoch, drop, dropped, create }));
        epoch
    }

    /// Delegates one deletion; `false` where the queue is full and the caller
    /// keeps the path.
    pub fn request_unlink(&mut self, path: Vec<u8>) -> (r: bool)
        ensures
            r == (old(self).queue@.len() < CONTROL_QUEUE),
            r ==> final(self).queue@ == old(self).queue@.push(ControlMsg::Unlink(path)),
            r ==> *final(self) == (ControlHandle { queue: final(self).queue, ..*old(self) }),
            !r ==> *final(self) == *old(self),
    {
        if self.queue.len() < CONTROL_QUEUE {
            self.queue.push(ControlMsg::Unlink(path));
            true
        } else {
            false
        }
    }

    /// Whether every persist up to an epoch is durable.
    pub fn persisted(&self, epoch: u64) -> (r: bool)
        ensures
            r == (self.persisted_epoch >= epoch),
    {
        self.persisted_epoch >= epoch
    }

    /// The highest durable epoch.
    pub fn persisted_epoch(&self) -> (r: u64)
        ensures
            r == self.persisted_epoch,
    {
        self.persisted_epoch
    }

    /// Requests a checkpoint of every cell; the request epoch.
    pub fn request_ckpt_all(&mut self) -> (r: u64)
        requires
            old(self).ckpt_epoch < u64::MAX,
        ensures
            r == old(self).ckpt_epoch + 1,
            final(self).ckpt_board@ == requested(old(self).ckpt_board@, r),
            *final(self) == (ControlHandle {
                ckpt_epoch: r,
                ckpt_board: final(self).ckpt_board,
                ..*old(self)
            }),
    {
        let epoch: u64 = self.ckpt_epoch + 1;
        self.ckpt_epoch = epoch;
        self.ckpt_board.raise_all(epoch);
        epoch
    }

    /// Requests a checkpoint of one cell; epochs come from the same
    /// allocator.
    pub fn request_ckpt_cell(&mut self, cell: u16) -> (r: u64)
        requires
            old(self).ckpt_epoch < u64::MAX,
            cell < old(self).ckpt_board@.len(),
        ensures
            r == old(self).ckpt_epoch + 1,
            final(self).ckpt_board@ == old(self).ckpt_board@.update(
                cell as int,
                boards::CkptSlotView {
                    req: boards::max_epoch(old(self).ckpt_board@[cell as int].req, r),
                    ..old(self).ckpt_board@[cell as int]
                },
            ),
            *final(self) == (ControlHandle {
                ckpt_epoch: r,
                ckpt_board: final(self).ckpt_board,
                ..*old(self)
            }),
    {
        let epoch: u64 = self.ckpt_epoch + 1;
        self.ckpt_epoch = epoch;
        self.ckpt_board.slot_mut(cell).raise_req(epoch);
        epoch
    }

    /// The checkpoint board.
    pub fn ckpt_board(&self) -> (r: &CkptBoard)
        ensures
            *r == self.ckpt_board,
    {
        &self.ckpt_board
    }

    /// The boot-recovery board.
    pub fn recovery_board(&self) -> (r: &RecoveryBoard)
        ensures
            *r == self.recovery,
    {
        &self.recovery
    }

    /// The memory board.
    pub fn memory_board(&self) -> (r: &MemoryBoard)
        ensures
            *r == self.memory_board,
    {
        &self.memory_board
    }

    /// The index readiness board.
    pub fn index_board(&self) -> (r: &IndexBoard)
        ensures
            *r == self.index_board,
    {
        &self.index_board
    }

    /// A fresh control plane.
    pub fn detached(cells: u16, start_unix_ms: u64, floor: IndexFloor) -> (r: (
        ControlHandle,
        ControlInbox,
    ))
        ensures
            fresh_plane(r.0, None, cells, start_unix_ms, floor),
            r.1.wf(),
            r.1.writer.tombstones.entries@ == Seq::<catalog::Tombstone>::empty(),
            r.1.writer.pending@ == Seq::<namespace::Ns>::empty(),
            r.0.ckpt_epoch == 0,
            r.0.drop_tombstones == 0,
            r.0.ckpt_board@ == blank_ckpt(cells),
    {
        let r = ControlHandle::detached_with_catalog(None, cells, start_unix_ms, floor);
        proof {
            assert(r.1.writer.tombstones.entries@ =~= Seq::empty());
        }
        r
    }

    /// A control plane seeded from a recovered catalog: its counters never
    /// regress, and its tombstones are stamped with one fresh checkpoint
    /// request.
    pub fn detached_with_catalog(
        seed: Option<&NsCatalog>,
        cells: u16,
        start_unix_ms: u64,
        floor: IndexFloor,
    ) -> (r: (ControlHandle, ControlInbox))
        requires
            seed matches Some(c) ==> ascending(c.dropped@),
        ensures
            fresh_plane(r.0, owned_seed(seed), cells, start_unix_ms, floor),
            r.1.wf(),
            r.1.writer.pending@ == Seq::<namespace::Ns>::empty(),
            r.0.drop_tombstones == r.1.writer.tombstones.entries@.len(),
            r.1.writer.tombstones.entries@ == seeded_ids(owned_seed(seed)).map_values(
                |id: u32| (id, Some(1u64)),
            ),
            r.0.ckpt_epoch == (if seeded_ids(owned_seed(seed)).len() > 0 {
                1u64
            } else {
                0
            }),
            r.0.ckpt_board@ == requested(blank_ckpt(cells), r.0.ckpt_epoch),
    {
        let mut next_ns_id: u32 = FIRST_NAMED_NS_ID;
        let mut next_index_id: u32 = floor.first_id;
        let mut next_index_generation: u64 = floor.first_generation;
        if let Some(c) = seed {
            if c.next_id > next_ns_id {
                next_ns_id = c.next_id;
            }
            if c.index.next_id > next_index_id {
                next_index_id = c.index.next_id;
            }
            if c.index.next_generation > next_index_generation {
                next_index_generation = c.index.next_generation;
            }
        }
        let mut handle = ControlHandle {
            queue: Vec::new(),
            next_ns_id,
            next_index_id,
            next_index_generation,
            next_epoch: 0,
            persisted_epoch: 0,
            ckpt_epoch: 0,
            ckpt_board: CkptBoard::new(cells),
            recovery: RecoveryBoard::new(cells, start_unix_ms),
            memory_board: MemoryBoard::new(cells),
            index_board: IndexBoard::new(cells, floor.slots),
            drop_tombstones: 0,
            pending_creates: 0,
            verdicts: VerdictBoard::new(),
        };
        let mut tombstones = match seed {
            Some(c) => DropTombstones::seed(c.dropped.as_slice()),
            None => DropTombstones::default(),
        };
        proof {
            assert(tombstones.entries@ =~= seeded_ids(owned_seed(seed)).map_values(
                |id: u32| (id, None::<u64>),
            ));
        }
        if tombstones.len() > 0 {
            let epoch: u64 = handle.request_ckpt_all();
            tombstones.stamp_unstamped(epoch);
            handle.drop_tombstones = tombstones.len();
        }
        proof {
            assert(handle.ckpt_board@ =~= requested(blank_ckpt(cells), handle.ckpt_epoch));
            assert(tombstones.entries@ =~= seeded_ids(owned_seed(seed)).map_values(
                |id: u32| (id, Some(1u64)),
            ));
        }
        let writer = CatalogWriter { tombstones, pending: PendingCreates::default() };
        (handle, ControlInbox { writer })
    }
}

/// A seed by value.
pub open spec fn owned_seed(seed: Option<&NsCatalog>) -> Option<NsCatalog> {
    match seed {
        Some(c) => Some(*c),
        None => None,
    }
}

/// Strictly ascending ids.
pub open spec fn ascending(ids: Seq<u32>) -> bool {
    forall|i: int, j: int| 0 <= i < j < ids.len() ==> #[trigger] ids[i] < #[trigger] ids[j]
}

/// A board on which nothing was requested or published.
pub open spec fn blank_ckpt(cells: u16) -> Seq<boards::CkptSlotView> {
    Seq::new(
        cells as nat,
        |i: int| boards::CkptSlotView { req: 0, published: 0, ckpt_id: 0, unix_ms: 0 },
    )
}

/// What a new handle holds besides its checkpoint requests.
pub open spec fn fresh_plane(
    handle: ControlHandle,
    seed: Option<NsCatalog>,
    cells: u16,
    start_unix_ms: u64,
    floor: IndexFloor,
) -> bool {
    &&& handle.queue@.len() == 0
    &&& handle.next_ns_id == seeded_u32(seed, seed->0.next_id, FIRST_NAMED_NS_ID)
    &&& handle.next_index_id == seeded_u32(seed, seed->0.index.next_id, floor.first_id)
    &&& handle.next_index_generation == seeded_u64(
        seed,
        seed->0.index.next_generation,
        floor.first_generation,
    )
    &&& handle.next_epoch == 0
    &&& handle.persisted_epoch == 0
    &&& handle.pending_creates == 0
    &&& handle.verdicts@ == Map::<u64, CreateOutcome>::empty()
    &&& handle.recovery@ == Seq::new(cells as nat, |i: int| boards::blank_recovery_slot())
    &&& handle.recovery.started() == start_unix_ms
    &&& handle.memory_board@ == Seq::new(cells as nat, |i: int| boards::no_memory())
    &&& handle.index_board.wf()
    &&& handle.index_board.cell_count() == cells
    &&& handle.index_board.slot_count() == floor.slots
}

impl ControlInbox {
    /// The writer's invariant.
    pub open spec fn wf(&self) -> bool {
        self.writer.wf()
    }

    /// Takes the oldest queued message and performs what it asks of the
    /// writer.
    pub fn next(&mut self, handle: &mut ControlHandle) -> (r: ControlStep)
        requires
            old(self).wf(),
        ensures
            final(self).wf(),
            old(handle).queue@.len() == 0 ==> r is Idle && *final(self) == *old(self) && *final(handle) == *old(handle),
            old(handle).queue@.len() > 0 ==> final(handle).queue@ == old(handle).queue@.skip(1)
                && *final(handle) == (ControlHandle {
                queue: final(handle).queue,
                drop_tombstones: final(handle).drop_tombstones,
                pending_creates: final(handle).pending_creates,
                verdicts: final(handle).verdicts,
                ..*old(handle)
            }),
            old(handle).queue@.len() > 0 ==> match old(handle).queue@[0] {
                ControlMsg::Persist(req) => {
                    &&& r matches ControlStep::WriteMeta { catalog, epoch, verdict }
                    &&& catalog::prepared(
                        old(self).writer,
                        final(self).writer,
                        writer_inputs(*old(handle)),
                        req,
                        catalog::Prepared { catalog, epoch, verdict },
                    )
                    &&& final(handle).drop_tombstones == final(self).writer.tombstones.entries@.len()
                    &&& final(handle).pending_creates == final(self).writer.pending@.len()
                    &&& final(handle).verdicts@ == recorded(old(handle).verdicts@, epoch, verdict)
                },
                ControlMsg::StampDrop { id, ckpt_epoch } => {
                    &&& r is Handled
                    &&& final(self).writer.tombstones.entries@ == catalog::stamped(
                        old(self).writer.tombstones.entries@,
                        id,
                        ckpt_epoch,
                    )
                    &&& final(self).writer.pending@ == old(self).writer.pending@
                    &&& final(handle).drop_tombstones == old(handle).drop_tombstones
                    &&& final(handle).pending_creates == old(handle).pending_creates
                    &&& final(handle).verdicts == old(handle).verdicts
                },
                ControlMsg::CreateApplied { id } => {
                    &&& r is Handled
                    &&& final(self).writer.tombstones == old(self).writer.tombstones
                    &&& final(self).writer.pending@ == catalog::without(
                        old(self).writer.pending@,
                        id,
                    )
                    &&& final(handle).drop_tombstones == old(handle).drop_tombstones
                    &&& final(handle).pending_creates == final(self).writer.pending@.len()
                    &&& final(handle).verdicts == old(handle).verdicts
                },
                ControlMsg::Unlink(path) => {
                    &&& r == ControlStep::Unlink(path)
                    &&& *final(self) == *old(self)
                    &&& final(handle).drop_tombstones == old(handle).drop_tombstones
                    &&& final(handle).pending_creates == old(handle).pending_creates
                    &&& final(handle).verdicts == old(handle).verdicts
                },
            },
    {
        if handle.queue.len() == 0 {
            return ControlStep::Idle;
        }
        let ghost queued = handle.queue@;
        let msg = handle.queue.remove(0);
        proof {
            assert(handle.queue@ =~= queued.skip(1));
        }
        match msg {
            ControlMsg::Persist(req) => {
                let inputs = WriterInputs {
                    next_ns_id: handle.next_ns_id,
                    next_index_id: handle.next_index_id,
                    next_index_generation: handle.next_index_generation,
                    min_published: handle.ckpt_board.min_published(),
                };
                let prepared = self.writer.prepare_persist(inputs, req);
                handle.drop_tombstones = self.writer.tombstones.len();
                handle.pending_creates = self.writer.pending.len();
                if let Some(outcome) = prepared.verdict {
                    CreateVerdict::new(prepared.epoch).set(&mut handle.verdicts, outcome);
                }
                ControlStep::WriteMeta {
                    catalog: prepared.catalog,
                    epoch: prepared.epoch,
                    verdict: prepared.verdict,
                }
            },
            ControlMsg::StampDrop { id, ckpt_epoch } => {
                self.writer.tombstones.stamp(id, ckpt_epoch);
                ControlStep::Handled
            },
            ControlMsg::CreateApplied { id } => {
                self.writer.pending.retire(id);
                handle.pending_creates = self.writer.pending.len();
                ControlStep::Handled
            },
            ControlMsg::Unlink(path) => ControlStep::Unlink(path),
        }
    }

    /// The prepared catalog is durable: its epoch is published.
    pub fn meta_written(&self, handle: &mut ControlHandle, epoch: u64)
        ensures
            *final(handle) == (ControlHandle { persisted_epoch: epoch, ..*old(handle) }),
    {
        handle.persisted_epoch = epoch;
    }
}

/// The board after a persist: the create it carried, if any, is answered.
pub open spec fn recorded(
    board: Map<u64, CreateOutcome>,
    epoch: u64,
    verdict: Option<CreateOutcome>,
) -> Map<u64, CreateOutcome> {
    match verdict {
        Some(outcome) => board.insert(epoch, outcome),
        None => board,
    }
}

/// What a persist reads from the handle.
pub open spec fn writer_inputs(handle: ControlHandle) -> WriterInputs {
    WriterInputs {
        next_ns_id: handle.next_ns_id,
        next_index_id: handle.next_index_id,
        next_index_generation: handle.next_index_generation,
        min_published: boards::lowest_published(handle.ckpt_board@),
    }
}

/// Ids never regress across a restart: a plane seeded from a catalog that was
/// prepared while the handle had handed out `id` starts above `id`.
pub proof fn law_ids_never_regress(
    before: CatalogWriter,
    after: CatalogWriter,
    inputs: WriterInputs,
    req: PersistReq,
    written: catalog::Prepared,
    reborn: ControlHandle,
    cells: u16,
    start_unix_ms: u64,
    floor: IndexFloor,
)
    requires
        catalog::prepared(before, after, inputs, req, written),
        fresh_plane(reborn, Some(written.catalog), cells, start_unix_ms, floor),
    ensures
        reborn.next_ns_id >= inputs.next_ns_id,
        reborn.next_index_id >= inputs.next_index_id,
        reborn.next_index_generation >= inputs.next_index_generation,
{
}

/// Every create is answered: the verdict handed out with a create's persist
/// reads nothing while that persist is not durable, and once it is, what the
/// writer decided.
pub proof fn law_create_is_answered(
    before: CatalogWriter,
    after: CatalogWriter,
    inputs: WriterInputs,
    req: PersistReq,
    written: catalog::Prepared,
    held: ControlHandle,
    stepped: ControlHandle,
    durable: ControlHandle,
    verdict: CreateVerdict,
)
    requires
        catalog::prepared(before, after, inputs, req, written),
        req.create is Some,
        verdict.epoch == req.epoch,
        held.persisted_epoch < req.epoch,
        stepped.persisted_epoch == held.persisted_epoch,
        stepped.verdicts@ == recorded(held.verdicts@, written.epoch, written.verdict),
        durable == (ControlHandle { persisted_epoch: written.epoch, ..stepped }),
    ensures
        held.create_outcome(verdict) is None,
        stepped.create_outcome(verdict) is None,
        written.verdict is Some,
        durable.create_outcome(verdict) == written.verdict,
{
}

/// An id handed out is never handed out again until the counter wraps: each
/// allocation moves the counter on by one.
pub proof fn law_counters_move_on_by_one(n: u32, m: u64)
    ensures
        n < u32::MAX ==> bumped_u32(n) == n + 1,
        bumped_u32(u32::MAX) == 0,
        m < u64::MAX ==> bumped_u64(m) == m + 1,
        bumped_u64(u64::MAX) == 0,
{
}

/// A plane starts on a catalog's counters, and never below the floor: the
/// named ids start at 16, the index ids and generations at theirs. Without a
/// catalog it starts on the floor.
pub proof fn law_plane_starts_past_its_catalog(
    handle: ControlHandle,
    seed: Option<NsCatalog>,
    cells: u16,
    start_unix_ms: u64,
    floor: IndexFloor,
)
    requires
        fresh_plane(handle, seed, cells, start_unix_ms, floor),
    ensures
        handle.next_ns_id >= 16,
        handle.next_index_id >= floor.first_id,
        handle.next_index_generation >= floor.first_generation,
        seed matches Some(c) ==> handle.next_ns_id >= c.next_id && handle.next_index_id
            >= c.index.next_id && handle.next_index_generation >= c.index.next_generation && (
        handle.next_ns_id == c.next_id || handle.next_ns_id == 16),
        seed is None ==> handle.next_ns_id == 16 && handle.next_index_id == floor.first_id
            && handle.next_index_generation == floor.first_generation,
        handle.queue@.len() == 0,
        handle.next_epoch == 0 && handle.persisted_epoch == 0,
        handle.recovery@.len() == cells,
        handle.memory_board@.len() == cells,
        forall|i: int| 0 <= i < cells ==> !(#[trigger] handle.recovery@[i]).ready,
{
}

/// A request reaches every cell and takes none back: each cell is asked for
/// the epoch or a later one it was asked for before, and what the cells have
/// published stands.
pub proof fn law_request_reaches_every_cell(
    board: Seq<boards::CkptSlotView>,
    epoch: u64,
    cell: int,
)
    requires
        0 <= cell < board.len(),
    ensures
        requested(board, epoch).len() == board.len(),
        requested(board, epoch)[cell].req >= epoch,
        requested(board, epoch)[cell].req >= board[cell].req,
        requested(board, epoch)[cell].req == epoch || requested(board, epoch)[cell].req
            == board[cell].req,
        requested(board, epoch)[cell].published == board[cell].published,
        requested(board, epoch)[cell].ckpt_id == board[cell].ckpt_id,
        requested(board, epoch)[cell].unix_ms == board[cell].unix_ms,
{
}

/// A create is answered once its catalog is durable, by its own verdict and no
/// other's, and not before.
pub proof fn law_verdict_waits_for_its_epoch(
    handle: ControlHandle,
    epoch: u64,
    verdict: Option<CreateOutcome>,
    asked: CreateVerdict,
)
    ensures
        handle.persisted_epoch < asked.epoch ==> handle.create_outcome(asked) is None,
        handle.create_outcome(asked) matches Some(outcome) ==> handle.verdicts@.contains_key(
            asked.epoch,
        ) && handle.verdicts@[asked.epoch] == outcome,
        handle.persisted_epoch >= asked.epoch && handle.verdicts@.contains_key(asked.epoch)
            ==> handle.create_outcome(asked) == Some(handle.verdicts@[asked.epoch]),
        verdict is None ==> recorded(handle.verdicts@, epoch, verdict) == handle.verdicts@,
        verdict matches Some(outcome) ==> recorded(
            handle.verdicts@,
            epoch,
            verdict,
        ).contains_key(epoch) && recorded(handle.verdicts@, epoch, verdict)[epoch] == outcome,
        asked.epoch != epoch ==> (recorded(handle.verdicts@, epoch, verdict).contains_key(
            asked.epoch,
        ) <==> handle.verdicts@.contains_key(asked.epoch)),
{
}

/// The writer works on the plane's own counters and on what every cell has
/// published.
pub proof fn law_writer_sees_the_plane(handle: ControlHandle, cell: int)
    ensures
        writer_inputs(handle).next_ns_id == handle.next_ns_id,
        writer_inputs(handle).next_index_id == handle.next_index_id,
        writer_inputs(handle).next_index_generation == handle.next_index_generation,
        0 <= cell < handle.ckpt_board@.len() ==> writer_inputs(handle).min_published
            <= handle.ckpt_board@[cell].published,
{
    if 0 <= cell < handle.ckpt_board@.len() {
        let low = boards::lowest_published(handle.ckpt_board@);
        boards::law_min_published_covers_all(handle.ckpt_board@, low);
    }
}

/// A plane that starts has asked no cell for a checkpoint and seen none.
pub proof fn law_plane_starts_without_requests(cells: u16, c: int)
    requires
        0 <= c < cells,
    ensures
        blank_ckpt(cells).len() == cells,
        blank_ckpt(cells)[c].req == 0,
        blank_ckpt(cells)[c].published == 0,
        blank_ckpt(cells)[c].ckpt_id == 0,
        blank_ckpt(cells)[c].unix_ms == 0,
{
}

} // verus!
