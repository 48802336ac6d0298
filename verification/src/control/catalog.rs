//! The catalog writer: what one persist makes of an exported catalog. Drops
//! leave tombstones until every cell has checkpointed past them; accepted
//! creates stay pending until every cell's export carries them.

use vstd::prelude::*;
use crate::control::boards::CreateOutcome;
use crate::namespace;
use crate::namespace::{NsCatalog, NsSpec};
use crate::text;

verus! {

/// Most creates between their catalog swap and their last cell.
pub const PENDING_CREATE_MAX: usize = 256;

/// Most live tombstones before a drop waits for its own checkpoint.
pub const DROPPED_NS_MAX: usize = 256;

// ---- tombstones ----

/// A tombstone: the dropped id, and the checkpoint epoch that retires it.
pub type Tombstone = (u32, Option<u64>);

/// Tombstones with strictly ascending ids.
pub open spec fn ids_ascend(entries: Seq<Tombstone>) -> bool {
    forall|i: int, j: int|
        0 <= i < j < entries.len() ==> (#[trigger] entries[i]).0 < (#[trigger] entries[j]).0
}

/// Whether an id is tombstoned.
pub open spec fn tombstoned(entries: Seq<Tombstone>, id: u32) -> bool {
    exists|i: int| 0 <= i < entries.len() && (#[trigger] entries[i]).0 == id
}

/// The entry with its bar raised to an epoch.
pub open spec fn raised(entry: Tombstone, epoch: u64) -> Tombstone {
    (
        entry.0,
        Some(
            match entry.1 {
                Some(e) => if e >= epoch {
                    e
                } else {
                    epoch
                },
                None => epoch,
            },
        ),
    )
}

/// The tombstones with one id's bar raised.
pub open spec fn stamped(entries: Seq<Tombstone>, id: u32, epoch: u64) -> Seq<Tombstone> {
    entries.map_values(
        |e: Tombstone|
            if e.0 == id {
                raised(e, epoch)
            } else {
                e
            },
    )
}

/// The tombstones not yet covered by the lowest published epoch.
pub open spec fn uncovered(entries: Seq<Tombstone>, min_published: u64) -> Seq<Tombstone>
    decreases entries.len(),
{
    if entries.len() == 0 {
        Seq::empty()
    } else {
        let rest = uncovered(entries.drop_last(), min_published);
        match entries.last().1 {
            Some(e) => if e <= min_published {
                rest
            } else {
                rest.push(entries.last())
            },
            None => rest.push(entries.last()),
        }
    }
}

/// The entries of a catalog whose ids are not tombstoned.
pub open spec fn live_entries(entries: Seq<namespace::Ns>, dead: Seq<Tombstone>) -> Seq<
    namespace::Ns,
>
    decreases entries.len(),
{
    if entries.len() == 0 {
        Seq::empty()
    } else {
        let rest = live_entries(entries.drop_last(), dead);
        if tombstoned(dead, entries.last().id) {
            rest
        } else {
            rest.push(entries.last())
        }
    }
}

/// The ids of tombstones, in order.
pub open spec fn tombstone_ids(entries: Seq<Tombstone>) -> Seq<u32> {
    entries.map_values(|e: Tombstone| e.0)
}

/// The live tombstones of durable namespaces, sorted by id.
#[derive(Debug)]
pub struct DropTombstones {
    pub entries: Vec<Tombstone>,
}

impl Default for DropTombstones {
    fn default() -> (r: DropTombstones)
        ensures
            r.wf(),
            r.entries@ == Seq::<Tombstone>::empty(),
    {
        DropTombstones { entries: Vec::new() }
    }
}

impl DropTombstones {
    /// Ids ascend strictly.
    pub open spec fn wf(&self) -> bool {
        ids_ascend(self.entries@)
    }

    /// Unstamped tombstones of these ids, in order.
    pub fn seed(ids: &[u32]) -> (r: DropTombstones)
        requires
            forall|i: int, j: int|
                0 <= i < j < ids@.len() ==> #[trigger] ids@[i] < #[trigger] ids@[j],
        ensures
            r.wf(),
            r.entries@ == ids@.map_values(|id: u32| (id, None::<u64>)),
    {
        let mut entries: Vec<Tombstone> = Vec::new();
        let mut i: usize = 0;
        while i < ids.len()
            invariant
                i <= ids@.len(),
                entries@ == ids@.take(i as int).map_values(|id: u32| (id, None::<u64>)),
            decreases ids.len() - i,
        {
            entries.push((ids[i], None));
            i += 1;
            proof {
                assert(entries@ =~= ids@.take(i as int).map_values(|id: u32| (id, None::<u64>)));
            }
        }
        proof {
            assert(ids@.take(i as int) =~= ids@);
        }
        DropTombstones { entries }
    }

    /// The first position whose id is not below `id`.
    fn position(&self, id: u32) -> (r: usize)
        requires
            self.wf(),
        ensures
            r <= self.entries@.len(),
            forall|k: int| 0 <= k < r ==> (#[trigger] self.entries@[k]).0 < id,
            forall|k: int| r <= k < self.entries@.len() ==> (#[trigger] self.entries@[k]).0 >= id,
            tombstoned(self.entries@, id) <==> r < self.entries@.len() && self.entries@[r as int].0
                == id,
    {
        let mut at: usize = 0;
        while at < self.entries.len() && self.entries[at].0 < id
            invariant
                at <= self.entries@.len(),
                forall|k: int| 0 <= k < at ==> (#[trigger] self.entries@[k]).0 < id,
            decreases self.entries.len() - at,
        {
            at += 1;
        }
        at
    }

    /// Adds an unstamped tombstone; an id already there is left as it is.
    pub fn add(&mut self, id: u32)
        requires
            old(self).wf(),
        ensures
            final(self).wf(),
            tombstoned(final(self).entries@, id),
            tombstoned(old(self).entries@, id) ==> final(self).entries@ == old(self).entries@,
            !tombstoned(old(self).entries@, id) ==> exists|at: int|
                0 <= at <= old(self).entries@.len() && final(self).entries@ == #[trigger] old(
                    self).entries@.insert(at, (id, None)),
    {
        let at: usize = self.position(id);
        if at < self.entries.len() && self.entries[at].0 == id {
            return ;
        }
        self.entries.insert(at, (id, None));
        proof {
            let now = self.entries@;
            let before = old(self).entries@;
            assert(now == before.insert(at as int, (id, None)));
            assert(forall|k: int| 0 <= k < at ==> #[trigger] now[k] == before[k]);
            assert(forall|k: int| at < k < now.len() ==> #[trigger] now[k] == before[k - 1]);
            assert(now[at as int].0 == id);
            assert forall|i: int, j: int| 0 <= i < j < now.len() implies (#[trigger] now[i]).0 < (
            #[trigger] now[j]).0 by {
                if i < at && j > at {
                    assert(before[i].0 < id && before[j - 1].0 >= id);
                }
            }
        }
    }

    /// Stamps a tombstone with the checkpoint that retires it; a stamp never
    /// lowers the bar, and an unknown id changes nothing.
    pub fn stamp(&mut self, id: u32, ckpt_epoch: u64)
        requires
            old(self).wf(),
        ensures
            final(self).wf(),
            final(self).entries@ == stamped(old(self).entries@, id, ckpt_epoch),
    {
        let at: usize = self.position(id);
        if at < self.entries.len() && self.entries[at].0 == id {
            let epoch: u64 = match self.entries[at].1 {
                Some(e) => if e >= ckpt_epoch {
                    e
                } else {
                    ckpt_epoch
                },
                None => ckpt_epoch,
            };
            self.entries.set(at, (id, Some(epoch)));
        }
        proof {
            let before = old(self).entries@;
            assert forall|k: int| 0 <= k < before.len() implies #[trigger] self.entries@[k]
                == stamped(before, id, ckpt_epoch)[k] by {
                if before[k].0 == id {
                    assert(tombstoned(before, id));
                    assert(k == at);
                }
            }
            assert(self.entries@ =~= stamped(before, id, ckpt_epoch));
        }
    }

    /// Stamps every unstamped tombstone.
    pub fn stamp_unstamped(&mut self, ckpt_epoch: u64)
        requires
            old(self).wf(),
        ensures
            final(self).wf(),
            final(self).entries@ == old(self).entries@.map_values(
                |e: Tombstone|
                    if e.1 is None {
                        (e.0, Some(ckpt_epoch))
                    } else {
                        e
                    },
            ),
    {
        let ghost before = self.entries@;
        let ghost stamped = |e: Tombstone|
            if e.1 is None {
                (e.0, Some(ckpt_epoch))
            } else {
                e
            };
        let mut i: usize = 0;
        while i < self.entries.len()
            invariant
                i <= self.entries@.len(),
                self.entries@.len() == before.len(),
                stamped == (|e: Tombstone|
                    if e.1 is None {
                        (e.0, Some(ckpt_epoch))
                    } else {
                        e
                    }),
                forall|k: int| 0 <= k < i ==> self.entries@[k] == stamped(#[trigger] before[k]),
                forall|k: int| i <= k < before.len() ==> self.entries@[k] == #[trigger] before[k],
            decreases self.entries.len() - i,
        {
            let entry = self.entries[i];
            if entry.1.is_none() {
                self.entries.set(i, (entry.0, Some(ckpt_epoch)));
            }
            i += 1;
        }
        proof {
            assert(self.entries@ =~= before.map_values(stamped));
            assert forall|i: int, j: int| 0 <= i < j < self.entries@.len() implies (
            #[trigger] self.entries@[i]).0 < (#[trigger] self.entries@[j]).0 by {
                assert(before[i].0 < before[j].0);
            }
        }
    }

    /// Retires every tombstone whose checkpoint every cell has published.
    pub fn retire(&mut self, min_published: u64)
        requires
            old(self).wf(),
        ensures
            final(self).wf(),
            final(self).entries@ == uncovered(old(self).entries@, min_published),
    {
        let ghost before = self.entries@;
        let mut kept: Vec<Tombstone> = Vec::new();
        let mut i: usize = 0;
        proof {
            assert(before.take(0) =~= Seq::empty());
        }
        while i < self.entries.len()
            invariant
                i <= self.entries@.len(),
                self.entries@ == before,
                ids_ascend(before),
                kept@ == uncovered(before.take(i as int), min_published),
                ids_ascend(kept@),
                forall|k: int|
                    0 <= k < kept@.len() && i < before.len() ==> (#[trigger] kept@[k]).0
                        < before[i as int].0,
            decreases self.entries.len() - i,
        {
            proof {
                assert(before.take(i + 1).drop_last() =~= before.take(i as int));
                assert(before.take(i + 1).last() == before[i as int]);
            }
            let entry = self.entries[i];
            let covered = match entry.1 {
                Some(e) => e <= min_published,
                None => false,
            };
            if !covered {
                kept.push(entry);
            }
            i += 1;
        }
        proof {
            assert(before.take(i as int) =~= before);
        }
        self.entries = kept;
    }

    /// Merges the set into a catalog: the payload carries the ids, and an
    /// entry whose id is tombstoned is dropped. Ids are never reused, so such
    /// an entry is a lagging export, never a live namespace.
    pub fn reconcile(&self, catalog: &mut NsCatalog)
        requires
            self.wf(),
        ensures
            final(catalog).dropped@ == tombstone_ids(self.entries@),
            namespace::ns_views(final(catalog).entries@) == live_entries(
                namespace::ns_views(old(catalog).entries@),
                self.entries@,
            ),
            *final(catalog) == (NsCatalog {
                dropped: final(catalog).dropped,
                entries: final(catalog).entries,
                ..*old(catalog)
            }),
    {
        let mut dropped: Vec<u32> = Vec::new();
        let mut i: usize = 0;
        while i < self.entries.len()
            invariant
                i <= self.entries@.len(),
                dropped@ == tombstone_ids(self.entries@.take(i as int)),
            decreases self.entries.len() - i,
        {
            dropped.push(self.entries[i].0);
            i += 1;
            proof {
                assert(dropped@ =~= tombstone_ids(self.entries@.take(i as int)));
            }
        }
        proof {
            assert(self.entries@.take(i as int) =~= self.entries@);
        }
        catalog.dropped = dropped;
        let ghost before = namespace::ns_views(catalog.entries@);
        let mut kept: Vec<NsSpec> = Vec::new();
        let mut j: usize = 0;
        proof {
            assert(before.take(0) =~= Seq::empty());
            assert(namespace::ns_views(kept@) =~= Seq::empty());
        }
        while j < catalog.entries.len()
            invariant
                self.wf(),
                j <= catalog.entries@.len(),
                before == namespace::ns_views(catalog.entries@),
                namespace::ns_views(kept@) == live_entries(before.take(j as int), self.entries@),
            decreases catalog.entries.len() - j,
        {
            let ghost held = kept@;
            let spec = &catalog.entries[j];
            proof {
                assert(before.take(j + 1).drop_last() =~= before.take(j as int));
                assert(before.take(j + 1).last() == spec@);
            }
            let at: usize = self.position(spec.id);
            if at < self.entries.len() && self.entries[at].0 == spec.id {
            } else {
                kept.push(spec.copied());
                proof {
                    assert(namespace::ns_views(kept@) =~= namespace::ns_views(held).push(spec@));
                }
            }
            j += 1;
        }
        proof {
            assert(before.take(j as int) =~= before);
        }
        catalog.entries = kept;
    }

    /// Live tombstones.
    pub fn len(&self) -> (r: usize)
        ensures
            r == self.entries@.len(),
    {
        self.entries.len()
    }
}

// ---- pending creates ----

/// Whether some entry carries an id.
pub open spec fn has_id(entries: Seq<namespace::Ns>, id: u32) -> bool {
    exists|i: int| 0 <= i < entries.len() && (#[trigger] entries[i]).id == id
}

/// Whether some entry carries a name.
pub open spec fn has_name(entries: Seq<namespace::Ns>, name: Seq<u8>) -> bool {
    exists|i: int| 0 <= i < entries.len() && (#[trigger] entries[i]).name == name
}

/// The entries with the first `n` pending ones they lack appended.
pub open spec fn merged(entries: Seq<namespace::Ns>, pending: Seq<namespace::Ns>, n: int) -> Seq<
    namespace::Ns,
>
    decreases n,
{
    if n <= 0 {
        entries
    } else {
        let before = merged(entries, pending, n - 1);
        if has_id(before, pending[n - 1].id) {
            before
        } else {
            before.push(pending[n - 1])
        }
    }
}

/// The entries without those of an id.
pub open spec fn without(entries: Seq<namespace::Ns>, id: u32) -> Seq<namespace::Ns>
    decreases entries.len(),
{
    if entries.len() == 0 {
        Seq::empty()
    } else {
        let rest = without(entries.drop_last(), id);
        if entries.last().id == id {
            rest
        } else {
            rest.push(entries.last())
        }
    }
}

/// How many leading entries have an id below `id`.
pub open spec fn leading_below(entries: Seq<namespace::Ns>, id: u32) -> int
    decreases entries.len(),
{
    if entries.len() > 0 && entries[0].id < id {
        1 + leading_below(entries.skip(1), id)
    } else {
        0
    }
}

/// What the writer answers to a create.
pub open spec fn admission(
    catalog: Seq<namespace::Ns>,
    pending: Seq<namespace::Ns>,
    name: Seq<u8>,
) -> CreateOutcome {
    if has_name(catalog, name) {
        CreateOutcome::NameExists
    } else if pending.len() >= PENDING_CREATE_MAX {
        CreateOutcome::AtCapacity
    } else {
        CreateOutcome::Accepted
    }
}

/// Namespaces whose definition is durable but that not every cell's export
/// carries yet, sorted by id.
#[derive(Debug)]
pub struct PendingCreates {
    pub entries: Vec<NsSpec>,
}

impl Default for PendingCreates {
    fn default() -> (r: PendingCreates)
        ensures
            r@ == Seq::<namespace::Ns>::empty(),
    {
        let r = PendingCreates { entries: Vec::new() };
        proof {
            assert(namespace::ns_views(r.entries@) =~= Seq::empty());
        }
        r
    }
}

impl View for PendingCreates {
    type V = Seq<namespace::Ns>;

    open spec fn view(&self) -> Seq<namespace::Ns> {
        namespace::ns_views(self.entries@)
    }
}

impl PendingCreates {
    /// Retires an id: every export carries it, or it was dropped.
    pub fn retire(&mut self, id: u32)
        ensures
            final(self)@ == without(old(self)@, id),
    {
        let ghost before = self@;
        let mut kept: Vec<NsSpec> = Vec::new();
        let mut i: usize = 0;
        proof {
            assert(before.take(0) =~= Seq::empty());
            assert(namespace::ns_views(kept@) =~= Seq::empty());
        }
        while i < self.entries.len()
            invariant
                i <= self.entries@.len(),
                before == self@,
                namespace::ns_views(kept@) == without(before.take(i as int), id),
            decreases self.entries.len() - i,
        {
            let ghost held = kept@;
            let spec = &self.entries[i];
            proof {
                assert(before.take(i + 1).drop_last() =~= before.take(i as int));
                assert(before.take(i + 1).last() == spec@);
            }
            if spec.id != id {
                kept.push(spec.copied());
                proof {
                    assert(namespace::ns_views(kept@) =~= namespace::ns_views(held).push(spec@));
                }
            }
            i += 1;
        }
        proof {
            assert(before.take(i as int) =~= before);
        }
        self.entries = kept;
    }

    /// Adds every pending entry the catalog lacks, by id.
    pub fn merge(&self, catalog: &mut NsCatalog)
        ensures
            namespace::ns_views(final(catalog).entries@) == merged(
                namespace::ns_views(old(catalog).entries@),
                self@,
                self@.len() as int,
            ),
            *final(catalog) == (NsCatalog { entries: final(catalog).entries, ..*old(catalog) }),
    {
        let ghost before = namespace::ns_views(catalog.entries@);
        let mut i: usize = 0;
        while i < self.entries.len()
            invariant
                i <= self.entries@.len(),
                before == namespace::ns_views(old(catalog).entries@),
                namespace::ns_views(catalog.entries@) == merged(before, self@, i as int),
                *catalog == (NsCatalog { entries: catalog.entries, ..*old(catalog) }),
            decreases self.entries.len() - i,
        {
            let ghost held = namespace::ns_views(catalog.entries@);
            let spec = &self.entries[i];
            proof {
                assert(self@[i as int] == spec@);
            }
            if !catalog_has_id(catalog.entries.as_slice(), spec.id) {
                catalog.entries.push(spec.copied());
                proof {
                    assert(namespace::ns_views(catalog.entries@) =~= held.push(spec@));
                }
            }
            i += 1;
        }
    }

    /// Decides one create against the merged catalog and, when accepted, adds
    /// it to both.
    pub fn accept(&mut self, catalog: &mut NsCatalog, spec: NsSpec) -> (r: CreateOutcome)
        ensures
            r == admission(namespace::ns_views(old(catalog).entries@), old(self)@, spec.name@),
            r == CreateOutcome::Accepted ==> final(self)@ == old(self)@.insert(
                leading_below(old(self)@, spec.id),
                spec@,
            ) && namespace::ns_views(final(catalog).entries@) == namespace::ns_views(
                old(catalog).entries@,
            ).push(spec@) && *final(catalog) == (NsCatalog {
                entries: final(catalog).entries,
                ..*old(catalog)
            }),
            r != CreateOutcome::Accepted ==> *final(self) == *old(self) && *final(catalog) == *old(
                catalog,
            ),
    {
        if catalog_has_name(catalog.entries.as_slice(), spec.name.as_slice()) {
            return CreateOutcome::NameExists;
        }
        if self.entries.len() >= PENDING_CREATE_MAX {
            return CreateOutcome::AtCapacity;
        }
        let ghost before = self@;
        let ghost listed = namespace::ns_views(catalog.entries@);
        let mut at: usize = 0;
        proof {
            assert(before.skip(0) =~= before);
        }
        while at < self.entries.len() && self.entries[at].id < spec.id
            invariant
                at <= self.entries@.len(),
                before == self@,
                leading_below(before, spec.id) == at + leading_below(
                    before.skip(at as int),
                    spec.id,
                ),
            decreases self.entries.len() - at,
        {
            proof {
                assert(before.skip(at as int)[0] == before[at as int]);
                assert(before.skip(at as int).skip(1) =~= before.skip(at + 1));
            }
            at += 1;
        }
        proof {
            if at < before.len() {
                assert(before.skip(at as int)[0] == before[at as int]);
            }
            assert(leading_below(before, spec.id) == at);
        }
        self.entries.insert(at, spec.copied());
        proof {
            assert(self@ =~= before.insert(at as int, spec@));
        }
        let ghost added = spec@;
        catalog.entries.push(spec);
        proof {
            assert(namespace::ns_views(catalog.entries@) =~= listed.push(added));
        }
        CreateOutcome::Accepted
    }

    /// Pending creates.
    pub fn len(&self) -> (r: usize)
        ensures
            r == self@.len(),
    {
        self.entries.len()
    }
}

fn catalog_has_id(entries: &[NsSpec], id: u32) -> (r: bool)
    ensures
        r == has_id(namespace::ns_views(entries@), id),
{
    let mut i: usize = 0;
    while i < entries.len()
        invariant
            i <= entries@.len(),
            forall|k: int| 0 <= k < i ==> (#[trigger] namespace::ns_views(entries@)[k]).id != id,
        decreases entries.len() - i,
    {
        proof {
            assert(namespace::ns_views(entries@)[i as int] == entries@[i as int]@);
        }
        if entries[i].id == id {
            return true;
        }
        i += 1;
    }
    false
}

fn catalog_has_name(entries: &[NsSpec], name: &[u8]) -> (r: bool)
    ensures
        r == has_name(namespace::ns_views(entries@), name@),
{
    let mut i: usize = 0;
    while i < entries.len()
        invariant
            i <= entries@.len(),
            forall|k: int|
                0 <= k < i ==> (#[trigger] namespace::ns_views(entries@)[k]).name != name@,
        decreases entries.len() - i,
    {
        proof {
            assert(namespace::ns_views(entries@)[i as int] == entries@[i as int]@);
        }
        if text::same_bytes(entries[i].name.as_slice(), name) {
            return true;
        }
        i += 1;
    }
    false
}

// ---- persists ----

/// One catalog export to persist.
#[derive(Debug)]
pub struct PersistReq {
    pub catalog: NsCatalog,
    /// Published once the export is durable.
    pub epoch: u64,
    /// The durable namespace this persist drops: its tombstone joins the set.
    pub drop: Option<u32>,
    /// The namespace this persist drops, whatever its mode.
    pub dropped: Option<u32>,
    /// The create this persist carries.
    pub create: Option<NsSpec>,
}

/// The node's allocators, and the lowest checkpoint epoch every cell has
/// published.
#[derive(Copy, Clone, Debug, PartialEq, Eq, Structural)]
pub struct WriterInputs {
    pub next_ns_id: u32,
    pub next_index_id: u32,
    pub next_index_generation: u64,
    pub min_published: u64,
}

/// A prepared persist: the catalog to write, the epoch to publish after it,
/// and the answer to the create it carried.
#[derive(Debug)]
pub struct Prepared {
    pub catalog: NsCatalog,
    pub epoch: u64,
    pub verdict: Option<CreateOutcome>,
}

/// The writer's own state.
#[derive(Debug)]
pub struct CatalogWriter {
    pub tombstones: DropTombstones,
    pub pending: PendingCreates,
}

/// The larger of two.
pub open spec fn at_least(a: int, b: int) -> int {
    if a >= b {
        a
    } else {
        b
    }
}

/// The pending set once a persist's drop is retired.
pub open spec fn pending_after_drop(pending: Seq<namespace::Ns>, dropped: Option<u32>) -> Seq<
    namespace::Ns,
> {
    match dropped {
        Some(id) => without(pending, id),
        None => pending,
    }
}

/// The catalog entries a persist decides its create against.
pub open spec fn merged_view(pending: Seq<namespace::Ns>, req: PersistReq) -> Seq<namespace::Ns> {
    let held = pending_after_drop(pending, req.dropped);
    merged(namespace::ns_views(req.catalog.entries@), held, held.len() as int)
}

/// The tombstones once a persist's drop joined them.
pub open spec fn joins(before: Seq<Tombstone>, drop: Option<u32>, after: Seq<Tombstone>) -> bool {
    match drop {
        None => after == before,
        Some(id) => if tombstoned(before, id) {
            after == before
        } else {
            tombstoned(after, id) && exists|at: int|
                0 <= at <= before.len() && after == #[trigger] before.insert(at, (id, None))
        },
    }
}

/// What one persist makes of the writer's state and the exported catalog.
pub open spec fn prepared(
    before: CatalogWriter,
    after: CatalogWriter,
    inputs: WriterInputs,
    req: PersistReq,
    r: Prepared,
) -> bool {
    let held = pending_after_drop(before.pending@, req.dropped);
    let view = merged_view(before.pending@, req);
    let accepted = r.verdict == Some(CreateOutcome::Accepted);
    &&& r.epoch == req.epoch
    &&& r.catalog.next_id == at_least(req.catalog.next_id as int, inputs.next_ns_id as int)
    &&& r.catalog.index.next_id == at_least(
        req.catalog.index.next_id as int,
        inputs.next_index_id as int,
    )
    &&& r.catalog.index.next_generation == at_least(
        req.catalog.index.next_generation as int,
        inputs.next_index_generation as int,
    )
    &&& r.verdict == (match req.create {
        Some(spec) => Some(admission(view, held, spec.name@)),
        None => None,
    })
    &&& after.pending@ == (if accepted {
        held.insert(leading_below(held, req.create->0.id), req.create->0@)
    } else {
        held
    })
    &&& exists|joined: Seq<Tombstone>|
        #![trigger uncovered(joined, inputs.min_published)]
        joins(before.tombstones.entries@, req.drop, joined) && after.tombstones.entries@
            == uncovered(joined, inputs.min_published)
    &&& namespace::ns_views(r.catalog.entries@) == live_entries(
        if accepted {
            view.push(req.create->0@)
        } else {
            view
        },
        after.tombstones.entries@,
    )
    &&& r.catalog.dropped@ == tombstone_ids(after.tombstones.entries@)
}

impl CatalogWriter {
    /// The tombstones are sorted.
    pub open spec fn wf(&self) -> bool {
        self.tombstones.wf()
    }

    /// One persist as the writer performs it: the counters cover their
    /// allocators, the drop joins the tombstones, tombstones every cell has
    /// checkpointed past retire, the pending creates join the payload, the
    /// create is decided against that view, and the tombstones prune it.
    pub fn prepare_persist(&mut self, inputs: WriterInputs, req: PersistReq) -> (r: Prepared)
        requires
            old(self).wf(),
        ensures
            final(self).wf(),
            prepared(*old(self), *final(self), inputs, req, r),
    {
        let mut catalog = req.catalog;
        if catalog.next_id < inputs.next_ns_id {
            catalog.next_id = inputs.next_ns_id;
        }
        if catalog.index.next_id < inputs.next_index_id {
            catalog.index.next_id = inputs.next_index_id;
        }
        if catalog.index.next_generation < inputs.next_index_generation {
            catalog.index.next_generation = inputs.next_index_generation;
        }
        if let Some(id) = req.dropped {
            self.pending.retire(id);
        }
        if let Some(id) = req.drop {
            self.tombstones.add(id);
        }
        let ghost joined = self.tombstones.entries@;
        self.tombstones.retire(inputs.min_published);
        proof {
            assert(self.tombstones.entries@ == uncovered(joined, inputs.min_published));
        }
        self.pending.merge(&mut catalog);
        let mut verdict: Option<CreateOutcome> = None;
        if let Some(spec) = req.create {
            verdict = Some(self.pending.accept(&mut catalog, spec));
        }
        self.tombstones.reconcile(&mut catalog);
        Prepared { catalog, epoch: req.epoch, verdict }
    }
}

/// An accepted create is never lost: until it is retired, a persist of any
/// cell's export carries it and keeps it pending, unless it was dropped.
pub proof fn law_pending_create_survives(
    before: CatalogWriter,
    after: CatalogWriter,
    inputs: WriterInputs,
    req: PersistReq,
    r: Prepared,
    k: int,
)
    requires
        prepared(before, after, inputs, req, r),
        0 <= k < before.pending@.len(),
        req.dropped != Some(before.pending@[k].id),
        !tombstoned(after.tombstones.entries@, before.pending@[k].id),
    ensures
        has_id(namespace::ns_views(r.catalog.entries@), before.pending@[k].id),
        has_id(after.pending@, before.pending@[k].id),
{
    let id = before.pending@[k].id;
    let held = pending_after_drop(before.pending@, req.dropped);
    let view = merged_view(before.pending@, req);
    match req.dropped {
        Some(gone) => lemma_without_keeps(before.pending@, gone, k),
        None => {},
    }
    let at = choose|at: int| 0 <= at < held.len() && (#[trigger] held[at]).id == id;
    lemma_merged_has(namespace::ns_views(req.catalog.entries@), held, held.len() as int, at);
    lemma_live_keeps(view, after.tombstones.entries@, id);
    if r.verdict == Some(CreateOutcome::Accepted) {
        let spec = req.create->0;
        let v = choose|v: int| 0 <= v < view.len() && (#[trigger] view[v]).id == id;
        assert(view.push(spec@)[v] == view[v]);
        lemma_live_keeps(view.push(spec@), after.tombstones.entries@, id);
        let pos = leading_below(held, spec.id);
        lemma_leading_below(held, spec.id);
        if at < pos {
            assert(after.pending@[at] == held[at]);
        } else {
            assert(after.pending@[at + 1] == held[at]);
        }
    }
}

/// A create answered as accepted stands in the catalog that is written.
pub proof fn law_accepted_create_is_written(
    before: CatalogWriter,
    after: CatalogWriter,
    inputs: WriterInputs,
    req: PersistReq,
    r: Prepared,
)
    requires
        prepared(before, after, inputs, req, r),
        r.verdict == Some(CreateOutcome::Accepted),
        !tombstoned(after.tombstones.entries@, req.create->0.id),
    ensures
        has_id(namespace::ns_views(r.catalog.entries@), req.create->0.id),
        has_id(after.pending@, req.create->0.id),
{
    let spec = req.create->0;
    let held = pending_after_drop(before.pending@, req.dropped);
    let view = merged_view(before.pending@, req);
    assert(view.push(spec@)[view.len() as int] == spec@);
    lemma_live_keeps(view.push(spec@), after.tombstones.entries@, spec.id);
    lemma_leading_below(held, spec.id);
    assert(after.pending@[leading_below(held, spec.id)] == spec@);
}

proof fn lemma_leading_below(entries: Seq<namespace::Ns>, id: u32)
    ensures
        0 <= leading_below(entries, id) <= entries.len(),
    decreases entries.len(),
{
    if entries.len() > 0 {
        lemma_leading_below(entries.skip(1), id);
    }
}

proof fn lemma_without_keeps(entries: Seq<namespace::Ns>, gone: u32, k: int)
    requires
        0 <= k < entries.len(),
        entries[k].id != gone,
    ensures
        has_id(without(entries, gone), entries[k].id),
    decreases entries.len(),
{
    let rest = entries.drop_last();
    let now = without(entries, gone);
    if k == entries.len() - 1 {
        assert(now[now.len() - 1] == entries[k]);
    } else {
        lemma_without_keeps(rest, gone, k);
        let before = without(rest, gone);
        let j = choose|j: int| 0 <= j < before.len() && (#[trigger] before[j]).id == entries[k].id;
        assert(now[j] == before[j]);
    }
}

proof fn lemma_merged_has(
    entries: Seq<namespace::Ns>,
    pending: Seq<namespace::Ns>,
    n: int,
    k: int,
)
    requires
        0 <= k < n <= pending.len(),
    ensures
        has_id(merged(entries, pending, n), pending[k].id),
    decreases n,
{
    let before = merged(entries, pending, n - 1);
    let now = merged(entries, pending, n);
    if k < n - 1 {
        lemma_merged_has(entries, pending, n - 1, k);
        let i = choose|i: int| 0 <= i < before.len() && (#[trigger] before[i]).id == pending[k].id;
        assert(now[i] == before[i]);
    } else if !has_id(before, pending[k].id) {
        assert(now[before.len() as int] == pending[k]);
    }
}

proof fn lemma_live_keeps(entries: Seq<namespace::Ns>, dead: Seq<Tombstone>, id: u32)
    requires
        has_id(entries, id),
        !tombstoned(dead, id),
    ensures
        has_id(live_entries(entries, dead), id),
    decreases entries.len(),
{
    let rest = entries.drop_last();
    let now = live_entries(entries, dead);
    if entries.last().id == id {
        assert(now[now.len() - 1].id == id);
    } else {
        let i = choose|i: int| 0 <= i < entries.len() && (#[trigger] entries[i]).id == id;
        assert(rest[i].id == id);
        lemma_live_keeps(rest, dead, id);
        let before = live_entries(rest, dead);
        let j = choose|j: int| 0 <= j < before.len() && (#[trigger] before[j]).id == id;
        assert(now[j] == before[j]);
    }
}

/// A dropped namespace never comes back: no entry of a written catalog
/// carries a tombstoned id, and the catalog names every tombstone.
pub proof fn law_dropped_stays_dropped(
    before: CatalogWriter,
    after: CatalogWriter,
    inputs: WriterInputs,
    req: PersistReq,
    r: Prepared,
    id: u32,
)
    requires
        prepared(before, after, inputs, req, r),
        tombstoned(after.tombstones.entries@, id),
    ensures
        !has_id(namespace::ns_views(r.catalog.entries@), id),
        r.catalog.dropped@.contains(id),
{
    let dead = after.tombstones.entries@;
    let view = merged_view(before.pending@, req);
    lemma_live_are_untombstoned(view, dead);
    if r.verdict == Some(CreateOutcome::Accepted) {
        lemma_live_are_untombstoned(view.push(req.create->0@), dead);
    }
    let i = choose|i: int| 0 <= i < dead.len() && (#[trigger] dead[i]).0 == id;
    assert(r.catalog.dropped@[i] == id);
}

proof fn lemma_live_are_untombstoned(entries: Seq<namespace::Ns>, dead: Seq<Tombstone>)
    ensures
        forall|i: int|
            0 <= i < live_entries(entries, dead).len() ==> !tombstoned(
                dead,
                (#[trigger] live_entries(entries, dead)[i]).id,
            ),
    decreases entries.len(),
{
    if entries.len() > 0 {
        lemma_live_are_untombstoned(entries.drop_last(), dead);
    }
}

/// An unstamped tombstone never retires, and a stamped one only once every
/// cell has published its checkpoint.
pub proof fn law_tombstone_retires_when_covered(
    entries: Seq<Tombstone>,
    min_published: u64,
    i: int,
)
    requires
        0 <= i < entries.len(),
    ensures
        uncovered(entries, min_published).contains(entries[i]) <==> !(entries[i].1 matches Some(e)
            && e <= min_published),
    decreases entries.len(),
{
    let rest = entries.drop_last();
    let before = uncovered(rest, min_published);
    let now = uncovered(entries, min_published);
    lemma_uncovered_all(entries, min_published);
    if i < rest.len() {
        law_tombstone_retires_when_covered(rest, min_published, i);
        if before.contains(rest[i]) {
            let k = choose|k: int| 0 <= k < before.len() && before[k] == rest[i];
            assert(now[k] == entries[i]);
        }
    } else if !(entries[i].1 matches Some(e) && e <= min_published) {
        assert(now[now.len() - 1] == entries[i]);
    }
}

proof fn lemma_uncovered_all(entries: Seq<Tombstone>, min_published: u64)
    ensures
        forall|k: int|
            0 <= k < uncovered(entries, min_published).len() ==> !((#[trigger] uncovered(
                entries,
                min_published,
            )[k]).1 matches Some(e) && e <= min_published),
    decreases entries.len(),
{
    if entries.len() > 0 {
        lemma_uncovered_all(entries.drop_last(), min_published);
    }
}

proof fn lemma_live_members(entries: Seq<namespace::Ns>, dead: Seq<Tombstone>, x: namespace::Ns)
    ensures
        live_entries(entries, dead).contains(x) <==> entries.contains(x) && !tombstoned(dead, x.id),
    decreases entries.len(),
{
    if entries.len() > 0 {
        let rest = entries.drop_last();
        let before = live_entries(rest, dead);
        let now = live_entries(entries, dead);
        lemma_live_members(rest, dead, x);
        assert(entries =~= rest.push(entries.last()));
        if entries.contains(x) && x != entries.last() {
            let i = choose|i: int| 0 <= i < entries.len() && entries[i] == x;
            assert(rest[i] == x);
        }
        if rest.contains(x) {
            let i = choose|i: int| 0 <= i < rest.len() && rest[i] == x;
            assert(entries[i] == x);
        }
        if !tombstoned(dead, entries.last().id) {
            if before.contains(x) {
                let i = choose|i: int| 0 <= i < before.len() && before[i] == x;
                assert(now[i] == x);
            }
            if x == entries.last() {
                assert(now[now.len() - 1] == x);
            }
            if now.contains(x) && x != entries.last() {
                let i = choose|i: int| 0 <= i < now.len() && now[i] == x;
                assert(before[i] == x);
            }
        }
        if x == entries.last() {
            assert(entries[entries.len() - 1] == x);
        }
    }
}

proof fn lemma_without_members(entries: Seq<namespace::Ns>, id: u32, x: namespace::Ns)
    ensures
        without(entries, id).contains(x) <==> entries.contains(x) && x.id != id,
    decreases entries.len(),
{
    if entries.len() > 0 {
        let rest = entries.drop_last();
        let before = without(rest, id);
        let now = without(entries, id);
        lemma_without_members(rest, id, x);
        if entries.contains(x) && x != entries.last() {
            let i = choose|i: int| 0 <= i < entries.len() && entries[i] == x;
            assert(rest[i] == x);
        }
        if rest.contains(x) {
            let i = choose|i: int| 0 <= i < rest.len() && rest[i] == x;
            assert(entries[i] == x);
        }
        if entries.last().id != id {
            if before.contains(x) {
                let i = choose|i: int| 0 <= i < before.len() && before[i] == x;
                assert(now[i] == x);
            }
            if x == entries.last() {
                assert(now[now.len() - 1] == x);
            }
            if now.contains(x) && x != entries.last() {
                let i = choose|i: int| 0 <= i < now.len() && now[i] == x;
                assert(before[i] == x);
            }
        }
        if x == entries.last() {
            assert(entries[entries.len() - 1] == x);
        }
    }
}

proof fn lemma_merged_members(
    entries: Seq<namespace::Ns>,
    pending: Seq<namespace::Ns>,
    n: int,
    x: namespace::Ns,
)
    requires
        0 <= n <= pending.len(),
    ensures
        entries.contains(x) ==> merged(entries, pending, n).contains(x),
        merged(entries, pending, n).contains(x) ==> entries.contains(x) || pending.contains(x),
    decreases n,
{
    if n > 0 {
        let before = merged(entries, pending, n - 1);
        let now = merged(entries, pending, n);
        lemma_merged_members(entries, pending, n - 1, x);
        if before.contains(x) {
            let i = choose|i: int| 0 <= i < before.len() && before[i] == x;
            assert(now[i] == x);
        }
        if now.contains(x) && !before.contains(x) {
            let i = choose|i: int| 0 <= i < now.len() && now[i] == x;
            if i < before.len() {
                assert(before[i] == x);
            }
            assert(pending[n - 1] == x);
        }
    }
}

/// The set of pending creates without an id: that one goes, every other stays.
pub proof fn law_only_the_dropped_goes(entries: Seq<namespace::Ns>, id: u32, x: namespace::Ns)
    ensures
        without(entries, id).contains(x) <==> entries.contains(x) && x.id != id,
        !has_id(without(entries, id), id),
{
    lemma_without_members(entries, id, x);
    let now = without(entries, id);
    if has_id(now, id) {
        let i = choose|i: int| 0 <= i < now.len() && (#[trigger] now[i]).id == id;
        lemma_without_members(entries, id, now[i]);
    }
}

/// The written catalog holds what the requester's catalog holds, but for what
/// is tombstoned, and nothing made up: every entry comes from that catalog,
/// from a create still pending, or is the create just accepted, which is
/// always there.
pub proof fn law_catalog_is_carried_over(
    before: CatalogWriter,
    after: CatalogWriter,
    inputs: WriterInputs,
    req: PersistReq,
    r: Prepared,
    x: namespace::Ns,
)
    requires
        prepared(before, after, inputs, req, r),
    ensures
        namespace::ns_views(req.catalog.entries@).contains(x) && !tombstoned(
            after.tombstones.entries@,
            x.id,
        ) ==> namespace::ns_views(r.catalog.entries@).contains(x),
        namespace::ns_views(r.catalog.entries@).contains(x) ==> !tombstoned(
            after.tombstones.entries@,
            x.id,
        ) && (namespace::ns_views(req.catalog.entries@).contains(x) || (before.pending@.contains(x)
            && req.dropped != Some(x.id)) || (r.verdict == Some(CreateOutcome::Accepted)
            && req.create is Some && x == req.create->0@)),
        r.verdict == Some(CreateOutcome::Accepted) && !tombstoned(
            after.tombstones.entries@,
            req.create->0.id,
        ) ==> namespace::ns_views(r.catalog.entries@).contains(req.create->0@),
{
    let dead = after.tombstones.entries@;
    let own = namespace::ns_views(req.catalog.entries@);
    let held = pending_after_drop(before.pending@, req.dropped);
    let view = merged_view(before.pending@, req);
    let accepted = r.verdict == Some(CreateOutcome::Accepted);
    let all = if accepted {
        view.push(req.create->0@)
    } else {
        view
    };
    lemma_live_members(all, dead, x);
    lemma_merged_members(own, held, held.len() as int, x);
    if let Some(id) = req.dropped {
        lemma_without_members(before.pending@, id, x);
    }
    if view.contains(x) {
        let i = choose|i: int| 0 <= i < view.len() && view[i] == x;
        assert(all[i] == x);
    }
    if all.contains(x) && !view.contains(x) {
        let i = choose|i: int| 0 <= i < all.len() && all[i] == x;
        if i < view.len() {
            assert(view[i] == x);
        }
        assert(accepted);
    }
    if accepted {
        assert(all[view.len() as int] == req.create->0@);
        lemma_live_members(all, dead, req.create->0@);
    }
}

/// A create is admitted exactly where its name is free and there is room: a
/// name that the catalog or a pending create holds is refused as taken, and
/// with 256 creates pending any other is refused for room.
pub proof fn law_create_needs_a_free_name(
    before: CatalogWriter,
    after: CatalogWriter,
    inputs: WriterInputs,
    req: PersistReq,
    r: Prepared,
    k: int,
)
    requires
        prepared(before, after, inputs, req, r),
    ensures
        r.verdict is Some <==> req.create is Some,
        req.create is Some && 0 <= k < req.catalog.entries@.len() && req.catalog.entries@[k].name@
            == req.create->0.name@ ==> r.verdict == Some(CreateOutcome::NameExists),
        r.verdict == Some(CreateOutcome::NameExists) ==> has_name(
            namespace::ns_views(req.catalog.entries@),
            req.create->0.name@,
        ) || has_name(before.pending@, req.create->0.name@),
        r.verdict == Some(CreateOutcome::Accepted) ==> pending_after_drop(
            before.pending@,
            req.dropped,
        ).len() < 256,
        r.verdict == Some(CreateOutcome::AtCapacity) ==> pending_after_drop(
            before.pending@,
            req.dropped,
        ).len() >= 256,
        r.verdict == Some(CreateOutcome::Accepted) ==> after.pending@.contains(req.create->0@),
        req.create is Some && !has_name(
            namespace::ns_views(req.catalog.entries@),
            req.create->0.name@,
        ) && !has_name(before.pending@, req.create->0.name@) && pending_after_drop(
            before.pending@,
            req.dropped,
        ).len() < 256 ==> r.verdict == Some(CreateOutcome::Accepted),
{
    let own = namespace::ns_views(req.catalog.entries@);
    let held = pending_after_drop(before.pending@, req.dropped);
    let view = merged_view(before.pending@, req);
    if req.create is Some {
        let spec = req.create->0;
        let name = spec.name@;
        if 0 <= k < req.catalog.entries@.len() && req.catalog.entries@[k].name@ == name {
            assert(own[k].name == name);
            lemma_merged_members(own, held, held.len() as int, own[k]);
            let i = choose|i: int| 0 <= i < view.len() && view[i] == own[k];
            assert(view[i].name == name);
        }
        if has_name(view, name) {
            let i = choose|i: int| 0 <= i < view.len() && (#[trigger] view[i]).name == name;
            let x = view[i];
            lemma_merged_members(own, held, held.len() as int, x);
            if own.contains(x) {
                let j = choose|j: int| 0 <= j < own.len() && own[j] == x;
                assert(own[j].name == name);
            } else {
                if let Some(id) = req.dropped {
                    lemma_without_members(before.pending@, id, x);
                }
                let j = choose|j: int| 0 <= j < before.pending@.len() && before.pending@[j] == x;
                assert(before.pending@[j].name == name);
            }
        }
        if r.verdict == Some(CreateOutcome::Accepted) {
            lemma_leading_below(held, spec.id);
            assert(after.pending@[leading_below(held, spec.id)] == spec@);
        }
    }
}

/// A drop leaves a tombstone: the id of a namespace dropped just now is
/// tombstoned in what is written, and stays until it is stamped and covered.
pub proof fn law_drop_leaves_a_tombstone(
    before: CatalogWriter,
    after: CatalogWriter,
    inputs: WriterInputs,
    req: PersistReq,
    r: Prepared,
    id: u32,
)
    requires
        prepared(before, after, inputs, req, r),
        req.drop == Some(id),
        !tombstoned(before.tombstones.entries@, id),
    ensures
        tombstoned(after.tombstones.entries@, id),
        r.catalog.dropped@.contains(id),
        !has_id(namespace::ns_views(r.catalog.entries@), id),
{
    let joined = choose|joined: Seq<Tombstone>|
        #![trigger uncovered(joined, inputs.min_published)]
        joins(before.tombstones.entries@, req.drop, joined) && after.tombstones.entries@
            == uncovered(joined, inputs.min_published);
    let at = choose|at: int|
        0 <= at <= before.tombstones.entries@.len() && joined
            == #[trigger] before.tombstones.entries@.insert(at, (id, None));
    assert(joined[at] == (id, None::<u64>));
    law_tombstone_retires_when_covered(joined, inputs.min_published, at);
    let dead = after.tombstones.entries@;
    let i = choose|i: int| 0 <= i < dead.len() && dead[i] == joined[at];
    assert(dead[i].0 == id);
    law_dropped_stays_dropped(before, after, inputs, req, r, id);
}

/// What a drop does not name is not tombstoned by it: a tombstone that is
/// written was held before or is the one just dropped, and one that was held
/// and is not covered yet is still written.
pub proof fn law_tombstones_come_from_drops(
    before: CatalogWriter,
    after: CatalogWriter,
    inputs: WriterInputs,
    req: PersistReq,
    r: Prepared,
    k: int,
)
    requires
        prepared(before, after, inputs, req, r),
        0 <= k < before.tombstones.entries@.len(),
    ensures
        before.tombstones.entries@[k].1 is None || before.tombstones.entries@[k].1->0
            > inputs.min_published ==> tombstoned(
            after.tombstones.entries@,
            before.tombstones.entries@[k].0,
        ),
        forall|i: int|
            0 <= i < after.tombstones.entries@.len() ==> tombstoned(
                before.tombstones.entries@,
                (#[trigger] after.tombstones.entries@[i]).0,
            ) || req.drop == Some(after.tombstones.entries@[i].0),
{
    let held = before.tombstones.entries@;
    let dead = after.tombstones.entries@;
    let joined = choose|joined: Seq<Tombstone>|
        #![trigger uncovered(joined, inputs.min_published)]
        joins(held, req.drop, joined) && dead == uncovered(joined, inputs.min_published);
    let e = held[k];
    assert(joined.contains(e)) by {
        if joined == held {
            assert(joined[k] == e);
        } else {
            let id = req.drop->0;
            let at = choose|at: int|
                0 <= at <= held.len() && joined == #[trigger] held.insert(at, (id, None));
            if k < at {
                assert(joined[k] == e);
            } else {
                assert(joined[k + 1] == e);
            }
        }
    }
    let q = choose|q: int| 0 <= q < joined.len() && joined[q] == e;
    law_tombstone_retires_when_covered(joined, inputs.min_published, q);
    if e.1 is None || e.1->0 > inputs.min_published {
        assert(dead.contains(e));
        let i = choose|i: int| 0 <= i < dead.len() && dead[i] == e;
        assert(dead[i].0 == e.0);
    }
    assert forall|i: int| 0 <= i < dead.len() implies tombstoned(held, (#[trigger] dead[i]).0)
        || req.drop == Some(dead[i].0) by {
        lemma_uncovered_from(joined, inputs.min_published, dead[i]);
        let p = choose|p: int| 0 <= p < joined.len() && joined[p] == dead[i];
        if joined == held {
            assert(held[p].0 == dead[i].0);
        } else {
            let id = req.drop->0;
            let at = choose|at: int|
                0 <= at <= held.len() && joined == #[trigger] held.insert(at, (id, None));
            if p < at {
                assert(held[p].0 == dead[i].0);
            } else if p > at {
                assert(held[p - 1].0 == dead[i].0);
            }
        }
    }
}

proof fn lemma_uncovered_from(entries: Seq<Tombstone>, min_published: u64, x: Tombstone)
    ensures
        uncovered(entries, min_published).contains(x) ==> entries.contains(x),
    decreases entries.len(),
{
    if entries.len() > 0 {
        let rest = entries.drop_last();
        lemma_uncovered_from(rest, min_published, x);
        let now = uncovered(entries, min_published);
        let before = uncovered(rest, min_published);
        if now.contains(x) {
            let i = choose|i: int| 0 <= i < now.len() && now[i] == x;
            if i < before.len() {
                assert(before[i] == x);
                let j = choose|j: int| 0 <= j < rest.len() && rest[j] == x;
                assert(entries[j] == x);
            } else {
                assert(entries[entries.len() - 1] == x);
            }
        }
    }
}

/// A stamp goes to the tombstone it names, and never lowers one: the epoch is
/// the higher of the old and the new.
pub proof fn law_stamp_never_lowers(entries: Seq<Tombstone>, id: u32, epoch: u64, i: int)
    requires
        0 <= i < entries.len(),
    ensures
        stamped(entries, id, epoch).len() == entries.len(),
        stamped(entries, id, epoch)[i].0 == entries[i].0,
        entries[i].0 != id ==> stamped(entries, id, epoch)[i] == entries[i],
        entries[i].0 == id ==> (stamped(entries, id, epoch)[i].1 matches Some(e) && e >= epoch && (
        entries[i].1 matches Some(old_epoch) ==> e >= old_epoch) && (e == epoch || entries[i].1
            == Some(e))),
{
}

/// The counters of the written catalog are never behind: neither the
/// requester's nor the plane's.
pub proof fn law_counters_never_fall_behind(
    before: CatalogWriter,
    after: CatalogWriter,
    inputs: WriterInputs,
    req: PersistReq,
    r: Prepared,
)
    requires
        prepared(before, after, inputs, req, r),
    ensures
        r.epoch == req.epoch,
        r.catalog.next_id >= req.catalog.next_id,
        r.catalog.next_id >= inputs.next_ns_id,
        r.catalog.next_id == req.catalog.next_id || r.catalog.next_id == inputs.next_ns_id,
        r.catalog.index.next_id >= req.catalog.index.next_id,
        r.catalog.index.next_id >= inputs.next_index_id,
        r.catalog.index.next_id == req.catalog.index.next_id || r.catalog.index.next_id
            == inputs.next_index_id,
        r.catalog.index.next_generation >= req.catalog.index.next_generation,
        r.catalog.index.next_generation >= inputs.next_index_generation,
        r.catalog.index.next_generation == req.catalog.index.next_generation
            || r.catalog.index.next_generation == inputs.next_index_generation,
        r.catalog.dropped@.len() == after.tombstones.entries@.len(),
        forall|i: int|
            0 <= i < r.catalog.dropped@.len() ==> #[trigger] r.catalog.dropped@[i]
                == after.tombstones.entries@[i].0,
{
}

/// A create is kept in the order of the ids: what stands before its place is
/// below it, and the pending creates stay in order.
pub proof fn law_pending_stay_in_order(held: Seq<namespace::Ns>, id: u32, i: int)
    requires
        0 <= i < held.len(),
    ensures
        i < leading_below(held, id) ==> held[i].id < id,
        i == leading_below(held, id) ==> held[i].id >= id,
        0 <= leading_below(held, id) <= held.len(),
    decreases held.len(),
{
    if held[0].id < id {
        if i > 0 {
            law_pending_stay_in_order(held.skip(1), id, i - 1);
            assert(held.skip(1)[i - 1] == held[i]);
        } else {
            lemma_leading_below(held.skip(1), id);
        }
    }
}

/// What is dropped and what is covered leaves the others in their order: each
/// part of a list is filtered by itself.
pub proof fn law_filters_keep_the_order(
    a: Seq<namespace::Ns>,
    b: Seq<namespace::Ns>,
    x: namespace::Ns,
    dead: Seq<Tombstone>,
    id: u32,
)
    ensures
        live_entries(a + b, dead) == live_entries(a, dead) + live_entries(b, dead),
        without(a + b, id) == without(a, id) + without(b, id),
        tombstoned(dead, x.id) ==> live_entries(seq![x], dead) == Seq::<namespace::Ns>::empty(),
        !tombstoned(dead, x.id) ==> live_entries(seq![x], dead) == seq![x],
        x.id == id ==> without(seq![x], id) == Seq::<namespace::Ns>::empty(),
        x.id != id ==> without(seq![x], id) == seq![x],
    decreases b.len(),
{
    reveal_with_fuel(live_entries, 2);
    reveal_with_fuel(without, 2);
    assert(seq![x].drop_last() =~= Seq::<namespace::Ns>::empty());
    if b.len() == 0 {
        assert(a + b =~= a);
        assert(live_entries(a, dead) + live_entries(b, dead) =~= live_entries(a, dead));
        assert(without(a, id) + without(b, id) =~= without(a, id));
    } else {
        law_filters_keep_the_order(a, b.drop_last(), x, dead, id);
        assert((a + b).drop_last() =~= a + b.drop_last());
        assert((a + b).last() == b.last());
        assert(live_entries(a + b, dead) =~= live_entries(a, dead) + live_entries(b, dead));
        assert(without(a + b, id) =~= without(a, id) + without(b, id));
    }
}

/// The tombstones that stay keep their order.
pub proof fn law_tombstones_keep_their_order(
    a: Seq<Tombstone>,
    b: Seq<Tombstone>,
    min_published: u64,
)
    ensures
        uncovered(a + b, min_published) == uncovered(a, min_published) + uncovered(
            b,
            min_published,
        ),
    decreases b.len(),
{
    if b.len() == 0 {
        assert(a + b =~= a);
        assert(uncovered(a, min_published) + uncovered(b, min_published) =~= uncovered(
            a,
            min_published,
        ));
    } else {
        law_tombstones_keep_their_order(a, b.drop_last(), min_published);
        assert((a + b).drop_last() =~= a + b.drop_last());
        assert((a + b).last() == b.last());
        assert(uncovered(a + b, min_published) =~= uncovered(a, min_published) + uncovered(
            b,
            min_published,
        ));
    }
}

/// A pending create joins the catalog behind it, unless the catalog holds its
/// id already.
pub proof fn law_pending_joins_behind_the_catalog(
    entries: Seq<namespace::Ns>,
    pending: Seq<namespace::Ns>,
    n: int,
)
    requires
        0 <= n < pending.len(),
    ensures
        merged(entries, pending, 0) == entries,
        has_id(merged(entries, pending, n), pending[n].id) ==> merged(entries, pending, n + 1)
            == merged(entries, pending, n),
        !has_id(merged(entries, pending, n), pending[n].id) ==> merged(entries, pending, n + 1)
            == merged(entries, pending, n).push(pending[n]),
{
}

/// Only an accepted create joins the pending ones, and a drop takes its own
/// away: what is pending after a persist was pending before or was accepted.
pub proof fn law_only_accepted_creates_are_pending(
    before: CatalogWriter,
    after: CatalogWriter,
    inputs: WriterInputs,
    req: PersistReq,
    r: Prepared,
    x: namespace::Ns,
)
    requires
        prepared(before, after, inputs, req, r),
        after.pending@.contains(x),
    ensures
        (before.pending@.contains(x) && req.dropped != Some(x.id)) || (r.verdict == Some(
            CreateOutcome::Accepted,
        ) && req.create is Some && x == req.create->0@),
        after.pending@.len() == pending_after_drop(before.pending@, req.dropped).len() + (
        if r.verdict == Some(CreateOutcome::Accepted) {
            1nat
        } else {
            0nat
        }),
{
    let held = pending_after_drop(before.pending@, req.dropped);
    if let Some(id) = req.dropped {
        lemma_without_members(before.pending@, id, x);
    }
    let k = choose|k: int| 0 <= k < after.pending@.len() && after.pending@[k] == x;
    if r.verdict == Some(CreateOutcome::Accepted) {
        let at = leading_below(held, req.create->0.id);
        lemma_leading_below(held, req.create->0.id);
        if k < at {
            assert(held[k] == x);
        } else if k > at {
            assert(held[k - 1] == x);
        }
    } else {
        assert(held[k] == x);
    }
}

} // verus!
