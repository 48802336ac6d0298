//! Filling one slice of a checkpoint image.
//!
//! A slice alternates decisions with work on the store and the image stream:
//! [`Streaming::fill_step`] takes what came of the last piece of work and says
//! which one comes next, until the slice is over. Namespaces are walked first,
//! in order; index sidecars follow; the block that results is offered to the
//! device budget before it seals.

use vstd::prelude::*;
use crate::ckpt::{IdxSidecarMeta, SectionLease, Streaming, SCAN_CHUNK_ENTRIES};
use crate::durable::cell;
use crate::durable::cell::distance;

verus! {

/// Entries staged per step of a tiered walk.
pub const TIER_WALK_CHUNK: usize = 256;

/// Pairs pulled per sidecar emission call.
pub const SIDECAR_CHUNK_ENTRIES: u32 = 256;

/// Encoded bytes of an address reference, a live-set entry or a blob reference.
pub const TIER_ENTRY_BYTES: u32 = 24;

/// The section the image stream is filling.
#[derive(Copy, Clone, Debug, PartialEq, Eq, Structural)]
pub enum PendingSection {
    Empty,
    /// Records or tier entries.
    Records,
    /// One index's pairs.
    Index { ns: u32, index_id: u32, generation: u64 },
}

/// What the image stream says of its pending section.
#[derive(Copy, Clone, Debug, PartialEq, Eq, Structural)]
pub struct SectionFacts {
    pub full: bool,
    pub can_seal: bool,
    pub pending: PendingSection,
}

/// What a namespace to walk turns out to be.
#[derive(Copy, Clone, Debug, PartialEq, Eq, Structural)]
pub enum NsKind {
    /// A store dropped since the stream opened.
    Gone,
    /// A tiered namespace dropped since the stream opened.
    TierGone,
    Plain,
    /// `pinned` says that its table holds a walk's pin.
    Tiered { pinned: bool },
}

/// A file of a tier's live set.
#[derive(Copy, Clone, Debug, PartialEq, Eq, Structural)]
pub struct LiveFile {
    pub id: u32,
    pub data_len: u64,
    pub dead_bytes: u64,
    pub byte_exact: bool,
}

/// A cold blob reference: its address, extent and length.
#[derive(Copy, Clone, Debug, PartialEq, Eq, Structural)]
pub struct BlobRef {
    pub addr: u64,
    pub extent_id: u64,
    pub len: u64,
}

/// An entry of a tiered walk's last passes.
#[derive(Copy, Clone, Debug, PartialEq, Eq, Structural)]
pub enum TierEntry {
    Live(LiveFile),
    Blob(BlobRef),
}

impl TierEntry {
    /// What the pass resumes by: the file's id or the reference's address.
    pub open spec fn key(self) -> u64 {
        match self {
            TierEntry::Live(f) => f.id as u64,
            TierEntry::Blob(b) => b.addr,
        }
    }

    fn resume_key(self) -> (r: u64)
        ensures
            r == self.key(),
    {
        match self {
            TierEntry::Live(f) => f.id as u64,
            TierEntry::Blob(b) => b.addr,
        }
    }
}

/// A block of the image.
#[derive(Copy, Clone, Debug, PartialEq, Eq, Structural)]
pub enum Block {
    Section,
    Footer,
}

/// What a filling slice asks for.
#[derive(Copy, Clone, Debug, PartialEq, Eq, Structural)]
pub enum FillAction {
    /// Say what this namespace is.
    Find(u32),
    /// Stage images of the store from `cursor`, inside a chain at `resume`, in
    /// a walk of `limit` entries, asking [`Fill::take_image`] for each.
    Scan { ns: u32, cursor: u64, resume: Option<u64>, limit: usize },
    /// Stage address references of a tiered table from `cursor`. `begin`
    /// starts its walk under the checkpoint's id, after `release` dropped a
    /// pin another walk left.
    Refs { ns: u32, cursor: u64, begin: bool, release: bool, limit: usize },
    /// Stage record images of a tiered table, asking [`Fill::take_image`].
    Images { ns: u32, cursor: u64, resume: Option<u64>, limit: usize },
    /// List the live files of a tiered table, ascending by id.
    LiveFiles { ns: u32 },
    /// List blob references at address `from` or above, ascending.
    BlobRefs { ns: u32, from: u64 },
    /// Stage this entry.
    StageEntry { ns: u32, entry: TierEntry },
    /// End the table's walk and stamp its retirement candidates.
    EndWalk { ns: u32 },
    /// List the converged indexes of the walked namespaces.
    Plan,
    /// Say whether the index still stands as planned.
    CheckIndex(IdxSidecarMeta),
    /// Stage at most `limit` pairs of the index from `cursor`, asking
    /// [`Streaming::note_pair`] for each.
    Pull { meta: IdxSidecarMeta, cursor: Option<u64>, limit: u32 },
    /// Close the index with its final marker over this many pairs.
    StageFinal { meta: IdxSidecarMeta, pairs: u64 },
    /// Offer the block to the device budget at its padded length.
    Admit(Block),
    /// Seal the block.
    Seal(Block),
    /// Queue the sealed block's write under `seq`. The slice is over and
    /// charges `units`.
    Write { seq: u64, lease: SectionLease, units: u32 },
    /// The slice is over and charges `units`.
    Done { units: u32 },
}

/// What came of an action.
#[derive(Debug)]
pub enum FillEvent {
    /// Nothing was asked yet.
    Started,
    Found(NsKind),
    /// The scan is through, or stands at `group`, inside a chain at `chain`
    /// when the next image would not fit its section.
    Scanned { done: bool, group: u64, chain: Option<u64> },
    /// This many references were staged; the pass stands at `next`, 0 once it
    /// is through.
    RefsStaged { refs: u32, next: u64 },
    /// As [`FillEvent::Scanned`].
    ImagesStaged { done: bool, group: u64, chain: Option<u64> },
    Listed(Vec<TierEntry>),
    EntryStaged,
    WalkEnded,
    Planned(Vec<IdxSidecarMeta>),
    Judged { eligible: bool },
    /// This many pairs were staged; the index resumes at `next`.
    Pulled { pairs: u32, next: Option<u64> },
    FinalStaged,
    Admitted(bool),
    Sealed(SectionLease),
}

/// Which part of an image a slice fills.
#[derive(Copy, Clone, Debug, PartialEq, Eq, Structural)]
pub enum FillPhase {
    Walking,
    Sidecars,
    Settled,
}

/// What a slice has filled so far.
#[derive(Debug)]
pub struct Fill {
    /// Bytes this slice may emit.
    pub slice_cap: u32,
    pub emitted: u32,
    /// The pending section seals now, whatever it holds.
    pub force_seal: bool,
    pub phase: FillPhase,
    /// The action in progress.
    pub asked: Option<FillAction>,
    /// The entries listed last, the key they start from, the one being
    /// staged, and how many were.
    pub entries: Vec<TierEntry>,
    pub from: u64,
    pub entry: usize,
    pub taken: usize,
}

/// Saturating sum of a byte count.
pub open spec fn grown(emitted: u32, bytes: int) -> u32 {
    if emitted + bytes > u32::MAX {
        u32::MAX
    } else {
        (emitted + bytes) as u32
    }
}

/// Saturating sum of a byte count.
pub fn grow(emitted: u32, bytes: u64) -> (r: u32)
    ensures
        r == grown(emitted, bytes as int),
{
    if bytes > (u32::MAX - emitted) as u64 {
        u32::MAX
    } else {
        emitted + bytes as u32
    }
}

/// Units of 1 KiB to charge for emitted bytes, at least 1.
pub open spec fn units_for(emitted: u32) -> u32 {
    let units = (emitted + 1023) / 1024;
    if units < 1 {
        1
    } else {
        units as u32
    }
}

fn units_of(emitted: u32) -> (r: u32)
    ensures
        r == units_for(emitted),
{
    let units: u32 = if emitted % 1024 == 0 {
        emitted / 1024
    } else {
        emitted / 1024 + 1
    };
    if units < 1 {
        1
    } else {
        units
    }
}

/// Bytes the pace allows after `elapsed_ns` at `rate` bytes per second.
pub open spec fn paced_bytes(rate: u32, elapsed_ns: u64) -> int {
    let ms: int = (elapsed_ns / 1_000_000) as int;
    rate * (if ms < 1 {
        1
    } else {
        ms
    }) / 1000
}

/// The first entry from position `i` on whose key is `from` or above.
pub open spec fn entry_from(entries: Seq<TierEntry>, from: u64, i: int) -> int
    decreases entries.len() - i,
{
    if 0 <= i < entries.len() && entries[i].key() < from {
        entry_from(entries, from, i + 1)
    } else {
        i
    }
}

fn find_entry(entries: &[TierEntry], from: u64, start: usize) -> (r: usize)
    requires
        start <= entries@.len(),
    ensures
        r == entry_from(entries@, from, start as int),
        start <= r <= entries@.len(),
        r < entries@.len() ==> entries@[r as int].key() >= from,
{
    let mut i: usize = start;
    while i < entries.len() && entries[i].resume_key() < from
        invariant
            start <= i <= entries@.len(),
            entry_from(entries@, from, start as int) == entry_from(entries@, from, i as int),
        decreases entries.len() - i,
    {
        i += 1;
    }
    i
}

impl Fill {
    /// A slice that may emit `slice_cap` bytes, at its start.
    pub open spec fn begun(self, slice_cap: u32, phase: FillPhase) -> bool {
        &&& self.slice_cap == slice_cap
        &&& self.emitted == 0
        &&& !self.force_seal
        &&& self.phase == phase
        &&& self.asked is None
        &&& self.entries@.len() == 0
    }

    /// A slice that may emit `slice_cap` bytes, at its start.
    pub fn begin(slice_cap: u32, phase: FillPhase) -> (r: Fill)
        ensures
            r.begun(slice_cap, phase),
    {
        Fill {
            slice_cap,
            emitted: 0,
            force_seal: false,
            phase,
            asked: None,
            entries: Vec::new(),
            from: 0,
            entry: 0,
            taken: 0,
        }
    }

    /// The slice with an action in progress.
    pub open spec fn asking(self, action: FillAction) -> Fill {
        Fill { asked: Some(action), ..self }
    }

    /// Whether an event answers the action in progress.
    pub open spec fn answered_by(self, event: FillEvent) -> bool {
        match event {
            FillEvent::Started => self.asked is None,
            FillEvent::Found(_) => self.asked matches Some(FillAction::Find(_)),
            FillEvent::Scanned { .. } => self.asked matches Some(FillAction::Scan { .. }),
            FillEvent::RefsStaged { .. } => self.asked matches Some(FillAction::Refs { .. }),
            FillEvent::ImagesStaged { .. } => self.asked matches Some(FillAction::Images { .. }),
            FillEvent::Listed(entries) => {
                &&& self.asked matches Some(action) && (action is LiveFiles || action is BlobRefs)
                &&& forall|i: int|
                    0 <= i < entries@.len() ==> (#[trigger] entries@[i]).key() < u64::MAX
            },
            FillEvent::EntryStaged => self.asked matches Some(FillAction::StageEntry { .. }),
            FillEvent::WalkEnded => self.asked matches Some(FillAction::EndWalk { .. }),
            FillEvent::Planned(_) => self.asked == Some(FillAction::Plan),
            FillEvent::Judged { .. } => self.asked matches Some(FillAction::CheckIndex(_)),
            FillEvent::Pulled { .. } => self.asked matches Some(FillAction::Pull { .. }),
            FillEvent::FinalStaged => self.asked matches Some(FillAction::StageFinal { .. }),
            FillEvent::Admitted(_) => self.asked matches Some(FillAction::Admit(_)),
            FillEvent::Sealed(_) => self.asked matches Some(FillAction::Seal(_)),
        }
    }

    /// Whether an image of `len` bytes is taken into the pending section: only
    /// when it fits. Its bytes count against the slice.
    pub fn take_image(&mut self, fits: bool, len: u32) -> (r: bool)
        ensures
            r == fits,
            *final(self) == (Fill {
                emitted: if fits {
                    grown(old(self).emitted, len as int)
                } else {
                    old(self).emitted
                },
                ..*old(self)
            }),
    {
        if fits {
            self.emitted = grow(self.emitted, len as u64);
        }
        fits
    }
}

/// Whether the pending section may take this index's pairs.
pub open spec fn section_takes(pending: PendingSection, meta: IdxSidecarMeta) -> bool {
    match pending {
        PendingSection::Empty => true,
        PendingSection::Records => false,
        PendingSection::Index { ns, index_id, generation } => ns == meta.ns && index_id
            == meta.index_id && generation == meta.generation,
    }
}

fn takes(pending: PendingSection, meta: IdxSidecarMeta) -> (r: bool)
    ensures
        r == section_takes(pending, meta),
{
    match pending {
        PendingSection::Empty => true,
        PendingSection::Records => false,
        PendingSection::Index { ns, index_id, generation } => ns == meta.ns && index_id
            == meta.index_id && generation == meta.generation,
    }
}

/// Encoded bytes of one pair of an index.
pub open spec fn pair_bytes(fixed8: bool, key_len: u16) -> int {
    if fixed8 {
        16
    } else {
        2 + key_len + 8
    }
}

impl Streaming {
    /// The walk is done once every namespace is through, the sidecars once
    /// every planned index is; the footer follows both, the completion sync the
    /// footer and every write before it.
    pub open spec fn wf(&self) -> bool {
        &&& self.ns_idx <= self.ns_ids@.len()
        &&& self.tier_pass <= 4
        &&& self.walk_done ==> self.ns_idx == self.ns_ids@.len()
        &&& self.sidecar_done ==> self.walk_done && (self.v2 ==> (self.sidecar_plan matches Some(
            plan,
        ) && self.sidecar_at == plan@.len()))
        &&& self.sidecar_plan matches Some(plan) ==> self.sidecar_at <= plan@.len()
        &&& self.sidecar_plan is None ==> self.sidecar_at == 0
        &&& self.footer_staged ==> self.walk_done && self.sidecar_done
        &&& self.sync_issued ==> self.footer_staged && self.in_flight is None
        &&& self.sync_done ==> self.sync_issued
    }

    /// The counters of a slice have room.
    pub open spec fn counts_fit(&self) -> bool {
        &&& self.bound_splits < u64::MAX
        &&& self.write_seq < u64::MAX
        &&& self.pace_fits()
    }

    /// The pace counter has room for a slice.
    pub open spec fn pace_fits(&self) -> bool {
        self.streamed_bytes + u32::MAX <= u64::MAX
    }

    /// Whether the pace holds the walk back. The pace is the fallback for a
    /// node without a device model.
    pub open spec fn paced_out(&self, model_absent: bool, rate: u32, now: u64) -> bool {
        model_absent && !(self.walk_done && self.sidecar_done) && rate > 0
            && self.streamed_bytes >= paced_bytes(rate, cell::above(now, self.opened_at))
    }

    /// Whether the pace holds the walk back.
    pub fn pace_holds(&self, model_absent: bool, rate: u32, now: u64) -> (r: bool)
        ensures
            r == self.paced_out(model_absent, rate, now),
    {
        if model_absent && !(self.walk_done && self.sidecar_done) && rate > 0 {
            let ms: u64 = distance(now, self.opened_at) / 1_000_000;
            let ms: u64 = if ms < 1 {
                1
            } else {
                ms
            };
            proof {
                assert(rate * ms <= u32::MAX * u64::MAX) by (nonlinear_arith)
                    requires
                        rate <= u32::MAX,
                        ms <= u64::MAX,
                ;
            }
            let allowed: u128 = rate as u128 * ms as u128 / 1000;
            self.streamed_bytes as u128 >= allowed
        } else {
            false
        }
    }

    /// The part of the image a slice fills at its entry.
    pub open spec fn first_phase(&self) -> FillPhase {
        if !self.walk_done {
            FillPhase::Walking
        } else if !self.sidecar_done {
            FillPhase::Sidecars
        } else {
            FillPhase::Settled
        }
    }

    /// The namespace the walk stands at.
    pub open spec fn here(&self) -> u32 {
        self.ns_ids@[self.ns_idx as int]
    }

    /// Whether the walk goes on in this slice.
    pub open spec fn walks_on(&self, fill: Fill, section_full: bool) -> bool {
        fill.emitted < fill.slice_cap && !self.walk_done && !section_full && !fill.force_seal
    }

    /// The index the sidecar phase stands at.
    pub open spec fn sidecar_target(&self) -> Option<IdxSidecarMeta> {
        match self.sidecar_plan {
            Some(plan) => if self.sidecar_at < plan@.len() {
                Some(plan@[self.sidecar_at as int])
            } else {
                None
            },
            None => None,
        }
    }

    /// A slice and the stream it fills agree on the action in progress.
    pub open spec fn suits(&self, fill: Fill) -> bool {
        &&& self.in_flight is None
        &&& !self.footer_staged
        &&& fill.phase is Sidecars ==> self.walk_done && !self.sidecar_done
        &&& fill.asked matches Some(action) ==> match action {
            FillAction::Find(ns) => self.walking(fill, ns),
            FillAction::Scan { ns, .. } => self.walking(fill, ns),
            FillAction::Refs { ns, .. } => self.walking(fill, ns) && self.tier_pass == 0,
            FillAction::Images { ns, .. } => self.walking(fill, ns) && self.tier_pass == 1,
            FillAction::LiveFiles { ns } => self.walking(fill, ns) && self.tier_pass == 2,
            FillAction::BlobRefs { ns, .. } => self.walking(fill, ns) && self.tier_pass == 3,
            FillAction::StageEntry { ns, entry } => {
                &&& self.walking(fill, ns)
                &&& fill.entry < fill.entries@.len()
                &&& fill.taken < TIER_WALK_CHUNK
                &&& entry == fill.entries@[fill.entry as int]
                &&& forall|i: int|
                    0 <= i < fill.entries@.len() ==> (#[trigger] fill.entries@[i]).key() < u64::MAX
            },
            FillAction::EndWalk { ns } => self.walking(fill, ns),
            FillAction::Plan => fill.phase is Sidecars && self.v2 && self.sidecar_plan is None,
            FillAction::CheckIndex(meta) => fill.phase is Sidecars && self.sidecar_target() == Some(
                meta,
            ),
            FillAction::Pull { meta, .. } => fill.phase is Sidecars && self.sidecar_target()
                == Some(meta),
            FillAction::StageFinal { .. } => fill.phase is Settled,
            FillAction::Admit(block) => fill.phase is Settled && (block is Footer
                ==> self.walk_done && self.sidecar_done),
            FillAction::Seal(block) => fill.phase is Settled && (block is Footer ==> self.walk_done
                && self.sidecar_done),
            FillAction::Write { .. } => true,
            FillAction::Done { .. } => true,
        }
    }

    /// The walk stands at a namespace.
    pub open spec fn walking(&self, fill: Fill, ns: u32) -> bool {
        fill.phase is Walking && !self.walk_done && self.ns_idx < self.ns_ids@.len() && ns
            == self.here()
    }

    /// The block a settled slice offers: a full section, one a class or a
    /// bound seals early, or the last one; the footer once everything drained.
    pub open spec fn offered(&self, fill: Fill, s: SectionFacts) -> Option<Block> {
        if s.full || (fill.force_seal && s.can_seal) || (self.walk_done && self.sidecar_done
            && s.can_seal) {
            Some(Block::Section)
        } else if self.walk_done && self.sidecar_done {
            Some(Block::Footer)
        } else {
            None
        }
    }

    /// The end of a slice that writes nothing: what it emitted counts toward
    /// the pace.
    pub open spec fn closes(&self, fill: Fill) -> (Streaming, Fill, FillAction) {
        let action = FillAction::Done { units: units_for(fill.emitted) };
        (
            Streaming {
                streamed_bytes: (self.streamed_bytes + fill.emitted) as u64,
                ..*self
            },
            fill.asking(action),
            action,
        )
    }

    /// The end of filling: at most one block is offered.
    pub open spec fn settles(&self, fill: Fill, s: SectionFacts) -> (Streaming, Fill, FillAction) {
        let fill = Fill { phase: FillPhase::Settled, ..fill };
        match self.offered(fill, s) {
            Some(block) => (
                *self,
                fill.asking(FillAction::Admit(block)),
                FillAction::Admit(block),
            ),
            None => self.closes(fill),
        }
    }

    /// What a slice asks for with nothing in progress. A walk past its last
    /// namespace is done; an image of the first version holds no sidecars; a
    /// pending section of another class seals before an index stages.
    pub open spec fn goes_on(&self, fill: Fill, s: SectionFacts) -> (Streaming, Fill, FillAction) {
        match fill.phase {
            FillPhase::Walking => if !self.walks_on(fill, s.full) {
                self.settles(fill, s)
            } else if self.ns_idx < self.ns_ids@.len() {
                let action = FillAction::Find(self.here());
                (*self, fill.asking(action), action)
            } else {
                (Streaming { walk_done: true, ..*self }).settles(fill, s)
            },
            FillPhase::Sidecars => if !self.v2 {
                (Streaming { sidecar_done: true, ..*self }).settles(fill, s)
            } else if self.sidecar_plan is None {
                (*self, fill.asking(FillAction::Plan), FillAction::Plan)
            } else {
                match self.sidecar_target() {
                    None => (Streaming { sidecar_done: true, ..*self }).settles(fill, s),
                    Some(meta) => if section_takes(s.pending, meta) {
                        let action = FillAction::CheckIndex(meta);
                        (*self, fill.asking(action), action)
                    } else {
                        self.settles(Fill { force_seal: true, ..fill }, s)
                    },
                }
            },
            FillPhase::Settled => self.settles(fill, s),
        }
    }

    /// The stream past its current namespace.
    pub open spec fn past_namespace(&self, tier_pass: u8, ends: bool) -> Streaming {
        Streaming {
            ns_idx: (self.ns_idx + 1) as usize,
            cursor: 0,
            resume: None,
            tier_pass: tier_pass,
            walk_done: ends && self.ns_idx + 1 == self.ns_ids@.len(),
            ..*self
        }
    }

    /// The stream where a bounded walk stopped.
    pub open spec fn stopped(&self, group: u64, chain: Option<u64>) -> Streaming {
        Streaming {
            cursor: group,
            resume: chain,
            bound_splits: if chain is Some {
                (self.bound_splits + 1) as u64
            } else {
                self.bound_splits
            },
            ..*self
        }
    }

    /// The step a tiered walk owes: address references, record images,
    /// live-set entries, blob references, then the end of the walk.
    pub open spec fn tier_action(&self, pinned: bool) -> FillAction {
        let ns = self.here();
        if self.tier_pass == 0 {
            FillAction::Refs {
                ns,
                cursor: self.cursor,
                begin: self.cursor == 0,
                release: self.cursor == 0 && pinned,
                limit: TIER_WALK_CHUNK,
            }
        } else if self.tier_pass == 1 {
            FillAction::Images {
                ns,
                cursor: self.cursor,
                resume: self.resume,
                limit: TIER_WALK_CHUNK,
            }
        } else if self.tier_pass == 2 {
            FillAction::LiveFiles { ns }
        } else if self.tier_pass == 3 {
            FillAction::BlobRefs { ns, from: self.cursor }
        } else {
            FillAction::EndWalk { ns }
        }
    }

    /// One bounded step of a tiered walk. Section classes never mix inside a
    /// pass, so a pending section seals before a pass stages.
    pub open spec fn tier_step(&self, fill: Fill, s: SectionFacts, pinned: bool) -> (
        Streaming,
        Fill,
        FillAction,
    ) {
        if self.cursor == 0 && self.resume is None && s.can_seal {
            self.goes_on(Fill { force_seal: true, ..fill }, s)
        } else {
            let action = self.tier_action(pinned);
            (*self, fill.asking(action), action)
        }
    }

    /// The next listed entry to stage, or the walk's next step. `i` is where
    /// to look from.
    pub open spec fn stages_entry(&self, fill: Fill, s: SectionFacts, i: int) -> (
        Streaming,
        Fill,
        FillAction,
    ) {
        let at = entry_from(fill.entries@, fill.from, i);
        if at < fill.entries@.len() && fill.taken < TIER_WALK_CHUNK {
            let action = FillAction::StageEntry {
                ns: self.here(),
                entry: fill.entries@[at],
            };
            (*self, (Fill { entry: at as usize, ..fill }).asking(action), action)
        } else if fill.taken == 0 {
            (Streaming {
                cursor: 0,
                tier_pass: (self.tier_pass + 1) as u8,
                ..*self
            }).goes_on(fill, s)
        } else {
            self.goes_on(fill, s)
        }
    }

    /// The stream past the index it stands at.
    pub open spec fn past_index(&self) -> Streaming {
        Streaming {
            sidecar_at: (self.sidecar_at + 1) as usize,
            sidecar_cursor: None,
            sidecar_emitted: 0,
            ..*self
        }
    }

    /// The stream and the slice after an event, and what the slice asks for
    /// next.
    pub open spec fn filled(&self, fill: Fill, event: FillEvent, s: SectionFacts) -> (
        Streaming,
        Fill,
        FillAction,
    ) {
        match event {
            FillEvent::Started => self.goes_on(fill, s),
            FillEvent::Found(kind) => match kind {
                NsKind::Gone => self.past_namespace(self.tier_pass, false).goes_on(fill, s),
                NsKind::TierGone => self.past_namespace(0, true).goes_on(fill, s),
                NsKind::Plain => {
                    let action = FillAction::Scan {
                        ns: self.here(),
                        cursor: self.cursor,
                        resume: self.resume,
                        limit: SCAN_CHUNK_ENTRIES,
                    };
                    (*self, fill.asking(action), action)
                },
                NsKind::Tiered { pinned } => self.tier_step(fill, s, pinned),
            },
            FillEvent::Scanned { done, group, chain } => if done {
                self.past_namespace(self.tier_pass, true).goes_on(fill, s)
            } else {
                self.stopped(group, chain).goes_on(
                    Fill { force_seal: fill.force_seal || chain is Some, ..fill },
                    s,
                )
            },
            FillEvent::RefsStaged { refs, next } => (Streaming {
                cursor: next,
                tier_pass: if next == 0 {
                    1
                } else {
                    0
                },
                ..*self
            }).goes_on(
                Fill { emitted: grown(fill.emitted, refs * TIER_ENTRY_BYTES), ..fill },
                s,
            ),
            FillEvent::ImagesStaged { done, group, chain } => if done {
                (Streaming { cursor: 0, resume: None, tier_pass: 2, ..*self }).goes_on(fill, s)
            } else {
                self.stopped(group, chain).goes_on(
                    Fill { force_seal: fill.force_seal || chain is Some, ..fill },
                    s,
                )
            },
            FillEvent::Listed(entries) => self.stages_entry(
                Fill { entries: entries, from: self.cursor, taken: 0, ..fill },
                s,
                0,
            ),
            FillEvent::EntryStaged => {
                let fill = Fill {
                    emitted: grown(fill.emitted, TIER_ENTRY_BYTES as int),
                    taken: (fill.taken + 1) as usize,
                    ..fill
                };
                let next = Streaming {
                    cursor: (fill.entries@[fill.entry as int].key() + 1) as u64,
                    ..*self
                };
                if s.full || fill.emitted >= fill.slice_cap {
                    next.goes_on(fill, s)
                } else {
                    next.stages_entry(fill, s, fill.entry + 1)
                }
            },
            FillEvent::WalkEnded => self.past_namespace(0, true).goes_on(fill, s),
            FillEvent::Planned(plan) => (Streaming {
                sidecar_plan: Some(plan),
                ..*self
            }).goes_on(fill, s),
            FillEvent::Judged { eligible } => if eligible {
                let action = FillAction::Pull {
                    meta: self.sidecar_target()->0,
                    cursor: self.sidecar_cursor,
                    limit: SIDECAR_CHUNK_ENTRIES,
                };
                (*self, fill.asking(action), action)
            } else if s.pending != PendingSection::Empty {
                self.past_index().settles(Fill { force_seal: true, ..fill }, s)
            } else {
                self.past_index().goes_on(fill, s)
            },
            FillEvent::Pulled { pairs, next } => if pairs < SIDECAR_CHUNK_ENTRIES {
                let action = FillAction::StageFinal {
                    meta: self.sidecar_target()->0,
                    pairs: self.sidecar_emitted,
                };
                (
                    self.past_index(),
                    (Fill { force_seal: true, phase: FillPhase::Settled, ..fill }).asking(action),
                    action,
                )
            } else {
                let next = Streaming { sidecar_cursor: next, ..*self };
                if s.full || fill.emitted >= fill.slice_cap {
                    next.settles(fill, s)
                } else {
                    next.goes_on(fill, s)
                }
            },
            FillEvent::FinalStaged => self.settles(fill, s),
            FillEvent::Admitted(granted) => if granted {
                let block = (fill.asked->0)->Admit_0;
                (*self, fill.asking(FillAction::Seal(block)), FillAction::Seal(block))
            } else {
                self.closes(fill)
            },
            FillEvent::Sealed(lease) => {
                let seq = (self.write_seq + 1) as u64;
                let action = FillAction::Write { seq, lease, units: units_for(fill.emitted) };
                (
                    Streaming {
                        write_seq: seq,
                        in_flight: Some(lease),
                        footer_staged: (fill.asked->0)->Seal_0 == Block::Footer,
                        streamed_bytes: (self.streamed_bytes + fill.emitted) as u64,
                        ..*self
                    },
                    fill.asking(action),
                    action,
                )
            },
        }
    }

    fn close(&mut self, fill: &mut Fill) -> (r: FillAction)
        requires
            old(self).wf(),
            old(self).pace_fits(),
        ensures
            final(self).wf(),
            (*final(self), *final(fill), r) == old(self).closes(*old(fill)),
            r is Done,
    {
        self.streamed_bytes += fill.emitted as u64;
        let action = FillAction::Done { units: units_of(fill.emitted) };
        fill.asked = Some(action);
        action
    }

    fn settle(&mut self, fill: &mut Fill, s: SectionFacts) -> (r: FillAction)
        requires
            old(self).wf(),
            old(self).pace_fits(),
            old(self).in_flight is None,
            !old(self).footer_staged,
        ensures
            final(self).wf(),
            (*final(self), *final(fill), r) == old(self).settles(*old(fill), s),
            final(self).suits(*final(fill)),
    {
        fill.phase = FillPhase::Settled;
        let drained = self.walk_done && self.sidecar_done;
        let action = if s.full || (fill.force_seal && s.can_seal) || (drained && s.can_seal) {
            FillAction::Admit(Block::Section)
        } else if drained {
            FillAction::Admit(Block::Footer)
        } else {
            return self.close(fill);
        };
        fill.asked = Some(action);
        action
    }

    fn go_on(&mut self, fill: &mut Fill, s: SectionFacts) -> (r: FillAction)
        requires
            old(self).wf(),
            old(self).pace_fits(),
            old(self).in_flight is None,
            !old(self).footer_staged,
            old(fill).phase is Sidecars ==> old(self).walk_done && !old(self).sidecar_done,
        ensures
            final(self).wf(),
            (*final(self), *final(fill), r) == old(self).goes_on(*old(fill), s),
            final(self).suits(*final(fill)),
    {
        match fill.phase {
            FillPhase::Walking => {
                if fill.emitted < fill.slice_cap && !self.walk_done && !s.full
                    && !fill.force_seal {
                    if self.ns_idx < self.ns_ids.len() {
                        let action = FillAction::Find(self.ns_ids[self.ns_idx]);
                        fill.asked = Some(action);
                        return action;
                    }
                    self.walk_done = true;
                }
            },
            FillPhase::Sidecars => {
                if !self.v2 {
                    self.sidecar_done = true;
                } else {
                    match &self.sidecar_plan {
                        None => {
                            fill.asked = Some(FillAction::Plan);
                            return FillAction::Plan;
                        },
                        Some(plan) => {
                            if self.sidecar_at < plan.len() {
                                let meta = plan[self.sidecar_at];
                                if takes(s.pending, meta) {
                                    let action = FillAction::CheckIndex(meta);
                                    fill.asked = Some(action);
                                    return action;
                                }
                                fill.force_seal = true;
                            } else {
                                self.sidecar_done = true;
                            }
                        },
                    }
                }
            },
            FillPhase::Settled => {},
        }
        self.settle(fill, s)
    }

    fn leave_namespace(&mut self, tier_pass: u8, ends: bool)
        requires
            old(self).wf(),
            old(self).ns_idx < old(self).ns_ids@.len(),
            !old(self).walk_done,
            tier_pass <= 4,
        ensures
            final(self).wf(),
            *final(self) == old(self).past_namespace(tier_pass, ends),
    {
        assert(self.ns_idx < self.ns_ids.len());
        self.ns_idx += 1;
        self.cursor = 0;
        self.resume = None;
        self.tier_pass = tier_pass;
        self.walk_done = ends && self.ns_idx == self.ns_ids.len();
    }

    fn stop_at(&mut self, fill: &mut Fill, group: u64, chain: Option<u64>)
        requires
            old(self).wf(),
            old(self).counts_fit(),
        ensures
            final(self).wf(),
            *final(self) == old(self).stopped(group, chain),
            *final(fill) == (Fill {
                force_seal: old(fill).force_seal || chain is Some,
                ..*old(fill)
            }),
    {
        self.cursor = group;
        self.resume = chain;
        if chain.is_some() {
            fill.force_seal = true;
            self.bound_splits += 1;
        }
    }

    /// One bounded step of a tiered namespace's walk.
    fn tier_walk_step(&mut self, fill: &mut Fill, s: SectionFacts, pinned: bool) -> (r: FillAction)
        requires
            old(self).wf(),
            old(self).pace_fits(),
            old(self).suits(*old(fill)),
            old(fill).phase is Walking,
            !old(self).walk_done,
            old(self).ns_idx < old(self).ns_ids@.len(),
        ensures
            final(self).wf(),
            (*final(self), *final(fill), r) == old(self).tier_step(*old(fill), s, pinned),
            final(self).suits(*final(fill)),
    {
        if self.cursor == 0 && self.resume.is_none() && s.can_seal {
            fill.force_seal = true;
            return self.go_on(fill, s);
        }
        let ns: u32 = self.ns_ids[self.ns_idx];
        let action = match self.tier_pass {
            0 => FillAction::Refs {
                ns,
                cursor: self.cursor,
                begin: self.cursor == 0,
                release: self.cursor == 0 && pinned,
                limit: TIER_WALK_CHUNK,
            },
            1 => FillAction::Images {
                ns,
                cursor: self.cursor,
                resume: self.resume,
                limit: TIER_WALK_CHUNK,
            },
            2 => FillAction::LiveFiles { ns },
            3 => FillAction::BlobRefs { ns, from: self.cursor },
            _ => FillAction::EndWalk { ns },
        };
        fill.asked = Some(action);
        action
    }

    fn stage_entry(&mut self, fill: &mut Fill, s: SectionFacts, start: usize) -> (r: FillAction)
        requires
            old(self).wf(),
            old(self).pace_fits(),
            old(self).in_flight is None,
            !old(self).footer_staged,
            old(fill).phase is Walking,
            !old(self).walk_done,
            old(self).ns_idx < old(self).ns_ids@.len(),
            start <= old(fill).entries@.len(),
            old(fill).taken == 0 ==> old(self).tier_pass < 4,
            forall|i: int|
                0 <= i < old(fill).entries@.len() ==> (#[trigger] old(fill).entries@[i]).key()
                    < u64::MAX,
        ensures
            final(self).wf(),
            (*final(self), *final(fill), r) == old(self).stages_entry(
                *old(fill),
                s,
                start as int,
            ),
            final(self).suits(*final(fill)),
    {
        let at: usize = find_entry(fill.entries.as_slice(), fill.from, start);
        if at < fill.entries.len() && fill.taken < TIER_WALK_CHUNK {
            fill.entry = at;
            let action = FillAction::StageEntry {
                ns: self.ns_ids[self.ns_idx],
                entry: fill.entries[at],
            };
            fill.asked = Some(action);
            return action;
        }
        if fill.taken == 0 {
            self.cursor = 0;
            self.tier_pass += 1;
        }
        self.go_on(fill, s)
    }

    fn leave_index(&mut self)
        requires
            old(self).wf(),
            old(self).sidecar_target() is Some,
            !old(self).sidecar_done,
        ensures
            final(self).wf(),
            *final(self) == old(self).past_index(),
    {
        if let Some(plan) = &self.sidecar_plan {
            assert(self.sidecar_at < plan.len());
        }
        self.sidecar_at += 1;
        self.sidecar_cursor = None;
        self.sidecar_emitted = 0;
    }

    /// One bounded step of the sidecar phase: a short pull exhausted its
    /// index, which closes with a final marker, and its section seals.
    fn sidecar_walk_step(
        &mut self,
        fill: &mut Fill,
        s: SectionFacts,
        pairs: u32,
        next: Option<u64>,
    ) -> (r: FillAction)
        requires
            old(self).wf(),
            old(self).pace_fits(),
            old(self).suits(*old(fill)),
            old(fill).asked matches Some(FillAction::Pull { .. }),
        ensures
            final(self).wf(),
            (*final(self), *final(fill), r) == old(self).filled(
                *old(fill),
                FillEvent::Pulled { pairs, next },
                s,
            ),
            final(self).suits(*final(fill)),
    {
        if pairs < SIDECAR_CHUNK_ENTRIES {
            let staged: u64 = self.sidecar_emitted;
            if let Some(FillAction::Pull { meta, .. }) = fill.asked {
                self.leave_index();
                fill.force_seal = true;
                fill.phase = FillPhase::Settled;
                let action = FillAction::StageFinal { meta, pairs: staged };
                fill.asked = Some(action);
                return action;
            }
        }
        self.sidecar_cursor = next;
        if s.full || fill.emitted >= fill.slice_cap {
            self.settle(fill, s)
        } else {
            self.go_on(fill, s)
        }
    }

    /// Takes what came of the action in progress and says which one is next.
    pub fn fill_step(&mut self, fill: &mut Fill, event: FillEvent, s: SectionFacts) -> (r:
        FillAction)
        requires
            old(self).wf(),
            old(self).counts_fit(),
            old(self).suits(*old(fill)),
            old(fill).answered_by(event),
        ensures
            final(self).wf(),
            (*final(self), *final(fill), r) == old(self).filled(*old(fill), event, s),
            r !is Write ==> final(self).suits(*final(fill)),
    {
        match event {
            FillEvent::Started => self.go_on(fill, s),
            FillEvent::Found(kind) => match kind {
                NsKind::Gone => {
                    let pass: u8 = self.tier_pass;
                    self.leave_namespace(pass, false);
                    self.go_on(fill, s)
                },
                NsKind::TierGone => {
                    self.leave_namespace(0, true);
                    self.go_on(fill, s)
                },
                NsKind::Plain => {
                    let action = FillAction::Scan {
                        ns: self.ns_ids[self.ns_idx],
                        cursor: self.cursor,
                        resume: self.resume,
                        limit: SCAN_CHUNK_ENTRIES,
                    };
                    fill.asked = Some(action);
                    action
                },
                NsKind::Tiered { pinned } => self.tier_walk_step(fill, s, pinned),
            },
            FillEvent::Scanned { done, group, chain } => {
                if done {
                    let pass: u8 = self.tier_pass;
                    self.leave_namespace(pass, true);
                } else {
                    self.stop_at(fill, group, chain);
                }
                self.go_on(fill, s)
            },
            FillEvent::RefsStaged { refs, next } => {
                fill.emitted = grow(fill.emitted, refs as u64 * TIER_ENTRY_BYTES as u64);
                self.cursor = next;
                if next == 0 {
                    self.tier_pass = 1;
                }
                self.go_on(fill, s)
            },
            FillEvent::ImagesStaged { done, group, chain } => {
                if done {
                    self.cursor = 0;
                    self.resume = None;
                    self.tier_pass = 2;
                } else {
                    self.stop_at(fill, group, chain);
                }
                self.go_on(fill, s)
            },
            FillEvent::Listed(entries) => {
                fill.entries = entries;
                fill.from = self.cursor;
                fill.taken = 0;
                self.stage_entry(fill, s, 0)
            },
            FillEvent::EntryStaged => {
                fill.emitted = grow(fill.emitted, TIER_ENTRY_BYTES as u64);
                fill.taken += 1;
                self.cursor = fill.entries[fill.entry].resume_key() + 1;
                if s.full || fill.emitted >= fill.slice_cap {
                    self.go_on(fill, s)
                } else {
                    assert(fill.entry < fill.entries.len());
                    let start: usize = fill.entry + 1;
                    self.stage_entry(fill, s, start)
                }
            },
            FillEvent::WalkEnded => {
                self.leave_namespace(0, true);
                self.go_on(fill, s)
            },
            FillEvent::Planned(plan) => {
                self.sidecar_plan = Some(plan);
                self.go_on(fill, s)
            },
            FillEvent::Judged { eligible } => {
                if eligible {
                    if let Some(FillAction::CheckIndex(meta)) = fill.asked {
                        let action = FillAction::Pull {
                            meta,
                            cursor: self.sidecar_cursor,
                            limit: SIDECAR_CHUNK_ENTRIES,
                        };
                        fill.asked = Some(action);
                        return action;
                    }
                }
                self.leave_index();
                if s.pending != PendingSection::Empty {
                    fill.force_seal = true;
                    self.settle(fill, s)
                } else {
                    self.go_on(fill, s)
                }
            },
            FillEvent::Pulled { pairs, next } => self.sidecar_walk_step(fill, s, pairs, next),
            FillEvent::FinalStaged => self.settle(fill, s),
            FillEvent::Admitted(granted) => {
                if granted {
                    if let Some(FillAction::Admit(block)) = fill.asked {
                        let action = FillAction::Seal(block);
                        fill.asked = Some(action);
                        return action;
                    }
                }
                self.close(fill)
            },
            FillEvent::Sealed(lease) => {
                let footer = match fill.asked {
                    Some(FillAction::Seal(block)) => block == Block::Footer,
                    _ => false,
                };
                self.write_seq += 1;
                self.in_flight = Some(lease);
                self.footer_staged = footer;
                self.streamed_bytes += fill.emitted as u64;
                let action = FillAction::Write {
                    seq: self.write_seq,
                    lease,
                    units: units_of(fill.emitted),
                };
                fill.asked = Some(action);
                action
            },
        }
    }

    /// One pair of an index was staged. Returns its position among the index's
    /// pairs.
    pub fn note_pair(&mut self, fill: &mut Fill, fixed8: bool, key_len: u16) -> (r: u64)
        requires
            old(self).wf(),
            old(self).sidecar_emitted < u64::MAX,
        ensures
            final(self).wf(),
            r == old(self).sidecar_emitted,
            *final(self) == (Streaming {
                sidecar_emitted: (old(self).sidecar_emitted + 1) as u64,
                ..*old(self)
            }),
            *final(fill) == (Fill {
                emitted: grown(old(fill).emitted, pair_bytes(fixed8, key_len)),
                ..*old(fill)
            }),
    {
        let at: u64 = self.sidecar_emitted;
        self.sidecar_emitted += 1;
        let bytes: u64 = if fixed8 {
            16
        } else {
            2 + key_len as u64 + 8
        };
        fill.emitted = grow(fill.emitted, bytes);
        at
    }
}

/// Every pass of a tiered walk starts on an empty section: with one pending,
/// the step at a pass boundary offers it first and stages nothing.
pub proof fn law_tier_pass_starts_sealed(st: Streaming, fill: Fill, s: SectionFacts, pinned: bool)
    requires
        st.suits(fill),
        fill.asked matches Some(FillAction::Find(_)),
        st.cursor == 0,
        st.resume is None,
        s.can_seal,
    ensures
        st.filled(fill, FillEvent::Found(NsKind::Tiered { pinned }), s).2 == FillAction::Admit(
            Block::Section,
        ),
{
}

/// Sections are pure: an index is taken up only on an empty section or one
/// that already holds pairs of that index.
pub proof fn law_sidecar_sections_are_pure(
    st: Streaming,
    fill: Fill,
    s: SectionFacts,
    meta: IdxSidecarMeta,
)
    requires
        st.goes_on(fill, s).2 == FillAction::CheckIndex(meta),
    ensures
        s.pending != PendingSection::Records,
        s.pending matches PendingSection::Index { ns, index_id, generation } ==> ns == meta.ns
            && index_id == meta.index_id && generation == meta.generation,
{
}

/// A slice is bounded: it takes up no namespace once it emitted its bytes, the
/// section is full, or a section waits to seal.
pub proof fn law_slice_is_bounded(st: Streaming, fill: Fill, s: SectionFacts)
    requires
        st.goes_on(fill, s).2 is Find,
    ensures
        fill.emitted < fill.slice_cap,
        !s.full,
        !fill.force_seal,
{
}

/// The footer comes last: it is offered only once every namespace and every
/// planned index is through and no section is pending.
pub proof fn law_footer_is_last(st: Streaming, fill: Fill, event: FillEvent, s: SectionFacts)
    requires
        st.wf(),
        st.suits(fill),
        fill.answered_by(event),
        st.filled(fill, event, s).2 == FillAction::Admit(Block::Footer),
    ensures
        ({
            let next = st.filled(fill, event, s).0;
            &&& next.walk_done
            &&& next.sidecar_done
            &&& !s.full
            &&& !s.can_seal
        }),
{
}

/// The walk never turns back: a step leaves it at its namespace or takes it to
/// the next one, and what is done stays done.
pub proof fn law_walk_moves_forward(st: Streaming, fill: Fill, event: FillEvent, s: SectionFacts)
    requires
        st.wf(),
        st.suits(fill),
        fill.answered_by(event),
    ensures
        ({
            let next = st.filled(fill, event, s).0;
            &&& st.ns_idx <= next.ns_idx <= st.ns_idx + 1
            &&& st.walk_done ==> next.walk_done
            &&& st.sidecar_done ==> next.sidecar_done
            &&& st.sidecar_at <= next.sidecar_at <= st.sidecar_at + 1
        }),
{
    assert(st.ns_ids.len() == st.ns_ids@.len());
    if let Some(plan) = st.sidecar_plan {
        assert(plan.len() == plan@.len());
    }
}

/// Resuming by key steps over nothing: in an ascending listing, whatever
/// vanished since the last one, the entries before the resume point are those
/// at or below the last staged key, and the entries from there on are those
/// above it.
pub proof fn law_resume_steps_over_nothing(entries: Seq<TierEntry>, staged: u64, i: int)
    requires
        0 <= i <= entries.len(),
        staged < u64::MAX,
        forall|a: int, b: int|
            0 <= a < b < entries.len() ==> (#[trigger] entries[a]).key() < (
            #[trigger] entries[b]).key(),
    ensures
        ({
            let at = entry_from(entries, (staged + 1) as u64, i);
            &&& i <= at <= entries.len()
            &&& forall|k: int| i <= k < at ==> (#[trigger] entries[k]).key() <= staged
            &&& forall|k: int| at <= k < entries.len() ==> (#[trigger] entries[k]).key() > staged
        }),
    decreases entries.len() - i,
{
    if i < entries.len() && entries[i].key() < staged + 1 {
        law_resume_steps_over_nothing(entries, staged, i + 1);
    }
}

/// One turn of a filling slice: the stream and the slice before it, what came
/// of the last action, what the image stream said, and the action asked for.
pub struct FillTurn {
    pub st: Streaming,
    pub fill: Fill,
    pub event: FillEvent,
    pub facts: SectionFacts,
    pub action: FillAction,
}

impl FillTurn {
    /// Whether the event answers the action in progress, and the action is the
    /// one that follows.
    #[verifier::opaque]
    pub open spec fn sound(self) -> bool {
        &&& self.fill.answered_by(self.event)
        &&& self.action == self.st.filled(self.fill, self.event, self.facts).2
    }

    /// The slice after the turn.
    #[verifier::opaque]
    pub open spec fn after(self) -> Fill {
        self.st.filled(self.fill, self.event, self.facts).1
    }
}

/// Whether turns make up a filling slice. Performing an action counts bytes and
/// pairs between two turns, and leaves it in progress.
pub open spec fn fill_runs(turns: Seq<FillTurn>, slice_cap: u32, phase: FillPhase) -> bool {
    &&& turns.len() > 0 ==> turns[0].fill.begun(slice_cap, phase)
    &&& forall|i: int| 0 <= i < turns.len() ==> (#[trigger] turns[i]).sound()
    &&& forall|i: int|
        0 < i < turns.len() ==> (#[trigger] turns[i]).fill.asked == turns[i - 1].after().asked
}

/// The writes that turns queue.
pub open spec fn writes(turns: Seq<FillTurn>) -> nat
    decreases turns.len(),
{
    if turns.len() == 0 {
        0
    } else {
        writes(turns.drop_last()) + (if turns.last().action is Write {
            1nat
        } else {
            0
        })
    }
}

proof fn lemma_goes_on_asks(st: Streaming, fill: Fill, s: SectionFacts)
    ensures
        st.goes_on(fill, s).1.asked == Some(st.goes_on(fill, s).2),
{
}

#[verifier::spinoff_prover]
#[verifier::rlimit(60)]
proof fn lemma_action_in_progress(turn: FillTurn)
    requires
        turn.sound(),
    ensures
        turn.after().asked == Some(turn.action),
        turn.fill.asked matches Some(action) ==> action !is Write && action !is Done,
{
    reveal(FillTurn::sound);
    reveal(FillTurn::after);
    assert forall|st: Streaming, fill: Fill| #[trigger]
        st.goes_on(fill, turn.facts).1.asked == Some(st.goes_on(fill, turn.facts).2) by {
        lemma_goes_on_asks(st, fill, turn.facts);
    }
    match turn.event {
        FillEvent::Started => {},
        FillEvent::Found(_) => {},
        FillEvent::Scanned { .. } => {},
        FillEvent::RefsStaged { .. } => {},
        FillEvent::ImagesStaged { .. } => {},
        FillEvent::Listed(_) => {},
        FillEvent::EntryStaged => {},
        FillEvent::WalkEnded => {},
        FillEvent::Planned(_) => {},
        FillEvent::Judged { .. } => {},
        FillEvent::Pulled { .. } => {},
        FillEvent::FinalStaged => {},
        FillEvent::Admitted(_) => {},
        FillEvent::Sealed(_) => {},
    }
}

/// A filling slice writes at most once: a write ends it, as does its end
/// without one.
pub proof fn law_fill_writes_at_most_once(turns: Seq<FillTurn>, slice_cap: u32, phase: FillPhase)
    requires
        fill_runs(turns, slice_cap, phase),
    ensures
        writes(turns) <= 1,
        forall|i: int|
            0 <= i < turns.len() && ((#[trigger] turns[i]).action is Write
                || turns[i].action is Done) ==> i == turns.len() - 1,
{
    assert forall|i: int|
        0 <= i < turns.len() && ((#[trigger] turns[i]).action is Write || turns[i].action is Done)
            implies i == turns.len() - 1 by {
        if i + 1 < turns.len() {
            lemma_action_in_progress(turns[i]);
            lemma_action_in_progress(turns[i + 1]);
            assert(turns[i + 1].fill.asked == turns[i + 1 - 1].after().asked);
        }
    }
    if turns.len() > 0 {
        lemma_no_writes(turns.drop_last());
    }
}

proof fn lemma_no_writes(turns: Seq<FillTurn>)
    requires
        forall|i: int| 0 <= i < turns.len() ==> (#[trigger] turns[i]).action !is Write,
    ensures
        writes(turns) == 0,
    decreases turns.len(),
{
    if turns.len() > 0 {
        lemma_no_writes(turns.drop_last());
    }
}

/// Settling and going on keep the place: where the walk stands, what it has
/// planned and what is in flight do not move, only that a phase is over, and
/// the bytes that the slice streamed.
pub proof fn law_going_on_keeps_the_place(st: Streaming, fill: Fill, s: SectionFacts)
    ensures
        ({
            let next = st.goes_on(fill, s).0;
            &&& next.id == st.id
            &&& next.begin_lsn == st.begin_lsn
            &&& next.ns_ids == st.ns_ids
            &&& next.ns_idx == st.ns_idx
            &&& next.cursor == st.cursor
            &&& next.resume == st.resume
            &&& next.tier_pass == st.tier_pass
            &&& next.bound_splits == st.bound_splits
            &&& next.sidecar_plan == st.sidecar_plan
            &&& next.sidecar_at == st.sidecar_at
            &&& next.sidecar_cursor == st.sidecar_cursor
            &&& next.sidecar_emitted == st.sidecar_emitted
            &&& next.in_flight == st.in_flight
            &&& next.write_seq == st.write_seq
            &&& next.footer_staged == st.footer_staged
            &&& next.sync_issued == st.sync_issued
            &&& next.sync_done == st.sync_done
            &&& next.walk_done && !st.walk_done ==> st.ns_idx >= st.ns_ids@.len()
        }),
{
}

/// A stream that was just opened walks from its first namespace: once its
/// header is written, the first thing it looks for is that namespace.
pub proof fn law_stream_starts_at_its_first_namespace(
    st: Streaming,
    id: u64,
    begin_lsn: crate::lsn::Lsn,
    ns_ids: Seq<u32>,
    v2: bool,
    now: u64,
    header: SectionLease,
    fill: Fill,
    slice_cap: u32,
    s: SectionFacts,
)
    requires
        crate::ckpt::opened(
            (Streaming { in_flight: Some(header), write_seq: 0, ..st }),
            id,
            begin_lsn,
            ns_ids,
            v2,
            now,
            header,
        ),
        st.in_flight is None,
        fill.begun(slice_cap, st.first_phase()),
        slice_cap > 0,
        !s.full,
        ns_ids.len() > 0,
    ensures
        st.id == id,
        st.begin_lsn == begin_lsn,
        st.ns_ids@ == ns_ids,
        st.wf(),
        st.filled(fill, FillEvent::Started, s).2 == FillAction::Find(ns_ids[0]),
{
}

/// The walk leaves a namespace only when it is done with it: it is gone, its
/// scan came to its end, or its tiered walk ended. It goes on with the next
/// one, from its start.
pub proof fn law_namespace_is_left_when_done(
    st: Streaming,
    fill: Fill,
    event: FillEvent,
    s: SectionFacts,
)
    requires
        st.wf(),
        st.suits(fill),
        fill.answered_by(event),
        st.filled(fill, event, s).0.ns_idx != st.ns_idx,
    ensures
        event == FillEvent::Found(NsKind::Gone) || event == FillEvent::Found(NsKind::TierGone)
            || event is WalkEnded || (event matches FillEvent::Scanned { done, .. } && done),
        st.filled(fill, event, s).0.ns_idx == st.ns_idx + 1,
        st.filled(fill, event, s).0.cursor == 0,
        st.filled(fill, event, s).0.resume is None,
{
    assert(st.ns_ids.len() == st.ns_ids@.len());
}

/// A scan that is not done resumes where it stopped: the place it reported is
/// the one that the next scan of that namespace starts from. One that stopped
/// inside a chain seals its section first.
pub proof fn law_scan_resumes_where_it_stopped(
    st: Streaming,
    fill: Fill,
    s: SectionFacts,
    group: u64,
    chain: Option<u64>,
    later: Fill,
    facts: SectionFacts,
)
    requires
        st.wf(),
        st.counts_fit(),
        st.suits(fill),
        fill.asked matches Some(FillAction::Scan { .. }),
    ensures
        ({
            let next = st.filled(
                fill,
                FillEvent::Scanned { done: false, group, chain },
                s,
            );
            &&& next.0.ns_idx == st.ns_idx
            &&& next.0.cursor == group
            &&& next.0.resume == chain
            &&& next.0.bound_splits == st.bound_splits + (if chain is Some {
                1int
            } else {
                0
            })
            &&& chain is Some ==> next.2 !is Find
            &&& next.0.filled(later, FillEvent::Found(NsKind::Plain), facts).2
                == (FillAction::Scan {
                ns: st.ns_ids@[st.ns_idx as int],
                cursor: group,
                resume: chain,
                limit: 32,
            })
        }),
{
}

/// The passes of a tiered walk, in order: the references, the images, the live
/// files, the blob references, and the end. Each pass asks for the namespace
/// it stands on, from where it stands; the walk begins, and a pin that was
/// left is released, only at the very start.
pub proof fn law_tier_passes_in_order(st: Streaming, pinned: bool)
    requires
        st.ns_idx < st.ns_ids@.len(),
    ensures
        ({
            let ns = st.ns_ids@[st.ns_idx as int];
            &&& st.tier_pass == 0 ==> (st.tier_action(pinned) matches FillAction::Refs {
                ns: n,
                cursor,
                begin,
                release,
                limit,
            } && n == ns && cursor == st.cursor && begin == (st.cursor == 0) && release == (pinned
                && st.cursor == 0) && limit == 256)
            &&& st.tier_pass == 1 ==> st.tier_action(pinned) == (FillAction::Images {
                ns,
                cursor: st.cursor,
                resume: st.resume,
                limit: 256,
            })
            &&& st.tier_pass == 2 ==> st.tier_action(pinned) == (FillAction::LiveFiles { ns })
            &&& st.tier_pass == 3 ==> st.tier_action(pinned) == (FillAction::BlobRefs {
                ns,
                from: st.cursor,
            })
            &&& st.tier_pass == 4 ==> st.tier_action(pinned) == (FillAction::EndWalk { ns })
        }),
{
}

/// A tier pass goes on where it stopped and hands over to the next one when it
/// is through: the references at a cursor of zero, the images when done.
pub proof fn law_tier_pass_hands_over(
    st: Streaming,
    fill: Fill,
    s: SectionFacts,
    refs: u32,
    at: u64,
    group: u64,
    chain: Option<u64>,
)
    requires
        st.wf(),
        st.counts_fit(),
        st.suits(fill),
    ensures
        fill.asked matches Some(FillAction::Refs { .. }) ==> ({
            let next = st.filled(fill, FillEvent::RefsStaged { refs, next: at }, s).0;
            &&& next.cursor == at
            &&& next.ns_idx == st.ns_idx
            &&& next.tier_pass == (if at == 0 {
                1u8
            } else {
                0u8
            })
        }),
        fill.asked matches Some(FillAction::Images { .. }) ==> ({
            let next = st.filled(
                fill,
                FillEvent::ImagesStaged { done: false, group, chain },
                s,
            ).0;
            &&& next.cursor == group
            &&& next.resume == chain
            &&& next.tier_pass == st.tier_pass
            &&& next.ns_idx == st.ns_idx
        }),
        fill.asked matches Some(FillAction::Images { .. }) ==> ({
            let next = st.filled(fill, FillEvent::ImagesStaged { done: true, group, chain }, s).0;
            &&& next.cursor == 0
            &&& next.resume is None
            &&& next.tier_pass == 2
            &&& next.ns_idx == st.ns_idx
        }),
        fill.asked matches Some(FillAction::EndWalk { .. }) ==> st.filled(
            fill,
            FillEvent::WalkEnded,
            s,
        ).0.tier_pass == 0,
        (fill.asked matches Some(FillAction::EndWalk { .. })) && st.ns_idx + 1 == st.ns_ids@.len()
            ==> st.filled(fill, FillEvent::WalkEnded, s).0.walk_done,
{
    assert(st.ns_ids.len() == st.ns_ids@.len());
}

proof fn lemma_entry_from(entries: Seq<TierEntry>, from: u64, i: int)
    requires
        0 <= i <= entries.len(),
    ensures
        i <= entry_from(entries, from, i) <= entries.len(),
        entry_from(entries, from, i) < entries.len() ==> entries[entry_from(
            entries,
            from,
            i,
        )].key() >= from,
        forall|k: int| i <= k < entry_from(entries, from, i) ==> (#[trigger] entries[k]).key()
            < from,
    decreases entries.len() - i,
{
    if i < entries.len() && entries[i].key() < from {
        lemma_entry_from(entries, from, i + 1);
    }
}

/// A listing is staged from the cursor on: the first entry at or past it is
/// staged next, no entry at or past it is skipped, and an entry that was
/// staged moves the cursor just past it. A listing with nothing left hands
/// over to the next pass.
pub proof fn law_listing_is_staged_from_the_cursor(
    st: Streaming,
    fill: Fill,
    s: SectionFacts,
    entries: Vec<TierEntry>,
)
    requires
        st.wf(),
        st.suits(fill),
        fill.answered_by(FillEvent::Listed(entries)),
    ensures
        ({
            let next = st.filled(fill, FillEvent::Listed(entries), s);
            &&& next.2 matches FillAction::StageEntry { ns, entry } ==> ns
                == st.ns_ids@[st.ns_idx as int] && entry.key() >= st.cursor && entries@.contains(
                entry,
            ) && next.0.cursor == st.cursor
            &&& (exists|i: int|
                0 <= i < entries@.len() && (#[trigger] entries@[i]).key() >= st.cursor)
                ==> next.2 is StageEntry
            &&& (forall|i: int|
                0 <= i < entries@.len() ==> (#[trigger] entries@[i]).key() < st.cursor)
                ==> next.0.tier_pass == st.tier_pass + 1 && next.0.cursor == 0 && next.2
                !is StageEntry
        }),
{
    lemma_entry_from(entries@, st.cursor, 0);
    let at = entry_from(entries@, st.cursor, 0);
    if at < entries@.len() {
        assert(entries@[at].key() >= st.cursor);
    }
}

/// An entry that was staged moves the cursor just past it.
pub proof fn law_staged_entry_moves_the_cursor(st: Streaming, fill: Fill, s: SectionFacts)
    requires
        st.wf(),
        st.suits(fill),
        fill.asked matches Some(FillAction::StageEntry { .. }),
    ensures
        ({
            let next = st.filled(fill, FillEvent::EntryStaged, s);
            let entry = (fill.asked->0)->entry;
            &&& next.0.cursor == entry.key() + 1 || (next.0.cursor == 0 && next.0.tier_pass
                == st.tier_pass + 1)
            &&& next.0.ns_idx == st.ns_idx
            &&& next.2 matches FillAction::StageEntry { .. } ==> next.0.cursor == entry.key() + 1
                && next.1.taken == fill.taken + 1
        }),
{
}

/// Nothing is written but what was sealed: the write carries the lease that
/// was handed over, under the next sequence number, and is the one in flight
/// from then on. The footer counts as staged only when it is what was sealed,
/// and the slice's bytes are counted as streamed.
pub proof fn law_write_carries_what_was_sealed(
    st: Streaming,
    fill: Fill,
    s: SectionFacts,
    lease: SectionLease,
)
    requires
        st.wf(),
        st.counts_fit(),
        st.suits(fill),
        fill.asked matches Some(FillAction::Seal(_)),
    ensures
        ({
            let next = st.filled(fill, FillEvent::Sealed(lease), s);
            &&& next.2 matches FillAction::Write { seq, lease: written, units } && written == lease
                && seq == st.write_seq + 1
            &&& next.0.write_seq == st.write_seq + 1
            &&& next.0.in_flight == Some(lease)
            &&& next.0.footer_staged <==> fill.asked == Some(FillAction::Seal(Block::Footer))
            &&& next.0.streamed_bytes == st.streamed_bytes + fill.emitted
            &&& next.0.ns_idx == st.ns_idx
            &&& next.0.cursor == st.cursor
        }),
{
}

/// A block is sealed only when it was admitted, and it is the block that was
/// offered; a block that was not admitted ends the slice with nothing sealed.
pub proof fn law_admission_gates_the_seal(st: Streaming, fill: Fill, s: SectionFacts, block: Block)
    requires
        fill.asked == Some(FillAction::Admit(block)),
    ensures
        st.filled(fill, FillEvent::Admitted(true), s).2 == FillAction::Seal(block),
        st.filled(fill, FillEvent::Admitted(true), s).0 == st,
        st.filled(fill, FillEvent::Admitted(false), s).2 is Done,
        st.filled(fill, FillEvent::Admitted(false), s).0.footer_staged == st.footer_staged,
        st.filled(fill, FillEvent::Admitted(false), s).0.in_flight == st.in_flight,
{
}

/// What a settled slice offers: a section that is full, or that has to be
/// sealed and can be; the footer once all is walked and nothing is left to
/// seal; and else nothing.
pub proof fn law_what_is_offered(st: Streaming, fill: Fill, s: SectionFacts)
    ensures
        s.full ==> st.settles(fill, s).2 == FillAction::Admit(Block::Section),
        fill.force_seal && s.can_seal ==> st.settles(fill, s).2 == FillAction::Admit(
            Block::Section,
        ),
        st.walk_done && st.sidecar_done && s.can_seal ==> st.settles(fill, s).2
            == FillAction::Admit(Block::Section),
        st.walk_done && st.sidecar_done && !s.full && !s.can_seal ==> st.settles(fill, s).2
            == FillAction::Admit(Block::Footer),
        !s.full && !(st.walk_done && st.sidecar_done) && !(fill.force_seal && s.can_seal)
            ==> st.settles(fill, s).2 is Done,
{
}

/// The sidecars go through the plan one index after the other: an index that
/// is eligible is pulled from where it stands, a full chunk goes on from the
/// place it reported, a short one ends that index, with the number of its
/// pairs, and one that is not eligible is passed over.
pub proof fn law_sidecars_follow_the_plan(
    st: Streaming,
    fill: Fill,
    s: SectionFacts,
    meta: IdxSidecarMeta,
    pairs: u32,
    at: Option<u64>,
)
    requires
        st.wf(),
        st.suits(fill),
        st.sidecar_target() == Some(meta),
    ensures
        fill.asked == Some(FillAction::CheckIndex(meta)) ==> st.filled(
            fill,
            FillEvent::Judged { eligible: true },
            s,
        ).2 == (FillAction::Pull { meta, cursor: st.sidecar_cursor, limit: 256 }),
        fill.asked == Some(FillAction::CheckIndex(meta)) ==> st.filled(
            fill,
            FillEvent::Judged { eligible: false },
            s,
        ).0.sidecar_at == st.sidecar_at + 1,
        (fill.asked matches Some(FillAction::Pull { .. })) && pairs < 256 ==> ({
            let next = st.filled(fill, FillEvent::Pulled { pairs, next: at }, s);
            &&& next.2 == (FillAction::StageFinal { meta, pairs: st.sidecar_emitted })
            &&& next.0.sidecar_at == st.sidecar_at + 1
            &&& next.0.sidecar_cursor is None
            &&& next.0.sidecar_emitted == 0
        }),
        (fill.asked matches Some(FillAction::Pull { .. })) && pairs >= 256 ==> ({
            let next = st.filled(fill, FillEvent::Pulled { pairs, next: at }, s);
            &&& next.0.sidecar_at == st.sidecar_at
            &&& next.0.sidecar_cursor == at
            &&& next.0.sidecar_emitted == st.sidecar_emitted
        }),
{
    if let Some(plan) = st.sidecar_plan {
        assert(plan.len() == plan@.len());
    }
}

/// A plan is taken as it was made, and gone through from its first index.
pub proof fn law_plan_is_taken_whole(
    st: Streaming,
    fill: Fill,
    s: SectionFacts,
    plan: Vec<IdxSidecarMeta>,
)
    requires
        st.wf(),
        st.suits(fill),
        fill.asked == Some(FillAction::Plan),
    ensures
        ({
            let next = st.filled(fill, FillEvent::Planned(plan), s);
            &&& next.0.sidecar_plan == Some(plan)
            &&& next.0.sidecar_at == 0
            &&& plan@.len() > 0 && section_takes(s.pending, plan@[0]) ==> next.2
                == FillAction::CheckIndex(plan@[0])
        }),
{
}

/// The charge of a slice: its kibibytes, rounded up, and never nothing. What a
/// slice emits is counted until the counter is full.
pub proof fn law_charge_is_in_kibibytes(emitted: u32, bytes: nat)
    ensures
        units_for(emitted) >= 1,
        emitted > 0 ==> units_for(emitted) * 1024 >= emitted && (units_for(emitted) - 1) * 1024
            < emitted,
        emitted == 0 ==> units_for(emitted) == 1,
        emitted + bytes <= 0xffff_ffff ==> grown(emitted, bytes as int) == emitted + bytes,
        emitted + bytes > 0xffff_ffff ==> grown(emitted, bytes as int) == 0xffff_ffff,
{
}

/// A pair of an index sidecar is sixteen bytes with a fixed key, and else its
/// key behind a two-byte length, with eight bytes more.
pub proof fn law_pair_bytes(key_len: u16)
    ensures
        pair_bytes(true, key_len) == 16,
        pair_bytes(false, key_len) == key_len + 10,
{
}

/// The stream is paced only where there is no device model, a rate is set and
/// there is still something to walk; and there it holds exactly while what it
/// streamed is not below the rate for the time since it opened, a millisecond
/// at least.
pub proof fn law_pace_follows_the_clock(st: Streaming, absent: bool, rate: u32, now: u64, ms: u64)
    requires
        now >= st.opened_at,
        ms * 1_000_000 <= now - st.opened_at < ms * 1_000_000 + 1_000_000,
    ensures
        !absent || rate == 0 || (st.walk_done && st.sidecar_done) ==> !st.paced_out(
            absent,
            rate,
            now,
        ),
        absent && rate > 0 && !(st.walk_done && st.sidecar_done) && ms >= 1 ==> (st.paced_out(
            absent,
            rate,
            now,
        ) <==> (st.streamed_bytes + 1) * 1000 > rate * ms),
        absent && rate > 0 && !(st.walk_done && st.sidecar_done) && ms == 0 ==> (st.paced_out(
            absent,
            rate,
            now,
        ) <==> (st.streamed_bytes + 1) * 1000 > rate),
{
    assert(((now - st.opened_at) / 1_000_000) == ms);
    let budget = rate * (if ms < 1 {
        1
    } else {
        ms as int
    });
    assert(st.streamed_bytes >= budget / 1000 <==> (st.streamed_bytes + 1) * 1000 > budget);
}

/// A slice that ends counts what it emitted as streamed, charges for it, and
/// leaves the walk where it stands.
pub proof fn law_slice_that_ends_is_counted(st: Streaming, fill: Fill)
    requires
        st.pace_fits(),
    ensures
        st.closes(fill).2 == (FillAction::Done { units: units_for(fill.emitted) }),
        st.closes(fill).0.streamed_bytes == st.streamed_bytes + fill.emitted,
        st.closes(fill).0.ns_idx == st.ns_idx,
        st.closes(fill).0.cursor == st.cursor,
        st.closes(fill).0.footer_staged == st.footer_staged,
        st.closes(fill).0.in_flight == st.in_flight,
{
}

/// A staged reference is counted with its twenty-four bytes, as is a staged
/// entry.
pub proof fn law_staged_references_are_counted(
    st: Streaming,
    fill: Fill,
    s: SectionFacts,
    refs: u32,
    at: u64,
)
    requires
        fill.emitted + refs * 24 <= 0xffff_ffff,
        fill.emitted + 24 <= 0xffff_ffff,
    ensures
        st.filled(fill, FillEvent::RefsStaged { refs, next: at }, s).1.emitted == fill.emitted
            + refs * 24,
        st.filled(fill, FillEvent::EntryStaged, s).1.emitted == fill.emitted + 24,
{
}

/// A namespace that was found is worked on where it stands: a plain one is
/// scanned, a tiered one takes its pass, and one that is gone is left behind.
pub proof fn law_found_namespace_is_worked_on(
    st: Streaming,
    fill: Fill,
    s: SectionFacts,
    pinned: bool,
)
    requires
        st.wf(),
        st.suits(fill),
        fill.asked matches Some(FillAction::Find(_)),
    ensures
        st.filled(fill, FillEvent::Found(NsKind::Plain), s).2 == (FillAction::Scan {
            ns: st.ns_ids@[st.ns_idx as int],
            cursor: st.cursor,
            resume: st.resume,
            limit: 32,
        }),
        st.filled(fill, FillEvent::Found(NsKind::Plain), s).0 == st,
        !(st.cursor == 0 && st.resume is None && s.can_seal) ==> st.filled(
            fill,
            FillEvent::Found(NsKind::Tiered { pinned }),
            s,
        ).2 == st.tier_action(pinned),
        st.filled(fill, FillEvent::Found(NsKind::Gone), s).0.ns_idx == st.ns_idx + 1,
        st.filled(fill, FillEvent::Found(NsKind::TierGone), s).0.ns_idx == st.ns_idx + 1,
        st.filled(fill, FillEvent::Found(NsKind::TierGone), s).0.tier_pass == 0,
        st.ns_idx + 1 == st.ns_ids@.len() ==> st.filled(
            fill,
            FillEvent::Found(NsKind::TierGone),
            s,
        ).0.walk_done,
        s.full ==> !st.filled(fill, FillEvent::Found(NsKind::Gone), s).0.walk_done,
        st.filled(fill, FillEvent::Found(NsKind::Gone), s).0.tier_pass == st.tier_pass,
{
    assert(st.ns_ids.len() == st.ns_ids@.len());
}

/// A scan that came to its end leaves its namespace, and the last one ends the
/// walk.
pub proof fn law_finished_scan_leaves_its_namespace(
    st: Streaming,
    fill: Fill,
    s: SectionFacts,
    group: u64,
    chain: Option<u64>,
)
    requires
        st.wf(),
        st.suits(fill),
        fill.asked matches Some(FillAction::Scan { .. }),
    ensures
        ({
            let next = st.filled(fill, FillEvent::Scanned { done: true, group, chain }, s).0;
            &&& next.ns_idx == st.ns_idx + 1
            &&& next.cursor == 0
            &&& next.resume is None
            &&& st.ns_idx + 1 == st.ns_ids@.len() ==> next.walk_done
            &&& st.ns_idx + 1 < st.ns_ids@.len() ==> !next.walk_done
        }),
{
    assert(st.ns_ids.len() == st.ns_ids@.len());
}

/// The entries of a listing are staged in their order: behind one that was
/// staged comes the next at or past the place the pass started from, and none
/// between them is skipped. The pass goes on while the slice, the section and
/// the chunk of 256 have room.
pub proof fn law_entries_are_staged_in_order(st: Streaming, fill: Fill, s: SectionFacts)
    requires
        st.wf(),
        st.suits(fill),
        fill.asked matches Some(FillAction::StageEntry { .. }),
        fill.emitted + 24 < fill.slice_cap,
        !s.full,
    ensures
        ({
            let next = st.filled(fill, FillEvent::EntryStaged, s);
            let entries = fill.entries@;
            &&& next.2 matches FillAction::StageEntry { entry, .. } ==> {
                &&& fill.entry < next.1.entry < entries.len()
                &&& entry == entries[next.1.entry as int]
                &&& entry.key() >= fill.from
                &&& forall|j: int|
                    fill.entry < j < next.1.entry ==> (#[trigger] entries[j]).key() < fill.from
            }
            &&& fill.taken + 1 < 256 && (exists|j: int|
                fill.entry < j < entries.len() && (#[trigger] entries[j]).key() >= fill.from)
                ==> next.2 is StageEntry
        }),
{
    assert(fill.entries.len() == fill.entries@.len());
    lemma_entry_from(fill.entries@, fill.from, fill.entry + 1);
}

} // verus!
