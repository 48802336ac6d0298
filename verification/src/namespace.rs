//! Namespaces: what one is declared with, and the catalog of them.

use vstd::prelude::*;
use crate::text;

verus! {

/// Numbered databases of a node.
pub const DEFAULT_DBS: usize = 16;

/// The first id of a named namespace.
pub const FIRST_NAMED_NS_ID: u32 = 16;

/// What a namespace keeps its data in.
#[derive(Copy, Clone, Debug, PartialEq, Eq, Structural)]
pub enum NsMode {
    Memory,
    Durable,
    Topic,
}

impl NsMode {
    /// The mode's name.
    pub open spec fn label(self) -> Seq<char> {
        match self {
            NsMode::Memory => "memory"@,
            NsMode::Durable => "durable"@,
            NsMode::Topic => "topic"@,
        }
    }

    /// The mode of a name.
    pub open spec fn named(name: Seq<char>) -> Option<NsMode> {
        if name == "memory"@ {
            Some(NsMode::Memory)
        } else if name == "durable"@ {
            Some(NsMode::Durable)
        } else if name == "topic"@ {
            Some(NsMode::Topic)
        } else {
            None
        }
    }

    /// The mode's name.
    pub fn name(self) -> (r: &'static str)
        ensures
            r@ == self.label(),
    {
        match self {
            NsMode::Memory => "memory",
            NsMode::Durable => "durable",
            NsMode::Topic => "topic",
        }
    }

    /// The mode of a name.
    pub fn parse(name: &str) -> (r: Option<NsMode>)
        ensures
            r == NsMode::named(name@),
    {
        if text::same_str(name, "memory") {
            Some(NsMode::Memory)
        } else if text::same_str(name, "durable") {
            Some(NsMode::Durable)
        } else if text::same_str(name, "topic") {
            Some(NsMode::Topic)
        } else {
            None
        }
    }
}

/// When a durable namespace's writes are synced.
#[derive(Copy, Clone, Debug, PartialEq, Eq, Structural)]
pub enum FsyncClass {
    Everysec,
    Always,
}

/// What a full namespace evicts.
#[derive(Copy, Clone, Debug, PartialEq, Eq, Structural)]
pub enum EvictionPolicy {
    NoEviction,
    AllKeysLru,
    VolatileLru,
    AllKeysRandom,
    VolatileRandom,
    VolatileTtl,
    AllKeysLfu,
    VolatileLfu,
}

impl EvictionPolicy {
    /// The policy's name.
    pub open spec fn label(self) -> Seq<char> {
        match self {
            EvictionPolicy::NoEviction => "noeviction"@,
            EvictionPolicy::AllKeysLru => "allkeys-lru"@,
            EvictionPolicy::VolatileLru => "volatile-lru"@,
            EvictionPolicy::AllKeysRandom => "allkeys-random"@,
            EvictionPolicy::VolatileRandom => "volatile-random"@,
            EvictionPolicy::VolatileTtl => "volatile-ttl"@,
            EvictionPolicy::AllKeysLfu => "allkeys-lfu"@,
            EvictionPolicy::VolatileLfu => "volatile-lfu"@,
        }
    }

    /// The policy of a name.
    pub open spec fn named(name: Seq<char>) -> Option<EvictionPolicy> {
        if name == "noeviction"@ {
            Some(EvictionPolicy::NoEviction)
        } else if name == "allkeys-lru"@ {
            Some(EvictionPolicy::AllKeysLru)
        } else if name == "volatile-lru"@ {
            Some(EvictionPolicy::VolatileLru)
        } else if name == "allkeys-random"@ {
            Some(EvictionPolicy::AllKeysRandom)
        } else if name == "volatile-random"@ {
            Some(EvictionPolicy::VolatileRandom)
        } else if name == "volatile-ttl"@ {
            Some(EvictionPolicy::VolatileTtl)
        } else if name == "allkeys-lfu"@ {
            Some(EvictionPolicy::AllKeysLfu)
        } else if name == "volatile-lfu"@ {
            Some(EvictionPolicy::VolatileLfu)
        } else {
            None
        }
    }

    /// The policy's name.
    pub fn name(self) -> (r: &'static str)
        ensures
            r@ == self.label(),
    {
        match self {
            EvictionPolicy::NoEviction => "noeviction",
            EvictionPolicy::AllKeysLru => "allkeys-lru",
            EvictionPolicy::VolatileLru => "volatile-lru",
            EvictionPolicy::AllKeysRandom => "allkeys-random",
            EvictionPolicy::VolatileRandom => "volatile-random",
            EvictionPolicy::VolatileTtl => "volatile-ttl",
            EvictionPolicy::AllKeysLfu => "allkeys-lfu",
            EvictionPolicy::VolatileLfu => "volatile-lfu",
        }
    }

    /// The policy of a name.
    pub fn parse(name: &str) -> (r: Option<EvictionPolicy>)
        ensures
            r == EvictionPolicy::named(name@),
    {
        if text::same_str(name, "noeviction") {
            Some(EvictionPolicy::NoEviction)
        } else if text::same_str(name, "allkeys-lru") {
            Some(EvictionPolicy::AllKeysLru)
        } else if text::same_str(name, "volatile-lru") {
            Some(EvictionPolicy::VolatileLru)
        } else if text::same_str(name, "allkeys-random") {
            Some(EvictionPolicy::AllKeysRandom)
        } else if text::same_str(name, "volatile-random") {
            Some(EvictionPolicy::VolatileRandom)
        } else if text::same_str(name, "volatile-ttl") {
            Some(EvictionPolicy::VolatileTtl)
        } else if text::same_str(name, "allkeys-lfu") {
            Some(EvictionPolicy::AllKeysLfu)
        } else if text::same_str(name, "volatile-lfu") {
            Some(EvictionPolicy::VolatileLfu)
        } else {
            None
        }
    }
}

/// How tier files are accessed.
#[derive(Copy, Clone, Debug, PartialEq, Eq, Structural)]
pub enum TierIoMode {
    Direct,
    Buffered,
}

/// How a tiered namespace splits its data between memory and disk.
#[derive(Copy, Clone, Debug, PartialEq, Eq, Structural)]
pub struct TierSpec {
    pub mem_budget_bytes: u64,
    pub disk_budget_bytes: u64,
    pub mutable_permille: u32,
    pub maintain_slice_bytes: u64,
    pub cold_read_qd: u16,
    pub compaction_dead_ratio_pct: u8,
    pub compaction_slice_bytes: u64,
    pub blob_threshold_bytes: u32,
    pub tier_io_mode: TierIoMode,
    pub tail_stall_timeout_ms: u32,
}

/// A declared namespace.
#[derive(Debug)]
pub struct NsSpec {
    pub id: u32,
    pub name: Vec<u8>,
    pub mode: NsMode,
    pub fsync: Option<FsyncClass>,
    pub policy: Option<EvictionPolicy>,
    pub maxmemory: Option<u64>,
    pub tier: Option<TierSpec>,
}

/// The model of a declared namespace.
pub struct Ns {
    pub id: u32,
    pub name: Seq<u8>,
    pub mode: NsMode,
    pub fsync: Option<FsyncClass>,
    pub policy: Option<EvictionPolicy>,
    pub maxmemory: Option<u64>,
    pub tier: Option<TierSpec>,
}

impl View for NsSpec {
    type V = Ns;

    open spec fn view(&self) -> Ns {
        Ns {
            id: self.id,
            name: self.name@,
            mode: self.mode,
            fsync: self.fsync,
            policy: self.policy,
            maxmemory: self.maxmemory,
            tier: self.tier,
        }
    }
}

impl NsSpec {
    /// A copy.
    pub fn copied(&self) -> (r: NsSpec)
        ensures
            r@ == self@,
    {
        NsSpec {
            id: self.id,
            name: text::copy_bytes(self.name.as_slice()),
            mode: self.mode,
            fsync: self.fsync,
            policy: self.policy,
            maxmemory: self.maxmemory,
            tier: self.tier,
        }
    }
}

/// The models of declared namespaces.
pub open spec fn ns_views(specs: Seq<NsSpec>) -> Seq<Ns> {
    specs.map_values(|s: NsSpec| s@)
}

/// A parsed declaration, before it has an id.
#[derive(Debug)]
pub struct NsSpecDraft {
    pub name: Vec<u8>,
    pub mode: NsMode,
    pub fsync: Option<FsyncClass>,
    pub policy: Option<EvictionPolicy>,
    pub maxmemory: Option<u64>,
    pub tier: Option<TierSpec>,
}

impl NsSpecDraft {
    /// The declaration under an id.
    pub fn with_id(self, id: u32) -> (r: NsSpec)
        ensures
            r == (NsSpec {
                id,
                name: self.name,
                mode: self.mode,
                fsync: self.fsync,
                policy: self.policy,
                maxmemory: self.maxmemory,
                tier: self.tier,
            }),
    {
        NsSpec {
            id,
            name: self.name,
            mode: self.mode,
            fsync: self.fsync,
            policy: self.policy,
            maxmemory: self.maxmemory,
            tier: self.tier,
        }
    }
}

/// The index allocators a catalog carries.
#[derive(Copy, Clone, Debug, PartialEq, Eq, Structural)]
pub struct IndexCatalog {
    pub next_id: u32,
    pub next_generation: u64,
}

/// The catalog of named namespaces: the allocators, the live entries and the
/// ids of dropped ones.
#[derive(Debug)]
pub struct NsCatalog {
    pub next_id: u32,
    pub entries: Vec<NsSpec>,
    pub index: IndexCatalog,
    pub dropped: Vec<u32>,
}

/// Why a namespace operation was refused.
#[derive(Debug)]
pub enum NsError {
    Exists,
    Unknown,
    ModeNotSupported(NsMode),
    DefaultImmutable,
    InvalidName,
    FsyncRequiresDurable,
    EvictionNotAllowedDurable,
    MaxmemoryNotAllowedTiered,
    PressureKeysNotHotDurable,
    TierRequiresDurable,
    InvalidTierConfig(String),
    TierVaLimitExceeded { requested_bytes: u64, admitted_bytes: u64, limit_bytes: u64 },
    NotTiered,
}

impl NsError {
    /// The text of the error.
    pub open spec fn message_text(&self) -> Seq<char> {
        match *self {
            NsError::Exists => "ERR namespace already exists"@,
            NsError::Unknown => "ERR namespace not found"@,
            NsError::ModeNotSupported(mode) => "ERR namespace mode '"@ + mode.label() + "' is not yet supported (topic namespaces arrive with M5)"@,
            NsError::DefaultImmutable => "ERR db0..db15 are reserved default namespaces (SELECT)"@,
            NsError::InvalidName => "ERR invalid namespace name (1..128 bytes of [a-zA-Z0-9_.-])"@,
            NsError::FsyncRequiresDurable => "ERR FSYNC applies to MODE durable namespaces only"@,
            NsError::EvictionNotAllowedDurable => "ERR durable namespaces do not evict (M2, ADR-0015); EVICTION applies to MODE memory"@,
            NsError::MaxmemoryNotAllowedTiered => "ERR MAXMEMORY/EVICTION do not apply to tiered namespaces — MEM-BUDGET is their one budget authority (ADR-0062/ADR-0068)"@,
            NsError::PressureKeysNotHotDurable => "ERR durable namespaces do not evict (ADR-0015 D5/ADR-0068) — MAXMEMORY/EVICTION hot-reload applies to MODE memory namespaces"@,
            NsError::TierRequiresDurable => "ERR tiering keys (MEM-BUDGET ...) apply to MODE durable namespaces only (ADR-0062)"@,
            NsError::InvalidTierConfig(reason) => "ERR "@ + reason@,
            NsError::TierVaLimitExceeded { requested_bytes, admitted_bytes, limit_bytes } => "ERR tiered namespace would exceed the node's reserved-VA limit (requested "@ + text::dec_chars(requested_bytes as nat) + ", admitted "@ + text::dec_chars(admitted_bytes as nat) + ", limit "@ + text::dec_chars(limit_bytes as nat) + " bytes per cell — CONFIG SET tiered-reserved-va-limit, ADR-0062 D4)"@,
            NsError::NotTiered => "ERR not a tiered namespace — tiering is set at CREATE with MEM-BUDGET (drop and recreate to add it, ADR-0062 D3)"@,
        }
    }

    /// The text of the error.
    pub fn message(&self) -> (r: String)
        ensures
            r@ == self.message_text(),
    {
        match self {
            NsError::Exists => text::owned("ERR namespace already exists"),
            NsError::Unknown => text::owned("ERR namespace not found"),
            NsError::ModeNotSupported(mode) => {
                let mut out = text::owned("ERR namespace mode '");
                out.append(mode.name());
                out.append("' is not yet supported (topic namespaces arrive with M5)");
                out
            },
            NsError::DefaultImmutable => text::owned("ERR db0..db15 are reserved default namespaces (SELECT)"),
            NsError::InvalidName => text::owned("ERR invalid namespace name (1..128 bytes of [a-zA-Z0-9_.-])"),
            NsError::FsyncRequiresDurable => text::owned("ERR FSYNC applies to MODE durable namespaces only"),
            NsError::EvictionNotAllowedDurable => text::owned("ERR durable namespaces do not evict (M2, ADR-0015); EVICTION applies to MODE memory"),
            NsError::MaxmemoryNotAllowedTiered => text::owned("ERR MAXMEMORY/EVICTION do not apply to tiered namespaces — MEM-BUDGET is their one budget authority (ADR-0062/ADR-0068)"),
            NsError::PressureKeysNotHotDurable => text::owned("ERR durable namespaces do not evict (ADR-0015 D5/ADR-0068) — MAXMEMORY/EVICTION hot-reload applies to MODE memory namespaces"),
            NsError::TierRequiresDurable => text::owned("ERR tiering keys (MEM-BUDGET ...) apply to MODE durable namespaces only (ADR-0062)"),
            NsError::InvalidTierConfig(reason) => {
                let mut out = text::owned("ERR ");
                out.append(reason.as_str());
                out
            },
            NsError::TierVaLimitExceeded { requested_bytes, admitted_bytes, limit_bytes } => {
                let mut out = text::owned("ERR tiered namespace would exceed the node's reserved-VA limit (requested ");
                text::append_dec(&mut out, *requested_bytes as u64);
                out.append(", admitted ");
                text::append_dec(&mut out, *admitted_bytes as u64);
                out.append(", limit ");
                text::append_dec(&mut out, *limit_bytes as u64);
                out.append(" bytes per cell — CONFIG SET tiered-reserved-va-limit, ADR-0062 D4)");
                out
            },
            NsError::NotTiered => text::owned("ERR not a tiered namespace — tiering is set at CREATE with MEM-BUDGET (drop and recreate to add it, ADR-0062 D3)"),
        }
    }
}

/// The modes go by their names: `memory`, `durable` and `topic`, each name for
/// one mode, and a mode is read back from the name it is shown under.
pub proof fn law_mode_names_round_trip(mode: NsMode, name: Seq<char>)
    ensures
        NsMode::named(mode.label()) == Some(mode),
        NsMode::named(name) matches Some(m) ==> m.label() == name,
        NsMode::named("memory"@) == Some(NsMode::Memory),
        NsMode::named("durable"@) == Some(NsMode::Durable),
        NsMode::named("topic"@) == Some(NsMode::Topic),
{
    reveal_strlit("memory");
    reveal_strlit("durable");
    reveal_strlit("topic");
    assert("memory"@[0] == 'm' && "durable"@[0] == 'd' && "topic"@[0] == 't');
}

/// The eviction policies go by their names: who may be evicted, every key or
/// those with an expiry, and by which order. A policy is read back from the
/// name it is shown under.
pub proof fn law_policy_names_round_trip(policy: EvictionPolicy, name: Seq<char>)
    ensures
        EvictionPolicy::named(policy.label()) == Some(policy),
        EvictionPolicy::named(name) matches Some(p) ==> p.label() == name,
        EvictionPolicy::named("noeviction"@) == Some(EvictionPolicy::NoEviction),
        EvictionPolicy::named("allkeys-lru"@) == Some(EvictionPolicy::AllKeysLru),
        EvictionPolicy::named("volatile-lru"@) == Some(EvictionPolicy::VolatileLru),
        EvictionPolicy::named("allkeys-random"@) == Some(EvictionPolicy::AllKeysRandom),
        EvictionPolicy::named("volatile-random"@) == Some(EvictionPolicy::VolatileRandom),
        EvictionPolicy::named("volatile-ttl"@) == Some(EvictionPolicy::VolatileTtl),
        EvictionPolicy::named("allkeys-lfu"@) == Some(EvictionPolicy::AllKeysLfu),
        EvictionPolicy::named("volatile-lfu"@) == Some(EvictionPolicy::VolatileLfu),
{
    reveal_strlit("noeviction");
    reveal_strlit("allkeys-lru");
    reveal_strlit("volatile-lru");
    reveal_strlit("allkeys-random");
    reveal_strlit("volatile-random");
    reveal_strlit("volatile-ttl");
    reveal_strlit("allkeys-lfu");
    reveal_strlit("volatile-lfu");
    assert("noeviction"@.len() == 10);
    assert("allkeys-lru"@.len() == 11 && "allkeys-lru"@[9] == 'r');
    assert("allkeys-lfu"@.len() == 11 && "allkeys-lfu"@[9] == 'f');
    assert("volatile-lru"@.len() == 12 && "volatile-lru"@[9] == 'l' && "volatile-lru"@[10] == 'r');
    assert("volatile-lfu"@.len() == 12 && "volatile-lfu"@[9] == 'l' && "volatile-lfu"@[10] == 'f');
    assert("volatile-ttl"@.len() == 12 && "volatile-ttl"@[9] == 't');
    assert("allkeys-random"@.len() == 14);
    assert("volatile-random"@.len() == 15);
}

} // verus!
