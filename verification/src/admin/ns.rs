//! `INF.NS`: the namespace registry's command surface.

use vstd::prelude::*;
use crate::admin::resp;
use crate::admin::resp::{Protocol, RespWriter};
use crate::admin::sections;
use crate::admin::settings;
use crate::config;
use crate::config::ConfigStore;
use crate::namespace;
use crate::namespace::{
    EvictionPolicy, FsyncClass, NsError, NsMode, NsSpec, NsSpecDraft, TierIoMode, TierSpec,
    DEFAULT_DBS, FIRST_NAMED_NS_ID,
};
use crate::text;

verus! {

// ---- option values ----

/// A byte size with its memory unit.
pub open spec fn memory_value(value: Seq<u8>) -> Option<u64> {
    match text::decoded(value) {
        Some(s) => config::memory_of(s),
        None => None,
    }
}

fn memory(value: &[u8]) -> (r: Option<u64>)
    ensures
        r == memory_value(value@),
{
    match text::as_text(value) {
        Some(s) => config::parse_memory(s),
        None => None,
    }
}

/// A plain number.
pub open spec fn number_value(value: Seq<u8>) -> Option<u64> {
    match text::decoded(value) {
        Some(s) => text::as_u64(text::unsigned_number(text::utf8(s))),
        None => None,
    }
}

fn number(value: &[u8]) -> (r: Option<u64>)
    ensures
        r == number_value(value@),
{
    match text::as_text(value) {
        Some(s) => text::parse_u64(s.as_bytes()),
        None => None,
    }
}

/// A namespace mode, in any case.
pub open spec fn mode_value(value: Seq<u8>) -> Option<NsMode> {
    match text::decoded(value) {
        Some(s) => NsMode::named(text::lowercase(s)),
        None => None,
    }
}

fn mode(value: &[u8]) -> (r: Option<NsMode>)
    ensures
        r == mode_value(value@),
{
    match text::as_text(value) {
        Some(s) => NsMode::parse(text::lowercase_string(s).as_str()),
        None => None,
    }
}

/// An eviction policy, in any case.
pub open spec fn policy_value(value: Seq<u8>) -> Option<EvictionPolicy> {
    match text::decoded(value) {
        Some(s) => EvictionPolicy::named(text::lowercase(s)),
        None => None,
    }
}

fn policy(value: &[u8]) -> (r: Option<EvictionPolicy>)
    ensures
        r == policy_value(value@),
{
    match text::as_text(value) {
        Some(s) => EvictionPolicy::parse(text::lowercase_string(s).as_str()),
        None => None,
    }
}

// ---- tier keys ----

/// What an option is to the tier.
pub enum TierKey {
    /// No tier key.
    Other,
    /// The tier with the key applied, and whether the key was the budget.
    Applied(TierSpec, bool),
    /// The value was refused.
    Refused(Seq<char>),
}

/// One option applied onto an accumulating tier, which starts from
/// `defaults`.
pub open spec fn tier_key(
    tier: Option<TierSpec>,
    defaults: TierSpec,
    opt: Seq<u8>,
    value: Seq<u8>,
) -> TierKey {
    let spec = match tier {
        Some(t) => t,
        None => defaults,
    };
    if text::is_word(opt, "MEM-BUDGET"@) {
        match memory_value(value) {
            Some(n) => TierKey::Applied(TierSpec { mem_budget_bytes: n, ..spec }, true),
            None => TierKey::Refused("ERR invalid MEM-BUDGET value"@),
        }
    } else if text::is_word(opt, "DISK-BUDGET"@) {
        match memory_value(value) {
            Some(n) => TierKey::Applied(TierSpec { disk_budget_bytes: n, ..spec }, false),
            None => TierKey::Refused("ERR invalid DISK-BUDGET value"@),
        }
    } else if text::is_word(opt, "MUTABLE-FRACTION"@) {
        match number_value(value) {
            Some(n) => if n <= u32::MAX {
                TierKey::Applied(TierSpec { mutable_permille: n as u32, ..spec }, false)
            } else {
                TierKey::Refused("ERR invalid MUTABLE-FRACTION value"@)
            },
            None => TierKey::Refused("ERR invalid MUTABLE-FRACTION value"@),
        }
    } else if text::is_word(opt, "MAINTAIN-SLICE"@) {
        match memory_value(value) {
            Some(n) => TierKey::Applied(TierSpec { maintain_slice_bytes: n, ..spec }, false),
            None => TierKey::Refused("ERR invalid MAINTAIN-SLICE value"@),
        }
    } else if text::is_word(opt, "COLD-READ-QD"@) {
        match number_value(value) {
            Some(n) => if n <= u16::MAX {
                TierKey::Applied(TierSpec { cold_read_qd: n as u16, ..spec }, false)
            } else {
                TierKey::Refused("ERR invalid COLD-READ-QD value"@)
            },
            None => TierKey::Refused("ERR invalid COLD-READ-QD value"@),
        }
    } else if text::is_word(opt, "COMPACTION-DEAD-RATIO"@) {
        match number_value(value) {
            Some(n) => if n <= u8::MAX {
                TierKey::Applied(TierSpec { compaction_dead_ratio_pct: n as u8, ..spec }, false)
            } else {
                TierKey::Refused("ERR invalid COMPACTION-DEAD-RATIO value"@)
            },
            None => TierKey::Refused("ERR invalid COMPACTION-DEAD-RATIO value"@),
        }
    } else if text::is_word(opt, "COMPACTION-SLICE"@) {
        match memory_value(value) {
            Some(n) => TierKey::Applied(TierSpec { compaction_slice_bytes: n, ..spec }, false),
            None => TierKey::Refused("ERR invalid COMPACTION-SLICE value"@),
        }
    } else if text::is_word(opt, "BLOB-THRESHOLD"@) {
        match memory_value(value) {
            Some(n) => if n <= u32::MAX {
                TierKey::Applied(TierSpec { blob_threshold_bytes: n as u32, ..spec }, false)
            } else {
                TierKey::Refused("ERR invalid BLOB-THRESHOLD value"@)
            },
            None => TierKey::Refused("ERR invalid BLOB-THRESHOLD value"@),
        }
    } else if text::is_word(opt, "TIER-IO-MODE"@) {
        if text::is_word(value, "direct"@) {
            TierKey::Applied(TierSpec { tier_io_mode: TierIoMode::Direct, ..spec }, false)
        } else if text::is_word(value, "buffered"@) {
            TierKey::Applied(TierSpec { tier_io_mode: TierIoMode::Buffered, ..spec }, false)
        } else {
            TierKey::Refused("ERR unknown TIER-IO-MODE (direct|buffered)"@)
        }
    } else if text::is_word(opt, "TAIL-STALL-TIMEOUT"@) {
        match number_value(value) {
            Some(n) => if n <= u32::MAX {
                TierKey::Applied(TierSpec { tail_stall_timeout_ms: n as u32, ..spec }, false)
            } else {
                TierKey::Refused("ERR invalid TAIL-STALL-TIMEOUT value"@)
            },
            None => TierKey::Refused("ERR invalid TAIL-STALL-TIMEOUT value"@),
        }
    } else {
        TierKey::Other
    }
}

/// One option applied onto an accumulating tier: `None` where it is no tier
/// key, else the tier and whether the key was the budget.
pub fn parse_tier_key(tier: Option<TierSpec>, defaults: TierSpec, opt: &[u8], value: &[u8]) -> (r:
    Result<Option<(TierSpec, bool)>, String>)
    ensures
        match tier_key(tier, defaults, opt@, value@) {
            TierKey::Other => r == Ok::<Option<(TierSpec, bool)>, String>(None),
            TierKey::Applied(t, b) => r == Ok::<Option<(TierSpec, bool)>, String>(Some((t, b))),
            TierKey::Refused(e) => r matches Err(s) && s@ == e,
        },
{
    let spec = match tier {
        Some(t) => t,
        None => defaults,
    };
    if text::word(opt, "MEM-BUDGET") {
        match memory(value) {
            Some(n) => Ok(Some((TierSpec { mem_budget_bytes: n, ..spec }, true))),
            None => Err(text::owned("ERR invalid MEM-BUDGET value")),
        }
    } else if text::word(opt, "DISK-BUDGET") {
        match memory(value) {
            Some(n) => Ok(Some((TierSpec { disk_budget_bytes: n, ..spec }, false))),
            None => Err(text::owned("ERR invalid DISK-BUDGET value")),
        }
    } else if text::word(opt, "MUTABLE-FRACTION") {
        match number(value) {
            Some(n) => if n <= u32::MAX as u64 {
                Ok(Some((TierSpec { mutable_permille: n as u32, ..spec }, false)))
            } else {
                Err(text::owned("ERR invalid MUTABLE-FRACTION value"))
            },
            None => Err(text::owned("ERR invalid MUTABLE-FRACTION value")),
        }
    } else if text::word(opt, "MAINTAIN-SLICE") {
        match memory(value) {
            Some(n) => Ok(Some((TierSpec { maintain_slice_bytes: n, ..spec }, false))),
            None => Err(text::owned("ERR invalid MAINTAIN-SLICE value")),
        }
    } else if text::word(opt, "COLD-READ-QD") {
        match number(value) {
            Some(n) => if n <= u16::MAX as u64 {
                Ok(Some((TierSpec { cold_read_qd: n as u16, ..spec }, false)))
            } else {
                Err(text::owned("ERR invalid COLD-READ-QD value"))
            },
            None => Err(text::owned("ERR invalid COLD-READ-QD value")),
        }
    } else if text::word(opt, "COMPACTION-DEAD-RATIO") {
        match number(value) {
            Some(n) => if n <= u8::MAX as u64 {
                Ok(Some((TierSpec { compaction_dead_ratio_pct: n as u8, ..spec }, false)))
            } else {
                Err(text::owned("ERR invalid COMPACTION-DEAD-RATIO value"))
            },
            None => Err(text::owned("ERR invalid COMPACTION-DEAD-RATIO value")),
        }
    } else if text::word(opt, "COMPACTION-SLICE") {
        match memory(value) {
            Some(n) => Ok(Some((TierSpec { compaction_slice_bytes: n, ..spec }, false))),
            None => Err(text::owned("ERR invalid COMPACTION-SLICE value")),
        }
    } else if text::word(opt, "BLOB-THRESHOLD") {
        match memory(value) {
            Some(n) => if n <= u32::MAX as u64 {
                Ok(Some((TierSpec { blob_threshold_bytes: n as u32, ..spec }, false)))
            } else {
                Err(text::owned("ERR invalid BLOB-THRESHOLD value"))
            },
            None => Err(text::owned("ERR invalid BLOB-THRESHOLD value")),
        }
    } else if text::word(opt, "TIER-IO-MODE") {
        if text::word(value, "direct") {
            Ok(Some((TierSpec { tier_io_mode: TierIoMode::Direct, ..spec }, false)))
        } else if text::word(value, "buffered") {
            Ok(Some((TierSpec { tier_io_mode: TierIoMode::Buffered, ..spec }, false)))
        } else {
            Err(text::owned("ERR unknown TIER-IO-MODE (direct|buffered)"))
        }
    } else if text::word(opt, "TAIL-STALL-TIMEOUT") {
        match number(value) {
            Some(n) => if n <= u32::MAX as u64 {
                Ok(Some((TierSpec { tail_stall_timeout_ms: n as u32, ..spec }, false)))
            } else {
                Err(text::owned("ERR invalid TAIL-STALL-TIMEOUT value"))
            },
            None => Err(text::owned("ERR invalid TAIL-STALL-TIMEOUT value")),
        }
    } else {
        Ok(None)
    }
}

// ---- CREATE ----

/// The options of a declaration, and whether the tier's budget was given.
#[derive(Copy, Clone, Debug, PartialEq, Eq, Structural)]
pub struct NsOptions {
    pub mode: NsMode,
    pub fsync: Option<FsyncClass>,
    pub policy: Option<EvictionPolicy>,
    pub maxmemory: Option<u64>,
    pub tier: Option<TierSpec>,
    pub saw_budget: bool,
}

/// The options with one more applied.
pub open spec fn option_applied(
    o: NsOptions,
    defaults: TierSpec,
    opt: Seq<u8>,
    value: Seq<u8>,
) -> Result<NsOptions, Seq<char>> {
    if text::is_word(opt, "MODE"@) {
        match mode_value(value) {
            Some(m) => Ok(NsOptions { mode: m, ..o }),
            None => Err("ERR unknown namespace mode (memory|durable|topic)"@),
        }
    } else if text::is_word(opt, "FSYNC"@) {
        if text::is_word(value, "always"@) {
            Ok(NsOptions { fsync: Some(FsyncClass::Always), ..o })
        } else if text::is_word(value, "everysec"@) {
            Ok(NsOptions { fsync: Some(FsyncClass::Everysec), ..o })
        } else {
            Err("ERR unknown FSYNC class (always|everysec)"@)
        }
    } else if text::is_word(opt, "EVICTION"@) {
        match policy_value(value) {
            Some(p) => Ok(NsOptions { policy: Some(p), ..o }),
            None => Err("ERR unknown eviction policy"@),
        }
    } else if text::is_word(opt, "MAXMEMORY"@) {
        match memory_value(value) {
            Some(n) => Ok(NsOptions { maxmemory: Some(n), ..o }),
            None => Err("ERR invalid MAXMEMORY value"@),
        }
    } else {
        match tier_key(o.tier, defaults, opt, value) {
            TierKey::Applied(t, b) => Ok(
                NsOptions { tier: Some(t), saw_budget: o.saw_budget || b, ..o },
            ),
            TierKey::Refused(e) => Err(e),
            TierKey::Other => Err("ERR syntax error"@),
        }
    }
}

fn apply_option(o: NsOptions, defaults: TierSpec, opt: &[u8], value: &[u8]) -> (r: Result<
    NsOptions,
    String,
>)
    ensures
        match option_applied(o, defaults, opt@, value@) {
            Ok(next) => r == Ok::<NsOptions, String>(next),
            Err(e) => r matches Err(s) && s@ == e,
        },
{
    if text::word(opt, "MODE") {
        match mode(value) {
            Some(m) => Ok(NsOptions { mode: m, ..o }),
            None => Err(text::owned("ERR unknown namespace mode (memory|durable|topic)")),
        }
    } else if text::word(opt, "FSYNC") {
        if text::word(value, "always") {
            Ok(NsOptions { fsync: Some(FsyncClass::Always), ..o })
        } else if text::word(value, "everysec") {
            Ok(NsOptions { fsync: Some(FsyncClass::Everysec), ..o })
        } else {
            Err(text::owned("ERR unknown FSYNC class (always|everysec)"))
        }
    } else if text::word(opt, "EVICTION") {
        match policy(value) {
            Some(p) => Ok(NsOptions { policy: Some(p), ..o }),
            None => Err(text::owned("ERR unknown eviction policy")),
        }
    } else if text::word(opt, "MAXMEMORY") {
        match memory(value) {
            Some(n) => Ok(NsOptions { maxmemory: Some(n), ..o }),
            None => Err(text::owned("ERR invalid MAXMEMORY value")),
        }
    } else {
        match parse_tier_key(o.tier, defaults, opt, value) {
            Ok(Some((t, b))) => Ok(
                NsOptions { tier: Some(t), saw_budget: o.saw_budget || b, ..o },
            ),
            Ok(None) => Err(text::owned("ERR syntax error")),
            Err(e) => Err(e),
        }
    }
}

/// The options the arguments from `i` on add.
pub open spec fn options_from(
    argv: Seq<&[u8]>,
    i: int,
    o: NsOptions,
    defaults: TierSpec,
) -> Result<NsOptions, Seq<char>>
    decreases argv.len() - i,
{
    if i >= argv.len() {
        Ok(o)
    } else if i + 1 >= argv.len() {
        Err("ERR syntax error"@)
    } else {
        match option_applied(o, defaults, argv[i]@, argv[i + 1]@) {
            Ok(next) => options_from(argv, i + 2, next, defaults),
            Err(e) => Err(e),
        }
    }
}

/// A declaration without options.
pub open spec fn no_options() -> NsOptions {
    NsOptions {
        mode: NsMode::Memory,
        fsync: None,
        policy: None,
        maxmemory: None,
        tier: None,
        saw_budget: false,
    }
}

/// The options of `INF.NS CREATE name [option value ...]`, or why it is
/// refused. A tier needs its budget.
pub open spec fn create_options(argv: Seq<&[u8]>, defaults: TierSpec) -> Result<
    NsOptions,
    Seq<char>,
> {
    if argv.len() < 3 {
        Err("ERR wrong number of arguments for 'INF.NS|CREATE'"@)
    } else {
        match options_from(argv, 3, no_options(), defaults) {
            Ok(o) => if o.tier is Some && !o.saw_budget {
                Err("ERR tiering keys require MEM-BUDGET (the tiered discriminator — ADR-0062 D1)"@)
            } else {
                Ok(o)
            },
            Err(e) => Err(e),
        }
    }
}

/// The namespace these options declare under a name and an id.
pub open spec fn declared(id: u32, name: Seq<u8>, o: NsOptions) -> namespace::Ns {
    namespace::Ns {
        id,
        name,
        mode: o.mode,
        fsync: o.fsync,
        policy: o.policy,
        maxmemory: o.maxmemory,
        tier: o.tier,
    }
}

/// Parses `INF.NS CREATE name [option value ...]`.
pub fn parse_ns_create(argv: &[&[u8]], defaults: TierSpec) -> (r: Result<NsSpecDraft, String>)
    ensures
        match create_options(argv@, defaults) {
            Ok(o) => r matches Ok(d) && d.name@ == argv@[2]@ && d.mode == o.mode && d.fsync
                == o.fsync && d.policy == o.policy && d.maxmemory == o.maxmemory && d.tier
                == o.tier,
            Err(e) => r matches Err(s) && s@ == e,
        },
        r matches Ok(d) ==> (match given(argv@, 3, "FSYNC"@) {
            Some(value) => d.fsync is Some && text::utf8(fsync_label(d.fsync)) == text::lower_all(
                value,
            ),
            None => d.fsync is None,
        }),
{
    proof {
        law_create_declares_what_was_given(argv@, defaults);
    }
    if argv.len() < 3 {
        return Err(text::owned("ERR wrong number of arguments for 'INF.NS|CREATE'"));
    }
    let mut o = NsOptions {
        mode: NsMode::Memory,
        fsync: None,
        policy: None,
        maxmemory: None,
        tier: None,
        saw_budget: false,
    };
    let mut i: usize = 3;
    while i < argv.len()
        invariant
            3 <= i,
            argv@.len() >= 3,
            i <= argv@.len() + 1,
            options_from(argv@, 3, no_options(), defaults) == options_from(
                argv@,
                i as int,
                o,
                defaults,
            ),
        decreases argv.len() - i,
    {
        if i == argv.len() - 1 {
            return Err(text::owned("ERR syntax error"));
        }
        match apply_option(o, defaults, argv[i], argv[i + 1]) {
            Ok(next) => {
                o = next;
            },
            Err(e) => {
                return Err(e);
            },
        }
        i += 2;
    }
    if o.tier.is_some() && !o.saw_budget {
        return Err(
            text::owned(
                "ERR tiering keys require MEM-BUDGET (the tiered discriminator — ADR-0062 D1)",
            ),
        );
    }
    Ok(
        NsSpecDraft {
            name: text::copy_bytes(argv[2]),
            mode: o.mode,
            fsync: o.fsync,
            policy: o.policy,
            maxmemory: o.maxmemory,
            tier: o.tier,
        },
    )
}

// ---- the registry ----

/// A registered namespace with this cell's counters.
#[derive(Debug)]
pub struct NsEntry {
    pub spec: NsSpec,
    pub keys: u64,
    pub expires: u64,
}

/// The first namespace of a name.
pub open spec fn find_ns(entries: Seq<NsEntry>, name: Seq<u8>, from: int) -> Option<int>
    decreases entries.len() - from,
{
    if from < 0 || from >= entries.len() {
        None
    } else if entries[from].spec.name@ == name {
        Some(from)
    } else {
        find_ns(entries, name, from + 1)
    }
}

fn ns_position(entries: &[NsEntry], name: &[u8]) -> (r: Option<usize>)
    ensures
        match find_ns(entries@, name@, 0) {
            Some(i) => r matches Some(k) && k == i && k < entries@.len(),
            None => r is None,
        },
{
    let mut i: usize = 0;
    while i < entries.len()
        invariant
            i <= entries@.len(),
            find_ns(entries@, name@, 0) == find_ns(entries@, name@, i as int),
        decreases entries.len() - i,
    {
        if text::same_bytes(entries[i].spec.name.as_slice(), name) {
            return Some(i);
        }
        i += 1;
    }
    None
}

/// The database a name `db` and a number below 16 stands for.
pub open spec fn db_index(name: Seq<u8>) -> Option<u16> {
    if name.len() < 2 || name[0] != 100 || name[1] != 98 {
        None
    } else {
        let rest = name.skip(2);
        match number_value(rest) {
            Some(n) => if rest.len() <= 2 && n < DEFAULT_DBS {
                Some(n as u16)
            } else {
                None
            },
            None => None,
        }
    }
}

/// The database a name `db` and a number below 16 stands for.
pub fn default_db_index(name: &[u8]) -> (r: Option<u16>)
    ensures
        r == db_index(name@),
{
    if name.len() < 2 || name[0] != 100 || name[1] != 98 {
        return None;
    }
    let rest = vstd::slice::slice_subrange(name, 2, name.len());
    proof {
        assert(rest@ =~= name@.skip(2));
    }
    match number(rest) {
        Some(n) => if rest.len() <= 2 && n < DEFAULT_DBS as u64 {
            Some(n as u16)
        } else {
            None
        },
        None => None,
    }
}

/// The next id of a node without an allocator: past every registered one,
/// and no lower than the first named one.
pub open spec fn next_id(entries: Seq<NsEntry>) -> int
    decreases entries.len(),
{
    if entries.len() == 0 {
        FIRST_NAMED_NS_ID as int
    } else {
        let rest = next_id(entries.drop_last());
        let own = entries.last().spec.id + 1;
        if own > rest {
            own
        } else {
            rest
        }
    }
}

/// The next id of a node without an allocator.
pub fn next_local_ns_id(entries: &[NsEntry]) -> (r: u32)
    requires
        forall|i: int| 0 <= i < entries@.len() ==> (#[trigger] entries@[i]).spec.id < u32::MAX,
    ensures
        r == next_id(entries@),
{
    let mut next: u32 = FIRST_NAMED_NS_ID;
    let mut i: usize = 0;
    proof {
        assert(entries@.take(0) =~= Seq::empty());
    }
    while i < entries.len()
        invariant
            i <= entries@.len(),
            forall|i: int|
                0 <= i < entries@.len() ==> (#[trigger] entries@[i]).spec.id < u32::MAX,
            next == next_id(entries@.take(i as int)),
        decreases entries.len() - i,
    {
        proof {
            assert(entries@.take(i + 1).drop_last() =~= entries@.take(i as int));
            assert(entries@.take(i + 1).last() == entries@[i as int]);
        }
        let own: u32 = entries[i].spec.id + 1;
        if own > next {
            next = own;
        }
        i += 1;
    }
    proof {
        assert(entries@.take(i as int) =~= entries@);
    }
    next
}

// ---- SET ----

/// What one `INF.NS SET` updates.
#[derive(Copy, Clone, Debug, PartialEq, Eq, Structural)]
pub enum NsSetUpdate {
    Tier(TierSpec),
    /// The final pressure keys of a memory namespace; `None` inherits the
    /// node's.
    MemoryPressure { policy: Option<EvictionPolicy>, maxmemory: Option<u64> },
}

/// Why a key cannot be set on a tiered namespace.
pub open spec fn tier_set_refusal(opt: Seq<u8>) -> Option<Seq<char>> {
    if text::is_word(opt, "TIER-IO-MODE"@) {
        Some(
            "ERR TIER-IO-MODE is create-only (ADR-0062 D3 — drop and recreate to change it)"@,
        )
    } else if text::is_word(opt, "COLD-READ-QD"@) {
        Some(
            "ERR COLD-READ-QD is create-only (ADR-0062 D3 — drop and recreate to change it)"@,
        )
    } else if text::is_word(opt, "MAXMEMORY"@) {
        Some(
            "ERR MAXMEMORY does not apply to tiered namespaces — MEM-BUDGET is their one budget authority (ADR-0062/ADR-0068)"@,
        )
    } else if text::is_word(opt, "EVICTION"@) {
        Some(
            "ERR EVICTION does not apply to tiered namespaces — MEM-BUDGET is their one budget authority (ADR-0062/ADR-0068)"@,
        )
    } else {
        None
    }
}

fn refuse_tier_set(opt: &[u8]) -> (r: Option<&'static str>)
    ensures
        match tier_set_refusal(opt@) {
            Some(e) => r matches Some(s) && s@ == e,
            None => r is None,
        },
{
    if text::word(opt, "TIER-IO-MODE") {
        Some("ERR TIER-IO-MODE is create-only (ADR-0062 D3 — drop and recreate to change it)")
    } else if text::word(opt, "COLD-READ-QD") {
        Some("ERR COLD-READ-QD is create-only (ADR-0062 D3 — drop and recreate to change it)")
    } else if text::word(opt, "MAXMEMORY") {
        Some(
            "ERR MAXMEMORY does not apply to tiered namespaces — MEM-BUDGET is their one budget authority (ADR-0062/ADR-0068)",
        )
    } else if text::word(opt, "EVICTION") {
        Some(
            "ERR EVICTION does not apply to tiered namespaces — MEM-BUDGET is their one budget authority (ADR-0062/ADR-0068)",
        )
    } else {
        None
    }
}

/// The tier once the pairs from argument `i` on are applied.
pub open spec fn tier_from(argv: Seq<&[u8]>, i: int, tier: TierSpec) -> Result<
    TierSpec,
    Seq<char>,
>
    decreases argv.len() - i,
{
    if i + 1 >= argv.len() {
        Ok(tier)
    } else {
        match tier_set_refusal(argv[i]@) {
            Some(e) => Err(e),
            None => match tier_key(Some(tier), tier, argv[i]@, argv[i + 1]@) {
                TierKey::Applied(next, _) => tier_from(argv, i + 2, next),
                TierKey::Refused(e) => Err(e),
                TierKey::Other => Err("ERR syntax error"@),
            },
        }
    }
}

#[verifier::spinoff_prover]
#[verifier::rlimit(60)]
fn parse_ns_set_tier(argv: &[&[u8]], current: TierSpec) -> (r: Result<NsSetUpdate, String>)
    requires
        argv@.len() >= 5,
        (argv@.len() - 3) % 2 == 0,
    ensures
        match tier_from(argv@, 3, current) {
            Ok(t) => r == Ok::<NsSetUpdate, String>(NsSetUpdate::Tier(t)),
            Err(e) => r matches Err(s) && s@ == e,
        },
{
    let mut tier = current;
    let mut i: usize = 3;
    while i < argv.len()
        invariant
            3 <= i <= argv@.len(),
            (argv@.len() - i) % 2 == 0,
            tier_from(argv@, 3, current) == tier_from(argv@, i as int, tier),
        decreases argv.len() - i,
    {
        match refuse_tier_set(argv[i]) {
            Some(e) => {
                return Err(text::owned(e));
            },
            None => {},
        }
        match parse_tier_key(Some(tier), tier, argv[i], argv[i + 1]) {
            Ok(Some((next, _))) => {
                tier = next;
            },
            Ok(None) => {
                return Err(text::owned("ERR syntax error"));
            },
            Err(e) => {
                return Err(e);
            },
        }
        i += 2;
    }
    Ok(NsSetUpdate::Tier(tier))
}

/// The pressure keys once the pairs from argument `i` on are applied.
/// `inherit` returns a key to the node's value, and a budget of 0 is none.
pub open spec fn pressure_from(
    argv: Seq<&[u8]>,
    i: int,
    policy: Option<EvictionPolicy>,
    maxmemory: Option<u64>,
) -> Result<NsSetUpdate, Seq<char>>
    decreases argv.len() - i,
{
    if i + 1 >= argv.len() {
        Ok(NsSetUpdate::MemoryPressure { policy, maxmemory })
    } else if text::is_word(argv[i]@, "EVICTION"@) {
        if text::is_word(argv[i + 1]@, "inherit"@) {
            pressure_from(argv, i + 2, None, maxmemory)
        } else {
            match policy_value(argv[i + 1]@) {
                Some(p) => pressure_from(argv, i + 2, Some(p), maxmemory),
                None => Err("ERR unknown eviction policy"@),
            }
        }
    } else if text::is_word(argv[i]@, "MAXMEMORY"@) {
        if text::is_word(argv[i + 1]@, "inherit"@) {
            pressure_from(argv, i + 2, policy, None)
        } else {
            match memory_value(argv[i + 1]@) {
                Some(n) => pressure_from(
                    argv,
                    i + 2,
                    policy,
                    if n == 0 {
                        None
                    } else {
                        Some(n)
                    },
                ),
                None => Err("ERR invalid MAXMEMORY value"@),
            }
        }
    } else {
        Err(
            "ERR not a tiered namespace — tiering is set at CREATE with MEM-BUDGET (drop and recreate to add it, ADR-0062 D3); memory namespaces hot-reload MAXMEMORY and EVICTION only (ADR-0068 D3)"@,
        )
    }
}

fn parse_ns_set_memory(argv: &[&[u8]], spec: &NsSpec) -> (r: Result<NsSetUpdate, String>)
    requires
        argv@.len() >= 5,
        (argv@.len() - 3) % 2 == 0,
    ensures
        match pressure_from(argv@, 3, spec.policy, spec.maxmemory) {
            Ok(u) => r == Ok::<NsSetUpdate, String>(u),
            Err(e) => r matches Err(s) && s@ == e,
        },
{
    let mut chosen = spec.policy;
    let mut maxmemory = spec.maxmemory;
    let mut i: usize = 3;
    while i < argv.len()
        invariant
            3 <= i <= argv@.len(),
            (argv@.len() - i) % 2 == 0,
            pressure_from(argv@, 3, spec.policy, spec.maxmemory) == pressure_from(
                argv@,
                i as int,
                chosen,
                maxmemory,
            ),
        decreases argv.len() - i,
    {
        let value = argv[i + 1];
        if text::word(argv[i], "EVICTION") {
            if text::word(value, "inherit") {
                chosen = None;
            } else {
                match policy(value) {
                    Some(p) => {
                        chosen = Some(p);
                    },
                    None => {
                        return Err(text::owned("ERR unknown eviction policy"));
                    },
                }
            }
        } else if text::word(argv[i], "MAXMEMORY") {
            if text::word(value, "inherit") {
                maxmemory = None;
            } else {
                match memory(value) {
                    Some(n) => {
                        maxmemory = if n == 0 {
                            None
                        } else {
                            Some(n)
                        };
                    },
                    None => {
                        return Err(text::owned("ERR invalid MAXMEMORY value"));
                    },
                }
            }
        } else {
            return Err(
                text::owned(
                    "ERR not a tiered namespace — tiering is set at CREATE with MEM-BUDGET (drop and recreate to add it, ADR-0062 D3); memory namespaces hot-reload MAXMEMORY and EVICTION only (ADR-0068 D3)",
                ),
            );
        }
        i += 2;
    }
    Ok(NsSetUpdate::MemoryPressure { policy: chosen, maxmemory })
}

/// The text of a refused lookup.
pub open spec fn not_found(name: Seq<u8>) -> Seq<char> {
    "ERR namespace '"@ + text::lossy(name) + "' not found"@
}

fn not_found_text(name: &[u8]) -> (r: String)
    ensures
        r@ == not_found(name@),
{
    let mut s = text::owned("ERR namespace '");
    s.append(text::lossy_string(name).as_str());
    s.append("' not found");
    s
}

/// The update of `INF.NS SET name key value [key value ...]`, or why it is
/// refused. Nothing is applied unless every pair is.
pub open spec fn set_update(argv: Seq<&[u8]>, entries: Seq<NsEntry>) -> Result<
    NsSetUpdate,
    Seq<char>,
> {
    if argv.len() < 5 || (argv.len() - 3) % 2 != 0 {
        Err("ERR wrong number of arguments for 'INF.NS|SET'"@)
    } else {
        match find_ns(entries, argv[2]@, 0) {
            None => Err(not_found(argv[2]@)),
            Some(k) => {
                let spec = entries[k].spec;
                match spec.tier {
                    Some(current) => match tier_from(argv, 3, current) {
                        Ok(t) => Ok(NsSetUpdate::Tier(t)),
                        Err(e) => Err(e),
                    },
                    None => if spec.mode == NsMode::Memory {
                        pressure_from(argv, 3, spec.policy, spec.maxmemory)
                    } else {
                        Err(
                            "ERR durable namespaces do not evict (ADR-0015 D5/ADR-0068) — MAXMEMORY/EVICTION hot-reload applies to MODE memory namespaces"@,
                        )
                    },
                }
            },
        }
    }
}

/// Parses `INF.NS SET name key value [key value ...]` against the
/// namespace's current declaration.
pub fn parse_ns_set(argv: &[&[u8]], entries: &[NsEntry]) -> (r: Result<
    (Vec<u8>, NsSetUpdate),
    String,
>)
    ensures
        match set_update(argv@, entries@) {
            Ok(u) => r matches Ok((name, update)) && name@ == argv@[2]@ && update == u,
            Err(e) => r matches Err(s) && s@ == e,
        },
{
    if argv.len() < 5 || (argv.len() - 3) % 2 != 0 {
        return Err(text::owned("ERR wrong number of arguments for 'INF.NS|SET'"));
    }
    let k: usize = match ns_position(entries, argv[2]) {
        Some(k) => k,
        None => {
            return Err(not_found_text(argv[2]));
        },
    };
    let spec = &entries[k].spec;
    let update = match spec.tier {
        Some(current) => parse_ns_set_tier(argv, current),
        None => match spec.mode {
            NsMode::Memory => parse_ns_set_memory(argv, spec),
            _ => Err(
                text::owned(
                    "ERR durable namespaces do not evict (ADR-0015 D5/ADR-0068) — MAXMEMORY/EVICTION hot-reload applies to MODE memory namespaces",
                ),
            ),
        },
    };
    match update {
        Ok(u) => Ok((text::copy_bytes(argv[2]), u)),
        Err(e) => Err(e),
    }
}

// ---- INFO ----

/// When a namespace's writes are synced, as it is shown.
pub open spec fn fsync_label(f: Option<FsyncClass>) -> Seq<char> {
    match f {
        None => "-"@,
        Some(FsyncClass::Everysec) => "everysec"@,
        Some(FsyncClass::Always) => "always"@,
    }
}

/// The fields of a default database.
pub open spec fn db_pairs(
    name: Seq<u8>,
    rows: Seq<config::ConfigRow>,
    keys: u64,
    expires: u64,
) -> Seq<(Seq<char>, Seq<char>)> {
    seq![
        ("name"@, text::lossy(name)),
        ("mode"@, "memory"@),
        ("eviction"@, sections::setting_of(rows, "maxmemory-policy"@, "noeviction"@)),
        ("maxmemory"@, sections::setting_of(rows, "maxmemory"@, "0"@)),
        ("keys"@, text::dec_chars(keys as nat)),
        ("expires"@, text::dec_chars(expires as nat)),
    ]
}

/// The fields of a tier, key for key.
pub open spec fn tier_pairs(t: TierSpec) -> Seq<(Seq<char>, Seq<char>)> {
    seq![
        ("mem-budget"@, text::dec_chars(t.mem_budget_bytes as nat)),
        ("disk-budget"@, text::dec_chars(t.disk_budget_bytes as nat)),
        ("mutable-fraction"@, text::dec_chars(t.mutable_permille as nat)),
        ("maintain-slice"@, text::dec_chars(t.maintain_slice_bytes as nat)),
        ("cold-read-qd"@, text::dec_chars(t.cold_read_qd as nat)),
        ("compaction-dead-ratio"@, text::dec_chars(t.compaction_dead_ratio_pct as nat)),
        ("compaction-slice"@, text::dec_chars(t.compaction_slice_bytes as nat)),
        ("blob-threshold"@, text::dec_chars(t.blob_threshold_bytes as nat)),
        (
            "tier-io-mode"@,
            match t.tier_io_mode {
                TierIoMode::Direct => "direct"@,
                TierIoMode::Buffered => "buffered"@,
            },
        ),
        ("tail-stall-timeout"@, text::dec_chars(t.tail_stall_timeout_ms as nat)),
    ]
}

/// The fields of a named namespace.
pub open spec fn ns_pairs(e: NsEntry) -> Seq<(Seq<char>, Seq<char>)> {
    seq![
        ("name"@, text::lossy(e.spec.name@)),
        ("id"@, text::dec_chars(e.spec.id as nat)),
        ("mode"@, e.spec.mode.label()),
        ("fsync"@, fsync_label(e.spec.fsync)),
        (
            "eviction"@,
            match e.spec.policy {
                Some(p) => p.label(),
                None => "inherit"@,
            },
        ),
        (
            "maxmemory"@,
            match e.spec.maxmemory {
                Some(n) => text::dec_chars(n as nat),
                None => "inherit"@,
            },
        ),
        ("keys"@, text::dec_chars(e.keys as nat)),
        ("expires"@, text::dec_chars(e.expires as nat)),
    ] + match e.spec.tier {
        Some(t) => tier_pairs(t),
        None => Seq::empty(),
    }
}

spec fn pair_views(pairs: Seq<(&'static str, String)>) -> Seq<(Seq<char>, Seq<char>)> {
    pairs.map_values(|p: (&'static str, String)| (p.0@, p.1@))
}

fn push_pair(pairs: &mut Vec<(&'static str, String)>, key: &'static str, value: String)
    ensures
        pair_views(final(pairs)@) == pair_views(old(pairs)@).push((key@, value@)),
{
    let ghost before = pairs@;
    let ghost shown = value@;
    pairs.push((key, value));
    proof {
        assert(pair_views(pairs@) =~= pair_views(before).push((key@, shown)));
    }
}

/// Writes a map of these fields.
fn write_pairs(pairs: &Vec<(&'static str, String)>, w: &mut RespWriter)
    ensures
        final(w)@ == old(w)@ + (resp::map_reply(old(w).proto, pairs@.len())
            + settings::pairs_reply(pair_views(pairs@))),
        final(w).proto == old(w).proto,
{
    let ghost base = w@;
    let ghost shown = pair_views(pairs@);
    let ghost head = resp::map_reply(w.proto, pairs@.len());
    w.map_header(pairs.len());
    let mut i: usize = 0;
    proof {
        assert(shown.take(0) =~= Seq::empty());
        assert(w@ =~= base + (head + settings::pairs_reply(shown.take(0))));
    }
    while i < pairs.len()
        invariant
            i <= pairs@.len(),
            shown == pair_views(pairs@),
            w@ == base + (head + settings::pairs_reply(shown.take(i as int))),
            w.proto == old(w).proto,
        decreases pairs.len() - i,
    {
        proof {
            assert(shown.take(i + 1).drop_last() =~= shown.take(i as int));
            assert(shown.take(i + 1).last() == (pairs@[i as int].0@, pairs@[i as int].1@));
        }
        w.bulk(pairs[i].0.as_bytes());
        w.bulk(pairs[i].1.as_str().as_bytes());
        i += 1;
        proof {
            assert(w@ =~= base + (head + settings::pairs_reply(shown.take(i as int))));
        }
    }
    proof {
        assert(shown.take(i as int) =~= shown);
    }
}

fn info_db(name: &[u8], config: &ConfigStore, keys: u64, expires: u64, w: &mut RespWriter)
    ensures
        final(w)@ == old(w)@ + (resp::map_reply(old(w).proto, 6) + settings::pairs_reply(
            db_pairs(name@, config@, keys, expires),
        )),
        final(w).proto == old(w).proto,
{
    let mut pairs: Vec<(&'static str, String)> = Vec::new();
    proof {
        assert(pair_views(pairs@) =~= Seq::empty());
    }
    push_pair(&mut pairs, "name", text::lossy_string(name));
    push_pair(&mut pairs, "mode", text::owned("memory"));
    push_pair(
        &mut pairs,
        "eviction",
        text::owned(sections::setting(config, "maxmemory-policy", "noeviction")),
    );
    push_pair(
        &mut pairs,
        "maxmemory",
        text::owned(sections::setting(config, "maxmemory", "0")),
    );
    push_pair(&mut pairs, "keys", text::dec_string(keys));
    push_pair(&mut pairs, "expires", text::dec_string(expires));
    proof {
        assert(pair_views(pairs@) =~= db_pairs(name@, config@, keys, expires));
        assert(pairs@.len() == pair_views(pairs@).len());
    }
    write_pairs(&pairs, w);
}

fn push_tier(pairs: &mut Vec<(&'static str, String)>, t: &TierSpec)
    ensures
        pair_views(final(pairs)@) == pair_views(old(pairs)@) + tier_pairs(*t),
{
    let ghost before = pair_views(pairs@);
    push_pair(pairs, "mem-budget", text::dec_string(t.mem_budget_bytes));
    push_pair(pairs, "disk-budget", text::dec_string(t.disk_budget_bytes));
    push_pair(pairs, "mutable-fraction", text::dec_string(t.mutable_permille as u64));
    push_pair(pairs, "maintain-slice", text::dec_string(t.maintain_slice_bytes));
    push_pair(pairs, "cold-read-qd", text::dec_string(t.cold_read_qd as u64));
    push_pair(
        pairs,
        "compaction-dead-ratio",
        text::dec_string(t.compaction_dead_ratio_pct as u64),
    );
    push_pair(pairs, "compaction-slice", text::dec_string(t.compaction_slice_bytes));
    push_pair(pairs, "blob-threshold", text::dec_string(t.blob_threshold_bytes as u64));
    push_pair(
        pairs,
        "tier-io-mode",
        match t.tier_io_mode {
            TierIoMode::Direct => text::owned("direct"),
            TierIoMode::Buffered => text::owned("buffered"),
        },
    );
    push_pair(pairs, "tail-stall-timeout", text::dec_string(t.tail_stall_timeout_ms as u64));
    proof {
        assert(pair_views(pairs@) =~= before + tier_pairs(*t));
    }
}

fn info_ns(e: &NsEntry, w: &mut RespWriter)
    ensures
        final(w)@ == old(w)@ + (resp::map_reply(old(w).proto, ns_pairs(*e).len())
            + settings::pairs_reply(ns_pairs(*e))),
        final(w).proto == old(w).proto,
{
    let mut pairs: Vec<(&'static str, String)> = Vec::new();
    proof {
        assert(pair_views(pairs@) =~= Seq::empty());
    }
    push_pair(&mut pairs, "name", text::lossy_string(e.spec.name.as_slice()));
    push_pair(&mut pairs, "id", text::dec_string(e.spec.id as u64));
    push_pair(&mut pairs, "mode", text::owned(e.spec.mode.name()));
    push_pair(
        &mut pairs,
        "fsync",
        match e.spec.fsync {
            None => text::owned("-"),
            Some(FsyncClass::Everysec) => text::owned("everysec"),
            Some(FsyncClass::Always) => text::owned("always"),
        },
    );
    push_pair(
        &mut pairs,
        "eviction",
        match e.spec.policy {
            Some(p) => text::owned(p.name()),
            None => text::owned("inherit"),
        },
    );
    push_pair(
        &mut pairs,
        "maxmemory",
        match e.spec.maxmemory {
            Some(n) => text::dec_string(n),
            None => text::owned("inherit"),
        },
    );
    push_pair(&mut pairs, "keys", text::dec_string(e.keys));
    push_pair(&mut pairs, "expires", text::dec_string(e.expires));
    let ghost plain = pair_views(pairs@);
    if let Some(t) = &e.spec.tier {
        push_tier(&mut pairs, t);
    }
    proof {
        assert(pair_views(pairs@) =~= ns_pairs(*e));
        assert(pairs@.len() == pair_views(pairs@).len());
    }
    write_pairs(&pairs, w);
}

// ---- the command ----

/// The names of the first `n` default databases.
pub open spec fn db_names_reply(n: int) -> Seq<u8>
    decreases n,
{
    if n <= 0 {
        Seq::empty()
    } else {
        db_names_reply(n - 1) + resp::bulk_reply(
            text::utf8("db"@ + text::dec_chars((n - 1) as nat)),
        )
    }
}

/// The names of the first `n` namespaces.
pub open spec fn names_reply(entries: Seq<NsEntry>, n: int) -> Seq<u8>
    decreases n,
{
    if n <= 0 {
        Seq::empty()
    } else {
        names_reply(entries, n - 1) + resp::bulk_reply(entries[n - 1].spec.name@)
    }
}

fn list_names(entries: &[NsEntry], w: &mut RespWriter)
    requires
        entries@.len() <= usize::MAX - DEFAULT_DBS,
    ensures
        final(w)@ == old(w)@ + (resp::array_reply(DEFAULT_DBS as nat + entries@.len())
            + db_names_reply(DEFAULT_DBS as int) + names_reply(entries@, entries@.len() as int)),
        final(w).proto == old(w).proto,
{
    let ghost base = w@;
    let ghost head = resp::array_reply(DEFAULT_DBS as nat + entries@.len());
    w.array_header(DEFAULT_DBS + entries.len());
    let mut db: usize = 0;
    proof {
        assert(w@ =~= base + (head + db_names_reply(0)));
    }
    while db < DEFAULT_DBS
        invariant
            db <= DEFAULT_DBS,
            w@ == base + (head + db_names_reply(db as int)),
            w.proto == old(w).proto,
        decreases DEFAULT_DBS - db,
    {
        let mut name = text::owned("db");
        text::append_dec(&mut name, db as u64);
        w.bulk(name.as_str().as_bytes());
        db += 1;
        proof {
            assert(w@ =~= base + (head + db_names_reply(db as int)));
        }
    }
    let ghost dbs = head + db_names_reply(DEFAULT_DBS as int);
    let mut i: usize = 0;
    proof {
        assert(w@ =~= base + (dbs + names_reply(entries@, 0)));
    }
    while i < entries.len()
        invariant
            i <= entries@.len(),
            w@ == base + (dbs + names_reply(entries@, i as int)),
            w.proto == old(w).proto,
        decreases entries.len() - i,
    {
        w.bulk(entries[i].spec.name.as_slice());
        i += 1;
        proof {
            assert(w@ =~= base + (dbs + names_reply(entries@, i as int)));
        }
    }
}

/// What an `INF.NS` command leaves to its caller.
#[derive(Debug)]
pub enum NsStep {
    /// The reply is written.
    Replied,
    /// Answer with the arity error of this subcommand.
    Arity(&'static str),
    /// Register this namespace, then answer with [`ns_reply`].
    Create(NsSpec),
    /// The connection moved to a default database; the reply is written.
    UseDb(u16),
    /// The connection moved to a named namespace; the reply is written.
    UseNs(u32),
    /// Apply this update, then answer with [`ns_reply`].
    Update { name: Vec<u8>, update: NsSetUpdate },
    /// Drop this namespace, then answer with [`ns_reply`].
    Drop { name: Vec<u8> },
}

/// The model of a step.
pub enum NsAction {
    Replied,
    Arity(Seq<char>),
    Create(namespace::Ns),
    UseDb(u16),
    UseNs(u32),
    Update(Seq<u8>, NsSetUpdate),
    Drop(Seq<u8>),
}

impl View for NsStep {
    type V = NsAction;

    open spec fn view(&self) -> NsAction {
        match *self {
            NsStep::Replied => NsAction::Replied,
            NsStep::Arity(name) => NsAction::Arity(name@),
            NsStep::Create(spec) => NsAction::Create(spec@),
            NsStep::UseDb(db) => NsAction::UseDb(db),
            NsStep::UseNs(id) => NsAction::UseNs(id),
            NsStep::Update { name, update } => NsAction::Update(name@, update),
            NsStep::Drop { name } => NsAction::Drop(name@),
        }
    }
}

/// What an `INF.NS` command replies at once and what it leaves to do.
pub struct NsAnswer {
    pub reply: Seq<u8>,
    pub action: NsAction,
}

/// A reply that leaves nothing to do.
pub open spec fn told(reply: Seq<u8>) -> NsAnswer {
    NsAnswer { reply, action: NsAction::Replied }
}

/// A step that comes before the reply.
pub open spec fn first(action: NsAction) -> NsAnswer {
    NsAnswer { reply: Seq::empty(), action }
}

/// The answer to an `INF.NS` command. `dbs` gives the keys and expiries of
/// the default databases that hold any.
pub open spec fn ns_answer(
    argv: Seq<&[u8]>,
    entries: Seq<NsEntry>,
    dbs: Seq<(u64, u64)>,
    rows: Seq<config::ConfigRow>,
    defaults: TierSpec,
    proto: Protocol,
) -> NsAnswer {
    let sub = argv[1]@;
    if text::is_word(sub, "CREATE"@) {
        match create_options(argv, defaults) {
            Err(e) => told(resp::error_reply(e)),
            Ok(o) => if o.mode != NsMode::Memory {
                told(
                    resp::error_reply(
                        "ERR durable namespaces need the node runtime (planeless tier is memory-only)"@,
                    ),
                )
            } else {
                first(NsAction::Create(declared(next_id(entries) as u32, argv[2]@, o)))
            },
        }
    } else if text::is_word(sub, "USE"@) {
        if argv.len() != 3 {
            first(NsAction::Arity("INF.NS|USE"@))
        } else {
            match db_index(argv[2]@) {
                Some(db) => NsAnswer {
                    reply: resp::simple_reply("OK"@),
                    action: NsAction::UseDb(db),
                },
                None => match find_ns(entries, argv[2]@, 0) {
                    None => told(resp::error_reply(not_found(argv[2]@))),
                    Some(k) => if entries[k].spec.mode == NsMode::Topic {
                        told(
                            resp::error_reply(
                                "ERR topic namespaces are not addressable before M5"@,
                            ),
                        )
                    } else {
                        NsAnswer {
                            reply: resp::simple_reply("OK"@),
                            action: NsAction::UseNs(entries[k].spec.id),
                        }
                    },
                },
            }
        }
    } else if text::is_word(sub, "SET"@) {
        match set_update(argv, entries) {
            Ok(u) => first(NsAction::Update(argv[2]@, u)),
            Err(e) => told(resp::error_reply(e)),
        }
    } else if text::is_word(sub, "DROP"@) {
        if argv.len() != 3 {
            first(NsAction::Arity("INF.NS|DROP"@))
        } else {
            first(NsAction::Drop(argv[2]@))
        }
    } else if text::is_word(sub, "LIST"@) {
        told(
            resp::array_reply(DEFAULT_DBS as nat + entries.len()) + db_names_reply(
                DEFAULT_DBS as int,
            ) + names_reply(entries, entries.len() as int),
        )
    } else if text::is_word(sub, "INFO"@) {
        if argv.len() != 3 {
            first(NsAction::Arity("INF.NS|INFO"@))
        } else {
            match db_index(argv[2]@) {
                Some(db) => {
                    let counts = if db < dbs.len() {
                        dbs[db as int]
                    } else {
                        (0, 0)
                    };
                    told(
                        resp::map_reply(proto, 6) + settings::pairs_reply(
                            db_pairs(argv[2]@, rows, counts.0, counts.1),
                        ),
                    )
                },
                None => match find_ns(entries, argv[2]@, 0) {
                    None => told(resp::error_reply(not_found(argv[2]@))),
                    Some(k) => told(
                        resp::map_reply(proto, ns_pairs(entries[k]).len()) + settings::pairs_reply(
                            ns_pairs(entries[k]),
                        ),
                    ),
                },
            }
        }
    } else {
        told(settings::unknown_subcommand(sub, "INF.NS CREATE|SET|USE|LIST|INFO|DROP"@))
    }
}

/// `INF.NS CREATE|USE|SET|DROP|LIST|INFO` on a node without the durable
/// runtime.
pub fn inf_ns(
    argv: &[&[u8]],
    entries: &[NsEntry],
    dbs: &[(u64, u64)],
    config: &ConfigStore,
    defaults: TierSpec,
    w: &mut RespWriter,
) -> (r: NsStep)
    requires
        argv@.len() >= 2,
        entries@.len() <= usize::MAX - DEFAULT_DBS,
        forall|i: int| 0 <= i < entries@.len() ==> (#[trigger] entries@[i]).spec.id < u32::MAX,
    ensures
        ({
            let answer = ns_answer(argv@, entries@, dbs@, config@, defaults, old(w).proto);
            &&& r@ == answer.action
            &&& final(w)@ == old(w)@ + answer.reply
        }),
        final(w).proto == old(w).proto,
{
    let ghost base = w@;
    proof {
        assert(base + Seq::<u8>::empty() =~= base);
    }
    let sub = argv[1];
    if text::word(sub, "CREATE") {
        match parse_ns_create(argv, defaults) {
            Err(e) => {
                w.error(e.as_str());
                NsStep::Replied
            },
            Ok(draft) => {
                if draft.mode != NsMode::Memory {
                    w.error(
                        "ERR durable namespaces need the node runtime (planeless tier is memory-only)",
                    );
                    return NsStep::Replied;
                }
                let id: u32 = next_local_ns_id(entries);
                NsStep::Create(draft.with_id(id))
            },
        }
    } else if text::word(sub, "USE") {
        if argv.len() != 3 {
            return NsStep::Arity("INF.NS|USE");
        }
        match default_db_index(argv[2]) {
            Some(db) => {
                w.simple("OK");
                NsStep::UseDb(db)
            },
            None => match ns_position(entries, argv[2]) {
                None => {
                    w.error(not_found_text(argv[2]).as_str());
                    NsStep::Replied
                },
                Some(k) => {
                    if entries[k].spec.mode == NsMode::Topic {
                        w.error("ERR topic namespaces are not addressable before M5");
                        return NsStep::Replied;
                    }
                    w.simple("OK");
                    NsStep::UseNs(entries[k].spec.id)
                },
            },
        }
    } else if text::word(sub, "SET") {
        match parse_ns_set(argv, entries) {
            Ok((name, update)) => NsStep::Update { name, update },
            Err(e) => {
                w.error(e.as_str());
                NsStep::Replied
            },
        }
    } else if text::word(sub, "DROP") {
        if argv.len() != 3 {
            return NsStep::Arity("INF.NS|DROP");
        }
        NsStep::Drop { name: text::copy_bytes(argv[2]) }
    } else if text::word(sub, "LIST") {
        list_names(entries, w);
        NsStep::Replied
    } else if text::word(sub, "INFO") {
        if argv.len() != 3 {
            return NsStep::Arity("INF.NS|INFO");
        }
        match default_db_index(argv[2]) {
            Some(db) => {
                let (keys, expires): (u64, u64) = if (db as usize) < dbs.len() {
                    dbs[db as usize]
                } else {
                    (0, 0)
                };
                info_db(argv[2], config, keys, expires, w);
                NsStep::Replied
            },
            None => match ns_position(entries, argv[2]) {
                None => {
                    w.error(not_found_text(argv[2]).as_str());
                    NsStep::Replied
                },
                Some(k) => {
                    info_ns(&entries[k], w);
                    NsStep::Replied
                },
            },
        }
    } else {
        settings::reply_unknown(w, sub, "INF.NS CREATE|SET|USE|LIST|INFO|DROP");
        NsStep::Replied
    }
}

/// The reply to a registry operation.
pub open spec fn outcome_reply(outcome: Result<(), NsError>) -> Seq<u8> {
    match outcome {
        Ok(_) => resp::simple_reply("OK"@),
        Err(e) => resp::error_reply(e.message_text()),
    }
}

/// Answers a registry operation.
pub fn ns_reply(outcome: &Result<(), NsError>, w: &mut RespWriter)
    ensures
        final(w)@ == old(w)@ + outcome_reply(*outcome),
        final(w).proto == old(w).proto,
{
    match outcome {
        Ok(_) => w.simple("OK"),
        Err(e) => ns_error(e, w),
    }
}

/// Answers a refused registry operation.
pub fn ns_error(e: &NsError, w: &mut RespWriter)
    ensures
        final(w)@ == old(w)@ + resp::error_reply(e.message_text()),
        final(w).proto == old(w).proto,
{
    w.error(e.message().as_str());
}

/// Which registry operation an update is.
#[derive(Debug)]
pub enum NsApply {
    SetTier(TierSpec),
    SetMemory { policy: Option<EvictionPolicy>, maxmemory: Option<u64> },
}

/// The registry operation of an update.
pub fn apply_ns_set(update: NsSetUpdate) -> (r: NsApply)
    ensures
        match update {
            NsSetUpdate::Tier(t) => r == NsApply::SetTier(t),
            NsSetUpdate::MemoryPressure { policy, maxmemory } => r == (NsApply::SetMemory {
                policy,
                maxmemory,
            }),
        },
{
    match update {
        NsSetUpdate::Tier(t) => NsApply::SetTier(t),
        NsSetUpdate::MemoryPressure { policy, maxmemory } => NsApply::SetMemory {
            policy,
            maxmemory,
        },
    }
}

/// The id handed to a new namespace is above every registered one, so it is
/// never in use.
pub proof fn law_local_id_is_fresh(entries: Seq<NsEntry>)
    ensures
        next_id(entries) >= FIRST_NAMED_NS_ID,
        forall|i: int| 0 <= i < entries.len() ==> (#[trigger] entries[i]).spec.id < next_id(
            entries,
        ),
    decreases entries.len(),
{
    if entries.len() > 0 {
        let rest = entries.drop_last();
        law_local_id_is_fresh(rest);
        assert forall|i: int| 0 <= i < entries.len() implies (#[trigger] entries[i]).spec.id
            < next_id(entries) by {
            if i < rest.len() {
                assert(rest[i] == entries[i]);
            }
        }
    }
}

/// A create-only key never reaches a hot reload: whatever its value and
/// wherever it stands, a `SET` that names it is refused.
pub proof fn law_create_only_keys_refuse(argv: Seq<&[u8]>, i: int, k: int, tier: TierSpec)
    requires
        3 <= i <= k,
        (k - i) % 2 == 0,
        k + 1 < argv.len(),
        tier_set_refusal(argv[k]@) is Some,
    ensures
        tier_from(argv, i, tier) is Err,
    decreases k - i,
{
    if i < k && tier_set_refusal(argv[i]@) is None {
        match tier_key(Some(tier), tier, argv[i]@, argv[i + 1]@) {
            TierKey::Applied(next, _) => law_create_only_keys_refuse(argv, i + 2, k, next),
            _ => {},
        }
    }
}

/// A tier is declared only with its budget.
pub proof fn law_tier_needs_budget(argv: Seq<&[u8]>, defaults: TierSpec)
    ensures
        create_options(argv, defaults) matches Ok(o) ==> (o.tier is Some ==> o.saw_budget),
{
}

proof fn lemma_word_shape(arg: Seq<u8>, token: Seq<char>)
    ensures
        text::is_word(arg, token) ==> arg.len() == text::utf8(token).len() && (arg.len() > 0
            ==> text::lower(arg[0]) == text::lower(text::utf8(token)[0])),
{
    if text::is_word(arg, token) {
        assert(text::lower_all(arg).len() == text::lower_all(text::utf8(token)).len());
        if arg.len() > 0 {
            assert(text::lower_all(arg)[0] == text::lower_all(text::utf8(token))[0]);
        }
    }
}

/// How long a word of the tokens below is, and its first byte in lower case.
spec fn shaped(arg: Seq<u8>, token: Seq<char>, len: nat, first: u8) -> bool {
    text::is_word(arg, token) ==> arg.len() == len && text::lower(arg[0]) == first
}

proof fn lemma_shape(arg: Seq<u8>, token: Seq<char>, len: nat, first: u8)
    requires
        vstd::utf8::is_ascii_chars(token),
        token.len() == len,
        len > 0,
        text::lower(token[0] as u8) == first,
    ensures
        shaped(arg, token, len, first),
{
    vstd::utf8::is_ascii_chars_encode_utf8(token);
    lemma_word_shape(arg, token);
}

proof fn lemma_option_words(arg: Seq<u8>)
    ensures
        shaped(arg, "MODE"@, 4, 109),
        shaped(arg, "FSYNC"@, 5, 102),
        shaped(arg, "EVICTION"@, 8, 101),
        shaped(arg, "MAXMEMORY"@, 9, 109),
        shaped(arg, "MEM-BUDGET"@, 10, 109),
        shaped(arg, "DISK-BUDGET"@, 11, 100),
        shaped(arg, "MUTABLE-FRACTION"@, 16, 109),
        shaped(arg, "MAINTAIN-SLICE"@, 14, 109),
        shaped(arg, "COLD-READ-QD"@, 12, 99),
        shaped(arg, "COMPACTION-DEAD-RATIO"@, 21, 99),
        shaped(arg, "COMPACTION-SLICE"@, 16, 99),
        shaped(arg, "BLOB-THRESHOLD"@, 14, 98),
        shaped(arg, "TIER-IO-MODE"@, 12, 116),
        shaped(arg, "TAIL-STALL-TIMEOUT"@, 18, 116),
{
    reveal_strlit("MODE");
    reveal_strlit("FSYNC");
    reveal_strlit("EVICTION");
    reveal_strlit("MAXMEMORY");
    reveal_strlit("MEM-BUDGET");
    reveal_strlit("DISK-BUDGET");
    reveal_strlit("MUTABLE-FRACTION");
    reveal_strlit("MAINTAIN-SLICE");
    reveal_strlit("COLD-READ-QD");
    reveal_strlit("COMPACTION-DEAD-RATIO");
    reveal_strlit("COMPACTION-SLICE");
    reveal_strlit("BLOB-THRESHOLD");
    reveal_strlit("TIER-IO-MODE");
    reveal_strlit("TAIL-STALL-TIMEOUT");
    lemma_shape(arg, "MODE"@, 4, 109);
    lemma_shape(arg, "FSYNC"@, 5, 102);
    lemma_shape(arg, "EVICTION"@, 8, 101);
    lemma_shape(arg, "MAXMEMORY"@, 9, 109);
    lemma_shape(arg, "MEM-BUDGET"@, 10, 109);
    lemma_shape(arg, "DISK-BUDGET"@, 11, 100);
    lemma_shape(arg, "MUTABLE-FRACTION"@, 16, 109);
    lemma_shape(arg, "MAINTAIN-SLICE"@, 14, 109);
    lemma_shape(arg, "COLD-READ-QD"@, 12, 99);
    lemma_shape(arg, "COMPACTION-DEAD-RATIO"@, 21, 99);
    lemma_shape(arg, "COMPACTION-SLICE"@, 16, 99);
    lemma_shape(arg, "BLOB-THRESHOLD"@, 14, 98);
    lemma_shape(arg, "TIER-IO-MODE"@, 12, 116);
    lemma_shape(arg, "TAIL-STALL-TIMEOUT"@, 18, 116);
}

proof fn lemma_small_word(arg: Seq<u8>, token: Seq<char>)
    requires
        text::is_small(token),
    ensures
        text::is_word(arg, token) <==> text::lower_all(arg) == text::utf8(token),
{
    vstd::utf8::is_ascii_chars_encode_utf8(token);
    let t = text::utf8(token);
    assert forall|i: int| 0 <= i < t.len() implies #[trigger] text::lower_all(t)[i] == t[i] by {
        assert(t[i] == token[i] as u8);
        assert(!('A' <= token[i] <= 'Z'));
    }
    assert(text::lower_all(t) =~= t);
}

proof fn lemma_value_words(arg: Seq<u8>)
    ensures
        text::is_word(arg, "always"@) <==> text::lower_all(arg) == text::utf8("always"@),
        text::is_word(arg, "everysec"@) <==> text::lower_all(arg) == text::utf8("everysec"@),
        text::is_word(arg, "direct"@) <==> text::lower_all(arg) == text::utf8("direct"@),
        text::is_word(arg, "buffered"@) <==> text::lower_all(arg) == text::utf8("buffered"@),
{
    reveal_strlit("always");
    reveal_strlit("everysec");
    reveal_strlit("direct");
    reveal_strlit("buffered");
    lemma_small_word(arg, "always"@);
    lemma_small_word(arg, "everysec"@);
    lemma_small_word(arg, "direct"@);
    lemma_small_word(arg, "buffered"@);
}

/// FSYNC takes the class that its value names: the class is shown as the value
/// in lower case, `always` and `everysec` are taken, and no other value is.
/// Nothing but the class changes.
pub proof fn law_fsync_is_as_given(
    o: NsOptions,
    defaults: TierSpec,
    opt: Seq<u8>,
    value: Seq<u8>,
)
    requires
        text::is_word(opt, "FSYNC"@),
    ensures
        option_applied(o, defaults, opt, value) matches Ok(next) ==> next.fsync is Some
            && text::utf8(fsync_label(next.fsync)) == text::lower_all(value) && next == (NsOptions {
            fsync: next.fsync,
            ..o
        }),
        option_applied(o, defaults, opt, value) is Ok <==> text::lower_all(value) == text::utf8(
            "always"@,
        ) || text::lower_all(value) == text::utf8("everysec"@),
        fsync_label(Some(FsyncClass::Always)) == "always"@,
        fsync_label(Some(FsyncClass::Everysec)) == "everysec"@,
{
    lemma_option_words(opt);
    lemma_value_words(value);
}

/// The value given last to an option among the pairs from `i` on.
pub open spec fn given(argv: Seq<&[u8]>, i: int, option: Seq<char>) -> Option<Seq<u8>>
    decreases argv.len() - i,
{
    if i + 1 >= argv.len() {
        None
    } else {
        match given(argv, i + 2, option) {
            Some(value) => Some(value),
            None => if text::is_word(argv[i]@, option) {
                Some(argv[i + 1]@)
            } else {
                None
            },
        }
    }
}

/// How a tier's I/O mode is shown.
pub open spec fn io_mode_label(mode: TierIoMode) -> Seq<char> {
    if mode == TierIoMode::Direct {
        "direct"@
    } else {
        "buffered"@
    }
}

/// Whether `t` is `base` but for the field that a tier key names, which is as
/// the key's value reads.
pub open spec fn sets_its_field(base: TierSpec, opt: Seq<u8>, value: Seq<u8>, t: TierSpec) -> bool {
    &&& if text::is_word(opt, "MEM-BUDGET"@) {
        memory_value(value) == Some(t.mem_budget_bytes)
    } else {
        t.mem_budget_bytes == base.mem_budget_bytes
    }
    &&& if text::is_word(opt, "DISK-BUDGET"@) {
        memory_value(value) == Some(t.disk_budget_bytes)
    } else {
        t.disk_budget_bytes == base.disk_budget_bytes
    }
    &&& if text::is_word(opt, "MUTABLE-FRACTION"@) {
        number_value(value) == Some(t.mutable_permille as u64)
    } else {
        t.mutable_permille == base.mutable_permille
    }
    &&& if text::is_word(opt, "MAINTAIN-SLICE"@) {
        memory_value(value) == Some(t.maintain_slice_bytes)
    } else {
        t.maintain_slice_bytes == base.maintain_slice_bytes
    }
    &&& if text::is_word(opt, "COLD-READ-QD"@) {
        number_value(value) == Some(t.cold_read_qd as u64)
    } else {
        t.cold_read_qd == base.cold_read_qd
    }
    &&& if text::is_word(opt, "COMPACTION-DEAD-RATIO"@) {
        number_value(value) == Some(t.compaction_dead_ratio_pct as u64)
    } else {
        t.compaction_dead_ratio_pct == base.compaction_dead_ratio_pct
    }
    &&& if text::is_word(opt, "COMPACTION-SLICE"@) {
        memory_value(value) == Some(t.compaction_slice_bytes)
    } else {
        t.compaction_slice_bytes == base.compaction_slice_bytes
    }
    &&& if text::is_word(opt, "BLOB-THRESHOLD"@) {
        memory_value(value) == Some(t.blob_threshold_bytes as u64)
    } else {
        t.blob_threshold_bytes == base.blob_threshold_bytes
    }
    &&& if text::is_word(opt, "TIER-IO-MODE"@) {
        text::utf8(io_mode_label(t.tier_io_mode)) == text::lower_all(value)
    } else {
        t.tier_io_mode == base.tier_io_mode
    }
    &&& if text::is_word(opt, "TAIL-STALL-TIMEOUT"@) {
        number_value(value) == Some(t.tail_stall_timeout_ms as u64)
    } else {
        t.tail_stall_timeout_ms == base.tail_stall_timeout_ms
    }
}

/// Each tier key sets the field it names to the value it was given, and keeps
/// every other field of the tier so far; only MEM-BUDGET makes a namespace
/// tiered. A key is applied only where its value can be read and fits.
#[verifier::rlimit(40)]
#[verifier::spinoff_prover]
pub proof fn law_tier_key_sets_its_field(
    tier: Option<TierSpec>,
    defaults: TierSpec,
    opt: Seq<u8>,
    value: Seq<u8>,
)
    ensures
        tier_key(tier, defaults, opt, value) matches TierKey::Applied(t, budget) ==> budget
            == text::is_word(opt, "MEM-BUDGET"@) && sets_its_field(
            match tier {
                Some(b) => b,
                None => defaults,
            },
            opt,
            value,
            t,
        ),
{
    lemma_option_words(opt);
    lemma_value_words(value);
}

/// A tier key whose value reads and fits is applied; a word that is no tier
/// key is left to the caller.
#[verifier::rlimit(40)]
#[verifier::spinoff_prover]
pub proof fn law_readable_tier_key_is_applied(
    tier: Option<TierSpec>,
    defaults: TierSpec,
    opt: Seq<u8>,
    value: Seq<u8>,
)
    ensures
        (text::is_word(opt, "MEM-BUDGET"@) || text::is_word(opt, "DISK-BUDGET"@) || text::is_word(
            opt,
            "MAINTAIN-SLICE"@,
        ) || text::is_word(opt, "COMPACTION-SLICE"@)) && memory_value(value) is Some ==> tier_key(
            tier,
            defaults,
            opt,
            value,
        ) is Applied,
        text::is_word(opt, "BLOB-THRESHOLD"@) ==> (tier_key(tier, defaults, opt, value) is Applied
            <==> (memory_value(value) matches Some(n) && n < 0x1_0000_0000)),
        (text::is_word(opt, "MUTABLE-FRACTION"@) || text::is_word(opt, "TAIL-STALL-TIMEOUT"@))
            ==> (tier_key(tier, defaults, opt, value) is Applied <==> (number_value(
            value,
        ) matches Some(n) && n < 0x1_0000_0000)),
        text::is_word(opt, "COLD-READ-QD"@) ==> (tier_key(tier, defaults, opt, value) is Applied
            <==> (number_value(value) matches Some(n) && n < 0x1_0000)),
        text::is_word(opt, "COMPACTION-DEAD-RATIO"@) ==> (tier_key(
            tier,
            defaults,
            opt,
            value,
        ) is Applied <==> (number_value(value) matches Some(n) && n < 0x100)),
        text::is_word(opt, "TIER-IO-MODE"@) ==> (tier_key(tier, defaults, opt, value) is Applied
            <==> text::lower_all(value) == text::utf8("direct"@) || text::lower_all(value)
            == text::utf8("buffered"@)),
        text::is_word(opt, "MODE"@) || text::is_word(opt, "FSYNC"@) || text::is_word(
            opt,
            "EVICTION"@,
        ) || text::is_word(opt, "MAXMEMORY"@) ==> tier_key(tier, defaults, opt, value) is Other,
{
    lemma_option_words(opt);
    lemma_value_words(value);
}

/// Whether a tier's fields are the ones given last, and its base's where none
/// was given.
pub open spec fn tier_as_given(argv: Seq<&[u8]>, i: int, base: TierSpec, t: TierSpec) -> bool {
    &&& match given(argv, i, "MEM-BUDGET"@) {
        Some(v) => memory_value(v) == Some(t.mem_budget_bytes),
        None => t.mem_budget_bytes == base.mem_budget_bytes,
    }
    &&& match given(argv, i, "DISK-BUDGET"@) {
        Some(v) => memory_value(v) == Some(t.disk_budget_bytes),
        None => t.disk_budget_bytes == base.disk_budget_bytes,
    }
    &&& match given(argv, i, "MUTABLE-FRACTION"@) {
        Some(v) => number_value(v) == Some(t.mutable_permille as u64),
        None => t.mutable_permille == base.mutable_permille,
    }
    &&& match given(argv, i, "MAINTAIN-SLICE"@) {
        Some(v) => memory_value(v) == Some(t.maintain_slice_bytes),
        None => t.maintain_slice_bytes == base.maintain_slice_bytes,
    }
    &&& match given(argv, i, "COLD-READ-QD"@) {
        Some(v) => number_value(v) == Some(t.cold_read_qd as u64),
        None => t.cold_read_qd == base.cold_read_qd,
    }
    &&& match given(argv, i, "COMPACTION-DEAD-RATIO"@) {
        Some(v) => number_value(v) == Some(t.compaction_dead_ratio_pct as u64),
        None => t.compaction_dead_ratio_pct == base.compaction_dead_ratio_pct,
    }
    &&& match given(argv, i, "COMPACTION-SLICE"@) {
        Some(v) => memory_value(v) == Some(t.compaction_slice_bytes),
        None => t.compaction_slice_bytes == base.compaction_slice_bytes,
    }
    &&& match given(argv, i, "BLOB-THRESHOLD"@) {
        Some(v) => memory_value(v) == Some(t.blob_threshold_bytes as u64),
        None => t.blob_threshold_bytes == base.blob_threshold_bytes,
    }
    &&& match given(argv, i, "TIER-IO-MODE"@) {
        Some(v) => text::utf8(io_mode_label(t.tier_io_mode)) == text::lower_all(v),
        None => t.tier_io_mode == base.tier_io_mode,
    }
    &&& match given(argv, i, "TAIL-STALL-TIMEOUT"@) {
        Some(v) => number_value(v) == Some(t.tail_stall_timeout_ms as u64),
        None => t.tail_stall_timeout_ms == base.tail_stall_timeout_ms,
    }
}

/// An option is as it was given last, and as before where it was not given:
/// the mode, the sync class, the policy and the memory limit of a namespace
/// are what MODE, FSYNC, EVICTION and MAXMEMORY said.
#[verifier::rlimit(60)]
#[verifier::spinoff_prover]
pub proof fn law_options_are_as_given(
    argv: Seq<&[u8]>,
    i: int,
    o: NsOptions,
    defaults: TierSpec,
)
    requires
        3 <= i,
    ensures
        options_from(argv, i, o, defaults) matches Ok(r) ==> {
            &&& match given(argv, i, "FSYNC"@) {
                Some(v) => r.fsync is Some && text::utf8(fsync_label(r.fsync)) == text::lower_all(
                    v,
                ),
                None => r.fsync == o.fsync,
            }
            &&& match given(argv, i, "MODE"@) {
                Some(v) => mode_value(v) == Some(r.mode),
                None => r.mode == o.mode,
            }
            &&& match given(argv, i, "EVICTION"@) {
                Some(v) => r.policy is Some && policy_value(v) == r.policy,
                None => r.policy == o.policy,
            }
            &&& match given(argv, i, "MAXMEMORY"@) {
                Some(v) => r.maxmemory is Some && memory_value(v) == r.maxmemory,
                None => r.maxmemory == o.maxmemory,
            }
            &&& r.saw_budget == (o.saw_budget || given(argv, i, "MEM-BUDGET"@) is Some)
        },
    decreases argv.len() - i,
{
    if i + 1 < argv.len() {
        let opt = argv[i]@;
        let value = argv[i + 1]@;
        lemma_option_words(opt);
        lemma_value_words(value);
        law_tier_key_sets_its_field(o.tier, defaults, opt, value);
        if let Ok(next) = option_applied(o, defaults, opt, value) {
            law_options_are_as_given(argv, i + 2, next, defaults);
        }
    }
}

/// Whether a word is a tier key.
spec fn is_tier_word(opt: Seq<u8>) -> bool {
    text::is_word(opt, "MEM-BUDGET"@) || text::is_word(opt, "DISK-BUDGET"@) || text::is_word(
        opt,
        "MUTABLE-FRACTION"@,
    ) || text::is_word(opt, "MAINTAIN-SLICE"@) || text::is_word(opt, "COLD-READ-QD"@)
        || text::is_word(opt, "COMPACTION-DEAD-RATIO"@) || text::is_word(opt, "COMPACTION-SLICE"@)
        || text::is_word(opt, "BLOB-THRESHOLD"@) || text::is_word(opt, "TIER-IO-MODE"@)
        || text::is_word(opt, "TAIL-STALL-TIMEOUT"@)
}

proof fn lemma_other_words(opt: Seq<u8>)
    ensures
        text::is_word(opt, "MODE"@) || text::is_word(opt, "FSYNC"@) || text::is_word(
            opt,
            "EVICTION"@,
        ) || text::is_word(opt, "MAXMEMORY"@) ==> !is_tier_word(opt),
{
    lemma_option_words(opt);
}

proof fn lemma_tier_untouched(argv: Seq<&[u8]>, i: int, base: TierSpec, t: TierSpec)
    requires
        i + 1 < argv.len(),
        !is_tier_word(argv[i]@),
        tier_as_given(argv, i + 2, base, t),
    ensures
        tier_as_given(argv, i, base, t),
        given(argv, i, "MEM-BUDGET"@) == given(argv, i + 2, "MEM-BUDGET"@),
{
}

#[verifier::spinoff_prover]
proof fn lemma_tier_touched(
    argv: Seq<&[u8]>,
    i: int,
    base: TierSpec,
    next: TierSpec,
    t: TierSpec,
)
    requires
        i + 1 < argv.len(),
        sets_its_field(base, argv[i]@, argv[i + 1]@, next),
        tier_as_given(argv, i + 2, next, t),
    ensures
        tier_as_given(argv, i, base, t),
{
}

/// The tier of a namespace is as its keys were given last, on the defaults
/// where a key was not given.
#[verifier::spinoff_prover]
pub proof fn law_tier_is_as_given(argv: Seq<&[u8]>, i: int, o: NsOptions, defaults: TierSpec)
    requires
        3 <= i,
    ensures
        options_from(argv, i, o, defaults) matches Ok(r) ==> (match r.tier {
            Some(t) => tier_as_given(
                argv,
                i,
                match o.tier {
                    Some(b) => b,
                    None => defaults,
                },
                t,
            ),
            None => o.tier is None && given(argv, i, "MEM-BUDGET"@) is None,
        }),
    decreases argv.len() - i,
{
    if i + 1 < argv.len() {
        let opt = argv[i]@;
        let value = argv[i + 1]@;
        let r = options_from(argv, i, o, defaults);
        lemma_other_words(opt);
        if let Ok(next) = option_applied(o, defaults, opt, value) {
            law_tier_is_as_given(argv, i + 2, next, defaults);
            if text::is_word(opt, "MODE"@) || text::is_word(opt, "FSYNC"@) || text::is_word(
                opt,
                "EVICTION"@,
            ) || text::is_word(opt, "MAXMEMORY"@) {
                assert(next.tier == o.tier);
                if r is Ok && r->Ok_0.tier is Some {
                    lemma_tier_untouched(
                        argv,
                        i,
                        match o.tier {
                            Some(b) => b,
                            None => defaults,
                        },
                        r->Ok_0.tier->0,
                    );
                }
            } else if let TierKey::Applied(t1, budget) = tier_key(o.tier, defaults, opt, value) {
                assert(next.tier == Some(t1));
                if r is Ok && r->Ok_0.tier is Some {
                    law_tier_key_sets_its_field(o.tier, defaults, opt, value);
                    lemma_tier_touched(
                        argv,
                        i,
                        match o.tier {
                            Some(b) => b,
                            None => defaults,
                        },
                        t1,
                        r->Ok_0.tier->0,
                    );
                }
            }
        }
    }
}

/// INF.NS CREATE declares what it was given: the sync class is shown as the
/// FSYNC value in lower case, the mode, the policy and the memory limit are
/// those of MODE, EVICTION and MAXMEMORY, and what was not given stays unset,
/// in memory mode. A tier is declared exactly where MEM-BUDGET is given.
pub proof fn law_create_declares_what_was_given(argv: Seq<&[u8]>, defaults: TierSpec)
    ensures
        argv.len() < 3 ==> create_options(argv, defaults) is Err,
        create_options(argv, defaults) matches Ok(o) ==> {
            &&& match given(argv, 3, "FSYNC"@) {
                Some(v) => o.fsync is Some && text::utf8(fsync_label(o.fsync)) == text::lower_all(
                    v,
                ),
                None => o.fsync is None,
            }
            &&& match given(argv, 3, "MODE"@) {
                Some(v) => mode_value(v) == Some(o.mode),
                None => o.mode == NsMode::Memory,
            }
            &&& match given(argv, 3, "EVICTION"@) {
                Some(v) => o.policy is Some && policy_value(v) == o.policy,
                None => o.policy is None,
            }
            &&& match given(argv, 3, "MAXMEMORY"@) {
                Some(v) => o.maxmemory is Some && memory_value(v) == o.maxmemory,
                None => o.maxmemory is None,
            }
            &&& o.tier is Some <==> given(argv, 3, "MEM-BUDGET"@) is Some
            &&& o.tier matches Some(t) ==> tier_as_given(argv, 3, defaults, t)
        },
{
    law_options_are_as_given(argv, 3, no_options(), defaults);
    law_tier_is_as_given(argv, 3, no_options(), defaults);
}

/// A durable namespace with a sync class: MODE durable and FSYNC `always` or
/// `everysec` declare a durable namespace of that class, in any case of the
/// letters, and no other FSYNC value is taken.
pub proof fn law_durable_create_takes_its_class(argv: Seq<&[u8]>, defaults: TierSpec)
    requires
        argv.len() == 7,
        text::is_word(argv[3]@, "MODE"@),
        mode_value(argv[4]@) == Some(NsMode::Durable),
        text::is_word(argv[5]@, "FSYNC"@),
    ensures
        create_options(argv, defaults) is Ok <==> text::lower_all(argv[6]@) == text::utf8(
            "always"@,
        ) || text::lower_all(argv[6]@) == text::utf8("everysec"@),
        create_options(argv, defaults) matches Ok(o) ==> o.mode == NsMode::Durable && o.tier is None
            && o.fsync is Some && text::utf8(fsync_label(o.fsync)) == text::lower_all(argv[6]@),
{
    lemma_option_words(argv[3]@);
    lemma_option_words(argv[5]@);
    lemma_value_words(argv[6]@);
    reveal_with_fuel(options_from, 3);
    let o1 = NsOptions { mode: NsMode::Durable, ..no_options() };
    assert(option_applied(no_options(), defaults, argv[3]@, argv[4]@) == Ok::<NsOptions, Seq<char>>(
        o1,
    ));
    law_fsync_is_as_given(o1, defaults, argv[5]@, argv[6]@);
    assert(options_from(argv, 3, no_options(), defaults) == options_from(argv, 5, o1, defaults));
}

/// What INF.NS INFO shows of a tier: each row is the key's name and the
/// field's number, so a tier shows what its keys were given.
pub proof fn law_tier_rows_show_the_tier(t: TierSpec)
    ensures
        tier_pairs(t).len() == 10,
        tier_pairs(t)[0] == ("mem-budget"@, text::dec_chars(t.mem_budget_bytes as nat)),
        tier_pairs(t)[1] == ("disk-budget"@, text::dec_chars(t.disk_budget_bytes as nat)),
        tier_pairs(t)[2] == ("mutable-fraction"@, text::dec_chars(t.mutable_permille as nat)),
        tier_pairs(t)[3] == ("maintain-slice"@, text::dec_chars(t.maintain_slice_bytes as nat)),
        tier_pairs(t)[4] == ("cold-read-qd"@, text::dec_chars(t.cold_read_qd as nat)),
        tier_pairs(t)[5] == (
            "compaction-dead-ratio"@,
            text::dec_chars(t.compaction_dead_ratio_pct as nat),
        ),
        tier_pairs(t)[6] == ("compaction-slice"@, text::dec_chars(t.compaction_slice_bytes as nat)),
        tier_pairs(t)[7] == ("blob-threshold"@, text::dec_chars(t.blob_threshold_bytes as nat)),
        tier_pairs(t)[8] == ("tier-io-mode"@, io_mode_label(t.tier_io_mode)),
        tier_pairs(t)[9] == ("tail-stall-timeout"@, text::dec_chars(
            t.tail_stall_timeout_ms as nat,
        )),
{
}

/// What INF.NS INFO shows of a namespace is what was declared of it: its name,
/// id and mode, its sync class, its policy and limit or that they are
/// inherited, and its counts.
pub proof fn law_info_shows_the_namespace(e: NsEntry)
    ensures
        ns_pairs(e).len() == (if e.spec.tier is Some {
            18nat
        } else {
            8nat
        }),
        ns_pairs(e)[0] == ("name"@, text::lossy(e.spec.name@)),
        ns_pairs(e)[1] == ("id"@, text::dec_chars(e.spec.id as nat)),
        ns_pairs(e)[2] == ("mode"@, e.spec.mode.label()),
        ns_pairs(e)[3] == ("fsync"@, fsync_label(e.spec.fsync)),
        e.spec.policy matches Some(p) ==> ns_pairs(e)[4] == ("eviction"@, p.label()),
        e.spec.policy is None ==> ns_pairs(e)[4] == ("eviction"@, "inherit"@),
        e.spec.maxmemory matches Some(n) ==> ns_pairs(e)[5] == (
            "maxmemory"@,
            text::dec_chars(n as nat),
        ),
        e.spec.maxmemory is None ==> ns_pairs(e)[5] == ("maxmemory"@, "inherit"@),
        ns_pairs(e)[6] == ("keys"@, text::dec_chars(e.keys as nat)),
        ns_pairs(e)[7] == ("expires"@, text::dec_chars(e.expires as nat)),
        e.spec.tier matches Some(t) ==> ns_pairs(e).skip(8) == tier_pairs(t),
        fsync_label(None) == "-"@,
{
    if let Some(t) = e.spec.tier {
        assert(ns_pairs(e).skip(8) =~= tier_pairs(t));
    }
}

/// SET on a memory namespace is as its keys were given last: `inherit`, and a
/// limit of zero, take the setting away, and what was not given stays.
#[verifier::rlimit(40)]
#[verifier::spinoff_prover]
pub proof fn law_set_pressure_is_as_given(
    argv: Seq<&[u8]>,
    i: int,
    policy: Option<EvictionPolicy>,
    maxmemory: Option<u64>,
)
    requires
        3 <= i,
    ensures
        pressure_from(argv, i, policy, maxmemory) matches Ok(update) ==> (
        update matches NsSetUpdate::MemoryPressure { policy: p, maxmemory: m } && (match given(
            argv,
            i,
            "EVICTION"@,
        ) {
            Some(v) => if text::is_word(v, "inherit"@) {
                p is None
            } else {
                p is Some && policy_value(v) == p
            },
            None => p == policy,
        }) && (match given(argv, i, "MAXMEMORY"@) {
            Some(v) => if text::is_word(v, "inherit"@) {
                m is None
            } else {
                memory_value(v) matches Some(n) && (if n == 0 {
                    m is None
                } else {
                    m == Some(n)
                })
            },
            None => m == maxmemory,
        })),
    decreases argv.len() - i,
{
    if i + 1 < argv.len() {
        let opt = argv[i]@;
        let v = argv[i + 1]@;
        lemma_option_words(opt);
        if text::is_word(opt, "EVICTION"@) {
            if text::is_word(v, "inherit"@) {
                law_set_pressure_is_as_given(argv, i + 2, None, maxmemory);
            } else if let Some(p) = policy_value(v) {
                law_set_pressure_is_as_given(argv, i + 2, Some(p), maxmemory);
            }
        } else if text::is_word(opt, "MAXMEMORY"@) {
            if text::is_word(v, "inherit"@) {
                law_set_pressure_is_as_given(argv, i + 2, policy, None);
            } else if let Some(n) = memory_value(v) {
                law_set_pressure_is_as_given(
                    argv,
                    i + 2,
                    policy,
                    if n == 0 {
                        None
                    } else {
                        Some(n)
                    },
                );
            }
        }
    }
}

/// SET on a tiered namespace changes the fields it was given, to what was
/// given last, and no other; the create-only ones never change.
#[verifier::rlimit(40)]
#[verifier::spinoff_prover]
pub proof fn law_set_tier_is_as_given(argv: Seq<&[u8]>, i: int, tier: TierSpec)
    requires
        3 <= i,
    ensures
        tier_from(argv, i, tier) matches Ok(t) ==> tier_as_given(argv, i, tier, t)
            && t.tier_io_mode == tier.tier_io_mode && t.cold_read_qd == tier.cold_read_qd && given(
            argv,
            i,
            "MAXMEMORY"@,
        ) is None && given(argv, i, "EVICTION"@) is None,
    decreases argv.len() - i,
{
    if i + 1 < argv.len() {
        let opt = argv[i]@;
        let value = argv[i + 1]@;
        law_tier_key_sets_its_field(Some(tier), tier, opt, value);
        lemma_option_words(opt);
        if let TierKey::Applied(next, _) = tier_key(Some(tier), tier, opt, value) {
            law_set_tier_is_as_given(argv, i + 2, next);
        }
    }
}

/// SET goes to the namespace it names, which has to exist: a tiered one takes
/// tier keys, a memory one the memory pressure keys, and any other refuses.
pub proof fn law_set_follows_its_namespace(argv: Seq<&[u8]>, entries: Seq<NsEntry>, k: int)
    ensures
        set_update(argv, entries) is Ok ==> argv.len() >= 5 && argv.len() % 2 == 1 && find_ns(
            entries,
            argv[2]@,
            0,
        ) is Some,
        find_ns(entries, argv[2]@, 0) == Some(k) ==> (set_update(argv, entries) matches Ok(u)
            ==> (if entries[k].spec.tier is Some {
            u is Tier
        } else {
            u is MemoryPressure && entries[k].spec.mode == NsMode::Memory
        })),
        argv.len() >= 5 && argv.len() % 2 == 1 && find_ns(entries, argv[2]@, 0) is None
            ==> set_update(argv, entries) == Err::<NsSetUpdate, _>(not_found(argv[2]@)),
{
    if let Ok(u) = set_update(argv, entries) {
        if let Some(at) = find_ns(entries, argv[2]@, 0) {
            if entries[at].spec.tier is None {
                law_set_pressure_is_as_given(
                    argv,
                    3,
                    entries[at].spec.policy,
                    entries[at].spec.maxmemory,
                );
            }
        }
    }
}

/// A namespace is found by its name: the first entry of that name, and none
/// only where no entry has it.
pub proof fn law_namespace_is_found(entries: Seq<NsEntry>, name: Seq<u8>)
    ensures
        find_ns(entries, name, 0) matches Some(k) ==> 0 <= k < entries.len()
            && entries[k].spec.name@ == name && (forall|j: int|
            0 <= j < k ==> (#[trigger] entries[j]).spec.name@ != name),
        find_ns(entries, name, 0) is None ==> (forall|j: int|
            0 <= j < entries.len() ==> (#[trigger] entries[j]).spec.name@ != name),
{
    lemma_find_ns_from(entries, name, 0);
}

proof fn lemma_find_ns_from(entries: Seq<NsEntry>, name: Seq<u8>, from: int)
    requires
        0 <= from,
    ensures
        find_ns(entries, name, from) matches Some(k) ==> from <= k < entries.len()
            && entries[k].spec.name@ == name && (forall|j: int|
            from <= j < k ==> (#[trigger] entries[j]).spec.name@ != name),
        find_ns(entries, name, from) is None ==> (forall|j: int|
            from <= j < entries.len() ==> (#[trigger] entries[j]).spec.name@ != name),
    decreases entries.len() - from,
{
    if from < entries.len() && entries[from].spec.name@ != name {
        lemma_find_ns_from(entries, name, from + 1);
    }
}

/// The default databases are `db0` to `db15`: each such name is its database,
/// and no database goes by a name that does not read so.
pub proof fn law_default_databases_by_name(n: u16, name: Seq<u8>)
    ensures
        n < 16 ==> db_index(seq![100u8, 98u8] + text::dec(n as nat)) == Some(n),
        n >= 16 ==> db_index(seq![100u8, 98u8] + text::dec(n as nat)) is None,
        db_index(name) matches Some(db) ==> db < 16 && 3 <= name.len() <= 4 && name[0] == 100
            && name[1] == 98 && number_value(name.skip(2)) == Some(db as u64),
{
    let digits = text::dec(n as nat);
    let full = seq![100u8, 98u8] + digits;
    assert(full.skip(2) =~= digits);
    text::law_decimal_round_trip(n as nat);
    text::law_text_round_trip(text::dec_chars(n as nat), digits);
    reveal_with_fuel(text::dec, 3);
    if let Some(db) = db_index(name) {
        let rest = name.skip(2);
        let s = text::decoded(rest)->0;
        text::law_text_round_trip(s, rest);
        assert(text::utf8(s) == rest);
        assert(rest.len() > 0);
    }
}

/// The next local id is one past the highest in use, and 16 where none is.
pub proof fn law_local_id_follows_the_highest(entries: Seq<NsEntry>)
    ensures
        next_id(entries) == 16 || exists|i: int|
            0 <= i < entries.len() && (#[trigger] entries[i]).spec.id + 1 == next_id(entries),
    decreases entries.len(),
{
    if entries.len() > 0 {
        let rest = entries.drop_last();
        law_local_id_follows_the_highest(rest);
        if next_id(entries) != 16 {
            if next_id(entries) == next_id(rest) {
                let i = choose|i: int|
                    0 <= i < rest.len() && (#[trigger] rest[i]).spec.id + 1 == next_id(rest);
                assert(entries[i] == rest[i]);
            } else {
                assert(entries[entries.len() - 1] == entries.last());
            }
        }
    }
}

proof fn lemma_subcommand_words(arg: Seq<u8>)
    ensures
        shaped(arg, "CREATE"@, 6, 99),
        shaped(arg, "USE"@, 3, 117),
        shaped(arg, "SET"@, 3, 115),
        shaped(arg, "DROP"@, 4, 100),
        shaped(arg, "LIST"@, 4, 108),
        shaped(arg, "INFO"@, 4, 105),
{
    reveal_strlit("CREATE");
    reveal_strlit("USE");
    reveal_strlit("SET");
    reveal_strlit("DROP");
    reveal_strlit("LIST");
    reveal_strlit("INFO");
    lemma_shape(arg, "CREATE"@, 6, 99);
    lemma_shape(arg, "USE"@, 3, 117);
    lemma_shape(arg, "SET"@, 3, 115);
    lemma_shape(arg, "DROP"@, 4, 100);
    lemma_shape(arg, "LIST"@, 4, 108);
    lemma_shape(arg, "INFO"@, 4, 105);
}

/// INF.NS USE selects what it names: a default database by its number, and
/// else the namespace of that name, by its id; an unknown name is refused and
/// selects nothing, as is a topic.
pub proof fn law_use_selects_what_it_names(
    argv: Seq<&[u8]>,
    entries: Seq<NsEntry>,
    dbs: Seq<(u64, u64)>,
    rows: Seq<config::ConfigRow>,
    defaults: TierSpec,
    proto: Protocol,
)
    requires
        argv.len() == 3,
        text::is_word(argv[1]@, "USE"@),
    ensures
        ({
            let answer = ns_answer(argv, entries, dbs, rows, defaults, proto);
            &&& db_index(argv[2]@) matches Some(db) ==> answer.action == NsAction::UseDb(db)
            &&& answer.action matches NsAction::UseNs(id) ==> db_index(argv[2]@) is None && exists|
                k: int,
            |
                0 <= k < entries.len() && (#[trigger] entries[k]).spec.name@ == argv[2]@
                    && entries[k].spec.id == id && entries[k].spec.mode != NsMode::Topic
            &&& (db_index(argv[2]@) is None && (find_ns(entries, argv[2]@, 0) matches Some(k)
                && entries[k].spec.mode != NsMode::Topic)) ==> answer.action is UseNs
            &&& answer.action is UseDb || answer.action is UseNs ==> answer.reply
                == resp::simple_reply("OK"@)
            &&& db_index(argv[2]@) is None && find_ns(entries, argv[2]@, 0) is None
                ==> answer.action is Replied && answer.reply == resp::error_reply(
                not_found(argv[2]@),
            )
            &&& answer.action is UseDb || answer.action is UseNs || answer.action is Replied
        }),
{
    lemma_subcommand_words(argv[1]@);
    law_namespace_is_found(entries, argv[2]@);
}

/// INF.NS CREATE declares a memory namespace under the name it was given, with
/// an id that no entry has and the options it was given; a durable one is
/// refused here, and what cannot be parsed is answered by its error.
pub proof fn law_create_is_fresh_and_named(
    argv: Seq<&[u8]>,
    entries: Seq<NsEntry>,
    dbs: Seq<(u64, u64)>,
    rows: Seq<config::ConfigRow>,
    defaults: TierSpec,
    proto: Protocol,
)
    requires
        argv.len() >= 2,
        text::is_word(argv[1]@, "CREATE"@),
        forall|i: int| 0 <= i < entries.len() ==> (#[trigger] entries[i]).spec.id < u32::MAX,
    ensures
        ({
            let answer = ns_answer(argv, entries, dbs, rows, defaults, proto);
            &&& create_options(argv, defaults) matches Err(e) ==> answer.action is Replied
                && answer.reply == resp::error_reply(e)
            &&& create_options(argv, defaults) matches Ok(o) ==> (if o.mode == NsMode::Memory {
                answer.action matches NsAction::Create(ns) && ns.name == argv[2]@ && ns.mode
                    == o.mode && ns.fsync == o.fsync && ns.policy == o.policy && ns.maxmemory
                    == o.maxmemory && ns.tier == o.tier && ns.id >= 16 && (forall|i: int|
                    0 <= i < entries.len() ==> (#[trigger] entries[i]).spec.id < ns.id)
            } else {
                answer.action is Replied
            })
        }),
{
    law_local_id_is_fresh(entries);
    lemma_next_id_bound(entries);
}

proof fn lemma_next_id_bound(entries: Seq<NsEntry>)
    requires
        forall|i: int| 0 <= i < entries.len() ==> (#[trigger] entries[i]).spec.id < u32::MAX,
    ensures
        next_id(entries) <= u32::MAX,
    decreases entries.len(),
{
    if entries.len() > 0 {
        let rest = entries.drop_last();
        assert forall|i: int| 0 <= i < rest.len() implies (#[trigger] rest[i]).spec.id
            < u32::MAX by {
            assert(rest[i] == entries[i]);
        }
        lemma_next_id_bound(rest);
        assert(entries[entries.len() - 1].spec.id < u32::MAX);
    }
}

/// INF.NS SET and DROP act on the namespace they name: SET with the update it
/// parsed, DROP with the name alone.
pub proof fn law_set_and_drop_act_on_their_name(
    argv: Seq<&[u8]>,
    entries: Seq<NsEntry>,
    dbs: Seq<(u64, u64)>,
    rows: Seq<config::ConfigRow>,
    defaults: TierSpec,
    proto: Protocol,
)
    requires
        argv.len() >= 2,
    ensures
        ({
            let answer = ns_answer(argv, entries, dbs, rows, defaults, proto);
            &&& text::is_word(argv[1]@, "SET"@) ==> (set_update(argv, entries) matches Ok(u)
                ==> answer.action == NsAction::Update(argv[2]@, u))
            &&& text::is_word(argv[1]@, "SET"@) ==> (set_update(argv, entries) matches Err(e)
                ==> answer.action is Replied && answer.reply == resp::error_reply(e))
            &&& text::is_word(argv[1]@, "DROP"@) && argv.len() == 3 ==> answer.action
                == NsAction::Drop(argv[2]@)
            &&& text::is_word(argv[1]@, "DROP"@) && argv.len() != 3 ==> answer.action is Arity
            &&& answer.action is Drop ==> text::is_word(argv[1]@, "DROP"@)
            &&& answer.action is Update ==> text::is_word(argv[1]@, "SET"@)
            &&& answer.action is Create ==> text::is_word(argv[1]@, "CREATE"@)
        }),
{
    lemma_subcommand_words(argv[1]@);
}

/// INF.NS LIST names the sixteen default databases and every namespace, in
/// order, one reply each, behind a header with their number.
pub proof fn law_list_names_all(
    argv: Seq<&[u8]>,
    entries: Seq<NsEntry>,
    last: NsEntry,
    n: nat,
    dbs: Seq<(u64, u64)>,
    rows: Seq<config::ConfigRow>,
    defaults: TierSpec,
    proto: Protocol,
)
    requires
        argv.len() >= 2,
        text::is_word(argv[1]@, "LIST"@),
    ensures
        ns_answer(argv, entries, dbs, rows, defaults, proto).reply == resp::array_reply(
            16 + entries.len(),
        ) + db_names_reply(16) + names_reply(entries, entries.len() as int),
        names_reply(entries.push(last), (entries.len() + 1) as int) == names_reply(
            entries,
            entries.len() as int,
        ) + resp::bulk_reply(last.spec.name@),
        names_reply(entries, 0) == Seq::<u8>::empty(),
        db_names_reply((n + 1) as int) == db_names_reply(n as int) + resp::bulk_reply(
            text::utf8("db"@ + text::dec_chars(n)),
        ),
        db_names_reply(0) == Seq::<u8>::empty(),
{
    lemma_subcommand_words(argv[1]@);
    lemma_names_prefix(entries, last, entries.len() as int);
}

proof fn lemma_names_prefix(entries: Seq<NsEntry>, last: NsEntry, n: int)
    requires
        0 <= n <= entries.len(),
    ensures
        names_reply(entries.push(last), n) == names_reply(entries, n),
    decreases n,
{
    if n > 0 {
        lemma_names_prefix(entries, last, n - 1);
    }
}

/// INF.NS INFO of a default database counts that database and shows the
/// memory settings in force; of a namespace it shows the entry of that name.
pub proof fn law_info_is_of_what_it_names(
    argv: Seq<&[u8]>,
    entries: Seq<NsEntry>,
    dbs: Seq<(u64, u64)>,
    rows: Seq<config::ConfigRow>,
    defaults: TierSpec,
    proto: Protocol,
    k: int,
)
    requires
        argv.len() == 3,
        text::is_word(argv[1]@, "INFO"@),
    ensures
        ({
            let answer = ns_answer(argv, entries, dbs, rows, defaults, proto);
            &&& answer.action is Replied
            &&& db_index(argv[2]@) matches Some(db) ==> (db < dbs.len() ==> answer.reply
                == resp::map_reply(proto, 6) + settings::pairs_reply(
                seq![
                    ("name"@, text::lossy(argv[2]@)),
                    ("mode"@, "memory"@),
                    ("eviction"@, sections::setting_of(rows, "maxmemory-policy"@, "noeviction"@)),
                    ("maxmemory"@, sections::setting_of(rows, "maxmemory"@, "0"@)),
                    ("keys"@, text::dec_chars(dbs[db as int].0 as nat)),
                    ("expires"@, text::dec_chars(dbs[db as int].1 as nat)),
                ],
            ))
            &&& db_index(argv[2]@) is None && find_ns(entries, argv[2]@, 0) == Some(k)
                ==> answer.reply == resp::map_reply(proto, ns_pairs(entries[k]).len())
                + settings::pairs_reply(ns_pairs(entries[k]))
            &&& db_index(argv[2]@) is None && find_ns(entries, argv[2]@, 0) is None
                ==> answer.reply == resp::error_reply(not_found(argv[2]@))
        }),
{
    lemma_subcommand_words(argv[1]@);
}

/// What the store said of a change is what is replied: an OK, or the error it
/// gave.
pub proof fn law_outcome_is_replied(e: NsError)
    ensures
        outcome_reply(Ok(())) == resp::simple_reply("OK"@),
        outcome_reply(Err(e)) == resp::error_reply(e.message_text()),
{
}

/// The model of a step has what the step has.
pub proof fn law_step_is_its_action(
    spec: NsSpec,
    db: u16,
    id: u32,
    name: Vec<u8>,
    update: NsSetUpdate,
)
    ensures
        NsStep::Replied@ == NsAction::Replied,
        NsStep::Create(spec)@ == NsAction::Create(spec@),
        NsStep::UseDb(db)@ == NsAction::UseDb(db),
        NsStep::UseNs(id)@ == NsAction::UseNs(id),
        (NsStep::Update { name, update })@ == NsAction::Update(name@, update),
        (NsStep::Drop { name })@ == NsAction::Drop(name@),
        spec@.id == spec.id,
        spec@.name == spec.name@,
        spec@.mode == spec.mode,
        spec@.fsync == spec.fsync,
        spec@.policy == spec.policy,
        spec@.maxmemory == spec.maxmemory,
        spec@.tier == spec.tier,
{
}

/// How values are read: a number in decimal, an amount with its unit, a mode
/// and a policy by their names in any case. What is no text is not read.
pub proof fn law_values_are_read(value: Seq<u8>, n: u64, mode: NsMode, policy: EvictionPolicy)
    ensures
        number_value(text::dec(n as nat)) == Some(n),
        text::decoded(value) is None ==> number_value(value) is None && memory_value(value) is None
            && mode_value(value) is None && policy_value(value) is None,
        text::decoded(value) matches Some(s) ==> memory_value(value) == config::memory_number(
            text::utf8(text::lowercase(s)),
        ),
        text::decoded(value) matches Some(s) ==> (mode_value(value) == Some(mode) <==> mode.label()
            == text::lowercase(s)),
        text::decoded(value) matches Some(s) ==> (policy_value(value) == Some(policy)
            <==> policy.label() == text::lowercase(s)),
{
    text::law_decimal_round_trip(n as nat);
    text::law_text_round_trip(text::dec_chars(n as nat), text::dec(n as nat));
    if let Some(s) = text::decoded(value) {
        namespace::law_mode_names_round_trip(mode, text::lowercase(s));
        namespace::law_policy_names_round_trip(policy, text::lowercase(s));
    }
}

} // verus!
