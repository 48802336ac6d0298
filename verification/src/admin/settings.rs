//! `CONFIG`, and what the configured pressure keys ask of a cell.

use vstd::prelude::*;
use crate::admin::resp;
use crate::admin::resp::RespWriter;
use crate::admin::sections;
use crate::config;
use crate::config::{ConfigSetError, ConfigStore};
use crate::namespace::EvictionPolicy;
use crate::text;

verus! {

/// What a `CONFIG` command asks of the cell besides its reply.
#[derive(Copy, Clone, Debug, PartialEq, Eq, Structural)]
pub enum ConfigStep {
    /// The reply is all.
    Replied,
    /// Values were set: apply [`push_pressure`] to the keyspace.
    PushPressure,
    /// Reset the keyspace counters.
    ResetStats,
}

/// The reply that names a subcommand no command has.
pub open spec fn unknown_subcommand(name: Seq<u8>, command: Seq<char>) -> Seq<u8> {
    resp::error_reply(
        "ERR Unknown subcommand or wrong number of arguments for '"@ + text::lossy(name)
            + "'. Try "@ + command + "."@,
    )
}

/// Answers a subcommand no command has.
pub(crate) fn reply_unknown(w: &mut RespWriter, name: &[u8], command: &str)
    ensures
        final(w)@ == old(w)@ + unknown_subcommand(name@, command@),
        final(w).proto == old(w).proto,
{
    let mut s = text::owned("ERR Unknown subcommand or wrong number of arguments for '");
    s.append(text::lossy_string(name).as_str());
    s.append("'. Try ");
    s.append(command);
    s.append(".");
    w.error(s.as_str());
}

/// The pairs of a `CONFIG GET` reply.
pub open spec fn pairs_reply(pairs: Seq<(Seq<char>, Seq<char>)>) -> Seq<u8>
    decreases pairs.len(),
{
    if pairs.len() == 0 {
        Seq::empty()
    } else {
        pairs_reply(pairs.drop_last()) + resp::bulk_reply(text::utf8(pairs.last().0))
            + resp::bulk_reply(text::utf8(pairs.last().1))
    }
}

/// The error a refused pair is answered with.
pub open spec fn refusal_text(o: config::SetOutcome) -> Seq<char> {
    match o {
        config::SetOutcome::Unknown(key) =>
            "ERR Unknown option or number of arguments for CONFIG SET - '"@ + key + "'"@,
        config::SetOutcome::Immutable(key) =>
            "ERR CONFIG SET failed (possibly related to argument '"@ + key
                + "') - can't set immutable config"@,
        config::SetOutcome::Invalid(key, value) =>
            "ERR CONFIG SET failed (possibly related to argument '"@ + key
                + "') - invalid value '"@ + value + "'"@,
        config::SetOutcome::Stored(_, _) => Seq::empty(),
    }
}

/// The first pair from argument `i` on that would be refused.
pub open spec fn first_refusal(
    rows: Seq<config::ConfigRow>,
    argv: Seq<&[u8]>,
    i: int,
) -> Option<config::SetOutcome>
    decreases argv.len() - i,
{
    if i + 1 >= argv.len() {
        None
    } else {
        let o = config::set_outcome(rows, argv[i]@, argv[i + 1]@);
        if o is Stored {
            first_refusal(rows, argv, i + 2)
        } else {
            Some(o)
        }
    }
}

/// The rows once every pair from argument `i` on is stored.
pub open spec fn stored_all(
    rows: Seq<config::ConfigRow>,
    argv: Seq<&[u8]>,
    i: int,
) -> Seq<config::ConfigRow>
    decreases argv.len() - i,
{
    if i + 1 >= argv.len() {
        rows
    } else {
        stored_all(
            config::rows_after(rows, config::set_outcome(rows, argv[i]@, argv[i + 1]@)),
            argv,
            i + 2,
        )
    }
}

/// What a `CONFIG` command replies, which rows it leaves and what it asks.
pub struct ConfigAnswer {
    pub reply: Seq<u8>,
    pub rows: Seq<config::ConfigRow>,
    pub step: ConfigStep,
}

/// A reply that changes nothing.
pub open spec fn just(reply: Seq<u8>, rows: Seq<config::ConfigRow>) -> ConfigAnswer {
    ConfigAnswer { reply, rows, step: ConfigStep::Replied }
}

/// The answer to a `CONFIG` command. `SET` stores all its pairs or none.
pub open spec fn config_answer(
    argv: Seq<&[u8]>,
    rows: Seq<config::ConfigRow>,
    proto: resp::Protocol,
) -> ConfigAnswer {
    let sub = argv[1]@;
    if text::is_word(sub, "GET"@) {
        if argv.len() < 3 {
            just(
                resp::error_reply(
                    "ERR Unknown subcommand or wrong number of arguments for 'GET'. Try CONFIG HELP."@,
                ),
                rows,
            )
        } else {
            let hits = config::matching_rows(rows, argv.skip(2));
            just(resp::map_reply(proto, hits.len()) + pairs_reply(hits), rows)
        }
    } else if text::is_word(sub, "SET"@) {
        if argv.len() < 4 || (argv.len() - 2) % 2 != 0 {
            just(
                resp::error_reply(
                    "ERR Unknown subcommand or wrong number of arguments for 'SET'. Try CONFIG HELP."@,
                ),
                rows,
            )
        } else {
            match first_refusal(rows, argv, 2) {
                Some(o) => just(resp::error_reply(refusal_text(o)), rows),
                None => ConfigAnswer {
                    reply: resp::simple_reply("OK"@),
                    rows: stored_all(rows, argv, 2),
                    step: ConfigStep::PushPressure,
                },
            }
        }
    } else if text::is_word(sub, "RESETSTAT"@) {
        ConfigAnswer { reply: resp::simple_reply("OK"@), rows, step: ConfigStep::ResetStats }
    } else if text::is_word(sub, "REWRITE"@) {
        just(resp::error_reply("ERR The server is running without a config file"@), rows)
    } else {
        just(unknown_subcommand(sub, "CONFIG HELP"@), rows)
    }
}

fn reply_refusal(w: &mut RespWriter, e: &ConfigSetError)
    ensures
        final(w).proto == old(w).proto,
        final(w)@ == old(w)@ + resp::error_reply(
            refusal_text(
                match *e {
                    ConfigSetError::Unknown(key) => config::SetOutcome::Unknown(key@),
                    ConfigSetError::Immutable(key) => config::SetOutcome::Immutable(key@),
                    ConfigSetError::Invalid { key, value } => config::SetOutcome::Invalid(
                        key@,
                        value@,
                    ),
                },
            ),
        ),
{
    match e {
        ConfigSetError::Unknown(key) => {
            let mut s = text::owned("ERR Unknown option or number of arguments for CONFIG SET - '");
            s.append(key.as_str());
            s.append("'");
            w.error(s.as_str());
        },
        ConfigSetError::Immutable(key) => {
            let mut s = text::owned("ERR CONFIG SET failed (possibly related to argument '");
            s.append(key.as_str());
            s.append("') - can't set immutable config");
            w.error(s.as_str());
        },
        ConfigSetError::Invalid { key, value } => {
            let mut s = text::owned("ERR CONFIG SET failed (possibly related to argument '");
            s.append(key.as_str());
            s.append("') - invalid value '");
            s.append(value.as_str());
            s.append("'");
            w.error(s.as_str());
        },
    }
}

/// `CONFIG GET|SET|RESETSTAT|REWRITE`.
#[verifier::spinoff_prover]
#[verifier::rlimit(60)]
pub fn config(argv: &[&[u8]], store: &mut ConfigStore, w: &mut RespWriter) -> (r: ConfigStep)
    requires
        argv@.len() >= 2,
    ensures
        ({
            let answer = config_answer(argv@, old(store)@, old(w).proto);
            &&& r == answer.step
            &&& final(store)@ == answer.rows
            &&& final(w)@ == old(w)@ + answer.reply
        }),
        final(w).proto == old(w).proto,
{
    let sub = argv[1];
    if text::word(sub, "GET") {
        if argv.len() < 3 {
            w.error(
                "ERR Unknown subcommand or wrong number of arguments for 'GET'. Try CONFIG HELP.",
            );
            return ConfigStep::Replied;
        }
        reply_matching(argv, store, w);
        ConfigStep::Replied
    } else if text::word(sub, "SET") {
        if argv.len() < 4 || (argv.len() - 2) % 2 != 0 {
            w.error(
                "ERR Unknown subcommand or wrong number of arguments for 'SET'. Try CONFIG HELP.",
            );
            return ConfigStep::Replied;
        }
        let mut i: usize = 2;
        while i < argv.len()
            invariant
                2 <= i <= argv@.len(),
                (argv@.len() - i) % 2 == 0,
                *store == *old(store),
                *w == *old(w),
                first_refusal(store@, argv@, 2) == first_refusal(store@, argv@, i as int),
                text::is_word(argv@[1]@, "SET"@),
                !text::is_word(argv@[1]@, "GET"@),
                argv@.len() >= 4,
                (argv@.len() - 2) % 2 == 0,
            decreases argv.len() - i,
        {
            match store.check(argv[i], argv[i + 1]) {
                Ok(_) => {},
                Err(e) => {
                    reply_refusal(w, &e);
                    return ConfigStep::Replied;
                },
            }
            i += 2;
        }
        let mut j: usize = 2;
        while j < argv.len()
            invariant
                2 <= j <= argv@.len(),
                (argv@.len() - j) % 2 == 0,
                stored_all(old(store)@, argv@, 2) == stored_all(store@, argv@, j as int),
            decreases argv.len() - j,
        {
            let _ = store.set(argv[j], argv[j + 1]);
            j += 2;
        }
        w.simple("OK");
        ConfigStep::PushPressure
    } else if text::word(sub, "RESETSTAT") {
        w.simple("OK");
        ConfigStep::ResetStats
    } else if text::word(sub, "REWRITE") {
        w.error("ERR The server is running without a config file");
        ConfigStep::Replied
    } else {
        reply_unknown(w, sub, "CONFIG HELP");
        ConfigStep::Replied
    }
}

fn reply_matching(argv: &[&[u8]], store: &ConfigStore, w: &mut RespWriter)
    requires
        argv@.len() >= 3,
    ensures
        ({
            let hits = config::matching_rows(store@, argv@.skip(2));
            final(w)@ == old(w)@ + (resp::map_reply(old(w).proto, hits.len()) + pairs_reply(hits))
        }),
        final(w).proto == old(w).proto,
{
    let mut patterns: Vec<&[u8]> = Vec::new();
    let mut i: usize = 2;
    proof {
        assert(argv@.subrange(2, 2) =~= Seq::empty());
    }
    while i < argv.len()
        invariant
            2 <= i <= argv@.len(),
            patterns@ == argv@.subrange(2, i as int),
        decreases argv.len() - i,
    {
        patterns.push(argv[i]);
        i += 1;
        proof {
            assert(patterns@ =~= argv@.subrange(2, i as int));
        }
    }
    proof {
        assert(argv@.subrange(2, i as int) =~= argv@.skip(2));
    }
    let hits = store.get_matching(patterns.as_slice());
    let ghost listed = hits@.map_values(|t: (&'static str, &str)| (t.0@, t.1@));
    let ghost base = w@;
    let ghost header = resp::map_reply(w.proto, listed.len());
    w.map_header(hits.len());
    let mut k: usize = 0;
    proof {
        assert(listed.take(0) =~= Seq::empty());
        assert(w@ =~= base + (header + pairs_reply(listed.take(0))));
    }
    while k < hits.len()
        invariant
            k <= hits@.len(),
            listed == hits@.map_values(|t: (&'static str, &str)| (t.0@, t.1@)),
            w@ == base + (header + pairs_reply(listed.take(k as int))),
            w.proto == old(w).proto,
        decreases hits.len() - k,
    {
        proof {
            assert(listed.take(k + 1).drop_last() =~= listed.take(k as int));
            assert(listed.take(k + 1).last() == (hits@[k as int].0@, hits@[k as int].1@));
        }
        let ghost before = w@;
        w.bulk(hits[k].0.as_bytes());
        w.bulk(hits[k].1.as_bytes());
        k += 1;
        proof {
            assert(w@ =~= base + (header + pairs_reply(listed.take(k as int))));
        }
    }
    proof {
        assert(listed.take(k as int) =~= listed);
    }
}

/// What the pressure keys ask of a cell.
#[derive(Copy, Clone, Debug, PartialEq, Eq, Structural)]
pub struct Pressure {
    /// The cells a node-wide budget divides by.
    pub shares: u64,
    pub limit_bytes: u64,
    pub policy: EvictionPolicy,
    pub samples: u32,
    pub va_limit: u64,
    pub promote: bool,
    pub shadow: bool,
}

/// A configured number, or the default where the key is absent or no number.
pub open spec fn number_of(rows: Seq<config::ConfigRow>, key: Seq<char>, default: u64) -> u64 {
    match config::find_row(rows, key, 0) {
        Some(i) => match text::as_u64(text::unsigned_number(text::utf8(rows[i].value))) {
            Some(n) => n,
            None => default,
        },
        None => default,
    }
}

fn number(store: &ConfigStore, key: &str, default: u64) -> (r: u64)
    ensures
        r == number_of(store@, key@, default),
{
    match store.get(key) {
        Some(v) => match text::parse_u64(v.as_bytes()) {
            Some(n) => n,
            None => default,
        },
        None => default,
    }
}

/// The pressure keys as one cell applies them: node budgets divide by the
/// cell count, since cells are symmetric.
pub open spec fn pressure_of(
    rows: Seq<config::ConfigRow>,
    cells: u16,
    va_limit_default: u64,
) -> Pressure {
    let shares = if cells == 0 {
        1u64
    } else {
        cells as u64
    };
    let samples = number_of(rows, "maxmemory-samples"@, 5);
    Pressure {
        shares,
        limit_bytes: number_of(rows, "maxmemory"@, 0) / shares,
        policy: match EvictionPolicy::named(
            sections::setting_of(rows, "maxmemory-policy"@, "noeviction"@),
        ) {
            Some(p) => p,
            None => EvictionPolicy::NoEviction,
        },
        samples: if samples <= u32::MAX {
            samples as u32
        } else {
            5
        },
        va_limit: number_of(rows, "tiered-reserved-va-limit"@, va_limit_default) / shares,
        promote: sections::setting_of(rows, "tiered-promote-on-read"@, "yes"@) != "no"@,
        shadow: sections::setting_of(rows, "tiered-shadow-overwrite"@, "no"@) == "yes"@,
    }
}

/// What the configured pressure keys ask of a cell.
pub fn push_pressure(store: &ConfigStore, cells: u16, va_limit_default: u64) -> (r: Pressure)
    ensures
        r == pressure_of(store@, cells, va_limit_default),
{
    let shares: u64 = if cells == 0 {
        1
    } else {
        cells as u64
    };
    let policy = match EvictionPolicy::parse(
        sections::setting(store, "maxmemory-policy", "noeviction"),
    ) {
        Some(p) => p,
        None => EvictionPolicy::NoEviction,
    };
    let samples: u64 = number(store, "maxmemory-samples", 5);
    Pressure {
        shares,
        limit_bytes: number(store, "maxmemory", 0) / shares,
        policy,
        samples: if samples <= u32::MAX as u64 {
            samples as u32
        } else {
            5
        },
        va_limit: number(store, "tiered-reserved-va-limit", va_limit_default) / shares,
        promote: !text::same_str(
            sections::setting(store, "tiered-promote-on-read", "yes"),
            "no",
        ),
        shadow: text::same_str(sections::setting(store, "tiered-shadow-overwrite", "no"), "yes"),
    }
}

/// The cells' shares of a node-wide bound never exceed it together.
pub proof fn law_shares_keep_the_bound(
    rows: Seq<config::ConfigRow>,
    cells: u16,
    va_limit_default: u64,
)
    ensures
        pressure_of(rows, cells, va_limit_default).limit_bytes * cells <= number_of(
            rows,
            "maxmemory"@,
            0,
        ),
        pressure_of(rows, cells, va_limit_default).va_limit * cells <= number_of(
            rows,
            "tiered-reserved-va-limit"@,
            va_limit_default,
        ),
{
    let m = number_of(rows, "maxmemory"@, 0) as int;
    let v = number_of(rows, "tiered-reserved-va-limit"@, va_limit_default) as int;
    let n = if cells == 0 {
        1int
    } else {
        cells as int
    };
    assert((m / n) * n <= m && (v / n) * n <= v) by (nonlinear_arith)
        requires
            n >= 1,
            m >= 0,
            v >= 0,
    ;
}

/// A refused `CONFIG SET` changes nothing, whichever pair was refused.
pub proof fn law_refused_set_changes_nothing(
    argv: Seq<&[u8]>,
    rows: Seq<config::ConfigRow>,
    proto: resp::Protocol,
)
    requires
        argv.len() >= 2,
        config_answer(argv, rows, proto).step != ConfigStep::PushPressure,
    ensures
        config_answer(argv, rows, proto).rows == rows,
{
}

/// Pairs are replied key first, in order.
pub proof fn law_pairs_are_replied_in_order(
    pairs: Seq<(Seq<char>, Seq<char>)>,
    key: Seq<char>,
    value: Seq<char>,
)
    ensures
        pairs_reply(pairs.push((key, value))) == pairs_reply(pairs) + resp::bulk_reply(
            text::utf8(key),
        ) + resp::bulk_reply(text::utf8(value)),
        pairs_reply(Seq::empty()) == Seq::<u8>::empty(),
{
    assert(pairs.push((key, value)).drop_last() =~= pairs);
}

/// The value given last to a key among the pairs from `i` on.
pub open spec fn last_set(argv: Seq<&[u8]>, i: int, key: Seq<char>) -> Option<Seq<u8>>
    decreases argv.len() - i,
{
    if i + 1 >= argv.len() {
        None
    } else {
        match last_set(argv, i + 2, key) {
            Some(value) => Some(value),
            None => if text::lowercase(text::lossy(argv[i]@)) == key {
                Some(argv[i + 1]@)
            } else {
                None
            },
        }
    }
}

proof fn lemma_refusal_by_schema(
    a: Seq<config::ConfigRow>,
    b: Seq<config::ConfigRow>,
    key: Seq<u8>,
    value: Seq<u8>,
)
    requires
        config::same_schema(a, b),
    ensures
        config::set_outcome(a, key, value) is Stored <==> config::set_outcome(
            b,
            key,
            value,
        ) is Stored,
{
    let name = text::lowercase(text::lossy(key));
    lemma_same_position(a, b, name, 0);
    config::law_key_is_found(a, name);
    config::law_key_is_found(b, name);
}

proof fn lemma_same_position(
    a: Seq<config::ConfigRow>,
    b: Seq<config::ConfigRow>,
    key: Seq<char>,
    from: int,
)
    requires
        config::same_schema(a, b),
        0 <= from,
    ensures
        config::find_row(a, key, from) == config::find_row(b, key, from),
    decreases a.len() - from,
{
    if from < a.len() {
        assert(a[from].key == b[from].key);
        lemma_same_position(a, b, key, from + 1);
    }
}

proof fn lemma_stored_rows(
    base: Seq<config::ConfigRow>,
    rows: Seq<config::ConfigRow>,
    argv: Seq<&[u8]>,
    i: int,
    k: int,
)
    requires
        0 <= i,
        config::same_schema(base, rows),
        first_refusal(base, argv, i) is None,
        0 <= k < rows.len(),
        config::find_row(rows, rows[k].key, 0) == Some(k),
    ensures
        ({
            let after = stored_all(rows, argv, i);
            &&& after.len() == rows.len()
            &&& after[k].key == rows[k].key
            &&& match last_set(argv, i, rows[k].key) {
                Some(value) => Some(after[k].value) == config::normalized(
                    rows[k].kind,
                    text::lossy(value),
                ),
                None => after[k] == rows[k],
            }
        }),
    decreases argv.len() - i,
{
    if i + 1 < argv.len() {
        let key = argv[i]@;
        let value = argv[i + 1]@;
        let o = config::set_outcome(rows, key, value);
        lemma_refusal_by_schema(base, rows, key, value);
        assert(o is Stored);
        let next = config::rows_after(rows, o);
        config::law_set_keeps_schema(rows, key, value);
        config::law_get_after_set(rows, key, value, rows[k].key);
        assert(rows[k].key == next[k].key && rows[k].kind == next[k].kind);
        assert(config::same_schema(base, next)) by {
            assert forall|j: int| 0 <= j < base.len() implies (#[trigger] base[j]).key
                == next[j].key && base[j].class == next[j].class && base[j].kind == next[j].kind by {
                assert(rows[j].key == next[j].key);
            }
        }
        lemma_stored_rows(base, next, argv, i + 2, k);
    }
}

/// CONFIG SET of several pairs stores them all: every row that was given a
/// value holds the one given last, in the form of its kind, and every other
/// row is as it was.
pub proof fn law_set_stores_every_pair(
    argv: Seq<&[u8]>,
    rows: Seq<config::ConfigRow>,
    proto: resp::Protocol,
    k: int,
)
    requires
        argv.len() >= 2,
        config_answer(argv, rows, proto).step == ConfigStep::PushPressure,
        0 <= k < rows.len(),
        config::find_row(rows, rows[k].key, 0) == Some(k),
    ensures
        ({
            let after = config_answer(argv, rows, proto).rows;
            &&& after.len() == rows.len()
            &&& after[k].key == rows[k].key
            &&& match last_set(argv, 2, rows[k].key) {
                Some(value) => Some(after[k].value) == config::normalized(
                    rows[k].kind,
                    text::lossy(value),
                ),
                None => after[k] == rows[k],
            }
        }),
{
    lemma_stored_rows(rows, rows, argv, 2, k);
}

/// A SET is refused by its first pair that cannot be stored, and only by such
/// a pair: then the rows stay, and the reply names the reason.
pub proof fn law_first_bad_pair_refuses(
    argv: Seq<&[u8]>,
    rows: Seq<config::ConfigRow>,
    i: int,
    j: int,
)
    requires
        0 <= i <= j,
        (j - i) % 2 == 0,
        j + 1 < argv.len(),
        config::set_outcome(rows, argv[j]@, argv[j + 1]@) !is Stored,
    ensures
        first_refusal(rows, argv, i) matches Some(o) && o !is Stored,
    decreases j - i,
{
    if i < j {
        law_first_bad_pair_refuses(argv, rows, i + 2, j);
    }
}

/// A SET whose every pair can be stored is not refused.
pub proof fn law_good_pairs_are_stored(argv: Seq<&[u8]>, rows: Seq<config::ConfigRow>, i: int)
    requires
        0 <= i,
        forall|j: int|
            i <= j && j + 1 < argv.len() ==> config::set_outcome(
                rows,
                (#[trigger] argv[j])@,
                argv[j + 1]@,
            ) is Stored,
    ensures
        first_refusal(rows, argv, i) is None,
    decreases argv.len() - i,
{
    if i + 1 < argv.len() {
        assert(config::set_outcome(rows, argv[i]@, argv[i + 1]@) is Stored);
        law_good_pairs_are_stored(argv, rows, i + 2);
    }
}

/// What the cells are told of memory pressure follows the settings: each cell
/// bounds an equal share of `maxmemory`, rounded down, the policy is the one
/// set, reads promote unless switched off, and overwrites shadow only when
/// switched on.
pub proof fn law_pressure_follows_the_settings(
    rows: Seq<config::ConfigRow>,
    cells: u16,
    va_limit_default: u64,
    p: EvictionPolicy,
)
    requires
        cells > 0,
    ensures
        ({
            let got = pressure_of(rows, cells, va_limit_default);
            let limit = number_of(rows, "maxmemory"@, 0);
            let va = number_of(rows, "tiered-reserved-va-limit"@, va_limit_default);
            &&& got.shares == cells
            &&& got.limit_bytes * cells <= limit < (got.limit_bytes + 1) * cells
            &&& got.va_limit * cells <= va < (got.va_limit + 1) * cells
            &&& sections::setting_of(rows, "maxmemory-policy"@, "noeviction"@) == p.label()
                ==> got.policy == p
            &&& number_of(rows, "maxmemory-samples"@, 5) < 0x1_0000_0000 ==> got.samples
                == number_of(rows, "maxmemory-samples"@, 5)
            &&& got.promote <==> sections::setting_of(rows, "tiered-promote-on-read"@, "yes"@)
                != "no"@
            &&& got.shadow <==> sections::setting_of(rows, "tiered-shadow-overwrite"@, "no"@)
                == "yes"@
        }),
{
    let m = number_of(rows, "maxmemory"@, 0) as int;
    let v = number_of(rows, "tiered-reserved-va-limit"@, va_limit_default) as int;
    let n = cells as int;
    assert((m / n) * n <= m < (m / n + 1) * n && (v / n) * n <= v < (v / n + 1) * n)
        by (nonlinear_arith)
        requires
            n >= 1,
            m >= 0,
            v >= 0,
    ;
    crate::namespace::law_policy_names_round_trip(p, p.label());
}

/// A number among the settings is the value of its row, and the default where
/// there is no such row or it holds no number.
pub proof fn law_setting_is_its_row(
    rows: Seq<config::ConfigRow>,
    key: Seq<char>,
    default: u64,
    n: u64,
    i: int,
)
    ensures
        config::find_row(rows, key, 0) is None ==> number_of(rows, key, default) == default,
        config::find_row(rows, key, 0) == Some(i) && rows[i].value == text::dec_chars(n as nat)
            ==> number_of(rows, key, default) == n,
{
    text::law_decimal_round_trip(n as nat);
}

/// CONFIG answers its subcommand: GET the matching rows, SET as its pairs
/// stand, RESETSTAT the order to reset; none but SET changes a row.
pub proof fn law_config_answers_its_subcommand(
    argv: Seq<&[u8]>,
    rows: Seq<config::ConfigRow>,
    proto: resp::Protocol,
)
    requires
        argv.len() >= 2,
    ensures
        ({
            let answer = config_answer(argv, rows, proto);
            &&& text::is_word(argv[1]@, "GET"@) && argv.len() >= 3 ==> answer.reply
                == resp::map_reply(
                proto,
                config::matching_rows(rows, argv.skip(2)).len(),
            ) + pairs_reply(config::matching_rows(rows, argv.skip(2)))
            &&& text::is_word(argv[1]@, "SET"@) && argv.len() >= 4 && argv.len() % 2 == 0
                && first_refusal(rows, argv, 2) is None ==> answer.step == ConfigStep::PushPressure
                && answer.reply == resp::simple_reply("OK"@)
            &&& text::is_word(argv[1]@, "SET"@) && argv.len() >= 4 && argv.len() % 2 == 0 ==> (
            first_refusal(rows, argv, 2) matches Some(o) ==> answer.step == ConfigStep::Replied
                && answer.rows == rows && answer.reply == resp::error_reply(refusal_text(o)))
            &&& text::is_word(argv[1]@, "RESETSTAT"@) ==> answer.step == ConfigStep::ResetStats
                && answer.reply == resp::simple_reply("OK"@)
            &&& answer.step == ConfigStep::PushPressure ==> text::is_word(argv[1]@, "SET"@)
            &&& answer.step == ConfigStep::ResetStats ==> text::is_word(argv[1]@, "RESETSTAT"@)
        }),
{
    let sub = argv[1]@;
    reveal_strlit("GET");
    reveal_strlit("SET");
    reveal_strlit("RESETSTAT");
    lemma_word_shape(sub, "GET"@);
    lemma_word_shape(sub, "SET"@);
    lemma_word_shape(sub, "RESETSTAT"@);
}

proof fn lemma_word_shape(arg: Seq<u8>, token: Seq<char>)
    requires
        vstd::utf8::is_ascii_chars(token),
        token.len() > 0,
    ensures
        text::is_word(arg, token) ==> arg.len() == token.len() && text::lower(arg[0])
            == text::lower(token[0] as u8),
{
    vstd::utf8::is_ascii_chars_encode_utf8(token);
    if text::is_word(arg, token) {
        assert(text::lower_all(arg).len() == text::lower_all(text::utf8(token)).len());
        assert(text::lower_all(arg)[0] == text::lower_all(text::utf8(token))[0]);
    }
}

/// A refusal says why: a key that is not known, one that cannot be changed, or
/// a value that cannot be read, with the key and the value.
pub proof fn law_refusal_says_why(key: Seq<char>, value: Seq<char>)
    ensures
        refusal_text(config::SetOutcome::Unknown(key))
            == "ERR Unknown option or number of arguments for CONFIG SET - '"@ + key + "'"@,
        refusal_text(config::SetOutcome::Immutable(key))
            == "ERR CONFIG SET failed (possibly related to argument '"@ + key
            + "') - can't set immutable config"@,
        refusal_text(config::SetOutcome::Invalid(key, value))
            == "ERR CONFIG SET failed (possibly related to argument '"@ + key
            + "') - invalid value '"@ + value + "'"@,
{
}

/// Without cells there is one share, the whole.
pub proof fn law_no_cells_is_one_share(rows: Seq<config::ConfigRow>, va_limit_default: u64)
    ensures
        pressure_of(rows, 0, va_limit_default).shares == 1,
        pressure_of(rows, 0, va_limit_default).limit_bytes == number_of(rows, "maxmemory"@, 0),
        pressure_of(rows, 0, va_limit_default).va_limit == number_of(
            rows,
            "tiered-reserved-va-limit"@,
            va_limit_default,
        ),
{
}

} // verus!
