//! `COMMAND`: introspection of the command table.

use vstd::prelude::*;
use crate::admin::resp;
use crate::admin::resp::RespWriter;
use crate::admin::settings;
use crate::text;

verus! {

/// Where a command's keys stand among its arguments.
#[derive(Copy, Clone, Debug, PartialEq, Eq, Structural)]
pub struct KeySpec {
    /// The first key, 0 where there is none.
    pub first: u16,
    /// The last key; negative counts from the end.
    pub last: i16,
    pub step: u16,
}

/// One row of the command table.
#[derive(Copy, Clone, Debug)]
pub struct CommandMeta {
    pub name: &'static str,
    pub arity: i32,
    pub readonly: bool,
    pub write: bool,
    pub denyoom: bool,
    pub admin: bool,
    pub fast: bool,
    pub keys: KeySpec,
}

/// The flag, where it is set.
pub open spec fn flag(set: bool, name: Seq<char>) -> Seq<Seq<char>> {
    if set {
        seq![name]
    } else {
        Seq::empty()
    }
}

/// The names of a command's flags, in order.
pub open spec fn flags_of(m: CommandMeta) -> Seq<Seq<char>> {
    flag(m.readonly, "readonly"@) + flag(m.write, "write"@) + flag(m.denyoom, "denyoom"@) + flag(
        m.admin,
        "admin"@,
    ) + flag(m.fast, "fast"@)
}

/// Simple strings, one after another.
pub open spec fn simples(names: Seq<Seq<char>>) -> Seq<u8>
    decreases names.len(),
{
    if names.len() == 0 {
        Seq::empty()
    } else {
        simples(names.drop_last()) + resp::simple_reply(names.last())
    }
}

/// One command's row.
pub open spec fn row_reply(m: CommandMeta) -> Seq<u8> {
    resp::array_reply(10) + resp::bulk_reply(text::lower_all(text::utf8(m.name@)))
        + resp::int_reply(m.arity as int) + resp::array_reply(flags_of(m).len()) + simples(
        flags_of(m),
    ) + resp::int_reply(m.keys.first as int) + resp::int_reply(m.keys.last as int)
        + resp::int_reply(m.keys.step as int) + resp::array_reply(0) + resp::array_reply(0)
        + resp::array_reply(0) + resp::array_reply(0)
}

/// The rows of the first `n` commands.
pub open spec fn rows_reply(table: Seq<CommandMeta>, n: int) -> Seq<u8>
    decreases n,
{
    if n <= 0 {
        Seq::empty()
    } else {
        rows_reply(table, n - 1) + row_reply(table[n - 1])
    }
}

/// The rows of the looked-up arguments `2..n`; an unknown command is the
/// absent array.
pub open spec fn lookups_reply(
    table: Seq<CommandMeta>,
    found: Seq<Option<usize>>,
    proto: resp::Protocol,
    n: int,
) -> Seq<u8>
    decreases n,
{
    if n <= 2 {
        Seq::empty()
    } else {
        lookups_reply(table, found, proto, n - 1) + match found[n - 1] {
            Some(k) => row_reply(table[k as int]),
            None => resp::null_array_reply(proto),
        }
    }
}

/// The position after which no key stands.
pub open spec fn last_key(spec: KeySpec, argc: int) -> int {
    if spec.last >= 0 {
        spec.last as int
    } else if argc + spec.last >= 0 {
        argc + spec.last
    } else {
        0
    }
}

/// The key positions from `at` on.
pub open spec fn key_positions(at: int, last: int, argc: int, step: int) -> Seq<int>
    decreases
        if at < argc {
            argc - at
        } else {
            0
        },
{
    if at <= last && at < argc && step > 0 {
        seq![at] + key_positions(at + step, last, argc, step)
    } else {
        Seq::empty()
    }
}

/// The keys at these positions of the command that starts at argument 2.
pub open spec fn keys_reply(argv: Seq<&[u8]>, keys: Seq<int>) -> Seq<u8>
    decreases keys.len(),
{
    if keys.len() == 0 {
        Seq::empty()
    } else {
        keys_reply(argv, keys.drop_last()) + resp::bulk_reply(argv[2 + keys.last()]@)
    }
}

/// The answer to `COMMAND GETKEYS`.
pub open spec fn getkeys_reply(
    argv: Seq<&[u8]>,
    table: Seq<CommandMeta>,
    found: Seq<Option<usize>>,
    arity_ok: bool,
) -> Seq<u8> {
    if argv.len() < 3 {
        resp::error_reply(
            "ERR Unknown subcommand or wrong number of arguments for 'GETKEYS'. Try COMMAND HELP."@,
        )
    } else {
        match found[2] {
            None => resp::error_reply("ERR Invalid command specified"@),
            Some(k) => {
                let spec = table[k as int].keys;
                let argc = argv.len() - 2;
                let keys = key_positions(
                    spec.first as int,
                    last_key(spec, argc),
                    argc,
                    spec.step as int,
                );
                if !arity_ok {
                    resp::error_reply("ERR Invalid number of arguments specified for command"@)
                } else if spec.first == 0 || keys.len() == 0 {
                    resp::error_reply("ERR The command has no key arguments"@)
                } else {
                    resp::array_reply(keys.len()) + keys_reply(argv, keys)
                }
            },
        }
    }
}

/// The answer to `COMMAND`.
pub open spec fn command_reply(
    argv: Seq<&[u8]>,
    table: Seq<CommandMeta>,
    found: Seq<Option<usize>>,
    arity_ok: bool,
    proto: resp::Protocol,
) -> Seq<u8> {
    if argv.len() == 1 {
        resp::array_reply(table.len()) + rows_reply(table, table.len() as int)
    } else if text::is_word(argv[1]@, "COUNT"@) {
        resp::int_reply(table.len() as int)
    } else if text::is_word(argv[1]@, "INFO"@) {
        resp::array_reply((argv.len() - 2) as nat) + lookups_reply(
            table,
            found,
            proto,
            argv.len() as int,
        )
    } else if text::is_word(argv[1]@, "DOCS"@) {
        resp::map_reply(proto, 0)
    } else if text::is_word(argv[1]@, "GETKEYS"@) {
        getkeys_reply(argv, table, found, arity_ok)
    } else {
        settings::unknown_subcommand(argv[1]@, "COMMAND HELP"@)
    }
}

/// `COMMAND [COUNT|INFO|DOCS|GETKEYS]`. `found` gives the table row of each
/// argument that names a command, and `arity_ok` whether the command of
/// `GETKEYS` takes that many arguments.
pub fn command_introspection(
    argv: &[&[u8]],
    table: &[CommandMeta],
    found: &[Option<usize>],
    arity_ok: bool,
    w: &mut RespWriter,
)
    requires
        1 <= argv@.len() == found@.len(),
        forall|i: int|
            0 <= i < found@.len() ==> ((#[trigger] found@[i]) matches Some(k) ==> k
                < table@.len()),
        table@.len() <= i64::MAX,
    ensures
        final(w)@ == old(w)@ + command_reply(argv@, table@, found@, arity_ok, old(w).proto),
        final(w).proto == old(w).proto,
{
    if argv.len() == 1 {
        let ghost base = w@;
        w.array_header(table.len());
        let mut i: usize = 0;
        proof {
            assert(w@ =~= base + (resp::array_reply(table@.len()) + rows_reply(table@, 0)));
        }
        while i < table.len()
            invariant
                i <= table@.len(),
                w@ == base + (resp::array_reply(table@.len()) + rows_reply(table@, i as int)),
                w.proto == old(w).proto,
            decreases table.len() - i,
        {
            command_row(&table[i], w);
            i += 1;
            proof {
                let head = resp::array_reply(table@.len());
                let rows = rows_reply(table@, i - 1);
                let _ = resp::extended(base, head + rows, row_reply(table@[i - 1]));
                let _ = resp::extended(head, rows, row_reply(table@[i - 1]));
            }
        }
        return ;
    }
    let sub = argv[1];
    if text::word(sub, "COUNT") {
        w.integer(table.len() as i64);
    } else if text::word(sub, "INFO") {
        let ghost base = w@;
        let ghost head = resp::array_reply((argv@.len() - 2) as nat);
        let ghost proto = w.proto;
        w.array_header(argv.len() - 2);
        let mut i: usize = 2;
        proof {
            assert(w@ =~= base + (head + lookups_reply(table@, found@, proto, 2)));
        }
        while i < argv.len()
            invariant
                2 <= i <= argv@.len(),
                argv@.len() == found@.len(),
                forall|i: int|
                    0 <= i < found@.len() ==> ((#[trigger] found@[i]) matches Some(k) ==> k
                        < table@.len()),
                w@ == base + (head + lookups_reply(table@, found@, proto, i as int)),
                w.proto == proto,
                proto == old(w).proto,
            decreases argv.len() - i,
        {
            match found[i] {
                Some(k) => {
                    assert(found@[i as int] == Some(k));
                    command_row(&table[k], w)
                },
                None => w.null_array(),
            }
            i += 1;
            proof {
                let rows = lookups_reply(table@, found@, proto, i - 1);
                let row = match found@[i - 1] {
                    Some(k) => row_reply(table@[k as int]),
                    None => resp::null_array_reply(proto),
                };
                let _ = resp::extended(base, head + rows, row);
                let _ = resp::extended(head, rows, row);
            }
        }
    } else if text::word(sub, "DOCS") {
        w.map_header(0);
    } else if text::word(sub, "GETKEYS") {
        command_getkeys(argv, table, found, arity_ok, w);
    } else {
        settings::reply_unknown(w, sub, "COMMAND HELP");
    }
}

fn push_flag(names: &mut Vec<&'static str>, set: bool, name: &'static str)
    ensures
        views(final(names)@) == views(old(names)@) + flag(set, name@),
{
    let ghost before = names@;
    if set {
        names.push(name);
    }
    proof {
        assert(views(names@) =~= views(before) + flag(set, name@));
    }
}

spec fn views(names: Seq<&'static str>) -> Seq<Seq<char>> {
    names.map_values(|s: &'static str| s@)
}

/// Writes one command's row.
pub fn command_row(m: &CommandMeta, w: &mut RespWriter)
    ensures
        final(w)@ == old(w)@ + row_reply(*m),
        final(w).proto == old(w).proto,
{
    let ghost base = w@;
    let mut names: Vec<&'static str> = Vec::new();
    proof {
        assert(views(names@) =~= Seq::empty());
    }
    push_flag(&mut names, m.readonly, "readonly");
    push_flag(&mut names, m.write, "write");
    push_flag(&mut names, m.denyoom, "denyoom");
    push_flag(&mut names, m.admin, "admin");
    push_flag(&mut names, m.fast, "fast");
    proof {
        assert(views(names@) =~= flags_of(*m));
    }
    let ghost mut done = resp::array_reply(10);
    w.array_header(10);
    w.bulk(text::lowered(m.name.as_bytes()).as_slice());
    proof {
        done = resp::extended(base, done, resp::bulk_reply(text::lower_all(text::utf8(m.name@))));
    }
    w.integer(m.arity as i64);
    proof {
        done = resp::extended(base, done, resp::int_reply(m.arity as int));
    }
    w.array_header(names.len());
    proof {
        done = resp::extended(base, done, resp::array_reply(flags_of(*m).len()));
    }
    write_simples(names.as_slice(), w);
    proof {
        done = resp::extended(base, done, simples(flags_of(*m)));
    }
    w.integer(m.keys.first as i64);
    proof {
        done = resp::extended(base, done, resp::int_reply(m.keys.first as int));
    }
    w.integer(m.keys.last as i64);
    proof {
        done = resp::extended(base, done, resp::int_reply(m.keys.last as int));
    }
    w.integer(m.keys.step as i64);
    proof {
        done = resp::extended(base, done, resp::int_reply(m.keys.step as int));
    }
    w.array_header(0);
    proof {
        done = resp::extended(base, done, resp::array_reply(0));
    }
    w.array_header(0);
    proof {
        done = resp::extended(base, done, resp::array_reply(0));
    }
    w.array_header(0);
    proof {
        done = resp::extended(base, done, resp::array_reply(0));
    }
    w.array_header(0);
    proof {
        done = resp::extended(base, done, resp::array_reply(0));
    }
}

fn write_simples(names: &[&'static str], w: &mut RespWriter)
    ensures
        final(w)@ == old(w)@ + simples(views(names@)),
        final(w).proto == old(w).proto,
{
    let ghost head = w@;
    let ghost flags = views(names@);
    let mut i: usize = 0;
    proof {
        assert(flags.take(0) =~= Seq::empty());
        assert(w@ =~= head + simples(flags.take(0)));
    }
    while i < names.len()
        invariant
            i <= names@.len(),
            flags == views(names@),
            w@ == head + simples(flags.take(i as int)),
            w.proto == old(w).proto,
        decreases names.len() - i,
    {
        proof {
            assert(flags.take(i + 1).drop_last() =~= flags.take(i as int));
            assert(flags.take(i + 1).last() == names@[i as int]@);
        }
        w.simple(names[i]);
        i += 1;
        proof {
            assert(w@ =~= head + simples(flags.take(i as int)));
        }
    }
    proof {
        assert(flags.take(i as int) =~= flags);
    }
}

/// `COMMAND GETKEYS`: the keys of a full command line.
pub fn command_getkeys(
    argv: &[&[u8]],
    table: &[CommandMeta],
    found: &[Option<usize>],
    arity_ok: bool,
    w: &mut RespWriter,
)
    requires
        argv@.len() == found@.len(),
        forall|i: int|
            0 <= i < found@.len() ==> ((#[trigger] found@[i]) matches Some(k) ==> k
                < table@.len()),
    ensures
        final(w)@ == old(w)@ + getkeys_reply(argv@, table@, found@, arity_ok),
        final(w).proto == old(w).proto,
{
    if argv.len() < 3 {
        w.error(
            "ERR Unknown subcommand or wrong number of arguments for 'GETKEYS'. Try COMMAND HELP.",
        );
        return ;
    }
    let row: usize = match found[2] {
        Some(k) => {
            assert(found@[2] == Some(k));
            k
        },
        None => {
            w.error("ERR Invalid command specified");
            return ;
        },
    };
    if !arity_ok {
        w.error("ERR Invalid number of arguments specified for command");
        return ;
    }
    let spec = table[row].keys;
    if spec.first == 0 {
        w.error("ERR The command has no key arguments");
        return ;
    }
    let argc: usize = argv.len() - 2;
    let last: usize = if spec.last >= 0 {
        spec.last as usize
    } else {
        let back: usize = (-(spec.last as i32)) as usize;
        if argc >= back {
            argc - back
        } else {
            0
        }
    };
    let step: usize = spec.step as usize;
    let ghost all = key_positions(spec.first as int, last as int, argc as int, step as int);
    let mut keys: Vec<usize> = Vec::new();
    let mut at: usize = spec.first as usize;
    proof {
        assert(positions(keys@) =~= Seq::empty());
        assert(all =~= positions(keys@) + all);
    }
    while at <= last && at < argc && step > 0
        invariant
            argc + 2 == argv@.len(),
            step <= 0xffff,
            all == positions(keys@) + key_positions(
                at as int,
                last as int,
                argc as int,
                step as int,
            ),
            forall|k: int| 0 <= k < keys@.len() ==> #[trigger] keys@[k] < argc,
        decreases argc - at,
    {
        let ghost held = keys@;
        keys.push(at);
        proof {
            assert(positions(keys@) =~= positions(held).push(at as int));
            assert(positions(held) + (seq![at as int] + key_positions(
                at + step,
                last as int,
                argc as int,
                step as int,
            )) =~= positions(keys@) + key_positions(
                at + step,
                last as int,
                argc as int,
                step as int,
            ));
        }
        at = if step >= argc - at {
            argc
        } else {
            at + step
        };
    }
    proof {
        assert(all =~= positions(keys@));
    }
    if keys.len() == 0 {
        w.error("ERR The command has no key arguments");
        return ;
    }
    let ghost base = w@;
    w.array_header(keys.len());
    let ghost head = w@;
    let mut i: usize = 0;
    proof {
        assert(all.take(0) =~= Seq::empty());
        assert(w@ =~= head + keys_reply(argv@, all.take(0)));
    }
    while i < keys.len()
        invariant
            i <= keys@.len(),
            argc + 2 == argv@.len() <= usize::MAX,
            all == positions(keys@),
            forall|k: int| 0 <= k < keys@.len() ==> #[trigger] keys@[k] < argc,
            w@ == head + keys_reply(argv@, all.take(i as int)),
            w.proto == old(w).proto,
        decreases keys.len() - i,
    {
        proof {
            assert(all.take(i + 1).drop_last() =~= all.take(i as int));
            assert(all.take(i + 1).last() == keys@[i as int]);
        }
        let k: usize = keys[i];
        assert(keys@[i as int] < argc);
        w.bulk(argv[2 + k]);
        i += 1;
        proof {
            assert(w@ =~= head + keys_reply(argv@, all.take(i as int)));
        }
    }
    proof {
        assert(all.take(i as int) =~= all);
        assert(w@ =~= base + (resp::array_reply(all.len()) + keys_reply(argv@, all)));
    }
}

/// The reported keys are arguments of the command, evenly spaced from the
/// first to at most the last.
pub proof fn law_keys_are_arguments(at: int, last: int, argc: int, step: int, i: int)
    requires
        0 <= at,
        0 <= i < key_positions(at, last, argc, step).len(),
    ensures
        key_positions(at, last, argc, step)[i] == at + i * step,
        at <= key_positions(at, last, argc, step)[i] <= last,
        key_positions(at, last, argc, step)[i] < argc,
    decreases i,
{
    if i > 0 {
        law_keys_are_arguments(at + step, last, argc, step, i - 1);
        assert((i - 1) * step + step == i * step) by (nonlinear_arith);
    }
}

spec fn positions(keys: Seq<usize>) -> Seq<int> {
    keys.map_values(|k: usize| k as int)
}

/// GETKEYS misses no key: the positions run on until the next one would pass
/// the last key or the arguments.
pub proof fn law_no_key_is_missed(at: int, last: int, argc: int, step: int)
    requires
        0 <= at,
        step > 0,
    ensures
        ({
            let n = key_positions(at, last, argc, step).len();
            at + n * step > last || at + n * step >= argc
        }),
    decreases
        if at < argc {
            argc - at
        } else {
            0
        },
{
    if at <= last && at < argc {
        law_no_key_is_missed(at + step, last, argc, step);
        let n = key_positions(at + step, last, argc, step).len();
        assert((n + 1) * step == n * step + step) by (nonlinear_arith);
        assert(key_positions(at, last, argc, step).len() == n + 1);
    }
}

/// A last key below zero counts from the end of the arguments.
pub proof fn law_last_key_counts_from_the_end(spec: KeySpec, argc: int)
    ensures
        spec.last >= 0 ==> last_key(spec, argc) == spec.last,
        spec.last < 0 && argc >= -spec.last ==> last_key(spec, argc) == argc - (-spec.last),
        spec.last < 0 && argc < -spec.last ==> last_key(spec, argc) == 0,
{
}

/// The keys that GETKEYS replies are the arguments at those positions, counted
/// from the command's name, in order.
pub proof fn law_keys_are_replied_in_order(argv: Seq<&[u8]>, keys: Seq<int>, at: int)
    ensures
        keys_reply(argv, keys.push(at)) == keys_reply(argv, keys) + resp::bulk_reply(
            argv[2 + at]@,
        ),
        keys_reply(argv, Seq::empty()) == Seq::<u8>::empty(),
{
    assert(keys.push(at).drop_last() =~= keys);
}

/// A command's flags are those that its table entry sets, each under its name
/// and in a fixed order.
pub proof fn law_flags_follow_the_table(m: CommandMeta)
    ensures
        flags_of(m).contains("readonly"@) <==> m.readonly,
        flags_of(m).contains("write"@) <==> m.write,
        flags_of(m).contains("denyoom"@) <==> m.denyoom,
        flags_of(m).contains("admin"@) <==> m.admin,
        flags_of(m).contains("fast"@) <==> m.fast,
{
    reveal_strlit("readonly");
    reveal_strlit("write");
    reveal_strlit("denyoom");
    reveal_strlit("admin");
    reveal_strlit("fast");
    assert("readonly"@.len() == 8 && "write"@.len() == 5 && "denyoom"@.len() == 7 && "admin"@.len()
        == 5 && "fast"@.len() == 4);
    assert("write"@[0] == 'w' && "admin"@[0] == 'a');
    let a = flag(m.readonly, "readonly"@);
    let b = flag(m.write, "write"@);
    let c = flag(m.denyoom, "denyoom"@);
    let d = flag(m.admin, "admin"@);
    let e = flag(m.fast, "fast"@);
    let f = flags_of(m);
    assert(f == a + b + c + d + e);
    if m.readonly {
        assert(f[0] == "readonly"@);
    }
    if m.write {
        assert(f[a.len() as int] == "write"@);
    }
    if m.denyoom {
        assert(f[(a.len() + b.len()) as int] == "denyoom"@);
    }
    if m.admin {
        assert(f[(a.len() + b.len() + c.len()) as int] == "admin"@);
    }
    if m.fast {
        assert(f[(a.len() + b.len() + c.len() + d.len()) as int] == "fast"@);
    }
}

/// COMMAND lists every row of the table in order, and COMMAND INFO answers
/// each name that was asked for in turn: with its row, or with a null.
pub proof fn law_every_row_is_listed(
    table: Seq<CommandMeta>,
    found: Seq<Option<usize>>,
    proto: resp::Protocol,
    n: int,
)
    requires
        0 <= n,
    ensures
        rows_reply(table, n + 1) == rows_reply(table, n) + row_reply(table[n]),
        rows_reply(table, 0) == Seq::<u8>::empty(),
        n >= 2 ==> (found[n] matches Some(k) ==> lookups_reply(table, found, proto, n + 1)
            == lookups_reply(table, found, proto, n) + row_reply(table[k as int])),
        n >= 2 && found[n] is None ==> lookups_reply(table, found, proto, n + 1) == lookups_reply(
            table,
            found,
            proto,
            n,
        ) + resp::null_array_reply(proto),
        lookups_reply(table, found, proto, 2) == Seq::<u8>::empty(),
{
}

/// What COMMAND answers: the whole table, its size, the rows of the names that
/// were asked for, an empty map of documents, or the keys of a command.
pub proof fn law_command_answers_its_subcommand(
    argv: Seq<&[u8]>,
    table: Seq<CommandMeta>,
    found: Seq<Option<usize>>,
    arity_ok: bool,
    proto: resp::Protocol,
)
    requires
        1 <= argv.len() == found.len(),
    ensures
        argv.len() == 1 ==> command_reply(argv, table, found, arity_ok, proto) == resp::array_reply(
            table.len(),
        ) + rows_reply(table, table.len() as int),
        argv.len() > 1 && text::is_word(argv[1]@, "COUNT"@) ==> command_reply(
            argv,
            table,
            found,
            arity_ok,
            proto,
        ) == resp::int_reply(table.len() as int),
        argv.len() > 1 && text::is_word(argv[1]@, "INFO"@) ==> command_reply(
            argv,
            table,
            found,
            arity_ok,
            proto,
        ) == resp::array_reply((argv.len() - 2) as nat) + lookups_reply(
            table,
            found,
            proto,
            argv.len() as int,
        ),
        argv.len() > 1 && text::is_word(argv[1]@, "GETKEYS"@) ==> command_reply(
            argv,
            table,
            found,
            arity_ok,
            proto,
        ) == getkeys_reply(argv, table, found, arity_ok),
        argv.len() > 1 && text::is_word(argv[1]@, "DOCS"@) ==> command_reply(
            argv,
            table,
            found,
            arity_ok,
            proto,
        ) == resp::map_reply(proto, 0),
{
    if argv.len() > 1 {
        let sub = argv[1]@;
        reveal_strlit("COUNT");
        reveal_strlit("INFO");
        reveal_strlit("DOCS");
        reveal_strlit("GETKEYS");
        lemma_word_len(sub, "COUNT"@);
        lemma_word_len(sub, "INFO"@);
        lemma_word_len(sub, "DOCS"@);
        lemma_word_len(sub, "GETKEYS"@);
    }
}

proof fn lemma_word_len(arg: Seq<u8>, token: Seq<char>)
    requires
        vstd::utf8::is_ascii_chars(token),
        token.len() > 0,
    ensures
        text::is_word(arg, token) ==> arg.len() == token.len() && text::lower(arg[0])
            == text::lower(token[0] as u8),
{
    vstd::utf8::is_ascii_chars_encode_utf8(token);
    if text::is_word(arg, token) {
        assert(text::lower_all(arg).len() == text::lower_all(text::utf8(token)).len());
        assert(text::lower_all(arg)[0] == text::lower_all(text::utf8(token))[0]);
    }
}

/// A command's row says its name in lower case, its arity and where its keys
/// are.
pub proof fn law_row_describes_its_command(m: CommandMeta)
    ensures
        row_reply(m) == resp::array_reply(10) + resp::bulk_reply(
            text::lower_all(text::utf8(m.name@)),
        ) + resp::int_reply(m.arity as int) + resp::array_reply(flags_of(m).len()) + simples(
            flags_of(m),
        ) + resp::int_reply(m.keys.first as int) + resp::int_reply(m.keys.last as int)
            + resp::int_reply(m.keys.step as int) + resp::array_reply(0) + resp::array_reply(0)
            + resp::array_reply(0) + resp::array_reply(0),
{
}

/// GETKEYS of a command that takes keys and was given enough arguments replies
/// one key at least; a command without keys, an unknown one and a wrong number
/// of arguments are errors.
pub proof fn law_getkeys_needs_a_key(
    argv: Seq<&[u8]>,
    table: Seq<CommandMeta>,
    found: Seq<Option<usize>>,
    arity_ok: bool,
    k: usize,
)
    requires
        3 <= argv.len() == found.len(),
        found[2] == Some(k),
    ensures
        ({
            let spec = table[k as int].keys;
            let argc = argv.len() - 2;
            let keys = key_positions(
                spec.first as int,
                last_key(spec, argc),
                argc,
                spec.step as int,
            );
            arity_ok && spec.first > 0 && spec.step > 0 && spec.first <= last_key(spec, argc)
                && spec.first < argc ==> keys.len() > 0 && keys[0] == spec.first && getkeys_reply(
                argv,
                table,
                found,
                arity_ok,
            ) == resp::array_reply(keys.len()) + keys_reply(argv, keys)
        }),
        !arity_ok ==> getkeys_reply(argv, table, found, arity_ok) == resp::error_reply(
            "ERR Invalid number of arguments specified for command"@,
        ),
        arity_ok && table[k as int].keys.first == 0 ==> getkeys_reply(argv, table, found, arity_ok)
            == resp::error_reply("ERR The command has no key arguments"@),
{
}

} // verus!
