//! `HELLO`, `CLIENT` and `DEBUG`: commands about a connection.

use vstd::prelude::*;
use crate::admin::resp;
use crate::admin::resp::{Protocol, RespWriter};
use crate::admin::settings;
use crate::clients;
use crate::clients::ClientRegistry;
use crate::text;

verus! {

// ---- HELLO ----

/// The reply to an accepted `HELLO`.
pub open spec fn hello_reply(proto: Protocol, id: u64) -> Seq<u8> {
    resp::map_reply(proto, 7) + resp::bulk_reply(text::utf8("server"@)) + resp::bulk_reply(
        text::utf8("infinitydb"@),
    ) + resp::bulk_reply(text::utf8("version"@)) + resp::bulk_reply(text::utf8("0.1.0-alpha.0"@))
        + resp::bulk_reply(text::utf8("proto"@)) + resp::int_reply(
        if proto == Protocol::Resp3 {
            3int
        } else {
            2int
        },
    ) + resp::bulk_reply(text::utf8("id"@)) + resp::int_reply((id as i64) as int)
        + resp::bulk_reply(text::utf8("mode"@)) + resp::bulk_reply(text::utf8("standalone"@))
        + resp::bulk_reply(text::utf8("role"@)) + resp::bulk_reply(text::utf8("master"@))
        + resp::bulk_reply(text::utf8("modules"@)) + resp::array_reply(0)
}

/// The protocol a `HELLO` asks for: the connection's own where it names none,
/// nothing where the version is unsupported.
pub open spec fn requested(argc: nat, version: Option<i64>, current: Protocol) -> Option<Protocol> {
    if argc < 2 {
        Some(current)
    } else if version == Some(2i64) {
        Some(Protocol::Resp2)
    } else if version == Some(3i64) {
        Some(Protocol::Resp3)
    } else {
        None
    }
}

/// A client's record, as it is or fresh.
pub open spec fn known(
    m: Map<u64, clients::ClientRecord>,
    id: u64,
    now_ms: u64,
) -> clients::ClientRecord {
    if m.contains_key(id) {
        m[id]
    } else {
        clients::fresh_client("0.0.0.0:0"@, now_ms, None)
    }
}

/// `HELLO [version]`: switches the connection's protocol and describes the
/// server. `version` is the second argument's number.
pub fn hello(
    argc: usize,
    version: Option<i64>,
    id: u64,
    now_ms: u64,
    registry: &mut ClientRegistry,
    w: &mut RespWriter,
)
    ensures
        match requested(argc as nat, version, old(w).proto) {
            None => final(w)@ == old(w)@ + resp::error_reply(
                "NOPROTO unsupported protocol version"@,
            ) && final(w).proto == old(w).proto && *final(registry) == *old(registry),
            Some(proto) => if argc > 2 {
                final(w)@ == old(w)@ + resp::error_reply("ERR syntax error in HELLO"@) && final(
                    w).proto == old(w).proto && *final(registry) == *old(registry)
            } else {
                &&& final(w).proto == proto
                &&& final(w)@ == old(w)@ + hello_reply(proto, id)
                &&& final(registry)@ == old(registry)@.insert(
                    id,
                    clients::ClientRecord {
                        resp: if proto == Protocol::Resp3 {
                            3u8
                        } else {
                            2u8
                        },
                        ..known(old(registry)@, id, now_ms)
                    },
                )
            },
        },
{
    let mut proto = w.proto;
    if argc >= 2 {
        match version {
            Some(v) => {
                if v == 2 {
                    proto = Protocol::Resp2;
                } else if v == 3 {
                    proto = Protocol::Resp3;
                } else {
                    w.error("NOPROTO unsupported protocol version");
                    return ;
                }
            },
            None => {
                w.error("NOPROTO unsupported protocol version");
                return ;
            },
        }
    }
    if argc > 2 {
        w.error("ERR syntax error in HELLO");
        return ;
    }
    w.proto = proto;
    let generation: u8 = if proto == Protocol::Resp3 {
        3
    } else {
        2
    };
    let _ = registry.ensure(id, now_ms);
    registry.set_resp(id, generation);
    proof {
        assert(registry@ =~= old(registry)@.insert(
            id,
            clients::ClientRecord { resp: generation, ..known(old(registry)@, id, now_ms) },
        ));
    }
    let ghost base = w@;
    let ghost mut done = resp::map_reply(proto, 7);
    w.map_header(7);
    w.bulk("server".as_bytes());
    proof {
        done = resp::extended(base, done, resp::bulk_reply(text::utf8("server"@)));
    }
    w.bulk("infinitydb".as_bytes());
    proof {
        done = resp::extended(base, done, resp::bulk_reply(text::utf8("infinitydb"@)));
    }
    w.bulk("version".as_bytes());
    proof {
        done = resp::extended(base, done, resp::bulk_reply(text::utf8("version"@)));
    }
    w.bulk("0.1.0-alpha.0".as_bytes());
    proof {
        done = resp::extended(base, done, resp::bulk_reply(text::utf8("0.1.0-alpha.0"@)));
    }
    w.bulk("proto".as_bytes());
    proof {
        done = resp::extended(base, done, resp::bulk_reply(text::utf8("proto"@)));
    }
    w.integer(generation as i64);
    proof {
        done = resp::extended(base, done, resp::int_reply(generation as int));
    }
    w.bulk("id".as_bytes());
    proof {
        done = resp::extended(base, done, resp::bulk_reply(text::utf8("id"@)));
    }
    w.integer(id as i64);
    proof {
        done = resp::extended(base, done, resp::int_reply((id as i64) as int));
    }
    w.bulk("mode".as_bytes());
    proof {
        done = resp::extended(base, done, resp::bulk_reply(text::utf8("mode"@)));
    }
    w.bulk("standalone".as_bytes());
    proof {
        done = resp::extended(base, done, resp::bulk_reply(text::utf8("standalone"@)));
    }
    w.bulk("role".as_bytes());
    proof {
        done = resp::extended(base, done, resp::bulk_reply(text::utf8("role"@)));
    }
    w.bulk("master".as_bytes());
    proof {
        done = resp::extended(base, done, resp::bulk_reply(text::utf8("master"@)));
    }
    w.bulk("modules".as_bytes());
    proof {
        done = resp::extended(base, done, resp::bulk_reply(text::utf8("modules"@)));
    }
    w.array_header(0);
    proof {
        done = resp::extended(base, done, resp::array_reply(0));
    }
}

// ---- CLIENT ----

/// Whether a listing keeps a client.
pub open spec fn keeps(ids: Option<Seq<u64>>, id: u64) -> bool {
    match ids {
        Some(wanted) => wanted.contains(id),
        None => true,
    }
}

/// Whole seconds since a client registered.
pub open spec fn age_of(now_ms: u64, created_ms: u64) -> u64 {
    if now_ms >= created_ms {
        ((now_ms - created_ms) / 1000) as u64
    } else {
        0
    }
}

/// One line per kept client, in order.
pub open spec fn client_lines(
    rows: Seq<(u64, clients::ClientRecord)>,
    now_ms: u64,
    ids: Option<Seq<u64>>,
) -> Seq<char>
    decreases rows.len(),
{
    if rows.len() == 0 {
        Seq::empty()
    } else {
        let before = client_lines(rows.drop_last(), now_ms, ids);
        let (id, c) = rows.last();
        if keeps(ids, id) {
            before + clients::client_line(id, c, age_of(now_ms, c.created_ms), "client"@) + "\n"@
        } else {
            before
        }
    }
}

fn listed(ids: &[u64], id: u64) -> (r: bool)
    ensures
        r == ids@.contains(id),
{
    let mut i: usize = 0;
    while i < ids.len()
        invariant
            i <= ids@.len(),
            forall|k: int| 0 <= k < i ==> #[trigger] ids@[k] != id,
        decreases ids.len() - i,
    {
        if ids[i] == id {
            return true;
        }
        i += 1;
    }
    false
}

spec fn wanted(ids: Option<&[u64]>) -> Option<Seq<u64>> {
    match ids {
        Some(list) => Some(list@),
        None => None,
    }
}

/// One line per kept client, in id order.
fn render_client_lines(registry: &ClientRegistry, now_ms: u64, ids: Option<&[u64]>) -> (r: String)
    ensures
        exists|rows: Seq<(u64, clients::ClientRecord)>|
            clients::lists(rows, registry@) && r@ == #[trigger] client_lines(
                rows,
                now_ms,
                wanted(ids),
            ),
{
    let rows = registry.iter();
    let ghost listing = rows@.map_values(|t: (u64, &clients::ClientInfo)| (t.0, t.1@));
    let mut out = text::owned("");
    let mut i: usize = 0;
    proof {
        reveal_strlit("");
        assert(listing.take(0) =~= Seq::empty());
        assert(out@ =~= Seq::empty());
    }
    while i < rows.len()
        invariant
            i <= rows@.len(),
            listing == rows@.map_values(|t: (u64, &clients::ClientInfo)| (t.0, t.1@)),
            out@ == client_lines(listing.take(i as int), now_ms, wanted(ids)),
        decreases rows.len() - i,
    {
        proof {
            assert(listing.take(i + 1).drop_last() =~= listing.take(i as int));
            assert(listing.take(i + 1).last() == (rows@[i as int].0, rows@[i as int].1@));
        }
        let id: u64 = rows[i].0;
        let info = rows[i].1;
        let keep: bool = match ids {
            Some(list) => listed(list, id),
            None => true,
        };
        if keep {
            let age: u64 = if now_ms >= info.created_ms {
                (now_ms - info.created_ms) / 1000
            } else {
                0
            };
            out.append(clients::format_client_line(id, info, age, "client").as_str());
            out.append("\n");
        }
        i += 1;
    }
    proof {
        assert(listing.take(i as int) =~= listing);
    }
    out
}

/// The text without the newlines at its end.
pub open spec fn no_newlines(t: Seq<u8>) -> Seq<u8>
    decreases t.len(),
{
    if t.len() > 0 && t.last() == 10 {
        no_newlines(t.drop_last())
    } else {
        t
    }
}

fn strip_newlines(text: &str) -> (r: Vec<u8>)
    ensures
        r@ == no_newlines(text::utf8(text@)),
{
    let mut out: Vec<u8> = text::bytes_of(text);
    while out.len() > 0 && out[out.len() - 1] == 10
        invariant
            no_newlines(out@) == no_newlines(text::utf8(text@)),
        decreases out.len(),
    {
        let ghost before = out@;
        let _ = out.pop();
        proof {
            assert(out@ =~= before.drop_last());
        }
    }
    out
}

/// What a `CLIENT` command leaves to its caller.
#[derive(Copy, Clone, Debug)]
pub enum ClientStep {
    /// The reply is written.
    Replied,
    /// Answer with the arity error of this subcommand.
    Arity(&'static str),
}

/// The ids a `CLIENT LIST ID` names from argument `i` on; nothing where one
/// is no id.
pub open spec fn listed_ids(numbers: Seq<Option<i64>>, i: int) -> Option<Seq<u64>>
    decreases numbers.len() - i,
{
    if i >= numbers.len() {
        Some(Seq::empty())
    } else {
        match (numbers[i], listed_ids(numbers, i + 1)) {
            (Some(n), Some(rest)) => if n >= 0 {
                Some(seq![n as u64] + rest)
            } else {
                None
            },
            _ => None,
        }
    }
}

fn parse_ids(numbers: &[Option<i64>], from: usize) -> (r: Option<Vec<u64>>)
    requires
        from <= numbers@.len(),
    ensures
        match listed_ids(numbers@, from as int) {
            Some(ids) => r matches Some(v) && v@ == ids,
            None => r is None,
        },
{
    let mut ids: Vec<u64> = Vec::new();
    let mut i: usize = from;
    let ghost whole = listed_ids(numbers@, from as int);
    while i < numbers.len()
        invariant
            from <= i <= numbers@.len(),
            whole == listed_ids(numbers@, from as int),
            match listed_ids(numbers@, i as int) {
                Some(rest) => whole == Some(ids@ + rest),
                None => whole is None,
            },
        decreases numbers.len() - i,
    {
        match numbers[i] {
            Some(n) => {
                if n < 0 {
                    return None;
                }
                let ghost held = ids@;
                ids.push(n as u64);
                proof {
                    if let Some(rest) = listed_ids(numbers@, i + 1) {
                        assert(held + (seq![n as u64] + rest) =~= ids@ + rest);
                    }
                }
            },
            None => {
                return None;
            },
        }
        i += 1;
    }
    proof {
        assert(ids@ + Seq::<u64>::empty() =~= ids@);
    }
    Some(ids)
}

/// Whether `reply` is a bulk listing of the clients of `m`.
pub open spec fn is_listing(
    reply: Seq<u8>,
    m: Map<u64, clients::ClientRecord>,
    now_ms: u64,
    ids: Option<Seq<u64>>,
) -> bool {
    exists|rows: Seq<(u64, clients::ClientRecord)>|
        clients::lists(rows, m) && reply == resp::bulk_reply(
            text::utf8(#[trigger] client_lines(rows, now_ms, ids)),
        )
}

/// The clients after a `CLIENT` command: the caller is known, and a name or a
/// kill mark may have been set.
pub open spec fn clients_after(
    argv: Seq<&[u8]>,
    numbers: Seq<Option<i64>>,
    id: u64,
    now_ms: u64,
    m: Map<u64, clients::ClientRecord>,
) -> Map<u64, clients::ClientRecord> {
    let own = known(m, id, now_ms);
    let with = m.insert(id, own);
    let sub = argv[1]@;
    if is_setname(sub) && argv.len() == 3 && clients::is_client_name(argv[2]@) {
        m.insert(id, clients::ClientRecord { name: argv[2]@, ..own })
    } else if is_kill(sub) && argv.len() == 4 && text::is_word(argv[2]@, "ID"@) && (numbers[3]
        matches Some(n) && n > 0 && with.contains_key(n as u64)) {
        let target = numbers[3]->0 as u64;
        with.insert(target, clients::ClientRecord { kill_requested: true, ..with[target] })
    } else {
        with
    }
}

/// Whether the subcommand is `SETNAME`.
pub open spec fn is_setname(sub: Seq<u8>) -> bool {
    !text::is_word(sub, "ID"@) && !text::is_word(sub, "GETNAME"@) && text::is_word(sub, "SETNAME"@)
}

/// Whether the subcommand is `KILL`.
pub open spec fn is_kill(sub: Seq<u8>) -> bool {
    !text::is_word(sub, "ID"@) && !text::is_word(sub, "GETNAME"@) && !text::is_word(
        sub,
        "SETNAME"@,
    ) && !text::is_word(sub, "LIST"@) && !text::is_word(sub, "INFO"@) && text::is_word(sub, "KILL"@)
}

/// Whether `reply` and `step` answer a `CLIENT` command; `m` are the clients
/// before it.
pub open spec fn client_answers(
    reply: Seq<u8>,
    step: ClientStep,
    argv: Seq<&[u8]>,
    numbers: Seq<Option<i64>>,
    id: u64,
    now_ms: u64,
    m: Map<u64, clients::ClientRecord>,
    proto: Protocol,
) -> bool {
    let sub = argv[1]@;
    let with = m.insert(id, known(m, id, now_ms));
    if text::is_word(sub, "ID"@) {
        step is Replied && reply == resp::int_reply((id as i64) as int)
    } else if text::is_word(sub, "GETNAME"@) {
        step is Replied && reply == if with[id].name.len() == 0 {
            resp::null_reply(proto)
        } else {
            resp::bulk_reply(with[id].name)
        }
    } else if text::is_word(sub, "SETNAME"@) {
        if argv.len() != 3 {
            reply == Seq::<u8>::empty() && (step matches ClientStep::Arity(name) && name@
                == "CLIENT|SETNAME"@)
        } else {
            step is Replied && reply == if clients::is_client_name(argv[2]@) {
                resp::simple_reply("OK"@)
            } else {
                resp::error_reply(
                    "ERR Client names cannot contain spaces, newlines or special characters."@,
                )
            }
        }
    } else if text::is_word(sub, "LIST"@) {
        step is Replied && if argv.len() == 2 {
            is_listing(reply, with, now_ms, None)
        } else if !text::is_word(argv[2]@, "ID"@) || argv.len() < 4 {
            reply == resp::error_reply("ERR syntax error"@)
        } else {
            match listed_ids(numbers, 3) {
                Some(ids) => is_listing(reply, with, now_ms, Some(ids)),
                None => reply == resp::error_reply("ERR Invalid client ID"@),
            }
        }
    } else if text::is_word(sub, "INFO"@) {
        step is Replied && exists|rows: Seq<(u64, clients::ClientRecord)>|
            clients::lists(rows, with) && reply == resp::bulk_reply(
                no_newlines(text::utf8(#[trigger] client_lines(rows, now_ms, Some(seq![id])))),
            )
    } else if text::is_word(sub, "KILL"@) {
        step is Replied && reply == if argv.len() == 4 && text::is_word(argv[2]@, "ID"@) {
            match numbers[3] {
                Some(n) => if n <= 0 {
                    resp::error_reply("ERR client-id should be greater than 0"@)
                } else if with.contains_key(n as u64) {
                    resp::int_reply(1)
                } else {
                    resp::int_reply(0)
                },
                None => resp::error_reply("ERR client-id should be greater than 0"@),
            }
        } else {
            resp::error_reply(
                "ERR syntax error in CLIENT KILL (InfinityDB M1 supports the ID filter form)"@,
            )
        }
    } else {
        step is Replied && reply == settings::unknown_subcommand(sub, "CLIENT HELP"@)
    }
}

/// `CLIENT ID|GETNAME|SETNAME|LIST|INFO|KILL`. `numbers` gives the number of
/// each argument that is one.
pub fn client(
    argv: &[&[u8]],
    numbers: &[Option<i64>],
    id: u64,
    now_ms: u64,
    registry: &mut ClientRegistry,
    w: &mut RespWriter,
) -> (r: ClientStep)
    requires
        2 <= argv@.len() == numbers@.len(),
    ensures
        final(registry)@ == clients_after(argv@, numbers@, id, now_ms, old(registry)@),
        final(w).proto == old(w).proto,
        exists|reply: Seq<u8>|
            final(w)@ == old(w)@ + reply && #[trigger] client_answers(
                reply,
                r,
                argv@,
                numbers@,
                id,
                now_ms,
                old(registry)@,
                old(w).proto,
            ),
{
    let ghost m = registry@;
    let ghost base = w@;
    let ghost proto = w.proto;
    let ghost with = m.insert(id, known(m, id, now_ms));
    let sub = argv[1];
    let _ = registry.ensure(id, now_ms);
    proof {
        assert(registry@ =~= with);
    }
    let ghost mut reply = Seq::<u8>::empty();
    let mut step = ClientStep::Replied;
    if text::word(sub, "ID") {
        w.integer(id as i64);
        proof {
            reply = resp::int_reply((id as i64) as int);
        }
    } else if text::word(sub, "GETNAME") {
        let name: Vec<u8> = match registry.get(id) {
            Some(c) => text::copy_bytes(c.name.as_slice()),
            None => Vec::new(),
        };
        if name.len() == 0 {
            w.null();
            proof {
                reply = resp::null_reply(proto);
            }
        } else {
            w.bulk(name.as_slice());
            proof {
                reply = resp::bulk_reply(with[id].name);
            }
        }
    } else if text::word(sub, "SETNAME") {
        if argv.len() != 3 {
            step = ClientStep::Arity("CLIENT|SETNAME");
            proof {
                assert(w@ =~= base + reply);
            }
        } else if !clients::valid_client_name(argv[2]) {
            w.error("ERR Client names cannot contain spaces, newlines or special characters.");
            proof {
                reply = resp::error_reply(
                    "ERR Client names cannot contain spaces, newlines or special characters."@,
                );
            }
        } else {
            let name: Vec<u8> = text::copy_bytes(argv[2]);
            registry.ensure(id, now_ms).name = name;
            proof {
                assert(registry@ =~= m.insert(
                    id,
                    clients::ClientRecord { name: argv@[2]@, ..known(m, id, now_ms) },
                ));
                reply = resp::simple_reply("OK"@);
            }
            w.simple("OK");
        }
    } else if text::word(sub, "LIST") {
        if argv.len() == 2 {
            let text = render_client_lines(registry, now_ms, None);
            w.bulk(text.as_str().as_bytes());
            proof {
                reply = resp::bulk_reply(text::utf8(text@));
                assert(is_listing(reply, with, now_ms, None));
            }
        } else if !text::word(argv[2], "ID") || argv.len() < 4 {
            w.error("ERR syntax error");
            proof {
                reply = resp::error_reply("ERR syntax error"@);
            }
        } else {
            match parse_ids(numbers, 3) {
                Some(ids) => {
                    let text = render_client_lines(registry, now_ms, Some(ids.as_slice()));
                    w.bulk(text.as_str().as_bytes());
                    proof {
                        reply = resp::bulk_reply(text::utf8(text@));
                        assert(is_listing(reply, with, now_ms, Some(ids@)));
                    }
                },
                None => {
                    w.error("ERR Invalid client ID");
                    proof {
                        reply = resp::error_reply("ERR Invalid client ID"@);
                    }
                },
            }
        }
    } else if text::word(sub, "INFO") {
        let own: [u64; 1] = [id];
        proof {
            assert(own@ =~= seq![id]);
        }
        let text = render_client_lines(registry, now_ms, Some(own.as_slice()));
        w.bulk(strip_newlines(text.as_str()).as_slice());
        proof {
            reply = resp::bulk_reply(no_newlines(text::utf8(text@)));
        }
    } else if text::word(sub, "KILL") {
        if argv.len() == 4 && text::word(argv[2], "ID") {
            match numbers[3] {
                Some(n) => {
                    if n <= 0 {
                        w.error("ERR client-id should be greater than 0");
                        proof {
                            reply = resp::error_reply("ERR client-id should be greater than 0"@);
                        }
                    } else {
                        let killed: bool = registry.request_kill(n as u64);
                        let count: i64 = if killed {
                            1
                        } else {
                            0
                        };
                        w.integer(count);
                        proof {
                            reply = resp::int_reply(count as int);
                        }
                    }
                },
                None => {
                    w.error("ERR client-id should be greater than 0");
                    proof {
                        reply = resp::error_reply("ERR client-id should be greater than 0"@);
                    }
                },
            }
        } else {
            w.error("ERR syntax error in CLIENT KILL (InfinityDB M1 supports the ID filter form)");
            proof {
                reply = resp::error_reply(
                    "ERR syntax error in CLIENT KILL (InfinityDB M1 supports the ID filter form)"@,
                );
            }
        }
    } else {
        settings::reply_unknown(w, sub, "CLIENT HELP");
        proof {
            reply = settings::unknown_subcommand(sub@, "CLIENT HELP"@);
        }
    }
    proof {
        assert(w@ =~= base + reply);
        assert(client_answers(reply, step, argv@, numbers@, id, now_ms, m, proto));
    }
    step
}

// ---- DEBUG ----

/// The answer to a `DEBUG` command.
pub open spec fn debug_reply(
    argv: Seq<&[u8]>,
    sleepable: bool,
    object: Option<(Seq<char>, u64)>,
) -> Seq<u8> {
    let sub = argv[1]@;
    if text::is_word(sub, "SLEEP"@) {
        if argv.len() != 3 {
            resp::error_reply("ERR wrong number of arguments for 'debug|sleep' command"@)
        } else if !sleepable {
            resp::error_reply("ERR value is not a valid float"@)
        } else {
            resp::simple_reply("OK"@)
        }
    } else if text::is_word(sub, "JMAP"@) || text::is_word(sub, "SET-ACTIVE-EXPIRE"@) {
        resp::simple_reply("OK"@)
    } else if text::is_word(sub, "OBJECT"@) {
        if argv.len() != 3 {
            resp::error_reply("ERR wrong number of arguments for 'debug|object' command"@)
        } else {
            match object {
                None => resp::error_reply("ERR no such key"@),
                Some((encoding, len)) => resp::simple_reply(
                    "Value at:0x0 refcount:1 encoding:"@ + encoding + " serializedlength:"@
                        + text::dec_chars(len as nat) + " lru:0 lru_seconds_idle:0"@,
                ),
            }
        }
    } else {
        resp::error_reply(
            "ERR unknown subcommand or wrong number of arguments for '"@ + text::lossy(sub)
                + "'. Try DEBUG HELP."@,
        )
    }
}

/// `DEBUG SLEEP|JMAP|SET-ACTIVE-EXPIRE|OBJECT`. `sleepable` says whether the
/// third argument is a finite, non-negative number of seconds, and `object`
/// gives the encoding and length of the key it names.
pub fn debug(argv: &[&[u8]], sleepable: bool, object: Option<(&str, u64)>, w: &mut RespWriter)
    requires
        argv@.len() >= 2,
    ensures
        final(w)@ == old(w)@ + debug_reply(
            argv@,
            sleepable,
            match object {
                Some((encoding, len)) => Some((encoding@, len)),
                None => None,
            },
        ),
        final(w).proto == old(w).proto,
{
    let sub = argv[1];
    if text::word(sub, "SLEEP") {
        if argv.len() != 3 {
            w.error("ERR wrong number of arguments for 'debug|sleep' command");
        } else if !sleepable {
            w.error("ERR value is not a valid float");
        } else {
            w.simple("OK");
        }
    } else if text::word(sub, "JMAP") || text::word(sub, "SET-ACTIVE-EXPIRE") {
        w.simple("OK");
    } else if text::word(sub, "OBJECT") {
        if argv.len() != 3 {
            w.error("ERR wrong number of arguments for 'debug|object' command");
        } else {
            match object {
                None => w.error("ERR no such key"),
                Some((encoding, len)) => {
                    let mut s = text::owned("Value at:0x0 refcount:1 encoding:");
                    s.append(encoding);
                    s.append(" serializedlength:");
                    text::append_dec(&mut s, len);
                    s.append(" lru:0 lru_seconds_idle:0");
                    w.simple(s.as_str());
                },
            }
        }
    } else {
        let mut s = text::owned("ERR unknown subcommand or wrong number of arguments for '");
        s.append(text::lossy_string(sub).as_str());
        s.append("'. Try DEBUG HELP.");
        w.error(s.as_str());
    }
}

/// A registry is listed in one way: two listings of it are the same.
pub proof fn law_listing_is_unique(
    a: Seq<(u64, clients::ClientRecord)>,
    b: Seq<(u64, clients::ClientRecord)>,
    m: Map<u64, clients::ClientRecord>,
)
    requires
        clients::lists(a, m),
        clients::lists(b, m),
    ensures
        a == b,
    decreases a.len(),
{
    if a.len() == 0 {
        if b.len() > 0 {
            assert(m.contains_key(b[0].0));
        }
        assert(a =~= b);
    } else {
        let top = a.last().0;
        assert(m.contains_key(a[a.len() - 1].0));
        let j = choose|j: int| 0 <= j < b.len() && (#[trigger] b[j]).0 == top;
        let last = b[b.len() - 1].0;
        assert(m.contains_key(last));
        let i = choose|i: int| 0 <= i < a.len() && (#[trigger] a[i]).0 == last;
        assert(i == a.len() - 1 && j == b.len() - 1) by {
            if i < a.len() - 1 {
                assert(a[i].0 < a[a.len() - 1].0);
                if j < b.len() - 1 {
                    assert(b[j].0 < b[b.len() - 1].0);
                }
            }
        }
        let rest = m.remove(top);
        let (x, y) = (a.drop_last(), b.drop_last());
        assert forall|id: u64| #[trigger] rest.contains_key(id) implies exists|k: int|
            0 <= k < x.len() && (#[trigger] x[k]).0 == id by {
            assert(m.contains_key(id));
            let k = choose|k: int| 0 <= k < a.len() && (#[trigger] a[k]).0 == id;
            assert(x[k].0 == id);
        }
        assert forall|id: u64| #[trigger] rest.contains_key(id) implies exists|k: int|
            0 <= k < y.len() && (#[trigger] y[k]).0 == id by {
            assert(m.contains_key(id));
            let k = choose|k: int| 0 <= k < b.len() && (#[trigger] b[k]).0 == id;
            assert(y[k].0 == id);
        }
        assert forall|k: int| 0 <= k < x.len() implies rest.contains_key((#[trigger] x[k]).0)
            && rest[x[k].0] == x[k].1 by {
            assert(a[k].0 < a[a.len() - 1].0);
        }
        assert forall|k: int| 0 <= k < y.len() implies rest.contains_key((#[trigger] y[k]).0)
            && rest[y[k].0] == y[k].1 by {
            assert(b[k].0 < b[b.len() - 1].0);
        }
        assert forall|p: int, q: int| 0 <= p < q < x.len() implies (#[trigger] x[p]).0 < (
        #[trigger] x[q]).0 by {
            assert(a[p].0 < a[q].0);
        }
        assert forall|p: int, q: int| 0 <= p < q < y.len() implies (#[trigger] y[p]).0 < (
        #[trigger] y[q]).0 by {
            assert(b[p].0 < b[q].0);
        }
        law_listing_is_unique(x, y, rest);
        assert(a =~= x.push(a.last()));
        assert(b =~= y.push(b.last()));
    }
}

proof fn lemma_word_shape(arg: Seq<u8>, token: Seq<char>)
    requires
        vstd::utf8::is_ascii_chars(token),
        token.len() > 0,
    ensures
        text::is_word(arg, token) ==> arg.len() == token.len() && text::lower(arg[0])
            == text::lower(token[0] as u8),
{
    vstd::utf8::is_ascii_chars_encode_utf8(token);
    if text::is_word(arg, token) {
        assert(text::lower_all(arg).len() == text::lower_all(text::utf8(token)).len());
        assert(text::lower_all(arg)[0] == text::lower_all(text::utf8(token))[0]);
    }
}

proof fn lemma_client_words(sub: Seq<u8>)
    ensures
        text::is_word(sub, "ID"@) ==> sub.len() == 2,
        text::is_word(sub, "GETNAME"@) ==> sub.len() == 7 && text::lower(sub[0]) == 103,
        text::is_word(sub, "SETNAME"@) ==> sub.len() == 7 && text::lower(sub[0]) == 115,
        text::is_word(sub, "LIST"@) ==> sub.len() == 4 && text::lower(sub[0]) == 108,
        text::is_word(sub, "INFO"@) ==> sub.len() == 4 && text::lower(sub[0]) == 105,
        text::is_word(sub, "KILL"@) ==> sub.len() == 4 && text::lower(sub[0]) == 107,
{
    reveal_strlit("ID");
    reveal_strlit("GETNAME");
    reveal_strlit("SETNAME");
    reveal_strlit("LIST");
    reveal_strlit("INFO");
    reveal_strlit("KILL");
    lemma_word_shape(sub, "ID"@);
    lemma_word_shape(sub, "GETNAME"@);
    lemma_word_shape(sub, "SETNAME"@);
    lemma_word_shape(sub, "LIST"@);
    lemma_word_shape(sub, "INFO"@);
    lemma_word_shape(sub, "KILL"@);
}

/// HELLO without a version keeps the protocol; version 2 and version 3 select
/// theirs, and no other version is known.
pub proof fn law_hello_selects_the_version(argc: nat, version: Option<i64>, current: Protocol)
    ensures
        argc < 2 ==> requested(argc, version, current) == Some(current),
        argc >= 2 ==> (requested(argc, version, current) == Some(Protocol::Resp2) <==> version
            == Some(2i64)),
        argc >= 2 ==> (requested(argc, version, current) == Some(Protocol::Resp3) <==> version
            == Some(3i64)),
        argc >= 2 && version != Some(2i64) && version != Some(3i64) ==> requested(
            argc,
            version,
            current,
        ) is None,
{
}

/// GETNAME gives back what SETNAME set: after a valid name was set, the name
/// is replied, and nothing else of any client has changed.
pub proof fn law_getname_after_setname(
    argv: Seq<&[u8]>,
    numbers: Seq<Option<i64>>,
    id: u64,
    now_ms: u64,
    m: Map<u64, clients::ClientRecord>,
    later: Seq<&[u8]>,
    later_numbers: Seq<Option<i64>>,
    later_ms: u64,
    reply: Seq<u8>,
    step: ClientStep,
    proto: Protocol,
)
    requires
        argv.len() == 3,
        text::is_word(argv[1]@, "SETNAME"@),
        clients::is_client_name(argv[2]@),
        later.len() >= 2,
        text::is_word(later[1]@, "GETNAME"@),
        client_answers(
            reply,
            step,
            later,
            later_numbers,
            id,
            later_ms,
            clients_after(argv, numbers, id, now_ms, m),
            proto,
        ),
    ensures
        argv[2]@.len() > 0 ==> reply == resp::bulk_reply(argv[2]@),
        argv[2]@.len() == 0 ==> reply == resp::null_reply(proto),
        clients_after(argv, numbers, id, now_ms, m)[id].name == argv[2]@,
        forall|other: u64|
            other != id ==> (m.contains_key(other) <==> #[trigger] clients_after(
                argv,
                numbers,
                id,
                now_ms,
                m,
            ).contains_key(other)),
        forall|other: u64|
            other != id && m.contains_key(other) ==> #[trigger] clients_after(
                argv,
                numbers,
                id,
                now_ms,
                m,
            )[other] == m[other],
        m.contains_key(id) ==> clients_after(argv, numbers, id, now_ms, m)[id] == (
        clients::ClientRecord { name: argv[2]@, ..m[id] }),
{
    lemma_client_words(argv[1]@);
    lemma_client_words(later[1]@);
}

/// A name that is refused changes no name, and a refused or an unknown command
/// marks no client.
pub proof fn law_refused_name_changes_nothing(
    argv: Seq<&[u8]>,
    numbers: Seq<Option<i64>>,
    id: u64,
    now_ms: u64,
    m: Map<u64, clients::ClientRecord>,
)
    requires
        argv.len() >= 2,
        m.contains_key(id),
        text::is_word(argv[1]@, "SETNAME"@) ==> argv.len() != 3 || !clients::is_client_name(
            argv[2]@,
        ),
        !text::is_word(argv[1]@, "KILL"@),
    ensures
        clients_after(argv, numbers, id, now_ms, m) == m,
{
    lemma_client_words(argv[1]@);
    assert(m.insert(id, m[id]) =~= m);
}

/// KILL marks the client it names and no other: a reply of one is a client
/// marked, a reply of zero is none of that id, and an id that is no positive
/// number is refused.
pub proof fn law_kill_marks_its_target(
    argv: Seq<&[u8]>,
    numbers: Seq<Option<i64>>,
    id: u64,
    now_ms: u64,
    m: Map<u64, clients::ClientRecord>,
    reply: Seq<u8>,
    step: ClientStep,
    proto: Protocol,
    target: i64,
)
    requires
        argv.len() == 4,
        argv.len() == numbers.len(),
        text::is_word(argv[1]@, "KILL"@),
        text::is_word(argv[2]@, "ID"@),
        numbers[3] == Some(target),
        m.contains_key(id),
        client_answers(reply, step, argv, numbers, id, now_ms, m, proto),
    ensures
        ({
            let after = clients_after(argv, numbers, id, now_ms, m);
            &&& target > 0 && m.contains_key(target as u64) ==> reply == resp::int_reply(1)
                && after[target as u64].kill_requested && after == m.insert(
                target as u64,
                clients::ClientRecord { kill_requested: true, ..m[target as u64] },
            )
            &&& target > 0 && !m.contains_key(target as u64) ==> reply == resp::int_reply(0)
                && after == m
            &&& target <= 0 ==> reply == resp::error_reply(
                "ERR client-id should be greater than 0"@,
            ) && after == m
        }),
{
    lemma_client_words(argv[1]@);
    assert(m.insert(id, m[id]) =~= m);
}

/// CLIENT ID replies the connection's own id, and LIST lists every client, or
/// those of the ids that were asked for.
pub proof fn law_client_lists_what_was_asked(
    argv: Seq<&[u8]>,
    numbers: Seq<Option<i64>>,
    id: u64,
    now_ms: u64,
    m: Map<u64, clients::ClientRecord>,
    reply: Seq<u8>,
    step: ClientStep,
    proto: Protocol,
)
    requires
        2 <= argv.len() == numbers.len(),
        m.contains_key(id),
        client_answers(reply, step, argv, numbers, id, now_ms, m, proto),
    ensures
        text::is_word(argv[1]@, "ID"@) && id <= 0x7fff_ffff_ffff_ffff ==> reply == resp::int_reply(
            id as int,
        ),
        text::is_word(argv[1]@, "LIST"@) && argv.len() == 2 ==> is_listing(reply, m, now_ms, None),
        text::is_word(argv[1]@, "LIST"@) && argv.len() >= 4 && text::is_word(argv[2]@, "ID"@) ==> (
        listed_ids(numbers, 3) matches Some(ids) ==> is_listing(reply, m, now_ms, Some(ids))),
{
    lemma_client_words(argv[1]@);
    assert(m.insert(id, m[id]) =~= m);
}

/// The ids of a LIST are the numbers given, all of them and in order, and one
/// that is no number or below zero refuses the list.
pub proof fn law_listed_ids_are_the_numbers(numbers: Seq<Option<i64>>, i: int)
    requires
        0 <= i <= numbers.len(),
    ensures
        listed_ids(numbers, i) is Some <==> (forall|k: int|
            i <= k < numbers.len() ==> ((#[trigger] numbers[k]) matches Some(n) && n >= 0)),
        listed_ids(numbers, i) matches Some(ids) ==> ids.len() == numbers.len() - i && (forall|
            k: int,
        |
            0 <= k < ids.len() ==> numbers[i + k] == Some(#[trigger] ids[k] as i64)),
    decreases numbers.len() - i,
{
    if i < numbers.len() {
        law_listed_ids_are_the_numbers(numbers, i + 1);
        if let Some(ids) = listed_ids(numbers, i) {
            let rest = listed_ids(numbers, i + 1)->0;
            assert(ids =~= seq![numbers[i]->0 as u64] + rest);
            assert forall|k: int| 0 <= k < ids.len() implies numbers[i + k] == Some(
                #[trigger] ids[k] as i64,
            ) by {
                if k > 0 {
                    assert(ids[k] == rest[k - 1]);
                    assert(numbers[i + 1 + (k - 1)] == Some(rest[k - 1] as i64));
                }
            }
        }
    }
}

/// A listing has one line for each client that is kept, in the order of the
/// rows, and nothing of the others.
pub proof fn law_one_line_for_each_client(
    rows: Seq<(u64, clients::ClientRecord)>,
    id: u64,
    c: clients::ClientRecord,
    now_ms: u64,
    ids: Option<Seq<u64>>,
)
    ensures
        ids is None || (ids matches Some(wanted) && wanted.contains(id)) ==> client_lines(
            rows.push((id, c)),
            now_ms,
            ids,
        ) == client_lines(rows, now_ms, ids) + clients::client_line(
            id,
            c,
            age_of(now_ms, c.created_ms),
            "client"@,
        ) + "\n"@,
        (ids matches Some(wanted) && !wanted.contains(id)) ==> client_lines(
            rows.push((id, c)),
            now_ms,
            ids,
        ) == client_lines(rows, now_ms, ids),
        now_ms >= c.created_ms ==> age_of(now_ms, c.created_ms) * 1000 <= now_ms - c.created_ms
            < age_of(now_ms, c.created_ms) * 1000 + 1000,
        now_ms < c.created_ms ==> age_of(now_ms, c.created_ms) == 0,
{
    assert(rows.push((id, c)).drop_last() =~= rows);
}

/// Taking the newlines off the end takes off all of them, and nothing else.
pub proof fn law_only_newlines_come_off(t: Seq<u8>)
    ensures
        no_newlines(t).len() > 0 ==> no_newlines(t).last() != 10,
        no_newlines(t).len() <= t.len(),
        no_newlines(t) == t.take(no_newlines(t).len() as int),
        forall|i: int| no_newlines(t).len() <= i < t.len() ==> #[trigger] t[i] == 10,
    decreases t.len(),
{
    if t.len() > 0 && t.last() == 10 {
        let rest = t.drop_last();
        law_only_newlines_come_off(rest);
        assert(rest.take(no_newlines(rest).len() as int) =~= t.take(no_newlines(t).len() as int));
        assert forall|i: int| no_newlines(t).len() <= i < t.len() implies #[trigger] t[i] == 10 by {
            if i < rest.len() {
                assert(rest[i] == t[i]);
            }
        }
    } else {
        assert(t.take(t.len() as int) =~= t);
    }
}

/// What HELLO replies: the server, its version, the protocol in force as a
/// number, the connection's own id, and its mode and role.
pub proof fn law_hello_introduces_the_server(id: u64)
    requires
        id <= 0x7fff_ffff_ffff_ffff,
    ensures
        hello_reply(Protocol::Resp3, id) == greeting(resp::map_reply(Protocol::Resp3, 7), 3, id),
        hello_reply(Protocol::Resp2, id) == greeting(resp::map_reply(Protocol::Resp2, 7), 2, id),
{
    assert((id as i64) as int == id);
}

/// The pairs of a greeting behind its header, for a protocol version and a
/// connection.
pub open spec fn greeting(header: Seq<u8>, version: int, id: u64) -> Seq<u8> {
    header + word("server"@) + word("infinitydb"@) + word("version"@) + word("0.1.0-alpha.0"@)
        + word("proto"@) + resp::int_reply(version) + word("id"@) + resp::int_reply(id as int)
        + word("mode"@) + word("standalone"@) + word("role"@) + word("master"@) + word("modules"@)
        + resp::array_reply(0)
}

/// A text as a bulk reply.
pub open spec fn word(s: Seq<char>) -> Seq<u8> {
    resp::bulk_reply(text::utf8(s))
}

/// A client that is not known yet is a fresh one, and one that is known stays
/// as it is.
pub proof fn law_known_client_stays(m: Map<u64, clients::ClientRecord>, id: u64, now_ms: u64)
    ensures
        m.contains_key(id) ==> known(m, id, now_ms) == m[id],
        !m.contains_key(id) ==> known(m, id, now_ms).name.len() == 0 && known(
            m,
            id,
            now_ms,
        ).created_ms == now_ms && known(m, id, now_ms).addr == "0.0.0.0:0"@ && !known(
            m,
            id,
            now_ms,
        ).kill_requested,
{
}

/// DEBUG OBJECT describes the key it found, and says so when there is none;
/// DEBUG SLEEP sleeps for what can be read as a time.
pub proof fn law_debug_answers_its_subcommand(
    argv: Seq<&[u8]>,
    sleepable: bool,
    encoding: Seq<char>,
    len: u64,
)
    requires
        argv.len() == 3,
    ensures
        text::is_word(argv[1]@, "OBJECT"@) ==> debug_reply(argv, sleepable, None)
            == resp::error_reply("ERR no such key"@),
        text::is_word(argv[1]@, "OBJECT"@) ==> debug_reply(argv, sleepable, Some((encoding, len)))
            == resp::simple_reply(
            "Value at:0x0 refcount:1 encoding:"@ + encoding + " serializedlength:"@
                + text::dec_chars(len as nat) + " lru:0 lru_seconds_idle:0"@,
        ),
        text::is_word(argv[1]@, "SLEEP"@) ==> debug_reply(argv, true, None) == resp::simple_reply(
            "OK"@,
        ) && debug_reply(argv, false, None) == resp::error_reply(
            "ERR value is not a valid float"@,
        ),
{
    let sub = argv[1]@;
    reveal_strlit("OBJECT");
    reveal_strlit("SLEEP");
    reveal_strlit("JMAP");
    reveal_strlit("SET-ACTIVE-EXPIRE");
    lemma_word_shape(sub, "OBJECT"@);
    lemma_word_shape(sub, "SLEEP"@);
    lemma_word_shape(sub, "JMAP"@);
    lemma_word_shape(sub, "SET-ACTIVE-EXPIRE"@);
}

/// What CLIENT replies to the rest: SETNAME an OK for a name it takes and an
/// error for one it does not, GETNAME the name or a null, INFO the line of the
/// connection itself, LIST an error for what is no list of ids.
pub proof fn law_client_answers_its_subcommand(
    argv: Seq<&[u8]>,
    numbers: Seq<Option<i64>>,
    id: u64,
    now_ms: u64,
    m: Map<u64, clients::ClientRecord>,
    reply: Seq<u8>,
    step: ClientStep,
    proto: Protocol,
)
    requires
        2 <= argv.len() == numbers.len(),
        m.contains_key(id),
        client_answers(reply, step, argv, numbers, id, now_ms, m, proto),
    ensures
        text::is_word(argv[1]@, "SETNAME"@) && argv.len() == 3 && clients::is_client_name(argv[2]@)
            ==> reply == resp::simple_reply("OK"@),
        text::is_word(argv[1]@, "SETNAME"@) && argv.len() == 3 && !clients::is_client_name(
            argv[2]@,
        ) ==> reply == resp::error_reply(
            "ERR Client names cannot contain spaces, newlines or special characters."@,
        ),
        text::is_word(argv[1]@, "SETNAME"@) && argv.len() != 3 ==> step is Arity,
        text::is_word(argv[1]@, "GETNAME"@) && m[id].name.len() > 0 ==> reply == resp::bulk_reply(
            m[id].name,
        ),
        text::is_word(argv[1]@, "GETNAME"@) && m[id].name.len() == 0 ==> reply == resp::null_reply(
            proto,
        ),
        text::is_word(argv[1]@, "INFO"@) ==> exists|rows: Seq<(u64, clients::ClientRecord)>|
            clients::lists(rows, m) && reply == resp::bulk_reply(
                no_newlines(text::utf8(#[trigger] client_lines(rows, now_ms, Some(seq![id])))),
            ),
        text::is_word(argv[1]@, "LIST"@) && argv.len() >= 4 && text::is_word(argv[2]@, "ID"@)
            && listed_ids(numbers, 3) is None ==> reply == resp::error_reply(
            "ERR Invalid client ID"@,
        ),
        text::is_word(argv[1]@, "LIST"@) && argv.len() >= 3 && !text::is_word(argv[2]@, "ID"@)
            ==> reply == resp::error_reply("ERR syntax error"@),
{
    lemma_client_words(argv[1]@);
    assert(m.insert(id, m[id]) =~= m);
}

} // verus!
