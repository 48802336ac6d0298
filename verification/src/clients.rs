//! Per-cell client registry behind `CLIENT ID/GETNAME/SETNAME/LIST/INFO/KILL`.
//! A cell lists its own connections only.
//!
//! Kill is a flag handshake: the command marks the target, the plane drains
//! the marks and closes the connections at their owner.

use vstd::prelude::*;
use vstd::std_specs::cmp::OrdSpec;
use vstd::std_specs::iter::IteratorSpec;
use vstd::string::*;
use std::collections::BTreeMap;
use crate::text;

verus! {

/// One connection's introspection record.
#[derive(Clone, Debug, Default)]
pub struct ClientInfo {
    pub name: Vec<u8>,
    /// Peer address when the transport knows it, `0.0.0.0:0` otherwise.
    pub addr: String,
    /// Registration time in clock milliseconds.
    pub created_ms: u64,
    /// Negotiated protocol version (2 or 3).
    pub resp: u8,
    /// Selected database.
    pub db: u16,
    /// Channel and pattern subscription counts.
    pub sub: u32,
    pub psub: u32,
    pub kill_requested: bool,
    /// The plane's connection key; `None` for callers the plane never saw.
    pub key: Option<u64>,
}

/// The mathematical content of a [`ClientInfo`].
pub struct ClientRecord {
    pub name: Seq<u8>,
    pub addr: Seq<char>,
    pub created_ms: u64,
    pub resp: u8,
    pub db: u16,
    pub sub: u32,
    pub psub: u32,
    pub kill_requested: bool,
    pub key: Option<u64>,
}

impl View for ClientInfo {
    type V = ClientRecord;

    open spec fn view(&self) -> ClientRecord {
        ClientRecord {
            name: self.name@,
            addr: self.addr@,
            created_ms: self.created_ms,
            resp: self.resp,
            db: self.db,
            sub: self.sub,
            psub: self.psub,
            kill_requested: self.kill_requested,
            key: self.key,
        }
    }
}

/// A freshly registered connection: no name, protocol 2, database 0, no
/// subscriptions, no kill mark.
pub open spec fn fresh_client(addr: Seq<char>, created_ms: u64, key: Option<u64>) -> ClientRecord {
    ClientRecord {
        name: Seq::empty(),
        addr: addr,
        created_ms: created_ms,
        resp: 2,
        db: 0,
        sub: 0,
        psub: 0,
        kill_requested: false,
        key: key,
    }
}

impl ClientInfo {
    fn fresh(addr: String, created_ms: u64, key: Option<u64>) -> (r: ClientInfo)
        ensures
            r@ == fresh_client(addr@, created_ms, key),
    {
        ClientInfo {
            name: Vec::new(),
            addr,
            created_ms,
            resp: 2,
            db: 0,
            sub: 0,
            psub: 0,
            kill_requested: false,
            key,
        }
    }
}

/// Connections by client id; listings come out in id order.
#[derive(Debug)]
pub struct ClientRegistry {
    clients: BTreeMap<u64, ClientInfo>,
}

/// Wraps `BTreeMap::get_mut`. Claimed: a mutable reference to the value held
/// under the key, through which that value alone can change; nothing, and no
/// change, where the key is not held.
#[verifier::external_body]
fn held_mut(clients: &mut BTreeMap<u64, ClientInfo>, id: u64) -> (r: Option<&mut ClientInfo>)
    ensures
        match r {
            Some(info) => old(clients)@.contains_key(id) && *info == old(clients)@[id]
                && final(clients)@ == old(clients)@.insert(id, *final(info)),
            None => !old(clients)@.contains_key(id) && final(clients)@ == old(clients)@,
        },
{
    clients.get_mut(&id)
}

/// Whether a list of ids is strictly ascending.
pub open spec fn ids_ascend(s: Seq<u64>) -> bool {
    forall|i: int, j: int| 0 <= i < j < s.len() ==> #[trigger] s[i] < #[trigger] s[j]
}

/// Whether a listing holds exactly the clients of `m`, in id order.
pub open spec fn lists(rows: Seq<(u64, ClientRecord)>, m: Map<u64, ClientRecord>) -> bool {
    &&& forall|i: int, j: int|
        0 <= i < j < rows.len() ==> (#[trigger] rows[i]).0 < (#[trigger] rows[j]).0
    &&& forall|i: int|
        0 <= i < rows.len() ==> m.contains_key((#[trigger] rows[i]).0) && m[rows[i].0]
            == rows[i].1
    &&& forall|id: u64| #[trigger]
        m.contains_key(id) ==> exists|i: int| 0 <= i < rows.len() && (#[trigger] rows[i]).0 == id
}

spec fn content(clients: Map<u64, ClientInfo>) -> Map<u64, ClientRecord> {
    clients.map_values(|info: ClientInfo| info@)
}

proof fn lemma_content_insert(clients: Map<u64, ClientInfo>, id: u64, info: ClientInfo)
    ensures
        content(clients.insert(id, info)) == content(clients).insert(id, info@),
{
    assert(content(clients.insert(id, info)) =~= content(clients).insert(id, info@));
}

impl View for ClientRegistry {
    type V = Map<u64, ClientRecord>;

    closed spec fn view(&self) -> Map<u64, ClientRecord> {
        content(self.clients@)
    }
}

impl Default for ClientRegistry {
    fn default() -> (r: ClientRegistry)
        ensures
            r@ == Map::<u64, ClientRecord>::empty(),
    {
        let r = ClientRegistry { clients: BTreeMap::new() };
        proof {
            assert(r@ =~= Map::empty());
        }
        r
    }
}

impl ClientRegistry {
    /// Registers a connection, replacing what was held under the id.
    pub fn register(&mut self, id: u64, key: u64, addr: String, created_ms: u64)
        ensures
            final(self)@ == old(self)@.insert(id, fresh_client(addr@, created_ms, Some(key))),
    {
        let info = ClientInfo::fresh(addr, created_ms, Some(key));
        proof {
            lemma_content_insert(self.clients@, id, info);
        }
        self.clients.insert(id, info);
    }

    /// Drops a connection's record, if there is one.
    pub fn unregister(&mut self, id: u64)
        ensures
            final(self)@ == old(self)@.remove(id),
    {
        self.clients.remove(&id);
        proof {
            assert(self@ =~= old(self)@.remove(id));
        }
    }

    /// The record held under `id`; a caller the plane never saw is registered
    /// on the spot.
    pub fn ensure(&mut self, id: u64, created_ms: u64) -> (r: &mut ClientInfo)
        ensures
            (*r)@ == (if old(self)@.contains_key(id) {
                old(self)@[id]
            } else {
                fresh_client("0.0.0.0:0"@, created_ms, None)
            }),
            final(self)@ == old(self)@.insert(id, (*final(r))@),
    {
        if !self.clients.contains_key(&id) {
            let info = ClientInfo::fresh("0.0.0.0:0".to_owned(), created_ms, None);
            self.clients.insert(id, info);
        }
        proof {
            let held = self.clients@;
            assert forall|info: ClientInfo| #[trigger]
                content(held.insert(id, info)) == old(self)@.insert(id, info@) by {
                assert(content(held.insert(id, info)) =~= old(self)@.insert(id, info@));
            }
        }
        held_mut(&mut self.clients, id).unwrap()
    }

    /// The record held under `id`.
    pub fn get(&self, id: u64) -> (r: Option<&ClientInfo>)
        ensures
            match r {
                Some(info) => self@.contains_key(id) && info@ == self@[id],
                None => !self@.contains_key(id),
            },
    {
        self.clients.get(&id)
    }

    /// Mirrors the connection's database and subscription counts; registers a
    /// caller the plane never saw, like [`ClientRegistry::ensure`].
    pub fn note_conn_state(&mut self, id: u64, created_ms: u64, db: u16, sub: u32, psub: u32)
        ensures
            final(self)@ == old(self)@.insert(
                id,
                ClientRecord {
                    db: db,
                    sub: sub,
                    psub: psub,
                    ..(if old(self)@.contains_key(id) {
                        old(self)@[id]
                    } else {
                        fresh_client("0.0.0.0:0"@, created_ms, None)
                    })
                },
            ),
    {
        let c = self.ensure(id, created_ms);
        c.db = db;
        c.sub = sub;
        c.psub = psub;
    }

    /// Records the negotiated protocol version of a known client.
    pub fn set_resp(&mut self, id: u64, resp: u8)
        ensures
            final(self)@ == (if old(self)@.contains_key(id) {
                old(self)@.insert(id, ClientRecord { resp: resp, ..old(self)@[id] })
            } else {
                old(self)@
            }),
    {
        let ghost before = self.clients@;
        if let Some(c) = held_mut(&mut self.clients, id) {
            c.resp = resp;
            proof {
                lemma_content_insert(before, id, *c);
            }
        }
    }

    /// Marks `id` for the plane's kill sweep. False when unknown.
    pub fn request_kill(&mut self, id: u64) -> (r: bool)
        ensures
            r == old(self)@.contains_key(id),
            final(self)@ == (if r {
                old(self)@.insert(id, ClientRecord { kill_requested: true, ..old(self)@[id] })
            } else {
                old(self)@
            }),
    {
        let ghost before = self.clients@;
        match held_mut(&mut self.clients, id) {
            Some(c) => {
                c.kill_requested = true;
                proof {
                    lemma_content_insert(before, id, *c);
                }
                true
            },
            None => false,
        }
    }

    /// The plane key registered for `id`.
    pub fn conn_key(&self, id: u64) -> (r: Option<u64>)
        ensures
            r == (if self@.contains_key(id) {
                self@[id].key
            } else {
                None
            }),
    {
        match self.get(id) {
            Some(c) => c.key,
            None => None,
        }
    }

    /// Drains the kill marks: the marked ids in ascending order, with every
    /// mark cleared.
    pub fn take_kill_requests(&mut self) -> (r: Vec<u64>)
        ensures
            ids_ascend(r@),
            forall|id: u64| #[trigger]
                r@.contains(id) <==> old(self)@.contains_key(id)
                    && old(self)@[id].kill_requested,
            final(self)@ == old(self)@.map_values(
                |c: ClientRecord| ClientRecord { kill_requested: false, ..c },
            ),
    {
        let out = self.marked();
        let ghost before = self.clients@;
        let clear = Ghost(|c: ClientRecord| ClientRecord { kill_requested: false, ..c });
        let mut i: usize = 0;
        while i < out.len()
            invariant
                i <= out.len(),
                before == old(self).clients@,
                clear@ == (|c: ClientRecord| ClientRecord { kill_requested: false, ..c }),
                self.clients@.dom() == before.dom(),
                ids_ascend(out@),
                forall|id: u64| #[trigger]
                    out@.contains(id) <==> before.contains_key(id) && before[id].kill_requested,
                forall|id: u64|
                    before.contains_key(id) ==> (#[trigger] self.clients@[id])@ == (
                    if out@.take(i as int).contains(id) {
                        clear@(before[id]@)
                    } else {
                        before[id]@
                    }),
            decreases out.len() - i,
        {
            let id: u64 = out[i];
            let ghost held = self.clients@;
            proof {
                assert(out@.contains(id));
                assert(out@.take(i + 1) =~= out@.take(i as int).push(id));
                if out@.take(i as int).contains(id) {
                    let k = out@.take(i as int).index_of(id);
                    assert(out@[k] < out@[i as int]);
                }
            }
            if let Some(c) = held_mut(&mut self.clients, id) {
                c.kill_requested = false;
            }
            proof {
                assert(self.clients@.dom() =~= before.dom());
                assert forall|x: u64| before.contains_key(x) implies (
                #[trigger] self.clients@[x])@ == (if out@.take(i + 1).contains(x) {
                    clear@(before[x]@)
                } else {
                    before[x]@
                }) by {
                    assert(out@.take(i + 1).contains(x) <==> out@.take(i as int).contains(x) || x
                        == id) by {
                        if out@.take(i as int).contains(x) {
                            let k = out@.take(i as int).index_of(x);
                            assert(out@.take(i + 1)[k] == x);
                        }
                        assert(out@.take(i + 1)[i as int] == id);
                    }
                    if x != id {
                        assert(self.clients@[x] == held[x]);
                    }
                }
            }
            i += 1;
        }
        proof {
            assert(out@.take(i as int) =~= out@);
            assert forall|x: u64| before.contains_key(x) implies (#[trigger] self.clients@[x])@
                == clear@(before[x]@) by {
                if !out@.contains(x) {
                    assert(!before[x].kill_requested);
                }
            }
            assert(self@ =~= content(before).map_values(clear@));
        }
        out
    }

    fn marked(&self) -> (r: Vec<u64>)
        ensures
            ids_ascend(r@),
            forall|id: u64| #[trigger]
                r@.contains(id) <==> self.clients@.contains_key(id)
                    && self.clients@[id].kill_requested,
    {
        let rows = self.iter();
        let ghost listing = rows@.map_values(|t: (u64, &ClientInfo)| (t.0, t.1@));
        let mut out: Vec<u64> = Vec::new();
        let mut i: usize = 0;
        while i < rows.len()
            invariant
                i <= rows.len(),
                listing == rows@.map_values(|t: (u64, &ClientInfo)| (t.0, t.1@)),
                lists(listing, self@),
                ids_ascend(out@),
                forall|n: int|
                    0 <= n < out.len() ==> exists|k: int|
                        0 <= k < i && (#[trigger] listing[k]).0 == #[trigger] out@[n]
                            && listing[k].1.kill_requested,
                forall|k: int|
                    0 <= k < i && (#[trigger] listing[k]).1.kill_requested ==> out@.contains(
                        listing[k].0,
                    ),
            decreases rows.len() - i,
        {
            let ghost prev = out@;
            let (id, info) = rows[i];
            proof {
                assert(listing[i as int] == (id, info@));
            }
            if info.kill_requested {
                out.push(id);
                proof {
                    assert(out@[prev.len() as int] == id);
                    assert forall|k: int|
                        0 <= k < i + 1 && (
                        #[trigger] listing[k]).1.kill_requested implies out@.contains(
                        listing[k].0,
                    ) by {
                        if k < i {
                            assert(prev.contains(listing[k].0));
                            let n = prev.index_of(listing[k].0);
                            assert(out@[n] == listing[k].0);
                        }
                    }
                }
            }
            i += 1;
        }
        proof {
            assert forall|id: u64| #[trigger] out@.contains(id) <==> self.clients@.contains_key(id)
                && self.clients@[id].kill_requested by {
                if out@.contains(id) {
                    let n = out@.index_of(id);
                    let k = choose|k: int|
                        0 <= k < i && (#[trigger] listing[k]).0 == out@[n]
                            && listing[k].1.kill_requested;
                    assert(self@.contains_key(listing[k].0));
                }
                if self.clients@.contains_key(id) && self.clients@[id].kill_requested {
                    assert(self@.contains_key(id));
                    let k = choose|k: int| 0 <= k < listing.len() && (#[trigger] listing[k]).0 == id;
                    assert(listing[k].1 == self@[id]);
                }
            }
        }
        out
    }

    /// Every client with its id, in id order.
    pub fn iter(&self) -> (r: Vec<(u64, &ClientInfo)>)
        ensures
            lists(r@.map_values(|t: (u64, &ClientInfo)| (t.0, t.1@)), self@),
    {
        broadcast use vstd::std_specs::btree::group_btree_axioms;

        let mut out: Vec<(u64, &ClientInfo)> = Vec::new();
        let rows = self.clients.iter();
        let ghost listed = rows.remaining();
        for entry in it: rows
            invariant
                it.seq() == listed,
                out@.len() == it.index(),
                forall|k: int|
                    0 <= k < out.len() ==> (#[trigger] out@[k]).0 == *listed[k].0 && out@[k].1
                        == listed[k].1,
        {
            out.push((*entry.0, entry.1));
        }
        proof {
            let listing = out@.map_values(|t: (u64, &ClientInfo)| (t.0, t.1@));
            let keys = listed.map_values(|kv: (&u64, &ClientInfo)| *kv.0);
            assert(vstd::std_specs::btree::increasing_seq(keys));
            assert forall|i: int, j: int| 0 <= i < j < listing.len() implies (
            #[trigger] listing[i]).0 < (#[trigger] listing[j]).0 by {
                assert(keys[i].cmp_spec(&keys[j]) is Less);
            }
            assert forall|i: int| 0 <= i < listing.len() implies self@.contains_key(
                (#[trigger] listing[i]).0,
            ) && self@[listing[i].0] == listing[i].1 by {
                assert(self.clients@.contains_key(*listed[i].0));
            }
            assert forall|id: u64| #[trigger] self@.contains_key(id) implies exists|i: int|
                0 <= i < listing.len() && (#[trigger] listing[i]).0 == id by {
                assert(self.clients@.contains_key(id));
                assert(listed.contains((&id, &self.clients@[id])));
                let k = listed.index_of((&id, &self.clients@[id]));
                assert(listing[k].0 == id);
            }
        }
        out
    }

    /// The number of clients.
    pub fn len(&self) -> (r: usize)
        ensures
            self@.dom().finite(),
            r == self@.dom().len(),
    {
        broadcast use vstd::std_specs::btree::group_btree_axioms;

        proof {
            assert(self@.dom() =~= self.clients@.dom());
        }
        self.clients.len()
    }

    /// Whether no client is registered.
    pub fn is_empty(&self) -> (r: bool)
        ensures
            r == (self@ == Map::<u64, ClientRecord>::empty()),
    {
        proof {
            assert(self@.dom() =~= self.clients@.dom());
            if self.clients@.dom().is_empty() {
                assert(self.clients@.dom() =~= Set::empty());
                assert(self@ =~= Map::empty());
            }
        }
        self.clients.is_empty()
    }
}

/// Whether every byte is printable ASCII and not a space.
pub open spec fn is_client_name(name: Seq<u8>) -> bool {
    forall|i: int| 0 <= i < name.len() ==> 33 <= #[trigger] name[i] <= 126
}

/// The `CLIENT SETNAME` charset rule: printable ASCII, no spaces.
pub fn valid_client_name(name: &[u8]) -> (r: bool)
    ensures
        r == is_client_name(name@),
{
    let mut i: usize = 0;
    while i < name.len()
        invariant
            i <= name.len(),
            forall|k: int| 0 <= k < i ==> 33 <= #[trigger] name@[k] <= 126,
        decreases name.len() - i,
    {
        if name[i] < 33 || name[i] > 126 {
            return false;
        }
        i += 1;
    }
    true
}

/// One `CLIENT LIST` line, without the newline.
pub open spec fn client_line(id: u64, c: ClientRecord, age: u64, cmd: Seq<char>) -> Seq<char> {
    "id="@ + text::dec_chars(id as nat) + " addr="@ + c.addr + " laddr=0.0.0.0:0 fd=-1 name="@
        + text::lossy(c.name) + " age="@ + text::dec_chars(age as nat) + " idle=0 flags=N db="@
        + text::dec_chars(c.db as nat) + " sub="@ + text::dec_chars(c.sub as nat) + " psub="@
        + text::dec_chars(c.psub as nat)
        + " ssub=0 multi=-1 watch=0 qbuf=0 qbuf-free=0 argv-mem=0 multi-mem=0 tot-net-in=0 tot-net-out=0 rbs=1024 rbp=0 obl=0 oll=0 omem=0 tot-mem=0 events=r cmd="@
        + cmd + " user=default redir=-1 resp="@ + text::dec_chars(c.resp as nat)
        + " lib-name= lib-ver= tot-cmds=0"@
}

/// One `CLIENT LIST`/`CLIENT INFO` line (no trailing newline). The fields this
/// registry does not track read as constants.
pub fn format_client_line(id: u64, info: &ClientInfo, age_secs: u64, last_cmd: &str) -> (r: String)
    ensures
        r@ == client_line(id, info@, age_secs, last_cmd@),
{
    let mut s: String = "id=".to_owned();
    text::append_dec(&mut s, id);
    s.append(" addr=");
    s.append(info.addr.as_str());
    s.append(" laddr=0.0.0.0:0 fd=-1 name=");
    let name = text::lossy_string(info.name.as_slice());
    s.append(name.as_str());
    s.append(" age=");
    text::append_dec(&mut s, age_secs);
    s.append(" idle=0 flags=N db=");
    text::append_dec(&mut s, info.db as u64);
    s.append(" sub=");
    text::append_dec(&mut s, info.sub as u64);
    s.append(" psub=");
    text::append_dec(&mut s, info.psub as u64);
    s.append(
        " ssub=0 multi=-1 watch=0 qbuf=0 qbuf-free=0 argv-mem=0 multi-mem=0 tot-net-in=0 tot-net-out=0 rbs=1024 rbp=0 obl=0 oll=0 omem=0 tot-mem=0 events=r cmd=",
    );
    s.append(last_cmd);
    s.append(" user=default redir=-1 resp=");
    text::append_dec(&mut s, info.resp as u64);
    s.append(" lib-name= lib-ver= tot-cmds=0");
    s
}

/// Draining the kill marks twice in a row yields nothing the second time: the
/// content a drain leaves has no mark.
pub proof fn law_kill_marks_drain(before: Map<u64, ClientRecord>, id: u64)
    requires
        before.contains_key(id),
    ensures
        !before.map_values(
            |c: ClientRecord| ClientRecord { kill_requested: false, ..c },
        )[id].kill_requested,
{
}

/// A client name is made of visible bytes only: no space, no control byte and
/// nothing past ASCII. The empty name takes a name away.
pub proof fn law_names_are_visible_bytes(name: Seq<u8>, b: u8)
    ensures
        is_client_name(Seq::empty()),
        is_client_name(name) && 33 <= b <= 126 ==> is_client_name(name.push(b)),
        is_client_name(name) && (b <= 32 || b >= 127) ==> !is_client_name(name.push(b)),
        is_client_name(name.push(b)) ==> is_client_name(name),
{
    let more = name.push(b);
    assert(more[name.len() as int] == b);
    if is_client_name(name) && 33 <= b <= 126 {
        assert forall|i: int| 0 <= i < more.len() implies 33 <= #[trigger] more[i] <= 126 by {
            if i < name.len() {
                assert(name[i] == more[i]);
            }
        }
    }
    if is_client_name(more) {
        assert forall|i: int| 0 <= i < name.len() implies 33 <= #[trigger] name[i] <= 126 by {
            assert(more[i] == name[i]);
        }
    }
}

/// A client starts without a name, on the first database and the old protocol,
/// subscribed to nothing and not marked.
pub proof fn law_client_starts_fresh(addr: Seq<char>, created_ms: u64, key: Option<u64>)
    ensures
        fresh_client(addr, created_ms, key).name.len() == 0,
        fresh_client(addr, created_ms, key).addr == addr,
        fresh_client(addr, created_ms, key).created_ms == created_ms,
        fresh_client(addr, created_ms, key).resp == 2,
        fresh_client(addr, created_ms, key).db == 0,
        fresh_client(addr, created_ms, key).sub == 0,
        fresh_client(addr, created_ms, key).psub == 0,
        !fresh_client(addr, created_ms, key).kill_requested,
        fresh_client(addr, created_ms, key).key == key,
{
}

/// A client's line starts with its id and address, and shows its name, age,
/// database, subscriptions and protocol, each behind its own label.
pub proof fn law_line_shows_the_client(id: u64, c: ClientRecord, age: u64, cmd: Seq<char>)
    ensures
        client_line(id, c, age, cmd) == "id="@ + text::dec_chars(id as nat) + " addr="@ + c.addr
            + " laddr=0.0.0.0:0 fd=-1 name="@ + text::lossy(c.name) + " age="@ + text::dec_chars(
            age as nat,
        ) + " idle=0 flags=N db="@ + text::dec_chars(c.db as nat) + " sub="@ + text::dec_chars(
            c.sub as nat,
        ) + " psub="@ + text::dec_chars(c.psub as nat)
            + " ssub=0 multi=-1 watch=0 qbuf=0 qbuf-free=0 argv-mem=0 multi-mem=0 tot-net-in=0 tot-net-out=0 rbs=1024 rbp=0 obl=0 oll=0 omem=0 tot-mem=0 events=r cmd="@
            + cmd + " user=default redir=-1 resp="@ + text::dec_chars(c.resp as nat)
            + " lib-name= lib-ver= tot-cmds=0"@,
{
}

/// The model of a client has what the client has.
pub proof fn law_client_is_its_model(info: ClientInfo)
    ensures
        info@.name == info.name@,
        info@.addr == info.addr@,
        info@.created_ms == info.created_ms,
        info@.resp == info.resp,
        info@.db == info.db,
        info@.sub == info.sub,
        info@.psub == info.psub,
        info@.kill_requested == info.kill_requested,
        info@.key == info.key,
{
}

} // verus!
