//! Typed configuration store: a fixed table of known keys, each with a
//! hot-reload class. Values live in their canonical string form; typed
//! validation runs when a value is set.

use vstd::prelude::*;
use vstd::slice::slice_subrange;
use crate::glob;
use crate::text;

verus! {

/// When a key's new value takes effect.
#[derive(Copy, Clone, PartialEq, Eq, Debug, Structural)]
pub enum ReloadClass {
    /// Only readable at runtime; set at boot.
    BootOnly,
    /// Applies node-wide on the next control sweep.
    Hot,
    /// Applies per cell within one maintenance round.
    HotPerCell,
}

/// Validation and normalization rule of a key.
#[derive(Copy, Clone, PartialEq, Eq, Debug, Structural)]
pub enum Kind {
    /// Byte size with memory units (`100mb` is `104857600`).
    Memory,
    /// Plain integer.
    Int,
    /// `no` or `yes`, in any case, stored lowercase.
    Toggle,
    /// One of the eviction policies, in any case, stored lowercase.
    Policy,
    /// Free-form string.
    Str,
}

#[derive(Debug)]
struct Entry {
    key: &'static str,
    class: ReloadClass,
    kind: Kind,
    value: String,
}

/// One row of the store: its key, its rules and its current value.
pub struct ConfigRow {
    pub key: Seq<char>,
    pub class: ReloadClass,
    pub kind: Kind,
    pub value: Seq<char>,
}

/// Why a value was not set.
#[derive(Clone, PartialEq, Eq, Debug)]
pub enum ConfigSetError {
    Unknown(String),
    Immutable(String),
    Invalid { key: String, value: String },
}

pub const MAXMEMORY_POLICIES: [&'static str; 8] = [
    "noeviction",
    "allkeys-lru",
    "volatile-lru",
    "allkeys-random",
    "volatile-random",
    "volatile-ttl",
    "allkeys-lfu",
    "volatile-lfu",
];

impl Entry {
    spec fn row(self) -> ConfigRow {
        ConfigRow { key: self.key@, class: self.class, kind: self.kind, value: self.value@ }
    }
}

fn entry(key: &'static str, class: ReloadClass, kind: Kind, value: &str) -> (r: Entry)
    ensures
        r.row() == (ConfigRow { key: key@, class: class, kind: kind, value: value@ }),
{
    Entry { key, class, kind, value: value.to_owned() }
}

/// A row of the default table.
pub open spec fn default_row(
    key: &str,
    class: ReloadClass,
    kind: Kind,
    value: &str,
) -> ConfigRow {
    ConfigRow { key: key@, class: class, kind: kind, value: value@ }
}

/// The table every store starts from, in alphabetical order.
pub open spec fn default_rows() -> Seq<ConfigRow> {
    seq![
        default_row("appendonly", ReloadClass::BootOnly, Kind::Toggle, "no"),
        default_row("databases", ReloadClass::BootOnly, Kind::Int, "16"),
        default_row("maxclients", ReloadClass::BootOnly, Kind::Int, "10000"),
        default_row("maxmemory", ReloadClass::HotPerCell, Kind::Memory, "0"),
        default_row("maxmemory-policy", ReloadClass::HotPerCell, Kind::Policy, "noeviction"),
        default_row("maxmemory-samples", ReloadClass::HotPerCell, Kind::Int, "5"),
        default_row("proto-max-bulk-len", ReloadClass::Hot, Kind::Memory, "536870912"),
        default_row("save", ReloadClass::Hot, Kind::Str, "3600 1 300 100 60 10000"),
        default_row("tcp-keepalive", ReloadClass::Hot, Kind::Int, "300"),
        default_row("timeout", ReloadClass::Hot, Kind::Int, "0"),
    ]
}

/// The position of the first row with `key` at or after `from`.
pub open spec fn find_row(rows: Seq<ConfigRow>, key: Seq<char>, from: int) -> Option<int>
    decreases rows.len() - from,
{
    if from < 0 || from >= rows.len() {
        None
    } else if rows[from].key == key {
        Some(from)
    } else {
        find_row(rows, key, from + 1)
    }
}

/// Whether any of the patterns takes `key`.
pub open spec fn any_pattern(patterns: Seq<&[u8]>, key: Seq<char>) -> bool {
    exists|k: int|
        0 <= k < patterns.len() && glob::glob_matches(
            #[trigger] patterns[k]@,
            text::utf8(key),
            true,
        )
}

/// The key and value of the rows that some pattern takes, in table order.
pub open spec fn matching_rows(rows: Seq<ConfigRow>, patterns: Seq<&[u8]>) -> Seq<
    (Seq<char>, Seq<char>),
>
    decreases rows.len(),
{
    if rows.len() == 0 {
        Seq::empty()
    } else {
        let rest = matching_rows(rows.drop_last(), patterns);
        let row = rows.last();
        if any_pattern(patterns, row.key) {
            rest.push((row.key, row.value))
        } else {
            rest
        }
    }
}

/// A number with its multiplier applied; `None` when the digits do not parse
/// or the product leaves the 64-bit range.
pub open spec fn scaled(digits: Seq<u8>, mult: nat) -> Option<u64> {
    match text::as_u64(text::unsigned_number(digits)) {
        Some(n) => if n * mult <= u64::MAX {
            Some((n * mult) as u64)
        } else {
            None
        },
        None => None,
    }
}

/// Memory-unit grammar over lowercase text: bare bytes, or a `k`/`m`/`g`
/// (decimal), `kb`/`mb`/`gb` (binary) or `b` suffix.
pub open spec fn memory_number(s: Seq<u8>) -> Option<u64> {
    if text::has_suffix(s, seq![107u8, 98u8]) {
        scaled(s.take(s.len() - 2), 1024)
    } else if text::has_suffix(s, seq![109u8, 98u8]) {
        scaled(s.take(s.len() - 2), 1048576)
    } else if text::has_suffix(s, seq![103u8, 98u8]) {
        scaled(s.take(s.len() - 2), 1073741824)
    } else if text::has_suffix(s, seq![107u8]) {
        scaled(s.take(s.len() - 1), 1000)
    } else if text::has_suffix(s, seq![109u8]) {
        scaled(s.take(s.len() - 1), 1000000)
    } else if text::has_suffix(s, seq![103u8]) {
        scaled(s.take(s.len() - 1), 1000000000)
    } else if text::has_suffix(s, seq![98u8]) {
        scaled(s.take(s.len() - 1), 1)
    } else {
        scaled(s, 1)
    }
}

/// The byte count a memory setting denotes, in any letter case.
pub open spec fn memory_of(value: Seq<char>) -> Option<u64> {
    memory_number(text::utf8(text::lowercase(value)))
}

/// Whether `value` is one of the eviction policies.
pub open spec fn is_policy(value: Seq<char>) -> bool {
    exists|i: int| 0 <= i < 8 && #[trigger] MAXMEMORY_POLICIES@[i]@ == value
}

/// The canonical form of a value under a rule; `None` when it is invalid.
pub open spec fn normalized(kind: Kind, value: Seq<char>) -> Option<Seq<char>> {
    match kind {
        Kind::Memory => match memory_of(value) {
            Some(n) => Some(text::dec_chars(n as nat)),
            None => None,
        },
        Kind::Int => match text::as_i64(text::signed_number(text::utf8(value))) {
            Some(n) => Some(text::dec_int_chars(n as int)),
            None => None,
        },
        Kind::Toggle => {
            let low = text::lowercase(value);
            if low == "no"@ || low == "yes"@ {
                Some(low)
            } else {
                None
            }
        },
        Kind::Policy => {
            let low = text::lowercase(value);
            if is_policy(low) {
                Some(low)
            } else {
                None
            }
        },
        Kind::Str => Some(value),
    }
}

/// Whether a value is in the form a rule stores.
pub open spec fn canonical(kind: Kind, value: Seq<char>) -> bool {
    match kind {
        Kind::Memory => exists|n: u64| value == #[trigger] text::dec_chars(n as nat),
        Kind::Int => exists|n: i64| value == #[trigger] text::dec_int_chars(n as int),
        Kind::Toggle => value == "no"@ || value == "yes"@,
        Kind::Policy => is_policy(value),
        Kind::Str => true,
    }
}

/// Whether two tables agree on every key, class and rule.
pub open spec fn same_schema(a: Seq<ConfigRow>, b: Seq<ConfigRow>) -> bool {
    &&& a.len() == b.len()
    &&& forall|i: int|
        0 <= i < a.len() ==> (#[trigger] a[i]).key == b[i].key && a[i].class == b[i].class
            && a[i].kind == b[i].kind
}

/// Whether rows make up a table: the keys, classes and rules every store
/// starts from, each with a value in canonical form.
pub open spec fn is_table(rows: Seq<ConfigRow>) -> bool {
    &&& same_schema(rows, default_rows())
    &&& forall|i: int|
        0 <= i < rows.len() ==> canonical((#[trigger] rows[i]).kind, rows[i].value)
}

/// Whether a pair writes a settable key's own value back.
pub open spec fn writes_back(rows: Seq<ConfigRow>, key: Seq<u8>, value: Seq<u8>) -> bool {
    exists|i: int|
        0 <= i < rows.len() && (#[trigger] rows[i]).class != ReloadClass::BootOnly && key
            == text::utf8(rows[i].key) && value == text::utf8(rows[i].value)
}

/// Whether a key comes before another in alphabetical order.
pub open spec fn precedes(a: Seq<char>, b: Seq<char>) -> bool {
    exists|p: int| #[trigger] parts_at(a, b, p)
}

/// Whether two keys agree up to `p` and the first is smaller there.
pub open spec fn parts_at(a: Seq<char>, b: Seq<char>, p: int) -> bool {
    &&& 0 <= p <= a.len()
    &&& p < b.len()
    &&& a.take(p) == b.take(p)
    &&& p < a.len() ==> a[p] < b[p]
}

/// Whether a listing answers some patterns: in alphabetical order and so each
/// key once, exactly the keys that a pattern takes, each with the value that
/// a read of it gives.
pub open spec fn lists(
    out: Seq<(Seq<char>, Seq<char>)>,
    rows: Seq<ConfigRow>,
    patterns: Seq<&[u8]>,
) -> bool {
    &&& forall|i: int, j: int|
        0 <= i < j < out.len() ==> precedes((#[trigger] out[i]).0, (#[trigger] out[j]).0)
    &&& forall|i: int|
        0 <= i < out.len() ==> any_pattern(patterns, (#[trigger] out[i]).0) && (find_row(
            rows,
            out[i].0,
            0,
        ) matches Some(k) && rows[k].value == out[i].1)
    &&& forall|key: Seq<char>|
        (#[trigger] find_row(rows, key, 0)) is Some && any_pattern(patterns, key) ==> exists|
            i: int,
        | 0 <= i < out.len() && (#[trigger] out[i]).0 == key
}

/// What setting `key` to `value` does to the rows: the new rows and the reload
/// class, or the error with the rows unchanged.
pub open spec fn set_outcome(rows: Seq<ConfigRow>, key: Seq<u8>, value: Seq<u8>) -> SetOutcome {
    let name = text::lowercase(text::lossy(key));
    match find_row(rows, name, 0) {
        None => SetOutcome::Unknown(name),
        Some(i) => {
            let row = rows[i];
            let shown = text::lossy(value);
            if row.class == ReloadClass::BootOnly {
                SetOutcome::Immutable(name)
            } else {
                match normalized(row.kind, shown) {
                    Some(v) => SetOutcome::Stored(
                        rows.update(i, ConfigRow { value: v, ..row }),
                        row.class,
                    ),
                    None => SetOutcome::Invalid(name, shown),
                }
            }
        },
    }
}

/// The outcomes of setting a value.
pub enum SetOutcome {
    Stored(Seq<ConfigRow>, ReloadClass),
    Unknown(Seq<char>),
    Immutable(Seq<char>),
    Invalid(Seq<char>, Seq<char>),
}

/// Whether an executed result reports the outcome.
pub open spec fn reports(r: Result<ReloadClass, ConfigSetError>, o: SetOutcome) -> bool {
    match o {
        SetOutcome::Stored(_, class) => r == Ok::<ReloadClass, ConfigSetError>(class),
        SetOutcome::Unknown(k) => r matches Err(ConfigSetError::Unknown(s)) && s@ == k,
        SetOutcome::Immutable(k) => r matches Err(ConfigSetError::Immutable(s)) && s@ == k,
        SetOutcome::Invalid(k, v) => r matches Err(ConfigSetError::Invalid { key, value })
            && key@ == k && value@ == v,
    }
}

/// The rows an outcome leaves.
pub open spec fn rows_after(rows: Seq<ConfigRow>, o: SetOutcome) -> Seq<ConfigRow> {
    match o {
        SetOutcome::Stored(next, _) => next,
        _ => rows,
    }
}

/// The configuration store.
#[derive(Debug)]
pub struct ConfigStore {
    entries: Vec<Entry>,
}

impl View for ConfigStore {
    type V = Seq<ConfigRow>;

    closed spec fn view(&self) -> Seq<ConfigRow> {
        self.entries@.map_values(|e: Entry| e.row())
    }
}

impl ConfigStore {
    /// Every store holds a table.
    #[verifier::type_invariant]
    pub open spec fn wf(&self) -> bool {
        is_table(self@)
    }
}

impl Default for ConfigStore {
    fn default() -> (r: ConfigStore)
        ensures
            r@ == default_rows(),
    {
        let entries = vec![
            entry("appendonly", ReloadClass::BootOnly, Kind::Toggle, "no"),
            entry("databases", ReloadClass::BootOnly, Kind::Int, "16"),
            entry("maxclients", ReloadClass::BootOnly, Kind::Int, "10000"),
            entry("maxmemory", ReloadClass::HotPerCell, Kind::Memory, "0"),
            entry("maxmemory-policy", ReloadClass::HotPerCell, Kind::Policy, "noeviction"),
            entry("maxmemory-samples", ReloadClass::HotPerCell, Kind::Int, "5"),
            entry("proto-max-bulk-len", ReloadClass::Hot, Kind::Memory, "536870912"),
            entry("save", ReloadClass::Hot, Kind::Str, "3600 1 300 100 60 10000"),
            entry("tcp-keepalive", ReloadClass::Hot, Kind::Int, "300"),
            entry("timeout", ReloadClass::Hot, Kind::Int, "0"),
        ];
        proof {
            assert(entries@.map_values(|e: Entry| e.row()) =~= default_rows());
            lemma_default_table();
        }
        ConfigStore { entries }
    }
}

fn any_match(patterns: &[&[u8]], key: &str) -> (r: bool)
    ensures
        r == any_pattern(patterns@, key@),
{
    let mut i: usize = 0;
    while i < patterns.len()
        invariant
            i <= patterns.len(),
            forall|k: int|
                0 <= k < i ==> !glob::glob_matches(
                    #[trigger] patterns@[k]@,
                    text::utf8(key@),
                    true,
                ),
        decreases patterns.len() - i,
    {
        if glob::glob_match(patterns[i], key.as_bytes(), true) {
            proof {
                assert(glob::glob_matches(patterns@[i as int]@, text::utf8(key@), true));
            }
            return true;
        }
        i += 1;
    }
    false
}

fn ends_byte(s: &[u8], a: u8) -> (r: bool)
    ensures
        r == text::has_suffix(s@, seq![a]),
{
    let r = s.len() >= 1 && s[s.len() - 1] == a;
    proof {
        if s.len() >= 1 {
            assert(s@.skip(s.len() - 1)[0] == s@[s.len() - 1]);
            assert(r ==> s@.skip(s.len() - 1) =~= seq![a]);
        }
    }
    r
}

fn ends_pair(s: &[u8], a: u8, b: u8) -> (r: bool)
    ensures
        r == text::has_suffix(s@, seq![a, b]),
{
    let r = s.len() >= 2 && s[s.len() - 2] == a && s[s.len() - 1] == b;
    proof {
        if s.len() >= 2 {
            assert(s@.skip(s.len() - 2)[0] == s@[s.len() - 2]);
            assert(s@.skip(s.len() - 2)[1] == s@[s.len() - 1]);
            assert(r ==> s@.skip(s.len() - 2) =~= seq![a, b]);
        }
    }
    r
}

/// Reads a byte size with its memory unit.
pub fn parse_memory(value: &str) -> (r: Option<u64>)
    ensures
        r == memory_of(value@),
        forall|n: u64| value@ == #[trigger] text::dec_chars(n as nat) ==> r == Some(n),
{
    let low = text::lowercase_string(value);
    let s = low.as_str().as_bytes();
    proof {
        assert forall|n: u64| value@ == #[trigger] text::dec_chars(n as nat) implies memory_of(
            value@,
        ) == Some(n) by {
            lemma_plain_memory(value@, low@, n);
        }
    }
    let n: usize = s.len();
    if ends_pair(s, 107, 98) {
        scale(slice_subrange(s, 0, n - 2), 1024)
    } else if ends_pair(s, 109, 98) {
        scale(slice_subrange(s, 0, n - 2), 1048576)
    } else if ends_pair(s, 103, 98) {
        scale(slice_subrange(s, 0, n - 2), 1073741824)
    } else if ends_byte(s, 107) {
        scale(slice_subrange(s, 0, n - 1), 1000)
    } else if ends_byte(s, 109) {
        scale(slice_subrange(s, 0, n - 1), 1000000)
    } else if ends_byte(s, 103) {
        scale(slice_subrange(s, 0, n - 1), 1000000000)
    } else if ends_byte(s, 98) {
        scale(slice_subrange(s, 0, n - 1), 1)
    } else {
        scale(s, 1)
    }
}

fn scale(digits: &[u8], mult: u64) -> (r: Option<u64>)
    ensures
        r == scaled(digits@, mult as nat),
{
    match text::parse_u64(digits) {
        Some(n) => n.checked_mul(mult),
        None => None,
    }
}

fn policy_known(value: &str) -> (r: bool)
    ensures
        r == is_policy(value@),
{
    let mut i: usize = 0;
    while i < 8
        invariant
            i <= 8,
            forall|k: int| 0 <= k < i ==> #[trigger] MAXMEMORY_POLICIES@[k]@ != value@,
        decreases 8 - i,
    {
        if text::same_str(MAXMEMORY_POLICIES[i], value) {
            proof {
                assert(MAXMEMORY_POLICIES@[i as int]@ == value@);
            }
            return true;
        }
        i += 1;
    }
    false
}

/// The canonical form of `value` under `kind`.
pub fn normalize(kind: Kind, value: &str) -> (r: Option<String>)
    ensures
        match normalized(kind, value@) {
            Some(v) => r matches Some(s) && s@ == v,
            None => r is None,
        },
        canonical(kind, value@) ==> (r matches Some(s) && s@ == value@),
{
    match kind {
        Kind::Memory => match parse_memory(value) {
            Some(n) => Some(text::dec_string(n)),
            None => None,
        },
        Kind::Int => {
            proof {
                assert forall|n: i64| value@ == #[trigger] text::dec_int_chars(
                    n as int,
                ) implies text::as_i64(text::signed_number(text::utf8(value@))) == Some(n) by {
                    lemma_plain_int(n);
                }
            }
            match text::parse_i64(value.as_bytes()) {
                Some(n) => Some(text::dec_int_string(n)),
                None => None,
            }
        },
        Kind::Toggle => {
            let low = text::lowercase_string(value);
            proof {
                lemma_words_are_small();
                if canonical(kind, value@) {
                    text::lemma_small_is_lowercase(value@, low@);
                }
            }
            if text::same_str(low.as_str(), "no") || text::same_str(low.as_str(), "yes") {
                Some(low)
            } else {
                None
            }
        },
        Kind::Policy => {
            let low = text::lowercase_string(value);
            proof {
                lemma_words_are_small();
                if canonical(kind, value@) {
                    text::lemma_small_is_lowercase(value@, low@);
                }
            }
            if policy_known(low.as_str()) {
                Some(low)
            } else {
                None
            }
        },
        Kind::Str => Some(value.to_owned()),
    }
}

impl ConfigStore {
    /// Keys matching any of `patterns` (case-folding globs), each once, in
    /// alphabetical order.
    pub fn get_matching(&self, patterns: &[&[u8]]) -> (r: Vec<(&'static str, &str)>)
        ensures
            r@.map_values(|t: (&'static str, &str)| (t.0@, t.1@)) == matching_rows(
                self@,
                patterns@,
            ),
            lists(
                r@.map_values(|t: (&'static str, &str)| (t.0@, t.1@)),
                self@,
                patterns@,
            ),
    {
        let mut out: Vec<(&'static str, &str)> = Vec::new();
        let mut i: usize = 0;
        proof {
            assert(self@.take(0) =~= Seq::empty());
            assert(out@.map_values(|t: (&'static str, &str)| (t.0@, t.1@)) =~= Seq::empty());
        }
        while i < self.entries.len()
            invariant
                i <= self.entries.len(),
                self@.len() == self.entries.len(),
                out@.map_values(|t: (&'static str, &str)| (t.0@, t.1@)) == matching_rows(
                    self@.take(i as int),
                    patterns@,
                ),
            decreases self.entries.len() - i,
        {
            let e = &self.entries[i];
            let ghost before = out@;
            proof {
                assert(self@.take(i + 1).drop_last() =~= self@.take(i as int));
                assert(self@.take(i + 1).last() == e.row());
            }
            if any_match(patterns, e.key) {
                out.push((e.key, e.value.as_str()));
                proof {
                    assert(out@.map_values(|t: (&'static str, &str)| (t.0@, t.1@))
                        =~= before.map_values(|t: (&'static str, &str)| (t.0@, t.1@)).push(
                        (e.key@, e.value@),
                    ));
                }
            }
            i += 1;
        }
        proof {
            assert(self@.take(i as int) =~= self@);
            use_type_invariant(self);
            law_matching_is_sorted(self@, patterns@);
        }
        out
    }

    fn position(&self, key: &str) -> (r: Option<usize>)
        ensures
            match find_row(self@, key@, 0) {
                Some(i) => r matches Some(k) && k == i && k < self.entries.len(),
                None => r is None,
            },
    {
        let mut i: usize = 0;
        while i < self.entries.len()
            invariant
                i <= self.entries.len(),
                self@.len() == self.entries.len(),
                find_row(self@, key@, 0) == find_row(self@, key@, i as int),
            decreases self.entries.len() - i,
        {
            proof {
                assert(self@[i as int] == self.entries@[i as int].row());
            }
            if text::same_str(self.entries[i].key, key) {
                return Some(i);
            }
            i += 1;
        }
        None
    }

    /// Direct read of one key's value.
    pub fn get(&self, key: &str) -> (r: Option<&str>)
        ensures
            match find_row(self@, key@, 0) {
                Some(i) => r matches Some(v) && v@ == self@[i].value,
                None => r is None,
            },
    {
        match self.position(key) {
            Some(i) => {
                proof {
                    assert(self@[i as int] == self.entries@[i as int].row());
                }
                Some(self.entries[i].value.as_str())
            },
            None => None,
        }
    }

    /// The row a pair would go to, with its canonical value.
    fn judge(&self, key: &[u8], value: &[u8]) -> (r: Result<(usize, String), ConfigSetError>)
        ensures
            match set_outcome(self@, key@, value@) {
                SetOutcome::Stored(next, class) => r matches Ok((at, v)) && at < self@.len()
                    && self.entries@.len() == self@.len() && class == self@[at as int].class
                    && next == self@.update(
                    at as int,
                    ConfigRow { value: v@, ..self@[at as int] },
                ),
                SetOutcome::Unknown(k) => r matches Err(ConfigSetError::Unknown(s)) && s@ == k,
                SetOutcome::Immutable(k) => r matches Err(ConfigSetError::Immutable(s)) && s@ == k,
                SetOutcome::Invalid(k, v) => r matches Err(ConfigSetError::Invalid { key, value })
                    && key@ == k && value@ == v,
            },
            writes_back(self@, key@, value@) ==> (r matches Ok((at, v)) && v@
                == self@[at as int].value),
    {
        let raw = text::lossy_string(key);
        let name = text::lowercase_string(raw.as_str());
        proof {
            use_type_invariant(self);
            if writes_back(self@, key@, value@) {
                lemma_own_key(self@, key@, value@, name@);
            }
        }
        let at: usize = match self.position(name.as_str()) {
            Some(i) => i,
            None => {
                return Err(ConfigSetError::Unknown(name));
            },
        };
        proof {
            assert(self@[at as int] == self.entries@[at as int].row());
        }
        if self.entries[at].class == ReloadClass::BootOnly {
            return Err(ConfigSetError::Immutable(name));
        }
        let shown = text::lossy_string(value);
        proof {
            if writes_back(self@, key@, value@) {
                vstd::utf8::encode_utf8_valid_utf8(self@[at as int].value);
                vstd::utf8::encode_utf8_decode_utf8(self@[at as int].value);
            }
        }
        match normalize(self.entries[at].kind, shown.as_str()) {
            Some(v) => Ok((at, v)),
            None => Err(ConfigSetError::Invalid { key: name, value: shown }),
        }
    }

    /// Whether a pair would be stored, without storing it.
    pub fn check(&self, key: &[u8], value: &[u8]) -> (r: Result<ReloadClass, ConfigSetError>)
        ensures
            reports(r, set_outcome(self@, key@, value@)),
            writes_back(self@, key@, value@) ==> r is Ok,
    {
        match self.judge(key, value) {
            Ok((at, _)) => {
                proof {
                    assert(self@[at as int] == self.entries@[at as int].row());
                }
                Ok(self.entries[at].class)
            },
            Err(e) => Err(e),
        }
    }

    /// Validates and stores. Nothing changes when the value is refused, nor
    /// when a settable key's own value is written back, which is accepted.
    pub fn set(&mut self, key: &[u8], value: &[u8]) -> (r: Result<ReloadClass, ConfigSetError>)
        ensures
            reports(r, set_outcome(old(self)@, key@, value@)),
            final(self)@ == rows_after(old(self)@, set_outcome(old(self)@, key@, value@)),
            writes_back(old(self)@, key@, value@) ==> r is Ok && final(self)@ == old(self)@,
    {
        proof {
            use_type_invariant(&*self);
        }
        match self.judge(key, value) {
            Ok((at, v)) => {
                let ghost before = self@;
                proof {
                    assert(self@[at as int] == self.entries@[at as int].row());
                }
                // Every store is a table at any time: a fresh one stands in while
                // this one's row changes.
                let mut taken = ConfigStore::default();
                std::mem::swap(self, &mut taken);
                let ConfigStore { mut entries } = taken;
                let class = entries[at].class;
                entries[at].value = v;
                proof {
                    assert(entries@.map_values(|e: Entry| e.row()) =~= before.update(
                        at as int,
                        ConfigRow { value: v@, ..before[at as int] },
                    ));
                    law_set_keeps_table(before, key@, value@);
                }
                *self = ConfigStore { entries };
                Ok(class)
            },
            Err(e) => Err(e),
        }
    }
}

/// Setting a value adds no key, drops none and moves none: the table keeps its
/// keys, classes and rules in every outcome.
pub proof fn law_set_keeps_schema(rows: Seq<ConfigRow>, key: Seq<u8>, value: Seq<u8>)
    ensures
        same_schema(rows, rows_after(rows, set_outcome(rows, key, value))),
{
    lemma_find_row(rows, text::lowercase(text::lossy(key)), 0);
}

proof fn lemma_find_row(rows: Seq<ConfigRow>, key: Seq<char>, from: int)
    requires
        0 <= from,
    ensures
        find_row(rows, key, from) matches Some(i) ==> from <= i < rows.len() && rows[i].key == key,
    decreases rows.len() - from,
{
    if from < rows.len() && rows[from].key != key {
        lemma_find_row(rows, key, from + 1);
    }
}

proof fn lemma_find_row_same_schema(
    a: Seq<ConfigRow>,
    b: Seq<ConfigRow>,
    key: Seq<char>,
    from: int,
)
    requires
        0 <= from,
        same_schema(a, b),
    ensures
        find_row(a, key, from) == find_row(b, key, from),
    decreases a.len() - from,
{
    if from < a.len() && a[from].key != key {
        lemma_find_row_same_schema(a, b, key, from + 1);
    }
}

/// A stored value is what a read of the key gives back: in canonical form
/// under the key, and unchanged under every other key.
pub proof fn law_get_after_set(
    rows: Seq<ConfigRow>,
    key: Seq<u8>,
    value: Seq<u8>,
    probe: Seq<char>,
)
    requires
        set_outcome(rows, key, value) is Stored,
    ensures
        ({
            let name = text::lowercase(text::lossy(key));
            let after = rows_after(rows, set_outcome(rows, key, value));
            let at = find_row(rows, name, 0);
            &&& at is Some
            &&& find_row(after, probe, 0) == find_row(rows, probe, 0)
            &&& Some(after[at->0].value) == normalized(rows[at->0].kind, text::lossy(value))
            &&& probe != name ==> (find_row(rows, probe, 0) matches Some(i) ==> after[i]
                == rows[i])
        }),
{
    let name = text::lowercase(text::lossy(key));
    let after = rows_after(rows, set_outcome(rows, key, value));
    law_set_keeps_schema(rows, key, value);
    lemma_find_row_same_schema(rows, after, probe, 0);
    lemma_find_row(rows, name, 0);
    lemma_find_row(rows, probe, 0);
}

/// Setting a value keeps the table.
pub proof fn law_set_keeps_table(rows: Seq<ConfigRow>, key: Seq<u8>, value: Seq<u8>)
    requires
        is_table(rows),
    ensures
        is_table(rows_after(rows, set_outcome(rows, key, value))),
{
    law_set_keeps_schema(rows, key, value);
    lemma_find_row(rows, text::lowercase(text::lossy(key)), 0);
}

/// A listing is in alphabetical order, holds each key that a pattern takes
/// once, whatever the patterns and their order, and agrees with a read of each
/// key; without patterns it is empty.
pub proof fn law_matching_is_sorted(rows: Seq<ConfigRow>, patterns: Seq<&[u8]>)
    requires
        is_table(rows),
    ensures
        lists(matching_rows(rows, patterns), rows, patterns),
        patterns.len() == 0 ==> matching_rows(rows, patterns).len() == 0,
{
    let out = matching_rows(rows, patterns);
    lemma_table_keys(rows);
    lemma_matching(rows, patterns);
    assert forall|i: int| 0 <= i < out.len() implies any_pattern(patterns, (#[trigger] out[i]).0)
        && (find_row(rows, out[i].0, 0) matches Some(k) && rows[k].value == out[i].1) by {
        let k = choose|k: int|
            0 <= k < rows.len() && out[i] == ((#[trigger] rows[k]).key, rows[k].value)
                && any_pattern(patterns, rows[k].key);
        lemma_find_sorted(rows, k, 0);
    }
    assert forall|key: Seq<char>|
        (#[trigger] find_row(rows, key, 0)) is Some && any_pattern(patterns, key) implies exists|
        i: int,
    | 0 <= i < out.len() && (#[trigger] out[i]).0 == key by {
        lemma_find_row(rows, key, 0);
        let k = find_row(rows, key, 0)->0;
        assert(any_pattern(patterns, rows[k].key));
    }
    if patterns.len() == 0 && out.len() > 0 {
        assert(any_pattern(patterns, out[0].0));
    }
}

/// Rows in alphabetical order of their keys.
spec fn sorted(rows: Seq<ConfigRow>) -> bool {
    forall|i: int, j: int|
        0 <= i < j < rows.len() ==> precedes((#[trigger] rows[i]).key, (#[trigger] rows[j]).key)
}

proof fn lemma_matching(rows: Seq<ConfigRow>, patterns: Seq<&[u8]>)
    requires
        sorted(rows),
    ensures
        ({
            let out = matching_rows(rows, patterns);
            &&& forall|i: int|
                0 <= i < out.len() ==> exists|k: int|
                    0 <= k < rows.len() && #[trigger] out[i] == (
                        (#[trigger] rows[k]).key,
                        rows[k].value,
                    ) && any_pattern(patterns, rows[k].key)
            &&& forall|k: int|
                0 <= k < rows.len() && any_pattern(patterns, (#[trigger] rows[k]).key) ==> exists|
                    i: int,
                | 0 <= i < out.len() && (#[trigger] out[i]).0 == rows[k].key
            &&& forall|i: int, j: int|
                0 <= i < j < out.len() ==> precedes((#[trigger] out[i]).0, (#[trigger] out[j]).0)
        }),
    decreases rows.len(),
{
    if rows.len() > 0 {
        let front = rows.drop_last();
        let rest = matching_rows(front, patterns);
        let out = matching_rows(rows, patterns);
        let n = rows.len() - 1;
        assert forall|i: int, j: int| 0 <= i < j < front.len() implies precedes(
            (#[trigger] front[i]).key,
            (#[trigger] front[j]).key,
        ) by {
            assert(precedes(rows[i].key, rows[j].key));
        }
        lemma_matching(front, patterns);
        assert forall|i: int| 0 <= i < out.len() implies exists|k: int|
            0 <= k < rows.len() && #[trigger] out[i] == ((#[trigger] rows[k]).key, rows[k].value)
                && any_pattern(patterns, rows[k].key) by {
            if i < rest.len() {
                assert(out[i] == rest[i]);
                let k = choose|k: int|
                    0 <= k < front.len() && rest[i] == ((#[trigger] front[k]).key, front[k].value)
                        && any_pattern(patterns, front[k].key);
                assert(rows[k] == front[k]);
            } else {
                assert(out[i] == (rows[n].key, rows[n].value));
            }
        }
        assert forall|k: int|
            0 <= k < rows.len() && any_pattern(patterns, (#[trigger] rows[k]).key) implies exists|
            i: int,
        | 0 <= i < out.len() && (#[trigger] out[i]).0 == rows[k].key by {
            if k < n {
                assert(front[k] == rows[k]);
                let i = choose|i: int| 0 <= i < rest.len() && (#[trigger] rest[i]).0 == front[k].key;
                assert(out[i] == rest[i]);
            } else {
                assert(out[rest.len() as int].0 == rows[n].key);
            }
        }
        assert forall|i: int, j: int| 0 <= i < j < out.len() implies precedes(
            (#[trigger] out[i]).0,
            (#[trigger] out[j]).0,
        ) by {
            assert(out[i] == rest[i]);
            if j < rest.len() {
                assert(out[j] == rest[j]);
            } else {
                let k = choose|k: int|
                    0 <= k < front.len() && rest[i] == ((#[trigger] front[k]).key, front[k].value)
                        && any_pattern(patterns, front[k].key);
                assert(rows[k] == front[k]);
                assert(precedes(rows[k].key, rows[n].key));
            }
        }
    }
}

proof fn lemma_find_sorted(rows: Seq<ConfigRow>, k: int, from: int)
    requires
        sorted(rows),
        0 <= from <= k < rows.len(),
    ensures
        find_row(rows, rows[k].key, from) == Some(k),
    decreases k - from,
{
    if from < k {
        assert(precedes(rows[from].key, rows[k].key));
        lemma_precedes_differ(rows[from].key, rows[k].key);
        lemma_find_sorted(rows, k, from + 1);
    }
}

proof fn lemma_precedes_differ(a: Seq<char>, b: Seq<char>)
    requires
        precedes(a, b),
    ensures
        a != b,
{
}

proof fn lemma_precedes_chains(a: Seq<char>, b: Seq<char>, c: Seq<char>)
    requires
        precedes(a, b),
        precedes(b, c),
    ensures
        precedes(a, c),
{
    let p = choose|p: int| #[trigger] parts_at(a, b, p);
    let q = choose|q: int| #[trigger] parts_at(b, c, q);
    let m = if p <= q {
        p
    } else {
        q
    };
    assert(a.take(m) =~= c.take(m)) by {
        assert forall|i: int| 0 <= i < m implies a[i] == c[i] by {
            assert(a.take(p)[i] == b.take(p)[i]);
            assert(b.take(q)[i] == c.take(q)[i]);
        }
    }
    if p < q {
        assert(b.take(q)[p] == c.take(q)[p]);
    } else if q < p {
        assert(a.take(p)[q] == b.take(p)[q]);
    }
    assert(parts_at(a, c, m));
}

/// Whether a row's key comes before the next row's.
spec fn steps_up(rows: Seq<ConfigRow>, k: int) -> bool {
    precedes(rows[k].key, rows[k + 1].key)
}

proof fn lemma_chain(rows: Seq<ConfigRow>, i: int, j: int)
    requires
        0 <= i < j < rows.len(),
        forall|k: int| 0 <= k < rows.len() - 1 ==> #[trigger] steps_up(rows, k),
    ensures
        precedes(rows[i].key, rows[j].key),
    decreases j - i,
{
    assert(steps_up(rows, j - 1));
    if i + 1 < j {
        lemma_chain(rows, i, j - 1);
        lemma_precedes_chains(rows[i].key, rows[j - 1].key, rows[j].key);
    }
}

proof fn lemma_keys_are_small()
    ensures
        text::is_small("appendonly"@),
        text::is_small("databases"@),
        text::is_small("maxclients"@),
        text::is_small("maxmemory"@),
        text::is_small("maxmemory-policy"@),
        text::is_small("maxmemory-samples"@),
        text::is_small("proto-max-bulk-len"@),
        text::is_small("save"@),
        text::is_small("tcp-keepalive"@),
        text::is_small("timeout"@),
{
    reveal_strlit("appendonly");
    reveal_strlit("databases");
    reveal_strlit("maxclients");
    reveal_strlit("maxmemory");
    reveal_strlit("maxmemory-policy");
    reveal_strlit("maxmemory-samples");
    reveal_strlit("proto-max-bulk-len");
    reveal_strlit("save");
    reveal_strlit("tcp-keepalive");
    reveal_strlit("timeout");
}

proof fn lemma_keys_step_up()
    ensures
        precedes("appendonly"@, "databases"@),
        precedes("databases"@, "maxclients"@),
        precedes("maxclients"@, "maxmemory"@),
        precedes("maxmemory"@, "maxmemory-policy"@),
        precedes("maxmemory-policy"@, "maxmemory-samples"@),
        precedes("maxmemory-samples"@, "proto-max-bulk-len"@),
        precedes("proto-max-bulk-len"@, "save"@),
        precedes("save"@, "tcp-keepalive"@),
        precedes("tcp-keepalive"@, "timeout"@),
{
    reveal_strlit("appendonly");
    reveal_strlit("databases");
    reveal_strlit("maxclients");
    reveal_strlit("maxmemory");
    reveal_strlit("maxmemory-policy");
    reveal_strlit("maxmemory-samples");
    reveal_strlit("proto-max-bulk-len");
    reveal_strlit("save");
    reveal_strlit("tcp-keepalive");
    reveal_strlit("timeout");
    lemma_parts("appendonly"@, "databases"@, 0);
    lemma_parts("databases"@, "maxclients"@, 0);
    lemma_parts("maxclients"@, "maxmemory"@, 3);
    lemma_parts("maxmemory"@, "maxmemory-policy"@, 9);
    lemma_parts("maxmemory-policy"@, "maxmemory-samples"@, 10);
    lemma_parts("maxmemory-samples"@, "proto-max-bulk-len"@, 0);
    lemma_parts("proto-max-bulk-len"@, "save"@, 0);
    lemma_parts("save"@, "tcp-keepalive"@, 0);
    lemma_parts("tcp-keepalive"@, "timeout"@, 1);
}

proof fn lemma_parts(a: Seq<char>, b: Seq<char>, p: int)
    requires
        0 <= p <= a.len(),
        p < b.len(),
        forall|i: int| 0 <= i < p ==> #[trigger] a[i] == b[i],
        p < a.len() ==> a[p] < b[p],
    ensures
        precedes(a, b),
{
    assert(a.take(p) =~= b.take(p));
    assert(parts_at(a, b, p));
}

/// The keys of a table are in alphabetical order and hold no capital letter.
proof fn lemma_table_keys(rows: Seq<ConfigRow>)
    requires
        same_schema(rows, default_rows()),
    ensures
        sorted(rows),
        forall|i: int| 0 <= i < rows.len() ==> text::is_small((#[trigger] rows[i]).key),
{
    let table = default_rows();
    lemma_keys_are_small();
    lemma_keys_step_up();
    assert(table.len() == 10);
    assert forall|k: int| 0 <= k < table.len() - 1 implies #[trigger] steps_up(table, k) by {
        assert(k == 0 || k == 1 || k == 2 || k == 3 || k == 4 || k == 5 || k == 6 || k == 7 || k
            == 8);
    }
    assert forall|i: int, j: int| 0 <= i < j < rows.len() implies precedes(
        (#[trigger] rows[i]).key,
        (#[trigger] rows[j]).key,
    ) by {
        lemma_chain(table, i, j);
    }
    assert forall|i: int| 0 <= i < rows.len() implies text::is_small((#[trigger] rows[i]).key) by {
        assert(i == 0 || i == 1 || i == 2 || i == 3 || i == 4 || i == 5 || i == 6 || i == 7 || i
            == 8 || i == 9);
    }
}

/// The default values are in canonical form.
proof fn lemma_default_table()
    ensures
        is_table(default_rows()),
{
    lemma_numerals();
    assert(text::dec_int_chars(16i64 as int) == "16"@);
    assert(text::dec_int_chars(10000i64 as int) == "10000"@);
    assert(text::dec_int_chars(5i64 as int) == "5"@);
    assert(text::dec_int_chars(300i64 as int) == "300"@);
    assert(text::dec_int_chars(0i64 as int) == "0"@);
    assert(text::dec_chars(0u64 as nat) == "0"@);
    assert(text::dec_chars(536870912u64 as nat) == "536870912"@);
    assert(MAXMEMORY_POLICIES@[0]@ == "noeviction"@);
}

proof fn lemma_numerals()
    ensures
        text::dec_chars(0) == "0"@,
        text::dec_chars(5) == "5"@,
        text::dec_chars(16) == "16"@,
        text::dec_chars(300) == "300"@,
        text::dec_chars(10000) == "10000"@,
        text::dec_chars(536870912) == "536870912"@,
{
    reveal_strlit("0");
    reveal_strlit("5");
    reveal_strlit("16");
    reveal_strlit("300");
    reveal_strlit("10000");
    reveal_strlit("536870912");
    reveal_with_fuel(text::dec_chars, 10);
    assert(text::dec_chars(0) =~= "0"@);
    assert(text::dec_chars(5) =~= "5"@);
    assert(text::dec_chars(16) =~= "16"@);
    assert(text::dec_chars(300) =~= "300"@);
    assert(text::dec_chars(10000) =~= "10000"@);
    assert(text::dec_chars(536870912) =~= "536870912"@);
}

/// The words a toggle or a policy stores hold no capital letter.
proof fn lemma_words_are_small()
    ensures
        text::is_small("no"@),
        text::is_small("yes"@),
        forall|s: Seq<char>| is_policy(s) ==> text::is_small(s),
{
    reveal_strlit("no");
    reveal_strlit("yes");
    reveal_strlit("noeviction");
    reveal_strlit("allkeys-lru");
    reveal_strlit("volatile-lru");
    reveal_strlit("allkeys-random");
    reveal_strlit("volatile-random");
    reveal_strlit("volatile-ttl");
    reveal_strlit("allkeys-lfu");
    reveal_strlit("volatile-lfu");
    assert forall|s: Seq<char>| is_policy(s) implies text::is_small(s) by {
        let i = choose|i: int| 0 <= i < 8 && #[trigger] MAXMEMORY_POLICIES@[i]@ == s;
        assert(i == 0 || i == 1 || i == 2 || i == 3 || i == 4 || i == 5 || i == 6 || i == 7);
    }
}

/// A byte count in plain digits denotes itself.
proof fn lemma_plain_memory(value: Seq<char>, low: Seq<char>, n: u64)
    requires
        value == text::dec_chars(n as nat),
        low == text::lowercase(value),
        vstd::utf8::is_ascii_chars(value) ==> text::utf8(low) == text::lower_all(text::utf8(value)),
    ensures
        memory_of(value) == Some(n),
{
    text::lemma_dec_chars_small(n as nat);
    text::lemma_small_is_lowercase(value, low);
    text::lemma_dec_chars_utf8(n as nat);
    text::lemma_dec_value(n as nat);
    let s = text::dec(n as nat);
    assert(text::is_digit(s[0]));
    assert(text::is_digit(s[s.len() - 1]));
    lemma_other_end(s, seq![107u8, 98u8]);
    lemma_other_end(s, seq![109u8, 98u8]);
    lemma_other_end(s, seq![103u8, 98u8]);
    lemma_other_end(s, seq![107u8]);
    lemma_other_end(s, seq![109u8]);
    lemma_other_end(s, seq![103u8]);
    lemma_other_end(s, seq![98u8]);
}

proof fn lemma_other_end(s: Seq<u8>, tail: Seq<u8>)
    requires
        s.len() > 0,
        tail.len() > 0,
        s.last() != tail.last(),
    ensures
        !text::has_suffix(s, tail),
{
    if text::has_suffix(s, tail) {
        assert(s.skip(s.len() - tail.len()).last() == s.last());
    }
}

/// An integer in plain form denotes itself.
proof fn lemma_plain_int(n: i64)
    ensures
        text::as_i64(text::signed_number(text::utf8(text::dec_int_chars(n as int)))) == Some(n),
{
    let m = (if n < 0 {
        -n
    } else {
        n as int
    }) as nat;
    text::lemma_dec_chars_utf8(m);
    text::lemma_dec_value(m);
    assert(text::is_digit(text::dec(m)[0]));
    if n < 0 {
        text::lemma_dec_chars_ascii(m);
        vstd::utf8::is_ascii_chars_encode_utf8(text::dec_chars(m));
        vstd::utf8::is_ascii_chars_encode_utf8(text::dec_int_chars(n as int));
        let s = text::utf8(text::dec_int_chars(n as int));
        assert(s =~= text::dec_int(n as int));
        assert(s.skip(1) =~= text::dec(m));
    }
}

/// A pair that writes a key's own value back finds its row, and the value
/// reads as it stands.
proof fn lemma_own_key(rows: Seq<ConfigRow>, key: Seq<u8>, value: Seq<u8>, name: Seq<char>)
    requires
        is_table(rows),
        writes_back(rows, key, value),
        name == text::lowercase(text::lossy(key)),
        vstd::utf8::valid_utf8(key) ==> text::lossy(key) == vstd::utf8::decode_utf8(key),
        vstd::utf8::is_ascii_chars(text::lossy(key)) ==> text::utf8(name) == text::lower_all(
            text::utf8(text::lossy(key)),
        ),
    ensures
        find_row(rows, name, 0) matches Some(i) && rows[i].class != ReloadClass::BootOnly
            && value == text::utf8(rows[i].value) && canonical(rows[i].kind, rows[i].value),
{
    let i = choose|i: int|
        0 <= i < rows.len() && (#[trigger] rows[i]).class != ReloadClass::BootOnly && key
            == text::utf8(rows[i].key) && value == text::utf8(rows[i].value);
    vstd::utf8::encode_utf8_valid_utf8(rows[i].key);
    vstd::utf8::encode_utf8_decode_utf8(rows[i].key);
    lemma_table_keys(rows);
    text::lemma_small_is_lowercase(rows[i].key, name);
    lemma_find_sorted(rows, i, 0);
}

proof fn lemma_scaled(n: nat, unit: Seq<u8>, mult: nat)
    ensures
        (text::dec(n) + unit).take((text::dec(n) + unit).len() - unit.len()) == text::dec(n),
        n <= u64::MAX && n * mult <= u64::MAX ==> scaled(text::dec(n), mult) == Some(
            (n * mult) as u64,
        ),
        n <= u64::MAX && n * mult > u64::MAX ==> scaled(text::dec(n), mult) is None,
{
    text::law_decimal_round_trip(n);
    assert((text::dec(n) + unit).take((text::dec(n) + unit).len() - unit.len()) =~= text::dec(n));
}

/// The memory units: a plain number and one in `b` are bytes; `k`, `m` and `g`
/// are powers of a thousand; `kb`, `mb` and `gb` are powers of 1024. An amount
/// past 64 bits is refused.
pub proof fn law_memory_units(n: u64)
    ensures
        memory_number(text::dec(n as nat)) == Some(n),
        memory_number(text::dec(n as nat) + seq![98u8]) == Some(n),
        n * 1_000 <= u64::MAX ==> memory_number(text::dec(n as nat) + seq![107u8]) == Some(
            (n * 1_000) as u64,
        ),
        n * 1_000_000 <= u64::MAX ==> memory_number(text::dec(n as nat) + seq![109u8]) == Some(
            (n * 1_000_000) as u64,
        ),
        n * 1_000_000_000 <= u64::MAX ==> memory_number(text::dec(n as nat) + seq![103u8])
            == Some((n * 1_000_000_000) as u64),
        n * 1_024 <= u64::MAX ==> memory_number(text::dec(n as nat) + seq![107u8, 98u8]) == Some(
            (n * 1_024) as u64,
        ),
        n * 1_048_576 <= u64::MAX ==> memory_number(text::dec(n as nat) + seq![109u8, 98u8])
            == Some((n * 1_048_576) as u64),
        n * 1_073_741_824 <= u64::MAX ==> memory_number(text::dec(n as nat) + seq![103u8, 98u8])
            == Some((n * 1_073_741_824) as u64),
        n * 1_024 > u64::MAX ==> memory_number(text::dec(n as nat) + seq![107u8, 98u8]) is None,
        n * 1_073_741_824 > u64::MAX ==> memory_number(
            text::dec(n as nat) + seq![103u8, 98u8],
        ) is None,
{
    let s = text::dec(n as nat);
    text::lemma_dec_value(n as nat);
    assert(text::is_digit(s[s.len() - 1]));
    lemma_unit_ends(s, seq![107u8]);
    lemma_unit_ends(s, seq![109u8]);
    lemma_unit_ends(s, seq![103u8]);
    lemma_unit_ends(s, seq![98u8]);
    lemma_unit_ends(s, Seq::empty());
    lemma_two_byte_unit_ends(s, 107);
    lemma_two_byte_unit_ends(s, 109);
    lemma_two_byte_unit_ends(s, 103);
    assert(s + Seq::<u8>::empty() =~= s);
    lemma_scaled(n as nat, Seq::empty(), 1);
    lemma_scaled(n as nat, seq![98u8], 1);
    lemma_scaled(n as nat, seq![107u8], 1_000);
    lemma_scaled(n as nat, seq![109u8], 1_000_000);
    lemma_scaled(n as nat, seq![103u8], 1_000_000_000);
    lemma_scaled(n as nat, seq![107u8, 98u8], 1_024);
    lemma_scaled(n as nat, seq![109u8, 98u8], 1_048_576);
    lemma_scaled(n as nat, seq![103u8, 98u8], 1_073_741_824);
}

proof fn lemma_unit_ends(s: Seq<u8>, unit: Seq<u8>)
    requires
        s.len() > 0,
        text::is_digit(s.last()),
        unit.len() <= 1,
    ensures
        forall|tail: Seq<u8>|
            #![trigger text::has_suffix(s + unit, tail)]
            tail.len() == 1 ==> (text::has_suffix(s + unit, tail) <==> (s + unit).last()
                == tail[0]),
        forall|tail: Seq<u8>|
            #![trigger text::has_suffix(s + unit, tail)]
            tail.len() == 2 && !text::is_digit(tail[0]) && tail[1] == 98 ==> !text::has_suffix(
                s + unit,
                tail,
            ),
{
    let w = s + unit;
    assert forall|tail: Seq<u8>|
        #![trigger text::has_suffix(s + unit, tail)]
        tail.len() == 1 implies (text::has_suffix(s + unit, tail) <==> (s + unit).last()
        == tail[0]) by {
        assert(w.skip(w.len() - 1)[0] == w.last());
        if w.last() == tail[0] {
            assert(w.skip(w.len() - 1) =~= tail);
        }
    }
    assert forall|tail: Seq<u8>|
        #![trigger text::has_suffix(s + unit, tail)]
        tail.len() == 2 && !text::is_digit(tail[0]) && tail[1] == 98 implies !text::has_suffix(
        s + unit,
        tail,
    ) by {
        if text::has_suffix(w, tail) {
            let end = w.skip(w.len() - 2);
            assert(end[0] == tail[0]);
            assert(end[1] == tail[1]);
            assert(end[1] == w.last());
            if unit.len() == 1 {
                assert(w[w.len() - 2] == s.last());
            } else {
                assert(w =~= s);
            }
        }
    }
}

proof fn lemma_two_byte_unit_ends(s: Seq<u8>, c: u8)
    ensures
        forall|d: u8|
            text::has_suffix(s + seq![c, 98u8], #[trigger] seq![d, 98u8]) <==> d == c,
{
    let w = s + seq![c, 98u8];
    let end = w.skip(w.len() - 2);
    assert(end =~= seq![c, 98u8]);
    assert forall|d: u8| text::has_suffix(w, #[trigger] seq![d, 98u8]) <==> d == c by {
        let tail = seq![d, 98u8];
        assert(tail[0] == d);
        assert(end[0] == c);
    }
}

/// What is stored for a value means what the value meant: an amount and an
/// integer keep their number, a switch and a policy are the value in lower
/// case, and a free text is kept as it is. A switch is `yes` or `no`; whatever
/// cannot be read as its kind is refused.
pub proof fn law_stored_value_means_the_same(value: Seq<char>)
    ensures
        normalized(Kind::Str, value) == Some(value),
        normalized(Kind::Toggle, value) is Some <==> text::lowercase(value) == "yes"@
            || text::lowercase(value) == "no"@,
        normalized(Kind::Toggle, value) matches Some(v) ==> v == text::lowercase(value),
        normalized(Kind::Policy, value) matches Some(v) ==> v == text::lowercase(value),
        normalized(Kind::Int, value) matches Some(v) ==> text::signed_number(text::utf8(v))
            == text::signed_number(text::utf8(value)) && text::signed_number(
            text::utf8(value),
        ) is Some,
        normalized(Kind::Int, value) is None ==> text::as_i64(
            text::signed_number(text::utf8(value)),
        ) is None,
        normalized(Kind::Memory, value) matches Some(v) ==> memory_number(text::utf8(v))
            == memory_of(value) && memory_of(value) is Some,
        normalized(Kind::Memory, value) is None <==> memory_of(value) is None,
{
    if let Some(v) = normalized(Kind::Int, value) {
        let n = text::as_i64(text::signed_number(text::utf8(value)))->0;
        lemma_plain_int(n);
    }
    if let Some(v) = normalized(Kind::Memory, value) {
        let n = memory_of(value)->0;
        text::lemma_dec_chars_utf8(n as nat);
        law_memory_units(n);
    }
}

/// The eviction policies: the eight names, and none besides.
pub proof fn law_policies_are_the_eight(value: Seq<char>)
    ensures
        is_policy(value) <==> value == "noeviction"@ || value == "allkeys-lru"@ || value
            == "volatile-lru"@ || value == "allkeys-random"@ || value == "volatile-random"@ || value
            == "volatile-ttl"@ || value == "allkeys-lfu"@ || value == "volatile-lfu"@,
{
    assert(MAXMEMORY_POLICIES@[0]@ == "noeviction"@);
    assert(MAXMEMORY_POLICIES@[1]@ == "allkeys-lru"@);
    assert(MAXMEMORY_POLICIES@[2]@ == "volatile-lru"@);
    assert(MAXMEMORY_POLICIES@[3]@ == "allkeys-random"@);
    assert(MAXMEMORY_POLICIES@[4]@ == "volatile-random"@);
    assert(MAXMEMORY_POLICIES@[5]@ == "volatile-ttl"@);
    assert(MAXMEMORY_POLICIES@[6]@ == "allkeys-lfu"@);
    assert(MAXMEMORY_POLICIES@[7]@ == "volatile-lfu"@);
}

/// A key is found where it stands: the first row of that key, and none only
/// where no row has it.
pub proof fn law_key_is_found(rows: Seq<ConfigRow>, key: Seq<char>)
    ensures
        find_row(rows, key, 0) matches Some(i) ==> 0 <= i < rows.len() && rows[i].key == key,
        find_row(rows, key, 0) is None ==> (forall|i: int|
            0 <= i < rows.len() ==> (#[trigger] rows[i]).key != key),
{
    lemma_find_row(rows, key, 0);
    lemma_no_row(rows, key, 0);
}

proof fn lemma_no_row(rows: Seq<ConfigRow>, key: Seq<char>, from: int)
    requires
        0 <= from,
    ensures
        find_row(rows, key, from) is None ==> (forall|i: int|
            from <= i < rows.len() ==> (#[trigger] rows[i]).key != key),
    decreases rows.len() - from,
{
    if from < rows.len() && rows[from].key != key {
        lemma_no_row(rows, key, from + 1);
    }
}

/// What a SET is answered: an unknown key is refused by its name, a boot-only
/// row is immutable, a value that its kind cannot read is invalid, and what is
/// stored reports the class of its row. A refused SET changes nothing, and a
/// boot-only row never changes.
pub proof fn law_set_is_answered_by_its_row(
    rows: Seq<ConfigRow>,
    key: Seq<u8>,
    value: Seq<u8>,
    i: int,
)
    requires
        0 <= i < rows.len(),
    ensures
        ({
            let name = text::lowercase(text::lossy(key));
            let shown = text::lossy(value);
            let o = set_outcome(rows, key, value);
            &&& find_row(rows, name, 0) is None <==> o == SetOutcome::Unknown(name)
            &&& find_row(rows, name, 0) == Some(i) && rows[i].class == ReloadClass::BootOnly ==> o
                == SetOutcome::Immutable(name)
            &&& find_row(rows, name, 0) == Some(i) && rows[i].class != ReloadClass::BootOnly
                && normalized(rows[i].kind, shown) is None ==> o == SetOutcome::Invalid(name, shown)
            &&& find_row(rows, name, 0) == Some(i) && rows[i].class != ReloadClass::BootOnly
                && normalized(rows[i].kind, shown) is Some ==> (o matches SetOutcome::Stored(
                next,
                class,
            ) && class == rows[i].class && next.len() == rows.len() && Some(next[i].value)
                == normalized(rows[i].kind, shown))
            &&& o !is Stored ==> rows_after(rows, o) == rows
            &&& rows[i].class == ReloadClass::BootOnly ==> rows_after(rows, o)[i] == rows[i]
            &&& rows_after(rows, o)[i] != rows[i] ==> rows[i].key == name
        }),
{
    let name = text::lowercase(text::lossy(key));
    lemma_find_row(rows, name, 0);
}

/// A key that stands in a GET, in any case, is shown; one that no pattern
/// stands for is not. Here for patterns without special bytes.
pub proof fn law_get_finds_plain_keys(patterns: Seq<&[u8]>, key: Seq<char>)
    requires
        forall|k: int| 0 <= k < patterns.len() ==> glob::is_plain((#[trigger] patterns[k])@),
    ensures
        any_pattern(patterns, key) <==> exists|k: int|
            0 <= k < patterns.len() && text::is_word((#[trigger] patterns[k])@, key),
{
    let s = text::utf8(key);
    assert forall|k: int| 0 <= k < patterns.len() implies glob::glob_matches(
        (#[trigger] patterns[k])@,
        s,
        true,
    ) == text::is_word(patterns[k]@, key) by {
        let p = patterns[k]@;
        glob::law_plain_pattern_is_equality(p, s, true);
        text::law_words_ignore_case(p, key);
        if glob::glob_matches(p, s, true) {
            assert forall|i: int| 0 <= i < p.len() implies {
                let a = #[trigger] p[i];
                let t = s[i];
                a == t || (65 <= a <= 90 && t == a + 32) || (65 <= t <= 90 && a == t + 32)
            } by {
                assert(glob::byte_matches(p[i], s[i], true));
            }
        }
    }
}

/// The settings a server starts with: which there are, when each can change,
/// and what it is until then.
pub proof fn law_settings_at_the_start()
    ensures
        default_rows().len() == 10,
        starts(0, "appendonly"@, ReloadClass::BootOnly, Kind::Toggle, "no"@),
        starts(1, "databases"@, ReloadClass::BootOnly, Kind::Int, "16"@),
        starts(2, "maxclients"@, ReloadClass::BootOnly, Kind::Int, "10000"@),
        starts(3, "maxmemory"@, ReloadClass::HotPerCell, Kind::Memory, "0"@),
        starts(4, "maxmemory-policy"@, ReloadClass::HotPerCell, Kind::Policy, "noeviction"@),
        starts(5, "maxmemory-samples"@, ReloadClass::HotPerCell, Kind::Int, "5"@),
        starts(6, "proto-max-bulk-len"@, ReloadClass::Hot, Kind::Memory, "536870912"@),
        starts(7, "save"@, ReloadClass::Hot, Kind::Str, "3600 1 300 100 60 10000"@),
        starts(8, "tcp-keepalive"@, ReloadClass::Hot, Kind::Int, "300"@),
        starts(9, "timeout"@, ReloadClass::Hot, Kind::Int, "0"@),
{
}

/// Whether the table starts with this row at this place.
pub open spec fn starts(
    i: int,
    key: Seq<char>,
    class: ReloadClass,
    kind: Kind,
    value: Seq<char>,
) -> bool {
    let row = default_rows()[i];
    row.key == key && row.class == class && row.kind == kind && row.value == value
}

/// A SET reports what came of it: the class of what was stored, or the reason
/// it was refused, with the key and the value it was about.
pub proof fn law_set_reports_its_outcome(
    r: Result<ReloadClass, ConfigSetError>,
    rows: Seq<ConfigRow>,
    key: Seq<char>,
    value: Seq<char>,
    class: ReloadClass,
)
    ensures
        reports(r, SetOutcome::Stored(rows, class)) <==> r == Ok::<ReloadClass, ConfigSetError>(
            class,
        ),
        reports(r, SetOutcome::Unknown(key)) ==> (r matches Err(ConfigSetError::Unknown(s)) && s@
            == key),
        reports(r, SetOutcome::Immutable(key)) ==> (r matches Err(ConfigSetError::Immutable(s))
            && s@ == key),
        reports(r, SetOutcome::Invalid(key, value)) ==> (r matches Err(
            ConfigSetError::Invalid { key: k, value: v },
        ) && k@ == key && v@ == value),
{
}

} // verus!
