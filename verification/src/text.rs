//! Byte-text building blocks: decimal and hexadecimal rendering, integer
//! parsing, ASCII case folding, and the few string conversions of the standard
//! library that the command surface relies on.

use vstd::prelude::*;
use vstd::string::*;
use vstd::utf8::*;

verus! {

broadcast use vstd::utf8::group_utf8_lib;

/// The bytes of a string.
pub open spec fn utf8(s: Seq<char>) -> Seq<u8> {
    encode_utf8(s)
}

/// The ASCII digit of `d`.
pub open spec fn digit(d: nat) -> u8 {
    (48 + d) as u8
}

/// `n` in decimal, without leading zeros.
pub open spec fn dec(n: nat) -> Seq<u8>
    decreases n,
{
    if n < 10 {
        seq![digit(n)]
    } else {
        dec(n / 10).push(digit(n % 10))
    }
}

/// `n` in decimal, with a minus sign below zero.
pub open spec fn dec_int(n: int) -> Seq<u8> {
    if n < 0 {
        seq![45u8] + dec((-n) as nat)
    } else {
        dec(n as nat)
    }
}

/// Appends `more` to `out`.
pub fn push_bytes(out: &mut Vec<u8>, more: &[u8])
    ensures
        final(out)@ == old(out)@ + more@,
{
    let ghost before = out@;
    let mut i: usize = 0;
    while i < more.len()
        invariant
            i <= more.len(),
            out@ == before + more@.take(i as int),
        decreases more.len() - i,
    {
        out.push(more[i]);
        i += 1;
        proof {
            assert(more@.take(i as int) =~= more@.take(i - 1).push(more@[i - 1]));
        }
    }
    proof {
        assert(more@.take(i as int) =~= more@);
    }
}

/// Appends the bytes of `s` to `out`.
pub fn push_str(out: &mut Vec<u8>, s: &str)
    ensures
        final(out)@ == old(out)@ + utf8(s@),
{
    push_bytes(out, s.as_bytes());
}

/// The bytes of `s` as an owned vector.
pub fn bytes_of(s: &str) -> (r: Vec<u8>)
    ensures
        r@ == utf8(s@),
{
    let mut out: Vec<u8> = Vec::new();
    push_str(&mut out, s);
    out
}

/// An owned copy of a byte slice.
pub fn copy_bytes(s: &[u8]) -> (r: Vec<u8>)
    ensures
        r@ == s@,
{
    let mut out: Vec<u8> = Vec::new();
    push_bytes(&mut out, s);
    out
}

/// Appends `n` in decimal.
pub fn push_dec(out: &mut Vec<u8>, n: u64)
    ensures
        final(out)@ == old(out)@ + dec(n as nat),
    decreases n,
{
    if n >= 10 {
        push_dec(out, n / 10);
    }
    out.push(48 + (n % 10) as u8);
}

/// Appends `n` in decimal, signed.
pub fn push_dec_int(out: &mut Vec<u8>, n: i64)
    ensures
        final(out)@ == old(out)@ + dec_int(n as int),
{
    if n < 0 {
        out.push(45);
        push_dec(out, (-(n as i128)) as u64);
    } else {
        push_dec(out, n as u64);
    }
}

/// `n` in decimal.
pub fn dec_bytes(n: u128) -> (r: Vec<u8>)
    ensures
        r@ == dec(n as nat),
    decreases n,
{
    let mut out: Vec<u8> = if n >= 10 {
        dec_bytes(n / 10)
    } else {
        Vec::new()
    };
    out.push(48 + (n % 10) as u8);
    out
}

/// Whether `b` is an ASCII decimal digit.
pub open spec fn is_digit(b: u8) -> bool {
    48 <= b <= 57
}

/// Whether every byte of `s` is a decimal digit.
pub open spec fn all_digits(s: Seq<u8>) -> bool {
    forall|i: int| 0 <= i < s.len() ==> is_digit(#[trigger] s[i])
}

/// The number a run of digits denotes.
pub open spec fn dec_value(s: Seq<u8>) -> nat
    decreases s.len(),
{
    if s.len() == 0 {
        0
    } else {
        dec_value(s.drop_last()) * 10 + (s.last() - 48) as nat
    }
}

/// The number that a non-empty run of digits denotes, `None` for other text.
pub open spec fn digits_number(s: Seq<u8>) -> Option<nat> {
    if s.len() > 0 && all_digits(s) {
        Some(dec_value(s))
    } else {
        None
    }
}

/// Unsigned integer grammar: an optional `+`, then digits.
pub open spec fn unsigned_number(s: Seq<u8>) -> Option<nat> {
    if s.len() > 0 && s[0] == 43 {
        digits_number(s.skip(1))
    } else {
        digits_number(s)
    }
}

/// Signed integer grammar: an optional `+` or `-`, then digits.
pub open spec fn signed_number(s: Seq<u8>) -> Option<int> {
    if s.len() > 0 && s[0] == 45 {
        match digits_number(s.skip(1)) {
            Some(n) => Some(-(n as int)),
            None => None,
        }
    } else {
        match unsigned_number(s) {
            Some(n) => Some(n as int),
            None => None,
        }
    }
}

/// A number read as `u64`: `None` outside its range.
pub open spec fn as_u64(n: Option<nat>) -> Option<u64> {
    match n {
        Some(v) => if v <= u64::MAX {
            Some(v as u64)
        } else {
            None
        },
        None => None,
    }
}

/// A number read as `i64`: `None` outside its range.
pub open spec fn as_i64(n: Option<int>) -> Option<i64> {
    match n {
        Some(v) => if i64::MIN <= v <= i64::MAX {
            Some(v as i64)
        } else {
            None
        },
        None => None,
    }
}

proof fn lemma_dec_value_grows(s: Seq<u8>, k: int)
    requires
        0 <= k <= s.len(),
        all_digits(s),
    ensures
        dec_value(s.take(k)) <= dec_value(s),
    decreases s.len() - k,
{
    if k < s.len() {
        lemma_dec_value_grows(s, k + 1);
        assert(s.take(k + 1).drop_last() =~= s.take(k));
        assert(is_digit(s[k]));
    } else {
        assert(s.take(k) =~= s);
    }
}

/// The decimal bytes of a number are digits that denote it.
pub proof fn lemma_dec_value(n: nat)
    ensures
        digits_number(dec(n)) == Some(n),
        dec(n).len() > 0,
        all_digits(dec(n)),
    decreases n,
{
    if n >= 10 {
        lemma_dec_value(n / 10);
        assert(dec(n).drop_last() =~= dec(n / 10));
    } else {
        assert(dec(n).drop_last() =~= Seq::empty());
        reveal_with_fuel(dec_value, 2);
    }
}

/// Reads a run of digits starting at `from`.
fn parse_digits(s: &[u8], from: usize) -> (r: Option<u64>)
    requires
        from <= s.len(),
    ensures
        r == as_u64(digits_number(s@.skip(from as int))),
{
    let ghost tail = s@.skip(from as int);
    if from == s.len() {
        return None;
    }
    let mut value: u64 = 0;
    let mut i: usize = from;
    while i < s.len()
        invariant
            from < s.len(),
            from <= i <= s.len(),
            tail == s@.skip(from as int),
            forall|k: int| 0 <= k < i - from ==> is_digit(#[trigger] tail[k]),
            value == dec_value(tail.take(i - from)),
        decreases s.len() - i,
    {
        let b: u8 = s[i];
        proof {
            assert(tail[i - from] == b);
        }
        if b < 48 || b > 57 {
            return None;
        }
        proof {
            assert(tail.take(i + 1 - from).drop_last() =~= tail.take(i - from));
            if all_digits(tail) {
                lemma_dec_value_grows(tail, i + 1 - from);
            }
        }
        let d: u64 = (b - 48) as u64;
        if value > (u64::MAX - d) / 10 {
            return None;
        }
        value = value * 10 + d;
        i += 1;
    }
    proof {
        assert(tail.take(i - from) =~= tail);
    }
    Some(value)
}

/// Reads an unsigned 64-bit integer.
pub fn parse_u64(s: &[u8]) -> (r: Option<u64>)
    ensures
        r == as_u64(unsigned_number(s@)),
{
    if s.len() > 0 && s[0] == 43 {
        parse_digits(s, 1)
    } else {
        proof {
            assert(s@.skip(0) =~= s@);
        }
        parse_digits(s, 0)
    }
}

/// Reads a signed 64-bit integer.
pub fn parse_i64(s: &[u8]) -> (r: Option<i64>)
    ensures
        r == as_i64(signed_number(s@)),
{
    if s.len() > 0 && s[0] == 45 {
        match parse_digits(s, 1) {
            Some(n) => if n <= 9223372036854775808 {
                Some((-(n as i128)) as i64)
            } else {
                None
            },
            None => None,
        }
    } else {
        match parse_u64(s) {
            Some(n) => if n <= 9223372036854775807 {
                Some(n as i64)
            } else {
                None
            },
            None => None,
        }
    }
}

/// ASCII lowercase of one byte.
pub open spec fn lower(b: u8) -> u8 {
    if 65 <= b <= 90 {
        (b + 32) as u8
    } else {
        b
    }
}

/// ASCII lowercase of a byte string.
pub open spec fn lower_all(s: Seq<u8>) -> Seq<u8> {
    s.map_values(|b: u8| lower(b))
}

/// ASCII lowercase of one byte.
pub fn lower_byte(b: u8) -> (r: u8)
    ensures
        r == lower(b),
{
    if 65 <= b && b <= 90 {
        b + 32
    } else {
        b
    }
}

/// The ASCII lowercase of a byte string.
pub fn lowered(s: &[u8]) -> (r: Vec<u8>)
    ensures
        r@ == lower_all(s@),
{
    let mut out: Vec<u8> = Vec::new();
    let mut i: usize = 0;
    while i < s.len()
        invariant
            i <= s@.len(),
            out@ == lower_all(s@.take(i as int)),
        decreases s.len() - i,
    {
        out.push(lower_byte(s[i]));
        i += 1;
        proof {
            assert(out@ =~= lower_all(s@.take(i as int)));
        }
    }
    proof {
        assert(s@.take(i as int) =~= s@);
    }
    out
}

/// Whether two byte strings agree up to ASCII case.
pub fn same_nocase(a: &[u8], b: &[u8]) -> (r: bool)
    ensures
        r == (lower_all(a@) == lower_all(b@)),
{
    if a.len() != b.len() {
        proof {
            assert(lower_all(a@).len() == a@.len());
            assert(lower_all(b@).len() == b@.len());
        }
        return false;
    }
    let mut i: usize = 0;
    while i < a.len()
        invariant
            a.len() == b.len(),
            i <= a.len(),
            forall|k: int| 0 <= k < i ==> lower(#[trigger] a@[k]) == lower(b@[k]),
        decreases a.len() - i,
    {
        if lower_byte(a[i]) != lower_byte(b[i]) {
            proof {
                assert(lower_all(a@)[i as int] != lower_all(b@)[i as int]);
            }
            return false;
        }
        i += 1;
    }
    proof {
        assert(lower_all(a@) =~= lower_all(b@));
    }
    true
}

/// Whether the argument `arg` is the keyword `token`, in any ASCII case.
pub open spec fn is_word(arg: Seq<u8>, token: Seq<char>) -> bool {
    lower_all(arg) == lower_all(utf8(token))
}

/// Whether the argument `arg` is the keyword `token`, in any ASCII case.
pub fn word(arg: &[u8], token: &str) -> (r: bool)
    ensures
        r == is_word(arg@, token@),
{
    same_nocase(arg, token.as_bytes())
}

/// Whether two byte strings are equal.
pub fn same_bytes(a: &[u8], b: &[u8]) -> (r: bool)
    ensures
        r == (a@ == b@),
{
    if a.len() != b.len() {
        return false;
    }
    let mut i: usize = 0;
    while i < a.len()
        invariant
            a.len() == b.len(),
            i <= a.len(),
            a@.take(i as int) == b@.take(i as int),
        decreases a.len() - i,
    {
        if a[i] != b[i] {
            return false;
        }
        i += 1;
        proof {
            assert(a@.take(i as int) =~= a@.take(i - 1).push(a@[i - 1]));
            assert(b@.take(i as int) =~= b@.take(i - 1).push(b@[i - 1]));
        }
    }
    proof {
        assert(a@.take(i as int) =~= a@);
        assert(b@.take(i as int) =~= b@);
    }
    true
}

/// Whether two strings are equal.
pub fn same_str(a: &str, b: &str) -> (r: bool)
    ensures
        r == (a@ == b@),
{
    let r = same_bytes(a.as_bytes(), b.as_bytes());
    proof {
        if r {
            encode_utf8_decode_utf8(a@);
            encode_utf8_decode_utf8(b@);
        }
    }
    r
}

/// Whether `s` ends with `tail`.
pub open spec fn has_suffix(s: Seq<u8>, tail: Seq<u8>) -> bool {
    tail.len() <= s.len() && s.skip(s.len() - tail.len()) == tail
}

/// Whether `s` ends with `tail`.
pub fn ends_with(s: &[u8], tail: &[u8]) -> (r: bool)
    ensures
        r == has_suffix(s@, tail@),
{
    if tail.len() > s.len() {
        return false;
    }
    let at: usize = s.len() - tail.len();
    let mut i: usize = 0;
    while i < tail.len()
        invariant
            at + tail.len() == s.len(),
            i <= tail.len(),
            forall|k: int| 0 <= k < i ==> s@[at + k] == #[trigger] tail@[k],
        decreases tail.len() - i,
    {
        if s[at + i] != tail[i] {
            proof {
                assert(s@.skip(at as int)[i as int] != tail@[i as int]);
            }
            return false;
        }
        i += 1;
    }
    proof {
        assert(s@.skip(at as int) =~= tail@);
    }
    true
}

/// What `String::from_utf8_lossy` makes of a byte string.
pub uninterp spec fn lossy(bytes: Seq<u8>) -> Seq<char>;

/// What `str::to_lowercase` makes of a string.
pub uninterp spec fn lowercase(s: Seq<char>) -> Seq<char>;

/// Wraps `String::from_utf8_lossy`. Claimed: the result depends on the bytes
/// alone, and valid UTF-8 comes back as the characters it encodes. Which
/// replacement characters stand for an invalid sequence is left to the name.
#[verifier::external_body]
pub(crate) fn lossy_string(bytes: &[u8]) -> (r: String)
    ensures
        r@ == lossy(bytes@),
        valid_utf8(bytes@) ==> r@ == decode_utf8(bytes@),
{
    String::from_utf8_lossy(bytes).into_owned()
}

/// Wraps `str::to_lowercase`. Claimed: the result depends on the string alone,
/// and an ASCII string has each of its characters lowercased.
#[verifier::external_body]
pub(crate) fn lowercase_string(s: &str) -> (r: String)
    ensures
        r@ == lowercase(s@),
        is_ascii_chars(s@) ==> utf8(r@) == lower_all(utf8(s@)),
{
    s.to_lowercase()
}

/// ASCII characters, none of them a capital letter.
pub open spec fn is_small(s: Seq<char>) -> bool {
    is_ascii_chars(s) && forall|i: int| 0 <= i < s.len() ==> !('A' <= #[trigger] s[i] <= 'Z')
}

/// Text without capital letters is its own lowercase.
pub proof fn lemma_small_is_lowercase(s: Seq<char>, low: Seq<char>)
    requires
        is_small(s),
        utf8(low) == lower_all(utf8(s)),
    ensures
        low == s,
{
    is_ascii_chars_encode_utf8(s);
    assert(lower_all(utf8(s)) =~= utf8(s));
    encode_utf8_decode_utf8(s);
    encode_utf8_decode_utf8(low);
}

/// Wraps `core::str::from_utf8`. Claimed: the string whose bytes were given,
/// exactly when they are valid UTF-8.
#[verifier::external_body]
pub(crate) fn utf8_str(bytes: &[u8]) -> (r: Option<&str>)
    ensures
        r is Some <==> valid_utf8(bytes@),
        r matches Some(s) ==> utf8(s@) == bytes@,
{
    core::str::from_utf8(bytes).ok()
}

/// The string some bytes encode, where they encode one.
pub open spec fn decoded(bytes: Seq<u8>) -> Option<Seq<char>> {
    if valid_utf8(bytes) {
        Some(decode_utf8(bytes))
    } else {
        None
    }
}

/// The string some bytes encode, where they encode one.
pub fn as_text(bytes: &[u8]) -> (r: Option<&str>)
    ensures
        match r {
            Some(s) => decoded(bytes@) == Some(s@) && utf8(s@) == bytes@,
            None => decoded(bytes@) is None,
        },
{
    match utf8_str(bytes) {
        Some(s) => {
            proof {
                encode_utf8_decode_utf8(s@);
            }
            Some(s)
        },
        None => None,
    }
}

/// `n` in decimal, as characters.
pub open spec fn dec_chars(n: nat) -> Seq<char>
    decreases n,
{
    if n < 10 {
        seq![digit(n) as char]
    } else {
        dec_chars(n / 10).push(digit(n % 10) as char)
    }
}

/// `n` in decimal with a minus sign below zero, as characters.
pub open spec fn dec_int_chars(n: int) -> Seq<char> {
    if n < 0 {
        seq!['-'] + dec_chars((-n) as nat)
    } else {
        dec_chars(n as nat)
    }
}

/// Decimal characters are ASCII.
pub proof fn lemma_dec_chars_ascii(n: nat)
    ensures
        is_ascii_chars(dec_chars(n)),
    decreases n,
{
    if n >= 10 {
        lemma_dec_chars_ascii(n / 10);
    }
}

/// Decimal characters hold no capital letter.
pub proof fn lemma_dec_chars_small(n: nat)
    ensures
        is_small(dec_chars(n)),
    decreases n,
{
    if n >= 10 {
        lemma_dec_chars_small(n / 10);
    }
}

/// The decimal characters of a number encode to its decimal bytes.
pub proof fn lemma_dec_chars_utf8(n: nat)
    ensures
        utf8(dec_chars(n)) == dec(n),
    decreases n,
{
    lemma_dec_chars_ascii(n);
    is_ascii_chars_encode_utf8(dec_chars(n));
    if n >= 10 {
        lemma_dec_chars_ascii(n / 10);
        lemma_dec_chars_utf8(n / 10);
        is_ascii_chars_encode_utf8(dec_chars(n / 10));
        assert(dec(n) =~= utf8(dec_chars(n)));
    } else {
        assert(dec(n) =~= utf8(dec_chars(n)));
    }
}

fn append_digit(s: &mut String, d: u64)
    requires
        d < 10,
    ensures
        final(s)@ == old(s)@.push(digit(d as nat) as char),
{
    let ghost before = s@;
    match d {
        0 => {
            proof {
                reveal_strlit("0");
            }
            s.append("0");
        },
        1 => {
            proof {
                reveal_strlit("1");
            }
            s.append("1");
        },
        2 => {
            proof {
                reveal_strlit("2");
            }
            s.append("2");
        },
        3 => {
            proof {
                reveal_strlit("3");
            }
            s.append("3");
        },
        4 => {
            proof {
                reveal_strlit("4");
            }
            s.append("4");
        },
        5 => {
            proof {
                reveal_strlit("5");
            }
            s.append("5");
        },
        6 => {
            proof {
                reveal_strlit("6");
            }
            s.append("6");
        },
        7 => {
            proof {
                reveal_strlit("7");
            }
            s.append("7");
        },
        8 => {
            proof {
                reveal_strlit("8");
            }
            s.append("8");
        },
        _ => {
            proof {
                reveal_strlit("9");
            }
            s.append("9");
        },
    }
    proof {
        assert(s@ =~= before.push(digit(d as nat) as char));
    }
}

/// Appends `n` in decimal to a string.
pub fn append_dec(s: &mut String, n: u64)
    ensures
        final(s)@ == old(s)@ + dec_chars(n as nat),
    decreases n,
{
    if n >= 10 {
        append_dec(s, n / 10);
    }
    append_digit(s, n % 10);
}

/// Appends `n` in decimal to a string, signed.
pub fn append_dec_int(s: &mut String, n: i64)
    ensures
        final(s)@ == old(s)@ + dec_int_chars(n as int),
{
    if n < 0 {
        proof {
            reveal_strlit("-");
        }
        s.append("-");
        append_dec(s, (-(n as i128)) as u64);
        proof {
            assert("-"@ =~= seq!['-']);
        }
    } else {
        append_dec(s, n as u64);
    }
}

/// `n` in decimal.
pub fn dec_string(n: u64) -> (r: String)
    ensures
        r@ == dec_chars(n as nat),
{
    let mut s = String::new();
    append_dec(&mut s, n);
    proof {
        assert(s@ =~= dec_chars(n as nat));
    }
    s
}

/// `n` in decimal, signed.
pub fn dec_int_string(n: i64) -> (r: String)
    ensures
        r@ == dec_int_chars(n as int),
{
    let mut s = String::new();
    append_dec_int(&mut s, n);
    proof {
        assert(s@ =~= dec_int_chars(n as int));
    }
    s
}

/// An owned copy.
pub fn owned(s: &str) -> (r: String)
    ensures
        r@ == s@,
{
    s.to_string()
}

/// The lower-case hexadecimal digit of `d`.
pub open spec fn hex_char(d: nat) -> char {
    if d < 10 {
        (('0' as nat) + d) as char
    } else {
        (('a' as nat) + (d - 10)) as char
    }
}

/// A 16-bit word as `0x` and four hexadecimal digits.
pub open spec fn hex_word(n: nat) -> Seq<char> {
    "0x"@ + seq![
        hex_char(n / 4096 % 16),
        hex_char(n / 256 % 16),
        hex_char(n / 16 % 16),
        hex_char(n % 16),
    ]
}

fn append_hex_digit(s: &mut String, d: u16)
    requires
        d < 16,
    ensures
        final(s)@ == old(s)@.push(hex_char(d as nat)),
{
    let token: &str = match d {
        0 => "0",
        1 => "1",
        2 => "2",
        3 => "3",
        4 => "4",
        5 => "5",
        6 => "6",
        7 => "7",
        8 => "8",
        9 => "9",
        10 => "a",
        11 => "b",
        12 => "c",
        13 => "d",
        14 => "e",
        _ => "f",
    };
    s.append(token);
    proof {
        reveal_strlit("0");
        reveal_strlit("1");
        reveal_strlit("2");
        reveal_strlit("3");
        reveal_strlit("4");
        reveal_strlit("5");
        reveal_strlit("6");
        reveal_strlit("7");
        reveal_strlit("8");
        reveal_strlit("9");
        reveal_strlit("a");
        reveal_strlit("b");
        reveal_strlit("c");
        reveal_strlit("d");
        reveal_strlit("e");
        reveal_strlit("f");
        assert(token@ =~= seq![hex_char(d as nat)]);
        assert(s@ =~= old(s)@.push(hex_char(d as nat)));
    }
}

/// Appends a 16-bit word in hexadecimal.
pub fn append_hex_word(s: &mut String, n: u16)
    ensures
        final(s)@ == old(s)@ + hex_word(n as nat),
{
    s.append("0x");
    append_hex_digit(s, n / 4096 % 16);
    append_hex_digit(s, n / 256 % 16);
    append_hex_digit(s, n / 16 % 16);
    append_hex_digit(s, n % 16);
    proof {
        assert(s@ =~= old(s)@ + hex_word(n as nat));
    }
}

/// The low `width` hexadecimal digits of `n`, zero padded.
pub open spec fn hex_chars(n: nat, width: nat) -> Seq<char>
    decreases width,
{
    if width == 0 {
        Seq::empty()
    } else {
        hex_chars(n / 16, (width - 1) as nat).push(hex_char(n % 16))
    }
}

/// Appends the low `width` hexadecimal digits of `n`.
pub fn append_hex(s: &mut String, n: u64, width: u32)
    ensures
        final(s)@ == old(s)@ + hex_chars(n as nat, width as nat),
    decreases width,
{
    if width > 0 {
        append_hex(s, n / 16, width - 1);
        append_hex_digit(s, (n % 16) as u16);
    }
    proof {
        assert(s@ =~= old(s)@ + hex_chars(n as nat, width as nat));
    }
}

/// The debug form of a string: quoted, with special characters escaped.
pub uninterp spec fn quoted(s: Seq<char>) -> Seq<char>;

/// Wraps `format!("{:?}")` on a string slice. Claimed: the result depends on the
/// string alone.
#[verifier::external_body]
pub(crate) fn quoted_string(s: &str) -> (r: String)
    ensures
        r@ == quoted(s@),
{
    format!("{:?}", s)
}

/// Decimal digits, most significant first, without leading zeros: ten times a
/// number and a digit is the number's digits and that digit.
pub proof fn law_decimal_is_positional(n: nat, d: nat)
    requires
        d < 10,
    ensures
        dec(d) == seq![(48 + d) as u8],
        n > 0 ==> dec(10 * n + d) == dec(n).push((48 + d) as u8),
        n > 0 ==> dec_chars(10 * n + d) == dec_chars(n).push((48 + d) as u8 as char),
        dec_chars(d) == seq![(48 + d) as u8 as char],
        n > 0 ==> dec_int(-(n as int)) == seq![45u8] + dec(n),
        dec_int(n as int) == dec(n),
        n > 0 ==> dec_int_chars(-(n as int)) == seq!['-'] + dec_chars(n),
        dec_int_chars(n as int) == dec_chars(n),
{
    assert((10 * n + d) / 10 == n);
    assert((10 * n + d) % 10 == d);
}

/// What is written in decimal reads back as the same number, with or without a
/// plus sign; a minus sign reads back negative.
pub proof fn law_decimal_round_trip(n: nat)
    ensures
        unsigned_number(dec(n)) == Some(n),
        unsigned_number(seq![43u8] + dec(n)) == Some(n),
        signed_number(dec(n)) == Some(n as int),
        signed_number(seq![45u8] + dec(n)) == Some(-(n as int)),
        utf8(dec_chars(n)) == dec(n),
{
    lemma_dec_value(n);
    lemma_dec_chars_utf8(n);
    assert(is_digit(dec(n)[0]));
    assert((seq![43u8] + dec(n)).skip(1) =~= dec(n));
    assert((seq![45u8] + dec(n)).skip(1) =~= dec(n));
}

/// Only digits are a number: a text with any other byte behind its sign, and a
/// sign alone, is none. A number's value is read digit by digit.
pub proof fn law_numbers_are_digits(s: Seq<u8>, b: u8)
    ensures
        digits_number(s) is Some <==> s.len() > 0 && (forall|i: int|
            0 <= i < s.len() ==> 48 <= #[trigger] s[i] <= 57),
        digits_number(Seq::empty()) is None,
        digits_number(s) is Some && 48 <= b <= 57 ==> digits_number(s.push(b)) == Some(
            (10 * digits_number(s)->0 + (b - 48)) as nat,
        ),
        48 <= b <= 57 ==> digits_number(seq![b]) == Some((b - 48) as nat),
{
    reveal_with_fuel(dec_value, 2);
    if digits_number(s) is Some {
        assert forall|i: int| 0 <= i < s.len() implies 48 <= #[trigger] s[i] <= 57 by {
            assert(is_digit(s[i]));
        }
    }
    if forall|i: int| 0 <= i < s.len() ==> 48 <= #[trigger] s[i] <= 57 {
        assert(all_digits(s));
    }
    if digits_number(s) is Some && 48 <= b <= 57 {
        assert(s.push(b).drop_last() =~= s);
        assert forall|i: int| 0 <= i < s.push(b).len() implies is_digit(#[trigger] s.push(b)[i]) by {
            if i < s.len() {
                assert(is_digit(s[i]));
            }
        }
        assert(all_digits(s.push(b)));
    }
    if 48 <= b <= 57 {
        assert(seq![b].drop_last() =~= Seq::<u8>::empty());
        assert(all_digits(seq![b]));
    }
}

/// A number is handed over exactly where the machine type holds it.
pub proof fn law_numbers_fit_their_type(n: nat, m: int)
    ensures
        as_u64(Some(n)) is Some <==> n <= 0xffff_ffff_ffff_ffff,
        as_u64(Some(n)) matches Some(v) ==> v == n,
        as_u64(None) is None,
        as_i64(Some(m)) is Some <==> -0x8000_0000_0000_0000 <= m <= 0x7fff_ffff_ffff_ffff,
        as_i64(Some(m)) matches Some(v) ==> v == m,
        as_i64(None) is None,
{
}

/// Lower case moves the capital letters down and nothing else, and keeps the
/// length; what is lower case stays.
pub proof fn law_lower_case_moves_capitals(s: Seq<u8>, i: int)
    requires
        0 <= i < s.len(),
    ensures
        lower_all(s).len() == s.len(),
        65 <= s[i] <= 90 ==> lower_all(s)[i] == s[i] + 32,
        !(65 <= s[i] <= 90) ==> lower_all(s)[i] == s[i],
        lower_all(lower_all(s)) == lower_all(s),
{
    assert(lower_all(lower_all(s)) =~= lower_all(s));
}

/// A word is the same word in any case: byte for byte, a letter or its other
/// case.
pub proof fn law_words_ignore_case(arg: Seq<u8>, token: Seq<char>)
    ensures
        is_word(arg, token) <==> arg.len() == utf8(token).len() && (forall|i: int|
            0 <= i < arg.len() ==> {
                let a = #[trigger] arg[i];
                let t = utf8(token)[i];
                a == t || (65 <= a <= 90 && t == a + 32) || (65 <= t <= 90 && a == t + 32)
            }),
        is_word(utf8(token), token),
        is_word(lower_all(utf8(token)), token),
{
    let t = utf8(token);
    if is_word(arg, token) {
        assert(lower_all(arg).len() == lower_all(t).len());
        assert forall|i: int| 0 <= i < arg.len() implies {
            let a = #[trigger] arg[i];
            a == t[i] || (65 <= a <= 90 && t[i] == a + 32) || (65 <= t[i] <= 90 && a == t[i] + 32)
        } by {
            assert(lower_all(arg)[i] == lower_all(t)[i]);
        }
    }
    if arg.len() == t.len() && (forall|i: int|
        0 <= i < arg.len() ==> {
            let a = #[trigger] arg[i];
            a == t[i] || (65 <= a <= 90 && t[i] == a + 32) || (65 <= t[i] <= 90 && a == t[i] + 32)
        }) {
        assert forall|i: int| 0 <= i < arg.len() implies #[trigger] lower_all(arg)[i] == lower_all(
            t,
        )[i] by {
            let a = arg[i];
        }
        assert(lower_all(arg) =~= lower_all(t));
    }
    assert(lower_all(lower_all(t)) =~= lower_all(t));
}

/// A text ends with a tail exactly when it is some head and that tail.
pub proof fn law_suffix_ends_the_text(head: Seq<u8>, tail: Seq<u8>, s: Seq<u8>)
    ensures
        has_suffix(head + tail, tail),
        has_suffix(s, tail) ==> s == s.take(s.len() - tail.len()) + tail,
{
    assert((head + tail).skip((head + tail).len() - tail.len()) =~= tail);
    if has_suffix(s, tail) {
        assert(s =~= s.take(s.len() - tail.len()) + tail);
    }
}

/// Bytes that are text decode to the text they encode, and no other bytes do.
pub proof fn law_text_round_trip(s: Seq<char>, bytes: Seq<u8>)
    ensures
        decoded(utf8(s)) == Some(s),
        decoded(bytes) matches Some(t) ==> utf8(t) == bytes,
{
}

/// Hexadecimal digits are `0` to `9` and `a` to `f`, most significant first.
pub proof fn law_hex_is_positional(n: nat, d: nat, width: nat)
    requires
        d < 16,
    ensures
        hex_chars(16 * n + d, width + 1) == hex_chars(n, width).push(hex_char(d)),
        hex_chars(n, 0) == Seq::<char>::empty(),
        d < 10 ==> hex_char(d) as nat == 48 + d,
        d >= 10 ==> hex_char(d) as nat == 87 + d,
        n < 0x1_0000 ==> hex_word(n) == "0x"@ + hex_chars(n, 4),
{
    assert((16 * n + d) / 16 == n);
    assert((16 * n + d) % 16 == d);
    reveal_with_fuel(hex_chars, 5);
    if n < 0x1_0000 {
        assert(n / 16 / 16 == n / 256);
        assert(n / 256 / 16 == n / 4096);
        assert(hex_word(n) =~= "0x"@ + hex_chars(n, 4));
    }
}

} // verus!
