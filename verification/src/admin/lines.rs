//! Lines of `field:value` text.

use vstd::prelude::*;
use crate::text;

verus! {

/// The text with a line.
pub open spec fn line(t: Seq<char>, content: Seq<char>) -> Seq<char> {
    t + content + "\r\n"@
}

/// The text with a line that gives a number.
pub open spec fn num(t: Seq<char>, label: Seq<char>, n: nat) -> Seq<char> {
    t + label + ":"@ + text::dec_chars(n) + "\r\n"@
}

/// The text with a line that gives a text.
pub open spec fn txt(t: Seq<char>, label: Seq<char>, value: Seq<char>) -> Seq<char> {
    t + label + ":"@ + value + "\r\n"@
}

/// Appends a line.
pub fn push(text: &mut String, content: &str)
    ensures
        final(text)@ == line(old(text)@, content@),
{
    text.append(content);
    text.append("\r\n");
}

/// Appends a line that gives a number.
pub fn push_num(text: &mut String, label: &str, n: u64)
    ensures
        final(text)@ == num(old(text)@, label@, n as nat),
{
    text.append(label);
    text.append(":");
    text::append_dec(text, n);
    text.append("\r\n");
}

/// Appends a line that gives a text.
pub fn push_txt(text: &mut String, label: &str, value: &str)
    ensures
        final(text)@ == txt(old(text)@, label@, value@),
{
    text.append(label);
    text.append(":");
    text.append(value);
    text.append("\r\n");
}

/// `n / d`, rounded to the nearest, ties to even.
pub open spec fn nearest_even(n: nat, d: nat) -> nat {
    let q = n / d;
    let r = n % d;
    if 2 * r < d {
        q
    } else if 2 * r > d {
        q + 1
    } else {
        q + q % 2
    }
}

/// The smallest doubling of `unit` that counts `n` in fewer than 53 bits.
pub open spec fn double_unit(n: nat, unit: nat) -> nat
    decreases n / unit,
{
    if unit == 0 || n / unit < 0x20_0000_0000_0000 {
        unit
    } else {
        proof {
            vstd::arithmetic::div_mod::lemma_div_denominator(n as int, unit as int, 2);
        }
        double_unit(n, 2 * unit)
    }
}

/// A byte count as the nearest double-precision number.
pub open spec fn as_double(n: nat) -> nat {
    let unit = double_unit(n, 1);
    nearest_even(n, unit) * unit
}

/// A byte count in units of `scale`, with two decimals.
pub open spec fn scaled(n: nat, scale: nat) -> Seq<char> {
    let hundredths = nearest_even(as_double(n) * 100, scale);
    text::dec_chars(hundredths / 100) + "."@ + text::dec_chars(hundredths / 10 % 10)
        + text::dec_chars(hundredths % 10)
}

/// A byte count for people.
pub open spec fn human(n: nat) -> Seq<char> {
    if n >= 0x4000_0000 {
        scaled(n, 0x4000_0000) + "G"@
    } else if n >= 0x10_0000 {
        scaled(n, 0x10_0000) + "M"@
    } else if n >= 0x400 {
        scaled(n, 0x400) + "K"@
    } else {
        text::dec_chars(n) + "B"@
    }
}

fn round_even(n: u128, d: u128) -> (r: u128)
    requires
        0 < d <= 0x4000_0000_0000_0000,
    ensures
        r == nearest_even(n as nat, d as nat),
{
    let q: u128 = n / d;
    let rem: u128 = n % d;
    if 2 * rem < d {
        q
    } else {
        proof {
            assert(rem >= 1);
            assert(q * d + rem == n) by (nonlinear_arith)
                requires
                    q == n / d,
                    rem == n % d,
                    d > 0,
            ;
            assert(q < u128::MAX) by (nonlinear_arith)
                requires
                    q * d + rem == n,
                    rem >= 1,
                    d >= 1,
                    n <= u128::MAX,
            ;
        }
        if 2 * rem > d {
            q + 1
        } else {
            q + q % 2
        }
    }
}

fn nearest_double(n: u64) -> (r: u128)
    ensures
        r == as_double(n as nat),
        r <= 0x1_0000_0000_0000_1000,
{
    let mut unit: u128 = 1;
    while n as u128 / unit >= 0x20_0000_0000_0000
        invariant
            1 <= unit < 0x1000,
            double_unit(n as nat, 1) == double_unit(n as nat, unit as nat),
        decreases 0x1000 - unit,
    {
        proof {
            let m: u128 = n as u128;
            assert(unit < 0x800) by (nonlinear_arith)
                requires
                    m / unit >= 0x20_0000_0000_0000,
                    m < 0x1_0000_0000_0000_0000,
                    unit >= 1,
            ;
        }
        unit = unit * 2;
    }
    let q: u128 = round_even(n as u128, unit);
    proof {
        let m: u128 = n as u128;
        assert(q <= m / unit + 1);
        assert(q * unit <= 0x1_0000_0000_0000_1000) by (nonlinear_arith)
            requires
                q <= m / unit + 1,
                m / unit < 0x20_0000_0000_0000,
                m < 0x1_0000_0000_0000_0000,
                1 <= unit < 0x1000,
        ;
    }
    q * unit
}

fn append_scaled(text: &mut String, n: u64, scale: u128)
    requires
        0x400 <= scale <= 0x4000_0000,
    ensures
        final(text)@ == old(text)@ + scaled(n as nat, scale as nat),
{
    let whole: u128 = nearest_double(n);
    let hundredths: u128 = round_even(whole * 100, scale);
    proof {
        let h = whole * 100;
        assert(h / (scale as int) <= 0x1_0000_0000_0000_0000) by (nonlinear_arith)
            requires
                0 <= h <= 0x65_0000_0000_0000_0000,
                scale >= 0x400,
        ;
    }
    text::append_dec(text, (hundredths / 100) as u64);
    text.append(".");
    text::append_dec(text, (hundredths / 10 % 10) as u64);
    text::append_dec(text, (hundredths % 10) as u64);
    proof {
        assert(text@ =~= old(text)@ + scaled(n as nat, scale as nat));
    }
}

/// A byte count for people: two decimals of the largest unit that fits.
pub fn human_bytes(bytes: u64) -> (r: String)
    ensures
        r@ == human(bytes as nat),
{
    let mut out = text::owned("");
    proof {
        reveal_strlit("");
    }
    if bytes >= 0x4000_0000 {
        append_scaled(&mut out, bytes, 0x4000_0000);
        out.append("G");
    } else if bytes >= 0x10_0000 {
        append_scaled(&mut out, bytes, 0x10_0000);
        out.append("M");
    } else if bytes >= 0x400 {
        append_scaled(&mut out, bytes, 0x400);
        out.append("K");
    } else {
        text::append_dec(&mut out, bytes);
        out.append("B");
    }
    proof {
        assert(out@ =~= human(bytes as nat));
    }
    out
}

/// A line is appended: what stood before stays, and the label and the value
/// stand between a colon, ended by a line break.
pub proof fn law_lines_append(t: Seq<char>, label: Seq<char>, value: Seq<char>, n: nat)
    ensures
        txt(t, label, value) == t + (label + ":"@ + value + "\r\n"@),
        num(t, label, n) == txt(t, label, text::dec_chars(n)),
        line(t, value) == t + (value + "\r\n"@),
{
    assert(txt(t, label, value) =~= t + (label + ":"@ + value + "\r\n"@));
    assert(line(t, value) =~= t + (value + "\r\n"@));
}

/// Rounding goes to the nearest whole, and to the even one from halfway.
pub proof fn law_rounding_is_to_nearest(n: nat, d: nat)
    requires
        d > 0,
    ensures
        2 * (nearest_even(n, d) * d - n) <= d,
        2 * (n - nearest_even(n, d) * d) <= d,
        2 * (nearest_even(n, d) * d - n) == d || 2 * (n - nearest_even(n, d) * d) == d
            ==> nearest_even(n, d) % 2 == 0,
{
    let q = (n / d) as int;
    let r = (n % d) as int;
    assert(n == q * d + r && 0 <= r < d) by {
        vstd::arithmetic::div_mod::lemma_fundamental_div_mod(n as int, d as int);
        vstd::arithmetic::mul::lemma_mul_is_commutative(q, d as int);
    }
    assert((q + 1) * d == q * d + d) by (nonlinear_arith);
    let e = nearest_even(n, d) as int;
    assert(e == q || e == q + 1);
}

/// An amount below two to the 53 is shown from its exact value.
pub proof fn law_small_amounts_are_exact(n: nat)
    requires
        n < 0x20_0000_0000_0000,
    ensures
        as_double(n) == n,
{
    assert(double_unit(n, 1) == 1) by {
        assert(n / 1 == n);
    }
    assert(n / 1 == n && n % 1 == 0);
    assert(nearest_even(n, 1) * 1 == n);
}

/// A human-readable amount is in the largest unit that it fills: bytes below
/// 1024, and from there binary kilo-, mega- and gigabytes with two decimals.
pub proof fn law_human_unit_is_the_largest(n: nat)
    ensures
        n < 1024 ==> human(n) == text::dec_chars(n) + "B"@,
        1024 <= n < 1_048_576 ==> human(n) == scaled(n, 1024) + "K"@,
        1_048_576 <= n < 1_073_741_824 ==> human(n) == scaled(n, 1_048_576) + "M"@,
        n >= 1_073_741_824 ==> human(n) == scaled(n, 1_073_741_824) + "G"@,
{
}

/// The two decimals of an amount: whole units, a point, tenths and hundredths,
/// of the amount rounded to the nearest hundredth.
pub proof fn law_decimals_are_hundredths(n: nat, scale: nat, units: nat, tenths: nat, cents: nat)
    requires
        nearest_even(as_double(n) * 100, scale) == units * 100 + tenths * 10 + cents,
        tenths < 10,
        cents < 10,
    ensures
        scaled(n, scale) == text::dec_chars(units) + "."@ + text::dec_chars(tenths)
            + text::dec_chars(cents),
{
    let h = units * 100 + tenths * 10 + cents;
    assert(h / 100 == units && h / 10 % 10 == tenths && h % 10 == cents) by (nonlinear_arith)
        requires
            h == units * 100 + tenths * 10 + cents,
            tenths < 10,
            cents < 10,
    ;
}

/// Whether a text ends where a line ends.
pub open spec fn ended(t: Seq<char>) -> bool {
    t.len() == 0 || t.last() == '\n'
}

/// Whether a text has the row of this label and value, as a line of its own.
#[verifier::opaque]
pub open spec fn shows(t: Seq<char>, label: Seq<char>, value: Seq<char>) -> bool {
    exists|k: int| #[trigger] row_at(t, label + ":"@ + value + "\r\n"@, k)
}

/// Whether a row stands at a place where a line starts.
pub open spec fn row_at(t: Seq<char>, row: Seq<char>, k: int) -> bool {
    &&& 0 <= k
    &&& k + row.len() <= t.len()
    &&& t.subrange(k, k + row.len()) == row
    &&& k == 0 || t[k - 1] == '\n'
}

/// Whether a text has the row of this label and number.
pub open spec fn counts(t: Seq<char>, label: Seq<char>, n: nat) -> bool {
    shows(t, label, text::dec_chars(n))
}

/// Whether a text has this line.
#[verifier::opaque]
pub open spec fn has_line(t: Seq<char>, content: Seq<char>) -> bool {
    exists|k: int| #[trigger] row_at(t, content + "\r\n"@, k)
}

proof fn lemma_row_stays(t: Seq<char>, more: Seq<char>, row: Seq<char>, k: int)
    requires
        row_at(t, row, k),
    ensures
        row_at(t + more, row, k),
{
    assert((t + more).subrange(k, k + row.len()) =~= t.subrange(k, k + row.len()));
}

proof fn lemma_row_joins(t: Seq<char>, row: Seq<char>)
    requires
        ended(t),
    ensures
        row_at(t + row, row, t.len() as int),
{
    assert((t + row).subrange(t.len() as int, (t.len() + row.len()) as int) =~= row);
}

proof fn lemma_shows_more(t: Seq<char>, more: Seq<char>, label: Seq<char>, value: Seq<char>)
    requires
        shows(t, label, value),
    ensures
        shows(t + more, label, value),
{
    reveal(shows);
    let row = label + ":"@ + value + "\r\n"@;
    let k = choose|k: int| #[trigger] row_at(t, row, k);
    lemma_row_stays(t, more, row, k);
}

/// What is appended keeps the lines before it.
pub proof fn lemma_lines_more(t: Seq<char>, more: Seq<char>, content: Seq<char>)
    requires
        has_line(t, content),
    ensures
        has_line(t + more, content),
{
    reveal(has_line);
    let row = content + "\r\n"@;
    let k = choose|k: int| #[trigger] row_at(t, row, k);
    lemma_row_stays(t, more, row, k);
}

/// A row that is appended is shown, and what was shown still is.
pub broadcast proof fn lemma_txt_shows(
    t: Seq<char>,
    label: Seq<char>,
    value: Seq<char>,
    l: Seq<char>,
    v: Seq<char>,
)
    requires
        ended(t),
        shows(t, l, v) || (l == label && v == value),
    ensures
        #[trigger] shows(txt(t, label, value), l, v),
{
    let row = label + ":"@ + value + "\r\n"@;
    assert(txt(t, label, value) =~= t + row);
    if shows(t, l, v) {
        lemma_shows_more(t, row, l, v);
    } else {
        reveal(shows);
        lemma_row_joins(t, row);
    }
}

/// A number that is appended as a row is shown, and what was shown still is.
pub broadcast proof fn lemma_num_shows(
    t: Seq<char>,
    label: Seq<char>,
    n: nat,
    l: Seq<char>,
    v: Seq<char>,
)
    requires
        ended(t),
        shows(t, l, v) || (l == label && v == text::dec_chars(n)),
    ensures
        #[trigger] shows(num(t, label, n), l, v),
{
    lemma_txt_shows(t, label, text::dec_chars(n), l, v);
}

/// A line that is appended keeps what was shown.
pub broadcast proof fn lemma_line_shows(
    t: Seq<char>,
    content: Seq<char>,
    l: Seq<char>,
    v: Seq<char>,
)
    requires
        shows(t, l, v),
    ensures
        #[trigger] shows(line(t, content), l, v),
{
    assert(line(t, content) =~= t + (content + "\r\n"@));
    lemma_shows_more(t, content + "\r\n"@, l, v);
}

/// An empty line that is appended keeps what was shown.
pub broadcast proof fn lemma_break_shows(t: Seq<char>, l: Seq<char>, v: Seq<char>)
    requires
        shows(t, l, v),
    ensures
        #[trigger] shows(t + "\r\n"@, l, v),
{
    lemma_shows_more(t, "\r\n"@, l, v);
}

/// A line that is appended is there, and so are those before it.
pub broadcast proof fn lemma_line_stands(t: Seq<char>, content: Seq<char>, c: Seq<char>)
    requires
        ended(t),
        has_line(t, c) || c == content,
    ensures
        #[trigger] has_line(line(t, content), c),
{
    let row = content + "\r\n"@;
    assert(line(t, content) =~= t + row);
    if has_line(t, c) {
        lemma_lines_more(t, row, c);
    } else {
        reveal(has_line);
        lemma_row_joins(t, row);
    }
}

/// A row that is appended keeps the lines before it.
pub broadcast proof fn lemma_txt_stands(
    t: Seq<char>,
    label: Seq<char>,
    value: Seq<char>,
    c: Seq<char>,
)
    requires
        has_line(t, c),
    ensures
        #[trigger] has_line(txt(t, label, value), c),
{
    let row = label + ":"@ + value + "\r\n"@;
    assert(txt(t, label, value) =~= t + row);
    lemma_lines_more(t, row, c);
}

/// A number that is appended as a row keeps the lines before it.
pub broadcast proof fn lemma_num_stands(t: Seq<char>, label: Seq<char>, n: nat, c: Seq<char>)
    requires
        has_line(t, c),
    ensures
        #[trigger] has_line(num(t, label, n), c),
{
    lemma_txt_stands(t, label, text::dec_chars(n), c);
}

/// An empty line that is appended keeps the lines before it.
pub broadcast proof fn lemma_break_stands(t: Seq<char>, c: Seq<char>)
    requires
        has_line(t, c),
    ensures
        #[trigger] has_line(t + "\r\n"@, c),
{
    lemma_lines_more(t, "\r\n"@, c);
}

/// A row ends its line.
pub broadcast proof fn lemma_txt_ends(t: Seq<char>, label: Seq<char>, value: Seq<char>)
    ensures
        #[trigger] ended(txt(t, label, value)),
{
    reveal_strlit("\r\n");
    assert(txt(t, label, value).last() == "\r\n"@[1]);
}

/// A number ends its line.
pub broadcast proof fn lemma_num_ends(t: Seq<char>, label: Seq<char>, n: nat)
    ensures
        #[trigger] ended(num(t, label, n)),
{
    lemma_txt_ends(t, label, text::dec_chars(n));
}

/// A line ends.
pub broadcast proof fn lemma_line_ends(t: Seq<char>, content: Seq<char>)
    ensures
        #[trigger] ended(line(t, content)),
{
    reveal_strlit("\r\n");
    assert(line(t, content).last() == "\r\n"@[1]);
}

pub broadcast group group_rows {
    lemma_txt_shows,
    lemma_num_shows,
    lemma_line_shows,
    lemma_break_shows,
    lemma_line_stands,
    lemma_txt_stands,
    lemma_num_stands,
    lemma_break_stands,
    lemma_txt_ends,
    lemma_num_ends,
    lemma_line_ends,
}

proof fn lemma_unit_is_least(n: nat, unit: nat)
    requires
        unit > 0,
    ensures
        double_unit(n, unit) >= unit,
        n / double_unit(n, unit) < 0x20_0000_0000_0000,
        double_unit(n, unit) > unit ==> double_unit(n, unit) % 2 == 0 && n / (double_unit(n, unit)
            / 2) >= 0x20_0000_0000_0000,
    decreases n / unit,
{
    if n / unit >= 0x20_0000_0000_0000 {
        vstd::arithmetic::div_mod::lemma_div_denominator(n as int, unit as int, 2);
        assert(unit * 2 == 2 * unit);
        lemma_unit_is_least(n, 2 * unit);
    }
}

/// A large amount is shown from the nearest number of 53 bits: a whole number
/// of the smallest unit that fits it there, off by half of that at most.
pub proof fn law_large_amounts_are_nearest(n: nat)
    ensures
        ({
            let unit = double_unit(n, 1);
            &&& n / unit < 0x20_0000_0000_0000
            &&& unit > 1 ==> n / (unit / 2) >= 0x20_0000_0000_0000
            &&& as_double(n) % unit == 0
            &&& 2 * (as_double(n) - n) <= unit
            &&& 2 * (n - as_double(n)) <= unit
        }),
{
    let unit = double_unit(n, 1);
    lemma_unit_is_least(n, 1);
    law_rounding_is_to_nearest(n, unit);
    vstd::arithmetic::div_mod::lemma_mod_multiples_basic(
        nearest_even(n, unit) as int,
        unit as int,
    );
}

} // verus!
