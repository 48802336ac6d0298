//! Variable-length integers: seven bits a byte, least significant first, the
//! top bit set on every byte but the last.

use vstd::prelude::*;

verus! {

/// Most bytes a 64-bit value takes.
pub const MAX_VARINT_LEN: usize = 10;

/// The encoding of `n`.
pub open spec fn varint(n: nat) -> Seq<u8>
    decreases n,
{
    if n < 128 {
        seq![n as u8]
    } else {
        seq![(n % 128 + 128) as u8] + varint(n / 128)
    }
}

/// The integer at the front of `s` and the bytes it takes; `None` when its
/// last byte is missing.
pub open spec fn leading(s: Seq<u8>) -> Option<(nat, nat)>
    decreases s.len(),
{
    if s.len() == 0 {
        None
    } else if s[0] < 128 {
        Some((s[0] as nat, 1))
    } else {
        match leading(s.skip(1)) {
            Some((v, k)) => Some(((s[0] - 128 + 128 * v) as nat, k + 1)),
            None => None,
        }
    }
}

/// The integer at the front of `s` when it takes at most `room` bytes and fits
/// 64 bits.
pub open spec fn leading_within(s: Seq<u8>, room: int) -> Option<(u64, usize)> {
    match leading(s) {
        Some((v, k)) => if k <= room && v <= u64::MAX {
            Some((v as u64, k as usize))
        } else {
            None
        },
        None => None,
    }
}

/// The 64-bit integer at the front of `s`.
pub open spec fn decoded(s: Seq<u8>) -> Option<(u64, usize)> {
    leading_within(s, MAX_VARINT_LEN as int)
}

/// Appends the encoding of `n`.
pub fn encode_u64(n: u64, out: &mut Vec<u8>)
    ensures
        final(out)@ == old(out)@ + varint(n as nat),
{
    let mut rest: u64 = n;
    while rest >= 128
        invariant
            old(out)@ + varint(n as nat) == out@ + varint(rest as nat),
        decreases rest,
    {
        let ghost before = out@;
        out.push((rest % 128 + 128) as u8);
        proof {
            assert(before + varint(rest as nat) =~= out@ + varint((rest / 128) as nat));
        }
        rest = rest / 128;
    }
    out.push(rest as u8);
}

/// How many bytes the encoding of `n` takes.
pub fn encoded_len(n: usize) -> (r: usize)
    ensures
        r == varint(n as nat).len(),
        1 <= r <= MAX_VARINT_LEN,
    decreases n,
{
    proof {
        lemma_varint_len(n as nat, 10);
    }
    if n < 128 {
        1
    } else {
        encoded_len(n / 128) + 1
    }
}

/// `k` groups of seven bits.
pub open spec fn span(k: nat) -> nat
    decreases k,
{
    if k == 0 {
        1
    } else {
        128 * span((k - 1) as nat)
    }
}

/// A value below `span(k)` takes at most `k` bytes.
pub proof fn lemma_varint_len(n: nat, k: nat)
    requires
        k >= 1,
        n < span(k) || (k == 10 && n <= u64::MAX),
    ensures
        1 <= varint(n).len() <= k,
    decreases k,
{
    if n >= 128 {
        reveal_with_fuel(span, 11);
        if k == 1 {
            assert(span(1) == 128);
        } else {
            lemma_varint_len(n / 128, (k - 1) as nat);
        }
    }
}

proof fn lemma_leading_len(s: Seq<u8>)
    ensures
        leading(s) matches Some((v, k)) ==> 1 <= k <= s.len(),
    decreases s.len(),
{
    if s.len() > 0 && s[0] >= 128 {
        lemma_leading_len(s.skip(1));
    }
}

/// Decodes the integer at the front of `input` and the bytes it takes.
pub fn decode_u64(input: &[u8]) -> (r: Option<(u64, usize)>)
    ensures
        r == decoded(input@),
        r matches Some((v, k)) ==> 1 <= k <= input@.len(),
{
    proof {
        assert(input@.skip(0) =~= input@);
        lemma_leading_len(input@);
    }
    decode_at(input, 0, MAX_VARINT_LEN)
}

fn decode_at(input: &[u8], at: usize, room: usize) -> (r: Option<(u64, usize)>)
    requires
        at <= input@.len(),
        room <= MAX_VARINT_LEN,
    ensures
        r == leading_within(input@.skip(at as int), room as int),
    decreases room,
{
    let ghost s = input@.skip(at as int);
    proof {
        lemma_leading_len(s);
    }
    if at == input.len() || room == 0 {
        return None;
    }
    let b: u8 = input[at];
    proof {
        assert(s[0] == b);
        assert(s.skip(1) =~= input@.skip(at + 1));
    }
    if b < 128 {
        return Some((b as u64, 1));
    }
    match decode_at(input, at + 1, room - 1) {
        Some((v, k)) => {
            if v <= (u64::MAX - (b as u64 - 128)) / 128 {
                Some((b as u64 - 128 + 128 * v, k + 1))
            } else {
                None
            }
        },
        None => None,
    }
}

/// Decoding gives back what was encoded, whatever follows it.
pub proof fn law_varint_round_trip(n: u64, rest: Seq<u8>)
    ensures
        decoded(varint(n as nat) + rest) == Some((n, varint(n as nat).len() as usize)),
{
    lemma_varint_len(n as nat, 10);
    lemma_leading_of_encoding(n as nat, rest);
}

proof fn lemma_leading_of_encoding(n: nat, rest: Seq<u8>)
    ensures
        leading(varint(n) + rest) == Some((n, varint(n).len())),
    decreases n,
{
    let s = varint(n) + rest;
    if n < 128 {
        assert(s[0] == n);
    } else {
        assert(s[0] == (n % 128 + 128) as u8);
        assert(s.skip(1) =~= varint(n / 128) + rest);
        lemma_leading_of_encoding(n / 128, rest);
    }
}

/// An encoding is as short as it can be, and says where it ends: seven bits in
/// each byte, low bits first, and every byte but the last has its top bit set.
pub proof fn law_varint_is_shortest(n: nat)
    ensures
        varint(n).len() >= 1,
        n < span(varint(n).len()),
        varint(n).len() > 1 ==> n >= span((varint(n).len() - 1) as nat),
        varint(n).last() < 128,
        forall|i: int| 0 <= i < varint(n).len() - 1 ==> #[trigger] varint(n)[i] >= 128,
        varint(n)[0] % 128 == n % 128,
    decreases n,
{
    reveal_with_fuel(span, 2);
    if n >= 128 {
        law_varint_is_shortest(n / 128);
        let rest = varint(n / 128);
        let all = varint(n);
        assert(all =~= seq![(n % 128 + 128) as u8] + rest);
        assert(all.last() == rest.last());
        assert forall|i: int| 0 <= i < all.len() - 1 implies #[trigger] all[i] >= 128 by {
            if i > 0 {
                assert(all[i] == rest[i - 1]);
            }
        }
        assert(span(all.len()) == 128 * span(rest.len()));
        if rest.len() > 1 {
            assert(span(rest.len()) == 128 * span((rest.len() - 1) as nat));
        } else {
            assert(span(1) == 128);
        }
    } else {
        assert(span(1) == 128 * span(0));
    }
}

/// A number that does not fit 64 bits, one longer than ten bytes and one that
/// does not end are refused; what is decoded says how many bytes it took.
pub proof fn law_bad_varint_is_refused(s: Seq<u8>)
    ensures
        (forall|i: int| 0 <= i < s.len() ==> #[trigger] s[i] >= 128) ==> decoded(s) is None,
        decoded(s) matches Some((v, k)) ==> 1 <= k <= 10 && k <= s.len() && s[k - 1] < 128 && (
        forall|i: int| 0 <= i < k - 1 ==> #[trigger] s[i] >= 128),
        leading(s) matches Some((v, k)) ==> (v > 0xffff_ffff_ffff_ffff || k > 10 ==> decoded(
            s,
        ) is None),
{
    lemma_leading_ends(s);
}

proof fn lemma_leading_ends(s: Seq<u8>)
    ensures
        (forall|i: int| 0 <= i < s.len() ==> #[trigger] s[i] >= 128) ==> leading(s) is None,
        leading(s) matches Some((v, k)) ==> 1 <= k <= s.len() && s[k - 1] < 128 && (forall|i: int|
            0 <= i < k - 1 ==> #[trigger] s[i] >= 128),
    decreases s.len(),
{
    if s.len() > 0 && s[0] >= 128 {
        let rest = s.skip(1);
        lemma_leading_ends(rest);
        if forall|i: int| 0 <= i < s.len() ==> #[trigger] s[i] >= 128 {
            assert forall|i: int| 0 <= i < rest.len() implies #[trigger] rest[i] >= 128 by {
                assert(rest[i] == s[i + 1]);
            }
        }
        if let Some((v, k)) = leading(s) {
            let (_, q) = leading(rest)->0;
            assert(s[k - 1] == rest[q - 1]);
            assert forall|i: int| 0 <= i < k - 1 implies #[trigger] s[i] >= 128 by {
                if i > 0 {
                    assert(s[i] == rest[i - 1]);
                }
            }
        }
    }
}

} // verus!
