//! Glob patterns in the Redis dialect: `*`, `?`, character classes with ranges
//! and negation, and backslash escapes.

use vstd::prelude::*;
use crate::text;

verus! {

/// Whether a literal pattern byte takes the subject byte.
pub open spec fn byte_matches(p: u8, c: u8, nocase: bool) -> bool {
    if nocase {
        text::lower(p) == text::lower(c)
    } else {
        p == c
    }
}

/// Whether the range `lo-hi` (in either order) takes the subject byte.
pub open spec fn range_matches(lo: u8, hi: u8, c: u8, nocase: bool) -> bool {
    let l = if nocase { text::lower(lo) } else { lo };
    let h = if nocase { text::lower(hi) } else { hi };
    let x = if nocase { text::lower(c) } else { c };
    (l <= x && x <= h) || (h <= x && x <= l)
}

/// Scans the members of a character class from position `i`: whether one of
/// them takes `c`, and the position just past the closing bracket. A class
/// that is never closed runs to the end of the pattern.
pub open spec fn class_scan(p: Seq<u8>, i: int, c: u8, nocase: bool) -> (bool, int)
    decreases p.len() - i,
{
    if i < 0 || i >= p.len() {
        (false, p.len() as int)
    } else if p[i] == 92 && i + 1 < p.len() {
        let rest = class_scan(p, i + 2, c, nocase);
        (p[i + 1] == c || rest.0, rest.1)
    } else if p[i] == 93 {
        (false, i + 1)
    } else if i + 2 < p.len() && p[i + 1] == 45 {
        let rest = class_scan(p, i + 3, c, nocase);
        (range_matches(p[i], p[i + 2], c, nocase) || rest.0, rest.1)
    } else {
        let rest = class_scan(p, i + 1, c, nocase);
        (byte_matches(p[i], c, nocase) || rest.0, rest.1)
    }
}

/// Whether the pattern `p` from position `i` matches the subject `s` from
/// position `j`.
pub open spec fn matches_at(p: Seq<u8>, i: int, s: Seq<u8>, j: int, nocase: bool) -> bool
    decreases p.len() - i, s.len() - j,
{
    if i < 0 || j < 0 {
        false
    } else if i >= p.len() {
        j >= s.len()
    } else if p[i] == 42 {
        matches_at(p, i + 1, s, j, nocase) || (j < s.len() && matches_at(p, i, s, j + 1, nocase))
    } else if j >= s.len() {
        false
    } else if p[i] == 63 {
        matches_at(p, i + 1, s, j + 1, nocase)
    } else if p[i] == 91 {
        let negated = i + 1 < p.len() && p[i + 1] == 94;
        let start = if negated { i + 2 } else { i + 1 };
        let scan = class_scan(p, start, s[j], nocase);
        i < scan.1 <= p.len() && scan.0 != negated && matches_at(p, scan.1, s, j + 1, nocase)
    } else if p[i] == 92 && i + 1 < p.len() {
        byte_matches(p[i + 1], s[j], nocase) && matches_at(p, i + 2, s, j + 1, nocase)
    } else {
        byte_matches(p[i], s[j], nocase) && matches_at(p, i + 1, s, j + 1, nocase)
    }
}

/// Whether the pattern `p` matches the whole subject `s`.
pub open spec fn glob_matches(p: Seq<u8>, s: Seq<u8>, nocase: bool) -> bool {
    matches_at(p, 0, s, 0, nocase)
}

fn byte_match(p: u8, c: u8, nocase: bool) -> (r: bool)
    ensures
        r == byte_matches(p, c, nocase),
{
    if nocase {
        text::lower_byte(p) == text::lower_byte(c)
    } else {
        p == c
    }
}

fn range_match(lo: u8, hi: u8, c: u8, nocase: bool) -> (r: bool)
    ensures
        r == range_matches(lo, hi, c, nocase),
{
    let l: u8 = if nocase { text::lower_byte(lo) } else { lo };
    let h: u8 = if nocase { text::lower_byte(hi) } else { hi };
    let x: u8 = if nocase { text::lower_byte(c) } else { c };
    (l <= x && x <= h) || (h <= x && x <= l)
}

proof fn lemma_class_scan_end(p: Seq<u8>, i: int, c: u8, nocase: bool)
    requires
        0 <= i <= p.len(),
    ensures
        i <= class_scan(p, i, c, nocase).1 <= p.len(),
    decreases p.len() - i,
{
    if i < p.len() {
        if p[i] == 92 && i + 1 < p.len() {
            lemma_class_scan_end(p, i + 2, c, nocase);
        } else if p[i] == 93 {
        } else if i + 2 < p.len() && p[i + 1] == 45 {
            lemma_class_scan_end(p, i + 3, c, nocase);
        } else {
            lemma_class_scan_end(p, i + 1, c, nocase);
        }
    }
}

fn scan_class(p: &[u8], from: usize, c: u8, nocase: bool) -> (r: (bool, usize))
    requires
        from <= p.len(),
    ensures
        r.0 == class_scan(p@, from as int, c, nocase).0,
        r.1 == class_scan(p@, from as int, c, nocase).1,
        from <= r.1 <= p.len(),
    decreases p.len() - from,
{
    proof {
        lemma_class_scan_end(p@, from as int, c, nocase);
    }
    if from >= p.len() {
        (false, p.len())
    } else if p[from] == 92 && from + 1 < p.len() {
        let rest = scan_class(p, from + 2, c, nocase);
        (p[from + 1] == c || rest.0, rest.1)
    } else if p[from] == 93 {
        (false, from + 1)
    } else if p.len() - from > 2 && p[from + 1] == 45 {
        let rest = scan_class(p, from + 3, c, nocase);
        (range_match(p[from], p[from + 2], c, nocase) || rest.0, rest.1)
    } else {
        let rest = scan_class(p, from + 1, c, nocase);
        (byte_match(p[from], c, nocase) || rest.0, rest.1)
    }
}

fn match_at(p: &[u8], i: usize, s: &[u8], j: usize, nocase: bool) -> (r: bool)
    requires
        i <= p.len(),
        j <= s.len(),
    ensures
        r == matches_at(p@, i as int, s@, j as int, nocase),
    decreases p.len() - i, s.len() - j,
{
    if i >= p.len() {
        return j >= s.len();
    }
    if p[i] == 42 {
        return match_at(p, i + 1, s, j, nocase) || (j < s.len() && match_at(
            p,
            i,
            s,
            j + 1,
            nocase,
        ));
    }
    if j >= s.len() {
        return false;
    }
    if p[i] == 63 {
        match_at(p, i + 1, s, j + 1, nocase)
    } else if p[i] == 91 {
        let negated = p.len() - i > 1 && p[i + 1] == 94;
        let start: usize = if negated { i + 2 } else { i + 1 };
        let scan = scan_class(p, start, s[j], nocase);
        scan.0 != negated && match_at(p, scan.1, s, j + 1, nocase)
    } else if p[i] == 92 && p.len() - i > 1 {
        byte_match(p[i + 1], s[j], nocase) && match_at(p, i + 2, s, j + 1, nocase)
    } else {
        byte_match(p[i], s[j], nocase) && match_at(p, i + 1, s, j + 1, nocase)
    }
}

/// Matches `pattern` against the whole of `subject`; `nocase` folds ASCII case.
pub fn glob_match(pattern: &[u8], subject: &[u8], nocase: bool) -> (r: bool)
    ensures
        r == glob_matches(pattern@, subject@, nocase),
{
    match_at(pattern, 0, subject, 0, nocase)
}

/// Whether `p` has none of the bytes with a special meaning.
pub open spec fn is_plain(p: Seq<u8>) -> bool {
    forall|i: int|
        0 <= i < p.len() ==> #[trigger] p[i] != 42 && p[i] != 63 && p[i] != 91 && p[i] != 92
}

proof fn lemma_plain_from(p: Seq<u8>, s: Seq<u8>, i: int, nocase: bool)
    requires
        is_plain(p),
        0 <= i <= p.len(),
        p.len() == s.len(),
    ensures
        matches_at(p, i, s, i, nocase) <==> (forall|k: int|
            i <= k < p.len() ==> byte_matches(#[trigger] p[k], s[k], nocase)),
    decreases p.len() - i,
{
    if i < p.len() {
        lemma_plain_from(p, s, i + 1, nocase);
    }
}

proof fn lemma_plain_length(p: Seq<u8>, s: Seq<u8>, i: int, nocase: bool)
    requires
        is_plain(p),
        0 <= i <= p.len(),
        0 <= i <= s.len(),
        matches_at(p, i, s, i, nocase),
    ensures
        p.len() == s.len(),
    decreases p.len() - i,
{
    if i < p.len() {
        lemma_plain_length(p, s, i + 1, nocase);
    }
}

/// A pattern without special bytes matches exactly the subjects equal to it
/// byte for byte (up to ASCII case when `nocase`).
pub proof fn law_plain_pattern_is_equality(p: Seq<u8>, s: Seq<u8>, nocase: bool)
    requires
        is_plain(p),
    ensures
        glob_matches(p, s, nocase) <==> p.len() == s.len() && forall|k: int|
            0 <= k < p.len() ==> byte_matches(#[trigger] p[k], s[k], nocase),
{
    if glob_matches(p, s, nocase) {
        lemma_plain_length(p, s, 0, nocase);
    }
    if p.len() == s.len() {
        lemma_plain_from(p, s, 0, nocase);
    }
}

proof fn lemma_star_from(p: Seq<u8>, s: Seq<u8>, j: int, nocase: bool)
    requires
        p == seq![42u8],
        0 <= j <= s.len(),
    ensures
        matches_at(p, 0, s, j, nocase),
    decreases s.len() - j,
{
    if j < s.len() {
        lemma_star_from(p, s, j + 1, nocase);
    } else {
        assert(matches_at(p, 1, s, j, nocase));
    }
}

/// The pattern `*` matches every subject.
pub proof fn law_star_matches_all(s: Seq<u8>, nocase: bool)
    ensures
        glob_matches(seq![42u8], s, nocase),
{
    lemma_star_from(seq![42u8], s, 0, nocase);
}

proof fn lemma_scan_shifts(p: Seq<u8>, a: int, i: int, c: u8, nocase: bool)
    requires
        0 <= a <= p.len(),
        0 <= i,
    ensures
        class_scan(p, a + i, c, nocase).0 == class_scan(p.skip(a), i, c, nocase).0,
        class_scan(p, a + i, c, nocase).1 == a + class_scan(p.skip(a), i, c, nocase).1,
    decreases p.len() - i,
{
    let q = p.skip(a);
    if a + i < p.len() {
        assert(q[i] == p[a + i]);
        if p[a + i] == 92 && a + i + 1 < p.len() {
            assert(q[i + 1] == p[a + i + 1]);
            lemma_scan_shifts(p, a, i + 2, c, nocase);
        } else if p[a + i] == 93 {
        } else if a + i + 2 < p.len() && p[a + i + 1] == 45 {
            assert(q[i + 1] == p[a + i + 1]);
            assert(q[i + 2] == p[a + i + 2]);
            lemma_scan_shifts(p, a, i + 3, c, nocase);
        } else {
            if a + i + 1 < p.len() {
                assert(q[i + 1] == p[a + i + 1]);
            }
            lemma_scan_shifts(p, a, i + 1, c, nocase);
        }
    }
}

proof fn lemma_match_shifts(
    p: Seq<u8>,
    a: int,
    i: int,
    s: Seq<u8>,
    b: int,
    j: int,
    nocase: bool,
)
    requires
        0 <= a <= p.len(),
        0 <= b <= s.len(),
        0 <= i,
        0 <= j,
    ensures
        matches_at(p, a + i, s, b + j, nocase) == matches_at(p.skip(a), i, s.skip(b), j, nocase),
    decreases p.len() - i, s.len() - j,
{
    let q = p.skip(a);
    let t = s.skip(b);
    if a + i < p.len() {
        assert(q[i] == p[a + i]);
        if a + i + 1 < p.len() {
            assert(q[i + 1] == p[a + i + 1]);
        }
        if b + j < s.len() {
            assert(t[j] == s[b + j]);
        }
        if p[a + i] == 42 {
            lemma_match_shifts(p, a, i + 1, s, b, j, nocase);
            if b + j < s.len() {
                lemma_match_shifts(p, a, i, s, b, j + 1, nocase);
            }
        } else if b + j >= s.len() {
        } else if p[a + i] == 63 {
            lemma_match_shifts(p, a, i + 1, s, b, j + 1, nocase);
        } else if p[a + i] == 91 {
            let negated = a + i + 1 < p.len() && p[a + i + 1] == 94;
            let start = if negated {
                i + 2
            } else {
                i + 1
            };
            lemma_scan_shifts(p, a, start, s[b + j], nocase);
            let next = class_scan(q, start, s[b + j], nocase).1;
            if i < next <= q.len() {
                lemma_match_shifts(p, a, next, s, b, j + 1, nocase);
            }
        } else if p[a + i] == 92 && a + i + 1 < p.len() {
            lemma_match_shifts(p, a, i + 2, s, b, j + 1, nocase);
        } else {
            lemma_match_shifts(p, a, i + 1, s, b, j + 1, nocase);
        }
    }
}

/// The empty pattern matches the empty subject only.
pub proof fn law_empty_pattern_matches_nothing_more(s: Seq<u8>, nocase: bool)
    ensures
        glob_matches(Seq::empty(), s, nocase) <==> s.len() == 0,
{
}

/// A question mark stands for exactly one byte, whatever it is.
pub proof fn law_question_mark_is_one_byte(rest: Seq<u8>, s: Seq<u8>, nocase: bool)
    ensures
        glob_matches(seq![63u8] + rest, s, nocase) <==> s.len() > 0 && glob_matches(
            rest,
            s.skip(1),
            nocase,
        ),
{
    let p = seq![63u8] + rest;
    assert(p.skip(1) =~= rest);
    if s.len() > 0 {
        lemma_match_shifts(p, 1, 0, s, 1, 0, nocase);
    }
}

/// An ordinary byte stands for itself, and a backslash for the byte behind it:
/// up to ASCII case where case is folded.
pub proof fn law_byte_stands_for_itself(c: u8, rest: Seq<u8>, s: Seq<u8>, nocase: bool)
    ensures
        c != 42 && c != 63 && c != 91 && c != 92 ==> (glob_matches(seq![c] + rest, s, nocase)
            <==> s.len() > 0 && byte_matches(c, s[0], nocase) && glob_matches(
            rest,
            s.skip(1),
            nocase,
        )),
        glob_matches(seq![92u8, c] + rest, s, nocase) <==> s.len() > 0 && byte_matches(
            c,
            s[0],
            nocase,
        ) && glob_matches(rest, s.skip(1), nocase),
{
    let p = seq![c] + rest;
    let e = seq![92u8, c] + rest;
    assert(p.skip(1) =~= rest);
    assert(e.skip(2) =~= rest);
    if s.len() > 0 {
        lemma_match_shifts(p, 1, 0, s, 1, 0, nocase);
        lemma_match_shifts(e, 2, 0, s, 1, 0, nocase);
    }
}

proof fn lemma_star_runs(p: Seq<u8>, s: Seq<u8>, j: int, nocase: bool)
    requires
        p.len() > 0,
        p[0] == 42,
        0 <= j <= s.len(),
    ensures
        matches_at(p, 0, s, j, nocase) <==> exists|k: int|
            j <= k <= s.len() && #[trigger] matches_at(p, 1, s, k, nocase),
    decreases s.len() - j,
{
    if j < s.len() {
        lemma_star_runs(p, s, j + 1, nocase);
    }
    if matches_at(p, 1, s, j, nocase) {
        assert(matches_at(p, 0, s, j, nocase));
    }
}

/// A star stands for any run of bytes, none among them: what follows it has to
/// match some end of the subject.
pub proof fn law_star_is_any_run(rest: Seq<u8>, s: Seq<u8>, nocase: bool)
    ensures
        glob_matches(seq![42u8] + rest, s, nocase) <==> exists|k: int|
            0 <= k <= s.len() && #[trigger] glob_matches(rest, s.skip(k), nocase),
{
    let p = seq![42u8] + rest;
    assert(p.skip(1) =~= rest);
    lemma_star_runs(p, s, 0, nocase);
    assert forall|k: int| 0 <= k <= s.len() implies matches_at(p, 1, s, k, nocase)
        == #[trigger] glob_matches(rest, s.skip(k), nocase) by {
        lemma_match_shifts(p, 1, 0, s, k, 0, nocase);
    }
    if glob_matches(p, s, nocase) {
        let k = choose|k: int| 0 <= k <= s.len() && #[trigger] matches_at(p, 1, s, k, nocase);
        assert(glob_matches(rest, s.skip(k), nocase));
    }
    if exists|k: int| 0 <= k <= s.len() && #[trigger] glob_matches(rest, s.skip(k), nocase) {
        let k = choose|k: int|
            0 <= k <= s.len() && #[trigger] glob_matches(rest, s.skip(k), nocase);
        assert(matches_at(p, 1, s, k, nocase));
    }
}

/// A range in brackets stands for one byte between its ends, in either order
/// of the ends; with a caret in front, for one byte outside.
pub proof fn law_range_is_inclusive(lo: u8, hi: u8, rest: Seq<u8>, s: Seq<u8>)
    requires
        lo != 92,
        lo != 93,
        lo != 94,
    ensures
        glob_matches(seq![91u8, lo, 45u8, hi, 93u8] + rest, s, false) <==> s.len() > 0 && ((lo
            <= s[0] && s[0] <= hi) || (hi <= s[0] && s[0] <= lo)) && glob_matches(
            rest,
            s.skip(1),
            false,
        ),
        glob_matches(seq![91u8, 94u8, lo, 45u8, hi, 93u8] + rest, s, false) <==> s.len() > 0 && !((
        lo <= s[0] && s[0] <= hi) || (hi <= s[0] && s[0] <= lo)) && glob_matches(
            rest,
            s.skip(1),
            false,
        ),
{
    let p = seq![91u8, lo, 45u8, hi, 93u8] + rest;
    let n = seq![91u8, 94u8, lo, 45u8, hi, 93u8] + rest;
    assert(p.skip(5) =~= rest);
    assert(n.skip(6) =~= rest);
    if s.len() > 0 {
        reveal_with_fuel(class_scan, 3);
        lemma_match_shifts(p, 5, 0, s, 1, 0, false);
        lemma_match_shifts(n, 6, 0, s, 1, 0, false);
    }
}

/// Two bytes in brackets stand for one byte that is either; with a caret in
/// front, for one that is neither.
pub proof fn law_class_is_a_choice(a: u8, b: u8, rest: Seq<u8>, s: Seq<u8>, nocase: bool)
    requires
        a != 92,
        a != 93,
        a != 94,
        b != 92,
        b != 93,
        b != 45,
    ensures
        glob_matches(seq![91u8, a, b, 93u8] + rest, s, nocase) <==> s.len() > 0 && (byte_matches(
            a,
            s[0],
            nocase,
        ) || byte_matches(b, s[0], nocase)) && glob_matches(rest, s.skip(1), nocase),
        glob_matches(seq![91u8, 94u8, a, b, 93u8] + rest, s, nocase) <==> s.len() > 0
            && !byte_matches(a, s[0], nocase) && !byte_matches(b, s[0], nocase) && glob_matches(
            rest,
            s.skip(1),
            nocase,
        ),
{
    let p = seq![91u8, a, b, 93u8] + rest;
    let n = seq![91u8, 94u8, a, b, 93u8] + rest;
    assert(p.skip(4) =~= rest);
    assert(n.skip(5) =~= rest);
    if s.len() > 0 {
        reveal_with_fuel(class_scan, 4);
        assert(p[3] == 93u8);
        assert(n[4] == 93u8);
        lemma_match_shifts(p, 4, 0, s, 1, 0, nocase);
        lemma_match_shifts(n, 5, 0, s, 1, 0, nocase);
    }
}

/// Folding case makes the two cases of a letter one and leaves every other
/// byte alone; without it a byte matches itself only.
pub proof fn law_case_folds_letters(p: u8, c: u8)
    ensures
        byte_matches(p, c, false) <==> p == c,
        byte_matches(p, c, true) <==> p == c || (65 <= p <= 90 && c == p + 32) || (65 <= c <= 90
            && p == c + 32),
{
}

/// A range folds the case of its ends and of the byte where case is folded.
pub proof fn law_range_folds_case(lo: u8, hi: u8, rest: Seq<u8>, s: Seq<u8>)
    requires
        lo != 92,
        lo != 93,
        lo != 94,
    ensures
        glob_matches(seq![91u8, lo, 45u8, hi, 93u8] + rest, s, true) <==> s.len() > 0 && ({
            let l = text::lower(lo);
            let h = text::lower(hi);
            let x = text::lower(s[0]);
            (l <= x && x <= h) || (h <= x && x <= l)
        }) && glob_matches(rest, s.skip(1), true),
{
    let p = seq![91u8, lo, 45u8, hi, 93u8] + rest;
    assert(p.skip(5) =~= rest);
    if s.len() > 0 {
        reveal_with_fuel(class_scan, 3);
        lemma_match_shifts(p, 5, 0, s, 1, 0, true);
    }
}

/// Brackets that are not closed end with the pattern, and an escaped byte in
/// brackets stands for itself, in its own case only.
pub proof fn law_open_brackets_end_with_the_pattern(a: u8, c: u8, s: Seq<u8>, nocase: bool)
    requires
        a != 92,
        a != 93,
        a != 94,
    ensures
        glob_matches(seq![91u8, a], s, nocase) <==> s.len() == 1 && byte_matches(a, s[0], nocase),
        glob_matches(seq![91u8, 92u8, c, 93u8], s, nocase) <==> s.len() == 1 && s[0] == c,
{
    let p = seq![91u8, a];
    let e = seq![91u8, 92u8, c, 93u8];
    if s.len() > 0 {
        reveal_with_fuel(class_scan, 3);
        lemma_match_shifts(p, 2, 0, s, 1, 0, nocase);
        lemma_match_shifts(e, 4, 0, s, 1, 0, nocase);
        assert(p.skip(2) =~= Seq::<u8>::empty());
        assert(e.skip(4) =~= Seq::<u8>::empty());
        law_empty_pattern_matches_nothing_more(s.skip(1), nocase);
    }
}

} // verus!
