//! What procfs says of the process: its resident bytes and its processor
//! time.

use vstd::prelude::*;
use vstd::string::*;
use crate::text;

verus! {

/// White space: the characters with Unicode's `White_Space` property.
pub open spec fn is_space(c: char) -> bool {
    ||| '\u{9}' <= c <= '\u{d}'
    ||| c == '\u{20}'
    ||| c == '\u{85}'
    ||| c == '\u{a0}'
    ||| c == '\u{1680}'
    ||| '\u{2000}' <= c <= '\u{200a}'
    ||| c == '\u{2028}'
    ||| c == '\u{2029}'
    ||| c == '\u{202f}'
    ||| c == '\u{205f}'
    ||| c == '\u{3000}'
}

fn space(c: char) -> (r: bool)
    ensures
        r == is_space(c),
{
    ('\u{9}' <= c && c <= '\u{d}') || c == '\u{20}' || c == '\u{85}' || c == '\u{a0}' || c
        == '\u{1680}' || ('\u{2000}' <= c && c <= '\u{200a}') || c == '\u{2028}' || c == '\u{2029}'
        || c == '\u{202f}' || c == '\u{205f}' || c == '\u{3000}'
}

/// The first position from `i` on that holds no white space.
pub open spec fn skip_space(s: Seq<char>, i: int) -> int
    decreases s.len() - i,
{
    if 0 <= i < s.len() && is_space(s[i]) {
        skip_space(s, i + 1)
    } else {
        i
    }
}

/// The first position from `i` on that holds white space.
pub open spec fn skip_word(s: Seq<char>, i: int) -> int
    decreases s.len() - i,
{
    if 0 <= i < s.len() && !is_space(s[i]) {
        skip_word(s, i + 1)
    } else {
        i
    }
}

/// The word that `n` others precede, from `i` on.
pub open spec fn nth_word(s: Seq<char>, i: int, n: nat) -> Option<Seq<char>>
    decreases n,
{
    let start = skip_space(s, i);
    if start >= s.len() {
        None
    } else {
        let end = skip_word(s, start);
        if n == 0 {
            Some(s.subrange(start, end))
        } else {
            nth_word(s, end, (n - 1) as nat)
        }
    }
}

fn chars_of(s: &str) -> (r: Vec<char>)
    ensures
        r@ == s@,
{
    let mut out: Vec<char> = Vec::new();
    for c in it: s.chars()
        invariant
            it.seq() == s@,
            out@ == s@.take(it.index() as int),
    {
        out.push(c);
        proof {
            assert(s@.take(it.index() + 1) =~= s@.take(it.index() as int).push(c));
        }
    }
    proof {
        assert(s@.take(s@.len() as int) =~= s@);
    }
    out
}

fn past_space(s: &[char], from: usize) -> (r: usize)
    requires
        from <= s@.len(),
    ensures
        r == skip_space(s@, from as int),
        from <= r <= s@.len(),
{
    let mut i: usize = from;
    while i < s.len() && space(s[i])
        invariant
            from <= i <= s@.len(),
            skip_space(s@, from as int) == skip_space(s@, i as int),
        decreases s.len() - i,
    {
        i += 1;
    }
    i
}

fn past_word(s: &[char], from: usize) -> (r: usize)
    requires
        from <= s@.len(),
    ensures
        r == skip_word(s@, from as int),
        from <= r <= s@.len(),
{
    let mut i: usize = from;
    while i < s.len() && !space(s[i])
        invariant
            from <= i <= s@.len(),
            skip_word(s@, from as int) == skip_word(s@, i as int),
        decreases s.len() - i,
    {
        i += 1;
    }
    i
}

/// `chars` holds the characters of `s`.
fn word_at<'a>(s: &'a str, chars: &[char], from: usize, n: usize) -> (r: Option<&'a str>)
    requires
        chars@ == s@,
        from <= s@.len(),
    ensures
        match nth_word(s@, from as int, n as nat) {
            Some(w) => r matches Some(v) && v@ == w,
            None => r is None,
        },
    decreases n,
{
    let start: usize = past_space(chars, from);
    if start >= chars.len() {
        return None;
    }
    let end: usize = past_word(chars, start);
    if n == 0 {
        Some(s.substring_char(start, end))
    } else {
        word_at(s, chars, end, n - 1)
    }
}

/// Where the line from `i` on ends.
pub open spec fn line_end(s: Seq<char>, i: int) -> int
    decreases s.len() - i,
{
    if 0 <= i < s.len() && s[i] != '\n' {
        line_end(s, i + 1)
    } else {
        i
    }
}

/// Whether `s` starts with `tag`.
pub open spec fn has_prefix(s: Seq<char>, tag: Seq<char>) -> bool {
    tag.len() <= s.len() && s.take(tag.len() as int) == tag
}

/// The first line from `i` on that starts with `tag`.
pub open spec fn line_with(s: Seq<char>, i: int, tag: Seq<char>) -> Option<Seq<char>>
    decreases s.len() - i,
{
    let end = line_end(s, i);
    if i < 0 || i >= s.len() || end < i {
        None
    } else if has_prefix(s.subrange(i, end), tag) {
        Some(s.subrange(i, end))
    } else if end >= s.len() {
        None
    } else {
        line_with(s, end + 1, tag)
    }
}

fn end_of_line(s: &[char], from: usize) -> (r: usize)
    requires
        from <= s@.len(),
    ensures
        r == line_end(s@, from as int),
        from <= r <= s@.len(),
{
    let mut i: usize = from;
    while i < s.len() && s[i] != '\n'
        invariant
            from <= i <= s@.len(),
            line_end(s@, from as int) == line_end(s@, i as int),
        decreases s.len() - i,
    {
        i += 1;
    }
    i
}

/// The resident kilobytes a process status names.
pub open spec fn rss_kb(status: Seq<char>) -> Option<u64> {
    match line_with(status, 0, "VmRSS:"@) {
        Some(line) => match nth_word(line, 0, 1) {
            Some(word) => text::as_u64(text::unsigned_number(text::utf8(word))),
            None => None,
        },
        None => None,
    }
}

/// The resident set a process status gives, in kB.
pub fn resident_kb(status: &str) -> (r: Option<u64>)
    ensures
        r == rss_kb(status@),
{
    let chars = chars_of(status);
    let tag = "VmRSS:";
    let tag_len: usize = tag.unicode_len();
    let mut i: usize = 0;
    while i < chars.len()
        invariant
            chars@ == status@,
            i <= chars@.len(),
            tag@ == "VmRSS:"@,
            tag_len == tag@.len(),
            line_with(status@, 0, tag@) == line_with(status@, i as int, tag@),
        decreases chars.len() - i,
    {
        let end: usize = end_of_line(chars.as_slice(), i);
        let line = status.substring_char(i, end);
        if end - i >= tag_len {
            let head = line.substring_char(0, tag_len);
            proof {
                assert(head@ =~= line@.take(tag@.len() as int));
            }
            if text::same_str(head, tag) {
                return match word_at(line, chars_of(line).as_slice(), 0, 1) {
                    Some(word) => text::parse_u64(word.as_bytes()),
                    None => None,
                };
            }
        }
        if end >= chars.len() {
            return None;
        }
        i = end + 1;
    }
    None
}

/// The resident bytes a process status names; 0 where it names none.
pub fn process_rss_bytes(status: &str) -> (r: u64)
    requires
        rss_kb(status@) matches Some(kb) ==> kb * 1024 <= u64::MAX,
    ensures
        r == (match rss_kb(status@) {
            Some(kb) => kb * 1024,
            None => 0,
        }),
{
    match resident_kb(status) {
        Some(kb) => kb * 1024,
        None => 0,
    }
}

/// The last position below `n` that holds a closing parenthesis.
pub open spec fn last_paren(s: Seq<char>, n: int) -> Option<int>
    decreases n,
{
    if n <= 0 {
        None
    } else if s[n - 1] == ')' {
        Some(n - 1)
    } else {
        last_paren(s, n - 1)
    }
}

/// The words of a process stat that give its user and system ticks: they
/// stand at fixed places after the command name, which may itself hold
/// anything but is closed by the last parenthesis.
pub open spec fn tick_words(stat: Seq<char>) -> Option<(Option<Seq<char>>, Option<Seq<char>>)> {
    match last_paren(stat, stat.len() as int) {
        Some(p) => Some((nth_word(stat, p + 1, 11), nth_word(stat, p + 1, 12))),
        None => None,
    }
}

/// The words of a process stat that give its user and system ticks.
pub fn process_cpu_words(stat: &str) -> (r: Option<(Option<&str>, Option<&str>)>)
    ensures
        match tick_words(stat@) {
            Some((user, sys)) => {
                &&& r matches Some((u, s))
                &&& match user {
                    Some(word) => u matches Some(v) && v@ == word,
                    None => u is None,
                }
                &&& match sys {
                    Some(word) => s matches Some(v) && v@ == word,
                    None => s is None,
                }
            },
            None => r is None,
        },
{
    let chars = chars_of(stat);
    let mut n: usize = chars.len();
    while n > 0
        invariant
            chars@ == stat@,
            n <= chars@.len(),
            last_paren(stat@, stat@.len() as int) == last_paren(stat@, n as int),
        decreases n,
    {
        if chars[n - 1] == ')' {
            return Some(
                (word_at(stat, chars.as_slice(), n, 11), word_at(stat, chars.as_slice(), n, 12)),
            );
        }
        n -= 1;
    }
    None
}

proof fn lemma_skips_shift(a: Seq<char>, b: Seq<char>, j: int)
    requires
        0 <= j <= b.len(),
    ensures
        skip_space(a + b, a.len() + j) == a.len() + skip_space(b, j),
        skip_word(a + b, a.len() + j) == a.len() + skip_word(b, j),
        line_end(a + b, a.len() + j) == a.len() + line_end(b, j),
        j <= skip_space(b, j) <= b.len(),
        j <= skip_word(b, j) <= b.len(),
        j <= line_end(b, j) <= b.len(),
    decreases b.len() - j,
{
    if j < b.len() {
        assert((a + b)[a.len() + j] == b[j]);
        lemma_skips_shift(a, b, j + 1);
    }
}

proof fn lemma_word_shifts(a: Seq<char>, b: Seq<char>, j: int, n: nat)
    requires
        0 <= j <= b.len(),
    ensures
        nth_word(a + b, a.len() + j, n) == nth_word(b, j, n),
    decreases n,
{
    lemma_skips_shift(a, b, j);
    let start = skip_space(b, j);
    if start < b.len() {
        lemma_skips_shift(a, b, start);
        let end = skip_word(b, start);
        if n == 0 {
            assert((a + b).subrange(a.len() + start, a.len() + end) =~= b.subrange(start, end));
        } else {
            lemma_word_shifts(a, b, end, (n - 1) as nat);
        }
    }
}

proof fn lemma_word_stops(s: Seq<char>, i: int, end: int)
    requires
        0 <= i <= end <= s.len(),
        forall|k: int| i <= k < end ==> !is_space(#[trigger] s[k]),
        end < s.len() ==> is_space(s[end]),
    ensures
        skip_word(s, i) == end,
    decreases end - i,
{
    if i < end {
        lemma_word_stops(s, i + 1, end);
    }
}

/// Words stand between spaces: the first word of a text is what comes before
/// its first space, the others are the words of the rest, and a space in front
/// changes nothing.
pub proof fn law_words_stand_between_spaces(w: Seq<char>, c: char, rest: Seq<char>, n: nat)
    requires
        w.len() > 0,
        forall|k: int| 0 <= k < w.len() ==> !is_space(#[trigger] w[k]),
        is_space(c),
    ensures
        nth_word(w + (seq![c] + rest), 0, 0) == Some(w),
        nth_word(w + (seq![c] + rest), 0, n + 1) == nth_word(rest, 0, n),
        nth_word(seq![c] + rest, 0, n) == nth_word(rest, 0, n),
        nth_word(w, 0, 0) == Some(w),
        nth_word(w, 0, n + 1) is None,
        nth_word(Seq::empty(), 0, n) is None,
{
    let tail = seq![c] + rest;
    let s = w + tail;
    assert(s[0] == w[0]);
    assert(skip_space(s, 0) == 0);
    assert(s[w.len() as int] == c);
    assert forall|k: int| 0 <= k < w.len() implies !is_space(#[trigger] s[k]) by {
        assert(s[k] == w[k]);
    }
    lemma_word_stops(s, 0, w.len() as int);
    assert(s.subrange(0, w.len() as int) =~= w);
    lemma_word_shifts(w, tail, 0, n);
    lemma_first_space(c, rest, n);
    lemma_word_stops(w, 0, w.len() as int);
    assert(w.subrange(0, w.len() as int) =~= w);
    assert(skip_space(w, 0) == 0);
    assert(skip_space(w, w.len() as int) == w.len());
    assert(nth_word(w, w.len() as int, n) is None);
}

proof fn lemma_first_space(c: char, rest: Seq<char>, n: nat)
    requires
        is_space(c),
    ensures
        nth_word(seq![c] + rest, 0, n) == nth_word(rest, 0, n),
{
    let tail = seq![c] + rest;
    assert(tail[0] == c);
    lemma_skips_shift(seq![c], rest, 0);
    assert(skip_space(tail, 0) == skip_space(tail, 1));
    lemma_word_shifts(seq![c], rest, 0, n);
    assert(nth_word(tail, 0, n) == nth_word(tail, 1, n)) by {
        let start = skip_space(tail, 1);
        assert(skip_space(tail, 0) == start);
    }
}

proof fn lemma_line_stops(s: Seq<char>, i: int, end: int)
    requires
        0 <= i <= end < s.len(),
        forall|k: int| i <= k < end ==> #[trigger] s[k] != '\n',
        s[end] == '\n',
    ensures
        line_end(s, i) == end,
    decreases end - i,
{
    if i < end {
        lemma_line_stops(s, i + 1, end);
    }
}

proof fn lemma_line_shifts(a: Seq<char>, b: Seq<char>, j: int, tag: Seq<char>)
    requires
        0 <= j <= b.len(),
    ensures
        line_with(a + b, a.len() + j, tag) == line_with(b, j, tag),
    decreases b.len() - j,
{
    lemma_skips_shift(a, b, j);
    let end = line_end(b, j);
    assert((a + b).subrange(a.len() + j, a.len() + end) =~= b.subrange(j, end));
    if j < b.len() && end < b.len() {
        lemma_line_shifts(a, b, end + 1, tag);
    }
}

/// Lines are looked at one by one: the first line is found when it starts with
/// the tag, and else the search goes on behind it.
pub proof fn law_first_tagged_line_is_found(first: Seq<char>, rest: Seq<char>, tag: Seq<char>)
    requires
        forall|k: int| 0 <= k < first.len() ==> #[trigger] first[k] != '\n',
    ensures
        has_prefix(first, tag) ==> line_with(first + (seq!['\n'] + rest), 0, tag) == Some(first),
        !has_prefix(first, tag) ==> line_with(first + (seq!['\n'] + rest), 0, tag) == line_with(
            rest,
            0,
            tag,
        ),
        line_with(Seq::empty(), 0, tag) is None,
{
    let s = first + (seq!['\n'] + rest);
    assert(s[first.len() as int] == '\n');
    assert forall|k: int| 0 <= k < first.len() implies #[trigger] s[k] != '\n' by {
        assert(s[k] == first[k]);
    }
    lemma_line_stops(s, 0, first.len() as int);
    assert(s.subrange(0, first.len() as int) =~= first);
    let head = first.push('\n');
    assert(s =~= head + rest);
    lemma_line_shifts(head, rest, 0, tag);
}

proof fn lemma_digits_are_words(n: nat)
    ensures
        text::dec_chars(n).len() > 0,
        forall|k: int|
            0 <= k < text::dec_chars(n).len() ==> '0' <= #[trigger] text::dec_chars(n)[k] <= '9',
    decreases n,
{
    if n >= 10 {
        lemma_digits_are_words(n / 10);
    }
}

/// The resident size is the number behind `VmRSS:`, on the first line that
/// starts so; the other lines do not matter, and without such a line there is
/// none.
pub proof fn law_resident_size_is_read_from_its_line(n: u64, rest: Seq<char>, other: Seq<char>)
    requires
        forall|k: int| 0 <= k < other.len() ==> #[trigger] other[k] != '\n',
        !has_prefix(other, "VmRSS:"@),
    ensures
        rss_kb("VmRSS:\t"@ + text::dec_chars(n as nat) + " kB"@ + (seq!['\n'] + rest)) == Some(n),
        rss_kb(other + (seq!['\n'] + rest)) == rss_kb(rest),
        rss_kb(Seq::empty()) is None,
{
    reveal_strlit("VmRSS:\t");
    reveal_strlit("VmRSS:");
    reveal_strlit(" kB");
    let digits = text::dec_chars(n as nat);
    lemma_digits_are_words(n as nat);
    let line = "VmRSS:\t"@ + digits + " kB"@;
    assert forall|k: int| 0 <= k < line.len() implies #[trigger] line[k] != '\n' by {
        if 7 <= k < 7 + digits.len() {
            assert(line[k] == digits[k - 7]);
        }
    }
    assert(has_prefix(line, "VmRSS:"@)) by {
        assert(line.take(6) =~= "VmRSS:"@);
    }
    law_first_tagged_line_is_found(line, rest, "VmRSS:"@);
    law_first_tagged_line_is_found(other, rest, "VmRSS:"@);
    let tail = seq!['k', 'B'];
    assert(line =~= "VmRSS:"@ + (seq!['\t'] + (digits + (seq![' '] + tail))));
    assert forall|k: int| 0 <= k < "VmRSS:"@.len() implies !is_space(#[trigger] "VmRSS:"@[k]) by {}
    assert forall|k: int| 0 <= k < digits.len() implies !is_space(#[trigger] digits[k]) by {}
    law_words_stand_between_spaces("VmRSS:"@, '\t', digits + (seq![' '] + tail), 0);
    law_words_stand_between_spaces(digits, ' ', tail, 0);
    text::law_decimal_round_trip(n as nat);
}

proof fn lemma_last_paren(s: Seq<char>, at: int, n: int)
    requires
        0 <= at < n <= s.len(),
        s[at] == ')',
        forall|k: int| at < k < n ==> #[trigger] s[k] != ')',
    ensures
        last_paren(s, n) == Some(at),
    decreases n,
{
    if n - 1 > at {
        lemma_last_paren(s, at, n - 1);
    }
}

/// The processor ticks stand behind the last parenthesis, whatever the name in
/// front of it holds: its twelfth and thirteenth words are the user's and the
/// system's.
pub proof fn law_ticks_stand_behind_the_name(head: Seq<char>, rest: Seq<char>)
    requires
        forall|k: int| 0 <= k < rest.len() ==> #[trigger] rest[k] != ')',
    ensures
        tick_words(head + (seq![')'] + rest)) == Some((nth_word(rest, 0, 11), nth_word(rest, 0, 12))),
{
    let s = head + (seq![')'] + rest);
    let front = head.push(')');
    assert(s =~= front + rest);
    assert(s[head.len() as int] == ')');
    assert forall|k: int| head.len() < k < s.len() implies #[trigger] s[k] != ')' by {
        assert(s[k] == rest[k - head.len() - 1]);
    }
    lemma_last_paren(s, head.len() as int, s.len() as int);
    lemma_word_shifts(front, rest, 0, 11);
    lemma_word_shifts(front, rest, 0, 12);
}

} // verus!
