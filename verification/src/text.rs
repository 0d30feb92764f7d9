//! Text as sequences of characters: comparison, search, trimming and decimal numbers.

use vstd::prelude::*;

verus! {

/// Appending one character to a `String`, as `String::push` does.
pub assume_specification[ String::push ](s: &mut String, c: char)
    ensures
        final(s)@ == old(s)@.push(c),
;

/// The lowercase form of an ASCII capital; every other character stays.
pub open spec fn ascii_lower(c: char) -> char {
    if 'A' <= c <= 'Z' {
        (c as u8 + 32) as char
    } else {
        c
    }
}

/// `s` with its ASCII capitals in lowercase.
pub open spec fn lower_text(s: Seq<char>) -> Seq<char> {
    Seq::new(s.len(), |i: int| ascii_lower(s[i]))
}

/// Whether `part` occurs in `s`.
pub open spec fn occurs_in(part: Seq<char>, s: Seq<char>) -> bool {
    exists|i: int| #[trigger] occurs_at(part, s, i)
}

/// Whether `part` occurs in `s` from position `i` on.
pub open spec fn occurs_at(part: Seq<char>, s: Seq<char>, i: int) -> bool {
    0 <= i <= s.len() - part.len() && s.subrange(i, i + part.len()) == part
}

/// Whether `s` ends with `tail`.
pub open spec fn ends_with(s: Seq<char>, tail: Seq<char>) -> bool {
    s.len() >= tail.len() && s.skip(s.len() - tail.len()) == tail
}

/// The characters with the Unicode property White_Space.
#[verifier::opaque]
pub open spec fn is_white(c: char) -> bool {
    ||| '\u{9}' <= c <= '\u{d}'
    ||| c == ' '
    ||| c == '\u{85}'
    ||| c == '\u{a0}'
    ||| c == '\u{1680}'
    ||| '\u{2000}' <= c <= '\u{200a}'
    ||| c == '\u{2028}'
    ||| c == '\u{2029}'
    ||| c == '\u{202f}'
    ||| c == '\u{205f}'
    ||| c == '\u{3000}'
}

/// `s` without the white space at its two ends.
pub open spec fn trimmed(s: Seq<char>) -> Seq<char>
    decreases s.len(),
{
    if s.len() == 0 {
        s
    } else if is_white(s[0]) {
        trimmed(s.skip(1))
    } else if is_white(s.last()) {
        trimmed(s.drop_last())
    } else {
        s
    }
}

/// The decimal digit of `n`, which is below ten.
pub open spec fn digit_char(n: int) -> char {
    (n + 48) as char
}

/// `n` in decimal, without leading zeros.
pub open spec fn decimal(n: nat) -> Seq<char>
    decreases n,
{
    if n < 10 {
        seq![digit_char(n as int)]
    } else {
        decimal(n / 10).push(digit_char(n as int % 10))
    }
}

/// The characters of `s`, in order.
pub fn to_chars(s: &str) -> (r: Vec<char>)
    ensures
        r@ == s@,
{
    let mut out: Vec<char> = Vec::new();
    for c in it: s.chars()
        invariant
            it.seq() == s@,
            out@ == s@.take(it.index() as int),
    {
        out.push(c);
    }
    out
}

/// The text that `chars` spells from `start` up to `end`.
pub fn from_chars(chars: &Vec<char>, start: usize, end: usize) -> (r: String)
    requires
        start <= end <= chars@.len(),
    ensures
        r@ == chars@.subrange(start as int, end as int),
{
    let mut out = String::new();
    let mut i: usize = start;
    while i < end
        invariant
            start <= i <= end <= chars@.len(),
            out@ == chars@.subrange(start as int, i as int),
        decreases end - i,
    {
        out.push(chars[i]);
        i += 1;
    }
    out
}

/// The lowercase form of an ASCII capital; every other character stays.
pub fn lower_char(c: char) -> (r: char)
    ensures
        r == ascii_lower(c),
{
    if 'A' <= c && c <= 'Z' {
        (c as u8 + 32) as char
    } else {
        c
    }
}

/// Whether the two sequences hold the same characters.
pub fn same_chars(a: &Vec<char>, b: &Vec<char>) -> (r: bool)
    ensures
        r == (a@ == b@),
{
    if a.len() != b.len() {
        return false;
    }
    let mut i: usize = 0;
    while i < a.len()
        invariant
            a@.len() == b@.len(),
            i <= a@.len(),
            forall|j: int| 0 <= j < i ==> a@[j] == b@[j],
        decreases a@.len() - i,
    {
        if a[i] != b[i] {
            assert(a@[i as int] != b@[i as int]);
            return false;
        }
        i += 1;
    }
    assert(a@ =~= b@);
    true
}

/// Whether the two texts are equal.
pub fn same_text(a: &str, b: &str) -> (r: bool)
    ensures
        r == (a@ == b@),
{
    let x = to_chars(a);
    let y = to_chars(b);
    same_chars(&x, &y)
}

/// Whether `part` stands in `s` from position `at` on.
fn stands_at(s: &Vec<char>, at: usize, part: &Vec<char>) -> (r: bool)
    requires
        at + part@.len() <= s@.len(),
    ensures
        r == (s@.subrange(at as int, at + part@.len()) == part@),
{
    let ghost piece = s@.subrange(at as int, at + part@.len());
    let len: usize = s.len();
    let mut i: usize = 0;
    while i < part.len()
        invariant
            at + part@.len() <= s@.len() == len,
            i <= part@.len(),
            piece == s@.subrange(at as int, at + part@.len()),
            forall|j: int| 0 <= j < i ==> piece[j] == part@[j],
        decreases part@.len() - i,
    {
        if s[at + i] != part[i] {
            assert(piece[i as int] != part@[i as int]);
            return false;
        }
        assert(piece[i as int] == part@[i as int]);
        i += 1;
    }
    assert(piece =~= part@);
    true
}

/// Whether `part` occurs in `s`.
pub fn text_contains(s: &str, part: &str) -> (r: bool)
    ensures
        r == occurs_in(part@, s@),
{
    let hay = to_chars(s);
    let needle = to_chars(part);
    if needle.len() > hay.len() {
        return false;
    }
    let last: usize = hay.len() - needle.len();
    let mut i: usize = 0;
    loop
        invariant
            hay@ == s@,
            needle@ == part@,
            last == hay@.len() - needle@.len(),
            i <= last,
            forall|j: int| 0 <= j < i ==> !occurs_at(part@, s@, j),
        decreases last - i,
    {
        if stands_at(&hay, i, &needle) {
            assert(occurs_at(part@, s@, i as int));
            return true;
        }
        if i == last {
            return false;
        }
        i += 1;
    }
}

/// Whether the character `c` occurs in `s`.
pub fn text_has_char(s: &str, c: char) -> (r: bool)
    ensures
        r == s@.contains(c),
{
    let chars = to_chars(s);
    let mut i: usize = 0;
    while i < chars.len()
        invariant
            chars@ == s@,
            i <= chars@.len(),
            forall|j: int| 0 <= j < i ==> s@[j] != c,
        decreases chars@.len() - i,
    {
        if chars[i] == c {
            assert(s@[i as int] == c);
            return true;
        }
        i += 1;
    }
    false
}

/// Whether `s` ends with `tail`.
pub fn text_ends_with(s: &str, tail: &str) -> (r: bool)
    ensures
        r == ends_with(s@, tail@),
{
    let hay = to_chars(s);
    let needle = to_chars(tail);
    if needle.len() > hay.len() {
        return false;
    }
    let at: usize = hay.len() - needle.len();
    assert(hay@.subrange(at as int, at + needle@.len()) =~= hay@.skip(at as int));
    stands_at(&hay, at, &needle)
}

/// Whether `c` has the Unicode property White_Space.
pub fn is_white_space(c: char) -> (r: bool)
    ensures
        r == is_white(c),
{
    reveal(is_white);
    ('\u{9}' <= c && c <= '\u{d}') || c == ' ' || c == '\u{85}' || c == '\u{a0}'
        || c == '\u{1680}' || ('\u{2000}' <= c && c <= '\u{200a}') || c == '\u{2028}'
        || c == '\u{2029}' || c == '\u{202f}' || c == '\u{205f}' || c == '\u{3000}'
}

proof fn lemma_trim_first(s: Seq<char>)
    requires
        s.len() > 0,
        is_white(s[0]),
    ensures
        trimmed(s) == trimmed(s.skip(1)),
{
}

proof fn lemma_trim_last(s: Seq<char>)
    requires
        s.len() > 0,
        !is_white(s[0]),
        is_white(s.last()),
    ensures
        trimmed(s) == trimmed(s.drop_last()),
{
}

proof fn lemma_trim_stop(s: Seq<char>)
    requires
        s.len() > 0 ==> !is_white(s[0]) && !is_white(s.last()),
    ensures
        trimmed(s) == s,
{
}

/// `s` without the white space at its two ends.
pub fn trim_text(s: &str) -> (r: String)
    ensures
        r@ == trimmed(s@),
{
    let chars = to_chars(s);
    let mut start: usize = 0;
    let mut end: usize = chars.len();
    assert(chars@.subrange(0, end as int) =~= s@);
    while start < end && is_white_space(chars[start])
        invariant
            start <= end == chars@.len(),
            trimmed(chars@.subrange(start as int, end as int)) == trimmed(s@),
        decreases end - start,
    {
        proof {
            lemma_trim_first(chars@.subrange(start as int, end as int));
            assert(chars@.subrange(start as int, end as int).skip(1) =~= chars@.subrange(
                start + 1,
                end as int,
            ));
        }
        start += 1;
    }
    while start < end && is_white_space(chars[end - 1])
        invariant
            start <= end <= chars@.len(),
            start < end ==> !is_white(chars@[start as int]),
            trimmed(chars@.subrange(start as int, end as int)) == trimmed(s@),
        decreases end - start,
    {
        proof {
            lemma_trim_last(chars@.subrange(start as int, end as int));
            assert(chars@.subrange(start as int, end as int).drop_last() =~= chars@.subrange(
                start as int,
                end - 1,
            ));
        }
        end -= 1;
    }
    proof {
        lemma_trim_stop(chars@.subrange(start as int, end as int));
    }
    from_chars(&chars, start, end)
}

/// The number `n` in decimal.
pub fn decimal_text(n: u64) -> (r: String)
    ensures
        r@ == decimal(n as nat),
    decreases n,
{
    let digit: u8 = (n % 10) as u8 + 48;
    if n < 10 {
        let mut out = String::new();
        out.push(digit as char);
        assert(out@ =~= decimal(n as nat));
        out
    } else {
        let mut out = decimal_text(n / 10);
        out.push(digit as char);
        out
    }
}

/// Each of the twenty-six capitals becomes the small letter at its place in the alphabet, and
/// every other character stays.
pub proof fn capitals_become_small(c: char, i: int)
    ensures
        0 <= i < 26 ==> ascii_lower("ABCDEFGHIJKLMNOPQRSTUVWXYZ"@[i])
            == "abcdefghijklmnopqrstuvwxyz"@[i],
        !"ABCDEFGHIJKLMNOPQRSTUVWXYZ"@.contains(c) ==> ascii_lower(c) == c,
{
    reveal_strlit("ABCDEFGHIJKLMNOPQRSTUVWXYZ");
    reveal_strlit("abcdefghijklmnopqrstuvwxyz");
    if 'A' <= c <= 'Z' {
        assert("ABCDEFGHIJKLMNOPQRSTUVWXYZ"@[c as int - 65] == c);
    }
}

/// Lowercase text has as many characters as the text, each the lowercase form of the one at its
/// place; to put it in lowercase again changes nothing.
pub proof fn lowercase_keeps_places(s: Seq<char>)
    ensures
        lower_text(s).len() == s.len(),
        forall|i: int| 0 <= i < s.len() ==> #[trigger] lower_text(s)[i] == ascii_lower(s[i]),
        lower_text(lower_text(s)) == lower_text(s),
{
    assert(lower_text(lower_text(s)) =~= lower_text(s));
}

/// A part occurs in a text exactly if the text is something, the part, and something.
pub proof fn occurs_between(part: Seq<char>, s: Seq<char>)
    ensures
        occurs_in(part, s) <==> exists|a: Seq<char>, b: Seq<char>| s == #[trigger] (a + part + b),
{
    if occurs_in(part, s) {
        let i = choose|i: int| #[trigger] occurs_at(part, s, i);
        assert(s =~= s.take(i) + part + s.skip(i + part.len()));
    }
    if exists|a: Seq<char>, b: Seq<char>| s == #[trigger] (a + part + b) {
        let (a, b) = choose|a: Seq<char>, b: Seq<char>| s == #[trigger] (a + part + b);
        assert(s.subrange(a.len() as int, (a.len() + part.len()) as int) =~= part);
        assert(occurs_at(part, s, a.len() as int));
    }
}

/// A text ends with a tail exactly if it is something and the tail.
pub proof fn ends_behind_a_front(s: Seq<char>, tail: Seq<char>)
    ensures
        ends_with(s, tail) <==> exists|front: Seq<char>| s == #[trigger] (front + tail),
{
    if ends_with(s, tail) {
        assert(s =~= s.take(s.len() - tail.len()) + tail);
    }
    if exists|front: Seq<char>| s == #[trigger] (front + tail) {
        let front = choose|front: Seq<char>| s == #[trigger] (front + tail);
        assert(s.skip(s.len() - tail.len()) =~= tail);
    }
}

/// White space is these characters and no others.
pub proof fn white_space(c: char)
    ensures
        is_white(c) <==> seq![
            '\t', '\n', '\u{b}', '\u{c}', '\r', ' ', '\u{85}', '\u{a0}', '\u{1680}', '\u{2000}',
            '\u{2001}', '\u{2002}', '\u{2003}', '\u{2004}', '\u{2005}', '\u{2006}', '\u{2007}',
            '\u{2008}', '\u{2009}', '\u{200a}', '\u{2028}', '\u{2029}', '\u{202f}', '\u{205f}',
            '\u{3000}',
        ].contains(c),
{
    reveal(is_white);
    let all = seq![
        '\t', '\n', '\u{b}', '\u{c}', '\r', ' ', '\u{85}', '\u{a0}', '\u{1680}', '\u{2000}',
        '\u{2001}', '\u{2002}', '\u{2003}', '\u{2004}', '\u{2005}', '\u{2006}', '\u{2007}',
        '\u{2008}', '\u{2009}', '\u{200a}', '\u{2028}', '\u{2029}', '\u{202f}', '\u{205f}',
        '\u{3000}',
    ];
    assert(all[0] == '\t' && all[1] == '\n' && all[2] == '\u{b}' && all[3] == '\u{c}' && all[4]
        == '\r' && all[5] == ' ' && all[6] == '\u{85}' && all[7] == '\u{a0}' && all[8]
        == '\u{1680}');
    assert(all[9] == '\u{2000}' && all[10] == '\u{2001}' && all[11] == '\u{2002}' && all[12]
        == '\u{2003}' && all[13] == '\u{2004}' && all[14] == '\u{2005}' && all[15] == '\u{2006}'
        && all[16] == '\u{2007}' && all[17] == '\u{2008}' && all[18] == '\u{2009}' && all[19]
        == '\u{200a}');
    assert(all[20] == '\u{2028}' && all[21] == '\u{2029}' && all[22] == '\u{202f}' && all[23]
        == '\u{205f}' && all[24] == '\u{3000}');
}

/// Whether the characters of `s` from `i` up to `j` are white space.
pub open spec fn white_between(s: Seq<char>, i: int, j: int) -> bool {
    forall|k: int| i <= k < j ==> is_white(#[trigger] s[k])
}

#[verifier::rlimit(40)]
proof fn lemma_trim_bounds(s: Seq<char>) -> (bounds: (int, int))
    ensures
        0 <= bounds.0 <= bounds.1 <= s.len(),
        trimmed(s) == s.subrange(bounds.0, bounds.1),
        white_between(s, 0, bounds.0),
        white_between(s, bounds.1, s.len() as int),
        bounds.0 < bounds.1 ==> !is_white(s[bounds.0]) && !is_white(s[bounds.1 - 1]),
    decreases s.len(),
{
    if s.len() == 0 {
        lemma_trim_stop(s);
        assert(s =~= s.subrange(0, 0));
        (0, 0)
    } else if is_white(s[0]) {
        let t = s.skip(1);
        lemma_trim_first(s);
        let (i, j) = lemma_trim_bounds(t);
        assert(t.subrange(i, j) =~= s.subrange(i + 1, j + 1));
        assert forall|k: int| 0 <= k < i + 1 implies is_white(#[trigger] s[k]) by {
            if k > 0 {
                assert(is_white(t[k - 1]));
            }
        }
        assert forall|k: int| j + 1 <= k < s.len() implies is_white(#[trigger] s[k]) by {
            assert(is_white(t[k - 1]));
        }
        (i + 1, j + 1)
    } else if is_white(s.last()) {
        let t = s.drop_last();
        lemma_trim_last(s);
        let (i, j) = lemma_trim_bounds(t);
        assert(t.subrange(i, j) =~= s.subrange(i, j));
        assert forall|k: int| 0 <= k < i implies is_white(#[trigger] s[k]) by {
            assert(is_white(t[k]));
        }
        assert forall|k: int| j <= k < s.len() implies is_white(#[trigger] s[k]) by {
            if k < t.len() {
                assert(is_white(t[k]));
            }
        }
        (i, j)
    } else {
        lemma_trim_stop(s);
        assert(s =~= s.subrange(0, s.len() as int));
        (0, s.len() as int)
    }
}

/// Trimming cuts white space off the two ends and nothing else: what is left begins and ends
/// with other characters, and nothing is left exactly if all of the text was white space.
pub proof fn trimming_cuts_white_ends(s: Seq<char>)
    ensures
        exists|i: int, j: int| #[trigger]
            s.subrange(i, j) == trimmed(s) && 0 <= i <= j <= s.len() && white_between(s, 0, i)
                && white_between(s, j, s.len() as int),
        trimmed(s).len() > 0 ==> !is_white(trimmed(s)[0]) && !is_white(trimmed(s).last()),
        trimmed(s).len() == 0 <==> forall|k: int| 0 <= k < s.len() ==> is_white(#[trigger] s[k]),
{
    let (i, j) = lemma_trim_bounds(s);
    assert(s.subrange(i, j) == trimmed(s));
    if i == j {
        assert forall|k: int| 0 <= k < s.len() implies is_white(#[trigger] s[k]) by {
            if k < i {
                assert(white_between(s, 0, i));
            } else {
                assert(white_between(s, j, s.len() as int));
            }
        }
    } else {
        assert(!is_white(s[i]));
    }
}

/// Decimals: a number below ten is its digit, and a digit behind a number makes ten times the
/// number and the digit.
pub proof fn decimal_digits(n: nat, d: nat)
    requires
        d < 10,
    ensures
        decimal(d) == seq!["0123456789"@[d as int]],
        n > 0 ==> decimal(10 * n + d) == decimal(n).push("0123456789"@[d as int]),
{
    reveal_strlit("0123456789");
    if n > 0 {
        assert((10 * n + d) / 10 == n);
        assert((10 * n + d) % 10 == d);
    }
}

} // verus!
