//! Characters, decimal numbers and searches, as the parsers and formatters of
//! this crate need them.

use vstd::prelude::*;
use vstd::utf8::*;

verus! {

// ---------------------------------------------------------------------------
// Trusted: two functions of std
// ---------------------------------------------------------------------------

/// `String::push` appends one character.
pub assume_specification[ String::push ](s: &mut String, c: char)
    ensures
        final(s)@ == old(s)@.push(c),
;

/// `core::str::from_utf8`: bytes that are well-formed UTF-8 come back as the
/// string that they encode, all others as an error (here `None`).
#[verifier::external_body]
pub(crate) fn str_from_utf8(bytes: &[u8]) -> (r: Option<&str>)
    ensures
        r is Some <==> valid_utf8(bytes@),
        r is Some ==> r->0@ == decode_utf8(bytes@),
{
    core::str::from_utf8(bytes).ok()
}

// ---------------------------------------------------------------------------
// Characters of a string
// ---------------------------------------------------------------------------

/// The characters of `s`, in order.
pub fn chars_of(s: &str) -> (v: Vec<char>)
    ensures
        v@ == s@,
{
    let mut v: Vec<char> = Vec::new();
    for c in it: s.chars()
        invariant
            it.seq() == s@,
            v@ == s@.take(it.index()),
    {
        assert(s@.take(it.index() + 1) =~= s@.take(it.index()).push(c));
        v.push(c);
    }
    assert(s@.take(s@.len() as int) =~= s@);
    v
}

// ---------------------------------------------------------------------------
// Decimal numbers
// ---------------------------------------------------------------------------

/// The character of one decimal digit.
pub open spec fn digit_char(d: nat) -> char {
    (48 + d) as char
}

/// The decimal notation of `n`, without leading zeros.
pub open spec fn decimal(n: nat) -> Seq<char>
    decreases n,
{
    if n < 10 {
        seq![digit_char(n)]
    } else {
        decimal(n / 10).push(digit_char(n % 10))
    }
}

pub open spec fn is_digit(c: char) -> bool {
    48 <= c as u32 <= 57
}

/// The number that a sequence of digits denotes.
pub open spec fn digits_value(s: Seq<char>) -> nat
    decreases s.len(),
{
    if s.len() == 0 {
        0
    } else {
        digits_value(s.drop_last()) * 10 + ((s.last() as u32 - 48) as nat)
    }
}

/// What one or more digits, and nothing else, denote if that is at most `max`.
pub open spec fn digits_only(d: Seq<char>, max: nat) -> Option<nat> {
    if d.len() > 0 && (forall|i: int| 0 <= i < d.len() ==> is_digit(#[trigger] d[i]))
        && digits_value(d) <= max {
        Some(digits_value(d))
    } else {
        None
    }
}

/// What parsing an unsigned number of at most `max` gives: an optional `+`,
/// then one or more digits and nothing else.
pub open spec fn parse_unsigned(s: Seq<char>, max: nat) -> Option<nat> {
    if s.len() > 0 && s[0] == '+' {
        digits_only(s.skip(1), max)
    } else {
        digits_only(s, max)
    }
}

/// What the first digits denote is no more than what all of them do.
pub proof fn lemma_digits_value_prefix_le(s: Seq<char>, k: int)
    requires
        0 <= k <= s.len(),
        forall|i: int| 0 <= i < s.len() ==> is_digit(#[trigger] s[i]),
    ensures
        digits_value(s.take(k)) <= digits_value(s),
    decreases s.len(),
{
    if k == s.len() {
        assert(s.take(k) =~= s);
    } else {
        let t = s.drop_last();
        assert(forall|i: int| 0 <= i < t.len() ==> t[i] == s[i]);
        lemma_digits_value_prefix_le(t, k);
        assert(t.take(k) =~= s.take(k));
    }
}

/// Parses an unsigned decimal number of at most `max`.
pub fn parse_number(s: &[char], max: u64) -> (r: Option<u64>)
    ensures
        match r {
            Some(n) => parse_unsigned(s@, max as nat) == Some(n as nat),
            None => parse_unsigned(s@, max as nat) is None,
        },
{
    let start: usize = if s.len() > 0 && s[0] == '+' { 1 } else { 0 };
    let ghost d = s@.skip(start as int);
    assert(start == 0 ==> d =~= s@);
    if start == s.len() {
        return None;
    }
    let mut value: u128 = 0;
    let mut i: usize = start;
    while i < s.len()
        invariant
            start <= i <= s@.len(),
            d == s@.skip(start as int),
            start == 0 || start == 1,
            parse_unsigned(s@, max as nat) == digits_only(d, max as nat),
            forall|j: int| 0 <= j < i - start ==> is_digit(#[trigger] d[j]),
            value == digits_value(d.take(i - start)),
            value <= max,
        decreases s@.len() - i,
    {
        let code: u32 = s[i] as u32;
        assert(d[i - start] == s@[i as int]);
        if code < 48 || code > 57 {
            assert(!is_digit(d[i - start]));
            return None;
        }
        proof {
            assert(d.take(i + 1 - start).drop_last() =~= d.take(i - start));
            assert(d.take(i + 1 - start).last() == d[i - start]);
        }
        value = value * 10 + (code - 48) as u128;
        if value > max as u128 {
            proof {
                if forall|j: int| 0 <= j < d.len() ==> is_digit(#[trigger] d[j]) {
                    lemma_digits_value_prefix_le(d, i + 1 - start);
                }
            }
            return None;
        }
        i = i + 1;
    }
    assert(d.take(d.len() as int) =~= d);
    Some(value as u64)
}

/// The decimal notation of a number is ASCII, and short where the number is
/// small.
pub proof fn lemma_decimal_ascii(n: nat)
    ensures
        decimal(n).len() >= 1,
        n <= 255 ==> decimal(n).len() <= 3,
        n <= 65535 ==> decimal(n).len() <= 5,
        is_ascii_chars(decimal(n)),
    decreases n,
{
    reveal_with_fuel(decimal, 5);
    if n >= 10 {
        lemma_decimal_ascii(n / 10);
    }
}

/// The decimal notation of a number is digits alone, and denotes that number.
pub proof fn lemma_decimal(n: nat)
    ensures
        decimal(n).len() >= 1,
        forall|i: int| 0 <= i < decimal(n).len() ==> is_digit(#[trigger] decimal(n)[i]),
        digits_value(decimal(n)) == n,
    decreases n,
{
    if n < 10 {
        assert(decimal(n).drop_last() =~= Seq::<char>::empty());
        assert(decimal(n).last() as u32 == 48 + n);
        assert(digits_value(Seq::<char>::empty()) == 0);
    } else {
        lemma_decimal(n / 10);
        assert(decimal(n).drop_last() =~= decimal(n / 10));
        assert(decimal(n).last() as u32 == 48 + n % 10);
    }
}

/// Parsing undoes the decimal notation.
pub proof fn lemma_parse_decimal(n: nat, max: nat)
    requires
        n <= max,
    ensures
        parse_unsigned(decimal(n), max) == Some(n),
{
    lemma_decimal(n);
    assert(is_digit(decimal(n)[0]));
}

/// Appends the decimal notation of `n`.
pub fn push_decimal(s: &mut String, n: u64)
    ensures
        final(s)@ == old(s)@ + decimal(n as nat),
    decreases n,
{
    let ghost before = s@;
    if n >= 10 {
        push_decimal(s, n / 10);
    }
    let d: u8 = (n % 10) as u8;
    s.push((48u8 + d) as char);
    assert(s@ =~= before + decimal(n as nat));
}

/// The decimal notation of `n`, with a leading zero where that is one digit.
pub open spec fn two_digits(n: nat) -> Seq<char> {
    if n < 10 {
        seq!['0'] + decimal(n)
    } else {
        decimal(n)
    }
}

/// Appends the decimal notation of `n`, with at least two digits.
pub fn push_two_digits(s: &mut String, n: u8)
    ensures
        final(s)@ == old(s)@ + two_digits(n as nat),
{
    let ghost before = s@;
    if n < 10 {
        s.push('0');
    }
    push_decimal(s, n as u64);
    assert(s@ =~= before + two_digits(n as nat));
}

/// Appends a string.
pub fn push_text(s: &mut String, t: &str)
    ensures
        final(s)@ == old(s)@ + t@,
{
    s.append(t);
}

// ---------------------------------------------------------------------------
// Searches
// ---------------------------------------------------------------------------

/// Index of the first element at or after `from` that equals `x`; the length
/// where there is none.
pub open spec fn find_from<T>(s: Seq<T>, x: T, from: int) -> int
    decreases s.len() - from,
{
    if from < 0 || from >= s.len() {
        s.len() as int
    } else if s[from] == x {
        from
    } else {
        find_from(s, x, from + 1)
    }
}

/// `find_from` gives the least index that holds `x`.
pub proof fn lemma_find_from<T>(s: Seq<T>, x: T, from: int)
    requires
        0 <= from <= s.len(),
    ensures
        from <= find_from(s, x, from) <= s.len(),
        find_from(s, x, from) < s.len() ==> s[find_from(s, x, from)] == x,
        forall|i: int| from <= i < find_from(s, x, from) ==> s[i] != x,
    decreases s.len() - from,
{
    if from < s.len() && s[from] != x {
        lemma_find_from(s, x, from + 1);
    }
}

/// `find_from` finds a separator behind a part that does not hold it.
pub proof fn lemma_find_behind<T>(a: Seq<T>, x: T, b: Seq<T>)
    requires
        !a.contains(x),
    ensures
        find_from(a, x, 0) == a.len(),
        find_from(a + seq![x] + b, x, 0) == a.len(),
{
    let s = a + seq![x] + b;
    lemma_find_from(a, x, 0);
    lemma_find_from(s, x, 0);
    assert(s[a.len() as int] == x);
    if find_from(s, x, 0) < a.len() {
        assert(s[find_from(s, x, 0)] == a[find_from(s, x, 0)]);
    }
}

/// Index of the first character at or after `from` that is `c`.
pub fn find_char(s: &[char], c: char, from: usize) -> (r: usize)
    requires
        from <= s@.len(),
    ensures
        r == find_from(s@, c, from as int),
        from <= r <= s@.len(),
{
    let mut i: usize = from;
    while i < s.len()
        invariant
            from <= i <= s@.len(),
            find_from(s@, c, from as int) == find_from(s@, c, i as int),
        decreases s@.len() - i,
    {
        if s[i] == c {
            return i;
        }
        i = i + 1;
    }
    i
}

/// Whether `pat` stands in `s` at index `at`.
pub open spec fn matches_at<T>(s: Seq<T>, pat: Seq<T>, at: int) -> bool {
    0 <= at && at + pat.len() <= s.len() && s.subrange(at, at + pat.len()) == pat
}

/// First index at or after `from` at which `pat` stands in `s`.
pub open spec fn find_seq<T>(s: Seq<T>, pat: Seq<T>, from: int) -> Option<int>
    decreases s.len() - from,
{
    if from < 0 || from + pat.len() > s.len() {
        None
    } else if matches_at(s, pat, from) {
        Some(from)
    } else if from == s.len() {
        None
    } else {
        find_seq(s, pat, from + 1)
    }
}

/// `find_seq` gives the least index at which `pat` stands, if there is one.
pub proof fn lemma_find_seq<T>(s: Seq<T>, pat: Seq<T>, from: int)
    requires
        0 <= from,
    ensures
        match find_seq(s, pat, from) {
            Some(k) => from <= k && matches_at(s, pat, k) && forall|i: int|
                from <= i < k ==> !#[trigger] matches_at(s, pat, i),
            None => forall|i: int| from <= i ==> !#[trigger] matches_at(s, pat, i),
        },
    decreases s.len() - from,
{
    if from + pat.len() <= s.len() && !matches_at(s, pat, from) && from != s.len() {
        lemma_find_seq(s, pat, from + 1);
    }
}

/// `find_seq` finds `pat` where it stands first.
pub proof fn lemma_found<T>(s: Seq<T>, pat: Seq<T>, k: int)
    requires
        matches_at(s, pat, k),
        forall|i: int| 0 <= i < k ==> !#[trigger] matches_at(s, pat, i),
    ensures
        find_seq(s, pat, 0) == Some(k),
{
    lemma_find_seq(s, pat, 0);
}

/// Whether the characters of `pat` stand in `s` at index `at`.
pub fn chars_match_at(s: &[char], pat: &[char], at: usize) -> (r: bool)
    ensures
        r == matches_at(s@, pat@, at as int),
{
    if at > s.len() || pat.len() > s.len() - at {
        return false;
    }
    let mut i: usize = 0;
    while i < pat.len()
        invariant
            0 <= i <= pat@.len(),
            at + pat.len() <= s.len(),
            forall|j: int| 0 <= j < i ==> s@[at + j] == #[trigger] pat@[j],
        decreases pat@.len() - i,
    {
        if s[at + i] != pat[i] {
            assert(s@.subrange(at as int, at + pat@.len())[i as int] != pat@[i as int]);
            return false;
        }
        i = i + 1;
    }
    assert(s@.subrange(at as int, at + pat@.len()) =~= pat@);
    true
}

/// Whether the bytes of `pat` stand in `s` at index `at`.
pub fn bytes_match_at(s: &[u8], pat: &[u8], at: usize) -> (r: bool)
    ensures
        r == matches_at(s@, pat@, at as int),
{
    if at > s.len() || pat.len() > s.len() - at {
        return false;
    }
    let mut i: usize = 0;
    while i < pat.len()
        invariant
            0 <= i <= pat@.len(),
            at + pat.len() <= s.len(),
            forall|j: int| 0 <= j < i ==> s@[at + j] == #[trigger] pat@[j],
        decreases pat@.len() - i,
    {
        if s[at + i] != pat[i] {
            assert(s@.subrange(at as int, at + pat@.len())[i as int] != pat@[i as int]);
            return false;
        }
        i = i + 1;
    }
    assert(s@.subrange(at as int, at + pat@.len()) =~= pat@);
    true
}

/// First index at or after `from` at which `pat` stands in `s`.
pub fn find_chars(s: &[char], pat: &[char], from: usize) -> (r: Option<usize>)
    requires
        from <= s@.len(),
    ensures
        match r {
            Some(k) => find_seq(s@, pat@, from as int) == Some(k as int),
            None => find_seq(s@, pat@, from as int) is None,
        },
{
    let mut i: usize = from;
    loop
        invariant
            from <= i <= s@.len(),
            find_seq(s@, pat@, from as int) == find_seq(s@, pat@, i as int),
        decreases s@.len() - i,
    {
        if pat.len() > s.len() - i {
            return None;
        }
        if chars_match_at(s, pat, i) {
            return Some(i);
        }
        if i == s.len() {
            return None;
        }
        i = i + 1;
    }
}

/// First index at or after `from` at which `pat` stands in `s`.
pub fn find_bytes(s: &[u8], pat: &[u8], from: usize) -> (r: Option<usize>)
    requires
        from <= s@.len(),
    ensures
        match r {
            Some(k) => find_seq(s@, pat@, from as int) == Some(k as int),
            None => find_seq(s@, pat@, from as int) is None,
        },
{
    let mut i: usize = from;
    loop
        invariant
            from <= i <= s@.len(),
            find_seq(s@, pat@, from as int) == find_seq(s@, pat@, i as int),
        decreases s@.len() - i,
    {
        if pat.len() > s.len() - i {
            return None;
        }
        if bytes_match_at(s, pat, i) {
            return Some(i);
        }
        if i == s.len() {
            return None;
        }
        i = i + 1;
    }
}

// ---------------------------------------------------------------------------
// Prefixes, splitting, trimming
// ---------------------------------------------------------------------------

/// The pieces of `s` between the occurrences of `pat`, from left to right.
pub open spec fn split<T>(s: Seq<T>, pat: Seq<T>) -> Seq<Seq<T>>
    decreases s.len(),
{
    match find_seq(s, pat, 0) {
        Some(k) => if pat.len() == 0 || k < 0 || k + pat.len() > s.len() {
            seq![s]
        } else {
            seq![s.take(k)] + split(s.skip(k + pat.len()), pat)
        },
        None => seq![s],
    }
}

/// A separator that `a` does not hold ends the first piece behind `a`.
pub proof fn lemma_split_first<T>(a: Seq<T>, c: T, b: Seq<T>)
    requires
        !a.contains(c),
    ensures
        split(a, seq![c]) == seq![a],
        split(a + seq![c] + b, seq![c]) == seq![a] + split(b, seq![c]),
{
    let pat = seq![c];
    let s = a + pat + b;
    lemma_find_seq(a, pat, 0);
    lemma_find_seq(s, pat, 0);
    assert forall|i: int| 0 <= i < a.len() implies !#[trigger] matches_at(a, pat, i) by {
        assert(a.subrange(i, i + 1)[0] == a[i]);
        assert(a.contains(a[i]));
    }
    assert forall|i: int| 0 <= i < a.len() implies !#[trigger] matches_at(s, pat, i) by {
        assert(s.subrange(i, i + 1)[0] == a[i]);
        assert(a.contains(a[i]));
    }
    assert(s.subrange(a.len() as int, (a.len() + 1) as int) =~= pat);
    assert(matches_at(s, pat, a.len() as int));
    assert(find_seq(a, pat, 0) is None) by {
        if find_seq(a, pat, 0) is Some {
            assert(matches_at(a, pat, find_seq(a, pat, 0)->0));
        }
    }
    assert(find_seq(s, pat, 0) == Some(a.len() as int));
    assert(s.take(a.len() as int) =~= a);
    assert(s.skip((a.len() + 1) as int) =~= b);
}

/// The pieces of `s` between the occurrences of `pat`.
pub fn split_chars<'a>(s: &'a [char], pat: &[char]) -> (v: Vec<&'a [char]>)
    requires
        pat@.len() > 0,
    ensures
        v@.len() == split(s@, pat@).len(),
        v@.len() >= 1,
        forall|i: int| 0 <= i < v@.len() ==> (#[trigger] v@[i])@ == split(s@, pat@)[i],
    decreases s@.len(),
{
    proof {
        lemma_find_seq(s@, pat@, 0);
    }
    match find_chars(s, pat, 0) {
        None => {
            let mut v: Vec<&'a [char]> = Vec::new();
            v.push(s);
            v
        },
        Some(k) => {
            let n: usize = s.len();
            assert(k + pat@.len() <= n);
            let first: &'a [char] = vstd::slice::slice_subrange(s, 0, k);
            let rest: &'a [char] = vstd::slice::slice_subrange(s, k + pat.len(), n);
            assert(first@ =~= s@.take(k as int));
            assert(rest@ =~= s@.skip(k + pat@.len()));
            let mut v: Vec<&'a [char]> = Vec::new();
            v.push(first);
            let mut tail: Vec<&'a [char]> = split_chars(rest, pat);
            v.append(&mut tail);
            v
        },
    }
}

/// The pieces of `s` between the occurrences of `pat`.
pub fn split_bytes<'a>(s: &'a [u8], pat: &[u8]) -> (v: Vec<&'a [u8]>)
    requires
        pat@.len() > 0,
    ensures
        v@.len() == split(s@, pat@).len(),
        v@.len() >= 1,
        forall|i: int| 0 <= i < v@.len() ==> (#[trigger] v@[i])@ == split(s@, pat@)[i],
    decreases s@.len(),
{
    proof {
        lemma_find_seq(s@, pat@, 0);
    }
    match find_bytes(s, pat, 0) {
        None => {
            let mut v: Vec<&'a [u8]> = Vec::new();
            v.push(s);
            v
        },
        Some(k) => {
            let n: usize = s.len();
            assert(k + pat@.len() <= n);
            let first: &'a [u8] = vstd::slice::slice_subrange(s, 0, k);
            let rest: &'a [u8] = vstd::slice::slice_subrange(s, k + pat.len(), n);
            assert(first@ =~= s@.take(k as int));
            assert(rest@ =~= s@.skip(k + pat@.len()));
            let mut v: Vec<&'a [u8]> = Vec::new();
            v.push(first);
            let mut tail: Vec<&'a [u8]> = split_bytes(rest, pat);
            v.append(&mut tail);
            v
        },
    }
}

/// `s` without a carriage return at its end.
pub open spec fn strip_cr(s: Seq<char>) -> Seq<char> {
    if s.len() > 0 && s.last() == '\r' {
        s.drop_last()
    } else {
        s
    }
}

/// The lines of `s`. A line ends with a line feed, which may follow a carriage
/// return; neither belongs to the line.
pub open spec fn lines(s: Seq<char>) -> Seq<Seq<char>>
    decreases s.len(),
{
    let k = find_from(s, '\n', 0);
    if s.len() == 0 {
        Seq::empty()
    } else if k < 0 || k >= s.len() {
        seq![s]
    } else {
        seq![strip_cr(s.take(k))] + lines(s.skip(k + 1))
    }
}

/// The lines of `s`.
pub fn line_chars<'a>(s: &'a [char]) -> (v: Vec<&'a [char]>)
    ensures
        v@.len() == lines(s@).len(),
        forall|i: int| 0 <= i < v@.len() ==> (#[trigger] v@[i])@ == lines(s@)[i],
    decreases s@.len(),
{
    let mut v: Vec<&'a [char]> = Vec::new();
    if s.len() == 0 {
        return v;
    }
    let k: usize = find_char(s, '\n', 0);
    if k >= s.len() {
        v.push(s);
        return v;
    }
    let end: usize = if k > 0 && s[k - 1] == '\r' {
        k - 1
    } else {
        k
    };
    let first: &'a [char] = vstd::slice::slice_subrange(s, 0, end);
    let rest: &'a [char] = vstd::slice::slice_subrange(s, k + 1, s.len());
    assert(first@ =~= strip_cr(s@.take(k as int)));
    assert(rest@ =~= s@.skip(k + 1));
    v.push(first);
    let mut tail: Vec<&'a [char]> = line_chars(rest);
    v.append(&mut tail);
    v
}

/// First index at or after `from` whose character is white space (`space`) or
/// is not (`!space`); the length where there is none.
pub open spec fn scan(s: Seq<char>, from: int, space: bool) -> int
    decreases s.len() - from,
{
    if from < 0 || from >= s.len() {
        s.len() as int
    } else if is_space(s[from]) == space {
        from
    } else {
        scan(s, from + 1, space)
    }
}

/// First index at or after `from` whose character is white space, or is not.
pub fn scan_chars(s: &[char], from: usize, space: bool) -> (r: usize)
    requires
        from <= s@.len(),
    ensures
        r == scan(s@, from as int, space),
        from <= r <= s@.len(),
{
    let mut i: usize = from;
    while i < s.len()
        invariant
            from <= i <= s@.len(),
            scan(s@, from as int, space) == scan(s@, i as int, space),
        decreases s@.len() - i,
    {
        if char_is_space(s[i]) == space {
            return i;
        }
        i = i + 1;
    }
    i
}

/// Whether the two strings hold the same characters.
pub fn str_eq(a: &str, b: &str) -> (r: bool)
    ensures
        r == (a@ == b@),
{
    let x: Vec<char> = chars_of(a);
    let y: Vec<char> = chars_of(b);
    let same: bool = x.len() == y.len() && chars_match_at(x.as_slice(), y.as_slice(), 0);
    assert(x@.len() == y@.len() ==> x@.subrange(0, y@.len() as int) =~= x@);
    same
}

/// The characters that Unicode counts as white space.
pub open spec fn is_space(c: char) -> bool {
    let u = c as u32;
    ||| 0x09 <= u <= 0x0d
    ||| u == 0x20
    ||| u == 0x85
    ||| u == 0xa0
    ||| u == 0x1680
    ||| 0x2000 <= u <= 0x200a
    ||| u == 0x2028
    ||| u == 0x2029
    ||| u == 0x202f
    ||| u == 0x205f
    ||| u == 0x3000
}

/// Whether `c` is white space.
pub fn char_is_space(c: char) -> (r: bool)
    ensures
        r == is_space(c),
{
    let u: u32 = c as u32;
    (0x09 <= u && u <= 0x0d) || u == 0x20 || u == 0x85 || u == 0xa0 || u == 0x1680 || (0x2000 <= u
        && u <= 0x200a) || u == 0x2028 || u == 0x2029 || u == 0x202f || u == 0x205f || u == 0x3000
}

/// `s` without the white space that it starts with.
pub open spec fn trim_start(s: Seq<char>) -> Seq<char>
    decreases s.len(),
{
    if s.len() > 0 && is_space(s[0]) {
        trim_start(s.skip(1))
    } else {
        s
    }
}

/// `s` without the white space that it ends with.
pub open spec fn trim_end(s: Seq<char>) -> Seq<char>
    decreases s.len(),
{
    if s.len() > 0 && is_space(s.last()) {
        trim_end(s.drop_last())
    } else {
        s
    }
}

/// `s` without the white space at both ends.
pub open spec fn trim(s: Seq<char>) -> Seq<char> {
    trim_end(trim_start(s))
}

/// `s` without the white space at both ends.
pub fn trim_chars<'a>(s: &'a [char]) -> (r: &'a [char])
    ensures
        r@ == trim(s@),
{
    let mut from: usize = 0;
    assert(s@.skip(0) =~= s@);
    while from < s.len() && char_is_space(s[from])
        invariant
            from <= s@.len(),
            trim_start(s@) == trim_start(s@.skip(from as int)),
        decreases s@.len() - from,
    {
        assert(s@.skip(from as int).skip(1) =~= s@.skip(from + 1));
        from = from + 1;
    }
    let ghost t = s@.skip(from as int);
    let mut to: usize = s.len();
    assert(s@.subrange(from as int, to as int) =~= t);
    while to > from && char_is_space(s[to - 1])
        invariant
            from <= to <= s@.len(),
            trim_end(t) == trim_end(s@.subrange(from as int, to as int)),
        decreases to,
    {
        assert(s@.subrange(from as int, to as int).drop_last() =~= s@.subrange(
            from as int,
            to - 1,
        ));
        to = to - 1;
    }
    vstd::slice::slice_subrange(s, from, to)
}

/// Lower-case form of an ASCII letter; any other character as it is.
pub open spec fn ascii_lower(c: char) -> char {
    if 65 <= c as u32 <= 90 {
        ((c as u32 + 32) as u32) as char
    } else {
        c
    }
}

/// Equality up to the case of ASCII letters.
pub open spec fn eq_ignore_case(a: Seq<char>, b: Seq<char>) -> bool {
    a.len() == b.len() && forall|i: int|
        0 <= i < a.len() ==> ascii_lower(#[trigger] a[i]) == ascii_lower(b[i])
}

/// Lower-case code of an ASCII letter; any other code as it is.
pub fn lower_code(c: char) -> (r: u32)
    ensures
        r == ascii_lower(c) as u32,
{
    let u: u32 = c as u32;
    if 65 <= u && u <= 90 {
        u + 32
    } else {
        u
    }
}

/// Whether the two are equal up to the case of ASCII letters.
pub fn chars_eq_ignore_case(a: &[char], b: &[char]) -> (r: bool)
    ensures
        r == eq_ignore_case(a@, b@),
{
    if a.len() != b.len() {
        return false;
    }
    let mut i: usize = 0;
    while i < a.len()
        invariant
            0 <= i <= a@.len(),
            a@.len() == b@.len(),
            forall|j: int| 0 <= j < i ==> ascii_lower(#[trigger] a@[j]) == ascii_lower(b@[j]),
        decreases a@.len() - i,
    {
        if lower_code(a[i]) != lower_code(b[i]) {
            assert(ascii_lower(a@[i as int]) != ascii_lower(b@[i as int]));
            return false;
        }
        assert(ascii_lower(a@[i as int]) == ascii_lower(b@[i as int]));
        i = i + 1;
    }
    true
}

// ---------------------------------------------------------------------------
// What the searches find
// ---------------------------------------------------------------------------

/// The pieces of `p` one behind the other, with `sep` between every two.
pub open spec fn joined_by<T>(p: Seq<Seq<T>>, sep: Seq<T>) -> Seq<T>
    decreases p.len(),
{
    if p.len() == 0 {
        Seq::empty()
    } else if p.len() == 1 {
        p[0]
    } else {
        p[0] + sep + joined_by(p.skip(1), sep)
    }
}

/// Splitting gives back the pieces that were joined, whatever they are, as long
/// as none of them holds the separator's last element `c`.
pub proof fn law_split_undoes_join<T>(p: Seq<Seq<T>>, pre: Seq<T>, c: T)
    requires
        p.len() > 0,
        !pre.contains(c),
        forall|j: int| 0 <= j < p.len() ==> !(#[trigger] p[j]).contains(c),
    ensures
        split(joined_by(p, pre.push(c)), pre.push(c)) == p,
    decreases p.len(),
{
    let sep = pre.push(c);
    let a = p[0];
    let s = joined_by(p, sep);
    lemma_find_seq(s, sep, 0);
    assert forall|k: int| 0 <= k < a.len() implies !#[trigger] matches_at(s, sep, k) by {
        if matches_at(s, sep, k) {
            let e = k + pre.len();
            assert(s.subrange(k, k + sep.len())[pre.len() as int] == s[e]);
            if e < a.len() {
                assert(s[e] == a[e]);
            } else {
                assert(s[e] == pre[e - a.len()]);
            }
        }
    }
    if p.len() == 1 {
        assert(find_seq(s, sep, 0) is None) by {
            if find_seq(s, sep, 0) is Some {
                assert(matches_at(s, sep, find_seq(s, sep, 0)->0));
            }
        }
        assert(split(s, sep) =~= p);
    } else {
        let rest = joined_by(p.skip(1), sep);
        assert(s.subrange(a.len() as int, (a.len() + sep.len()) as int) =~= sep);
        assert(matches_at(s, sep, a.len() as int));
        assert(find_seq(s, sep, 0) == Some(a.len() as int));
        assert(s.take(a.len() as int) =~= a);
        assert(s.skip((a.len() + sep.len()) as int) =~= rest);
        law_split_undoes_join(p.skip(1), pre, c);
        assert(seq![a] + p.skip(1) =~= p);
    }
}

/// The lines of a text are those that were joined by carriage return and line
/// feed, as long as none of them holds a line feed and the last is not empty.
pub proof fn law_lines_undo_join(p: Seq<Seq<char>>)
    requires
        p.len() > 0,
        p.last().len() > 0,
        forall|j: int| 0 <= j < p.len() ==> !(#[trigger] p[j]).contains('\n'),
    ensures
        lines(joined_by(p, seq!['\r', '\n'])) == p,
    decreases p.len(),
{
    let sep = seq!['\r', '\n'];
    let a = p[0];
    let s = joined_by(p, sep);
    if p.len() == 1 {
        lemma_find_from(s, '\n', 0);
        assert(find_from(s, '\n', 0) == s.len());
        assert(lines(s) =~= p);
    } else {
        let rest = joined_by(p.skip(1), sep);
        let t = a.push('\r');
        assert(!t.contains('\n')) by {
            if t.contains('\n') {
                let i = choose|i: int| 0 <= i < t.len() && t[i] == '\n';
                assert(a[i] == '\n');
            }
        }
        assert(s =~= t + seq!['\n'] + rest);
        lemma_find_behind(t, '\n', rest);
        assert(s.take(t.len() as int) =~= t);
        assert(s.skip((t.len() + 1) as int) =~= rest);
        assert(strip_cr(t) =~= a);
        law_lines_undo_join(p.skip(1));
        assert(seq![a] + p.skip(1) =~= p);
    }
}

/// Whether all of `s` is blanks and tabs.
pub open spec fn is_blank(s: Seq<char>) -> bool {
    forall|i: int| 0 <= i < s.len() ==> #[trigger] s[i] == ' ' || s[i] == '\t'
}

/// Trimming takes the blanks off both ends, and nothing of what stands between
/// them.
pub proof fn law_trim_takes_blanks_off(a: Seq<char>, d: Seq<char>, b: Seq<char>)
    requires
        is_blank(a),
        is_blank(b),
        d.len() > 0,
        !is_space(d[0]),
        !is_space(d.last()),
    ensures
        trim(a + d + b) == d,
    decreases a.len() + b.len(),
{
    let s = a + d + b;
    if a.len() > 0 {
        assert(a[0] == ' ' || a[0] == '\t');
        assert(is_space(s[0]));
        assert(s.skip(1) =~= a.skip(1) + d + b);
        assert(is_blank(a.skip(1)));
        law_trim_takes_blanks_off(a.skip(1), d, b);
    } else if b.len() > 0 {
        assert(s[0] == d[0]);
        assert(trim_start(s) == s);
        assert(b.last() == ' ' || b.last() == '\t');
        assert(s.last() == b.last());
        assert(s.drop_last() =~= a + d + b.drop_last());
        assert(s.drop_last()[0] == d[0]);
        assert(trim_start(s.drop_last()) == s.drop_last());
        assert(is_blank(b.drop_last()));
        law_trim_takes_blanks_off(a, d, b.drop_last());
    } else {
        assert(s =~= d);
    }
}

/// Whether `a` is the text `b`, each letter in either case; `b` is lower case.
pub open spec fn in_any_case(a: Seq<char>, b: Seq<char>) -> bool {
    a.len() == b.len() && forall|i: int|
        0 <= i < a.len() ==> #[trigger] a[i] == b[i] || (97 <= b[i] as u32 <= 122 && a[i] as u32
            == b[i] as u32 - 32)
}

/// Two texts, the second without capitals, are equal up to case exactly where
/// the first is the second with some letters written as capitals.
pub proof fn law_case_is_ignored(a: Seq<char>, b: Seq<char>)
    requires
        forall|i: int| 0 <= i < b.len() ==> !(65 <= #[trigger] b[i] as u32 <= 90),
    ensures
        eq_ignore_case(a, b) == in_any_case(a, b),
{
    if a.len() == b.len() {
        assert forall|i: int| 0 <= i < a.len() implies (ascii_lower(#[trigger] a[i]) == ascii_lower(
            b[i],
        )) == (a[i] == b[i] || (97 <= b[i] as u32 <= 122 && a[i] as u32 == b[i] as u32 - 32)) by {
            assert(!(65 <= b[i] as u32 <= 90));
            if 65 <= a[i] as u32 <= 90 {
                let u = (a[i] as u32 + 32) as u32;
                assert((u as char) as u32 == u);
            }
        }
        if in_any_case(a, b) {
            assert(eq_ignore_case(a, b));
        }
        if eq_ignore_case(a, b) {
            assert(in_any_case(a, b));
        }
    }
}

/// The encoding of a text is that of its parts.
pub proof fn lemma_encode_concat(a: Seq<char>, b: Seq<char>)
    ensures
        encode_utf8(a + b) == encode_utf8(a) + encode_utf8(b),
    decreases a.len(),
{
    if a.len() == 0 {
        assert(a + b =~= b);
        assert(encode_utf8(a) + encode_utf8(b) =~= encode_utf8(b));
    } else {
        lemma_encode_concat(a.drop_first(), b);
        assert((a + b).drop_first() =~= a.drop_first() + b);
        assert(encode_utf8(a + b) =~= encode_utf8(a) + encode_utf8(b));
    }
}

/// What is no number is refused: nothing at all, a character that is no digit
/// behind the optional plus sign, and a number above the greatest allowed.
pub proof fn law_only_numbers_are_read(s: Seq<char>, max: nat, i: int, n: nat)
    ensures
        s.len() == 0 ==> parse_unsigned(s, max) is None,
        s.len() == 1 && s[0] == '+' ==> parse_unsigned(s, max) is None,
        0 <= i < s.len() && !is_digit(s[i]) && (i > 0 || s[i] != '+') ==> parse_unsigned(s, max)
            is None,
        n > max ==> parse_unsigned(decimal(n), max) is None,
{
    if 0 <= i < s.len() && !is_digit(s[i]) && (i > 0 || s[i] != '+') {
        if s[0] == '+' {
            assert(s.skip(1)[i - 1] == s[i]);
        }
    }
    lemma_decimal(n);
    assert(is_digit(decimal(n)[0]));
}

} // verus!
