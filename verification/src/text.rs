//! Character-level text scanning: whitespace, words, lines, substring search,
//! decimal numbers. Every text is modelled by its sequence of characters.
use vstd::prelude::*;

verus! {

/// `String::push` appends one character.
pub assume_specification[ String::push ](s: &mut String, ch: char)
    ensures
        final(s)@ == old(s)@.push(ch),
;

// ---------------------------------------------------------------------------
// Character classes
// ---------------------------------------------------------------------------
/// The Unicode `White_Space` property, the one `char::is_whitespace` uses.
pub open spec fn is_space(c: char) -> bool {
    let v = c as u32;
    ||| 9 <= v <= 13
    ||| v == 32
    ||| v == 0x85
    ||| v == 0xa0
    ||| v == 0x1680
    ||| 0x2000 <= v <= 0x200a
    ||| v == 0x2028
    ||| v == 0x2029
    ||| v == 0x202f
    ||| v == 0x205f
    ||| v == 0x3000
}

pub fn is_space_char(c: char) -> (b: bool)
    ensures
        b == is_space(c),
{
    let v = c as u32;
    (9 <= v && v <= 13) || v == 32 || v == 0x85 || v == 0xa0 || v == 0x1680 || (0x2000 <= v && v
        <= 0x200a) || v == 0x2028 || v == 0x2029 || v == 0x202f || v == 0x205f || v == 0x3000
}

/// An ASCII decimal digit.
pub open spec fn is_digit(c: char) -> bool {
    48 <= (c as u32) <= 57
}

pub fn is_digit_char(c: char) -> (b: bool)
    ensures
        b == is_digit(c),
{
    let v = c as u32;
    48 <= v && v <= 57
}

/// The value of an ASCII digit.
pub open spec fn digit_value(c: char) -> nat {
    ((c as u32) - 48) as nat
}

/// The ASCII digit for a value below ten.
pub open spec fn digit_char(d: nat) -> char {
    (d + 48) as char
}

// ---------------------------------------------------------------------------
// Copying between texts and character vectors
// ---------------------------------------------------------------------------
/// The characters of `s`, in order.
pub fn chars_of(s: &str) -> (v: Vec<char>)
    ensures
        v@ == s@,
{
    broadcast use vstd::string::group_string_axioms;

    let mut v: Vec<char> = Vec::new();
    for c in it: s.chars()
        invariant
            v@ == it.seq().take(it.index() as int),
    {
        v.push(c);
    }
    v
}

/// Appends every character of `v` to `s`.
pub fn push_chars(s: &mut String, v: &Vec<char>)
    ensures
        final(s)@ == old(s)@ + v@,
{
    let ghost start = s@;
    for i in 0..v.len()
        invariant
            s@ == start + v@.take(i as int),
    {
        s.push(v[i]);
        assert(v@.take(i + 1) == v@.take(i as int).push(v@[i as int]));
    }
    assert(v@.take(v.len() as int) == v@);
}

/// A string holding exactly the characters of `v`.
pub fn string_of(v: &Vec<char>) -> (s: String)
    ensures
        s@ == v@,
{
    let mut s = String::new();
    push_chars(&mut s, v);
    s
}

/// Appends the text `t` to `s`.
pub fn push_str(s: &mut String, t: &str)
    ensures
        final(s)@ == old(s)@ + t@,
{
    let v = chars_of(t);
    push_chars(s, &v);
}

/// The characters `v[lo..hi]`.
pub fn slice_chars(v: &Vec<char>, lo: usize, hi: usize) -> (r: Vec<char>)
    requires
        lo <= hi <= v.len(),
    ensures
        r@ == v@.subrange(lo as int, hi as int),
{
    let mut r: Vec<char> = Vec::new();
    let mut i = lo;
    while i < hi
        invariant
            lo <= i <= hi <= v.len(),
            r@ == v@.subrange(lo as int, i as int),
        decreases hi - i,
    {
        r.push(v[i]);
        i = i + 1;
        assert(r@ == v@.subrange(lo as int, i as int));
    }
    r
}

// ---------------------------------------------------------------------------
// Whitespace and words
// ---------------------------------------------------------------------------
/// The first index at or after `i` that is not whitespace (or the length).
pub open spec fn skip_space(s: Seq<char>, i: int) -> int
    decreases s.len() - i,
{
    if i >= s.len() {
        s.len() as int
    } else if is_space(s[i]) {
        skip_space(s, i + 1)
    } else {
        i
    }
}

/// The first index at or after `i` that is whitespace (or the length).
pub open spec fn skip_word(s: Seq<char>, i: int) -> int
    decreases s.len() - i,
{
    if i >= s.len() {
        s.len() as int
    } else if !is_space(s[i]) {
        skip_word(s, i + 1)
    } else {
        i
    }
}

pub proof fn lemma_skip_bounds(s: Seq<char>, i: int)
    requires
        0 <= i <= s.len(),
    ensures
        i <= skip_space(s, i) <= s.len(),
        i <= skip_word(s, i) <= s.len(),
        skip_space(s, i) < s.len() ==> !is_space(s[skip_space(s, i)]),
        skip_word(s, i) < s.len() ==> is_space(s[skip_word(s, i)]),
        i < s.len() && !is_space(s[i]) ==> skip_word(s, i) > i,
        forall|k: int| i <= k < skip_space(s, i) ==> is_space(#[trigger] s[k]),
        forall|k: int| i <= k < skip_word(s, i) ==> !is_space(#[trigger] s[k]),
    decreases s.len() - i,
{
    if i < s.len() {
        lemma_skip_bounds(s, i + 1);
    }
}

/// The whitespace-separated words of `s` from index `i` on
/// (what `split_whitespace` yields).
pub open spec fn words_from(s: Seq<char>, i: int) -> Seq<Seq<char>>
    decreases s.len() - i,
{
    if i < 0 || i >= s.len() {
        seq![]
    } else {
        let a = skip_space(s, i);
        if a >= s.len() {
            seq![]
        } else {
            let b = skip_word(s, a);
            proof {
                lemma_skip_bounds(s, i);
                lemma_skip_bounds(s, a);
            }
            seq![s.subrange(a, b)] + words_from(s, b)
        }
    }
}

/// The whitespace-separated words of `s`.
pub open spec fn words(s: Seq<char>) -> Seq<Seq<char>> {
    words_from(s, 0)
}

/// The first word of `s`, if any (`split_whitespace().next()`).
pub open spec fn first_word(s: Seq<char>) -> Option<Seq<char>> {
    if words(s).len() > 0 {
        Some(words(s)[0])
    } else {
        None
    }
}

/// Finds the next word of `v` at or after `from`, as a range of indices.
pub fn next_word(v: &Vec<char>, from: usize) -> (r: Option<(usize, usize)>)
    requires
        from <= v.len(),
    ensures
        r is None <==> words_from(v@, from as int).len() == 0,
        r matches Some((a, b)) ==> {
            &&& from <= a < b <= v.len()
            &&& words_from(v@, from as int) == seq![v@.subrange(a as int, b as int)]
                + words_from(v@, b as int)
        },
{
    let mut a = from;
    while a < v.len() && is_space_char(v[a])
        invariant
            from <= a <= v.len(),
            skip_space(v@, a as int) == skip_space(v@, from as int),
        decreases v.len() - a,
    {
        a = a + 1;
    }
    proof {
        lemma_skip_bounds(v@, from as int);
    }
    if a >= v.len() {
        return None;
    }
    let mut b = a;
    while b < v.len() && !is_space_char(v[b])
        invariant
            a <= b <= v.len(),
            skip_word(v@, b as int) == skip_word(v@, a as int),
        decreases v.len() - b,
    {
        b = b + 1;
    }
    proof {
        lemma_skip_bounds(v@, a as int);
    }
    Some((a, b))
}

/// The first word of `v`, if any.
pub fn first_word_of(v: &Vec<char>) -> (r: Option<Vec<char>>)
    ensures
        r matches Some(w) ==> first_word(v@) == Some(w@),
        r is None ==> first_word(v@) is None,
{
    match next_word(v, 0) {
        None => None,
        Some((a, b)) => Some(slice_chars(v, a, b)),
    }
}

// ---------------------------------------------------------------------------
// Substring search
// ---------------------------------------------------------------------------
/// `p` occurs in `h` at index `i`.
pub open spec fn matches_at(h: Seq<char>, p: Seq<char>, i: int) -> bool {
    0 <= i && i + p.len() <= h.len() && h.subrange(i, i + p.len()) == p
}

/// The first index at or after `i` where `p` occurs in `h`.
pub open spec fn find_from(h: Seq<char>, p: Seq<char>, i: int) -> Option<int>
    decreases h.len() + 1 - i,
{
    if i < 0 || i + p.len() > h.len() {
        None
    } else if matches_at(h, p, i) {
        Some(i)
    } else {
        find_from(h, p, i + 1)
    }
}

pub proof fn lemma_find_from(h: Seq<char>, p: Seq<char>, i: int)
    requires
        0 <= i,
    ensures
        find_from(h, p, i) matches Some(j) ==> i <= j && matches_at(h, p, j) && forall|k: int|
            i <= k < j ==> !matches_at(h, p, k),
        find_from(h, p, i) is None ==> forall|k: int| i <= k ==> !matches_at(h, p, k),
    decreases h.len() + 1 - i,
{
    if i + p.len() <= h.len() {
        lemma_find_from(h, p, i + 1);
    }
}

/// `p` occurs in `h` (`str::contains`).
pub open spec fn contains(h: Seq<char>, p: Seq<char>) -> bool {
    find_from(h, p, 0) is Some
}

/// `h` split around the first occurrence of `p` (`str::split_once`).
pub open spec fn split_once(h: Seq<char>, p: Seq<char>) -> Option<(Seq<char>, Seq<char>)> {
    match find_from(h, p, 0) {
        Some(i) => Some((h.take(i), h.skip(i + p.len()))),
        None => None,
    }
}

/// `s` begins with `p`.
pub open spec fn starts_with(s: Seq<char>, p: Seq<char>) -> bool {
    p.len() <= s.len() && s.take(p.len() as int) == p
}

/// Whether `p` occurs in `h` at index `i`.
pub fn matches_at_exec(h: &Vec<char>, p: &Vec<char>, i: usize) -> (b: bool)
    ensures
        b == matches_at(h@, p@, i as int),
{
    if i > h.len() || p.len() > h.len() - i {
        return false;
    }
    let mut k: usize = 0;
    while k < p.len()
        invariant
            i + p.len() <= h.len(),
            k <= p.len(),
            forall|j: int| 0 <= j < k ==> h@[i + j] == p@[j],
        decreases p.len() - k,
    {
        if h[i + k] != p[k] {
            assert(h@.subrange(i as int, i + p.len())[k as int] != p@[k as int]);
            return false;
        }
        k = k + 1;
    }
    assert(h@.subrange(i as int, i + p.len()) =~= p@);
    true
}

/// The first index at or after `from` where `p` occurs in `h`.
pub fn find_at(h: &Vec<char>, p: &Vec<char>, from: usize) -> (r: Option<usize>)
    ensures
        r matches Some(i) ==> find_from(h@, p@, from as int) == Some(i as int),
        r is None ==> find_from(h@, p@, from as int) is None,
{
    if p.len() > h.len() || from > h.len() - p.len() {
        return None;
    }
    let last = h.len() - p.len();
    let mut i: usize = from;
    while i <= last
        invariant
            last + p.len() == h.len(),
            from <= i,
            find_from(h@, p@, i as int) == find_from(h@, p@, from as int),
        decreases last + 1 - i,
    {
        if matches_at_exec(h, p, i) {
            return Some(i);
        }
        if i == last {
            assert(find_from(h@, p@, i + 1) is None);
            return None;
        }
        i = i + 1;
    }
    None
}

/// The first index where `p` occurs in `h`.
pub fn find(h: &Vec<char>, p: &Vec<char>) -> (r: Option<usize>)
    ensures
        r matches Some(i) ==> find_from(h@, p@, 0) == Some(i as int),
        r is None ==> find_from(h@, p@, 0) is None,
{
    find_at(h, p, 0)
}

/// The parts of `h` before and after the first occurrence of `p`.
pub fn split_once_chars(h: &Vec<char>, p: &Vec<char>) -> (r: Option<(Vec<char>, Vec<char>)>)
    ensures
        r matches Some((a, b)) ==> split_once(h@, p@) == Some((a@, b@)),
        r is None ==> split_once(h@, p@) is None,
{
    match find(h, p) {
        None => None,
        Some(i) => {
            proof {
                lemma_find_from(h@, p@, 0);
            }
            assert(matches_at(h@, p@, i as int));
            assert(i + p.len() <= h.len());
            let a = slice_chars(h, 0, i);
            let after = i + p.len();
            let b = slice_chars(h, after, h.len());
            assert(a@ == h@.take(i as int));
            assert(b@ == h@.skip(i + p.len()));
            Some((a, b))
        },
    }
}

/// Whether `s` begins with `p`.
pub fn starts_with_chars(s: &Vec<char>, p: &Vec<char>) -> (b: bool)
    ensures
        b == starts_with(s@, p@),
{
    let b = matches_at_exec(s, p, 0);
    proof {
        if b {
            assert(s@.take(p.len() as int) == s@.subrange(0, p.len() as int));
        } else if p.len() <= s.len() {
            assert(s@.take(p.len() as int) == s@.subrange(0, p.len() as int));
        }
    }
    b
}

// ---------------------------------------------------------------------------
// Lines
// ---------------------------------------------------------------------------
/// The first index at or after `i` that holds a line feed (or the length).
pub open spec fn line_break_from(s: Seq<char>, i: int) -> int
    decreases s.len() - i,
{
    if i >= s.len() {
        s.len() as int
    } else if s[i] == '\n' {
        i
    } else {
        line_break_from(s, i + 1)
    }
}

pub proof fn lemma_line_break(s: Seq<char>, i: int)
    requires
        0 <= i <= s.len(),
    ensures
        i <= line_break_from(s, i) <= s.len(),
        line_break_from(s, i) < s.len() ==> s[line_break_from(s, i)] == '\n',
    decreases s.len() - i,
{
    if i < s.len() {
        lemma_line_break(s, i + 1);
    }
}

/// The line that starts at `i` and ends before the line feed at `nl`,
/// without the carriage return of a `\r\n` ending.
pub open spec fn line_text(s: Seq<char>, i: int, nl: int) -> Seq<char> {
    if nl < s.len() && nl > i && s[nl - 1] == '\r' {
        s.subrange(i, nl - 1)
    } else {
        s.subrange(i, nl)
    }
}

/// The lines of `s` from index `i` on (what `str::lines` yields).
pub open spec fn lines_from(s: Seq<char>, i: int) -> Seq<Seq<char>>
    decreases s.len() + 1 - i,
{
    if i < 0 || i >= s.len() {
        seq![]
    } else {
        let nl = line_break_from(s, i);
        proof {
            lemma_line_break(s, i);
        }
        seq![line_text(s, i, nl)] + lines_from(s, nl + 1)
    }
}

/// The lines of `s`.
pub open spec fn lines(s: Seq<char>) -> Seq<Seq<char>> {
    lines_from(s, 0)
}

/// The line of `v` that starts at `i`, and where the next one starts.
pub fn next_line(v: &Vec<char>, i: usize) -> (r: (Vec<char>, usize))
    requires
        i < v.len(),
    ensures
        i < r.1 <= v.len(),
        lines_from(v@, i as int) == seq![r.0@] + lines_from(v@, r.1 as int),
{
    let mut nl = i;
    while nl < v.len() && v[nl] != '\n'
        invariant
            i <= nl <= v.len(),
            line_break_from(v@, nl as int) == line_break_from(v@, i as int),
        decreases v.len() - nl,
    {
        nl = nl + 1;
    }
    proof {
        lemma_line_break(v@, i as int);
    }
    let end = if nl < v.len() && nl > i && v[nl - 1] == '\r' {
        nl - 1
    } else {
        nl
    };
    assert(line_break_from(v@, nl as int) == nl);
    assert(line_text(v@, i as int, nl as int) == v@.subrange(i as int, end as int));
    let line = slice_chars(v, i, end);
    let next = if nl < v.len() {
        nl + 1
    } else {
        nl
    };
    assert(lines_from(v@, i as int) == seq![line_text(v@, i as int, nl as int)] + lines_from(
        v@,
        nl + 1,
    ));
    assert(lines_from(v@, nl + 1) == lines_from(v@, next as int));
    (line, next)
}

// ---------------------------------------------------------------------------
// Trimming
// ---------------------------------------------------------------------------
/// The index after the last non-whitespace character before `j` (or 0).
pub open spec fn trim_end_index(s: Seq<char>, j: int) -> int
    decreases j,
{
    if j <= 0 {
        0
    } else if is_space(s[j - 1]) {
        trim_end_index(s, j - 1)
    } else {
        j
    }
}

pub proof fn lemma_trim_end_index(s: Seq<char>, j: int)
    requires
        0 <= j <= s.len(),
    ensures
        0 <= trim_end_index(s, j) <= j,
        trim_end_index(s, j) > 0 ==> !is_space(s[trim_end_index(s, j) - 1]),
    decreases j,
{
    if j > 0 {
        lemma_trim_end_index(s, j - 1);
    }
}

/// `s` without leading and trailing whitespace (`str::trim`).
pub open spec fn trim(s: Seq<char>) -> Seq<char> {
    let a = skip_space(s, 0);
    let b = trim_end_index(s, s.len() as int);
    if a < b {
        s.subrange(a, b)
    } else {
        seq![]
    }
}

/// The characters of `v` without leading and trailing whitespace.
pub fn trim_chars(v: &Vec<char>) -> (r: Vec<char>)
    ensures
        r@ == trim(v@),
{
    let mut a: usize = 0;
    while a < v.len() && is_space_char(v[a])
        invariant
            a <= v.len(),
            skip_space(v@, a as int) == skip_space(v@, 0),
        decreases v.len() - a,
    {
        a = a + 1;
    }
    let mut b: usize = v.len();
    while b > 0 && is_space_char(v[b - 1])
        invariant
            b <= v.len(),
            trim_end_index(v@, b as int) == trim_end_index(v@, v.len() as int),
        decreases b,
    {
        b = b - 1;
    }
    if a < b {
        slice_chars(v, a, b)
    } else {
        Vec::new()
    }
}

// ---------------------------------------------------------------------------
// Decimal numbers
// ---------------------------------------------------------------------------
/// Every character of `s` is an ASCII digit.
pub open spec fn all_digits(s: Seq<char>) -> bool {
    forall|i: int| 0 <= i < s.len() ==> is_digit(#[trigger] s[i])
}

/// The number written by the digits `s`.
pub open spec fn digits_value(s: Seq<char>) -> nat
    decreases s.len(),
{
    if s.len() == 0 {
        0
    } else {
        digits_value(s.drop_last()) * 10 + digit_value(s.last())
    }
}

/// `s` without one leading `+`.
pub open spec fn unsigned_digits(s: Seq<char>) -> Seq<char> {
    if s.len() > 0 && s[0] == '+' {
        s.drop_first()
    } else {
        s
    }
}

/// What `str::parse::<u64>` gives: an optional `+`, then at least one digit,
/// and a value that fits.
pub open spec fn parse_u64(s: Seq<char>) -> Option<u64> {
    let d = unsigned_digits(s);
    if d.len() > 0 && all_digits(d) && digits_value(d) <= u64::MAX {
        Some(digits_value(d) as u64)
    } else {
        None
    }
}

proof fn lemma_digits_value_prefix(s: Seq<char>, k: int)
    requires
        0 <= k <= s.len(),
        all_digits(s),
    ensures
        digits_value(s.take(k)) <= digits_value(s),
    decreases s.len(),
{
    if k < s.len() {
        assert(s.drop_last().take(k) == s.take(k));
        lemma_digits_value_prefix(s.drop_last(), k);
    } else {
        assert(s.take(k) == s);
    }
}

/// Parses `v` as `str::parse::<u64>` does.
pub fn parse_u64_chars(v: &Vec<char>) -> (r: Option<u64>)
    ensures
        r == parse_u64(v@),
{
    let start: usize = if v.len() > 0 && v[0] == '+' {
        1
    } else {
        0
    };
    let ghost d = v@.skip(start as int);
    assert(d == unsigned_digits(v@));
    if start >= v.len() {
        return None;
    }
    let mut value: u64 = 0;
    let mut i: usize = start;
    while i < v.len()
        invariant
            start <= i <= v.len(),
            d == v@.skip(start as int),
            d == unsigned_digits(v@),
            all_digits(d.take(i - start)),
            value == digits_value(d.take(i - start)),
        decreases v.len() - i,
    {
        let c = v[i];
        if !is_digit_char(c) {
            assert(d[i - start] == c);
            assert(!all_digits(d));
            return None;
        }
        let digit = (c as u32 - 48) as u64;
        assert(d.take(i - start + 1).drop_last() == d.take(i - start));
        assert(d.take(i - start + 1).last() == c);
        assert(digit == digit_value(c));
        if value > (u64::MAX - digit) / 10 {
            proof {
                assert(value * 10 + digit > u64::MAX);
                assert(all_digits(d.take(i - start + 1)));
                assert(digits_value(d.take(i - start + 1)) > u64::MAX);
                if all_digits(d) {
                    lemma_digits_value_prefix(d, i - start + 1);
                }
            }
            return None;
        }
        value = value * 10 + digit;
        i = i + 1;
        assert(all_digits(d.take(i - start)));
    }
    assert(d.take(i - start) == d);
    Some(value)
}

/// The decimal digits of `n`, without leading zeros.
pub open spec fn decimal(n: nat) -> Seq<char>
    decreases n,
{
    if n < 10 {
        seq![digit_char(n)]
    } else {
        decimal(n / 10).push(digit_char(n % 10))
    }
}

/// Appends the decimal digits of `n` to `s`.
pub fn push_decimal(s: &mut String, n: u64)
    ensures
        final(s)@ == old(s)@ + decimal(n as nat),
    decreases n,
{
    if n >= 10 {
        push_decimal(s, n / 10);
    }
    let d = (n % 10) as u8;
    s.push((d + 48) as char);
    proof {
        if n >= 10 {
            assert(old(s)@ + decimal(n as nat) == old(s)@ + decimal((n / 10) as nat) + seq![
                digit_char((n % 10) as nat),
            ]);
        }
    }
}

/// Decimal numbers read back as written.
pub proof fn lemma_parse_decimal(n: nat)
    requires
        n <= u64::MAX,
    ensures
        decimal(n).len() > 0,
        all_digits(decimal(n)),
        decimal(n)[0] != '+',
        digits_value(decimal(n)) == n,
        parse_u64(decimal(n)) == Some(n as u64),
    decreases n,
{
    let c = digit_char(n % 10);
    assert((c as u32) == n % 10 + 48);
    assert(digit_value(c) == n % 10);
    assert(digits_value(decimal(n)) == digits_value(decimal(n).drop_last()) * 10 + digit_value(
        decimal(n).last(),
    ));
    if n < 10 {
        assert(decimal(n).drop_last() =~= Seq::<char>::empty());
        assert(digits_value(Seq::<char>::empty()) == 0);
    } else {
        lemma_parse_decimal(n / 10);
        assert(decimal(n).drop_last() == decimal(n / 10));
        assert(decimal(n).last() == c);
        assert((n / 10) * 10 + n % 10 == n);
        assert forall|i: int| 0 <= i < decimal(n).len() implies is_digit(#[trigger] decimal(n)[i]) by {
            if i < decimal(n).len() - 1 {
                assert(decimal(n)[i] == decimal(n / 10)[i]);
            }
        }
    }
}

} // verus!
