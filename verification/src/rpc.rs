//! The node's JSON-RPC exchange: the request text, the reply body, the cookie,
//! base64 for HTTP basic authentication, and reading scalars out of a JSON reply
//! without a JSON parser.
use vstd::prelude::*;
use vstd::utf8::encode_utf8;
use crate::text::{
    chars_of, contains, decimal, find, find_at, find_from, is_digit, is_digit_char, is_space,
    is_space_char, lemma_find_from, lemma_parse_decimal, matches_at, parse_u64, parse_u64_chars,
    push_decimal, push_str, skip_space, slice_chars, split_once, starts_with,
    starts_with_chars, trim, trim_chars, string_of,
};

verus! {

// ---------------------------------------------------------------------------
// Scalars in a JSON text
// ---------------------------------------------------------------------------
/// Where the value for `key` starts in a JSON text: after the first
/// occurrence of the quoted key, past the first colon after it and any
/// whitespace that follows the colon.
pub open spec fn json_value_start(body: Seq<char>, key: Seq<char>) -> Option<int> {
    let needle = seq!['"'] + key + seq!['"'];
    match find_from(body, needle, 0) {
        Some(i) => match find_from(body, seq![':'], i + needle.len()) {
            Some(j) => Some(skip_space(body, j + 1)),
            None => None,
        },
        None => None,
    }
}

/// The rest of a JSON text from where the value for `key` starts.
pub open spec fn json_value_text(body: Seq<char>, key: Seq<char>) -> Option<Seq<char>> {
    match json_value_start(body, key) {
        Some(k) => Some(body.skip(k)),
        None => None,
    }
}

/// The rest of `body` from where the value for `key` starts.
pub fn json_number_start<'a>(body: &'a str, key: &str) -> (r: Option<&'a str>)
    ensures
        r matches Some(t) ==> json_value_text(body@, key@) == Some(t@),
        r is None ==> json_value_text(body@, key@) is None,
{
    let v = chars_of(body);
    let mut needle: Vec<char> = Vec::new();
    needle.push('"');
    let mut k = chars_of(key);
    needle.append(&mut k);
    needle.push('"');
    assert(needle@ == seq!['"'] + key@ + seq!['"']);
    let i = match find_at(&v, &needle, 0) {
        Some(i) => i,
        None => return None,
    };
    proof {
        lemma_find_from(v@, needle@, 0);
    }
    assert(matches_at(v@, needle@, i as int));
    assert(i + needle.len() <= v.len());
    let after = i + needle.len();
    let colon = vec![':'];
    assert(colon@ == seq![':']);
    let j = match find_at(&v, &colon, after) {
        Some(j) => j,
        None => return None,
    };
    proof {
        lemma_find_from(v@, colon@, after as int);
    }
    assert(matches_at(v@, colon@, j as int));
    assert(j + 1 <= v.len());
    let mut s = j + 1;
    while s < v.len() && is_space_char(v[s])
        invariant
            j + 1 <= s <= v.len(),
            skip_space(v@, s as int) == skip_space(v@, j + 1),
        decreases v.len() - s,
    {
        s = s + 1;
    }
    assert(skip_space(v@, s as int) == s);
    let t = body.substring_char(s, v.len());
    assert(t@ == v@.skip(s as int));
    Some(t)
}

/// The first index at or after `i` that is not an ASCII digit (or the length).
pub open spec fn digit_run(s: Seq<char>, i: int) -> int
    decreases s.len() - i,
{
    if i >= s.len() {
        s.len() as int
    } else if is_digit(s[i]) {
        digit_run(s, i + 1)
    } else {
        i
    }
}

proof fn lemma_digit_run(s: Seq<char>, i: int)
    requires
        0 <= i <= s.len(),
    ensures
        i <= digit_run(s, i) <= s.len(),
    decreases s.len() - i,
{
    if i < s.len() {
        lemma_digit_run(s, i + 1);
    }
}

/// A character that may belong to a JSON number.
pub open spec fn is_number_char(c: char) -> bool {
    is_digit(c) || c == '.' || c == '-' || c == 'e' || c == 'E' || c == '+'
}

/// The first index at or after `i` that cannot belong to a number (or the length).
pub open spec fn number_run(s: Seq<char>, i: int) -> int
    decreases s.len() - i,
{
    if i >= s.len() {
        s.len() as int
    } else if is_number_char(s[i]) {
        number_run(s, i + 1)
    } else {
        i
    }
}

proof fn lemma_number_run(s: Seq<char>, i: int)
    requires
        0 <= i <= s.len(),
    ensures
        i <= number_run(s, i) <= s.len(),
    decreases s.len() - i,
{
    if i < s.len() {
        lemma_number_run(s, i + 1);
    }
}

/// The unsigned integer value for `key`: its leading digits, read as a `u64`.
pub open spec fn json_u64_of(body: Seq<char>, key: Seq<char>) -> Option<u64> {
    match json_value_text(body, key) {
        Some(v) => parse_u64(v.take(digit_run(v, 0))),
        None => None,
    }
}

/// The unsigned integer value for `key` in a JSON text.
pub fn json_u64(body: &str, key: &str) -> (r: Option<u64>)
    ensures
        r == json_u64_of(body@, key@),
{
    let value = match json_number_start(body, key) {
        Some(value) => value,
        None => return None,
    };
    let v = chars_of(value);
    let mut end: usize = 0;
    while end < v.len() && is_digit_char(v[end])
        invariant
            end <= v.len(),
            digit_run(v@, end as int) == digit_run(v@, 0),
        decreases v.len() - end,
    {
        end = end + 1;
    }
    let digits = slice_chars(&v, 0, end);
    assert(digits@ == v@.take(end as int));
    parse_u64_chars(&digits)
}

/// The text of the number for `key`: the characters of its value that may
/// belong to a JSON number (what a floating-point reading is given).
pub open spec fn json_number_text_of(body: Seq<char>, key: Seq<char>) -> Option<Seq<char>> {
    match json_value_text(body, key) {
        Some(v) => Some(v.take(number_run(v, 0))),
        None => None,
    }
}

fn is_number_char_exec(c: char) -> (b: bool)
    ensures
        b == is_number_char(c),
{
    is_digit_char(c) || c == '.' || c == '-' || c == 'e' || c == 'E' || c == '+'
}

/// The text of the (floating-point) number for `key` in a JSON text.
pub fn json_f64_text<'a>(body: &'a str, key: &str) -> (r: Option<&'a str>)
    ensures
        r matches Some(t) ==> json_number_text_of(body@, key@) == Some(t@),
        r is None ==> json_number_text_of(body@, key@) is None,
{
    let value = match json_number_start(body, key) {
        Some(value) => value,
        None => return None,
    };
    let v = chars_of(value);
    let mut end: usize = 0;
    while end < v.len() && is_number_char_exec(v[end])
        invariant
            end <= v.len(),
            number_run(v@, end as int) == number_run(v@, 0),
        decreases v.len() - end,
    {
        end = end + 1;
    }
    let t = value.substring_char(0, end);
    assert(t@ == v@.take(end as int));
    Some(t)
}

/// The boolean value for `key`: `true` or `false` at the start of its value.
pub open spec fn json_bool_of(body: Seq<char>, key: Seq<char>) -> Option<bool> {
    match json_value_text(body, key) {
        Some(v) => if starts_with(v, seq!['t', 'r', 'u', 'e']) {
            Some(true)
        } else if starts_with(v, seq!['f', 'a', 'l', 's', 'e']) {
            Some(false)
        } else {
            None
        },
        None => None,
    }
}

/// The boolean value for `key` in a JSON text.
pub fn json_bool(body: &str, key: &str) -> (r: Option<bool>)
    ensures
        r == json_bool_of(body@, key@),
{
    let value = match json_number_start(body, key) {
        Some(value) => value,
        None => return None,
    };
    let v = chars_of(value);
    let yes = vec!['t', 'r', 'u', 'e'];
    let no = vec!['f', 'a', 'l', 's', 'e'];
    assert(yes@ == seq!['t', 'r', 'u', 'e']);
    assert(no@ == seq!['f', 'a', 'l', 's', 'e']);
    if starts_with_chars(&v, &yes) {
        Some(true)
    } else if starts_with_chars(&v, &no) {
        Some(false)
    } else {
        None
    }
}

/// The first occurrence at or after `i` is the first match from there.
proof fn lemma_find_first(h: Seq<char>, p: Seq<char>, i: int, j: int)
    requires
        0 <= i <= j,
        matches_at(h, p, j),
        forall|k: int| i <= k < j ==> !matches_at(h, p, k),
    ensures
        find_from(h, p, i) == Some(j),
    decreases j - i,
{
    if i < j {
        assert(!matches_at(h, p, i));
        lemma_find_first(h, p, i + 1, j);
    }
}

proof fn lemma_digit_run_stops(s: Seq<char>, i: int, j: int)
    requires
        0 <= i <= j <= s.len(),
        forall|k: int| i <= k < j ==> is_digit(#[trigger] s[k]),
        j == s.len() || !is_digit(s[j]),
    ensures
        digit_run(s, i) == j,
    decreases j - i,
{
    if i < j {
        lemma_digit_run_stops(s, i + 1, j);
    }
}

/// A number written as the value of a key is read back: where the quoted
/// key does not occur before the place it is written, and no digit follows
/// the number, `json_u64` gives the number.
pub proof fn lemma_json_u64_reads_back(prefix: Seq<char>, key: Seq<char>, n: u64, rest: Seq<char>)
    requires
        forall|i: int|
            0 <= i < prefix.len() ==> !matches_at(
                prefix + (seq!['"'] + key + seq!['"']) + seq![':'] + decimal(n as nat) + rest,
                seq!['"'] + key + seq!['"'],
                i,
            ),
        rest.len() == 0 || !is_digit(rest[0]),
    ensures
        json_u64_of(
            prefix + (seq!['"'] + key + seq!['"']) + seq![':'] + decimal(n as nat) + rest,
            key,
        ) == Some(n),
{
    let needle = seq!['"'] + key + seq!['"'];
    let d = decimal(n as nat);
    let body = prefix + needle + seq![':'] + d + rest;
    let p = prefix.len() as int;
    let a = p + needle.len();
    lemma_parse_decimal(n as nat);
    assert(body.subrange(p, a) =~= needle);
    lemma_find_first(body, needle, 0, p);
    assert(body.subrange(a, a + 1) =~= seq![':']);
    lemma_find_first(body, seq![':'], a, a);
    assert(body[a + 1] == d[0]);
    assert(is_digit(d[0]));
    assert(!is_space(d[0]));
    assert(skip_space(body, a + 1) == a + 1);
    let v = body.skip(a + 1);
    assert(v =~= d + rest);
    assert forall|k: int| 0 <= k < d.len() implies is_digit(#[trigger] v[k]) by {
        assert(v[k] == d[k]);
    }
    if rest.len() > 0 {
        assert(v[d.len() as int] == rest[0]);
    }
    lemma_digit_run_stops(v, 0, d.len() as int);
    assert(v.take(d.len() as int) =~= d);
}

// ---------------------------------------------------------------------------
// Base64
// ---------------------------------------------------------------------------
/// The base64 digit for a six-bit value.
pub open spec fn sextet_char(d: nat) -> char {
    if d < 26 {
        (65 + d) as char
    } else if d < 52 {
        (97 + d - 26) as char
    } else if d < 62 {
        (48 + d - 52) as char
    } else if d == 62 {
        '+'
    } else {
        '/'
    }
}

/// The four base64 digits for one group of bytes `a b c`, of which the first
/// `present` are real; missing digits are written as `=`.
pub open spec fn base64_group(a: nat, b: nat, c: nat, present: nat) -> Seq<char> {
    let t = a * 65536 + b * 256 + c;
    seq![
        sextet_char(t / 262144),
        sextet_char((t / 4096) % 64),
        if present >= 2 {
            sextet_char((t / 64) % 64)
        } else {
            '='
        },
        if present >= 3 {
            sextet_char(t % 64)
        } else {
            '='
        },
    ]
}

/// Standard base64 (RFC 4648, with padding) of a byte sequence.
pub open spec fn base64_of(s: Seq<u8>) -> Seq<char>
    decreases s.len(),
{
    if s.len() == 0 {
        seq![]
    } else if s.len() == 1 {
        base64_group(s[0] as nat, 0, 0, 1)
    } else if s.len() == 2 {
        base64_group(s[0] as nat, s[1] as nat, 0, 2)
    } else {
        base64_group(s[0] as nat, s[1] as nat, s[2] as nat, 3) + base64_of(s.skip(3))
    }
}

fn sextet_char_exec(d: u32) -> (c: char)
    requires
        d < 64,
    ensures
        c == sextet_char(d as nat),
{
    if d < 26 {
        ((d + 65) as u8) as char
    } else if d < 52 {
        ((d - 26 + 97) as u8) as char
    } else if d < 62 {
        ((d - 52 + 48) as u8) as char
    } else if d == 62 {
        '+'
    } else {
        '/'
    }
}

proof fn lemma_triple(a: u32, b: u32, c: u32)
    requires
        a < 256,
        b < 256,
        c < 256,
    ensures
        (a << 16u32 | b << 8u32 | c) == a * 65536 + b * 256 + c,
        ((a << 16u32 | b << 8u32 | c) >> 18u32) & 63 == (a * 65536 + b * 256 + c) / 262144,
        ((a << 16u32 | b << 8u32 | c) >> 12u32) & 63 == ((a * 65536 + b * 256 + c) / 4096) % 64,
        ((a << 16u32 | b << 8u32 | c) >> 6u32) & 63 == ((a * 65536 + b * 256 + c) / 64) % 64,
        (a << 16u32 | b << 8u32 | c) & 63 == (a * 65536 + b * 256 + c) % 64,
{
    assert((a << 16u32 | b << 8u32 | c) == a * 65536 + b * 256 + c) by (bit_vector)
        requires
            a < 256,
            b < 256,
            c < 256,
    ;
    let t = a * 65536 + b * 256 + c;
    assert(t < 16777216);
    let tt = t as u32;
    assert((tt >> 18u32) & 63 == tt / 262144) by (bit_vector)
        requires
            tt < 16777216,
    ;
    assert((tt >> 12u32) & 63 == (tt / 4096) % 64) by (bit_vector);
    assert((tt >> 6u32) & 63 == (tt / 64) % 64) by (bit_vector);
    assert(tt & 63 == tt % 64) by (bit_vector);
}

/// One step of the encoding: the encoding of what remains from `index` is the
/// group that starts there, followed by the encoding of what follows it.
proof fn lemma_base64_step(input: Seq<u8>, index: int)
    requires
        0 <= index < input.len(),
    ensures
        ({
            let rest = input.skip(index);
            let n = input.len() - index;
            let b: nat = if n > 1 { input[index + 1] as nat } else { 0 };
            let c: nat = if n > 2 { input[index + 2] as nat } else { 0 };
            let present: nat = if n >= 3 { 3 } else { n as nat };
            let next = if n <= 3 { input.len() as int } else { index + 3 };
            base64_of(rest) == base64_group(input[index] as nat, b, c, present) + base64_of(
                input.skip(next),
            )
        }),
{
    let rest = input.skip(index);
    let n = input.len() - index;
    assert(input.skip(input.len() as int) =~= Seq::<u8>::empty());
    if n > 3 {
        assert(rest.skip(3) =~= input.skip(index + 3));
    } else if n == 3 {
        assert(rest.skip(3) =~= Seq::<u8>::empty());
    }
}

/// Base64 of `input`, as HTTP basic authentication writes it.
pub fn base64(input: &[u8]) -> (r: String)
    ensures
        r@ == base64_of(input@),
{
    let mut output = String::new();
    let n = input.len();
    let mut index: usize = 0;
    assert(input@.skip(0) =~= input@);
    while index < n
        invariant
            index <= n,
            n == input@.len(),
            base64_of(input@) == output@ + base64_of(input@.skip(index as int)),
        decreases n - index,
    {
        let a = input[index] as u32;
        let b: u32 = if n - index > 1 {
            input[index + 1] as u32
        } else {
            0
        };
        let c: u32 = if n - index > 2 {
            input[index + 2] as u32
        } else {
            0
        };
        proof {
            lemma_triple(a, b, c);
            lemma_base64_step(input@, index as int);
        }
        let triple = (a << 16u32) | (b << 8u32) | c;
        let c0 = sextet_char_exec((triple >> 18u32) & 63);
        let c1 = sextet_char_exec((triple >> 12u32) & 63);
        let c2 = if n - index > 1 {
            sextet_char_exec((triple >> 6u32) & 63)
        } else {
            '='
        };
        let c3 = if n - index > 2 {
            sextet_char_exec(triple & 63)
        } else {
            '='
        };
        let ghost present: nat = if n - index >= 3 {
            3
        } else {
            (n - index) as nat
        };
        assert(base64_group(a as nat, b as nat, c as nat, present) == seq![c0, c1, c2, c3]);
        let ghost before = output@;
        output.push(c0);
        output.push(c1);
        output.push(c2);
        output.push(c3);
        assert(output@ == before + seq![c0, c1, c2, c3]);
        if n - index <= 3 {
            index = n;
        } else {
            index = index + 3;
        }
    }
    assert(input@.skip(index as int) =~= Seq::<u8>::empty());
    output
}

/// Base64 text is four digits for every started group of three bytes.
pub proof fn lemma_base64_length(s: Seq<u8>)
    ensures
        base64_of(s).len() == 4 * ((s.len() + 2) / 3),
    decreases s.len(),
{
    if s.len() > 2 {
        lemma_base64_length(s.skip(3));
    }
}

/// Base64 of a concatenation whose first part is made of whole groups is the
/// concatenation of the two encodings.
pub proof fn lemma_base64_concat(s: Seq<u8>, t: Seq<u8>)
    requires
        s.len() % 3 == 0,
    ensures
        base64_of(s + t) == base64_of(s) + base64_of(t),
    decreases s.len(),
{
    if s.len() == 0 {
        assert(s + t =~= t);
    } else {
        assert((s + t).skip(3) =~= s.skip(3) + t);
        lemma_base64_concat(s.skip(3), t);
        assert((s + t)[0] == s[0] && (s + t)[1] == s[1] && (s + t)[2] == s[2]);
    }
}

/// The six-bit value of a base64 digit (0 for any other character).
pub open spec fn sextet_value(c: char) -> nat {
    let n = c as int;
    if 65 <= n <= 90 {
        (n - 65) as nat
    } else if 97 <= n <= 122 {
        (n - 71) as nat
    } else if 48 <= n <= 57 {
        (n + 4) as nat
    } else if c == '+' {
        62
    } else if c == '/' {
        63
    } else {
        0
    }
}

/// The bytes of one group of four base64 digits: three, or fewer where the
/// group ends in `=` padding.
pub open spec fn group_bytes(q: Seq<char>) -> Seq<u8> {
    let v2 = if q[2] == '=' {
        0
    } else {
        sextet_value(q[2])
    };
    let v3 = if q[3] == '=' {
        0
    } else {
        sextet_value(q[3])
    };
    let t = sextet_value(q[0]) * 262144 + sextet_value(q[1]) * 4096 + v2 * 64 + v3;
    let bytes = seq![(t / 65536) as u8, ((t / 256) % 256) as u8, (t % 256) as u8];
    if q[2] == '=' {
        bytes.take(1)
    } else if q[3] == '=' {
        bytes.take(2)
    } else {
        bytes
    }
}

/// Decodes padded base64 text, group by group.
pub open spec fn base64_decode(s: Seq<char>) -> Seq<u8>
    decreases s.len(),
{
    if s.len() < 4 {
        seq![]
    } else {
        group_bytes(s.take(4)) + base64_decode(s.skip(4))
    }
}

proof fn lemma_sextet(d: nat)
    requires
        d < 64,
    ensures
        sextet_value(sextet_char(d)) == d,
        sextet_char(d) != '=',
{
}

proof fn lemma_group_arith(a: int, b: int, c: int)
    requires
        0 <= a < 256,
        0 <= b < 256,
        0 <= c < 256,
    ensures
        ({
            let t = a * 65536 + b * 256 + c;
            &&& t == (t / 262144) * 262144 + ((t / 4096) % 64) * 4096 + ((t / 64) % 64) * 64 + t
                % 64
            &&& t / 65536 == a
            &&& (t / 256) % 256 == b
            &&& t % 256 == c
            &&& c == 0 ==> t % 64 == 0
            &&& b == 0 && c == 0 ==> (t / 64) % 64 == 0
            &&& t / 262144 < 64
        }),
{
    let t = a * 65536 + b * 256 + c;
    assert(t / 65536 == a);
    assert(t / 256 == a * 256 + b);
    assert((t / 256) % 256 == b);
    assert(t % 256 == c);
    let q64 = t / 64;
    assert(t == q64 * 64 + t % 64);
    let q4096 = q64 / 64;
    assert(q4096 == t / 4096) by {
        vstd::arithmetic::div_mod::lemma_div_denominator(t, 64, 64);
    }
    assert(q64 == q4096 * 64 + q64 % 64);
    assert(q4096 == (q4096 / 64) * 64 + q4096 % 64);
    assert(q4096 / 64 == t / 262144) by {
        vstd::arithmetic::div_mod::lemma_div_denominator(t, 4096, 64);
    }
    if c == 0 {
        assert(t == (a * 1024 + b * 4) * 64);
        vstd::arithmetic::div_mod::lemma_mod_multiples_basic(a * 1024 + b * 4, 64);
    }
    if b == 0 && c == 0 {
        assert(t == (a * 16) * 4096);
        assert(q64 == (a * 16) * 64);
        vstd::arithmetic::div_mod::lemma_mod_multiples_basic(a * 16, 64);
    }
}

proof fn lemma_group(a: nat, b: nat, c: nat, present: nat)
    requires
        a < 256,
        b < 256,
        c < 256,
        1 <= present <= 3,
        present < 3 ==> c == 0,
        present < 2 ==> b == 0,
    ensures
        group_bytes(base64_group(a, b, c, present)) == seq![a as u8, b as u8, c as u8].take(
            present as int,
        ),
{
    reveal(group_bytes);
    let t = a * 65536 + b * 256 + c;
    lemma_group_arith(a as int, b as int, c as int);
    let d0 = t / 262144;
    let d1 = (t / 4096) % 64;
    let d2 = (t / 64) % 64;
    let d3 = t % 64;
    lemma_sextet(d0);
    lemma_sextet(d1);
    lemma_sextet(d2);
    lemma_sextet(d3);
    let q = base64_group(a, b, c, present);
    assert(q[0] == sextet_char(d0) && q[1] == sextet_char(d1));
    let v2 = if q[2] == '=' {
        0
    } else {
        sextet_value(q[2])
    };
    let v3 = if q[3] == '=' {
        0
    } else {
        sextet_value(q[3])
    };
    assert(v2 == d2);
    assert(v3 == d3);
    let bytes = seq![(t / 65536) as u8, ((t / 256) % 256) as u8, (t % 256) as u8];
    assert(bytes =~= seq![a as u8, b as u8, c as u8]);
    if present == 1 {
        assert(group_bytes(q) =~= bytes.take(1));
    } else if present == 2 {
        assert(group_bytes(q) =~= bytes.take(2));
    } else {
        assert(group_bytes(q) =~= bytes);
    }
}

/// Base64 text decodes back to exactly the bytes it was made from.
pub proof fn lemma_base64_decodes(s: Seq<u8>)
    ensures
        base64_decode(base64_of(s)) == s,
    decreases s.len(),
{
    let e = base64_of(s);
    if s.len() == 0 {
        assert(base64_decode(e) =~= s);
    } else if s.len() < 3 {
        let b = if s.len() == 2 {
            s[1] as nat
        } else {
            0
        };
        lemma_group(s[0] as nat, b, 0, s.len());
        assert(e.len() == 4);
        assert(e.take(4) =~= e);
        assert(e.skip(4) =~= Seq::<char>::empty());
        assert(base64_decode(e) == group_bytes(e) + base64_decode(Seq::<char>::empty()));
        assert(seq![s[0], b as u8, 0u8].take(s.len() as int) =~= s);
        assert(base64_decode(e) =~= s);
    } else {
        let rest = s.skip(3);
        lemma_group(s[0] as nat, s[1] as nat, s[2] as nat, 3);
        lemma_base64_decodes(rest);
        let g = base64_group(s[0] as nat, s[1] as nat, s[2] as nat, 3);
        assert(e == g + base64_of(rest));
        assert(e.take(4) =~= g);
        assert(e.skip(4) =~= base64_of(rest));
        assert(base64_decode(e) == group_bytes(g) + base64_decode(base64_of(rest)));
        assert(seq![s[0], s[1], s[2]].take(3) + rest =~= s);
    }
}

// ---------------------------------------------------------------------------
// The JSON-RPC exchange
// ---------------------------------------------------------------------------
/// The JSON-RPC request body that calls `method` without parameters.
pub open spec fn rpc_body_of(method: Seq<char>) -> Seq<char> {
    "{\"jsonrpc\":\"1.0\",\"id\":\"dash\",\"method\":\""@ + method + "\",\"params\":[]}"@
}

/// The HTTP request that calls `method`, authenticated with the cookie.
pub open spec fn rpc_request_of(cookie: Seq<char>, method: Seq<char>) -> Seq<char> {
    let body = rpc_body_of(method);
    "POST / HTTP/1.1\r\nHost: 127.0.0.1\r\nAuthorization: Basic "@ + base64_of(
        encode_utf8(cookie),
    ) + "\r\nContent-Type: application/json\r\nContent-Length: "@ + decimal(
        (encode_utf8(body).len() as usize) as nat,
    ) + "\r\nConnection: close\r\n\r\n"@ + body
}

/// The body of an HTTP reply, if the reply has one and it carries a result
/// or a null error; the error message otherwise.
pub open spec fn reply_body_of(response: Seq<char>) -> Result<Seq<char>, Seq<char>> {
    match split_once(response, "\r\n\r\n"@) {
        None => Err("bad HTTP response"@),
        Some((_, body)) => if contains(body, "\"error\":null"@) || contains(body, "\"result\":"@) {
            Ok(body)
        } else {
            Err("RPC error"@)
        },
    }
}

/// The node's cookie as read from its cookie file: the file without
/// surrounding whitespace.
pub fn cookie_from_file(text: &str) -> (r: String)
    ensures
        r@ == trim(text@),
{
    let v = chars_of(text);
    let t = trim_chars(&v);
    string_of(&t)
}

/// A JSON-RPC client of the local node, authenticated by its cookie.
pub struct Rpc {
    pub cookie: String,
}

impl Rpc {
    pub fn new(cookie: String) -> (r: Rpc)
        ensures
            r.cookie == cookie,
    {
        Rpc { cookie }
    }

    /// The HTTP request text that calls `method`.
    pub fn request(&self, method: &str) -> (r: String)
        ensures
            r@ == rpc_request_of(self.cookie@, method@),
    {
        let mut body = String::new();
        push_str(&mut body, "{\"jsonrpc\":\"1.0\",\"id\":\"dash\",\"method\":\"");
        push_str(&mut body, method);
        push_str(&mut body, "\",\"params\":[]}");
        assert(body@ == rpc_body_of(method@));
        let auth = base64(self.cookie.as_str().as_bytes());
        let length = body.as_str().len();
        let mut request = String::new();
        push_str(&mut request, "POST / HTTP/1.1\r\nHost: 127.0.0.1\r\nAuthorization: Basic ");
        push_str(&mut request, auth.as_str());
        push_str(&mut request, "\r\nContent-Type: application/json\r\nContent-Length: ");
        push_decimal(&mut request, length as u64);
        push_str(&mut request, "\r\nConnection: close\r\n\r\n");
        push_str(&mut request, body.as_str());
        assert(auth@ == base64_of(encode_utf8(self.cookie@)));
        assert(length == (encode_utf8(body@).len() as usize));
        assert(request@ == rpc_request_of(self.cookie@, method@));
        request
    }
}

/// The body of the node's HTTP reply, or why it is not usable.
pub fn reply_body(response: &str) -> (r: Result<String, String>)
    ensures
        match r {
            Ok(b) => reply_body_of(response@) == Ok::<Seq<char>, Seq<char>>(b@),
            Err(e) => reply_body_of(response@) == Err::<Seq<char>, Seq<char>>(e@),
        },
{
    let v = chars_of(response);
    let sep = chars_of("\r\n\r\n");
    let i = match find(&v, &sep) {
        Some(i) => i,
        None => {
            let mut e = String::new();
            push_str(&mut e, "bad HTTP response");
            return Err(e);
        },
    };
    proof {
        lemma_find_from(v@, sep@, 0);
    }
    assert(matches_at(v@, sep@, i as int));
    assert(i + sep.len() <= v.len());
    let start = i + sep.len();
    let body = slice_chars(&v, start, v.len());
    assert(body@ == v@.skip(i + sep.len()));
    let err_null = chars_of("\"error\":null");
    let result = chars_of("\"result\":");
    if find(&body, &err_null).is_some() || find(&body, &result).is_some() {
        Ok(string_of(&body))
    } else {
        let mut e = String::new();
        push_str(&mut e, "RPC error");
        Err(e)
    }
}

} // verus!
