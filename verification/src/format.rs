//! Short number and text formats that fit the dashboard's panels.
use vstd::prelude::*;
use crate::text::{chars_of, decimal, push_decimal, slice_chars, string_of};

verus! {

/// A number written with at least two digits (`{:02}`).
pub open spec fn two_digits(n: nat) -> Seq<char> {
    if n < 10 {
        seq!['0'] + decimal(n)
    } else {
        decimal(n)
    }
}

fn push_two_digits(s: &mut String, n: u64)
    ensures
        final(s)@ == old(s)@ + two_digits(n as nat),
{
    if n < 10 {
        s.push('0');
    }
    push_decimal(s, n);
}

/// An uptime as `<days>d <hh>h <mm>m`, without the days part under a day.
pub open spec fn uptime_text(seconds: nat) -> Seq<char> {
    let days = seconds / 86400;
    let hours = (seconds / 3600) % 24;
    let minutes = (seconds / 60) % 60;
    let tail = two_digits(hours) + seq!['h', ' '] + two_digits(minutes) + seq!['m'];
    if days > 0 {
        decimal(days) + seq!['d', ' '] + tail
    } else {
        tail
    }
}

/// Formats an uptime given in seconds.
pub fn format_uptime(seconds: u64) -> (r: String)
    ensures
        r@ == uptime_text(seconds as nat),
{
    let days = seconds / 86_400;
    let hours = (seconds / 3_600) % 24;
    let minutes = (seconds / 60) % 60;
    let mut s = String::new();
    if days > 0 {
        push_decimal(&mut s, days);
        s.push('d');
        s.push(' ');
    }
    push_two_digits(&mut s, hours);
    s.push('h');
    s.push(' ');
    push_two_digits(&mut s, minutes);
    s.push('m');
    s
}

/// A byte count in decimal units, truncated: `T`, `G`, `M` or `K`.
pub open spec fn size_text(bytes: nat) -> Seq<char> {
    if bytes >= 1_000_000_000_000 {
        decimal(bytes / 1_000_000_000_000).push('T')
    } else if bytes >= 1_000_000_000 {
        decimal(bytes / 1_000_000_000).push('G')
    } else if bytes >= 1_000_000 {
        decimal(bytes / 1_000_000).push('M')
    } else {
        decimal(bytes / 1_000).push('K')
    }
}

/// A size is a count of the largest decimal unit that the size reaches,
/// followed by the unit's letter: from 1 to 999 megabytes (`M`) or gigabytes
/// (`G`), any number of terabytes (`T`), and kilobytes (`K`) below a
/// megabyte, with 0 only for fewer than 1000 bytes.
pub proof fn lemma_size_text_units(bytes: nat)
    ensures
        exists|q: nat, unit: char|
            #![trigger decimal(q).push(unit)]
            size_text(bytes) == decimal(q).push(unit) && {
                ||| unit == 'K' && q == bytes / 1000 && bytes < 1_000_000
                ||| unit == 'M' && q == bytes / 1_000_000 && 1 <= q < 1000
                ||| unit == 'G' && q == bytes / 1_000_000_000 && 1 <= q < 1000
                ||| unit == 'T' && q == bytes / 1_000_000_000_000 && q >= 1
            } && (bytes >= 1000 ==> q >= 1),
{
    if bytes >= 1_000_000_000_000 {
        let q = bytes / 1_000_000_000_000;
        assert(size_text(bytes) == decimal(q).push('T'));
    } else if bytes >= 1_000_000_000 {
        let q = bytes / 1_000_000_000;
        assert(size_text(bytes) == decimal(q).push('G'));
    } else if bytes >= 1_000_000 {
        let q = bytes / 1_000_000;
        assert(size_text(bytes) == decimal(q).push('M'));
    } else {
        let q = bytes / 1000;
        assert(size_text(bytes) == decimal(q).push('K'));
    }
}

/// Formats a byte count.
pub fn format_size(bytes: u64) -> (r: String)
    ensures
        r@ == size_text(bytes as nat),
{
    let mut s = String::new();
    if bytes >= 1_000_000_000_000 {
        push_decimal(&mut s, bytes / 1_000_000_000_000);
        s.push('T');
    } else if bytes >= 1_000_000_000 {
        push_decimal(&mut s, bytes / 1_000_000_000);
        s.push('G');
    } else if bytes >= 1_000_000 {
        push_decimal(&mut s, bytes / 1_000_000);
        s.push('M');
    } else {
        push_decimal(&mut s, bytes / 1_000);
        s.push('K');
    }
    s
}

/// At most the first `max_chars` characters of `text`.
pub fn fit(text: &str, max_chars: usize) -> (r: String)
    ensures
        r@ == text@.take(if text@.len() < max_chars { text@.len() as int } else { max_chars as int }),
{
    let v = chars_of(text);
    let n = if v.len() < max_chars {
        v.len()
    } else {
        max_chars
    };
    let w = slice_chars(&v, 0, n);
    assert(w@ == v@.take(n as int));
    string_of(&w)
}

/// Ten to the power `k`.
pub open spec fn pow10(k: nat) -> nat
    decreases k,
{
    if k == 0 {
        1
    } else {
        10 * pow10((k - 1) as nat)
    }
}

/// Every number has at least one digit, and two from ten on.
pub proof fn lemma_decimal_nonempty(n: nat)
    ensures
        decimal(n).len() >= 1,
        n >= 10 ==> decimal(n).len() >= 2,
    decreases n,
{
    if n >= 10 {
        lemma_decimal_nonempty(n / 10);
    }
}

/// A number below `10^k` has at most `k` digits.
pub proof fn lemma_decimal_len(n: nat, k: nat)
    requires
        k >= 1,
        n < pow10(k),
    ensures
        decimal(n).len() <= k,
    decreases k,
{
    if n >= 10 {
        if k == 1 {
            assert(pow10(0) == 1);
        }
        let b2 = pow10((k - 1) as nat);
        assert(n / 10 < b2) by (nonlinear_arith)
            requires
                n < 10 * b2,
        ;
        lemma_decimal_len(n / 10, (k - 1) as nat);
    }
}

/// A size never takes more than nine characters.
pub proof fn lemma_size_text_short(bytes: nat)
    requires
        bytes <= u64::MAX,
    ensures
        size_text(bytes).len() <= 9,
        bytes < 1_000_000_000_000 ==> size_text(bytes).len() <= 4,
{
    reveal_with_fuel(pow10, 9);
    assert(pow10(3) == 1000);
    assert(pow10(8) == 100000000);
    if bytes >= 1_000_000_000_000 {
        lemma_decimal_len(bytes / 1_000_000_000_000, 8);
    } else if bytes >= 1_000_000_000 {
        lemma_decimal_len(bytes / 1_000_000_000, 3);
    } else if bytes >= 1_000_000 {
        lemma_decimal_len(bytes / 1_000_000, 3);
    } else {
        lemma_decimal_len(bytes / 1_000, 3);
    }
}

/// An uptime never takes more than 24 characters, and exactly 7 under a day.
pub proof fn lemma_uptime_text_short(seconds: nat)
    requires
        seconds <= u64::MAX,
    ensures
        uptime_text(seconds).len() <= 24,
        seconds < 86400 ==> uptime_text(seconds).len() == 7,
{
    reveal_with_fuel(pow10, 16);
    assert(pow10(2) == 100);
    assert(pow10(15) == 1000000000000000);
    let hours = (seconds / 3600) % 24;
    let minutes = (seconds / 60) % 60;
    lemma_decimal_len(hours, 2);
    lemma_decimal_len(minutes, 2);
    if seconds / 86400 > 0 {
        lemma_decimal_len(seconds / 86400, 15);
    }
    lemma_decimal_nonempty(hours);
    lemma_decimal_nonempty(minutes);
}

} // verus!
