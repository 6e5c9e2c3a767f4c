//! Reading the kernel's text reports: `/proc/<pid>/status`, `/proc/meminfo`,
//! `/proc/loadavg`, `/proc/uptime` and `/proc/mounts`.
use vstd::prelude::*;
use crate::text::{
    all_digits, chars_of, contains, find, first_word, first_word_of, is_digit, is_digit_char,
    lines, lines_from, matches_at_exec, next_line, next_word, parse_u64, parse_u64_chars,
    push_chars, slice_chars, split_once, split_once_chars, string_of, words, words_from,
};

verus! {

/// The number in a `Name: value ...` line whose name is `key`: the first
/// word after the first colon, read as a `u64`.
pub open spec fn line_field(line: Seq<char>, key: Seq<char>) -> Option<u64> {
    match split_once(line, seq![':']) {
        Some((name, value)) => if name == key {
            match first_word(value) {
                Some(w) => parse_u64(w),
                None => None,
            }
        } else {
            None
        },
        None => None,
    }
}

/// The field of the first line, in order, that yields one for `key`.
pub open spec fn find_field(ls: Seq<Seq<char>>, key: Seq<char>) -> Option<u64>
    decreases ls.len(),
{
    if ls.len() == 0 {
        None
    } else {
        match line_field(ls[0], key) {
            Some(v) => Some(v),
            None => find_field(ls.drop_first(), key),
        }
    }
}

/// Whether two character vectors are equal.
pub fn chars_eq(a: &Vec<char>, b: &Vec<char>) -> (r: bool)
    ensures
        r == (a@ == b@),
{
    if a.len() != b.len() {
        return false;
    }
    let r = matches_at_exec(a, b, 0);
    assert(a@.subrange(0, b.len() as int) == a@);
    r
}

fn line_field_of(line: &Vec<char>, key: &Vec<char>) -> (r: Option<u64>)
    ensures
        r == line_field(line@, key@),
{
    let colon = vec![':'];
    assert(colon@ == seq![':']);
    match split_once_chars(line, &colon) {
        None => None,
        Some((name, value)) => {
            if !chars_eq(&name, key) {
                return None;
            }
            match first_word_of(&value) {
                None => None,
                Some(w) => parse_u64_chars(&w),
            }
        },
    }
}

/// The field named `key` in the first line of `v`, from index `i`, that has one.
fn find_field_from(v: &Vec<char>, key: &Vec<char>) -> (r: Option<u64>)
    ensures
        r == find_field(lines(v@), key@),
{
    let mut i: usize = 0;
    while i < v.len()
        invariant
            i <= v.len(),
            find_field(lines_from(v@, i as int), key@) == find_field(lines(v@), key@),
        decreases v.len() - i,
    {
        let (line, next) = next_line(v, i);
        let r = line_field_of(&line, key);
        let ghost rest = lines_from(v@, next as int);
        assert((seq![line@] + rest)[0] == line@);
        assert((seq![line@] + rest).drop_first() == rest);
        if r.is_some() {
            return r;
        }
        i = next;
    }
    None
}

/// The value of the `key:` line in a `/proc/<pid>/status` report (kB).
pub fn status_kib(text: &str, key: &str) -> (r: Option<u64>)
    ensures
        r == find_field(lines(text@), key@),
{
    let v = chars_of(text);
    let k = chars_of(key);
    find_field_from(&v, &k)
}

/// The `key:` value of a `/proc/meminfo` report in MiB (kB / 1024), or 0
/// where no line gives one.
pub fn meminfo_value(text: &str, key: &str) -> (r: u64)
    ensures
        r == match find_field(lines(text@), key@) {
            Some(kib) => kib / 1024,
            None => 0,
        },
{
    match status_kib(text, key) {
        Some(kib) => kib / 1024,
        None => 0,
    }
}

/// The first word of a report, if any (such as the seconds of `/proc/uptime`).
pub fn first_word_text(text: &str) -> (r: Option<String>)
    ensures
        r matches Some(w) ==> first_word(text@) == Some(w@),
        r is None ==> first_word(text@) is None,
{
    let v = chars_of(text);
    match first_word_of(&v) {
        Some(w) => Some(string_of(&w)),
        None => None,
    }
}

/// Words joined by single spaces.
pub open spec fn join_words(ws: Seq<Seq<char>>) -> Seq<char>
    decreases ws.len(),
{
    if ws.len() == 0 {
        seq![]
    } else if ws.len() == 1 {
        ws[0]
    } else {
        join_words(ws.drop_last()) + seq![' '] + ws.last()
    }
}

/// The three load averages of `/proc/loadavg`, space-separated (fewer if the
/// report has fewer words), or `- - -` where there is no report.
pub open spec fn load_summary_of(report: Option<Seq<char>>) -> Seq<char> {
    match report {
        Some(t) => {
            let ws = words(t);
            join_words(
                if ws.len() < 3 {
                    ws
                } else {
                    ws.take(3)
                },
            )
        },
        None => seq!['-', ' ', '-', ' ', '-'],
    }
}

/// The load line shown on screen, built from the `/proc/loadavg` report.
pub fn load_summary(report: Option<&str>) -> (r: String)
    ensures
        r@ == load_summary_of(
            match report {
                Some(t) => Some(t@),
                None => None,
            },
        ),
{
    match report {
        None => {
            let mut s = String::new();
            s.push('-');
            s.push(' ');
            s.push('-');
            s.push(' ');
            s.push('-');
            s
        },
        Some(t) => {
            let v = chars_of(t);
            let ghost ws = words(v@);
            let mut s = String::new();
            let mut pos: usize = 0;
            let mut count: usize = 0;
            while count < 3
                invariant
                    pos <= v.len(),
                    count <= 3,
                    count <= ws.len(),
                    ws == words(v@),
                    words_from(v@, pos as int) == ws.skip(count as int),
                    s@ == join_words(ws.take(count as int)),
                ensures
                    s@ == join_words(ws.take(count as int)),
                    count == 3 || ws.take(count as int) == ws,
                decreases 3 - count,
            {
                match next_word(&v, pos) {
                    None => {
                        assert(ws.take(count as int) == ws);
                        break ;
                    },
                    Some((a, b)) => {
                        let w = slice_chars(&v, a, b);
                        let ghost prev = ws.take(count as int);
                        assert(ws.skip(count as int)[0] == w@);
                        assert(ws[count as int] == w@);
                        if count > 0 {
                            s.push(' ');
                        }
                        push_chars(&mut s, &w);
                        assert(ws.take(count + 1).drop_last() == prev);
                        assert(ws.take(count + 1).last() == w@);
                        if count == 0 {
                            assert(ws.take(1) == seq![w@]);
                        }
                        assert(ws.skip(count + 1) == ws.skip(count as int).drop_first());
                        count = count + 1;
                        pos = b;
                    },
                }
            }
            s
        },
    }
}

/// A `/proc/mounts` line whose second word (the mount point) is `mount_point`.
pub open spec fn mounted_at(line: Seq<char>, mount_point: Seq<char>) -> bool {
    words(line).len() > 1 && words(line)[1] == mount_point
}

/// Some line, in order, mounts `mount_point`.
pub open spec fn any_mounted(ls: Seq<Seq<char>>, mount_point: Seq<char>) -> bool
    decreases ls.len(),
{
    ls.len() > 0 && (mounted_at(ls[0], mount_point) || any_mounted(ls.drop_first(), mount_point))
}

fn mounted_at_exec(line: &Vec<char>, mount_point: &Vec<char>) -> (r: bool)
    ensures
        r == mounted_at(line@, mount_point@),
{
    match next_word(line, 0) {
        None => false,
        Some((_, b)) => match next_word(line, b) {
            None => false,
            Some((c, d)) => {
                let w = slice_chars(line, c, d);
                chars_eq(&w, mount_point)
            },
        },
    }
}

/// Whether the `/proc/mounts` report lists a file system mounted at `mount_point`.
pub fn is_mounted(report: &str, mount_point: &str) -> (r: bool)
    ensures
        r == any_mounted(lines(report@), mount_point@),
{
    let v = chars_of(report);
    let m = chars_of(mount_point);
    let mut i: usize = 0;
    while i < v.len()
        invariant
            i <= v.len(),
            any_mounted(lines_from(v@, i as int), m@) == any_mounted(lines(v@), m@),
            m@ == mount_point@,
            v@ == report@,
        decreases v.len() - i,
    {
        let (line, next) = next_line(&v, i);
        let ghost rest = lines_from(v@, next as int);
        assert((seq![line@] + rest)[0] == line@);
        assert((seq![line@] + rest).drop_first() == rest);
        if mounted_at_exec(&line, &m) {
            return true;
        }
        i = next;
    }
    false
}

/// A directory name under `/proc` made of decimal digits only (a process id).
pub fn is_pid_name(name: &str) -> (r: bool)
    ensures
        r == all_digits(name@),
{
    let v = chars_of(name);
    for i in 0..v.len()
        invariant
            v@ == name@,
            all_digits(v@.take(i as int)),
    {
        if !is_digit_char(v[i]) {
            assert(!is_digit(name@[i as int]));
            return false;
        }
        assert(v@.take(i + 1)[i as int] == v@[i as int]);
    }
    assert(v@.take(v.len() as int) == v@);
    true
}

/// A process command line that runs the node daemon.
pub fn is_core_command(cmdline: &str) -> (r: bool)
    ensures
        r == contains(cmdline@, "/bitcoind"@),
{
    let v = chars_of(cmdline);
    let p = chars_of("/bitcoind");
    find(&v, &p).is_some()
}

/// The resident memory (kB) that a `/proc` entry reports if it is the node's
/// process: its name is a process id, its command line (if it could be
/// read) names `/bitcoind`, and its status report (if it could be read)
/// has a `VmRSS` value. `None` otherwise.
pub open spec fn core_rss_of_entry(
    name: Seq<char>,
    cmdline: Option<Seq<char>>,
    status: Option<Seq<char>>,
) -> Option<u64> {
    if !all_digits(name) {
        None
    } else {
        match cmdline {
            Some(c) => if contains(c, "/bitcoind"@) {
                match status {
                    Some(t) => find_field(lines(t), "VmRSS"@),
                    None => None,
                }
            } else {
                None
            },
            None => None,
        }
    }
}

/// The resident memory (kB) of a `/proc` entry, if it is the node's process.
pub fn core_rss_of(name: &str, cmdline: Option<&str>, status: Option<&str>) -> (r: Option<u64>)
    ensures
        r == core_rss_of_entry(
            name@,
            match cmdline {
                Some(c) => Some(c@),
                None => None,
            },
            match status {
                Some(t) => Some(t@),
                None => None,
            },
        ),
{
    if !is_pid_name(name) {
        return None;
    }
    match cmdline {
        None => None,
        Some(c) => {
            if !is_core_command(c) {
                return None;
            }
            match status {
                None => None,
                Some(t) => status_kib(t, "VmRSS"),
            }
        },
    }
}

} // verus!
