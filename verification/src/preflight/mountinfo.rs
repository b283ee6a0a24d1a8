//! Reading `/proc/self/mountinfo`: which mount holds a path, and its filesystem type.

use vstd::prelude::*;

use crate::preflight::utf8_len;
use crate::text::{chars_of, has_prefix, is_white_space, char_is_white_space, string_from_chars};

verus! {

/// The value of an octal digit.
pub open spec fn octal_value(c: char) -> Option<nat> {
    if '0' <= c && c <= '7' {
        Some(((c as u32) - 48) as nat)
    } else {
        None
    }
}

/// The character of a three-digit octal escape (its value taken modulo 256), if all three
/// are octal digits.
pub open spec fn octal_escape(a: char, b: char, c: char) -> Option<char> {
    match (octal_value(a), octal_value(b), octal_value(c)) {
        (Some(x), Some(y), Some(z)) => Some(((x * 64 + y * 8 + z) % 256) as char),
        _ => None,
    }
}

/// Decodes a three-digit octal escape such as `040` (a space).
pub fn decode_octal_escape(first_digit: char, second_digit: char, third_digit: char) -> (r: Option<char>)
    ensures
        r == octal_escape(first_digit, second_digit, third_digit),
{
    if !('0' <= first_digit && first_digit <= '7') || !('0' <= second_digit && second_digit <= '7') || !(
    '0' <= third_digit && third_digit <= '7') {
        return None;
    }
    let x = first_digit as u32 - 48;
    let y = second_digit as u32 - 48;
    let z = third_digit as u32 - 48;
    let v = x * 64 + y * 8 + z;
    let byte = (v % 256) as u8;
    Some(byte as char)
}

/// A mount point as written in mountinfo, with its octal escapes decoded: a backslash and
/// three octal digits stand for one character; any other backslash sequence stays as written.
pub open spec fn decode_mount(s: Seq<char>) -> Seq<char>
    decreases s.len(),
{
    if s.len() == 0 {
        Seq::empty()
    } else if s[0] != '\\' {
        seq![s[0]] + decode_mount(s.drop_first())
    } else if s.len() >= 4 {
        match octal_escape(s[1], s[2], s[3]) {
            Some(c) => seq![c] + decode_mount(s.skip(4)),
            None => s.take(4) + decode_mount(s.skip(4)),
        }
    } else {
        s
    }
}

/// Decodes the octal escapes of a mountinfo path field.
pub fn decode_mountinfo_path(value: &str) -> (r: String)
    ensures
        r@ == decode_mount(value@),
{
    let s = chars_of(value);
    let n = s.len();
    let mut out: Vec<char> = Vec::new();
    let mut i: usize = 0;
    assert(s@.skip(0) =~= s@);
    assert(out@ + decode_mount(s@) =~= decode_mount(s@));
    while i < n
        invariant
            i <= n,
            n == s@.len(),
            decode_mount(s@) == out@ + decode_mount(s@.skip(i as int)),
        decreases n - i,
    {
        let ghost rest = s@.skip(i as int);
        if s[i] != '\\' {
            assert(rest.drop_first() =~= s@.skip(i + 1 as int));
            out.push(s[i]);
            i = i + 1;
        } else if n - i >= 4 {
            assert(rest.skip(4) =~= s@.skip(i + 4 as int));
            match decode_octal_escape(s[i + 1], s[i + 2], s[i + 3]) {
                Some(c) => {
                    out.push(c);
                },
                None => {
                    assert(rest.take(4) =~= seq![s@[i as int], s@[i + 1], s@[i + 2], s@[i + 3]]);
                    out.push(s[i]);
                    out.push(s[i + 1]);
                    out.push(s[i + 2]);
                    out.push(s[i + 3]);
                },
            }
            i = i + 4;
        } else {
            while i < n
                invariant
                    i <= n,
                    n == s@.len(),
                    decode_mount(s@) == out@ + s@.skip(i as int),
                decreases n - i,
            {
                assert(s@.skip(i as int) =~= seq![s@[i as int]] + s@.skip(i + 1 as int));
                out.push(s[i]);
                i = i + 1;
            }
        }
    }
    assert(s@.skip(n as int) =~= Seq::<char>::empty());
    assert(out@ =~= decode_mount(value@));
    string_from_chars(&out)
}

/// Whether `path` lies on the mount at `mount_point`: the root mount holds every absolute path;
/// another mount holds its own path and the paths below it.
pub open spec fn within_mount(path: Seq<char>, mount_point: Seq<char>) -> bool {
    if mount_point == seq!['/'] {
        has_prefix(path, seq!['/'])
    } else {
        path == mount_point || (has_prefix(path, mount_point) && has_prefix(
            path.skip(mount_point.len() as int),
            seq!['/'],
        ))
    }
}

fn prefix_matches(s: &Vec<char>, p: &Vec<char>) -> (r: bool)
    ensures
        r == has_prefix(s@, p@),
{
    if p.len() > s.len() {
        return false;
    }
    let mut k: usize = 0;
    while k < p.len()
        invariant
            k <= p@.len() <= s@.len(),
            forall|j: int| 0 <= j < k ==> s@[j] == p@[j],
        decreases p.len() - k,
    {
        if s[k] != p[k] {
            assert(s@.take(p@.len() as int)[k as int] != p@[k as int]);
            return false;
        }
        k = k + 1;
    }
    assert(s@.take(p@.len() as int) =~= p@);
    true
}

/// Whether `path` lies on the mount at `mount_point` (see [`within_mount`]).
pub fn path_is_within_mount(path: &str, mount_point: &str) -> (r: bool)
    ensures
        r == within_mount(path@, mount_point@),
{
    let p = chars_of(path);
    let m = chars_of(mount_point);
    if m.len() == 1 && m[0] == '/' {
        assert(m@ =~= seq!['/']);
        return p.len() > 0 && p[0] == '/' && {
            assert(p@.take(1) =~= seq![p@[0]]);
            true
        };
    }
    assert(m@ != seq!['/']);
    if prefix_matches(&p, &m) {
        if p.len() == m.len() {
            assert(p@.take(m@.len() as int) =~= p@);
            return true;
        }
        let c = p[m.len()];
        assert(p@.skip(m@.len() as int)[0] == c);
        assert(p@.skip(m@.len() as int).take(1) =~= seq![c]);
        if c == '/' {
            return true;
        }
        assert(p@ != m@);
        assert(!has_prefix(p@.skip(m@.len() as int), seq!['/'])) by {
            if has_prefix(p@.skip(m@.len() as int), seq!['/']) {
                assert(p@.skip(m@.len() as int).take(1)[0] == '/');
            }
        }
        return false;
    }
    assert(p@ != m@) by {
        if p@ == m@ {
            assert(p@.take(m@.len() as int) =~= p@);
        }
    }
    false
}

/// Drops one carriage return at the end of a line.
pub open spec fn strip_cr(line: Seq<char>) -> Seq<char> {
    if line.len() > 0 && line.last() == '\r' {
        line.drop_last()
    } else {
        line
    }
}

/// The finished lines and the unfinished last line of a text read so far.
pub open spec fn lines_acc(s: Seq<char>) -> (Seq<Seq<char>>, Seq<char>)
    decreases s.len(),
{
    if s.len() == 0 {
        (Seq::empty(), Seq::empty())
    } else {
        let prev = lines_acc(s.drop_last());
        if s.last() == '\n' {
            (prev.0.push(strip_cr(prev.1)), Seq::empty())
        } else {
            (prev.0, prev.1.push(s.last()))
        }
    }
}

/// The lines of a text as `str::lines` gives them: split at `\n`, a `\r` before it dropped,
/// and no empty line after a final `\n`.
pub open spec fn text_lines(s: Seq<char>) -> Seq<Seq<char>> {
    let acc = lines_acc(s);
    if acc.1.len() > 0 {
        acc.0.push(acc.1)
    } else {
        acc.0
    }
}

/// The finished words and the unfinished last word of a text read so far.
pub open spec fn words_acc(s: Seq<char>) -> (Seq<Seq<char>>, Seq<char>)
    decreases s.len(),
{
    if s.len() == 0 {
        (Seq::empty(), Seq::empty())
    } else {
        let prev = words_acc(s.drop_last());
        if is_white_space(s.last()) {
            if prev.1.len() > 0 {
                (prev.0.push(prev.1), Seq::empty())
            } else {
                prev
            }
        } else {
            (prev.0, prev.1.push(s.last()))
        }
    }
}

/// The words of a text as `str::split_whitespace` gives them.
pub open spec fn text_words(s: Seq<char>) -> Seq<Seq<char>> {
    let acc = words_acc(s);
    if acc.1.len() > 0 {
        acc.0.push(acc.1)
    } else {
        acc.0
    }
}

fn split_lines(s: &Vec<char>) -> (r: Vec<Vec<char>>)
    ensures
        r@.map_values(|l: Vec<char>| l@) == text_lines(s@),
{
    let mut done: Vec<Vec<char>> = Vec::new();
    let mut cur: Vec<char> = Vec::new();
    let mut i: usize = 0;
    while i < s.len()
        invariant
            i <= s@.len(),
            done@.map_values(|l: Vec<char>| l@) == lines_acc(s@.take(i as int)).0,
            cur@ == lines_acc(s@.take(i as int)).1,
        decreases s.len() - i,
    {
        assert(s@.take(i + 1 as int).drop_last() =~= s@.take(i as int));
        let c = s[i];
        if c == '\n' {
            let ghost prev = done@.map_values(|l: Vec<char>| l@);
            let mut line = cur;
            if line.len() > 0 && line[line.len() - 1] == '\r' {
                line.pop();
            }
            done.push(line);
            cur = Vec::new();
            assert(done@.map_values(|l: Vec<char>| l@) =~= prev.push(strip_cr(lines_acc(s@.take(i as int)).1)));
        } else {
            cur.push(c);
        }
        i = i + 1;
    }
    assert(s@.take(s@.len() as int) =~= s@);
    if cur.len() > 0 {
        let ghost prev = done@.map_values(|l: Vec<char>| l@);
        let ghost last = cur@;
        done.push(cur);
        assert(done@.map_values(|l: Vec<char>| l@) =~= prev.push(last));
    }
    done
}

fn split_words(s: &Vec<char>) -> (r: Vec<Vec<char>>)
    ensures
        r@.map_values(|l: Vec<char>| l@) == text_words(s@),
{
    let mut done: Vec<Vec<char>> = Vec::new();
    let mut cur: Vec<char> = Vec::new();
    let mut i: usize = 0;
    while i < s.len()
        invariant
            i <= s@.len(),
            done@.map_values(|l: Vec<char>| l@) == words_acc(s@.take(i as int)).0,
            cur@ == words_acc(s@.take(i as int)).1,
        decreases s.len() - i,
    {
        assert(s@.take(i + 1 as int).drop_last() =~= s@.take(i as int));
        let c = s[i];
        if char_is_white_space(c) {
            if cur.len() > 0 {
                let ghost prev = done@.map_values(|l: Vec<char>| l@);
                let ghost w = cur@;
                done.push(cur);
                cur = Vec::new();
                assert(done@.map_values(|l: Vec<char>| l@) =~= prev.push(w));
            }
        } else {
            cur.push(c);
        }
        i = i + 1;
    }
    assert(s@.take(s@.len() as int) =~= s@);
    if cur.len() > 0 {
        let ghost prev = done@.map_values(|l: Vec<char>| l@);
        let ghost last = cur@;
        done.push(cur);
        assert(done@.map_values(|l: Vec<char>| l@) =~= prev.push(last));
    }
    done
}

/// The position of the first ` - ` in `s` at or after `i`, or -1.
pub open spec fn separator_from(s: Seq<char>, i: nat) -> int
    decreases s.len() - i,
{
    if i + 3 > s.len() {
        -1
    } else if s.subrange(i as int, i + 3 as int) == seq![' ', '-', ' '] {
        i as int
    } else {
        separator_from(s, i + 1)
    }
}

/// What one mountinfo line tells about `probe`: the byte length of the mount point and the
/// filesystem type, when the line is well formed and its mount point holds `probe`.
pub open spec fn line_candidate(line: Seq<char>, probe: Seq<char>) -> Option<(nat, Seq<char>)> {
    let i = separator_from(line, 0);
    if i < 0 {
        None
    } else {
        let left = text_words(line.take(i));
        if left.len() < 5 {
            None
        } else {
            let mount = decode_mount(left[4]);
            if !within_mount(probe, mount) {
                None
            } else {
                let right = text_words(line.skip(i + 3));
                if right.len() == 0 {
                    None
                } else {
                    Some((utf8_len(mount), right[0]))
                }
            }
        }
    }
}

/// The best candidate among `lines`: the one with the longest mount point, the first of
/// those when several are as long.
pub open spec fn best_mount(lines: Seq<Seq<char>>, probe: Seq<char>) -> Option<(nat, Seq<char>)>
    decreases lines.len(),
{
    if lines.len() == 0 {
        None
    } else {
        let prev = best_mount(lines.drop_last(), probe);
        match line_candidate(lines.last(), probe) {
            None => prev,
            Some(c) => match prev {
                None => Some(c),
                Some(b) => if c.0 > b.0 {
                    Some(c)
                } else {
                    prev
                },
            },
        }
    }
}

/// The filesystem type of the mount that holds `probe` according to `mountinfo`.
pub open spec fn mountinfo_filesystem(probe: Seq<char>, mountinfo: Seq<char>) -> Option<Seq<char>> {
    match best_mount(text_lines(mountinfo), probe) {
        Some(b) => Some(b.1),
        None => None,
    }
}

fn find_separator(line: &Vec<char>) -> (r: Option<usize>)
    ensures
        match r {
            Some(i) => separator_from(line@, 0) == i && i + 3 <= line@.len(),
            None => separator_from(line@, 0) == -1,
        },
{
    let n = line.len();
    let mut i: usize = 0;
    while i <= n && n - i >= 3
        invariant
            i <= n,
            n == line@.len(),
            separator_from(line@, 0) == separator_from(line@, i as nat),
        decreases n - i,
    {
        if line[i] == ' ' && line[i + 1] == '-' && line[i + 2] == ' ' {
            assert(line@.subrange(i as int, i + 3 as int) =~= seq![' ', '-', ' ']);
            return Some(i);
        }
        assert(line@.subrange(i as int, i + 3 as int) != seq![' ', '-', ' ']) by {
            if line@.subrange(i as int, i + 3 as int) == seq![' ', '-', ' '] {
                assert(line@.subrange(i as int, i + 3 as int)[0] == line@[i as int]);
                assert(line@.subrange(i as int, i + 3 as int)[1] == line@[i + 1]);
                assert(line@.subrange(i as int, i + 3 as int)[2] == line@[i + 2]);
            }
        }
        i = i + 1;
    }
    None
}

fn line_candidate_exec(line: &Vec<char>, probe: &str) -> (r: Option<(usize, Vec<char>)>)
    ensures
        match r {
            Some(c) => line_candidate(line@, probe@) == Some((c.0 as nat, c.1@)),
            None => line_candidate(line@, probe@) is None,
        },
{
    let n = line.len();
    let i = match find_separator(line) {
        Some(i) => i,
        None => {
            return None;
        },
    };
    assert(separator_from(line@, 0) == i);
    let mut left: Vec<char> = Vec::new();
    let mut k: usize = 0;
    while k < i
        invariant
            k <= i,
            i + 3 <= n,
            n == line@.len(),
            left@ =~= line@.take(k as int),
        decreases i - k,
    {
        left.push(line[k]);
        k = k + 1;
    }
    let left_words = split_words(&left);
    if left_words.len() < 5 {
        return None;
    }
    let field = string_from_chars(&left_words[4]);
    assert(field@ == text_words(line@.take(i as int))[4]);
    let mount = decode_mountinfo_path(field.as_str());
    if !path_is_within_mount(probe, mount.as_str()) {
        return None;
    }
    let mut right: Vec<char> = Vec::new();
    let mut k2: usize = i + 3;
    while k2 < n
        invariant
            i + 3 <= k2 <= n,
            n == line@.len(),
            right@ =~= line@.subrange(i + 3, k2 as int),
        decreases n - k2,
    {
        right.push(line[k2]);
        k2 = k2 + 1;
    }
    assert(right@ =~= line@.skip(i + 3));
    let right_words = split_words(&right);
    if right_words.len() == 0 {
        return None;
    }
    let fs = right_words[0].clone();
    assert(fs@ == text_words(line@.skip(i + 3))[0]);
    let mount_len = mount.as_str().as_bytes().len();
    Some((mount_len, fs))
}

/// The filesystem type of the mount that holds `probe_path`, read from the text of
/// `/proc/self/mountinfo`: the type of the longest mount point that holds the path
/// (the first such line when several are as long). Malformed lines are skipped.
pub fn detect_filesystem_type_from_mountinfo(probe_path: &str, mountinfo_content: &str) -> (r: Option<String>)
    ensures
        match r {
            Some(fs) => mountinfo_filesystem(probe_path@, mountinfo_content@) == Some(fs@),
            None => mountinfo_filesystem(probe_path@, mountinfo_content@) is None,
        },
{
    let content = chars_of(mountinfo_content);
    let lines = split_lines(&content);
    let ghost ls = lines@.map_values(|l: Vec<char>| l@);
    let mut best: Option<(usize, Vec<char>)> = None;
    let mut i: usize = 0;
    while i < lines.len()
        invariant
            i <= lines@.len(),
            ls == lines@.map_values(|l: Vec<char>| l@),
            ls == text_lines(mountinfo_content@),
            match best {
                Some(b) => best_mount(ls.take(i as int), probe_path@) == Some((b.0 as nat, b.1@)),
                None => best_mount(ls.take(i as int), probe_path@) is None,
            },
        decreases lines.len() - i,
    {
        assert(ls.take(i + 1 as int).drop_last() =~= ls.take(i as int));
        assert(ls.take(i + 1 as int).last() == lines@[i as int]@);
        match line_candidate_exec(&lines[i], probe_path) {
            None => {},
            Some(c) => {
                let replace = match &best {
                    None => true,
                    Some(b) => c.0 > b.0,
                };
                if replace {
                    best = Some(c);
                }
            },
        }
        i = i + 1;
    }
    assert(ls.take(lines@.len() as int) =~= ls);
    match best {
        Some(b) => Some(string_from_chars(&b.1)),
        None => None,
    }
}

} // verus!
