//! Reading the host disk's capacity out of the report of `df -k`: the
//! second line holds the volume's figures in 1 KiB blocks, its second
//! field the total and its fourth the available blocks.
use vstd::prelude::*;

verus! {

/// What `char::is_whitespace` answers for a character.
pub uninterp spec fn whitespace_of(c: char) -> bool;

/// Relies on `char::is_whitespace`: the Unicode White_Space property.
#[verifier::external_body]
pub(crate) fn is_whitespace(c: char) -> (r: bool)
    ensures
        r == whitespace_of(c),
{
    c.is_whitespace()
}

/// Index of the first `c` in `s` at or after `from`, or -1 when there is none.
pub open spec fn next_index(s: Seq<char>, from: int, c: char) -> int
    decreases s.len() - from,
{
    if from < 0 || from >= s.len() {
        -1
    } else if s[from] == c {
        from
    } else {
        next_index(s, from + 1, c)
    }
}

/// Where the second line of `s` starts and ends, as `str::lines` splits it:
/// lines end at `\n`, and a `\r` just before that `\n` is not part of the line.
pub open spec fn second_line(s: Seq<char>) -> Option<(int, int)> {
    let i = next_index(s, 0, '\n');
    if i < 0 || i + 1 >= s.len() {
        None
    } else {
        let j = next_index(s, i + 1, '\n');
        if j < 0 {
            Some((i + 1, s.len() as int))
        } else if j > i + 1 && s[j - 1] == '\r' {
            Some((i + 1, j - 1))
        } else {
            Some((i + 1, j))
        }
    }
}

/// Where the run of non-whitespace that starts at `pos` ends, before `end`.
pub open spec fn token_end(s: Seq<char>, pos: int, end: int) -> int
    decreases end - pos,
{
    if pos >= end || whitespace_of(s[pos]) {
        pos
    } else {
        token_end(s, pos + 1, end)
    }
}

/// The bounds of the `k`-th whitespace-separated field of `s[pos..end]`,
/// counting from zero; `inside` tells that `pos` is within a field already
/// counted.
pub open spec fn field_at(s: Seq<char>, pos: int, end: int, k: nat, inside: bool) -> Option<(int, int)>
    decreases end - pos,
{
    if pos >= end {
        None
    } else if whitespace_of(s[pos]) {
        field_at(s, pos + 1, end, k, false)
    } else if inside {
        field_at(s, pos + 1, end, k, true)
    } else if k == 0 {
        Some((pos, token_end(s, pos, end)))
    } else {
        field_at(s, pos + 1, end, (k - 1) as nat, true)
    }
}

pub open spec fn is_digit(c: char) -> bool {
    '0' <= c && c <= '9'
}

/// The number that the ASCII digits `s[a..b]` spell.
pub open spec fn digits_value(s: Seq<char>, a: int, b: int) -> nat
    decreases b - a,
{
    if b <= a {
        0
    } else {
        digits_value(s, a, b - 1) * 10 + ((s[b - 1] as u32) - ('0' as u32)) as nat
    }
}

/// What `str::parse::<u64>` makes of `s[a..b]`: an optional `+`, then one or
/// more ASCII digits whose value fits in 64 bits.
pub open spec fn u64_of(s: Seq<char>, a: int, b: int) -> Option<u64> {
    let d = if a < b && s[a] == '+' { a + 1 } else { a };
    if d >= b || exists|i: int| d <= i < b && !is_digit(#[trigger] s[i]) {
        None
    } else if digits_value(s, d, b) > u64::MAX {
        None
    } else {
        Some(digits_value(s, d, b) as u64)
    }
}

/// The field `k` of the second line of `s`, read as a count.
pub open spec fn line_two_field(s: Seq<char>, k: nat) -> Option<u64> {
    match second_line(s) {
        None => None,
        Some(line) => match field_at(s, line.0, line.1, k, false) {
            None => None,
            Some(f) => u64_of(s, f.0, f.1),
        },
    }
}

/// Free and total bytes of the volume in a `df -k` report, or nothing when
/// the report lacks them or they do not fit in 64 bits.
pub open spec fn disk_space_of(s: Seq<char>) -> Option<(u64, u64)> {
    match (line_two_field(s, 1), line_two_field(s, 3)) {
        (Some(total_kb), Some(avail_kb)) => if total_kb * 1024 <= u64::MAX && avail_kb * 1024
            <= u64::MAX {
            Some(((avail_kb * 1024) as u64, (total_kb * 1024) as u64))
        } else {
            None
        },
        _ => None,
    }
}

fn chars_of(s: &str) -> (r: Vec<char>)
    ensures
        r@ == s@,
{
    let n = s.unicode_len();
    let mut v: Vec<char> = Vec::new();
    let mut i: usize = 0;
    while i < n
        invariant
            n == s@.len(),
            i <= n,
            v@ == s@.subrange(0, i as int),
        decreases n - i,
    {
        v.push(s.get_char(i));
        i += 1;
        assert(v@ =~= s@.subrange(0, i as int));
    }
    assert(v@ =~= s@);
    v
}

fn find_from(v: &Vec<char>, from: usize, c: char) -> (r: Option<usize>)
    ensures
        r is None <==> next_index(v@, from as int, c) < 0,
        r matches Some(i) ==> i == next_index(v@, from as int, c) && i < v@.len(),
{
    let mut i = from;
    while i < v.len()
        invariant
            from <= i,
            next_index(v@, i as int, c) == next_index(v@, from as int, c),
        decreases v@.len() - i,
    {
        if v[i] == c {
            return Some(i);
        }
        i += 1;
    }
    None
}

fn find_second_line(v: &Vec<char>) -> (r: Option<(usize, usize)>)
    ensures
        r is None <==> second_line(v@) is None,
        r matches Some(p) ==> second_line(v@) == Some((p.0 as int, p.1 as int)) && p.0 <= p.1
            <= v@.len(),
{
    match find_from(v, 0, '\n') {
        None => None,
        Some(i) => {
            if i >= v.len() - 1 {
                return None;
            }
            match find_from(v, i + 1, '\n') {
                None => Some((i + 1, v.len())),
                Some(j) => {
                    proof {
                        lemma_next_index_at_least(v@, i + 1, '\n');
                    }
                    if j > i + 1 && v[j - 1] == '\r' {
                        Some((i + 1, j - 1))
                    } else {
                        Some((i + 1, j))
                    }
                },
            }
        },
    }
}

proof fn lemma_next_index_at_least(s: Seq<char>, from: int, c: char)
    ensures
        next_index(s, from, c) >= 0 ==> next_index(s, from, c) >= from,
    decreases s.len() - from,
{
    if 0 <= from < s.len() && s[from] != c {
        lemma_next_index_at_least(s, from + 1, c);
    }
}

proof fn lemma_token_end_bounds(s: Seq<char>, pos: int, end: int)
    requires
        pos <= end,
    ensures
        pos <= token_end(s, pos, end) <= end,
    decreases end - pos,
{
    if pos < end && !whitespace_of(s[pos]) {
        lemma_token_end_bounds(s, pos + 1, end);
    }
}

fn find_token_end(v: &Vec<char>, pos: usize, end: usize) -> (r: usize)
    requires
        pos <= end <= v@.len(),
    ensures
        r == token_end(v@, pos as int, end as int),
        pos <= r <= end,
{
    proof {
        lemma_token_end_bounds(v@, pos as int, end as int);
    }
    let mut i = pos;
    while i < end && !is_whitespace(v[i])
        invariant
            pos <= i <= end,
            end <= v@.len(),
            token_end(v@, i as int, end as int) == token_end(v@, pos as int, end as int),
        decreases end - i,
    {
        i += 1;
    }
    i
}

fn find_field(v: &Vec<char>, start: usize, end: usize, k: usize) -> (r: Option<(usize, usize)>)
    requires
        start <= end <= v@.len(),
    ensures
        r is None <==> field_at(v@, start as int, end as int, k as nat, false) is None,
        r matches Some(f) ==> field_at(v@, start as int, end as int, k as nat, false) == Some(
            (f.0 as int, f.1 as int),
        ) && f.0 <= f.1 <= end,
{
    let mut pos = start;
    let mut left = k;
    let mut inside = false;
    while pos < end
        invariant
            start <= pos <= end,
            end <= v@.len(),
            field_at(v@, pos as int, end as int, left as nat, inside) == field_at(
                v@,
                start as int,
                end as int,
                k as nat,
                false,
            ),
        decreases end - pos,
    {
        if is_whitespace(v[pos]) {
            inside = false;
        } else if inside {
        } else if left == 0 {
            let e = find_token_end(v, pos, end);
            return Some((pos, e));
        } else {
            left -= 1;
            inside = true;
        }
        pos += 1;
    }
    None
}

proof fn lemma_digits_value_grows(s: Seq<char>, a: int, i: int, b: int)
    requires
        a <= i <= b,
        forall|j: int| i <= j < b ==> is_digit(#[trigger] s[j]),
    ensures
        digits_value(s, a, b) >= digits_value(s, a, i),
    decreases b - i,
{
    if i < b {
        lemma_digits_value_grows(s, a, i, b - 1);
    }
}

fn parse_count(v: &Vec<char>, a: usize, b: usize) -> (r: Option<u64>)
    requires
        a <= b <= v@.len(),
    ensures
        r == u64_of(v@, a as int, b as int),
{
    let d = if a < b && v[a] == '+' {
        a + 1
    } else {
        a
    };
    if d >= b {
        return None;
    }
    let mut i = d;
    while i < b
        invariant
            d <= i <= b,
            b <= v@.len(),
            d == (if a < b && v@[a as int] == '+' { a + 1 } else { a as int }),
            forall|j: int| d <= j < i ==> is_digit(#[trigger] v@[j]),
        decreases b - i,
    {
        if !('0' <= v[i] && v[i] <= '9') {
            assert(!is_digit(v@[i as int]));
            return None;
        }
        i += 1;
    }
    let mut acc: u64 = 0;
    let mut j = d;
    while j < b
        invariant
            d <= j <= b,
            b <= v@.len(),
            d == (if a < b && v@[a as int] == '+' { a + 1 } else { a as int }),
            forall|m: int| d <= m < b ==> is_digit(#[trigger] v@[m]),
            acc == digits_value(v@, d as int, j as int),
        decreases b - j,
    {
        let digit = (v[j] as u32 - '0' as u32) as u64;
        assert(is_digit(v@[j as int]));
        if acc > (u64::MAX - digit) / 10 {
            proof {
                assert(acc * 10 + digit > u64::MAX) by (nonlinear_arith)
                    requires
                        acc > (u64::MAX - digit) / 10,
                        digit <= 9,
                ;
                assert(digits_value(v@, d as int, j + 1) == acc * 10 + digit);
                lemma_digits_value_grows(v@, d as int, j + 1, b as int);
            }
            return None;
        }
        acc = acc * 10 + digit;
        j += 1;
    }
    Some(acc)
}

/// Free and total bytes of the volume in the report of `df -k`, or nothing
/// when the report does not give them.
pub fn parse_disk_space(df_output: &str) -> (r: Option<(u64, u64)>)
    ensures
        r == disk_space_of(df_output@),
{
    let v = chars_of(df_output);
    let line = match find_second_line(&v) {
        None => return None,
        Some(line) => line,
    };
    let total = match find_field(&v, line.0, line.1, 1) {
        None => None,
        Some(f) => parse_count(&v, f.0, f.1),
    };
    let avail = match find_field(&v, line.0, line.1, 3) {
        None => None,
        Some(f) => parse_count(&v, f.0, f.1),
    };
    match (total, avail) {
        (Some(total_kb), Some(avail_kb)) => {
            if total_kb <= u64::MAX / 1024 && avail_kb <= u64::MAX / 1024 {
                Some((avail_kb * 1024, total_kb * 1024))
            } else {
                None
            }
        },
        _ => None,
    }
}

} // verus!
