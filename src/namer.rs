//! Safe file names and the collision-free identifiers files are stored under.
use vstd::prelude::*;
use crate::text::{alnum_of, is_alphanumeric, push_char, push_str};

verus! {

/// Characters that survive sanitising: letters and numbers, `.`, `-` and `_`.
pub open spec fn keep_char(c: char) -> bool {
    alnum_of(c) || c == '.' || c == '-' || c == '_'
}

/// The characters of `s` that survive sanitising, in order.
pub open spec fn kept(s: Seq<char>) -> Seq<char>
    decreases s.len(),
{
    if s.len() == 0 {
        s
    } else if keep_char(s.last()) {
        kept(s.drop_last()).push(s.last())
    } else {
        kept(s.drop_last())
    }
}

/// How many `.` characters `s` starts with.
pub open spec fn leading_dots(s: Seq<char>) -> nat
    decreases s.len(),
{
    if s.len() > 0 && s[0] == '.' {
        1 + leading_dots(s.drop_first())
    } else {
        0
    }
}

/// `s` without its leading `.` characters.
pub open spec fn trim_leading_dots(s: Seq<char>) -> Seq<char> {
    s.subrange(leading_dots(s) as int, s.len() as int)
}

/// The safe form of a user-supplied name.
pub open spec fn sanitized(s: Seq<char>) -> Seq<char> {
    trim_leading_dots(kept(s))
}

/// The characters of a random token: lower-case hexadecimal digits and `-`.
pub open spec fn is_token_char(c: char) -> bool {
    ('0' <= c && c <= '9') || ('a' <= c && c <= 'f') || c == '-'
}

/// A random token as it stands at the front of a storage identifier.
pub open spec fn is_token(t: Seq<char>) -> bool {
    t.len() == TOKEN_LEN && forall|i: int| 0 <= i < t.len() ==> is_token_char(#[trigger] t[i])
}

/// The identifier a file is stored under: a token, `_`, then the safe name.
pub open spec fn storage_id_of(token: Seq<char>, safe_name: Seq<char>) -> Seq<char> {
    token + seq!['_'] + safe_name
}

/// Index of the first `_` of `s`, or -1 when there is none.
pub open spec fn first_underscore(s: Seq<char>) -> int
    decreases s.len(),
{
    if s.len() == 0 {
        -1
    } else if s[0] == '_' {
        0
    } else if first_underscore(s.drop_first()) < 0 {
        -1
    } else {
        1 + first_underscore(s.drop_first())
    }
}

/// The user-facing name of a stored file: what follows the first `_` of its
/// identifier, or the whole identifier when it has none.
pub open spec fn display_name(id: Seq<char>) -> Seq<char> {
    if first_underscore(id) < 0 {
        id
    } else {
        id.subrange(first_underscore(id) + 1, id.len() as int)
    }
}

/// Length of a random token in characters.
pub const TOKEN_LEN: usize = 36;

proof fn lemma_leading_dots(s: Seq<char>)
    ensures
        leading_dots(s) <= s.len(),
        forall|j: int| 0 <= j < leading_dots(s) ==> s[j] == '.',
        leading_dots(s) < s.len() ==> s[leading_dots(s) as int] != '.',
    decreases s.len(),
{
    if s.len() > 0 && s[0] == '.' {
        lemma_leading_dots(s.drop_first());
        assert forall|j: int| 0 <= j < leading_dots(s) implies s[j] == '.' by {
            if j > 0 {
                assert(s[j] == s.drop_first()[j - 1]);
            }
        }
    }
}

proof fn lemma_leading_dots_exact(s: Seq<char>, k: int)
    requires
        0 <= k <= s.len(),
        forall|j: int| 0 <= j < k ==> s[j] == '.',
        k < s.len() ==> s[k] != '.',
    ensures
        leading_dots(s) == k,
    decreases s.len(),
{
    if k > 0 {
        assert forall|j: int| 0 <= j < k - 1 implies s.drop_first()[j] == '.' by {
            assert(s.drop_first()[j] == s[j + 1]);
        }
        if k - 1 < s.drop_first().len() {
            assert(s.drop_first()[k - 1] == s[k]);
        }
        lemma_leading_dots_exact(s.drop_first(), k - 1);
    }
}

proof fn lemma_first_underscore(s: Seq<char>)
    ensures
        -1 <= first_underscore(s) < s.len(),
        first_underscore(s) >= 0 ==> s[first_underscore(s)] == '_',
        forall|j: int|
            0 <= j < s.len() && (first_underscore(s) < 0 || j < first_underscore(s)) ==> s[j]
                != '_',
    decreases s.len(),
{
    if s.len() > 0 && s[0] != '_' {
        lemma_first_underscore(s.drop_first());
        assert forall|j: int|
            0 <= j < s.len() && (first_underscore(s) < 0 || j < first_underscore(s)) implies s[j]
                != '_' by {
            if j > 0 {
                assert(s[j] == s.drop_first()[j - 1]);
            }
        }
    }
}

proof fn lemma_first_underscore_exact(s: Seq<char>, k: int)
    requires
        0 <= k < s.len(),
        s[k] == '_',
        forall|j: int| 0 <= j < k ==> s[j] != '_',
    ensures
        first_underscore(s) == k,
    decreases s.len(),
{
    if k > 0 {
        assert forall|j: int| 0 <= j < k - 1 implies s.drop_first()[j] != '_' by {
            assert(s.drop_first()[j] == s[j + 1]);
        }
        assert(s.drop_first()[k - 1] == s[k]);
        lemma_first_underscore_exact(s.drop_first(), k - 1);
    }
}

/// Removes every character that is not a letter, a number, `.`, `-` or `_`,
/// then the leading `.` characters. The result holds no path separator and
/// does not start with `.`.
pub fn sanitize_filename(filename: &str) -> (r: String)
    ensures
        r@ == sanitized(filename@),
        forall|i: int| 0 <= i < r@.len() ==> #[trigger] r@[i] != '/' && r@[i] != '\\',
        r@.len() > 0 ==> r@[0] != '.',
{
    let n = filename.unicode_len();
    let mut filtered: Vec<char> = Vec::new();
    let mut i: usize = 0;
    while i < n
        invariant
            n == filename@.len(),
            i <= n,
            filtered@ == kept(filename@.subrange(0, i as int)),
            forall|j: int| 0 <= j < filtered@.len() ==> #[trigger] filtered@[j] != '/'
                && filtered@[j] != '\\',
        decreases n - i,
    {
        let c = filename.get_char(i);
        let keep = is_alphanumeric(c) || c == '.' || c == '-' || c == '_';
        proof {
            let pre = filename@.subrange(0, i as int + 1);
            assert(pre.drop_last() =~= filename@.subrange(0, i as int));
            assert(pre.last() == c);
        }
        if keep {
            filtered.push(c);
        }
        i += 1;
    }
    assert(filename@.subrange(0, n as int) =~= filename@);
    let m = filtered.len();
    let mut k: usize = 0;
    while k < m && filtered[k] == '.'
        invariant
            m == filtered@.len(),
            k <= m,
            forall|j: int| 0 <= j < k ==> filtered@[j] == '.',
        decreases m - k,
    {
        k += 1;
    }
    proof {
        lemma_leading_dots_exact(filtered@, k as int);
    }
    let mut out = String::new();
    let mut j: usize = k;
    while j < m
        invariant
            m == filtered@.len(),
            k <= j <= m,
            out@ == filtered@.subrange(k as int, j as int),
        decreases m - j,
    {
        push_char(&mut out, filtered[j]);
        j += 1;
        assert(out@ =~= filtered@.subrange(k as int, j as int));
    }
    out
}

/// Relies on `uuid::Uuid::new_v4`, rendered through its `Display` impl: a
/// random UUID written as 36 lower-case hexadecimal digits and hyphens.
#[verifier::external_body]
fn fresh_token() -> (r: String)
    ensures
        is_token(r@),
{
    uuid::Uuid::new_v4().to_string()
}

/// Joins a token and a safe name into a storage identifier.
pub fn make_storage_id(token: &str, safe_name: &str) -> (r: String)
    ensures
        r@ == storage_id_of(token@, safe_name@),
{
    let mut s = String::new();
    push_str(&mut s, token);
    push_char(&mut s, '_');
    push_str(&mut s, safe_name);
    assert(s@ =~= storage_id_of(token@, safe_name@));
    s
}

/// A fresh storage identifier for a safe name, under a new random token.
pub fn new_storage_id(safe_name: &str) -> (r: String)
    ensures
        is_token(r@.subrange(0, TOKEN_LEN as int)),
        r@ == storage_id_of(r@.subrange(0, TOKEN_LEN as int), safe_name@),
{
    let token = fresh_token();
    let r = make_storage_id(token.as_str(), safe_name);
    assert(r@.subrange(0, TOKEN_LEN as int) =~= token@);
    r
}

/// The user-facing name of a stored file: what follows the first `_` of its
/// identifier, or the whole identifier when it has none.
pub fn display_name_of(storage_id: &str) -> (r: String)
    ensures
        r@ == display_name(storage_id@),
{
    proof {
        lemma_first_underscore(storage_id@);
    }
    let n = storage_id.unicode_len();
    let mut i: usize = 0;
    while i < n
        invariant
            n == storage_id@.len(),
            i <= n,
            forall|j: int| 0 <= j < i ==> storage_id@[j] != '_',
        decreases n - i,
    {
        if storage_id.get_char(i) == '_' {
            proof {
                lemma_first_underscore_exact(storage_id@, i as int);
            }
            return String::from_str(storage_id.substring_char(i + 1, n));
        }
        i += 1;
    }
    assert(first_underscore(storage_id@) < 0);
    String::from_str(storage_id)
}

/// A sanitised name never starts with `.`, whatever name it was made from.
pub proof fn lemma_sanitized_has_no_leading_dot(s: Seq<char>)
    ensures
        sanitized(s).len() > 0 ==> sanitized(s)[0] != '.',
{
    lemma_leading_dots(kept(s));
}

/// A display name recovered from a storage identifier is the safe name the
/// identifier was made from.
pub proof fn lemma_display_name_round_trip(token: Seq<char>, safe_name: Seq<char>)
    requires
        is_token(token),
    ensures
        display_name(storage_id_of(token, safe_name)) == safe_name,
{
    let id = storage_id_of(token, safe_name);
    assert forall|j: int| 0 <= j < TOKEN_LEN implies id[j] != '_' by {
        assert(id[j] == token[j]);
        assert(is_token_char(token[j]));
    }
    assert(id[TOKEN_LEN as int] == '_');
    lemma_first_underscore_exact(id, TOKEN_LEN as int);
    assert(id.subrange(TOKEN_LEN + 1, id.len() as int) =~= safe_name);
}

/// Identifiers made under different tokens differ, whatever names they carry.
pub proof fn lemma_distinct_tokens_distinct_ids(t1: Seq<char>, t2: Seq<char>, n1: Seq<char>, n2: Seq<char>)
    requires
        is_token(t1),
        is_token(t2),
        t1 != t2,
    ensures
        storage_id_of(t1, n1) != storage_id_of(t2, n2),
{
    let a = storage_id_of(t1, n1);
    let b = storage_id_of(t2, n2);
    if a == b {
        assert(a.subrange(0, TOKEN_LEN as int) =~= t1);
        assert(b.subrange(0, TOKEN_LEN as int) =~= t2);
    }
}

} // verus!
