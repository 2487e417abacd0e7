//! Name syntax and the text operations the registry needs.

use vstd::prelude::*;
use vstd::string::StrSliceExecFns;
use vstd::utf8::encode_utf8;

verus! {

/// The largest number of bytes in a name.
pub const MAX_NAME_BYTES: usize = 63;

/// Names of at least this many bytes are never subject to the short-name
/// policy.
pub const SHORT_NAME_LIMIT: usize = 5;

/// Whether a character is alphanumeric in the sense of Unicode.
pub uninterp spec fn is_alphanumeric_char(c: char) -> bool;

/// The lower-case form of a text.
pub uninterp spec fn lowercase_of(text: Seq<char>) -> Seq<char>;

/// `char::is_alphanumeric`.
///
/// Trusted: the answer depends on the character alone (the Unicode
/// `Alphabetic` and numeric properties); it is named, not spelled out.
#[verifier::external_body]
fn char_is_alphanumeric(c: char) -> (r: bool)
    ensures
        r == is_alphanumeric_char(c),
{
    c.is_alphanumeric()
}

/// `str::to_lowercase`.
///
/// Trusted: the result depends on the text alone (the Unicode lower-case
/// mapping); it is named, not spelled out.
#[verifier::external_body]
fn str_to_lowercase(text: &str) -> (r: String)
    ensures
        r@ == lowercase_of(text@),
{
    text.to_lowercase()
}

/// Whether `pattern` is a contiguous part of `text`.
pub open spec fn occurs_in(pattern: Seq<char>, text: Seq<char>) -> bool {
    exists|i: int|
        0 <= i && i + pattern.len() <= text.len() && #[trigger] text.subrange(
            i,
            i + pattern.len(),
        ) == pattern
}

/// The length of a name: the number of bytes of its UTF-8 encoding.
pub open spec fn name_length(name: Seq<char>) -> nat {
    encode_utf8(name).len()
}

/// For each character of a name, whether it is alphanumeric.
pub open spec fn alphanumeric_flags(name: Seq<char>) -> Seq<bool> {
    name.map_values(|c: char| is_alphanumeric_char(c))
}

/// The syntax of names, given for each character whether it is
/// alphanumeric: not empty, at most 63 bytes, no hyphen at either end, and
/// nothing but alphanumeric characters and hyphens. A character without a
/// flag counts as not alphanumeric.
pub open spec fn well_formed(name: Seq<char>, alphanumeric: Seq<bool>) -> bool {
    &&& name.len() > 0
    &&& name_length(name) <= MAX_NAME_BYTES
    &&& name.first() != '-'
    &&& name.last() != '-'
    &&& forall|i: int|
        0 <= i < name.len() ==> #[trigger] name[i] == '-' || (i < alphanumeric.len()
            && alphanumeric[i])
}

/// The syntax of names.
pub open spec fn valid_name(name: Seq<char>) -> bool {
    well_formed(name, alphanumeric_flags(name))
}

/// Whether a query matches a name, given the lower-case forms of both: an
/// empty query matches every name, any other query matches where its
/// lower-case form occurs in the lower-case form of the name.
pub open spec fn lowered_query_matches(
    query: Seq<char>,
    lowered_query: Seq<char>,
    lowered_name: Seq<char>,
) -> bool {
    query.len() == 0 || occurs_in(lowered_query, lowered_name)
}

/// Whether `query` matches `name`: an empty query matches every name, any
/// other query matches where its lower-case form occurs in the lower-case
/// form of the name.
pub open spec fn query_matches(query: Seq<char>, name: Seq<char>) -> bool {
    lowered_query_matches(query, lowercase_of(query), lowercase_of(name))
}

/// The number of bytes in the UTF-8 encoding of `name`.
pub fn byte_length(name: &str) -> (n: usize)
    ensures
        n == name_length(name@),
{
    name.as_bytes().len()
}

/// Checks the syntax of a name, given for each of its characters whether
/// it is alphanumeric.
pub fn check_name_syntax(name: &str, alphanumeric: &Vec<bool>) -> (ok: bool)
    ensures
        ok == well_formed(name@, alphanumeric@),
{
    if name.is_empty() || byte_length(name) > MAX_NAME_BYTES {
        return false;
    }
    let n = name.unicode_len();
    if name.get_char(0) == '-' || name.get_char(n - 1) == '-' {
        return false;
    }
    let mut i: usize = 0;
    while i < n
        invariant
            n == name@.len(),
            i <= n,
            forall|j: int|
                0 <= j < i ==> #[trigger] name@[j] == '-' || (j < alphanumeric@.len()
                    && alphanumeric@[j]),
        decreases n - i,
    {
        let flagged = i < alphanumeric.len() && alphanumeric[i];
        if !(flagged || name.get_char(i) == '-') {
            return false;
        }
        i += 1;
    }
    true
}

/// For each character of a name, whether it is alphanumeric.
pub fn classify(name: &str) -> (flags: Vec<bool>)
    ensures
        flags@ == alphanumeric_flags(name@),
{
    let n = name.unicode_len();
    let mut flags: Vec<bool> = Vec::new();
    let mut i: usize = 0;
    while i < n
        invariant
            n == name@.len(),
            i <= n,
            flags@.len() == i,
            forall|j: int| 0 <= j < i ==> flags@[j] == is_alphanumeric_char(#[trigger] name@[j]),
        decreases n - i,
    {
        flags.push(char_is_alphanumeric(name.get_char(i)));
        i += 1;
    }
    assert(flags@ =~= alphanumeric_flags(name@));
    flags
}

/// Checks the syntax of a name.
pub fn is_valid_domain_name(name: &str) -> (ok: bool)
    ensures
        ok == valid_name(name@),
{
    if byte_length(name) > MAX_NAME_BYTES {
        return false;
    }
    let flags = classify(name);
    check_name_syntax(name, &flags)
}

/// Whether `text` begins with `prefix`.
pub fn has_prefix(text: &str, prefix: &str) -> (r: bool)
    ensures
        r == prefix@.is_prefix_of(text@),
{
    let n = prefix.unicode_len();
    if text.unicode_len() < n {
        return false;
    }
    let mut i: usize = 0;
    while i < n
        invariant
            n == prefix@.len(),
            n <= text@.len(),
            i <= n,
            forall|j: int| 0 <= j < i ==> text@[j] == prefix@[j],
        decreases n - i,
    {
        if text.get_char(i) != prefix.get_char(i) {
            return false;
        }
        i += 1;
    }
    assert(text@.subrange(0, n as int) =~= prefix@);
    true
}

/// Whether `pattern`, of `m` characters, stands in `text`, of `n`
/// characters, at the position `at`.
fn stands_at(text: &str, n: usize, pattern: &str, m: usize, at: usize) -> (r: bool)
    requires
        n == text@.len(),
        m == pattern@.len(),
        at + m <= n,
    ensures
        r == (text@.subrange(at as int, at + m) == pattern@),
{
    let ghost part = text@.subrange(at as int, at + m);
    let mut j: usize = 0;
    while j < m
        invariant
            n == text@.len(),
            m == pattern@.len(),
            at + m <= n,
            part == text@.subrange(at as int, at + m),
            j <= m,
            forall|k: int| 0 <= k < j ==> part[k] == pattern@[k],
        decreases m - j,
    {
        if text.get_char(at + j) != pattern.get_char(j) {
            assert(part[j as int] != pattern@[j as int]);
            return false;
        }
        j += 1;
    }
    assert(part =~= pattern@);
    true
}

/// Whether `pattern` is a contiguous part of `text`.
pub fn contains_text(text: &str, pattern: &str) -> (r: bool)
    ensures
        r == occurs_in(pattern@, text@),
{
    let n = text.unicode_len();
    let m = pattern.unicode_len();
    if m > n {
        return false;
    }
    let last = n - m;
    let mut i: usize = 0;
    loop
        invariant
            n == text@.len(),
            m == pattern@.len(),
            last == n - m,
            i <= last,
            forall|k: int| 0 <= k < i ==> #[trigger] text@.subrange(k, k + m) != pattern@,
        decreases last - i,
    {
        if stands_at(text, n, pattern, m, i) {
            return true;
        }
        if i == last {
            return false;
        }
        i += 1;
    }
}

/// Whether a query matches a name, given the lower-case forms of both.
pub fn matches_lowered(query: &str, lowered_query: &str, lowered_name: &str) -> (r: bool)
    ensures
        r == lowered_query_matches(query@, lowered_query@, lowered_name@),
{
    query.is_empty() || contains_text(lowered_name, lowered_query)
}

/// Whether `query` matches `name`, ignoring case.
pub fn matches_query(query: &str, name: &str) -> (r: bool)
    ensures
        r == query_matches(query@, name@),
{
    if query.is_empty() {
        return true;
    }
    let lowered_name = str_to_lowercase(name);
    let lowered_query = str_to_lowercase(query);
    matches_lowered(query, lowered_query.as_str(), lowered_name.as_str())
}

} // verus!
