//! String helpers for app-id matching: lowercasing, substring search and
//! splitting off the last dot-delimited segment. The std calls stand behind
//! trusted wrappers; everything downstream of them is verified.

use vstd::prelude::*;

verus! {

/// Whether character `c` occurs in `s`.
pub open spec fn has_char(s: Seq<char>, c: char) -> bool {
    exists|i: int| 0 <= i < s.len() && s[i] == c
}

/// Whether `t` occurs in `s` as a contiguous substring.
pub open spec fn has_substring(s: Seq<char>, t: Seq<char>) -> bool {
    exists|i: int|
        0 <= i && i + t.len() <= s.len() && #[trigger] s.subrange(i, i + t.len() as int) == t
}

/// The suffix of `s` after its last dot; `s` itself when it has no dot.
pub open spec fn last_segment_of(s: Seq<char>) -> Seq<char>
    decreases s.len(),
{
    if s.len() == 0 {
        s
    } else if s.last() == '.' {
        Seq::empty()
    } else {
        last_segment_of(s.drop_last()).push(s.last())
    }
}

/// What `str::to_lowercase` returns: a function of the characters alone.
pub uninterp spec fn lower_of(s: Seq<char>) -> Seq<char>;

/// Relies on str::to_lowercase: returns the lowercase equivalent of the
/// string, a function of its characters alone.
#[verifier::external_body]
pub fn lowercase(s: &str) -> (r: String)
    ensures
        r@ == lower_of(s@),
{
    s.to_lowercase()
}

/// Relies on str::rsplit_once: splits on the last occurrence of the
/// delimiter into the prefix before it and the suffix after it, and returns
/// None when the delimiter does not occur.
#[verifier::external_body]
fn rsplit_dot(s: &str) -> (r: Option<(&str, &str)>)
    ensures
        match r {
            Some(parts) => s@ == parts.0@ + seq!['.'] + parts.1@ && !has_char(parts.1@, '.'),
            None => !has_char(s@, '.'),
        },
{
    s.rsplit_once('.')
}

/// Relies on str::contains: whether the needle occurs as a substring of the
/// string.
#[verifier::external_body]
pub fn str_contains(s: &str, needle: &str) -> (r: bool)
    ensures
        r == has_substring(s@, needle@),
{
    s.contains(needle)
}

/// Character-wise string equality.
pub fn str_eq(a: &str, b: &str) -> (r: bool)
    ensures
        r == (a@ == b@),
{
    let owned_a = a.to_owned();
    let owned_b = b.to_owned();
    owned_a.eq(&owned_b)
}

/// A sequence without a dot is its own last segment.
proof fn lemma_last_segment_no_dot(s: Seq<char>)
    requires
        !has_char(s, '.'),
    ensures
        last_segment_of(s) == s,
    decreases s.len(),
{
    if s.len() > 0 {
        assert(s.last() != '.');
        assert(!has_char(s.drop_last(), '.')) by {
            if has_char(s.drop_last(), '.') {
                let i = choose|i: int| 0 <= i < s.drop_last().len() && s.drop_last()[i] == '.';
                assert(s[i] == '.');
            }
        }
        lemma_last_segment_no_dot(s.drop_last());
        assert(s.drop_last().push(s.last()) =~= s);
    }
}

/// The suffix after the last dot is the last segment.
proof fn lemma_last_segment_split(p: Seq<char>, q: Seq<char>)
    requires
        !has_char(q, '.'),
    ensures
        last_segment_of(p + seq!['.'] + q) == q,
    decreases q.len(),
{
    let s = p + seq!['.'] + q;
    if q.len() == 0 {
        assert(s.last() == '.');
        assert(last_segment_of(s) =~= q);
    } else {
        assert(s.last() == q.last());
        assert(q.last() != '.');
        assert(!has_char(q.drop_last(), '.')) by {
            if has_char(q.drop_last(), '.') {
                let i = choose|i: int| 0 <= i < q.drop_last().len() && q.drop_last()[i] == '.';
                assert(q[i] == '.');
            }
        }
        lemma_last_segment_split(p, q.drop_last());
        assert(s.drop_last() =~= p + seq!['.'] + q.drop_last());
        assert(last_segment_of(s) == last_segment_of(s.drop_last()).push(q.last()));
        assert(q.drop_last().push(q.last()) =~= q);
    }
}

/// The last dot-delimited segment of a string; the string itself when it has
/// no dot.
pub fn split_suffix(s: &str) -> (r: String)
    ensures
        r@ == last_segment_of(s@),
{
    match rsplit_dot(s) {
        Some((prefix, suffix)) => {
            proof {
                lemma_last_segment_split(prefix@, suffix@);
            }
            suffix.to_owned()
        },
        None => {
            proof {
                lemma_last_segment_no_dot(s@);
            }
            s.to_owned()
        },
    }
}

} // verus!
