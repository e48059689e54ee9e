//! Shared text utilities for the HTTP modules: splitting a string at the
//! first occurrence of a separator, and character-exact string equality.

use vstd::prelude::*;
use vstd::string::*;

pub mod query_string;
pub mod request;
pub mod response;

verus! {

/// Index of the first occurrence of `sep` in `s`, or -1 when `sep` does
/// not occur.
pub open spec fn first_index_of(s: Seq<char>, sep: char) -> int
    decreases s.len(),
{
    if s.len() == 0 {
        -1
    } else if s[0] == sep {
        0
    } else {
        let rest = first_index_of(s.subrange(1, s.len() as int), sep);
        if rest < 0 {
            -1
        } else {
            rest + 1
        }
    }
}

pub proof fn lemma_first_index_of(s: Seq<char>, sep: char)
    ensures
        first_index_of(s, sep) < 0 ==> forall|j: int| 0 <= j < s.len() ==> s[j] != sep,
        first_index_of(s, sep) >= 0 ==> {
            let i = first_index_of(s, sep);
            &&& i < s.len()
            &&& s[i] == sep
            &&& forall|j: int| 0 <= j < i ==> s[j] != sep
        },
    decreases s.len(),
{
    if s.len() != 0 && s[0] != sep {
        let tail = s.subrange(1, s.len() as int);
        lemma_first_index_of(tail, sep);
        if first_index_of(s, sep) < 0 {
            assert forall|j: int| 0 <= j < s.len() implies s[j] != sep by {
                if j > 0 {
                    assert(s[j] == tail[j - 1]);
                }
            }
        }
        if first_index_of(s, sep) >= 0 {
            let i = first_index_of(s, sep);
            assert(s[i] == tail[i - 1]);
            assert forall|j: int| 0 <= j < i implies s[j] != sep by {
                if j > 0 {
                    assert(s[j] == tail[j - 1]);
                }
            }
        }
    }
}

/// The splitting policy: the prefix before the first `sep`, and everything
/// after it; nothing when `sep` does not occur.
pub open spec fn split_at_first_spec(s: Seq<char>, sep: char) -> Option<(Seq<char>, Seq<char>)> {
    let i = first_index_of(s, sep);
    if i < 0 {
        None
    } else {
        Some((s.subrange(0, i), s.subrange(i + 1, s.len() as int)))
    }
}

/// Splitting is exact: when a split is found, prefix + separator + suffix
/// reassemble the input and the prefix is free of the separator; when no
/// split is found, the separator does not occur in the input.
pub proof fn lemma_split_at_first_exact(s: Seq<char>, sep: char)
    ensures
        split_at_first_spec(s, sep) matches Some(parts) ==> {
            &&& parts.0 + seq![sep] + parts.1 == s
            &&& !parts.0.contains(sep)
        },
        split_at_first_spec(s, sep) is None ==> !s.contains(sep),
{
    lemma_first_index_of(s, sep);
    let i = first_index_of(s, sep);
    if i >= 0 {
        let prefix = s.subrange(0, i);
        let suffix = s.subrange(i + 1, s.len() as int);
        assert(prefix + seq![sep] + suffix =~= s);
        assert(!prefix.contains(sep)) by {
            assert forall|j: int| 0 <= j < prefix.len() implies prefix[j] != sep by {
                assert(prefix[j] == s[j]);
            }
        }
    }
}

/// Splits `request_str` at the first occurrence of `sep`: the prefix
/// excludes the separator, the suffix is everything after it. Returns
/// nothing exactly when the separator does not occur. Both fragments are
/// borrowed views into `request_str`.
pub fn next_token<'a>(request_str: &'a str, sep: char) -> (r: Option<(&'a str, &'a str)>)
    ensures
        match r {
            Some(parts) => split_at_first_spec(request_str@, sep) == Some((parts.0@, parts.1@)),
            None => split_at_first_spec(request_str@, sep) is None,
        },
{
    let len = request_str.unicode_len();
    let mut i: usize = 0;
    while i < len
        invariant
            len == request_str@.len(),
            i <= len,
            forall|j: int| 0 <= j < i ==> request_str@[j] != sep,
        decreases len - i,
    {
        if request_str.get_char(i) == sep {
            let prefix = request_str.substring_char(0, i);
            let suffix = request_str.substring_char(i + 1, len);
            proof {
                lemma_first_index_of(request_str@, sep);
            }
            return Some((prefix, suffix));
        }
        i = i + 1;
    }
    proof {
        lemma_first_index_of(request_str@, sep);
    }
    None
}

/// Character-exact string comparison, usable where contracts speak of the
/// strings' character sequences.
pub fn str_eq(a: &str, b: &str) -> (r: bool)
    ensures
        r == (a@ == b@),
{
    let a_len = a.unicode_len();
    let b_len = b.unicode_len();
    if a_len != b_len {
        return false;
    }
    let mut i: usize = 0;
    while i < a_len
        invariant
            a_len == a@.len(),
            a@.len() == b@.len(),
            i <= a_len,
            forall|j: int| 0 <= j < i ==> a@[j] == b@[j],
        decreases a_len - i,
    {
        if a.get_char(i) != b.get_char(i) {
            return false;
        }
        i = i + 1;
    }
    proof {
        assert(a@ =~= b@);
    }
    true
}

} // verus!
