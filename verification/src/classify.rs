//! Ref classifier: decides whether the commit-like segment of a request path
//! is already an immutable commit identifier (exactly forty hexadecimal
//! characters, case-insensitive) or a mutable branch/tag name that has to be
//! resolved against the upstream provider.

use vstd::prelude::*;

verus! {

/// The two shapes a ref can take. Only a full-length hexadecimal commit
/// identifier is content-addressed and may be cached forever; every other
/// string — branch names, tags, even shortened hashes — must be re-resolved
/// periodically.
#[derive(Clone, Copy, Debug, PartialEq, Eq, Structural)]
pub enum RefKind {
    /// The ref is a full commit identifier.
    Immutable,
    /// The ref is a branch or tag name (or anything else) and needs resolution.
    Mutable,
}

/// A hexadecimal digit, in either case.
pub open spec fn is_hex_char(c: char) -> bool {
    ('0' <= c && c <= '9') || ('a' <= c && c <= 'f') || ('A' <= c && c <= 'F')
}

/// A commit identifier: exactly forty hexadecimal characters.
pub open spec fn is_commit_id(s: Seq<char>) -> bool {
    s.len() == 40 && (forall|i: int| 0 <= i < s.len() ==> is_hex_char(#[trigger] s[i]))
}

/// What `classify` returns on a given ref.
pub open spec fn spec_classify(s: Seq<char>) -> RefKind {
    if is_commit_id(s) {
        RefKind::Immutable
    } else {
        RefKind::Mutable
    }
}

fn is_hex_char_exec(c: char) -> (r: bool)
    ensures
        r == is_hex_char(c),
{
    ('0' <= c && c <= '9') || ('a' <= c && c <= 'f') || ('A' <= c && c <= 'F')
}

/// Classify a ref. Total over all strings: forty hexadecimal characters mean
/// `Immutable`, anything else means `Mutable`.
pub fn classify(r: &str) -> (k: RefKind)
    ensures
        k == spec_classify(r@),
{
    let n = r.unicode_len();
    if n != 40 {
        return RefKind::Mutable;
    }
    let mut i: usize = 0;
    while i < n
        invariant
            n == r@.len(),
            n == 40,
            i <= n,
            forall|j: int| 0 <= j < i ==> is_hex_char(#[trigger] r@[j]),
        decreases n - i,
    {
        let c = r.get_char(i);
        if !is_hex_char_exec(c) {
            return RefKind::Mutable;
        }
        i += 1;
    }
    RefKind::Immutable
}

} // verus!
