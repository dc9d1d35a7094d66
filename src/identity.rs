//! Identity matching: does the identity embedded in a verified signature stand for
//! the image that was requested?

use vstd::prelude::*;
use vstd::string::*;

verus! {

/// `p` is a prefix of `s`.
pub open spec fn is_prefix_of(p: Seq<char>, s: Seq<char>) -> bool {
    p.len() <= s.len() && s.subrange(0, p.len() as int) == p
}

/// How the identity in a signature must relate to the requested reference.
#[derive(Clone, Debug, PartialEq, Eq)]
pub enum PolicyReqMatchType {
    /// The signed identity equals the requested reference.
    MatchExact,
    /// The signed identity equals a fixed reference, whatever was requested.
    ExactReference { docker_reference: String },
    /// The requested reference starts with `prefix`; with that prefix replaced by
    /// `signed_prefix` it must equal the signed identity.
    RemapIdentity { prefix: String, signed_prefix: String },
}

/// The reference a `RemapIdentity` rule expects to find signed, for a requested
/// reference that starts with `prefix`.
pub open spec fn remapped(prefix: Seq<char>, signed_prefix: Seq<char>, requested: Seq<char>) -> Seq<char> {
    signed_prefix + requested.skip(prefix.len() as int)
}

/// Whether `signed` satisfies `rule` for a request of `requested`.
pub open spec fn identity_matches(rule: PolicyReqMatchType, signed: Seq<char>, requested: Seq<char>) -> bool {
    match rule {
        PolicyReqMatchType::MatchExact => signed == requested,
        PolicyReqMatchType::ExactReference { docker_reference } => signed == docker_reference@,
        PolicyReqMatchType::RemapIdentity { prefix, signed_prefix } => {
            is_prefix_of(prefix@, requested) && signed == remapped(prefix@, signed_prefix@, requested)
        },
    }
}

/// An exact-match rule accepts a signed identity exactly when it equals the request.
pub proof fn lemma_match_exact(signed: Seq<char>, requested: Seq<char>)
    ensures
        identity_matches(PolicyReqMatchType::MatchExact, signed, requested) <==> signed == requested,
{
}

/// A remapping rule matches nothing for a request without its prefix; for a request
/// with it, exactly the request with the prefix replaced.
pub proof fn lemma_remap_identity(
    prefix: String,
    signed_prefix: String,
    signed: Seq<char>,
    requested: Seq<char>,
)
    ensures
        !is_prefix_of(prefix@, requested) ==> !identity_matches(
            PolicyReqMatchType::RemapIdentity { prefix, signed_prefix },
            signed,
            requested,
        ),
        is_prefix_of(prefix@, requested) ==> (identity_matches(
            PolicyReqMatchType::RemapIdentity { prefix, signed_prefix },
            signed,
            requested,
        ) <==> signed == signed_prefix@ + requested.skip(prefix@.len() as int)),
{
}

/// Whether the first `n` characters of `a` and `b` agree.
fn same_first_chars(a: &str, b: &str, n: usize) -> (r: bool)
    requires
        n <= a@.len(),
        n <= b@.len(),
    ensures
        r == (a@.subrange(0, n as int) == b@.subrange(0, n as int)),
{
    let mut i: usize = 0;
    while i < n
        invariant
            i <= n,
            n <= a@.len(),
            n <= b@.len(),
            a@.subrange(0, i as int) == b@.subrange(0, i as int),
        decreases n - i,
    {
        if a.get_char(i) != b.get_char(i) {
            assert(a@.subrange(0, n as int)[i as int] != b@.subrange(0, n as int)[i as int]);
            return false;
        }
        assert(a@.subrange(0, i + 1) =~= a@.subrange(0, i as int).push(a@[i as int]));
        assert(b@.subrange(0, i + 1) =~= b@.subrange(0, i as int).push(b@[i as int]));
        i = i + 1;
    }
    true
}

/// Character-wise equality of two strings.
pub fn str_equal(a: &str, b: &str) -> (r: bool)
    ensures
        r == (a@ == b@),
{
    let n = a.unicode_len();
    if n != b.unicode_len() {
        return false;
    }
    let r = same_first_chars(a, b, n);
    assert(a@.subrange(0, n as int) =~= a@);
    assert(b@.subrange(0, n as int) =~= b@);
    r
}

/// Whether `s` begins with `p`.
pub fn has_prefix(s: &str, p: &str) -> (r: bool)
    ensures
        r == is_prefix_of(p@, s@),
{
    let n = p.unicode_len();
    if n > s.unicode_len() {
        return false;
    }
    let r = same_first_chars(s, p, n);
    assert(p@.subrange(0, n as int) =~= p@);
    r
}

impl PolicyReqMatchType {
    /// Decides whether `signed_identity`, taken from a signature that has already been
    /// verified, satisfies this rule for a request of `requested`.
    pub fn matches(&self, signed_identity: &str, requested: &str) -> (r: bool)
        ensures
            r == identity_matches(*self, signed_identity@, requested@),
    {
        match self {
            PolicyReqMatchType::MatchExact => str_equal(signed_identity, requested),
            PolicyReqMatchType::ExactReference { docker_reference } => {
                str_equal(signed_identity, docker_reference.as_str())
            },
            PolicyReqMatchType::RemapIdentity { prefix, signed_prefix } => {
                if !has_prefix(requested, prefix.as_str()) {
                    return false;
                }
                let rest = requested.substring_char(prefix.as_str().unicode_len(), requested.unicode_len());
                let expected = signed_prefix.clone().concat(rest);
                assert(rest@ =~= requested@.skip(prefix@.len() as int));
                str_equal(signed_identity, expected.as_str())
            },
        }
    }
}

} // verus!
