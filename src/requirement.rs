//! Trust requirements and the verdict of one requirement over the outcomes of
//! verifying an image's signatures.

use vstd::prelude::*;
use vstd::string::*;
use crate::identity::{identity_matches, PolicyReqMatchType};
use vstd::seq_lib::group_to_multiset_ensures;

verus! {

/// The signing scheme a requirement relies on.
#[derive(Clone, Copy, Debug, PartialEq, Eq, Structural)]
pub enum SignatureMechanism {
    SimpleSigning,
    Cosign,
}

/// Why one signature did not verify.
#[derive(Clone, Copy, Debug, PartialEq, Eq, Structural)]
pub enum VerificationFailure {
    /// The key could not be read or is malformed.
    KeyLoadFailure,
    /// The signature does not authenticate under the key.
    CryptoVerificationFailure,
    /// The signature authenticates but its payload cannot be decoded.
    PayloadDecodeFailure,
}

/// A failed verification, tagged with the mechanism that failed.
#[derive(Clone, Copy, Debug, PartialEq, Eq, Structural)]
pub struct VerificationError {
    pub mechanism: SignatureMechanism,
    pub failure: VerificationFailure,
}

/// What a verifier recovered from a signature that authenticated.
#[derive(Clone, Debug, PartialEq, Eq)]
pub struct VerifiedPayload {
    /// The reference the signer asserted the image to be.
    pub identity: String,
    /// The digest of the signed content.
    pub digest: String,
}

/// Parameters of a Simple Signing requirement.
#[derive(Clone, Debug, PartialEq, Eq)]
pub struct SimpleParameters {
    pub key_type: String,
    pub key_path: Option<String>,
    pub key_data: Option<String>,
    pub signed_identity: Option<PolicyReqMatchType>,
}

/// Parameters of a Cosign requirement.
#[derive(Clone, Debug, PartialEq, Eq)]
pub struct CosignParameters {
    pub key_path: Option<String>,
    pub key_data: Option<String>,
    pub signed_identity: Option<PolicyReqMatchType>,
}

/// One trust requirement of a policy scope.
#[derive(Clone, Debug, PartialEq, Eq)]
pub enum PolicyReqType {
    /// Accept the image unconditionally.
    Accept,
    /// Reject the image unconditionally.
    Reject,
    /// Require a Simple Signing signature.
    SimpleSigning(SimpleParameters),
    /// Require a Cosign signature.
    Cosign(CosignParameters),
}

/// What is wrong with a requirement's key source.
#[derive(Clone, Copy, Debug, PartialEq, Eq, Structural)]
pub enum KeySourceError {
    /// Neither inline key data nor a key path is given.
    Missing,
    /// Both inline key data and a key path are given.
    Contradictory,
}

/// Where the verification key of a signed requirement comes from.
#[derive(Clone, Debug, PartialEq, Eq)]
pub enum KeySource {
    Inline(String),
    Path(String),
}

/// Why a requirement is not satisfied.
#[derive(Clone, Copy, Debug, PartialEq, Eq, Structural)]
pub enum UnsatisfiedReason {
    /// The requirement rejects every image.
    Rejected,
    /// The image carries no signature.
    NoSignatures,
    /// Some signature verified, but none names the requested image.
    IdentityMismatch,
    /// No signature verified; the first failure is kept.
    VerificationFailed(VerificationError),
}

/// The verdict of one requirement.
#[derive(Clone, Copy, Debug, PartialEq, Eq, Structural)]
pub enum Verdict {
    Satisfied,
    Unsatisfied(UnsatisfiedReason),
}

/// The rule a signed requirement applies: exact match unless another is configured.
pub open spec fn effective_rule(rule: Option<PolicyReqMatchType>) -> PolicyReqMatchType {
    match rule {
        Some(r) => r,
        None => PolicyReqMatchType::MatchExact,
    }
}

/// The signature outcome `o` verified and names the requested image under `rule`.
pub open spec fn signature_accepted(
    rule: PolicyReqMatchType,
    o: Result<VerifiedPayload, VerificationError>,
    requested: Seq<char>,
) -> bool {
    match o {
        Ok(p) => identity_matches(rule, p.identity@, requested),
        Err(_) => false,
    }
}

/// Verdict of a signed requirement whose rule is `rule`.
pub open spec fn signed_verdict(
    rule: PolicyReqMatchType,
    requested: Seq<char>,
    outcomes: Seq<Result<VerifiedPayload, VerificationError>>,
) -> Verdict {
    if outcomes.len() == 0 {
        Verdict::Unsatisfied(UnsatisfiedReason::NoSignatures)
    } else if exists|i: int| 0 <= i < outcomes.len() && signature_accepted(rule, #[trigger] outcomes[i], requested) {
        Verdict::Satisfied
    } else if exists|i: int| 0 <= i < outcomes.len() && (#[trigger] outcomes[i]) is Ok {
        Verdict::Unsatisfied(UnsatisfiedReason::IdentityMismatch)
    } else {
        Verdict::Unsatisfied(UnsatisfiedReason::VerificationFailed(outcomes[0]->Err_0))
    }
}

/// Verdict of `req` for a request of `requested`, where `outcomes[i]` is the result of
/// verifying the image's i-th signature with the requirement's key.
pub open spec fn requirement_verdict(
    req: PolicyReqType,
    requested: Seq<char>,
    outcomes: Seq<Result<VerifiedPayload, VerificationError>>,
) -> Verdict {
    match req {
        PolicyReqType::Accept => Verdict::Satisfied,
        PolicyReqType::Reject => Verdict::Unsatisfied(UnsatisfiedReason::Rejected),
        PolicyReqType::SimpleSigning(p) => signed_verdict(effective_rule(p.signed_identity), requested, outcomes),
        PolicyReqType::Cosign(p) => signed_verdict(effective_rule(p.signed_identity), requested, outcomes),
    }
}

/// The identity rule a signed requirement applies.
pub open spec fn requirement_rule(req: PolicyReqType) -> PolicyReqMatchType {
    match req {
        PolicyReqType::SimpleSigning(p) => effective_rule(p.signed_identity),
        PolicyReqType::Cosign(p) => effective_rule(p.signed_identity),
        _ => PolicyReqMatchType::MatchExact,
    }
}

/// `req` asks for a signature.
pub open spec fn is_signed_requirement(req: PolicyReqType) -> bool {
    req is SimpleSigning || req is Cosign
}

/// `Accept` is satisfied and `Reject` is not, whatever signatures the image carries.
pub proof fn lemma_unconditional_requirements(
    requested: Seq<char>,
    outcomes: Seq<Result<VerifiedPayload, VerificationError>>,
)
    ensures
        requirement_verdict(PolicyReqType::Accept, requested, outcomes) == Verdict::Satisfied,
        requirement_verdict(PolicyReqType::Reject, requested, outcomes) is Unsatisfied,
{
}

/// A signed requirement over an image without signatures is unsatisfied, and says so.
pub proof fn lemma_no_signatures_unsatisfied(req: PolicyReqType, requested: Seq<char>)
    requires
        is_signed_requirement(req),
    ensures
        requirement_verdict(req, requested, Seq::empty())
            == Verdict::Unsatisfied(UnsatisfiedReason::NoSignatures),
{
}

/// A signed requirement is satisfied exactly when some signature both verified and
/// names the requested image under the requirement's rule.
pub proof fn lemma_signed_satisfied_iff_one_accepted(
    req: PolicyReqType,
    requested: Seq<char>,
    outcomes: Seq<Result<VerifiedPayload, VerificationError>>,
)
    requires
        is_signed_requirement(req),
    ensures
        (requirement_verdict(req, requested, outcomes) is Satisfied) <==> exists|i: int|
            0 <= i < outcomes.len() && signature_accepted(requirement_rule(req), #[trigger] outcomes[i], requested),
{
}

/// Whether a requirement is satisfied does not depend on the order of the signatures.
pub proof fn lemma_signature_order_irrelevant(
    req: PolicyReqType,
    requested: Seq<char>,
    a: Seq<Result<VerifiedPayload, VerificationError>>,
    b: Seq<Result<VerifiedPayload, VerificationError>>,
)
    requires
        a.to_multiset() == b.to_multiset(),
    ensures
        (requirement_verdict(req, requested, a) is Satisfied) <==> (requirement_verdict(req, requested, b) is Satisfied),
{
    broadcast use group_to_multiset_ensures;
    if is_signed_requirement(req) {
        let rule = requirement_rule(req);
        assert(a.len() == b.len()) by {
            assert(a.len() == a.to_multiset().len());
            assert(b.len() == b.to_multiset().len());
        }
        if exists|i: int| 0 <= i < a.len() && signature_accepted(rule, #[trigger] a[i], requested) {
            let i = choose|i: int| 0 <= i < a.len() && signature_accepted(rule, #[trigger] a[i], requested);
            assert(a.contains(a[i]));
            assert(a.to_multiset().count(a[i]) > 0);
            assert(b.to_multiset().count(a[i]) > 0);
            assert(b.contains(a[i]));
            let j = choose|j: int| 0 <= j < b.len() && b[j] == a[i];
            assert(signature_accepted(rule, b[j], requested));
        }
        if exists|j: int| 0 <= j < b.len() && signature_accepted(rule, #[trigger] b[j], requested) {
            let j = choose|j: int| 0 <= j < b.len() && signature_accepted(rule, #[trigger] b[j], requested);
            assert(b.contains(b[j]));
            assert(b.to_multiset().count(b[j]) > 0);
            assert(a.to_multiset().count(b[j]) > 0);
            assert(a.contains(b[j]));
            let i = choose|i: int| 0 <= i < a.len() && a[i] == b[j];
            assert(signature_accepted(rule, a[i], requested));
        }
    }
}

/// Signatures looked at after a satisfying one do not change the verdict.
pub proof fn lemma_extra_signatures_keep_satisfied(
    req: PolicyReqType,
    requested: Seq<char>,
    outcomes: Seq<Result<VerifiedPayload, VerificationError>>,
    extra: Seq<Result<VerifiedPayload, VerificationError>>,
)
    requires
        requirement_verdict(req, requested, outcomes) is Satisfied,
    ensures
        requirement_verdict(req, requested, outcomes + extra) is Satisfied,
{
    if is_signed_requirement(req) {
        let rule = requirement_rule(req);
        let i = choose|i: int| 0 <= i < outcomes.len() && signature_accepted(rule, #[trigger] outcomes[i], requested);
        assert((outcomes + extra)[i] == outcomes[i]);
    }
}

/// What is wrong with a key source given as a path and inline data, if anything.
pub open spec fn key_source_error_of(key_path: Option<String>, key_data: Option<String>) -> Option<KeySourceError> {
    match (key_path, key_data) {
        (Some(_), Some(_)) => Some(KeySourceError::Contradictory),
        (None, None) => Some(KeySourceError::Missing),
        _ => None,
    }
}

/// What is wrong with the key source of `req`, if anything.
pub open spec fn requirement_key_error(req: PolicyReqType) -> Option<KeySourceError> {
    match req {
        PolicyReqType::SimpleSigning(p) => key_source_error_of(p.key_path, p.key_data),
        PolicyReqType::Cosign(p) => key_source_error_of(p.key_path, p.key_data),
        _ => None,
    }
}

/// Applies `rule`, or the exact-match default when there is none.
fn rule_matches(rule: &Option<PolicyReqMatchType>, signed_identity: &str, requested: &str) -> (r: bool)
    ensures
        r == identity_matches(effective_rule(*rule), signed_identity@, requested@),
{
    match rule {
        Some(rule) => rule.matches(signed_identity, requested),
        None => PolicyReqMatchType::MatchExact.matches(signed_identity, requested),
    }
}

/// Verdict of a signed requirement: satisfied by the first signature that verified and
/// names the requested image.
fn evaluate_signed(
    rule: &Option<PolicyReqMatchType>,
    requested: &str,
    outcomes: &Vec<Result<VerifiedPayload, VerificationError>>,
) -> (v: Verdict)
    ensures
        v == signed_verdict(effective_rule(*rule), requested@, outcomes@),
{
    let ghost eff = effective_rule(*rule);
    if outcomes.len() == 0 {
        return Verdict::Unsatisfied(UnsatisfiedReason::NoSignatures);
    }
    let mut verified_any = false;
    let mut i: usize = 0;
    while i < outcomes.len()
        invariant
            i <= outcomes@.len(),
            eff == effective_rule(*rule),
            forall|j: int| 0 <= j < i ==> !signature_accepted(eff, #[trigger] outcomes@[j], requested@),
            verified_any == exists|j: int| 0 <= j < i && (#[trigger] outcomes@[j]) is Ok,
        decreases outcomes@.len() - i,
    {
        let outcome = &outcomes[i];
        assert(*outcome == outcomes@[i as int]);
        match outcome {
            Ok(payload) => {
                let m = rule_matches(rule, payload.identity.as_str(), requested);
                assert(m == signature_accepted(eff, *outcome, requested@));
                if m {
                    return Verdict::Satisfied;
                }
                verified_any = true;
            },
            Err(_) => {},
        }
        i = i + 1;
    }
    if verified_any {
        Verdict::Unsatisfied(UnsatisfiedReason::IdentityMismatch)
    } else {
        match &outcomes[0] {
            Ok(_) => {
                assert(outcomes@[0] is Ok);
                Verdict::Unsatisfied(UnsatisfiedReason::IdentityMismatch)
            },
            Err(e) => Verdict::Unsatisfied(UnsatisfiedReason::VerificationFailed(*e)),
        }
    }
}

/// Human-readable text of an unsatisfied reason.
pub open spec fn reason_text(r: UnsatisfiedReason) -> Seq<char> {
    match r {
        UnsatisfiedReason::Rejected => "explicitly rejected by policy"@,
        UnsatisfiedReason::NoSignatures => "no signatures present"@,
        UnsatisfiedReason::IdentityMismatch => "signature verified but its identity does not match"@,
        UnsatisfiedReason::VerificationFailed(_) => "no signature could be verified"@,
    }
}

impl UnsatisfiedReason {
    /// The reason as text for a person reading a rejection.
    pub fn message(&self) -> (s: String)
        ensures
            s@ == reason_text(*self),
    {
        match self {
            UnsatisfiedReason::Rejected => String::from_str("explicitly rejected by policy"),
            UnsatisfiedReason::NoSignatures => String::from_str("no signatures present"),
            UnsatisfiedReason::IdentityMismatch => {
                String::from_str("signature verified but its identity does not match")
            },
            UnsatisfiedReason::VerificationFailed(_) => String::from_str("no signature could be verified"),
        }
    }
}

impl PolicyReqType {
    /// The verdict of this requirement for a request of `requested`, where `outcomes[i]`
    /// is the result of verifying the image's i-th signature with this requirement's key
    /// (ignored by `Accept` and `Reject`).
    pub fn evaluate(
        &self,
        requested: &str,
        outcomes: &Vec<Result<VerifiedPayload, VerificationError>>,
    ) -> (v: Verdict)
        ensures
            v == requirement_verdict(*self, requested@, outcomes@),
    {
        match self {
            PolicyReqType::Accept => Verdict::Satisfied,
            PolicyReqType::Reject => Verdict::Unsatisfied(UnsatisfiedReason::Rejected),
            PolicyReqType::SimpleSigning(p) => evaluate_signed(&p.signed_identity, requested, outcomes),
            PolicyReqType::Cosign(p) => evaluate_signed(&p.signed_identity, requested, outcomes),
        }
    }

    /// The signing mechanism this requirement verifies with, if it needs signatures.
    pub fn mechanism(&self) -> (m: Option<SignatureMechanism>)
        ensures
            m == match *self {
                PolicyReqType::SimpleSigning(_) => Some(SignatureMechanism::SimpleSigning),
                PolicyReqType::Cosign(_) => Some(SignatureMechanism::Cosign),
                _ => None::<SignatureMechanism>,
            },
    {
        match self {
            PolicyReqType::SimpleSigning(_) => Some(SignatureMechanism::SimpleSigning),
            PolicyReqType::Cosign(_) => Some(SignatureMechanism::Cosign),
            _ => None,
        }
    }

    /// Checks that a signed requirement names exactly one key source.
    pub fn check_key_source(&self) -> (r: Result<(), KeySourceError>)
        ensures
            r matches Ok(_) <==> requirement_key_error(*self) is None,
            r matches Err(e) ==> requirement_key_error(*self) == Some(e),
    {
        match self {
            PolicyReqType::SimpleSigning(p) => check_key_pair(&p.key_path, &p.key_data),
            PolicyReqType::Cosign(p) => check_key_pair(&p.key_path, &p.key_data),
            _ => Ok(()),
        }
    }
}

/// The key source given as a path and inline data, when exactly one is given.
pub open spec fn key_source_of(key_path: Option<String>, key_data: Option<String>) -> Option<KeySource> {
    match (key_path, key_data) {
        (None, Some(d)) => Some(KeySource::Inline(d)),
        (Some(p), None) => Some(KeySource::Path(p)),
        _ => None,
    }
}

fn select_key_source(key_path: &Option<String>, key_data: &Option<String>) -> (r: Result<KeySource, KeySourceError>)
    ensures
        r matches Ok(k) ==> key_source_of(*key_path, *key_data) == Some(k),
        r matches Err(e) ==> key_source_error_of(*key_path, *key_data) == Some(e),
        r is Ok <==> key_source_error_of(*key_path, *key_data) is None,
{
    match (key_path, key_data) {
        (None, Some(d)) => Ok(KeySource::Inline(d.clone())),
        (Some(p), None) => Ok(KeySource::Path(p.clone())),
        (Some(_), Some(_)) => Err(KeySourceError::Contradictory),
        (None, None) => Err(KeySourceError::Missing),
    }
}

impl SimpleParameters {
    /// The key to verify with: the inline key data or the key path, whichever is given;
    /// an error when neither or both are.
    pub fn key_source(&self) -> (r: Result<KeySource, KeySourceError>)
        ensures
            r matches Ok(k) ==> key_source_of(self.key_path, self.key_data) == Some(k),
            r matches Err(e) ==> key_source_error_of(self.key_path, self.key_data) == Some(e),
            r is Ok <==> key_source_error_of(self.key_path, self.key_data) is None,
    {
        select_key_source(&self.key_path, &self.key_data)
    }
}

impl CosignParameters {
    /// The key to verify with: the inline key data or the key path, whichever is given;
    /// an error when neither or both are.
    pub fn key_source(&self) -> (r: Result<KeySource, KeySourceError>)
        ensures
            r matches Ok(k) ==> key_source_of(self.key_path, self.key_data) == Some(k),
            r matches Err(e) ==> key_source_error_of(self.key_path, self.key_data) == Some(e),
            r is Ok <==> key_source_error_of(self.key_path, self.key_data) is None,
    {
        select_key_source(&self.key_path, &self.key_data)
    }
}

fn check_key_pair(key_path: &Option<String>, key_data: &Option<String>) -> (r: Result<(), KeySourceError>)
    ensures
        r matches Ok(_) <==> key_source_error_of(*key_path, *key_data) is None,
        r matches Err(e) ==> key_source_error_of(*key_path, *key_data) == Some(e),
{
    match (key_path, key_data) {
        (Some(_), Some(_)) => Err(KeySourceError::Contradictory),
        (None, None) => Err(KeySourceError::Missing),
        _ => Ok(()),
    }
}

} // verus!
