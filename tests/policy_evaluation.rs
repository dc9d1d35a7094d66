use trust_policy::engine::{Decision, EvaluationMode, PolicyDocument, PolicyError, PolicyScope, PolicyStore, Rejection};
use trust_policy::identity::PolicyReqMatchType;
use trust_policy::requirement::{
    CosignParameters, KeySource, KeySourceError, PolicyReqType, SignatureMechanism, SimpleParameters,
    UnsatisfiedReason, VerificationError, VerificationFailure, Verdict, VerifiedPayload,
};

type Outcome = Result<VerifiedPayload, VerificationError>;

fn signed_by(rule: Option<PolicyReqMatchType>) -> PolicyReqType {
    PolicyReqType::SimpleSigning(SimpleParameters {
        key_type: "GPGKeys".to_string(),
        key_path: Some("/keys/public-gpg-keyring".to_string()),
        key_data: None,
        signed_identity: rule,
    })
}

fn verified(identity: &str) -> Outcome {
    Ok(VerifiedPayload { identity: identity.to_string(), digest: "sha256:00".to_string() })
}

fn failed(failure: VerificationFailure) -> Outcome {
    Err(VerificationError { mechanism: SignatureMechanism::SimpleSigning, failure })
}

fn scope(s: &str, requirements: Vec<PolicyReqType>) -> PolicyScope {
    PolicyScope { scope: s.to_string(), requirements }
}

fn library_policy() -> PolicyDocument {
    PolicyDocument::new(vec![
        scope("*", vec![PolicyReqType::Reject]),
        scope("docker.io/library/*", vec![signed_by(Some(PolicyReqMatchType::MatchExact))]),
    ])
    .unwrap()
}

#[test]
fn accept_and_reject_ignore_signatures() {
    let sigs = vec![verified("x"), failed(VerificationFailure::CryptoVerificationFailure)];
    assert_eq!(PolicyReqType::Accept.evaluate("a/b:c", &sigs), Verdict::Satisfied);
    assert_eq!(PolicyReqType::Accept.evaluate("a/b:c", &vec![]), Verdict::Satisfied);
    assert_eq!(
        PolicyReqType::Reject.evaluate("a/b:c", &sigs),
        Verdict::Unsatisfied(UnsatisfiedReason::Rejected)
    );
    assert_eq!(UnsatisfiedReason::Rejected.message(), "explicitly rejected by policy");
}

#[test]
fn signed_requirement_without_signatures() {
    let v = signed_by(None).evaluate("a/b:c", &vec![]);
    assert_eq!(v, Verdict::Unsatisfied(UnsatisfiedReason::NoSignatures));
    assert_eq!(UnsatisfiedReason::NoSignatures.message(), "no signatures present");
    let cosign = PolicyReqType::Cosign(CosignParameters {
        key_path: None,
        key_data: Some("key".to_string()),
        signed_identity: None,
    });
    assert_eq!(cosign.evaluate("a/b:c", &vec![]), Verdict::Unsatisfied(UnsatisfiedReason::NoSignatures));
}

#[test]
fn one_good_signature_is_enough_in_any_position() {
    let req = signed_by(None);
    let good = verified("a/b:c");
    let bad = failed(VerificationFailure::CryptoVerificationFailure);
    let other = verified("a/b:d");
    for sigs in [
        vec![good.clone(), bad.clone(), other.clone()],
        vec![bad.clone(), other.clone(), good.clone()],
        vec![other.clone(), good.clone(), bad.clone()],
    ] {
        assert_eq!(req.evaluate("a/b:c", &sigs), Verdict::Satisfied);
    }
}

#[test]
fn mismatch_is_reported_over_verification_failure() {
    let req = signed_by(None);
    let sigs = vec![failed(VerificationFailure::KeyLoadFailure), verified("a/b:d")];
    assert_eq!(req.evaluate("a/b:c", &sigs), Verdict::Unsatisfied(UnsatisfiedReason::IdentityMismatch));
}

#[test]
fn first_verification_failure_is_reported() {
    let req = signed_by(None);
    let sigs = vec![
        failed(VerificationFailure::PayloadDecodeFailure),
        failed(VerificationFailure::CryptoVerificationFailure),
    ];
    let expected = VerificationError {
        mechanism: SignatureMechanism::SimpleSigning,
        failure: VerificationFailure::PayloadDecodeFailure,
    };
    assert_eq!(req.evaluate("a/b:c", &sigs), Verdict::Unsatisfied(UnsatisfiedReason::VerificationFailed(expected)));
}

#[test]
fn signed_by_exact_identity_is_accepted() {
    let doc = library_policy();
    let outcomes = vec![vec![verified("docker.io/library/busybox:latest")]];
    let d = doc.decide("docker.io/library/busybox:latest", &outcomes, EvaluationMode::FailFast);
    assert_eq!(d, Decision::Accept);
}

#[test]
fn signed_by_other_tag_is_rejected() {
    let doc = library_policy();
    let outcomes = vec![vec![verified("docker.io/library/busybox:old")]];
    let d = doc.decide("docker.io/library/busybox:latest", &outcomes, EvaluationMode::FailFast);
    assert_eq!(
        d,
        Decision::Reject(vec![Rejection { requirement: 0, reason: UnsatisfiedReason::IdentityMismatch }])
    );
}

#[test]
fn default_accept_without_signatures() {
    let doc = PolicyDocument::new(vec![scope("*", vec![PolicyReqType::Accept])]).unwrap();
    let d = doc.decide("quay.io/any/thing:1", &vec![], EvaluationMode::CollectAll);
    assert_eq!(d, Decision::Accept);
}

#[test]
fn remapped_mirror_is_accepted() {
    let rule = PolicyReqMatchType::RemapIdentity {
        prefix: "mirror.example/".to_string(),
        signed_prefix: "docker.io/".to_string(),
    };
    let doc = PolicyDocument::new(vec![scope("*", vec![signed_by(Some(rule))])]).unwrap();
    let outcomes = vec![vec![verified("docker.io/busybox:latest")]];
    let d = doc.decide("mirror.example/busybox:latest", &outcomes, EvaluationMode::FailFast);
    assert_eq!(d, Decision::Accept);
}

#[test]
fn most_specific_scope_wins() {
    let doc = PolicyDocument::new(vec![
        scope("*", vec![PolicyReqType::Reject]),
        scope("docker.io/*", vec![PolicyReqType::Accept]),
        scope("docker.io/library/*", vec![PolicyReqType::Reject]),
        scope("docker.io/library", vec![PolicyReqType::Accept]),
    ])
    .unwrap();
    assert_eq!(doc.resolve("docker.io/library/busybox:latest"), 2);
    assert_eq!(doc.resolve("docker.io/other/busybox:latest"), 1);
    assert_eq!(doc.resolve("quay.io/x:1"), 0);
    let d = doc.decide("docker.io/other/busybox:latest", &vec![], EvaluationMode::FailFast);
    assert_eq!(d, Decision::Accept);
    let d = doc.decide("quay.io/x:1", &vec![], EvaluationMode::FailFast);
    assert_eq!(d, Decision::Reject(vec![Rejection { requirement: 0, reason: UnsatisfiedReason::Rejected }]));
}

#[test]
fn equal_scopes_resolve_to_the_first() {
    let doc = PolicyDocument::new(vec![
        scope("*", vec![PolicyReqType::Reject]),
        scope("a/*", vec![PolicyReqType::Accept]),
        scope("a/", vec![PolicyReqType::Reject]),
    ])
    .unwrap();
    assert_eq!(doc.resolve("a/b"), 1);
}

#[test]
fn every_requirement_must_hold() {
    let reqs = vec![PolicyReqType::Accept, signed_by(None), PolicyReqType::Accept];
    let doc = PolicyDocument::new(vec![scope("*", reqs)]).unwrap();
    let good = vec![vec![], vec![verified("r:1")], vec![]];
    assert_eq!(doc.decide("r:1", &good, EvaluationMode::CollectAll), Decision::Accept);
    let bad = vec![vec![], vec![verified("r:2")], vec![]];
    assert_eq!(
        doc.decide("r:1", &bad, EvaluationMode::CollectAll),
        Decision::Reject(vec![Rejection { requirement: 1, reason: UnsatisfiedReason::IdentityMismatch }])
    );
    // A missing row of outcomes means no signatures.
    assert_eq!(
        doc.decide("r:1", &vec![], EvaluationMode::FailFast),
        Decision::Reject(vec![Rejection { requirement: 1, reason: UnsatisfiedReason::NoSignatures }])
    );
}

#[test]
fn collect_all_reports_every_failure_fail_fast_only_the_first() {
    let reqs = vec![PolicyReqType::Reject, PolicyReqType::Accept, signed_by(None)];
    let doc = PolicyDocument::new(vec![scope("*", reqs)]).unwrap();
    let all = doc.decide("r:1", &vec![], EvaluationMode::CollectAll);
    assert_eq!(
        all,
        Decision::Reject(vec![
            Rejection { requirement: 0, reason: UnsatisfiedReason::Rejected },
            Rejection { requirement: 2, reason: UnsatisfiedReason::NoSignatures },
        ])
    );
    let first = doc.decide("r:1", &vec![], EvaluationMode::FailFast);
    assert_eq!(first, Decision::Reject(vec![Rejection { requirement: 0, reason: UnsatisfiedReason::Rejected }]));
}

#[test]
fn document_errors() {
    let missing = PolicyDocument::new(vec![scope("docker.io/*", vec![PolicyReqType::Accept])]);
    assert_eq!(missing.err(), Some(PolicyError::MissingDefaultScope));
    let empty = PolicyDocument::new(vec![scope("*", vec![PolicyReqType::Accept]), scope("a/*", vec![])]);
    assert_eq!(empty.err(), Some(PolicyError::EmptyRequirementList { scope: 1 }));
    let both = PolicyReqType::SimpleSigning(SimpleParameters {
        key_type: "GPGKeys".to_string(),
        key_path: Some("/k".to_string()),
        key_data: Some("bm9uc2Vuc2U=".to_string()),
        signed_identity: None,
    });
    let contradictory = PolicyDocument::new(vec![scope("*", vec![PolicyReqType::Accept, both])]);
    assert_eq!(
        contradictory.err(),
        Some(PolicyError::InvalidKeySource { scope: 0, requirement: 1, error: KeySourceError::Contradictory })
    );
    let neither = PolicyReqType::Cosign(CosignParameters { key_path: None, key_data: None, signed_identity: None });
    let missing_key = PolicyDocument::new(vec![scope("*", vec![neither])]);
    assert_eq!(
        missing_key.err(),
        Some(PolicyError::InvalidKeySource { scope: 0, requirement: 0, error: KeySourceError::Missing })
    );
    assert_eq!(PolicyDocument::new(vec![]).err(), Some(PolicyError::MissingDefaultScope));
}

#[test]
fn key_sources() {
    let p = SimpleParameters {
        key_type: "GPGKeys".to_string(),
        key_path: None,
        key_data: Some("bm9uc2Vuc2U=".to_string()),
        signed_identity: None,
    };
    assert_eq!(p.key_source(), Ok(KeySource::Inline("bm9uc2Vuc2U=".to_string())));
    let c = CosignParameters { key_path: Some("/k".to_string()), key_data: None, signed_identity: None };
    assert_eq!(c.key_source(), Ok(KeySource::Path("/k".to_string())));
    assert_eq!(signed_by(None).mechanism(), Some(SignatureMechanism::SimpleSigning));
    assert_eq!(PolicyReqType::Accept.mechanism(), None);
}

#[test]
fn failed_reload_keeps_the_previous_document() {
    let mut store = PolicyStore::new(PolicyDocument::new(vec![scope("*", vec![PolicyReqType::Accept])]).unwrap());
    let r = store.reload(vec![scope("docker.io/*", vec![PolicyReqType::Reject])]);
    assert_eq!(r, Err(PolicyError::MissingDefaultScope));
    assert_eq!(store.current().decide("x", &vec![], EvaluationMode::FailFast), Decision::Accept);
    assert_eq!(store.reload(vec![scope("*", vec![PolicyReqType::Reject])]), Ok(()));
    assert_eq!(store.current().len(), 1);
    assert_eq!(
        store.current().decide("x", &vec![], EvaluationMode::FailFast),
        Decision::Reject(vec![Rejection { requirement: 0, reason: UnsatisfiedReason::Rejected }])
    );
}
