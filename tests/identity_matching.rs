use trust_policy::identity::{has_prefix, str_equal, PolicyReqMatchType};

fn remap() -> PolicyReqMatchType {
    PolicyReqMatchType::RemapIdentity {
        prefix: "mirror.example/".to_string(),
        signed_prefix: "docker.io/".to_string(),
    }
}

#[test]
fn match_exact_requires_equal_reference() {
    let rule = PolicyReqMatchType::MatchExact;
    assert!(rule.matches("docker.io/library/busybox:latest", "docker.io/library/busybox:latest"));
    assert!(!rule.matches("docker.io/library/busybox:old", "docker.io/library/busybox:latest"));
    assert!(!rule.matches("docker.io/library/busybox", "docker.io/library/busybox:latest"));
    assert!(!rule.matches("docker.io/library/busybox:latest", "docker.io/library/alpine:latest"));
}

#[test]
fn match_exact_on_digest_references() {
    let rule = PolicyReqMatchType::MatchExact;
    let r = "quay.io/app@sha256:0123456789abcdef";
    assert!(rule.matches(r, r));
    assert!(!rule.matches("quay.io/app@sha256:0123456789abcdee", r));
}

#[test]
fn exact_reference_ignores_the_request() {
    let rule = PolicyReqMatchType::ExactReference {
        docker_reference: "docker.io/example/busybox:latest".to_string(),
    };
    assert!(rule.matches("docker.io/example/busybox:latest", "anything.example/other:1"));
    assert!(!rule.matches("docker.io/example/busybox:old", "docker.io/example/busybox:latest"));
}

#[test]
fn remap_identity_accepts_mirrored_reference() {
    assert!(remap().matches("docker.io/busybox:latest", "mirror.example/busybox:latest"));
}

#[test]
fn remap_identity_rejects_wrong_signed_reference() {
    assert!(!remap().matches("docker.io/busybox:old", "mirror.example/busybox:latest"));
    assert!(!remap().matches("mirror.example/busybox:latest", "mirror.example/busybox:latest"));
}

#[test]
fn remap_identity_requires_prefix() {
    // Without the prefix on the request, no signed identity matches.
    assert!(!remap().matches("docker.io/busybox:latest", "other.example/busybox:latest"));
    assert!(!remap().matches("docker.io/busybox:latest", "docker.io/busybox:latest"));
    assert!(!remap().matches("docker.io/", "mirror.example"));
}

#[test]
fn remap_identity_with_empty_rest() {
    assert!(remap().matches("docker.io/", "mirror.example/"));
}

#[test]
fn string_helpers() {
    assert!(str_equal("", ""));
    assert!(!str_equal("a", ""));
    assert!(str_equal("äbc", "äbc"));
    assert!(has_prefix("abc", ""));
    assert!(has_prefix("abc", "ab"));
    assert!(!has_prefix("ab", "abc"));
    assert!(!has_prefix("abc", "b"));
}
