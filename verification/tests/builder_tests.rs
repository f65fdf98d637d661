use fleet_control::builder::{
    build_id, signature_matches, status_label, verify_webhook_signature, BuildRecord, BuildStatus,
    Commit, WebhookPayload,
};
use fleet_control::errors::{is_retryable, response_code, CoreError, ProviderError};
use fleet_control::models::ServiceError;
use fleet_control::volumes::{
    HetznerVolumeAttachmentConfig, HetznerVolumeResizeConfig, VultrVolumeAttachmentConfig,
    VultrVolumeDetachConfig,
};
use crypto_mac::{Mac, NewMac};
use hmac::Hmac;
use sha2::Sha256;

fn reference_signature_header(secret: &[u8], body: &[u8]) -> Vec<u8> {
    let mut mac = <Hmac<Sha256> as NewMac>::new_varkey(secret).unwrap();
    mac.update(body);
    let digest = mac.finalize().into_bytes();
    let mut header = b"sha256=".to_vec();
    header.extend_from_slice(hex::encode(digest).as_bytes());
    header
}

#[test]
fn webhook_signature_accepts_the_real_digest() {
    let secret = b"SECRET-REDACTED".to_vec();
    let body = b"{\"ref\":\"refs/heads/main\"}".to_vec();
    let header = reference_signature_header(&secret, &body);
    assert!(verify_webhook_signature(&secret, &body, &header));
}

#[test]
fn webhook_signature_rejects_a_tampered_body() {
    let secret = b"SECRET-REDACTED".to_vec();
    let body = b"{\"ref\":\"refs/heads/main\"}".to_vec();
    let header = reference_signature_header(&secret, &body);
    let tampered = b"{\"ref\":\"refs/heads/evil\"}".to_vec();
    assert!(!verify_webhook_signature(&secret, &tampered, &header));
}

#[test]
fn webhook_signature_rejects_a_wrong_secret() {
    let secret = b"SECRET-REDACTED".to_vec();
    let body = b"payload".to_vec();
    let header = reference_signature_header(&secret, &body);
    let other = b"another-key".to_vec();
    assert!(!verify_webhook_signature(&other, &body, &header));
}

#[test]
fn signature_header_shape_is_enforced() {
    let digest = vec![0u8; 32];
    // Missing prefix.
    assert!(!signature_matches(&digest, &b"md5=00".to_vec()));
    // Too short.
    assert!(!signature_matches(&digest, &b"sha".to_vec()));
    // Odd-length hex.
    assert!(!signature_matches(&digest, &b"sha256=abc".to_vec()));
    // Non-hex characters.
    assert!(!signature_matches(&digest, &b"sha256=zz".to_vec()));
    // Correct shape, wrong bytes.
    assert!(!signature_matches(&digest, &b"sha256=ff".to_vec()));
    // Exact digest in hex matches, upper or lower case.
    let mut exact = b"sha256=".to_vec();
    exact.extend_from_slice("00".repeat(32).as_bytes());
    assert!(signature_matches(&digest, &exact));
    let mut upper = b"sha256=".to_vec();
    upper.extend_from_slice("00".repeat(31).as_bytes());
    upper.extend_from_slice(b"0A");
    let mut digest_a = vec![0u8; 31];
    digest_a.push(10);
    assert!(signature_matches(&digest_a, &upper));
}

#[test]
fn build_lifecycle_row() {
    let id = build_id("https://example.com/repo.git", "2024-01-01T00:00:00Z");
    assert_eq!(id, "https://example.com/repo.git:2024-01-01T00:00:00Z");
    let mut rec = BuildRecord::start(id.clone(), "2024-01-01T00:00:00Z".to_string());
    assert_eq!(rec.status, BuildStatus::Running);
    assert!(rec.end_time.is_none());
    rec.finish(true, true, "2024-01-01T00:05:00Z".to_string());
    assert_eq!(rec.status, BuildStatus::Completed);
    assert_eq!(rec.end_time.as_deref(), Some("2024-01-01T00:05:00Z"));

    let mut failed = BuildRecord::start(id, "t".to_string());
    failed.finish(true, false, "t2".to_string());
    assert_eq!(failed.status, BuildStatus::Failed);
}

#[test]
fn status_labels_match_the_store() {
    assert_eq!(status_label(BuildStatus::Running), "running");
    assert_eq!(status_label(BuildStatus::Completed), "Completed");
    assert_eq!(status_label(BuildStatus::Failed), "Failed");
}

#[test]
fn webhook_payload_shape() {
    let payload = WebhookPayload {
        ref_field: "refs/heads/main".to_string(),
        before: "a".repeat(40),
        after: "b".repeat(40),
        commits: vec![Commit {
            id: "b".repeat(40),
            message: "fix".to_string(),
            url: "https://example.com/c/b".to_string(),
            distinct: true,
        }],
    };
    assert_eq!(payload.commits.len(), 1);
    assert!(payload.commits[0].distinct);
}

#[test]
fn service_error_renders_its_message() {
    let e = ServiceError::new("boom".to_string());
    assert_eq!(e.render(), "Service error: boom");
}

#[test]
fn volume_config_constructors() {
    let a = VultrVolumeAttachmentConfig::new("inst-1", true);
    assert_eq!(a.instance_id, "inst-1");
    assert!(a.live);
    let d = VultrVolumeDetachConfig::new(false);
    assert!(!d.live);
    let r = HetznerVolumeResizeConfig::new(50);
    assert_eq!(r.size, 50);
    let h = HetznerVolumeAttachmentConfig::new(7, true);
    assert_eq!(h.server, 7);
    assert!(h.automount);
}

#[test]
fn error_taxonomy_translation() {
    assert!(is_retryable(&ProviderError::Transient));
    assert!(is_retryable(&ProviderError::RateLimited));
    assert!(!is_retryable(&ProviderError::Permanent));
    assert_eq!(response_code(&CoreError::Provider(ProviderError::Permanent)), 400);
    assert_eq!(response_code(&CoreError::InvalidRules), 400);
    assert_eq!(response_code(&CoreError::RolloutInProgress), 409);
    assert_eq!(response_code(&CoreError::Provider(ProviderError::Transient)), 500);
    assert_eq!(response_code(&CoreError::Runtime), 500);
    assert_eq!(response_code(&CoreError::ProbeFailure), 500);
    assert_eq!(response_code(&CoreError::UnknownRegion), 500);
    assert_eq!(response_code(&CoreError::UnknownStrategyType), 500);
}
