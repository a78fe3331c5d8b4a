use base64::Engine as _;
use ed25519_dalek::{Signer, SigningKey};
use provenance::content::{check_content, check_digest, ContentHasher};
use provenance::json::{canonicalize, Json, JsonNumber};
use provenance::manifest::{validate_semantics, Artifact, FrontPage, Manifest, SemanticError, WorkflowRun};
use provenance::report::{assemble_report, bundle_verified, VerifyError};
use provenance::signature::{decode_public_key, ed25519_verify, CryptoError};
use sha2::Digest as _;

const GOOD: &str = "0123456789abcdef0123456789abcdef0123456789abcdef0123456789abcdef";

fn artifact(id: &str, path: &str, render: &str, sha: &str) -> Artifact {
    Artifact {
        id: id.to_string(),
        title: format!("Title of {}", id),
        path: path.to_string(),
        media_type: "application/json".to_string(),
        render: render.to_string(),
        sha256: sha.to_string(),
    }
}

fn manifest(artifacts: Vec<Artifact>) -> Manifest {
    Manifest {
        version: 1,
        repo: "acme/provenance".to_string(),
        commit: "0123457".to_string(),
        workflow_run: WorkflowRun {
            id: Json::Number(JsonNumber::PosInt(1)),
            url: "https://example.com/run/1".to_string(),
            attempt: 1,
        },
        front_page: FrontPage { title: "T".to_string(), markup: "ci/front_page.pml".to_string() },
        artifacts,
    }
}

fn b64(bytes: &[u8]) -> String {
    base64::engine::general_purpose::STANDARD.encode(bytes)
}

fn digest_of(bytes: &[u8]) -> Vec<u8> {
    let mut h = ContentHasher::new();
    let mid = bytes.len() / 2;
    h.update(&bytes[..mid]);
    h.update(&bytes[mid..]);
    h.finish()
}

#[test]
fn duplicate_id_is_reported_by_name() {
    let m = manifest(vec![
        artifact("x", "a.json", "json", GOOD),
        artifact("y", "b.json", "json", GOOD),
        artifact("x", "c.json", "json", GOOD),
    ]);
    let errs = validate_semantics(&m, &vec![false, false, false]).unwrap_err();
    assert_eq!(errs.len(), 1);
    assert!(matches!(&errs[0], SemanticError::DuplicateId(id) if id == "x"));
}

#[test]
fn parent_and_absolute_paths_escape() {
    let m = manifest(vec![
        artifact("a", "../secrets.txt", "json", GOOD),
        artifact("b", "/etc/passwd", "json", GOOD),
        artifact("c", "ci/..", "json", GOOD),
        artifact("d", "ci/a..b/x", "json", GOOD),
    ]);
    let errs = validate_semantics(&m, &vec![false, false, false, false]).unwrap_err();
    assert_eq!(errs.len(), 3);
    assert!(matches!(&errs[0], SemanticError::PathEscape(p) if p == "../secrets.txt"));
    assert!(matches!(&errs[1], SemanticError::PathEscape(p) if p == "/etc/passwd"));
    assert!(matches!(&errs[2], SemanticError::PathEscape(p) if p == "ci/.."));
}

#[test]
fn resolved_escape_is_reported() {
    let m = manifest(vec![artifact("a", "link/out.txt", "json", GOOD)]);
    let errs = validate_semantics(&m, &vec![true]).unwrap_err();
    assert!(matches!(&errs[0], SemanticError::PathEscape(p) if p == "link/out.txt"));
    assert!(validate_semantics(&m, &vec![false]).is_ok());
}

#[test]
fn all_violations_are_collected_in_order() {
    let m = manifest(vec![
        artifact("a", "ok.json", "pdf", "abc"),
        artifact("a", "/abs", "json", &GOOD.to_uppercase()),
    ]);
    let errs = validate_semantics(&m, &vec![false, false]).unwrap_err();
    assert_eq!(errs.len(), 4);
    assert!(matches!(&errs[0], SemanticError::UnknownRenderKind { render, id } if render == "pdf" && id == "a"));
    assert!(matches!(&errs[1], SemanticError::MalformedDigest(id) if id == "a"));
    assert!(matches!(&errs[2], SemanticError::DuplicateId(id) if id == "a"));
    assert!(matches!(&errs[3], SemanticError::PathEscape(p) if p == "/abs"));
}

#[test]
fn every_known_render_kind_passes() {
    let kinds = ["markdown", "json", "table:coverage", "summary:test", "image", "repo:file", "repo:bundle", "repo:symbols"];
    let arts: Vec<Artifact> = kinds.iter().enumerate().map(|(i, k)| artifact(&format!("a{}", i), "f", k, GOOD)).collect();
    let m = manifest(arts);
    assert!(validate_semantics(&m, &vec![false; kinds.len()]).is_ok());
}

#[test]
fn signing_round_trip() {
    let doc = Json::Object(vec![("b".to_string(), Json::Bool(true)), ("a".to_string(), Json::Null)]);
    let canonical = canonicalize(&doc);
    let sk = SigningKey::from_bytes(&[7u8; 32]);
    let sig = b64(&sk.sign(&canonical).to_bytes());
    let pk = b64(&sk.verifying_key().to_bytes());
    assert_eq!(ed25519_verify(&canonical, &sig, &pk), Ok(true));
    assert_eq!(ed25519_verify(&canonical, &format!("{}\n", sig), &format!(" {}\n", pk)), Ok(true));
    // Sixty-four hex digits are also valid base64, which is tried first.
    let pk_hex = hex::encode(sk.verifying_key().to_bytes());
    assert_eq!(ed25519_verify(&canonical, &sig, &pk_hex), Err(CryptoError::BadKey));
    let other = SigningKey::from_bytes(&[8u8; 32]);
    assert_eq!(ed25519_verify(&canonical, &sig, &b64(&other.verifying_key().to_bytes())), Ok(false));
    for i in 0..canonical.len() {
        let mut flipped = canonical.clone();
        flipped[i] ^= 1;
        assert_eq!(ed25519_verify(&flipped, &sig, &pk), Ok(false));
    }
}

#[test]
fn malformed_signature_and_key_are_errors() {
    let sk = SigningKey::from_bytes(&[7u8; 32]);
    let sig = b64(&sk.sign(b"m").to_bytes());
    let pk = b64(&sk.verifying_key().to_bytes());
    assert_eq!(ed25519_verify(b"m", "not base64!", &pk), Err(CryptoError::BadSignatureEncoding));
    assert_eq!(ed25519_verify(b"m", &b64(&[1u8; 10]), &pk), Err(CryptoError::BadSignatureEncoding));
    assert_eq!(ed25519_verify(b"m", &sig, "zz-not-a-key"), Err(CryptoError::BadKey));
    assert_eq!(ed25519_verify(b"m", &sig, &b64(&[1u8; 31])), Err(CryptoError::BadKey));
}

#[test]
fn public_key_falls_back_to_hex() {
    assert_eq!(decode_public_key("AAEC"), Some(vec![0u8, 1, 2]));
    assert_eq!(decode_public_key(" 0aFf00 "), Some(vec![0x0a, 0xff, 0x00]));
    assert_eq!(decode_public_key("0aFf"), Some(vec![209, 161, 95]));
    assert_eq!(decode_public_key("0g"), None);
}

#[test]
fn digest_check_is_exact_and_lower_case() {
    let bytes = b"hello world";
    let d = digest_of(bytes);
    let expected = hex::encode(sha2::Sha256::digest(bytes));
    let ok = check_digest(&expected, Some(d.clone()));
    assert!(ok.verified);
    assert_eq!(ok.observed_digest.as_deref(), Some(expected.as_str()));
    assert_eq!(expected, "b94d27b9934d3e08a52e52d7da7dabfac484efe37a5380ee9088f7ace2efcde9");
    let upper = check_digest(&expected.to_uppercase(), Some(d));
    assert!(!upper.verified);
    let missing = check_digest(&expected, None);
    assert!(!missing.verified && missing.observed_digest.is_none());
}

#[test]
fn digest_mismatch_is_not_fatal() {
    let content = b"{\"total\":10}";
    let m = manifest(vec![artifact("tests-summary", "ci/tests/summary.json", "summary:test", GOOD)]);
    let semantics = validate_semantics(&m, &vec![false]);
    assert!(semantics.is_ok());
    let checks = vec![check_digest(&m.artifacts[0].sha256, Some(digest_of(content)))];
    let report = assemble_report(&m, vec![], semantics, None, &checks).ok().unwrap();
    assert!(!report.artifacts[0].verified);
    assert!(!report.all_artifacts_verified);
    assert!(report.schema_ok && report.semantic_ok);
    assert_eq!(report.signature_ok, None);
    assert!(report.artifacts[0].observed_digest.is_some());
}

#[test]
fn end_to_end_example() {
    let content = b"{\"total\":10,\"passed\":10,\"failed\":0}";
    let real = hex::encode(sha2::Sha256::digest(content));
    let m = manifest(vec![artifact("tests-summary", "ci/tests/summary.json", "summary:test", &real)]);
    let doc = Json::Object(vec![
        ("version".to_string(), Json::Number(JsonNumber::PosInt(1))),
        (
            "artifacts".to_string(),
            Json::Array(vec![Json::Object(vec![
                ("id".to_string(), Json::Str("tests-summary".to_string())),
                ("path".to_string(), Json::Str("ci/tests/summary.json".to_string())),
                ("sha256".to_string(), Json::Str(real.clone())),
                ("render".to_string(), Json::Str("summary:test".to_string())),
            ])]),
        ),
    ]);
    let canonical = canonicalize(&doc);
    let sk = SigningKey::from_bytes(&[42u8; 32]);
    let sig = b64(&sk.sign(&canonical).to_bytes());
    let pk = b64(&sk.verifying_key().to_bytes());
    let semantics = validate_semantics(&m, &vec![false]);
    assert!(semantics.is_ok());
    let signature = ed25519_verify(&canonical, &sig, &pk);
    let checks = vec![check_digest(&m.artifacts[0].sha256, Some(digest_of(content)))];
    let report = assemble_report(&m, vec![], semantics, Some(signature), &checks).ok().unwrap();
    assert!(report.schema_ok && report.semantic_ok);
    assert_eq!(report.signature_ok, Some(true));
    assert!(report.artifacts[0].verified);
    assert_eq!(report.artifacts[0].id, "tests-summary");
    assert!(report.all_artifacts_verified);
}

#[test]
fn fatal_stages_stop_the_report() {
    let m = manifest(vec![artifact("a", "../x", "json", GOOD)]);
    let checks = vec![check_digest(GOOD, None)];
    let r = assemble_report(&m, vec!["missing artifacts".to_string()], Ok(()), None, &checks);
    assert!(matches!(r, Err(VerifyError::Schema(v)) if v == vec!["missing artifacts".to_string()]));
    let semantics = validate_semantics(&m, &vec![false]);
    let r = assemble_report(&m, vec![], semantics, None, &checks);
    assert!(matches!(r, Err(VerifyError::Semantic(v)) if v.len() == 1));
    let r = assemble_report(&m, vec![], Ok(()), Some(Err(CryptoError::BadKey)), &checks);
    assert!(matches!(r, Err(VerifyError::Crypto(CryptoError::BadKey))));
    let r = assemble_report(&m, vec![], Ok(()), Some(Ok(false)), &checks).ok().unwrap();
    assert_eq!(r.signature_ok, Some(false));
}

#[test]
fn streamed_content_is_checked() {
    let mut h = ContentHasher::new();
    h.update(b"hello ");
    h.update(b"");
    h.update(b"world");
    let r = check_content("b94d27b9934d3e08a52e52d7da7dabfac484efe37a5380ee9088f7ace2efcde9", Some(h));
    assert!(r.verified);
    let e = check_content("e3b0c44298fc1c149afbf4c8996fb92427ae41e4649b934ca495991b7852b855", Some(ContentHasher::new()));
    assert!(e.verified);
    let unreadable = check_content("e3b0c44298fc1c149afbf4c8996fb92427ae41e4649b934ca495991b7852b855", None);
    assert!(!unreadable.verified && unreadable.observed_digest.is_none());
}

#[test]
fn key_that_is_not_a_curve_point_is_bad() {
    let sk = SigningKey::from_bytes(&[7u8; 32]);
    let sig = b64(&sk.sign(b"m").to_bytes());
    let bad = (0u8..=255)
        .map(|b| {
            let mut k = [0u8; 32];
            k[0] = b;
            k[31] = 0x10;
            k
        })
        .find(|k| ed25519_dalek::VerifyingKey::from_bytes(k).is_err())
        .expect("some 32 bytes are not a point");
    assert_eq!(ed25519_verify(b"m", &sig, &b64(&bad)), Err(CryptoError::BadKey));
}

#[test]
fn bundle_is_verified_only_with_signature_and_all_content() {
    let content = b"abc";
    let real = hex::encode(sha2::Sha256::digest(content));
    let m = manifest(vec![artifact("a", "a.json", "json", &real)]);
    let mut h = ContentHasher::new();
    h.update(content);
    let checks = vec![check_content(&real, Some(h))];
    assert_eq!(checks[0].observed_digest.as_ref().map(|d| d.len()), Some(64));
    let signed = assemble_report(&m, vec![], Ok(()), Some(Ok(true)), &checks).ok().unwrap();
    assert!(bundle_verified(&signed));
    let unsigned = assemble_report(&m, vec![], Ok(()), None, &checks).ok().unwrap();
    assert!(!bundle_verified(&unsigned));
    let mismatched = vec![check_digest(GOOD, Some(digest_of(content)))];
    let bad = assemble_report(&m, vec![], Ok(()), Some(Ok(true)), &mismatched).ok().unwrap();
    assert!(!bundle_verified(&bad));
}
