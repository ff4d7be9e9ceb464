use skillguard::error::SkillGuardError;
use skillguard::signing::{chrono_now, Provenance, SignatureBundle, Signer, SignerBackend, Verifier};
use skillguard::text::hex_encode;

fn bundle(sig: &str, cert: &str, rekor: Option<&str>) -> SignatureBundle {
    SignatureBundle {
        signature: sig.into(),
        certificate: cert.into(),
        rekor_log_id: rekor.map(String::from),
    }
}

#[test]
fn provenance_fields() {
    let p = Provenance::new("pkg.tar.gz", b"", "skillguard-cli/0.1.0", true, 1700000000);
    assert_eq!(p.statement_type, "https://in-toto.io/Statement/v1");
    assert_eq!(p.subject.len(), 1);
    assert_eq!(p.subject[0].name, "pkg.tar.gz");
    assert_eq!(p.subject[0].digest[0].0, "sha256");
    assert_eq!(
        p.subject[0].digest[0].1,
        "e3b0c44298fc1c149afbf4c8996fb92427ae41e4649b934ca495991b7852b855"
    );
    assert_eq!(p.predicate.metadata.build_started_on, "1700000000Z");
    assert_eq!(p.predicate.metadata.build_finished_on.as_deref(), Some("1700000000Z"));
    assert!(p.predicate.metadata.reproducible);
    assert_eq!(p.predicate.builder.id, "skillguard-cli/0.1.0");
    assert_eq!(chrono_now(5), "5Z");
}

#[test]
fn hex() {
    assert_eq!(hex_encode(&[0x00, 0x0f, 0xa0, 0xff]), "000fa0ff");
    assert_eq!(hex_encode(&[]), "");
}

#[test]
fn sigstore_refuses() {
    let s = Signer::sigstore();
    assert_eq!(s.backend(), SignerBackend::Sigstore);
    match s.sign_bytes(b"data", |_hex| panic!("not called")) {
        Err(SkillGuardError::SigningError(m)) => assert!(m.starts_with("Sigstore keyless signing")),
        other => panic!("unexpected {other:?}"),
    }
}

#[test]
fn cosign_gets_hex_digest() {
    let s = Signer::cosign_cli();
    let r = s
        .sign_bytes(b"", |hex| Ok(bundle(&hex, "", None)))
        .unwrap();
    assert_eq!(
        r.signature,
        "e3b0c44298fc1c149afbf4c8996fb92427ae41e4649b934ca495991b7852b855"
    );
}

#[test]
fn verify_outcomes() {
    let r = Verifier::verify_bytes(b"data", &bundle("", "c", None), |_, _| panic!("not called"));
    assert!(!r.valid);
    assert_eq!(r.details, vec!["Missing signature in bundle"]);

    let r = Verifier::verify_bytes(b"data", &bundle("s", "", Some("log")), |_, _| Ok(true));
    assert!(r.valid && r.transparency_log_verified);
    assert_eq!(
        r.details,
        vec![
            "No certificate present \u{2014} cannot verify signer identity",
            "Transparency log entry present",
            "Verified via cosign"
        ]
    );

    let r = Verifier::verify_bytes(b"data", &bundle("s", "c", Some("log")), |_, _| Ok(false));
    assert!(!r.valid && !r.transparency_log_verified);
    assert_eq!(r.details, vec!["Transparency log entry present", "Cosign verification failed"]);

    let r = Verifier::verify_bytes(b"data", &bundle("s", "c", None), |_, _| Err("no cosign".to_string()));
    assert!(!r.valid);
    assert_eq!(r.details, vec!["Cosign not available: no cosign"]);
    assert!(r.signer_identity.is_none());
}

#[test]
fn verify_hands_data_and_bundle_to_cosign() {
    let b = bundle("sig", "cert", Some("log"));
    let r = Verifier::verify_bytes(b"payload bytes", &b, |d, given| {
        // Only the exact data and bundle verify.
        Ok(d == b"payload bytes" && given.signature == "sig" && given.certificate == "cert")
    });
    assert!(r.valid);
    let r = Verifier::verify_bytes(b"other bytes", &b, |d, _| Ok(d == b"payload bytes"));
    assert!(!r.valid);
}

#[test]
fn cosign_bundle_fields() {
    let b = SignatureBundle::from_cosign_bundle(
        r#"{"Payload":{"body":"c2ln"},"Cert":"PEM","RekorBundle":{"LogID":"abc"}}"#,
    )
    .unwrap();
    assert_eq!(b.signature, "c2ln");
    assert_eq!(b.certificate, "PEM");
    assert_eq!(b.rekor_log_id.as_deref(), Some("abc"));
    let b = SignatureBundle::from_cosign_bundle("{}").unwrap();
    assert_eq!(b.signature, "");
    assert!(b.rekor_log_id.is_none());
    assert!(matches!(
        SignatureBundle::from_cosign_bundle("not json"),
        Err(SkillGuardError::JsonParse(_))
    ));
}


#[test]
fn bundle_from_fields_defaults() {
    let b = SignatureBundle::from_bundle_fields(Some("c2ln".into()), Some("PEM".into()), Some("id".into()));
    assert_eq!((b.signature.as_str(), b.certificate.as_str()), ("c2ln", "PEM"));
    assert_eq!(b.rekor_log_id.as_deref(), Some("id"));
    let b = SignatureBundle::from_bundle_fields(None, None, None);
    assert_eq!((b.signature.as_str(), b.certificate.as_str()), ("", ""));
    assert!(b.rekor_log_id.is_none());
}
