//! Provenance attestations, signing and signature verification decisions.
use crate::action::ExJsonValue;
use crate::digest::{sha256, sha256_digest};
use crate::error::SkillGuardError;
use crate::json::{
    json_check, json_error_text, json_nested_str_entry, json_nested_str_field, json_parses,
    json_str_entry, json_str_field,
};
use crate::text::{decimal, hex_encode, hex_of, opt_chars, push_decimal, push_str};
use vstd::prelude::*;

verus! {

/// A subject of an attestation: an artifact and its digests.
#[derive(Debug, Clone)]
pub struct ProvenanceSubject {
    pub name: String,
    /// (algorithm, hex digest) pairs.
    pub digest: Vec<(String, String)>,
}

/// The builder that produced an artifact.
#[derive(Debug, Clone)]
pub struct SlsaBuilder {
    pub id: String,
}

/// How the build was invoked.
#[derive(Debug, Clone)]
pub struct SlsaInvocation {
    pub config_source: Vec<(String, String)>,
    pub parameters: Vec<(String, serde_json::Value)>,
}

/// Build timing and reproducibility.
#[derive(Debug, Clone)]
pub struct SlsaMetadata {
    pub build_started_on: String,
    pub build_finished_on: Option<String>,
    pub reproducible: bool,
}

/// An input of the build.
#[derive(Debug, Clone)]
pub struct SlsaMaterial {
    pub uri: String,
    pub digest: Vec<(String, String)>,
}

/// The SLSA provenance predicate.
#[derive(Debug, Clone)]
pub struct SlsaPredicate {
    pub build_type: String,
    pub builder: SlsaBuilder,
    pub invocation: SlsaInvocation,
    pub metadata: SlsaMetadata,
    pub materials: Vec<SlsaMaterial>,
}

/// In-toto v1 statement with SLSA provenance predicate.
#[derive(Debug, Clone)]
pub struct Provenance {
    pub statement_type: String,
    pub subject: Vec<ProvenanceSubject>,
    pub predicate_type: String,
    pub predicate: SlsaPredicate,
}

/// A build timestamp: seconds since the Unix epoch followed by "Z".
pub open spec fn timestamp_text(secs: nat) -> Seq<char> {
    decimal(secs) + "Z"@
}

/// The timestamp text for `secs` seconds since the Unix epoch.
pub fn chrono_now(secs: u64) -> (r: String)
    ensures
        r@ == timestamp_text(secs as nat),
{
    let mut s = String::new();
    push_decimal(&mut s, secs);
    push_str(&mut s, "Z");
    s
}

impl Provenance {
    /// A provenance attestation for a built artifact with the given bytes, built
    /// by `builder_id` at `now_secs` seconds since the Unix epoch. The artifact is
    /// the only subject, with its SHA-256 digest; the build starts and finishes at
    /// that time; there are no materials, config sources or parameters.
    pub fn new(
        artifact_name: &str,
        content: &[u8],
        builder_id: &str,
        reproducible: bool,
        now_secs: u64,
    ) -> (r: Self)
        ensures
            r.statement_type@ == "https://in-toto.io/Statement/v1"@,
            r.subject@.len() == 1,
            r.subject@[0].name@ == artifact_name@,
            r.subject@[0].digest@.len() == 1,
            r.subject@[0].digest@[0].0@ == "sha256"@,
            r.subject@[0].digest@[0].1@ == hex_of(sha256(content@)),
            r.predicate_type@ == "https://slsa.dev/provenance/v1"@,
            r.predicate.build_type@ == "https://skillguard.dev/build/v1"@,
            r.predicate.builder.id@ == builder_id@,
            r.predicate.invocation.config_source@.len() == 0,
            r.predicate.invocation.parameters@.len() == 0,
            r.predicate.metadata.build_started_on@ == timestamp_text(now_secs as nat),
            r.predicate.metadata.build_finished_on matches Some(f) && f@ == timestamp_text(
                now_secs as nat,
            ),
            r.predicate.metadata.reproducible == reproducible,
            r.predicate.materials@.len() == 0,
    {
        let d = sha256_digest(content);
        let hex = hex_encode(d.as_slice());
        let now = chrono_now(now_secs);
        let mut digest: Vec<(String, String)> = Vec::new();
        digest.push((String::from_str("sha256"), hex));
        let mut subject: Vec<ProvenanceSubject> = Vec::new();
        subject.push(ProvenanceSubject { name: String::from_str(artifact_name), digest });
        Provenance {
            statement_type: String::from_str("https://in-toto.io/Statement/v1"),
            subject,
            predicate_type: String::from_str("https://slsa.dev/provenance/v1"),
            predicate: SlsaPredicate {
                build_type: String::from_str("https://skillguard.dev/build/v1"),
                builder: SlsaBuilder { id: String::from_str(builder_id) },
                invocation: SlsaInvocation { config_source: Vec::new(), parameters: Vec::new() },
                metadata: SlsaMetadata {
                    build_started_on: now.clone(),
                    build_finished_on: Some(now),
                    reproducible,
                },
                materials: Vec::new(),
            },
        }
    }
}

// ---------------------------------------------------------------------------
// Signing
// ---------------------------------------------------------------------------

/// A signature bundle (Sigstore format).
#[derive(Debug, Clone)]
pub struct SignatureBundle {
    /// Base64-encoded signature.
    pub signature: String,
    /// PEM-encoded certificate from Fulcio.
    pub certificate: String,
    /// Rekor transparency log entry.
    pub rekor_log_id: Option<String>,
}

/// The value if present, else the empty text.
pub open spec fn or_empty(o: Option<Seq<char>>) -> Seq<char> {
    match o {
        Some(v) => v,
        None => Seq::empty(),
    }
}

impl SignatureBundle {
    /// The bundle that `cosign sign-blob --bundle` wrote: the signature is the
    /// string at `Payload.body`, the certificate the string at `Cert` (each empty
    /// when absent), and the log entry the string at `RekorBundle.LogID`, if any.
    /// A text that is not JSON is refused.
    pub fn from_cosign_bundle(json: &str) -> (r: Result<SignatureBundle, SkillGuardError>)
        ensures
            !json_parses(json@) ==> (r matches Err(SkillGuardError::JsonParse(m)) && m@
                == json_error_text(json@)),
            json_parses(json@) ==> (r matches Ok(b) && b.signature@ == or_empty(
                json_nested_str_entry(json@, "Payload"@, "body"@),
            ) && b.certificate@ == or_empty(json_str_entry(json@, "Cert"@)) && match b.rekor_log_id {
                Some(l) => json_nested_str_entry(json@, "RekorBundle"@, "LogID"@) == Some(l@),
                None => json_nested_str_entry(json@, "RekorBundle"@, "LogID"@) is None,
            }),
    {
        match json_check(json) {
            Err(m) => {
                return Err(SkillGuardError::JsonParse(m));
            },
            Ok(()) => {},
        }
        let body = json_nested_str_field(json, "Payload", "body");
        let cert = json_str_field(json, "Cert");
        let log_id = json_nested_str_field(json, "RekorBundle", "LogID");
        Ok(SignatureBundle::from_bundle_fields(body, cert, log_id))
    }

    /// The bundle from what a cosign bundle holds at `Payload.body`, at `Cert`
    /// and at `RekorBundle.LogID`: a missing signature or certificate is empty,
    /// and the log entry is kept as it is.
    pub fn from_bundle_fields(body: Option<String>, cert: Option<String>, log_id: Option<String>) -> (r:
        SignatureBundle)
        ensures
            r.signature@ == or_empty(opt_chars(body)),
            r.certificate@ == or_empty(opt_chars(cert)),
            r.rekor_log_id == log_id,
    {
        let signature = match body {
            Some(s) => s,
            None => String::new(),
        };
        let certificate = match cert {
            Some(c) => c,
            None => String::new(),
        };
        SignatureBundle { signature, certificate, rekor_log_id: log_id }
    }
}

/// The signing backends.
#[derive(Debug, Clone, Copy, PartialEq, Eq, Structural)]
pub enum SignerBackend {
    /// Keyless signing with Sigstore, not available yet.
    Sigstore,
    /// Signing through the cosign command-line tool.
    CosignCli,
}

/// Sigstore keyless signer.
#[derive(Debug, Clone, Copy)]
pub struct Signer {
    backend: SignerBackend,
}

/// The refusal of the Sigstore backend.
pub open spec fn sigstore_unavailable_message() -> Seq<char> {
    "Sigstore keyless signing not yet implemented. Use --backend cosign or install cosign CLI."@
}

/// Signs a digest with the Sigstore backend, which always refuses.
pub fn sigstore_sign(digest: &[u8]) -> (r: Result<SignatureBundle, SkillGuardError>)
    ensures
        r matches Err(SkillGuardError::SigningError(m)) && m@ == sigstore_unavailable_message(),
{
    Err(
        SkillGuardError::SigningError(
            String::from_str(
                "Sigstore keyless signing not yet implemented. Use --backend cosign or install cosign CLI.",
            ),
        ),
    )
}

impl Signer {
    /// Create a signer using the Sigstore backend.
    pub fn sigstore() -> (r: Self)
        ensures
            r.backend_spec() == SignerBackend::Sigstore,
    {
        Signer { backend: SignerBackend::Sigstore }
    }

    /// Create a signer that uses the cosign CLI.
    pub fn cosign_cli() -> (r: Self)
        ensures
            r.backend_spec() == SignerBackend::CosignCli,
    {
        Signer { backend: SignerBackend::CosignCli }
    }

    /// The backend of the signer.
    pub closed spec fn backend_spec(&self) -> SignerBackend {
        self.backend
    }

    /// The backend of the signer.
    pub fn backend(&self) -> (r: SignerBackend)
        ensures
            r == self.backend_spec(),
    {
        self.backend
    }

    /// Sign raw bytes: their SHA-256 digest is signed by the backend. For the
    /// cosign backend, `cosign` is handed the digest in lowercase hex and its
    /// answer is the result; the Sigstore backend refuses.
    pub fn sign_bytes<F>(&self, data: &[u8], cosign: F) -> (r: Result<SignatureBundle, SkillGuardError>)
        where
            F: FnOnce(String) -> Result<SignatureBundle, SkillGuardError>,
        requires
            forall|hex: String| call_requires(cosign, (hex,)),
        ensures
            self.backend_spec() == SignerBackend::Sigstore ==> (r matches Err(
                SkillGuardError::SigningError(m),
            ) && m@ == sigstore_unavailable_message()),
            self.backend_spec() == SignerBackend::CosignCli ==> exists|hex: String|
                hex@ == hex_of(sha256(data@)) && call_ensures(cosign, (hex,), r),
    {
        let digest = sha256_digest(data);
        match self.backend {
            SignerBackend::Sigstore => sigstore_sign(digest.as_slice()),
            SignerBackend::CosignCli => {
                let hex = hex_encode(digest.as_slice());
                let ghost h = hex;
                let r = cosign(hex);
                assert(call_ensures(cosign, (h,), r));
                r
            },
        }
    }
}

// ---------------------------------------------------------------------------
// Verification
// ---------------------------------------------------------------------------

/// Verification result.
#[derive(Debug, Clone)]
pub struct VerificationResult {
    pub valid: bool,
    pub signer_identity: Option<String>,
    pub transparency_log_verified: bool,
    pub details: Vec<String>,
}

/// Signature verifier.
pub struct Verifier;

/// The characters of each string.
pub open spec fn detail_texts(v: Seq<String>) -> Seq<Seq<char>> {
    v.map_values(|s: String| s@)
}

/// The notes on a bundle with a signature, before cosign is consulted.
pub open spec fn bundle_notes(b: SignatureBundle) -> Seq<Seq<char>> {
    (if b.certificate@.len() == 0 {
        seq!["No certificate present \u{2014} cannot verify signer identity"@]
    } else {
        Seq::empty()
    }) + (if b.rekor_log_id is Some {
        seq!["Transparency log entry present"@]
    } else {
        Seq::empty()
    })
}

/// What a verification with a signature concludes from cosign's outcome.
pub open spec fn concluded(
    r: VerificationResult,
    bundle: SignatureBundle,
    outcome: Result<bool, String>,
) -> bool {
    match outcome {
        Ok(true) => r.valid && r.transparency_log_verified == bundle.rekor_log_id is Some
            && detail_texts(r.details@) == bundle_notes(bundle).push("Verified via cosign"@),
        Ok(false) => !r.valid && !r.transparency_log_verified && detail_texts(r.details@)
            == bundle_notes(bundle).push("Cosign verification failed"@),
        Err(e) => !r.valid && !r.transparency_log_verified && detail_texts(r.details@)
            == bundle_notes(bundle).push("Cosign not available: "@ + e@),
    }
}

impl Verifier {
    /// Verify `data` against a signature bundle, where `cosign` runs the cosign
    /// verification of the data it is handed against the bundle it is handed
    /// (true when it succeeds, an error when cosign cannot be run); it is handed
    /// exactly `data` and `bundle`. A bundle without a signature is invalid at
    /// once. Otherwise the result is valid exactly when cosign succeeds, and the
    /// transparency log counts as verified when it does and the bundle names a
    /// log entry.
    pub fn verify_bytes<F>(data: &[u8], bundle: &SignatureBundle, cosign: F) -> (r: VerificationResult)
        where
            F: FnOnce(&[u8], &SignatureBundle) -> Result<bool, String>,
        requires
            call_requires(cosign, (data, bundle)),
        ensures
            r.signer_identity.is_none(),
            bundle.signature@.len() == 0 ==> !r.valid && !r.transparency_log_verified
                && detail_texts(r.details@) == seq!["Missing signature in bundle"@],
            bundle.signature@.len() > 0 ==> exists|outcome: Result<bool, String>|
                call_ensures(cosign, (data, bundle), outcome) && #[trigger] concluded(
                    r,
                    *bundle,
                    outcome,
                ),
    {
        let mut details: Vec<String> = Vec::new();
        if bundle.signature.as_str().is_empty() {
            details.push(String::from_str("Missing signature in bundle"));
            assert(detail_texts(details@) =~= seq!["Missing signature in bundle"@]);
            return VerificationResult {
                valid: false,
                signer_identity: None,
                transparency_log_verified: false,
                details,
            };
        }
        if bundle.certificate.as_str().is_empty() {
            details.push(
                String::from_str("No certificate present \u{2014} cannot verify signer identity"),
            );
        }
        let has_rekor = bundle.rekor_log_id.is_some();
        if has_rekor {
            details.push(String::from_str("Transparency log entry present"));
        }
        assert(detail_texts(details@) =~= bundle_notes(*bundle));
        let ghost notes = details@;
        let outcome = cosign(data, bundle);
        let result = match &outcome {
            Ok(true) => {
                details.push(String::from_str("Verified via cosign"));
                assert(detail_texts(details@) =~= detail_texts(notes).push("Verified via cosign"@));
                VerificationResult {
                    valid: true,
                    signer_identity: None,
                    transparency_log_verified: has_rekor,
                    details,
                }
            },
            Ok(false) => {
                details.push(String::from_str("Cosign verification failed"));
                assert(detail_texts(details@) =~= detail_texts(notes).push(
                    "Cosign verification failed"@,
                ));
                VerificationResult {
                    valid: false,
                    signer_identity: None,
                    transparency_log_verified: false,
                    details,
                }
            },
            Err(e) => {
                let mut msg = String::new();
                push_str(&mut msg, "Cosign not available: ");
                push_str(&mut msg, e.as_str());
                details.push(msg);
                assert(detail_texts(details@) =~= detail_texts(notes).push(
                    "Cosign not available: "@ + e@,
                ));
                VerificationResult {
                    valid: false,
                    signer_identity: None,
                    transparency_log_verified: false,
                    details,
                }
            },
        };
        assert(call_ensures(cosign, (data, bundle), outcome));
        assert(concluded(result, *bundle, outcome));
        result
    }
}

} // verus!
