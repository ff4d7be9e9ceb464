//! The checks that `skillguard verify` reports for a skill.
use crate::manifest::SkillManifest;
use crate::text::{contains_str, decimal, push_decimal, push_str, str_eq};
use vstd::prelude::*;

verus! {

/// One reported check: its name, whether it passed, and a detail.
#[derive(Debug, Clone)]
pub struct Check {
    pub name: String,
    pub pass: bool,
    pub detail: String,
}

/// A file that holds a signature: its extension is "sig" or "json" and its path
/// mentions "sig".
pub open spec fn is_signature_file_spec(path: Seq<char>, extension: Option<Seq<char>>) -> bool {
    &&& (extension == Some("sig"@) || extension == Some("json"@))
    &&& crate::text::contains_seq(path, "sig"@)
}

/// Whether a file, given its path and extension, holds a signature.
pub fn is_signature_file(path: &str, extension: Option<&str>) -> (r: bool)
    ensures
        r == is_signature_file_spec(
            path@,
            match extension {
                Some(e) => Some(e@),
                None => None,
            },
        ),
{
    let ext_ok = match extension {
        Some(e) => str_eq(e, "sig") || str_eq(e, "json"),
        None => false,
    };
    ext_ok && contains_str(path, "sig")
}

/// Whether verification passes: a strict verification also needs SLSA
/// provenance (a level above 0) and a signature.
pub open spec fn verification_passes(slsa_level: u8, has_signature: bool, strict: bool) -> bool {
    !(strict && (slsa_level == 0 || !has_signature))
}

/// A non-strict verification always passes. A strict one passes exactly when
/// every reported check passes: a missing signature fails it whatever the SLSA
/// level, and an SLSA level of 0 fails it whatever the signature.
pub proof fn strict_verification_needs_every_check(slsa_level: u8, has_signature: bool, strict: bool)
    ensures
        !strict ==> verification_passes(slsa_level, has_signature, strict),
        strict && !has_signature ==> !verification_passes(slsa_level, has_signature, strict),
        strict && slsa_level == 0 ==> !verification_passes(slsa_level, has_signature, strict),
        strict ==> (verification_passes(slsa_level, has_signature, strict) <==> (slsa_level > 0
            && has_signature)),
{
}

/// The checks reported for a manifest that loaded and validated, with whether a
/// signature file is present, and whether the verification passes.
pub fn verify_checks(manifest: &SkillManifest, has_signature: bool, strict: bool) -> (r: (
    Vec<Check>,
    bool,
))
    ensures
        r.0@.len() == 3,
        r.0@[0].name@ == "Manifest schema"@ && r.0@[0].pass && r.0@[0].detail@ == "Valid"@,
        r.0@[1].name@ == "SLSA provenance"@ && r.0@[1].pass == (manifest.security.slsa_level > 0)
            && r.0@[1].detail@ == "Level "@ + decimal(manifest.security.slsa_level as nat),
        r.0@[2].name@ == "Sigstore signature"@ && r.0@[2].pass == has_signature
            && r.0@[2].detail@ == (if has_signature {
            "Present"@
        } else {
            "Not found"@
        }),
        r.1 == verification_passes(manifest.security.slsa_level, has_signature, strict),
{
    let mut checks: Vec<Check> = Vec::new();
    checks.push(
        Check {
            name: String::from_str("Manifest schema"),
            pass: true,
            detail: String::from_str("Valid"),
        },
    );
    let level = manifest.security.slsa_level;
    let mut slsa_detail = String::new();
    push_str(&mut slsa_detail, "Level ");
    push_decimal(&mut slsa_detail, level as u64);
    checks.push(
        Check { name: String::from_str("SLSA provenance"), pass: level > 0, detail: slsa_detail },
    );
    let sig_detail = if has_signature {
        String::from_str("Present")
    } else {
        String::from_str("Not found")
    };
    checks.push(
        Check {
            name: String::from_str("Sigstore signature"),
            pass: has_signature,
            detail: sig_detail,
        },
    );
    let all_pass = !(strict && (level == 0 || !has_signature));
    (checks, all_pass)
}

} // verus!
