//! The library's error type.
use crate::text::push_str;
use vstd::prelude::*;

verus! {

/// Errors of manifest handling, validation, registry and signing work.
/// Failures that come from parsers or the operating system carry their message.
#[derive(Debug, Clone)]
pub enum SkillGuardError {
    InvalidSkillName { name: String, reason: String },
    InvalidManifest(String),
    YamlParse(String),
    JsonParse(String),
    Io(String),
    InvalidVersion(String),
    Validation(String),
    SkillNotFound(String),
    ActionNotFound(String),
    PermissionDenied(String),
    SandboxViolation(String),
    BuildError(String),
    SigningError(String),
    RegistryError(String),
    AnthropicParseError(String),
}

/// The human-readable text of an error.
pub open spec fn error_text(e: SkillGuardError) -> Seq<char> {
    match e {
        SkillGuardError::InvalidSkillName { name, reason } => "Invalid skill name '"@ + name@
            + "': "@ + reason@,
        SkillGuardError::InvalidManifest(m) => "Invalid manifest: "@ + m@,
        SkillGuardError::YamlParse(m) => "Failed to parse YAML: "@ + m@,
        SkillGuardError::JsonParse(m) => "Failed to parse JSON: "@ + m@,
        SkillGuardError::Io(m) => "IO error: "@ + m@,
        SkillGuardError::InvalidVersion(m) => "Invalid version: "@ + m@,
        SkillGuardError::Validation(m) => "Validation error: "@ + m@,
        SkillGuardError::SkillNotFound(m) => "Skill not found: "@ + m@,
        SkillGuardError::ActionNotFound(m) => "Action not found: "@ + m@,
        SkillGuardError::PermissionDenied(m) => "Permission denied: "@ + m@,
        SkillGuardError::SandboxViolation(m) => "Sandbox violation: "@ + m@,
        SkillGuardError::BuildError(m) => "Build error: "@ + m@,
        SkillGuardError::SigningError(m) => "Signing error: "@ + m@,
        SkillGuardError::RegistryError(m) => "Registry error: "@ + m@,
        SkillGuardError::AnthropicParseError(m) => "Anthropic skill parse error: "@ + m@,
    }
}

fn prefixed(prefix: &str, m: &String) -> (r: String)
    ensures
        r@ == prefix@ + m@,
{
    let mut s = String::new();
    push_str(&mut s, prefix);
    push_str(&mut s, m.as_str());
    assert(s@ =~= prefix@ + m@);
    s
}

impl SkillGuardError {
    /// The human-readable text of the error.
    pub fn to_string(&self) -> (r: String)
        ensures
            r@ == error_text(*self),
    {
        match self {
            SkillGuardError::InvalidSkillName { name, reason } => {
                let mut s = String::new();
                push_str(&mut s, "Invalid skill name '");
                push_str(&mut s, name.as_str());
                push_str(&mut s, "': ");
                push_str(&mut s, reason.as_str());
                s
            },
            SkillGuardError::InvalidManifest(m) => prefixed("Invalid manifest: ", m),
            SkillGuardError::YamlParse(m) => prefixed("Failed to parse YAML: ", m),
            SkillGuardError::JsonParse(m) => prefixed("Failed to parse JSON: ", m),
            SkillGuardError::Io(m) => prefixed("IO error: ", m),
            SkillGuardError::InvalidVersion(m) => prefixed("Invalid version: ", m),
            SkillGuardError::Validation(m) => prefixed("Validation error: ", m),
            SkillGuardError::SkillNotFound(m) => prefixed("Skill not found: ", m),
            SkillGuardError::ActionNotFound(m) => prefixed("Action not found: ", m),
            SkillGuardError::PermissionDenied(m) => prefixed("Permission denied: ", m),
            SkillGuardError::SandboxViolation(m) => prefixed("Sandbox violation: ", m),
            SkillGuardError::BuildError(m) => prefixed("Build error: ", m),
            SkillGuardError::SigningError(m) => prefixed("Signing error: ", m),
            SkillGuardError::RegistryError(m) => prefixed("Registry error: ", m),
            SkillGuardError::AnthropicParseError(m) => prefixed("Anthropic skill parse error: ", m),
        }
    }
}

} // verus!
