//! The skill manifest: the security contract of a skill, its defaults and its validation.
use crate::action::SkillAction;
use crate::error::SkillGuardError;
use crate::permission::Permission;
use crate::text::{chars_of, decimal, push_decimal, push_str, str_eq};
use vstd::prelude::*;

verus! {

/// Adapter framework version constraints.
#[derive(Debug, Clone)]
pub struct AdapterConfig {
    pub openclaw: Option<String>,
    pub langchain: Option<String>,
    pub crewai: Option<String>,
    pub mcp: Option<String>,
    pub autogpt: Option<String>,
}

impl Default for AdapterConfig {
    /// No adapter constraint at all.
    fn default() -> (r: Self)
        ensures
            r.openclaw.is_none(),
            r.langchain.is_none(),
            r.crewai.is_none(),
            r.mcp.is_none(),
            r.autogpt.is_none(),
    {
        AdapterConfig { openclaw: None, langchain: None, crewai: None, mcp: None, autogpt: None }
    }
}

/// Whether no adapter constraint is set (such a config is left out when serialized).
pub fn is_default_adapter(config: &AdapterConfig) -> (r: bool)
    ensures
        r == (config.openclaw.is_none() && config.langchain.is_none() && config.crewai.is_none()
            && config.mcp.is_none() && config.autogpt.is_none()),
{
    config.openclaw.is_none() && config.langchain.is_none() && config.crewai.is_none()
        && config.mcp.is_none() && config.autogpt.is_none()
}

/// Build configuration.
#[derive(Debug, Clone)]
pub struct BuildConfig {
    pub reproducible: bool,
    pub base: String,
    pub python_version: String,
    pub dependencies: Vec<String>,
}

/// Builds are reproducible unless the manifest says otherwise.
pub fn default_true() -> (r: bool)
    ensures
        r,
{
    true
}

/// The default build base image: "skillguard/python:3.11-minimal".
pub fn default_base_image() -> (r: String)
    ensures
        r@ == "skillguard/python:3.11-minimal"@,
{
    String::from_str("skillguard/python:3.11-minimal")
}

/// The default Python version: "3.11".
pub fn default_python_version() -> (r: String)
    ensures
        r@ == "3.11"@,
{
    String::from_str("3.11")
}

impl Default for BuildConfig {
    /// A reproducible build on the default base image and Python version, with no dependencies.
    fn default() -> (r: Self)
        ensures
            r.reproducible,
            r.base@ == "skillguard/python:3.11-minimal"@,
            r.python_version@ == "3.11"@,
            r.dependencies@.len() == 0,
    {
        BuildConfig {
            reproducible: default_true(),
            base: default_base_image(),
            python_version: default_python_version(),
            dependencies: Vec::new(),
        }
    }
}

/// Security metadata.
#[derive(Debug, Clone)]
pub struct SecurityMetadata {
    pub audit_date: Option<String>,
    pub auditor: Option<String>,
    pub slsa_level: u8,
    pub cve_scan_date: Option<String>,
    pub known_vulnerabilities: Vec<String>,
}

impl Default for SecurityMetadata {
    /// No audit, SLSA level 0, no known vulnerabilities.
    fn default() -> (r: Self)
        ensures
            r.audit_date.is_none(),
            r.auditor.is_none(),
            r.slsa_level == 0,
            r.cve_scan_date.is_none(),
            r.known_vulnerabilities@.len() == 0,
    {
        SecurityMetadata {
            audit_date: None,
            auditor: None,
            slsa_level: 0,
            cve_scan_date: None,
            known_vulnerabilities: Vec::new(),
        }
    }
}

/// The complete skill manifest — the security contract.
#[derive(Debug, Clone)]
pub struct SkillManifest {
    pub name: String,
    pub version: String,
    pub description: String,
    pub author: String,
    pub license: String,
    pub homepage: Option<String>,
    pub repository: Option<String>,
    pub permissions: Permission,
    pub adapters: AdapterConfig,
    pub build: BuildConfig,
    pub security: SecurityMetadata,
    pub actions: Vec<SkillAction>,
    pub keywords: Vec<String>,
}

/// The license a manifest has when it names none: "Apache-2.0".
pub fn default_license() -> (r: String)
    ensures
        r@ == "Apache-2.0"@,
{
    String::from_str("Apache-2.0")
}

// ---------------------------------------------------------------------------
// Skill names
// ---------------------------------------------------------------------------

/// A character allowed in a skill name: a lowercase ASCII letter, a digit or a hyphen.
pub open spec fn is_name_char(c: char) -> bool {
    ('a' <= c && c <= 'z') || ('0' <= c && c <= '9') || c == '-'
}

/// The longest skill name accepted.
pub const MAX_SKILL_NAME_LEN: usize = 64;

/// Why `s` is not an acceptable skill name, or `None` where it is one.
/// A skill name is 1 to 64 lowercase letters, digits and hyphens, and does not
/// begin or end with a hyphen.
pub open spec fn skill_name_problem(s: Seq<char>) -> Option<Seq<char>> {
    if s.len() == 0 {
        Some("name cannot be empty"@)
    } else if s.len() > MAX_SKILL_NAME_LEN {
        Some("name must be at most 64 characters"@)
    } else if exists|i: int| 0 <= i < s.len() && !is_name_char(#[trigger] s[i]) {
        Some("name may only contain lowercase letters, digits and hyphens"@)
    } else if s[0] == '-' || s[s.len() - 1] == '-' {
        Some("name cannot start or end with a hyphen"@)
    } else {
        None
    }
}

/// A skill name is accepted exactly when it has 1 to 64 characters, each a
/// lowercase ASCII letter, an ASCII digit or '-', and neither its first nor its
/// last character is '-'.
pub proof fn skill_name_rule(s: Seq<char>)
    ensures
        skill_name_problem(s) is None <==> (1 <= s.len() <= 64 && (forall|i: int|
            0 <= i < s.len() ==> ('a' <= #[trigger] s[i] <= 'z' || '0' <= s[i] <= '9' || s[i]
                == '-')) && s[0] != '-' && s[s.len() - 1] != '-'),
{
    if skill_name_problem(s) is None {
        assert forall|i: int| 0 <= i < s.len() implies ('a' <= #[trigger] s[i] <= 'z' || '0' <= s[i]
            <= '9' || s[i] == '-') by {
            assert(is_name_char(s[i]));
        }
    }
}

/// A validated skill name.
#[derive(Debug, Clone)]
pub struct SkillName {
    name: String,
}

impl SkillName {
    /// The characters of the name.
    pub closed spec fn view(&self) -> Seq<char> {
        self.name@
    }

    /// Validates `name` as a skill name.
    pub fn new(name: &str) -> (r: Result<SkillName, SkillGuardError>)
        ensures
            skill_name_problem(name@) is None <==> r is Ok,
            r matches Ok(n) ==> n.view() == name@,
            skill_name_problem(name@) matches Some(reason) ==> (r matches Err(
                SkillGuardError::InvalidSkillName { name: n, reason: why },
            ) && n@ == name@ && why@ == reason),
    {
        let cs = chars_of(name);
        let n = cs.len();
        let reason: &str;
        if n == 0 {
            reason = "name cannot be empty";
        } else if n > MAX_SKILL_NAME_LEN {
            reason = "name must be at most 64 characters";
        } else {
            let mut i: usize = 0;
            let mut bad = false;
            while i < n
                invariant
                    n == cs.len(),
                    cs@ == name@,
                    i <= n,
                    !bad ==> forall|k: int| 0 <= k < i ==> is_name_char(#[trigger] cs@[k]),
                    bad ==> exists|k: int| 0 <= k < n && !is_name_char(#[trigger] cs@[k]),
                decreases n - i,
            {
                let c = cs[i];
                if !(('a' <= c && c <= 'z') || ('0' <= c && c <= '9') || c == '-') {
                    bad = true;
                }
                i += 1;
            }
            if bad {
                reason = "name may only contain lowercase letters, digits and hyphens";
            } else if cs[0] == '-' || cs[n - 1] == '-' {
                reason = "name cannot start or end with a hyphen";
            } else {
                return Ok(SkillName { name: String::from_str(name) });
            }
        }
        Err(
            SkillGuardError::InvalidSkillName {
                name: String::from_str(name),
                reason: String::from_str(reason),
            },
        )
    }

    /// The name as a string.
    pub fn as_string(&self) -> (r: String)
        ensures
            r@ == self.view(),
    {
        self.name.clone()
    }
}

// ---------------------------------------------------------------------------
// Versions
// ---------------------------------------------------------------------------

/// Whether `semver::Version::parse` accepts the text as a semantic version.
pub uninterp spec fn semver_accepts(text: Seq<char>) -> bool;

/// The message of the error that `semver::Version::parse` gives for the text.
pub uninterp spec fn semver_error_text(text: Seq<char>) -> Seq<char>;

/// Checks a version string.
/// Trusted: calls `semver::Version::parse`; whether it succeeds is named
/// `semver_accepts` and the text of its error `semver_error_text`, neither
/// described further here.
#[verifier::external_body]
fn parse_semver(text: &str) -> (r: Result<(), String>)
    ensures
        r is Ok <==> semver_accepts(text@),
        r matches Err(m) ==> m@ == semver_error_text(text@),
{
    match semver::Version::parse(text) {
        Ok(_) => Ok(()),
        Err(e) => Err(e.to_string()),
    }
}

// ---------------------------------------------------------------------------
// Validation
// ---------------------------------------------------------------------------

/// Every action has a non-empty name.
pub open spec fn actions_named(m: SkillManifest) -> bool {
    forall|i: int| 0 <= i < m.actions@.len() ==> (#[trigger] m.actions@[i]).name@.len() > 0
}

/// Every network permission names a domain.
pub open spec fn domains_named(m: SkillManifest) -> bool {
    forall|i: int|
        0 <= i < m.permissions.network@.len() ==> (#[trigger] m.permissions.network@[i]).domain@.len()
            > 0
}

/// The manifest passes validation.
pub open spec fn manifest_valid(m: SkillManifest) -> bool {
    &&& skill_name_problem(m.name@) is None
    &&& semver_accepts(m.version@)
    &&& m.security.slsa_level <= 4
    &&& actions_named(m)
    &&& domains_named(m)
}

/// The message for a version that does not parse.
pub open spec fn bad_version_message(version: Seq<char>) -> Seq<char> {
    "Invalid version '"@ + version + "': "@ + semver_error_text(version)
}

/// The message for an SLSA level above 4.
pub open spec fn bad_slsa_message(level: nat) -> Seq<char> {
    "SLSA level must be 0-4, got "@ + decimal(level)
}

impl SkillManifest {
    /// Validate the manifest fields: the name must be a skill name, the version a
    /// semantic version, the SLSA level at most 4, and every action and network
    /// domain must be named. The first failing check decides the error.
    pub fn validate(&self) -> (r: Result<(), SkillGuardError>)
        ensures
            r is Ok <==> manifest_valid(*self),
            skill_name_problem(self.name@) matches Some(reason) ==> (r matches Err(
                SkillGuardError::InvalidSkillName { name: n, reason: why },
            ) && n@ == self.name@ && why@ == reason),
            skill_name_problem(self.name@) is None && !semver_accepts(self.version@) ==> (r matches Err(
                SkillGuardError::InvalidManifest(msg),
            ) && msg@ == bad_version_message(self.version@)),
            skill_name_problem(self.name@) is None && semver_accepts(self.version@)
                && self.security.slsa_level > 4 ==> (r matches Err(
                SkillGuardError::InvalidManifest(msg),
            ) && msg@ == bad_slsa_message(self.security.slsa_level as nat)),
            skill_name_problem(self.name@) is None && semver_accepts(self.version@)
                && self.security.slsa_level <= 4 && !actions_named(*self) ==> (r matches Err(
                SkillGuardError::InvalidManifest(msg),
            ) && msg@ == "Action name cannot be empty"@),
            skill_name_problem(self.name@) is None && semver_accepts(self.version@)
                && self.security.slsa_level <= 4 && actions_named(*self) && !domains_named(*self)
                ==> (r matches Err(SkillGuardError::InvalidManifest(msg))
                && msg@ == "Network permission domain cannot be empty"@),
    {
        let checked = parse_semver(self.version.as_str());
        self.validate_with_version(checked)
    }

    /// Validate the manifest given the outcome of reading its version as a
    /// semantic version (`Ok` where it is one, else the reader's error text).
    /// The checks run in order: name, version, SLSA level, action names,
    /// network domains; the first that fails decides the error.
    pub fn validate_with_version(&self, version: Result<(), String>) -> (r: Result<(), SkillGuardError>)
        ensures
            r is Ok <==> (skill_name_problem(self.name@) is None && version is Ok
                && self.security.slsa_level <= 4 && actions_named(*self) && domains_named(*self)),
            skill_name_problem(self.name@) matches Some(reason) ==> (r matches Err(
                SkillGuardError::InvalidSkillName { name: n, reason: why },
            ) && n@ == self.name@ && why@ == reason),
            skill_name_problem(self.name@) is None ==> (version matches Err(detail) ==> (r matches Err(
                SkillGuardError::InvalidManifest(msg),
            ) && msg@ == "Invalid version '"@ + self.version@ + "': "@ + detail@)),
            skill_name_problem(self.name@) is None && version is Ok && self.security.slsa_level > 4
                ==> (r matches Err(SkillGuardError::InvalidManifest(msg)) && msg@ == bad_slsa_message(
                self.security.slsa_level as nat,
            )),
            skill_name_problem(self.name@) is None && version is Ok && self.security.slsa_level <= 4
                && !actions_named(*self) ==> (r matches Err(SkillGuardError::InvalidManifest(msg))
                && msg@ == "Action name cannot be empty"@),
            skill_name_problem(self.name@) is None && version is Ok && self.security.slsa_level <= 4
                && actions_named(*self) && !domains_named(*self) ==> (r matches Err(
                SkillGuardError::InvalidManifest(msg),
            ) && msg@ == "Network permission domain cannot be empty"@),
    {
        match SkillName::new(self.name.as_str()) {
            Ok(_) => {},
            Err(e) => {
                return Err(e);
            },
        }
        match version {
            Ok(()) => {},
            Err(detail) => {
                let mut msg = String::new();
                push_str(&mut msg, "Invalid version '");
                push_str(&mut msg, self.version.as_str());
                push_str(&mut msg, "': ");
                push_str(&mut msg, detail.as_str());
                return Err(SkillGuardError::InvalidManifest(msg));
            },
        }
        if self.security.slsa_level > 4 {
            let mut msg = String::new();
            push_str(&mut msg, "SLSA level must be 0-4, got ");
            push_decimal(&mut msg, self.security.slsa_level as u64);
            return Err(SkillGuardError::InvalidManifest(msg));
        }
        let mut i: usize = 0;
        while i < self.actions.len()
            invariant
                i <= self.actions@.len(),
                skill_name_problem(self.name@) is None,
                version is Ok,
                self.security.slsa_level <= 4,
                forall|k: int| 0 <= k < i ==> (#[trigger] self.actions@[k]).name@.len() > 0,
            decreases self.actions.len() - i,
        {
            if self.actions[i].name.as_str().is_empty() {
                return Err(SkillGuardError::InvalidManifest(String::from_str("Action name cannot be empty")));
            }
            i += 1;
        }
        let mut j: usize = 0;
        while j < self.permissions.network.len()
            invariant
                j <= self.permissions.network@.len(),
                skill_name_problem(self.name@) is None,
                version is Ok,
                self.security.slsa_level <= 4,
                actions_named(*self),
                forall|k: int|
                    0 <= k < j ==> (#[trigger] self.permissions.network@[k]).domain@.len() > 0,
            decreases self.permissions.network.len() - j,
        {
            if self.permissions.network[j].domain.as_str().is_empty() {
                return Err(
                    SkillGuardError::InvalidManifest(
                        String::from_str("Network permission domain cannot be empty"),
                    ),
                );
            }
            j += 1;
        }
        Ok(())
    }

    /// The first action with the given name, if any.
    pub fn find_action(&self, name: &str) -> (r: Option<&SkillAction>)
        ensures
            match r {
                Some(a) => exists|i: int|
                    0 <= i < self.actions@.len() && self.actions@[i] == *a && a.name@ == name@
                        && forall|j: int| 0 <= j < i ==> (#[trigger] self.actions@[j]).name@ != name@,
                None => forall|j: int|
                    0 <= j < self.actions@.len() ==> (#[trigger] self.actions@[j]).name@ != name@,
            },
    {
        let mut i: usize = 0;
        while i < self.actions.len()
            invariant
                i <= self.actions@.len(),
                forall|j: int| 0 <= j < i ==> (#[trigger] self.actions@[j]).name@ != name@,
            decreases self.actions.len() - i,
        {
            if str_eq(self.actions[i].name.as_str(), name) {
                return Some(&self.actions[i]);
            }
            i += 1;
        }
        None
    }
}

} // verus!
