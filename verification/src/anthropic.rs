//! Anthropic Agent Skills (SKILL.md): reading their frontmatter, inferring the
//! permissions their scripts need, and exporting a manifest as a SKILL.md.
use crate::action::SkillAction;
use crate::error::SkillGuardError;
use crate::json::{json_str_entry, json_str_field};
use crate::manifest::{SkillManifest, AdapterConfig, BuildConfig, SecurityMetadata};
use crate::permission::{
    EnvironmentPermission, FilesystemAccess, FilesystemPermission, HttpMethod, NetworkPermission,
    Permission,
};
use crate::text::{
    end_non_white, first_non_white, is_white, lemma_end_non_white_bounds, lemma_find_from_first, occurs_at, trim_start_seq,
    chars_of, contains_any, contains_any_str, contains_seq, find_seq, first_occurrence, occurs_at_exec,
    opt_chars, push_str, starts_with_seq, string_from_chars, sub_chars, trim_chars, trim_seq, trim_str,
};
use vstd::prelude::*;

verus! {

/// Format of the skill source.
#[derive(Debug, Clone, Copy, PartialEq, Eq, Structural)]
pub enum SkillFormat {
    /// Native skillguard.yaml + skill code
    Native,
    /// Anthropic SKILL.md + optional scripts/
    AnthropicAgentSkill,
    /// SKILL.md + skillguard.yaml sidecar
    Wrapped,
}

/// Metadata parsed from an Anthropic SKILL.md file.
#[derive(Debug, Clone)]
pub struct AnthropicSkillMeta {
    pub name: String,
    pub description: String,
    pub instructions: String,
    pub resources: Vec<String>,
}

/// A unified skill that can represent any format.
#[derive(Debug, Clone)]
pub struct UnifiedSkill {
    pub format: SkillFormat,
    pub manifest: SkillManifest,
    pub anthropic_metadata: Option<AnthropicSkillMeta>,
}

/// The format of a skill directory, from whether it holds a skillguard.yaml
/// and whether it holds a SKILL.md: both is Wrapped, SKILL.md alone is an
/// Anthropic Agent Skill, anything else is Native.
pub fn detect_skill_format(has_manifest: bool, has_skill_md: bool) -> (r: SkillFormat)
    ensures
        r == (if has_manifest && has_skill_md {
            SkillFormat::Wrapped
        } else if !has_manifest && has_skill_md {
            SkillFormat::AnthropicAgentSkill
        } else {
            SkillFormat::Native
        }),
{
    match (has_manifest, has_skill_md) {
        (true, true) => SkillFormat::Wrapped,
        (true, false) => SkillFormat::Native,
        (false, true) => SkillFormat::AnthropicAgentSkill,
        (false, false) => SkillFormat::Native,
    }
}

// ---------------------------------------------------------------------------
// YAML frontmatter
// ---------------------------------------------------------------------------

/// Whether `serde_yaml::from_str::<serde_yaml::Value>` accepts the document.
pub uninterp spec fn yaml_parses(doc: Seq<char>) -> bool;

/// The message of the error that `serde_yaml::from_str` gives for the document.
pub uninterp spec fn yaml_error_text(doc: Seq<char>) -> Seq<char>;

/// The string stored under `key` in the YAML document, as
/// `Value::get(key)` followed by `Value::as_str` gives it.
pub uninterp spec fn yaml_str_entry(doc: Seq<char>, key: Seq<char>) -> Option<Seq<char>>;

/// Reads the string under `key` of a YAML document.
/// Trusted: calls `serde_yaml::from_str::<serde_yaml::Value>`, then `Value::get`
/// and `Value::as_str`. Whether parsing succeeds, its error text and the entry
/// found are named (`yaml_parses`, `yaml_error_text`, `yaml_str_entry`) and not
/// described further here.
#[verifier::external_body]
fn yaml_str_field(doc: &str, key: &str) -> (r: Result<Option<String>, String>)
    ensures
        r is Ok <==> yaml_parses(doc@),
        r matches Err(m) ==> m@ == yaml_error_text(doc@),
        r matches Ok(o) ==> (o is None <==> yaml_str_entry(doc@, key@) is None),
        r matches Ok(Some(v)) ==> yaml_str_entry(doc@, key@) == Some(v@),
{
    match serde_yaml::from_str::<serde_yaml::Value>(doc) {
        Ok(v) => Ok(v.get(key).and_then(|x| x.as_str()).map(|s| s.to_string())),
        Err(e) => Err(e.to_string()),
    }
}

/// The trimmed SKILL.md after its opening "---".
pub open spec fn after_open(content: Seq<char>) -> Seq<char> {
    trim_seq(content).skip(3)
}

/// Where the frontmatter of a SKILL.md closes: the first "---" after the opening one.
pub open spec fn frontmatter_end(content: Seq<char>) -> Option<int> {
    first_occurrence(after_open(content), "---"@)
}

/// The frontmatter text of a SKILL.md whose frontmatter closes at `end`.
pub open spec fn frontmatter_of(content: Seq<char>, end: int) -> Seq<char> {
    after_open(content).take(end)
}

/// The instructions of a SKILL.md whose frontmatter closes at `end`: the rest, trimmed.
pub open spec fn instructions_of(content: Seq<char>, end: int) -> Seq<char> {
    trim_seq(after_open(content).skip(end + 3))
}

/// Parse YAML frontmatter from a SKILL.md file.
/// Expected format:
/// ```text
/// ---
/// name: my-skill
/// description: Does something
/// ---
/// Instructions body here...
/// ```
/// The trimmed content must start with "---"; the frontmatter runs to the next
/// "---" and must be YAML with a string `name`; `description` defaults to "".
pub fn parse_skill_md(content: &str) -> (r: Result<AnthropicSkillMeta, SkillGuardError>)
    ensures
        !starts_with_seq(trim_seq(content@), "---"@) ==> (r matches Err(
            SkillGuardError::AnthropicParseError(m),
        ) && m@ == "SKILL.md must start with YAML frontmatter (---)"@),
        starts_with_seq(trim_seq(content@), "---"@) && frontmatter_end(content@) is None ==> (r matches Err(
            SkillGuardError::AnthropicParseError(m),
        ) && m@ == "Missing closing --- for frontmatter"@),
        starts_with_seq(trim_seq(content@), "---"@) ==> (frontmatter_end(content@) matches Some(end)
            ==> {
            let fm = frontmatter_of(content@, end);
            &&& !yaml_parses(fm) ==> (r matches Err(SkillGuardError::AnthropicParseError(m))
                && m@ == "Invalid YAML frontmatter: "@ + yaml_error_text(fm))
            &&& yaml_parses(fm) && yaml_str_entry(fm, "name"@) is None ==> (r matches Err(
                SkillGuardError::AnthropicParseError(m),
            ) && m@ == "Missing 'name' in frontmatter"@)
            &&& yaml_parses(fm) && yaml_str_entry(fm, "name"@) is Some ==> (r matches Ok(meta)
                && Some(meta.name@) == yaml_str_entry(fm, "name"@) && meta.description@ == (
            match yaml_str_entry(fm, "description"@) {
                Some(d) => d,
                None => Seq::empty(),
            }) && meta.instructions@ == instructions_of(content@, end)
                && meta.resources@.len() == 0)
        }),
{
    let c = trim_str(content);
    let dashes = chars_of("---");
    proof {
        reveal_strlit("---");
    }
    if !occurs_at_exec(&c, &dashes, 0) {
        return Err(
            SkillGuardError::AnthropicParseError(
                String::from_str("SKILL.md must start with YAML frontmatter (---)"),
            ),
        );
    }
    let a = sub_chars(&c, 3, c.len());
    assert(a@ =~= after_open(content@));
    let end = match find_seq(&a, &dashes) {
        Some(e) => e,
        None => {
            return Err(
                SkillGuardError::AnthropicParseError(
                    String::from_str("Missing closing --- for frontmatter"),
                ),
            );
        },
    };
    let fm_chars = sub_chars(&a, 0, end);
    assert(fm_chars@ =~= frontmatter_of(content@, end as int));
    let rest = sub_chars(&a, end + 3, a.len());
    assert(rest@ =~= after_open(content@).skip(end + 3));
    let body = trim_chars(&rest);
    let fm = string_from_chars(&fm_chars);
    let name_field = yaml_str_field(fm.as_str(), "name");
    let description_field = yaml_str_field(fm.as_str(), "description");
    skill_md_meta(name_field, description_field, string_from_chars(&body))
}

/// The skill read from SKILL.md frontmatter, given what the YAML reading found
/// under `name` and under `description` (an error text where the frontmatter
/// is not YAML, `None` where there is no string under the key) and the
/// instructions. A YAML error is reported with its text, a missing name is
/// refused, and a missing description is empty.
pub fn skill_md_meta(
    name_field: Result<Option<String>, String>,
    description_field: Result<Option<String>, String>,
    instructions: String,
) -> (r: Result<AnthropicSkillMeta, SkillGuardError>)
    ensures
        name_field matches Err(d) ==> (r matches Err(SkillGuardError::AnthropicParseError(m))
            && m@ == "Invalid YAML frontmatter: "@ + d@),
        name_field matches Ok(None) ==> (r matches Err(SkillGuardError::AnthropicParseError(m))
            && m@ == "Missing 'name' in frontmatter"@),
        name_field matches Ok(Some(n)) ==> (r matches Ok(meta) && meta.name@ == n@
            && meta.description@ == (match description_field {
            Ok(Some(d)) => d@,
            _ => Seq::empty(),
        }) && meta.instructions@ == instructions@ && meta.resources@.len() == 0),
{
    let name = match name_field {
        Err(detail) => {
            let mut msg = String::new();
            push_str(&mut msg, "Invalid YAML frontmatter: ");
            push_str(&mut msg, detail.as_str());
            return Err(SkillGuardError::AnthropicParseError(msg));
        },
        Ok(None) => {
            return Err(
                SkillGuardError::AnthropicParseError(
                    String::from_str("Missing 'name' in frontmatter"),
                ),
            );
        },
        Ok(Some(n)) => n,
    };
    let description = match description_field {
        Ok(Some(d)) => d,
        _ => String::new(),
    };
    Ok(AnthropicSkillMeta { name, description, instructions, resources: Vec::new() })
}

// ---------------------------------------------------------------------------
// Permission inference
// ---------------------------------------------------------------------------

/// Text that signals network use in a script.
pub open spec fn network_patterns() -> Seq<Seq<char>> {
    seq![
        "requests.get"@,
        "requests.post"@,
        "requests.put"@,
        "requests.delete"@,
        "httpx."@,
        "urllib.request"@,
        "http.client"@,
        "aiohttp"@,
        "fetch("@,
        "curl"@,
    ]
}

/// Text that signals filesystem use in a script.
pub open spec fn filesystem_patterns() -> Seq<Seq<char>> {
    seq![
        "open("@,
        "Path("@,
        "pathlib"@,
        "os.path"@,
        "shutil"@,
        "glob.glob"@,
        "with open"@,
    ]
}

/// Text that signals environment variable use in a script.
pub open spec fn environment_patterns() -> Seq<Seq<char>> {
    seq!["os.environ"@, "os.getenv"@, "env::"@, "std::env"@]
}

/// Text that signals subprocess use in a script.
pub open spec fn subprocess_patterns() -> Seq<Seq<char>> {
    seq!["subprocess"@, "os.system"@, "os.popen"@, "Popen"@, "Command::new"@]
}

fn network_patterns_exec() -> (r: Vec<&'static str>)
    ensures
        r@.map_values(|p: &str| p@) == network_patterns(),
{
    let r = vec![
        "requests.get",
        "requests.post",
        "requests.put",
        "requests.delete",
        "httpx.",
        "urllib.request",
        "http.client",
        "aiohttp",
        "fetch(",
        "curl",
    ];
    assert(r@.map_values(|p: &str| p@) =~= network_patterns());
    r
}

fn filesystem_patterns_exec() -> (r: Vec<&'static str>)
    ensures
        r@.map_values(|p: &str| p@) == filesystem_patterns(),
{
    let r = vec!["open(", "Path(", "pathlib", "os.path", "shutil", "glob.glob", "with open"];
    assert(r@.map_values(|p: &str| p@) =~= filesystem_patterns());
    r
}

fn environment_patterns_exec() -> (r: Vec<&'static str>)
    ensures
        r@.map_values(|p: &str| p@) == environment_patterns(),
{
    let r = vec!["os.environ", "os.getenv", "env::", "std::env"];
    assert(r@.map_values(|p: &str| p@) =~= environment_patterns());
    r
}

fn subprocess_patterns_exec() -> (r: Vec<&'static str>)
    ensures
        r@.map_values(|p: &str| p@) == subprocess_patterns(),
{
    let r = vec!["subprocess", "os.system", "os.popen", "Popen", "Command::new"];
    assert(r@.map_values(|p: &str| p@) =~= subprocess_patterns());
    r
}

/// Some script holds one of the patterns.
pub open spec fn any_script_has(scripts: Seq<String>, pats: Seq<Seq<char>>) -> bool {
    exists|i: int| 0 <= i < scripts.len() && #[trigger] contains_any(scripts[i]@, pats)
}


proof fn lemma_script_has_pattern(scripts: Seq<String>, pats: Seq<Seq<char>>, i: int, k: int)
    requires
        0 <= i < scripts.len(),
        0 <= k < pats.len(),
        contains_seq(scripts[i]@, pats[k]),
    ensures
        any_script_has(scripts, pats),
{
    assert(contains_any(scripts[i]@, pats));
}

/// A script that mentions any of "requests.get", "requests.post", "requests.put", "requests.delete", "httpx.", "urllib.request", "http.client", "aiohttp", "fetch(", "curl" signals network use: the scripts
/// then have the pattern that infers the grant.
pub proof fn network_use_detected(scripts: Seq<String>, i: int)
    requires
        0 <= i < scripts.len(),
    ensures
        contains_seq(scripts[i]@, "requests.get"@) ==> any_script_has(scripts, network_patterns()),
        contains_seq(scripts[i]@, "requests.post"@) ==> any_script_has(scripts, network_patterns()),
        contains_seq(scripts[i]@, "requests.put"@) ==> any_script_has(scripts, network_patterns()),
        contains_seq(scripts[i]@, "requests.delete"@) ==> any_script_has(scripts, network_patterns()),
        contains_seq(scripts[i]@, "httpx."@) ==> any_script_has(scripts, network_patterns()),
        contains_seq(scripts[i]@, "urllib.request"@) ==> any_script_has(scripts, network_patterns()),
        contains_seq(scripts[i]@, "http.client"@) ==> any_script_has(scripts, network_patterns()),
        contains_seq(scripts[i]@, "aiohttp"@) ==> any_script_has(scripts, network_patterns()),
        contains_seq(scripts[i]@, "fetch("@) ==> any_script_has(scripts, network_patterns()),
        contains_seq(scripts[i]@, "curl"@) ==> any_script_has(scripts, network_patterns()),
{
    if contains_seq(scripts[i]@, "requests.get"@) {
        lemma_script_has_pattern(scripts, network_patterns(), i, 0);
    }
    if contains_seq(scripts[i]@, "requests.post"@) {
        lemma_script_has_pattern(scripts, network_patterns(), i, 1);
    }
    if contains_seq(scripts[i]@, "requests.put"@) {
        lemma_script_has_pattern(scripts, network_patterns(), i, 2);
    }
    if contains_seq(scripts[i]@, "requests.delete"@) {
        lemma_script_has_pattern(scripts, network_patterns(), i, 3);
    }
    if contains_seq(scripts[i]@, "httpx."@) {
        lemma_script_has_pattern(scripts, network_patterns(), i, 4);
    }
    if contains_seq(scripts[i]@, "urllib.request"@) {
        lemma_script_has_pattern(scripts, network_patterns(), i, 5);
    }
    if contains_seq(scripts[i]@, "http.client"@) {
        lemma_script_has_pattern(scripts, network_patterns(), i, 6);
    }
    if contains_seq(scripts[i]@, "aiohttp"@) {
        lemma_script_has_pattern(scripts, network_patterns(), i, 7);
    }
    if contains_seq(scripts[i]@, "fetch("@) {
        lemma_script_has_pattern(scripts, network_patterns(), i, 8);
    }
    if contains_seq(scripts[i]@, "curl"@) {
        lemma_script_has_pattern(scripts, network_patterns(), i, 9);
    }
}

/// Only those texts signal network use: scripts that have the pattern have a
/// script that mentions one of them.
pub proof fn network_use_needs_mention(scripts: Seq<String>)
    ensures
        any_script_has(scripts, network_patterns()) ==> exists|i: int|
            0 <= i < scripts.len() && (contains_seq(scripts[i]@, "requests.get"@)
                || contains_seq(scripts[i]@, "requests.post"@)
                || contains_seq(scripts[i]@, "requests.put"@)
                || contains_seq(scripts[i]@, "requests.delete"@)
                || contains_seq(scripts[i]@, "httpx."@)
                || contains_seq(scripts[i]@, "urllib.request"@)
                || contains_seq(scripts[i]@, "http.client"@)
                || contains_seq(scripts[i]@, "aiohttp"@)
                || contains_seq(scripts[i]@, "fetch("@)
                || contains_seq(scripts[i]@, "curl"@)),
{
    if any_script_has(scripts, network_patterns()) {
        let i = choose|i: int| 0 <= i < scripts.len() && #[trigger] contains_any(scripts[i]@, network_patterns());
        let k = choose|k: int| 0 <= k < network_patterns().len() && #[trigger] contains_seq(scripts[i]@, network_patterns()[k]);
        assert(network_patterns()[0] == "requests.get"@);
        assert(network_patterns()[1] == "requests.post"@);
        assert(network_patterns()[2] == "requests.put"@);
        assert(network_patterns()[3] == "requests.delete"@);
        assert(network_patterns()[4] == "httpx."@);
        assert(network_patterns()[5] == "urllib.request"@);
        assert(network_patterns()[6] == "http.client"@);
        assert(network_patterns()[7] == "aiohttp"@);
        assert(network_patterns()[8] == "fetch("@);
        assert(network_patterns()[9] == "curl"@);
        assert(0 <= i < scripts.len());
    }
}

/// A script that mentions any of "open(", "Path(", "pathlib", "os.path", "shutil", "glob.glob", "with open" signals filesystem use: the scripts
/// then have the pattern that infers the grant.
pub proof fn filesystem_use_detected(scripts: Seq<String>, i: int)
    requires
        0 <= i < scripts.len(),
    ensures
        contains_seq(scripts[i]@, "open("@) ==> any_script_has(scripts, filesystem_patterns()),
        contains_seq(scripts[i]@, "Path("@) ==> any_script_has(scripts, filesystem_patterns()),
        contains_seq(scripts[i]@, "pathlib"@) ==> any_script_has(scripts, filesystem_patterns()),
        contains_seq(scripts[i]@, "os.path"@) ==> any_script_has(scripts, filesystem_patterns()),
        contains_seq(scripts[i]@, "shutil"@) ==> any_script_has(scripts, filesystem_patterns()),
        contains_seq(scripts[i]@, "glob.glob"@) ==> any_script_has(scripts, filesystem_patterns()),
        contains_seq(scripts[i]@, "with open"@) ==> any_script_has(scripts, filesystem_patterns()),
{
    if contains_seq(scripts[i]@, "open("@) {
        lemma_script_has_pattern(scripts, filesystem_patterns(), i, 0);
    }
    if contains_seq(scripts[i]@, "Path("@) {
        lemma_script_has_pattern(scripts, filesystem_patterns(), i, 1);
    }
    if contains_seq(scripts[i]@, "pathlib"@) {
        lemma_script_has_pattern(scripts, filesystem_patterns(), i, 2);
    }
    if contains_seq(scripts[i]@, "os.path"@) {
        lemma_script_has_pattern(scripts, filesystem_patterns(), i, 3);
    }
    if contains_seq(scripts[i]@, "shutil"@) {
        lemma_script_has_pattern(scripts, filesystem_patterns(), i, 4);
    }
    if contains_seq(scripts[i]@, "glob.glob"@) {
        lemma_script_has_pattern(scripts, filesystem_patterns(), i, 5);
    }
    if contains_seq(scripts[i]@, "with open"@) {
        lemma_script_has_pattern(scripts, filesystem_patterns(), i, 6);
    }
}

/// Only those texts signal filesystem use: scripts that have the pattern have a
/// script that mentions one of them.
pub proof fn filesystem_use_needs_mention(scripts: Seq<String>)
    ensures
        any_script_has(scripts, filesystem_patterns()) ==> exists|i: int|
            0 <= i < scripts.len() && (contains_seq(scripts[i]@, "open("@)
                || contains_seq(scripts[i]@, "Path("@)
                || contains_seq(scripts[i]@, "pathlib"@)
                || contains_seq(scripts[i]@, "os.path"@)
                || contains_seq(scripts[i]@, "shutil"@)
                || contains_seq(scripts[i]@, "glob.glob"@)
                || contains_seq(scripts[i]@, "with open"@)),
{
    if any_script_has(scripts, filesystem_patterns()) {
        let i = choose|i: int| 0 <= i < scripts.len() && #[trigger] contains_any(scripts[i]@, filesystem_patterns());
        let k = choose|k: int| 0 <= k < filesystem_patterns().len() && #[trigger] contains_seq(scripts[i]@, filesystem_patterns()[k]);
        assert(filesystem_patterns()[0] == "open("@);
        assert(filesystem_patterns()[1] == "Path("@);
        assert(filesystem_patterns()[2] == "pathlib"@);
        assert(filesystem_patterns()[3] == "os.path"@);
        assert(filesystem_patterns()[4] == "shutil"@);
        assert(filesystem_patterns()[5] == "glob.glob"@);
        assert(filesystem_patterns()[6] == "with open"@);
        assert(0 <= i < scripts.len());
    }
}

/// A script that mentions any of "os.environ", "os.getenv", "env::", "std::env" signals environment variable use: the scripts
/// then have the pattern that infers the grant.
pub proof fn environment_use_detected(scripts: Seq<String>, i: int)
    requires
        0 <= i < scripts.len(),
    ensures
        contains_seq(scripts[i]@, "os.environ"@) ==> any_script_has(scripts, environment_patterns()),
        contains_seq(scripts[i]@, "os.getenv"@) ==> any_script_has(scripts, environment_patterns()),
        contains_seq(scripts[i]@, "env::"@) ==> any_script_has(scripts, environment_patterns()),
        contains_seq(scripts[i]@, "std::env"@) ==> any_script_has(scripts, environment_patterns()),
{
    if contains_seq(scripts[i]@, "os.environ"@) {
        lemma_script_has_pattern(scripts, environment_patterns(), i, 0);
    }
    if contains_seq(scripts[i]@, "os.getenv"@) {
        lemma_script_has_pattern(scripts, environment_patterns(), i, 1);
    }
    if contains_seq(scripts[i]@, "env::"@) {
        lemma_script_has_pattern(scripts, environment_patterns(), i, 2);
    }
    if contains_seq(scripts[i]@, "std::env"@) {
        lemma_script_has_pattern(scripts, environment_patterns(), i, 3);
    }
}

/// Only those texts signal environment variable use: scripts that have the pattern have a
/// script that mentions one of them.
pub proof fn environment_use_needs_mention(scripts: Seq<String>)
    ensures
        any_script_has(scripts, environment_patterns()) ==> exists|i: int|
            0 <= i < scripts.len() && (contains_seq(scripts[i]@, "os.environ"@)
                || contains_seq(scripts[i]@, "os.getenv"@)
                || contains_seq(scripts[i]@, "env::"@)
                || contains_seq(scripts[i]@, "std::env"@)),
{
    if any_script_has(scripts, environment_patterns()) {
        let i = choose|i: int| 0 <= i < scripts.len() && #[trigger] contains_any(scripts[i]@, environment_patterns());
        let k = choose|k: int| 0 <= k < environment_patterns().len() && #[trigger] contains_seq(scripts[i]@, environment_patterns()[k]);
        assert(environment_patterns()[0] == "os.environ"@);
        assert(environment_patterns()[1] == "os.getenv"@);
        assert(environment_patterns()[2] == "env::"@);
        assert(environment_patterns()[3] == "std::env"@);
        assert(0 <= i < scripts.len());
    }
}

/// A script that mentions any of "subprocess", "os.system", "os.popen", "Popen", "Command::new" signals subprocess use: the scripts
/// then have the pattern that infers the grant.
pub proof fn subprocess_use_detected(scripts: Seq<String>, i: int)
    requires
        0 <= i < scripts.len(),
    ensures
        contains_seq(scripts[i]@, "subprocess"@) ==> any_script_has(scripts, subprocess_patterns()),
        contains_seq(scripts[i]@, "os.system"@) ==> any_script_has(scripts, subprocess_patterns()),
        contains_seq(scripts[i]@, "os.popen"@) ==> any_script_has(scripts, subprocess_patterns()),
        contains_seq(scripts[i]@, "Popen"@) ==> any_script_has(scripts, subprocess_patterns()),
        contains_seq(scripts[i]@, "Command::new"@) ==> any_script_has(scripts, subprocess_patterns()),
{
    if contains_seq(scripts[i]@, "subprocess"@) {
        lemma_script_has_pattern(scripts, subprocess_patterns(), i, 0);
    }
    if contains_seq(scripts[i]@, "os.system"@) {
        lemma_script_has_pattern(scripts, subprocess_patterns(), i, 1);
    }
    if contains_seq(scripts[i]@, "os.popen"@) {
        lemma_script_has_pattern(scripts, subprocess_patterns(), i, 2);
    }
    if contains_seq(scripts[i]@, "Popen"@) {
        lemma_script_has_pattern(scripts, subprocess_patterns(), i, 3);
    }
    if contains_seq(scripts[i]@, "Command::new"@) {
        lemma_script_has_pattern(scripts, subprocess_patterns(), i, 4);
    }
}

/// Only those texts signal subprocess use: scripts that have the pattern have a
/// script that mentions one of them.
pub proof fn subprocess_use_needs_mention(scripts: Seq<String>)
    ensures
        any_script_has(scripts, subprocess_patterns()) ==> exists|i: int|
            0 <= i < scripts.len() && (contains_seq(scripts[i]@, "subprocess"@)
                || contains_seq(scripts[i]@, "os.system"@)
                || contains_seq(scripts[i]@, "os.popen"@)
                || contains_seq(scripts[i]@, "Popen"@)
                || contains_seq(scripts[i]@, "Command::new"@)),
{
    if any_script_has(scripts, subprocess_patterns()) {
        let i = choose|i: int| 0 <= i < scripts.len() && #[trigger] contains_any(scripts[i]@, subprocess_patterns());
        let k = choose|k: int| 0 <= k < subprocess_patterns().len() && #[trigger] contains_seq(scripts[i]@, subprocess_patterns()[k]);
        assert(subprocess_patterns()[0] == "subprocess"@);
        assert(subprocess_patterns()[1] == "os.system"@);
        assert(subprocess_patterns()[2] == "os.popen"@);
        assert(subprocess_patterns()[3] == "Popen"@);
        assert(subprocess_patterns()[4] == "Command::new"@);
        assert(0 <= i < scripts.len());
    }
}

/// The network grant inferred from scripts: any domain, GET and POST, ports 443 and 80.
pub open spec fn is_inferred_network(n: NetworkPermission) -> bool {
    &&& n.domain@ == "*"@
    &&& n.methods@ == seq![HttpMethod::Get, HttpMethod::Post]
    &&& n.ports@ == seq![443u16, 80u16]
}

/// The filesystem grant inferred from scripts: the workspace tree, read and write.
pub open spec fn is_inferred_filesystem(f: FilesystemPermission) -> bool {
    &&& f.path@ == "${WORKSPACE}/**"@
    &&& f.access@ == seq![FilesystemAccess::Read, FilesystemAccess::Write]
}

/// The environment grant inferred from scripts: any variable, neither required nor sensitive.
pub open spec fn is_inferred_environment(e: EnvironmentPermission) -> bool {
    &&& e.name@ == "*"@
    &&& !e.required
    &&& !e.sensitive
}

/// The grants inferred from scripts are fixed: network to any domain with GET
/// and POST on ports 443 and 80; read and write on the workspace tree; any
/// environment variable, neither required nor sensitive.
pub proof fn inferred_grants_fixed(n: NetworkPermission, f: FilesystemPermission, e: EnvironmentPermission)
    ensures
        is_inferred_network(n) <==> (n.domain@ == "*"@ && n.methods@ == seq![
            HttpMethod::Get,
            HttpMethod::Post,
        ] && n.ports@ == seq![443u16, 80u16]),
        is_inferred_filesystem(f) <==> (f.path@ == "${WORKSPACE}/**"@ && f.access@ == seq![
            FilesystemAccess::Read,
            FilesystemAccess::Write,
        ]),
        is_inferred_environment(e) <==> (e.name@ == "*"@ && !e.required && !e.sensitive),
{
}

fn inferred_network() -> (r: NetworkPermission)
    ensures
        is_inferred_network(r),
{
    let mut methods: Vec<HttpMethod> = Vec::new();
    methods.push(HttpMethod::Get);
    methods.push(HttpMethod::Post);
    let mut ports: Vec<u16> = Vec::new();
    ports.push(443);
    ports.push(80);
    assert(methods@ =~= seq![HttpMethod::Get, HttpMethod::Post]);
    assert(ports@ =~= seq![443u16, 80u16]);
    NetworkPermission { domain: String::from_str("*"), methods, ports }
}

fn inferred_filesystem() -> (r: FilesystemPermission)
    ensures
        is_inferred_filesystem(r),
{
    let mut access: Vec<FilesystemAccess> = Vec::new();
    access.push(FilesystemAccess::Read);
    access.push(FilesystemAccess::Write);
    assert(access@ =~= seq![FilesystemAccess::Read, FilesystemAccess::Write]);
    FilesystemPermission { path: String::from_str("${WORKSPACE}/**"), access }
}

/// Infer permissions from the contents of a skill's scripts: any script that
/// mentions a network, filesystem or environment API adds one broad grant of
/// that kind (at most one of each), and any that mentions a subprocess API
/// turns subprocesses on, with no allowlist.
pub fn infer_permissions_from_scripts(scripts: &Vec<String>) -> (r: Permission)
    ensures
        r.network@.len() == (if any_script_has(scripts@, network_patterns()) {
            1int
        } else {
            0int
        }),
        any_script_has(scripts@, network_patterns()) ==> is_inferred_network(r.network@[0]),
        r.filesystem@.len() == (if any_script_has(scripts@, filesystem_patterns()) {
            1int
        } else {
            0int
        }),
        any_script_has(scripts@, filesystem_patterns()) ==> is_inferred_filesystem(
            r.filesystem@[0],
        ),
        r.environment@.len() == (if any_script_has(scripts@, environment_patterns()) {
            1int
        } else {
            0int
        }),
        any_script_has(scripts@, environment_patterns()) ==> is_inferred_environment(
            r.environment@[0],
        ),
        r.subprocess == any_script_has(scripts@, subprocess_patterns()),
        r.subprocess_allowlist@.len() == 0,
{
    let net_pats = network_patterns_exec();
    let fs_pats = filesystem_patterns_exec();
    let env_pats = environment_patterns_exec();
    let sub_pats = subprocess_patterns_exec();
    let mut perm = Permission::default();
    let mut i: usize = 0;
    while i < scripts.len()
        invariant
            i <= scripts@.len(),
            net_pats@.map_values(|p: &str| p@) == network_patterns(),
            fs_pats@.map_values(|p: &str| p@) == filesystem_patterns(),
            env_pats@.map_values(|p: &str| p@) == environment_patterns(),
            sub_pats@.map_values(|p: &str| p@) == subprocess_patterns(),
            perm.network@.len() == (if any_script_has(scripts@.take(i as int), network_patterns()) {
                1int
            } else {
                0int
            }),
            perm.network@.len() > 0 ==> is_inferred_network(perm.network@[0]),
            perm.filesystem@.len() == (if any_script_has(
                scripts@.take(i as int),
                filesystem_patterns(),
            ) {
                1int
            } else {
                0int
            }),
            perm.filesystem@.len() > 0 ==> is_inferred_filesystem(perm.filesystem@[0]),
            perm.environment@.len() == (if any_script_has(
                scripts@.take(i as int),
                environment_patterns(),
            ) {
                1int
            } else {
                0int
            }),
            perm.environment@.len() > 0 ==> is_inferred_environment(perm.environment@[0]),
            perm.subprocess == any_script_has(scripts@.take(i as int), subprocess_patterns()),
            perm.subprocess_allowlist@.len() == 0,
        decreases scripts.len() - i,
    {
        let content = scripts[i].as_str();
        let ghost prev = scripts@.take(i as int);
        let ghost next = scripts@.take(i + 1);
        assert(next =~= prev.push(scripts@[i as int]));
        assert forall|pats: Seq<Seq<char>>|
            any_script_has(next, pats) == (any_script_has(prev, pats) || contains_any(
                scripts@[i as int]@,
                pats,
            )) by {
            if any_script_has(next, pats) {
                let k = choose|k: int| 0 <= k < next.len() && #[trigger] contains_any(next[k]@, pats);
                if k < prev.len() {
                    assert(prev[k] == next[k]);
                }
            }
            if any_script_has(prev, pats) {
                let k = choose|k: int| 0 <= k < prev.len() && #[trigger] contains_any(prev[k]@, pats);
                assert(next[k] == prev[k]);
            }
            if contains_any(scripts@[i as int]@, pats) {
                assert(next[prev.len() as int] == scripts@[i as int]);
            }
        }
        if contains_any_str(content, &net_pats) && perm.network.len() == 0 {
            perm.network.push(inferred_network());
        }
        if contains_any_str(content, &fs_pats) && perm.filesystem.len() == 0 {
            perm.filesystem.push(inferred_filesystem());
        }
        if contains_any_str(content, &env_pats) && perm.environment.len() == 0 {
            perm.environment.push(
                EnvironmentPermission { name: String::from_str("*"), required: false, sensitive: false },
            );
        }
        if contains_any_str(content, &sub_pats) {
            perm.subprocess = true;
        }
        i += 1;
    }
    assert(scripts@.take(scripts.len() as int) =~= scripts@);
    perm
}

// ---------------------------------------------------------------------------
// Manifests for Anthropic skills
// ---------------------------------------------------------------------------

/// The manifest that stands for an Anthropic skill without a skillguard.yaml:
/// its name and description, version "0.1.0", author "unknown", license
/// "Apache-2.0", the given permissions, and defaults elsewhere.
pub fn manifest_from_anthropic(meta: &AnthropicSkillMeta, permissions: Permission) -> (r: SkillManifest)
    ensures
        r.name@ == meta.name@,
        r.description@ == meta.description@,
        r.version@ == "0.1.0"@,
        r.author@ == "unknown"@,
        r.license@ == "Apache-2.0"@,
        r.homepage.is_none(),
        r.repository.is_none(),
        r.permissions == permissions,
        r.adapters.openclaw.is_none() && r.adapters.langchain.is_none()
            && r.adapters.crewai.is_none() && r.adapters.mcp.is_none()
            && r.adapters.autogpt.is_none(),
        r.build.reproducible && r.build.base@ == "skillguard/python:3.11-minimal"@
            && r.build.python_version@ == "3.11"@ && r.build.dependencies@.len() == 0,
        r.security.slsa_level == 0 && r.security.audit_date.is_none()
            && r.security.auditor.is_none() && r.security.cve_scan_date.is_none()
            && r.security.known_vulnerabilities@.len() == 0,
        r.actions@.len() == 0,
        r.keywords@.len() == 0,
{
    SkillManifest {
        name: meta.name.clone(),
        version: String::from_str("0.1.0"),
        description: meta.description.clone(),
        author: String::from_str("unknown"),
        license: String::from_str("Apache-2.0"),
        homepage: None,
        repository: None,
        permissions,
        adapters: AdapterConfig::default(),
        build: BuildConfig::default(),
        security: SecurityMetadata::default(),
        actions: Vec::new(),
        keywords: Vec::new(),
    }
}

// ---------------------------------------------------------------------------
// Export as SKILL.md
// ---------------------------------------------------------------------------

/// The value if present, else the default.
pub open spec fn or_default(o: Option<Seq<char>>, d: Seq<char>) -> Seq<char> {
    match o {
        Some(v) => v,
        None => d,
    }
}

/// The line that documents one parameter: "- `name` (type): description".
/// A schema without a string `type` is of type "any"; a missing description is empty.
pub open spec fn param_line(p: (String, String)) -> Seq<char> {
    param_line_of(p.0@, json_str_entry(p.1@, "type"@), json_str_entry(p.1@, "description"@))
}

/// The line for a parameter with the given name, schema type and description.
pub open spec fn param_line_of(name: Seq<char>, ty: Option<Seq<char>>, desc: Option<Seq<char>>) -> Seq<
    char,
> {
    "- `"@ + name + "` ("@ + or_default(ty, "any"@) + "): "@ + or_default(desc, Seq::empty())
        + "\n"@
}

/// Appends the line for a parameter, given its name and the strings its JSON
/// schema holds under `type` and `description`, where it holds them: a missing
/// type is "any" and a missing description empty.
pub fn push_param_line(out: &mut String, name: &str, ty: Option<String>, desc: Option<String>)
    ensures
        final(out)@ == old(out)@ + param_line_of(name@, opt_chars(ty), opt_chars(desc)),
{
    let ghost before = out@;
    push_str(out, "- `");
    push_str(out, name);
    push_str(out, "` (");
    match &ty {
        Some(t) => push_str(out, t.as_str()),
        None => push_str(out, "any"),
    }
    push_str(out, "): ");
    match &desc {
        Some(d) => push_str(out, d.as_str()),
        None => {},
    }
    push_str(out, "\n");
    assert(out@ =~= before + param_line_of(name@, opt_chars(ty), opt_chars(desc)));
}

/// The lines for all parameters, in order.
pub open spec fn param_lines(ps: Seq<(String, String)>) -> Seq<char>
    decreases ps.len(),
{
    if ps.len() == 0 {
        Seq::empty()
    } else {
        param_lines(ps.drop_last()) + param_line(ps.last())
    }
}

/// The parameter section of an action: nothing when it has no parameters.
pub open spec fn params_section(ps: Seq<(String, String)>) -> Seq<char> {
    if ps.len() == 0 {
        Seq::empty()
    } else {
        "**Parameters:**\n"@ + param_lines(ps) + "\n"@
    }
}

/// The section for one action.
pub open spec fn action_section(a: SkillAction) -> Seq<char> {
    "### "@ + a.name@ + "\n\n"@ + a.description@ + "\n\n"@ + params_section(a.parameters@)
}

/// The sections for all actions, in order.
pub open spec fn action_sections(acts: Seq<SkillAction>) -> Seq<char>
    decreases acts.len(),
{
    if acts.len() == 0 {
        Seq::empty()
    } else {
        action_sections(acts.drop_last()) + action_section(acts.last())
    }
}

/// The SKILL.md for a manifest: frontmatter with name and description, a title,
/// the description, and an "Actions" section when there are actions.
pub open spec fn anthropic_export(m: SkillManifest) -> Seq<char> {
    "---\n"@ + "name: "@ + m.name@ + "\n"@ + "description: "@ + m.description@ + "\n"@
        + "---\n\n"@ + "# "@ + m.name@ + "\n\n"@ + m.description@ + "\n\n"@ + (if m.actions@.len()
        == 0 {
        Seq::empty()
    } else {
        "## Actions\n\n"@ + action_sections(m.actions@)
    })
}

/// The actions are exported one section each, in order: the sections for two
/// lists of actions one after the other are those of the first list followed
/// by those of the second, and a single action gives exactly its own section.
pub proof fn action_sections_in_order(a: Seq<SkillAction>, b: Seq<SkillAction>, x: SkillAction)
    ensures
        action_sections(a + b) == action_sections(a) + action_sections(b),
        action_sections(seq![x]) == action_section(x),
    decreases b.len(),
{
    if b.len() == 0 {
        assert(a + b =~= a);
        assert(action_sections(a) + action_sections(b) =~= action_sections(a));
    } else {
        action_sections_in_order(a, b.drop_last(), x);
        assert((a + b).drop_last() =~= a + b.drop_last());
        assert((a + b).last() == b.last());
        assert(action_sections(a + b) =~= action_sections(a) + action_sections(b));
    }
    let one = seq![x];
    assert(one.drop_last() =~= Seq::<SkillAction>::empty());
    assert(one.last() == x);
    assert(action_sections(one.drop_last()) =~= Seq::<char>::empty());
    assert(action_sections(one) =~= action_section(x));
}

/// An action's section opens with the heading "### " and the action's name,
/// followed by a blank line and its description.
pub proof fn action_section_heading(x: SkillAction)
    ensures
        ({
            let s = action_section(x);
            let nl = x.name@.len() as int;
            let dl = x.description@.len() as int;
            &&& s.len() >= 8 + nl + dl
            &&& s.take(4 + nl) == "### "@ + x.name@
            &&& s.subrange(4 + nl, 6 + nl) == "\n\n"@
            &&& s.subrange(6 + nl, 6 + nl + dl) == x.description@
        }),
{
    reveal_strlit("### ");
    reveal_strlit("\n\n");
    let n = x.name@;
    let d = x.description@;
    let nl = n.len() as int;
    let dl = d.len() as int;
    let s = action_section(x);
    let p = "### "@ + n + "\n\n"@ + d + "\n\n"@;
    let q = s.take(p.len() as int);
    assert(q =~= p);
    assert(s.take(4 + nl) =~= "### "@ + n) by {
        assert forall|k: int| 0 <= k < 4 + nl implies s[k] == ("### "@ + n)[k] by {
            assert(q[k] == s[k]);
        }
    }
    assert(s.subrange(4 + nl, 6 + nl) =~= "\n\n"@) by {
        assert(q[4 + nl] == s[4 + nl]);
        assert(q[5 + nl] == s[5 + nl]);
    }
    assert(s.subrange(6 + nl, 6 + nl + dl) =~= d) by {
        assert forall|k: int| 0 <= k < dl implies s[6 + nl + k] == d[k] by {
            assert(q[6 + nl + k] == s[6 + nl + k]);
        }
    }
}

/// Parameters are documented one line each, in order: the lines for two lists
/// one after the other are those of the first followed by those of the second,
/// and a single parameter gives exactly its own line.
pub proof fn param_lines_in_order(a: Seq<(String, String)>, b: Seq<(String, String)>, x: (String, String))
    ensures
        param_lines(a + b) == param_lines(a) + param_lines(b),
        param_lines(seq![x]) == param_line(x),
    decreases b.len(),
{
    if b.len() == 0 {
        assert(a + b =~= a);
        assert(param_lines(a) + param_lines(b) =~= param_lines(a));
    } else {
        param_lines_in_order(a, b.drop_last(), x);
        assert((a + b).drop_last() =~= a + b.drop_last());
        assert((a + b).last() == b.last());
        assert(param_lines(a + b) =~= param_lines(a) + param_lines(b));
    }
    let one = seq![x];
    assert(one.drop_last() =~= Seq::<(String, String)>::empty());
    assert(one.last() == x);
    assert(param_lines(one.drop_last()) =~= Seq::<char>::empty());
    assert(param_lines(one) =~= param_line(x));
}

/// The exported SKILL.md is the frontmatter, the title, the description and,
/// when the manifest has actions, an "## Actions" heading followed by one
/// section per action in order; without actions it ends after the description.
pub proof fn export_layout(m: SkillManifest)
    ensures
        ({
            let head = "---\nname: "@ + m.name@ + "\ndescription: "@ + m.description@ + "\n---\n\n# "@
                + m.name@ + "\n\n"@ + m.description@ + "\n\n"@;
            &&& m.actions@.len() == 0 ==> anthropic_export(m) == head
            &&& m.actions@.len() > 0 ==> anthropic_export(m) == head + "## Actions\n\n"@
                + action_sections(m.actions@)
        }),
{
    reveal_strlit("---\nname: ");
    reveal_strlit("\ndescription: ");
    reveal_strlit("\n---\n\n# ");
    reveal_strlit("---\n");
    reveal_strlit("name: ");
    reveal_strlit("\n");
    reveal_strlit("description: ");
    reveal_strlit("---\n\n");
    reveal_strlit("# ");
    let head = "---\nname: "@ + m.name@ + "\ndescription: "@ + m.description@ + "\n---\n\n# "@
        + m.name@ + "\n\n"@ + m.description@ + "\n\n"@;
    let h2 = "---\n"@ + "name: "@ + m.name@ + "\n"@ + "description: "@ + m.description@ + "\n"@
        + "---\n\n"@ + "# "@ + m.name@ + "\n\n"@ + m.description@ + "\n\n"@;
    assert(head =~= h2);
    if m.actions@.len() == 0 {
        assert(anthropic_export(m) =~= h2);
    } else {
        assert(anthropic_export(m) =~= h2 + ("## Actions\n\n"@ + action_sections(m.actions@)));
    }
}

fn push_param_lines(out: &mut String, ps: &Vec<(String, String)>)
    ensures
        final(out)@ == old(out)@ + param_lines(ps@),
{
    let mut i: usize = 0;
    while i < ps.len()
        invariant
            i <= ps@.len(),
            out@ == old(out)@ + param_lines(ps@.take(i as int)),
        decreases ps.len() - i,
    {
        let ghost before = out@;
        let ty = json_str_field(ps[i].1.as_str(), "type");
        let desc = json_str_field(ps[i].1.as_str(), "description");
        push_param_line(out, ps[i].0.as_str(), ty, desc);
        assert(ps@.take(i + 1).drop_last() =~= ps@.take(i as int));
        assert(out@ =~= before + param_line(ps@[i as int]));
        i += 1;
    }
    assert(ps@.take(ps.len() as int) =~= ps@);
}

fn push_action_sections(out: &mut String, acts: &Vec<SkillAction>)
    ensures
        final(out)@ == old(out)@ + action_sections(acts@),
{
    let mut i: usize = 0;
    while i < acts.len()
        invariant
            i <= acts@.len(),
            out@ == old(out)@ + action_sections(acts@.take(i as int)),
        decreases acts.len() - i,
    {
        let ghost before = out@;
        let a = &acts[i];
        push_str(out, "### ");
        push_str(out, a.name.as_str());
        push_str(out, "\n\n");
        push_str(out, a.description.as_str());
        push_str(out, "\n\n");
        if a.parameters.len() > 0 {
            push_str(out, "**Parameters:**\n");
            push_param_lines(out, &a.parameters);
            push_str(out, "\n");
        }
        assert(acts@.take(i + 1).drop_last() =~= acts@.take(i as int));
        assert(out@ =~= before + action_section(acts@[i as int]));
        i += 1;
    }
    assert(acts@.take(acts.len() as int) =~= acts@);
}

/// Generate a SKILL.md from a SkillManifest.
pub fn export_as_anthropic(manifest: &SkillManifest) -> (r: String)
    ensures
        r@ == anthropic_export(*manifest),
{
    let mut output = String::new();
    push_str(&mut output, "---\n");
    push_str(&mut output, "name: ");
    push_str(&mut output, manifest.name.as_str());
    push_str(&mut output, "\n");
    push_str(&mut output, "description: ");
    push_str(&mut output, manifest.description.as_str());
    push_str(&mut output, "\n");
    push_str(&mut output, "---\n\n");
    push_str(&mut output, "# ");
    push_str(&mut output, manifest.name.as_str());
    push_str(&mut output, "\n\n");
    push_str(&mut output, manifest.description.as_str());
    push_str(&mut output, "\n\n");
    let ghost head = output@;
    if manifest.actions.len() > 0 {
        push_str(&mut output, "## Actions\n\n");
        push_action_sections(&mut output, &manifest.actions);
    }
    assert(output@ =~= anthropic_export(*manifest));
    output
}

// ---------------------------------------------------------------------------
// Exported frontmatter
// ---------------------------------------------------------------------------

/// The frontmatter text of the SKILL.md exported for a manifest.
pub open spec fn export_frontmatter(m: SkillManifest) -> Seq<char> {
    "\nname: "@ + m.name@ + "\ndescription: "@ + m.description@ + "\n"@
}

proof fn lemma_end_non_white_at_least(s: Seq<char>, j: int, i: int)
    requires
        0 <= i < j <= s.len(),
        !is_white(s[i]),
    ensures
        end_non_white(s, j) >= i + 1,
    decreases j,
{
    if j > i + 1 {
        if is_white(s[j - 1]) {
            lemma_end_non_white_at_least(s, j - 1, i);
        }
    }
}

/// Where a dash can stand in the exported frontmatter: only inside the name or
/// the description.
proof fn lemma_frontmatter_dashes(m: SkillManifest, q: int)
    requires
        0 <= q < export_frontmatter(m).len(),
        export_frontmatter(m)[q] == '-',
    ensures
        (7 <= q < 7 + m.name@.len()) || (21 + m.name@.len() <= q < 21 + m.name@.len()
            + m.description@.len()),
{
    reveal_strlit("\nname: ");
    reveal_strlit("\ndescription: ");
    reveal_strlit("\n");
    let n = m.name@;
    let d = m.description@;
    let h = export_frontmatter(m);
    assert(h.len() == 22 + n.len() + d.len());
    if q < 7 {
        assert(h[q] == "\nname: "@[q]);
    } else if q < 7 + n.len() {
    } else if q < 21 + n.len() {
        assert(h[q] == "\ndescription: "@[q - 7 - n.len()]);
    } else if q < 21 + n.len() + d.len() {
    } else {
        assert(h[q] == '\n');
    }
}

proof fn lemma_export_prefix(m: SkillManifest)
    ensures
        ({
            let e = anthropic_export(m);
            let h = export_frontmatter(m);
            &&& e.len() >= 3 + h.len() + 3
            &&& e.subrange(3, 3 + h.len() as int) == h
            &&& e[0] == '-'
            &&& e[3 + h.len() as int] == '-' && e[4 + h.len() as int] == '-' && e[5 + h.len() as int] == '-'
        }),
{
    reveal_strlit("---");
    reveal_strlit("---\n");
    reveal_strlit("---\n\n");
    reveal_strlit("name: ");
    reveal_strlit("description: ");
    reveal_strlit("\n");
    reveal_strlit("\nname: ");
    reveal_strlit("\ndescription: ");
    let n = m.name@;
    let d = m.description@;
    let h = export_frontmatter(m);
    let e = anthropic_export(m);
    let hl = h.len() as int;
    let p = "---\n"@ + "name: "@ + n + "\n"@ + "description: "@ + d + "\n"@ + "---\n\n"@;
    assert(p =~= "---"@ + h + "---\n\n"@);
    assert(e.take(p.len() as int) =~= p);
    assert(e.subrange(3, 3 + hl) =~= h) by {
        assert(e.subrange(3, 3 + hl) =~= p.subrange(3, 3 + hl));
    }
    assert(e[0] == p[0]);
    assert(e[3 + hl] == p[3 + hl]);
    assert(e[3 + hl + 1] == p[3 + hl + 1]);
    assert(e[3 + hl + 2] == p[3 + hl + 2]);
}

proof fn lemma_export_after_open(m: SkillManifest)
    ensures
        ({
            let a = after_open(anthropic_export(m));
            let h = export_frontmatter(m);
            &&& a.len() >= h.len() + 3
            &&& a.take(h.len() as int) == h
            &&& a.subrange(h.len() as int, h.len() as int + 3) == "---"@
        }),
{
    reveal_strlit("---");
    lemma_export_prefix(m);
    let h = export_frontmatter(m);
    let e = anthropic_export(m);
    let hl = h.len() as int;
    assert(first_non_white(e, 0) == 0);
    assert(trim_start_seq(e) =~= e);
    lemma_end_non_white_at_least(e, e.len() as int, 3 + hl + 2);
    lemma_end_non_white_bounds(e, e.len() as int);
    let end = end_non_white(e, e.len() as int);
    assert(trim_seq(e) =~= e.take(end));
    let a = after_open(e);
    assert(a =~= e.take(end).skip(3));
    assert(a.take(hl) =~= h) by {
        assert forall|q: int| 0 <= q < hl implies a[q] == h[q] by {
            assert(a[q] == e[q + 3]);
            assert(e.subrange(3, 3 + hl)[q] == e[q + 3]);
        }
    }
    assert(a.subrange(hl, hl + 3) =~= "---"@) by {
        assert(a[hl] == e[3 + hl]);
        assert(a[hl + 1] == e[3 + hl + 1]);
        assert(a[hl + 2] == e[3 + hl + 2]);
    }
}

proof fn lemma_no_dashes_before(m: SkillManifest, a: Seq<char>, j: int)
    requires
        !contains_seq(m.name@, "---"@),
        !contains_seq(m.description@, "---"@),
        a.len() >= export_frontmatter(m).len() + 3,
        a.take(export_frontmatter(m).len() as int) == export_frontmatter(m),
        0 <= j < export_frontmatter(m).len(),
    ensures
        !occurs_at(a, "---"@, j),
{
    reveal_strlit("---");
    reveal_strlit("\n");
    let n = m.name@;
    let d = m.description@;
    let h = export_frontmatter(m);
    let hl = h.len() as int;
    if occurs_at(a, "---"@, j) {
        assert(a[j] == '-' && a[j + 1] == '-' && a[j + 2] == '-') by {
            assert(a.subrange(j, j + 3)[0] == a[j]);
            assert(a.subrange(j, j + 3)[1] == a[j + 1]);
            assert(a.subrange(j, j + 3)[2] == a[j + 2]);
        }
        assert(h[hl - 1] == '\n');
        assert(a.take(hl)[hl - 1] == a[hl - 1]);
        assert(j + 2 < hl - 1);
        assert(a.take(hl)[j] == a[j]);
        assert(a.take(hl)[j + 1] == a[j + 1]);
        assert(a.take(hl)[j + 2] == a[j + 2]);
        lemma_frontmatter_dashes(m, j);
        lemma_frontmatter_dashes(m, j + 1);
        lemma_frontmatter_dashes(m, j + 2);
        reveal_strlit("\nname: ");
        reveal_strlit("\ndescription: ");
        if j < 7 + n.len() {
            assert(n.subrange(j - 7, j - 4) =~= "---"@) by {
                assert(h[j] == n[j - 7]);
                assert(h[j + 1] == n[j - 6]);
                assert(h[j + 2] == n[j - 5]);
            }
            assert(occurs_at(n, "---"@, j - 7));
        } else {
            let o = 21 + n.len();
            assert(d.subrange(j - o, j - o + 3) =~= "---"@) by {
                assert(h[j] == d[j - o]);
                assert(h[j + 1] == d[j - o + 1]);
                assert(h[j + 2] == d[j - o + 2]);
            }
            assert(occurs_at(d, "---"@, j - o));
        }
    }
}

/// The SKILL.md exported for a manifest whose name and description hold no
/// "---" has as its frontmatter exactly the lines with the name and the
/// description, so reading it back finds them.
pub proof fn exported_frontmatter_reads_back(m: SkillManifest)
    requires
        !contains_seq(m.name@, "---"@),
        !contains_seq(m.description@, "---"@),
    ensures
        frontmatter_end(anthropic_export(m)) == Some(export_frontmatter(m).len() as int),
        frontmatter_of(anthropic_export(m), export_frontmatter(m).len() as int) == export_frontmatter(
            m,
        ),
{
    reveal_strlit("---");
    lemma_export_after_open(m);
    let e = anthropic_export(m);
    let a = after_open(e);
    let h = export_frontmatter(m);
    let hl = h.len() as int;
    assert(occurs_at(a, "---"@, hl));
    assert forall|j: int| 0 <= j < hl implies !occurs_at(a, "---"@, j) by {
        lemma_no_dashes_before(m, a, j);
    }
    lemma_find_from_first(a, "---"@, hl);
}

proof fn lemma_export_title(m: SkillManifest)
    ensures
        ({
            let e = anthropic_export(m);
            let h = export_frontmatter(m);
            let n = m.name@;
            &&& e.len() >= 10 + h.len() + n.len()
            &&& e.take(10 + h.len() + n.len() as int) == "---"@ + h + "---\n\n"@ + "# "@ + n
        }),
{
    reveal_strlit("---");
    reveal_strlit("---\n");
    reveal_strlit("---\n\n");
    reveal_strlit("name: ");
    reveal_strlit("description: ");
    reveal_strlit("\n");
    reveal_strlit("\nname: ");
    reveal_strlit("\ndescription: ");
    reveal_strlit("# ");
    let n = m.name@;
    let d = m.description@;
    let h = export_frontmatter(m);
    let e = anthropic_export(m);
    let p = "---\n"@ + "name: "@ + n + "\n"@ + "description: "@ + d + "\n"@ + "---\n\n"@ + "# "@
        + n;
    assert(p =~= "---"@ + h + "---\n\n"@ + "# "@ + n);
    assert(e.take(p.len() as int) =~= p);
}

#[verifier::spinoff_prover]
#[verifier::rlimit(40)]
proof fn lemma_export_trimmed(m: SkillManifest)
    requires
        m.name@.len() > 0,
        !is_white(m.name@.last()),
    ensures
        ({
            let e = anthropic_export(m);
            let hl = export_frontmatter(m).len() as int;
            let nl = m.name@.len() as int;
            let end_e = end_non_white(e, e.len() as int);
            &&& 10 + hl + nl <= end_e <= e.len()
            &&& trim_seq(e) == e.take(end_e)
            &&& starts_with_seq(trim_seq(e), "---"@)
        }),
{
    reveal_strlit("---");
    reveal_strlit("---\n\n");
    reveal_strlit("# ");
    lemma_export_title(m);
    let e = anthropic_export(m);
    let h = export_frontmatter(m);
    let hl = h.len() as int;
    let n = m.name@;
    let nl = n.len() as int;
    let q = "---"@ + h + "---\n\n"@ + "# "@ + n;
    assert(e[0] == q[0]);
    assert(first_non_white(e, 0) == 0);
    assert(trim_start_seq(e) =~= e);
    assert(e[9 + hl + nl] == q[9 + hl + nl]);
    lemma_end_non_white_at_least(e, e.len() as int, 9 + hl + nl);
    lemma_end_non_white_bounds(e, e.len() as int);
    let end_e = end_non_white(e, e.len() as int);
    let te = trim_seq(e);
    assert(te =~= e.take(end_e));
    assert(te.subrange(0, 3) =~= "---"@) by {
        assert forall|k: int| 0 <= k < 3 implies te.subrange(0, 3)[k] == "---"@[k] by {
            assert(te[k] == e[k]);
            assert(e[k] == q[k]);
        }
    }
}

proof fn lemma_export_after_close(m: SkillManifest)
    requires
        m.name@.len() > 0,
        !is_white(m.name@.last()),
    ensures
        ({
            let hl = export_frontmatter(m).len() as int;
            let nl = m.name@.len() as int;
            let x = after_open(anthropic_export(m)).skip(hl + 3);
            &&& x.len() >= 4 + nl
            &&& x.take(4 + nl) == "\n\n# "@ + m.name@
        }),
{
    reveal_strlit("---");
    reveal_strlit("---\n\n");
    reveal_strlit("# ");
    reveal_strlit("\n\n# ");
    lemma_export_title(m);
    lemma_export_trimmed(m);
    let e = anthropic_export(m);
    let h = export_frontmatter(m);
    let hl = h.len() as int;
    let n = m.name@;
    let nl = n.len() as int;
    let q = "---"@ + h + "---\n\n"@ + "# "@ + n;
    let end_e = end_non_white(e, e.len() as int);
    let x = after_open(e).skip(hl + 3);
    assert(x =~= e.subrange(hl + 6, end_e));
    assert forall|k: int| 0 <= k < 4 + nl implies x[k] == ("\n\n# "@ + n)[k] by {
        assert(x[k] == e[hl + 6 + k]);
        assert(e[hl + 6 + k] == q[hl + 6 + k]);
    }
    assert(x.take(4 + nl) =~= "\n\n# "@ + n);
}

proof fn lemma_trim_title(x: Seq<char>, n: Seq<char>)
    requires
        n.len() > 0,
        !is_white(n.last()),
        x.len() >= 4 + n.len(),
        x.take(4 + n.len() as int) == "\n\n# "@ + n,
    ensures
        trim_seq(x).len() >= 2 + n.len(),
        trim_seq(x).take(2 + n.len() as int) == "# "@ + n,
{
    reveal_strlit("\n\n# ");
    reveal_strlit("# ");
    let nl = n.len() as int;
    let w = "\n\n# "@ + n;
    assert(x[0] == w[0] && x[1] == w[1] && x[2] == w[2]) by {
        assert(x.take(4 + nl)[0] == x[0]);
        assert(x.take(4 + nl)[1] == x[1]);
        assert(x.take(4 + nl)[2] == x[2]);
    }
    assert(first_non_white(x, 2) == 2);
    assert(first_non_white(x, 1) == 2);
    assert(first_non_white(x, 0) == 2);
    let t = x.skip(2);
    assert(t =~= trim_start_seq(x));
    assert forall|k: int| 0 <= k < 2 + nl implies t[k] == ("# "@ + n)[k] by {
        assert(t[k] == x[k + 2]);
        assert(x.take(4 + nl)[k + 2] == x[k + 2]);
        assert(w[k + 2] == ("# "@ + n)[k]);
    }
    assert(t[1 + nl] == ("# "@ + n)[1 + nl]);
    lemma_end_non_white_at_least(t, t.len() as int, 1 + nl);
    lemma_end_non_white_bounds(t, t.len() as int);
    assert(trim_seq(x) =~= t.take(end_non_white(t, t.len() as int)));
    assert(trim_seq(x).take(2 + nl) =~= "# "@ + n);
}

/// A SKILL.md exported for a manifest reads back as that manifest's skill: it
/// opens with "---", its frontmatter closes right after the name and description
/// lines, and its instructions begin with the title "# " and the name. Where
/// that frontmatter is YAML that gives back the name and the description (plain
/// one-line values), parsing the export yields them.
pub proof fn exported_skill_md_reads_back(m: SkillManifest)
    requires
        !contains_seq(m.name@, "---"@),
        !contains_seq(m.description@, "---"@),
        m.name@.len() > 0,
        !is_white(m.name@.last()),
        yaml_parses(export_frontmatter(m)),
        yaml_str_entry(export_frontmatter(m), "name"@) == Some(m.name@),
        yaml_str_entry(export_frontmatter(m), "description"@) == Some(m.description@),
    ensures
        ({
            let e = anthropic_export(m);
            let end = export_frontmatter(m).len() as int;
            let fm = frontmatter_of(e, end);
            &&& starts_with_seq(trim_seq(e), "---"@)
            &&& frontmatter_end(e) == Some(end)
            &&& yaml_parses(fm)
            &&& yaml_str_entry(fm, "name"@) == Some(m.name@)
            &&& yaml_str_entry(fm, "description"@) == Some(m.description@)
            &&& instructions_of(e, end).len() >= m.name@.len() + 2
            &&& instructions_of(e, end).take(m.name@.len() + 2int) == "# "@ + m.name@
        }),
{
    exported_frontmatter_reads_back(m);
    lemma_export_trimmed(m);
    lemma_export_after_close(m);
    let hl = export_frontmatter(m).len() as int;
    lemma_trim_title(after_open(anthropic_export(m)).skip(hl + 3), m.name@);
}

} // verus!
