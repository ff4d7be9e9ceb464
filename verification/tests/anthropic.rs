use skillguard::action::SkillAction;
use skillguard::anthropic::{
    detect_skill_format, export_as_anthropic, infer_permissions_from_scripts,
    manifest_from_anthropic, parse_skill_md, push_param_line, skill_md_meta, SkillFormat,
};
use skillguard::error::SkillGuardError;
use skillguard::manifest::{
    default_license, AdapterConfig, BuildConfig, SecurityMetadata, SkillManifest,
};
use skillguard::permission::{HttpMethod, Permission, PermissionLevel};

#[test]
fn test_parse_skill_md() {
    let content = r#"---
name: my-skill
description: A useful skill
---
These are the instructions for the skill.

Use it wisely.
"#;
    let meta = parse_skill_md(content).unwrap();
    assert_eq!(meta.name, "my-skill");
    assert_eq!(meta.description, "A useful skill");
    assert!(meta.instructions.contains("Use it wisely"));
}

#[test]
fn test_parse_skill_md_no_frontmatter() {
    let content = "Just some text";
    assert!(parse_skill_md(content).is_err());
}

#[test]
fn test_export_as_anthropic() {
    let manifest = SkillManifest {
        name: "test-skill".into(),
        version: "1.0.0".into(),
        description: "A test skill".into(),
        author: "test".into(),
        license: "Apache-2.0".into(),
        homepage: None,
        repository: None,
        permissions: Default::default(),
        adapters: Default::default(),
        build: Default::default(),
        security: Default::default(),
        actions: Vec::new(),
        keywords: Vec::new(),
    };
    let md = export_as_anthropic(&manifest);
    assert!(md.contains("name: test-skill"));
    assert!(md.contains("# test-skill"));
}

#[test]
fn parse_skill_md_errors() {
    match parse_skill_md("---\nname: x\n") {
        Err(SkillGuardError::AnthropicParseError(m)) => {
            assert_eq!(m, "Missing closing --- for frontmatter")
        }
        other => panic!("unexpected {other:?}"),
    }
    match parse_skill_md("---\ndescription: only\n---\nbody") {
        Err(SkillGuardError::AnthropicParseError(m)) => assert_eq!(m, "Missing 'name' in frontmatter"),
        other => panic!("unexpected {other:?}"),
    }
    match parse_skill_md("---\nname: [unclosed\n---\n") {
        Err(SkillGuardError::AnthropicParseError(m)) => {
            assert!(m.starts_with("Invalid YAML frontmatter: "))
        }
        other => panic!("unexpected {other:?}"),
    }
    match parse_skill_md("  text ---") {
        Err(SkillGuardError::AnthropicParseError(m)) => {
            assert_eq!(m, "SKILL.md must start with YAML frontmatter (---)")
        }
        other => panic!("unexpected {other:?}"),
    }
}

#[test]
fn parse_skill_md_trims_and_defaults() {
    let meta = parse_skill_md("\n\t ---\nname: s\n---\n\n  body text \n\n").unwrap();
    assert_eq!(meta.name, "s");
    assert_eq!(meta.description, "");
    assert_eq!(meta.instructions, "body text");
    assert!(meta.resources.is_empty());
}

#[test]
fn formats() {
    assert_eq!(detect_skill_format(true, true), SkillFormat::Wrapped);
    assert_eq!(detect_skill_format(true, false), SkillFormat::Native);
    assert_eq!(detect_skill_format(false, true), SkillFormat::AnthropicAgentSkill);
    assert_eq!(detect_skill_format(false, false), SkillFormat::Native);
}

#[test]
fn infer_permissions() {
    let scripts = vec![
        "import requests\nrequests.get(url)".to_string(),
        "with open('f') as f: pass".to_string(),
        "x = os.getenv('A')".to_string(),
        "requests.post(u)".to_string(),
    ];
    let p = infer_permissions_from_scripts(&scripts);
    assert_eq!(p.network.len(), 1);
    assert_eq!(p.network[0].domain, "*");
    assert_eq!(p.network[0].methods, vec![HttpMethod::Get, HttpMethod::Post]);
    assert_eq!(p.network[0].ports, vec![443, 80]);
    assert_eq!(p.filesystem.len(), 1);
    assert_eq!(p.filesystem[0].path, "${WORKSPACE}/**");
    assert_eq!(p.environment.len(), 1);
    assert_eq!(p.environment[0].name, "*");
    assert!(!p.subprocess);
    assert_eq!(p.level(), PermissionLevel::Restricted);

    let p = infer_permissions_from_scripts(&vec!["subprocess.run(['ls'])".to_string()]);
    assert!(p.subprocess);
    assert_eq!(p.level(), PermissionLevel::Privileged);

    let p = infer_permissions_from_scripts(&vec![]);
    assert_eq!(p.level(), PermissionLevel::Minimal);
}

#[test]
fn anthropic_manifest() {
    let meta = parse_skill_md("---\nname: s\ndescription: d\n---\nx").unwrap();
    let m = manifest_from_anthropic(&meta, Permission::default());
    assert_eq!(m.name, "s");
    assert_eq!(m.version, "0.1.0");
    assert_eq!(m.author, "unknown");
    assert!(m.validate().is_ok());
}

#[test]
fn export_with_actions() {
    let m = SkillManifest {
        name: "t".into(),
        version: "1.0.0".into(),
        description: "D".into(),
        author: "a".into(),
        license: default_license(),
        homepage: None,
        repository: None,
        permissions: Permission::default(),
        adapters: AdapterConfig::default(),
        build: BuildConfig::default(),
        security: SecurityMetadata::default(),
        actions: vec![SkillAction {
            name: "read".into(),
            description: "Read a file".into(),
            parameters: vec![
                ("path".into(), r#"{"type":"string","description":"File path"}"#.into()),
                ("mode".into(), r#"{"type":3}"#.into()),
            ],
            returns: vec![],
        }],
        keywords: vec![],
    };
    let md = export_as_anthropic(&m);
    assert_eq!(
        md,
        "---\nname: t\ndescription: D\n---\n\n# t\n\nD\n\n## Actions\n\n### read\n\nRead a file\n\n**Parameters:**\n- `path` (string): File path\n- `mode` (any): \n\n"
    );
}

#[test]
fn export_reads_back() {
    let m = SkillManifest {
        name: "web-fetch".into(),
        version: "1.0.0".into(),
        description: "Fetch and parse web content securely".into(),
        author: "a".into(),
        license: default_license(),
        homepage: None,
        repository: None,
        permissions: Permission::default(),
        adapters: AdapterConfig::default(),
        build: BuildConfig::default(),
        security: SecurityMetadata::default(),
        actions: vec![],
        keywords: vec![],
    };
    let meta = parse_skill_md(&export_as_anthropic(&m)).unwrap();
    assert_eq!(meta.name, m.name);
    assert_eq!(meta.description, m.description);
    assert_eq!(meta.instructions, "# web-fetch\n\nFetch and parse web content securely");
}

#[test]
fn skill_md_meta_from_yaml_readings() {
    let m = skill_md_meta(Ok(Some("s".into())), Ok(Some("d".into())), "body".into()).unwrap();
    assert_eq!((m.name.as_str(), m.description.as_str(), m.instructions.as_str()), ("s", "d", "body"));
    assert!(m.resources.is_empty());
    let m = skill_md_meta(Ok(Some("s".into())), Ok(None), "".into()).unwrap();
    assert_eq!(m.description, "");
    let m = skill_md_meta(Ok(Some("s".into())), Err("bad".into()), "".into()).unwrap();
    assert_eq!(m.description, "");
    match skill_md_meta(Err("oops".into()), Ok(None), "".into()) {
        Err(SkillGuardError::AnthropicParseError(msg)) => {
            assert_eq!(msg, "Invalid YAML frontmatter: oops")
        }
        other => panic!("unexpected {:?}", other),
    }
    match skill_md_meta(Ok(None), Ok(Some("d".into())), "".into()) {
        Err(SkillGuardError::AnthropicParseError(msg)) => {
            assert_eq!(msg, "Missing 'name' in frontmatter")
        }
        other => panic!("unexpected {:?}", other),
    }
}

#[test]
fn param_line_defaults() {
    let mut out = String::from("> ");
    push_param_line(&mut out, "url", Some("string".into()), Some("Where".into()));
    push_param_line(&mut out, "n", None, None);
    assert_eq!(out, "> - `url` (string): Where\n- `n` (any): \n");
}
