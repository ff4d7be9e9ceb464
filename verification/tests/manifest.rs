use skillguard::checks::{is_signature_file, verify_checks};
use skillguard::action::SkillAction;
use skillguard::error::SkillGuardError;
use skillguard::manifest::{
    default_base_image, default_license, default_python_version, default_true,
    is_default_adapter, AdapterConfig, BuildConfig, SecurityMetadata, SkillManifest, SkillName,
};
use skillguard::permission::{NetworkPermission, Permission};
use skillguard::registry::{IndexEntry, Publisher};

fn manifest(name: &str, version: &str) -> SkillManifest {
    SkillManifest {
        name: name.into(),
        version: version.into(),
        description: "A test skill".into(),
        author: "test-author".into(),
        license: default_license(),
        homepage: None,
        repository: None,
        permissions: Permission::default(),
        adapters: AdapterConfig::default(),
        build: BuildConfig::default(),
        security: SecurityMetadata::default(),
        actions: Vec::new(),
        keywords: Vec::new(),
    }
}

#[test]
fn test_minimal_manifest() {
    let manifest = manifest("test-skill", "1.0.0");
    assert!(manifest.validate().is_ok());
    assert_eq!(manifest.name, "test-skill");
    assert_eq!(manifest.version, "1.0.0");
    assert_eq!(manifest.license, "Apache-2.0");
    assert!(manifest.actions.is_empty());
}

#[test]
fn test_invalid_name() {
    let m = manifest("Invalid_Name", "1.0.0");
    assert!(m.validate().is_err());
}

#[test]
fn test_invalid_version() {
    let m = manifest("test-skill", "not-semver");
    assert!(m.validate().is_err());
}

#[test]
fn validation_errors_in_order() {
    match manifest("Bad", "x").validate() {
        Err(SkillGuardError::InvalidSkillName { name, reason }) => {
            assert_eq!(name, "Bad");
            assert_eq!(reason, "name may only contain lowercase letters, digits and hyphens");
        }
        other => panic!("unexpected {other:?}"),
    }
    match manifest("ok-name", "1.0").validate() {
        Err(SkillGuardError::InvalidManifest(m)) => assert!(m.starts_with("Invalid version '1.0': ")),
        other => panic!("unexpected {other:?}"),
    }
    let mut m = manifest("ok-name", "1.0.0");
    m.security.slsa_level = 7;
    match m.validate() {
        Err(SkillGuardError::InvalidManifest(msg)) => assert_eq!(msg, "SLSA level must be 0-4, got 7"),
        other => panic!("unexpected {other:?}"),
    }
    let mut m = manifest("ok-name", "1.0.0");
    m.actions.push(SkillAction {
        name: "".into(),
        description: "d".into(),
        parameters: vec![],
        returns: vec![],
    });
    match m.validate() {
        Err(SkillGuardError::InvalidManifest(msg)) => assert_eq!(msg, "Action name cannot be empty"),
        other => panic!("unexpected {other:?}"),
    }
    let mut m = manifest("ok-name", "1.0.0");
    m.permissions.network.push(NetworkPermission { domain: "".into(), methods: vec![], ports: vec![] });
    match m.validate() {
        Err(SkillGuardError::InvalidManifest(msg)) => {
            assert_eq!(msg, "Network permission domain cannot be empty")
        }
        other => panic!("unexpected {other:?}"),
    }
}

#[test]
fn skill_name_rules() {
    assert!(SkillName::new("file-ops").is_ok());
    assert!(SkillName::new("a1").is_ok());
    assert_eq!(SkillName::new("web-fetch").unwrap().as_string(), "web-fetch");
    for (bad, why) in [
        ("", "name cannot be empty"),
        ("-lead", "name cannot start or end with a hyphen"),
        ("trail-", "name cannot start or end with a hyphen"),
        ("has space", "name may only contain lowercase letters, digits and hyphens"),
    ] {
        match SkillName::new(bad) {
            Err(SkillGuardError::InvalidSkillName { reason, .. }) => assert_eq!(reason, why),
            other => panic!("unexpected {other:?}"),
        }
    }
    let long = "a".repeat(65);
    assert!(SkillName::new(&long).is_err());
    assert!(SkillName::new(&"a".repeat(64)).is_ok());
}

#[test]
fn find_action_takes_first() {
    let mut m = manifest("t", "1.0.0");
    for (n, d) in [("read", "first"), ("write", "w"), ("read", "second")] {
        m.actions.push(SkillAction {
            name: n.into(),
            description: d.into(),
            parameters: vec![],
            returns: vec![],
        });
    }
    assert_eq!(m.find_action("read").unwrap().description, "first");
    assert!(m.find_action("list").is_none());
}

#[test]
fn defaults() {
    assert!(default_true());
    assert_eq!(default_base_image(), "skillguard/python:3.11-minimal");
    assert_eq!(default_python_version(), "3.11");
    let b = BuildConfig::default();
    assert!(b.reproducible && b.dependencies.is_empty());
    assert!(is_default_adapter(&AdapterConfig::default()));
    let mut a = AdapterConfig::default();
    a.mcp = Some(">=1.0".into());
    assert!(!is_default_adapter(&a));
}

#[test]
fn publish_decisions() {
    let m = manifest("skill", "1.0.0");
    let existing = IndexEntry {
        name: "skill".into(),
        version: "1.0.0".into(),
        checksum: "c".into(),
        yanked: false,
        description: None,
        keywords: vec![],
    };
    match Publisher::check_publishable(&m, &Some(existing.clone())) {
        Err(SkillGuardError::RegistryError(msg)) => assert_eq!(
            msg,
            "Version 1.0.0 of 'skill' already published. Bump the version to publish again."
        ),
        other => panic!("unexpected {other:?}"),
    }
    let mut yanked = existing;
    yanked.yanked = true;
    assert!(Publisher::check_publishable(&m, &Some(yanked)).is_ok());
    assert!(Publisher::check_publishable(&m, &None).is_ok());
    let e = Publisher::index_entry(&m, "sha256:ab".into());
    assert_eq!(e.checksum, "sha256:ab");
    assert_eq!(e.description.as_deref(), Some("A test skill"));
    assert!(!e.yanked);
}

#[test]
fn error_texts() {
    let e = SkillGuardError::InvalidSkillName { name: "X".into(), reason: "r".into() };
    assert_eq!(e.to_string(), "Invalid skill name 'X': r");
    assert_eq!(SkillGuardError::RegistryError("m".into()).to_string(), "Registry error: m");
}

#[test]
fn verify_checks_strictness() {
    let mut m = manifest("s", "1.0.0");
    let (checks, pass) = verify_checks(&m, false, false);
    assert!(pass);
    assert_eq!(checks.len(), 3);
    assert_eq!(checks[1].detail, "Level 0");
    assert!(!checks[1].pass);
    assert_eq!(checks[2].detail, "Not found");
    let (_, pass) = verify_checks(&m, true, true);
    assert!(!pass);
    m.security.slsa_level = 3;
    let (checks, pass) = verify_checks(&m, true, true);
    assert!(pass);
    assert_eq!(checks[1].detail, "Level 3");
    assert_eq!(checks[2].detail, "Present");
    assert!(is_signature_file("pkg.sig.json", Some("json")));
    assert!(!is_signature_file("pkg.provenance.json", Some("json")));
    assert!(!is_signature_file("sig", None));
}

#[test]
fn validate_with_version_outcome() {
    let m = manifest("my-skill", "whatever");
    assert!(m.validate_with_version(Ok(())).is_ok());
    match m.validate_with_version(Err("unexpected end".into())) {
        Err(SkillGuardError::InvalidManifest(msg)) => {
            assert_eq!(msg, "Invalid version 'whatever': unexpected end")
        }
        other => panic!("unexpected {:?}", other),
    }
    // The name is checked before the version.
    let bad = manifest("Bad", "whatever");
    assert!(matches!(
        bad.validate_with_version(Err("x".into())),
        Err(SkillGuardError::InvalidSkillName { .. })
    ));
}
