use skillguard::error::SkillGuardError;
use skillguard::registry::{
    package_file_name, IndexEntry, PackageBuilder, PackageReader, Publisher, RegistryClient,
    RegistryIndex,
};
use std::path::PathBuf;

fn entry(name: &str, version: &str, yanked: bool) -> IndexEntry {
    IndexEntry {
        name: name.into(),
        version: version.into(),
        checksum: "sha256:00".into(),
        yanked,
        description: None,
        keywords: vec![],
    }
}

#[test]
fn test_name_prefix() {
    assert_eq!(PathBuf::from(RegistryIndex::name_prefix("a")), PathBuf::from("1"));
    assert_eq!(PathBuf::from(RegistryIndex::name_prefix("ab")), PathBuf::from("2"));
    assert_eq!(
        PathBuf::from(RegistryIndex::name_prefix("abc")),
        PathBuf::from("3").join("a")
    );
    assert_eq!(
        PathBuf::from(RegistryIndex::name_prefix("file-ops")),
        PathBuf::from("fi").join("le")
    );
}

#[test]
fn name_prefix_counts_bytes() {
    // "é" is two bytes long.
    assert_eq!(RegistryIndex::name_prefix("é"), "2");
    assert_eq!(RegistryIndex::name_prefix("abcd"), "ab/cd");
}

#[test]
fn skill_index_path_layout() {
    let index = RegistryIndex::open("/idx".to_string());
    assert_eq!(index.skill_index_path("file-ops"), "/idx/fi/le/file-ops");
    assert_eq!(index.skill_index_path("ab"), "/idx/2/ab");
}

#[test]
fn latest_skips_yanked() {
    let es = vec![entry("s", "1.0.0", false), entry("s", "1.1.0", false), entry("s", "1.2.0", true)];
    let l = RegistryIndex::latest(es).unwrap();
    assert_eq!(l.version, "1.1.0");
    assert!(RegistryIndex::latest(vec![entry("s", "1.0.0", true)]).is_none());
}

#[test]
fn lookup_version_finds_first() {
    let es = vec![entry("s", "1.0.0", false), entry("s", "2.0.0", true)];
    assert!(RegistryIndex::lookup_version(es.clone(), "2.0.0").unwrap().yanked);
    assert!(RegistryIndex::lookup_version(es, "3.0.0").is_none());
}

#[test]
fn search_matches_name_or_keyword_with_limit() {
    let mut a = entry("file-ops", "1.0.0", false);
    a.keywords = vec!["FileSystem".into()];
    let mut b = entry("web-fetch", "1.0.0", false);
    b.description = Some("Fetch WEB pages".into());
    let c = entry("other", "1.0.0", false);
    let es = vec![a, b, c];
    let r = RegistryIndex::search(es.clone(), "FILE", 10);
    assert_eq!(r.iter().map(|e| e.name.as_str()).collect::<Vec<_>>(), vec!["file-ops"]);
    let r = RegistryIndex::search(es.clone(), "web", 10);
    assert_eq!(r.iter().map(|e| e.name.as_str()).collect::<Vec<_>>(), vec!["web-fetch"]);
    let r = RegistryIndex::search(es.clone(), "pages", 10);
    assert!(r.is_empty());
    let r = RegistryIndex::search(es.clone(), "", 2);
    assert_eq!(r.len(), 2);
    let r = RegistryIndex::search(es, "e", 0);
    assert!(r.is_empty());
}

#[test]
fn checksum_roundtrip() {
    let data = b"package bytes";
    let sum = PackageBuilder::checksum(data);
    assert!(sum.starts_with("sha256:"));
    assert_eq!(sum.len(), 71);
    assert!(PackageReader::verify_checksum(data, &sum));
    assert!(!PackageReader::verify_checksum(b"other bytes", &sum));
    assert_eq!(
        PackageBuilder::checksum(b""),
        "sha256:e3b0c44298fc1c149afbf4c8996fb92427ae41e4649b934ca495991b7852b855"
    );
}

#[test]
fn install_plan_decisions() {
    let client = RegistryClient::default_client("/home/u");
    assert_eq!(client.installed_skill_path("web-fetch"), "/home/u/.skillguard/skills/web-fetch");
    match client.plan_install("x", None, false, false) {
        Err(SkillGuardError::RegistryError(m)) => assert_eq!(m, "Skill 'x' not found in registry"),
        _ => panic!("expected not found"),
    }
    match client.plan_install("x", Some(entry("x", "1.0.0", false)), true, false) {
        Err(SkillGuardError::RegistryError(m)) => {
            assert_eq!(m, "Skill 'x' already installed. Use --force to overwrite.")
        }
        _ => panic!("expected already installed"),
    }
    let plan = client.plan_install("x", Some(entry("x", "1.0.0", false)), true, true).unwrap();
    assert_eq!(plan.dest, "/home/u/.skillguard/skills/x");
    assert_eq!(plan.cache_file, "/home/u/.skillguard/cache/x-1.0.0.tar.gz");
    assert_eq!(
        plan.download_url,
        "https://github.com/skillguard/registry/releases/download/x-v1.0.0/x-1.0.0.tar.gz"
    );
    match RegistryClient::check_download("x", &plan.entry, b"data") {
        Err(SkillGuardError::RegistryError(m)) => assert_eq!(m, "Checksum mismatch for x@1.0.0"),
        _ => panic!("expected mismatch"),
    }
    let mut good = entry("x", "1.0.0", false);
    good.checksum = PackageBuilder::checksum(b"data");
    assert!(RegistryClient::check_download("x", &good, b"data").is_ok());
}

#[test]
fn package_names() {
    assert_eq!(package_file_name("web-fetch", "1.0.0"), "web-fetch-1.0.0.tar.gz");
    let p = Publisher::new("/idx".to_string());
    assert_eq!(p.index().index_path(), "/idx");
}

#[test]
fn installed_names_sorted() {
    let names = vec!["web-fetch".to_string(), "file-ops".to_string(), "b".to_string(), "file-ops".to_string(), "a-b".to_string()];
    let sorted = skillguard::registry::sort_names(names.clone());
    let mut expected = names;
    expected.sort();
    assert_eq!(sorted, expected);
    assert!(skillguard::registry::sort_names(vec![]).is_empty());
}
