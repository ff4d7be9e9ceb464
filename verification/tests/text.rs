use skillguard::resource_limits::ResourceLimits;
use skillguard::templates::generate_template;
use skillguard::text::{contains_str, join_path, trim_str};

#[test]
fn trimming_and_search() {
    let t: String = trim_str("\u{3000} a b \n").into_iter().collect();
    assert_eq!(t, "a b");
    let t: String = trim_str(" \t ").into_iter().collect();
    assert_eq!(t, "");
    assert!(contains_str("hello", ""));
    assert!(contains_str("hello", "ell"));
    assert!(!contains_str("hello", "elo"));
}

#[test]
fn paths() {
    assert_eq!(join_path("a", "b"), "a/b");
    assert_eq!(join_path("a/", "b"), "a/b");
    assert_eq!(join_path("", "b"), "b");
    assert_eq!(join_path("a", "/b"), "/b");
}

#[test]
fn limits() {
    let d = ResourceLimits::default();
    assert_eq!(d.max_memory_bytes, 512 * 1024 * 1024);
    assert_eq!(d.timeout_seconds, 30);
    let r = ResourceLimits::restricted();
    assert_eq!(r.max_fuel, 100_000_000);
    assert!(r.max_memory_bytes <= d.max_memory_bytes && r.max_output_bytes <= d.max_output_bytes);
}

#[test]
fn templates() {
    let b = generate_template("basic", "my-skill");
    assert!(b.starts_with("name: my-skill\nversion: 0.1.0\ndescription: A new SkillGuard skill\n"));
    let a = generate_template("api", "x");
    assert!(a.contains("domain: api.example.com"));
    let f = generate_template("file-ops", "x");
    assert!(f.contains("path: \"${WORKSPACE}/**\""));
    assert_eq!(generate_template("unknown", "x"), generate_template("basic", "x"));
}

#[test]
fn starter_files() {
    let py = skillguard::templates::generate_skill_py("demo");
    let expected = format!(
        r#"""
{name} — A SkillGuard skill.
"""


def execute(action: str, params: dict) -> dict:
    """Main entry point for the skill."""
    return {{"status": "success", "data": f"Action {{action}} executed"}}
"#,
        name = "demo"
    );
    assert_eq!(py, expected);
    let sh = skillguard::templates::generate_wrapper_script("web", "fetch");
    let expected = format!(
        r#"#!/usr/bin/env bash
# Auto-generated wrapper for skillguard action: {action_name}
# This script delegates to the SkillGuard sandbox for secure execution.
set -euo pipefail

PARAMS="${{1:-{{}}}}"
exec skillguard run "{skill_name}" --action "{action_name}" --params "$PARAMS" --output-json
"#,
        skill_name = "web",
        action_name = "fetch"
    );
    assert_eq!(sh, expected);
}
