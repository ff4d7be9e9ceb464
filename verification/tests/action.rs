use skillguard::action::{SkillResult, SkillStatus};

#[test]
fn timeout_message() {
    let r = SkillResult::timeout(30);
    assert_eq!(r.status, SkillStatus::Timeout);
    assert_eq!(r.error_message.as_deref(), Some("Execution timed out after 30s"));
    assert_eq!(
        SkillResult::timeout(0).error_message.as_deref(),
        Some("Execution timed out after 0s")
    );
    assert_eq!(
        SkillResult::timeout(u64::MAX).error_message.unwrap(),
        format!("Execution timed out after {}s", u64::MAX)
    );
}

#[test]
fn constructors() {
    let s = SkillResult::success(serde_json::Value::Bool(true));
    assert_eq!(s.status, SkillStatus::Success);
    assert_eq!(s.data, Some(serde_json::Value::Bool(true)));
    assert!(s.error_message.is_none());
    let e = SkillResult::error("boom".to_string());
    assert_eq!(e.status, SkillStatus::Error);
    assert_eq!(e.error_message.as_deref(), Some("boom"));
    let d = SkillResult::denied("no".to_string());
    assert_eq!(d.status, SkillStatus::Denied);
    assert!(d.data.is_none());
}

#[test]
fn component_output() {
    let r = SkillResult::from_component_output(None, None, 0);
    assert_eq!(r.status, SkillStatus::Success);
    assert!(r.data.is_none());
    let r = SkillResult::from_component_output(Some("plain".to_string()), None, 1024);
    assert_eq!(r.data, Some(serde_json::Value::String("plain".to_string())));
    let parsed = SkillResult::denied("nope".to_string());
    let r = SkillResult::from_component_output(Some("{..}".to_string()), Some(parsed), 1024);
    assert_eq!(r.status, SkillStatus::Denied);
}

#[test]
fn component_output_over_limit() {
    // Exactly at the limit is accepted.
    let r = SkillResult::from_component_output(Some("plain".to_string()), None, 5);
    assert_eq!(r.status, SkillStatus::Success);
    // One byte over is refused, whatever was parsed.
    let parsed = SkillResult::success(serde_json::Value::Bool(true));
    let r = SkillResult::from_component_output(Some("plain".to_string()), Some(parsed), 4);
    assert_eq!(r.status, SkillStatus::Error);
    assert!(r.data.is_none());
    assert_eq!(r.error_message.as_deref(), Some("Output exceeds limit of 4 bytes"));
    // The limit counts UTF-8 bytes, not characters.
    let r = SkillResult::from_component_output(Some("\u{e9}\u{e9}".to_string()), None, 3);
    assert_eq!(r.status, SkillStatus::Error);
}
