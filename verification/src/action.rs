//! Skill actions and the results of running them.
use crate::text::{decimal, push_decimal, push_str};
use vstd::prelude::*;
use vstd::utf8::encode_utf8;

verus! {

/// A JSON value, carried through the library unchanged.
#[verifier::external_type_specification]
#[verifier::external_body]
pub struct ExJsonValue(serde_json::Value);

/// A single action that a skill can perform. Parameter and return schemas are
/// kept as (name, JSON text) pairs, in the order in which they were given.
#[derive(Debug, Clone)]
pub struct SkillAction {
    pub name: String,
    pub description: String,
    pub parameters: Vec<(String, String)>,
    pub returns: Vec<(String, String)>,
}

/// Status of a skill execution.
#[derive(Debug, Clone, Copy, PartialEq, Eq, Structural)]
pub enum SkillStatus {
    Success,
    Error,
    Denied,
    Timeout,
}

/// Result of executing a skill action.
#[derive(Debug, Clone)]
pub struct SkillResult {
    pub status: SkillStatus,
    pub data: Option<serde_json::Value>,
    pub error_message: Option<String>,
    pub metadata: Vec<(String, serde_json::Value)>,
}

/// What `serde_json::Value::String` builds from the given characters.
pub uninterp spec fn json_string_value(s: Seq<char>) -> serde_json::Value;

/// Wraps a string as a JSON string value.
/// Trusted: builds `serde_json::Value::String(s)`; the value is named
/// `json_string_value` of the characters and is otherwise not described.
#[verifier::external_body]
pub(crate) fn json_string(s: String) -> (v: serde_json::Value)
    ensures
        v == json_string_value(s@),
{
    serde_json::Value::String(s)
}

/// The message of a timed-out execution: "Execution timed out after {seconds}s".
pub open spec fn timeout_message(seconds: nat) -> Seq<char> {
    "Execution timed out after "@ + decimal(seconds) + "s"@
}

/// The message of a run whose output is over the limit:
/// "Output exceeds limit of {max} bytes".
pub open spec fn output_limit_message(max: nat) -> Seq<char> {
    "Output exceeds limit of "@ + decimal(max) + " bytes"@
}

impl SkillResult {
    /// A successful result carrying `data`.
    pub fn success(data: serde_json::Value) -> (r: Self)
        ensures
            r.status == SkillStatus::Success,
            r.data == Some(data),
            r.error_message.is_none(),
            r.metadata@.len() == 0,
    {
        SkillResult {
            status: SkillStatus::Success,
            data: Some(data),
            error_message: None,
            metadata: Vec::new(),
        }
    }

    /// A failed result with the given message.
    pub fn error(message: String) -> (r: Self)
        ensures
            r.status == SkillStatus::Error,
            r.data.is_none(),
            r.error_message matches Some(m) && m@ == message@,
            r.metadata@.len() == 0,
    {
        SkillResult {
            status: SkillStatus::Error,
            data: None,
            error_message: Some(message),
            metadata: Vec::new(),
        }
    }

    /// A result refused by the sandbox, with the reason.
    pub fn denied(reason: String) -> (r: Self)
        ensures
            r.status == SkillStatus::Denied,
            r.data.is_none(),
            r.error_message matches Some(m) && m@ == reason@,
            r.metadata@.len() == 0,
    {
        SkillResult {
            status: SkillStatus::Denied,
            data: None,
            error_message: Some(reason),
            metadata: Vec::new(),
        }
    }

    /// A result for an execution that ran out of time after `seconds`.
    pub fn timeout(seconds: u64) -> (r: Self)
        ensures
            r.status == SkillStatus::Timeout,
            r.data.is_none(),
            r.error_message matches Some(m) && m@ == timeout_message(seconds as nat),
            r.metadata@.len() == 0,
    {
        let mut msg = String::new();
        push_str(&mut msg, "Execution timed out after ");
        push_decimal(&mut msg, seconds);
        push_str(&mut msg, "s");
        SkillResult {
            status: SkillStatus::Timeout,
            data: None,
            error_message: Some(msg),
            metadata: Vec::new(),
        }
    }

    /// The result of a sandboxed run, from what the component's `execute` export
    /// returned: `output` is its string result, if it returned one, and `parsed`
    /// is that string read as a serialized result, where it is one.
    /// A string of more than `max_output_bytes` bytes (UTF-8) is refused with an
    /// error result; otherwise a structured result is taken as it is, any other
    /// string becomes the data of a success, and no string at all is a success
    /// without data.
    pub fn from_component_output(
        output: Option<String>,
        parsed: Option<SkillResult>,
        max_output_bytes: usize,
    ) -> (r: Self)
        ensures
            output.is_none() ==> r.status == SkillStatus::Success && r.data.is_none()
                && r.error_message.is_none() && r.metadata@.len() == 0,
            output matches Some(text) ==> (encode_utf8(text@).len() > max_output_bytes ==> (
            r.status == SkillStatus::Error && r.data.is_none() && (r.error_message matches Some(
                m,
            ) && m@ == output_limit_message(max_output_bytes as nat)) && r.metadata@.len() == 0)),
            output matches Some(text) ==> (encode_utf8(text@).len() <= max_output_bytes
                && parsed.is_some() ==> r == parsed.unwrap()),
            output matches Some(text) ==> (encode_utf8(text@).len() <= max_output_bytes
                && parsed.is_none() ==> r.status == SkillStatus::Success && r.data == Some(
                json_string_value(text@),
            ) && r.error_message.is_none() && r.metadata@.len() == 0),
    {
        match output {
            None => SkillResult {
                status: SkillStatus::Success,
                data: None,
                error_message: None,
                metadata: Vec::new(),
            },
            Some(text) => {
                if text.as_str().as_bytes().len() > max_output_bytes {
                    let mut msg = String::new();
                    push_str(&mut msg, "Output exceeds limit of ");
                    push_decimal(&mut msg, max_output_bytes as u64);
                    push_str(&mut msg, " bytes");
                    assert(msg@ =~= output_limit_message(max_output_bytes as nat));
                    return SkillResult::error(msg);
                }
                match parsed {
                    Some(result) => result,
                    None => SkillResult::success(json_string(text)),
                }
            },
        }
    }
}

} // verus!
