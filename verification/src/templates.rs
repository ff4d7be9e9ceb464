//! The manifests that `skillguard init` writes for a new skill.
use crate::text::push_str;
use vstd::prelude::*;

verus! {

/// What follows the name in the basic template.
pub open spec fn basic_template_rest() -> Seq<char> {
    "\nversion: 0.1.0\ndescription: A new SkillGuard skill\nauthor: your-name\n\npermissions:\n  subprocess: false\n\nactions:\n  - name: execute\n    description: Execute the skill\n    parameters:\n      input:\n        type: string\n        description: Input data\n    returns:\n      type: object\n      description: Execution result\n\nkeywords: []\n"@
}

/// What follows the name in the API template.
pub open spec fn api_template_rest() -> Seq<char> {
    "\nversion: 0.1.0\ndescription: An API-connected SkillGuard skill\nauthor: your-name\n\npermissions:\n  network:\n    - domain: api.example.com\n      methods: [GET, POST]\n      ports: [443]\n  environment:\n    - name: API_KEY\n      required: true\n      sensitive: true\n  subprocess: false\n\nbuild:\n  dependencies:\n    - httpx>=0.27.0\n\nactions:\n  - name: fetch\n    description: Fetch data from the API\n    parameters:\n      endpoint:\n        type: string\n        description: API endpoint path\n    returns:\n      type: object\n      description: API response\n\nkeywords: [api, http]\n"@
}

/// What follows the name in the file-operations template.
pub open spec fn file_ops_template_rest() -> Seq<char> {
    "\nversion: 0.1.0\ndescription: A file operations SkillGuard skill\nauthor: your-name\n\npermissions:\n  filesystem:\n    - path: \"${WORKSPACE}/**\"\n      access: [read, write]\n  subprocess: false\n\nactions:\n  - name: read\n    description: Read a file\n    parameters:\n      path:\n        type: string\n        description: File path relative to workspace\n    returns:\n      type: string\n      description: File contents\n\n  - name: write\n    description: Write to a file\n    parameters:\n      path:\n        type: string\n        description: File path relative to workspace\n      content:\n        type: string\n        description: Content to write\n    returns:\n      type: boolean\n      description: Success status\n\nkeywords: [file, filesystem]\n"@
}

/// The manifest of a new skill from the basic template.
pub fn generate_basic_template(name: &str) -> (r: String)
    ensures
        r@ == "name: "@ + name@ + basic_template_rest(),
{
    let mut s = String::new();
    push_str(&mut s, "name: ");
    push_str(&mut s, name);
    push_str(&mut s, "\nversion: 0.1.0\ndescription: A new SkillGuard skill\nauthor: your-name\n\npermissions:\n  subprocess: false\n\nactions:\n  - name: execute\n    description: Execute the skill\n    parameters:\n      input:\n        type: string\n        description: Input data\n    returns:\n      type: object\n      description: Execution result\n\nkeywords: []\n");
    s
}

/// The manifest of a new skill from the API template.
pub fn generate_api_template(name: &str) -> (r: String)
    ensures
        r@ == "name: "@ + name@ + api_template_rest(),
{
    let mut s = String::new();
    push_str(&mut s, "name: ");
    push_str(&mut s, name);
    push_str(&mut s, "\nversion: 0.1.0\ndescription: An API-connected SkillGuard skill\nauthor: your-name\n\npermissions:\n  network:\n    - domain: api.example.com\n      methods: [GET, POST]\n      ports: [443]\n  environment:\n    - name: API_KEY\n      required: true\n      sensitive: true\n  subprocess: false\n\nbuild:\n  dependencies:\n    - httpx>=0.27.0\n\nactions:\n  - name: fetch\n    description: Fetch data from the API\n    parameters:\n      endpoint:\n        type: string\n        description: API endpoint path\n    returns:\n      type: object\n      description: API response\n\nkeywords: [api, http]\n");
    s
}

/// The manifest of a new skill from the file-operations template.
pub fn generate_file_ops_template(name: &str) -> (r: String)
    ensures
        r@ == "name: "@ + name@ + file_ops_template_rest(),
{
    let mut s = String::new();
    push_str(&mut s, "name: ");
    push_str(&mut s, name);
    push_str(&mut s, "\nversion: 0.1.0\ndescription: A file operations SkillGuard skill\nauthor: your-name\n\npermissions:\n  filesystem:\n    - path: \"${WORKSPACE}/**\"\n      access: [read, write]\n  subprocess: false\n\nactions:\n  - name: read\n    description: Read a file\n    parameters:\n      path:\n        type: string\n        description: File path relative to workspace\n    returns:\n      type: string\n      description: File contents\n\n  - name: write\n    description: Write to a file\n    parameters:\n      path:\n        type: string\n        description: File path relative to workspace\n      content:\n        type: string\n        description: Content to write\n    returns:\n      type: boolean\n      description: Success status\n\nkeywords: [file, filesystem]\n");
    s
}

/// The manifest for a new skill from the named template: "api", "file-ops", or
/// the basic one for any other name.
pub fn generate_template(template: &str, name: &str) -> (r: String)
    ensures
        template@ == "api"@ ==> r@ == "name: "@ + name@ + api_template_rest(),
        template@ == "file-ops"@ ==> r@ == "name: "@ + name@ + file_ops_template_rest(),
        template@ != "api"@ && template@ != "file-ops"@ ==> r@ == "name: "@ + name@
            + basic_template_rest(),
{
    proof {
        reveal_strlit("api");
        reveal_strlit("file-ops");
        assert("api"@.len() != "file-ops"@.len());
    }
    if crate::text::str_eq(template, "api") {
        generate_api_template(name)
    } else if crate::text::str_eq(template, "file-ops") {
        generate_file_ops_template(name)
    } else {
        generate_basic_template(name)
    }
}

/// The starter `skill.py` of a new skill: a quoted header naming it and an
/// `execute` entry point.
pub open spec fn skill_py_text(name: Seq<char>) -> Seq<char> {
    "\"\"\n"@ + name + " — A SkillGuard skill.\n\"\"\"\n\n\ndef execute(action: str, params: dict) -> dict:\n    \"\"\"Main entry point for the skill.\"\"\"\n    return {\"status\": \"success\", \"data\": f\"Action {action} executed\"}\n"@
}

/// The starter `skill.py` of a new skill.
pub fn generate_skill_py(name: &str) -> (r: String)
    ensures
        r@ == skill_py_text(name@),
{
    let mut s = String::new();
    push_str(&mut s, "\"\"\n");
    push_str(&mut s, name);
    push_str(&mut s, " — A SkillGuard skill.\n\"\"\"\n\n\ndef execute(action: str, params: dict) -> dict:\n    \"\"\"Main entry point for the skill.\"\"\"\n    return {\"status\": \"success\", \"data\": f\"Action {action} executed\"}\n");
    s
}

/// The shell script that an exported skill offers for one action: it hands the
/// action to `skillguard run` in the sandbox.
pub open spec fn wrapper_script_text(skill: Seq<char>, action: Seq<char>) -> Seq<char> {
    "#!/usr/bin/env bash\n# Auto-generated wrapper for skillguard action: "@ + action + "\n# This script delegates to the SkillGuard sandbox for secure execution.\nset -euo pipefail\n\nPARAMS=\"${1:-{}}\"\nexec skillguard run \""@ + skill + "\" --action \""@ + action + "\" --params \"$PARAMS\" --output-json\n"@
}

/// The wrapper script for one action of an exported skill.
pub fn generate_wrapper_script(skill: &str, action: &str) -> (r: String)
    ensures
        r@ == wrapper_script_text(skill@, action@),
{
    let mut s = String::new();
    push_str(&mut s, "#!/usr/bin/env bash\n# Auto-generated wrapper for skillguard action: ");
    push_str(&mut s, action);
    push_str(&mut s, "\n# This script delegates to the SkillGuard sandbox for secure execution.\nset -euo pipefail\n\nPARAMS=\"${1:-{}}\"\nexec skillguard run \"");
    push_str(&mut s, skill);
    push_str(&mut s, "\" --action \"");
    push_str(&mut s, action);
    push_str(&mut s, "\" --params \"$PARAMS\" --output-json\n");
    s
}

} // verus!
