use skillguard::templates::{generate_api_template, generate_basic_template, generate_file_ops_template};

fn expected_basic(name: &str) -> String {
    format!(
        r#"name: {name}
version: 0.1.0
description: A new SkillGuard skill
author: your-name

permissions:
  subprocess: false

actions:
  - name: execute
    description: Execute the skill
    parameters:
      input:
        type: string
        description: Input data
    returns:
      type: object
      description: Execution result

keywords: []
"#
    )
}

fn expected_api(name: &str) -> String {
    format!(
        r#"name: {name}
version: 0.1.0
description: An API-connected SkillGuard skill
author: your-name

permissions:
  network:
    - domain: api.example.com
      methods: [GET, POST]
      ports: [443]
  environment:
    - name: API_KEY
      required: true
      sensitive: true
  subprocess: false

build:
  dependencies:
    - httpx>=0.27.0

actions:
  - name: fetch
    description: Fetch data from the API
    parameters:
      endpoint:
        type: string
        description: API endpoint path
    returns:
      type: object
      description: API response

keywords: [api, http]
"#
    )
}

fn expected_file_ops(name: &str) -> String {
    format!(
        r#"name: {name}
version: 0.1.0
description: A file operations SkillGuard skill
author: your-name

permissions:
  filesystem:
    - path: "${{WORKSPACE}}/**"
      access: [read, write]
  subprocess: false

actions:
  - name: read
    description: Read a file
    parameters:
      path:
        type: string
        description: File path relative to workspace
    returns:
      type: string
      description: File contents

  - name: write
    description: Write to a file
    parameters:
      path:
        type: string
        description: File path relative to workspace
      content:
        type: string
        description: Content to write
    returns:
      type: boolean
      description: Success status

keywords: [file, filesystem]
"#
    )
}

#[test]
fn templates_match_init_output() {
    assert_eq!(generate_basic_template("my-skill"), expected_basic("my-skill"));
    assert_eq!(generate_api_template("api-skill"), expected_api("api-skill"));
    assert_eq!(generate_file_ops_template("files"), expected_file_ops("files"));
}
