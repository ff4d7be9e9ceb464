# skillguard

SkillGuard manages AI agent skills: permission manifests, the sandbox grants they
lead to, a file-based registry index, package checksums, provenance attestations
and signature checks.

- `src/` is the library, written in Verus: every function there carries a
  contract that Verus proves, and the laws of the library (how permission levels
  are ordered, what the sandbox may grant, what a search returns, ...) are proof
  functions beside the code.
- `app/` is the `skillguard` command-line tool: argument parsing, files,
  archives, HTTP, the cosign CLI, the Wasmtime sandbox and the serializable
  copies of the library's types. It hands plain values to the library and acts
  on what comes back.
- `tests/` exercises the library on concrete values.

## Scope

- Skill names follow a rule of this library's own: 1 to 64 characters, each a
  lowercase ASCII letter, a digit or `-`, neither starting nor ending with `-`
  (`SkillName::new`, `SkillManifest::validate`).
- There is no security audit of a skill's code: the tool has no `audit`
  command, and `skillguard verify` reports three checks (manifest schema, SLSA
  provenance, Sigstore signature), never a failed audit.
- The registry index is read from a local directory; nothing is cloned from a
  remote repository.
- A sandboxed run is cut off after `timeout_seconds` (the engine's epoch
  advances once a second) and a result of more than `max_output_bytes` bytes
  is refused with an error result.
