//! SkillGuard: permission manifests, capability grants, registry bookkeeping and
//! signing decisions for AI agent skills, with their behaviour proved by Verus.
//!
//! - `text`, `json`, `digest`: character sequences, JSON fields and SHA-256 digests.
//! - `permission`, `action`, `manifest`, `error`: the skill manifest and its validation.
//! - `anthropic`: SKILL.md frontmatter, permission inference and export.
//! - `capability`, `resource_limits`: what the sandbox grants a skill.
//! - `registry`: index layout, lookups, install and publish decisions.
//! - `signing`: provenance, signing and signature verification.
//! - `templates`, `checks`: what `skillguard init` writes and `skillguard verify` reports.
pub mod action;
pub mod anthropic;
pub mod capability;
pub mod checks;
pub mod digest;
pub mod error;
pub mod json;
pub mod manifest;
pub mod permission;
pub mod registry;
pub mod resource_limits;
pub mod signing;
pub mod templates;
pub mod text;
