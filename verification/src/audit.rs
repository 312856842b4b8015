//! The audit rules: each module holds one rule's classification logic over
//! the expression AST and the workflow model.

pub mod artipacked;
pub mod bypassable_contains_conditions;
pub mod excessive_permissions;
pub mod insecure_commands;
pub mod secret_without_env;
pub mod secrets_inherit;
pub mod secrets_outside_environment;
pub mod use_trusted_publishing;
pub mod impostor_commit;
pub mod ref_confusion;
pub mod unpinned_uses;
pub mod overprovisioned_secrets;
pub mod template_injection;
pub mod unredacted_secrets;
