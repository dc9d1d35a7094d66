//! Trust-policy evaluation for container images: identity matching, per-requirement
//! verdicts over verified signature payloads, policy documents with scoped requirement
//! lists, and the message that carries an issued attestation token.

pub mod identity;
pub mod requirement;
pub mod engine;
pub mod token;
