//! Builds execution plans (playbooks) from a deployment manifest and
//! command-line arguments: host-line parsing, secret substitution, SSH
//! client configuration overlay, host filters and the three assembly modes.
pub mod entity;
pub mod gateways;
pub mod text;
pub mod usecase;
