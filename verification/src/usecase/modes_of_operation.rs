//! The three ways in which a playbook is put together.
pub mod makefile_mode;
pub mod normal_mode;
pub mod special_target_mode;
