//! Argv law: may this command line run?
//!
//! The host argv table shipped here is the policy when the policy library is
//! not seated; when it is, its answer stands, but it can never turn a deny of
//! the host table into an allow.

pub mod argv_table;
pub mod laws;
pub mod policy;
pub mod seat;
pub mod shell;
pub mod text;

pub use policy::{Checked, Decision, PolicyReason};
pub use shell::{check_shell, verdict};
