//! Core of a script runner: cheat dispatch with an idempotent transaction
//! ledger, argument decoding from field-element buffers, and the pieces of
//! entry-code synthesis and assembly that are decided on plain values.

pub mod felt;
pub mod reader;
pub mod fingerprint;
pub mod ledger;
pub mod dispatch;
pub mod entry;
pub mod project;
pub mod script;

pub use felt::Felt;
pub use dispatch::{CastScriptExtension, CheatError, CheatcodeHandlingResult, Request};
pub use ledger::{ActionResult, LedgerEntry, StateManager};
pub use project::replace_project_name;
pub use script::Run;
