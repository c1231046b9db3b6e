//! A small interactive command shell, with its core logic verified:
//! redirect resolution, the line-editor byte state machine, history
//! storage with bang expansion, and the dispatch decisions around
//! process spawning.

use vstd::prelude::*;

pub mod bytes;
pub mod commit;
pub mod dispatch;
pub mod editor;
pub mod history;
pub mod redirect;
pub mod shell;
pub mod spawn;

verus! {

/// Exit status reported when a command succeeds.
pub const EXIT_SUCCESS: i32 = 0;
/// Exit status for an ordinary command failure.
pub const EXIT_FAILURE: i32 = 1;
/// Exit status for an internal failure of the shell itself.
pub const EXIT_CRITICAL_FAILURE: i32 = 2;
/// Exit status when a command name cannot be resolved.
pub const EXIT_CMD_NOT_FOUND: i32 = 127;
/// Exit status after the line reader was interrupted.
pub const EXIT_INTERRUPTED: i32 = 130;

/// Standard input descriptor slot.
pub const STDIN: u32 = 0;
/// Standard output descriptor slot.
pub const STDOUT: u32 = 1;
/// Standard error descriptor slot.
pub const STDERR: u32 = 2;

} // verus!
