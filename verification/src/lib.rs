//! Verified launch logic for a detached Windows daemon.
//!
//! A daemon must outlive the Job of whoever starts it. Where the one that was
//! started is caught in a Job, it is started again as the child of a temporary
//! parent outside any Job.
//!
//! The library encodes the strings of a launch, decides which system call is
//! made next and what is passed to it, and reads every reply. It makes no
//! system call itself: the embedding program performs each action and hands
//! the reply back.

pub mod encoding;
pub mod failure;
pub mod launch;
pub mod parent;
pub mod pipe;
pub mod pipe_name;
pub mod procedure;
pub mod spawn;
pub mod waiting;
pub mod win32;
pub mod wmi;

pub use crate::failure::Failure;
pub use crate::failure::Operation;
pub use crate::failure::Silence;
pub use crate::pipe_name::CODEX_WINDOWS_SPAWN_PARENT_ARG1;
pub use crate::win32::check;
pub use crate::win32::owned;
pub use crate::win32::Reply;
