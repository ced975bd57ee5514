//! Discovery of git repositories, the repository/worktree model, and the
//! filterable selection lists that drive the terminal interface.

pub mod strings;
pub mod keys;
pub mod filter;
pub mod list;
pub mod discovery;
pub mod git;
pub mod components;
pub mod app;
