//! Ticket workspaces made of git worktrees across several repositories.
//!
//! A ticket is a directory that holds one worktree for each repository that
//! takes part, all on the ticket's branch, and a record of what it holds.
//! This crate is the part that decides: how branches and worktrees are named
//! (`commands::common`, `ticket`), what the record becomes (`ticket`), what is
//! asked of the git backend and what is made of its answers (`git`), in which
//! order credentials are tried (`auth`), and what each command comes to
//! (`commands`). Reading and writing files, talking to git and to the user
//! are left to the caller, who hands in what was read and carries out what is
//! handed back.
//!
//! Texts are specified through their characters (`text`), paths are texts
//! (`paths`), and registries are small ordered maps (`alias_map`).

pub mod alias_map;
pub mod auth;
pub mod commands;
pub mod config;
pub mod defaults;
pub mod error;
pub mod git;
pub mod paths;
pub mod plugins;
pub mod text;
pub mod ticket;
