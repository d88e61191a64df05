//! Interactive runner for a workspace of scripts: each script declares
//! its inputs in a comment-delimited schema block, the session builds a
//! validated form from it, runs the script, and keeps a searchable
//! index and an append-only history of every run.

pub mod catalog;
pub mod clicmd;
pub mod codec;
pub mod commands;
pub mod domain;
pub mod envcfg;
pub mod history;
pub mod initcmd;
pub mod json;
pub mod omaken;
pub mod ports;
pub mod runcmd;
pub mod runtime;
pub mod search;
pub mod session;
pub mod store;
pub mod strutil;
pub mod use_cases;
pub mod util;
pub mod workspace;
