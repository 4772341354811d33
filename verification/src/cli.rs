//! Command-line interface definition.
use vstd::prelude::*;

use std::path::PathBuf;

verus! {

/// The main CLI argument structure.
#[derive(Debug)]
pub struct Cli {
    /// The subcommand to execute.
    pub command: Commands,
}

/// Available CLI subcommands.
#[derive(Debug)]
pub enum Commands {
    /// Launch proxy, enforce policy, and wrap target command
    Run {
        /// Path to the policy configuration file (toml or yaml format)
        policy: PathBuf,
        /// The target server executable to wrap
        target_executable: String,
        /// Arguments for the target server executable
        target_args: Vec<String>,
    },
    /// Tail or query the local audit log
    Audit {
        /// Path to the audit log file to read (JSONL format)
        log_file: Option<PathBuf>,
    },
}

} // verus!
