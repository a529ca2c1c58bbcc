//! Process-wide configuration: the shell to invoke commands with, the global
//! run-command template, and the cloud hook templates. A missing or
//! unparsable configuration file degrades to the all-empty default.

use vstd::prelude::*;

verus! {

/// The global run-command template.
#[derive(Debug)]
pub struct Run {
    pub commands: Vec<String>,
}

/// The cloud hook templates.
#[derive(Debug)]
pub struct Backup {
    pub cloud_init_commands: Vec<String>,
    pub cloud_commit_commands: Vec<String>,
    pub cloud_push_commands: Vec<String>,
}

/// The configuration loaded once per invocation from the fixed system path.
#[derive(Debug)]
pub struct Config {
    pub shell: String,
    pub run: Run,
    pub backup: Backup,
}

impl Default for Run {
    /// An empty template: the run hook is not configured.
    fn default() -> (r: Run)
        ensures
            r.commands@.len() == 0,
    {
        Run { commands: Vec::new() }
    }
}

impl Default for Backup {
    /// Empty templates: no cloud hook is configured.
    fn default() -> (r: Backup)
        ensures
            r.cloud_init_commands@.len() == 0,
            r.cloud_commit_commands@.len() == 0,
            r.cloud_push_commands@.len() == 0,
    {
        Backup {
            cloud_init_commands: Vec::new(),
            cloud_commit_commands: Vec::new(),
            cloud_push_commands: Vec::new(),
        }
    }
}

impl Default for Config {
    /// The all-empty configuration: callers treat every hook as not
    /// configured rather than as an error.
    fn default() -> (r: Config)
        ensures
            r.shell@.len() == 0,
            r.run.commands@.len() == 0,
            r.backup.cloud_init_commands@.len() == 0,
            r.backup.cloud_commit_commands@.len() == 0,
            r.backup.cloud_push_commands@.len() == 0,
    {
        Config { shell: String::new(), run: Run::default(), backup: Backup::default() }
    }
}

} // verus!
