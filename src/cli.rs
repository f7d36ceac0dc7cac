use vstd::prelude::*;

verus! {

/// A subcommand of the command line.
#[derive(Debug, Clone, Copy, PartialEq, Eq, Structural)]
pub enum CliCommand {
    /// Prints out the configuration file.
    PrintConfig,
}

/// The command line.
#[derive(Debug, Clone, PartialEq, Eq)]
pub struct Cli {
    /// The configuration file; `rwm.toml` in the working directory when absent.
    pub config_file: Option<String>,
    /// The directory where logs should be placed.
    pub log_dir: Option<String>,
    /// The subcommand, if any.
    pub command: Option<CliCommand>,
}

impl Cli {
    /// Whether the command line asks to print the configuration and exit.
    pub fn wants_print_config(&self) -> (r: bool)
        ensures
            r == (self.command matches Some(CliCommand::PrintConfig)),
    {
        match self.command {
            Some(CliCommand::PrintConfig) => true,
            None => false,
        }
    }
}

} // verus!
