//! The command line.

use vstd::prelude::*;

verus! {

/// What the operator asks for.
#[derive(Debug)]
pub struct Cli {
    /// The path of the configuration file.
    pub config: String,
    /// The log level.
    pub log_level: String,
    /// Check the configuration and do nothing else.
    pub check: bool,
}

/// What to do once the configuration is read.
#[derive(Debug, Clone, Copy, PartialEq, Eq, Structural)]
pub enum CliStep {
    /// Say that the configuration is in order, and end.
    ReportOk,
    /// Run the connector.
    Run,
}

impl Default for Cli {
    fn default() -> (cli: Self)
        ensures
            cli.config@ == "config/wazuh-slack.yaml"@,
            cli.log_level@ == "info"@,
            !cli.check,
    {
        Cli {
            config: "config/wazuh-slack.yaml".to_owned(),
            log_level: "info".to_owned(),
            check: false,
        }
    }
}

impl Cli {
    /// What to do once the configuration is read.
    pub fn after_load(&self) -> (step: CliStep)
        ensures
            step == (if self.check {
                CliStep::ReportOk
            } else {
                CliStep::Run
            }),
    {
        if self.check {
            CliStep::ReportOk
        } else {
            CliStep::Run
        }
    }
}

}
