use vstd::prelude::*;

verus! {

/// The client's command-line options.
#[derive(Clone, Debug)]
pub struct CliArgs {
    /// Maximum panes on screen; opening more panes closes old ones.
    pub max_panes: Option<usize>,
    /// Path to a layout yaml file.
    pub layout: Option<String>,
    pub config: Option<ConfigCli>,
    pub debug: bool,
}

/// The configuration subcommand.
#[derive(Clone, Debug)]
pub enum ConfigCli {
    Config {
        /// Path to the configuration yaml file.
        path: Option<String>,
        /// Disables loading of the configuration file at its default location.
        clean: bool,
    },
}

impl Default for CliArgs {
    fn default() -> (r: CliArgs)
        ensures
            r.max_panes.is_none(),
            r.layout.is_none(),
            r.config.is_none(),
            !r.debug,
    {
        CliArgs { max_panes: None, layout: None, config: None, debug: false }
    }
}

} // verus!
