//! The workspace configuration: where the source and the plugins are, and
//! which stages echo their output.

use vstd::prelude::*;
use vstd::string::*;

verus! {

/// Where the source text is.
#[derive(Debug, PartialEq, Eq)]
pub struct ParserConfig {
    pub path: String,
}

/// Where the plugins are, and which to load.
#[derive(Debug, PartialEq, Eq)]
pub struct PluginsConfig {
    pub path: String,
    pub plugins: Vec<String>,
}

/// Which stages echo their output.
#[derive(Debug, Clone, Copy, PartialEq, Eq, Structural)]
pub struct DebugConfig {
    pub plugins: bool,
    pub tokens: bool,
    pub ast: bool,
}

/// The configuration of a workspace.
#[derive(Debug, PartialEq, Eq)]
pub struct Config {
    pub parser: ParserConfig,
    pub plugins: PluginsConfig,
    pub debug: DebugConfig,
    pub workdir: String,
}

/// Whether `config` holds the default of every setting.
pub open spec fn is_default(config: Config) -> bool {
    &&& config.parser.path@ == "./tests/examples/parser/p1.xen"@
    &&& config.plugins.path@ == "./target/release/"@
    &&& config.plugins.plugins@.len() == 0
    &&& config.debug == DebugConfig { plugins: false, tokens: false, ast: false }
}

/// The default path of the source text.
pub fn default_parser_path() -> (path: String)
    ensures
        path@ == "./tests/examples/parser/p1.xen"@,
{
    String::from_str("./tests/examples/parser/p1.xen")
}

/// The default directory of the plugins.
pub fn default_plugins_path() -> (path: String)
    ensures
        path@ == "./target/release/"@,
{
    String::from_str("./target/release/")
}

/// The plugins to load by default: none.
pub fn default_plugins_list() -> (list: Vec<String>)
    ensures
        list@.len() == 0,
{
    Vec::new()
}

impl Default for ParserConfig {
    fn default() -> (config: Self)
        ensures
            config.path@ == "./tests/examples/parser/p1.xen"@,
    {
        ParserConfig { path: default_parser_path() }
    }
}

impl Default for PluginsConfig {
    fn default() -> (config: Self)
        ensures
            config.path@ == "./target/release/"@,
            config.plugins@.len() == 0,
    {
        PluginsConfig { path: default_plugins_path(), plugins: default_plugins_list() }
    }
}

impl Default for DebugConfig {
    fn default() -> (config: Self)
        ensures
            config == (DebugConfig { plugins: false, tokens: false, ast: false }),
    {
        DebugConfig { plugins: false, tokens: false, ast: false }
    }
}

impl Default for Config {
    fn default() -> (config: Self)
        ensures
            is_default(config),
            config.workdir@ == Seq::<char>::empty(),
    {
        Config {
            parser: ParserConfig::default(),
            plugins: PluginsConfig::default(),
            debug: DebugConfig::default(),
            workdir: String::new(),
        }
    }
}

impl Config {
    /// The default configuration of the workspace at `workdir`.
    pub fn default_with_workdir(workdir: String) -> (config: Self)
        ensures
            is_default(config),
            config.workdir == workdir,
    {
        Config {
            parser: ParserConfig::default(),
            plugins: PluginsConfig::default(),
            debug: DebugConfig::default(),
            workdir,
        }
    }

    /// The configuration of the workspace at `workdir`: the one read from
    /// its file, or the default if none could be read.
    pub fn resolve(read: Option<Config>, workdir: String) -> (config: Self)
        ensures
            config.workdir == workdir,
            match read {
                Some(given) => config.parser == given.parser && config.plugins == given.plugins
                    && config.debug == given.debug,
                None => is_default(config),
            },
    {
        match read {
            Some(given) => Config {
                parser: given.parser,
                plugins: given.plugins,
                debug: given.debug,
                workdir,
            },
            None => Config::default_with_workdir(workdir),
        }
    }
}

} // verus!
