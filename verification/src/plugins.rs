//! Plugins: what a loaded plugin provides, the name of its library file,
//! and which of the plugins that were tried are kept.

use vstd::prelude::*;
use vstd::string::*;

verus! {

/// What every plugin offers.
pub trait XenoPlugin {
    /// The plugin's name.
    fn name(&self) -> String;
}

/// A loaded plugin: its name, its version, and the completion strings that
/// it provides.
#[derive(Debug, PartialEq, Eq)]
pub struct Plugin {
    pub name: String,
    pub version: String,
    pub provided: Vec<String>,
}

impl XenoPlugin for Plugin {
    fn name(&self) -> (r: String)
        ensures
            r == self.name,
    {
        self.name.clone()
    }
}

/// The platforms that name their libraries differently.
#[derive(Debug, Clone, Copy, PartialEq, Eq, Structural)]
pub enum Platform {
    Windows,
    MacOs,
    Other,
}

/// The file name of the library `lib_name` on `platform`.
pub open spec fn lib_filename_of(lib_name: Seq<char>, platform: Platform) -> Seq<char> {
    match platform {
        Platform::Windows => lib_name + ".dll"@,
        Platform::MacOs => "lib"@ + lib_name + ".dylib"@,
        Platform::Other => "lib"@ + lib_name + ".so"@,
    }
}

/// The file name of the library `lib_name` on `platform`.
pub fn lib_filename(lib_name: &str, platform: Platform) -> (name: String)
    ensures
        name@ == lib_filename_of(lib_name@, platform),
{
    match platform {
        Platform::Windows => {
            let mut name = String::from_str(lib_name);
            name.append(".dll");
            name
        },
        Platform::MacOs => {
            let mut name = String::from_str("lib");
            name.append(lib_name);
            name.append(".dylib");
            name
        },
        Platform::Other => {
            let mut name = String::from_str("lib");
            name.append(lib_name);
            name.append(".so");
            name
        },
    }
}

/// The error for a library that could not be loaded from `path`.
pub fn library_load_error(path: &str, cause: &str) -> (message: String)
    ensures
        message@ == "Library load error\n"@ + path@ + ":\n"@ + cause@,
{
    let mut message = String::from_str("Library load error\n");
    message.append(path);
    message.append(":\n");
    message.append(cause);
    message
}

/// The error for a library without the entry point of a plugin.
pub fn symbol_resolution_error(name: &str, cause: &str) -> (message: String)
    ensures
        message@ == "Symbol resolution error in plugin '"@ + name@
            + "'. Make sure it's compatible with the current version!\n"@ + cause@,
{
    let mut message = String::from_str("Symbol resolution error in plugin '");
    message.append(name);
    message.append("'. Make sure it's compatible with the current version!\n");
    message.append(cause);
    message
}

/// The log line for the plugin `name` that failed to load with `error`.
pub open spec fn loading_failure_of(name: Seq<char>, error: Seq<char>) -> Seq<char> {
    "Failed to load plugin '"@ + name + "':\n"@ + error
}

/// The log line for the plugin `name` that failed to load with `error`.
pub fn loading_failure(name: &str, error: &str) -> (message: String)
    ensures
        message@ == loading_failure_of(name@, error@),
{
    let mut message = String::from_str("Failed to load plugin '");
    message.append(name);
    message.append("':\n");
    message.append(error);
    message
}

/// The outcome of trying to load one plugin: its name, and the plugin or
/// the error.
pub struct LoadAttempt {
    pub name: String,
    pub outcome: Result<Plugin, String>,
}

/// The plugins among the first `n` attempts that loaded, in order.
pub open spec fn loaded(attempts: Seq<LoadAttempt>, n: int) -> Seq<Plugin>
    decreases n,
{
    if n <= 0 {
        Seq::empty()
    } else {
        match attempts[n - 1].outcome {
            Ok(plugin) => loaded(attempts, n - 1).push(plugin),
            Err(_) => loaded(attempts, n - 1),
        }
    }
}

/// The log lines for those among the first `n` attempts that failed, in
/// order.
pub open spec fn failures(attempts: Seq<LoadAttempt>, n: int) -> Seq<Seq<char>>
    decreases n,
{
    if n <= 0 {
        Seq::empty()
    } else {
        match attempts[n - 1].outcome {
            Ok(_) => failures(attempts, n - 1),
            Err(error) => failures(attempts, n - 1).push(
                loading_failure_of(attempts[n - 1].name@, error@),
            ),
        }
    }
}

/// Keeps the plugins that loaded and gives a log line for each that did
/// not. A plugin that fails is skipped; the others still load.
pub fn load_plugins(attempts: Vec<LoadAttempt>) -> (r: (Vec<Plugin>, Vec<String>))
    ensures
        r.0@ == loaded(attempts@, attempts@.len() as int),
        r.1@.map_values(|line: String| line@) == failures(attempts@, attempts@.len() as int),
{
    let mut plugins: Vec<Plugin> = Vec::new();
    let mut log: Vec<String> = Vec::new();
    let ghost all = attempts@;
    assert(log@.map_values(|line: String| line@) =~= failures(all, 0));
    for attempt in it: attempts
        invariant
            it.seq() == all,
            plugins@ == loaded(all, it.index() as int),
            log@.map_values(|line: String| line@) == failures(all, it.index() as int),
    {
        let ghost n = it.index() as int;
        match attempt.outcome {
            Ok(plugin) => {
                plugins.push(plugin);
            },
            Err(error) => {
                let line = loading_failure(attempt.name.as_str(), error.as_str());
                assert(log@.push(line).map_values(|line: String| line@) =~= log@.map_values(
                    |line: String| line@,
                ).push(line@));
                log.push(line);
            },
        }
    }
    (plugins, log)
}

/// The completion strings of the first `n` plugins, in order.
pub open spec fn provided_by(plugins: Seq<Plugin>, n: int) -> Seq<String>
    decreases n,
{
    if n <= 0 {
        Seq::empty()
    } else {
        provided_by(plugins, n - 1) + plugins[n - 1].provided@
    }
}

/// The completion strings that the plugins provide, in order.
pub fn provided_completions(plugins: &Vec<Plugin>) -> (r: Vec<String>)
    ensures
        r@ == provided_by(plugins@, plugins@.len() as int),
{
    let mut out: Vec<String> = Vec::new();
    let mut i: usize = 0;
    while i < plugins.len()
        invariant
            i <= plugins@.len(),
            out@ == provided_by(plugins@, i as int),
        decreases plugins@.len() - i,
    {
        let provided = &plugins[i].provided;
        let mut k: usize = 0;
        while k < provided.len()
            invariant
                k <= provided@.len(),
                i < plugins@.len(),
                provided@ == plugins@[i as int].provided@,
                out@ == provided_by(plugins@, i as int) + provided@.take(k as int),
            decreases provided@.len() - k,
        {
            out.push(provided[k].clone());
            k = k + 1;
            assert(out@ =~= provided_by(plugins@, i as int) + provided@.take(k as int));
        }
        assert(provided@.take(k as int) =~= provided@);
        i = i + 1;
    }
    out
}

} // verus!
