use xenomorph::config::{
    default_parser_path, default_plugins_list, default_plugins_path, Config, DebugConfig,
    ParserConfig, PluginsConfig,
};
use xenomorph::plugins::{
    lib_filename, library_load_error, load_plugins, loading_failure, provided_completions,
    symbol_resolution_error, LoadAttempt, Platform, Plugin, XenoPlugin,
};

fn plugin(name: &str, provided: &[&str]) -> Plugin {
    Plugin {
        name: name.to_string(),
        version: "1.0".to_string(),
        provided: provided.iter().map(|s| s.to_string()).collect(),
    }
}

#[test]
fn default_settings() {
    assert_eq!(default_parser_path(), "./tests/examples/parser/p1.xen");
    assert_eq!(default_plugins_path(), "./target/release/");
    assert_eq!(default_plugins_list(), Vec::<String>::new());
    assert_eq!(
        Config::default(),
        Config {
            parser: ParserConfig { path: "./tests/examples/parser/p1.xen".to_string() },
            plugins: PluginsConfig { path: "./target/release/".to_string(), plugins: vec![] },
            debug: DebugConfig { plugins: false, tokens: false, ast: false },
            workdir: String::new(),
        }
    );
}

#[test]
fn default_in_a_workdir() {
    let config = Config::default_with_workdir("/work".to_string());
    assert_eq!(config.workdir, "/work");
    assert_eq!(config.parser, ParserConfig::default());
    assert_eq!(config.plugins, PluginsConfig::default());
    assert_eq!(config.debug, DebugConfig::default());
}

#[test]
fn resolved_configuration() {
    let read = Config {
        parser: ParserConfig { path: "a.xen".to_string() },
        plugins: PluginsConfig { path: "plugins/".to_string(), plugins: vec!["p".to_string()] },
        debug: DebugConfig { plugins: true, tokens: false, ast: true },
        workdir: "ignored".to_string(),
    };
    let config = Config::resolve(Some(read), "/work".to_string());
    assert_eq!(config.workdir, "/work");
    assert_eq!(config.parser.path, "a.xen");
    assert_eq!(config.plugins.plugins, vec!["p".to_string()]);
    assert_eq!(config.debug, DebugConfig { plugins: true, tokens: false, ast: true });
    assert_eq!(
        Config::resolve(None, "/work".to_string()),
        Config::default_with_workdir("/work".to_string())
    );
}

#[test]
fn library_file_names() {
    assert_eq!(lib_filename("test_plugin", Platform::Windows), "test_plugin.dll");
    assert_eq!(lib_filename("test_plugin", Platform::MacOs), "libtest_plugin.dylib");
    assert_eq!(lib_filename("test_plugin", Platform::Other), "libtest_plugin.so");
}

#[test]
fn loading_messages() {
    assert_eq!(
        library_load_error("/p/libx.so", "no such file"),
        "Library load error\n/p/libx.so:\nno such file"
    );
    assert_eq!(
        symbol_resolution_error("x", "undefined symbol"),
        "Symbol resolution error in plugin 'x'. Make sure it's compatible with the current version!\nundefined symbol"
    );
    assert_eq!(loading_failure("x", "broken"), "Failed to load plugin 'x':\nbroken");
}

#[test]
fn failing_plugins_are_skipped() {
    let attempts = vec![
        LoadAttempt { name: "a".to_string(), outcome: Ok(plugin("a", &["x"])) },
        LoadAttempt { name: "b".to_string(), outcome: Err("broken".to_string()) },
        LoadAttempt { name: "c".to_string(), outcome: Ok(plugin("c", &[])) },
        LoadAttempt { name: "d".to_string(), outcome: Err("missing".to_string()) },
    ];
    let (plugins, log) = load_plugins(attempts);
    assert_eq!(plugins, vec![plugin("a", &["x"]), plugin("c", &[])]);
    assert_eq!(
        log,
        vec!["Failed to load plugin 'b':\nbroken", "Failed to load plugin 'd':\nmissing"]
    );
    assert_eq!(load_plugins(vec![]), (vec![], vec![]));
}

#[test]
fn plugins_provide_completions() {
    let plugins = vec![plugin("a", &["Hello", "World"]), plugin("b", &[]), plugin("c", &["x"])];
    assert_eq!(provided_completions(&plugins), vec!["Hello", "World", "x"]);
    assert_eq!(provided_completions(&vec![]), Vec::<String>::new());
    assert_eq!(plugins[0].name(), "a");
}
