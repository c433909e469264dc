use lambda_scheduler::command::{cargo_arguments, cargo_command, CargoOptions};
use lambda_scheduler::names::{
    is_valid_bin_name, is_valid_function_name, is_valid_name_char, same_text,
    DEFAULT_PACKAGE_FUNCTION, MAX_FUNCTION_NAME_LEN,
};
use lambda_scheduler::watcher::{copy_strings, WatcherConfig};
use watchexec::command::Command;

fn options(features: Option<&str>, release: bool) -> CargoOptions {
    CargoOptions {
        manifest_path: "Cargo.toml".to_string(),
        features: features.map(|f| f.to_string()),
        release,
    }
}

fn exec(args: &[&str]) -> Command {
    Command::Exec { prog: "cargo".to_string(), args: args.iter().map(|a| a.to_string()).collect() }
}

fn config() -> WatcherConfig {
    WatcherConfig {
        name: String::new(),
        bin_name: Some("stale".to_string()),
        runtime_api: 99,
        only_lambda_apis: false,
        watch_paths: vec!["src".to_string(), "Cargo.toml".to_string()],
        ignore_paths: vec!["target".to_string()],
    }
}

#[test]
fn empty_name_selects_no_binary() {
    assert!(!is_valid_bin_name(""));
    let cmd = cargo_command("", &options(None, false));
    assert_eq!(cmd, exec(&["run"]));
}

#[test]
fn default_package_name_selects_no_binary() {
    assert_eq!(DEFAULT_PACKAGE_FUNCTION, "_");
    assert!(!is_valid_bin_name(DEFAULT_PACKAGE_FUNCTION));
    let cmd = cargo_command(DEFAULT_PACKAGE_FUNCTION, &options(None, false));
    assert_eq!(cmd, exec(&["run"]));
}

#[test]
fn other_name_selects_itself() {
    assert!(is_valid_bin_name("hello"));
    assert!(is_valid_bin_name("__"));
    assert!(is_valid_bin_name("-"));
    assert!(is_valid_bin_name(" "));
    let cmd = cargo_command("hello", &options(None, false));
    assert_eq!(cmd, exec(&["run", "--bin", "hello"]));
}

#[test]
fn command_with_every_option() {
    let cmd = cargo_command("hello", &options(Some("a,b"), true));
    assert_eq!(cmd, exec(&["run", "--features", "a,b", "--release", "--bin", "hello"]));
}

#[test]
fn command_with_features_only() {
    let cmd = cargo_command("_", &options(Some("tls"), false));
    assert_eq!(cmd, exec(&["run", "--features", "tls"]));
    let cmd = cargo_command("", &options(Some(""), false));
    assert_eq!(cmd, exec(&["run", "--features", ""]));
}

#[test]
fn command_in_release_mode() {
    let cmd = cargo_command("", &options(None, true));
    assert_eq!(cmd, exec(&["run", "--release"]));
    let cmd = cargo_command("api", &options(None, true));
    assert_eq!(cmd, exec(&["run", "--release", "--bin", "api"]));
}

#[test]
fn arguments_without_the_program() {
    assert_eq!(cargo_arguments("", &options(None, false)), vec!["run"]);
    assert_eq!(
        cargo_arguments("hello", &options(Some("a,b"), true)),
        vec!["run", "--features", "a,b", "--release", "--bin", "hello"]
    );
    assert_eq!(cargo_arguments("_", &options(None, true)), vec!["run", "--release"]);
}

#[test]
fn name_characters() {
    for c in ['a', 'z', 'A', 'Z', '0', '9', '-', '_', 'm', 'Q', '5'] {
        assert!(is_valid_name_char(c), "{c}");
    }
    for c in [' ', '/', '.', '@', '[', '`', '{', ':', '\u{e9}', '\n', '\0'] {
        assert!(!is_valid_name_char(c), "{c:?}");
    }
}

#[test]
fn function_names() {
    assert_eq!(MAX_FUNCTION_NAME_LEN, 64);
    assert!(is_valid_function_name(""));
    assert!(is_valid_function_name("_"));
    assert!(is_valid_function_name("hello"));
    assert!(is_valid_function_name("my-function_2"));
    assert!(is_valid_function_name(&"a".repeat(64)));
    assert!(!is_valid_function_name(&"a".repeat(65)));
    assert!(!is_valid_function_name("hello world"));
    assert!(!is_valid_function_name("hello/world"));
    assert!(!is_valid_function_name("h\u{e9}llo"));
    assert!(!is_valid_function_name("hello!"));
}

#[test]
fn same_text_compares_characters() {
    assert!(same_text("", ""));
    assert!(same_text("hello", "hello"));
    assert!(same_text("h\u{e9}llo", "h\u{e9}llo"));
    assert!(!same_text("hello", "hellp"));
    assert!(!same_text("hello", "hell"));
    assert!(!same_text("", "a"));
    assert!(!same_text("Hello", "hello"));
    assert!(!same_text("\u{e9}", "e"));
}

#[test]
fn config_for_named_function() {
    let made = config().for_function("hello", 7);
    assert_eq!(
        made,
        WatcherConfig {
            name: "hello".to_string(),
            bin_name: Some("hello".to_string()),
            runtime_api: 7,
            ..config()
        }
    );
}

#[test]
fn config_for_default_function() {
    let made = config().for_function("_", 3);
    assert_eq!(
        made,
        WatcherConfig { name: "_".to_string(), bin_name: None, runtime_api: 3, ..config() }
    );
    let made = config().for_function("", 4);
    assert_eq!(
        made,
        WatcherConfig { name: String::new(), bin_name: None, runtime_api: 4, ..config() }
    );
}

#[test]
fn config_copy_is_equal() {
    assert_eq!(config().duplicate(), config());
    let paths = vec!["a".to_string(), String::new(), "c/d".to_string()];
    assert_eq!(copy_strings(&paths), paths);
    assert_eq!(copy_strings(&Vec::new()), Vec::<String>::new());
}
