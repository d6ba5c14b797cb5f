//! Accounts, settings and secrets.
use std::path::PathBuf;

use zeroterm::accounts::{choose_account, AccountChoice};
use zeroterm::config::{
    account_names, config_dir, config_dir_from, config_path, credentials_path, get_default_account,
    is_secret_reference, load_config, load_credentials, load_credentials_with_resolver,
    parse_account, parse_flag, parse_number, path_of, read_account, read_credentials,
    sorted_accounts, AccountConfig, CommandOutput, OpSecretResolver, SecretResolver, TomlItem,
    APP_NAME, CREDENTIALS_FILE,
};
use zeroterm::desk::Key;
use zeroterm::startup::{startup, Startup};
use zeroterm::ui::widgets::{AccountSelectWidget, AccountSelection};

fn not_run() -> OpSecretResolver {
    OpSecretResolver { output: None }
}

fn path(bytes: Vec<u8>) -> PathBuf {
    PathBuf::from(String::from_utf8(bytes).unwrap())
}

#[test]
fn test_config_dir_not_empty() {
    let dir = config_dir();
    assert!(dir.is_ok());
    let path = path(dir.unwrap());
    assert!(path.ends_with(APP_NAME));
}

#[test]
fn test_credentials_path() {
    let file = credentials_path();
    assert!(file.is_ok());
    let path = path(file.unwrap());
    assert!(path.ends_with(CREDENTIALS_FILE));
}

#[test]
fn test_parse_credentials() {
    let toml_content = r#"
email = "user@gmail.com"
app_password = "xxxx xxxx xxxx xxxx"
"#;
    let credentials = read_credentials(toml_content).unwrap();
    assert_eq!(credentials.email, "user@gmail.com");
    assert_eq!(credentials.app_password, "xxxx xxxx xxxx xxxx");
}

#[test]
fn test_op_resolver_plain_text() {
    let resolver = not_run();
    let result = resolver.resolve("plain-password").unwrap();
    assert_eq!(result, "plain-password");
}

#[test]
fn test_op_resolver_returns_value_unchanged_when_not_op_reference() {
    let resolver = not_run();
    assert_eq!(resolver.resolve("my-secret").unwrap(), "my-secret");
    assert_eq!(
        resolver.resolve("xxxx xxxx xxxx xxxx").unwrap(),
        "xxxx xxxx xxxx xxxx"
    );
    assert_eq!(resolver.resolve("").unwrap(), "");
    assert_eq!(
        resolver.resolve("op-but-not-reference").unwrap(),
        "op-but-not-reference"
    );
}

struct MockSecretResolver {
    answer: Result<String, String>,
}

impl SecretResolver for MockSecretResolver {
    fn resolve(&self, value: &str) -> Result<String, String> {
        assert_eq!(value, "op://vault/item/password");
        self.answer.clone()
    }
}

#[test]
fn test_mock_resolver_returns_configured_value() {
    let mock = MockSecretResolver {
        answer: Ok("resolved-secret".to_string()),
    };

    let result = mock.resolve("op://vault/item/password").unwrap();
    assert_eq!(result, "resolved-secret");
}

#[test]
fn test_mock_resolver_can_simulate_error() {
    let mock = MockSecretResolver {
        answer: Err("1Password CLI not found".to_string()),
    };

    let result = mock.resolve("op://vault/item/password");
    assert!(result.is_err());
    assert!(result.unwrap_err().to_string().contains("1Password"));
}

#[test]
fn op_output_is_trimmed_and_failures_are_told() {
    assert!(is_secret_reference("op://vault/item/password"));
    let resolver = OpSecretResolver {
        output: Some(CommandOutput {
            success: true,
            stdout: b" secret \n".to_vec(),
            stderr: Vec::new(),
        }),
    };
    assert_eq!(resolver.resolve("op://a/b/c").unwrap(), "secret");
    assert_eq!(resolver.resolve("plain").unwrap(), "plain");
    let failed = OpSecretResolver {
        output: Some(CommandOutput {
            success: false,
            stdout: b"ignored".to_vec(),
            stderr: b"no such item\n".to_vec(),
        }),
    };
    assert_eq!(
        failed.resolve("op://a/b/c").unwrap_err(),
        "Failed to read secret from 1Password: no such item"
    );
    assert_eq!(
        not_run().resolve("op://a/b/c").unwrap_err(),
        "Failed to run 'op' command. Is 1Password CLI installed?"
    );
}

#[test]
fn op_output_that_is_not_utf8_is_replaced() {
    let resolver = OpSecretResolver {
        output: Some(CommandOutput {
            success: true,
            stdout: vec![b'a', 0xFF, b'b'],
            stderr: Vec::new(),
        }),
    };
    assert_eq!(resolver.resolve("op://a/b/c").unwrap(), "a\u{FFFD}b");
}

#[test]
fn credentials_are_loaded_and_resolved() {
    let document = "email = \"u@g.com\"\napp_password = \"op://vault/item/password\"\nextra = 1\n";
    let mock = MockSecretResolver {
        answer: Ok("resolved-secret".to_string()),
    };
    let c = load_credentials_with_resolver(document, &mock).unwrap();
    assert_eq!(c.email, "u@g.com");
    assert_eq!(c.app_password, "resolved-secret");
    let broken = MockSecretResolver {
        answer: Err("no".to_string()),
    };
    assert_eq!(
        load_credentials_with_resolver(document, &broken).unwrap_err(),
        "Failed to resolve app_password"
    );
    let plain = "email = \"u@g.com\"\napp_password = \"x\"\n";
    assert_eq!(load_credentials(plain, &not_run()).unwrap().app_password, "x");
    for bad in ["email = ", "email = \"a\"", "email = 1\napp_password = \"x\""] {
        assert_eq!(
            load_credentials(bad, &not_run()).unwrap_err(),
            "Failed to parse credentials.toml"
        );
    }
}

#[test]
fn files_lie_in_the_directory() {
    assert_eq!(path_of(b"/u/.config/zeroterm", "config.toml"), b"/u/.config/zeroterm/config.toml");
    assert_eq!(path_of(b"/u/.config/zeroterm/", "config.toml"), b"/u/.config/zeroterm/config.toml");
    assert_eq!(path_of(b"/home/\xff/zeroterm", "config.toml"), b"/home/\xff/zeroterm/config.toml");
    assert_eq!(path_of(b"/", "config.toml"), b"/config.toml");
    assert_eq!(path_of(b"", "config.toml"), b"config.toml");
    assert_eq!(config_dir_from(Some(b"/\xff/zeroterm/".to_vec())).unwrap(), b"/\xff/zeroterm/");
    assert_eq!(config_dir_from(None).unwrap_err(), "Failed to determine config directory");
    let dir = config_dir().unwrap();
    assert_eq!(config_path().unwrap(), path_of(&dir, "config.toml"));
    assert_eq!(
        credentials_path().unwrap(),
        path_of(&dir, "credentials.toml")
    );
}

const CONFIG: &str = r#"
parallel_connections = 3
protect_threads = false

[accounts.work]
backend = "gmail"
email = "w@example.com"
app_password = "w"

[accounts.Home]
email = "h@example.com"
app_password = "h"
"#;

#[test]
fn config_is_read_with_defaults() {
    let config = load_config(CONFIG).unwrap();
    assert_eq!(config.parallel_connections, 3);
    assert!(!config.protect_threads);
    assert!(config.advance_on_select);
    assert!(!config.debug);
    let settings = config.settings();
    assert_eq!(settings.parallel_connections, 3);
    assert!(settings.advance_on_select && !settings.protect_threads);
    let names: Vec<&str> = config.accounts.iter().map(|a| a.0.as_str()).collect();
    assert_eq!(names, vec!["Home", "work"]);
    assert_eq!(get_default_account(&config).unwrap().1.email, "h@example.com");

    let bare = load_config("[accounts]\n").unwrap();
    assert_eq!(bare.parallel_connections, 5);
    assert!(bare.protect_threads);
    assert_eq!(
        get_default_account(&bare).unwrap_err(),
        "No accounts in config"
    );
}

#[test]
fn malformed_config_is_refused() {
    for bad in [
        "[accounts",
        "debug = true",
        "debug = 1\n[accounts]",
        "parallel_connections = -1\n[accounts]",
        "[accounts.a]\nemail = \"x\"",
    ] {
        assert_eq!(load_config(bad).err().unwrap(), "Failed to parse config.toml");
    }
}

#[test]
fn accounts_are_read_one_by_one() {
    assert_eq!(account_names(CONFIG).unwrap(), vec!["Home", "work"]);
    assert_eq!(account_names("x = 1").unwrap_err(), "No accounts in config");
    assert_eq!(account_names("accounts = 1").unwrap_err(), "No accounts in config");
    assert_eq!(account_names("x = ").unwrap_err(), "Failed to parse config.toml");
    assert_eq!(read_account(CONFIG, "work").unwrap().app_password, "w");
    assert_eq!(read_account(CONFIG, "none").unwrap_err(), "Missing email");
    let half = "[accounts.a]\nemail = \"x\"";
    assert_eq!(read_account(half, "a").unwrap_err(), "Missing app_password");
}

#[test]
fn items_are_read() {
    let account = parse_account(
        Some(TomlItem::Text("a@b".to_string())),
        Some(TomlItem::Text("p".to_string())),
    )
    .unwrap();
    assert_eq!(account.email, "a@b");
    assert!(parse_account(Some(TomlItem::Other), None).is_err());
    assert_eq!(parse_number(Some(TomlItem::Missing), 5), Some(5));
    assert_eq!(parse_number(Some(TomlItem::Integer(7)), 5), Some(7));
    assert_eq!(parse_number(Some(TomlItem::Boolean(true)), 5), None);
    assert_eq!(parse_flag(Some(TomlItem::Boolean(false)), true), Some(false));
    assert_eq!(parse_flag(None, true), None);
}

fn account(name: &str) -> (String, AccountConfig) {
    (
        name.to_string(),
        AccountConfig {
            email: format!("{name}@example.com"),
            app_password: "p".to_string(),
        },
    )
}

#[test]
fn accounts_are_sorted_whatever_the_case() {
    let sorted = sorted_accounts(vec![account("work"), account("Zoo"), account("Home"), account("home")]);
    let names: Vec<&str> = sorted.iter().map(|a| a.0.as_str()).collect();
    assert_eq!(names, vec!["Home", "home", "work", "Zoo"]);
}

#[test]
fn an_account_is_chosen_by_keys() {
    let mut selection = AccountSelection::new(vec![account("a"), account("b")]);
    assert!(matches!(choose_account(&mut selection, Key::Char('j')), AccountChoice::Open));
    assert!(matches!(choose_account(&mut selection, Key::Down), AccountChoice::Open));
    assert_eq!(selection.selected, 1);
    let rows = AccountSelectWidget::new(&selection).rows(10);
    assert_eq!(rows[1], ("b (b@example.com)".to_string(), true));
    assert!(matches!(choose_account(&mut selection, Key::Up), AccountChoice::Open));
    assert_eq!(selection.selected, 0);
    assert!(matches!(choose_account(&mut selection, Key::Char('k')), AccountChoice::Open));
    match choose_account(&mut selection, Key::Enter) {
        AccountChoice::Chosen(name, account) => {
            assert_eq!(name, "a");
            assert_eq!(account.email, "a@example.com");
        }
        _ => panic!("expected an account"),
    }
    assert!(matches!(choose_account(&mut selection, Key::Char('q')), AccountChoice::Quit));
    let mut empty = AccountSelection::new(vec![]);
    assert!(matches!(choose_account(&mut empty, Key::Enter), AccountChoice::Open));
}

fn args(list: &[&str]) -> Vec<String> {
    list.iter().map(|a| a.to_string()).collect()
}

#[test]
fn arguments_are_read() {
    assert_eq!(startup(&args(&["zeroterm"])), Startup::Mail { debug: false });
    assert_eq!(startup(&args(&["zeroterm", "--debug"])), Startup::Mail { debug: true });
    assert_eq!(startup(&args(&["zeroterm", "--demo"])), Startup::Demo { debug: false });
    assert_eq!(startup(&args(&["zeroterm", "--demo", "-V"])), Startup::Version);
    assert_eq!(startup(&args(&["zeroterm", "--version", "-h"])), Startup::Help);
}
