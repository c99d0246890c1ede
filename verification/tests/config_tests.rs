use gitsock::cli::{AccountCommands, Commands, GitSockCli};
use gitsock::config::{expand_home, get_key_as_file, Config};

fn config() -> Config {
    Config {
        accounts: ".config/accounts.json".to_string(),
        active_account: ".config/active.json".to_string(),
        token: ".secret/token.bin".to_string(),
        secret: ".secret/secret.bin".to_string(),
        ssh_path: ".ssh".to_string(),
    }
}

#[test]
fn every_logical_key_resolves_to_its_path() {
    let c = config();
    assert_eq!(get_key_as_file(&c, "accounts").as_deref(), Some(".config/accounts.json"));
    assert_eq!(get_key_as_file(&c, "active_account").as_deref(), Some(".config/active.json"));
    assert_eq!(get_key_as_file(&c, "token").as_deref(), Some(".secret/token.bin"));
    assert_eq!(get_key_as_file(&c, "secret").as_deref(), Some(".secret/secret.bin"));
    assert_eq!(get_key_as_file(&c, "ssh_path").as_deref(), Some(".ssh"));
}

#[test]
fn unknown_keys_resolve_to_nothing() {
    let c = config();
    assert_eq!(get_key_as_file(&c, "nonsense"), None);
    assert_eq!(get_key_as_file(&c, ""), None);
}

#[test]
fn tilde_prefixes_expand_into_home() {
    assert_eq!(expand_home("~/gitsock/config.json", Some("/home/u")), "/home/u/gitsock/config.json");
    assert_eq!(expand_home("~/x", Some("/root")), "/root/x");
}

#[test]
fn other_paths_pass_through() {
    assert_eq!(expand_home("/absolute/path", Some("/home/u")), "/absolute/path");
    assert_eq!(expand_home("relative/path", Some("/home/u")), "relative/path");
    assert_eq!(expand_home("~/x", None), "~/x");
    assert_eq!(expand_home("~", Some("/home/u")), "~");
}

#[test]
fn the_command_surface_is_plain_data() {
    let cli = GitSockCli { command: Commands::Account(AccountCommands::Remove {
        username: "bob".to_string(),
    }) };
    match cli.command {
        Commands::Account(AccountCommands::Remove { username }) => assert_eq!(username, "bob"),
        _ => panic!("expected the remove command"),
    }
    let use_cmd = Commands::Use { username: "alice".to_string(), local: true };
    match use_cmd {
        Commands::Use { username, local } => {
            assert_eq!(username, "alice");
            assert!(local);
        },
        _ => panic!("expected the use command"),
    }
}
