use gitsock::ssh_setup::{accounts_with_ssh, has_host_entry, provision_plan, sanitize_alias,
    ssh_config_stanza, ssh_confirms_authentication, ssh_key_filename, ProvisionPlan};
use gitsock::text::trim_spaces;
use gitsock::types::Account;

fn account(username: &str, alias: Option<&str>, ssh_path: Option<&str>) -> Account {
    Account {
        username: username.to_string(),
        name: username.to_string(),
        email: format!("{}@e.com", username),
        ssh_path: ssh_path.map(|p| p.to_string()),
        alias: alias.map(|a| a.to_string()),
        token: None,
        default: false,
    }
}

#[test]
fn hostile_characters_become_underscores() {
    assert_eq!(sanitize_alias("work"), "work");
    assert_eq!(sanitize_alias("my/alias:x"), "my_alias_x");
    assert_eq!(sanitize_alias("a<b>c\"d\\e|f?g*h"), "a_b_c_d_e_f_g_h");
    assert_eq!(sanitize_alias("tab\there"), "tab_here");
    assert_eq!(sanitize_alias(""), "");
}

#[test]
fn key_filenames_carry_the_sanitized_alias() {
    assert_eq!(ssh_key_filename("work"), "github_work");
    assert_eq!(ssh_key_filename("my/alias"), "github_my_alias");
}

#[test]
fn key_filenames_drop_surrounding_whitespace() {
    assert_eq!(ssh_key_filename("  work "), "github_work");
    assert_eq!(ssh_key_filename("\twork\n"), "github_work");
    assert_eq!(ssh_key_filename("   "), "github_");
}

#[test]
fn trimming_removes_only_the_edges() {
    assert_eq!(trim_spaces("  work "), "work");
    assert_eq!(trim_spaces("a b"), "a b");
    assert_eq!(trim_spaces("\t\n x y \r"), "x y");
    assert_eq!(trim_spaces("   "), "");
    assert_eq!(trim_spaces(""), "");
    assert_eq!(trim_spaces("solid"), "solid");
}

#[test]
fn the_remote_confirmation_is_recognized() {
    assert!(ssh_confirms_authentication(
        "Hi bob! You've successfully authenticated, but GitHub does not provide shell access."
    ));
    assert!(!ssh_confirms_authentication("Permission denied (publickey)."));
    assert!(!ssh_confirms_authentication(""));
}

#[test]
fn a_whitespace_alias_plans_the_trimmed_filename() {
    let accounts = vec![account("bob", Some(" work "), None)];
    match provision_plan(&accounts, "bob", false, false, "") {
        ProvisionPlan::Generate { alias, host, key_filename, stanza, .. } => {
            assert_eq!(alias, " work ");
            assert_eq!(host, " work ");
            assert_eq!(key_filename, "github_work");
            assert!(stanza.contains("IdentityFile ~/.ssh/github_work\n"));
        },
        _ => panic!("expected a generation plan"),
    }
}

#[test]
fn the_stanza_has_the_documented_shape() {
    let stanza = ssh_config_stanza("bob", "work", "work", "github_work");
    assert_eq!(
        stanza,
        "\n# GitHub account: bob (work)\nHost work\n    HostName github.com\n    User git\n    IdentityFile ~/.ssh/github_work\n    IdentitiesOnly yes\n\n"
    );
}

#[test]
fn existing_stanzas_are_detected() {
    let config = "Host work\n    HostName github.com\n";
    assert!(has_host_entry(config, "work"));
    assert!(!has_host_entry(config, "home"));
    assert!(!has_host_entry("", "work"));
}

#[test]
fn provisioning_an_unknown_key_reports_not_found() {
    let accounts = vec![account("bob", Some("work"), None)];
    assert!(matches!(
        provision_plan(&accounts, "ghost", false, false, ""),
        ProvisionPlan::NotFound
    ));
}

#[test]
fn provisioning_needs_an_alias() {
    let accounts = vec![account("bob", None, None)];
    assert!(matches!(
        provision_plan(&accounts, "bob", false, false, ""),
        ProvisionPlan::MissingAlias
    ));
}

#[test]
fn an_existing_key_is_never_overwritten() {
    let accounts = vec![account("bob", Some("work"), None)];
    match provision_plan(&accounts, "work", false, true, "") {
        ProvisionPlan::AlreadyProvisioned { alias } => assert_eq!(alias, "work"),
        _ => panic!("expected the existing key to be kept"),
    }
}

#[test]
fn provisioning_plans_every_write_it_needs() {
    let accounts = vec![account("bob", Some("work"), None)];
    match provision_plan(&accounts, "bob", false, false, "") {
        ProvisionPlan::Generate { username, alias, host, key_filename, write_stanza, stanza } => {
            assert_eq!(username, "bob");
            assert_eq!(alias, "work");
            assert_eq!(host, "work");
            assert_eq!(key_filename, "github_work");
            assert!(write_stanza);
            assert_eq!(stanza, ssh_config_stanza("bob", "work", "work", "github_work"));
        },
        _ => panic!("expected a generation plan"),
    }
}

#[test]
fn the_default_flag_targets_the_bare_host() {
    let accounts = vec![account("bob", Some("work"), None)];
    match provision_plan(&accounts, "work", true, false, "") {
        ProvisionPlan::Generate { host, stanza, .. } => {
            assert_eq!(host, "github.com");
            assert!(stanza.contains("\nHost github.com\n"));
        },
        _ => panic!("expected a generation plan"),
    }
}

#[test]
fn an_existing_stanza_is_not_appended_again() {
    let accounts = vec![account("bob", Some("work"), None)];
    let config = "\nHost work\n    HostName github.com\n";
    match provision_plan(&accounts, "bob", false, false, config) {
        ProvisionPlan::Generate { write_stanza, .. } => assert!(!write_stanza),
        _ => panic!("expected a generation plan"),
    }
}

#[test]
fn only_provisioned_accounts_are_listed() {
    let accounts = vec![
        account("alice", Some("home"), Some("/home/u/.ssh/github_home")),
        account("bob", Some("work"), None),
        account("carol", None, Some("/home/u/.ssh/github_carol")),
    ];
    let with_ssh = accounts_with_ssh(&accounts);
    let usernames: Vec<String> = with_ssh.iter().map(|a| a.username.clone()).collect();
    assert_eq!(usernames, vec!["alice".to_string(), "carol".to_string()]);
}
