use gitsock::errors::GitSockError;
use gitsock::registry::{global_git_identity, AccountState, SwitchOutcome};
use gitsock::types::{Account, ActiveAccount};
use gitsock::vault::{decrypt, encrypt, KeyState};

fn account(username: &str, email: &str, alias: Option<&str>, token: Option<Vec<u8>>) -> Account {
    Account {
        username: username.to_string(),
        name: username.to_string(),
        email: email.to_string(),
        ssh_path: None,
        alias: alias.map(|a| a.to_string()),
        token,
        default: false,
    }
}

fn empty_state() -> AccountState {
    AccountState::new(Vec::new(), ActiveAccount::default())
}

#[test]
fn snapshots_are_copies() {
    let mut state = empty_state();
    state.register_account(
        "alice".to_string(),
        "Alice".to_string(),
        "a@e.com".to_string(),
        vec![1, 2, 3],
        None,
    );
    let mut snapshot = state.get_accounts();
    snapshot[0].username = "mallory".to_string();
    assert_eq!(state.get_accounts()[0].username, "alice");
    let mut active = state.get_active_account();
    active.username = "mallory".to_string();
    assert_eq!(state.get_active_account().username, "alice");
}

#[test]
fn registering_a_new_account_converges_the_active_record() {
    let mut state = empty_state();
    let is_new = state.register_account(
        "dev1".to_string(),
        "Dev One".to_string(),
        "d@e.com".to_string(),
        vec![0xde, 0xad],
        None,
    );
    assert!(is_new);
    let accounts = state.get_accounts();
    assert_eq!(accounts.len(), 1);
    assert_eq!(accounts[0].username, "dev1");
    assert_eq!(accounts[0].token, Some(vec![0xde, 0xad]));
    let active = state.get_active_account();
    assert_eq!(active.username, "dev1");
    assert_eq!(active.email, "d@e.com");
}

#[test]
fn registering_a_duplicate_username_changes_nothing() {
    let mut state = empty_state();
    assert!(state.register_account(
        "dev1".to_string(),
        "Dev".to_string(),
        "d@e.com".to_string(),
        vec![1],
        None,
    ));
    let before = state.get_accounts();
    let second = state.register_account(
        "dev1".to_string(),
        "Other".to_string(),
        "other@e.com".to_string(),
        vec![2],
        Some("alt".to_string()),
    );
    assert!(!second);
    let after = state.get_accounts();
    assert_eq!(after.len(), before.len());
    assert_eq!(after[0].email, "d@e.com");
    assert_eq!(after[0].token, Some(vec![1]));
}

#[test]
fn end_to_end_new_account_scenario() {
    let key = KeyState::generate();
    let token_plain: Vec<u8> = b"gho_dev1_token".to_vec();
    let encrypted = encrypt(&key, &token_plain);
    let mut state = empty_state();
    let is_new = state.register_account(
        "dev1".to_string(),
        "Dev One".to_string(),
        "d@e.com".to_string(),
        encrypted.clone(),
        None,
    );
    assert!(is_new);
    let accounts = state.get_accounts();
    assert_eq!(accounts.len(), 1);
    assert_eq!(accounts[0].username, "dev1");
    let stored = accounts[0].token.clone().unwrap();
    assert_ne!(stored, token_plain);
    assert_eq!(decrypt(&key, &stored), Ok(token_plain));
    let active = state.get_active_account();
    assert_eq!(active.username, "dev1");
    let (git_name, git_email) = global_git_identity(&active);
    assert_eq!(git_name, "dev1");
    assert_eq!(git_email, "d@e.com");
}

#[test]
fn noop_mutator_leaves_the_registry_unchanged() {
    let mut state = empty_state();
    state.register_account(
        "alice".to_string(),
        "Alice".to_string(),
        "a@e.com".to_string(),
        vec![1],
        Some("home".to_string()),
    );
    let before = state.get_accounts();
    state.update_accounts(|accounts: &Vec<Account>| accounts.clone());
    let after = state.get_accounts();
    assert_eq!(after.len(), before.len());
    assert_eq!(after[0].username, before[0].username);
    assert_eq!(after[0].email, before[0].email);
    assert_eq!(after[0].alias, before[0].alias);
    assert_eq!(after[0].token, before[0].token);
}

#[test]
fn update_accounts_applies_the_mutation() {
    let mut state = empty_state();
    state.update_accounts(|accounts: &Vec<Account>| {
        let mut next = accounts.clone();
        next.push(account("bob", "b@e.com", None, None));
        next
    });
    assert_eq!(state.get_accounts().len(), 1);
    assert_eq!(state.get_accounts()[0].username, "bob");
}

#[test]
fn update_account_touches_only_the_named_account() {
    let mut state = AccountState::new(
        vec![
            account("alice", "a@e.com", None, None),
            account("bob", "b@e.com", None, None),
        ],
        ActiveAccount::default(),
    );
    let updated = state.update_account("bob", |a: &Account| {
        let mut next = a.clone();
        next.ssh_path = Some("/home/u/.ssh/github_bob".to_string());
        next
    });
    let snapshot = updated.expect("bob exists");
    assert_eq!(snapshot.username, "bob");
    assert_eq!(snapshot.ssh_path.as_deref(), Some("/home/u/.ssh/github_bob"));
    let accounts = state.get_accounts();
    assert_eq!(accounts[0].ssh_path, None);
    assert_eq!(accounts[1].ssh_path.as_deref(), Some("/home/u/.ssh/github_bob"));
}

#[test]
fn update_account_for_unknown_username_is_none() {
    let mut state = empty_state();
    let updated = state.update_account("ghost", |a: &Account| a.clone());
    assert!(updated.is_none());
}

#[test]
fn update_active_account_reports_the_identity_to_mirror() {
    let mut state = empty_state();
    let snapshot = state.update_active_account(|a: &ActiveAccount| {
        let mut next = a.clone();
        next.username = "carol".to_string();
        next.email = "c@e.com".to_string();
        next
    });
    assert_eq!(snapshot.username, "carol");
    let (git_name, git_email) = global_git_identity(&snapshot);
    assert_eq!(git_name, "carol");
    assert_eq!(git_email, "c@e.com");
    assert_eq!(state.get_active_account().username, "carol");
}

#[test]
fn removal_is_acknowledged_only_with_a_stored_token() {
    let state = AccountState::new(
        vec![
            account("alice", "a@e.com", None, Some(vec![1, 2])),
            account("bob", "b@e.com", None, Some(Vec::new())),
            account("carol", "c@e.com", None, None),
        ],
        ActiveAccount::default(),
    );
    assert_eq!(state.remove_account("alice"), Ok(()));
    assert_eq!(state.remove_account("bob"), Err(GitSockError::NotFound));
    assert_eq!(state.remove_account("carol"), Err(GitSockError::NotFound));
    assert_eq!(state.remove_account("ghost"), Err(GitSockError::NotFound));
}

#[test]
fn removal_falls_back_to_the_active_record() {
    let active = ActiveAccount {
        username: "alice".to_string(),
        email: "a@e.com".to_string(),
        alias: None,
        token: Some(vec![7]),
    };
    let state = AccountState::new(Vec::new(), active);
    assert_eq!(state.remove_account("alice"), Ok(()));
    assert_eq!(state.remove_account("bob"), Err(GitSockError::NotFound));
}

#[test]
fn switching_to_the_active_account_is_a_no_op() {
    let active = ActiveAccount {
        username: "alice".to_string(),
        email: "a@e.com".to_string(),
        alias: Some("home".to_string()),
        token: None,
    };
    let mut state = AccountState::new(vec![account("alice", "a@e.com", Some("home"), None)], active);
    assert!(matches!(state.switch_account("alice", false), SwitchOutcome::AlreadyActive));
    assert!(matches!(state.switch_account("home", false), SwitchOutcome::AlreadyActive));
}

#[test]
fn switching_to_an_unknown_account_reports_not_found() {
    let mut state = empty_state();
    assert!(matches!(state.switch_account("ghost", false), SwitchOutcome::NotFound));
}

#[test]
fn local_switch_leaves_the_registry_alone() {
    let mut state = AccountState::new(
        vec![account("bob", "b@e.com", Some("work"), None)],
        ActiveAccount::default(),
    );
    match state.switch_account("work", true) {
        SwitchOutcome::SwitchedLocal(a) => {
            assert_eq!(a.username, "bob");
            assert_eq!(a.email, "b@e.com");
        },
        other => panic!("expected a local switch, got {:?}", kind_of(&other)),
    }
    assert_eq!(state.get_active_account().username, "");
}

#[test]
fn global_switch_installs_the_account() {
    let mut state = AccountState::new(
        vec![account("bob", "b@e.com", Some("work"), Some(vec![9]))],
        ActiveAccount::default(),
    );
    match state.switch_account("bob", false) {
        SwitchOutcome::SwitchedGlobal(active) => {
            assert_eq!(active.username, "bob");
            assert_eq!(active.email, "b@e.com");
            assert_eq!(active.alias.as_deref(), Some("work"));
            assert_eq!(active.token, Some(vec![9]));
        },
        other => panic!("expected a global switch, got {:?}", kind_of(&other)),
    }
    assert_eq!(state.get_active_account().username, "bob");
}

fn kind_of(outcome: &SwitchOutcome) -> &'static str {
    match outcome {
        SwitchOutcome::AlreadyActive => "AlreadyActive",
        SwitchOutcome::SwitchedGlobal(_) => "SwitchedGlobal",
        SwitchOutcome::SwitchedLocal(_) => "SwitchedLocal",
        SwitchOutcome::NotFound => "NotFound",
    }
}
