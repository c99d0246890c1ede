//! The account registry: the list of known accounts and the single active
//! account, the unit of consistency of this system.  The caller serializes
//! all access through one process-wide lock and persists every mutation
//! before releasing it; this module holds the state and the mutation logic,
//! each operation with an exact contract over the registry's model.

use vstd::prelude::*;
use vstd::pervasive::VecAdditionalExecFns;

use crate::errors::GitSockError;
use crate::text::str_equal;
use crate::types::{Account, AccountV, ActiveAccount, ActiveAccountV, opt_str_view};

verus! {

/// The model of the whole registry: the account list and the active record.
pub struct AccountStateV {
    pub accounts: Seq<AccountV>,
    pub active_account: ActiveAccountV,
}

/// The in-memory registry state: the account list and the active account,
/// owned exclusively for the process lifetime.
pub struct AccountState {
    pub accounts: Vec<Account>,
    pub active_account: ActiveAccount,
}

/// The models of a list of accounts.
pub open spec fn accounts_views(accounts: Seq<Account>) -> Seq<AccountV> {
    accounts.map_values(|a: Account| a@)
}

impl View for AccountState {
    type V = AccountStateV;

    open spec fn view(&self) -> AccountStateV {
        AccountStateV {
            accounts: accounts_views(self.accounts@),
            active_account: self.active_account@,
        }
    }
}

/// Some account in `accounts` has username `u`.
pub open spec fn has_username(accounts: Seq<AccountV>, u: Seq<char>) -> bool {
    exists|i: int| 0 <= i < accounts.len() && accounts[i].username == u
}

/// `key` selects account `a`, either as its username or as its alias.
pub open spec fn account_matches_key(a: AccountV, key: Seq<char>) -> bool {
    a.username == key || a.alias == Some(key)
}

/// A token blob that is present and not empty.
pub open spec fn nonempty_token(t: Option<Seq<u8>>) -> bool {
    match t {
        Some(b) => b.len() > 0,
        None => false,
    }
}

/// The first account whose username is `u` carries a nonempty token.
pub open spec fn first_match_has_token(accounts: Seq<AccountV>, u: Seq<char>) -> bool {
    exists|i: int|
        0 <= i < accounts.len() && accounts[i].username == u && (forall|j: int|
            0 <= j < i ==> accounts[j].username != u) && nonempty_token(accounts[i].token)
}

/// A removal request for `u` is acknowledged when the stored record it
/// consults carries a nonempty encrypted token: the first account with that
/// username if one exists, the active record otherwise.
pub open spec fn removal_acknowledged(s: AccountStateV, u: Seq<char>) -> bool {
    if has_username(s.accounts, u) {
        first_match_has_token(s.accounts, u)
    } else {
        s.active_account.username == u && nonempty_token(s.active_account.token)
    }
}

/// The model of the account record that registration appends.
pub open spec fn registered_account(
    login: Seq<char>,
    name: Seq<char>,
    email: Seq<char>,
    token: Seq<u8>,
    alias: Option<Seq<char>>,
) -> AccountV {
    AccountV {
        username: login,
        name: name,
        email: email,
        ssh_path: None,
        alias: alias,
        token: Some(token),
        default: false,
    }
}

/// The model of the active record that registration installs.
pub open spec fn registered_active(
    login: Seq<char>,
    email: Seq<char>,
    token: Seq<u8>,
    alias: Option<Seq<char>>,
) -> ActiveAccountV {
    ActiveAccountV { username: login, email: email, alias: alias, token: Some(token) }
}

/// `i` is the position of the first account that `key` selects.
pub open spec fn is_first_match(accounts: Seq<AccountV>, key: Seq<char>, i: int) -> bool {
    &&& 0 <= i < accounts.len()
    &&& account_matches_key(accounts[i], key)
    &&& forall|j: int| 0 <= j < i ==> !account_matches_key(accounts[j], key)
}

/// The first account of the list that `key` selects by username or alias.
pub fn find_in_accounts(accounts: &Vec<Account>, key: &str) -> (r: Option<usize>)
    ensures
        match r {
            Some(i) => is_first_match(accounts_views(accounts@), key@, i as int),
            None => forall|j: int|
                0 <= j < accounts@.len() ==> !account_matches_key(
                    accounts_views(accounts@)[j],
                    key@,
                ),
        },
{
    let mut i: usize = 0;
    while i < accounts.len()
        invariant
            i <= accounts@.len(),
            forall|j: int| 0 <= j < i ==> !account_matches_key(accounts_views(accounts@)[j], key@),
        decreases accounts@.len() - i,
    {
        let a = &accounts[i];
        let by_username = str_equal(a.username.as_str(), key);
        let by_alias = match &a.alias {
            Some(al) => str_equal(al.as_str(), key),
            None => false,
        };
        if by_username || by_alias {
            return Some(i);
        }
        i += 1;
    }
    None
}

/// `key` selects the active record, by username or alias.
pub open spec fn active_matches_key(act: ActiveAccountV, key: Seq<char>) -> bool {
    act.username == key || act.alias == Some(key)
}

/// No account of the list is selected by `key`.
pub open spec fn no_account_matches(accounts: Seq<AccountV>, key: Seq<char>) -> bool {
    forall|j: int| 0 <= j < accounts.len() ==> !account_matches_key(accounts[j], key)
}

/// The active record that mirrors account `a`.
pub open spec fn active_from_account(a: AccountV) -> ActiveAccountV {
    ActiveAccountV { username: a.username, email: a.email, alias: a.alias, token: a.token }
}

/// `v` is the first account of the list that `key` selects.
pub open spec fn first_match_gives(accounts: Seq<AccountV>, key: Seq<char>, v: AccountV) -> bool {
    exists|i: int| is_first_match(accounts, key, i) && v == accounts[i]
}

/// `v` mirrors the first account of the list that `key` selects.
pub open spec fn first_match_activates(
    accounts: Seq<AccountV>,
    key: Seq<char>,
    v: ActiveAccountV,
) -> bool {
    exists|i: int| is_first_match(accounts, key, i) && v == active_from_account(accounts[i])
}

/// What switching to `key` did, and what the caller still has to mirror into
/// the host's git configuration.
pub enum SwitchOutcome {
    /// The requested account is already the active one; nothing changed.
    AlreadyActive,
    /// The active record now holds the account; mirror its username and
    /// email into the global git identity and persist the record.
    SwitchedGlobal(ActiveAccount),
    /// Registry unchanged; set the repository-local git identity to this
    /// account's username and email.
    SwitchedLocal(Account),
    /// No account has `key` as username or alias; nothing changed.
    NotFound,
}

impl AccountState {
    /// A registry assembled from loaded (or freshly materialized) records.
    pub fn new(accounts: Vec<Account>, active_account: ActiveAccount) -> (r: AccountState)
        ensures
            r@.accounts == accounts_views(accounts@),
            r@.active_account == active_account@,
    {
        AccountState { accounts, active_account }
    }

    /// A snapshot copy of the account list; no aliasing of the live state.
    pub fn get_accounts(&self) -> (r: Vec<Account>)
        ensures
            accounts_views(r@) == self@.accounts,
    {
        let mut r: Vec<Account> = Vec::new();
        let mut i: usize = 0;
        while i < self.accounts.len()
            invariant
                i <= self.accounts@.len(),
                r@.len() == i,
                forall|j: int| 0 <= j < i ==> r@[j]@ == self.accounts@[j]@,
            decreases self.accounts@.len() - i,
        {
            r.push(self.accounts[i].duplicate());
            i += 1;
        }
        proof {
            assert(accounts_views(r@) =~= self@.accounts);
        }
        r
    }

    /// A snapshot copy of the active record.
    pub fn get_active_account(&self) -> (r: ActiveAccount)
        ensures
            r@ == self@.active_account,
    {
        self.active_account.duplicate()
    }

    /// The first account that `key` selects by username or alias, if any.
    pub fn find_account(&self, key: &str) -> (r: Option<usize>)
        ensures
            match r {
                Some(i) => i < self@.accounts.len() && account_matches_key(
                    self@.accounts[i as int],
                    key@,
                ) && (forall|j: int|
                    0 <= j < i ==> !account_matches_key(self@.accounts[j], key@)),
                None => forall|j: int|
                    0 <= j < self@.accounts.len() ==> !account_matches_key(
                        self@.accounts[j],
                        key@,
                    ),
            },
    {
        find_in_accounts(&self.accounts, key)
    }

    /// Apply an arbitrary mutation to the account list.  The caller holds
    /// the registry lock across this call and persists the whole list before
    /// releasing it.  If the mutator hands its input back unchanged, the
    /// registry is unchanged.
    pub fn update_accounts<F: FnOnce(&Vec<Account>) -> Vec<Account>>(&mut self, f: F)
        requires
            call_requires(f, (&old(self).accounts,)),
        ensures
            call_ensures(f, (&old(self).accounts,), final(self).accounts),
            final(self)@.active_account == old(self)@.active_account,
    {
        let updated = f(&self.accounts);
        self.accounts = updated;
    }

    /// Apply a mutation to the first account with exactly this username (not
    /// alias) and hand back a snapshot of the updated record, or `None`,
    /// leaving everything unchanged, when the username is unknown.
    pub fn update_account<F: FnOnce(&Account) -> Account>(
        &mut self,
        username: &str,
        f: F,
    ) -> (r: Option<Account>)
        requires
            forall|a: &Account| a@.username == username@ ==> #[trigger] call_requires(f, (a,)),
        ensures
            !has_username(old(self)@.accounts, username@) ==> r is None && final(self)@
                == old(self)@,
            has_username(old(self)@.accounts, username@) ==> (r matches Some(snapshot)
                && exists|i: int|
                    0 <= i < old(self)@.accounts.len()
                        && old(self)@.accounts[i].username == username@ && (forall|j: int|
                        0 <= j < i ==> old(self)@.accounts[j].username != username@)
                        && call_ensures(
                        f,
                        (&old(self).accounts@[i],),
                        final(self).accounts@[i],
                    ) && final(self).accounts@ =~= old(self).accounts@.update(
                        i,
                        final(self).accounts@[i],
                    ) && snapshot@ == final(self)@.accounts[i]),
            final(self)@.active_account == old(self)@.active_account,
    {
        let mut i: usize = 0;
        while i < self.accounts.len()
            invariant
                *self == *old(self),
                forall|a: &Account| a@.username == username@ ==> #[trigger] call_requires(f, (a,)),
                i <= self.accounts@.len(),
                forall|j: int| 0 <= j < i ==> self@.accounts[j].username != username@,
            decreases self.accounts@.len() - i,
        {
            if str_equal(self.accounts[i].username.as_str(), username) {
                proof {
                    assert(call_requires(f, (&self.accounts@[i as int],)));
                }
                let updated = f(&self.accounts[i]);
                self.accounts.set(i, updated);
                let snapshot = self.accounts[i].duplicate();
                proof {
                    let ghost idx = i as int;
                    assert(self.accounts@ =~= old(self).accounts@.update(
                        idx,
                        self.accounts@[idx],
                    ));
                    assert(0 <= idx < old(self)@.accounts.len());
                    assert(old(self)@.accounts[idx].username == username@);
                    assert(self@.accounts =~= old(self)@.accounts.update(idx, self@.accounts[idx]));
                }
                return Some(snapshot);
            }
            i += 1;
        }
        None
    }

    /// Apply a mutation to the active record and hand back a snapshot of the
    /// result.  The caller must then mirror the snapshot's username and email
    /// into the host's global git identity and persist the record — that
    /// propagation is the named post-condition of this operation, performed
    /// at its side because this module does not run processes.
    pub fn update_active_account<F: FnOnce(&ActiveAccount) -> ActiveAccount>(
        &mut self,
        f: F,
    ) -> (r: ActiveAccount)
        requires
            call_requires(f, (&old(self).active_account,)),
        ensures
            call_ensures(f, (&old(self).active_account,), final(self).active_account),
            r@ == final(self)@.active_account,
            final(self)@.accounts == old(self)@.accounts,
    {
        let updated = f(&self.active_account);
        self.active_account = updated;
        self.active_account.duplicate()
    }

    /// Onboard a freshly authorized identity: append an account record for
    /// `login` — with the vault-encrypted token, never plaintext — unless the
    /// username is already registered, in which case nothing changes and the
    /// conflict is reported by returning `false`.  When the account is new
    /// and not already the active identity, the active record converges to
    /// it.
    pub fn register_account(
        &mut self,
        login: String,
        name: String,
        email: String,
        encrypted_token: Vec<u8>,
        alias: Option<String>,
    ) -> (r: bool)
        ensures
            r == !has_username(old(self)@.accounts, login@),
            !r ==> final(self)@ == old(self)@,
            r ==> final(self)@.accounts =~= old(self)@.accounts.push(
                registered_account(login@, name@, email@, encrypted_token@, opt_str_view(alias)),
            ),
            r && old(self)@.active_account.username != login@ ==> final(self)@.active_account
                == registered_active(login@, email@, encrypted_token@, opt_str_view(alias)),
            r && old(self)@.active_account.username == login@ ==> final(self)@.active_account
                == old(self)@.active_account,
    {
        let mut i: usize = 0;
        while i < self.accounts.len()
            invariant
                *self == *old(self),
                i <= self.accounts@.len(),
                forall|j: int| 0 <= j < i ==> self@.accounts[j].username != login@,
            decreases self.accounts@.len() - i,
        {
            if str_equal(self.accounts[i].username.as_str(), login.as_str()) {
                proof {
                    assert(0 <= i < self@.accounts.len() && self@.accounts[i as int].username
                        == login@);
                }
                return false;
            }
            i += 1;
        }
        let ghost login_v = login@;
        let ghost name_v = name@;
        let ghost email_v = email@;
        let ghost token_v = encrypted_token@;
        let ghost alias_v = opt_str_view(alias);
        let account = Account {
            username: login.clone(),
            name,
            email: email.clone(),
            ssh_path: None,
            alias: crate::types::copy_opt_string(&alias),
            token: Some(crate::types::copy_bytes(&encrypted_token)),
            default: false,
        };
        self.accounts.push(account);
        if !str_equal(self.active_account.username.as_str(), login.as_str()) {
            self.active_account = ActiveAccount {
                username: login,
                email,
                alias,
                token: Some(encrypted_token),
            };
        }
        proof {
            assert(self@.accounts =~= old(self)@.accounts.push(
                registered_account(login_v, name_v, email_v, token_v, alias_v),
            ));
        }
        true
    }

    /// Acknowledge a removal request: succeeds exactly when the consulted
    /// record — the first account with this username, else the active record
    /// — carries a nonempty encrypted token; otherwise the username is
    /// reported unknown.  The stored state is not modified.
    pub fn remove_account(&self, username: &str) -> (r: Result<(), GitSockError>)
        ensures
            r matches Ok(()) ==> removal_acknowledged(self@, username@),
            r matches Err(e) ==> e == GitSockError::NotFound && !removal_acknowledged(
                self@,
                username@,
            ),
    {
        let mut i: usize = 0;
        while i < self.accounts.len()
            invariant
                i <= self.accounts@.len(),
                forall|j: int| 0 <= j < i ==> self@.accounts[j].username != username@,
            decreases self.accounts@.len() - i,
        {
            if str_equal(self.accounts[i].username.as_str(), username) {
                let has = match &self.accounts[i].token {
                    Some(t) => t.len() > 0,
                    None => false,
                };
                proof {
                    let ghost idx = i as int;
                    assert(self@.accounts[idx].username == username@);
                    assert(has == nonempty_token(self@.accounts[idx].token));
                    if has {
                        assert(first_match_has_token(self@.accounts, username@));
                    } else {
                        assert forall|k: int|
                            0 <= k < self@.accounts.len() && self@.accounts[k].username
                                == username@ && (forall|j: int|
                                0 <= j < k ==> self@.accounts[j].username != username@)
                                implies !nonempty_token(self@.accounts[k].token) by {
                            if k < idx {
                                assert(self@.accounts[k].username != username@);
                            } else if k > idx {
                                assert(self@.accounts[idx].username == username@);
                            }
                        }
                        assert(!first_match_has_token(self@.accounts, username@));
                    }
                }
                if has {
                    return Ok(());
                } else {
                    return Err(GitSockError::NotFound);
                }
            }
            i += 1;
        }
        if str_equal(self.active_account.username.as_str(), username) {
            let has = match &self.active_account.token {
                Some(t) => t.len() > 0,
                None => false,
            };
            if has {
                return Ok(());
            }
        }
        Err(GitSockError::NotFound)
    }

    /// Switch the selected identity to the account that `key` names by
    /// username or alias.  Already-active and unknown keys change nothing; a
    /// local switch changes nothing but tells the caller which identity to
    /// set for the current repository; a global switch installs the account
    /// into the active record, which the caller persists and mirrors into
    /// the global git identity.
    pub fn switch_account(&mut self, key: &str, local: bool) -> (r: SwitchOutcome)
        ensures
            active_matches_key(old(self)@.active_account, key@) ==> (r matches
                SwitchOutcome::AlreadyActive && final(self)@ == old(self)@),
            (!active_matches_key(old(self)@.active_account, key@) && no_account_matches(
                old(self)@.accounts,
                key@,
            )) ==> (r matches SwitchOutcome::NotFound && final(self)@ == old(self)@),
            r matches SwitchOutcome::SwitchedLocal(a) ==> (local && final(self)@ == old(self)@
                && first_match_gives(old(self)@.accounts, key@, a@)),
            r matches SwitchOutcome::SwitchedGlobal(act) ==> (!local
                && act@ == final(self)@.active_account
                && final(self)@.accounts == old(self)@.accounts
                && first_match_activates(old(self)@.accounts, key@, act@)),
            forall|i: int|
                (!active_matches_key(old(self)@.active_account, key@) && is_first_match(
                    old(self)@.accounts,
                    key@,
                    i,
                )) ==> ((local ==> (r matches SwitchOutcome::SwitchedLocal(a) && a@ == old(
                    self,
                )@.accounts[i])) && (!local ==> (r matches SwitchOutcome::SwitchedGlobal(act)
                    && act@ == active_from_account(old(self)@.accounts[i])))),
    {
        let already = {
            let by_username = str_equal(self.active_account.username.as_str(), key);
            let by_alias = match &self.active_account.alias {
                Some(al) => str_equal(al.as_str(), key),
                None => false,
            };
            by_username || by_alias
        };
        if already {
            return SwitchOutcome::AlreadyActive;
        }
        match self.find_account(key) {
            None => SwitchOutcome::NotFound,
            Some(i) => {
                proof {
                    assert forall|i2: int|
                        is_first_match(old(self)@.accounts, key@, i2) implies i2 == i as int by {
                        if i2 < i as int {
                            assert(!account_matches_key(old(self)@.accounts[i2], key@));
                        } else if i2 > i as int {
                            assert(account_matches_key(old(self)@.accounts[i as int], key@));
                        }
                    }
                }
                if local {
                    let snapshot = self.accounts[i].duplicate();
                    proof {
                        assert(snapshot@ == old(self)@.accounts[i as int]);
                    }
                    SwitchOutcome::SwitchedLocal(snapshot)
                } else {
                    let a = &self.accounts[i];
                    self.active_account = ActiveAccount {
                        username: a.username.clone(),
                        email: a.email.clone(),
                        alias: crate::types::copy_opt_string(&a.alias),
                        token: crate::types::copy_opt_bytes(&a.token),
                    };
                    let snapshot = self.active_account.duplicate();
                    proof {
                        assert(is_first_match(old(self)@.accounts, key@, i as int));
                        assert(snapshot@ == active_from_account(old(self)@.accounts[i as int]));
                    }
                    SwitchOutcome::SwitchedGlobal(snapshot)
                }
            },
        }
    }
}

/// The global git identity that the host must carry after an active-record
/// update: the record's username and email, exactly.
pub fn global_git_identity(active: &ActiveAccount) -> (r: (String, String))
    ensures
        r.0@ == active@.username,
        r.1@ == active@.email,
{
    (active.username.clone(), active.email.clone())
}

/// Law: an account list to which a record with username `u` was appended has
/// username `u`; so, by `register_account`'s contract, registering the same
/// username a second time reports the conflict and leaves the registry
/// unchanged.
pub proof fn lemma_duplicate_registration_rejected(accounts: Seq<AccountV>, a: AccountV)
    ensures
        has_username(accounts.push(a), a.username),
{
    assert(accounts.push(a)[accounts.len() as int].username == a.username);
}

/// Law: a mutator that can only hand the account list back unchanged leaves
/// the registry's account list — and so the persisted file's semantic value —
/// unchanged.
pub proof fn lemma_noop_mutator_preserves_accounts<F: FnOnce(&Vec<Account>) -> Vec<Account>>(
    f: F,
    before: Vec<Account>,
    after: Vec<Account>,
)
    requires
        call_ensures(f, (&before,), after),
        forall|w: Vec<Account>| call_ensures(f, (&before,), w) ==> w@ == before@,
    ensures
        after@ == before@,
{
}

} // verus!
