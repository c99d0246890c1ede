//! The persisted identity records: `Account` (one entry of the registry) and
//! `ActiveAccount` (the single currently selected identity).

use vstd::prelude::*;

verus! {

/// A stored GitHub identity.  `username` is the unique key within the
/// registry; `token`, when present, is always the vault-encrypted blob, never
/// plaintext; `alias` is an optional alternate lookup key used for SSH host
/// aliasing; `default` marks the account that uses the unaliased SSH host.
#[derive(Debug, Clone)]
pub struct Account {
    pub username: String,
    pub name: String,
    pub email: String,
    pub ssh_path: Option<String>,
    pub alias: Option<String>,
    pub token: Option<Vec<u8>>,
    pub default: bool,
}

/// The mathematical model of an `Account`: every field as a plain sequence.
pub struct AccountV {
    pub username: Seq<char>,
    pub name: Seq<char>,
    pub email: Seq<char>,
    pub ssh_path: Option<Seq<char>>,
    pub alias: Option<Seq<char>>,
    pub token: Option<Seq<u8>>,
    pub default: bool,
}

/// The single currently selected identity, mirrored into the host's global
/// git configuration.  Empty `username`/`email` mean "unset", not a valid
/// account.
#[derive(Debug, Clone)]
pub struct ActiveAccount {
    pub username: String,
    pub email: String,
    pub alias: Option<String>,
    pub token: Option<Vec<u8>>,
}

/// The mathematical model of an `ActiveAccount`.
pub struct ActiveAccountV {
    pub username: Seq<char>,
    pub email: Seq<char>,
    pub alias: Option<Seq<char>>,
    pub token: Option<Seq<u8>>,
}

pub open spec fn opt_str_view(o: Option<String>) -> Option<Seq<char>> {
    match o {
        Some(s) => Some(s@),
        None => None,
    }
}

pub open spec fn opt_bytes_view(o: Option<Vec<u8>>) -> Option<Seq<u8>> {
    match o {
        Some(v) => Some(v@),
        None => None,
    }
}

impl View for Account {
    type V = AccountV;

    open spec fn view(&self) -> AccountV {
        AccountV {
            username: self.username@,
            name: self.name@,
            email: self.email@,
            ssh_path: opt_str_view(self.ssh_path),
            alias: opt_str_view(self.alias),
            token: opt_bytes_view(self.token),
            default: self.default,
        }
    }
}

impl View for ActiveAccount {
    type V = ActiveAccountV;

    open spec fn view(&self) -> ActiveAccountV {
        ActiveAccountV {
            username: self.username@,
            email: self.email@,
            alias: opt_str_view(self.alias),
            token: opt_bytes_view(self.token),
        }
    }
}

/// Copy a byte vector; unlike the derived clone, the copy is known to hold
/// the same bytes.
pub fn copy_bytes(v: &Vec<u8>) -> (r: Vec<u8>)
    ensures
        r@ == v@,
{
    let mut r: Vec<u8> = Vec::new();
    let mut i: usize = 0;
    while i < v.len()
        invariant
            i <= v@.len(),
            r@ == v@.take(i as int),
        decreases v@.len() - i,
    {
        r.push(v[i]);
        i += 1;
        proof {
            assert(r@ =~= v@.take(i as int));
        }
    }
    proof {
        assert(r@ =~= v@);
    }
    r
}

pub fn copy_opt_string(o: &Option<String>) -> (r: Option<String>)
    ensures
        opt_str_view(r) == opt_str_view(*o),
{
    match o {
        Some(s) => Some(s.clone()),
        None => None,
    }
}

pub fn copy_opt_bytes(o: &Option<Vec<u8>>) -> (r: Option<Vec<u8>>)
    ensures
        opt_bytes_view(r) == opt_bytes_view(*o),
{
    match o {
        Some(v) => Some(copy_bytes(v)),
        None => None,
    }
}

impl Account {
    /// A field-for-field copy whose model equals this account's model.
    pub fn duplicate(&self) -> (r: Account)
        ensures
            r@ == self@,
    {
        Account {
            username: self.username.clone(),
            name: self.name.clone(),
            email: self.email.clone(),
            ssh_path: copy_opt_string(&self.ssh_path),
            alias: copy_opt_string(&self.alias),
            token: copy_opt_bytes(&self.token),
            default: self.default,
        }
    }
}

impl ActiveAccount {
    /// A field-for-field copy whose model equals this record's model.
    pub fn duplicate(&self) -> (r: ActiveAccount)
        ensures
            r@ == self@,
    {
        ActiveAccount {
            username: self.username.clone(),
            email: self.email.clone(),
            alias: copy_opt_string(&self.alias),
            token: copy_opt_bytes(&self.token),
        }
    }

    /// Whether this record denotes an actual identity: empty `username` and
    /// `email` mean no account has been activated yet.
    pub fn is_set(&self) -> (r: bool)
        ensures
            r == (self@.username.len() != 0 || self@.email.len() != 0),
    {
        !self.username.as_str().is_empty() || !self.email.as_str().is_empty()
    }
}

impl Default for ActiveAccount {
    /// The record meaning "no active account yet": all fields unset.
    fn default() -> (r: ActiveAccount)
        ensures
            r@.username.len() == 0,
            r@.email.len() == 0,
            r@.alias is None,
            r@.token is None,
    {
        ActiveAccount { username: String::new(), email: String::new(), alias: None, token: None }
    }
}

} // verus!
