//! The SSH identity provisioner's decisions: sanitize an alias into a
//! filename, build the client-config stanza, detect an existing stanza, and
//! plan the whole provisioning step — generate only when no key exists,
//! append the stanza only when none is there for this alias.  The caller
//! performs the filesystem writes, the operator prompt and the connection
//! test that the plan calls for.

use vstd::prelude::*;
use vstd::string::{StrSliceExecFns, StringExecFns};

use crate::registry::{account_matches_key, accounts_views, is_first_match, find_in_accounts,
    no_account_matches};
use crate::text::{chars_of, contains_sub, contains_substring, trim_spaces, trimmed};
use crate::types::{Account, AccountV};

verus! {

/// A character that filesystems refuse in names, replaced by the inert `_`:
/// the reserved punctuation, and the control characters.
pub open spec fn is_sanitized_away(c: char) -> bool {
    ||| c == '<'
    ||| c == '>'
    ||| c == ':'
    ||| c == '"'
    ||| c == '/'
    ||| c == '\\'
    ||| c == '|'
    ||| c == '?'
    ||| c == '*'
    ||| (c as u32) < 32
    ||| (127 <= (c as u32) && (c as u32) <= 159)
}

pub open spec fn sanitize_char(c: char) -> char {
    if is_sanitized_away(c) {
        '_'
    } else {
        c
    }
}

/// The alias with every filesystem-hostile character replaced by `_`.
pub open spec fn sanitized(s: Seq<char>) -> Seq<char> {
    s.map_values(|c: char| sanitize_char(c))
}

/// Replace every filesystem-hostile character of the alias by `_`.
pub fn sanitize_alias(alias: &str) -> (r: String)
    ensures
        r@ == sanitized(alias@),
{
    let cv = chars_of(alias);
    let mut r = String::new();
    let mut start: usize = 0;
    let mut i: usize = 0;
    while i < cv.len()
        invariant
            cv@ == alias@,
            start <= i <= cv@.len(),
            r@ == sanitized(alias@.take(start as int)),
            forall|j: int| start <= j < i ==> !is_sanitized_away(alias@[j]),
        decreases cv@.len() - i,
    {
        let c = cv[i];
        let cu = c as u32;
        let bad = c == '<' || c == '>' || c == ':' || c == '"' || c == '/' || c == '\\' || c
            == '|' || c == '?' || c == '*' || cu < 32 || (127 <= cu && cu <= 159);
        if bad {
            let run = alias.substring_char(start, i);
            r.append(run);
            r.append("_");
            proof {
                reveal_strlit("_");
                assert(r@ =~= sanitized(alias@.take(i + 1)));
            }
            start = i + 1;
        }
        i += 1;
    }
    let run = alias.substring_char(start, cv.len());
    r.append(run);
    proof {
        assert(r@ =~= sanitized(alias@));
    }
    r
}

/// The filename of a provisioned key: `github_` then the alias, trimmed of
/// surrounding whitespace and sanitized.
pub open spec fn key_filename_spec(alias: Seq<char>) -> Seq<char> {
    "github_"@ + sanitized(trimmed(alias))
}

/// The filename the key pair for this alias is stored under.
pub fn ssh_key_filename(alias: &str) -> (r: String)
    ensures
        r@ == key_filename_spec(alias@),
{
    let mut r = ("github_").to_owned();
    let clean = trim_spaces(alias);
    let safe = sanitize_alias(clean.as_str());
    r.append(safe.as_str());
    r
}

/// The client-config stanza that maps a host to the provisioned key.
pub open spec fn config_stanza(
    username: Seq<char>,
    alias: Seq<char>,
    host: Seq<char>,
    key_file: Seq<char>,
) -> Seq<char> {
    "\n# GitHub account: "@ + username + " ("@ + alias + ")\nHost "@ + host
        + "\n    HostName github.com\n    User git\n    IdentityFile ~/.ssh/"@ + key_file
        + "\n    IdentitiesOnly yes\n\n"@
}

/// Build the stanza text appended to the SSH client config.
pub fn ssh_config_stanza(username: &str, alias: &str, host: &str, key_file: &str) -> (r: String)
    ensures
        r@ == config_stanza(username@, alias@, host@, key_file@),
{
    let mut r = ("\n# GitHub account: ").to_owned();
    r.append(username);
    r.append(" (");
    r.append(alias);
    r.append(")\nHost ");
    r.append(host);
    r.append("\n    HostName github.com\n    User git\n    IdentityFile ~/.ssh/");
    r.append(key_file);
    r.append("\n    IdentitiesOnly yes\n\n");
    proof {
        assert(r@ =~= config_stanza(username@, alias@, host@, key_file@));
    }
    r
}

/// The text whose presence means a stanza for this alias already exists.
pub open spec fn host_pattern(alias: Seq<char>) -> Seq<char> {
    "Host "@ + alias
}

/// Whether the client config already holds a stanza for this alias.  Config
/// files are append-only here: an existing stanza is never rewritten.
pub fn has_host_entry(config: &str, alias: &str) -> (r: bool)
    ensures
        r == contains_sub(config@, host_pattern(alias@)),
{
    let mut pat = ("Host ").to_owned();
    pat.append(alias);
    contains_substring(config, pat.as_str())
}

/// Whether the remote's reply explicitly confirms that the provisioned
/// identity authenticated.  The confirmation loop keeps re-prompting the
/// operator until one transcript line says so.
pub fn ssh_confirms_authentication(transcript: &str) -> (r: bool)
    ensures
        r == contains_sub(transcript@, "successfully authenticated"@),
{
    contains_substring(transcript, "successfully authenticated")
}

/// What one provisioning request should do.
pub enum ProvisionPlan {
    /// No account has this username or alias.
    NotFound,
    /// The account has no alias to derive a key path from.
    MissingAlias,
    /// A key pair already exists for this alias: perform no write at all and
    /// report that it exists.
    AlreadyProvisioned { alias: String },
    /// Generate a key pair, store it under the key filename, append the
    /// stanza when `write_stanza` is set, show the public key and test the
    /// connection, then record the key path on the account.
    Generate {
        username: String,
        alias: String,
        host: String,
        key_filename: String,
        write_stanza: bool,
        stanza: String,
    },
}

/// What the plan must be for the account that the request selected.
pub open spec fn plan_for_account(
    a: AccountV,
    make_default: bool,
    key_exists: bool,
    config: Seq<char>,
    r: ProvisionPlan,
) -> bool {
    match a.alias {
        None => r is MissingAlias,
        Some(al) => {
            let host = if make_default {
                "github.com"@
            } else {
                al
            };
            if key_exists {
                r matches ProvisionPlan::AlreadyProvisioned { alias } && alias@ == al
            } else {
                r matches ProvisionPlan::Generate {
                    username,
                    alias,
                    host: h,
                    key_filename,
                    write_stanza,
                    stanza,
                } && username@ == a.username && alias@ == al && h@ == host && key_filename@
                    == key_filename_spec(al) && write_stanza == !contains_sub(
                    config,
                    host_pattern(al),
                ) && stanza@ == config_stanza(a.username, al, host, key_filename_spec(al))
            }
        },
    }
}

/// Plan one provisioning request: resolve the account by username or alias,
/// no-op when a key already exists (re-provisioning never overwrites a key),
/// and otherwise name everything the caller must write and test.
pub fn provision_plan(
    accounts: &Vec<Account>,
    key: &str,
    make_default: bool,
    key_exists: bool,
    config_content: &str,
) -> (r: ProvisionPlan)
    ensures
        no_account_matches(accounts_views(accounts@), key@) ==> r is NotFound,
        forall|i: int|
            is_first_match(accounts_views(accounts@), key@, i) ==> plan_for_account(
                accounts_views(accounts@)[i],
                make_default,
                key_exists,
                config_content@,
                r,
            ),
{
    match find_in_accounts(accounts, key) {
        None => ProvisionPlan::NotFound,
        Some(i) => {
            let a = &accounts[i];
            match &a.alias {
                None => ProvisionPlan::MissingAlias,
                Some(al) => {
                    if key_exists {
                        ProvisionPlan::AlreadyProvisioned { alias: al.clone() }
                    } else {
                        let host: String = if make_default {
                            ("github.com").to_owned()
                        } else {
                            al.clone()
                        };
                        let key_filename = ssh_key_filename(al.as_str());
                        let write_stanza = !has_host_entry(config_content, al.as_str());
                        let stanza = ssh_config_stanza(
                            a.username.as_str(),
                            al.as_str(),
                            host.as_str(),
                            key_filename.as_str(),
                        );
                        ProvisionPlan::Generate {
                            username: a.username.clone(),
                            alias: al.clone(),
                            host,
                            key_filename,
                            write_stanza,
                            stanza,
                        }
                    }
                },
            }
        },
    }
}

/// The accounts that have an SSH key provisioned, in order.
pub open spec fn ssh_filtered(accounts: Seq<AccountV>) -> Seq<AccountV>
    decreases accounts.len(),
{
    if accounts.len() == 0 {
        Seq::empty()
    } else {
        let init = ssh_filtered(accounts.drop_last());
        if accounts.last().ssh_path is Some {
            init.push(accounts.last())
        } else {
            init
        }
    }
}

/// The accounts with an SSH identity provisioned through this tool.
pub fn accounts_with_ssh(accounts: &Vec<Account>) -> (r: Vec<Account>)
    ensures
        accounts_views(r@) == ssh_filtered(accounts_views(accounts@)),
{
    let ghost av = accounts_views(accounts@);
    let mut r: Vec<Account> = Vec::new();
    let mut i: usize = 0;
    while i < accounts.len()
        invariant
            av == accounts_views(accounts@),
            i <= accounts@.len(),
            accounts_views(r@) == ssh_filtered(av.take(i as int)),
        decreases accounts@.len() - i,
    {
        let keep = match &accounts[i].ssh_path {
            Some(_) => true,
            None => false,
        };
        if keep {
            r.push(accounts[i].duplicate());
        }
        i += 1;
        proof {
            assert(av.take(i as int).drop_last() =~= av.take(i - 1));
            assert(av.take(i as int).last() == av[i - 1]);
            assert(accounts_views(r@) =~= ssh_filtered(av.take(i as int)));
        }
    }
    proof {
        assert(av.take(accounts@.len() as int) =~= av);
    }
    r
}

} // verus!
