//! The config resolver: logical keys mapped to the file paths the other
//! components use.  Reading, materializing and parsing the config file is
//! the caller's work; the mapping itself is exact.

use vstd::prelude::*;
use vstd::string::{StrSliceExecFns, StringExecFns};

use crate::text::str_equal;

verus! {

broadcast use vstd::string::group_string_axioms;

/// The resolved configuration: one path per logical key.
pub struct Config {
    pub accounts: String,
    pub active_account: String,
    pub token: String,
    pub secret: String,
    pub ssh_path: String,
}

/// Map a logical key to its configured file path; `None` for a key the
/// configuration does not know.
pub fn get_key_as_file(config: &Config, key: &str) -> (r: Option<String>)
    ensures
        key@ == "accounts"@ ==> (r matches Some(p) && p@ == config.accounts@),
        key@ == "active_account"@ ==> (r matches Some(p) && p@ == config.active_account@),
        key@ == "token"@ ==> (r matches Some(p) && p@ == config.token@),
        key@ == "secret"@ ==> (r matches Some(p) && p@ == config.secret@),
        key@ == "ssh_path"@ ==> (r matches Some(p) && p@ == config.ssh_path@),
        (key@ != "accounts"@ && key@ != "active_account"@ && key@ != "token"@ && key@
            != "secret"@ && key@ != "ssh_path"@) ==> r is None,
{
    proof {
        // Surface the five key literals' contents so they are known to be
        // pairwise distinct.
        reveal_strlit("accounts");
        reveal_strlit("active_account");
        reveal_strlit("token");
        reveal_strlit("secret");
        reveal_strlit("ssh_path");
        assert("accounts"@.len() == 8);
        assert("active_account"@.len() == 14);
        assert("token"@.len() == 5);
        assert("secret"@.len() == 6);
        assert("ssh_path"@.len() == 8);
        assert("accounts"@[0] != "ssh_path"@[0]);
    }
    if str_equal(key, "accounts") {
        Some(config.accounts.clone())
    } else if str_equal(key, "active_account") {
        Some(config.active_account.clone())
    } else if str_equal(key, "token") {
        Some(config.token.clone())
    } else if str_equal(key, "secret") {
        Some(config.secret.clone())
    } else if str_equal(key, "ssh_path") {
        Some(config.ssh_path.clone())
    } else {
        None
    }
}

/// Expand a leading `~/` into the home directory, when one is known; any
/// other path, or no home, passes through unchanged.
pub fn expand_home(path: &str, home: Option<&str>) -> (r: String)
    ensures
        home matches Some(h) ==> (path@.len() >= 2 && path@.take(2) == "~/"@ ==> r@ == h@ + "/"@
            + path@.skip(2)),
        (path@.len() < 2 || path@.take(2) != "~/"@ || home is None) ==> r@ == path@,
{
    let tilde = if path.unicode_len() >= 2 {
        let prefix = path.substring_char(0, 2);
        str_equal(prefix, "~/")
    } else {
        false
    };
    if tilde {
        if let Some(h) = home {
            let mut r = h.to_owned();
            r.append("/");
            let rest = path.substring_char(2, path.unicode_len());
            r.append(rest);
            return r;
        }
    }
    path.to_owned()
}

} // verus!
