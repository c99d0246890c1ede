//! The clone workflow's URL logic: reject HTTPS URLs, rewrite an SSH URL so
//! that it goes through the account's host alias, and derive the folder the
//! repository lands in.  The subprocess that runs `git clone` lives with the
//! caller; everything decided here is decided exactly.

use vstd::prelude::*;
use vstd::string::{StrSliceExecFns, StringExecFns};

use crate::text::{chars_of, find_char_from, first_char_at_or_after, lemma_first_char_properties,
    str_equal};
use crate::types::{Account, AccountV};

verus! {

pub open spec fn opt_sref_view(o: Option<&str>) -> Option<Seq<char>> {
    match o {
        Some(s) => Some(s@),
        None => None,
    }
}

/// The URL uses the HTTPS scheme, which the clone workflow refuses.
pub open spec fn starts_with_https(url: Seq<char>) -> bool {
    url.len() >= 8 && url.take(8) == "https://"@
}

/// The URL holds exactly one `@`, the shape `git@host:owner/repo` has.
pub open spec fn exactly_one_at(url: Seq<char>) -> bool {
    match first_char_at_or_after(url, '@', 0) {
        Some(i) => first_char_at_or_after(url, '@', i + 1) is None,
        None => false,
    }
}

/// The host the rewritten URL goes through: the account's alias, or its
/// username when no alias is set.
pub open spec fn clone_host(a: AccountV) -> Seq<char> {
    match a.alias {
        Some(al) => al,
        None => a.username,
    }
}

/// What stands after the host in the rewritten URL: the piece of the
/// original URL between the first colon after the `@` and the next colon or
/// the end; empty when no colon follows the `@`.
pub open spec fn repo_tail(url: Seq<char>) -> Seq<char> {
    match first_char_at_or_after(url, '@', 0) {
        None => Seq::empty(),
        Some(at) => match first_char_at_or_after(url, ':', at + 1) {
            None => Seq::empty(),
            Some(c1) => match first_char_at_or_after(url, ':', c1 + 1) {
                None => url.skip(c1 + 1),
                Some(c2) => url.subrange(c1 + 1, c2),
            },
        },
    }
}

/// The rewritten URL: `git@` then the account's host then `:` then the
/// repository piece of the original URL.
pub open spec fn modified_clone_url(a: AccountV, url: Seq<char>) -> Seq<char> {
    "git@"@ + clone_host(a) + ":"@ + repo_tail(url)
}

/// The folder name the repository lands in by default: the piece of the URL
/// between its first and second `/`, cut at the first `.`; absent when the
/// URL has no `/` at all.
pub open spec fn derived_folder(url: Seq<char>) -> Option<Seq<char>> {
    match first_char_at_or_after(url, '/', 0) {
        None => None,
        Some(s1) => {
            let seg_end = match first_char_at_or_after(url, '/', s1 + 1) {
                Some(s2) => s2,
                None => url.len() as int,
            };
            let dot_end = match first_char_at_or_after(url, '.', s1 + 1) {
                Some(d) => if d < seg_end {
                    d
                } else {
                    seg_end
                },
                None => seg_end,
            };
            Some(url.subrange(s1 + 1, dot_end))
        },
    }
}

/// The folder actually used: the caller's path when it is a valid path
/// string, else the derived default.
pub open spec fn folder_choice(url: Seq<char>, path: Option<Seq<char>>) -> Option<Seq<char>> {
    match path {
        Some(p) => if !p.contains('\u{0}') {
            Some(p)
        } else {
            derived_folder(url)
        },
        None => derived_folder(url),
    }
}

/// A character Windows refuses in paths.
pub open spec fn is_windows_reserved_char(c: char) -> bool {
    ||| c == '<'
    ||| c == '>'
    ||| c == ':'
    ||| c == '"'
    ||| c == '\\'
    ||| c == '|'
    ||| c == '?'
    ||| c == '*'
}

/// Whether a string can stand as a Windows filesystem path: it holds none
/// of the reserved characters.  The caller picks this predicate or the
/// NUL-byte one below by platform.
pub fn is_valid_path_string_windows(path: &str) -> (r: bool)
    ensures
        r == (forall|i: int| 0 <= i < path@.len() ==> !is_windows_reserved_char(path@[i])),
{
    let cv = chars_of(path);
    let mut i: usize = 0;
    while i < cv.len()
        invariant
            cv@ == path@,
            i <= cv@.len(),
            forall|j: int| 0 <= j < i ==> !is_windows_reserved_char(path@[j]),
        decreases cv@.len() - i,
    {
        let c = cv[i];
        let bad = c == '<' || c == '>' || c == ':' || c == '"' || c == '\\' || c == '|' || c
            == '?' || c == '*';
        if bad {
            return false;
        }
        i += 1;
    }
    true
}

/// Whether a string can stand as a filesystem path: it holds no NUL byte.
pub fn is_valid_path_string(path: &str) -> (r: bool)
    ensures
        r == !path@.contains('\u{0}'),
{
    let cv = chars_of(path);
    let found = find_char_from(&cv, '\u{0}', 0);
    proof {
        lemma_first_char_properties(path@, '\u{0}', 0);
        if path@.contains('\u{0}') {
            let i = choose|i: int| 0 <= i < path@.len() && path@[i] == '\u{0}';
            assert(path@[i] == '\u{0}');
        }
    }
    match found {
        Some(_) => false,
        None => true,
    }
}

/// What the clone workflow should do for a URL cloned through an account.
pub enum ClonePlan {
    /// The operator gave an HTTPS URL; ask for the SSH form instead.
    HttpsRejected,
    /// The URL does not have the `git@host:owner/repo` shape.
    MalformedUrl,
    /// Run `git clone` with this URL; when a folder is known and exists
    /// afterwards, set the repository-local identity inside it.
    Proceed { url_to_use: String, folder: Option<String> },
}

/// Whether the URL uses the HTTPS scheme.
fn check_https(url: &str) -> (r: bool)
    ensures
        r == starts_with_https(url@),
{
    if url.unicode_len() >= 8 {
        let prefix = url.substring_char(0, 8);
        str_equal(prefix, "https://")
    } else {
        false
    }
}

/// The folder the cloned repository lands in: the caller's path when valid,
/// else the URL's second `/`-segment cut at its first dot.
pub fn derive_folder(url: &str, path: Option<&str>) -> (r: Option<String>)
    ensures
        crate::types::opt_str_view(r) == folder_choice(url@, opt_sref_view(path)),
{
    if let Some(p) = path {
        if is_valid_path_string(p) {
            return Some(p.to_owned());
        }
    }
    let cv = chars_of(url);
    match find_char_from(&cv, '/', 0) {
        None => None,
        Some(s1) => {
            let seg_end = match find_char_from(&cv, '/', s1 + 1) {
                Some(s2) => s2,
                None => cv.len(),
            };
            let dot_end = match find_char_from(&cv, '.', s1 + 1) {
                Some(d) => if d < seg_end {
                    d
                } else {
                    seg_end
                },
                None => seg_end,
            };
            proof {
                lemma_first_char_properties(url@, '/', 0);
                lemma_first_char_properties(url@, '/', s1 + 1);
                lemma_first_char_properties(url@, '.', s1 + 1);
            }
            Some(url.substring_char(s1 + 1, dot_end).to_owned())
        },
    }
}

/// Decide the whole clone: refuse HTTPS, refuse a URL without exactly one
/// `@`, and otherwise clone — through the account's host alias, or with the
/// URL untouched for the default account — into the chosen folder.
pub fn build_clone_plan(account: &Account, url: &str, path: Option<&str>) -> (r: ClonePlan)
    ensures
        starts_with_https(url@) ==> r is HttpsRejected,
        (!starts_with_https(url@) && !exactly_one_at(url@)) ==> r is MalformedUrl,
        (!starts_with_https(url@) && exactly_one_at(url@)) ==> (r matches ClonePlan::Proceed {
            url_to_use,
            folder,
        } && url_to_use@ == (if account@.default {
            url@
        } else {
            modified_clone_url(account@, url@)
        }) && crate::types::opt_str_view(folder) == folder_choice(url@, opt_sref_view(path))),
{
    if check_https(url) {
        return ClonePlan::HttpsRejected;
    }
    let cv = chars_of(url);
    let at = match find_char_from(&cv, '@', 0) {
        None => {
            return ClonePlan::MalformedUrl;
        },
        Some(i) => i,
    };
    if let Some(_) = find_char_from(&cv, '@', at + 1) {
        return ClonePlan::MalformedUrl;
    }
    let tail: String = match find_char_from(&cv, ':', at + 1) {
        None => String::new(),
        Some(c1) => {
            let end = match find_char_from(&cv, ':', c1 + 1) {
                Some(c2) => c2,
                None => cv.len(),
            };
            proof {
                assert(url@.subrange(c1 + 1, url@.len() as int) =~= url@.skip(c1 + 1));
            }
            url.substring_char(c1 + 1, end).to_owned()
        },
    };
    let host: &str = match &account.alias {
        Some(al) => al.as_str(),
        None => account.username.as_str(),
    };
    let mut rewritten = ("git@").to_owned();
    rewritten.append(host);
    rewritten.append(":");
    rewritten.append(tail.as_str());
    let url_to_use = if account.default {
        url.to_owned()
    } else {
        rewritten
    };
    let folder = derive_folder(url, path);
    ClonePlan::Proceed { url_to_use, folder }
}

} // verus!
