//! The OAuth device-authorization flow, as a stateless protocol client:
//! request a device code, poll for the token at the server-dictated cadence,
//! then fetch the authorized user's identity.  The network layer performs
//! the requests and the sleeps; every decision is made here.

use vstd::prelude::*;

use crate::errors::GitSockError;
use crate::text::str_equal;

verus! {

/// What the code-request endpoint returns on success.
pub struct DeviceCodeResponse {
    pub device_code: String,
    pub user_code: String,
    pub verification_uri: String,
    pub interval: u64,
}

/// The payload of one token-poll response.
pub struct AccessTokenResponse {
    pub access_token: Option<String>,
    pub error: Option<String>,
    pub error_description: Option<String>,
}

/// One server reply during polling, as the network layer hands it in: a
/// non-success HTTP status with the response text, or a parsed payload.
pub enum PollReply {
    HttpFailure(String),
    Payload(AccessTokenResponse),
}

/// Where one poll iteration leaves the flow: done with a token, keep
/// polling after one interval-long sleep, or definitively failed with the
/// server's description.
pub enum PollStep {
    Authorized(String),
    Pending,
    Failed(String),
}

/// The authorized user's profile, with the email the registry requires.
pub struct UserIdentity {
    pub login: String,
    pub email: String,
    pub name: String,
}

/// The server's designated "keep polling" sentinel.
pub open spec fn is_pending_error(e: Option<String>) -> bool {
    match e {
        Some(s) => s@ == "authorization_pending"@,
        None => false,
    }
}

/// The description the flow surfaces for a definitive failure.
pub open spec fn failure_description(o: Option<String>) -> Seq<char> {
    match o {
        Some(s) => s@,
        None => Seq::<char>::empty(),
    }
}

/// Exactly how one reply maps to one step: a token authorizes; the pending
/// sentinel keeps the loop alive; anything else — a non-success status or
/// another error code — fails with the server's description.
pub open spec fn poll_step_post(reply: PollReply, r: PollStep) -> bool {
    &&& (reply matches PollReply::HttpFailure(t) ==> (r matches PollStep::Failed(d) && d@ == t@))
    &&& (reply matches PollReply::Payload(p) ==> {
        if p.access_token is Some {
            r matches PollStep::Authorized(t) && Some(t) == p.access_token
        } else if is_pending_error(p.error) {
            r is Pending
        } else {
            r matches PollStep::Failed(d) && d@ == failure_description(p.error_description)
        }
    })
}

/// Classify one poll reply.
pub fn poll_step(reply: &PollReply) -> (r: PollStep)
    ensures
        poll_step_post(*reply, r),
{
    match reply {
        PollReply::HttpFailure(t) => PollStep::Failed(t.clone()),
        PollReply::Payload(p) => {
            match &p.access_token {
                Some(tok) => PollStep::Authorized(tok.clone()),
                None => {
                    let pending = match &p.error {
                        Some(e) => str_equal(e.as_str(), "authorization_pending"),
                        None => false,
                    };
                    if pending {
                        PollStep::Pending
                    } else {
                        match &p.error_description {
                            Some(d) => PollStep::Failed(d.clone()),
                            None => PollStep::Failed(String::new()),
                        }
                    }
                },
            }
        },
    }
}

/// A reply that keeps the loop polling.
pub open spec fn is_pending_reply(reply: PollReply) -> bool {
    match reply {
        PollReply::Payload(p) => p.access_token is None && is_pending_error(p.error),
        _ => false,
    }
}

/// How many consecutive replies from position `i` on are pending.
pub open spec fn pending_from(replies: Seq<PollReply>, i: int) -> nat
    decreases replies.len() - i
        when 0 <= i <= replies.len()
{
    if i >= replies.len() {
        0
    } else if is_pending_reply(replies[i]) {
        1 + pending_from(replies, i + 1)
    } else {
        0
    }
}

/// The length of the maximal pending prefix of a reply sequence.
pub open spec fn pending_prefix(replies: Seq<PollReply>) -> nat {
    pending_from(replies, 0)
}

/// The result of running the poll loop over a sequence of replies: how many
/// interval-long sleeps were taken, and the terminal step, absent when the
/// replies ran out while the server still said to wait.
pub struct PollRun {
    pub sleeps: usize,
    pub outcome: Option<PollStep>,
}

/// Run the polling loop over a reply sequence.  The flow sleeps exactly once
/// per pending reply — the server-dictated cadence — and stops at the first
/// decisive reply: a pending prefix of length `k` followed by a token means
/// exactly `k` sleeps before the token is returned, and a decisive first
/// reply means no sleep at all.
pub fn drive_poll(replies: &Vec<PollReply>) -> (r: PollRun)
    ensures
        pending_prefix(replies@) == replies@.len() ==> (r.sleeps == replies@.len()
            && r.outcome is None),
        pending_prefix(replies@) < replies@.len() ==> (r.sleeps == pending_prefix(replies@) && (
        r.outcome matches Some(s) && poll_step_post(
            replies@[pending_prefix(replies@) as int],
            s,
        ))),
{
    let mut i: usize = 0;
    while i < replies.len()
        invariant
            i <= replies@.len(),
            pending_prefix(replies@) == i + pending_from(replies@, i as int),
        decreases replies@.len() - i,
    {
        let step = poll_step(&replies[i]);
        match step {
            PollStep::Pending => {
                i += 1;
            },
            _ => {
                return PollRun { sleeps: i, outcome: Some(step) };
            },
        }
    }
    PollRun { sleeps: i, outcome: None }
}

/// Step one of the flow: any non-success HTTP status on the device-code
/// request is fatal for this attempt; on success the response carries the
/// codes and the polling interval.
pub fn accept_device_code(http_success: bool, response: DeviceCodeResponse) -> (r: Result<
    DeviceCodeResponse,
    GitSockError,
>)
    ensures
        http_success ==> (r matches Ok(d) && d == response),
        !http_success ==> (r matches Err(e) && e == GitSockError::Protocol),
{
    if http_success {
        Ok(response)
    } else {
        Err(GitSockError::Protocol)
    }
}

/// Step three of the flow: adopt the fetched profile.  A missing email is an
/// unrecoverable failure for account creation — the registry keys the git
/// identity on it.
pub fn resolve_user_identity(login: String, email: Option<String>, name: String) -> (r: Result<
    UserIdentity,
    GitSockError,
>)
    ensures
        email matches Some(e) ==> (r matches Ok(u) && u.login == login && u.email == e && u.name
            == name),
        email is None ==> (r matches Err(err) && err == GitSockError::Protocol),
{
    match email {
        Some(e) => Ok(UserIdentity { login, email: e, name }),
        None => Err(GitSockError::Protocol),
    }
}

} // verus!
