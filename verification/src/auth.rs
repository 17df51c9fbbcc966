//! The browser approval flow of `maypop auth` as a state machine: the
//! program around this library waits, polls the service and reports, and
//! this module decides after each event what happens next.

use crate::credentials::{CredentialUser, Credentials};
use crate::text::{concat, is_blank, lemma_not_blank, owned, trim_end_char, trim_url, trim_ws};
use vstd::prelude::*;

verus! {

/// What the service answered to one poll.
#[derive(Debug)]
pub enum TokenResponse {
    /// Not approved yet; poll again after `interval` seconds.
    Pending { interval: u64 },
    /// The approval window closed.
    Expired,
    /// Approved: the new login.
    Complete { token: String, expires_at: String, user: CredentialUser },
}

/// Why the approval flow failed.
#[derive(Debug, Clone, Copy, PartialEq, Eq, Structural)]
pub enum AuthError {
    /// The approval window closed before the device was approved.
    Expired,
}

/// What the flow does next.
#[derive(Debug)]
pub enum AuthStep {
    /// Sleep this many seconds, then poll.
    Wait { seconds: u64 },
    /// Save this login.
    Done(Credentials),
    /// Stop with this error.
    Failed(AuthError),
}

/// A polling interval of at least one second.
pub open spec fn at_least_one(seconds: u64) -> u64 {
    if seconds == 0 {
        1
    } else {
        seconds
    }
}

/// The interval to wait between polls: the one the service asked for, but never zero.
pub fn poll_interval(requested: u64) -> (r: u64)
    ensures
        r == at_least_one(requested),
        r >= 1,
{
    if requested == 0 {
        1
    } else {
        requested
    }
}

/// Before each poll: give up once the approval deadline has passed, else
/// wait the current interval.
pub fn before_poll(deadline_passed: bool, interval: u64) -> (r: AuthStep)
    ensures
        deadline_passed ==> (r matches AuthStep::Failed(e) && e == AuthError::Expired),
        !deadline_passed ==> (r matches AuthStep::Wait { seconds } && seconds == interval),
{
    if deadline_passed {
        AuthStep::Failed(AuthError::Expired)
    } else {
        AuthStep::Wait { seconds: interval }
    }
}

/// After each poll: keep waiting at the interval the service asks for,
/// fail when the window closed, or finish with the approved login, saved for
/// the API origin without trailing slashes.
pub fn after_poll(api_url: &str, response: TokenResponse) -> (r: AuthStep)
    ensures
        response matches TokenResponse::Pending { interval } ==> (r matches AuthStep::Wait {
            seconds,
        } && seconds == at_least_one(interval)),
        response is Expired ==> (r matches AuthStep::Failed(e) && e == AuthError::Expired),
        response matches TokenResponse::Complete { token, expires_at, user } ==> (
        r matches AuthStep::Done(c) && c.api_url@ == trim_end_char(api_url@, '/') && c.token
            == token && c.expires_at == expires_at && c.user == user),
{
    match response {
        TokenResponse::Pending { interval } => AuthStep::Wait { seconds: poll_interval(interval) },
        TokenResponse::Expired => AuthStep::Failed(AuthError::Expired),
        TokenResponse::Complete { token, expires_at, user } => AuthStep::Done(
            Credentials { api_url: trim_url(api_url), token, expires_at, user },
        ),
    }
}

/// The device name shown on the approval page: `user@host`, else the host
/// when it is not blank, else a fixed name; never blank.
pub open spec fn device_name_spec(user: Option<Seq<char>>, host: Option<Seq<char>>) -> Seq<char> {
    match (user, host) {
        (Some(u), Some(h)) => u + "@"@ + h,
        (_, Some(h)) => if trim_ws(h).len() > 0 {
            h
        } else {
            "Maypop CLI"@
        },
        _ => "Maypop CLI"@,
    }
}

/// The default device name from the user and host names the environment gives.
pub fn default_device_name(user: Option<String>, host: Option<String>) -> (r: String)
    ensures
        r@ == device_name_spec(
            match user {
                Some(u) => Some(u@),
                None => None,
            },
            match host {
                Some(h) => Some(h@),
                None => None,
            },
        ),
        trim_ws(r@).len() > 0,
{
    proof {
        reveal_strlit("@");
        reveal_strlit("Maypop CLI");
        lemma_not_blank("Maypop CLI"@, 0);
    }
    match (user, host) {
        (Some(u), Some(h)) => {
            let at = concat(u.as_str(), "@");
            let r = concat(at.as_str(), h.as_str());
            proof {
                assert(r@[u@.len() as int] == '@');
                lemma_not_blank(r@, u@.len() as int);
            }
            r
        },
        (_, Some(h)) => if is_blank(h.as_str()) {
            owned("Maypop CLI")
        } else {
            h
        },
        _ => owned("Maypop CLI"),
    }
}

} // verus!
