//! The rules of logging in to TIDAL and of keeping the session: which pending login can still be
//! finished, what of a login is kept, and what to do when the place that keeps it is out of reach.
//!
//! Logging in goes through the browser (PKCE), because the tokens of the other flow never get to
//! stream the highest quality. The two halves of a login can be run from different processes: what
//! the first one needs to remember is a [`PendingLogin`].

pub mod keeping;
pub mod migrate;
pub mod secret_service;
pub mod store;

use self::store::Login;
use crate::text::{joined, quoted, quoted_text, trim, trimmed};
use vstd::prelude::*;

verus! {

/// TIDAL's authorization codes expire within minutes, so a login started longer ago than this is
/// not worth finishing: the user has to start over.
pub const PENDING_LOGIN_MAX_AGE_SECS: u64 = 300;

/// A login that has been started but not finished. What proves that it is the same login only
/// exists in the client that generated the login URL, so to finish the login from another process
/// that client's state is kept.
#[derive(PartialEq, Eq)]
pub struct PendingLogin {
    /// When it was started, in seconds.
    pub created_at: u64,
    /// The state of the client.
    pub client_json: String,
}

/// What was found where a pending login would be.
#[derive(PartialEq, Eq)]
pub enum PendingRead {
    /// Nothing.
    Missing,
    /// Something that can't be read.
    Unreadable,
    /// Something that is no pending login.
    Corrupt,
    /// A pending login.
    Read(PendingLogin),
}

/// Why a login can't be finished.
#[derive(Debug, PartialEq, Eq)]
pub enum PendingError {
    /// None was started.
    NotStarted,
    /// It can't be read, with its path.
    Unreadable(String),
    /// It makes no sense, with its path.
    Corrupt(String),
    /// It was started too long ago; it is then to be deleted.
    Expired,
}

impl PendingError {
    /// What [`PendingError::message`] says.
    pub open spec fn text(self) -> Seq<char> {
        match self {
            PendingError::NotStarted =>
                "no login in progress. Run `phonia login --no-wait` first."@,
            PendingError::Unreadable(path) => "reading the pending login at "@ + quoted_text(path@),
            PendingError::Corrupt(path) => "the pending login at "@ + quoted_text(path@)
                + " is corrupt; run `phonia login --no-wait` again"@,
            PendingError::Expired =>
                "the pending login expired (TIDAL's authorization codes only last a few minutes). Run `phonia login --no-wait` again."@,
        }
    }

    /// What to tell the user.
    pub fn message(&self) -> (r: String)
        ensures
            r@ == self.text(),
    {
        match self {
            PendingError::NotStarted =>
                "no login in progress. Run `phonia login --no-wait` first.".to_owned(),
            PendingError::Unreadable(path) => joined(
                "reading the pending login at ",
                quoted(path.as_str()).as_str(),
            ),
            PendingError::Corrupt(path) => {
                let mut text = String::new();
                text.push_str("the pending login at ");
                text.push_str(quoted(path.as_str()).as_str());
                text.push_str(" is corrupt; run `phonia login --no-wait` again");
                assert(text@ =~= self.text());
                text
            },
            PendingError::Expired =>
                "the pending login expired (TIDAL's authorization codes only last a few minutes). Run `phonia login --no-wait` again.".to_owned(),
        }
    }
}

/// The state of the client of a pending login, given what was found at `path`, and the login of the
/// client that this state is, or why it is none. A missing, corrupt or stale pending login is an
/// error telling the user to start over. (A clock that went back does not make it stale.)
pub fn load_pending_login(
    read: PendingRead,
    login: Result<Login, String>,
    path: &str,
    now: u64,
) -> (r: Result<String, PendingError>)
    ensures
        match read {
            PendingRead::Missing => r == Err::<String, PendingError>(PendingError::NotStarted),
            PendingRead::Unreadable => r matches Err(PendingError::Unreadable(p)) && p@ == path@,
            PendingRead::Corrupt => r matches Err(PendingError::Corrupt(p)) && p@ == path@,
            PendingRead::Read(pending) => if now > pending.created_at + PENDING_LOGIN_MAX_AGE_SECS {
                r == Err::<String, PendingError>(PendingError::Expired)
            } else if login is Ok {
                r == Ok::<String, PendingError>(pending.client_json)
            } else {
                r matches Err(PendingError::Corrupt(p)) && p@ == path@
            },
        },
{
    match read {
        PendingRead::Missing => Err(PendingError::NotStarted),
        PendingRead::Unreadable => Err(PendingError::Unreadable(path.to_owned())),
        PendingRead::Corrupt => Err(PendingError::Corrupt(path.to_owned())),
        PendingRead::Read(pending) => {
            if now.saturating_sub(pending.created_at) > PENDING_LOGIN_MAX_AGE_SECS {
                Err(PendingError::Expired)
            } else if login.is_ok() {
                Ok(pending.client_json)
            } else {
                Err(PendingError::Corrupt(path.to_owned()))
            }
        },
    }
}

/// The redirect URL that was pasted, without the white space around it.
pub fn redirect_url(pasted: &str) -> (r: Result<String, String>)
    ensures
        if trimmed(pasted@).len() == 0 {
            r matches Err(why) && why@ == "no redirect URL was received"@
        } else {
            r matches Ok(url) && url@ == trimmed(pasted@)
        },
{
    let url = trim(pasted);
    if crate::text::chars_of(url.as_str()).len() == 0 {
        return Err("no redirect URL was received".to_owned());
    }
    Ok(url)
}

} // verus!
