//! The session in the desktop keyring, through the freedesktop Secret Service that GNOME Keyring,
//! KWallet and KeePassXC all serve: what its answers mean, when the user may be asked to unlock it,
//! and what is said when it can't be used. The calls themselves are made by whoever holds the
//! connection.

use super::store::StoreError;
use crate::text::{joined, same};
use vstd::prelude::*;

verus! {

/// A person has to type a password, which takes as long as it takes, within reason: in seconds.
pub const PROMPT_TIMEOUT_SECS: u64 = 300;

/// The first call is where the keyring's daemon is started if it is not running yet, which is quick
/// when it works and takes minutes to fail when it doesn't: in seconds.
pub const SERVICE_TIMEOUT_SECS: u64 = 15;

/// Whether a locked keyring may ask the user to unlock it.
#[derive(Debug, Clone, Copy, PartialEq, Eq, Structural)]
pub enum Interaction {
    /// Show the prompt and wait for it. What a command the user typed does.
    Allow,
    /// Fail instead. What a daemon does at startup, with nobody there.
    Never,
}

/// Whether a path that the service answered stands for no object (no default collection, no prompt
/// needed).
pub open spec fn is_nothing(path: Seq<char>) -> bool {
    path == "/"@
}

/// What an answer that is an error means, given its name on the bus, if it has one, and its text.
pub fn reply_error(name: Option<&str>, text: &str) -> (r: StoreError)
    ensures
        match name {
            Some(n) if n@ == "org.freedesktop.DBus.Error.ServiceUnknown"@ || n@
                == "org.freedesktop.DBus.Error.NameHasNoOwner"@ => r matches StoreError::Unavailable(
                why,
            ) && why@ == "nothing on the session bus provides org.freedesktop.secrets"@,
            _ => r matches StoreError::Other(why) && why@ == "the keyring answered: "@ + text@,
        },
{
    let unknown = match name {
        Some(name) => same(name, "org.freedesktop.DBus.Error.ServiceUnknown") || same(
            name,
            "org.freedesktop.DBus.Error.NameHasNoOwner",
        ),
        None => false,
    };
    if unknown {
        StoreError::Unavailable(
            "nothing on the session bus provides org.freedesktop.secrets".to_owned(),
        )
    } else {
        StoreError::Other(joined("the keyring answered: ", text))
    }
}

/// What a missing bus means.
pub fn no_bus(why: &str) -> (r: StoreError)
    ensures
        r matches StoreError::Unavailable(text) && text@ == "no D-Bus session bus: "@ + why@,
{
    StoreError::Unavailable(joined("no D-Bus session bus: ", why))
}

/// What a service that does not answer means.
pub fn no_answer() -> (r: StoreError)
    ensures
        r matches StoreError::Unavailable(text) && text@
            == "the keyring did not answer within 15 s (is its daemon stuck?)"@,
{
    StoreError::Unavailable(
        "the keyring did not answer within 15 s (is its daemon stuck?)".to_owned(),
    )
}

/// What an item that holds something else means.
pub fn not_a_session(why: &str) -> (r: StoreError)
    ensures
        r matches StoreError::Corrupt(text) && text@
            == "the keyring's item is not a phonia session: "@ + why@,
{
    StoreError::Corrupt(joined("the keyring's item is not a phonia session: ", why))
}

/// The collection new items go to: the user's default one, if there is one.
pub fn default_collection(path: &str) -> (r: Result<String, StoreError>)
    ensures
        if is_nothing(path@) {
            r matches Err(StoreError::Unavailable(why)) && why@
                == "the keyring has no default collection; create one (Seahorse, KDE Wallet Manager...)"@
        } else {
            r matches Ok(found) && found@ == path@
        },
{
    if same(path, "/") {
        return Err(
            StoreError::Unavailable(
                "the keyring has no default collection; create one (Seahorse, KDE Wallet Manager...)".to_owned(),
            ),
        );
    }
    Ok(path.to_owned())
}

/// What to do once the service was asked to unlock something.
#[derive(Debug, PartialEq, Eq)]
pub enum UnlockStep {
    /// These are unlocked.
    Unlocked(Vec<String>),
    /// The user has to be asked, with the service's prompt, and the service asked again.
    Prompt,
    /// It stays locked.
    Fail(StoreError),
}

/// What to do once the service was asked to unlock something, and answered with what is unlocked and
/// the prompt that it takes. The user is only asked if that is allowed.
pub fn after_unlock(unlocked: Vec<String>, prompt: &str, interaction: Interaction) -> (r: UnlockStep)
    ensures
        if is_nothing(prompt@) {
            r == UnlockStep::Unlocked(unlocked)
        } else if interaction is Allow {
            r is Prompt
        } else {
            r matches UnlockStep::Fail(StoreError::Locked(why)) && why@
                == "the keyring is locked and unlocking it needs a prompt, which is not possible here"@
        },
{
    if same(prompt, "/") {
        return UnlockStep::Unlocked(unlocked);
    }
    match interaction {
        Interaction::Allow => UnlockStep::Prompt,
        Interaction::Never => UnlockStep::Fail(
            StoreError::Locked(
                "the keyring is locked and unlocking it needs a prompt, which is not possible here".to_owned(),
            ),
        ),
    }
}

/// What is unlocked once the user was asked, and the service was asked again.
pub fn after_asking(unlocked: Vec<String>, prompt: &str) -> (r: Result<Vec<String>, StoreError>)
    ensures
        if !is_nothing(prompt@) || unlocked@.len() == 0 {
            r matches Err(StoreError::Locked(why)) && why@ == "the keyring is still locked"@
        } else {
            r == Ok::<Vec<String>, StoreError>(unlocked)
        },
{
    if !same(prompt, "/") || unlocked.len() == 0 {
        return Err(StoreError::Locked("the keyring is still locked".to_owned()));
    }
    Ok(unlocked)
}

/// Whether a prompt that the service answered has to be shown; an error if it has to and may not.
pub fn shows_prompt(prompt: &str, interaction: Interaction) -> (r: Result<bool, StoreError>)
    ensures
        if is_nothing(prompt@) {
            r == Ok::<bool, StoreError>(false)
        } else if interaction is Allow {
            r == Ok::<bool, StoreError>(true)
        } else {
            r matches Err(StoreError::Locked(why)) && why@
                == "the keyring needs a prompt, which is not possible here"@
        },
{
    if same(prompt, "/") {
        return Ok(false);
    }
    match interaction {
        Interaction::Allow => Ok(true),
        Interaction::Never => Err(
            StoreError::Locked(
                "the keyring needs a prompt, which is not possible here".to_owned(),
            ),
        ),
    }
}

/// How a prompt ended.
#[derive(Debug, PartialEq, Eq)]
pub enum PromptEnd {
    /// Nobody answered in time.
    TimedOut,
    /// The service went away.
    Gone,
    /// The service said something that makes no sense.
    Unreadable(String),
    /// The user dismissed it.
    Dismissed,
    /// The user answered it.
    Answered,
}

/// What the end of a prompt means.
pub fn after_prompt(end: PromptEnd) -> (r: Result<(), StoreError>)
    ensures
        match end {
            PromptEnd::TimedOut => r matches Err(StoreError::Locked(why)) && why@
                == "nobody answered the keyring's prompt"@,
            PromptEnd::Gone => r matches Err(StoreError::Unavailable(why)) && why@
                == "the keyring went away while it was asking"@,
            PromptEnd::Unreadable(text) => r == Err::<(), StoreError>(StoreError::Other(text)),
            PromptEnd::Dismissed => r matches Err(StoreError::Locked(why)) && why@
                == "the keyring's prompt was dismissed"@,
            PromptEnd::Answered => r is Ok,
        },
{
    match end {
        PromptEnd::TimedOut => Err(
            StoreError::Locked("nobody answered the keyring's prompt".to_owned()),
        ),
        PromptEnd::Gone => Err(
            StoreError::Unavailable("the keyring went away while it was asking".to_owned()),
        ),
        PromptEnd::Unreadable(text) => Err(StoreError::Other(text)),
        PromptEnd::Dismissed => Err(
            StoreError::Locked("the keyring's prompt was dismissed".to_owned()),
        ),
        PromptEnd::Answered => Ok(()),
    }
}

} // verus!
