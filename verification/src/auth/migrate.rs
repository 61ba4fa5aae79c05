//! Moving the session from `session.json` into a store that is not that file.
//!
//! A person who logged in before the keyring existed has a file and no keyring item. Their session
//! must never be lost, so it is copied into the keyring, read back to make sure it is there, and
//! only then is the file destroyed; if any step fails the file stays and is used for this run, with
//! a warning. These are the decisions; the store and the file are driven by whoever holds them.

use super::store::{StoreError, StoredSession};
use crate::text::{joined, quoted, quoted_text};
use vstd::prelude::*;

verus! {

/// What became of a look into a store.
pub type Loaded = Result<Option<StoredSession>, StoreError>;

/// What a person who never chose a store is told about one that is not there.
pub open spec fn hint_text(why: Seq<char>) -> Seq<char> {
    why
        + ". Set `session_store = \"file\"` under [tidal] in the config file to keep the session in a file instead"@
}

/// What to do about a store that isn't there, for someone who never chose one.
pub fn hint(error: StoreError) -> (r: StoreError)
    ensures
        match error {
            StoreError::Unavailable(why) => r matches StoreError::Unavailable(text) && text@
                == hint_text(why@),
            other => r == other,
        },
{
    match error {
        StoreError::Unavailable(why) => StoreError::Unavailable(
            joined(
                why.as_str(),
                ". Set `session_store = \"file\"` under [tidal] in the config file to keep the session in a file instead",
            ),
        ),
        other => other,
    }
}

/// What to do next to load a session.
#[derive(PartialEq, Eq)]
pub enum LoadStep {
    /// Look into the old file.
    ReadFile,
    /// Store this session, then report with [`Migration::saved`].
    Save(StoredSession),
    /// Read the store again, then report with [`Migration::read_back`].
    ReadBack,
    /// Done, with this; the old file is to be destroyed if `destroy` says so.
    Done {
        /// The session.
        outcome: Loaded,
        /// Whether the old file is to be destroyed.
        destroy: bool,
        /// What to warn of, if anything.
        warning: Warning,
    },
}

/// What to warn of once a session was loaded.
#[derive(PartialEq, Eq)]
pub enum Warning {
    /// Nothing.
    Nothing,
    /// The session is in the store; the old file is removed.
    OldFileRemoved,
    /// The store can't be reached; the session in the file is used for now.
    UsingFile(StoreError),
    /// The session could not be moved to the store.
    NotMoved(StoreError),
    /// What was written to the store could not be read back; the file is kept.
    NotReadBack,
    /// The session was moved to the store, and the file removed.
    Moved,
}

impl Warning {
    /// What is said of the file at `path` and the store called `store`.
    pub open spec fn spec_text(self, store: Seq<char>, path: Seq<char>) -> Option<Seq<char>> {
        let file = quoted_text(path);
        match self {
            Warning::Nothing => None,
            Warning::OldFileRemoved => Some(
                "phonia: the session is in "@ + store + "; removing the old "@ + file,
            ),
            Warning::UsingFile(why) => Some(
                "phonia: "@ + why.text() + "; using the session in "@ + file + " for now"@,
            ),
            Warning::NotMoved(why) => Some(
                "phonia: could not move the session to "@ + store + ": "@ + why.text(),
            ),
            Warning::NotReadBack => Some(
                "phonia: the session written to "@ + store + " could not be read back; keeping "@
                    + file,
            ),
            Warning::Moved => Some(
                "phonia: moved the TIDAL session from "@ + file + " to "@ + store
                    + "; the file was overwritten and removed"@,
            ),
        }
    }

    /// What is said of the file at `path` and the store called `store`.
    pub fn text(&self, store: &str, path: &str) -> (r: Option<String>)
        ensures
            match r {
                Some(text) => self.spec_text(store@, path@) == Some(text@),
                None => self.spec_text(store@, path@) is None,
            },
    {
        let mut text = String::new();
        text.push_str("phonia: ");
        match self {
            Warning::Nothing => {
                return None;
            },
            Warning::OldFileRemoved => {
                text = "phonia: the session is in ".to_owned();
                text.push_str(store);
                text.push_str("; removing the old ");
                text.push_str(quoted(path).as_str());
            },
            Warning::UsingFile(why) => {
                text.push_str(why.message().as_str());
                text.push_str("; using the session in ");
                text.push_str(quoted(path).as_str());
                text.push_str(" for now");
            },
            Warning::NotMoved(why) => {
                text = "phonia: could not move the session to ".to_owned();
                text.push_str(store);
                text.push_str(": ");
                text.push_str(why.message().as_str());
            },
            Warning::NotReadBack => {
                text = "phonia: the session written to ".to_owned();
                text.push_str(store);
                text.push_str(" could not be read back; keeping ");
                text.push_str(quoted(path).as_str());
            },
            Warning::Moved => {
                text = "phonia: moved the TIDAL session from ".to_owned();
                text.push_str(quoted(path).as_str());
                text.push_str(" to ");
                text.push_str(store);
                text.push_str("; the file was overwritten and removed");
            },
        }
        assert(text@ =~= self.spec_text(store@, path@)->0);
        Some(text)
    }
}

/// Loading a session from a store, with an old file behind it.
pub enum Migration {
    /// The store was asked.
    Asked,
    /// The old file was asked, because the store has nothing, or failed.
    AskedFile(Option<StoreError>),
    /// The store was given the session from the file.
    Saving(StoredSession),
    /// The store was asked for it back.
    Reading(StoredSession),
    /// The session was loaded, or was not.
    Over,
}

/// What the store's answer leads to.
pub open spec fn after_load(
    outcome: Loaded,
    file_exists: bool,
    after: Migration,
    step: LoadStep,
) -> bool {
    match outcome {
        Ok(Some(session)) => after is Over && step == (LoadStep::Done {
            outcome: Ok(Some(session)),
            destroy: file_exists,
            warning: if file_exists {
                Warning::OldFileRemoved
            } else {
                Warning::Nothing
            },
        }),
        Ok(None) => step is ReadFile && after == Migration::AskedFile(None),
        Err(why) => step is ReadFile && after == Migration::AskedFile(Some(why)),
    }
}

/// What the old file's answer leads to.
pub open spec fn after_read(
    before: Migration,
    outcome: Loaded,
    after: Migration,
    step: LoadStep,
) -> bool {
    match (before, outcome) {
        (Migration::AskedFile(None), Ok(Some(session))) => step == LoadStep::Save(session) && after
            == Migration::Saving(session),
        (Migration::AskedFile(None), other) => after is Over && step == (LoadStep::Done {
            outcome: other,
            destroy: false,
            warning: Warning::Nothing,
        }),
        (Migration::AskedFile(Some(why)), Ok(Some(session))) => after is Over && step == (
        LoadStep::Done {
            outcome: Ok(Some(session)),
            destroy: false,
            warning: Warning::UsingFile(why),
        }),
        (Migration::AskedFile(Some(why)), _) => {
            &&& after is Over
            &&& step matches LoadStep::Done {
                outcome: Err(hinted),
                destroy: false,
                warning: Warning::Nothing,
            } && match why {
                StoreError::Unavailable(text) => hinted matches StoreError::Unavailable(t) && t@
                    == hint_text(text@),
                other => hinted == other,
            }
        },
        _ => true,
    }
}

/// What comes of giving the store the session from the file.
pub open spec fn after_save(
    before: Migration,
    outcome: Result<(), StoreError>,
    after: Migration,
    step: LoadStep,
) -> bool {
    match outcome {
        Ok(()) => step is ReadBack && after == Migration::Reading(before->Saving_0),
        Err(why) => after is Over && step == (LoadStep::Done {
            outcome: Ok(Some(before->Saving_0)),
            destroy: false,
            warning: Warning::NotMoved(why),
        }),
    }
}

/// What comes of asking the store for what it was given.
pub open spec fn after_read_back(before: Migration, outcome: Loaded, step: LoadStep) -> bool {
    let session = before->Reading_0;
    let kept = outcome matches Ok(Some(back)) && back.says(session);
    step == (LoadStep::Done {
        outcome: Ok(Some(session)),
        destroy: kept,
        warning: if kept {
            Warning::Moved
        } else {
            Warning::NotReadBack
        },
    })
}

impl Migration {
    /// The store is to be asked.
    pub fn new() -> (r: Self)
        ensures
            r is Asked,
    {
        Migration::Asked
    }

    /// The store answered. What it holds wins, and an old file that is still there is removed.
    pub fn loaded(&mut self, outcome: Loaded, file_exists: bool) -> (r: LoadStep)
        requires
            *old(self) is Asked,
        ensures
            after_load(outcome, file_exists, *final(self), r),
    {
        match outcome {
            Ok(Some(session)) => {
                *self = Migration::Over;
                LoadStep::Done {
                    outcome: Ok(Some(session)),
                    destroy: file_exists,
                    warning: if file_exists {
                        Warning::OldFileRemoved
                    } else {
                        Warning::Nothing
                    },
                }
            },
            Ok(None) => {
                *self = Migration::AskedFile(None);
                LoadStep::ReadFile
            },
            Err(why) => {
                *self = Migration::AskedFile(Some(why));
                LoadStep::ReadFile
            },
        }
    }

    /// The old file answered. A session that is only there is copied into the store; if the store
    /// can't be reached it is used, and that is said, rather than lock the user out.
    pub fn read(&mut self, outcome: Loaded) -> (r: LoadStep)
        requires
            *old(self) is AskedFile,
        ensures
            after_read(*old(self), outcome, *final(self), r),
    {
        let mut before = Migration::Over;
        std::mem::swap(&mut before, self);
        match before {
            Migration::AskedFile(None) => match outcome {
                Ok(Some(session)) => {
                    *self = Migration::Saving(session.clone());
                    LoadStep::Save(session)
                },
                other => LoadStep::Done {
                    outcome: other,
                    destroy: false,
                    warning: Warning::Nothing,
                },
            },
            Migration::AskedFile(Some(why)) => match outcome {
                Ok(Some(session)) => LoadStep::Done {
                    outcome: Ok(Some(session)),
                    destroy: false,
                    warning: Warning::UsingFile(why),
                },
                _ => LoadStep::Done {
                    outcome: Err(hint(why)),
                    destroy: false,
                    warning: Warning::Nothing,
                },
            },
            _ => LoadStep::ReadFile,
        }
    }

    /// The store was given the session from the file.
    pub fn saved(&mut self, outcome: Result<(), StoreError>) -> (r: LoadStep)
        requires
            *old(self) is Saving,
        ensures
            after_save(*old(self), outcome, *final(self), r),
    {
        let mut before = Migration::Over;
        std::mem::swap(&mut before, self);
        match before {
            Migration::Saving(session) => match outcome {
                Ok(()) => {
                    *self = Migration::Reading(session);
                    LoadStep::ReadBack
                },
                Err(why) => LoadStep::Done {
                    outcome: Ok(Some(session)),
                    destroy: false,
                    warning: Warning::NotMoved(why),
                },
            },
            _ => LoadStep::ReadBack,
        }
    }

    /// The store was asked for what it was given. Only if it says the same is the file destroyed.
    pub fn read_back(&mut self, outcome: Loaded) -> (r: LoadStep)
        requires
            *old(self) is Reading,
        ensures
            *final(self) is Over,
            after_read_back(*old(self), outcome, r),
    {
        let mut before = Migration::Over;
        std::mem::swap(&mut before, self);
        match before {
            Migration::Reading(session) => {
                let kept = match &outcome {
                    Ok(Some(back)) => back.same(&session),
                    _ => false,
                };
                LoadStep::Done {
                    outcome: Ok(Some(session)),
                    destroy: kept,
                    warning: if kept {
                        Warning::Moved
                    } else {
                        Warning::NotReadBack
                    },
                }
            },
            _ => LoadStep::ReadBack,
        }
    }
}

/// The answers that loading a session got, in the order of the questions, and the steps that they
/// led to; those of questions that were not asked are left open.
pub struct Course {
    /// Whether the old file is still there.
    pub file_exists: bool,
    /// The store's answer.
    pub loaded: Loaded,
    /// The old file's answer.
    pub read: Loaded,
    /// What came of giving the session to the store.
    pub saved: Result<(), StoreError>,
    /// The store's answer when it was asked for what it was given.
    pub read_back: Loaded,
    /// Where the load stood after each answer.
    pub at: Seq<Migration>,
    /// What was to be done after each answer.
    pub steps: Seq<LoadStep>,
}

impl Course {
    /// Whether each answer was followed as [`Migration`] has it.
    pub open spec fn followed(self) -> bool {
        &&& self.at.len() == 4
        &&& self.steps.len() == 4
        &&& after_load(self.loaded, self.file_exists, self.at[0], self.steps[0])
        &&& self.steps[0] is ReadFile ==> after_read(
            self.at[0],
            self.read,
            self.at[1],
            self.steps[1],
        )
        &&& self.saves() ==> after_save(self.at[1], self.saved, self.at[2], self.steps[2])
        &&& self.reads_back() ==> after_read_back(self.at[2], self.read_back, self.steps[3])
    }

    /// Whether the store was given the session from the file.
    pub open spec fn saves(self) -> bool {
        self.steps[0] is ReadFile && self.steps[1] is Save
    }

    /// Whether the store was asked for what it was given.
    pub open spec fn reads_back(self) -> bool {
        self.saves() && self.steps[2] is ReadBack
    }

    /// What the load came to.
    pub open spec fn end(self) -> LoadStep {
        if self.reads_back() {
            self.steps[3]
        } else if self.saves() {
            self.steps[2]
        } else if self.steps[0] is ReadFile {
            self.steps[1]
        } else {
            self.steps[0]
        }
    }
}

/// A session is never lost, whatever fails on the way: every load comes to an end; the file is
/// destroyed only if the store answered with a session, which says the same as the file's if it
/// came from there; and a session that only the file has is the one that is loaded.
pub proof fn a_session_is_never_lost(course: Course)
    requires
        course.followed(),
    ensures
        course.end() matches LoadStep::Done { outcome, destroy, .. } && {
            &&& destroy ==> (course.loaded matches Ok(Some(_))) || (course.reads_back()
                && course.saved is Ok && (course.read_back matches Ok(Some(back))
                && (course.read matches Ok(Some(session)) && back.says(session))))
            &&& !(course.loaded matches Ok(Some(_))) ==> (course.read matches Ok(Some(session))
                ==> outcome == Ok::<Option<StoredSession>, StoreError>(Some(session)))
        },
{
}

/// What deleting a session found: an item in the store, or a file, or nothing.
pub fn deleted(had_item: bool, had_file: bool) -> (r: bool)
    ensures
        r == (had_item || had_file),
{
    had_item || had_file
}

} // verus!
