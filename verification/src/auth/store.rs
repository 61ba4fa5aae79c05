//! Where the TIDAL session is kept between runs.
//!
//! What has to survive is small: the refresh token, which TIDAL never rotates and which is the only
//! long-lived credential, and the client id and secret it was issued to (it only works with them).
//! Everything else comes back with a refresh, so none of it is stored.

use crate::pieces::texts_of;
use crate::text::{decimal, decimal_text, joined, quoted, quoted_text, same};
use serde_json::Value;
use vstd::prelude::*;

verus! {

/// The version written into a stored session, to tell it from the older format and from later ones.
pub const VERSION: u32 = 1;

/// What is kept of a login.
#[derive(PartialEq, Eq)]
pub struct StoredSession {
    /// The version of the format.
    pub v: u32,
    /// The refresh token.
    pub refresh_token: String,
    /// TIDAL's client id that the token was issued to. A refresh token only works together with it
    /// and its secret.
    pub client_id: String,
    /// TIDAL's client secret that the token was issued to.
    pub client_secret: String,
}

impl Clone for StoredSession {
    fn clone(&self) -> (r: Self)
        ensures
            r == *self,
    {
        StoredSession {
            v: self.v,
            refresh_token: self.refresh_token.clone(),
            client_id: self.client_id.clone(),
            client_secret: self.client_secret.clone(),
        }
    }
}

impl StoredSession {
    /// Whether two sessions say the same.
    pub open spec fn says(self, other: StoredSession) -> bool {
        &&& self.v == other.v
        &&& self.refresh_token@ == other.refresh_token@
        &&& self.client_id@ == other.client_id@
        &&& self.client_secret@ == other.client_secret@
    }

    /// Whether two sessions say the same.
    pub fn same(&self, other: &StoredSession) -> (r: bool)
        ensures
            r == self.says(*other),
    {
        self.v == other.v && same(self.refresh_token.as_str(), other.refresh_token.as_str())
            && same(self.client_id.as_str(), other.client_id.as_str()) && same(
            self.client_secret.as_str(),
            other.client_secret.as_str(),
        )
    }

    /// What [`StoredSession::shown`] says.
    pub open spec fn shown_text(self) -> Seq<char> {
        "StoredSession { v: "@ + decimal_text(self.v as nat)
            + ", refresh_token: \"<hidden>\", client_id: "@ + quoted_text(self.client_id@)
            + ", client_secret: \"<hidden>\" }"@
    }

    /// The session for a log: without its secrets. (The client id is none.)
    pub fn shown(&self) -> (r: String)
        ensures
            r@ == self.shown_text(),
    {
        let mut text = String::new();
        text.push_str("StoredSession { v: ");
        text.push_str(decimal(self.v as u64).as_str());
        text.push_str(", refresh_token: \"<hidden>\", client_id: ");
        text.push_str(quoted(self.client_id.as_str()).as_str());
        text.push_str(", client_secret: \"<hidden>\" }");
        assert(text@ =~= self.shown_text());
        text
    }
}

/// What is shown of a session says nothing of its secrets: sessions that differ in nothing else look
/// the same.
pub proof fn secrets_are_not_shown(a: StoredSession, b: StoredSession)
    requires
        a.v == b.v,
        a.client_id@ == b.client_id@,
    ensures
        a.shown_text() == b.shown_text(),
{
}

/// What to keep of a login that left these credentials.
pub fn stored_from(refresh_token: Option<String>, client_id: String, client_secret: String) -> (r:
    Result<StoredSession, String>)
    ensures
        match refresh_token {
            Some(token) => r == Ok::<StoredSession, String>(
                StoredSession { v: VERSION, refresh_token: token, client_id, client_secret },
            ),
            None => r matches Err(why) && why@ == "the login did not return a refresh token"@,
        },
{
    match refresh_token {
        Some(refresh_token) => Ok(
            StoredSession { v: VERSION, refresh_token, client_id, client_secret },
        ),
        None => Err("the login did not return a refresh token".to_owned()),
    }
}

/// Why a session could not be loaded, saved or deleted.
#[derive(Debug, PartialEq, Eq)]
pub enum StoreError {
    /// The place that keeps the session can't be reached.
    Unavailable(String),
    /// It is there but locked, and nothing could unlock it.
    Locked(String),
    /// What is stored can't be read.
    Corrupt(String),
    /// Something else.
    Other(String),
}

impl StoreError {
    /// What [`StoreError::message`] says.
    pub open spec fn text(self) -> Seq<char> {
        match self {
            StoreError::Unavailable(why) => "the session store is not available: "@ + why@,
            StoreError::Locked(why) => "the session store is locked: "@ + why@,
            StoreError::Corrupt(why) => "the stored session is unreadable: "@ + why@,
            StoreError::Other(why) => why@,
        }
    }

    /// What to tell the user.
    pub fn message(&self) -> (r: String)
        ensures
            r@ == self.text(),
    {
        match self {
            StoreError::Unavailable(why) => joined(
                "the session store is not available: ",
                why.as_str(),
            ),
            StoreError::Locked(why) => joined("the session store is locked: ", why.as_str()),
            StoreError::Corrupt(why) => joined("the stored session is unreadable: ", why.as_str()),
            StoreError::Other(why) => why.clone(),
        }
    }
}

// ---- a file ------------------------------------------------------------------------------------

/// The names in the object that a JSON text is, in some order; none if it is something else; or why
/// the text is no JSON.
pub uninterp spec fn json_names(text: Seq<char>) -> Result<Seq<Seq<char>>, Seq<char>>;

/// Trusts `serde_json::from_str` to a `Value` of serde_json: whether it is JSON, what names it has
/// if it is an object, and what is said if it is not JSON, depend on the text alone.
#[verifier::external_body]
fn read_names(text: &str) -> (r: Result<Vec<String>, String>)
    ensures
        match r {
            Ok(names) => json_names(text@) == Ok::<Seq<Seq<char>>, Seq<char>>(texts_of(names@)),
            Err(why) => json_names(text@) == Err::<Seq<Seq<char>>, Seq<char>>(why@),
        },
{
    match serde_json::from_str::<Value>(text) {
        Ok(Value::Object(members)) => Ok(members.keys().cloned().collect()),
        Ok(_) => Ok(Vec::new()),
        Err(e) => Err(e.to_string()),
    }
}

/// What a client says of its login: the refresh token, and the client id and secret that it was
/// issued to.
#[derive(PartialEq, Eq)]
pub struct Login {
    /// The refresh token, if there is one.
    pub refresh_token: Option<String>,
    /// The client id.
    pub client_id: String,
    /// The client secret.
    pub client_secret: String,
}

impl View for Login {
    type V = (Option<Seq<char>>, Seq<char>, Seq<char>);

    open spec fn view(&self) -> (Option<Seq<char>>, Seq<char>, Seq<char>) {
        (
            match self.refresh_token {
                Some(token) => Some(token@),
                None => None,
            },
            self.client_id@,
            self.client_secret@,
        )
    }
}

/// What a JSON text is, going by the names in it.
#[derive(Debug, Clone, Copy, PartialEq, Eq, Structural)]
pub enum Shape {
    /// It has a version.
    Versioned,
    /// It is the whole state of a client, as the first versions saved it.
    Client,
    /// It is something else.
    Unknown,
}

/// What a JSON text with these names is.
pub open spec fn shape(names: Seq<Seq<char>>) -> Shape {
    if names.contains("v"@) {
        Shape::Versioned
    } else if names.contains("session"@) {
        Shape::Client
    } else {
        Shape::Unknown
    }
}

fn has_name(names: &Vec<String>, name: &str) -> (r: bool)
    ensures
        r == texts_of(names@).contains(name@),
{
    let mut i: usize = 0;
    while i < names.len()
        invariant
            i <= names.len(),
            forall|j: int| 0 <= j < i ==> texts_of(names@)[j] != name@,
        decreases names.len() - i,
    {
        if same(names[i].as_str(), name) {
            assert(texts_of(names@)[i as int] == name@);
            return true;
        }
        i += 1;
    }
    false
}

/// What a JSON text with these names is.
pub fn shape_of(names: &Vec<String>) -> (r: Shape)
    ensures
        r == shape(texts_of(names@)),
{
    if has_name(names, "v") {
        Shape::Versioned
    } else if has_name(names, "session") {
        Shape::Client
    } else {
        Shape::Unknown
    }
}

/// Whether the text of a session file is the whole state of a client, so that it matters what its
/// login is.
pub fn is_client_state(text: &str) -> (r: bool)
    ensures
        r == (json_names(text@) matches Ok(names) && shape(names) is Client),
{
    match read_names(text) {
        Ok(names) => shape_of(&names) == Shape::Client,
        Err(_) => false,
    }
}

/// What the text of a session file is.
#[derive(PartialEq, Eq)]
pub enum Sort {
    /// No JSON, with why.
    NotJson(String),
    /// It has a version.
    Versioned,
    /// The whole state of a client, as the first versions saved it, which leaves this to keep of it;
    /// or none, with why.
    Older(Result<StoredSession, String>),
    /// Something else.
    Unknown,
}

/// Whether `kept` is what is left to keep of the login of a client; or why there is no client.
pub open spec fn is_kept(
    login: Result<Login, String>,
    kept: Result<StoredSession, String>,
) -> bool {
    match login {
        Ok(login) => match login@ {
            (Some(token), id, secret) => kept matches Ok(session) && session.v == VERSION
                && session.refresh_token@ == token && session.client_id@ == id
                && session.client_secret@ == secret,
            (None, _, _) => kept matches Err(why) && why@
                == "the login did not return a refresh token"@,
        },
        Err(why) => kept matches Err(w) && w@ == why@,
    }
}

/// Whether `sort` is what the text of a session file is, which read as the state of a client has
/// the login `login`.
pub open spec fn is_sort(text: Seq<char>, login: Result<Login, String>, sort: Sort) -> bool {
    match json_names(text) {
        Err(why) => sort matches Sort::NotJson(w) && w@ == why,
        Ok(names) => match shape(names) {
            Shape::Versioned => sort is Versioned,
            Shape::Client => sort matches Sort::Older(kept) && is_kept(login, kept),
            Shape::Unknown => sort is Unknown,
        },
    }
}

/// What the text of a session file is, which read as the state of a client has the login `login`,
/// or is none, with why.
pub fn sort_of(text: &str, login: Result<Login, String>) -> (r: Sort)
    ensures
        is_sort(text@, login, r),
{
    let names = match read_names(text) {
        Ok(names) => names,
        Err(why) => {
            return Sort::NotJson(why);
        },
    };
    match shape_of(&names) {
        Shape::Versioned => Sort::Versioned,
        Shape::Client => Sort::Older(
            match login {
                Ok(login) => stored_from(
                    login.refresh_token,
                    login.client_id,
                    login.client_secret,
                ),
                Err(why) => Err(why),
            },
        ),
        Shape::Unknown => Sort::Unknown,
    }
}

/// What was found where a file would hold a session.
#[derive(PartialEq, Eq)]
pub enum FileText {
    /// There is no such file.
    Missing,
    /// It can't be read, with why.
    Unreadable(String),
    /// A text.
    Text {
        /// The text.
        text: String,
        /// What it is when it is read as a session of this version; or why it is none.
        session: Result<StoredSession, String>,
        /// The login when it is read as the state of a client; or why it is none.
        login: Result<Login, String>,
    },
}

/// A session as it was read from a file.
#[derive(PartialEq, Eq)]
pub struct FileSession {
    /// The session.
    pub session: StoredSession,
    /// Whether the file has to be rewritten, keeping only what matters.
    pub rewrite: bool,
}

/// The session in a file only its owner can read.
pub struct FileStore {
    path: String,
}

impl FileStore {
    /// Where the file is.
    pub closed spec fn at(self) -> Seq<char> {
        self.path@
    }

    /// The session in the file at `path`.
    pub fn new(path: String) -> (r: Self)
        ensures
            r.at() == path@,
    {
        FileStore { path }
    }

    /// Where the file is.
    pub fn path(&self) -> (r: &str)
        ensures
            r@ == self.at(),
    {
        self.path.as_str()
    }

    /// Where the session is kept, for messages.
    pub fn describe(&self) -> (r: String)
        ensures
            r@ == "the file "@ + self.at(),
    {
        joined("the file ", self.path.as_str())
    }

    /// What is said of a file that is no session.
    pub open spec fn corrupt_text(self, why: Seq<char>) -> Seq<char> {
        quoted_text(self.at()) + ": "@ + why
    }

    fn corrupt(&self, why: &str) -> (r: StoreError)
        ensures
            r matches StoreError::Corrupt(text) && text@ == self.corrupt_text(why@),
    {
        let mut text = quoted(self.path.as_str());
        text.push_str(": ");
        text.push_str(why);
        assert(text@ =~= self.corrupt_text(why@));
        StoreError::Corrupt(text)
    }

    /// Whether `r` is what a text of the sort `sort` holds, which read as a session of this version
    /// is `session`.
    pub open spec fn is_session(
        self,
        sort: Sort,
        session: Result<StoredSession, String>,
        r: Result<Option<FileSession>, StoreError>,
    ) -> bool {
        match (sort, session) {
            (Sort::NotJson(why), _) | (Sort::Versioned, Err(why)) | (Sort::Older(Err(why)), _) =>
                r matches Err(StoreError::Corrupt(text)) && text@ == self.corrupt_text(why@),
            (Sort::Versioned, Ok(session)) => r == Ok::<Option<FileSession>, StoreError>(
                Some(FileSession { session, rewrite: false }),
            ),
            (Sort::Older(Ok(session)), _) => r == Ok::<Option<FileSession>, StoreError>(
                Some(FileSession { session, rewrite: true }),
            ),
            (Sort::Unknown, _) => r matches Err(StoreError::Corrupt(text)) && text@
                == self.corrupt_text("it is not a phonia session"@),
        }
    }

    /// The session that a text of the sort `sort` holds, which read as a session of this version is
    /// `session`. Nothing but what is known to be a session is ever overwritten.
    pub fn session_in(&self, sort: Sort, session: Result<StoredSession, String>) -> (r: Result<
        Option<FileSession>,
        StoreError,
    >)
        ensures
            self.is_session(sort, session, r),
    {
        match sort {
            Sort::NotJson(why) => Err(self.corrupt(why.as_str())),
            Sort::Versioned => match session {
                Ok(session) => Ok(Some(FileSession { session, rewrite: false })),
                Err(why) => Err(self.corrupt(why.as_str())),
            },
            Sort::Older(kept) => match kept {
                Ok(session) => Ok(Some(FileSession { session, rewrite: true })),
                Err(why) => Err(self.corrupt(why.as_str())),
            },
            Sort::Unknown => Err(self.corrupt("it is not a phonia session")),
        }
    }

    /// The session in a file, given what was found there.
    pub fn read(&self, found: FileText) -> (r: Result<Option<FileSession>, StoreError>)
        ensures
            match found {
                FileText::Missing => r == Ok::<Option<FileSession>, StoreError>(None),
                FileText::Unreadable(why) => r matches Err(StoreError::Other(text)) && text@
                    == "reading "@ + quoted_text(self.at()) + ": "@ + why@,
                FileText::Text { text, session, login } => exists|sort: Sort| #[trigger]
                    is_sort(text@, login, sort) && self.is_session(sort, session, r),
            },
    {
        match found {
            FileText::Missing => Ok(None),
            FileText::Unreadable(why) => {
                let mut text = String::new();
                text.push_str("reading ");
                text.push_str(quoted(self.path.as_str()).as_str());
                text.push_str(": ");
                text.push_str(why.as_str());
                assert(text@ =~= "reading "@ + quoted_text(self.at()) + ": "@ + why@);
                Err(StoreError::Other(text))
            },
            FileText::Text { text, session, login } => self.session_in(
                sort_of(text.as_str(), login),
                session,
            ),
        }
    }
}

// ---- memory ------------------------------------------------------------------------------------

/// What can be done with a store in memory.
pub enum StoreCall {
    /// [`MemoryStore::load`].
    Load,
    /// [`MemoryStore::save`].
    Save(StoredSession),
    /// [`MemoryStore::delete`].
    Delete,
    /// [`MemoryStore::fail_with`].
    FailWith(String),
}

/// A store in memory at one moment.
pub struct StoreModel {
    /// What is stored.
    pub stored: Option<StoredSession>,
    /// What every operation fails with, if it does.
    pub failure: Option<String>,
    /// How often it was read.
    pub reads: nat,
}

impl StoreModel {
    /// The store after `call`.
    pub open spec fn after(self, call: StoreCall) -> StoreModel {
        match call {
            StoreCall::FailWith(why) => StoreModel { failure: Some(why), ..self },
            _ => if self.failure is Some {
                self
            } else {
                match call {
                    StoreCall::Load => StoreModel { reads: self.reads + 1, ..self },
                    StoreCall::Save(session) => StoreModel { stored: Some(session), ..self },
                    _ => StoreModel { stored: None, ..self },
                }
            },
        }
    }

    /// The store after `calls`, one after the other.
    pub open spec fn after_all(self, calls: Seq<StoreCall>) -> StoreModel
        decreases calls.len(),
    {
        if calls.len() == 0 {
            self
        } else {
            self.after_all(calls.drop_last()).after(calls.last())
        }
    }

    /// How many of `calls` are loads that do not fail.
    pub open spec fn loads_in(self, calls: Seq<StoreCall>) -> nat
        decreases calls.len(),
    {
        if calls.len() == 0 {
            0
        } else {
            self.loads_in(calls.drop_last()) + if calls.last() is Load && self.after_all(
                calls.drop_last(),
            ).failure is None {
                1nat
            } else {
                0
            }
        }
    }
}

/// The loads that did not fail are counted, and nothing else is.
pub proof fn only_loads_that_succeed_are_counted(store: StoreModel, calls: Seq<StoreCall>)
    ensures
        store.after_all(calls).reads == store.reads + store.loads_in(calls),
    decreases calls.len(),
{
    if calls.len() > 0 {
        only_loads_that_succeed_are_counted(store, calls.drop_last());
    }
}

/// A store that was told to fail with something fails with it until it is told to fail with something
/// else, and keeps what it holds and what it counted as they are.
pub proof fn a_failing_store_changes_nothing(
    store: StoreModel,
    why: String,
    calls: Seq<StoreCall>,
)
    requires
        forall|i: int| 0 <= i < calls.len() ==> !(#[trigger] calls[i] is FailWith),
    ensures
        ({
            let failing = store.after(StoreCall::FailWith(why));
            &&& failing == (StoreModel { failure: Some(why), ..store })
            &&& failing.after_all(calls) == failing
        }),
    decreases calls.len(),
{
    if calls.len() > 0 {
        let earlier = calls.drop_last();
        assert forall|i: int| 0 <= i < earlier.len() implies !(#[trigger] earlier[i]
            is FailWith) by {
            assert(earlier[i] == calls[i]);
        }
        a_failing_store_changes_nothing(store, why, earlier);
        assert(!(calls[calls.len() - 1] is FailWith));
    }
}

/// A store in memory, for tests. It can be told to fail, and counts how often it was read.
pub struct MemoryStore {
    session: Option<StoredSession>,
    failure: Option<String>,
    loads: u32,
}

impl MemoryStore {
    /// What is stored.
    pub closed spec fn stored(self) -> Option<StoredSession> {
        self.session
    }

    /// What every operation fails with, if it does.
    pub closed spec fn failure(self) -> Option<String> {
        self.failure
    }

    /// How often it was read.
    pub closed spec fn reads(self) -> u32 {
        self.loads
    }

    /// The store at this moment.
    pub open spec fn model(self) -> StoreModel {
        StoreModel {
            stored: self.stored(),
            failure: self.failure(),
            reads: self.reads() as nat,
        }
    }

    /// A store with nothing in it.
    pub fn new() -> (r: Self)
        ensures
            r.stored() is None,
            r.failure() is None,
            r.reads() == 0,
    {
        MemoryStore { session: None, failure: None, loads: 0 }
    }

    /// A store with a session in it.
    pub fn with(session: StoredSession) -> (r: Self)
        ensures
            r.stored() == Some(session),
            r.failure() is None,
            r.reads() == 0,
    {
        MemoryStore { session: Some(session), failure: None, loads: 0 }
    }

    /// Every later operation fails as if the store could not be reached.
    pub fn fail_with(&mut self, why: String)
        ensures
            final(self).model() == old(self).model().after(StoreCall::FailWith(why)),
            final(self).failure() == Some(why),
            final(self).stored() == old(self).stored(),
            final(self).reads() == old(self).reads(),
    {
        self.failure = Some(why);
    }

    /// How often it was read.
    pub fn loads(&self) -> (r: u32)
        ensures
            r == self.reads(),
    {
        self.loads
    }

    /// Where the session is kept, for messages.
    pub fn describe(&self) -> (r: String)
        ensures
            r@ == "memory"@,
    {
        "memory".to_owned()
    }

    fn check(&self) -> (r: Result<(), StoreError>)
        ensures
            match self.failure() {
                Some(why) => r == Err::<(), StoreError>(StoreError::Unavailable(why)),
                None => r is Ok,
            },
    {
        match &self.failure {
            Some(why) => Err(StoreError::Unavailable(why.clone())),
            None => Ok(()),
        }
    }

    /// The stored session, or `None` if there is none.
    pub fn load(&mut self) -> (r: Result<Option<StoredSession>, StoreError>)
        requires
            old(self).reads() < u32::MAX,
        ensures
            final(self).model() == old(self).model().after(StoreCall::Load),
            final(self).stored() == old(self).stored(),
            final(self).failure() == old(self).failure(),
            match old(self).failure() {
                Some(why) => r == Err::<Option<StoredSession>, StoreError>(
                    StoreError::Unavailable(why),
                ) && final(self).reads() == old(self).reads(),
                None => r == Ok::<Option<StoredSession>, StoreError>(old(self).stored()) && final(
                    self).reads() == old(self).reads() + 1,
            },
    {
        match self.check() {
            Ok(()) => {},
            Err(why) => {
                return Err(why);
            },
        }
        self.loads = self.loads + 1;
        match &self.session {
            Some(session) => Ok(Some(session.clone())),
            None => Ok(None),
        }
    }

    /// Stores a session in place of what was stored.
    pub fn save(&mut self, session: &StoredSession) -> (r: Result<(), StoreError>)
        ensures
            final(self).model() == old(self).model().after(StoreCall::Save(*session)),
            final(self).failure() == old(self).failure(),
            final(self).reads() == old(self).reads(),
            match old(self).failure() {
                Some(why) => r == Err::<(), StoreError>(StoreError::Unavailable(why)) && final(
                    self).stored() == old(self).stored(),
                None => r is Ok && final(self).stored() == Some(*session),
            },
    {
        match self.check() {
            Ok(()) => {},
            Err(why) => {
                return Err(why);
            },
        }
        self.session = Some(session.clone());
        Ok(())
    }

    /// Forgets the session. Whether there was one.
    pub fn delete(&mut self) -> (r: Result<bool, StoreError>)
        ensures
            final(self).model() == old(self).model().after(StoreCall::Delete),
            final(self).failure() == old(self).failure(),
            final(self).reads() == old(self).reads(),
            match old(self).failure() {
                Some(why) => r == Err::<bool, StoreError>(StoreError::Unavailable(why)) && final(
                    self).stored() == old(self).stored(),
                None => r == Ok::<bool, StoreError>(old(self).stored() is Some) && final(
                    self).stored() is None,
            },
    {
        match self.check() {
            Ok(()) => {},
            Err(why) => {
                return Err(why);
            },
        }
        let had = self.session.is_some();
        self.session = None;
        Ok(had)
    }
}

impl Default for MemoryStore {
    fn default() -> (r: Self)
        ensures
            r.model() == (StoreModel { stored: None, failure: None, reads: 0 }),
    {
        MemoryStore::new()
    }
}

} // verus!
