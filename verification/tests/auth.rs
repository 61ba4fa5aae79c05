//! Logging in, and where the session is kept.

use phonia_core::auth::migrate::{deleted, hint, LoadStep, Loaded, Migration, Warning};
use phonia_core::auth::secret_service::{
    after_asking, after_prompt, after_unlock, default_collection, no_answer, no_bus, not_a_session,
    reply_error, shows_prompt, Interaction, PromptEnd, UnlockStep,
};
use phonia_core::auth::store::{
    is_client_state, shape_of, sort_of, stored_from, FileSession, FileStore, FileText, Login,
    MemoryStore, Shape, Sort,
    StoreError, StoredSession, VERSION,
};
use phonia_core::auth::{
    load_pending_login, redirect_url, PendingError, PendingLogin, PendingRead,
    PENDING_LOGIN_MAX_AGE_SECS,
};
use tidlers::auth::init::TidalAuth;
use tidlers::TidalClient;

// ---- a login that was started ------------------------------------------------------------------

const PATH: &str = "/home/u/.config/phonia/pending-login.json";

fn started(at: u64) -> PendingRead {
    let client_json = TidalClient::new(&TidalAuth::with_pkce()).get_json();
    PendingRead::Read(PendingLogin { created_at: at, client_json })
}

/// What a client says of its login.
fn login_of(client: &TidalClient) -> Login {
    let auth = &client.session.auth;
    Login {
        refresh_token: auth.refresh_token.clone(),
        client_id: auth.pkce_config.client_id.clone(),
        client_secret: auth.pkce_config.client_secret.clone(),
    }
}

/// The login of the client whose state a text is.
fn login_in(text: &str) -> Result<Login, String> {
    TidalClient::from_json(text).map(|client| login_of(&client)).map_err(|error| error.to_string())
}

fn finish(read: PendingRead, now: u64) -> Result<String, PendingError> {
    let login = match &read {
        PendingRead::Read(pending) => login_in(&pending.client_json),
        _ => Err("there is no client".to_string()),
    };
    load_pending_login(read, login, PATH, now)
}

#[test]
fn stale_pending_login_is_rejected_and_deleted() {
    let error = finish(started(1_000), 1_000 + PENDING_LOGIN_MAX_AGE_SECS + 1)
        .unwrap_err();
    assert!(error.message().contains("expired"), "{error:?}");
    assert_eq!(error, PendingError::Expired, "which is what deletes it");
}

#[test]
fn pending_login_at_the_age_limit_is_still_valid() {
    assert!(finish(started(1_000), 1_000 + PENDING_LOGIN_MAX_AGE_SECS).is_ok());
}

#[test]
fn missing_pending_login_tells_the_user_what_to_run() {
    let error = finish(PendingRead::Missing, 1_000).unwrap_err();
    assert!(error.message().contains("phonia login --no-wait"), "{error:?}");
}

#[test]
fn corrupt_pending_login_is_reported() {
    let error = finish(PendingRead::Corrupt, 1_000).unwrap_err();
    assert!(error.message().contains("corrupt"), "{error:?}");
}

#[test]
fn a_clock_that_went_back_does_not_make_a_login_stale() {
    assert!(finish(started(1_000), 10).is_ok());
    assert_eq!(
        finish(PendingRead::Unreadable, 10).unwrap_err().message(),
        "reading the pending login at \"/home/u/.config/phonia/pending-login.json\""
    );
}

#[test]
fn a_pending_login_without_a_client_is_corrupt() {
    let pending =
        || PendingRead::Read(PendingLogin { created_at: 1_000, client_json: "{}".to_string() });
    let error = finish(pending(), 1_000).unwrap_err();
    assert_eq!(error, PendingError::Corrupt(PATH.to_string()));
}

#[test]
fn a_pasted_url_loses_the_white_space_around_it() {
    assert_eq!(redirect_url("  https://x/?code=1 \n").unwrap(), "https://x/?code=1");
    assert_eq!(redirect_url(" \n").unwrap_err(), "no redirect URL was received");
}

// ---- what is stored ----------------------------------------------------------------------------

fn session() -> StoredSession {
    StoredSession {
        v: VERSION,
        refresh_token: "refresh-secret".into(),
        client_id: "the-client".into(),
        client_secret: "the-client-secret".into(),
    }
}

/// What is to be kept of a client's login.
fn stored(client: &TidalClient) -> Result<StoredSession, String> {
    let login = login_of(client);
    stored_from(login.refresh_token, login.client_id, login.client_secret)
}

#[test]
fn what_a_login_leaves_is_what_gets_stored() {
    let mut client = TidalClient::new(&TidalAuth::with_pkce());
    let auth = &mut client.session.auth;
    auth.refresh_token = Some("refresh-secret".into());
    auth.pkce_config.client_id = "the-client".into();
    auth.pkce_config.client_secret = "the-client-secret".into();
    assert!(stored(&client).unwrap() == session());
}

#[test]
fn a_login_without_a_refresh_token_cannot_be_stored() {
    let client = TidalClient::new(&TidalAuth::with_pkce());
    assert!(stored(&client).err().unwrap().contains("refresh token"));
}

#[test]
fn the_debug_output_hides_the_secrets() {
    let text = session().shown();
    assert!(!text.contains("refresh-secret") && !text.contains("the-client-secret"), "{text}");
    assert!(text.contains("the-client"), "the client id is not secret: {text}");
}

#[test]
fn sessions_that_differ_in_anything_are_not_the_same() {
    assert!(session().same(&session()));
    assert!(session().clone().same(&session()));
    assert!(!session().same(&StoredSession { v: 2, ..session() }));
    assert!(!session().same(&StoredSession { refresh_token: "x".into(), ..session() }));
    assert!(!session().same(&StoredSession { client_id: "x".into(), ..session() }));
    assert!(!session().same(&StoredSession { client_secret: "x".into(), ..session() }));
}

/// A file with this text, which read as a session of this version is none.
fn file(text: &str) -> FileText {
    FileText::Text {
        text: text.to_string(),
        session: Err("no session".to_string()),
        login: login_in(text),
    }
}

/// The state of a client, as the first versions saved it.
fn legacy_json() -> String {
    let mut client = TidalClient::new(&TidalAuth::with_pkce());
    let auth = &mut client.session.auth;
    auth.refresh_token = Some("refresh-secret".into());
    auth.client_id = "the-client".into();
    auth.client_secret = "the-client-secret".into();
    auth.pkce_config.client_id = "the-client".into();
    auth.pkce_config.client_secret = "the-client-secret".into();
    auth.access_token = Some("access-secret".into());
    auth.refresh_expiry = Some(14_400);
    auth.last_refresh_time = Some(1_700_000_000);
    auth.user_id = Some(42);
    client.get_json()
}

const VERSIONED: &str = "{\"v\":1,\"refresh_token\":\"refresh-secret\",\
    \"client_id\":\"the-client\",\"client_secret\":\"the-client-secret\"}";

#[test]
fn a_file_that_is_not_a_session_is_reported_not_overwritten() {
    let store = FileStore::new("/s.json".into());
    for text in ["not json", "{\"hello\":1}"] {
        let error = store.read(file(text)).err().unwrap();
        assert!(matches!(error, StoreError::Corrupt(_)), "{text}: {error:?}");
    }
    assert_eq!(
        store.read(file("{\"hello\":1}")).err().unwrap().message(),
        "the stored session is unreadable: \"/s.json\": it is not a phonia session"
    );
    assert_eq!(
        store.read(file("not json")).err().unwrap().message(),
        "the stored session is unreadable: \"/s.json\": expected ident at line 1 column 2"
    );
}

#[test]
fn the_older_format_is_read_and_rewritten_without_the_personal_data() {
    let store = FileStore::new("/s.json".into());
    let read = store.read(file(&legacy_json())).ok().unwrap();
    assert!(read == Some(FileSession { session: session(), rewrite: true }));
    let again = FileText::Text {
        text: VERSIONED.to_string(),
        session: Ok(session()),
        login: login_in(VERSIONED),
    };
    let read = store.read(again).ok().unwrap();
    assert!(read == Some(FileSession { session: session(), rewrite: false }), "the second time");
}

#[test]
fn a_text_is_sorted_by_the_names_in_it() {
    let sorted = |text: &str| sort_of(text, login_in(text));
    assert!(sorted(VERSIONED) == Sort::Versioned);
    assert!(sorted("{\"v\":null,\"session\":{}}") == Sort::Versioned, "the version decides");
    assert!(sorted(&legacy_json()) == Sort::Older(Ok(session())));
    let mut client = TidalClient::new(&TidalAuth::with_pkce());
    client.session.auth.refresh_token = None;
    let why = "the login did not return a refresh token".to_string();
    assert!(sorted(&client.get_json()) == Sort::Older(Err(why)));
    assert!(sort_of("{\"session\":1}", Err("x".into())) == Sort::Older(Err("x".into())));
    assert!(matches!(sorted("{\"v\":1"), Sort::NotJson(_)));
    for text in ["{}", "[\"v\",\"session\"]", "\"v\"", "null", "1"] {
        assert!(sorted(text) == Sort::Unknown, "{text}");
        assert!(!is_client_state(text), "{text}");
    }
    assert!(is_client_state(&legacy_json()));
    assert!(!is_client_state(VERSIONED) && !is_client_state("{\"session\":1"));
    assert_eq!(shape_of(&vec!["a".into(), "session".into()]), Shape::Client);
    assert_eq!(shape_of(&vec!["session".into(), "v".into()]), Shape::Versioned);
    assert_eq!(shape_of(&vec!["a".into()]), Shape::Unknown);
}

#[test]
fn a_file_that_is_not_there_holds_no_session() {
    let store = FileStore::new("/s.json".into());
    assert!(store.read(FileText::Missing).ok().unwrap().is_none());
    assert_eq!((store.path(), store.describe().as_str()), ("/s.json", "the file /s.json"));
    assert_eq!(
        store.read(FileText::Unreadable("EACCES".into())).err().unwrap(),
        StoreError::Other("reading \"/s.json\": EACCES".into())
    );
    assert_eq!(
        store.read(file("{\"v\":1}")).err().unwrap(),
        StoreError::Corrupt("\"/s.json\": no session".into())
    );
    for sort in [Sort::NotJson("x".into()), Sort::Older(Err("x".into()))] {
        let error = store.session_in(sort, Ok(session())).err().unwrap();
        assert_eq!(error, StoreError::Corrupt("\"/s.json\": x".into()));
    }
}

#[test]
fn the_memory_store_behaves_like_a_store_and_can_fail() {
    let mut store = MemoryStore::new();
    assert!(store.load().unwrap().is_none());
    store.save(&session()).unwrap();
    assert!(store.load().unwrap() == Some(session()));
    assert_eq!(store.loads(), 2);
    assert!(store.delete().unwrap());

    store.fail_with("no bus".into());
    assert!(matches!(store.load(), Err(StoreError::Unavailable(_))));
    assert_eq!(store.describe(), "memory");
}

#[test]
fn a_failing_memory_store_keeps_what_it_holds_and_counts_nothing() {
    let mut store = MemoryStore::with(session());
    store.load().unwrap();
    store.fail_with("no bus".into());
    let why = || StoreError::Unavailable("no bus".into());
    assert_eq!(store.load().err().unwrap(), why());
    assert_eq!(store.save(&StoredSession { v: 2, ..session() }).unwrap_err(), why());
    assert_eq!(store.delete().unwrap_err(), why());
    assert_eq!(store.loads(), 1);
    store.fail_with("locked out".into());
    assert_eq!(store.delete().unwrap_err(), StoreError::Unavailable("locked out".into()));
}

#[test]
fn what_is_wrong_with_a_store_is_said() {
    assert_eq!(
        StoreError::Unavailable("x".into()).message(),
        "the session store is not available: x"
    );
    assert_eq!(StoreError::Locked("x".into()).message(), "the session store is locked: x");
    assert_eq!(StoreError::Other("x".into()).message(), "x");
}

// ---- moving an old file into a store -----------------------------------------------------------

/// A store in front of an old file. A store that forgets says that it saved and then can't return
/// it.
struct Migrating {
    primary: MemoryStore,
    forgets: bool,
    file: Option<StoredSession>,
    warnings: Vec<String>,
}

impl Migrating {
    fn new(primary: MemoryStore, file: Option<StoredSession>) -> Self {
        Migrating { primary, forgets: false, file, warnings: Vec::new() }
    }

    fn load(&mut self) -> Loaded {
        let mut migration = Migration::new();
        let mut step = migration.loaded(self.primary.load(), self.file.is_some());
        loop {
            step = match step {
                LoadStep::ReadFile => migration.read(Ok(self.file.clone())),
                LoadStep::Save(session) => {
                    let outcome = if self.forgets { Ok(()) } else { self.primary.save(&session) };
                    migration.saved(outcome)
                }
                LoadStep::ReadBack => migration.read_back(self.primary.load()),
                LoadStep::Done { outcome, destroy, warning } => {
                    if destroy {
                        self.file = None;
                    }
                    self.warnings.extend(warning.text("memory", "/s.json"));
                    return outcome;
                }
            };
        }
    }

    fn save(&mut self, session: &StoredSession) -> Result<(), StoreError> {
        self.primary.save(session)?;
        self.file = None;
        Ok(())
    }

    fn delete(&mut self) -> Result<bool, StoreError> {
        let had_item = self.primary.delete()?;
        Ok(deleted(had_item, self.file.take().is_some()))
    }
}

#[test]
fn an_old_file_moves_into_the_store_and_is_destroyed() {
    let mut store = Migrating::new(MemoryStore::new(), Some(session()));
    assert!(store.load().unwrap() == Some(session()));
    assert!(store.primary.load().unwrap() == Some(session()), "it is in the keyring now");
    assert!(store.file.is_none(), "and the file is gone");
    assert_eq!(
        store.warnings,
        ["phonia: moved the TIDAL session from \"/s.json\" to memory; the file was overwritten and removed"]
    );
}

#[test]
fn a_store_that_cannot_be_written_keeps_the_file_and_the_session() {
    let mut keyring = MemoryStore::new();
    keyring.fail_with("locked".into());
    let mut store = Migrating::new(keyring, Some(session()));
    assert!(store.load().unwrap() == Some(session()), "the session is used from the file");
    assert!(store.file.is_some(), "and nothing was lost");
    assert_eq!(
        store.warnings,
        ["phonia: the session store is not available: locked; using the session in \"/s.json\" for now"]
    );
}

#[test]
fn the_file_is_only_destroyed_once_the_store_reads_back_the_same() {
    let mut store = Migrating::new(MemoryStore::new(), Some(session()));
    store.forgets = true;
    assert!(store.load().unwrap() == Some(session()));
    assert!(store.file.is_some(), "an unverified copy is not a reason to lose the file");
    assert_eq!(
        store.warnings,
        ["phonia: the session written to memory could not be read back; keeping \"/s.json\""]
    );
}

#[test]
fn a_session_already_in_the_store_wins_and_a_leftover_file_is_removed() {
    let other = StoredSession { refresh_token: "older".into(), ..session() };
    let mut store = Migrating::new(MemoryStore::with(session()), Some(other));
    assert!(store.load().unwrap() == Some(session()));
    assert!(store.file.is_none());
    assert_eq!(store.warnings, ["phonia: the session is in memory; removing the old \"/s.json\""]);
}

#[test]
fn with_no_session_anywhere_there_is_none() {
    let mut store = Migrating::new(MemoryStore::new(), None);
    assert!(store.load().unwrap().is_none());
}

#[test]
fn an_unreachable_store_and_no_file_is_refused_with_the_way_out() {
    let mut keyring = MemoryStore::new();
    keyring.fail_with("no bus".into());
    let mut store = Migrating::new(keyring, None);
    let error = store.load().err().unwrap().message();
    assert!(error.contains("no bus") && error.contains("session_store = \"file\""), "{error}");
}

#[test]
fn saving_a_login_removes_the_old_file() {
    let mut store = Migrating::new(MemoryStore::new(), Some(session()));
    store.save(&session()).unwrap();
    assert!(store.primary.load().unwrap() == Some(session()));
    assert!(store.file.is_none());
}

#[test]
fn logging_out_forgets_both() {
    let mut store = Migrating::new(MemoryStore::with(session()), Some(session()));
    assert!(store.delete().unwrap());
    assert!(store.primary.load().unwrap().is_none());
    assert!(store.file.is_none());
    assert!(!store.delete().unwrap(), "nothing left the second time");
}

#[test]
fn a_store_that_refuses_the_session_keeps_the_file() {
    let mut migration = Migration::new();
    assert!(migration.loaded(Ok(None), true) == LoadStep::ReadFile);
    assert!(migration.read(Ok(Some(session()))) == LoadStep::Save(session()));
    match migration.saved(Err(StoreError::Locked("x".into()))) {
        LoadStep::Done { outcome: Ok(Some(kept)), destroy: false, warning } => {
            assert!(kept == session());
            assert_eq!(
                warning.text("memory", "/s.json").unwrap(),
                "phonia: could not move the session to memory: the session store is locked: x"
            );
        }
        _ => panic!("the session is used from the file"),
    }
    assert!(Warning::Nothing.text("memory", "/s.json").is_none());
    assert_eq!(hint(StoreError::Locked("x".into())), StoreError::Locked("x".into()));
}

// ---- the keyring -------------------------------------------------------------------------------

#[test]
fn a_keyring_that_is_not_there_is_unavailable() {
    for name in
        ["org.freedesktop.DBus.Error.ServiceUnknown", "org.freedesktop.DBus.Error.NameHasNoOwner"]
    {
        assert_eq!(
            reply_error(Some(name), "x"),
            StoreError::Unavailable(
                "nothing on the session bus provides org.freedesktop.secrets".into()
            )
        );
    }
    assert_eq!(
        reply_error(Some("org.freedesktop.DBus.Error.Failed"), "x"),
        StoreError::Other("the keyring answered: x".into())
    );
    assert_eq!(reply_error(None, "x"), StoreError::Other("the keyring answered: x".into()));
    assert_eq!(no_bus("x"), StoreError::Unavailable("no D-Bus session bus: x".into()));
    assert!(matches!(no_answer(), StoreError::Unavailable(_)));
    assert_eq!(
        not_a_session("x"),
        StoreError::Corrupt("the keyring's item is not a phonia session: x".into())
    );
}

#[test]
fn new_items_go_to_the_default_collection() {
    assert_eq!(default_collection("/c/login").unwrap(), "/c/login");
    assert!(matches!(default_collection("/"), Err(StoreError::Unavailable(_))));
}

#[test]
fn the_user_is_only_asked_where_that_is_allowed() {
    let items = || vec!["/c/1".to_string()];
    assert_eq!(after_unlock(items(), "/", Interaction::Never), UnlockStep::Unlocked(items()));
    assert_eq!(after_unlock(vec![], "/prompt", Interaction::Allow), UnlockStep::Prompt);
    assert!(matches!(
        after_unlock(vec![], "/prompt", Interaction::Never),
        UnlockStep::Fail(StoreError::Locked(_))
    ));
    assert_eq!(after_asking(items(), "/"), Ok(items()));
    assert_eq!(
        after_asking(vec![], "/"),
        Err(StoreError::Locked("the keyring is still locked".into()))
    );
    assert!(after_asking(items(), "/prompt").is_err());
    assert_eq!(shows_prompt("/", Interaction::Never), Ok(false));
    assert_eq!(shows_prompt("/prompt", Interaction::Allow), Ok(true));
    assert!(matches!(shows_prompt("/prompt", Interaction::Never), Err(StoreError::Locked(_))));
}

#[test]
fn a_prompt_ends_in_one_way_or_another() {
    assert_eq!(after_prompt(PromptEnd::Answered), Ok(()));
    assert!(matches!(after_prompt(PromptEnd::TimedOut), Err(StoreError::Locked(_))));
    assert!(matches!(after_prompt(PromptEnd::Gone), Err(StoreError::Unavailable(_))));
    assert_eq!(
        after_prompt(PromptEnd::Dismissed),
        Err(StoreError::Locked("the keyring's prompt was dismissed".into()))
    );
    assert_eq!(
        after_prompt(PromptEnd::Unreadable("x".into())),
        Err(StoreError::Other("x".into()))
    );
}
