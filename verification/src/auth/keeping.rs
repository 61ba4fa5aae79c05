//! What holds of keeping a login.

use super::migrate::{deleted, hint_text, Course, LoadStep, Warning};
use super::secret_service::{
    after_asking, after_prompt, after_unlock, is_nothing, shows_prompt, Interaction, PromptEnd,
    UnlockStep, PROMPT_TIMEOUT_SECS, SERVICE_TIMEOUT_SECS,
};
use super::store::{
    is_kept, is_sort, json_names, shape, FileSession, FileStore, Login, Shape, Sort, StoreCall,
    StoreError, StoreModel, StoredSession, VERSION,
};
use super::{
    load_pending_login, redirect_url, PendingError, PendingLogin, PendingRead,
    PENDING_LOGIN_MAX_AGE_SECS,
};
use crate::text::is_space;
use crate::words::trimming_takes_off_space_only;
use vstd::prelude::*;

verus! {

/// Two sessions say the same if, and only if, nothing that they hold differs: neither the version nor
/// the token, nor who it was given to.
pub proof fn sessions_that_say_the_same_hold_the_same(a: StoredSession, b: StoredSession)
    ensures
        a.says(b) == b.says(a),
        a.says(a),
        a.v != b.v ==> !a.says(b),
        a.refresh_token@ != b.refresh_token@ ==> !a.says(b),
        a.client_id@ != b.client_id@ ==> !a.says(b),
        a.client_secret@ != b.client_secret@ ==> !a.says(b),
        a.v == b.v && a.refresh_token@ == b.refresh_token@ && a.client_id@ == b.client_id@
            && a.client_secret@ == b.client_secret@ ==> a.says(b),
{
}

/// The old file is destroyed, and that is said, only where its session is safe elsewhere: the store
/// had one, or gave back exactly what it was given. Otherwise the file stays.
pub proof fn the_old_file_goes_only_when_its_session_is_safe(course: Course)
    requires
        course.followed(),
    ensures
        ({
            let stored = course.loaded matches Ok(Some(_));
            let moved = !stored && course.loaded is Ok && (course.read matches Ok(Some(session))
                && course.saved is Ok && (course.read_back matches Ok(Some(back)) && back.says(
                session,
            )));
            course.end() matches LoadStep::Done { outcome, destroy, warning } && {
                &&& destroy <==> (stored && course.file_exists) || moved
                &&& warning is OldFileRemoved <==> stored && course.file_exists
                &&& warning is Moved <==> moved
                &&& stored ==> outcome == course.loaded
                &&& course.loaded == Ok::<Option<StoredSession>, StoreError>(None) && course.read
                    == Ok::<Option<StoredSession>, StoreError>(None) ==> outcome == course.read
            }
        }),
{
}

/// A store that can't be reached is not asked to keep anything: the session of the file is used for
/// now, and that is said, with why.
pub proof fn a_store_out_of_reach_leaves_the_file_in_use(course: Course, why: StoreError)
    requires
        course.followed(),
        course.loaded == Err::<Option<StoredSession>, StoreError>(why),
    ensures
        !course.saves(),
        course.read matches Ok(Some(session)) ==> course.end() == (LoadStep::Done {
            outcome: Ok(Some(session)),
            destroy: false,
            warning: Warning::UsingFile(why),
        }),
        !(course.read matches Ok(Some(_))) ==> (course.end() matches LoadStep::Done {
            outcome,
            destroy,
            warning,
        } && outcome is Err && !destroy && warning is Nothing && (why matches StoreError::Unavailable(
            text,
        ) ==> (outcome->Err_0 matches StoreError::Unavailable(hinted) && text@.is_prefix_of(
            hinted@,
        )))),
{
    if let StoreError::Unavailable(text) = why {
        let end = ". Set `session_store = \"file\"` under [tidal] in the config file to keep the session in a file instead"@;
        assert(text@.is_prefix_of(text@ + end));
        assert(hint_text(text@) == text@ + end);
    }
}

/// A file with a version is one of phonia's own, whatever else it holds; without one, a file with a
/// session in it is a client's; any other is none.
pub proof fn a_file_is_told_by_its_names(names: Seq<Seq<char>>)
    ensures
        shape(names) is Versioned <==> names.contains("v"@),
        shape(names) is Client <==> !names.contains("v"@) && names.contains("session"@),
        shape(names) is Unknown <==> !names.contains("v"@) && !names.contains("session"@),
{
}

/// Of a login everything is kept that a later one needs, under the version now in use; a login
/// without a refresh token can't be kept, and that is an error.
pub proof fn a_login_is_kept_whole(login: Login, kept: Result<StoredSession, String>)
    requires
        is_kept(Ok(login), kept),
    ensures
        kept is Ok <==> login.refresh_token is Some,
        login.refresh_token matches Some(token) ==> (kept matches Ok(session)
            && session.refresh_token@ == token@ && session.client_id@ == login.client_id@
            && session.client_secret@ == login.client_secret@ && session.v == 1),
        VERSION == 1,
{
}

/// A file of an older kind is rewritten once it was read, and one of phonia's own is left as it is.
pub proof fn an_older_file_is_rewritten(
    store: FileStore,
    sort: Sort,
    session: Result<StoredSession, String>,
    r: Result<Option<FileSession>, StoreError>,
)
    requires
        store.is_session(sort, session, r),
    ensures
        r matches Ok(Some(found)) ==> (found.rewrite <==> sort is Older),
        r matches Ok(Some(found)) ==> (sort matches Sort::Older(Ok(kept)) ==> found.session == kept),
        r matches Ok(Some(found)) ==> (sort is Versioned ==> session == Ok::<StoredSession, String>(
            found.session,
        )),
        r is Err <==> sort is NotJson || sort is Unknown || (sort matches Sort::Older(Err(_))) || (
        sort is Versioned && session is Err),
        r matches Err(why) ==> why is Corrupt,
        !(r matches Ok(None)),
{
}

/// A text is of the kind that its names tell, and what is not JSON is of none.
pub proof fn a_text_is_of_the_kind_its_names_tell(
    text: Seq<char>,
    login: Result<Login, String>,
    sort: Sort,
)
    requires
        is_sort(text, login, sort),
    ensures
        sort is NotJson <==> json_names(text) is Err,
        json_names(text) matches Ok(names) ==> (sort is Versioned <==> names.contains("v"@)),
        json_names(text) matches Ok(names) ==> (sort is Older <==> !names.contains("v"@)
            && names.contains("session"@)),
{
}

/// What a store was given last is what it holds, until it is told to forget it; asking for it changes
/// nothing but the count.
pub proof fn a_store_holds_what_it_was_given_last(store: StoreModel, session: StoredSession)
    requires
        store.failure is None,
    ensures
        store.after(StoreCall::Save(session)).stored == Some(session),
        store.after(StoreCall::Save(session)).reads == store.reads,
        store.after(StoreCall::Save(session)).failure is None,
        store.after(StoreCall::Save(session)).after(StoreCall::Load).stored == Some(session),
        store.after(StoreCall::Load).reads == store.reads + 1,
        store.after(StoreCall::Load).stored == store.stored,
        store.after(StoreCall::Delete).stored is None,
        store.after(StoreCall::Delete).reads == store.reads,
{
}

/// The keyring names nothing by the root path, and by no other.
pub proof fn nothing_is_the_root_path(path: Seq<char>)
    ensures
        is_nothing(path) <==> path.len() == 1 && path[0] == '/',
{
    reveal_strlit("/");
    assert("/"@ =~= seq!['/']);
    if path.len() == 1 && path[0] == '/' {
        assert(path =~= "/"@);
    }
}

/// A login can be finished for five minutes, a prompt waits for five, and the keyring gets fifteen
/// seconds to answer.
pub proof fn a_login_can_be_finished_for_five_minutes()
    ensures
        PENDING_LOGIN_MAX_AGE_SECS == 300,
        PROMPT_TIMEOUT_SECS == 300,
        SERVICE_TIMEOUT_SECS == 15,
{
}

// ---- what the functions give -------------------------------------------------------------------

/// A pending login is finished while it is five minutes old at most, and if it makes sense; a clock
/// that went back does not make it stale.
pub proof fn a_pending_login_is_finished_while_it_is_fresh(
    pending: PendingLogin,
    login: Result<Login, String>,
    path: &str,
    now: u64,
    r: Result<String, PendingError>,
)
    requires
        call_ensures(load_pending_login, (PendingRead::Read(pending), login, path, now), r),
    ensures
        r is Ok <==> now <= pending.created_at + 300 && login is Ok,
        r matches Ok(json) ==> json == pending.client_json,
        r == Err::<String, PendingError>(PendingError::Expired) <==> now > pending.created_at + 300,
{
}

/// Where there is no pending login, that is said: none was started, or it can't be read, or it makes
/// no sense.
pub proof fn a_login_that_was_not_started_is_not_finished(
    login: Result<Login, String>,
    path: &str,
    now: u64,
    missing: Result<String, PendingError>,
    unreadable: Result<String, PendingError>,
    corrupt: Result<String, PendingError>,
)
    requires
        call_ensures(load_pending_login, (PendingRead::Missing, login, path, now), missing),
        call_ensures(load_pending_login, (PendingRead::Unreadable, login, path, now), unreadable),
        call_ensures(load_pending_login, (PendingRead::Corrupt, login, path, now), corrupt),
    ensures
        missing == Err::<String, PendingError>(PendingError::NotStarted),
        unreadable matches Err(PendingError::Unreadable(p)) && p@ == path@,
        corrupt matches Err(PendingError::Corrupt(p)) && p@ == path@,
{
}

/// What was pasted is taken without the space around it, and nothing but space is no URL.
pub proof fn a_pasted_url_is_taken_without_space(pasted: &str, r: Result<String, String>, at: int)
    requires
        call_ensures(redirect_url, (pasted,), r),
    ensures
        r is Ok && 0 <= at < r->Ok_0@.len() && (at == 0 || at == r->Ok_0@.len() - 1) ==> !is_space(
            r->Ok_0@[at],
        ),
        r is Err <==> forall|i: int| 0 <= i < pasted@.len() ==> is_space(#[trigger] pasted@[i]),
{
    let (from, to) = trimming_takes_off_space_only(pasted@);
    if r is Err {
        assert forall|i: int| 0 <= i < pasted@.len() implies is_space(#[trigger] pasted@[i]) by {}
    } else {
        assert(from < to);
        assert(!is_space(pasted@[from]));
        assert(r->Ok_0@ == pasted@.subrange(from, to));
    }
}

/// What is locked is unlocked without asking if it can be, by asking if that is allowed, and not at
/// all otherwise.
pub proof fn what_is_locked_is_unlocked_by_asking_if_allowed(
    unlocked: Vec<String>,
    prompt: &str,
    interaction: Interaction,
    step: UnlockStep,
    shown: Result<bool, StoreError>,
    after: Result<Vec<String>, StoreError>,
)
    requires
        call_ensures(after_unlock, (unlocked, prompt, interaction), step),
        call_ensures(shows_prompt, (prompt, interaction), shown),
        call_ensures(after_asking, (unlocked, prompt), after),
    ensures
        step is Unlocked <==> prompt@ == "/"@,
        step is Prompt <==> prompt@ != "/"@ && interaction is Allow,
        step is Fail <==> prompt@ != "/"@ && !(interaction is Allow),
        step matches UnlockStep::Unlocked(all) ==> all == unlocked,
        shown == Ok::<bool, StoreError>(true) <==> prompt@ != "/"@ && interaction is Allow,
        shown == Ok::<bool, StoreError>(false) <==> prompt@ == "/"@,
        after is Ok <==> prompt@ == "/"@ && unlocked@.len() > 0,
        after matches Ok(all) ==> all == unlocked,
{
}

/// A prompt that was answered is the only one that leads on.
pub proof fn only_an_answered_prompt_leads_on(end: PromptEnd, r: Result<(), StoreError>)
    requires
        call_ensures(after_prompt, (end,), r),
    ensures
        r is Ok <==> end is Answered,
        end is Dismissed || end is TimedOut ==> r matches Err(StoreError::Locked(_)),
        end is Gone ==> r matches Err(StoreError::Unavailable(_)),
{
}

/// Something was deleted if there was anything, in the store or in the file.
pub proof fn something_was_deleted_if_there_was_anything(item: bool, file: bool, r: bool)
    requires
        call_ensures(deleted, (item, file), r),
    ensures
        !r <==> !item && !file,
{
}

} // verus!
