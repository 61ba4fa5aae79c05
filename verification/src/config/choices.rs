//! What holds of deciding a setting.

use super::{
    discover, given, load, path_in, resolve, tidal_quality, Attempt, ConfigFile, ConfigSource,
    Loaded, Origin, OutputMode, OutputSpec, Overrides, Quality, ReleaseAfterPause, SessionStoreKind,
    Settings, Sourced, CONFIG_FILE,
};
use crate::tidal::AudioQuality;
use vstd::prelude::*;

verus! {

/// What the command line says is in force whatever the file says, what the file says is in force
/// whatever the default is, and the default only where neither says anything; and it is told which.
pub proof fn the_command_line_precedes_the_file_and_the_file_the_default<T>(
    flag: T,
    file: Option<T>,
    other: Option<T>,
    written: T,
    default: T,
    another: T,
)
    ensures
        Sourced::picked(Some(flag), file, default) == Sourced::picked(Some(flag), other, another),
        Sourced::picked(Some(flag), file, default).value == flag,
        Sourced::picked(Some(flag), file, default).origin is Flag,
        Sourced::picked(None, Some(written), default) == Sourced::picked(
            None,
            Some(written),
            another,
        ),
        Sourced::picked(None, Some(written), default).value == written,
        Sourced::picked(None, Some(written), default).origin is File,
        Sourced::picked(None, None, default).value == default,
        Sourced::picked(None, None, default).origin is Default,
{
}

/// A text that is given is the one that is meant, and one that is not leaves it open.
pub proof fn a_given_text_is_meant(text: String)
    ensures
        given(Some(text)) == Some(Some(text)),
        given(None) is None,
{
}

/// A name in a directory is behind it, with one slash between them whether the directory ends in one
/// or not; in no directory it stands alone.
pub proof fn a_name_is_behind_its_directory(dir: Seq<char>, name: Seq<char>)
    ensures
        dir.len() > 0 && dir.last() != '/' ==> path_in(dir, name) == dir + seq!['/'] + name,
        dir.len() > 0 && dir.last() != '/' ==> path_in(dir + seq!['/'], name) == dir + seq!['/']
            + name,
        dir.len() == 0 ==> path_in(dir, name) == name,
        CONFIG_FILE@ == "config.toml"@,
{
    reveal_strlit("/");
    assert("/"@ =~= seq!['/']);
    if dir.len() > 0 && dir.last() != '/' {
        if "/"@.is_suffix_of(dir) {
            assert(dir.subrange(dir.len() - 1, dir.len() as int)[0] == dir.last());
            assert("/"@[0] == '/');
        }
        let ended = dir + seq!['/'];
        assert("/"@.is_suffix_of(ended)) by {
            assert(ended.subrange(ended.len() - 1, ended.len() as int) =~= "/"@);
        }
    }
    if dir.len() == 0 {
        assert(dir + name =~= name);
    }
}

/// A file that says nothing leaves every setting open.
pub proof fn a_file_that_says_nothing_leaves_everything_open()
    ensures
        ({
            let nothing = ConfigFile::nothing();
            &&& nothing.output.device is None
            &&& nothing.output.mode is None
            &&& nothing.output.sink is None
            &&& nothing.output.reserve is None
            &&& nothing.output.release_after_pause is None
            &&& nothing.tidal.max_quality is None
            &&& nothing.tidal.session_store is None
            &&& nothing.daemon.socket is None
            &&& nothing.daemon.verbose is None
        }),
{
}

/// Every choice has a word of its own.
pub proof fn each_choice_has_a_word(
    a: OutputMode,
    b: OutputMode,
    c: SessionStoreKind,
    d: SessionStoreKind,
    e: Origin,
    f: Origin,
)
    ensures
        a.word() == b.word() <==> a == b,
        c.word() == d.word() <==> c == d,
        e.word() == f.word() <==> e == f,
        OutputMode::Shared.word() == "shared"@,
        OutputMode::Exclusive.word() == "exclusive"@,
        SessionStoreKind::Keyring.word() == "keyring"@,
        SessionStoreKind::File.word() == "file"@,
        Quality::Hires.word() == "hires"@,
        Quality::Lossless.word() == "lossless"@,
        Origin::Flag.word() == "command line"@,
        Origin::File.word() == "config file"@,
        Origin::Default.word() == "default"@,
{
    reveal_strlit("shared");
    reveal_strlit("exclusive");
    reveal_strlit("keyring");
    reveal_strlit("file");
    reveal_strlit("command line");
    reveal_strlit("config file");
    reveal_strlit("default");
    assert("shared"@.len() == 6);
    assert("exclusive"@.len() == 9);
    assert("keyring"@.len() == 7);
    assert("file"@.len() == 4);
    assert("command line"@.len() == 12);
    assert("config file"@.len() == 11);
    assert("default"@.len() == 7);
}

/// The best quality that can be chosen is the best that TIDAL has, and the other is CD quality.
pub proof fn a_chosen_quality_is_asked_for(quality: Quality)
    ensures
        quality is Hires <==> tidal_quality(quality) == AudioQuality::HiRes,
        quality is Lossless <==> tidal_quality(quality) == AudioQuality::Lossless,
{
}

/// No two outputs share an id, unless one is named like the default; an exclusive one is never taken
/// for a shared one.
pub proof fn outputs_are_told_apart_by_their_ids(a: String, b: String)
    ensures
        ({
            let exclusive = OutputSpec::Exclusive { device: a };
            let other = OutputSpec::Exclusive { device: b };
            let shared = OutputSpec::Shared { sink: Some(a) };
            let another = OutputSpec::Shared { sink: Some(b) };
            let default = OutputSpec::Shared { sink: None };
            &&& exclusive.spec_id() == other.spec_id() <==> a@ == b@
            &&& shared.spec_id() == another.spec_id() <==> a@ == b@
            &&& exclusive.spec_id() != another.spec_id()
            &&& exclusive.spec_id() != default.spec_id()
            &&& shared.spec_id() == default.spec_id() <==> a@ == "default"@
            &&& exclusive.spec_id() == "exclusive:"@ + a@
            &&& shared.spec_id() == "shared:"@ + a@
            &&& default.spec_id() == "shared:default"@
        }),
{
    reveal_strlit("exclusive:");
    reveal_strlit("shared:");
    reveal_strlit("shared:default");
    reveal_strlit("default");
    let exclusive = "exclusive:"@;
    let shared = "shared:"@;
    assert((exclusive + a@).skip(10) =~= a@);
    assert((exclusive + b@).skip(10) =~= b@);
    assert((shared + a@).skip(7) =~= a@);
    assert((shared + b@).skip(7) =~= b@);
    assert((exclusive + a@)[0] == 'e');
    assert((shared + b@)[0] == 's');
    assert("shared:default"@[0] == 's');
    assert("shared:default"@ =~= shared + "default"@);
    assert((shared + "default"@).skip(7) =~= "default"@);
}

// ---- what the functions give -------------------------------------------------------------------

/// The file that is named on the command line is read, else the one that the environment names, else
/// the one in the usual place; an environment that names an empty one names none. Only a file that
/// was named has to exist.
pub proof fn the_file_that_is_named_is_read(
    flag: Option<&str>,
    env: Option<&str>,
    dir: Option<&str>,
    r: Option<ConfigSource>,
)
    requires
        call_ensures(discover, (flag, env, dir), r),
    ensures
        flag matches Some(path) ==> (r matches Some(ConfigSource::Explicit(p)) && p@ == path@),
        flag is None ==> (env matches Some(path) ==> (path@.len() > 0 ==> (r matches Some(
            ConfigSource::Explicit(p),
        ) && p@ == path@))),
        flag is None && (env matches Some(path) ==> path@.len() == 0) ==> (r is Some <==> dir
            is Some) && !(r matches Some(ConfigSource::Explicit(_))),
{
}

/// A file in the usual place need not exist; one that was named must, and one that can't be read or
/// understood is an error wherever it is.
pub proof fn a_file_that_was_named_must_exist(
    path: String,
    why: String,
    file: ConfigFile,
    missing: Result<Loaded, String>,
    named: Result<Loaded, String>,
    broken: Result<Loaded, String>,
    read: Result<Loaded, String>,
    nowhere: Result<Loaded, String>,
)
    requires
        call_ensures(
            load,
            (Some(&ConfigSource::Default(path)), Attempt::NotFound(why)),
            missing,
        ),
        call_ensures(
            load,
            (Some(&ConfigSource::Explicit(path)), Attempt::NotFound(why)),
            named,
        ),
        call_ensures(load, (Some(&ConfigSource::Default(path)), Attempt::Broken(why)), broken),
        call_ensures(load, (Some(&ConfigSource::Default(path)), Attempt::Read(file)), read),
        call_ensures(load, (None, Attempt::Read(file)), nowhere),
    ensures
        missing == Ok::<Loaded, String>(Loaded { file: ConfigFile::nothing(), path: None }),
        named is Err,
        broken is Err,
        read matches Ok(loaded) && loaded.file == file && (loaded.path matches Some(p) && p@
            == path@),
        nowhere == Ok::<Loaded, String>(Loaded { file: ConfigFile::nothing(), path: None }),
{
}

/// What the command line says of the device, the quality, the socket and how much to say is in force;
/// where it says nothing the file does.
pub proof fn settings_follow_the_command_line_and_the_file(
    overrides: Overrides,
    file: ConfigFile,
    r: Settings,
)
    requires
        call_ensures(resolve, (overrides, &file), r),
    ensures
        overrides.device is Some ==> r.device.value == overrides.device && r.device.origin is Flag,
        overrides.device is None && file.output.device is Some ==> r.device.value
            == file.output.device && r.device.origin is File,
        overrides.device is None && file.output.device is None ==> r.device.value is None
            && r.device.origin is Default,
        overrides.max_quality matches Some(quality) ==> r.max_quality.value == quality,
        overrides.max_quality is None ==> (file.tidal.max_quality matches Some(quality)
            ==> r.max_quality.value == quality),
        overrides.socket is Some ==> r.socket.value == overrides.socket,
        overrides.socket is None ==> r.socket.value == file.daemon.socket,
        overrides.verbose matches Some(verbose) ==> r.verbose.value == verbose,
        overrides.verbose is None ==> (file.daemon.verbose matches Some(verbose)
            ==> r.verbose.value == verbose),
        file.output.mode matches Some(mode) ==> r.mode.value == mode,
        file.output.reserve matches Some(reserve) ==> r.reserve.value == reserve,
        file.output.release_after_pause matches Some(wait) ==> r.release_after_pause.value == wait,
        file.tidal.session_store matches Some(store) ==> r.session_store.value == store,
{
}

/// Where nothing is said, the card is phonia's own and asked for, handed back after ten seconds of
/// pause, the best quality is asked for, the login is kept in a file, and no more than needed is said.
pub proof fn the_defaults_are_in_force_where_nothing_is_said(r: Settings)
    requires
        call_ensures(
            resolve,
            (
                Overrides { device: None, max_quality: None, socket: None, verbose: None },
                &ConfigFile::nothing(),
            ),
            r,
        ),
    ensures
        r.mode.value is Exclusive,
        r.reserve.value,
        r.release_after_pause.value matches ReleaseAfterPause::After(wait) && wait@
            == 10_000_000_000,
        r.max_quality.value is Hires,
        r.session_store.value is File,
        !r.verbose.value,
        r.device.value is None,
        r.socket.value is None,
{
}

/// A wait of so many seconds lasts that long, and there is none of fewer than none; `never` is a word
/// and no number.
pub proof fn a_wait_lasts_as_many_seconds(
    seconds: i64,
    r: Option<ReleaseAfterPause>,
    word: &str,
    worded: Option<ReleaseAfterPause>,
)
    requires
        call_ensures(ReleaseAfterPause::from_seconds, (seconds,), r),
        call_ensures(ReleaseAfterPause::from_word, (word,), worded),
    ensures
        r is Some <==> seconds >= 0,
        r matches Some(wait) ==> (wait matches ReleaseAfterPause::After(span) && span@ == seconds
            * 1_000_000_000),
        worded is Some <==> word@ == "never"@,
        worded matches Some(wait) ==> wait is Never,
{
}

/// The word for a quality is read as that quality, and no other word is.
pub proof fn a_quality_is_read_by_its_word(
    quality: Quality,
    word: String,
    text: &str,
    r: Result<Quality, String>,
)
    requires
        call_ensures(Quality::text, (quality,), word),
        call_ensures(Quality::from_word, (text,), r),
    ensures
        text@ == word@ ==> r == Ok::<Quality, String>(quality),
        r is Ok <==> text@ == "hires"@ || text@ == "lossless"@,
{
    if let Ok(read) = r {
        super::file::the_word_for_a_quality_reads_back(quality, read);
    }
}

} // verus!
