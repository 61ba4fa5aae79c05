//! Which config file is read, what it amounts to, and how a setting is decided.

use phonia_core::config::{
    discover, load, resolve, Attempt, ConfigFile, ConfigSource, Daemon, Loaded, Origin, Output,
    OutputMode, OutputSpec, Overrides, Quality, ReleaseAfterPause, SessionStoreKind, Sourced,
    Tidal,
};
use phonia_core::diag::{Diag, Level};
use phonia_core::tidal::{
    after_playback, api_quality, downgrade_warning, json_manifest, manifest_text, playback_info_text,
    playback_request, AudioQuality, ManifestKind, PlaybackError, PlaybackInfo,
};
use phonia_core::time::Duration;

// ---- which file ------------------------------------------------------------------------

#[test]
fn the_flag_beats_the_environment_beats_the_default_place() {
    let dir = "/home/u/.config/phonia";
    let flag = "/tmp/flag.toml";
    let env = "/tmp/env.toml";

    assert_eq!(discover(Some(flag), Some(env), Some(dir)), Some(ConfigSource::Explicit("/tmp/flag.toml".into())));
    assert_eq!(discover(None, Some(env), Some(dir)), Some(ConfigSource::Explicit("/tmp/env.toml".into())));
    assert_eq!(discover(None, None, Some(dir)), Some(ConfigSource::Default("/home/u/.config/phonia/config.toml".into())));
    assert_eq!(discover(None, Some(""), Some(dir)), Some(ConfigSource::Default("/home/u/.config/phonia/config.toml".into())), "an empty variable is unset");
    assert_eq!(discover(None, None, None), None, "no config directory and nothing named: no file");
}

// ---- reading it ------------------------------------------------------------------------

/// A file that says only which device to play on.
fn says(device: &str) -> ConfigFile {
    ConfigFile {
        output: Output { device: Some(device.into()), ..Output::default() },
        ..ConfigFile::default()
    }
}

#[test]
fn no_file_at_all_means_the_defaults() {
    assert_eq!(load(None, Attempt::NotFound("nothing was read".into())).unwrap(), Loaded::default());
}

#[test]
fn a_missing_default_file_is_fine() {
    let source = ConfigSource::Default("/home/u/.config/phonia/config.toml".into());
    let attempt = Attempt::NotFound("No such file or directory (os error 2)".into());
    assert_eq!(load(Some(&source), attempt).unwrap(), Loaded::default());
}

#[test]
fn a_missing_file_that_was_asked_for_is_an_error_naming_it() {
    let source = ConfigSource::Explicit("/tmp/nope.toml".into());
    let attempt = Attempt::NotFound("No such file or directory (os error 2)".into());
    let error = load(Some(&source), attempt).unwrap_err();
    assert!(error.contains("nope.toml"), "{error}");
    assert_eq!(error, "reading the config file /tmp/nope.toml: No such file or directory (os error 2)");
}

#[test]
fn a_file_is_read_and_remembered() {
    let path = "/home/u/.config/phonia/config.toml".to_string();
    let loaded =
        load(Some(&ConfigSource::Default(path.clone())), Attempt::Read(says("hw:DS2,0"))).unwrap();
    assert_eq!(loaded.file.output.device.as_deref(), Some("hw:DS2,0"));
    assert_eq!(loaded.path, Some(path));
}

#[test]
fn a_broken_file_is_an_error_with_the_file_the_key_and_the_line() {
    let source = ConfigSource::Default("/home/u/.config/phonia/config.toml".into());
    let why = "TOML parse error at line 3, column 1: unknown field `devise`";
    let error = load(Some(&source), Attempt::Broken(why.into())).unwrap_err();
    assert!(error.contains("config.toml") && error.contains("devise") && error.contains("line 3"), "{error}");
    assert!(error.starts_with("in the config file /home/u/.config/phonia/config.toml: "), "{error}");
}

#[test]
fn a_file_that_cannot_be_read_is_an_error_wherever_it_is() {
    let why = || Attempt::Unreadable("Permission denied (os error 13)".into());
    let said = "reading the config file /x.toml: Permission denied (os error 13)";
    assert_eq!(load(Some(&ConfigSource::Default("/x.toml".into())), why()).unwrap_err(), said);
    assert_eq!(load(Some(&ConfigSource::Explicit("/x.toml".into())), why()).unwrap_err(), said);
}

// ---- deciding the settings -------------------------------------------------------------

fn file(device: Option<&str>, quality: Option<Quality>, socket: Option<&str>, verbose: Option<bool>) -> ConfigFile {
    ConfigFile {
        output: Output { device: device.map(str::to_string), ..Output::default() },
        tidal: Tidal { max_quality: quality, ..Tidal::default() },
        daemon: Daemon { socket: socket.map(str::to_string), verbose },
    }
}

#[test]
fn with_nothing_said_everything_is_the_default() {
    let settings = resolve(Overrides::default(), &ConfigFile::default());
    assert_eq!(settings.device, Sourced { value: None, origin: Origin::Default });
    assert_eq!(settings.mode, Sourced { value: OutputMode::Exclusive, origin: Origin::Default });
    assert_eq!(settings.reserve, Sourced { value: true, origin: Origin::Default });
    assert_eq!(
        settings.release_after_pause,
        Sourced { value: ReleaseAfterPause::After(Duration::from_secs(10)), origin: Origin::Default }
    );
    assert_eq!(settings.max_quality, Sourced { value: Quality::Hires, origin: Origin::Default });
    assert_eq!(settings.session_store, Sourced { value: SessionStoreKind::File, origin: Origin::Default });
    assert_eq!(settings.socket, Sourced { value: None, origin: Origin::Default });
    assert_eq!(settings.verbose, Sourced { value: false, origin: Origin::Default });
}

#[test]
fn the_file_beats_the_default() {
    let settings = resolve(Overrides::default(), &file(Some("hw:DS2,0"), Some(Quality::Lossless), Some("/s"), Some(true)));
    assert_eq!(settings.device, Sourced { value: Some("hw:DS2,0".into()), origin: Origin::File });
    assert_eq!(settings.max_quality, Sourced { value: Quality::Lossless, origin: Origin::File });
    assert_eq!(settings.socket, Sourced { value: Some("/s".into()), origin: Origin::File });
    assert_eq!(settings.verbose, Sourced { value: true, origin: Origin::File });
}

#[test]
fn the_command_line_beats_the_file() {
    let overrides = Overrides {
        device: Some("hw:9,0".into()),
        max_quality: Some(Quality::Hires),
        socket: Some("/flag".into()),
        verbose: Some(false),
    };
    let settings = resolve(overrides, &file(Some("hw:DS2,0"), Some(Quality::Lossless), Some("/file"), Some(true)));
    assert_eq!(settings.device, Sourced { value: Some("hw:9,0".into()), origin: Origin::Flag });
    assert_eq!(settings.max_quality, Sourced { value: Quality::Hires, origin: Origin::Flag });
    assert_eq!(settings.socket, Sourced { value: Some("/flag".into()), origin: Origin::Flag });
    assert_eq!(settings.verbose, Sourced { value: false, origin: Origin::Flag }, "an explicit false beats a true in the file");
}

#[test]
fn a_setting_equal_to_its_default_still_reports_where_it_was_written() {
    let settings = resolve(Overrides::default(), &file(None, Some(Quality::Hires), None, Some(false)));
    assert_eq!(settings.max_quality.origin, Origin::File, "written in the file, though it is the default value");
    assert_eq!(settings.verbose.origin, Origin::File);
}

#[test]
fn a_device_is_required_and_the_message_says_how_to_set_one() {
    let error = resolve(Overrides::default(), &ConfigFile::default()).require_device().unwrap_err();
    assert!(error.contains("phonia devices") && error.contains("[output]") && error.contains("--device"), "{error}");

    let named = resolve(Overrides { device: Some("hw:DS2,0".into()), ..Overrides::default() }, &ConfigFile::default());
    assert_eq!(named.require_device().unwrap(), "hw:DS2,0");
}

#[test]
fn the_socket_falls_back_to_whatever_the_caller_calls_the_default() {
    let unset = resolve(Overrides::default(), &ConfigFile::default());
    assert_eq!(unset.socket_path(|| "/usual.sock".to_string()), "/usual.sock".to_string());

    let set = resolve(Overrides::default(), &file(None, None, Some("/mine.sock"), None));
    assert_eq!(set.socket_path(|| unreachable!("the default must not be asked for")), "/mine.sock");
}

#[test]
fn origins_read_naturally() {
    assert_eq!(Origin::Flag.text(), "command line");
    assert_eq!(Origin::File.text(), "config file");
    assert_eq!(Origin::Default.text(), "default");
}

#[test]
fn qualities_map_to_tidals() {
    assert!(matches!(AudioQuality::from(Quality::Hires), AudioQuality::HiRes));
    assert!(matches!(AudioQuality::from(Quality::Lossless), AudioQuality::Lossless));
}

// ---- the words -----------------------------------------------------------------------------

#[test]
fn the_command_line_and_the_file_accept_the_same_words() {
    for quality in [Quality::Hires, Quality::Lossless] {
        assert_eq!(Quality::from_word(&quality.text()).unwrap(), quality);
    }
    assert!(Quality::from_word("MQA").is_err());
    assert_eq!(OutputMode::Exclusive.text(), "exclusive");
}

#[test]
fn a_word_that_is_no_quality_is_quoted() {
    assert_eq!(
        Quality::from_word("M\"QA").unwrap_err(),
        "unknown quality \"M\\\"QA\": expected hires or lossless"
    );
}

#[test]
fn the_wait_before_the_card_is_given_back_reads_back() {
    assert_eq!(
        ReleaseAfterPause::from_seconds(30),
        Some(ReleaseAfterPause::After(Duration::from_secs(30)))
    );
    assert_eq!(
        ReleaseAfterPause::from_seconds(0),
        Some(ReleaseAfterPause::After(Duration::zero()))
    );
    assert_eq!(ReleaseAfterPause::from_seconds(-1), None);
    assert_eq!(ReleaseAfterPause::from_word("never"), Some(ReleaseAfterPause::Never));
    assert_eq!(ReleaseAfterPause::from_word("soon"), None);
    assert_eq!(ReleaseAfterPause::Never.duration(), None);
    assert_eq!(ReleaseAfterPause::default().duration(), Some(Duration::from_secs(10)));
    assert_eq!(ReleaseAfterPause::default().text(), "10 s");
    assert_eq!(ReleaseAfterPause::Never.text(), "never");
}

#[test]
fn the_modes_and_the_stores_have_their_words() {
    assert_eq!(OutputMode::Shared.text(), "shared");
    assert_eq!(OutputMode::default(), OutputMode::Exclusive);
    assert_eq!(SessionStoreKind::Keyring.text(), "keyring");
    assert_eq!(SessionStoreKind::File.text(), "file");
}

#[test]
fn an_output_has_an_id_and_a_description() {
    let card = OutputSpec::Exclusive { device: "hw:DS2,0".into() };
    assert_eq!((card.id().as_str(), card.describe().as_str()), ("exclusive:hw:DS2,0", "device hw:DS2,0"));
    let named = OutputSpec::Shared { sink: Some("bluez_output.AA".into()) };
    assert_eq!(
        (named.id().as_str(), named.describe().as_str()),
        ("shared:bluez_output.AA", "output bluez_output.AA")
    );
    let usual = OutputSpec::Shared { sink: None };
    assert_eq!((usual.id().as_str(), usual.describe().as_str()), ("shared:default", "default output"));
}

// ---- what is said --------------------------------------------------------------------------

/// One test walks through all the levels.
#[test]
fn levels_are_ordered_and_settable() {
    assert!(Level::Silent < Level::Warnings && Level::Warnings < Level::All);
    let mut diag = Diag::new();
    assert_eq!(diag.level(), Level::All, "the library talks by default");

    diag.silence();
    assert_eq!(diag.level(), Level::Silent);
    diag.set_level(Level::Warnings);
    assert_eq!(diag.level(), Level::Warnings);

    diag.set_level(Level::All);
    assert_eq!(diag.level(), Level::All);
}

#[test]
fn any_two_levels_compare_by_how_much_they_print() {
    let levels = [Level::Silent, Level::Warnings, Level::All];
    for (i, a) in levels.iter().enumerate() {
        for (j, b) in levels.iter().enumerate() {
            assert_eq!(a.partial_cmp(b), i.partial_cmp(&j));
            assert_eq!(a.cmp(b), i.cmp(&j), "both orders agree");
        }
    }
}

#[test]
fn a_level_lets_through_what_matters_enough() {
    let mut diag = Diag::new();
    assert!(diag.notes() && diag.warnings());
    diag.set_level(Level::Warnings);
    assert!(!diag.notes() && diag.warnings());
    diag.silence();
    assert!(!diag.notes() && !diag.warnings());
}

// ---- TIDAL ---------------------------------------------------------------------------------

#[test]
fn api_quality_maps_hires_to_hi_res_lossless_not_display() {
    // `HI_RES` is the legacy MQA tier, which is NOT what the API wants for true HiRes FLAC, though
    // it is what tidlers shows for it.
    assert_eq!(api_quality(&AudioQuality::HiRes), "HI_RES_LOSSLESS");
    assert_ne!(
        api_quality(&AudioQuality::HiRes),
        tidlers::client::models::playback::AudioQuality::HiRes.to_string()
    );
}

#[test]
fn api_quality_maps_the_other_tiers_directly() {
    assert_eq!(api_quality(&AudioQuality::Low), "LOW");
    assert_eq!(api_quality(&AudioQuality::High), "HIGH");
    assert_eq!(api_quality(&AudioQuality::Lossless), "LOSSLESS");
}

#[test]
fn a_request_takes_a_login() {
    let ask = |token: Option<&str>, country: Option<&str>| {
        playback_request(
            "https://api.tidal.com/v1",
            "42",
            AudioQuality::HiRes,
            token.map(str::to_string),
            country.map(str::to_string),
        )
    };
    let request = ask(Some("secret"), Some("ES")).unwrap();
    assert_eq!(request.url, "https://api.tidal.com/v1/tracks/42/playbackinfopostpaywall");
    let pair = |name: &str, value: &str| (name.to_string(), value.to_string());
    assert_eq!(
        request.query,
        [
            pair("countryCode", "ES"),
            pair("audioquality", "HI_RES_LOSSLESS"),
            pair("playbackmode", "STREAM"),
            pair("assetpresentation", "FULL"),
        ]
    );
    assert_eq!(ask(None, Some("ES")).unwrap_err(), PlaybackError::NoToken);
    assert_eq!(ask(Some("secret"), None).unwrap_err(), PlaybackError::NoUser);
    assert_eq!(PlaybackError::NoToken.message(), "no access token; run `phonia login` first");
    assert_eq!(PlaybackError::NoUser.message(), "no user info loaded; run `phonia login` first");
}

#[test]
fn a_manifest_is_text_in_base64() {
    assert_eq!(manifest_text("eyJ1cmxzIjpbXX0=").unwrap(), "{\"urls\":[]}");
    assert!(matches!(manifest_text("not base64!"), Err(PlaybackError::NotBase64(_))));
    assert_eq!(manifest_text("//79").unwrap_err(), PlaybackError::NotUtf8);
    assert!(manifest_text("!").unwrap_err().message().starts_with("decoding the manifest field (base64): "));
    assert_eq!(PlaybackError::NotUtf8.message(), "the decoded manifest is not valid UTF-8");
}

#[test]
fn a_json_manifest_gives_its_first_url() {
    assert_eq!(
        json_manifest(vec!["https://a".into(), "https://b".into()], "flac".into()).unwrap(),
        ManifestKind::Json { url: "https://a".into(), codecs: "flac".into() }
    );
    assert_eq!(json_manifest(vec![], "flac".into()).unwrap_err(), PlaybackError::NoUrl);
    assert_eq!(PlaybackError::NoUrl.message(), "the JSON manifest contains no URL");
}

#[test]
fn an_answer_that_is_no_success_is_shown_whole() {
    assert_eq!(after_playback(true, "200 OK", "{}"), None);
    assert_eq!(
        after_playback(false, "401 Unauthorized", "{\"status\":401}").unwrap(),
        "TIDAL responded 401 Unauthorized to playbackinfopostpaywall:\n{\"status\":401}"
    );
}

#[test]
fn a_downgrade_is_warned_of_only_where_hires_was_asked_for() {
    let warning = downgrade_warning(AudioQuality::HiRes, "LOSSLESS").unwrap();
    assert!(warning.starts_with("Warning: TIDAL downgraded the quality to LOSSLESS: "), "{warning}");
    assert_eq!(downgrade_warning(AudioQuality::HiRes, "HI_RES_LOSSLESS"), None);
    assert_eq!(downgrade_warning(AudioQuality::Lossless, "HIGH"), None);
}

#[test]
fn what_tidal_says_of_a_track_is_printed_a_line_each() {
    let info = PlaybackInfo {
        track_id: 42,
        audio_mode: "STEREO".into(),
        audio_quality: "LOSSLESS".into(),
        manifest_mime_type: "application/vnd.tidal.bts".into(),
        bit_depth: Some(16),
        sample_rate: None,
        manifest: ManifestKind::Json { url: "https://a".into(), codecs: "flac".into() },
    };
    assert_eq!(
        playback_info_text(&info),
        [
            "Track ID:        42",
            "Audio mode:      STEREO",
            "Quality:         LOSSLESS",
            "Bit depth:       16",
            "Sample rate:     ?",
            "Manifest MIME:   application/vnd.tidal.bts",
            "Codecs:          flac",
        ]
    );
}
