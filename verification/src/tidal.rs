//! TIDAL playback info: what is asked for, and what the answer amounts to.

use crate::dash::DashSegments;
use crate::text::{decimal, decimal_text, joined, same};
use base64::engine::general_purpose::STANDARD;
use base64::Engine;
use vstd::prelude::*;

verus! {

/// The qualities that TIDAL has.
#[derive(Debug, Clone, Copy, PartialEq, Eq, Structural)]
pub enum AudioQuality {
    /// The lowest.
    Low,
    /// Lossy.
    High,
    /// CD quality.
    Lossless,
    /// More than CD quality.
    HiRes,
}

/// The word that TIDAL's API expects for a quality. For lossless HiRes streaming that is
/// `HI_RES_LOSSLESS`: `HI_RES` is the legacy MQA tier.
pub open spec fn quality_word(q: AudioQuality) -> Seq<char> {
    match q {
        AudioQuality::Low => "LOW"@,
        AudioQuality::High => "HIGH"@,
        AudioQuality::Lossless => "LOSSLESS"@,
        AudioQuality::HiRes => "HI_RES_LOSSLESS"@,
    }
}

/// The word that TIDAL's API expects for a quality.
pub fn api_quality(q: &AudioQuality) -> (r: &'static str)
    ensures
        r@ == quality_word(*q),
{
    match q {
        AudioQuality::Low => "LOW",
        AudioQuality::High => "HIGH",
        AudioQuality::Lossless => "LOSSLESS",
        AudioQuality::HiRes => "HI_RES_LOSSLESS",
    }
}

/// Where the encoded audio actually lives, after decoding TIDAL's `manifest` field.
#[derive(Debug, Clone, PartialEq, Eq)]
pub enum ManifestKind {
    /// A single, directly downloadable URL (used for LOW/HIGH/LOSSLESS).
    Json {
        /// The URL.
        url: String,
        /// The codecs.
        codecs: String,
    },
    /// A DASH (fragmented MP4) manifest (used for HiRes).
    Dash(DashSegments),
}

/// Everything that is needed to decode and play one track.
#[derive(Debug, Clone, PartialEq, Eq)]
pub struct PlaybackInfo {
    /// Which track.
    pub track_id: u64,
    /// Stereo, or something else.
    pub audio_mode: String,
    /// The quality that was given.
    pub audio_quality: String,
    /// What kind of manifest it came with.
    pub manifest_mime_type: String,
    /// Bits per sample, if known.
    pub bit_depth: Option<u32>,
    /// Frames per second, if known.
    pub sample_rate: Option<u32>,
    /// Where the audio is.
    pub manifest: ManifestKind,
}

impl PlaybackInfo {
    /// The codecs, if known.
    pub open spec fn spec_codecs(self) -> Option<Seq<char>> {
        match self.manifest {
            ManifestKind::Json { url, codecs } => Some(codecs@),
            ManifestKind::Dash(dash) => match dash.codecs {
                Some(codecs) => Some(codecs@),
                None => None,
            },
        }
    }

    /// The codecs, if known.
    pub fn codecs(&self) -> (r: Option<&str>)
        ensures
            match r {
                Some(codecs) => self.spec_codecs() == Some(codecs@),
                None => self.spec_codecs() is None,
            },
    {
        match &self.manifest {
            ManifestKind::Json { url: _, codecs } => Some(codecs.as_str()),
            ManifestKind::Dash(dash) => match &dash.codecs {
                Some(codecs) => Some(codecs.as_str()),
                None => None,
            },
        }
    }
}

/// Why the answer for a track cannot be asked for or used.
#[derive(Debug, PartialEq, Eq)]
pub enum PlaybackError {
    /// There is no access token.
    NoToken,
    /// It is not known who the user is.
    NoUser,
    /// The manifest is not base64.
    NotBase64(String),
    /// The manifest is not UTF-8.
    NotUtf8,
    /// The manifest names no URL.
    NoUrl,
}

impl PlaybackError {
    /// What is said of it.
    pub open spec fn spec_message(self) -> Seq<char> {
        match self {
            PlaybackError::NoToken => "no access token; run `phonia login` first"@,
            PlaybackError::NoUser => "no user info loaded; run `phonia login` first"@,
            PlaybackError::NotBase64(why) => "decoding the manifest field (base64): "@ + why@,
            PlaybackError::NotUtf8 => "the decoded manifest is not valid UTF-8"@,
            PlaybackError::NoUrl => "the JSON manifest contains no URL"@,
        }
    }

    /// What is said of it.
    pub fn message(&self) -> (r: String)
        ensures
            r@ == self.spec_message(),
    {
        match self {
            PlaybackError::NoToken => "no access token; run `phonia login` first".to_owned(),
            PlaybackError::NoUser => "no user info loaded; run `phonia login` first".to_owned(),
            PlaybackError::NotBase64(why) => joined(
                "decoding the manifest field (base64): ",
                why.as_str(),
            ),
            PlaybackError::NotUtf8 => "the decoded manifest is not valid UTF-8".to_owned(),
            PlaybackError::NoUrl => "the JSON manifest contains no URL".to_owned(),
        }
    }
}

/// A request for a track: where to send it, in whose name, and for which country.
#[derive(Debug, PartialEq, Eq)]
pub struct PlaybackRequest {
    /// The URL.
    pub url: String,
    /// The token to show.
    pub access_token: String,
    /// What else to ask with, as pairs.
    pub query: Vec<(String, String)>,
}

/// The request for `track_id`, of the API at `api`. It takes a login: a token, and a user whose
/// country is known.
pub fn playback_request(
    api: &str,
    track_id: &str,
    quality: AudioQuality,
    access_token: Option<String>,
    country_code: Option<String>,
) -> (r: Result<PlaybackRequest, PlaybackError>)
    ensures
        match (access_token, country_code) {
            (None, _) => r matches Err(e) && e is NoToken,
            (Some(_), None) => r matches Err(e) && e is NoUser,
            (Some(token), Some(country)) => r matches Ok(request) && {
                &&& request.url@ == api@ + "/tracks/"@ + track_id@ + "/playbackinfopostpaywall"@
                &&& request.access_token == token
                &&& request.query@.len() == 4
                &&& request.query@[0].0@ == "countryCode"@
                &&& request.query@[0].1 == country
                &&& request.query@[1].0@ == "audioquality"@
                &&& request.query@[1].1@ == quality_word(quality)
                &&& request.query@[2].0@ == "playbackmode"@
                &&& request.query@[2].1@ == "STREAM"@
                &&& request.query@[3].0@ == "assetpresentation"@
                &&& request.query@[3].1@ == "FULL"@
            },
        },
{
    match (access_token, country_code) {
        (None, _) => Err(PlaybackError::NoToken),
        (Some(_), None) => Err(PlaybackError::NoUser),
        (Some(access_token), Some(country)) => {
            let mut url = String::new();
            url.push_str(api);
            url.push_str("/tracks/");
            url.push_str(track_id);
            url.push_str("/playbackinfopostpaywall");
            assert(url@ =~= api@ + "/tracks/"@ + track_id@ + "/playbackinfopostpaywall"@);
            let mut query: Vec<(String, String)> = Vec::new();
            query.push(("countryCode".to_owned(), country));
            query.push(("audioquality".to_owned(), api_quality(&quality).to_owned()));
            query.push(("playbackmode".to_owned(), "STREAM".to_owned()));
            query.push(("assetpresentation".to_owned(), "FULL".to_owned()));
            Ok(PlaybackRequest { url, access_token, query })
        },
    }
}

/// What is said of an answer that is not a success.
pub open spec fn refused_text(status: Seq<char>, body: Seq<char>) -> Seq<char> {
    "TIDAL responded "@ + status + " to playbackinfopostpaywall:\n"@ + body
}

/// What is said once TIDAL answered a request for a track with `status` and `body`: nothing if the
/// answer is a success.
pub fn after_playback(success: bool, status: &str, body: &str) -> (r: Option<String>)
    ensures
        if success {
            r is None
        } else {
            r matches Some(why) && why@ == refused_text(status@, body@)
        },
{
    if success {
        return None;
    }
    let mut why = String::new();
    why.push_str("TIDAL responded ");
    why.push_str(status);
    why.push_str(" to playbackinfopostpaywall:\n");
    why.push_str(body);
    assert(why@ =~= refused_text(status@, body@));
    Some(why)
}

/// What to warn of when HiRes was asked for and something else came.
pub open spec fn downgrade_text(given: Seq<char>) -> Seq<char> {
    "Warning: TIDAL downgraded the quality to "@ + given
        + ": the track doesn't exist in HiRes, or the token doesn't have that entitlement. If you used an old login, re-run `phonia login`."@
}

/// The warning that is due when HiRes was asked for and something else came.
pub fn downgrade_warning(asked: AudioQuality, given: &str) -> (r: Option<String>)
    ensures
        if asked is HiRes && given@ != "HI_RES_LOSSLESS"@ {
            r matches Some(text) && text@ == downgrade_text(given@)
        } else {
            r is None
        },
{
    if asked != AudioQuality::HiRes || same(given, "HI_RES_LOSSLESS") {
        return None;
    }
    let mut text = String::new();
    text.push_str("Warning: TIDAL downgraded the quality to ");
    text.push_str(given);
    text.push_str(
        ": the track doesn't exist in HiRes, or the token doesn't have that entitlement. If you used an old login, re-run `phonia login`.",
    );
    assert(text@ =~= downgrade_text(given@));
    Some(text)
}

/// The bytes that a text in base64 stands for, or why it is none.
pub uninterp spec fn base64_bytes(text: Seq<char>) -> Result<Seq<u8>, Seq<char>>;

/// Trusts `Engine::decode` of base64, with its standard alphabet and padding: the result depends
/// on the text alone.
#[verifier::external_body]
fn decode_base64(text: &str) -> (r: Result<Vec<u8>, String>)
    ensures
        match r {
            Ok(bytes) => base64_bytes(text@) == Ok::<Seq<u8>, Seq<char>>(bytes@),
            Err(why) => base64_bytes(text@) == Err::<Seq<u8>, Seq<char>>(why@),
        },
{
    STANDARD.decode(text).map_err(|e| e.to_string())
}

/// Trusts `String::from_utf8`: it gives the text that the bytes are in UTF-8, if they are UTF-8.
#[verifier::external_body]
pub(crate) fn utf8_text(bytes: Vec<u8>) -> (r: Option<String>)
    ensures
        match r {
            Some(text) => vstd::utf8::encode_utf8(text@) == bytes@,
            None => !vstd::utf8::valid_utf8(bytes@),
        },
{
    String::from_utf8(bytes).ok()
}

/// The manifest that TIDAL's `manifest` field holds.
pub fn manifest_text(field: &str) -> (r: Result<String, PlaybackError>)
    ensures
        match base64_bytes(field@) {
            Err(why) => r matches Err(PlaybackError::NotBase64(w)) && w@ == why,
            Ok(bytes) => match r {
                Ok(text) => vstd::utf8::encode_utf8(text@) == bytes,
                Err(e) => e is NotUtf8 && !vstd::utf8::valid_utf8(bytes),
            },
        },
{
    match decode_base64(field) {
        Err(why) => Err(PlaybackError::NotBase64(why)),
        Ok(bytes) => match utf8_text(bytes) {
            Some(text) => Ok(text),
            None => Err(PlaybackError::NotUtf8),
        },
    }
}

/// The audio of a JSON manifest: the first of its URLs.
pub fn json_manifest(urls: Vec<String>, codecs: String) -> (r: Result<ManifestKind, PlaybackError>)
    ensures
        if urls@.len() == 0 {
            r matches Err(e) && e is NoUrl
        } else {
            r == Ok::<ManifestKind, PlaybackError>(ManifestKind::Json { url: urls@[0], codecs })
        },
{
    if urls.len() == 0 {
        return Err(PlaybackError::NoUrl);
    }
    let url = urls[0].clone();
    Ok(ManifestKind::Json { url, codecs })
}

/// A number, or a question mark.
pub open spec fn number_or_unknown(n: Option<u32>, unit: Seq<char>) -> Seq<char> {
    match n {
        Some(n) => decimal_text(n as nat) + unit,
        None => "?"@,
    }
}

fn number_text(n: Option<u32>, unit: &str) -> (r: String)
    ensures
        r@ == number_or_unknown(n, unit@),
{
    match n {
        Some(n) => joined(decimal(n as u64).as_str(), unit),
        None => "?".to_owned(),
    }
}

/// What TIDAL says about a track, a line each.
pub open spec fn playback_info_lines(info: PlaybackInfo) -> Seq<Seq<char>> {
    seq![
        "Track ID:        "@ + decimal_text(info.track_id as nat),
        "Audio mode:      "@ + info.audio_mode@,
        "Quality:         "@ + info.audio_quality@,
        "Bit depth:       "@ + number_or_unknown(info.bit_depth, ""@),
        "Sample rate:     "@ + number_or_unknown(info.sample_rate, " Hz"@),
        "Manifest MIME:   "@ + info.manifest_mime_type@,
        "Codecs:          "@ + match info.spec_codecs() {
            Some(codecs) => codecs,
            None => "?"@,
        },
    ]
}

/// What TIDAL says about a track, a line each.
pub fn playback_info_text(info: &PlaybackInfo) -> (r: Vec<String>)
    ensures
        r@.map_values(|line: String| line@) == playback_info_lines(*info),
{
    let mut lines: Vec<String> = Vec::new();
    lines.push(joined("Track ID:        ", decimal(info.track_id).as_str()));
    lines.push(joined("Audio mode:      ", info.audio_mode.as_str()));
    lines.push(joined("Quality:         ", info.audio_quality.as_str()));
    lines.push(joined("Bit depth:       ", number_text(info.bit_depth, "").as_str()));
    lines.push(joined("Sample rate:     ", number_text(info.sample_rate, " Hz").as_str()));
    lines.push(joined("Manifest MIME:   ", info.manifest_mime_type.as_str()));
    let codecs = match info.codecs() {
        Some(codecs) => codecs,
        None => "?",
    };
    lines.push(joined("Codecs:          ", codecs));
    assert(lines@.map_values(|line: String| line@) =~= playback_info_lines(*info));
    lines
}

} // verus!
