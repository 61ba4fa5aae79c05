//! The rules of playing on a sound server, over the PulseAudio protocol that PipeWire serves
//! (`pipewire-pulse`) and PulseAudio speaks natively: which output to play on, how a stream is set
//! up, how its volume is kept, and what the server's outputs look like to people. The connection
//! itself is driven by whoever holds it.

use crate::decode::SourceSpec;
use crate::output::Volume;
use crate::pieces::{
    contains, found, join, joined_by, lowercase, lowercase_text, pad, padded, texts_of, uppercase,
    uppercase_text,
};
use crate::text::{decimal, decimal_text, same, starts_with};
use crate::tidal::utf8_text;
use crate::time::Duration;
use vstd::prelude::*;

verus! {

/// How long a named output gets to appear (a card that phonia has just given back takes a moment to
/// become an output again), in nanoseconds.
pub const OUTPUT_WAIT: u128 = 3_000_000_000;

/// How often it is looked for, in nanoseconds.
pub const OUTPUT_POLL: u128 = 200_000_000;

/// How long after phonia sets the volume that changes the server reports are taken as its own echo,
/// in nanoseconds.
pub const OWN_CHANGE_ECHO: u128 = 600_000_000;

/// What the server calls unity gain: 100%.
pub const VOLUME_NORM: u32 = 65_536;

/// Which output to play on.
#[derive(Debug, Clone, PartialEq, Eq)]
pub enum Target {
    /// Wherever the desktop's default output is, following it when it changes.
    Default,
    /// One output by name, and never moved to another.
    Named(String),
}

impl Target {
    /// `None` or `default` mean the default output.
    pub fn parse(sink: Option<&str>) -> (r: Self)
        ensures
            match sink {
                Some(name) if name@ != "default"@ => r matches Target::Named(n) && n@ == name@,
                _ => r is Default,
            },
    {
        match sink {
            Some(name) => if same(name, "default") {
                Target::Default
            } else {
                Target::Named(name.to_owned())
            },
            None => Target::Default,
        }
    }
}

/// What kind of output it is.
#[derive(Debug, Clone, Copy, PartialEq, Eq, Structural)]
pub enum OutputKind {
    /// On USB.
    Usb,
    /// Over Bluetooth.
    Bluetooth,
    /// A screen.
    Hdmi,
    /// Part of the machine.
    Internal,
    /// Anything else.
    Other,
}

impl OutputKind {
    /// What [`OutputKind::label`] says.
    pub open spec fn text(self) -> Seq<char> {
        match self {
            OutputKind::Usb => "USB"@,
            OutputKind::Bluetooth => "Bluetooth"@,
            OutputKind::Hdmi => "HDMI"@,
            OutputKind::Internal => "built-in"@,
            OutputKind::Other => "output"@,
        }
    }

    /// The kind for people.
    pub fn label(self) -> (r: &'static str)
        ensures
            r@ == self.text(),
    {
        match self {
            OutputKind::Usb => "USB",
            OutputKind::Bluetooth => "Bluetooth",
            OutputKind::Hdmi => "HDMI",
            OutputKind::Internal => "built-in",
            OutputKind::Other => "output",
        }
    }
}

/// An output of the sound server.
#[derive(Debug, Clone, PartialEq, Eq)]
pub struct Output {
    /// What goes in the config file.
    pub name: String,
    /// What people call it.
    pub description: String,
    /// What kind it is.
    pub kind: OutputKind,
    /// The Bluetooth codec in use, when there is one.
    pub codec: Option<String>,
    /// Whether what reaches the speaker has lost information on the way (a Bluetooth link does).
    pub lossy: bool,
    /// Frames per second.
    pub rate: u32,
    /// The server's number for it.
    pub index: u32,
    /// Whether it is the desktop's default.
    pub is_default: bool,
}

// ---- properties --------------------------------------------------------------------------------

/// A property: its name and its value.
pub type Property = (String, String);

/// The value of a property; of one that is there more than once, the last.
pub open spec fn property(props: Seq<Property>, key: Seq<char>) -> Option<Seq<char>>
    decreases props.len(),
{
    if props.len() == 0 {
        None
    } else if props.last().0@ == key {
        Some(props.last().1@)
    } else {
        property(props.drop_last(), key)
    }
}

fn property_of<'a>(props: &'a Vec<Property>, key: &str) -> (r: Option<&'a str>)
    ensures
        match r {
            Some(value) => property(props@, key@) == Some(value@),
            None => property(props@, key@) is None,
        },
{
    let mut i: usize = props.len();
    assert(props@.take(i as int) =~= props@);
    while i > 0
        invariant
            i <= props.len(),
            property(props@, key@) == property(props@.take(i as int), key@),
        decreases i,
    {
        i -= 1;
        assert(props@.take(i + 1).drop_last() =~= props@.take(i as int));
        assert(props@.take(i + 1).last() == props@[i as int]);
        if same(props[i].0.as_str(), key) {
            return Some(props[i].1.as_str());
        }
    }
    None
}

/// Whether a property has a value.
pub open spec fn says(props: Seq<Property>, key: Seq<char>, value: Seq<char>) -> bool {
    property(props, key) == Some(value)
}

fn is_said(props: &Vec<Property>, key: &str, value: &str) -> (r: bool)
    ensures
        r == says(props@, key@, value@),
{
    match property_of(props, key) {
        Some(text) => same(text, value),
        None => false,
    }
}

/// Whether an output is reached over Bluetooth.
pub open spec fn over_bluetooth(name: Seq<char>, props: Seq<Property>) -> bool {
    says(props, "device.api"@, "bluez5"@) || "bluez_"@.is_prefix_of(name)
}

/// What kind of output one that is not reached over Bluetooth is.
pub open spec fn wired_kind(name: Seq<char>, props: Seq<Property>) -> OutputKind {
    let lower = lowercase_text(name);
    if says(props, "device.bus"@, "usb"@) || found(lower, ".usb-"@) is Some || found(
        lower,
        "_usb-"@,
    ) is Some {
        OutputKind::Usb
    } else if found(lower, "hdmi"@) is Some || (property(props, "device.profile.description"@)
        matches Some(text) && found(text, "HDMI"@) is Some) {
        OutputKind::Hdmi
    } else if says(props, "device.bus"@, "pci"@) || found(lower, "pci-"@) is Some {
        OutputKind::Internal
    } else {
        OutputKind::Other
    }
}

/// What kind of output a sink is, from the properties the server keeps on it; the Bluetooth codec in
/// use, if it says; and whether what reaches the speaker has lost information on the way.
pub fn classify(name: &str, props: &Vec<Property>) -> (r: (OutputKind, Option<String>, bool))
    ensures
        if over_bluetooth(name@, props@) {
            &&& r.0 is Bluetooth
            &&& r.2
            &&& match property(props@, "api.bluez5.codec"@) {
                Some(codec) => r.1 matches Some(text) && text@ == uppercase_text(codec),
                None => r.1 is None,
            }
        } else {
            r.0 == wired_kind(name@, props@) && r.1 is None && !r.2
        },
{
    if is_said(props, "device.api", "bluez5") || starts_with(name, "bluez_") {
        let codec = match property_of(props, "api.bluez5.codec") {
            Some(codec) => Some(uppercase(codec)),
            None => None,
        };
        return (OutputKind::Bluetooth, codec, true);
    }
    let lower = lowercase(name);
    let hdmi_profile = match property_of(props, "device.profile.description") {
        Some(text) => contains(text, "HDMI"),
        None => false,
    };
    let kind = if is_said(props, "device.bus", "usb") || contains(lower.as_str(), ".usb-")
        || contains(lower.as_str(), "_usb-") {
        OutputKind::Usb
    } else if contains(lower.as_str(), "hdmi") || hdmi_profile {
        OutputKind::Hdmi
    } else if is_said(props, "device.bus", "pci") || contains(lower.as_str(), "pci-") {
        OutputKind::Internal
    } else {
        OutputKind::Other
    };
    (kind, None, false)
}

/// Only a Bluetooth link loses information.
pub proof fn a_wired_output_is_never_bluetooth(name: Seq<char>, props: Seq<Property>)
    ensures
        !(wired_kind(name, props) is Bluetooth),
{
}

/// A property as it comes from the server: the bytes of its name and of its value.
pub type RawProperty = (Vec<u8>, Vec<u8>);

/// `bytes` without the zero that may end them.
pub open spec fn unterminated(bytes: Seq<u8>) -> Seq<u8> {
    if bytes.len() > 0 && bytes.last() == 0 {
        bytes.drop_last()
    } else {
        bytes
    }
}

fn copied_unterminated(bytes: &Vec<u8>) -> (r: Vec<u8>)
    ensures
        r@ == unterminated(bytes@),
{
    let end: usize = if bytes.len() > 0 && bytes[bytes.len() - 1] == 0 {
        bytes.len() - 1
    } else {
        bytes.len()
    };
    let mut out: Vec<u8> = Vec::new();
    let mut i: usize = 0;
    while i < end
        invariant
            i <= end <= bytes.len(),
            out@ == bytes@.take(i as int),
        decreases end - i,
    {
        out.push(bytes[i]);
        assert(bytes@.take(i + 1) =~= bytes@.take(i as int).push(bytes@[i as int]));
        i += 1;
    }
    assert(out@ =~= unterminated(bytes@));
    out
}

fn copied_bytes(bytes: &Vec<u8>) -> (r: Vec<u8>)
    ensures
        r@ == bytes@,
{
    let mut out: Vec<u8> = Vec::new();
    let mut i: usize = 0;
    while i < bytes.len()
        invariant
            i <= bytes.len(),
            out@ == bytes@.take(i as int),
        decreases bytes.len() - i,
    {
        out.push(bytes[i]);
        assert(bytes@.take(i + 1) =~= bytes@.take(i as int).push(bytes@[i as int]));
        i += 1;
    }
    assert(out@ =~= bytes@);
    out
}

/// Whether a property is text, in its name and its value.
pub open spec fn is_text(raw: RawProperty) -> bool {
    vstd::utf8::valid_utf8(raw.0@) && vstd::utf8::valid_utf8(unterminated(raw.1@))
}

/// Those of a row of properties that are text.
pub open spec fn texts_among(raw: Seq<RawProperty>) -> Seq<RawProperty>
    decreases raw.len(),
{
    if raw.len() == 0 {
        Seq::empty()
    } else if is_text(raw.last()) {
        texts_among(raw.drop_last()).push(raw.last())
    } else {
        texts_among(raw.drop_last())
    }
}

/// Whether `props` are the properties `raw` as text, without the zeros that end their values.
pub open spec fn reads_as(props: Seq<Property>, raw: Seq<RawProperty>) -> bool {
    &&& props.len() == raw.len()
    &&& forall|i: int|
        0 <= i < props.len() ==> vstd::utf8::encode_utf8((#[trigger] props[i]).0@) == raw[i].0@
            && vstd::utf8::encode_utf8(props[i].1@) == unterminated(raw[i].1@)
}

/// The properties that are text, without the zeros that end their values.
pub fn props_of(raw: &Vec<RawProperty>) -> (r: Vec<Property>)
    ensures
        reads_as(r@, texts_among(raw@)),
{
    let mut props: Vec<Property> = Vec::new();
    let mut i: usize = 0;
    assert(raw@.take(0) =~= Seq::<RawProperty>::empty());
    while i < raw.len()
        invariant
            i <= raw.len(),
            reads_as(props@, texts_among(raw@.take(i as int))),
        decreases raw.len() - i,
    {
        assert(raw@.take(i + 1).drop_last() =~= raw@.take(i as int));
        assert(raw@.take(i + 1).last() == raw@[i as int]);
        let value = copied_unterminated(&raw[i].1);
        let key = copied_bytes(&raw[i].0);
        match (utf8_text(key), utf8_text(value)) {
            (Some(key), Some(value)) => {
                proof {
                    vstd::utf8::encode_utf8_valid_utf8(key@);
                    vstd::utf8::encode_utf8_valid_utf8(value@);
                }
                props.push((key, value));
            },
            _ => {},
        }
        i += 1;
    }
    assert(raw@.take(raw@.len() as int) =~= raw@);
    props
}

/// What the server says of one of its outputs.
#[derive(Debug, PartialEq, Eq)]
pub struct SinkInfo {
    /// Its name.
    pub name: String,
    /// What people call it, if the server says.
    pub description: Option<String>,
    /// Its properties.
    pub props: Vec<Property>,
    /// Frames per second.
    pub rate: u32,
    /// The server's number for it.
    pub index: u32,
}

/// An output from what the server says of it, given the name of the desktop's default.
pub fn output_from(info: &SinkInfo, default_name: Option<&str>) -> (r: Output)
    ensures
        r.name@ == info.name@,
        r.description@ == match info.description {
            Some(text) => text@,
            None => info.name@,
        },
        r.rate == info.rate,
        r.index == info.index,
        r.is_default == (default_name matches Some(name) && name@ == info.name@),
        if over_bluetooth(info.name@, info.props@) {
            &&& r.kind is Bluetooth
            &&& r.lossy
            &&& match property(info.props@, "api.bluez5.codec"@) {
                Some(codec) => r.codec matches Some(text) && text@ == uppercase_text(codec),
                None => r.codec is None,
            }
        } else {
            r.kind == wired_kind(info.name@, info.props@) && r.codec is None && !r.lossy
        },
{
    let (kind, codec, lossy): (OutputKind, Option<String>, bool) = classify(
        info.name.as_str(),
        &info.props,
    );
    let description = match &info.description {
        Some(text) => text.clone(),
        None => info.name.clone(),
    };
    let is_default = match default_name {
        Some(name) => same(name, info.name.as_str()),
        None => false,
    };
    Output {
        name: info.name.clone(),
        description,
        kind,
        codec,
        lossy,
        rate: info.rate,
        index: info.index,
        is_default,
    }
}

// ---- the list for people -----------------------------------------------------------------------

/// How many bytes a text has.
pub open spec fn byte_length(text: Seq<char>) -> nat {
    vstd::utf8::encode_utf8(text).len()
}

/// The width of the column with the names.
pub open spec fn name_width(outputs: Seq<Output>) -> nat
    decreases outputs.len(),
{
    if outputs.len() == 0 {
        7
    } else {
        let before = name_width(outputs.drop_last());
        let length = byte_length(outputs.last().name@);
        if length > before {
            length
        } else {
            before
        }
    }
}

/// The first output that is the desktop's default.
pub open spec fn default_among(outputs: Seq<Output>) -> Option<Output>
    decreases outputs.len(),
{
    if outputs.len() == 0 {
        None
    } else if outputs[0].is_default {
        Some(outputs[0])
    } else {
        default_among(outputs.skip(1))
    }
}

/// What is said of an output in brackets.
pub open spec fn details_text(output: Output) -> Seq<char> {
    output.kind.text() + (match output.codec {
        Some(codec) => ", "@ + codec@,
        None => Seq::empty(),
    }) + (if output.lossy {
        ", lossy"@
    } else {
        Seq::empty()
    })
}

/// The line for an output.
pub open spec fn output_line(output: Output, width: nat) -> Seq<char> {
    "    "@ + padded(output.name@, width) + "  "@ + output.description@ + "  ("@ + details_text(
        output,
    ) + ")"@
}

/// The line for the desktop's default.
pub open spec fn default_line(default: Option<Output>, width: nat) -> Seq<char> {
    match default {
        Some(output) => "  * "@ + padded("default"@, width)
            + "  the desktop's default output, now "@ + output.description@,
        None => "    "@ + padded("default"@, width) + "  the desktop's default output"@,
    }
}

/// What the list begins with.
pub open spec fn outputs_heading() -> Seq<char> {
    "PipeWire outputs, shared and NOT bit-perfect (set mode = \"shared\" and sink = \"<name>\" under [output]):"@
}

/// What it ends with.
pub open spec fn outputs_ending() -> Seq<char> {
    "A named output is never swapped for another if it goes away; \"default\" follows the desktop."@
}

/// The list of the outputs.
pub open spec fn outputs_text(outputs: Seq<Output>) -> Seq<char> {
    if outputs.len() == 0 {
        joined_by(seq![outputs_heading(), "  (the sound server has no outputs)"@], "\n"@)
    } else {
        let width = name_width(outputs);
        joined_by(
            seq![outputs_heading(), default_line(default_among(outputs), width)]
                + outputs.map_values(|output: Output| output_line(output, width))
                + seq![outputs_ending()],
            "\n"@,
        )
    }
}

fn width_of(outputs: &Vec<Output>) -> (r: usize)
    ensures
        r == name_width(outputs@),
{
    let mut width: usize = 7;
    let mut i: usize = 0;
    assert(outputs@.take(0) =~= Seq::<Output>::empty());
    while i < outputs.len()
        invariant
            i <= outputs.len(),
            width == name_width(outputs@.take(i as int)),
        decreases outputs.len() - i,
    {
        assert(outputs@.take(i + 1).drop_last() =~= outputs@.take(i as int));
        assert(outputs@.take(i + 1).last() == outputs@[i as int]);
        let length: usize = outputs[i].name.as_str().as_bytes().len();
        if length > width {
            width = length;
        }
        i += 1;
    }
    assert(outputs@.take(outputs@.len() as int) =~= outputs@);
    width
}

/// The first output that is the desktop's default.
pub fn default_of(outputs: &Vec<Output>) -> (r: Option<&Output>)
    ensures
        match r {
            Some(output) => default_among(outputs@) == Some(*output),
            None => default_among(outputs@) is None,
        },
{
    let mut i: usize = 0;
    assert(outputs@.skip(0) =~= outputs@);
    while i < outputs.len()
        invariant
            i <= outputs.len(),
            default_among(outputs@) == default_among(outputs@.skip(i as int)),
        decreases outputs.len() - i,
    {
        assert(outputs@.skip(i as int)[0] == outputs@[i as int]);
        assert(outputs@.skip(i as int).skip(1) =~= outputs@.skip(i + 1));
        if outputs[i].is_default {
            return Some(&outputs[i]);
        }
        i += 1;
    }
    None
}

fn line_for(output: &Output, width: usize) -> (r: String)
    ensures
        r@ == output_line(*output, width as nat),
{
    let mut details = String::new();
    details.push_str(output.kind.label());
    if let Some(codec) = &output.codec {
        details.push_str(", ");
        details.push_str(codec.as_str());
    }
    if output.lossy {
        details.push_str(", lossy");
    }
    assert(details@ =~= details_text(*output));
    let mut line = String::new();
    line.push_str("    ");
    line.push_str(pad(output.name.as_str(), width).as_str());
    line.push_str("  ");
    line.push_str(output.description.as_str());
    line.push_str("  (");
    line.push_str(details.as_str());
    line.push_str(")");
    assert(line@ =~= output_line(*output, width as nat));
    line
}

/// The list `phonia devices` shows: the outputs, with the text to put in the config file.
pub fn format_outputs(outputs: &Vec<Output>) -> (r: String)
    ensures
        r@ == outputs_text(outputs@),
{
    let mut rows: Vec<String> = Vec::new();
    rows.push(
        "PipeWire outputs, shared and NOT bit-perfect (set mode = \"shared\" and sink = \"<name>\" under [output]):".to_owned(),
    );
    if outputs.len() == 0 {
        rows.push("  (the sound server has no outputs)".to_owned());
        assert(texts_of(rows@) =~= seq![
            outputs_heading(),
            "  (the sound server has no outputs)"@,
        ]);
        return join(&rows, "\n");
    }
    let width: usize = width_of(outputs);
    let default = default_of(outputs);
    let mut line = String::new();
    match default {
        Some(output) => {
            line.push_str("  * ");
            line.push_str(pad("default", width).as_str());
            line.push_str("  the desktop's default output, now ");
            line.push_str(output.description.as_str());
        },
        None => {
            line.push_str("    ");
            line.push_str(pad("default", width).as_str());
            line.push_str("  the desktop's default output");
        },
    }
    assert(line@ =~= default_line(default_among(outputs@), width as nat));
    rows.push(line);
    let ghost head = seq![
        outputs_heading(),
        default_line(default_among(outputs@), width as nat),
    ];
    let ghost body = outputs@.map_values(|output: Output| output_line(output, width as nat));
    assert(texts_of(rows@) =~= head + body.take(0));
    let mut i: usize = 0;
    while i < outputs.len()
        invariant
            i <= outputs.len(),
            body == outputs@.map_values(|output: Output| output_line(output, width as nat)),
            texts_of(rows@) == head + body.take(i as int),
        decreases outputs.len() - i,
    {
        let line = line_for(&outputs[i], width);
        let ghost before = texts_of(rows@);
        rows.push(line);
        assert(texts_of(rows@) =~= before.push(line@));
        assert(before.push(line@) =~= head + body.take(i + 1));
        i += 1;
    }
    assert(body.take(body.len() as int) =~= body);
    let ghost before = texts_of(rows@);
    rows.push(
        "A named output is never swapped for another if it goes away; \"default\" follows the desktop.".to_owned(),
    );
    assert(texts_of(rows@) =~= before.push(outputs_ending()));
    assert(before.push(outputs_ending()) =~= head + body + seq![outputs_ending()]);
    join(&rows, "\n")
}

// ---- the volume --------------------------------------------------------------------------------

/// The server's raw volume for a percentage.
pub open spec fn raw_of(percent: nat) -> nat {
    (if percent <= 100 {
        percent
    } else {
        100
    } * 65_536 + 50) / 100
}

/// The percentage a raw volume shows as.
pub open spec fn percent_of(raw: nat) -> nat {
    let percent = (raw * 100 + 32_768) / 65_536;
    if percent <= 255 {
        percent
    } else {
        255
    }
}

/// The server's raw volume for a percentage: what the desktop's mixers show as that percentage.
pub fn raw_from_percent(percent: u8) -> (r: u32)
    ensures
        r == raw_of(percent as nat),
{
    let capped: u32 = if percent <= 100 {
        percent as u32
    } else {
        100
    };
    (capped * VOLUME_NORM + 50) / 100
}

/// The percentage a raw volume shows as.
pub fn percent_from_raw(raw: u32) -> (r: u8)
    ensures
        r == percent_of(raw as nat),
{
    let percent: u64 = (raw as u64 * 100 + 32_768) / 65_536;
    if percent <= 255 {
        percent as u8
    } else {
        255
    }
}

/// A percentage up to unity gain survives the round trip through the server's raw volume, and none
/// above unity gain is ever asked for.
pub proof fn percentages_survive_the_round_trip(percent: nat)
    ensures
        percent <= 100 ==> percent_of(raw_of(percent)) == percent,
        raw_of(percent) <= VOLUME_NORM,
{
}

/// A stream that plays.
#[derive(Debug, Clone, Copy, PartialEq, Eq, Structural)]
pub struct AttachedStream {
    /// The stream's index on the server (its sink input).
    pub index: u32,
    /// How many channels it has.
    pub channels: u8,
    /// Which stream it is, of all that ever played.
    pub generation: u64,
}

/// What to tell the server about a stream.
#[derive(Debug, PartialEq, Eq)]
pub struct ToSend {
    /// The stream's index on the server.
    pub index: u32,
    /// The raw volume of each of its channels.
    pub volumes: Vec<u32>,
    /// Whether it is muted.
    pub muted: bool,
}

/// The volume of the stream on the server, kept across streams.
///
/// A new track in another format, or another output, is a new stream that must start at the volume
/// that was set, so the state lives here and is handed to each stream as it is created.
pub struct SharedVolume {
    volume: Volume,
    last_set: Option<Duration>,
    stream: Option<AttachedStream>,
    next_generation: u64,
}

/// The volume at one moment.
pub struct VolumeModel {
    /// How loud.
    pub volume: Volume,
    /// When phonia last set the volume itself. The server tells about such changes too, and reading
    /// them back while several are in flight would report an old value as if it were new.
    pub last_set: Option<Duration>,
    /// The stream that plays.
    pub stream: Option<AttachedStream>,
    /// What the next stream is called.
    pub next_generation: u64,
}

impl View for SharedVolume {
    type V = VolumeModel;

    closed spec fn view(&self) -> VolumeModel {
        VolumeModel {
            volume: self.volume,
            last_set: self.last_set,
            stream: self.stream,
            next_generation: self.next_generation,
        }
    }
}

impl VolumeModel {
    /// Whether what the server reports now may be the echo of what was set.
    pub open spec fn echoes(self, now: Duration) -> bool {
        self.last_set matches Some(at) && now@ < at@ + OWN_CHANGE_ECHO
    }

    /// Whether a volume that the server reports for stream `index` is a change made elsewhere.
    pub open spec fn is_news(self, index: u32, volume: Volume, now: Duration) -> bool {
        &&& !self.echoes(now)
        &&& self.stream matches Some(stream) && stream.index == index
        &&& self.volume != volume
    }
}

fn volumes_for(percent: u8, channels: u8) -> (r: Vec<u32>)
    ensures
        r@ == Seq::new(channels as nat, |i: int| raw_of(percent as nat) as u32),
{
    let raw: u32 = raw_from_percent(percent);
    let mut row: Vec<u32> = Vec::new();
    let mut i: u8 = 0;
    assert(row@ =~= Seq::new(0, |i: int| raw_of(percent as nat) as u32));
    while i < channels
        invariant
            i <= channels,
            raw == raw_of(percent as nat),
            row@ == Seq::new(i as nat, |i: int| raw_of(percent as nat) as u32),
        decreases channels - i,
    {
        row.push(raw);
        assert(row@ =~= Seq::new((i + 1) as nat, |i: int| raw_of(percent as nat) as u32));
        i += 1;
    }
    row
}

impl SharedVolume {
    /// At unity gain, with no stream.
    pub fn new() -> (r: Self)
        ensures
            r@ == (VolumeModel {
                volume: Volume { percent: 100, muted: false },
                last_set: None,
                stream: None,
                next_generation: 1,
            }),
    {
        SharedVolume {
            volume: Volume { percent: 100, muted: false },
            last_set: None,
            stream: None,
            next_generation: 1,
        }
    }

    /// The volume a stream should be created with: the raw volume of each of its channels, and
    /// whether it is muted.
    pub fn channel_volume(&self, channels: u8) -> (r: (Vec<u32>, bool))
        ensures
            r.0@ == Seq::new(channels as nat, |i: int| raw_of(self@.volume.percent as nat) as u32),
            r.1 == self@.volume.muted,
    {
        (volumes_for(self.volume.percent, channels), self.volume.muted)
    }

    /// A stream now plays: later changes go to it. Returns what to give back to
    /// [`SharedVolume::detach`].
    pub fn attach(&mut self, index: u32, channels: u8) -> (r: u64)
        ensures
            r == old(self)@.next_generation,
            final(self)@ == (VolumeModel {
                stream: Some(AttachedStream { index, channels, generation: r }),
                next_generation: r.wrapping_add(1),
                ..old(self)@
            }),
    {
        let generation: u64 = self.next_generation;
        self.next_generation = generation.wrapping_add(1);
        self.stream = Some(AttachedStream { index, channels, generation });
        generation
    }

    /// The stream is gone, unless a newer one already took its place.
    pub fn detach(&mut self, generation: u64)
        ensures
            final(self)@ == (VolumeModel {
                stream: match old(self)@.stream {
                    Some(stream) if stream.generation == generation => None,
                    other => other,
                },
                ..old(self)@
            }),
    {
        if let Some(stream) = self.stream {
            if stream.generation == generation {
                self.stream = None;
            }
        }
    }

    /// How loud it is.
    pub fn get(&self) -> (r: Volume)
        ensures
            r == self@.volume,
    {
        self.volume
    }

    /// Sets the volume; phonia never boosts above unity gain. Returns what to tell the server about
    /// the stream that plays, if there is one.
    pub fn set(&mut self, volume: Volume, now: Duration) -> (r: Option<ToSend>)
        ensures
            final(self)@ == (VolumeModel {
                volume: Volume {
                    percent: if volume.percent <= 100 {
                        volume.percent
                    } else {
                        100
                    },
                    muted: volume.muted,
                },
                last_set: Some(now),
                ..old(self)@
            }),
            match old(self)@.stream {
                Some(stream) => r matches Some(send) && send.index == stream.index && send.muted
                    == volume.muted && send.volumes@ == Seq::new(
                    stream.channels as nat,
                    |i: int| raw_of(volume.percent as nat) as u32,
                ),
                None => r is None,
            },
    {
        let percent: u8 = if volume.percent <= 100 {
            volume.percent
        } else {
            100
        };
        self.volume = Volume { percent, muted: volume.muted };
        self.last_set = Some(now);
        match self.stream {
            Some(stream) => Some(
                ToSend {
                    index: stream.index,
                    volumes: volumes_for(percent, stream.channels),
                    muted: volume.muted,
                },
            ),
            None => None,
        }
    }

    /// The server reports a volume for stream `index`. Returns whether someone else (the desktop's
    /// mixer) changed it, which is then to be told.
    pub fn changed_outside(&mut self, index: u32, volume: Volume, now: Duration) -> (r: bool)
        ensures
            r == old(self)@.is_news(index, volume, now),
            final(self)@ == if r {
                VolumeModel { volume, ..old(self)@ }
            } else {
                old(self)@
            },
    {
        let ours = match self.last_set {
            Some(at) => now.nanos < at.nanos || now.nanos - at.nanos < OWN_CHANGE_ECHO,
            None => false,
        };
        let plays = match self.stream {
            Some(stream) => stream.index == index,
            None => false,
        };
        if ours || !plays || self.volume == volume {
            return false;
        }
        self.volume = volume;
        true
    }
}

/// A change from the mixer is news once: reported again, it is not.
pub proof fn a_change_is_news_once(before: VolumeModel, index: u32, volume: Volume, now: Duration)
    requires
        before.is_news(index, volume, now),
    ensures
        !(VolumeModel { volume, ..before }).is_news(index, volume, now),
{
}

/// What to do once the volume was sent to the server, or was not.
#[derive(Debug, PartialEq, Eq)]
pub enum AfterSending {
    /// Nothing.
    Done,
    /// The connection has died: make it again, and send once more.
    Reconnect,
    /// Give up, with this error.
    Fail(String),
}

/// What to do once the volume was sent to the server, for the `attempt`-th time counting from zero,
/// or was not. A connection that has died is made again once.
pub fn after_sending(attempt: u32, outcome: Result<(), String>) -> (r: AfterSending)
    ensures
        match outcome {
            Ok(()) => r is Done,
            Err(why) => if attempt == 0 {
                r is Reconnect
            } else {
                r matches AfterSending::Fail(text) && text@ == "setting the stream's volume: "@
                    + why@
            },
        },
{
    match outcome {
        Ok(()) => AfterSending::Done,
        Err(why) => if attempt == 0 {
            AfterSending::Reconnect
        } else {
            AfterSending::Fail(
                crate::text::joined("setting the stream's volume: ", why.as_str()),
            )
        },
    }
}

/// A stream on the server, as the server lists it.
#[derive(Debug, PartialEq, Eq)]
pub struct StreamInfo {
    /// Its index.
    pub index: u32,
    /// How many channels it has.
    pub channels: u8,
    /// The id it was given, if it was.
    pub stream_id: Option<Vec<u8>>,
}

/// Whether a stream was given an id.
pub open spec fn has_id(stream: StreamInfo, id: Seq<u8>) -> bool {
    stream.stream_id matches Some(bytes) && unterminated(bytes@) == id
}

/// The first stream with an id.
pub open spec fn stream_with(streams: Seq<StreamInfo>, id: Seq<u8>) -> Option<StreamInfo>
    decreases streams.len(),
{
    if streams.len() == 0 {
        None
    } else if has_id(streams[0], id) {
        Some(streams[0])
    } else {
        stream_with(streams.skip(1), id)
    }
}

fn same_bytes(a: &[u8], b: &[u8]) -> (r: bool)
    ensures
        r == (a@ == b@),
{
    if a.len() != b.len() {
        return false;
    }
    let mut i: usize = 0;
    while i < a.len()
        invariant
            i <= a.len() == b.len(),
            forall|j: int| 0 <= j < i ==> a@[j] == b@[j],
        decreases a.len() - i,
    {
        if a[i] != b[i] {
            return false;
        }
        i += 1;
    }
    assert(a@ =~= b@);
    true
}

/// Finds our stream among the server's by the id we gave it, and how many channels it has.
pub fn find_stream(streams: &Vec<StreamInfo>, stream_id: &str) -> (r: Result<(u32, u8), String>)
    ensures
        match stream_with(streams@, vstd::utf8::encode_utf8(stream_id@)) {
            Some(stream) => r == Ok::<(u32, u8), String>((stream.index, stream.channels)),
            None => r matches Err(why) && why@
                == "the new stream is not among the sound server's streams"@,
        },
{
    let id = stream_id.as_bytes();
    let ghost wanted = vstd::utf8::encode_utf8(stream_id@);
    let mut i: usize = 0;
    assert(streams@.skip(0) =~= streams@);
    while i < streams.len()
        invariant
            i <= streams.len(),
            id@ == wanted,
            wanted == vstd::utf8::encode_utf8(stream_id@),
            stream_with(streams@, wanted) == stream_with(streams@.skip(i as int), wanted),
        decreases streams.len() - i,
    {
        assert(streams@.skip(i as int)[0] == streams@[i as int]);
        assert(streams@.skip(i as int).skip(1) =~= streams@.skip(i + 1));
        if let Some(bytes) = &streams[i].stream_id {
            let given = copied_unterminated(bytes);
            if same_bytes(given.as_slice(), id) {
                return Ok((streams[i].index, streams[i].channels));
            }
        }
        i += 1;
    }
    Err("the new stream is not among the sound server's streams".to_owned())
}

/// The sum of a row of raw volumes.
pub open spec fn total(raw: Seq<u32>) -> nat
    decreases raw.len(),
{
    if raw.len() == 0 {
        0
    } else {
        total(raw.drop_last()) + raw.last() as nat
    }
}

/// The volume of a stream whose channels have these raw volumes: their mean.
pub fn stream_volume(raw: &Vec<u32>, muted: bool) -> (r: Volume)
    requires
        raw@.len() <= u32::MAX,
    ensures
        r.muted == muted,
        r.percent == percent_of(
            if raw@.len() == 0 {
                0
            } else {
                total(raw@) / raw@.len()
            },
        ),
{
    let mut sum: u64 = 0;
    let mut i: usize = 0;
    assert(raw@.take(0) =~= Seq::<u32>::empty());
    while i < raw.len()
        invariant
            i <= raw.len(),
            raw@.len() <= u32::MAX,
            sum == total(raw@.take(i as int)),
            sum <= i * u32::MAX,
        decreases raw.len() - i,
    {
        assert(raw@.take(i + 1).drop_last() =~= raw@.take(i as int));
        assert(raw@.take(i + 1).last() == raw@[i as int]);
        assert(i * u32::MAX + u32::MAX == (i + 1) * u32::MAX) by (nonlinear_arith);
        assert((i + 1) * u32::MAX <= u32::MAX * u32::MAX) by (nonlinear_arith)
            requires
                i + 1 <= u32::MAX,
        ;
        sum = sum + raw[i] as u64;
        i += 1;
    }
    assert(raw@.take(raw@.len() as int) =~= raw@);
    if raw.len() == 0 {
        return Volume { percent: percent_from_raw(0), muted };
    }
    let mean: u64 = sum / raw.len() as u64;
    proof {
        let count = raw@.len() as int;
        vstd::arithmetic::div_mod::lemma_div_is_ordered(sum as int, count * u32::MAX, count);
        vstd::arithmetic::div_mod::lemma_div_multiples_vanish(u32::MAX as int, count);
    }
    Volume { percent: percent_from_raw(mean as u32), muted }
}

// ---- a stream ----------------------------------------------------------------------------------

/// How a stream is set up.
#[derive(Debug, PartialEq, Eq)]
pub struct StreamPlan {
    /// Whether the stream may not be moved to another output: a named output is what the user chose,
    /// so if it goes away, the stream must not jump to the speakers.
    pub no_move: bool,
    /// The raw volume of each channel. The stream starts at the volume that was set, so a new track
    /// never jumps in loudness.
    pub volumes: Vec<u32>,
    /// Whether it starts muted.
    pub muted: bool,
    /// How many bytes the server is asked to hold.
    pub target_length: u32,
    /// How many bytes it asks for at a time at least.
    pub minimum_request_length: u32,
    /// How many frames the ring lets the audio thread run ahead of the server.
    pub ring_frames: u32,
    /// How many frames one write takes at most.
    pub period_frames: u32,
    /// How many frames of silence go in front of the stream: the server drops the first ~1024 frames
    /// it is given.
    pub prefix_frames: u32,
    /// How many frames the server is asked to hold.
    pub server_target_frames: u32,
}

/// How to set up a stream for audio like `spec` on the output that was chosen.
pub fn plan_stream(target: &Target, spec: SourceSpec, volume: &SharedVolume) -> (r: Result<
    StreamPlan,
    String,
>)
    requires
        spec.channels == 1 || spec.channels == 2 ==> spec.sample_rate * (spec.channels * 4) * 2
            <= u32::MAX,
    ensures
        if spec.channels == 1 || spec.channels == 2 {
            r matches Ok(plan) && {
                let rate = spec.sample_rate as int;
                let frame = spec.channels * 4;
                &&& plan.no_move == target is Named
                &&& plan.volumes@ == Seq::new(
                    spec.channels as nat,
                    |i: int| raw_of(volume@.volume.percent as nat) as u32,
                )
                &&& plan.muted == volume@.volume.muted
                &&& plan.target_length == rate * frame * 2 / 5
                &&& plan.minimum_request_length == rate * frame / 50
                &&& plan.ring_frames == rate / 4
                &&& plan.period_frames == rate / 50
                &&& plan.prefix_frames == rate / 10
                &&& plan.server_target_frames == rate * 2 / 5
            }
        } else {
            r matches Err(why) && why@ == "shared mode plays mono and stereo, not "@ + decimal_text(
                spec.channels as nat,
            ) + " channels"@
        },
{
    if spec.channels != 1 && spec.channels != 2 {
        let mut why = String::new();
        why.push_str("shared mode plays mono and stereo, not ");
        why.push_str(decimal(spec.channels as u64).as_str());
        why.push_str(" channels");
        assert(why@ =~= "shared mode plays mono and stereo, not "@ + decimal_text(
            spec.channels as nat,
        ) + " channels"@);
        return Err(why);
    }
    let rate: u32 = spec.sample_rate;
    let frame_bytes: u32 = spec.channels * 4;
    proof {
        assert(rate <= rate * frame_bytes) by (nonlinear_arith)
            requires
                frame_bytes >= 4,
        ;
    }
    let no_move = match target {
        Target::Named(_) => true,
        Target::Default => false,
    };
    let (volumes, muted): (Vec<u32>, bool) = volume.channel_volume(spec.channels as u8);
    Ok(
        StreamPlan {
            no_move,
            volumes,
            muted,
            target_length: rate * frame_bytes * 2 / 5,
            minimum_request_length: rate * frame_bytes / 50,
            ring_frames: rate / 4,
            period_frames: rate / 50,
            prefix_frames: rate / 10,
            server_target_frames: rate * 2 / 5,
        },
    )
}

/// What is said of a named output that is not there.
pub open spec fn missing_output_text(name: Seq<char>) -> Seq<char> {
    "the sound server has no output named '"@ + name
        + "'. `phonia devices` lists them, and a Bluetooth speaker has to be connected first"@
}

/// What to do about a named output that is not there: a card that was just given back to the desktop
/// takes a moment to become an output again, so it is looked for until the time is up.
pub fn after_missing(name: &str, time_is_up: bool) -> (r: Option<String>)
    ensures
        match r {
            Some(why) => time_is_up && why@ == missing_output_text(name@),
            None => !time_is_up,
        },
{
    if !time_is_up {
        return None;
    }
    let mut why = String::new();
    why.push_str("the sound server has no output named '");
    why.push_str(name);
    why.push_str(
        "'. `phonia devices` lists them, and a Bluetooth speaker has to be connected first",
    );
    assert(why@ =~= missing_output_text(name@));
    Some(why)
}

/// Where a stream goes, for the report of what the sink is doing.
#[derive(Debug, PartialEq, Eq)]
pub struct SharedRoute {
    /// The output.
    pub sink: String,
    /// The rate that it runs at.
    pub sink_rate: u32,
    /// What kind of output it is.
    pub kind: String,
    /// The Bluetooth codec in use, when there is one.
    pub codec: Option<String>,
    /// Whether what reaches the speaker has lost information on the way.
    pub lossy: bool,
}

impl SharedRoute {
    /// The way to an output.
    pub fn to(output: &Output) -> (r: Self)
        ensures
            r.sink@ == output.description@,
            r.sink_rate == output.rate,
            r.kind@ == output.kind.text(),
            r.codec == output.codec,
            r.lossy == output.lossy,
    {
        SharedRoute {
            sink: output.description.clone(),
            sink_rate: output.rate,
            kind: output.kind.label().to_owned(),
            codec: crate::engine::types::copied_text(&output.codec),
            lossy: output.lossy,
        }
    }
}

/// What the server says about a stream, from its offsets and latencies.
pub fn timing_from(write_offset: i64, read_offset: i64, sink_usec: u64, source_usec: u64) -> (r:
    super::Timing)
    requires
        i64::MIN <= write_offset - read_offset <= i64::MAX,
        sink_usec + source_usec <= u64::MAX,
    ensures
        r.queued_bytes == if write_offset > read_offset {
            write_offset - read_offset
        } else {
            0
        },
        r.write_bytes == if write_offset > 0 {
            write_offset as int
        } else {
            0
        },
        r.read_bytes == if read_offset > 0 {
            read_offset as int
        } else {
            0
        },
        r.sink_latency@ == (sink_usec + source_usec) * 1000,
{
    super::Timing {
        queued_bytes: if write_offset > read_offset {
            (write_offset - read_offset) as u64
        } else {
            0
        },
        write_bytes: if write_offset > 0 {
            write_offset as u64
        } else {
            0
        },
        read_bytes: if read_offset > 0 {
            read_offset as u64
        } else {
            0
        },
        sink_latency: Duration::from_micros(sink_usec + source_usec),
    }
}

// ---- what the server tells ---------------------------------------------------------------------

/// What an event of the server is about.
#[derive(Debug, Clone, Copy, PartialEq, Eq, Structural)]
pub enum Facility {
    /// An output.
    Sink,
    /// A stream.
    SinkInput,
    /// The server itself, such as the desktop's default.
    Server,
    /// Anything else.
    Other,
}

/// What happened.
#[derive(Debug, Clone, Copy, PartialEq, Eq, Structural)]
pub enum Happened {
    /// It appeared.
    New,
    /// It changed.
    Changed,
    /// It went away.
    Removed,
}

/// What follows from an event while a stream plays.
#[derive(Debug, PartialEq, Eq)]
pub enum Watched {
    /// The output the stream may not leave is gone, for this reason.
    Gone(String),
    /// Someone may have changed the volume: read it.
    ReadVolume,
    /// Nothing.
    Nothing,
}

/// What follows from an event while the stream `stream_index` plays. `sink` is the output the stream
/// may not leave, when there is one: a stream that is not allowed to move is not closed when its
/// output disappears, it stays, silent, so nothing else would notice.
pub fn watched(
    facility: Facility,
    happened: Happened,
    index: Option<u32>,
    sink: &Option<(u32, String)>,
    stream_index: u32,
) -> (r: Watched)
    ensures
        match *sink {
            Some((n, name)) if facility is Sink && happened is Removed && index == Some(n) => {
                r matches Watched::Gone(why) && why@ == "the output '"@ + name@ + "' went away"@
            },
            _ => if facility is SinkInput && happened is Changed && index == Some(stream_index) {
                r is ReadVolume
            } else {
                r is Nothing
            },
        },
{
    match (facility, happened, index) {
        (Facility::Sink, Happened::Removed, Some(index)) => match sink {
            Some((n, name)) => {
                if index == *n {
                    let mut why = String::new();
                    why.push_str("the output '");
                    why.push_str(name.as_str());
                    why.push_str("' went away");
                    assert(why@ =~= "the output '"@ + name@ + "' went away"@);
                    Watched::Gone(why)
                } else {
                    Watched::Nothing
                }
            },
            None => Watched::Nothing,
        },
        (Facility::SinkInput, Happened::Changed, Some(index)) => if index == stream_index {
            Watched::ReadVolume
        } else {
            Watched::Nothing
        },
        _ => Watched::Nothing,
    }
}

/// What to mark a ring gone with when the connection to the server is lost; nothing if nobody uses
/// the ring any more.
pub fn connection_lost(closed: bool, error: &str) -> (r: Option<String>)
    ensures
        match r {
            Some(why) => !closed && why@ == "lost the connection to the sound server ("@ + error@
                + ")"@,
            None => closed,
        },
{
    if closed {
        return None;
    }
    let mut why = String::new();
    why.push_str("lost the connection to the sound server (");
    why.push_str(error);
    why.push_str(")");
    assert(why@ =~= "lost the connection to the sound server ("@ + error@ + ")"@);
    Some(why)
}

/// Whether an event means that the outputs changed: one appears, one goes away, or the desktop's
/// default moves.
pub fn outputs_changed(facility: Facility, happened: Happened) -> (r: bool)
    ensures
        r == match facility {
            Facility::Sink => happened is New || happened is Removed,
            Facility::Server => true,
            _ => false,
        },
{
    match facility {
        Facility::Sink => match happened {
            Happened::New | Happened::Removed => true,
            Happened::Changed => false,
        },
        Facility::Server => true,
        _ => false,
    }
}

} // verus!
