//! Naming a sound card.
//!
//! ALSA numbers cards in the order the kernel found them, so a USB DAC that was card 2 yesterday is
//! card 1 today. Its *id* (`DS2`) does not change, so a device can be written `hw:DS2,0` and is
//! turned into the current `hw:N,D` here, each time a device is opened. Everything downstream keeps
//! working with numbers.
//!
//! The sound cards are given as what is in a directory laid out like `/proc/asound`.

use crate::pieces::{
    cut, join, joined_by, lines, lines_of, pad, padded, pieces, pieces_of, split_once, strip_prefix,
    strip_suffix, texts_of, trim_start,
};
use crate::text::{
    decimal, decimal_text, joined, parse_u32, parsed, quoted, quoted_text, same, trim, trimmed,
    trimmed_start,
};
use vstd::prelude::*;

verus! {

/// Where the kernel describes the sound cards.
pub const ASOUND: &'static str = "/proc/asound";

/// A device as configured, made concrete.
#[derive(Debug, Clone, PartialEq, Eq)]
#[allow(inconsistent_fields)]
pub enum Device {
    /// A raw hardware device, which is what bit-perfect output needs.
    Hw {
        /// The number of the card.
        card: u32,
        /// The number of the device on it.
        device: u32,
        /// The card's id, when known (for messages).
        card_id: Option<String>,
    },
    /// Anything else (`default`, `plughw:...`, `null`): passed to ALSA as written. Not checked for
    /// bit-perfectness, since something may be mixing or resampling in between.
    Other(String),
}

/// A device as configured, made concrete.
#[allow(inconsistent_fields)]
pub enum DeviceView {
    /// A raw hardware device.
    Hw {
        /// The number of the card.
        card: u32,
        /// The number of the device on it.
        device: u32,
        /// The card's id, when known.
        card_id: Option<Seq<char>>,
    },
    /// Anything else.
    Other(Seq<char>),
}

impl View for Device {
    type V = DeviceView;

    open spec fn view(&self) -> DeviceView {
        match *self {
            Device::Hw { card, device, card_id } => DeviceView::Hw {
                card,
                device,
                card_id: match card_id {
                    Some(id) => Some(id@),
                    None => None,
                },
            },
            Device::Other(name) => DeviceView::Other(name@),
        }
    }
}

impl DeviceView {
    /// The name to give ALSA.
    pub open spec fn alsa_name(self) -> Seq<char> {
        match self {
            DeviceView::Hw { card, device, .. } => "hw:"@ + decimal_text(card as nat) + ","@
                + decimal_text(device as nat),
            DeviceView::Other(name) => name,
        }
    }

    /// The device for people.
    pub open spec fn described(self) -> Seq<char> {
        match self {
            DeviceView::Hw { card_id: Some(id), .. } => self.alsa_name() + " ("@ + id + ")"@,
            other => other.alsa_name(),
        }
    }
}

impl Device {
    /// The name to give ALSA.
    pub fn alsa_name(&self) -> (r: String)
        ensures
            r@ == self@.alsa_name(),
    {
        match self {
            Device::Hw { card, device, card_id: _ } => {
                let mut name = String::new();
                name.push_str("hw:");
                name.push_str(decimal(*card as u64).as_str());
                name.push_str(",");
                name.push_str(decimal(*device as u64).as_str());
                assert(name@ =~= self@.alsa_name());
                name
            },
            Device::Other(name) => name.clone(),
        }
    }

    /// The device for people: `hw:1,0 (DS2)`.
    pub fn describe(&self) -> (r: String)
        ensures
            r@ == self@.described(),
    {
        match self {
            Device::Hw { card: _, device: _, card_id: Some(id) } => {
                let mut text = self.alsa_name();
                text.push_str(" (");
                text.push_str(id.as_str());
                text.push_str(")");
                assert(text@ =~= self@.described());
                text
            },
            _ => self.alsa_name(),
        }
    }
}

// ---- what the kernel says ----------------------------------------------------------------------

/// What is in one entry of the directory that describes the sound cards.
#[derive(Debug, PartialEq, Eq)]
pub struct CardDir {
    /// The name of the entry.
    pub name: String,
    /// What its file `id` says, if it can be read.
    pub id: Option<String>,
    /// The names of what is in it.
    pub files: Vec<String>,
    /// Whether it has a file `usbid`.
    pub usb: bool,
}

/// What is in one entry of the directory that describes the sound cards.
#[verifier::ext_equal]
pub struct DirView {
    /// The name of the entry.
    pub name: Seq<char>,
    /// What its file `id` says, if it can be read.
    pub id: Option<Seq<char>>,
    /// The names of what is in it.
    pub files: Seq<Seq<char>>,
    /// Whether it has a file `usbid`.
    pub usb: bool,
}

impl View for CardDir {
    type V = DirView;

    open spec fn view(&self) -> DirView {
        DirView {
            name: self.name@,
            id: match self.id {
                Some(id) => Some(id@),
                None => None,
            },
            files: texts_of(self.files@),
            usb: self.usb,
        }
    }
}

/// What the directory that describes the sound cards says.
#[derive(Debug, PartialEq, Eq)]
pub struct Asound {
    /// Where it is.
    pub path: String,
    /// What its file `cards` says; nothing if it can't be read.
    pub cards: String,
    /// Its entries, or why they can't be listed.
    pub dirs: Result<Vec<CardDir>, String>,
}

/// The entries of a directory.
pub open spec fn dirs_of(dirs: Seq<CardDir>) -> Seq<DirView> {
    dirs.map_values(|dir: CardDir| dir@)
}

/// A sound card, as `phonia devices` lists it.
#[derive(Debug, Clone, PartialEq, Eq)]
pub struct CardInfo {
    /// Its number.
    pub index: u32,
    /// Its id.
    pub id: String,
    /// The card's full name, e.g. `Fosi Audio DS2`.
    pub name: String,
    /// Whether it is on USB.
    pub usb: bool,
    /// The playback devices the card has.
    pub playback: Vec<u32>,
}

/// A sound card.
#[verifier::ext_equal]
pub struct CardView {
    /// Its number.
    pub index: u32,
    /// Its id.
    pub id: Seq<char>,
    /// Its full name.
    pub name: Seq<char>,
    /// Whether it is on USB.
    pub usb: bool,
    /// The playback devices the card has.
    pub playback: Seq<u32>,
}

impl View for CardInfo {
    type V = CardView;

    open spec fn view(&self) -> CardView {
        CardView {
            index: self.index,
            id: self.id@,
            name: self.name@,
            usb: self.usb,
            playback: self.playback@,
        }
    }
}

/// A row of cards.
pub open spec fn views_of(cards: Seq<CardInfo>) -> Seq<CardView> {
    cards.map_values(|card: CardInfo| card@)
}

/// `item` put into a row behind everything whose key is no greater.
pub open spec fn inserted<A>(row: Seq<A>, item: A, key: spec_fn(A) -> int) -> Seq<A>
    decreases row.len(),
{
    if row.len() == 0 || key(row.last()) <= key(item) {
        row.push(item)
    } else {
        inserted(row.drop_last(), item, key).push(row.last())
    }
}

/// Whether the keys of a row never go down.
pub open spec fn ordered<A>(row: Seq<A>, key: spec_fn(A) -> int) -> bool {
    forall|i: int, j: int| 0 <= i <= j < row.len() ==> key(#[trigger] row[i]) <= key(#[trigger] row[j])
}

proof fn lemma_inserted_at<A>(row: Seq<A>, item: A, key: spec_fn(A) -> int, at: int)
    requires
        0 <= at <= row.len(),
        at > 0 ==> key(row[at - 1]) <= key(item),
        forall|j: int| at <= j < row.len() ==> key(#[trigger] row[j]) > key(item),
    ensures
        inserted(row, item, key) == row.insert(at, item),
    decreases row.len(),
{
    if at < row.len() {
        lemma_inserted_at(row.drop_last(), item, key, at);
        assert(row.drop_last().insert(at, item).push(row.last()) =~= row.insert(at, item));
    } else {
        assert(row.push(item) =~= row.insert(at, item));
    }
}

proof fn lemma_inserted_is_ordered<A>(row: Seq<A>, item: A, key: spec_fn(A) -> int)
    requires
        ordered(row, key),
    ensures
        ordered(inserted(row, item, key), key),
        inserted(row, item, key).len() == row.len() + 1,
        inserted(row, item, key).last() == item || (row.len() > 0 && inserted(
            row,
            item,
            key,
        ).last() == row.last()),
        forall|k: int|
            0 <= k < inserted(row, item, key).len() ==> key(#[trigger] inserted(row, item, key)[k])
                <= key(item) || (row.len() > 0 && key(inserted(row, item, key)[k]) <= key(
                row.last(),
            )),
    decreases row.len(),
{
    let out = inserted(row, item, key);
    if row.len() == 0 || key(row.last()) <= key(item) {
        assert forall|i: int, j: int| 0 <= i <= j < out.len() implies key(#[trigger] out[i]) <= key(
            #[trigger] out[j],
        ) by {
            if j == row.len() && i < row.len() {
                assert(key(row[i]) <= key(row[row.len() - 1]));
            }
        }
    } else {
        let shorter = row.drop_last();
        assert(ordered(shorter, key)) by {
            assert forall|i: int, j: int| 0 <= i <= j < shorter.len() implies key(
                #[trigger] shorter[i],
            ) <= key(#[trigger] shorter[j]) by {
                assert(key(row[i]) <= key(row[j]));
            }
        }
        lemma_inserted_is_ordered(shorter, item, key);
        let inner = inserted(shorter, item, key);
        assert forall|k: int| 0 <= k < inner.len() implies key(#[trigger] inner[k]) <= key(
            row.last(),
        ) by {
            if shorter.len() > 0 {
                assert(key(row[shorter.len() - 1]) <= key(row[row.len() - 1]));
            }
        }
        assert(out == inner.push(row.last()));
        assert forall|i: int, j: int| 0 <= i <= j < out.len() implies key(#[trigger] out[i]) <= key(
            #[trigger] out[j],
        ) by {
            if j < inner.len() {
                assert(key(inner[i]) <= key(inner[j]));
            } else if i < inner.len() {
                assert(key(inner[i]) <= key(row.last()));
            }
        }
    }
}

/// The number in the name of a playback device: `pcm<D>p`.
pub open spec fn device_number(file: Seq<char>) -> Option<nat> {
    let rest = file.skip("pcm"@.len() as int);
    if "pcm"@.is_prefix_of(file) && rest.len() > 0 && rest.last() == 'p' {
        parsed(rest.drop_last(), u32::MAX as nat)
    } else {
        None
    }
}

/// The playback devices of a card, by what is in its directory, in order.
pub open spec fn playback_in(files: Seq<Seq<char>>) -> Seq<u32>
    decreases files.len(),
{
    if files.len() == 0 {
        Seq::empty()
    } else {
        let before = playback_in(files.drop_last());
        match device_number(files.last()) {
            Some(n) => inserted(before, n as u32, |n: u32| n as int),
            None => before,
        }
    }
}

fn playback_of(files: &Vec<String>) -> (r: Vec<u32>)
    ensures
        r@ == playback_in(texts_of(files@)),
{
    let mut row: Vec<u32> = Vec::new();
    let mut i: usize = 0;
    let ghost all = texts_of(files@);
    assert(all.take(0) =~= Seq::<Seq<char>>::empty());
    while i < files.len()
        invariant
            i <= files.len(),
            all == texts_of(files@),
            row@ == playback_in(all.take(i as int)),
        decreases files.len() - i,
    {
        let file = files[i].as_str();
        assert(all.take(i + 1).drop_last() =~= all.take(i as int));
        assert(all.take(i + 1).last() == file@);
        let number = match strip_prefix(file, "pcm") {
            Some(rest) => match strip_suffix(rest.as_str(), 'p') {
                Some(digits) => parse_u32(digits.as_str()),
                None => None,
            },
            None => None,
        };
        if let Some(n) = number {
            let mut at: usize = row.len();
            while at > 0 && row[at - 1] > n
                invariant
                    at <= row.len(),
                    forall|j: int| at <= j < row@.len() ==> row@[j] > n,
                decreases at,
            {
                at -= 1;
            }
            proof {
                lemma_inserted_at(row@, n, |n: u32| n as int, at as int);
            }
            row.insert(at, n);
        }
        i += 1;
    }
    assert(all.take(all.len() as int) =~= all);
    row
}

/// The number of the card that an entry is named after: `card<N>`.
pub open spec fn card_number(name: Seq<char>) -> Option<nat> {
    if "card"@.is_prefix_of(name) {
        parsed(name.skip("card"@.len() as int), u32::MAX as nat)
    } else {
        None
    }
}

/// The full name that a line of the file `cards` gives card `index`. The lines look like
/// ` 1 [DS2            ]: USB-Audio - Fosi Audio DS2`.
pub open spec fn name_on(line: Seq<char>, index: u32) -> Option<Seq<char>> {
    match cut(trimmed_start(line), " "@) {
        Some((number, rest)) if parsed(number, u32::MAX as nat) == Some(index as nat) => match cut(
            rest,
            " - "@,
        ) {
            Some((_, name)) => Some(trimmed(name)),
            None => None,
        },
        _ => None,
    }
}

/// The full name of card `index` on the first of `rows` that gives it.
pub open spec fn name_among(rows: Seq<Seq<char>>, index: u32) -> Option<Seq<char>>
    decreases rows.len(),
{
    if rows.len() == 0 {
        None
    } else {
        match name_on(rows[0], index) {
            Some(name) => Some(name),
            None => name_among(rows.skip(1), index),
        }
    }
}

/// The full name of card `index` from the text of the file `cards`.
pub fn card_name(cards_file: &str, index: u32) -> (r: Option<String>)
    ensures
        match r {
            Some(name) => name_among(lines(cards_file@), index) == Some(name@),
            None => name_among(lines(cards_file@), index) is None,
        },
{
    let rows = lines_of(cards_file);
    let ghost all = lines(cards_file@);
    let mut i: usize = 0;
    assert(all.skip(0) =~= all);
    assert(texts_of(rows@).len() == rows@.len());
    while i < rows.len()
        invariant
            i <= rows.len(),
            texts_of(rows@) == all,
            rows@.len() == all.len(),
            name_among(all, index) == name_among(all.skip(i as int), index),
            all == lines(cards_file@),
        decreases rows.len() - i,
    {
        assert(all.skip(i as int)[0] == rows@[i as int]@);
        assert(all.skip(i as int).skip(1) =~= all.skip(i + 1));
        let line = trim_start(rows[i].as_str());
        if let Some((number, rest)) = split_once(line.as_str(), " ") {
            if let Some(n) = parse_u32(number.as_str()) {
                if n == index {
                    if let Some((_, name)) = split_once(rest.as_str(), " - ") {
                        return Some(trim(name.as_str()));
                    }
                }
            }
        }
        i += 1;
    }
    None
}

/// The card that an entry describes, if it does.
pub open spec fn card_in(dir: DirView, names: Seq<char>) -> Option<CardView> {
    match (card_number(dir.name), dir.id) {
        (Some(index), Some(id)) => Some(
            CardView {
                index: index as u32,
                id: trimmed(id),
                name: match name_among(lines(names), index as u32) {
                    Some(name) => name,
                    None => trimmed(id),
                },
                usb: dir.usb,
                playback: playback_in(dir.files),
            },
        ),
        _ => None,
    }
}

/// The cards that entries describe, by their numbers.
pub open spec fn cards_in(dirs: Seq<DirView>, names: Seq<char>) -> Seq<CardView>
    decreases dirs.len(),
{
    if dirs.len() == 0 {
        Seq::empty()
    } else {
        let before = cards_in(dirs.drop_last(), names);
        match card_in(dirs.last(), names) {
            Some(card) => inserted(before, card, |card: CardView| card.index as int),
            None => before,
        }
    }
}

/// The cards are listed in the order of their numbers.
pub proof fn cards_are_in_order(dirs: Seq<DirView>, names: Seq<char>)
    ensures
        ordered(cards_in(dirs, names), |card: CardView| card.index as int),
    decreases dirs.len(),
{
    if dirs.len() > 0 {
        cards_are_in_order(dirs.drop_last(), names);
        if let Some(card) = card_in(dirs.last(), names) {
            lemma_inserted_is_ordered(
                cards_in(dirs.drop_last(), names),
                card,
                |card: CardView| card.index as int,
            );
        }
    }
}

/// So are the playback devices of a card.
pub proof fn playback_devices_are_in_order(files: Seq<Seq<char>>)
    ensures
        ordered(playback_in(files), |n: u32| n as int),
    decreases files.len(),
{
    if files.len() > 0 {
        playback_devices_are_in_order(files.drop_last());
        if let Some(n) = device_number(files.last()) {
            lemma_inserted_is_ordered(
                playback_in(files.drop_last()),
                n as u32,
                |n: u32| n as int,
            );
        }
    }
}

/// Every sound card, or why they can't be listed.
pub open spec fn all_cards(asound: Asound) -> Result<Seq<CardView>, Seq<char>> {
    match asound.dirs {
        Ok(dirs) => Ok(cards_in(dirs_of(dirs@), asound.cards@)),
        Err(why) => Err("reading "@ + asound.path@ + ": "@ + why@),
    }
}

/// Every sound card, in order.
pub fn cards(asound: &Asound) -> (r: Result<Vec<CardInfo>, String>)
    ensures
        match r {
            Ok(cards) => all_cards(*asound) == Ok::<Seq<CardView>, Seq<char>>(views_of(cards@)),
            Err(why) => all_cards(*asound) == Err::<Seq<CardView>, Seq<char>>(why@),
        },
{
    let dirs = match &asound.dirs {
        Ok(dirs) => dirs,
        Err(why) => {
            let mut text = String::new();
            text.push_str("reading ");
            text.push_str(asound.path.as_str());
            text.push_str(": ");
            text.push_str(why.as_str());
            assert(text@ =~= "reading "@ + asound.path@ + ": "@ + why@);
            return Err(text);
        },
    };
    let mut row: Vec<CardInfo> = Vec::new();
    let mut i: usize = 0;
    let ghost all = dirs_of(dirs@);
    let ghost key = |card: CardView| card.index as int;
    assert(all.take(0) =~= Seq::<DirView>::empty());
    assert(views_of(row@) =~= Seq::<CardView>::empty());
    while i < dirs.len()
        invariant
            i <= dirs.len(),
            all == dirs_of(dirs@),
            key == (|card: CardView| card.index as int),
            views_of(row@) == cards_in(all.take(i as int), asound.cards@),
        decreases dirs.len() - i,
    {
        let dir = &dirs[i];
        proof {
            assert(all.take(i + 1).drop_last() =~= all.take(i as int));
            assert(all.take(i + 1).last() == dir@);
        }
        let index = match strip_prefix(dir.name.as_str(), "card") {
            Some(rest) => parse_u32(rest.as_str()),
            None => None,
        };
        if let (Some(index), Some(id)) = (index, &dir.id) {
            let id = trim(id.as_str());
            let name = match card_name(asound.cards.as_str(), index) {
                Some(name) => name,
                None => id.clone(),
            };
            let card = CardInfo { index, id, name, usb: dir.usb, playback: playback_of(&dir.files) };
            assert(Some(card@) == card_in(dir@, asound.cards@));
            let mut at: usize = row.len();
            while at > 0 && row[at - 1].index > index
                invariant
                    at <= row.len(),
                    forall|j: int| at <= j < row@.len() ==> (#[trigger] row@[j]).index > index,
                decreases at,
            {
                at -= 1;
            }
            let ghost before = row@;
            proof {
                assert forall|j: int| at <= j < views_of(before).len() implies key(
                    #[trigger] views_of(before)[j],
                ) > key(card@) by {
                    assert(views_of(before)[j] == before[j]@);
                }
                lemma_inserted_at(views_of(before), card@, key, at as int);
            }
            row.insert(at, card);
            assert(views_of(row@) =~= views_of(before).insert(at as int, card@));
        }
        i += 1;
    }
    assert(all.take(all.len() as int) =~= all);
    Ok(row)
}

// ---- what is configured ------------------------------------------------------------------------

/// The parts of a hardware name as they are read, one after the other.
pub struct HwParts {
    /// The card.
    pub card: Option<Seq<char>>,
    /// The device.
    pub device: Option<nat>,
    /// How many parts came without a name.
    pub positional: nat,
}

impl HwParts {
    /// Another part; nothing if it does not belong.
    pub open spec fn with(self, part: Seq<char>) -> Option<HwParts> {
        match cut(part, "="@) {
            Some((name, value)) => if name == "CARD"@ {
                Some(HwParts { card: Some(value), ..self })
            } else if name == "DEV"@ {
                match parsed(value, u32::MAX as nat) {
                    Some(n) => Some(HwParts { device: Some(n), ..self }),
                    None => None,
                }
            } else {
                None
            },
            None => if self.positional == 0 {
                Some(HwParts { card: Some(part), positional: 1, ..self })
            } else if self.positional == 1 {
                match parsed(part, u32::MAX as nat) {
                    Some(n) => Some(HwParts { device: Some(n), positional: 2, ..self }),
                    None => None,
                }
            } else {
                None
            },
        }
    }
}

/// The parts of a hardware name; nothing if one does not belong.
pub open spec fn hw_parts(parts: Seq<Seq<char>>) -> Option<HwParts>
    decreases parts.len(),
{
    if parts.len() == 0 {
        Some(HwParts { card: None, device: None, positional: 0 })
    } else {
        match hw_parts(parts.drop_last()) {
            Some(before) => before.with(parts.last()),
            None => None,
        }
    }
}

/// `1,0`, `DS2,0`, `DS2`, `CARD=DS2,DEV=0` and `CARD=DS2` as card and device.
pub open spec fn hw_name(rest: Seq<char>) -> Option<(Seq<char>, nat)> {
    match hw_parts(pieces(rest, ',')) {
        Some(HwParts { card: Some(card), device, .. }) if card.len() > 0 => Some(
            (
                card,
                match device {
                    Some(n) => n,
                    None => 0,
                },
            ),
        ),
        _ => None,
    }
}

proof fn lemma_bad_part(parts: Seq<Seq<char>>, count: int)
    requires
        0 <= count <= parts.len(),
        hw_parts(parts.take(count)) is None,
    ensures
        hw_parts(parts) is None,
    decreases parts.len() - count,
{
    if count < parts.len() {
        assert(parts.take(count + 1).drop_last() =~= parts.take(count));
        lemma_bad_part(parts, count + 1);
    } else {
        assert(parts.take(count) =~= parts);
    }
}

/// `1,0`, `DS2,0`, `DS2`, `CARD=DS2,DEV=0` and `CARD=DS2` as card and device.
pub fn split_hw(rest: &str) -> (r: Option<(String, u32)>)
    ensures
        match r {
            Some((card, device)) => hw_name(rest@) == Some((card@, device as nat)),
            None => hw_name(rest@) is None,
        },
{
    let row = pieces_of(rest, ',');
    let ghost all = pieces(rest@, ',');
    let mut card: Option<String> = None;
    let mut device: Option<u32> = None;
    let mut positional: u32 = 0;
    let mut i: usize = 0;
    proof {
        assert(all.take(0) =~= Seq::<Seq<char>>::empty());
        assert(texts_of(row@).len() == row@.len());
        reveal_strlit("CARD");
        reveal_strlit("DEV");
        assert("CARD"@.len() != "DEV"@.len());
    }
    while i < row.len()
        invariant
            i <= row.len(),
            texts_of(row@) == all,
            row@.len() == all.len(),
            all == pieces(rest@, ','),
            positional <= 2,
            "CARD"@.len() != "DEV"@.len(),
            hw_parts(all.take(i as int)) == Some(
                HwParts {
                    card: match card {
                        Some(text) => Some(text@),
                        None => None,
                    },
                    device: match device {
                        Some(n) => Some(n as nat),
                        None => None,
                    },
                    positional: positional as nat,
                },
            ),
        decreases row.len() - i,
    {
        let part = row[i].as_str();
        proof {
            assert(all.take(i + 1).drop_last() =~= all.take(i as int));
            assert(all.take(i + 1).last() == part@);
            if hw_parts(all.take(i + 1)) is None {
                lemma_bad_part(all, i + 1);
            }
        }
        match split_once(part, "=") {
            Some((name, value)) => {
                if same(name.as_str(), "CARD") {
                    card = Some(value);
                } else if same(name.as_str(), "DEV") {
                    match parse_u32(value.as_str()) {
                        Some(n) => {
                            device = Some(n);
                        },
                        None => {
                            return None;
                        },
                    }
                } else {
                    return None;
                }
            },
            None => {
                if positional == 0 {
                    card = Some(row[i].clone());
                } else if positional == 1 {
                    match parse_u32(part) {
                        Some(n) => {
                            device = Some(n);
                        },
                        None => {
                            return None;
                        },
                    }
                } else {
                    return None;
                }
                positional += 1;
            },
        }
        i += 1;
    }
    assert(all.take(all.len() as int) =~= all);
    match card {
        Some(card) => {
            let length: usize = crate::text::chars_of(card.as_str()).len();
            if length == 0 {
                None
            } else {
                Some(
                    (
                        card,
                        match device {
                            Some(n) => n,
                            None => 0,
                        },
                    ),
                )
            }
        },
        None => None,
    }
}

/// The card that a device is named by the number of.
pub open spec fn numbered(spec: Seq<char>) -> Option<u32> {
    if spec == "auto"@ || !"hw:"@.is_prefix_of(spec) {
        None
    } else {
        match hw_name(spec.skip("hw:"@.len() as int)) {
            Some((card, _)) => match parsed(card, u32::MAX as nat) {
                Some(n) => Some(n as u32),
                None => None,
            },
            None => None,
        }
    }
}

/// The card that a device is named by the number of: what [`id_path`] of it says is its id.
pub fn numbered_card(spec: &str) -> (r: Option<u32>)
    ensures
        r == numbered(spec@),
{
    if same(spec, "auto") {
        return None;
    }
    match strip_prefix(spec, "hw:") {
        Some(rest) => match split_hw(rest.as_str()) {
            Some((card, _)) => parse_u32(card.as_str()),
            None => None,
        },
        None => None,
    }
}

/// The file that says the id of a card, in the directory `asound`.
pub fn id_path(asound: &str, card: u32) -> (r: String)
    ensures
        r@ == asound@ + "/card"@ + decimal_text(card as nat) + "/id"@,
{
    let mut path = String::new();
    path.push_str(asound);
    path.push_str("/card");
    path.push_str(decimal(card as u64).as_str());
    path.push_str("/id");
    assert(path@ =~= asound@ + "/card"@ + decimal_text(card as nat) + "/id"@);
    path
}

/// The id that a file says.
pub open spec fn id_said(text: Option<String>) -> Option<Seq<char>> {
    match text {
        Some(text) => Some(trimmed(text@)),
        None => None,
    }
}

fn card_id(text: &Option<String>) -> (r: Option<String>)
    ensures
        match r {
            Some(id) => id_said(*text) == Some(id@),
            None => id_said(*text) is None,
        },
{
    match text {
        Some(text) => Some(trim(text.as_str())),
        None => None,
    }
}

/// The first card with an id.
pub open spec fn with_id(cards: Seq<CardView>, id: Seq<char>) -> Option<CardView>
    decreases cards.len(),
{
    if cards.len() == 0 {
        None
    } else if cards[0].id == id {
        Some(cards[0])
    } else {
        with_id(cards.skip(1), id)
    }
}

/// The first card on USB that can play.
pub open spec fn on_usb(cards: Seq<CardView>) -> Option<CardView>
    decreases cards.len(),
{
    if cards.len() == 0 {
        None
    } else if cards[0].usb && cards[0].playback.len() > 0 {
        Some(cards[0])
    } else {
        on_usb(cards.skip(1))
    }
}

/// The ids of a row of cards.
pub open spec fn ids(cards: Seq<CardView>) -> Seq<Seq<char>> {
    cards.map_values(|card: CardView| card.id)
}

/// What is said of an id that no card has.
pub open spec fn unknown_id_text(spec: Seq<char>, id: Seq<char>, cards: Seq<CardView>) -> Seq<char> {
    "no sound card with id "@ + quoted_text(id) + " (from "@ + quoted_text(spec)
        + "); cards now: "@ + (if cards.len() == 0 {
        "none"@
    } else {
        joined_by(ids(cards), ", "@)
    }) + ". Is the DAC plugged in? Run `phonia devices`"@
}

/// What is said when there is no card to take by itself.
pub open spec fn no_usb_text() -> Seq<char> {
    "device = \"auto\" found no USB sound card with playback. Is the DAC plugged in? Run `phonia devices`"@
}

/// The device that what was configured stands for now. `id` is what the card that it is named by the
/// number of says of its id.
pub open spec fn resolved(spec: Seq<char>, id: Option<String>, asound: Asound) -> Result<
    DeviceView,
    Seq<char>,
> {
    if spec == "auto"@ {
        match all_cards(asound) {
            Ok(cards) => match on_usb(cards) {
                Some(card) => Ok(
                    DeviceView::Hw {
                        card: card.index,
                        device: card.playback[0],
                        card_id: Some(card.id),
                    },
                ),
                None => Err(no_usb_text()),
            },
            Err(why) => Err(why),
        }
    } else if !"hw:"@.is_prefix_of(spec) {
        Ok(DeviceView::Other(spec))
    } else {
        match hw_name(spec.skip("hw:"@.len() as int)) {
            None => Err(
                quoted_text(spec) + " is not a device name: expected hw:<card>,<device>"@,
            ),
            Some((card, device)) => match parsed(card, u32::MAX as nat) {
                Some(n) => Ok(
                    DeviceView::Hw {
                        card: n as u32,
                        device: device as u32,
                        card_id: id_said(id),
                    },
                ),
                None => match all_cards(asound) {
                    Ok(cards) => match with_id(cards, card) {
                        Some(found) => Ok(
                            DeviceView::Hw {
                                card: found.index,
                                device: device as u32,
                                card_id: Some(found.id),
                            },
                        ),
                        None => Err(unknown_id_text(spec, card, cards)),
                    },
                    Err(why) => Err(why),
                },
            },
        }
    }
}

/// Whether `r` is the device, or the error, that `wanted` says.
pub open spec fn is_device(
    r: Result<Device, String>,
    wanted: Result<DeviceView, Seq<char>>,
) -> bool {
    match r {
        Ok(device) => wanted == Ok::<DeviceView, Seq<char>>(device@),
        Err(why) => wanted == Err::<DeviceView, Seq<char>>(why@),
    }
}

fn by_id(spec: &str, id: &str, device: u32, asound: &Asound) -> (r: Result<Device, String>)
    ensures
        is_device(
            r,
            match all_cards(*asound) {
                Ok(cards) => match with_id(cards, id@) {
                    Some(found) => Ok(
                        DeviceView::Hw { card: found.index, device, card_id: Some(found.id) },
                    ),
                    None => Err(unknown_id_text(spec@, id@, cards)),
                },
                Err(why) => Err(why),
            },
        ),
{
    let cards = match cards(asound) {
        Ok(cards) => cards,
        Err(why) => {
            return Err(why);
        },
    };
    let ghost all = views_of(cards@);
    let mut known: Vec<String> = Vec::new();
    let mut i: usize = 0;
    assert(all.skip(0) =~= all);
    assert(texts_of(known@) =~= ids(all).take(0));
    while i < cards.len()
        invariant
            i <= cards.len(),
            all == views_of(cards@),
            all_cards(*asound) == Ok::<Seq<CardView>, Seq<char>>(all),
            with_id(all, id@) == with_id(all.skip(i as int), id@),
            texts_of(known@) == ids(all).take(i as int),
        decreases cards.len() - i,
    {
        assert(all.skip(i as int)[0] == cards@[i as int]@);
        assert(all.skip(i as int).skip(1) =~= all.skip(i + 1));
        if same(cards[i].id.as_str(), id) {
            return Ok(
                Device::Hw {
                    card: cards[i].index,
                    device,
                    card_id: Some(cards[i].id.clone()),
                },
            );
        }
        let ghost before = texts_of(known@);
        known.push(cards[i].id.clone());
        assert(texts_of(known@) =~= before.push(cards@[i as int].id@));
        assert(ids(all).take(i + 1) =~= ids(all).take(i as int).push(cards@[i as int].id@));
        i += 1;
    }
    assert(ids(all).take(all.len() as int) =~= ids(all));
    let mut why = String::new();
    why.push_str("no sound card with id ");
    why.push_str(quoted(id).as_str());
    why.push_str(" (from ");
    why.push_str(quoted(spec).as_str());
    why.push_str("); cards now: ");
    if known.len() == 0 {
        why.push_str("none");
    } else {
        why.push_str(join(&known, ", ").as_str());
    }
    why.push_str(". Is the DAC plugged in? Run `phonia devices`");
    proof {
        assert(texts_of(known@).len() == known@.len());
        assert(why@ =~= unknown_id_text(spec@, id@, all));
    }
    Err(why)
}

fn first_usb_card(asound: &Asound) -> (r: Result<Device, String>)
    ensures
        is_device(
            r,
            match all_cards(*asound) {
                Ok(cards) => match on_usb(cards) {
                    Some(card) => Ok(
                        DeviceView::Hw {
                            card: card.index,
                            device: card.playback[0],
                            card_id: Some(card.id),
                        },
                    ),
                    None => Err(no_usb_text()),
                },
                Err(why) => Err(why),
            },
        ),
{
    let cards = match cards(asound) {
        Ok(cards) => cards,
        Err(why) => {
            return Err(why);
        },
    };
    let ghost all = views_of(cards@);
    let mut i: usize = 0;
    assert(all.skip(0) =~= all);
    while i < cards.len()
        invariant
            i <= cards.len(),
            all == views_of(cards@),
            all_cards(*asound) == Ok::<Seq<CardView>, Seq<char>>(all),
            on_usb(all) == on_usb(all.skip(i as int)),
        decreases cards.len() - i,
    {
        assert(all.skip(i as int)[0] == cards@[i as int]@);
        assert(all.skip(i as int).skip(1) =~= all.skip(i + 1));
        if cards[i].usb && cards[i].playback.len() > 0 {
            return Ok(
                Device::Hw {
                    card: cards[i].index,
                    device: cards[i].playback[0],
                    card_id: Some(cards[i].id.clone()),
                },
            );
        }
        i += 1;
    }
    Err(
        "device = \"auto\" found no USB sound card with playback. Is the DAC plugged in? Run `phonia devices`".to_owned(),
    )
}

/// Turns what was configured into a concrete device. Accepts `hw:N,D`, `hw:ID,D`,
/// `hw:CARD=ID,DEV=D`, `hw:N` and `hw:ID` (device 0), and `auto` (the first USB card with a
/// playback device); anything else is passed on as it is. `id` is what is in the file at [`id_path`]
/// of the [`numbered_card`], if that can be read.
pub fn resolve(spec: &str, id: &Option<String>, asound: &Asound) -> (r: Result<Device, String>)
    ensures
        is_device(r, resolved(spec@, *id, *asound)),
{
    if same(spec, "auto") {
        return first_usb_card(asound);
    }
    let rest = match strip_prefix(spec, "hw:") {
        Some(rest) => rest,
        None => {
            return Ok(Device::Other(spec.to_owned()));
        },
    };
    let (card, device): (String, u32) = match split_hw(rest.as_str()) {
        Some(parts) => parts,
        None => {
            return Err(
                joined(
                    quoted(spec).as_str(),
                    " is not a device name: expected hw:<card>,<device>",
                ),
            );
        },
    };
    match parse_u32(card.as_str()) {
        Some(n) => Ok(Device::Hw { card: n, device, card_id: card_id(id) }),
        None => by_id(spec, card.as_str(), device, asound),
    }
}

/// A name follows its card: whatever number the card has now, its id finds it.
pub proof fn an_id_finds_the_current_number(cards: Seq<CardView>, at: int)
    requires
        0 <= at < cards.len(),
        forall|j: int| 0 <= j < at ==> (#[trigger] cards[j]).id != cards[at].id,
    ensures
        with_id(cards, cards[at].id) == Some(cards[at]),
    decreases cards.len(),
{
    if at > 0 {
        let rest = cards.skip(1);
        assert(rest[at - 1] == cards[at]);
        assert forall|j: int| 0 <= j < at - 1 implies (#[trigger] rest[j]).id != rest[at - 1].id by {
            assert(cards[j + 1].id != cards[at].id);
        }
        assert(cards[0].id != cards[at].id);
        an_id_finds_the_current_number(rest, at - 1);
    }
}

// ---- the list for people -----------------------------------------------------------------------

/// What to write for each of a card's devices.
pub open spec fn device_names(id: Seq<char>, playback: Seq<u32>) -> Seq<Seq<char>> {
    playback.map_values(|n: u32| "hw:"@ + id + ","@ + decimal_text(n as nat))
}

/// The line for a card.
pub open spec fn card_line(card: CardView) -> Seq<char> {
    "  "@ + padded(joined_by(device_names(card.id, card.playback), " "@), 16) + " "@ + card.name
        + "  (card "@ + decimal_text(card.index as nat) + (if card.usb {
        ", USB"@
    } else {
        Seq::empty()
    }) + ")"@
}

/// The lines for the cards that can play.
pub open spec fn card_lines(cards: Seq<CardView>) -> Seq<Seq<char>>
    decreases cards.len(),
{
    if cards.len() == 0 {
        Seq::empty()
    } else {
        let before = card_lines(cards.drop_last());
        if cards.last().playback.len() > 0 {
            before.push(card_line(cards.last()))
        } else {
            before
        }
    }
}

/// What the list begins with.
pub open spec fn list_heading() -> Seq<char> {
    "Sound cards, exclusive and bit-perfect (put the device in ~/.config/phonia/config.toml under [output]):"@
}

/// The list of cards.
pub open spec fn list_text(cards: Seq<CardView>) -> Seq<char> {
    if card_lines(cards).len() == 0 {
        "No sound cards with playback were found."@
    } else {
        joined_by(
            seq![list_heading()] + card_lines(cards)
                + seq!["Or use `auto` for the first USB sound card."@],
            "\n"@,
        )
    }
}

fn line_for(card: &CardInfo) -> (r: String)
    ensures
        r@ == card_line(card@),
{
    let mut names: Vec<String> = Vec::new();
    let ghost all = device_names(card.id@, card.playback@);
    let mut i: usize = 0;
    assert(texts_of(names@) =~= all.take(0));
    while i < card.playback.len()
        invariant
            i <= card.playback.len(),
            all == device_names(card.id@, card.playback@),
            texts_of(names@) == all.take(i as int),
        decreases card.playback.len() - i,
    {
        let mut name = String::new();
        name.push_str("hw:");
        name.push_str(card.id.as_str());
        name.push_str(",");
        name.push_str(decimal(card.playback[i] as u64).as_str());
        assert(name@ =~= all[i as int]);
        let ghost before = texts_of(names@);
        names.push(name);
        assert(texts_of(names@) =~= before.push(name@));
        assert(all.take(i + 1) =~= all.take(i as int).push(all[i as int]));
        i += 1;
    }
    assert(all.take(all.len() as int) =~= all);
    let mut line = String::new();
    line.push_str("  ");
    line.push_str(pad(join(&names, " ").as_str(), 16).as_str());
    line.push_str(" ");
    line.push_str(card.name.as_str());
    line.push_str("  (card ");
    line.push_str(decimal(card.index as u64).as_str());
    if card.usb {
        line.push_str(", USB");
    }
    line.push_str(")");
    assert(line@ =~= card_line(card@));
    line
}

/// The text of `phonia devices`: the cards that can play, with the string to put in the config.
pub fn list(asound: &Asound) -> (r: Result<String, String>)
    ensures
        match all_cards(*asound) {
            Ok(cards) => r matches Ok(text) && text@ == list_text(cards),
            Err(why) => r matches Err(text) && text@ == why,
        },
{
    let cards = match cards(asound) {
        Ok(cards) => cards,
        Err(why) => {
            return Err(why);
        },
    };
    let ghost all = views_of(cards@);
    let mut rows: Vec<String> = Vec::new();
    rows.push(
        "Sound cards, exclusive and bit-perfect (put the device in ~/.config/phonia/config.toml under [output]):".to_owned(),
    );
    let mut i: usize = 0;
    assert(all.take(0) =~= Seq::<CardView>::empty());
    assert(texts_of(rows@) =~= seq![list_heading()] + card_lines(all.take(0)));
    while i < cards.len()
        invariant
            i <= cards.len(),
            all == views_of(cards@),
            texts_of(rows@) == seq![list_heading()] + card_lines(all.take(i as int)),
        decreases cards.len() - i,
    {
        assert(all.take(i + 1).drop_last() =~= all.take(i as int));
        assert(all.take(i + 1).last() == cards@[i as int]@);
        if cards[i].playback.len() > 0 {
            let line = line_for(&cards[i]);
            let ghost before = texts_of(rows@);
            rows.push(line);
            assert(texts_of(rows@) =~= before.push(line@));
            assert(before.push(line@) =~= seq![list_heading()] + card_lines(
                all.take(i as int),
            ).push(line@));
        }
        i += 1;
    }
    assert(all.take(all.len() as int) =~= all);
    proof {
        assert(texts_of(rows@).len() == rows@.len());
    }
    if rows.len() == 1 {
        return Ok("No sound cards with playback were found.".to_owned());
    }
    let ghost before = texts_of(rows@);
    rows.push("Or use `auto` for the first USB sound card.".to_owned());
    proof {
        let last = "Or use `auto` for the first USB sound card."@;
        assert(texts_of(rows@) =~= before.push(last));
        assert(before.push(last) =~= seq![list_heading()] + card_lines(all) + seq![last]);
    }
    Ok(join(&rows, "\n"))
}

} // verus!
