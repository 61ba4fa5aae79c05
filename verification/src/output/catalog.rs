//! Every output phonia can play on: the sound cards it can have to itself (exclusive) and the
//! outputs of the desktop's sound server (shared), each with an id that says which is which.
//!
//! The ids are what the daemon's clients name an output by: `exclusive:hw:DS2,0` is a card,
//! `shared:default` follows the desktop's default output, `shared:<name>` is one output by name.

use super::device::{self, Asound, CardInfo, CardView};
use super::shared::pulse::{default_among, default_of, Output};
use crate::config::OutputSpec;
use crate::engine::types::copied_text;
use crate::text::{decimal, decimal_text, joined, same};
use vstd::prelude::*;

verus! {

/// How an output is used.
#[derive(Debug, Clone, Copy, PartialEq, Eq, Structural)]
pub enum Mode {
    /// By phonia alone.
    Exclusive,
    /// With everything else.
    Shared,
}

/// An output.
#[derive(Debug, Clone, PartialEq, Eq)]
pub struct Entry {
    /// What it is named by.
    pub id: String,
    /// How it is used.
    pub mode: Mode,
    /// What people call it.
    pub name: String,
    /// What else there is to say of it.
    pub detail: Option<String>,
    /// Whether it can be bit-perfect.
    pub bit_perfect: bool,
    /// Whether what reaches the speaker has lost information on the way.
    pub lossy: bool,
    /// The Bluetooth codec in use, when there is one.
    pub codec: Option<String>,
    /// The entry that follows the desktop's default output.
    pub is_default: bool,
}

/// An output.
#[verifier::ext_equal]
pub struct EntryView {
    /// What it is named by.
    pub id: Seq<char>,
    /// How it is used.
    pub mode: Mode,
    /// What people call it.
    pub name: Seq<char>,
    /// What else there is to say of it.
    pub detail: Option<Seq<char>>,
    /// Whether it can be bit-perfect.
    pub bit_perfect: bool,
    /// Whether what reaches the speaker has lost information on the way.
    pub lossy: bool,
    /// The Bluetooth codec in use, when there is one.
    pub codec: Option<Seq<char>>,
    /// The entry that follows the desktop's default output.
    pub is_default: bool,
}

/// An optional text.
pub open spec fn text_of(text: Option<String>) -> Option<Seq<char>> {
    match text {
        Some(text) => Some(text@),
        None => None,
    }
}

impl View for Entry {
    type V = EntryView;

    open spec fn view(&self) -> EntryView {
        EntryView {
            id: self.id@,
            mode: self.mode,
            name: self.name@,
            detail: text_of(self.detail),
            bit_perfect: self.bit_perfect,
            lossy: self.lossy,
            codec: text_of(self.codec),
            is_default: self.is_default,
        }
    }
}

/// A row of outputs.
pub open spec fn entries_of(entries: Seq<Entry>) -> Seq<EntryView> {
    entries.map_values(|entry: Entry| entry@)
}

/// The entry of a card's playback device.
pub open spec fn card_entry(card: CardView, playback: u32) -> EntryView {
    EntryView {
        id: "exclusive:hw:"@ + card.id + ","@ + decimal_text(playback as nat),
        mode: Mode::Exclusive,
        name: if card.playback.len() > 1 {
            card.name + " (device "@ + decimal_text(playback as nat) + ")"@
        } else {
            card.name
        },
        detail: Some(
            if card.usb {
                "USB, card "@ + decimal_text(card.index as nat)
            } else {
                "card "@ + decimal_text(card.index as nat)
            },
        ),
        bit_perfect: true,
        lossy: false,
        codec: None,
        is_default: false,
    }
}

/// The entries of a card.
pub open spec fn entries_for(card: CardView) -> Seq<EntryView> {
    card.playback.map_values(|playback: u32| card_entry(card, playback))
}

/// The entries of a row of cards.
pub open spec fn entries_of_cards(cards: Seq<CardView>) -> Seq<EntryView>
    decreases cards.len(),
{
    if cards.len() == 0 {
        Seq::empty()
    } else {
        entries_of_cards(cards.drop_last()) + entries_for(cards.last())
    }
}

fn entry_for(card: &CardInfo, playback: u32) -> (r: Entry)
    ensures
        r@ == card_entry(card@, playback),
{
    let mut id = String::new();
    id.push_str("exclusive:hw:");
    id.push_str(card.id.as_str());
    id.push_str(",");
    id.push_str(decimal(playback as u64).as_str());
    let name = if card.playback.len() > 1 {
        let mut name = card.name.clone();
        name.push_str(" (device ");
        name.push_str(decimal(playback as u64).as_str());
        name.push_str(")");
        name
    } else {
        card.name.clone()
    };
    let detail = if card.usb {
        joined("USB, card ", decimal(card.index as u64).as_str())
    } else {
        joined("card ", decimal(card.index as u64).as_str())
    };
    let entry = Entry {
        id,
        mode: Mode::Exclusive,
        name,
        detail: Some(detail),
        bit_perfect: true,
        lossy: false,
        codec: None,
        is_default: false,
    };
    assert(entry@.id =~= card_entry(card@, playback).id);
    assert(entry@.name =~= card_entry(card@, playback).name);
    assert(entry@ =~= card_entry(card@, playback));
    entry
}

/// The sound cards with playback, one entry per playback device; none if they can't be listed.
pub fn cards(asound: &Asound) -> (r: Vec<Entry>)
    ensures
        entries_of(r@) == match device::all_cards(*asound) {
            Ok(cards) => entries_of_cards(cards),
            Err(_) => Seq::empty(),
        },
{
    let mut entries: Vec<Entry> = Vec::new();
    assert(entries_of(entries@) =~= Seq::<EntryView>::empty());
    let cards = match device::cards(asound) {
        Ok(cards) => cards,
        Err(_) => {
            return entries;
        },
    };
    let ghost all = device::views_of(cards@);
    let mut i: usize = 0;
    assert(all.take(0) =~= Seq::<CardView>::empty());
    while i < cards.len()
        invariant
            i <= cards.len(),
            all == device::views_of(cards@),
            entries_of(entries@) == entries_of_cards(all.take(i as int)),
        decreases cards.len() - i,
    {
        let card = &cards[i];
        let ghost before = entries_of(entries@);
        let ghost own = entries_for(card@);
        assert(all.take(i + 1).drop_last() =~= all.take(i as int));
        assert(all.take(i + 1).last() == card@);
        let mut j: usize = 0;
        assert(before =~= before + own.take(0));
        while j < card.playback.len()
            invariant
                j <= card.playback.len(),
                own == entries_for(card@),
                entries_of(entries@) == before + own.take(j as int),
            decreases card.playback.len() - j,
        {
            let entry = entry_for(card, card.playback[j]);
            let ghost so_far = entries_of(entries@);
            entries.push(entry);
            assert(entries_of(entries@) =~= so_far.push(entry@));
            assert(so_far.push(entry@) =~= before + own.take(j + 1));
            j += 1;
        }
        assert(own.take(own.len() as int) =~= own);
        i += 1;
    }
    assert(all.take(all.len() as int) =~= all);
    entries
}

/// The entry that follows the desktop's default.
pub open spec fn default_entry(default: Option<Output>) -> EntryView {
    EntryView {
        id: "shared:default"@,
        mode: Mode::Shared,
        name: match default {
            Some(output) => "The desktop's default output ("@ + output.description@ + ")"@,
            None => "The desktop's default output"@,
        },
        detail: match default {
            Some(output) => Some(output.kind.text()),
            None => None,
        },
        bit_perfect: false,
        lossy: default matches Some(output) && output.lossy,
        codec: match default {
            Some(output) => text_of(output.codec),
            None => None,
        },
        is_default: true,
    }
}

/// The entry of an output of the sound server.
pub open spec fn output_entry(output: Output) -> EntryView {
    EntryView {
        id: "shared:"@ + output.name@,
        mode: Mode::Shared,
        name: output.description@,
        detail: Some(output.kind.text()),
        bit_perfect: false,
        lossy: output.lossy,
        codec: text_of(output.codec),
        is_default: false,
    }
}

/// The sound server's outputs, led by the one that follows the desktop's default.
pub fn shared(outputs: &Vec<Output>) -> (r: Vec<Entry>)
    ensures
        entries_of(r@) == seq![default_entry(default_among(outputs@))] + outputs@.map_values(
            |output: Output| output_entry(output),
        ),
{
    let default = default_of(outputs);
    let first = match default {
        Some(output) => {
            let mut name = String::new();
            name.push_str("The desktop's default output (");
            name.push_str(output.description.as_str());
            name.push_str(")");
            let entry = Entry {
                id: "shared:default".to_owned(),
                mode: Mode::Shared,
                name,
                detail: Some(output.kind.label().to_owned()),
                bit_perfect: false,
                lossy: output.lossy,
                codec: copied_text(&output.codec),
                is_default: true,
            };
            assert(entry@.name =~= default_entry(Some(*output)).name);
            assert(entry@ =~= default_entry(Some(*output)));
            entry
        },
        None => Entry {
            id: "shared:default".to_owned(),
            mode: Mode::Shared,
            name: "The desktop's default output".to_owned(),
            detail: None,
            bit_perfect: false,
            lossy: false,
            codec: None,
            is_default: true,
        },
    };
    assert(first@ =~= default_entry(default_among(outputs@)));
    let ghost head = seq![default_entry(default_among(outputs@))];
    let ghost body = outputs@.map_values(|output: Output| output_entry(output));
    let mut entries: Vec<Entry> = Vec::new();
    entries.push(first);
    assert(entries_of(entries@) =~= head + body.take(0));
    let mut i: usize = 0;
    while i < outputs.len()
        invariant
            i <= outputs.len(),
            body == outputs@.map_values(|output: Output| output_entry(output)),
            entries_of(entries@) == head + body.take(i as int),
        decreases outputs.len() - i,
    {
        let output = &outputs[i];
        let entry = Entry {
            id: joined("shared:", output.name.as_str()),
            mode: Mode::Shared,
            name: output.description.clone(),
            detail: Some(output.kind.label().to_owned()),
            bit_perfect: false,
            lossy: output.lossy,
            codec: copied_text(&output.codec),
            is_default: false,
        };
        assert(entry@ =~= output_entry(*output));
        let ghost before = entries_of(entries@);
        entries.push(entry);
        assert(entries_of(entries@) =~= before.push(entry@));
        assert(before.push(entry@) =~= head + body.take(i + 1));
        i += 1;
    }
    assert(body.take(body.len() as int) =~= body);
    entries
}

/// The name of the first entry with an id.
pub open spec fn name_of(entries: Seq<EntryView>, id: Seq<char>) -> Option<Seq<char>>
    decreases entries.len(),
{
    if entries.len() == 0 {
        None
    } else if entries[0].id == id {
        Some(entries[0].name)
    } else {
        name_of(entries.skip(1), id)
    }
}

/// A name for the output `spec` names, for people: the entry's own name when it is listed.
pub fn describe(spec: &OutputSpec, entries: &Vec<Entry>) -> (r: String)
    ensures
        r@ == match name_of(entries_of(entries@), spec.spec_id()) {
            Some(name) => name,
            None => spec.spec_describe(),
        },
{
    let id = spec.id();
    let ghost all = entries_of(entries@);
    let mut i: usize = 0;
    assert(all.skip(0) =~= all);
    while i < entries.len()
        invariant
            i <= entries.len(),
            all == entries_of(entries@),
            id@ == spec.spec_id(),
            name_of(all, id@) == name_of(all.skip(i as int), id@),
        decreases entries.len() - i,
    {
        assert(all.skip(i as int)[0] == entries@[i as int]@);
        assert(all.skip(i as int).skip(1) =~= all.skip(i + 1));
        if same(entries[i].id.as_str(), id.as_str()) {
            return entries[i].name.clone();
        }
        i += 1;
    }
    spec.describe()
}

/// Nothing that goes through the sound server is ever called bit-perfect, and every card is.
pub proof fn only_cards_are_bit_perfect(card: CardView, playback: u32, output: Output)
    ensures
        card_entry(card, playback).bit_perfect && card_entry(card, playback).mode is Exclusive,
        !output_entry(output).bit_perfect && output_entry(output).mode is Shared,
        !default_entry(Some(output)).bit_perfect && !default_entry(None).bit_perfect,
{
}

} // verus!
