//! What holds of finding a sound card.

use super::device::{
    all_cards, card_in, card_line, card_lines, card_number, cards_in, device_number, dirs_of,
    hw_name, hw_parts, id_path, inserted, name_among, name_on, numbered, numbered_card, on_usb,
    playback_in, resolve, resolved, with_id, Asound, CardView, Device, DeviceView, DirView,
};
use crate::pieces::{cut, found, lines, pieces};
use crate::text::{decimal_text, is_space, parsed, trimmed};
use crate::words::{
    a_cut_gives_the_key_and_the_value, a_number_that_was_written_reads_back,
    a_sign_that_is_not_there_is_not_found, the_first_occurrence_is_found,
    trimming_the_start_takes_off_space_only,
};
use vstd::prelude::*;

verus! {

// ---- which card --------------------------------------------------------------------------------

/// The card that is taken by itself is the first one that is on USB and can play: cards before it
/// lack one or the other. There is none only if no card has both.
pub proof fn the_first_usb_card_that_can_play_is_taken(cards: Seq<CardView>)
    ensures
        match on_usb(cards) {
            Some(card) => exists|i: int|
                0 <= i < cards.len() && #[trigger] cards[i] == card && cards[i].usb
                    && cards[i].playback.len() > 0 && forall|j: int|
                    0 <= j < i ==> !((#[trigger] cards[j]).usb && cards[j].playback.len() > 0),
            None => forall|j: int|
                0 <= j < cards.len() ==> !((#[trigger] cards[j]).usb && cards[j].playback.len() > 0),
        },
        forall|i: int|
            0 <= i < cards.len() && (#[trigger] cards[i]).usb && cards[i].playback.len() > 0
                ==> on_usb(cards) is Some,
    decreases cards.len(),
{
    if cards.len() > 0 && !(cards[0].usb && cards[0].playback.len() > 0) {
        let rest = cards.skip(1);
        the_first_usb_card_that_can_play_is_taken(rest);
        assert forall|j: int| 1 <= j < cards.len() implies #[trigger] cards[j] == rest[j - 1] by {}
        if let Some(card) = on_usb(rest) {
            let i = choose|i: int|
                0 <= i < rest.len() && #[trigger] rest[i] == card && rest[i].usb
                    && rest[i].playback.len() > 0 && forall|j: int|
                    0 <= j < i ==> !((#[trigger] rest[j]).usb && rest[j].playback.len() > 0);
            assert(cards[i + 1] == card);
            assert forall|j: int| 0 <= j < i + 1 implies !((#[trigger] cards[j]).usb
                && cards[j].playback.len() > 0) by {
                if j > 0 {
                    assert(cards[j] == rest[j - 1]);
                }
            }
        }
    } else if cards.len() > 0 {
        assert(cards[0] == on_usb(cards)->0);
    }
}

/// The card of an id is the first one that has it. There is none only if no card has it.
pub proof fn the_first_card_with_an_id_is_taken(cards: Seq<CardView>, id: Seq<char>)
    ensures
        match with_id(cards, id) {
            Some(card) => exists|i: int|
                0 <= i < cards.len() && #[trigger] cards[i] == card && cards[i].id == id
                    && forall|j: int| 0 <= j < i ==> (#[trigger] cards[j]).id != id,
            None => forall|j: int| 0 <= j < cards.len() ==> (#[trigger] cards[j]).id != id,
        },
    decreases cards.len(),
{
    if cards.len() > 0 && cards[0].id != id {
        let rest = cards.skip(1);
        the_first_card_with_an_id_is_taken(rest, id);
        assert forall|j: int| 1 <= j < cards.len() implies #[trigger] cards[j] == rest[j - 1] by {}
        if let Some(card) = with_id(rest, id) {
            let i = choose|i: int|
                0 <= i < rest.len() && #[trigger] rest[i] == card && rest[i].id == id && forall|
                    j: int,
                |
                    0 <= j < i ==> (#[trigger] rest[j]).id != id;
            assert(cards[i + 1] == card);
            assert forall|j: int| 0 <= j < i + 1 implies (#[trigger] cards[j]).id != id by {
                if j > 0 {
                    assert(cards[j] == rest[j - 1]);
                }
            }
        }
    } else if cards.len() > 0 {
        assert(cards[0] == with_id(cards, id)->0);
    }
}

/// `auto` is the first device of a USB card that can play, under the number the card has now. It
/// fails only if there is no such card, or the cards can't be listed.
pub proof fn auto_is_a_usb_card_that_can_play(id: Option<String>, asound: Asound)
    ensures
        match (all_cards(asound), resolved("auto"@, id, asound)) {
            (Ok(cards), Ok(DeviceView::Hw { card, device, card_id })) => exists|i: int|
                0 <= i < cards.len() && (#[trigger] cards[i]).usb && cards[i].playback.len() > 0
                    && card == cards[i].index && device == cards[i].playback[0] && card_id == Some(
                    cards[i].id,
                ) && forall|j: int|
                    0 <= j < i ==> !((#[trigger] cards[j]).usb && cards[j].playback.len() > 0),
            (Ok(_), Ok(DeviceView::Other(_))) => false,
            (Ok(cards), Err(_)) => forall|j: int|
                0 <= j < cards.len() ==> !((#[trigger] cards[j]).usb && cards[j].playback.len() > 0),
            (Err(why), r) => r == Err::<DeviceView, Seq<char>>(why),
        },
{
    if let Ok(cards) = all_cards(asound) {
        the_first_usb_card_that_can_play_is_taken(cards);
    }
}

// ---- what is written for a device --------------------------------------------------------------

proof fn lemma_no_sign_in_digits(n: nat, sign: char)
    requires
        !('0' <= sign <= '9'),
    ensures
        !decimal_text(n).contains(sign),
{
    a_number_that_was_written_reads_back(n, n);
    if decimal_text(n).contains(sign) {
        let i = choose|i: int| 0 <= i < decimal_text(n).len() && decimal_text(n)[i] == sign;
        assert('0' <= decimal_text(n)[i] <= '9');
    }
}

proof fn lemma_one_piece(s: Seq<char>)
    requires
        !s.contains(','),
    ensures
        pieces(s, ',') == seq![s],
{
    a_sign_that_is_not_there_is_not_found(s, ',');
}

proof fn lemma_two_pieces(a: Seq<char>, b: Seq<char>)
    requires
        !a.contains(','),
        !b.contains(','),
    ensures
        pieces(a + seq![','] + b, ',') == seq![a, b],
{
    let s = a + seq![','] + b;
    a_cut_gives_the_key_and_the_value(a, ',', b);
    lemma_one_piece(b);
    let at = found(s, seq![',']).unwrap();
    the_first_occurrence_is_found(s, seq![',']);
    assert(s.take(at) == a && s.skip(at + 1) == b);
    assert(pieces(s, ',') =~= seq![a, b]);
}

proof fn lemma_no_cut(part: Seq<char>)
    requires
        !part.contains('='),
    ensures
        cut(part, "="@) is None,
{
    reveal_strlit("=");
    assert("="@ =~= seq!['=']);
    a_sign_that_is_not_there_is_not_found(part, '=');
}

proof fn lemma_named_cut(name: Seq<char>, value: Seq<char>)
    requires
        !name.contains('='),
    ensures
        cut(name + seq!['='] + value, "="@) == Some((name, value)),
{
    reveal_strlit("=");
    assert("="@ =~= seq!['=']);
    a_cut_gives_the_key_and_the_value(name, '=', value);
}

/// A card and a device are read however they are written: `card,device`, `card` alone for its first
/// device, `CARD=card,DEV=device`, `CARD=card` alone.
pub proof fn a_card_and_a_device_are_read_however_they_are_written(card: Seq<char>, device: u32)
    requires
        card.len() > 0,
        !card.contains(','),
        !card.contains('='),
    ensures
        hw_name(card + seq![','] + decimal_text(device as nat)) == Some((card, device as nat)),
        hw_name(card) == Some((card, 0nat)),
        hw_name("CARD="@ + card + ",DEV="@ + decimal_text(device as nat)) == Some(
            (card, device as nat),
        ),
        hw_name("CARD="@ + card) == Some((card, 0nat)),
{
    let number = decimal_text(device as nat);
    a_number_that_was_written_reads_back(device as nat, u32::MAX as nat);
    lemma_no_sign_in_digits(device as nat, ',');
    lemma_no_sign_in_digits(device as nat, '=');
    reveal_with_fuel(hw_parts, 3);
    lemma_no_cut(card);
    lemma_no_cut(number);
    lemma_one_piece(card);
    lemma_two_pieces(card, number);
    assert(seq![card].drop_last() =~= Seq::<Seq<char>>::empty());
    assert(seq![card, number].drop_last() =~= seq![card]);
    reveal_strlit("CARD=");
    reveal_strlit("CARD");
    reveal_strlit("DEV");
    reveal_strlit(",DEV=");
    let named = "CARD"@ + seq!['='] + card;
    let numbered = "DEV"@ + seq!['='] + number;
    assert("CARD="@ + card =~= named);
    assert("CARD="@ + card + ",DEV="@ + number =~= named + seq![','] + numbered);
    assert(!"CARD"@.contains('='));
    assert(!"DEV"@.contains('='));
    assert("CARD"@.len() != "DEV"@.len());
    lemma_named_cut("CARD"@, card);
    lemma_named_cut("DEV"@, number);
    assert(!named.contains(',')) by {
        if named.contains(',') {
            let i = choose|i: int| 0 <= i < named.len() && named[i] == ',';
            if i >= 5 {
                assert(card[i - 5] == ',');
            }
        }
    }
    assert(!numbered.contains(',')) by {
        if numbered.contains(',') {
            let i = choose|i: int| 0 <= i < numbered.len() && numbered[i] == ',';
            if i >= 4 {
                assert(number[i - 4] == ',');
            }
        }
    }
    lemma_one_piece(named);
    lemma_two_pieces(named, numbered);
    assert(seq![named].drop_last() =~= Seq::<Seq<char>>::empty());
    assert(seq![named, numbered].drop_last() =~= seq![named]);
}

proof fn lemma_hw(rest: Seq<char>)
    ensures
        "hw:"@.is_prefix_of("hw:"@ + rest),
        ("hw:"@ + rest).skip("hw:"@.len() as int) == rest,
        "hw:"@ + rest != "auto"@,
{
    reveal_strlit("hw:");
    reveal_strlit("auto");
    assert(("hw:"@ + rest).skip(3) =~= rest);
    assert(("hw:"@ + rest)[0] == 'h');
}

/// A card that is written by its number is that card, whatever cards there are; its id is what the
/// card says, without the space around it. Without a device, it is the card's first.
pub proof fn a_numbered_card_is_that_card(
    card: u32,
    device: u32,
    id: Option<String>,
    asound: Asound,
)
    ensures
        resolved(
            "hw:"@ + (decimal_text(card as nat) + seq![','] + decimal_text(device as nat)),
            id,
            asound,
        ) == Ok::<DeviceView, Seq<char>>(
            DeviceView::Hw {
                card,
                device,
                card_id: match id {
                    Some(text) => Some(trimmed(text@)),
                    None => None,
                },
            },
        ),
        resolved("hw:"@ + decimal_text(card as nat), id, asound) == Ok::<DeviceView, Seq<char>>(
            DeviceView::Hw {
                card,
                device: 0,
                card_id: match id {
                    Some(text) => Some(trimmed(text@)),
                    None => None,
                },
            },
        ),
        numbered("hw:"@ + decimal_text(card as nat)) == Some(card),
        numbered("hw:"@ + (decimal_text(card as nat) + seq![','] + decimal_text(device as nat)))
            == Some(card),
{
    let name = decimal_text(card as nat);
    a_number_that_was_written_reads_back(card as nat, u32::MAX as nat);
    lemma_no_sign_in_digits(card as nat, ',');
    lemma_no_sign_in_digits(card as nat, '=');
    a_card_and_a_device_are_read_however_they_are_written(name, device);
    lemma_hw(name);
    lemma_hw(name + seq![','] + decimal_text(device as nat));
}

/// A card that is written by its id is the first card with that id, under the number it has now.
/// Nothing is opened in its place when there is none.
pub proof fn a_card_written_by_its_id_is_found(
    name: Seq<char>,
    device: u32,
    id: Option<String>,
    asound: Asound,
    cards: Seq<CardView>,
)
    requires
        name.len() > 0,
        !name.contains(','),
        !name.contains('='),
        parsed(name, u32::MAX as nat) is None,
        all_cards(asound) == Ok::<Seq<CardView>, Seq<char>>(cards),
    ensures
        match resolved("hw:"@ + (name + seq![','] + decimal_text(device as nat)), id, asound) {
            Ok(DeviceView::Hw { card, device: d, card_id }) => {
                &&& d == device
                &&& card_id == Some(name)
                &&& exists|i: int|
                    0 <= i < cards.len() && (#[trigger] cards[i]).id == name && cards[i].index
                        == card && forall|j: int| 0 <= j < i ==> (#[trigger] cards[j]).id != name
            },
            Ok(DeviceView::Other(_)) => false,
            Err(_) => forall|j: int| 0 <= j < cards.len() ==> (#[trigger] cards[j]).id != name,
        },
        numbered("hw:"@ + (name + seq![','] + decimal_text(device as nat))) is None,
{
    a_card_and_a_device_are_read_however_they_are_written(name, device);
    lemma_hw(name + seq![','] + decimal_text(device as nat));
    the_first_card_with_an_id_is_taken(cards, name);
}

/// Anything that is neither `auto` nor begins with `hw:` is handed on as it is written.
pub proof fn other_names_are_handed_on(spec: Seq<char>, id: Option<String>, asound: Asound)
    requires
        spec != "auto"@,
        spec.len() < 3 || spec[0] != 'h' || spec[1] != 'w' || spec[2] != ':',
    ensures
        resolved(spec, id, asound) == Ok::<DeviceView, Seq<char>>(DeviceView::Other(spec)),
        DeviceView::Other(spec).alsa_name() == spec,
        DeviceView::Other(spec).described() == spec,
        numbered(spec) is None,
{
    reveal_strlit("hw:");
    if "hw:"@.is_prefix_of(spec) {
        assert(spec[0] == "hw:"@[0] && spec[1] == "hw:"@[1] && spec[2] == "hw:"@[2]);
    }
}

/// The name that a device goes by names that device again.
pub proof fn the_name_of_a_device_names_it(
    card: u32,
    device: u32,
    card_id: Option<Seq<char>>,
    asound: Asound,
)
    ensures
        resolved((DeviceView::Hw { card, device, card_id }).alsa_name(), None, asound) == Ok::<
            DeviceView,
            Seq<char>,
        >(DeviceView::Hw { card, device, card_id: None }),
        (DeviceView::Hw { card, device, card_id: None }).described() == (DeviceView::Hw {
            card,
            device,
            card_id,
        }).alsa_name(),
        card_id matches Some(id) ==> (DeviceView::Hw { card, device, card_id }).described() == (
        DeviceView::Hw { card, device, card_id }).alsa_name() + " ("@ + id + ")"@,
{
    a_numbered_card_is_that_card(card, device, None, asound);
    reveal_strlit(",");
    assert((DeviceView::Hw { card, device, card_id }).alsa_name() =~= "hw:"@ + (decimal_text(
        card as nat,
    ) + seq![','] + decimal_text(device as nat)));
}

// ---- the cards there are -----------------------------------------------------------------------

proof fn lemma_inserted_adds<A>(row: Seq<A>, item: A, key: spec_fn(A) -> int)
    ensures
        inserted(row, item, key).to_multiset() == row.to_multiset().insert(item),
        inserted(row, item, key).len() == row.len() + 1,
    decreases row.len(),
{
    broadcast use vstd::seq_lib::group_to_multiset_ensures;

    if row.len() == 0 || key(row.last()) <= key(item) {
    } else {
        let shorter = row.drop_last();
        lemma_inserted_adds(shorter, item, key);
        assert(row =~= shorter.push(row.last()));
        assert(inserted(row, item, key).to_multiset() =~= row.to_multiset().insert(item));
    }
}

/// Every entry that describes a card adds that card, and any other entry adds nothing: no card is
/// left out, made up or listed twice.
pub proof fn each_entry_adds_its_card(dirs: Seq<DirView>, dir: DirView, names: Seq<char>)
    ensures
        match card_in(dir, names) {
            Some(card) => cards_in(dirs.push(dir), names).to_multiset() == cards_in(
                dirs,
                names,
            ).to_multiset().insert(card),
            None => cards_in(dirs.push(dir), names) == cards_in(dirs, names),
        },
        cards_in(Seq::empty(), names).len() == 0,
{
    let before = cards_in(dirs, names);
    assert(dirs.push(dir).drop_last() =~= dirs);
    if let Some(card) = card_in(dir, names) {
        lemma_inserted_adds(before, card, |card: CardView| card.index as int);
    }
}

/// A card that was read is one that an entry describes, and what each entry describes was read.
pub proof fn the_cards_are_those_the_entries_describe(
    dirs: Seq<DirView>,
    names: Seq<char>,
    card: CardView,
)
    ensures
        cards_in(dirs, names).contains(card) <==> exists|i: int|
            0 <= i < dirs.len() && card_in(#[trigger] dirs[i], names) == Some(card),
    decreases dirs.len(),
{
    broadcast use vstd::seq_lib::group_to_multiset_ensures;

    if dirs.len() > 0 {
        let shorter = dirs.drop_last();
        the_cards_are_those_the_entries_describe(shorter, names, card);
        each_entry_adds_its_card(shorter, dirs.last(), names);
        assert(shorter.push(dirs.last()) =~= dirs);
        let all = cards_in(dirs, names);
        let before = cards_in(shorter, names);
        assert(all.contains(card) <==> all.to_multiset().count(card) > 0);
        assert(before.contains(card) <==> before.to_multiset().count(card) > 0);
        assert(all.contains(card) <==> before.contains(card) || card_in(dirs.last(), names) == Some(
            card,
        ));
        if before.contains(card) {
            let i = choose|i: int|
                0 <= i < shorter.len() && card_in(#[trigger] shorter[i], names) == Some(card);
            assert(card_in(dirs[i], names) == Some(card));
        }
        if exists|i: int| 0 <= i < dirs.len() && card_in(#[trigger] dirs[i], names) == Some(card) {
            let i = choose|i: int|
                0 <= i < dirs.len() && card_in(#[trigger] dirs[i], names) == Some(card);
            if i < shorter.len() {
                assert(card_in(shorter[i], names) == Some(card));
            }
        }
    }
}

/// An entry `card<N>` with an id describes card N: with that id, on USB if the entry says so, and
/// able to play on the devices that the entry holds. An entry that is named otherwise, or has no
/// id, describes nothing.
pub proof fn an_entry_describes_its_card(dir: DirView, names: Seq<char>, index: u32)
    requires
        dir.name == "card"@ + decimal_text(index as nat),
    ensures
        match dir.id {
            Some(id) => card_in(dir, names) matches Some(card) && card.index == index && card.id
                == trimmed(id) && card.usb == dir.usb && card.playback == playback_in(dir.files) && (
            match name_among(lines(names), index) {
                Some(name) => card.name == name,
                None => card.name == trimmed(id),
            }),
            None => card_in(dir, names) is None,
        },
{
    a_card_is_numbered_by_its_entry(index);
}

/// The entry of card N is `card<N>`.
pub proof fn a_card_is_numbered_by_its_entry(index: u32)
    ensures
        card_number("card"@ + decimal_text(index as nat)) == Some(index as nat),
{
    reveal_strlit("card");
    a_number_that_was_written_reads_back(index as nat, u32::MAX as nat);
    assert(("card"@ + decimal_text(index as nat)).skip(4) =~= decimal_text(index as nat));
    assert("card"@.is_prefix_of("card"@ + decimal_text(index as nat)));
}

/// An entry whose name does not begin with `card` is no card.
pub proof fn other_entries_are_no_cards(dir: DirView, names: Seq<char>)
    requires
        dir.name.len() < 5 || dir.name[0] != 'c' || dir.name[1] != 'a' || dir.name[2] != 'r'
            || dir.name[3] != 'd',
    ensures
        card_in(dir, names) is None,
{
    reveal_strlit("card");
    if "card"@.is_prefix_of(dir.name) {
        assert(dir.name[0] == "card"@[0] && dir.name[1] == "card"@[1] && dir.name[2] == "card"@[2]
            && dir.name[3] == "card"@[3]);
        assert(dir.name.skip(4) =~= Seq::<char>::empty());
    }
}

/// A playback device N of a card is its file `pcm<N>p`; whatever ends otherwise, such as the
/// `pcm<N>c` of a capture device, is none.
pub proof fn a_playback_device_is_numbered_by_its_file(n: u32, file: Seq<char>)
    ensures
        device_number("pcm"@ + decimal_text(n as nat) + "p"@) == Some(n as nat),
        file.len() < 5 || file.last() != 'p' || file[0] != 'p' || file[1] != 'c' || file[2] != 'm'
            ==> device_number(file) is None,
{
    reveal_strlit("pcm");
    reveal_strlit("p");
    let digits = decimal_text(n as nat);
    let name = "pcm"@ + digits + "p"@;
    a_number_that_was_written_reads_back(n as nat, u32::MAX as nat);
    assert("pcm"@.is_prefix_of(name));
    assert(name.skip(3).drop_last() =~= digits);
    if "pcm"@.is_prefix_of(file) {
        assert(file[0] == "pcm"@[0] && file[1] == "pcm"@[1] && file[2] == "pcm"@[2]);
        if file.skip(3).len() > 0 && file.len() < 5 {
            assert(file.skip(3).drop_last() =~= Seq::<char>::empty());
        }
    }
}

/// Every file of a playback device adds its number, and any other file adds nothing.
pub proof fn each_file_adds_its_device(files: Seq<Seq<char>>, file: Seq<char>)
    ensures
        match device_number(file) {
            Some(n) => playback_in(files.push(file)).to_multiset() == playback_in(
                files,
            ).to_multiset().insert(n as u32),
            None => playback_in(files.push(file)) == playback_in(files),
        },
        playback_in(Seq::empty()).len() == 0,
{
    assert(files.push(file).drop_last() =~= files);
    if let Some(n) = device_number(file) {
        lemma_inserted_adds(playback_in(files), n as u32, |n: u32| n as int);
    }
}

/// The name of a card is what follows the first ` - ` on the first line that begins with the card's
/// number.
pub proof fn the_name_of_a_card_follows_the_dash(
    space: Seq<char>,
    index: u32,
    before: Seq<char>,
    name: Seq<char>,
)
    requires
        forall|k: int| 0 <= k < space.len() ==> is_space(#[trigger] space[k]),
        cut(before + " - "@ + name, " - "@) == Some((before, name)),
    ensures
        name_on(
            space + (decimal_text(index as nat) + seq![' '] + (before + " - "@ + name)),
            index,
        ) == Some(trimmed(name)),
        forall|other: u32|
            other != index ==> #[trigger] name_on(
                space + (decimal_text(index as nat) + seq![' '] + (before + " - "@ + name)),
                other,
            ) is None,
{
    let digits = decimal_text(index as nat);
    let rest = before + " - "@ + name;
    let line = space + (digits + seq![' '] + rest);
    a_number_that_was_written_reads_back(index as nat, u32::MAX as nat);
    lemma_no_sign_in_digits(index as nat, ' ');
    let from = trimming_the_start_takes_off_space_only(line);
    assert(line[space.len() as int] == digits[0]);
    assert('0' <= digits[0] <= '9');
    assert(from <= space.len());
    if from < space.len() {
        assert(line[from] == space[from]);
    }
    assert(line.skip(from) =~= digits + seq![' '] + rest);
    a_cut_gives_the_key_and_the_value(digits, ' ', rest);
    reveal_strlit(" ");
    assert(" "@ =~= seq![' ']);
}

/// The first line that names a card is the one that counts.
pub proof fn the_first_line_that_names_a_card_counts(rows: Seq<Seq<char>>, index: u32)
    ensures
        match name_among(rows, index) {
            Some(name) => exists|i: int|
                0 <= i < rows.len() && name_on(#[trigger] rows[i], index) == Some(name) && forall|
                    j: int,
                |
                    0 <= j < i ==> name_on(#[trigger] rows[j], index) is None,
            None => forall|j: int| 0 <= j < rows.len() ==> name_on(#[trigger] rows[j], index) is None,
        },
    decreases rows.len(),
{
    if rows.len() > 0 && name_on(rows[0], index) is None {
        let rest = rows.skip(1);
        the_first_line_that_names_a_card_counts(rest, index);
        assert forall|j: int| 1 <= j < rows.len() implies #[trigger] rows[j] == rest[j - 1] by {}
        if let Some(name) = name_among(rest, index) {
            let i = choose|i: int|
                0 <= i < rest.len() && name_on(#[trigger] rest[i], index) == Some(name) && forall|
                    j: int,
                |
                    0 <= j < i ==> name_on(#[trigger] rest[j], index) is None;
            assert(name_on(rows[i + 1], index) == Some(name));
            assert forall|j: int| 0 <= j < i + 1 implies name_on(#[trigger] rows[j], index) is None by {
                if j > 0 {
                    assert(rows[j] == rest[j - 1]);
                }
            }
        }
    } else if rows.len() > 0 {
        assert(name_on(rows[0], index) is Some);
    }
}

/// The cards are read from the entries, and if these can't be listed, that is said, with where they
/// are and why.
pub proof fn cards_that_cannot_be_listed_are_not_made_up(asound: Asound)
    ensures
        match asound.dirs {
            Ok(dirs) => all_cards(asound) matches Ok(cards) && cards == cards_in(
                dirs_of(dirs@),
                asound.cards@,
            ),
            Err(why) => all_cards(asound) == Err::<Seq<CardView>, Seq<char>>(
                "reading "@ + asound.path@ + ": "@ + why@,
            ),
        },
{
}

/// The list has a line for each card that can play, in their order, and none for the others.
pub proof fn the_list_has_a_line_for_each_card_that_can_play(
    cards: Seq<CardView>,
    card: CardView,
)
    ensures
        card_lines(cards.push(card)) == if card.playback.len() > 0 {
            card_lines(cards).push(card_line(card))
        } else {
            card_lines(cards)
        },
        card_lines(Seq::empty()).len() == 0,
{
    assert(cards.push(card).drop_last() =~= cards);
}

// ---- what the functions give -------------------------------------------------------------------

/// `auto` finds the first USB card that can play, under the number it has now, and fails if there is
/// none.
pub proof fn auto_finds_the_first_usb_card_that_can_play(
    spec: &str,
    id: Option<String>,
    asound: Asound,
    cards: Seq<CardView>,
    r: Result<Device, String>,
)
    requires
        spec@ == "auto"@,
        all_cards(asound) == Ok::<Seq<CardView>, Seq<char>>(cards),
        call_ensures(resolve, (spec, &id, &asound), r),
    ensures
        r is Err <==> forall|j: int|
            0 <= j < cards.len() ==> !((#[trigger] cards[j]).usb && cards[j].playback.len() > 0),
        r matches Ok(device) ==> (device matches Device::Hw { card, device: n, card_id } && exists|
            i: int,
        |
            0 <= i < cards.len() && (#[trigger] cards[i]).usb && cards[i].playback.len() > 0 && card
                == cards[i].index && n == cards[i].playback[0] && forall|j: int|
                0 <= j < i ==> !((#[trigger] cards[j]).usb && cards[j].playback.len() > 0)),
{
    auto_is_a_usb_card_that_can_play(id, asound);
    the_first_usb_card_that_can_play_is_taken(cards);
}

/// The name of a raw device resolves to that device, whatever cards there are, and to its name again.
pub proof fn a_device_resolves_to_itself(
    card: u32,
    device: u32,
    name: String,
    spec: &str,
    asound: Asound,
    r: Result<Device, String>,
)
    requires
        call_ensures(Device::alsa_name, (&Device::Hw { card, device, card_id: None },), name),
        spec@ == name@,
        call_ensures(resolve, (spec, &None, &asound), r),
    ensures
        r matches Ok(found) && (found matches Device::Hw { card: c, device: d, card_id } && c == card
            && d == device && card_id is None),
{
    the_name_of_a_device_names_it(card, device, None, asound);
}

/// The id of a card is asked for where the kernel keeps it, and only of a card that was written by its
/// number.
pub proof fn the_id_of_a_numbered_card_is_asked_for(
    spec: &str,
    card: u32,
    device: u32,
    r: Option<u32>,
    path: String,
)
    requires
        spec@ == "hw:"@ + (decimal_text(card as nat) + seq![','] + decimal_text(device as nat)),
        call_ensures(numbered_card, (spec,), r),
        call_ensures(id_path, ("/proc/asound", card), path),
    ensures
        r == Some(card),
        path@ == "/proc/asound"@ + "/card"@ + decimal_text(card as nat) + "/id"@,
{
    a_numbered_card_is_that_card(card, device, None, Asound { path: path, cards: path, dirs: Err(path) });
}

} // verus!
