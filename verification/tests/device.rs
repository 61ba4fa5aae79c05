//! Naming a sound card, against a made-up description of the cards.

use phonia_core::output::catalog;
use phonia_core::output::device::{
    self, cards, id_path, list, numbered_card, Asound, CardDir, CardInfo, Device,
};

/// A made-up `/proc/asound` with an NVidia HDMI card (0), a USB DAC (1) and the laptop's own sound
/// (2, with two playback devices).
fn asound() -> Asound {
    let card = |index: u32, id: &str, usb: bool, pcms: &[u32]| CardDir {
        name: format!("card{index}"),
        id: Some(format!("{id}\n")),
        files: pcms
            .iter()
            .map(|pcm| format!("pcm{pcm}p"))
            .chain(["pcm0c".to_string(), "id".to_string()]) // a capture device: not playback
            .collect(),
        usb,
    };
    Asound {
        path: "/proc/asound".to_string(),
        cards: " 0 [NVidia         ]: HDA-Intel - HDA NVidia\n                      HDA NVidia at 0x88080000 irq 17\n 1 [DS2            ]: USB-Audio - Fosi Audio DS2\n                      Speed Dragon Fosi Audio DS2 at usb-0000:00:14.0-1, high speed\n 2 [sofhdadsp      ]: sof-hda-dsp - sof-hda-dsp\n"
            .to_string(),
        dirs: Ok(vec![
            card(0, "NVidia", false, &[7, 3]),
            card(1, "DS2", true, &[0]),
            card(2, "sofhdadsp", false, &[0, 31]),
            CardDir { name: "version".to_string(), id: None, files: vec![], usb: false },
        ]),
    }
}

/// The text of the file at `path`.
fn read(root: &Asound, path: &str) -> Option<String> {
    let dirs = root.dirs.as_ref().ok()?;
    let dir = dirs.iter().find(|dir| format!("{}/{}/id", root.path, dir.name) == path)?;
    dir.id.clone()
}

fn resolve(spec: &str, root: &Asound) -> Result<Device, String> {
    let id = numbered_card(spec).and_then(|card| read(root, &id_path(&root.path, card)));
    device::resolve(spec, &id, root)
}

fn hw(card: u32, device: u32, id: Option<&str>) -> Device {
    Device::Hw { card, device, card_id: id.map(str::to_string) }
}

#[test]
fn a_numbered_device_stays_as_it_is() {
    let root = asound();
    assert_eq!(resolve("hw:1,0", &root).unwrap(), hw(1, 0, Some("DS2")));
    assert_eq!(
        resolve("hw:2", &root).unwrap(),
        hw(2, 0, Some("sofhdadsp")),
        "a device number is optional"
    );
    assert_eq!(
        resolve("hw:9,1", &root).unwrap(),
        hw(9, 1, None),
        "ALSA, not this, says a card is missing"
    );
}

#[test]
fn a_card_id_becomes_the_cards_current_number() {
    let root = asound();
    assert_eq!(resolve("hw:DS2,0", &root).unwrap(), hw(1, 0, Some("DS2")));
    assert_eq!(resolve("hw:DS2", &root).unwrap(), hw(1, 0, Some("DS2")));
    assert_eq!(
        resolve("hw:NVidia,7", &root).unwrap(),
        hw(0, 7, Some("NVidia"))
    );
    assert_eq!(
        resolve("hw:CARD=DS2,DEV=0", &root).unwrap(),
        hw(1, 0, Some("DS2"))
    );
    assert_eq!(
        resolve("hw:CARD=sofhdadsp", &root).unwrap(),
        hw(2, 0, Some("sofhdadsp"))
    );
    assert_eq!(
        resolve("hw:DEV=1,CARD=NVidia", &root).unwrap(),
        hw(0, 1, Some("NVidia")),
        "the order of the parts does not matter"
    );
}

#[test]
fn the_same_name_follows_the_card_when_its_number_changes() {
    let mut root = asound();
    assert_eq!(resolve("hw:DS2,0", &root).unwrap().alsa_name(), "hw:1,0");

    // The DAC is unplugged and plugged back in: the kernel gives it another number.
    root.dirs.as_mut().unwrap()[1].name = "card5".to_string();
    assert_eq!(resolve("hw:DS2,0", &root).unwrap().alsa_name(), "hw:5,0");
}

#[test]
fn a_card_that_is_not_there_says_which_ones_are() {
    let root = asound();
    let error = resolve("hw:Nope,0", &root).unwrap_err();
    assert!(error.contains("no sound card with id \"Nope\""), "{error}");
    assert!(
        error.contains("DS2") && error.contains("NVidia") && error.contains("phonia devices"),
        "{error}"
    );
}

#[test]
fn auto_takes_the_first_usb_card_that_can_play() {
    let mut root = asound();
    assert_eq!(resolve("auto", &root).unwrap(), hw(1, 0, Some("DS2")));

    root.dirs.as_mut().unwrap()[1].usb = false;
    let error = resolve("auto", &root).unwrap_err();
    assert!(error.contains("no USB sound card"), "{error}");
}

#[test]
fn devices_that_are_not_raw_hardware_pass_through() {
    let root = asound();
    for name in ["default", "plughw:1,0", "null", "pipewire", "dmix:CARD=DS2"] {
        assert_eq!(
            resolve(name, &root).unwrap(),
            Device::Other(name.to_string())
        );
    }
    assert_eq!(Device::Other("default".into()).alsa_name(), "default");
}

#[test]
fn a_malformed_hardware_name_is_refused() {
    let root = asound();
    for bad in [
        "hw:",
        "hw:,0",
        "hw:1,x",
        "hw:1,0,2",
        "hw:FOO=1",
        "hw:CARD=,DEV=0",
    ] {
        assert!(resolve(bad, &root).is_err(), "{bad:?}");
    }
}

#[test]
fn devices_read_for_people() {
    assert_eq!(hw(1, 0, Some("DS2")).describe(), "hw:1,0 (DS2)");
    assert_eq!(hw(1, 0, None).describe(), "hw:1,0");
    assert_eq!(Device::Other("null".into()).describe(), "null");
}

#[test]
fn the_cards_are_listed_in_order_with_their_details() {
    let root = asound();
    let cards = cards(&root).unwrap();
    assert_eq!(cards.iter().map(|c| c.index).collect::<Vec<_>>(), [0, 1, 2]);
    assert_eq!(
        cards[1],
        CardInfo {
            index: 1,
            id: "DS2".into(),
            name: "Fosi Audio DS2".into(),
            usb: true,
            playback: vec![0]
        }
    );
    assert_eq!(
        cards[0].playback,
        [3, 7],
        "capture devices are not playback"
    );
    assert_eq!(cards[2].playback, [0, 31]);
    assert!(!cards[0].usb);
}

#[test]
fn devices_output_is_pinned() {
    let root = asound();
    assert_eq!(
        list(&root).unwrap(),
        "Sound cards, exclusive and bit-perfect (put the device in ~/.config/phonia/config.toml under [output]):\n\
         \x20 hw:NVidia,3 hw:NVidia,7 HDA NVidia  (card 0)\n\
         \x20 hw:DS2,0         Fosi Audio DS2  (card 1, USB)\n\
         \x20 hw:sofhdadsp,0 hw:sofhdadsp,31 sof-hda-dsp  (card 2)\n\
         Or use `auto` for the first USB sound card."
    );
}

#[test]
fn a_machine_without_cards_says_so() {
    let root =
        Asound { path: "/proc/asound".to_string(), cards: String::new(), dirs: Ok(vec![]) };
    assert_eq!(list(&root).unwrap(), "No sound cards with playback were found.");
}

#[test]
fn cards_come_in_the_order_of_their_numbers_whatever_order_they_are_found_in() {
    let mut root = asound();
    root.dirs.as_mut().unwrap().reverse();
    let found = cards(&root).unwrap();
    assert_eq!(found.iter().map(|c| c.index).collect::<Vec<_>>(), [0, 1, 2]);
}

#[test]
fn a_description_that_cannot_be_read_is_an_error_that_says_where() {
    let mut root = asound();
    root.dirs = Err("No such file or directory".to_string());
    assert_eq!(
        list(&root).unwrap_err(),
        "reading /proc/asound: No such file or directory"
    );
    assert!(catalog::cards(&root).is_empty());
    let id = Some("DS2\n".to_string());
    assert_eq!(
        device::resolve("hw:1,0", &id, &root).unwrap(),
        hw(1, 0, Some("DS2")),
        "a number needs no list"
    );
    assert_eq!(device::resolve("hw:1,0", &None, &root).unwrap(), hw(1, 0, None));
    assert!(device::resolve("hw:DS2,0", &id, &root).is_err(), "a name does");
}

#[test]
fn only_a_number_asks_for_the_id_of_its_card() {
    for (spec, card) in [("hw:1,0", Some(1)), ("hw:2", Some(2)), ("hw:CARD=3,DEV=1", Some(3))] {
        assert_eq!(numbered_card(spec), card, "{spec}");
    }
    for spec in ["auto", "hw:DS2,0", "default", "plughw:1,0", "hw:", "hw:1,x"] {
        assert_eq!(numbered_card(spec), None, "{spec}");
    }
    assert_eq!(id_path("/proc/asound", 12), "/proc/asound/card12/id");
}

#[test]
fn a_card_without_a_name_goes_by_its_id() {
    let mut root = asound();
    root.cards = String::new();
    assert_eq!(cards(&root).unwrap()[1].name, "DS2");
}

#[test]
fn every_playback_device_of_a_card_is_an_output() {
    let entries = catalog::cards(&asound());
    let ids: Vec<&str> = entries.iter().map(|entry| entry.id.as_str()).collect();
    assert_eq!(
        ids,
        [
            "exclusive:hw:NVidia,3",
            "exclusive:hw:NVidia,7",
            "exclusive:hw:DS2,0",
            "exclusive:hw:sofhdadsp,0",
            "exclusive:hw:sofhdadsp,31"
        ]
    );
    assert_eq!(entries[0].name, "HDA NVidia (device 3)");
    assert_eq!(entries[2].name, "Fosi Audio DS2");
    assert_eq!(entries[2].detail.as_deref(), Some("USB, card 1"));
    assert!(entries.iter().all(|entry| entry.bit_perfect && !entry.lossy));
}
