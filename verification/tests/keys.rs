use android_emulator::keys::{key_for_emulator, Keystroke, Modifiers};

const NONE: Modifiers =
    Modifiers { control: false, alt: false, shift: false, platform: false, function: false };

fn stroke(modifiers: Modifiers, key: &str, key_char: Option<&str>) -> Keystroke {
    Keystroke { modifiers, key: key.to_string(), key_char: key_char.map(String::from) }
}

fn plain(key: &str) -> Option<String> {
    key_for_emulator(&stroke(NONE, key, None))
}

#[test]
fn named_keys() {
    let names = [
        ("enter", "Enter"),
        ("tab", "Tab"),
        ("backspace", "Backspace"),
        ("delete", "Delete"),
        ("escape", "Escape"),
        ("esc", "Escape"),
        ("left", "ArrowLeft"),
        ("right", "ArrowRight"),
        ("up", "ArrowUp"),
        ("down", "ArrowDown"),
        ("home", "Home"),
        ("end", "End"),
        ("pageup", "PageUp"),
        ("pagedown", "PageDown"),
        ("space", " "),
    ];
    for (key, expected) in names {
        assert_eq!(plain(key).as_deref(), Some(expected));
    }
}

#[test]
fn function_keys_are_upper_case() {
    assert_eq!(plain("f1").as_deref(), Some("F1"));
    assert_eq!(plain("f12").as_deref(), Some("F12"));
    assert_eq!(plain("f").as_deref(), Some("f"));
    assert_eq!(plain("fn"), None);
    assert_eq!(plain("f1x"), None);
}

#[test]
fn single_ascii_keys_pass() {
    assert_eq!(plain("a").as_deref(), Some("a"));
    assert_eq!(plain("\u{e9}"), None);
    assert_eq!(plain(""), None);
    assert_eq!(plain("insert"), None);
}

#[test]
fn typed_character_comes_first() {
    assert_eq!(key_for_emulator(&stroke(NONE, "a", Some("A"))).as_deref(), Some("A"));
    assert_eq!(key_for_emulator(&stroke(NONE, "x", Some("\u{e9}"))).as_deref(), Some("\u{e9}"));
    assert_eq!(key_for_emulator(&stroke(NONE, "enter", Some("\n"))).as_deref(), Some("\n"));
    assert_eq!(key_for_emulator(&stroke(NONE, "tab", Some("ab"))).as_deref(), Some("Tab"));
    assert_eq!(key_for_emulator(&stroke(NONE, "tab", Some(""))).as_deref(), Some("Tab"));
}

#[test]
fn shortcuts_stay_in_the_editor() {
    for modifiers in [
        Modifiers { control: true, ..NONE },
        Modifiers { platform: true, ..NONE },
        Modifiers { function: true, ..NONE },
    ] {
        assert_eq!(key_for_emulator(&stroke(modifiers, "a", Some("a"))), None);
    }
}

#[test]
fn alt_and_shift_are_ignored() {
    let held = Modifiers { alt: true, shift: true, ..NONE };
    assert_eq!(key_for_emulator(&stroke(held, "left", None)).as_deref(), Some("ArrowLeft"));
}
