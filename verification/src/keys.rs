//! Which key strokes reach the emulator, and under which W3C key string.
use crate::text;
use vstd::prelude::*;

verus! {

/// The modifier keys held down during a key stroke.
#[derive(Clone, Copy, Debug, PartialEq, Eq)]
pub struct Modifiers {
    pub control: bool,
    pub alt: bool,
    pub shift: bool,
    pub platform: bool,
    pub function: bool,
}

/// A key stroke as the editor reports it.
#[derive(Clone, Debug)]
pub struct Keystroke {
    pub modifiers: Modifiers,
    /// The editor's name of the key, such as `a`, `enter` or `f5`.
    pub key: String,
    /// The text that the stroke types, where it types any.
    pub key_char: Option<String>,
}

/// A key stroke as text.
#[verifier::ext_equal]
pub struct KeystrokeView {
    pub modifiers: Modifiers,
    pub key: Seq<char>,
    pub key_char: Option<Seq<char>>,
}

impl View for Keystroke {
    type V = KeystrokeView;

    open spec fn view(&self) -> KeystrokeView {
        KeystrokeView {
            modifiers: self.modifiers,
            key: self.key@,
            key_char: match self.key_char {
                Some(typed) => Some(typed@),
                None => None,
            },
        }
    }
}

/// The W3C key string of a key that has a name of its own.
pub open spec fn named_key(key: Seq<char>) -> Option<Seq<char>> {
    if key == "enter"@ {
        Some("Enter"@)
    } else if key == "tab"@ {
        Some("Tab"@)
    } else if key == "backspace"@ {
        Some("Backspace"@)
    } else if key == "delete"@ {
        Some("Delete"@)
    } else if key == "escape"@ {
        Some("Escape"@)
    } else if key == "esc"@ {
        Some("Escape"@)
    } else if key == "left"@ {
        Some("ArrowLeft"@)
    } else if key == "right"@ {
        Some("ArrowRight"@)
    } else if key == "up"@ {
        Some("ArrowUp"@)
    } else if key == "down"@ {
        Some("ArrowDown"@)
    } else if key == "home"@ {
        Some("Home"@)
    } else if key == "end"@ {
        Some("End"@)
    } else if key == "pageup"@ {
        Some("PageUp"@)
    } else if key == "pagedown"@ {
        Some("PageDown"@)
    } else if key == "space"@ {
        Some(" "@)
    } else {
        None
    }
}

/// Whether `key` is a single ASCII character.
pub open spec fn is_ascii_key(key: Seq<char>) -> bool {
    key.len() == 1 && key[0] <= '\u{7f}'
}

/// Whether `key` is an `f` with nothing but digits behind it.
pub open spec fn is_function_key(key: Seq<char>) -> bool {
    &&& key.len() > 0
    &&& key[0] == 'f'
    &&& forall|i: int| 1 <= i < key.len() ==> text::is_digit(#[trigger] key[i])
}

/// Whether a modifier is held that makes the stroke a shortcut of the editor.
pub open spec fn is_shortcut(modifiers: Modifiers) -> bool {
    modifiers.control || modifiers.platform || modifiers.function
}

/// The key string that the name of a key gives.
pub open spec fn key_string(key: Seq<char>) -> Option<Seq<char>> {
    if named_key(key) is Some {
        named_key(key)
    } else if is_ascii_key(key) {
        Some(key)
    } else if is_function_key(key) {
        Some(seq!['F'] + key.skip(1))
    } else {
        None
    }
}

/// The key string that a stroke sends to the emulator. Shortcuts send nothing; a stroke that types
/// one character sends that character; any other goes by the name of its key.
pub open spec fn emulator_key(stroke: KeystrokeView) -> Option<Seq<char>> {
    if is_shortcut(stroke.modifiers) {
        None
    } else {
        match stroke.key_char {
            Some(typed) if typed.len() == 1 => Some(typed),
            _ => key_string(stroke.key),
        }
    }
}

/// An optional string as text.
pub open spec fn optional_text(s: Option<String>) -> Option<Seq<char>> {
    match s {
        Some(s) => Some(s@),
        None => None,
    }
}

fn string_for_named_key(key: &str) -> (name: Option<String>)
    ensures
        optional_text(name) == named_key(key@),
{
    if text::same_str(key, "enter") {
        Some("Enter".to_string())
    } else if text::same_str(key, "tab") {
        Some("Tab".to_string())
    } else if text::same_str(key, "backspace") {
        Some("Backspace".to_string())
    } else if text::same_str(key, "delete") {
        Some("Delete".to_string())
    } else if text::same_str(key, "escape") {
        Some("Escape".to_string())
    } else if text::same_str(key, "esc") {
        Some("Escape".to_string())
    } else if text::same_str(key, "left") {
        Some("ArrowLeft".to_string())
    } else if text::same_str(key, "right") {
        Some("ArrowRight".to_string())
    } else if text::same_str(key, "up") {
        Some("ArrowUp".to_string())
    } else if text::same_str(key, "down") {
        Some("ArrowDown".to_string())
    } else if text::same_str(key, "home") {
        Some("Home".to_string())
    } else if text::same_str(key, "end") {
        Some("End".to_string())
    } else if text::same_str(key, "pageup") {
        Some("PageUp".to_string())
    } else if text::same_str(key, "pagedown") {
        Some("PageDown".to_string())
    } else if text::same_str(key, "space") {
        Some(" ".to_string())
    } else {
        None
    }
}

/// The key string that `keystroke` sends to the emulator, if it sends one.
pub fn key_for_emulator(keystroke: &Keystroke) -> (key: Option<String>)
    ensures
        optional_text(key) == emulator_key(keystroke@),
{
    if keystroke.modifiers.control || keystroke.modifiers.platform || keystroke.modifiers.function {
        return None;
    }
    if let Some(typed) = &keystroke.key_char {
        if text::chars_of(typed.as_str()).len() == 1 {
            return Some(typed.clone());
        }
    }
    let named = string_for_named_key(keystroke.key.as_str());
    if named.is_some() {
        return named;
    }
    let chars = text::chars_of(keystroke.key.as_str());
    if chars.len() == 1 && chars[0] <= '\u{7f}' {
        return Some(keystroke.key.clone());
    }
    if chars.len() == 0 || chars[0] != 'f' {
        return None;
    }
    let mut upper = String::new();
    upper.push('F');
    let mut i: usize = 1;
    while i < chars.len()
        invariant
            1 <= i <= chars@.len(),
            chars@ == keystroke@.key,
            chars@[0] == 'f',
            emulator_key(keystroke@) == key_string(chars@),
            named_key(chars@) is None,
            !is_ascii_key(chars@),
            forall|j: int| 1 <= j < i ==> text::is_digit(#[trigger] chars@[j]),
            upper@ == seq!['F'] + chars@.subrange(1, i as int),
        decreases chars@.len() - i,
    {
        let c = chars[i];
        if c < '0' || '9' < c {
            return None;
        }
        upper.push(c);
        i += 1;
    }
    Some(upper)
}

/// A shortcut of the editor never reaches the emulator.
pub proof fn lemma_shortcuts_stay_in_the_editor(stroke: KeystrokeView)
    requires
        is_shortcut(stroke.modifiers),
    ensures
        emulator_key(stroke) is None,
{
}

/// Alt and shift do not change which key string a stroke sends.
pub proof fn lemma_alt_and_shift_are_ignored(a: KeystrokeView, b: KeystrokeView)
    requires
        a.key == b.key,
        a.key_char == b.key_char,
        is_shortcut(a.modifiers) == is_shortcut(b.modifiers),
    ensures
        emulator_key(a) == emulator_key(b),
{
}

/// A stroke never sends an empty key string.
pub proof fn lemma_key_strings_are_not_empty(stroke: KeystrokeView)
    ensures
        emulator_key(stroke) matches Some(key) ==> key.len() > 0,
{
    reveal_strlit("Enter");
    reveal_strlit("Tab");
    reveal_strlit("Backspace");
    reveal_strlit("Delete");
    reveal_strlit("Escape");
    reveal_strlit("ArrowLeft");
    reveal_strlit("ArrowRight");
    reveal_strlit("ArrowUp");
    reveal_strlit("ArrowDown");
    reveal_strlit("Home");
    reveal_strlit("End");
    reveal_strlit("PageUp");
    reveal_strlit("PageDown");
    reveal_strlit(" ");
}

/// Whether a stroke goes by the name of its key: it is no shortcut and does not type a single
/// character.
pub open spec fn goes_by_name(stroke: KeystrokeView) -> bool {
    &&& !stroke.modifiers.control && !stroke.modifiers.platform && !stroke.modifiers.function
    &&& stroke.key_char matches Some(typed) ==> typed.len() != 1
}

/// A stroke with control, the platform key or the function key sends nothing. Any other that types a
/// single character sends that character, whatever its key.
pub proof fn lemma_typed_characters_are_sent(stroke: KeystrokeView)
    ensures
        stroke.modifiers.control || stroke.modifiers.platform || stroke.modifiers.function
            ==> emulator_key(stroke) is None,
        !stroke.modifiers.control && !stroke.modifiers.platform && !stroke.modifiers.function ==> (
        stroke.key_char matches Some(typed) ==> typed.len() == 1 ==> emulator_key(stroke) == Some(
            typed,
        )),
{
}

/// The names of keys differ in their lengths or in their first two letters.
proof fn lemma_names_differ(key: Seq<char>)
    ensures
        key == "enter"@ ==> key.len() == 5 && key[0] == 'e' && key[1] == 'n',
        key == "tab"@ ==> key.len() == 3 && key[0] == 't' && key[1] == 'a',
        key == "backspace"@ ==> key.len() == 9 && key[0] == 'b' && key[1] == 'a',
        key == "delete"@ ==> key.len() == 6 && key[0] == 'd' && key[1] == 'e',
        key == "escape"@ ==> key.len() == 6 && key[0] == 'e' && key[1] == 's',
        key == "esc"@ ==> key.len() == 3 && key[0] == 'e' && key[1] == 's',
        key == "left"@ ==> key.len() == 4 && key[0] == 'l' && key[1] == 'e',
        key == "right"@ ==> key.len() == 5 && key[0] == 'r' && key[1] == 'i',
        key == "up"@ ==> key.len() == 2 && key[0] == 'u' && key[1] == 'p',
        key == "down"@ ==> key.len() == 4 && key[0] == 'd' && key[1] == 'o',
        key == "home"@ ==> key.len() == 4 && key[0] == 'h' && key[1] == 'o',
        key == "end"@ ==> key.len() == 3 && key[0] == 'e' && key[1] == 'n',
        key == "pageup"@ ==> key.len() == 6 && key[0] == 'p' && key[1] == 'a',
        key == "pagedown"@ ==> key.len() == 8 && key[0] == 'p' && key[1] == 'a',
        key == "space"@ ==> key.len() == 5 && key[0] == 's' && key[1] == 'p',
{
    reveal_strlit("enter");
    reveal_strlit("tab");
    reveal_strlit("backspace");
    reveal_strlit("delete");
    reveal_strlit("escape");
    reveal_strlit("esc");
    reveal_strlit("left");
    reveal_strlit("right");
    reveal_strlit("up");
    reveal_strlit("down");
    reveal_strlit("home");
    reveal_strlit("end");
    reveal_strlit("pageup");
    reveal_strlit("pagedown");
    reveal_strlit("space");
}

/// The key string of each key that has a name of its own.
pub proof fn lemma_named_keys_are_sent(stroke: KeystrokeView)
    requires
        goes_by_name(stroke),
    ensures
        stroke.key == "enter"@ ==> emulator_key(stroke) == Some("Enter"@),
        stroke.key == "tab"@ ==> emulator_key(stroke) == Some("Tab"@),
        stroke.key == "backspace"@ ==> emulator_key(stroke) == Some("Backspace"@),
        stroke.key == "delete"@ ==> emulator_key(stroke) == Some("Delete"@),
        stroke.key == "escape"@ ==> emulator_key(stroke) == Some("Escape"@),
        stroke.key == "esc"@ ==> emulator_key(stroke) == Some("Escape"@),
        stroke.key == "left"@ ==> emulator_key(stroke) == Some("ArrowLeft"@),
        stroke.key == "right"@ ==> emulator_key(stroke) == Some("ArrowRight"@),
        stroke.key == "up"@ ==> emulator_key(stroke) == Some("ArrowUp"@),
        stroke.key == "down"@ ==> emulator_key(stroke) == Some("ArrowDown"@),
        stroke.key == "home"@ ==> emulator_key(stroke) == Some("Home"@),
        stroke.key == "end"@ ==> emulator_key(stroke) == Some("End"@),
        stroke.key == "pageup"@ ==> emulator_key(stroke) == Some("PageUp"@),
        stroke.key == "pagedown"@ ==> emulator_key(stroke) == Some("PageDown"@),
        stroke.key == "space"@ ==> emulator_key(stroke) == Some(" "@),
{
    lemma_names_differ(stroke.key);
}

/// A key of a single ASCII character sends that character, and a function key its number behind an
/// `F`.
pub proof fn lemma_plain_and_function_keys_are_sent(stroke: KeystrokeView, c: char, digits: Seq<char>)
    requires
        goes_by_name(stroke),
        digits.len() > 0,
        forall|i: int| 0 <= i < digits.len() ==> '0' <= #[trigger] digits[i] <= '9',
    ensures
        stroke.key == seq![c] && c as int <= 127 ==> emulator_key(stroke) == Some(seq![c]),
        stroke.key == seq!['f'] + digits ==> emulator_key(stroke) == Some(seq!['F'] + digits),
{
    lemma_names_differ(stroke.key);
    if stroke.key == seq!['f'] + digits {
        assert(stroke.key[1] == digits[0]);
        assert forall|i: int| 1 <= i < stroke.key.len() implies text::is_digit(
            #[trigger] stroke.key[i],
        ) by {
            assert(stroke.key[i] == digits[i - 1]);
        }
        assert(stroke.key.skip(1) =~= digits);
    }
}

/// No other key sends anything.
pub proof fn lemma_other_keys_send_nothing(stroke: KeystrokeView)
    requires
        goes_by_name(stroke),
    ensures
        emulator_key(stroke) is Some ==> {
                ||| stroke.key == "enter"@
                ||| stroke.key == "tab"@
                ||| stroke.key == "backspace"@
                ||| stroke.key == "delete"@
                ||| stroke.key == "escape"@
                ||| stroke.key == "esc"@
                ||| stroke.key == "left"@
                ||| stroke.key == "right"@
                ||| stroke.key == "up"@
                ||| stroke.key == "down"@
                ||| stroke.key == "home"@
                ||| stroke.key == "end"@
                ||| stroke.key == "pageup"@
                ||| stroke.key == "pagedown"@
                ||| stroke.key == "space"@
                ||| stroke.key.len() == 1 && stroke.key[0] as int <= 127
                ||| stroke.key.len() > 1 && stroke.key[0] == 'f' && forall|i: int|
                    1 <= i < stroke.key.len() ==> '0' <= #[trigger] stroke.key[i] <= '9'
        },
{
}

/// A stroke is viewed field by field, and an optional string by its text.
pub proof fn lemma_stroke_view(stroke: Keystroke)
    ensures
        optional_text(stroke.key_char) is Some <==> stroke.key_char is Some,
        stroke.key_char matches Some(typed) ==> optional_text(stroke.key_char) == Some(typed@),
        stroke@.modifiers == stroke.modifiers,
        stroke@.key == stroke.key@,
        stroke@.key_char is Some <==> stroke.key_char is Some,
        stroke.key_char matches Some(typed) ==> stroke@.key_char == Some(typed@),
{
}

} // verus!
