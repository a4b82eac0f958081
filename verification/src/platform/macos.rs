//! macOS: CGKeyCode tables, modifier flags of `FlagsChanged` events, and secrets
//! kept as plain text in the settings file.
use vstd::prelude::*;
use crate::text::same_text;

verus! {

/// `kCGEventFlagMaskShift`.
pub const FLAG_SHIFT: u64 = 0x0002_0000;
/// `kCGEventFlagMaskControl`.
pub const FLAG_CONTROL: u64 = 0x0004_0000;
/// `kCGEventFlagMaskAlternate` (Option).
pub const FLAG_ALTERNATE: u64 = 0x0008_0000;
/// `kCGEventFlagMaskCommand`.
pub const FLAG_COMMAND: u64 = 0x0010_0000;

/// On macOS secrets are stored as they are: there is nothing to protect them with.
pub fn protect_secret(_name: &str, _plain: &str) -> (r: Option<String>)
    ensures
        r is None,
{
    None
}

/// On macOS no stored secret can be unprotected.
pub fn unprotect_secret(_name: &str, _stored: &str) -> (r: Option<String>)
    ensures
        r is None,
{
    None
}

/// Left and right key codes of each modifier name.
pub open spec fn modifier_codes(name: Seq<char>) -> Option<Seq<u32>> {
    if name == "CTRL"@ || name == "CONTROL"@ {
        Some(seq![59u32, 62u32])
    } else if name == "WIN"@ || name == "META"@ || name == "SUPER"@ || name == "CMD"@ || name
        == "COMMAND"@ {
        Some(seq![55u32, 54u32])
    } else if name == "ALT"@ || name == "OPTION"@ || name == "OPT"@ {
        Some(seq![58u32, 61u32])
    } else if name == "SHIFT"@ {
        Some(seq![56u32, 60u32])
    } else {
        None
    }
}

/// Key code of each named key; every other name means F9.
pub open spec fn key_code(name: Seq<char>) -> u32 {
    if name == "F1"@ { 122 }
    else if name == "F2"@ { 120 }
    else if name == "F3"@ { 99 }
    else if name == "F4"@ { 118 }
    else if name == "F5"@ { 96 }
    else if name == "F6"@ { 97 }
    else if name == "F7"@ { 98 }
    else if name == "F8"@ { 100 }
    else if name == "F10"@ { 109 }
    else if name == "F11"@ { 103 }
    else if name == "F12"@ { 111 }
    else if name == "CAPSLOCK"@ { 57 }
    else if name == "INSERT"@ || name == "HELP"@ { 114 }
    else if name == "HOME"@ { 115 }
    else if name == "END"@ { 119 }
    else if name == "SPACE"@ { 49 }
    else if name == "ESC"@ || name == "ESCAPE"@ { 53 }
    else if name == "BACKSPACE"@ || name == "DELETE"@ { 51 }
    else if name == "TAB"@ { 48 }
    else { 101 }
}

/// The modifier group (left and right key codes) that `name` stands for.
pub fn modifier_group(name: &str) -> (r: Option<Vec<u32>>)
    ensures
        match r {
            Some(v) => modifier_codes(name@) == Some(v@),
            None => modifier_codes(name@) is None,
        },
{
    let pair = if same_text(name, "CTRL") || same_text(name, "CONTROL") {
        Some((59u32, 62u32))
    } else if same_text(name, "WIN") || same_text(name, "META") || same_text(name, "SUPER")
        || same_text(name, "CMD") || same_text(name, "COMMAND") {
        Some((55u32, 54u32))
    } else if same_text(name, "ALT") || same_text(name, "OPTION") || same_text(name, "OPT") {
        Some((58u32, 61u32))
    } else if same_text(name, "SHIFT") {
        Some((56u32, 60u32))
    } else {
        None
    };
    match pair {
        Some((a, b)) => {
            let v = vec![a, b];
            assert(v@ =~= seq![a, b]);
            Some(v)
        },
        None => None,
    }
}

/// The key code of a named key (F9 for names that are not in the table).
pub fn key_from_name(name: &str) -> (r: u32)
    ensures
        r == key_code(name@),
{
    if same_text(name, "F1") { 122 }
    else if same_text(name, "F2") { 120 }
    else if same_text(name, "F3") { 99 }
    else if same_text(name, "F4") { 118 }
    else if same_text(name, "F5") { 96 }
    else if same_text(name, "F6") { 97 }
    else if same_text(name, "F7") { 98 }
    else if same_text(name, "F8") { 100 }
    else if same_text(name, "F10") { 109 }
    else if same_text(name, "F11") { 103 }
    else if same_text(name, "F12") { 111 }
    else if same_text(name, "CAPSLOCK") { 57 }
    else if same_text(name, "INSERT") || same_text(name, "HELP") { 114 }
    else if same_text(name, "HOME") { 115 }
    else if same_text(name, "END") { 119 }
    else if same_text(name, "SPACE") { 49 }
    else if same_text(name, "ESC") || same_text(name, "ESCAPE") { 53 }
    else if same_text(name, "BACKSPACE") || same_text(name, "DELETE") { 51 }
    else if same_text(name, "TAB") { 48 }
    else { 101 }
}

/// The flag that a modifier key code sets while it is held, if it has one of its own.
pub open spec fn modifier_flag(code: u32) -> Option<u64> {
    if code == 59 || code == 62 {
        Some(FLAG_CONTROL)
    } else if code == 58 || code == 61 {
        Some(FLAG_ALTERNATE)
    } else if code == 55 || code == 54 {
        Some(FLAG_COMMAND)
    } else if code == 56 || code == 60 {
        Some(FLAG_SHIFT)
    } else {
        None
    }
}

/// Whether the modifier `code` is held, read from the flags of its own
/// `FlagsChanged` event; `None` for keys without a flag of their own (Caps Lock).
pub fn modifier_down(code: u32, flags: u64) -> (r: Option<bool>)
    ensures
        match modifier_flag(code) {
            Some(mask) => r == Some(flags & mask == mask),
            None => r is None,
        },
{
    let mask = if code == 59 || code == 62 {
        FLAG_CONTROL
    } else if code == 58 || code == 61 {
        FLAG_ALTERNATE
    } else if code == 55 || code == 54 {
        FLAG_COMMAND
    } else if code == 56 || code == 60 {
        FLAG_SHIFT
    } else {
        return None;
    };
    Some(flags & mask == mask)
}

/// The kind of a keyboard event seen by the event tap.
#[derive(Clone, Copy, Debug, PartialEq, Eq, Structural)]
pub enum TapEvent {
    KeyDown,
    KeyUp,
    FlagsChanged,
}

/// What a tapped keyboard event means for the hotkey tracker.
#[derive(Clone, Copy, Debug, PartialEq, Eq, Structural)]
pub enum TapTransition {
    /// Posted by the app itself (its own paste shortcut): ignored.
    Ignore,
    /// The key went down (`true`) or up (`false`).
    Key(bool),
    /// A modifier without a flag of its own (Caps Lock): the app reads the key state.
    AskKeyState,
}

/// The meaning of a tapped event, by its kind, the process that posted it, the key
/// code and the modifier flags.
pub open spec fn tap_transition_spec(
    kind: TapEvent,
    source_pid: i64,
    own_pid: i64,
    code: u32,
    flags: u64,
) -> TapTransition {
    if source_pid == own_pid {
        TapTransition::Ignore
    } else {
        match kind {
            TapEvent::KeyDown => TapTransition::Key(true),
            TapEvent::KeyUp => TapTransition::Key(false),
            TapEvent::FlagsChanged => match modifier_flag(code) {
                Some(mask) => TapTransition::Key(flags & mask == mask),
                None => TapTransition::AskKeyState,
            },
        }
    }
}

/// What a tapped keyboard event means: events of the app's own process are
/// ignored; key down/up say so; a modifier change is read from the event's flags.
pub fn tap_transition(kind: TapEvent, source_pid: i64, own_pid: i64, code: u32, flags: u64) -> (r:
    TapTransition)
    ensures
        r == tap_transition_spec(kind, source_pid, own_pid, code, flags),
{
    if source_pid == own_pid {
        return TapTransition::Ignore;
    }
    match kind {
        TapEvent::KeyDown => TapTransition::Key(true),
        TapEvent::KeyUp => TapTransition::Key(false),
        TapEvent::FlagsChanged => match modifier_down(code, flags) {
            Some(d) => TapTransition::Key(d),
            None => TapTransition::AskKeyState,
        },
    }
}

} // verus!
