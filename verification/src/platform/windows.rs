//! Windows: virtual-key tables, low-level keyboard hook messages, and the text
//! form (base64) of DPAPI-protected secrets.
use vstd::prelude::*;
use crate::text::same_text;
use base64::Engine;

verus! {

/// `WM_KEYDOWN`.
pub const WM_KEYDOWN: u32 = 0x0100;
/// `WM_KEYUP`.
pub const WM_KEYUP: u32 = 0x0101;
/// `WM_SYSKEYDOWN`.
pub const WM_SYSKEYDOWN: u32 = 0x0104;
/// `WM_SYSKEYUP`.
pub const WM_SYSKEYUP: u32 = 0x0105;
/// `LLKHF_INJECTED`: the event was synthesized (our own paste shortcut, for one).
pub const LLKHF_INJECTED: u32 = 0x10;

/// Left and right virtual-key codes of each modifier name.
pub open spec fn modifier_codes(name: Seq<char>) -> Option<Seq<u32>> {
    if name == "CTRL"@ || name == "CONTROL"@ {
        Some(seq![0xA2u32, 0xA3u32])
    } else if name == "WIN"@ || name == "META"@ || name == "SUPER"@ || name == "CMD"@ || name
        == "COMMAND"@ {
        Some(seq![0x5Bu32, 0x5Cu32])
    } else if name == "ALT"@ || name == "OPTION"@ || name == "OPT"@ {
        Some(seq![0xA4u32, 0xA5u32])
    } else if name == "SHIFT"@ {
        Some(seq![0xA0u32, 0xA1u32])
    } else {
        None
    }
}

/// Virtual-key code of each named key; every other name means F9.
pub open spec fn key_code(name: Seq<char>) -> u32 {
    if name == "F1"@ { 0x70 }
    else if name == "F2"@ { 0x71 }
    else if name == "F3"@ { 0x72 }
    else if name == "F4"@ { 0x73 }
    else if name == "F5"@ { 0x74 }
    else if name == "F6"@ { 0x75 }
    else if name == "F7"@ { 0x76 }
    else if name == "F8"@ { 0x77 }
    else if name == "F10"@ { 0x79 }
    else if name == "F11"@ { 0x7A }
    else if name == "F12"@ { 0x7B }
    else if name == "SCROLLLOCK"@ { 0x91 }
    else if name == "PAUSE"@ { 0x13 }
    else if name == "CAPSLOCK"@ { 0x14 }
    else if name == "INSERT"@ { 0x2D }
    else if name == "HOME"@ { 0x24 }
    else if name == "END"@ { 0x23 }
    else if name == "SPACE"@ { 0x20 }
    else if name == "ESC"@ || name == "ESCAPE"@ { 0x1B }
    else if name == "BACKSPACE"@ { 0x08 }
    else if name == "TAB"@ { 0x09 }
    else { 0x78 }
}

/// The modifier group (left and right virtual keys) that `name` stands for.
pub fn modifier_group(name: &str) -> (r: Option<Vec<u32>>)
    ensures
        match r {
            Some(v) => modifier_codes(name@) == Some(v@),
            None => modifier_codes(name@) is None,
        },
{
    let pair = if same_text(name, "CTRL") || same_text(name, "CONTROL") {
        Some((0xA2u32, 0xA3u32))
    } else if same_text(name, "WIN") || same_text(name, "META") || same_text(name, "SUPER")
        || same_text(name, "CMD") || same_text(name, "COMMAND") {
        Some((0x5Bu32, 0x5Cu32))
    } else if same_text(name, "ALT") || same_text(name, "OPTION") || same_text(name, "OPT") {
        Some((0xA4u32, 0xA5u32))
    } else if same_text(name, "SHIFT") {
        Some((0xA0u32, 0xA1u32))
    } else {
        None
    };
    match pair {
        Some((a, b)) => {
            let v = vec![a, b];
            assert(v@ =~= seq![a, b]);
            Some(v)
        },
        None => None,
    }
}

/// The virtual-key code of a named key (F9 for names that are not in the table).
pub fn key_from_name(name: &str) -> (r: u32)
    ensures
        r == key_code(name@),
{
    if same_text(name, "F1") { 0x70 }
    else if same_text(name, "F2") { 0x71 }
    else if same_text(name, "F3") { 0x72 }
    else if same_text(name, "F4") { 0x73 }
    else if same_text(name, "F5") { 0x74 }
    else if same_text(name, "F6") { 0x75 }
    else if same_text(name, "F7") { 0x76 }
    else if same_text(name, "F8") { 0x77 }
    else if same_text(name, "F10") { 0x79 }
    else if same_text(name, "F11") { 0x7A }
    else if same_text(name, "F12") { 0x7B }
    else if same_text(name, "SCROLLLOCK") { 0x91 }
    else if same_text(name, "PAUSE") { 0x13 }
    else if same_text(name, "CAPSLOCK") { 0x14 }
    else if same_text(name, "INSERT") { 0x2D }
    else if same_text(name, "HOME") { 0x24 }
    else if same_text(name, "END") { 0x23 }
    else if same_text(name, "SPACE") { 0x20 }
    else if same_text(name, "ESC") || same_text(name, "ESCAPE") { 0x1B }
    else if same_text(name, "BACKSPACE") { 0x08 }
    else if same_text(name, "TAB") { 0x09 }
    else { 0x78 }
}

/// What a low-level keyboard hook call reports: `Some(true)` for a key press,
/// `Some(false)` for a release, `None` when the call is to be passed on untouched
/// (negative hook code, injected event, or another message).
pub open spec fn hook_transition(code: i32, flags: u32, msg: u32) -> Option<bool> {
    if code < 0 || flags & LLKHF_INJECTED != 0 {
        None
    } else if msg == WM_KEYDOWN || msg == WM_SYSKEYDOWN {
        Some(true)
    } else if msg == WM_KEYUP || msg == WM_SYSKEYUP {
        Some(false)
    } else {
        None
    }
}

/// Classifies one call of the keyboard hook (see [`hook_transition`]).
pub fn key_transition(code: i32, flags: u32, msg: u32) -> (r: Option<bool>)
    ensures
        r == hook_transition(code, flags, msg),
{
    if code < 0 || flags & LLKHF_INJECTED != 0 {
        return None;
    }
    let down = msg == WM_KEYDOWN || msg == WM_SYSKEYDOWN;
    if down || msg == WM_KEYUP || msg == WM_SYSKEYUP {
        Some(down)
    } else {
        None
    }
}

/// The character of a 6-bit value in the standard base64 alphabet
/// (`A`-`Z`, `a`-`z`, `0`-`9`, `+`, `/`).
pub open spec fn base64_char(v: int) -> char {
    if v < 26 {
        (65 + v) as char
    } else if v < 52 {
        (97 + v - 26) as char
    } else if v < 62 {
        (48 + v - 52) as char
    } else if v == 62 {
        '+'
    } else {
        '/'
    }
}

/// Standard padded base64 (RFC 4648): each group of three bytes becomes four
/// characters of six bits each; a last group of one or two bytes is completed
/// with zero bits and padded with `=` to four characters.
pub open spec fn base64_standard_encoding(b: Seq<u8>) -> Seq<char>
    decreases b.len(),
{
    if b.len() == 0 {
        Seq::empty()
    } else if b.len() == 1 {
        let x = b[0] as int;
        seq![base64_char(x / 4), base64_char((x % 4) * 16), '=', '=']
    } else if b.len() == 2 {
        let x = b[0] as int;
        let y = b[1] as int;
        seq![base64_char(x / 4), base64_char((x % 4) * 16 + y / 16), base64_char((y % 16) * 4), '=']
    } else {
        let x = b[0] as int;
        let y = b[1] as int;
        let z = b[2] as int;
        seq![
            base64_char(x / 4),
            base64_char((x % 4) * 16 + y / 16),
            base64_char((y % 16) * 4 + z / 64),
            base64_char(z % 64),
        ] + base64_standard_encoding(b.skip(3))
    }
}

/// What `base64`'s standard engine decodes from a text: `None` when it reports an error.
pub uninterp spec fn base64_standard_decoding(text: Seq<char>) -> Option<Seq<u8>>;

/// Length of the padded base64 text for `n` input bytes.
pub open spec fn encoded_len(n: nat) -> nat {
    if n % 3 == 0 { (n / 3) * 4 } else { (n / 3) * 4 + 4 }
}

/// Calls `Engine::encode` of `base64::engine::general_purpose::STANDARD`.
/// Claimed: the result is the standard padded encoding of the bytes
/// (`base64_standard_encoding`); its length is
/// the padded encoded length (`base64::encoded_len` with padding), which the crate
/// computes before encoding; and the same engine decodes it back to the bytes (the
/// engine writes canonical padding and zero trailing bits, which is exactly what
/// its `RequireCanonical` decoding accepts). The crate panics when the length
/// overflows `usize`, hence the `requires`.
#[verifier::external_body]
fn base64_encode(bytes: &[u8]) -> (r: String)
    requires
        encoded_len(bytes@.len()) <= usize::MAX,
    ensures
        r@ == base64_standard_encoding(bytes@),
        r@.len() == encoded_len(bytes@.len()),
        base64_standard_decoding(r@) == Some(bytes@),
{
    base64::engine::general_purpose::STANDARD.encode(bytes)
}

/// Calls `Engine::decode` of `base64::engine::general_purpose::STANDARD` and keeps
/// the bytes of an `Ok`. Claimed: the result is `base64_standard_decoding` of the text.
#[verifier::external_body]
fn base64_decode(text: &str) -> (r: Option<Vec<u8>>)
    ensures
        match r {
            Some(b) => base64_standard_decoding(text@) == Some(b@),
            None => base64_standard_decoding(text@) is None,
        },
{
    base64::engine::general_purpose::STANDARD.decode(text).ok()
}

/// Calls `String::from_utf8`. Claimed, as its documentation says: it succeeds
/// exactly on valid UTF-8, and the string then holds the decoded characters.
#[verifier::external_body]
fn string_from_utf8(bytes: Vec<u8>) -> (r: Option<String>)
    ensures
        r is Some <==> vstd::utf8::valid_utf8(bytes@),
        r matches Some(s) ==> s@ == vstd::utf8::decode_utf8(bytes@),
{
    String::from_utf8(bytes).ok()
}

/// The text form of a DPAPI blob as it is kept in the settings file.
pub fn encode_blob(blob: &[u8]) -> (r: String)
    requires
        encoded_len(blob@.len()) <= usize::MAX,
    ensures
        r@ == base64_standard_encoding(blob@),
        r@.len() == encoded_len(blob@.len()),
        base64_standard_decoding(r@) == Some(blob@),
{
    base64_encode(blob)
}

/// The DPAPI blob back from its text form; `None` when the text is not valid base64.
pub fn decode_blob(encoded: &str) -> (r: Option<Vec<u8>>)
    ensures
        match r {
            Some(b) => base64_standard_decoding(encoded@) == Some(b@),
            None => base64_standard_decoding(encoded@) is None,
        },
{
    base64_decode(encoded)
}

/// The secret held by an unprotected DPAPI blob: `None` when the bytes are not UTF-8.
pub fn secret_from_bytes(plain: Vec<u8>) -> (r: Option<String>)
    ensures
        r is Some <==> vstd::utf8::valid_utf8(plain@),
        r matches Some(s) ==> s@ == vstd::utf8::decode_utf8(plain@),
{
    string_from_utf8(plain)
}

/// What `protect_secret` gives for `plain` with the protection `seal`: `seal` is
/// called on the UTF-8 bytes of the key; its blob comes back as base64 text (which
/// decodes back to the blob); no blob, no text.
pub open spec fn sealed_text<F: Fn(&[u8]) -> Option<Vec<u8>>>(
    seal: F,
    plain: Seq<char>,
    r: Option<String>,
) -> bool {
    exists|arg: &[u8], o: Option<Vec<u8>>|
        arg@ == vstd::utf8::encode_utf8(plain) && #[trigger] seal.ensures((arg,), o) && match o {
            Some(blob) => r matches Some(t) && t@ == base64_standard_encoding(blob@)
                && base64_standard_decoding(t@) == Some(blob@),
            None => r is None,
        }
}

/// What `unprotect_secret` gives for the stored text with the unprotection `open`:
/// nothing when the text is not standard base64; otherwise `open` is called on the
/// decoded blob, and its bytes are read as UTF-8 (nothing when they are not UTF-8
/// or `open` fails).
pub open spec fn opened_text<G: Fn(&[u8]) -> Option<Vec<u8>>>(
    open: G,
    stored: Seq<char>,
    r: Option<String>,
) -> bool {
    match base64_standard_decoding(stored) {
        None => r is None,
        Some(blob) => exists|arg: &[u8], o: Option<Vec<u8>>|
            arg@ == blob && #[trigger] open.ensures((arg,), o) && match o {
                None => r is None,
                Some(p) => if vstd::utf8::valid_utf8(p@) {
                    r matches Some(t) && t@ == vstd::utf8::decode_utf8(p@)
                } else {
                    r is None
                },
            },
    }
}

/// DPAPI needs no item name: the blob stands on its own. `seal` is the DPAPI
/// protection of the key's UTF-8 bytes; its blob is kept as base64 text.
pub fn protect_secret<F: Fn(&[u8]) -> Option<Vec<u8>>>(_name: &str, plain: &str, seal: &F) -> (r:
    Option<String>)
    requires
        forall|b: &[u8]| #[trigger] seal.requires((b,)),
        forall|b: &[u8], o: Option<Vec<u8>>|
            #[trigger] seal.ensures((b,), o) ==> (o matches Some(x) ==> encoded_len(x@.len())
                <= usize::MAX),
    ensures
        sealed_text(*seal, plain@, r),
{
    let bytes = plain.as_bytes();
    let o = seal(bytes);
    let r = match &o {
        Some(blob) => Some(encode_blob(blob.as_slice())),
        None => None,
    };
    assert(bytes@ == vstd::utf8::encode_utf8(plain@) && seal.ensures((bytes,), o));
    r
}

/// The key back from its stored text: base64-decoded, then `open` (the DPAPI
/// unprotection), then read as UTF-8; `None` when any of the three fails.
pub fn unprotect_secret<F: Fn(&[u8]) -> Option<Vec<u8>>>(_name: &str, stored: &str, open: &F) -> (r:
    Option<String>)
    requires
        forall|b: &[u8]| #[trigger] open.requires((b,)),
    ensures
        opened_text(*open, stored@, r),
{
    let blob = match decode_blob(stored) {
        Some(b) => b,
        None => return None,
    };
    let arg = blob.as_slice();
    let o = open(arg);
    let r = match o {
        Some(p) => secret_from_bytes(p),
        None => None,
    };
    assert(arg@ == blob@ && open.ensures((arg,), o));
    r
}

/// A key protected and then unprotected comes back unchanged, whatever item names
/// are passed (DPAPI ignores them), provided the unprotection gives back the bytes
/// that the protection sealed into a blob (DPAPI for the same user).
pub proof fn lemma_secret_round_trip<F: Fn(&[u8]) -> Option<Vec<u8>>, G: Fn(&[u8]) -> Option<
    Vec<u8>,
>>(seal: F, open: G, plain: Seq<char>, stored: String, back: Option<String>)
    requires
        forall|a: &[u8], o: Option<Vec<u8>>, b: &[u8], y: Option<Vec<u8>>|
            #![trigger seal.ensures((a,), o), open.ensures((b,), y)]
            seal.ensures((a,), o) && o is Some && b@ == o->0@ && open.ensures((b,), y) ==> (y is Some
                && y->0@ == a@),
        sealed_text(seal, plain, Some(stored)),
        opened_text(open, stored@, back),
    ensures
        back matches Some(t) && t@ == plain,
{
    let (arg, o) = choose|arg: &[u8], o: Option<Vec<u8>>|
        arg@ == vstd::utf8::encode_utf8(plain) && #[trigger] seal.ensures((arg,), o) && match o {
            Some(blob) => Some(stored) matches Some(t) && t@ == base64_standard_encoding(blob@)
                && base64_standard_decoding(t@) == Some(blob@),
            None => Some(stored) is None,
        };
    let blob = o->0;
    assert(base64_standard_decoding(stored@) == Some(blob@));
    let (arg2, o2) = choose|arg2: &[u8], o2: Option<Vec<u8>>|
        arg2@ == blob@ && #[trigger] open.ensures((arg2,), o2) && match o2 {
            None => back is None,
            Some(p) => if vstd::utf8::valid_utf8(p@) {
                back matches Some(t) && t@ == vstd::utf8::decode_utf8(p@)
            } else {
                back is None
            },
        };
    assert(o2 is Some && o2->0@ == arg@);
    vstd::utf8::encode_utf8_valid_utf8(plain);
    vstd::utf8::encode_utf8_decode_utf8(plain);
}

} // verus!
