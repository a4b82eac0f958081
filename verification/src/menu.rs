//! The tray menu: item identifiers, check marks, and what a click on an item does.
use vstd::prelude::*;
use crate::settings::{Settings, SettingsView};
use crate::text::{chars_of, chars_occur_at, same_text, starts_with, string_from, sub_chars};

verus! {

broadcast use vstd::string::group_string_axioms;

/// What the application does after a menu click.
#[derive(Clone, Copy, Debug, PartialEq, Eq, Structural)]
pub enum MenuEffect {
    /// The settings changed: save them, rebuild the menu, tell the window.
    SettingsChanged,
    /// Put the last dictated text on the clipboard.
    CopyLast,
    /// Show the settings window.
    ShowWindow,
    /// Quit the application.
    Quit,
    /// Nothing to do.
    Ignored,
}

/// The rest of `s` after the prefix `p`, if `s` starts with it.
pub open spec fn after_prefix(s: Seq<char>, p: Seq<char>) -> Option<Seq<char>> {
    if starts_with(s, p) {
        Some(s.skip(p.len() as int))
    } else {
        None
    }
}

/// Whether the "spoken PT, written EN" item is checked.
pub open spec fn pt_en_on(s: SettingsView) -> bool {
    s.speech_lang == "pt"@ && s.output_lang == "en"@
}

/// The settings after a click on the menu item `id`, and what else to do.
pub open spec fn menu_effect(s: SettingsView, id: Seq<char>) -> (SettingsView, MenuEffect) {
    if let Some(name) = after_prefix(id, "profile:"@) {
        (SettingsView { active_profile: name, ..s }, MenuEffect::SettingsChanged)
    } else if let Some(code) = after_prefix(id, "speech:"@) {
        (SettingsView { speech_lang: code, ..s }, MenuEffect::SettingsChanged)
    } else if let Some(code) = after_prefix(id, "out:"@) {
        (SettingsView { output_lang: code, ..s }, MenuEffect::SettingsChanged)
    } else if id == "lang_pt_en"@ {
        (
            SettingsView {
                speech_lang: "pt"@,
                output_lang: if pt_en_on(s) { "same"@ } else { "en"@ },
                ..s
            },
            MenuEffect::SettingsChanged,
        )
    } else if id == "copy_last"@ {
        (s, MenuEffect::CopyLast)
    } else if id == "show"@ {
        (s, MenuEffect::ShowWindow)
    } else if id == "quit"@ {
        (s, MenuEffect::Quit)
    } else {
        (s, MenuEffect::Ignored)
    }
}

/// The rest of `id` after `prefix`, if `id` starts with it.
fn strip_prefix(id: &Vec<char>, prefix: &str) -> (r: Option<String>)
    ensures
        match r {
            Some(x) => after_prefix(id@, prefix@) == Some(x@),
            None => after_prefix(id@, prefix@) is None,
        },
{
    let p = chars_of(prefix);
    if chars_occur_at(id.as_slice(), p.as_slice(), 0) {
        let rest = sub_chars(id.as_slice(), p.len(), id.len());
        assert(rest@ =~= id@.skip(p@.len() as int));
        Some(string_from(rest.as_slice()))
    } else {
        None
    }
}

/// Applies a click on the tray menu item `id` to the settings.
pub fn apply_menu_event(s: &mut Settings, id: &str) -> (r: MenuEffect)
    ensures
        (final(s)@, r) == menu_effect(old(s)@, id@),
{
    let cs = chars_of(id);
    if let Some(name) = strip_prefix(&cs, "profile:") {
        s.active_profile = name;
        return MenuEffect::SettingsChanged;
    }
    if let Some(code) = strip_prefix(&cs, "speech:") {
        s.speech_lang = code;
        return MenuEffect::SettingsChanged;
    }
    if let Some(code) = strip_prefix(&cs, "out:") {
        s.output_lang = code;
        return MenuEffect::SettingsChanged;
    }
    if same_text(id, "lang_pt_en") {
        let on = same_text(s.speech_lang.as_str(), "pt") && same_text(s.output_lang.as_str(), "en");
        s.speech_lang = "pt".to_owned();
        s.output_lang = if on { "same".to_owned() } else { "en".to_owned() };
        MenuEffect::SettingsChanged
    } else if same_text(id, "copy_last") {
        MenuEffect::CopyLast
    } else if same_text(id, "show") {
        MenuEffect::ShowWindow
    } else if same_text(id, "quit") {
        MenuEffect::Quit
    } else {
        MenuEffect::Ignored
    }
}

/// The identifier of a profile's menu item.
pub fn profile_item_id(name: &str) -> (r: String)
    ensures
        r@ == "profile:"@ + name@,
{
    let mut id = "profile:".to_owned();
    id.append(name);
    id
}

/// The identifier of a language item (`speech` or `out` prefix).
pub fn language_item_id(prefix: &str, code: &str) -> (r: String)
    ensures
        r@ == prefix@ + ":"@ + code@,
{
    let mut id = prefix.to_owned();
    id.append(":");
    id.append(code);
    id
}

/// Whether the "spoken PT, written EN" item is checked.
pub fn pt_en_checked(s: &Settings) -> (r: bool)
    ensures
        r == pt_en_on(s@),
{
    same_text(s.speech_lang.as_str(), "pt") && same_text(s.output_lang.as_str(), "en")
}

/// Clicking the item of a profile makes that profile the active one and changes
/// nothing else.
pub proof fn lemma_profile_item_activates(s: SettingsView, name: Seq<char>)
    ensures
        menu_effect(s, "profile:"@ + name) == (
            SettingsView { active_profile: name, ..s },
            MenuEffect::SettingsChanged,
        ),
{
    let id = "profile:"@ + name;
    assert(id.subrange(0, "profile:"@.len() as int) =~= "profile:"@);
    assert(id.skip("profile:"@.len() as int) =~= name);
}

/// A click on "spoken PT, written EN" flips its check mark and always leaves the
/// speech language at Portuguese; two clicks from a checked state come back to it.
pub proof fn lemma_pt_en_toggle(s: SettingsView)
    ensures
        pt_en_on(menu_effect(s, "lang_pt_en"@).0) == !pt_en_on(s),
        menu_effect(s, "lang_pt_en"@).0.speech_lang == "pt"@,
        pt_en_on(s) ==> menu_effect(menu_effect(s, "lang_pt_en"@).0, "lang_pt_en"@).0 == s,
{
    reveal_strlit("lang_pt_en");
    reveal_strlit("profile:");
    reveal_strlit("speech:");
    reveal_strlit("out:");
    reveal_strlit("same");
    reveal_strlit("en");
    let id = "lang_pt_en"@;
    assert(!starts_with(id, "profile:"@)) by {
        assert(id[0] != "profile:"@[0]);
    }
    assert(!starts_with(id, "speech:"@)) by {
        assert(id[0] != "speech:"@[0]);
    }
    assert(!starts_with(id, "out:"@)) by {
        assert(id[0] != "out:"@[0]);
    }
    assert("same"@ != "en"@) by {
        assert("same"@.len() != "en"@.len());
    }
}

/// Whether the language item `code` under `prefix` ("speech" or "out") is checked.
pub open spec fn language_checked_spec(s: SettingsView, prefix: Seq<char>, code: Seq<char>) -> bool {
    if prefix == "speech"@ {
        s.speech_lang == code
    } else if prefix == "out"@ {
        s.output_lang == code
    } else {
        false
    }
}

/// Whether the item of the profile `name` is checked: it is the active profile.
pub fn profile_checked(s: &Settings, name: &str) -> (r: bool)
    ensures
        r == (s@.active_profile == name@),
{
    same_text(s.active_profile.as_str(), name)
}

/// Whether the language item `code` under `prefix` is checked: it is the current
/// speech language (`speech`) or output language (`out`).
pub fn language_checked(s: &Settings, prefix: &str, code: &str) -> (r: bool)
    ensures
        r == language_checked_spec(s@, prefix@, code@),
{
    if same_text(prefix, "speech") {
        same_text(s.speech_lang.as_str(), code)
    } else if same_text(prefix, "out") {
        same_text(s.output_lang.as_str(), code)
    } else {
        false
    }
}

/// Clicking a language item sets that language, and the clicked item is then the
/// checked one.
pub proof fn lemma_language_item_checks(s: SettingsView, prefix: Seq<char>, code: Seq<char>)
    requires
        prefix == "speech"@ || prefix == "out"@,
    ensures
        language_checked_spec(menu_effect(s, prefix + ":"@ + code).0, prefix, code),
        menu_effect(s, prefix + ":"@ + code).1 == MenuEffect::SettingsChanged,
{
    reveal_strlit("profile:");
    reveal_strlit("speech:");
    reveal_strlit("out:");
    reveal_strlit("speech");
    reveal_strlit("out");
    reveal_strlit(":");
    let id = prefix + ":"@ + code;
    assert(!starts_with(id, "profile:"@)) by {
        assert(id[0] != "profile:"@[0]);
    }
    if prefix == "speech"@ {
        assert(id.subrange(0, 7) =~= "speech:"@);
        assert(id.skip(7) =~= code);
    } else {
        assert(!starts_with(id, "speech:"@)) by {
            assert(id[0] != "speech:"@[0]);
        }
        assert(id.subrange(0, 4) =~= "out:"@);
        assert(id.skip(4) =~= code);
        assert("out"@ != "speech"@) by {
            assert("out"@.len() != "speech"@.len());
        }
    }
}

} // verus!
