//! Global hotkey tracking: hotkey parsing and the press/release state machine that
//! turns raw key events into Start / Stop / Cancel commands for the pipeline.
use std::collections::HashSet;
use vstd::prelude::*;
use crate::platform::{Platform, modifier_codes_on, key_code_on, modifier_group_on, key_from_name_on};
use crate::text::{
    chars_of, is_white_space, same_text, string_from, to_uppercase, trim, trim_chars, uppercase,
};

verus! {

broadcast use vstd::std_specs::hash::group_hash_axioms;

/// A command for the recording pipeline.
#[derive(Clone, Copy, Debug, PartialEq, Eq, Structural)]
pub enum Cmd {
    Start,
    Stop,
    Cancel,
}

/// The pieces of `s` between the occurrences of `sep` (what `str::split` yields:
/// always one more piece than there are separators).
pub open spec fn split_on(s: Seq<char>, sep: char) -> Seq<Seq<char>>
    decreases s.len(),
{
    if s.len() == 0 {
        seq![Seq::<char>::empty()]
    } else {
        let rest = split_on(s.drop_last(), sep);
        if s.last() == sep {
            rest.push(Seq::<char>::empty())
        } else {
            rest.update(rest.len() - 1, rest.last().push(s.last()))
        }
    }
}

pub proof fn lemma_split_on_nonempty(s: Seq<char>, sep: char)
    ensures
        split_on(s, sep).len() >= 1,
    decreases s.len(),
{
    if s.len() > 0 {
        lemma_split_on_nonempty(s.drop_last(), sep);
    }
}

/// The key name that a hotkey token stands for: trimmed and upper-cased.
pub open spec fn key_name(token: Seq<char>) -> Seq<char> {
    uppercase(trim(token))
}

/// The group of key codes of one hotkey token: a modifier's left and right keys,
/// or the single key it names.
pub open spec fn token_group(p: Platform, token: Seq<char>) -> Seq<u32> {
    match modifier_codes_on(p, key_name(token)) {
        Some(g) => g,
        None => seq![key_code_on(p, key_name(token))],
    }
}

/// The groups of a hotkey such as `"Ctrl+Win"`: one group per `+`-separated token;
/// the hotkey is held when every group has at least one of its keys down.
pub open spec fn hotkey_groups(p: Platform, s: Seq<char>) -> Seq<Seq<u32>> {
    split_on(s, '+').map_values(|t: Seq<char>| token_group(p, t))
}

/// The key code of a hotkey token.
fn token_codes(p: Platform, token: &[char]) -> (r: Vec<u32>)
    ensures
        r@ == token_group(p, token@),
{
    let trimmed = trim_chars(token);
    let s = string_from(trimmed.as_slice());
    let name = to_uppercase(s.as_str());
    match modifier_group_on(p, name.as_str()) {
        Some(g) => g,
        None => {
            let v = vec![key_from_name_on(p, name.as_str())];
            assert(v@ =~= seq![key_code_on(p, key_name(token@))]);
            v
        },
    }
}

/// Parses a hotkey description such as `"Ctrl+Win"` into groups of key codes.
pub fn parse_hotkey(p: Platform, s: &str) -> (r: Vec<Vec<u32>>)
    ensures
        r.deep_view() == hotkey_groups(p, s@),
        r@.len() >= 1,
{
    let cs = chars_of(s);
    let mut groups: Vec<Vec<u32>> = Vec::new();
    let mut cur: Vec<char> = Vec::new();
    let mut i: usize = 0;
    proof {
        assert(cs@.take(0) =~= Seq::<char>::empty());
    }
    while i < cs.len()
        invariant
            i <= cs@.len(),
            cs@ == s@,
            ({
                let pieces = split_on(cs@.take(i as int), '+');
                &&& pieces.len() == groups@.len() + 1
                &&& cur@ == pieces.last()
                &&& forall|k: int|
                    0 <= k < groups@.len() ==> #[trigger] groups@[k]@ == token_group(p, pieces[k])
            }),
        decreases cs@.len() - i,
    {
        let c = cs[i];
        proof {
            assert(cs@.take(i + 1).drop_last() =~= cs@.take(i as int));
            lemma_split_on_nonempty(cs@.take(i as int), '+');
        }
        if c == '+' {
            let g = token_codes(p, cur.as_slice());
            groups.push(g);
            cur = Vec::new();
        } else {
            cur.push(c);
        }
        i = i + 1;
    }
    let g = token_codes(p, cur.as_slice());
    groups.push(g);
    proof {
        assert(cs@.take(cs@.len() as int) =~= cs@);
        let pieces = split_on(s@, '+');
        assert(groups.deep_view() =~= hotkey_groups(p, s@)) by {
            assert forall|k: int| 0 <= k < groups@.len() implies groups.deep_view()[k]
                == hotkey_groups(p, s@)[k] by {
                assert(groups@[k]@ == token_group(p, pieces[k]));
            }
        }
    }
    groups
}

/// Every group of a parsed hotkey has at least one key, so any hotkey setting can be
/// held: a modifier stands for its left and right keys, any other token for one key.
pub proof fn lemma_hotkey_groups_nonempty(p: Platform, s: Seq<char>)
    ensures
        hotkey_groups(p, s).len() >= 1,
        forall|i: int| 0 <= i < hotkey_groups(p, s).len() ==> #[trigger] hotkey_groups(p, s)[i].len() >= 1,
{
    lemma_split_on_nonempty(s, '+');
    assert forall|i: int| 0 <= i < hotkey_groups(p, s).len() implies #[trigger] hotkey_groups(p, s)[i].len() >= 1 by {
        let t = split_on(s, '+')[i];
        assert(hotkey_groups(p, s)[i] == token_group(p, t));
    }
}

/// The cancel key of a setting: `None` when the setting is blank (cancelling off).
pub open spec fn cancel_code(p: Platform, s: Seq<char>) -> Option<u32> {
    if key_name(s).len() == 0 {
        None
    } else {
        Some(key_code_on(p, key_name(s)))
    }
}

/// Parses the cancel-key setting; an empty setting turns cancelling off.
pub fn parse_cancel_key(p: Platform, s: &str) -> (r: Option<u32>)
    ensures
        r == cancel_code(p, s@),
        r is None <==> trim(s@).len() == 0,
{
    let cs = chars_of(s);
    let trimmed = trim_chars(cs.as_slice());
    let t = string_from(trimmed.as_slice());
    let name = to_uppercase(t.as_str());
    let n = chars_of(name.as_str());
    if n.len() == 0 {
        return None;
    }
    Some(key_from_name_on(p, name.as_str()))
}

/// Keys currently held, and whether the hotkey is held and a dictation is running.
pub struct HookState {
    pub pressed: HashSet<u32>,
    pub active: bool,
    pub recording: bool,
}

/// The abstract state of the hotkey tracker.
pub struct HookModel {
    pub pressed: Set<u32>,
    pub active: bool,
    pub recording: bool,
}

impl View for HookState {
    type V = HookModel;

    open spec fn view(&self) -> HookModel {
        HookModel { pressed: self.pressed@, active: self.active, recording: self.recording }
    }
}

/// What the tracker works with: the hotkey groups, the cancel key and the mode.
pub struct HotkeyConfig {
    pub groups: Vec<Vec<u32>>,
    pub cancel: Option<u32>,
    /// `true` for the "toggle" mode (press to start, press again to stop);
    /// otherwise "hold" (record while the hotkey is held).
    pub toggle: bool,
}

/// True when every group has at least one of its keys held (and there is a group).
pub open spec fn satisfied(groups: Seq<Seq<u32>>, pressed: Set<u32>) -> bool {
    groups.len() > 0 && forall|i: int|
        0 <= i < groups.len() ==> #[trigger] group_held(groups[i], pressed)
}

/// One step of the tracker: the state after key `vk` went down (`down`) or up, and
/// the command it sends, if any.
pub open spec fn hook_step(
    m: HookModel,
    groups: Seq<Seq<u32>>,
    cancel: Option<u32>,
    toggle: bool,
    vk: u32,
    down: bool,
) -> (HookModel, Option<Cmd>) {
    let pressed = if down {
        m.pressed.insert(vk)
    } else {
        m.pressed.remove(vk)
    };
    if down && m.recording && cancel == Some(vk) {
        (HookModel { pressed, active: m.active, recording: false }, Some(Cmd::Cancel))
    } else {
        let sat = satisfied(groups, pressed);
        if sat && !m.active {
            if toggle {
                (
                    HookModel { pressed, active: true, recording: !m.recording },
                    Some(if m.recording { Cmd::Stop } else { Cmd::Start }),
                )
            } else {
                (HookModel { pressed, active: true, recording: true }, Some(Cmd::Start))
            }
        } else if !sat && m.active {
            if !toggle && m.recording {
                (HookModel { pressed, active: false, recording: false }, Some(Cmd::Stop))
            } else {
                (HookModel { pressed, active: false, recording: m.recording }, None)
            }
        } else {
            (HookModel { pressed, active: m.active, recording: m.recording }, None)
        }
    }
}

impl HookState {
    /// Nothing held, no dictation running.
    pub fn new() -> (r: HookState)
        ensures
            r@.pressed == Set::<u32>::empty(),
            !r.active,
            !r.recording,
    {
        HookState { pressed: HashSet::new(), active: false, recording: false }
    }
}

impl HotkeyConfig {
    /// The tracker configuration for the hotkey, cancel key and mode settings.
    pub fn new(p: Platform, hotkey: &str, cancel_key: &str, mode: &str) -> (r: HotkeyConfig)
        ensures
            r.groups.deep_view() == hotkey_groups(p, hotkey@),
            r.cancel == cancel_code(p, cancel_key@),
            r.cancel is None <==> trim(cancel_key@).len() == 0,
            r.toggle == (mode@ == "toggle"@),
    {
        HotkeyConfig {
            groups: parse_hotkey(p, hotkey),
            cancel: parse_cancel_key(p, cancel_key),
            toggle: same_text(mode, "toggle"),
        }
    }
}

/// True when at least one key of the group is held.
pub open spec fn group_held(g: Seq<u32>, pressed: Set<u32>) -> bool {
    exists|j: int| 0 <= j < g.len() && pressed.contains(#[trigger] g[j])
}

/// Whether one of the group's keys is held.
fn any_held(g: &Vec<u32>, pressed: &HashSet<u32>) -> (r: bool)
    ensures
        r == group_held(g@, pressed@),
{
    let mut j: usize = 0;
    while j < g.len()
        invariant
            j <= g@.len(),
            forall|jj: int| 0 <= jj < j ==> !pressed@.contains(#[trigger] g@[jj]),
        decreases g@.len() - j,
    {
        if pressed.contains(&g[j]) {
            assert(pressed@.contains(g@[j as int]));
            return true;
        }
        j = j + 1;
    }
    false
}

/// Whether every group has one of its keys held.
fn groups_satisfied(groups: &Vec<Vec<u32>>, pressed: &HashSet<u32>) -> (r: bool)
    ensures
        r == satisfied(groups.deep_view(), pressed@),
{
    let ghost gv = groups.deep_view();
    if groups.len() == 0 {
        return false;
    }
    let mut i: usize = 0;
    while i < groups.len()
        invariant
            gv == groups.deep_view(),
            gv.len() == groups@.len(),
            0 < groups@.len(),
            i <= groups@.len(),
            forall|k: int| 0 <= k < i ==> #[trigger] group_held(gv[k], pressed@),
        decreases groups@.len() - i,
    {
        let held = any_held(&groups[i], pressed);
        assert(gv[i as int] == groups@[i as int]@);
        if !held {
            assert(!group_held(gv[i as int], pressed@));
            return false;
        }
        i = i + 1;
    }
    true
}

/// Feeds one key event to the tracker and returns the command to send, if any.
///
/// The cancel key aborts a running dictation without inserting anything; in hold
/// mode the release that follows does not send a Stop.
pub fn handle_key(st: &mut HookState, cfg: &HotkeyConfig, vk: u32, down: bool) -> (r: Option<Cmd>)
    ensures
        (final(st)@, r) == hook_step(old(st)@, cfg.groups.deep_view(), cfg.cancel, cfg.toggle, vk, down),
{
    if down {
        st.pressed.insert(vk);
    } else {
        st.pressed.remove(&vk);
    }
    if down && st.recording && cfg.cancel == Some(vk) {
        st.recording = false;
        return Some(Cmd::Cancel);
    }
    let sat = groups_satisfied(&cfg.groups, &st.pressed);
    if sat && !st.active {
        st.active = true;
        if cfg.toggle {
            st.recording = !st.recording;
            Some(if st.recording { Cmd::Start } else { Cmd::Stop })
        } else {
            st.recording = true;
            Some(Cmd::Start)
        }
    } else if !sat && st.active {
        st.active = false;
        if !cfg.toggle && st.recording {
            st.recording = false;
            Some(Cmd::Stop)
        } else {
            None
        }
    } else {
        None
    }
}


/// In hold mode a dictation only runs while the hotkey is held (a toggle-mode
/// tracker has no such constraint).
pub open spec fn hook_consistent(m: HookModel, toggle: bool) -> bool {
    toggle || (m.recording ==> m.active)
}

/// One tracker step: a Start only begins a dictation that was not running, a Stop or
/// Cancel only ends one that was, no command leaves the dictation state as it was,
/// and a Cancel comes only from a press of the configured cancel key.
pub proof fn lemma_step_commands(
    m: HookModel,
    groups: Seq<Seq<u32>>,
    cancel: Option<u32>,
    toggle: bool,
    vk: u32,
    down: bool,
)
    requires
        hook_consistent(m, toggle),
    ensures
        ({
            let (m2, c) = hook_step(m, groups, cancel, toggle, vk, down);
            &&& hook_consistent(m2, toggle)
            &&& c == Some(Cmd::Start) ==> !m.recording && m2.recording
            &&& (c == Some(Cmd::Stop) || c == Some(Cmd::Cancel)) ==> m.recording && !m2.recording
            &&& c is None ==> m2.recording == m.recording
            &&& c == Some(Cmd::Cancel) ==> down && cancel == Some(vk)
        }),
{
}

/// The tracker fed a sequence of `(key, down)` events: the final state and the
/// commands sent, in order.
pub open spec fn hook_run(
    m: HookModel,
    groups: Seq<Seq<u32>>,
    cancel: Option<u32>,
    toggle: bool,
    events: Seq<(u32, bool)>,
) -> (HookModel, Seq<Cmd>)
    decreases events.len(),
{
    if events.len() == 0 {
        (m, Seq::<Cmd>::empty())
    } else {
        let (m1, cmds) = hook_run(m, groups, cancel, toggle, events.drop_last());
        let (m2, c) = hook_step(m1, groups, cancel, toggle, events.last().0, events.last().1);
        (
            m2,
            match c {
                Some(x) => cmds.push(x),
                None => cmds,
            },
        )
    }
}

/// Starts and ends alternate: even positions hold Start, odd positions Stop or Cancel.
pub open spec fn alternating(cmds: Seq<Cmd>) -> bool {
    forall|k: int| 0 <= k < cmds.len() ==> ((#[trigger] cmds[k] == Cmd::Start) <==> k % 2 == 0)
}

/// From an idle tracker, whatever keys are pressed and released, in either mode:
/// the commands sent alternate Start, then Stop or Cancel, then Start again, so no
/// Stop ever follows a Cancel and no dictation is started twice; and a dictation is
/// running exactly when the last command sent was a Start.
pub proof fn lemma_dictation_commands_alternate(
    m: HookModel,
    groups: Seq<Seq<u32>>,
    cancel: Option<u32>,
    toggle: bool,
    events: Seq<(u32, bool)>,
)
    requires
        !m.recording,
        hook_consistent(m, toggle),
    ensures
        ({
            let (m2, cmds) = hook_run(m, groups, cancel, toggle, events);
            &&& alternating(cmds)
            &&& m2.recording == (cmds.len() % 2 == 1)
            &&& hook_consistent(m2, toggle)
        }),
    decreases events.len(),
{
    if events.len() > 0 {
        lemma_dictation_commands_alternate(m, groups, cancel, toggle, events.drop_last());
        let (m1, cmds) = hook_run(m, groups, cancel, toggle, events.drop_last());
        lemma_step_commands(m1, groups, cancel, toggle, events.last().0, events.last().1);
        let (m2, c) = hook_step(m1, groups, cancel, toggle, events.last().0, events.last().1);
        if let Some(x) = c {
            assert forall|k: int| 0 <= k < cmds.push(x).len() implies ((#[trigger] cmds.push(x)[k]
                == Cmd::Start) <==> k % 2 == 0) by {
                if k < cmds.len() {
                    assert(cmds.push(x)[k] == cmds[k]);
                }
            }
        }
    }
}

/// Without a cancel key the tracker never sends Cancel, whatever the events.
pub proof fn lemma_no_cancel_key_never_cancels(
    m: HookModel,
    groups: Seq<Seq<u32>>,
    toggle: bool,
    events: Seq<(u32, bool)>,
)
    ensures
        !hook_run(m, groups, None, toggle, events).1.contains(Cmd::Cancel),
    decreases events.len(),
{
    if events.len() > 0 {
        lemma_no_cancel_key_never_cancels(m, groups, toggle, events.drop_last());
        let (m1, cmds) = hook_run(m, groups, None, toggle, events.drop_last());
        let (m2, c) = hook_step(m1, groups, None, toggle, events.last().0, events.last().1);
        if let Some(x) = c {
            assert(x != Cmd::Cancel);
            assert forall|k: int| 0 <= k < cmds.push(x).len() implies cmds.push(x)[k]
                != Cmd::Cancel by {
                if k < cmds.len() {
                    assert(cmds.push(x)[k] == cmds[k]);
                    assert(!cmds.contains(Cmd::Cancel));
                }
            }
        }
    }
}

/// The first three characters of each modifier name (they tell the names apart).
proof fn lemma_modifier_name_chars()
    ensures
        "CTRL"@.len() == 4 && "CTRL"@[0] == 'C' && "CTRL"@[1] == 'T' && "CTRL"@[2] == 'R',
        "CONTROL"@.len() == 7 && "CONTROL"@[0] == 'C' && "CONTROL"@[1] == 'O' && "CONTROL"@[2] == 'N',
        "ALT"@.len() == 3 && "ALT"@[0] == 'A' && "ALT"@[1] == 'L' && "ALT"@[2] == 'T',
        "OPTION"@.len() == 6 && "OPTION"@[0] == 'O' && "OPTION"@[1] == 'P' && "OPTION"@[2] == 'T',
        "OPT"@.len() == 3 && "OPT"@[0] == 'O' && "OPT"@[1] == 'P' && "OPT"@[2] == 'T',
        "WIN"@.len() == 3 && "WIN"@[0] == 'W' && "WIN"@[1] == 'I' && "WIN"@[2] == 'N',
        "META"@.len() == 4 && "META"@[0] == 'M' && "META"@[1] == 'E' && "META"@[2] == 'T',
        "SUPER"@.len() == 5 && "SUPER"@[0] == 'S' && "SUPER"@[1] == 'U' && "SUPER"@[2] == 'P',
        "CMD"@.len() == 3 && "CMD"@[0] == 'C' && "CMD"@[1] == 'M' && "CMD"@[2] == 'D',
        "COMMAND"@.len() == 7 && "COMMAND"@[0] == 'C' && "COMMAND"@[1] == 'O' && "COMMAND"@[2] == 'M',
        "SHIFT"@.len() == 5 && "SHIFT"@[0] == 'S' && "SHIFT"@[1] == 'H' && "SHIFT"@[2] == 'I',
{
    reveal_strlit("CTRL");
    reveal_strlit("CONTROL");
    reveal_strlit("ALT");
    reveal_strlit("OPTION");
    reveal_strlit("OPT");
    reveal_strlit("WIN");
    reveal_strlit("META");
    reveal_strlit("SUPER");
    reveal_strlit("CMD");
    reveal_strlit("COMMAND");
    reveal_strlit("SHIFT");
}

/// What the law on modifier names says of one token named `n` and its group `g`.
pub open spec fn modifier_token_keys(p: Platform, n: Seq<char>, g: Seq<u32>) -> bool {
    &&& (n == "CTRL"@ || n == "CONTROL"@) ==> g == match p {
        Platform::Windows => seq![0xA2u32, 0xA3u32],
        Platform::MacOs => seq![59u32, 62u32],
    }
    &&& (n == "ALT"@ || n == "OPTION"@ || n == "OPT"@) ==> g == match p {
        Platform::Windows => seq![0xA4u32, 0xA5u32],
        Platform::MacOs => seq![58u32, 61u32],
    }
    &&& (n == "WIN"@ || n == "META"@ || n == "SUPER"@ || n == "CMD"@ || n == "COMMAND"@) ==> g
        == match p {
        Platform::Windows => seq![0x5Bu32, 0x5Cu32],
        Platform::MacOs => seq![55u32, 54u32],
    }
    &&& n == "SHIFT"@ ==> g == match p {
        Platform::Windows => seq![0xA0u32, 0xA1u32],
        Platform::MacOs => seq![56u32, 60u32],
    }
    &&& !(n == "CTRL"@ || n == "CONTROL"@ || n == "ALT"@ || n == "OPTION"@ || n == "OPT"@ || n
        == "WIN"@ || n == "META"@ || n == "SUPER"@ || n == "CMD"@ || n == "COMMAND"@ || n
        == "SHIFT"@) ==> g == seq![key_code_on(p, n)]
}

/// The keys that a modifier of the hotkey setting stands for, whatever way it is
/// written: on Windows Ctrl/Control is VK_LCONTROL/VK_RCONTROL, Alt/Option/Opt is
/// VK_LMENU/VK_RMENU, Win/Meta/Super/Cmd/Command is VK_LWIN/VK_RWIN and Shift is
/// VK_LSHIFT/VK_RSHIFT; on macOS the same names give the left and right Control,
/// Option, Command and Shift key codes. Any other token is one key.
pub proof fn lemma_modifier_tokens(p: Platform, s: Seq<char>)
    ensures
        forall|i: int|
            0 <= i < hotkey_groups(p, s).len() ==> modifier_token_keys(
                p,
                #[trigger] key_name(split_on(s, '+')[i]),
                hotkey_groups(p, s)[i],
            ),
{
    assert forall|i: int| 0 <= i < hotkey_groups(p, s).len() implies modifier_token_keys(
        p,
        #[trigger] key_name(split_on(s, '+')[i]),
        hotkey_groups(p, s)[i],
    ) by {
        let t = split_on(s, '+')[i];
        assert(hotkey_groups(p, s)[i] == token_group(p, t));
        lemma_modifier_name_chars();
        let n = key_name(t);
        if n.len() >= 3 {
            assert(n[0] == n[0] && n[1] == n[1] && n[2] == n[2]);
        }
    }
}

/// A Ctrl+Alt hotkey on Windows is held with one Ctrl key and one Alt key (either
/// side), and on macOS with one Control and one Option key: the two groups,
/// whatever spacing or letter case the setting uses around the two names.
pub proof fn lemma_ctrl_alt_groups(p: Platform, s: Seq<char>)
    requires
        split_on(s, '+').len() == 2,
        key_name(split_on(s, '+')[0]) == "CTRL"@,
        key_name(split_on(s, '+')[1]) == "ALT"@,
    ensures
        hotkey_groups(p, s) == match p {
            Platform::Windows => seq![seq![0xA2u32, 0xA3u32], seq![0xA4u32, 0xA5u32]],
            Platform::MacOs => seq![seq![59u32, 62u32], seq![58u32, 61u32]],
        },
{
    lemma_modifier_tokens(p, s);
    let g = hotkey_groups(p, s);
    assert(key_name(split_on(s, '+')[0]) == "CTRL"@);
    assert(key_name(split_on(s, '+')[1]) == "ALT"@);
    reveal_strlit("CTRL");
    reveal_strlit("ALT");
    reveal_strlit("CONTROL");
    reveal_strlit("OPTION");
    reveal_strlit("OPT");
    reveal_strlit("WIN");
    reveal_strlit("META");
    reveal_strlit("SUPER");
    reveal_strlit("CMD");
    reveal_strlit("COMMAND");
    reveal_strlit("SHIFT");
    match p {
        Platform::Windows => {
            assert(g =~= seq![seq![0xA2u32, 0xA3u32], seq![0xA4u32, 0xA5u32]]);
        },
        Platform::MacOs => {
            assert(g =~= seq![seq![59u32, 62u32], seq![58u32, 61u32]]);
        },
    }
}

} // verus!
