use std::collections::VecDeque;

use openflow::hotkey::{handle_key, parse_cancel_key, parse_hotkey, Cmd, HookState, HotkeyConfig};
use openflow::platform::{key_from_name_on, Platform};
use openflow::settings::Settings;

struct Hook {
    st: HookState,
    cfg: HotkeyConfig,
    sent: VecDeque<Cmd>,
}

impl Hook {
    fn key(&mut self, vk: u32, down: bool) {
        if let Some(c) = handle_key(&mut self.st, &self.cfg, vk, down) {
            self.sent.push_back(c);
        }
    }
    fn try_recv(&mut self) -> Option<Cmd> {
        self.sent.pop_front()
    }
}

const PLATFORMS: [Platform; 2] = [Platform::Windows, Platform::MacOs];

fn hook(p: Platform, mode: &str, cancel: &str) -> Hook {
    let s = Settings::default_for(p, "");
    Hook {
        st: HookState::new(),
        cfg: HotkeyConfig::new(p, &s.hotkey, cancel, mode),
        sent: VecDeque::new(),
    }
}

/// primeiro grupo do atalho padrão (Ctrl) e segundo (Win/Cmd)
fn hotkey_codes(h: &Hook) -> (u32, u32) {
    (h.cfg.groups[0][0], h.cfg.groups[1][0])
}

#[test]
fn cancelar_no_hold_nao_dispara_stop_ao_soltar() {
    for p in PLATFORMS {
        let mut h = hook(p, "hold", "SPACE");
        let (ctrl, win) = hotkey_codes(&h);
        let space = key_from_name_on(p, "SPACE");

        h.key(ctrl, true);
        h.key(win, true);
        assert!(matches!(h.try_recv(), Some(Cmd::Start)));

        h.key(space, true);
        assert!(matches!(h.try_recv(), Some(Cmd::Cancel)));

        // soltar o atalho depois do cancelamento não pode mandar o áudio para o STT
        h.key(space, false);
        h.key(win, false);
        h.key(ctrl, false);
        assert!(h.try_recv().is_none(), "Stop fantasma depois de cancelar");

        // e o próximo ditado continua funcionando
        h.key(ctrl, true);
        h.key(win, true);
        assert!(matches!(h.try_recv(), Some(Cmd::Start)));
    }
}

#[test]
fn cancelar_no_toggle_permite_novo_ditado() {
    for p in PLATFORMS {
        let mut h = hook(p, "toggle", "ESC");
        let (ctrl, win) = hotkey_codes(&h);
        let esc = key_from_name_on(p, "ESC");

        h.key(ctrl, true);
        h.key(win, true);
        h.key(win, false);
        h.key(ctrl, false);
        assert!(matches!(h.try_recv(), Some(Cmd::Start)));

        h.key(esc, true);
        h.key(esc, false);
        assert!(matches!(h.try_recv(), Some(Cmd::Cancel)));

        h.key(ctrl, true);
        h.key(win, true);
        assert!(matches!(h.try_recv(), Some(Cmd::Start)), "toggle travado depois do cancelamento");
    }
}

#[test]
fn cancelamento_desativado_ignora_a_tecla() {
    for p in PLATFORMS {
        let mut h = hook(p, "hold", "");
        let (ctrl, win) = hotkey_codes(&h);
        h.key(ctrl, true);
        h.key(win, true);
        assert!(matches!(h.try_recv(), Some(Cmd::Start)));

        h.key(key_from_name_on(p, "SPACE"), true);
        assert!(h.try_recv().is_none());

        h.key(win, false);
        assert!(matches!(h.try_recv(), Some(Cmd::Stop)));
    }
}

#[test]
fn hotkey_parsing_per_platform() {
    assert_eq!(parse_hotkey(Platform::Windows, "Ctrl+Win"), vec![vec![0xA2, 0xA3], vec![0x5B, 0x5C]]);
    assert_eq!(parse_hotkey(Platform::MacOs, "Ctrl+Option"), vec![vec![59, 62], vec![58, 61]]);
    // names are trimmed and upper-cased
    assert_eq!(parse_hotkey(Platform::Windows, " shift + f5 "), vec![vec![0xA0, 0xA1], vec![0x74]]);
    // unknown names mean F9; an empty piece as well
    assert_eq!(parse_hotkey(Platform::Windows, "Foo"), vec![vec![0x78]]);
    assert_eq!(parse_hotkey(Platform::MacOs, "Cmd+"), vec![vec![55, 54], vec![101]]);
    assert_eq!(parse_cancel_key(Platform::Windows, " esc "), Some(0x1B));
    assert_eq!(parse_cancel_key(Platform::MacOs, "ESC"), Some(53));
    assert_eq!(parse_cancel_key(Platform::MacOs, "   "), None);
}

#[test]
fn hold_mode_commands_alternate() {
    let mut h = hook(Platform::Windows, "hold", "ESC");
    let (ctrl, win) = hotkey_codes(&h);
    let esc = key_from_name_on(Platform::Windows, "ESC");
    // right-hand keys of the groups work too
    h.key(0xA3, true);
    h.key(0x5C, true);
    h.key(0x5C, false);
    h.key(ctrl, true);
    h.key(win, true);
    h.key(esc, true);
    h.key(esc, true);
    h.key(win, false);
    h.key(win, true);
    h.key(win, false);
    let sent: Vec<Cmd> = h.sent.drain(..).collect();
    assert_eq!(sent, vec![Cmd::Start, Cmd::Stop, Cmd::Start, Cmd::Cancel, Cmd::Start, Cmd::Stop]);
    assert!(!h.st.recording);
}

#[test]
fn toggle_mode_press_starts_press_again_stops() {
    let mut h = hook(Platform::MacOs, "toggle", "ESC");
    let (ctrl, opt) = hotkey_codes(&h);
    for _ in 0..2 {
        h.key(ctrl, true);
        h.key(opt, true);
        h.key(opt, false);
        h.key(ctrl, false);
    }
    let sent: Vec<Cmd> = h.sent.drain(..).collect();
    assert_eq!(sent, vec![Cmd::Start, Cmd::Stop]);
    // the cancel key does nothing while no dictation runs
    h.key(key_from_name_on(Platform::MacOs, "ESC"), true);
    assert!(h.try_recv().is_none());
}
