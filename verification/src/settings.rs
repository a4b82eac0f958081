//! Settings: writing profiles, snippets, defaults, and how API keys are kept on disk.
use vstd::prelude::*;
use crate::platform::Platform;
use crate::text::{starts_with, same_text, chars_of, chars_occur_at, sub_chars, string_from};

verus! {

broadcast use vstd::string::group_string_axioms;

/// A writing profile: a name and the style instruction given to the rewriter.
pub struct Profile {
    pub name: String,
    pub style: String,
}

/// The text of a profile.
pub struct ProfileView {
    pub name: Seq<char>,
    pub style: Seq<char>,
}

impl View for Profile {
    type V = ProfileView;

    open spec fn view(&self) -> ProfileView {
        ProfileView { name: self.name@, style: self.style@ }
    }
}

/// A text snippet: where `trigger` is dictated, `text` is inserted instead.
pub struct Snippet {
    pub trigger: String,
    pub text: String,
}

/// The text of a snippet.
pub struct SnippetView {
    pub trigger: Seq<char>,
    pub text: Seq<char>,
}

impl View for Snippet {
    type V = SnippetView;

    open spec fn view(&self) -> SnippetView {
        SnippetView { trigger: self.trigger@, text: self.text@ }
    }
}

/// Everything the user configures.
pub struct Settings {
    pub hotkey: String,
    pub cancel_key: String,
    pub mode: String,
    pub mic: Option<String>,
    pub stt_provider: String,
    pub groq_api_key: Option<String>,
    pub groq_model: String,
    pub speech_lang: String,
    pub output_lang: String,
    pub gemini_model: String,
    pub gemini_api_key: Option<String>,
    pub wave_style: String,
    pub theme: String,
    pub profiles: Vec<Profile>,
    pub active_profile: String,
    pub dictionary: Vec<String>,
    pub snippets: Vec<Snippet>,
    pub history_enabled: bool,
    pub python: String,
    pub sidecar: String,
    pub stt_port: u16,
}

/// The characters of an optional string.
pub open spec fn opt_view(o: Option<String>) -> Option<Seq<char>> {
    match o {
        Some(s) => Some(s@),
        None => None,
    }
}

/// The content of the settings.
pub struct SettingsView {
    pub hotkey: Seq<char>,
    pub cancel_key: Seq<char>,
    pub mode: Seq<char>,
    pub mic: Option<Seq<char>>,
    pub stt_provider: Seq<char>,
    pub groq_api_key: Option<Seq<char>>,
    pub groq_model: Seq<char>,
    pub speech_lang: Seq<char>,
    pub output_lang: Seq<char>,
    pub gemini_model: Seq<char>,
    pub gemini_api_key: Option<Seq<char>>,
    pub wave_style: Seq<char>,
    pub theme: Seq<char>,
    pub profiles: Seq<ProfileView>,
    pub active_profile: Seq<char>,
    pub dictionary: Seq<Seq<char>>,
    pub snippets: Seq<SnippetView>,
    pub history_enabled: bool,
    pub python: Seq<char>,
    pub sidecar: Seq<char>,
    pub stt_port: u16,
}

impl View for Settings {
    type V = SettingsView;

    open spec fn view(&self) -> SettingsView {
        SettingsView {
            hotkey: self.hotkey@,
            cancel_key: self.cancel_key@,
            mode: self.mode@,
            mic: opt_view(self.mic),
            stt_provider: self.stt_provider@,
            groq_api_key: opt_view(self.groq_api_key),
            groq_model: self.groq_model@,
            speech_lang: self.speech_lang@,
            output_lang: self.output_lang@,
            gemini_model: self.gemini_model@,
            gemini_api_key: opt_view(self.gemini_api_key),
            wave_style: self.wave_style@,
            theme: self.theme@,
            profiles: self.profiles@.map_values(|p: Profile| p@),
            active_profile: self.active_profile@,
            dictionary: self.dictionary@.map_values(|d: String| d@),
            snippets: self.snippets@.map_values(|s: Snippet| s@),
            history_enabled: self.history_enabled,
            python: self.python@,
            sidecar: self.sidecar@,
            stt_port: self.stt_port,
        }
    }
}

/// The profiles offered out of the box.
pub open spec fn default_profiles_view() -> Seq<ProfileView> {
    seq![
        ProfileView {
            name: "Bruto corrigido"@,
            style: "coringa do dia a dia (resposta de conversa, WhatsApp, prompt para IA): texto natural com o tom e as palavras do falante preservados."@,
        },
        ProfileView {
            name: "Jurídico formal"@,
            style: "certidão ou comunicação de oficial de justiça, linguagem jurídica formal brasileira (ex.: \"Certifico e dou fé que...\", \"genitor\", \"Ante o exposto, devolvo o presente mandado\")."@,
        },
        ProfileView {
            name: "E-mail profissional"@,
            style: "e-mail profissional claro e cordial, com saudação e fecho quando fizer sentido. Aqui pode reescrever para deixar formal: cada ideia em sua própria linha, separadas por linha em branco, no padrão corporativo."@,
        },
        ProfileView {
            name: "WhatsApp curto"@,
            style: "mensagem curta e informal de WhatsApp, direta, sem formalidade excessiva."@,
        },
        ProfileView {
            name: "Roteiro de vídeo"@,
            style: "roteiro falado para vídeo do YouTube: frases curtas, ritmo de fala natural, tom de conversa."@,
        },
    ]
}

fn profile(name: &str, style: &str) -> (r: Profile)
    ensures
        r@ == (ProfileView { name: name@, style: style@ }),
{
    Profile { name: name.to_owned(), style: style.to_owned() }
}

/// The profiles offered out of the box, "Bruto corrigido" first.
pub fn default_profiles() -> (r: Vec<Profile>)
    ensures
        r@.map_values(|p: Profile| p@) == default_profiles_view(),
{
    let mut v: Vec<Profile> = Vec::new();
    v.push(profile("Bruto corrigido", "coringa do dia a dia (resposta de conversa, WhatsApp, prompt para IA): texto natural com o tom e as palavras do falante preservados."));
    v.push(profile("Jurídico formal", "certidão ou comunicação de oficial de justiça, linguagem jurídica formal brasileira (ex.: \"Certifico e dou fé que...\", \"genitor\", \"Ante o exposto, devolvo o presente mandado\")."));
    v.push(profile("E-mail profissional", "e-mail profissional claro e cordial, com saudação e fecho quando fizer sentido. Aqui pode reescrever para deixar formal: cada ideia em sua própria linha, separadas por linha em branco, no padrão corporativo."));
    v.push(profile("WhatsApp curto", "mensagem curta e informal de WhatsApp, direta, sem formalidade excessiva."));
    v.push(profile("Roteiro de vídeo", "roteiro falado para vídeo do YouTube: frases curtas, ritmo de fala natural, tom de conversa."));
    assert(v@.map_values(|p: Profile| p@) =~= default_profiles_view());
    v
}

/// The default hotkey: Ctrl+Win on Windows; Ctrl+Option on macOS, the emptiest
/// combination there (Ctrl+Cmd+letter triggers system shortcuts such as the lock screen).
pub open spec fn default_hotkey_view(p: Platform) -> Seq<char> {
    match p {
        Platform::Windows => "Ctrl+Win"@,
        Platform::MacOs => "Ctrl+Option"@,
    }
}

/// The default hotkey of the platform.
pub fn default_hotkey(p: Platform) -> (r: String)
    ensures
        r@ == default_hotkey_view(p),
{
    match p {
        Platform::Windows => "Ctrl+Win".to_owned(),
        Platform::MacOs => "Ctrl+Option".to_owned(),
    }
}

/// `base` with the relative path `rel` adjoined, as `Path::join` does on Unix: a `/`
/// goes between them unless `base` is empty or already ends with one.
pub open spec fn unix_join(base: Seq<char>, rel: Seq<char>) -> Seq<char> {
    if base.len() == 0 || base.last() == '/' {
        base + rel
    } else {
        base + seq!['/'] + rel
    }
}

fn join_unix(base: &str, rel: &str) -> (r: String)
    ensures
        r@ == unix_join(base@, rel@),
{
    let b = chars_of(base);
    let mut out = base.to_owned();
    if b.len() > 0 && b[b.len() - 1] != '/' {
        out.append("/");
        proof {
            reveal_strlit("/");
        }
    }
    out.append(rel);
    out
}

/// Default interpreter and script of the local transcription sidecar: fixed paths
/// on Windows, paths under the home directory on macOS.
pub open spec fn default_sidecar_view(p: Platform, home: Seq<char>) -> (Seq<char>, Seq<char>) {
    match p {
        Platform::Windows => (
            "C:\\dev\\open-flow\\.venv\\Scripts\\python.exe"@,
            "C:\\dev\\open-flow\\sidecar\\stt_server.py"@,
        ),
        Platform::MacOs => (
            unix_join(home, "dev/open-flow/.venv/bin/python"@),
            unix_join(home, "dev/open-flow/sidecar/stt_server.py"@),
        ),
    }
}

/// Default sidecar paths; `home` is the user's home directory (empty when unknown),
/// used on macOS only.
pub fn default_sidecar_paths(p: Platform, home: &str) -> (r: (String, String))
    ensures
        (r.0@, r.1@) == default_sidecar_view(p, home@),
{
    match p {
        Platform::Windows => (
            "C:\\dev\\open-flow\\.venv\\Scripts\\python.exe".to_owned(),
            "C:\\dev\\open-flow\\sidecar\\stt_server.py".to_owned(),
        ),
        Platform::MacOs => (
            join_unix(home, "dev/open-flow/.venv/bin/python"),
            join_unix(home, "dev/open-flow/sidecar/stt_server.py"),
        ),
    }
}

/// The settings of a first run.
pub open spec fn default_settings_view(p: Platform, home: Seq<char>) -> SettingsView {
    SettingsView {
        hotkey: default_hotkey_view(p),
        cancel_key: "ESC"@,
        mode: "hold"@,
        mic: None,
        stt_provider: "groq"@,
        groq_api_key: None,
        groq_model: "whisper-large-v3-turbo"@,
        speech_lang: "pt"@,
        output_lang: "same"@,
        gemini_model: "gemini-3.5-flash-lite"@,
        gemini_api_key: None,
        wave_style: "tech"@,
        theme: "dark"@,
        profiles: default_profiles_view(),
        active_profile: "Bruto corrigido"@,
        dictionary: Seq::empty(),
        snippets: Seq::empty(),
        history_enabled: true,
        python: default_sidecar_view(p, home).0,
        sidecar: default_sidecar_view(p, home).1,
        stt_port: 17765,
    }
}

impl Settings {
    /// The settings of a first run on platform `p` (`home` as for
    /// [`default_sidecar_paths`]). The cancel key is Esc, not Space: with the hotkey
    /// held, Space makes a system shortcut that switches the keyboard layout.
    pub fn default_for(p: Platform, home: &str) -> (r: Settings)
        ensures
            r@ == default_settings_view(p, home@),
    {
        let (python, sidecar) = default_sidecar_paths(p, home);
        let r = Settings {
            hotkey: default_hotkey(p),
            cancel_key: "ESC".to_owned(),
            mode: "hold".to_owned(),
            mic: None,
            stt_provider: "groq".to_owned(),
            groq_api_key: None,
            groq_model: "whisper-large-v3-turbo".to_owned(),
            speech_lang: "pt".to_owned(),
            output_lang: "same".to_owned(),
            gemini_model: "gemini-3.5-flash-lite".to_owned(),
            gemini_api_key: None,
            wave_style: "tech".to_owned(),
            theme: "dark".to_owned(),
            profiles: default_profiles(),
            active_profile: "Bruto corrigido".to_owned(),
            dictionary: Vec::new(),
            snippets: Vec::new(),
            history_enabled: true,
            python,
            sidecar,
            stt_port: 17765,
        };
        assert(r@.dictionary =~= Seq::empty());
        assert(r@.snippets =~= Seq::empty());
        r
    }

    /// The Groq key, when set (and not empty).
    pub fn groq_key(&self) -> (r: Option<String>)
        ensures
            opt_view(r) == match self.groq_api_key {
                Some(k) => if k@.len() > 0 { Some(k@) } else { None },
                None => None,
            },
    {
        match &self.groq_api_key {
            Some(k) => if k.as_str().is_empty() {
                None
            } else {
                Some(k.clone())
            },
            None => None,
        }
    }

    /// Whether a Groq key is set (and not empty).
    pub fn groq_ready(&self) -> (r: bool)
        ensures
            r == (self.groq_api_key matches Some(k) && k@.len() > 0),
    {
        match &self.groq_api_key {
            Some(k) => !k.as_str().is_empty(),
            None => false,
        }
    }
}

/// How a key is written to disk, given what the platform's protection gave for it
/// (`protected`): an empty key is dropped; a key already in the `enc:` form stays as
/// it is; otherwise the protected text under `enc:`, or the key itself when the
/// platform protected nothing.
pub open spec fn stored_key(v: Option<Seq<char>>, protected: Option<Seq<char>>) -> Option<
    Seq<char>,
> {
    match v {
        None => None,
        Some(s) => if s.len() == 0 {
            None
        } else if starts_with(s, "enc:"@) {
            Some(s)
        } else {
            match protected {
                Some(b) => Some("enc:"@ + b),
                None => Some(s),
            }
        },
    }
}

/// How a stored key is read back, given what the platform's unprotection gave for
/// the text after `enc:` (`unprotected`): an `enc:` key becomes that text (empty when
/// it gave nothing), any other key stays; an empty result means no key.
pub open spec fn loaded_key(stored: Option<Seq<char>>, unprotected: Option<Seq<char>>) -> Option<
    Seq<char>,
> {
    match stored {
        None => None,
        Some(s) => {
            let v = if starts_with(s, "enc:"@) {
                match unprotected {
                    Some(u) => u,
                    None => Seq::<char>::empty(),
                }
            } else {
                s
            };
            if v.len() == 0 {
                None
            } else {
                Some(v)
            }
        },
    }
}

/// `p` is what `protect` returned for the key `v` under `name`, where a protection
/// is asked for (a non-empty key not yet in the `enc:` form); `None` elsewhere.
pub open spec fn sealed_by<F: Fn(&str, &str) -> Option<String>>(
    protect: F,
    name: &str,
    v: Option<Seq<char>>,
    p: Option<Seq<char>>,
) -> bool {
    match v {
        Some(s) => if s.len() > 0 && !starts_with(s, "enc:"@) {
            exists|arg: &str, o: Option<String>|
                arg@ == s && #[trigger] protect.ensures((name, arg), o) && p == opt_view(o)
        } else {
            p is None
        },
        None => p is None,
    }
}

/// `u` is what `unprotect` returned for the text after `enc:` of the stored key,
/// where the key has that form; `None` elsewhere.
pub open spec fn opened_by<F: Fn(&str, &str) -> Option<String>>(
    unprotect: F,
    name: &str,
    stored: Option<Seq<char>>,
    u: Option<Seq<char>>,
) -> bool {
    match stored {
        Some(s) => if starts_with(s, "enc:"@) {
            exists|arg: &str, o: Option<String>|
                arg@ == s.skip(4) && #[trigger] unprotect.ensures((name, arg), o) && u == opt_view(
                    o,
                )
        } else {
            u is None
        },
        None => u is None,
    }
}

fn clone_opt(o: &Option<String>) -> (r: Option<String>)
    ensures
        opt_view(r) == opt_view(*o),
{
    match o {
        Some(s) => Some(s.clone()),
        None => None,
    }
}

/// Whether `s` starts with `enc:`.
fn has_enc_prefix(s: &str) -> (r: bool)
    ensures
        r == starts_with(s@, "enc:"@),
{
    let cs = chars_of(s);
    let p = chars_of("enc:");
    chars_occur_at(cs.as_slice(), p.as_slice(), 0)
}

/// The form in which an API key is written to disk: protected by the platform under
/// the `enc:` prefix when the platform can (`protect` gets the item name and the key).
pub fn encrypt_key<F: Fn(&str, &str) -> Option<String>>(
    name: &str,
    v: &Option<String>,
    protect: &F,
) -> (r: Option<String>)
    requires
        forall|n: &str, k: &str| #[trigger] protect.requires((n, k)),
    ensures
        exists|p: Option<Seq<char>>|
            #[trigger] sealed_by(*protect, name, opt_view(*v), p) && opt_view(r) == stored_key(
                opt_view(*v),
                p,
            ),
{
    let ghost mut p: Option<Seq<char>> = None;
    let r = match v {
        None => None,
        Some(s) => {
            if s.as_str().is_empty() {
                None
            } else if has_enc_prefix(s.as_str()) {
                Some(s.clone())
            } else {
                let arg = s.as_str();
                let o = protect(name, arg);
                proof {
                    p = opt_view(o);
                }
                match o {
                    Some(b) => {
                        let mut out = "enc:".to_owned();
                        out.append(b.as_str());
                        Some(out)
                    },
                    None => Some(s.clone()),
                }
            }
        },
    };
    assert(sealed_by(*protect, name, opt_view(*v), p) && opt_view(r) == stored_key(
        opt_view(*v),
        p,
    ));
    r
}

/// An API key as read from disk: the `enc:` form is unprotected by the platform
/// (`unprotect` gets the item name and the text after the prefix); an empty result
/// means no key.
pub fn decrypt_key<F: Fn(&str, &str) -> Option<String>>(
    name: &str,
    v: &Option<String>,
    unprotect: &F,
) -> (r: Option<String>)
    requires
        forall|n: &str, k: &str| #[trigger] unprotect.requires((n, k)),
    ensures
        exists|u: Option<Seq<char>>|
            #[trigger] opened_by(*unprotect, name, opt_view(*v), u) && opt_view(r) == loaded_key(
                opt_view(*v),
                u,
            ),
{
    proof {
        reveal_strlit("enc:");
    }
    let ghost mut u: Option<Seq<char>> = None;
    let r = match v {
        None => None,
        Some(s) => {
            let value;
            if has_enc_prefix(s.as_str()) {
                let cs = chars_of(s.as_str());
                let rest = string_from(sub_chars(cs.as_slice(), 4, cs.len()).as_slice());
                let arg = rest.as_str();
                assert(arg@ == s@.skip(4));
                let o = unprotect(name, arg);
                proof {
                    u = opt_view(o);
                }
                value = match o {
                    Some(x) => x,
                    None => String::new(),
                };
            } else {
                value = s.clone();
            }
            if value.as_str().is_empty() {
                None
            } else {
                Some(value)
            }
        },
    };
    assert(opened_by(*unprotect, name, opt_view(*v), u) && opt_view(r) == loaded_key(
        opt_view(*v),
        u,
    ));
    r
}

/// For a key that is not empty and not already in the `enc:` form, when the
/// platform's unprotection gives back what its protection sealed (always so on
/// macOS, where nothing is sealed), reading what was written gives the key back;
/// a missing or empty key reads back as no key.
pub proof fn lemma_key_round_trip(
    v: Option<Seq<char>>,
    protected: Option<Seq<char>>,
    unprotected: Option<Seq<char>>,
)
    requires
        v matches Some(s) ==> !starts_with(s, "enc:"@),
        protected is Some ==> unprotected == v,
    ensures
        loaded_key(stored_key(v, protected), unprotected) == (match v {
            Some(s) => if s.len() == 0 { None } else { Some(s) },
            None => None,
        }),
{
    reveal_strlit("enc:");
    if let Some(s) = v {
        if s.len() > 0 {
            if let Some(b) = protected {
                let st = "enc:"@ + b;
                assert(st.subrange(0, 4) =~= "enc:"@);
            }
        }
    }
}

fn clone_profiles(v: &Vec<Profile>) -> (r: Vec<Profile>)
    ensures
        r@.map_values(|p: Profile| p@) == v@.map_values(|p: Profile| p@),
{
    let mut out: Vec<Profile> = Vec::new();
    let mut i: usize = 0;
    while i < v.len()
        invariant
            i <= v@.len(),
            out@.map_values(|p: Profile| p@) == v@.take(i as int).map_values(|p: Profile| p@),
        decreases v@.len() - i,
    {
        out.push(Profile { name: v[i].name.clone(), style: v[i].style.clone() });
        assert(v@.take(i + 1).map_values(|p: Profile| p@) =~= v@.take(i as int).map_values(
            |p: Profile| p@,
        ).push(v@[i as int]@));
        assert(out@.map_values(|p: Profile| p@) =~= v@.take(i as int).map_values(|p: Profile| p@).push(
            v@[i as int]@,
        ));
        i = i + 1;
    }
    assert(v@.take(v@.len() as int) =~= v@);
    out
}

fn clone_snippets(v: &Vec<Snippet>) -> (r: Vec<Snippet>)
    ensures
        r@.map_values(|s: Snippet| s@) == v@.map_values(|s: Snippet| s@),
{
    let mut out: Vec<Snippet> = Vec::new();
    let mut i: usize = 0;
    while i < v.len()
        invariant
            i <= v@.len(),
            out@.map_values(|s: Snippet| s@) == v@.take(i as int).map_values(|s: Snippet| s@),
        decreases v@.len() - i,
    {
        out.push(Snippet { trigger: v[i].trigger.clone(), text: v[i].text.clone() });
        assert(v@.take(i + 1).map_values(|s: Snippet| s@) =~= v@.take(i as int).map_values(
            |s: Snippet| s@,
        ).push(v@[i as int]@));
        assert(out@.map_values(|s: Snippet| s@) =~= v@.take(i as int).map_values(|s: Snippet| s@).push(
            v@[i as int]@,
        ));
        i = i + 1;
    }
    assert(v@.take(v@.len() as int) =~= v@);
    out
}

fn clone_strings(v: &Vec<String>) -> (r: Vec<String>)
    ensures
        r@.map_values(|s: String| s@) == v@.map_values(|s: String| s@),
{
    let mut out: Vec<String> = Vec::new();
    let mut i: usize = 0;
    while i < v.len()
        invariant
            i <= v@.len(),
            out@.map_values(|s: String| s@) == v@.take(i as int).map_values(|s: String| s@),
        decreases v@.len() - i,
    {
        out.push(v[i].clone());
        assert(v@.take(i + 1).map_values(|s: String| s@) =~= v@.take(i as int).map_values(
            |s: String| s@,
        ).push(v@[i as int]@));
        assert(out@.map_values(|s: String| s@) =~= v@.take(i as int).map_values(|s: String| s@).push(
            v@[i as int]@,
        ));
        i = i + 1;
    }
    assert(v@.take(v@.len() as int) =~= v@);
    out
}

/// The settings as written to disk: the two API keys in their stored form (given
/// what the platform's protection gave for each), everything else unchanged.
pub open spec fn disk_view(
    s: SettingsView,
    gemini_protected: Option<Seq<char>>,
    groq_protected: Option<Seq<char>>,
) -> SettingsView {
    SettingsView {
        gemini_api_key: stored_key(s.gemini_api_key, gemini_protected),
        groq_api_key: stored_key(s.groq_api_key, groq_protected),
        ..s
    }
}

/// The settings as loaded from disk: the two API keys read back (given what the
/// platform's unprotection gave for each), the default profiles where none is left,
/// everything else unchanged.
pub open spec fn loaded_view(
    d: SettingsView,
    gemini_unprotected: Option<Seq<char>>,
    groq_unprotected: Option<Seq<char>>,
) -> SettingsView {
    SettingsView {
        profiles: if d.profiles.len() == 0 {
            default_profiles_view()
        } else {
            d.profiles
        },
        gemini_api_key: loaded_key(d.gemini_api_key, gemini_unprotected),
        groq_api_key: loaded_key(d.groq_api_key, groq_unprotected),
        ..d
    }
}

impl Settings {
    /// A copy of the settings for writing to disk, with the API keys protected by
    /// the platform (keys stay in clear text in memory).
    pub fn for_disk<F: Fn(&str, &str) -> Option<String>>(&self, protect: &F) -> (r: Settings)
        requires
            forall|n: &str, k: &str| #[trigger] protect.requires((n, k)),
        ensures
            exists|gp: Option<Seq<char>>, qp: Option<Seq<char>>|
                #[trigger] sealed_by(*protect, "gemini_api_key", self@.gemini_api_key, gp)
                    && #[trigger] sealed_by(*protect, "groq_api_key", self@.groq_api_key, qp)
                    && r@ == disk_view(self@, gp, qp),
    {
        let gemini = encrypt_key("gemini_api_key", &self.gemini_api_key, protect);
        let groq = encrypt_key("groq_api_key", &self.groq_api_key, protect);
        let r = Settings {
            hotkey: self.hotkey.clone(),
            cancel_key: self.cancel_key.clone(),
            mode: self.mode.clone(),
            mic: clone_opt(&self.mic),
            stt_provider: self.stt_provider.clone(),
            groq_api_key: groq,
            groq_model: self.groq_model.clone(),
            speech_lang: self.speech_lang.clone(),
            output_lang: self.output_lang.clone(),
            gemini_model: self.gemini_model.clone(),
            gemini_api_key: gemini,
            wave_style: self.wave_style.clone(),
            theme: self.theme.clone(),
            profiles: clone_profiles(&self.profiles),
            active_profile: self.active_profile.clone(),
            dictionary: clone_strings(&self.dictionary),
            snippets: clone_snippets(&self.snippets),
            history_enabled: self.history_enabled,
            python: self.python.clone(),
            sidecar: self.sidecar.clone(),
            stt_port: self.stt_port,
        };
        let ghost gp = choose|p: Option<Seq<char>>|
            sealed_by(*protect, "gemini_api_key", self@.gemini_api_key, p) && opt_view(gemini)
                == stored_key(self@.gemini_api_key, p);
        let ghost qp = choose|p: Option<Seq<char>>|
            sealed_by(*protect, "groq_api_key", self@.groq_api_key, p) && opt_view(groq)
                == stored_key(self@.groq_api_key, p);
        assert(r@ == disk_view(self@, gp, qp));
        r
    }

    /// Settings just read from disk, made ready for use: the API keys unprotected by
    /// the platform, and the default profiles if the file has none.
    pub fn after_load<F: Fn(&str, &str) -> Option<String>>(self, unprotect: &F) -> (r: Settings)
        requires
            forall|n: &str, k: &str| #[trigger] unprotect.requires((n, k)),
        ensures
            exists|gu: Option<Seq<char>>, qu: Option<Seq<char>>|
                #[trigger] opened_by(*unprotect, "gemini_api_key", self@.gemini_api_key, gu)
                    && #[trigger] opened_by(*unprotect, "groq_api_key", self@.groq_api_key, qu)
                    && r@ == loaded_view(self@, gu, qu),
    {
        let ghost old_view = self@;
        let gemini = decrypt_key("gemini_api_key", &self.gemini_api_key, unprotect);
        let groq = decrypt_key("groq_api_key", &self.groq_api_key, unprotect);
        let mut s = self;
        if s.profiles.len() == 0 {
            s.profiles = default_profiles();
        }
        s.gemini_api_key = gemini;
        s.groq_api_key = groq;
        let ghost gu = choose|u: Option<Seq<char>>|
            opened_by(*unprotect, "gemini_api_key", old_view.gemini_api_key, u) && opt_view(gemini)
                == loaded_key(old_view.gemini_api_key, u);
        let ghost qu = choose|u: Option<Seq<char>>|
            opened_by(*unprotect, "groq_api_key", old_view.groq_api_key, u) && opt_view(groq)
                == loaded_key(old_view.groq_api_key, u);
        assert(s@ == loaded_view(old_view, gu, qu));
        s
    }
}

/// Settings written to disk and loaded back are the settings that were written,
/// API keys included, provided there is a profile, each key is absent or set and not
/// itself in the `enc:` form, and the platform's unprotection gives back what its
/// protection sealed (always so on macOS, where nothing is sealed).
pub proof fn lemma_settings_round_trip(
    s: SettingsView,
    gemini_protected: Option<Seq<char>>,
    groq_protected: Option<Seq<char>>,
    gemini_unprotected: Option<Seq<char>>,
    groq_unprotected: Option<Seq<char>>,
)
    requires
        s.profiles.len() > 0,
        s.gemini_api_key matches Some(k) ==> k.len() > 0 && !starts_with(k, "enc:"@),
        s.groq_api_key matches Some(k) ==> k.len() > 0 && !starts_with(k, "enc:"@),
        gemini_protected is Some ==> gemini_unprotected == s.gemini_api_key,
        groq_protected is Some ==> groq_unprotected == s.groq_api_key,
    ensures
        loaded_view(
            disk_view(s, gemini_protected, groq_protected),
            gemini_unprotected,
            groq_unprotected,
        ) == s,
{
    lemma_key_round_trip(s.gemini_api_key, gemini_protected, gemini_unprotected);
    lemma_key_round_trip(s.groq_api_key, groq_protected, groq_unprotected);
}

} // verus!
