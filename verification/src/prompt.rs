//! The instructions sent to the rewriter together with the raw transcription.
use vstd::prelude::*;
use crate::settings::{ProfileView, Settings, SettingsView};
use crate::text::{chars_of, contains, occurs_at, same_text, string_from, trim, trim_chars};

verus! {

broadcast use vstd::string::group_string_axioms;

/// The fixed editing rules: never add facts, summarize or omit; keep the speaker's
/// words; keep only the final version of explicit self-corrections; follow spoken
/// structure markers; split long speech into paragraphs.
pub open spec fn rules_view() -> Seq<char> {
    "Você é um editor de ditado. Receberá a transcrição literal de uma fala em pt-BR.\n\
Invioláveis: NÃO adicione fatos, NÃO resuma, NÃO omita conteúdo.\n\
Edição — padrão conservador; o Estilo no fim pode pedir mais liberdade:\n\
1. Preserve as palavras do falante. Não troque expressões por sinônimos mais formais, não reordene nem reescreva frases que já se entendem. Corrija apenas ortografia, concordância e pontuação.\n\
2. Repetição de palavra ou frase é ênfase do falante: MANTENHA. Remova só hesitações e falsos inícios (\"é...\", \"hum\", \"a-a-a\").\n\
3. Descarte a versão anterior apenas quando o falante se retrata de forma explícita (\"não, na verdade é X\", \"me corrigindo, são 30\"). Conectores como \"quer dizer\", \"tipo\" e \"então\" sozinhos NÃO são correção.\n\
4. Estrutura: quando o falante marca a virada em voz alta, obedeça — é instrução, não licença para reformatar. \"outra coisa\", \"outro assunto\", \"mudando de assunto\", \"agora\" abrindo tema novo: parágrafo novo (linha em branco). \"primeiro/segundo/terceiro\", \"três coisas que eu queria\": uma linha por item, numerada. Isso vale igual em fala curta. Sem marca falada, entregue um bloco só: não force formato nem crie tópicos por conta própria.\n\
5. Fala longa (acima de ~400 caracteres) nunca sai em bloco único, mesmo que trate de um assunto só: divida em parágrafos de no máximo 4 frases, cortando no ponto final mais próximo da virada de foco.\n"@
}

fn rules() -> (r: &'static str)
    ensures
        r@ == rules_view(),
{
    "Você é um editor de ditado. Receberá a transcrição literal de uma fala em pt-BR.\n\
Invioláveis: NÃO adicione fatos, NÃO resuma, NÃO omita conteúdo.\n\
Edição — padrão conservador; o Estilo no fim pode pedir mais liberdade:\n\
1. Preserve as palavras do falante. Não troque expressões por sinônimos mais formais, não reordene nem reescreva frases que já se entendem. Corrija apenas ortografia, concordância e pontuação.\n\
2. Repetição de palavra ou frase é ênfase do falante: MANTENHA. Remova só hesitações e falsos inícios (\"é...\", \"hum\", \"a-a-a\").\n\
3. Descarte a versão anterior apenas quando o falante se retrata de forma explícita (\"não, na verdade é X\", \"me corrigindo, são 30\"). Conectores como \"quer dizer\", \"tipo\" e \"então\" sozinhos NÃO são correção.\n\
4. Estrutura: quando o falante marca a virada em voz alta, obedeça — é instrução, não licença para reformatar. \"outra coisa\", \"outro assunto\", \"mudando de assunto\", \"agora\" abrindo tema novo: parágrafo novo (linha em branco). \"primeiro/segundo/terceiro\", \"três coisas que eu queria\": uma linha por item, numerada. Isso vale igual em fala curta. Sem marca falada, entregue um bloco só: não force formato nem crie tópicos por conta própria.\n\
5. Fala longa (acima de ~400 caracteres) nunca sai em bloco único, mesmo que trate de um assunto só: divida em parágrafos de no máximo 4 frases, cortando no ponto final mais próximo da virada de foco.\n"
}

/// The style of the first profile named `active` among `profiles[k..]`; the neutral
/// style when there is none.
pub open spec fn style_from(profiles: Seq<ProfileView>, active: Seq<char>, k: int) -> Seq<char>
    decreases profiles.len() - k,
{
    if k < 0 || k >= profiles.len() {
        "texto natural corrigido, mantendo o tom do falante."@
    } else if profiles[k].name == active {
        profiles[k].style
    } else {
        style_from(profiles, active, k + 1)
    }
}

/// The dictionary entries, trimmed, without the blank ones, in order.
pub open spec fn dictionary_words(d: Seq<Seq<char>>) -> Seq<Seq<char>>
    decreases d.len(),
{
    if d.len() == 0 {
        Seq::empty()
    } else if trim(d.last()).len() == 0 {
        dictionary_words(d.drop_last())
    } else {
        dictionary_words(d.drop_last()).push(trim(d.last()))
    }
}

/// The words joined with `sep` between them.
pub open spec fn joined(words: Seq<Seq<char>>, sep: Seq<char>) -> Seq<char>
    decreases words.len(),
{
    if words.len() == 0 {
        Seq::empty()
    } else if words.len() == 1 {
        words[0]
    } else {
        joined(words.drop_last(), sep) + sep + words.last()
    }
}

/// The language named in the output instruction for an output-language code.
pub open spec fn language_name(code: Seq<char>) -> Seq<char> {
    if code == "pt"@ {
        "português do Brasil"@
    } else if code == "en"@ {
        "inglês"@
    } else if code == "es"@ {
        "espanhol"@
    } else {
        code
    }
}

/// The rewrite instructions for the settings: the rules; the mandatory spellings of
/// the dictionary, if any; the answer format; a translation instruction when the
/// output language differs from the speech language; and the active profile's style,
/// ending where the transcription is to be appended.
pub open spec fn prompt_view(s: SettingsView) -> Seq<char> {
    let words = dictionary_words(s.dictionary);
    let dict_part = if words.len() == 0 {
        Seq::<char>::empty()
    } else {
        "6. Grafias obrigatórias quando essas palavras aparecerem: "@ + joined(words, ", "@)
            + ".\n"@
    };
    let lang_part = if s.output_lang != "same"@ && s.output_lang != s.speech_lang {
        "Escreva o texto final em "@ + language_name(s.output_lang)
            + ", mantendo URLs, e-mails e nomes próprios intactos.\n"@
    } else {
        Seq::<char>::empty()
    };
    rules_view() + dict_part + "Responda SOMENTE com o texto final, sem comentários.\n"@ + lang_part
        + "Estilo: "@ + style_from(s.profiles, s.active_profile, 0) + "\n\nTranscrição:\n"@
}

fn active_style(s: &Settings) -> (r: String)
    ensures
        r@ == style_from(s@.profiles, s@.active_profile, 0),
{
    let mut k: usize = 0;
    while k < s.profiles.len()
        invariant
            k <= s.profiles@.len(),
            style_from(s@.profiles, s@.active_profile, k as int) == style_from(
                s@.profiles,
                s@.active_profile,
                0,
            ),
        decreases s.profiles@.len() - k,
    {
        let p = &s.profiles[k];
        assert(s@.profiles[k as int] == p@);
        if same_text(p.name.as_str(), s.active_profile.as_str()) {
            return p.style.clone();
        }
        k = k + 1;
    }
    "texto natural corrigido, mantendo o tom do falante.".to_owned()
}

fn dictionary_list(d: &Vec<String>) -> (r: String)
    ensures
        r@ == joined(dictionary_words(d@.map_values(|x: String| x@)), ", "@),
        (r@.len() == 0) == (dictionary_words(d@.map_values(|x: String| x@)).len() == 0),
{
    let ghost dv = d@.map_values(|x: String| x@);
    let mut out = String::new();
    let mut count: usize = 0;
    let mut i: usize = 0;
    while i < d.len()
        invariant
            i <= d@.len(),
            dv == d@.map_values(|x: String| x@),
            out@ == joined(dictionary_words(dv.take(i as int)), ", "@),
            count == dictionary_words(dv.take(i as int)).len(),
            (out@.len() == 0) == (count == 0),
            count <= i,
        decreases d@.len() - i,
    {
        let cs = chars_of(d[i].as_str());
        let t = trim_chars(cs.as_slice());
        assert(dv.take(i + 1).drop_last() =~= dv.take(i as int));
        assert(dv.take(i + 1).last() == d@[i as int]@);
        if t.len() > 0 {
            let w = string_from(t.as_slice());
            let ghost before = dictionary_words(dv.take(i as int));
            if count > 0 {
                out.append(", ");
            }
            out.append(w.as_str());
            proof {
                reveal_strlit(", ");
                let now = dictionary_words(dv.take(i + 1));
                assert(now == before.push(w@));
                assert(now.drop_last() =~= before);
                if count == 0 {
                    assert(now.len() == 1);
                }
            }
            count = count + 1;
        }
        i = i + 1;
    }
    assert(dv.take(d@.len() as int) =~= dv);
    out
}

fn language_for(code: &str) -> (r: String)
    ensures
        r@ == language_name(code@),
{
    if same_text(code, "pt") {
        "português do Brasil".to_owned()
    } else if same_text(code, "en") {
        "inglês".to_owned()
    } else if same_text(code, "es") {
        "espanhol".to_owned()
    } else {
        code.to_owned()
    }
}

/// Builds the rewrite instructions for the current settings (see [`prompt_view`]);
/// the raw transcription is appended to them.
pub fn build_prompt(s: &Settings) -> (r: String)
    ensures
        r@ == prompt_view(s@),
{
    let style = active_style(s);
    let mut p = rules().to_owned();
    let dict = dictionary_list(&s.dictionary);
    if !dict.as_str().is_empty() {
        p.append("6. Grafias obrigatórias quando essas palavras aparecerem: ");
        p.append(dict.as_str());
        p.append(".\n");
    }
    p.append("Responda SOMENTE com o texto final, sem comentários.\n");
    if !same_text(s.output_lang.as_str(), "same") && !same_text(
        s.output_lang.as_str(),
        s.speech_lang.as_str(),
    ) {
        let idioma = language_for(s.output_lang.as_str());
        p.append("Escreva o texto final em ");
        p.append(idioma.as_str());
        p.append(", mantendo URLs, e-mails e nomes próprios intactos.\n");
    }
    p.append("Estilo: ");
    p.append(style.as_str());
    p.append("\n\nTranscrição:\n");
    p
}

/// The translation line of the prompt for an output language other than the speech
/// language: Portuguese is named "português do Brasil", English "inglês", Spanish
/// "espanhol", and any other code is written as it is. With the output language
/// "same" or equal to the speech language no translation line is added.
pub proof fn lemma_output_language_line(s: SettingsView)
    ensures
        s.output_lang != "same"@ && s.output_lang != s.speech_lang ==> {
            let line = if s.output_lang == "pt"@ {
                "Escreva o texto final em português do Brasil, mantendo URLs, e-mails e nomes próprios intactos.\n"@
            } else if s.output_lang == "en"@ {
                "Escreva o texto final em inglês, mantendo URLs, e-mails e nomes próprios intactos.\n"@
            } else if s.output_lang == "es"@ {
                "Escreva o texto final em espanhol, mantendo URLs, e-mails e nomes próprios intactos.\n"@
            } else {
                "Escreva o texto final em "@ + s.output_lang
                    + ", mantendo URLs, e-mails e nomes próprios intactos.\n"@
            };
            contains(prompt_view(s), line)
        },
        (s.output_lang == "same"@ || s.output_lang == s.speech_lang) ==> {
            let words = dictionary_words(s.dictionary);
            let dict_part = if words.len() == 0 {
                Seq::<char>::empty()
            } else {
                "6. Grafias obrigatórias quando essas palavras aparecerem: "@ + joined(words, ", "@)
                    + ".\n"@
            };
            prompt_view(s) == rules_view() + dict_part
                + "Responda SOMENTE com o texto final, sem comentários.\n"@ + "Estilo: "@
                + style_from(s.profiles, s.active_profile, 0) + "\n\nTranscrição:\n"@
        },
{
    if s.output_lang != "same"@ && s.output_lang != s.speech_lang {
        reveal_strlit("Escreva o texto final em ");
        reveal_strlit(", mantendo URLs, e-mails e nomes próprios intactos.\n");
        reveal_strlit("português do Brasil");
        reveal_strlit("inglês");
        reveal_strlit("espanhol");
        reveal_strlit("Escreva o texto final em português do Brasil, mantendo URLs, e-mails e nomes próprios intactos.\n");
        reveal_strlit("Escreva o texto final em inglês, mantendo URLs, e-mails e nomes próprios intactos.\n");
        reveal_strlit("Escreva o texto final em espanhol, mantendo URLs, e-mails e nomes próprios intactos.\n");
        let words = dictionary_words(s.dictionary);
        let dict_part = if words.len() == 0 {
            Seq::<char>::empty()
        } else {
            "6. Grafias obrigatórias quando essas palavras aparecerem: "@ + joined(words, ", "@)
                + ".\n"@
        };
        let before = rules_view() + dict_part
            + "Responda SOMENTE com o texto final, sem comentários.\n"@;
        let lang_part = "Escreva o texto final em "@ + language_name(s.output_lang)
            + ", mantendo URLs, e-mails e nomes próprios intactos.\n"@;
        let after = "Estilo: "@ + style_from(s.profiles, s.active_profile, 0) + "\n\nTranscrição:\n"@;
        let p = prompt_view(s);
        assert(p =~= before + lang_part + after);
        let line = if s.output_lang == "pt"@ {
            "Escreva o texto final em português do Brasil, mantendo URLs, e-mails e nomes próprios intactos.\n"@
        } else if s.output_lang == "en"@ {
            "Escreva o texto final em inglês, mantendo URLs, e-mails e nomes próprios intactos.\n"@
        } else if s.output_lang == "es"@ {
            "Escreva o texto final em espanhol, mantendo URLs, e-mails e nomes próprios intactos.\n"@
        } else {
            "Escreva o texto final em "@ + s.output_lang
                + ", mantendo URLs, e-mails e nomes próprios intactos.\n"@
        };
        assert(lang_part =~= line);
        assert(p.subrange(before.len() as int, before.len() + line.len() as int) =~= line);
        assert(occurs_at(p, line, before.len() as int));
    }
}

} // verus!
