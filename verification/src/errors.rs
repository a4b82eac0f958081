//! Short error sentences for the overlay.
use vstd::prelude::*;
use crate::text::{chars_of, contains, contains_chars, lowercase, string_from, sub_chars, to_lowercase};

verus! {

broadcast use vstd::string::group_string_axioms;

/// The overlay sentence for a technical error message: a fixed sentence when the
/// lower-cased message names a known cause (checked in this order), otherwise the
/// first 70 characters of the message.
pub open spec fn friendly_message(e: Seq<char>) -> Seq<char> {
    friendly_message_lowered(e, lowercase(e))
}

/// [`friendly_message`] with the lower-cased message `low` given.
pub open spec fn friendly_message_lowered(e: Seq<char>, low: Seq<char>) -> Seq<char> {
    if contains(low, "microfone"@) || contains(low, "sem microfone"@) {
        "Microfone não encontrado"@
    } else if contains(low, "429"@) || contains(low, "rate limit"@) || contains(low, "quota"@) {
        "Limite da API atingido"@
    } else if contains(low, "401"@) || contains(low, "403"@) || contains(low, "chave"@) {
        "Chave de API inválida ou ausente"@
    } else if contains(low, "timed out"@) || contains(low, "timeout"@) || contains(low, "dns"@)
        || contains(low, "connect"@) {
        "Sem conexão com o serviço"@
    } else if contains(low, "transcrição local"@) {
        "Transcrição local indisponível"@
    } else if contains(low, "alucinação"@) || contains(low, "transcrição vazia"@) {
        "Nada foi dito"@
    } else if contains(low, "clipboard"@) || contains(low, "área de transferência"@) {
        "Não consegui colar o texto"@
    } else if e.len() <= 70 {
        e
    } else {
        e.take(70)
    }
}

fn has(low: &Vec<char>, word: &str) -> (r: bool)
    ensures
        r == contains(low@, word@),
{
    let w = chars_of(word);
    contains_chars(low.as_slice(), w.as_slice())
}

/// Turns a technical error message into a short sentence that fits the overlay.
pub fn friendly_error(e: &str) -> (r: String)
    ensures
        r@ == friendly_message(e@),
        r@.len() <= 70,
{
    let lower = to_lowercase(e);
    friendly_error_lowered(e, lower.as_str())
}

/// The overlay sentence for the message `e`, given its lower-cased form `lower`.
pub fn friendly_error_lowered(e: &str, lower: &str) -> (r: String)
    ensures
        r@ == friendly_message_lowered(e@, lower@),
        r@.len() <= 70,
{
    let low = chars_of(lower);
    let msg = if has(&low, "microfone") || has(&low, "sem microfone") {
        "Microfone não encontrado"
    } else if has(&low, "429") || has(&low, "rate limit") || has(&low, "quota") {
        "Limite da API atingido"
    } else if has(&low, "401") || has(&low, "403") || has(&low, "chave") {
        "Chave de API inválida ou ausente"
    } else if has(&low, "timed out") || has(&low, "timeout") || has(&low, "dns") || has(
        &low,
        "connect",
    ) {
        "Sem conexão com o serviço"
    } else if has(&low, "transcrição local") {
        "Transcrição local indisponível"
    } else if has(&low, "alucinação") || has(&low, "transcrição vazia") {
        "Nada foi dito"
    } else if has(&low, "clipboard") || has(&low, "área de transferência") {
        "Não consegui colar o texto"
    } else {
        let cs = chars_of(e);
        let n = if cs.len() <= 70 { cs.len() } else { 70 };
        let head = sub_chars(cs.as_slice(), 0, n);
        proof {
            if cs@.len() <= 70 {
                assert(head@ =~= e@);
            }
        }
        return string_from(head.as_slice());
    };
    proof {
        reveal_strlit("Microfone não encontrado");
        reveal_strlit("Limite da API atingido");
        reveal_strlit("Chave de API inválida ou ausente");
        reveal_strlit("Sem conexão com o serviço");
        reveal_strlit("Transcrição local indisponível");
        reveal_strlit("Nada foi dito");
        reveal_strlit("Não consegui colar o texto");
    }
    msg.to_owned()
}

} // verus!
