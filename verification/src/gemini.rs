//! Rewrite with Gemini: which model to call, what to do after a failed call, and
//! how the reply text is taken.
use vstd::prelude::*;
use crate::text::{chars_of, same_text, string_from, trim, trim_chars};
use crate::settings::opt_view;

verus! {

broadcast use vstd::string::group_string_axioms;

/// The reserve model. It is an alias, so it never turns into a 404 when Google
/// retires a version, which is exactly the case that leads here.
pub const FALLBACK_MODEL: &'static str = "gemini-flash-lite-latest";

/// The text of [`FALLBACK_MODEL`].
pub open spec fn fallback_model_view() -> Seq<char> {
    "gemini-flash-lite-latest"@
}

/// Only a 404 is a verdict on the model ("this key does not have this model");
/// 429 and 503 speak of the minute, not of the model.
pub fn erro_e_definitivo(code: u16) -> (r: bool)
    ensures
        r == (code == 404),
{
    code == 404
}

/// Whether the session switched to the reserve model for good.
pub struct GeminiSession {
    use_fallback: bool,
}

/// What to do after the first call failed with an HTTP-like code
/// (0 = network error, 408 = the call ran over its time limit).
#[derive(Clone, Copy, Debug, PartialEq, Eq, Structural)]
pub enum RetryPlan {
    /// Call the same model once more (an isolated stall of the free tier).
    SameModel,
    /// Call the reserve model (model unavailable or quota of the minute used up).
    Fallback,
    /// Return the error.
    GiveUp,
}

/// The plan after a first failure with `code` on model `chosen`.
pub open spec fn retry_plan_for(chosen: Seq<char>, code: u16) -> RetryPlan {
    if code == 408 {
        RetryPlan::SameModel
    } else if (code == 404 || code == 429 || code == 503) && chosen != fallback_model_view() {
        RetryPlan::Fallback
    } else {
        RetryPlan::GiveUp
    }
}

/// What to do after the first rewrite call on `chosen` failed with `code`.
pub fn retry_plan(chosen: &str, code: u16) -> (r: RetryPlan)
    ensures
        r == retry_plan_for(chosen@, code),
{
    if code == 408 {
        RetryPlan::SameModel
    } else if (code == 404 || code == 429 || code == 503) && !same_text(chosen, FALLBACK_MODEL) {
        RetryPlan::Fallback
    } else {
        RetryPlan::GiveUp
    }
}

impl GeminiSession {
    /// A session that still uses the configured model.
    pub fn new() -> (r: GeminiSession)
        ensures
            !r.locked(),
    {
        GeminiSession { use_fallback: false }
    }

    /// Whether the session switched to the reserve model for good.
    pub closed spec fn locked(&self) -> bool {
        self.use_fallback
    }

    /// Whether the session switched to the reserve model for good.
    pub fn is_locked(&self) -> (r: bool)
        ensures
            r == self.locked(),
    {
        self.use_fallback
    }

    /// Switches the session to the reserve model for good.
    pub fn lock_fallback(&mut self)
        ensures
            final(self).locked(),
    {
        self.use_fallback = true;
    }

    /// The model to call: the reserve model once the session is locked to it,
    /// otherwise the configured one.
    pub fn modelo_efetivo<'a>(&self, configurado: &'a str) -> (r: &'a str)
        ensures
            r@ == if self.locked() { fallback_model_view() } else { configurado@ },
    {
        if self.use_fallback {
            FALLBACK_MODEL
        } else {
            configurado
        }
    }

    /// Records that the reserve model answered after the first call failed with
    /// `code`: only a 404 locks the session to the reserve model.
    pub fn fallback_answered(&mut self, code: u16)
        ensures
            final(self).locked() == (old(self).locked() || code == 404),
    {
        if erro_e_definitivo(code) {
            self.use_fallback = true;
        }
    }
}

/// The text of a reply: the text parts joined and trimmed; `None` when that is empty.
pub open spec fn reply_text(parts: Seq<Seq<char>>) -> Option<Seq<char>> {
    let t = trim(parts.fold_left(Seq::<char>::empty(), |acc: Seq<char>, p: Seq<char>| acc + p));
    if t.len() == 0 {
        None
    } else {
        Some(t)
    }
}

/// The reply text out of the text parts of the first candidate.
pub fn gemini_reply_text(parts: &Vec<String>) -> (r: Option<String>)
    ensures
        opt_view(r) == reply_text(parts@.map_values(|p: String| p@)),
{
    let ghost pv = parts@.map_values(|p: String| p@);
    let mut all: Vec<char> = Vec::new();
    let mut i: usize = 0;
    while i < parts.len()
        invariant
            i <= parts@.len(),
            pv == parts@.map_values(|p: String| p@),
            all@ == pv.take(i as int).fold_left(
                Seq::<char>::empty(),
                |acc: Seq<char>, p: Seq<char>| acc + p,
            ),
        decreases parts@.len() - i,
    {
        let cs = chars_of(parts[i].as_str());
        let mut j: usize = 0;
        let ghost before = all@;
        while j < cs.len()
            invariant
                j <= cs@.len(),
                all@ == before + cs@.take(j as int),
            decreases cs@.len() - j,
        {
            all.push(cs[j]);
            assert(cs@.take(j + 1) =~= cs@.take(j as int).push(cs@[j as int]));
            j = j + 1;
        }
        assert(cs@.take(cs@.len() as int) =~= cs@);
        assert(pv.take(i + 1).drop_last() =~= pv.take(i as int));
        i = i + 1;
    }
    assert(pv.take(parts@.len() as int) =~= pv);
    let t = trim_chars(all.as_slice());
    if t.len() == 0 {
        None
    } else {
        Some(string_from(t.as_slice()))
    }
}

/// The Gemini key: the one in the settings when set, otherwise the one in the
/// environment (`GEMINI_API_KEY`, read by the caller).
pub fn gemini_key(configured: &Option<String>, from_env: Option<String>) -> (r: Option<String>)
    ensures
        opt_view(r) == match *configured {
            Some(k) => if k@.len() > 0 { Some(k@) } else { opt_view(from_env) },
            None => opt_view(from_env),
        },
{
    match configured {
        Some(k) => if !k.as_str().is_empty() {
            Some(k.clone())
        } else {
            from_env
        },
        None => from_env,
    }
}

/// The failure code of a rewrite call that got no answer: 408 when it ran over its
/// time limit (a stall worth one more try on the same model), 0 for any other
/// network error.
pub fn send_failure_code(timed_out: bool) -> (r: u16)
    ensures
        r == if timed_out { 408u16 } else { 0u16 },
        retry_plan_for(fallback_model_view(), r) == if timed_out {
            RetryPlan::SameModel
        } else {
            RetryPlan::GiveUp
        },
{
    if timed_out {
        408
    } else {
        0
    }
}

/// Whether an HTTP status is a failure (anything outside 2xx); the status itself
/// is then the failure code.
pub fn http_failed(status: u16) -> (r: bool)
    ensures
        r == !(200 <= status && status < 300),
{
    !(200 <= status && status < 300)
}

} // verus!
