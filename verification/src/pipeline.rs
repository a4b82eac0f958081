//! The decisions of the dictation pipeline: which recordings are sent, which
//! transcription provider is tried, which transcripts are discarded, and what text
//! is finally inserted.
use vstd::prelude::*;
use crate::credit::{hallucination, is_hallucination};
use crate::settings::{Settings, Snippet, opt_view};
use crate::snippets::{apply_snippets, snippets_applied};
use crate::text::{chars_of, same_text, string_from, trim, trim_chars};

verus! {

/// Whether `samples` samples at `rate` Hz last less than 0.4 s (too short a press
/// to be a dictation).
pub fn too_short(samples: u64, rate: u32) -> (r: bool)
    ensures
        r == (5 * samples < 2 * rate),
{
    (samples as u128) * 5 < (rate as u128) * 2
}

/// Length of the recording in whole milliseconds (`u64::MAX` for a zero rate).
pub open spec fn audio_ms_of(samples: u64, rate: u32) -> u64 {
    if rate == 0 {
        u64::MAX
    } else if samples * 1000 / (rate as int) > u64::MAX {
        u64::MAX
    } else {
        (samples * 1000 / (rate as int)) as u64
    }
}

/// Length of the recording in whole milliseconds.
pub fn audio_ms(samples: u64, rate: u32) -> (r: u64)
    ensures
        r == audio_ms_of(samples, rate),
{
    if rate == 0 {
        return u64::MAX;
    }
    let ms = (samples as u128) * 1000 / (rate as u128);
    if ms > u64::MAX as u128 {
        u64::MAX
    } else {
        ms as u64
    }
}

/// Why a transcript is discarded.
#[derive(Clone, Copy, Debug, PartialEq, Eq, Structural)]
pub enum TranscriptIssue {
    /// Nothing was transcribed.
    Empty,
    /// Whisper's stock phrase on silence (see [`is_hallucination`]).
    SilenceHallucination,
}

/// Checks a raw transcript of `audio_ms` milliseconds of audio before rewriting.
pub fn check_transcript(raw: &str, audio_ms: u64) -> (r: Option<TranscriptIssue>)
    ensures
        r == if raw@.len() == 0 {
            Some(TranscriptIssue::Empty)
        } else if hallucination(raw@, audio_ms) {
            Some(TranscriptIssue::SilenceHallucination)
        } else {
            None
        },
{
    if raw.is_empty() {
        Some(TranscriptIssue::Empty)
    } else if is_hallucination(raw, audio_ms) {
        Some(TranscriptIssue::SilenceHallucination)
    } else {
        None
    }
}

/// The text to insert: the rewritten text, or the raw transcript when the rewrite
/// failed, with the snippets applied (`None` as for [`apply_snippets`]).
pub fn final_text(raw: &str, rewritten: Option<String>, snippets: &Vec<Snippet>) -> (r: Option<
    String,
>)
    ensures
        opt_view(r) == snippets_applied(
            match rewritten {
                Some(t) => t@,
                None => raw@,
            },
            snippets@,
        ),
{
    match rewritten {
        Some(t) => apply_snippets(t.as_str(), snippets),
        None => apply_snippets(raw, snippets),
    }
}

/// Groq is tried first: it is the chosen provider and its key is set.
pub open spec fn groq_first_spec(s: crate::settings::SettingsView) -> bool {
    s.stt_provider == "groq"@ && (s.groq_api_key matches Some(k) && k.len() > 0)
}

/// Groq takes over when the local transcription cannot start: local is the chosen
/// provider and a Groq key is set.
pub open spec fn groq_takes_over_spec(s: crate::settings::SettingsView) -> bool {
    s.stt_provider == "local"@ && (s.groq_api_key matches Some(k) && k.len() > 0)
}

/// Whether the transcription starts with Groq (when it fails, the local
/// transcription is tried).
pub fn groq_first(s: &Settings) -> (r: bool)
    ensures
        r == groq_first_spec(s@),
{
    same_text(s.stt_provider.as_str(), "groq") && s.groq_ready()
}

/// Whether Groq takes over when the local transcription is unavailable.
pub fn groq_takes_over(s: &Settings) -> (r: bool)
    ensures
        r == groq_takes_over_spec(s@),
{
    same_text(s.stt_provider.as_str(), "local") && s.groq_ready()
}

/// One transcription calls Groq at most once: it is never both tried first and
/// called again after the local transcription failed.
pub proof fn lemma_groq_called_at_most_once(s: crate::settings::SettingsView)
    ensures
        !(groq_first_spec(s) && groq_takes_over_spec(s)),
{
    reveal_strlit("groq");
    reveal_strlit("local");
    if groq_first_spec(s) {
        assert(s.stt_provider[0] == 'g');
    }
}

/// Whether the local transcription is started at launch: only when Groq is not the
/// provider or has no key, so that the GPU stays free otherwise.
pub fn starts_local_at_launch(s: &Settings) -> (r: bool)
    ensures
        r == !groq_first_spec(s@),
{
    !same_text(s.stt_provider.as_str(), "groq") || !s.groq_ready()
}

/// The language sent to Groq: none for "auto" (Groq detects it).
pub fn groq_language(speech_lang: &str) -> (r: Option<String>)
    ensures
        opt_view(r) == if speech_lang@ == "auto"@ { None } else { Some(speech_lang@) },
{
    if same_text(speech_lang, "auto") {
        None
    } else {
        Some(speech_lang.to_owned())
    }
}

/// What has just come back in a transcription: nothing yet, or the outcome of the
/// last call the app made.
#[derive(Debug, PartialEq)]
pub enum SttStep {
    /// The transcription starts.
    Begin,
    /// Outcome of Groq tried first.
    GroqFirstDone(Result<String, String>),
    /// Outcome of starting (or finding running) the local transcription.
    LocalStarted(Result<(), String>),
    /// Outcome of the local transcription.
    LocalDone(Result<String, String>),
    /// Outcome of Groq called after the local transcription could not start.
    GroqFallbackDone(Result<String, String>),
}

/// What the app does next in a transcription.
#[derive(Debug, PartialEq)]
pub enum SttAction {
    CallGroqFirst,
    StartLocal,
    CallLocal,
    CallGroqFallback,
    /// The transcription is over, with this outcome.
    Finish(Result<String, String>),
}

/// The fallback rule between the two providers: Groq first when it is the provider
/// and has a key, falling back to the local transcription when it fails; the local
/// transcription otherwise, with Groq taking over when the local one cannot start
/// (provider "local" with a Groq key).
pub open spec fn stt_next_spec(gf: bool, gt: bool, step: SttStep) -> SttAction {
    match step {
        SttStep::Begin => if gf {
            SttAction::CallGroqFirst
        } else {
            SttAction::StartLocal
        },
        SttStep::GroqFirstDone(r) => match r {
            Ok(t) => SttAction::Finish(Ok(t)),
            Err(_) => SttAction::StartLocal,
        },
        SttStep::LocalStarted(r) => match r {
            Ok(_) => SttAction::CallLocal,
            Err(e) => if gt {
                SttAction::CallGroqFallback
            } else {
                SttAction::Finish(Err(e))
            },
        },
        SttStep::LocalDone(r) => SttAction::Finish(r),
        SttStep::GroqFallbackDone(r) => SttAction::Finish(r),
    }
}

/// The next move of a transcription under the settings `s`, after `step`.
pub fn stt_next(s: &Settings, step: SttStep) -> (a: SttAction)
    ensures
        a == stt_next_spec(groq_first_spec(s@), groq_takes_over_spec(s@), step),
{
    match step {
        SttStep::Begin => if groq_first(s) {
            SttAction::CallGroqFirst
        } else {
            SttAction::StartLocal
        },
        SttStep::GroqFirstDone(r) => match r {
            Ok(t) => SttAction::Finish(Ok(t)),
            Err(_) => SttAction::StartLocal,
        },
        SttStep::LocalStarted(r) => match r {
            Ok(_) => SttAction::CallLocal,
            Err(e) => if groq_takes_over(s) {
                SttAction::CallGroqFallback
            } else {
                SttAction::Finish(Err(e))
            },
        },
        SttStep::LocalDone(r) => SttAction::Finish(r),
        SttStep::GroqFallbackDone(r) => SttAction::Finish(r),
    }
}

/// What each call would return in one transcription.
pub struct SttOutcomes {
    pub groq_first: Result<String, String>,
    pub local_start: Result<(), String>,
    pub local: Result<String, String>,
    pub groq_fallback: Result<String, String>,
}

/// The outcome the app hands back for the call `a`.
pub open spec fn stt_respond(a: SttAction, o: SttOutcomes) -> SttStep {
    match a {
        SttAction::CallGroqFirst => SttStep::GroqFirstDone(o.groq_first),
        SttAction::StartLocal => SttStep::LocalStarted(o.local_start),
        SttAction::CallLocal => SttStep::LocalDone(o.local),
        SttAction::CallGroqFallback => SttStep::GroqFallbackDone(o.groq_fallback),
        SttAction::Finish(_) => SttStep::Begin,
    }
}

/// The calls made from `step` on (at most `fuel` more), and the final outcome if
/// the transcription finished within them.
pub open spec fn stt_drive(gf: bool, gt: bool, o: SttOutcomes, step: SttStep, fuel: nat) -> (
    Seq<SttAction>,
    Option<Result<String, String>>,
)
    decreases fuel,
{
    let a = stt_next_spec(gf, gt, step);
    match a {
        SttAction::Finish(r) => (Seq::empty(), Some(r)),
        _ => if fuel == 0 {
            (seq![a], None)
        } else {
            let (rest, r) = stt_drive(gf, gt, o, stt_respond(a, o), (fuel - 1) as nat);
            (seq![a] + rest, r)
        },
    }
}

/// Whether the call goes to Groq.
pub open spec fn is_groq_call(a: SttAction) -> bool {
    a is CallGroqFirst || a is CallGroqFallback
}

/// The two-way fallback between the providers, whatever each call returns: a
/// transcription makes at most four calls and always finishes; Groq tried first
/// falls back to the local transcription when it fails; a local transcription that
/// cannot start hands over to Groq only with provider "local" and a Groq key; Groq
/// is called at most once; and the outcome is that of the last call made.
pub proof fn lemma_stt_fallback_order(s: crate::settings::SettingsView, o: SttOutcomes)
    ensures
        ({
            let gf = groq_first_spec(s);
            let gt = groq_takes_over_spec(s);
            let (calls, r) = stt_drive(gf, gt, o, SttStep::Begin, 4);
            let local_part = match o.local_start {
                Ok(_) => seq![SttAction::CallLocal],
                Err(_) => if gt {
                    seq![SttAction::CallGroqFallback]
                } else {
                    Seq::empty()
                },
            };
            let local_result = match o.local_start {
                Ok(_) => o.local,
                Err(e) => if gt {
                    o.groq_fallback
                } else {
                    Err(e)
                },
            };
            &&& calls == if gf {
                match o.groq_first {
                    Ok(_) => seq![SttAction::CallGroqFirst],
                    Err(_) => seq![SttAction::CallGroqFirst, SttAction::StartLocal] + local_part,
                }
            } else {
                seq![SttAction::StartLocal] + local_part
            }
            &&& r == Some(
                if gf && o.groq_first is Ok {
                    o.groq_first
                } else {
                    local_result
                },
            )
            &&& forall|i: int, j: int|
                0 <= i < j < calls.len() ==> !(is_groq_call(calls[i]) && is_groq_call(calls[j]))
        }),
{
    lemma_groq_called_at_most_once(s);
    reveal_with_fuel(stt_drive, 5);
    let gf = groq_first_spec(s);
    let gt = groq_takes_over_spec(s);
    let (calls, r) = stt_drive(gf, gt, o, SttStep::Begin, 4);
    let local_part = match o.local_start {
        Ok(_) => seq![SttAction::CallLocal],
        Err(_) => if gt {
            seq![SttAction::CallGroqFallback]
        } else {
            Seq::empty()
        },
    };
    let expected = if gf {
        match o.groq_first {
            Ok(_) => seq![SttAction::CallGroqFirst],
            Err(_) => seq![SttAction::CallGroqFirst, SttAction::StartLocal] + local_part,
        }
    } else {
        seq![SttAction::StartLocal] + local_part
    };
    assert(calls =~= expected);
}

/// How long the local transcription gets to come up after it was started.
pub const SIDECAR_DEADLINE_MS: u64 = 120000;

/// How long to wait between two health checks while it comes up.
pub const SIDECAR_POLL_MS: u64 = 2000;

/// The next move while waiting for the local transcription to come up.
#[derive(Debug, PartialEq, Eq)]
pub enum SidecarWait {
    /// Ask the service whether it is healthy.
    CheckHealth,
    /// Wait this many milliseconds, then go on.
    Sleep(u64),
    /// It answered: it is ready.
    Ready,
    /// The deadline passed without a healthy answer.
    GiveUp,
}

/// The waiting rule: while less than the deadline has passed since the start, check
/// the health (`health` is `None` until checked in this round); ready on a healthy
/// answer, otherwise sleep for the poll interval; give up once the deadline passed.
pub open spec fn sidecar_wait_spec(elapsed_ms: u64, health: Option<bool>) -> SidecarWait {
    match health {
        None => if elapsed_ms < SIDECAR_DEADLINE_MS {
            SidecarWait::CheckHealth
        } else {
            SidecarWait::GiveUp
        },
        Some(true) => SidecarWait::Ready,
        Some(false) => SidecarWait::Sleep(SIDECAR_POLL_MS),
    }
}

/// The next move while waiting for the local transcription, `elapsed_ms` after it
/// was started, with the health answer of this round if one was asked.
pub fn sidecar_wait(elapsed_ms: u64, health: Option<bool>) -> (r: SidecarWait)
    ensures
        r == sidecar_wait_spec(elapsed_ms, health),
{
    match health {
        None => if elapsed_ms < SIDECAR_DEADLINE_MS {
            SidecarWait::CheckHealth
        } else {
            SidecarWait::GiveUp
        },
        Some(true) => SidecarWait::Ready,
        Some(false) => SidecarWait::Sleep(SIDECAR_POLL_MS),
    }
}

/// The text of a transcription reply: the `text` field (`""` when absent), trimmed.
pub fn transcript_text(field: Option<&str>) -> (r: String)
    ensures
        r@ == match field {
            Some(t) => trim(t@),
            None => Seq::<char>::empty(),
        },
{
    match field {
        Some(t) => {
            let cs = chars_of(t);
            let tr = trim_chars(cs.as_slice());
            string_from(tr.as_slice())
        },
        None => String::new(),
    }
}

} // verus!
