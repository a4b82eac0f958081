//! Clean-up of what Whisper adds on its own: subtitle credits glued after the last
//! sentence ("Legenda Adriana Zanotto") and stock phrases on silent audio.
use vstd::prelude::*;
use crate::text::{
    chars_occur_at, chars_of, contains, contains_chars, is_alphanumeric, is_white_space,
    is_whitespace, lemma_trim_end_prefix, lowercase, same_text, starts_with, string_from,
    sub_chars, to_lowercase, trim, trim_chars, trim_end, trim_end_len, trim_start, char_is_alphanumeric,
};

verus! {

/// Characters trimmed from the end before the last sentence is looked for.
pub open spec fn is_tail_mark(c: char) -> bool {
    c == '.' || c == '!' || c == '?' || c == ' '
}

/// `s` without its trailing `.`, `!`, `?` and spaces.
pub open spec fn trim_end_marks(s: Seq<char>) -> Seq<char>
    decreases s.len(),
{
    if s.len() > 0 && is_tail_mark(s.last()) {
        trim_end_marks(s.drop_last())
    } else {
        s
    }
}

/// A sentence ends at `j`: `.`, `!`, `?` or a line break followed by whitespace or by
/// nothing (the dot inside "Amara.org" does not count).
pub open spec fn is_sentence_end(s: Seq<char>, j: int) -> bool {
    &&& 0 <= j < s.len()
    &&& (s[j] == '.' || s[j] == '!' || s[j] == '?' || s[j] == '\n')
    &&& (j + 1 == s.len() || is_white_space(s[j + 1]))
}

/// The last sentence end strictly before index `k`.
pub open spec fn last_end_below(s: Seq<char>, k: int) -> Option<int>
    decreases k,
{
    if k <= 0 {
        None
    } else if is_sentence_end(s, k - 1) {
        Some(k - 1)
    } else {
        last_end_below(s, k - 1)
    }
}

/// Number of whitespace-separated words (what `split_whitespace().count()` gives).
pub open spec fn word_count(s: Seq<char>) -> nat
    decreases s.len(),
{
    if s.len() == 0 {
        0
    } else {
        word_count(s.drop_last()) + if !is_white_space(s.last()) && (s.len() == 1
            || is_white_space(s[s.len() - 2])) {
            1nat
        } else {
            0nat
        }
    }
}

/// A lower-cased tail that is a subtitle credit: at most five words, starting with a
/// credit word or naming amara.org.
pub open spec fn is_credit(tail: Seq<char>) -> bool {
    &&& word_count(tail) <= 5
    &&& (starts_with(tail, "legenda"@) || starts_with(tail, "legendado"@) || starts_with(
        tail,
        "subtitle"@,
    ) || contains(tail, "amara.org"@))
}

/// The transcription without a subtitle credit after its last sentence. Only the
/// tail after the last sentence end can go: "legenda" inside the speech stays.
pub open spec fn credit_stripped(text: Seq<char>) -> Seq<char> {
    let t = trim_end(text);
    let body = trim_end_marks(t);
    match last_end_below(body, body.len() as int) {
        None => t,
        Some(i) => if is_credit(lowercase(trim(body.subrange(i + 1, body.len() as int)))) {
            trim_end(t.take(i + 1))
        } else {
            t
        },
    }
}

pub proof fn lemma_trim_end_marks_prefix(s: Seq<char>)
    ensures
        trim_end_marks(s).len() <= s.len(),
        trim_end_marks(s) == s.take(trim_end_marks(s).len() as int),
    decreases s.len(),
{
    if s.len() > 0 && is_tail_mark(s.last()) {
        lemma_trim_end_marks_prefix(s.drop_last());
        assert(s.drop_last().take(trim_end_marks(s).len() as int) =~= s.take(
            trim_end_marks(s).len() as int,
        ));
    } else {
        assert(s.take(s.len() as int) =~= s);
    }
}

pub proof fn lemma_last_end_below(s: Seq<char>, k: int)
    ensures
        last_end_below(s, k) matches Some(i) ==> i < k && is_sentence_end(s, i),
    decreases k,
{
    if k > 0 && !is_sentence_end(s, k - 1) {
        lemma_last_end_below(s, k - 1);
    }
}

/// Length of `s` without its trailing marks.
fn trim_end_marks_len(s: &[char]) -> (k: usize)
    ensures
        k <= s@.len(),
        s@.take(k as int) == trim_end_marks(s@),
{
    let mut k = s.len();
    assert(s@.take(k as int) =~= s@);
    while k > 0 && (s[k - 1] == '.' || s[k - 1] == '!' || s[k - 1] == '?' || s[k - 1] == ' ')
        invariant
            k <= s@.len(),
            trim_end_marks(s@.take(k as int)) == trim_end_marks(s@),
        decreases k,
    {
        assert(s@.take(k as int).drop_last() =~= s@.take(k - 1));
        k = k - 1;
    }
    k
}

/// The last sentence end in `s`.
fn last_sentence_end(s: &[char]) -> (r: Option<usize>)
    ensures
        match r {
            Some(i) => last_end_below(s@, s@.len() as int) == Some(i as int),
            None => last_end_below(s@, s@.len() as int) is None,
        },
{
    let mut k = s.len();
    while k > 0
        invariant
            k <= s@.len(),
            last_end_below(s@, k as int) == last_end_below(s@, s@.len() as int),
        decreases k,
    {
        let j = k - 1;
        let c = s[j];
        if (c == '.' || c == '!' || c == '?' || c == '\n') && (j + 1 == s.len() || is_whitespace(
            s[j + 1],
        )) {
            return Some(j);
        }
        k = j;
    }
    None
}

/// Number of whitespace-separated words.
fn count_words(s: &[char]) -> (n: usize)
    ensures
        n == word_count(s@),
{
    let mut n: usize = 0;
    let mut i: usize = 0;
    assert(s@.take(0) =~= Seq::<char>::empty());
    while i < s.len()
        invariant
            i <= s@.len(),
            n == word_count(s@.take(i as int)),
            n <= i,
        decreases s@.len() - i,
    {
        assert(s@.take(i + 1).drop_last() =~= s@.take(i as int));
        if !is_whitespace(s[i]) && (i == 0 || is_whitespace(s[i - 1])) {
            n = n + 1;
        }
        i = i + 1;
    }
    assert(s@.take(s@.len() as int) =~= s@);
    n
}

/// Whether `s` starts with the characters of `p`.
fn starts_with_text(s: &[char], p: &str) -> (r: bool)
    ensures
        r == starts_with(s@, p@),
{
    let pc = chars_of(p);
    chars_occur_at(s, pc.as_slice(), 0)
}

/// Whether `s` contains the characters of `p`.
fn contains_text(s: &[char], p: &str) -> (r: bool)
    ensures
        r == contains(s@, p@),
{
    let pc = chars_of(p);
    contains_chars(s, pc.as_slice())
}

/// Whether a lower-cased sentence tail is a subtitle credit: at most five words,
/// starting with "legenda"/"legendado"/"subtitle" or naming amara.org.
pub fn is_credit_tail(lower_tail: &str) -> (r: bool)
    ensures
        r == is_credit(lower_tail@),
{
    let tail = chars_of(lower_tail);
    count_words(tail.as_slice()) <= 5 && (starts_with_text(tail.as_slice(), "legenda")
        || starts_with_text(tail.as_slice(), "legendado") || starts_with_text(
        tail.as_slice(),
        "subtitle",
    ) || contains_text(tail.as_slice(), "amara.org"))
}

/// Removes a subtitle credit that Whisper glued after the last sentence.
///
/// Only the tail after the last sentence end is considered, and only when it is at
/// most five words that start with "legenda"/"legendado"/"subtitle" or name
/// amara.org; trailing whitespace is dropped in every case.
pub fn strip_credit(text: &str) -> (r: String)
    ensures
        r@ == credit_stripped(text@),
        r@.len() <= text@.len(),
        r@ == text@.take(r@.len() as int),
{
    let cs = chars_of(text);
    let te = trim_end_len(cs.as_slice());
    let t = sub_chars(cs.as_slice(), 0, te);
    let be = trim_end_marks_len(t.as_slice());
    let body = sub_chars(t.as_slice(), 0, be);
    proof {
        lemma_trim_end_prefix(text@);
        lemma_trim_end_marks_prefix(t@);
    }
    match last_sentence_end(body.as_slice()) {
        None => string_from(t.as_slice()),
        Some(i) => {
            proof {
                lemma_last_end_below(body@, body@.len() as int);
            }
            let raw_tail = sub_chars(body.as_slice(), i + 1, body.len());
            let tail_trimmed = trim_chars(raw_tail.as_slice());
            let tail_text = string_from(tail_trimmed.as_slice());
            let lower = to_lowercase(tail_text.as_str());
            let credit = is_credit_tail(lower.as_str());
            if credit {
                let head = sub_chars(t.as_slice(), 0, i + 1);
                let k = trim_end_len(head.as_slice());
                let kept = sub_chars(head.as_slice(), 0, k);
                proof {
                    lemma_trim_end_prefix(head@);
                    assert(kept@ =~= text@.take(kept@.len() as int));
                }
                string_from(kept.as_slice())
            } else {
                string_from(t.as_slice())
            }
        },
    }
}

/// Stock phrases that Whisper produces on short audio without speech.
pub open spec fn is_stock_phrase(norm: Seq<char>) -> bool {
    ||| starts_with(norm, "legenda"@)
    ||| norm == "e aí"@
    ||| norm == "eaí"@
    ||| norm == "obrigado"@
    ||| norm == "obrigada"@
    ||| norm == "tchau"@
    ||| norm == "valeu"@
    ||| norm == "thank you"@
}

/// The letters, digits and whitespace of `s`, in order.
pub open spec fn word_chars(s: Seq<char>) -> Seq<char>
    decreases s.len(),
{
    if s.len() == 0 {
        s
    } else if is_alphanumeric(s.last()) || is_white_space(s.last()) {
        word_chars(s.drop_last()).push(s.last())
    } else {
        word_chars(s.drop_last())
    }
}

/// A transcription that is a silence hallucination: audio shorter than two seconds
/// whose lower-cased text, reduced to letters, digits and whitespace and trimmed, is
/// a stock phrase.
pub open spec fn hallucination(text: Seq<char>, audio_ms: u64) -> bool {
    hallucination_lowered(lowercase(text), audio_ms)
}

/// [`hallucination`] with the lower-cased text given.
pub open spec fn hallucination_lowered(lowered: Seq<char>, audio_ms: u64) -> bool {
    audio_ms < 2000 && is_stock_phrase(trim(word_chars(lowered)))
}

/// Whether the transcription of `audio_ms` milliseconds of audio is one of Whisper's
/// typical hallucinations on silence (a lone subtitle credit, "obrigado", ...).
/// Audio of two seconds or more is never judged so.
pub fn is_hallucination(text: &str, audio_ms: u64) -> (r: bool)
    ensures
        r == hallucination(text@, audio_ms),
{
    if audio_ms >= 2000 {
        return false;
    }
    let lower = to_lowercase(text);
    is_stock_hallucination(lower.as_str(), audio_ms)
}

/// Whether a transcription, given lower-cased, of `audio_ms` milliseconds of audio
/// is a silence hallucination (see [`hallucination_lowered`]).
pub fn is_stock_hallucination(lowered: &str, audio_ms: u64) -> (r: bool)
    ensures
        r == hallucination_lowered(lowered@, audio_ms),
{
    if audio_ms >= 2000 {
        return false;
    }
    let lc = chars_of(lowered);
    let mut kept: Vec<char> = Vec::new();
    let mut i: usize = 0;
    assert(lc@.take(0) =~= Seq::<char>::empty());
    while i < lc.len()
        invariant
            i <= lc@.len(),
            kept@ == word_chars(lc@.take(i as int)),
        decreases lc@.len() - i,
    {
        assert(lc@.take(i + 1).drop_last() =~= lc@.take(i as int));
        let c = lc[i];
        if char_is_alphanumeric(c) || is_whitespace(c) {
            kept.push(c);
        }
        i = i + 1;
    }
    assert(lc@.take(lc@.len() as int) =~= lc@);
    let norm = trim_chars(kept.as_slice());
    let ns = string_from(norm.as_slice());
    let n = ns.as_str();
    starts_with_text(norm.as_slice(), "legenda") || same_text(n, "e aí") || same_text(n, "eaí")
        || same_text(n, "obrigado") || same_text(n, "obrigada") || same_text(n, "tchau")
        || same_text(n, "valeu") || same_text(n, "thank you")
}

/// A transcription of audio shorter than two seconds is dropped as a silence
/// hallucination exactly when, lower-cased, cut down to letters, digits and
/// whitespace and trimmed, it starts with "legenda" or is one of "e aí", "eaí",
/// "obrigado", "obrigada", "tchau", "valeu" or "thank you"; audio of two seconds or
/// more is never dropped.
pub proof fn lemma_silence_phrases(text: Seq<char>, audio_ms: u64)
    ensures
        ({
            let norm = trim(word_chars(lowercase(text)));
            hallucination(text, audio_ms) <==> audio_ms < 2000 && (starts_with(norm, "legenda"@)
                || norm == "e aí"@ || norm == "eaí"@ || norm == "obrigado"@ || norm
                == "obrigada"@ || norm == "tchau"@ || norm == "valeu"@ || norm == "thank you"@)
        }),
{
}

/// Whether `c` may end a sentence.
pub open spec fn ends_sentence(c: char) -> bool {
    c == '.' || c == '!' || c == '?' || c == '\n'
}

/// No sentence ends inside `tail`: a sentence mark in it is followed by a
/// non-whitespace character (as the dot of "Amara.org"), and it does not end in one.
pub open spec fn no_sentence_end(tail: Seq<char>) -> bool {
    &&& tail.len() > 0
    &&& !ends_sentence(tail.last())
    &&& forall|j: int| 0 <= j < tail.len() - 1 && ends_sentence(#[trigger] tail[j]) ==> !is_white_space(tail[j + 1])
}

proof fn lemma_end_search_skips_tail(text: Seq<char>, n: int, k: int)
    requires
        1 <= n < k <= text.len(),
        text[n] == ' ',
        no_sentence_end(text.skip(n + 1)),
        text.len() == n + 1 + text.skip(n + 1).len(),
    ensures
        last_end_below(text, k) == last_end_below(text, n),
    decreases k - n,
{
    let tail = text.skip(n + 1);
    let j = k - 1;
    if j > n {
        assert(text[j] == tail[j - n - 1]);
        if j + 1 < text.len() {
            assert(text[j + 1] == tail[j - n]);
        }
        assert(!is_sentence_end(text, j));
    } else {
        assert(!is_sentence_end(text, j));
    }
    if k - 1 > n {
        lemma_end_search_skips_tail(text, n, k - 1);
    }
}

/// A credit glued after the last sentence is cut off: for any head that ends a
/// sentence and a tail after one space, with no sentence end of its own and no
/// whitespace at its ends, whose lower-cased form has at most five words and starts
/// with "legenda", "legendado" or "subtitle" or names amara.org, only the head is
/// kept (without trailing whitespace). Any other such tail stays.
pub proof fn lemma_credit_tail(head: Seq<char>, tail: Seq<char>)
    requires
        head.len() > 0,
        ends_sentence(head.last()),
        no_sentence_end(tail),
        !is_white_space(tail[0]),
        !is_white_space(tail.last()),
    ensures
        ({
            let low = lowercase(tail);
            let credit = word_count(low) <= 5 && (starts_with(low, "legenda"@) || starts_with(
                low,
                "legendado"@,
            ) || starts_with(low, "subtitle"@) || contains(low, "amara.org"@));
            &&& credit ==> credit_stripped(head + seq![' '] + tail) == trim_end(head)
            &&& !credit ==> credit_stripped(head + seq![' '] + tail) == head + seq![' '] + tail
        }),
{
    let text = head + seq![' '] + tail;
    let n = head.len() as int;
    assert(text.last() == tail.last());
    assert(trim_end(text) == text);
    assert(!is_tail_mark(tail.last())) by {
        assert(tail.last() != ' ');
    }
    assert(trim_end_marks(text) == text);
    assert(text.skip(n + 1) =~= tail);
    assert(text[n] == ' ');
    lemma_end_search_skips_tail(text, n, text.len() as int);
    assert(is_sentence_end(text, n - 1)) by {
        assert(text[n - 1] == head.last());
    }
    assert(last_end_below(text, n) == Some(n - 1));
    let seg = text.subrange(n, text.len() as int);
    assert(seg =~= seq![' '] + tail);
    assert(trim_end(seg) == seg) by {
        assert(seg.last() == tail.last());
    }
    assert(seg.drop_first() =~= tail);
    assert(trim_start(tail) == tail);
    assert(trim_start(seg) == trim_start(seg.drop_first()));
    assert(trim(seg) == tail);
    assert(text.take(n) =~= head);
}

} // verus!
