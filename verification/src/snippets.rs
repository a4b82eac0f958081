//! Snippet expansion in the final text.
use vstd::prelude::*;
use vstd::utf8::{decode_utf8, encode_utf8, is_char_boundary};
use crate::settings::Snippet;
use crate::text::{
    contains, find_bytes, first_occurrence, lowercase, occurs_at, to_lowercase, lemma_contains_first,
};

verus! {

broadcast use {vstd::utf8::group_utf8_lib, vstd::string::group_string_axioms};

/// One snippet applied to `out`: the first case-insensitive occurrence of the
/// trigger (found in the lower-cased texts, by byte position) is replaced with the
/// snippet text, together with a `.` or `,` right after it. `None` where the byte
/// positions found in the lower-cased text do not fall on character boundaries of
/// `out` (lower-casing changed the byte length of some character), where slicing
/// `out` there would panic.
pub open spec fn snippet_step(out: Seq<char>, trigger: Seq<char>, text: Seq<char>) -> Option<
    Seq<char>,
> {
    snippet_step_lowered(out, lowercase(out), trigger, lowercase(trigger), text)
}

/// [`snippet_step`] with the lower-cased text `lower_out` and lower-cased trigger
/// `lower_trig` given.
pub open spec fn snippet_step_lowered(
    out: Seq<char>,
    lower_out: Seq<char>,
    trigger: Seq<char>,
    lower_trig: Seq<char>,
    text: Seq<char>,
) -> Option<Seq<char>> {
    if trigger.len() == 0 {
        Some(out)
    } else {
        let lo = encode_utf8(lower_out);
        let lt = encode_utf8(lower_trig);
        match first_occurrence(lo, lt) {
            None => Some(out),
            Some(pos) => {
                let ob = encode_utf8(out);
                let end0 = pos + lt.len();
                if !is_char_boundary(ob, end0) {
                    None
                } else {
                    let end = if end0 < ob.len() && (ob[end0] == 46u8 || ob[end0] == 44u8) {
                        end0 + 1
                    } else {
                        end0
                    };
                    if !is_char_boundary(ob, pos) {
                        None
                    } else {
                        Some(
                            decode_utf8(ob.subrange(0, pos)) + text + decode_utf8(
                                ob.subrange(end, ob.len() as int),
                            ),
                        )
                    }
                }
            },
        }
    }
}

/// All snippets applied in order; `None` if one of the steps is `None`.
pub open spec fn snippets_applied(text: Seq<char>, sns: Seq<Snippet>) -> Option<Seq<char>>
    decreases sns.len(),
{
    if sns.len() == 0 {
        Some(text)
    } else {
        match snippets_applied(text, sns.drop_last()) {
            None => None,
            Some(o) => snippet_step(o, sns.last().trigger@, sns.last().text@),
        }
    }
}

/// Applies one snippet (see [`snippet_step`]).
fn apply_snippet(out: &String, sn: &Snippet) -> (r: Option<String>)
    ensures
        match r {
            Some(s) => snippet_step(out@, sn.trigger@, sn.text@) == Some(s@),
            None => snippet_step(out@, sn.trigger@, sn.text@) is None,
        },
{
    if sn.trigger.as_str().is_empty() {
        return Some(out.clone());
    }
    let lower_out = to_lowercase(out.as_str());
    let lower_trig = to_lowercase(sn.trigger.as_str());
    apply_snippet_lowered(
        out.as_str(),
        lower_out.as_str(),
        sn.trigger.as_str(),
        lower_trig.as_str(),
        sn.text.as_str(),
    )
}

/// Applies one snippet to `out`, given the lower-cased text `lower_out` and the
/// lower-cased trigger `lower_trig` (see [`snippet_step_lowered`]).
pub fn apply_snippet_lowered(
    out: &str,
    lower_out: &str,
    trigger: &str,
    lower_trig: &str,
    text: &str,
) -> (r: Option<String>)
    ensures
        match r {
            Some(s) => snippet_step_lowered(out@, lower_out@, trigger@, lower_trig@, text@) == Some(s@),
            None => snippet_step_lowered(out@, lower_out@, trigger@, lower_trig@, text@) is None,
        },
{
    if trigger.is_empty() {
        return Some(out.to_owned());
    }
    let lob = lower_out.as_bytes();
    let ltb = lower_trig.as_bytes();
    let os = out;
    let ob = os.as_bytes();
    match find_bytes(lob, ltb) {
        None => Some(out.to_owned()),
        Some(pos) => {
            proof {
                lemma_contains_first(lob@, ltb@);
            }
            let hay_len = lob.len();
            assert(pos + ltb@.len() <= hay_len);
            let end0 = pos + ltb.len();
            if !os.is_char_boundary(end0) {
                return None;
            }
            let mut end = end0;
            if end0 < ob.len() && (ob[end0] == 46u8 || ob[end0] == 44u8) {
                end = end0 + 1;
            }
            if !os.is_char_boundary(pos) {
                return None;
            }
            proof {
                if end != end0 {
                    lemma_ascii_then_boundary(ob@, end0 as int);
                }
            }
            let (pre, _) = os.split_at(pos);
            let (_, post) = os.split_at(end);
            proof {
                vstd::utf8::encode_utf8_decode_utf8(pre@);
                vstd::utf8::encode_utf8_decode_utf8(post@);
            }
            let mut n = pre.to_owned();
            n.append(text);
            n.append(post);
            Some(n)
        },
    }
}

/// Replaces, snippet by snippet, the first case-insensitive occurrence of each
/// non-empty trigger with the snippet's text (a `.` or `,` glued to the trigger goes
/// with it). `None` exactly where the replacement would have to slice the text
/// inside a character (see [`snippet_step`]).
pub fn apply_snippets(text: &str, snippets: &Vec<Snippet>) -> (r: Option<String>)
    ensures
        match r {
            Some(s) => snippets_applied(text@, snippets@) == Some(s@),
            None => snippets_applied(text@, snippets@) is None,
        },
{
    let mut out = text.to_owned();
    let mut i: usize = 0;
    assert(snippets@.take(0) =~= Seq::<Snippet>::empty());
    while i < snippets.len()
        invariant
            i <= snippets@.len(),
            snippets_applied(text@, snippets@.take(i as int)) == Some(out@),
        decreases snippets@.len() - i,
    {
        assert(snippets@.take(i + 1).drop_last() =~= snippets@.take(i as int));
        match apply_snippet(&out, &snippets[i]) {
            Some(next) => {
                out = next;
            },
            None => {
                assert(snippets_applied(text@, snippets@.take(i + 1)) is None);
                proof {
                    lemma_none_stays_none(text@, snippets@, i as int + 1);
                }
                assert(snippets@.take(snippets@.len() as int) =~= snippets@);
                return None;
            },
        }
        i = i + 1;
    }
    assert(snippets@.take(snippets@.len() as int) =~= snippets@);
    Some(out)
}

/// The byte after an ASCII character that starts at a boundary is a boundary too.
proof fn lemma_ascii_then_boundary(b: Seq<u8>, i: int)
    requires
        vstd::utf8::valid_utf8(b),
        is_char_boundary(b, i),
        0 <= i < b.len(),
        b[i] <= 0x7f,
    ensures
        is_char_boundary(b, i + 1),
    decreases b.len(),
{
    let l = vstd::utf8::length_of_first_scalar(b);
    let rest = vstd::utf8::pop_first_scalar(b);
    assert(1 <= l <= b.len());
    assert(rest.len() == b.len() - l);
    if i == 0 {
        assert(l == 1);
        assert(is_char_boundary(rest, 0));
    } else {
        assert(rest[i - l] == b[i]);
        lemma_ascii_then_boundary(rest, i - l);
    }
}

/// Once a step fails, all later prefixes fail as well.
proof fn lemma_none_stays_none(text: Seq<char>, sns: Seq<Snippet>, k: int)
    requires
        0 <= k <= sns.len(),
        snippets_applied(text, sns.take(k)) is None,
    ensures
        snippets_applied(text, sns) is None,
    decreases sns.len() - k,
{
    if k < sns.len() {
        assert(sns.take(k + 1).drop_last() =~= sns.take(k));
        lemma_none_stays_none(text, sns, k + 1);
    } else {
        assert(sns.take(k) =~= sns);
    }
}

/// Snippet triggers are matched without regard to case: two non-empty triggers with
/// the same lower-cased form do exactly the same to any text.
pub proof fn lemma_trigger_case_insensitive(out: Seq<char>, t1: Seq<char>, t2: Seq<char>, text: Seq<char>)
    requires
        lowercase(t1) == lowercase(t2),
        t1.len() > 0,
        t2.len() > 0,
    ensures
        snippet_step(out, t1, text) == snippet_step(out, t2, text),
{
}

/// The same for a whole snippet list: lists that differ only in the letter case of
/// their (non-empty) triggers expand every text alike.
pub proof fn lemma_snippets_case_insensitive(text: Seq<char>, a: Seq<Snippet>, b: Seq<Snippet>)
    requires
        a.len() == b.len(),
        forall|i: int|
            0 <= i < a.len() ==> #[trigger] a[i].text@ == b[i].text@ && lowercase(a[i].trigger@)
                == lowercase(b[i].trigger@) && a[i].trigger@.len() > 0 && b[i].trigger@.len() > 0,
    ensures
        snippets_applied(text, a) == snippets_applied(text, b),
    decreases a.len(),
{
    if a.len() > 0 {
        let k = a.len() - 1;
        assert(a[k].text@ == b[k].text@);
        lemma_snippets_case_insensitive(text, a.drop_last(), b.drop_last());
        match snippets_applied(text, a.drop_last()) {
            Some(o) => {
                lemma_trigger_case_insensitive(o, a.last().trigger@, b.last().trigger@, a.last().text@);
            },
            None => {},
        }
    }
}

/// One snippet on one text: a non-empty trigger whose lower-cased form does not
/// occur in the lower-cased text leaves the text as it is; when it occurs, the
/// result (if the positions fall on character boundaries) holds the snippet text.
pub proof fn lemma_snippet_step_effect(out: Seq<char>, trigger: Seq<char>, text: Seq<char>)
    requires
        trigger.len() > 0,
    ensures
        !contains(encode_utf8(lowercase(out)), encode_utf8(lowercase(trigger))) ==> snippet_step(
            out,
            trigger,
            text,
        ) == Some(out),
        snippet_step(out, trigger, text) matches Some(r) ==> r == out || contains(r, text),
{
    let lo = encode_utf8(lowercase(out));
    let lt = encode_utf8(lowercase(trigger));
    lemma_contains_first(lo, lt);
    if let Some(r) = snippet_step(out, trigger, text) {
        if let Some(pos) = first_occurrence(lo, lt) {
            let ob = encode_utf8(out);
            let end0 = pos + lt.len();
            let end = if end0 < ob.len() && (ob[end0] == 46u8 || ob[end0] == 44u8) {
                end0 + 1
            } else {
                end0
            };
            let a = decode_utf8(ob.subrange(0, pos));
            let b = decode_utf8(ob.subrange(end, ob.len() as int));
            assert(r == a + text + b);
            assert((a + text + b).subrange(a.len() as int, a.len() + text.len() as int) =~= text);
            assert(occurs_at(r, text, a.len() as int));
        }
    }
}

} // verus!
