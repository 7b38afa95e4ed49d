//! Text decoding. The port identifier and every line of the sensor are text:
//! bytes that are well-formed UTF-8.

use vstd::prelude::*;
use vstd::utf8::valid_utf8;

verus! {

/// Calls `core::str::from_utf8`, which checks that the bytes are valid UTF-8
/// and, where they are, hands them back as a string slice over the same
/// bytes. Trusted: the call succeeds exactly on well-formed UTF-8, and the
/// text it returns is encoded by the bytes given.
#[verifier::external_body]
fn from_utf8(bytes: &[u8]) -> (text: Option<&str>)
    ensures
        text is Some <==> valid_utf8(bytes@),
        text matches Some(s) ==> vstd::utf8::encode_utf8(s@) == bytes@,
{
    match core::str::from_utf8(bytes) {
        Ok(s) => Some(s),
        Err(_) => None,
    }
}

/// The text that `bytes` encode, or `None` where they are not well-formed
/// UTF-8.
pub fn decode(bytes: &[u8]) -> (text: Option<String>)
    ensures
        text is Some <==> valid_utf8(bytes@),
        text matches Some(s) ==> s@ == vstd::utf8::decode_utf8(bytes@),
{
    match from_utf8(bytes) {
        Some(s) => {
            proof {
                vstd::utf8::encode_utf8_decode_utf8(s@);
            }
            Some(s.to_owned())
        },
        None => None,
    }
}

/// Tells whether `bytes` are text.
pub fn is_text(bytes: &[u8]) -> (yes: bool)
    ensures
        yes == valid_utf8(bytes@),
{
    from_utf8(bytes).is_some()
}

/// True when every line of `lines` is text.
pub open spec fn all_text(lines: Seq<Seq<u8>>) -> bool {
    forall|i: int| 0 <= i < lines.len() ==> valid_utf8(#[trigger] lines[i])
}

/// The number of lines at the start of `lines` that are text.
pub open spec fn text_run(lines: Seq<Seq<u8>>) -> int
    decreases lines.len(),
{
    if lines.len() > 0 && valid_utf8(lines[0]) {
        1 + text_run(lines.drop_first())
    } else {
        0
    }
}

/// The lines of `lines` that come before the first one that is not text.
pub open spec fn text_prefix(lines: Seq<Seq<u8>>) -> Seq<Seq<u8>> {
    lines.take(text_run(lines))
}

/// `text_run` is the position of the first line that is not text.
pub proof fn lemma_text_run(lines: Seq<Seq<u8>>)
    ensures
        0 <= text_run(lines) <= lines.len(),
        forall|i: int| 0 <= i < text_run(lines) ==> valid_utf8(#[trigger] lines[i]),
        text_run(lines) < lines.len() ==> !valid_utf8(lines[text_run(lines)]),
        all_text(lines) <==> text_run(lines) == lines.len(),
    decreases lines.len(),
{
    if lines.len() > 0 && valid_utf8(lines[0]) {
        let tail = lines.drop_first();
        lemma_text_run(tail);
        assert forall|i: int| 0 <= i < text_run(lines) implies valid_utf8(#[trigger] lines[i]) by {
            if i > 0 {
                assert(lines[i] == tail[i - 1]);
            }
        }
        if text_run(lines) < lines.len() {
            assert(lines[text_run(lines)] == tail[text_run(tail)]);
        }
        if all_text(lines) {
            assert forall|i: int| 0 <= i < tail.len() implies valid_utf8(#[trigger] tail[i]) by {
                assert(tail[i] == lines[i + 1]);
            }
        }
    }
}

/// The first `count` lines being text and the next one not, `text_run` is
/// `count`.
pub proof fn lemma_text_run_is(lines: Seq<Seq<u8>>, count: int)
    requires
        0 <= count <= lines.len(),
        forall|i: int| 0 <= i < count ==> valid_utf8(#[trigger] lines[i]),
        count < lines.len() ==> !valid_utf8(lines[count]),
    ensures
        text_run(lines) == count,
{
    lemma_text_run(lines);
    let run = text_run(lines);
    if run < count {
        assert(valid_utf8(lines[run]));
    } else if count < run {
        assert(valid_utf8(lines[count]));
    }
}

/// The lines that are text at the start of two runs of lines, one after the
/// other: those of the first run and, where all of it is text, those of the
/// second.
pub proof fn lemma_text_prefix_concat(first: Seq<Seq<u8>>, second: Seq<Seq<u8>>)
    ensures
        !all_text(first) ==> text_prefix(first + second) == text_prefix(first),
        all_text(first) ==> text_prefix(first + second) == first + text_prefix(second),
        all_text(first + second) <==> all_text(first) && all_text(second),
{
    lemma_text_run(first);
    lemma_text_run(second);
    let both = first + second;
    if text_run(first) < first.len() {
        assert forall|i: int| 0 <= i < text_run(first) implies valid_utf8(#[trigger] both[i]) by {
            assert(both[i] == first[i]);
        }
        assert(both[text_run(first)] == first[text_run(first)]);
        lemma_text_run_is(both, text_run(first));
        assert(text_prefix(both) =~= text_prefix(first));
    } else {
        let count = first.len() + text_run(second);
        assert forall|i: int| 0 <= i < count implies valid_utf8(#[trigger] both[i]) by {
            if i < first.len() {
                assert(both[i] == first[i]);
            } else {
                assert(both[i] == second[i - first.len()]);
            }
        }
        if count < both.len() {
            assert(both[count] == second[text_run(second)]);
        }
        lemma_text_run_is(both, count);
        assert(text_prefix(both) =~= first + text_prefix(second));
    }
    lemma_text_run(both);
}

/// Cuts `lines` off before the first line that is not text. Returns true
/// when nothing was cut off.
pub fn keep_text(lines: &mut Vec<Vec<u8>>) -> (intact: bool)
    ensures
        final(lines).deep_view() == text_prefix(old(lines).deep_view()),
        intact == all_text(old(lines).deep_view()),
{
    let ghost all = lines.deep_view();
    let mut count: usize = 0;
    let mut damaged = false;
    while count < lines.len() && !damaged
        invariant
            lines.deep_view() == all,
            count <= lines.len(),
            forall|i: int| 0 <= i < count ==> valid_utf8(#[trigger] all[i]),
            damaged ==> count < lines.len() && !valid_utf8(all[count as int]),
        decreases lines.len() - count + if damaged { 0int } else { 1int },
    {
        assert(lines[count as int]@ =~= all[count as int]);
        if is_text(lines[count].as_slice()) {
            count += 1;
        } else {
            damaged = true;
        }
    }
    proof {
        lemma_text_run_is(all, count as int);
        lemma_text_run(all);
    }
    if damaged {
        lines.truncate(count);
    }
    assert(lines.deep_view() =~= text_prefix(all));
    !damaged
}

} // verus!
