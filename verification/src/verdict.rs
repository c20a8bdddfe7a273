//! The verdict extractor: from the free-form text of a model reply to a verdict.
//!
//! The model is asked for a JSON object with one boolean member. It may wrap
//! the object in a Markdown code fence, so the fence is taken off first. What
//! is left is handed to the JSON parser as it stands: prose around the object
//! is not searched, and such a reply yields no verdict.

use vstd::prelude::*;
use vstd::string::StrSliceExecFns;
use crate::text::{
    chars_of, drop_suffixes, drop_whitespace, is_whitespace, lemma_strip_prefixes_leaves_none,
    lemma_strip_suffixes_leaves_none, skip_prefixes, skip_whitespace, strip_prefixes,
    strip_suffixes, trim,
};

verus! {

/// The classification of one message.
#[derive(Clone, Copy, Debug, PartialEq, Eq, Structural)]
pub struct Verdict {
    pub is_spam: bool,
}

/// The member of a reply that carries the verdict.
pub const VERDICT_KEY: &'static str = "is_spam";

/// What a text, read as a JSON document, holds under one key.
#[derive(Clone, Copy, Debug, PartialEq, Eq, Structural)]
pub enum Lookup {
    /// The text is no JSON document.
    NotJson,
    /// The document is no object, or the object has no member of that key.
    Missing,
    /// The member is there and is no boolean.
    NotBoolean,
    /// The member is this boolean.
    Boolean(bool),
}

/// What `serde_json` finds in `text` under `key`: the outcome of parsing the
/// whole text as one JSON value, of looking the key up in it, and of reading
/// the member as a boolean.
pub uninterp spec fn json_lookup(text: Seq<char>, key: Seq<char>) -> Lookup;

/// Parses `text` with `serde_json::from_str` into a `serde_json::Value`, looks
/// `key` up with `Value::get` and reads the member with `Value::as_bool`.
///
/// Not proved: that the outcome depends on the two strings alone. The parser
/// keeps no state between calls and reads nothing but its input, `get` finds
/// a member only in an object, and `as_bool` yields a value only for a JSON
/// boolean.
#[verifier::external_body]
fn lookup_member(text: &str, key: &str) -> (found: Lookup)
    ensures
        found == json_lookup(text@, key@),
{
    match serde_json::from_str::<serde_json::Value>(text) {
        Err(_) => Lookup::NotJson,
        Ok(document) => match document.get(key) {
            None => Lookup::Missing,
            Some(member) => match member.as_bool() {
                None => Lookup::NotBoolean,
                Some(flag) => Lookup::Boolean(flag),
            },
        },
    }
}

/// The verdict that a lookup amounts to. A text that is no JSON, or that
/// lacks the member, gives no verdict. A member that is no boolean counts as
/// "not spam": in doubt a message stays.
pub open spec fn verdict_of(found: Lookup) -> Option<Verdict> {
    match found {
        Lookup::NotJson => None,
        Lookup::Missing => None,
        Lookup::NotBoolean => Some(Verdict { is_spam: false }),
        Lookup::Boolean(flag) => Some(Verdict { is_spam: flag }),
    }
}

/// Turns the outcome of a lookup into a verdict.
pub fn verdict_from_lookup(found: Lookup) -> (verdict: Option<Verdict>)
    ensures
        verdict == verdict_of(found),
{
    match found {
        Lookup::NotJson => None,
        Lookup::Missing => None,
        Lookup::NotBoolean => Some(Verdict { is_spam: false }),
        Lookup::Boolean(flag) => Some(Verdict { is_spam: flag }),
    }
}

/// The marker that opens and closes a code fence.
pub open spec fn fence() -> Seq<char> {
    seq!['`', '`', '`']
}

/// The marker that opens a code fence tagged as JSON.
pub open spec fn json_fence() -> Seq<char> {
    seq!['`', '`', '`', 'j', 's', 'o', 'n']
}

/// The text inside the code fence: whitespace is trimmed off both ends, then
/// every opening marker with the tag, every opening marker without it, and
/// every closing marker is taken off. Whitespace between a marker and the
/// body stays.
pub open spec fn unfenced(text: Seq<char>) -> Seq<char> {
    strip_suffixes(
        strip_prefixes(strip_prefixes(trim(text), json_fence()), fence()),
        fence(),
    )
}

fn fence_marker() -> (marker: Vec<char>)
    ensures
        marker@ == fence(),
{
    let marker = vec!['`', '`', '`'];
    assert(marker@ =~= fence());
    marker
}

fn json_fence_marker() -> (marker: Vec<char>)
    ensures
        marker@ == json_fence(),
{
    let marker = vec!['`', '`', '`', 'j', 's', 'o', 'n'];
    assert(marker@ =~= json_fence());
    marker
}

/// Takes the code fence off a model reply.
pub fn strip_fences<'a>(text: &'a str) -> (body: &'a str)
    ensures
        body@ == unfenced(text@),
{
    let chars = chars_of(text);
    let len = chars.len();
    assert(chars@.subrange(0, len as int) == text@);
    let trimmed_start = skip_whitespace(&chars, 0, len);
    let trimmed_end = drop_whitespace(&chars, trimmed_start, len);
    let tagged = json_fence_marker();
    let plain = fence_marker();
    let after_tagged = skip_prefixes(&chars, trimmed_start, trimmed_end, &tagged);
    let start = skip_prefixes(&chars, after_tagged, trimmed_end, &plain);
    let end = drop_suffixes(&chars, start, trimmed_end, &plain);
    text.substring_char(start, end)
}

/// The verdict that a model reply carries, if any.
pub open spec fn verdict_in(text: Seq<char>) -> Option<Verdict> {
    verdict_of(json_lookup(unfenced(text), VERDICT_KEY@))
}

/// Reads the verdict out of a model reply.
///
/// The reply yields a verdict exactly when what is left of it without its
/// code fence is a JSON object with a member `is_spam`.
pub fn extract_verdict(text: &str) -> (verdict: Option<Verdict>)
    ensures
        verdict == verdict_in(text@),
{
    let body = strip_fences(text);
    verdict_from_lookup(lookup_member(body, VERDICT_KEY))
}

/// A reply without a code fence is only trimmed: where the trimmed text
/// neither begins nor ends with the fence marker, it is what the parser gets.
pub proof fn lemma_bare_reply_is_trimmed(text: Seq<char>)
    requires
        !fence().is_prefix_of(trim(text)),
        !fence().is_suffix_of(trim(text)),
    ensures
        unfenced(text) == trim(text),
{
    let t = trim(text);
    if json_fence().is_prefix_of(t) {
        assert(t.subrange(0, 3) =~= json_fence().subrange(0, 3));
        assert(json_fence().subrange(0, 3) =~= fence());
    }
}

/// A fenced reply is unwrapped: of a body between the tagged opening marker
/// and the closing marker, where the body neither begins nor ends with a
/// backtick, exactly the body is left.
pub proof fn lemma_tagged_fence_is_removed(body: Seq<char>)
    requires
        body.len() > 0,
        body.first() != '`',
        body.last() != '`',
    ensures
        unfenced(json_fence() + body + fence()) == body,
{
    let text = json_fence() + body + fence();
    let rest = body + fence();
    assert(text.first() == '`');
    assert(text.last() == '`');
    assert(trim(text) == text);
    assert(text.subrange(0, 7) =~= json_fence());
    assert(text.skip(7) =~= rest);
    assert(rest.first() == body.first());
    assert(!json_fence().is_prefix_of(rest)) by {
        if json_fence().is_prefix_of(rest) {
            assert(rest.subrange(0, 7)[0] == '`');
        }
    }
    assert(strip_prefixes(text, json_fence()) == rest) by {
        reveal_with_fuel(strip_prefixes, 2);
    }
    assert(!fence().is_prefix_of(rest)) by {
        if fence().is_prefix_of(rest) {
            assert(rest.subrange(0, 3)[0] == '`');
        }
    }
    assert(strip_prefixes(rest, fence()) == rest);
    assert(rest.subrange(rest.len() - 3, rest.len() as int) =~= fence());
    assert(rest.take(rest.len() - 3) =~= body);
    assert(!fence().is_suffix_of(body)) by {
        if fence().is_suffix_of(body) {
            assert(body.subrange(body.len() - 3, body.len() as int)[2] == '`');
        }
    }
    assert(strip_suffixes(rest, fence()) == body) by {
        reveal_with_fuel(strip_suffixes, 2);
    }
}

/// The same for a fence without a tag, where the body does not itself begin
/// with the tag.
pub proof fn lemma_plain_fence_is_removed(body: Seq<char>)
    requires
        body.len() > 0,
        body.first() != '`',
        body.last() != '`',
        !seq!['j', 's', 'o', 'n'].is_prefix_of(body),
    ensures
        unfenced(fence() + body + fence()) == body,
{
    let text = fence() + body + fence();
    let rest = body + fence();
    assert(text.first() == '`');
    assert(text.last() == '`');
    assert(trim(text) == text);
    assert(!json_fence().is_prefix_of(text)) by {
        if json_fence().is_prefix_of(text) {
            assert(text.subrange(0, 7) == json_fence());
            assert(body.len() >= 4);
            assert(body.subrange(0, 4) =~= text.subrange(0, 7).subrange(3, 7));
            assert(json_fence().subrange(3, 7) =~= seq!['j', 's', 'o', 'n']);
        }
    }
    assert(strip_prefixes(text, json_fence()) == text);
    assert(text.subrange(0, 3) =~= fence());
    assert(text.skip(3) =~= rest);
    assert(rest.first() == body.first());
    assert(!fence().is_prefix_of(rest)) by {
        if fence().is_prefix_of(rest) {
            assert(rest.subrange(0, 3)[0] == '`');
        }
    }
    assert(strip_prefixes(text, fence()) == rest) by {
        reveal_with_fuel(strip_prefixes, 2);
    }
    assert(rest.subrange(rest.len() - 3, rest.len() as int) =~= fence());
    assert(rest.take(rest.len() - 3) =~= body);
    assert(!fence().is_suffix_of(body)) by {
        if fence().is_suffix_of(body) {
            assert(body.subrange(body.len() - 3, body.len() as int)[2] == '`');
        }
    }
    assert(strip_suffixes(rest, fence()) == body) by {
        reveal_with_fuel(strip_suffixes, 2);
    }
}

/// Wrapping a reply in a tagged code fence does not change its verdict,
/// where the reply begins and ends with a character that is neither
/// whitespace nor a backtick.
pub proof fn lemma_fence_keeps_verdict(body: Seq<char>)
    requires
        body.len() > 0,
        body.first() != '`' && !is_whitespace(body.first()),
        body.last() != '`' && !is_whitespace(body.last()),
    ensures
        verdict_in(json_fence() + body + fence()) == verdict_in(body),
{
    lemma_tagged_fence_is_removed(body);
    assert(trim(body) == body);
    assert(!fence().is_prefix_of(body)) by {
        if fence().is_prefix_of(body) {
            assert(body.subrange(0, 3)[0] == '`');
        }
    }
    assert(!fence().is_suffix_of(body)) by {
        if fence().is_suffix_of(body) {
            assert(body.subrange(body.len() - 3, body.len() as int)[2] == '`');
        }
    }
    lemma_bare_reply_is_trimmed(body);
}

/// What is handed to the parser carries no fence marker at either end.
pub proof fn lemma_unfenced_has_no_fence_left(text: Seq<char>)
    ensures
        !fence().is_prefix_of(unfenced(text)),
        !fence().is_suffix_of(unfenced(text)),
{
    let opened = strip_prefixes(strip_prefixes(trim(text), json_fence()), fence());
    let body = strip_suffixes(opened, fence());
    lemma_strip_prefixes_leaves_none(strip_prefixes(trim(text), json_fence()), fence());
    lemma_strip_suffixes_leaves_none(opened, fence());
    if fence().is_prefix_of(body) {
        assert(opened.subrange(0, 3) =~= body.subrange(0, 3));
    }
}

/// Extraction is a function of the reply's text: two replies with the same
/// text carry the same verdict, however often and in whatever order they are
/// read.
pub proof fn lemma_same_reply_same_verdict(first: Seq<char>, second: Seq<char>)
    requires
        first =~= second,
    ensures
        verdict_in(first) == verdict_in(second),
{
}

} // verus!
