//! Text as a sequence of characters: whitespace, trimming, and the removal of
//! repeated prefixes and suffixes.

use vstd::prelude::*;

verus! {

/// The characters that Unicode gives the property `White_Space`.
pub open spec fn is_whitespace(c: char) -> bool {
    let u = c as u32;
    ||| 0x09 <= u <= 0x0D
    ||| u == 0x20
    ||| u == 0x85
    ||| u == 0xA0
    ||| u == 0x1680
    ||| 0x2000 <= u <= 0x200A
    ||| u == 0x2028
    ||| u == 0x2029
    ||| u == 0x202F
    ||| u == 0x205F
    ||| u == 0x3000
}

/// Tells whether a character is whitespace.
pub fn char_is_whitespace(c: char) -> (yes: bool)
    ensures
        yes == is_whitespace(c),
{
    let u: u32 = c as u32;
    (0x09 <= u && u <= 0x0D) || u == 0x20 || u == 0x85 || u == 0xA0 || u == 0x1680 || (0x2000 <= u
        && u <= 0x200A) || u == 0x2028 || u == 0x2029 || u == 0x202F || u == 0x205F || u == 0x3000
}

/// The characters of a string, in order.
pub fn chars_of(text: &str) -> (chars: Vec<char>)
    ensures
        chars@ == text@,
{
    let mut chars: Vec<char> = Vec::new();
    for c in it: text.chars()
        invariant
            chars@ == it.seq().take(it.index() as int),
            it.seq() == text@,
    {
        chars.push(c);
    }
    chars
}

/// The text without the whitespace at its start.
pub open spec fn trim_start(s: Seq<char>) -> Seq<char>
    decreases s.len(),
{
    if s.len() > 0 && is_whitespace(s.first()) {
        trim_start(s.drop_first())
    } else {
        s
    }
}

/// The text without the whitespace at its end.
pub open spec fn trim_end(s: Seq<char>) -> Seq<char>
    decreases s.len(),
{
    if s.len() > 0 && is_whitespace(s.last()) {
        trim_end(s.drop_last())
    } else {
        s
    }
}

/// The text without the whitespace at either end.
pub open spec fn trim(s: Seq<char>) -> Seq<char> {
    trim_end(trim_start(s))
}

/// The text after `marker` was taken off its start as often as it stands
/// there. An empty marker takes nothing off.
pub open spec fn strip_prefixes(s: Seq<char>, marker: Seq<char>) -> Seq<char>
    decreases s.len(),
{
    if marker.len() > 0 && marker.is_prefix_of(s) {
        strip_prefixes(s.skip(marker.len() as int), marker)
    } else {
        s
    }
}

/// The text after `marker` was taken off its end as often as it stands
/// there. An empty marker takes nothing off.
pub open spec fn strip_suffixes(s: Seq<char>, marker: Seq<char>) -> Seq<char>
    decreases s.len(),
{
    if marker.len() > 0 && marker.is_suffix_of(s) {
        strip_suffixes(s.take(s.len() - marker.len()), marker)
    } else {
        s
    }
}

/// Moves the start of the window `[lo, hi)` past the whitespace that the
/// window begins with.
pub fn skip_whitespace(chars: &Vec<char>, lo: usize, hi: usize) -> (start: usize)
    requires
        lo <= hi <= chars@.len(),
    ensures
        lo <= start <= hi,
        chars@.subrange(start as int, hi as int) == trim_start(chars@.subrange(lo as int, hi as int)),
{
    let mut start: usize = lo;
    while start < hi && char_is_whitespace(chars[start])
        invariant
            lo <= start <= hi <= chars@.len(),
            trim_start(chars@.subrange(start as int, hi as int)) == trim_start(
                chars@.subrange(lo as int, hi as int),
            ),
        decreases hi - start,
    {
        assert(chars@.subrange(start as int, hi as int).drop_first() == chars@.subrange(
            start + 1,
            hi as int,
        ));
        start = start + 1;
    }
    start
}

/// Moves the end of the window `[lo, hi)` before the whitespace that the
/// window ends with.
pub fn drop_whitespace(chars: &Vec<char>, lo: usize, hi: usize) -> (end: usize)
    requires
        lo <= hi <= chars@.len(),
    ensures
        lo <= end <= hi,
        chars@.subrange(lo as int, end as int) == trim_end(chars@.subrange(lo as int, hi as int)),
{
    let mut end: usize = hi;
    while lo < end && char_is_whitespace(chars[end - 1])
        invariant
            lo <= end <= hi <= chars@.len(),
            trim_end(chars@.subrange(lo as int, end as int)) == trim_end(
                chars@.subrange(lo as int, hi as int),
            ),
        decreases end - lo,
    {
        assert(chars@.subrange(lo as int, end as int).drop_last() == chars@.subrange(
            lo as int,
            end - 1,
        ));
        end = end - 1;
    }
    end
}

/// Tells whether the window `[lo, hi)` begins with `marker`.
pub fn window_starts_with(
    chars: &Vec<char>,
    lo: usize,
    hi: usize,
    marker: &Vec<char>,
) -> (yes: bool)
    requires
        lo <= hi <= chars@.len(),
    ensures
        yes == marker@.is_prefix_of(chars@.subrange(lo as int, hi as int)),
{
    let n = marker.len();
    if n > hi - lo {
        return false;
    }
    let ghost window = chars@.subrange(lo as int, hi as int);
    let mut i: usize = 0;
    while i < n
        invariant
            lo <= hi <= chars@.len(),
            n == marker@.len(),
            n <= hi - lo,
            i <= n,
            window == chars@.subrange(lo as int, hi as int),
            forall|k: int| 0 <= k < i ==> marker@[k] == window[k],
        decreases n - i,
    {
        if marker[i] != chars[lo + i] {
            assert(window.subrange(0, n as int)[i as int] != marker@[i as int]);
            return false;
        }
        i = i + 1;
    }
    assert(window.subrange(0, n as int) =~= marker@);
    true
}

/// Tells whether the window `[lo, hi)` ends with `marker`.
pub fn window_ends_with(chars: &Vec<char>, lo: usize, hi: usize, marker: &Vec<char>) -> (yes: bool)
    requires
        lo <= hi <= chars@.len(),
    ensures
        yes == marker@.is_suffix_of(chars@.subrange(lo as int, hi as int)),
{
    let n = marker.len();
    if n > hi - lo {
        return false;
    }
    let ghost window = chars@.subrange(lo as int, hi as int);
    let base: usize = hi - n;
    let mut i: usize = 0;
    while i < n
        invariant
            lo <= hi <= chars@.len(),
            n == marker@.len(),
            n <= hi - lo,
            base == hi - n,
            i <= n,
            window == chars@.subrange(lo as int, hi as int),
            forall|k: int| 0 <= k < i ==> marker@[k] == window[window.len() - n + k],
        decreases n - i,
    {
        if marker[i] != chars[base + i] {
            assert(window.subrange(window.len() - n, window.len() as int)[i as int]
                != marker@[i as int]);
            return false;
        }
        i = i + 1;
    }
    assert(window.subrange(window.len() - n, window.len() as int) =~= marker@);
    true
}

/// Moves the start of the window `[lo, hi)` past every `marker` that the
/// window begins with.
pub fn skip_prefixes(chars: &Vec<char>, lo: usize, hi: usize, marker: &Vec<char>) -> (start: usize)
    requires
        lo <= hi <= chars@.len(),
    ensures
        lo <= start <= hi,
        chars@.subrange(start as int, hi as int) == strip_prefixes(
            chars@.subrange(lo as int, hi as int),
            marker@,
        ),
{
    let n = marker.len();
    let mut start: usize = lo;
    if n == 0 {
        return start;
    }
    while window_starts_with(chars, start, hi, marker)
        invariant
            lo <= start <= hi <= chars@.len(),
            n == marker@.len(),
            n > 0,
            strip_prefixes(chars@.subrange(start as int, hi as int), marker@) == strip_prefixes(
                chars@.subrange(lo as int, hi as int),
                marker@,
            ),
        decreases hi - start,
    {
        assert(chars@.subrange(start as int, hi as int).skip(n as int) == chars@.subrange(
            start + n,
            hi as int,
        ));
        start = start + n;
    }
    start
}

/// Moves the end of the window `[lo, hi)` before every `marker` that the
/// window ends with.
pub fn drop_suffixes(chars: &Vec<char>, lo: usize, hi: usize, marker: &Vec<char>) -> (end: usize)
    requires
        lo <= hi <= chars@.len(),
    ensures
        lo <= end <= hi,
        chars@.subrange(lo as int, end as int) == strip_suffixes(
            chars@.subrange(lo as int, hi as int),
            marker@,
        ),
{
    let n = marker.len();
    let mut end: usize = hi;
    if n == 0 {
        return end;
    }
    while window_ends_with(chars, lo, end, marker)
        invariant
            lo <= end <= hi <= chars@.len(),
            n == marker@.len(),
            n > 0,
            strip_suffixes(chars@.subrange(lo as int, end as int), marker@) == strip_suffixes(
                chars@.subrange(lo as int, hi as int),
                marker@,
            ),
        decreases end - lo,
    {
        assert(chars@.subrange(lo as int, end as int).take(end - lo - n) == chars@.subrange(
            lo as int,
            end - n,
        ));
        end = end - n;
    }
    end
}

/// Trimmed text is tight: if anything is left, it neither begins nor ends with
/// whitespace. And trimming takes characters off the ends only.
pub proof fn lemma_trim_is_tight(s: Seq<char>)
    ensures
        trim(s).len() > 0 ==> !is_whitespace(trim(s).first()) && !is_whitespace(trim(s).last()),
        exists|lo: int, hi: int| 0 <= lo <= hi <= s.len() && trim(s) == s.subrange(lo, hi),
{
    lemma_trim_start_is_tight(s);
    let inner = trim_start(s);
    lemma_trim_end_is_tight(inner);
    let lo = s.len() - inner.len();
    let hi = lo + trim(s).len();
    assert(trim(s) =~= s.subrange(lo, hi));
}

proof fn lemma_trim_start_is_tight(s: Seq<char>)
    ensures
        trim_start(s).len() <= s.len(),
        trim_start(s) == s.skip(s.len() - trim_start(s).len()),
        trim_start(s).len() > 0 ==> !is_whitespace(trim_start(s).first()),
    decreases s.len(),
{
    if s.len() > 0 && is_whitespace(s.first()) {
        lemma_trim_start_is_tight(s.drop_first());
        assert(trim_start(s) =~= s.skip(s.len() - trim_start(s).len()));
    } else {
        assert(s =~= s.skip(0));
    }
}

proof fn lemma_trim_end_is_tight(s: Seq<char>)
    ensures
        trim_end(s).len() <= s.len(),
        trim_end(s) == s.take(trim_end(s).len() as int),
        trim_end(s).len() > 0 ==> !is_whitespace(trim_end(s).last()),
    decreases s.len(),
{
    if s.len() > 0 && is_whitespace(s.last()) {
        lemma_trim_end_is_tight(s.drop_last());
        assert(trim_end(s) =~= s.take(trim_end(s).len() as int));
    } else {
        assert(s =~= s.take(s.len() as int));
    }
}

/// Once every marker is taken off the start, none stands there; what is left
/// is an end of the text.
pub proof fn lemma_strip_prefixes_leaves_none(s: Seq<char>, marker: Seq<char>)
    requires
        marker.len() > 0,
    ensures
        !marker.is_prefix_of(strip_prefixes(s, marker)),
        strip_prefixes(s, marker).len() <= s.len(),
        strip_prefixes(s, marker) == s.skip(s.len() - strip_prefixes(s, marker).len()),
    decreases s.len(),
{
    if marker.is_prefix_of(s) {
        let rest = s.skip(marker.len() as int);
        lemma_strip_prefixes_leaves_none(rest, marker);
        assert(strip_prefixes(s, marker) =~= s.skip(s.len() - strip_prefixes(s, marker).len()));
    } else {
        assert(s =~= s.skip(0));
    }
}

/// Once every marker is taken off the end, none stands there; what is left is
/// a start of the text.
pub proof fn lemma_strip_suffixes_leaves_none(s: Seq<char>, marker: Seq<char>)
    requires
        marker.len() > 0,
    ensures
        !marker.is_suffix_of(strip_suffixes(s, marker)),
        strip_suffixes(s, marker).len() <= s.len(),
        strip_suffixes(s, marker) == s.take(strip_suffixes(s, marker).len() as int),
    decreases s.len(),
{
    if marker.is_suffix_of(s) {
        let rest = s.take(s.len() - marker.len());
        lemma_strip_suffixes_leaves_none(rest, marker);
        assert(strip_suffixes(s, marker) =~= s.take(strip_suffixes(s, marker).len() as int));
    } else {
        assert(s =~= s.take(s.len() as int));
    }
}

} // verus!
