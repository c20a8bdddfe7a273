//! The sample recorder's format: one line of text per judged message.
//!
//! A line holds three fields in double quotes, separated by commas: the
//! message as it was shown to the classifier, the verdict, and the record's
//! identifier. Writing the line to the log is the caller's part.

use vstd::prelude::*;
use vstd::string::StringExecFns;

verus! {

/// `String::push` of the standard library appends one character to the end of
/// the string, as its documentation says.
pub assume_specification[ String::push ](s: &mut String, ch: char)
    ensures
        final(s)@ == old(s)@.push(ch),
;

/// One judged message: what the classifier saw, what it said, and the
/// identifier under which the sample is filed.
#[derive(Clone, Debug, PartialEq, Eq)]
pub struct SampleRecord {
    pub message: String,
    pub is_spam: bool,
    pub id: String,
}

/// The mathematical model of a [`SampleRecord`].
pub ghost struct SampleRecordView {
    pub message: Seq<char>,
    pub is_spam: bool,
    pub id: Seq<char>,
}

impl View for SampleRecord {
    type V = SampleRecordView;

    open spec fn view(&self) -> SampleRecordView {
        SampleRecordView { message: self.message@, is_spam: self.is_spam, id: self.id@ }
    }
}

/// What one character of the message becomes in its field: a double quote is
/// doubled, a line feed and a space are left out, and every other character
/// stands for itself.
pub open spec fn escaped_char(c: char) -> Seq<char> {
    if c == '"' {
        seq!['"', '"']
    } else if c == '\n' || c == ' ' {
        Seq::empty()
    } else {
        seq![c]
    }
}

/// The message as it stands in its field.
pub open spec fn escaped(text: Seq<char>) -> Seq<char>
    decreases text.len(),
{
    if text.len() == 0 {
        Seq::empty()
    } else {
        escaped(text.drop_last()) + escaped_char(text.last())
    }
}

/// The verdict as it stands in its field.
pub open spec fn flag_text(flag: bool) -> Seq<char> {
    if flag {
        seq!['t', 'r', 'u', 'e']
    } else {
        seq!['f', 'a', 'l', 's', 'e']
    }
}

/// What stands between two fields: the quote that closes one, a comma, and
/// the quote that opens the next.
pub open spec fn separator() -> Seq<char> {
    seq!['"', ',', '"']
}

/// The line of a sample: the three quoted fields and a line feed.
pub open spec fn sample_line(message: Seq<char>, is_spam: bool, id: Seq<char>) -> Seq<char> {
    seq!['"'] + escaped(message) + separator() + flag_text(is_spam) + separator() + id + seq![
        '"',
        '\n',
    ]
}

/// Formats the line of a sample. The identifier is written as it is.
pub fn csv_line(message: &str, is_spam: bool, id: &str) -> (line: String)
    ensures
        line@ == sample_line(message@, is_spam, id@),
{
    let mut line = String::new();
    line.push('"');
    for c in it: message.chars()
        invariant
            it.seq() == message@,
            line@ == seq!['"'] + escaped(it.seq().take(it.index() as int)),
    {
        proof {
            let seen = it.seq().take(it.index() + 1);
            assert(seen.drop_last() == it.seq().take(it.index() as int));
            assert(seen.last() == c);
        }
        if c == '"' {
            line.push('"');
            line.push('"');
        } else if c == '\n' || c == ' ' {
        } else {
            line.push(c);
        }
    }
    assert(message@.take(message@.len() as int) == message@);
    line.push('"');
    line.push(',');
    line.push('"');
    if is_spam {
        proof {
            reveal_strlit("true");
        }
        line.append("true");
        assert("true"@ =~= flag_text(true));
    } else {
        proof {
            reveal_strlit("false");
        }
        line.append("false");
        assert("false"@ =~= flag_text(false));
    }
    line.push('"');
    line.push(',');
    line.push('"');
    line.append(id);
    line.push('"');
    line.push('\n');
    line
}

impl SampleRecord {
    /// The line that files this record.
    pub fn to_line(&self) -> (line: String)
        ensures
            line@ == sample_line(self@.message, self@.is_spam, self@.id),
    {
        csv_line(self.message.as_str(), self.is_spam, self.id.as_str())
    }
}

/// The message's field holds neither a line feed nor a space.
pub proof fn lemma_escaped_has_no_break(text: Seq<char>)
    ensures
        forall|i: int|
            0 <= i < escaped(text).len() ==> escaped(text)[i] != '\n' && escaped(text)[i] != ' ',
    decreases text.len(),
{
    if text.len() > 0 {
        lemma_escaped_has_no_break(text.drop_last());
        let head = escaped(text.drop_last());
        let tail = escaped_char(text.last());
        assert forall|i: int| 0 <= i < escaped(text).len() implies escaped(text)[i] != '\n'
            && escaped(text)[i] != ' ' by {
            if i >= head.len() {
                assert(escaped(text)[i] == tail[i - head.len()]);
            } else {
                assert(escaped(text)[i] == head[i]);
            }
        }
    }
}

/// A sample takes exactly one line: where the identifier holds no line feed,
/// the line ends with a line feed and holds no other.
pub proof fn lemma_sample_is_one_line(message: Seq<char>, is_spam: bool, id: Seq<char>)
    requires
        forall|i: int| 0 <= i < id.len() ==> id[i] != '\n',
    ensures
        sample_line(message, is_spam, id).len() > 0,
        sample_line(message, is_spam, id).last() == '\n',
        forall|i: int|
            0 <= i < sample_line(message, is_spam, id).len() - 1 ==> sample_line(
                message,
                is_spam,
                id,
            )[i] != '\n',
{
    lemma_escaped_has_no_break(message);
}

/// The message without its line feeds and spaces.
pub open spec fn without_breaks(text: Seq<char>) -> Seq<char>
    decreases text.len(),
{
    if text.len() == 0 {
        Seq::empty()
    } else if text.first() == '\n' || text.first() == ' ' {
        without_breaks(text.drop_first())
    } else {
        seq![text.first()] + without_breaks(text.drop_first())
    }
}

/// A field as its reader takes it: from the start, two double quotes in a
/// row stand for one, and every other character stands for itself.
pub open spec fn unescaped(field: Seq<char>) -> Seq<char>
    decreases field.len(),
{
    if field.len() == 0 {
        Seq::empty()
    } else if field.len() >= 2 && field[0] == '"' && field[1] == '"' {
        seq!['"'] + unescaped(field.skip(2))
    } else {
        seq![field.first()] + unescaped(field.drop_first())
    }
}

proof fn lemma_escaped_of_joined(first: Seq<char>, second: Seq<char>)
    ensures
        escaped(first + second) == escaped(first) + escaped(second),
    decreases second.len(),
{
    if second.len() == 0 {
        assert(first + second =~= first);
        assert(escaped(first) + escaped(second) =~= escaped(first));
    } else {
        lemma_escaped_of_joined(first, second.drop_last());
        assert((first + second).drop_last() =~= first + second.drop_last());
        assert((first + second).last() == second.last());
        assert(escaped(first + second) =~= escaped(first) + escaped(second));
    }
}

/// Escaping loses nothing but the line feeds and spaces: a reader of the
/// field gets the message back without them, every double quote in its place.
pub proof fn lemma_field_reads_back(text: Seq<char>)
    ensures
        unescaped(escaped(text)) == without_breaks(text),
    decreases text.len(),
{
    if text.len() > 0 {
        let c = text.first();
        let rest = text.drop_first();
        lemma_field_reads_back(rest);
        assert(escaped(text) == escaped_char(c) + escaped(rest)) by {
            assert(text =~= seq![c] + rest);
            lemma_escaped_of_joined(seq![c], rest);
            assert(seq![c].drop_last() =~= Seq::<char>::empty());
            reveal_with_fuel(escaped, 2);
            assert(escaped(seq![c]) =~= escaped_char(c));
        }
        let field = escaped(text);
        if c == '"' {
            assert(field.skip(2) =~= escaped(rest));
        } else if c == '\n' || c == ' ' {
            assert(field =~= escaped(rest));
        } else {
            assert(field.drop_first() =~= escaped(rest));
        }
    }
}

} // verus!
