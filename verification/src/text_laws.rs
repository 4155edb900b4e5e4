//! What holds of the lines of any text.
//!
//! With `law_line_is_added` of `log_laws`, the laws on lines tell the lines of every
//! text: a text is empty, or its last line ends at a line feed, at a carriage return and
//! a line feed, or not at all.
use crate::log_laws::lemma_line_behind;
use crate::text::{lines_of, maybe_text, texts, without_return};
use vstd::prelude::*;

verus! {

/// An empty text has no lines.
pub proof fn law_empty_text_has_no_lines()
    ensures
        lines_of(Seq::<char>::empty()) == Seq::<Seq<char>>::empty(),
{
    assert(lines_of(Seq::<char>::empty()) =~= Seq::<Seq<char>>::empty());
}

/// A line that ends at a carriage return and a line feed is one line more, and neither
/// is part of it.
pub proof fn law_line_with_return_is_added(raw: Seq<char>, line: Seq<char>)
    requires
        raw.len() == 0 || raw.last() == '\n',
        !line.contains('\n'),
    ensures
        lines_of(raw + line + seq!['\r', '\n']) == lines_of(raw).push(line),
{
    let whole = line + seq!['\r'];
    assert forall|i: int| 0 <= i < whole.len() implies whole[i] != '\n' by {
        if i < line.len() {
            assert(line.contains(line[i]));
        }
    }
    lemma_line_behind(raw, whole);
    let text = raw + line + seq!['\r', '\n'];
    assert(text.drop_last() =~= raw + whole);
    assert(text.last() == '\n');
    assert(without_return(whole) =~= line);
}

/// A line that nothing ends is the last line, as it stands.
pub proof fn law_open_line_is_added(raw: Seq<char>, line: Seq<char>)
    requires
        raw.len() == 0 || raw.last() == '\n',
        !line.contains('\n'),
        line.len() > 0,
    ensures
        lines_of(raw + line) == lines_of(raw).push(line),
{
    lemma_line_behind(raw, line);
}

/// The characters of some strings are theirs, one for one.
pub proof fn law_texts_are_one_for_one(strings: Seq<String>, at: int)
    ensures
        texts(strings).len() == strings.len(),
        0 <= at < strings.len() ==> texts(strings)[at] == strings[at]@,
{
}

/// A string that may be missing has its characters exactly where it is there.
pub proof fn law_maybe_text_is_the_text(s: String)
    ensures
        maybe_text(Some(s)) == Some(s@),
        maybe_text(None) is None,
{
}

} // verus!
