//! Text: comparison, and the lines of a text.
use vstd::prelude::*;
use vstd::utf8::{encode_utf8, encode_utf8_decode_utf8};

verus! {

/// `String::push`: the character goes to the end of the string.
pub assume_specification[ String::push ](s: &mut String, c: char)
    ensures
        final(s)@ == old(s)@.push(c),
;

/// Whether two texts hold the same characters. Their bytes decide, since a text can be
/// told from its bytes.
pub(crate) fn same_text(a: &str, b: &str) -> (same: bool)
    ensures
        same == (a@ == b@),
{
    let x = a.as_bytes();
    let y = b.as_bytes();
    proof {
        encode_utf8_decode_utf8(a@);
        encode_utf8_decode_utf8(b@);
    }
    if x.len() != y.len() {
        return false;
    }
    let mut i: usize = 0;
    while i < x.len()
        invariant
            i <= x.len(),
            x@.len() == y@.len(),
            x@ == encode_utf8(a@),
            y@ == encode_utf8(b@),
            forall|j: int| 0 <= j < i ==> x@[j] == y@[j],
        decreases x.len() - i,
    {
        if x[i] != y[i] {
            return false;
        }
        i += 1;
    }
    assert(x@ =~= y@);
    true
}

/// A line without the carriage return that stands before its line feed.
pub open spec fn without_return(line: Seq<char>) -> Seq<char> {
    if line.len() > 0 && line.last() == '\r' {
        line.drop_last()
    } else {
        line
    }
}

/// The lines of a text that a line feed ends.
pub open spec fn ended_lines(text: Seq<char>) -> Seq<Seq<char>>
    decreases text.len(),
{
    if text.len() == 0 {
        Seq::empty()
    } else if text.last() == '\n' {
        ended_lines(text.drop_last()).push(without_return(open_line(text.drop_last())))
    } else {
        ended_lines(text.drop_last())
    }
}

/// What stands behind the last line feed of a text.
pub open spec fn open_line(text: Seq<char>) -> Seq<char>
    decreases text.len(),
{
    if text.len() == 0 || text.last() == '\n' {
        Seq::empty()
    } else {
        open_line(text.drop_last()).push(text.last())
    }
}

/// The lines of a text: those that a line feed ends, and what is left behind the
/// last line feed unless that is empty.
pub open spec fn lines_of(text: Seq<char>) -> Seq<Seq<char>> {
    if open_line(text).len() == 0 {
        ended_lines(text)
    } else {
        ended_lines(text).push(open_line(text))
    }
}

/// The characters of each string.
pub open spec fn texts(strings: Seq<String>) -> Seq<Seq<char>> {
    strings.map_values(|s: String| s@)
}

/// The characters of a string that may be missing.
pub open spec fn maybe_text(text: Option<String>) -> Option<Seq<char>> {
    match text {
        Some(s) => Some(s@),
        None => None,
    }
}

/// The lines of a text, without their ends. A line ends at a line feed, or at a
/// carriage return and a line feed; the end of the last line may be missing.
pub fn lines(text: &str) -> (found: Vec<String>)
    ensures
        texts(found@) == lines_of(text@),
{
    let mut found: Vec<String> = Vec::new();
    // The open line is `line`, and a carriage return where one is held back.
    let mut line: String = String::new();
    let mut held: bool = false;
    assert(text@.take(0) =~= Seq::<char>::empty());
    for c in it: text.chars()
        invariant
            it.seq() == text@,
            texts(found@) == ended_lines(text@.take(it.index() as int)),
            open_line(text@.take(it.index() as int)) == if held {
                line@.push('\r')
            } else {
                line@
            },
            !held && line@.len() > 0 ==> line@.last() != '\r',
    {
        let ghost before = text@.take(it.index() as int);
        let ghost after = text@.take(it.index() + 1);
        assert(after.drop_last() =~= before);
        assert(after.last() == c);
        let ghost lines_before = found@;
        if c == '\n' {
            assert(without_return(open_line(before)) =~= line@);
            found.push(line);
            assert(texts(found@) =~= texts(lines_before).push(line@));
            line = String::new();
            held = false;
        } else {
            if held {
                line.push('\r');
            }
            if c == '\r' {
                held = true;
            } else {
                line.push(c);
                held = false;
            }
        }
    }
    assert(text@.take(text@.len() as int) =~= text@);
    if held {
        line.push('\r');
    }
    if !line.as_str().is_empty() {
        let ghost lines_before = found@;
        found.push(line);
        assert(texts(found@) =~= texts(lines_before).push(line@));
    }
    found
}

} // verus!
