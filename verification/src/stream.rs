//! The generation service's reply: a status, then a body of lines, each a
//! JSON object that may hold a fragment of the answer.

use crate::codec::utf8_text;
use vstd::prelude::*;
use vstd::slice::slice_subrange;
use vstd::string::*;
use vstd::utf8::valid_utf8;

verus! {

/// The line feed, which ends a line.
pub const LF: u8 = 0x0A;

/// The carriage return, which is dropped where it stands before a line feed.
pub const CR: u8 = 0x0D;

/// Whether an HTTP status stands for success: the codes from 200 to 299.
pub open spec fn success_status(status: u16) -> bool {
    200 <= status <= 299
}

/// Number of bytes before the first line feed, or of all bytes where there
/// is none.
pub open spec fn line_end(bytes: Seq<u8>) -> nat
    decreases bytes.len(),
{
    if bytes.len() == 0 || bytes[0] == LF {
        0
    } else {
        1 + line_end(bytes.drop_first())
    }
}

/// A line without the carriage return at its end, if it has one.
pub open spec fn strip_cr(line: Seq<u8>) -> Seq<u8> {
    if line.len() > 0 && line.last() == CR {
        line.drop_last()
    } else {
        line
    }
}

/// The lines of a chunk. A line ends with a line feed, or with a carriage
/// return and a line feed, neither of which belongs to it. What follows the
/// last line feed is a line too, unless nothing follows.
pub open spec fn lines_of(bytes: Seq<u8>) -> Seq<Seq<u8>>
    decreases bytes.len(),
{
    if bytes.len() == 0 {
        Seq::empty()
    } else {
        let n = line_end(bytes) as int;
        if n < bytes.len() {
            seq![strip_cr(bytes.take(n))] + lines_of(bytes.skip(n + 1))
        } else {
            seq![bytes]
        }
    }
}

/// The text of the member `name`, where `document` is one JSON object that
/// holds a string under that name; `None` for every other document.
pub uninterp spec fn json_string_member(document: Seq<u8>, name: Seq<char>) -> Option<Seq<char>>;

/// Name of the member that holds a fragment.
pub open spec fn fragment_name() -> Seq<char> {
    "response"@
}

/// The fragment that a line holds, `None` for a line to skip.
pub open spec fn fragment_of(line: Seq<u8>) -> Option<Seq<char>> {
    json_string_member(line, fragment_name())
}

/// The fragments of the lines of a chunk, line by line.
pub open spec fn fragments_of(chunk: Seq<u8>) -> Seq<Option<Seq<char>>> {
    lines_of(chunk).map_values(|line: Seq<u8>| fragment_of(line))
}

/// The fragments put together in their order; a skipped line adds nothing.
pub open spec fn joined(fragments: Seq<Option<Seq<char>>>) -> Seq<char>
    decreases fragments.len(),
{
    if fragments.len() == 0 {
        Seq::empty()
    } else {
        joined(fragments.drop_last()) + match fragments.last() {
            Some(text) => text,
            None => Seq::empty(),
        }
    }
}

/// The text that a chunk adds to the answer, `None` where the chunk is no
/// UTF-8.
pub open spec fn chunk_text(chunk: Seq<u8>) -> Option<Seq<char>> {
    if valid_utf8(chunk) {
        Some(joined(fragments_of(chunk)))
    } else {
        None
    }
}

/// The byte strings that a list of slices holds.
pub open spec fn slice_views(lines: Seq<&[u8]>) -> Seq<Seq<u8>> {
    lines.map_values(|line: &[u8]| line@)
}

/// The first line feed at or behind `from` is where the line that starts
/// at `from` ends.
proof fn lemma_line_end_found(bytes: Seq<u8>, from: int, at: int)
    requires
        0 <= from <= at <= bytes.len(),
        forall|i: int| from <= i < at ==> #[trigger] bytes[i] != LF,
        at < bytes.len() ==> bytes[at] == LF,
    ensures
        line_end(bytes.skip(from)) == at - from,
    decreases at - from,
{
    let rest = bytes.skip(from);
    if from == at {
        if at < bytes.len() {
            assert(rest[0] == bytes[at]);
        }
    } else {
        assert(rest[0] == bytes[from]);
        assert(rest.drop_first() =~= bytes.skip(from + 1));
        lemma_line_end_found(bytes, from + 1, at);
    }
}

/// Joining fragments one after another is joining them all.
pub proof fn lemma_joined_push(fragments: Seq<Option<Seq<char>>>, next: Option<Seq<char>>)
    ensures
        joined(fragments.push(next)) == joined(fragments) + match next {
            Some(text) => text,
            None => Seq::empty(),
        },
{
    assert(fragments.push(next).drop_last() =~= fragments);
}

/// Tests whether an HTTP status stands for success.
pub fn is_success(status: u16) -> (res: bool)
    ensures
        res == success_status(status),
{
    200 <= status && status <= 299
}

/// Parses one JSON document with `serde_json::from_slice` into a
/// `serde_json::Value` and picks the string stored under `name` where the
/// document is an object that holds one there. The outcome depends on the
/// bytes and the name alone.
#[verifier::external_body]
fn parse_string_member(document: &[u8], name: &str) -> (res: Option<String>)
    ensures
        res.deep_view() == json_string_member(document@, name@),
{
    match serde_json::from_slice::<serde_json::Value>(document) {
        Ok(serde_json::Value::Object(mut members)) => match members.remove(name) {
            Some(serde_json::Value::String(text)) => Some(text),
            _ => None,
        },
        _ => None,
    }
}

/// Finds where the line that starts at `from` ends: the place of the next
/// line feed, or the end of the bytes.
pub fn find_line_end(bytes: &[u8], from: usize) -> (at: usize)
    requires
        from <= bytes@.len(),
    ensures
        from <= at <= bytes@.len(),
        at == from + line_end(bytes@.skip(from as int)),
{
    let mut at: usize = from;
    while at < bytes.len() && bytes[at] != LF
        invariant
            from <= at <= bytes@.len(),
            forall|i: int| from <= i < at ==> #[trigger] bytes@[i] != LF,
        decreases bytes@.len() - at,
    {
        at = at + 1;
    }
    proof {
        lemma_line_end_found(bytes@, from as int, at as int);
    }
    at
}

/// Splits a chunk into its lines.
pub fn split_lines<'a>(chunk: &'a [u8]) -> (lines: Vec<&'a [u8]>)
    ensures
        slice_views(lines@) == lines_of(chunk@),
{
    let mut lines: Vec<&'a [u8]> = Vec::new();
    let mut pos: usize = 0;
    proof {
        assert(chunk@.skip(0) =~= chunk@);
        assert(slice_views(lines@) =~= Seq::<Seq<u8>>::empty());
        assert(slice_views(lines@) + lines_of(chunk@) =~= lines_of(chunk@));
    }
    while pos < chunk.len()
        invariant
            pos <= chunk@.len(),
            lines_of(chunk@) == slice_views(lines@) + lines_of(chunk@.skip(pos as int)),
        decreases chunk@.len() - pos,
    {
        let ghost rest = chunk@.skip(pos as int);
        let ghost before = slice_views(lines@);
        let end = find_line_end(chunk, pos);
        if end < chunk.len() {
            let stop = if end > pos && chunk[end - 1] == CR {
                end - 1
            } else {
                end
            };
            let line = slice_subrange(chunk, pos, stop);
            lines.push(line);
            proof {
                let whole = rest.take(end - pos);
                assert(whole =~= chunk@.subrange(pos as int, end as int));
                assert(strip_cr(whole) =~= line@);
                assert(rest.skip(end - pos + 1) =~= chunk@.skip(end + 1));
                assert(slice_views(lines@) =~= before.push(line@));
                assert(before + (seq![line@] + lines_of(chunk@.skip(end + 1))) =~= before.push(
                    line@,
                ) + lines_of(chunk@.skip(end + 1)));
            }
            pos = end + 1;
        } else {
            let line = slice_subrange(chunk, pos, end);
            lines.push(line);
            proof {
                assert(line@ =~= rest);
                assert(slice_views(lines@) =~= before.push(line@));
                assert(chunk@.skip(end as int) =~= Seq::<u8>::empty());
                assert(before + seq![rest] =~= before.push(line@) + lines_of(
                    chunk@.skip(end as int),
                ));
            }
            pos = end;
        }
    }
    proof {
        assert(chunk@.skip(pos as int) =~= Seq::<u8>::empty());
        assert(slice_views(lines@) + Seq::<Seq<u8>>::empty() =~= slice_views(lines@));
    }
    lines
}

/// Reads one line of the body: the fragment that it holds, or `None` for a
/// line that is no JSON object with a string under `response`.
pub fn read_line(line: &[u8]) -> (res: Option<String>)
    ensures
        res.deep_view() == fragment_of(line@),
{
    parse_string_member(line, "response")
}

/// Reads one chunk of the body, line by line: for each line its fragment,
/// or `None` for a line that was skipped. A chunk that is no UTF-8 is
/// refused as a whole.
pub fn read_chunk(chunk: &[u8]) -> (res: Option<Vec<Option<String>>>)
    ensures
        res is Some <==> valid_utf8(chunk@),
        res matches Some(fragments) ==> fragments.deep_view() == fragments_of(chunk@),
{
    if utf8_text(chunk).is_err() {
        return None;
    }
    let lines = split_lines(chunk);
    let mut fragments: Vec<Option<String>> = Vec::new();
    let mut i: usize = 0;
    while i < lines.len()
        invariant
            i <= lines@.len(),
            slice_views(lines@) == lines_of(chunk@),
            fragments.deep_view() == fragments_of(chunk@).take(i as int),
        decreases lines@.len() - i,
    {
        let ghost before = fragments.deep_view();
        let fragment = read_line(lines[i]);
        fragments.push(fragment);
        proof {
            assert(slice_views(lines@)[i as int] == lines@[i as int]@);
            assert(fragments.deep_view() =~= before.push(fragment.deep_view()));
            assert(fragments_of(chunk@).take(i + 1) =~= fragments_of(chunk@).take(i as int).push(
                fragment_of(lines_of(chunk@)[i as int]),
            ));
        }
        i = i + 1;
    }
    proof {
        assert(fragments_of(chunk@).take(i as int) =~= fragments_of(chunk@));
    }
    Some(fragments)
}

/// Appends the fragments to the answer in their order; skipped lines add
/// nothing.
pub fn append_fragments(answer: &mut String, fragments: &Vec<Option<String>>)
    ensures
        final(answer)@ == old(answer)@ + joined(fragments.deep_view()),
{
    let ghost all = fragments.deep_view();
    let mut i: usize = 0;
    proof {
        assert(all.take(0) =~= Seq::<Option<Seq<char>>>::empty());
        assert(answer@ + joined(all.take(0)) =~= answer@);
    }
    while i < fragments.len()
        invariant
            i <= fragments@.len(),
            all == fragments.deep_view(),
            answer@ == old(answer)@ + joined(all.take(i as int)),
        decreases fragments@.len() - i,
    {
        proof {
            lemma_joined_push(all.take(i as int), all[i as int]);
            assert(all.take(i + 1) =~= all.take(i as int).push(all[i as int]));
        }
        match &fragments[i] {
            Some(text) => {
                answer.append(text.as_str());
            },
            None => {},
        }
        i = i + 1;
    }
    proof {
        assert(all.take(i as int) =~= all);
    }
}

} // verus!
