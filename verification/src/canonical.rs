//! Canonical form of a query: the text without leading and trailing whitespace.

use vstd::prelude::*;
use vstd::string::*;

verus! {

/// Whether `c` has the Unicode `White_Space` property.
pub open spec fn is_whitespace_char(c: char) -> bool {
    let v = c as u32;
    ||| 0x09 <= v <= 0x0D
    ||| v == 0x20
    ||| v == 0x85
    ||| v == 0xA0
    ||| v == 0x1680
    ||| 0x2000 <= v <= 0x200A
    ||| v == 0x2028
    ||| v == 0x2029
    ||| v == 0x202F
    ||| v == 0x205F
    ||| v == 0x3000
}

/// `text` without its leading whitespace.
pub open spec fn trim_start(text: Seq<char>) -> Seq<char>
    decreases text.len(),
{
    if text.len() > 0 && is_whitespace_char(text.first()) {
        trim_start(text.drop_first())
    } else {
        text
    }
}

/// `text` without its trailing whitespace.
pub open spec fn trim_end(text: Seq<char>) -> Seq<char>
    decreases text.len(),
{
    if text.len() > 0 && is_whitespace_char(text.last()) {
        trim_end(text.drop_last())
    } else {
        text
    }
}

/// The canonical form of a query: leading and trailing whitespace removed,
/// everything between kept as it is.
pub open spec fn canonical(text: Seq<char>) -> Seq<char> {
    trim_end(trim_start(text))
}

/// Tests a character for the Unicode `White_Space` property.
pub fn is_whitespace(c: char) -> (res: bool)
    ensures
        res == is_whitespace_char(c),
{
    let v: u32 = c as u32;
    (0x09 <= v && v <= 0x0D) || v == 0x20 || v == 0x85 || v == 0xA0 || v == 0x1680 || (0x2000 <= v
        && v <= 0x200A) || v == 0x2028 || v == 0x2029 || v == 0x202F || v == 0x205F || v == 0x3000
}

/// Whether every character of `text` is whitespace.
pub open spec fn all_whitespace(text: Seq<char>) -> bool {
    forall|i: int| 0 <= i < text.len() ==> is_whitespace_char(#[trigger] text[i])
}

/// Whether `text` is in canonical form: it neither starts nor ends with whitespace.
pub open spec fn is_canonical(text: Seq<char>) -> bool {
    text.len() > 0 ==> !is_whitespace_char(text.first()) && !is_whitespace_char(text.last())
}

/// Trimming at the start removes exactly the whitespace before the first
/// character that is none.
pub proof fn lemma_trim_start_skips(text: Seq<char>, k: int)
    requires
        0 <= k <= text.len(),
        forall|i: int| 0 <= i < k ==> is_whitespace_char(#[trigger] text[i]),
        k < text.len() ==> !is_whitespace_char(text[k]),
    ensures
        trim_start(text) == text.skip(k),
    decreases k,
{
    if k == 0 {
        assert(text.skip(0) =~= text);
    } else {
        let rest = text.drop_first();
        assert forall|i: int| 0 <= i < k - 1 implies is_whitespace_char(#[trigger] rest[i]) by {
            assert(rest[i] == text[i + 1]);
        }
        lemma_trim_start_skips(rest, k - 1);
        assert(rest.skip(k - 1) =~= text.skip(k));
    }
}

/// Trimming at the end removes exactly the whitespace after the last
/// character that is none.
pub proof fn lemma_trim_end_takes(text: Seq<char>, k: int)
    requires
        0 <= k <= text.len(),
        forall|i: int| k <= i < text.len() ==> is_whitespace_char(#[trigger] text[i]),
        0 < k ==> !is_whitespace_char(text[k - 1]),
    ensures
        trim_end(text) == text.take(k),
    decreases text.len() - k,
{
    if k == text.len() {
        assert(text.take(k) =~= text);
    } else {
        let rest = text.drop_last();
        lemma_trim_end_takes(rest, k);
        assert(rest.take(k) =~= text.take(k));
    }
}

/// What trimming at the start leaves does not start with whitespace.
proof fn lemma_trim_start_head(text: Seq<char>)
    ensures
        trim_start(text).len() > 0 ==> !is_whitespace_char(trim_start(text).first()),
    decreases text.len(),
{
    if text.len() > 0 && is_whitespace_char(text.first()) {
        lemma_trim_start_head(text.drop_first());
    }
}

/// Trimming at the end keeps a first character that is no whitespace, and
/// leaves a text that does not end with whitespace.
proof fn lemma_trim_end_shape(text: Seq<char>)
    ensures
        trim_end(text).len() > 0 ==> !is_whitespace_char(trim_end(text).last()),
        text.len() > 0 && !is_whitespace_char(text.first()) ==> trim_end(text).len() > 0
            && trim_end(text).first() == text.first(),
    decreases text.len(),
{
    if text.len() > 0 && is_whitespace_char(text.last()) {
        lemma_trim_end_shape(text.drop_last());
    }
}

/// The canonical form of any text is canonical.
pub proof fn lemma_canonical_is_canonical(text: Seq<char>)
    ensures
        is_canonical(canonical(text)),
{
    lemma_trim_start_head(text);
    lemma_trim_end_shape(trim_start(text));
}

/// A text in canonical form is its own canonical form.
pub proof fn lemma_canonical_fixes_canonical(text: Seq<char>)
    requires
        is_canonical(text),
    ensures
        canonical(text) == text,
{
}

/// Canonicalising is idempotent: a second pass changes nothing.
pub proof fn lemma_canonical_idempotent(text: Seq<char>)
    ensures
        canonical(canonical(text)) == canonical(text),
{
    lemma_canonical_is_canonical(text);
    lemma_canonical_fixes_canonical(canonical(text));
}

/// Whitespace in front of a text is trimmed away with the text's own.
proof fn lemma_trim_start_ignores_prefix(before: Seq<char>, text: Seq<char>)
    requires
        all_whitespace(before),
    ensures
        trim_start(before + text) == trim_start(text),
    decreases before.len(),
{
    if before.len() == 0 {
        assert(before + text =~= text);
    } else {
        assert((before + text).first() == before[0]);
        assert((before + text).drop_first() =~= before.drop_first() + text);
        assert forall|i: int| 0 <= i < before.drop_first().len() implies is_whitespace_char(
            #[trigger] before.drop_first()[i],
        ) by {
            assert(before.drop_first()[i] == before[i + 1]);
        }
        lemma_trim_start_ignores_prefix(before.drop_first(), text);
    }
}

/// Whitespace behind a text is trimmed away with the text's own.
proof fn lemma_trim_end_ignores_suffix(text: Seq<char>, after: Seq<char>)
    requires
        all_whitespace(after),
    ensures
        trim_end(text + after) == trim_end(text),
    decreases after.len(),
{
    if after.len() == 0 {
        assert(text + after =~= text);
    } else {
        assert((text + after).last() == after.last());
        assert((text + after).drop_last() =~= text + after.drop_last());
        assert forall|i: int| 0 <= i < after.drop_last().len() implies is_whitespace_char(
            #[trigger] after.drop_last()[i],
        ) by {
            assert(after.drop_last()[i] == after[i]);
        }
        lemma_trim_end_ignores_suffix(text, after.drop_last());
    }
}

/// Trimming at the start of a text followed by whitespace: the whitespace
/// stays behind what is left of the text, unless nothing is left of it.
proof fn lemma_trim_start_before_suffix(text: Seq<char>, after: Seq<char>)
    requires
        all_whitespace(after),
    ensures
        trim_start(text).len() > 0 ==> trim_start(text + after) == trim_start(text) + after,
        trim_start(text).len() == 0 ==> trim_start(text + after) == Seq::<char>::empty(),
    decreases text.len(),
{
    if text.len() == 0 {
        assert(text + after =~= after);
        lemma_all_whitespace_trims_to_nothing(after);
    } else {
        assert((text + after).first() == text.first());
        if is_whitespace_char(text.first()) {
            assert((text + after).drop_first() =~= text.drop_first() + after);
            lemma_trim_start_before_suffix(text.drop_first(), after);
        }
    }
}

/// Whitespace before and after a text does not change its canonical form.
pub proof fn lemma_canonical_ignores_padding(before: Seq<char>, text: Seq<char>, after: Seq<char>)
    requires
        all_whitespace(before),
        all_whitespace(after),
    ensures
        canonical(before + text + after) == canonical(text),
{
    assert(before + text + after =~= before + (text + after));
    lemma_trim_start_ignores_prefix(before, text + after);
    lemma_trim_start_before_suffix(text, after);
    if trim_start(text).len() > 0 {
        lemma_trim_end_ignores_suffix(trim_start(text), after);
    }
}

proof fn lemma_all_whitespace_trims_to_nothing(text: Seq<char>)
    requires
        all_whitespace(text),
    ensures
        trim_start(text) == Seq::<char>::empty(),
        trim_end(text) == Seq::<char>::empty(),
{
    lemma_trim_start_skips(text, text.len() as int);
    assert(text.skip(text.len() as int) =~= Seq::<char>::empty());
    lemma_trim_end_takes(text, 0);
    assert(text.take(0) =~= Seq::<char>::empty());
}

/// Brings a query into canonical form.
pub fn canonicalize(raw: &str) -> (res: &str)
    ensures
        res@ == canonical(raw@),
{
    let n: usize = raw.unicode_len();
    let mut i: usize = 0;
    let mut start: usize = 0;
    let mut end: usize = 0;
    for c in it: raw.chars()
        invariant
            i == it.index(),
            it.seq() == raw@,
            n == raw@.len(),
            start <= end <= i,
            forall|k: int| 0 <= k < start ==> is_whitespace_char(#[trigger] raw@[k]),
            forall|k: int| end <= k < i ==> is_whitespace_char(#[trigger] raw@[k]),
            start < end ==> !is_whitespace_char(raw@[start as int]) && !is_whitespace_char(
                raw@[end - 1],
            ),
            start == end ==> start == i,
    {
        if is_whitespace(c) {
            if start == end {
                start = i + 1;
                end = i + 1;
            }
        } else {
            end = i + 1;
        }
        i = i + 1;
    }
    proof {
        let text = raw@;
        lemma_trim_start_skips(text, start as int);
        let tail = text.skip(start as int);
        assert forall|k: int| end - start <= k < tail.len() implies is_whitespace_char(
            #[trigger] tail[k],
        ) by {
            assert(tail[k] == text[k + start]);
        }
        if start < end {
            assert(tail[end - start - 1] == text[end - 1]);
        }
        lemma_trim_end_takes(tail, end - start);
        assert(tail.take(end - start) =~= text.subrange(start as int, end as int));
    }
    raw.substring_char(start, end)
}

} // verus!
