//! Base64 text of a byte string: the standard alphabet, padded with `=`.

use ::base64::Engine;
use vstd::prelude::*;

verus! {

/// What `base64` reports of a text that it could not read.
#[verifier::external_type_specification]
#[verifier::external_body]
pub struct ExDecodeError(::base64::DecodeError);

/// The padding character.
pub const PAD: char = '=';

/// The character that stands for a six-bit value in the standard alphabet:
/// `A`-`Z`, `a`-`z`, `0`-`9`, `+`, `/`.
pub open spec fn base64_symbol(value: int) -> char {
    if value < 26 {
        (0x41 + value) as char
    } else if value < 52 {
        (0x61 + (value - 26)) as char
    } else if value < 62 {
        (0x30 + (value - 52)) as char
    } else if value == 62 {
        '+'
    } else {
        '/'
    }
}

/// Whether `c` belongs to the standard alphabet.
pub open spec fn is_base64_symbol(c: char) -> bool {
    ||| 0x41 <= c as u32 <= 0x5A
    ||| 0x61 <= c as u32 <= 0x7A
    ||| 0x30 <= c as u32 <= 0x39
    ||| c == '+'
    ||| c == '/'
}

/// The four characters for three bytes.
pub open spec fn base64_group(b0: u8, b1: u8, b2: u8) -> Seq<char> {
    seq![
        base64_symbol(b0 as int / 4),
        base64_symbol((b0 as int % 4) * 16 + b1 as int / 16),
        base64_symbol((b1 as int % 16) * 4 + b2 as int / 64),
        base64_symbol(b2 as int % 64),
    ]
}

/// The base64 text of `data`: four characters for every three bytes, and a
/// last group padded with `=` where one or two bytes are left over.
pub open spec fn base64_text(data: Seq<u8>) -> Seq<char>
    decreases data.len(),
{
    if data.len() == 0 {
        Seq::empty()
    } else if data.len() == 1 {
        seq![
            base64_symbol(data[0] as int / 4),
            base64_symbol((data[0] as int % 4) * 16),
            PAD,
            PAD,
        ]
    } else if data.len() == 2 {
        seq![
            base64_symbol(data[0] as int / 4),
            base64_symbol((data[0] as int % 4) * 16 + data[1] as int / 16),
            base64_symbol((data[1] as int % 16) * 4),
            PAD,
        ]
    } else {
        base64_group(data[0], data[1], data[2]) + base64_text(data.skip(3))
    }
}

/// Number of characters in the base64 text of `len` bytes.
pub open spec fn base64_len(len: nat) -> nat {
    4 * ((len + 2) / 3)
}

/// Whether `text` is the base64 text of some byte string.
pub open spec fn is_base64(text: Seq<char>) -> bool {
    exists|data: Seq<u8>| base64_text(data) == text
}

/// The byte string whose base64 text `text` is, where it is one.
pub open spec fn base64_data(text: Seq<char>) -> Seq<u8>
    recommends
        is_base64(text),
{
    choose|data: Seq<u8>| base64_text(data) == text
}

/// The alphabet has a character of its own for each six-bit value, and none
/// of them is the padding character.
pub proof fn lemma_base64_symbol(a: int, b: int)
    requires
        0 <= a < 64,
        0 <= b < 64,
    ensures
        is_base64_symbol(base64_symbol(a)),
        base64_symbol(a) != PAD,
        base64_symbol(a) == base64_symbol(b) ==> a == b,
{
}

/// The base64 text of `len` bytes has `base64_len(len)` characters.
pub proof fn lemma_base64_text_len(data: Seq<u8>)
    ensures
        base64_text(data).len() == base64_len(data.len()),
    decreases data.len(),
{
    if data.len() >= 3 {
        lemma_base64_text_len(data.skip(3));
    }
}

/// Base64 text holds characters of the alphabet and padding, nothing else.
pub proof fn lemma_base64_text_chars(data: Seq<u8>)
    ensures
        forall|i: int|
            0 <= i < base64_text(data).len() ==> {
                let c = #[trigger] base64_text(data)[i];
                is_base64_symbol(c) || c == PAD
            },
    decreases data.len(),
{
    let text = base64_text(data);
    if data.len() == 0 {
    } else if data.len() == 1 {
        lemma_base64_symbol(data[0] as int / 4, 0);
        lemma_base64_symbol((data[0] as int % 4) * 16, 0);
    } else if data.len() == 2 {
        lemma_base64_symbol(data[0] as int / 4, 0);
        lemma_base64_symbol((data[0] as int % 4) * 16 + data[1] as int / 16, 0);
        lemma_base64_symbol((data[1] as int % 16) * 4, 0);
    } else {
        let rest = base64_text(data.skip(3));
        lemma_base64_text_chars(data.skip(3));
        lemma_base64_symbol(data[0] as int / 4, 0);
        lemma_base64_symbol((data[0] as int % 4) * 16 + data[1] as int / 16, 0);
        lemma_base64_symbol((data[1] as int % 16) * 4 + data[2] as int / 64, 0);
        lemma_base64_symbol(data[2] as int % 64, 0);
        assert forall|i: int| 0 <= i < text.len() implies {
            let c = #[trigger] text[i];
            is_base64_symbol(c) || c == PAD
        } by {
            if i >= 4 {
                assert(text[i] == rest[i - 4]);
            }
        }
    }
}

/// Different byte strings have different base64 texts.
pub proof fn lemma_base64_text_injective(a: Seq<u8>, b: Seq<u8>)
    requires
        base64_text(a) == base64_text(b),
    ensures
        a == b,
    decreases a.len(),
{
    lemma_base64_text_len(a);
    lemma_base64_text_len(b);
    let ta = base64_text(a);
    let tb = base64_text(b);
    if a.len() == 0 {
        assert(a =~= b);
    } else {
        assert(b.len() > 0);
        let a0 = a[0] as int;
        let b0 = b[0] as int;
        lemma_base64_symbol(a0 / 4, b0 / 4);
        assert(ta[0] == tb[0]);
        assert(ta[1] == tb[1]);
        assert(ta[2] == tb[2]);
        assert(ta[3] == tb[3]);
        if a.len() == 1 {
            lemma_base64_symbol((a0 % 4) * 16, (b0 % 4) * 16);
            if b.len() == 1 {
                assert(a =~= b);
            } else if b.len() == 2 {
                lemma_base64_symbol((b[1] as int % 16) * 4, 0);
            } else {
                lemma_base64_symbol((b[1] as int % 16) * 4 + b[2] as int / 64, 0);
            }
        } else if a.len() == 2 {
            let a1 = a[1] as int;
            lemma_base64_symbol((a1 % 16) * 4, 0);
            if b.len() == 1 {
            } else if b.len() == 2 {
                let b1 = b[1] as int;
                lemma_base64_symbol((a0 % 4) * 16 + a1 / 16, (b0 % 4) * 16 + b1 / 16);
                lemma_base64_symbol((a1 % 16) * 4, (b1 % 16) * 4);
                assert(a =~= b);
            } else {
                lemma_base64_symbol(b[2] as int % 64, 0);
            }
        } else {
            let a1 = a[1] as int;
            let a2 = a[2] as int;
            lemma_base64_symbol((a1 % 16) * 4 + a2 / 64, 0);
            lemma_base64_symbol(a2 % 64, 0);
            if b.len() == 1 {
            } else if b.len() == 2 {
            } else {
                let b1 = b[1] as int;
                let b2 = b[2] as int;
                lemma_base64_symbol((a0 % 4) * 16 + a1 / 16, (b0 % 4) * 16 + b1 / 16);
                lemma_base64_symbol((a1 % 16) * 4 + a2 / 64, (b1 % 16) * 4 + b2 / 64);
                lemma_base64_symbol(a2 % 64, b2 % 64);
                let ga = base64_group(a[0], a[1], a[2]);
                let gb = base64_group(b[0], b[1], b[2]);
                assert(ta.skip(4) =~= base64_text(a.skip(3)));
                assert(tb.skip(4) =~= base64_text(b.skip(3)));
                lemma_base64_text_injective(a.skip(3), b.skip(3));
                assert forall|i: int| 0 <= i < a.len() implies a[i] == b[i] by {
                    if i >= 3 {
                        assert(a[i] == a.skip(3)[i - 3]);
                        assert(b[i] == b.skip(3)[i - 3]);
                    }
                }
                assert(a.len() == b.len()) by {
                    assert(a.skip(3).len() == b.skip(3).len());
                }
                assert(a =~= b);
            }
        }
    }
}

/// Reading base64 text gives back the bytes it was written from.
pub proof fn lemma_base64_data_of_text(data: Seq<u8>)
    ensures
        is_base64(base64_text(data)),
        base64_data(base64_text(data)) == data,
{
    let text = base64_text(data);
    assert(base64_text(data) == text);
    lemma_base64_text_injective(base64_data(text), data);
}

/// A text whose length is no multiple of four is no base64 text: what is
/// left of a text cut short within a group cannot be read.
pub proof fn lemma_base64_needs_whole_groups(text: Seq<char>)
    requires
        text.len() % 4 != 0,
    ensures
        !is_base64(text),
{
    if is_base64(text) {
        lemma_base64_text_len(base64_data(text));
    }
}

/// Whether the base64 text of `len` bytes can be held in memory: its length
/// is at most `isize::MAX`.
pub open spec fn base64_fits(len: nat) -> bool {
    base64_len(len) <= isize::MAX
}

/// Tests whether the base64 text of `len` bytes can be held in memory.
pub fn fits_base64(len: usize) -> (res: bool)
    ensures
        res == base64_fits(len as nat),
{
    let groups: usize = len / 3 + if len % 3 == 0 {
        0
    } else {
        1
    };
    assert(groups == (len + 2) / 3);
    groups <= (isize::MAX as usize) / 4
}

/// Writes bytes as base64 text with `Engine::encode` of
/// `base64::engine::general_purpose::STANDARD`: the standard alphabet, with
/// padding. The call panics where the length of the text overflows, which
/// `requires` rules out.
#[verifier::external_body]
pub(crate) fn encode_standard(data: &[u8]) -> (text: String)
    requires
        base64_fits(data@.len()),
    ensures
        text@ == base64_text(data@),
{
    ::base64::engine::general_purpose::STANDARD.encode(data)
}

/// Reads base64 text with `Engine::decode` of
/// `base64::engine::general_purpose::STANDARD`. That engine takes the
/// standard alphabet, asks for canonical padding and refuses trailing bits
/// that stand for no byte, so it reads a text exactly when the text is the
/// base64 text of some bytes, and then returns those bytes.
#[verifier::external_body]
pub(crate) fn decode_standard(text: &str) -> (res: Result<Vec<u8>, ::base64::DecodeError>)
    ensures
        match res {
            Ok(data) => base64_text(data@) == text@,
            Err(_) => !is_base64(text@),
        },
{
    ::base64::engine::general_purpose::STANDARD.decode(text)
}

/// Writes bytes as base64 text.
pub fn to_base64(data: &[u8]) -> (text: String)
    requires
        base64_fits(data@.len()),
    ensures
        text@ == base64_text(data@),
        text@.len() == base64_len(data@.len()),
{
    proof {
        lemma_base64_text_len(data@);
    }
    encode_standard(data)
}

/// Reads base64 text: the bytes where `text` is the base64 text of some
/// bytes, `None` where it is not.
pub fn from_base64(text: &str) -> (res: Option<Vec<u8>>)
    ensures
        res is Some <==> is_base64(text@),
        res matches Some(data) ==> data@ == base64_data(text@),
{
    match decode_standard(text) {
        Ok(data) => {
            proof {
                lemma_base64_text_injective(base64_data(text@), data@);
            }
            Some(data)
        },
        Err(_) => None,
    }
}

} // verus!
