//! Decoding of the UTF-8 text that the host hands over: the Glicol code to run
//! and the names under which audio samples are registered.

use vstd::prelude::*;

verus! {

/// The code point of a character.
pub open spec fn code_point(c: char) -> int {
    c as u32 as int
}

/// The UTF-8 encoding of one character: its code point in the shortest of the
/// 1- to 4-byte forms, a lead byte followed by continuation bytes that carry
/// six bits each.
pub open spec fn utf8_char(c: char) -> Seq<u8> {
    let v = code_point(c);
    if v < 0x80 {
        seq![v as u8]
    } else if v < 0x800 {
        seq![(0xC0 + v / 64) as u8, (0x80 + v % 64) as u8]
    } else if v < 0x10000 {
        seq![(0xE0 + v / 4096) as u8, (0x80 + (v / 64) % 64) as u8, (0x80 + v % 64) as u8]
    } else {
        seq![
            (0xF0 + v / 262144) as u8,
            (0x80 + (v / 4096) % 64) as u8,
            (0x80 + (v / 64) % 64) as u8,
            (0x80 + v % 64) as u8,
        ]
    }
}

/// The UTF-8 encoding of a text: the encodings of its characters, in order.
pub open spec fn utf8_encoding(s: Seq<char>) -> Seq<u8>
    decreases s.len(),
{
    if s.len() == 0 {
        Seq::empty()
    } else {
        utf8_char(s[0]) + utf8_encoding(s.drop_first())
    }
}

/// The characters that `bytes` encodes in UTF-8, or `None` when `bytes` is not
/// the UTF-8 encoding of any text.
pub open spec fn utf8_text(bytes: Seq<u8>) -> Option<Seq<char>> {
    if exists|s: Seq<char>| #[trigger] utf8_encoding(s) == bytes {
        Some(choose|s: Seq<char>| #[trigger] utf8_encoding(s) == bytes)
    } else {
        None
    }
}

/// The shape of one character's encoding: its length is fixed by its lead
/// byte, and every later byte is a continuation byte.
pub proof fn lemma_utf8_char_shape(c: char)
    ensures
        1 <= utf8_char(c).len() <= 4,
        utf8_char(c).len() == 1 <==> utf8_char(c)[0] < 0x80,
        utf8_char(c).len() == 2 <==> 0xC0 <= utf8_char(c)[0] < 0xE0,
        utf8_char(c).len() == 3 <==> 0xE0 <= utf8_char(c)[0] < 0xF0,
        utf8_char(c).len() == 4 <==> 0xF0 <= utf8_char(c)[0] < 0xF8,
        forall|i: int| 1 <= i < utf8_char(c).len() ==> 0x80 <= #[trigger] utf8_char(c)[i] < 0xC0,
{
    let v = code_point(c);
    assert(0 <= v <= 0x10FFFF);
}

/// Distinct characters have distinct encodings.
pub proof fn lemma_utf8_char_injective(a: char, b: char)
    requires
        utf8_char(a) == utf8_char(b),
    ensures
        a == b,
{
    let x = code_point(a);
    let y = code_point(b);
    lemma_utf8_char_shape(a);
    lemma_utf8_char_shape(b);
    let e = utf8_char(a);
    assert(e == utf8_char(b));
    if x < 0x80 {
        assert(x == e[0]);
        assert(y == e[0]);
    } else if x < 0x800 {
        assert(x == 64 * (e[0] - 0xC0) + (e[1] - 0x80));
        assert(y == 64 * (e[0] - 0xC0) + (e[1] - 0x80));
    } else if x < 0x10000 {
        assert(x == 4096 * (e[0] - 0xE0) + 64 * (e[1] - 0x80) + (e[2] - 0x80));
        assert(y == 4096 * (e[0] - 0xE0) + 64 * (e[1] - 0x80) + (e[2] - 0x80));
    } else {
        assert(x == 262144 * (e[0] - 0xF0) + 4096 * (e[1] - 0x80) + 64 * (e[2] - 0x80) + (e[3]
            - 0x80));
        assert(y == 262144 * (e[0] - 0xF0) + 4096 * (e[1] - 0x80) + 64 * (e[2] - 0x80) + (e[3]
            - 0x80));
    }
    assert(a as u32 == b as u32);
}

/// The encoding of a text with a first character is that character's encoding
/// followed by the encoding of the rest.
proof fn lemma_utf8_encoding_nonempty(s: Seq<char>)
    requires
        s.len() > 0,
    ensures
        utf8_encoding(s) == utf8_char(s[0]) + utf8_encoding(s.drop_first()),
        utf8_encoding(s).len() > 0,
        utf8_encoding(s)[0] == utf8_char(s[0])[0],
{
    lemma_utf8_char_shape(s[0]);
}

/// UTF-8 is one to one: distinct texts have distinct encodings.
pub proof fn lemma_utf8_encoding_injective(s: Seq<char>, t: Seq<char>)
    requires
        utf8_encoding(s) == utf8_encoding(t),
    ensures
        s == t,
    decreases s.len(),
{
    if s.len() == 0 {
        if t.len() > 0 {
            lemma_utf8_encoding_nonempty(t);
        }
        assert(s =~= t);
    } else {
        lemma_utf8_encoding_nonempty(s);
        if t.len() == 0 {
            assert(utf8_encoding(t).len() == 0);
        }
        lemma_utf8_encoding_nonempty(t);
        let a = utf8_char(s[0]);
        let b = utf8_char(t[0]);
        lemma_utf8_char_shape(s[0]);
        lemma_utf8_char_shape(t[0]);
        let e = utf8_encoding(s);
        assert(a.len() == b.len());
        let k = a.len() as int;
        assert(e.subrange(0, k) =~= a);
        assert(e.subrange(0, k) =~= b);
        lemma_utf8_char_injective(s[0], t[0]);
        assert(e.subrange(k, e.len() as int) =~= utf8_encoding(s.drop_first()));
        assert(e.subrange(k, e.len() as int) =~= utf8_encoding(t.drop_first()));
        lemma_utf8_encoding_injective(s.drop_first(), t.drop_first());
        assert(s =~= seq![s[0]] + s.drop_first());
        assert(t =~= seq![t[0]] + t.drop_first());
    }
}

/// Decoding gives back the text that was encoded, for every text, whatever
/// the lengths of its characters' encodings.
pub proof fn lemma_utf8_text_of_encoding(s: Seq<char>)
    ensures
        utf8_text(utf8_encoding(s)) == Some(s),
{
    let bytes = utf8_encoding(s);
    assert(exists|u: Seq<char>| #[trigger] utf8_encoding(u) == bytes);
    let u = choose|u: Seq<char>| #[trigger] utf8_encoding(u) == bytes;
    lemma_utf8_encoding_injective(u, s);
}

/// Bytes decode exactly when they are the encoding of some text, and then to
/// the text whose encoding they are.
pub proof fn lemma_utf8_text_encodes(bytes: Seq<u8>)
    ensures
        utf8_text(bytes) is Some <==> exists|s: Seq<char>| #[trigger] utf8_encoding(s) == bytes,
        utf8_text(bytes) matches Some(s) ==> utf8_encoding(s) == bytes,
{
}

/// The encoding of a text of ASCII characters is the bytes of their codes.
proof fn lemma_ascii_encoding(bytes: Seq<u8>)
    requires
        is_ascii(bytes),
    ensures
        utf8_encoding(ascii_chars(bytes)) == bytes,
    decreases bytes.len(),
{
    let s = ascii_chars(bytes);
    if bytes.len() > 0 {
        assert(s.drop_first() =~= ascii_chars(bytes.drop_first()));
        lemma_ascii_encoding(bytes.drop_first());
        assert(code_point(s[0]) == bytes[0]);
        assert(utf8_encoding(s) =~= seq![bytes[0]] + bytes.drop_first());
        assert(bytes =~= seq![bytes[0]] + bytes.drop_first());
    } else {
        assert(utf8_encoding(s) =~= bytes);
    }
}

/// Every byte is ASCII.
pub open spec fn is_ascii(bytes: Seq<u8>) -> bool {
    forall|i: int| 0 <= i < bytes.len() ==> #[trigger] bytes[i] < 128
}

/// The characters whose codes are the given bytes.
pub open spec fn ascii_chars(bytes: Seq<u8>) -> Seq<char> {
    bytes.map_values(|b: u8| b as char)
}

/// Calls `std::str::from_utf8` and copies the text it accepts into a `String`.
/// Trusted: as `from_utf8` documents, it accepts exactly the valid UTF-8
/// sequences, which are the encodings of texts, and the `str` it returns holds
/// the characters those bytes encode, so the copy's encoding is the bytes.
#[verifier::external_body]
fn str_from_utf8(bytes: &[u8]) -> (text: Option<String>)
    ensures
        text is Some <==> exists|s: Seq<char>| #[trigger] utf8_encoding(s) == bytes@,
        text matches Some(t) ==> utf8_encoding(t@) == bytes@,
{
    match std::str::from_utf8(bytes) {
        Ok(s) => Some(s.to_string()),
        Err(_) => None,
    }
}

/// Decodes UTF-8 text such as Glicol code; `None` when the bytes are not valid
/// UTF-8.
pub fn decode_text(bytes: &[u8]) -> (text: Option<String>)
    ensures
        text is Some <==> utf8_text(bytes@) is Some,
        text matches Some(s) ==> s@ == utf8_text(bytes@)->0,
        text matches Some(s) ==> utf8_encoding(s@) == bytes@,
        is_ascii(bytes@) ==> (text matches Some(s) && s@ == ascii_chars(bytes@)),
{
    let text = str_from_utf8(bytes);
    proof {
        if let Some(t) = &text {
            lemma_utf8_text_of_encoding(t@);
        }
        if is_ascii(bytes@) {
            lemma_ascii_encoding(bytes@);
            lemma_utf8_text_of_encoding(ascii_chars(bytes@));
            assert(utf8_encoding(ascii_chars(bytes@)) == bytes@);
            if let Some(t) = &text {
                lemma_utf8_encoding_injective(t@, ascii_chars(bytes@));
            }
        }
    }
    text
}

/// Decodes the names of the samples to register, in order. When a name is not
/// valid UTF-8 the result is the index of the first such name.
pub fn sample_names(names: &[&[u8]]) -> (decoded: Result<Vec<String>, usize>)
    ensures
        decoded is Ok <==> forall|i: int| 0 <= i < names@.len() ==> (#[trigger] utf8_text(
            names@[i]@,
        )) is Some,
        decoded matches Ok(v) ==> v@.len() == names@.len() && forall|i: int|
            0 <= i < names@.len() ==> (#[trigger] v@[i])@ == utf8_text(names@[i]@)->0,
        decoded matches Err(k) ==> {
            &&& k < names@.len()
            &&& utf8_text(names@[k as int]@) is None
            &&& forall|i: int| 0 <= i < k ==> (#[trigger] utf8_text(names@[i]@)) is Some
        },
{
    let mut out: Vec<String> = Vec::new();
    let mut i: usize = 0;
    while i < names.len()
        invariant
            i <= names@.len(),
            out@.len() == i,
            forall|j: int| 0 <= j < i ==> (#[trigger] utf8_text(names@[j]@)) is Some,
            forall|j: int| 0 <= j < i ==> (#[trigger] out@[j])@ == utf8_text(names@[j]@)->0,
        decreases names@.len() - i,
    {
        match decode_text(names[i]) {
            Some(s) => out.push(s),
            None => return Err(i),
        }
        i = i + 1;
    }
    Ok(out)
}

} // verus!
