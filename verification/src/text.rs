//! Text on the wire: bytes as UTF-8, and the ASCII fragments that the frame
//! headers are made of.

use vstd::prelude::*;
use vstd::utf8::*;

verus! {

/// The characters of an optional text.
pub open spec fn text_view(text: Option<String>) -> Option<Seq<char>> {
    match text {
        Some(s) => Some(s@),
        None => None,
    }
}

/// The characters that stand for the given ASCII bytes, one for one.
pub open spec fn ascii_chars(bytes: Seq<u8>) -> Seq<char> {
    Seq::new(bytes.len(), |i: int| bytes[i] as char)
}

/// Whether every byte is an ASCII byte.
pub open spec fn is_ascii_bytes(bytes: Seq<u8>) -> bool {
    forall|i: int| 0 <= i < bytes.len() ==> #[trigger] bytes[i] < 128
}

/// Whether `bytes` begins with `prefix`.
pub open spec fn has_prefix(bytes: Seq<u8>, prefix: Seq<u8>) -> bool {
    prefix.len() <= bytes.len() && bytes.subrange(0, prefix.len() as int) == prefix
}

/// The place of the first line feed in `bytes`, if there is one.
pub open spec fn line_feed_at(bytes: Seq<u8>) -> Option<int> {
    bytes.index_of_first(10u8)
}

/// A line without the carriage return that may end it.
pub open spec fn strip_cr(line: Seq<u8>) -> Seq<u8> {
    if line.len() > 0 && line.last() == 13 {
        line.drop_last()
    } else {
        line
    }
}

/// Whether no byte of `bytes` is a line feed.
pub open spec fn no_line_feed(bytes: Seq<u8>) -> bool {
    forall|i: int| 0 <= i < bytes.len() ==> #[trigger] bytes[i] != 10
}

/// The first line feed is where a line feed stands with none before it.
pub proof fn lemma_line_feed_at(bytes: Seq<u8>, i: int)
    requires
        0 <= i < bytes.len(),
        bytes[i] == 10,
        no_line_feed(bytes.subrange(0, i)),
    ensures
        line_feed_at(bytes) == Some(i),
{
    bytes.index_of_first_ensures(10u8);
    assert(bytes.contains(10u8));
    let found = bytes.index_of_first(10u8).unwrap();
    if found < i {
        assert(bytes.subrange(0, i)[found] == bytes[found]);
    }
}

/// Bytes without a line feed have no first line feed.
pub proof fn lemma_no_line_feed(bytes: Seq<u8>)
    requires
        no_line_feed(bytes),
    ensures
        line_feed_at(bytes) is None,
{
    bytes.index_of_first_ensures(10u8);
    if bytes.index_of_first(10u8) is Some {
        let found = bytes.index_of_first(10u8).unwrap();
        assert(bytes[found] != 10);
    }
}

/// Where the first line feed stands, and that none stands before it.
pub proof fn lemma_line_feed_found(bytes: Seq<u8>)
    ensures
        match line_feed_at(bytes) {
            Some(i) => 0 <= i < bytes.len() && bytes[i] == 10 && no_line_feed(bytes.subrange(0, i)),
            None => no_line_feed(bytes),
        },
{
    bytes.index_of_first_ensures(10u8);
    match bytes.index_of_first(10u8) {
        Some(i) => {
            assert forall|j: int| 0 <= j < i implies #[trigger] bytes.subrange(0, i)[j] != 10 by {
                assert(bytes.subrange(0, i)[j] == bytes[j]);
            }
        },
        None => {
            assert forall|j: int| 0 <= j < bytes.len() implies #[trigger] bytes[j] != 10 by {
                if bytes[j] == 10 {
                    assert(bytes.contains(10u8));
                }
            }
        },
    }
}

/// `std::str::from_utf8`, with the borrowed result copied into a `String`:
/// the bytes are accepted exactly when they are well-formed UTF-8, and the
/// text is then the one that is encoded by them.
#[verifier::external_body]
pub(crate) fn utf8(buf: &[u8]) -> (text: Option<String>)
    ensures
        text is Some <==> valid_utf8(buf@),
        text matches Some(s) ==> encode_utf8(s@) == buf@,
{
    match std::str::from_utf8(buf) {
        Ok(s) => Some(s.to_owned()),
        Err(_) => None,
    }
}

/// ASCII bytes are well-formed UTF-8 and decode to one character per byte.
pub proof fn lemma_ascii_is_utf8(bytes: Seq<u8>)
    requires
        is_ascii_bytes(bytes),
    ensures
        valid_utf8(bytes),
        decode_utf8(bytes) == ascii_chars(bytes),
        encode_utf8(ascii_chars(bytes)) == bytes,
{
    let chars = ascii_chars(bytes);
    assert(is_ascii_chars(chars)) by {
        assert forall|i: int| 0 <= i < chars.len() implies '\0' <= #[trigger] chars[i]
            <= '\u{7f}' by {
            assert(bytes[i] < 128);
        }
    }
    is_ascii_chars_encode_utf8(chars);
    assert(encode_utf8(chars) =~= bytes) by {
        assert forall|i: int| 0 <= i < bytes.len() implies encode_utf8(chars)[i] == bytes[i] by {
            assert(chars[i] as u8 == encode_utf8(chars)[i]);
            assert(bytes[i] < 128);
        }
    }
    encode_utf8_valid_utf8(chars);
    encode_utf8_decode_utf8(chars);
}

/// The UTF-8 encoding of ASCII text is the text's characters as bytes.
pub proof fn lemma_ascii_text_bytes(chars: Seq<char>)
    requires
        is_ascii_chars(chars),
    ensures
        encode_utf8(chars).len() == chars.len(),
        forall|i: int| 0 <= i < chars.len() ==> #[trigger] encode_utf8(chars)[i] == chars[i] as u8,
        is_ascii_bytes(encode_utf8(chars)),
{
    is_ascii_chars_encode_utf8(chars);
    assert forall|i: int| 0 <= i < chars.len() implies #[trigger] encode_utf8(chars)[i]
        == chars[i] as u8 by {
        assert(chars[i] as u8 == encode_utf8(chars)[i]);
    }
    assert forall|i: int| 0 <= i < encode_utf8(chars).len() implies #[trigger] encode_utf8(
        chars,
    )[i] < 128 by {
        assert('\0' <= chars[i] <= '\u{7f}');
        assert(encode_utf8(chars)[i] == chars[i] as u8);
    }
}

/// The bytes that encode one character: the character itself if it is
/// ASCII, and bytes above the ASCII range otherwise.
pub proof fn lemma_scalar_bytes(c: char)
    ensures
        encode_scalar(c as u32).len() > 0,
        c as u32 <= 0x7F ==> encode_scalar(c as u32) == seq![(c as u32) as u8],
        c as u32 > 0x7F ==> forall|i: int|
            0 <= i < encode_scalar(c as u32).len() ==> #[trigger] encode_scalar(c as u32)[i]
                >= 128,
{
    let v = c as u32;
    char_is_scalar(c);
    if has_width_1_encoding(v) {
        assert((v & 0x7F) as u8 == v as u8) by (bit_vector)
            requires
                v <= 0x7F,
        ;
    } else {
        let a = (v >> 6) & 0x1F;
        let b = (v >> 12) & 0x0F;
        let d = (v >> 18) & 0x7;
        let x = v & 0x3F;
        let y = (v >> 6) & 0x3F;
        let z = (v >> 12) & 0x3F;
        assert(0xC0u8 | (a as u8) >= 128) by (bit_vector);
        assert(0xE0u8 | (b as u8) >= 128) by (bit_vector);
        assert(0xF0u8 | (d as u8) >= 128) by (bit_vector);
        assert(0x80u8 | (x as u8) >= 128) by (bit_vector);
        assert(0x80u8 | (y as u8) >= 128) by (bit_vector);
        assert(0x80u8 | (z as u8) >= 128) by (bit_vector);
    }
}

/// The encoding of two texts one after the other is the two encodings one
/// after the other.
pub proof fn lemma_encode_concat(a: Seq<char>, b: Seq<char>)
    ensures
        encode_utf8(a + b) == encode_utf8(a) + encode_utf8(b),
    decreases a.len(),
{
    if a.len() == 0 {
        assert(a + b =~= b);
        assert(encode_utf8(a) + encode_utf8(b) =~= encode_utf8(b));
    } else {
        lemma_encode_concat(a.drop_first(), b);
        assert((a + b).drop_first() =~= a.drop_first() + b);
        assert(encode_scalar(a[0] as u32) + (encode_utf8(a.drop_first()) + encode_utf8(b))
            =~= (encode_scalar(a[0] as u32) + encode_utf8(a.drop_first())) + encode_utf8(b));
    }
}

/// An ASCII byte stands in the encoding of a text only where the text has
/// that character: a text without line feeds is encoded without the line
/// feed byte.
pub proof fn lemma_encoding_has_no_line_feed(text: Seq<char>)
    requires
        !text.contains('\n'),
    ensures
        no_line_feed(encode_utf8(text)),
    decreases text.len(),
{
    if text.len() > 0 {
        let c = text[0];
        let rest = text.drop_first();
        assert(text.contains(c));
        assert forall|i: int| 0 <= i < rest.len() implies #[trigger] rest[i] != '\n' by {
            assert(text.contains(text[i + 1]));
        }
        assert(!rest.contains('\n'));
        lemma_encoding_has_no_line_feed(rest);
        lemma_scalar_bytes(c);
        let head = encode_scalar(c as u32);
        let all = encode_utf8(text);
        assert(all == head + encode_utf8(rest));
        assert(c as u32 != 10) by {
            if c as u32 == 10 {
                char_u32_cast(c, 10u32);
                char_u32_cast('\n', 10u32);
            }
        }
        assert forall|i: int| 0 <= i < all.len() implies #[trigger] all[i] != 10 by {
            if i < head.len() {
                assert(all[i] == head[i]);
                if c as u32 <= 0x7F {
                    assert(head[i] == (c as u32) as u8);
                } else {
                    assert(head[i] >= 128);
                }
            } else {
                assert(all[i] == encode_utf8(rest)[i - head.len()]);
            }
        }
    }
}

/// A text that does not end in a carriage return is encoded by bytes that
/// do not end in the carriage return byte.
pub proof fn lemma_encoding_keeps_its_end(text: Seq<char>)
    requires
        text.len() == 0 || text.last() != '\r',
    ensures
        strip_cr(encode_utf8(text)) == encode_utf8(text),
{
    if text.len() > 0 {
        let c = text.last();
        let front = text.drop_last();
        assert(text =~= front + seq![c]);
        lemma_encode_concat(front, seq![c]);
        lemma_scalar_bytes(c);
        let tail = encode_scalar(c as u32);
        let all = encode_utf8(text);
        assert(encode_utf8(seq![c]) =~= tail) by {
            assert(seq![c].drop_first() =~= Seq::<char>::empty());
            assert(encode_utf8(Seq::<char>::empty()) =~= Seq::<u8>::empty());
            assert(seq![c][0] == c);
            assert(tail + Seq::<u8>::empty() =~= tail);
        }
        assert(all == encode_utf8(front) + tail);
        assert(all.last() == tail[tail.len() - 1]);
        assert(c as u32 != 13) by {
            if c as u32 == 13 {
                char_u32_cast(c, 13u32);
                char_u32_cast('\r', 13u32);
            }
        }
        if c as u32 <= 0x7F {
            assert(tail[0] == (c as u32) as u8);
        } else {
            assert(tail[tail.len() - 1] >= 128);
        }
    }
}

/// The text spelled by ASCII bytes.
pub(crate) fn ascii_text(bytes: &[u8]) -> (text: String)
    requires
        is_ascii_bytes(bytes@),
    ensures
        text@ == ascii_chars(bytes@),
{
    proof {
        lemma_ascii_is_utf8(bytes@);
    }
    let text = utf8(bytes).unwrap();
    proof {
        encode_utf8_decode_utf8(text@);
    }
    text
}

/// Whether `bytes` begins with `prefix`.
pub fn starts_with(bytes: &[u8], prefix: &[u8]) -> (found: bool)
    ensures
        found == has_prefix(bytes@, prefix@),
{
    if bytes.len() < prefix.len() {
        return false;
    }
    let mut i: usize = 0;
    while i < prefix.len()
        invariant
            i <= prefix.len() <= bytes.len(),
            forall|j: int| 0 <= j < i ==> bytes@[j] == prefix@[j],
        decreases prefix.len() - i,
    {
        if bytes[i] != prefix[i] {
            proof {
                let head = bytes@.subrange(0, prefix@.len() as int);
                assert(head[i as int] == bytes@[i as int]);
            }
            return false;
        }
        i += 1;
    }
    assert(bytes@.subrange(0, prefix@.len() as int) =~= prefix@);
    true
}

/// Finds the first line feed in `bytes`.
pub fn find_line_feed(bytes: &[u8]) -> (at: Option<usize>)
    ensures
        match at {
            Some(i) => i < bytes.len() && line_feed_at(bytes@) == Some(i as int),
            None => line_feed_at(bytes@) is None,
        },
{
    let mut i: usize = 0;
    while i < bytes.len() && bytes[i] != 10
        invariant
            i <= bytes@.len(),
            forall|j: int| 0 <= j < i ==> bytes@[j] != 10,
        decreases bytes.len() - i,
    {
        i += 1;
    }
    if i == bytes.len() {
        proof {
            lemma_no_line_feed(bytes@);
        }
        None
    } else {
        proof {
            assert(no_line_feed(bytes@.subrange(0, i as int)));
            lemma_line_feed_at(bytes@, i as int);
        }
        Some(i)
    }
}

/// Whether two texts are the same, character for character.
pub fn str_eq(a: &str, b: &str) -> (same: bool)
    ensures
        same == (a@ == b@),
{
    let x = a.as_bytes();
    let y = b.as_bytes();
    proof {
        encode_utf8_decode_utf8(a@);
        encode_utf8_decode_utf8(b@);
    }
    if x.len() != y.len() {
        return false;
    }
    let mut i: usize = 0;
    while i < x.len()
        invariant
            i <= x.len() == y.len(),
            x@ == encode_utf8(a@),
            y@ == encode_utf8(b@),
            forall|j: int| 0 <= j < i ==> x@[j] == y@[j],
        decreases x.len() - i,
    {
        if x[i] != y[i] {
            return false;
        }
        i += 1;
    }
    assert(x@ =~= y@);
    true
}

/// Whether two optional texts are both absent or both present and the same.
pub fn same_text(a: &Option<String>, b: &Option<String>) -> (same: bool)
    ensures
        same == (text_view(*a) == text_view(*b)),
{
    match (a, b) {
        (Some(x), Some(y)) => str_eq(x.as_str(), y.as_str()),
        (None, None) => true,
        _ => false,
    }
}

} // verus!
