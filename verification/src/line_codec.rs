//! Newline-delimited framing: every payload is one line, closed by a line
//! feed. There is no length to account for.

use crate::buffer::{buffered, contents};
use crate::codec::{payload_bytes, FramingError};
use crate::text::{
    find_line_feed, lemma_encoding_has_no_line_feed, lemma_encoding_keeps_its_end,
    lemma_line_feed_at, lemma_line_feed_found, lemma_no_line_feed, line_feed_at, no_line_feed,
    strip_cr, utf8,
};
use bytes::BytesMut;
use vstd::prelude::*;
use vstd::slice::slice_subrange;
use vstd::utf8::{encode_utf8, encode_utf8_valid_utf8, valid_utf8};

verus! {

/// What one call of `LineCodec::decode` makes of the bytes it finds.
pub struct LineDecoded {
    /// The bytes left in the buffer.
    pub rest: Seq<u8>,
    /// The payload's bytes, `None` while no whole line is there, or the
    /// error.
    pub result: Result<Option<Seq<u8>>, FramingError>,
}

/// The frame that `LineCodec::encode` writes for a payload.
pub open spec fn line_frame(payload: Seq<u8>) -> Seq<u8> {
    payload.push(10u8)
}

/// What one call of `LineCodec::decode` does: the bytes before the first
/// line feed are the payload, without the closing carriage return where the
/// codec strips it, and leave the buffer together with the line feed, also
/// where they are refused as not well-formed UTF-8. Without a line feed
/// nothing is taken.
pub open spec fn line_decode_spec(strips: bool, bytes: Seq<u8>) -> LineDecoded {
    match line_feed_at(bytes) {
        None => LineDecoded { rest: bytes, result: Ok(None) },
        Some(i) => {
            let raw = bytes.subrange(0, i);
            let line = if strips {
                strip_cr(raw)
            } else {
                raw
            };
            LineDecoded {
                rest: bytes.subrange(i + 1, bytes.len() as int),
                result: if valid_utf8(line) {
                    Ok(Some(line))
                } else {
                    Err(FramingError::InvalidUtf8)
                },
            }
        },
    }
}

/// Codec for payloads that are written one per line.
#[derive(Debug)]
pub struct LineCodec {
    strip_cr: bool,
}

impl LineCodec {
    /// Whether the codec takes a carriage return that closes a line off
    /// the payload.
    pub closed spec fn strips(&self) -> bool {
        self.strip_cr
    }

    /// A codec that strips a closing carriage return, or leaves it, as
    /// `strip_cr` says.
    pub fn new(strip_cr: bool) -> (codec: LineCodec)
        ensures
            codec.strips() == strip_cr,
    {
        LineCodec { strip_cr }
    }

    /// Takes the next payload out of the buffer, if a whole line is there.
    /// Otherwise the result is `Ok(None)` and the buffer is untouched.
    pub fn decode(&mut self, buf: &mut BytesMut) -> (r: Result<Option<String>, FramingError>)
        ensures
            final(self).strips() == old(self).strips(),
            buffered(final(buf)) == line_decode_spec(old(self).strips(), buffered(old(buf))).rest,
            payload_bytes(r) == line_decode_spec(old(self).strips(), buffered(old(buf))).result,
    {
        let i = match find_line_feed(contents(buf)) {
            Some(i) => i,
            None => {
                return Ok(None);
            },
        };
        proof {
            lemma_line_feed_found(buffered(buf));
        }
        let taken = buf.split_to(i + 1);
        let line = contents(&taken);
        let end: usize = if self.strip_cr && i > 0 && line[i - 1] == 13 {
            i - 1
        } else {
            i
        };
        let payload = slice_subrange(line, 0, end);
        proof {
            let all = buffered(old(buf));
            assert(all.subrange(0, i + 1).subrange(0, i as int) =~= all.subrange(0, i as int));
            assert(payload@ =~= if self.strip_cr {
                strip_cr(all.subrange(0, i as int))
            } else {
                all.subrange(0, i as int)
            });
        }
        match utf8(payload) {
            Some(text) => Ok(Some(text)),
            None => Err(FramingError::InvalidUtf8),
        }
    }

    /// Appends the payload and a line feed to the buffer. Never fails.
    pub fn encode(&mut self, line: String, buf: &mut BytesMut) -> (r: Result<(), FramingError>)
        ensures
            r is Ok,
            final(self).strips() == old(self).strips(),
            buffered(final(buf)) == buffered(old(buf)) + line_frame(encode_utf8(line@)),
    {
        let end: [u8; 1] = [10];
        buf.extend_from_slice(line.as_str().as_bytes());
        buf.extend_from_slice(end.as_slice());
        proof {
            assert(buffered(buf) =~= buffered(old(buf)) + line_frame(encode_utf8(line@)));
        }
        Ok(())
    }
}

/// Round trip: what was framed is what is decoded, and what followed the
/// frame is what is left. This holds of every well-formed payload without
/// a line feed; where the codec strips carriage returns, the payload must
/// not end in one, since that one would be taken for part of the
/// terminator.
pub proof fn law_line_round_trip(strips: bool, payload: Seq<u8>, tail: Seq<u8>)
    requires
        valid_utf8(payload),
        no_line_feed(payload),
        strips ==> strip_cr(payload) == payload,
    ensures
        line_decode_spec(strips, line_frame(payload) + tail) == (LineDecoded {
            rest: tail,
            result: Ok(Some(payload)),
        }),
{
    let bytes = line_frame(payload) + tail;
    let i = payload.len() as int;
    assert(bytes.subrange(0, i) =~= payload);
    assert(bytes.subrange(i + 1, bytes.len() as int) =~= tail);
    lemma_line_feed_at(bytes, i);
}

/// No strict prefix of a frame is taken for a frame: decoding it takes
/// nothing and reports that the frame is incomplete.
pub proof fn law_line_prefix_is_incomplete(strips: bool, payload: Seq<u8>, k: int)
    requires
        no_line_feed(payload),
        0 <= k < line_frame(payload).len(),
    ensures
        line_decode_spec(strips, line_frame(payload).subrange(0, k)) == (LineDecoded {
            rest: line_frame(payload).subrange(0, k),
            result: Ok(None),
        }),
{
    let prefix = line_frame(payload).subrange(0, k);
    assert forall|j: int| 0 <= j < prefix.len() implies #[trigger] prefix[j] != 10 by {
        assert(prefix[j] == payload[j]);
    }
    lemma_no_line_feed(prefix);
}

/// Round trip of a text: a text without line feeds that is framed comes
/// back as it was, and what followed the frame is left. Where the codec
/// strips carriage returns the text must not end in one.
pub proof fn law_line_round_trip_of_text(strips: bool, text: Seq<char>, tail: Seq<u8>)
    requires
        !text.contains('\n'),
        strips ==> text.len() == 0 || text.last() != '\r',
    ensures
        line_decode_spec(strips, line_frame(encode_utf8(text)) + tail) == (LineDecoded {
            rest: tail,
            result: Ok(Some(encode_utf8(text))),
        }),
{
    encode_utf8_valid_utf8(text);
    lemma_encoding_has_no_line_feed(text);
    if strips {
        lemma_encoding_keeps_its_end(text);
    }
    law_line_round_trip(strips, encode_utf8(text), tail);
}

/// No strict prefix of the frame of a text without line feeds is taken for
/// a frame.
pub proof fn law_line_prefix_of_text_is_incomplete(strips: bool, text: Seq<char>, k: int)
    requires
        !text.contains('\n'),
        0 <= k < line_frame(encode_utf8(text)).len(),
    ensures
        line_decode_spec(strips, line_frame(encode_utf8(text)).subrange(0, k)) == (LineDecoded {
            rest: line_frame(encode_utf8(text)).subrange(0, k),
            result: Ok(None),
        }),
{
    lemma_encoding_has_no_line_feed(text);
    law_line_prefix_is_incomplete(strips, encode_utf8(text), k);
}

} // verus!
