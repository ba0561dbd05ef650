//! Header-delimited framing: a block of header lines that announces the
//! payload's length, a blank line, then exactly that many bytes of payload.

use crate::buffer::{buffered, contents};
use crate::decimal::{decimal_digits, format_decimal, parse_decimal, parse_decimal_spec};
use crate::text::{
    find_line_feed, has_prefix, lemma_line_feed_found, line_feed_at, starts_with, strip_cr, utf8,
};
use bytes::BytesMut;
use vstd::prelude::*;
use vstd::slice::slice_subrange;
use vstd::string::StringSliceAdditionalSpecFns;
use vstd::utf8::{encode_utf8, valid_utf8};

verus! {

/// Why a byte stream could not be split into frames.
#[derive(Clone, Copy, Debug, PartialEq, Eq, Structural)]
pub enum FramingError {
    /// A header line or a payload is not well-formed UTF-8.
    InvalidUtf8,
    /// What follows `Content-Length: ` is not a number that fits in `usize`.
    InvalidContentLength,
    /// A `Content-Type:` line came before any `Content-Length:` line.
    ContentTypeBeforeLength,
    /// A header line that is neither of the two known headers nor blank.
    UnknownHeader,
}

/// What a decoder remembers between two calls: how far into a frame it
/// is, and the last payload length that the frame's header lines announced.
///
/// A decoder is in payload mode once a `Content-Type:` line has been read.
/// It can only get there with a length, so when the payload is due its
/// length is known.
#[derive(Clone, Copy, Debug, PartialEq, Eq, Structural)]
#[allow(inconsistent_fields)]
pub enum CodecState {
    /// Header lines are read. No `Content-Type:` line has been seen.
    Headers { length: Option<usize> },
    /// Payload mode: header lines are still read, and the next blank line
    /// closes the header block.
    PayloadMode { length: usize },
    /// Payload mode, header block closed: `length` bytes of payload are due.
    Payload { length: usize },
}

/// What one call of `decode` makes of the bytes it finds.
pub struct Decoded {
    /// The decoder's state after the call.
    pub state: CodecState,
    /// The bytes left in the buffer.
    pub rest: Seq<u8>,
    /// The payload's bytes, `None` while the frame is incomplete, or the
    /// error.
    pub result: Result<Option<Seq<u8>>, FramingError>,
}

/// The state of a decoder that has seen nothing of the next frame yet.
pub open spec fn initial_state() -> CodecState {
    CodecState::Headers { length: None }
}

/// The state with the announced length replaced.
pub open spec fn with_length(st: CodecState, n: usize) -> CodecState {
    match st {
        CodecState::Headers { .. } => CodecState::Headers { length: Some(n) },
        CodecState::PayloadMode { .. } => CodecState::PayloadMode { length: n },
        CodecState::Payload { .. } => CodecState::Payload { length: n },
    }
}

/// The bytes of `Content-Length: `, the header that announces the length.
pub open spec fn content_length_prefix() -> Seq<u8> {
    "Content-Length: ".spec_bytes()
}

/// The bytes of `Content-Type:`, the header that switches to payload mode.
pub open spec fn content_type_prefix() -> Seq<u8> {
    "Content-Type:".spec_bytes()
}

/// Carriage return and line feed, the end of every line that is written.
pub open spec fn crlf() -> Seq<u8> {
    seq![13u8, 10u8]
}

/// The first line of `bytes`, without its terminator, and what follows it;
/// `None` while no line feed has arrived.
pub open spec fn next_line(bytes: Seq<u8>) -> Option<(Seq<u8>, Seq<u8>)> {
    match line_feed_at(bytes) {
        Some(i) => Some((strip_cr(bytes.subrange(0, i)), bytes.subrange(i + 1, bytes.len() as int))),
        None => None,
    }
}

/// What one header line does to the decoder's state.
///
/// A line must be well-formed UTF-8. `Content-Length: <N>` records `N`,
/// which must be a decimal numeral that fits in `usize`. `Content-Type:`
/// with anything after it switches to payload mode, and needs a recorded
/// length. A blank line closes the header block in payload mode and is
/// passed over before. Any other line is an error.
pub open spec fn header_step(st: CodecState, line: Seq<u8>) -> Result<CodecState, FramingError> {
    if !valid_utf8(line) {
        Err(FramingError::InvalidUtf8)
    } else if has_prefix(line, content_length_prefix()) {
        match parse_decimal_spec(line.skip(content_length_prefix().len() as int)) {
            Some(n) => if n <= usize::MAX {
                Ok(with_length(st, n as usize))
            } else {
                Err(FramingError::InvalidContentLength)
            },
            None => Err(FramingError::InvalidContentLength),
        }
    } else if has_prefix(line, content_type_prefix()) {
        match st {
            CodecState::Headers { length: None } => Err(FramingError::ContentTypeBeforeLength),
            CodecState::Headers { length: Some(n) } => Ok(CodecState::PayloadMode { length: n }),
            _ => Ok(st),
        }
    } else if line.len() == 0 {
        match st {
            CodecState::PayloadMode { length } => Ok(CodecState::Payload { length }),
            _ => Ok(st),
        }
    } else {
        Err(FramingError::UnknownHeader)
    }
}

/// What the decoder does once the header block is closed: it waits for the
/// announced number of bytes and takes exactly those. Bytes that are not
/// well-formed UTF-8 are an error and stay where they are.
pub open spec fn extract_spec(length: usize, bytes: Seq<u8>) -> Decoded {
    let due = CodecState::Payload { length };
    if bytes.len() < length {
        Decoded { state: due, rest: bytes, result: Ok(None) }
    } else if !valid_utf8(bytes.subrange(0, length as int)) {
        Decoded { state: due, rest: bytes, result: Err(FramingError::InvalidUtf8) }
    } else {
        Decoded {
            state: initial_state(),
            rest: bytes.subrange(length as int, bytes.len() as int),
            result: Ok(Some(bytes.subrange(0, length as int))),
        }
    }
}

/// What one call of `decode` does, from the decoder's state and the bytes
/// in the buffer: header lines are read and taken out one by one until the
/// block is closed or a line is missing or wrong, then the payload is taken.
/// A line that is wrong is taken out too, and the state stays as the lines
/// before it left it.
pub open spec fn decode_spec(st: CodecState, bytes: Seq<u8>) -> Decoded
    decreases bytes.len(),
{
    match st {
        CodecState::Payload { length } => extract_spec(length, bytes),
        _ => match next_line(bytes) {
            None => Decoded { state: st, rest: bytes, result: Ok(None) },
            Some((line, rest)) => match header_step(st, line) {
                Err(e) => Decoded { state: st, rest: rest, result: Err(e) },
                Ok(next) => {
                    proof {
                        lemma_line_feed_found(bytes);
                    }
                    decode_spec(next, rest)
                },
            },
        },
    }
}

/// The frame that `encode` writes for a payload.
pub open spec fn frame(payload: Seq<u8>) -> Seq<u8> {
    content_length_prefix() + decimal_digits(payload.len()) + crlf() + crlf() + payload + crlf()
}

/// The bytes of the payload in what `decode` returned.
pub open spec fn payload_bytes(r: Result<Option<String>, FramingError>) -> Result<
    Option<Seq<u8>>,
    FramingError,
> {
    match r {
        Ok(Some(s)) => Ok(Some(encode_utf8(s@))),
        Ok(None) => Ok(None),
        Err(e) => Err(e),
    }
}

/// Codec for frames of the form `Content-Length: <N>`, further header
/// lines, a blank line, and `N` bytes of UTF-8 payload.
#[derive(Debug)]
pub struct JsonRpcFramingCodec {
    state: CodecState,
}

impl View for JsonRpcFramingCodec {
    type V = CodecState;

    closed spec fn view(&self) -> CodecState {
        self.state
    }
}

impl JsonRpcFramingCodec {
    /// A codec that has seen nothing yet.
    pub fn new() -> (codec: JsonRpcFramingCodec)
        ensures
            codec@ == initial_state(),
    {
        JsonRpcFramingCodec { state: CodecState::Headers { length: None } }
    }

    /// What the codec remembers of the frame that it is decoding.
    pub fn state(&self) -> (state: CodecState)
        ensures
            state == self@,
    {
        self.state
    }

    /// Takes the first line out of the buffer, if a whole line is there.
    /// The line is returned without its line feed and without the carriage
    /// return before it, if there is one.
    fn split_line(&self, buf: &mut BytesMut) -> (r: Result<Option<String>, FramingError>)
        ensures
            match next_line(buffered(old(buf))) {
                None => r == Ok::<Option<String>, FramingError>(None) && buffered(final(buf))
                    == buffered(old(buf)),
                Some((line, rest)) => {
                    &&& buffered(final(buf)) == rest
                    &&& if valid_utf8(line) {
                        r matches Ok(Some(s)) && encode_utf8(s@) == line
                    } else {
                        r == Err::<Option<String>, FramingError>(FramingError::InvalidUtf8)
                    }
                },
            },
    {
        let i = match find_line_feed(contents(buf)) {
            Some(i) => i,
            None => {
                return Ok(None);
            },
        };
        proof {
            lemma_line_feed_found(buffered(buf));
        }
        let taken = buf.split_to(i + 1);
        let line = contents(&taken);
        let end: usize = if i > 0 && line[i - 1] == 13 {
            i - 1
        } else {
            i
        };
        let stripped = slice_subrange(line, 0, end);
        proof {
            let all = buffered(old(buf));
            assert(all.subrange(0, i + 1).subrange(0, i as int) =~= all.subrange(0, i as int));
            assert(stripped@ =~= strip_cr(all.subrange(0, i as int)));
        }
        match utf8(stripped) {
            Some(text) => Ok(Some(text)),
            None => Err(FramingError::InvalidUtf8),
        }
    }

    /// Takes the next payload out of the buffer, if a whole frame is there.
    ///
    /// Header lines are consumed as they are read and what they said is
    /// remembered, so a frame may arrive in any number of pieces. While the
    /// frame is incomplete the result is `Ok(None)` and the bytes not yet
    /// consumed stay where they are.
    pub fn decode(&mut self, buf: &mut BytesMut) -> (r: Result<Option<String>, FramingError>)
        ensures
            final(self)@ == decode_spec(old(self)@, buffered(old(buf))).state,
            buffered(final(buf)) == decode_spec(old(self)@, buffered(old(buf))).rest,
            payload_bytes(r) == decode_spec(old(self)@, buffered(old(buf))).result,
    {
        let ghost goal = decode_spec(old(self)@, buffered(old(buf)));
        loop
            invariant
                goal == decode_spec(old(self)@, buffered(old(buf))),
                decode_spec(self@, buffered(buf)) == goal,
            decreases buffered(buf).len(),
        {
            if let CodecState::Payload { length } = self.state {
                if buf.len() < length {
                    return Ok(None);
                }
                let payload = match utf8(slice_subrange(contents(buf), 0, length)) {
                    Some(payload) => payload,
                    None => {
                        return Err(FramingError::InvalidUtf8);
                    },
                };
                let _ = buf.split_to(length);
                self.state = CodecState::Headers { length: None };
                return Ok(Some(payload));
            }
            let ghost before = buffered(buf);
            proof {
                lemma_line_feed_found(before);
            }
            let line = match self.split_line(buf) {
                Ok(Some(line)) => line,
                Ok(None) => {
                    return Ok(None);
                },
                Err(e) => {
                    return Err(e);
                },
            };
            let text = line.as_str().as_bytes();
            if starts_with(text, "Content-Length: ".as_bytes()) {
                let digits = slice_subrange(text, "Content-Length: ".as_bytes().len(), text.len());
                let n = match parse_decimal(digits) {
                    Some(n) => n,
                    None => {
                        return Err(FramingError::InvalidContentLength);
                    },
                };
                self.state = match self.state {
                    CodecState::Headers { .. } => CodecState::Headers { length: Some(n) },
                    CodecState::PayloadMode { .. } => CodecState::PayloadMode { length: n },
                    CodecState::Payload { .. } => CodecState::Payload { length: n },
                };
            } else if starts_with(text, "Content-Type:".as_bytes()) {
                match self.state {
                    CodecState::Headers { length: None } => {
                        return Err(FramingError::ContentTypeBeforeLength);
                    },
                    CodecState::Headers { length: Some(n) } => {
                        self.state = CodecState::PayloadMode { length: n };
                    },
                    _ => {},
                }
            } else if text.len() == 0 {
                if let CodecState::PayloadMode { length } = self.state {
                    self.state = CodecState::Payload { length };
                }
            } else {
                return Err(FramingError::UnknownHeader);
            }
        }
    }

    /// Appends the frame for `line` to the buffer: the header that announces
    /// the payload's length in bytes, a blank line, the payload, and a
    /// closing line terminator. Never fails.
    pub fn encode(&mut self, line: String, buf: &mut BytesMut) -> (r: Result<(), FramingError>)
        ensures
            r is Ok,
            final(self)@ == old(self)@,
            buffered(final(buf)) == buffered(old(buf)) + frame(encode_utf8(line@)),
    {
        let payload = line.as_str().as_bytes();
        let digits = format_decimal(payload.len() as u128);
        let end: [u8; 2] = [13, 10];
        buf.extend_from_slice("Content-Length: ".as_bytes());
        buf.extend_from_slice(digits.as_slice());
        buf.extend_from_slice(end.as_slice());
        buf.extend_from_slice(end.as_slice());
        buf.extend_from_slice(payload);
        buf.extend_from_slice(end.as_slice());
        proof {
            assert(end@ =~= crlf());
            assert(buffered(buf) =~= buffered(old(buf)) + frame(encode_utf8(line@)));
        }
        Ok(())
    }
}

} // verus!
