//! What holds of the header-delimited codec on every input: how a frame's
//! header block is read, that a frame may arrive in pieces, and what
//! becomes of the frames that the codec itself writes.

use crate::codec::{
    content_length_prefix, content_type_prefix, crlf, decode_spec, extract_spec, frame,
    header_step, initial_state, next_line, with_length, CodecState, Decoded, FramingError,
};
use crate::decimal::{decimal_digits, is_digit, lemma_decimal_digits};
use crate::text::{
    has_prefix, is_ascii_bytes, lemma_ascii_is_utf8, lemma_ascii_text_bytes,
    lemma_encoding_has_no_line_feed, lemma_line_feed_at, lemma_line_feed_found,
    lemma_no_line_feed, line_feed_at, no_line_feed, strip_cr,
};
use vstd::prelude::*;
use vstd::utf8::{encode_utf8, encode_utf8_valid_utf8, valid_utf8};

verus! {

/// Whether `bytes` can stand in a header line: ASCII, without line feed or
/// carriage return.
pub open spec fn header_text(bytes: Seq<u8>) -> bool {
    forall|i: int|
        0 <= i < bytes.len() ==> #[trigger] bytes[i] < 128 && bytes[i] != 10 && bytes[i] != 13
}

/// The header block of a frame that announces `n` bytes and names a
/// content type: both header lines and the blank line that closes them.
pub open spec fn header_block(n: nat, content_type: Seq<u8>) -> Seq<u8> {
    content_length_prefix() + decimal_digits(n) + crlf() + content_type_prefix() + content_type
        + crlf() + crlf()
}

/// The decoder's state once such a header block is read.
pub open spec fn payload_due(n: usize) -> CodecState {
    CodecState::Payload { length: n }
}

/// The two header names, byte by byte.
pub proof fn lemma_header_prefixes()
    ensures
        content_length_prefix() == seq![
            67u8, 111u8, 110u8, 116u8, 101u8, 110u8, 116u8, 45u8,
            76u8, 101u8, 110u8, 103u8, 116u8, 104u8, 58u8, 32u8,
        ],
        content_type_prefix() == seq![
            67u8, 111u8, 110u8, 116u8, 101u8, 110u8, 116u8, 45u8,
            84u8, 121u8, 112u8, 101u8, 58u8,
        ],
        header_text(content_length_prefix()),
        header_text(content_type_prefix()),
{
    reveal_strlit("Content-Length: ");
    reveal_strlit("Content-Type:");
    let a = "Content-Length: "@;
    let b = "Content-Type:"@;
    assert(vstd::utf8::is_ascii_chars(a));
    assert(vstd::utf8::is_ascii_chars(b));
    lemma_ascii_text_bytes(a);
    lemma_ascii_text_bytes(b);
    let x = content_length_prefix();
    let y = content_type_prefix();
    assert(x.len() == 16);
    assert(y.len() == 13);
    assert(x[0] == 67 && x[1] == 111 && x[2] == 110 && x[3] == 116 && x[4] == 101 && x[5] == 110
        && x[6] == 116 && x[7] == 45);
    assert(x[8] == 76 && x[9] == 101 && x[10] == 110 && x[11] == 103 && x[12] == 116 && x[13]
        == 104 && x[14] == 58 && x[15] == 32);
    assert(y[0] == 67 && y[1] == 111 && y[2] == 110 && y[3] == 116 && y[4] == 101 && y[5] == 110
        && y[6] == 116 && y[7] == 45);
    assert(y[8] == 84 && y[9] == 121 && y[10] == 112 && y[11] == 101 && y[12] == 58);
    assert(x =~= seq![
        67u8, 111u8, 110u8, 116u8, 101u8, 110u8, 116u8, 45u8,
        76u8, 101u8, 110u8, 103u8, 116u8, 104u8, 58u8, 32u8,
    ]);
    assert(y =~= seq![
        67u8, 111u8, 110u8, 116u8, 101u8, 110u8, 116u8, 45u8,
        84u8, 121u8, 112u8, 101u8, 58u8,
    ]);
}

/// A decimal numeral can stand in a header line.
pub proof fn lemma_digits_are_header_text(n: nat)
    ensures
        header_text(decimal_digits(n)),
{
    lemma_decimal_digits(n);
    let d = decimal_digits(n);
    assert forall|i: int| 0 <= i < d.len() implies #[trigger] d[i] < 128 && d[i] != 10 && d[i]
        != 13 by {
        assert(is_digit(d[i]));
    }
}

/// Header text followed by header text is header text.
pub proof fn lemma_header_text_concat(a: Seq<u8>, b: Seq<u8>)
    requires
        header_text(a),
        header_text(b),
    ensures
        header_text(a + b),
        is_ascii_bytes(a + b),
        no_line_feed(a + b),
        strip_cr(a + b) == a + b,
        valid_utf8(a + b),
{
    let c = a + b;
    assert forall|i: int| 0 <= i < c.len() implies #[trigger] c[i] < 128 && c[i] != 10 && c[i]
        != 13 by {
        if i < a.len() {
            assert(c[i] == a[i]);
        } else {
            assert(c[i] == b[i - a.len()]);
        }
    }
    assert(is_ascii_bytes(c)) by {
        assert forall|i: int| 0 <= i < c.len() implies #[trigger] c[i] < 128 by {
            assert(c[i] < 128 && c[i] != 10 && c[i] != 13);
        }
    }
    assert(no_line_feed(c)) by {
        assert forall|i: int| 0 <= i < c.len() implies #[trigger] c[i] != 10 by {
            assert(c[i] < 128 && c[i] != 10 && c[i] != 13);
        }
    }
    if c.len() > 0 {
        assert(c[c.len() - 1] < 128 && c[c.len() - 1] != 10 && c[c.len() - 1] != 13);
    }
    lemma_ascii_is_utf8(c);
}

/// A line of header text, closed by carriage return and line feed, is read
/// as that line, and what follows it is what is left.
pub proof fn lemma_next_line(line: Seq<u8>, after: Seq<u8>)
    requires
        header_text(line),
    ensures
        next_line(line + crlf() + after) == Some((line, after)),
{
    let bytes = line + crlf() + after;
    let i = line.len() as int + 1;
    lemma_header_text_concat(line, Seq::<u8>::empty());
    assert(line + Seq::<u8>::empty() =~= line);
    assert(bytes[i] == 10);
    assert(bytes.subrange(0, i) =~= line.push(13u8));
    assert(no_line_feed(bytes.subrange(0, i))) by {
        assert forall|j: int| 0 <= j < i implies #[trigger] bytes.subrange(0, i)[j] != 10 by {
            if j < line.len() {
                assert(line[j] < 128 && line[j] != 10 && line[j] != 13);
            }
        }
    }
    lemma_line_feed_at(bytes, i);
    assert(line.push(13u8).drop_last() =~= line);
    assert(bytes.subrange(i + 1, bytes.len() as int) =~= after);
}

/// The first part of a line of header text, cut anywhere up to and with
/// its carriage return, holds no whole line.
pub proof fn lemma_cut_line(line: Seq<u8>, after: Seq<u8>, k: int)
    requires
        header_text(line),
        0 <= k <= line.len() + 1,
    ensures
        next_line((line + crlf() + after).subrange(0, k)) is None,
{
    let cut = (line + crlf() + after).subrange(0, k);
    assert forall|j: int| 0 <= j < cut.len() implies #[trigger] cut[j] != 10 by {
        if j < line.len() {
            assert(cut[j] == line[j]);
            assert(line[j] < 128 && line[j] != 10 && line[j] != 13);
        } else {
            assert(cut[j] == 13);
        }
    }
    lemma_no_line_feed(cut);
}

/// A `Content-Length:` line with a plain numeral records that length.
pub proof fn lemma_content_length_line(st: CodecState, n: usize)
    ensures
        header_text(content_length_prefix() + decimal_digits(n as nat)),
        header_step(st, content_length_prefix() + decimal_digits(n as nat)) == Ok::<
            CodecState,
            FramingError,
        >(with_length(st, n)),
{
    lemma_header_prefixes();
    lemma_decimal_digits(n as nat);
    lemma_digits_are_header_text(n as nat);
    let prefix = content_length_prefix();
    let digits = decimal_digits(n as nat);
    let line = prefix + digits;
    lemma_header_text_concat(prefix, digits);
    assert(line.subrange(0, prefix.len() as int) =~= prefix);
    assert(line.skip(prefix.len() as int) =~= digits);
}

/// A `Content-Type:` line after a recorded length switches to payload mode.
pub proof fn lemma_content_type_line(n: usize, content_type: Seq<u8>)
    requires
        header_text(content_type),
    ensures
        header_text(content_type_prefix() + content_type),
        header_step(
            CodecState::Headers { length: Some(n) },
            content_type_prefix() + content_type,
        ) == Ok::<CodecState, FramingError>(CodecState::PayloadMode { length: n }),
{
    lemma_header_prefixes();
    let prefix = content_type_prefix();
    let line = prefix + content_type;
    lemma_header_text_concat(prefix, content_type);
    assert(line.subrange(0, prefix.len() as int) =~= prefix);
    if has_prefix(line, content_length_prefix()) {
        let head = line.subrange(0, content_length_prefix().len() as int);
        assert(head[8] == line[8]);
        assert(line[8] == prefix[8]);
        assert(head[8] == content_length_prefix()[8]);
    }
}

/// A blank line closes the header block in payload mode and is passed over
/// before.
pub proof fn lemma_blank_line(st: CodecState)
    ensures
        header_step(st, Seq::<u8>::empty()) == Ok::<CodecState, FramingError>(
            match st {
                CodecState::PayloadMode { length } => CodecState::Payload { length },
                _ => st,
            },
        ),
{
    lemma_header_prefixes();
}

/// Reading a whole header block: from a fresh decoder, the block for `n`
/// bytes leaves the decoder waiting for exactly `n` bytes of payload, and
/// what follows the block is then treated as payload.
pub proof fn law_header_block_is_read(n: usize, content_type: Seq<u8>, tail: Seq<u8>)
    requires
        header_text(content_type),
    ensures
        decode_spec(initial_state(), header_block(n as nat, content_type) + tail) == extract_spec(
            n,
            tail,
        ),
{
    let st0 = initial_state();
    let st1 = CodecState::Headers { length: Some(n) };
    let st2 = CodecState::PayloadMode { length: n };
    let line1 = content_length_prefix() + decimal_digits(n as nat);
    let line2 = content_type_prefix() + content_type;
    let blank = Seq::<u8>::empty();
    let after2 = crlf() + tail;
    let after1 = line2 + crlf() + after2;
    let all = header_block(n as nat, content_type) + tail;
    lemma_content_length_line(st0, n);
    lemma_content_type_line(n, content_type);
    lemma_blank_line(st2);
    assert(all =~= line1 + crlf() + after1);
    assert(after2 =~= blank + crlf() + tail);
    lemma_next_line(line1, after1);
    lemma_next_line(line2, after2);
    lemma_next_line(blank, tail);
    assert(decode_spec(st0, all) == decode_spec(st1, after1));
    assert(decode_spec(st1, after1) == decode_spec(st2, after2));
    assert(decode_spec(st2, after2) == decode_spec(payload_due(n), tail));
}

/// Length fidelity: after the header block for `n` bytes, fewer than `n`
/// bytes are never an error. The decoder reports that the frame is
/// incomplete, keeps what has arrived, and goes on waiting.
pub proof fn law_short_payload_is_incomplete(n: usize, content_type: Seq<u8>, arrived: Seq<u8>)
    requires
        header_text(content_type),
        arrived.len() < n,
    ensures
        decode_spec(initial_state(), header_block(n as nat, content_type) + arrived) == (Decoded {
            state: payload_due(n),
            rest: arrived,
            result: Ok(None),
        }),
{
    law_header_block_is_read(n, content_type, arrived);
}

/// Round trip of a frame with a content type: the payload comes out as it
/// went in, whatever bytes it holds, the decoder is fresh again, and what
/// followed the frame is left.
pub proof fn law_payload_is_returned(content_type: Seq<u8>, payload: Seq<u8>, tail: Seq<u8>)
    requires
        header_text(content_type),
        valid_utf8(payload),
        payload.len() <= usize::MAX,
    ensures
        decode_spec(initial_state(), header_block(payload.len(), content_type) + payload + tail)
            == (Decoded { state: initial_state(), rest: tail, result: Ok(Some(payload)) }),
{
    let n = payload.len() as usize;
    let block = header_block(payload.len(), content_type);
    law_header_block_is_read(n, content_type, payload + tail);
    assert(block + payload + tail =~= block + (payload + tail));
    assert((payload + tail).subrange(0, n as int) =~= payload);
    assert((payload + tail).subrange(n as int, (payload + tail).len() as int) =~= tail);
}

/// A frame may arrive in pieces. If the bytes that have arrived are not a
/// whole frame yet, then decoding again once more bytes have been appended
/// to what was left gives what decoding all the bytes at once would have
/// given: the same payload or error, the same state, the same bytes left.
pub proof fn law_decode_resumes(st: CodecState, arrived: Seq<u8>, more: Seq<u8>)
    requires
        decode_spec(st, arrived).result == Ok::<Option<Seq<u8>>, FramingError>(None),
    ensures
        decode_spec(decode_spec(st, arrived).state, decode_spec(st, arrived).rest + more)
            == decode_spec(st, arrived + more),
    decreases arrived.len(),
{
    if !(st is Payload) {
        lemma_line_feed_found(arrived);
        match line_feed_at(arrived) {
            None => {},
            Some(i) => {
                let all = arrived + more;
                let (line, rest) = next_line(arrived).unwrap();
                assert(all.subrange(0, i) =~= arrived.subrange(0, i));
                assert(all.subrange(i + 1, all.len() as int) =~= rest + more);
                lemma_line_feed_at(all, i);
                assert(next_line(all) == Some((line, rest + more)));
                match header_step(st, line) {
                    Err(_) => {},
                    Ok(next) => {
                        law_decode_resumes(next, rest, more);
                    },
                }
            },
        }
    }
}

/// An outcome with more bytes behind what was left.
pub open spec fn followed_by(d: Decoded, more: Seq<u8>) -> Decoded {
    Decoded { state: d.state, rest: d.rest + more, result: d.result }
}

/// Bytes that arrive later change nothing of what has been decided. If the
/// bytes that have arrived give a payload or an error, then so do they
/// with more bytes behind them: the same payload or error, the same state,
/// and the further bytes behind what was left.
pub proof fn law_more_bytes_change_nothing(st: CodecState, arrived: Seq<u8>, more: Seq<u8>)
    requires
        decode_spec(st, arrived).result != Ok::<Option<Seq<u8>>, FramingError>(None),
    ensures
        decode_spec(st, arrived + more) == followed_by(decode_spec(st, arrived), more),
    decreases arrived.len(),
{
    let all = arrived + more;
    match st {
        CodecState::Payload { length } => {
            assert(all.subrange(0, length as int) =~= arrived.subrange(0, length as int));
            assert(all.subrange(length as int, all.len() as int) =~= arrived.subrange(
                length as int,
                arrived.len() as int,
            ) + more);
        },
        _ => {
            lemma_line_feed_found(arrived);
            match line_feed_at(arrived) {
                None => {},
                Some(i) => {
                    let (line, rest) = next_line(arrived).unwrap();
                    assert(all.subrange(0, i) =~= arrived.subrange(0, i));
                    assert(all.subrange(i + 1, all.len() as int) =~= rest + more);
                    lemma_line_feed_at(all, i);
                    assert(next_line(all) == Some((line, rest + more)));
                    match header_step(st, line) {
                        Err(_) => {},
                        Ok(next) => {
                            law_more_bytes_change_nothing(next, rest, more);
                        },
                    }
                },
            }
        },
    }
}

/// The pieces of a stream, put together again.
pub open spec fn joined(pieces: Seq<Seq<u8>>) -> Seq<u8>
    decreases pieces.len(),
{
    if pieces.len() == 0 {
        Seq::<u8>::empty()
    } else {
        pieces[0] + joined(pieces.drop_first())
    }
}

/// Decoding as the bytes arrive: each piece is appended to what the
/// decoder left and the decoder is called again, until it gives a payload
/// or an error. The pieces that had not arrived by then are put behind what
/// is left.
pub open spec fn decode_in_pieces(st: CodecState, held: Seq<u8>, pieces: Seq<Seq<u8>>) -> Decoded
    decreases pieces.len(),
{
    if pieces.len() == 0 {
        decode_spec(st, held)
    } else {
        let d = decode_spec(st, held + pieces[0]);
        if d.result == Ok::<Option<Seq<u8>>, FramingError>(None) {
            decode_in_pieces(d.state, d.rest, pieces.drop_first())
        } else {
            followed_by(d, joined(pieces.drop_first()))
        }
    }
}

/// It does not matter how a stream is cut. Decoding the pieces as they
/// arrive gives what decoding the whole stream at once gives: the same
/// payload, the same error, or the same wait for more, with the same state
/// and the same bytes left. In particular a payload that is still short of
/// its announced length is never an error, however its bytes arrive.
pub proof fn law_pieces_decode_as_the_whole(
    st: CodecState,
    held: Seq<u8>,
    pieces: Seq<Seq<u8>>,
)
    ensures
        decode_in_pieces(st, held, pieces) == decode_spec(st, held + joined(pieces)),
    decreases pieces.len(),
{
    if pieces.len() == 0 {
        assert(held + joined(pieces) =~= held);
    } else {
        let first = pieces[0];
        let others = pieces.drop_first();
        let d = decode_spec(st, held + first);
        assert(held + joined(pieces) =~= (held + first) + joined(others));
        if d.result == Ok::<Option<Seq<u8>>, FramingError>(None) {
            law_pieces_decode_as_the_whole(d.state, d.rest, others);
            law_decode_resumes(st, held + first, joined(others));
        } else {
            law_more_bytes_change_nothing(st, held + first, joined(others));
        }
    }
}

/// No strict prefix of a frame that `encode` writes is taken for a frame:
/// the decoder reports that the frame is incomplete. This holds of every
/// payload without a line feed.
pub proof fn law_frame_prefix_is_incomplete(payload: Seq<u8>, k: int)
    requires
        no_line_feed(payload),
        payload.len() <= usize::MAX,
        0 <= k < frame(payload).len(),
    ensures
        decode_spec(initial_state(), frame(payload).subrange(0, k)).result == Ok::<
            Option<Seq<u8>>,
            FramingError,
        >(None),
{
    let n = payload.len() as usize;
    let st0 = initial_state();
    let st1 = CodecState::Headers { length: Some(n) };
    let line1 = content_length_prefix() + decimal_digits(payload.len());
    let blank = Seq::<u8>::empty();
    let body = payload + crlf();
    let after1 = crlf() + body;
    let all = frame(payload);
    let cut = all.subrange(0, k);
    let a = line1.len() as int;
    lemma_content_length_line(st0, n);
    lemma_blank_line(st1);
    assert(all =~= line1 + crlf() + after1);
    assert(after1 =~= blank + crlf() + body);
    if k <= a + 1 {
        lemma_cut_line(line1, after1, k);
    } else {
        let rest1 = after1.subrange(0, k - a - 2);
        assert(cut =~= line1 + crlf() + rest1);
        lemma_next_line(line1, rest1);
        assert(decode_spec(st0, cut) == decode_spec(st1, rest1));
        if k <= a + 3 {
            lemma_cut_line(blank, body, k - a - 2);
        } else {
            let rest2 = body.subrange(0, k - a - 4);
            assert(rest1 =~= blank + crlf() + rest2);
            lemma_next_line(blank, rest2);
            assert(decode_spec(st1, rest1) == decode_spec(st1, rest2));
            assert forall|j: int| 0 <= j < rest2.len() implies #[trigger] rest2[j] != 10 by {
                if j < payload.len() {
                    assert(rest2[j] == payload[j]);
                } else {
                    assert(rest2[j] == 13);
                }
            }
            lemma_no_line_feed(rest2);
        }
    }
}

/// Round trip of a text in a frame with a content type: any text comes
/// back as it was.
pub proof fn law_text_is_returned(content_type: Seq<u8>, text: Seq<char>, tail: Seq<u8>)
    requires
        header_text(content_type),
        encode_utf8(text).len() <= usize::MAX,
    ensures
        decode_spec(
            initial_state(),
            header_block(encode_utf8(text).len(), content_type) + encode_utf8(text) + tail,
        ) == (Decoded {
            state: initial_state(),
            rest: tail,
            result: Ok(Some(encode_utf8(text))),
        }),
{
    encode_utf8_valid_utf8(text);
    law_payload_is_returned(content_type, encode_utf8(text), tail);
}

/// No strict prefix of the frame that `encode` writes for a text without
/// line feeds is taken for a frame.
pub proof fn law_frame_prefix_of_text_is_incomplete(text: Seq<char>, k: int)
    requires
        !text.contains('\n'),
        encode_utf8(text).len() <= usize::MAX,
        0 <= k < frame(encode_utf8(text)).len(),
    ensures
        decode_spec(initial_state(), frame(encode_utf8(text)).subrange(0, k)).result == Ok::<
            Option<Seq<u8>>,
            FramingError,
        >(None),
{
    lemma_encoding_has_no_line_feed(text);
    law_frame_prefix_is_incomplete(encode_utf8(text), k);
}

} // verus!
