//! What holds of the decoder on every line.

use crate::message::{decodes_to, Message};
use crate::wire::{
    decimal_value, decode, digit_bytes, digit_run, header_bytes, header_len, header_of, is_digit,
    lemma_header_len, lemma_leading_is, lemma_leading_props, payload_of, target_of, AgentIdx,
    DecodeError, KindView, MessageView, CMD_RESUME, CMD_TERMINATE, NEWLINE, SEPARATOR,
};
use vstd::prelude::*;
use vstd::utf8::{partial_valid_utf8, partial_valid_utf8_extend_ascii_block, valid_utf8};

verus! {

/// True for a digit run that a header can start with: at least one ASCII
/// digit, and a value that fits `usize`.
pub open spec fn is_index_numeral(digits: Seq<u8>) -> bool {
    &&& digits.len() > 0
    &&& forall|i: int| 0 <= i < digits.len() ==> is_digit(#[trigger] digits[i])
    &&& decimal_value(digits) <= usize::MAX
}

/// True for the three command suffixes: none, `W` and `S`.
pub open spec fn is_command_suffix(suffix: Seq<u8>) -> bool {
    suffix.len() == 0 || suffix == seq![CMD_RESUME] || suffix == seq![CMD_TERMINATE]
}

/// The line `<digits><suffix>#<payload>\n`.
pub open spec fn line_of(digits: Seq<u8>, suffix: Seq<u8>, payload: Seq<u8>) -> Seq<u8> {
    digits + suffix + seq![SEPARATOR] + payload + seq![NEWLINE]
}

/// Bytes below `0x80` are well-formed UTF-8.
pub proof fn lemma_ascii_is_utf8(bytes: Seq<u8>)
    requires
        forall|i: int| 0 <= i < bytes.len() ==> #[trigger] bytes[i] <= 0x7f,
    ensures
        valid_utf8(bytes),
{
    assert(bytes.subrange(0, 0) =~= Seq::<u8>::empty());
    assert(partial_valid_utf8(bytes, 0));
    partial_valid_utf8_extend_ascii_block(bytes, 0, bytes.len() as int);
    assert(bytes.subrange(0, bytes.len() as int) =~= bytes);
}

/// Every well-formed line decodes, and to what it says: a line made of a
/// decimal numeral `n` that fits `usize`, one of the suffixes none, `W` and
/// `S`, a `#`, any payload and a newline is accepted. Its target is nobody
/// where `n` is zero and the agent at index `n - 1` otherwise. Its action is
/// the payload as data where there is no suffix, resume for `W` and
/// terminate for `S`.
pub proof fn lemma_decode_well_formed(digits: Seq<u8>, suffix: Seq<u8>, payload: Seq<u8>)
    requires
        is_index_numeral(digits),
        is_command_suffix(suffix),
    ensures
        decode(line_of(digits, suffix, payload)) is Ok,
        ({
            let message = decode(line_of(digits, suffix, payload))->Ok_0;
            let n = decimal_value(digits);
            &&& message.agent_idx is None <==> n == 0
            &&& n != 0 ==> message.agent_idx == Some(AgentIdx((n - 1) as usize))
            &&& message.kind == KindView::Data(payload) <==> suffix.len() == 0
            &&& message.kind == KindView::Resume <==> suffix == seq![CMD_RESUME]
            &&& message.kind == KindView::Terminate <==> suffix == seq![CMD_TERMINATE]
        }),
{
    let line = line_of(digits, suffix, payload);
    let header = digits + suffix;
    let end = header.len() as int;
    assert(line.last() == NEWLINE);
    assert(line[end] == SEPARATOR);
    assert forall|i: int| 0 <= i < end implies header_bytes()(#[trigger] line[i]) by {
        if i < digits.len() {
            assert(line[i] == digits[i]);
        } else {
            assert(line[i] == suffix[i - digits.len()]);
        }
    }
    lemma_leading_is(line, header_bytes(), end);
    assert(header_of(line) =~= header);
    assert(payload_of(line) =~= payload);

    assert forall|i: int| 0 <= i < header.len() implies #[trigger] header[i] <= 0x7f by {
        if i < digits.len() {
            assert(header[i] == digits[i]);
        } else {
            assert(header[i] == suffix[i - digits.len()]);
        }
    }
    lemma_ascii_is_utf8(header);

    let run = digits.len() as int;
    assert forall|i: int| 0 <= i < run implies digit_bytes()(#[trigger] header[i]) by {
        assert(header[i] == digits[i]);
    }
    if run < header.len() {
        assert(header[run] == suffix[0]);
    }
    lemma_leading_is(header, digit_bytes(), run);
    assert(header.take(run) =~= digits);
    assert(header.skip(run) =~= suffix);
}

/// Only well-formed lines decode: a line that is accepted is made of a
/// decimal numeral that fits `usize`, one of the three suffixes, a `#`, a
/// payload and a newline.
pub proof fn lemma_decoded_is_well_formed(line: Seq<u8>)
    requires
        decode(line) is Ok,
    ensures
        ({
            let header = header_of(line);
            let digits = header.take(digit_run(header) as int);
            let suffix = header.skip(digit_run(header) as int);
            &&& is_index_numeral(digits)
            &&& is_command_suffix(suffix)
            &&& line == line_of(digits, suffix, payload_of(line))
        }),
{
    let header = header_of(line);
    let run = digit_run(header) as int;
    lemma_header_len(line);
    lemma_leading_props(header, digit_bytes());
    assert(line =~= line_of(header.take(run), header.skip(run), payload_of(line)));
}

/// A data line hands its payload over unchanged, whatever bytes the payload
/// holds, separators included: the line made of a numeral, a `#`, the payload
/// and a newline decodes to the payload as data.
pub proof fn lemma_data_round_trip(digits: Seq<u8>, payload: Seq<u8>)
    requires
        is_index_numeral(digits),
    ensures
        decode(digits + seq![SEPARATOR] + payload + seq![NEWLINE]) == Ok::<
            MessageView,
            DecodeError,
        >(
            MessageView {
                agent_idx: target_of(decimal_value(digits)),
                kind: KindView::Data(payload),
            },
        ),
{
    let none = Seq::<u8>::empty();
    assert(digits + none =~= digits);
    lemma_decode_well_formed(digits, none, payload);
}

/// The payload of a decoded data message is the part of the line strictly
/// after its first `#` and before the newline that ends it.
pub proof fn lemma_data_payload_location(line: Seq<u8>, payload: Seq<u8>)
    requires
        decode(line) is Ok,
        decode(line)->Ok_0.kind == KindView::Data(payload),
    ensures
        ({
            let first = header_len(line) as int;
            &&& 0 <= first < line.len() - 1
            &&& line[first] == SEPARATOR
            &&& forall|i: int| 0 <= i < first ==> #[trigger] line[i] != SEPARATOR
            &&& line.last() == NEWLINE
            &&& payload == line.subrange(first + 1, line.len() - 1)
        }),
{
    lemma_header_len(line);
}

/// Decoding depends on the bytes alone: two results of the decoder for the
/// same bytes are the same error, or messages with the same target and the
/// same action.
pub proof fn lemma_parse_deterministic(
    line: Seq<u8>,
    first: Result<Message<'_>, DecodeError>,
    second: Result<Message<'_>, DecodeError>,
)
    requires
        decodes_to(line, first),
        decodes_to(line, second),
    ensures
        first is Ok <==> second is Ok,
        first is Ok ==> first->Ok_0@ == second->Ok_0@,
        first is Err ==> first->Err_0 == second->Err_0,
{
}

} // verus!
