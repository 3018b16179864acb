//! The wire format of one controller line.
//!
//! A line is `<digits><suffix>#<payload>\n`. This module says what a line
//! means, as a function on sequences of bytes. The decoder is proved against
//! it.

use vstd::prelude::*;
use vstd::utf8::valid_utf8;

verus! {

/// The byte that ends every line.
pub const NEWLINE: u8 = 0x0a;

/// The byte that parts the header from the payload.
pub const SEPARATOR: u8 = 0x23;

/// The command suffix that asks to resume the target.
pub const CMD_RESUME: u8 = 0x57;

/// The command suffix that asks to stop the target.
pub const CMD_TERMINATE: u8 = 0x53;

/// Zero-based identifier of one agent among those that the supervisor runs.
#[derive(Copy, Clone, Debug, PartialEq, Eq, Structural)]
pub struct AgentIdx(pub usize);

/// Why a line was not accepted.
#[derive(Copy, Clone, Debug, PartialEq, Eq, Structural)]
pub enum DecodeError {
    /// The line holds no byte at all.
    EmptyMessage,
    /// The last byte is not a newline.
    MissingTerminator,
    /// No `#` occurs in the line.
    MissingSeparator,
    /// Nothing stands before the first `#`.
    MissingHeader,
    /// The header is not UTF-8.
    InvalidHeaderEncoding,
    /// The header does not start with a decimal number that fits `usize`.
    InvalidIndex,
    /// What follows the number is none of the known commands.
    InvalidCommand,
}

impl DecodeError {
    /// The words that say what was wrong with the line.
    pub open spec fn spec_description(&self) -> Seq<char> {
        match *self {
            DecodeError::EmptyMessage => "Empty controller message"@,
            DecodeError::MissingTerminator => "Controller message must end with '\\n'"@,
            DecodeError::MissingSeparator => "Missing '#' in controller message"@,
            DecodeError::MissingHeader => "Missing header in controller message"@,
            DecodeError::InvalidHeaderEncoding => "Invalid header in controller message"@,
            DecodeError::InvalidIndex => "Unable to parse agent index in controller message"@,
            DecodeError::InvalidCommand => "Invalid controller command in controller message"@,
        }
    }

    /// The words that say what was wrong with the line.
    pub fn description(&self) -> (res: &'static str)
        ensures
            res@ == self.spec_description(),
    {
        match *self {
            DecodeError::EmptyMessage => "Empty controller message",
            DecodeError::MissingTerminator => "Controller message must end with '\\n'",
            DecodeError::MissingSeparator => "Missing '#' in controller message",
            DecodeError::MissingHeader => "Missing header in controller message",
            DecodeError::InvalidHeaderEncoding => "Invalid header in controller message",
            DecodeError::InvalidIndex => "Unable to parse agent index in controller message",
            DecodeError::InvalidCommand => "Invalid controller command in controller message",
        }
    }
}

/// What a line asks for, with the payload as a sequence of bytes.
pub enum KindView {
    Data(Seq<u8>),
    Terminate,
    Resume,
}

/// A decoded line: whom it addresses and what it asks for.
pub struct MessageView {
    pub agent_idx: Option<AgentIdx>,
    pub kind: KindView,
}

/// True for the ASCII digits `0` to `9`.
pub open spec fn is_digit(b: u8) -> bool {
    0x30 <= b <= 0x39
}

/// The number of bytes at the start of `s` that satisfy `p`, up to the first
/// one that does not.
pub open spec fn leading(s: Seq<u8>, p: spec_fn(u8) -> bool) -> nat
    decreases s.len(),
{
    if s.len() > 0 && p(s[0]) {
        1 + leading(s.drop_first(), p)
    } else {
        0
    }
}

/// The bytes that a digit run is made of.
pub open spec fn digit_bytes() -> spec_fn(u8) -> bool {
    |b: u8| is_digit(b)
}

/// The bytes that a header can hold: all but the separator.
pub open spec fn header_bytes() -> spec_fn(u8) -> bool {
    |b: u8| b != SEPARATOR
}

/// The length of the longest prefix of `header` made of ASCII digits.
pub open spec fn digit_run(header: Seq<u8>) -> nat {
    leading(header, digit_bytes())
}

/// The length of the longest prefix of `line` that holds no separator. Where
/// the line has a separator, this is the index of the first one.
pub open spec fn header_len(line: Seq<u8>) -> nat {
    leading(line, header_bytes())
}

/// The number that a sequence of ASCII digits writes in base ten.
pub open spec fn decimal_value(digits: Seq<u8>) -> nat
    decreases digits.len(),
{
    if digits.len() == 0 {
        0
    } else {
        10 * decimal_value(digits.drop_last()) + (digits.last() - 0x30) as nat
    }
}

/// The target that the number `n` of a header names: zero is nobody in
/// particular, and `n > 0` is the agent at index `n - 1`.
pub open spec fn target_of(n: nat) -> Option<AgentIdx> {
    if n == 0 {
        None
    } else {
        Some(AgentIdx((n - 1) as usize))
    }
}

/// The meaning of a header, given the payload that came with it: the number
/// that the header starts with, and the action that its suffix names.
pub open spec fn decode_header(header: Seq<u8>, payload: Seq<u8>) -> Result<
    (usize, KindView),
    DecodeError,
> {
    let run = digit_run(header) as int;
    let number = decimal_value(header.take(run));
    let suffix = header.skip(run);
    if header.len() == 0 {
        Err(DecodeError::MissingHeader)
    } else if !valid_utf8(header) {
        Err(DecodeError::InvalidHeaderEncoding)
    } else if run == 0 || number > usize::MAX {
        Err(DecodeError::InvalidIndex)
    } else if suffix.len() == 0 {
        Ok((number as usize, KindView::Data(payload)))
    } else if suffix == seq![CMD_RESUME] {
        Ok((number as usize, KindView::Resume))
    } else if suffix == seq![CMD_TERMINATE] {
        Ok((number as usize, KindView::Terminate))
    } else {
        Err(DecodeError::InvalidCommand)
    }
}

/// The bytes before the first separator.
pub open spec fn header_of(line: Seq<u8>) -> Seq<u8> {
    line.take(header_len(line) as int)
}

/// The bytes after the first separator, without the newline that ends the
/// line.
pub open spec fn payload_of(line: Seq<u8>) -> Seq<u8> {
    line.subrange(header_len(line) as int + 1, line.len() - 1)
}

/// The meaning of a line: the message that it encodes, or the reason why it
/// encodes none. The checks are made in this order, and the first that fails
/// names the error.
pub open spec fn decode(line: Seq<u8>) -> Result<MessageView, DecodeError> {
    if line.len() == 0 {
        Err(DecodeError::EmptyMessage)
    } else if line.last() != NEWLINE {
        Err(DecodeError::MissingTerminator)
    } else if !line.contains(SEPARATOR) {
        Err(DecodeError::MissingSeparator)
    } else {
        match decode_header(header_of(line), payload_of(line)) {
            Ok((number, kind)) => Ok(MessageView { agent_idx: target_of(number as nat), kind }),
            Err(e) => Err(e),
        }
    }
}

/// A prefix of `n` bytes that all satisfy `p`, followed by the end of `s` or
/// by a byte that does not, is the longest such prefix.
pub proof fn lemma_leading_is(s: Seq<u8>, p: spec_fn(u8) -> bool, n: int)
    requires
        0 <= n <= s.len(),
        forall|i: int| 0 <= i < n ==> p(#[trigger] s[i]),
        n == s.len() || !p(s[n]),
    ensures
        leading(s, p) == n,
    decreases n,
{
    if n > 0 {
        let rest = s.drop_first();
        assert forall|i: int| 0 <= i < n - 1 implies p(#[trigger] rest[i]) by {
            assert(rest[i] == s[i + 1]);
        }
        lemma_leading_is(rest, p, n - 1);
    }
}

/// The longest prefix whose bytes satisfy `p` lies within `s`, holds only
/// such bytes, and cannot be made longer.
pub proof fn lemma_leading_props(s: Seq<u8>, p: spec_fn(u8) -> bool)
    ensures
        leading(s, p) <= s.len(),
        forall|i: int| 0 <= i < leading(s, p) ==> p(#[trigger] s[i]),
        leading(s, p) == s.len() || !p(s[leading(s, p) as int]),
    decreases s.len(),
{
    if s.len() > 0 && p(s[0]) {
        let rest = s.drop_first();
        lemma_leading_props(rest, p);
        assert forall|i: int| 0 <= i < leading(s, p) implies p(#[trigger] s[i]) by {
            if i > 0 {
                assert(s[i] == rest[i - 1]);
            }
        }
        if leading(s, p) < s.len() {
            assert(s[leading(s, p) as int] == rest[leading(rest, p) as int]);
        }
    }
}

/// A line holds a separator exactly where its header ends before the line
/// does, and the header ends at the first separator.
pub proof fn lemma_header_len(line: Seq<u8>)
    ensures
        header_len(line) <= line.len(),
        line.contains(SEPARATOR) <==> header_len(line) < line.len(),
        header_len(line) < line.len() ==> line[header_len(line) as int] == SEPARATOR,
        forall|i: int| 0 <= i < header_len(line) ==> #[trigger] line[i] != SEPARATOR,
{
    lemma_leading_props(line, header_bytes());
    if line.contains(SEPARATOR) {
        let j = choose|j: int| 0 <= j < line.len() && line[j] == SEPARATOR;
        if header_len(line) >= line.len() {
            assert(header_bytes()(line[j]));
        }
    }
}

/// A number written with more digits is not smaller: the value of a prefix
/// is at most the value of the whole.
pub proof fn lemma_decimal_value_prefix(digits: Seq<u8>, n: int)
    requires
        0 <= n <= digits.len(),
    ensures
        decimal_value(digits.take(n)) <= decimal_value(digits),
    decreases digits.len() - n,
{
    if n == digits.len() {
        assert(digits.take(n) =~= digits);
    } else {
        lemma_decimal_value_prefix(digits.drop_last(), n);
        assert(digits.drop_last().take(n) =~= digits.take(n));
    }
}

} // verus!
