//! The decoder: from one line of bytes to a message.

use crate::wire::{
    decimal_value, decode, decode_header, digit_bytes, digit_run, header_bytes, header_len,
    is_digit, lemma_decimal_value_prefix, lemma_header_len, lemma_leading_is, lemma_leading_props,
    AgentIdx, DecodeError, KindView, MessageView, CMD_RESUME, CMD_TERMINATE, NEWLINE, SEPARATOR,
};
use vstd::prelude::*;
use vstd::slice::slice_subrange;

verus! {

/// What a message asks for.
#[derive(Copy, Clone, Debug, PartialEq, Eq)]
pub enum MessageKind<'a> {
    /// Bytes to hand to the target as they are. They are borrowed from the
    /// line that was decoded.
    Data(&'a [u8]),
    /// Stop the target.
    Terminate,
    /// Let the target go on.
    Resume,
}

/// One decoded line.
#[derive(Copy, Clone, Debug, PartialEq, Eq)]
pub struct Message<'a> {
    agent_idx: Option<AgentIdx>,
    kind: MessageKind<'a>,
}

impl<'a> View for MessageKind<'a> {
    type V = KindView;

    open spec fn view(&self) -> KindView {
        match *self {
            MessageKind::Data(payload) => KindView::Data(payload@),
            MessageKind::Terminate => KindView::Terminate,
            MessageKind::Resume => KindView::Resume,
        }
    }
}

impl<'a> View for Message<'a> {
    type V = MessageView;

    closed spec fn view(&self) -> MessageView {
        MessageView { agent_idx: self.agent_idx, kind: self.kind@ }
    }
}

/// True where `res` is a right answer of the decoder for `line`: the message
/// that the line encodes, or the reason why it encodes none.
pub open spec fn decodes_to(line: Seq<u8>, res: Result<Message<'_>, DecodeError>) -> bool {
    match res {
        Ok(message) => decode(line) == Ok::<MessageView, DecodeError>(message@),
        Err(e) => decode(line) == Err::<MessageView, DecodeError>(e),
    }
}

/// The index of the first separator in `line`, if it has one.
fn find_separator(line: &[u8]) -> (res: Option<usize>)
    ensures
        match res {
            Some(pos) => line@.contains(SEPARATOR) && pos == header_len(line@),
            None => !line@.contains(SEPARATOR),
        },
{
    let mut i: usize = 0;
    while i < line.len()
        invariant
            i <= line.len(),
            forall|j: int| 0 <= j < i ==> #[trigger] line@[j] != SEPARATOR,
        decreases line.len() - i,
    {
        if line[i] == SEPARATOR {
            proof {
                lemma_leading_is(line@, header_bytes(), i as int);
            }
            return Some(i);
        }
        i += 1;
    }
    None
}

/// The number of ASCII digits that `header` starts with.
fn count_digits(header: &[u8]) -> (res: usize)
    ensures
        res == digit_run(header@),
{
    let mut i: usize = 0;
    while i < header.len() && 0x30 <= header[i] && header[i] <= 0x39
        invariant
            i <= header.len(),
            forall|j: int| 0 <= j < i ==> is_digit(#[trigger] header@[j]),
        decreases header.len() - i,
    {
        i += 1;
    }
    proof {
        lemma_leading_is(header@, digit_bytes(), i as int);
    }
    i
}

/// The value of a run of ASCII digits, unless it is too large for `usize`.
fn parse_decimal(digits: &[u8]) -> (res: Option<usize>)
    requires
        forall|j: int| 0 <= j < digits@.len() ==> is_digit(#[trigger] digits@[j]),
    ensures
        match res {
            Some(value) => value == decimal_value(digits@),
            None => decimal_value(digits@) > usize::MAX,
        },
{
    let mut value: usize = 0;
    let mut i: usize = 0;
    while i < digits.len()
        invariant
            i <= digits.len(),
            value == decimal_value(digits@.take(i as int)),
            forall|j: int| 0 <= j < digits@.len() ==> is_digit(#[trigger] digits@[j]),
        decreases digits.len() - i,
    {
        let digit: usize = (digits[i] - 0x30) as usize;
        proof {
            let longer = digits@.take(i + 1);
            assert(longer.drop_last() =~= digits@.take(i as int));
            assert(longer.last() == digits@[i as int]);
            assert(decimal_value(longer) == 10 * value + digit);
            lemma_decimal_value_prefix(digits@, i + 1);
        }
        let shifted = match value.checked_mul(10) {
            Some(shifted) => shifted,
            None => { return None; },
        };
        value = match shifted.checked_add(digit) {
            Some(next) => next,
            None => { return None; },
        };
        i += 1;
    }
    proof {
        assert(digits@.take(i as int) =~= digits@);
    }
    Some(value)
}

impl<'a> Message<'a> {
    /// Reads a header: the number it starts with, and the action that the
    /// rest of it names. A header without a suffix carries `msg` as data.
    fn parse_header(header: &'a [u8], msg: &'a [u8]) -> (res: Result<
        (usize, MessageKind<'a>),
        DecodeError,
    >)
        ensures
            match res {
                Ok((number, kind)) => decode_header(header@, msg@) == Ok::<
                    (usize, KindView),
                    DecodeError,
                >((number, kind@)),
                Err(e) => decode_header(header@, msg@) == Err::<(usize, KindView), DecodeError>(e),
            },
    {
        if header.len() == 0 {
            return Err(DecodeError::MissingHeader);
        }
        if core::str::from_utf8(header).is_err() {
            return Err(DecodeError::InvalidHeaderEncoding);
        }
        let run = count_digits(header);
        if run == 0 {
            return Err(DecodeError::InvalidIndex);
        }
        proof {
            lemma_leading_props(header@, digit_bytes());
        }
        let number = match parse_decimal(slice_subrange(header, 0, run)) {
            Some(number) => number,
            None => { return Err(DecodeError::InvalidIndex); },
        };
        let suffix = slice_subrange(header, run, header.len());
        if suffix.len() == 0 {
            Ok((number, MessageKind::Data(msg)))
        } else if suffix.len() == 1 && suffix[0] == CMD_RESUME {
            assert(suffix@ =~= seq![CMD_RESUME]);
            Ok((number, MessageKind::Resume))
        } else if suffix.len() == 1 && suffix[0] == CMD_TERMINATE {
            assert(suffix@ =~= seq![CMD_TERMINATE]);
            Ok((number, MessageKind::Terminate))
        } else {
            Err(DecodeError::InvalidCommand)
        }
    }

    /// Decodes one line, `<digits><suffix>#<payload>\n`.
    ///
    /// The result is the message that the line encodes, or the first reason
    /// why it encodes none. The payload of a data message is borrowed from
    /// `data`: it is the bytes after the first `#`, without the newline that
    /// ends the line.
    pub fn parse(data: &'a [u8]) -> (res: Result<Message<'a>, DecodeError>)
        ensures
            decodes_to(data@, res),
    {
        if data.is_empty() {
            return Err(DecodeError::EmptyMessage);
        }
        if data[data.len() - 1] != NEWLINE {
            return Err(DecodeError::MissingTerminator);
        }
        let hash_pos = match find_separator(data) {
            Some(hash_pos) => hash_pos,
            None => { return Err(DecodeError::MissingSeparator); },
        };
        proof {
            lemma_header_len(data@);
        }
        let header = slice_subrange(data, 0, hash_pos);
        let msg = slice_subrange(data, hash_pos + 1, data.len() - 1);
        match Message::parse_header(header, msg) {
            Ok((number, kind)) => Ok(
                Message {
                    agent_idx: if number == 0 {
                        None
                    } else {
                        Some(AgentIdx(number - 1))
                    },
                    kind,
                },
            ),
            Err(e) => Err(e),
        }
    }

    /// What the message asks for.
    pub fn kind(&self) -> (res: &MessageKind<'a>)
        ensures
            res@ == self@.kind,
    {
        &self.kind
    }

    /// Whom the message addresses; `None` where the line named no agent.
    pub fn agent_idx(&self) -> (res: Option<AgentIdx>)
        ensures
            res == self@.agent_idx,
    {
        self.agent_idx
    }
}

} // verus!
