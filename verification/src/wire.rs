//! The binary encoding of the relay's socket protocol: one opcode byte, then
//! a UTF-8 payload.

use vstd::prelude::*;
use vstd::string::StringSliceAdditionalSpecFns;
use vstd::utf8::{decode_utf8, encode_utf8, encode_utf8_decode_utf8, encode_utf8_valid_utf8, valid_utf8};

verus! {

/// The opcode of a binary frame.
#[derive(Clone, Copy, Debug, PartialEq, Eq, Structural)]
pub enum Opcode {
    /// The handshake: the client names itself, the relay answers with the
    /// connection id it assigned.
    Hello,
}

impl Opcode {
    /// The byte that stands for the opcode on the wire.
    pub open spec fn byte(self) -> u8 {
        0
    }

    /// The byte that stands for the opcode on the wire.
    pub fn as_byte(self) -> (b: u8)
        ensures
            b == self.byte(),
    {
        match self {
            Opcode::Hello => 0,
        }
    }

    /// Reads an opcode from its byte; a byte that stands for none is an
    /// error.
    pub fn try_from(value: u8) -> (r: Result<Opcode, ()>)
        ensures
            r is Ok <==> value == 0,
            r is Ok ==> r->Ok_0.byte() == value,
    {
        match value {
            0 => Ok(Opcode::Hello),
            _ => Err(()),
        }
    }
}

/// The opcode of a text (JSON) frame.
#[derive(Clone, Copy, Debug, PartialEq, Eq, Structural)]
pub enum TextOpcode {
    /// The relay tells a connection its id.
    AssignID,
    /// A chat message for fan-out.
    ChatMessage,
}

impl TextOpcode {
    /// The number that stands for the opcode on the wire.
    pub open spec fn number(self) -> u8 {
        match self {
            TextOpcode::AssignID => 0,
            TextOpcode::ChatMessage => 1,
        }
    }

    /// The number that stands for the opcode on the wire.
    pub fn as_number(self) -> (n: u8)
        ensures
            n == self.number(),
    {
        match self {
            TextOpcode::AssignID => 0,
            TextOpcode::ChatMessage => 1,
        }
    }

    /// Reads an opcode from its number.
    pub fn from_number(n: u8) -> (r: Option<TextOpcode>)
        ensures
            r is Some <==> n <= 1,
            r is Some ==> r->0.number() == n,
    {
        match n {
            0 => Some(TextOpcode::AssignID),
            1 => Some(TextOpcode::ChatMessage),
            _ => None,
        }
    }
}

/// What is wrong with a frame.
#[derive(Clone, Copy, Debug, PartialEq, Eq, Structural)]
pub enum ProtocolViolation {
    /// The frame is empty: there is no opcode byte.
    MissingOpcode,
    /// The opcode byte stands for no opcode.
    UnknownOpcode(u8),
    /// Nothing follows the opcode byte.
    MissingPayload,
    /// The payload is not UTF-8.
    InvalidText,
}

/// A decoded binary frame.
pub enum BinaryMessage {
    /// A hello with its text: the name a client gives, or the id a relay
    /// assigns.
    Hello(String),
}

/// How a binary frame reads: the text of a hello, or what is wrong with the
/// frame.
pub open spec fn decoded(frame: Seq<u8>) -> Result<Seq<char>, ProtocolViolation> {
    if frame.len() == 0 {
        Err(ProtocolViolation::MissingOpcode)
    } else if frame[0] != 0 {
        Err(ProtocolViolation::UnknownOpcode(frame[0]))
    } else if frame.len() == 1 {
        Err(ProtocolViolation::MissingPayload)
    } else if !valid_utf8(frame.skip(1)) {
        Err(ProtocolViolation::InvalidText)
    } else {
        Ok(decode_utf8(frame.skip(1)))
    }
}

/// The hello frame that carries `text`: the hello opcode, then the text in
/// UTF-8.
pub open spec fn hello_frame(text: Seq<char>) -> Seq<u8> {
    seq![0u8] + encode_utf8(text)
}

/// `String::from_utf8`: the string that the bytes encode, if they are valid
/// UTF-8, and nothing if they are not.
#[verifier::external_body]
fn text_from_utf8(bytes: Vec<u8>) -> (text: Option<String>)
    ensures
        text is Some <==> valid_utf8(bytes@),
        text is Some ==> text->0@ == decode_utf8(bytes@),
{
    match String::from_utf8(bytes) {
        Ok(text) => Some(text),
        Err(_) => None,
    }
}

/// Reads a binary frame.
pub fn decode_binary(frame: &Vec<u8>) -> (r: Result<BinaryMessage, ProtocolViolation>)
    ensures
        r is Ok <==> decoded(frame@) is Ok,
        r is Ok ==> r->Ok_0->Hello_0@ == decoded(frame@)->Ok_0,
        r is Err ==> r->Err_0 == decoded(frame@)->Err_0,
{
    if frame.len() == 0 {
        return Err(ProtocolViolation::MissingOpcode);
    }
    let opcode = frame[0];
    match Opcode::try_from(opcode) {
        Err(_) => Err(ProtocolViolation::UnknownOpcode(opcode)),
        Ok(Opcode::Hello) => {
            if frame.len() == 1 {
                return Err(ProtocolViolation::MissingPayload);
            }
            let mut payload: Vec<u8> = Vec::new();
            let mut i: usize = 1;
            while i < frame.len()
                invariant
                    1 <= i <= frame.len(),
                    payload@ == frame@.subrange(1, i as int),
                decreases frame.len() - i,
            {
                payload.push(frame[i]);
                i += 1;
                assert(payload@ =~= frame@.subrange(1, i as int));
            }
            assert(payload@ =~= frame@.skip(1));
            match text_from_utf8(payload) {
                Some(text) => Ok(BinaryMessage::Hello(text)),
                None => Err(ProtocolViolation::InvalidText),
            }
        },
    }
}

/// Writes the hello frame that carries `text`.
pub fn encode_hello(text: &String) -> (frame: Vec<u8>)
    ensures
        frame@ == hello_frame(text@),
{
    let bytes = text.as_str().as_bytes_vec();
    let mut frame: Vec<u8> = Vec::new();
    frame.push(Opcode::Hello.as_byte());
    let mut i: usize = 0;
    while i < bytes.len()
        invariant
            i <= bytes.len(),
            frame@ == seq![0u8] + bytes@.subrange(0, i as int),
        decreases bytes.len() - i,
    {
        frame.push(bytes[i]);
        i += 1;
        assert(frame@ =~= seq![0u8] + bytes@.subrange(0, i as int));
    }
    assert(bytes@.subrange(0, i as int) =~= bytes@);
    frame
}

/// A hello frame reads back as the text it was written from, as long as the
/// text is not empty: an empty text leaves nothing behind the opcode.
pub proof fn lemma_hello_round_trip(text: Seq<char>)
    ensures
        text.len() > 0 ==> decoded(hello_frame(text)) == Ok::<Seq<char>, ProtocolViolation>(text),
        text.len() == 0 ==> decoded(hello_frame(text)) == Err::<Seq<char>, ProtocolViolation>(
            ProtocolViolation::MissingPayload,
        ),
{
    let frame = hello_frame(text);
    assert(frame.skip(1) =~= encode_utf8(text));
    encode_utf8_valid_utf8(text);
    encode_utf8_decode_utf8(text);
    lemma_encoding_length(text);
}

/// A text is empty exactly when its UTF-8 encoding is.
pub proof fn lemma_encoding_length(text: Seq<char>)
    ensures
        (encode_utf8(text).len() == 0) == (text.len() == 0),
{
    encode_utf8_decode_utf8(text);
    if text.len() == 0 {
        assert(encode_utf8(text).len() == 0);
    } else if encode_utf8(text).len() == 0 {
        assert(decode_utf8(encode_utf8(text)).len() == 0);
    }
}

} // verus!
