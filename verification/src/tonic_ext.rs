//! The codec of the mock server: answers are sent as the bytes that a rule
//! holds, and requests are read as one field of bytes.

use crate::code::Code;
use prost::DecodeError;
use vstd::prelude::*;

verus! {

/// The outcome of a call that failed: a code and a text.
#[derive(Debug)]
pub struct Status {
    /// What went wrong, as a gRPC code.
    pub code: Code,
    /// What went wrong, in words.
    pub message: String,
}

/// A status as the contracts see it.
pub struct StatusView {
    pub code: Code,
    pub message: Seq<char>,
}

impl View for Status {
    type V = StatusView;

    open spec fn view(&self) -> StatusView {
        StatusView { code: self.code, message: self.message@ }
    }
}

/// `prost::DecodeError`, of which the contracts know the text.
#[verifier::external_type_specification]
#[verifier::external_body]
pub struct ExDecodeError(DecodeError);

/// The text that `DecodeError`'s `Display` writes for `error`.
pub uninterp spec fn decode_error_text(error: DecodeError) -> Seq<char>;

/// What `prost::Message::decode` makes of `buf` when it reads a `Vec<u8>`: the
/// bytes of the message's one field, or the text of the error.
pub uninterp spec fn decoded(buf: Seq<u8>) -> Result<Seq<u8>, Seq<char>>;

/// `prost::Message::decode` for `Vec<u8>`, on all of `buf`.
#[verifier::external_body]
fn decode_bytes(buf: &[u8]) -> (r: Result<Vec<u8>, DecodeError>)
    ensures
        match r {
            Ok(bytes) => decoded(buf@) == Ok::<Seq<u8>, Seq<char>>(bytes@),
            Err(error) => decoded(buf@) == Err::<Seq<u8>, Seq<char>>(decode_error_text(error)),
        },
{
    <Vec<u8> as prost::Message>::decode(buf)
}

/// `DecodeError`'s `to_string`.
#[verifier::external_body]
fn error_text(error: &DecodeError) -> (text: String)
    ensures
        text@ == decode_error_text(*error),
{
    error.to_string()
}

/// The status for a request that could not be read: `Internal`, with the
/// error's text.
pub fn from_decode_error(error: DecodeError) -> (status: Status)
    ensures
        status@ == (StatusView { code: Code::Internal, message: decode_error_text(error) }),
{
    Status { code: Code::Internal, message: error_text(&error) }
}

/// Writes an answer's bytes as they are.
#[derive(Debug, Clone, Default)]
pub struct GenericProstEncoder(pub(crate) Vec<u8>);

impl GenericProstEncoder {

    /// Appends the bytes of `item` to `buf`. This never fails.
    pub fn encode(&mut self, item: Vec<u8>, buf: &mut Vec<u8>) -> (r: Result<(), Status>)
        ensures
            r is Ok,
            final(buf)@ == old(buf)@ + item@,
            *final(self) == *old(self),
    {
        let mut i: usize = 0;
        while i < item.len()
            invariant
                i <= item.len(),
                buf@ == old(buf)@ + item@.take(i as int),
            decreases item.len() - i,
        {
            buf.push(item[i]);
            assert(item@.take(i + 1) =~= item@.take(i as int).push(item@[i as int]));
            i += 1;
        }
        assert(item@.take(i as int) =~= item@);
        Ok(())
    }
}

/// Reads a request as one field of bytes.
#[derive(Debug, Clone, Default)]
pub struct GenericProstDecoder;

/// What a decoder hands back for what `prost` made of a buffer.
pub open spec fn decode_outcome(read: Result<Seq<u8>, Seq<char>>) -> Result<
    Option<Seq<u8>>,
    StatusView,
> {
    match read {
        Ok(bytes) => Ok(Some(bytes)),
        Err(text) => Err(StatusView { code: Code::Internal, message: text }),
    }
}

/// What `r` is to the contracts.
pub open spec fn outcome_view(r: Result<Option<Vec<u8>>, Status>) -> Result<
    Option<Seq<u8>>,
    StatusView,
> {
    match r {
        Ok(Some(bytes)) => Ok(Some(bytes@)),
        Ok(None) => Ok(None),
        Err(status) => Err(status@),
    }
}

impl GenericProstDecoder {
    /// Reads the message in `buf`. Bytes that are no message give the status
    /// `Internal`, with the decoder's words.
    pub fn decode(&mut self, buf: &[u8]) -> (r: Result<Option<Vec<u8>>, Status>)
        ensures
            outcome_view(r) == decode_outcome(decoded(buf@)),
    {
        match decode_bytes(buf) {
            Ok(item) => Ok(Some(item)),
            Err(error) => Err(from_decode_error(error)),
        }
    }
}

} // verus!
