//! Replies of the server, and the errors of reading them.

use vstd::prelude::*;
use vstd::utf8::{decode_utf8, encode_utf8, valid_utf8};
use crate::text::IntError;
use crate::text::{as_unsigned, chars_of, decimal, law_decimal_reads_back, int_error_message, int_error_text, join, parse_unsigned};

verus! {

/// A reply, as the client hands it out.
#[derive(Debug)]
pub enum RedisValue {
    Nil,
    Int(i64),
    Data(Vec<u8>),
    Bulk(Vec<RedisValue>),
    Status(String),
    Okay,
}

/// Why a reply could not be read.
#[derive(Debug)]
pub enum ReplyError {
    /// A field of a job is malformed.
    JobParse(String),
    /// The fields do not make a job.
    JobBuild(String),
    /// The reply has none of the expected shapes.
    InvalidResponse,
    /// The reply is a number without a meaning.
    UnknownReturn,
}

/// An error with its text as a character sequence.
#[verifier::ext_equal]
pub enum ReplyErrorView {
    JobParse(Seq<char>),
    JobBuild(Seq<char>),
    InvalidResponse,
    UnknownReturn,
}

impl View for ReplyError {
    type V = ReplyErrorView;

    open spec fn view(&self) -> ReplyErrorView {
        match *self {
            ReplyError::JobParse(text) => ReplyErrorView::JobParse(text@),
            ReplyError::JobBuild(text) => ReplyErrorView::JobBuild(text@),
            ReplyError::InvalidResponse => ReplyErrorView::InvalidResponse,
            ReplyError::UnknownReturn => ReplyErrorView::UnknownReturn,
        }
    }
}

impl ReplyErrorView {
    pub open spec fn description(self) -> Seq<char> {
        match self {
            ReplyErrorView::JobParse(_) => "Job parse error"@,
            ReplyErrorView::JobBuild(_) => "Failed to build job from Redis data"@,
            ReplyErrorView::InvalidResponse => "Invalid response type"@,
            ReplyErrorView::UnknownReturn => "Unknown return value"@,
        }
    }

    pub open spec fn detail(self) -> Option<Seq<char>> {
        match self {
            ReplyErrorView::JobParse(text) => Some(text),
            ReplyErrorView::JobBuild(text) => Some(text),
            _ => None,
        }
    }
}

impl ReplyError {
    /// What went wrong, in general.
    pub fn description(&self) -> (text: &'static str)
        ensures
            text@ == self@.description(),
    {
        match self {
            ReplyError::JobParse(_) => "Job parse error",
            ReplyError::JobBuild(_) => "Failed to build job from Redis data",
            ReplyError::InvalidResponse => "Invalid response type",
            ReplyError::UnknownReturn => "Unknown return value",
        }
    }

    /// What went wrong, in particular, where there is more to say.
    pub fn detail(self) -> (text: Option<String>)
        ensures
            match text {
                Some(t) => self@.detail() == Some(t@),
                None => self@.detail() is None,
            },
    {
        match self {
            ReplyError::JobParse(text) => Some(text),
            ReplyError::JobBuild(text) => Some(text),
            ReplyError::InvalidResponse => None,
            ReplyError::UnknownReturn => None,
        }
    }
}

/// The text of the error that `String::from_utf8` gives for bytes that are not UTF-8.
pub uninterp spec fn utf8_error_text(bytes: Seq<u8>) -> Seq<char>;

/// `String::from_utf8` gives the text that the bytes encode if they are valid UTF-8, and an
/// error otherwise. The text of that error depends on the bytes alone.
#[verifier::external_body]
fn string_from_utf8(bytes: &Vec<u8>) -> (r: Result<String, String>)
    ensures
        match r {
            Ok(s) => valid_utf8(bytes@) && s@ == decode_utf8(bytes@),
            Err(e) => !valid_utf8(bytes@) && e@ == utf8_error_text(bytes@),
        },
{
    String::from_utf8(bytes.clone()).map_err(|e| e.to_string())
}

/// The text that bytes of a reply stand for.
pub open spec fn text_field(bytes: Seq<u8>) -> Result<Seq<char>, ReplyErrorView> {
    if valid_utf8(bytes) {
        Ok(decode_utf8(bytes))
    } else {
        Err(ReplyErrorView::JobParse(utf8_error_text(bytes)))
    }
}

/// A text or an error, as character sequences.
pub open spec fn text_result(r: Result<String, ReplyError>) -> Result<Seq<char>, ReplyErrorView> {
    match r {
        Ok(s) => Ok(s@),
        Err(e) => Err(e@),
    }
}

/// Reads bytes of a reply as a text.
pub fn parse_redis_str(data: &Vec<u8>) -> (r: Result<String, ReplyError>)
    ensures
        text_result(r) == text_field(data@),
{
    match string_from_utf8(data) {
        Ok(s) => Ok(s),
        Err(e) => Err(ReplyError::JobParse(e)),
    }
}

/// The integer that bytes of a reply stand for, at most `max`.
pub open spec fn number_field(bytes: Seq<u8>, field: Seq<char>, max: nat) -> Result<
    nat,
    ReplyErrorView,
> {
    match text_field(bytes) {
        Ok(text) => match as_unsigned(text, max) {
            Ok(n) => Ok(n),
            Err(e) => Err(
                ReplyErrorView::JobParse("invalid "@ + field + ": "@ + int_error_text(e)),
            ),
        },
        Err(e) => Err(e),
    }
}

/// An integer or an error.
pub open spec fn number_result(r: Result<u64, ReplyError>) -> Result<nat, ReplyErrorView> {
    match r {
        Ok(n) => Ok(n as nat),
        Err(e) => Err(e@),
    }
}

/// Reads bytes of a reply as an integer of at most `max`; the error names the field.
pub fn parse_redis_field(data: &Vec<u8>, field: &str, max: u64) -> (r: Result<u64, ReplyError>)
    ensures
        number_result(r) == number_field(data@, field@, max as nat),
{
    match parse_redis_str(data) {
        Ok(s) => match parse_unsigned(&chars_of(s.as_str()), max) {
            Ok(n) => Ok(n),
            Err(e) => {
                let mut text = join("invalid ", field);
                text.append(": ");
                text.append(int_error_message(e));
                Err(ReplyError::JobParse(text))
            },
        },
        Err(e) => Err(e),
    }
}

/// A text that was sent as bytes is read back.
pub proof fn law_text_field_reads_back(text: Seq<char>)
    ensures
        text_field(encode_utf8(text)) == Ok::<Seq<char>, ReplyErrorView>(text),
{
    vstd::utf8::encode_utf8_valid_utf8(text);
    vstd::utf8::encode_utf8_decode_utf8(text);
}

/// A number that was sent in decimal notation is read back where it is not too large.
pub proof fn law_number_field_reads_back(n: nat, field: Seq<char>, max: nat)
    requires
        n <= max,
    ensures
        number_field(encode_utf8(decimal(n)), field, max) == Ok::<nat, ReplyErrorView>(n),
{
    law_text_field_reads_back(decimal(n));
    law_decimal_reads_back(n, max);
}

/// An error about a job has a detail, which is its own text, and the two others have none. The
/// descriptions tell the kinds of errors apart.
pub proof fn law_error_tells_what_went_wrong(
    e: ReplyError,
    detail: Option<String>,
    text: &'static str,
    other: ReplyError,
    other_text: &'static str,
)
    requires
        call_ensures(ReplyError::detail, (e,), detail),
        call_ensures(ReplyError::description, (&e,), text),
        call_ensures(ReplyError::description, (&other,), other_text),
    ensures
        e matches ReplyError::JobParse(reason) ==> detail matches Some(d) && d@ == reason@,
        e matches ReplyError::JobBuild(reason) ==> detail matches Some(d) && d@ == reason@,
        e is InvalidResponse || e is UnknownReturn ==> detail is None,
        text@ == other_text@ ==> {
            &&& e is JobParse <==> other is JobParse
            &&& e is JobBuild <==> other is JobBuild
            &&& e is InvalidResponse <==> other is InvalidResponse
        },
{
    reveal_strlit("Job parse error");
    reveal_strlit("Failed to build job from Redis data");
    reveal_strlit("Invalid response type");
    reveal_strlit("Unknown return value");
    assert("Job parse error"@.len() == 15);
    assert("Failed to build job from Redis data"@.len() == 35);
    assert("Invalid response type"@.len() == 21);
    assert("Unknown return value"@.len() == 20);
}

/// Bytes are read as a text exactly if they are UTF-8, and then as the text that is written with
/// those bytes. A number is read from them exactly if that text is one within the limit.
pub proof fn law_bytes_read(
    data: Vec<u8>,
    field: &str,
    max: u64,
    text: Result<String, ReplyError>,
    number: Result<u64, ReplyError>,
)
    requires
        call_ensures(parse_redis_str, (&data,), text),
        call_ensures(parse_redis_field, (&data, field, max), number),
    ensures
        text is Ok <==> valid_utf8(data@),
        text matches Ok(s) ==> encode_utf8(s@) == data@,
        text matches Err(e) ==> e is JobParse,
        number is Ok <==> text is Ok && as_unsigned(text->Ok_0@, max as nat) is Ok,
        number matches Ok(n) ==> as_unsigned(text->Ok_0@, max as nat) == Ok::<nat, IntError>(
            n as nat,
        ),
        number matches Err(e) ==> e is JobParse,
        text is Ok ==> (as_unsigned(text->Ok_0@, max as nat) matches Err(reason) ==> number is Err
            && number->Err_0@ == ReplyErrorView::JobParse(
            "invalid "@ + field@ + ": "@ + int_error_text(reason),
        )),
        text is Err ==> number is Err && number->Err_0@ == text->Err_0@,
{
    if valid_utf8(data@) {
        vstd::utf8::decode_utf8_encode_utf8(data@);
    }
}

} // verus!
