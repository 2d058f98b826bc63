//! Reading the service's answer to a submission.

use vstd::prelude::*;
use crate::fraction::{
    exceeds_fraction_reach, has_overlong_fraction, lemma_short_text_is_within_reach,
    lemma_text_without_point_is_within_reach, lemma_within_reach_prefix, reach_prefix,
    within_reach_prefix,
};
use crate::text::{decimal_digits, push_char, push_decimal};

verus! {

/// The status with which the service answers a submission it has read.
pub const STATUS_OK: u16 = 200;

/// The error of the `json` crate's parser.
#[verifier::external_type_specification]
#[verifier::external_body]
pub struct ExJsonError(json::Error);

/// A failure that the service reported, with its message.
#[derive(Debug, PartialEq, Eq)]
pub struct ApiError(String);

impl View for ApiError {
    type V = Seq<char>;

    closed spec fn view(&self) -> Seq<char> {
        self.0@
    }
}

impl ApiError {
    /// The failure with this message.
    pub fn new(message: String) -> (e: ApiError)
        ensures
            e@ == message@,
    {
        ApiError(message)
    }

    /// The message.
    pub fn message(&self) -> (m: &str)
        ensures
            m@ == self@,
    {
        self.0.as_str()
    }
}

/// Why a submission did not succeed, as far as the answer tells.
#[derive(Debug, PartialEq, Eq)]
pub enum SendError {
    /// The service answered with another status than 200, or said that the
    /// submission failed.
    Api(ApiError),
    /// The parser reads the answer's body as far as a number whose fraction
    /// has more digits than it can take. Only what stands before is handed to
    /// it.
    FractionTooLong,
    /// The answer's body is not JSON.
    Malformed(json::Error),
    /// The answer's body is JSON and holds no boolean `success`.
    MissingSuccess,
    /// The answer says that the submission failed and holds no text under
    /// `error.message`.
    MissingErrorMessage,
}

/// What a submission's outcome depends on in the body of an answer.
#[derive(Debug, PartialEq, Eq)]
pub struct Envelope {
    /// The boolean under `success`, if there is one.
    pub success: Option<bool>,
    /// The text under `error.message`, if there is one.
    pub error_message: Option<String>,
}

impl View for Envelope {
    type V = (Option<bool>, Option<Seq<char>>);

    open spec fn view(&self) -> (Option<bool>, Option<Seq<char>>) {
        (
            self.success,
            match self.error_message {
                Some(m) => Some(m@),
                None => None,
            },
        )
    }
}

/// Why the parser did not read a text.
struct ParseFailure {
    /// The parser's error.
    error: json::Error,
    /// Whether the parser came to the end of the text and wanted more, rather
    /// than refusing something in it.
    at_end: bool,
}

/// What the `json` crate reads in `body`. Where its parser reads `body`: the
/// boolean that the parsed value holds under the key `flag`, and the text
/// that it holds under the key `text` of its member `group`, each as far as
/// there is one. Where it does not: whether it came to the end of `body` and
/// wanted more, rather than refusing something in it.
pub uninterp spec fn parsed_members(
    body: Seq<char>,
    flag: Seq<char>,
    group: Seq<char>,
    text: Seq<char>,
) -> Result<(Option<bool>, Option<Seq<char>>), bool>;

/// What the `json` crate reads of an envelope in `body`: the boolean under
/// `success` and the text under `error.message`.
pub open spec fn parsed_envelope(body: Seq<char>) -> Result<
    (Option<bool>, Option<Seq<char>>),
    bool,
> {
    parsed_members(body, "success"@, "error"@, "message"@)
}

/// Parses `body` and reads two members from it: a boolean under `flag`, and a
/// text under `text` inside the member under `group`.
///
/// Trusted: calls `json::parse`, and on the value it returns, indexes by
/// `flag` and takes `JsonValue::as_bool`, indexes by `group` and by `text` and
/// takes `JsonValue::as_str`. Indexing anything but an object, or by a key
/// that is absent, gives null, of which both accessors return `None`. Of the
/// parser's errors, `UnexpectedEndOfJson` is the one it gives where it wants
/// another character and the text has ended. The contract names the outcome.
///
/// The parser lowers a sixteen-bit exponent by one for each digit of a
/// fraction that its mantissa takes, and does not guard that count: a
/// fraction that takes it below its range panics where overflow is checked.
/// `has_overlong_fraction` follows string bounds, mantissa and exponent as
/// the parser does on every text that it reads that far, so `requires` leaves
/// out the bodies on which that happens. It also leaves out bodies in which
/// the parser would stop before it came to such a fraction: for those the
/// caller hands over the start that is within reach.
#[verifier::external_body]
fn parse_members(
    body: &str,
    flag: &str,
    group: &str,
    text: &str,
) -> (r: Result<Envelope, ParseFailure>)
    requires
        !has_overlong_fraction(body@),
    ensures
        match r {
            Ok(envelope) => parsed_members(body@, flag@, group@, text@) == Ok::<_, bool>(envelope@),
            Err(failure) => parsed_members(body@, flag@, group@, text@) == Err::<
                (Option<bool>, Option<Seq<char>>),
                _,
            >(failure.at_end),
        },
{
    match json::parse(body) {
        Ok(value) => Ok(
            Envelope {
                success: value[flag].as_bool(),
                error_message: value[group][text].as_str().map(String::from),
            },
        ),
        Err(json::Error::UnexpectedEndOfJson) => Err(
            ParseFailure { error: json::Error::UnexpectedEndOfJson, at_end: true },
        ),
        Err(error) => Err(ParseFailure { error, at_end: false }),
    }
}

/// The message for an answer with another status than 200: the status in
/// decimal, and the body of the answer as it came on the next line.
pub open spec fn status_message(status: u16, body: Seq<char>) -> Seq<char> {
    "unexpected status code: "@ + decimal_digits(status as nat) + seq!['\n'] + body
}

/// The message for a submission that the service says has failed, from the
/// service's own message.
pub open spec fn refusal_message(message: Seq<char>) -> Seq<char> {
    "unexpected API response: "@ + message
}

/// Whether `r` is the outcome that an envelope with these two members calls
/// for: success where `success` is true; the service's message where it is
/// false; an error of its own where `success`, or the message that a failure
/// owes, is absent.
pub open spec fn envelope_outcome(
    envelope: (Option<bool>, Option<Seq<char>>),
    r: Result<(), SendError>,
) -> bool {
    match envelope {
        (Some(true), _) => r is Ok,
        (Some(false), Some(message)) => r matches Err(SendError::Api(e)) && e@ == refusal_message(
            message,
        ),
        (Some(false), None) => r matches Err(SendError::MissingErrorMessage),
        (None, _) => r matches Err(SendError::MissingSuccess),
    }
}

/// Whether the parser refuses something in `body` before it comes to a
/// fraction that it cannot take. It reads from left to right, so what it
/// makes of the start of `body` that is within reach tells: an error there
/// that is not for want of more text is the error it gives for `body`.
pub open spec fn refused_within_reach(body: Seq<char>) -> bool {
    parsed_envelope(within_reach_prefix(body)) == Err::<(Option<bool>, Option<Seq<char>>), _>(
        false,
    )
}

/// Whether `r` is the outcome that an answer with this status and body calls
/// for: the status error for another status than 200; else the parser's
/// error where it refuses the body; else an error of its own where the body
/// holds a number whose fraction the parser cannot take; else what the
/// envelope calls for.
pub open spec fn response_outcome(status: u16, body: Seq<char>, r: Result<(), SendError>) -> bool {
    if status != STATUS_OK {
        r matches Err(SendError::Api(e)) && e@ == status_message(status, body)
    } else if has_overlong_fraction(body) {
        if refused_within_reach(body) {
            r matches Err(SendError::Malformed(_))
        } else {
            r matches Err(SendError::FractionTooLong)
        }
    } else {
        match parsed_envelope(body) {
            Ok(envelope) => envelope_outcome(envelope, r),
            Err(_) => r matches Err(SendError::Malformed(_)),
        }
    }
}

/// A body of at most 32768 characters, and a body without a point, hold no
/// fraction too long for the parser. For such a body a submission succeeds
/// exactly where the status is 200, the parser reads the body, and `success`
/// is true in it; and where the status is 200 and the parser does not read
/// the body, the parser's error comes back.
pub proof fn lemma_success_condition(status: u16, body: Seq<char>, r: Result<(), SendError>)
    requires
        response_outcome(status, body, r),
        body.len() <= 32_768 || forall|i: int| 0 <= i < body.len() ==> #[trigger] body[i] != '.',
    ensures
        !has_overlong_fraction(body),
        r is Ok <==> status == STATUS_OK && parsed_envelope(body) matches Ok((Some(true), _)),
        status == STATUS_OK && parsed_envelope(body) is Err ==> r matches Err(
            SendError::Malformed(_),
        ),
{
    if body.len() <= 32_768 {
        lemma_short_text_is_within_reach(body);
    } else {
        lemma_text_without_point_is_within_reach(body);
    }
}

/// The error for an answer with another status than 200.
pub fn status_error(status: u16, body: &str) -> (e: ApiError)
    ensures
        e@ == status_message(status, body@),
{
    let mut message = String::from_str("unexpected status code: ");
    push_decimal(&mut message, status as u64);
    push_char(&mut message, '\n');
    message.append(body);
    ApiError(message)
}

/// Decides a submission's outcome from the envelope of the answer.
pub fn read_envelope(envelope: &Envelope) -> (r: Result<(), SendError>)
    ensures
        envelope_outcome(envelope@, r),
{
    match envelope.success {
        None => Err(SendError::MissingSuccess),
        Some(true) => Ok(()),
        Some(false) => match &envelope.error_message {
            None => Err(SendError::MissingErrorMessage),
            Some(message) => {
                let mut text = String::from_str("unexpected API response: ");
                text.append(message.as_str());
                Err(SendError::Api(ApiError(text)))
            },
        },
    }
}

/// Decides a submission's outcome from the status and the body of the answer.
pub fn read_response(status: u16, body: &str) -> (r: Result<(), SendError>)
    ensures
        response_outcome(status, body@, r),
        r is Ok <==> status == STATUS_OK && !has_overlong_fraction(body@) && parsed_envelope(
            body@,
        ) matches Ok((Some(true), _)),
        r matches Err(SendError::FractionTooLong) <==> status == STATUS_OK
            && has_overlong_fraction(body@) && !refused_within_reach(body@),
{
    if status != STATUS_OK {
        return Err(SendError::Api(status_error(status, body)));
    }
    if exceeds_fraction_reach(body) {
        let within_reach = reach_prefix(body);
        proof {
            lemma_within_reach_prefix(body@);
        }
        match parse_members(within_reach, "success", "error", "message") {
            Err(failure) if !failure.at_end => Err(SendError::Malformed(failure.error)),
            _ => Err(SendError::FractionTooLong),
        }
    } else {
        match parse_members(body, "success", "error", "message") {
            Ok(envelope) => read_envelope(&envelope),
            Err(failure) => Err(SendError::Malformed(failure.error)),
        }
    }
}

} // verus!
