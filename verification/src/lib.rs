//! Client-side logic for submitting data points to a Nextcloud Analytics
//! collection over its HTTP API.
//!
//! The library decides everything about a submission except the sending
//! itself. [`SyncClient`] holds the endpoint's address and the credentials,
//! and makes the [`Request`] for a data point: the address to post to, the
//! user and app password for basic authentication, and the JSON body. Once
//! the request has been sent, [`read_response`] decides from the status and
//! the body of the answer whether the submission succeeded.
//!
//! A data point has two text dimensions and a number. The number travels as a
//! decimal numeral between quotation marks, so the library takes it as a
//! [`Decimal`]. For timeline data the second dimension is a [`Timestamp`] as
//! RFC 2822 writes it.
//!
//! Three things are not proved here and trusted as documented where they are
//! called: `json` parses the answer's body, `chrono` renders an instant, and
//! `String::push` appends a character. The parser is handed only what it can
//! take: [`fraction`] tells where a number's fraction would be too long for
//! it. The library reads no clock: for a data point of the present, the
//! caller hands in the clock's reading.

pub mod escape;
pub mod fraction;
pub mod number;
pub mod request;
pub mod response;
pub mod text;
pub mod time;
pub mod url;

pub use crate::number::Decimal;
pub use crate::request::{Request, SyncClient};
pub use crate::response::{read_response, ApiError, Envelope, SendError};
pub use crate::time::Timestamp;
