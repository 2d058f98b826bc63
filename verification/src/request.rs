//! The client's settings and the requests it makes of them.

use vstd::prelude::*;
use crate::escape::{escape, lemma_unescape_escape, push_quoted, quoted, unescape};
use crate::number::{is_decimal, lemma_decimal_needs_no_escape, Decimal};
use crate::time::{is_instant, rfc2822_text, Timestamp};
use crate::url::{endpoint, endpoint_url};

verus! {

/// The media type of every request's body.
pub const CONTENT_TYPE: &'static str = "application/json";

/// The body that submits one data point: a JSON object of three members, the
/// first two dimensions as JSON strings and the third, a decimal numeral,
/// between quotation marks as it is.
pub open spec fn body_text(
    dimension1: Seq<char>,
    dimension2: Seq<char>,
    dimension3: Seq<char>,
) -> Seq<char> {
    "{\n    \"dimension1\": "@ + quoted(dimension1) + ",\n    \"dimension2\": "@ + quoted(
        dimension2,
    ) + ",\n    \"dimension3\": \""@ + dimension3 + "\"\n}"@
}

/// The body holds the three members `dimension1`, `dimension2` and
/// `dimension3`, in this order and no other. The value of each is a JSON
/// string whose content reads back as the dimension it was written from; the
/// third is the decimal numeral itself between quotation marks.
pub proof fn lemma_body_members(dimension1: Seq<char>, dimension2: Seq<char>, dimension3: Seq<char>)
    requires
        is_decimal(dimension3),
    ensures
        body_text(dimension1, dimension2, dimension3) == "{\n    \"dimension1\": "@ + quoted(
            dimension1,
        ) + ",\n    \"dimension2\": "@ + quoted(dimension2) + ",\n    \"dimension3\": "@ + quoted(
            dimension3,
        ) + "\n}"@,
        quoted(dimension3) == seq!['"'] + dimension3 + seq!['"'],
        unescape(escape(dimension1)) == Some(dimension1),
        unescape(escape(dimension2)) == Some(dimension2),
        unescape(escape(dimension3)) == Some(dimension3),
{
    lemma_unescape_escape(dimension1);
    lemma_unescape_escape(dimension2);
    lemma_unescape_escape(dimension3);
    lemma_decimal_needs_no_escape(dimension3);
    reveal_strlit(",\n    \"dimension3\": \"");
    reveal_strlit(",\n    \"dimension3\": ");
    reveal_strlit("\"\n}");
    reveal_strlit("\n}");
}

/// Writes the body that submits one data point.
pub fn request_body(dimension1: &str, dimension2: &str, dimension3: &Decimal) -> (body: String)
    ensures
        body@ == body_text(dimension1@, dimension2@, dimension3@),
        is_decimal(dimension3@),
{
    let mut body = String::from_str("{\n    \"dimension1\": ");
    push_quoted(&mut body, dimension1);
    body.append(",\n    \"dimension2\": ");
    push_quoted(&mut body, dimension2);
    body.append(",\n    \"dimension3\": \"");
    body.append(dimension3.as_str());
    body.append("\"\n}");
    body
}

/// One submission, ready to be sent by HTTP POST with basic authentication
/// and the media type `CONTENT_TYPE`.
#[derive(Debug, PartialEq, Eq)]
pub struct Request {
    /// The address to send to.
    pub url: String,
    /// The user's name, for authentication.
    pub user: String,
    /// The user's app password, for authentication.
    pub passwd: String,
    /// The body.
    pub body: String,
}

/// The settings for submitting to one collection of one Nextcloud instance.
pub struct SyncClient {
    url: String,
    user: String,
    passwd: String,
}

impl SyncClient {
    /// The endpoint's address.
    pub closed spec fn url_text(&self) -> Seq<char> {
        self.url@
    }

    /// The user's name.
    pub closed spec fn user_text(&self) -> Seq<char> {
        self.user@
    }

    /// The user's app password.
    pub closed spec fn passwd_text(&self) -> Seq<char> {
        self.passwd@
    }

    /// Whether `request` goes to this client's endpoint with this client's
    /// credentials and carries `body`.
    pub open spec fn makes(&self, request: Request, body: Seq<char>) -> bool {
        &&& request.url@ == self.url_text()
        &&& request.user@ == self.user_text()
        &&& request.passwd@ == self.passwd_text()
        &&& request.body@ == body
    }

    /// A client for the collection numbered `collection` of the instance at
    /// `nextcloud_url`, in the name of `user` with the app password `passwd`.
    pub fn new(nextcloud_url: &str, collection: u32, user: &str, passwd: &str) -> (client: Self)
        ensures
            client.url_text() == endpoint(nextcloud_url@, collection as nat),
            client.user_text() == user@,
            client.passwd_text() == passwd@,
    {
        SyncClient {
            url: endpoint_url(nextcloud_url, collection),
            user: String::from_str(user),
            passwd: String::from_str(passwd),
        }
    }

    /// The endpoint's address.
    pub fn url(&self) -> (url: &str)
        ensures
            url@ == self.url_text(),
    {
        self.url.as_str()
    }

    /// The user's name.
    pub fn user(&self) -> (user: &str)
        ensures
            user@ == self.user_text(),
    {
        self.user.as_str()
    }

    /// The user's app password.
    pub fn passwd(&self) -> (passwd: &str)
        ensures
            passwd@ == self.passwd_text(),
    {
        self.passwd.as_str()
    }

    /// The request that submits the data point of these three dimensions.
    pub fn data_request(
        &self,
        dimension1: &str,
        dimension2: &str,
        dimension3: &Decimal,
    ) -> (request: Request)
        ensures
            self.makes(request, body_text(dimension1@, dimension2@, dimension3@)),
            is_decimal(dimension3@),
    {
        Request {
            url: self.url.clone(),
            user: self.user.clone(),
            passwd: self.passwd.clone(),
            body: request_body(dimension1, dimension2, dimension3),
        }
    }

    /// The request that submits `value` for `key` at the instant `time` of a
    /// timeline: the second dimension is the instant as RFC 2822 writes it.
    pub fn timeline_request(
        &self,
        key: &str,
        time: &Timestamp,
        value: &Decimal,
    ) -> (request: Request)
        ensures
            self.makes(request, body_text(key@, rfc2822_text(time@.0, time@.1), value@)),
            is_instant(time@.0, time@.1),
            is_decimal(value@),
    {
        let written = time.to_rfc2822();
        self.data_request(key, written.as_str(), value)
    }

    /// The request that submits `value` for `key` at the instant `secs`
    /// seconds after the Unix epoch and `nanos` nanoseconds into that second;
    /// none exactly where that is no instant of the years 0 to 9999.
    pub fn timeline_request_at(
        &self,
        key: &str,
        secs: i64,
        nanos: u32,
        value: &Decimal,
    ) -> (request: Option<Request>)
        ensures
            request is Some <==> is_instant(secs as int, nanos as int),
            request matches Some(r) ==> self.makes(
                r,
                body_text(key@, rfc2822_text(secs as int, nanos as int), value@),
            ),
    {
        match Timestamp::from_unix(secs, nanos) {
            Some(time) => Some(self.timeline_request(key, &time, value)),
            None => None,
        }
    }
}

} // verus!
