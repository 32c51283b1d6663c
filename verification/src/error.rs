//! Errors and replies.

use vstd::prelude::*;
use vstd::string::*;

use crate::db;
use crate::db::{InsertedRequest, InsertedRequestView, Request, RequestStatus, RequestStatusView, RequestView};
use crate::text;

verus! {

/// The request was served.
pub const OK: u16 = 200;

/// The request is not acceptable.
pub const BAD_REQUEST: u16 = 400;

/// The request lacks valid credentials.
pub const UNAUTHORIZED: u16 = 401;

/// There is nothing to be served.
pub const NOT_FOUND: u16 = 404;

/// The request conflicts with the current state.
pub const CONFLICT: u16 = 409;

/// Serving the request failed.
pub const INTERNAL_SERVER_ERROR: u16 = 500;

/// What a [`Body`] holds.
pub enum BodyView {
    Empty,
    Text(Seq<char>),
    Requests(Seq<RequestView>),
    Inserted(InsertedRequestView),
    Status(RequestStatusView),
}

/// What a reply carries.
#[derive(PartialEq, Eq, Debug)]
pub enum Body {
    /// Nothing.
    Empty,
    /// A message.
    Text(String),
    /// Build requests.
    Requests(Vec<Request>),
    /// A build request after its insertion.
    Inserted(InsertedRequest),
    /// The status of a build request.
    Status(RequestStatus),
}

impl View for Body {
    type V = BodyView;

    open spec fn view(&self) -> BodyView {
        match self {
            Body::Empty => BodyView::Empty,
            Body::Text(message) => BodyView::Text(message@),
            Body::Requests(requests) => BodyView::Requests(db::request_views(requests@)),
            Body::Inserted(request) => BodyView::Inserted(request@),
            Body::Status(status) => BodyView::Status(status@),
        }
    }
}

/// What a [`Reply`] holds.
pub struct ReplyView {
    pub code: u16,
    pub body: BodyView,
}

impl ReplyView {
    /// A reply which carries nothing.
    pub open spec fn bare(code: u16) -> ReplyView {
        ReplyView { code, body: BodyView::Empty }
    }

    /// A reply which carries a message.
    pub open spec fn message(code: u16, message: Seq<char>) -> ReplyView {
        ReplyView { code, body: BodyView::Text(message) }
    }
}

/// Reply to an API request.
#[derive(PartialEq, Eq, Debug)]
pub struct Reply {
    /// HTTP status code.
    pub code: u16,
    /// What the reply carries.
    pub body: Body,
}

impl View for Reply {
    type V = ReplyView;

    open spec fn view(&self) -> ReplyView {
        ReplyView { code: self.code, body: self.body@ }
    }
}

impl Reply {
    /// A reply which carries nothing.
    pub fn bare(code: u16) -> (reply: Self)
        ensures
            reply@ == ReplyView::bare(code),
    {
        Reply { code, body: Body::Empty }
    }

    /// A reply which carries a message.
    pub fn message(code: u16, message: String) -> (reply: Self)
        ensures
            reply@ == ReplyView::message(code, message@),
    {
        Reply { code, body: Body::Text(message) }
    }
}

/// What kind of failure there was while reading or writing.
#[derive(Copy, Clone, PartialEq, Eq, Structural, Debug)]
pub enum IoErrorKind {
    /// There is not enough space left.
    StorageFull,
    /// Anything else.
    Other,
}

/// Everything that can go wrong.
#[derive(PartialEq, Eq, Debug)]
pub enum Error {
    /// A system call failed, with this message.
    Rustix(String),
    /// The database failed, with this message.
    Sql(String),
    /// Reading or writing failed in this way, with this message.
    Io(IoErrorKind, String),
    /// The named device does not exist.
    InvalidDevice(String),
    /// The named package is not acceptable.
    InvalidPackage(String),
    /// There is no upload secret.
    MissingUploadSecret,
    /// A request is not in a state which allows the change.
    StatusConflict,
}

impl Error {
    /// The message for humans.
    pub open spec fn text(self) -> Seq<char> {
        match self {
            Error::Rustix(message) => message@,
            Error::Sql(message) => message@,
            Error::Io(_, message) => message@,
            Error::InvalidDevice(device) => "invalid device "@ + text::str_debug(device@),
            Error::InvalidPackage(package) => "invalid package "@ + text::str_debug(package@),
            Error::MissingUploadSecret => "missing UPLOAD_SECRET environment variable"@,
            Error::StatusConflict => "invalid request status transition"@,
        }
    }

    /// Whether this error can occur while a request is served.
    pub open spec fn in_request(self) -> bool {
        !(self is MissingUploadSecret)
    }

    /// The reply to a request which failed with this error.
    pub open spec fn reply(self) -> ReplyView {
        match self {
            Error::Sql(_) => ReplyView::bare(OK),
            Error::StatusConflict => ReplyView::bare(CONFLICT),
            Error::InvalidDevice(device) => ReplyView::message(
                BAD_REQUEST,
                "unexpected device "@ + text::str_debug(device@)
                    + "; expected one of `pinephone`, or `pinephone-pro`"@,
            ),
            Error::InvalidPackage(_) => ReplyView::message(BAD_REQUEST, self.text()),
            Error::Rustix(_) | Error::Io(..) | Error::MissingUploadSecret => ReplyView::bare(
                INTERNAL_SERVER_ERROR,
            ),
        }
    }

    /// The message for humans.
    pub fn message(&self) -> (message: String)
        ensures
            message@ == self.text(),
    {
        match self {
            Error::Rustix(message) => message.clone(),
            Error::Sql(message) => message.clone(),
            Error::Io(_, message) => message.clone(),
            Error::InvalidDevice(device) => "invalid device ".to_owned().concat(
                text::debug_text(device.as_str()).as_str(),
            ),
            Error::InvalidPackage(package) => "invalid package ".to_owned().concat(
                text::debug_text(package.as_str()).as_str(),
            ),
            Error::MissingUploadSecret => "missing UPLOAD_SECRET environment variable".to_owned(),
            Error::StatusConflict => "invalid request status transition".to_owned(),
        }
    }

    /// The reply to a request which failed with this error.
    ///
    /// A missing upload secret stops the server before it serves any request.
    pub fn into_response(self) -> (reply: Reply)
        requires
            self.in_request(),
        ensures
            reply@ == self.reply(),
    {
        match self {
            Error::Sql(_) => Reply::bare(OK),
            Error::StatusConflict => Reply::bare(CONFLICT),
            Error::InvalidDevice(device) => Reply::message(
                BAD_REQUEST,
                "unexpected device ".to_owned().concat(
                    text::debug_text(device.as_str()).as_str(),
                ).concat("; expected one of `pinephone`, or `pinephone-pro`"),
            ),
            Error::InvalidPackage(package) => Reply::message(
                BAD_REQUEST,
                Error::InvalidPackage(package).message(),
            ),
            Error::Rustix(_) | Error::Io(..) | Error::MissingUploadSecret => Reply::bare(
                INTERNAL_SERVER_ERROR,
            ),
        }
    }
}

/// A reply tells its code and what it carries, whatever that is.
pub proof fn law_replies_hold_their_parts(
    code: u16,
    body: Body,
    message: String,
    requests: Vec<Request>,
    inserted: InsertedRequest,
    status: RequestStatus,
)
    ensures
        (Reply { code, body })@.code == code,
        (Reply { code, body })@.body == body@,
        ReplyView::bare(code).code == code,
        ReplyView::bare(code).body is Empty,
        ReplyView::message(code, message@).code == code,
        ReplyView::message(code, message@).body == BodyView::Text(message@),
        Body::Empty@ is Empty,
        Body::Text(message)@ == BodyView::Text(message@),
        Body::Requests(requests)@ == BodyView::Requests(db::request_views(requests@)),
        Body::Inserted(inserted)@ == BodyView::Inserted(inserted@),
        Body::Status(status)@ == BodyView::Status(status@),
{
}

/// A request which fails is answered by what went wrong: a conflict with 409,
/// what was asked for wrongly with 400 and an explanation, failures of the
/// system with 500 and those of the database with 200, both without any
/// details.
pub proof fn law_failures_are_answered(error: Error)
    requires
        !(error is MissingUploadSecret),
    ensures
        error.in_request(),
        error is StatusConflict ==> error.reply().code == 409 && error.reply().body is Empty,
        error is Sql ==> error.reply().code == 200 && error.reply().body is Empty,
        error is Rustix || error is Io ==> error.reply().code == 500 && error.reply().body is Empty,
        error matches Error::InvalidDevice(device) ==> error.reply().code == 400
            && error.reply().body == BodyView::Text(
            "unexpected device "@ + text::str_debug(device@)
                + "; expected one of `pinephone`, or `pinephone-pro`"@,
        ),
        error matches Error::InvalidPackage(package) ==> error.reply().code == 400
            && error.reply().body == BodyView::Text(
            "invalid package "@ + text::str_debug(package@),
        ),
{
}

/// Every error has a message, which for failures of the system and the database
/// is theirs. Only a missing upload secret does not occur in requests.
pub proof fn law_errors_are_told(error: Error)
    ensures
        error.in_request() <==> !(error is MissingUploadSecret),
        error matches Error::Rustix(message) ==> error.text() == message@,
        error matches Error::Sql(message) ==> error.text() == message@,
        error matches Error::Io(_, message) ==> error.text() == message@,
        error matches Error::InvalidDevice(device) ==> error.text() == "invalid device "@
            + text::str_debug(device@),
        error matches Error::InvalidPackage(package) ==> error.text() == "invalid package "@
            + text::str_debug(package@),
        error is MissingUploadSecret ==> error.text()
            == "missing UPLOAD_SECRET environment variable"@,
        error is StatusConflict ==> error.text() == "invalid request status transition"@,
{
}

/// The status codes are those of HTTP.
pub proof fn law_status_codes()
    ensures
        OK == 200,
        BAD_REQUEST == 400,
        UNAUTHORIZED == 401,
        NOT_FOUND == 404,
        CONFLICT == 409,
        INTERNAL_SERVER_ERROR == 500,
{
}

} // verus!
