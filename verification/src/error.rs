//! The error that a refused request is answered with.

use vstd::prelude::*;

verus! {

/// The kinds of refusal, one per HTTP status.
#[derive(Clone, Copy, Debug, PartialEq, Eq, Structural)]
pub enum Status {
    BadRequest,
    Unauthorized,
    Forbidden,
    NotFound,
    Conflict,
    Gone,
    TooManyRequests,
    Internal,
    BadGateway,
    ServiceUnavailable,
}

impl Status {
    /// The HTTP status code.
    pub open spec fn spec_code(self) -> u16 {
        match self {
            Status::BadRequest => 400,
            Status::Unauthorized => 401,
            Status::Forbidden => 403,
            Status::NotFound => 404,
            Status::Conflict => 409,
            Status::Gone => 410,
            Status::TooManyRequests => 429,
            Status::Internal => 500,
            Status::BadGateway => 502,
            Status::ServiceUnavailable => 503,
        }
    }

    /// The HTTP status code.
    pub fn code(self) -> (r: u16)
        ensures
            r == self.spec_code(),
    {
        match self {
            Status::BadRequest => 400,
            Status::Unauthorized => 401,
            Status::Forbidden => 403,
            Status::NotFound => 404,
            Status::Conflict => 409,
            Status::Gone => 410,
            Status::TooManyRequests => 429,
            Status::Internal => 500,
            Status::BadGateway => 502,
            Status::ServiceUnavailable => 503,
        }
    }
}

/// A refusal: its status, what it says, and after how many seconds a throttled
/// caller may come back.
#[derive(Debug)]
pub struct ApiError {
    pub status: Status,
    pub message: String,
    pub retry_after: Option<u64>,
}

/// What an `ApiError` holds.
pub struct ErrorView {
    pub status: Status,
    pub message: Seq<char>,
    pub retry_after: Option<u64>,
}

impl View for ApiError {
    type V = ErrorView;

    open spec fn view(&self) -> ErrorView {
        ErrorView { status: self.status, message: self.message@, retry_after: self.retry_after }
    }
}

/// The refusal with this status and message.
pub open spec fn error_of(status: Status, message: Seq<char>) -> ErrorView {
    ErrorView { status, message, retry_after: None }
}

/// An outcome that is that refusal.
pub open spec fn refused<V>(status: Status, message: Seq<char>) -> Result<V, ErrorView> {
    Err(error_of(status, message))
}

/// An outcome by its views.
pub open spec fn seen<T: View>(r: Result<T, ApiError>) -> Result<T::V, ErrorView> {
    match r {
        Ok(v) => Ok(v@),
        Err(e) => Err(e@),
    }
}

/// An outcome whose value stands for itself.
pub open spec fn plain<T>(r: Result<T, ApiError>) -> Result<T, ErrorView> {
    match r {
        Ok(v) => Ok(v),
        Err(e) => Err(e@),
    }
}

/// An optional outcome by its views.
pub open spec fn seen_option<T: View>(r: Result<Option<T>, ApiError>) -> Result<
    Option<T::V>,
    ErrorView,
> {
    match r {
        Ok(Some(v)) => Ok(Some(v@)),
        Ok(None) => Ok(None),
        Err(e) => Err(e@),
    }
}

impl ApiError {
    /// The refusal with this status and message.
    pub fn new(status: Status, message: &str) -> (r: ApiError)
        ensures
            r@ == error_of(status, message@),
    {
        ApiError { status, message: message.to_owned(), retry_after: None }
    }

    pub fn bad_request(message: &str) -> (r: ApiError)
        ensures
            r@ == error_of(Status::BadRequest, message@),
    {
        ApiError::new(Status::BadRequest, message)
    }

    pub fn unauthorized(message: &str) -> (r: ApiError)
        ensures
            r@ == error_of(Status::Unauthorized, message@),
    {
        ApiError::new(Status::Unauthorized, message)
    }

    pub fn forbidden(message: &str) -> (r: ApiError)
        ensures
            r@ == error_of(Status::Forbidden, message@),
    {
        ApiError::new(Status::Forbidden, message)
    }

    pub fn not_found(message: &str) -> (r: ApiError)
        ensures
            r@ == error_of(Status::NotFound, message@),
    {
        ApiError::new(Status::NotFound, message)
    }

    pub fn conflict(message: &str) -> (r: ApiError)
        ensures
            r@ == error_of(Status::Conflict, message@),
    {
        ApiError::new(Status::Conflict, message)
    }

    pub fn gone(message: &str) -> (r: ApiError)
        ensures
            r@ == error_of(Status::Gone, message@),
    {
        ApiError::new(Status::Gone, message)
    }

    pub fn internal(message: &str) -> (r: ApiError)
        ensures
            r@ == error_of(Status::Internal, message@),
    {
        ApiError::new(Status::Internal, message)
    }

    pub fn bad_gateway(message: &str) -> (r: ApiError)
        ensures
            r@ == error_of(Status::BadGateway, message@),
    {
        ApiError::new(Status::BadGateway, message)
    }

    pub fn service_unavailable(message: &str) -> (r: ApiError)
        ensures
            r@ == error_of(Status::ServiceUnavailable, message@),
    {
        ApiError::new(Status::ServiceUnavailable, message)
    }

    /// The refusal of a throttled caller, who may come back after `retry_after`
    /// seconds.
    pub fn too_many_requests(message: &str, retry_after: u64) -> (r: ApiError)
        ensures
            r@ == (ErrorView {
                status: Status::TooManyRequests,
                message: message@,
                retry_after: Some(retry_after),
            }),
    {
        ApiError {
            status: Status::TooManyRequests,
            message: message.to_owned(),
            retry_after: Some(retry_after),
        }
    }
}

/// A refusal with a fixed message, as a step of a procedure decides it.
#[derive(Clone, Copy, Debug)]
pub struct Refusal {
    pub status: Status,
    pub message: &'static str,
}

impl View for Refusal {
    type V = ErrorView;

    open spec fn view(&self) -> ErrorView {
        error_of(self.status, self.message@)
    }
}

impl Refusal {
    /// The error that answers the request.
    pub fn error(self) -> (r: ApiError)
        ensures
            r@ == self@,
    {
        ApiError::new(self.status, self.message)
    }
}

/// The refusal with this status and message.
pub open spec fn refusal(status: Status, message: &'static str) -> Refusal {
    Refusal { status, message }
}

/// The refusal with this status and message.
pub fn refuse(status: Status, message: &'static str) -> (r: Refusal)
    ensures
        r == refusal(status, message),
{
    Refusal { status, message }
}

/// Each status has the code that the protocol gives it.
pub proof fn statuses_have_their_codes(status: Status, message: Seq<char>)
    ensures
        status.spec_code() == 400 <==> status == Status::BadRequest,
        status.spec_code() == 401 <==> status == Status::Unauthorized,
        status.spec_code() == 403 <==> status == Status::Forbidden,
        status.spec_code() == 404 <==> status == Status::NotFound,
        status.spec_code() == 409 <==> status == Status::Conflict,
        status.spec_code() == 410 <==> status == Status::Gone,
        status.spec_code() == 429 <==> status == Status::TooManyRequests,
        status.spec_code() == 500 <==> status == Status::Internal,
        status.spec_code() == 502 <==> status == Status::BadGateway,
        status.spec_code() == 503 <==> status == Status::ServiceUnavailable,
        400 <= status.spec_code() < 600,
        error_of(status, message).status == status,
        error_of(status, message).message == message,
        error_of(status, message).retry_after is None,
{
}

/// What is refused is refused with the status and the message that were named.
pub proof fn refusals_say_why(status: Status, message: &'static str)
    ensures
        refusal(status, message).status == status,
        refusal(status, message).message == message,
        refusal(status, message)@ == error_of(status, message@),
        refused::<bool>(status, message@) == Err::<bool, ErrorView>(error_of(status, message@)),
{
}

} // verus!
