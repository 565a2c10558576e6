use vstd::prelude::*;

verus! {

/// `400 Bad Request`.
pub const BAD_REQUEST: u16 = 400;

/// `401 Unauthorized`.
pub const UNAUTHORIZED: u16 = 401;

/// `404 Not Found`.
pub const NOT_FOUND: u16 = 404;

/// `412 Precondition Failed`.
pub const PRECONDITION_FAILED: u16 = 412;

/// `428 Precondition Required`.
pub const PRECONDITION_REQUIRED: u16 = 428;

/// `500 Internal Server Error`.
pub const INTERNAL_SERVER_ERROR: u16 = 500;

/// `503 Service Unavailable`.
pub const SERVICE_UNAVAILABLE: u16 = 503;

/// The fields of an RFC 7807 problem document that this service fills in.
pub struct Problem {
    pub status: u16,
    pub title: Option<String>,
    pub detail: Option<String>,
}

/// A failure answered to an HTTP client.
pub enum HttpError {
    /// Rendered as a JSON problem document.
    Problem(Problem),
    /// A bare status code with a plain-text body, bypassing the problem document.
    PlainText(u16, String),
}

/// The problem fields as mathematical values.
pub struct ProblemView {
    pub status: u16,
    pub title: Option<Seq<char>>,
    pub detail: Option<Seq<char>>,
}

/// An `HttpError` as mathematical values.
pub enum HttpErrorView {
    Problem(ProblemView),
    PlainText(u16, Seq<char>),
}

pub open spec fn option_string_view(s: Option<String>) -> Option<Seq<char>> {
    match s {
        Some(v) => Some(v@),
        None => None,
    }
}

impl View for Problem {
    type V = ProblemView;

    open spec fn view(&self) -> ProblemView {
        ProblemView {
            status: self.status,
            title: option_string_view(self.title),
            detail: option_string_view(self.detail),
        }
    }
}

impl View for HttpError {
    type V = HttpErrorView;

    open spec fn view(&self) -> HttpErrorView {
        match self {
            HttpError::Problem(p) => HttpErrorView::Problem(p@),
            HttpError::PlainText(status, body) => HttpErrorView::PlainText(*status, body@),
        }
    }
}

/// A problem with a status and a detail and no title.
pub open spec fn untitled_problem(status: u16, detail: Seq<char>) -> HttpErrorView {
    HttpErrorView::Problem(ProblemView { status, title: None, detail: Some(detail) })
}

/// A problem with a status, a title and a detail.
pub open spec fn titled_problem(status: u16, title: Seq<char>, detail: Seq<char>) -> HttpErrorView {
    HttpErrorView::Problem(ProblemView { status, title: Some(title), detail: Some(detail) })
}

pub open spec fn bad_request_view(detail: Seq<char>) -> HttpErrorView {
    untitled_problem(BAD_REQUEST, detail)
}

pub open spec fn internal_server_error_view(detail: Seq<char>) -> HttpErrorView {
    titled_problem(INTERNAL_SERVER_ERROR, "Internal Server Error"@, detail)
}

pub open spec fn precondition_failed_view(detail: Seq<char>) -> HttpErrorView {
    titled_problem(PRECONDITION_FAILED, "Precondition Failed"@, detail)
}

pub open spec fn precondition_required_view(detail: Seq<char>) -> HttpErrorView {
    titled_problem(PRECONDITION_REQUIRED, "Precondition Required"@, detail)
}

pub open spec fn path_not_found_view(detail: Seq<char>) -> HttpErrorView {
    HttpErrorView::PlainText(NOT_FOUND, detail)
}

pub open spec fn unauthorized_view(detail: Seq<char>) -> HttpErrorView {
    titled_problem(UNAUTHORIZED, "Unauthorized"@, detail)
}

pub open spec fn not_found_problem_view(detail: Seq<char>) -> HttpErrorView {
    titled_problem(NOT_FOUND, "Not Found"@, detail)
}

/// The status code of the response an error is answered with.
pub open spec fn error_status(e: HttpErrorView) -> u16 {
    match e {
        HttpErrorView::Problem(p) => p.status,
        HttpErrorView::PlainText(status, _) => status,
    }
}

/// The detail text an application failure is reported with.
pub const INTERNAL_ERROR_DETAIL: &'static str = "an internal error occurred";

/// A failure reported by the application layer, with the text it displays as.
pub enum ApplicationError {
    /// The requested item does not exist.
    NotFound { message: String },
    /// The item changed since the version the client holds.
    Conflict { message: String },
    /// Anything else; its text may hold internal details.
    Internal { message: String },
}

pub enum ApplicationErrorView {
    NotFound { message: Seq<char> },
    Conflict { message: Seq<char> },
    Internal { message: Seq<char> },
}

impl View for ApplicationError {
    type V = ApplicationErrorView;

    open spec fn view(&self) -> ApplicationErrorView {
        match self {
            ApplicationError::NotFound { message } => ApplicationErrorView::NotFound {
                message: message@,
            },
            ApplicationError::Conflict { message } => ApplicationErrorView::Conflict {
                message: message@,
            },
            ApplicationError::Internal { message } => ApplicationErrorView::Internal {
                message: message@,
            },
        }
    }
}

/// How an application failure is answered.
pub open spec fn application_error_answer(e: ApplicationErrorView) -> HttpErrorView {
    match e {
        ApplicationErrorView::NotFound { message } => not_found_problem_view(message),
        ApplicationErrorView::Conflict { message } => precondition_failed_view(message),
        ApplicationErrorView::Internal { .. } => internal_server_error_view(
            INTERNAL_ERROR_DETAIL@,
        ),
    }
}

impl HttpError {
    /// A `400` problem carrying `detail`.
    pub fn bad_request(detail: String) -> (e: HttpError)
        ensures
            e@ == bad_request_view(detail@),
    {
        HttpError::Problem(Problem { status: BAD_REQUEST, title: None, detail: Some(detail) })
    }

    /// A `500` problem titled "Internal Server Error" carrying `detail`.
    pub fn internal_server_error(detail: String) -> (e: HttpError)
        ensures
            e@ == internal_server_error_view(detail@),
    {
        HttpError::Problem(
            Problem {
                status: INTERNAL_SERVER_ERROR,
                title: Some("Internal Server Error".to_owned()),
                detail: Some(detail),
            },
        )
    }

    /// A `412` problem titled "Precondition Failed" carrying `detail`.
    pub fn precondition_failed(detail: String) -> (e: HttpError)
        ensures
            e@ == precondition_failed_view(detail@),
    {
        HttpError::Problem(
            Problem {
                status: PRECONDITION_FAILED,
                title: Some("Precondition Failed".to_owned()),
                detail: Some(detail),
            },
        )
    }

    /// A `428` problem titled "Precondition Required" carrying `detail`.
    pub fn precondition_required(detail: String) -> (e: HttpError)
        ensures
            e@ == precondition_required_view(detail@),
    {
        HttpError::Problem(
            Problem {
                status: PRECONDITION_REQUIRED,
                title: Some("Precondition Required".to_owned()),
                detail: Some(detail),
            },
        )
    }

    /// A `404` whose body is `detail` as plain text, with no problem document.
    pub fn path_not_found(detail: String) -> (e: HttpError)
        ensures
            e@ == path_not_found_view(detail@),
    {
        HttpError::PlainText(NOT_FOUND, detail)
    }

    /// A `401` problem titled "Unauthorized" carrying `detail`.
    pub fn unauthorized(detail: String) -> (e: HttpError)
        ensures
            e@ == unauthorized_view(detail@),
    {
        HttpError::Problem(
            Problem {
                status: UNAUTHORIZED,
                title: Some("Unauthorized".to_owned()),
                detail: Some(detail),
            },
        )
    }

    /// Answers an application failure: a missing item is a titled `404`, a stale
    /// version a `412`, and anything else a `500` whose detail is a fixed text, so
    /// that no internal detail reaches the client.
    pub fn from_application_error(err: ApplicationError) -> (e: HttpError)
        ensures
            e@ == application_error_answer(err@),
    {
        match err {
            ApplicationError::NotFound { message } => HttpError::Problem(
                Problem {
                    status: NOT_FOUND,
                    title: Some("Not Found".to_owned()),
                    detail: Some(message),
                },
            ),
            ApplicationError::Conflict { message } => HttpError::precondition_failed(message),
            ApplicationError::Internal { .. } => HttpError::internal_server_error(
                INTERNAL_ERROR_DETAIL.to_owned(),
            ),
        }
    }

    /// The status code of the response this error is answered with.
    pub fn status(&self) -> (code: u16)
        ensures
            code == error_status(self@),
    {
        match self {
            HttpError::Problem(p) => p.status,
            HttpError::PlainText(status, _) => *status,
        }
    }
}

/// An internal application failure is answered the same whatever its text says:
/// its details never reach the client.
pub proof fn lemma_internal_errors_are_sanitized(first: Seq<char>, second: Seq<char>)
    ensures
        application_error_answer(ApplicationErrorView::Internal { message: first })
            == application_error_answer(ApplicationErrorView::Internal { message: second }),
        application_error_answer(ApplicationErrorView::Internal { message: first })
            == internal_server_error_view(INTERNAL_ERROR_DETAIL@),
{
}

/// The status a request with a method its path does not support is answered with:
/// `404`, with an empty body, as for a path that does not exist.
pub fn method_not_allowed() -> (status: u16)
    ensures
        status == NOT_FOUND,
{
    NOT_FOUND
}

} // verus!
