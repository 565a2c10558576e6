use presentation::audit::authorize_audit;
use presentation::errors::{
    method_not_allowed, ApplicationError, HttpError, INTERNAL_SERVER_ERROR, NOT_FOUND,
    PRECONDITION_FAILED, UNAUTHORIZED,
};
use presentation::health::{live, ready, service_unavailable, startup, ReadinessFailure, ReadinessStage};

fn problem(e: &HttpError) -> (u16, Option<String>, Option<String>) {
    match e {
        HttpError::Problem(p) => (p.status, p.title.clone(), p.detail.clone()),
        HttpError::PlainText(..) => panic!("expected a problem document"),
    }
}

#[test]
fn maps_not_found_application_errors_to_404_problem_details() {
    let error = HttpError::from_application_error(ApplicationError::NotFound {
        message: "todo item with id 00000000-0000-0000-0000-000000000000 was not found".to_string(),
    });
    assert_eq!(error.status(), NOT_FOUND);
    let (status, title, detail) = problem(&error);
    assert_eq!(status, 404);
    assert_eq!(title.as_deref(), Some("Not Found"));
    assert!(detail.unwrap().contains("todo item with id"));
}

#[test]
fn sanitizes_internal_application_errors() {
    let error = HttpError::from_application_error(ApplicationError::Internal {
        message: "db exploded".to_string(),
    });
    assert_eq!(error.status(), INTERNAL_SERVER_ERROR);
    let (_, title, detail) = problem(&error);
    assert_eq!(title.as_deref(), Some("Internal Server Error"));
    let detail = detail.unwrap();
    assert!(detail.contains("an internal error occurred"));
    assert!(!detail.contains("db exploded"));
}

#[test]
fn conflicts_become_precondition_failed() {
    let error = HttpError::from_application_error(ApplicationError::Conflict {
        message: "version mismatch".to_string(),
    });
    let (status, title, detail) = problem(&error);
    assert_eq!(status, PRECONDITION_FAILED);
    assert_eq!(title.as_deref(), Some("Precondition Failed"));
    assert_eq!(detail.as_deref(), Some("version mismatch"));
}

#[test]
fn error_constructors_set_status_title_and_detail() {
    let (s, t, d) = problem(&HttpError::bad_request("bad".to_string()));
    assert_eq!((s, t, d.as_deref()), (400, None, Some("bad")));
    let (s, t, _) = problem(&HttpError::internal_server_error("x".to_string()));
    assert_eq!((s, t.as_deref()), (500, Some("Internal Server Error")));
    let (s, t, _) = problem(&HttpError::precondition_failed("x".to_string()));
    assert_eq!((s, t.as_deref()), (412, Some("Precondition Failed")));
    let (s, t, _) = problem(&HttpError::precondition_required("x".to_string()));
    assert_eq!((s, t.as_deref()), (428, Some("Precondition Required")));
    let (s, t, _) = problem(&HttpError::unauthorized("x".to_string()));
    assert_eq!((s, t.as_deref()), (401, Some("Unauthorized")));
    match HttpError::path_not_found("raw message".to_string()) {
        HttpError::PlainText(status, body) => {
            assert_eq!(status, 404);
            assert_eq!(body, "raw message");
        }
        HttpError::Problem(_) => panic!("expected plain text"),
    }
}

#[test]
fn unsupported_methods_are_not_found() {
    assert_eq!(method_not_allowed(), 404);
}

#[test]
fn health_checks_answer_ok() {
    assert_eq!(startup().ok(), Some("Ok"));
    assert_eq!(live().ok(), Some("Ok"));
    assert_eq!(ready(Ok(())).ok(), Some("Ok"));
}

#[test]
fn readiness_failures_name_the_failed_step() {
    let cases = [
        (ReadinessStage::AcquireConnection, "failed to acquire database connection: timed out"),
        (ReadinessStage::ExecuteQuery, "failed to execute readiness query: syntax"),
        (ReadinessStage::JoinTask, "readiness task join failure: panicked"),
    ];
    let details = ["timed out", "syntax", "panicked"];
    for ((stage, expected), detail) in cases.into_iter().zip(details) {
        let failure = ReadinessFailure { stage, detail: detail.to_string() };
        match ready(Err(failure)) {
            Ok(_) => panic!("a failed probe must not be ready"),
            Err(unavailable) => {
                assert_eq!(unavailable.detail(), expected);
                let (status, body) = unavailable.into_parts();
                assert_eq!(status, 503);
                assert_eq!(body, expected);
            }
        }
    }
}

#[test]
fn service_unavailable_keeps_its_detail() {
    let e = service_unavailable("down".to_string());
    assert_eq!(e.into_parts(), (503, "down".to_string()));
}

fn unauthorized_detail(r: Result<(), HttpError>) -> String {
    let e = r.unwrap_err();
    let (status, title, detail) = problem(&e);
    assert_eq!(status, UNAUTHORIZED);
    assert_eq!(title.as_deref(), Some("Unauthorized"));
    detail.unwrap()
}

#[test]
fn audit_requires_the_configured_token() {
    let secret = "s3cret".to_string();
    let other = "guess".to_string();
    let blank = " \t\u{3000}".to_string();
    assert!(authorize_audit(Some(&secret), Some(&secret)).is_ok());
    assert_eq!(unauthorized_detail(authorize_audit(None, Some(&secret))), "missing X-Audit-Token header");
    assert_eq!(unauthorized_detail(authorize_audit(None, None)), "missing X-Audit-Token header");
    assert_eq!(
        unauthorized_detail(authorize_audit(Some(&secret), None)),
        "audit endpoint is not configured"
    );
    assert_eq!(
        unauthorized_detail(authorize_audit(Some(&blank), Some(&blank))),
        "audit endpoint is not configured"
    );
    assert_eq!(unauthorized_detail(authorize_audit(Some(&other), Some(&secret))), "invalid audit token");
    let padded = " s3cret".to_string();
    assert_eq!(unauthorized_detail(authorize_audit(Some(&padded), Some(&secret))), "invalid audit token");
}
