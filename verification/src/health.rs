use vstd::prelude::*;

use crate::errors::SERVICE_UNAVAILABLE;

verus! {

/// The body every passing health check answers with.
pub const OK_STATUS: &'static str = "Ok";

/// Error answer of a health check that cannot be satisfied: a `503` whose
/// plain-text body says why.
pub struct ServiceUnavailable(String);

impl View for ServiceUnavailable {
    type V = Seq<char>;

    closed spec fn view(&self) -> Seq<char> {
        self.0@
    }
}

impl ServiceUnavailable {
    /// Why the check failed.
    pub fn detail(&self) -> (d: &String)
        ensures
            d@ == self@,
    {
        &self.0
    }

    /// The status and body the failure is answered with.
    pub fn into_parts(self) -> (parts: (u16, String))
        ensures
            parts.0 == SERVICE_UNAVAILABLE,
            parts.1@ == self@,
    {
        (SERVICE_UNAVAILABLE, self.0)
    }
}

/// A failed health check that says `detail`.
pub fn service_unavailable(detail: String) -> (e: ServiceUnavailable)
    ensures
        e@ == detail@,
{
    ServiceUnavailable(detail)
}

/// A passing health check: the body `Ok`.
pub open spec fn healthy(r: Result<&'static str, ServiceUnavailable>) -> bool {
    r matches Ok(body) && body@ == OK_STATUS@
}

/// Whether the application has started: it has, once it answers.
pub fn startup() -> (r: Result<&'static str, ServiceUnavailable>)
    ensures
        healthy(r),
{
    Ok(OK_STATUS)
}

/// Whether the application is live and accepting requests: it is, once it answers.
pub fn live() -> (r: Result<&'static str, ServiceUnavailable>)
    ensures
        healthy(r),
{
    Ok(OK_STATUS)
}

/// The step of the readiness check that failed.
pub enum ReadinessStage {
    /// No database connection could be taken from the pool.
    AcquireConnection,
    /// The probe query failed on the connection.
    ExecuteQuery,
    /// The blocking task that ran the probe did not complete.
    JoinTask,
}

/// A readiness check that failed at `stage`, with the text of the error it met.
pub struct ReadinessFailure {
    pub stage: ReadinessStage,
    pub detail: String,
}

/// How each failed step is introduced in the answer.
pub open spec fn readiness_prefix(stage: ReadinessStage) -> Seq<char> {
    match stage {
        ReadinessStage::AcquireConnection => "failed to acquire database connection: "@,
        ReadinessStage::ExecuteQuery => "failed to execute readiness query: "@,
        ReadinessStage::JoinTask => "readiness task join failure: "@,
    }
}

/// Whether the application is ready to serve, given the outcome of its probe of the
/// database: ready with `Ok` when the probe passed, else unavailable with the failed
/// step and its error.
pub fn ready(probe: Result<(), ReadinessFailure>) -> (r: Result<&'static str, ServiceUnavailable>)
    ensures
        probe is Ok <==> healthy(r),
        probe matches Err(f) ==> (r matches Err(e) && e@ == readiness_prefix(f.stage) + f.detail@),
{
    match probe {
        Ok(()) => Ok(OK_STATUS),
        Err(failure) => {
            let mut message = match failure.stage {
                ReadinessStage::AcquireConnection => "failed to acquire database connection: ".to_owned(),
                ReadinessStage::ExecuteQuery => "failed to execute readiness query: ".to_owned(),
                ReadinessStage::JoinTask => "readiness task join failure: ".to_owned(),
            };
            message.append(failure.detail.as_str());
            Err(service_unavailable(message))
        },
    }
}

} // verus!
