use vstd::prelude::*;

use crate::errors::{unauthorized_view, HttpError, HttpErrorView};
use crate::text::{is_blank, trim_text};

verus! {

pub open spec fn option_text(s: Option<&String>) -> Option<Seq<char>> {
    match s {
        Some(v) => Some(v@),
        None => None,
    }
}

/// Whether an audit token is configured: present and not only whitespace.
pub open spec fn audit_configured(configured: Option<Seq<char>>) -> bool {
    configured matches Some(c) && trim_text(c).len() > 0
}

/// How a request to the audit endpoint is answered, given the `X-Audit-Token` it
/// carries and the token the service is configured with. The missing header is
/// reported before the configuration is looked at.
pub open spec fn audit_decision(provided: Option<Seq<char>>, configured: Option<Seq<char>>) -> Result<
    (),
    HttpErrorView,
> {
    match provided {
        None => Err(unauthorized_view("missing X-Audit-Token header"@)),
        Some(p) => if !audit_configured(configured) {
            Err(unauthorized_view("audit endpoint is not configured"@))
        } else if configured.unwrap() != p {
            Err(unauthorized_view("invalid audit token"@))
        } else {
            Ok(())
        },
    }
}

pub open spec fn unit_result_view(r: Result<(), HttpError>) -> Result<(), HttpErrorView> {
    match r {
        Ok(()) => Ok(()),
        Err(e) => Err(e@),
    }
}

/// Decides whether a request may read deleted items for audit: only when an audit
/// token is configured and the request carries exactly that token.
pub fn authorize_audit(provided: Option<&String>, configured: Option<&String>) -> (r: Result<
    (),
    HttpError,
>)
    ensures
        unit_result_view(r) == audit_decision(option_text(provided), option_text(configured)),
        r is Ok <==> (audit_configured(option_text(configured)) && provided is Some
            && configured.unwrap()@ == provided.unwrap()@),
{
    let provided_token = match provided {
        Some(token) => token,
        None => {
            return Err(HttpError::unauthorized("missing X-Audit-Token header".to_owned()));
        },
    };
    let configured_token = match configured {
        Some(token) => token,
        None => {
            return Err(HttpError::unauthorized("audit endpoint is not configured".to_owned()));
        },
    };
    if is_blank(configured_token.as_str()) {
        return Err(HttpError::unauthorized("audit endpoint is not configured".to_owned()));
    }
    if !configured_token.eq(provided_token) {
        return Err(HttpError::unauthorized("invalid audit token".to_owned()));
    }
    Ok(())
}

} // verus!
