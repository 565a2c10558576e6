use vstd::prelude::*;

use crate::text::{
    all_visible_ascii, ascii_text, option_bytes_view, is_unicode_whitespace, is_visible_ascii, is_visible_ascii_text,
    trim, trim_range, trim_str, trim_text, Trimmed, is_ascii_whitespace_byte,
    lemma_trim_untouched, trimmed_bytes,
};

verus! {

/// Content type of the metrics page, the Prometheus text format.
pub const METRICS_CONTENT_TYPE: &'static str = "text/plain; version=0.0.4";

/// The label of the class a status code belongs to, as the request metrics use it.
pub open spec fn status_class_label(code: u16) -> Seq<char> {
    if 200 <= code <= 299 {
        "2xx"@
    } else if 300 <= code <= 399 {
        "3xx"@
    } else if 400 <= code <= 499 {
        "4xx"@
    } else if 500 <= code <= 599 {
        "5xx"@
    } else {
        "other"@
    }
}

/// Groups a status code into its class: `2xx`, `3xx`, `4xx`, `5xx`, or `other`.
pub fn status_class(code: u16) -> (label: &'static str)
    ensures
        label@ == status_class_label(code),
{
    if 200 <= code && code <= 299 {
        "2xx"
    } else if 300 <= code && code <= 399 {
        "3xx"
    } else if 400 <= code && code <= 499 {
        "4xx"
    } else if 500 <= code && code <= 599 {
        "5xx"
    } else {
        "other"
    }
}

/// The observability part of the service settings.
pub struct ObservabilitySettings {
    /// Name of the header that carries a request's id.
    pub request_id_header: String,
    /// Whether request metrics are recorded.
    pub metrics_enabled: bool,
    /// Path the metrics are served on; requests to it are not counted.
    pub metrics_path: String,
    /// Log filter used when the environment sets none.
    pub log_level: String,
}

/// What the request middleware needs, validated from the settings.
pub struct ObservabilityConfig {
    /// The request id header, as a normalized header name.
    pub request_id_header_name: String,
    /// The header the request id is echoed in, the same name.
    pub request_id_response_name: String,
    pub metrics_enabled: bool,
    pub metrics_path: String,
}

/// Settings that cannot be used.
pub enum ConfigError {
    /// The request id header, trimmed, is not a valid header name.
    InvalidRequestIdHeader(String),
}

/// A character `http::HeaderName` accepts in a name: an RFC 7230 token character.
pub open spec fn is_header_name_char(c: char) -> bool {
    let v = c as u32;
    ||| 0x30 <= v <= 0x39
    ||| 0x41 <= v <= 0x5a
    ||| 0x61 <= v <= 0x7a
    ||| v == 0x21 || v == 0x23 || v == 0x24 || v == 0x25 || v == 0x26 || v == 0x27
    ||| v == 0x2a || v == 0x2b || v == 0x2d || v == 0x2e || v == 0x5e || v == 0x5f
    ||| v == 0x60 || v == 0x7c || v == 0x7e
}

/// What `http::HeaderName` accepts as a name: one to 65535 token characters.
pub open spec fn is_header_name(s: Seq<char>) -> bool {
    &&& 0 < s.len() <= 65535
    &&& forall|i: int| 0 <= i < s.len() ==> is_header_name_char(#[trigger] s[i])
}

/// A character with ASCII upper case letters mapped to lower case.
pub open spec fn ascii_lowercase(c: char) -> char {
    if 0x41 <= (c as u32) <= 0x5a {
        ((c as u32) + 32) as char
    } else {
        c
    }
}

/// The normalized form `http::HeaderName` keeps of a name: lower case.
pub open spec fn header_name_normal_form(s: Seq<char>) -> Seq<char> {
    s.map_values(|c: char| ascii_lowercase(c))
}

/// `http::HeaderName::try_from(&str)`, and the name's `as_str` when it succeeds.
/// The contract states what `HeaderName::from_bytes` shows: it accepts one to
/// 65535 bytes, each mapped through its table of token characters (upper case
/// letters to lower case, every other byte rejected), and keeps the mapped bytes.
#[verifier::external_body]
fn normalized_header_name(name: &str) -> (r: Option<String>)
    ensures
        r is Some <==> is_header_name(name@),
        r matches Some(n) ==> n@ == header_name_normal_form(name@),
{
    match http::HeaderName::try_from(name) {
        Ok(header) => Some(header.as_str().to_owned()),
        Err(_) => None,
    }
}

pub struct ObservabilitySettingsView {
    pub request_id_header: Seq<char>,
    pub metrics_enabled: bool,
    pub metrics_path: Seq<char>,
}

pub struct ObservabilityConfigView {
    pub request_id_header_name: Seq<char>,
    pub request_id_response_name: Seq<char>,
    pub metrics_enabled: bool,
    pub metrics_path: Seq<char>,
}

impl View for ObservabilitySettings {
    type V = ObservabilitySettingsView;

    open spec fn view(&self) -> ObservabilitySettingsView {
        ObservabilitySettingsView {
            request_id_header: self.request_id_header@,
            metrics_enabled: self.metrics_enabled,
            metrics_path: self.metrics_path@,
        }
    }
}

impl View for ObservabilityConfig {
    type V = ObservabilityConfigView;

    open spec fn view(&self) -> ObservabilityConfigView {
        ObservabilityConfigView {
            request_id_header_name: self.request_id_header_name@,
            request_id_response_name: self.request_id_response_name@,
            metrics_enabled: self.metrics_enabled,
            metrics_path: self.metrics_path@,
        }
    }
}

/// The configuration the settings give, or the trimmed header name they hold when
/// it is not a valid header name.
pub open spec fn config_from_settings(settings: ObservabilitySettingsView) -> Result<
    ObservabilityConfigView,
    Seq<char>,
> {
    let header = trim_text(settings.request_id_header);
    if is_header_name(header) {
        Ok(
            ObservabilityConfigView {
                request_id_header_name: header_name_normal_form(header),
                request_id_response_name: header_name_normal_form(header),
                metrics_enabled: settings.metrics_enabled,
                metrics_path: settings.metrics_path,
            },
        )
    } else {
        Err(header)
    }
}

pub open spec fn config_result_view(r: Result<ObservabilityConfig, ConfigError>) -> Result<
    ObservabilityConfigView,
    Seq<char>,
> {
    match r {
        Ok(c) => Ok(c@),
        Err(ConfigError::InvalidRequestIdHeader(h)) => Err(h@),
    }
}

/// The prefix of the message an invalid request id header is reported with.
pub open spec fn invalid_header_prefix() -> Seq<char> {
    "invalid request id header name: "@
}

impl ConfigError {
    /// The message the error is reported with.
    pub fn message(&self) -> (m: String)
        ensures
            match self {
                ConfigError::InvalidRequestIdHeader(h) => m@ == invalid_header_prefix() + h@,
            },
    {
        match self {
            ConfigError::InvalidRequestIdHeader(header) => {
                let mut m = "invalid request id header name: ".to_owned();
                m.append(header.as_str());
                m
            },
        }
    }
}

impl ObservabilityConfig {
    /// Validates the observability settings: the request id header, trimmed, must
    /// be a valid header name, and is kept in normalized form.
    pub fn from_settings(settings: &ObservabilitySettings) -> (r: Result<
        ObservabilityConfig,
        ConfigError,
    >)
        ensures
            config_result_view(r) == config_from_settings(settings@),
            r is Ok <==> is_header_name(trim_text(settings.request_id_header@)),
            r matches Ok(c) ==> {
                &&& c.request_id_header_name@ == header_name_normal_form(
                    trim_text(settings.request_id_header@),
                )
                &&& c.request_id_response_name@ == c.request_id_header_name@
                &&& c.metrics_enabled == settings.metrics_enabled
                &&& c.metrics_path@ == settings.metrics_path@
            },
            r matches Err(ConfigError::InvalidRequestIdHeader(h)) ==> h@ == trim_text(
                settings.request_id_header@,
            ),
    {
        let request_header = trim_str(settings.request_id_header.as_str());
        match normalized_header_name(request_header.as_str()) {
            Some(name) => Ok(
                ObservabilityConfig {
                    request_id_header_name: name.clone(),
                    request_id_response_name: name,
                    metrics_enabled: settings.metrics_enabled,
                    metrics_path: settings.metrics_path.clone(),
                },
            ),
            None => Err(ConfigError::InvalidRequestIdHeader(request_header)),
        }
    }
}

/// The id a request carries in its request id header (`None` when absent): the
/// value, trimmed, when it is visible ASCII and not blank.
pub open spec fn header_request_id(raw: Option<Seq<u8>>) -> Option<Seq<u8>> {
    match raw {
        None => None,
        Some(b) => if all_visible_ascii(b) && trim(Trimmed::Whitespace, b).len() > 0 {
            Some(trim(Trimmed::Whitespace, b))
        } else {
            None
        },
    }
}

/// A lower-case hexadecimal digit.
pub open spec fn is_lower_hex(c: char) -> bool {
    ('0' as u32 <= c as u32 <= '9' as u32) || ('a' as u32 <= c as u32 <= 'f' as u32)
}

/// The hyphenated lower-case text of a version 4 UUID:
/// `xxxxxxxx-xxxx-4xxx-yxxx-xxxxxxxxxxxx` with `y` one of `8`, `9`, `a`, `b`.
pub open spec fn is_v4_uuid_text(s: Seq<char>) -> bool {
    &&& s.len() == 36
    &&& forall|i: int|
        0 <= i < 36 ==> if i == 8 || i == 13 || i == 18 || i == 23 {
            #[trigger] s[i] == '-'
        } else {
            is_lower_hex(s[i])
        }
    &&& s[14] == '4'
    &&& (s[19] == '8' || s[19] == '9' || s[19] == 'a' || s[19] == 'b')
}

/// A character that `HeaderValue::to_str` accepts.
pub open spec fn is_visible_ascii_char(c: char) -> bool {
    let v = c as u32;
    (32 <= v && v < 127) || v == 9
}

/// A text that can be sent as a request id header: not empty, visible ASCII, and
/// without whitespace at either end.
pub open spec fn is_request_id_text(s: Seq<char>) -> bool {
    &&& s.len() > 0
    &&& forall|i: int| 0 <= i < s.len() ==> is_visible_ascii_char(#[trigger] s[i])
    &&& !is_unicode_whitespace(s[0])
    &&& !is_unicode_whitespace(s.last())
}

/// `Uuid::new_v4().to_string()`: a random version 4 UUID in its hyphenated
/// lower-case text. Which UUID comes out is chance; the contract states only the
/// form that `new_v4` (version and variant bits set) and `Display` (hyphenated,
/// lower case) give every outcome.
#[verifier::external_body]
fn generate_request_id() -> (id: String)
    ensures
        is_v4_uuid_text(id@),
{
    uuid::Uuid::new_v4().to_string()
}

/// `String::from_utf8_lossy` on ASCII bytes, which it reads as they are.
#[verifier::external_body]
fn ascii_to_string(bytes: &[u8]) -> (s: String)
    requires
        forall|i: int| 0 <= i < bytes@.len() ==> #[trigger] bytes@[i] < 128,
    ensures
        s@ == ascii_text(bytes@),
{
    String::from_utf8_lossy(bytes).into_owned()
}

/// The id a request carries in its request id header, if it carries a usable one.
pub fn header_request_id_text(raw: Option<&[u8]>) -> (r: Option<String>)
    ensures
        match header_request_id(option_bytes_view(raw)) {
            Some(t) => r matches Some(id) && id@ == ascii_text(t),
            None => r is None,
        },
        r matches Some(id) ==> is_request_id_text(id@),
{
    match raw {
        None => None,
        Some(bytes) => {
            if !is_visible_ascii_text(bytes) {
                return None;
            }
            let (s, e) = trim_range(bytes, 0, bytes.len(), Trimmed::Whitespace);
            proof {
                assert(bytes@.subrange(0, bytes@.len() as int) =~= bytes@);
            }
            if s == e {
                return None;
            }
            let slice = &bytes[s..e];
            proof {
                assert forall|i: int| 0 <= i < slice@.len() implies #[trigger] slice@[i] < 128 by {
                    assert(slice@[i] == bytes@[s + i]);
                    assert(is_visible_ascii(bytes@[s + i]));
                }
            }
            let id = ascii_to_string(slice);
            proof {
                let t = id@;
                assert forall|k: int| 0 <= k < t.len() implies is_visible_ascii_char(#[trigger] t[k]) by {
                    assert(slice@[k] == bytes@[s + k]);
                    assert(is_visible_ascii(bytes@[s + k]));
                }
                assert(slice@[0] == bytes@[s as int]);
                assert(slice@[slice@.len() - 1] == bytes@[e - 1]);
                assert(t.last() == t[t.len() - 1]);
            }
            Some(id)
        },
    }
}

/// The id a request is known by: the one it carries in its request id header
/// (`raw`, `None` when absent) when that is visible ASCII and not blank, trimmed;
/// else a new random version 4 UUID. Either way it is a valid header value that
/// can be echoed on the response.
pub fn extract_or_generate_request_id(raw: Option<&[u8]>) -> (id: String)
    ensures
        match header_request_id(option_bytes_view(raw)) {
            Some(t) => id@ == ascii_text(t),
            None => is_v4_uuid_text(id@),
        },
        is_request_id_text(id@),
{
    match header_request_id_text(raw) {
        Some(id) => id,
        None => {
            let id = generate_request_id();
            proof {
                let s = id@;
                assert forall|k: int| 0 <= k < s.len() implies is_visible_ascii_char(#[trigger] s[k]) by {
                    if !(k == 8 || k == 13 || k == 18 || k == 23) {
                        assert(is_lower_hex(s[k]));
                    }
                }
                assert(is_lower_hex(s[0]));
                assert(is_lower_hex(s[35]));
            }
            id
        },
    }
}

/// What the middleware records of one request.
pub struct RequestMetrics {
    /// Whether the request is counted and timed.
    pub record: bool,
    /// Whether it is counted as an error too.
    pub record_error: bool,
    /// The route label: the matched route, else the request path.
    pub route: String,
    /// The status class label.
    pub status_class: &'static str,
}

/// Whether a request is counted: metrics are on and it is not the metrics endpoint.
pub open spec fn records_request(config: ObservabilityConfigView, request_path: Seq<char>) -> bool {
    config.metrics_enabled && request_path != config.metrics_path
}

/// A client (`4xx`) or server (`5xx`) error status.
pub open spec fn is_error_status(status: u16) -> bool {
    400 <= status <= 599
}

/// Decides what the middleware records of a request that was answered with
/// `status`: it is counted, timed and, when the status is an error, counted as an
/// error, under the matched route (else its path) and the status class, unless
/// metrics are off or it asked for the metrics themselves.
pub fn plan_request_metrics(
    config: &ObservabilityConfig,
    matched_route: Option<String>,
    request_path: String,
    status: u16,
) -> (m: RequestMetrics)
    ensures
        m.record == records_request(config@, request_path@),
        m.record_error == (m.record && is_error_status(status)),
        m.record_error == (m.record && ((400 <= status && status <= 499) || (500 <= status
            && status <= 599))),
        m.record == (config.metrics_enabled && request_path@ != config.metrics_path@),
        m.route@ == (match matched_route {
            Some(r) => r@,
            None => request_path@,
        }),
        m.status_class@ == status_class_label(status),
{
    let record = config.metrics_enabled && !request_path.eq(&config.metrics_path);
    let record_error = record && 400 <= status && status <= 599;
    let route = match matched_route {
        Some(r) => r,
        None => request_path,
    };
    RequestMetrics { record, record_error, route, status_class: status_class(status) }
}

/// A status counts as an error exactly when it is a client error (`400..=499`)
/// or a server error (`500..=599`).
pub proof fn lemma_error_statuses(status: u16)
    ensures
        is_error_status(status) <==> ((400 <= status && status <= 499) || (500 <= status
            && status <= 599)),
        is_error_status(500),
        is_error_status(404),
        !is_error_status(399),
        !is_error_status(600),
{
}

/// A request id header value that is visible ASCII and not blank is kept, with
/// only its surrounding whitespace taken off, whatever its length; a value that is
/// not visible ASCII or is blank, or an absent header, gives no id.
pub proof fn lemma_header_request_id_kept(b: Seq<u8>)
    ensures
        (all_visible_ascii(b) && trim(Trimmed::Whitespace, b).len() > 0) ==> header_request_id(
            Some(b),
        ) == Some(trim(Trimmed::Whitespace, b)),
        !(all_visible_ascii(b) && trim(Trimmed::Whitespace, b).len() > 0) ==> header_request_id(
            Some(b),
        ) is None,
        header_request_id(None) is None,
{
}

/// A request id header value that is visible ASCII and does not start or end with
/// whitespace is kept as it is, whatever its length.
pub proof fn lemma_header_request_id_unchanged(b: Seq<u8>)
    requires
        b.len() > 0,
        all_visible_ascii(b),
        !is_ascii_whitespace_byte(b[0]),
        !is_ascii_whitespace_byte(b.last()),
    ensures
        header_request_id(Some(b)) == Some(b),
{
    lemma_trim_untouched(b, trimmed_bytes(Trimmed::Whitespace));
}

/// The request id is echoed under the header it was read from: a valid
/// configuration names the same header for both, the configured name trimmed and
/// in normal form, and keeps the metrics settings as they are.
pub proof fn lemma_response_header_is_request_header(settings: ObservabilitySettingsView)
    ensures
        config_from_settings(settings) matches Ok(c) ==> {
            &&& c.request_id_response_name == c.request_id_header_name
            &&& c.request_id_header_name == header_name_normal_form(
                trim_text(settings.request_id_header),
            )
            &&& c.metrics_enabled == settings.metrics_enabled
            &&& c.metrics_path == settings.metrics_path
        },
        config_from_settings(settings) is Ok <==> is_header_name(
            trim_text(settings.request_id_header),
        ),
{
}

/// The normal form of a header name is the name with each ASCII upper-case
/// letter replaced by its lower-case letter, and nothing else changed.
pub proof fn lemma_header_name_normal_form(s: Seq<char>)
    ensures
        header_name_normal_form(s).len() == s.len(),
        forall|i: int|
            0 <= i < s.len() ==> (#[trigger] header_name_normal_form(s)[i] as u32) == (if 0x41
                <= (s[i] as u32) <= 0x5a {
                (s[i] as u32) + 32
            } else {
                s[i] as int
            }),
{
}

} // verus!
