//! The service client: request construction and response interpretation.
//!
//! A client owns the connection configuration and turns every call into one
//! request target plus a deterministic reading of the response.  The network
//! round trip itself happens outside the library; the functions here build
//! the URL and query string for a call and map the returned status and body
//! into a result or a classified error.

use vstd::prelude::*;
use vstd::string::StringExecFns;
use crate::errors::{
    is_api_error, is_authentication_error, is_quota_error, is_rate_limit_error, QRNGError,
};
use crate::json::{
    obj_lookup, parse_json, push_str_chars, spec_parse_doc, string_from_chars, JsonData, JsonValue,
};
use crate::text::{dec_digits, push_dec_u32};
use crate::types::{
    decode_entropy_result, decode_health_status, decoded_entropy, decoded_health,
    entropy_shape_ok, health_shape_ok, EntropyResult, GenerateOptions, HealthStatus,
};

verus! {

/// The requested byte count, 32 when absent.
pub open spec fn bytes_or_default(options: GenerateOptions) -> u32 {
    match options.bytes {
        Some(b) => b,
        None => 32,
    }
}

/// The requested output format, `hex` when absent.
pub open spec fn format_or_default(options: GenerateOptions) -> Seq<char> {
    match options.format {
        Some(f) => f@,
        None => "hex"@,
    }
}

/// The `method` query parameter, empty when the option is absent.
pub open spec fn method_param(options: GenerateOptions) -> Seq<char> {
    match options.method {
        Some(m) => "&method="@ + m@,
        None => Seq::empty(),
    }
}

/// The `signatureType` query parameter, empty when the option is absent.
pub open spec fn signature_type_param(options: GenerateOptions) -> Seq<char> {
    match options.signature_type {
        Some(t) => "&signatureType="@ + t@,
        None => Seq::empty(),
    }
}

/// The query string of one generation request: `bytes` and `format` always,
/// in that order, then `method` and `signatureType` exactly when supplied.
pub open spec fn spec_query(options: GenerateOptions) -> Seq<char> {
    "bytes="@ + dec_digits(bytes_or_default(options) as nat) + "&format="@ + format_or_default(
        options,
    ) + method_param(options) + signature_type_param(options)
}

/// The query string always holds `bytes` and `format`, and holds the
/// `method` and `signatureType` parameters exactly when the corresponding
/// option is supplied.
pub proof fn lemma_query_params(options: GenerateOptions)
    ensures
        spec_query(options) == "bytes="@ + dec_digits(bytes_or_default(options) as nat)
            + "&format="@ + format_or_default(options) + method_param(options)
            + signature_type_param(options),
        options.method is None <==> method_param(options) == Seq::<char>::empty(),
        options.method matches Some(m) ==> method_param(options) == "&method="@ + m@,
        options.signature_type is None <==> signature_type_param(options) == Seq::<char>::empty(),
        options.signature_type matches Some(t) ==> signature_type_param(options)
            == "&signatureType="@ + t@,
{
    reveal_strlit("&method=");
    reveal_strlit("&signatureType=");
    assert("&method="@.len() == 8);
    assert("&signatureType="@.len() == 15);
}

/// Default options yield the default query string.
pub proof fn lemma_default_query()
    ensures
        spec_query(GenerateOptions { bytes: None, format: None, method: None, signature_type: None })
            == "bytes=32&format=hex"@,
{
    reveal_strlit("bytes=");
    reveal_strlit("&format=");
    reveal_strlit("hex");
    reveal_strlit("bytes=32&format=hex");
    assert(dec_digits(3nat) =~= seq!['3']);
    assert(dec_digits(32nat) =~= seq!['3', '2']);
    assert(spec_query(
        GenerateOptions { bytes: None, format: None, method: None, signature_type: None },
    ) =~= "bytes=32&format=hex"@);
}

/// Builds the query string for one generation request.
pub fn build_query(options: &GenerateOptions) -> (q: String)
    ensures
        q@ == spec_query(*options),
{
    let mut out: Vec<char> = Vec::new();
    push_str_chars("bytes=", &mut out);
    let b: u32 = match &options.bytes {
        Some(b) => *b,
        None => 32,
    };
    push_dec_u32(&mut out, b);
    push_str_chars("&format=", &mut out);
    match &options.format {
        Some(f) => push_str_chars(f.as_str(), &mut out),
        None => push_str_chars("hex", &mut out),
    }
    match &options.method {
        Some(m) => {
            push_str_chars("&method=", &mut out);
            push_str_chars(m.as_str(), &mut out);
        },
        None => {},
    }
    match &options.signature_type {
        Some(t) => {
            push_str_chars("&signatureType=", &mut out);
            push_str_chars(t.as_str(), &mut out);
        },
        None => {},
    }
    assert(out@ =~= spec_query(*options));
    string_from_chars(&out)
}

/// The message of an error body: the `error` field when the body is an
/// object binding `error` to a string, else the fallback.
pub open spec fn spec_api_message(body: Option<JsonData>) -> Seq<char> {
    match body {
        Some(JsonData::Obj(fs)) => match obj_lookup(fs, "error"@) {
            Some(JsonData::Str(s)) => s,
            _ => "Unknown error"@,
        },
        _ => "Unknown error"@,
    }
}

/// The model of an optionally borrowed JSON value.
pub open spec fn opt_view(body: Option<&JsonValue>) -> Option<JsonData> {
    match body {
        Some(v) => Some(v@),
        None => None,
    }
}

/// The best-effort message of an error body, as `spec_api_message` gives it.
pub fn api_error_message(body: Option<&JsonValue>) -> (m: String)
    ensures
        m@ == spec_api_message(opt_view(body)),
{
    match body {
        Some(JsonValue::Obj(fields)) => match crate::json::get_field(fields, "error") {
            Some(JsonValue::Str(s)) => s.clone(),
            _ => String::from_str("Unknown error"),
        },
        _ => String::from_str("Unknown error"),
    }
}

/// Classifies a non-success generation response: 401, 429 and 402 yield
/// their fixed errors whatever the body holds; any other status yields an
/// `Api` error carrying that status and the body's best-effort message.
pub fn classify_generate_error(status: u16, body: Option<&JsonValue>) -> (e: QRNGError)
    requires
        status != 200,
    ensures
        status == 401 ==> is_authentication_error(e),
        status == 429 ==> is_rate_limit_error(e),
        status == 402 ==> is_quota_error(e),
        !(status == 401 || status == 429 || status == 402) ==> is_api_error(
            e,
            spec_api_message(opt_view(body)),
            status,
        ),
{
    if status == 401 {
        QRNGError::Authentication(String::from_str("Invalid API key"))
    } else if status == 429 {
        QRNGError::RateLimit(String::from_str("Rate limit exceeded"))
    } else if status == 402 {
        QRNGError::QuotaExceeded(String::from_str("Monthly quota exceeded"))
    } else {
        QRNGError::Api { message: api_error_message(body), status }
    }
}

/// Interprets the response to a generation request.  Status 401, 429 and 402
/// yield their fixed errors whatever the body holds; status 200 decodes the
/// body as an entropy record or fails with a decode error; any other status
/// yields an `Api` error carrying that status and the body's best-effort
/// message.
pub fn interpret_generate_response(status: u16, body: &str) -> (r: Result<
    EntropyResult,
    QRNGError,
>)
    ensures
        status == 401 ==> (r matches Err(e) && is_authentication_error(e)),
        status == 429 ==> (r matches Err(e) && is_rate_limit_error(e)),
        status == 402 ==> (r matches Err(e) && is_quota_error(e)),
        status == 200 ==> match r {
            Ok(er) => (spec_parse_doc(body@) matches Some(d) && entropy_shape_ok(d) && er@
                == decoded_entropy(d)),
            Err(e) => e is Decode && (match spec_parse_doc(body@) {
                Some(d) => !entropy_shape_ok(d),
                None => true,
            }),
        },
        !(status == 401 || status == 429 || status == 402 || status == 200) ==> (r matches Err(e)
            && is_api_error(e, spec_api_message(spec_parse_doc(body@)), status)),
{
    if status == 200 {
        match parse_json(body) {
            None => Err(QRNGError::Decode(String::from_str("response body is not valid JSON"))),
            Some(v) => match decode_entropy_result(&v) {
                Ok(er) => {
                    proof {
                        assert(entropy_shape_ok(v@) && er@ == decoded_entropy(v@));
                    }
                    Ok(er)
                },
                Err(e) => Err(e),
            },
        }
    } else if status == 401 || status == 429 || status == 402 {
        Err(classify_generate_error(status, None))
    } else {
        let parsed = parse_json(body);
        Err(classify_generate_error(status, parsed.as_ref()))
    }
}

/// Interprets the response to a health request.  Any non-success status
/// yields an `Api` error with the fixed message and that status — never the
/// authentication, rate-limit or quota kinds; a success status decodes the
/// body as a health report or fails with a decode error.
pub fn interpret_health_response(status: u16, body: &str) -> (r: Result<HealthStatus, QRNGError>)
    ensures
        !(200 <= status < 300) ==> (r matches Err(e) && is_api_error(
            e,
            "Health check failed"@,
            status,
        )),
        200 <= status < 300 ==> match r {
            Ok(h) => (spec_parse_doc(body@) matches Some(d) && health_shape_ok(d) && h@
                == decoded_health(d)),
            Err(e) => e is Decode && (match spec_parse_doc(body@) {
                Some(d) => !health_shape_ok(d),
                None => true,
            }),
        },
{
    if !(status >= 200 && status < 300) {
        return Err(
            QRNGError::Api { message: String::from_str("Health check failed"), status },
        );
    }
    match parse_json(body) {
        None => Err(QRNGError::Decode(String::from_str("response body is not valid JSON"))),
        Some(v) => match decode_health_status(&v) {
            Ok(h) => {
                proof {
                    assert(health_shape_ok(v@) && h@ == decoded_health(v@));
                }
                Ok(h)
            },
            Err(e) => Err(e),
        },
    }
}

/// A client bound to one service address and credential.  It holds no
/// per-call state, so one instance serves any number of calls.
pub struct QRNGClient {
    api_key: String,
    base_url: String,
}

impl QRNGClient {
    /// The configured credential.
    pub closed spec fn api_key_view(&self) -> Seq<char> {
        self.api_key@
    }

    /// The configured base address.
    pub closed spec fn base_url_view(&self) -> Seq<char> {
        self.base_url@
    }

    /// A client bound to a caller-supplied base address.
    pub fn with_base_url(api_key: String, base_url: String) -> (r: Self)
        ensures
            r.api_key_view() == api_key@,
            r.base_url_view() == base_url@,
    {
        QRNGClient { api_key, base_url }
    }

    /// A client bound to the service's production address.
    pub fn new(api_key: String) -> (r: Self)
        ensures
            r.api_key_view() == api_key@,
            r.base_url_view() == "https://qrngapi.com"@,
    {
        Self::with_base_url(api_key, String::from_str("https://qrngapi.com"))
    }

    /// The credential to send in the `X-API-Key` request header.
    pub fn api_key(&self) -> (r: &str)
        ensures
            r@ == self.api_key_view(),
    {
        self.api_key.as_str()
    }

    /// The configured base address.
    pub fn base_url(&self) -> (r: &str)
        ensures
            r@ == self.base_url_view(),
    {
        self.base_url.as_str()
    }

    /// The full request target of a generation call with these options.
    pub fn generate_url(&self, options: &GenerateOptions) -> (r: String)
        ensures
            r@ == self.base_url_view() + "/api/random?"@ + spec_query(*options),
    {
        let q = build_query(options);
        let r = self.base_url.clone().concat("/api/random?").concat(q.as_str());
        assert(r@ =~= self.base_url_view() + "/api/random?"@ + spec_query(*options));
        r
    }

    /// The full request target of a health call.
    pub fn health_url(&self) -> (r: String)
        ensures
            r@ == self.base_url_view() + "/api/health"@,
    {
        self.base_url.clone().concat("/api/health")
    }
}

} // verus!
