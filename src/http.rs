use vstd::prelude::*;
use vstd::string::*;

use crate::error::Error;

verus! {

/// A request method.
#[derive(Debug, Clone, Copy, PartialEq, Eq, Structural)]
pub enum Method {
    Get,
    Head,
    Post,
    Put,
    Patch,
    Delete,
    Connect,
    Options,
    Trace,
}

impl Method {
    /// The method as it is written in a request line.
    pub open spec fn spec_name(&self) -> Seq<char> {
        match self {
            Method::Get => "GET"@,
            Method::Head => "HEAD"@,
            Method::Post => "POST"@,
            Method::Put => "PUT"@,
            Method::Patch => "PATCH"@,
            Method::Delete => "DELETE"@,
            Method::Connect => "CONNECT"@,
            Method::Options => "OPTIONS"@,
            Method::Trace => "TRACE"@,
        }
    }

    /// The method as it is written in a request line.
    pub fn to_string(&self) -> (r: String)
        ensures
            r@ == self.spec_name(),
    {
        match self {
            Method::Get => String::from_str("GET"),
            Method::Head => String::from_str("HEAD"),
            Method::Post => String::from_str("POST"),
            Method::Put => String::from_str("PUT"),
            Method::Patch => String::from_str("PATCH"),
            Method::Delete => String::from_str("DELETE"),
            Method::Connect => String::from_str("CONNECT"),
            Method::Options => String::from_str("OPTIONS"),
            Method::Trace => String::from_str("TRACE"),
        }
    }

    /// The method that `value` names, in upper case; any other text is an
    /// error.
    pub fn try_from(value: &str) -> (r: Result<Method, Error>)
        ensures
            r is Ok ==> r->Ok_0.spec_name() == value@,
            (r is Ok) == (value@ == "GET"@ || value@ == "HEAD"@ || value@ == "POST"@ || value@ == "PUT"@ || value@ == "PATCH"@ || value@ == "DELETE"@ || value@ == "CONNECT"@ || value@ == "OPTIONS"@ || value@ == "TRACE"@),
    {
        let v = value.to_owned();
        if v == String::from_str("GET") {
            Ok(Method::Get)
        } else if v == String::from_str("HEAD") {
            Ok(Method::Head)
        } else if v == String::from_str("POST") {
            Ok(Method::Post)
        } else if v == String::from_str("PUT") {
            Ok(Method::Put)
        } else if v == String::from_str("PATCH") {
            Ok(Method::Patch)
        } else if v == String::from_str("DELETE") {
            Ok(Method::Delete)
        } else if v == String::from_str("CONNECT") {
            Ok(Method::Connect)
        } else if v == String::from_str("OPTIONS") {
            Ok(Method::Options)
        } else if v == String::from_str("TRACE") {
            Ok(Method::Trace)
        } else {
            Err(Error::from_text(v.concat(" is not an http method")))
        }
    }
}

/// The type of a message body.
#[derive(Debug, Clone, Copy, PartialEq, Eq, Structural)]
pub enum ContentType {
    Json,
    PlainText,
    Html,
    Xml,
    FormUrlEncoded,
    Jpg,
    Png,
    OctetStream,
}

impl ContentType {
    /// The media type as it is written in a header.
    pub open spec fn spec_name(&self) -> Seq<char> {
        match self {
            ContentType::Json => "application/json"@,
            ContentType::PlainText => "text/plain; charset=utf-8"@,
            ContentType::Html => "text/html; charset=utf-8"@,
            ContentType::Xml => "text/xml"@,
            ContentType::FormUrlEncoded => "application/www-form-url-encoded"@,
            ContentType::Jpg => "image/jpeg"@,
            ContentType::Png => "image/png"@,
            ContentType::OctetStream => "application/octet-stream"@,
        }
    }

    /// The media type as it is written in a header.
    pub fn to_string(&self) -> (r: String)
        ensures
            r@ == self.spec_name(),
    {
        match self {
            ContentType::Json => String::from_str("application/json"),
            ContentType::PlainText => String::from_str("text/plain; charset=utf-8"),
            ContentType::Html => String::from_str("text/html; charset=utf-8"),
            ContentType::Xml => String::from_str("text/xml"),
            ContentType::FormUrlEncoded => String::from_str("application/www-form-url-encoded"),
            ContentType::Jpg => String::from_str("image/jpeg"),
            ContentType::Png => String::from_str("image/png"),
            ContentType::OctetStream => String::from_str("application/octet-stream"),
        }
    }
}

/// A response status.
#[derive(Debug, Clone, Copy, PartialEq, Eq, Structural)]
pub enum Status {
    Continue,
    SwitchingProtocols,
    Processing,
    EarlyHints,
    OK,
    Created,
    Accepted,
    NonAuthoritativeInformation,
    NoContent,
    ResetContent,
    PartialContent,
    MultiStatus,
    AlreadyReported,
    IMUsed,
    MultipleChoices,
    MovedPermanently,
    Found,
    SeeOther,
    NotModified,
    UseProxy,
    Unused,
    TemporaryRedirect,
    PermanentRedirect,
    BadRequest,
    Unauthorized,
    PaymentRequired,
    Forbidden,
    NotFound,
    MethodNotAllowed,
    NotAcceptable,
    ProxyAuthenticationRequired,
    RequestTimeout,
    Conflict,
    Gone,
    LengthRequired,
    PreconditionFailed,
    ContentTooLarge,
    URITooLong,
    UnsupportedMediaType,
    RangeNotSatisfiable,
    ExpectationFailed,
    Teapot,
    MisdirectedRequest,
    UnprocessableContent,
    Locked,
    FailedDependency,
    TooEarly,
    UpgradeRequired,
    PreconditionRequired,
    TooManyRequests,
    RequestHeaderFieldsTooLarge,
    UnavailableForLegalReasons,
    InternalServerError,
    NotImplemented,
    BadGateway,
    ServiceUnavailable,
    GatewayTimeout,
    HTTPVersionNotSupported,
    VariantAlsoNegotiates,
    InsufficientStorage,
    LoopDetected,
    NotExtended,
    NetworkAuthenticationRequired,
}

impl Status {
    /// The status code.
    pub open spec fn code(&self) -> u16 {
        match self {
            Status::Continue => 100,
            Status::SwitchingProtocols => 101,
            Status::Processing => 102,
            Status::EarlyHints => 103,
            Status::OK => 200,
            Status::Created => 201,
            Status::Accepted => 202,
            Status::NonAuthoritativeInformation => 203,
            Status::NoContent => 204,
            Status::ResetContent => 205,
            Status::PartialContent => 206,
            Status::MultiStatus => 207,
            Status::AlreadyReported => 208,
            Status::IMUsed => 226,
            Status::MultipleChoices => 300,
            Status::MovedPermanently => 301,
            Status::Found => 302,
            Status::SeeOther => 303,
            Status::NotModified => 304,
            Status::UseProxy => 305,
            Status::Unused => 306,
            Status::TemporaryRedirect => 307,
            Status::PermanentRedirect => 308,
            Status::BadRequest => 400,
            Status::Unauthorized => 401,
            Status::PaymentRequired => 402,
            Status::Forbidden => 403,
            Status::NotFound => 404,
            Status::MethodNotAllowed => 405,
            Status::NotAcceptable => 406,
            Status::ProxyAuthenticationRequired => 407,
            Status::RequestTimeout => 408,
            Status::Conflict => 409,
            Status::Gone => 410,
            Status::LengthRequired => 411,
            Status::PreconditionFailed => 412,
            Status::ContentTooLarge => 413,
            Status::URITooLong => 414,
            Status::UnsupportedMediaType => 415,
            Status::RangeNotSatisfiable => 416,
            Status::ExpectationFailed => 417,
            Status::Teapot => 418,
            Status::MisdirectedRequest => 421,
            Status::UnprocessableContent => 422,
            Status::Locked => 423,
            Status::FailedDependency => 424,
            Status::TooEarly => 425,
            Status::UpgradeRequired => 426,
            Status::PreconditionRequired => 428,
            Status::TooManyRequests => 429,
            Status::RequestHeaderFieldsTooLarge => 431,
            Status::UnavailableForLegalReasons => 451,
            Status::InternalServerError => 500,
            Status::NotImplemented => 501,
            Status::BadGateway => 502,
            Status::ServiceUnavailable => 503,
            Status::GatewayTimeout => 504,
            Status::HTTPVersionNotSupported => 505,
            Status::VariantAlsoNegotiates => 506,
            Status::InsufficientStorage => 507,
            Status::LoopDetected => 508,
            Status::NotExtended => 510,
            Status::NetworkAuthenticationRequired => 511,
        }
    }

    /// The status that has the code `value`, if one has.
    pub open spec fn of_code(value: u16) -> Option<Status> {
        if value == 100 {
            Some(Status::Continue)
        } else if value == 101 {
            Some(Status::SwitchingProtocols)
        } else if value == 102 {
            Some(Status::Processing)
        } else if value == 103 {
            Some(Status::EarlyHints)
        } else if value == 200 {
            Some(Status::OK)
        } else if value == 201 {
            Some(Status::Created)
        } else if value == 202 {
            Some(Status::Accepted)
        } else if value == 203 {
            Some(Status::NonAuthoritativeInformation)
        } else if value == 204 {
            Some(Status::NoContent)
        } else if value == 205 {
            Some(Status::ResetContent)
        } else if value == 206 {
            Some(Status::PartialContent)
        } else if value == 207 {
            Some(Status::MultiStatus)
        } else if value == 208 {
            Some(Status::AlreadyReported)
        } else if value == 226 {
            Some(Status::IMUsed)
        } else if value == 300 {
            Some(Status::MultipleChoices)
        } else if value == 301 {
            Some(Status::MovedPermanently)
        } else if value == 302 {
            Some(Status::Found)
        } else if value == 303 {
            Some(Status::SeeOther)
        } else if value == 304 {
            Some(Status::NotModified)
        } else if value == 305 {
            Some(Status::UseProxy)
        } else if value == 306 {
            Some(Status::Unused)
        } else if value == 307 {
            Some(Status::TemporaryRedirect)
        } else if value == 308 {
            Some(Status::PermanentRedirect)
        } else if value == 400 {
            Some(Status::BadRequest)
        } else if value == 401 {
            Some(Status::Unauthorized)
        } else if value == 402 {
            Some(Status::PaymentRequired)
        } else if value == 403 {
            Some(Status::Forbidden)
        } else if value == 404 {
            Some(Status::NotFound)
        } else if value == 405 {
            Some(Status::MethodNotAllowed)
        } else if value == 406 {
            Some(Status::NotAcceptable)
        } else if value == 407 {
            Some(Status::ProxyAuthenticationRequired)
        } else if value == 408 {
            Some(Status::RequestTimeout)
        } else if value == 409 {
            Some(Status::Conflict)
        } else if value == 410 {
            Some(Status::Gone)
        } else if value == 411 {
            Some(Status::LengthRequired)
        } else if value == 412 {
            Some(Status::PreconditionFailed)
        } else if value == 413 {
            Some(Status::ContentTooLarge)
        } else if value == 414 {
            Some(Status::URITooLong)
        } else if value == 415 {
            Some(Status::UnsupportedMediaType)
        } else if value == 416 {
            Some(Status::RangeNotSatisfiable)
        } else if value == 417 {
            Some(Status::ExpectationFailed)
        } else if value == 418 {
            Some(Status::Teapot)
        } else if value == 421 {
            Some(Status::MisdirectedRequest)
        } else if value == 422 {
            Some(Status::UnprocessableContent)
        } else if value == 423 {
            Some(Status::Locked)
        } else if value == 424 {
            Some(Status::FailedDependency)
        } else if value == 425 {
            Some(Status::TooEarly)
        } else if value == 426 {
            Some(Status::UpgradeRequired)
        } else if value == 428 {
            Some(Status::PreconditionRequired)
        } else if value == 429 {
            Some(Status::TooManyRequests)
        } else if value == 431 {
            Some(Status::RequestHeaderFieldsTooLarge)
        } else if value == 451 {
            Some(Status::UnavailableForLegalReasons)
        } else if value == 500 {
            Some(Status::InternalServerError)
        } else if value == 501 {
            Some(Status::NotImplemented)
        } else if value == 502 {
            Some(Status::BadGateway)
        } else if value == 503 {
            Some(Status::ServiceUnavailable)
        } else if value == 504 {
            Some(Status::GatewayTimeout)
        } else if value == 505 {
            Some(Status::HTTPVersionNotSupported)
        } else if value == 506 {
            Some(Status::VariantAlsoNegotiates)
        } else if value == 507 {
            Some(Status::InsufficientStorage)
        } else if value == 508 {
            Some(Status::LoopDetected)
        } else if value == 510 {
            Some(Status::NotExtended)
        } else if value == 511 {
            Some(Status::NetworkAuthenticationRequired)
        } else {
            None
        }
    }

    /// The reason phrase of the status.
    pub open spec fn spec_reason(&self) -> Seq<char> {
        match self {
            Status::Continue => "Continue"@,
            Status::SwitchingProtocols => "Switching Protocols"@,
            Status::Processing => "Processing"@,
            Status::EarlyHints => "Early Hints"@,
            Status::OK => "OK"@,
            Status::Created => "Created"@,
            Status::Accepted => "Accepted"@,
            Status::NonAuthoritativeInformation => "Non-Authoritative Information"@,
            Status::NoContent => "No Content"@,
            Status::ResetContent => "Reset Content"@,
            Status::PartialContent => "Partial Content"@,
            Status::MultiStatus => "Multi-Status"@,
            Status::AlreadyReported => "Already Reported"@,
            Status::IMUsed => "IM Used"@,
            Status::MultipleChoices => "Multiple Choices"@,
            Status::MovedPermanently => "Moved Permanently"@,
            Status::Found => "Found"@,
            Status::SeeOther => "See Other"@,
            Status::NotModified => "Not Modified"@,
            Status::UseProxy => "Use Proxy"@,
            Status::Unused => "Unused"@,
            Status::TemporaryRedirect => "Temporary Redirect"@,
            Status::PermanentRedirect => "Permanent Redirect"@,
            Status::BadRequest => "Bad Request"@,
            Status::Unauthorized => "Unauthorized"@,
            Status::PaymentRequired => "Payment Required"@,
            Status::Forbidden => "Forbidden"@,
            Status::NotFound => "Not Found"@,
            Status::MethodNotAllowed => "Method Not Allowed"@,
            Status::NotAcceptable => "Not Acceptable"@,
            Status::ProxyAuthenticationRequired => "Proxy Authentication Required"@,
            Status::RequestTimeout => "Request Timeout"@,
            Status::Conflict => "Conflict"@,
            Status::Gone => "Gone"@,
            Status::LengthRequired => "Length Required"@,
            Status::PreconditionFailed => "Precondition Failed"@,
            Status::ContentTooLarge => "Content Too Large"@,
            Status::URITooLong => "URI Too Long"@,
            Status::UnsupportedMediaType => "Unsupported Media Type"@,
            Status::RangeNotSatisfiable => "Range Not Satisfiable"@,
            Status::ExpectationFailed => "Expectation Failed"@,
            Status::Teapot => "I'm a teapot"@,
            Status::MisdirectedRequest => "Misdirected Request"@,
            Status::UnprocessableContent => "Unprocessable Content"@,
            Status::Locked => "Locked"@,
            Status::FailedDependency => "Failed Dependency"@,
            Status::TooEarly => "Too Early"@,
            Status::UpgradeRequired => "Upgrade Required"@,
            Status::PreconditionRequired => "Precondition Required"@,
            Status::TooManyRequests => "Too Many Requests"@,
            Status::RequestHeaderFieldsTooLarge => "Request Header Fields Too Large"@,
            Status::UnavailableForLegalReasons => "Unavailable For Legal Reasons"@,
            Status::InternalServerError => "Internal Server Error"@,
            Status::NotImplemented => "Not Implemented"@,
            Status::BadGateway => "Bad Gateway"@,
            Status::ServiceUnavailable => "Service Unavailable"@,
            Status::GatewayTimeout => "Gateway Timeout"@,
            Status::HTTPVersionNotSupported => "HTTP Version Not Supported"@,
            Status::VariantAlsoNegotiates => "Variant Also Negotiates"@,
            Status::InsufficientStorage => "Insufficient Storage"@,
            Status::LoopDetected => "Loop Detected"@,
            Status::NotExtended => "Not Extended"@,
            Status::NetworkAuthenticationRequired => "Network Authentication Required"@,
        }
    }

    pub fn as_u16(self) -> (r: u16)
        ensures
            r == self.code(),
    {
        match self {
            Status::Continue => 100,
            Status::SwitchingProtocols => 101,
            Status::Processing => 102,
            Status::EarlyHints => 103,
            Status::OK => 200,
            Status::Created => 201,
            Status::Accepted => 202,
            Status::NonAuthoritativeInformation => 203,
            Status::NoContent => 204,
            Status::ResetContent => 205,
            Status::PartialContent => 206,
            Status::MultiStatus => 207,
            Status::AlreadyReported => 208,
            Status::IMUsed => 226,
            Status::MultipleChoices => 300,
            Status::MovedPermanently => 301,
            Status::Found => 302,
            Status::SeeOther => 303,
            Status::NotModified => 304,
            Status::UseProxy => 305,
            Status::Unused => 306,
            Status::TemporaryRedirect => 307,
            Status::PermanentRedirect => 308,
            Status::BadRequest => 400,
            Status::Unauthorized => 401,
            Status::PaymentRequired => 402,
            Status::Forbidden => 403,
            Status::NotFound => 404,
            Status::MethodNotAllowed => 405,
            Status::NotAcceptable => 406,
            Status::ProxyAuthenticationRequired => 407,
            Status::RequestTimeout => 408,
            Status::Conflict => 409,
            Status::Gone => 410,
            Status::LengthRequired => 411,
            Status::PreconditionFailed => 412,
            Status::ContentTooLarge => 413,
            Status::URITooLong => 414,
            Status::UnsupportedMediaType => 415,
            Status::RangeNotSatisfiable => 416,
            Status::ExpectationFailed => 417,
            Status::Teapot => 418,
            Status::MisdirectedRequest => 421,
            Status::UnprocessableContent => 422,
            Status::Locked => 423,
            Status::FailedDependency => 424,
            Status::TooEarly => 425,
            Status::UpgradeRequired => 426,
            Status::PreconditionRequired => 428,
            Status::TooManyRequests => 429,
            Status::RequestHeaderFieldsTooLarge => 431,
            Status::UnavailableForLegalReasons => 451,
            Status::InternalServerError => 500,
            Status::NotImplemented => 501,
            Status::BadGateway => 502,
            Status::ServiceUnavailable => 503,
            Status::GatewayTimeout => 504,
            Status::HTTPVersionNotSupported => 505,
            Status::VariantAlsoNegotiates => 506,
            Status::InsufficientStorage => 507,
            Status::LoopDetected => 508,
            Status::NotExtended => 510,
            Status::NetworkAuthenticationRequired => 511,
        }
    }

    /// The reason phrase of the status.
    pub fn reason(self) -> (r: &'static str)
        ensures
            r@ == self.spec_reason(),
    {
        match self {
            Status::Continue => "Continue",
            Status::SwitchingProtocols => "Switching Protocols",
            Status::Processing => "Processing",
            Status::EarlyHints => "Early Hints",
            Status::OK => "OK",
            Status::Created => "Created",
            Status::Accepted => "Accepted",
            Status::NonAuthoritativeInformation => "Non-Authoritative Information",
            Status::NoContent => "No Content",
            Status::ResetContent => "Reset Content",
            Status::PartialContent => "Partial Content",
            Status::MultiStatus => "Multi-Status",
            Status::AlreadyReported => "Already Reported",
            Status::IMUsed => "IM Used",
            Status::MultipleChoices => "Multiple Choices",
            Status::MovedPermanently => "Moved Permanently",
            Status::Found => "Found",
            Status::SeeOther => "See Other",
            Status::NotModified => "Not Modified",
            Status::UseProxy => "Use Proxy",
            Status::Unused => "Unused",
            Status::TemporaryRedirect => "Temporary Redirect",
            Status::PermanentRedirect => "Permanent Redirect",
            Status::BadRequest => "Bad Request",
            Status::Unauthorized => "Unauthorized",
            Status::PaymentRequired => "Payment Required",
            Status::Forbidden => "Forbidden",
            Status::NotFound => "Not Found",
            Status::MethodNotAllowed => "Method Not Allowed",
            Status::NotAcceptable => "Not Acceptable",
            Status::ProxyAuthenticationRequired => "Proxy Authentication Required",
            Status::RequestTimeout => "Request Timeout",
            Status::Conflict => "Conflict",
            Status::Gone => "Gone",
            Status::LengthRequired => "Length Required",
            Status::PreconditionFailed => "Precondition Failed",
            Status::ContentTooLarge => "Content Too Large",
            Status::URITooLong => "URI Too Long",
            Status::UnsupportedMediaType => "Unsupported Media Type",
            Status::RangeNotSatisfiable => "Range Not Satisfiable",
            Status::ExpectationFailed => "Expectation Failed",
            Status::Teapot => "I'm a teapot",
            Status::MisdirectedRequest => "Misdirected Request",
            Status::UnprocessableContent => "Unprocessable Content",
            Status::Locked => "Locked",
            Status::FailedDependency => "Failed Dependency",
            Status::TooEarly => "Too Early",
            Status::UpgradeRequired => "Upgrade Required",
            Status::PreconditionRequired => "Precondition Required",
            Status::TooManyRequests => "Too Many Requests",
            Status::RequestHeaderFieldsTooLarge => "Request Header Fields Too Large",
            Status::UnavailableForLegalReasons => "Unavailable For Legal Reasons",
            Status::InternalServerError => "Internal Server Error",
            Status::NotImplemented => "Not Implemented",
            Status::BadGateway => "Bad Gateway",
            Status::ServiceUnavailable => "Service Unavailable",
            Status::GatewayTimeout => "Gateway Timeout",
            Status::HTTPVersionNotSupported => "HTTP Version Not Supported",
            Status::VariantAlsoNegotiates => "Variant Also Negotiates",
            Status::InsufficientStorage => "Insufficient Storage",
            Status::LoopDetected => "Loop Detected",
            Status::NotExtended => "Not Extended",
            Status::NetworkAuthenticationRequired => "Network Authentication Required",
        }
    }

    /// The reason phrase of the status.
    pub fn to_string(&self) -> (r: String)
        ensures
            r@ == self.spec_reason(),
    {
        self.reason().to_owned()
    }

    /// The status that has the code `value`; an error for a code that no
    /// status has.
    pub fn try_from(value: u16) -> (r: Result<Status, Error>)
        ensures
            (r is Ok) == (Self::of_code(value) is Some),
            r is Ok ==> Some(r->Ok_0) == Self::of_code(value) && r->Ok_0.code() == value,
    {
        match value {
            100 => Ok(Status::Continue),
            101 => Ok(Status::SwitchingProtocols),
            102 => Ok(Status::Processing),
            103 => Ok(Status::EarlyHints),
            200 => Ok(Status::OK),
            201 => Ok(Status::Created),
            202 => Ok(Status::Accepted),
            203 => Ok(Status::NonAuthoritativeInformation),
            204 => Ok(Status::NoContent),
            205 => Ok(Status::ResetContent),
            206 => Ok(Status::PartialContent),
            207 => Ok(Status::MultiStatus),
            208 => Ok(Status::AlreadyReported),
            226 => Ok(Status::IMUsed),
            300 => Ok(Status::MultipleChoices),
            301 => Ok(Status::MovedPermanently),
            302 => Ok(Status::Found),
            303 => Ok(Status::SeeOther),
            304 => Ok(Status::NotModified),
            305 => Ok(Status::UseProxy),
            306 => Ok(Status::Unused),
            307 => Ok(Status::TemporaryRedirect),
            308 => Ok(Status::PermanentRedirect),
            400 => Ok(Status::BadRequest),
            401 => Ok(Status::Unauthorized),
            402 => Ok(Status::PaymentRequired),
            403 => Ok(Status::Forbidden),
            404 => Ok(Status::NotFound),
            405 => Ok(Status::MethodNotAllowed),
            406 => Ok(Status::NotAcceptable),
            407 => Ok(Status::ProxyAuthenticationRequired),
            408 => Ok(Status::RequestTimeout),
            409 => Ok(Status::Conflict),
            410 => Ok(Status::Gone),
            411 => Ok(Status::LengthRequired),
            412 => Ok(Status::PreconditionFailed),
            413 => Ok(Status::ContentTooLarge),
            414 => Ok(Status::URITooLong),
            415 => Ok(Status::UnsupportedMediaType),
            416 => Ok(Status::RangeNotSatisfiable),
            417 => Ok(Status::ExpectationFailed),
            418 => Ok(Status::Teapot),
            421 => Ok(Status::MisdirectedRequest),
            422 => Ok(Status::UnprocessableContent),
            423 => Ok(Status::Locked),
            424 => Ok(Status::FailedDependency),
            425 => Ok(Status::TooEarly),
            426 => Ok(Status::UpgradeRequired),
            428 => Ok(Status::PreconditionRequired),
            429 => Ok(Status::TooManyRequests),
            431 => Ok(Status::RequestHeaderFieldsTooLarge),
            451 => Ok(Status::UnavailableForLegalReasons),
            500 => Ok(Status::InternalServerError),
            501 => Ok(Status::NotImplemented),
            502 => Ok(Status::BadGateway),
            503 => Ok(Status::ServiceUnavailable),
            504 => Ok(Status::GatewayTimeout),
            505 => Ok(Status::HTTPVersionNotSupported),
            506 => Ok(Status::VariantAlsoNegotiates),
            507 => Ok(Status::InsufficientStorage),
            508 => Ok(Status::LoopDetected),
            510 => Ok(Status::NotExtended),
            511 => Ok(Status::NetworkAuthenticationRequired),
            _ => Err(Error::from_text(String::from_str("status code is out of range"))),
        }
    }
}

/// The code of every status leads back to it.
pub proof fn lemma_status_code_round_trip(s: Status)
    ensures
        Status::of_code(s.code()) == Some(s),
{
}

/// A header value.
#[derive(Debug, Clone)]
pub enum Header {
    Raw(String),
}

impl Header {
    pub open spec fn spec_text(&self) -> Seq<char> {
        match self {
            Header::Raw(v) => v@,
        }
    }

    pub fn from(value: &str) -> (r: Header)
        ensures
            r.spec_text() == value@,
    {
        Header::Raw(value.to_owned())
    }

    /// The value as it is written in a message.
    pub fn to_string(&self) -> (r: String)
        ensures
            r@ == self.spec_text(),
    {
        match self {
            Header::Raw(v) => v.clone(),
        }
    }
}

} // verus!
