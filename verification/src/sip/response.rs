//! SIP response status codes.

use vstd::prelude::*;
use vstd::string::*;

verus! {

/// SIP status code. The named codes are given as numbers: `StatusCode(StatusCode::OK)`.
#[derive(Debug, Clone, Copy, PartialEq, Eq, Hash, Structural)]
pub struct StatusCode(pub u16);

/// The canonical reason phrase of a status code; `Unknown` for a code
/// without one.
pub open spec fn reason_of(code: u16) -> Seq<char> {
    if code == 100 {
        "Trying"@
    } else if code == 180 {
        "Ringing"@
    } else if code == 181 {
        "Call Is Being Forwarded"@
    } else if code == 182 {
        "Queued"@
    } else if code == 183 {
        "Session Progress"@
    } else if code == 200 {
        "OK"@
    } else if code == 202 {
        "Accepted"@
    } else if code == 300 {
        "Multiple Choices"@
    } else if code == 301 {
        "Moved Permanently"@
    } else if code == 302 {
        "Moved Temporarily"@
    } else if code == 305 {
        "Use Proxy"@
    } else if code == 380 {
        "Alternative Service"@
    } else if code == 400 {
        "Bad Request"@
    } else if code == 401 {
        "Unauthorized"@
    } else if code == 402 {
        "Payment Required"@
    } else if code == 403 {
        "Forbidden"@
    } else if code == 404 {
        "Not Found"@
    } else if code == 405 {
        "Method Not Allowed"@
    } else if code == 406 {
        "Not Acceptable"@
    } else if code == 407 {
        "Proxy Authentication Required"@
    } else if code == 408 {
        "Request Timeout"@
    } else if code == 410 {
        "Gone"@
    } else if code == 413 {
        "Request Entity Too Large"@
    } else if code == 414 {
        "Request-URI Too Long"@
    } else if code == 415 {
        "Unsupported Media Type"@
    } else if code == 416 {
        "Unsupported URI Scheme"@
    } else if code == 420 {
        "Bad Extension"@
    } else if code == 421 {
        "Extension Required"@
    } else if code == 423 {
        "Interval Too Brief"@
    } else if code == 480 {
        "Temporarily Unavailable"@
    } else if code == 481 {
        "Call/Transaction Does Not Exist"@
    } else if code == 482 {
        "Loop Detected"@
    } else if code == 483 {
        "Too Many Hops"@
    } else if code == 484 {
        "Address Incomplete"@
    } else if code == 485 {
        "Ambiguous"@
    } else if code == 486 {
        "Busy Here"@
    } else if code == 487 {
        "Request Terminated"@
    } else if code == 488 {
        "Not Acceptable Here"@
    } else if code == 491 {
        "Request Pending"@
    } else if code == 493 {
        "Undecipherable"@
    } else if code == 500 {
        "Server Internal Error"@
    } else if code == 501 {
        "Not Implemented"@
    } else if code == 502 {
        "Bad Gateway"@
    } else if code == 503 {
        "Service Unavailable"@
    } else if code == 504 {
        "Server Time-out"@
    } else if code == 505 {
        "Version Not Supported"@
    } else if code == 513 {
        "Message Too Large"@
    } else if code == 600 {
        "Busy Everywhere"@
    } else if code == 603 {
        "Decline"@
    } else if code == 604 {
        "Does Not Exist Anywhere"@
    } else if code == 606 {
        "Not Acceptable"@
    } else {
        "Unknown"@
    }
}

impl StatusCode {
    // 1xx - Provisional
    pub const TRYING: u16 = 100;

    pub const RINGING: u16 = 180;

    pub const CALL_BEING_FORWARDED: u16 = 181;

    pub const QUEUED: u16 = 182;

    pub const SESSION_PROGRESS: u16 = 183;

    // 2xx - Success
    pub const OK: u16 = 200;

    pub const ACCEPTED: u16 = 202;

    // 3xx - Redirection
    pub const MULTIPLE_CHOICES: u16 = 300;

    pub const MOVED_PERMANENTLY: u16 = 301;

    pub const MOVED_TEMPORARILY: u16 = 302;

    pub const USE_PROXY: u16 = 305;

    pub const ALTERNATIVE_SERVICE: u16 = 380;

    // 4xx - Client Error
    pub const BAD_REQUEST: u16 = 400;

    pub const UNAUTHORIZED: u16 = 401;

    pub const PAYMENT_REQUIRED: u16 = 402;

    pub const FORBIDDEN: u16 = 403;

    pub const NOT_FOUND: u16 = 404;

    pub const METHOD_NOT_ALLOWED: u16 = 405;

    pub const NOT_ACCEPTABLE: u16 = 406;

    pub const PROXY_AUTHENTICATION_REQUIRED: u16 = 407;

    pub const REQUEST_TIMEOUT: u16 = 408;

    pub const GONE: u16 = 410;

    pub const REQUEST_ENTITY_TOO_LARGE: u16 = 413;

    pub const REQUEST_URI_TOO_LONG: u16 = 414;

    pub const UNSUPPORTED_MEDIA_TYPE: u16 = 415;

    pub const UNSUPPORTED_URI_SCHEME: u16 = 416;

    pub const BAD_EXTENSION: u16 = 420;

    pub const EXTENSION_REQUIRED: u16 = 421;

    pub const INTERVAL_TOO_BRIEF: u16 = 423;

    pub const TEMPORARILY_UNAVAILABLE: u16 = 480;

    pub const CALL_DOES_NOT_EXIST: u16 = 481;

    pub const LOOP_DETECTED: u16 = 482;

    pub const TOO_MANY_HOPS: u16 = 483;

    pub const ADDRESS_INCOMPLETE: u16 = 484;

    pub const AMBIGUOUS: u16 = 485;

    pub const BUSY_HERE: u16 = 486;

    pub const REQUEST_TERMINATED: u16 = 487;

    pub const NOT_ACCEPTABLE_HERE: u16 = 488;

    pub const REQUEST_PENDING: u16 = 491;

    pub const UNDECIPHERABLE: u16 = 493;

    // 5xx - Server Error
    pub const SERVER_INTERNAL_ERROR: u16 = 500;

    pub const NOT_IMPLEMENTED: u16 = 501;

    pub const BAD_GATEWAY: u16 = 502;

    pub const SERVICE_UNAVAILABLE: u16 = 503;

    pub const SERVER_TIMEOUT: u16 = 504;

    pub const VERSION_NOT_SUPPORTED: u16 = 505;

    pub const MESSAGE_TOO_LARGE: u16 = 513;

    // 6xx - Global Failure
    pub const BUSY_EVERYWHERE: u16 = 600;

    pub const DECLINE: u16 = 603;

    pub const DOES_NOT_EXIST_ANYWHERE: u16 = 604;

    pub const NOT_ACCEPTABLE_GLOBAL: u16 = 606;

    /// The canonical reason phrase of this code.
    pub fn reason_phrase(&self) -> (s: &'static str)
        ensures
            s@ == reason_of(self.0),
    {
        let code = self.0;
        if code == 100 {
            "Trying"
        } else if code == 180 {
            "Ringing"
        } else if code == 181 {
            "Call Is Being Forwarded"
        } else if code == 182 {
            "Queued"
        } else if code == 183 {
            "Session Progress"
        } else if code == 200 {
            "OK"
        } else if code == 202 {
            "Accepted"
        } else if code == 300 {
            "Multiple Choices"
        } else if code == 301 {
            "Moved Permanently"
        } else if code == 302 {
            "Moved Temporarily"
        } else if code == 305 {
            "Use Proxy"
        } else if code == 380 {
            "Alternative Service"
        } else if code == 400 {
            "Bad Request"
        } else if code == 401 {
            "Unauthorized"
        } else if code == 402 {
            "Payment Required"
        } else if code == 403 {
            "Forbidden"
        } else if code == 404 {
            "Not Found"
        } else if code == 405 {
            "Method Not Allowed"
        } else if code == 406 {
            "Not Acceptable"
        } else if code == 407 {
            "Proxy Authentication Required"
        } else if code == 408 {
            "Request Timeout"
        } else if code == 410 {
            "Gone"
        } else if code == 413 {
            "Request Entity Too Large"
        } else if code == 414 {
            "Request-URI Too Long"
        } else if code == 415 {
            "Unsupported Media Type"
        } else if code == 416 {
            "Unsupported URI Scheme"
        } else if code == 420 {
            "Bad Extension"
        } else if code == 421 {
            "Extension Required"
        } else if code == 423 {
            "Interval Too Brief"
        } else if code == 480 {
            "Temporarily Unavailable"
        } else if code == 481 {
            "Call/Transaction Does Not Exist"
        } else if code == 482 {
            "Loop Detected"
        } else if code == 483 {
            "Too Many Hops"
        } else if code == 484 {
            "Address Incomplete"
        } else if code == 485 {
            "Ambiguous"
        } else if code == 486 {
            "Busy Here"
        } else if code == 487 {
            "Request Terminated"
        } else if code == 488 {
            "Not Acceptable Here"
        } else if code == 491 {
            "Request Pending"
        } else if code == 493 {
            "Undecipherable"
        } else if code == 500 {
            "Server Internal Error"
        } else if code == 501 {
            "Not Implemented"
        } else if code == 502 {
            "Bad Gateway"
        } else if code == 503 {
            "Service Unavailable"
        } else if code == 504 {
            "Server Time-out"
        } else if code == 505 {
            "Version Not Supported"
        } else if code == 513 {
            "Message Too Large"
        } else if code == 600 {
            "Busy Everywhere"
        } else if code == 603 {
            "Decline"
        } else if code == 604 {
            "Does Not Exist Anywhere"
        } else if code == 606 {
            "Not Acceptable"
        } else {
            "Unknown"
        }
    }

    /// 1xx.
    pub fn is_provisional(&self) -> (b: bool)
        ensures
            b == (100 <= self.0 < 200),
    {
        100 <= self.0 && self.0 < 200
    }

    /// 2xx.
    pub fn is_success(&self) -> (b: bool)
        ensures
            b == (200 <= self.0 < 300),
    {
        200 <= self.0 && self.0 < 300
    }

    /// 3xx.
    pub fn is_redirection(&self) -> (b: bool)
        ensures
            b == (300 <= self.0 < 400),
    {
        300 <= self.0 && self.0 < 400
    }

    /// 4xx.
    pub fn is_client_error(&self) -> (b: bool)
        ensures
            b == (400 <= self.0 < 500),
    {
        400 <= self.0 && self.0 < 500
    }

    /// 5xx.
    pub fn is_server_error(&self) -> (b: bool)
        ensures
            b == (500 <= self.0 < 600),
    {
        500 <= self.0 && self.0 < 600
    }

    /// 6xx.
    pub fn is_global_failure(&self) -> (b: bool)
        ensures
            b == (600 <= self.0 < 700),
    {
        600 <= self.0 && self.0 < 700
    }

    /// The code as a decimal numeral.
    pub fn to_string(&self) -> (s: String)
        ensures
            s@ == crate::numeral::decimal(self.0 as nat),
    {
        crate::numeral::decimal_string(self.0 as u64)
    }

    /// The status code with the given number.
    pub fn from(code: u16) -> (r: StatusCode)
        ensures
            r.0 == code,
    {
        StatusCode(code)
    }
}

} // verus!
