//! The response and page data types of the service: the JSON envelope that
//! echoes a request back, and the data behind the index and expensive pages.

use vstd::prelude::*;
use vstd::string::StringExecFns;

verus! {

/// What `String::from_utf8_lossy` makes of a byte sequence: a function of
/// the bytes alone. An empty input gives an empty text.
pub uninterp spec fn lossy_text(bytes: Seq<u8>) -> Seq<char>;

/// Relies on String::from_utf8_lossy: the bytes as text, with invalid UTF-8
/// sequences replaced by U+FFFD, never dropped; the result depends on the
/// bytes alone, and the text is empty exactly when the input is.
#[verifier::external_body]
fn utf8_lossy(bytes: &Vec<u8>) -> (r: String)
    ensures
        r@ == lossy_text(bytes@),
        bytes@.len() == 0 ==> r@.len() == 0,
        bytes@.len() > 0 ==> r@.len() > 0,
{
    String::from_utf8_lossy(bytes).to_string()
}

/// The JSON envelope that echoes one request back to its sender: method,
/// headers, path, body text, and the server that answered.
pub struct EchoResponse {
    pub method: String,
    pub headers: Vec<(String, String)>,
    pub path: String,
    pub body: Option<String>,
    pub server: String,
}

impl EchoResponse {
    /// Assembles the echo envelope. The body is the request bytes read as
    /// text, and is present exactly when the request carried any bytes.
    pub fn new(
        method: String,
        headers: Vec<(String, String)>,
        path: String,
        bytes: Vec<u8>,
        server: String,
    ) -> (r: EchoResponse)
        ensures
            r.method == method,
            r.headers == headers,
            r.path == path,
            r.server == server,
            match r.body {
                Some(b) => b@ == lossy_text(bytes@) && bytes@.len() > 0,
                None => bytes@.len() == 0,
            },
    {
        let text = utf8_lossy(&bytes);
        let body = if text.as_str().is_empty() {
            None
        } else {
            Some(text)
        };
        EchoResponse { method, headers, path, body, server }
    }
}

/// The data behind the index page: the request headers and the server name.
pub struct IndexTemplate {
    pub headers: Vec<(String, String)>,
    pub server: String,
}

impl IndexTemplate {
    /// Collects what the index page shows.
    pub fn new(headers: Vec<(String, String)>, server: String) -> (r: IndexTemplate)
        ensures
            r.headers == headers,
            r.server == server,
    {
        IndexTemplate { headers, server }
    }
}

/// The data behind the expensive page: the parameters as submitted, and
/// either a computation result or a validation error message.
pub struct ExpensiveTemplate {
    pub server: String,
    pub prime_limit: Option<u32>,
    pub fib_length: Option<u32>,
    pub result: Option<String>,
    pub error: Option<String>,
}

impl ExpensiveTemplate {
    /// The blank form, before any computation was requested.
    pub fn new(server: String) -> (r: ExpensiveTemplate)
        ensures
            r.server == server,
            r.prime_limit is None,
            r.fib_length is None,
            r.result is None,
            r.error is None,
    {
        ExpensiveTemplate {
            server,
            prime_limit: None,
            fib_length: None,
            result: None,
            error: None,
        }
    }

    /// The page for a finished run: the accepted parameters and the summary.
    pub fn with_result(server: String, prime_limit: u32, fib_length: u32, result: String) -> (r:
        ExpensiveTemplate)
        ensures
            r.server == server,
            r.prime_limit == Some(prime_limit),
            r.fib_length == Some(fib_length),
            r.result == Some(result),
            r.error is None,
    {
        ExpensiveTemplate {
            server,
            prime_limit: Some(prime_limit),
            fib_length: Some(fib_length),
            result: Some(result),
            error: None,
        }
    }

    /// The page for a rejected request: whatever parameters were accepted so
    /// far, and the reason the request failed validation.
    pub fn with_error(
        server: String,
        prime_limit: Option<u32>,
        fib_length: Option<u32>,
        error: String,
    ) -> (r: ExpensiveTemplate)
        ensures
            r.server == server,
            r.prime_limit == prime_limit,
            r.fib_length == fib_length,
            r.result is None,
            r.error == Some(error),
    {
        ExpensiveTemplate {
            server,
            prime_limit,
            fib_length,
            result: None,
            error: Some(error),
        }
    }
}

} // verus!
