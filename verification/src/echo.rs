//! The echo core behind the HTTP surface: names the answering server, counts
//! the request under its method, and builds the envelope that echoes the
//! request back unchanged.

use crate::api::{lossy_text, EchoResponse};
use crate::metrics::{HttpMethod, Metrics};
use vstd::prelude::*;
use vstd::string::StringExecFns;

verus! {

#[verifier::external_type_specification]
#[verifier::external_body]
pub struct ExWhoamiError(whoami::Error);

/// Relies on whoami::hostname: reads this machine's hostname, which fails on
/// platforms that cannot provide one. The result depends on the machine, so
/// nothing further is promised of it.
#[verifier::external_body]
fn hostname() -> (r: Result<String, whoami::Error>) {
    whoami::hostname()
}

/// The server name attached to a response: the hostname as reported, or
/// "unknown" when the machine does not report one.
pub fn server_label(host: Result<String, whoami::Error>) -> (r: String)
    ensures
        match host {
            Ok(h) => r == h,
            Err(_) => r@ == "unknown"@,
        },
{
    match host {
        Ok(h) => h,
        Err(_) => String::from_str("unknown"),
    }
}

/// The server name for this process, read from the machine.
pub fn server_name() -> (r: String) {
    server_label(hostname())
}

/// Handles one echo request: counts it under its method and assembles the
/// envelope that echoes the request back — no transformation, no buffering.
pub fn response(
    metrics: &mut Metrics,
    method: HttpMethod,
    method_name: String,
    headers: Vec<(String, String)>,
    path: String,
    bytes: Vec<u8>,
    server: String,
) -> (r: EchoResponse)
    ensures
        final(metrics).spec_count(method) == if old(metrics).spec_count(method) < u64::MAX {
            old(metrics).spec_count(method) + 1
        } else {
            old(metrics).spec_count(method) as int
        },
        forall|o: HttpMethod|
            o != method ==> final(metrics).spec_count(o) == old(metrics).spec_count(o),
        r.method == method_name,
        r.headers == headers,
        r.path == path,
        r.server == server,
        match r.body {
            Some(b) => b@ == lossy_text(bytes@) && bytes@.len() > 0,
            None => bytes@.len() == 0,
        },
{
    metrics.increment(method);
    EchoResponse::new(method_name, headers, path, bytes, server)
}

} // verus!
