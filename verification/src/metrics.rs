//! Per-method request counters and their text exposition. The counters are
//! an explicitly constructed object handed to the components that count, so
//! no process-wide mutable global is needed; the shell shares one instance
//! across connections.

use crate::decimal::{dec_rep, u64_to_decimal};
use vstd::prelude::*;
use vstd::string::StringExecFns;

verus! {

/// The HTTP method a request is counted under. Methods outside the standard
/// set share the `Other` bucket.
#[derive(Clone, Copy, Debug, PartialEq, Eq, Structural)]
pub enum HttpMethod {
    Connect,
    Delete,
    Get,
    Head,
    Options,
    Patch,
    Post,
    Put,
    Trace,
    Other,
}

/// The label a method is counted under in the exposition.
pub open spec fn spec_label(m: HttpMethod) -> Seq<char> {
    match m {
        HttpMethod::Connect => "CONNECT"@,
        HttpMethod::Delete => "DELETE"@,
        HttpMethod::Get => "GET"@,
        HttpMethod::Head => "HEAD"@,
        HttpMethod::Options => "OPTIONS"@,
        HttpMethod::Patch => "PATCH"@,
        HttpMethod::Post => "POST"@,
        HttpMethod::Put => "PUT"@,
        HttpMethod::Trace => "TRACE"@,
        HttpMethod::Other => "OTHER"@,
    }
}

impl HttpMethod {
    /// The label this method is counted under.
    pub fn label(&self) -> (s: &'static str)
        ensures
            s@ == spec_label(*self),
    {
        match self {
            HttpMethod::Connect => "CONNECT",
            HttpMethod::Delete => "DELETE",
            HttpMethod::Get => "GET",
            HttpMethod::Head => "HEAD",
            HttpMethod::Options => "OPTIONS",
            HttpMethod::Patch => "PATCH",
            HttpMethod::Post => "POST",
            HttpMethod::Put => "PUT",
            HttpMethod::Trace => "TRACE",
            HttpMethod::Other => "OTHER",
        }
    }
}

/// How many echo requests each method has answered.
pub struct Metrics {
    pub connect: u64,
    pub delete: u64,
    pub get: u64,
    pub head: u64,
    pub options: u64,
    pub patch: u64,
    pub post: u64,
    pub put: u64,
    pub trace: u64,
    pub other: u64,
}

impl Metrics {
    /// The count recorded for one method.
    pub open spec fn spec_count(&self, m: HttpMethod) -> u64 {
        match m {
            HttpMethod::Connect => self.connect,
            HttpMethod::Delete => self.delete,
            HttpMethod::Get => self.get,
            HttpMethod::Head => self.head,
            HttpMethod::Options => self.options,
            HttpMethod::Patch => self.patch,
            HttpMethod::Post => self.post,
            HttpMethod::Put => self.put,
            HttpMethod::Trace => self.trace,
            HttpMethod::Other => self.other,
        }
    }

    /// Fresh counters, all zero.
    pub fn new() -> (r: Metrics)
        ensures
            forall|m: HttpMethod| r.spec_count(m) == 0,
    {
        Metrics {
            connect: 0,
            delete: 0,
            get: 0,
            head: 0,
            options: 0,
            patch: 0,
            post: 0,
            put: 0,
            trace: 0,
            other: 0,
        }
    }

    /// Counts one request under its method, touching no other counter; at
    /// the top of the range the count saturates rather than wraps.
    pub fn increment(&mut self, m: HttpMethod)
        ensures
            final(self).spec_count(m) == if old(self).spec_count(m) < u64::MAX {
                old(self).spec_count(m) + 1
            } else {
                old(self).spec_count(m) as int
            },
            forall|o: HttpMethod| o != m ==> final(self).spec_count(o) == old(self).spec_count(o),
    {
        match m {
            HttpMethod::Connect => {
                if self.connect < u64::MAX {
                    self.connect = self.connect + 1;
                }
            },
            HttpMethod::Delete => {
                if self.delete < u64::MAX {
                    self.delete = self.delete + 1;
                }
            },
            HttpMethod::Get => {
                if self.get < u64::MAX {
                    self.get = self.get + 1;
                }
            },
            HttpMethod::Head => {
                if self.head < u64::MAX {
                    self.head = self.head + 1;
                }
            },
            HttpMethod::Options => {
                if self.options < u64::MAX {
                    self.options = self.options + 1;
                }
            },
            HttpMethod::Patch => {
                if self.patch < u64::MAX {
                    self.patch = self.patch + 1;
                }
            },
            HttpMethod::Post => {
                if self.post < u64::MAX {
                    self.post = self.post + 1;
                }
            },
            HttpMethod::Put => {
                if self.put < u64::MAX {
                    self.put = self.put + 1;
                }
            },
            HttpMethod::Trace => {
                if self.trace < u64::MAX {
                    self.trace = self.trace + 1;
                }
            },
            HttpMethod::Other => {
                if self.other < u64::MAX {
                    self.other = self.other + 1;
                }
            },
        }
    }
}

/// One exposition line for a method that was seen; methods never seen get no
/// line at all.
pub open spec fn spec_method_line(label: Seq<char>, count: u64) -> Seq<char> {
    if count > 0 {
        "echo_total{method=\""@ + label + "\"} "@ + dec_rep(count as nat) + "\n"@
    } else {
        Seq::empty()
    }
}

/// The whole text exposition: the header comments, then one line per method
/// that was seen, in a fixed order.
pub open spec fn spec_collect(m: Metrics) -> Seq<char> {
    "# HELP echo_total echo count\n# TYPE echo_total counter\n"@ + spec_method_line(
        spec_label(HttpMethod::Connect),
        m.connect,
    ) + spec_method_line(spec_label(HttpMethod::Delete), m.delete) + spec_method_line(
        spec_label(HttpMethod::Get),
        m.get,
    ) + spec_method_line(spec_label(HttpMethod::Head), m.head) + spec_method_line(
        spec_label(HttpMethod::Options),
        m.options,
    ) + spec_method_line(spec_label(HttpMethod::Patch), m.patch) + spec_method_line(
        spec_label(HttpMethod::Post),
        m.post,
    ) + spec_method_line(spec_label(HttpMethod::Put), m.put) + spec_method_line(
        spec_label(HttpMethod::Trace),
        m.trace,
    ) + spec_method_line(spec_label(HttpMethod::Other), m.other)
}

/// Appends the exposition line of one method, or nothing when its count is
/// still zero.
fn append_method_line(s: &mut String, label: &str, count: u64)
    ensures
        final(s)@ == old(s)@ + spec_method_line(label@, count),
{
    if count > 0 {
        s.append("echo_total{method=\"");
        s.append(label);
        s.append("\"} ");
        let count_text = u64_to_decimal(count);
        s.append(count_text.as_str());
        s.append("\n");
        proof {
            assert(s@ =~= old(s)@ + spec_method_line(label@, count));
        }
    } else {
        proof {
            assert(s@ =~= old(s)@ + spec_method_line(label@, count));
        }
    }
}

/// Renders the counters in the text exposition format served by the metrics
/// endpoint.
pub fn collect_metrics(m: &Metrics) -> (s: String)
    ensures
        s@ == spec_collect(*m),
{
    let mut s = String::from_str("# HELP echo_total echo count\n# TYPE echo_total counter\n");
    append_method_line(&mut s, HttpMethod::Connect.label(), m.connect);
    append_method_line(&mut s, HttpMethod::Delete.label(), m.delete);
    append_method_line(&mut s, HttpMethod::Get.label(), m.get);
    append_method_line(&mut s, HttpMethod::Head.label(), m.head);
    append_method_line(&mut s, HttpMethod::Options.label(), m.options);
    append_method_line(&mut s, HttpMethod::Patch.label(), m.patch);
    append_method_line(&mut s, HttpMethod::Post.label(), m.post);
    append_method_line(&mut s, HttpMethod::Put.label(), m.put);
    append_method_line(&mut s, HttpMethod::Trace.label(), m.trace);
    append_method_line(&mut s, HttpMethod::Other.label(), m.other);
    proof {
        assert(s@ =~= spec_collect(*m));
    }
    s
}

} // verus!
