//! The crash report written when the application panics.
use vstd::prelude::*;

use crate::text::concat;

verus! {

/// The current time in `SystemTime`'s debug form. It depends on the clock,
/// so nothing is stated of it.
#[verifier::external_body]
fn now_text() -> (r: String) {
    format!("{:?}", std::time::SystemTime::now())
}

/// A crash report: version, operating system, time, then the panic message.
pub open spec fn report_text(info: Seq<char>, version: Seq<char>, os: Seq<char>, time: Seq<char>) -> Seq<char> {
    "reveal "@ + version + " panicked\nos: "@ + os + "\ntime: "@ + time + "\n\n"@ + info + "\n"@
}

/// The crash report for a panic at the given time.
pub fn format_report_at(info: &str, version: &str, os: &str, time: &str) -> (r: String)
    ensures
        r@ == report_text(info@, version@, os@, time@),
{
    let a = concat("reveal ", version);
    let b = concat(a.as_str(), " panicked\nos: ");
    let c = concat(b.as_str(), os);
    let d = concat(c.as_str(), "\ntime: ");
    let e = concat(d.as_str(), time);
    let f = concat(e.as_str(), "\n\n");
    let g = concat(f.as_str(), info);
    concat(g.as_str(), "\n")
}

/// The crash report for a panic now.
pub fn format_report(info: &str, version: &str, os: &str) -> (r: String)
    ensures
        exists|t: Seq<char>| r@ == report_text(info@, version@, os@, t),
{
    let t = now_text();
    format_report_at(info, version, os, t.as_str())
}

} // verus!
