//! A plain model of an HTTP response and the checks the update pipeline
//! makes on one. The network call itself happens outside the library; the
//! decision whether a response may be used, and the exact failure text when
//! it may not, are made here.

use vstd::prelude::*;
use crate::text::{spec_dec, u16_dec};
use vstd::string::StringExecFns;

verus! {

/// One completed HTTP exchange, reduced to the fields the pipeline reads.
pub struct HttpResponse {
    /// The URL the request was made to.
    pub url: String,
    /// Whether the status code was in the 2xx range.
    pub ok: bool,
    /// The numeric status code.
    pub status: u16,
    /// The reason phrase that came with the status code.
    pub status_text: String,
    /// The raw response body.
    pub bytes: Vec<u8>,
}

/// The failure text for a response that cannot be written to disk:
/// status code, reason phrase and URL.
pub open spec fn spec_status_line(status: nat, status_text: Seq<char>, url: Seq<char>) -> Seq<char> {
    spec_dec(status) + " "@ + status_text + " for "@ + url
}

/// The failure text for a response whose body is not valid text:
/// status code, reason phrase and URL around a fixed explanation.
pub open spec fn spec_text_error_line(
    status: nat,
    status_text: Seq<char>,
    url: Seq<char>,
) -> Seq<char> {
    spec_dec(status) + " "@ + status_text + ": failed to get valid utf8 text from response\n"@
        + url
}

/// Renders the failure text of [`spec_status_line`].
pub fn status_line(status: u16, status_text: &str, url: &str) -> (r: String)
    ensures
        r@ == spec_status_line(status as nat, status_text@, url@),
{
    let mut s = u16_dec(status);
    s.append(" ");
    s.append(status_text);
    s.append(" for ");
    s.append(url);
    s
}

/// Renders the failure text of [`spec_text_error_line`].
pub fn text_error_line(status: u16, status_text: &str, url: &str) -> (r: String)
    ensures
        r@ == spec_text_error_line(status as nat, status_text@, url@),
{
    let mut s = u16_dec(status);
    s.append(" ");
    s.append(status_text);
    s.append(": failed to get valid utf8 text from response\n");
    s.append(url);
    s
}

/// Decides whether a response body may be saved: a response is usable
/// exactly when its status was in the 2xx range; otherwise the failure
/// names the status, the reason phrase and the URL.
pub fn check_response(resp: &HttpResponse) -> (r: Result<(), String>)
    ensures
        r is Ok <==> resp.ok,
        r is Err ==> r->Err_0@ == spec_status_line(
            resp.status as nat,
            resp.status_text@,
            resp.url@,
        ),
{
    if resp.ok {
        Ok(())
    } else {
        Err(status_line(resp.status, resp.status_text.as_str(), resp.url.as_str()))
    }
}

} // verus!
