use vstd::prelude::*;
use crate::rewrite::rewrite_html;
use crate::rewrite::rewritten_doc;
use crate::text::chars_of;
use crate::text::contains_chars;
use crate::text::contains_seq;

verus! {

/// A correlated result produced by one of the two execution paths and
/// consumed exactly once by the result emitter.
pub struct ExecutionResult {
    pub callback_id: String,
    pub success: bool,
    pub payload: String,
}

/// Builds the failure result used when a command could not be spawned or a
/// fetch failed in transport: the error description becomes the payload.
pub fn failure_result(callback_id: String, message: String) -> (r: ExecutionResult)
    ensures
        r.callback_id@ == callback_id@,
        r.success == false,
        r.payload@ == message@,
{
    ExecutionResult { callback_id, success: false, payload: message }
}

/// The text that captured bytes decode to: a function of the bytes alone,
/// with invalid sequences replaced rather than surfaced.
pub uninterp spec fn lossy_utf8(b: Seq<u8>) -> Seq<char>;

/// Relies on String::from_utf8_lossy: decoding is a pure function of the
/// bytes; invalid sequences become replacement characters, valid ones are
/// kept, and nothing is truncated. In particular no bytes means no text,
/// and bytes that are all ASCII are valid and decode to those characters.
#[verifier::external_body]
fn utf8_lossy(bytes: &Vec<u8>) -> (r: String)
    ensures
        r@ == lossy_utf8(bytes@),
        bytes@.len() == 0 ==> r@.len() == 0,
        (forall|i: int| 0 <= i < bytes@.len() ==> bytes@[i] < 128) ==> r@ == bytes@.map_values(
            |b: u8| b as char,
        ),
{
    String::from_utf8_lossy(bytes.as_slice()).into_owned()
}

/// Classifies a completed command: exit status zero hands back the standard
/// output as the payload with `success` set, any other exit status hands
/// back the standard error with `success` clear; both lossily decoded,
/// never truncated.
pub fn command_result(callback_id: String, exit_ok: bool, stdout: Vec<u8>, stderr: Vec<u8>) -> (r:
    ExecutionResult)
    ensures
        r.callback_id@ == callback_id@,
        r.success == exit_ok,
        exit_ok ==> r.payload@ == lossy_utf8(stdout@),
        !exit_ok ==> r.payload@ == lossy_utf8(stderr@),
{
    if exit_ok {
        ExecutionResult { callback_id, success: true, payload: utf8_lossy(&stdout) }
    } else {
        ExecutionResult { callback_id, success: false, payload: utf8_lossy(&stderr) }
    }
}

/// A content type announces HTML when it mentions `text/html` anywhere.
pub open spec fn is_html_content_type(ct: Seq<char>) -> bool {
    contains_seq(ct, "text/html"@)
}

/// Decides `is_html_content_type` on a concrete header value.
pub fn content_type_is_html(content_type: &str) -> (b: bool)
    ensures
        b == is_html_content_type(content_type@),
{
    let ct = chars_of(content_type);
    let pat = chars_of("text/html");
    contains_chars(&ct, &pat)
}

/// Classifies a fetched response: an HTML body is lossily decoded and run
/// through the rewriter against the requested URL; any other body is handed
/// back as lossily decoded text, unmodified. Both succeed.
pub fn proxy_response_result(
    callback_id: String,
    url: &str,
    content_type: &str,
    body: Vec<u8>,
) -> (r: ExecutionResult)
    ensures
        r.callback_id@ == callback_id@,
        r.success == true,
        is_html_content_type(content_type@) ==> r.payload@ == rewritten_doc(
            lossy_utf8(body@),
            url@,
        ),
        !is_html_content_type(content_type@) ==> r.payload@ == lossy_utf8(body@),
{
    let text = utf8_lossy(&body);
    if content_type_is_html(content_type) {
        let rewritten = rewrite_html(url, text.as_str());
        ExecutionResult { callback_id, success: true, payload: rewritten }
    } else {
        ExecutionResult { callback_id, success: true, payload: text }
    }
}

} // verus!
