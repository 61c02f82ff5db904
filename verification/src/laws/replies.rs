//! Replies: which of them bring a resource, and what the others mean.
use vstd::prelude::*;
use vstd::std_specs::cmp::PartialEqSpec;

use crate::client::{body_meaning, reply_meaning, response_meaning, ReplyView};
use crate::error::{ErrorView, PactBrokerError};
use crate::json::{parsed_json, JsonView};
use crate::response::{
    lemma_before_semicolon, media_type, status_text, without_trailing_blanks, ResponseView,
};
use crate::text::debug_text;

verus! {

/// A visible ASCII character, a space or a tab.
pub open spec fn is_readable(b: u8) -> bool {
    b == 9 || (32 <= b && b <= 126)
}

/// The header value is readable, and `text` is what it reads.
pub open spec fn reads(value: Option<Seq<u8>>, text: Seq<char>) -> bool {
    value matches Some(bytes) && text.len() == bytes.len() && forall|i: int|
        0 <= i < bytes.len() ==> is_readable(#[trigger] bytes[i]) && text[i] == bytes[i] as char
}

/// The header value is missing, or there is something in it that is not readable.
pub open spec fn reads_nothing(value: Option<Seq<u8>>) -> bool {
    value matches Some(bytes) ==> exists|i: int|
        0 <= i < bytes.len() && !is_readable(#[trigger] bytes[i])
}

/// Spaces and tabs, and nothing else.
pub open spec fn is_blanks(text: Seq<char>) -> bool {
    forall|i: int| 0 <= i < text.len() ==> (#[trigger] text[i]) == ' ' || text[i] == '\t'
}

/// The text ends in a space or a tab.
pub open spec fn ends_in_blank(text: Seq<char>) -> bool {
    text.len() > 0 && (text[text.len() - 1] == ' ' || text[text.len() - 1] == '\t')
}

/// No character of the text is a semicolon.
pub open spec fn has_no_semicolon(text: Seq<char>) -> bool {
    forall|i: int| 0 <= i < text.len() ==> (#[trigger] text[i]) != ';'
}

/// The content type is what the header reads; where it reads nothing, plain text.
pub proof fn law_content_type_is_what_the_header_reads(response: ResponseView, text: Seq<char>)
    ensures
        reads(response.content_type, text) ==> response.content_type_text() == text,
        reads_nothing(response.content_type) ==> response.content_type_text() == "text/plain"@
            && !response.is_json(),
{
    if reads(response.content_type, text) {
        let bytes = response.content_type->0;
        assert(text =~= bytes.map_values(|b: u8| b as char));
    }
}

proof fn lemma_blanks_go(media: Seq<char>, blanks: Seq<char>)
    requires
        !ends_in_blank(media),
        is_blanks(blanks),
    ensures
        without_trailing_blanks(media + blanks) == media,
    decreases blanks.len(),
{
    if blanks.len() == 0 {
        assert(media + blanks =~= media);
    } else {
        assert((media + blanks).last() == blanks.last());
        assert((media + blanks).drop_last() =~= media + blanks.drop_last());
        lemma_blanks_go(media, blanks.drop_last());
    }
}

/// The media type of a content type is what stands before its first semicolon
/// and the blanks there; without a semicolon it is the whole content type.
pub proof fn law_media_type_stands_before_the_parameters(
    media: Seq<char>,
    blanks: Seq<char>,
    parameters: Seq<char>,
)
    requires
        has_no_semicolon(media),
    ensures
        media_type(media) == media,
        !ends_in_blank(media) && is_blanks(blanks) ==> media_type(
            media + blanks + ";"@ + parameters,
        ) == media,
{
    assert(!media.contains(';'));
    if !ends_in_blank(media) && is_blanks(blanks) {
        let start = media + blanks;
        let text = start + ";"@ + parameters;
        reveal_strlit(";");
        assert(text[start.len() as int] == ';');
        assert(!start.contains(';')) by {
            assert forall|i: int| 0 <= i < start.len() implies start[i] != ';' by {
                if i >= media.len() {
                    assert(start[i] == blanks[i - media.len()]);
                }
            }
        }
        lemma_before_semicolon(start, parameters);
        lemma_blanks_go(media, blanks);
    }
}

/// A response is JSON exactly if its media type is that of JSON or of HAL in
/// JSON, whatever parameters follow.
pub proof fn law_json_is_told_by_the_media_type(
    response: ResponseView,
    media: Seq<char>,
    blanks: Seq<char>,
    parameters: Seq<char>,
)
    requires
        has_no_semicolon(media),
        reads(response.content_type, media) || (!ends_in_blank(media) && is_blanks(blanks) && reads(
            response.content_type,
            media + blanks + ";"@ + parameters,
        )),
    ensures
        response.is_json() <==> media == "application/json"@ || media == "application/hal+json"@,
{
    let bytes = response.content_type->0;
    let read = bytes.map_values(|b: u8| b as char);
    if reads(response.content_type, media) {
        assert(media =~= read);
    } else {
        assert(media + blanks + ";"@ + parameters =~= read);
    }
    law_media_type_stands_before_the_parameters(media, blanks, parameters);
}

/// A success with a JSON content type brings the very resource that its body
/// holds, all of it.
pub proof fn law_body_is_the_resource(
    url: Seq<char>,
    path: Seq<char>,
    response: ResponseView,
    body: Seq<u8>,
    json: JsonView,
)
    requires
        200 <= response.status < 300,
        response.is_json(),
        response.body == Some(body),
        body.len() > 0,
        parsed_json(body) == Ok::<JsonView, Seq<char>>(json),
    ensures
        response_meaning(url, path, response) == Ok::<JsonView, ErrorView>(json),
        reply_meaning(url, path, ReplyView::Response(response)) == Ok::<JsonView, ErrorView>(json),
{
}

/// What a body was parsed to is what it means; where it was not parsed, the
/// failure tells the path, the cause and the broker.
pub proof fn law_body_means_what_it_was_parsed_to(
    url: Seq<char>,
    path: Seq<char>,
    json: JsonView,
    cause: Seq<char>,
)
    ensures
        body_meaning(url, path, Ok(json)) == Ok::<JsonView, ErrorView>(json),
        body_meaning(url, path, Err(cause)) == Err::<JsonView, ErrorView>(
            ErrorView::ContentError(
                "Did not get a valid HAL response body from pact broker path '"@ + path
                    + "' - JSON error: "@ + cause + ". URL: '"@ + url + "'"@,
            ),
        ),
{
}

/// A status that is no success means that the broker does not know the resource,
/// or that it refused; the message tells the path, the status and the broker.
pub proof fn law_refusal_is_told(url: Seq<char>, path: Seq<char>, response: ResponseView)
    requires
        !(200 <= response.status < 300),
    ensures
        ({
            let message = "Request to pact broker path '"@ + path + "' failed: "@ + status_text(
                response.status,
            ) + ". URL: '"@ + url + "'"@;
            response_meaning(url, path, response) == Err::<JsonView, ErrorView>(
                if response.status == 404 {
                    ErrorView::NotFound(message)
                } else {
                    ErrorView::IoError(message)
                },
            )
        }),
{
}

/// A success brings no resource if its body cannot be read, is of another content
/// type, is empty or is not JSON, and the message tells which.
pub proof fn law_useless_success_is_told(url: Seq<char>, path: Seq<char>, response: ResponseView)
    requires
        200 <= response.status < 300,
    ensures
        ({
            let meaning = response_meaning(url, path, response);
            &&& response.body is None ==> meaning == Err::<JsonView, ErrorView>(
                ErrorView::IoError(
                    "Failed to download response body for path '"@ + path + "'. URL: '"@ + url
                        + "'"@,
                ),
            )
            &&& response.body is Some && !response.is_json() ==> meaning == Err::<
                JsonView,
                ErrorView,
            >(
                ErrorView::ContentError(
                    "Did not get a HAL response from pact broker path '"@ + path
                        + "', content type is '"@ + response.content_type_text() + "'. URL: '"@
                        + url + "'"@,
                ),
            )
            &&& response.body matches Some(body) ==> (response.is_json() && body.len() == 0
                ==> meaning == Err::<JsonView, ErrorView>(
                ErrorView::ContentError(
                    "Did not get a valid HAL response body from pact broker path '"@ + path
                        + "'. URL: '"@ + url + "'"@,
                ),
            ))
            &&& response.body matches Some(body) ==> (response.is_json() && body.len() > 0 ==> (
            parsed_json(body) matches Err(cause) ==> meaning == Err::<JsonView, ErrorView>(
                ErrorView::ContentError(
                    "Did not get a valid HAL response body from pact broker path '"@ + path
                        + "' - JSON error: "@ + cause + ". URL: '"@ + url + "'"@,
                ),
            )))
        }),
{
}

/// A response to a request means what it means by itself; where none came, the
/// message tells the path and the quoted description of what went wrong.
pub proof fn law_reply_is_the_response_or_its_failure(
    url: Seq<char>,
    path: Seq<char>,
    response: ResponseView,
    description: Seq<char>,
)
    ensures
        reply_meaning(url, path, ReplyView::Response(response)) == response_meaning(
            url,
            path,
            response,
        ),
        reply_meaning(url, path, ReplyView::Failure(description)) == Err::<JsonView, ErrorView>(
            ErrorView::IoError(
                "Failed to access pact broker path '"@ + path + "' - "@ + debug_text(description)
                    + ". URL: 'self.url'"@,
            ),
        ),
{
}

/// Every status that HTTP knows can be taken, with any content and any body.
pub proof fn law_any_status_of_http_is_taken(response: ResponseView, description: Seq<char>)
    ensures
        response.well_formed() <==> 100 <= response.status < 600,
        ReplyView::Response(response).well_formed() <==> 100 <= response.status < 600,
        ReplyView::Failure(description).well_formed(),
{
}

/// A failure equals the texts that are its message, and no others.
pub proof fn law_failure_equals_its_message(err: PactBrokerError, text: String, word: &str)
    ensures
        ({
            let message = match err {
                PactBrokerError::LinkError(s) => s@,
                PactBrokerError::ContentError(s) => s@,
                PactBrokerError::IoError(s) => s@,
                PactBrokerError::NotFound(s) => s@,
                PactBrokerError::UrlError(s) => s@,
            };
            &&& err@.message() == message
            &&& err.eq_spec(&text) <==> message == text@
            &&& err.eq_spec(&word) <==> message == word@
        }),
{
}

} // verus!
