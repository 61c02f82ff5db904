//! What can go wrong between the client and the broker, and in which words.
use vstd::prelude::*;
use vstd::string::*;

use crate::text::{cat5, cat7};

verus! {

/// A failure, with its message.
#[derive(Debug, Clone)]
pub enum PactBrokerError {
    /// A link is missing or malformed.
    LinkError(String),
    /// A response is not what it should be.
    ContentError(String),
    /// The broker could not be reached, or refused the request.
    IoError(String),
    /// The broker does not know the resource.
    NotFound(String),
    /// An address is malformed.
    UrlError(String),
}

/// The model of a failure.
pub enum ErrorView {
    LinkError(Seq<char>),
    ContentError(Seq<char>),
    IoError(Seq<char>),
    NotFound(Seq<char>),
    UrlError(Seq<char>),
}

impl View for PactBrokerError {
    type V = ErrorView;

    open spec fn view(&self) -> ErrorView {
        match *self {
            PactBrokerError::LinkError(s) => ErrorView::LinkError(s@),
            PactBrokerError::ContentError(s) => ErrorView::ContentError(s@),
            PactBrokerError::IoError(s) => ErrorView::IoError(s@),
            PactBrokerError::NotFound(s) => ErrorView::NotFound(s@),
            PactBrokerError::UrlError(s) => ErrorView::UrlError(s@),
        }
    }
}

impl ErrorView {
    /// The message of the failure.
    pub open spec fn message(self) -> Seq<char> {
        match self {
            ErrorView::LinkError(s) => s,
            ErrorView::ContentError(s) => s,
            ErrorView::IoError(s) => s,
            ErrorView::NotFound(s) => s,
            ErrorView::UrlError(s) => s,
        }
    }
}

/// The model of an outcome.
pub open spec fn outcome<T: View>(r: Result<T, PactBrokerError>) -> Result<T::V, ErrorView> {
    match r {
        Ok(value) => Ok(value@),
        Err(err) => Err(err@),
    }
}

impl PactBrokerError {
    /// The message of the failure.
    pub fn message(&self) -> (r: &String)
        ensures
            r@ == self@.message(),
    {
        match self {
            PactBrokerError::LinkError(s) => s,
            PactBrokerError::ContentError(s) => s,
            PactBrokerError::IoError(s) => s,
            PactBrokerError::NotFound(s) => s,
            PactBrokerError::UrlError(s) => s,
        }
    }
}

impl PartialEq<String> for PactBrokerError {
    fn eq(&self, other: &String) -> (r: bool) {
        *self.message() == *other
    }
}

impl vstd::std_specs::cmp::PartialEqSpecImpl<String> for PactBrokerError {
    open spec fn obeys_eq_spec() -> bool {
        true
    }

    open spec fn eq_spec(&self, other: &String) -> bool {
        self@.message() == other@
    }
}

impl<'a> PartialEq<&'a str> for PactBrokerError {
    fn eq(&self, other: &&'a str) -> (r: bool) {
        *self.message() == (*other).to_owned()
    }
}

impl<'a> vstd::std_specs::cmp::PartialEqSpecImpl<&'a str> for PactBrokerError {
    open spec fn obeys_eq_spec() -> bool {
        true
    }

    open spec fn eq_spec(&self, other: &&'a str) -> bool {
        self@.message() == other@
    }
}

/// No resource was fetched in which the link could be looked up.
pub open spec fn no_resource_error(url: Seq<char>, link: Seq<char>) -> ErrorView {
    ErrorView::LinkError(
        "No previous resource has been fetched from the pact broker. URL: '"@ + url
            + "', LINK: '"@ + link + "'"@,
    )
}

/// No resource was fetched in which the link could be looked up.
pub fn no_resource(url: &str, link: &str) -> (r: PactBrokerError)
    ensures
        r@ == no_resource_error(url@, link@),
{
    PactBrokerError::LinkError(
        cat5(
            "No previous resource has been fetched from the pact broker. URL: '",
            url,
            "', LINK: '",
            link,
            "'",
        ),
    )
}

/// The resource has no links.
pub open spec fn no_links_error(url: Seq<char>, link: Seq<char>) -> ErrorView {
    ErrorView::LinkError(
        "Expected a HAL+JSON response from the pact broker, but got a response with no '_links'. URL: '"@
            + url + "', LINK: '"@ + link + "'"@,
    )
}

/// The resource has no links.
pub fn no_links(url: &str, link: &str) -> (r: PactBrokerError)
    ensures
        r@ == no_links_error(url@, link@),
{
    PactBrokerError::LinkError(
        cat5(
            "Expected a HAL+JSON response from the pact broker, but got a response with no '_links'. URL: '",
            url,
            "', LINK: '",
            link,
            "'",
        ),
    )
}

/// The link is not an object but the JSON text `got`.
pub open spec fn malformed_link_error(
    got: Seq<char>,
    url: Seq<char>,
    link: Seq<char>,
) -> ErrorView {
    ErrorView::LinkError(
        "Link is malformed, expected an object but got "@ + got + ". URL: '"@ + url
            + "', LINK: '"@ + link + "'"@,
    )
}

/// The link is not an object but the JSON text `got`.
pub fn malformed_link(got: &str, url: &str, link: &str) -> (r: PactBrokerError)
    ensures
        r@ == malformed_link_error(got@, url@, link@),
{
    PactBrokerError::LinkError(
        cat7(
            "Link is malformed, expected an object but got ",
            got,
            ". URL: '",
            url,
            "', LINK: '",
            link,
            "'",
        ),
    )
}

/// The links are not a list but the JSON text `got`.
pub open spec fn malformed_link_list_error(
    got: Seq<char>,
    url: Seq<char>,
    link: Seq<char>,
) -> ErrorView {
    ErrorView::LinkError(
        "Link is malformed, expcted an object but got "@ + got + ". URL: '"@ + url + "', LINK: '"@
            + link + "'"@,
    )
}

/// The links are not a list but the JSON text `got`.
pub fn malformed_link_list(got: &str, url: &str, link: &str) -> (r: PactBrokerError)
    ensures
        r@ == malformed_link_list_error(got@, url@, link@),
{
    PactBrokerError::LinkError(
        cat7(
            "Link is malformed, expcted an object but got ",
            got,
            ". URL: '",
            url,
            "', LINK: '",
            link,
            "'",
        ),
    )
}

/// The link to follow has no address.
pub open spec fn link_without_href_error(url: Seq<char>, link: Seq<char>) -> ErrorView {
    ErrorView::LinkError(
        "Link is malformed, there is no href. URL: '"@ + url + "', LINK: '"@ + link + "'"@,
    )
}

/// The link to follow has no address.
pub fn link_without_href(url: &str, link: &str) -> (r: PactBrokerError)
    ensures
        r@ == link_without_href_error(url@, link@),
{
    PactBrokerError::LinkError(
        cat5(
            "Link is malformed, there is no href. URL: '",
            url,
            "', LINK: '",
            link,
            "'",
        ),
    )
}

/// The link has no address; `link` tells which link it is.
pub open spec fn no_href_error(url: Seq<char>, link: Seq<char>) -> ErrorView {
    ErrorView::LinkError(
        "Expected a HAL+JSON response from the pact broker, but got a link with no HREF. URL: '"@
            + url + "', LINK: '"@ + link + "'"@,
    )
}

/// The link has no address; `link` tells which link it is.
pub fn no_href(url: &str, link: &str) -> (r: PactBrokerError)
    ensures
        r@ == no_href_error(url@, link@),
{
    PactBrokerError::LinkError(
        cat5(
            "Expected a HAL+JSON response from the pact broker, but got a link with no HREF. URL: '",
            url,
            "', LINK: '",
            link,
            "'",
        ),
    )
}

/// The request could not be sent or got no answer; `cause` is the quoted
/// description.
pub open spec fn request_failure_error(path: Seq<char>, cause: Seq<char>) -> ErrorView {
    ErrorView::IoError(
        "Failed to access pact broker path '"@ + path + "' - "@ + cause + ". URL: 'self.url'"@,
    )
}

/// The request could not be sent or got no answer; `cause` is the quoted
/// description.
pub fn request_failure(path: &str, cause: &str) -> (r: PactBrokerError)
    ensures
        r@ == request_failure_error(path@, cause@),
{
    PactBrokerError::IoError(
        cat5(
            "Failed to access pact broker path '",
            path,
            "' - ",
            cause,
            ". URL: 'self.url'",
        ),
    )
}

/// The body of the response could not be read.
pub open spec fn download_failure_error(path: Seq<char>, url: Seq<char>) -> ErrorView {
    ErrorView::IoError(
        "Failed to download response body for path '"@ + path + "'. URL: '"@ + url + "'"@,
    )
}

/// The body of the response could not be read.
pub fn download_failure(path: &str, url: &str) -> (r: PactBrokerError)
    ensures
        r@ == download_failure_error(path@, url@),
{
    PactBrokerError::IoError(
        cat5(
            "Failed to download response body for path '",
            path,
            "'. URL: '",
            url,
            "'",
        ),
    )
}

/// The body of the response is empty.
pub open spec fn empty_body_error(path: Seq<char>, url: Seq<char>) -> ErrorView {
    ErrorView::ContentError(
        "Did not get a valid HAL response body from pact broker path '"@ + path + "'. URL: '"@
            + url + "'"@,
    )
}

/// The body of the response is empty.
pub fn empty_body(path: &str, url: &str) -> (r: PactBrokerError)
    ensures
        r@ == empty_body_error(path@, url@),
{
    PactBrokerError::ContentError(
        cat5(
            "Did not get a valid HAL response body from pact broker path '",
            path,
            "'. URL: '",
            url,
            "'",
        ),
    )
}

/// The body of the response is not JSON; `cause` is the text of the error.
pub open spec fn invalid_json_error(
    path: Seq<char>,
    cause: Seq<char>,
    url: Seq<char>,
) -> ErrorView {
    ErrorView::ContentError(
        "Did not get a valid HAL response body from pact broker path '"@ + path
            + "' - JSON error: "@ + cause + ". URL: '"@ + url + "'"@,
    )
}

/// The body of the response is not JSON; `cause` is the text of the error.
pub fn invalid_json(path: &str, cause: &str, url: &str) -> (r: PactBrokerError)
    ensures
        r@ == invalid_json_error(path@, cause@, url@),
{
    PactBrokerError::ContentError(
        cat7(
            "Did not get a valid HAL response body from pact broker path '",
            path,
            "' - JSON error: ",
            cause,
            ". URL: '",
            url,
            "'",
        ),
    )
}

/// The response has another content type.
pub open spec fn not_hal_error(
    path: Seq<char>,
    content_type: Seq<char>,
    url: Seq<char>,
) -> ErrorView {
    ErrorView::ContentError(
        "Did not get a HAL response from pact broker path '"@ + path + "', content type is '"@
            + content_type + "'. URL: '"@ + url + "'"@,
    )
}

/// The response has another content type.
pub fn not_hal(path: &str, content_type: &str, url: &str) -> (r: PactBrokerError)
    ensures
        r@ == not_hal_error(path@, content_type@, url@),
{
    PactBrokerError::ContentError(
        cat7(
            "Did not get a HAL response from pact broker path '",
            path,
            "', content type is '",
            content_type,
            "'. URL: '",
            url,
            "'",
        ),
    )
}

/// The broker has no pacts for the provider.
pub open spec fn no_pacts_error(provider: Seq<char>, url: Seq<char>) -> ErrorView {
    ErrorView::NotFound(
        "No pacts for provider '"@ + provider + "' where found in the pact broker. URL: '"@ + url
            + "'"@,
    )
}

/// The broker has no pacts for the provider.
pub fn no_pacts(provider: &str, url: &str) -> (r: PactBrokerError)
    ensures
        r@ == no_pacts_error(provider@, url@),
{
    PactBrokerError::NotFound(
        cat5(
            "No pacts for provider '",
            provider,
            "' where found in the pact broker. URL: '",
            url,
            "'",
        ),
    )
}

/// The link `link` is not among those of the resource; `found` is the quoted
/// list of those that are.
pub open spec fn missing_link_error(
    link: Seq<char>,
    found: Seq<char>,
    url: Seq<char>,
) -> ErrorView {
    ErrorView::LinkError(
        "Link '"@ + link
            + "' was not found in the response, only the following links where found: "@ + found
            + ". URL: '"@ + url + "', LINK: '"@ + link + "'"@,
    )
}

/// The link `link` is not among those of the resource; `found` is the quoted
/// list of those that are.
pub fn missing_link(link: &str, found: &str, url: &str) -> (r: PactBrokerError)
    ensures
        r@ == missing_link_error(link@, found@, url@),
{
    let mut message = cat7(
        "Link '",
        link,
        "' was not found in the response, only the following links where found: ",
        found,
        ". URL: '",
        url,
        "', LINK: '",
    );
    message.append(link);
    message.append("'");
    PactBrokerError::LinkError(message)
}

/// The message for a response with a status that is no success; `status` is
/// the status with its reason.
pub open spec fn refusal_message(
    path: Seq<char>,
    status: Seq<char>,
    url: Seq<char>,
) -> Seq<char> {
    "Request to pact broker path '"@ + path + "' failed: "@ + status + ". URL: '"@ + url + "'"@
}

/// The failure for a response that says that the broker does not know the
/// resource.
pub open spec fn unknown_resource_error(path: Seq<char>, url: Seq<char>) -> ErrorView {
    ErrorView::NotFound(refusal_message(path, "404 Not Found"@, url))
}

/// The failure for a response with a status that is no success: a resource that
/// the broker does not know, or any other refusal. `reason` is the status with
/// its reason.
pub open spec fn refusal_error(
    path: Seq<char>,
    status: u16,
    reason: Seq<char>,
    url: Seq<char>,
) -> ErrorView {
    if status == 404 {
        ErrorView::NotFound(refusal_message(path, reason, url))
    } else {
        ErrorView::IoError(refusal_message(path, reason, url))
    }
}

/// The failure for a response with a status that is no success: a resource that
/// the broker does not know, or any other refusal. `reason` is the status with
/// its reason.
pub fn refusal(path: &str, status: u16, reason: &str, url: &str) -> (r: PactBrokerError)
    ensures
        r@ == refusal_error(path@, status, reason@, url@),
{
    let message = cat7(
        "Request to pact broker path '",
        path,
        "' failed: ",
        reason,
        ". URL: '",
        url,
        "'",
    );
    if status == 404 {
        PactBrokerError::NotFound(message)
    } else {
        PactBrokerError::IoError(message)
    }
}

} // verus!
