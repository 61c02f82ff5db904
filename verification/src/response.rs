//! What the broker answers.
use vstd::prelude::*;
use vstd::string::*;

use crate::text::optional_text;

verus! {

/// A response of the broker.
#[derive(Debug, Clone)]
pub struct BrokerResponse {
    /// The status code.
    pub status: u16,
    /// The value of the header `content-type`.
    pub content_type: Option<Vec<u8>>,
    /// The body; none if it could not be read.
    pub body: Option<Vec<u8>>,
}

/// The model of a response.
pub struct ResponseView {
    pub status: u16,
    pub content_type: Option<Seq<u8>>,
    pub body: Option<Seq<u8>>,
}

/// The model of optional bytes.
pub open spec fn optional_bytes(bytes: Option<Vec<u8>>) -> Option<Seq<u8>> {
    match bytes {
        Some(b) => Some(b@),
        None => None,
    }
}

impl View for BrokerResponse {
    type V = ResponseView;

    open spec fn view(&self) -> ResponseView {
        ResponseView {
            status: self.status,
            content_type: optional_bytes(self.content_type),
            body: optional_bytes(self.body),
        }
    }
}

impl ResponseView {
    /// The status is one that HTTP knows.
    pub open spec fn well_formed(self) -> bool {
        100 <= self.status < 600
    }

    /// The text of the content type: `text/plain` if it is missing or not of
    /// visible ASCII characters.
    pub open spec fn content_type_text(self) -> Seq<char> {
        match self.content_type {
            Some(value) => match header_text(value) {
                Some(text) => text,
                None => "text/plain"@,
            },
            None => "text/plain"@,
        }
    }

    /// Whether the response says that it is JSON or HAL in JSON.
    pub open spec fn is_json(self) -> bool {
        match self.content_type {
            Some(value) => match header_text(value) {
                Some(text) => is_json_media_type(media_type(text)),
                None => false,
            },
            None => false,
        }
    }
}

/// A byte that stands for a visible ASCII character, a space or a tab.
pub open spec fn is_visible(b: u8) -> bool {
    32 <= b < 127 || b == 9
}

/// The text of a header value, if it has nothing but visible ASCII characters,
/// spaces and tabs.
pub open spec fn header_text(value: Seq<u8>) -> Option<Seq<char>> {
    if forall|i: int| 0 <= i < value.len() ==> is_visible(#[trigger] value[i]) {
        Some(value.map_values(|b: u8| b as char))
    } else {
        None
    }
}

/// What stands before the first semicolon.
pub open spec fn before_semicolon(text: Seq<char>) -> Seq<char>
    decreases text.len(),
{
    if text.len() == 0 || text[0] == ';' {
        seq![]
    } else {
        seq![text[0]] + before_semicolon(text.skip(1))
    }
}

/// `text` without the spaces and tabs that it ends in.
pub open spec fn without_trailing_blanks(text: Seq<char>) -> Seq<char>
    decreases text.len(),
{
    if text.len() > 0 && (text.last() == ' ' || text.last() == '\t') {
        without_trailing_blanks(text.drop_last())
    } else {
        text
    }
}

/// A content type without its parameters, which start with a semicolon.
pub open spec fn media_type(content_type: Seq<char>) -> Seq<char> {
    if content_type.contains(';') {
        without_trailing_blanks(before_semicolon(content_type))
    } else {
        content_type
    }
}

/// JSON, or HAL in JSON.
pub open spec fn is_json_media_type(media_type: Seq<char>) -> bool {
    media_type == "application/json"@ || media_type == "application/hal+json"@
}

/// What the `Display` format of `hyper::StatusCode` writes for `status`: the
/// number and the reason.
pub uninterp spec fn status_text(status: u16) -> Seq<char>;

/// Calls `hyper::header::HeaderValue::from_bytes` and `HeaderValue::to_str`.
/// Claimed: a text comes back exactly if all bytes are visible ASCII characters,
/// spaces or tabs, and it has these characters.
#[verifier::external_body]
fn header_to_str(value: &[u8]) -> (r: Option<String>)
    ensures
        optional_text(r) == header_text(value@),
{
    let header = hyper::header::HeaderValue::from_bytes(value).ok()?;
    header.to_str().ok().map(|text| text.to_owned())
}

/// Calls `hyper::StatusCode::from_u16` and the `Display` format of
/// `StatusCode`. Claimed: the text depends on the status alone, and that of 404
/// is `404 Not Found`.
#[verifier::external_body]
pub(crate) fn status_display(status: u16) -> (r: String)
    requires
        100 <= status < 600,
    ensures
        r@ == status_text(status),
        status == 404 ==> r@ == "404 Not Found"@,
{
    hyper::StatusCode::from_u16(status).unwrap().to_string()
}

/// Whether a status stands for success.
pub fn is_success(status: u16) -> (r: bool)
    ensures
        r == (200 <= status < 300),
{
    200 <= status && status < 300
}

/// The text of the content type; `text/plain` if there is none.
pub fn content_type(response: &BrokerResponse) -> (r: String)
    ensures
        r@ == response@.content_type_text(),
{
    match &response.content_type {
        Some(value) => match header_to_str(value.as_slice()) {
            Some(text) => text,
            None => "text/plain".to_owned(),
        },
        None => "text/plain".to_owned(),
    }
}

/// Whether the response says that it is JSON or HAL in JSON, with any parameters.
pub fn json_content_type(response: &BrokerResponse) -> (r: bool)
    ensures
        r == response@.is_json(),
{
    match &response.content_type {
        Some(value) => match header_to_str(value.as_slice()) {
            Some(text) => {
                let media = strip_parameters(text.as_str());
                media == "application/json".to_owned() || media
                    == "application/hal+json".to_owned()
            },
            None => false,
        },
        None => false,
    }
}

/// A content type without its parameters.
pub fn strip_parameters(content_type: &str) -> (r: String)
    ensures
        r@ == media_type(content_type@),
{
    let length: usize = content_type.unicode_len();
    let ghost all = content_type@;
    let mut end: usize = 0;
    assert(all.skip(0) =~= all);
    assert(all.take(0) + before_semicolon(all) =~= before_semicolon(all));
    while end < length && content_type.get_char(end) != ';'
        invariant
            end <= length == all.len(),
            all == content_type@,
            forall|i: int| 0 <= i < end ==> all[i] != ';',
            all.take(end as int) + before_semicolon(all.skip(end as int)) == before_semicolon(all),
        decreases length - end,
    {
        assert(all.skip(end as int).skip(1) =~= all.skip(end + 1));
        assert(all.take(end as int) + (seq![all[end as int]] + before_semicolon(all.skip(end + 1)))
            =~= all.take(end + 1) + before_semicolon(all.skip(end + 1)));
        end = end + 1;
    }
    if end == length {
        return content_type.to_owned();
    }
    assert(all.take(end as int) + seq![] =~= all.take(end as int));
    assert(all[end as int] == ';');
    while end > 0 && is_blank(content_type.get_char(end - 1))
        invariant
            end <= all.len(),
            all == content_type@,
            without_trailing_blanks(all.take(end as int)) == without_trailing_blanks(
                before_semicolon(all),
            ),
        decreases end,
    {
        assert(all.take(end as int).drop_last() =~= all.take(end - 1));
        end = end - 1;
    }
    assert(all.subrange(0, end as int) =~= all.take(end as int));
    content_type.substring_char(0, end).to_owned()
}

fn is_blank(c: char) -> (r: bool)
    ensures
        r == (c == ' ' || c == '\t'),
{
    c == ' ' || c == '\t'
}

/// The parameters of a content type make no difference to whether it is JSON.
pub proof fn law_parameters_make_no_difference(media: Seq<char>, parameters: Seq<char>)
    requires
        !media.contains(';'),
        media.len() > 0 ==> media.last() != ' ' && media.last() != '\t',
    ensures
        media_type(media + ";"@ + parameters) == media_type(media),
{
    reveal_strlit(";");
    let text = media + ";"@ + parameters;
    assert(text[media.len() as int] == ';');
    lemma_before_semicolon(media, parameters);
}

pub(crate) proof fn lemma_before_semicolon(media: Seq<char>, parameters: Seq<char>)
    requires
        !media.contains(';'),
    ensures
        before_semicolon(media + ";"@ + parameters) == media,
    decreases media.len(),
{
    reveal_strlit(";");
    let text = media + ";"@ + parameters;
    if media.len() == 0 {
        assert(text[0] == ';');
        assert(before_semicolon(text) =~= media);
    } else {
        let rest = media.skip(1);
        assert(media.contains(media[0]));
        assert forall|c: char| rest.contains(c) implies media.contains(c) by {
            let i = choose|i: int| 0 <= i < rest.len() && rest[i] == c;
            assert(media[i + 1] == c);
        }
        lemma_before_semicolon(rest, parameters);
        assert(text.skip(1) =~= rest + ";"@ + parameters);
        assert(seq![media[0]] + rest =~= media);
    }
}

} // verus!
