//! The client of a pact broker: which links a resource has, which request
//! follows a link, and what a reply to it means.
use vstd::prelude::*;
use vstd::string::*;

use crate::error::{
    download_failure, download_failure_error, empty_body, empty_body_error, invalid_json,
    invalid_json_error, link_without_href, link_without_href_error, malformed_link,
    malformed_link_error, malformed_link_list, malformed_link_list_error, missing_link,
    missing_link_error, no_href, no_href_error, no_links, no_links_error, no_resource,
    no_resource_error, not_hal, not_hal_error, outcome, refusal, refusal_error, request_failure,
    request_failure_error, unknown_resource_error, ErrorView, PactBrokerError,
};
use crate::json::{
    has_ascii_keys, lemma_object_model, parsed_json, Json, JsonView, Node, NodeView,
};
use crate::link::{described_link, plainly_described_link, Link, LinkView};
use crate::response::{
    content_type, is_success, json_content_type, status_display, status_text, BrokerResponse,
    ResponseView,
};
use crate::template::{expand, expanded, TemplateValues};
use crate::text::{
    debug_quoted, debug_text, is_plain_text, join, join_paths, joined, joined_paths, quoted,
    without_leading_slashes,
};
use crate::uri::{
    before_query, followed_path, host_address, is_broker_at, is_host, is_rooted_path, is_site,
    is_target, lemma_before_query, lemma_host_is_site, lemma_path_at_broker,
    lemma_rooted_path_is_target, lemma_target_behind_broker, names_path, parse_uri, parsed_uri,
    uri_outcome, ParsedUri, UriView, MAX_ADDRESS,
};

verus! {

/// A client of the broker at `url`.
pub struct HALClient {
    /// The address of the broker.
    pub url: String,
    /// The resource that was fetched last.
    pub path_info: Option<Json>,
}

/// The model of a client.
pub struct ClientView {
    pub url: Seq<char>,
    pub path_info: Option<JsonView>,
}

impl View for HALClient {
    type V = ClientView;

    open spec fn view(&self) -> ClientView {
        ClientView {
            url: self.url@,
            path_info: match self.path_info {
                Some(json) => Some(json@),
                None => None,
            },
        }
    }
}

/// A request for a resource, to be sent with the method GET.
#[derive(Debug, Clone, PartialEq, Eq)]
pub struct BrokerRequest {
    /// The path of the resource.
    pub path: String,
    /// The address to send the request to.
    pub url: String,
    /// The value of the header `accept`.
    pub accept: String,
}

/// The model of a request.
pub struct RequestView {
    pub path: Seq<char>,
    pub url: Seq<char>,
    pub accept: Seq<char>,
}

impl View for BrokerRequest {
    type V = RequestView;

    open spec fn view(&self) -> RequestView {
        RequestView { path: self.path@, url: self.url@, accept: self.accept@ }
    }
}

/// What came of a request.
#[derive(Debug, Clone)]
pub enum Reply {
    /// The broker answered.
    Response(BrokerResponse),
    /// No answer came; the description of the failure.
    Failure(String),
}

/// The model of what came of a request.
pub enum ReplyView {
    Response(ResponseView),
    Failure(Seq<char>),
}

impl View for Reply {
    type V = ReplyView;

    open spec fn view(&self) -> ReplyView {
        match *self {
            Reply::Response(response) => ReplyView::Response(response@),
            Reply::Failure(description) => ReplyView::Failure(description@),
        }
    }
}

impl ReplyView {
    /// A response has a status that HTTP knows.
    pub open spec fn well_formed(self) -> bool {
        self matches ReplyView::Response(response) ==> response.well_formed()
    }
}

/// The models of the links of a list.
pub open spec fn link_models(links: Seq<Link>) -> Seq<LinkView> {
    links.map_values(|link: Link| link@)
}

/// The model of an outcome that is a list of links.
pub open spec fn links_outcome(r: Result<Vec<Link>, PactBrokerError>) -> Result<
    Seq<LinkView>,
    ErrorView,
> {
    match r {
        Ok(links) => Ok(link_models(links@)),
        Err(err) => Err(err@),
    }
}

/// What the resource that was fetched last lists under `link`.
pub open spec fn listed(client: ClientView, link: Seq<char>) -> Result<JsonView, ErrorView> {
    match client.path_info {
        None => Err(no_resource_error(client.url, link)),
        Some(resource) => match resource.get("_links"@) {
            None => Err(no_links_error(client.url, link)),
            Some(links) => match links.get(link) {
                None => Err(
                    missing_link_error(
                        link,
                        debug_text(joined(links.keys(), ", "@)),
                        client.url,
                    ),
                ),
                Some(data) => Ok(data),
            },
        },
    }
}

/// The link `link` of the resource that was fetched last.
pub open spec fn found_link(client: ClientView, link: Seq<char>) -> Result<LinkView, ErrorView> {
    match listed(client, link) {
        Err(err) => Err(err),
        Ok(data) => match data.node {
            NodeView::Object(entries) => Ok(described_link(link, entries)),
            _ => Err(malformed_link_error(data.text, client.url, link)),
        },
    }
}

/// The failure to find `link`, if there are other links, and their names are
/// plain text.
pub open spec fn plain_missing_link(client: ClientView, link: Seq<char>) -> Option<ErrorView> {
    match client.path_info {
        Some(resource) => match resource.get("_links"@) {
            Some(links) => if links.get(link) is None && is_plain_text(
                joined(links.keys(), ", "@),
            ) {
                Some(missing_link_error(link, quoted(joined(links.keys(), ", "@)), client.url))
            } else {
                None
            },
            None => None,
        },
        None => None,
    }
}

/// The link `link` of the resource that was fetched last, if it is described
/// with ASCII keys.
pub open spec fn plain_link(client: ClientView, link: Seq<char>) -> Option<LinkView> {
    match listed(client, link) {
        Ok(data) => match data.node {
            NodeView::Object(entries) => if has_ascii_keys(entries) {
                Some(plainly_described_link(link, entries))
            } else {
                None
            },
            _ => None,
        },
        Err(_) => None,
    }
}

/// A link out of a list, if no keys other than ASCII ones describe it.
pub open spec fn plain_listed_link(name: Seq<char>, item: JsonView) -> Option<LinkView> {
    match item.node {
        NodeView::Object(entries) => if has_ascii_keys(entries) {
            Some(plainly_described_link(name, entries))
        } else {
            None
        },
        _ => Some(LinkView { name: name, href: Some(item.content()), templated: false }),
    }
}

/// A link out of a list: an object describes it, and any other value is its
/// address.
pub open spec fn listed_link(name: Seq<char>, item: JsonView) -> LinkView {
    match item.node {
        NodeView::Object(entries) => described_link(name, entries),
        _ => LinkView { name: name, href: Some(item.content()), templated: false },
    }
}

/// In a list of links, those that no keys other than ASCII ones describe are the
/// ones that are described.
pub open spec fn lists_plain_links(client: ClientView, link: Seq<char>) -> bool {
    listed(client, link) matches Ok(data) ==> (data.node matches NodeView::Array(items) ==> (
    found_links(client, link) matches Ok(links) && links.len() == items.len() && forall|i: int|
        0 <= i < items.len() ==> (plain_listed_link(link, #[trigger] items[i]) matches Some(plain)
            ==> links[i] == plain)))
}

/// All links that the resource that was fetched last lists under `link`.
pub open spec fn found_links(client: ClientView, link: Seq<char>) -> Result<
    Seq<LinkView>,
    ErrorView,
> {
    match listed(client, link) {
        Err(err) => Err(err),
        Ok(data) => match data.node {
            NodeView::Array(items) => Ok(
                items.map_values(|item: JsonView| listed_link(link, item)),
            ),
            _ => Err(malformed_link_list_error(data.text, client.url, link)),
        },
    }
}

/// The address of a link with its tokens replaced.
pub open spec fn expanded_address(
    url: Seq<char>,
    link: LinkView,
    values: Map<Seq<char>, Seq<char>>,
) -> Result<Seq<char>, ErrorView> {
    match link.href {
        Some(href) => Ok(expanded(href, values)),
        None => Err(no_href_error(url, link.name)),
    }
}

/// The address of a link: with its tokens replaced if it is a template.
pub open spec fn link_address(
    url: Seq<char>,
    link: LinkView,
    values: Map<Seq<char>, Seq<char>>,
) -> Result<Seq<char>, ErrorView> {
    if link.templated {
        expanded_address(url, link, values)
    } else {
        match link.href {
            Some(href) => Ok(href),
            None => Err(link_without_href_error(url, link.name)),
        }
    }
}

/// The path of a link: that of the address of the link, `direct`, if this has
/// a scheme; otherwise that of the address behind the one of the broker,
/// `behind`.
pub open spec fn address_path(
    direct: Result<UriView, Seq<char>>,
    behind: Result<UriView, Seq<char>>,
) -> Result<Seq<char>, ErrorView> {
    match direct {
        Ok(uri) if uri.scheme is Some => Ok(uri.path),
        _ => match behind {
            Ok(uri) => Ok(uri.path),
            Err(description) => Err(ErrorView::UrlError(description)),
        },
    }
}

/// The request for `path` at the broker.
pub open spec fn broker_request(url: Seq<char>, path: Seq<char>) -> RequestView {
    RequestView {
        path: path,
        url: joined_paths(url, path),
        accept: "application/hal+json, application/json"@,
    }
}

/// The outcome of asking for a request that can be made.
pub open spec fn plain_request(request: RequestView) -> Result<RequestView, ErrorView> {
    Ok(request)
}

/// The request for `path`, where `parsed` is what its address was parsed to.
pub open spec fn checked_request(
    url: Seq<char>,
    path: Seq<char>,
    parsed: Result<UriView, Seq<char>>,
) -> Result<RequestView, ErrorView> {
    match parsed {
        Ok(_) => Ok(broker_request(url, path)),
        Err(description) => Err(ErrorView::UrlError(description)),
    }
}

/// The request that fetches `path`.
pub open spec fn fetch_request(url: Seq<char>, path: Seq<char>) -> Result<RequestView, ErrorView> {
    checked_request(url, path, parsed_uri(joined_paths(url, path)))
}

/// The request that follows a link.
pub open spec fn url_request(
    url: Seq<char>,
    link: LinkView,
    values: Map<Seq<char>, Seq<char>>,
) -> Result<RequestView, ErrorView> {
    match link_address(url, link, values) {
        Err(err) => Err(err),
        Ok(address) => match address_path(parsed_uri(address), parsed_uri(url + address)) {
            Err(err) => Err(err),
            Ok(path) => fetch_request(url, path),
        },
    }
}

/// The request `request` leads where the address of a link says, at the broker
/// at `url`.
///
/// At a broker with a plain address it asks for the path that the address has,
/// whether this names no host or any host. At a broker whose address is a
/// scheme and an authority, an address that starts with a slash stands for its
/// text up to the query or the fragment; an address with a scheme and an
/// authority of its own stands for such text behind them. Where the outside
/// parser decides, these two say so.
pub open spec fn leads_to_address(
    url: Seq<char>,
    address: Seq<char>,
    request: Result<RequestView, ErrorView>,
) -> bool {
    &&& forall|host: Seq<char>, path: Seq<char>|
        #[trigger] is_broker_at(url, host) && #[trigger] names_path(address, path) && url.len()
            + address.len() <= MAX_ADDRESS ==> request == plain_request(
            broker_request(url, followed_path(url, address, path)),
        ) && broker_request(url, followed_path(url, address, path)).url == host_address(host, path)
    &&& is_site(url) && address.len() > 0 && address[0] == '/' && parsed_uri(url + address) is Ok
        ==> request == fetch_request(url, before_query(address))
    &&& forall|site: Seq<char>, target: Seq<char>|
        #[trigger] is_site(site) && target.len() > 0 && target[0] == '/' && address
            == #[trigger] (site + target) && parsed_uri(address) is Ok ==> request == fetch_request(
            url,
            before_query(target),
        )
}

/// The request that follows the link `link` of the resource that was fetched last.
pub open spec fn link_request(
    client: ClientView,
    link: Seq<char>,
    values: Map<Seq<char>, Seq<char>>,
) -> Result<RequestView, ErrorView> {
    match found_link(client, link) {
        Err(err) => Err(err),
        Ok(found) => url_request(client.url, found, values),
    }
}

/// The request that follows the link `link` leads where the address of the link
/// says; with ASCII keys, the link is the one that they describe.
pub open spec fn link_leads_to_address(
    client: ClientView,
    link: Seq<char>,
    values: Map<Seq<char>, Seq<char>>,
) -> bool {
    &&& plain_link(client, link) matches Some(found) ==> found_link(client, link) == Ok::<
        LinkView,
        ErrorView,
    >(found)
    &&& found_link(client, link) matches Ok(found) ==> (link_address(
        client.url,
        found,
        values,
    ) matches Ok(address) ==> leads_to_address(
        client.url,
        address,
        link_request(client, link, values),
    ))
}

/// What a body that is not empty means, where `parsed` is what it was parsed to.
pub open spec fn body_meaning(
    url: Seq<char>,
    path: Seq<char>,
    parsed: Result<JsonView, Seq<char>>,
) -> Result<JsonView, ErrorView> {
    match parsed {
        Ok(json) => Ok(json),
        Err(cause) => Err(invalid_json_error(path, cause, url)),
    }
}

/// What a response to the request for `path` means.
pub open spec fn response_meaning(
    url: Seq<char>,
    path: Seq<char>,
    response: ResponseView,
) -> Result<JsonView, ErrorView> {
    if !(200 <= response.status < 300) {
        Err(refusal_error(path, response.status, status_text(response.status), url))
    } else {
        match response.body {
            None => Err(download_failure_error(path, url)),
            Some(body) => if !response.is_json() {
                Err(not_hal_error(path, response.content_type_text(), url))
            } else if body.len() == 0 {
                Err(empty_body_error(path, url))
            } else {
                body_meaning(url, path, parsed_json(body))
            },
        }
    }
}

/// What a reply to the request for `path` means.
pub open spec fn reply_meaning(
    url: Seq<char>,
    path: Seq<char>,
    reply: ReplyView,
) -> Result<JsonView, ErrorView> {
    match reply {
        ReplyView::Response(response) => response_meaning(url, path, response),
        ReplyView::Failure(description) => Err(
            request_failure_error(path, debug_text(description)),
        ),
    }
}

/// The failure that a reply means, if the broker does not know the resource, or
/// if no answer came and the description is plain text.
pub open spec fn plain_failure(
    url: Seq<char>,
    path: Seq<char>,
    reply: ReplyView,
) -> Option<ErrorView> {
    match reply {
        ReplyView::Response(response) => if response.status == 404 {
            Some(unknown_resource_error(path, url))
        } else {
            None
        },
        ReplyView::Failure(description) => if is_plain_text(description) {
            Some(request_failure_error(path, quoted(description)))
        } else {
            None
        },
    }
}

impl HALClient {
    /// A client without an address that has fetched nothing.
    pub fn default() -> (r: HALClient)
        ensures
            r@ == (ClientView { url: ""@, path_info: None }),
    {
        HALClient { url: "".to_owned(), path_info: None }
    }

    /// What the resource that was fetched last lists under `link`.
    fn find_listed(&self, link: &str) -> (r: Result<&Json, PactBrokerError>)
        ensures
            match r {
                Ok(data) => listed(self@, link@) == Ok::<JsonView, ErrorView>(data@),
                Err(err) => listed(self@, link@) == Err::<JsonView, ErrorView>(err@),
            },
            plain_missing_link(self@, link@) matches Some(plain) ==> (r matches Err(err) && err@
                == plain),
    {
        match &self.path_info {
            None => Err(no_resource(self.url.as_str(), link)),
            Some(resource) => match resource.get("_links") {
                None => Err(no_links(self.url.as_str(), link)),
                Some(links) => match links.get(link) {
                    None => {
                        let found = debug_quoted(join(&links.keys(), ", ").as_str());
                        Err(missing_link(link, found.as_str(), self.url.as_str()))
                    },
                    Some(data) => Ok(data),
                },
            },
        }
    }

    /// The link `link` of the resource that was fetched last.
    pub fn find_link(&self, link: &str) -> (r: Result<Link, PactBrokerError>)
        ensures
            outcome(r) == found_link(self@, link@),
            plain_link(self@, link@) matches Some(found) ==> outcome(r) == Ok::<
                LinkView,
                ErrorView,
            >(found),
            plain_missing_link(self@, link@) matches Some(err) ==> outcome(r) == Err::<
                LinkView,
                ErrorView,
            >(err),
    {
        match self.find_listed(link) {
            Err(err) => Err(err),
            Ok(data) => {
                proof {
                    lemma_object_model(*data);
                }
                match &data.node {
                    Node::Object(entries) => Ok(Link::from_json(&link.to_owned(), entries)),
                    _ => Err(malformed_link(data.text.as_str(), self.url.as_str(), link)),
                }
            },
        }
    }

    /// All links that the resource that was fetched last lists under `link`.
    pub fn iter_links(&self, link: String) -> (r: Result<Vec<Link>, PactBrokerError>)
        ensures
            links_outcome(r) == found_links(self@, link@),
            lists_plain_links(self@, link@),
            plain_missing_link(self@, link@) matches Some(err) ==> links_outcome(r) == Err::<
                Seq<LinkView>,
                ErrorView,
            >(err),
    {
        match self.find_listed(link.as_str()) {
            Err(err) => Err(err),
            Ok(data) => match &data.node {
                Node::Array(items) => {
                    let mut links: Vec<Link> = Vec::new();
                    let mut i: usize = 0;
                    while i < items.len()
                        invariant
                            i <= items.len(),
                            links@.len() == i,
                            forall|k: int|
                                0 <= k < i ==> (#[trigger] links@[k])@ == listed_link(
                                    link@,
                                    items@[k]@,
                                ) && (plain_listed_link(link@, items@[k]@) matches Some(plain)
                                    ==> links@[k]@ == plain),
                        decreases items.len() - i,
                    {
                        links.push(link_of_item(&link, &items[i]));
                        i = i + 1;
                    }
                    assert(link_models(links@) =~= data@.node->Array_0.map_values(
                        |item: JsonView| listed_link(link@, item),
                    ));
                    Ok(links)
                },
                _ => Err(
                    malformed_link_list(data.text.as_str(), self.url.as_str(), link.as_str()),
                ),
            },
        }
    }

    /// The address of a link with its tokens replaced.
    pub fn parse_link_url(&self, link: &Link, values: &TemplateValues) -> (r: Result<
        String,
        PactBrokerError,
    >)
        ensures
            outcome(r) == expanded_address(self.url@, link@, values@),
    {
        match &link.href {
            Some(href) => Ok(expand(href.as_str(), values)),
            None => Err(no_href(self.url.as_str(), link.name.as_str())),
        }
    }

    /// The request for `path`, where `parsed` is what its address was parsed to.
    pub fn request_for(&self, path: &str, parsed: Result<ParsedUri, String>) -> (r: Result<
        BrokerRequest,
        PactBrokerError,
    >)
        ensures
            outcome(r) == checked_request(self.url@, path@, uri_outcome(parsed)),
    {
        match parsed {
            Ok(_) => Ok(
                BrokerRequest {
                    path: path.to_owned(),
                    url: join_paths(self.url.as_str(), path),
                    accept: "application/hal+json, application/json".to_owned(),
                },
            ),
            Err(description) => Err(PactBrokerError::UrlError(description)),
        }
    }

    /// The request that fetches `path`. It can be made for every path that starts
    /// with a slash and needs no encoding, at a broker with a plain address.
    pub fn fetch(&self, path: &str) -> (r: Result<BrokerRequest, PactBrokerError>)
        ensures
            outcome(r) == fetch_request(self.url@, path@),
            forall|host: Seq<char>|
                #[trigger] is_broker_at(self.url@, host) && is_rooted_path(path@) && joined_paths(
                    self.url@,
                    path@,
                ).len() <= MAX_ADDRESS ==> outcome(r) == plain_request(
                    broker_request(self.url@, path@),
                ) && broker_request(self.url@, path@).url == host_address(host, path@),
    {
        let parsed = parse_uri(join_paths(self.url.as_str(), path).as_str());
        proof {
            assert forall|host: Seq<char>|
                #[trigger] is_broker_at(self.url@, host) && is_rooted_path(path@) && joined_paths(
                    self.url@,
                    path@,
                ).len() <= MAX_ADDRESS implies uri_outcome(parsed) is Ok && joined_paths(
                self.url@,
                path@,
            ) == host_address(host, path@) by {
                lemma_path_at_broker(self.url@, host, path@);
                lemma_rooted_path_is_target("/"@ + without_leading_slashes(path@));
            }
        }
        self.request_for(path, parsed)
    }

    /// The request that follows a link. It leads where the address of the link
    /// says, at the broker.
    pub fn fetch_url(&self, link: &Link, values: &TemplateValues) -> (r: Result<
        BrokerRequest,
        PactBrokerError,
    >)
        ensures
            outcome(r) == url_request(self.url@, link@, values@),
            link_address(self.url@, link@, values@) matches Ok(address) ==> leads_to_address(
                self.url@,
                address,
                outcome(r),
            ),
    {
        let address = if link.templated {
            self.parse_link_url(link, values)
        } else {
            match &link.href {
                Some(href) => Ok(href.clone()),
                None => Err(link_without_href(self.url.as_str(), link.name.as_str())),
            }
        };
        match address {
            Err(err) => Err(err),
            Ok(address) => {
                let direct = parse_uri(address.as_str());
                let behind = parse_uri(self.url.clone().concat(address.as_str()).as_str());
                proof {
                    assert forall|host: Seq<char>, path: Seq<char>|
                        #[trigger] is_broker_at(self.url@, host) && #[trigger] names_path(
                            address@,
                            path,
                        ) && self.url@.len() + address@.len() <= MAX_ADDRESS implies (address_path(
                        uri_outcome(direct),
                        uri_outcome(behind),
                    ) matches Ok(followed) && followed == followed_path(self.url@, address@, path)
                        && is_rooted_path(followed) && joined_paths(self.url@, followed).len()
                        <= MAX_ADDRESS && joined_paths(self.url@, followed) == host_address(
                        host,
                        path,
                    )) by {
                        if is_target(address@) && path == before_query(address@) {
                            lemma_before_query(address@);
                            assert(address@[0] == path[0]);
                            lemma_host_is_site(host);
                            let target = lemma_target_behind_broker(self.url@, host, address@);
                            lemma_before_query(target);
                            assert(target[0] == before_query(target)[0]);
                            assert(self.url@ + address@ == "http://"@ + host + target);
                        } else {
                            let (other, target) = choose|other: Seq<char>, target: Seq<char>|
                                is_host(other) && is_target(target) && path == before_query(target)
                                    && address@ == #[trigger] ("http://"@ + other + target);
                            reveal_strlit("http://");
                            lemma_before_query(target);
                            assert(target[0] == path[0]);
                            lemma_host_is_site(other);
                            lemma_path_at_broker(self.url@, host, path);
                            assert(address@[0] == 'h');
                        }
                    }
                    assert(is_site(self.url@) && address@.len() > 0 && address@[0] == '/'
                        && parsed_uri(self.url@ + address@) is Ok ==> address_path(
                        uri_outcome(direct),
                        uri_outcome(behind),
                    ) == Ok::<Seq<char>, ErrorView>(before_query(address@)));
                }
                match path_of_address(direct, behind) {
                    Err(err) => Err(err),
                    Ok(path) => self.fetch(path.as_str()),
                }
            },
        }
    }

    /// The request that follows the link `link` of the resource that was fetched
    /// last, to the path that the link gives.
    pub fn fetch_link(&self, link: &str, values: &TemplateValues) -> (r: Result<
        BrokerRequest,
        PactBrokerError,
    >)
        ensures
            outcome(r) == link_request(self@, link@, values@),
            link_leads_to_address(self@, link@, values@),
            plain_link(self@, link@) matches Some(found) ==> outcome(r) == url_request(
                self.url@,
                found,
                values@,
            ),
            plain_missing_link(self@, link@) matches Some(err) ==> outcome(r) == Err::<
                RequestView,
                ErrorView,
            >(err),
    {
        match self.find_link(link) {
            Err(err) => Err(err),
            Ok(found) => self.fetch_url(&found, values),
        }
    }

    /// What a body that is not empty means, where `parsed` is what it was parsed to.
    pub fn parsed_body(&self, path: &str, parsed: Result<Json, String>) -> (r: Result<
        Json,
        PactBrokerError,
    >)
        ensures
            outcome(r) == body_meaning(
                self.url@,
                path@,
                match parsed {
                    Ok(json) => Ok(json@),
                    Err(cause) => Err(cause@),
                },
            ),
    {
        match parsed {
            Ok(json) => Ok(json),
            Err(cause) => Err(invalid_json(path, cause.as_str(), self.url.as_str())),
        }
    }

    /// What a response to the request for `path` means.
    pub fn parse_broker_response(&self, response: &BrokerResponse, path: &str) -> (r: Result<
        Json,
        PactBrokerError,
    >)
        requires
            response@.well_formed(),
        ensures
            outcome(r) == response_meaning(self.url@, path@, response@),
            response@.status == 404 ==> outcome(r) == Err::<JsonView, ErrorView>(
                unknown_resource_error(path@, self.url@),
            ),
            r matches Ok(json) ==> json@.well_formed(),
    {
        if !is_success(response.status) {
            let reason = status_display(response.status);
            return Err(refusal(path, response.status, reason.as_str(), self.url.as_str()));
        }
        match &response.body {
            None => Err(download_failure(path, self.url.as_str())),
            Some(body) => if !json_content_type(response) {
                Err(not_hal(path, content_type(response).as_str(), self.url.as_str()))
            } else if body.len() == 0 {
                Err(empty_body(path, self.url.as_str()))
            } else {
                self.parsed_body(path, Json::parse(body.as_slice()))
            },
        }
    }

    /// What a reply to the request for `path` means.
    pub fn receive(&self, path: &str, reply: &Reply) -> (r: Result<Json, PactBrokerError>)
        requires
            reply@.well_formed(),
        ensures
            outcome(r) == reply_meaning(self.url@, path@, reply@),
            plain_failure(self.url@, path@, reply@) matches Some(err) ==> outcome(r) == Err::<
                JsonView,
                ErrorView,
            >(err),
            r matches Ok(json) ==> json@.well_formed(),
    {
        match reply {
            Reply::Response(response) => self.parse_broker_response(response, path),
            Reply::Failure(description) => {
                let cause = debug_quoted(description.as_str());
                Err(request_failure(path, cause.as_str()))
            },
        }
    }
}

/// A link out of a list.
fn link_of_item(name: &String, item: &Json) -> (r: Link)
    ensures
        r@ == listed_link(name@, item@),
        plain_listed_link(name@, item@) matches Some(plain) ==> r@ == plain,
{
    proof {
        lemma_object_model(*item);
    }
    match &item.node {
        Node::Object(entries) => Link::from_json(name, entries),
        Node::String(s) => Link { name: name.clone(), href: Some(s.clone()), templated: false },
        _ => Link { name: name.clone(), href: Some(item.text.clone()), templated: false },
    }
}

/// The path of a link, where `direct` is what its address was parsed to, and
/// `behind` what that address behind the one of the broker was parsed to.
pub fn path_of_address(direct: Result<ParsedUri, String>, behind: Result<ParsedUri, String>) -> (r:
    Result<String, PactBrokerError>)
    ensures
        outcome(r) == address_path(uri_outcome(direct), uri_outcome(behind)),
{
    if let Ok(uri) = direct {
        if uri.scheme.is_some() {
            return Ok(uri.path);
        }
    }
    match behind {
        Ok(uri) => Ok(uri.path),
        Err(description) => Err(PactBrokerError::UrlError(description)),
    }
}

/// Which responses mean what: a resource comes exactly from a success with a
/// JSON content type and a body that is JSON. The status 404, and nothing else,
/// means that the broker does not know the resource. Any other refusal, and a
/// body that could not be read, is a failure of the exchange, and a success
/// with other content a failure of the content.
pub proof fn law_meanings_of_responses(url: Seq<char>, path: Seq<char>, response: ResponseView)
    ensures
        ({
            let success = 200 <= response.status < 300;
            let meaning = response_meaning(url, path, response);
            &&& meaning is Ok <==> success && response.is_json() && (response.body matches Some(
                body,
            ) && body.len() > 0 && parsed_json(body) is Ok)
            &&& (meaning matches Err(ErrorView::NotFound(_))) <==> response.status == 404
            &&& (meaning matches Err(ErrorView::IoError(_))) <==> (!success && response.status
                != 404) || (success && response.body is None)
            &&& (meaning matches Err(ErrorView::ContentError(_))) <==> success && (
            response.body matches Some(body) && (!response.is_json() || body.len() == 0
                || parsed_json(body) is Err))
        }),
{
}

/// Looking up one link and listing many fail alike where there is nothing
/// under the name of the link.
pub proof fn law_missing_links_fail_alike(client: ClientView, link: Seq<char>)
    requires
        listed(client, link) is Err,
    ensures
        found_link(client, link) is Err,
        found_links(client, link) is Err,
        found_link(client, link)->Err_0 == found_links(client, link)->Err_0,
        found_link(client, link)->Err_0 is LinkError,
{
}

/// The values for the tokens make no difference to a link that is no template:
/// tokens in its address are not replaced.
pub proof fn law_values_matter_to_templates_only(
    url: Seq<char>,
    link: LinkView,
    values: Map<Seq<char>, Seq<char>>,
    others: Map<Seq<char>, Seq<char>>,
)
    requires
        !link.templated,
    ensures
        url_request(url, link, values) == url_request(url, link, others),
        link.href matches Some(href) ==> link_address(url, link, values) == Ok::<
            Seq<char>,
            ErrorView,
        >(href),
{
}

} // verus!
