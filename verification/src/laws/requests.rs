//! Requests: which one fetches a path, and which one follows a link.
use vstd::prelude::*;

use crate::client::{
    address_path, checked_request, fetch_request, found_link, link_address, link_request,
    url_request, ClientView, RequestView,
};
use crate::error::ErrorView;
use crate::json::{JsonView, NodeView};
use crate::laws::addresses::{
    ends_in_slash, is_slashes, law_one_slash_where_they_meet, starts_with_slash,
};
use crate::laws::resources::{
    is_first_in_any_case, law_link_is_found_under_its_name, lists, says_templated,
};
use crate::link::LinkView;
use crate::template::expanded;
use crate::uri::{parsed_uri, UriView};

verus! {

/// The request for a path asks for the whole path at the broker, with one slash
/// between the two, and for HAL or JSON. It can be made exactly if that address
/// can be parsed, and otherwise the failure is that of the parser.
pub proof fn law_request_asks_for_the_whole_path(
    base: Seq<char>,
    behind: Seq<char>,
    before: Seq<char>,
    rest: Seq<char>,
    parsed: Result<UriView, Seq<char>>,
)
    requires
        is_slashes(behind),
        is_slashes(before),
        !ends_in_slash(base),
        !starts_with_slash(rest),
    ensures
        ({
            let address = base + "/"@ + rest;
            let request = RequestView {
                path: before + rest,
                url: address,
                accept: "application/hal+json, application/json"@,
            };
            let checked = checked_request(base + behind, before + rest, parsed);
            let fetched = fetch_request(base + behind, before + rest);
            &&& parsed is Ok ==> checked == Ok::<RequestView, ErrorView>(request)
            &&& parsed matches Err(description) ==> checked == Err::<RequestView, ErrorView>(
                ErrorView::UrlError(description),
            )
            &&& parsed_uri(address) is Ok ==> fetched == Ok::<RequestView, ErrorView>(request)
            &&& parsed_uri(address) matches Err(description) ==> fetched == Err::<
                RequestView,
                ErrorView,
            >(ErrorView::UrlError(description))
        }),
{
    law_one_slash_where_they_meet(base, behind, before, rest);
}

/// The path of a link is that of its own address if this has a scheme, and
/// otherwise that of the address behind the one of the broker; if this cannot
/// be parsed, the failure is that of the parser.
pub proof fn law_path_is_that_of_the_address(
    scheme: Option<Seq<char>>,
    path: Seq<char>,
    description: Seq<char>,
    other: Result<UriView, Seq<char>>,
)
    ensures
        scheme is Some ==> address_path(Ok(UriView { scheme, path }), other) == Ok::<
            Seq<char>,
            ErrorView,
        >(path),
        !(other matches Ok(uri) && uri.scheme is Some) ==> address_path(
            other,
            Ok(UriView { scheme, path }),
        ) == Ok::<Seq<char>, ErrorView>(path),
        !(other matches Ok(uri) && uri.scheme is Some) ==> address_path(other, Err(description))
            == Err::<Seq<char>, ErrorView>(ErrorView::UrlError(description)),
{
}

/// A link with an address of its own is followed to the path of that address, at
/// the broker, whatever host the address names.
pub proof fn law_link_with_a_scheme_leads_to_its_path(
    base: Seq<char>,
    behind: Seq<char>,
    before: Seq<char>,
    rest: Seq<char>,
    link: LinkView,
    address: Seq<char>,
    values: Map<Seq<char>, Seq<char>>,
)
    requires
        is_slashes(behind),
        is_slashes(before),
        !ends_in_slash(base),
        !starts_with_slash(rest),
        link_address(base + behind, link, values) == Ok::<Seq<char>, ErrorView>(address),
        parsed_uri(address) matches Ok(uri) && uri.scheme is Some && uri.path == before + rest,
        parsed_uri(base + "/"@ + rest) is Ok,
    ensures
        url_request(base + behind, link, values) == Ok::<RequestView, ErrorView>(
            RequestView {
                path: before + rest,
                url: base + "/"@ + rest,
                accept: "application/hal+json, application/json"@,
            },
        ),
{
    law_request_asks_for_the_whole_path(base, behind, before, rest, parsed_uri(address));
}

/// A link whose address has no scheme, or cannot be parsed by itself, is followed
/// to the path that the address has behind the one of the broker.
pub proof fn law_link_without_a_scheme_leads_behind_the_broker(
    base: Seq<char>,
    behind: Seq<char>,
    before: Seq<char>,
    rest: Seq<char>,
    link: LinkView,
    address: Seq<char>,
    values: Map<Seq<char>, Seq<char>>,
)
    requires
        is_slashes(behind),
        is_slashes(before),
        !ends_in_slash(base),
        !starts_with_slash(rest),
        link_address(base + behind, link, values) == Ok::<Seq<char>, ErrorView>(address),
        !(parsed_uri(address) matches Ok(uri) && uri.scheme is Some),
        parsed_uri(base + behind + address) matches Ok(uri) && uri.path == before + rest,
        parsed_uri(base + "/"@ + rest) is Ok,
    ensures
        url_request(base + behind, link, values) == Ok::<RequestView, ErrorView>(
            RequestView {
                path: before + rest,
                url: base + "/"@ + rest,
                accept: "application/hal+json, application/json"@,
            },
        ),
{
    law_request_asks_for_the_whole_path(base, behind, before, rest, parsed_uri(address));
}

/// A link is not followed exactly if its address is missing, cannot be parsed,
/// or has a path that cannot be asked for; the failure tells which.
pub proof fn law_link_that_leads_nowhere_fails(
    url: Seq<char>,
    link: LinkView,
    values: Map<Seq<char>, Seq<char>>,
)
    ensures
        match link_address(url, link, values) {
            Err(err) => url_request(url, link, values) == Err::<RequestView, ErrorView>(err),
            Ok(address) => match parsed_uri(address) {
                Ok(uri) if uri.scheme is Some => url_request(url, link, values) == fetch_request(
                    url,
                    uri.path,
                ),
                _ => match parsed_uri(url + address) {
                    Ok(uri) => url_request(url, link, values) == fetch_request(url, uri.path),
                    Err(description) => url_request(url, link, values) == Err::<
                        RequestView,
                        ErrorView,
                    >(ErrorView::UrlError(description)),
                },
            },
        },
{
}

/// A template is followed just as a link that has the filled-in address.
pub proof fn law_template_leads_where_it_says_when_filled_in(
    url: Seq<char>,
    link: LinkView,
    values: Map<Seq<char>, Seq<char>>,
    others: Map<Seq<char>, Seq<char>>,
)
    requires
        link.templated,
        link.href is Some,
    ensures
        link_address(url, link, values) matches Ok(address) && url_request(url, link, values)
            == url_request(
            url,
            LinkView { name: link.name, href: Some(address), templated: false },
            others,
        ),
{
}

/// The link of a name is followed as it stands in the resource; where it is not
/// found, that is the failure.
pub proof fn law_named_link_is_the_one_that_is_followed(
    client: ClientView,
    link: Seq<char>,
    values: Map<Seq<char>, Seq<char>>,
)
    ensures
        match found_link(client, link) {
            Ok(found) => link_request(client, link, values) == url_request(
                client.url,
                found,
                values,
            ),
            Err(err) => link_request(client, link, values) == Err::<RequestView, ErrorView>(err),
        },
{
}

/// The link that stands under a name in the resource is asked for at the broker,
/// by the path of the address that stands there; a template is filled in first.
pub proof fn law_listed_link_is_asked_for(
    client: ClientView,
    link: Seq<char>,
    entries: Seq<(Seq<char>, JsonView)>,
    text: Seq<char>,
    i: int,
    href: Seq<char>,
    values: Map<Seq<char>, Seq<char>>,
    base: Seq<char>,
    behind: Seq<char>,
    before: Seq<char>,
    rest: Seq<char>,
)
    requires
        lists(client, link, JsonView { text, node: NodeView::Object(entries) }),
        is_first_in_any_case(entries, "href"@, i),
        entries[i].1.node == NodeView::String(href),
        client.url == base + behind,
        is_slashes(behind),
        is_slashes(before),
        !ends_in_slash(base),
        !starts_with_slash(rest),
        ({
            let address = if says_templated(entries) {
                expanded(href, values)
            } else {
                href
            };
            match parsed_uri(address) {
                Ok(uri) if uri.scheme is Some => uri.path == before + rest,
                _ => parsed_uri(client.url + address) matches Ok(uri) && uri.path == before + rest,
            }
        }),
        parsed_uri(base + "/"@ + rest) is Ok,
    ensures
        link_request(client, link, values) == Ok::<RequestView, ErrorView>(
            RequestView {
                path: before + rest,
                url: base + "/"@ + rest,
                accept: "application/hal+json, application/json"@,
            },
        ),
{
    law_link_is_found_under_its_name(
        client,
        link,
        JsonView { text, node: NodeView::Object(entries) },
    );
    law_request_asks_for_the_whole_path(base, behind, before, rest, parsed_uri(href));
}

} // verus!
