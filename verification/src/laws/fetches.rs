//! Fetches: how a client gets from the root of the broker to the pacts of a
//! provider.
use vstd::prelude::*;

use crate::client::{
    fetch_request, found_links, link_request, reply_meaning, url_request, ClientView, ReplyView,
    RequestView,
};
use crate::error::ErrorView;
use crate::json::JsonView;
use crate::link::{link_debug_text, LinkView};
use crate::navigate::{
    navigation_end, navigation_next, navigation_start, NavigateStepView, NavigationView,
};
use crate::pacts::{
    collection_next, collection_step, law_fetch_brings_a_result_for_each_link,
    lemma_collection_end, pact_request, pacts_end, pacts_next, pacts_start, provider_values,
    CollectionView, PactView, PactsFetchView, PactsStepView,
};

verus! {

/// The step that hands out the request of a navigation, if there is one, and
/// remembers its path.
pub open spec fn hands_out(
    step: NavigateStepView,
    client: ClientView,
    link: Seq<char>,
    values: Map<Seq<char>, Seq<char>>,
    request: Result<RequestView, ErrorView>,
) -> bool {
    match step {
        NavigateStepView::Send(navigation, sent) => {
            &&& request == Ok::<RequestView, ErrorView>(sent)
            &&& navigation.client == client
            &&& navigation.link == link
            &&& navigation.values == values
            &&& navigation.path == sent.path
        },
        NavigateStepView::Done(end) => end is Err && request == Err::<RequestView, ErrorView>(
            end->Err_0,
        ),
    }
}

/// A navigation starts with the root, if nothing was fetched before, and
/// otherwise with the link in what was fetched.
pub proof fn law_navigation_starts_at_the_root(
    client: ClientView,
    link: Seq<char>,
    values: Map<Seq<char>, Seq<char>>,
)
    ensures
        hands_out(
            navigation_start(client, link, values),
            client,
            link,
            values,
            if client.path_info is None {
                fetch_request(client.url, "/"@)
            } else {
                link_request(client, link, values)
            },
        ),
{
}

/// With the root a navigation goes on to the link, and with the resource of the
/// link it ends: the client then holds that very resource. A failure is its end.
pub proof fn law_navigation_goes_on_to_the_link(navigation: NavigationView, reply: ReplyView)
    ensures
        match reply_meaning(navigation.client.url, navigation.path, reply) {
            Err(err) => navigation_next(navigation, reply) == NavigateStepView::Done(Err(err)),
            Ok(resource) => {
                let client = ClientView {
                    url: navigation.client.url,
                    path_info: Some(resource),
                };
                if navigation.client.path_info is Some {
                    navigation_next(navigation, reply) == NavigateStepView::Done(Ok(client))
                } else {
                    hands_out(
                        navigation_next(navigation, reply),
                        client,
                        navigation.link,
                        navigation.values,
                        link_request(client, navigation.link, navigation.values),
                    )
                }
            },
        },
{
}

/// A client that has fetched nothing gets from the root along the link to the
/// resource there, and then holds that very resource.
pub proof fn law_navigation_reaches_the_resource(
    url: Seq<char>,
    link: Seq<char>,
    values: Map<Seq<char>, Seq<char>>,
    replies: spec_fn(nat, RequestView) -> ReplyView,
    first: RequestView,
    root: JsonView,
    second: RequestView,
    resource: JsonView,
)
    requires
        fetch_request(url, "/"@) == Ok::<RequestView, ErrorView>(first),
        reply_meaning(url, "/"@, replies(0, first)) == Ok::<JsonView, ErrorView>(root),
        link_request(ClientView { url, path_info: Some(root) }, link, values) == Ok::<
            RequestView,
            ErrorView,
        >(second),
        reply_meaning(url, second.path, replies(1, second)) == Ok::<JsonView, ErrorView>(resource),
    ensures
        navigation_end(
            navigation_start(ClientView { url, path_info: None }, link, values),
            replies,
        ) == Ok::<ClientView, ErrorView>(ClientView { url, path_info: Some(resource) }),
{
    reveal_with_fuel(navigation_end, 3);
}

/// The name of the provider is the value for the token `provider`, in full, and
/// there are no other values.
pub proof fn law_provider_is_the_only_value(provider: Seq<char>, key: Seq<char>)
    ensures
        provider_values(provider).contains_key(key) <==> key == "provider"@,
        provider_values(provider)["provider"@] == provider,
{
}

/// A pact is asked for as its link is followed; a link that gives no address is
/// written out in the failure.
pub proof fn law_pact_is_asked_for_along_its_link(
    url: Seq<char>,
    link: LinkView,
    values: Map<Seq<char>, Seq<char>>,
)
    ensures
        link.href is Some ==> pact_request(url, link, values) == url_request(url, link, values),
        link.href is None ==> pact_request(url, link, values) == Err::<RequestView, ErrorView>(
            ErrorView::LinkError(
                "Expected a HAL+JSON response from the pact broker, but got a link with no HREF. URL: '"@
                    + url + "', LINK: '"@ + link_debug_text(link) + "'"@,
            ),
        ),
{
}

/// What comes of a link: the pact, which is the very resource that was fetched
/// and comes from the address that the link gives, or the failure to fetch it.
pub open spec fn comes_of_link(
    link: LinkView,
    meaning: Result<JsonView, ErrorView>,
    result: Result<PactView, ErrorView>,
) -> bool {
    match meaning {
        Ok(json) => result matches Ok(pact) && link.href == Some(pact.source) && pact.json == json,
        Err(err) => result == Err::<PactView, ErrorView>(err),
    }
}

/// The results are those of the collection, and behind them, for each link that
/// cannot be asked for, the failure to ask for it.
pub open spec fn goes_on_with_failures(
    collection: CollectionView,
    results: Seq<Result<PactView, ErrorView>>,
) -> bool {
    &&& collection.results.len() <= results.len()
    &&& results.take(collection.results.len() as int) == collection.results
    &&& forall|k: int|
        collection.results.len() <= k < results.len() ==> {
            let request = pact_request(
                collection.client.url,
                collection.links[k],
                collection.values,
            );
            request is Err && #[trigger] results[k] == Err::<PactView, ErrorView>(request->Err_0)
        }
}

/// A collection goes on with the first link without a result that can be asked
/// for, and passes over none: each link before it has the failure to ask for it
/// as its result. It ends when every link has a result.
pub proof fn law_first_link_without_a_result_comes_next(collection: CollectionView)
    ensures
        match collection_step(collection) {
            PactsStepView::Send(PactsFetchView::Collecting(next), request) => {
                &&& next.client == collection.client
                &&& next.values == collection.values
                &&& next.links == collection.links
                &&& next.path == request.path
                &&& next.results.len() < next.links.len()
                &&& pact_request(
                    next.client.url,
                    next.links[next.results.len() as int],
                    next.values,
                ) == Ok::<RequestView, ErrorView>(request)
                &&& goes_on_with_failures(collection, next.results)
            },
            PactsStepView::Done(Ok(results)) => {
                &&& results.len() == collection.links.len() || results == collection.results
                &&& results.len() >= collection.links.len()
                &&& goes_on_with_failures(collection, results)
            },
            _ => false,
        },
    decreases collection.links.len() - collection.results.len(),
{
    let n = collection.results.len() as int;
    assert(collection.results.take(n) =~= collection.results);
    if n < collection.links.len() {
        if let Err(err) = pact_request(
            collection.client.url,
            collection.links[n],
            collection.values,
        ) {
            let longer = CollectionView {
                results: collection.results.push(Err(err)),
                ..collection
            };
            law_first_link_without_a_result_comes_next(longer);
            match collection_step(longer) {
                PactsStepView::Send(PactsFetchView::Collecting(next), _) => {
                    lemma_one_failure_more(collection, err, next.results);
                },
                PactsStepView::Done(Ok(results)) => {
                    lemma_one_failure_more(collection, err, results);
                },
                _ => {},
            }
        }
    }
}

proof fn lemma_one_failure_more(
    collection: CollectionView,
    err: ErrorView,
    results: Seq<Result<PactView, ErrorView>>,
)
    requires
        collection.results.len() < collection.links.len(),
        pact_request(
            collection.client.url,
            collection.links[collection.results.len() as int],
            collection.values,
        ) == Err::<RequestView, ErrorView>(err),
        goes_on_with_failures(
            CollectionView { results: collection.results.push(Err(err)), ..collection },
            results,
        ),
    ensures
        goes_on_with_failures(collection, results),
{
    let n = collection.results.len() as int;
    let longer = collection.results.push(Err(err));
    assert(results.take(n + 1) == longer);
    assert forall|k: int| 0 <= k <= n implies #[trigger] results[k] == longer[k] by {
        assert(results.take(n + 1)[k] == results[k]);
    }
    assert(results.take(n) =~= collection.results);
}

/// A reply to the request for a link becomes the result for that link, behind
/// the results so far, and the collection goes on from there.
pub proof fn law_reply_becomes_the_result_for_its_link(
    collection: CollectionView,
    reply: ReplyView,
    result: Result<PactView, ErrorView>,
)
    requires
        collection.well_formed(),
        comes_of_link(
            collection.links[collection.results.len() as int],
            reply_meaning(collection.client.url, collection.path, reply),
            result,
        ),
    ensures
        collection_next(collection, reply) == collection_step(
            CollectionView { results: collection.results.push(result), ..collection },
        ),
        pacts_next(PactsFetchView::Collecting(collection), reply) == collection_next(
            collection,
            reply,
        ),
        match collection_next(collection, reply) {
            PactsStepView::Send(PactsFetchView::Collecting(next), _) => collection.results.len()
                < next.results.len() && next.results[collection.results.len() as int] == result,
            PactsStepView::Done(Ok(results)) => collection.results.len() < results.len()
                && results[collection.results.len() as int] == result,
            _ => false,
        },
{
    let n = collection.results.len() as int;
    let longer = CollectionView { results: collection.results.push(result), ..collection };
    assert(collection_next(collection, reply) == collection_step(longer));
    law_first_link_without_a_result_comes_next(longer);
    assert(longer.results[n] == result);
    match collection_step(longer) {
        PactsStepView::Send(PactsFetchView::Collecting(next), _) => {
            assert(next.results.take(n + 1)[n] == next.results[n]);
        },
        PactsStepView::Done(Ok(results)) => {
            assert(results.take(n + 1)[n] == results[n]);
        },
        _ => {},
    }
}

/// A collection waits for a reply while there is a link without a result, and
/// the first such link gives an address.
pub proof fn law_collection_waits_for_a_link_with_an_address(collection: CollectionView)
    ensures
        collection.well_formed() <==> collection.results.len() < collection.links.len()
            && collection.links[collection.results.len() as int].href is Some,
{
}

/// Each link without a result gets its own at its position: what the reply to
/// the request for it means, or the failure to ask for it. The results so far
/// stay.
pub proof fn law_each_link_gets_what_comes_of_it(
    collection: CollectionView,
    replies: spec_fn(nat, RequestView) -> ReplyView,
    i: int,
)
    requires
        collection.results.len() <= i < collection.links.len(),
    ensures
        pacts_end(collection_step(collection), replies) matches Ok(results) && {
            let url = collection.client.url;
            &&& results.len() == collection.links.len()
            &&& results.take(collection.results.len() as int) == collection.results
            &&& match pact_request(url, collection.links[i], collection.values) {
                Err(err) => results[i] == Err::<PactView, ErrorView>(err),
                Ok(request) => comes_of_link(
                    collection.links[i],
                    reply_meaning(url, request.path, replies((i + 2) as nat, request)),
                    results[i],
                ),
            }
        },
{
    lemma_collection_end(collection, replies);
    let n = collection.results.len() as int;
    let results = pacts_end(collection_step(collection), replies)->Ok_0;
    assert(results.take(n) =~= collection.results);
    assert(n + (i - n) == i);
}

/// A fetch starts with the root of the broker that is named, looks for the latest
/// pacts of providers, and has the name of the provider for the token.
pub proof fn law_fetch_starts_at_the_root(url: Seq<char>, provider: Seq<char>)
    ensures
        match fetch_request(url, "/"@) {
            Ok(request) => pacts_start(url, provider) == PactsStepView::Send(
                PactsFetchView::Navigating(
                    NavigationView {
                        client: ClientView { url, path_info: None },
                        link: "pb:latest-provider-pacts"@,
                        values: provider_values(provider),
                        path: "/"@,
                    },
                    provider,
                ),
                request,
            ),
            Err(err) => pacts_start(url, provider) == PactsStepView::Done(Err(err)),
        },
{
}

/// What a fetch makes of a reply on the way to the list. With the root it goes on
/// to the link, and with the list to the pacts that are listed, from the first
/// on. A failure is its end, and if the broker does not know the resource, this
/// says that there are no pacts for the provider.
pub proof fn law_fetch_goes_on_to_the_listed_pacts(
    navigation: NavigationView,
    provider: Seq<char>,
    reply: ReplyView,
)
    ensures
        ({
            let url = navigation.client.url;
            let next = pacts_next(PactsFetchView::Navigating(navigation, provider), reply);
            match reply_meaning(url, navigation.path, reply) {
                Err(ErrorView::NotFound(_)) => next == PactsStepView::Done(
                    Err(
                        ErrorView::NotFound(
                            "No pacts for provider '"@ + provider
                                + "' where found in the pact broker. URL: '"@ + url + "'"@,
                        ),
                    ),
                ),
                Err(err) => next == PactsStepView::Done(Err(err)),
                Ok(resource) => {
                    let client = ClientView { url, path_info: Some(resource) };
                    if navigation.client.path_info is None {
                        match link_request(client, navigation.link, navigation.values) {
                            Err(err) => next == PactsStepView::Done(Err(err)),
                            Ok(request) => next == PactsStepView::Send(
                                PactsFetchView::Navigating(
                                    NavigationView {
                                        client,
                                        link: navigation.link,
                                        values: navigation.values,
                                        path: request.path,
                                    },
                                    provider,
                                ),
                                request,
                            ),
                        }
                    } else {
                        match found_links(client, "pacts"@) {
                            Err(err) => next == PactsStepView::Done(Err(err)),
                            Ok(links) => next == collection_step(
                                CollectionView {
                                    client,
                                    values: provider_values(provider),
                                    links,
                                    path: ""@,
                                    results: seq![],
                                },
                            ),
                        }
                    }
                },
            }
        }),
{
}

/// A fetch gives one result for each link in the list of the pacts of the
/// provider, at the position of the link. Where the broker answers the request
/// for the link with a resource, the result is a pact: that very resource, from
/// the address that the link gives. Otherwise it is the failure for this link.
pub proof fn law_fetch_gives_the_pact_of_each_link(
    url: Seq<char>,
    provider: Seq<char>,
    replies: spec_fn(nat, RequestView) -> ReplyView,
    first: RequestView,
    root: JsonView,
    second: RequestView,
    list: JsonView,
    links: Seq<LinkView>,
    i: int,
)
    requires
        fetch_request(url, "/"@) == Ok::<RequestView, ErrorView>(first),
        reply_meaning(url, "/"@, replies(0, first)) == Ok::<JsonView, ErrorView>(root),
        link_request(
            ClientView { url, path_info: Some(root) },
            "pb:latest-provider-pacts"@,
            map!["provider"@ => provider],
        ) == Ok::<RequestView, ErrorView>(second),
        reply_meaning(url, second.path, replies(1, second)) == Ok::<JsonView, ErrorView>(list),
        found_links(ClientView { url, path_info: Some(list) }, "pacts"@) == Ok::<
            Seq<LinkView>,
            ErrorView,
        >(links),
    ensures
        pacts_end(pacts_start(url, provider), replies) matches Ok(results) && {
            &&& results.len() == links.len()
            &&& 0 <= i < links.len() ==> match pact_request(
                url,
                links[i],
                map!["provider"@ => provider],
            ) {
                Err(err) => results[i] == Err::<PactView, ErrorView>(err),
                Ok(request) => comes_of_link(
                    links[i],
                    reply_meaning(url, request.path, replies((i + 2) as nat, request)),
                    results[i],
                ),
            }
        },
{
    assert(map!["provider"@ => provider] =~= provider_values(provider));
    law_fetch_brings_a_result_for_each_link(url, provider, replies);
}

} // verus!
