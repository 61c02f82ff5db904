//! Fetching the pacts of a provider.
//!
//! As in navigating, each step either hands out a request or is the end.
use vstd::prelude::*;

use crate::client::{
    broker_request, found_links, leads_to_address, link_address, link_leads_to_address,
    link_models, lists_plain_links, plain_failure, plain_missing_link, plain_request,
    reply_meaning, url_request, BrokerRequest, ClientView, HALClient, Reply, ReplyView,
    RequestView,
};
use crate::error::{
    no_href, no_href_error, no_pacts, no_pacts_error, outcome, ErrorView, PactBrokerError,
};
use crate::json::{Json, JsonView};
use crate::link::{is_plain_link, link_debug_text, plain_link_debug_text, Link, LinkView};
use crate::navigate::{
    fetched, holding, law_navigation_follows_the_link, navigated, navigation_end,
    navigation_moment, navigation_next, navigation_start, replies_left, NavigateStep,
    NavigateStepView, Navigation, NavigationView,
};
use crate::template::TemplateValues;
use crate::uri::{host_address, is_broker_at, MAX_ADDRESS};

verus! {

/// A pact as the broker holds it.
#[derive(Debug)]
pub struct PactDocument {
    /// The address that the link to the pact gives.
    pub source: String,
    /// The pact.
    pub json: Json,
}

/// The model of a pact.
pub struct PactView {
    pub source: Seq<char>,
    pub json: JsonView,
}

impl View for PactDocument {
    type V = PactView;

    open spec fn view(&self) -> PactView {
        PactView { source: self.source@, json: self.json@ }
    }
}

/// The models of the results for the links.
pub open spec fn result_models(results: Seq<Result<PactDocument, PactBrokerError>>) -> Seq<
    Result<PactView, ErrorView>,
> {
    results.map_values(|r: Result<PactDocument, PactBrokerError>| outcome(r))
}

/// The pacts while they are collected: there is a result for each of the first
/// links, and the request for the next one was handed out.
pub struct Collection {
    pub client: HALClient,
    /// The values for the tokens in the addresses of the links.
    pub values: TemplateValues,
    /// The links to the pacts.
    pub links: Vec<Link>,
    /// The path that was asked for.
    pub path: String,
    pub results: Vec<Result<PactDocument, PactBrokerError>>,
}

/// The model of a collection.
pub struct CollectionView {
    pub client: ClientView,
    pub values: Map<Seq<char>, Seq<char>>,
    pub links: Seq<LinkView>,
    pub path: Seq<char>,
    pub results: Seq<Result<PactView, ErrorView>>,
}

impl View for Collection {
    type V = CollectionView;

    open spec fn view(&self) -> CollectionView {
        CollectionView {
            client: self.client@,
            values: self.values@,
            links: link_models(self.links@),
            path: self.path@,
            results: result_models(self.results@),
        }
    }
}

impl CollectionView {
    /// There is a link without a result, and the first such link has an address.
    pub open spec fn well_formed(self) -> bool {
        self.results.len() < self.links.len() && self.links[self.results.len() as int].href is Some
    }
}

/// A fetch of pacts that waits for a reply.
pub enum PactsFetch {
    /// On the way to the list of the pacts of the provider.
    Navigating(Navigation, String),
    /// Fetching the pacts of the list.
    Collecting(Collection),
}

/// The model of a fetch of pacts.
pub enum PactsFetchView {
    Navigating(NavigationView, Seq<char>),
    Collecting(CollectionView),
}

impl View for PactsFetch {
    type V = PactsFetchView;

    open spec fn view(&self) -> PactsFetchView {
        match *self {
            PactsFetch::Navigating(navigation, provider) => PactsFetchView::Navigating(
                navigation@,
                provider@,
            ),
            PactsFetch::Collecting(collection) => PactsFetchView::Collecting(collection@),
        }
    }
}

impl PactsFetchView {
    /// A collection in progress is well-formed.
    pub open spec fn well_formed(self) -> bool {
        self matches PactsFetchView::Collecting(collection) ==> collection.well_formed()
    }
}

/// A step of a fetch of pacts.
pub enum PactsStep {
    /// Send the request, and resume the fetch with the reply.
    Send(PactsFetch, BrokerRequest),
    /// The pacts, or why one could not be had, in the order of the links; or
    /// why there are no links.
    Done(Result<Vec<Result<PactDocument, PactBrokerError>>, PactBrokerError>),
}

/// The model of a step.
pub enum PactsStepView {
    Send(PactsFetchView, RequestView),
    Done(Result<Seq<Result<PactView, ErrorView>>, ErrorView>),
}

impl View for PactsStep {
    type V = PactsStepView;

    open spec fn view(&self) -> PactsStepView {
        match *self {
            PactsStep::Send(fetch, request) => PactsStepView::Send(fetch@, request@),
            PactsStep::Done(Ok(results)) => PactsStepView::Done(Ok(result_models(results@))),
            PactsStep::Done(Err(err)) => PactsStepView::Done(Err(err@)),
        }
    }
}

impl PactsStepView {
    /// A fetch that goes on is well-formed.
    pub open spec fn well_formed(self) -> bool {
        self matches PactsStepView::Send(fetch, _) ==> fetch.well_formed()
    }
}

/// The values for the tokens: the name of the provider.
pub open spec fn provider_values(provider: Seq<char>) -> Map<Seq<char>, Seq<char>> {
    Map::<Seq<char>, Seq<char>>::empty().insert("provider"@, provider)
}

/// The request for the pact that a link leads to.
pub open spec fn pact_request(
    url: Seq<char>,
    link: LinkView,
    values: Map<Seq<char>, Seq<char>>,
) -> Result<RequestView, ErrorView> {
    if link.href is None {
        Err(no_href_error(url, link_debug_text(link)))
    } else {
        url_request(url, link, values)
    }
}

/// The pact that a link leads to, where `fetched` is the resource.
pub open spec fn pact_of(link: LinkView, fetched: Result<JsonView, ErrorView>) -> Result<
    PactView,
    ErrorView,
> {
    match fetched {
        Ok(json) => Ok(PactView { source: link.href->0, json }),
        Err(err) => Err(err),
    }
}

/// The collection with one result more.
pub open spec fn with_result(
    collection: CollectionView,
    result: Result<PactView, ErrorView>,
) -> CollectionView {
    CollectionView { results: collection.results.push(result), ..collection }
}

/// The results behind those of the collection tell which links have no address,
/// as far as their names are plain text.
pub open spec fn tells_missing_addresses(
    collection: CollectionView,
    results: Seq<Result<PactView, ErrorView>>,
) -> bool {
    forall|i: int|
        collection.results.len() <= i < results.len() && i < collection.links.len()
            && collection.links[i].href is None && is_plain_link(collection.links[i])
            ==> #[trigger] results[i] == Err::<PactView, ErrorView>(
            no_href_error(collection.client.url, plain_link_debug_text(collection.links[i])),
        )
}

/// The next step of a collection: the request for the first link without a
/// result for which there can be one; a link for which there can be none gets
/// the failure as its result.
pub open spec fn collection_step(collection: CollectionView) -> PactsStepView
    decreases collection.links.len() - collection.results.len(),
{
    if collection.results.len() >= collection.links.len() {
        PactsStepView::Done(Ok(collection.results))
    } else {
        match pact_request(
            collection.client.url,
            collection.links[collection.results.len() as int],
            collection.values,
        ) {
            Ok(request) => PactsStepView::Send(
                PactsFetchView::Collecting(CollectionView { path: request.path, ..collection }),
                request,
            ),
            Err(err) => collection_step(with_result(collection, Err(err))),
        }
    }
}

/// The request for the pact that a link leads to goes where the address of the
/// link says.
pub open spec fn pact_leads_to_address(
    url: Seq<char>,
    link: LinkView,
    values: Map<Seq<char>, Seq<char>>,
) -> bool {
    link.href is Some ==> (link_address(url, link, values) matches Ok(address) ==> leads_to_address(
        url,
        address,
        pact_request(url, link, values),
    ))
}

/// The request for each link from the end of the results of `collection` up to
/// the position `last` goes where its address says.
pub open spec fn requests_lead_to_addresses(collection: CollectionView, last: int) -> bool {
    forall|i: int|
        collection.results.len() <= i <= last && i < collection.links.len()
            ==> pact_leads_to_address(
            collection.client.url,
            #[trigger] collection.links[i],
            collection.values,
        )
}

/// What is known of the step behind `collection`, of all links that it comes to:
/// the requests for them go where their addresses say, a request that is handed
/// out among them, and the results tell which links have no address.
pub open spec fn follows_links(collection: CollectionView, step: PactsStepView) -> bool {
    &&& requests_lead_to_addresses(collection, collection.results.len() as int)
    &&& match step {
        PactsStepView::Done(Ok(results)) => {
            &&& requests_lead_to_addresses(collection, collection.links.len() as int)
            &&& tells_missing_addresses(collection, results)
        },
        PactsStepView::Send(PactsFetchView::Collecting(next), request) => {
            &&& requests_lead_to_addresses(collection, next.results.len() as int)
            &&& tells_missing_addresses(collection, next.results)
            &&& link_address(
                next.client.url,
                next.links[next.results.len() as int],
                next.values,
            ) matches Ok(address) ==> leads_to_address(
                next.client.url,
                address,
                plain_request(request),
            )
        },
        _ => true,
    }
}

/// The collection with the result that a reply means.
pub open spec fn answered(collection: CollectionView, reply: ReplyView) -> CollectionView {
    with_result(
        collection,
        pact_of(
            collection.links[collection.results.len() as int],
            reply_meaning(collection.client.url, collection.path, reply),
        ),
    )
}

/// The step of a collection after a reply.
pub open spec fn collection_next(collection: CollectionView, reply: ReplyView) -> PactsStepView {
    collection_step(answered(collection, reply))
}

/// The failure of a navigation, as told to who asked for the pacts: whatever
/// the broker does not know on the way, there are no pacts.
pub open spec fn navigation_failure(
    err: ErrorView,
    provider: Seq<char>,
    url: Seq<char>,
) -> ErrorView {
    match err {
        ErrorView::NotFound(_) => no_pacts_error(provider, url),
        _ => err,
    }
}

/// A collection of the pacts of `links` without any results.
pub open spec fn new_collection(
    client: ClientView,
    provider: Seq<char>,
    links: Seq<LinkView>,
) -> CollectionView {
    CollectionView {
        client,
        values: provider_values(provider),
        links,
        path: ""@,
        results: seq![],
    }
}

/// The start of a collection: of all links that the resource lists as pacts.
pub open spec fn collection_start(client: ClientView, provider: Seq<char>) -> PactsStepView {
    match found_links(client, "pacts"@) {
        Err(err) => PactsStepView::Done(Err(err)),
        Ok(links) => collection_step(new_collection(client, provider, links)),
    }
}

/// What is known of the step by which a collection starts: which links it
/// follows, or which links there are instead of a list of pacts.
pub open spec fn starts_with_links(
    client: ClientView,
    provider: Seq<char>,
    step: PactsStepView,
) -> bool {
    &&& lists_plain_links(client, "pacts"@)
    &&& plain_missing_link(client, "pacts"@) matches Some(err) ==> step == PactsStepView::Done(
        Err(err),
    )
    &&& found_links(client, "pacts"@) matches Ok(links) ==> follows_links(
        new_collection(client, provider, links),
        step,
    )
}

/// What is known of the step of a fetch of pacts after the reply `reply` to a
/// navigation: behind the root, which link it follows, and behind that link,
/// which links of the list.
pub open spec fn navigation_leads_on(
    navigation: NavigationView,
    provider: Seq<char>,
    reply: ReplyView,
    step: PactsStepView,
) -> bool {
    reply_meaning(navigation.client.url, navigation.path, reply) matches Ok(resource) ==> {
        let client = holding(navigation.client, resource);
        if navigation.client.path_info is None {
            &&& link_leads_to_address(client, navigation.link, navigation.values)
            &&& plain_missing_link(client, navigation.link) matches Some(err) ==> step
                == PactsStepView::Done(Err(err))
        } else {
            starts_with_links(client, provider, step)
        }
    }
}

/// The step of a fetch of pacts that a step of the navigation amounts to.
pub open spec fn after_navigation(
    step: NavigateStepView,
    provider: Seq<char>,
    url: Seq<char>,
) -> PactsStepView {
    match step {
        NavigateStepView::Send(navigation, request) => PactsStepView::Send(
            PactsFetchView::Navigating(navigation, provider),
            request,
        ),
        NavigateStepView::Done(Err(err)) => PactsStepView::Done(
            Err(navigation_failure(err, provider, url)),
        ),
        NavigateStepView::Done(Ok(client)) => collection_start(client, provider),
    }
}

/// The first step of a fetch of pacts.
pub open spec fn pacts_start(url: Seq<char>, provider: Seq<char>) -> PactsStepView {
    after_navigation(
        navigation_start(
            ClientView { url, path_info: None },
            "pb:latest-provider-pacts"@,
            provider_values(provider),
        ),
        provider,
        url,
    )
}

/// The step of a fetch of pacts after a reply.
pub open spec fn pacts_next(fetch: PactsFetchView, reply: ReplyView) -> PactsStepView {
    match fetch {
        PactsFetchView::Navigating(navigation, provider) => after_navigation(
            navigation_next(navigation, reply),
            provider,
            navigation.client.url,
        ),
        PactsFetchView::Collecting(collection) => collection_next(collection, reply),
    }
}

/// Goes on with a step of the navigation.
fn go_on(step: NavigateStep, provider: String, url: &str) -> (r: PactsStep)
    ensures
        r@ == after_navigation(step@, provider@, url@),
        r@.well_formed(),
        step@ matches NavigateStepView::Done(Ok(client)) ==> starts_with_links(
            client,
            provider@,
            r@,
        ),
{
    match step {
        NavigateStep::Send(navigation, request) => PactsStep::Send(
            PactsFetch::Navigating(navigation, provider),
            request,
        ),
        NavigateStep::Done(Err(err)) => match err {
            PactBrokerError::NotFound(_) => PactsStep::Done(Err(no_pacts(provider.as_str(), url))),
            _ => PactsStep::Done(Err(err)),
        },
        NavigateStep::Done(Ok(client)) => match client.iter_links("pacts".to_owned()) {
            Err(err) => PactsStep::Done(Err(err)),
            Ok(links) => {
                let collection = Collection {
                    client,
                    values: values_for(provider),
                    links,
                    path: "".to_owned(),
                    results: Vec::new(),
                };
                assert(collection@.results =~= seq![]);
                collection.advance()
            },
        },
    }
}

/// The values for the tokens: the name of the provider.
fn values_for(provider: String) -> (r: TemplateValues)
    ensures
        r@ == provider_values(provider@),
{
    let mut values = TemplateValues::new();
    values.insert("provider".to_owned(), provider);
    values
}

/// Starts to fetch the latest pacts of a provider from the broker at
/// `broker_url`, which the first request asks for its root.
pub fn fetch_pacts_from_broker(broker_url: String, provider_name: String) -> (r: PactsStep)
    ensures
        r@ == pacts_start(broker_url@, provider_name@),
        r@.well_formed(),
        forall|host: Seq<char>|
            #[trigger] is_broker_at(broker_url@, host) && broker_url@.len() < MAX_ADDRESS ==> (
            r@ matches PactsStepView::Send(_, request) && request.url == host_address(host, "/"@)),
{
    let url = broker_url.clone();
    let client = HALClient { url: broker_url, ..HALClient::default() };
    let step = client.navigate("pb:latest-provider-pacts", values_for(provider_name.clone()));
    go_on(step, provider_name, url.as_str())
}

impl PactsFetch {
    /// Goes on with the reply to the request that was handed out last.
    pub fn resume(self, reply: &Reply) -> (r: PactsStep)
        requires
            self@.well_formed(),
            reply@.well_formed(),
        ensures
            r@ == pacts_next(self@, reply@),
            match self@ {
                PactsFetchView::Navigating(navigation, provider) => plain_failure(
                    navigation.client.url,
                    navigation.path,
                    reply@,
                ) matches Some(err) ==> r@ == PactsStepView::Done(
                    Err(navigation_failure(err, provider, navigation.client.url)),
                ),
                PactsFetchView::Collecting(collection) => plain_failure(
                    collection.client.url,
                    collection.path,
                    reply@,
                ) matches Some(err) ==> r@ == collection_step(with_result(collection, Err(err))),
            },
            match self@ {
                PactsFetchView::Navigating(navigation, provider) => navigation_leads_on(
                    navigation,
                    provider,
                    reply@,
                    r@,
                ),
                PactsFetchView::Collecting(collection) => follows_links(
                    answered(collection, reply@),
                    r@,
                ),
            },
            r@.well_formed(),
    {
        match self {
            PactsFetch::Navigating(navigation, provider) => {
                let url = navigation.client.url.clone();
                go_on(navigation.resume(reply), provider, url.as_str())
            },
            PactsFetch::Collecting(collection) => collection.resume(reply),
        }
    }
}

impl Collection {
    /// The request for the pact that a link leads to.
    pub fn request(&self, link: &Link) -> (r: Result<BrokerRequest, PactBrokerError>)
        ensures
            outcome(r) == pact_request(self.client.url@, link@, self.values@),
            link.href is None && is_plain_link(link@) ==> outcome(r) == Err::<
                RequestView,
                ErrorView,
            >(no_href_error(self.client.url@, plain_link_debug_text(link@))),
            link.href is Some ==> (link_address(self.client.url@, link@, self.values@) matches Ok(
                address,
            ) ==> leads_to_address(self.client.url@, address, outcome(r))),
    {
        match link.href {
            Some(_) => self.client.fetch_url(link, &self.values),
            None => Err(no_href(self.client.url.as_str(), link.debug_text().as_str())),
        }
    }

    /// The next step: the request for the first link without a result for
    /// which there can be one.
    pub fn advance(self) -> (r: PactsStep)
        ensures
            r@ == collection_step(self@),
            r@.well_formed(),
            follows_links(self@, r@),
    {
        let mut collection = self;
        while collection.results.len() < collection.links.len()
            invariant
                collection_step(collection@) == collection_step(self@),
                collection@.links == self@.links,
                collection@.client == self@.client,
                collection@.values == self@.values,
                self@.results.len() <= collection@.results.len(),
                requests_lead_to_addresses(self@, collection@.results.len() - 1),
                tells_missing_addresses(self@, collection@.results),
            decreases collection.links.len() - collection.results.len(),
        {
            let n: usize = collection.results.len();
            assert(self@.links[n as int] == collection.links@[n as int]@);
            match collection.request(&collection.links[n]) {
                Ok(request) => {
                    collection.path = request.path.clone();
                    return PactsStep::Send(PactsFetch::Collecting(collection), request);
                },
                Err(err) => {
                    let ghost before = collection@;
                    let ghost failure = err@;
                    collection.results.push(Err(err));
                    assert(collection@.results =~= before.results.push(Err(failure)));
                },
            }
        }
        PactsStep::Done(Ok(collection.results))
    }

    /// Goes on with the reply to the request that was handed out last.
    pub fn resume(self, reply: &Reply) -> (r: PactsStep)
        requires
            self@.well_formed(),
            reply@.well_formed(),
        ensures
            r@ == collection_next(self@, reply@),
            plain_failure(self.client.url@, self.path@, reply@) matches Some(err) ==> r@
                == collection_step(with_result(self@, Err(err))),
            follows_links(answered(self@, reply@), r@),
            r@.well_formed(),
    {
        let mut collection = self;
        let n: usize = collection.results.len();
        assert(collection@.links[n as int] == collection.links@[n as int]@);
        let fetched = collection.client.receive(collection.path.as_str(), reply);
        let source = collection.links[n].href.as_ref().unwrap().clone();
        let result = match fetched {
            Ok(json) => Ok(PactDocument { source, json }),
            Err(err) => Err(err),
        };
        let ghost model = outcome(result);
        collection.results.push(result);
        assert(collection@.results =~= self@.results.push(model));
        collection.advance()
    }
}

/// What a fetch of pacts brings: the links to the pacts of the provider, and for
/// each of them what it leads to.
pub open spec fn pacts_fetched(
    url: Seq<char>,
    provider: Seq<char>,
    replies: spec_fn(nat, RequestView) -> ReplyView,
) -> Result<Seq<Result<PactView, ErrorView>>, ErrorView> {
    let values = provider_values(provider);
    match navigated(
        ClientView { url, path_info: None },
        "pb:latest-provider-pacts"@,
        values,
        replies,
    ) {
        Err(err) => Err(navigation_failure(err, provider, url)),
        Ok(client) => match found_links(client, "pacts"@) {
            Err(err) => Err(err),
            Ok(links) => Ok(pacts_of(url, links, 0, values, replies)),
        },
    }
}

/// What each of the links from the position `first` on leads to.
pub open spec fn pacts_of(
    url: Seq<char>,
    links: Seq<LinkView>,
    first: nat,
    values: Map<Seq<char>, Seq<char>>,
    replies: spec_fn(nat, RequestView) -> ReplyView,
) -> Seq<Result<PactView, ErrorView>> {
    Seq::new(
        (links.len() - first) as nat,
        |i: int|
            pact_of(
                links[first + i],
                fetched(
                    url,
                    pact_request(url, links[first + i], values),
                    link_moment((first + i) as nat),
                    replies,
                ),
            ),
    )
}

/// The moment of the request for the link at a position of the list: behind the
/// two of the navigation.
pub open spec fn link_moment(position: nat) -> nat {
    position + 2
}

/// The moment of the request that a fetch of pacts waits for.
pub open spec fn fetch_moment(fetch: PactsFetchView) -> nat {
    match fetch {
        PactsFetchView::Navigating(navigation, _) => navigation_moment(navigation),
        PactsFetchView::Collecting(collection) => link_moment(collection.results.len()),
    }
}

/// How far a step is from the end: while navigating, by the replies that the
/// navigation waits for.
pub open spec fn stages_left(step: PactsStepView) -> nat {
    match step {
        PactsStepView::Done(_) => 0,
        PactsStepView::Send(PactsFetchView::Collecting(_), _) => 1,
        PactsStepView::Send(PactsFetchView::Navigating(navigation, _), request) => 1
            + replies_left(NavigateStepView::Send(navigation, request)),
    }
}

/// How many links a collection has no result for.
pub open spec fn links_left(step: PactsStepView) -> nat {
    match step {
        PactsStepView::Send(PactsFetchView::Collecting(collection), _) => if collection.links.len()
            >= collection.results.len() {
            (collection.links.len() - collection.results.len()) as nat
        } else {
            0
        },
        _ => 0,
    }
}

/// The end of a fetch of pacts from `step` on, if `replies` tells the reply to
/// each request at each moment.
pub open spec fn pacts_end(
    step: PactsStepView,
    replies: spec_fn(nat, RequestView) -> ReplyView,
) -> Result<Seq<Result<PactView, ErrorView>>, ErrorView>
    decreases stages_left(step), links_left(step),
{
    match step {
        PactsStepView::Done(result) => result,
        PactsStepView::Send(fetch, request) => {
            proof {
                law_fetching_ends(fetch, request, replies(fetch_moment(fetch), request));
            }
            pacts_end(pacts_next(fetch, replies(fetch_moment(fetch), request)), replies)
        },
    }
}

/// A collection keeps its links and its client, and never loses a result.
proof fn lemma_collection_step(collection: CollectionView)
    ensures
        match collection_step(collection) {
            PactsStepView::Send(PactsFetchView::Collecting(next), request) => {
                &&& next.links == collection.links
                &&& next.client == collection.client
                &&& collection.results.len() <= next.results.len() < next.links.len()
                &&& request == broker_request(collection.client.url, request.path)
                &&& next.path == request.path
            },
            PactsStepView::Send(PactsFetchView::Navigating(_, _), _) => false,
            PactsStepView::Done(result) => result is Ok,
        },
    decreases collection.links.len() - collection.results.len(),
{
    if collection.results.len() < collection.links.len() {
        match pact_request(
            collection.client.url,
            collection.links[collection.results.len() as int],
            collection.values,
        ) {
            Ok(_) => {},
            Err(err) => {
                lemma_collection_step(with_result(collection, Err(err)));
            },
        }
    }
}

/// Each reply brings a fetch of pacts closer to its end: first the navigation
/// gets shorter, and then there are fewer links without a result.
pub proof fn law_fetching_ends(fetch: PactsFetchView, request: RequestView, reply: ReplyView)
    ensures
        ({
            let now = PactsStepView::Send(fetch, request);
            let next = pacts_next(fetch, reply);
            stages_left(next) < stages_left(now) || (stages_left(next) == stages_left(now)
                && links_left(next) < links_left(now))
        }),
{
    match fetch {
        PactsFetchView::Navigating(navigation, provider) => {
            if let NavigateStepView::Done(Ok(client)) = navigation_next(navigation, reply) {
                if let Ok(links) = found_links(client, "pacts"@) {
                    lemma_collection_step(new_collection(client, provider, links));
                }
            }
        },
        PactsFetchView::Collecting(collection) => {
            lemma_collection_step(answered(collection, reply));
        },
    }
}

/// A collection ends with the results that it has, and what each of the other
/// links leads to.
pub(crate) proof fn lemma_collection_end(
    collection: CollectionView,
    replies: spec_fn(nat, RequestView) -> ReplyView,
)
    requires
        collection.results.len() <= collection.links.len(),
    ensures
        pacts_end(collection_step(collection), replies) == Ok::<
            Seq<Result<PactView, ErrorView>>,
            ErrorView,
        >(
            collection.results + pacts_of(
                collection.client.url,
                collection.links,
                collection.results.len(),
                collection.values,
                replies,
            ),
        ),
    decreases collection.links.len() - collection.results.len(),
{
    let url = collection.client.url;
    let n = collection.results.len();
    let rest = pacts_of(url, collection.links, n, collection.values, replies);
    if n == collection.links.len() {
        assert(collection.results + rest =~= collection.results);
    } else {
        let link = collection.links[n as int];
        let request = pact_request(url, link, collection.values);
        let result = pact_of(link, fetched(url, request, link_moment(n), replies));
        let shorter = pacts_of(url, collection.links, n + 1, collection.values, replies);
        assert(collection.results + rest =~= collection.results.push(result) + shorter);
        match request {
            Ok(sent) => {
                let waiting = CollectionView { path: sent.path, ..collection };
                lemma_collection_end(with_result(waiting, result), replies);
            },
            Err(err) => {
                lemma_collection_end(with_result(collection, Err(err)), replies);
            },
        }
    }
}

/// Step by step a fetch of pacts brings what the broker holds: it navigates to
/// the latest pacts of the provider, and gives one result for each link in the
/// list there, in the order of the list, whether or not the others fail. If
/// the broker does not know a resource on the way to the list, the failure
/// says that there are no pacts for the provider.
pub proof fn law_fetch_brings_a_result_for_each_link(
    url: Seq<char>,
    provider: Seq<char>,
    replies: spec_fn(nat, RequestView) -> ReplyView,
)
    ensures
        pacts_end(pacts_start(url, provider), replies) == pacts_fetched(url, provider, replies),
{
    let client = ClientView { url, path_info: None };
    let step = navigation_start(
        client,
        "pb:latest-provider-pacts"@,
        provider_values(provider),
    );
    law_navigation_follows_the_link(
        client,
        "pb:latest-provider-pacts"@,
        provider_values(provider),
        replies,
    );
    lemma_after_navigation(step, provider, url, replies);
}

/// A fetch of pacts ends as its navigation does, if this fails, and otherwise as
/// the collection behind it.
proof fn lemma_after_navigation(
    step: NavigateStepView,
    provider: Seq<char>,
    url: Seq<char>,
    replies: spec_fn(nat, RequestView) -> ReplyView,
)
    requires
        step matches NavigateStepView::Send(navigation, _) ==> navigation.client.url == url,
        step matches NavigateStepView::Done(Ok(client)) ==> client.url == url,
    ensures
        pacts_end(after_navigation(step, provider, url), replies) == match navigation_end(
            step,
            replies,
        ) {
            Err(err) => Err(navigation_failure(err, provider, url)),
            Ok(client) => match found_links(client, "pacts"@) {
                Err(err) => Err(err),
                Ok(links) => Ok(pacts_of(url, links, 0, provider_values(provider), replies)),
            },
        },
    decreases replies_left(step),
{
    match step {
        NavigateStepView::Send(navigation, request) => {
            let moment = navigation_moment(navigation);
            let next = navigation_next(navigation, replies(moment, request));
            lemma_after_navigation(next, provider, url, replies);
        },
        NavigateStepView::Done(Ok(client)) => {
            if let Ok(links) = found_links(client, "pacts"@) {
                let results: Seq<Result<PactView, ErrorView>> = seq![];
                lemma_collection_end(
                    CollectionView {
                        client,
                        values: provider_values(provider),
                        links,
                        path: ""@,
                        results,
                    },
                    replies,
                );
                let pacts = pacts_of(url, links, 0, provider_values(provider), replies);
                assert(results + pacts =~= pacts);
            }
        },
        NavigateStepView::Done(Err(_)) => {},
    }
}

/// The address of the broker that a fetch of pacts is about.
pub open spec fn broker_of(fetch: PactsFetchView) -> Seq<char> {
    match fetch {
        PactsFetchView::Navigating(navigation, _) => navigation.client.url,
        PactsFetchView::Collecting(collection) => collection.client.url,
    }
}

/// Every request goes to the broker that was named at the start, whatever
/// hosts its links name, and asks for HAL or JSON.
pub proof fn law_requests_go_to_the_broker(
    url: Seq<char>,
    provider: Seq<char>,
    fetch: PactsFetchView,
    reply: ReplyView,
)
    ensures
        pacts_start(url, provider) matches PactsStepView::Send(first, request) ==> broker_of(first)
            == url && request == broker_request(url, request.path),
        pacts_next(fetch, reply) matches PactsStepView::Send(next, request) ==> broker_of(next)
            == broker_of(fetch) && request == broker_request(broker_of(fetch), request.path),
{
    match fetch {
        PactsFetchView::Navigating(navigation, provider) => {
            if let NavigateStepView::Done(Ok(client)) = navigation_next(navigation, reply) {
                if let Ok(links) = found_links(client, "pacts"@) {
                    lemma_collection_step(new_collection(client, provider, links));
                }
            }
        },
        PactsFetchView::Collecting(collection) => {
            lemma_collection_step(answered(collection, reply));
        },
    }
}

} // verus!
