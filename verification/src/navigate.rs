//! Navigating: from the root of the broker along a link.
//!
//! The client sends nothing itself. Each step either hands out a request, and
//! goes on with the reply to it, or is the end.
use vstd::prelude::*;

use crate::client::{
    fetch_request, link_leads_to_address, link_request, plain_failure, plain_missing_link,
    reply_meaning, BrokerRequest, ClientView, HALClient, Reply, ReplyView, RequestView,
};
use crate::error::{outcome, ErrorView, PactBrokerError};
use crate::json::JsonView;
use crate::template::TemplateValues;
use crate::text::joined_paths;
use crate::uri::{host_address, is_broker_at, is_rooted_path, lemma_path_at_broker, MAX_ADDRESS};

verus! {

/// A navigation that waits for a reply. It waits for the root of the broker as
/// long as the client has fetched no resource, and then for that of the link.
pub struct Navigation {
    pub client: HALClient,
    /// The link to follow.
    pub link: String,
    /// The values for the tokens in its address.
    pub values: TemplateValues,
    /// The path that was asked for.
    pub path: String,
}

/// A step of a navigation.
pub enum NavigateStep {
    /// Send the request, and resume the navigation with the reply.
    Send(Navigation, BrokerRequest),
    /// The client with the resource of the link, or the failure.
    Done(Result<HALClient, PactBrokerError>),
}

/// The model of a navigation.
pub struct NavigationView {
    pub client: ClientView,
    pub link: Seq<char>,
    pub values: Map<Seq<char>, Seq<char>>,
    pub path: Seq<char>,
}

/// The model of a step.
pub enum NavigateStepView {
    Send(NavigationView, RequestView),
    Done(Result<ClientView, ErrorView>),
}

impl View for Navigation {
    type V = NavigationView;

    open spec fn view(&self) -> NavigationView {
        NavigationView {
            client: self.client@,
            link: self.link@,
            values: self.values@,
            path: self.path@,
        }
    }
}

impl View for NavigateStep {
    type V = NavigateStepView;

    open spec fn view(&self) -> NavigateStepView {
        match *self {
            NavigateStep::Send(navigation, request) => NavigateStepView::Send(
                navigation@,
                request@,
            ),
            NavigateStep::Done(result) => NavigateStepView::Done(outcome(result)),
        }
    }
}

/// The step that asks for `request`.
pub open spec fn navigation_step(
    client: ClientView,
    link: Seq<char>,
    values: Map<Seq<char>, Seq<char>>,
    request: Result<RequestView, ErrorView>,
) -> NavigateStepView {
    match request {
        Ok(request) => NavigateStepView::Send(
            NavigationView { client, link, values, path: request.path },
            request,
        ),
        Err(err) => NavigateStepView::Done(Err(err)),
    }
}

/// The first step: ask for the root if the client has fetched no resource, and
/// otherwise for the link.
pub open spec fn navigation_start(
    client: ClientView,
    link: Seq<char>,
    values: Map<Seq<char>, Seq<char>>,
) -> NavigateStepView {
    if client.path_info is None {
        navigation_step(client, link, values, fetch_request(client.url, "/"@))
    } else {
        navigation_step(client, link, values, link_request(client, link, values))
    }
}

/// The client with another resource.
pub open spec fn holding(client: ClientView, resource: JsonView) -> ClientView {
    ClientView { url: client.url, path_info: Some(resource) }
}

/// The step after a reply: behind the root comes the link, and behind the link
/// the end.
pub open spec fn navigation_next(navigation: NavigationView, reply: ReplyView) -> NavigateStepView {
    match reply_meaning(navigation.client.url, navigation.path, reply) {
        Err(err) => NavigateStepView::Done(Err(err)),
        Ok(resource) => {
            let client = holding(navigation.client, resource);
            if navigation.client.path_info is None {
                navigation_step(
                    client,
                    navigation.link,
                    navigation.values,
                    link_request(client, navigation.link, navigation.values),
                )
            } else {
                NavigateStepView::Done(Ok(client))
            }
        },
    }
}

/// The step that asks for `request`.
fn step(
    client: HALClient,
    link: String,
    values: TemplateValues,
    request: Result<BrokerRequest, PactBrokerError>,
) -> (r: NavigateStep)
    ensures
        r@ == navigation_step(client@, link@, values@, outcome(request)),
{
    match request {
        Ok(request) => NavigateStep::Send(
            Navigation { client, link, values, path: request.path.clone() },
            request,
        ),
        Err(err) => NavigateStep::Done(Err(err)),
    }
}

impl HALClient {
    /// Starts to navigate along the link `link`, from the root of the broker
    /// if no resource was fetched before. At a broker with a plain address the
    /// root can always be asked for.
    pub fn navigate(self, link: &str, values: TemplateValues) -> (r: NavigateStep)
        ensures
            r@ == navigation_start(self@, link@, values@),
            forall|host: Seq<char>|
                self@.path_info is None && #[trigger] is_broker_at(self.url@, host)
                    && self.url@.len() < MAX_ADDRESS ==> (r@ matches NavigateStepView::Send(
                    _,
                    request,
                ) && request.url == host_address(host, "/"@)),
            self@.path_info is Some ==> link_leads_to_address(self@, link@, values@),
            plain_missing_link(self@, link@) matches Some(err) ==> r@ == NavigateStepView::Done(
                Err(err),
            ),
    {
        proof {
            reveal_strlit("/");
            assert forall|host: Seq<char>| #[trigger] is_broker_at(self.url@, host) implies
                is_rooted_path("/"@) && joined_paths(self.url@, "/"@).len() <= self.url@.len()
                + 1 by {
                lemma_path_at_broker(self.url@, host, "/"@);
            }
        }
        let request = if self.path_info.is_none() {
            self.fetch("/")
        } else {
            self.fetch_link(link, &values)
        };
        step(self, link.to_owned(), values, request)
    }
}

impl Navigation {
    /// Goes on with the reply to the request that was handed out last.
    pub fn resume(self, reply: &Reply) -> (r: NavigateStep)
        requires
            reply@.well_formed(),
        ensures
            r@ == navigation_next(self@, reply@),
            plain_failure(self.client.url@, self.path@, reply@) matches Some(err) ==> r@
                == NavigateStepView::Done(Err(err)),
            reply_meaning(self.client.url@, self.path@, reply@) matches Ok(resource)
                ==> self@.client.path_info is None ==> link_leads_to_address(
                holding(self@.client, resource),
                self.link@,
                self.values@,
            ) && (plain_missing_link(holding(self@.client, resource), self.link@) matches Some(err)
                ==> r@ == NavigateStepView::Done(Err(err))),
            r matches NavigateStep::Done(Ok(client)) ==> (client@.path_info matches Some(resource)
                && resource.well_formed()),
    {
        match self.client.receive(self.path.as_str(), reply) {
            Err(err) => NavigateStep::Done(Err(err)),
            Ok(resource) => {
                let client = HALClient { url: self.client.url, path_info: Some(resource) };
                if self.client.path_info.is_none() {
                    let request = client.fetch_link(self.link.as_str(), &self.values);
                    step(client, self.link, self.values, request)
                } else {
                    NavigateStep::Done(Ok(client))
                }
            },
        }
    }
}

/// What comes of a request at the moment `moment`, if `replies` tells the reply
/// to each request at each moment.
pub open spec fn fetched(
    url: Seq<char>,
    request: Result<RequestView, ErrorView>,
    moment: nat,
    replies: spec_fn(nat, RequestView) -> ReplyView,
) -> Result<JsonView, ErrorView> {
    match request {
        Err(err) => Err(err),
        Ok(request) => reply_meaning(url, request.path, replies(moment, request)),
    }
}

/// The client at the resource from which a link is followed: the one that it
/// has, or the root of the broker.
pub open spec fn at_start(
    client: ClientView,
    replies: spec_fn(nat, RequestView) -> ReplyView,
) -> Result<ClientView, ErrorView> {
    if client.path_info is None {
        match fetched(client.url, fetch_request(client.url, "/"@), 0, replies) {
            Err(err) => Err(err),
            Ok(resource) => Ok(holding(client, resource)),
        }
    } else {
        Ok(client)
    }
}

/// Where a navigation leads.
pub open spec fn navigated(
    client: ClientView,
    link: Seq<char>,
    values: Map<Seq<char>, Seq<char>>,
    replies: spec_fn(nat, RequestView) -> ReplyView,
) -> Result<ClientView, ErrorView> {
    match at_start(client, replies) {
        Err(err) => Err(err),
        Ok(start) => match fetched(start.url, link_request(start, link, values), 1, replies) {
            Err(err) => Err(err),
            Ok(resource) => Ok(holding(start, resource)),
        },
    }
}

/// How many replies a navigation waits for at most.
pub open spec fn replies_left(step: NavigateStepView) -> nat {
    match step {
        NavigateStepView::Done(_) => 0,
        NavigateStepView::Send(navigation, _) => if navigation.client.path_info is None {
            2
        } else {
            1
        },
    }
}

/// The moment of the request that a navigation waits for: first the root, then
/// the link.
pub open spec fn navigation_moment(navigation: NavigationView) -> nat {
    if navigation.client.path_info is None {
        0
    } else {
        1
    }
}

/// The end of a navigation from `step` on, if `replies` tells the reply to each
/// request at each moment.
pub open spec fn navigation_end(
    step: NavigateStepView,
    replies: spec_fn(nat, RequestView) -> ReplyView,
) -> Result<ClientView, ErrorView>
    decreases replies_left(step),
{
    match step {
        NavigateStepView::Done(result) => result,
        NavigateStepView::Send(navigation, request) => navigation_end(
            navigation_next(navigation, replies(navigation_moment(navigation), request)),
            replies,
        ),
    }
}

/// Step by step a navigation leads to the resource of the link: it fetches the
/// root unless the client has a resource, looks the link up there and fetches
/// what it leads to; the first failure ends it.
pub proof fn law_navigation_follows_the_link(
    client: ClientView,
    link: Seq<char>,
    values: Map<Seq<char>, Seq<char>>,
    replies: spec_fn(nat, RequestView) -> ReplyView,
)
    ensures
        navigation_end(navigation_start(client, link, values), replies) == navigated(
            client,
            link,
            values,
            replies,
        ),
{
    reveal_with_fuel(navigation_end, 3);
}

/// Each reply brings a navigation closer to its end: it sends two requests at
/// most, and only one if the client has a resource.
pub proof fn law_navigation_ends(
    client: ClientView,
    link: Seq<char>,
    values: Map<Seq<char>, Seq<char>>,
    navigation: NavigationView,
    request: RequestView,
    reply: ReplyView,
)
    ensures
        replies_left(navigation_start(client, link, values)) <= 2,
        client.path_info is Some ==> replies_left(navigation_start(client, link, values)) <= 1,
        replies_left(navigation_next(navigation, reply)) < replies_left(
            NavigateStepView::Send(navigation, request),
        ),
{
}

/// A navigation never changes the address of the broker, and when it succeeds
/// the client has a resource.
pub proof fn law_navigation_stays_at_the_broker(
    client: ClientView,
    link: Seq<char>,
    values: Map<Seq<char>, Seq<char>>,
    replies: spec_fn(nat, RequestView) -> ReplyView,
)
    ensures
        navigation_end(navigation_start(client, link, values), replies) matches Ok(end) ==> end.url
            == client.url && end.path_info is Some,
{
    law_navigation_follows_the_link(client, link, values, replies);
}

} // verus!
