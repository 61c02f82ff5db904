//! Models: they show every part of what they are models of.
use vstd::prelude::*;

use crate::client::{links_outcome, BrokerRequest, HALClient, Reply, ReplyView};
use crate::error::{outcome, ErrorView, PactBrokerError};
use crate::json::{entries_model, Json, Node, NodeView};
use crate::link::Link;
use crate::navigate::{NavigateStep, NavigateStepView, Navigation};
use crate::pacts::{
    Collection, PactDocument, PactsFetch, PactsFetchView, PactsStep, PactsStepView,
};
use crate::response::BrokerResponse;
use crate::text::texts;
use crate::uri::{uri_outcome, ParsedUri};

verus! {

/// The model of a text that may be missing is that text, or that it is missing.
pub open spec fn is_model_of_text(model: Option<Seq<char>>, text: Option<String>) -> bool {
    match text {
        Some(s) => model == Some(s@),
        None => model is None,
    }
}

/// The model of bytes that may be missing is those bytes, or that they are
/// missing.
pub open spec fn is_model_of_bytes(model: Option<Seq<u8>>, bytes: Option<Vec<u8>>) -> bool {
    match bytes {
        Some(b) => model == Some(b@),
        None => model is None,
    }
}

/// The model of a request shows where it goes, what it asks for and what it
/// accepts.
pub proof fn law_model_of_a_request(request: BrokerRequest)
    ensures
        request@.path == request.path@,
        request@.url == request.url@,
        request@.accept == request.accept@,
{
}

/// The model of a response shows its status, its content type and its body, and
/// that of a reply shows the response or the description of the failure.
pub proof fn law_model_of_a_reply(response: BrokerResponse, description: String)
    ensures
        response@.status == response.status,
        is_model_of_bytes(response@.content_type, response.content_type),
        is_model_of_bytes(response@.body, response.body),
        Reply::Response(response)@ == ReplyView::Response(response@),
        Reply::Failure(description)@ == ReplyView::Failure(description@),
{
}

/// The model of a link shows its name, its address and whether it is a template.
pub proof fn law_model_of_a_link(link: Link)
    ensures
        link@.name == link.name@,
        is_model_of_text(link@.href, link.href),
        link@.templated == link.templated,
{
}

/// The model of the parts of a URI shows both of them.
pub proof fn law_model_of_a_uri(uri: ParsedUri, description: String)
    ensures
        is_model_of_text(uri@.scheme, uri.scheme),
        uri@.path == uri.path@,
        uri_outcome(Ok(uri)) matches Ok(model) && model == uri@,
        uri_outcome(Err(description)) matches Err(model) && model == description@,
{
}

/// The model of a failure shows its kind and its message.
pub proof fn law_model_of_a_failure(message: String)
    ensures
        PactBrokerError::LinkError(message)@ == ErrorView::LinkError(message@),
        PactBrokerError::ContentError(message)@ == ErrorView::ContentError(message@),
        PactBrokerError::IoError(message)@ == ErrorView::IoError(message@),
        PactBrokerError::NotFound(message)@ == ErrorView::NotFound(message@),
        PactBrokerError::UrlError(message)@ == ErrorView::UrlError(message@),
{
}

/// The model of an outcome shows the value or the failure.
pub proof fn law_model_of_an_outcome(link: Link, err: PactBrokerError, links: Vec<Link>, i: int)
    ensures
        outcome(Ok::<Link, PactBrokerError>(link)) matches Ok(model) && model == link@,
        outcome(Err::<Link, PactBrokerError>(err)) matches Err(model) && model == err@,
        links_outcome(Err(err)) matches Err(model) && model == err@,
        links_outcome(Ok(links)) matches Ok(models) && models.len() == links@.len() && (0 <= i
            < links@.len() ==> models[i] == links@[i]@),
{
}

/// The models of texts are those texts, in their order.
pub proof fn law_models_of_texts(names: Seq<String>, i: int)
    ensures
        texts(names).len() == names.len(),
        0 <= i < names.len() ==> texts(names)[i] == names[i]@,
{
}

/// The model of a JSON value shows its text and all that it is made of.
pub proof fn law_model_of_a_json_value(json: Json, i: int)
    ensures
        json@.text == json.text@,
        match json.node {
            Node::Null => json@.node is Null,
            Node::Bool(b) => json@.node == NodeView::Bool(b),
            Node::Number => json@.node is Number,
            Node::String(s) => json@.node == NodeView::String(s@),
            Node::Array(items) => json@.node matches NodeView::Array(models) && models.len()
                == items@.len() && (0 <= i < items@.len() ==> models[i] == items@[i]@),
            Node::Object(entries) => json@.node matches NodeView::Object(models) && models.len()
                == entries@.len() && (0 <= i < entries@.len() ==> models[i].0 == entries@[i].0@
                && models[i].1 == entries@[i].1@),
        },
{
}

/// The model of the entries of an object shows all keys and values in their
/// order.
pub proof fn law_model_of_entries(entries: Seq<(String, Json)>, i: int)
    ensures
        entries_model(entries).len() == entries.len(),
        0 <= i < entries.len() ==> entries_model(entries)[i].0 == entries[i].0@ && entries_model(
            entries,
        )[i].1 == entries[i].1@,
{
}

/// The model of a client shows the address of the broker and the resource.
pub proof fn law_model_of_a_client(client: HALClient)
    ensures
        client@.url == client.url@,
        match client.path_info {
            Some(json) => client@.path_info == Some(json@),
            None => client@.path_info is None,
        },
{
}

/// The model of a navigation shows all its parts, and that of a step what it
/// hands out or how it ended.
pub proof fn law_model_of_a_navigation(
    navigation: Navigation,
    request: BrokerRequest,
    client: HALClient,
    err: PactBrokerError,
)
    ensures
        navigation@.client == navigation.client@,
        navigation@.link == navigation.link@,
        navigation@.values == navigation.values@,
        navigation@.path == navigation.path@,
        NavigateStep::Send(navigation, request)@ == NavigateStepView::Send(navigation@, request@),
        NavigateStep::Done(Ok(client))@ == NavigateStepView::Done(Ok(client@)),
        NavigateStep::Done(Err(err))@ == NavigateStepView::Done(Err(err@)),
{
}

/// The model of a pact shows where it comes from and the pact itself.
pub proof fn law_model_of_a_pact(pact: PactDocument)
    ensures
        pact@.source == pact.source@,
        pact@.json == pact.json@,
{
}

/// The model of a collection shows all its parts, each link and each result in
/// its place.
pub proof fn law_model_of_a_collection(collection: Collection, i: int)
    ensures
        collection@.client == collection.client@,
        collection@.values == collection.values@,
        collection@.path == collection.path@,
        collection@.links.len() == collection.links@.len(),
        0 <= i < collection.links@.len() ==> collection@.links[i] == collection.links@[i]@,
        collection@.results.len() == collection.results@.len(),
        0 <= i < collection.results@.len() ==> match collection.results@[i] {
            Ok(pact) => collection@.results[i] matches Ok(model) && model == pact@,
            Err(err) => collection@.results[i] matches Err(model) && model == err@,
        },
{
}

/// The model of a fetch shows how far it is, and that of a step what it hands out
/// or how it ended: each result in its place, or the failure.
pub proof fn law_model_of_a_fetch(
    navigation: Navigation,
    provider: String,
    collection: Collection,
    fetch: PactsFetch,
    request: BrokerRequest,
    results: Vec<Result<PactDocument, PactBrokerError>>,
    err: PactBrokerError,
    i: int,
)
    ensures
        PactsFetch::Navigating(navigation, provider)@ == PactsFetchView::Navigating(
            navigation@,
            provider@,
        ),
        PactsFetch::Collecting(collection)@ == PactsFetchView::Collecting(collection@),
        PactsStep::Send(fetch, request)@ == PactsStepView::Send(fetch@, request@),
        PactsStep::Done(Err(err))@ == PactsStepView::Done(Err(err@)),
        PactsStep::Done(Ok(results))@ matches PactsStepView::Done(Ok(models)) && models.len()
            == results@.len() && (0 <= i < results@.len() ==> match results@[i] {
            Ok(pact) => models[i] matches Ok(model) && model == pact@,
            Err(failure) => models[i] matches Err(model) && model == failure@,
        }),
{
}

} // verus!
