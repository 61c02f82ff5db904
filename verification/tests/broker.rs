use pact_broker::client::{BrokerRequest, HALClient, Reply};
use pact_broker::error::PactBrokerError;
use pact_broker::json::{Json, Node};
use pact_broker::link::Link;
use pact_broker::navigate::NavigateStep;
use pact_broker::pacts::{fetch_pacts_from_broker, PactDocument, PactsStep};
use pact_broker::response::{content_type, json_content_type, BrokerResponse};
use pact_broker::template::TemplateValues;

/// A broker that answers by path.
struct Stub {
    url: String,
    routes: Vec<(String, BrokerResponse)>,
}

impl Stub {
    fn new() -> Stub {
        Stub { url: "http://127.0.0.1:1234/".to_string(), routes: Vec::new() }
    }

    fn with(mut self, path: &str, status: u16, content_type: Option<&str>, body: &str) -> Stub {
        let response = BrokerResponse {
            status,
            content_type: content_type.map(|c| c.as_bytes().to_vec()),
            body: Some(body.as_bytes().to_vec()),
        };
        self.routes.push((path.to_string(), response));
        self
    }

    fn reply(&self, request: &BrokerRequest) -> Reply {
        assert_eq!(request.accept, "application/hal+json, application/json");
        for (path, response) in &self.routes {
            if request.url == format!("http://127.0.0.1:1234{}", path) {
                return Reply::Response(response.clone());
            }
        }
        Reply::Response(BrokerResponse { status: 500, content_type: None, body: Some(vec![]) })
    }

    fn client(&self) -> HALClient {
        HALClient { url: self.url.clone(), ..HALClient::default() }
    }
}

fn fetch(client: &HALClient, stub: &Stub, path: &str) -> Result<Json, PactBrokerError> {
    let request = client.fetch(path)?;
    client.receive(&request.path, &stub.reply(&request))
}

fn fetch_link(
    client: &HALClient,
    stub: &Stub,
    link: &str,
    values: &TemplateValues,
) -> Result<Json, PactBrokerError> {
    let request = client.fetch_link(link, values)?;
    client.receive(&request.path, &stub.reply(&request))
}

fn fetch_pacts(
    stub: &Stub,
    provider: &str,
) -> Result<Vec<Result<PactDocument, PactBrokerError>>, PactBrokerError> {
    let mut step = fetch_pacts_from_broker(stub.url.clone(), provider.to_string());
    loop {
        match step {
            PactsStep::Done(result) => return result,
            PactsStep::Send(state, request) => step = state.resume(&stub.reply(&request)),
        }
    }
}

fn none() -> TemplateValues {
    TemplateValues::new()
}

fn values(entries: &[(&str, &str)]) -> TemplateValues {
    let mut values = TemplateValues::new();
    for (key, value) in entries {
        values.insert(key.to_string(), value.to_string());
    }
    values
}

fn failed<T>(result: Result<T, PactBrokerError>, message: &str) -> bool {
    match result {
        Ok(_) => false,
        Err(err) => {
            assert_eq!(err.message(), message);
            err == message
        }
    }
}

fn response(content_type: Option<&[u8]>) -> BrokerResponse {
    BrokerResponse { status: 200, content_type: content_type.map(|c| c.to_vec()), body: None }
}

fn yay() -> Json {
    Json {
        text: "\"Yay! You found your way here\"".to_string(),
        node: Node::String("Yay! You found your way here".to_string()),
    }
}

const HAL: Option<&str> = Some("application/hal+json");

#[test]
fn fetch_returns_an_error_if_there_is_no_pact_broker() {
    let client = HALClient { url: "http://idont.exist:6666".to_string(), ..HALClient::default() };
    let request = client.fetch("/").unwrap();
    assert_eq!(request.url, "http://idont.exist:6666/");
    let reply = Reply::Failure("an error occurred trying to connect".to_string());
    assert!(client.receive(&request.path, &reply).is_err());
}

#[test]
fn fetch_returns_an_error_if_it_does_not_get_a_success_response() {
    let stub = Stub::new().with("/hello", 404, None, "");
    let result = fetch(&stub.client(), &stub, "/hello");
    assert!(failed(
        result,
        &format!(
            "Request to pact broker path \'/hello\' failed: 404 Not Found. URL: '{}'",
            stub.url
        )
    ));
}

#[test]
fn fetch_returns_an_error_if_it_does_not_get_a_hal_response() {
    let stub = Stub::new().with("/nonjson", 200, Some("text/html"), "<html></html>");
    let result = fetch(&stub.client(), &stub, "/nonjson");
    assert!(failed(
        result,
        &format!(
            "Did not get a HAL response from pact broker path \'/nonjson\', content type is 'text/html'. URL: '{}'",
            stub.url
        )
    ));
}

#[test]
fn content_type_test() {
    assert_eq!(content_type(&response(None)), "text/plain");
    assert_eq!(
        content_type(&response(Some(b"application/hal+json; charset=utf-8"))),
        "application/hal+json; charset=utf-8"
    );
}

#[test]
fn json_content_type_test() {
    assert!(!json_content_type(&response(None)));
    assert!(json_content_type(&response(Some(b"application/json"))));
    assert!(json_content_type(&response(Some(b"application/hal+json; charset=utf-8"))));
}

#[test]
fn fetch_returns_an_error_if_it_does_not_get_a_valid_hal_response() {
    let stub = Stub::new()
        .with("/nonhal", 200, HAL, "")
        .with("/nonhal2", 200, HAL, "<html>This is not JSON</html>");
    let client = stub.client();
    assert!(failed(
        fetch(&client, &stub, "/nonhal"),
        &format!(
            "Did not get a valid HAL response body from pact broker path \'/nonhal\'. URL: '{}'",
            stub.url
        )
    ));
    assert!(failed(
        fetch(&client, &stub, "/nonhal2"),
        &format!(
            "Did not get a valid HAL response body from pact broker path \'/nonhal2\' - JSON error: expected value at line 1 column 1. URL: '{}'",
            stub.url
        )
    ));
}

#[test]
fn parse_link_url_returns_error_if_there_is_no_href() {
    let client = HALClient::default();
    let link = Link { name: "link".to_string(), href: None, templated: false };
    assert!(failed(
        client.parse_link_url(&link, &none()),
        "Expected a HAL+JSON response from the pact broker, but got a link with no HREF. URL: '', LINK: 'link'"
    ));
}

#[test]
fn parse_link_url_replaces_all_tokens_in_href() {
    let client = HALClient::default();
    let values = values(&[("valA", "A"), ("valB", "B")]);
    let expand = |href: &str| {
        let link =
            Link { name: "link".to_string(), href: Some(href.to_string()), templated: false };
        client.parse_link_url(&link, &values).unwrap()
    };
    assert_eq!(expand("http://localhost"), "http://localhost");
    assert_eq!(expand("http://{valA}/{valB}"), "http://A/B");
    assert_eq!(expand("http://{valA}/{valC}"), "http://A/{valC}");
}

#[test]
fn fetch_link_returns_an_error_if_a_previous_resource_has_not_been_fetched() {
    let client = HALClient { url: "http://localhost".to_string(), ..HALClient::default() };
    assert!(failed(
        client.fetch_link("anything_will_do", &none()),
        "No previous resource has been fetched from the pact broker. URL: 'http://localhost', LINK: 'anything_will_do'"
    ));
}

#[test]
fn fetch_link_returns_an_error_if_the_previous_resource_was_not_hal() {
    let stub = Stub::new().with("/", 200, HAL, "{}");
    let mut client = stub.client();
    client.path_info = Some(fetch(&client, &stub, "/").unwrap());
    assert!(failed(
        fetch_link(&client, &stub, "hal2", &none()),
        &format!(
            "Expected a HAL+JSON response from the pact broker, but got a response with no '_links'. URL: '{}', LINK: 'hal2'",
            stub.url
        )
    ));
}

#[test]
fn fetch_link_returns_an_error_if_the_previous_resource_links_are_not_correctly_formed() {
    let stub = Stub::new().with(
        "/",
        200,
        HAL,
        "{\"_links\":[{\"next\":{\"href\":\"abc\"}},{\"prev\":{\"href\":\"def\"}}]}",
    );
    let mut client = stub.client();
    client.path_info = Some(fetch(&client, &stub, "/").unwrap());
    assert!(failed(
        fetch_link(&client, &stub, "any", &none()),
        &format!(
            "Link 'any' was not found in the response, only the following links where found: \"\". URL: '{}', LINK: 'any'",
            stub.url
        )
    ));
}

#[test]
fn fetch_link_returns_an_error_if_the_previous_resource_does_not_have_the_link() {
    let stub = Stub::new().with(
        "/",
        200,
        HAL,
        "{\"_links\":{\"next\":{\"href\":\"/abc\"},\"prev\":{\"href\":\"/def\"}}}",
    );
    let mut client = stub.client();
    client.path_info = Some(fetch(&client, &stub, "/").unwrap());
    assert!(failed(
        fetch_link(&client, &stub, "any", &none()),
        &format!(
            "Link 'any' was not found in the response, only the following links where found: \"next, prev\". URL: '{}', LINK: 'any'",
            stub.url
        )
    ));
}

#[test]
fn fetch_link_returns_the_resource_for_the_link() {
    let stub = Stub::new()
        .with(
            "/",
            200,
            HAL,
            "{\"_links\":{\"next\":{\"href\":\"/abc\"},\"prev\":{\"href\":\"/def\"}}}",
        )
        .with("/abc", 200, Some("application/json"), "\"Yay! You found your way here\"");
    let mut client = stub.client();
    client.path_info = Some(fetch(&client, &stub, "/").unwrap());
    assert_eq!(fetch_link(&client, &stub, "next", &none()).unwrap(), yay());
}

#[test]
fn fetch_link_returns_handles_absolute_resource_links() {
    let stub = Stub::new()
        .with(
            "/",
            200,
            HAL,
            "{\"_links\":{\"next\":{\"href\":\"http://localhost/abc\"},\"prev\":{\"href\":\"http://localhost/def\"}}}",
        )
        .with("/abc", 200, Some("application/json"), "\"Yay! You found your way here\"");
    let mut client = stub.client();
    client.path_info = Some(fetch(&client, &stub, "/").unwrap());
    assert_eq!(fetch_link(&client, &stub, "next", &none()).unwrap(), yay());
}

#[test]
fn fetch_link_returns_the_resource_for_the_templated_link() {
    let stub = Stub::new()
        .with(
            "/",
            200,
            HAL,
            "{\"_links\":{\"document\":{\"href\":\"/doc/{id}\",\"templated\":true}}}",
        )
        .with("/doc/abc", 200, Some("application/json"), "\"Yay! You found your way here\"");
    let mut client = stub.client();
    client.path_info = Some(fetch(&client, &stub, "/").unwrap());
    let values = values(&[("id", "abc")]);
    assert_eq!(fetch_link(&client, &stub, "document", &values).unwrap(), yay());
}

const ROOT: &str = "{\"_links\":{\"pb:latest-provider-pacts\":{\"href\":\"http://localhost/pacts/provider/{provider}/latest\",\"templated\":true}}}";

#[test]
fn fetch_pacts_from_broker_returns_empty_list_if_there_are_no_pacts() {
    let stub = Stub::new()
        .with("/", 200, HAL, ROOT)
        .with("/pacts/provider/sad_provider/latest", 404, None, "");
    assert!(failed(
        fetch_pacts(&stub, "sad_provider"),
        &format!(
            "No pacts for provider 'sad_provider' where found in the pact broker. URL: '{}'",
            stub.url
        )
    ));
}

#[test]
fn fetch_pacts_from_broker_returns_a_list_of_pacts() {
    let pact = "{\"consumer\":{\"name\":\"Consumer\"},\"interactions\":[],\"metadata\":{\"pactSpecification\":{\"version\":\"3.0.0\"}},\"provider\":{\"name\":\"happy_provider\"}}";
    let pact2 = "{\"consumer\":{\"name\":\"Consumer2\"},\"interactions\":[{\"description\":\"a request friends\"}],\"metadata\":{\"pactSpecification\":{\"version\":\"3.0.0\"}},\"provider\":{\"name\":\"happy_provider\"}}";
    let stub = Stub::new()
        .with("/", 200, HAL, ROOT)
        .with(
            "/pacts/provider/happy_provider/latest",
            200,
            HAL,
            "{\"_links\":{\"pacts\":[{\"href\":\"http://localhost/pacts/provider/happy_provider/consumer/Consumer/version/1.0.0\"},{\"href\":\"http://localhost/pacts/provider/happy_provider/consumer/Consumer2/version/1.0.0\"}]}}",
        )
        .with(
            "/pacts/provider/happy_provider/consumer/Consumer/version/1.0.0",
            200,
            Some("application/json"),
            pact,
        )
        .with(
            "/pacts/provider/happy_provider/consumer/Consumer2/version/1.0.0",
            200,
            Some("application/json"),
            pact2,
        );
    let pacts = fetch_pacts(&stub, "happy_provider").unwrap();
    assert_eq!(pacts.len(), 2);
    for pact in &pacts {
        assert!(pact.is_ok());
    }
    let first = pacts[0].as_ref().unwrap();
    assert_eq!(
        first.source,
        "http://localhost/pacts/provider/happy_provider/consumer/Consumer/version/1.0.0"
    );
    assert_eq!(first.json.text, pact);
    assert_eq!(pacts[1].as_ref().unwrap().json.text, pact2);
}

#[test]
fn every_link_gets_a_result_whether_or_not_others_fail() {
    let stub = Stub::new()
        .with("/", 200, HAL, ROOT)
        .with(
            "/pacts/provider/p/latest",
            200,
            HAL,
            "{\"_links\":{\"pacts\":[{\"title\":\"x\"},\"/gone\",{\"HREF\":\"/one\"},{\"href\":\"/a b\"},{\"templated\":true},{\"href\":\"/{provider}\",\"templated\":true}]}}",
        )
        .with("/one", 200, HAL, "1")
        .with("/p", 200, HAL, "2")
        .with("/gone", 404, None, "");
    let results = fetch_pacts(&stub, "p").unwrap();
    assert_eq!(results.len(), 6);
    let message = |i: usize| results[i].as_ref().unwrap_err().message().clone();
    assert_eq!(
        message(0),
        "Expected a HAL+JSON response from the pact broker, but got a link with no HREF. URL: 'http://127.0.0.1:1234/', LINK: 'Link { name: \"pacts\", href: None, templated: false }'"
    );
    assert!(matches!(results[0], Err(PactBrokerError::LinkError(_))));
    assert_eq!(
        message(1),
        "Request to pact broker path '//gone' failed: 404 Not Found. URL: 'http://127.0.0.1:1234/'"
    );
    assert!(matches!(results[1], Err(PactBrokerError::NotFound(_))));
    assert_eq!(results[2].as_ref().unwrap().source, "/one");
    assert_eq!(results[2].as_ref().unwrap().json.text, "1");
    assert_eq!(message(3), "invalid uri character");
    assert!(matches!(results[3], Err(PactBrokerError::UrlError(_))));
    assert!(message(4).ends_with("LINK: 'Link { name: \"pacts\", href: None, templated: true }'"));
    assert_eq!(results[5].as_ref().unwrap().source, "/{provider}");
    assert_eq!(results[5].as_ref().unwrap().json.text, "2");
}

#[test]
fn a_broker_without_a_root_has_no_pacts() {
    let stub = Stub::new().with("/", 404, None, "");
    let result = fetch_pacts(&stub, "p");
    assert!(matches!(result, Err(PactBrokerError::NotFound(_))));
    assert!(failed(
        result,
        "No pacts for provider 'p' where found in the pact broker. URL: 'http://127.0.0.1:1234/'"
    ));
    let stub = Stub::new().with("/", 503, None, "");
    let result = fetch_pacts(&stub, "p");
    assert!(matches!(result, Err(PactBrokerError::IoError(_))));
    assert!(failed(
        result,
        "Request to pact broker path '/' failed: 503 Service Unavailable. URL: 'http://127.0.0.1:1234/'"
    ));
}

#[test]
fn a_list_of_pacts_must_be_a_list() {
    let stub = Stub::new().with("/", 200, HAL, ROOT).with(
        "/pacts/provider/p/latest",
        200,
        HAL,
        "{\"_links\":{\"pacts\":{\"href\":\"/x\"}}}",
    );
    assert!(failed(
        fetch_pacts(&stub, "p"),
        "Link is malformed, expcted an object but got {\"href\":\"/x\"}. URL: 'http://127.0.0.1:1234/', LINK: 'pacts'"
    ));
}

#[test]
fn navigating_skips_the_root_if_a_resource_is_there() {
    let stub = Stub::new().with("/abc", 200, HAL, "true");
    let mut client = stub.client();
    client.path_info =
        Some(Json::parse(b"{\"_links\":{\"next\":{\"href\":\"/abc\"}}}").unwrap());
    let step = client.navigate("next", none());
    let (navigation, request) = match step {
        NavigateStep::Send(navigation, request) => (navigation, request),
        NavigateStep::Done(_) => panic!("nothing was asked for"),
    };
    assert_eq!(request.url, "http://127.0.0.1:1234/abc");
    match navigation.resume(&stub.reply(&request)) {
        NavigateStep::Done(Ok(client)) => {
            assert_eq!(client.url, stub.url);
            assert_eq!(client.path_info.unwrap().node, Node::Bool(true));
        }
        _ => panic!("the navigation did not end"),
    }
}

#[test]
fn navigating_starts_at_the_root_and_stops_at_a_failure() {
    let stub = Stub::new().with("/", 200, HAL, "{\"_links\":{\"prev\":{}}}");
    let (navigation, request) = match stub.client().navigate("next", none()) {
        NavigateStep::Send(navigation, request) => (navigation, request),
        NavigateStep::Done(_) => panic!("nothing was asked for"),
    };
    assert_eq!(request.path, "/");
    match navigation.resume(&stub.reply(&request)) {
        NavigateStep::Done(Err(err)) => assert!(err == "Link 'next' was not found in the response, only the following links where found: \"prev\". URL: 'http://127.0.0.1:1234/', LINK: 'next'"),
        _ => panic!("the navigation did not fail"),
    }
}
