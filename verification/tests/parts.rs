use pact_broker::client::{path_of_address, HALClient, Reply};
use pact_broker::error::PactBrokerError;
use pact_broker::json::{as_string, find_entry, is_true, Json, Node};
use pact_broker::link::Link;
use pact_broker::response::{
    content_type, is_success, json_content_type, strip_parameters, BrokerResponse,
};
use pact_broker::template::{expand, TemplateValues};
use pact_broker::text::{join, join_paths};
use pact_broker::uri::ParsedUri;

fn parse(text: &str) -> Json {
    Json::parse(text.as_bytes()).unwrap()
}

fn entries(text: &str) -> Vec<(String, Json)> {
    match parse(text).node {
        Node::Object(entries) => entries,
        _ => panic!("no object"),
    }
}

fn client(url: &str, resource: Option<&str>) -> HALClient {
    HALClient { url: url.to_string(), path_info: resource.map(parse) }
}

fn values(entries: &[(&str, &str)]) -> TemplateValues {
    let mut values = TemplateValues::new();
    for (key, value) in entries {
        values.insert(key.to_string(), value.to_string());
    }
    values
}

fn link(href: &str, templated: bool) -> Link {
    Link { name: "l".to_string(), href: Some(href.to_string()), templated }
}

fn response(status: u16, content_type: &str, body: Option<&str>) -> BrokerResponse {
    BrokerResponse {
        status,
        content_type: Some(content_type.as_bytes().to_vec()),
        body: body.map(|b| b.as_bytes().to_vec()),
    }
}

#[test]
fn errors_compare_by_message() {
    let all = vec![
        PactBrokerError::LinkError("m".to_string()),
        PactBrokerError::ContentError("m".to_string()),
        PactBrokerError::IoError("m".to_string()),
        PactBrokerError::NotFound("m".to_string()),
        PactBrokerError::UrlError("m".to_string()),
    ];
    for err in all {
        assert!(err == "m");
        assert!(err == "m".to_string());
        assert!(!(err == "n"));
        assert!(!(err == "n".to_string()));
    }
}

#[test]
fn json_values_keep_their_text() {
    assert_eq!(parse(" null ").node, Node::Null);
    assert_eq!(parse("1.50").text, "1.5");
    assert_eq!(parse("1.50").node, Node::Number);
    let json = parse("{ \"b\" : [ 1, \"x\\u0041\" ], \"a\" : false }");
    assert_eq!(json.text, "{\"a\":false,\"b\":[1,\"xA\"]}");
    assert_eq!(json.keys(), vec!["a".to_string(), "b".to_string()]);
    match &json.get("b").unwrap().node {
        Node::Array(items) => {
            assert_eq!(items[0].text, "1");
            assert_eq!(items[1].text, "\"xA\"");
            assert_eq!(items[1].node, Node::String("xA".to_string()));
        }
        _ => panic!("no array"),
    }
    assert!(json.get("c").is_none());
    assert!(parse("[]").get("c").is_none());
    assert!(parse("[]").keys().is_empty());
}

#[test]
fn json_keys_ascend_and_occur_once() {
    let json = parse("{\"z\":1,\"Z\":2,\"\u{e4}\":3,\"z\":4,\"\":5}");
    let keys = json.keys();
    assert_eq!(keys, vec!["", "Z", "z", "\u{e4}"]);
    assert_eq!(json.get("z").unwrap().text, "4");
    for (key, text) in [("", "5"), ("Z", "2"), ("\u{e4}", "3")] {
        assert_eq!(json.get(key).unwrap().text, text);
    }
}

#[test]
fn json_errors_have_a_text() {
    assert_eq!(Json::parse(b"").unwrap_err(), "EOF while parsing a value at line 1 column 0");
    assert_eq!(Json::parse(b"[1").unwrap_err(), "EOF while parsing a list at line 1 column 2");
    assert_eq!(Json::parse(b"1 2").unwrap_err(), "trailing characters at line 1 column 3");
}

#[test]
fn truth_needs_a_boolean() {
    let object = entries("{\"t\":true,\"f\":false,\"s\":\"true\",\"n\":1}");
    assert!(is_true(&object, "t"));
    for field in ["f", "s", "n", "x", "T"] {
        assert!(!is_true(&object, field));
    }
}

#[test]
fn strings_are_themselves_and_other_values_their_text() {
    assert_eq!(as_string(&parse("\"a\\\"b\"")), "a\"b");
    assert_eq!(as_string(&parse("12")), "12");
    assert_eq!(as_string(&parse("[ 1 ]")), "[1]");
    assert_eq!(as_string(&parse("null")), "null");
}

#[test]
fn entries_are_found_in_any_case() {
    let object = entries("{\"HREF\":1,\"Href\":2,\"\u{c4}\":3}");
    let (key, value) = find_entry(&object, "hReF").unwrap();
    assert_eq!(key, "hReF");
    assert_eq!(value.text, "1");
    assert_eq!(find_entry(&object, "\u{e4}").unwrap().1.text, "3");
    assert!(find_entry(&object, "hre").is_none());
}

#[test]
fn links_are_read_from_objects() {
    let name = "l".to_string();
    let read = Link::from_json(&name, &entries("{\"HREF\":\"/a\",\"templated\":true}"));
    assert_eq!(read.name, "l");
    assert_eq!(read.href, Some("/a".to_string()));
    assert!(read.templated);
    let read = Link::from_json(&name, &entries("{\"href\":{\"a\":1},\"Templated\":true}"));
    assert_eq!(read.href, Some("{\"a\":1}".to_string()));
    assert!(!read.templated);
    let read = Link::from_json(&name, &entries("{}"));
    assert_eq!(read.href, None);
}

#[test]
fn the_text_of_a_link_is_its_debug_format() {
    for link in [
        Link { name: "a\"b\n".to_string(), href: None, templated: true },
        Link { name: "\u{e4}\u{7f}".to_string(), href: Some("x\\'".to_string()), templated: false },
    ] {
        assert_eq!(link.debug_text(), format!("{:?}", link));
    }
}

#[test]
fn a_link_must_be_an_object() {
    let client = client("u", Some("{\"_links\":{\"a\":\"x\\\"y\",\"b\":[1]}}"));
    assert!(client.find_link("a").unwrap_err()
        == "Link is malformed, expected an object but got \"x\\\"y\". URL: 'u', LINK: 'a'");
    assert!(client.find_link("b").unwrap_err()
        == "Link is malformed, expected an object but got [1]. URL: 'u', LINK: 'b'");
}

#[test]
fn missing_links_are_told_with_those_that_are_there() {
    let client = client("u", Some("{\"_links\":{\"b\\n\":{},\"a\\\"\":{}}}"));
    let message = "Link 'x' was not found in the response, only the following links where found: \"a\\\", b\\n\". URL: 'u', LINK: 'x'";
    assert!(client.find_link("x").unwrap_err() == message);
    assert!(client.iter_links("x".to_string()).unwrap_err() == message);
}

#[test]
fn single_links_and_lists_fail_alike() {
    for resource in [None, Some("{}"), Some("{\"_links\":{}}"), Some("[]")] {
        let client = client("u", resource);
        let one = client.find_link("x").unwrap_err();
        let many = client.iter_links("x".to_string()).unwrap_err();
        assert_eq!(one.message(), many.message());
        assert!(matches!(one, PactBrokerError::LinkError(_)));
        assert!(matches!(many, PactBrokerError::LinkError(_)));
    }
}

#[test]
fn lists_of_links_take_any_items() {
    let client = client(
        "u",
        Some("{\"_links\":{\"l\":[{\"href\":\"/{a}\",\"templated\":true},\"/b\",3,null,[\"c\"],{}]}}"),
    );
    let links = client.iter_links("l".to_string()).unwrap();
    let hrefs: Vec<Option<&str>> = links.iter().map(|l| l.href.as_deref()).collect();
    assert_eq!(
        hrefs,
        vec![Some("/{a}"), Some("/b"), Some("3"), Some("null"), Some("[\"c\"]"), None]
    );
    assert!(links[0].templated);
    for link in &links[1..] {
        assert!(!link.templated);
        assert_eq!(link.name, "l");
    }
}

#[test]
fn links_without_an_address_cannot_be_followed() {
    let client = client("u", None);
    let values = values(&[]);
    let plain = Link { name: "l".to_string(), href: None, templated: false };
    assert!(client.fetch_url(&plain, &values).unwrap_err()
        == "Link is malformed, there is no href. URL: 'u', LINK: 'l'");
    let template = Link { name: "l".to_string(), href: None, templated: true };
    assert!(client.fetch_url(&template, &values).unwrap_err()
        == "Expected a HAL+JSON response from the pact broker, but got a link with no HREF. URL: 'u', LINK: 'l'");
}

#[test]
fn relative_and_absolute_links_lead_to_the_broker() {
    for url in ["http://broker:80", "http://broker:80/"] {
        let client = client(url, None);
        for address in ["/a/b", "http://elsewhere/a/b", "https://elsewhere:1/a/b?q=1"] {
            let request = client.fetch_url(&link(address, false), &values(&[])).unwrap();
            assert_eq!(request.url, "http://broker:80/a/b");
            assert_eq!(request.accept, "application/hal+json, application/json");
        }
    }
    let request = client("http://broker", None).fetch_url(&link("/a?q=1#f", false), &values(&[]));
    assert_eq!(request.unwrap().path, "/a");
}

#[test]
fn only_templates_are_expanded() {
    let client = client("http://broker", None);
    let values = values(&[("id", "7")]);
    assert_eq!(client.fetch_url(&link("/x/{id}", true), &values).unwrap().path, "/x/7");
    let err = client.fetch_url(&link("/x/{id}", false), &values).unwrap_err();
    assert!(matches!(err, PactBrokerError::UrlError(_)));
    assert!(err == "invalid uri character");
}

#[test]
fn malformed_addresses_are_told() {
    let err = client("http://bro ker", None).fetch("/").unwrap_err();
    assert!(matches!(err, PactBrokerError::UrlError(_)));
    assert!(err == "invalid uri character");
    assert!(client("http://a:1:2", None).fetch("/").unwrap_err() == "invalid authority");
    assert_eq!(client("", None).fetch("").unwrap().url, "/");
}

#[test]
fn the_scheme_decides_which_path_counts() {
    let uri = |scheme: Option<&str>, path: &str| {
        Ok(ParsedUri { scheme: scheme.map(|s| s.to_string()), path: path.to_string() })
    };
    assert_eq!(path_of_address(uri(Some("s"), "/a"), uri(Some("s"), "/b")).unwrap(), "/a");
    assert_eq!(path_of_address(uri(Some("s"), "/a"), Err("x".to_string())).unwrap(), "/a");
    assert_eq!(path_of_address(uri(None, "/a"), uri(Some("s"), "/b")).unwrap(), "/b");
    assert_eq!(path_of_address(Err("x".to_string()), uri(None, "/b")).unwrap(), "/b");
    let err = path_of_address(Err("x".to_string()), Err("y".to_string())).unwrap_err();
    assert!(matches!(err, PactBrokerError::UrlError(_)));
    assert!(err == "y");
}

#[test]
fn responses_mean_what_their_status_and_content_say() {
    let client = client("u", None);
    let meaning = |r: BrokerResponse| client.parse_broker_response(&r, "/p");
    assert_eq!(meaning(response(299, "application/json", Some("[]"))).unwrap().text, "[]");
    let err = meaning(response(404, "application/json", Some("[]"))).unwrap_err();
    assert!(matches!(err, PactBrokerError::NotFound(_)));
    let err = meaning(response(300, "application/json", Some("[]"))).unwrap_err();
    assert!(matches!(err, PactBrokerError::IoError(_)));
    assert!(err == "Request to pact broker path '/p' failed: 300 Multiple Choices. URL: 'u'");
    let err = meaning(response(599, "text/html", None)).unwrap_err();
    assert!(err == "Request to pact broker path '/p' failed: 599 <unknown status code>. URL: 'u'");
    let err = meaning(response(200, "text/html", None)).unwrap_err();
    assert!(matches!(err, PactBrokerError::IoError(_)));
    assert!(err == "Failed to download response body for path '/p'. URL: 'u'");
    let err = meaning(response(200, "text/html", Some(""))).unwrap_err();
    assert!(matches!(err, PactBrokerError::ContentError(_)));
    assert!(err == "Did not get a HAL response from pact broker path '/p', content type is 'text/html'. URL: 'u'");
    let err = meaning(response(200, "application/json", Some(" "))).unwrap_err();
    assert!(matches!(err, PactBrokerError::ContentError(_)));
    assert!(err == "Did not get a valid HAL response body from pact broker path '/p' - JSON error: EOF while parsing a value at line 1 column 1. URL: 'u'");
}

#[test]
fn a_failed_exchange_is_told_with_its_cause() {
    let err = client("u", None)
        .receive("/p", &Reply::Failure("no \"way\"".to_string()))
        .unwrap_err();
    assert!(matches!(err, PactBrokerError::IoError(_)));
    assert!(err == "Failed to access pact broker path '/p' - \"no \\\"way\\\"\". URL: 'self.url'");
}

#[test]
fn success_is_from_200_to_299() {
    assert!(!is_success(199));
    assert!(is_success(200));
    assert!(is_success(299));
    assert!(!is_success(300));
}

#[test]
fn content_types_that_are_no_text_count_as_plain_text() {
    for value in [&b"application/json\xff"[..], b"a\nb", b"\x7f"] {
        let response =
            BrokerResponse { status: 200, content_type: Some(value.to_vec()), body: None };
        assert_eq!(content_type(&response), "text/plain");
        assert!(!json_content_type(&response));
    }
    assert_eq!(content_type(&response(200, "a\tb c", None)), "a\tb c");
}

#[test]
fn parameters_of_a_content_type_make_no_difference() {
    for value in ["application/json;a=b", "application/hal+json \t;", "application/json;a;b"] {
        assert!(json_content_type(&response(200, value, None)));
    }
    for value in ["application/json ", "application/xml;application/json", "APPLICATION/JSON", ";"]
    {
        assert!(!json_content_type(&response(200, value, None)));
    }
    assert_eq!(strip_parameters("a/b ; c=d"), "a/b");
    assert_eq!(strip_parameters("a/b "), "a/b ");
    assert_eq!(strip_parameters(" ;"), "");
}

#[test]
fn tokens_are_words_in_braces() {
    let values = values(&[("a", "{b}"), ("b", "B"), ("\u{fc}ber_1", "U"), ("c", ""), ("", "no")]);
    assert_eq!(expand("{a}{b}", &values), "{b}B");
    assert_eq!(expand("{{b}}", &values), "{B}");
    assert_eq!(expand("{b{b}b}", &values), "{bBb}");
    assert_eq!(expand("x{\u{fc}ber_1}y", &values), "xUy");
    assert_eq!(expand("{}{ b}{b }{b-}{b", &values), "{}{ b}{b }{b-}{b");
    assert_eq!(expand("\u{1f600}{c}\u{1f600}", &values), "\u{1f600}\u{1f600}");
    assert_eq!(expand("", &values), "");
}

#[test]
fn text_without_values_stays() {
    let values = values(&[]);
    for text in ["{a}/{b}", "no tokens", "}{"] {
        assert_eq!(expand(text, &values), text);
    }
}

#[test]
fn later_values_replace_earlier_ones() {
    let values = values(&[("a", "1"), ("b", "2"), ("a", "3")]);
    assert_eq!(values.get("a").unwrap(), "3");
    assert_eq!(values.get("b").unwrap(), "2");
    assert!(values.get("c").is_none());
}

#[test]
fn paths_meet_at_one_slash() {
    for (base, path, joined) in [
        ("", "", "/"),
        ("/", "/", "/"),
        ("http://h", "p", "http://h/p"),
        ("http://h//", "//p/", "http://h/p/"),
        ("\u{e4}/", "/\u{e4}", "\u{e4}/\u{e4}"),
    ] {
        assert_eq!(join_paths(base, path), joined);
    }
}

#[test]
fn names_are_joined() {
    let names = |list: &[&str]| list.iter().map(|s| s.to_string()).collect::<Vec<String>>();
    assert_eq!(join(&names(&[]), ", "), "");
    assert_eq!(join(&names(&["a"]), ", "), "a");
    assert_eq!(join(&names(&["a", "", "b"]), ", "), "a, , b");
}

#[test]
fn the_path_of_a_link_ends_before_its_query_and_its_fragment() {
    let none = values(&[]);
    for address in ["/a/b", "/a/b?q=[1]&r={x}?", "/a/b#f g<", "/a/b?q#f?", "http://h:1/a/b?q"] {
        let request = client("http://broker", None).fetch_url(&link(address, false), &none);
        let request = request.unwrap();
        assert_eq!(request.path, "/a/b");
        assert_eq!(request.url, "http://broker/a/b");
    }
    let slashed = client("http://broker//", None);
    let request = slashed.fetch_url(&link("/a?q", false), &none).unwrap();
    assert_eq!(request.path, "///a");
    assert_eq!(request.url, "http://broker/a");
    let request = slashed.fetch_url(&link("https://h/a?q", false), &none).unwrap();
    assert_eq!(request.path, "/a");
    let err = client("http://broker", None).fetch_url(&link("/a?q r", false), &none).unwrap_err();
    assert!(err == "invalid uri character");
}

#[test]
fn addresses_may_have_any_scheme() {
    let request = client("x+y.1-z://broker", None).fetch_url(&link("/a#f", false), &values(&[]));
    assert_eq!(request.unwrap().url, "x+y.1-z://broker/a");
    let request = client("HTTP://broker", None).fetch_url(&link("FTP://h/a", false), &values(&[]));
    assert_eq!(request.unwrap().url, "HTTP://broker/a");
}
