//! Resources: what stands in them, and the links that they list.
use vstd::prelude::*;

use crate::client::{found_link, found_links, ClientView};
use crate::error::ErrorView;
use crate::json::{
    first_position, lookup, lookup_ignoring_ascii_case, lookup_ignoring_case, truth, JsonView,
    NodeView,
};
use crate::link::{described_link, link_debug_text, plainly_described_link, LinkView};
use crate::text::{ascii_lowered, debug_text, joined, lowercase_text};

verus! {

/// The entry at the position `i` is the first with the key `key`.
pub open spec fn is_first_entry(
    entries: Seq<(Seq<char>, JsonView)>,
    key: Seq<char>,
    i: int,
) -> bool {
    0 <= i < entries.len() && entries[i].0 == key && forall|k: int|
        0 <= k < i ==> (#[trigger] entries[k]).0 != key
}

/// No entry has the key `key`.
pub open spec fn has_no_entry(entries: Seq<(Seq<char>, JsonView)>, key: Seq<char>) -> bool {
    forall|k: int| 0 <= k < entries.len() ==> (#[trigger] entries[k]).0 != key
}

/// The value is no object with an entry for the key `key`.
pub open spec fn lacks(json: JsonView, key: Seq<char>) -> bool {
    json.node matches NodeView::Object(entries) ==> has_no_entry(entries, key)
}

/// The value is an object, and `value` stands in it in the first entry with the
/// key `key`.
pub open spec fn holds(json: JsonView, key: Seq<char>, value: JsonView) -> bool {
    json.node matches NodeView::Object(entries) && exists|i: int|
        #[trigger] is_first_entry(entries, key, i) && entries[i].1 == value
}

/// In lower case, the key of the entry at the position `i` is the first to equal
/// `key`.
pub open spec fn is_first_in_any_case(
    entries: Seq<(Seq<char>, JsonView)>,
    key: Seq<char>,
    i: int,
) -> bool {
    0 <= i < entries.len() && lowercase_text(entries[i].0) == lowercase_text(key) && forall|k: int|
        0 <= k < i ==> lowercase_text((#[trigger] entries[k]).0) != lowercase_text(key)
}

/// In lower case, no key equals `key`.
pub open spec fn has_none_in_any_case(entries: Seq<(Seq<char>, JsonView)>, key: Seq<char>) -> bool {
    forall|k: int|
        0 <= k < entries.len() ==> lowercase_text((#[trigger] entries[k]).0) != lowercase_text(key)
}

/// With ASCII letters in lower case, the key of the entry at the position `i` is
/// the first to equal `key`.
pub open spec fn is_first_in_any_ascii_case(
    entries: Seq<(Seq<char>, JsonView)>,
    key: Seq<char>,
    i: int,
) -> bool {
    0 <= i < entries.len() && ascii_lowered(entries[i].0) == ascii_lowered(key) && forall|k: int|
        0 <= k < i ==> ascii_lowered((#[trigger] entries[k]).0) != ascii_lowered(key)
}

/// With ASCII letters in lower case, no key equals `key`.
pub open spec fn has_none_in_any_ascii_case(
    entries: Seq<(Seq<char>, JsonView)>,
    key: Seq<char>,
) -> bool {
    forall|k: int|
        0 <= k < entries.len() ==> ascii_lowered((#[trigger] entries[k]).0) != ascii_lowered(key)
}

/// The first entry with a key is what is looked up under it.
pub proof fn law_first_entry_is_looked_up(
    entries: Seq<(Seq<char>, JsonView)>,
    key: Seq<char>,
    i: int,
)
    requires
        is_first_entry(entries, key, i),
    ensures
        lookup(entries, key) == Some(entries[i].1),
    decreases i,
{
    if i > 0 {
        let rest = entries.skip(1);
        assert(entries[0].0 != key);
        assert forall|k: int| 0 <= k < i - 1 implies (#[trigger] rest[k]).0 != key by {
            assert(rest[k] == entries[k + 1]);
        }
        law_first_entry_is_looked_up(rest, key, i - 1);
    }
}

/// Without an entry for a key, nothing is looked up under it.
pub proof fn law_nothing_else_is_looked_up(entries: Seq<(Seq<char>, JsonView)>, key: Seq<char>)
    requires
        has_no_entry(entries, key),
    ensures
        lookup(entries, key) is None,
    decreases entries.len(),
{
    if entries.len() > 0 {
        let rest = entries.skip(1);
        assert(entries[0].0 != key);
        assert forall|k: int| 0 <= k < rest.len() implies (#[trigger] rest[k]).0 != key by {
            assert(rest[k] == entries[k + 1]);
        }
        law_nothing_else_is_looked_up(rest, key);
    }
}

/// An object gives exactly what stands in it under a key, and any other value
/// gives nothing.
pub proof fn law_object_gives_what_it_holds(json: JsonView, key: Seq<char>, value: JsonView)
    ensures
        holds(json, key, value) ==> json.get(key) == Some(value),
        lacks(json, key) ==> json.get(key) is None,
{
    if holds(json, key, value) {
        let entries = json.node->Object_0;
        let i = choose|i: int|
            #[trigger] is_first_entry(entries, key, i) && entries[i].1 == value;
        law_first_entry_is_looked_up(entries, key, i);
    }
    if lacks(json, key) && json.node is Object {
        law_nothing_else_is_looked_up(json.node->Object_0, key);
    }
}

/// The names of an object are the keys of its entries, in their order.
pub proof fn law_keys_are_those_of_the_entries(json: JsonView, i: int)
    ensures
        match json.node {
            NodeView::Object(entries) => json.keys().len() == entries.len() && (0 <= i
                < entries.len() ==> json.keys()[i] == entries[i].0),
            _ => json.keys().len() == 0,
        },
{
}

/// The position of a name is where it stands first, if it stands anywhere.
pub proof fn law_position_is_where_a_name_stands_first(
    names: Seq<Seq<char>>,
    name: Seq<char>,
    i: int,
)
    ensures
        0 <= i < names.len() && names[i] == name && (forall|k: int|
            0 <= k < i ==> #[trigger] names[k] != name) ==> first_position(names, name) == Some(i),
        (forall|k: int| 0 <= k < names.len() ==> #[trigger] names[k] != name) ==> first_position(
            names,
            name,
        ) is None,
    decreases names.len(),
{
    if names.len() > 0 {
        let rest = names.skip(1);
        law_position_is_where_a_name_stands_first(rest, name, i - 1);
        if names[0] != name {
            assert(forall|k: int| 0 <= k < rest.len() ==> rest[k] == names[k + 1]);
        }
    }
}

/// In lower case, the first entry with a key is what is looked up under it.
pub proof fn law_first_entry_in_any_case_is_looked_up(
    entries: Seq<(Seq<char>, JsonView)>,
    key: Seq<char>,
    i: int,
)
    ensures
        is_first_in_any_case(entries, key, i) ==> lookup_ignoring_case(entries, key) == Some(
            entries[i].1,
        ),
        has_none_in_any_case(entries, key) ==> lookup_ignoring_case(entries, key) is None,
{
    let lowered = entries.map_values(|e: (Seq<char>, JsonView)| lowercase_text(e.0));
    assert(forall|k: int|
        0 <= k < entries.len() ==> #[trigger] lowered[k] == lowercase_text(entries[k].0));
    law_position_is_where_a_name_stands_first(lowered, lowercase_text(key), i);
}

/// With ASCII letters in lower case, the first entry with a key is what is
/// looked up under it.
pub proof fn law_first_entry_in_any_ascii_case_is_looked_up(
    entries: Seq<(Seq<char>, JsonView)>,
    key: Seq<char>,
    i: int,
)
    ensures
        is_first_in_any_ascii_case(entries, key, i) ==> lookup_ignoring_ascii_case(entries, key)
            == Some(entries[i].1),
        has_none_in_any_ascii_case(entries, key) ==> lookup_ignoring_ascii_case(
            entries,
            key,
        ) is None,
    decreases entries.len(),
{
    if entries.len() > 0 {
        let rest = entries.skip(1);
        law_first_entry_in_any_ascii_case_is_looked_up(rest, key, i - 1);
        assert(forall|k: int| 0 <= k < rest.len() ==> #[trigger] rest[k] == entries[k + 1]);
        if is_first_in_any_ascii_case(entries, key, i) && i > 0 {
            assert(ascii_lowered(entries[0].0) != ascii_lowered(key));
            assert(rest[i - 1] == entries[i]);
            assert(is_first_in_any_ascii_case(rest, key, i - 1));
        }
        if has_none_in_any_ascii_case(entries, key) {
            assert(ascii_lowered(entries[0].0) != ascii_lowered(key));
            assert(has_none_in_any_ascii_case(rest, key));
        }
    }
}

/// A field is true exactly if its first entry is the JSON value `true`.
pub proof fn law_true_is_the_value_true(entries: Seq<(Seq<char>, JsonView)>, field: Seq<char>, i: int)
    ensures
        is_first_entry(entries, field, i) ==> (truth(entries, field) <==> entries[i].1.node
            == NodeView::Bool(true)),
        has_no_entry(entries, field) ==> !truth(entries, field),
{
    if is_first_entry(entries, field, i) {
        law_first_entry_is_looked_up(entries, field, i);
    }
    if has_no_entry(entries, field) {
        law_nothing_else_is_looked_up(entries, field);
    }
}

/// A string stands for its content, and any other value for its JSON text.
pub proof fn law_string_stands_for_its_content(json: JsonView)
    ensures
        json.node matches NodeView::String(s) ==> json.content() == s,
        !(json.node is String) ==> json.content() == json.text,
{
}

/// The address `href` is the one that the value `json` tells: the content of a
/// string, or the JSON text of any other value.
pub open spec fn tells_address(json: JsonView, href: Option<Seq<char>>) -> bool {
    match json.node {
        NodeView::String(s) => href == Some(s),
        _ => href == Some(json.text),
    }
}

/// The entry `templated` is the JSON value `true`.
pub open spec fn says_templated(entries: Seq<(Seq<char>, JsonView)>) -> bool {
    exists|i: int|
        #[trigger] is_first_entry(entries, "templated"@, i) && entries[i].1.node == NodeView::Bool(
            true,
        )
}

/// The link is the one with the name `name` that the entries describe: its
/// address stands in the first entry with the key `href` in any case.
pub open spec fn is_described(
    entries: Seq<(Seq<char>, JsonView)>,
    name: Seq<char>,
    link: LinkView,
) -> bool {
    &&& link.name == name
    &&& forall|i: int| #[trigger]
        is_first_in_any_case(entries, "href"@, i) ==> tells_address(entries[i].1, link.href)
    &&& has_none_in_any_case(entries, "href"@) ==> link.href is None
    &&& link.templated <==> says_templated(entries)
}

proof fn lemma_templated(entries: Seq<(Seq<char>, JsonView)>)
    ensures
        truth(entries, "templated"@) <==> says_templated(entries),
{
    if says_templated(entries) {
        let i = choose|i: int|
            #[trigger] is_first_entry(entries, "templated"@, i) && entries[i].1.node
                == NodeView::Bool(true);
        law_true_is_the_value_true(entries, "templated"@, i);
    } else if truth(entries, "templated"@) {
        let i = lemma_found_somewhere(entries, "templated"@);
        law_true_is_the_value_true(entries, "templated"@, i);
    }
}

/// What is looked up stands somewhere first.
proof fn lemma_found_somewhere(entries: Seq<(Seq<char>, JsonView)>, key: Seq<char>) -> (i: int)
    requires
        lookup(entries, key) is Some,
    ensures
        is_first_entry(entries, key, i),
    decreases entries.len(),
{
    if entries[0].0 == key {
        0
    } else {
        let rest = entries.skip(1);
        let i = lemma_found_somewhere(rest, key);
        assert(forall|k: int| 0 <= k < rest.len() ==> #[trigger] rest[k] == entries[k + 1]);
        assert forall|k: int| 0 <= k < i + 1 implies (#[trigger] entries[k]).0 != key by {
            if k > 0 {
                assert(rest[k - 1] == entries[k]);
            }
        }
        i + 1
    }
}

/// A link is the one that the entries of its object describe.
pub proof fn law_link_is_as_described(name: Seq<char>, entries: Seq<(Seq<char>, JsonView)>)
    ensures
        is_described(entries, name, described_link(name, entries)),
{
    let link = described_link(name, entries);
    assert forall|i: int| #[trigger] is_first_in_any_case(entries, "href"@, i) implies tells_address(
        entries[i].1,
        link.href,
    ) by {
        law_first_entry_in_any_case_is_looked_up(entries, "href"@, i);
    }
    law_first_entry_in_any_case_is_looked_up(entries, "href"@, 0);
    lemma_templated(entries);
}

/// With ASCII keys, the address stands in the first entry with the key `href`
/// up to the case of its letters.
pub proof fn law_link_is_as_plainly_described(
    name: Seq<char>,
    entries: Seq<(Seq<char>, JsonView)>,
    i: int,
)
    ensures
        ({
            let link = plainly_described_link(name, entries);
            &&& link.name == name
            &&& is_first_in_any_ascii_case(entries, "href"@, i) ==> tells_address(
                entries[i].1,
                link.href,
            )
            &&& has_none_in_any_ascii_case(entries, "href"@) ==> link.href is None
            &&& link.templated <==> says_templated(entries)
        }),
{
    law_first_entry_in_any_ascii_case_is_looked_up(entries, "href"@, i);
    lemma_templated(entries);
}

/// A link is written with its name and its address as the `Debug` format quotes
/// them, and with the words for its other parts.
pub proof fn law_link_is_written_in_full(name: Seq<char>, href: Seq<char>)
    ensures
        link_debug_text(LinkView { name, href: None, templated: true }) == "Link { name: "@
            + debug_text(name) + ", href: None, templated: true }"@,
        link_debug_text(LinkView { name, href: None, templated: false }) == "Link { name: "@
            + debug_text(name) + ", href: None, templated: false }"@,
        link_debug_text(LinkView { name, href: Some(href), templated: true }) == "Link { name: "@
            + debug_text(name) + ", href: Some("@ + debug_text(href) + "), templated: true }"@,
        link_debug_text(LinkView { name, href: Some(href), templated: false }) == "Link { name: "@
            + debug_text(name) + ", href: Some("@ + debug_text(href) + "), templated: false }"@,
{
    reveal_strlit("Link { name: ");
    reveal_strlit(", href: ");
    reveal_strlit("None");
    reveal_strlit("Some(");
    reveal_strlit(")");
    reveal_strlit(", templated: ");
    reveal_strlit("true");
    reveal_strlit("false");
    reveal_strlit(" }");
    reveal_strlit(", href: None, templated: true }");
    reveal_strlit(", href: None, templated: false }");
    reveal_strlit(", href: Some(");
    reveal_strlit("), templated: true }");
    reveal_strlit("), templated: false }");
}

/// The resource that was fetched last has an object with its links, and `data`
/// stands there under the name `link`.
pub open spec fn lists(client: ClientView, link: Seq<char>, data: JsonView) -> bool {
    client.path_info matches Some(resource) && exists|links: JsonView|
        #[trigger] holds(resource, "_links"@, links) && holds(links, link, data)
}

proof fn lemma_listed(client: ClientView, link: Seq<char>, data: JsonView)
    requires
        lists(client, link, data),
    ensures
        client.path_info matches Some(resource) && (resource.get("_links"@) matches Some(links)
            && links.get(link) == Some(data)),
{
    let resource = client.path_info->0;
    let links = choose|links: JsonView|
        #[trigger] holds(resource, "_links"@, links) && holds(links, link, data);
    law_object_gives_what_it_holds(resource, "_links"@, links);
    law_object_gives_what_it_holds(links, link, data);
}

/// The link that is found under a name is the one that stands there, and no
/// other; what stands there must be an object.
pub proof fn law_link_is_found_under_its_name(client: ClientView, link: Seq<char>, data: JsonView)
    requires
        lists(client, link, data),
    ensures
        match data.node {
            NodeView::Object(entries) => found_link(client, link) matches Ok(found)
                && is_described(entries, link, found),
            _ => found_link(client, link) == Err::<LinkView, ErrorView>(
                ErrorView::LinkError(
                    "Link is malformed, expected an object but got "@ + data.text + ". URL: '"@
                        + client.url + "', LINK: '"@ + link + "'"@,
                ),
            ),
        },
{
    lemma_listed(client, link, data);
    if let NodeView::Object(entries) = data.node {
        law_link_is_as_described(link, entries);
    }
}

/// The link of the list that `item` stands for: the one that an object
/// describes, or one with the address that any other value tells.
pub open spec fn is_listed(item: JsonView, name: Seq<char>, link: LinkView) -> bool {
    match item.node {
        NodeView::Object(entries) => is_described(entries, name, link),
        _ => link.name == name && tells_address(item, link.href) && !link.templated,
    }
}

/// The links that are found under a name are those of the list that stands
/// there: one for each item, in the order of the items. What stands there must
/// be a list.
pub proof fn law_links_are_found_under_their_name(
    client: ClientView,
    link: Seq<char>,
    data: JsonView,
    i: int,
)
    requires
        lists(client, link, data),
    ensures
        match data.node {
            NodeView::Array(items) => found_links(client, link) matches Ok(links) && links.len()
                == items.len() && (0 <= i < items.len() ==> is_listed(items[i], link, links[i])),
            _ => found_links(client, link) == Err::<Seq<LinkView>, ErrorView>(
                ErrorView::LinkError(
                    "Link is malformed, expcted an object but got "@ + data.text + ". URL: '"@
                        + client.url + "', LINK: '"@ + link + "'"@,
                ),
            ),
        },
{
    lemma_listed(client, link, data);
    if let NodeView::Array(items) = data.node {
        if 0 <= i < items.len() {
            if let NodeView::Object(entries) = items[i].node {
                law_link_is_as_described(link, entries);
            }
        }
    }
}

/// Where nothing was fetched, the resource has no links, or it has others only,
/// neither a link nor a list of links is found, and the failure says which of
/// these it was.
pub proof fn law_missing_links_are_told(client: ClientView, link: Seq<char>, links: JsonView)
    ensures
        client.path_info is None ==> {
            let err = ErrorView::LinkError(
                "No previous resource has been fetched from the pact broker. URL: '"@ + client.url
                    + "', LINK: '"@ + link + "'"@,
            );
            &&& found_link(client, link) == Err::<LinkView, ErrorView>(err)
            &&& found_links(client, link) == Err::<Seq<LinkView>, ErrorView>(err)
        },
        client.path_info matches Some(resource) ==> (lacks(resource, "_links"@) ==> {
            let err = ErrorView::LinkError(
                "Expected a HAL+JSON response from the pact broker, but got a response with no '_links'. URL: '"@
                    + client.url + "', LINK: '"@ + link + "'"@,
            );
            &&& found_link(client, link) == Err::<LinkView, ErrorView>(err)
            &&& found_links(client, link) == Err::<Seq<LinkView>, ErrorView>(err)
        }),
        client.path_info matches Some(resource) ==> (holds(resource, "_links"@, links) && lacks(
            links,
            link,
        ) ==> {
            let err = ErrorView::LinkError(
                "Link '"@ + link
                    + "' was not found in the response, only the following links where found: "@
                    + debug_text(joined(links.keys(), ", "@)) + ". URL: '"@ + client.url
                    + "', LINK: '"@ + link + "'"@,
            );
            &&& found_link(client, link) == Err::<LinkView, ErrorView>(err)
            &&& found_links(client, link) == Err::<Seq<LinkView>, ErrorView>(err)
        }),
{
    if let Some(resource) = client.path_info {
        law_object_gives_what_it_holds(resource, "_links"@, links);
        law_object_gives_what_it_holds(links, link, links);
    }
}

} // verus!
