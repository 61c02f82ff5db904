//! The links of a HAL resource.
use vstd::prelude::*;

use crate::json::{
    as_string, entries_model, find_entry, has_ascii_keys, is_true, lookup_ignoring_ascii_case,
    lookup_ignoring_case, truth, Json, JsonView,
};
use crate::text::{
    cat3, cat7, debug_quoted, debug_text, is_plain_text, optional_text, quoted,
};

verus! {

/// A link of a resource.
#[derive(Debug, Clone)]
pub struct Link {
    /// The name under which the resource lists the link.
    pub name: String,
    /// Where the link leads, if it says so.
    pub href: Option<String>,
    /// Whether the address is a template.
    pub templated: bool,
}

/// The model of a link.
pub struct LinkView {
    pub name: Seq<char>,
    pub href: Option<Seq<char>>,
    pub templated: bool,
}

impl View for Link {
    type V = LinkView;

    open spec fn view(&self) -> LinkView {
        LinkView { name: self.name@, href: optional_text(self.href), templated: self.templated }
    }
}

/// The link `name` that an object with the entries `data` describes: its
/// address is the entry `href`, in any case, and it is a template if the
/// entry `templated` is true.
pub open spec fn described_link(name: Seq<char>, data: Seq<(Seq<char>, JsonView)>) -> LinkView {
    LinkView {
        name: name,
        href: match lookup_ignoring_case(data, "href"@) {
            Some(json) => Some(json.content()),
            None => None,
        },
        templated: truth(data, "templated"@),
    }
}

/// The link `name` that an object with the entries `data`, all with ASCII keys,
/// describes.
pub open spec fn plainly_described_link(
    name: Seq<char>,
    data: Seq<(Seq<char>, JsonView)>,
) -> LinkView {
    LinkView {
        name: name,
        href: match lookup_ignoring_ascii_case(data, "href"@) {
            Some(json) => Some(json.content()),
            None => None,
        },
        templated: truth(data, "templated"@),
    }
}

/// The name and the address are plain text.
pub open spec fn is_plain_link(link: LinkView) -> bool {
    is_plain_text(link.name) && (link.href matches Some(href) ==> is_plain_text(href))
}

/// A link whose name and address are plain text, in the notation of the `Debug`
/// format.
pub open spec fn plain_link_debug_text(link: LinkView) -> Seq<char> {
    "Link { name: "@ + quoted(link.name) + ", href: "@ + match link.href {
        Some(href) => "Some("@ + quoted(href) + ")"@,
        None => "None"@,
    } + ", templated: "@ + if link.templated {
        "true"@
    } else {
        "false"@
    } + " }"@
}

/// The link in the notation of the `Debug` format.
pub open spec fn link_debug_text(link: LinkView) -> Seq<char> {
    "Link { name: "@ + debug_text(link.name) + ", href: "@ + match link.href {
        Some(href) => "Some("@ + debug_text(href) + ")"@,
        None => "None"@,
    } + ", templated: "@ + if link.templated {
        "true"@
    } else {
        "false"@
    } + " }"@
}

impl Link {
    /// The link `link` that a JSON object describes.
    pub fn from_json(link: &String, link_data: &Vec<(String, Json)>) -> (r: Link)
        ensures
            r@ == described_link(link@, entries_model(link_data@)),
            has_ascii_keys(entries_model(link_data@)) ==> r@ == plainly_described_link(
                link@,
                entries_model(link_data@),
            ),
    {
        proof {
            reveal_strlit("href");
        }
        let href: Option<String> = match find_entry(link_data, "href") {
            Some(entry) => Some(as_string(entry.1)),
            None => None,
        };
        Link { name: link.clone(), href, templated: is_true(link_data, "templated") }
    }

    /// The link in the notation of the `Debug` format.
    pub fn debug_text(&self) -> (r: String)
        ensures
            r@ == link_debug_text(self@),
            is_plain_link(self@) ==> r@ == plain_link_debug_text(self@),
    {
        let name = debug_quoted(self.name.as_str());
        let href = match &self.href {
            Some(href) => cat3("Some(", debug_quoted(href.as_str()).as_str(), ")"),
            None => "None".to_owned(),
        };
        let templated = if self.templated {
            "true"
        } else {
            "false"
        };
        cat7(
            "Link { name: ",
            name.as_str(),
            ", href: ",
            href.as_str(),
            ", templated: ",
            templated,
            " }",
        )
    }
}

} // verus!
