//! JSON values, as far as the client reads them.
use vstd::prelude::*;

use crate::text::{ascii_lowered, is_ascii_text, lowercase, lowercase_text, texts};

verus! {

/// A JSON value together with its text.
#[derive(Debug, PartialEq)]
pub struct Json {
    /// The value as compact JSON text.
    pub text: String,
    /// What kind of value it is, and what it is made of.
    pub node: Node,
}

/// The kinds of JSON values. Of a number only the text is of interest. The
/// entries of an object stand in ascending order of their keys.
#[derive(Debug, PartialEq)]
pub enum Node {
    Null,
    Bool(bool),
    Number,
    String(String),
    Array(Vec<Json>),
    Object(Vec<(String, Json)>),
}

/// The model of a JSON value.
pub struct JsonView {
    pub text: Seq<char>,
    pub node: NodeView,
}

/// The model of what a JSON value is made of.
pub enum NodeView {
    Null,
    Bool(bool),
    Number,
    String(Seq<char>),
    Array(Seq<JsonView>),
    Object(Seq<(Seq<char>, JsonView)>),
}

impl Json {
    /// The model of this value.
    pub open spec fn model(self) -> JsonView
        decreases self,
    {
        JsonView {
            text: self.text@,
            node: match self.node {
                Node::Null => NodeView::Null,
                Node::Bool(b) => NodeView::Bool(b),
                Node::Number => NodeView::Number,
                Node::String(s) => NodeView::String(s@),
                Node::Array(items) => NodeView::Array(
                    Seq::new(
                        items@.len(),
                        |i: int|
                            if 0 <= i < items@.len() {
                                items@[i].model()
                            } else {
                                arbitrary()
                            },
                    ),
                ),
                Node::Object(entries) => NodeView::Object(
                    Seq::new(
                        entries@.len(),
                        |i: int|
                            if 0 <= i < entries@.len() {
                                (entries@[i].0@, entries@[i].1.model())
                            } else {
                                arbitrary()
                            },
                    ),
                ),
            },
        }
    }
}

impl View for Json {
    type V = JsonView;

    open spec fn view(&self) -> JsonView {
        self.model()
    }
}

/// The model of the entries of an object.
pub open spec fn entries_model(entries: Seq<(String, Json)>) -> Seq<(Seq<char>, JsonView)> {
    entries.map_values(|e: (String, Json)| (e.0@, e.1@))
}

/// The value of the first entry with the key `key`.
pub open spec fn lookup(entries: Seq<(Seq<char>, JsonView)>, key: Seq<char>) -> Option<JsonView>
    decreases entries.len(),
{
    if entries.len() == 0 {
        None
    } else if entries[0].0 == key {
        Some(entries[0].1)
    } else {
        lookup(entries.skip(1), key)
    }
}

/// The value of the first entry whose key equals `key` when both are in lower case.
pub open spec fn lookup_ignoring_case(
    entries: Seq<(Seq<char>, JsonView)>,
    key: Seq<char>,
) -> Option<JsonView> {
    match first_position(
        entries.map_values(|e: (Seq<char>, JsonView)| lowercase_text(e.0)),
        lowercase_text(key),
    ) {
        Some(i) => Some(entries[i].1),
        None => None,
    }
}

/// All keys are of ASCII characters.
pub open spec fn has_ascii_keys(entries: Seq<(Seq<char>, JsonView)>) -> bool {
    forall|i: int| 0 <= i < entries.len() ==> is_ascii_text((#[trigger] entries[i]).0)
}

/// The value of the first entry whose key equals `key` up to the case of ASCII
/// letters.
pub open spec fn lookup_ignoring_ascii_case(
    entries: Seq<(Seq<char>, JsonView)>,
    key: Seq<char>,
) -> Option<JsonView>
    decreases entries.len(),
{
    if entries.len() == 0 {
        None
    } else if ascii_lowered(entries[0].0) == ascii_lowered(key) {
        Some(entries[0].1)
    } else {
        lookup_ignoring_ascii_case(entries.skip(1), key)
    }
}

/// The first position of `name` in `names`.
pub open spec fn first_position(names: Seq<Seq<char>>, name: Seq<char>) -> Option<int>
    decreases names.len(),
{
    if names.len() == 0 {
        None
    } else if names[0] == name {
        Some(0)
    } else {
        match first_position(names.skip(1), name) {
            Some(i) => Some(i + 1),
            None => None,
        }
    }
}

/// Whether the key `field` stands for the JSON value `true`.
pub open spec fn truth(entries: Seq<(Seq<char>, JsonView)>, field: Seq<char>) -> bool {
    match lookup(entries, field) {
        Some(json) => json.node == NodeView::Bool(true),
        None => false,
    }
}

/// Whether `a` comes before `b` in the order of strings.
pub open spec fn precedes(a: Seq<char>, b: Seq<char>) -> bool
    decreases a.len(),
{
    if b.len() == 0 {
        false
    } else if a.len() == 0 {
        true
    } else if a[0] == b[0] {
        precedes(a.skip(1), b.skip(1))
    } else {
        a[0] < b[0]
    }
}

impl JsonView {
    /// The value that an object holds under `key`; nothing if this is no object.
    pub open spec fn get(self, key: Seq<char>) -> Option<JsonView> {
        match self.node {
            NodeView::Object(entries) => lookup(entries, key),
            _ => None,
        }
    }

    /// The keys of an object in their order; none if this is no object.
    pub open spec fn keys(self) -> Seq<Seq<char>> {
        match self.node {
            NodeView::Object(entries) => entries.map_values(|e: (Seq<char>, JsonView)| e.0),
            _ => seq![],
        }
    }

    /// The content of a string; of any other value its JSON text.
    pub open spec fn content(self) -> Seq<char> {
        match self.node {
            NodeView::String(s) => s,
            _ => self.text,
        }
    }

    /// In every object, at any depth, the keys ascend strictly.
    pub open spec fn well_formed(self) -> bool
        decreases self,
    {
        match self.node {
            NodeView::Array(items) => forall|i: int|
                0 <= i < items.len() ==> (#[trigger] items[i]).well_formed(),
            NodeView::Object(entries) => {
                &&& forall|i: int, j: int|
                    0 <= i < j < entries.len() ==> precedes(
                        #[trigger] entries[i].0,
                        #[trigger] entries[j].0,
                    )
                &&& forall|i: int|
                    0 <= i < entries.len() ==> (#[trigger] entries[i]).1.well_formed()
            },
            _ => true,
        }
    }
}

/// A JSON value in the form in which `serde_json` holds it.
#[verifier::external_type_specification]
#[verifier::external_body]
pub struct ExValue(serde_json::Value);

/// The JSON value that a `serde_json::Value` holds.
pub uninterp spec fn value_model(value: serde_json::Value) -> JsonView;

/// What `serde_json::from_slice` reads from `body`: a JSON value, or the text
/// of the error.
pub uninterp spec fn parsed_json(body: Seq<u8>) -> Result<JsonView, Seq<char>>;

/// Calls `serde_json::from_slice` for a `serde_json::Value`. Claimed: what
/// comes back, or the text of the error, depends on the bytes alone.
#[verifier::external_body]
fn read_value(body: &[u8]) -> (r: Result<serde_json::Value, String>)
    ensures
        match r {
            Ok(value) => parsed_json(body@) == Ok::<JsonView, Seq<char>>(value_model(value)),
            Err(text) => parsed_json(body@) == Err::<JsonView, Seq<char>>(text@),
        },
{
    serde_json::from_slice(body).map_err(|err: serde_json::Error| err.to_string())
}

/// Takes a `serde_json::Value` apart, and calls its `Display` format for the
/// text of each part. Claimed: the outcome is the value that was held, and the
/// keys of each object in it ascend strictly, because `serde_json::Map` keeps
/// them in a `BTreeMap`.
#[verifier::external_body]
fn from_value(value: serde_json::Value) -> (r: Json)
    ensures
        r@ == value_model(value),
        r@.well_formed(),
{
    let text = value.to_string();
    let node = match value {
        serde_json::Value::Null => Node::Null,
        serde_json::Value::Bool(b) => Node::Bool(b),
        serde_json::Value::Number(_) => Node::Number,
        serde_json::Value::String(s) => Node::String(s),
        serde_json::Value::Array(items) => Node::Array(items.into_iter().map(from_value).collect()),
        serde_json::Value::Object(map) => Node::Object(
            map.into_iter().map(|entry| (entry.0, from_value(entry.1))).collect(),
        ),
    };
    Json { text, node }
}

impl Json {
    /// Reads a JSON value from `body`; on failure, the text of the error.
    pub fn parse(body: &[u8]) -> (r: Result<Json, String>)
        ensures
            match r {
                Ok(json) => parsed_json(body@) == Ok::<JsonView, Seq<char>>(json@)
                    && json@.well_formed(),
                Err(text) => parsed_json(body@) == Err::<JsonView, Seq<char>>(text@),
            },
    {
        match read_value(body) {
            Ok(value) => Ok(from_value(value)),
            Err(text) => Err(text),
        }
    }

    /// The value that an object holds under `key`; nothing if this is no object.
    pub fn get(&self, key: &str) -> (r: Option<&Json>)
        ensures
            match r {
                Some(json) => self@.get(key@) == Some(json@),
                None => self@.get(key@) is None,
            },
    {
        match &self.node {
            Node::Object(entries) => {
                proof {
                    lemma_object_model(*self);
                }
                get_entry(entries, key)
            },
            _ => None,
        }
    }

    /// The keys of an object in their order; none if this is no object.
    pub fn keys(&self) -> (r: Vec<String>)
        ensures
            texts(r@) == self@.keys(),
    {
        let mut out: Vec<String> = Vec::new();
        match &self.node {
            Node::Object(entries) => {
                let mut i: usize = 0;
                while i < entries.len()
                    invariant
                        i <= entries.len(),
                        out@.len() == i,
                        forall|k: int| 0 <= k < i ==> (#[trigger] out@[k])@ == entries@[k].0@,
                    decreases entries.len() - i,
                {
                    out.push(entries[i].0.clone());
                    i = i + 1;
                }
                assert(texts(out@) =~= self@.keys());
            },
            _ => {
                assert(texts(out@) =~= self@.keys());
            },
        }
        out
    }
}

/// The entries of an object, and those of its model.
pub(crate) proof fn lemma_object_model(json: Json)
    ensures
        match json.node {
            Node::Object(entries) => json@.node == NodeView::Object(entries_model(entries@)),
            _ => !(json@.node is Object),
        },
{
    if let Node::Object(entries) = json.node {
        assert(json@.node->Object_0 =~= entries_model(entries@));
    }
}

/// The value of the first entry with the key `key`.
pub fn get_entry<'a>(entries: &'a Vec<(String, Json)>, key: &str) -> (r: Option<&'a Json>)
    ensures
        match r {
            Some(json) => lookup(entries_model(entries@), key@) == Some(json@),
            None => lookup(entries_model(entries@), key@) is None,
        },
{
    let wanted: String = key.to_owned();
    let ghost all = entries_model(entries@);
    let mut i: usize = 0;
    assert(all.skip(0) =~= all);
    while i < entries.len()
        invariant
            i <= entries.len(),
            wanted@ == key@,
            all == entries_model(entries@),
            lookup(all, key@) == lookup(all.skip(i as int), key@),
        decreases entries.len() - i,
    {
        assert(all.skip(i as int)[0] == (entries@[i as int].0@, entries@[i as int].1@));
        assert(all.skip(i as int).skip(1) =~= all.skip(i + 1));
        if entries[i].0 == wanted {
            return Some(&entries[i].1);
        }
        i = i + 1;
    }
    None
}

/// Whether the entry `field` is the JSON value `true`.
pub fn is_true(object: &Vec<(String, Json)>, field: &str) -> (r: bool)
    ensures
        r == truth(entries_model(object@), field@),
{
    match get_entry(object, field) {
        Some(json) => match json.node {
            Node::Bool(b) => b,
            _ => false,
        },
        None => false,
    }
}

/// The content of a string; of any other value its JSON text.
pub fn as_string(json: &Json) -> (r: String)
    ensures
        r@ == json@.content(),
{
    match &json.node {
        Node::String(s) => s.clone(),
        _ => json.text.clone(),
    }
}

/// The first position of `name` in `names`.
pub fn position(names: &Vec<String>, name: &String) -> (r: Option<usize>)
    ensures
        match r {
            Some(i) => first_position(texts(names@), name@) == Some(i as int) && i < names.len(),
            None => first_position(texts(names@), name@) is None,
        },
{
    let ghost all = texts(names@);
    let mut i: usize = 0;
    assert(all.skip(0) =~= all);
    while i < names.len()
        invariant
            i <= names.len(),
            all == texts(names@),
            first_position(all, name@) == (match first_position(all.skip(i as int), name@) {
                Some(k) => Some(k + i),
                None => None,
            }),
        decreases names.len() - i,
    {
        assert(all.skip(i as int)[0] == names@[i as int]@);
        assert(all.skip(i as int).skip(1) =~= all.skip(i + 1));
        if names[i] == *name {
            return Some(i);
        }
        i = i + 1;
    }
    None
}

/// The first entry whose key equals `key` when both are in lower case: `key`
/// as given, and the value. If all these keys are ASCII, that is the first
/// entry whose key equals `key` up to the case of its letters.
pub fn find_entry<'a>(map: &'a Vec<(String, Json)>, key: &str) -> (r: Option<(String, &'a Json)>)
    ensures
        match r {
            Some(entry) => entry.0@ == key@ && lookup_ignoring_case(entries_model(map@), key@)
                == Some(entry.1@),
            None => lookup_ignoring_case(entries_model(map@), key@) is None,
        },
        has_ascii_keys(entries_model(map@)) && is_ascii_text(key@) ==> (match r {
            Some(entry) => lookup_ignoring_ascii_case(entries_model(map@), key@) == Some(entry.1@),
            None => lookup_ignoring_ascii_case(entries_model(map@), key@) is None,
        }),
{
    let mut lowered: Vec<String> = Vec::new();
    let mut i: usize = 0;
    while i < map.len()
        invariant
            i <= map.len(),
            lowered@.len() == i,
            forall|k: int|
                0 <= k < i ==> (#[trigger] lowered@[k])@ == lowercase_text(map@[k].0@) && (
                is_ascii_text(map@[k].0@) ==> lowered@[k]@ == ascii_lowered(map@[k].0@)),
        decreases map.len() - i,
    {
        lowered.push(lowercase(map[i].0.as_str()));
        i = i + 1;
    }
    assert(texts(lowered@) =~= entries_model(map@).map_values(
        |e: (Seq<char>, JsonView)| lowercase_text(e.0),
    ));
    let wanted = lowercase(key);
    proof {
        if has_ascii_keys(entries_model(map@)) && is_ascii_text(key@) {
            let all = entries_model(map@);
            assert forall|i: int| 0 <= i < all.len() implies texts(lowered@)[i] == ascii_lowered(
                (#[trigger] all[i]).0,
            ) by {
                assert(is_ascii_text(all[i].0));
                assert(texts(lowered@)[i] == lowered@[i]@);
            }
            lemma_ascii_position(all, texts(lowered@), key@);
        }
    }
    match position(&lowered, &wanted) {
        Some(k) => Some((key.to_owned(), &map[k].1)),
        None => None,
    }
}

/// In a well-formed object the key of each entry leads to the value of that
/// entry: no entry hides another.
pub proof fn law_each_key_leads_to_its_value(json: JsonView, i: int)
    requires
        json.well_formed(),
        json.node is Object,
        0 <= i < json.node->Object_0.len(),
    ensures
        json.get(json.node->Object_0[i].0) == Some(json.node->Object_0[i].1),
{
    lemma_lookup(json.node->Object_0, i);
}

proof fn lemma_lookup(entries: Seq<(Seq<char>, JsonView)>, i: int)
    requires
        0 <= i < entries.len(),
        forall|i: int, j: int|
            0 <= i < j < entries.len() ==> precedes(
                #[trigger] entries[i].0,
                #[trigger] entries[j].0,
            ),
    ensures
        lookup(entries, entries[i].0) == Some(entries[i].1),
    decreases i,
{
    if i > 0 {
        lemma_precedes_irreflexive(entries[i].0);
        assert(precedes(entries[0].0, entries[i].0));
        let rest = entries.skip(1);
        assert forall|i: int, j: int| 0 <= i < j < rest.len() implies precedes(
            #[trigger] rest[i].0,
            #[trigger] rest[j].0,
        ) by {
            assert(precedes(entries[i + 1].0, entries[j + 1].0));
        }
        lemma_lookup(rest, i - 1);
        assert(rest[i - 1] == entries[i]);
    }
}

proof fn lemma_precedes_irreflexive(text: Seq<char>)
    ensures
        !precedes(text, text),
    decreases text.len(),
{
    if text.len() > 0 {
        lemma_precedes_irreflexive(text.skip(1));
    }
}

/// An entry that is there under the very key is there when the case is ignored.
pub proof fn law_ignoring_case_misses_no_key(entries: Seq<(Seq<char>, JsonView)>, key: Seq<char>)
    ensures
        lookup(entries, key) is Some ==> lookup_ignoring_case(entries, key) is Some,
    decreases entries.len(),
{
    if entries.len() > 0 {
        law_ignoring_case_misses_no_key(entries.skip(1), key);
        let lowered = entries.map_values(|e: (Seq<char>, JsonView)| lowercase_text(e.0));
        assert(lowered.skip(1) =~= entries.skip(1).map_values(
            |e: (Seq<char>, JsonView)| lowercase_text(e.0),
        ));
    }
}

/// The first position of a key in lower case is that of the entry which the
/// lookup finds.
proof fn lemma_ascii_position(
    entries: Seq<(Seq<char>, JsonView)>,
    lowered: Seq<Seq<char>>,
    key: Seq<char>,
)
    requires
        lowered.len() == entries.len(),
        forall|i: int|
            0 <= i < entries.len() ==> lowered[i] == ascii_lowered((#[trigger] entries[i]).0),
    ensures
        lookup_ignoring_ascii_case(entries, key) == (match first_position(
            lowered,
            ascii_lowered(key),
        ) {
            Some(i) => Some(entries[i].1),
            None => None,
        }),
        first_position(lowered, ascii_lowered(key)) matches Some(i) ==> 0 <= i < entries.len(),
    decreases entries.len(),
{
    if entries.len() > 0 {
        assert(lowered[0] == ascii_lowered(entries[0].0));
        let rest = entries.skip(1);
        assert forall|i: int| 0 <= i < rest.len() implies lowered.skip(1)[i] == ascii_lowered(
            (#[trigger] rest[i]).0,
        ) by {
            assert(lowered[i + 1] == ascii_lowered(entries[i + 1].0));
        }
        lemma_ascii_position(rest, lowered.skip(1), key);
    }
}

} // verus!
