//! Templates: text with tokens such as `{name}`, and the values for them.
use vstd::prelude::*;
use vstd::string::*;

use crate::text::cat3;

verus! {

/// The values by which the tokens of a template are replaced.
#[derive(Debug, Clone)]
pub struct TemplateValues {
    entries: Vec<(String, String)>,
}

/// The map of the entries, where a later entry replaces an earlier one.
pub closed spec fn entries_map(entries: Seq<(String, String)>) -> Map<Seq<char>, Seq<char>>
    decreases entries.len(),
{
    if entries.len() == 0 {
        Map::empty()
    } else {
        entries_map(entries.drop_last()).insert(entries.last().0@, entries.last().1@)
    }
}

impl View for TemplateValues {
    type V = Map<Seq<char>, Seq<char>>;

    closed spec fn view(&self) -> Map<Seq<char>, Seq<char>> {
        entries_map(self.entries@)
    }
}

impl TemplateValues {
    /// No values.
    pub fn new() -> (r: TemplateValues)
        ensures
            r@ == Map::<Seq<char>, Seq<char>>::empty(),
    {
        TemplateValues { entries: Vec::new() }
    }

    /// Sets the value for `key`.
    pub fn insert(&mut self, key: String, value: String)
        ensures
            final(self)@ == old(self)@.insert(key@, value@),
    {
        let ghost before = self.entries@;
        self.entries.push((key, value));
        assert(self.entries@.drop_last() =~= before);
    }

    /// The value for `key`.
    pub fn get(&self, key: &str) -> (r: Option<&String>)
        ensures
            match r {
                Some(value) => self@.contains_key(key@) && self@[key@] == value@,
                None => !self@.contains_key(key@),
            },
    {
        let wanted: String = key.to_owned();
        let mut i: usize = self.entries.len();
        assert(self.entries@.take(i as int) =~= self.entries@);
        while i > 0
            invariant
                i <= self.entries.len(),
                wanted@ == key@,
                self@.contains_key(key@) == entries_map(self.entries@.take(i as int)).contains_key(
                    key@,
                ),
                self@.contains_key(key@) ==> self@[key@] == entries_map(
                    self.entries@.take(i as int),
                )[key@],
            decreases i,
        {
            assert(self.entries@.take(i as int).drop_last() =~= self.entries@.take(i - 1));
            i = i - 1;
            if self.entries[i].0 == wanted {
                return Some(&self.entries[i].1);
            }
        }
        None
    }
}

/// Whether the class `\w` of a regular expression holds `c`, for a character
/// `c` outside ASCII.
pub uninterp spec fn unicode_word(c: char) -> bool;

/// Whether the class `\w` of a regular expression holds `c`.
pub open spec fn is_word(c: char) -> bool {
    if c <= '\x7f' {
        ('0' <= c && c <= '9') || ('A' <= c && c <= 'Z') || c == '_' || ('a' <= c && c <= 'z')
    } else {
        unicode_word(c)
    }
}

/// How many word characters `text` starts with.
pub open spec fn word_run(text: Seq<char>) -> nat
    decreases text.len(),
{
    if text.len() > 0 && is_word(text[0]) {
        1 + word_run(text.skip(1))
    } else {
        0
    }
}

/// The length of the token that `text` starts with: a brace, one word character
/// or more, and a closing brace. Zero if it starts with none.
pub open spec fn token_len(text: Seq<char>) -> nat {
    let word = word_run(text.skip(1));
    if text.len() > 0 && text[0] == '{' && word > 0 && word + 1 < text.len() && text[(word
        + 1) as int]
        == '}' {
        word + 2
    } else {
        0
    }
}

/// The key of the token that `text` starts with.
pub open spec fn token_key(text: Seq<char>) -> Seq<char> {
    text.subrange(1, token_len(text) - 1)
}

/// No token starts in `text` before position `end`.
pub open spec fn token_free(text: Seq<char>, end: int) -> bool {
    forall|i: int| 0 <= i < end ==> token_len(#[trigger] text.skip(i)) == 0
}

/// `before`, then a token with the key `key`, then `after` make up `text`, and
/// no token starts further left.
pub open spec fn first_token(
    text: Seq<char>,
    before: Seq<char>,
    key: Seq<char>,
    after: Seq<char>,
) -> bool {
    &&& text == before + "{"@ + key + "}"@ + after
    &&& token_len(text.skip(before.len() as int)) == key.len() + 2
    &&& token_free(text, before.len() as int)
}

/// What stands in place of the token with the key `key`: the value for it, or
/// the token itself if there is none.
pub open spec fn replacement(key: Seq<char>, values: Map<Seq<char>, Seq<char>>) -> Seq<char> {
    if values.contains_key(key) {
        values[key]
    } else {
        "{"@ + key + "}"@
    }
}

/// `text` with every token replaced, from left to right.
pub open spec fn expanded(text: Seq<char>, values: Map<Seq<char>, Seq<char>>) -> Seq<char>
    decreases text.len(),
{
    if text.len() == 0 {
        text
    } else if token_len(text) > 0 {
        replacement(token_key(text), values) + expanded(
            text.skip(token_len(text) as int),
            values,
        )
    } else {
        seq![text[0]] + expanded(text.skip(1), values)
    }
}

/// The pattern of a token.
pub const TOKEN_PATTERN: &'static str = "\\{(\\w+)\\}";

/// Calls `Regex::new`, `Regex::captures`, `Captures::pos` and `Captures::at`
/// of `regex`. Claimed: the search finds the leftmost token and cuts the text
/// into what stands before it, its key and what stands behind it; it finds
/// nothing exactly if there is no token. Which characters outside ASCII belong
/// to `\w` is left to `regex`.
#[verifier::external_body]
fn next_token(pattern: &str, text: &str) -> (r: Option<(String, String, String)>)
    requires
        pattern@ == TOKEN_PATTERN@,
    ensures
        match r {
            Some(cut) => first_token(text@, cut.0@, cut.1@, cut.2@),
            None => token_free(text@, text@.len() as int),
        },
        r matches Some(cut) ==> forall|i: int|
            0 <= i < cut.1@.len() && (#[trigger] cut.1@[i]) > '\x7f' ==> unicode_word(cut.1@[i]),
{
    let token = regex::Regex::new(pattern).unwrap();
    let caps = token.captures(text)?;
    let (start, end) = caps.pos(0)?;
    let key = caps.at(1)?;
    Some((text[..start].to_owned(), key.to_owned(), text[end..].to_owned()))
}

/// What stands in place of the token with the key `key`.
pub fn token_value(key: &str, values: &TemplateValues) -> (r: String)
    ensures
        r@ == replacement(key@, values@),
{
    match values.get(key) {
        Some(value) => value.clone(),
        None => cat3("{", key, "}"),
    }
}

/// Replaces every token of `text` that `values` has a value for, in one pass
/// from left to right; the others stay as they are.
pub fn expand(text: &str, values: &TemplateValues) -> (r: String)
    ensures
        r@ == expanded(text@, values@),
{
    let mut out = String::new();
    let mut rest: String = text.to_owned();
    loop
        invariant
            out@ + expanded(rest@, values@) == expanded(text@, values@),
        decreases rest@.len(),
    {
        match next_token(TOKEN_PATTERN, rest.as_str()) {
            Some(cut) => {
                let (before, key, after) = cut;
                proof {
                    lemma_first_token(rest@, before@, key@, after@, values@);
                }
                out.append(before.as_str());
                out.append(token_value(key.as_str(), values).as_str());
                rest = after;
            },
            None => {
                proof {
                    law_text_without_tokens_stays(rest@, values@);
                }
                out.append(rest.as_str());
                return out;
            },
        }
    }
}

/// A start of the text in which no token starts is kept as it is.
proof fn lemma_token_free_start(text: Seq<char>, end: int, values: Map<Seq<char>, Seq<char>>)
    requires
        0 <= end <= text.len(),
        token_free(text, end),
    ensures
        expanded(text, values) == text.take(end) + expanded(text.skip(end), values),
    decreases end,
{
    if end == 0 {
        assert(text.skip(0) =~= text);
        assert(text.take(0) + expanded(text, values) =~= expanded(text, values));
    } else {
        assert(text.skip(0) =~= text);
        assert(token_len(text.skip(0)) == 0);
        let rest = text.skip(1);
        assert forall|i: int| 0 <= i < end - 1 implies token_len(#[trigger] rest.skip(i)) == 0 by {
            assert(rest.skip(i) =~= text.skip(i + 1));
        }
        lemma_token_free_start(rest, end - 1, values);
        assert(rest.skip(end - 1) =~= text.skip(end));
        assert(text.take(end) =~= seq![text[0]] + rest.take(end - 1));
        assert(expanded(text, values) =~= text.take(end) + expanded(text.skip(end), values));
    }
}

/// The first token is replaced, and what follows it is expanded by itself.
proof fn lemma_first_token(
    text: Seq<char>,
    before: Seq<char>,
    key: Seq<char>,
    after: Seq<char>,
    values: Map<Seq<char>, Seq<char>>,
)
    requires
        first_token(text, before, key, after),
    ensures
        expanded(text, values) == before + replacement(key, values) + expanded(after, values),
        after.len() < text.len(),
{
    reveal_strlit("{");
    reveal_strlit("}");
    let start = before.len() as int;
    let tail = text.skip(start);
    lemma_token_free_start(text, start, values);
    assert(text.take(start) =~= before);
    assert(token_key(tail) =~= key);
    assert(tail.skip(token_len(tail) as int) =~= after);
    assert(before + (replacement(key, values) + expanded(after, values)) =~= before + replacement(
        key,
        values,
    ) + expanded(after, values));
}

/// Text without tokens comes out of `expand` unchanged.
pub proof fn law_text_without_tokens_stays(text: Seq<char>, values: Map<Seq<char>, Seq<char>>)
    requires
        token_free(text, text.len() as int),
    ensures
        expanded(text, values) == text,
{
    lemma_token_free_start(text, text.len() as int, values);
    assert(text.skip(text.len() as int) =~= seq![]);
    assert(text.take(text.len() as int) + seq![] =~= text);
}

/// No token of `text` has a value.
pub open spec fn tokens_have_no_value(
    text: Seq<char>,
    values: Map<Seq<char>, Seq<char>>,
) -> bool {
    forall|i: int|
        0 <= i < text.len() && token_len(#[trigger] text.skip(i)) > 0 ==> !values.contains_key(
            token_key(text.skip(i)),
        )
}

/// Tokens without a value come out of `expand` unchanged; with no values at
/// all, so does any text.
pub proof fn law_tokens_without_value_stay(text: Seq<char>, values: Map<Seq<char>, Seq<char>>)
    requires
        tokens_have_no_value(text, values),
    ensures
        expanded(text, values) == text,
    decreases text.len(),
{
    if text.len() > 0 {
        if token_len(text) > 0 {
            lemma_rest_has_no_value(text, token_len(text) as int, values);
            law_tokens_without_value_stay(text.skip(token_len(text) as int), values);
            lemma_over_token(text, values);
        } else {
            lemma_rest_has_no_value(text, 1, values);
            law_tokens_without_value_stay(text.skip(1), values);
            assert(seq![text[0]] + text.skip(1) =~= text);
        }
    }
}

/// If no token of a text has a value, none of an end of it has.
proof fn lemma_rest_has_no_value(
    text: Seq<char>,
    start: int,
    values: Map<Seq<char>, Seq<char>>,
)
    requires
        tokens_have_no_value(text, values),
        0 <= start <= text.len(),
    ensures
        tokens_have_no_value(text.skip(start), values),
{
    let rest = text.skip(start);
    assert forall|i: int| 0 <= i < rest.len() && token_len(#[trigger] rest.skip(i)) > 0 implies
        !values.contains_key(token_key(rest.skip(i))) by {
        assert(rest.skip(i) =~= text.skip(start + i));
    }
}

/// A token without a value at the start of a text is replaced by itself.
proof fn lemma_over_token(text: Seq<char>, values: Map<Seq<char>, Seq<char>>)
    requires
        tokens_have_no_value(text, values),
        token_len(text) > 0,
    ensures
        replacement(token_key(text), values) + text.skip(token_len(text) as int) == text,
{
    assert(text.skip(0) =~= text);
    assert(!values.contains_key(token_key(text.skip(0))));
    reveal_strlit("{");
    reveal_strlit("}");
    assert("{"@ + token_key(text) + "}"@ + text.skip(token_len(text) as int) =~= text);
}

/// A token in any text is replaced by its value as it is: the value is not
/// searched for tokens again, and the text behind the token is expanded by
/// itself.
pub proof fn law_token_is_replaced_once(
    before: Seq<char>,
    key: Seq<char>,
    after: Seq<char>,
    values: Map<Seq<char>, Seq<char>>,
)
    requires
        token_free(before, before.len() as int),
        key.len() > 0,
        forall|i: int| 0 <= i < key.len() ==> is_word(#[trigger] key[i]),
    ensures
        expanded(before + "{"@ + key + "}"@ + after, values) == before + replacement(key, values)
            + expanded(after, values),
{
    reveal_strlit("{");
    reveal_strlit("}");
    let text = before + "{"@ + key + "}"@ + after;
    let start = before.len() as int;
    let tail = text.skip(start);
    assert(tail =~= "{"@ + key + "}"@ + after);
    assert(tail.skip(1) =~= key + ("}"@ + after));
    lemma_word_run(key, "}"@ + after);
    assert(token_free(text, start)) by {
        assert forall|i: int| 0 <= i < start implies token_len(#[trigger] text.skip(i)) == 0 by {
            let inner = before.skip(i);
            let other = tail;
            assert(text.skip(i) =~= inner + other);
            assert(token_len(inner) == 0);
            lemma_token_before_brace(inner, other);
        }
    }
    lemma_first_token(text, before, key, after, values);
}

/// A run of word characters ends where another character follows.
proof fn lemma_word_run(word: Seq<char>, rest: Seq<char>)
    requires
        forall|i: int| 0 <= i < word.len() ==> is_word(#[trigger] word[i]),
        rest.len() > 0,
        !is_word(rest[0]),
    ensures
        word_run(word + rest) == word.len(),
    decreases word.len(),
{
    if word.len() == 0 {
        assert(word + rest =~= rest);
    } else {
        assert((word + rest).skip(1) =~= word.skip(1) + rest);
        assert((word + rest)[0] == word[0]);
        lemma_word_run(word.skip(1), rest);
    }
}

/// A brace that follows does not change whether a text starts with a token.
proof fn lemma_token_before_brace(text: Seq<char>, rest: Seq<char>)
    requires
        text.len() > 0,
        rest.len() > 0,
        rest[0] == '{',
        token_len(text) == 0,
    ensures
        token_len(text + rest) == 0,
{
    assert((text + rest).skip(1) =~= text.skip(1) + rest);
    lemma_word_run_before_brace(text.skip(1), rest);
}

proof fn lemma_word_run_before_brace(text: Seq<char>, rest: Seq<char>)
    requires
        rest.len() > 0,
        rest[0] == '{',
    ensures
        word_run(text + rest) == word_run(text),
        word_run(text) <= text.len(),
    decreases text.len(),
{
    if text.len() == 0 {
        assert(text + rest =~= rest);
    } else {
        assert((text + rest).skip(1) =~= text.skip(1) + rest);
        lemma_word_run_before_brace(text.skip(1), rest);
    }
}

} // verus!
