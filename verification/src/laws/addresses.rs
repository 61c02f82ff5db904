//! Addresses: how they are put together, and how templates are filled in.
use vstd::prelude::*;

use crate::client::{expanded_address, link_address};
use crate::error::ErrorView;
use crate::link::LinkView;
use crate::template::{
    expanded, is_word, law_text_without_tokens_stays, law_token_is_replaced_once, token_free,
    token_len, word_run,
};
use crate::text::{joined, joined_paths, without_leading_slashes, without_trailing_slashes};

verus! {

/// Slashes and nothing else.
pub open spec fn is_slashes(text: Seq<char>) -> bool {
    forall|i: int| 0 <= i < text.len() ==> (#[trigger] text[i]) == '/'
}

/// The text starts with a slash.
pub open spec fn starts_with_slash(text: Seq<char>) -> bool {
    text.len() > 0 && text[0] == '/'
}

/// The text ends in a slash.
pub open spec fn ends_in_slash(text: Seq<char>) -> bool {
    text.len() > 0 && text[text.len() - 1] == '/'
}

/// What is taken from the start of a path is all its slashes and nothing else.
pub proof fn law_leading_slashes_alone_go(slashes: Seq<char>, rest: Seq<char>)
    requires
        is_slashes(slashes),
        !starts_with_slash(rest),
    ensures
        without_leading_slashes(slashes + rest) == rest,
    decreases slashes.len(),
{
    if slashes.len() == 0 {
        assert(slashes + rest =~= rest);
    } else {
        assert((slashes + rest)[0] == slashes[0]);
        assert((slashes + rest).skip(1) =~= slashes.skip(1) + rest);
        law_leading_slashes_alone_go(slashes.skip(1), rest);
    }
}

/// Any path is slashes and what is left without them, which starts with none.
pub proof fn law_path_is_slashes_and_the_rest(text: Seq<char>)
    ensures
        ({
            let rest = without_leading_slashes(text);
            let slashes = text.take(text.len() - rest.len());
            rest.len() <= text.len() && is_slashes(slashes) && text == slashes + rest
                && !starts_with_slash(rest)
        }),
    decreases text.len(),
{
    let rest = without_leading_slashes(text);
    if starts_with_slash(text) {
        law_path_is_slashes_and_the_rest(text.skip(1));
        let fewer = text.skip(1).take(text.len() - 1 - rest.len());
        let slashes = text.take(text.len() - rest.len());
        assert(slashes =~= seq!['/'] + fewer);
        assert(text =~= seq!['/'] + text.skip(1));
        assert(text =~= slashes + rest);
    } else {
        assert(text.take(0) + rest =~= text);
    }
}

/// What is taken from the end of an address is all its slashes and nothing else.
pub proof fn law_trailing_slashes_alone_go(start: Seq<char>, slashes: Seq<char>)
    requires
        is_slashes(slashes),
        !ends_in_slash(start),
    ensures
        without_trailing_slashes(start + slashes) == start,
    decreases slashes.len(),
{
    if slashes.len() == 0 {
        assert(start + slashes =~= start);
    } else {
        assert((start + slashes).last() == slashes.last());
        assert((start + slashes).drop_last() =~= start + slashes.drop_last());
        law_trailing_slashes_alone_go(start, slashes.drop_last());
    }
}

/// Any address is what is left without its trailing slashes, which ends in none,
/// and slashes.
pub proof fn law_address_is_the_start_and_slashes(text: Seq<char>)
    ensures
        ({
            let start = without_trailing_slashes(text);
            let slashes = text.skip(start.len() as int);
            start.len() <= text.len() && is_slashes(slashes) && text == start + slashes
                && !ends_in_slash(start)
        }),
    decreases text.len(),
{
    let start = without_trailing_slashes(text);
    if ends_in_slash(text) {
        law_address_is_the_start_and_slashes(text.drop_last());
        let fewer = text.drop_last().skip(start.len() as int);
        let slashes = text.skip(start.len() as int);
        assert(slashes =~= fewer + seq!['/']);
        assert(text =~= text.drop_last() + seq!['/']);
        assert(text =~= start + slashes);
    } else {
        assert(text.skip(text.len() as int).len() == 0);
        assert(text =~= start + text.skip(start.len() as int));
    }
}

/// Where an address and a path are joined, one slash takes the place of all
/// those at the end of the one and at the start of the other. Every other
/// character of both stays.
pub proof fn law_one_slash_where_they_meet(
    base: Seq<char>,
    behind: Seq<char>,
    before: Seq<char>,
    rest: Seq<char>,
)
    requires
        is_slashes(behind),
        is_slashes(before),
        !ends_in_slash(base),
        !starts_with_slash(rest),
    ensures
        joined_paths(base + behind, before + rest) == base + "/"@ + rest,
{
    law_trailing_slashes_alone_go(base, behind);
    law_leading_slashes_alone_go(before, rest);
}

/// A path at a host, from its first slash on, is found behind the name of the
/// host in full.
pub proof fn law_path_stands_behind_the_host(host: Seq<char>, rest: Seq<char>)
    requires
        host.len() > 0,
        !ends_in_slash(host),
        !starts_with_slash(rest),
    ensures
        joined_paths("http://"@ + host, "/"@ + rest) == "http://"@ + host + "/"@ + rest,
{
    reveal_strlit("/");
    let base = "http://"@ + host;
    assert(base.last() == host.last());
    assert(base + seq![] =~= base);
    law_one_slash_where_they_meet(base, seq![], "/"@, rest);
}

/// Joined names are the names of one half, the separator, and those of the other
/// half, however they are halved; a single name is joined to itself.
pub proof fn law_names_are_joined_in_order(
    some: Seq<Seq<char>>,
    others: Seq<Seq<char>>,
    name: Seq<char>,
    separator: Seq<char>,
)
    ensures
        joined(seq![], separator) == Seq::<char>::empty(),
        joined(seq![name], separator) == name,
        some.len() > 0 && others.len() > 0 ==> joined(some + others, separator) == joined(
            some,
            separator,
        ) + separator + joined(others, separator),
    decreases others.len(),
{
    if some.len() > 0 && others.len() > 0 {
        let all = some + others;
        assert(all.last() == others.last());
        if others.len() == 1 {
            assert(all.drop_last() =~= some);
        } else {
            let fewer = others.drop_last();
            assert(all.drop_last() =~= some + fewer);
            law_names_are_joined_in_order(some, fewer, name, separator);
            assert(joined(all, separator) =~= joined(some, separator) + separator + joined(
                others,
                separator,
            ));
        }
    }
}

/// A token: word characters, at least one, between two braces.
pub open spec fn is_token(text: Seq<char>) -> bool {
    &&& text.len() > 2
    &&& text[0] == '{'
    &&& text[text.len() - 1] == '}'
    &&& forall|i: int| 0 < i < text.len() - 1 ==> is_word(#[trigger] text[i])
}

/// Some piece of the text is a token.
pub open spec fn holds_token(text: Seq<char>) -> bool {
    exists|i: int, j: int| 0 <= i <= j <= text.len() && is_token(#[trigger] text.subrange(i, j))
}

proof fn lemma_words_in_run(text: Seq<char>)
    ensures
        word_run(text) <= text.len(),
        forall|i: int| 0 <= i < word_run(text) ==> is_word(#[trigger] text[i]),
    decreases text.len(),
{
    if text.len() > 0 && is_word(text[0]) {
        let rest = text.skip(1);
        lemma_words_in_run(rest);
        assert forall|i: int| 0 <= i < word_run(text) implies is_word(#[trigger] text[i]) by {
            if i > 0 {
                assert(text[i] == rest[i - 1]);
            }
        }
    }
}

/// Where no piece of a text is a token, none starts at any place.
proof fn lemma_no_token_starts(text: Seq<char>)
    requires
        !holds_token(text),
    ensures
        token_free(text, text.len() as int),
{
    assert forall|i: int| 0 <= i < text.len() implies token_len(#[trigger] text.skip(i)) == 0 by {
        let tail = text.skip(i);
        let n = token_len(tail) as int;
        if n > 0 {
            lemma_words_in_run(tail.skip(1));
            let piece = text.subrange(i, i + n);
            assert forall|k: int| 0 < k < piece.len() - 1 implies is_word(#[trigger] piece[k]) by {
                assert(piece[k] == tail.skip(1)[k - 1]);
            }
            assert(piece[n - 1] == tail[n - 1]);
            assert(is_token(piece));
        }
    }
}

/// The first token of a text is replaced by the whole value for its key, and by
/// nothing else; without a value it stays. What stands before it stays, and what
/// stands behind it is expanded by itself.
pub proof fn law_value_takes_the_place_of_the_token(
    before: Seq<char>,
    key: Seq<char>,
    after: Seq<char>,
    values: Map<Seq<char>, Seq<char>>,
)
    requires
        !holds_token(before),
        is_token("{"@ + key + "}"@),
    ensures
        ({
            let text = before + "{"@ + key + "}"@ + after;
            if values.contains_key(key) {
                expanded(text, values) == before + values[key] + expanded(after, values)
            } else {
                expanded(text, values) == before + ("{"@ + key + "}"@) + expanded(after, values)
            }
        }),
{
    reveal_strlit("{");
    reveal_strlit("}");
    lemma_no_token_starts(before);
    let token = "{"@ + key + "}"@;
    assert forall|i: int| 0 <= i < key.len() implies is_word(#[trigger] key[i]) by {
        assert(key[i] == token[i + 1]);
    }
    law_token_is_replaced_once(before, key, after, values);
}

/// A text of which no piece is a token comes out as it went in.
pub proof fn law_text_without_a_token_stays(text: Seq<char>, values: Map<Seq<char>, Seq<char>>)
    requires
        !holds_token(text),
    ensures
        expanded(text, values) == text,
{
    lemma_no_token_starts(text);
    law_text_without_tokens_stays(text, values);
}

/// The address of a link is filled in token by token: behind the first token
/// comes what the rest of the address would give as the address of a link.
pub proof fn law_address_is_filled_in(
    url: Seq<char>,
    link: LinkView,
    before: Seq<char>,
    key: Seq<char>,
    after: Seq<char>,
    values: Map<Seq<char>, Seq<char>>,
)
    requires
        !holds_token(before),
        is_token("{"@ + key + "}"@),
        link.href == Some(before + "{"@ + key + "}"@ + after),
    ensures
        ({
            let filled = expanded_address(url, link, values);
            let rest = expanded_address(url, LinkView { href: Some(after), ..link }, values);
            &&& filled is Ok && rest is Ok
            &&& values.contains_key(key) ==> filled->Ok_0 == before + values[key] + rest->Ok_0
            &&& !values.contains_key(key) ==> filled->Ok_0 == before + ("{"@ + key + "}"@)
                + rest->Ok_0
        }),
{
    law_value_takes_the_place_of_the_token(before, key, after, values);
}

/// The address of a link without tokens is what it gives as its address; a link
/// that gives none has none, and the failure names the broker and the link.
pub proof fn law_address_without_tokens_stays(
    url: Seq<char>,
    link: LinkView,
    values: Map<Seq<char>, Seq<char>>,
)
    ensures
        match link.href {
            Some(href) => !holds_token(href) ==> expanded_address(url, link, values) == Ok::<
                Seq<char>,
                ErrorView,
            >(href),
            None => expanded_address(url, link, values) == Err::<Seq<char>, ErrorView>(
                ErrorView::LinkError(
                    "Expected a HAL+JSON response from the pact broker, but got a link with no HREF. URL: '"@
                        + url + "', LINK: '"@ + link.name + "'"@,
                ),
            ),
        },
{
    if let Some(href) = link.href {
        if !holds_token(href) {
            law_text_without_a_token_stays(href, values);
        }
    }
}

/// Only the address of a template is filled in: that of any other link is taken
/// as it is given, tokens and all.
pub proof fn law_templates_alone_are_filled_in(
    url: Seq<char>,
    link: LinkView,
    values: Map<Seq<char>, Seq<char>>,
)
    ensures
        link.templated ==> link_address(url, link, values) == expanded_address(url, link, values),
        !link.templated ==> match link.href {
            Some(href) => link_address(url, link, values) == Ok::<Seq<char>, ErrorView>(href),
            None => link_address(url, link, values) == Err::<Seq<char>, ErrorView>(
                ErrorView::LinkError(
                    "Link is malformed, there is no href. URL: '"@ + url + "', LINK: '"@ + link.name
                        + "'"@,
                ),
            ),
        },
{
}

} // verus!
