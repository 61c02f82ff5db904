//! Characters: which of them belong to what, and where a part of a text ends.
use vstd::prelude::*;

use crate::template::{is_word, unicode_word};
use crate::text::{ascii_lowered, is_ascii_text, is_plain_text, quoted};
use crate::uri::{
    before_fragment, before_query, is_host, is_host_char, is_path_char, is_query_char,
    is_scheme_char, is_target,
};

verus! {

/// A letter or a digit of ASCII.
pub open spec fn is_letter_or_digit(c: char) -> bool {
    ('a' <= c && c <= 'z') || ('A' <= c && c <= 'Z') || ('0' <= c && c <= '9')
}

/// A visible character of ASCII.
pub open spec fn is_visible_ascii(c: char) -> bool {
    '!' <= c && c <= '~'
}

/// A word is made of letters, digits and underscores; outside ASCII, of what the
/// class of word characters has there.
pub proof fn law_word_characters(c: char)
    ensures
        c <= '\x7f' ==> (is_word(c) <==> is_letter_or_digit(c) || c == '_'),
        c > '\x7f' ==> (is_word(c) <==> unicode_word(c)),
{
}

/// In a path every visible character of ASCII stands as it is, but for quotes and
/// backquotes, angle brackets, braces, and the marks that end the path. A query
/// may have backquotes, braces and question marks too.
pub proof fn law_path_characters(c: char)
    ensures
        is_path_char(c) <==> is_visible_ascii(c) && c != '"' && c != '`' && c != '<' && c != '>'
            && c != '{' && c != '}' && c != '?' && c != '#',
        is_query_char(c) <==> is_visible_ascii(c) && c != '"' && c != '<' && c != '>' && c != '#',
{
}

/// The characters of hosts and schemes.
pub proof fn law_host_characters(c: char)
    ensures
        is_host_char(c) <==> is_letter_or_digit(c) || c == '.' || c == '-',
        is_scheme_char(c) <==> is_letter_or_digit(c) || c == '.' || c == '-' || c == '+',
{
}

/// A host is a name, with or without a port behind a colon, and not empty.
pub proof fn law_host_is_a_name_and_a_port(name: Seq<char>, port: Seq<char>, i: int)
    ensures
        is_host(name) && 0 <= i < name.len() ==> is_letter_or_digit(name[i]) || name[i] == '.'
            || name[i] == '-' || name[i] == ':',
        is_host(name) && is_host(port) && (exists|k: int|
            0 <= k < name.len() && #[trigger] name[k] == ':') && (exists|k: int|
            0 <= k < port.len() && #[trigger] port[k] == ':') ==> !is_host(name + port),
        !is_host(seq![]),
        (forall|k: int| 0 <= k < name.len() ==> is_host_char(#[trigger] name[k])) && (forall|k: int|
            0 <= k < port.len() ==> is_host_char(#[trigger] port[k])) ==> is_host(
            name + seq![':'] + port,
        ) && (name.len() > 0 ==> is_host(name)),
{
    let both = name + port;
    if is_host(name) && is_host(port) && is_host(both) {
        if (exists|k: int| 0 <= k < name.len() && #[trigger] name[k] == ':') && (exists|k: int|
            0 <= k < port.len() && #[trigger] port[k] == ':') {
            let a = choose|k: int| 0 <= k < name.len() && #[trigger] name[k] == ':';
            let b = choose|k: int| 0 <= k < port.len() && #[trigger] port[k] == ':';
            assert(both[a] == ':' && both[name.len() + b] == ':');
        }
    }
    if (forall|k: int| 0 <= k < name.len() ==> is_host_char(#[trigger] name[k])) && (forall|k: int|
        0 <= k < port.len() ==> is_host_char(#[trigger] port[k])) {
        let text = name + seq![':'] + port;
        assert forall|k: int| 0 <= k < text.len() implies (#[trigger] text[k] == ':' <==> k
            == name.len()) && (is_host_char(text[k]) || text[k] == ':') by {
            if k < name.len() {
                assert(text[k] == name[k]);
            } else if k > name.len() {
                assert(text[k] == port[k - name.len() - 1]);
            }
        }
    }
}

/// No character of the text ends a path.
pub open spec fn has_no_mark(text: Seq<char>) -> bool {
    forall|i: int| 0 <= i < text.len() ==> (#[trigger] text[i]) != '?' && text[i] != '#'
}

/// No character of the text starts a fragment.
pub open spec fn has_no_number_sign(text: Seq<char>) -> bool {
    forall|i: int| 0 <= i < text.len() ==> (#[trigger] text[i]) != '#'
}

/// A path ends before the first question mark or number sign, or with the text.
pub proof fn law_path_ends_before_the_first_mark(path: Seq<char>, mark: char, rest: Seq<char>)
    requires
        has_no_mark(path),
        mark == '?' || mark == '#',
    ensures
        before_query(path) == path,
        before_query(path + seq![mark] + rest) == path,
    decreases path.len(),
{
    let text = path + seq![mark] + rest;
    if path.len() == 0 {
        assert(text[0] == mark);
        assert(before_query(text) =~= path);
        assert(before_query(path) =~= path);
    } else {
        law_path_ends_before_the_first_mark(path.skip(1), mark, rest);
        assert(text.skip(1) =~= path.skip(1) + seq![mark] + rest);
        assert(text[0] == path[0]);
        assert(seq![path[0]] + path.skip(1) =~= path);
    }
}

/// A fragment starts with the first number sign.
pub proof fn law_fragment_starts_with_the_first_number_sign(start: Seq<char>, rest: Seq<char>)
    requires
        has_no_number_sign(start),
    ensures
        before_fragment(start) == start,
        before_fragment(start + seq!['#'] + rest) == start,
    decreases start.len(),
{
    let text = start + seq!['#'] + rest;
    if start.len() == 0 {
        assert(text[0] == '#');
        assert(before_fragment(text) =~= start);
        assert(before_fragment(start) =~= start);
    } else {
        law_fragment_starts_with_the_first_number_sign(start.skip(1), rest);
        assert(text.skip(1) =~= start.skip(1) + seq!['#'] + rest);
        assert(text[0] == start[0]);
        assert(seq![start[0]] + start.skip(1) =~= start);
    }
}

/// What can be asked for is a path from a slash on, a query behind a question
/// mark and a fragment behind a number sign, all of ASCII.
pub proof fn law_target_is_a_path_and_what_follows(text: Seq<char>, i: int)
    requires
        is_target(text),
    ensures
        text.len() > 0 && text[0] == '/',
        0 <= i < text.len() ==> text[i] <= '\x7f',
        0 <= i < text.len() && has_no_number_sign(text.take(i + 1)) ==> is_query_char(text[i]),
        0 <= i < text.len() && has_no_mark(text.take(i + 1)) ==> is_path_char(text[i]),
{
    lemma_start_of_path(text, 0);
    if 0 <= i < text.len() {
        lemma_start_of_path(text, i);
        if has_no_mark(text.take(i + 1)) {
            assert forall|k: int| 0 <= k < i + 1 implies (#[trigger] text.take(i + 1)[k]) != '#' by {
                assert(text.take(i + 1)[k] != '#');
            }
        }
        if has_no_number_sign(text.take(i + 1)) {
            lemma_before_number_sign(text, i);
            if i < before_query(text).len() {
                assert(is_path_char(before_query(text)[i]));
            }
        }
    }
}

proof fn lemma_start_of_path(text: Seq<char>, i: int)
    ensures
        before_query(text).len() <= text.len(),
        0 <= i < before_query(text).len() ==> before_query(text)[i] == text[i],
        0 <= i < text.len() && has_no_mark(text.take(i + 1)) ==> i < before_query(text).len(),
    decreases text.len(),
{
    if text.len() > 0 && text[0] != '?' && text[0] != '#' {
        let rest = text.skip(1);
        lemma_start_of_path(rest, i - 1);
        if 0 < i < text.len() && has_no_mark(text.take(i + 1)) {
            assert forall|k: int| 0 <= k < i implies (#[trigger] rest.take(i)[k]) != '?'
                && rest.take(i)[k] != '#' by {
                assert(rest.take(i)[k] == text.take(i + 1)[k + 1]);
            }
        }
    } else if 0 <= i < text.len() && has_no_mark(text.take(i + 1)) {
        assert(text.take(i + 1)[0] == text[0]);
    }
}

proof fn lemma_before_number_sign(text: Seq<char>, i: int)
    requires
        0 <= i < text.len(),
        has_no_number_sign(text.take(i + 1)),
    ensures
        i < before_fragment(text).len(),
    decreases text.len(),
{
    assert(text.take(i + 1)[0] == text[0]);
    if i > 0 {
        let rest = text.skip(1);
        assert forall|k: int| 0 <= k < i implies (#[trigger] rest.take(i)[k]) != '#' by {
            assert(rest.take(i)[k] == text.take(i + 1)[k + 1]);
        }
        lemma_before_number_sign(rest, i - 1);
    }
}

/// Quoted text is the text between two double quotes. Plain text is printable
/// ASCII without double quotes and backslashes.
pub proof fn law_quoted_text_stands_between_quotes(text: Seq<char>, i: int)
    ensures
        quoted(text).len() == text.len() + 2,
        quoted(text)[0] == '"',
        quoted(text).last() == '"',
        0 <= i < text.len() ==> quoted(text)[i + 1] == text[i],
        is_plain_text(text) && 0 <= i < text.len() ==> (is_visible_ascii(text[i]) || text[i]
            == ' ') && text[i] != '"' && text[i] != '\\',
{
    reveal_strlit("\"");
}

/// In lower case each letter from A to Z is its small letter, and every other
/// character stays.
pub proof fn law_lower_case_of_ascii(text: Seq<char>, i: int)
    requires
        0 <= i < text.len(),
    ensures
        ascii_lowered(text).len() == text.len(),
        'A' <= text[i] && text[i] <= 'Z' ==> ascii_lowered(text)[i] as u32 - 'a' as u32
            == text[i] as u32 - 'A' as u32,
        !('A' <= text[i] && text[i] <= 'Z') ==> ascii_lowered(text)[i] == text[i],
        is_ascii_text(text) ==> text[i] <= '\x7f',
{
}

} // verus!
