//! Pieces of text: joining them, trimming them and quoting them.
use vstd::prelude::*;
use vstd::string::*;

verus! {

/// What the `Debug` format of `str` writes for `text`: the text in double
/// quotes, with the characters escaped that std escapes there.
pub uninterp spec fn debug_text(text: Seq<char>) -> Seq<char>;

/// What `str::to_lowercase` makes of `text`.
pub uninterp spec fn lowercase_text(text: Seq<char>) -> Seq<char>;

/// Printable ASCII other than the double quote and the backslash.
pub open spec fn is_plain(c: char) -> bool {
    ' ' <= c && c <= '~' && c != '"' && c != '\\'
}

/// Text of printable ASCII without quotes and backslashes.
pub open spec fn is_plain_text(text: Seq<char>) -> bool {
    forall|i: int| 0 <= i < text.len() ==> is_plain(#[trigger] text[i])
}

/// The text between two double quotes.
pub open spec fn quoted(text: Seq<char>) -> Seq<char> {
    "\""@ + text + "\""@
}

/// Text of ASCII characters.
pub open spec fn is_ascii_text(text: Seq<char>) -> bool {
    forall|i: int| 0 <= i < text.len() ==> (#[trigger] text[i]) <= '\x7f'
}

/// The text with its ASCII letters in lower case.
pub open spec fn ascii_lowered(text: Seq<char>) -> Seq<char> {
    text.map_values(|c: char| ascii_lower(c))
}

/// The ASCII letter `c` in lower case; every other character unchanged.
pub open spec fn ascii_lower(c: char) -> char {
    if 'A' <= c && c <= 'Z' {
        (c as u8 + 32) as char
    } else {
        c
    }
}

/// The elements of `names` in order, with `separator` between neighbours.
pub open spec fn joined(names: Seq<Seq<char>>, separator: Seq<char>) -> Seq<char>
    decreases names.len(),
{
    if names.len() == 0 {
        seq![]
    } else if names.len() == 1 {
        names[0]
    } else {
        joined(names.drop_last(), separator) + separator + names.last()
    }
}

/// `text` without the slashes that it ends in.
pub open spec fn without_trailing_slashes(text: Seq<char>) -> Seq<char>
    decreases text.len(),
{
    if text.len() > 0 && text.last() == '/' {
        without_trailing_slashes(text.drop_last())
    } else {
        text
    }
}

/// `text` without the slashes that it starts with.
pub open spec fn without_leading_slashes(text: Seq<char>) -> Seq<char>
    decreases text.len(),
{
    if text.len() > 0 && text[0] == '/' {
        without_leading_slashes(text.skip(1))
    } else {
        text
    }
}

/// `base` and `path` with exactly one slash where they meet.
pub open spec fn joined_paths(base: Seq<char>, path: Seq<char>) -> Seq<char> {
    without_trailing_slashes(base) + "/"@ + without_leading_slashes(path)
}

/// The view of every string of a vector.
pub open spec fn texts(strings: Seq<String>) -> Seq<Seq<char>> {
    strings.map_values(|s: String| s@)
}

/// The view of an optional string.
pub open spec fn optional_text(text: Option<String>) -> Option<Seq<char>> {
    match text {
        Some(s) => Some(s@),
        None => None,
    }
}

/// Calls the `Debug` format of `str` (`{:?}`). Claimed: the outcome depends on
/// the text alone, and text of printable ASCII without quotes and backslashes
/// comes back unchanged between two double quotes.
#[verifier::external_body]
pub(crate) fn debug_quoted(text: &str) -> (r: String)
    ensures
        r@ == debug_text(text@),
        is_plain_text(text@) ==> r@ == quoted(text@),
{
    format!("{:?}", text)
}

/// Calls `str::to_lowercase`. Claimed: the outcome depends on the text alone,
/// and in ASCII text exactly the letters from `A` to `Z` change, each to its
/// small letter.
#[verifier::external_body]
pub(crate) fn lowercase(text: &str) -> (r: String)
    ensures
        r@ == lowercase_text(text@),
        is_ascii_text(text@) ==> r@ == ascii_lowered(text@),
{
    text.to_lowercase()
}

/// The three texts, one behind the other.
pub(crate) fn cat3(a: &str, b: &str, c: &str) -> (r: String)
    ensures
        r@ == a@ + b@ + c@,
{
    let mut out = a.to_owned();
    out.append(b);
    out.append(c);
    out
}

/// The five texts, one behind the other.
pub(crate) fn cat5(a: &str, b: &str, c: &str, d: &str, e: &str) -> (r: String)
    ensures
        r@ == a@ + b@ + c@ + d@ + e@,
{
    let mut out = cat3(a, b, c);
    out.append(d);
    out.append(e);
    out
}

/// The seven texts, one behind the other.
pub(crate) fn cat7(a: &str, b: &str, c: &str, d: &str, e: &str, f: &str, g: &str) -> (r: String)
    ensures
        r@ == a@ + b@ + c@ + d@ + e@ + f@ + g@,
{
    let mut out = cat5(a, b, c, d, e);
    out.append(f);
    out.append(g);
    out
}

/// Joins `names`, with `separator` between neighbours.
pub fn join(names: &Vec<String>, separator: &str) -> (r: String)
    ensures
        r@ == joined(texts(names@), separator@),
{
    let mut out = String::new();
    let mut i: usize = 0;
    let ghost all = texts(names@);
    while i < names.len()
        invariant
            i <= names.len(),
            all == texts(names@),
            out@ == joined(all.take(i as int), separator@),
        decreases names.len() - i,
    {
        assert(all.take(i + 1).drop_last() =~= all.take(i as int));
        assert(all.take(i + 1).last() == names@[i as int]@);
        if i > 0 {
            out.append(separator);
        }
        out.append(names[i].as_str());
        assert(out@ =~= joined(all.take(i + 1), separator@));
        i = i + 1;
    }
    assert(all.take(i as int) =~= all);
    out
}

/// Joins a base address and a path with exactly one slash between them.
pub fn join_paths(base: &str, path: &str) -> (r: String)
    ensures
        r@ == joined_paths(base@, path@),
{
    let mut end: usize = base.unicode_len();
    assert(base@.take(end as int) =~= base@);
    while end > 0 && base.get_char(end - 1) == '/'
        invariant
            end <= base@.len(),
            without_trailing_slashes(base@.take(end as int)) == without_trailing_slashes(base@),
        decreases end,
    {
        assert(base@.take(end as int).drop_last() =~= base@.take(end - 1));
        end = end - 1;
    }
    let length: usize = path.unicode_len();
    let mut start: usize = 0;
    assert(path@.skip(0) =~= path@);
    while start < length && path.get_char(start) == '/'
        invariant
            start <= length == path@.len(),
            without_leading_slashes(path@.skip(start as int)) == without_leading_slashes(path@),
        decreases length - start,
    {
        assert(path@.skip(start as int).skip(1) =~= path@.skip(start + 1));
        start = start + 1;
    }
    assert(path@.subrange(start as int, length as int) =~= path@.skip(start as int));
    assert(base@.subrange(0, end as int) =~= base@.take(end as int));
    cat3(base.substring_char(0, end), "/", path.substring_char(start, length))
}

/// What is left of `text` without its trailing slashes is a start of it, and the
/// rest is slashes.
pub(crate) proof fn lemma_trailing_slashes(text: Seq<char>)
    ensures
        without_trailing_slashes(text).len() <= text.len(),
        without_trailing_slashes(text) == text.take(without_trailing_slashes(text).len() as int),
        forall|i: int|
            without_trailing_slashes(text).len() <= i < text.len() ==> (#[trigger] text[i]) == '/',
    decreases text.len(),
{
    if text.len() > 0 && text.last() == '/' {
        let shorter = text.drop_last();
        lemma_trailing_slashes(shorter);
        let n = without_trailing_slashes(shorter).len() as int;
        assert(shorter.take(n) =~= text.take(n));
        assert forall|i: int| n <= i < text.len() implies (#[trigger] text[i]) == '/' by {
            if i < text.len() - 1 {
                assert(shorter[i] == '/');
            }
        }
    } else {
        assert(text.take(text.len() as int) =~= text);
    }
}

/// What is left of `text` without its leading slashes is an end of it.
pub(crate) proof fn lemma_leading_slashes(text: Seq<char>)
    ensures
        without_leading_slashes(text).len() <= text.len(),
        without_leading_slashes(text) == text.skip(
            text.len() - without_leading_slashes(text).len(),
        ),
        text.len() > 0 && text[0] == '/' ==> without_leading_slashes(text).len() < text.len(),
    decreases text.len(),
{
    if text.len() > 0 && text[0] == '/' {
        lemma_leading_slashes(text.skip(1));
        let n = without_leading_slashes(text).len() as int;
        assert(text.skip(1).skip(text.len() - 1 - n) =~= text.skip(text.len() - n));
    } else {
        assert(text.skip(0) =~= text);
    }
}

/// Slashes in front of a text make no difference to what is left without them.
pub(crate) proof fn lemma_more_leading_slashes(slashes: Seq<char>, text: Seq<char>)
    requires
        forall|i: int| 0 <= i < slashes.len() ==> (#[trigger] slashes[i]) == '/',
    ensures
        without_leading_slashes(slashes + text) == without_leading_slashes(text),
    decreases slashes.len(),
{
    if slashes.len() == 0 {
        assert(slashes + text =~= text);
    } else {
        assert((slashes + text)[0] == slashes[0]);
        assert((slashes + text).skip(1) =~= slashes.skip(1) + text);
        lemma_more_leading_slashes(slashes.skip(1), text);
    }
}

/// Slashes where a base address and a path meet make no difference.
pub proof fn law_slashes_between_make_no_difference(base: Seq<char>, path: Seq<char>)
    ensures
        joined_paths(base + "/"@, path) == joined_paths(base, path),
        joined_paths(base, "/"@ + path) == joined_paths(base, path),
{
    reveal_strlit("/");
    assert((base + "/"@).drop_last() =~= base);
    assert(("/"@ + path).skip(1) =~= path);
}

} // verus!
