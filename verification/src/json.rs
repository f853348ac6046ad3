//! JSON at the level of single tokens: white space, string literals and the
//! two calls into `serde_json` that write and read a string literal.

use vstd::prelude::*;

verus! {

/// The error of `serde_json`, carried through unopened.
#[verifier::external_type_specification]
#[verifier::external_body]
pub struct ExJsonError(serde_json::Error);

/// The JSON string literal, quotes included, that `serde_json::to_string`
/// writes for a string.
pub uninterp spec fn json_string_literal(text: Seq<char>) -> Seq<char>;

/// The string that `serde_json::from_str` reads from a text as a `String`,
/// `None` where it rejects the text.
pub uninterp spec fn json_string_value(literal: Seq<char>) -> Option<Seq<char>>;

/// The four characters JSON allows between tokens.
pub open spec fn is_space(c: char) -> bool {
    c == ' ' || c == '\n' || c == '\t' || c == '\r'
}

/// The first position at or after `i` that holds no white space.
pub open spec fn spaces_end(s: Seq<char>, i: int) -> int
    decreases s.len() - i,
{
    if 0 <= i < s.len() && is_space(s[i]) {
        spaces_end(s, i + 1)
    } else {
        i
    }
}

/// Where a string literal ends whose inside is read from `i` on: one past the
/// first quote that no backslash escapes. `None` where the text ends first.
pub open spec fn literal_end(s: Seq<char>, i: int) -> Option<int>
    decreases s.len() - i,
{
    if i < 0 || i >= s.len() {
        None
    } else if s[i] == '"' {
        Some(i + 1)
    } else if s[i] == '\\' {
        if i + 1 < s.len() {
            literal_end(s, i + 2)
        } else {
            None
        }
    } else {
        literal_end(s, i + 1)
    }
}

/// A text that is one string literal from its opening quote to its closing
/// quote, with nothing after it.
pub open spec fn is_literal(t: Seq<char>) -> bool {
    t.len() >= 2 && t[0] == '"' && literal_end(t, 1) == Some(t.len() as int)
}

/// `word` stands in `s` at position `i`.
pub open spec fn stands_at(s: Seq<char>, i: int, word: Seq<char>) -> bool {
    0 <= i && i + word.len() <= s.len() && s.subrange(i, i + word.len()) == word
}

/// Skipping white space stays inside the text, passes over white space only
/// and stops at what is none.
pub proof fn lemma_spaces_end(s: Seq<char>, i: int)
    requires
        0 <= i <= s.len(),
    ensures
        i <= spaces_end(s, i) <= s.len(),
        spaces_end(s, i) < s.len() ==> !is_space(s[spaces_end(s, i)]),
        forall|k: int| i <= k < spaces_end(s, i) ==> is_space(#[trigger] s[k]),
    decreases s.len() - i,
{
    if i < s.len() && is_space(s[i]) {
        lemma_spaces_end(s, i + 1);
    }
}

/// A literal that ends, ends behind where its inside began, inside the text,
/// with a quote.
pub proof fn lemma_literal_end(s: Seq<char>, i: int)
    requires
        literal_end(s, i) is Some,
    ensures
        0 <= i < literal_end(s, i)->0 <= s.len(),
        s[literal_end(s, i)->0 - 1] == '"',
    decreases s.len() - i,
{
    if s[i] == '"' {
    } else if s[i] == '\\' {
        lemma_literal_end(s, i + 2);
    } else {
        lemma_literal_end(s, i + 1);
    }
}

/// A literal ends where it ends wherever it stands: what follows it in a
/// longer text does not move its closing quote.
pub proof fn lemma_literal_in_context(s: Seq<char>, at: int, t: Seq<char>, i: int)
    requires
        stands_at(s, at, t),
        0 <= i,
        literal_end(t, i) == Some(t.len() as int),
    ensures
        literal_end(s, at + i) == Some(at + t.len()),
    decreases t.len() - i,
{
    if t[i] == '"' {
    } else if t[i] == '\\' {
        lemma_literal_in_context(s, at, t, i + 2);
    } else {
        lemma_literal_in_context(s, at, t, i + 1);
    }
}

/// Calls `serde_json::to_string` on a string slice. The contract names the
/// text it writes and claims three things of it: the call does not fail
/// (the slice serialises itself and the writer is a vector in memory); the
/// text is one string literal, since the serialiser puts a backslash before
/// every quote and backslash inside it and starts every escape with one; and
/// `serde_json::from_str` reads that literal back as the slice it came from.
#[verifier::external_body]
pub(crate) fn quote(text: &str) -> (literal: Result<String, serde_json::Error>)
    ensures
        literal is Ok,
        literal matches Ok(l) ==> l@ == json_string_literal(text@),
        literal matches Ok(l) ==> is_literal(l@),
        literal matches Ok(l) ==> json_string_value(l@) == Some(text@),
{
    serde_json::to_string(text)
}

/// Calls `serde_json::from_str` for a `String`. The contract names what it
/// reads: the call returns that string, and fails exactly where the name is
/// `None`.
#[verifier::external_body]
pub(crate) fn unquote(literal: &str) -> (text: Result<String, serde_json::Error>)
    ensures
        text matches Ok(t) ==> json_string_value(literal@) == Some(t@),
        text is Err ==> json_string_value(literal@) is None,
{
    serde_json::from_str::<String>(literal)
}

/// The characters of a text, one by one.
pub(crate) fn chars_of(text: &str) -> (chars: Vec<char>)
    ensures
        chars@ == text@,
{
    let mut chars: Vec<char> = Vec::new();
    for c in it: text.chars()
        invariant
            it.seq() == text@,
            chars@ == text@.take(it.index()),
    {
        chars.push(c);
    }
    chars
}

pub(crate) fn skip_spaces(chars: &Vec<char>, from: usize) -> (at: usize)
    requires
        from <= chars.len(),
    ensures
        at == spaces_end(chars@, from as int),
        from <= at <= chars.len(),
{
    let mut at: usize = from;
    while at < chars.len() && (chars[at] == ' ' || chars[at] == '\n' || chars[at] == '\t'
        || chars[at] == '\r')
        invariant
            from <= at <= chars.len(),
            spaces_end(chars@, at as int) == spaces_end(chars@, from as int),
        decreases chars.len() - at,
    {
        at = at + 1;
    }
    at
}

/// Finds the closing quote of the literal whose inside begins at `from`.
pub(crate) fn find_literal_end(chars: &Vec<char>, from: usize) -> (end: Option<usize>)
    requires
        from <= chars.len(),
    ensures
        match end {
            Some(e) => literal_end(chars@, from as int) == Some(e as int) && from < e
                <= chars.len(),
            None => literal_end(chars@, from as int) is None,
        },
{
    let mut at: usize = from;
    while at < chars.len()
        invariant
            from <= at <= chars.len(),
            literal_end(chars@, at as int) == literal_end(chars@, from as int),
        decreases chars.len() - at,
    {
        let c: char = chars[at];
        if c == '"' {
            return Some(at + 1);
        } else if c == '\\' {
            if at + 1 < chars.len() {
                at = at + 2;
            } else {
                return None;
            }
        } else {
            at = at + 1;
        }
    }
    None
}

/// Whether `word` stands in `chars` at `at`.
pub(crate) fn word_at(chars: &Vec<char>, at: usize, word: &str) -> (found: bool)
    requires
        at <= chars.len(),
    ensures
        found == stands_at(chars@, at as int, word@),
{
    let letters = chars_of(word);
    if letters.len() > chars.len() - at {
        return false;
    }
    let mut k: usize = 0;
    while k < letters.len()
        invariant
            at + letters.len() <= chars.len(),
            k <= letters.len(),
            letters@ == word@,
            forall|j: int| 0 <= j < k ==> chars@[at + j] == letters@[j],
        decreases letters.len() - k,
    {
        if chars[at + k] != letters[k] {
            return false;
        }
        k = k + 1;
    }
    assert(chars@.subrange(at as int, at + letters.len()) =~= letters@);
    true
}

} // verus!
