//! Pattern matching through the `regex` crate.
use vstd::prelude::*;
use crate::text::{trim, contains};
use crate::signature::header_of;

verus! {

/// What `Regex::new(pattern)` followed by `captures(text)` gives for the first
/// capture group: `Err` with the error's message where the pattern does not
/// compile, `Ok(None)` where nothing matches, else the text of group 1 in the
/// leftmost match.
pub uninterp spec fn spec_first_capture(pattern: Seq<char>, text: Seq<char>) -> Result<Option<Seq<char>>, Seq<char>>;

/// An ASCII letter, digit or underscore.
pub open spec fn is_word_ascii(c: char) -> bool {
    ('a' <= c && c <= 'z') || ('A' <= c && c <= 'Z') || ('0' <= c && c <= '9') || c == '_'
}

/// A non-empty run of ASCII letters, digits and underscores (an ASCII identifier).
pub open spec fn ascii_word(n: Seq<char>) -> bool {
    n.len() > 0 && forall|i: int| 0 <= i < n.len() ==> is_word_ascii(#[trigger] n[i])
}

/// A character with a meaning in regex syntax.
pub open spec fn is_regex_meta(c: char) -> bool {
    c == '\\' || c == '.' || c == '+' || c == '*' || c == '?' || c == '(' || c == ')' || c == '|'
        || c == '\x5b' || c == '\x5d' || c == '{' || c == '}' || c == '^' || c == '$'
}

/// A character that may stand in a plain name: no regex metacharacter and
/// no angle bracket.
pub open spec fn is_name_char(c: char) -> bool {
    !is_regex_meta(c) && c != '<' && c != '>'
}

/// A non-empty name of at most 1024 characters in which no character has a
/// meaning in regex syntax, so that it stands for itself inside a pattern
/// (whose compiled size stays far below the regex size limit), and which
/// holds no angle bracket, so that its closing tag cannot start inside
/// other text.
pub open spec fn plain_name(n: Seq<char>) -> bool {
    0 < n.len() <= 1024 && forall|i: int| 0 <= i < n.len() ==> is_name_char(#[trigger] n[i])
}

/// The pattern of a chat field header, `[[ ## name ## ]]`, capturing the name.
pub open spec fn chat_header_pattern() -> Seq<char> {
    seq!['\\', '[', '\\', '[', ' ', '#', '#', ' ', '(', '\\', 'w', '+', ')', ' ', '#', '#', ' ', '\\', ']', '\\', ']']
}

/// The pattern of an XML-tagged field, `<name>\s*([\s\S]*?)\s*</name>`,
/// capturing the content between the tags without surrounding whitespace.
pub open spec fn xml_field_pattern(name: Seq<char>) -> Seq<char> {
    seq!['<'] + name + seq!['>', '\\', 's', '*', '(', '[', '\\', 's', '\\', 'S', ']', '*', '?', ')', '\\', 's', '*', '<', '/'] + name + seq!['>']
}

/// The text holds a `[`.
pub open spec fn has_open_bracket(s: Seq<char>) -> bool {
    s.contains('[')
}

/// `<name>`.
pub open spec fn open_tag(name: Seq<char>) -> Seq<char> {
    seq!['<'] + name + seq!['>']
}

/// `</name>`.
pub open spec fn close_tag(name: Seq<char>) -> Seq<char> {
    seq!['<', '/'] + name + seq!['>']
}

/// The model of a capture result.
pub open spec fn capture_model(r: Result<Option<String>, String>) -> Result<Option<Seq<char>>, Seq<char>> {
    match r {
        Ok(Some(c)) => Ok(Some(c@)),
        Ok(None) => Ok(None),
        Err(e) => Err(e@),
    }
}

/// What regex semantics give for the chat header pattern: it compiles; a text
/// without `[` has no match; a text that is exactly the header of an ASCII
/// identifier captures that identifier.
pub open spec fn chat_header_facts(text: Seq<char>, cap: Result<Option<Seq<char>>, Seq<char>>) -> bool {
    &&& cap is Ok
    &&& !has_open_bracket(text) ==> cap == Ok::<Option<Seq<char>>, Seq<char>>(None)
    &&& forall|n: Seq<char>| ascii_word(n) && text == header_of(n) ==> cap == Ok::<Option<Seq<char>>, Seq<char>>(Some(n))
}

/// What regex semantics give for the field pattern of a plain name:
/// it compiles; without the opening tag there is no match; on
/// `<name>v</name>`, where `v` holds no closing tag, the capture is `v`
/// without its surrounding whitespace.
pub open spec fn xml_field_facts(pattern: Seq<char>, text: Seq<char>, cap: Result<Option<Seq<char>>, Seq<char>>) -> bool {
    &&& cap is Ok
    &&& forall|n: Seq<char>| plain_name(n) && pattern == xml_field_pattern(n) && !contains(text, open_tag(n))
        ==> cap == Ok::<Option<Seq<char>>, Seq<char>>(None)
    &&& forall|n: Seq<char>, v: Seq<char>| plain_name(n) && pattern == xml_field_pattern(n)
        && text == open_tag(n) + v + close_tag(n) && !contains(v, close_tag(n))
        ==> cap == Ok::<Option<Seq<char>>, Seq<char>>(Some(trim(v)))
}

/// Wraps `regex::Regex::new` and `Regex::captures`: compiles `pattern` and
/// gives group 1 of the leftmost match of it in `text`.
///
/// Besides naming the result, the contract states facts of regex semantics
/// for the two patterns this library uses: the chat header pattern compiles,
/// matches a line that is exactly one header of an ASCII-identifier name, and
/// matches nothing in a text without `[`; an XML field pattern for a plain
/// name (no regex metacharacter, no angle bracket) compiles, matches nothing without the opening
/// tag, and on `<name>v</name>` (with no closing tag inside `v`) captures `v`
/// trimmed.
/// It is only called with these patterns, for which group 1 always takes
/// part in a match.
#[verifier::external_body]
pub(crate) fn first_capture(pattern: &str, text: &str) -> (r: Result<Option<String>, String>)
    requires
        pattern@ == chat_header_pattern() || exists|n: Seq<char>| plain_name(n) && pattern@ == xml_field_pattern(n),
    ensures
        capture_model(r) == spec_first_capture(pattern@, text@),
        pattern@ == chat_header_pattern() ==> chat_header_facts(text@, capture_model(r)),
        (exists|n: Seq<char>| plain_name(n) && pattern@ == xml_field_pattern(n)) ==> xml_field_facts(pattern@, text@, capture_model(r)),
{
    match regex::Regex::new(pattern) {
        Ok(re) => Ok(re.captures(text).map(|caps| caps[1].to_string())),
        Err(e) => Err(e.to_string()),
    }
}

} // verus!
