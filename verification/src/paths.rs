//! Reading the numeric id at the end of a request path, as in `/products/category/12`.

use vstd::prelude::*;
use vstd::string::*;

verus! {

/// `regex::Error`, the error of compiling a regular expression; opaque here.
#[verifier::external_type_specification]
#[verifier::external_body]
pub struct ExRegexError(regex::Error);

/// Whether `regex::Regex::new(pattern)` compiles the pattern; a function of the pattern alone.
pub uninterp spec fn regex_compiles(pattern: Seq<char>) -> bool;

/// The text of the leftmost-first match that `regex::Regex::find` reports for the
/// compiled `pattern` in `haystack`; a function of the two texts alone.
pub uninterp spec fn regex_leftmost_match(pattern: Seq<char>, haystack: Seq<char>) -> Option<Seq<char>>;

/// Compiles `pattern` with `regex::Regex::new` and, when it compiles, looks for its
/// first match in `haystack` with `Regex::find`, returning the matched text.
///
/// Trusted: the result is given by `regex_compiles` and `regex_leftmost_match`;
/// nothing more is said of the regex engine.
#[verifier::external_body]
fn regex_find(pattern: &str, haystack: &str) -> (res: Result<Option<String>, regex::Error>)
    ensures
        res is Ok <==> regex_compiles(pattern@),
        res matches Ok(found) ==> match found {
            Some(t) => regex_leftmost_match(pattern@, haystack@) == Some(t@),
            None => regex_leftmost_match(pattern@, haystack@) is None,
        },
{
    match regex::Regex::new(pattern) {
        Ok(re) => Ok(re.find(haystack).map(|m| m.as_str().to_string())),
        Err(e) => Err(e),
    }
}

/// The pattern of an id at the end of a path: a `/` and one or more digits, then the end.
pub open spec fn id_pattern() -> Seq<char> {
    "/\\d+$"@
}

/// The id in a matched `/<digits>` text: everything after its first character, which
/// is the one-byte `/`.
pub open spec fn spec_id_in_path(path: Seq<char>) -> Option<Seq<char>> {
    if !regex_compiles(id_pattern()) {
        None
    } else {
        match regex_leftmost_match(id_pattern(), path) {
            Some(t) => if t.len() > 0 && (t[0] as u32) < 128 {
                Some(t.drop_first())
            } else {
                None
            },
            None => None,
        }
    }
}

/// Takes the leading one-byte character (the `/`) off a matched `/<digits>` text.
pub fn id_from_match(found: &str) -> (id: String)
    requires
        found@.len() > 0,
        (found@[0] as u32) < 128,
    ensures
        id@ == found@.drop_first(),
{
    let len = found.unicode_len();
    let id = String::from_str(found.substring_char(1, len));
    assert(id@ =~= found@.drop_first());
    id
}

/// The id at the end of `path`, read with the pattern `/\d+$`: `None` when the path
/// does not end in `/` and digits.
pub fn id_in_path(path: &str) -> (id: Option<String>)
    ensures
        id matches Some(s) ==> spec_id_in_path(path@) == Some(s@),
        id is None ==> spec_id_in_path(path@) is None,
{
    let pattern = "/\\d+$";
    proof {
        assert(pattern@ == id_pattern());
    }
    match regex_find(pattern, path) {
        Err(_) => None,
        Ok(None) => None,
        Ok(Some(t)) => {
            let s = t.as_str();
            if s.unicode_len() > 0 && (s.get_char(0) as u32) < 128 {
                Some(id_from_match(s))
            } else {
                None
            }
        },
    }
}

/// Whenever the pattern `/\d+$` compiles and matches the path with a text that begins
/// with `/`, however long, the id read is that text without its `/`; when it does not
/// match, no id is read.
pub proof fn law_id_is_the_match_after_its_slash(path: Seq<char>)
    ensures
        regex_compiles("/\\d+$"@) ==> match regex_leftmost_match("/\\d+$"@, path) {
            Some(t) => t.len() > 0 && t[0] == '/' ==> spec_id_in_path(path) == Some(t.drop_first()),
            None => spec_id_in_path(path) is None,
        },
        !regex_compiles("/\\d+$"@) ==> spec_id_in_path(path) is None,
{
}

} // verus!
