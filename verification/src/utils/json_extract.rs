use crate::endpoints::chat::CompletionError;
use jsonpath_rust::parser::errors::JsonPathError;
use jsonpath_rust::JsonPath;
use serde_json::Value;
use vstd::prelude::*;
use vstd::string::StringExecFns;

verus! {

/// `serde_json::Value`, carried as an opaque value.
#[verifier::external_type_specification]
#[verifier::external_body]
pub struct ExValue(Value);

/// `jsonpath_rust`'s error, carried as an opaque value.
#[verifier::external_type_specification]
#[verifier::external_body]
pub struct ExJsonPathError(JsonPathError);

/// What a JSON path has matched in a document, as far as the prompt rules look at it.
#[derive(Debug, Clone, PartialEq, Eq)]
pub enum Matched {
    /// A JSON string, with its text.
    Text(String),
    /// Any other JSON value, as it is shown to people.
    Other(String),
}

/// `JsonPath::query_with_path` on a `serde_json::Value`: what `path` matches in `data`,
/// in the order in which the query yields it, each match told apart as a string or
/// something else; or the query's error. Nothing is promised of the matches: they
/// depend on the document.
#[verifier::external_body]
fn query_with_path(data: &Value, path: &str) -> Result<Vec<Matched>, JsonPathError> {
    let found = data.query_with_path(path)?;
    Ok(found.into_iter().map(|hit| match hit.val.as_str() {
        Some(text) => Matched::Text(text.to_owned()),
        None => Matched::Other(format!("{:?}", hit.val)),
    }).collect())
}

/// The words of a JSON path error, as its `Display` writes them.
#[verifier::external_body]
fn json_path_error_words(e: &JsonPathError) -> String {
    e.to_string()
}

/// The words of the error for a path that matches nothing.
pub open spec fn no_element_text(path: Seq<char>) -> Seq<char> {
    "No element found at path '"@ + path + "'"@
}

/// The words of the error for a path whose last match is no string.
pub open spec fn not_a_string_text(path: Seq<char>, shown: Seq<char>) -> Seq<char> {
    "Expected a string at path '"@ + path + "', but found: "@ + shown
}

/// The prompt among the matches of `path`: the text of the last match. No match, and a
/// last match that is no string, are refused with a message that names the path.
pub open spec fn prompt_of(found: Seq<Matched>, path: Seq<char>) -> Result<
    Seq<char>,
    Seq<char>,
> {
    if found.len() == 0 {
        Err(no_element_text(path))
    } else {
        match found.last() {
            Matched::Text(text) => Ok(text@),
            Matched::Other(shown) => Err(not_a_string_text(path, shown@)),
        }
    }
}

/// The prompt among what `path` has matched.
pub fn prompt_from_matches(found: &Vec<Matched>, path: &str) -> (prompt: Result<
    String,
    CompletionError,
>)
    ensures
        match prompt_of(found@, path@) {
            Ok(text) => prompt is Ok && prompt->Ok_0@ == text,
            Err(words) => prompt matches Err(CompletionError::InvalidRequest(message))
                && message@ == words,
        },
{
    if found.len() == 0 {
        return Err(
            CompletionError::InvalidRequest(
                String::from_str("No element found at path '").concat(path).concat("'"),
            ),
        );
    }
    match &found[found.len() - 1] {
        Matched::Text(text) => Ok(text.clone()),
        Matched::Other(shown) => Err(
            CompletionError::InvalidRequest(
                String::from_str("Expected a string at path '").concat(path).concat(
                    "', but found: ",
                ).concat(shown.as_str()),
            ),
        ),
    }
}

/// `found` is what the JSON path library yields for `path` in `data`.
pub closed spec fn is_query_result(
    data: &Value,
    path: &str,
    found: Result<Vec<Matched>, JsonPathError>,
) -> bool {
    call_ensures(query_with_path, (data, path), found)
}

/// `words` are the words in which the JSON path library describes `e`.
pub closed spec fn is_error_words(e: &JsonPathError, words: String) -> bool {
    call_ensures(json_path_error_words, (e,), words)
}

/// What the extraction makes of the query's result `found`: the prompt among the
/// matches, as `prompt_of` says; an error of the query is refused in the library's words.
pub open spec fn is_prompt_of(
    found: Result<Vec<Matched>, JsonPathError>,
    path: Seq<char>,
    prompt: Result<String, CompletionError>,
) -> bool {
    match found {
        Ok(matches) => match prompt_of(matches@, path) {
            Ok(text) => prompt is Ok && prompt->Ok_0@ == text,
            Err(words) => prompt matches Err(CompletionError::InvalidRequest(message))
                && message@ == words,
        },
        Err(e) => prompt matches Err(CompletionError::InvalidJsonPath(words))
            && is_error_words(&e, words),
    }
}

/// `prompt` is what the extraction yields for the JSON path whose text is `path` in
/// `data`: what `is_prompt_of` makes of the JSON path library's result for that path.
pub open spec fn is_extracted(
    data: &Value,
    path: Seq<char>,
    prompt: Result<String, CompletionError>,
) -> bool {
    exists|at: &str, found: Result<Vec<Matched>, JsonPathError>|
        at@ == path && #[trigger] is_query_result(data, at, found) && is_prompt_of(
            found,
            path,
            prompt,
        )
}

/// The prompt that the document `data` holds at the JSON path `path`: the JSON path
/// library is asked what `path` matches in `data`, and the prompt is the text of the
/// last match, as `prompt_from_matches` says. A path that the library cannot read is
/// refused in the library's words.
pub fn extract_prompt_from_path(data: &Value, path: &str) -> (prompt: Result<
    String,
    CompletionError,
>)
    ensures
        is_extracted(data, path@, prompt),
        prompt matches Err(e) ==> e is InvalidJsonPath || e is InvalidRequest,
{
    let found = query_with_path(data, path);
    let ghost given = found;
    assert(is_query_result(data, path, given));
    match found {
        Ok(matches) => {
            let prompt = prompt_from_matches(&matches, path);
            assert(is_prompt_of(given, path@, prompt));
            prompt
        },
        Err(e) => {
            let words = json_path_error_words(&e);
            assert(is_error_words(&e, words));
            let prompt = Err(CompletionError::InvalidJsonPath(words));
            assert(is_prompt_of(given, path@, prompt));
            prompt
        },
    }
}

} // verus!
