use semcache::endpoints::chat::CompletionError;
use semcache::utils::json_extract::{extract_prompt_from_path, prompt_from_matches, Matched};
use serde_json::Value;

fn json(text: &str) -> Value {
    serde_json::from_str(text).unwrap()
}

#[test]
fn test_openai_format_prompt_selection() {
    let body = json(
        r#"{
            "messages": [
                {"content": "First message!"},
                {"content": "Here is your reply"},
                {"content": "My extremely interesting prompt"}
            ]
        }"#,
    );

    let result = extract_prompt_from_path(&body, "$.messages[-1].content");

    assert!(result.is_ok());
    let prompt = result.unwrap();
    assert_eq!(prompt, "My extremely interesting prompt");

    let body = json(
        r#"{
            "messages": [
                {"content": "Single message"}
            ]
        }"#,
    );

    let result = extract_prompt_from_path(&body, "$.messages[-1].content");

    assert!(result.is_ok());
    let prompt = result.unwrap();
    assert_eq!(prompt, "Single message");
}

#[test]
fn should_return_errors_when_incorrectly_formatted() {
    let body = json(r#"{ "messages": [] }"#);
    let result = extract_prompt_from_path(&body, "$.messages[-1].content");

    match result {
        Err(CompletionError::InvalidRequest(x)) => {
            assert_eq!("No element found at path '$.messages[-1].content'", x)
        }
        _ => panic!("Expected CompletionError::Internal"),
    }

    let body = json("{}");
    let result = extract_prompt_from_path(&body, "$.messages[-1].content");
    match result {
        Err(CompletionError::InvalidRequest(x)) => {
            assert_eq!("No element found at path '$.messages[-1].content'", x)
        }
        _ => panic!("Expected CompletionError::Internal"),
    }
}

#[test]
fn test_simple_prompt_location() {
    let body = json(r#"{ "prompt": "What is the capital of France?" }"#);

    let result = extract_prompt_from_path(&body, "$.prompt");

    assert!(result.is_ok());
    let prompt = result.unwrap();
    assert_eq!(prompt, "What is the capital of France?");
}

#[test]
fn a_match_that_is_no_string_is_refused() {
    let body = json(r#"{ "prompt": 42 }"#);
    assert_eq!(
        extract_prompt_from_path(&body, "$.prompt"),
        Err(CompletionError::InvalidRequest(String::from(
            "Expected a string at path '$.prompt', but found: Number(42)"
        )))
    );
}

#[test]
fn the_last_of_several_matches_is_the_prompt() {
    let body = json(r#"{ "a": [ {"t": "one"}, {"t": "two"}, {"t": "three"} ] }"#);
    assert_eq!(
        extract_prompt_from_path(&body, "$.a[*].t"),
        Ok(String::from("three"))
    );
}

#[test]
fn a_path_that_cannot_be_read_is_refused() {
    let body = json(r#"{ "prompt": "x" }"#);
    assert!(matches!(
        extract_prompt_from_path(&body, "$.[[["),
        Err(CompletionError::InvalidJsonPath(_))
    ));
}

#[test]
fn prompt_from_matches_takes_the_last_match() {
    let found = vec![
        Matched::Other(String::from("Null")),
        Matched::Text(String::from("first")),
        Matched::Text(String::from("last")),
    ];
    assert_eq!(prompt_from_matches(&found, "$.x"), Ok(String::from("last")));
    assert_eq!(
        prompt_from_matches(&Vec::new(), "$.x"),
        Err(CompletionError::InvalidRequest(String::from(
            "No element found at path '$.x'"
        )))
    );
    let found = vec![
        Matched::Text(String::from("first")),
        Matched::Other(String::from("Bool(true)")),
    ];
    assert_eq!(
        prompt_from_matches(&found, "$.x"),
        Err(CompletionError::InvalidRequest(String::from(
            "Expected a string at path '$.x', but found: Bool(true)"
        )))
    );
}
