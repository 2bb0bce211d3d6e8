use semcache::providers::{HeaderText, ProviderError, ProviderType};
use url::Url;

const ANTHROPIC_PROMPT_PATH: &str = "$.messages[-1].content";
const OPEN_AI_PROMPT_PATH: &str = "$.messages[-1].content";
const ANTHROPIC_DEFAULT_URL: &str = "https://api.anthropic.com/v1/messages";
const OPEN_AI_DEFAULT_URL: &str = "https://api.openai.com/v1/chat/completions";

fn parsed(text: &str) -> Url {
    Url::parse(text).unwrap()
}

#[test]
fn prompt_json_path_openai() {
    let provider = ProviderType::OpenAI;

    let path = provider.prompt_json_path(HeaderText::Missing).unwrap();

    assert_eq!(path, OPEN_AI_PROMPT_PATH);
}

#[test]
fn prompt_json_path_anthropic() {
    let provider = ProviderType::Anthropic;

    let path = provider.prompt_json_path(HeaderText::Missing).unwrap();

    assert_eq!(path, ANTHROPIC_PROMPT_PATH);
}

#[test]
fn prompt_json_path_generic_and_path_supplied() {
    let provider = ProviderType::Generic;

    let path = provider
        .prompt_json_path(HeaderText::Text("$.prompt_path"))
        .unwrap();

    assert_eq!(path, "$.prompt_path");
}

#[test]
fn prompt_json_path_generic_and_no_path_expect_err() {
    let provider = ProviderType::Generic;

    let path = provider.prompt_json_path(HeaderText::Missing);

    match path {
        Ok(_) => panic!("Should given an error"),
        Err(_) => assert!(true),
    }
}

#[test]
fn url_openai() {
    let provider = ProviderType::OpenAI;

    let url = provider.url(HeaderText::Missing, HeaderText::Missing).unwrap();

    assert_eq!(parsed(&url), parsed(OPEN_AI_DEFAULT_URL));
}

#[test]
fn url_anthropic() {
    let provider = ProviderType::Anthropic;

    let url = provider.url(HeaderText::Missing, HeaderText::Missing).unwrap();

    assert_eq!(parsed(&url), parsed(ANTHROPIC_DEFAULT_URL));
}

#[test]
fn url_openai_when_host_header_provided() {
    let provider = ProviderType::OpenAI;

    let url = provider
        .url(HeaderText::Missing, HeaderText::Text("https://api.deepseek.com"))
        .unwrap();

    let expected = Url::parse("https://api.deepseek.com/v1/chat/completions").unwrap();
    assert_eq!(parsed(&url), expected);
}

#[test]
fn url_openai_when_proxy_upstream_and_host_header_provided() {
    let provider = ProviderType::OpenAI;
    let proxy_upstream = HeaderText::Text("https://clart.com");
    let proxy_host = HeaderText::Text("https://api.deepseek.com");

    let url = provider.url(proxy_upstream, proxy_host).unwrap();

    let expected = Url::parse("https://clart.com").unwrap();
    assert_eq!(parsed(&url), expected);
}

#[test]
fn url_generic_when_proxy_upstream_and_host_header_provided() {
    let provider = ProviderType::Generic;
    let proxy_upstream = HeaderText::Text("https://clart.com");
    let proxy_host = HeaderText::Text("https://api.deepseek.com");

    let url = provider.url(proxy_upstream, proxy_host).unwrap();

    let expected = Url::parse("https://clart.com").unwrap();
    assert_eq!(parsed(&url), expected);
}

#[test]
fn url_generic_when_proxy_upstream_provided() {
    let provider = ProviderType::Generic;
    let proxy_upstream = HeaderText::Text("https://clart.com");

    let url = provider.url(proxy_upstream, HeaderText::Missing).unwrap();

    let expected = Url::parse("https://clart.com").unwrap();
    assert_eq!(parsed(&url), expected);
}

#[test]
fn url_generic_when_proxy_host_provided() {
    let provider = ProviderType::Generic;
    let proxy_host = HeaderText::Text("https://api.deepseek.com");

    let url = provider.url(HeaderText::Missing, proxy_host);

    match url {
        Ok(_) => panic!("Should give an error"),
        Err(_) => assert!(true),
    }
}

#[test]
fn url_generic_when_no_headers_provided() {
    let provider = ProviderType::Generic;

    let url = provider.url(HeaderText::Missing, HeaderText::Missing);

    match url {
        Ok(_) => panic!("Should give an error"),
        Err(_) => assert!(true),
    }
}

#[test]
fn paths_of_the_providers() {
    assert_eq!(ProviderType::Anthropic.path(), "/v1/messages");
    assert_eq!(ProviderType::OpenAI.path(), "/v1/chat/completions");
    assert_eq!(ProviderType::Generic.path(), "/v1/semcache/");
}

#[test]
fn url_texts_are_the_parsed_addresses() {
    assert_eq!(
        ProviderType::OpenAI.url(HeaderText::Text("https://CLART.com"), HeaderText::Missing),
        Ok(String::from("https://clart.com/"))
    );
    assert_eq!(
        ProviderType::Anthropic.url(HeaderText::Missing, HeaderText::Text("https://example.org/x/y")),
        Ok(String::from("https://example.org/v1/messages"))
    );
    assert_eq!(
        ProviderType::Anthropic.url(HeaderText::Missing, HeaderText::Missing),
        Ok(String::from(ANTHROPIC_DEFAULT_URL))
    );
    assert_eq!(
        ProviderType::OpenAI.url_on(Some("https://api.deepseek.com/")),
        Ok(String::from("https://api.deepseek.com/v1/chat/completions"))
    );
    assert_eq!(
        ProviderType::OpenAI.url_on(None),
        Ok(String::from(OPEN_AI_DEFAULT_URL))
    );
}

#[test]
fn url_errors_name_their_cause() {
    assert_eq!(
        ProviderType::OpenAI.url(HeaderText::Unreadable, HeaderText::Text("https://a.b")),
        Err(ProviderError::StringParsingHeaderError)
    );
    assert_eq!(
        ProviderType::OpenAI.url(HeaderText::Missing, HeaderText::Unreadable),
        Err(ProviderError::StringParsingHeaderError)
    );
    assert_eq!(
        ProviderType::OpenAI.url(HeaderText::Text("not an address"), HeaderText::Missing),
        Err(ProviderError::UrlParsingHeaderError(String::from(
            "relative URL without a base"
        )))
    );
    assert_eq!(
        ProviderType::Generic.url(HeaderText::Missing, HeaderText::Text("not an address")),
        Err(ProviderError::UrlParsingHeaderError(String::from(
            "relative URL without a base"
        )))
    );
    assert_eq!(
        ProviderType::Generic.url(HeaderText::Missing, HeaderText::Missing),
        Err(ProviderError::InvalidGenericProvider(String::from(
            "please use the X-LLM-PROXY-UPSTREAM header to specify server to forward requests to"
        )))
    );
    assert_eq!(
        ProviderType::Generic.url_on(Some("https://api.deepseek.com/")),
        Err(ProviderError::InvalidGenericProvider(String::from(
            "please use the X-LLM-PROXY-UPSTREAM header to specify server to forward requests to"
        )))
    );
    assert!(matches!(
        ProviderType::OpenAI.url_on(Some("no base")),
        Err(ProviderError::UrlParsingHeaderError(_))
    ));
}

#[test]
fn prompt_json_path_errors_name_their_cause() {
    assert_eq!(
        ProviderType::Anthropic.prompt_json_path(HeaderText::Unreadable),
        Err(ProviderError::StringParsingHeaderError)
    );
    assert_eq!(
        ProviderType::Generic.prompt_json_path(HeaderText::Missing),
        Err(ProviderError::InvalidGenericProvider(String::from(
            "Please provide a prompt path when using the generic semcache method"
        )))
    );
}
