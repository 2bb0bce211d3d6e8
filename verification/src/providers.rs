use url::{ParseError, Url};
use vstd::prelude::*;
use vstd::string::StringExecFns;

verus! {

/// The upstream services that requests can be passed on to.
#[derive(Clone, Copy, Debug, PartialEq, Eq)]
pub enum ProviderType {
    Anthropic,
    OpenAI,
    Generic,
}

/// Why no prompt path or upstream address could be had for a request.
#[derive(Debug, Clone, PartialEq)]
pub enum ProviderError {
    /// A header that should hold text holds bytes that are none.
    StringParsingHeaderError,
    /// A header that should hold an address holds none, with the parser's words.
    UrlParsingHeaderError(String),
    /// The generic provider was used without the header that it needs.
    InvalidGenericProvider(String),
}

/// A header of a request as the provider rules see it.
#[derive(Clone, Copy, Debug)]
pub enum HeaderText<'a> {
    /// The request carries no such header.
    Missing,
    /// The header is there but its bytes are not visible text.
    Unreadable,
    /// The header's text.
    Text(&'a str),
}

/// `url::ParseError`, carried as an opaque value.
#[verifier::external_type_specification]
#[verifier::external_body]
pub struct ExParseError(ParseError);

/// What `Url::parse` makes of a text: the address in its normal form, or nothing where
/// the text is no address.
pub uninterp spec fn parsed_url(input: Seq<char>) -> Option<Seq<char>>;

/// What `Url::join` makes of a reference on a base address, the base given by its text:
/// the address that the reference names seen from the base, in its normal form, or
/// nothing where there is no such address.
pub uninterp spec fn joined_url(base: Seq<char>, reference: Seq<char>) -> Option<Seq<char>>;

/// `Url::parse`: the text of the address that `input` holds, or the parser's error.
#[verifier::external_body]
fn parse_url(input: &str) -> (parsed: Result<String, ParseError>)
    ensures
        match parsed {
            Ok(text) => parsed_url(input@) == Some(text@),
            Err(_) => parsed_url(input@) is None,
        },
{
    Url::parse(input).map(String::from)
}

/// `Url::join` on the address whose text is `base`: the text of the address that
/// `reference` names seen from it, or the parser's error.
#[verifier::external_body]
fn join_url(base: &str, reference: &str) -> (joined: Result<String, ParseError>)
    ensures
        match joined {
            Ok(text) => joined_url(base@, reference@) == Some(text@),
            Err(_) => joined_url(base@, reference@) is None,
        },
{
    match Url::parse(base) {
        Ok(base) => base.join(reference).map(String::from),
        Err(e) => Err(e),
    }
}

/// The words of a `url::ParseError`, as its `Display` writes them.
#[verifier::external_body]
fn parse_error_words(e: &ParseError) -> String {
    e.to_string()
}

/// The route under which a provider is served.
pub open spec fn provider_path(provider: ProviderType) -> Seq<char> {
    match provider {
        ProviderType::Anthropic => "/v1/messages"@,
        ProviderType::OpenAI => "/v1/chat/completions"@,
        ProviderType::Generic => "/v1/semcache/"@,
    }
}

/// Where a provider's requests hold the prompt, unless the request says otherwise.
pub open spec fn default_prompt_path(provider: ProviderType) -> Option<Seq<char>> {
    match provider {
        ProviderType::Anthropic => Some("$.messages[-1].content"@),
        ProviderType::OpenAI => Some("$.messages[-1].content"@),
        ProviderType::Generic => None,
    }
}

/// The words of the error for a generic request that names no prompt path.
pub open spec fn missing_prompt_path_text() -> Seq<char> {
    "Please provide a prompt path when using the generic semcache method"@
}

/// The address of a provider's own service. The generic provider has none.
pub open spec fn default_url(provider: ProviderType) -> Option<Seq<char>> {
    match provider {
        ProviderType::Anthropic => Some("https://api.anthropic.com/v1/messages"@),
        ProviderType::OpenAI => Some("https://api.openai.com/v1/chat/completions"@),
        ProviderType::Generic => None,
    }
}

/// The words of the error for a generic request that names no upstream address.
pub open spec fn missing_upstream_text() -> Seq<char> {
    "please use the X-LLM-PROXY-UPSTREAM header to specify server to forward requests to"@
}

/// The upstream address for a provider whose headers name none, or for one that names
/// only a host whose address is `base`: the provider's route on that host, else the
/// provider's own service. Nothing where the provider has neither, or the route cannot
/// be joined onto the host.
pub open spec fn provider_url(provider: ProviderType, base: Option<Seq<char>>) -> Option<
    Seq<char>,
> {
    match provider {
        ProviderType::Generic => None,
        _ => match base {
            Some(host) => joined_url(host, provider_path(provider)),
            None => default_url(provider),
        },
    }
}

impl ProviderType {
    /// The route under which this provider is served.
    pub fn path(&self) -> (path: &'static str)
        ensures
            path@ == provider_path(*self),
    {
        match self {
            ProviderType::Anthropic => "/v1/messages",
            ProviderType::OpenAI => "/v1/chat/completions",
            ProviderType::Generic => "/v1/semcache/",
        }
    }

    /// The JSON path of the prompt in a request: the one that the request's header
    /// names, else the provider's own. The generic provider has none of its own.
    pub fn prompt_json_path<'request>(
        &self,
        maybe_prompt_location_header: HeaderText<'request>,
    ) -> (path: Result<&'request str, ProviderError>)
        ensures
            match maybe_prompt_location_header {
                HeaderText::Text(text) => path == Ok::<&str, ProviderError>(text),
                HeaderText::Unreadable => path == Err::<&str, ProviderError>(
                    ProviderError::StringParsingHeaderError,
                ),
                HeaderText::Missing => match default_prompt_path(*self) {
                    Some(default) => path is Ok && path->Ok_0@ == default,
                    None => path matches Err(ProviderError::InvalidGenericProvider(words))
                        && words@ == missing_prompt_path_text(),
                },
            },
    {
        match maybe_prompt_location_header {
            HeaderText::Text(text) => {
                return Ok(text);
            },
            HeaderText::Unreadable => {
                return Err(ProviderError::StringParsingHeaderError);
            },
            HeaderText::Missing => {},
        }
        match self {
            ProviderType::Anthropic => Ok("$.messages[-1].content"),
            ProviderType::OpenAI => Ok("$.messages[-1].content"),
            ProviderType::Generic => Err(
                ProviderError::InvalidGenericProvider(
                    String::from_str(
                        "Please provide a prompt path when using the generic semcache method",
                    ),
                ),
            ),
        }
    }

    /// The upstream address of this provider on the host whose address is
    /// `maybe_base`, or of the provider's own service where no host is given. The
    /// generic provider has no route of its own and is refused either way.
    pub fn url_on(&self, maybe_base: Option<&str>) -> (url: Result<String, ProviderError>)
        ensures
            match provider_url(*self, option_text(maybe_base)) {
                Some(text) => url is Ok && url->Ok_0@ == text,
                None => match *self {
                    ProviderType::Generic => url matches Err(
                        ProviderError::InvalidGenericProvider(words),
                    ) && words@ == missing_upstream_text(),
                    _ => url matches Err(ProviderError::UrlParsingHeaderError(_)),
                },
            },
    {
        match self {
            ProviderType::Generic => Err(
                ProviderError::InvalidGenericProvider(
                    String::from_str(
                        "please use the X-LLM-PROXY-UPSTREAM header to specify \
                         server to forward requests to",
                    ),
                ),
            ),
            ProviderType::Anthropic | ProviderType::OpenAI => match maybe_base {
                Some(base) => match join_url(base, self.path()) {
                    Ok(text) => Ok(text),
                    Err(e) => Err(ProviderError::UrlParsingHeaderError(parse_error_words(&e))),
                },
                None => match self {
                    ProviderType::Anthropic => Ok(
                        String::from_str("https://api.anthropic.com/v1/messages"),
                    ),
                    _ => Ok(String::from_str("https://api.openai.com/v1/chat/completions")),
                },
            },
        }
    }

    /// The address to which a request is passed on: the one that the upstream header
    /// names, whatever the provider; else the provider's route on the host that the
    /// host header names; else the provider's own service. A header that is no text,
    /// or no address, fails the request.
    pub fn url(&self, maybe_upstream_url: HeaderText, maybe_proxy_host: HeaderText) -> (url:
        Result<String, ProviderError>)
        ensures
            match maybe_upstream_url {
                HeaderText::Text(upstream) => match parsed_url(upstream@) {
                    Some(text) => url is Ok && url->Ok_0@ == text,
                    None => url matches Err(ProviderError::UrlParsingHeaderError(_)),
                },
                HeaderText::Unreadable => url == Err::<String, ProviderError>(
                    ProviderError::StringParsingHeaderError,
                ),
                HeaderText::Missing => match maybe_proxy_host {
                    HeaderText::Text(host) => match parsed_url(host@) {
                        Some(base) => match provider_url(*self, Some(base)) {
                            Some(text) => url is Ok && url->Ok_0@ == text,
                            None => match *self {
                                ProviderType::Generic => url matches Err(
                                    ProviderError::InvalidGenericProvider(words),
                                ) && words@ == missing_upstream_text(),
                                _ => url matches Err(ProviderError::UrlParsingHeaderError(_)),
                            },
                        },
                        None => url matches Err(ProviderError::UrlParsingHeaderError(_)),
                    },
                    HeaderText::Unreadable => url == Err::<String, ProviderError>(
                        ProviderError::StringParsingHeaderError,
                    ),
                    HeaderText::Missing => match default_url(*self) {
                        Some(text) => url is Ok && url->Ok_0@ == text,
                        None => url matches Err(ProviderError::InvalidGenericProvider(words))
                            && words@ == missing_upstream_text(),
                    },
                },
            },
    {
        match maybe_upstream_url {
            HeaderText::Text(upstream) => {
                return match parse_url(upstream) {
                    Ok(text) => Ok(text),
                    Err(e) => Err(ProviderError::UrlParsingHeaderError(parse_error_words(&e))),
                };
            },
            HeaderText::Unreadable => {
                return Err(ProviderError::StringParsingHeaderError);
            },
            HeaderText::Missing => {},
        }
        match maybe_proxy_host {
            HeaderText::Text(host) => {
                let base = match parse_url(host) {
                    Ok(base) => base,
                    Err(e) => {
                        return Err(
                            ProviderError::UrlParsingHeaderError(parse_error_words(&e)),
                        );
                    },
                };
                self.url_on(Some(base.as_str()))
            },
            HeaderText::Unreadable => Err(ProviderError::StringParsingHeaderError),
            HeaderText::Missing => self.url_on(None),
        }
    }
}

/// The text of a text that may be missing.
pub open spec fn option_text(text: Option<&str>) -> Option<Seq<char>> {
    match text {
        Some(t) => Some(t@),
        None => None,
    }
}

} // verus!
