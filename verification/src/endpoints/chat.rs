use crate::cache::cache::{is_inserted, Cache};
use crate::cache::error::CacheError;
use crate::cache::response_store::{entry_size, is_hit};
use crate::embedding::EmbeddingError;
use crate::endpoints::cache_aside::{ErrorReply, STATUS_INTERNAL_SERVER_ERROR, STATUS_OK};
use crate::metrics::CacheStatus;
use crate::providers::{
    default_prompt_path, missing_prompt_path_text, HeaderText, ProviderError, ProviderType,
};
use crate::utils::header_utils::Header;
use crate::utils::json_extract::{extract_prompt_from_path, is_extracted};
use serde_json::Value;
use vstd::prelude::*;
use vstd::string::{StrSliceExecFns, StringExecFns, StringSliceAdditionalSpecFns};

verus! {

/// The status of an answer to a request that the service could not read.
pub const STATUS_BAD_REQUEST: u16 = 400;

/// Why a completion request failed.
#[derive(Debug, Clone, PartialEq)]
pub enum CompletionError {
    /// The upstream service could not be reached, with the client's words.
    Upstream(String),
    /// The upstream service answered with what is not JSON, with the parser's words.
    InvalidResponse(String),
    /// The request does not hold what it must.
    InvalidRequest(String),
    /// The request names a JSON path that is none, with the parser's words.
    InvalidJsonPath(String),
    InternalCacheError(CacheError),
    InternalEmbeddingError(EmbeddingError),
    InternalProviderError(ProviderError),
}

/// The words that describe a provider error.
pub open spec fn provider_error_text(e: ProviderError) -> Seq<char> {
    match e {
        ProviderError::StringParsingHeaderError => "failed to convert header to a str"@,
        ProviderError::UrlParsingHeaderError(words) => words@,
        ProviderError::InvalidGenericProvider(words) => "Invalid generic provider: "@ + words@,
    }
}

/// The status and the message with which a failed completion request is answered.
/// Failures of the service itself are a 500 that says no more than that; a request that
/// could not be read is a 400 that says why.
pub open spec fn completion_error_reply(e: CompletionError) -> (u16, Seq<char>) {
    match e {
        CompletionError::Upstream(_) => (STATUS_INTERNAL_SERVER_ERROR, "Failed to call upstream"@),
        CompletionError::InvalidResponse(_) => (
            STATUS_INTERNAL_SERVER_ERROR,
            "Failed to parse json from upstream"@,
        ),
        CompletionError::InvalidRequest(message) => (STATUS_BAD_REQUEST, message@),
        CompletionError::InvalidJsonPath(message) => (STATUS_BAD_REQUEST, message@),
        CompletionError::InternalCacheError(_) => (
            STATUS_INTERNAL_SERVER_ERROR,
            "Something went wrong!"@,
        ),
        CompletionError::InternalEmbeddingError(_) => (
            STATUS_INTERNAL_SERVER_ERROR,
            "Something went wrong!"@,
        ),
        CompletionError::InternalProviderError(inner) => (
            STATUS_BAD_REQUEST,
            "Error parsing headers: "@ + provider_error_text(inner),
        ),
    }
}

/// A description of a provider error for people.
pub fn provider_error_message(e: &ProviderError) -> (text: String)
    ensures
        text@ == provider_error_text(*e),
{
    match e {
        ProviderError::StringParsingHeaderError => String::from_str(
            "failed to convert header to a str",
        ),
        ProviderError::UrlParsingHeaderError(words) => words.clone(),
        ProviderError::InvalidGenericProvider(words) => String::from_str(
            "Invalid generic provider: ",
        ).concat(words.as_str()),
    }
}

impl CompletionError {
    /// The answer to a completion request that failed.
    pub fn into_response(self) -> (reply: ErrorReply)
        ensures
            (reply.status, reply.message@) == completion_error_reply(self),
    {
        match self {
            CompletionError::Upstream(_) => ErrorReply {
                status: STATUS_INTERNAL_SERVER_ERROR,
                message: String::from_str("Failed to call upstream"),
            },
            CompletionError::InvalidResponse(_) => ErrorReply {
                status: STATUS_INTERNAL_SERVER_ERROR,
                message: String::from_str("Failed to parse json from upstream"),
            },
            CompletionError::InvalidRequest(message) => ErrorReply {
                status: STATUS_BAD_REQUEST,
                message,
            },
            CompletionError::InvalidJsonPath(message) => ErrorReply {
                status: STATUS_BAD_REQUEST,
                message,
            },
            CompletionError::InternalCacheError(_) => ErrorReply {
                status: STATUS_INTERNAL_SERVER_ERROR,
                message: String::from_str("Something went wrong!"),
            },
            CompletionError::InternalEmbeddingError(_) => ErrorReply {
                status: STATUS_INTERNAL_SERVER_ERROR,
                message: String::from_str("Something went wrong!"),
            },
            CompletionError::InternalProviderError(inner) => {
                let detail = provider_error_message(&inner);
                ErrorReply {
                    status: STATUS_BAD_REQUEST,
                    message: String::from_str("Error parsing headers: ").concat(detail.as_str()),
                }
            },
        }
    }
}

/// The answer to a completion request: a status, headers and a body, and how the cache
/// fared on the request.
#[derive(Debug, Clone)]
pub struct CompletionReply {
    pub status: u16,
    pub headers: Vec<Header>,
    pub body: Vec<u8>,
    pub cache_status: CacheStatus,
}

/// The prompt of a completion request: what the request's body holds at the JSON path
/// that the prompt header names, or at the provider's own. The path is settled as
/// `ProviderType::prompt_json_path` says; what it matches in the body is the JSON path
/// library's to say.
pub fn prompt_of_request(
    provider: &ProviderType,
    prompt_location: HeaderText,
    request_body: &Value,
) -> (prompt: Result<String, CompletionError>)
    ensures
        match prompt_location {
            HeaderText::Text(path) => is_extracted(request_body, path@, prompt),
            HeaderText::Unreadable => prompt == Err::<String, CompletionError>(
                CompletionError::InternalProviderError(ProviderError::StringParsingHeaderError),
            ),
            HeaderText::Missing => match default_prompt_path(*provider) {
                Some(default) => is_extracted(request_body, default, prompt),
                None => prompt matches Err(
                    CompletionError::InternalProviderError(
                        ProviderError::InvalidGenericProvider(words),
                    ),
                ) && words@ == missing_prompt_path_text(),
            },
        },
{
    let path = match provider.prompt_json_path(prompt_location) {
        Ok(path) => path,
        Err(e) => {
            return Err(CompletionError::InternalProviderError(e));
        },
    };
    extract_prompt_from_path(request_body, path)
}

/// `reply` is the answer to a request whose response `body` the cache holds: a 200
/// with that body, marked as a hit and as JSON.
pub open spec fn is_hit_reply(reply: CompletionReply, body: Seq<u8>) -> bool {
    &&& reply.status == STATUS_OK
    &&& reply.body@ == body
    &&& reply.cache_status == CacheStatus::Hit
    &&& reply.headers@.len() == 2
    &&& reply.headers@[0].name@ == "x-cache-status"@
    &&& reply.headers@[0].value@ == "hit".spec_bytes()
    &&& reply.headers@[1].name@ == "content-type"@
    &&& reply.headers@[1].value@ == "application/json".spec_bytes()
}

/// What the cache's answer `looked` to a lookup means for a completion request: a
/// response is the reply, as `hit_reply` makes it; none sends the request upstream; a
/// failure of the cache fails the request.
pub open spec fn is_cached_reply(
    looked: Result<Option<Vec<u8>>, CacheError>,
    reply: Result<Option<CompletionReply>, CompletionError>,
) -> bool {
    match looked {
        Ok(Some(bytes)) => reply matches Ok(Some(answer)) && is_hit_reply(answer, bytes@),
        Ok(None) => reply matches Ok(None),
        Err(e) => reply == Err::<Option<CompletionReply>, CompletionError>(
            CompletionError::InternalCacheError(e),
        ),
    }
}

/// What the cache's answer `inserted` to an insertion means for keeping an upstream
/// answer: a failure of the cache is the failure of the request.
pub open spec fn is_kept(
    inserted: Result<(), CacheError>,
    result: Result<(), CompletionError>,
) -> bool {
    match inserted {
        Ok(()) => result is Ok,
        Err(e) => result == Err::<(), CompletionError>(CompletionError::InternalCacheError(e)),
    }
}

/// The answer to a request whose response the cache holds: a 200 with the response as
/// its body, marked as a hit and as JSON.
pub fn hit_reply(saved_response: Vec<u8>) -> (reply: CompletionReply)
    ensures
        is_hit_reply(reply, saved_response@),
{
    let mut headers: Vec<Header> = Vec::new();
    headers.push(
        Header { name: String::from_str("x-cache-status"), value: "hit".as_bytes_vec() },
    );
    headers.push(
        Header {
            name: String::from_str("content-type"),
            value: "application/json".as_bytes_vec(),
        },
    );
    CompletionReply {
        status: STATUS_OK,
        headers,
        body: saved_response,
        cache_status: CacheStatus::Hit,
    }
}

/// The answer that the cache has for a request whose prompt has the given embedding,
/// if it has one; with none, the request goes upstream. An embedding that could not be
/// made, and a cache that failed, fail the request and leave the cache as it was.
pub fn cached_reply<C: Cache>(
    cache: &mut C,
    embedding: &Result<C::Embedding, EmbeddingError>,
) -> (reply: Result<Option<CompletionReply>, CompletionError>)
    requires
        old(cache).wf(),
    ensures
        final(cache).wf(),
        final(cache).byte_total() == old(cache).byte_total(),
        *embedding is Err ==> (reply matches Err(CompletionError::InternalEmbeddingError(_))),
        *embedding is Err ==> *final(cache) == *old(cache),
        *embedding matches Ok(e) ==> exists|
            m: &mut C,
            looked: Result<Option<Vec<u8>>, CacheError>,
        |
            #[trigger] call_ensures(C::get_if_present, (m, &e), looked) && *m == *old(cache)
                && *final(m) == *final(cache) && is_cached_reply(looked, reply),
        *embedding is Ok ==> match reply {
            Ok(Some(answer)) => answer.status == STATUS_OK && answer.cache_status
                == CacheStatus::Hit && is_hit(
                old(cache).entries(),
                final(cache).entries(),
                answer.body@,
            ),
            Ok(None) => final(cache).entries() == old(cache).entries(),
            Err(e) => e is InternalCacheError && final(cache).entries() == old(cache).entries(),
        },
{
    let embedding = match embedding {
        Ok(embedding) => embedding,
        Err(e) => {
            return Err(CompletionError::InternalEmbeddingError(e.clone()));
        },
    };
    match cache.get_if_present(embedding) {
        Ok(Some(saved_response)) => Ok(Some(hit_reply(saved_response))),
        Ok(None) => Ok(None),
        Err(e) => Err(CompletionError::InternalCacheError(e)),
    }
}

/// The answer to a request that went upstream: what came back, status, headers and
/// body, marked as a miss. An answer that reports success is kept for later requests
/// first; if the cache fails at that, the request fails.
pub fn upstream_reply<C: Cache>(
    cache: &mut C,
    embedding: C::Embedding,
    status: u16,
    headers: Vec<Header>,
    response_body: Vec<u8>,
) -> (reply: Result<CompletionReply, CompletionError>)
    requires
        old(cache).wf(),
        old(cache).byte_total() + entry_size(response_body@.len()) <= usize::MAX,
    ensures
        final(cache).wf(),
        !(200 <= status < 300) ==> reply is Ok && *final(cache) == *old(cache),
        200 <= status < 300 ==> exists|n: &mut C, inserted: Result<(), CacheError>, body: Vec<u8>|
            #[trigger] call_ensures(C::insert, (n, embedding, body), inserted) && body@
                == response_body@ && *n == *old(cache) && *final(n) == *final(cache) && match
                inserted {
                Ok(()) => reply is Ok,
                Err(e) => reply == Err::<CompletionReply, CompletionError>(
                    CompletionError::InternalCacheError(e),
                ),
            },
        200 <= status < 300 ==> is_inserted(
            old(cache).entries(),
            final(cache).entries(),
            response_body@,
        ),
        match reply {
            Ok(answer) => answer.status == status && answer.headers@ == headers@ && answer.body@
                == response_body@ && answer.cache_status == CacheStatus::Miss,
            Err(e) => e is InternalCacheError,
        },
{
    match store_upstream_response(cache, embedding, status, response_body.clone()) {
        Ok(()) => Ok(
            CompletionReply {
                status,
                headers,
                body: response_body,
                cache_status: CacheStatus::Miss,
            },
        ),
        Err(e) => Err(e),
    }
}

/// Whether an upstream status reports success: the 2xx range.
pub fn is_success(status: u16) -> (success: bool)
    ensures
        success == (200 <= status < 300),
{
    200 <= status && status < 300
}

/// Keeps an upstream answer for later requests if it reports success; any other answer
/// passes the cache by.
pub fn store_upstream_response<C: Cache>(
    cache: &mut C,
    embedding: C::Embedding,
    status: u16,
    response_body: Vec<u8>,
) -> (result: Result<(), CompletionError>)
    requires
        old(cache).wf(),
        old(cache).byte_total() + entry_size(response_body@.len()) <= usize::MAX,
    ensures
        final(cache).wf(),
        !(200 <= status < 300) ==> result is Ok && *final(cache) == *old(cache),
        200 <= status < 300 ==> exists|n: &mut C, inserted: Result<(), CacheError>|
            #[trigger] call_ensures(C::insert, (n, embedding, response_body), inserted) && *n
                == *old(cache) && *final(n) == *final(cache) && is_kept(inserted, result),
        200 <= status < 300 ==> is_inserted(
            old(cache).entries(),
            final(cache).entries(),
            response_body@,
        ),
        result matches Err(e) ==> e is InternalCacheError,
{
    if is_success(status) {
        match cache.insert(embedding, response_body) {
            Ok(()) => Ok(()),
            Err(e) => Err(CompletionError::InternalCacheError(e)),
        }
    } else {
        Ok(())
    }
}

} // verus!
