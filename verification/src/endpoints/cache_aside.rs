use crate::cache::cache::{is_inserted, Cache};
use crate::cache::error::CacheError;
use crate::cache::response_store::{entry_size, is_hit, is_stored_somewhere};
use crate::embedding::EmbeddingError;
use vstd::prelude::*;
use vstd::string::{StrSliceExecFns, StringExecFns};
use vstd::utf8::encode_utf8;

verus! {

/// The status of an answer that went well.
pub const STATUS_OK: u16 = 200;

/// The status of an answer to a key that the cache does not hold.
pub const STATUS_NOT_FOUND: u16 = 404;

/// The status of an answer to a request that failed inside the service.
pub const STATUS_INTERNAL_SERVER_ERROR: u16 = 500;

/// A request for the response kept under a key.
#[derive(Debug, Clone)]
pub struct GetRequest {
    pub key: String,
}

/// A request to keep a response under a key.
#[derive(Debug, Clone)]
pub struct PutRequest {
    pub key: String,
    pub data: String,
}

/// Why a cache-aside request failed.
#[derive(Debug, Clone, PartialEq)]
pub enum CacheAsideError {
    InternalEmbedding(EmbeddingError),
    InternalCache(CacheError),
}

/// What a handler answers: a status and a body.
#[derive(Debug, Clone)]
pub struct Reply {
    pub status: u16,
    pub body: Vec<u8>,
}

/// What a handler answers when it fails: a status and a message.
#[derive(Debug, Clone)]
pub struct ErrorReply {
    pub status: u16,
    pub message: String,
}

impl CacheAsideError {
    /// The answer to a request that failed: both failures are the service's own and
    /// say no more than that.
    pub fn into_response(self) -> (reply: ErrorReply)
        ensures
            reply.status == STATUS_INTERNAL_SERVER_ERROR,
            reply.message@ == "Something went wrong"@,
    {
        match self {
            CacheAsideError::InternalEmbedding(_) => ErrorReply {
                status: STATUS_INTERNAL_SERVER_ERROR,
                message: String::from_str("Something went wrong"),
            },
            CacheAsideError::InternalCache(_) => ErrorReply {
                status: STATUS_INTERNAL_SERVER_ERROR,
                message: String::from_str("Something went wrong"),
            },
        }
    }
}

/// The answer to a lookup: a response that was found is the body of a 200, nothing
/// found is an empty 404.
pub fn reply_for(saved_response: Option<Vec<u8>>) -> (reply: Reply)
    ensures
        match saved_response {
            Some(bytes) => reply.status == STATUS_OK && reply.body@ == bytes@,
            None => reply.status == STATUS_NOT_FOUND && reply.body@.len() == 0,
        },
{
    match saved_response {
        Some(bytes) => Reply { status: STATUS_OK, body: bytes },
        None => Reply { status: STATUS_NOT_FOUND, body: Vec::new() },
    }
}

/// What a lookup request is answered with once the cache has given `looked`: a failure
/// of the cache fails the request, and anything else is answered as `reply_for` says.
pub open spec fn is_get_reply(
    looked: Result<Option<Vec<u8>>, CacheError>,
    reply: Result<Reply, CacheAsideError>,
) -> bool {
    match looked {
        Ok(Some(bytes)) => reply matches Ok(answer) && answer.status == STATUS_OK
            && answer.body@ == bytes@,
        Ok(None) => reply matches Ok(answer) && answer.status == STATUS_NOT_FOUND
            && answer.body@.len() == 0,
        Err(e) => reply == Err::<Reply, CacheAsideError>(CacheAsideError::InternalCache(e)),
    }
}

/// A store request went well: a 200 without a body.
pub open spec fn is_stored_reply(reply: Result<Reply, CacheAsideError>) -> bool {
    reply matches Ok(answer) && answer.status == STATUS_OK && answer.body@.len() == 0
}

/// What a store request is answered with once the cache has answered an insertion
/// with `inserted`: a failure of the cache fails the request.
pub open spec fn is_insert_reply(
    inserted: Result<(), CacheError>,
    reply: Result<Reply, CacheAsideError>,
) -> bool {
    match inserted {
        Ok(()) => is_stored_reply(reply),
        Err(e) => reply == Err::<Reply, CacheAsideError>(CacheAsideError::InternalCache(e)),
    }
}

/// Answers a lookup for the key whose embedding is `embedding`: the cache is asked for
/// the response to that embedding, and its answer is the reply's, as `reply_for` says.
/// An embedding that could not be made, and a cache that failed, fail the request and
/// leave the cache as it was.
pub fn get<C: Cache>(cache: &mut C, embedding: Result<C::Embedding, EmbeddingError>) -> (reply:
    Result<Reply, CacheAsideError>)
    requires
        old(cache).wf(),
    ensures
        final(cache).wf(),
        final(cache).byte_total() == old(cache).byte_total(),
        embedding matches Err(e) ==> reply == Err::<Reply, CacheAsideError>(
            CacheAsideError::InternalEmbedding(e),
        ),
        embedding is Err ==> *final(cache) == *old(cache),
        embedding matches Ok(e) ==> exists|m: &mut C, looked: Result<Option<Vec<u8>>, CacheError>|
            #[trigger] call_ensures(C::get_if_present, (m, &e), looked) && *m == *old(cache)
                && *final(m) == *final(cache) && is_get_reply(looked, reply),
        embedding is Ok ==> match reply {
            Ok(answer) => if answer.status == STATUS_OK {
                is_hit(old(cache).entries(), final(cache).entries(), answer.body@)
            } else {
                &&& answer.status == STATUS_NOT_FOUND
                &&& answer.body@.len() == 0
                &&& final(cache).entries() == old(cache).entries()
            },
            Err(e) => e is InternalCache && final(cache).entries() == old(cache).entries(),
        },
{
    let embedding = match embedding {
        Ok(embedding) => embedding,
        Err(e) => {
            return Err(CacheAsideError::InternalEmbedding(e));
        },
    };
    let saved_response = match cache.get_if_present(&embedding) {
        Ok(saved_response) => saved_response,
        Err(e) => {
            return Err(CacheAsideError::InternalCache(e));
        },
    };
    Ok(reply_for(saved_response))
}

/// The second half of a store request, once the cache has said whether it replaced a
/// response: if it did, the request is done; if it did not, `body` is inserted for
/// `embedding`; if it failed, so does the request, and the cache is left as it is.
pub fn insert_unless_updated<C: Cache>(
    cache: &mut C,
    updated: Result<bool, CacheError>,
    embedding: C::Embedding,
    body: Vec<u8>,
) -> (reply: Result<Reply, CacheAsideError>)
    requires
        old(cache).wf(),
        updated == Ok::<bool, CacheError>(false) ==> old(cache).byte_total() + entry_size(
            body@.len(),
        ) <= usize::MAX,
    ensures
        final(cache).wf(),
        match updated {
            Ok(true) => *final(cache) == *old(cache) && is_stored_reply(reply),
            Ok(false) => {
                &&& exists|n: &mut C, inserted: Result<(), CacheError>|
                    #[trigger] call_ensures(C::insert, (n, embedding, body), inserted) && *n
                        == *old(cache) && *final(n) == *final(cache) && is_insert_reply(
                        inserted,
                        reply,
                    )
                &&& is_inserted(old(cache).entries(), final(cache).entries(), body@)
            },
            Err(e) => *final(cache) == *old(cache) && reply == Err::<Reply, CacheAsideError>(
                CacheAsideError::InternalCache(e),
            ),
        },
{
    match updated {
        Ok(true) => Ok(Reply { status: STATUS_OK, body: Vec::new() }),
        Ok(false) => match cache.insert(embedding, body) {
            Ok(()) => Ok(Reply { status: STATUS_OK, body: Vec::new() }),
            Err(e) => Err(CacheAsideError::InternalCache(e)),
        },
        Err(e) => Err(CacheAsideError::InternalCache(e)),
    }
}

/// Keeps the request's data under the key whose embedding is `embedding`: the cache is
/// asked to replace the response of a stored prompt that the embedding matches exactly,
/// and where it reports none, to insert the data as a new entry, as
/// `insert_unless_updated` says. An embedding that could not be made fails the request
/// and leaves the cache as it was.
pub fn put<C: Cache>(
    cache: &mut C,
    embedding: Result<C::Embedding, EmbeddingError>,
    request: PutRequest,
) -> (reply: Result<Reply, CacheAsideError>)
    requires
        old(cache).wf(),
        old(cache).byte_total() + entry_size(encode_utf8(request.data@).len()) <= usize::MAX,
    ensures
        final(cache).wf(),
        embedding matches Err(e) ==> reply == Err::<Reply, CacheAsideError>(
            CacheAsideError::InternalEmbedding(e),
        ),
        embedding is Err ==> *final(cache) == *old(cache),
        embedding matches Ok(e) ==> exists|
            m: &mut C,
            updated: Result<bool, CacheError>,
            body: Vec<u8>,
        |
            #[trigger] call_ensures(C::try_update, (m, &e, body), updated) && body@
                == encode_utf8(request.data@) && *m == *old(cache) && match updated {
                Ok(true) => *final(m) == *final(cache) && is_stored_reply(reply),
                Ok(false) => exists|n: &mut C, inserted: Result<(), CacheError>, data: Vec<u8>|
                    #[trigger] call_ensures(C::insert, (n, e, data), inserted) && data@
                        == encode_utf8(request.data@) && *n == *final(m) && *final(n)
                        == *final(cache) && is_insert_reply(inserted, reply),
                Err(err) => *final(m) == *final(cache) && reply == Err::<Reply, CacheAsideError>(
                    CacheAsideError::InternalCache(err),
                ),
            },
        embedding is Ok && reply is Ok ==> {
            ||| is_stored_somewhere(
                old(cache).entries(),
                final(cache).entries(),
                encode_utf8(request.data@),
            )
            ||| is_inserted(
                old(cache).entries(),
                final(cache).entries(),
                encode_utf8(request.data@),
            )
        },
        embedding is Ok && reply is Err ==> {
            ||| final(cache).entries() == old(cache).entries()
            ||| is_inserted(
                old(cache).entries(),
                final(cache).entries(),
                encode_utf8(request.data@),
            )
        },
{
    let body: Vec<u8> = request.data.as_str().as_bytes_vec();
    let embedding = match embedding {
        Ok(embedding) => embedding,
        Err(e) => {
            return Err(CacheAsideError::InternalEmbedding(e));
        },
    };
    let updated = cache.try_update(&embedding, body.clone());
    insert_unless_updated(cache, updated, embedding, body)
}

} // verus!
