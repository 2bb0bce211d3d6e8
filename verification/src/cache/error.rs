use vstd::prelude::*;
use vstd::string::StringExecFns;

verus! {

/// Why the vector index refused an operation.
#[derive(Debug, Clone, PartialEq)]
pub enum IndexError {
    /// The backend raised an error of its own, with its code and its words.
    Native { code: i32, message: String },
    /// Invalid index type cast.
    BadCast,
    /// Invalid index description.
    IndexDescription,
    /// Invalid file path.
    BadFilePath,
    /// Invalid parameter name of index.
    ParameterName,
    /// The number of GPU resources and devices do not match.
    GpuResourcesMatch,
    /// The dimension of the vector does not match the dimension of the index.
    BadDimension,
}

/// What the cache reports when an operation fails.
#[derive(Debug, Clone, PartialEq)]
pub enum CacheError {
    /// The vector index refused a search, an insertion or a removal.
    FaissRetrievalError(IndexError),
}

/// The words that describe an index error.
pub open spec fn index_error_text(e: IndexError) -> Seq<char> {
    match e {
        IndexError::Native { code, message } => "Native faiss error: "@ + message@,
        IndexError::BadCast => "Invalid index type cast"@,
        IndexError::IndexDescription => "Invalid index description"@,
        IndexError::BadFilePath => "Invalid file path"@,
        IndexError::ParameterName => "Invalid parameter name of index"@,
        IndexError::GpuResourcesMatch => "Number of GPU resources and devices do not match"@,
        IndexError::BadDimension => "invalid vector dimension"@,
    }
}

/// The words that describe a cache error.
pub open spec fn cache_error_text(e: CacheError) -> Seq<char> {
    match e {
        CacheError::FaissRetrievalError(inner) => {
            "Failed to search through Faiss in-memory store: "@ + index_error_text(inner)
        },
    }
}

impl IndexError {
    /// A description of the error for people.
    pub fn message(&self) -> (text: String)
        ensures
            text@ == index_error_text(*self),
    {
        match self {
            IndexError::Native { code: _, message } => String::from_str(
                "Native faiss error: ",
            ).concat(message.as_str()),
            IndexError::BadCast => String::from_str("Invalid index type cast"),
            IndexError::IndexDescription => String::from_str("Invalid index description"),
            IndexError::BadFilePath => String::from_str("Invalid file path"),
            IndexError::ParameterName => String::from_str("Invalid parameter name of index"),
            IndexError::GpuResourcesMatch => String::from_str(
                "Number of GPU resources and devices do not match",
            ),
            IndexError::BadDimension => String::from_str("invalid vector dimension"),
        }
    }
}

impl CacheError {
    /// A description of the error for people.
    pub fn message(&self) -> (text: String)
        ensures
            text@ == cache_error_text(*self),
    {
        match self {
            CacheError::FaissRetrievalError(inner) => {
                let detail = inner.message();
                String::from_str("Failed to search through Faiss in-memory store: ").concat(
                    detail.as_str(),
                )
            },
        }
    }
}

} // verus!
