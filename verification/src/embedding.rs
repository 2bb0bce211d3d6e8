use vstd::prelude::*;
use vstd::string::StringExecFns;

verus! {

/// Why no embedding could be had.
#[derive(Debug, Clone, PartialEq)]
pub enum EmbeddingError {
    /// The model failed on a text.
    GenerationError(String),
    /// The model could not be set up.
    SetupError(String),
}

/// The words that describe an embedding error.
pub open spec fn embedding_error_text(e: EmbeddingError) -> Seq<char> {
    match e {
        EmbeddingError::GenerationError(reason) => "Failed to generate embedding: "@ + reason@,
        EmbeddingError::SetupError(reason) => "Failed to set up embedding model: "@ + reason@,
    }
}

impl EmbeddingError {
    /// A description of the error for people.
    pub fn message(&self) -> (text: String)
        ensures
            text@ == embedding_error_text(*self),
    {
        match self {
            EmbeddingError::GenerationError(reason) => String::from_str(
                "Failed to generate embedding: ",
            ).concat(reason.as_str()),
            EmbeddingError::SetupError(reason) => String::from_str(
                "Failed to set up embedding model: ",
            ).concat(reason.as_str()),
        }
    }
}

/// What turns a text into the embedding under which the cache keeps it.
pub trait EmbeddingService {
    /// How the service hands out an embedding.
    type Embedding;

    /// The embedding of `text`.
    fn embed(&self, text: &str) -> Result<Self::Embedding, EmbeddingError>;
}

/// The embedding models that the service can run.
#[derive(Clone, Copy, Debug, PartialEq, Eq)]
pub enum EmbeddingModel {
    /// all-MiniLM-L6-v2, a sentence transformer.
    AllMiniLML6V2,
}

/// The number of components in an embedding of a model.
pub open spec fn model_dimensionality(model: EmbeddingModel) -> u32 {
    match model {
        EmbeddingModel::AllMiniLML6V2 => 384,
    }
}

/// The embedding service's choice of model.
#[derive(Clone, Copy, Debug)]
pub struct FastEmbedService {
    model_name: EmbeddingModel,
}

impl FastEmbedService {
    /// The model that the service runs.
    pub closed spec fn model(&self) -> EmbeddingModel {
        self.model_name
    }

    /// A service on all-MiniLM-L6-v2.
    pub fn new() -> (service: Self)
        ensures
            service.model() == EmbeddingModel::AllMiniLML6V2,
    {
        FastEmbedService { model_name: EmbeddingModel::AllMiniLML6V2 }
    }

    /// The model that the service runs.
    pub fn model_name(&self) -> (model: EmbeddingModel)
        ensures
            model == self.model(),
    {
        self.model_name
    }

    /// The number of components in the embeddings that the service makes.
    pub fn get_dimensionality(&self) -> (dimensionality: u32)
        ensures
            dimensionality == model_dimensionality(self.model()),
    {
        match self.model_name {
            EmbeddingModel::AllMiniLML6V2 => 384,
        }
    }
}

} // verus!
