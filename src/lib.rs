pub mod client;
pub mod json;
pub mod models;
pub mod retry;
pub mod text;

pub use client::{direct_result, HttpMethod, IngrainClient, RequestDescriptor};
pub use json::{Json, WireRecord};
pub use models::{
    BatchStats, EmbeddingRequest, GenericMessageResponse, ImageClassificationRequest,
    ImageEmbeddingRequest, InferenceStats, LoadModelRequest, LoadedModel, LoadedModelResponse,
    MetricsResponse, ModelClassificationLabelsResponse, ModelEmbeddingDimsResponse, ModelLibrary,
    ModelMetadataRequest, ModelStats, RepositoryModel, RepositoryModelResponse,
    TextEmbeddingRequest, UnloadModelRequest,
};
pub use retry::{
    classify_response, status_is_success, AttemptOutcome, ExecutionError, RetryExecutor,
    RetryPolicy, Step,
};
