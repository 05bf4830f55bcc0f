use vstd::prelude::*;

use crate::json::{opt_seq, Json, WireRecord};
use crate::models::{
    EmbeddingRequest, ImageClassificationRequest, ImageEmbeddingRequest, LoadModelRequest,
    ModelLibrary, ModelMetadataRequest, TextEmbeddingRequest, UnloadModelRequest,
};
use crate::retry::{
    contains_piece, is_success_status, lemma_status_message_names_code_and_body, message_of,
    status_is_success, ExecutionError, RetryPolicy,
};
use crate::text::decimal_of;

verus! {

/// The HTTP method of a request.
#[derive(Clone, Copy, Debug, PartialEq, Eq, Structural)]
pub enum HttpMethod {
    Get,
    Post,
}

/// An unsent request. It owns everything needed to send it, so it can be sent
/// again, unchanged, for every attempt.
#[derive(Debug)]
pub struct RequestDescriptor {
    pub method: HttpMethod,
    pub url: String,
    /// The JSON body, for a `POST`.
    pub body: Option<Json>,
    /// The query parameters, for a `GET`.
    pub query: Vec<(String, String)>,
    /// Whether the request goes through the retry executor; otherwise it is sent
    /// once.
    pub retried: bool,
}

/// A client of the model server and of the inference server. It knows their
/// base addresses and the retry policy of the operations that may be repeated.
#[derive(Debug)]
pub struct IngrainClient {
    pub model_server_url: String,
    pub inference_server_url: String,
    pub retries: u16,
    pub retry_delay_ms: u64,
}

fn join_url(base: &String, path: &str) -> (r: String)
    ensures
        r@ == base@ + path@,
{
    let mut r = base.clone();
    r.append(path);
    r
}

/// A descriptor with no body and no query.
pub open spec fn is_plain(d: RequestDescriptor, method: HttpMethod, url: Seq<char>, retried: bool) -> bool {
    &&& d.method == method
    &&& d.url@ == url
    &&& d.body is None
    &&& d.query@.len() == 0
    &&& d.retried == retried
}

/// A `POST` with a JSON body and no query.
pub open spec fn is_post(d: RequestDescriptor, url: Seq<char>, retried: bool) -> bool {
    &&& d.method == HttpMethod::Post
    &&& d.url@ == url
    &&& d.body is Some
    &&& d.query@.len() == 0
    &&& d.retried == retried
}

/// A retried `GET` whose only query parameter is `name`.
pub open spec fn is_name_query(d: RequestDescriptor, url: Seq<char>, name: String) -> bool {
    &&& d.method == HttpMethod::Get
    &&& d.url@ == url
    &&& d.body is None
    &&& d.query@.len() == 1
    &&& d.query@[0].0@ == "name"@
    &&& d.query@[0].1 == name
    &&& d.retried
}

/// The result of a request sent once: an error status fails whatever the body;
/// a success status gives the decoded value, or fails if the body did not decode.
pub open spec fn direct<T>(status: u16, body: String, decoded: Result<T, String>) -> Result<
    T,
    ExecutionError,
> {
    if !is_success_status(status) {
        Err(ExecutionError::HttpStatus { status, body })
    } else {
        match decoded {
            Ok(v) => Ok(v),
            Err(reason) => Err(ExecutionError::Decode { reason, body }),
        }
    }
}

/// Ends an operation that is sent once, from the status and body of its
/// response and the value decoded from that body.
pub fn direct_result<T>(status: u16, body: String, decoded: Result<T, String>) -> (r: Result<
    T,
    ExecutionError,
>)
    ensures
        r == direct(status, body, decoded),
{
    if !status_is_success(status) {
        Err(ExecutionError::HttpStatus { status, body })
    } else {
        match decoded {
            Ok(v) => Ok(v),
            Err(reason) => Err(ExecutionError::Decode { reason, body }),
        }
    }
}

/// A request sent once that gets an error status fails, whatever the body and
/// whether or not it decoded, and the message of the error names the numeric
/// status code and repeats the body word for word.
pub proof fn lemma_direct_error_status<T>(status: u16, body: String, decoded: Result<T, String>)
    requires
        !is_success_status(status),
    ensures
        direct(status, body, decoded) == Err::<T, ExecutionError>(
            ExecutionError::HttpStatus { status, body },
        ),
        contains_piece(message_of(direct(status, body, decoded)->Err_0), decimal_of(status as nat)),
        contains_piece(message_of(direct(status, body, decoded)->Err_0), body@),
{
    lemma_status_message_names_code_and_body(status, body);
}

impl IngrainClient {
    /// A client whose retried operations are tried once, without retry.
    pub fn new(model_server_url: &str, inference_server_url: &str) -> (r: Self)
        ensures
            r.model_server_url@ == model_server_url@,
            r.inference_server_url@ == inference_server_url@,
            r.retries == 0,
            r.retry_delay_ms == 0,
    {
        IngrainClient {
            model_server_url: String::from_str(model_server_url),
            inference_server_url: String::from_str(inference_server_url),
            retries: 0,
            retry_delay_ms: 0,
        }
    }

    pub fn new_with_retries(
        model_server_url: &str,
        inference_server_url: &str,
        retries: u16,
        retry_delay_ms: u64,
    ) -> (r: Self)
        ensures
            r.model_server_url@ == model_server_url@,
            r.inference_server_url@ == inference_server_url@,
            r.retries == retries,
            r.retry_delay_ms == retry_delay_ms,
    {
        IngrainClient {
            model_server_url: String::from_str(model_server_url),
            inference_server_url: String::from_str(inference_server_url),
            retries,
            retry_delay_ms,
        }
    }

    /// The policy under which the retried operations run.
    pub fn policy(&self) -> (r: RetryPolicy)
        ensures
            r.max_retries == self.retries,
            r.retry_delay_ms == self.retry_delay_ms,
    {
        RetryPolicy { max_retries: self.retries, retry_delay_ms: self.retry_delay_ms }
    }

    /// The health check of the model server, sent once.
    pub fn model_server_health(&self) -> (r: RequestDescriptor)
        ensures
            is_plain(r, HttpMethod::Get, self.model_server_url@ + "/health"@, false),
    {
        self.plain(HttpMethod::Get, &self.model_server_url, "/health", false)
    }

    /// The health check of the inference server, sent once.
    pub fn inference_server_health(&self) -> (r: RequestDescriptor)
        ensures
            is_plain(r, HttpMethod::Get, self.inference_server_url@ + "/health"@, false),
    {
        self.plain(HttpMethod::Get, &self.inference_server_url, "/health", false)
    }

    /// The list of the loaded models, sent once.
    pub fn loaded_models(&self) -> (r: RequestDescriptor)
        ensures
            is_plain(r, HttpMethod::Get, self.model_server_url@ + "/loaded_models"@, false),
    {
        self.plain(HttpMethod::Get, &self.model_server_url, "/loaded_models", false)
    }

    /// The list of the models of the repository, sent once.
    pub fn repository_models(&self) -> (r: RequestDescriptor)
        ensures
            is_plain(r, HttpMethod::Get, self.model_server_url@ + "/repository_models"@, false),
    {
        self.plain(HttpMethod::Get, &self.model_server_url, "/repository_models", false)
    }

    /// The metrics of the inference server, sent once.
    pub fn metrics(&self) -> (r: RequestDescriptor)
        ensures
            is_plain(r, HttpMethod::Get, self.inference_server_url@ + "/metrics"@, false),
    {
        self.plain(HttpMethod::Get, &self.inference_server_url, "/metrics", false)
    }

    fn plain(&self, method: HttpMethod, base: &String, path: &str, retried: bool) -> (r:
        RequestDescriptor)
        ensures
            is_plain(r, method, base@ + path@, retried),
    {
        RequestDescriptor {
            method,
            url: join_url(base, path),
            body: None,
            query: Vec::new(),
            retried,
        }
    }

    fn post(base: &String, path: &str, body: Json, retried: bool) -> (r: RequestDescriptor)
        ensures
            is_post(r, base@ + path@, retried),
            r.body == Some(body),
    {
        RequestDescriptor {
            method: HttpMethod::Post,
            url: join_url(base, path),
            body: Some(body),
            query: Vec::new(),
            retried,
        }
    }

    fn name_query(base: &String, path: &str, name: String) -> (r: RequestDescriptor)
        ensures
            is_name_query(r, base@ + path@, name),
    {
        let q = ModelMetadataRequest { name };
        let mut query: Vec<(String, String)> = Vec::new();
        query.push((String::from_str("name"), q.name));
        RequestDescriptor {
            method: HttpMethod::Get,
            url: join_url(base, path),
            body: None,
            query,
            retried: true,
        }
    }

    /// Loads a model on the model server; sent once, as loading is not safe to repeat.
    pub fn load_model(&self, name: String, library: ModelLibrary) -> (r: RequestDescriptor)
        ensures
            is_post(r, self.model_server_url@ + "/load_model"@, false),
            (LoadModelRequest { name, library }).is_wire_form(r.body->0),
    {
        let payload = LoadModelRequest { name, library };
        let body = payload.to_json();
        Self::post(&self.model_server_url, "/load_model", body, false)
    }

    /// Unloads a model from the model server; sent once.
    pub fn unload_model(&self, name: String) -> (r: RequestDescriptor)
        ensures
            is_post(r, self.model_server_url@ + "/unload_model"@, false),
            (UnloadModelRequest { name }).is_wire_form(r.body->0),
    {
        let payload = UnloadModelRequest { name };
        let body = payload.to_json();
        Self::post(&self.model_server_url, "/unload_model", body, false)
    }

    /// Deletes a model from the model server; sent once.
    pub fn delete_model(&self, name: String) -> (r: RequestDescriptor)
        ensures
            is_post(r, self.model_server_url@ + "/delete_model"@, false),
            (UnloadModelRequest { name }).is_wire_form(r.body->0),
    {
        let payload = UnloadModelRequest { name };
        let body = payload.to_json();
        Self::post(&self.model_server_url, "/delete_model", body, false)
    }

    /// Embeds texts; retried.
    pub fn embed_text(
        &self,
        name: String,
        text: Vec<String>,
        normalize: Option<bool>,
        n_dims: Option<u16>,
    ) -> (r: RequestDescriptor)
        ensures
            is_post(r, self.inference_server_url@ + "/embed_text"@, true),
            exists|p: TextEmbeddingRequest|
                p.is_wire_form(r.body->0) && #[trigger] p@ == (name, text@, normalize, n_dims),
    {
        let payload = TextEmbeddingRequest { name, text, normalize, n_dims };
        let body = payload.to_json();
        assert(payload.is_wire_form(body) && payload@ == (name, text@, normalize, n_dims));
        Self::post(&self.inference_server_url, "/embed_text", body, true)
    }

    /// Embeds images; retried.
    pub fn embed_image(
        &self,
        name: String,
        image: Vec<String>,
        normalize: Option<bool>,
        n_dims: Option<u16>,
        image_download_headers: Option<Vec<(String, String)>>,
    ) -> (r: RequestDescriptor)
        ensures
            is_post(r, self.inference_server_url@ + "/embed_image"@, true),
            exists|p: ImageEmbeddingRequest|
                p.is_wire_form(r.body->0) && #[trigger] p@ == (
                    name,
                    image@,
                    normalize,
                    n_dims,
                    opt_seq(image_download_headers),
                ),
    {
        let payload = ImageEmbeddingRequest { name, image, normalize, n_dims, image_download_headers };
        let body = payload.to_json();
        assert(payload.is_wire_form(body) && payload@ == (
            name,
            image@,
            normalize,
            n_dims,
            opt_seq(image_download_headers),
        ));
        Self::post(&self.inference_server_url, "/embed_image", body, true)
    }

    /// Embeds texts and images in one call; retried. With neither texts nor
    /// images there is nothing to send: the result is then empty, and no request
    /// is made.
    pub fn embed(
        &self,
        name: String,
        text: Option<Vec<String>>,
        image: Option<Vec<String>>,
        normalize: Option<bool>,
        n_dims: Option<u16>,
        image_download_headers: Option<Vec<(String, String)>>,
    ) -> (r: Option<RequestDescriptor>)
        ensures
            r is None <==> (text is None && image is None),
            r is Some ==> is_post(r->0, self.inference_server_url@ + "/embed"@, true),
            r is Some ==> exists|p: EmbeddingRequest|
                p.is_wire_form(r->0.body->0) && #[trigger] p@ == (
                    name,
                    opt_seq(text),
                    opt_seq(image),
                    normalize,
                    n_dims,
                    opt_seq(image_download_headers),
                ),
    {
        if text.is_none() && image.is_none() {
            return None;
        }
        let payload = EmbeddingRequest { name, text, image, normalize, n_dims, image_download_headers };
        let body = payload.to_json();
        assert(payload.is_wire_form(body) && payload@ == (
            name,
            opt_seq(text),
            opt_seq(image),
            normalize,
            n_dims,
            opt_seq(image_download_headers),
        ));
        Some(Self::post(&self.inference_server_url, "/embed", body, true))
    }

    /// Classifies images; retried.
    pub fn classify_image(
        &self,
        name: String,
        image: Vec<String>,
        image_download_headers: Option<Vec<(String, String)>>,
    ) -> (r: RequestDescriptor)
        ensures
            is_post(r, self.inference_server_url@ + "/classify_image"@, true),
            exists|p: ImageClassificationRequest|
                p.is_wire_form(r.body->0) && #[trigger] p@ == (
                    name,
                    image@,
                    opt_seq(image_download_headers),
                ),
    {
        let payload = ImageClassificationRequest { name, image, image_download_headers };
        let body = payload.to_json();
        assert(payload.is_wire_form(body) && payload@ == (
            name,
            image@,
            opt_seq(image_download_headers),
        ));
        Self::post(&self.inference_server_url, "/classify_image", body, true)
    }

    /// The class labels of a model, asked by query; retried.
    pub fn model_classification_labels(&self, name: String) -> (r: RequestDescriptor)
        ensures
            is_name_query(r, self.model_server_url@ + "/model_classification_labels"@, name),
    {
        Self::name_query(&self.model_server_url, "/model_classification_labels", name)
    }

    /// The embedding size of a model, asked by query; retried.
    pub fn model_embedding_size(&self, name: String) -> (r: RequestDescriptor)
        ensures
            is_name_query(r, self.model_server_url@ + "/model_embedding_size"@, name),
    {
        Self::name_query(&self.model_server_url, "/model_embedding_size", name)
    }
}

} // verus!
