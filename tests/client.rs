use ingrain::{
    direct_result, AttemptOutcome, ExecutionError, GenericMessageResponse, HttpMethod,
    IngrainClient, Json, LoadModelRequest, ModelLibrary, RetryExecutor, Step, TextEmbeddingRequest,
    UnloadModelRequest, WireRecord,
};

fn parse(text: &str) -> Result<Json, String> {
    serde_json::from_str::<serde_json::Value>(text).map(|v| convert(&v)).map_err(|e| e.to_string())
}

fn convert(v: &serde_json::Value) -> Json {
    match v {
        serde_json::Value::Null => Json::Null,
        serde_json::Value::Bool(b) => Json::Bool(*b),
        serde_json::Value::Number(n) => match n.as_u64() {
            Some(u) => Json::Number(u),
            None => Json::OtherNumber(n.to_string()),
        },
        serde_json::Value::String(s) => Json::Text(s.clone()),
        serde_json::Value::Array(a) => Json::Array(a.iter().map(convert).collect()),
        serde_json::Value::Object(m) => {
            Json::Object(m.iter().map(|(k, v)| (k.clone(), convert(v))).collect())
        }
    }
}

fn decode_message(body: &str) -> Result<GenericMessageResponse, String> {
    let j = parse(body)?;
    GenericMessageResponse::from_json(&j).ok_or_else(|| "missing member: message".to_string())
}

/// Answers a request sent once with the given status and body.
fn answer_once(status: u16, body: &str) -> Result<GenericMessageResponse, ExecutionError> {
    direct_result(status, body.to_string(), decode_message(body))
}

#[test]
fn test_model_server_health_success() {
    let server = "http://127.0.0.1:40001";
    let client = IngrainClient::new(server, "http://localhost:8686");
    let d = client.model_server_health();
    assert_eq!(d.method, HttpMethod::Get);
    assert_eq!(d.url, "http://127.0.0.1:40001/health");
    assert!(!d.retried);
    let response = answer_once(200, r#"{"message": "Model server healthy"}"#).unwrap();
    assert_eq!(response.message, "Model server healthy");
}

#[test]
fn test_model_server_health_failure() {
    let client = IngrainClient::new("http://127.0.0.1:40002", "http://localhost:8686");
    assert_eq!(client.model_server_health().url, "http://127.0.0.1:40002/health");
    let result = answer_once(500, r#"{"message": "Internal Server Error"}"#);
    assert!(result.is_err());
}

#[test]
fn test_embed_image_fails_after_retries() {
    let server = "http://127.0.0.1:40003";
    let client = IngrainClient::new_with_retries("http://localhost:8687", server, 2, 10);
    let d = client.embed_image("test-model".to_string(), vec!["image_url".to_string()], None, None, None);
    assert_eq!(d.url, "http://127.0.0.1:40003/embed_image");
    assert_eq!(d.method, HttpMethod::Post);
    assert!(d.retried);
    let mut exec = RetryExecutor::new(client.policy());
    let mut attempts = 0;
    let result = loop {
        attempts += 1;
        let outcome: AttemptOutcome<()> = ingrain::classify_response(500, "Internal Error".to_string(), Err("not decoded".to_string()));
        match exec.record(outcome) {
            Step::Retry { delay_ms } => assert_eq!(delay_ms, 10),
            Step::Finish(r) => break r,
        }
    };
    assert_eq!(attempts, 3);
    assert!(result.is_err());
}

#[test]
fn test_embed_success_no_retry() {
    let client = IngrainClient::new_with_retries("http://localhost:8687", "http://127.0.0.1:40004", 2, 10);
    let d = client
        .embed("test-model".to_string(), Some(vec!["hi".to_string()]), None, None, None, None)
        .unwrap();
    assert_eq!(d.url, "http://127.0.0.1:40004/embed");
    let mut exec = RetryExecutor::new(client.policy());
    let success_body = r#"{
            "textEmbeddings": [[0.1, 0.2]],
            "imageEmbeddings": null,
            "processingTimeMs": 7.2
        }"#;
    let decoded = parse(success_body).map(|j| match j {
        Json::Object(m) => m.iter().any(|(k, v)| k == "textEmbeddings" && !matches!(v, Json::Null)),
        _ => false,
    });
    let outcome = ingrain::classify_response(200, success_body.to_string(), decoded);
    match exec.record(outcome) {
        Step::Finish(Ok(has_text)) => assert!(has_text),
        _ => panic!("expected success on the first attempt"),
    }
    assert_eq!(exec.attempts, 1);
}

#[test]
fn embed_without_inputs_makes_no_request() {
    let client = IngrainClient::new("http://m", "http://i");
    assert!(client.embed("m".to_string(), None, None, Some(true), Some(8), None).is_none());
    assert!(client.embed("m".to_string(), None, Some(vec![]), None, None, None).is_some());
}

#[test]
fn health_ok_message() {
    let r = answer_once(200, r#"{"message": "ok"}"#).unwrap();
    assert_eq!(r.message, "ok");
    assert!(matches!(answer_once(500, r#"{"message": "ok"}"#), Err(ExecutionError::HttpStatus { status: 500, .. })));
    assert!(matches!(answer_once(500, "<html>"), Err(ExecutionError::HttpStatus { status: 500, .. })));
    assert!(matches!(answer_once(200, "<html>"), Err(ExecutionError::Decode { .. })));
}

#[test]
fn load_model_error_keeps_status_and_body() {
    let client = IngrainClient::new("http://models:8686", "http://inference:8687");
    let d = client.load_model("intfloat/e5-small-v2".to_string(), ModelLibrary::SentenceTransformers);
    assert_eq!(d.url, "http://models:8686/load_model");
    assert!(!d.retried);
    let body = LoadModelRequest::from_json(d.body.as_ref().unwrap()).unwrap();
    assert_eq!(body.library, ModelLibrary::SentenceTransformers);
    let err = answer_once(422, "model library not supported").unwrap_err();
    let m = err.message();
    assert!(m.contains("422"));
    assert!(m.contains("model library not supported"));
}

#[test]
fn lifecycle_requests() {
    let client = IngrainClient::new("http://models", "http://inference");
    let u = client.unload_model("a".to_string());
    assert_eq!(u.url, "http://models/unload_model");
    assert_eq!(UnloadModelRequest::from_json(u.body.as_ref().unwrap()).unwrap().name, "a");
    let del = client.delete_model("b".to_string());
    assert_eq!(del.url, "http://models/delete_model");
    assert_eq!(UnloadModelRequest::from_json(del.body.as_ref().unwrap()).unwrap().name, "b");
    assert_eq!(client.loaded_models().url, "http://models/loaded_models");
    assert_eq!(client.repository_models().url, "http://models/repository_models");
    assert_eq!(client.metrics().url, "http://inference/metrics");
    assert_eq!(client.inference_server_health().url, "http://inference/health");
    assert!(!client.metrics().retried);
}

#[test]
fn inference_requests_are_retried() {
    let client = IngrainClient::new_with_retries("http://models", "http://inference", 3, 50);
    let p = client.policy();
    assert_eq!(p.max_retries, 3);
    assert_eq!(p.retry_delay_ms, 50);
    let t = client.embed_text("m".to_string(), vec!["This is a sentence.".to_string()], Some(true), Some(384));
    assert_eq!(t.url, "http://inference/embed_text");
    assert!(t.retried);
    let body = TextEmbeddingRequest::from_json(t.body.as_ref().unwrap()).unwrap();
    assert_eq!(body.n_dims, Some(384));
    let c = client.classify_image("timm".to_string(), vec!["x".to_string()], None);
    assert_eq!(c.url, "http://inference/classify_image");
    let labels = client.model_classification_labels("timm".to_string());
    assert_eq!(labels.method, HttpMethod::Get);
    assert_eq!(labels.url, "http://models/model_classification_labels");
    assert_eq!(labels.query, vec![("name".to_string(), "timm".to_string())]);
    assert!(labels.body.is_none());
    assert!(labels.retried);
    let size = client.model_embedding_size("e5".to_string());
    assert_eq!(size.url, "http://models/model_embedding_size");
}
