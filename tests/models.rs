use ingrain::json::decode_record;
use ingrain::{
    EmbeddingRequest, GenericMessageResponse, ImageClassificationRequest, ImageEmbeddingRequest,
    InferenceStats, Json, LoadModelRequest, LoadedModelResponse, MetricsResponse,
    ModelClassificationLabelsResponse, ModelEmbeddingDimsResponse, ModelLibrary,
    ModelMetadataRequest, RepositoryModelResponse, TextEmbeddingRequest, UnloadModelRequest,
    WireRecord,
};

fn parse(text: &str) -> Json {
    convert(&serde_json::from_str::<serde_json::Value>(text).unwrap())
}

fn convert(v: &serde_json::Value) -> Json {
    match v {
        serde_json::Value::Null => Json::Null,
        serde_json::Value::Bool(b) => Json::Bool(*b),
        serde_json::Value::Number(n) => match n.as_u64() {
            Some(u) => Json::Number(u),
            None => Json::OtherNumber(n.to_string()),
        },
        serde_json::Value::String(s) => Json::Text(s.clone()),
        serde_json::Value::Array(a) => Json::Array(a.iter().map(convert).collect()),
        serde_json::Value::Object(m) => {
            Json::Object(m.iter().map(|(k, v)| (k.clone(), convert(v))).collect())
        }
    }
}

fn keys(j: &Json) -> Vec<String> {
    match j {
        Json::Object(m) => m.iter().map(|(k, _)| k.clone()).collect(),
        _ => panic!("not an object"),
    }
}

fn strings(v: &[&str]) -> Vec<String> {
    v.iter().map(|s| s.to_string()).collect()
}

#[test]
fn text_embedding_request_uses_camel_case_and_round_trips() {
    let r = TextEmbeddingRequest {
        name: "intfloat/e5-small-v2".to_string(),
        text: strings(&["This is a sentence.", "another"]),
        normalize: Some(true),
        n_dims: Some(384),
    };
    let j = r.to_json();
    assert_eq!(keys(&j), strings(&["name", "text", "normalize", "nDims"]));
    let back = TextEmbeddingRequest::from_json(&j).unwrap();
    assert_eq!(back.name, r.name);
    assert_eq!(back.text, r.text);
    assert_eq!(back.normalize, Some(true));
    assert_eq!(back.n_dims, Some(384));
}

#[test]
fn embedding_request_round_trips_with_absent_fields() {
    let r = EmbeddingRequest {
        name: "m".to_string(),
        text: Some(strings(&["Text1", "text 2"])),
        image: None,
        normalize: None,
        n_dims: None,
        image_download_headers: Some(vec![("Authorization".to_string(), "Bearer SECRET-REDACTED".to_string())]),
    };
    let j = r.to_json();
    assert_eq!(
        keys(&j),
        strings(&["name", "text", "image", "normalize", "nDims", "imageDownloadHeaders"])
    );
    let back = EmbeddingRequest::from_json(&j).unwrap();
    assert_eq!(back.text, r.text);
    assert_eq!(back.image, None);
    assert_eq!(back.normalize, None);
    assert_eq!(back.n_dims, None);
    assert_eq!(back.image_download_headers, r.image_download_headers);
}

#[test]
fn image_requests_round_trip() {
    let r = ImageEmbeddingRequest {
        name: "ViT-B-32".to_string(),
        image: strings(&["https://example.com/a.png"]),
        normalize: Some(false),
        n_dims: None,
        image_download_headers: None,
    };
    let back = ImageEmbeddingRequest::from_json(&r.to_json()).unwrap();
    assert_eq!(back.image, r.image);
    assert_eq!(back.normalize, Some(false));
    let c = ImageClassificationRequest {
        name: "timm/resnet".to_string(),
        image: strings(&["a", "b"]),
        image_download_headers: None,
    };
    let j = c.to_json();
    assert_eq!(keys(&j), strings(&["name", "image", "imageDownloadHeaders"]));
    let back = ImageClassificationRequest::from_json(&j).unwrap();
    assert_eq!(back.image, c.image);
}

#[test]
fn library_tokens_are_snake_case() {
    assert_eq!(ModelLibrary::OpenClip.wire_token(), "open_clip");
    assert_eq!(ModelLibrary::SentenceTransformers.wire_token(), "sentence_transformers");
    assert_eq!(ModelLibrary::Timm.wire_token(), "timm");
    assert_eq!(ModelLibrary::from_wire_token(&"timm".to_string()), Some(ModelLibrary::Timm));
    assert_eq!(ModelLibrary::from_wire_token(&"Timm".to_string()), None);
    assert_eq!(ModelLibrary::from_wire_token(&"openClip".to_string()), None);
}

#[test]
fn load_model_request_round_trips() {
    let r = LoadModelRequest { name: "all-MiniLM".to_string(), library: ModelLibrary::SentenceTransformers };
    let j = r.to_json();
    match &j {
        Json::Object(m) => {
            assert_eq!(m[1].0, "library");
            assert!(matches!(&m[1].1, Json::Text(t) if t == "sentence_transformers"));
        }
        _ => panic!("not an object"),
    }
    let back = LoadModelRequest::from_json(&j).unwrap();
    assert_eq!(back.name, "all-MiniLM");
    assert_eq!(back.library, ModelLibrary::SentenceTransformers);
    let u = UnloadModelRequest::from_json(&UnloadModelRequest { name: "x".to_string() }.to_json()).unwrap();
    assert_eq!(u.name, "x");
    let q = ModelMetadataRequest::from_json(&ModelMetadataRequest { name: "y".to_string() }.to_json()).unwrap();
    assert_eq!(q.name, "y");
}

#[test]
fn unknown_members_are_ignored() {
    let j = parse(r#"{"message": "ok", "extra": [1, 2, {"a": null}]}"#);
    let r = GenericMessageResponse::from_json(&j).unwrap();
    assert_eq!(r.message, "ok");
}

#[test]
fn missing_or_mistyped_required_member_fails() {
    assert!(GenericMessageResponse::from_json(&parse(r#"{"msg": "ok"}"#)).is_none());
    assert!(GenericMessageResponse::from_json(&parse(r#"{"message": 5}"#)).is_none());
    assert!(GenericMessageResponse::from_json(&parse(r#"["message"]"#)).is_none());
    assert!(TextEmbeddingRequest::from_json(&parse(r#"{"name": "m", "text": ["a", 1]}"#)).is_none());
}

#[test]
fn optional_members_accept_null_and_absence() {
    let r = TextEmbeddingRequest::from_json(&parse(r#"{"name": "m", "text": [], "normalize": null}"#)).unwrap();
    assert_eq!(r.normalize, None);
    assert_eq!(r.n_dims, None);
    assert!(r.text.is_empty());
    let big = parse(r#"{"name": "m", "text": [], "nDims": 70000}"#);
    assert!(TextEmbeddingRequest::from_json(&big).is_none());
    let max = parse(r#"{"name": "m", "text": [], "nDims": 65535}"#);
    assert_eq!(TextEmbeddingRequest::from_json(&max).unwrap().n_dims, Some(65535));
}

#[test]
fn embedding_size_is_read_from_camel_case_member() {
    let r = ModelEmbeddingDimsResponse::from_json(&parse(r#"{"embeddingSize": 384}"#)).unwrap();
    assert_eq!(r.embedding_size, 384);
    assert!(ModelEmbeddingDimsResponse::from_json(&parse(r#"{"embedding_size": 384}"#)).is_none());
    assert!(ModelEmbeddingDimsResponse::from_json(&parse(r#"{"embeddingSize": -1}"#)).is_none());
}

#[test]
fn labels_response_reads() {
    let r = ModelClassificationLabelsResponse::from_json(&parse(r#"{"labels": ["cat", "dog"]}"#)).unwrap();
    assert_eq!(r.labels, strings(&["cat", "dog"]));
}

#[test]
fn model_lists_read() {
    let l = LoadedModelResponse::from_json(&parse(
        r#"{"models": [{"name": "a", "library": "open_clip"}, {"name": "b", "library": "timm"}]}"#,
    ))
    .unwrap();
    assert_eq!(l.models.len(), 2);
    assert_eq!(l.models[1].library, ModelLibrary::Timm);
    assert!(LoadedModelResponse::from_json(&parse(r#"{"models": [{"name": "a", "library": "onnx"}]}"#)).is_none());
    let r = RepositoryModelResponse::from_json(&parse(r#"{"models": [{"name": "a", "state": "READY"}]}"#)).unwrap();
    assert_eq!(r.models[0].state, "READY");
}

#[test]
fn metrics_read_and_round_trip() {
    let text = r#"{"modelStats": [{
        "name": "m", "version": "1",
        "inferenceStats": {"success": {"count": "3", "ns": "100"}, "fail": {}},
        "lastInference": "1700000000",
        "batchStats": [{"batchSize": "1", "computeInput": {"count": "1"}, "computeInfer": {}, "computeOutput": {"ns": "5"}}]
    }]}"#;
    let m = MetricsResponse::from_json(&parse(text)).unwrap();
    let s = &m.model_stats[0];
    let success = s.inference_stats.iter().find(|(k, _)| k == "success").unwrap();
    assert_eq!(success.1.count, Some("3".to_string()));
    let fail = s.inference_stats.iter().find(|(k, _)| k == "fail").unwrap();
    assert_eq!(fail.1.count, None);
    assert_eq!(s.last_inference, Some("1700000000".to_string()));
    assert_eq!(s.execution_count, None);
    let b = &s.batch_stats.as_ref().unwrap()[0];
    assert_eq!(b.compute_output.ns, Some("5".to_string()));
    let back = MetricsResponse::from_json(&m.to_json()).unwrap();
    let before = &m.model_stats[0].inference_stats;
    let after = &back.model_stats[0].inference_stats;
    assert_eq!(before.len(), after.len());
    for (x, y) in before.iter().zip(after.iter()) {
        assert_eq!(x.0, y.0);
        assert_eq!(x.1.count, y.1.count);
        assert_eq!(x.1.ns, y.1.ns);
    }
    let i = InferenceStats::from_json(&InferenceStats { count: None, ns: Some("9".to_string()) }.to_json()).unwrap();
    assert_eq!(i.ns, Some("9".to_string()));
}

#[test]
fn decode_record_reports_why() {
    let ok: Result<GenericMessageResponse, String> = decode_record(Ok(parse(r#"{"message": "ok"}"#)));
    assert_eq!(ok.unwrap().message, "ok");
    let missing: Result<GenericMessageResponse, String> = decode_record(Ok(parse(r#"{}"#)));
    assert_eq!(missing.unwrap_err(), "a required member is missing or has the wrong type");
    let bad: Result<GenericMessageResponse, String> = decode_record(Err("EOF while parsing".to_string()));
    assert_eq!(bad.unwrap_err(), "EOF while parsing");
}
