use scriptscore_state::errors::HostError;
use scriptscore_state::json::{get, JsonMember, JsonValue};
use scriptscore_state::runtime::{CompletedWorkerJob, WorkerJobResult};
use scriptscore_state::provider_probes::{
    smoke_ping_request_payload, smoke_ping_result,
    llm_model_validation_request_payload, llm_models_from_envelope, llm_models_request_payload,
    llm_validation_from_envelope, missing_runtime_data_error,
};

fn object(members: Vec<(&str, JsonValue)>) -> JsonValue {
    JsonValue::Object(members.into_iter().map(|(k, v)| JsonMember { key: k.to_string(), value: v }).collect())
}

fn text(s: &str) -> JsonValue {
    JsonValue::Text(s.to_string())
}

fn protocol_message(e: HostError) -> String {
    match e {
        HostError::Protocol(m) => m,
        other => panic!("expected a protocol error, got {other:?}"),
    }
}

#[test]
fn model_listing_request_names_provider_config_and_vision() {
    let p = llm_models_request_payload("ollama", "http://localhost:11434", &None);
    assert_eq!(get(&p, "providers"), Some(&object(vec![("llm_provider", text("ollama"))])));
    assert_eq!(
        get(&p, "llm_discovery_config"),
        Some(&object(vec![("base_url", text("http://localhost:11434")), ("api_key", JsonValue::Null)]))
    );
    assert_eq!(get(&p, "required_capabilities"), Some(&JsonValue::Array(vec![text("vision")])));
    assert!(get(&p, "model").is_none());
}

#[test]
fn model_validation_request_adds_the_model() {
    let p = llm_model_validation_request_payload("openai", "https://api.example.com", "gpt-vision", &Some("test-key".to_string()));
    assert_eq!(get(&p, "model"), Some(&text("gpt-vision")));
    match get(&p, "llm_discovery_config") {
        Some(config) => assert_eq!(get(config, "api_key"), Some(&text("test-key"))),
        None => panic!("missing config"),
    }
}

#[test]
fn missing_reply_data_prefers_the_worker_error_message() {
    let with_error = object(vec![("error", object(vec![("message", text("  provider unreachable  "))]))]);
    assert_eq!(
        protocol_message(missing_runtime_data_error(&with_error, "runtime.list-llm-models", "data.models")),
        "runtime.list-llm-models failed: provider unreachable"
    );
    let blank_error = object(vec![("error", object(vec![("message", text("   "))]))]);
    assert_eq!(
        protocol_message(missing_runtime_data_error(&blank_error, "runtime.list-llm-models", "data.models")),
        "runtime.list-llm-models response was missing data.models."
    );
    let text_error = object(vec![("error", text("boom"))]);
    assert_eq!(
        protocol_message(missing_runtime_data_error(&text_error, "runtime.validate-llm-model", "envelope data")),
        "runtime.validate-llm-model response was missing envelope data."
    );
}

#[test]
fn model_listing_reads_data_models() {
    let reply = object(vec![("data", object(vec![("models", JsonValue::Array(vec![object(vec![("name", text("llava"))])]))]))]);
    let models = llm_models_from_envelope(reply).expect("models listed");
    assert_eq!(models, vec![object(vec![("name", text("llava"))])]);
    let reply = object(vec![("data", object(vec![("models", text("none"))]))]);
    assert_eq!(
        protocol_message(llm_models_from_envelope(reply).expect_err("not an array")),
        "runtime.list-llm-models response was missing data.models."
    );
}

#[test]
fn model_validation_reads_data() {
    let reply = object(vec![("data", object(vec![("ok", JsonValue::Bool(true))]))]);
    assert_eq!(llm_validation_from_envelope(reply).expect("data"), object(vec![("ok", JsonValue::Bool(true))]));
    let reply = object(vec![("error", object(vec![("message", text("model not found"))]))]);
    assert_eq!(
        protocol_message(llm_validation_from_envelope(reply).expect_err("no data")),
        "runtime.validate-llm-model failed: model not found"
    );
}

fn ping_reply(envelope: JsonValue, events: usize) -> CompletedWorkerJob {
    CompletedWorkerJob {
        job_id: "job-1".into(),
        result: WorkerJobResult {
            terminal_type: "job_finished".into(),
            terminal_payload: JsonValue::Null,
            envelope,
            events: (0..events).map(|_| JsonValue::Null).collect(),
        },
    }
}

#[test]
fn smoke_ping_request_and_reply() {
    let request = smoke_ping_request_payload();
    assert_eq!(get(&request, "message"), Some(&text("desktop runtime ready")));
    assert_eq!(get(&request, "steps"), Some(&JsonValue::Number("1".into())));

    let reply = ping_reply(
        object(vec![("command", text("smoke.ping")), ("data", object(vec![("message", text("pong")), ("steps", JsonValue::Number("3".into()))]))]),
        2,
    );
    let result = smoke_ping_result(&reply).expect("reply with data");
    assert_eq!(result.command, "smoke.ping");
    assert_eq!(result.message, "pong");
    assert_eq!(result.steps, 3);
    assert_eq!(result.event_count, 2);

    let defaults = smoke_ping_result(&ping_reply(object(vec![("data", object(Vec::new()))]), 0)).expect("empty data");
    assert_eq!(defaults.command, "smoke.ping");
    assert_eq!(defaults.message, "desktop runtime ready");
    assert_eq!(defaults.steps, 1);

    let missing = smoke_ping_result(&ping_reply(object(vec![("data", text("x"))]), 0)).expect_err("data not an object");
    assert_eq!(protocol_message(missing), "smoke.ping response was missing envelope data.");
}
