//! Probes of the worker runtime: the smoke ping, and the requests that list
//! an LLM provider's vision-capable models or validate one model, with what
//! the worker's replies must hold.
use vstd::prelude::*;
use crate::errors::HostError;
use crate::json::{get, get_text, is_optional_text, is_text, json_get, json_get_text, member, members_of, items_of, JsonMember, JsonValue};
use crate::messages::concat3;
use crate::json::{as_i64, number_as_i64};
use crate::runtime::{swap_member_value, CompletedWorkerJob};
use crate::text::{blank, is_blank, opt_text, owned, push_text, trim, trimmed};

verus! {

/// `v` is the object `{key: text}`.
pub open spec fn is_single_text_object(v: JsonValue, key: Seq<char>, text: Seq<char>) -> bool {
    &&& v is Object
    &&& members_of(v).len() == 1
    &&& members_of(v)[0].key@ == key
    &&& is_text(members_of(v)[0].value, text)
}

/// `p` starts as a provider probe does: the provider, then the discovery
/// configuration (its base URL and API key, `null` without one).
pub open spec fn starts_as_probe(p: JsonValue, provider_name: Seq<char>, base_url: Seq<char>, api_key: Option<Seq<char>>) -> bool {
    &&& p is Object
    &&& members_of(p).len() >= 2
    &&& members_of(p)[0].key@ == "providers"@
    &&& is_single_text_object(members_of(p)[0].value, "llm_provider"@, provider_name)
    &&& members_of(p)[1].key@ == "llm_discovery_config"@
    &&& members_of(p)[1].value is Object
    &&& members_of(members_of(p)[1].value).len() == 2
    &&& members_of(members_of(p)[1].value)[0].key@ == "base_url"@
    &&& is_text(members_of(members_of(p)[1].value)[0].value, base_url)
    &&& members_of(members_of(p)[1].value)[1].key@ == "api_key"@
    &&& is_optional_text(members_of(members_of(p)[1].value)[1].value, api_key)
}

/// `v` is the JSON array `["vision"]`.
pub open spec fn is_vision_requirement(v: JsonValue) -> bool {
    &&& v is Array
    &&& items_of(v).len() == 1
    &&& is_text(items_of(v)[0], "vision"@)
}

fn probe_members(provider_name: &str, base_url: &str, api_key: &Option<String>) -> (m: Vec<JsonMember>)
    ensures
        m@.len() == 2,
        starts_as_probe(JsonValue::Object(m), provider_name@, base_url@, opt_text(*api_key)),
{
    let mut providers: Vec<JsonMember> = Vec::new();
    providers.push(member("llm_provider", JsonValue::Text(owned(provider_name))));
    let key = match api_key {
        Some(k) => JsonValue::Text(k.clone()),
        None => JsonValue::Null,
    };
    let mut config: Vec<JsonMember> = Vec::new();
    config.push(member("base_url", JsonValue::Text(owned(base_url))));
    config.push(member("api_key", key));
    let mut m: Vec<JsonMember> = Vec::new();
    m.push(member("providers", JsonValue::Object(providers)));
    m.push(member("llm_discovery_config", JsonValue::Object(config)));
    m
}

fn vision_requirement() -> (v: JsonValue)
    ensures
        is_vision_requirement(v),
{
    let mut items: Vec<JsonValue> = Vec::new();
    items.push(JsonValue::Text(owned("vision")));
    JsonValue::Array(items)
}

/// The request that asks the worker for the vision-capable models of a
/// provider.
pub fn llm_models_request_payload(provider_name: &str, base_url: &str, api_key: &Option<String>) -> (p: JsonValue)
    ensures
        starts_as_probe(p, provider_name@, base_url@, opt_text(*api_key)),
        members_of(p).len() == 3,
        members_of(p)[2].key@ == "required_capabilities"@ && is_vision_requirement(members_of(p)[2].value),
{
    let mut m = probe_members(provider_name, base_url, api_key);
    m.push(member("required_capabilities", vision_requirement()));
    JsonValue::Object(m)
}

/// The request that asks the worker whether `model` of a provider is usable
/// and sees images.
pub fn llm_model_validation_request_payload(
    provider_name: &str,
    base_url: &str,
    model: &str,
    api_key: &Option<String>,
) -> (p: JsonValue)
    ensures
        starts_as_probe(p, provider_name@, base_url@, opt_text(*api_key)),
        members_of(p).len() == 4,
        members_of(p)[2].key@ == "model"@ && is_text(members_of(p)[2].value, model@),
        members_of(p)[3].key@ == "required_capabilities"@ && is_vision_requirement(members_of(p)[3].value),
{
    let mut m = probe_members(provider_name, base_url, api_key);
    m.push(member("model", JsonValue::Text(owned(model))));
    m.push(member("required_capabilities", vision_requirement()));
    JsonValue::Object(m)
}

/// The worker's own error message in a reply, `error.message` trimmed, when
/// it says anything.
pub open spec fn reply_error_message(envelope: JsonValue) -> Option<Seq<char>> {
    match json_get(envelope, "error"@) {
        Some(e) => if e is Object {
            match json_get_text(e, "message"@) {
                Some(m) => if is_blank(m) {
                    None
                } else {
                    Some(trim(m))
                },
                None => None,
            }
        } else {
            None
        },
        None => None,
    }
}

/// The message of the error a reply that lacks `field_name` is refused with.
pub open spec fn missing_runtime_data_message(envelope: JsonValue, command_name: Seq<char>, field_name: Seq<char>) -> Seq<char> {
    match reply_error_message(envelope) {
        Some(m) => command_name + " failed: "@ + m,
        None => command_name + " response was missing "@ + field_name + "."@,
    }
}

/// The protocol error for a reply of `command_name` that lacks
/// `field_name`: the worker's own error message when it gave one, else a
/// note of what was missing.
pub fn missing_runtime_data_error(envelope: &JsonValue, command_name: &str, field_name: &str) -> (e: HostError)
    ensures
        e is Protocol,
        e.msg() == missing_runtime_data_message(*envelope, command_name@, field_name@),
{
    let message = match get(envelope, "error") {
        Some(error) => match error {
            JsonValue::Object(_) => match get_text(error, "message") {
                Some(m) => if blank(m.as_str()) {
                    None
                } else {
                    Some(trimmed(m.as_str()))
                },
                None => None,
            },
            _ => None,
        },
        None => None,
    };
    match message {
        Some(m) => HostError::Protocol(concat3(command_name, " failed: ", m.as_str())),
        None => {
            let mut m = concat3(command_name, " response was missing ", field_name);
            push_text(&mut m, ".");
            HostError::Protocol(m)
        },
    }
}

/// The models a reply lists under `data.models`, when that is an array.
pub open spec fn reply_models(envelope: JsonValue) -> Option<Seq<JsonValue>> {
    match json_get(envelope, "data"@) {
        Some(data) => match json_get(data, "models"@) {
            Some(JsonValue::Array(items)) => Some(items@),
            _ => None,
        },
        None => None,
    }
}

/// The models the worker listed in its reply to a model listing, each still
/// to be read as a model description; a reply without `data.models` is
/// refused.
pub fn llm_models_from_envelope(envelope: JsonValue) -> (r: Result<Vec<JsonValue>, HostError>)
    ensures
        match reply_models(envelope) {
            Some(models) => r matches Ok(v) && v@ == models,
            None => r matches Err(e) && e is Protocol && e.msg() == missing_runtime_data_message(
                envelope,
                "runtime.list-llm-models"@,
                "data.models"@,
            ),
        },
{
    let listed = match get(&envelope, "data") {
        Some(data) => match get(data, "models") {
            Some(JsonValue::Array(_)) => true,
            _ => false,
        },
        None => false,
    };
    if !listed {
        return Err(missing_runtime_data_error(&envelope, "runtime.list-llm-models", "data.models"));
    }
    let ghost original = envelope;
    match envelope {
        JsonValue::Object(members) => {
            let mut members = members;
            match swap_member_value(&mut members, "data", JsonValue::Null) {
                Some(JsonValue::Object(data_members)) => {
                    let mut data_members = data_members;
                    match swap_member_value(&mut data_members, "models", JsonValue::Null) {
                        Some(JsonValue::Array(items)) => Ok(items),
                        _ => Err(missing_runtime_data_error(&JsonValue::Null, "runtime.list-llm-models", "data.models")),
                    }
                },
                _ => Err(missing_runtime_data_error(&JsonValue::Null, "runtime.list-llm-models", "data.models")),
            }
        },
        _ => Err(missing_runtime_data_error(&JsonValue::Null, "runtime.list-llm-models", "data.models")),
    }
}

/// The validation the worker sent in its reply to a model validation (its
/// `data`, still to be read as a validation); a reply without `data` is
/// refused.
pub fn llm_validation_from_envelope(envelope: JsonValue) -> (r: Result<JsonValue, HostError>)
    ensures
        match json_get(envelope, "data"@) {
            Some(data) => r == Ok::<JsonValue, HostError>(data),
            None => r matches Err(e) && e is Protocol && e.msg() == missing_runtime_data_message(
                envelope,
                "runtime.validate-llm-model"@,
                "envelope data"@,
            ),
        },
{
    if get(&envelope, "data").is_none() {
        return Err(missing_runtime_data_error(&envelope, "runtime.validate-llm-model", "envelope data"));
    }
    match envelope {
        JsonValue::Object(members) => {
            let mut members = members;
            match swap_member_value(&mut members, "data", JsonValue::Null) {
                Some(data) => Ok(data),
                None => Err(missing_runtime_data_error(&JsonValue::Null, "runtime.validate-llm-model", "envelope data")),
            }
        },
        _ => Err(missing_runtime_data_error(&JsonValue::Null, "runtime.validate-llm-model", "envelope data")),
    }
}


/// What a smoke ping of the worker reported.
#[derive(Debug, PartialEq)]
pub struct SmokePingResult {
    pub command: String,
    pub message: String,
    pub steps: i64,
    pub event_count: usize,
}

/// The request of a smoke ping: `{message: "desktop runtime ready", steps: 1}`.
pub fn smoke_ping_request_payload() -> (p: JsonValue)
    ensures
        p is Object,
        members_of(p).len() == 2,
        members_of(p)[0].key@ == "message"@ && is_text(members_of(p)[0].value, "desktop runtime ready"@),
        members_of(p)[1].key@ == "steps"@ && number_as_i64(members_of(p)[1].value) == Some(1i64),
{
    let mut m: Vec<JsonMember> = Vec::new();
    m.push(member("message", JsonValue::Text(owned("desktop runtime ready"))));
    let one = JsonValue::Number(owned("1"));
    proof {
        reveal_strlit("1");
        assert("1"@.len() == 1);
        assert(crate::json::digits_value("1"@) == 1) by {
            assert("1"@[0] == '1');
            assert(crate::json::digits_value("1"@.drop_last()) == 0);
        }
    }
    m.push(member("steps", one));
    JsonValue::Object(m)
}

/// `p` is what the smoke ping reply of `completed` reports: the command it
/// ran (`smoke.ping` by default), the message and step count of its `data`
/// (`desktop runtime ready` and 1 by default), and how many events it sent.
pub open spec fn reads_smoke_ping(p: SmokePingResult, completed: CompletedWorkerJob) -> bool {
    let envelope = completed.result.envelope;
    let data = json_get(envelope, "data"@)->0;
    &&& p.command@ == match json_get_text(envelope, "command"@) {
        Some(c) => c,
        None => "smoke.ping"@,
    }
    &&& p.message@ == match json_get_text(data, "message"@) {
        Some(m) => m,
        None => "desktop runtime ready"@,
    }
    &&& p.steps == match json_get(data, "steps"@) {
        Some(v) => match number_as_i64(v) {
            Some(n) => n,
            None => 1,
        },
        None => 1,
    }
    &&& p.event_count == completed.result.events@.len()
}

/// What the worker answered to a smoke ping (see `reads_smoke_ping`); a
/// reply whose `data` is not an object is refused.
pub fn smoke_ping_result(completed: &CompletedWorkerJob) -> (r: Result<SmokePingResult, HostError>)
    ensures
        r is Ok <==> (json_get(completed.result.envelope, "data"@) matches Some(d) && d is Object),
        r matches Err(e) ==> e is Protocol && e.msg() == "smoke.ping response was missing envelope data."@,
        r matches Ok(p) ==> reads_smoke_ping(p, *completed),
{
    let envelope = &completed.result.envelope;
    let data = match get(envelope, "data") {
        Some(d) => match d {
            JsonValue::Object(_) => d,
            _ => {
                return Err(HostError::Protocol(owned("smoke.ping response was missing envelope data.")));
            },
        },
        None => {
            return Err(HostError::Protocol(owned("smoke.ping response was missing envelope data.")));
        },
    };
    let command = match get_text(envelope, "command") {
        Some(c) => c.clone(),
        None => owned("smoke.ping"),
    };
    let message = match get_text(data, "message") {
        Some(m) => m.clone(),
        None => owned("desktop runtime ready"),
    };
    let steps = match get(data, "steps") {
        Some(v) => match as_i64(v) {
            Some(n) => n,
            None => 1,
        },
        None => 1,
    };
    Ok(SmokePingResult { command, message, steps, event_count: completed.result.events.len() })
}

} // verus!
