use audiod::json::{JsonMember, JsonNumber, JsonValue};
use audiod::snapcast::{SnapcastClient, SnapcastError};

fn obj(members: Vec<(&str, JsonValue)>) -> JsonValue {
    JsonValue::Object(
        members.into_iter().map(|(k, v)| JsonMember { key: k.to_string(), value: v }).collect(),
    )
}

fn s(t: &str) -> JsonValue {
    JsonValue::Str(t.to_string())
}

fn n(v: u64) -> JsonValue {
    JsonValue::Number(JsonNumber::PosInt(v))
}

fn client(id: &str, percent: JsonValue, muted: JsonValue) -> JsonValue {
    obj(vec![
        ("id", s(id)),
        ("config", obj(vec![("volume", obj(vec![("percent", percent), ("muted", muted)]))])),
    ])
}

fn status(groups: Vec<JsonValue>) -> JsonValue {
    obj(vec![("server", obj(vec![("groups", JsonValue::Array(groups))]))])
}

fn group(clients: Vec<JsonValue>) -> JsonValue {
    obj(vec![("clients", JsonValue::Array(clients))])
}

fn sample_status() -> JsonValue {
    status(vec![
        group(vec![
            client("kitchen", n(40), JsonValue::Bool(false)),
            client("bath", n(300), JsonValue::Bool(true)),
        ]),
        obj(vec![("name", s("no clients"))]),
        group(vec![client("garden", n(75), JsonValue::Bool(false))]),
    ])
}

#[test]
fn endpoint_url() {
    assert_eq!(SnapcastClient::new("192.168.1.5:1780").base_url, "http://192.168.1.5:1780/jsonrpc");
}

#[test]
fn status_request_shape() {
    let r = SnapcastClient::get_status();
    assert_eq!(
        r,
        obj(vec![
            ("jsonrpc", s("2.0")),
            ("id", n(1)),
            ("method", s("Server.GetStatus")),
            ("params", JsonValue::Object(vec![])),
        ])
    );
}

#[test]
fn request_keeps_params() {
    let r = SnapcastClient::request("Group.SetMute", Some(s("x")));
    assert_eq!(
        r,
        obj(vec![("jsonrpc", s("2.0")), ("id", n(1)), ("method", s("Group.SetMute")), ("params", s("x"))])
    );
}

#[test]
fn set_volume_request() {
    let r = SnapcastClient::set_client_volume("kitchen", 55, &Some(true));
    let params = obj(vec![
        ("id", s("kitchen")),
        ("volume", obj(vec![("percent", n(55)), ("muted", JsonValue::Bool(true))])),
    ]);
    assert_eq!(
        r,
        obj(vec![("jsonrpc", s("2.0")), ("id", n(1)), ("method", s("Client.SetVolume")), ("params", params)])
    );
}

#[test]
fn set_volume_request_without_mute_flag() {
    let r = SnapcastClient::set_client_volume("k", 0, &None);
    let params = obj(vec![
        ("id", s("k")),
        ("volume", obj(vec![("percent", n(0)), ("muted", JsonValue::Null)])),
    ]);
    assert_eq!(
        r,
        obj(vec![("jsonrpc", s("2.0")), ("id", n(1)), ("method", s("Client.SetVolume")), ("params", params)])
    );
}

#[test]
fn set_mute_request() {
    let r = SnapcastClient::set_client_mute("bath", Some(false));
    let params = obj(vec![("id", s("bath")), ("volume", obj(vec![("muted", JsonValue::Bool(false))]))]);
    assert_eq!(
        r,
        obj(vec![("jsonrpc", s("2.0")), ("id", n(1)), ("method", s("Client.SetVolume")), ("params", params)])
    );
}

#[test]
fn set_percent_request() {
    let r = SnapcastClient::set_client_volume_percent("bath", 100);
    let params = obj(vec![("id", s("bath")), ("volume", obj(vec![("percent", n(100))]))]);
    assert_eq!(
        r,
        obj(vec![("jsonrpc", s("2.0")), ("id", n(1)), ("method", s("Client.SetVolume")), ("params", params)])
    );
}

#[test]
fn reply_with_result() {
    let reply = obj(vec![("id", n(1)), ("jsonrpc", s("2.0")), ("result", s("ok"))]);
    assert_eq!(SnapcastClient::response_result(reply), Ok(s("ok")));
}

#[test]
fn reply_without_result_is_null() {
    let reply = obj(vec![("id", n(1))]);
    assert_eq!(SnapcastClient::response_result(reply), Ok(JsonValue::Null));
    assert_eq!(SnapcastClient::response_result(s("text")), Ok(JsonValue::Null));
}

#[test]
fn reply_with_error() {
    let reply = obj(vec![("result", s("ok")), ("error", obj(vec![("code", n(32601))]))]);
    assert_eq!(
        SnapcastClient::response_result(reply),
        Err(SnapcastError::Rpc(obj(vec![("code", n(32601))])))
    );
}

#[test]
fn reply_with_null_error_is_error() {
    let reply = obj(vec![("error", JsonValue::Null), ("result", s("ok"))]);
    assert_eq!(SnapcastClient::response_result(reply), Err(SnapcastError::Rpc(JsonValue::Null)));
}

#[test]
fn counts_clients_of_all_groups() {
    assert_eq!(SnapcastClient::get_client_count(&sample_status()), 3);
}

#[test]
fn count_of_malformed_status_is_zero() {
    assert_eq!(SnapcastClient::get_client_count(&JsonValue::Null), 0);
    assert_eq!(SnapcastClient::get_client_count(&obj(vec![("server", obj(vec![]))])), 0);
}

#[test]
fn lists_client_ids_in_order() {
    assert_eq!(
        SnapcastClient::get_client_ids(&sample_status()),
        vec!["kitchen".to_string(), "bath".to_string(), "garden".to_string()]
    );
}

#[test]
fn ids_skip_clients_without_string_id() {
    let st = status(vec![group(vec![obj(vec![("id", n(7))]), client("x", n(1), JsonValue::Null)])]);
    assert_eq!(SnapcastClient::get_client_ids(&st), vec!["x".to_string()]);
    assert_eq!(SnapcastClient::get_client_count(&st), 2);
}

#[test]
fn client_volume_found() {
    assert_eq!(SnapcastClient::get_client_volume(&sample_status(), "garden"), Ok(75));
}

#[test]
fn client_volume_is_cut_to_a_byte() {
    assert_eq!(SnapcastClient::get_client_volume(&sample_status(), "bath"), Ok(44));
}

#[test]
fn client_volume_unknown_client() {
    assert_eq!(
        SnapcastClient::get_client_volume(&sample_status(), "attic"),
        Err(SnapcastError::ClientNotFound("attic".to_string()))
    );
}

#[test]
fn client_volume_skips_entry_without_percent() {
    let st = status(vec![
        group(vec![client("dup", s("loud"), JsonValue::Bool(true))]),
        group(vec![client("dup", n(12), JsonValue::Bool(false))]),
    ]);
    assert_eq!(SnapcastClient::get_client_volume(&st, "dup"), Ok(12));
    assert_eq!(SnapcastClient::get_client_mute(&st, "dup"), Ok(true));
}

#[test]
fn client_volume_negative_is_not_found() {
    let st = status(vec![group(vec![client("neg", JsonValue::Number(JsonNumber::NegInt(-5)), JsonValue::Null)])]);
    assert_eq!(
        SnapcastClient::get_client_volume(&st, "neg"),
        Err(SnapcastError::ClientNotFound("neg".to_string()))
    );
    assert_eq!(
        SnapcastClient::get_client_mute(&st, "neg"),
        Err(SnapcastError::ClientNotFound("neg".to_string()))
    );
}

#[test]
fn client_mute_found() {
    assert_eq!(SnapcastClient::get_client_mute(&sample_status(), "bath"), Ok(true));
    assert_eq!(SnapcastClient::get_client_mute(&sample_status(), "kitchen"), Ok(false));
}

#[test]
fn reported_client_is_listed() {
    let st = sample_status();
    let ids = SnapcastClient::get_client_ids(&st);
    for id in ["kitchen", "bath", "garden", "attic"] {
        if SnapcastClient::get_client_volume(&st, id).is_ok() {
            assert!(ids.iter().any(|x| *x == id));
        }
    }
    assert!(ids.len() <= SnapcastClient::get_client_count(&st));
}

#[test]
fn json_accessors() {
    let v = obj(vec![("a", n(3)), ("b", JsonValue::Bool(true)), ("a", n(4))]);
    assert_eq!(v.get("a"), Some(&n(3)));
    assert_eq!(v.get("c"), None);
    assert_eq!(n(3).as_u64(), Some(3));
    assert_eq!(JsonValue::Number(JsonNumber::Float(0)).as_u64(), None);
    assert_eq!(JsonValue::Bool(true).as_bool(), Some(true));
    assert_eq!(s("x").as_str(), Some(&"x".to_string()));
    assert_eq!(s("x").as_array(), None);
    assert_eq!(s("x").get("a"), None);
}
