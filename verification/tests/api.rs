use audiod::api::{
    client_list_reply, client_mute_reply, client_volume_reply, command_status, login_outcome,
    require_service, HandlerError, LoginOutcome, LoginQuery,
};
use audiod::json::{JsonMember, JsonNumber, JsonValue};

fn obj(members: Vec<(&str, JsonValue)>) -> JsonValue {
    JsonValue::Object(
        members.into_iter().map(|(k, v)| JsonMember { key: k.to_string(), value: v }).collect(),
    )
}

fn one_client_status(id: &str, percent: u64, muted: bool) -> JsonValue {
    let client = obj(vec![
        ("id", JsonValue::Str(id.to_string())),
        (
            "config",
            obj(vec![(
                "volume",
                obj(vec![
                    ("percent", JsonValue::Number(JsonNumber::PosInt(percent))),
                    ("muted", JsonValue::Bool(muted)),
                ]),
            )]),
        ),
    ]);
    let group = obj(vec![("clients", JsonValue::Array(vec![client]))]);
    obj(vec![("server", obj(vec![("groups", JsonValue::Array(vec![group]))]))])
}

#[test]
fn error_status_codes() {
    assert_eq!(HandlerError::ServiceUnavailable.status_code(), 503);
    assert_eq!(HandlerError::InternalServerError.status_code(), 500);
}

#[test]
fn missing_service_is_unavailable() {
    assert_eq!(require_service(Some(5)), Ok(5));
    assert_eq!(require_service::<u8>(None), Err(HandlerError::ServiceUnavailable));
}

#[test]
fn command_status_codes() {
    assert_eq!(command_status(true), 200);
    assert_eq!(command_status(false), 503);
}

#[test]
fn volume_reply() {
    let r = client_volume_reply::<()>(Ok(one_client_status("k", 30, false)), "k").unwrap();
    assert_eq!(r.volume, 30);
    assert_eq!(
        client_volume_reply::<()>(Ok(one_client_status("k", 30, false)), "x").map(|r| r.volume),
        Err(HandlerError::InternalServerError)
    );
    assert_eq!(
        client_volume_reply::<()>(Err(()), "k").map(|r| r.volume),
        Err(HandlerError::InternalServerError)
    );
}

#[test]
fn mute_reply() {
    let r = client_mute_reply::<()>(Ok(one_client_status("k", 30, true)), "k").unwrap();
    assert!(r.muted);
    assert_eq!(
        client_mute_reply::<()>(Err(()), "k").map(|r| r.muted),
        Err(HandlerError::InternalServerError)
    );
}

#[test]
fn list_reply() {
    let r = client_list_reply::<()>(Ok(one_client_status("k", 30, true))).unwrap();
    assert_eq!(r.clients, vec!["k".to_string()]);
    assert_eq!(
        client_list_reply::<()>(Err(())).map(|r| r.clients),
        Err(HandlerError::InternalServerError)
    );
}

#[test]
fn login_with_code() {
    let o = login_outcome(LoginQuery { code: Some("abc".to_string()) });
    assert_eq!(o, LoginOutcome::Code("abc".to_string()));
    assert_eq!(o.message(), "Login erfolgreich – du kannst dieses Tab jetzt schließen.");
}

#[test]
fn login_without_code() {
    let o = login_outcome(LoginQuery { code: None });
    assert_eq!(o, LoginOutcome::MissingCode);
    assert_eq!(o.message(), "Kein 'code'-Parameter im Redirect gefunden.");
}
