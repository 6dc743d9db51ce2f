//! The HTTP control API: its query and response bodies and the status each
//! handler answers with.

use vstd::prelude::*;
use crate::json::JsonValue;
use crate::snapcast::{SnapcastClient, client_volume, client_muted, client_ids, status_clients, texts};

verus! {

/// `200 OK`.
pub const STATUS_OK: u16 = 200;

/// `500 Internal Server Error`.
pub const STATUS_INTERNAL_SERVER_ERROR: u16 = 500;

/// `503 Service Unavailable`.
pub const STATUS_SERVICE_UNAVAILABLE: u16 = 503;

/// Query of the OAuth redirect: the authorisation code, if any.
#[derive(Debug, Clone, PartialEq, Eq)]
pub struct LoginQuery {
    pub code: Option<String>,
}

/// Query of `/client/volume/set`.
#[derive(Debug, Clone, PartialEq, Eq)]
pub struct ClientVolumeSetParams {
    pub client_id: String,
    pub value: u8,
    pub muted: Option<bool>,
}

/// Query that sets a client's mute flag.
#[derive(Debug, Clone, PartialEq, Eq)]
pub struct ClientMuteSetParams {
    pub client_id: String,
    pub muted: bool,
}

/// Query of `/client/volume/get`.
#[derive(Debug, Clone, PartialEq, Eq)]
pub struct ClientVolumeGetParams {
    pub client_id: String,
}

/// Body of the `/client/volume/get` reply.
#[derive(Debug, Clone, PartialEq, Eq)]
pub struct ClientVolumeGetResponse {
    pub volume: u8,
}

/// Body of the `/client/mute/get` reply.
#[derive(Debug, Clone, PartialEq, Eq)]
pub struct ClientMutedGetResponse {
    pub muted: bool,
}

/// Body of the `/client/list` reply.
#[derive(Debug, Clone, PartialEq, Eq)]
pub struct ClientListGetResponse {
    pub clients: Vec<String>,
}

/// Why a handler could not answer.
#[derive(Debug, Clone, PartialEq, Eq)]
pub enum HandlerError {
    /// The backend it needs (Snapcast, Spotify Connect) is not running.
    ServiceUnavailable,
    /// The backend failed to answer.
    InternalServerError,
}

impl HandlerError {
    /// The HTTP status of the error.
    pub fn status_code(&self) -> (code: u16)
        ensures
            code == match self {
                HandlerError::ServiceUnavailable => STATUS_SERVICE_UNAVAILABLE,
                HandlerError::InternalServerError => STATUS_INTERNAL_SERVER_ERROR,
            },
    {
        match self {
            HandlerError::ServiceUnavailable => STATUS_SERVICE_UNAVAILABLE,
            HandlerError::InternalServerError => STATUS_INTERNAL_SERVER_ERROR,
        }
    }
}

/// A backend the handler needs: the one that is running, else
/// `ServiceUnavailable`.
pub fn require_service<T>(slot: Option<T>) -> (r: Result<T, HandlerError>)
    ensures
        match slot {
            Some(s) => r == Ok::<T, HandlerError>(s),
            None => r == Err::<T, HandlerError>(HandlerError::ServiceUnavailable),
        },
{
    match slot {
        Some(s) => Ok(s),
        None => Err(HandlerError::ServiceUnavailable),
    }
}

/// Status of a command sent on to Snapcast: `200` when Snapcast is
/// running, else `503`.
pub fn command_status(snapcast_running: bool) -> (code: u16)
    ensures
        code == if snapcast_running {
            STATUS_OK
        } else {
            STATUS_SERVICE_UNAVAILABLE
        },
{
    if snapcast_running {
        STATUS_OK
    } else {
        STATUS_SERVICE_UNAVAILABLE
    }
}

/// The `/client/volume/get` reply for client `client_id`, given the
/// `Server.GetStatus` outcome: a failed status call or a client without a
/// reported percentage is an internal error.
pub fn client_volume_reply<E>(status: Result<JsonValue, E>, client_id: &str) -> (r: Result<
    ClientVolumeGetResponse,
    HandlerError,
>)
    ensures
        match status {
            Ok(s) => match client_volume(s, client_id@) {
                Some(p) => r matches Ok(resp) && resp.volume == (p % 256) as u8,
                None => r matches Err(HandlerError::InternalServerError),
            },
            Err(_) => r matches Err(HandlerError::InternalServerError),
        },
{
    match status {
        Ok(s) => match SnapcastClient::get_client_volume(&s, client_id) {
            Ok(volume) => Ok(ClientVolumeGetResponse { volume }),
            Err(_) => Err(HandlerError::InternalServerError),
        },
        Err(_) => Err(HandlerError::InternalServerError),
    }
}

/// The mute-flag reply for client `client_id`, given the `Server.GetStatus`
/// outcome: a failed status call or a client without a reported flag is an
/// internal error.
pub fn client_mute_reply<E>(status: Result<JsonValue, E>, client_id: &str) -> (r: Result<
    ClientMutedGetResponse,
    HandlerError,
>)
    ensures
        match status {
            Ok(s) => match client_muted(s, client_id@) {
                Some(b) => r matches Ok(resp) && resp.muted == b,
                None => r matches Err(HandlerError::InternalServerError),
            },
            Err(_) => r matches Err(HandlerError::InternalServerError),
        },
{
    match status {
        Ok(s) => match SnapcastClient::get_client_mute(&s, client_id) {
            Ok(muted) => Ok(ClientMutedGetResponse { muted }),
            Err(_) => Err(HandlerError::InternalServerError),
        },
        Err(_) => Err(HandlerError::InternalServerError),
    }
}

/// The `/client/list` reply, given the `Server.GetStatus` outcome: the ids
/// of all clients, or an internal error when the status call failed.
pub fn client_list_reply<E>(status: Result<JsonValue, E>) -> (r: Result<
    ClientListGetResponse,
    HandlerError,
>)
    ensures
        match status {
            Ok(s) => r matches Ok(resp) && texts(resp.clients@) == client_ids(status_clients(s)),
            Err(_) => r matches Err(HandlerError::InternalServerError),
        },
{
    match status {
        Ok(s) => Ok(ClientListGetResponse { clients: SnapcastClient::get_client_ids(&s) }),
        Err(_) => Err(HandlerError::InternalServerError),
    }
}

/// What the OAuth redirect handler does with its query.
#[derive(Debug, Clone, PartialEq, Eq)]
pub enum LoginOutcome {
    /// Hand this authorisation code to the waiting login flow.
    Code(String),
    /// The redirect carried no code.
    MissingCode,
}

impl LoginOutcome {
    /// The text shown in the browser.
    pub fn message(&self) -> (m: &'static str)
        ensures
            m@ == match self {
                LoginOutcome::Code(_) => "Login erfolgreich – du kannst dieses Tab jetzt schließen."@,
                LoginOutcome::MissingCode => "Kein 'code'-Parameter im Redirect gefunden."@,
            },
    {
        match self {
            LoginOutcome::Code(_) => "Login erfolgreich – du kannst dieses Tab jetzt schließen.",
            LoginOutcome::MissingCode => "Kein 'code'-Parameter im Redirect gefunden.",
        }
    }
}

/// Classifies an OAuth redirect.
pub fn login_outcome(query: LoginQuery) -> (r: LoginOutcome)
    ensures
        match query.code {
            Some(c) => r == LoginOutcome::Code(c),
            None => r == LoginOutcome::MissingCode,
        },
{
    match query.code {
        Some(c) => LoginOutcome::Code(c),
        None => LoginOutcome::MissingCode,
    }
}

} // verus!
