//! The Snapcast JSON-RPC protocol: the requests the daemon sends and what it
//! reads from the server's replies.

use vstd::prelude::*;
use crate::json::{JsonMember, JsonNumber, JsonValue, json_get, deref_opt, array_items, member_index};

verus! {

/// The groups listed in a `Server.GetStatus` result: `server.groups` when it
/// is an array.
pub open spec fn status_groups(status: JsonValue) -> Seq<JsonValue> {
    match json_get(status, "server"@) {
        Some(server) => array_items(json_get(server, "groups"@)),
        None => Seq::empty(),
    }
}

/// The clients of one group: `clients` when it is an array.
pub open spec fn group_clients(group: JsonValue) -> Seq<JsonValue> {
    array_items(json_get(group, "clients"@))
}

/// The clients of all `groups`, group after group.
pub open spec fn clients_of(groups: Seq<JsonValue>) -> Seq<JsonValue>
    decreases groups.len(),
{
    if groups.len() == 0 {
        Seq::empty()
    } else {
        clients_of(groups.drop_last()) + group_clients(groups.last())
    }
}

/// Every client known to the server, in the order of the status document.
pub open spec fn status_clients(status: JsonValue) -> Seq<JsonValue> {
    clients_of(status_groups(status))
}

/// The `id` of a client when it is a string.
pub open spec fn client_id(client: JsonValue) -> Option<Seq<char>> {
    match json_get(client, "id"@) {
        Some(JsonValue::Str(s)) => Some(s@),
        _ => None,
    }
}

/// The string ids of `clients`, in order; clients without one are skipped.
pub open spec fn client_ids(clients: Seq<JsonValue>) -> Seq<Seq<char>>
    decreases clients.len(),
{
    if clients.len() == 0 {
        Seq::empty()
    } else {
        client_ids(clients.drop_last()) + match client_id(clients.last()) {
            Some(id) => seq![id],
            None => Seq::empty(),
        }
    }
}

/// The text of each string.
pub open spec fn texts(v: Seq<String>) -> Seq<Seq<char>> {
    v.map_values(|s: String| s@)
}

proof fn lemma_clients_of_concat(a: Seq<JsonValue>, b: Seq<JsonValue>)
    ensures
        clients_of(a + b) == clients_of(a) + clients_of(b),
    decreases b.len(),
{
    if b.len() == 0 {
        assert(a + b =~= a);
        assert(clients_of(a) + clients_of(b) =~= clients_of(a));
    } else {
        lemma_clients_of_concat(a, b.drop_last());
        assert((a + b).drop_last() =~= a + b.drop_last());
        assert((a + b).last() == b.last());
        assert(clients_of(a + b) =~= clients_of(a) + clients_of(b));
    }
}

proof fn lemma_clients_of_step(groups: Seq<JsonValue>, i: int)
    requires
        0 <= i < groups.len(),
    ensures
        clients_of(groups.take(i + 1)) == clients_of(groups.take(i)) + group_clients(groups[i]),
{
    assert(groups.take(i + 1).drop_last() =~= groups.take(i));
    assert(groups.take(i + 1).last() == groups[i]);
}

proof fn lemma_clients_of_prefix_len(groups: Seq<JsonValue>, i: int)
    requires
        0 <= i <= groups.len(),
    ensures
        clients_of(groups.take(i)).len() <= clients_of(groups).len(),
{
    lemma_clients_of_concat(groups.take(i), groups.skip(i));
    assert(groups.take(i) + groups.skip(i) =~= groups);
}

/// The two settings of a client's volume.
#[derive(Debug, Clone, PartialEq, Eq)]
pub enum VolumeField {
    /// `config.volume.percent`, a non-negative integer.
    Percent,
    /// `config.volume.muted`, a boolean.
    Muted,
}

/// The key of a volume setting.
pub open spec fn field_key(field: VolumeField) -> Seq<char> {
    match field {
        VolumeField::Percent => "percent"@,
        VolumeField::Muted => "muted"@,
    }
}

/// `config.volume.<field>` of a client.
pub open spec fn volume_entry(client: JsonValue, field: VolumeField) -> Option<JsonValue> {
    match json_get(client, "config"@) {
        Some(config) => match json_get(config, "volume"@) {
            Some(volume) => json_get(volume, field_key(field)),
            None => None,
        },
        None => None,
    }
}

/// Whether a volume entry has the type of its setting.
pub open spec fn entry_fits(entry: Option<JsonValue>, field: VolumeField) -> bool {
    match field {
        VolumeField::Percent => entry matches Some(JsonValue::Number(JsonNumber::PosInt(_))),
        VolumeField::Muted => entry matches Some(JsonValue::Bool(_)),
    }
}

/// The setting `field` of `client`, when the client has id `id` and the
/// setting is present with its type.
pub open spec fn client_reading(client: JsonValue, id: Seq<char>, field: VolumeField) -> Option<
    JsonValue,
> {
    if client_id(client) == Some(id) && entry_fits(volume_entry(client, field), field) {
        volume_entry(client, field)
    } else {
        None
    }
}

/// The setting `field` of the first client in `clients` that has id `id` and
/// that setting.
pub open spec fn first_reading(clients: Seq<JsonValue>, id: Seq<char>, field: VolumeField) -> Option<
    JsonValue,
>
    decreases clients.len(),
{
    if clients.len() == 0 {
        None
    } else {
        match first_reading(clients.drop_last(), id, field) {
            Some(e) => Some(e),
            None => client_reading(clients.last(), id, field),
        }
    }
}

/// The volume percentage the status reports for client `id`.
pub open spec fn client_volume(status: JsonValue, id: Seq<char>) -> Option<u64> {
    match first_reading(status_clients(status), id, VolumeField::Percent) {
        Some(JsonValue::Number(JsonNumber::PosInt(p))) => Some(p),
        _ => None,
    }
}

/// The mute flag the status reports for client `id`.
pub open spec fn client_muted(status: JsonValue, id: Seq<char>) -> Option<bool> {
    match first_reading(status_clients(status), id, VolumeField::Muted) {
        Some(JsonValue::Bool(b)) => Some(b),
        _ => None,
    }
}

proof fn lemma_first_reading_extend(a: Seq<JsonValue>, b: Seq<JsonValue>, id: Seq<char>, field: VolumeField)
    requires
        first_reading(a, id, field) is Some,
    ensures
        first_reading(a + b, id, field) == first_reading(a, id, field),
    decreases b.len(),
{
    if b.len() == 0 {
        assert(a + b =~= a);
    } else {
        lemma_first_reading_extend(a, b.drop_last(), id, field);
        assert((a + b).drop_last() =~= a + b.drop_last());
    }
}

/// An object's members; nothing for other values.
pub open spec fn obj_members(v: JsonValue) -> Seq<JsonMember> {
    match v {
        JsonValue::Object(m) => m@,
        _ => Seq::empty(),
    }
}

/// A member named `key` holding `value`.
pub open spec fn member_is(m: JsonMember, key: Seq<char>, value: JsonValue) -> bool {
    m.key@ == key && m.value == value
}

/// A member named `key` holding the string `text`.
pub open spec fn text_member(m: JsonMember, key: Seq<char>, text: Seq<char>) -> bool {
    m.key@ == key && (m.value matches JsonValue::Str(s) && s@ == text)
}

/// A JSON-RPC 2.0 call of `method` with request id 1; its params are the
/// fourth member.
pub open spec fn is_rpc_call(r: JsonValue, method: Seq<char>) -> bool {
    &&& r is Object
    &&& obj_members(r).len() == 4
    &&& text_member(obj_members(r)[0], "jsonrpc"@, "2.0"@)
    &&& member_is(obj_members(r)[1], "id"@, JsonValue::Number(JsonNumber::PosInt(1)))
    &&& text_member(obj_members(r)[2], "method"@, method)
    &&& obj_members(r)[3].key@ == "params"@
}

/// The params of a call built by `SnapcastClient::request`.
pub open spec fn call_params(r: JsonValue) -> JsonValue {
    obj_members(r)[3].value
}

/// Params naming client `id` and carrying volume settings as their second member.
pub open spec fn is_client_params(p: JsonValue, id: Seq<char>) -> bool {
    &&& p is Object
    &&& obj_members(p).len() == 2
    &&& text_member(obj_members(p)[0], "id"@, id)
    &&& obj_members(p)[1].key@ == "volume"@
    &&& obj_members(p)[1].value is Object
}

/// The volume settings of client params.
pub open spec fn volume_settings(p: JsonValue) -> Seq<JsonMember> {
    obj_members(obj_members(p)[1].value)
}

/// JSON for an optional mute flag: `null` when absent.
pub open spec fn muted_json(muted: Option<bool>) -> JsonValue {
    match muted {
        Some(b) => JsonValue::Bool(b),
        None => JsonValue::Null,
    }
}

/// JSON for a volume percentage.
pub open spec fn percent_json(percent: u8) -> JsonValue {
    JsonValue::Number(JsonNumber::PosInt(percent as u64))
}

/// What a reply carries: `result` (or `null`) unless it has an `error` member.
pub open spec fn reply_outcome(reply: JsonValue) -> Result<JsonValue, SnapcastError> {
    match json_get(reply, "error"@) {
        Some(e) => Err(SnapcastError::Rpc(e)),
        None => Ok(
            match json_get(reply, "result"@) {
                Some(v) => v,
                None => JsonValue::Null,
            },
        ),
    }
}

/// Errors of the Snapcast protocol.
#[derive(Debug, PartialEq, Eq)]
pub enum SnapcastError {
    /// The server answered with this JSON-RPC `error` member.
    Rpc(JsonValue),
    /// No client with this id reports the requested setting.
    ClientNotFound(String),
}

fn text(s: &str) -> (v: JsonValue)
    ensures
        v matches JsonValue::Str(t) && t@ == s@,
{
    JsonValue::Str(String::from_str(s))
}

fn member(key: &str, value: JsonValue) -> (m: JsonMember)
    ensures
        m.key@ == key@,
        m.value == value,
{
    JsonMember { key: String::from_str(key), value }
}

fn client_params(client_id: &str, settings: Vec<JsonMember>) -> (p: JsonValue)
    ensures
        is_client_params(p, client_id@),
        volume_settings(p) == settings@,
{
    let mut members: Vec<JsonMember> = Vec::new();
    members.push(member("id", text(client_id)));
    members.push(member("volume", JsonValue::Object(settings)));
    JsonValue::Object(members)
}

fn muted_value(muted: &Option<bool>) -> (v: JsonValue)
    ensures
        v == muted_json(*muted),
{
    match muted {
        Some(b) => JsonValue::Bool(*b),
        None => JsonValue::Null,
    }
}

proof fn lemma_reading_listed(clients: Seq<JsonValue>, id: Seq<char>, field: VolumeField)
    requires
        first_reading(clients, id, field) is Some,
    ensures
        client_ids(clients).contains(id),
    decreases clients.len(),
{
    let front = clients.drop_last();
    if first_reading(front, id, field) is Some {
        lemma_reading_listed(front, id, field);
        let k: int = choose|k: int| 0 <= k < client_ids(front).len() && client_ids(front)[k] == id;
        assert(client_ids(clients)[k] == id);
    } else {
        assert(client_id(clients.last()) == Some(id));
        assert(client_ids(clients)[client_ids(clients).len() - 1] == id);
    }
}

/// A client whose volume or mute flag the status reports is among the client
/// ids the status lists.
pub proof fn law_reported_client_is_listed(status: JsonValue, id: Seq<char>)
    ensures
        client_volume(status, id) is Some ==> client_ids(status_clients(status)).contains(id),
        client_muted(status, id) is Some ==> client_ids(status_clients(status)).contains(id),
{
    if client_volume(status, id) is Some {
        lemma_reading_listed(status_clients(status), id, VolumeField::Percent);
    }
    if client_muted(status, id) is Some {
        lemma_reading_listed(status_clients(status), id, VolumeField::Muted);
    }
}

proof fn lemma_ids_at_most_clients(clients: Seq<JsonValue>)
    ensures
        client_ids(clients).len() <= clients.len(),
    decreases clients.len(),
{
    if clients.len() > 0 {
        lemma_ids_at_most_clients(clients.drop_last());
    }
}

/// The status lists no more client ids than it counts clients.
pub proof fn law_ids_within_count(status: JsonValue)
    ensures
        client_ids(status_clients(status)).len() <= status_clients(status).len(),
{
    lemma_ids_at_most_clients(status_clients(status));
}

/// The clients a status reports are the `clients` arrays of the entries of
/// `server.groups`, group after group; no other member of a group or of the
/// status matters. So `get_client_count` is the sum over the groups of the
/// length of their `clients` array (0 when it is not an array).
pub proof fn law_status_clients(status: JsonValue, groups: Seq<JsonValue>, group: JsonValue)
    ensures
        match json_get(status, "server"@) {
            Some(server) => status_clients(status) == clients_of(
                array_items(json_get(server, "groups"@)),
            ),
            None => status_clients(status) == Seq::<JsonValue>::empty(),
        },
        clients_of(Seq::empty()) == Seq::<JsonValue>::empty(),
        clients_of(groups.push(group)) == clients_of(groups) + array_items(
            json_get(group, "clients"@),
        ),
{
    assert(groups.push(group).drop_last() =~= groups);
}

/// A client's id is the string under its `id` member, whatever else the
/// client holds; a client without a string `id` has none. The id list holds
/// the id of every client that has one, in order.
pub proof fn law_client_ids(clients: Seq<JsonValue>, client: JsonValue)
    ensures
        match json_get(client, "id"@) {
            Some(JsonValue::Str(s)) => client_id(client) == Some(s@),
            _ => client_id(client) is None,
        },
        client_ids(Seq::empty()) == Seq::<Seq<char>>::empty(),
        client_ids(clients.push(client)) == client_ids(clients) + match json_get(client, "id"@) {
            Some(JsonValue::Str(s)) => seq![s@],
            _ => Seq::<Seq<char>>::empty(),
        },
{
    assert(clients.push(client).drop_last() =~= clients);
}

proof fn lemma_first_reading_none(clients: Seq<JsonValue>, id: Seq<char>, field: VolumeField)
    requires
        forall|j: int| 0 <= j < clients.len() ==> #[trigger] client_reading(clients[j], id, field) is None,
    ensures
        first_reading(clients, id, field) is None,
    decreases clients.len(),
{
    if clients.len() > 0 {
        let front = clients.drop_last();
        assert forall|j: int| 0 <= j < front.len() implies #[trigger] client_reading(front[j], id, field) is None by {
            assert(front[j] == clients[j]);
        }
        lemma_first_reading_none(front, id, field);
        assert(client_reading(clients[clients.len() - 1], id, field) is None);
    }
}

proof fn lemma_first_reading_at(clients: Seq<JsonValue>, id: Seq<char>, field: VolumeField, k: int)
    requires
        0 <= k < clients.len(),
        client_reading(clients[k], id, field) is Some,
        forall|j: int| 0 <= j < k ==> #[trigger] client_reading(clients[j], id, field) is None,
    ensures
        first_reading(clients, id, field) == client_reading(clients[k], id, field),
    decreases clients.len(),
{
    let front = clients.drop_last();
    if k < clients.len() - 1 {
        assert forall|j: int| 0 <= j < k implies #[trigger] client_reading(front[j], id, field) is None by {
            assert(front[j] == clients[j]);
        }
        assert(front[k] == clients[k]);
        lemma_first_reading_at(front, id, field, k);
    } else {
        assert forall|j: int| 0 <= j < front.len() implies #[trigger] client_reading(front[j], id, field) is None by {
            assert(front[j] == clients[j]);
        }
        lemma_first_reading_none(front, id, field);
    }
}

/// The volume reported for client `id` is the `config.volume.percent` of the
/// first client (in status order) whose `id` is that string and whose
/// percentage is a non-negative integer, whatever its value (0 included) and
/// whatever else the client holds; with no such client there is none.
pub proof fn law_client_volume(status: JsonValue, id: Seq<char>, k: int, p: u64)
    ensures
        ({
            let cs = status_clients(status);
            (0 <= k < cs.len() && (json_get(cs[k], "id"@) matches Some(JsonValue::Str(s)) && s@
                == id) && match json_get(cs[k], "config"@) {
                Some(config) => match json_get(config, "volume"@) {
                    Some(volume) => json_get(volume, "percent"@) == Some(
                        JsonValue::Number(JsonNumber::PosInt(p)),
                    ),
                    None => false,
                },
                None => false,
            } && forall|j: int|
                0 <= j < k ==> !((json_get(#[trigger] cs[j], "id"@) matches Some(JsonValue::Str(s))
                    && s@ == id) && match json_get(cs[j], "config"@) {
                    Some(config) => match json_get(config, "volume"@) {
                        Some(volume) => json_get(volume, "percent"@) matches Some(
                            JsonValue::Number(JsonNumber::PosInt(_)),
                        ),
                        None => false,
                    },
                    None => false,
                })) ==> client_volume(status, id) == Some(p)
        }),
        ({
            let cs = status_clients(status);
            (forall|j: int|
                0 <= j < cs.len() ==> !((json_get(#[trigger] cs[j], "id"@) matches Some(
                    JsonValue::Str(s),
                ) && s@ == id) && match json_get(cs[j], "config"@) {
                    Some(config) => match json_get(config, "volume"@) {
                        Some(volume) => json_get(volume, "percent"@) matches Some(
                            JsonValue::Number(JsonNumber::PosInt(_)),
                        ),
                        None => false,
                    },
                    None => false,
                })) ==> client_volume(status, id) is None
        }),
{
    let cs = status_clients(status);
    let f = VolumeField::Percent;
    assert forall|j: int| 0 <= j < cs.len() implies #[trigger] client_reading(cs[j], id, f) == (
    if (json_get(cs[j], "id"@) matches Some(JsonValue::Str(s)) && s@ == id) && (match json_get(
        cs[j],
        "config"@,
    ) {
        Some(config) => match json_get(config, "volume"@) {
            Some(volume) => json_get(volume, "percent"@) matches Some(
                JsonValue::Number(JsonNumber::PosInt(_)),
            ),
            None => false,
        },
        None => false,
    }) {
        volume_entry(cs[j], f)
    } else {
        None
    }) by {}
    if 0 <= k < cs.len() && client_reading(cs[k], id, f) is Some && forall|j: int|
        0 <= j < k ==> #[trigger] client_reading(cs[j], id, f) is None {
        lemma_first_reading_at(cs, id, f, k);
    }
    if forall|j: int| 0 <= j < cs.len() ==> #[trigger] client_reading(cs[j], id, f) is None {
        lemma_first_reading_none(cs, id, f);
    }
}

/// The mute flag reported for client `id` is the boolean `config.volume.muted`
/// of the first client (in status order) whose `id` is that string and that
/// has such a flag, whatever its percentage and whatever else the client
/// holds; with no such client there is none.
pub proof fn law_client_muted(status: JsonValue, id: Seq<char>, k: int, b: bool)
    ensures
        ({
            let cs = status_clients(status);
            (0 <= k < cs.len() && (json_get(cs[k], "id"@) matches Some(JsonValue::Str(s)) && s@
                == id) && match json_get(cs[k], "config"@) {
                Some(config) => match json_get(config, "volume"@) {
                    Some(volume) => json_get(volume, "muted"@) == Some(JsonValue::Bool(b)),
                    None => false,
                },
                None => false,
            } && forall|j: int|
                0 <= j < k ==> !((json_get(#[trigger] cs[j], "id"@) matches Some(JsonValue::Str(s))
                    && s@ == id) && match json_get(cs[j], "config"@) {
                    Some(config) => match json_get(config, "volume"@) {
                        Some(volume) => json_get(volume, "muted"@) matches Some(JsonValue::Bool(_)),
                        None => false,
                    },
                    None => false,
                })) ==> client_muted(status, id) == Some(b)
        }),
        ({
            let cs = status_clients(status);
            (forall|j: int|
                0 <= j < cs.len() ==> !((json_get(#[trigger] cs[j], "id"@) matches Some(
                    JsonValue::Str(s),
                ) && s@ == id) && match json_get(cs[j], "config"@) {
                    Some(config) => match json_get(config, "volume"@) {
                        Some(volume) => json_get(volume, "muted"@) matches Some(JsonValue::Bool(_)),
                        None => false,
                    },
                    None => false,
                })) ==> client_muted(status, id) is None
        }),
{
    let cs = status_clients(status);
    let f = VolumeField::Muted;
    assert forall|j: int| 0 <= j < cs.len() implies #[trigger] client_reading(cs[j], id, f) == (
    if (json_get(cs[j], "id"@) matches Some(JsonValue::Str(s)) && s@ == id) && (match json_get(
        cs[j],
        "config"@,
    ) {
        Some(config) => match json_get(config, "volume"@) {
            Some(volume) => json_get(volume, "muted"@) matches Some(JsonValue::Bool(_)),
            None => false,
        },
        None => false,
    }) {
        volume_entry(cs[j], f)
    } else {
        None
    }) by {}
    if 0 <= k < cs.len() && client_reading(cs[k], id, f) is Some && forall|j: int|
        0 <= j < k ==> #[trigger] client_reading(cs[j], id, f) is None {
        lemma_first_reading_at(cs, id, f, k);
    }
    if forall|j: int| 0 <= j < cs.len() ==> #[trigger] client_reading(cs[j], id, f) is None {
        lemma_first_reading_none(cs, id, f);
    }
}

/// A reply with an `error` member fails with that member's value, whatever
/// else it holds; a reply without one yields its `result` member, whatever
/// JSON value that is, or `null` when it has none.
pub proof fn law_reply_outcome(reply: JsonValue, e: JsonValue, v: JsonValue)
    ensures
        json_get(reply, "error"@) == Some(e) ==> reply_outcome(reply) == Err::<
            JsonValue,
            SnapcastError,
        >(SnapcastError::Rpc(e)),
        json_get(reply, "error"@) is None && json_get(reply, "result"@) == Some(v) ==> reply_outcome(
            reply,
        ) == Ok::<JsonValue, SnapcastError>(v),
        json_get(reply, "error"@) is None && json_get(reply, "result"@) is None ==> reply_outcome(
            reply,
        ) == Ok::<JsonValue, SnapcastError>(JsonValue::Null),
{
}

fn groups_of(status: &JsonValue) -> (r: Option<&Vec<JsonValue>>)
    ensures
        match r {
            Some(g) => g@ == status_groups(*status),
            None => status_groups(*status) == Seq::<JsonValue>::empty(),
        },
{
    match status.get("server") {
        Some(server) => match server.get("groups") {
            Some(g) => g.as_array(),
            None => None,
        },
        None => None,
    }
}

fn clients_in(group: &JsonValue) -> (r: Option<&Vec<JsonValue>>)
    ensures
        match r {
            Some(c) => c@ == group_clients(*group),
            None => group_clients(*group) == Seq::<JsonValue>::empty(),
        },
{
    match group.get("clients") {
        Some(c) => c.as_array(),
        None => None,
    }
}

fn id_of(client: &JsonValue) -> (r: Option<&String>)
    ensures
        match r {
            Some(s) => client_id(*client) == Some(s@),
            None => client_id(*client) is None,
        },
{
    match client.get("id") {
        Some(v) => v.as_str(),
        None => None,
    }
}

fn volume_entry_of<'a>(client: &'a JsonValue, field: &VolumeField) -> (r: Option<&'a JsonValue>)
    ensures
        deref_opt(r) == volume_entry(*client, *field),
{
    match client.get("config") {
        Some(config) => match config.get("volume") {
            Some(volume) => match field {
                VolumeField::Percent => volume.get("percent"),
                VolumeField::Muted => volume.get("muted"),
            },
            None => None,
        },
        None => None,
    }
}

fn reading_of<'a>(client: &'a JsonValue, id: &String, field: &VolumeField) -> (r: Option<
    &'a JsonValue,
>)
    ensures
        deref_opt(r) == client_reading(*client, id@, *field),
{
    match id_of(client) {
        Some(cid) => {
            if *cid == *id {
                match volume_entry_of(client, field) {
                    Some(entry) => {
                        let fits = match field {
                            VolumeField::Percent => entry.as_u64().is_some(),
                            VolumeField::Muted => entry.as_bool().is_some(),
                        };
                        if fits {
                            Some(entry)
                        } else {
                            None
                        }
                    },
                    None => None,
                }
            } else {
                None
            }
        },
        None => None,
    }
}

/// The setting `field` of the first client with id `id` that has it.
fn find_reading<'a>(status: &'a JsonValue, id: &str, field: &VolumeField) -> (r: Option<
    &'a JsonValue,
>)
    ensures
        deref_opt(r) == first_reading(status_clients(*status), id@, *field),
{
    let key = String::from_str(id);
    match groups_of(status) {
        Some(groups) => {
            let mut i: usize = 0;
            assert(groups@.take(0) =~= Seq::<JsonValue>::empty());
            while i < groups.len()
                invariant
                    i <= groups.len(),
                    key@ == id@,
                    groups@ == status_groups(*status),
                    first_reading(clients_of(groups@.take(i as int)), id@, *field) is None,
                decreases groups.len() - i,
            {
                proof {
                    lemma_clients_of_step(groups@, i as int);
                    lemma_clients_of_concat(groups@.take(i + 1), groups@.skip(i + 1));
                    assert(groups@.take(i + 1) + groups@.skip(i + 1) =~= groups@);
                }
                let ghost done = clients_of(groups@.take(i as int));
                let ghost rest = clients_of(groups@.skip(i + 1));
                match clients_in(&groups[i]) {
                    Some(clients) => {
                        let mut j: usize = 0;
                        assert(done + clients@.take(0) =~= done);
                        assert(status_clients(*status) == done + clients@ + rest);
                        while j < clients.len()
                            invariant
                                j <= clients.len(),
                                key@ == id@,
                                status_clients(*status) == done + clients@ + rest,
                                first_reading(done + clients@.take(j as int), id@, *field) is None,
                            decreases clients.len() - j,
                        {
                            let ghost before = done + clients@.take(j as int);
                            let ghost after = done + clients@.take(j + 1);
                            assert(after.drop_last() =~= before);
                            assert(after.last() == clients@[j as int]);
                            match reading_of(&clients[j], &key, field) {
                                Some(entry) => {
                                    proof {
                                        lemma_first_reading_extend(
                                            after,
                                            clients@.skip(j + 1) + rest,
                                            id@,
                                            *field,
                                        );
                                        assert(after + (clients@.skip(j + 1) + rest) =~= done
                                            + clients@ + rest);
                                    }
                                    return Some(entry);
                                },
                                None => {},
                            }
                            j += 1;
                        }
                        assert(done + clients@.take(clients.len() as int) =~= done + clients@);
                    },
                    None => {
                        assert(done + Seq::<JsonValue>::empty() =~= done);
                    },
                }
                i += 1;
            }
            assert(groups@.take(groups.len() as int) =~= groups@);
            None
        },
        None => None,
    }
}

/// The Snapcast server a daemon talks to.
#[derive(Debug, Clone, PartialEq, Eq)]
pub struct SnapcastClient {
    pub base_url: String,
}

impl SnapcastClient {
    /// A client for the Snapcast server at `host_port` (`host:port`); its
    /// JSON-RPC endpoint is `http://host:port/jsonrpc`.
    pub fn new(host_port: &str) -> (c: Self)
        ensures
            c.base_url@ == "http://"@ + host_port@ + "/jsonrpc"@,
    {
        let url = String::from_str("http://").concat(host_port).concat("/jsonrpc");
        SnapcastClient { base_url: url }
    }

    /// The JSON-RPC 2.0 call of `method` with request id 1; absent params
    /// are sent as an empty object.
    pub fn request(method: &str, params: Option<JsonValue>) -> (r: JsonValue)
        ensures
            is_rpc_call(r, method@),
            match params {
                Some(p) => call_params(r) == p,
                None => call_params(r) is Object && obj_members(call_params(r)).len() == 0,
            },
    {
        let params = match params {
            Some(p) => p,
            None => JsonValue::Object(Vec::new()),
        };
        let mut members: Vec<JsonMember> = Vec::new();
        members.push(member("jsonrpc", text("2.0")));
        members.push(member("id", JsonValue::Number(JsonNumber::PosInt(1))));
        members.push(member("method", text(method)));
        members.push(member("params", params));
        JsonValue::Object(members)
    }

    /// What a server reply yields: its `error` member as an error when it has
    /// one (whatever its value), else its `result`, or `null` without one.
    pub fn response_result(reply: JsonValue) -> (r: Result<JsonValue, SnapcastError>)
        ensures
            r == reply_outcome(reply),
    {
        match reply {
            JsonValue::Object(mut members) => {
                match member_index(&members, "error") {
                    Some(i) => {
                        let m = members.swap_remove(i);
                        Err(SnapcastError::Rpc(m.value))
                    },
                    None => match member_index(&members, "result") {
                        Some(i) => {
                            let m = members.swap_remove(i);
                            Ok(m.value)
                        },
                        None => Ok(JsonValue::Null),
                    },
                }
            },
            _ => Ok(JsonValue::Null),
        }
    }

    /// The `Server.GetStatus` call.
    pub fn get_status() -> (r: JsonValue)
        ensures
            is_rpc_call(r, "Server.GetStatus"@),
            call_params(r) is Object && obj_members(call_params(r)).len() == 0,
    {
        Self::request("Server.GetStatus", None)
    }

    /// The `Client.SetVolume` call that sets both percentage and mute flag
    /// (`null` when `muted` is absent) of client `client_id`.
    pub fn set_client_volume(client_id: &str, percent: u8, muted: &Option<bool>) -> (r: JsonValue)
        ensures
            is_rpc_call(r, "Client.SetVolume"@),
            is_client_params(call_params(r), client_id@),
            volume_settings(call_params(r)).len() == 2,
            member_is(volume_settings(call_params(r))[0], "percent"@, percent_json(percent)),
            member_is(volume_settings(call_params(r))[1], "muted"@, muted_json(*muted)),
    {
        let mut settings: Vec<JsonMember> = Vec::new();
        settings.push(member("percent", JsonValue::Number(JsonNumber::PosInt(percent as u64))));
        settings.push(member("muted", muted_value(muted)));
        Self::request("Client.SetVolume", Some(client_params(client_id, settings)))
    }

    /// The `Client.SetVolume` call that sets only the mute flag (`null` when
    /// absent) of client `client_id`.
    pub fn set_client_mute(client_id: &str, muted: Option<bool>) -> (r: JsonValue)
        ensures
            is_rpc_call(r, "Client.SetVolume"@),
            is_client_params(call_params(r), client_id@),
            volume_settings(call_params(r)).len() == 1,
            member_is(volume_settings(call_params(r))[0], "muted"@, muted_json(muted)),
    {
        let mut settings: Vec<JsonMember> = Vec::new();
        settings.push(member("muted", muted_value(&muted)));
        Self::request("Client.SetVolume", Some(client_params(client_id, settings)))
    }

    /// The `Client.SetVolume` call that sets only the percentage of client
    /// `client_id`, leaving its mute flag as it is.
    pub fn set_client_volume_percent(client_id: &str, percent: u8) -> (r: JsonValue)
        ensures
            is_rpc_call(r, "Client.SetVolume"@),
            is_client_params(call_params(r), client_id@),
            volume_settings(call_params(r)).len() == 1,
            member_is(volume_settings(call_params(r))[0], "percent"@, percent_json(percent)),
    {
        let mut settings: Vec<JsonMember> = Vec::new();
        settings.push(member("percent", JsonValue::Number(JsonNumber::PosInt(percent as u64))));
        Self::request("Client.SetVolume", Some(client_params(client_id, settings)))
    }

    /// The volume percentage of client `client_id` in a `Server.GetStatus`
    /// result, cut to its low byte; the first client with that id and a
    /// percentage counts.
    pub fn get_client_volume(status: &JsonValue, client_id: &str) -> (r: Result<u8, SnapcastError>)
        ensures
            match client_volume(*status, client_id@) {
                Some(p) => r == Ok::<u8, SnapcastError>((p % 256) as u8),
                None => r matches Err(SnapcastError::ClientNotFound(id)) && id@ == client_id@,
            },
    {
        match find_reading(status, client_id, &VolumeField::Percent) {
            Some(entry) => match entry.as_u64() {
                Some(p) => {
                    assert(p as u8 == (p % 256) as u8) by (bit_vector);
                    Ok(p as u8)
                },
                None => Err(SnapcastError::ClientNotFound(String::from_str(client_id))),
            },
            None => Err(SnapcastError::ClientNotFound(String::from_str(client_id))),
        }
    }

    /// Whether client `client_id` is muted according to a `Server.GetStatus`
    /// result; the first client with that id and a mute flag counts.
    pub fn get_client_mute(status: &JsonValue, client_id: &str) -> (r: Result<bool, SnapcastError>)
        ensures
            match client_muted(*status, client_id@) {
                Some(b) => r == Ok::<bool, SnapcastError>(b),
                None => r matches Err(SnapcastError::ClientNotFound(id)) && id@ == client_id@,
            },
    {
        match find_reading(status, client_id, &VolumeField::Muted) {
            Some(entry) => match entry.as_bool() {
                Some(b) => Ok(b),
                None => Err(SnapcastError::ClientNotFound(String::from_str(client_id))),
            },
            None => Err(SnapcastError::ClientNotFound(String::from_str(client_id))),
        }
    }

    /// Number of clients over all groups of a `Server.GetStatus` result.
    pub fn get_client_count(status: &JsonValue) -> (count: usize)
        requires
            status_clients(*status).len() <= usize::MAX,
        ensures
            count == status_clients(*status).len(),
    {
        let mut count: usize = 0;
        match groups_of(status) {
            Some(groups) => {
                let mut i: usize = 0;
                assert(groups@.take(0) =~= Seq::<JsonValue>::empty());
                while i < groups.len()
                    invariant
                        i <= groups.len(),
                        groups@ == status_groups(*status),
                        clients_of(groups@).len() <= usize::MAX,
                        count == clients_of(groups@.take(i as int)).len(),
                    decreases groups.len() - i,
                {
                    proof {
                        lemma_clients_of_step(groups@, i as int);
                        lemma_clients_of_prefix_len(groups@, i + 1);
                    }
                    match clients_in(&groups[i]) {
                        Some(clients) => {
                            count += clients.len();
                        },
                        None => {},
                    }
                    i += 1;
                }
                assert(groups@.take(groups.len() as int) =~= groups@);
            },
            None => {},
        }
        count
    }

    /// The string ids of all clients of a `Server.GetStatus` result, in order.
    pub fn get_client_ids(status: &JsonValue) -> (ids: Vec<String>)
        ensures
            texts(ids@) == client_ids(status_clients(*status)),
    {
        let mut ids: Vec<String> = Vec::new();
        match groups_of(status) {
            Some(groups) => {
                let mut i: usize = 0;
                assert(groups@.take(0) =~= Seq::<JsonValue>::empty());
                while i < groups.len()
                    invariant
                        i <= groups.len(),
                        groups@ == status_groups(*status),
                        texts(ids@) == client_ids(clients_of(groups@.take(i as int))),
                    decreases groups.len() - i,
                {
                    proof {
                        lemma_clients_of_step(groups@, i as int);
                    }
                    let ghost done = clients_of(groups@.take(i as int));
                    match clients_in(&groups[i]) {
                        Some(clients) => {
                            let mut j: usize = 0;
                            assert(done + clients@.take(0) =~= done);
                            while j < clients.len()
                                invariant
                                    j <= clients.len(),
                                    texts(ids@) == client_ids(done + clients@.take(j as int)),
                                decreases clients.len() - j,
                            {
                                let ghost before = done + clients@.take(j as int);
                                let ghost after = done + clients@.take(j + 1);
                                assert(after.drop_last() =~= before);
                                assert(after.last() == clients@[j as int]);
                                match id_of(&clients[j]) {
                                    Some(id) => {
                                        ids.push(id.clone());
                                    },
                                    None => {},
                                }
                                assert(texts(ids@) =~= client_ids(after));
                                j += 1;
                            }
                            assert(done + clients@.take(clients.len() as int) =~= done + clients@);
                        },
                        None => {
                            assert(done + Seq::<JsonValue>::empty() =~= done);
                        },
                    }
                    i += 1;
                }
                assert(groups@.take(groups.len() as int) =~= groups@);
            },
            None => {
                assert(texts(ids@) =~= Seq::<Seq<char>>::empty());
            },
        }
        ids
    }
}

} // verus!
