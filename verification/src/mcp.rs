//! Servers that an agent may call, and their secrets: what is shown, what is
//! sent back, and what is accepted.

use crate::error::{plain, refused, ApiError, ErrorView, Status};
use crate::json::{copy_json, field_from, lemma_field_at, opt_json, opt_text, Json, JsonView};
use crate::order::contains;
use crate::text::{blank, opt_view, same, trim, trimmed, views};
use vstd::prelude::*;

verus! {

// ---------------------------------------------------------------------------
// Hiding secrets
// ---------------------------------------------------------------------------

/// Fields of an object.
pub type Fields = Seq<(Seq<char>, JsonView)>;

/// The secrets of a server with every value hidden.
pub open spec fn hidden_secrets(secrets: JsonView, marker: Seq<char>) -> JsonView {
    match secrets {
        JsonView::Object(fields) => JsonView::Object(
            Seq::new(fields.len(), |i: int| (fields[i].0, JsonView::Text(marker))),
        ),
        other => other,
    }
}

/// A server with its secrets hidden.
pub open spec fn hidden_server(server: JsonView, marker: Seq<char>) -> JsonView {
    match server {
        JsonView::Object(fields) => JsonView::Object(
            Seq::new(
                fields.len(),
                |i: int|
                    if fields[i].0 == "secrets"@ {
                        (fields[i].0, hidden_secrets(fields[i].1, marker))
                    } else {
                        fields[i]
                    },
            ),
        ),
        other => other,
    }
}

/// Servers with their secrets hidden; what is no list shows no server.
pub open spec fn redacted(servers: JsonView, marker: Seq<char>) -> JsonView {
    match servers {
        JsonView::List(items) => JsonView::List(
            Seq::new(items.len(), |i: int| hidden_server(items[i], marker)),
        ),
        _ => JsonView::List(seq![]),
    }
}

fn text_value(text: &str) -> (r: Json)
    ensures
        r@ == JsonView::Text(text@),
{
    Json::Text(text.to_owned())
}

fn hide_secrets(secrets: &Json, marker: &str) -> (r: Json)
    ensures
        r@ == hidden_secrets(secrets@, marker@),
{
    match secrets {
        Json::Object(fields) => {
            let mut out: Vec<(String, Json)> = Vec::new();
            let mut i: usize = 0;
            while i < fields.len()
                invariant
                    i <= fields@.len(),
                    i == out@.len(),
                    *secrets == Json::Object(*fields),
                    forall|k: int|
                        0 <= k < i ==> (#[trigger] out@[k]).0@ == fields@[k].0@ && out@[k].1@
                            == JsonView::Text(marker@),
                decreases fields@.len() - i,
            {
                out.push((fields[i].0.clone(), text_value(marker)));
                i = i + 1;
            }
            let r = Json::Object(out);
            assert(r@->Object_0 =~= hidden_secrets(secrets@, marker@)->Object_0);
            r
        },
        _ => copy_json(secrets),
    }
}

fn hide_server(server: &Json, marker: &str) -> (r: Json)
    ensures
        r@ == hidden_server(server@, marker@),
{
    match server {
        Json::Object(fields) => {
            let ghost all = server@->Object_0;
            let ghost wanted = hidden_server(server@, marker@)->Object_0;
            let mut out: Vec<(String, Json)> = Vec::new();
            let mut i: usize = 0;
            while i < fields.len()
                invariant
                    i <= fields@.len(),
                    i == out@.len(),
                    *server == Json::Object(*fields),
                    all == server@->Object_0,
                    all.len() == fields@.len(),
                    wanted == hidden_server(server@, marker@)->Object_0,
                    forall|k: int|
                        0 <= k < i ==> ((#[trigger] out@[k]).0@, out@[k].1@) == wanted[k],
                decreases fields@.len() - i,
            {
                assert(all[i as int] == (fields@[i as int].0@, fields@[i as int].1@));
                let key = fields[i].0.clone();
                let value = if same(key.as_str(), "secrets") {
                    hide_secrets(&fields[i].1, marker)
                } else {
                    copy_json(&fields[i].1)
                };
                out.push((key, value));
                i = i + 1;
            }
            let r = Json::Object(out);
            assert(r@->Object_0 =~= wanted);
            r
        },
        _ => copy_json(server),
    }
}

/// Servers with their secrets hidden behind the marker.
pub fn redact_mcp_secrets(value: &Json, marker: &str) -> (r: Json)
    ensures
        r@ == redacted(value@, marker@),
{
    match value {
        Json::List(items) => {
            let ghost all = value@->List_0;
            let mut out: Vec<Json> = Vec::new();
            let mut i: usize = 0;
            while i < items.len()
                invariant
                    i <= items@.len(),
                    i == out@.len(),
                    *value == Json::List(*items),
                    all == value@->List_0,
                    all.len() == items@.len(),
                    forall|k: int|
                        0 <= k < i ==> (#[trigger] out@[k])@ == hidden_server(all[k], marker@),
                decreases items@.len() - i,
            {
                assert(all[i as int] == items@[i as int]@);
                out.push(hide_server(&items[i], marker));
                i = i + 1;
            }
            let r = Json::List(out);
            assert(r@->List_0 =~= redacted(value@, marker@)->List_0);
            r
        },
        _ => {
            let r = Json::List(Vec::new());
            assert(r@->List_0 =~= seq![]);
            r
        },
    }
}

// ---------------------------------------------------------------------------
// Taking hidden secrets back
// ---------------------------------------------------------------------------

/// The secret that a server holds under a key, if it has this name.
pub open spec fn server_secret(server: JsonView, name: Seq<char>, key: Seq<char>) -> Option<
    Seq<char>,
> {
    if server.text_field("name"@) == Some(name) {
        match server.field("secrets"@) {
            Some(secrets) => secrets.text_field(key),
            None => None,
        }
    } else {
        None
    }
}

/// The first secret under a key of a server with this name, from `from` on.
pub open spec fn secret_from(
    servers: Seq<JsonView>,
    name: Seq<char>,
    key: Seq<char>,
    from: int,
) -> Option<Seq<char>>
    decreases servers.len() - from,
{
    if from >= servers.len() {
        None
    } else if server_secret(servers[from], name, key) is Some {
        server_secret(servers[from], name, key)
    } else {
        secret_from(servers, name, key, from + 1)
    }
}

/// The stored secret of a server under a key.
pub open spec fn stored_secret(existing: JsonView, name: Option<Seq<char>>, key: Seq<char>) -> Option<
    Seq<char>,
> {
    match (name, existing.items()) {
        (Some(n), Some(servers)) => secret_from(servers, n, key, 0),
        _ => None,
    }
}

fn find_server_secret<'a>(server: &'a Json, name: &str, key: &str) -> (r: Option<&'a str>)
    ensures
        opt_text(r) == server_secret(server@, name@, key@),
{
    let named = match server.text_field("name") {
        Some(n) => same(n, name),
        None => false,
    };
    if !named {
        return None;
    }
    match server.get("secrets") {
        Some(secrets) => secrets.text_field(key),
        None => None,
    }
}

/// The stored secret of a server under a key.
pub fn existing_mcp_secret<'a>(existing: &'a Json, server_name: Option<&str>, key: &str) -> (r:
    Option<&'a str>)
    ensures
        opt_text(r) == stored_secret(existing@, opt_text(server_name), key@),
{
    let name = match server_name {
        Some(name) => name,
        None => {
            return None;
        },
    };
    match existing {
        Json::List(servers) => {
            let ghost all = existing@->List_0;
            let mut i: usize = 0;
            while i < servers.len()
                invariant
                    i <= servers@.len(),
                    opt_text(server_name) == Some(name@),
                    *existing == Json::List(*servers),
                    all == existing@->List_0,
                    all.len() == servers@.len(),
                    secret_from(all, name@, key@, 0) == secret_from(all, name@, key@, i as int),
                decreases servers@.len() - i,
            {
                assert(all[i as int] == servers@[i as int]@);
                match find_server_secret(&servers[i], name, key) {
                    Some(secret) => {
                        return Some(secret);
                    },
                    None => {},
                }
                i = i + 1;
            }
            None
        },
        _ => None,
    }
}

/// A value that is the marker stands for the stored secret, where there is
/// one.
pub open spec fn restored_value(
    existing: JsonView,
    name: Option<Seq<char>>,
    key: Seq<char>,
    value: JsonView,
    marker: Seq<char>,
) -> JsonView {
    if value.text() == Some(marker) && stored_secret(existing, name, key) is Some {
        JsonView::Text(stored_secret(existing, name, key)->0)
    } else {
        value
    }
}

/// The secrets of a server with stored ones taken back.
pub open spec fn restored_secrets(
    existing: JsonView,
    name: Option<Seq<char>>,
    secrets: JsonView,
    marker: Seq<char>,
) -> JsonView {
    match secrets {
        JsonView::Object(fields) => JsonView::Object(
            Seq::new(
                fields.len(),
                |i: int|
                    (
                        fields[i].0,
                        restored_value(existing, name, fields[i].0, fields[i].1, marker),
                    ),
            ),
        ),
        other => other,
    }
}

/// A server with stored secrets taken back.
pub open spec fn restored_server(existing: JsonView, server: JsonView, marker: Seq<char>) -> JsonView {
    let name = server.text_field("name"@);
    match server {
        JsonView::Object(fields) => JsonView::Object(
            Seq::new(
                fields.len(),
                |i: int|
                    if fields[i].0 == "secrets"@ {
                        (fields[i].0, restored_secrets(existing, name, fields[i].1, marker))
                    } else {
                        fields[i]
                    },
            ),
        ),
        other => other,
    }
}

/// Servers with stored secrets taken back.
pub open spec fn merged(existing: JsonView, incoming: JsonView, marker: Seq<char>) -> JsonView {
    match incoming {
        JsonView::List(items) => JsonView::List(
            Seq::new(items.len(), |i: int| restored_server(existing, items[i], marker)),
        ),
        other => other,
    }
}

fn restore_value(
    existing: &Json,
    name: Option<&str>,
    key: &str,
    value: &Json,
    marker: &str,
) -> (r: Json)
    ensures
        r@ == restored_value(existing@, opt_text(name), key@, value@, marker@),
{
    let hidden = match value.as_str() {
        Some(text) => same(text, marker),
        None => false,
    };
    if hidden {
        match existing_mcp_secret(existing, name, key) {
            Some(secret) => {
                return text_value(secret);
            },
            None => {},
        }
    }
    copy_json(value)
}

fn restore_secrets(existing: &Json, name: Option<&str>, secrets: &Json, marker: &str) -> (r: Json)
    ensures
        r@ == restored_secrets(existing@, opt_text(name), secrets@, marker@),
{
    match secrets {
        Json::Object(fields) => {
            let ghost all = secrets@->Object_0;
            let ghost wanted = restored_secrets(
                existing@,
                opt_text(name),
                secrets@,
                marker@,
            )->Object_0;
            let mut out: Vec<(String, Json)> = Vec::new();
            let mut i: usize = 0;
            while i < fields.len()
                invariant
                    i <= fields@.len(),
                    i == out@.len(),
                    *secrets == Json::Object(*fields),
                    all == secrets@->Object_0,
                    all.len() == fields@.len(),
                    wanted == restored_secrets(
                        existing@,
                        opt_text(name),
                        secrets@,
                        marker@,
                    )->Object_0,
                    forall|k: int|
                        0 <= k < i ==> ((#[trigger] out@[k]).0@, out@[k].1@) == wanted[k],
                decreases fields@.len() - i,
            {
                assert(all[i as int] == (fields@[i as int].0@, fields@[i as int].1@));
                let key = fields[i].0.clone();
                let value = restore_value(existing, name, key.as_str(), &fields[i].1, marker);
                out.push((key, value));
                i = i + 1;
            }
            let r = Json::Object(out);
            assert(r@->Object_0 =~= wanted);
            r
        },
        _ => copy_json(secrets),
    }
}

fn restore_server(existing: &Json, server: &Json, marker: &str) -> (r: Json)
    ensures
        r@ == restored_server(existing@, server@, marker@),
{
    let name = server.text_field("name");
    match server {
        Json::Object(fields) => {
            let ghost all = server@->Object_0;
            let ghost wanted = restored_server(existing@, server@, marker@)->Object_0;
            let mut out: Vec<(String, Json)> = Vec::new();
            let mut i: usize = 0;
            while i < fields.len()
                invariant
                    i <= fields@.len(),
                    i == out@.len(),
                    opt_text(name) == server@.text_field("name"@),
                    *server == Json::Object(*fields),
                    all == server@->Object_0,
                    all.len() == fields@.len(),
                    wanted == restored_server(existing@, server@, marker@)->Object_0,
                    forall|k: int|
                        0 <= k < i ==> ((#[trigger] out@[k]).0@, out@[k].1@) == wanted[k],
                decreases fields@.len() - i,
            {
                assert(all[i as int] == (fields@[i as int].0@, fields@[i as int].1@));
                let key = fields[i].0.clone();
                let value = if same(key.as_str(), "secrets") {
                    restore_secrets(existing, name, &fields[i].1, marker)
                } else {
                    copy_json(&fields[i].1)
                };
                out.push((key, value));
                i = i + 1;
            }
            let r = Json::Object(out);
            assert(r@->Object_0 =~= wanted);
            r
        },
        _ => copy_json(server),
    }
}

/// The servers of a request, with every secret that is still hidden taken
/// from the stored servers.
pub fn merge_mcp_secrets(existing: &Json, incoming: &Json, marker: &str) -> (r: Json)
    ensures
        r@ == merged(existing@, incoming@, marker@),
{
    match incoming {
        Json::List(items) => {
            let ghost all = incoming@->List_0;
            let mut out: Vec<Json> = Vec::new();
            let mut i: usize = 0;
            while i < items.len()
                invariant
                    i <= items@.len(),
                    i == out@.len(),
                    *incoming == Json::List(*items),
                    all == incoming@->List_0,
                    all.len() == items@.len(),
                    forall|k: int|
                        0 <= k < i ==> (#[trigger] out@[k])@ == restored_server(
                            existing@,
                            all[k],
                            marker@,
                        ),
                decreases items@.len() - i,
            {
                assert(all[i as int] == items@[i as int]@);
                out.push(restore_server(existing, &items[i], marker));
                i = i + 1;
            }
            let r = Json::List(out);
            assert(r@->List_0 =~= merged(existing@, incoming@, marker@)->List_0);
            r
        },
        _ => copy_json(incoming),
    }
}

// ---------------------------------------------------------------------------
// Accepting servers
// ---------------------------------------------------------------------------

/// A key that an entry of the list may have.
pub open spec fn server_key(key: Seq<char>) -> bool {
    key == "name"@ || key == "command"@ || key == "args"@ || key == "secrets"@
}

/// A text that is there and not empty.
pub open spec fn nonempty_text(value: JsonView) -> bool {
    value.text() is Some && value.text()->0.len() > 0
}

/// What is wrong with the arguments of a server, if anything.
pub open spec fn args_error(args: Option<JsonView>) -> Option<Seq<char>> {
    match args {
        None => None,
        Some(JsonView::List(items)) => if exists|i: int|
            0 <= i < items.len() && (#[trigger] items[i]).text() is None {
            Some("MCP args must be strings"@)
        } else {
            None
        },
        Some(_) => Some("MCP args must be a JSON array"@),
    }
}

/// What is wrong with the secrets of a server from `from` on, if anything.
pub open spec fn secret_values_error(fields: Fields, marker: Seq<char>, from: int) -> Option<
    Seq<char>,
>
    decreases fields.len() - from,
{
    if from >= fields.len() {
        None
    } else {
        match fields[from].1.text() {
            None => Some("MCP secret values must be strings"@),
            Some(value) => if value == marker {
                Some("MCP redacted secret cannot be saved without an existing value"@)
            } else {
                secret_values_error(fields, marker, from + 1)
            },
        }
    }
}

/// What is wrong with the secrets of a server, if anything.
pub open spec fn secrets_error(secrets: Option<JsonView>, marker: Seq<char>) -> Option<Seq<char>> {
    match secrets {
        None => None,
        Some(JsonView::Object(fields)) => secret_values_error(fields, marker, 0),
        Some(_) => Some("MCP secrets must be a JSON object"@),
    }
}

/// The name of a server.
pub open spec fn server_name(server: JsonView) -> Option<Seq<char>> {
    match server.text_field("name"@) {
        Some(name) => if blank(name) {
            None
        } else {
            Some(trimmed(name))
        },
        None => None,
    }
}

/// A server before the `n`th has this name.
pub open spec fn name_taken(servers: Seq<JsonView>, n: int, name: Seq<char>) -> bool {
    exists|k: int| 0 <= k < n && server_name(#[trigger] servers[k]) == Some(name)
}

/// What is wrong with the server at `i`, if anything.
pub open spec fn server_error(servers: Seq<JsonView>, marker: Seq<char>, i: int) -> Option<
    Seq<char>,
> {
    match servers[i] {
        JsonView::Object(fields) => if exists|k: int|
            0 <= k < fields.len() && !server_key((#[trigger] fields[k]).0) {
            Some("MCP entries only support name, command, args, and secrets"@)
        } else if server_name(servers[i]) is None {
            Some("MCP name is required"@)
        } else if name_taken(servers, i, server_name(servers[i])->0) {
            Some("MCP names must be unique"@)
        } else if servers[i].field("command"@) is Some && !nonempty_text(
            servers[i].field("command"@)->0,
        ) {
            Some("MCP command must be a string"@)
        } else if args_error(servers[i].field("args"@)) is Some {
            args_error(servers[i].field("args"@))
        } else {
            secrets_error(servers[i].field("secrets"@), marker)
        },
        _ => Some("MCP entries must be JSON objects"@),
    }
}

/// The first thing that is wrong with the servers from `from` on.
pub open spec fn servers_error(servers: Seq<JsonView>, marker: Seq<char>, from: int) -> Option<
    Seq<char>,
>
    decreases servers.len() - from,
{
    if from >= servers.len() {
        None
    } else if server_error(servers, marker, from) is Some {
        server_error(servers, marker, from)
    } else {
        servers_error(servers, marker, from + 1)
    }
}

/// Servers are a list of named entries, with strings where strings belong and
/// no secret that is still hidden.
pub open spec fn servers_validity(servers: JsonView, marker: Seq<char>) -> Result<(), ErrorView> {
    match servers.items() {
        None => refused(Status::BadRequest, "MCP allowlist must be a JSON array"@),
        Some(items) => match servers_error(items, marker, 0) {
            Some(message) => refused(Status::BadRequest, message),
            None => Ok(()),
        },
    }
}

fn has_foreign_key(fields: &Vec<(String, Json)>) -> (r: bool)
    ensures
        r == exists|k: int| 0 <= k < fields@.len() && !server_key((#[trigger] fields@[k]).0@),
{
    let mut i: usize = 0;
    while i < fields.len()
        invariant
            i <= fields@.len(),
            forall|k: int| 0 <= k < i ==> server_key((#[trigger] fields@[k]).0@),
        decreases fields@.len() - i,
    {
        let key = fields[i].0.as_str();
        if !(same(key, "name") || same(key, "command") || same(key, "args") || same(
            key,
            "secrets",
        )) {
            assert(!server_key(fields@[i as int].0@));
            return true;
        }
        i = i + 1;
    }
    false
}

fn read_server_name(server: &Json) -> (r: Option<String>)
    ensures
        opt_view(r) == server_name(server@),
{
    match server.text_field("name") {
        Some(name) => {
            let t = trim(name);
            if t.as_str().is_empty() {
                None
            } else {
                Some(t)
            }
        },
        None => None,
    }
}

fn find_args_error(args: Option<&Json>) -> (r: Option<&'static str>)
    ensures
        opt_text(r) == args_error(opt_json(args)),
{
    match args {
        None => None,
        Some(json) => match json {
            Json::List(items) => {
                let ghost all = json@->List_0;
                let mut i: usize = 0;
                while i < items.len()
                    invariant
                        i <= items@.len(),
                        opt_json(args) == Some(json@),
                        *json == Json::List(*items),
                        all == json@->List_0,
                        all.len() == items@.len(),
                        forall|k: int| 0 <= k < i ==> (#[trigger] all[k]).text() is Some,
                    decreases items@.len() - i,
                {
                    assert(all[i as int] == items@[i as int]@);
                    if items[i].as_str().is_none() {
                        assert(all[i as int].text() is None);
                        return Some("MCP args must be strings");
                    }
                    i = i + 1;
                }
                None
            },
            _ => Some("MCP args must be a JSON array"),
        },
    }
}

fn find_secrets_error(secrets: Option<&Json>, marker: &str) -> (r: Option<&'static str>)
    ensures
        opt_text(r) == secrets_error(opt_json(secrets), marker@),
{
    match secrets {
        None => None,
        Some(json) => match json {
            Json::Object(fields) => {
                let ghost all = json@->Object_0;
                let mut i: usize = 0;
                while i < fields.len()
                    invariant
                        i <= fields@.len(),
                        opt_json(secrets) == Some(json@),
                        *json == Json::Object(*fields),
                        all == json@->Object_0,
                        all.len() == fields@.len(),
                        secret_values_error(all, marker@, 0) == secret_values_error(
                            all,
                            marker@,
                            i as int,
                        ),
                    decreases fields@.len() - i,
                {
                    assert(all[i as int] == (fields@[i as int].0@, fields@[i as int].1@));
                    match fields[i].1.as_str() {
                        None => {
                            return Some("MCP secret values must be strings");
                        },
                        Some(value) => {
                            if same(value, marker) {
                                return Some(
                                    "MCP redacted secret cannot be saved without an existing value",
                                );
                            }
                        },
                    }
                    i = i + 1;
                }
                None
            },
            _ => Some("MCP secrets must be a JSON object"),
        },
    }
}

fn find_server_error(server: &Json, names: &Vec<String>, marker: &str, Ghost(servers): Ghost<
    Seq<JsonView>,
>, Ghost(i): Ghost<int>) -> (r: Option<&'static str>)
    requires
        0 <= i < servers.len(),
        servers[i] == server@,
        forall|n: Seq<char>| #[trigger] views(names@).contains(n) <==> name_taken(servers, i, n),
    ensures
        opt_text(r) == server_error(servers, marker@, i),
{
    match server {
        Json::Object(fields) => {
            let ghost all = server@->Object_0;
            assert(all.len() == fields@.len());
            assert forall|k: int| 0 <= k < fields@.len() implies (#[trigger] all[k]).0
                == fields@[k].0@ by {}
            if has_foreign_key(fields) {
                proof {
                    let k = choose|k: int|
                        0 <= k < fields@.len() && !server_key((#[trigger] fields@[k]).0@);
                    assert(!server_key(all[k].0));
                }
                return Some("MCP entries only support name, command, args, and secrets");
            }
            proof {
                assert forall|k: int| 0 <= k < all.len() implies server_key(
                    (#[trigger] all[k]).0,
                ) by {
                    assert(server_key(fields@[k].0@));
                }
            }
            let name = match read_server_name(server) {
                Some(name) => name,
                None => {
                    return Some("MCP name is required");
                },
            };
            if contains(names, name.as_str()) {
                return Some("MCP names must be unique");
            }
            match server.get("command") {
                Some(command) => {
                    let good = match command.as_str() {
                        Some(text) => !text.is_empty(),
                        None => false,
                    };
                    if !good {
                        return Some("MCP command must be a string");
                    }
                },
                None => {},
            }
            match find_args_error(server.get("args")) {
                Some(message) => Some(message),
                None => find_secrets_error(server.get("secrets"), marker),
            }
        },
        _ => Some("MCP entries must be JSON objects"),
    }
}

/// Accepts the servers of an agent, or says what is wrong with them.
pub fn validate_mcp_servers(value: &Json, marker: &str) -> (r: Result<(), ApiError>)
    ensures
        plain(r) == servers_validity(value@, marker@),
{
    match value {
        Json::List(items) => {
            let ghost all = value@->List_0;
            let mut names: Vec<String> = Vec::new();
            let mut i: usize = 0;
            while i < items.len()
                invariant
                    i <= items@.len(),
                    *value == Json::List(*items),
                    all == value@->List_0,
                    all.len() == items@.len(),
                    servers_error(all, marker@, 0) == servers_error(all, marker@, i as int),
                    forall|n: Seq<char>| #[trigger]
                        views(names@).contains(n) <==> name_taken(all, i as int, n),
                decreases items@.len() - i,
            {
                assert(all[i as int] == items@[i as int]@);
                match find_server_error(&items[i], &names, marker, Ghost(all), Ghost(i as int)) {
                    Some(message) => {
                        return Err(ApiError::bad_request(message));
                    },
                    None => {},
                }
                let ghost before = views(names@);
                match read_server_name(&items[i]) {
                    Some(name) => {
                        names.push(name);
                        proof {
                            let after = views(names@);
                            assert(after =~= before.push(name@));
                            assert forall|n: Seq<char>| #[trigger]
                                after.contains(n) <==> name_taken(all, i + 1, n) by {
                                if before.contains(n) {
                                    let k = choose|k: int|
                                        0 <= k < i && server_name(#[trigger] all[k]) == Some(n);
                                    assert(0 <= k < i + 1);
                                    let m = choose|m: int|
                                        0 <= m < before.len() && before[m] == n;
                                    assert(after[m] == n);
                                }
                                if n == name@ {
                                    assert(after[after.len() - 1] == n);
                                    assert(server_name(all[i as int]) == Some(n));
                                }
                                if name_taken(all, i + 1, n) {
                                    let k = choose|k: int|
                                        0 <= k < i + 1 && server_name(#[trigger] all[k]) == Some(
                                            n,
                                        );
                                    if k < i {
                                        assert(name_taken(all, i as int, n));
                                    }
                                }
                                if after.contains(n) {
                                    let m = choose|m: int| 0 <= m < after.len() && after[m] == n;
                                    if m < before.len() {
                                        assert(before[m] == n);
                                    }
                                }
                            }
                        }
                    },
                    None => {},
                }
                i = i + 1;
            }
            Ok(())
        },
        _ => Err(ApiError::bad_request("MCP allowlist must be a JSON array")),
    }
}

// ---------------------------------------------------------------------------
// Laws
// ---------------------------------------------------------------------------

/// No field of an object repeats the key of another.
pub open spec fn distinct_keys(fields: Fields) -> bool {
    forall|i: int, j: int|
        0 <= i < j < fields.len() ==> (#[trigger] fields[i]).0 != (#[trigger] fields[j]).0
}

/// A server whose secrets can be found again: strings, under the name of the
/// server. One without secrets may be anything.
pub open spec fn stored_server(server: JsonView) -> bool {
    match server {
        JsonView::Object(fields) => distinct_keys(fields) && match server.field("secrets"@) {
            Some(JsonView::Object(secrets)) => {
                &&& distinct_keys(secrets)
                &&& secrets.len() > 0 ==> server.text_field("name"@) is Some
                &&& forall|i: int| 0 <= i < secrets.len() ==> (#[trigger] secrets[i]).1 is Text
            },
            _ => true,
        },
        _ => true,
    }
}

/// Servers whose secrets can be found again: no two have one name.
pub open spec fn stored_servers(servers: Seq<JsonView>) -> bool {
    &&& forall|i: int| 0 <= i < servers.len() ==> stored_server(#[trigger] servers[i])
    &&& forall|i: int, j: int|
        0 <= i < j < servers.len() && (#[trigger] servers[i]).text_field("name"@) is Some ==> servers[i].text_field(
            "name"@,
        ) != (#[trigger] servers[j]).text_field("name"@)
}

proof fn lemma_hidden_field(server: JsonView, marker: Seq<char>, key: Seq<char>, from: int)
    requires
        server is Object,
        0 <= from <= server->Object_0.len(),
        key != "secrets"@,
    ensures
        field_from(hidden_server(server, marker)->Object_0, key, from) == field_from(
            server->Object_0,
            key,
            from,
        ),
    decreases server->Object_0.len() - from,
{
    let fields = server->Object_0;
    if from < fields.len() && fields[from].0 != key {
        lemma_hidden_field(server, marker, key, from + 1);
    }
}

/// Hiding the secrets does not change the name of a server.
proof fn lemma_hidden_name(server: JsonView, marker: Seq<char>)
    ensures
        hidden_server(server, marker).text_field("name"@) == server.text_field("name"@),
{
    reveal_strlit("name");
    reveal_strlit("secrets");
    assert("name"@.len() == 4 && "secrets"@.len() == 7);
    if server is Object {
        lemma_hidden_field(server, marker, "name"@, 0);
    }
}

proof fn lemma_own_secret(
    servers: Seq<JsonView>,
    at: int,
    from: int,
    key: Seq<char>,
)
    requires
        stored_servers(servers),
        0 <= from <= at < servers.len(),
        servers[at].text_field("name"@) is Some,
        server_secret(servers[at], servers[at].text_field("name"@)->0, key) is Some,
    ensures
        secret_from(servers, servers[at].text_field("name"@)->0, key, from) == server_secret(
            servers[at],
            servers[at].text_field("name"@)->0,
            key,
        ),
    decreases at - from,
{
    let name = servers[at].text_field("name"@)->0;
    assert(stored_server(servers[at]));
    if from < at {
        assert(stored_server(servers[from]));
        assert(servers[from].text_field("name"@) != servers[at].text_field("name"@));
        lemma_own_secret(servers, at, from + 1, key);
    }
}

/// What is shown of servers, each with a name of its own, can be sent back
/// unchanged without losing a secret: every hidden secret is taken from the stored server of that name.
pub proof fn shown_servers_can_be_sent_back(servers: Seq<JsonView>, marker: Seq<char>)
    requires
        stored_servers(servers),
    ensures
        merged(
            JsonView::List(servers),
            redacted(JsonView::List(servers), marker),
            marker,
        ) == JsonView::List(servers),
{
    let existing = JsonView::List(servers);
    let shown = redacted(existing, marker)->List_0;
    let back = merged(existing, redacted(existing, marker), marker)->List_0;
    assert forall|i: int| 0 <= i < servers.len() implies back[i] == servers[i] by {
        assert(stored_server(servers[i]));
        let server = servers[i];
        let fields = server->Object_0;
        let name = server.text_field("name"@);
        lemma_hidden_name(server, marker);
        assert(shown[i] == hidden_server(server, marker));
        assert(back[i] == restored_server(existing, shown[i], marker));
        let restored = back[i]->Object_0;
        assert forall|j: int| server is Object && 0 <= j < fields.len() implies restored[j]
            == fields[j] by {
            if fields[j].0 == "secrets"@ && fields[j].1 is Object {
                lemma_field_at(fields, fields[j].0, 0, j);
                assert(server.field("secrets"@) == Some(fields[j].1));
                let secrets = fields[j].1->Object_0;
                let hidden = hidden_secrets(fields[j].1, marker)->Object_0;
                let again = restored_secrets(
                    existing,
                    name,
                    hidden_secrets(fields[j].1, marker),
                    marker,
                )->Object_0;
                assert forall|k: int| 0 <= k < secrets.len() implies again[k] == secrets[k] by {
                    assert(secrets[k].1 is Text);
                    lemma_field_at(secrets, secrets[k].0, 0, k);
                    let key = secrets[k].0;
                    assert(fields[j].1.text_field(key) == Some(secrets[k].1->Text_0));
                    assert(server_secret(server, name->0, key) == Some(secrets[k].1->Text_0));
                    lemma_own_secret(servers, i, 0, key);
                    assert(stored_secret(existing, name, key) == Some(secrets[k].1->Text_0));
                    assert(hidden[k] == (key, JsonView::Text(marker)));
                }
                assert(again =~= secrets);
            }
        }
        if server is Object {
            assert(restored =~= fields);
        }
    }
    assert(back =~= servers);
}

/// No secret is shown: whatever the secrets of a shown server hold is the
/// marker.
pub proof fn no_secret_is_shown(servers: JsonView, marker: Seq<char>, i: int, j: int, k: int)
    requires
        redacted(servers, marker) is List,
        0 <= i < redacted(servers, marker)->List_0.len(),
        redacted(servers, marker)->List_0[i] is Object,
        0 <= j < redacted(servers, marker)->List_0[i]->Object_0.len(),
        redacted(servers, marker)->List_0[i]->Object_0[j].0 == "secrets"@,
        redacted(servers, marker)->List_0[i]->Object_0[j].1 is Object,
        0 <= k < redacted(servers, marker)->List_0[i]->Object_0[j].1->Object_0.len(),
    ensures
        redacted(servers, marker)->List_0[i]->Object_0[j].1->Object_0[k].1 == JsonView::Text(
            marker,
        ),
{
}

proof fn lemma_no_server_error(servers: Seq<JsonView>, marker: Seq<char>, from: int, i: int)
    requires
        servers_error(servers, marker, from) is None,
        0 <= from <= i < servers.len(),
    ensures
        server_error(servers, marker, i) is None,
    decreases servers.len() - from,
{
    if from < i {
        lemma_no_server_error(servers, marker, from + 1, i);
    }
}

proof fn lemma_no_secret_error(fields: Fields, marker: Seq<char>, from: int, i: int)
    requires
        secret_values_error(fields, marker, from) is None,
        0 <= from <= i < fields.len(),
    ensures
        fields[i].1 is Text,
        fields[i].1 != JsonView::Text(marker),
    decreases fields.len() - from,
{
    if from < i {
        lemma_no_secret_error(fields, marker, from + 1, i);
    }
}

/// Servers that were accepted, in objects that repeat no key, are servers as
/// they are stored; so what is shown of them can be sent back.
pub proof fn accepted_servers_can_be_stored(servers: JsonView, marker: Seq<char>)
    requires
        servers_validity(servers, marker) is Ok,
        forall|i: int|
            0 <= i < servers->List_0.len() ==> match #[trigger] servers->List_0[i] {
                JsonView::Object(fields) => distinct_keys(fields) && match servers->List_0[i].field(
                    "secrets"@,
                ) {
                    Some(JsonView::Object(secrets)) => distinct_keys(secrets),
                    _ => true,
                },
                _ => true,
            },
    ensures
        servers is List,
        stored_servers(servers->List_0),
{
    let items = servers->List_0;
    assert forall|i: int| 0 <= i < items.len() implies stored_server(
        #[trigger] items[i],
    ) by {
        lemma_no_server_error(items, marker, 0, i);
        match items[i].field("secrets"@) {
            Some(JsonView::Object(secrets)) => {
                assert forall|k: int| 0 <= k < secrets.len() implies (#[trigger] secrets[k]).1
                    is Text by {
                    lemma_no_secret_error(secrets, marker, 0, k);
                }
            },
            _ => {},
        }
    }
    assert forall|i: int, j: int|
        0 <= i < j < items.len() && (#[trigger] items[i]).text_field("name"@) is Some implies items[i].text_field(
        "name"@,
    ) != (#[trigger] items[j]).text_field("name"@) by {
        lemma_no_server_error(items, marker, 0, j);
        lemma_no_server_error(items, marker, 0, i);
        if server_name(items[i]) == server_name(items[j]) {
            assert(name_taken(items, j, server_name(items[j])->0));
        }
    }
}

/// Servers are shown with everything but the values of their secrets: as many
/// as there are, in order, with the same keys.
pub proof fn servers_are_shown_but_for_their_secrets(
    items: Seq<JsonView>,
    marker: Seq<char>,
    value: JsonView,
    i: int,
    j: int,
)
    requires
        0 <= i < items.len(),
        items[i] is Object,
        0 <= j < items[i]->Object_0.len(),
    ensures
        !(value is List) ==> redacted(value, marker) == JsonView::List(seq![]),
        redacted(JsonView::List(items), marker) is List,
        redacted(JsonView::List(items), marker)->List_0.len() == items.len(),
        ({
            let shown = redacted(JsonView::List(items), marker)->List_0[i];
            &&& shown is Object
            &&& shown->Object_0.len() == items[i]->Object_0.len()
            &&& shown->Object_0[j].0 == items[i]->Object_0[j].0
            &&& items[i]->Object_0[j].0 != "secrets"@ ==> shown->Object_0[j]
                == items[i]->Object_0[j]
            &&& items[i]->Object_0[j].0 == "secrets"@ && items[i]->Object_0[j].1 is Object ==> {
                &&& shown->Object_0[j].1 is Object
                &&& shown->Object_0[j].1->Object_0.len() == items[i]->Object_0[j].1->Object_0.len()
                &&& forall|k: int|
                    0 <= k < shown->Object_0[j].1->Object_0.len() ==> (
                    #[trigger] shown->Object_0[j].1->Object_0[k]).0
                        == items[i]->Object_0[j].1->Object_0[k].0
            }
            &&& items[i]->Object_0[j].0 == "secrets"@ && !(items[i]->Object_0[j].1 is Object)
                ==> shown->Object_0[j] == items[i]->Object_0[j]
        }),
{
}

/// A secret that a request leaves hidden is the stored one of that server and
/// key; any other value is taken as it is.
pub proof fn hidden_secrets_are_restored(
    existing: JsonView,
    name: Option<Seq<char>>,
    key: Seq<char>,
    value: JsonView,
    marker: Seq<char>,
)
    ensures
        value.text() != Some(marker) ==> restored_value(existing, name, key, value, marker)
            == value,
        stored_secret(existing, name, key) is None ==> restored_value(
            existing,
            name,
            key,
            value,
            marker,
        ) == value,
        value.text() == Some(marker) && stored_secret(existing, name, key) is Some
            ==> restored_value(existing, name, key, value, marker) == JsonView::Text(
            stored_secret(existing, name, key)->0,
        ),
        name is None ==> stored_secret(existing, name, key) is None,
        !(existing is List) ==> stored_secret(existing, name, key) is None,
{
}

/// The secret of a server is the first that is stored under its name and key.
pub proof fn secrets_are_found_by_name_and_key(
    servers: Seq<JsonView>,
    name: Seq<char>,
    key: Seq<char>,
    from: int,
    i: int,
)
    requires
        0 <= from <= i < servers.len(),
        forall|k: int|
            from <= k < i ==> (#[trigger] servers[k]).text_field("name"@) != Some(name)
                || servers[k].field("secrets"@) is None || servers[k].field(
                "secrets"@,
            )->0.text_field(key) is None,
        servers[i].text_field("name"@) == Some(name),
        servers[i].field("secrets"@) is Some,
        servers[i].field("secrets"@)->0.text_field(key) is Some,
    ensures
        secret_from(servers, name, key, from) == servers[i].field("secrets"@)->0.text_field(key),
    decreases i - from,
{
    if from < i {
        assert(server_secret(servers[from], name, key) is None);
        secrets_are_found_by_name_and_key(servers, name, key, from + 1, i);
    }
}

/// Where no server of the name has the key, nothing is found.
pub proof fn other_secrets_are_not_found(
    servers: Seq<JsonView>,
    name: Seq<char>,
    key: Seq<char>,
    from: int,
)
    requires
        0 <= from <= servers.len(),
        forall|k: int|
            from <= k < servers.len() ==> (#[trigger] servers[k]).text_field("name"@) != Some(name)
                || servers[k].field("secrets"@) is None || servers[k].field(
                "secrets"@,
            )->0.text_field(key) is None,
    ensures
        secret_from(servers, name, key, from) is None,
    decreases servers.len() - from,
{
    if from < servers.len() {
        assert(server_secret(servers[from], name, key) is None);
        other_secrets_are_not_found(servers, name, key, from + 1);
    }
}

/// Merging changes nothing but the secrets that were left hidden.
pub proof fn merging_only_restores_secrets(
    existing: JsonView,
    items: Seq<JsonView>,
    marker: Seq<char>,
    value: JsonView,
    i: int,
    j: int,
)
    requires
        0 <= i < items.len(),
        items[i] is Object,
        0 <= j < items[i]->Object_0.len(),
    ensures
        !(value is List) ==> merged(existing, value, marker) == value,
        merged(existing, JsonView::List(items), marker) is List,
        merged(existing, JsonView::List(items), marker)->List_0.len() == items.len(),
        ({
            let given = items[i]->Object_0;
            let kept = merged(existing, JsonView::List(items), marker)->List_0[i];
            &&& kept is Object
            &&& kept->Object_0.len() == given.len()
            &&& kept->Object_0[j].0 == given[j].0
            &&& given[j].0 != "secrets"@ ==> kept->Object_0[j] == given[j]
            &&& given[j].0 == "secrets"@ && !(given[j].1 is Object) ==> kept->Object_0[j]
                == given[j]
            &&& given[j].0 == "secrets"@ && given[j].1 is Object ==> {
                &&& kept->Object_0[j].1 is Object
                &&& kept->Object_0[j].1->Object_0.len() == given[j].1->Object_0.len()
                &&& forall|k: int|
                    0 <= k < given[j].1->Object_0.len() ==> #[trigger] kept->Object_0[j].1->Object_0[k]
                        == (
                        given[j].1->Object_0[k].0,
                        restored_value(
                            existing,
                            items[i].text_field("name"@),
                            given[j].1->Object_0[k].0,
                            given[j].1->Object_0[k].1,
                            marker,
                        ),
                    )
            }
        }),
{
}

/// What a server must be to be accepted among the others.
pub open spec fn acceptable_server(server: JsonView, marker: Seq<char>) -> bool {
    &&& server is Object
    &&& forall|k: int|
        0 <= k < server->Object_0.len() ==> (#[trigger] server->Object_0[k]).0 == "name"@
            || server->Object_0[k].0 == "command"@ || server->Object_0[k].0 == "args"@
            || server->Object_0[k].0 == "secrets"@
    &&& server.text_field("name"@) is Some
    &&& !blank(server.text_field("name"@)->0)
    &&& server.field("command"@) is Some ==> server.field("command"@)->0.text() is Some
        && server.field("command"@)->0.text()->0.len() > 0
    &&& server.field("args"@) is Some ==> server.field("args"@)->0 is List && forall|k: int|
        0 <= k < server.field("args"@)->0->List_0.len() ==> (
        #[trigger] server.field("args"@)->0->List_0[k]).text() is Some
    &&& server.field("secrets"@) is Some ==> server.field("secrets"@)->0 is Object && forall|k: int|
        0 <= k < server.field("secrets"@)->0->Object_0.len() ==> (#[trigger] server.field(
            "secrets"@,
        )->0->Object_0[k]).1.text() is Some && server.field("secrets"@)->0->Object_0[k].1.text()->0
            != marker
}

proof fn lemma_secret_values(fields: Fields, marker: Seq<char>, from: int)
    requires
        0 <= from <= fields.len(),
    ensures
        secret_values_error(fields, marker, from) is None <==> forall|k: int|
            from <= k < fields.len() ==> (#[trigger] fields[k]).1.text() is Some
                && fields[k].1.text()->0 != marker,
    decreases fields.len() - from,
{
    if from < fields.len() {
        lemma_secret_values(fields, marker, from + 1);
        assert(fields[from].1.text() is Some || fields[from].1.text() is None);
    }
}

proof fn lemma_server(servers: Seq<JsonView>, marker: Seq<char>, i: int)
    ensures
        server_error(servers, marker, i) is None <==> acceptable_server(servers[i], marker)
            && !name_taken(servers, i, trimmed(servers[i].text_field("name"@)->0)),
{
    let server = servers[i];
    if server is Object {
        let fields = server->Object_0;
        if exists|k: int| 0 <= k < fields.len() && !server_key((#[trigger] fields[k]).0) {
            let k = choose|k: int| 0 <= k < fields.len() && !server_key((#[trigger] fields[k]).0);
            assert(!server_key(server->Object_0[k].0));
        } else {
            assert forall|k: int| 0 <= k < server->Object_0.len() implies (
            #[trigger] server->Object_0[k]).0 == "name"@ || server->Object_0[k].0 == "command"@
                || server->Object_0[k].0 == "args"@ || server->Object_0[k].0 == "secrets"@ by {
                assert(server_key(fields[k].0));
            }
        }
        if server.field("secrets"@) is Some && server.field("secrets"@)->0 is Object {
            lemma_secret_values(server.field("secrets"@)->0->Object_0, marker, 0);
        }
        if server.field("args"@) is Some && server.field("args"@)->0 is List {
            let items = server.field("args"@)->0->List_0;
            if exists|k: int| 0 <= k < items.len() && (#[trigger] items[k]).text() is None {
                let k = choose|k: int| 0 <= k < items.len() && (#[trigger] items[k]).text() is None;
                assert(server.field("args"@)->0->List_0[k].text() is None);
            }
        }
    }
}

proof fn lemma_servers(servers: Seq<JsonView>, marker: Seq<char>, from: int)
    requires
        0 <= from <= servers.len(),
    ensures
        servers_error(servers, marker, from) is None <==> forall|i: int|
            from <= i < servers.len() ==> #[trigger] server_error(servers, marker, i) is None,
    decreases servers.len() - from,
{
    if from < servers.len() {
        lemma_servers(servers, marker, from + 1);
        assert(server_error(servers, marker, from) is None || server_error(servers, marker, from)
            is Some);
    }
}

/// Servers are accepted where they are a list, each is acceptable, and no two
/// have one name.
pub proof fn servers_are_accepted_one_by_one(servers: JsonView, marker: Seq<char>)
    ensures
        servers_validity(servers, marker) is Ok <==> {
            &&& servers is List
            &&& forall|i: int|
                0 <= i < servers->List_0.len() ==> acceptable_server(
                    #[trigger] servers->List_0[i],
                    marker,
                )
            &&& forall|i: int, j: int|
                0 <= i < j < servers->List_0.len() ==> trimmed(
                    (#[trigger] servers->List_0[i]).text_field("name"@)->0,
                ) != trimmed((#[trigger] servers->List_0[j]).text_field("name"@)->0)
        },
        servers_validity(servers, marker) matches Err(e) ==> e.status == Status::BadRequest,
{
    if servers is List {
        let items = servers->List_0;
        lemma_servers(items, marker, 0);
        if servers_error(items, marker, 0) is None {
            assert forall|i: int| 0 <= i < items.len() implies acceptable_server(
                #[trigger] servers->List_0[i],
                marker,
            ) by {
                assert(server_error(items, marker, i) is None);
                lemma_server(items, marker, i);
            }
            assert forall|i: int, j: int| 0 <= i < j < items.len() implies trimmed(
                (#[trigger] servers->List_0[i]).text_field("name"@)->0,
            ) != trimmed((#[trigger] servers->List_0[j]).text_field("name"@)->0) by {
                assert(server_error(items, marker, j) is None);
                lemma_server(items, marker, j);
                assert(server_error(items, marker, i) is None);
                lemma_server(items, marker, i);
                assert(server_name(items[i]) == Some(
                    trimmed(items[i].text_field("name"@)->0),
                ));
            }
        }
        if (forall|i: int|
            0 <= i < items.len() ==> acceptable_server(#[trigger] servers->List_0[i], marker)) && (
        forall|i: int, j: int|
            0 <= i < j < items.len() ==> trimmed(
                (#[trigger] servers->List_0[i]).text_field("name"@)->0,
            ) != trimmed((#[trigger] servers->List_0[j]).text_field("name"@)->0)) {
            assert forall|i: int| 0 <= i < items.len() implies #[trigger] server_error(
                items,
                marker,
                i,
            ) is None by {
                assert(acceptable_server(servers->List_0[i], marker));
                lemma_server(items, marker, i);
                let name = trimmed(items[i].text_field("name"@)->0);
                if name_taken(items, i, name) {
                    let k = choose|k: int|
                        0 <= k < i && server_name(#[trigger] items[k]) == Some(name);
                    assert(servers->List_0[k] == items[k]);
                    assert(servers->List_0[i] == items[i]);
                }
            }
        }
    }
}

} // verus!
