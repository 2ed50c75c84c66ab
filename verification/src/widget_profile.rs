//! What a widget's host page says about its user: identifiers, names and
//! attributes, and the credentials it says it with.

use crate::account::{normalize_optional_email, optional_email};
use crate::digest::{base64_decode, base64_read, sha256_hex, text_digest};
use crate::error::{error_of, refused, seen, seen_option, ApiError, ErrorView, Status};
use crate::identity::{valid_external_username, valid_name, validate_external_username};
use crate::json::{json_text, json_text_of, Json, JsonView};
use crate::text::{
    any_control, blank, byte_count, byte_len, char_count, has_control, is_blank, join, opt_view,
    split_at_first, split_once, strip_prefix, trim, trimmed,
};
use vstd::prelude::*;
use vstd::utf8::{decode_utf8, valid_utf8};

verus! {

/// The text behind an optional string slice.
pub open spec fn opt_str(value: Option<&str>) -> Option<Seq<char>> {
    match value {
        Some(v) => Some(v@),
        None => None,
    }
}

// ---------------------------------------------------------------------------
// Identifiers
// ---------------------------------------------------------------------------

/// The key by which a client knows a message again: none when it is blank.
pub open spec fn client_message_key(value: Option<Seq<char>>) -> Result<
    Option<Seq<char>>,
    ErrorView,
> {
    match value {
        None => Ok(None),
        Some(v) => if blank(v) {
            Ok(None)
        } else if valid_name(trimmed(v)) {
            Ok(Some(trimmed(v)))
        } else {
            refused(Status::BadRequest, "valid client message key is required"@)
        },
    }
}

/// The key by which a client knows a message again.
pub fn normalize_client_message_key(value: Option<&str>) -> (r: Result<Option<String>, ApiError>)
    ensures
        seen_option(r) == client_message_key(opt_str(value)),
{
    match value {
        None => Ok(None),
        Some(v) => {
            let t = trim(v);
            if t.as_str().is_empty() {
                return Ok(None);
            }
            if byte_len(t.as_str()) > 128 || any_control(t.as_str()) {
                return Err(ApiError::bad_request("valid client message key is required"));
            }
            Ok(Some(t))
        },
    }
}

/// The tenant of an outside platform: `default` when none is named.
pub open spec fn origin_tenant(value: Option<Seq<char>>) -> Result<Seq<char>, ErrorView> {
    let tenant = match value {
        Some(v) => if blank(v) {
            "default"@
        } else {
            trimmed(v)
        },
        None => "default"@,
    };
    if valid_name(tenant) {
        Ok(tenant)
    } else {
        refused(Status::BadRequest, "valid external tenant id is required"@)
    }
}

/// The tenant of an outside platform: `default` when none is named.
pub fn normalize_origin_tenant(value: Option<&str>) -> (r: Result<String, ApiError>)
    ensures
        seen(r) == origin_tenant(opt_str(value)),
{
    let tenant = match value {
        Some(v) => {
            let t = trim(v);
            if t.as_str().is_empty() {
                "default".to_owned()
            } else {
                t
            }
        },
        None => "default".to_owned(),
    };
    if byte_len(tenant.as_str()) > 128 || any_control(tenant.as_str()) {
        return Err(ApiError::bad_request("valid external tenant id is required"));
    }
    Ok(tenant)
}

/// The tenant of an outside platform, which must be named.
pub open spec fn required_tenant(value: Option<Seq<char>>) -> Result<Seq<char>, ErrorView> {
    if value is None || blank(value->0) {
        refused(Status::BadRequest, "external tenant id is required"@)
    } else {
        origin_tenant(Some(trimmed(value->0)))
    }
}

/// The tenant of an outside platform, which must be named.
pub fn require_origin_tenant(value: Option<&str>) -> (r: Result<String, ApiError>)
    ensures
        seen(r) == required_tenant(opt_str(value)),
{
    match value {
        None => Err(ApiError::bad_request("external tenant id is required")),
        Some(v) => {
            let t = trim(v);
            if t.as_str().is_empty() {
                return Err(ApiError::bad_request("external tenant id is required"));
            }
            normalize_origin_tenant(Some(t.as_str()))
        },
    }
}

/// The identifier of a user on an outside platform.
pub open spec fn external_user_id(value: Seq<char>) -> Result<Seq<char>, ErrorView> {
    if !blank(value) && valid_name(trimmed(value)) {
        Ok(trimmed(value))
    } else {
        refused(Status::BadRequest, "valid external user id is required"@)
    }
}

/// The identifier of a user on an outside platform.
pub fn normalize_external_user_id(value: &str) -> (r: Result<String, ApiError>)
    ensures
        seen(r) == external_user_id(value@),
{
    let t = trim(value);
    if t.as_str().is_empty() || byte_len(t.as_str()) > 128 || any_control(t.as_str()) {
        return Err(ApiError::bad_request("valid external user id is required"));
    }
    Ok(t)
}

/// Identifiers that were accepted are accepted again as they stand.
pub proof fn identifiers_are_stable(value: Seq<char>)
    ensures
        client_message_key(Some(value)) matches Ok(Some(key)) ==> client_message_key(Some(key))
            == client_message_key(Some(value)),
        origin_tenant(Some(value)) matches Ok(tenant) ==> origin_tenant(Some(tenant))
            == origin_tenant(Some(value)),
        required_tenant(Some(value)) matches Ok(tenant) ==> required_tenant(Some(tenant))
            == required_tenant(Some(value)),
        external_user_id(value) matches Ok(id) ==> external_user_id(id) == external_user_id(value),
{
    crate::text::lemma_trimmed(value);
    crate::text::lemma_trimmed("default"@);
    reveal_strlit("default");
    assert(!crate::text::is_space('d') && !crate::text::is_space('t'));
}

/// The digest by which an anonymous visitor is known: of a key of 16 to 512
/// bytes without control characters.
pub open spec fn visitor_digest(visitor_key: Seq<char>) -> Result<Seq<char>, ErrorView> {
    let key = trimmed(visitor_key);
    if 16 <= byte_count(key) <= 512 && !has_control(key) {
        Ok(text_digest(key))
    } else {
        refused(Status::BadRequest, "public Widget visitor key is invalid"@)
    }
}

/// The digest by which an anonymous visitor is known.
pub fn visitor_key_hash(visitor_key: &str) -> (r: Result<String, ApiError>)
    ensures
        seen(r) == visitor_digest(visitor_key@),
{
    let key = trim(visitor_key);
    let n: usize = byte_len(key.as_str());
    if n < 16 || n > 512 || any_control(key.as_str()) {
        return Err(ApiError::bad_request("public Widget visitor key is invalid"));
    }
    Ok(sha256_hex(key.as_str()))
}

// ---------------------------------------------------------------------------
// Client credentials
// ---------------------------------------------------------------------------

/// The text that bytes spell in UTF-8.
pub open spec fn utf8_text(bytes: Seq<u8>) -> Option<Seq<char>> {
    if valid_utf8(bytes) {
        Some(decode_utf8(bytes))
    } else {
        None
    }
}

/// `String::from_utf8`: the text that the bytes spell, or nothing where they
/// are not valid UTF-8.
#[verifier::external_body]
fn text_of_utf8(bytes: Vec<u8>) -> (r: Option<String>)
    ensures
        opt_view(r) == utf8_text(bytes@),
{
    String::from_utf8(bytes).ok()
}

/// The client that basic credentials name, given the bytes they decode to.
pub open spec fn named_client(decoded: Option<Seq<u8>>) -> Result<
    (Seq<char>, Seq<char>),
    ErrorView,
> {
    let text = match decoded {
        Some(bytes) => utf8_text(bytes),
        None => None,
    };
    let parts = match text {
        Some(t) => split_at_first(t, ':'),
        None => None,
    };
    match parts {
        Some((client_id, secret)) => if blank(client_id) || byte_count(client_id) > 256
            || has_control(client_id) || secret.len() == 0 || byte_count(secret) > 1024 {
            refused(Status::Unauthorized, "invalid oauth client"@)
        } else {
            Ok((client_id, secret))
        },
        None => refused(Status::Unauthorized, "invalid oauth client"@),
    }
}

/// A pair of strings by their texts.
pub open spec fn pair_seen(r: Result<(String, String), ApiError>) -> Result<
    (Seq<char>, Seq<char>),
    ErrorView,
> {
    match r {
        Ok((a, b)) => Ok((a@, b@)),
        Err(e) => Err(e@),
    }
}

/// The client that basic credentials name, given the bytes they decode to: an
/// identifier and a secret around the first colon.
pub fn decoded_client_credentials(decoded: Option<Vec<u8>>) -> (r: Result<
    (String, String),
    ApiError,
>)
    ensures
        pair_seen(r) == named_client(
            match decoded {
                Some(bytes) => Some(bytes@),
                None => None,
            },
        ),
{
    let text = match decoded {
        Some(bytes) => text_of_utf8(bytes),
        None => None,
    };
    let parts = match text {
        Some(t) => split_once(t.as_str(), ':'),
        None => None,
    };
    match parts {
        Some((client_id, secret)) => {
            if is_blank(client_id.as_str()) || byte_len(client_id.as_str()) > 256 || any_control(
                client_id.as_str(),
            ) || secret.as_str().is_empty() || byte_len(secret.as_str()) > 1024 {
                return Err(ApiError::unauthorized("invalid oauth client"));
            }
            Ok((client_id, secret))
        },
        None => Err(ApiError::unauthorized("invalid oauth client")),
    }
}

/// The client that an authorization header names.
pub open spec fn basic_client(authorization: Option<Seq<char>>) -> Result<
    (Seq<char>, Seq<char>),
    ErrorView,
> {
    match authorization {
        Some(header) => if "Basic "@.is_prefix_of(header) {
            named_client(base64_read(header.skip("Basic "@.len() as int)))
        } else {
            refused(Status::Unauthorized, "invalid oauth client"@)
        },
        None => refused(Status::Unauthorized, "invalid oauth client"@),
    }
}

/// The client that an authorization header names: basic credentials in
/// base64.
pub fn widget_client_credentials(authorization: Option<&str>) -> (r: Result<
    (String, String),
    ApiError,
>)
    ensures
        pair_seen(r) == basic_client(opt_str(authorization)),
{
    let encoded = match authorization {
        Some(header) => strip_prefix(header, "Basic "),
        None => None,
    };
    match encoded {
        Some(text) => decoded_client_credentials(base64_decode(text.as_str())),
        None => Err(ApiError::unauthorized("invalid oauth client")),
    }
}

// ---------------------------------------------------------------------------
// Profiles
// ---------------------------------------------------------------------------

/// A text of a profile: none when it is blank, at most 256 characters.
pub open spec fn profile_text(value: Option<Seq<char>>, field: Seq<char>) -> Result<
    Option<Seq<char>>,
    ErrorView,
> {
    match value {
        None => Ok(None),
        Some(v) => if blank(v) {
            Ok(None)
        } else if trimmed(v).len() <= 256 && !has_control(trimmed(v)) {
            Ok(Some(trimmed(v)))
        } else {
            refused(Status::BadRequest, "valid external "@ + field + " is required"@)
        },
    }
}

/// A text of a profile.
pub fn normalize_widget_profile_text(value: Option<&str>, field: &str) -> (r: Result<
    Option<String>,
    ApiError,
>)
    ensures
        seen_option(r) == profile_text(opt_str(value), field@),
{
    match value {
        None => Ok(None),
        Some(v) => {
            let t = trim(v);
            if t.as_str().is_empty() {
                return Ok(None);
            }
            if char_count(t.as_str()) > 256 || any_control(t.as_str()) {
                let mut message = join("valid external ", field);
                message.append(" is required");
                return Err(ApiError::bad_request(message.as_str()));
            }
            Ok(Some(t))
        },
    }
}

/// How a walk through attributes ends: with the number of values seen, or with
/// a refusal and the number of values seen until then.
pub type Walk = Result<nat, (ErrorView, nat)>;

/// The refusal of attributes with this message, after so many values.
pub open spec fn attribute_refusal(message: Seq<char>, count: nat) -> Walk {
    Err((error_of(Status::BadRequest, message), count))
}

/// Walks a value that stands at `depth` after `count` others and counts it and
/// what is in it: at most five levels, 128 values in all, 32 in a list or
/// object, texts of at most 1024 characters, and keys of 1 to 128, none with
/// control characters.
pub open spec fn attribute_walk(value: JsonView, depth: nat, count: nat) -> Walk
    decreases value, 0int,
{
    if depth > 4 {
        attribute_refusal("external user attributes are nested too deeply"@, count)
    } else if count + 1 > 128 {
        attribute_refusal("external user attributes contain too many values"@, count + 1)
    } else {
        match value {
            JsonView::Text(text) => if text.len() > 1024 || has_control(text) {
                attribute_refusal("external user attribute text is invalid"@, count + 1)
            } else {
                Ok(count + 1)
            },
            JsonView::List(items) => if items.len() > 32 {
                attribute_refusal("external user attributes contain too many values"@, count + 1)
            } else {
                item_walk(items, 0, depth + 1, count + 1)
            },
            JsonView::Object(fields) => if fields.len() > 32 {
                attribute_refusal("external user attributes contain too many values"@, count + 1)
            } else {
                field_walk(fields, 0, depth + 1, count + 1)
            },
            _ => Ok(count + 1),
        }
    }
}

/// Walks the items from `from` on.
pub open spec fn item_walk(items: Seq<JsonView>, from: int, depth: nat, count: nat) -> Walk
    decreases items, items.len() - from,
{
    if from < 0 || from >= items.len() {
        Ok(count)
    } else {
        match attribute_walk(items[from], depth, count) {
            Err(e) => Err(e),
            Ok(n) => item_walk(items, from + 1, depth, n),
        }
    }
}

/// A key of an attribute.
pub open spec fn valid_key(key: Seq<char>) -> bool {
    1 <= key.len() <= 128 && !has_control(key)
}

/// Walks the fields from `from` on.
pub open spec fn field_walk(
    fields: Seq<(Seq<char>, JsonView)>,
    from: int,
    depth: nat,
    count: nat,
) -> Walk
    decreases fields, fields.len() - from,
{
    if from < 0 || from >= fields.len() {
        Ok(count)
    } else if !valid_key(fields[from].0) {
        attribute_refusal("external user attribute key is invalid"@, count)
    } else {
        match attribute_walk(fields[from].1, depth, count) {
            Err(e) => Err(e),
            Ok(n) => field_walk(fields, from + 1, depth, n),
        }
    }
}

/// Walks a value that stands at `depth`, counting it and what is in it.
pub fn validate_widget_attribute_value(
    value: &Json,
    depth: usize,
    value_count: &mut usize,
) -> (r: Result<(), ApiError>)
    requires
        *old(value_count) < usize::MAX,
    ensures
        match r {
            Ok(_) => attribute_walk(value@, depth as nat, *old(value_count) as nat) == Walk::Ok(
                *final(value_count) as nat,
            ) && *final(value_count) <= 128,
            Err(e) => attribute_walk(value@, depth as nat, *old(value_count) as nat) == Walk::Err(
                (e@, *final(value_count) as nat),
            ),
        },
    decreases *value,
{
    let ghost start = *value_count as nat;
    if depth > 4 {
        return Err(ApiError::bad_request("external user attributes are nested too deeply"));
    }
    *value_count = *value_count + 1;
    if *value_count > 128 {
        return Err(ApiError::bad_request("external user attributes contain too many values"));
    }
    match value {
        Json::Null | Json::Bool(_) | Json::Number(_) => Ok(()),
        Json::Text(text) => {
            if char_count(text.as_str()) > 1024 || any_control(text.as_str()) {
                return Err(ApiError::bad_request("external user attribute text is invalid"));
            }
            Ok(())
        },
        Json::List(items) => {
            if items.len() > 32 {
                return Err(
                    ApiError::bad_request("external user attributes contain too many values"),
                );
            }
            let ghost all = value@->List_0;
            let mut i: usize = 0;
            while i < items.len()
                invariant
                    i <= items@.len(),
                    depth <= 4,
                    start == *old(value_count) as nat,
                    *value_count <= 128,
                    *value == Json::List(*items),
                    all == value@->List_0,
                    all.len() == items@.len(),
                    item_walk(all, 0, (depth + 1) as nat, start + 1) == item_walk(
                        all,
                        i as int,
                        (depth + 1) as nat,
                        *value_count as nat,
                    ),
                    attribute_walk(value@, depth as nat, start) == item_walk(
                        all,
                        0,
                        (depth + 1) as nat,
                        start + 1,
                    ),
                decreases items@.len() - i,
            {
                assert(all[i as int] == items@[i as int]@);
                match validate_widget_attribute_value(&items[i], depth + 1, value_count) {
                    Ok(_) => {},
                    Err(e) => {
                        return Err(e);
                    },
                }
                i = i + 1;
            }
            Ok(())
        },
        Json::Object(fields) => {
            if fields.len() > 32 {
                return Err(
                    ApiError::bad_request("external user attributes contain too many values"),
                );
            }
            let ghost all = value@->Object_0;
            let mut i: usize = 0;
            while i < fields.len()
                invariant
                    i <= fields@.len(),
                    depth <= 4,
                    start == *old(value_count) as nat,
                    *value_count <= 128,
                    *value == Json::Object(*fields),
                    all == value@->Object_0,
                    all.len() == fields@.len(),
                    field_walk(all, 0, (depth + 1) as nat, start + 1) == field_walk(
                        all,
                        i as int,
                        (depth + 1) as nat,
                        *value_count as nat,
                    ),
                    attribute_walk(value@, depth as nat, start) == field_walk(
                        all,
                        0,
                        (depth + 1) as nat,
                        start + 1,
                    ),
                decreases fields@.len() - i,
            {
                assert(all[i as int] == (fields@[i as int].0@, fields@[i as int].1@));
                let key = fields[i].0.as_str();
                let key_length: usize = char_count(key);
                if key_length == 0 || key_length > 128 || any_control(key) {
                    return Err(ApiError::bad_request("external user attribute key is invalid"));
                }
                match validate_widget_attribute_value(&fields[i].1, depth + 1, value_count) {
                    Ok(_) => {},
                    Err(e) => {
                        return Err(e);
                    },
                }
                i = i + 1;
            }
            Ok(())
        },
    }
}

/// The attributes of a profile: an object, empty when none is given, that
/// passes the walk. `length` is the number of bytes of its text.
pub open spec fn checked_attributes(value: JsonView, length: nat) -> Result<JsonView, ErrorView> {
    if value is Null {
        Ok(JsonView::Object(seq![]))
    } else if !(value is Object) {
        refused(Status::BadRequest, "external user attributes must be a JSON object"@)
    } else if length > 8192 {
        refused(Status::BadRequest, "external user attributes are too large"@)
    } else {
        match attribute_walk(value, 0, 0) {
            Err((e, _)) => Err(e),
            Ok(_) => Ok(value),
        }
    }
}

/// The attributes of a profile, given the number of bytes of their text.
pub fn check_widget_attributes(value: Json, length: usize) -> (r: Result<Json, ApiError>)
    ensures
        seen(r) == checked_attributes(value@, length as nat),
{
    if value.is_null() {
        let empty = Json::Object(Vec::new());
        assert(empty@->Object_0 =~= seq![]);
        return Ok(empty);
    }
    if !value.is_object() {
        return Err(ApiError::bad_request("external user attributes must be a JSON object"));
    }
    if length > 8192 {
        return Err(ApiError::bad_request("external user attributes are too large"));
    }
    let mut count: usize = 0;
    match validate_widget_attribute_value(&value, 0, &mut count) {
        Ok(_) => Ok(value),
        Err(e) => Err(e),
    }
}

/// The attributes of a profile.
pub fn normalize_widget_attributes(value: Json) -> (r: Result<Json, ApiError>)
    ensures
        seen(r) == checked_attributes(value@, byte_count(json_text_of(value@))),
{
    let text = json_text(&value);
    let length: usize = byte_len(text.as_str());
    check_widget_attributes(value, length)
}

/// What a host page says of its user.
#[derive(Debug)]
pub struct WidgetUserProfile {
    pub username: Option<String>,
    pub display_name: Option<String>,
    pub email: Option<String>,
    pub attributes: Json,
}

/// What a `WidgetUserProfile` holds.
pub struct ProfileView {
    pub username: Option<Seq<char>>,
    pub display_name: Option<Seq<char>>,
    pub email: Option<Seq<char>>,
    pub attributes: JsonView,
}

impl View for WidgetUserProfile {
    type V = ProfileView;

    open spec fn view(&self) -> ProfileView {
        ProfileView {
            username: opt_view(self.username),
            display_name: opt_view(self.display_name),
            email: opt_view(self.email),
            attributes: self.attributes@,
        }
    }
}

/// The normal form of a profile.
pub open spec fn normalized_profile(p: ProfileView) -> Result<ProfileView, ErrorView> {
    match valid_external_username(p.username) {
        Err(e) => Err(e),
        Ok(username) => match profile_text(p.display_name, "display name"@) {
            Err(e) => Err(e),
            Ok(display_name) => match optional_email(p.email) {
                Err(e) => Err(e),
                Ok(email) => match checked_attributes(
                    p.attributes,
                    byte_count(json_text_of(p.attributes)),
                ) {
                    Err(e) => Err(e),
                    Ok(attributes) => Ok(ProfileView { username, display_name, email, attributes }),
                },
            },
        },
    }
}

fn as_slice(value: &Option<String>) -> (r: Option<&str>)
    ensures
        opt_str(r) == opt_view(*value),
{
    match value {
        Some(v) => Some(v.as_str()),
        None => None,
    }
}

/// The normal form of a profile, or what is wrong with it.
pub fn normalize_widget_user_profile(profile: WidgetUserProfile) -> (r: Result<
    WidgetUserProfile,
    ApiError,
>)
    ensures
        seen(r) == normalized_profile(profile@),
{
    let username = match validate_external_username(as_slice(&profile.username)) {
        Ok(username) => username,
        Err(e) => {
            return Err(e);
        },
    };
    let display_name = match normalize_widget_profile_text(
        as_slice(&profile.display_name),
        "display name",
    ) {
        Ok(name) => name,
        Err(e) => {
            return Err(e);
        },
    };
    let email = match normalize_optional_email(&profile.email) {
        Ok(email) => email,
        Err(e) => {
            return Err(e);
        },
    };
    match normalize_widget_attributes(profile.attributes) {
        Ok(attributes) => Ok(WidgetUserProfile { username, display_name, email, attributes }),
        Err(e) => Err(e),
    }
}

// ---------------------------------------------------------------------------
// What accepted attributes are
// ---------------------------------------------------------------------------

/// A value with everything in it is within the limits, with at most `levels`
/// levels.
pub open spec fn within_limits(value: JsonView, levels: nat) -> bool
    decreases value,
{
    &&& levels > 0
    &&& match value {
        JsonView::Text(text) => text.len() <= 1024 && !has_control(text),
        JsonView::List(items) => items.len() <= 32 && forall|i: int|
            0 <= i < items.len() ==> within_limits(#[trigger] items[i], (levels - 1) as nat),
        JsonView::Object(fields) => fields.len() <= 32 && forall|i: int|
            0 <= i < fields.len() ==> valid_key((#[trigger] fields[i]).0) && within_limits(
                fields[i].1,
                (levels - 1) as nat,
            ),
        _ => true,
    }
}

proof fn lemma_walk(value: JsonView, depth: nat, count: nat)
    requires
        attribute_walk(value, depth, count) is Ok,
    ensures
        depth <= 4,
        within_limits(value, (5 - depth) as nat),
        count < attribute_walk(value, depth, count)->Ok_0 <= 128,
    decreases value, 0int,
{
    match value {
        JsonView::List(items) => {
            lemma_item_walk(items, 0, depth + 1, count + 1);
        },
        JsonView::Object(fields) => {
            lemma_field_walk(fields, 0, depth + 1, count + 1);
        },
        _ => {},
    }
}

proof fn lemma_item_walk(items: Seq<JsonView>, from: int, depth: nat, count: nat)
    requires
        0 <= from <= items.len(),
        count <= 128,
        1 <= depth <= 5,
        item_walk(items, from, depth, count) is Ok,
    ensures
        count <= item_walk(items, from, depth, count)->Ok_0 <= 128,
        forall|i: int|
            from <= i < items.len() ==> within_limits(#[trigger] items[i], (5 - depth) as nat),
    decreases items, items.len() - from,
{
    if from < items.len() {
        lemma_walk(items[from], depth, count);
        let n = attribute_walk(items[from], depth, count)->Ok_0;
        lemma_item_walk(items, from + 1, depth, n);
    }
}

proof fn lemma_field_walk(
    fields: Seq<(Seq<char>, JsonView)>,
    from: int,
    depth: nat,
    count: nat,
)
    requires
        0 <= from <= fields.len(),
        count <= 128,
        1 <= depth <= 5,
        field_walk(fields, from, depth, count) is Ok,
    ensures
        count <= field_walk(fields, from, depth, count)->Ok_0 <= 128,
        forall|i: int|
            from <= i < fields.len() ==> valid_key((#[trigger] fields[i]).0) && within_limits(
                fields[i].1,
                (5 - depth) as nat,
            ),
    decreases fields, fields.len() - from,
{
    if from < fields.len() {
        lemma_walk(fields[from].1, depth, count);
        let n = attribute_walk(fields[from].1, depth, count)->Ok_0;
        lemma_field_walk(fields, from + 1, depth, n);
    }
}

/// Attributes that are accepted are an object of at most five levels and 128
/// values, every one of them within the limits.
pub proof fn accepted_attributes_are_bounded(value: JsonView, length: nat)
    requires
        checked_attributes(value, length) is Ok,
    ensures
        checked_attributes(value, length)->Ok_0 is Object,
        within_limits(checked_attributes(value, length)->Ok_0, 5),
        !(value is Null) ==> length <= 8192 && attribute_walk(value, 0, 0)->Ok_0 <= 128,
{
    if !(value is Null) {
        lemma_walk(value, 0, 0);
    }
}

/// A name that a text gives: trimmed, where it is no longer than 128 bytes and
/// holds no control character. Blank keys are none, blank tenants the default
/// one, and blank users nobody.
pub proof fn names_are_trimmed_and_short(value: Seq<char>)
    ensures
        !blank(value) ==> (client_message_key(Some(value)) is Ok <==> byte_count(trimmed(value))
            <= 128 && !has_control(trimmed(value))),
        !blank(value) ==> (origin_tenant(Some(value)) is Ok <==> byte_count(trimmed(value)) <= 128
            && !has_control(trimmed(value))),
        external_user_id(value) is Ok <==> !blank(value) && byte_count(trimmed(value)) <= 128
            && !has_control(trimmed(value)),
        client_message_key(Some(value)) is Ok ==> client_message_key(Some(value))->Ok_0 == if blank(
            value,
        ) {
            None
        } else {
            Some(trimmed(value))
        },
        client_message_key(None) == Ok::<Option<Seq<char>>, ErrorView>(None),
        external_user_id(value) matches Ok(id) ==> id == trimmed(value),
        !blank(value) && origin_tenant(Some(value)) is Ok ==> origin_tenant(Some(value))->Ok_0
            == trimmed(value),
        blank(value) ==> origin_tenant(Some(value)) == origin_tenant(None),
        origin_tenant(None) matches Ok(tenant) ==> tenant == "default"@,
        required_tenant(None) is Err,
        blank(value) ==> required_tenant(Some(value)) is Err,
{
}

/// A tenant that is required is read like one that is not, but for blanks.
pub proof fn required_tenants_are_tenants(value: Seq<char>)
    requires
        !blank(value),
    ensures
        required_tenant(Some(value)) == origin_tenant(Some(value)),
{
    crate::text::lemma_trimmed(value);
}

/// A visitor is known by the digest of its key, which is long enough not to be
/// guessed; blanks around it do not matter.
pub proof fn visitors_are_known_by_their_key(key: Seq<char>, other: Seq<char>)
    ensures
        visitor_digest(key) is Ok <==> 16 <= byte_count(trimmed(key)) <= 512 && !has_control(
            trimmed(key),
        ),
        visitor_digest(key) matches Ok(digest) ==> digest == text_digest(trimmed(key)),
        trimmed(key) == trimmed(other) ==> visitor_digest(key) == visitor_digest(other),
        visitor_digest(key) matches Err(e) ==> e.status == Status::BadRequest,
{
}

/// A client names itself before the first colon and its secret after it, in
/// one header of one kind.
pub proof fn clients_name_themselves(
    bytes: Seq<u8>,
    id: Seq<char>,
    secret: Seq<char>,
    header: Seq<char>,
)
    ensures
        valid_utf8(bytes) && split_at_first(decode_utf8(bytes), ':') == Some((id, secret)) ==> (
        named_client(Some(bytes)) is Ok <==> !blank(id) && byte_count(id) <= 256 && !has_control(id)
            && secret.len() > 0 && byte_count(secret) <= 1024),
        named_client(Some(bytes)) matches Ok(pair) ==> valid_utf8(bytes) && split_at_first(
            decode_utf8(bytes),
            ':',
        ) == Some(pair),
        named_client(None) is Err,
        basic_client(None) is Err,
        basic_client(Some("Basic "@ + header)) == named_client(base64_read(header)),
        basic_client(Some(header)) is Ok ==> "Basic "@.is_prefix_of(header),
        named_client(Some(bytes)) matches Err(e) ==> e.status == Status::Unauthorized,
{
    let h = "Basic "@ + header;
    assert("Basic "@.is_prefix_of(h)) by {
        assert(h.take("Basic "@.len() as int) =~= "Basic "@);
    }
    assert(h.skip("Basic "@.len() as int) =~= header);
}

/// A text of a profile is trimmed, holds at most 256 characters and none that
/// controls; a blank one is none.
pub proof fn profile_texts_are_trimmed(value: Seq<char>, field: Seq<char>)
    ensures
        blank(value) ==> profile_text(Some(value), field) == Ok::<Option<Seq<char>>, ErrorView>(
            None,
        ),
        profile_text(None, field) == Ok::<Option<Seq<char>>, ErrorView>(None),
        !blank(value) ==> (profile_text(Some(value), field) is Ok <==> trimmed(value).len() <= 256
            && !has_control(trimmed(value))),
        !blank(value) && profile_text(Some(value), field) is Ok ==> profile_text(
            Some(value),
            field,
        )->Ok_0 == Some(trimmed(value)),
{
}

/// A single attribute is accepted within its limits, and counts as one.
pub proof fn plain_attributes_count_as_one(value: JsonView, depth: nat, count: nat)
    requires
        !(value is List),
        !(value is Object),
    ensures
        attribute_walk(value, depth, count) is Ok <==> depth <= 4 && count < 128 && (value is Text
            ==> value->Text_0.len() <= 1024 && !has_control(value->Text_0)),
        attribute_walk(value, depth, count) matches Ok(n) ==> n == count + 1,
{
}

/// Attributes that hold nothing are accepted, and none are the same as an
/// empty object; anything that is no object is not.
pub proof fn empty_attributes_are_accepted(value: JsonView, length: nat)
    ensures
        checked_attributes(JsonView::Null, length) == Ok::<JsonView, ErrorView>(
            JsonView::Object(seq![]),
        ),
        length <= 8192 ==> checked_attributes(JsonView::Object(seq![]), length) == Ok::<
            JsonView,
            ErrorView,
        >(JsonView::Object(seq![])),
        !(value is Null) && !(value is Object) ==> checked_attributes(value, length) is Err,
        length > 8192 && !(value is Null) ==> checked_attributes(value, length) is Err,
        value is Object && checked_attributes(value, length) is Ok ==> checked_attributes(
            value,
            length,
        )->Ok_0 == value,
{
    reveal_with_fuel(field_walk, 2);
}

/// One more field is one more attribute: an object with few values is accepted
/// exactly where its values and its keys are.
pub proof fn fields_are_accepted_one_by_one(
    fields: Seq<(Seq<char>, JsonView)>,
    from: int,
    depth: nat,
    count: nat,
)
    requires
        0 <= from < fields.len(),
    ensures
        field_walk(fields, from, depth, count) is Ok ==> {
            &&& 1 <= fields[from].0.len() <= 128
            &&& !has_control(fields[from].0)
            &&& attribute_walk(fields[from].1, depth, count) is Ok
            &&& field_walk(
                fields,
                from + 1,
                depth,
                attribute_walk(fields[from].1, depth, count)->Ok_0,
            ) == field_walk(fields, from, depth, count)
        },
        1 <= fields[from].0.len() <= 128 && !has_control(fields[from].0) && attribute_walk(
            fields[from].1,
            depth,
            count,
        ) is Ok ==> field_walk(fields, from, depth, count) == field_walk(
            fields,
            from + 1,
            depth,
            attribute_walk(fields[from].1, depth, count)->Ok_0,
        ),
{
}

/// A list or an object is walked into one level deeper, and holds at most 32
/// values.
pub proof fn values_are_walked_one_level_deeper(
    items: Seq<JsonView>,
    fields: Seq<(Seq<char>, JsonView)>,
    depth: nat,
    count: nat,
)
    requires
        depth <= 4,
        count < 128,
    ensures
        items.len() <= 32 ==> attribute_walk(JsonView::List(items), depth, count) == item_walk(
            items,
            0,
            depth + 1,
            count + 1,
        ),
        items.len() > 32 ==> attribute_walk(JsonView::List(items), depth, count) is Err,
        fields.len() <= 32 ==> attribute_walk(JsonView::Object(fields), depth, count)
            == field_walk(fields, 0, depth + 1, count + 1),
        fields.len() > 32 ==> attribute_walk(JsonView::Object(fields), depth, count) is Err,
        items.len() > 0 && attribute_walk(items[0], depth, count) is Ok ==> item_walk(
            items,
            0,
            depth,
            count,
        ) == item_walk(items, 1, depth, attribute_walk(items[0], depth, count)->Ok_0),
        items.len() > 0 && attribute_walk(items[0], depth, count) is Err ==> item_walk(
            items,
            0,
            depth,
            count,
        ) is Err,
{
}

/// A profile is accepted where each of its parts is, and then holds each part
/// as it was read.
pub proof fn profiles_are_read_part_by_part(p: ProfileView)
    ensures
        normalized_profile(p) is Ok <==> {
            &&& valid_external_username(p.username) is Ok
            &&& profile_text(p.display_name, "display name"@) is Ok
            &&& optional_email(p.email) is Ok
            &&& checked_attributes(p.attributes, byte_count(json_text_of(p.attributes))) is Ok
        },
        normalized_profile(p) matches Ok(read) ==> {
            &&& read.username == valid_external_username(p.username)->Ok_0
            &&& read.display_name == profile_text(p.display_name, "display name"@)->Ok_0
            &&& read.email == optional_email(p.email)->Ok_0
            &&& read.attributes == checked_attributes(
                p.attributes,
                byte_count(json_text_of(p.attributes)),
            )->Ok_0
        },
{
}

/// What is wrong in a name, a key or a profile is the request's own fault; a
/// client that does not name itself is not let in.
pub proof fn wrong_profiles_are_refused(
    value: Option<Seq<char>>,
    text: Seq<char>,
    field: Seq<char>,
    json: JsonView,
    length: nat,
    decoded: Option<Seq<u8>>,
)
    ensures
        client_message_key(value) matches Err(e) ==> e.status == Status::BadRequest,
        origin_tenant(value) matches Err(e) ==> e.status == Status::BadRequest,
        required_tenant(value) matches Err(e) ==> e.status == Status::BadRequest,
        external_user_id(text) matches Err(e) ==> e.status == Status::BadRequest,
        visitor_digest(text) matches Err(e) ==> e.status == Status::BadRequest,
        profile_text(value, field) matches Err(e) ==> e.status == Status::BadRequest,
        !(json is Object) || length > 8192 ==> (checked_attributes(json, length) matches Err(e)
            ==> e.status == Status::BadRequest),
        named_client(decoded) matches Err(e) ==> e.status == Status::Unauthorized,
        basic_client(value) matches Err(e) ==> e.status == Status::Unauthorized,
{
}

} // verus!
