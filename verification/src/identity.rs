//! Who a user is: e-mail addresses, names, roles and the keys of identity
//! providers.

use crate::error::{plain, refused, seen, seen_option, ApiError, ErrorView, Status};
use crate::text::{
    any_control, any_space, blank, byte_count, byte_len, char_count, chars_of, contains_char,
    has_control, has_space, is_alphanumeric, is_space, is_trimmed, join, lemma_trimmed, lower_char,
    lowercase, lowered, opt_view, same, split_at_first, split_once, trim, trimmed, alphanumeric,
};
use vstd::prelude::*;

verus! {

// ---------------------------------------------------------------------------
// E-mail addresses
// ---------------------------------------------------------------------------

/// An address the hub accepts: at most 254 bytes, no white space, something
/// before the first `@` and a dot after it.
pub open spec fn valid_email(e: Seq<char>) -> bool {
    &&& byte_count(e) <= 254
    &&& !has_space(e)
    &&& match split_at_first(e, '@') {
        Some((local, domain)) => local.len() > 0 && domain.contains('.'),
        None => false,
    }
}

/// The form under which an address is stored and compared.
pub open spec fn normalized_email(s: Seq<char>) -> Result<Seq<char>, ErrorView> {
    let e = lowered(trimmed(s));
    if valid_email(e) {
        Ok(e)
    } else {
        refused(Status::BadRequest, "valid email is required"@)
    }
}

/// The form under which an address is stored and compared.
pub fn normalize_email(email: &str) -> (r: Result<String, ApiError>)
    ensures
        seen(r) == normalized_email(email@),
{
    let trimmed_email = trim(email);
    let e = lowercase(trimmed_email.as_str());
    let shaped = match split_once(e.as_str(), '@') {
        Some((local, domain)) => char_count(local.as_str()) > 0 && contains_char(
            domain.as_str(),
            '.',
        ),
        None => false,
    };
    if byte_len(e.as_str()) <= 254 && !any_space(e.as_str()) && shaped {
        Ok(e)
    } else {
        Err(ApiError::bad_request("valid email is required"))
    }
}

/// The key under which failed logins of an address are counted: none when the
/// text cannot be an address.
pub open spec fn rate_email(s: Seq<char>) -> Option<Seq<char>> {
    let e = lowered(trimmed(s));
    if e.len() > 0 && byte_count(e) <= 254 && !has_space(e) {
        Some(e)
    } else {
        None
    }
}

/// The key under which failed logins of an address are counted.
pub fn login_rate_email(email: &str) -> (r: Option<String>)
    ensures
        opt_view(r) == rate_email(email@),
{
    let trimmed_email = trim(email);
    let e = lowercase(trimmed_email.as_str());
    if char_count(e.as_str()) > 0 && byte_len(e.as_str()) <= 254 && !any_space(e.as_str()) {
        Some(e)
    } else {
        None
    }
}

/// What stands before the first `@`, or all of the text.
pub open spec fn local_part(email: Seq<char>) -> Seq<char> {
    match split_at_first(email, '@') {
        Some((local, _)) => local,
        None => email,
    }
}

/// What stands before the first `@`, or all of the text.
pub fn email_local_part(email: &str) -> (r: String)
    ensures
        r@ == local_part(email@),
{
    match split_once(email, '@') {
        Some((local, _)) => local,
        None => email.to_owned(),
    }
}

proof fn lemma_lowered(s: Seq<char>)
    ensures
        lowered(lowered(s)) == lowered(s),
        has_space(lowered(s)) == has_space(s),
        is_trimmed(s) ==> is_trimmed(lowered(s)),
{
    let t = lowered(s);
    assert forall|i: int| 0 <= i < s.len() implies lower_char(#[trigger] t[i]) == t[i] && is_space(
        t[i],
    ) == is_space(s[i]) by {
        assert(t[i] == lower_char(s[i]));
    }
    assert(lowered(t) =~= t);
    if has_space(t) {
        let i = choose|i: int| 0 <= i < t.len() && is_space(#[trigger] t[i]);
        assert(is_space(s[i]));
    }
    if has_space(s) {
        let i = choose|i: int| 0 <= i < s.len() && is_space(#[trigger] s[i]);
        assert(is_space(t[i]));
    }
    if s.len() > 0 {
        assert(is_space(t[0]) == is_space(s[0]));
        assert(is_space(t[t.len() - 1]) == is_space(s[s.len() - 1]));
    }
}

/// A normalized address is its own normal form, and is counted under itself.
pub proof fn normalized_email_is_stable(s: Seq<char>)
    requires
        normalized_email(s) is Ok,
    ensures
        normalized_email(normalized_email(s)->Ok_0) == normalized_email(s),
        rate_email(normalized_email(s)->Ok_0) == Some(normalized_email(s)->Ok_0),
        rate_email(s) == Some(normalized_email(s)->Ok_0),
{
    let e = lowered(trimmed(s));
    lemma_trimmed(s);
    lemma_lowered(trimmed(s));
    lemma_trimmed(e);
    crate::text::lemma_position(e, '@');
}

/// Case and surrounding white space do not tell two addresses apart.
pub proof fn email_case_does_not_matter(s: Seq<char>, t: Seq<char>)
    requires
        lowered(trimmed(s)) == lowered(trimmed(t)),
    ensures
        normalized_email(s) == normalized_email(t),
        rate_email(s) == rate_email(t),
{
}

// ---------------------------------------------------------------------------
// Names
// ---------------------------------------------------------------------------

/// A name of at most 128 bytes without control characters.
pub open spec fn valid_name(s: Seq<char>) -> bool {
    byte_count(s) <= 128 && !has_control(s)
}

/// The display name of a user: the one given, trimmed, or the local part of
/// the e-mail address when none is given.
pub open spec fn normalized_display_name(value: Option<Seq<char>>, email: Seq<char>) -> Result<
    Seq<char>,
    ErrorView,
> {
    let name = match value {
        Some(v) => if blank(v) {
            local_part(email)
        } else {
            trimmed(v)
        },
        None => local_part(email),
    };
    if valid_name(name) {
        Ok(name)
    } else {
        refused(Status::BadRequest, "valid display name is required"@)
    }
}

/// The display name of a user.
pub fn normalize_display_name(value: Option<&str>, email: &str) -> (r: Result<String, ApiError>)
    ensures
        seen(r) == normalized_display_name(
            match value {
                Some(v) => Some(v@),
                None => None,
            },
            email@,
        ),
{
    let name = match value {
        Some(v) => {
            let t = trim(v);
            if char_count(t.as_str()) == 0 {
                email_local_part(email)
            } else {
                t
            }
        },
        None => email_local_part(email),
    };
    if byte_len(name.as_str()) > 128 || any_control(name.as_str()) {
        return Err(ApiError::bad_request("valid display name is required"));
    }
    Ok(name)
}

/// A display name that was accepted is accepted again as it stands, unless it
/// came from the address.
pub proof fn display_name_is_stable(value: Seq<char>, email: Seq<char>)
    requires
        !blank(value),
        normalized_display_name(Some(value), email) is Ok,
    ensures
        normalized_display_name(
            Some(normalized_display_name(Some(value), email)->Ok_0),
            email,
        ) == normalized_display_name(Some(value), email),
{
    lemma_trimmed(value);
}

/// The user name on an external platform: none when it is blank.
pub open spec fn valid_external_username(value: Option<Seq<char>>) -> Result<
    Option<Seq<char>>,
    ErrorView,
> {
    match value {
        Some(v) => if blank(v) {
            Ok(None)
        } else if valid_name(trimmed(v)) {
            Ok(Some(trimmed(v)))
        } else {
            refused(Status::BadRequest, "valid external username is required"@)
        },
        None => Ok(None),
    }
}

/// The user name on an external platform: none when it is blank.
pub fn validate_external_username(value: Option<&str>) -> (r: Result<Option<String>, ApiError>)
    ensures
        seen_option(r) == valid_external_username(
            match value {
                Some(v) => Some(v@),
                None => None,
            },
        ),
{
    match value {
        Some(v) => {
            let t = trim(v);
            if char_count(t.as_str()) == 0 {
                return Ok(None);
            }
            if byte_len(t.as_str()) > 128 || any_control(t.as_str()) {
                return Err(ApiError::bad_request("valid external username is required"));
            }
            Ok(Some(t))
        },
        None => Ok(None),
    }
}

// ---------------------------------------------------------------------------
// Keys and names of identity providers
// ---------------------------------------------------------------------------

/// A character of an identity key.
pub open spec fn key_char(c: char) -> bool {
    is_alphanumeric(c) || c == '-' || c == '_'
}

/// The message that a field is missing or malformed.
pub open spec fn field_required(field: Seq<char>) -> Seq<char> {
    "valid "@ + field + " is required"@
}

fn field_error(field: &str) -> (r: ApiError)
    ensures
        r@ == crate::error::error_of(Status::BadRequest, field_required(field@)),
{
    let mut message = join("valid ", field);
    message.append(" is required");
    ApiError::bad_request(message.as_str())
}

/// The key of a platform or channel: 1 to 64 lower-case letters, digits,
/// hyphens and underscores.
pub open spec fn identity_key(value: Seq<char>, field: Seq<char>) -> Result<Seq<char>, ErrorView> {
    let k = lowered(trimmed(value));
    if k.len() > 0 && byte_count(k) <= 64 && forall|i: int| 0 <= i < k.len() ==> key_char(#[trigger] k[i]) {
        Ok(k)
    } else {
        refused(Status::BadRequest, field_required(field))
    }
}

/// The key of a platform or channel.
pub fn validate_identity_key(value: &str, field: &str) -> (r: Result<String, ApiError>)
    ensures
        seen(r) == identity_key(value@, field@),
{
    let t = trim(value);
    let k = lowercase(t.as_str());
    let chars = chars_of(k.as_str());
    if chars.len() == 0 || byte_len(k.as_str()) > 64 {
        return Err(field_error(field));
    }
    let mut i: usize = 0;
    while i < chars.len()
        invariant
            i <= chars@.len(),
            chars@ == lowered(trimmed(value@)),
            forall|j: int| 0 <= j < i ==> key_char(#[trigger] chars@[j]),
        decreases chars@.len() - i,
    {
        let c = chars[i];
        if !(alphanumeric(c) || c == '-' || c == '_') {
            assert(!key_char(chars@[i as int]));
            return Err(field_error(field));
        }
        i = i + 1;
    }
    Ok(k)
}

/// The name of a platform or channel: 1 to 128 characters, none of them a
/// control character.
pub open spec fn identity_name(value: Seq<char>, field: Seq<char>) -> Result<Seq<char>, ErrorView> {
    let n = trimmed(value);
    if 1 <= n.len() <= 128 && !has_control(n) {
        Ok(n)
    } else {
        refused(Status::BadRequest, field_required(field))
    }
}

/// The name of a platform or channel.
pub fn validate_identity_name(value: &str, field: &str) -> (r: Result<String, ApiError>)
    ensures
        seen(r) == identity_name(value@, field@),
{
    let n = trim(value);
    let count: usize = char_count(n.as_str());
    if count == 0 || count > 128 || any_control(n.as_str()) {
        return Err(field_error(field));
    }
    Ok(n)
}

/// Keys and names that were accepted are accepted again as they stand.
pub proof fn identity_keys_are_stable(value: Seq<char>, field: Seq<char>)
    ensures
        identity_key(value, field) is Ok ==> identity_key(
            identity_key(value, field)->Ok_0,
            field,
        ) == identity_key(value, field),
        identity_name(value, field) is Ok ==> identity_name(
            identity_name(value, field)->Ok_0,
            field,
        ) == identity_name(value, field),
{
    lemma_trimmed(value);
    lemma_lowered(trimmed(value));
    lemma_trimmed(lowered(trimmed(value)));
}

// ---------------------------------------------------------------------------
// Roles
// ---------------------------------------------------------------------------

/// What a user may do on the hub.
#[derive(Clone, Copy, Debug, PartialEq, Eq, Structural)]
pub enum Role {
    Member,
    Admin,
    SuperAdmin,
}

/// The name of a role.
pub open spec fn role_text(role: Role) -> Seq<char> {
    match role {
        Role::Member => "member"@,
        Role::Admin => "admin"@,
        Role::SuperAdmin => "super_admin"@,
    }
}

/// The name of a role.
pub fn role_name(role: Role) -> (r: &'static str)
    ensures
        r@ == role_text(role),
{
    match role {
        Role::Member => "member",
        Role::Admin => "admin",
        Role::SuperAdmin => "super_admin",
    }
}

/// The role that a request names.
pub open spec fn user_role(value: Seq<char>) -> Result<Role, ErrorView> {
    let t = trimmed(value);
    if t == "member"@ {
        Ok(Role::Member)
    } else if t == "admin"@ {
        Ok(Role::Admin)
    } else if t == "super_admin"@ {
        Ok(Role::SuperAdmin)
    } else {
        refused(Status::BadRequest, "unsupported user role"@)
    }
}

/// The role that a request names.
pub fn validate_user_role(value: &str) -> (r: Result<Role, ApiError>)
    ensures
        plain(r) == user_role(value@),
{
    let t = trim(value);
    if same(t.as_str(), "member") {
        Ok(Role::Member)
    } else if same(t.as_str(), "admin") {
        Ok(Role::Admin)
    } else if same(t.as_str(), "super_admin") {
        Ok(Role::SuperAdmin)
    } else {
        Err(ApiError::bad_request("unsupported user role"))
    }
}

/// The role that a stored name stands for; an unknown name grants nothing.
pub open spec fn role_stored(name: Seq<char>) -> Role {
    if name == "super_admin"@ {
        Role::SuperAdmin
    } else if name == "admin"@ {
        Role::Admin
    } else {
        Role::Member
    }
}

/// The role that a stored name stands for.
pub fn stored_role(name: &str) -> (r: Role)
    ensures
        r == role_stored(name@),
{
    if same(name, "super_admin") {
        Role::SuperAdmin
    } else if same(name, "admin") {
        Role::Admin
    } else {
        Role::Member
    }
}

/// Administrators and super administrators administer the hub.
pub open spec fn administers(role: Role) -> bool {
    role == Role::Admin || role == Role::SuperAdmin
}

/// Tells whether the role administers the hub.
pub fn is_admin_role(role: Role) -> (r: bool)
    ensures
        r == administers(role),
{
    match role {
        Role::Member => false,
        Role::Admin => true,
        Role::SuperAdmin => true,
    }
}

/// A role is what its name is read as, in a request and from storage.
pub proof fn role_names_read_back(role: Role)
    ensures
        user_role(role_text(role)) == Ok::<Role, ErrorView>(role),
        role_stored(role_text(role)) == role,
{
    reveal_strlit("member");
    reveal_strlit("admin");
    reveal_strlit("super_admin");
    lemma_trimmed(role_text(role));
    assert("member"@.len() == 6 && "admin"@.len() == 5 && "super_admin"@.len() == 11);
}

/// The role of a new user: the first user of the hub is its super
/// administrator, everybody after it is a member.
pub open spec fn new_user_role(first_user: bool) -> Role {
    if first_user {
        Role::SuperAdmin
    } else {
        Role::Member
    }
}

/// The role of a new user, and whether password registration closes with it.
pub fn role_of_new_user(first_user: bool) -> (r: (Role, bool))
    ensures
        r.0 == new_user_role(first_user),
        r.1 == first_user,
{
    if first_user {
        (Role::SuperAdmin, true)
    } else {
        (Role::Member, false)
    }
}

/// An address is accepted exactly where it is short, holds no blank, and has
/// something before its first at sign and a dot after it; it is stored in
/// lower case, trimmed.
pub proof fn addresses_have_two_parts(s: Seq<char>)
    ensures
        ({
            let e = lowered(trimmed(s));
            &&& normalized_email(s) is Ok <==> {
                &&& byte_count(e) <= 254
                &&& !has_space(e)
                &&& split_at_first(e, '@') is Some
                &&& (split_at_first(e, '@')->0).0.len() >= 1
                &&& (split_at_first(e, '@')->0).1.contains('.')
            }
            &&& normalized_email(s) is Ok ==> normalized_email(s)->Ok_0 == e
            &&& rate_email(s) is Some <==> e.len() >= 1 && byte_count(e) <= 254 && !has_space(e)
            &&& rate_email(s) is Some ==> rate_email(s)->0 == e
        }),
        normalized_email(s) matches Err(e) ==> e.status == Status::BadRequest,
{
}

/// A user is called as asked, or by the part of the address before the at
/// sign; a name is short and holds nothing that controls.
pub proof fn users_are_called_as_asked(value: Seq<char>, email: Seq<char>)
    ensures
        !blank(value) ==> (normalized_display_name(Some(value), email) is Ok <==> byte_count(
            trimmed(value),
        ) <= 128 && !has_control(trimmed(value))),
        !blank(value) && normalized_display_name(Some(value), email) is Ok
            ==> normalized_display_name(Some(value), email)->Ok_0 == trimmed(value),
        blank(value) ==> normalized_display_name(Some(value), email) == normalized_display_name(
            None,
            email,
        ),
        normalized_display_name(None, email) matches Ok(name) ==> name == (match split_at_first(
            email,
            '@',
        ) {
            Some((local, _)) => local,
            None => email,
        }),
        normalized_display_name(None, email) is Ok <==> byte_count(local_part(email)) <= 128
            && !has_control(local_part(email)),
        split_at_first(email, '@') matches Some((local, _)) ==> local_part(email) == local,
        split_at_first(email, '@') is None ==> local_part(email) == email,
{
}

/// The name of an outside user is trimmed and short, and a blank one is none.
pub proof fn outside_names_are_short(value: Seq<char>)
    ensures
        valid_external_username(None) == Ok::<Option<Seq<char>>, ErrorView>(None),
        blank(value) ==> valid_external_username(Some(value)) == Ok::<Option<Seq<char>>, ErrorView>(
            None,
        ),
        !blank(value) ==> (valid_external_username(Some(value)) is Ok <==> byte_count(
            trimmed(value),
        ) <= 128 && !has_control(trimmed(value))),
        !blank(value) && valid_external_username(Some(value)) is Ok ==> valid_external_username(
            Some(value),
        )->Ok_0 == Some(trimmed(value)),
{
}

/// A key is made of letters, digits, hyphens and underscores, at most 64; a
/// name of at most 128 characters.
pub proof fn keys_and_names_are_bounded(value: Seq<char>, field: Seq<char>)
    ensures
        ({
            let k = lowered(trimmed(value));
            identity_key(value, field) is Ok <==> k.len() >= 1 && byte_count(k) <= 64 && forall|
                i: int,
            |
                0 <= i < k.len() ==> ('a' <= #[trigger] k[i] <= 'z') || ('A' <= k[i] <= 'Z') || (
                '0' <= k[i] <= '9') || k[i] == '-' || k[i] == '_'
        }),
        identity_key(value, field) matches Ok(key) ==> key == lowered(trimmed(value)),
        identity_name(value, field) is Ok <==> 1 <= trimmed(value).len() <= 128 && !has_control(
            trimmed(value),
        ),
        identity_name(value, field) matches Ok(name) ==> name == trimmed(value),
{
    let k = lowered(trimmed(value));
    if identity_key(value, field) is Ok {
        assert forall|i: int| 0 <= i < k.len() implies ('a' <= #[trigger] k[i] <= 'z') || ('A'
            <= k[i] <= 'Z') || ('0' <= k[i] <= '9') || k[i] == '-' || k[i] == '_' by {
            assert(key_char(k[i]));
        }
    }
}

/// A role is read from its name alone, whatever surrounds it, and a name that
/// nobody knows is refused when it is asked for and an ordinary user's when it
/// is stored.
pub proof fn roles_are_read_from_their_names(value: Seq<char>, name: Seq<char>)
    ensures
        user_role(value) matches Ok(role) ==> trimmed(value) == role_text(role),
        user_role(value) is Err ==> forall|role: Role| #[trigger] role_text(role) != trimmed(value),
        role_stored(name) != Role::Member ==> name == role_text(role_stored(name)),
        (forall|role: Role| #[trigger] role_text(role) != name) ==> role_stored(name)
            == Role::Member,
        forall|role: Role| #[trigger] administers(role) <==> role != Role::Member,
{
    role_names_read_back(Role::Member);
    role_names_read_back(Role::Admin);
    role_names_read_back(Role::SuperAdmin);
    if forall|role: Role| #[trigger] role_text(role) != name {
        assert(role_text(Role::Admin) != name);
        assert(role_text(Role::SuperAdmin) != name);
    }
}

/// The first user of all is the one who can do everything, and later ones can
/// do the least.
pub proof fn the_first_user_rules(first_user: bool)
    ensures
        new_user_role(first_user) == Role::SuperAdmin <==> first_user,
        new_user_role(first_user) == Role::Member <==> !first_user,
{
}

/// A name, an address, a key or a role that is not right is the request's own
/// fault.
pub proof fn wrong_identities_are_refused(
    value: Seq<char>,
    given: Option<Seq<char>>,
    email: Seq<char>,
    field: Seq<char>,
)
    ensures
        normalized_email(value) matches Err(e) ==> e.status == Status::BadRequest,
        normalized_display_name(given, email) matches Err(e) ==> e.status == Status::BadRequest,
        valid_external_username(given) matches Err(e) ==> e.status == Status::BadRequest,
        identity_key(value, field) matches Err(e) ==> e.status == Status::BadRequest,
        identity_name(value, field) matches Err(e) ==> e.status == Status::BadRequest,
        user_role(value) matches Err(e) ==> e.status == Status::BadRequest,
{
}

} // verus!
