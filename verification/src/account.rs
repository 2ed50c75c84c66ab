//! User accounts: who may create, change and see them, how people log in, and
//! how an outside identity becomes a user.

use crate::error::{plain, refusal, refuse, refused, seen, ApiError, ErrorView, Refusal, Status};
use crate::identity::{
    normalize_display_name, normalize_email, normalized_display_name, normalized_email, user_role,
    valid_external_username, validate_external_username, validate_user_role, Role,
};
use crate::ids::Id;
use crate::text::{byte_count, byte_len, opt_view, same, trim, trimmed};
use crate::widget_profile::{
    external_user_id, normalize_external_user_id, normalize_origin_tenant, origin_tenant,
};
use vstd::prelude::*;

verus! {

// ---------------------------------------------------------------------------
// Administration
// ---------------------------------------------------------------------------

/// A password has 8 to 1024 bytes.
pub open spec fn password_validity(password: Seq<char>) -> Result<(), ErrorView> {
    if 8 <= byte_count(password) <= 1024 {
        Ok(())
    } else {
        refused(Status::BadRequest, "password must be between 8 and 1024 bytes"@)
    }
}

/// Accepts a password by its length.
pub fn check_password_length(password: &str) -> (r: Result<(), ApiError>)
    ensures
        plain(r) == password_validity(password@),
{
    let n: usize = byte_len(password);
    if n < 8 || n > 1024 {
        return Err(ApiError::bad_request("password must be between 8 and 1024 bytes"));
    }
    Ok(())
}

/// Only a super administrator makes anybody more than a member.
pub open spec fn creation_right(actor: Role, role: Role) -> Result<(), ErrorView> {
    if actor == Role::SuperAdmin || role == Role::Member {
        Ok(())
    } else {
        refused(
            Status::Forbidden,
            "only a Super Administrator can create administrator accounts"@,
        )
    }
}

/// Refuses an administrator who would create another administrator.
pub fn check_creation_right(actor: Role, role: Role) -> (r: Result<(), ApiError>)
    ensures
        plain(r) == creation_right(actor, role),
{
    if actor != Role::SuperAdmin && role != Role::Member {
        return Err(
            ApiError::forbidden("only a Super Administrator can create administrator accounts"),
        );
    }
    Ok(())
}

/// What is stored of a user that an administrator creates.
#[derive(Debug)]
pub struct NewUser {
    pub email: String,
    pub display_name: String,
    pub role: Role,
}

/// What `NewUser` holds.
pub struct NewUserView {
    pub email: Seq<char>,
    pub display_name: Seq<char>,
    pub role: Role,
}

impl View for NewUser {
    type V = NewUserView;

    open spec fn view(&self) -> NewUserView {
        NewUserView { email: self.email@, display_name: self.display_name@, role: self.role }
    }
}

/// What an administrator says of a user to be created.
#[derive(Debug)]
pub struct NewUserRequest {
    pub email: String,
    pub display_name: Option<String>,
    pub role: String,
    pub password: Option<String>,
}

/// The user that an administrator's request describes.
pub open spec fn new_user(req: NewUserRequest, actor: Role) -> Result<NewUserView, ErrorView> {
    match normalized_email(req.email@) {
        Err(e) => Err(e),
        Ok(email) => match normalized_display_name(opt_view(req.display_name), email) {
            Err(e) => Err(e),
            Ok(display_name) => match user_role(req.role@) {
                Err(e) => Err(e),
                Ok(role) => match creation_right(actor, role) {
                    Err(e) => Err(e),
                    Ok(_) => if req.password is Some && password_validity(req.password->0@) is Err {
                        Err(password_validity(req.password->0@)->Err_0)
                    } else {
                        Ok(NewUserView { email, display_name, role })
                    },
                },
            },
        },
    }
}

/// The user that an administrator's request describes, before anything is
/// looked up.
pub fn prepare_admin_user(req: &NewUserRequest, actor: Role) -> (r: Result<NewUser, ApiError>)
    ensures
        seen(r) == new_user(*req, actor),
{
    let email = match normalize_email(req.email.as_str()) {
        Ok(email) => email,
        Err(e) => {
            return Err(e);
        },
    };
    let given = match &req.display_name {
        Some(name) => Some(name.as_str()),
        None => None,
    };
    let display_name = match normalize_display_name(given, email.as_str()) {
        Ok(name) => name,
        Err(e) => {
            return Err(e);
        },
    };
    let role = match validate_user_role(req.role.as_str()) {
        Ok(role) => role,
        Err(e) => {
            return Err(e);
        },
    };
    match check_creation_right(actor, role) {
        Ok(_) => {},
        Err(e) => {
            return Err(e);
        },
    }
    match &req.password {
        Some(password) => match check_password_length(password.as_str()) {
            Ok(_) => {},
            Err(e) => {
                return Err(e);
            },
        },
        None => {},
    }
    Ok(NewUser { email, display_name, role })
}

/// A user is created by somebody who still administers the hub and still may,
/// under an address that nobody has.
pub open spec fn creation_check(actor: Option<Role>, role: Role, email_taken: bool) -> Result<
    (),
    ErrorView,
> {
    match actor {
        None => refused(Status::Forbidden, "administrator permission is required"@),
        Some(a) => match creation_right(a, role) {
            Err(e) => Err(e),
            Ok(_) => if email_taken {
                refused(Status::Conflict, "email already exists"@)
            } else {
                Ok(())
            },
        },
    }
}

/// The last check before a user is created: `actor` is the role that the
/// administrator has by now, if any.
pub fn check_user_creation(actor: Option<Role>, role: Role, email_taken: bool) -> (r: Result<
    (),
    ApiError,
>)
    ensures
        plain(r) == creation_check(actor, role, email_taken),
{
    match actor {
        None => Err(ApiError::forbidden("administrator permission is required")),
        Some(a) => match check_creation_right(a, role) {
            Err(e) => Err(e),
            Ok(_) => {
                if email_taken {
                    Err(ApiError::conflict("email already exists"))
                } else {
                    Ok(())
                }
            },
        },
    }
}

/// A change of a user's address: refused for a user that cannot be seen and
/// for an address that somebody else has; it ends the user's sessions when
/// the address is another one.
pub open spec fn email_change(
    existing: Option<Seq<char>>,
    email: Seq<char>,
    taken_by_other: bool,
) -> Result<bool, ErrorView> {
    match existing {
        None => refused(Status::NotFound, "user not found"@),
        Some(old_email) => if taken_by_other {
            refused(Status::Conflict, "email already exists"@)
        } else {
            Ok(old_email != email)
        },
    }
}

/// Whether a change of address ends the user's sessions, or why it is refused.
pub fn plan_email_change(existing: &Option<String>, email: &str, taken_by_other: bool) -> (r: Result<
    bool,
    ApiError,
>)
    ensures
        plain(r) == email_change(opt_view(*existing), email@, taken_by_other),
{
    match existing {
        None => Err(ApiError::not_found("user not found")),
        Some(old_email) => {
            if taken_by_other {
                Err(ApiError::conflict("email already exists"))
            } else {
                Ok(!same(old_email.as_str(), email))
            }
        },
    }
}

/// What a change of role needs to know before it is decided.
pub open spec fn needs_others(existing: Option<Role>, role: Role) -> bool {
    existing == Some(Role::SuperAdmin) && role != Role::SuperAdmin
}

/// A change of role: by a super administrator, of a user that is there, and
/// never of the last super administrator.
pub open spec fn role_change(
    actor_is_super: bool,
    existing: Option<Role>,
    role: Role,
    others_remain: bool,
) -> Result<(), ErrorView> {
    if !actor_is_super {
        refused(Status::Forbidden, "super administrator permission is required"@)
    } else if existing is None {
        refused(Status::NotFound, "user not found"@)
    } else if needs_others(existing, role) && !others_remain {
        refused(Status::Conflict, "at least one Super Administrator must remain"@)
    } else {
        Ok(())
    }
}

/// Whether a change of role must know if another super administrator remains.
pub fn role_change_needs_others(existing: Option<Role>, role: Role) -> (r: bool)
    ensures
        r == needs_others(existing, role),
{
    match existing {
        Some(e) => e == Role::SuperAdmin && role != Role::SuperAdmin,
        None => false,
    }
}

/// Decides a change of role.
pub fn check_role_change(
    actor_is_super: bool,
    existing: Option<Role>,
    role: Role,
    others_remain: bool,
) -> (r: Result<(), ApiError>)
    ensures
        plain(r) == role_change(actor_is_super, existing, role, others_remain),
{
    if !actor_is_super {
        return Err(ApiError::forbidden("super administrator permission is required"));
    }
    if existing.is_none() {
        return Err(ApiError::not_found("user not found"));
    }
    if role_change_needs_others(existing, role) && !others_remain {
        return Err(ApiError::conflict("at least one Super Administrator must remain"));
    }
    Ok(())
}

/// How many super administrators a hub has.
pub open spec fn super_administrators(roles: Map<Id, Role>) -> Set<Id> {
    roles.dom().filter(|id: Id| roles[id] == Role::SuperAdmin)
}

/// A change of role that is let through leaves a super administrator, if
/// there was one, whoever changes whom: what `others_remain` says of the
/// users is what makes it so.
pub proof fn a_super_administrator_remains(
    roles: Map<Id, Role>,
    user: Id,
    role: Role,
    actor_is_super: bool,
    others_remain: bool,
)
    requires
        roles.contains_key(user),
        exists|id: Id| #[trigger] super_administrators(roles).contains(id),
        others_remain <==> exists|id: Id|
            id != user && #[trigger] super_administrators(roles).contains(id),
        role_change(actor_is_super, Some(roles[user]), role, others_remain) is Ok,
    ensures
        exists|id: Id| #[trigger]
            super_administrators(roles.insert(user, role)).contains(id),
{
    let after = roles.insert(user, role);
    let id = choose|id: Id| #[trigger] super_administrators(roles).contains(id);
    if others_remain {
        let other = choose|id: Id|
            id != user && #[trigger] super_administrators(roles).contains(id);
        assert(super_administrators(after).contains(other));
    } else {
        assert(id == user);
        assert(super_administrators(after).contains(user));
    }
}

/// Settings of the hub that an administrator may change.
#[derive(Clone, Copy, Debug, PartialEq, Eq, Structural)]
pub struct SystemSettings {
    pub max_attachment_upload_bytes: i64,
    pub max_attachment_bytes_per_session: i64,
}

pub const DEFAULT_MAX_ATTACHMENT_UPLOAD_BYTES: i64 = 104_857_600;

pub const DEFAULT_MAX_ATTACHMENT_BYTES_PER_SESSION: i64 = 524_288_000;

/// The stored settings, or the ones the hub starts with.
pub fn effective_system_settings(stored: Option<SystemSettings>) -> (r: SystemSettings)
    ensures
        r == match stored {
            Some(settings) => settings,
            None => SystemSettings {
                max_attachment_upload_bytes: 104_857_600,
                max_attachment_bytes_per_session: 524_288_000,
            },
        },
        stored is Some ==> r == stored->0,
        stored is None ==> settings_validity(r) is Ok,
        stored is None ==> r.max_attachment_bytes_per_session == 5 * r.max_attachment_upload_bytes,
{
    match stored {
        Some(settings) => settings,
        None => SystemSettings {
            max_attachment_upload_bytes: DEFAULT_MAX_ATTACHMENT_UPLOAD_BYTES,
            max_attachment_bytes_per_session: DEFAULT_MAX_ATTACHMENT_BYTES_PER_SESSION,
        },
    }
}

/// An upload of 1 MiB to 1 GiB, and a session that holds at least one of it
/// and at most 10 GiB.
pub open spec fn settings_validity(s: SystemSettings) -> Result<(), ErrorView> {
    if !(1_048_576 <= s.max_attachment_upload_bytes <= 1_073_741_824) {
        refused(Status::BadRequest, "max attachment upload size must be between 1MB and 1GB"@)
    } else if s.max_attachment_bytes_per_session < s.max_attachment_upload_bytes {
        refused(
            Status::BadRequest,
            "max attachment bytes per session must not be smaller than the single upload limit"@,
        )
    } else if s.max_attachment_bytes_per_session > 10_737_418_240 {
        refused(Status::BadRequest, "max attachment bytes per session must not exceed 10GB"@)
    } else {
        Ok(())
    }
}

/// Accepts settings within their limits.
pub fn validate_system_settings(s: SystemSettings) -> (r: Result<(), ApiError>)
    ensures
        plain(r) == settings_validity(s),
{
    if s.max_attachment_upload_bytes < 1_048_576 || s.max_attachment_upload_bytes > 1_073_741_824 {
        return Err(
            ApiError::bad_request("max attachment upload size must be between 1MB and 1GB"),
        );
    }
    if s.max_attachment_bytes_per_session < s.max_attachment_upload_bytes {
        return Err(
            ApiError::bad_request(
                "max attachment bytes per session must not be smaller than the single upload limit",
            ),
        );
    }
    if s.max_attachment_bytes_per_session > 10_737_418_240 {
        return Err(
            ApiError::bad_request("max attachment bytes per session must not exceed 10GB"),
        );
    }
    Ok(())
}

// ---------------------------------------------------------------------------
// Ways to log in
// ---------------------------------------------------------------------------

/// The ways to log in that are open.
#[derive(Clone, Copy, Debug, PartialEq, Eq, Structural)]
pub struct LoginMethods {
    pub password_registration: bool,
    pub password_login: bool,
    pub ldap_login: bool,
}

/// Registration needs password login, and one way to log in stays open.
pub open spec fn methods_validity(next: LoginMethods) -> Result<(), ErrorView> {
    if next.password_registration && !next.password_login {
        refused(Status::Conflict, "password registration requires password login"@)
    } else if !next.password_login && !next.ldap_login {
        refused(Status::Conflict, "at least one ordinary login method must remain enabled"@)
    } else {
        Ok(())
    }
}

/// Accepts a choice of ways to log in by itself.
pub fn validate_login_methods(next: LoginMethods) -> (r: Result<(), ApiError>)
    ensures
        plain(r) == methods_validity(next),
{
    if next.password_registration && !next.password_login {
        return Err(ApiError::conflict("password registration requires password login"));
    }
    if !next.password_login && !next.ldap_login {
        return Err(ApiError::conflict("at least one ordinary login method must remain enabled"));
    }
    Ok(())
}

/// The change closes a way to log in that was open.
pub open spec fn closes_a_method(current: LoginMethods, next: LoginMethods) -> bool {
    (current.password_login && !next.password_login) || (current.ldap_login && !next.ldap_login)
}

/// Tells whether the change closes a way to log in that was open.
pub fn disables_login_method(current: LoginMethods, next: LoginMethods) -> (r: bool)
    ensures
        r == closes_a_method(current, next),
{
    (current.password_login && !next.password_login) || (current.ldap_login && !next.ldap_login)
}

/// A change of the ways to log in: directory login needs a directory, and to
/// close a way there must be a super administrator with a password.
pub open spec fn methods_change(
    current: LoginMethods,
    next: LoginMethods,
    ldap_configured: bool,
    emergency_access: bool,
) -> Result<(), ErrorView> {
    match methods_validity(next) {
        Err(e) => Err(e),
        Ok(_) => if next.ldap_login && !ldap_configured {
            refused(Status::Conflict, "LDAP must be configured before LDAP login is enabled"@)
        } else if closes_a_method(current, next) && !emergency_access {
            refused(Status::Conflict, "a Super Administrator with a local password is required"@)
        } else {
            Ok(())
        },
    }
}

/// Decides a change of the ways to log in.
pub fn check_login_methods_change(
    current: LoginMethods,
    next: LoginMethods,
    ldap_configured: bool,
    emergency_access: bool,
) -> (r: Result<(), ApiError>)
    ensures
        plain(r) == methods_change(current, next, ldap_configured, emergency_access),
{
    match validate_login_methods(next) {
        Ok(_) => {},
        Err(e) => {
            return Err(e);
        },
    }
    if next.ldap_login && !ldap_configured {
        return Err(ApiError::conflict("LDAP must be configured before LDAP login is enabled"));
    }
    if disables_login_method(current, next) && !emergency_access {
        return Err(ApiError::conflict("a Super Administrator with a local password is required"));
    }
    Ok(())
}

/// The login policy: the ways to log in that are open, and what the empty
/// fields of the login form show.
#[derive(Debug)]
pub struct LoginPolicy {
    pub methods: LoginMethods,
    pub email_placeholder: String,
    pub password_placeholder: String,
}

/// What a `LoginPolicy` holds.
pub struct LoginPolicyView {
    pub methods: LoginMethods,
    pub email_placeholder: Seq<char>,
    pub password_placeholder: Seq<char>,
}

impl View for LoginPolicy {
    type V = LoginPolicyView;

    open spec fn view(&self) -> LoginPolicyView {
        LoginPolicyView {
            methods: self.methods,
            email_placeholder: self.email_placeholder@,
            password_placeholder: self.password_placeholder@,
        }
    }
}

/// The login policy that a request leads to: its methods, and its placeholders
/// without the blanks around them.
pub open spec fn next_policy(
    current: LoginMethods,
    request: LoginPolicyView,
    ldap_configured: bool,
    emergency_access: bool,
) -> Result<LoginPolicyView, ErrorView> {
    match methods_change(current, request.methods, ldap_configured, emergency_access) {
        Err(e) => Err(e),
        Ok(_) => Ok(
            LoginPolicyView {
                methods: request.methods,
                email_placeholder: trimmed(request.email_placeholder),
                password_placeholder: trimmed(request.password_placeholder),
            },
        ),
    }
}

/// The login policy that is stored for a request, or why it is not.
pub fn stored_policy(
    current: LoginMethods,
    request: &LoginPolicy,
    ldap_configured: bool,
    emergency_access: bool,
) -> (r: Result<LoginPolicy, ApiError>)
    ensures
        seen(r) == next_policy(current, request@, ldap_configured, emergency_access),
{
    match check_login_methods_change(current, request.methods, ldap_configured, emergency_access) {
        Err(e) => Err(e),
        Ok(_) => Ok(
            LoginPolicy {
                methods: request.methods,
                email_placeholder: trim(request.email_placeholder.as_str()),
                password_placeholder: trim(request.password_placeholder.as_str()),
            },
        ),
    }
}

/// Whatever change is let through, people can still log in: one ordinary way
/// is open, directory login has its directory, and if a way was closed, a
/// super administrator with a password is there.
pub proof fn nobody_is_locked_out(
    current: LoginMethods,
    next: LoginMethods,
    ldap_configured: bool,
    emergency_access: bool,
)
    requires
        methods_change(current, next, ldap_configured, emergency_access) is Ok,
    ensures
        next.password_login || next.ldap_login,
        next.password_registration ==> next.password_login,
        next.ldap_login ==> ldap_configured,
        closes_a_method(current, next) ==> emergency_access,
{
}

/// Directory login is open, and there is a directory to ask.
pub open spec fn ldap_gate(enabled: bool, configured: bool) -> Result<(), ErrorView> {
    if !enabled {
        refused(Status::Forbidden, "LDAP login is disabled"@)
    } else if !configured {
        refused(Status::ServiceUnavailable, "LDAP service is temporarily unavailable"@)
    } else {
        Ok(())
    }
}

/// Lets a directory login begin, or refuses it.
pub fn check_ldap_login(enabled: bool, configured: bool) -> (r: Result<(), ApiError>)
    ensures
        plain(r) == ldap_gate(enabled, configured),
{
    if !enabled {
        return Err(ApiError::forbidden("LDAP login is disabled"));
    }
    if !configured {
        return Err(ApiError::service_unavailable("LDAP service is temporarily unavailable"));
    }
    Ok(())
}

/// A registration: while it is open, with a valid address and password. What
/// comes out is the address.
pub open spec fn registration(enabled: bool, email: Seq<char>, password: Seq<char>) -> Result<
    Seq<char>,
    ErrorView,
> {
    if !enabled {
        refused(Status::Forbidden, "password registration is disabled"@)
    } else {
        match normalized_email(email) {
            Err(e) => Err(e),
            Ok(address) => match password_validity(password) {
                Err(e) => Err(e),
                Ok(_) => Ok(address),
            },
        }
    }
}

/// The address of somebody who registers, or why they cannot.
pub fn check_registration(enabled: bool, email: &str, password: &str) -> (r: Result<
    String,
    ApiError,
>)
    ensures
        seen(r) == registration(enabled, email@, password@),
{
    if !enabled {
        return Err(ApiError::forbidden("password registration is disabled"));
    }
    match normalize_email(email) {
        Err(e) => Err(e),
        Ok(address) => match check_password_length(password) {
            Err(e) => Err(e),
            Ok(_) => Ok(address),
        },
    }
}

/// The last check of a registration, once users are locked.
pub open spec fn registration_check(enabled: bool, email_taken: bool) -> Result<(), ErrorView> {
    if !enabled {
        refused(Status::Forbidden, "password registration is disabled"@)
    } else if email_taken {
        refused(Status::Conflict, "email already exists"@)
    } else {
        Ok(())
    }
}

/// The last check of a registration, once users are locked.
pub fn check_registration_locked(enabled: bool, email_taken: bool) -> (r: Result<(), ApiError>)
    ensures
        plain(r) == registration_check(enabled, email_taken),
{
    if !enabled {
        return Err(ApiError::forbidden("password registration is disabled"));
    }
    if email_taken {
        return Err(ApiError::conflict("email already exists"));
    }
    Ok(())
}

// ---------------------------------------------------------------------------
// From a directory to a user
// ---------------------------------------------------------------------------

/// What to do with the user that a directory vouches for.
#[derive(Clone, Copy, Debug)]
pub enum DirectoryUser {
    /// The user is known; take over the name that the directory gives.
    Rename,
    /// The user is known and stays as it is.
    Keep,
    Create,
    Refuse(Refusal),
}

/// A user that is being erased cannot come back, a known one gets the name
/// that the directory gives, and an unknown one is created.
pub open spec fn directory_user(known: Option<bool>, has_name: bool) -> DirectoryUser {
    match known {
        Some(true) => DirectoryUser::Refuse(
            refusal(Status::Unauthorized, "invalid email or password"),
        ),
        Some(false) => if has_name {
            DirectoryUser::Rename
        } else {
            DirectoryUser::Keep
        },
        None => DirectoryUser::Create,
    }
}

/// What to do with the user that a directory vouches for. `known` says whether
/// the user with that address, if there is one, is being erased.
pub fn resolve_ldap_user(known: Option<bool>, has_name: bool) -> (r: DirectoryUser)
    ensures
        r == directory_user(known, has_name),
{
    match known {
        Some(true) => DirectoryUser::Refuse(
            refuse(Status::Unauthorized, "invalid email or password"),
        ),
        Some(false) => {
            if has_name {
                DirectoryUser::Rename
            } else {
                DirectoryUser::Keep
            }
        },
        None => DirectoryUser::Create,
    }
}

// ---------------------------------------------------------------------------
// From an outside identity to a user
// ---------------------------------------------------------------------------

/// What a trusted channel says of an outside identity, checked.
#[derive(Debug)]
pub struct ExternalIdentity {
    pub tenant_id: String,
    pub external_user_id: String,
    pub email: Option<String>,
    pub username: Option<String>,
}

/// What an `ExternalIdentity` holds.
pub struct ExternalIdentityView {
    pub tenant_id: Seq<char>,
    pub external_user_id: Seq<char>,
    pub email: Option<Seq<char>>,
    pub username: Option<Seq<char>>,
}

impl View for ExternalIdentity {
    type V = ExternalIdentityView;

    open spec fn view(&self) -> ExternalIdentityView {
        ExternalIdentityView {
            tenant_id: self.tenant_id@,
            external_user_id: self.external_user_id@,
            email: opt_view(self.email),
            username: opt_view(self.username),
        }
    }
}

/// The normal form of an address that may be missing.
pub open spec fn optional_email(email: Option<Seq<char>>) -> Result<Option<Seq<char>>, ErrorView> {
    match email {
        None => Ok(None),
        Some(e) => match normalized_email(e) {
            Ok(address) => Ok(Some(address)),
            Err(err) => Err(err),
        },
    }
}

/// The normal form of an address that may be missing.
pub fn normalize_optional_email(email: &Option<String>) -> (r: Result<Option<String>, ApiError>)
    ensures
        crate::error::seen_option(r) == optional_email(opt_view(*email)),
{
    match email {
        None => Ok(None),
        Some(e) => match normalize_email(e.as_str()) {
            Ok(address) => Ok(Some(address)),
            Err(err) => Err(err),
        },
    }
}

/// What a trusted channel says of an outside identity, checked.
pub open spec fn checked_identity(
    tenant_id: Seq<char>,
    user_id: Seq<char>,
    email: Option<Seq<char>>,
    username: Option<Seq<char>>,
) -> Result<ExternalIdentityView, ErrorView> {
    match origin_tenant(Some(tenant_id)) {
        Err(e) => Err(e),
        Ok(tenant) => match external_user_id(user_id) {
            Err(e) => Err(e),
            Ok(user) => match optional_email(email) {
                Err(e) => Err(e),
                Ok(address) => match valid_external_username(username) {
                    Err(e) => Err(e),
                    Ok(name) => Ok(
                        ExternalIdentityView {
                            tenant_id: tenant,
                            external_user_id: user,
                            email: address,
                            username: name,
                        },
                    ),
                },
            },
        },
    }
}

/// Checks what a trusted channel says of an outside identity.
pub fn check_external_identity(
    tenant_id: &str,
    external_user_id: &str,
    email: &Option<String>,
    username: &Option<String>,
) -> (r: Result<ExternalIdentity, ApiError>)
    ensures
        seen(r) == checked_identity(
            tenant_id@,
            external_user_id@,
            opt_view(*email),
            opt_view(*username),
        ),
{
    let tenant = match normalize_origin_tenant(Some(tenant_id)) {
        Ok(tenant) => tenant,
        Err(e) => {
            return Err(e);
        },
    };
    let user = match normalize_external_user_id(external_user_id) {
        Ok(user) => user,
        Err(e) => {
            return Err(e);
        },
    };
    let address = match normalize_optional_email(email) {
        Ok(address) => address,
        Err(e) => {
            return Err(e);
        },
    };
    let given = match username {
        Some(name) => Some(name.as_str()),
        None => None,
    };
    match validate_external_username(given) {
        Ok(name) => Ok(
            ExternalIdentity {
                tenant_id: tenant,
                external_user_id: user,
                email: address,
                username: name,
            },
        ),
        Err(e) => Err(e),
    }
}

/// A stored identity or user, and whether the user is being erased.
#[derive(Clone, Copy, Debug, PartialEq, Eq, Structural)]
pub struct KnownUser {
    pub user_id: Id,
    pub being_erased: bool,
}

/// How far the resolution of an outside identity has come.
#[derive(Clone, Copy, Debug, PartialEq, Eq, Structural)]
pub enum ResolveState {
    /// Waits to hear whether the channel is open and trusted.
    Channel,
    /// Waits for the stored identity.
    Identity,
    /// Waits for the user with the address that the channel vouches for.
    Email,
    Closed,
}

/// What was found.
#[derive(Clone, Copy, Debug, PartialEq, Eq, Structural)]
pub enum ResolveEvent {
    ChannelOpen(bool),
    IdentityIs(Option<KnownUser>),
    UserIs(Option<KnownUser>),
}

/// What to do next.
#[derive(Clone, Copy, Debug)]
pub enum ResolveAction {
    FindChannel,
    FindIdentity,
    FindUser,
    /// The identity is known: refresh it; it belongs to this user.
    Refresh(Id),
    /// Store the identity for this user.
    Link(Id),
    /// Create a user with the address and store the identity for it.
    CreateAndLink,
    Refuse(Refusal),
}

/// The event answers what the state waits for.
pub open spec fn resolve_expects(state: ResolveState, event: ResolveEvent) -> bool {
    match state {
        ResolveState::Channel => event is ChannelOpen,
        ResolveState::Identity => event is IdentityIs,
        ResolveState::Email => event is UserIs,
        ResolveState::Closed => false,
    }
}

/// A refusal that closes the resolution.
pub open spec fn resolve_refused(status: Status, message: &'static str) -> (
    ResolveState,
    ResolveAction,
) {
    (ResolveState::Closed, ResolveAction::Refuse(refusal(status, message)))
}

/// What follows: over an open channel a known identity leads to its user; an
/// unknown one is stored for the user with the vouched address, which is
/// created where there is none. Nobody who is being erased is let in, and
/// without an address nobody is created.
pub open spec fn resolve_next(has_email: bool, state: ResolveState, event: ResolveEvent) -> (
    ResolveState,
    ResolveAction,
) {
    match event {
        ResolveEvent::ChannelOpen(open) => if open {
            (ResolveState::Identity, ResolveAction::FindIdentity)
        } else {
            resolve_refused(Status::Forbidden, "authentication channel is unavailable")
        },
        ResolveEvent::IdentityIs(Some(known)) => if known.being_erased {
            resolve_refused(Status::Forbidden, "user account is unavailable")
        } else {
            (ResolveState::Closed, ResolveAction::Refresh(known.user_id))
        },
        ResolveEvent::IdentityIs(None) => if has_email {
            (ResolveState::Email, ResolveAction::FindUser)
        } else {
            resolve_refused(Status::BadRequest, "trusted email is required")
        },
        ResolveEvent::UserIs(Some(known)) => if known.being_erased {
            resolve_refused(Status::Forbidden, "user account is unavailable")
        } else {
            (ResolveState::Closed, ResolveAction::Link(known.user_id))
        },
        ResolveEvent::UserIs(None) => (ResolveState::Closed, ResolveAction::CreateAndLink),
    }
}

/// The start of the resolution of an outside identity.
pub fn begin_identity_resolution() -> (r: (ResolveState, ResolveAction))
    ensures
        r == (ResolveState::Channel, ResolveAction::FindChannel),
{
    (ResolveState::Channel, ResolveAction::FindChannel)
}

/// Takes the resolution of an outside identity one step on. `has_email` says
/// whether the channel vouches for an address.
pub fn resolve_external_identity(
    has_email: bool,
    state: ResolveState,
    event: ResolveEvent,
) -> (r: (ResolveState, ResolveAction))
    requires
        resolve_expects(state, event),
    ensures
        r == resolve_next(has_email, state, event),
{
    match event {
        ResolveEvent::ChannelOpen(open) => {
            if open {
                (ResolveState::Identity, ResolveAction::FindIdentity)
            } else {
                (
                    ResolveState::Closed,
                    ResolveAction::Refuse(
                        refuse(Status::Forbidden, "authentication channel is unavailable"),
                    ),
                )
            }
        },
        ResolveEvent::IdentityIs(Some(known)) => {
            if known.being_erased {
                (
                    ResolveState::Closed,
                    ResolveAction::Refuse(refuse(Status::Forbidden, "user account is unavailable")),
                )
            } else {
                (ResolveState::Closed, ResolveAction::Refresh(known.user_id))
            }
        },
        ResolveEvent::IdentityIs(None) => {
            if has_email {
                (ResolveState::Email, ResolveAction::FindUser)
            } else {
                (
                    ResolveState::Closed,
                    ResolveAction::Refuse(refuse(Status::BadRequest, "trusted email is required")),
                )
            }
        },
        ResolveEvent::UserIs(Some(known)) => {
            if known.being_erased {
                (
                    ResolveState::Closed,
                    ResolveAction::Refuse(refuse(Status::Forbidden, "user account is unavailable")),
                )
            } else {
                (ResolveState::Closed, ResolveAction::Link(known.user_id))
            }
        },
        ResolveEvent::UserIs(None) => (ResolveState::Closed, ResolveAction::CreateAndLink),
    }
}

/// Nobody who is being erased gets in, by a directory or by an outside
/// identity, and a user is created from an outside identity only where a
/// channel vouches for an address that no user has.
pub proof fn erased_users_stay_out(
    has_email: bool,
    state: ResolveState,
    event: ResolveEvent,
    has_name: bool,
)
    requires
        resolve_expects(state, event),
    ensures
        directory_user(Some(true), has_name) is Refuse,
        match event {
            ResolveEvent::IdentityIs(Some(known)) => known.being_erased ==> resolve_next(
                has_email,
                state,
                event,
            ).1 is Refuse,
            ResolveEvent::UserIs(Some(known)) => known.being_erased ==> resolve_next(
                has_email,
                state,
                event,
            ).1 is Refuse,
            _ => true,
        },
        resolve_next(has_email, state, event).1 is CreateAndLink ==> event
            == ResolveEvent::UserIs(None),
        resolve_next(has_email, state, event).1 is FindUser ==> has_email,
{
}

/// An outside identity as it is stored for a user.
#[derive(Debug)]
pub struct IdentityBinding {
    pub id: Id,
    pub platform_id: Id,
    pub tenant_id: String,
    pub external_user_id: String,
    pub user_id: Id,
    pub channel_id: Id,
    pub last_email: Option<String>,
    pub last_username: Option<String>,
}

/// What an `IdentityBinding` holds.
pub struct IdentityBindingView {
    pub id: Id,
    pub platform_id: Id,
    pub tenant_id: Seq<char>,
    pub external_user_id: Seq<char>,
    pub user_id: Id,
    pub channel_id: Id,
    pub last_email: Option<Seq<char>>,
    pub last_username: Option<Seq<char>>,
}

impl View for IdentityBinding {
    type V = IdentityBindingView;

    open spec fn view(&self) -> IdentityBindingView {
        IdentityBindingView {
            id: self.id,
            platform_id: self.platform_id,
            tenant_id: self.tenant_id@,
            external_user_id: self.external_user_id@,
            user_id: self.user_id,
            channel_id: self.channel_id,
            last_email: opt_view(self.last_email),
            last_username: opt_view(self.last_username),
        }
    }
}

/// A binding is that of this identity of a platform.
pub open spec fn binds(
    binding: IdentityBindingView,
    platform_id: Id,
    identity: ExternalIdentityView,
) -> bool {
    &&& binding.platform_id == platform_id
    &&& binding.tenant_id == identity.tenant_id
    &&& binding.external_user_id == identity.external_user_id
}

/// What is stored when an identity is linked to a user.
pub open spec fn linked(
    id: Id,
    platform_id: Id,
    channel_id: Id,
    user_id: Id,
    identity: ExternalIdentityView,
) -> IdentityBindingView {
    IdentityBindingView {
        id,
        platform_id,
        tenant_id: identity.tenant_id,
        external_user_id: identity.external_user_id,
        user_id,
        channel_id,
        last_email: identity.email,
        last_username: identity.username,
    }
}

/// What is stored when an identity is linked to a user.
pub fn link_identity(
    id: Id,
    platform_id: Id,
    channel_id: Id,
    user_id: Id,
    identity: &ExternalIdentity,
) -> (r: IdentityBinding)
    ensures
        r@ == linked(id, platform_id, channel_id, user_id, identity@),
{
    IdentityBinding {
        id,
        platform_id,
        tenant_id: identity.tenant_id.clone(),
        external_user_id: identity.external_user_id.clone(),
        user_id,
        channel_id,
        last_email: identity.email.clone(),
        last_username: identity.username.clone(),
    }
}

/// A binding after its identity came again over a channel: what the channel
/// says is kept, and where it says nothing, what was known before.
pub open spec fn refreshed(
    binding: IdentityBindingView,
    channel_id: Id,
    identity: ExternalIdentityView,
) -> IdentityBindingView {
    IdentityBindingView {
        channel_id,
        last_email: if identity.email is Some {
            identity.email
        } else {
            binding.last_email
        },
        last_username: if identity.username is Some {
            identity.username
        } else {
            binding.last_username
        },
        ..binding
    }
}

fn latest(said: &Option<String>, known: Option<String>) -> (r: Option<String>)
    ensures
        opt_view(r) == if said is Some {
            opt_view(*said)
        } else {
            opt_view(known)
        },
{
    match said {
        Some(text) => Some(text.clone()),
        None => known,
    }
}

/// The binding as it is stored once its identity came again.
pub fn refresh_identity(
    binding: IdentityBinding,
    channel_id: Id,
    identity: &ExternalIdentity,
) -> (r: IdentityBinding)
    ensures
        r@ == refreshed(binding@, channel_id, identity@),
{
    IdentityBinding {
        channel_id,
        last_email: latest(&identity.email, binding.last_email),
        last_username: latest(&identity.username, binding.last_username),
        ..binding
    }
}

/// An identity leads to the same user every time: the binding that the first
/// resolution stored is that of the identity, for the user that was found or
/// created, and stays so however often the identity comes again; as long as
/// that user is not being erased, it is refreshed and nobody is created or
/// linked.
pub proof fn identities_lead_to_one_user(
    id: Id,
    platform_id: Id,
    first_channel: Id,
    user_id: Id,
    first: ExternalIdentityView,
    channel_id: Id,
    again: ExternalIdentityView,
    has_email: bool,
)
    requires
        again.tenant_id == first.tenant_id,
        again.external_user_id == first.external_user_id,
    ensures
        ({
            let stored = linked(id, platform_id, first_channel, user_id, first);
            let after = refreshed(stored, channel_id, again);
            &&& binds(stored, platform_id, again)
            &&& resolve_next(
                has_email,
                ResolveState::Identity,
                ResolveEvent::IdentityIs(
                    Some(KnownUser { user_id: stored.user_id, being_erased: false }),
                ),
            ) == (ResolveState::Closed, ResolveAction::Refresh(user_id))
            &&& binds(after, platform_id, again)
            &&& after.id == id
            &&& after.user_id == user_id
        }),
{
}

/// Only a super administrator makes administrators, and anyone who may make
/// users makes ordinary ones; one address is one user.
pub proof fn administrators_are_made_from_above(actor: Role, role: Role, email_taken: bool)
    ensures
        creation_right(actor, role) is Ok <==> actor == Role::SuperAdmin || role == Role::Member,
        creation_check(None, role, email_taken) is Err,
        creation_check(Some(actor), role, email_taken) is Ok <==> (actor == Role::SuperAdmin || role
            == Role::Member) && !email_taken,
        creation_check(None, role, email_taken)->Err_0.status == Status::Forbidden,
        creation_right(actor, role) is Err ==> creation_check(
            Some(actor),
            role,
            email_taken,
        )->Err_0.status == Status::Forbidden,
        creation_right(actor, role) is Ok && email_taken ==> creation_check(
            Some(actor),
            role,
            email_taken,
        )->Err_0.status == Status::Conflict,
{
}

/// A password holds 8 to 1024 bytes.
pub proof fn passwords_have_a_length(password: Seq<char>)
    ensures
        password_validity(password) is Ok <==> 8 <= byte_count(password) && byte_count(password)
            <= 1024,
        password_validity(password) matches Err(e) ==> e.status == Status::BadRequest,
{
}

/// A new user has the address, the name and the role that were asked for, and
/// is only made with all of them valid, and a valid password where one is set.
pub proof fn new_users_are_as_asked(req: NewUserRequest, actor: Role)
    ensures
        new_user(req, actor) is Ok <==> {
            &&& normalized_email(req.email@) is Ok
            &&& normalized_display_name(
                opt_view(req.display_name),
                normalized_email(req.email@)->Ok_0,
            ) is Ok
            &&& user_role(req.role@) is Ok
            &&& actor == Role::SuperAdmin || user_role(req.role@)->Ok_0 == Role::Member
            &&& req.password is Some ==> 8 <= byte_count(req.password->0@) <= 1024
        },
        new_user(req, actor) matches Ok(user) ==> {
            &&& user.email == normalized_email(req.email@)->Ok_0
            &&& user.role == user_role(req.role@)->Ok_0
            &&& user.display_name == normalized_display_name(
                opt_view(req.display_name),
                user.email,
            )->Ok_0
        },
{
}

/// An address is changed for a user that is there, to one that nobody else
/// has; only another address is a change.
pub proof fn addresses_stay_unique(
    existing: Option<Seq<char>>,
    email: Seq<char>,
    taken_by_other: bool,
)
    ensures
        email_change(existing, email, taken_by_other) is Ok <==> existing is Some
            && !taken_by_other,
        email_change(existing, email, taken_by_other) matches Ok(changed) ==> (changed <==> email
            != existing->0),
        existing is None ==> email_change(existing, email, taken_by_other)->Err_0.status
            == Status::NotFound,
        existing is Some && taken_by_other ==> email_change(
            existing,
            email,
            taken_by_other,
        )->Err_0.status == Status::Conflict,
{
}

/// Roles are changed by super administrators, for users that are there; only
/// the last super administrator must stay one.
pub proof fn roles_are_changed_from_above(
    actor_is_super: bool,
    existing: Option<Role>,
    role: Role,
    others_remain: bool,
)
    ensures
        role_change(actor_is_super, existing, role, others_remain) is Ok <==> actor_is_super
            && existing is Some && (existing == Some(Role::SuperAdmin) && role != Role::SuperAdmin
            ==> others_remain),
        !actor_is_super ==> role_change(
            actor_is_super,
            existing,
            role,
            others_remain,
        )->Err_0.status == Status::Forbidden,
        actor_is_super && existing is None ==> role_change(
            actor_is_super,
            existing,
            role,
            others_remain,
        )->Err_0.status == Status::NotFound,
        needs_others(existing, role) <==> existing == Some(Role::SuperAdmin) && (role == Role::Admin
            || role == Role::Member),
{
}

/// The limits for attachments: an upload of one megabyte to one gigabyte, and
/// room in a session for at least one of them, and for ten gigabytes at most.
pub proof fn limits_leave_room_for_an_upload(s: SystemSettings)
    ensures
        settings_validity(s) is Ok <==> 1_048_576 <= s.max_attachment_upload_bytes
            <= 1_073_741_824 && s.max_attachment_upload_bytes
            <= s.max_attachment_bytes_per_session <= 10_737_418_240,
        settings_validity(
            SystemSettings {
                max_attachment_upload_bytes: 104_857_600,
                max_attachment_bytes_per_session: 524_288_000,
            },
        ) is Ok,
{
}

/// Login methods may change to whatever leaves a way in: registration needs
/// password logins, a directory must be there before it is used, and nothing
/// is closed without a way in for emergencies.
pub proof fn login_methods_leave_a_way_in(
    current: LoginMethods,
    next: LoginMethods,
    ldap_configured: bool,
    emergency_access: bool,
)
    ensures
        methods_change(current, next, ldap_configured, emergency_access) is Ok <==> {
            &&& next.password_login || next.ldap_login
            &&& next.password_registration ==> next.password_login
            &&& next.ldap_login ==> ldap_configured
            &&& (current.password_login && !next.password_login) || (current.ldap_login
                && !next.ldap_login) ==> emergency_access
        },
        methods_validity(next) is Ok <==> (next.password_login || next.ldap_login) && (
        next.password_registration ==> next.password_login),
        closes_a_method(current, next) <==> (current.password_login && !next.password_login) || (
        current.ldap_login && !next.ldap_login),
        methods_change(current, next, ldap_configured, emergency_access) matches Err(e) ==> e.status
            == Status::Conflict,
        !closes_a_method(current, current),
{
}

/// A policy that is accepted is stored as it was asked for, its texts trimmed.
pub proof fn policies_are_stored_as_asked(
    current: LoginMethods,
    request: LoginPolicyView,
    ldap_configured: bool,
    emergency_access: bool,
)
    ensures
        next_policy(current, request, ldap_configured, emergency_access) is Ok <==> methods_change(
            current,
            request.methods,
            ldap_configured,
            emergency_access,
        ) is Ok,
        next_policy(current, request, ldap_configured, emergency_access) matches Ok(policy)
            ==> policy.methods == request.methods && policy.email_placeholder == trimmed(
            request.email_placeholder,
        ) && policy.password_placeholder == trimmed(request.password_placeholder),
{
}

/// Logins by the directory are open where they are enabled and there is one;
/// registration where it is enabled, for an address that is free, with a
/// valid password.
pub proof fn doors_are_open_where_they_are_enabled(
    enabled: bool,
    configured: bool,
    email: Seq<char>,
    password: Seq<char>,
    email_taken: bool,
)
    ensures
        ldap_gate(enabled, configured) is Ok <==> enabled && configured,
        !enabled ==> ldap_gate(enabled, configured)->Err_0.status == Status::Forbidden,
        enabled && !configured ==> ldap_gate(enabled, configured)->Err_0.status
            == Status::ServiceUnavailable,
        registration(enabled, email, password) is Ok <==> enabled && normalized_email(email) is Ok
            && 8 <= byte_count(password) <= 1024,
        registration(enabled, email, password) matches Ok(address) ==> address == normalized_email(
            email,
        )->Ok_0,
        registration_check(enabled, email_taken) is Ok <==> enabled && !email_taken,
        !enabled ==> registration(enabled, email, password)->Err_0.status == Status::Forbidden
            && registration_check(enabled, email_taken)->Err_0.status == Status::Forbidden,
        enabled && email_taken ==> registration_check(enabled, email_taken)->Err_0.status
            == Status::Conflict,
{
}

/// A user of the directory is created where unknown, and kept where known,
/// under the name that the directory gives, if it gives one.
pub proof fn directory_users_are_kept(being_erased: bool, has_name: bool)
    ensures
        directory_user(None, has_name) is Create,
        directory_user(Some(being_erased), has_name) is Refuse <==> being_erased,
        directory_user(Some(false), true) is Rename,
        directory_user(Some(false), false) is Keep,
        directory_user(Some(true), has_name) matches DirectoryUser::Refuse(e) ==> e.status
            == Status::Unauthorized,
{
}

/// An outside identity is checked part by part, and holds what was read.
pub proof fn identities_are_checked_part_by_part(
    tenant: Seq<char>,
    user: Seq<char>,
    email: Option<Seq<char>>,
    username: Option<Seq<char>>,
)
    ensures
        checked_identity(tenant, user, email, username) is Ok <==> {
            &&& origin_tenant(Some(tenant)) is Ok
            &&& external_user_id(user) is Ok
            &&& optional_email(email) is Ok
            &&& valid_external_username(username) is Ok
        },
        checked_identity(tenant, user, email, username) matches Ok(identity) ==> {
            &&& identity.tenant_id == origin_tenant(Some(tenant))->Ok_0
            &&& identity.external_user_id == external_user_id(user)->Ok_0
            &&& identity.email == optional_email(email)->Ok_0
            &&& identity.username == valid_external_username(username)->Ok_0
        },
        optional_email(None) == Ok::<Option<Seq<char>>, ErrorView>(None),
        email is Some ==> (optional_email(email) is Ok <==> normalized_email(email->0) is Ok),
        email is Some && optional_email(email) is Ok ==> optional_email(email)->Ok_0 == Some(
            normalized_email(email->0)->Ok_0,
        ),
{
}

/// An identity is resolved over an open channel: to the user it belongs to,
/// else to the user with the vouched address, else to a new user; never
/// without an address, and never to a user who is being erased.
pub proof fn identities_are_resolved_in_order(has_email: bool, open: bool, user_id: Id, erased: bool)
    ensures
        resolve_next(has_email, ResolveState::Channel, ResolveEvent::ChannelOpen(open)).1
            is FindIdentity <==> open,
        !open ==> resolve_next(
            has_email,
            ResolveState::Channel,
            ResolveEvent::ChannelOpen(open),
        ).1 is Refuse,
        ({
            let known = KnownUser { user_id, being_erased: erased };
            let by_identity = resolve_next(
                has_email,
                ResolveState::Identity,
                ResolveEvent::IdentityIs(Some(known)),
            ).1;
            let by_address = resolve_next(
                has_email,
                ResolveState::Email,
                ResolveEvent::UserIs(Some(known)),
            ).1;
            &&& by_identity == ResolveAction::Refresh(user_id) <==> !erased
            &&& by_address == ResolveAction::Link(user_id) <==> !erased
            &&& erased ==> by_identity is Refuse && by_address is Refuse
        }),
        resolve_next(has_email, ResolveState::Identity, ResolveEvent::IdentityIs(None)).1
            is FindUser <==> has_email,
        !has_email ==> resolve_next(
            has_email,
            ResolveState::Identity,
            ResolveEvent::IdentityIs(None),
        ).1 is Refuse,
        resolve_next(has_email, ResolveState::Email, ResolveEvent::UserIs(None)).1 is CreateAndLink,
{
}

/// A link keeps what the identity says, and a refresh takes over what is said
/// and forgets nothing.
pub proof fn bindings_forget_nothing(
    id: Id,
    platform_id: Id,
    channel_id: Id,
    user_id: Id,
    identity: ExternalIdentityView,
    binding: IdentityBindingView,
)
    ensures
        ({
            let new = linked(id, platform_id, channel_id, user_id, identity);
            &&& new.id == id && new.user_id == user_id && new.platform_id == platform_id
            &&& new.channel_id == channel_id
            &&& new.last_email == identity.email && new.last_username == identity.username
            &&& new.tenant_id == identity.tenant_id
            &&& new.external_user_id == identity.external_user_id
        }),
        ({
            let after = refreshed(binding, channel_id, identity);
            &&& after.channel_id == channel_id
            &&& after.last_email is None ==> binding.last_email is None && identity.email is None
            &&& identity.email is Some ==> after.last_email == identity.email
            &&& identity.email is None ==> after.last_email == binding.last_email
            &&& identity.username is Some ==> after.last_username == identity.username
            &&& identity.username is None ==> after.last_username == binding.last_username
            &&& after.platform_id == binding.platform_id && after.tenant_id == binding.tenant_id
            &&& after.external_user_id == binding.external_user_id
            &&& after.id == binding.id && after.user_id == binding.user_id
        }),
{
}

/// Who may not, what is not there and what would leave the hub without a way
/// in are told apart.
pub proof fn refused_changes_say_why(
    existing: Option<Role>,
    role: Role,
    s: SystemSettings,
    password: Seq<char>,
    current: LoginMethods,
    next: LoginMethods,
    ldap_configured: bool,
    emergency_access: bool,
)
    ensures
        existing is Some ==> (role_change(true, existing, role, false) matches Err(e) ==> e.status
            == Status::Conflict),
        settings_validity(s) matches Err(e) ==> e.status == Status::BadRequest,
        password_validity(password) matches Err(e) ==> e.status == Status::BadRequest,
        methods_validity(next) matches Err(e) ==> e.status == Status::Conflict,
        methods_change(current, next, ldap_configured, emergency_access) matches Err(e)
            ==> e.status == Status::Conflict,
{
}

/// Each step of the resolution waits for the next one's answer, and a refusal
/// ends it: with nobody let in over a closed channel or to an account that is
/// being erased, and nobody created without an address.
pub proof fn resolutions_end_as_they_should(has_email: bool, user_id: Id, any: ResolveState)
    ensures
        ({
            let gone = KnownUser { user_id, being_erased: true };
            let there = KnownUser { user_id, being_erased: false };
            &&& resolve_next(has_email, any, ResolveEvent::ChannelOpen(true)).0
                == ResolveState::Identity
            &&& resolve_next(has_email, any, ResolveEvent::ChannelOpen(false)).1 matches
                ResolveAction::Refuse(e) && e.status == Status::Forbidden
            &&& resolve_next(has_email, any, ResolveEvent::IdentityIs(Some(gone))).1 matches
                ResolveAction::Refuse(e) && e.status == Status::Forbidden
            &&& resolve_next(has_email, any, ResolveEvent::IdentityIs(Some(there))).0
                == ResolveState::Closed
            &&& resolve_next(true, any, ResolveEvent::IdentityIs(None)).0 == ResolveState::Email
            &&& resolve_next(false, any, ResolveEvent::IdentityIs(None)).1 matches
                ResolveAction::Refuse(e) && e.status == Status::BadRequest
            &&& resolve_next(has_email, any, ResolveEvent::UserIs(Some(gone))).1 matches
                ResolveAction::Refuse(e) && e.status == Status::Forbidden
            &&& resolve_next(has_email, any, ResolveEvent::UserIs(Some(there))).0
                == ResolveState::Closed
            &&& resolve_next(has_email, any, ResolveEvent::UserIs(None)).0 == ResolveState::Closed
        }),
{
}

} // verus!
