//! Logging in against a directory: the configuration, the texts sent to the
//! server, the conversation with it, and the user that its answer names.

use crate::error::{error_of, plain, refused, seen, ApiError, ErrorView, Status};
use crate::identity::{
    email_local_part, local_part, normalize_display_name, normalize_email, normalized_display_name,
    normalized_email,
};
use crate::ids::hex_digit;
use crate::text::{
    alphanumeric, any_control, blank, byte_count, byte_len, chars_of, count_text, has_control,
    is_alphanumeric, join, lowered, occurrences, opt_view, replace_first, replaced_first, same,
    same_ignoring_case, trim, trimmed, views,
};
use crate::web::{parse_url, parsed_url, url_view, UrlParts, UrlView};
use vstd::prelude::*;

verus! {

// ---------------------------------------------------------------------------
// Configuration
// ---------------------------------------------------------------------------

/// How the connection to the directory is protected.
#[derive(Clone, Copy, Debug, PartialEq, Eq, Structural)]
pub enum LdapSecurityMode {
    Ldaps,
    Starttls,
    Plain,
}

/// The name of a mode.
pub open spec fn mode_text(mode: LdapSecurityMode) -> Seq<char> {
    match mode {
        LdapSecurityMode::Ldaps => "ldaps"@,
        LdapSecurityMode::Starttls => "starttls"@,
        LdapSecurityMode::Plain => "plain"@,
    }
}

/// The name of a mode.
pub fn ldap_security_mode_name(mode: LdapSecurityMode) -> (r: &'static str)
    ensures
        r@ == mode_text(mode),
{
    match mode {
        LdapSecurityMode::Ldaps => "ldaps",
        LdapSecurityMode::Starttls => "starttls",
        LdapSecurityMode::Plain => "plain",
    }
}

/// The mode that a stored name stands for.
pub open spec fn mode_stored(name: Seq<char>) -> Result<LdapSecurityMode, ErrorView> {
    if name == "ldaps"@ {
        Ok(LdapSecurityMode::Ldaps)
    } else if name == "starttls"@ {
        Ok(LdapSecurityMode::Starttls)
    } else if name == "plain"@ {
        Ok(LdapSecurityMode::Plain)
    } else {
        refused(Status::Internal, "stored LDAP security mode is invalid"@)
    }
}

/// The mode that a stored name stands for.
pub fn stored_ldap_security_mode(name: &str) -> (r: Result<LdapSecurityMode, ApiError>)
    ensures
        plain(r) == mode_stored(name@),
{
    if same(name, "ldaps") {
        Ok(LdapSecurityMode::Ldaps)
    } else if same(name, "starttls") {
        Ok(LdapSecurityMode::Starttls)
    } else if same(name, "plain") {
        Ok(LdapSecurityMode::Plain)
    } else {
        Err(ApiError::internal("stored LDAP security mode is invalid"))
    }
}

/// A mode is what its name is read as.
pub proof fn mode_names_read_back(mode: LdapSecurityMode)
    ensures
        mode_stored(mode_text(mode)) == Ok::<LdapSecurityMode, ErrorView>(mode),
{
    reveal_strlit("ldaps");
    reveal_strlit("starttls");
    reveal_strlit("plain");
    assert("ldaps"@[0] == 'l' && "starttls"@[0] == 's' && "plain"@[0] == 'p');
}

/// How to reach a directory and find users in it.
#[derive(Debug)]
pub struct LdapConfiguration {
    pub url: String,
    pub security: LdapSecurityMode,
    pub base_dn: String,
    pub bind_identity_template: String,
    pub user_filter: String,
    pub email_attribute: String,
    pub display_name_attribute: String,
    pub allow_insecure: bool,
    pub skip_tls_verify: bool,
}

/// What an `LdapConfiguration` holds.
pub struct LdapConfigurationView {
    pub url: Seq<char>,
    pub security: LdapSecurityMode,
    pub base_dn: Seq<char>,
    pub bind_identity_template: Seq<char>,
    pub user_filter: Seq<char>,
    pub email_attribute: Seq<char>,
    pub display_name_attribute: Seq<char>,
    pub allow_insecure: bool,
    pub skip_tls_verify: bool,
}

impl View for LdapConfiguration {
    type V = LdapConfigurationView;

    open spec fn view(&self) -> LdapConfigurationView {
        LdapConfigurationView {
            url: self.url@,
            security: self.security,
            base_dn: self.base_dn@,
            bind_identity_template: self.bind_identity_template@,
            user_filter: self.user_filter@,
            email_attribute: self.email_attribute@,
            display_name_attribute: self.display_name_attribute@,
            allow_insecure: self.allow_insecure,
            skip_tls_verify: self.skip_tls_verify,
        }
    }
}

/// The configuration with every text trimmed.
pub open spec fn trimmed_configuration(c: LdapConfigurationView) -> LdapConfigurationView {
    LdapConfigurationView {
        url: trimmed(c.url),
        base_dn: trimmed(c.base_dn),
        bind_identity_template: trimmed(c.bind_identity_template),
        user_filter: trimmed(c.user_filter),
        email_attribute: trimmed(c.email_attribute),
        display_name_attribute: trimmed(c.display_name_attribute),
        ..c
    }
}

/// A URL with nothing but a scheme, a host and perhaps a port.
pub open spec fn server_only(url: UrlView) -> bool {
    &&& url.host is Some
    &&& url.username.len() == 0
    &&& url.password is None
    &&& url.query is None
    &&& url.fragment is None
    &&& url.path.len() == 0 || url.path == "/"@
}

/// The URL scheme of each mode.
pub open spec fn mode_scheme(mode: LdapSecurityMode) -> Seq<char> {
    match mode {
        LdapSecurityMode::Ldaps => "ldaps"@,
        _ => "ldap"@,
    }
}

/// A template that takes an e-mail address in one place.
pub open spec fn valid_template(t: Seq<char>) -> bool {
    byte_count(t) <= 4096 && occurrences(t, "{email}"@) == 1 && !has_control(t)
}

/// A character of an attribute name.
pub open spec fn attribute_char(c: char) -> bool {
    is_alphanumeric(c) || c == '-' || c == '.' || c == '_'
}

/// A name of a directory attribute.
pub open spec fn valid_attribute(name: Seq<char>) -> bool {
    &&& name.len() > 0
    &&& byte_count(name) <= 128
    &&& forall|i: int| 0 <= i < name.len() ==> attribute_char(#[trigger] name[i])
}

/// The outcome of looking at an attribute name.
pub open spec fn attribute_validity(name: Seq<char>, field: Seq<char>) -> Result<(), ErrorView> {
    if valid_attribute(name) {
        Ok(())
    } else {
        refused(Status::BadRequest, "valid LDAP "@ + field + " is required"@)
    }
}

/// Accepts a name of a directory attribute.
pub fn validate_ldap_attribute_name(value: &str, field: &str) -> (r: Result<(), ApiError>)
    ensures
        plain(r) == attribute_validity(value@, field@),
{
    let chars = chars_of(value);
    let mut good = chars.len() > 0 && byte_len(value) <= 128;
    let mut i: usize = 0;
    while good && i < chars.len()
        invariant
            i <= chars@.len(),
            chars@ == value@,
            good ==> chars@.len() > 0 && byte_count(value@) <= 128 && forall|k: int|
                0 <= k < i ==> attribute_char(#[trigger] chars@[k]),
            !good ==> !valid_attribute(value@),
        decreases chars@.len() - i,
    {
        let c = chars[i];
        good = alphanumeric(c) || c == '-' || c == '.' || c == '_';
        assert(good == attribute_char(chars@[i as int]));
        i = i + 1;
    }
    if good {
        Ok(())
    } else {
        let mut message = join("valid LDAP ", field);
        message.append(" is required");
        Err(ApiError::bad_request(message.as_str()))
    }
}

/// Whether a trimmed configuration is accepted, given how its URL reads.
pub open spec fn configuration_validity(
    c: LdapConfigurationView,
    url: Option<UrlView>,
) -> Result<LdapConfigurationView, ErrorView> {
    match url {
        None => refused(Status::BadRequest, "LDAP URL is invalid"@),
        Some(u) => if !server_only(u) {
            refused(
                Status::BadRequest,
                "LDAP URL must contain only a server address without credentials"@,
            )
        } else if u.scheme != mode_scheme(c.security) {
            refused(Status::BadRequest, "LDAP URL scheme does not match the security mode"@)
        } else if c.security == LdapSecurityMode::Plain && !c.allow_insecure {
            refused(Status::BadRequest, "plain LDAP requires explicit insecure transport approval"@)
        } else if c.security == LdapSecurityMode::Plain && c.skip_tls_verify {
            refused(Status::BadRequest, "TLS verification can only be skipped for TLS connections"@)
        } else if c.base_dn.len() == 0 || byte_count(c.base_dn) > 4096 || has_control(c.base_dn) {
            refused(Status::BadRequest, "valid LDAP Base DN is required"@)
        } else if !valid_template(c.bind_identity_template) {
            refused(
                Status::BadRequest,
                "LDAP Bind identity template must contain exactly one {email} placeholder"@,
            )
        } else if !valid_template(c.user_filter) {
            refused(
                Status::BadRequest,
                "LDAP user filter must contain exactly one {email} placeholder"@,
            )
        } else {
            match attribute_validity(c.email_attribute, "email attribute"@) {
                Err(e) => Err(e),
                Ok(_) => match attribute_validity(
                    c.display_name_attribute,
                    "display name attribute"@,
                ) {
                    Err(e) => Err(e),
                    Ok(_) => Ok(c),
                },
            }
        },
    }
}

fn is_server_only(url: &UrlParts) -> (r: bool)
    ensures
        r == server_only(url@),
{
    url.host.is_some() && url.username.as_str().is_empty() && url.password.is_none()
        && url.query.is_none() && url.fragment.is_none() && (url.path.as_str().is_empty() || same(
        url.path.as_str(),
        "/",
    ))
}

fn is_valid_template(t: &str) -> (r: bool)
    ensures
        r == valid_template(t@),
{
    proof {
        reveal_strlit("{email}");
    }
    byte_len(t) <= 4096 && count_text(t, "{email}") == 1 && !any_control(t)
}

/// Whether a configuration whose texts are trimmed is accepted, given how its
/// URL reads.
pub fn check_ldap_configuration(c: LdapConfiguration, url: &Option<UrlParts>) -> (r: Result<
    LdapConfiguration,
    ApiError,
>)
    ensures
        seen(r) == configuration_validity(c@, url_view(*url)),
{
    let parts = match url {
        Some(parts) => parts,
        None => {
            return Err(ApiError::bad_request("LDAP URL is invalid"));
        },
    };
    if !is_server_only(parts) {
        return Err(
            ApiError::bad_request("LDAP URL must contain only a server address without credentials"),
        );
    }
    let expected = match c.security {
        LdapSecurityMode::Ldaps => "ldaps",
        LdapSecurityMode::Starttls | LdapSecurityMode::Plain => "ldap",
    };
    if !same(parts.scheme.as_str(), expected) {
        return Err(ApiError::bad_request("LDAP URL scheme does not match the security mode"));
    }
    if c.security == LdapSecurityMode::Plain && !c.allow_insecure {
        return Err(
            ApiError::bad_request("plain LDAP requires explicit insecure transport approval"),
        );
    }
    if c.security == LdapSecurityMode::Plain && c.skip_tls_verify {
        return Err(
            ApiError::bad_request("TLS verification can only be skipped for TLS connections"),
        );
    }
    if c.base_dn.as_str().is_empty() || byte_len(c.base_dn.as_str()) > 4096 || any_control(
        c.base_dn.as_str(),
    ) {
        return Err(ApiError::bad_request("valid LDAP Base DN is required"));
    }
    if !is_valid_template(c.bind_identity_template.as_str()) {
        return Err(
            ApiError::bad_request(
                "LDAP Bind identity template must contain exactly one {email} placeholder",
            ),
        );
    }
    if !is_valid_template(c.user_filter.as_str()) {
        return Err(
            ApiError::bad_request("LDAP user filter must contain exactly one {email} placeholder"),
        );
    }
    match validate_ldap_attribute_name(c.email_attribute.as_str(), "email attribute") {
        Err(e) => {
            return Err(e);
        },
        Ok(_) => {},
    }
    match validate_ldap_attribute_name(
        c.display_name_attribute.as_str(),
        "display name attribute",
    ) {
        Err(e) => Err(e),
        Ok(_) => Ok(c),
    }
}

/// Trims a configuration and accepts it, or says what is wrong with it.
pub fn validate_ldap_configuration(configuration: LdapConfiguration) -> (r: Result<
    LdapConfiguration,
    ApiError,
>)
    ensures
        seen(r) == configuration_validity(
            trimmed_configuration(configuration@),
            parsed_url(trimmed(configuration@.url)),
        ),
{
    let c = LdapConfiguration {
        url: trim(configuration.url.as_str()),
        security: configuration.security,
        base_dn: trim(configuration.base_dn.as_str()),
        bind_identity_template: trim(configuration.bind_identity_template.as_str()),
        user_filter: trim(configuration.user_filter.as_str()),
        email_attribute: trim(configuration.email_attribute.as_str()),
        display_name_attribute: trim(configuration.display_name_attribute.as_str()),
        allow_insecure: configuration.allow_insecure,
        skip_tls_verify: configuration.skip_tls_verify,
    };
    let url = parse_url(c.url.as_str());
    check_ldap_configuration(c, &url)
}

// ---------------------------------------------------------------------------
// What is sent to the directory
// ---------------------------------------------------------------------------

/// A backslash and the two hexadecimal digits of a character.
pub open spec fn hex_escape(c: char) -> Seq<char> {
    seq!['\\', hex_digit(c as nat / 16), hex_digit(c as nat % 16)]
}

/// The characters that have a meaning in a filter.
pub open spec fn filter_special(c: char) -> bool {
    c == '\\' || c == '*' || c == '(' || c == ')' || c == '\u{0}'
}

/// A text as a literal in a filter.
pub open spec fn filter_literal(s: Seq<char>) -> Seq<char>
    decreases s.len(),
{
    if s.len() == 0 {
        seq![]
    } else if filter_special(s.last()) {
        filter_literal(s.drop_last()) + hex_escape(s.last())
    } else {
        filter_literal(s.drop_last()).push(s.last())
    }
}

/// The characters of a distinguished name's value that are escaped: those
/// with a meaning everywhere, a space or hash sign in front, and a space at
/// the end.
pub open spec fn dn_special(s: Seq<char>, i: int) -> bool {
    let c = s[i];
    ||| c == '"' || c == '+' || c == ',' || c == ';' || c == '<' || c == '=' || c == '>'
    ||| c == '\\' || c == '\u{0}'
    ||| i == 0 && (c == ' ' || c == '#')
    ||| i == s.len() - 1 && c == ' '
}

/// The first `n` characters of a text as part of a distinguished name.
pub open spec fn dn_prefix(s: Seq<char>, n: int) -> Seq<char>
    decreases n,
{
    if n <= 0 {
        seq![]
    } else if dn_special(s, n - 1) {
        dn_prefix(s, n - 1) + hex_escape(s[n - 1])
    } else {
        dn_prefix(s, n - 1).push(s[n - 1])
    }
}

/// A text as a value in a distinguished name.
pub open spec fn dn_literal(s: Seq<char>) -> Seq<char> {
    dn_prefix(s, s.len() as int)
}

/// `ldap3::ldap_escape`: backslash, asterisk, parentheses and NUL become a
/// backslash and two hexadecimal digits; everything else stays.
#[verifier::external_body]
fn ldap_escape(text: &str) -> (r: String)
    ensures
        r@ == filter_literal(text@),
{
    ldap3::ldap_escape(text).into_owned()
}

/// `ldap3::dn_escape`: the characters with a meaning in a distinguished name
/// become a backslash and two hexadecimal digits; everything else stays.
#[verifier::external_body]
fn dn_escape(text: &str) -> (r: String)
    ensures
        r@ == dn_literal(text@),
{
    ldap3::dn_escape(text).into_owned()
}

/// The filter that finds a user.
pub open spec fn user_filter(template: Seq<char>, email: Seq<char>) -> Seq<char> {
    replaced_first(template, "{email}"@, filter_literal(email))
}

/// The filter that finds a user.
pub fn ldap_user_filter(template: &str, email: &str) -> (r: String)
    ensures
        r@ == user_filter(template@, email@),
{
    let escaped = ldap_escape(email);
    replace_first(template, "{email}", escaped.as_str())
}

/// The name that a user binds with.
pub open spec fn bind_identity(template: Seq<char>, email: Seq<char>) -> Seq<char> {
    replaced_first(template, "{email}"@, dn_literal(email))
}

/// The name that a user binds with.
pub fn ldap_bind_identity(template: &str, email: &str) -> (r: String)
    ensures
        r@ == bind_identity(template@, email@),
{
    let escaped = dn_escape(email);
    replace_first(template, "{email}", escaped.as_str())
}

/// An e-mail address cannot change the shape of a filter: as a literal it
/// holds no parenthesis, asterisk or NUL.
pub proof fn filter_literals_are_inert(s: Seq<char>)
    ensures
        forall|i: int|
            0 <= i < filter_literal(s).len() ==> {
                let c = #[trigger] filter_literal(s)[i];
                c != '(' && c != ')' && c != '*' && c != '\u{0}'
            },
    decreases s.len(),
{
    if s.len() > 0 {
        filter_literals_are_inert(s.drop_last());
        let before = filter_literal(s.drop_last());
        let t = filter_literal(s);
        assert forall|i: int| 0 <= i < t.len() implies {
            let c = #[trigger] t[i];
            c != '(' && c != ')' && c != '*' && c != '\u{0}'
        } by {
            if i < before.len() {
                assert(t[i] == before[i]);
            } else if filter_special(s.last()) {
                assert(t[i] == hex_escape(s.last())[i - before.len()]);
            }
        }
    }
}

/// Text without special characters goes into a filter as it stands.
pub proof fn plain_text_is_its_own_literal(s: Seq<char>)
    requires
        forall|i: int| 0 <= i < s.len() ==> !filter_special(#[trigger] s[i]),
    ensures
        filter_literal(s) == s,
    decreases s.len(),
{
    if s.len() > 0 {
        assert forall|i: int| 0 <= i < s.drop_last().len() implies !filter_special(
            #[trigger] s.drop_last()[i],
        ) by {
            assert(s.drop_last()[i] == s[i]);
        }
        plain_text_is_its_own_literal(s.drop_last());
        assert(s.drop_last().push(s.last()) =~= s);
    } else {
        assert(s =~= seq![]);
    }
}

// ---------------------------------------------------------------------------
// Failures
// ---------------------------------------------------------------------------

/// Why a directory did not vouch for a user.
#[derive(Clone, Copy, Debug)]
pub struct LdapDirectoryFailure {
    pub stage: &'static str,
    pub category: &'static str,
    pub diagnostic: &'static str,
    /// The directory could not be asked, as opposed to: it said no.
    pub unavailable: bool,
}

/// What an `LdapDirectoryFailure` holds.
pub struct FailureView {
    pub stage: Seq<char>,
    pub category: Seq<char>,
    pub diagnostic: Seq<char>,
    pub unavailable: bool,
}

impl View for LdapDirectoryFailure {
    type V = FailureView;

    open spec fn view(&self) -> FailureView {
        FailureView {
            stage: self.stage@,
            category: self.category@,
            diagnostic: self.diagnostic@,
            unavailable: self.unavailable,
        }
    }
}

/// A failure by its parts.
pub open spec fn failure(
    stage: Seq<char>,
    category: Seq<char>,
    diagnostic: Seq<char>,
    unavailable: bool,
) -> FailureView {
    FailureView { stage, category, diagnostic, unavailable }
}

impl LdapDirectoryFailure {
    /// The directory said no.
    pub fn invalid(
        stage: &'static str,
        category: &'static str,
        diagnostic: &'static str,
    ) -> (r: LdapDirectoryFailure)
        ensures
            r@ == failure(stage@, category@, diagnostic@, false),
    {
        LdapDirectoryFailure { stage, category, diagnostic, unavailable: false }
    }

    /// The directory could not be asked.
    pub fn unavailable(
        stage: &'static str,
        category: &'static str,
        diagnostic: &'static str,
    ) -> (r: LdapDirectoryFailure)
        ensures
            r@ == failure(stage@, category@, diagnostic@, true),
    {
        LdapDirectoryFailure { stage, category, diagnostic, unavailable: true }
    }

    /// What somebody who logs in is told: nothing about the directory.
    pub fn for_login(self) -> (r: ApiError)
        ensures
            r@ == login_answer(self@),
    {
        if self.unavailable {
            ApiError::service_unavailable("LDAP service is temporarily unavailable")
        } else {
            ApiError::unauthorized("invalid email or password")
        }
    }

    /// What an administrator who tries a configuration is told.
    pub fn for_administrator(self) -> (r: ApiError)
        ensures
            r@ == administrator_answer(self@),
    {
        let mut message = join("LDAP ", self.stage);
        message.append(" failed: ");
        message.append(self.diagnostic);
        if self.unavailable {
            ApiError::service_unavailable(message.as_str())
        } else {
            ApiError::bad_request(message.as_str())
        }
    }
}

/// What somebody who logs in is told of a failure.
pub open spec fn login_answer(f: FailureView) -> ErrorView {
    if f.unavailable {
        error_of(Status::ServiceUnavailable, "LDAP service is temporarily unavailable"@)
    } else {
        error_of(Status::Unauthorized, "invalid email or password"@)
    }
}

/// What an administrator is told of a failure.
pub open spec fn administrator_answer(f: FailureView) -> ErrorView {
    error_of(
        if f.unavailable {
            Status::ServiceUnavailable
        } else {
            Status::BadRequest
        },
        "LDAP "@ + f.stage + " failed: "@ + f.diagnostic,
    )
}

/// A login never tells apart the reasons for which a directory said no.
pub proof fn login_answers_keep_the_reason(f: FailureView, g: FailureView)
    requires
        f.unavailable == g.unavailable,
    ensures
        login_answer(f) == login_answer(g),
{
}

// ---------------------------------------------------------------------------
// The conversation
// ---------------------------------------------------------------------------

/// An attribute of a directory entry and its values.
#[derive(Debug)]
pub struct DirectoryAttribute {
    pub name: String,
    pub values: Vec<String>,
}

/// An entry that a search found.
#[derive(Debug)]
pub struct DirectoryEntry {
    pub attributes: Vec<DirectoryAttribute>,
}

/// What an attribute holds.
pub struct AttributeView {
    pub name: Seq<char>,
    pub values: Seq<Seq<char>>,
}

/// What the attributes of an entry hold.
pub open spec fn attributes_of(entry: DirectoryEntry) -> Seq<AttributeView> {
    Seq::new(
        entry.attributes@.len(),
        |i: int|
            AttributeView {
                name: entry.attributes@[i].name@,
                values: views(entry.attributes@[i].values@),
            },
    )
}

/// The values of the first attribute from `from` on with this name, whatever
/// its case.
pub open spec fn values_from(entry: Seq<AttributeView>, name: Seq<char>, from: int) -> Option<
    Seq<Seq<char>>,
>
    decreases entry.len() - from,
{
    if from >= entry.len() {
        None
    } else if lowered(entry[from].name) == lowered(name) {
        Some(entry[from].values)
    } else {
        values_from(entry, name, from + 1)
    }
}

/// The values of an attribute, whatever the case of its name.
pub fn ldap_attribute_values<'a>(entry: &'a DirectoryEntry, name: &str) -> (r: Option<
    &'a Vec<String>,
>)
    ensures
        match r {
            Some(values) => values_from(attributes_of(*entry), name@, 0) == Some(views(values@)),
            None => values_from(attributes_of(*entry), name@, 0) is None,
        },
{
    let ghost all = attributes_of(*entry);
    let mut i: usize = 0;
    while i < entry.attributes.len()
        invariant
            i <= entry.attributes@.len(),
            all == attributes_of(*entry),
            values_from(all, name@, 0) == values_from(all, name@, i as int),
        decreases entry.attributes@.len() - i,
    {
        assert(all[i as int].name == entry.attributes@[i as int].name@);
        if same_ignoring_case(entry.attributes[i].name.as_str(), name) {
            return Some(&entry.attributes[i].values);
        }
        i = i + 1;
    }
    None
}

/// The trimmed values from `from` on that are not blank.
pub open spec fn present_values(values: Seq<Seq<char>>, from: int) -> Seq<Seq<char>>
    decreases values.len() - from,
{
    if from >= values.len() {
        seq![]
    } else if blank(values[from]) {
        present_values(values, from + 1)
    } else {
        seq![trimmed(values[from])] + present_values(values, from + 1)
    }
}

fn present(values: &Vec<String>) -> (r: Vec<String>)
    ensures
        views(r@) == present_values(views(values@), 0),
{
    let ghost all = views(values@);
    let mut out: Vec<String> = Vec::new();
    let mut i: usize = 0;
    assert(views(out@) + present_values(all, 0) =~= present_values(all, 0));
    while i < values.len()
        invariant
            i <= values@.len(),
            all == views(values@),
            views(out@) + present_values(all, i as int) == present_values(all, 0),
        decreases values@.len() - i,
    {
        assert(all[i as int] == values@[i as int]@);
        let t = trim(values[i].as_str());
        if !t.as_str().is_empty() {
            let ghost before = views(out@);
            out.push(t);
            assert(views(out@) =~= before.push(t@));
            assert(before + (seq![t@] + present_values(all, i + 1)) =~= views(out@)
                + present_values(all, i + 1));
        }
        i = i + 1;
    }
    assert(views(out@) + Seq::<Seq<char>>::empty() =~= views(out@));
    out
}

/// The user that a directory vouches for.
#[derive(Debug)]
pub struct LdapDirectoryIdentity {
    pub email: String,
    pub display_name: Option<String>,
}

/// What an `LdapDirectoryIdentity` holds.
pub struct IdentityView {
    pub email: Seq<char>,
    pub display_name: Option<Seq<char>>,
}

impl View for LdapDirectoryIdentity {
    type V = IdentityView;

    open spec fn view(&self) -> IdentityView {
        IdentityView { email: self.email@, display_name: opt_view(self.display_name) }
    }
}

/// An outcome of the conversation by its views.
pub open spec fn directory_seen(
    r: Result<LdapDirectoryIdentity, LdapDirectoryFailure>,
) -> Result<IdentityView, FailureView> {
    match r {
        Ok(identity) => Ok(identity@),
        Err(f) => Err(f@),
    }
}

/// The user that an entry stands for: its e-mail attribute has exactly one
/// value, a valid address, and its first display name, if any, is valid.
pub open spec fn mapped_identity(
    entry: Seq<AttributeView>,
    email_attribute: Seq<char>,
    display_name_attribute: Seq<char>,
) -> Result<IdentityView, FailureView> {
    let emails = match values_from(entry, email_attribute, 0) {
        Some(values) => present_values(values, 0),
        None => seq![],
    };
    let names = match values_from(entry, display_name_attribute, 0) {
        Some(values) => present_values(values, 0),
        None => seq![],
    };
    if emails.len() != 1 {
        Err(
            failure(
                "mapping"@,
                "email_attribute"@,
                "email attribute must contain exactly one value"@,
                false,
            ),
        )
    } else {
        match normalized_email(emails[0]) {
            Err(_) => Err(
                failure(
                    "mapping"@,
                    "email_attribute"@,
                    "email attribute is not a valid email address"@,
                    false,
                ),
            ),
            Ok(email) => if names.len() == 0 {
                Ok(IdentityView { email, display_name: None })
            } else {
                match normalized_display_name(Some(names[0]), email) {
                    Ok(name) => Ok(IdentityView { email, display_name: Some(name) }),
                    Err(_) => Err(
                        failure(
                            "mapping"@,
                            "display_name_attribute"@,
                            "display name attribute is invalid"@,
                            false,
                        ),
                    ),
                }
            },
        }
    }
}

/// The user that an entry stands for.
pub fn map_directory_entry(
    entry: &DirectoryEntry,
    email_attribute: &str,
    display_name_attribute: &str,
) -> (r: Result<LdapDirectoryIdentity, LdapDirectoryFailure>)
    ensures
        directory_seen(r) == mapped_identity(
            attributes_of(*entry),
            email_attribute@,
            display_name_attribute@,
        ),
{
    let emails = match ldap_attribute_values(entry, email_attribute) {
        Some(values) => present(values),
        None => Vec::new(),
    };
    let names = match ldap_attribute_values(entry, display_name_attribute) {
        Some(values) => present(values),
        None => Vec::new(),
    };
    assert(views(emails@).len() == emails@.len());
    assert(views(names@).len() == names@.len());
    proof {
        if values_from(attributes_of(*entry), email_attribute@, 0) is None {
            assert(views(emails@) =~= Seq::<Seq<char>>::empty());
        }
        if values_from(attributes_of(*entry), display_name_attribute@, 0) is None {
            assert(views(names@) =~= Seq::<Seq<char>>::empty());
        }
    }
    if emails.len() != 1 {
        return Err(
            LdapDirectoryFailure::invalid(
                "mapping",
                "email_attribute",
                "email attribute must contain exactly one value",
            ),
        );
    }
    assert(views(emails@)[0] == emails@[0]@);
    let email = match normalize_email(emails[0].as_str()) {
        Ok(email) => email,
        Err(_) => {
            return Err(
                LdapDirectoryFailure::invalid(
                    "mapping",
                    "email_attribute",
                    "email attribute is not a valid email address",
                ),
            );
        },
    };
    if names.len() == 0 {
        return Ok(LdapDirectoryIdentity { email, display_name: None });
    }
    assert(views(names@)[0] == names@[0]@);
    match normalize_display_name(Some(names[0].as_str()), email.as_str()) {
        Ok(name) => Ok(LdapDirectoryIdentity { email, display_name: Some(name) }),
        Err(_) => Err(
            LdapDirectoryFailure::invalid(
                "mapping",
                "display_name_attribute",
                "display name attribute is invalid",
            ),
        ),
    }
}

/// The result codes by which a directory rejects credentials: no such object,
/// invalid name, invalid credentials.
pub open spec fn rejects_credentials(code: u32) -> bool {
    code == 32 || code == 34 || code == 49
}

/// The failure of a bind that did not succeed; `code` is the result code that
/// the directory gave, if it gave one.
pub open spec fn bind_failure(code: Option<u32>) -> FailureView {
    if code is Some && rejects_credentials(code->0) {
        failure("bind"@, "invalid_credentials"@, "directory rejected the credentials"@, false)
    } else {
        failure("bind"@, "bind_failed"@, "LDAP Bind failed"@, true)
    }
}

/// The failure of a bind that did not succeed.
pub fn classify_ldap_bind_error(code: Option<u32>) -> (r: LdapDirectoryFailure)
    ensures
        r@ == bind_failure(code),
{
    let rejected = match code {
        Some(c) => c == 32 || c == 34 || c == 49,
        None => false,
    };
    if rejected {
        LdapDirectoryFailure::invalid(
            "bind",
            "invalid_credentials",
            "directory rejected the credentials",
        )
    } else {
        LdapDirectoryFailure::unavailable("bind", "bind_failed", "LDAP Bind failed")
    }
}

/// How far the conversation has come; it remembers the address of the user.
#[derive(Debug)]
pub enum LdapState {
    Connecting(String),
    Binding(String),
    Searching,
    Finished,
}

/// What came back from the network.
#[derive(Debug)]
pub enum LdapEvent {
    Connected,
    ConnectFailed,
    /// The bind was answered with this result code.
    BindAnswered(u32),
    BindFailed,
    /// The search was answered with this result code and these entries.
    SearchAnswered(u32, Vec<DirectoryEntry>),
    SearchFailed,
}

/// What to do next.
#[derive(Debug)]
pub enum LdapAction {
    Connect { starttls: bool, skip_tls_verify: bool },
    Bind { identity: String },
    Search { filter: String },
    Finish(Result<LdapDirectoryIdentity, LdapDirectoryFailure>),
}

/// What an `LdapState` holds.
pub enum LdapStateView {
    Connecting(Seq<char>),
    Binding(Seq<char>),
    Searching,
    Finished,
}

impl View for LdapState {
    type V = LdapStateView;

    open spec fn view(&self) -> LdapStateView {
        match self {
            LdapState::Connecting(email) => LdapStateView::Connecting(email@),
            LdapState::Binding(email) => LdapStateView::Binding(email@),
            LdapState::Searching => LdapStateView::Searching,
            LdapState::Finished => LdapStateView::Finished,
        }
    }
}

/// What an `LdapAction` holds.
pub enum LdapActionView {
    Connect { starttls: bool, skip_tls_verify: bool },
    Bind { identity: Seq<char> },
    Search { filter: Seq<char> },
    Finish(Result<IdentityView, FailureView>),
}

impl View for LdapAction {
    type V = LdapActionView;

    open spec fn view(&self) -> LdapActionView {
        match self {
            LdapAction::Connect { starttls, skip_tls_verify } => LdapActionView::Connect {
                starttls: *starttls,
                skip_tls_verify: *skip_tls_verify,
            },
            LdapAction::Bind { identity } => LdapActionView::Bind { identity: identity@ },
            LdapAction::Search { filter } => LdapActionView::Search { filter: filter@ },
            LdapAction::Finish(r) => LdapActionView::Finish(directory_seen(*r)),
        }
    }
}

/// The conversation starts with a valid address and a password, by opening a
/// connection as the configuration says.
pub open spec fn conversation_start(
    c: LdapConfigurationView,
    email: Seq<char>,
    password_empty: bool,
) -> (LdapStateView, LdapActionView) {
    match normalized_email(email) {
        Err(_) => (
            LdapStateView::Finished,
            LdapActionView::Finish(
                Err(failure("bind"@, "invalid_credentials"@, "email is invalid"@, false)),
            ),
        ),
        Ok(address) => if password_empty {
            (
                LdapStateView::Finished,
                LdapActionView::Finish(
                    Err(failure("bind"@, "invalid_credentials"@, "password is empty"@, false)),
                ),
            )
        } else {
            (
                LdapStateView::Connecting(address),
                LdapActionView::Connect {
                    starttls: c.security == LdapSecurityMode::Starttls,
                    skip_tls_verify: c.skip_tls_verify,
                },
            )
        },
    }
}

/// Starts the conversation with a directory about a user.
pub fn start_ldap_query(configuration: &LdapConfiguration, email: &str, password: &str) -> (r: (
    LdapState,
    LdapAction,
))
    ensures
        (r.0@, r.1@) == conversation_start(configuration@, email@, password@.len() == 0),
{
    let address = match normalize_email(email) {
        Ok(address) => address,
        Err(_) => {
            return (
                LdapState::Finished,
                LdapAction::Finish(
                    Err(
                        LdapDirectoryFailure::invalid(
                            "bind",
                            "invalid_credentials",
                            "email is invalid",
                        ),
                    ),
                ),
            );
        },
    };
    if password.is_empty() {
        return (
            LdapState::Finished,
            LdapAction::Finish(
                Err(
                    LdapDirectoryFailure::invalid(
                        "bind",
                        "invalid_credentials",
                        "password is empty",
                    ),
                ),
            ),
        );
    }
    (
        LdapState::Connecting(address),
        LdapAction::Connect {
            starttls: configuration.security == LdapSecurityMode::Starttls,
            skip_tls_verify: configuration.skip_tls_verify,
        },
    )
}

/// The event answers what the state waits for.
pub open spec fn answers(state: LdapState, event: LdapEvent) -> bool {
    match state {
        LdapState::Connecting(_) => event is Connected || event is ConnectFailed,
        LdapState::Binding(_) => event is BindAnswered || event is BindFailed,
        LdapState::Searching => event is SearchAnswered || event is SearchFailed,
        LdapState::Finished => false,
    }
}

/// What follows an answer: after the connection the bind, after a bind with
/// result code zero the search, and after a search with result code zero and
/// exactly one entry the user that the entry stands for. Anything else ends
/// the conversation with its failure.
pub open spec fn conversation_next(
    c: LdapConfigurationView,
    state: LdapState,
    event: LdapEvent,
) -> (LdapStateView, LdapActionView) {
    match (state, event) {
        (LdapState::Connecting(email), LdapEvent::Connected) => (
            LdapStateView::Binding(email@),
            LdapActionView::Bind { identity: bind_identity(c.bind_identity_template, email@) },
        ),
        (LdapState::Binding(email), LdapEvent::BindAnswered(code)) => if code == 0 {
            (
                LdapStateView::Searching,
                LdapActionView::Search { filter: user_filter(c.user_filter, email@) },
            )
        } else {
            (LdapStateView::Finished, LdapActionView::Finish(Err(bind_failure(Some(code)))))
        },
        _ => (LdapStateView::Finished, LdapActionView::Finish(conversation_end(c, event))),
    }
}

/// How a conversation ends with its last event.
pub open spec fn conversation_end(c: LdapConfigurationView, event: LdapEvent) -> Result<
    IdentityView,
    FailureView,
> {
    match event {
        LdapEvent::BindFailed => Err(bind_failure(None)),
        LdapEvent::SearchFailed => Err(
            failure("search"@, "search_failed"@, "directory search failed"@, true),
        ),
        LdapEvent::SearchAnswered(code, entries) => if code != 0 {
            Err(failure("search"@, "search_failed"@, "directory search was rejected"@, true))
        } else if entries@.len() != 1 {
            Err(
                failure(
                    "search"@,
                    "result_cardinality"@,
                    "directory search did not return exactly one entry"@,
                    false,
                ),
            )
        } else {
            mapped_identity(
                attributes_of(entries@[0]),
                c.email_attribute,
                c.display_name_attribute,
            )
        },
        _ => Err(
            failure(
                "connect"@,
                "connection_failed"@,
                "connection or TLS negotiation failed"@,
                true,
            ),
        ),
    }
}

/// Takes the conversation one step on.
pub fn continue_ldap_query(
    configuration: &LdapConfiguration,
    state: LdapState,
    event: LdapEvent,
) -> (r: (LdapState, LdapAction))
    requires
        answers(state, event),
    ensures
        (r.0@, r.1@) == conversation_next(configuration@, state, event),
{
    match (state, event) {
        (LdapState::Connecting(email), LdapEvent::Connected) => {
            let identity = ldap_bind_identity(
                configuration.bind_identity_template.as_str(),
                email.as_str(),
            );
            (LdapState::Binding(email), LdapAction::Bind { identity })
        },
        (LdapState::Binding(email), LdapEvent::BindAnswered(code)) => {
            if code == 0 {
                let filter = ldap_user_filter(configuration.user_filter.as_str(), email.as_str());
                (LdapState::Searching, LdapAction::Search { filter })
            } else {
                (
                    LdapState::Finished,
                    LdapAction::Finish(Err(classify_ldap_bind_error(Some(code)))),
                )
            }
        },
        (_, LdapEvent::BindFailed) => {
            (LdapState::Finished, LdapAction::Finish(Err(classify_ldap_bind_error(None))))
        },
        (_, LdapEvent::SearchFailed) => {
            let f = LdapDirectoryFailure::unavailable(
                "search",
                "search_failed",
                "directory search failed",
            );
            (LdapState::Finished, LdapAction::Finish(Err(f)))
        },
        (_, LdapEvent::SearchAnswered(code, entries)) => {
            if code != 0 {
                let f = LdapDirectoryFailure::unavailable(
                    "search",
                    "search_failed",
                    "directory search was rejected",
                );
                return (LdapState::Finished, LdapAction::Finish(Err(f)));
            }
            if entries.len() != 1 {
                let f = LdapDirectoryFailure::invalid(
                    "search",
                    "result_cardinality",
                    "directory search did not return exactly one entry",
                );
                return (LdapState::Finished, LdapAction::Finish(Err(f)));
            }
            let outcome = map_directory_entry(
                &entries[0],
                configuration.email_attribute.as_str(),
                configuration.display_name_attribute.as_str(),
            );
            (LdapState::Finished, LdapAction::Finish(outcome))
        },
        _ => {
            let f = LdapDirectoryFailure::unavailable(
                "connect",
                "connection_failed",
                "connection or TLS negotiation failed",
            );
            (LdapState::Finished, LdapAction::Finish(Err(f)))
        },
    }
}

/// The failure of a conversation that took longer than it may.
pub fn ldap_deadline_exceeded() -> (r: LdapDirectoryFailure)
    ensures
        r@ == failure(
            "timeout"@,
            "deadline_exceeded"@,
            "the ten-second LDAP deadline was exceeded"@,
            true,
        ),
{
    LdapDirectoryFailure::unavailable(
        "timeout",
        "deadline_exceeded",
        "the ten-second LDAP deadline was exceeded",
    )
}

/// A conversation names a user only in one way: the server was reached, it
/// accepted the bind, and its search answered with exactly one entry, which
/// stands for that user.
pub proof fn users_are_vouched_for(
    c: LdapConfigurationView,
    state: LdapState,
    event: LdapEvent,
    identity: IdentityView,
)
    requires
        answers(state, event),
        conversation_next(c, state, event).1 == LdapActionView::Finish(
            Ok::<IdentityView, FailureView>(identity),
        ),
    ensures
        state is Searching,
        match event {
            LdapEvent::SearchAnswered(code, entries) => code == 0 && entries@.len() == 1
                && mapped_identity(
                attributes_of(entries@[0]),
                c.email_attribute,
                c.display_name_attribute,
            ) == Ok::<IdentityView, FailureView>(identity),
            _ => false,
        },
        crate::identity::valid_email(identity.email),
{
}

/// The search is sent only after a bind that the directory accepted.
pub proof fn searches_follow_an_accepted_bind(
    c: LdapConfigurationView,
    state: LdapState,
    event: LdapEvent,
)
    requires
        answers(state, event),
        conversation_next(c, state, event).0 == LdapStateView::Searching,
    ensures
        state is Binding,
        event == LdapEvent::BindAnswered(0),
{
}

/// The name to show for a directory user: the directory's, else the local
/// part of the address.
pub open spec fn shown_name(identity: IdentityView) -> Seq<char> {
    match identity.display_name {
        Some(name) => name,
        None => local_part(identity.email),
    }
}

/// The name to show for a directory user.
pub fn directory_display_name(identity: &LdapDirectoryIdentity) -> (r: String)
    ensures
        r@ == shown_name(identity@),
{
    match &identity.display_name {
        Some(name) => name.clone(),
        None => email_local_part(identity.email.as_str()),
    }
}

/// A configuration is accepted where its address is that of a server alone and
/// goes with the security mode, unprotected transport is approved, the two
/// templates name the address once, and the names are names; it is kept as it
/// is.
pub proof fn configurations_are_checked_part_by_part(c: LdapConfigurationView, url: Option<UrlView>)
    ensures
        configuration_validity(c, url) is Ok <==> {
            &&& url is Some
            &&& url->0.host is Some
            &&& url->0.username.len() == 0
            &&& url->0.password is None
            &&& url->0.query is None
            &&& url->0.fragment is None
            &&& url->0.path.len() == 0 || url->0.path == "/"@
            &&& url->0.scheme == if c.security == LdapSecurityMode::Ldaps {
                "ldaps"@
            } else {
                "ldap"@
            }
            &&& c.security == LdapSecurityMode::Plain ==> c.allow_insecure && !c.skip_tls_verify
            &&& 1 <= c.base_dn.len() && byte_count(c.base_dn) <= 4096 && !has_control(c.base_dn)
            &&& byte_count(c.bind_identity_template) <= 4096 && occurrences(
                c.bind_identity_template,
                "{email}"@,
            ) == 1 && !has_control(c.bind_identity_template)
            &&& byte_count(c.user_filter) <= 4096 && occurrences(c.user_filter, "{email}"@) == 1
                && !has_control(c.user_filter)
            &&& valid_attribute(c.email_attribute)
            &&& valid_attribute(c.display_name_attribute)
        },
        configuration_validity(c, url) matches Ok(kept) ==> kept == c,
        configuration_validity(c, url) matches Err(e) ==> e.status == Status::BadRequest,
{
}

/// An attribute has a short name of letters, digits and three marks.
pub proof fn attributes_have_names(name: Seq<char>, field: Seq<char>)
    ensures
        attribute_validity(name, field) is Ok <==> name.len() > 0 && byte_count(name) <= 128
            && forall|i: int|
            0 <= i < name.len() ==> is_alphanumeric(#[trigger] name[i]) || name[i] == '-'
                || name[i] == '.' || name[i] == '_',
        attribute_validity(name, field) matches Err(e) ==> e.status == Status::BadRequest,
{
    if valid_attribute(name) {
        assert forall|i: int| 0 <= i < name.len() implies is_alphanumeric(#[trigger] name[i])
            || name[i] == '-' || name[i] == '.' || name[i] == '_' by {
            assert(attribute_char(name[i]));
        }
    }
}

/// Nothing of a configuration is changed by trimming but the blanks around its
/// texts.
pub proof fn configurations_are_trimmed(c: LdapConfigurationView)
    ensures
        trimmed_configuration(c).url == trimmed(c.url),
        trimmed_configuration(c).base_dn == trimmed(c.base_dn),
        trimmed_configuration(c).bind_identity_template == trimmed(c.bind_identity_template),
        trimmed_configuration(c).user_filter == trimmed(c.user_filter),
        trimmed_configuration(c).email_attribute == trimmed(c.email_attribute),
        trimmed_configuration(c).display_name_attribute == trimmed(c.display_name_attribute),
        trimmed_configuration(c).security == c.security,
        trimmed_configuration(c).allow_insecure == c.allow_insecure,
        trimmed_configuration(c).skip_tls_verify == c.skip_tls_verify,
{
}

/// In a filter a backslash, a star, a bracket and a null are written by their
/// code, and every other character stands for itself.
pub proof fn filters_escape_what_is_special(s: Seq<char>, c: char)
    ensures
        filter_literal(s.push(c)) == filter_literal(s) + (if c == '\\' {
            seq!['\\', '5', 'c']
        } else if c == '*' {
            seq!['\\', '2', 'a']
        } else if c == '(' {
            seq!['\\', '2', '8']
        } else if c == ')' {
            seq!['\\', '2', '9']
        } else if c == '\u{0}' {
            seq!['\\', '0', '0']
        } else {
            seq![c]
        }),
        filter_literal(seq![]) == Seq::<char>::empty(),
{
    assert(s.push(c).drop_last() =~= s);
    assert(filter_literal(s).push(c) =~= filter_literal(s) + seq![c]);
}

/// In a distinguished name what would end or split it is written by its code,
/// as are a blank at either end and a hash at the start.
pub proof fn names_escape_what_is_special(s: Seq<char>, n: int)
    requires
        0 <= n < s.len(),
    ensures
        dn_prefix(s, 0) == Seq::<char>::empty(),
        dn_literal(s) == dn_prefix(s, s.len() as int),
        ({
            let c = s[n];
            dn_prefix(s, n + 1) == dn_prefix(s, n) + (if c == '"' {
                seq!['\\', '2', '2']
            } else if c == '+' {
                seq!['\\', '2', 'b']
            } else if c == ',' {
                seq!['\\', '2', 'c']
            } else if c == ';' {
                seq!['\\', '3', 'b']
            } else if c == '<' {
                seq!['\\', '3', 'c']
            } else if c == '=' {
                seq!['\\', '3', 'd']
            } else if c == '>' {
                seq!['\\', '3', 'e']
            } else if c == '\\' {
                seq!['\\', '5', 'c']
            } else if c == '\u{0}' {
                seq!['\\', '0', '0']
            } else if c == ' ' && (n == 0 || n == s.len() - 1) {
                seq!['\\', '2', '0']
            } else if c == '#' && n == 0 {
                seq!['\\', '2', '3']
            } else {
                seq![c]
            })
        }),
{
    assert(dn_prefix(s, n).push(s[n]) =~= dn_prefix(s, n) + seq![s[n]]);
}

/// The placeholder of a template gives way to the address, escaped for the
/// place where it stands, and the rest stays.
pub proof fn templates_are_filled_in(before: Seq<char>, after: Seq<char>, email: Seq<char>)
    requires
        crate::text::find(before + "{email}"@ + after, "{email}"@) == Some(before.len() as int),
    ensures
        user_filter(before + "{email}"@ + after, email) == before + filter_literal(email) + after,
        bind_identity(before + "{email}"@ + after, email) == before + dn_literal(email) + after,
{
    let t = before + "{email}"@ + after;
    assert(t.take(before.len() as int) =~= before);
    assert(t.skip((before.len() + "{email}"@.len()) as int) =~= after);
}

/// A failure is told to a user only as what it means for them, and to an
/// administrator with its stage and reason.
pub proof fn failures_are_told(f: FailureView)
    ensures
        login_answer(f).status == Status::ServiceUnavailable <==> f.unavailable,
        login_answer(f).status == Status::Unauthorized <==> !f.unavailable,
        administrator_answer(f).status == Status::ServiceUnavailable <==> f.unavailable,
        administrator_answer(f).status == Status::BadRequest <==> !f.unavailable,
        administrator_answer(f).message == "LDAP "@ + f.stage + " failed: "@ + f.diagnostic,
{
}

/// The values of an attribute are those of the first that has its name,
/// whatever the case.
pub proof fn attributes_are_found_by_name(
    entry: Seq<AttributeView>,
    name: Seq<char>,
    from: int,
    i: int,
)
    requires
        0 <= from <= i < entry.len(),
        lowered(entry[i].name) == lowered(name),
        forall|k: int| from <= k < i ==> lowered((#[trigger] entry[k]).name) != lowered(name),
    ensures
        values_from(entry, name, from) == Some(entry[i].values),
    decreases i - from,
{
    if from < i {
        assert(lowered(entry[from].name) != lowered(name));
        attributes_are_found_by_name(entry, name, from + 1, i);
    }
}

/// Of the values of an attribute those that say something are read, trimmed
/// and in order.
pub proof fn blank_values_are_passed_over(values: Seq<Seq<char>>, from: int)
    requires
        0 <= from < values.len(),
    ensures
        present_values(values, values.len() as int) == Seq::<Seq<char>>::empty(),
        blank(values[from]) ==> present_values(values, from) == present_values(values, from + 1),
        !blank(values[from]) ==> present_values(values, from) == seq![trimmed(values[from])]
            + present_values(values, from + 1),
{
}

/// An entry is a user where it has one valid address; the name is its first
/// one, where it has any.
pub proof fn entries_are_users(
    entry: Seq<AttributeView>,
    email_attribute: Seq<char>,
    display_name_attribute: Seq<char>,
)
    ensures
        ({
            let emails = match values_from(entry, email_attribute, 0) {
                Some(values) => present_values(values, 0),
                None => seq![],
            };
            let names = match values_from(entry, display_name_attribute, 0) {
                Some(values) => present_values(values, 0),
                None => seq![],
            };
            let r = mapped_identity(entry, email_attribute, display_name_attribute);
            &&& r is Ok <==> {
                &&& emails.len() == 1
                &&& normalized_email(emails[0]) is Ok
                &&& names.len() > 0 ==> normalized_display_name(
                    Some(names[0]),
                    normalized_email(emails[0])->Ok_0,
                ) is Ok
            }
            &&& r matches Ok(identity) ==> {
                &&& normalized_email(emails[0]) == Ok::<Seq<char>, ErrorView>(identity.email)
                &&& identity.display_name is Some <==> names.len() > 0
                &&& identity.display_name is Some ==> normalized_display_name(
                    Some(names[0]),
                    identity.email,
                ) == Ok::<Seq<char>, ErrorView>(identity.display_name->0)
            }
            &&& r matches Err(f) ==> !f.unavailable
        }),
{
}

/// Three codes say that the credentials are wrong; after any other the
/// directory counts as unavailable.
pub proof fn binds_fail_in_two_ways(code: u32)
    ensures
        bind_failure(None).unavailable,
        bind_failure(Some(code)).unavailable <==> code != 32 && code != 34 && code != 49,
{
}

/// The directory is asked where there are credentials; it is connected to,
/// then bound to as the user, then searched for the user.
pub proof fn directories_are_asked_in_order(
    c: LdapConfigurationView,
    email: Seq<char>,
    password_empty: bool,
    known: String,
    code: u32,
    entries: Vec<DirectoryEntry>,
)
    ensures
        ({
            let first = conversation_start(c, email, password_empty);
            &&& normalized_email(email) is Ok && !password_empty <==> first.1 is Connect
            &&& first.1 is Connect ==> first.0 == LdapStateView::Connecting(
                normalized_email(email)->Ok_0,
            ) && first.1->starttls == (c.security == LdapSecurityMode::Starttls)
                && first.1->skip_tls_verify == c.skip_tls_verify
            &&& !(first.1 is Connect) ==> first.0 is Finished && first.1 is Finish && (
            first.1->Finish_0) is Err && !(first.1->Finish_0)->Err_0.unavailable
        }),
        conversation_next(c, LdapState::Connecting(known), LdapEvent::Connected) == (
            LdapStateView::Binding(known@),
            LdapActionView::Bind { identity: bind_identity(c.bind_identity_template, known@) },
        ),
        ({
            let next = conversation_next(
                c,
                LdapState::Connecting(known),
                LdapEvent::ConnectFailed,
            );
            next.0 is Finished && next.1 is Finish && (next.1->Finish_0) is Err && (
            next.1->Finish_0)->Err_0.unavailable
        }),
        conversation_next(c, LdapState::Binding(known), LdapEvent::BindAnswered(0)) == (
            LdapStateView::Searching,
            LdapActionView::Search { filter: user_filter(c.user_filter, known@) },
        ),
        code != 0 ==> conversation_next(
            c,
            LdapState::Binding(known),
            LdapEvent::BindAnswered(code),
        ).1 == LdapActionView::Finish(Err(bind_failure(Some(code)))),
        ({
            let next = conversation_next(c, LdapState::Binding(known), LdapEvent::BindFailed);
            next.1 is Finish && (next.1->Finish_0) is Err && (
            next.1->Finish_0)->Err_0.unavailable
        }),
        ({
            let next = conversation_next(c, LdapState::Searching, LdapEvent::SearchFailed);
            next.1 is Finish && (next.1->Finish_0) is Err && (
            next.1->Finish_0)->Err_0.unavailable
        }),
        ({
            let next = conversation_next(
                c,
                LdapState::Searching,
                LdapEvent::SearchAnswered(code, entries),
            );
            &&& next.0 is Finished
            &&& next.1 is Finish
            &&& code != 0 ==> (next.1->Finish_0) is Err && (next.1->Finish_0)->Err_0.unavailable
            &&& code == 0 && entries@.len() != 1 ==> (next.1->Finish_0) is Err && !(
            next.1->Finish_0)->Err_0.unavailable
            &&& code == 0 && entries@.len() == 1 ==> next.1->Finish_0 == mapped_identity(
                attributes_of(entries@[0]),
                c.email_attribute,
                c.display_name_attribute,
            )
        }),
{
}

/// A user without a name is called by the address, up to its sign.
pub proof fn users_without_a_name_are_called_by_their_address(email: Seq<char>, name: Seq<char>)
    ensures
        shown_name((IdentityView { email, display_name: Some(name) })) == name,
        shown_name((IdentityView { email, display_name: None })) == local_part(email),
{
}

/// A stored mode is read back from its name and from no other.
pub proof fn modes_are_read_from_their_names(name: Seq<char>)
    ensures
        mode_stored(name) is Ok <==> name == "ldaps"@ || name == "starttls"@ || name == "plain"@,
        mode_stored(name) matches Ok(mode) ==> mode_text(mode) == name,
        mode_stored(name) matches Err(e) ==> e.status == Status::Internal,
        mode_text(LdapSecurityMode::Ldaps) == "ldaps"@,
        mode_text(LdapSecurityMode::Starttls) == "starttls"@,
        mode_text(LdapSecurityMode::Plain) == "plain"@,
{
}

} // verus!
