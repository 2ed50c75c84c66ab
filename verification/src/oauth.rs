//! Applications that act for users: where they are sent back to, what they may
//! ask for, and what they are told.

use crate::digest::{constant_time_eq, sha256_hex, text_digest};
use crate::error::{
    error_of, plain, refusal, refuse, refused, seen, ApiError, ErrorView, Refusal, Status,
};
use crate::clock::Instant;
use crate::ids::{hyphenated_id, id_text, lemma_hyphenated_id, parse_id, parsed_id, Id};
use crate::json::{Json, JsonView};
use crate::numeral::{all_digits, decimal, decimal_reads_back, digits_value, parse_digits};
use crate::order::{ascending, contains, insert, listing_is_unique};
use crate::text::{
    blank, chars_of, is_blank, is_word, join, lemma_one_word, lemma_words_push, opt_view, same,
    separates, split, split_all, split_words, starts_with, strip_prefix, views, words_by,
};
use crate::web::{parse_url, parsed_url, url_view, UrlParts, UrlView};
use vstd::prelude::*;
use vstd::utf8::{encode_utf8, encode_utf8_decode_utf8};

verus! {

// ---------------------------------------------------------------------------
// Redirects
// ---------------------------------------------------------------------------

/// One part of an address in dotted form: a number up to 255 without leading
/// zeros.
pub open spec fn octet(s: Seq<char>) -> bool {
    all_digits(s) && (s.len() > 1 ==> s[0] != '0') && digits_value(s) <= 255
}

/// A host that is this machine: `localhost`, or an address in 127.0.0.0/8.
pub open spec fn loopback_host(host: Seq<char>) -> bool {
    let parts = split_all(host, '.');
    host == "localhost"@ || {
        &&& parts.len() == 4
        &&& forall|i: int| 0 <= i < 4 ==> octet(#[trigger] parts[i])
        &&& digits_value(parts[0]) == 127
    }
}

fn is_octet(s: &str) -> (r: bool)
    ensures
        r == octet(s@),
{
    let chars = chars_of(s);
    match parse_digits(s) {
        Some(v) => v <= 255 && (chars.len() == 1 || chars[0] != '0'),
        None => false,
    }
}

/// Tells whether a host is this machine.
pub fn is_loopback_host(host: &str) -> (r: bool)
    ensures
        r == loopback_host(host@),
{
    if same(host, "localhost") {
        return true;
    }
    let parts = split(host, '.');
    let ghost texts = split_all(host@, '.');
    assert(texts.len() == parts@.len());
    if parts.len() != 4 {
        return false;
    }
    let mut i: usize = 0;
    while i < 4
        invariant
            i <= 4,
            parts@.len() == 4,
            texts == views(parts@),
            forall|k: int| 0 <= k < i ==> octet(#[trigger] texts[k]),
            texts == split_all(host@, '.'),
            host@ != "localhost"@,
        decreases 4 - i,
    {
        assert(texts[i as int] == parts@[i as int]@);
        if !is_octet(parts[i].as_str()) {
            return false;
        }
        i = i + 1;
    }
    assert(texts[0] == parts@[0]@);
    match parse_digits(parts[0].as_str()) {
        Some(v) => v == 127,
        None => false,
    }
}

/// Where an application may have its users sent back to: an HTTPS URL, or one
/// on the user's own machine, without credentials and fragment.
pub open spec fn redirect_validity(url: Option<UrlView>) -> Result<(), ErrorView> {
    match url {
        None => refused(Status::BadRequest, "redirect uri is invalid"@),
        Some(u) => if u.username.len() > 0 || u.password is Some || u.fragment is Some {
            refused(Status::BadRequest, "redirect uri cannot contain credentials or a fragment"@)
        } else if u.scheme == "https"@ || (u.scheme == "http"@ && u.host is Some && loopback_host(
            u.host->0,
        )) {
            Ok(())
        } else {
            refused(Status::BadRequest, "redirect uri must use HTTPS or loopback HTTP"@)
        },
    }
}

/// Accepts a URL that users are sent back to, given how it reads.
pub fn check_redirect_url(url: &Option<UrlParts>) -> (r: Result<(), ApiError>)
    ensures
        plain(r) == redirect_validity(url_view(*url)),
{
    let u = match url {
        Some(u) => u,
        None => {
            return Err(ApiError::bad_request("redirect uri is invalid"));
        },
    };
    if !u.username.as_str().is_empty() || u.password.is_some() || u.fragment.is_some() {
        return Err(ApiError::bad_request("redirect uri cannot contain credentials or a fragment"));
    }
    let secure = same(u.scheme.as_str(), "https");
    let local = match &u.host {
        Some(host) => same(u.scheme.as_str(), "http") && is_loopback_host(host.as_str()),
        None => false,
    };
    if !secure && !local {
        return Err(ApiError::bad_request("redirect uri must use HTTPS or loopback HTTP"));
    }
    Ok(())
}

/// Accepts a URL that users are sent back to.
pub fn validate_oauth_redirect_uri(value: &str) -> (r: Result<(), ApiError>)
    ensures
        plain(r) == redirect_validity(parsed_url(value@)),
{
    check_redirect_url(&parse_url(value))
}

/// What pairs of strings hold.
pub open spec fn pair_views(v: Seq<(String, String)>) -> Seq<(Seq<char>, Seq<char>)> {
    Seq::new(v.len(), |i: int| (v[i].0@, v[i].1@))
}

/// The URL that `url::Url` writes after pairs were appended to the query of
/// the one it reads.
pub uninterp spec fn url_with_pairs(
    url: Seq<char>,
    pairs: Seq<(Seq<char>, Seq<char>)>,
) -> Option<Seq<char>>;

/// `url::Url::parse`, then `query_pairs_mut` and `extend_pairs`, which append
/// the encoded pairs in order; nothing where the text is no absolute URL.
#[verifier::external_body]
fn append_query_pairs(url: &str, pairs: &Vec<(String, String)>) -> (r: Option<String>)
    ensures
        opt_view(r) == url_with_pairs(url@, pair_views(pairs@)),
{
    let mut location = url::Url::parse(url).ok()?;
    location.query_pairs_mut().extend_pairs(pairs.iter());
    Some(location.to_string())
}

/// The pairs that a user is sent back with: the code, and the state that the
/// application gave.
pub open spec fn redirect_pairs(code: Seq<char>, state: Option<Seq<char>>) -> Seq<
    (Seq<char>, Seq<char>),
> {
    match state {
        Some(s) => seq![("code"@, code), ("state"@, s)],
        None => seq![("code"@, code)],
    }
}

/// The location that a user is sent back to, if the URL takes the pairs.
pub open spec fn redirect_location(location: Option<Seq<char>>) -> Result<Seq<char>, ErrorView> {
    match location {
        Some(l) => Ok(l),
        None => refused(Status::BadRequest, "redirect uri is invalid"@),
    }
}

/// The location that a user is sent back to with a code.
pub fn oauth_redirect_location(redirect_uri: &str, code: &str, state: &Option<String>) -> (r: Result<
    String,
    ApiError,
>)
    ensures
        seen(r) == redirect_location(
            url_with_pairs(redirect_uri@, redirect_pairs(code@, opt_view(*state))),
        ),
{
    let pairs = query_pairs(code, state);
    match append_query_pairs(redirect_uri, &pairs) {
        Some(location) => Ok(location),
        None => Err(ApiError::bad_request("redirect uri is invalid")),
    }
}

/// The pairs that a user is sent back with.
pub fn query_pairs(code: &str, state: &Option<String>) -> (r: Vec<(String, String)>)
    ensures
        pair_views(r@) == redirect_pairs(code@, opt_view(*state)),
{
    let mut pairs: Vec<(String, String)> = Vec::new();
    pairs.push(("code".to_owned(), code.to_owned()));
    match state {
        Some(s) => {
            pairs.push(("state".to_owned(), s.clone()));
        },
        None => {},
    }
    assert(pair_views(pairs@) =~= redirect_pairs(code@, opt_view(*state)));
    pairs
}

/// A URL is among those that an application registered.
pub open spec fn registered_redirect(redirect_uris: JsonView, uri: Seq<char>) -> bool {
    match redirect_uris.items() {
        Some(items) => exists|i: int|
            0 <= i < items.len() && (#[trigger] items[i]).text() == Some(uri),
        None => false,
    }
}

/// Tells whether a URL is among those that an application registered.
pub fn redirect_uri_allowed(redirect_uris: &Json, redirect_uri: &str) -> (r: bool)
    ensures
        r == registered_redirect(redirect_uris@, redirect_uri@),
{
    match redirect_uris {
        Json::List(items) => {
            let ghost all = redirect_uris@->List_0;
            let mut i: usize = 0;
            while i < items.len()
                invariant
                    i <= items@.len(),
                    *redirect_uris == Json::List(*items),
                    all == redirect_uris@->List_0,
                    all.len() == items@.len(),
                    forall|k: int| 0 <= k < i ==> (#[trigger] all[k]).text() != Some(redirect_uri@),
                decreases items@.len() - i,
            {
                assert(all[i as int] == items@[i as int]@);
                let matches = match items[i].as_str() {
                    Some(text) => same(text, redirect_uri),
                    None => false,
                };
                if matches {
                    return true;
                }
                i = i + 1;
            }
            false
        },
        _ => false,
    }
}

/// What is wrong with the redirects of an application from `from` on.
pub open spec fn redirects_error(items: Seq<JsonView>, from: int) -> Option<ErrorView>
    decreases items.len() - from,
{
    if from >= items.len() {
        None
    } else {
        match items[from].text() {
            None => Some(error_of(Status::BadRequest, "redirect uri must be a string"@)),
            Some(uri) => match redirect_validity(parsed_url(uri)) {
                Err(e) => Some(e),
                Ok(_) => redirects_error(items, from + 1),
            },
        }
    }
}

/// An application has a name, redirects that are accepted, and at most a
/// hundred agents, each named once.
pub open spec fn app_validity(
    name: Seq<char>,
    redirect_uris: JsonView,
    agent_ids: Seq<Id>,
) -> Result<(), ErrorView> {
    if blank(name) {
        refused(Status::BadRequest, "integration app name is required"@)
    } else {
        match redirect_uris.items() {
            None => refused(Status::BadRequest, "redirect uris must be an array"@),
            Some(items) => if items.len() == 0 {
                refused(Status::BadRequest, "redirect uri is required"@)
            } else if redirects_error(items, 0) is Some {
                Err(redirects_error(items, 0)->0)
            } else if !agent_ids.no_duplicates() || agent_ids.len() > 100 {
                refused(
                    Status::BadRequest,
                    "integration app agent ids must contain at most 100 unique values"@,
                )
            } else {
                Ok(())
            },
        }
    }
}

/// Tells whether all identifiers are different.
pub fn ids_are_unique(ids: &Vec<Id>) -> (r: bool)
    ensures
        r == ids@.no_duplicates(),
{
    let mut i: usize = 0;
    while i < ids.len()
        invariant
            i <= ids@.len(),
            forall|a: int, b: int| 0 <= a < b < i ==> ids@[a] != ids@[b],
        decreases ids@.len() - i,
    {
        let mut k: usize = 0;
        while k < i
            invariant
                k <= i < ids@.len(),
                forall|a: int| 0 <= a < k ==> ids@[a] != ids@[i as int],
            decreases i - k,
        {
            if ids[k] == ids[i] {
                assert(ids@[k as int] == ids@[i as int]);
                return false;
            }
            k = k + 1;
        }
        i = i + 1;
    }
    true
}

/// Accepts an application, or says what is wrong with it.
pub fn validate_integration_app_payload(
    name: &str,
    redirect_uris: &Json,
    agent_ids: &Vec<Id>,
) -> (r: Result<(), ApiError>)
    ensures
        plain(r) == app_validity(name@, redirect_uris@, agent_ids@),
{
    if is_blank(name) {
        return Err(ApiError::bad_request("integration app name is required"));
    }
    match redirect_uris {
        Json::List(items) => {
            if items.len() == 0 {
                return Err(ApiError::bad_request("redirect uri is required"));
            }
            let ghost all = redirect_uris@->List_0;
            let mut i: usize = 0;
            while i < items.len()
                invariant
                    i <= items@.len(),
                    items@.len() > 0,
                    !blank(name@),
                    *redirect_uris == Json::List(*items),
                    all == redirect_uris@->List_0,
                    all.len() == items@.len(),
                    redirects_error(all, 0) == redirects_error(all, i as int),
                decreases items@.len() - i,
            {
                assert(all[i as int] == items@[i as int]@);
                match items[i].as_str() {
                    None => {
                        return Err(ApiError::bad_request("redirect uri must be a string"));
                    },
                    Some(uri) => match validate_oauth_redirect_uri(uri) {
                        Ok(_) => {},
                        Err(e) => {
                            return Err(e);
                        },
                    },
                }
                i = i + 1;
            }
            if !ids_are_unique(agent_ids) || agent_ids.len() > 100 {
                return Err(
                    ApiError::bad_request(
                        "integration app agent ids must contain at most 100 unique values",
                    ),
                );
            }
            Ok(())
        },
        _ => Err(ApiError::bad_request("redirect uris must be an array")),
    }
}

/// A user is only ever sent to a URL that is safe: what an accepted
/// application registered passes the check for redirects.
pub proof fn registered_redirects_are_safe(
    name: Seq<char>,
    redirect_uris: JsonView,
    agent_ids: Seq<Id>,
    uri: Seq<char>,
)
    requires
        app_validity(name, redirect_uris, agent_ids) is Ok,
        registered_redirect(redirect_uris, uri),
    ensures
        redirect_validity(parsed_url(uri)) == Ok::<(), ErrorView>(()),
{
    let items = redirect_uris.items()->0;
    let i = choose|i: int| 0 <= i < items.len() && (#[trigger] items[i]).text() == Some(uri);
    lemma_no_redirect_error(items, 0, i);
}

proof fn lemma_no_redirect_error(items: Seq<JsonView>, from: int, i: int)
    requires
        redirects_error(items, from) is None,
        0 <= from <= i < items.len(),
        items[i].text() is Some,
    ensures
        redirect_validity(parsed_url(items[i].text()->0)) is Ok,
    decreases items.len() - from,
{
    if from < i {
        lemma_no_redirect_error(items, from + 1, i);
    }
}

// ---------------------------------------------------------------------------
// Scopes
// ---------------------------------------------------------------------------

/// The scopes that say something about the user.
pub open spec fn user_scope(scope: Seq<char>) -> bool {
    scope == "profile"@ || scope == "email"@ || scope == "external_profile"@
}

/// The scope that names an agent.
pub open spec fn agent_scope(id: Id) -> Seq<char> {
    "agent:"@ + hyphenated_id(id)
}

/// What follows the prefix of a scope that names an agent.
pub open spec fn agent_part(scope: Seq<char>) -> Option<Seq<char>> {
    if "agent:"@.is_prefix_of(scope) {
        Some(scope.skip("agent:"@.len() as int))
    } else {
        None
    }
}

/// A word of a scope list in its normal form, given the identifier that it
/// spells after the prefix; nothing where it is no scope.
pub open spec fn scope_word(word: Seq<char>, id: Option<Id>) -> Option<Seq<char>> {
    if user_scope(word) {
        Some(word)
    } else if agent_part(word) is Some && id is Some && id->0 != 0 {
        Some(agent_scope(id->0))
    } else {
        None
    }
}

/// A word of a scope list in its normal form.
pub open spec fn scope_of(word: Seq<char>) -> Option<Seq<char>> {
    scope_word(
        word,
        match agent_part(word) {
            Some(text) => parsed_id(text),
            None => None,
        },
    )
}

fn is_user_scope(scope: &str) -> (r: bool)
    ensures
        r == user_scope(scope@),
{
    same(scope, "profile") || same(scope, "email") || same(scope, "external_profile")
}

/// A word of a scope list in its normal form, given the identifier that it
/// spells after the prefix.
pub fn normalize_scope_word(word: &str, id: Option<Id>) -> (r: Option<String>)
    ensures
        opt_view(r) == scope_word(word@, id),
        r is Some && !user_scope(word@) ==> id is Some && parsed_id(hyphenated_id(id->0)) == id,
{
    if is_user_scope(word) {
        return Some(word.to_owned());
    }
    if !starts_with(word, "agent:") {
        return None;
    }
    match id {
        Some(agent) => {
            if agent == 0 {
                None
            } else {
                let text = id_text(agent);
                Some(join("agent:", text.as_str()))
            }
        },
        None => None,
    }
}

/// `scopes` lists, in ascending order and once each, the normal forms of all
/// the words.
pub open spec fn lists_scopes(scopes: Seq<Seq<char>>, all_words: Seq<Seq<char>>) -> bool {
    &&& ascending(scopes)
    &&& forall|s: Seq<char>|
        scopes.contains(s) <==> exists|i: int|
            0 <= i < all_words.len() && scope_of(#[trigger] all_words[i]) == Some(s)
}

/// Every word is a scope.
pub open spec fn all_scopes(all_words: Seq<Seq<char>>) -> bool {
    forall|i: int| 0 <= i < all_words.len() ==> scope_of(#[trigger] all_words[i]) is Some
}

/// The words of a scope list; a missing one stands for the user's scopes where
/// that is the default.
pub open spec fn scope_words(raw: Option<Seq<char>>, default_profile: bool) -> Seq<Seq<char>> {
    match raw {
        Some(text) => words_by(text, true),
        None => if default_profile {
            seq!["profile"@, "email"@, "external_profile"@]
        } else {
            seq![]
        },
    }
}

/// A scope whose agent, if it names one, can be read back from it.
pub open spec fn readable_scope(scope: Seq<char>) -> bool {
    user_scope(scope) || exists|id: Id|
        id != 0 && scope == #[trigger] agent_scope(id) && parsed_id(hyphenated_id(id)) == Some(id)
}

/// The scopes of a list: sorted, without repetition, in their normal form.
pub fn parse_oauth_scopes(raw: &Option<String>, default_profile: bool) -> (r: Result<
    Vec<String>,
    ApiError,
>)
    ensures
        match r {
            Ok(scopes) => all_scopes(scope_words(opt_view(*raw), default_profile)) && lists_scopes(
                views(scopes@),
                scope_words(opt_view(*raw), default_profile),
            ) && forall|s: Seq<char>| #[trigger]
                views(scopes@).contains(s) ==> readable_scope(s),
            Err(e) => !all_scopes(scope_words(opt_view(*raw), default_profile)) && e@ == error_of(
                Status::BadRequest,
                "invalid oauth scope"@,
            ),
        },
{
    let listed = match raw {
        Some(text) => split_words(text.as_str(), true),
        None => {
            let mut v: Vec<String> = Vec::new();
            if default_profile {
                v.push("profile".to_owned());
                v.push("email".to_owned());
                v.push("external_profile".to_owned());
            }
            assert(views(v@) =~= scope_words(None, default_profile));
            v
        },
    };
    let ghost all_words = scope_words(opt_view(*raw), default_profile);
    assert(views(listed@) == all_words);
    let mut scopes: Vec<String> = Vec::new();
    let mut i: usize = 0;
    while i < listed.len()
        invariant
            i <= listed@.len(),
            all_words == scope_words(opt_view(*raw), default_profile),
            views(listed@) == all_words,
            ascending(views(scopes@)),
            forall|k: int| 0 <= k < i ==> scope_of(#[trigger] all_words[k]) is Some,
            forall|s: Seq<char>|
                views(scopes@).contains(s) <==> exists|k: int|
                    0 <= k < i && scope_of(#[trigger] all_words[k]) == Some(s),
            forall|s: Seq<char>| #[trigger] views(scopes@).contains(s) ==> readable_scope(s),
        decreases listed@.len() - i,
    {
        let word = listed[i].as_str();
        assert(all_words[i as int] == word@);
        let id = match strip_prefix(word, "agent:") {
            Some(text) => parse_id(text.as_str()),
            None => None,
        };
        match normalize_scope_word(word, id) {
            Some(scope) => {
                assert(scope_of(all_words[i as int]) == Some(scope@));
                assert(readable_scope(scope@)) by {
                    if !user_scope(word@) {
                        assert(scope@ == agent_scope(id->0));
                    }
                }
                let ghost before = views(scopes@);
                let ghost added = scope@;
                insert(&mut scopes, scope);
                assert forall|s: Seq<char>|
                    views(scopes@).contains(s) <==> exists|k: int|
                        0 <= k < i + 1 && scope_of(#[trigger] all_words[k]) == Some(s) by {
                    if before.contains(s) {
                        let k = choose|k: int|
                            0 <= k < i && scope_of(#[trigger] all_words[k]) == Some(s);
                        assert(0 <= k < i + 1);
                    }
                    if s == added {
                        assert(scope_of(all_words[i as int]) == Some(s));
                    }
                }
            },
            None => {
                assert(!all_scopes(all_words));
                return Err(ApiError::bad_request("invalid oauth scope"));
            },
        }
        i = i + 1;
    }
    Ok(scopes)
}

/// The agents that scopes name, in their order; nothing where one cannot be
/// read.
pub open spec fn scope_agents(scopes: Seq<Seq<char>>) -> Option<Seq<Id>>
    decreases scopes.len(),
{
    if scopes.len() == 0 {
        Some(seq![])
    } else {
        match (scope_agents(scopes.drop_last()), agent_part(scopes.last())) {
            (None, _) => None,
            (Some(ids), None) => Some(ids),
            (Some(ids), Some(text)) => match parsed_id(text) {
                Some(id) => Some(ids.push(id)),
                None => None,
            },
        }
    }
}

proof fn lemma_scope_agents_none(scopes: Seq<Seq<char>>, n: int)
    requires
        0 <= n <= scopes.len(),
        scope_agents(scopes.take(n)) is None,
    ensures
        scope_agents(scopes) is None,
    decreases scopes.len() - n,
{
    if n < scopes.len() {
        assert(scopes.take(n + 1).drop_last() =~= scopes.take(n));
        lemma_scope_agents_none(scopes, n + 1);
    } else {
        assert(scopes.take(n) =~= scopes);
    }
}

/// The agent that a scope names, given how the identifier in it reads: none
/// where the scope is about the user.
pub open spec fn named_agent(scope: Seq<char>, id: Option<Id>) -> Result<Option<Id>, ErrorView> {
    if agent_part(scope) is None {
        Ok(None)
    } else if id is Some {
        Ok(id)
    } else {
        refused(Status::BadRequest, "invalid oauth scope"@)
    }
}

/// The agent that a scope names, given how the identifier in it reads.
pub fn check_scope_agent(scope: &str, id: Option<Id>) -> (r: Result<Option<Id>, ApiError>)
    ensures
        plain(r) == named_agent(scope@, id),
{
    if !starts_with(scope, "agent:") {
        return Ok(None);
    }
    match id {
        Some(id) => Ok(Some(id)),
        None => Err(ApiError::bad_request("invalid oauth scope")),
    }
}

/// The agents that scopes name.
pub fn oauth_agent_scope_ids(scopes: &Vec<String>) -> (r: Result<Vec<Id>, ApiError>)
    ensures
        match r {
            Ok(ids) => scope_agents(views(scopes@)) == Some(ids@),
            Err(e) => scope_agents(views(scopes@)) is None && e@ == error_of(
                Status::BadRequest,
                "invalid oauth scope"@,
            ),
        },
{
    let ghost all = views(scopes@);
    let mut ids: Vec<Id> = Vec::new();
    let mut i: usize = 0;
    assert(ids@ =~= seq![]);
    assert(all.take(0) =~= seq![]);
    while i < scopes.len()
        invariant
            i <= scopes@.len(),
            all == views(scopes@),
            scope_agents(all.take(i as int)) == Some(ids@),
        decreases scopes@.len() - i,
    {
        assert(all[i as int] == scopes@[i as int]@);
        assert(all.take(i + 1).drop_last() =~= all.take(i as int));
        let id = match strip_prefix(scopes[i].as_str(), "agent:") {
            Some(text) => parse_id(text.as_str()),
            None => None,
        };
        match check_scope_agent(scopes[i].as_str(), id) {
            Ok(Some(agent)) => {
                ids.push(agent);
            },
            Ok(None) => {},
            Err(e) => {
                proof {
                    lemma_scope_agents_none(all, i + 1);
                }
                return Err(e);
            },
        }
        i = i + 1;
    }
    assert(all.take(i as int) =~= all);
    Ok(ids)
}

proof fn lemma_user_scopes_name_no_agent(scope: Seq<char>)
    requires
        user_scope(scope),
    ensures
        agent_part(scope) is None,
{
    reveal_strlit("agent:");
    reveal_strlit("profile");
    reveal_strlit("email");
    reveal_strlit("external_profile");
    assert("agent:"@[0] == 'a');
    assert("profile"@[0] == 'p');
    assert("email"@[0] == 'e');
    assert("external_profile"@[0] == 'e');
    if "agent:"@.is_prefix_of(scope) {
        assert(scope[0] == "agent:"@[0]);
    }
}

/// The agents of scopes that were parsed can always be read back.
pub proof fn parsed_scopes_name_their_agents(scopes: Seq<Seq<char>>)
    requires
        forall|s: Seq<char>| #[trigger] scopes.contains(s) ==> readable_scope(s),
    ensures
        scope_agents(scopes) is Some,
        forall|i: int| 0 <= i < scope_agents(scopes)->0.len() ==> scope_agents(scopes)->0[i] != 0,
    decreases scopes.len(),
{
    if scopes.len() > 0 {
        let before = scopes.drop_last();
        assert forall|s: Seq<char>| #[trigger] before.contains(s) implies readable_scope(s) by {
            let k = choose|k: int| 0 <= k < before.len() && before[k] == s;
            assert(scopes[k] == s);
            assert(scopes.contains(s));
        }
        parsed_scopes_name_their_agents(before);
        let last = scopes.last();
        assert(scopes[scopes.len() - 1] == last);
        assert(scopes.contains(last));
        if user_scope(last) {
            lemma_user_scopes_name_no_agent(last);
        } else {
            let id = choose|id: Id|
                id != 0 && last == #[trigger] agent_scope(id) && parsed_id(hyphenated_id(id))
                    == Some(id);
            let prefix = "agent:"@;
            assert(last.subrange(0, prefix.len() as int) =~= prefix);
            assert(prefix.is_prefix_of(last));
            assert(last.skip(prefix.len() as int) =~= hyphenated_id(id));
        }
    }
}

// ---------------------------------------------------------------------------
// Tokens
// ---------------------------------------------------------------------------

/// The secret is the one whose digest is stored.
pub open spec fn client_check(stored: Seq<char>, secret: Seq<char>) -> Result<(), ErrorView> {
    if stored == text_digest(secret) {
        Ok(())
    } else {
        refused(Status::Unauthorized, "invalid oauth client"@)
    }
}

/// Accepts the secret of an application by its stored digest.
pub fn check_client_secret(stored: &str, secret: &str) -> (r: Result<(), ApiError>)
    ensures
        plain(r) == client_check(stored@, secret@),
{
    let digest = sha256_hex(secret);
    let matches = constant_time_eq(stored.as_bytes(), digest.as_str().as_bytes());
    proof {
        if encode_utf8(stored@) == encode_utf8(digest@) {
            encode_utf8_decode_utf8(stored@);
            encode_utf8_decode_utf8(digest@);
        }
    }
    if matches {
        Ok(())
    } else {
        Err(ApiError::unauthorized("invalid oauth client"))
    }
}

/// What a request for a token asks for.
#[derive(Debug)]
pub struct TokenRequest {
    pub grant_type: String,
    pub code: Option<String>,
    pub redirect_uri: Option<String>,
    pub scope: Option<String>,
}

/// How a token is granted.
#[derive(Debug)]
pub enum TokenGrant {
    /// For the user who was sent back with the code.
    Code { code_hash: String, redirect_uri: String },
    /// For the application itself.
    Client { scopes: Vec<String> },
}

/// What is wrong with a request for a token, before anything is looked up.
pub open spec fn grant_error(req: TokenRequest) -> Option<Seq<char>> {
    if req.grant_type@ == "authorization_code"@ {
        if req.code is None {
            Some("authorization code is required"@)
        } else if req.redirect_uri is None {
            Some("redirect uri is required"@)
        } else {
            None
        }
    } else if req.grant_type@ == "client_credentials"@ {
        let listed = scope_words(opt_view(req.scope), false);
        if req.code is Some || req.redirect_uri is Some {
            Some("client credentials cannot include authorization code fields"@)
        } else if !all_scopes(listed) {
            Some("invalid oauth scope"@)
        } else if listed.len() == 0 || exists|i: int|
            0 <= i < listed.len() && user_scope(#[trigger] listed[i]) {
            Some("client credentials require explicit agent scopes"@)
        } else {
            None
        }
    } else {
        Some("unsupported grant type"@)
    }
}

/// How a token is granted.
pub open spec fn grant_matches(grant: TokenGrant, req: TokenRequest) -> bool {
    match grant {
        TokenGrant::Code { code_hash, redirect_uri } => req.grant_type@ == "authorization_code"@
            && code_hash@ == text_digest(req.code->0@) && redirect_uri@ == req.redirect_uri->0@,
        TokenGrant::Client { scopes } => req.grant_type@ == "client_credentials"@ && lists_scopes(
            views(scopes@),
            scope_words(opt_view(req.scope), false),
        ),
    }
}

fn any_user_scope(scopes: &Vec<String>) -> (r: bool)
    ensures
        r == exists|i: int| 0 <= i < scopes@.len() && !("agent:"@.is_prefix_of(
            #[trigger] views(scopes@)[i],
        )),
{
    let mut i: usize = 0;
    while i < scopes.len()
        invariant
            i <= scopes@.len(),
            forall|k: int| 0 <= k < i ==> "agent:"@.is_prefix_of(#[trigger] views(scopes@)[k]),
        decreases scopes@.len() - i,
    {
        assert(views(scopes@)[i as int] == scopes@[i as int]@);
        if !starts_with(scopes[i].as_str(), "agent:") {
            return true;
        }
        i = i + 1;
    }
    false
}

/// How a token is granted, or why it cannot be.
pub fn plan_token_grant(req: &TokenRequest) -> (r: Result<TokenGrant, ApiError>)
    ensures
        match r {
            Ok(grant) => grant_error(*req) is None && grant_matches(grant, *req),
            Err(e) => grant_error(*req) is Some && e@ == error_of(
                Status::BadRequest,
                grant_error(*req)->0,
            ),
        },
{
    proof {
        reveal_strlit("authorization_code");
        reveal_strlit("client_credentials");
        assert("authorization_code"@[0] == 'a' && "client_credentials"@[0] == 'c');
    }
    if same(req.grant_type.as_str(), "authorization_code") {
        return match (&req.code, &req.redirect_uri) {
            (None, _) => Err(ApiError::bad_request("authorization code is required")),
            (Some(_), None) => Err(ApiError::bad_request("redirect uri is required")),
            (Some(code), Some(uri)) => Ok(
                TokenGrant::Code {
                    code_hash: sha256_hex(code.as_str()),
                    redirect_uri: uri.clone(),
                },
            ),
        };
    }
    if !same(req.grant_type.as_str(), "client_credentials") {
        return Err(ApiError::bad_request("unsupported grant type"));
    }
    if req.code.is_some() || req.redirect_uri.is_some() {
        return Err(
            ApiError::bad_request("client credentials cannot include authorization code fields"),
        );
    }
    let ghost listed = scope_words(opt_view(req.scope), false);
    match parse_oauth_scopes(&req.scope, false) {
        Err(e) => Err(e),
        Ok(scopes) => {
            proof {
                lemma_grant_scopes(views(scopes@), listed);
            }
            if scopes.len() == 0 || any_user_scope(&scopes) {
                return Err(
                    ApiError::bad_request("client credentials require explicit agent scopes"),
                );
            }
            Ok(TokenGrant::Client { scopes })
        },
    }
}

/// A list of scopes names a user scope just where its words do.
proof fn lemma_grant_scopes(scopes: Seq<Seq<char>>, listed: Seq<Seq<char>>)
    requires
        all_scopes(listed),
        lists_scopes(scopes, listed),
    ensures
        scopes.len() == 0 <==> listed.len() == 0,
        (exists|i: int| 0 <= i < scopes.len() && !("agent:"@.is_prefix_of(#[trigger] scopes[i])))
            <==> (exists|i: int| 0 <= i < listed.len() && user_scope(#[trigger] listed[i])),
{
    if listed.len() > 0 {
        let s = scope_of(listed[0])->0;
        assert(scope_of(listed[0]) == Some(s));
        assert(scopes.contains(s));
    }
    if scopes.len() > 0 {
        assert(scopes.contains(scopes[0]));
    }
    if exists|i: int| 0 <= i < listed.len() && user_scope(#[trigger] listed[i]) {
        let i = choose|i: int| 0 <= i < listed.len() && user_scope(#[trigger] listed[i]);
        assert(scope_of(listed[i]) == Some(listed[i]));
        assert(scopes.contains(listed[i]));
        let k = choose|k: int| 0 <= k < scopes.len() && scopes[k] == listed[i];
        lemma_user_scopes_name_no_agent(scopes[k]);
        assert(!("agent:"@.is_prefix_of(scopes[k])));
    }
    if exists|i: int| 0 <= i < scopes.len() && !("agent:"@.is_prefix_of(#[trigger] scopes[i])) {
        let k = choose|i: int|
            0 <= i < scopes.len() && !("agent:"@.is_prefix_of(#[trigger] scopes[i]));
        assert(scopes.contains(scopes[k]));
        let i = choose|i: int|
            0 <= i < listed.len() && scope_of(#[trigger] listed[i]) == Some(scopes[k]);
        if !user_scope(listed[i]) {
            let id = parsed_id(agent_part(listed[i])->0)->0;
            assert(scopes[k] == agent_scope(id));
            let prefix = "agent:"@;
            assert(scopes[k].subrange(0, prefix.len() as int) =~= prefix);
        }
    }
}

/// A token for a code may name scopes only to repeat those of the code.
pub open spec fn code_scopes_match(requested: Option<Seq<Seq<char>>>, granted: Seq<Seq<char>>) -> Result<
    (),
    ErrorView,
> {
    if requested is Some && requested->0 != granted {
        refused(Status::BadRequest, "token scope must match the authorization code"@)
    } else {
        Ok(())
    }
}

/// Tells whether two lists hold the same texts in the same order.
pub fn same_texts(a: &Vec<String>, b: &Vec<String>) -> (r: bool)
    ensures
        r == (views(a@) == views(b@)),
{
    let ghost x = views(a@);
    let ghost y = views(b@);
    if a.len() != b.len() {
        assert(x.len() != y.len());
        return false;
    }
    let mut i: usize = 0;
    while i < a.len()
        invariant
            i <= a@.len() == b@.len(),
            x == views(a@),
            y == views(b@),
            forall|k: int| 0 <= k < i ==> x[k] == y[k],
        decreases a@.len() - i,
    {
        assert(x[i as int] == a@[i as int]@);
        assert(y[i as int] == b@[i as int]@);
        if !same(a[i].as_str(), b[i].as_str()) {
            return false;
        }
        i = i + 1;
    }
    assert(x =~= y);
    true
}

/// The listed texts, if any are.
pub open spec fn opt_texts(v: Option<Vec<String>>) -> Option<Seq<Seq<char>>> {
    match v {
        Some(texts) => Some(views(texts@)),
        None => None,
    }
}

/// Checks the scopes that a token for a code names against those of the code.
pub fn check_code_scopes(requested: &Option<Vec<String>>, granted: &Vec<String>) -> (r: Result<
    (),
    ApiError,
>)
    ensures
        plain(r) == code_scopes_match(opt_texts(*requested), views(granted@)),
{
    match requested {
        Some(scopes) => {
            if !same_texts(scopes, granted) {
                return Err(
                    ApiError::bad_request("token scope must match the authorization code"),
                );
            }
            Ok(())
        },
        None => Ok(()),
    }
}

/// Texts with spaces between them.
pub open spec fn spaced(v: Seq<Seq<char>>) -> Seq<char>
    decreases v.len(),
{
    if v.len() == 0 {
        seq![]
    } else if v.len() == 1 {
        v[0]
    } else {
        spaced(v.drop_last()) + " "@ + v.last()
    }
}

/// Scopes as a token response lists them.
pub fn scope_text(scopes: &Vec<String>) -> (r: String)
    ensures
        r@ == spaced(views(scopes@)),
{
    let ghost all = views(scopes@);
    let mut out = String::new();
    let mut i: usize = 0;
    assert(all.take(0) =~= seq![]);
    while i < scopes.len()
        invariant
            i <= scopes@.len(),
            all == views(scopes@),
            out@ == spaced(all.take(i as int)),
        decreases scopes@.len() - i,
    {
        assert(all[i as int] == scopes@[i as int]@);
        assert(all.take(i + 1).drop_last() =~= all.take(i as int));
        if i == 0 {
            out = scopes[i].clone();
        } else {
            out.append(" ");
            out.append(scopes[i].as_str());
        }
        i = i + 1;
    }
    assert(all.take(i as int) =~= all);
    out
}

/// The code that a user is sent back to an application with, as it is stored.
#[derive(Debug)]
pub struct AuthorizationCode {
    pub oauth_app_id: Id,
    pub redirect_uri: String,
    pub used: bool,
    pub expires_at: Instant,
    pub subject_user_id: Id,
    pub external_identity_id: Id,
    pub tenant_id: String,
    pub scopes: Vec<String>,
}

/// What an `AuthorizationCode` holds.
pub struct CodeView {
    pub oauth_app_id: Id,
    pub redirect_uri: Seq<char>,
    pub used: bool,
    pub expires_at: Instant,
    pub subject_user_id: Id,
    pub external_identity_id: Id,
    pub tenant_id: Seq<char>,
    pub scopes: Seq<Seq<char>>,
}

impl View for AuthorizationCode {
    type V = CodeView;

    open spec fn view(&self) -> CodeView {
        CodeView {
            oauth_app_id: self.oauth_app_id,
            redirect_uri: self.redirect_uri@,
            used: self.used,
            expires_at: self.expires_at,
            subject_user_id: self.subject_user_id,
            external_identity_id: self.external_identity_id,
            tenant_id: self.tenant_id@,
            scopes: views(self.scopes@),
        }
    }
}

/// A code that may be missing.
pub open spec fn opt_code(code: Option<AuthorizationCode>) -> Option<CodeView> {
    match code {
        Some(c) => Some(c@),
        None => None,
    }
}

/// An attempt to redeem a code: by which application, for which redirect, with
/// which scopes, and when.
pub struct Redemption {
    pub oauth_app_id: Id,
    pub redirect_uri: Seq<char>,
    pub scope: Option<Seq<char>>,
    pub now: Instant,
}

/// A code that is good for a token: it was made for the application and the
/// redirect, was not used, and has not expired.
pub open spec fn redeemable(c: CodeView, r: Redemption) -> bool {
    c.oauth_app_id == r.oauth_app_id && c.redirect_uri == r.redirect_uri && !c.used
        && c.expires_at > r.now
}

/// The refusal of a code that is good for nothing.
pub open spec fn invalid_code() -> ErrorView {
    error_of(Status::Unauthorized, "invalid oauth code"@)
}

/// The code once it is redeemed, or why it cannot be: one that is not found or
/// not good for a token is refused, and where scopes are named they are those
/// of the code.
pub open spec fn redeemed(code: Option<CodeView>, r: Redemption) -> Result<CodeView, ErrorView> {
    match code {
        None => Err(invalid_code()),
        Some(c) => if !redeemable(c, r) {
            Err(invalid_code())
        } else if r.scope is Some && !all_scopes(scope_words(r.scope, false)) {
            refused(Status::BadRequest, "invalid oauth scope"@)
        } else if r.scope is Some && !lists_scopes(c.scopes, scope_words(r.scope, false)) {
            refused(Status::BadRequest, "token scope must match the authorization code"@)
        } else {
            Ok(CodeView { used: true, ..c })
        },
    }
}

/// Redeems a code. What comes back is the code as it is to be stored: used.
pub fn redeem_authorization_code(
    code: Option<AuthorizationCode>,
    oauth_app_id: Id,
    redirect_uri: &str,
    scope: &Option<String>,
    now: Instant,
) -> (r: Result<AuthorizationCode, ApiError>)
    ensures
        seen(r) == redeemed(
            opt_code(code),
            Redemption { oauth_app_id, redirect_uri: redirect_uri@, scope: opt_view(*scope), now },
        ),
{
    let code = match code {
        Some(code) => code,
        None => {
            return Err(ApiError::unauthorized("invalid oauth code"));
        },
    };
    if code.oauth_app_id != oauth_app_id || !same(code.redirect_uri.as_str(), redirect_uri)
        || code.used || code.expires_at <= now {
        return Err(ApiError::unauthorized("invalid oauth code"));
    }
    let requested = match scope {
        Some(_) => match parse_oauth_scopes(scope, false) {
            Ok(scopes) => Some(scopes),
            Err(e) => {
                return Err(e);
            },
        },
        None => None,
    };
    let ghost listed = scope_words(opt_view(*scope), false);
    let ghost granted = views(code.scopes@);
    let matches = check_code_scopes(&requested, &code.scopes);
    proof {
        if requested is Some {
            let asked = views(requested->0@);
            assert(lists_scopes(asked, listed));
            if lists_scopes(granted, listed) {
                listing_is_unique(asked, granted);
            }
        }
    }
    match matches {
        Err(e) => Err(e),
        Ok(_) => Ok(
            AuthorizationCode {
                oauth_app_id: code.oauth_app_id,
                redirect_uri: code.redirect_uri,
                used: true,
                expires_at: code.expires_at,
                subject_user_id: code.subject_user_id,
                external_identity_id: code.external_identity_id,
                tenant_id: code.tenant_id,
                scopes: code.scopes,
            },
        ),
    }
}

/// How many tokens a code buys in a series of attempts, where it is stored
/// after each as the attempt leaves it.
pub open spec fn tokens_bought(code: CodeView, attempts: Seq<Redemption>) -> nat
    decreases attempts.len(),
{
    if attempts.len() == 0 {
        0
    } else {
        match redeemed(Some(code), attempts[0]) {
            Ok(kept) => 1 + tokens_bought(kept, attempts.drop_first()),
            Err(_) => tokens_bought(code, attempts.drop_first()),
        }
    }
}

/// A code buys one token at most, whoever tries, however often and with
/// whatever scopes; and from a used one on, every attempt is refused as one
/// with an invalid code.
pub proof fn codes_buy_one_token(code: CodeView, attempts: Seq<Redemption>)
    ensures
        tokens_bought(code, attempts) <= 1,
        code.used ==> tokens_bought(code, attempts) == 0,
        code.used ==> forall|i: int|
            0 <= i < attempts.len() ==> redeemed(Some(code), #[trigger] attempts[i]) == Err::<
                CodeView,
                ErrorView,
            >(invalid_code()),
        forall|r: Redemption|
            #![trigger redeemed(Some(code), r)]
            redeemed(Some(code), r) is Ok ==> redeemed(Some(code), r)->Ok_0.used && redeemed(
                Some(code),
                r,
            )->Ok_0.scopes == code.scopes,
    decreases attempts.len(),
{
    if attempts.len() > 0 {
        let rest = attempts.drop_first();
        codes_buy_one_token(code, rest);
        match redeemed(Some(code), attempts[0]) {
            Ok(kept) => {
                codes_buy_one_token(kept, rest);
            },
            Err(_) => {},
        }
    }
}

/// The seconds that a token is good for.
pub const TOKEN_SECONDS: u32 = 3600;

/// What a request for a token is answered with.
#[derive(Debug)]
pub struct TokenAnswer {
    pub access_token: String,
    pub token_type: String,
    pub expires_in: u32,
    pub scope: String,
}

/// What a `TokenAnswer` holds.
pub struct TokenAnswerView {
    pub access_token: Seq<char>,
    pub token_type: Seq<char>,
    pub expires_in: u32,
    pub scope: Seq<char>,
}

impl View for TokenAnswer {
    type V = TokenAnswerView;

    open spec fn view(&self) -> TokenAnswerView {
        TokenAnswerView {
            access_token: self.access_token@,
            token_type: self.token_type@,
            expires_in: self.expires_in,
            scope: self.scope@,
        }
    }
}

/// The answer to a request for a token: a bearer token that is good for an
/// hour, and its scopes with single spaces between them.
pub open spec fn answer_of(access_token: Seq<char>, scopes: Seq<Seq<char>>) -> TokenAnswerView {
    TokenAnswerView { access_token, token_type: "Bearer"@, expires_in: 3600, scope: spaced(scopes) }
}

/// The answer to a request for a token.
pub fn token_answer(access_token: String, scopes: &Vec<String>) -> (r: TokenAnswer)
    ensures
        r@ == answer_of(access_token@, views(scopes@)),
{
    TokenAnswer {
        access_token,
        token_type: "Bearer".to_owned(),
        expires_in: TOKEN_SECONDS,
        scope: scope_text(scopes),
    }
}

/// A code that is redeemed is answered with a bearer token for an hour and the
/// scopes of the code, joined by a space; from then on it is refused, whoever
/// tries and with whatever scopes, as one that does not authorize.
pub proof fn redeemed_codes_are_answered_once(
    code: CodeView,
    attempt: Redemption,
    later: Redemption,
    access_token: Seq<char>,
)
    requires
        redeemed(Some(code), attempt) is Ok,
    ensures
        ({
            let kept = redeemed(Some(code), attempt)->Ok_0;
            let answer = answer_of(access_token, kept.scopes);
            &&& answer.access_token == access_token
            &&& answer.token_type == "Bearer"@
            &&& answer.expires_in == 3600
            &&& answer.scope == spaced(code.scopes)
            &&& redeemed(Some(kept), later) == refused::<CodeView>(
                Status::Unauthorized,
                "invalid oauth code"@,
            )
        }),
{
}

proof fn lemma_scope_is_word(scope: Seq<char>)
    requires
        readable_scope(scope),
    ensures
        is_word(scope, true),
        scope_of(scope) == Some(scope),
{
    if user_scope(scope) {
        reveal_strlit("profile");
        reveal_strlit("email");
        reveal_strlit("external_profile");
        assert forall|i: int| 0 <= i < scope.len() implies !separates(#[trigger] scope[i], true) by {
            assert('_' <= scope[i]);
        }
    } else {
        let id = choose|id: Id|
            id != 0 && scope == #[trigger] agent_scope(id) && parsed_id(hyphenated_id(id))
                == Some(id);
        let prefix = "agent:"@;
        reveal_strlit("agent:");
        lemma_hyphenated_id(id);
        assert(scope.subrange(0, prefix.len() as int) =~= prefix);
        assert(prefix.is_prefix_of(scope));
        assert(scope.skip(prefix.len() as int) =~= hyphenated_id(id));
        assert forall|i: int| 0 <= i < scope.len() implies !separates(#[trigger] scope[i], true) by {
            if i < prefix.len() {
                assert(scope[i] == prefix[i]);
                assert(':' <= prefix[i]);
            } else {
                assert(scope[i] == hyphenated_id(id)[i - prefix.len()]);
            }
        }
    }
}

proof fn lemma_spaced_words(scopes: Seq<Seq<char>>)
    requires
        forall|i: int| 0 <= i < scopes.len() ==> is_word(#[trigger] scopes[i], true),
    ensures
        words_by(spaced(scopes), true) == scopes,
    decreases scopes.len(),
{
    reveal_strlit(" ");
    if scopes.len() == 0 {
        assert(words_by(spaced(scopes), true) =~= scopes);
    } else if scopes.len() == 1 {
        lemma_one_word(scopes[0], true);
        assert(scopes =~= seq![scopes[0]]);
    } else {
        let before = scopes.drop_last();
        assert forall|i: int| 0 <= i < before.len() implies is_word(#[trigger] before[i], true) by {
            assert(before[i] == scopes[i]);
        }
        lemma_spaced_words(before);
        assert(is_word(scopes[scopes.len() - 1], true));
        lemma_words_push(spaced(before), ' ', scopes.last(), true);
        assert(spaced(scopes) =~= spaced(before).push(' ') + scopes.last());
        assert(scopes =~= before.push(scopes.last()));
    }
}

/// The scopes that a token is answered with are read back as the same scopes:
/// the text of scopes that were parsed is a list of scopes, and nothing but
/// those scopes is a listing of it.
pub proof fn answered_scopes_are_read_back(scopes: Seq<Seq<char>>, read: Seq<Seq<char>>)
    requires
        ascending(scopes),
        forall|s: Seq<char>| #[trigger] scopes.contains(s) ==> readable_scope(s),
    ensures
        all_scopes(scope_words(Some(spaced(scopes)), false)),
        lists_scopes(read, scope_words(Some(spaced(scopes)), false)) <==> read == scopes,
{
    assert forall|i: int| 0 <= i < scopes.len() implies is_word(#[trigger] scopes[i], true)
        && scope_of(scopes[i]) == Some(scopes[i]) by {
        assert(scopes.contains(scopes[i]));
        lemma_scope_is_word(scopes[i]);
    }
    lemma_spaced_words(scopes);
    assert(lists_scopes(scopes, scopes)) by {
        assert forall|s: Seq<char>|
            scopes.contains(s) <==> exists|i: int|
                0 <= i < scopes.len() && scope_of(#[trigger] scopes[i]) == Some(s) by {
            if scopes.contains(s) {
                let i = choose|i: int| 0 <= i < scopes.len() && scopes[i] == s;
                assert(scope_of(scopes[i]) == Some(s));
            }
        }
    }
    if lists_scopes(read, scopes) {
        listing_is_unique(read, scopes);
    }
}

// ---------------------------------------------------------------------------
// What an application is told of a user
// ---------------------------------------------------------------------------

/// The user's profile on the application's platform.
#[derive(Debug)]
pub struct ExternalProfile {
    pub platform_id: Id,
    pub tenant_id: String,
    pub external_identity_id: Id,
    pub external_user_id: String,
    pub username: Option<String>,
    pub email: Option<String>,
}

/// Whom a token tells about: it stands for a user, with an identity of an
/// outside platform.
pub open spec fn userinfo_subject(subject: Option<Id>, identity: Option<Id>) -> Result<
    (Id, Id),
    Refusal,
> {
    match (subject, identity) {
        (None, _) => Err(refusal(Status::Forbidden, "application principal has no userinfo")),
        (Some(_), None) => Err(refusal(Status::Unauthorized, "invalid user application token")),
        (Some(user), Some(identity)) => Ok((user, identity)),
    }
}

/// Whom a token tells about.
pub fn oauth_userinfo(subject: Option<Id>, identity: Option<Id>) -> (r: Result<(Id, Id), Refusal>)
    ensures
        r == userinfo_subject(subject, identity),
{
    match (subject, identity) {
        (None, _) => Err(refuse(Status::Forbidden, "application principal has no userinfo")),
        (Some(_), None) => Err(refuse(Status::Unauthorized, "invalid user application token")),
        (Some(user), Some(identity)) => Ok((user, identity)),
    }
}

/// What an application is told of a user.
#[derive(Debug)]
pub struct UserInfo {
    pub sub: Id,
    pub name: Option<String>,
    pub email: Option<String>,
    pub external_profile: Option<ExternalProfile>,
}

/// What an application is told: the name, the address and the profile only
/// with their scopes, and no address in the profile without the scope for
/// addresses.
pub open spec fn told(
    info: UserInfo,
    scopes: Seq<Seq<char>>,
    user_id: Id,
    display_name: Seq<char>,
    email: Seq<char>,
    external: ExternalProfile,
) -> bool {
    &&& info.sub == user_id
    &&& opt_view(info.name) == (if scopes.contains("profile"@) {
        Some(display_name)
    } else {
        None
    })
    &&& opt_view(info.email) == (if scopes.contains("email"@) {
        Some(email)
    } else {
        None
    })
    &&& info.external_profile == (if scopes.contains("external_profile"@) {
        Some(
            ExternalProfile {
                email: if scopes.contains("email"@) {
                    external.email
                } else {
                    None
                },
                ..external
            },
        )
    } else {
        None
    })
}

/// What an application with these scopes is told of a user.
pub fn project_oauth_userinfo(
    scopes: &Vec<String>,
    user_id: Id,
    display_name: &str,
    email: &str,
    external: ExternalProfile,
) -> (r: UserInfo)
    ensures
        told(r, views(scopes@), user_id, display_name@, email@, external),
{
    let with_name = contains(scopes, "profile");
    let with_email = contains(scopes, "email");
    let with_profile = contains(scopes, "external_profile");
    let profile = ExternalProfile {
        platform_id: external.platform_id,
        tenant_id: external.tenant_id,
        external_identity_id: external.external_identity_id,
        external_user_id: external.external_user_id,
        username: external.username,
        email: if with_email {
            external.email
        } else {
            None
        },
    };
    UserInfo {
        sub: user_id,
        name: if with_name {
            Some(display_name.to_owned())
        } else {
            None
        },
        email: if with_email {
            Some(email.to_owned())
        } else {
            None
        },
        external_profile: if with_profile {
            Some(profile)
        } else {
            None
        },
    }
}

/// Without the scope for addresses no address is told, in any field.
pub proof fn addresses_need_their_scope(
    info: UserInfo,
    scopes: Seq<Seq<char>>,
    user_id: Id,
    display_name: Seq<char>,
    email: Seq<char>,
    external: ExternalProfile,
)
    requires
        told(info, scopes, user_id, display_name, email, external),
        !scopes.contains("email"@),
    ensures
        info.email is None,
        info.external_profile is Some ==> info.external_profile->0.email is None,
{
}

// ---------------------------------------------------------------------------
// Laws of applications and their tokens
// ---------------------------------------------------------------------------

/// Each field of the answer hangs on its own scope alone: the name is told
/// exactly where the profile was asked for, the address where the address
/// was, the outside profile where that was; what is told is what is stored,
/// and other scopes take nothing away.
pub proof fn fields_follow_their_scopes(
    info: UserInfo,
    scopes: Seq<Seq<char>>,
    user_id: Id,
    display_name: Seq<char>,
    email: Seq<char>,
    external: ExternalProfile,
)
    requires
        told(info, scopes, user_id, display_name, email, external),
    ensures
        info.sub == user_id,
        info.name is Some <==> scopes.contains("profile"@),
        info.name is Some ==> info.name->0@ == display_name,
        info.email is Some <==> scopes.contains("email"@),
        info.email is Some ==> info.email->0@ == email,
        info.external_profile is Some <==> scopes.contains("external_profile"@),
        info.external_profile matches Some(profile) ==> {
            &&& profile.platform_id == external.platform_id
            &&& profile.tenant_id == external.tenant_id
            &&& profile.external_identity_id == external.external_identity_id
            &&& profile.external_user_id == external.external_user_id
            &&& profile.username == external.username
            &&& scopes.contains("email"@) ==> profile.email == external.email
        },
{
}

/// What a scope tells does not depend on the scopes beside it.
pub proof fn more_scopes_take_nothing_away(
    few: UserInfo,
    many: UserInfo,
    scopes: Seq<Seq<char>>,
    more: Seq<char>,
    user_id: Id,
    display_name: Seq<char>,
    email: Seq<char>,
    external: ExternalProfile,
)
    requires
        told(few, scopes, user_id, display_name, email, external),
        told(many, scopes.push(more), user_id, display_name, email, external),
    ensures
        few.name is Some ==> opt_view(many.name) == opt_view(few.name),
        few.email is Some ==> opt_view(many.email) == opt_view(few.email),
        few.external_profile is Some ==> many.external_profile is Some,
        many.name is Some && few.name is None ==> more == "profile"@,
        many.email is Some && few.email is None ==> more == "email"@,
        many.external_profile is Some && few.external_profile is None ==> more
            == "external_profile"@,
{
    let all = scopes.push(more);
    assert forall|s: Seq<char>| all.contains(s) <==> scopes.contains(s) || s == more by {
        if scopes.contains(s) {
            let i = choose|i: int| 0 <= i < scopes.len() && scopes[i] == s;
            assert(all[i] == s);
        }
        assert(all[scopes.len() as int] == more);
        if all.contains(s) && s != more {
            let i = choose|i: int| 0 <= i < all.len() && all[i] == s;
            assert(scopes[i] == s);
        }
    }
}

/// A redirect goes only where nobody else listens: over HTTPS, or to the same
/// machine, and never with credentials or a fragment. Whatever does is taken.
pub proof fn redirects_are_safe_and_safe_ones_are_taken(url: UrlView)
    ensures
        redirect_validity(Some(url)) is Ok ==> {
            &&& url.username.len() == 0
            &&& url.password is None
            &&& url.fragment is None
            &&& url.scheme == "https"@ || (url.scheme == "http"@ && url.host is Some
                && loopback_host(url.host->0))
        },
        url.username.len() == 0 && url.password is None && url.fragment is None && url.scheme
            == "https"@ ==> redirect_validity(Some(url)) is Ok,
        url.username.len() == 0 && url.password is None && url.fragment is None && url.scheme
            == "http"@ && url.host == Some("localhost"@) ==> redirect_validity(Some(url)) is Ok,
        url.username.len() == 0 && url.password is None && url.fragment is None && url.scheme
            == "http"@ && url.host is Some && loopback_host(url.host->0) ==> redirect_validity(
            Some(url),
        ) is Ok,
        redirect_validity(None) is Err,
        redirect_validity(Some(url)) matches Err(e) ==> e.status == Status::BadRequest,
{
}

/// The hosts of the same machine are its name and the addresses that begin
/// with 127: a host of four numbers, each up to 255, of which that is the
/// first.
pub proof fn loopback_hosts_are_local(host: Seq<char>, a: nat, b: nat, c: nat, d: nat)
    requires
        split_all(host, '.') == seq![decimal(a), decimal(b), decimal(c), decimal(d)],
        host != "localhost"@,
    ensures
        loopback_host(host) <==> a == 127 && b <= 255 && c <= 255 && d <= 255,
        loopback_host("localhost"@),
{
    let parts = split_all(host, '.');
    decimal_reads_back(a);
    decimal_reads_back(b);
    decimal_reads_back(c);
    decimal_reads_back(d);
    lemma_decimal_octet(a);
    lemma_decimal_octet(b);
    lemma_decimal_octet(c);
    lemma_decimal_octet(d);
    assert(parts[0] == decimal(a) && parts[1] == decimal(b));
    assert(parts[2] == decimal(c) && parts[3] == decimal(d));
    if a == 127 && b <= 255 && c <= 255 && d <= 255 {
        assert forall|i: int| 0 <= i < 4 implies octet(#[trigger] parts[i]) by {}
    }
}

/// A host of another number of parts is a name, and no name but one is local.
pub proof fn other_hosts_are_not_local(host: Seq<char>)
    ensures
        loopback_host(host) && host != "localhost"@ ==> split_all(host, '.').len() == 4,
{
}

proof fn lemma_decimal_octet(n: nat)
    ensures
        octet(decimal(n)) <==> n <= 255,
    decreases n,
{
    decimal_reads_back(n);
    lemma_no_leading_zero(n);
}

proof fn lemma_no_leading_zero(n: nat)
    ensures
        decimal(n).len() >= 1,
        n > 0 ==> decimal(n)[0] != '0',
        n < 10 ==> decimal(n).len() == 1,
    decreases n,
{
    if n >= 10 {
        lemma_no_leading_zero(n / 10);
    }
}

/// A redirect is registered exactly by being on the list, as it is written:
/// another one on the list changes nothing for it.
pub proof fn redirects_are_registered_one_by_one(
    items: Seq<JsonView>,
    added: Seq<char>,
    uri: Seq<char>,
)
    ensures
        registered_redirect(JsonView::List(items.push(JsonView::Text(added))), uri) <==> (uri
            == added || registered_redirect(JsonView::List(items), uri)),
        !registered_redirect(JsonView::List(seq![]), uri),
        !registered_redirect(JsonView::Null, uri),
{
    let more = items.push(JsonView::Text(added));
    if registered_redirect(JsonView::List(items), uri) {
        let i = choose|i: int| 0 <= i < items.len() && (#[trigger] items[i]).text() == Some(uri);
        assert(more[i].text() == Some(uri));
    }
    assert(more[items.len() as int].text() == Some(added));
    if registered_redirect(JsonView::List(more), uri) && uri != added {
        let i = choose|i: int| 0 <= i < more.len() && (#[trigger] more[i]).text() == Some(uri);
        assert(items[i].text() == Some(uri));
    }
}

proof fn lemma_redirects_error(items: Seq<JsonView>, from: int)
    requires
        0 <= from <= items.len(),
    ensures
        redirects_error(items, from) is None <==> forall|i: int|
            from <= i < items.len() ==> (#[trigger] items[i]).text() is Some && redirect_validity(
                parsed_url(items[i].text()->0),
            ) is Ok,
        redirects_error(items, from) is Some ==> redirects_error(items, from)->0.status
            == Status::BadRequest,
    decreases items.len() - from,
{
    if from < items.len() {
        lemma_redirects_error(items, from + 1);
        if redirects_error(items, from) is None {
            assert forall|i: int| from <= i < items.len() implies (#[trigger] items[i]).text()
                is Some && redirect_validity(parsed_url(items[i].text()->0)) is Ok by {}
        } else if redirects_error(items, from + 1) is None {
            assert(!(items[from].text() is Some && redirect_validity(
                parsed_url(items[from].text()->0),
            ) is Ok));
        }
    }
}

/// An application is accepted exactly with a name, at least one redirect, only
/// redirects that can be taken, and at most a hundred agents, no two the same.
pub proof fn accepted_applications_are_complete(
    name: Seq<char>,
    redirect_uris: JsonView,
    agent_ids: Seq<Id>,
)
    ensures
        app_validity(name, redirect_uris, agent_ids) is Ok <==> {
            &&& !blank(name)
            &&& redirect_uris is List
            &&& redirect_uris->List_0.len() > 0
            &&& forall|i: int|
                0 <= i < redirect_uris->List_0.len() ==> (#[trigger] redirect_uris->List_0[i])
                    is Text && redirect_validity(parsed_url(redirect_uris->List_0[i]->Text_0)) is Ok
            &&& agent_ids.len() <= 100
            &&& forall|i: int, j: int|
                0 <= i < j < agent_ids.len() ==> #[trigger] agent_ids[i] != #[trigger] agent_ids[j]
        },
        app_validity(name, redirect_uris, agent_ids) matches Err(e) ==> e.status
            == Status::BadRequest,
{
    match redirect_uris {
        JsonView::List(items) => {
            lemma_redirects_error(items, 0);
            if redirects_error(items, 0) is None {
                assert forall|i: int| 0 <= i < items.len() implies (#[trigger] items[i]) is Text
                    && redirect_validity(parsed_url(items[i]->Text_0)) is Ok by {
                    assert(items[i].text() is Some);
                }
            }
            if forall|i: int|
                0 <= i < items.len() ==> (#[trigger] items[i]) is Text && redirect_validity(
                    parsed_url(items[i]->Text_0),
                ) is Ok {
                assert forall|i: int| 0 <= i < items.len() implies (#[trigger] items[i]).text()
                    is Some && redirect_validity(parsed_url(items[i].text()->0)) is Ok by {}
            }
        },
        _ => {},
    }
}

/// A scope is one of three that speak of the user, or names an agent; the
/// former are written as they are, the latter in one way only, and the agent
/// that is no agent is not named.
pub proof fn scopes_are_of_two_kinds(word: Seq<char>, text: Seq<char>)
    ensures
        scope_of("profile"@) == Some("profile"@),
        scope_of("email"@) == Some("email"@),
        scope_of("external_profile"@) == Some("external_profile"@),
        parsed_id(text) is Some && parsed_id(text)->0 != 0 ==> scope_of("agent:"@ + text) == Some(
            "agent:"@ + hyphenated_id(parsed_id(text)->0),
        ),
        parsed_id(text) is None || parsed_id(text)->0 == 0 ==> scope_of("agent:"@ + text) is None,
        scope_of(word) is Some ==> word == "profile"@ || word == "email"@ || word
            == "external_profile"@ || "agent:"@.is_prefix_of(word),
{
    reveal_strlit("agent:");
    reveal_strlit("profile");
    reveal_strlit("email");
    reveal_strlit("external_profile");
    let w = "agent:"@ + text;
    assert("agent:"@.is_prefix_of(w)) by {
        assert(w.take("agent:"@.len() as int) =~= "agent:"@);
    }
    assert(w.skip("agent:"@.len() as int) =~= text);
    assert(w[0] == 'a');
    assert("profile"@[0] == 'p' && "email"@[0] == 'e' && "external_profile"@[0] == 'e');
}

/// Where no scope is asked for, everything about the user is asked for, or
/// nothing at all.
pub proof fn scopes_that_are_not_asked_for()
    ensures
        scope_words(None, true).len() == 3,
        forall|s: Seq<char>|
            #[trigger] scope_words(None, true).contains(s) <==> s == "profile"@ || s == "email"@
                || s == "external_profile"@,
        scope_words(None, false).len() == 0,
        forall|text: Seq<char>|
            #[trigger] scope_words(Some(text), true) == scope_words(Some(text), false),
{
    let all = scope_words(None, true);
    assert(all[0] == "profile"@ && all[1] == "email"@ && all[2] == "external_profile"@);
}

/// The agents that scopes name are just those of the scopes that name one, in
/// their order.
pub proof fn scopes_name_their_agents_in_order(scopes: Seq<Seq<char>>, scope: Seq<char>, text: Seq<char>)
    ensures
        scope_agents(seq![]) == Some(Seq::<Id>::empty()),
        !"agent:"@.is_prefix_of(scope) ==> scope_agents(scopes.push(scope)) == scope_agents(scopes),
        scope_agents(scopes) is Some && parsed_id(text) is Some ==> scope_agents(
            scopes.push("agent:"@ + text),
        ) == Some(scope_agents(scopes)->0.push(parsed_id(text)->0)),
        parsed_id(text) is None ==> scope_agents(scopes.push("agent:"@ + text)) is None,
        scope_agents(scopes) is None ==> scope_agents(scopes.push(scope)) is None,
{
    let w = "agent:"@ + text;
    assert("agent:"@.is_prefix_of(w)) by {
        assert(w.take("agent:"@.len() as int) =~= "agent:"@);
    }
    assert(w.skip("agent:"@.len() as int) =~= text);
    assert(scopes.push(w).drop_last() =~= scopes);
    assert(scopes.push(scope).drop_last() =~= scopes);
}

/// A client is known by its secret: the one that was stored opens, and any
/// other only with the same digest.
pub proof fn clients_are_known_by_their_secret(secret: Seq<char>, other: Seq<char>)
    ensures
        client_check(text_digest(secret), secret) is Ok,
        client_check(text_digest(secret), other) is Ok <==> text_digest(other) == text_digest(
            secret,
        ),
        client_check(text_digest(secret), other) matches Err(e) ==> e.status
            == Status::Unauthorized,
{
}

/// A token is granted for a code with its redirect, or to the application
/// itself for scopes that name agents and nothing else; for no other grant.
pub proof fn grants_are_of_two_kinds(req: TokenRequest)
    ensures
        req.grant_type@ == "authorization_code"@ ==> (grant_error(req) is None <==> req.code is Some
            && req.redirect_uri is Some),
        req.grant_type@ == "client_credentials"@ ==> (grant_error(req) is None <==> {
            let asked = scope_words(opt_view(req.scope), false);
            &&& req.code is None
            &&& req.redirect_uri is None
            &&& asked.len() > 0
            &&& forall|i: int|
                0 <= i < asked.len() ==> scope_of(#[trigger] asked[i]) is Some && asked[i]
                    != "profile"@ && asked[i] != "email"@ && asked[i] != "external_profile"@
        }),
        req.grant_type@ != "authorization_code"@ && req.grant_type@ != "client_credentials"@
            ==> grant_error(req) is Some,
{
    reveal_strlit("authorization_code");
    reveal_strlit("client_credentials");
    assert("authorization_code"@[0] == 'a' && "client_credentials"@[0] == 'c');
    let asked = scope_words(opt_view(req.scope), false);
    if all_scopes(asked) {
        assert forall|i: int| 0 <= i < asked.len() implies scope_of(#[trigger] asked[i]) is Some by {}
    }
    if req.grant_type@ == "client_credentials"@ && grant_error(req) is None {
        assert forall|i: int| 0 <= i < asked.len() implies scope_of(#[trigger] asked[i]) is Some
            && asked[i] != "profile"@ && asked[i] != "email"@ && asked[i] != "external_profile"@ by {
            assert(!user_scope(asked[i]));
        }
    }
}

/// A granted request is for the code or the scopes that were asked for.
pub proof fn grants_are_what_was_asked_for(grant: TokenGrant, req: TokenRequest)
    requires
        grant_matches(grant, req),
        grant_error(req) is None,
    ensures
        grant is Code <==> req.grant_type@ == "authorization_code"@,
        grant matches TokenGrant::Code { code_hash, redirect_uri } ==> code_hash@ == text_digest(
            req.code->0@,
        ) && redirect_uri@ == req.redirect_uri->0@,
        grant matches TokenGrant::Client { scopes } ==> forall|s: Seq<char>|
            #[trigger] views(scopes@).contains(s) ==> exists|i: int|
                0 <= i < scope_words(opt_view(req.scope), false).len() && scope_of(
                    #[trigger] scope_words(opt_view(req.scope), false)[i],
                ) == Some(s),
{
    reveal_strlit("authorization_code");
    reveal_strlit("client_credentials");
    assert("authorization_code"@[0] == 'a' && "client_credentials"@[0] == 'c');
}

/// A code is redeemed by the application that it was given to, at the same
/// redirect, before it expires, once, and for the scopes that were granted or
/// without naming any; it keeps everything but that it was used.
pub proof fn codes_are_redeemed_as_they_were_given(code: CodeView, r: Redemption)
    ensures
        redeemed(None, r) is Err,
        redeemed(Some(code), r) is Ok <==> {
            &&& code.oauth_app_id == r.oauth_app_id
            &&& code.redirect_uri == r.redirect_uri
            &&& !code.used
            &&& r.now < code.expires_at
            &&& r.scope is None || (all_scopes(scope_words(r.scope, false)) && lists_scopes(
                code.scopes,
                scope_words(r.scope, false),
            ))
        },
        redeemed(Some(code), r) matches Ok(kept) ==> {
            &&& kept.subject_user_id == code.subject_user_id
            &&& kept.external_identity_id == code.external_identity_id
            &&& kept.tenant_id == code.tenant_id
            &&& kept.scopes == code.scopes
            &&& kept.oauth_app_id == code.oauth_app_id
            &&& kept.redirect_uri == code.redirect_uri
            &&& kept.expires_at == code.expires_at
        },
        code.used || code.expires_at <= r.now || code.oauth_app_id != r.oauth_app_id
            || code.redirect_uri != r.redirect_uri ==> redeemed(Some(code), r)->Err_0.status
            == Status::Unauthorized,
{
}

/// The scopes of a token are those of its code, where they are named at all.
pub proof fn named_scopes_are_the_granted_ones(
    requested: Option<Seq<Seq<char>>>,
    granted: Seq<Seq<char>>,
)
    ensures
        code_scopes_match(requested, granted) is Ok <==> requested is None || requested->0
            =~= granted,
        code_scopes_match(requested, granted) matches Err(e) ==> e.status == Status::BadRequest,
{
}

/// Only a token of a user with an outside identity is told about a user, and
/// about that one.
pub proof fn userinfo_is_about_the_subject(subject: Option<Id>, identity: Option<Id>)
    ensures
        userinfo_subject(subject, identity) is Ok <==> subject is Some && identity is Some,
        userinfo_subject(subject, identity) matches Ok(found) ==> found.0 == subject->0 && found.1
            == identity->0,
        subject is None ==> userinfo_subject(subject, identity)->Err_0.status == Status::Forbidden,
        subject is Some && identity is None ==> userinfo_subject(subject, identity)->Err_0.status
            == Status::Unauthorized,
{
}

/// A user is sent back with the code, and with the state that came, if any.
pub proof fn codes_come_back_with_their_state(code: Seq<char>, state: Option<Seq<char>>)
    ensures
        redirect_pairs(code, state).contains(("code"@, code)),
        state is Some ==> redirect_pairs(code, state).contains(("state"@, state->0)),
        redirect_pairs(code, state).len() == if state is Some {
            2nat
        } else {
            1
        },
{
    assert(redirect_pairs(code, state)[0] == ("code"@, code));
    if state is Some {
        assert(redirect_pairs(code, state)[1] == ("state"@, state->0));
    }
}

/// What is wrong in an application or a scope is the request's own fault; a
/// code or a secret that is wrong is not believed.
pub proof fn wrong_grants_are_refused(
    location: Option<Seq<char>>,
    scope: Seq<char>,
    id: Option<Id>,
    requested: Option<Seq<Seq<char>>>,
    granted: Seq<Seq<char>>,
    code: Option<CodeView>,
    r: Redemption,
    subject: Option<Id>,
    identity: Option<Id>,
    stored: Seq<char>,
    secret: Seq<char>,
    url: Option<UrlView>,
)
    ensures
        redirect_location(location) is Ok <==> location is Some,
        redirect_location(location) matches Ok(l) ==> location == Some(l),
        redirect_location(location) matches Err(e) ==> e.status == Status::BadRequest,
        redirect_validity(url) matches Err(e) ==> e.status == Status::BadRequest,
        named_agent(scope, id) matches Err(e) ==> e.status == Status::BadRequest,
        named_agent(scope, id) is Ok <==> agent_part(scope) is None || id is Some,
        named_agent(scope, id) matches Ok(found) ==> found == if agent_part(scope) is Some {
            id
        } else {
            None
        },
        code_scopes_match(requested, granted) matches Err(e) ==> e.status == Status::BadRequest,
        client_check(stored, secret) matches Err(e) ==> e.status == Status::Unauthorized,
        redeemed(None, r) matches Err(e) && e.status == Status::Unauthorized,
        code is Some && code->0.oauth_app_id == r.oauth_app_id && code->0.redirect_uri
            == r.redirect_uri && !code->0.used && r.now < code->0.expires_at ==> (redeemed(code, r)
            matches Err(e) ==> e.status == Status::BadRequest),
        redeemed(code, r) matches Ok(kept) ==> kept.used,
        userinfo_subject(subject, identity) is Ok <==> subject is Some && identity is Some,
        userinfo_subject(subject, identity) matches Ok(found) ==> Some(found.0) == subject && Some(
            found.1,
        ) == identity,
        userinfo_subject(subject, identity) matches Err(e) ==> e.status == if subject is None {
            Status::Forbidden
        } else {
            Status::Unauthorized
        },
{
}

/// An application that is not accepted is the request's own fault.
pub proof fn wrong_applications_are_refused(
    name: Seq<char>,
    redirect_uris: JsonView,
    agent_ids: Seq<Id>,
)
    ensures
        app_validity(name, redirect_uris, agent_ids) matches Err(e) ==> e.status
            == Status::BadRequest,
{
    if redirect_uris is List {
        lemma_redirects_status(redirect_uris->List_0, 0);
    }
}

proof fn lemma_redirects_status(items: Seq<JsonView>, from: int)
    ensures
        redirects_error(items, from) matches Some(e) ==> e.status == Status::BadRequest,
    decreases items.len() - from,
{
    if from < items.len() {
        lemma_redirects_status(items, from + 1);
    }
}

/// An address of this machine has four parts, each a number up to 255 without
/// zeros before it, of which the first is 127.
pub proof fn local_addresses_have_four_numbers(host: Seq<char>)
    ensures
        loopback_host(host) && host != "localhost"@ ==> {
            let parts = split_all(host, '.');
            &&& parts.len() == 4
            &&& forall|i: int|
                0 <= i < 4 ==> all_digits(#[trigger] parts[i]) && (parts[i].len() > 1
                    ==> parts[i][0] != '0') && digits_value(parts[i]) <= 255
            &&& digits_value(parts[0]) == 127
        },
{
    let parts = split_all(host, '.');
    if loopback_host(host) && host != "localhost"@ {
        assert forall|i: int| 0 <= i < 4 implies all_digits(#[trigger] parts[i]) && (
        parts[i].len() > 1 ==> parts[i][0] != '0') && digits_value(parts[i]) <= 255 by {
            assert(octet(parts[i]));
        }
    }
}

} // verus!
