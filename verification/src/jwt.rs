//! Signed tokens by which a partner's page opens a session: the signature and
//! the claims.

use crate::digest::{
    base64url_decode, base64url_encode, base64url_of, base64url_read, constant_time_eq,
    hmac_sha256, hmac_sha256_of,
};
use crate::error::{plain, refused, seen, ApiError, ErrorView, Status};
use crate::ids::{parse_id, parsed_id, Id};
use crate::json::{opt_json, parse_json, parsed_json, Json, JsonView};
use crate::text::{blank, is_blank, join, same, split, split_all};
use vstd::prelude::*;
use vstd::utf8::{encode_utf8, encode_utf8_decode_utf8};

verus! {

/// What a token must be signed with, say it is from, and say it is for.
#[derive(Debug)]
pub struct JwtPolicy {
    pub secret: String,
    pub issuer: String,
    pub audience: String,
}

/// What an accepted token claims.
#[derive(Debug)]
pub struct EmbedClaims {
    pub owner_id: Id,
    pub agent_id: Id,
    pub subject: String,
    /// The identifier by which a token is used only once.
    pub jti: String,
    pub expires_at: i64,
}

/// What `EmbedClaims` holds.
pub struct ClaimsView {
    pub owner_id: Id,
    pub agent_id: Id,
    pub subject: Seq<char>,
    pub jti: Seq<char>,
    pub expires_at: i64,
}

impl View for EmbedClaims {
    type V = ClaimsView;

    open spec fn view(&self) -> ClaimsView {
        ClaimsView {
            owner_id: self.owner_id,
            agent_id: self.agent_id,
            subject: self.subject@,
            jti: self.jti@,
            expires_at: self.expires_at,
        }
    }
}

/// The audience of a token is this one, or is a list that holds it.
pub open spec fn audience_matches(audience: Option<JsonView>, expected: Seq<char>) -> bool {
    match audience {
        Some(JsonView::Text(value)) => value == expected,
        Some(JsonView::List(values)) => exists|i: int|
            0 <= i < values.len() && (#[trigger] values[i]).text() == Some(expected),
        _ => false,
    }
}

/// Tells whether the audience of a token is this one.
pub fn jwt_audience_matches(audience: Option<&Json>, expected: &str) -> (r: bool)
    ensures
        r == audience_matches(opt_json(audience), expected@),
{
    match audience {
        Some(json) => match json {
            Json::Text(value) => same(value.as_str(), expected),
            Json::List(values) => {
                let ghost all = json@->List_0;
                let mut i: usize = 0;
                while i < values.len()
                    invariant
                        i <= values@.len(),
                        opt_json(audience) == Some(json@),
                        *json == Json::List(*values),
                        all == json@->List_0,
                        all.len() == values@.len(),
                        forall|k: int|
                            0 <= k < i ==> (#[trigger] all[k]).text() != Some(expected@),
                    decreases values@.len() - i,
                {
                    assert(all[i as int] == values@[i as int]@);
                    let matches = match values[i].as_str() {
                        Some(text) => same(text, expected),
                        None => false,
                    };
                    if matches {
                        return true;
                    }
                    i = i + 1;
                }
                false
            },
            _ => false,
        },
        None => false,
    }
}

/// A token says when it was issued, and not more than a minute ahead.
pub open spec fn issue_time(payload: JsonView, now: i64) -> Result<(), ErrorView> {
    match payload.integer_field("iat"@) {
        None => refused(Status::Unauthorized, "missing embed jwt issued-at"@),
        Some(issued_at) => if issued_at > now + 60 {
            refused(Status::Unauthorized, "embed jwt issued in the future"@)
        } else {
            Ok(())
        },
    }
}

/// Accepts the time at which a token was issued.
pub fn validate_embed_jwt_iat(payload: &Json, now: i64) -> (r: Result<(), ApiError>)
    requires
        now <= i64::MAX - 60,
    ensures
        plain(r) == issue_time(payload@, now),
{
    match payload.integer_field("iat") {
        None => Err(ApiError::unauthorized("missing embed jwt issued-at")),
        Some(issued_at) => {
            if issued_at > now + 60 {
                Err(ApiError::unauthorized("embed jwt issued in the future"))
            } else {
                Ok(())
            }
        },
    }
}

/// The text of a claim that is not blank.
pub open spec fn claim_text(payload: JsonView, key: Seq<char>) -> Option<Seq<char>> {
    match payload.text_field(key) {
        Some(text) => if blank(text) {
            None
        } else {
            Some(text)
        },
        None => None,
    }
}

/// The identifier that a claim spells.
pub open spec fn claim_id(payload: JsonView, key: Seq<char>) -> Option<Id> {
    match payload.text_field(key) {
        Some(text) => parsed_id(text),
        None => None,
    }
}

/// What a token with this header and payload claims at the time `now`, given
/// the identifiers that it spells.
pub open spec fn claims_of(
    header: Option<JsonView>,
    payload: Option<JsonView>,
    issuer: Seq<char>,
    audience: Seq<char>,
    now: i64,
    agent: Option<Id>,
    owner: Option<Id>,
) -> Result<ClaimsView, ErrorView> {
    match (payload, header) {
        (None, _) => refused(Status::Unauthorized, "invalid embed jwt payload"@),
        (Some(_), None) => refused(Status::Unauthorized, "invalid embed jwt header"@),
        (Some(p), Some(h)) => {
            let issued_by = p.text_field("iss"@);
            let expires = p.integer_field("exp"@);
            let jti = claim_text(p, "jti"@);
            let subject = claim_text(p, "sub"@);
            if h.text_field("alg"@) != Some("HS256"@) {
                refused(Status::Unauthorized, "invalid embed jwt alg"@)
            } else if issued_by is None {
                refused(Status::Unauthorized, "missing embed jwt issuer"@)
            } else if issued_by != Some(issuer) {
                refused(Status::Unauthorized, "invalid embed jwt issuer"@)
            } else if !audience_matches(p.field("aud"@), audience) {
                refused(Status::Unauthorized, "invalid embed jwt audience"@)
            } else if expires is None {
                refused(Status::Unauthorized, "missing embed jwt expiry"@)
            } else if expires->0 <= now {
                refused(Status::Unauthorized, "embed jwt expired"@)
            } else if issue_time(p, now) is Err {
                Err(issue_time(p, now)->Err_0)
            } else if jti is None {
                refused(Status::Unauthorized, "missing embed jwt jti"@)
            } else if agent is None {
                refused(Status::Unauthorized, "missing embed jwt agent"@)
            } else if owner is None {
                refused(Status::Unauthorized, "missing embed jwt owner"@)
            } else if subject is None {
                refused(Status::Unauthorized, "missing embed jwt subject"@)
            } else {
                Ok(
                    ClaimsView {
                        owner_id: owner->0,
                        agent_id: agent->0,
                        subject: subject->0,
                        jti: jti->0,
                        expires_at: expires->0,
                    },
                )
            }
        },
    }
}

fn read_claim_text(payload: &Json, key: &str) -> (r: Option<String>)
    ensures
        crate::text::opt_view(r) == claim_text(payload@, key@),
{
    match payload.text_field(key) {
        Some(text) => {
            if is_blank(text) {
                None
            } else {
                Some(text.to_owned())
            }
        },
        None => None,
    }
}

fn read_claim_id(payload: &Json, key: &str) -> (r: Option<Id>)
    ensures
        r == claim_id(payload@, key@),
{
    match payload.text_field(key) {
        Some(text) => parse_id(text),
        None => None,
    }
}

/// What an optional value holds.
pub open spec fn some_json(value: Option<Json>) -> Option<JsonView> {
    match value {
        Some(json) => Some(json@),
        None => None,
    }
}

/// What a token with this header and payload claims, given the identifiers
/// that it spells; `issuer` and `audience` are the ones that are expected.
pub fn check_embed_claims(
    header: &Option<Json>,
    payload: &Option<Json>,
    issuer: &str,
    audience: &str,
    now: i64,
    agent: Option<Id>,
    owner: Option<Id>,
) -> (r: Result<EmbedClaims, ApiError>)
    requires
        now <= i64::MAX - 60,
    ensures
        seen(r) == claims_of(
            some_json(*header),
            some_json(*payload),
            issuer@,
            audience@,
            now,
            agent,
            owner,
        ),
{
    let p = match payload {
        Some(p) => p,
        None => {
            return Err(ApiError::unauthorized("invalid embed jwt payload"));
        },
    };
    let h = match header {
        Some(h) => h,
        None => {
            return Err(ApiError::unauthorized("invalid embed jwt header"));
        },
    };
    let signed = match h.text_field("alg") {
        Some(alg) => same(alg, "HS256"),
        None => false,
    };
    if !signed {
        return Err(ApiError::unauthorized("invalid embed jwt alg"));
    }
    match p.text_field("iss") {
        None => {
            return Err(ApiError::unauthorized("missing embed jwt issuer"));
        },
        Some(issued_by) => {
            if !same(issued_by, issuer) {
                return Err(ApiError::unauthorized("invalid embed jwt issuer"));
            }
        },
    }
    if !jwt_audience_matches(p.get("aud"), audience) {
        return Err(ApiError::unauthorized("invalid embed jwt audience"));
    }
    let expires_at: i64 = match p.integer_field("exp") {
        None => {
            return Err(ApiError::unauthorized("missing embed jwt expiry"));
        },
        Some(expires_at) => expires_at,
    };
    if expires_at <= now {
        return Err(ApiError::unauthorized("embed jwt expired"));
    }
    match validate_embed_jwt_iat(p, now) {
        Ok(_) => {},
        Err(e) => {
            return Err(e);
        },
    }
    let jti = match read_claim_text(p, "jti") {
        None => {
            return Err(ApiError::unauthorized("missing embed jwt jti"));
        },
        Some(jti) => jti,
    };
    let agent_id: u128 = match agent {
        None => {
            return Err(ApiError::unauthorized("missing embed jwt agent"));
        },
        Some(id) => id,
    };
    let owner_id: u128 = match owner {
        None => {
            return Err(ApiError::unauthorized("missing embed jwt owner"));
        },
        Some(id) => id,
    };
    match read_claim_text(p, "sub") {
        None => Err(ApiError::unauthorized("missing embed jwt subject")),
        Some(subject) => Ok(EmbedClaims { owner_id, agent_id, subject, jti, expires_at }),
    }
}

/// The value that a part of a token spells.
pub open spec fn part_json(part: Seq<char>) -> Option<JsonView> {
    match base64url_read(part) {
        Some(bytes) => parsed_json(bytes),
        None => None,
    }
}

fn read_part(part: &str) -> (r: Option<Json>)
    ensures
        some_json(r) == part_json(part@),
{
    match base64url_decode(part) {
        Some(bytes) => parse_json(bytes.as_slice()),
        None => None,
    }
}

/// The code of the first two parts of a token under a secret.
pub open spec fn token_code(secret: Seq<char>, header: Seq<char>, payload: Seq<char>) -> Option<
    Seq<u8>,
> {
    hmac_sha256_of(encode_utf8(secret), encode_utf8(header + "."@ + payload))
}

/// The identifier that a claim of a payload spells, where there is a payload.
pub open spec fn payload_id(payload: Option<JsonView>, key: Seq<char>) -> Option<Id> {
    match payload {
        Some(p) => claim_id(p, key),
        None => None,
    }
}

/// What a signed token claims at the time `now`.
pub open spec fn token_claims(
    token: Seq<char>,
    secret: Seq<char>,
    issuer: Seq<char>,
    audience: Seq<char>,
    now: i64,
) -> Result<ClaimsView, ErrorView> {
    let parts = split_all(token, '.');
    if parts.len() != 3 {
        refused(Status::Unauthorized, "invalid embed jwt"@)
    } else {
        match token_code(secret, parts[0], parts[1]) {
            None => refused(Status::Internal, "invalid embed jwt secret"@),
            Some(code) => if parts[2] != base64url_of(code) {
                refused(Status::Unauthorized, "invalid embed jwt signature"@)
            } else {
                claims_of(
                    part_json(parts[0]),
                    part_json(parts[1]),
                    issuer,
                    audience,
                    now,
                    payload_id(part_json(parts[1]), "agent_id"@),
                    payload_id(part_json(parts[1]), "owner_id"@),
                )
            },
        }
    }
}

/// What a signed token claims, or why it is refused. That it was not used
/// before is for the caller to find out.
pub fn verify_embed_jwt_claims(token: &str, policy: &JwtPolicy, now: i64) -> (r: Result<
    EmbedClaims,
    ApiError,
>)
    requires
        now <= i64::MAX - 60,
    ensures
        seen(r) == token_claims(token@, policy.secret@, policy.issuer@, policy.audience@, now),
{
    let parts = split(token, '.');
    let ghost texts = split_all(token@, '.');
    assert(texts.len() == parts@.len());
    if parts.len() != 3 {
        return Err(ApiError::unauthorized("invalid embed jwt"));
    }
    assert(texts[0] == parts@[0]@ && texts[1] == parts@[1]@ && texts[2] == parts@[2]@);
    let mut signed = join(parts[0].as_str(), ".");
    signed.append(parts[1].as_str());
    let code = match hmac_sha256(
        policy.secret.as_str().as_bytes(),
        signed.as_str().as_bytes(),
    ) {
        Some(code) => code,
        None => {
            return Err(ApiError::internal("invalid embed jwt secret"));
        },
    };
    let expected = base64url_encode(code.as_slice());
    let matches = constant_time_eq(
        expected.as_str().as_bytes(),
        parts[2].as_str().as_bytes(),
    );
    proof {
        if encode_utf8(expected@) == encode_utf8(texts[2]) {
            encode_utf8_decode_utf8(expected@);
            encode_utf8_decode_utf8(texts[2]);
        }
    }
    if !matches {
        return Err(ApiError::unauthorized("invalid embed jwt signature"));
    }
    let payload = read_part(parts[1].as_str());
    let header = read_part(parts[0].as_str());
    let agent = match &payload {
        Some(p) => read_claim_id(p, "agent_id"),
        None => None,
    };
    let owner = match &payload {
        Some(p) => read_claim_id(p, "owner_id"),
        None => None,
    };
    check_embed_claims(
        &header,
        &payload,
        policy.issuer.as_str(),
        policy.audience.as_str(),
        now,
        agent,
        owner,
    )
}

/// A token is used once: `recorded` says that it was not there before.
pub open spec fn single_use(recorded: bool) -> Result<(), ErrorView> {
    if recorded {
        Ok(())
    } else {
        refused(Status::Unauthorized, "embed jwt replayed"@)
    }
}

/// Refuses a token that was used before.
pub fn check_single_use(recorded: bool) -> (r: Result<(), ApiError>)
    ensures
        plain(r) == single_use(recorded),
{
    if recorded {
        Ok(())
    } else {
        Err(ApiError::unauthorized("embed jwt replayed"))
    }
}

/// Whatever is accepted carries the signature of its first two parts under
/// the secret, is from the expected issuer and for the expected audience, has
/// not expired, and was not issued more than a minute ahead.
pub proof fn accepted_tokens_are_signed_and_current(
    token: Seq<char>,
    secret: Seq<char>,
    issuer: Seq<char>,
    audience: Seq<char>,
    now: i64,
)
    requires
        token_claims(token, secret, issuer, audience, now) is Ok,
    ensures
        ({
            let parts = split_all(token, '.');
            let p = part_json(parts[1]);
            let claims = token_claims(token, secret, issuer, audience, now)->Ok_0;
            &&& parts.len() == 3
            &&& token_code(secret, parts[0], parts[1]) matches Some(code) && parts[2]
                == base64url_of(code)
            &&& p is Some
            &&& p->0.text_field("iss"@) == Some(issuer)
            &&& audience_matches(p->0.field("aud"@), audience)
            &&& claims.expires_at > now
            &&& p->0.integer_field("iat"@) is Some && p->0.integer_field("iat"@)->0 <= now + 60
            &&& !blank(claims.jti)
            &&& !blank(claims.subject)
        }),
{
}

/// A token that was accepted and has expired since is refused.
pub proof fn tokens_expire(
    token: Seq<char>,
    secret: Seq<char>,
    issuer: Seq<char>,
    audience: Seq<char>,
    now: i64,
    later: i64,
)
    requires
        token_claims(token, secret, issuer, audience, now) is Ok,
        later >= token_claims(token, secret, issuer, audience, now)->Ok_0.expires_at,
    ensures
        token_claims(token, secret, issuer, audience, later) == refused::<ClaimsView>(
            Status::Unauthorized,
            "embed jwt expired"@,
        ),
{
}

/// A token is for an audience where it names just that one, or lists it among
/// others.
pub proof fn audiences_are_named_or_listed(
    values: Seq<JsonView>,
    expected: Seq<char>,
    other: Seq<char>,
)
    ensures
        audience_matches(Some(JsonView::Text(other)), expected) <==> other == expected,
        audience_matches(Some(JsonView::List(values.push(JsonView::Text(other)))), expected)
            <==> other == expected || audience_matches(Some(JsonView::List(values)), expected),
        !audience_matches(Some(JsonView::List(seq![])), expected),
        !audience_matches(None, expected),
        !audience_matches(Some(JsonView::Null), expected),
{
    let more = values.push(JsonView::Text(other));
    assert(more[values.len() as int].text() == Some(other));
    if audience_matches(Some(JsonView::List(values)), expected) {
        let i = choose|i: int|
            0 <= i < values.len() && (#[trigger] values[i]).text() == Some(expected);
        assert(more[i].text() == Some(expected));
    }
    if audience_matches(Some(JsonView::List(more)), expected) && other != expected {
        let i = choose|i: int| 0 <= i < more.len() && (#[trigger] more[i]).text() == Some(expected);
        assert(values[i].text() == Some(expected));
    }
}

/// What a token says is believed exactly when it says everything: the way it
/// is signed, who issued it and for whom, that it is current, and who is
/// meant; and it is then believed as it is said.
pub proof fn complete_tokens_are_believed(
    header: JsonView,
    payload: JsonView,
    issuer: Seq<char>,
    audience: Seq<char>,
    now: i64,
    agent: Option<Id>,
    owner: Option<Id>,
)
    ensures
        claims_of(Some(header), Some(payload), issuer, audience, now, agent, owner) is Ok <==> {
            &&& header.text_field("alg"@) == Some("HS256"@)
            &&& payload.text_field("iss"@) == Some(issuer)
            &&& audience_matches(payload.field("aud"@), audience)
            &&& payload.integer_field("exp"@) is Some && now < payload.integer_field("exp"@)->0
            &&& payload.integer_field("iat"@) is Some && payload.integer_field("iat"@)->0 <= now
                + 60
            &&& payload.text_field("jti"@) is Some && !blank(payload.text_field("jti"@)->0)
            &&& payload.text_field("sub"@) is Some && !blank(payload.text_field("sub"@)->0)
            &&& agent is Some
            &&& owner is Some
        },
        claims_of(
            Some(header),
            Some(payload),
            issuer,
            audience,
            now,
            agent,
            owner,
        ) matches Ok(c) ==> {
            &&& Some(c.owner_id) == owner
            &&& Some(c.agent_id) == agent
            &&& Some(c.subject) == payload.text_field("sub"@)
            &&& Some(c.jti) == payload.text_field("jti"@)
            &&& Some(c.expires_at) == payload.integer_field("exp"@)
        },
        claims_of(None, Some(payload), issuer, audience, now, agent, owner) is Err,
        claims_of(Some(header), None, issuer, audience, now, agent, owner) is Err,
        claims_of(
            Some(header),
            Some(payload),
            issuer,
            audience,
            now,
            agent,
            owner,
        ) matches Err(e) ==> e.status == Status::Unauthorized,
{
}

/// A token of three parts whose last one signs the two before it is believed
/// as its payload says; with another signature, or other parts, it is not.
pub proof fn signed_tokens_are_read(
    token: Seq<char>,
    secret: Seq<char>,
    issuer: Seq<char>,
    audience: Seq<char>,
    now: i64,
    code: Seq<u8>,
)
    ensures
        split_all(token, '.').len() != 3 ==> token_claims(token, secret, issuer, audience, now)
            is Err,
        ({
            let parts = split_all(token, '.');
            let p = part_json(parts[1]);
            parts.len() == 3 && hmac_sha256_of(
                encode_utf8(secret),
                encode_utf8(parts[0] + "."@ + parts[1]),
            ) == Some(code) ==> {
                &&& parts[2] != base64url_of(code) ==> token_claims(
                    token,
                    secret,
                    issuer,
                    audience,
                    now,
                ) == refused::<ClaimsView>(Status::Unauthorized, "invalid embed jwt signature"@)
                &&& parts[2] == base64url_of(code) && p is Some ==> token_claims(
                    token,
                    secret,
                    issuer,
                    audience,
                    now,
                ) == claims_of(
                    part_json(parts[0]),
                    p,
                    issuer,
                    audience,
                    now,
                    match p->0.text_field("agent_id"@) {
                        Some(text) => parsed_id(text),
                        None => None,
                    },
                    match p->0.text_field("owner_id"@) {
                        Some(text) => parsed_id(text),
                        None => None,
                    },
                )
            }
        }),
        single_use(true) is Ok,
        single_use(false) is Err,
        base64url_read(token) is None ==> part_json(token) is None,
        base64url_read(token) is Some ==> part_json(token) == parsed_json(base64url_read(token)->0),
{
}

/// A token that is refused is not believed; only a secret that cannot be used
/// is a fault of the hub's own.
pub proof fn refused_tokens_are_not_believed(
    token: Seq<char>,
    secret: Seq<char>,
    issuer: Seq<char>,
    audience: Seq<char>,
    now: i64,
    header: Option<JsonView>,
    payload: Option<JsonView>,
    agent: Option<Id>,
    owner: Option<Id>,
    recorded: bool,
    read: JsonView,
)
    ensures
        token_claims(token, secret, issuer, audience, now) matches Err(e) ==> e.status == if split_all(
            token,
            '.',
        ).len() == 3 && token_code(secret, split_all(token, '.')[0], split_all(token, '.')[1])
            is None {
            Status::Internal
        } else {
            Status::Unauthorized
        },
        claims_of(header, payload, issuer, audience, now, agent, owner) matches Err(e) ==> e.status
            == Status::Unauthorized,
        single_use(recorded) is Ok <==> recorded,
        single_use(recorded) matches Err(e) ==> e.status == Status::Unauthorized,
        issue_time(read, now) is Ok <==> read.integer_field("iat"@) is Some && read.integer_field(
            "iat"@,
        )->0 <= now + 60,
        issue_time(read, now) matches Err(e) ==> e.status == Status::Unauthorized,
{
}

} // verus!
