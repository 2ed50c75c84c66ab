//! API keys: their tokens, how long they last, and how they are renewed.

use crate::clock::{on_calendar, second_of, Instant, DAY, LAST_SECOND};
use crate::digest::{sha256_hex, text_digest};
use crate::error::{plain, refused, seen, ApiError, ErrorView, Status};
use crate::ids::{new_secret, secret_text, Id};
use crate::pagination::{page_window, ApiKeyListQuery};
use crate::text::{blank, chars_of, is_blank, range_string, trim, trimmed};
use vstd::arithmetic::div_mod::{
    lemma_div_pos_is_pos, lemma_fundamental_div_mod, lemma_fundamental_div_mod_converse,
};
use vstd::arithmetic::mul::{lemma_mul_inequality, lemma_mul_is_commutative};
use vstd::prelude::*;
use vstd::relations::{sorted_by, total_ordering};

verus! {

/// How long a key is asked to last.
#[derive(Clone, Copy, Debug, PartialEq, Eq, Structural)]
pub enum ApiKeyValidity {
    Days { days: u32 },
    Date { expires_at: Instant },
    Never,
}

/// The numbers of days that a key may last.
pub open spec fn offered_days(days: u32) -> bool {
    days == 30 || days == 90 || days == 180 || days == 365
}

/// When a key that is made at `now` expires: after an offered number of days
/// (ninety when nothing is asked), at a date to come, or never.
pub open spec fn expiration(validity: Option<ApiKeyValidity>, now: Instant) -> Result<
    Option<Instant>,
    ErrorView,
> {
    match validity.unwrap_or(ApiKeyValidity::Days { days: 90 }) {
        ApiKeyValidity::Days { days } => if offered_days(days) {
            Ok(Some((now + days * DAY) as Instant))
        } else {
            refused(Status::BadRequest, "api key validity days must be 30, 90, 180, or 365"@)
        },
        ApiKeyValidity::Date { expires_at } => if expires_at > now {
            Ok(Some(expires_at))
        } else {
            refused(Status::BadRequest, "api key expiration must be in the future"@)
        },
        ApiKeyValidity::Never => Ok(None),
    }
}

/// The calendar reaches past a validity that is counted in days from `now`.
pub open spec fn leaves_room(validity: Option<ApiKeyValidity>, now: Instant) -> bool {
    match validity.unwrap_or(ApiKeyValidity::Days { days: 90 }) {
        ApiKeyValidity::Days { days } => offered_days(days) ==> on_calendar(now) && second_of(now)
            + days * 86_400 <= LAST_SECOND,
        _ => true,
    }
}

/// When a key that is made at `now` expires.
pub fn api_key_expiration(validity: Option<ApiKeyValidity>, now: Instant) -> (r: Result<
    Option<Instant>,
    ApiError,
>)
    requires
        leaves_room(validity, now),
    ensures
        plain(r) == expiration(validity, now),
{
    match validity.unwrap_or(ApiKeyValidity::Days { days: 90 }) {
        ApiKeyValidity::Days { days } => {
            if days == 30 || days == 90 || days == 180 || days == 365 {
                Ok(Some(now + days as i128 * DAY))
            } else {
                Err(ApiError::bad_request("api key validity days must be 30, 90, 180, or 365"))
            }
        },
        ApiKeyValidity::Date { expires_at } => {
            if expires_at > now {
                Ok(Some(expires_at))
            } else {
                Err(ApiError::bad_request("api key expiration must be in the future"))
            }
        },
        ApiKeyValidity::Never => Ok(None),
    }
}

/// When a renewed key expires: later than before, and never for a key that
/// was permanent already.
pub open spec fn renewed_expiration(
    validity: ApiKeyValidity,
    current: Option<Instant>,
    now: Instant,
) -> Result<Option<Instant>, ErrorView> {
    match current {
        None => refused(Status::BadRequest, "permanent api keys cannot be renewed"@),
        Some(current_expiration) => match expiration(Some(validity), now) {
            Ok(Some(expires_at)) => if expires_at > current_expiration {
                Ok(Some(expires_at))
            } else {
                refused(Status::BadRequest, "api key renewal must extend its expiration"@)
            },
            other => other,
        },
    }
}

/// When a renewed key expires.
pub fn renewed_api_key_expiration(
    validity: ApiKeyValidity,
    current_expiration: Option<Instant>,
    now: Instant,
) -> (r: Result<Option<Instant>, ApiError>)
    requires
        current_expiration is Some ==> leaves_room(Some(validity), now),
    ensures
        plain(r) == renewed_expiration(validity, current_expiration, now),
{
    match current_expiration {
        None => Err(ApiError::bad_request("permanent api keys cannot be renewed")),
        Some(current) => match api_key_expiration(Some(validity), now) {
            Ok(Some(expires_at)) => {
                if expires_at <= current {
                    Err(ApiError::bad_request("api key renewal must extend its expiration"))
                } else {
                    Ok(Some(expires_at))
                }
            },
            other => other,
        },
    }
}

/// A fresh API key token.
pub fn new_api_key_token() -> (r: String)
    ensures
        exists|a: Id, b: Id| r@ == #[trigger] secret_text("ahk_"@, a, b),
{
    new_secret("ahk_")
}

/// What is stored of a new API key: never the token itself.
#[derive(Debug)]
pub struct NewApiKey {
    pub name: String,
    pub prefix: String,
    pub token_hash: String,
    pub expires_at: Option<Instant>,
}

/// What `NewApiKey` holds.
pub struct NewApiKeyView {
    pub name: Seq<char>,
    pub prefix: Seq<char>,
    pub token_hash: Seq<char>,
    pub expires_at: Option<Instant>,
}

impl View for NewApiKey {
    type V = NewApiKeyView;

    open spec fn view(&self) -> NewApiKeyView {
        NewApiKeyView {
            name: self.name@,
            prefix: self.prefix@,
            token_hash: self.token_hash@,
            expires_at: self.expires_at,
        }
    }
}

/// The first `n` characters of a text.
pub open spec fn leading(text: Seq<char>, n: nat) -> Seq<char> {
    if text.len() <= n {
        text
    } else {
        text.take(n as int)
    }
}

/// What is stored of a key with this token: its name, the first twelve
/// characters of the token to know it by, the digest of the token, and when
/// the key expires.
pub open spec fn stored_key(
    name: Seq<char>,
    token: Seq<char>,
    validity: Option<ApiKeyValidity>,
    now: Instant,
) -> Result<NewApiKeyView, ErrorView> {
    if blank(name) {
        refused(Status::BadRequest, "api key name is required"@)
    } else {
        match expiration(validity, now) {
            Err(e) => Err(e),
            Ok(expires_at) => Ok(
                NewApiKeyView {
                    name: trimmed(name),
                    prefix: leading(token, 12),
                    token_hash: text_digest(token),
                    expires_at,
                },
            ),
        }
    }
}

/// What is stored of a key with this token.
pub fn prepare_api_key(
    name: &str,
    token: &str,
    validity: Option<ApiKeyValidity>,
    now: Instant,
) -> (r: Result<NewApiKey, ApiError>)
    requires
        !blank(name@) ==> leaves_room(validity, now),
    ensures
        seen(r) == stored_key(name@, token@, validity, now),
{
    if is_blank(name) {
        return Err(ApiError::bad_request("api key name is required"));
    }
    let chars = chars_of(token);
    let shown: usize = if chars.len() <= 12 {
        chars.len()
    } else {
        12
    };
    let prefix = range_string(&chars, 0, shown);
    assert(prefix@ =~= leading(token@, 12));
    match api_key_expiration(validity, now) {
        Ok(expires_at) => Ok(
            NewApiKey { name: trim(name), prefix, token_hash: sha256_hex(token), expires_at },
        ),
        Err(e) => Err(e),
    }
}

/// A request that came with a key cannot name that same key.
pub open spec fn key_target(credential: Option<Id>, target: Id) -> Result<(), ErrorView> {
    if credential == Some(target) {
        refused(Status::NotFound, "api key not found"@)
    } else {
        Ok(())
    }
}

/// Refuses to renew or delete the key that the request itself came with.
pub fn check_key_target(credential: Option<Id>, target: Id) -> (r: Result<(), ApiError>)
    ensures
        plain(r) == key_target(credential, target),
{
    match credential {
        Some(own) => {
            if own == target {
                Err(ApiError::not_found("api key not found"))
            } else {
                Ok(())
            }
        },
        None => Ok(()),
    }
}

/// A renewal only ever moves the expiration forward, and past the present, or
/// lifts it altogether.
pub proof fn renewal_only_moves_forward(
    validity: ApiKeyValidity,
    current: Option<Instant>,
    now: Instant,
)
    requires
        leaves_room(Some(validity), now),
        renewed_expiration(validity, current, now) is Ok,
    ensures
        current is Some,
        match renewed_expiration(validity, current, now)->Ok_0 {
            Some(expires_at) => expires_at > current->0 && expires_at > now,
            None => validity == ApiKeyValidity::Never,
        },
{
}

/// A key never expires before it is made.
pub proof fn new_keys_are_valid(validity: Option<ApiKeyValidity>, now: Instant)
    requires
        leaves_room(validity, now),
        expiration(validity, now) is Ok,
    ensures
        match expiration(validity, now)->Ok_0 {
            Some(expires_at) => expires_at > now,
            None => validity == Some(ApiKeyValidity::Never),
        },
{
}

// ---------------------------------------------------------------------------
// Listing keys
// ---------------------------------------------------------------------------

/// A stored key, as far as a listing of keys goes by it.
#[derive(Clone, Copy, Debug, PartialEq, Eq, Structural)]
pub struct KeyEntry {
    pub id: Id,
    pub owner_id: Id,
    pub created_at: Instant,
}

/// One key comes before another in a listing: it was made later, or at the
/// same instant with a greater identifier.
pub open spec fn newer(a: KeyEntry, b: KeyEntry) -> bool {
    a.created_at > b.created_at || (a.created_at == b.created_at && a.id > b.id)
}

/// Keys, the newest first.
pub open spec fn newest_first(keys: Seq<KeyEntry>) -> bool {
    forall|i: int, j: int| 0 <= i < j < keys.len() ==> !newer(#[trigger] keys[j], #[trigger] keys[i])
}

/// The keys of an owner, as they are stored.
pub open spec fn owned_keys(keys: Seq<KeyEntry>, owner: Id) -> Seq<KeyEntry>
    decreases keys.len(),
{
    if keys.len() == 0 {
        seq![]
    } else if keys.last().owner_id == owner {
        owned_keys(keys.drop_last(), owner).push(keys.last())
    } else {
        owned_keys(keys.drop_last(), owner)
    }
}

/// `list` lists the keys of an owner, the newest first.
pub open spec fn key_listing(list: Seq<KeyEntry>, keys: Seq<KeyEntry>, owner: Id) -> bool {
    newest_first(list) && list.to_multiset() == owned_keys(keys, owner).to_multiset()
}

fn place_key(list: &mut Vec<KeyEntry>, key: KeyEntry)
    requires
        newest_first(old(list)@),
    ensures
        newest_first(final(list)@),
        final(list)@.to_multiset() == old(list)@.to_multiset().insert(key),
{
    let ghost before = list@;
    let mut i: usize = 0;
    while i < list.len() && (list[i].created_at > key.created_at || (list[i].created_at
        == key.created_at && list[i].id > key.id))
        invariant
            i <= list@.len(),
            before == list@,
            forall|k: int| 0 <= k < i ==> newer(#[trigger] before[k], key),
        decreases list@.len() - i,
    {
        i = i + 1;
    }
    list.insert(i, key);
    proof {
        vstd::seq_lib::to_multiset_insert(before, i as int, key);
        let after = list@;
        assert forall|p: int, q: int| 0 <= p < q < after.len() implies !newer(
            #[trigger] after[q],
            #[trigger] after[p],
        ) by {
            let x = if p < i { p } else { p - 1 };
            let y = if q < i { q } else { q - 1 };
            if p == i {
                assert(after[q] == before[y]);
                if y > i {
                    assert(!newer(before[y], before[i as int]));
                }
            } else if q == i {
                assert(after[p] == before[p]);
            } else {
                assert(after[p] == before[x]);
                assert(after[q] == before[y]);
            }
        }
    }
}

/// The keys of an owner, the newest first.
pub fn newest_keys(keys: &Vec<KeyEntry>, owner: Id) -> (r: Vec<KeyEntry>)
    ensures
        key_listing(r@, keys@, owner),
{
    let mut out: Vec<KeyEntry> = Vec::new();
    let mut i: usize = 0;
    assert(out@ =~= owned_keys(keys@.take(0), owner));
    while i < keys.len()
        invariant
            i <= keys@.len(),
            newest_first(out@),
            out@.to_multiset() == owned_keys(keys@.take(i as int), owner).to_multiset(),
        decreases keys@.len() - i,
    {
        let key = keys[i];
        proof {
            assert(keys@.take(i + 1).drop_last() =~= keys@.take(i as int));
            vstd::seq_lib::to_multiset_build(owned_keys(keys@.take(i as int), owner), key);
        }
        if key.owner_id == owner {
            place_key(&mut out, key);
        }
        i = i + 1;
    }
    assert(keys@.take(keys@.len() as int) =~= keys@);
    out
}

/// The items of a listing from `offset` on, at most `n` of them.
pub open spec fn window_of(list: Seq<KeyEntry>, offset: int, n: int) -> Seq<KeyEntry> {
    if offset >= list.len() {
        seq![]
    } else if offset + n >= list.len() {
        list.skip(offset)
    } else {
        list.subrange(offset, offset + n)
    }
}

/// A page of the keys of an owner.
#[derive(Debug)]
pub struct KeyPage {
    pub items: Vec<KeyEntry>,
    pub total: u64,
    pub page: i64,
    pub page_size: i64,
}

/// What a `KeyPage` holds.
pub struct KeyPageView {
    pub items: Seq<KeyEntry>,
    pub total: int,
    pub page: i64,
    pub page_size: i64,
}

impl View for KeyPage {
    type V = KeyPageView;

    open spec fn view(&self) -> KeyPageView {
        KeyPageView {
            items: self.items@,
            total: self.total as int,
            page: self.page,
            page_size: self.page_size,
        }
    }
}

/// The page of a listing that a request asks for.
pub open spec fn key_page(list: Seq<KeyEntry>, query: ApiKeyListQuery) -> Result<
    KeyPageView,
    ErrorView,
> {
    match page_window(query.page, query.page_size, "invalid API key pagination"@) {
        Ok((page, page_size, offset)) => Ok(
            KeyPageView {
                items: window_of(list, offset as int, page_size as int),
                total: list.len() as int,
                page,
                page_size,
            },
        ),
        Err(e) => Err(e),
    }
}

/// The page of a listing that a request asks for.
pub fn page_of_keys(list: &Vec<KeyEntry>, query: ApiKeyListQuery) -> (r: Result<KeyPage, ApiError>)
    ensures
        seen(r) == key_page(list@, query),
{
    let (page, page_size, offset) = match query.validated() {
        Ok(window) => window,
        Err(e) => {
            return Err(e);
        },
    };
    proof {
        lemma_mul_inequality(0, page - 1, page_size as int);
    }
    let ghost wanted = window_of(list@, offset as int, page_size as int);
    let mut items: Vec<KeyEntry> = Vec::new();
    if (offset as u64) < list.len() as u64 {
        let mut i: usize = offset as usize;
        let start: usize = i;
        while i < list.len() && ((i - start) as u64) < page_size as u64
            invariant
                start <= i <= list@.len(),
                start == offset,
                1 <= page_size <= 100,
                items@.len() == i - start,
                i - start <= page_size,
                items@ == list@.subrange(start as int, i as int),
            decreases list@.len() - i,
        {
            items.push(list[i]);
            i = i + 1;
            assert(items@ =~= list@.subrange(start as int, i as int));
        }
        assert(items@ =~= wanted);
    } else {
        assert(items@ =~= wanted);
    }
    Ok(KeyPage { items, total: list.len() as u64, page, page_size })
}

/// The page of the keys of an owner that a request asks for.
pub fn list_api_keys(query: ApiKeyListQuery, owner: Id, keys: &Vec<KeyEntry>) -> (r: Result<
    KeyPage,
    ApiError,
>)
    ensures
        exists|list: Seq<KeyEntry>|
            #[trigger] key_listing(list, keys@, owner) && seen(r) == key_page(list, query),
{
    let list = newest_keys(keys, owner);
    page_of_keys(&list, query)
}

/// A listing of the keys of an owner is settled by the stored keys, and holds
/// the keys of that owner and no others; a key that is stored once is listed
/// once.
pub proof fn key_listings_are_settled(
    a: Seq<KeyEntry>,
    b: Seq<KeyEntry>,
    keys: Seq<KeyEntry>,
    owner: Id,
)
    requires
        key_listing(a, keys, owner),
        key_listing(b, keys, owner),
    ensures
        a == b,
        forall|key: KeyEntry|
            #[trigger] a.contains(key) <==> keys.contains(key) && key.owner_id == owner,
        keys.no_duplicates() ==> a.no_duplicates(),
{
    let owned = owned_keys(keys, owner);
    lemma_owned_keys(keys, owner);
    a.to_multiset_ensures();
    b.to_multiset_ensures();
    owned.to_multiset_ensures();
    assert forall|key: KeyEntry| #[trigger] a.contains(key) <==> keys.contains(key) && key.owner_id
        == owner by {
        assert(a.contains(key) <==> a.to_multiset().count(key) > 0);
        assert(owned.contains(key) <==> owned.to_multiset().count(key) > 0);
    }
    let up_to = |x: KeyEntry, y: KeyEntry|
        !newer(y, x) && (x.created_at == y.created_at && x.id == y.id ==> x.owner_id <= y.owner_id);
    assert forall|i: int| 0 <= i < a.len() implies (#[trigger] a[i]).owner_id == owner by {
        assert(a.contains(a[i]));
    }
    assert(a.to_multiset() =~= b.to_multiset());
    assert forall|i: int| 0 <= i < b.len() implies (#[trigger] b[i]).owner_id == owner by {
        assert(b.contains(b[i]));
        assert(b.to_multiset().count(b[i]) > 0);
        assert(a.contains(b[i]));
    }
    assert(sorted_by(a, up_to)) by {
        assert forall|i: int, j: int| 0 <= i < j < a.len() implies #[trigger] up_to(a[i], a[j]) by {
            assert(!newer(a[j], a[i]));
        }
    }
    assert(sorted_by(b, up_to)) by {
        assert forall|i: int, j: int| 0 <= i < j < b.len() implies #[trigger] up_to(b[i], b[j]) by {
            assert(!newer(b[j], b[i]));
        }
    }
    assert(total_ordering(up_to));
    vstd::seq_lib::lemma_sorted_unique(a, b, up_to);
    if keys.no_duplicates() {
        owned.lemma_multiset_has_no_duplicates();
        a.lemma_multiset_has_no_duplicates_conv();
    }
}

proof fn lemma_owned_keys(keys: Seq<KeyEntry>, owner: Id)
    ensures
        forall|key: KeyEntry|
            #[trigger] owned_keys(keys, owner).contains(key) <==> keys.contains(key)
                && key.owner_id == owner,
        keys.no_duplicates() ==> owned_keys(keys, owner).no_duplicates(),
    decreases keys.len(),
{
    if keys.len() > 0 {
        let rest = keys.drop_last();
        let last = keys.last();
        let kept = owned_keys(rest, owner);
        let all = owned_keys(keys, owner);
        lemma_owned_keys(rest, owner);
        assert(keys =~= rest.push(last));
        assert forall|key: KeyEntry| #[trigger] all.contains(key) <==> keys.contains(key)
            && key.owner_id == owner by {
            if keys.contains(key) && key != last {
                let i = choose|i: int| 0 <= i < keys.len() && keys[i] == key;
                assert(rest[i] == key);
            }
            if rest.contains(key) {
                let i = choose|i: int| 0 <= i < rest.len() && rest[i] == key;
                assert(keys[i] == key);
            }
            assert(keys.contains(key) <==> rest.contains(key) || key == last) by {
                assert(keys[keys.len() - 1] == last);
            }
            if last.owner_id == owner {
                assert(all[all.len() - 1] == last);
                if all.contains(key) && key != last {
                    let i = choose|i: int| 0 <= i < all.len() && all[i] == key;
                    assert(kept[i] == key);
                }
                if kept.contains(key) {
                    let i = choose|i: int| 0 <= i < kept.len() && kept[i] == key;
                    assert(all[i] == key);
                }
            }
        }
        if keys.no_duplicates() {
            assert(rest.no_duplicates());
            if kept.contains(last) {
                let i = choose|i: int| 0 <= i < rest.len() && rest[i] == last;
                assert(keys[i] == keys[keys.len() - 1]);
            }
        }
    }
}

/// The item at place `i` of a listing stands on its page of size `n`.
pub open spec fn stands_on_its_page(list: Seq<KeyEntry>, i: int, n: int) -> bool {
    let page = window_of(list, i / n * n, n);
    i % n < page.len() && page[i % n] == list[i]
}

/// The pages of one size list every key just once: the key at place `i` stands
/// on one page only, and every place of a page is filled from the listing. A
/// page past the end is empty and tells the same total.
pub proof fn pages_list_every_key_once(list: Seq<KeyEntry>, n: int)
    requires
        1 <= n <= 100,
    ensures
        forall|i: int| 0 <= i < list.len() ==> #[trigger] stands_on_its_page(list, i, n),
        forall|p: int, k: int|
            p >= 1 && 0 <= k < window_of(list, (p - 1) * n, n).len() ==> {
                &&& #[trigger] window_of(list, (p - 1) * n, n)[k] == list[(p - 1) * n + k]
                &&& (p - 1) * n + k < list.len()
                &&& ((p - 1) * n + k) / n == p - 1
                &&& ((p - 1) * n + k) % n == k
            },
        forall|query: ApiKeyListQuery|
            query.page is Some && query.page_size == Some(n as i64) && query.page->0 >= 1
                && list.len() <= (query.page->0 - 1) * n <= i64::MAX ==> {
                &&& #[trigger] key_page(list, query) is Ok
                &&& key_page(list, query)->Ok_0.items.len() == 0
                &&& key_page(list, query)->Ok_0.total == list.len()
            },
{
    assert forall|i: int| 0 <= i < list.len() implies #[trigger] stands_on_its_page(list, i, n) by {
        lemma_fundamental_div_mod(i, n);
        lemma_mul_is_commutative(i / n, n);
        lemma_div_pos_is_pos(i, n);
        lemma_mul_inequality(0, i / n, n);
    }
    assert forall|p: int, k: int|
        p >= 1 && 0 <= k < window_of(list, (p - 1) * n, n).len() implies {
        &&& #[trigger] window_of(list, (p - 1) * n, n)[k] == list[(p - 1) * n + k]
        &&& (p - 1) * n + k < list.len()
        &&& ((p - 1) * n + k) / n == p - 1
        &&& ((p - 1) * n + k) % n == k
    } by {
        lemma_mul_inequality(0, p - 1, n);
        lemma_fundamental_div_mod_converse((p - 1) * n + k, n, p - 1, k);
    }
}

/// A key lasts for one of four spans, until a given time that is still to
/// come, or forever; one that says nothing lasts for ninety days.
pub proof fn keys_last_as_long_as_asked(days: u32, date: Instant, now: Instant)
    requires
        i128::MIN <= now + 365 * 86_400_000_000_000 <= i128::MAX,
    ensures
        expiration(Some(ApiKeyValidity::Days { days }), now) is Ok <==> days == 30 || days == 90
            || days == 180 || days == 365,
        expiration(Some(ApiKeyValidity::Days { days }), now) matches Ok(end) ==> end is Some
            && end->0 - now == days * 86_400_000_000_000,
        expiration(Some(ApiKeyValidity::Date { expires_at: date }), now) is Ok <==> date > now,
        expiration(Some(ApiKeyValidity::Date { expires_at: date }), now) matches Ok(end) ==> end
            == Some(date),
        expiration(Some(ApiKeyValidity::Never), now) == Ok::<Option<Instant>, ErrorView>(None),
        expiration(None, now) is Ok,
        expiration(None, now)->Ok_0 is Some,
        expiration(None, now)->Ok_0->0 - now == 90 * 86_400_000_000_000,
        expiration(Some(ApiKeyValidity::Days { days }), now) matches Err(e) ==> e.status
            == Status::BadRequest,
        expiration(Some(ApiKeyValidity::Date { expires_at: date }), now) matches Err(e)
            ==> e.status == Status::BadRequest,
{
}

/// A key that ends is renewed by whatever a new key could be given that ends
/// later; one that does not end is not renewed.
pub proof fn keys_are_renewed_for_longer(
    validity: ApiKeyValidity,
    current: Instant,
    now: Instant,
)
    ensures
        renewed_expiration(validity, None, now) is Err,
        renewed_expiration(validity, None, now)->Err_0.status == Status::BadRequest,
        renewed_expiration(validity, Some(current), now) is Ok <==> expiration(
            Some(validity),
            now,
        ) is Ok && (expiration(Some(validity), now)->Ok_0 is Some ==> expiration(
            Some(validity),
            now,
        )->Ok_0->0 > current),
        renewed_expiration(validity, Some(current), now) is Ok ==> renewed_expiration(
            validity,
            Some(current),
            now,
        ) == expiration(Some(validity), now),
        renewed_expiration(validity, Some(current), now) matches Err(e) ==> e.status
            == Status::BadRequest,
{
}

/// A key is stored under a name that says something, as the start of its token
/// and the token's digest, and never with the token itself.
pub proof fn keys_are_stored_by_digest(
    name: Seq<char>,
    token: Seq<char>,
    validity: Option<ApiKeyValidity>,
    now: Instant,
)
    ensures
        stored_key(name, token, validity, now) is Ok <==> !blank(name) && expiration(validity, now)
            is Ok,
        stored_key(name, token, validity, now) matches Ok(key) ==> {
            &&& key.name == trimmed(name)
            &&& key.prefix.is_prefix_of(token)
            &&& key.prefix.len() == if token.len() < 12 {
                token.len()
            } else {
                12
            }
            &&& key.token_hash == text_digest(token)
            &&& Ok::<Option<Instant>, ErrorView>(key.expires_at) == expiration(validity, now)
        },
        stored_key(name, token, validity, now) matches Err(e) ==> e.status == Status::BadRequest
            || expiration(validity, now) == Err::<Option<Instant>, ErrorView>(e),
{
}

/// A key is not used to manage itself.
pub proof fn keys_do_not_manage_themselves(credential: Option<Id>, target: Id)
    ensures
        key_target(credential, target) is Ok <==> credential is None || credential->0 != target,
        key_target(credential, target) matches Err(e) ==> e.status == Status::NotFound,
{
}

/// The key that was made last comes first, and of two that were made at one
/// time the one with the greater identifier.
pub proof fn later_keys_come_first(a: KeyEntry, b: KeyEntry, keys: Seq<KeyEntry>, owner: Id)
    ensures
        newest_first(seq![a, b]) && a.created_at != b.created_at ==> a.created_at > b.created_at,
        newest_first(seq![a, b]) && a.created_at == b.created_at ==> a.id >= b.id,
        a.created_at > b.created_at ==> newest_first(seq![a, b]),
        a.created_at == b.created_at && a.id >= b.id ==> newest_first(seq![a, b]),
        owned_keys(keys.push(a), owner) == if a.owner_id == owner {
            owned_keys(keys, owner).push(a)
        } else {
            owned_keys(keys, owner)
        },
{
    let pair = seq![a, b];
    assert(pair[0] == a && pair[1] == b);
    assert(newest_first(pair) ==> !newer(pair[1], pair[0]));
    assert(keys.push(a).drop_last() =~= keys);
}

} // verus!
