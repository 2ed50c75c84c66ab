//! Batches of tool requests from a runtime: reading one, recording it once,
//! and recognizing it when it comes again.

use crate::clock::{on_calendar, second_of, Instant, LAST_SECOND};
use crate::digest::{sha256_hex, text_digest};
use crate::error::{refusal, refuse, refused, seen, ApiError, ErrorView, Refusal, Status};
use crate::ids::{hyphenated_id, id_text, parse_id, parsed_id, Id};
use crate::json::{
    copy_json, field_from, json_eq, json_eq_reflexive, json_equal, json_text, json_text_of, Json,
    JsonView,
};
use crate::order::{less, text_less};
use crate::text::{blank, is_blank, join, opt_view, same};
use crate::tools::{is_tool_registered, tool_registered};
use vstd::prelude::*;

verus! {

// ---------------------------------------------------------------------------
// Reading a batch
// ---------------------------------------------------------------------------

/// A tool request of a batch.
#[derive(Debug)]
pub struct ToolRegistration {
    pub request_id: Id,
    pub position: i32,
    pub tool_name: String,
    pub arguments: Json,
}

/// What a `ToolRegistration` holds.
pub struct RegistrationView {
    pub request_id: Id,
    pub position: int,
    pub tool_name: Seq<char>,
    pub arguments: JsonView,
}

impl View for ToolRegistration {
    type V = RegistrationView;

    open spec fn view(&self) -> RegistrationView {
        RegistrationView {
            request_id: self.request_id,
            position: self.position as int,
            tool_name: self.tool_name@,
            arguments: self.arguments@,
        }
    }
}

/// What a list of registrations holds.
pub open spec fn registration_views(v: Seq<ToolRegistration>) -> Seq<RegistrationView> {
    Seq::new(v.len(), |i: int| v[i]@)
}

/// A batch as a runtime sends it.
#[derive(Debug)]
pub struct BatchRequest {
    pub native_session_id: String,
    pub work_dir_ref: String,
    /// The payloads of the tool requests.
    pub payloads: Vec<Json>,
}

/// What a list of values holds.
pub open spec fn json_views(v: Seq<Json>) -> Seq<JsonView> {
    Seq::new(v.len(), |i: int| v[i]@)
}

/// The identifier that a field of a payload spells.
pub open spec fn spelled_id(payload: JsonView, key: Seq<char>) -> Option<Id> {
    match payload.text_field(key) {
        Some(text) => parsed_id(text),
        None => None,
    }
}

fn read_spelled_id(payload: &Json, key: &str) -> (r: Option<Id>)
    ensures
        r == spelled_id(payload@, key@),
{
    match payload.text_field(key) {
        Some(text) => parse_id(text),
        None => None,
    }
}

/// The request at `position` of a batch, given the identifier that it spells
/// and those of the requests before it: it names its tool and has an
/// identifier of its own.
pub open spec fn registration(
    payload: JsonView,
    id: Option<Id>,
    earlier: Seq<Id>,
    position: int,
) -> Result<RegistrationView, ErrorView> {
    let name = payload.text_field("tool_name"@);
    if name is None || blank(name->0) {
        refused(Status::BadRequest, "tool request name is required"@)
    } else if id is None {
        refused(Status::BadRequest, "valid tool request id is required"@)
    } else if earlier.contains(id->0) {
        refused(Status::BadRequest, "tool request ids must be unique within a batch"@)
    } else if position > i32::MAX {
        refused(Status::BadRequest, "tool request batch is too large"@)
    } else {
        Ok(
            RegistrationView {
                request_id: id->0,
                position,
                tool_name: name->0,
                arguments: payload.field("arguments"@).unwrap_or(JsonView::Object(seq![])),
            },
        )
    }
}

fn contains_id(ids: &Vec<Id>, id: Id) -> (r: bool)
    ensures
        r == ids@.contains(id),
{
    let mut i: usize = 0;
    while i < ids.len()
        invariant
            i <= ids@.len(),
            forall|k: int| 0 <= k < i ==> ids@[k] != id,
        decreases ids@.len() - i,
    {
        if ids[i] == id {
            assert(ids@[i as int] == id);
            return true;
        }
        i = i + 1;
    }
    false
}

/// The request at `position` of a batch, given the identifier that it spells
/// and those of the requests before it.
pub fn register_tool_request(
    payload: &Json,
    id: Option<Id>,
    earlier: &Vec<Id>,
    position: usize,
) -> (r: Result<ToolRegistration, ApiError>)
    ensures
        seen(r) == registration(payload@, id, earlier@, position as int),
{
    let name = match payload.text_field("tool_name") {
        Some(name) => name,
        None => {
            return Err(ApiError::bad_request("tool request name is required"));
        },
    };
    if is_blank(name) {
        return Err(ApiError::bad_request("tool request name is required"));
    }
    let request_id: u128 = match id {
        Some(id) => id,
        None => {
            return Err(ApiError::bad_request("valid tool request id is required"));
        },
    };
    if contains_id(earlier, request_id) {
        return Err(ApiError::bad_request("tool request ids must be unique within a batch"));
    }
    if position > 0x7fff_ffff {
        return Err(ApiError::bad_request("tool request batch is too large"));
    }
    let arguments = match payload.get("arguments") {
        Some(value) => copy_json(value),
        None => {
            let empty = Json::Object(Vec::new());
            assert(empty@->Object_0 =~= seq![]);
            empty
        },
    };
    Ok(
        ToolRegistration {
            request_id,
            position: position as i32,
            tool_name: name.to_owned(),
            arguments,
        },
    )
}

/// The identifiers of registrations.
pub open spec fn registered_ids(v: Seq<RegistrationView>) -> Seq<Id> {
    Seq::new(v.len(), |i: int| v[i].request_id)
}

/// The registrations of a batch, after those in `done`.
pub open spec fn batch_from(
    payloads: Seq<JsonView>,
    done: Seq<RegistrationView>,
) -> Result<Seq<RegistrationView>, ErrorView>
    decreases payloads.len() - done.len(),
{
    let n = done.len() as int;
    if n >= payloads.len() {
        Ok(done)
    } else {
        match registration(
            payloads[n],
            spelled_id(payloads[n], "tool_request_id"@),
            registered_ids(done),
            n,
        ) {
            Err(e) => Err(e),
            Ok(next) => batch_from(payloads, done.push(next)),
        }
    }
}

/// The registrations of a batch: it says how to resume, and holds at least one
/// request.
pub open spec fn batch_registrations(
    native_session_id: Seq<char>,
    work_dir_ref: Seq<char>,
    payloads: Seq<JsonView>,
) -> Result<Seq<RegistrationView>, ErrorView> {
    if blank(native_session_id) || blank(work_dir_ref) {
        refused(Status::BadRequest, "tool request resume metadata is required"@)
    } else if payloads.len() == 0 {
        refused(Status::BadRequest, "tool request batch cannot be empty"@)
    } else {
        batch_from(payloads, seq![])
    }
}

/// The registrations of a batch, or what is wrong with it.
pub fn parse_tool_request_batch(request: &BatchRequest) -> (r: Result<
    Vec<ToolRegistration>,
    ApiError,
>)
    ensures
        match r {
            Ok(v) => batch_registrations(
                request.native_session_id@,
                request.work_dir_ref@,
                json_views(request.payloads@),
            ) == Ok::<Seq<RegistrationView>, ErrorView>(registration_views(v@)),
            Err(e) => batch_registrations(
                request.native_session_id@,
                request.work_dir_ref@,
                json_views(request.payloads@),
            ) == Err::<Seq<RegistrationView>, ErrorView>(e@),
        },
{
    if is_blank(request.native_session_id.as_str()) || is_blank(request.work_dir_ref.as_str()) {
        return Err(ApiError::bad_request("tool request resume metadata is required"));
    }
    if request.payloads.len() == 0 {
        return Err(ApiError::bad_request("tool request batch cannot be empty"));
    }
    let ghost payloads = json_views(request.payloads@);
    let mut out: Vec<ToolRegistration> = Vec::new();
    let mut ids: Vec<Id> = Vec::new();
    let mut i: usize = 0;
    assert(registration_views(out@) =~= seq![]);
    assert(ids@ =~= registered_ids(registration_views(out@)));
    while i < request.payloads.len()
        invariant
            i <= request.payloads@.len(),
            i == out@.len(),
            payloads == json_views(request.payloads@),
            ids@ == registered_ids(registration_views(out@)),
            batch_registrations(request.native_session_id@, request.work_dir_ref@, payloads)
                == batch_from(payloads, seq![]),
            batch_from(payloads, seq![]) == batch_from(payloads, registration_views(out@)),
        decreases request.payloads@.len() - i,
    {
        let payload = &request.payloads[i];
        assert(payloads[i as int] == payload@);
        let id = read_spelled_id(payload, "tool_request_id");
        match register_tool_request(payload, id, &ids, i) {
            Ok(next) => {
                let ghost before = registration_views(out@);
                let ghost added = next@;
                ids.push(next.request_id);
                out.push(next);
                assert(registration_views(out@) =~= before.push(added));
                assert(ids@ =~= registered_ids(registration_views(out@)));
            },
            Err(e) => {
                return Err(e);
            },
        }
        i = i + 1;
    }
    Ok(out)
}

proof fn lemma_batch(payloads: Seq<JsonView>, done: Seq<RegistrationView>)
    requires
        done.len() <= payloads.len(),
        registered_ids(done).no_duplicates(),
        forall|i: int|
            0 <= i < done.len() ==> (#[trigger] done[i]).position == i && spelled_id(
                payloads[i],
                "tool_request_id"@,
            ) == Some(done[i].request_id),
        batch_from(payloads, done) is Ok,
    ensures
        batch_from(payloads, done)->Ok_0.len() == payloads.len(),
        registered_ids(batch_from(payloads, done)->Ok_0).no_duplicates(),
        forall|i: int|
            0 <= i < payloads.len() ==> (#[trigger] batch_from(payloads, done)->Ok_0[i]).position
                == i && spelled_id(payloads[i], "tool_request_id"@) == Some(
                batch_from(payloads, done)->Ok_0[i].request_id,
            ),
    decreases payloads.len() - done.len(),
{
    let n = done.len() as int;
    if n < payloads.len() {
        let next = registration(
            payloads[n],
            spelled_id(payloads[n], "tool_request_id"@),
            registered_ids(done),
            n,
        )->Ok_0;
        let more = done.push(next);
        let ids = registered_ids(done);
        assert(registered_ids(more) =~= ids.push(next.request_id));
        assert(!ids.contains(next.request_id));
        assert forall|a: int, b: int|
            0 <= a < more.len() && 0 <= b < more.len() && a != b implies registered_ids(more)[a]
            != registered_ids(more)[b] by {
            if a < n {
                assert(ids[a] == registered_ids(more)[a]);
            }
            if b < n {
                assert(ids[b] == registered_ids(more)[b]);
            }
        }
        lemma_batch(payloads, more);
    }
}

/// The requests are those of the payloads: each has the identifier that its
/// payload spells, and no two have one identifier.
pub open spec fn requests_of(payloads: Seq<JsonView>, requests: Seq<RegistrationView>) -> bool {
    &&& requests.len() == payloads.len()
    &&& registered_ids(requests).no_duplicates()
    &&& forall|i: int|
        0 <= i < payloads.len() ==> spelled_id(#[trigger] payloads[i], "tool_request_id"@) == Some(
            requests[i].request_id,
        )
}

/// A batch that is read has one registration for each request, in order, with
/// the identifier that the request spells, and all with different identifiers.
pub proof fn batches_are_read_in_order(
    native_session_id: Seq<char>,
    work_dir_ref: Seq<char>,
    payloads: Seq<JsonView>,
)
    requires
        batch_registrations(native_session_id, work_dir_ref, payloads) is Ok,
    ensures
        ({
            let v = batch_registrations(native_session_id, work_dir_ref, payloads)->Ok_0;
            &&& v.len() > 0
            &&& requests_of(payloads, v)
            &&& forall|i: int| 0 <= i < v.len() ==> (#[trigger] v[i]).position == i
        }),
{
    assert(registered_ids(Seq::<RegistrationView>::empty()) =~= Seq::<Id>::empty());
    lemma_batch(payloads, seq![]);
    let v = batch_registrations(native_session_id, work_dir_ref, payloads)->Ok_0;
    assert forall|i: int| 0 <= i < payloads.len() implies spelled_id(
        #[trigger] payloads[i],
        "tool_request_id"@,
    ) == Some(v[i].request_id) by {
        assert(v[i].position == i);
    }
}

/// A registration with the name and the arguments as they are kept.
pub open spec fn cleaned(
    read: RegistrationView,
    tool_name: Seq<char>,
    arguments: JsonView,
) -> RegistrationView {
    RegistrationView { tool_name, arguments, ..read }
}

/// The registration that is kept of a request: the one that was read, with its
/// name and arguments as they came out of cleaning.
pub fn clean_registration(read: &ToolRegistration, tool_name: String, arguments: Json) -> (r:
    ToolRegistration)
    ensures
        r@ == cleaned(read@, tool_name@, arguments@),
{
    ToolRegistration {
        request_id: read.request_id,
        position: read.position,
        tool_name,
        arguments,
    }
}

/// Requests with their names and arguments as they are kept.
pub open spec fn all_cleaned(
    read: Seq<RegistrationView>,
    names: Seq<Seq<char>>,
    arguments: Seq<JsonView>,
) -> Seq<RegistrationView> {
    Seq::new(read.len(), |i: int| cleaned(read[i], names[i], arguments[i]))
}

/// Cleaning a batch changes neither which requests it holds nor their order.
pub proof fn cleaning_keeps_the_batch(
    payloads: Seq<JsonView>,
    read: Seq<RegistrationView>,
    names: Seq<Seq<char>>,
    arguments: Seq<JsonView>,
)
    ensures
        registered_ids(all_cleaned(read, names, arguments)) == registered_ids(read),
        requests_of(payloads, read) ==> requests_of(payloads, all_cleaned(read, names, arguments)),
        forall|i: int|
            0 <= i < read.len() ==> (#[trigger] all_cleaned(read, names, arguments)[i]).position
                == read[i].position,
{
    assert(registered_ids(all_cleaned(read, names, arguments)) =~= registered_ids(read));
}

/// The fingerprint of a batch: the digest of its run and its canonical text,
/// which is taken to be the compact text with the keys of every object in
/// order.
pub open spec fn batch_fingerprint(run_id: Id, request: JsonView) -> Seq<char> {
    text_digest(hyphenated_id(run_id) + ":"@ + json_text_of(request))
}

/// The fingerprint of a batch, given the batch as a JSON value.
pub fn tool_request_batch_fingerprint(run_id: Id, request: &Json) -> (r: String)
    ensures
        r@ == batch_fingerprint(run_id, request@),
{
    let id = id_text(run_id);
    let text = json_text(request);
    let mut out = join(id.as_str(), ":");
    out.append(text.as_str());
    sha256_hex(out.as_str())
}

// ---------------------------------------------------------------------------
// Recognizing a batch
// ---------------------------------------------------------------------------

/// A stored request is this one.
pub open spec fn same_request(stored: RegistrationView, request: RegistrationView) -> bool {
    &&& stored.request_id == request.request_id
    &&& stored.position == request.position
    &&& stored.tool_name == request.tool_name
    &&& json_eq(stored.arguments, request.arguments)
}

/// How many of the first `n` stored requests are this one.
pub open spec fn request_count(
    stored: Seq<RegistrationView>,
    request: RegistrationView,
    n: int,
) -> nat
    decreases n,
{
    if n <= 0 {
        0
    } else {
        request_count(stored, request, n - 1) + if same_request(stored[n - 1], request) {
            1nat
        } else {
            0
        }
    }
}

/// How many of the first `n` identifiers are this one.
pub open spec fn id_count(ids: Seq<Option<Id>>, id: Id, n: int) -> nat
    decreases n,
{
    if n <= 0 {
        0
    } else {
        id_count(ids, id, n - 1) + if ids[n - 1] == Some(id) {
            1nat
        } else {
            0
        }
    }
}

/// Every request was stored exactly once, and has exactly one event.
pub open spec fn all_recorded(
    stored: Seq<RegistrationView>,
    events: Seq<Option<Id>>,
    requests: Seq<RegistrationView>,
) -> bool {
    forall|i: int|
        0 <= i < requests.len() ==> request_count(
            stored,
            #[trigger] requests[i],
            stored.len() as int,
        ) == 1 && id_count(events, requests[i].request_id, events.len() as int) == 1
}

/// The one status of a waiting run carries this fingerprint.
pub open spec fn status_matches(
    statuses: Seq<JsonView>,
    key: Seq<char>,
    fingerprint: Seq<char>,
) -> bool {
    statuses.len() == 1 && statuses[0].text_field(key) == Some(fingerprint)
}

/// A batch that comes again for a run that waits is the one that it waits for.
pub open spec fn replay_check(
    statuses: Seq<JsonView>,
    key: Seq<char>,
    fingerprint: Seq<char>,
    stored: Seq<RegistrationView>,
    events: Seq<Option<Id>>,
    requests: Seq<RegistrationView>,
) -> Result<(), Refusal> {
    if !status_matches(statuses, key, fingerprint) {
        Err(refusal(Status::Conflict, "tool request batch does not match waiting run"))
    } else if stored.len() != requests.len() || events.len() != requests.len() {
        Err(refusal(Status::Conflict, "tool request batch is incomplete for waiting run"))
    } else if !all_recorded(stored, events, requests) {
        Err(refusal(Status::Conflict, "tool request batch does not match waiting run"))
    } else {
        Ok(())
    }
}

fn is_same_request(stored: &ToolRegistration, request: &ToolRegistration) -> (r: bool)
    ensures
        r == same_request(stored@, request@),
{
    stored.request_id == request.request_id && stored.position == request.position && same(
        stored.tool_name.as_str(),
        request.tool_name.as_str(),
    ) && json_equal(&stored.arguments, &request.arguments)
}

fn count_requests(stored: &Vec<ToolRegistration>, request: &ToolRegistration) -> (r: usize)
    ensures
        r == request_count(registration_views(stored@), request@, stored@.len() as int),
{
    let ghost all = registration_views(stored@);
    let mut count: usize = 0;
    let mut i: usize = 0;
    while i < stored.len()
        invariant
            i <= stored@.len(),
            count <= i,
            all == registration_views(stored@),
            count == request_count(all, request@, i as int),
        decreases stored@.len() - i,
    {
        assert(all[i as int] == stored@[i as int]@);
        if is_same_request(&stored[i], request) {
            count = count + 1;
        }
        i = i + 1;
    }
    count
}

fn count_ids(ids: &Vec<Option<Id>>, id: Id) -> (r: usize)
    ensures
        r == id_count(ids@, id, ids@.len() as int),
{
    let mut count: usize = 0;
    let mut i: usize = 0;
    while i < ids.len()
        invariant
            i <= ids@.len(),
            count <= i,
            count == id_count(ids@, id, i as int),
        decreases ids@.len() - i,
    {
        let matches = match ids[i] {
            Some(other) => other == id,
            None => false,
        };
        if matches {
            count = count + 1;
        }
        i = i + 1;
    }
    count
}

/// Whether a batch that comes again is the one that its run waits for, given
/// the identifiers that the stored events spell.
pub fn check_batch_replay(
    statuses: &Vec<Json>,
    key: &str,
    fingerprint: &str,
    stored: &Vec<ToolRegistration>,
    events: &Vec<Option<Id>>,
    requests: &Vec<ToolRegistration>,
) -> (r: Result<(), Refusal>)
    ensures
        r == replay_check(
            json_views(statuses@),
            key@,
            fingerprint@,
            registration_views(stored@),
            events@,
            registration_views(requests@),
        ),
{
    let recognized = if statuses.len() == 1 {
        assert(json_views(statuses@)[0] == statuses@[0]@);
        match statuses[0].text_field(key) {
            Some(text) => same(text, fingerprint),
            None => false,
        }
    } else {
        false
    };
    if !recognized {
        return Err(refuse(Status::Conflict, "tool request batch does not match waiting run"));
    }
    if stored.len() != requests.len() || events.len() != requests.len() {
        return Err(refuse(Status::Conflict, "tool request batch is incomplete for waiting run"));
    }
    let ghost all = registration_views(requests@);
    let ghost kept = registration_views(stored@);
    let mut i: usize = 0;
    while i < requests.len()
        invariant
            i <= requests@.len(),
            all == registration_views(requests@),
            kept == registration_views(stored@),
            stored@.len() == requests@.len() == events@.len(),
            status_matches(json_views(statuses@), key@, fingerprint@),
            forall|k: int|
                0 <= k < i ==> request_count(kept, #[trigger] all[k], kept.len() as int) == 1
                    && id_count(events@, all[k].request_id, events@.len() as int) == 1,
        decreases requests@.len() - i,
    {
        assert(all[i as int] == requests@[i as int]@);
        if count_requests(stored, &requests[i]) != 1 || count_ids(events, requests[i].request_id)
            != 1 {
            assert(!all_recorded(kept, events@, all));
            return Err(refuse(Status::Conflict, "tool request batch does not match waiting run"));
        }
        i = i + 1;
    }
    Ok(())
}

/// The identifier that an event of a request spells.
pub open spec fn event_id(payload: JsonView) -> Option<Id> {
    if payload.field("tool_request_id"@) is Some {
        spelled_id(payload, "tool_request_id"@)
    } else {
        spelled_id(payload, "tool_call_id"@)
    }
}

/// The identifiers that events spell.
pub open spec fn event_ids(payloads: Seq<JsonView>) -> Seq<Option<Id>> {
    Seq::new(payloads.len(), |i: int| event_id(payloads[i]))
}

/// Whether a batch that comes again is the one that its run waits for.
pub fn verify_tool_request_batch_replay(
    statuses: &Vec<Json>,
    key: &str,
    fingerprint: &str,
    stored: &Vec<ToolRegistration>,
    event_payloads: &Vec<Json>,
    requests: &Vec<ToolRegistration>,
) -> (r: Result<(), Refusal>)
    ensures
        r == replay_check(
            json_views(statuses@),
            key@,
            fingerprint@,
            registration_views(stored@),
            event_ids(json_views(event_payloads@)),
            registration_views(requests@),
        ),
{
    let ghost payloads = json_views(event_payloads@);
    let mut ids: Vec<Option<Id>> = Vec::new();
    let mut i: usize = 0;
    while i < event_payloads.len()
        invariant
            i <= event_payloads@.len(),
            payloads == json_views(event_payloads@),
            ids@ == event_ids(payloads).take(i as int),
        decreases event_payloads@.len() - i,
    {
        assert(payloads[i as int] == event_payloads@[i as int]@);
        let payload = &event_payloads[i];
        let id = if payload.get("tool_request_id").is_some() {
            read_spelled_id(payload, "tool_request_id")
        } else {
            read_spelled_id(payload, "tool_call_id")
        };
        ids.push(id);
        i = i + 1;
        assert(ids@ =~= event_ids(payloads).take(i as int));
    }
    assert(ids@ =~= event_ids(payloads));
    check_batch_replay(statuses, key, fingerprint, stored, &ids, requests)
}

proof fn lemma_counts(
    requests: Seq<RegistrationView>,
    events: Seq<Option<Id>>,
    at: int,
    n: int,
)
    requires
        0 <= at < requests.len(),
        0 <= n <= requests.len(),
        events.len() == requests.len(),
        registered_ids(requests).no_duplicates(),
        forall|i: int| 0 <= i < requests.len() ==> #[trigger] events[i] == Some(
            requests[i].request_id,
        ),
    ensures
        request_count(requests, requests[at], n) == if at < n {
            1nat
        } else {
            0
        },
        id_count(events, requests[at].request_id, n) == if at < n {
            1nat
        } else {
            0
        },
    decreases n,
{
    if n > 0 {
        lemma_counts(requests, events, at, n - 1);
        let ids = registered_ids(requests);
        assert(ids[n - 1] == requests[n - 1].request_id);
        assert(ids[at] == requests[at].request_id);
        assert(events[n - 1] == Some(requests[n - 1].request_id));
        if at == n - 1 {
            json_eq_reflexive(requests[at].arguments);
        } else {
            assert(ids[at] != ids[n - 1]);
        }
    }
}

/// A batch that was recorded is recognized when it comes again: the run keeps
/// its one status with the fingerprint, the requests as they were read, and
/// one event for each.
pub proof fn recorded_batches_are_recognized(
    statuses: Seq<JsonView>,
    key: Seq<char>,
    fingerprint: Seq<char>,
    requests: Seq<RegistrationView>,
    events: Seq<Option<Id>>,
)
    requires
        status_matches(statuses, key, fingerprint),
        registered_ids(requests).no_duplicates(),
        events.len() == requests.len(),
        forall|i: int| 0 <= i < requests.len() ==> #[trigger] events[i] == Some(
            requests[i].request_id,
        ),
    ensures
        replay_check(statuses, key, fingerprint, requests, events, requests) == Ok::<(), Refusal>(
            (),
        ),
{
    assert forall|i: int| 0 <= i < requests.len() implies request_count(
        requests,
        #[trigger] requests[i],
        requests.len() as int,
    ) == 1 && id_count(events, requests[i].request_id, events.len() as int) == 1 by {
        lemma_counts(requests, events, i, requests.len() as int);
    }
}

/// A batch with another fingerprint, with another number of requests, or with
/// a request that was not stored just so, is never taken for the one that was
/// recorded.
pub proof fn other_batches_are_not_recognized(
    statuses: Seq<JsonView>,
    key: Seq<char>,
    fingerprint: Seq<char>,
    stored: Seq<RegistrationView>,
    events: Seq<Option<Id>>,
    requests: Seq<RegistrationView>,
)
    requires
        replay_check(statuses, key, fingerprint, stored, events, requests) is Ok,
    ensures
        statuses.len() == 1,
        statuses[0].text_field(key) == Some(fingerprint),
        stored.len() == requests.len(),
        events.len() == requests.len(),
        forall|i: int|
            0 <= i < requests.len() ==> is_stored(stored, #[trigger] requests[i]) && events.contains(
                Some(requests[i].request_id),
            ),
{
    assert forall|i: int| 0 <= i < requests.len() implies is_stored(stored, #[trigger] requests[i])
        && events.contains(Some(requests[i].request_id)) by {
        lemma_counted_is_there(stored, events, requests[i], stored.len() as int);
    }
}

/// One of the stored requests is this one.
pub open spec fn is_stored(stored: Seq<RegistrationView>, request: RegistrationView) -> bool {
    exists|j: int| 0 <= j < stored.len() && same_request(#[trigger] stored[j], request)
}

proof fn lemma_counted_is_there(
    stored: Seq<RegistrationView>,
    events: Seq<Option<Id>>,
    request: RegistrationView,
    n: int,
)
    requires
        0 <= n <= stored.len(),
        n <= events.len(),
    ensures
        request_count(stored, request, n) > 0 ==> is_stored(stored, request),
        id_count(events, request.request_id, n) > 0 ==> events.contains(Some(request.request_id)),
    decreases n,
{
    if n > 0 {
        lemma_counted_is_there(stored, events, request, n - 1);
        if same_request(stored[n - 1], request) {
            assert(is_stored(stored, request));
        }
        if events[n - 1] == Some(request.request_id) {
            assert(events.contains(events[n - 1]));
        }
    }
}

// ---------------------------------------------------------------------------
// Recording a batch
// ---------------------------------------------------------------------------

/// What is known of the run that sends a batch.
#[derive(Clone, Copy, Debug, PartialEq, Eq, Structural)]
pub struct BatchRun {
    pub integration_session_id: Option<Id>,
    pub hub_session_id: Id,
    /// The tools are executed by a client.
    pub client_managed: bool,
    /// The run waits for tools already.
    pub waiting: bool,
    /// The batch says to resume the run as it is stored.
    pub resume_matches: bool,
}

/// A batch says to resume the run as it is stored: with the same native
/// session, and in the same directory.
pub open spec fn resumes(
    native_session_id: Option<Seq<char>>,
    work_dir_ref: Option<Seq<char>>,
    asked_session: Seq<char>,
    asked_dir: Seq<char>,
) -> bool {
    native_session_id == Some(asked_session) && work_dir_ref == Some(asked_dir)
}

fn is_text(text: &Option<String>, wanted: &str) -> (r: bool)
    ensures
        r == (opt_view(*text) == Some(wanted@)),
{
    match text {
        Some(t) => same(t.as_str(), wanted),
        None => false,
    }
}

/// Tells whether a batch says to resume the run as it is stored, given the
/// native session and the directory that the run was stored with.
pub fn resume_matches(
    native_session_id: &Option<String>,
    work_dir_ref: &Option<String>,
    request: &BatchRequest,
) -> (r: bool)
    ensures
        r == resumes(
            opt_view(*native_session_id),
            opt_view(*work_dir_ref),
            request.native_session_id@,
            request.work_dir_ref@,
        ),
{
    is_text(native_session_id, request.native_session_id.as_str()) && is_text(
        work_dir_ref,
        request.work_dir_ref.as_str(),
    )
}

/// How far the recording of a batch has come.
#[derive(Clone, Copy, Debug, PartialEq, Eq, Structural)]
pub enum BatchState {
    /// Waits for the agent of the run.
    Agent,
    /// Waits for the session that the runtime owns.
    Session,
    /// Waits for the run in the session that the runtime owns.
    Run(Id),
    /// Waits for the tools of the integration session.
    SessionTools(Id, BatchRun),
    /// Waits to hear whether the agent lets clients execute tools.
    Permission(Id, BatchRun),
    /// Waits to hear whether every tool is registered.
    Tools(BatchRun),
    /// Waits to hear whether the batch is the one that the run waits for.
    Replay,
    /// Waits for the run to wait, for a client's tools or an integration's.
    Transition(bool),
    /// Waits for the requests to be recorded.
    Recording,
    /// Waits for the turn to wait.
    Turn,
    /// Waits for the session to be free.
    Freeing,
    Closed,
}

/// What was found, or done.
#[derive(Clone, Copy, Debug)]
pub enum BatchEvent {
    AgentActive(bool),
    /// The session of the run that the runtime owns.
    SessionOwned(Id),
    RunIs(Option<BatchRun>),
    SessionToolsFound(bool),
    ClientToolsAllowed(bool),
    ToolsRegistered(bool),
    ReplayIs(Result<(), Refusal>),
    /// So many rows were changed.
    Changed(u64),
    Recorded,
}

/// What to do next.
#[derive(Clone, Copy, Debug)]
pub enum BatchAction {
    FindAgent,
    LockSession,
    FindRun,
    LockSessionTools(Id),
    FindPermission,
    /// Check the tools against those of the client, or of the session.
    CheckTools { client_managed: bool },
    CheckReplay,
    SuspendRun,
    /// Record the requests: with the deadline of a client's tools or of an
    /// integration's.
    RecordRequests { client_managed: bool },
    SuspendTurn,
    FreeSession,
    /// The batch is recorded, by this request or an earlier one.
    Finish,
    Refuse(Refusal),
}

/// Where a step leads.
pub type BatchStep = (BatchState, BatchAction);

/// The event answers what the state waits for.
pub open spec fn batch_expects(state: BatchState, event: BatchEvent) -> bool {
    match state {
        BatchState::Agent => event is AgentActive,
        BatchState::Session => event is SessionOwned,
        BatchState::Run(_) => event is RunIs,
        BatchState::SessionTools(_, _) => event is SessionToolsFound,
        BatchState::Permission(_, _) => event is ClientToolsAllowed,
        BatchState::Tools(_) => event is ToolsRegistered,
        BatchState::Replay => event is ReplayIs,
        BatchState::Transition(_) | BatchState::Turn | BatchState::Freeing => event is Changed,
        BatchState::Recording => event is Recorded,
        BatchState::Closed => false,
    }
}

/// A refusal that ends the recording, and undoes it.
pub open spec fn batch_refused(status: Status, message: &'static str) -> BatchStep {
    (BatchState::Closed, BatchAction::Refuse(refusal(status, message)))
}

/// The tools are looked up once the session of the run is the owned one.
pub open spec fn tools_of(owned: Id, run: BatchRun) -> BatchStep {
    if run.hub_session_id != owned {
        batch_refused(Status::Conflict, "tool request Run Session changed while finalizing")
    } else {
        (BatchState::Tools(run), BatchAction::CheckTools { client_managed: run.client_managed })
    }
}

/// A client's tools need the agent's permission.
pub open spec fn permission_of(owned: Id, run: BatchRun) -> BatchStep {
    if run.client_managed {
        (BatchState::Permission(owned, run), BatchAction::FindPermission)
    } else {
        tools_of(owned, run)
    }
}

/// What follows what is known of the run, where the batch says that it belongs
/// to the session `claimed`.
pub open spec fn run_known(claimed: Option<Id>, owned: Id, run: Option<BatchRun>) -> BatchStep {
    match run {
        None => batch_refused(Status::Forbidden, "runtime does not own an active run"),
        Some(r) => if r.integration_session_id != claimed {
            batch_refused(Status::Forbidden, "tool request batch session does not match its Run")
        } else if r.integration_session_id is None && !r.client_managed {
            batch_refused(
                Status::Forbidden,
                "tool requests are only allowed for integration or Client Tool runs",
            )
        } else {
            match r.integration_session_id {
                Some(session) => (
                    BatchState::SessionTools(owned, r),
                    BatchAction::LockSessionTools(session),
                ),
                None => permission_of(owned, r),
            }
        },
    }
}

/// What follows what was found. A batch is recorded for an active run that the
/// runtime owns, in the session that it says, with tools that are registered;
/// one that comes again is only compared.
pub open spec fn batch_next(claimed: Option<Id>, state: BatchState, event: BatchEvent) -> BatchStep {
    match (state, event) {
        (BatchState::Agent, BatchEvent::AgentActive(true)) => (
            BatchState::Session,
            BatchAction::LockSession,
        ),
        (BatchState::Agent, _) => batch_refused(
            Status::Forbidden,
            "agent is deleted or run does not exist",
        ),
        (BatchState::Session, BatchEvent::SessionOwned(owned)) => (
            BatchState::Run(owned),
            BatchAction::FindRun,
        ),
        (BatchState::Run(owned), BatchEvent::RunIs(run)) => run_known(claimed, owned, run),
        (BatchState::SessionTools(owned, run), BatchEvent::SessionToolsFound(true)) =>
            permission_of(owned, run),
        (BatchState::SessionTools(_, _), _) => batch_refused(
            Status::Forbidden,
            "integration run session changed",
        ),
        (BatchState::Permission(owned, run), BatchEvent::ClientToolsAllowed(true)) => tools_of(
            owned,
            run,
        ),
        (BatchState::Permission(_, _), _) => batch_refused(
            Status::Forbidden,
            "Agent does not allow Client Tool execution",
        ),
        (BatchState::Tools(run), BatchEvent::ToolsRegistered(true)) => if !run.waiting {
            (BatchState::Transition(run.client_managed), BatchAction::SuspendRun)
        } else if run.resume_matches {
            (BatchState::Replay, BatchAction::CheckReplay)
        } else {
            batch_refused(
                Status::Conflict,
                "tool request resume metadata does not match waiting run",
            )
        },
        (BatchState::Tools(_), _) => batch_refused(
            Status::Forbidden,
            "tool is not registered for session",
        ),
        (BatchState::Replay, BatchEvent::ReplayIs(Err(e))) => (
            BatchState::Closed,
            BatchAction::Refuse(e),
        ),
        (BatchState::Transition(client_managed), BatchEvent::Changed(rows)) => if rows == 1 {
            (BatchState::Recording, BatchAction::RecordRequests { client_managed })
        } else {
            batch_refused(Status::Internal, "tool request run was not transitioned")
        },
        (BatchState::Recording, _) => (BatchState::Turn, BatchAction::SuspendTurn),
        (BatchState::Turn, BatchEvent::Changed(rows)) => if rows == 1 {
            (BatchState::Freeing, BatchAction::FreeSession)
        } else {
            batch_refused(
                Status::Conflict,
                "tool request Turn is no longer active while finalizing",
            )
        },
        (BatchState::Freeing, BatchEvent::Changed(rows)) => if rows == 1 {
            (BatchState::Closed, BatchAction::Finish)
        } else {
            batch_refused(Status::Conflict, "tool request Session changed while finalizing")
        },
        _ => (BatchState::Closed, BatchAction::Finish),
    }
}

/// The start of the recording of a batch.
pub fn begin_tool_request_batch() -> (r: BatchStep)
    ensures
        r == (BatchState::Agent, BatchAction::FindAgent),
        forall|claimed: Option<Id>| r == #[trigger] batch_run(claimed, seq![]),
{
    (BatchState::Agent, BatchAction::FindAgent)
}

fn stop_batch(status: Status, message: &'static str) -> (r: BatchStep)
    ensures
        r == batch_refused(status, message),
{
    (BatchState::Closed, BatchAction::Refuse(refuse(status, message)))
}

fn tools_step(owned: Id, run: BatchRun) -> (r: BatchStep)
    ensures
        r == tools_of(owned, run),
{
    if run.hub_session_id != owned {
        stop_batch(Status::Conflict, "tool request Run Session changed while finalizing")
    } else {
        (BatchState::Tools(run), BatchAction::CheckTools { client_managed: run.client_managed })
    }
}

fn permission_step(owned: Id, run: BatchRun) -> (r: BatchStep)
    ensures
        r == permission_of(owned, run),
{
    if run.client_managed {
        (BatchState::Permission(owned, run), BatchAction::FindPermission)
    } else {
        tools_step(owned, run)
    }
}

fn same_id(a: Option<Id>, b: Option<Id>) -> (r: bool)
    ensures
        r == (a == b),
{
    match (a, b) {
        (Some(x), Some(y)) => x == y,
        (None, None) => true,
        _ => false,
    }
}

fn run_step(claimed: Option<Id>, owned: Id, run: Option<BatchRun>) -> (r: BatchStep)
    ensures
        r == run_known(claimed, owned, run),
{
    match run {
        None => stop_batch(Status::Forbidden, "runtime does not own an active run"),
        Some(known) => {
            if !same_id(known.integration_session_id, claimed) {
                return stop_batch(
                    Status::Forbidden,
                    "tool request batch session does not match its Run",
                );
            }
            match known.integration_session_id {
                Some(session) => (
                    BatchState::SessionTools(owned, known),
                    BatchAction::LockSessionTools(session),
                ),
                None => {
                    if !known.client_managed {
                        stop_batch(
                            Status::Forbidden,
                            "tool requests are only allowed for integration or Client Tool runs",
                        )
                    } else {
                        permission_step(owned, known)
                    }
                },
            }
        },
    }
}

/// Takes the recording of a batch one step on. `claimed` is the integration
/// session that the batch says it belongs to.
pub fn finalize_tool_request_batch(claimed: Option<Id>, state: BatchState, event: BatchEvent) -> (r:
    BatchStep)
    requires
        batch_expects(state, event),
    ensures
        r == batch_next(claimed, state, event),
{
    match (state, event) {
        (BatchState::Agent, BatchEvent::AgentActive(active)) => {
            if active {
                (BatchState::Session, BatchAction::LockSession)
            } else {
                stop_batch(Status::Forbidden, "agent is deleted or run does not exist")
            }
        },
        (BatchState::Session, BatchEvent::SessionOwned(owned)) => (
            BatchState::Run(owned),
            BatchAction::FindRun,
        ),
        (BatchState::Run(owned), BatchEvent::RunIs(run)) => run_step(claimed, owned, run),
        (BatchState::SessionTools(owned, run), BatchEvent::SessionToolsFound(found)) => {
            if found {
                permission_step(owned, run)
            } else {
                stop_batch(Status::Forbidden, "integration run session changed")
            }
        },
        (BatchState::Permission(owned, run), BatchEvent::ClientToolsAllowed(allowed)) => {
            if allowed {
                tools_step(owned, run)
            } else {
                stop_batch(Status::Forbidden, "Agent does not allow Client Tool execution")
            }
        },
        (BatchState::Tools(run), BatchEvent::ToolsRegistered(registered)) => {
            if !registered {
                stop_batch(Status::Forbidden, "tool is not registered for session")
            } else if !run.waiting {
                (BatchState::Transition(run.client_managed), BatchAction::SuspendRun)
            } else if run.resume_matches {
                (BatchState::Replay, BatchAction::CheckReplay)
            } else {
                stop_batch(
                    Status::Conflict,
                    "tool request resume metadata does not match waiting run",
                )
            }
        },
        (BatchState::Replay, BatchEvent::ReplayIs(outcome)) => match outcome {
            Ok(_) => (BatchState::Closed, BatchAction::Finish),
            Err(e) => (BatchState::Closed, BatchAction::Refuse(e)),
        },
        (BatchState::Transition(client_managed), BatchEvent::Changed(rows)) => {
            if rows == 1 {
                (BatchState::Recording, BatchAction::RecordRequests { client_managed })
            } else {
                stop_batch(Status::Internal, "tool request run was not transitioned")
            }
        },
        (BatchState::Turn, BatchEvent::Changed(rows)) => {
            if rows == 1 {
                (BatchState::Freeing, BatchAction::FreeSession)
            } else {
                stop_batch(
                    Status::Conflict,
                    "tool request Turn is no longer active while finalizing",
                )
            }
        },
        (BatchState::Freeing, BatchEvent::Changed(rows)) => {
            if rows == 1 {
                (BatchState::Closed, BatchAction::Finish)
            } else {
                stop_batch(Status::Conflict, "tool request Session changed while finalizing")
            }
        },
        (BatchState::Recording, _) => (BatchState::Turn, BatchAction::SuspendTurn),
        _ => (BatchState::Closed, BatchAction::Finish),
    }
}

/// Every tool of a batch is registered.
pub open spec fn all_registered(tools: JsonView, requests: Seq<RegistrationView>) -> bool {
    forall|i: int|
        0 <= i < requests.len() ==> tool_registered(tools, (#[trigger] requests[i]).tool_name)
}

/// Tells whether every tool of a batch is registered.
pub fn are_tools_registered(tools: &Json, requests: &Vec<ToolRegistration>) -> (r: bool)
    ensures
        r == all_registered(tools@, registration_views(requests@)),
{
    let ghost all = registration_views(requests@);
    let mut i: usize = 0;
    while i < requests.len()
        invariant
            i <= requests@.len(),
            all == registration_views(requests@),
            forall|k: int|
                0 <= k < i ==> tool_registered(tools@, (#[trigger] all[k]).tool_name),
        decreases requests@.len() - i,
    {
        assert(all[i as int] == requests@[i as int]@);
        if !is_tool_registered(tools, requests[i].tool_name.as_str()) {
            return false;
        }
        i = i + 1;
    }
    true
}

/// The minutes that a batch may wait: thirty for an integration.
pub open spec fn waiting_minutes(client_managed: bool, client_minutes: u32) -> int {
    if client_managed {
        client_minutes as int
    } else {
        30
    }
}

/// When a batch that is recorded at `now` expires.
pub fn batch_deadline(now: Instant, client_managed: bool, client_minutes: u32) -> (r: Instant)
    requires
        on_calendar(now),
        second_of(now) + 60 * waiting_minutes(client_managed, client_minutes) <= LAST_SECOND,
    ensures
        r == now + 60_000_000_000 * waiting_minutes(client_managed, client_minutes),
{
    let minutes: i128 = if client_managed {
        client_minutes as i128
    } else {
        30
    };
    now + 60_000_000_000 * minutes
}

/// The event that tells a client of a call.
pub open spec fn client_call_event(
    request: RegistrationView,
    run_id: Id,
    expires_at: Seq<char>,
) -> JsonView {
    JsonView::Object(
        seq![
            ("arguments"@, request.arguments),
            ("batch_id"@, JsonView::Text(hyphenated_id(run_id))),
            ("expires_at"@, JsonView::Text(expires_at)),
            ("tool_call_id"@, JsonView::Text(hyphenated_id(request.request_id))),
            ("tool_name"@, JsonView::Text(request.tool_name)),
        ],
    )
}

fn text_json(text: String) -> (r: Json)
    ensures
        r@ == JsonView::Text(text@),
{
    Json::Text(text)
}

/// The event that tells a client of a call, which spells the deadline as it
/// is given.
pub fn client_tool_call_event(request: &ToolRegistration, run_id: Id, expires_at: &str) -> (r: Json)
    ensures
        r@ == client_call_event(request@, run_id, expires_at@),
{
    let fields = vec![
        ("arguments".to_owned(), copy_json(&request.arguments)),
        ("batch_id".to_owned(), text_json(id_text(run_id))),
        ("expires_at".to_owned(), text_json(expires_at.to_owned())),
        ("tool_call_id".to_owned(), text_json(id_text(request.request_id))),
        ("tool_name".to_owned(), text_json(request.tool_name.clone())),
    ];
    let r = Json::Object(fields);
    assert(r@->Object_0 =~= client_call_event(request@, run_id, expires_at@)->Object_0);
    r
}

// ---------------------------------------------------------------------------
// What is recorded
// ---------------------------------------------------------------------------

/// What is stored of a batch when it is recorded.
#[derive(Debug)]
pub struct BatchRecord {
    /// What the run is resumed with.
    pub native_session_id: String,
    pub work_dir_ref: String,
    /// The status of the run while it waits.
    pub status: Json,
    pub requests: Vec<ToolRegistration>,
    /// One event for each request.
    pub events: Vec<Json>,
}

/// What a `BatchRecord` holds.
pub struct BatchRecordView {
    pub native_session_id: Seq<char>,
    pub work_dir_ref: Seq<char>,
    pub status: JsonView,
    pub requests: Seq<RegistrationView>,
    pub events: Seq<JsonView>,
}

impl View for BatchRecord {
    type V = BatchRecordView;

    open spec fn view(&self) -> BatchRecordView {
        BatchRecordView {
            native_session_id: self.native_session_id@,
            work_dir_ref: self.work_dir_ref@,
            status: self.status@,
            requests: registration_views(self.requests@),
            events: json_views(self.events@),
        }
    }
}

/// The status of a run that waits for tools, with the fingerprint of its batch
/// under `key`.
pub open spec fn waiting_status(key: Seq<char>, fingerprint: Seq<char>) -> JsonView {
    let mark = (key, JsonView::Text(fingerprint));
    let status = ("status"@, JsonView::Text("waiting_tool"@));
    if key == "status"@ {
        JsonView::Object(seq![mark])
    } else if less(key, "status"@) {
        JsonView::Object(seq![mark, status])
    } else {
        JsonView::Object(seq![status, mark])
    }
}

/// The status of a run that waits for tools.
pub fn waiting_tool_status(key: &str, fingerprint: &str) -> (r: Json)
    ensures
        r@ == waiting_status(key@, fingerprint@),
{
    let mark = (key.to_owned(), text_json(fingerprint.to_owned()));
    if same(key, "status") {
        let r = Json::Object(vec![mark]);
        assert(r@->Object_0 =~= waiting_status(key@, fingerprint@)->Object_0);
        return r;
    }
    let status = ("status".to_owned(), text_json("waiting_tool".to_owned()));
    let fields = if text_less(key, "status") {
        vec![mark, status]
    } else {
        vec![status, mark]
    };
    let r = Json::Object(fields);
    assert(r@->Object_0 =~= waiting_status(key@, fingerprint@)->Object_0);
    r
}

/// The event of a request: a client is told of the call, an integration of
/// what the runtime sent.
pub open spec fn request_event(
    client_managed: bool,
    request: RegistrationView,
    payload: JsonView,
    run_id: Id,
    expires_at: Seq<char>,
) -> JsonView {
    if client_managed {
        client_call_event(request, run_id, expires_at)
    } else {
        payload
    }
}

/// What is stored of a batch.
pub open spec fn batch_record(
    native_session_id: Seq<char>,
    work_dir_ref: Seq<char>,
    status: JsonView,
    payloads: Seq<JsonView>,
    requests: Seq<RegistrationView>,
    run_id: Id,
    client_managed: bool,
    expires_at: Seq<char>,
) -> BatchRecordView {
    BatchRecordView {
        native_session_id,
        work_dir_ref,
        status,
        requests,
        events: Seq::new(
            requests.len(),
            |i: int| request_event(client_managed, requests[i], payloads[i], run_id, expires_at),
        ),
    }
}

proof fn lemma_client_event_id(request: RegistrationView, run_id: Id, expires_at: Seq<char>)
    requires
        parsed_id(hyphenated_id(request.request_id)) == Some(request.request_id),
    ensures
        event_id(client_call_event(request, run_id, expires_at)) == Some(request.request_id),
{
    reveal_strlit("arguments");
    reveal_strlit("batch_id");
    reveal_strlit("expires_at");
    reveal_strlit("tool_call_id");
    reveal_strlit("tool_name");
    reveal_strlit("tool_request_id");
    let fields = client_call_event(request, run_id, expires_at)->Object_0;
    reveal_with_fuel(field_from, 6);
    assert(fields[0].0.len() == 9 && fields[1].0.len() == 8 && fields[2].0.len() == 10);
    assert(fields[3].0.len() == 12 && fields[4].0.len() == 9);
    assert("tool_request_id"@.len() == 15 && "tool_call_id"@.len() == 12);
}

/// The events of a record tell of its requests, one by one.
pub open spec fn tells_of_requests(record: BatchRecordView) -> bool {
    &&& record.events.len() == record.requests.len()
    &&& forall|i: int|
        0 <= i < record.requests.len() ==> event_id(#[trigger] record.events[i]) == Some(
            record.requests[i].request_id,
        )
}

/// What is stored of a batch whose requests are those of its payloads. The
/// events tell of the requests one by one.
pub fn record_tool_request_batch(
    request: &BatchRequest,
    requests: &Vec<ToolRegistration>,
    run_id: Id,
    status: Json,
    client_managed: bool,
    expires_at: &str,
) -> (r: BatchRecord)
    requires
        requests@.len() == request.payloads@.len(),
    ensures
        r@ == batch_record(
            request.native_session_id@,
            request.work_dir_ref@,
            status@,
            json_views(request.payloads@),
            registration_views(requests@),
            run_id,
            client_managed,
            expires_at@,
        ),
        requests_of(json_views(request.payloads@), registration_views(requests@))
            ==> tells_of_requests(r@),
{
    let ghost payloads = json_views(request.payloads@);
    let ghost wanted = batch_record(
        request.native_session_id@,
        request.work_dir_ref@,
        status@,
        payloads,
        registration_views(requests@),
        run_id,
        client_managed,
        expires_at@,
    );
    let mut kept: Vec<ToolRegistration> = Vec::new();
    let mut events: Vec<Json> = Vec::new();
    let mut i: usize = 0;
    while i < requests.len()
        invariant
            i <= requests@.len(),
            requests@.len() == request.payloads@.len(),
            kept@.len() == i,
            events@.len() == i,
            payloads == json_views(request.payloads@),
            wanted == batch_record(
                request.native_session_id@,
                request.work_dir_ref@,
                status@,
                payloads,
                registration_views(requests@),
                run_id,
                client_managed,
                expires_at@,
            ),
            forall|k: int| 0 <= k < i ==> (#[trigger] kept@[k])@ == requests@[k]@,
            forall|k: int| 0 <= k < i ==> (#[trigger] events@[k])@ == wanted.events[k],
            requests_of(payloads, wanted.requests) ==> forall|k: int|
                0 <= k < i ==> event_id(#[trigger] wanted.events[k]) == Some(
                    wanted.requests[k].request_id,
                ),
        decreases requests@.len() - i,
    {
        let call = &requests[i];
        assert(wanted.requests[i as int] == call@);
        assert(payloads[i as int] == request.payloads@[i as int]@);
        let id = id_text(call.request_id);
        proof {
            lemma_client_event_id(call@, run_id, expires_at@);
        }
        let event = if client_managed {
            client_tool_call_event(call, run_id, expires_at)
        } else {
            copy_json(&request.payloads[i])
        };
        assert(event@ == wanted.events[i as int]);
        events.push(event);
        kept.push(clean_registration(call, call.tool_name.clone(), copy_json(&call.arguments)));
        i = i + 1;
    }
    let r = BatchRecord {
        native_session_id: request.native_session_id.clone(),
        work_dir_ref: request.work_dir_ref.clone(),
        status,
        requests: kept,
        events,
    };
    assert(r@.requests =~= wanted.requests);
    assert(r@.events =~= wanted.events);
    r
}

// ---------------------------------------------------------------------------
// Laws of recording
// ---------------------------------------------------------------------------

/// The step that a history of events leads to.
pub open spec fn batch_run(claimed: Option<Id>, events: Seq<BatchEvent>) -> BatchStep
    decreases events.len(),
{
    if events.len() == 0 {
        (BatchState::Agent, BatchAction::FindAgent)
    } else {
        batch_next(claimed, batch_run(claimed, events.drop_last()).0, events.last())
    }
}

/// Each event answers what the state before it waits for.
pub open spec fn batch_history(claimed: Option<Id>, events: Seq<BatchEvent>) -> bool
    decreases events.len(),
{
    events.len() == 0 || (batch_history(claimed, events.drop_last()) && batch_expects(
        batch_run(claimed, events.drop_last()).0,
        events.last(),
    ))
}

/// A run may ask for tools in the session that its batch says.
pub open spec fn run_may_ask(claimed: Option<Id>, run: BatchRun) -> bool {
    &&& run.integration_session_id == claimed
    &&& run.integration_session_id is Some || run.client_managed
}

/// What must hold of a run for its batch to be looked at: it may ask for
/// tools, and belongs to the session that the runtime owns.
pub open spec fn run_fits(claimed: Option<Id>, owned: Id, run: BatchRun) -> bool {
    run_may_ask(claimed, run) && run.hub_session_id == owned
}

/// The events up to the run, and what they say.
pub open spec fn batch_grounds(claimed: Option<Id>, events: Seq<BatchEvent>) -> bool {
    &&& events.len() > 3
    &&& events[0] == BatchEvent::AgentActive(true)
    &&& match (events[1], events[2]) {
        (BatchEvent::SessionOwned(owned), BatchEvent::RunIs(Some(run))) => run_fits(
            claimed,
            owned,
            run,
        ),
        _ => false,
    }
}

/// The run that a history is about.
pub open spec fn batch_run_of(events: Seq<BatchEvent>) -> BatchRun {
    match events[2] {
        BatchEvent::RunIs(Some(run)) => run,
        _ => arbitrary(),
    }
}

/// What each state says of the events that led to it.
pub open spec fn batch_explained(
    claimed: Option<Id>,
    events: Seq<BatchEvent>,
    state: BatchState,
) -> bool {
    let run_said = |owned: Id, run: BatchRun|
        {
            &&& events.len() >= 3
            &&& events[0] == BatchEvent::AgentActive(true)
            &&& events[1] == BatchEvent::SessionOwned(owned)
            &&& events[2] == BatchEvent::RunIs(Some(run))
            &&& run_may_ask(claimed, run)
        };
    match state {
        BatchState::Agent => events.len() == 0,
        BatchState::Session => events.len() == 1 && events[0] == BatchEvent::AgentActive(true),
        BatchState::Run(owned) => events.len() == 2 && events[0] == BatchEvent::AgentActive(true)
            && events[1] == BatchEvent::SessionOwned(owned),
        BatchState::SessionTools(owned, run) => run_said(owned, run) && events.len() == 3,
        BatchState::Permission(owned, run) => run_said(owned, run) && run.client_managed,
        BatchState::Tools(run) => events.len() >= 3 && run_said(run.hub_session_id, run) && (
        run.client_managed ==> exists|i: int|
            0 <= i < events.len() && events[i] == BatchEvent::ClientToolsAllowed(true)),
        BatchState::Replay => batch_grounds(claimed, events) && batch_run_of(events).waiting
            && batch_run_of(events).resume_matches && events.last() == BatchEvent::ToolsRegistered(
            true,
        ),
        BatchState::Transition(client) => batch_grounds(claimed, events) && !batch_run_of(
            events,
        ).waiting && events.last() == BatchEvent::ToolsRegistered(true) && client == batch_run_of(
            events,
        ).client_managed,
        BatchState::Recording | BatchState::Turn | BatchState::Freeing => batch_grounds(
            claimed,
            events,
        ) && !batch_run_of(events).waiting,
        BatchState::Closed => true,
    }
}

proof fn lemma_batch_explained(claimed: Option<Id>, events: Seq<BatchEvent>)
    requires
        batch_history(claimed, events),
    ensures
        batch_explained(claimed, events, batch_run(claimed, events).0),
        batch_run(claimed, events).1 is Finish ==> batch_grounds(claimed, events) && (batch_run_of(
            events,
        ).waiting ==> batch_run_of(events).resume_matches && events.last() is ReplayIs),
        batch_run(claimed, events).1 is SuspendRun || batch_run(claimed, events).1 is RecordRequests
            || batch_run(claimed, events).1 is SuspendTurn || batch_run(claimed, events).1
            is FreeSession ==> batch_grounds(claimed, events) && !batch_run_of(events).waiting,
    decreases events.len(),
{
    if events.len() > 0 {
        let before = events.drop_last();
        lemma_batch_explained(claimed, before);
        assert forall|i: int| 0 <= i < before.len() implies events[i] == before[i] by {}
        assert(events.last() == events[events.len() - 1]);
        let state = batch_run(claimed, before).0;
        match state {
            BatchState::Tools(run) => {
                if run.client_managed {
                    let i = choose|i: int|
                        0 <= i < before.len() && before[i] == BatchEvent::ClientToolsAllowed(true);
                    assert(events[i] == BatchEvent::ClientToolsAllowed(true));
                }
            },
            _ => {},
        }
    }
}

/// A batch changes a run only on good grounds: its agent is active, the
/// runtime owns its session, the run belongs to the session that the batch
/// says and that is owned, and tools may be asked for there. A run that waits
/// already is never changed: its batch is only compared.
pub proof fn batches_are_recorded_on_good_grounds(claimed: Option<Id>, events: Seq<BatchEvent>)
    requires
        batch_history(claimed, events),
    ensures
        batch_run(claimed, events).1 is SuspendRun || batch_run(claimed, events).1 is RecordRequests
            || batch_run(claimed, events).1 is SuspendTurn || batch_run(claimed, events).1
            is FreeSession ==> batch_grounds(claimed, events) && !batch_run_of(events).waiting,
        batch_run(claimed, events).1 is Finish ==> batch_grounds(claimed, events),
        batch_run(claimed, events).1 is Finish && batch_run_of(events).waiting ==> events.last()
            == BatchEvent::ReplayIs(Ok(())),
{
    lemma_batch_explained(claimed, events);
    if batch_run(claimed, events).1 is Finish && batch_run_of(events).waiting {
        let before = events.drop_last();
        lemma_batch_explained(claimed, before);
        match events.last() {
            BatchEvent::ReplayIs(Ok(u)) => {
                assert(u == ());
            },
            _ => {},
        }
    }
}

/// A batch that was recorded is recognized when it comes again: the run waits
/// already, the batch says to resume it as it was stored, and its requests are
/// found as they were recorded, so that it finishes without a change.
pub proof fn repeated_batches_finish(
    claimed: Option<Id>,
    run: BatchRun,
    record: BatchRecordView,
    key: Seq<char>,
    fingerprint: Seq<char>,
)
    requires
        key != "status"@,
        record.status == waiting_status(key, fingerprint),
        tells_of_requests(record),
        registered_ids(record.requests).no_duplicates(),
        run.waiting,
        run.resume_matches == resumes(
            Some(record.native_session_id),
            Some(record.work_dir_ref),
            record.native_session_id,
            record.work_dir_ref,
        ),
    ensures
        record.status.text_field("status"@) == Some("waiting_tool"@),
        batch_next(claimed, BatchState::Tools(run), BatchEvent::ToolsRegistered(true)) == (
            BatchState::Replay,
            BatchAction::CheckReplay,
        ),
        batch_next(
            claimed,
            BatchState::Replay,
            BatchEvent::ReplayIs(
                replay_check(
                    seq![record.status],
                    key,
                    fingerprint,
                    record.requests,
                    event_ids(record.events),
                    record.requests,
                ),
            ),
        ) == (BatchState::Closed, BatchAction::Finish),
{
    lemma_waiting_status(key, fingerprint);
    let ids = event_ids(record.events);
    assert forall|i: int| 0 <= i < record.requests.len() implies #[trigger] ids[i] == Some(
        record.requests[i].request_id,
    ) by {
        assert(event_id(record.events[i]) == Some(record.requests[i].request_id));
    }
    recorded_batches_are_recognized(seq![record.status], key, fingerprint, record.requests, ids);
}

/// A batch that differs from the one that was recorded is a conflict: one that
/// says to resume the run in another native session or directory, and one with
/// another fingerprint.
pub proof fn changed_batches_conflict(
    claimed: Option<Id>,
    run: BatchRun,
    record: BatchRecordView,
    key: Seq<char>,
    stored_fingerprint: Seq<char>,
    asked_session: Seq<char>,
    asked_dir: Seq<char>,
    fingerprint: Seq<char>,
    requests: Seq<RegistrationView>,
)
    requires
        key != "status"@,
        record.status == waiting_status(key, stored_fingerprint),
        run.waiting,
        run.resume_matches == resumes(
            Some(record.native_session_id),
            Some(record.work_dir_ref),
            asked_session,
            asked_dir,
        ),
    ensures
        asked_session != record.native_session_id || asked_dir != record.work_dir_ref ==> ({
            let step = batch_next(
                claimed,
                BatchState::Tools(run),
                BatchEvent::ToolsRegistered(true),
            );
            step.1 is Refuse && step.1->Refuse_0.status == Status::Conflict
        }),
        fingerprint != stored_fingerprint ==> ({
            let step = batch_next(
                claimed,
                BatchState::Replay,
                BatchEvent::ReplayIs(
                    replay_check(
                        seq![record.status],
                        key,
                        fingerprint,
                        record.requests,
                        event_ids(record.events),
                        requests,
                    ),
                ),
            );
            step.1 is Refuse && step.1->Refuse_0.status == Status::Conflict
        }),
{
    lemma_waiting_status(key, stored_fingerprint);
}

proof fn lemma_waiting_status(key: Seq<char>, fingerprint: Seq<char>)
    requires
        key != "status"@,
    ensures
        waiting_status(key, fingerprint).text_field(key) == Some(fingerprint),
        waiting_status(key, fingerprint).text_field("status"@) == Some("waiting_tool"@),
{
    reveal_with_fuel(field_from, 3);
}

/// A request is registered where it names a tool and has an identifier of its
/// own; it is registered as it was sent, at its place, and without arguments
/// where it brings none.
pub proof fn requests_are_registered_as_sent(
    payload: JsonView,
    id: Option<Id>,
    earlier: Seq<Id>,
    position: int,
)
    ensures
        registration(payload, id, earlier, position) is Ok <==> {
            &&& payload.text_field("tool_name"@) is Some
            &&& !blank(payload.text_field("tool_name"@)->0)
            &&& id is Some
            &&& !earlier.contains(id->0)
            &&& position <= 2_147_483_647
        },
        registration(payload, id, earlier, position) matches Ok(r) ==> {
            &&& Some(r.request_id) == id
            &&& r.position == position
            &&& Some(r.tool_name) == payload.text_field("tool_name"@)
            &&& payload.field("arguments"@) is Some ==> Some(r.arguments) == payload.field(
                "arguments"@,
            )
            &&& payload.field("arguments"@) is None ==> r.arguments == JsonView::Object(seq![])
        },
        registration(payload, id, earlier, position) matches Err(e) ==> e.status
            == Status::BadRequest,
{
}

/// What can be registered of a batch, one request after the other.
pub open spec fn can_be_registered(payloads: Seq<JsonView>) -> bool {
    &&& forall|i: int|
        0 <= i < payloads.len() ==> {
            &&& (#[trigger] payloads[i]).text_field("tool_name"@) is Some
            &&& !blank(payloads[i].text_field("tool_name"@)->0)
            &&& payloads[i].text_field("tool_request_id"@) is Some
            &&& parsed_id(payloads[i].text_field("tool_request_id"@)->0) is Some
        }
    &&& forall|i: int, j: int|
        0 <= i < j < payloads.len() ==> parsed_id(
            (#[trigger] payloads[i]).text_field("tool_request_id"@)->0,
        ) != parsed_id((#[trigger] payloads[j]).text_field("tool_request_id"@)->0)
}

proof fn lemma_registered(payloads: Seq<JsonView>, done: Seq<RegistrationView>)
    requires
        can_be_registered(payloads),
        done.len() <= payloads.len() <= 2_147_483_648,
        forall|i: int|
            0 <= i < done.len() ==> Some((#[trigger] done[i]).request_id) == parsed_id(
                payloads[i].text_field("tool_request_id"@)->0,
            ),
    ensures
        batch_from(payloads, done) is Ok,
    decreases payloads.len() - done.len(),
{
    let n = done.len() as int;
    if n < payloads.len() {
        let id = spelled_id(payloads[n], "tool_request_id"@);
        let ids = registered_ids(done);
        assert(!ids.contains(id->0)) by {
            if ids.contains(id->0) {
                let k = choose|k: int| 0 <= k < ids.len() && ids[k] == id->0;
                assert(done[k].request_id == id->0);
                assert(payloads[k] == payloads[k] && payloads[n] == payloads[n]);
            }
        }
        let next = registration(payloads[n], id, ids, n)->Ok_0;
        assert(registration(payloads[n], id, ids, n) is Ok);
        let more = done.push(next);
        assert forall|i: int| 0 <= i < more.len() implies Some((#[trigger] more[i]).request_id)
            == parsed_id(payloads[i].text_field("tool_request_id"@)->0) by {
            if i < n {
                assert(more[i] == done[i]);
            }
        }
        lemma_registered(payloads, more);
    }
}

/// A batch that says how to resume and whose requests name tools, each with an
/// identifier of its own, is read whole.
pub proof fn complete_batches_are_read(
    native_session_id: Seq<char>,
    work_dir_ref: Seq<char>,
    payloads: Seq<JsonView>,
)
    requires
        payloads.len() <= 2_147_483_648,
    ensures
        !blank(native_session_id) && !blank(work_dir_ref) && payloads.len() > 0
            && can_be_registered(payloads) ==> batch_registrations(
            native_session_id,
            work_dir_ref,
            payloads,
        ) is Ok,
        blank(native_session_id) || blank(work_dir_ref) || payloads.len() == 0
            ==> batch_registrations(native_session_id, work_dir_ref, payloads)->Err_0.status
            == Status::BadRequest && batch_registrations(native_session_id, work_dir_ref, payloads)
            is Err,
{
    if can_be_registered(payloads) {
        lemma_registered(payloads, seq![]);
    }
}

/// The first step of a batch that is accepted for a run, and the run's own
/// session tools come before everything else.
pub proof fn batches_are_for_their_run(claimed: Option<Id>, owned: Id, run: BatchRun)
    ensures
        batch_next(claimed, BatchState::Run(owned), BatchEvent::RunIs(None)).1 matches
            BatchAction::Refuse(e) && e.status == Status::Forbidden,
        ({
            let next = batch_next(claimed, BatchState::Run(owned), BatchEvent::RunIs(Some(run)));
            let asks = run.integration_session_id == claimed && (claimed is Some
                || run.client_managed);
            &&& !asks <==> next.1 is Refuse && (next.1->Refuse_0).status == Status::Forbidden
            &&& asks && claimed is Some ==> next == (
                BatchState::SessionTools(owned, run),
                BatchAction::LockSessionTools(claimed->0),
            )
            &&& asks && claimed is None ==> next == (
                BatchState::Permission(owned, run),
                BatchAction::FindPermission,
            )
        }),
{
}

/// A batch goes on as long as each thing that it depends on holds, and ends
/// with the right refusal where one does not.
pub proof fn batches_go_step_by_step(
    claimed: Option<Id>,
    owned: Id,
    run: BatchRun,
    holds: bool,
    rows: u64,
    e: Refusal,
)
    ensures
        batch_next(claimed, BatchState::Agent, BatchEvent::AgentActive(true)) == (
            BatchState::Session,
            BatchAction::LockSession,
        ),
        batch_next(claimed, BatchState::Agent, BatchEvent::AgentActive(false)).1 matches
            BatchAction::Refuse(r) && r.status == Status::Forbidden,
        batch_next(claimed, BatchState::Session, BatchEvent::SessionOwned(owned)) == (
            BatchState::Run(owned),
            BatchAction::FindRun,
        ),
        ({
            let next = batch_next(
                claimed,
                BatchState::SessionTools(owned, run),
                BatchEvent::SessionToolsFound(holds),
            );
            &&& !holds ==> next.1 is Refuse && (next.1->Refuse_0).status == Status::Forbidden
            &&& holds && run.client_managed ==> next == (
                BatchState::Permission(owned, run),
                BatchAction::FindPermission,
            )
            &&& holds && !run.client_managed && run.hub_session_id == owned ==> next == (
                BatchState::Tools(run),
                BatchAction::CheckTools { client_managed: false },
            )
            &&& holds && !run.client_managed && run.hub_session_id != owned ==> next.1 is Refuse
                && (next.1->Refuse_0).status == Status::Conflict
        }),
        ({
            let next = batch_next(
                claimed,
                BatchState::Permission(owned, run),
                BatchEvent::ClientToolsAllowed(holds),
            );
            &&& !holds ==> next.1 is Refuse && (next.1->Refuse_0).status == Status::Forbidden
            &&& holds && run.hub_session_id == owned ==> next == (
                BatchState::Tools(run),
                BatchAction::CheckTools { client_managed: run.client_managed },
            )
            &&& holds && run.hub_session_id != owned ==> next.1 is Refuse && (
            next.1->Refuse_0).status == Status::Conflict
        }),
        ({
            let next = batch_next(
                claimed,
                BatchState::Tools(run),
                BatchEvent::ToolsRegistered(holds),
            );
            &&& !holds ==> next.1 is Refuse && (next.1->Refuse_0).status == Status::Forbidden
            &&& holds && !run.waiting ==> next == (
                BatchState::Transition(run.client_managed),
                BatchAction::SuspendRun,
            )
            &&& holds && run.waiting && run.resume_matches ==> next == (
                BatchState::Replay,
                BatchAction::CheckReplay,
            )
            &&& holds && run.waiting && !run.resume_matches ==> next.1 is Refuse && (
            next.1->Refuse_0).status == Status::Conflict
        }),
        batch_next(claimed, BatchState::Replay, BatchEvent::ReplayIs(Ok(()))) == (
            BatchState::Closed,
            BatchAction::Finish,
        ),
        batch_next(claimed, BatchState::Replay, BatchEvent::ReplayIs(Err(e))) == (
            BatchState::Closed,
            BatchAction::Refuse(e),
        ),
        ({
            let next = batch_next(
                claimed,
                BatchState::Transition(holds),
                BatchEvent::Changed(rows),
            );
            &&& rows == 1 ==> next == (
                BatchState::Recording,
                BatchAction::RecordRequests { client_managed: holds },
            )
            &&& rows != 1 ==> next.1 is Refuse && (next.1->Refuse_0).status == Status::Internal
        }),
        batch_next(claimed, BatchState::Recording, BatchEvent::Recorded) == (
            BatchState::Turn,
            BatchAction::SuspendTurn,
        ),
        ({
            let next = batch_next(claimed, BatchState::Turn, BatchEvent::Changed(rows));
            &&& rows == 1 ==> next == (BatchState::Freeing, BatchAction::FreeSession)
            &&& rows != 1 ==> next.1 is Refuse && (next.1->Refuse_0).status == Status::Conflict
        }),
        ({
            let next = batch_next(claimed, BatchState::Freeing, BatchEvent::Changed(rows));
            &&& rows == 1 ==> next == (BatchState::Closed, BatchAction::Finish)
            &&& rows != 1 ==> next.1 is Refuse && (next.1->Refuse_0).status == Status::Conflict
        }),
{
}

/// Every tool that a batch asks for must be one of the registered ones.
pub proof fn batches_ask_for_registered_tools(
    tools: JsonView,
    requests: Seq<RegistrationView>,
    request: RegistrationView,
)
    ensures
        all_registered(tools, seq![]),
        all_registered(tools, requests.push(request)) <==> all_registered(tools, requests)
            && tool_registered(tools, request.tool_name),
{
    let all = requests.push(request);
    assert(all[requests.len() as int] == request);
    if all_registered(tools, all) {
        assert forall|i: int| 0 <= i < requests.len() implies tool_registered(
            tools,
            (#[trigger] requests[i]).tool_name,
        ) by {
            assert(all[i] == requests[i]);
        }
    }
    if all_registered(tools, requests) && tool_registered(tools, request.tool_name) {
        assert forall|i: int| 0 <= i < all.len() implies tool_registered(
            tools,
            (#[trigger] all[i]).tool_name,
        ) by {
            if i < requests.len() {
                assert(all[i] == requests[i]);
            }
        }
    }
}

/// An integration has half an hour for its tools, a client what it was given.
pub proof fn tools_have_their_time(client_minutes: u32)
    ensures
        waiting_minutes(false, client_minutes) == 30,
        waiting_minutes(true, client_minutes) == client_minutes,
{
}

/// A client is told of a call everything that it needs to answer it; an
/// integration is told what the runtime sent.
pub proof fn calls_are_told_whole(
    request: RegistrationView,
    payload: JsonView,
    run_id: Id,
    expires_at: Seq<char>,
)
    ensures
        request_event(false, request, payload, run_id, expires_at) == payload,
        ({
            let event = request_event(true, request, payload, run_id, expires_at);
            &&& event.field("arguments"@) == Some(request.arguments)
            &&& event.text_field("batch_id"@) == Some(hyphenated_id(run_id))
            &&& event.text_field("expires_at"@) == Some(expires_at)
            &&& event.text_field("tool_call_id"@) == Some(hyphenated_id(request.request_id))
            &&& event.text_field("tool_name"@) == Some(request.tool_name)
            &&& event->Object_0.len() == 5
        }),
{
    reveal_strlit("arguments");
    reveal_strlit("batch_id");
    reveal_strlit("expires_at");
    reveal_strlit("tool_call_id");
    reveal_strlit("tool_name");
    assert("arguments"@.len() == 9 && "batch_id"@.len() == 8 && "expires_at"@.len() == 10);
    assert("tool_call_id"@.len() == 12 && "tool_name"@.len() == 9);
    assert("arguments"@[0] == 'a' && "tool_name"@[0] == 't');
    reveal_with_fuel(crate::json::field_from, 6);
}

/// What is recorded of a batch is what it said, with one event for each of its
/// requests.
pub proof fn batches_are_recorded_as_asked(
    native_session_id: Seq<char>,
    work_dir_ref: Seq<char>,
    status: JsonView,
    payloads: Seq<JsonView>,
    requests: Seq<RegistrationView>,
    run_id: Id,
    client_managed: bool,
    expires_at: Seq<char>,
)
    ensures
        ({
            let record = batch_record(
                native_session_id,
                work_dir_ref,
                status,
                payloads,
                requests,
                run_id,
                client_managed,
                expires_at,
            );
            &&& record.native_session_id == native_session_id
            &&& record.work_dir_ref == work_dir_ref
            &&& record.status == status
            &&& record.requests == requests
            &&& record.events.len() == requests.len()
            &&& !client_managed && payloads.len() == requests.len() ==> record.events == payloads
        }),
{
}

/// A stored request is the same one where its identifier, its place, its tool
/// and its arguments are.
pub proof fn requests_are_known_by_their_parts(stored: RegistrationView, request: RegistrationView)
    ensures
        same_request(stored, request) <==> stored.request_id == request.request_id
            && stored.position == request.position && stored.tool_name == request.tool_name
            && json_eq(stored.arguments, request.arguments),
{
}

/// An event names its request by either of two names, the first before the
/// second.
pub proof fn events_name_their_request(payload: JsonView)
    ensures
        payload.field("tool_request_id"@) is Some && payload.text_field("tool_request_id"@)
            is None ==> event_id(payload) is None,
        payload.text_field("tool_request_id"@) is Some && payload.field("tool_request_id"@) is Some
            ==> event_id(payload) == parsed_id(payload.text_field("tool_request_id"@)->0),
        payload.field("tool_request_id"@) is None && payload.text_field("tool_call_id"@) is Some
            ==> event_id(payload) == parsed_id(payload.text_field("tool_call_id"@)->0),
        payload.field("tool_request_id"@) is None && payload.text_field("tool_call_id"@) is None
            ==> event_id(payload) is None,
{
}

/// A cleaned request keeps its identifier and its place.
pub proof fn cleaning_keeps_the_place(
    read: RegistrationView,
    tool_name: Seq<char>,
    arguments: JsonView,
)
    ensures
        cleaned(read, tool_name, arguments).request_id == read.request_id,
        cleaned(read, tool_name, arguments).position == read.position,
        cleaned(read, tool_name, arguments).tool_name == tool_name,
        cleaned(read, tool_name, arguments).arguments == arguments,
{
}

/// A fingerprint is the digest of the run together with the whole request.
pub proof fn fingerprints_are_of_the_run_and_its_request(run_id: Id, request: JsonView)
    ensures
        batch_fingerprint(run_id, request) == text_digest(
            hyphenated_id(run_id) + ":"@ + json_text_of(request),
        ),
        (hyphenated_id(run_id) + ":"@ + json_text_of(request)).take(36) == hyphenated_id(run_id),
{
    crate::ids::lemma_hyphenated_id(run_id);
    assert((hyphenated_id(run_id) + ":"@ + json_text_of(request)).take(36) =~= hyphenated_id(
        run_id,
    ));
}

} // verus!
