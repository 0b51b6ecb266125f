//! Routing and request handling for the two routes the service exposes,
//! `GET /health` and `POST /subscriptions`, and the subscriber repository:
//! the row a successful submission appends and the mapping from storage
//! outcomes to HTTP status codes.
//!
//! The core never performs I/O itself. `handle_request` carries a request as
//! far as pure computation can; when a well-formed submission needs its row
//! inserted, it hands the finished row out as a [`HandleStep::Insert`], and
//! the caller reports the storage outcome back through [`subscribe`].

use vstd::prelude::*;
use crate::form::{lossy_utf8, parse_subscription_form, spec_form_fields};

verus! {

/// One subscription submission: the two fields a well-formed form body must
/// carry, exactly once each.
pub struct SubscribeFormData {
    pub name: String,
    pub email: String,
}

/// An HTTP response as the core produces it: a status code and a body.
/// Every response of this service carries an empty body; in particular no
/// storage error detail ever reaches a caller.
pub struct Response {
    pub status: u16,
    pub body: Vec<u8>,
}

/// The request methods the router distinguishes. Anything that is neither
/// `GET` nor `POST` falls under `Other` and is never routed to a handler.
#[derive(Clone, Copy, Debug, PartialEq, Eq, Structural)]
pub enum Method {
    Get,
    Post,
    Other,
}

/// A stored subscriber row: a server-generated random identifier, the
/// submitted fields, and the insert-time UTC clock in microseconds since the
/// epoch. Neither `id` nor `subscribed_at_micros` is ever client-supplied.
pub struct SubscriptionRecord {
    pub id: u128,
    pub email: String,
    pub name: String,
    pub subscribed_at_micros: i64,
}

/// A storage-layer failure, carrying enough context for logging. The detail
/// is for the log sink only; responses never include it.
pub struct RepositoryError {
    pub detail: String,
}

/// What handling one request asks of the surroundings: either a finished
/// response, or one row to insert, after which [`subscribe`] maps the
/// storage outcome to the response.
pub enum HandleStep {
    Respond(Response),
    Insert(SubscriptionRecord),
}

/// A version-4 identifier: the version nibble is 4 and the variant bits are
/// the RFC ones.
pub open spec fn is_v4_id(id: u128) -> bool {
    (id >> 76) & 0xf == 4 && (id >> 62) & 0x3 == 2
}

/// Relies on `uuid::Uuid::new_v4` (read back through `Uuid::as_u128`): a
/// random identifier whose version nibble is 4 and whose variant bits are
/// the RFC ones; nothing else is assumed of the value.
#[verifier::external_body]
fn fresh_subscriber_id() -> (r: u128)
    ensures
        is_v4_id(r),
{
    uuid::Uuid::new_v4().as_u128()
}

/// Relies on `chrono::Utc::now` (read back through
/// `DateTime::timestamp_micros`) for the insert-time wall clock; nothing is
/// assumed of the value.
#[verifier::external_body]
fn current_timestamp_micros() -> (t: i64) {
    chrono::Utc::now().timestamp_micros()
}

/// Builds the one row a successful submission appends: a fresh
/// server-generated identifier, the submission's fields unchanged, and the
/// insert-time clock. The surrounding binary executes the single insert
/// statement with exactly these values, so on success exactly this row is
/// appended and on failure none is.
pub fn insert_subscriber(form: &SubscribeFormData) -> (rec: SubscriptionRecord)
    ensures
        rec.email@ == form.email@,
        rec.name@ == form.name@,
        is_v4_id(rec.id),
{
    SubscriptionRecord {
        id: fresh_subscriber_id(),
        email: form.email.clone(),
        name: form.name.clone(),
        subscribed_at_micros: current_timestamp_micros(),
    }
}

/// The status `subscribe` answers for a storage outcome: 200 on success,
/// an opaque 500 on failure.
pub open spec fn spec_subscribe_status(ok: bool) -> int {
    if ok {
        200
    } else {
        500
    }
}

/// Maps the repository outcome of a decoded submission to its response:
/// success gives 200, a storage failure an opaque 500, the body empty either
/// way. The error itself is for the log sink; it never reaches the caller.
pub fn subscribe(insert_result: &Result<(), RepositoryError>) -> (r: Response)
    ensures
        r.status as int == spec_subscribe_status(insert_result is Ok),
        r.body@.len() == 0,
{
    if insert_result.is_ok() {
        Response { status: 200, body: Vec::new() }
    } else {
        Response { status: 500, body: Vec::new() }
    }
}

/// Handler for `GET /health`: always succeeds with an empty body and never
/// touches storage.
pub fn health() -> (r: Response)
    ensures
        r.status == 200,
        r.body@.len() == 0,
{
    Response { status: 200, body: Vec::new() }
}

/// The path `/health`, as bytes.
pub open spec fn health_path() -> Seq<u8> {
    seq![47u8, 104u8, 101u8, 97u8, 108u8, 116u8, 104u8]
}

/// The path `/subscriptions`, as bytes.
pub open spec fn subscriptions_path() -> Seq<u8> {
    seq![
        47u8,
        115u8,
        117u8,
        98u8,
        115u8,
        99u8,
        114u8,
        105u8,
        112u8,
        116u8,
        105u8,
        111u8,
        110u8,
        115u8,
    ]
}

fn is_health_path(p: &[u8]) -> (r: bool)
    ensures
        r == (p@ == health_path()),
{
    let r = p.len() == 7 && p[0] == 47 && p[1] == 104 && p[2] == 101 && p[3] == 97 && p[4] == 108
        && p[5] == 116 && p[6] == 104;
    proof {
        assert(health_path().len() == 7);
        assert(health_path()[0] == 47 && health_path()[1] == 104 && health_path()[2] == 101
            && health_path()[3] == 97 && health_path()[4] == 108 && health_path()[5] == 116
            && health_path()[6] == 104);
        if r {
            assert(p@ =~= health_path());
        }
    }
    r
}

fn is_subscriptions_path(p: &[u8]) -> (r: bool)
    ensures
        r == (p@ == subscriptions_path()),
{
    let r = p.len() == 14 && p[0] == 47 && p[1] == 115 && p[2] == 117 && p[3] == 98 && p[4] == 115
        && p[5] == 99 && p[6] == 114 && p[7] == 105 && p[8] == 112 && p[9] == 116 && p[10] == 105
        && p[11] == 111 && p[12] == 110 && p[13] == 115;
    proof {
        assert(subscriptions_path().len() == 14);
        assert(subscriptions_path()[0] == 47 && subscriptions_path()[1] == 115
            && subscriptions_path()[2] == 117 && subscriptions_path()[3] == 98
            && subscriptions_path()[4] == 115 && subscriptions_path()[5] == 99
            && subscriptions_path()[6] == 114 && subscriptions_path()[7] == 105
            && subscriptions_path()[8] == 112 && subscriptions_path()[9] == 116
            && subscriptions_path()[10] == 105 && subscriptions_path()[11] == 111
            && subscriptions_path()[12] == 110 && subscriptions_path()[13] == 115);
        if r {
            assert(p@ =~= subscriptions_path());
        }
    }
    r
}

/// The static routing table, resolved once: the status the service answers
/// immediately, or `None` when the request is a well-formed submission and
/// the response depends on the storage outcome instead.
pub open spec fn spec_handle_status(m: Method, path: Seq<u8>, body: Seq<u8>) -> Option<int> {
    if m == Method::Get && path == health_path() {
        Some(200int)
    } else if m == Method::Post && path == subscriptions_path() {
        if spec_form_fields(body) is Some {
            None
        } else {
            Some(400int)
        }
    } else {
        Some(404int)
    }
}

/// Dispatches one request by method and path and carries it as far as pure
/// computation can. `GET /health` and every unrouted request get their
/// response at once; a `POST /subscriptions` body that does not decode gets
/// 400 before any handler work; a well-formed submission comes back as the
/// one row to insert, its fields exactly the decoded ones.
pub fn handle_request(method: Method, path: &[u8], body: &[u8]) -> (s: HandleStep)
    ensures
        match spec_handle_status(method, path@, body@) {
            Some(st) => s matches HandleStep::Respond(r) && r.status as int == st && r.body@.len()
                == 0,
            None => s matches HandleStep::Insert(rec) && spec_form_fields(body@) matches Some(p)
                && rec.name@ == lossy_utf8(p.0) && rec.email@ == lossy_utf8(p.1) && is_v4_id(
                rec.id,
            ),
        },
{
    match method {
        Method::Get => {
            if is_health_path(path) {
                HandleStep::Respond(health())
            } else {
                HandleStep::Respond(Response { status: 404, body: Vec::new() })
            }
        },
        Method::Post => {
            if is_subscriptions_path(path) {
                match parse_subscription_form(body) {
                    Some(form) => HandleStep::Insert(insert_subscriber(&form)),
                    None => HandleStep::Respond(Response { status: 400, body: Vec::new() }),
                }
            } else {
                HandleStep::Respond(Response { status: 404, body: Vec::new() })
            }
        },
        Method::Other => HandleStep::Respond(Response { status: 404, body: Vec::new() }),
    }
}

/// The model of the subscriptions table: its rows in insertion order. The
/// real table lives in the relational store; this model states what the one
/// insert statement does to it, and the laws and tests below speak of it.
pub struct SubscriberStore {
    pub rows: Vec<SubscriptionRecord>,
}

impl SubscriberStore {
    /// An empty table.
    pub fn new() -> (s: SubscriberStore)
        ensures
            s.rows@.len() == 0,
    {
        SubscriberStore { rows: Vec::new() }
    }

    /// A successful insert appends exactly one row; no row is updated or
    /// deleted, and every earlier row keeps its place.
    pub fn insert(&mut self, rec: SubscriptionRecord)
        ensures
            final(self).rows@ == old(self).rows@.push(rec),
    {
        self.rows.push(rec);
    }
}

/// Law: a well-formed submission posted to `/subscriptions` is not answered
/// immediately but reaches the repository, a successful outcome answers 200,
/// and the insert appends exactly one row: the table grows by one, the new
/// last row is the built record, and every earlier row keeps its place.
pub proof fn law_valid_submission_appends_one_row(
    body: Seq<u8>,
    rec: SubscriptionRecord,
    rows: Seq<SubscriptionRecord>,
)
    requires
        spec_form_fields(body) is Some,
    ensures
        spec_handle_status(Method::Post, subscriptions_path(), body) is None,
        spec_subscribe_status(true) == 200,
        rows.push(rec).len() == rows.len() + 1,
        rows.push(rec)[rows.len() as int] == rec,
        forall|i: int| 0 <= i < rows.len() ==> rows.push(rec)[i] == rows[i],
{
}

/// Law: a submission with `name` or `email` missing (or repeated) is turned
/// away before any handler work with 400, and no insert is asked for, so no
/// row appears.
pub proof fn law_missing_field_rejected(body: Seq<u8>)
    requires
        spec_form_fields(body) is None,
    ensures
        spec_handle_status(Method::Post, subscriptions_path(), body) == Some(400int),
{
}

/// Law: the liveness probe answers 200 whatever body comes with it, and its
/// answer never involves a storage step.
pub proof fn law_health_always_ok(body: Seq<u8>)
    ensures
        spec_handle_status(Method::Get, health_path(), body) == Some(200int),
{
}

/// Law: duplicate submissions are not deduplicated. Two records with the
/// same fields append two rows, one per successful call, in call order, and
/// every earlier row keeps its place.
pub proof fn law_duplicate_submission_appends_twice(
    rows: Seq<SubscriptionRecord>,
    r1: SubscriptionRecord,
    r2: SubscriptionRecord,
)
    requires
        r1.email@ == r2.email@,
        r1.name@ == r2.name@,
    ensures
        rows.push(r1).push(r2).len() == rows.len() + 2,
        rows.push(r1).push(r2)[rows.len() as int] == r1,
        rows.push(r1).push(r2)[rows.len() as int + 1] == r2,
        forall|i: int| 0 <= i < rows.len() ==> rows.push(r1).push(r2)[i] == rows[i],
{
}

} // verus!
