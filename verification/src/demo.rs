//! The sample client action room: errors, the shapes of requests and
//! answers, and the rules for sessions, client links, submissions, choices,
//! uploads, external links and reminders.

use vstd::prelude::*;
use vstd::string::StringSliceAdditionalSpecFns;

use crate::clock::{
    in_range, is_clock_time, parse_rfc3339, precedes, rfc3339_parse, shifted, UtcTime, DAY, HOUR,
    MAX_SECS, MIN_SECS, MINUTE,
};
use crate::scanner::ScanOutcome;
use crate::order::{in_deadline_order, in_key_order, order_by_deadline, order_by_time};
use crate::http::{cookie, cookie_in, cookie_of, cookie_text, find_cookie, opt_view, secure_attribute_spec, RequestHeaders};
use crate::text::{
    chars_of, copy_range, find_str, has_prefix, push_str, split_once_str,
    starts_with_str, str_eq, string_of, strip_trailing, strip_trailing_char, trim, trimmed,
};

verus! {

broadcast use vstd::string::group_string_axioms;

/// The demo session cookie.
pub const DEMO_COOKIE: &'static str = "car_demo";

/// The client session cookie.
pub const CLIENT_COOKIE: &'static str = "car_client";

/// An error answer: its HTTP status, a stable code and a message for people.
#[derive(Clone, Copy, Debug)]
pub struct ApiError {
    pub status: u16,
    pub code: &'static str,
    pub message: &'static str,
}

/// The JSON body of an error answer.
#[derive(Clone, Debug)]
pub struct ApiErrorBody {
    pub code: &'static str,
    pub message: String,
    pub request_id: String,
}

/// The error with these parts.
pub open spec fn api_error(status: u16, code: &'static str, message: &'static str) -> ApiError {
    ApiError { status, code, message }
}

/// The generic server error.
pub open spec fn internal_error() -> ApiError {
    api_error(500, "server_error", "We could not finish that request. Try again.")
}

/// The answer to a client link that no longer opens anything.
pub open spec fn link_expired_error() -> ApiError {
    api_error(410, "client_link_expired", "This client link has expired. Ask Northline Studio for a new link.")
}

/// The answer to a demo room past its lifetime.
pub open spec fn demo_expired_error() -> ApiError {
    api_error(410, "demo_expired", "This sample room has expired. Reset the demo to open a fresh copy.")
}

impl ApiError {
    /// An error with status `status`, code `code` and message `message`.
    pub fn new(status: u16, code: &'static str, message: &'static str) -> (r: ApiError)
        ensures
            r == api_error(status, code, message),
    {
        ApiError { status, code, message }
    }

    /// A 401 answer that asks the caller to sign in or open a link again.
    pub fn unauthorized(message: &'static str) -> (r: ApiError)
        ensures
            r == api_error(401, "not_authorized", message),
    {
        ApiError::new(401, "not_authorized", message)
    }

    /// The generic 500 answer.
    pub fn internal() -> (r: ApiError)
        ensures
            r == internal_error(),
    {
        ApiError::new(500, "server_error", "We could not finish that request. Try again.")
    }

    /// Whether the answer carries `WWW-Authenticate: Bearer`: only 401 does.
    pub fn challenges_bearer(&self) -> (r: bool)
        ensures
            r == (self.status == 401),
    {
        self.status == 401
    }

    /// The JSON body of the answer, tagged with `request_id`.
    pub fn body(&self, request_id: String) -> (r: ApiErrorBody)
        ensures
            r.code == self.code,
            r.message@ == self.message@,
            r.request_id == request_id,
    {
        ApiErrorBody { code: self.code, message: string_of(&chars_of(self.message)), request_id }
    }
}

/// The answer to a client link that no longer opens anything.
pub fn expired_error() -> (r: ApiError)
    ensures
        r == link_expired_error(),
{
    ApiError::new(
        410,
        "client_link_expired",
        "This client link has expired. Ask Northline Studio for a new link.",
    )
}

/// The answer to a demo room past its lifetime.
pub fn demo_expired() -> (r: ApiError)
    ensures
        r == demo_expired_error(),
{
    ApiError::new(
        410,
        "demo_expired",
        "This sample room has expired. Reset the demo to open a fresh copy.",
    )
}

/// One action in a room's queue.
#[derive(Clone, Debug)]
pub struct DemoAction {
    pub id: String,
    pub kind: String,
    pub title: String,
    pub instructions: String,
    pub due_at: String,
    pub status: String,
    pub preview_only: bool,
    pub version: i64,
}

/// One entry of a room's audit record.
#[derive(Clone, Debug)]
pub struct AuditEvent {
    pub id: String,
    pub action_id: Option<String>,
    pub event_name: String,
    pub actor_label: String,
    pub decision: Option<String>,
    pub occurred_at: String,
}

/// A room as staff see it: who is who, when it expires, its actions in
/// deadline order and its audit record in time order.
#[derive(Clone, Debug)]
pub struct DemoQueue {
    pub firm: &'static str,
    pub workspace: &'static str,
    pub staff_owner: &'static str,
    pub client_actor: &'static str,
    pub time_zone: &'static str,
    pub expires_at: String,
    pub server_now: String,
    pub actions: Vec<DemoAction>,
    pub audit: Vec<AuditEvent>,
}

/// A client link: the path that carries its token, and when it expires.
#[derive(Clone, Debug)]
pub struct LinkResponse {
    pub path: String,
    pub expires_at: String,
}

/// Staff's request for a new approval.
#[derive(Clone, Debug)]
pub struct CreateActionRequest {
    pub title: String,
    pub instructions: String,
    pub due_at: String,
}

/// A client's request to trade a link token for a client session.
#[derive(Clone, Debug)]
pub struct ExchangeRequest {
    pub token: String,
}

/// The one action that a client session opens, with what the client may do.
#[derive(Clone, Debug)]
pub struct ClientActionResponse {
    pub firm: &'static str,
    pub workspace: &'static str,
    pub client_actor: &'static str,
    pub link_expires_at: String,
    pub action: DemoAction,
    pub submission: Option<SubmissionResponse>,
    pub choices: Vec<ActionChoice>,
    pub external_url: Option<String>,
    pub destination_host: Option<String>,
}

/// One listed option of a choice action.
#[derive(Clone, Debug)]
pub struct ActionChoice {
    pub key: String,
    pub label: String,
}

/// A client's choice of one listed option.
#[derive(Clone, Debug)]
pub struct ChoiceRequest {
    pub actor_label: String,
    pub option_key: String,
}

/// A client's record of opening an external link.
#[derive(Clone, Debug)]
pub struct VisitRequest {
    pub actor_label: String,
}

/// The record of a completed choice, upload or external visit.
#[derive(Clone, Debug)]
pub struct CompletionResponse {
    pub kind: String,
    pub actor_label: String,
    pub detail: String,
    pub occurred_at: String,
    pub destination_url: Option<String>,
}

/// A scheduled reminder.
#[derive(Clone, Debug)]
pub struct ReminderResponse {
    pub scheduled_for: String,
    pub status: &'static str,
}

/// A client's answer to an approval.
#[derive(Clone, Debug)]
pub struct SubmissionRequest {
    pub actor_label: String,
    pub decision: String,
    pub comment: String,
}

/// The recorded answer to an approval; `replayed` when it was recorded before.
#[derive(Clone, Debug)]
pub struct SubmissionResponse {
    pub id: String,
    pub actor_label: String,
    pub decision: String,
    pub comment: String,
    pub occurred_at: String,
    pub replayed: bool,
}

/// The error for an actor label that is empty or longer than 80 characters
/// once trimmed.
pub open spec fn actor_error(actor: Seq<char>) -> Option<ApiError> {
    if 1 <= trim(actor).len() <= 80 {
        None
    } else {
        Some(
            api_error(
                422,
                "invalid_actor_label",
                "Enter the name that should appear in the record.",
            ),
        )
    }
}

/// The answer that an optional error gives.
pub open spec fn outcome(e: Option<ApiError>) -> Result<(), ApiError> {
    match e {
        Some(e) => Err(e),
        None => Ok(()),
    }
}

/// Checks the name that will appear in the record: 1 to 80 characters once trimmed.
pub fn validate_actor(actor: &str) -> (r: Result<(), ApiError>)
    ensures
        r == outcome(actor_error(actor@)),
{
    let t = trimmed(&chars_of(actor));
    if t.len() < 1 || t.len() > 80 {
        return Err(
            ApiError::new(
                422,
                "invalid_actor_label",
                "Enter the name that should appear in the record.",
            ),
        );
    }
    Ok(())
}

/// The first problem with an approval answer, if any.
pub open spec fn submission_error(p: &SubmissionRequest) -> Option<ApiError> {
    if actor_error(p.actor_label@) is Some {
        actor_error(p.actor_label@)
    } else if !(p.decision@ == "approved"@ || p.decision@ == "changes_requested"@) {
        Some(api_error(422, "invalid_decision", "Choose approve or ask for changes."))
    } else if p.comment@.len() > 1000 {
        Some(api_error(422, "comment_too_long", "Keep the note under 1,000 characters."))
    } else if p.decision@ == "changes_requested"@ && trim(p.comment@).len() == 0 {
        Some(
            api_error(
                422,
                "comment_required",
                "Say what needs to change, then send the answer again.",
            ),
        )
    } else {
        None
    }
}

/// Checks an approval answer: a named actor, a decision of `approved` or
/// `changes_requested`, a note of at most 1,000 characters, and a note
/// whenever changes are requested.
pub fn validate_submission(payload: &SubmissionRequest) -> (r: Result<(), ApiError>)
    ensures
        r == outcome(submission_error(payload)),
{
    validate_actor(payload.actor_label.as_str())?;
    let approved = str_eq(payload.decision.as_str(), "approved");
    let changes = str_eq(payload.decision.as_str(), "changes_requested");
    if !(approved || changes) {
        return Err(ApiError::new(422, "invalid_decision", "Choose approve or ask for changes."));
    }
    let comment = chars_of(payload.comment.as_str());
    if comment.len() > 1000 {
        return Err(ApiError::new(422, "comment_too_long", "Keep the note under 1,000 characters."));
    }
    if changes && trimmed(&comment).len() == 0 {
        return Err(
            ApiError::new(
                422,
                "comment_required",
                "Say what needs to change, then send the answer again.",
            ),
        );
    }
    Ok(())
}

/// The host that an `Origin` header names: the text after `://`, trailing
/// slashes removed, or nothing when it has no scheme.
pub open spec fn origin_host(origin: Seq<char>) -> Seq<char> {
    match split_once_str(origin, "://"@) {
        Some(parts) => strip_trailing(parts.1, '/'),
        None => seq![],
    }
}

/// The answer of the same-origin check for a browser write.
pub open spec fn same_origin_error(headers: &RequestHeaders) -> Option<ApiError> {
    match opt_view(headers.origin) {
        None => None,
        Some(o) => {
            let host = match opt_view(headers.host) {
                Some(h) => h,
                None => seq![],
            };
            if origin_host(o) != host {
                Some(
                    api_error(
                        403,
                        "cross_origin_denied",
                        "Open the client link again before sending your answer.",
                    ),
                )
            } else {
                None
            }
        },
    }
}

/// Refuses a browser write whose `Origin` names another host than `Host`;
/// requests without an `Origin` pass.
pub fn enforce_same_origin(headers: &RequestHeaders) -> (r: Result<(), ApiError>)
    ensures
        r == outcome(same_origin_error(headers)),
{
    match &headers.origin {
        None => Ok(()),
        Some(origin) => {
            let o = chars_of(origin.as_str());
            proof {
                reveal_strlit("://");
            }
            assert("://"@.len() == 3);
            let origin_host: Vec<char> = match find_str(&o, "://") {
                Some(i) => {
                    let after = copy_range(&o, i + 3, o.len());
                    assert(after@ =~= o@.skip(i + "://"@.len()));
                    strip_trailing_char(&after, '/')
                },
                None => Vec::new(),
            };
            let host: Vec<char> = match &headers.host {
                Some(h) => chars_of(h.as_str()),
                None => Vec::new(),
            };
            assert(origin_host@ == crate::demo::origin_host(o@));
            if !crate::text::chars_eq(&origin_host, &host) {
                return Err(
                    ApiError::new(
                        403,
                        "cross_origin_denied",
                        "Open the client link again before sending your answer.",
                    ),
                );
            }
            Ok(())
        },
    }
}

/// The whole value of cookie `name` in the request.
pub fn cookie_value(headers: &RequestHeaders, name: &str) -> (r: Option<String>)
    ensures
        match opt_view(headers.cookie) {
            Some(h) => match cookie_in(h, name@) {
                Some(v) => r matches Some(s) && s@ == v,
                None => r is None,
            },
            None => r is None,
        },
{
    match &headers.cookie {
        Some(h) => match find_cookie(h.as_str(), name) {
            Some(v) => Some(string_of(&v)),
            None => None,
        },
        None => None,
    }
}

/// The `Set-Cookie` text of a demo session cookie.
pub fn demo_cookie(id: &str, headers: &RequestHeaders, max_age: u64) -> (r: String)
    ensures
        r@ == cookie_text(DEMO_COOKIE@, id@, max_age as nat, secure_attribute_spec(headers)@),
{
    cookie(DEMO_COOKIE, id, headers, max_age)
}

/// The `Set-Cookie` text of a client session cookie.
pub fn client_cookie(id: &str, headers: &RequestHeaders, max_age: u64) -> (r: String)
    ensures
        r@ == cookie_text(CLIENT_COOKIE@, id@, max_age as nat, secure_attribute_spec(headers)@),
{
    cookie(CLIENT_COOKIE, id, headers, max_age)
}


/// A clock reading far enough from both ends of the supported years that
/// every lifetime the service adds or subtracts stays inside them.
pub open spec fn usable_now(now: UtcTime) -> bool {
    &&& is_clock_time(now)
    &&& MIN_SECS + 8 * DAY <= now.secs <= MAX_SECS - 36_500 * DAY
}

/// The instant that stored RFC 3339 text names, or the server error when
/// the text cannot be read.
pub open spec fn parsed_time(text: Seq<char>) -> Result<UtcTime, ApiError> {
    match rfc3339_parse(text) {
        Some(p) => Ok(UtcTime { secs: p.0, nanos: p.1 }),
        None => Err(internal_error()),
    }
}

/// Reads a stored RFC 3339 time; unreadable text is a server error.
pub fn parse_time(value: &str) -> (r: Result<UtcTime, ApiError>)
    ensures
        r == parsed_time(value@),
        r matches Ok(t) ==> crate::clock::nanos_fit(t.secs, t.nanos),
{
    match parse_rfc3339(value) {
        Some(t) => Ok(t),
        None => Err(ApiError::internal()),
    }
}

/// The RFC 3339 text under which an instant is stored and shown; reading
/// it back with `parse_time` gives the same instant.
pub fn format_time(t: UtcTime) -> (r: String)
    requires
        in_range(t),
    ensures
        r@ == crate::clock::rfc3339_text(t.secs, t.nanos),
        parsed_time(r@) == Ok::<UtcTime, ApiError>(t),
{
    t.to_rfc3339()
}

/// The answer to a room that is gone or past its lifetime.
pub open spec fn room_check(now: UtcTime, expires_at: Option<Seq<char>>) -> Result<(), ApiError> {
    match expires_at {
        None => Err(demo_expired_error()),
        Some(text) => match parsed_time(text) {
            Err(e) => Err(e),
            Ok(t) => if precedes(now, t) {
                Ok(())
            } else {
                Err(demo_expired_error())
            },
        },
    }
}

/// Checks that a room exists and lives until after `now`; `expires_at` is
/// its stored expiry, `None` when the room is gone.
pub fn check_room_live(now: UtcTime, expires_at: Option<&str>) -> (r: Result<(), ApiError>)
    ensures
        r == room_check(
            now,
            match expires_at {
                Some(s) => Some(s@),
                None => None,
            },
        ),
{
    match expires_at {
        None => Err(demo_expired()),
        Some(text) => {
            let t = parse_time(text)?;
            if now.is_before(&t) {
                Ok(())
            } else {
                Err(demo_expired())
            }
        },
    }
}

/// The demo session id that the request's cookie names, or 401.
pub fn demo_session_id(headers: &RequestHeaders) -> (r: Result<String, ApiError>)
    ensures
        match opt_view(headers.cookie) {
            Some(h) if cookie_in(h, DEMO_COOKIE@) is Some => r matches Ok(s) && s@ == cookie_in(
                h,
                DEMO_COOKIE@,
            ).unwrap(),
            _ => r == Err::<String, ApiError>(
                api_error(401, "not_authorized", "Open the demo again to create a fresh sample room."),
            ),
        },
{
    match cookie_value(headers, DEMO_COOKIE) {
        Some(id) => Ok(id),
        None => Err(ApiError::unauthorized("Open the demo again to create a fresh sample room.")),
    }
}

/// The client session id that the request's cookie names, or 401 with `message`.
pub fn client_session_id(headers: &RequestHeaders, message: &'static str) -> (r: Result<
    String,
    ApiError,
>)
    ensures
        match opt_view(headers.cookie) {
            Some(h) if cookie_in(h, CLIENT_COOKIE@) is Some => r matches Ok(s) && s@ == cookie_in(
                h,
                CLIENT_COOKIE@,
            ).unwrap(),
            _ => r == Err::<String, ApiError>(api_error(401, "not_authorized", message)),
        },
{
    match cookie_value(headers, CLIENT_COOKIE) {
        Some(id) => Ok(id),
        None => Err(ApiError::unauthorized(message)),
    }
}

/// Client links live seven days.
pub const LINK_LIFETIME_SECS: i64 = 7 * DAY;

/// Client sessions live two hours, and never beyond their link.
pub const CLIENT_SESSION_SECS: i64 = 2 * HOUR;

/// Demo rooms live a day.
pub const DEMO_LIFETIME_SECS: i64 = DAY;

/// Staff rooms live ten years.
pub const STAFF_LIFETIME_SECS: i64 = 3_650 * DAY;

/// When a room made at `now` with lifetime `lifetime_secs` expires.
pub fn room_expiry(now: UtcTime, lifetime_secs: i64) -> (r: UtcTime)
    requires
        usable_now(now),
        0 <= lifetime_secs <= 36_500 * DAY,
    ensures
        r == shifted(now, lifetime_secs as int),
        in_range(r),
{
    now.plus_secs(lifetime_secs)
}

/// A sample room lasts at most a day: a room made at `created`, whose stored
/// expiry reads as a day later, opens until that instant and is answered as
/// expired from then on.
pub proof fn lemma_demo_rooms_last_a_day(created: UtcTime, now: UtcTime, expires_at: Seq<char>)
    requires
        parsed_time(expires_at) == Ok::<UtcTime, ApiError>(
            shifted(created, DEMO_LIFETIME_SECS as int),
        ),
    ensures
        room_check(now, Some(expires_at)) == (if precedes(
            now,
            shifted(created, DEMO_LIFETIME_SECS as int),
        ) {
            Ok::<(), ApiError>(())
        } else {
            Err(demo_expired_error())
        }),
{
}

/// The requests that open a sample room: create a new one, open the
/// caller's room or else a new one, and start over with a new one.
#[derive(Clone, Copy, Debug, PartialEq, Eq, Structural)]
pub enum RoomRequest {
    Create,
    Ensure,
    Reset,
}

/// What a sample-room request comes to.
#[derive(Clone, Copy, Debug, PartialEq, Eq, Structural)]
pub enum RoomPlan {
    /// Serve the live room that the caller's demo cookie names, with status
    /// 200 and no new cookie.
    Reuse,
    /// Make a new room that lives `lifetime_secs`, answer with `status` and
    /// set a demo cookie that lasts `max_age` seconds.
    Provision { status: u16, lifetime_secs: i64, max_age: u64 },
}

/// A new sample room answered with `status`: it lives a day, and so does
/// its cookie.
pub open spec fn new_room(status: u16) -> RoomPlan {
    RoomPlan::Provision { status, lifetime_secs: DEMO_LIFETIME_SECS, max_age: 86_400 }
}

/// The plan for `request`, where `live` tells whether the caller's demo
/// cookie names a room that still opens.
pub open spec fn room_plan_of(request: RoomRequest, live: bool) -> RoomPlan {
    match request {
        RoomRequest::Create => new_room(201),
        RoomRequest::Ensure => if live {
            RoomPlan::Reuse
        } else {
            new_room(201)
        },
        RoomRequest::Reset => new_room(200),
    }
}

/// Decides how a sample-room request is answered.
pub fn room_plan(request: RoomRequest, live: bool) -> (r: RoomPlan)
    ensures
        r == room_plan_of(request, live),
{
    match request {
        RoomRequest::Create => RoomPlan::Provision {
            status: 201,
            lifetime_secs: DEMO_LIFETIME_SECS,
            max_age: 86_400,
        },
        RoomRequest::Ensure => if live {
            RoomPlan::Reuse
        } else {
            RoomPlan::Provision { status: 201, lifetime_secs: DEMO_LIFETIME_SECS, max_age: 86_400 }
        },
        RoomRequest::Reset => RoomPlan::Provision {
            status: 200,
            lifetime_secs: DEMO_LIFETIME_SECS,
            max_age: 86_400,
        },
    }
}

/// Opening a sample room: creating one always makes a new room, answered
/// with 201 and a cookie; ensuring one serves the caller's live room with
/// 200 and no new cookie, and otherwise makes a new room as creating does;
/// resetting makes a new room answered with 200. Every new room lives 24
/// hours, and its cookie just as long.
pub proof fn lemma_sample_room_sessions(live: bool)
    ensures
        room_plan_of(RoomRequest::Create, live) == new_room(201),
        room_plan_of(RoomRequest::Ensure, live) == (if live {
            RoomPlan::Reuse
        } else {
            room_plan_of(RoomRequest::Create, live)
        }),
        room_plan_of(RoomRequest::Reset, live) == new_room(200),
        forall|status: u16|
            #![trigger new_room(status)]
            new_room(status) matches RoomPlan::Provision { lifetime_secs, max_age, .. } && lifetime_secs
                == 24 * 3600 && max_age == lifetime_secs,
{
}

/// The path that opens a client link: the token travels in the fragment.
pub fn client_link_path(token: &str) -> (r: String)
    ensures
        r@ == "/client#access="@ + token@,
{
    let mut out: Vec<char> = Vec::new();
    push_str(&mut out, "/client#access=");
    push_str(&mut out, token);
    string_of(&out)
}

/// A new client link for `token`, issued at `now`: it expires seven days later.
pub fn issued_link(token: &str, now: UtcTime) -> (r: LinkResponse)
    requires
        usable_now(now),
    ensures
        r.path@ == "/client#access="@ + token@,
        r.expires_at@ == crate::clock::rfc3339_text(
            (now.secs + LINK_LIFETIME_SECS) as i64,
            now.nanos,
        ),
        parsed_time(r.expires_at@) == Ok::<UtcTime, ApiError>(
            shifted(now, LINK_LIFETIME_SECS as int),
        ),
{
    let expires = now.plus_secs(LINK_LIFETIME_SECS);
    LinkResponse { path: client_link_path(token), expires_at: expires.to_rfc3339() }
}

/// The audit event that issuing a link for an action of `kind` records.
pub open spec fn link_event_of(kind: Seq<char>) -> &'static str {
    if kind == "upload"@ {
        "upload_link_issued"
    } else if kind == "choice"@ {
        "choice_link_issued"
    } else if kind == "external_link"@ {
        "external_link_issued"
    } else {
        "client_link_issued"
    }
}

/// The audit event that issuing a link for an action of `kind` records.
pub fn link_issued_event(kind: &str) -> (r: &'static str)
    ensures
        r == link_event_of(kind@),
{
    if str_eq(kind, "upload") {
        "upload_link_issued"
    } else if str_eq(kind, "choice") {
        "choice_link_issued"
    } else if str_eq(kind, "external_link") {
        "external_link_issued"
    } else {
        "client_link_issued"
    }
}

/// Refuses a link for a completed sample action.
pub fn check_publishable(status: &str) -> (r: Result<(), ApiError>)
    ensures
        r == (if status@ == "completed"@ {
            Err(
                api_error(
                    409,
                    "already_completed",
                    "This action is already complete. Reset the demo to try it again.",
                ),
            )
        } else {
            Ok(())
        }),
{
    if str_eq(status, "completed") {
        return Err(
            ApiError::new(
                409,
                "already_completed",
                "This action is already complete. Reset the demo to try it again.",
            ),
        );
    }
    Ok(())
}

/// The answer to a missing sample action.
pub fn action_not_found() -> (r: ApiError)
    ensures
        r == api_error(
            404,
            "action_not_found",
            "That sample action is not available. Reset the demo and try again.",
        ),
{
    ApiError::new(
        404,
        "action_not_found",
        "That sample action is not available. Reset the demo and try again.",
    )
}

/// The sample expired link: made eight days before `now`, expired an hour before it.
pub fn expired_link_times(now: UtcTime) -> (r: (UtcTime, UtcTime))
    requires
        usable_now(now),
    ensures
        r.0 == shifted(now, -8 * DAY),
        r.1 == shifted(now, -HOUR),
        in_range(r.0),
        in_range(r.1),
        precedes(r.1, now),
{
    (now.plus_secs(-8 * DAY), now.plus_secs(-HOUR))
}

/// Whether a presented link token has a plausible length: 32 to 128 bytes.
pub fn exchange_token_acceptable(token: &str) -> (r: bool)
    ensures
        r == (32 <= token.spec_bytes().len() <= 128),
{
    let n = token.as_bytes().len();
    32 <= n && n <= 128
}


/// What a link exchange gives: the client session's expiry, or why the link
/// no longer opens anything.
pub open spec fn exchange_result(
    now: UtcTime,
    grant_expires: Seq<char>,
    session_expires: Seq<char>,
    revoked: bool,
) -> Result<UtcTime, ApiError> {
    match parsed_time(grant_expires) {
        Err(e) => Err(e),
        Ok(g) => match parsed_time(session_expires) {
            Err(e) => Err(e),
            Ok(s) => if !precedes(now, g) || !precedes(now, s) || revoked {
                Err(link_expired_error())
            } else if precedes(shifted(now, CLIENT_SESSION_SECS as int), g) {
                Ok(shifted(now, CLIENT_SESSION_SECS as int))
            } else {
                Ok(g)
            },
        },
    }
}

/// Decides a link exchange at `now` for a grant that expires at
/// `grant_expires` in a room that expires at `session_expires`: a live,
/// unrevoked link opens a client session for two hours, never longer than
/// the link itself.
pub fn exchange_grant(now: UtcTime, grant_expires: &str, session_expires: &str, revoked: bool) -> (r:
    Result<UtcTime, ApiError>)
    requires
        usable_now(now),
    ensures
        r == exchange_result(now, grant_expires@, session_expires@, revoked),
        r matches Ok(t) ==> precedes(now, t) && in_range(t),
{
    let g = parse_time(grant_expires)?;
    let s = parse_time(session_expires)?;
    if !now.is_before(&g) || !now.is_before(&s) || revoked {
        return Err(expired_error());
    }
    let cap = now.plus_secs(CLIENT_SESSION_SECS);
    let r = g.earlier(&cap);
    assert(in_range(r)) by {
        if !precedes(cap, g) {
            assert(g.secs <= cap.secs);
        }
    }
    Ok(r)
}

/// A link issued at `issued` (its stored expiry reads as seven days later)
/// opens nothing from that expiry on: an exchange is answered that the link
/// expired, and a client session scoped by it is refused. Before the expiry,
/// an unrevoked link in a live room opens a session that ends no later than
/// the link.
pub proof fn lemma_links_last_seven_days(
    issued: UtcTime,
    now: UtcTime,
    scope: ClientScope,
    session_expires: Seq<char>,
    revoked: bool,
)
    requires
        usable_now(now),
        parsed_time(scope.link_expires_at@) == Ok::<UtcTime, ApiError>(
            shifted(issued, LINK_LIFETIME_SECS as int),
        ),
    ensures
        !precedes(now, shifted(issued, LINK_LIFETIME_SECS as int)) && parsed_time(
            session_expires,
        ) is Ok ==> exchange_result(now, scope.link_expires_at@, session_expires, revoked)
            == Err::<UtcTime, ApiError>(link_expired_error()),
        !precedes(now, shifted(issued, LINK_LIFETIME_SECS as int)) ==> scope_result(
            now,
            Some(&scope),
        ) is Err,
        precedes(now, shifted(issued, LINK_LIFETIME_SECS as int)) && !revoked && (
        parsed_time(session_expires) matches Ok(s) && precedes(now, s)) ==> (exchange_result(
            now,
            scope.link_expires_at@,
            session_expires,
            revoked,
        ) matches Ok(t) && precedes(now, t) && !precedes(
            shifted(issued, LINK_LIFETIME_SECS as int),
            t,
        )),
{
}

/// The client session, its link and its room, as stored.
#[derive(Clone, Debug)]
pub struct ClientScope {
    pub client_expires_at: String,
    pub grant_id: String,
    pub action_id: String,
    pub session_id: String,
    pub link_expires_at: String,
    pub revoked: bool,
    pub demo_expires_at: String,
}

/// The answer of the client scope check: the session, its link and its room
/// must all live past `now`, read in that order, and the link be unrevoked.
pub open spec fn scope_result(now: UtcTime, scope: Option<&ClientScope>) -> Result<(), ApiError> {
    match scope {
        None => Err(
            api_error(401, "not_authorized", "Open the client link again to view this request."),
        ),
        Some(sc) => match parsed_time(sc.client_expires_at@) {
            Err(e) => Err(e),
            Ok(c) => if !precedes(now, c) {
                Err(link_expired_error())
            } else {
                match parsed_time(sc.link_expires_at@) {
                    Err(e) => Err(e),
                    Ok(l) => if !precedes(now, l) {
                        Err(link_expired_error())
                    } else {
                        match parsed_time(sc.demo_expires_at@) {
                            Err(e) => Err(e),
                            Ok(d) => if !precedes(now, d) || sc.revoked {
                                Err(link_expired_error())
                            } else {
                                Ok(())
                            },
                        }
                    },
                }
            },
        },
    }
}

/// Checks that a client session still opens its action: the session, the
/// link and the room all live past `now` and the link is not revoked.
pub fn check_client_scope(now: UtcTime, scope: Option<&ClientScope>) -> (r: Result<(), ApiError>)
    ensures
        r == scope_result(now, scope),
{
    match scope {
        None => Err(ApiError::unauthorized("Open the client link again to view this request.")),
        Some(sc) => {
            let c = parse_time(sc.client_expires_at.as_str())?;
            if !now.is_before(&c) {
                return Err(expired_error());
            }
            let l = parse_time(sc.link_expires_at.as_str())?;
            if !now.is_before(&l) {
                return Err(expired_error());
            }
            let d = parse_time(sc.demo_expires_at.as_str())?;
            if !now.is_before(&d) || sc.revoked {
                return Err(expired_error());
            }
            Ok(())
        },
    }
}

/// A client session opens its action only while it is live: the session's
/// own expiry, its link's and its room's must each read as a time after
/// `now`, and the link must not be revoked. A session whose own expiry has
/// come is refused as expired, whatever its link and room.
pub proof fn lemma_client_sessions_open_only_while_live(now: UtcTime, scope: ClientScope)
    ensures
        scope_result(now, Some(&scope)) is Ok <==> {
            &&& (parsed_time(scope.client_expires_at@) matches Ok(c) && precedes(now, c))
            &&& (parsed_time(scope.link_expires_at@) matches Ok(l) && precedes(now, l))
            &&& (parsed_time(scope.demo_expires_at@) matches Ok(d) && precedes(now, d))
            &&& !scope.revoked
        },
        parsed_time(scope.client_expires_at@) matches Ok(c) ==> (!precedes(now, c) ==> scope_result(
            now,
            Some(&scope),
        ) == Err::<(), ApiError>(link_expired_error())),
{
}

/// Refuses a client session that asks for another action than its link's.
pub fn check_link_scope(scoped_action_id: &str, action_id: &str) -> (r: Result<(), ApiError>)
    ensures
        r == (if scoped_action_id@ != action_id@ {
            Err(
                api_error(403, "outside_link_scope", "This client link cannot open that request."),
            )
        } else {
            Ok(())
        }),
{
    if !str_eq(scoped_action_id, action_id) {
        return Err(
            ApiError::new(403, "outside_link_scope", "This client link cannot open that request."),
        );
    }
    Ok(())
}

/// Refuses an answer sent through the control of another kind of action.
pub fn check_action_kind(actual: &str, expected: &str) -> (r: Result<(), ApiError>)
    ensures
        r == (if actual@ != expected@ {
            Err(api_error(422, "wrong_action_type", "Use the control shown for this request."))
        } else {
            Ok(())
        }),
{
    if !str_eq(actual, expected) {
        return Err(
            ApiError::new(422, "wrong_action_type", "Use the control shown for this request."),
        );
    }
    Ok(())
}

/// The `Idempotency-Key` of an approval answer: 8 to 128 bytes, or 400.
pub fn idempotency_key(headers: &RequestHeaders) -> (r: Result<String, ApiError>)
    ensures
        match headers.idempotency_key {
            Some(k) if 8 <= vstd::utf8::encode_utf8(k@).len() <= 128 => r matches Ok(v) && v@ == k@,
            _ => r == Err::<String, ApiError>(
                api_error(
                    400,
                    "idempotency_key_required",
                    "Refresh the page and send your answer again.",
                ),
            ),
        },
{
    match &headers.idempotency_key {
        Some(k) => {
            let n = k.as_str().as_bytes().len();
            if 8 <= n && n <= 128 {
                Ok(k.clone())
            } else {
                Err(
                    ApiError::new(
                        400,
                        "idempotency_key_required",
                        "Refresh the page and send your answer again.",
                    ),
                )
            }
        },
        None => Err(
            ApiError::new(
                400,
                "idempotency_key_required",
                "Refresh the page and send your answer again.",
            ),
        ),
    }
}

/// The `Idempotency-Key` that an approval answer may carry: 8 to 128 bytes.
pub open spec fn idempotency_of(headers: &RequestHeaders) -> Option<Seq<char>> {
    match headers.idempotency_key {
        Some(k) => if 8 <= vstd::utf8::encode_utf8(k@).len() <= 128 {
            Some(k@)
        } else {
            None
        },
        None => None,
    }
}

/// What the checks of an approval answer that need no lookup give: the
/// same-origin rule, the answer itself, the idempotency key and then the
/// client session cookie, in that order; the key and the session id when
/// all pass.
pub open spec fn answer_preflight(headers: &RequestHeaders, payload: &SubmissionRequest) -> Result<
    (Seq<char>, Seq<char>),
    ApiError,
> {
    if same_origin_error(headers) is Some {
        Err(same_origin_error(headers).unwrap())
    } else if submission_error(payload) is Some {
        Err(submission_error(payload).unwrap())
    } else if idempotency_of(headers) is None {
        Err(
            api_error(
                400,
                "idempotency_key_required",
                "Refresh the page and send your answer again.",
            ),
        )
    } else if cookie_of(opt_view(headers.cookie), CLIENT_COOKIE@) is None {
        Err(api_error(401, "not_authorized", "Open the client link again to answer this request."))
    } else {
        Ok(
            (
                idempotency_of(headers).unwrap(),
                cookie_of(opt_view(headers.cookie), CLIENT_COOKIE@).unwrap(),
            ),
        )
    }
}

/// The checks of an approval answer that need no lookup, in order; gives
/// the idempotency key and the client session id.
pub fn check_answer(headers: &RequestHeaders, payload: &SubmissionRequest) -> (r: Result<
    (String, String),
    ApiError,
>)
    ensures
        match answer_preflight(headers, payload) {
            Ok(p) => r matches Ok(q) && q.0@ == p.0 && q.1@ == p.1,
            Err(e) => r == Err::<(String, String), ApiError>(e),
        },
{
    enforce_same_origin(headers)?;
    validate_submission(payload)?;
    let key = idempotency_key(headers)?;
    let client = client_session_id(headers, "Open the client link again to answer this request.")?;
    Ok((key, client))
}


/// A validated request for a new approval: trimmed title and instructions,
/// and the deadline it names.
#[derive(Clone, Debug)]
pub struct ActionDraft {
    pub title: String,
    pub instructions: String,
    pub due: UtcTime,
}

/// What a request for a new approval gives at `now` when deadlines may lie
/// up to `horizon_days` ahead: the trimmed title and instructions and the
/// deadline, or the first problem.
pub open spec fn draft_result(
    p: &CreateActionRequest,
    now: UtcTime,
    horizon_days: int,
    late_message: &'static str,
) -> Result<(Seq<char>, Seq<char>, UtcTime), ApiError> {
    let t = trim(p.title@);
    let ins = trim(p.instructions@);
    if t.len() == 0 || t.len() > 120 {
        Err(api_error(422, "invalid_title", "Name the approval in 120 characters or fewer."))
    } else if ins.len() == 0 || ins.len() > 2000 {
        Err(
            api_error(
                422,
                "invalid_instructions",
                "Tell the client what to review in 2,000 characters or fewer.",
            ),
        )
    } else {
        match rfc3339_parse(p.due_at@) {
            None => Err(api_error(422, "invalid_deadline", "Choose a valid deadline.")),
            Some(d) => {
                let due = UtcTime { secs: d.0, nanos: d.1 };
                if !precedes(now, due) || precedes(shifted(now, horizon_days * DAY), due) {
                    Err(api_error(422, "invalid_deadline", late_message))
                } else {
                    Ok((t, ins, due))
                }
            },
        }
    }
}

/// Checks a request for a new approval: a title of 1 to 120 characters,
/// instructions of 1 to 2,000 (both trimmed), and a readable deadline after
/// `now` and at most `horizon_days` days ahead.
pub fn validate_action_request(
    payload: &CreateActionRequest,
    now: UtcTime,
    horizon_days: i64,
    late_message: &'static str,
) -> (r: Result<ActionDraft, ApiError>)
    requires
        usable_now(now),
        1 <= horizon_days <= 36_500,
    ensures
        match draft_result(payload, now, horizon_days as int, late_message) {
            Ok(d) => r matches Ok(x) && x.title@ == d.0 && x.instructions@ == d.1 && x.due == d.2,
            Err(e) => r == Err::<ActionDraft, ApiError>(e),
        },
        r matches Ok(x) ==> in_range(x.due),
{
    let title = trimmed(&chars_of(payload.title.as_str()));
    let instructions = trimmed(&chars_of(payload.instructions.as_str()));
    if title.len() == 0 || title.len() > 120 {
        return Err(
            ApiError::new(422, "invalid_title", "Name the approval in 120 characters or fewer."),
        );
    }
    if instructions.len() == 0 || instructions.len() > 2000 {
        return Err(
            ApiError::new(
                422,
                "invalid_instructions",
                "Tell the client what to review in 2,000 characters or fewer.",
            ),
        );
    }
    let due = match parse_rfc3339(payload.due_at.as_str()) {
        Some(d) => d,
        None => {
            return Err(ApiError::new(422, "invalid_deadline", "Choose a valid deadline."));
        },
    };
    let latest = now.plus_secs(horizon_days * DAY);
    if !now.is_before(&due) || latest.is_before(&due) {
        return Err(ApiError::new(422, "invalid_deadline", late_message));
    }
    Ok(ActionDraft { title: string_of(&title), instructions: string_of(&instructions), due })
}

/// A request for a new approval is accepted exactly as the bounds say: a
/// title of 1 to 120 characters and instructions of 1 to 2,000 characters,
/// both trimmed, and a readable deadline after `now` and no later than
/// `horizon_days` days ahead give the trimmed title and instructions and
/// that deadline. A title outside its bounds is refused first; with a good
/// title, instructions outside theirs are refused next.
pub proof fn lemma_approval_requests_within_bounds_are_accepted(
    p: CreateActionRequest,
    now: UtcTime,
    horizon_days: int,
    late_message: &'static str,
)
    ensures
        ({
            &&& 1 <= trim(p.title@).len() <= 120
            &&& 1 <= trim(p.instructions@).len() <= 2000
            &&& rfc3339_parse(p.due_at@) matches Some(d)
            &&& precedes(now, UtcTime { secs: d.0, nanos: d.1 })
            &&& !precedes(shifted(now, horizon_days * 86_400), UtcTime { secs: d.0, nanos: d.1 })
        }) ==> draft_result(&p, now, horizon_days, late_message) == Ok::<
            (Seq<char>, Seq<char>, UtcTime),
            ApiError,
        >(
            (
                trim(p.title@),
                trim(p.instructions@),
                UtcTime {
                    secs: rfc3339_parse(p.due_at@).unwrap().0,
                    nanos: rfc3339_parse(p.due_at@).unwrap().1,
                },
            ),
        ),
        !(1 <= trim(p.title@).len() <= 120) ==> draft_result(&p, now, horizon_days, late_message)
            == Err::<(Seq<char>, Seq<char>, UtcTime), ApiError>(
            api_error(422, "invalid_title", "Name the approval in 120 characters or fewer."),
        ),
        (1 <= trim(p.title@).len() <= 120 && !(1 <= trim(p.instructions@).len() <= 2000))
            ==> draft_result(&p, now, horizon_days, late_message) == Err::<
            (Seq<char>, Seq<char>, UtcTime),
            ApiError,
        >(
            api_error(
                422,
                "invalid_instructions",
                "Tell the client what to review in 2,000 characters or fewer.",
            ),
        ),
{
}

impl ActionDraft {
    /// The new open approval with id `id` that this draft describes.
    pub fn approval(&self, id: String) -> (r: DemoAction)
        requires
            in_range(self.due),
        ensures
            r.id == id,
            r.kind@ == "approval"@,
            r.title@ == self.title@,
            r.instructions@ == self.instructions@,
            r.due_at@ == crate::clock::rfc3339_text(self.due.secs, self.due.nanos),
            r.status@ == "open"@,
            !r.preview_only,
            r.version == 1,
    {
        DemoAction {
            id,
            kind: string_of(&chars_of("approval")),
            title: self.title.clone(),
            instructions: self.instructions.clone(),
            due_at: self.due.to_rfc3339(),
            status: string_of(&chars_of("open")),
            preview_only: false,
            version: 1,
        }
    }
}

/// One action of the sample room.
#[derive(Clone, Debug)]
pub struct SampleAction {
    pub kind: &'static str,
    pub title: &'static str,
    pub instructions: &'static str,
    pub due: UtcTime,
    pub preview_only: bool,
}

/// The four actions of every new sample room made at `now`: an overdue
/// upload, an approval due in four hours, a choice due tomorrow and an
/// external link due in three days.
pub open spec fn sample_plan(now: UtcTime) -> Seq<SampleAction> {
    seq![
        SampleAction {
            kind: "upload",
            title: "Upload the signed allergen sheet",
            instructions: "Add the signed allergen sheet for the launch file.",
            due: shifted(now, -DAY),
            preview_only: false,
        },
        SampleAction {
            kind: "approval",
            title: "Approve the final menu proof",
            instructions: "Check the breakfast prices and approve this proof, or ask for a change.",
            due: shifted(now, 4 * HOUR),
            preview_only: false,
        },
        SampleAction {
            kind: "choice",
            title: "Choose the launch photo crop",
            instructions: "Choose one crop for the launch announcement.",
            due: shifted(now, DAY as int),
            preview_only: false,
        },
        SampleAction {
            kind: "external_link",
            title: "Open the launch invoice",
            instructions: "Open the hosted invoice when it is ready.",
            due: shifted(now, 3 * DAY),
            preview_only: false,
        },
    ]
}

/// The actions that seed a sample room made at `now`.
pub fn sample_actions(now: UtcTime) -> (r: Vec<SampleAction>)
    requires
        usable_now(now),
    ensures
        r@ == sample_plan(now),
        forall|i: int| 0 <= i < r@.len() ==> in_range(#[trigger] r@[i].due),
{
    let mut r: Vec<SampleAction> = Vec::new();
    r.push(
        SampleAction {
            kind: "upload",
            title: "Upload the signed allergen sheet",
            instructions: "Add the signed allergen sheet for the launch file.",
            due: now.plus_secs(-DAY),
            preview_only: false,
        },
    );
    r.push(
        SampleAction {
            kind: "approval",
            title: "Approve the final menu proof",
            instructions: "Check the breakfast prices and approve this proof, or ask for a change.",
            due: now.plus_secs(4 * HOUR),
            preview_only: false,
        },
    );
    r.push(
        SampleAction {
            kind: "choice",
            title: "Choose the launch photo crop",
            instructions: "Choose one crop for the launch announcement.",
            due: now.plus_secs(DAY),
            preview_only: false,
        },
    );
    r.push(
        SampleAction {
            kind: "external_link",
            title: "Open the launch invoice",
            instructions: "Open the hosted invoice when it is ready.",
            due: now.plus_secs(3 * DAY),
            preview_only: false,
        },
    );
    assert(r@ =~= sample_plan(now));
    r
}

/// The listed options of the sample choice: key, label and position.
pub open spec fn sample_choice_list() -> Seq<(&'static str, &'static str, i64)> {
    seq![
        ("wide", "Wide counter crop", 1i64),
        ("square", "Square pastry crop", 2i64),
        ("portrait", "Portrait storefront crop", 3i64),
    ]
}

/// The listed options of the sample choice, in order.
pub fn sample_choices() -> (r: Vec<(&'static str, &'static str, i64)>)
    ensures
        r@ == sample_choice_list(),
{
    let mut r: Vec<(&'static str, &'static str, i64)> = Vec::new();
    r.push(("wide", "Wide counter crop", 1));
    r.push(("square", "Square pastry crop", 2));
    r.push(("portrait", "Portrait storefront crop", 3));
    assert(r@ =~= sample_choice_list());
    r
}

/// The page that the sample external link opens.
pub const SAMPLE_EXTERNAL_URL: &'static str = "https://example.com/";

/// The host of the sample external link.
pub const SAMPLE_EXTERNAL_HOST: &'static str = "example.com";

/// The staff member of the sample room.
pub const STAFF_OWNER: &'static str = "Theo Grant";

/// The audit record that a new sample room starts with, all about its
/// approval: created four minutes and its deadline set three minutes before `now`.
pub open spec fn seed_audit_plan(now: UtcTime) -> Seq<(&'static str, &'static str, UtcTime)> {
    seq![
        ("action_created", STAFF_OWNER, shifted(now, -4 * MINUTE)),
        ("deadline_set", STAFF_OWNER, shifted(now, -3 * MINUTE)),
    ]
}

/// The audit events, actor and time, that a new sample room starts with.
pub fn seed_audit(now: UtcTime) -> (r: Vec<(&'static str, &'static str, UtcTime)>)
    requires
        usable_now(now),
    ensures
        r@ == seed_audit_plan(now),
        forall|i: int| 0 <= i < r@.len() ==> in_range(#[trigger] r@[i].2),
{
    let mut r: Vec<(&'static str, &'static str, UtcTime)> = Vec::new();
    r.push(("action_created", STAFF_OWNER, now.plus_secs(-4 * MINUTE)));
    r.push(("deadline_set", STAFF_OWNER, now.plus_secs(-3 * MINUTE)));
    assert(r@ =~= seed_audit_plan(now));
    r
}

impl DemoQueue {
    /// The sample room's queue: its fixed cast and time zone, its expiry,
    /// the server time, its actions in deadline order and its audit record
    /// in the order it occurred.
    pub fn for_room(
        expires_at: String,
        server_now: String,
        actions: Vec<DemoAction>,
        audit: Vec<AuditEvent>,
    ) -> (r: DemoQueue)
        ensures
            r.firm == "Northline Studio",
            r.workspace == "Alder Street Bakery launch",
            r.staff_owner == STAFF_OWNER,
            r.client_actor == "Maya Chen",
            r.time_zone == "America/New_York",
            r.expires_at == expires_at,
            r.server_now == server_now,
            in_deadline_order(r.actions@),
            r.actions@.to_multiset() == actions@.to_multiset(),
            in_key_order(r.audit@),
            r.audit@.to_multiset() == audit@.to_multiset(),
    {
        DemoQueue {
            firm: "Northline Studio",
            workspace: "Alder Street Bakery launch",
            staff_owner: STAFF_OWNER,
            client_actor: "Maya Chen",
            time_zone: "America/New_York",
            expires_at,
            server_now,
            actions: order_by_deadline(actions),
            audit: order_by_time(audit),
        }
    }
}

impl ClientActionResponse {
    /// What a client session shows: the sample room's cast, the link's
    /// expiry, the action, any answer already given, and the options or the
    /// external destination that the action has.
    pub fn for_action(
        link_expires_at: String,
        action: DemoAction,
        submission: Option<SubmissionResponse>,
        choices: Vec<ActionChoice>,
        external: Option<(String, String)>,
    ) -> (r: ClientActionResponse)
        ensures
            r.firm == "Northline Studio",
            r.workspace == "Alder Street Bakery launch",
            r.client_actor == "Maya Chen",
            r.link_expires_at == link_expires_at,
            r.action == action,
            r.submission == submission,
            r.choices == choices,
            r.external_url == (match external {
                Some(e) => Some(e.0),
                None => None,
            }),
            r.destination_host == (match external {
                Some(e) => Some(e.1),
                None => None,
            }),
    {
        let (external_url, destination_host) = match external {
            Some((url, host)) => (Some(url), Some(host)),
            None => (None, None),
        };
        ClientActionResponse {
            firm: "Northline Studio",
            workspace: "Alder Street Bakery launch",
            client_actor: "Maya Chen",
            link_expires_at,
            action,
            submission,
            choices,
            external_url,
            destination_host,
        }
    }
}


impl AuditEvent {
    /// The audit entry with these parts, stamped with `at`.
    pub fn record(
        id: String,
        action_id: Option<String>,
        event_name: &str,
        actor_label: &str,
        decision: Option<String>,
        at: UtcTime,
    ) -> (r: AuditEvent)
        requires
            in_range(at),
        ensures
            r.id == id,
            r.action_id == action_id,
            r.event_name@ == event_name@,
            r.actor_label@ == actor_label@,
            r.decision == decision,
            r.occurred_at@ == crate::clock::rfc3339_text(at.secs, at.nanos),
    {
        AuditEvent {
            id,
            action_id,
            event_name: string_of(&chars_of(event_name)),
            actor_label: string_of(&chars_of(actor_label)),
            decision,
            occurred_at: at.to_rfc3339(),
        }
    }
}

impl SubmissionResponse {
    /// The stored answer, marked as answered before.
    pub fn replay(self) -> (r: SubmissionResponse)
        ensures
            r.id == self.id,
            r.actor_label == self.actor_label,
            r.decision == self.decision,
            r.comment == self.comment,
            r.occurred_at == self.occurred_at,
            r.replayed,
    {
        SubmissionResponse { replayed: true, ..self }
    }
}

/// The answer recorded for `payload` at `now` under `id`: the trimmed actor
/// and note, the decision, and the server time.
pub fn recorded_submission(id: String, payload: &SubmissionRequest, now: UtcTime) -> (r:
    SubmissionResponse)
    requires
        in_range(now),
    ensures
        r.id == id,
        r.actor_label@ == trim(payload.actor_label@),
        r.decision@ == payload.decision@,
        r.comment@ == trim(payload.comment@),
        r.occurred_at@ == crate::clock::rfc3339_text(now.secs, now.nanos),
        !r.replayed,
{
    SubmissionResponse {
        id,
        actor_label: string_of(&trimmed(&chars_of(payload.actor_label.as_str()))),
        decision: string_of(&chars_of(payload.decision.as_str())),
        comment: string_of(&trimmed(&chars_of(payload.comment.as_str()))),
        occurred_at: now.to_rfc3339(),
        replayed: false,
    }
}

/// The audit entry of an approval answer: who decided what, at server time.
pub fn decision_recorded(id: String, action_id: &str, payload: &SubmissionRequest, now: UtcTime) -> (r:
    AuditEvent)
    requires
        in_range(now),
    ensures
        r.id == id,
        r.action_id matches Some(a) && a@ == action_id@,
        r.event_name@ == "client_decision_recorded"@,
        r.actor_label@ == trim(payload.actor_label@),
        r.decision matches Some(d) && d@ == payload.decision@,
        r.occurred_at@ == crate::clock::rfc3339_text(now.secs, now.nanos),
{
    let actor = string_of(&trimmed(&chars_of(payload.actor_label.as_str())));
    AuditEvent::record(
        id,
        Some(string_of(&chars_of(action_id))),
        "client_decision_recorded",
        actor.as_str(),
        Some(string_of(&chars_of(payload.decision.as_str()))),
        now,
    )
}

/// The hash that identifies a submitted request body: lowercase hex SHA-256.
pub fn request_hash(body: &[u8]) -> (r: String)
    ensures
        r@ == crate::digest::hex_lower(crate::digest::sha256_digest(body@)),
{
    let digest = crate::digest::sha256(body);
    crate::digest::hex_encode(digest.as_slice())
}

/// The answer to a choice that is not among the listed options.
pub fn invalid_choice() -> (r: ApiError)
    ensures
        r == api_error(422, "invalid_choice", "Choose one of the listed options."),
{
    ApiError::new(422, "invalid_choice", "Choose one of the listed options.")
}

/// The record of a completed choice, upload or external visit by the
/// trimmed `actor` at `now`.
pub fn completion(
    kind: &str,
    actor: &str,
    detail: String,
    now: UtcTime,
    destination_url: Option<String>,
) -> (r: CompletionResponse)
    requires
        in_range(now),
    ensures
        r.kind@ == kind@,
        r.actor_label@ == trim(actor@),
        r.detail == detail,
        r.occurred_at@ == crate::clock::rfc3339_text(now.secs, now.nanos),
        r.destination_url == destination_url,
{
    CompletionResponse {
        kind: string_of(&chars_of(kind)),
        actor_label: string_of(&trimmed(&chars_of(actor))),
        detail,
        occurred_at: now.to_rfc3339(),
        destination_url,
    }
}

/// Uploads are limited to five megabytes.
pub const MAX_UPLOAD_BYTES: usize = 5 * 1024 * 1024;

/// The ASCII letter `b` in lower case.
pub open spec fn ascii_lower(b: u8) -> u8 {
    if 65 <= b <= 90 {
        (b + 32) as u8
    } else {
        b
    }
}

/// Whether the five bytes from `i` spell `EICAR` in any letter case.
pub open spec fn marker_at(bytes: Seq<u8>, i: int) -> bool {
    0 <= i && i + 5 <= bytes.len() && ascii_lower(bytes[i]) == 101u8 && ascii_lower(bytes[i + 1])
        == 105u8 && ascii_lower(bytes[i + 2]) == 99u8 && ascii_lower(bytes[i + 3]) == 97u8
        && ascii_lower(bytes[i + 4]) == 114u8
}

/// Whether `bytes` hold the test-virus marker `EICAR` in any letter case.
pub open spec fn has_eicar_marker(bytes: Seq<u8>) -> bool {
    exists|i: int| marker_at(bytes, i)
}

/// Whether `bytes` begin with the PDF signature `%PDF-`.
pub open spec fn starts_as_pdf(bytes: Seq<u8>) -> bool {
    bytes.len() >= 5 && bytes[0] == 37u8 && bytes[1] == 80u8 && bytes[2] == 68u8 && bytes[3]
        == 70u8 && bytes[4] == 45u8
}

/// The first problem with an uploaded file, if any.
pub open spec fn upload_error(actor: Seq<char>, bytes: Seq<u8>) -> Option<ApiError> {
    if actor_error(actor) is Some {
        actor_error(actor)
    } else if bytes.len() == 0 || bytes.len() > MAX_UPLOAD_BYTES || !starts_as_pdf(bytes) {
        Some(api_error(422, "unsafe_file_type", "Upload one PDF file under 5 MB."))
    } else if has_eicar_marker(bytes) {
        Some(
            api_error(
                422,
                "malware_detected",
                "The safety scan rejected this file. Choose a different PDF.",
            ),
        )
    } else {
        None
    }
}

fn lower(b: u8) -> (r: u8)
    ensures
        r == ascii_lower(b),
{
    if 65 <= b && b <= 90 {
        b + 32
    } else {
        b
    }
}

/// Checks an upload: a named actor, then one non-empty PDF of at most five
/// megabytes that does not hold the test-virus marker.
pub fn validate_upload(actor: &str, bytes: &[u8]) -> (r: Result<(), ApiError>)
    ensures
        r == outcome(upload_error(actor@, bytes@)),
{
    validate_actor(actor)?;
    let n = bytes.len();
    if n == 0 || n > MAX_UPLOAD_BYTES || !(n >= 5 && bytes[0] == 37 && bytes[1] == 80 && bytes[2]
        == 68 && bytes[3] == 70 && bytes[4] == 45) {
        return Err(ApiError::new(422, "unsafe_file_type", "Upload one PDF file under 5 MB."));
    }
    let mut i: usize = 0;
    while i < n && n - i >= 5
        invariant
            n == bytes@.len(),
            actor_error(actor@) is None,
            0 < n <= MAX_UPLOAD_BYTES,
            starts_as_pdf(bytes@),
            forall|j: int| 0 <= j < i ==> !#[trigger] marker_at(bytes@, j),
        decreases n - i,
    {
        if lower(bytes[i]) == 101 && lower(bytes[i + 1]) == 105 && lower(bytes[i + 2]) == 99
            && lower(bytes[i + 3]) == 97 && lower(bytes[i + 4]) == 114 {
            assert(marker_at(bytes@, i as int));
            return Err(
                ApiError::new(
                    422,
                    "malware_detected",
                    "The safety scan rejected this file. Choose a different PDF.",
                ),
            );
        }
        assert(!marker_at(bytes@, i as int));
        i = i + 1;
    }
    assert forall|j: int| !marker_at(bytes@, j) by {
        if 0 <= j < i {
        } else if j >= i {
            assert(j + 5 > bytes@.len());
        }
    }
    assert(!has_eicar_marker(bytes@));
    Ok(())
}

/// An upload is accepted only as a non-empty PDF of at most five megabytes
/// that carries no test-virus marker, from a named actor.
pub proof fn lemma_accepted_uploads_are_clean_pdfs(actor: Seq<char>, bytes: Seq<u8>)
    ensures
        upload_error(actor, bytes) is None ==> {
            &&& actor_error(actor) is None
            &&& starts_as_pdf(bytes)
            &&& 0 < bytes.len() <= MAX_UPLOAD_BYTES
            &&& !has_eicar_marker(bytes)
        },
{
}

/// Every upload within the rules passes the file checks: a named actor (1
/// to 80 characters once trimmed) and a file of at most five megabytes that
/// begins with `%PDF-` and holds no EICAR marker are accepted; a file that
/// is empty, larger, or not a PDF is refused as an unsafe file type.
pub proof fn lemma_pdfs_within_the_limit_are_accepted(actor: Seq<char>, bytes: Seq<u8>)
    ensures
        ({
            &&& 1 <= trim(actor).len() <= 80
            &&& bytes.len() <= 5 * 1024 * 1024
            &&& bytes.len() >= 5
            &&& bytes[0] == 37u8 && bytes[1] == 80u8 && bytes[2] == 68u8 && bytes[3] == 70u8
                && bytes[4] == 45u8
            &&& !has_eicar_marker(bytes)
        }) ==> upload_error(actor, bytes) is None,
        (1 <= trim(actor).len() <= 80 && (bytes.len() == 0 || bytes.len() > 5 * 1024 * 1024))
            ==> upload_error(actor, bytes) == Some(
            api_error(422, "unsafe_file_type", "Upload one PDF file under 5 MB."),
        ),
{
}

/// The answer to an upload that the safety scan rejects.
pub open spec fn malware_error() -> ApiError {
    api_error(422, "malware_detected", "The safety scan rejected this file. Choose a different PDF.")
}

/// The answer to an upload that cannot be scanned: it is not recorded.
pub open spec fn scan_unavailable_error() -> ApiError {
    api_error(503, "scan_unavailable", "The safety scan is unavailable. Try again in a moment.")
}

/// What an upload comes to once the scanner has given `scan`: the checks of
/// the file come first; a file that passes them is recorded only when the
/// scan found it clean, is refused when it found it infected, and is refused
/// until later when the scanner could not answer.
pub open spec fn upload_verdict(actor: Seq<char>, bytes: Seq<u8>, scan: ScanOutcome) -> Result<
    (),
    ApiError,
> {
    match upload_error(actor, bytes) {
        Some(e) => Err(e),
        None => match scan {
            ScanOutcome::Clean { .. } => Ok(()),
            ScanOutcome::Infected => Err(malware_error()),
            ScanOutcome::Unavailable => Err(scan_unavailable_error()),
        },
    }
}

/// Decides whether an upload is recorded: its checks must pass and the
/// scanner's verdict `scan` on its bytes must be clean.
pub fn upload_decision(actor: &str, bytes: &[u8], scan: &ScanOutcome) -> (r: Result<(), ApiError>)
    ensures
        r == upload_verdict(actor@, bytes@, *scan),
        r is Ok ==> scan is Clean && upload_error(actor@, bytes@) is None,
{
    validate_upload(actor, bytes)?;
    match scan {
        ScanOutcome::Clean { .. } => Ok(()),
        ScanOutcome::Infected => Err(
            ApiError::new(
                422,
                "malware_detected",
                "The safety scan rejected this file. Choose a different PDF.",
            ),
        ),
        ScanOutcome::Unavailable => Err(
            ApiError::new(
                503,
                "scan_unavailable",
                "The safety scan is unavailable. Try again in a moment.",
            ),
        ),
    }
}

/// An upload is recorded only after a clean scan: whatever the file, an
/// infected verdict refuses it and an unavailable scanner refuses it too.
pub proof fn lemma_uploads_need_a_clean_scan(actor: Seq<char>, bytes: Seq<u8>, scan: ScanOutcome)
    ensures
        upload_verdict(actor, bytes, scan) is Ok ==> scan is Clean && upload_error(actor, bytes)
            is None,
        scan is Infected ==> upload_verdict(actor, bytes, scan) is Err,
        scan is Unavailable ==> upload_verdict(actor, bytes, scan) is Err,
{
}

/// The text that an upload's record shows: the file name and the scan result.
pub fn upload_detail(filename: &str) -> (r: String)
    ensures
        r@ == filename@ + " · safety scan passed"@,
{
    let mut out: Vec<char> = Vec::new();
    push_str(&mut out, filename);
    push_str(&mut out, " · safety scan passed");
    string_of(&out)
}

/// Uploaded files are kept a day.
pub const UPLOAD_RETENTION_SECS: i64 = DAY;

/// Refuses an external destination that is not a public HTTPS page.
pub fn check_destination(url: &str, host: &str) -> (r: Result<(), ApiError>)
    ensures
        r == (if !has_prefix(url@, "https://"@) || host@ == "localhost"@ || has_prefix(
            host@,
            "127."@,
        ) {
            Err(
                api_error(
                    422,
                    "unsafe_destination",
                    "This destination is not a public HTTPS page.",
                ),
            )
        } else {
            Ok(())
        }),
{
    let u = chars_of(url);
    let h = chars_of(host);
    if !starts_with_str(&u, "https://") || str_eq(host, "localhost") || starts_with_str(&h, "127.") {
        return Err(
            ApiError::new(422, "unsafe_destination", "This destination is not a public HTTPS page."),
        );
    }
    Ok(())
}

/// The text that an external visit's record shows.
pub fn visit_detail(host: &str) -> (r: String)
    ensures
        r@ == "Opened "@ + host@,
{
    let mut out: Vec<char> = Vec::new();
    push_str(&mut out, "Opened ");
    push_str(&mut out, host);
    string_of(&out)
}

/// Refuses a reminder when the action is not open in the room.
pub fn check_remindable(open_matches: i64) -> (r: Result<(), ApiError>)
    ensures
        r == (if open_matches == 0 {
            Err(api_error(404, "action_not_found", "Choose an open action to remind."))
        } else {
            Ok(())
        }),
{
    if open_matches == 0 {
        return Err(ApiError::new(404, "action_not_found", "Choose an open action to remind."));
    }
    Ok(())
}

/// When a reminder scheduled at `now` is due: an hour later.
pub fn reminder_time(now: UtcTime) -> (r: UtcTime)
    requires
        usable_now(now),
    ensures
        r == shifted(now, HOUR as int),
        in_range(r),
{
    now.plus_secs(HOUR)
}

/// The answer to a scheduled reminder.
pub fn reminder_response(scheduled: UtcTime) -> (r: ReminderResponse)
    requires
        in_range(scheduled),
    ensures
        r.scheduled_for@ == crate::clock::rfc3339_text(scheduled.secs, scheduled.nanos),
        r.status == "scheduled",
{
    ReminderResponse { scheduled_for: scheduled.to_rfc3339(), status: "scheduled" }
}


/// A freshly made link token always has a length that the exchange accepts:
/// 43 URL-safe base64 characters are 43 bytes, within 32 to 128.
pub proof fn lemma_fresh_token_length_accepted(token: Seq<char>)
    requires
        token.len() == 43,
        forall|i: int| 0 <= i < token.len() ==> crate::digest::is_b64url_char(#[trigger] token[i]),
    ensures
        32 <= vstd::utf8::encode_utf8(token).len() <= 128,
{
    assert(vstd::utf8::is_ascii_chars(token));
    vstd::utf8::is_ascii_chars_encode_utf8(token);
}

/// A client session never outlives the link it was opened with, lasts at
/// most two hours, and only a link that is live, unrevoked and in a live
/// room opens one.
pub proof fn lemma_client_session_within_link(
    now: UtcTime,
    grant_expires: Seq<char>,
    session_expires: Seq<char>,
    revoked: bool,
)
    requires
        usable_now(now),
    ensures
        exchange_result(now, grant_expires, session_expires, revoked) matches Ok(t) ==> {
            &&& parsed_time(grant_expires) matches Ok(g) && !precedes(g, t) && precedes(now, g)
            &&& parsed_time(session_expires) matches Ok(s) && precedes(now, s)
            &&& !revoked
            &&& !precedes(shifted(now, CLIENT_SESSION_SECS as int), t)
            &&& precedes(now, t)
        },
{
}

/// An answer given again is the answer recorded first: only its `replayed`
/// mark differs.
pub proof fn lemma_replay_keeps_answer(first: SubmissionResponse, again: SubmissionResponse)
    requires
        again.id == first.id,
        again.actor_label == first.actor_label,
        again.decision == first.decision,
        again.comment == first.comment,
        again.occurred_at == first.occurred_at,
        again.replayed,
    ensures
        again == (SubmissionResponse { replayed: true, ..first }),
{
}

} // verus!
