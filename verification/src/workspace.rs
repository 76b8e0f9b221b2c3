//! Signed-in firm workspaces: organizations, members and their roles, plan
//! limits, settings, invitations, exports and scheduled deletion.

use vstd::prelude::*;

use crate::clock::{in_range, parse_rfc3339, precedes, rfc3339_parse, shifted, UtcTime, DAY, HOUR};
use crate::demo::{api_error, outcome, usable_now, ApiError};
use crate::text::{
    chars_eq, chars_of, contains_char, has_char, push_str, str_eq, string_of, trim, trimmed,
    trimmed_text,
};

verus! {

broadcast use vstd::string::group_string_axioms;

/// A new firm's first request: the firm, its first client workspace and the
/// client's name.
#[derive(Clone, Debug)]
pub struct CreateWorkspaceRequest {
    pub firm_name: String,
    pub client_label: String,
    pub client_actor: String,
}

/// The signed-in staff member as the web application shows them.
#[derive(Clone, Debug)]
pub struct StaffProfile {
    pub id: String,
    pub name: String,
    pub email: String,
    pub has_workspace: bool,
    pub organization_id: Option<String>,
    pub role: Option<String>,
}

/// A request for another client workspace.
#[derive(Clone, Debug)]
pub struct CreateAdditionalWorkspaceRequest {
    pub client_label: String,
    pub client_actor: String,
}

/// New firm settings.
#[derive(Clone, Debug)]
pub struct UpdateSettingsRequest {
    pub name: String,
    pub time_zone: String,
    pub retention_days: i64,
}

/// A request to delete the firm, confirmed by its name.
#[derive(Clone, Debug)]
pub struct DeleteOrganizationRequest {
    pub confirmation: String,
}

/// A request to invite a staff member with `role`.
#[derive(Clone, Debug)]
pub struct InviteMemberRequest {
    pub role: String,
}

/// A request to accept an invitation by its token.
#[derive(Clone, Debug)]
pub struct AcceptInviteRequest {
    pub token: String,
}

/// One client workspace of a firm and its open actions.
#[derive(Clone, Debug)]
pub struct WorkspaceSummary {
    pub id: String,
    pub client_label: String,
    pub client_actor: String,
    pub open_actions: i64,
}

/// One staff member of a firm.
#[derive(Clone, Debug)]
pub struct MemberSummary {
    pub oid: String,
    pub display_name: String,
    pub role: String,
}

/// A firm's recurring plan.
#[derive(Clone, Debug)]
pub struct SubscriptionSummary {
    pub tier: String,
    pub status: String,
    pub period_end: Option<String>,
    pub verified_at: String,
}

/// A firm as its members see it.
#[derive(Clone, Debug)]
pub struct OrganizationOverview {
    pub id: String,
    pub name: String,
    pub time_zone: String,
    pub region: String,
    pub retention_days: i64,
    pub deletion_due_at: Option<String>,
    pub role: String,
    pub workspaces: Vec<WorkspaceSummary>,
    pub members: Vec<MemberSummary>,
    pub subscription: Option<SubscriptionSummary>,
    pub recurring_billing_available: bool,
}

/// A staff invitation link.
#[derive(Clone, Debug)]
pub struct InvitationResponse {
    pub path: String,
    pub role: String,
    pub expires_at: String,
}

/// Whether the firm is scheduled for deletion, and when.
#[derive(Clone, Debug)]
pub struct DeletionResponse {
    pub status: &'static str,
    pub deletion_due_at: Option<String>,
}

/// The error for a label that is empty or longer than 80 characters once trimmed.
pub open spec fn label_error(value: Seq<char>, message: &'static str) -> Option<ApiError> {
    if 1 <= trim(value).len() <= 80 {
        None
    } else {
        Some(api_error(422, "invalid_workspace", message))
    }
}

/// Checks a firm, workspace or client name: 1 to 80 characters once trimmed.
pub fn validate_label(value: &str, message: &'static str) -> (r: Result<(), ApiError>)
    ensures
        r == outcome(label_error(value@, message)),
{
    let t = trimmed(&chars_of(value));
    if t.len() < 1 || t.len() > 80 {
        return Err(ApiError::new(422, "invalid_workspace", message));
    }
    Ok(())
}

/// The message for a firm name that does not fit.
pub const FIRM_NAME_MESSAGE: &'static str = "Enter a firm name in 80 characters or fewer.";

/// The message for a client workspace name that does not fit.
pub const CLIENT_LABEL_MESSAGE: &'static str = "Enter a client workspace name in 80 characters or fewer.";

/// The message for a client name that does not fit.
pub const CLIENT_ACTOR_MESSAGE: &'static str = "Enter a client name in 80 characters or fewer.";

/// What a client workspace request gives: its trimmed workspace and client
/// names, or the first that does not fit.
pub open spec fn workspace_names(label: Seq<char>, actor: Seq<char>) -> Result<
    (Seq<char>, Seq<char>),
    ApiError,
> {
    if label_error(label, CLIENT_LABEL_MESSAGE) is Some {
        Err(label_error(label, CLIENT_LABEL_MESSAGE).unwrap())
    } else if label_error(actor, CLIENT_ACTOR_MESSAGE) is Some {
        Err(label_error(actor, CLIENT_ACTOR_MESSAGE).unwrap())
    } else {
        Ok((trim(label), trim(actor)))
    }
}

/// Checks the names of a new client workspace, the workspace name first;
/// gives them trimmed.
pub fn validate_workspace_names(label: &str, actor: &str) -> (r: Result<(String, String), ApiError>)
    ensures
        match workspace_names(label@, actor@) {
            Ok(p) => r matches Ok(q) && q.0@ == p.0 && q.1@ == p.1,
            Err(e) => r == Err::<(String, String), ApiError>(e),
        },
{
    validate_label(label, CLIENT_LABEL_MESSAGE)?;
    validate_label(actor, CLIENT_ACTOR_MESSAGE)?;
    Ok((trimmed_text(label), trimmed_text(actor)))
}

/// Checks a new firm's first request, the firm name first; gives the
/// trimmed firm, workspace and client names.
pub fn validate_new_firm(payload: &CreateWorkspaceRequest) -> (r: Result<
    (String, String, String),
    ApiError,
>)
    ensures
        match label_error(payload.firm_name@, FIRM_NAME_MESSAGE) {
            Some(e) => r == Err::<(String, String, String), ApiError>(e),
            None => match workspace_names(payload.client_label@, payload.client_actor@) {
                Ok(p) => r matches Ok(q) && q.0@ == trim(payload.firm_name@) && q.1@ == p.0
                    && q.2@ == p.1,
                Err(e) => r == Err::<(String, String, String), ApiError>(e),
            },
        },
{
    validate_label(payload.firm_name.as_str(), FIRM_NAME_MESSAGE)?;
    let (label, actor) = validate_workspace_names(
        payload.client_label.as_str(),
        payload.client_actor.as_str(),
    )?;
    Ok((trimmed_text(payload.firm_name.as_str()), label, actor))
}

/// Whether `role` may change firm settings, workspaces and members.
pub open spec fn is_manager(role: Seq<char>) -> bool {
    role == "owner"@ || role == "admin"@
}

/// Refuses changes by members who are neither owner nor admin.
pub fn require_manager(role: &str) -> (r: Result<(), ApiError>)
    ensures
        r == (if is_manager(role@) {
            Ok(())
        } else {
            Err(api_error(403, "manager_required", "Ask a firm owner or admin to make this change."))
        }),
{
    if str_eq(role, "owner") || str_eq(role, "admin") {
        Ok(())
    } else {
        Err(ApiError::new(403, "manager_required", "Ask a firm owner or admin to make this change."))
    }
}

/// Refuses changes that only the firm owner may make.
pub fn require_owner(role: &str) -> (r: Result<(), ApiError>)
    ensures
        r == (if role@ == "owner"@ {
            Ok(())
        } else {
            Err(api_error(403, "owner_required", "Only a firm owner can make this change."))
        }),
{
    if str_eq(role, "owner") {
        Ok(())
    } else {
        Err(ApiError::new(403, "owner_required", "Only a firm owner can make this change."))
    }
}

/// The label that a staff member's name gives: the trimmed name, or
/// `fallback` when it is blank.
pub fn staff_label_for(name: &str, fallback: &str) -> (r: String)
    ensures
        r@ == (if trim(name@).len() == 0 {
            fallback@
        } else {
            trim(name@)
        }),
{
    let t = trimmed(&chars_of(name));
    if t.len() == 0 {
        string_of(&chars_of(fallback))
    } else {
        string_of(&t)
    }
}

/// A firm's recurring plan as stored: tier, status and paid-period end.
#[derive(Clone, Debug)]
pub struct SubscriptionRow {
    pub tier: String,
    pub status: String,
    pub period_end: Option<String>,
}

/// Whether a plan still pays at `now`: active or past due, or cancelled
/// with a paid period that ends after `now`.
pub open spec fn in_paid_period(row: &SubscriptionRow, now: UtcTime) -> bool {
    ||| row.status@ == "active"@
    ||| row.status@ == "past_due"@
    ||| (row.status@ == "cancelled"@ && match row.period_end {
        Some(p) => match rfc3339_parse(p@) {
            Some(t) => precedes(now, UtcTime { secs: t.0, nanos: t.1 }),
            None => false,
        },
        None => false,
    })
}

/// The workspace and seat limits that a firm's plan grants.
pub open spec fn limits_of(row: Option<&SubscriptionRow>, now: UtcTime) -> Option<(i64, i64)> {
    match row {
        None => None,
        Some(r) => if !in_paid_period(r, now) {
            None
        } else if r.tier@ == "studio"@ {
            Some((20, 10))
        } else {
            Some((5, 3))
        },
    }
}

/// The workspace and seat limits of a plan that still pays: 20 workspaces
/// and 10 seats on studio, 5 and 3 on any other tier; none without a plan.
pub fn subscription_limits(row: Option<&SubscriptionRow>, now: UtcTime) -> (r: Option<(i64, i64)>)
    ensures
        r == limits_of(row, now),
{
    match row {
        None => None,
        Some(r) => {
            let paying = str_eq(r.status.as_str(), "active") || str_eq(r.status.as_str(), "past_due")
                || (str_eq(r.status.as_str(), "cancelled") && match &r.period_end {
                Some(p) => match parse_rfc3339(p.as_str()) {
                    Some(t) => now.is_before(&t),
                    None => false,
                },
                None => false,
            });
            if !paying {
                None
            } else if str_eq(r.tier.as_str(), "studio") {
                Some((20, 10))
            } else {
                Some((5, 3))
            }
        },
    }
}

/// How many client workspaces a firm may have: its plan's limit, or one.
pub fn workspace_limit(limits: Option<(i64, i64)>) -> (r: i64)
    ensures
        r == (match limits {
            Some(l) => l.0,
            None => 1,
        }),
{
    match limits {
        Some((w, _)) => w,
        None => 1,
    }
}

/// How many staff seats a firm may have: its plan's limit, or one.
pub fn seat_limit(limits: Option<(i64, i64)>) -> (r: i64)
    ensures
        r == (match limits {
            Some(l) => l.1,
            None => 1,
        }),
{
    match limits {
        Some((_, s)) => s,
        None => 1,
    }
}

/// Refuses another client workspace once the firm has `limit` of them.
pub fn check_workspace_capacity(current: i64, limit: i64) -> (r: Result<(), ApiError>)
    ensures
        r == (if current >= limit {
            Err(
                api_error(
                    402,
                    "workspace_limit_reached",
                    if limit == 1 {
                        "A recurring plan is required before you add another client workspace."
                    } else {
                        "This plan has reached its client workspace limit. Choose another plan or close a workspace."
                    },
                ),
            )
        } else {
            Ok(())
        }),
{
    if current >= limit {
        return Err(
            ApiError::new(
                402,
                "workspace_limit_reached",
                if limit == 1 {
                    "A recurring plan is required before you add another client workspace."
                } else {
                    "This plan has reached its client workspace limit. Choose another plan or close a workspace."
                },
            ),
        );
    }
    Ok(())
}

/// Refuses an invitation once members and open invitations fill the seats.
pub fn check_seat_capacity(reserved: i64, limit: i64) -> (r: Result<(), ApiError>)
    ensures
        r == (if reserved >= limit {
            Err(
                api_error(
                    402,
                    "seat_limit_reached",
                    if limit == 1 {
                        "A recurring plan is required before you add another staff member."
                    } else {
                        "This plan has reached its staff seat limit."
                    },
                ),
            )
        } else {
            Ok(())
        }),
{
    if reserved >= limit {
        return Err(
            ApiError::new(
                402,
                "seat_limit_reached",
                if limit == 1 {
                    "A recurring plan is required before you add another staff member."
                } else {
                    "This plan has reached its staff seat limit."
                },
            ),
        );
    }
    Ok(())
}

/// Refuses accepting an invitation once the firm's members fill the seats.
pub fn check_accept_capacity(members: i64, limit: i64) -> (r: Result<(), ApiError>)
    ensures
        r == (if members >= limit {
            Err(api_error(402, "seat_limit_reached", "This plan has reached its staff seat limit."))
        } else {
            Ok(())
        }),
{
    if members >= limit {
        return Err(
            ApiError::new(402, "seat_limit_reached", "This plan has reached its staff seat limit."),
        );
    }
    Ok(())
}

/// The first problem with new firm settings, if any.
pub open spec fn settings_error(p: &UpdateSettingsRequest) -> Option<ApiError> {
    let tz = trim(p.time_zone@);
    if label_error(p.name@, "Enter a firm name in 80 characters or fewer.") is Some {
        label_error(p.name@, "Enter a firm name in 80 characters or fewer.")
    } else if !(p.retention_days == 0 || p.retention_days == 30 || p.retention_days == 90
        || p.retention_days == 365) {
        Some(
            api_error(
                422,
                "invalid_retention",
                "Choose 30, 90, 365 days, or keep records until deletion.",
            ),
        )
    } else if tz.len() == 0 || tz.len() > 64 || !has_char(tz, '/') {
        Some(
            api_error(
                422,
                "invalid_time_zone",
                "Choose a named time zone such as America/New_York.",
            ),
        )
    } else {
        None
    }
}

/// Checks new firm settings (a firm name, a retention of 0, 30, 90 or 365
/// days, and a named time zone) and gives the trimmed time zone.
pub fn validate_settings(payload: &UpdateSettingsRequest) -> (r: Result<String, ApiError>)
    ensures
        match settings_error(payload) {
            Some(e) => r == Err::<String, ApiError>(e),
            None => r matches Ok(tz) && tz@ == trim(payload.time_zone@),
        },
{
    validate_label(payload.name.as_str(), "Enter a firm name in 80 characters or fewer.")?;
    let d = payload.retention_days;
    if !(d == 0 || d == 30 || d == 90 || d == 365) {
        return Err(
            ApiError::new(
                422,
                "invalid_retention",
                "Choose 30, 90, 365 days, or keep records until deletion.",
            ),
        );
    }
    let tz = trimmed(&chars_of(payload.time_zone.as_str()));
    if tz.len() == 0 || tz.len() > 64 || !contains_char(&tz, '/') {
        return Err(
            ApiError::new(
                422,
                "invalid_time_zone",
                "Choose a named time zone such as America/New_York.",
            ),
        );
    }
    Ok(string_of(&tz))
}

/// Every retention the firm settings offer is accepted: with a firm name of
/// 1 to 80 characters and a named time zone (1 to 64 characters with a `/`,
/// once trimmed), settings keeping records 0 (until deletion), 30, 90 or 365
/// days pass, and any other retention is refused as invalid.
pub proof fn lemma_offered_retentions_are_accepted(p: UpdateSettingsRequest)
    requires
        1 <= trim(p.name@).len() <= 80,
        1 <= trim(p.time_zone@).len() <= 64,
        has_char(trim(p.time_zone@), '/'),
    ensures
        (p.retention_days == 0 || p.retention_days == 30 || p.retention_days == 90
            || p.retention_days == 365) ==> settings_error(&p) is None,
        !(p.retention_days == 0 || p.retention_days == 30 || p.retention_days == 90
            || p.retention_days == 365) ==> settings_error(&p) == Some(
            api_error(
                422,
                "invalid_retention",
                "Choose 30, 90, 365 days, or keep records until deletion.",
            ),
        ),
{
}

/// Refuses an invitation role other than admin or member.
pub fn check_invite_role(role: &str) -> (r: Result<(), ApiError>)
    ensures
        r == (if role@ == "admin"@ || role@ == "member"@ {
            Ok(())
        } else {
            Err(api_error(422, "invalid_role", "Choose admin or member access."))
        }),
{
    if str_eq(role, "admin") || str_eq(role, "member") {
        Ok(())
    } else {
        Err(ApiError::new(422, "invalid_role", "Choose admin or member access."))
    }
}

/// Invitations live seven days.
pub const INVITATION_LIFETIME_SECS: i64 = 7 * DAY;

/// The invitation link for `token` with `role`, made at `now`.
pub fn invitation(token: &str, role: String, now: UtcTime) -> (r: InvitationResponse)
    requires
        usable_now(now),
    ensures
        r.path@ == "/app/settings#invite="@ + token@,
        r.role == role,
        r.expires_at@ == crate::clock::rfc3339_text(
            (now.secs + INVITATION_LIFETIME_SECS) as i64,
            now.nanos,
        ),
{
    let mut path: Vec<char> = Vec::new();
    push_str(&mut path, "/app/settings#invite=");
    push_str(&mut path, token);
    let expires = now.plus_secs(INVITATION_LIFETIME_SECS);
    InvitationResponse { path: string_of(&path), role, expires_at: expires.to_rfc3339() }
}

/// Refuses a deletion whose confirmation, trimmed, is not the firm's name.
pub fn check_deletion_confirmation(confirmation: &str, name: &str) -> (r: Result<(), ApiError>)
    ensures
        r == (if trim(confirmation@) != name@ {
            Err(
                api_error(
                    422,
                    "confirmation_mismatch",
                    "Type the firm name exactly to schedule deletion.",
                ),
            )
        } else {
            Ok(())
        }),
{
    let t = trimmed(&chars_of(confirmation));
    if !chars_eq(&t, &chars_of(name)) {
        return Err(
            ApiError::new(
                422,
                "confirmation_mismatch",
                "Type the firm name exactly to schedule deletion.",
            ),
        );
    }
    Ok(())
}

/// A firm scheduled for deletion at `now` is deleted seven days later.
pub fn deletion_due(now: UtcTime) -> (r: UtcTime)
    requires
        usable_now(now),
    ensures
        r == shifted(now, 7 * DAY),
        in_range(r),
{
    now.plus_secs(7 * DAY)
}

/// The answer to a scheduled deletion.
pub fn deletion_scheduled(due: UtcTime) -> (r: DeletionResponse)
    requires
        in_range(due),
    ensures
        r.status == "scheduled",
        r.deletion_due_at matches Some(d) && d@ == crate::clock::rfc3339_text(due.secs, due.nanos),
{
    DeletionResponse { status: "scheduled", deletion_due_at: Some(due.to_rfc3339()) }
}

/// The answer to a cancelled deletion.
pub fn deletion_cancelled() -> (r: DeletionResponse)
    ensures
        r.status == "active",
        r.deletion_due_at is None,
{
    DeletionResponse { status: "active", deletion_due_at: None }
}

/// What a staff member who already belongs to a firm gets from the first
/// workspace request: the firm's first workspace when it has one, else a new
/// one is made.
#[derive(Clone, Debug)]
pub enum FirmStart {
    Reuse(String),
    Create,
}

/// Decides the first workspace request of a member of an existing firm
/// whose deletion is due at `deletion_due_at` and whose first workspace is
/// `first_workspace`: a firm scheduled for deletion is refused first; then
/// its first workspace is reused; without one, a workspace is made (after
/// the request's names are checked).
pub fn firm_start(deletion_due_at: &Option<String>, first_workspace: Option<String>) -> (r: Result<
    FirmStart,
    ApiError,
>)
    ensures
        deletion_due_at is Some ==> r == Err::<FirmStart, ApiError>(
            api_error(
                409,
                "deletion_pending",
                "Cancel the scheduled firm deletion before you create a workspace.",
            ),
        ),
        deletion_due_at is None ==> match first_workspace {
            Some(w) => r matches Ok(FirmStart::Reuse(x)) && x == w,
            None => r matches Ok(FirmStart::Create),
        },
{
    check_not_deleting(deletion_due_at)?;
    match first_workspace {
        Some(w) => Ok(FirmStart::Reuse(w)),
        None => Ok(FirmStart::Create),
    }
}

/// Refuses a new workspace while the firm is scheduled for deletion.
pub fn check_not_deleting(deletion_due_at: &Option<String>) -> (r: Result<(), ApiError>)
    ensures
        r == (if deletion_due_at is Some {
            Err(
                api_error(
                    409,
                    "deletion_pending",
                    "Cancel the scheduled firm deletion before you create a workspace.",
                ),
            )
        } else {
            Ok(())
        }),
{
    if deletion_due_at.is_some() {
        return Err(
            ApiError::new(
                409,
                "deletion_pending",
                "Cancel the scheduled firm deletion before you create a workspace.",
            ),
        );
    }
    Ok(())
}

/// Refuses an invitation for an account that already belongs to a firm.
pub fn check_no_membership(has_membership: bool) -> (r: Result<(), ApiError>)
    ensures
        r == (if has_membership {
            Err(api_error(409, "membership_exists", "This account already belongs to a firm."))
        } else {
            Ok(())
        }),
{
    if has_membership {
        return Err(ApiError::new(409, "membership_exists", "This account already belongs to a firm."));
    }
    Ok(())
}

/// The answer to an invitation that is used, expired, or of a deleted firm.
pub fn invitation_expired() -> (r: ApiError)
    ensures
        r == api_error(
            410,
            "invitation_expired",
            "This staff invitation has expired. Ask the firm owner for a new link.",
        ),
{
    ApiError::new(
        410,
        "invitation_expired",
        "This staff invitation has expired. Ask the firm owner for a new link.",
    )
}

/// How a staff invitation is answered, from what is found in turn: whether
/// the caller already belongs to a firm (one being deleted too), the open
/// invitation that the token finds, as its firm and the role it grants, and
/// that firm's members and seat limit. Membership is refused before the
/// invitation is looked at, a missing invitation before seats are counted,
/// and a full firm last; otherwise the caller joins the invitation's firm
/// with its role.
pub open spec fn acceptance_of(
    member_elsewhere: bool,
    invitation: Option<(Seq<char>, Seq<char>)>,
    members: int,
    seats: int,
) -> Result<(Seq<char>, Seq<char>), ApiError> {
    if member_elsewhere {
        Err(api_error(409, "membership_exists", "This account already belongs to a firm."))
    } else {
        match invitation {
            None => Err(
                api_error(
                    410,
                    "invitation_expired",
                    "This staff invitation has expired. Ask the firm owner for a new link.",
                ),
            ),
            Some(i) => if members >= seats {
                Err(api_error(402, "seat_limit_reached", "This plan has reached its staff seat limit."))
            } else {
                Ok(i)
            },
        }
    }
}

/// Decides a staff invitation: the firm and role the caller joins, or why
/// not. `members` and `seats` are read only once an invitation was found;
/// before that they decide nothing.
pub fn invitation_acceptance(
    member_elsewhere: bool,
    invitation: Option<(String, String)>,
    members: i64,
    seats: i64,
) -> (r: Result<(String, String), ApiError>)
    ensures
        match acceptance_of(
            member_elsewhere,
            match invitation {
                Some(i) => Some((i.0@, i.1@)),
                None => None,
            },
            members as int,
            seats as int,
        ) {
            Ok(joined) => r matches Ok(x) && x.0@ == joined.0 && x.1@ == joined.1,
            Err(e) => r == Err::<(String, String), ApiError>(e),
        },
{
    check_no_membership(member_elsewhere)?;
    let (organization_id, role) = match invitation {
        Some(i) => i,
        None => return Err(invitation_expired()),
    };
    check_accept_capacity(members, seats)?;
    Ok((organization_id, role))
}

/// An acceptance is recorded only when it marks exactly one open
/// invitation; otherwise the invitation was taken or expired meanwhile.
pub fn check_acceptance_recorded(rows_affected: u64) -> (r: Result<(), ApiError>)
    ensures
        r == (if rows_affected == 1 {
            Ok(())
        } else {
            Err(
                api_error(
                    410,
                    "invitation_expired",
                    "This staff invitation has expired. Ask the firm owner for a new link.",
                ),
            )
        }),
{
    if rows_affected != 1 {
        return Err(invitation_expired());
    }
    Ok(())
}

/// Accepting a staff invitation: an account that already belongs to a firm
/// is refused with 409 whatever the invitation; a token that finds no open
/// invitation is refused with 410 whatever the seats; a firm with no free
/// seat refuses with 402; otherwise the caller joins the invitation's firm
/// with the role the invitation grants.
pub proof fn lemma_invitation_refusals_in_order(
    invitation: Option<(Seq<char>, Seq<char>)>,
    members: int,
    seats: int,
)
    ensures
        acceptance_of(true, invitation, members, seats) == Err::<(Seq<char>, Seq<char>), ApiError>(
            api_error(409, "membership_exists", "This account already belongs to a firm."),
        ),
        acceptance_of(false, None, members, seats) == Err::<(Seq<char>, Seq<char>), ApiError>(
            api_error(
                410,
                "invitation_expired",
                "This staff invitation has expired. Ask the firm owner for a new link.",
            ),
        ),
        invitation is Some && members >= seats ==> acceptance_of(false, invitation, members, seats)
            == Err::<(Seq<char>, Seq<char>), ApiError>(
            api_error(402, "seat_limit_reached", "This plan has reached its staff seat limit."),
        ),
        invitation matches Some(i) ==> (members < seats ==> acceptance_of(
            false,
            invitation,
            members,
            seats,
        ) == Ok::<(Seq<char>, Seq<char>), ApiError>(i)),
{
}

/// The answer to a staff member without a firm.
pub fn organization_setup_required() -> (r: ApiError)
    ensures
        r == api_error(
            404,
            "organization_setup_required",
            "Name your firm and first client workspace to begin.",
        ),
{
    ApiError::new(
        404,
        "organization_setup_required",
        "Name your firm and first client workspace to begin.",
    )
}

/// The answer to a staff member without a workspace.
pub fn workspace_setup_required() -> (r: ApiError)
    ensures
        r == api_error(
            404,
            "workspace_setup_required",
            "Name your firm and first client workspace to begin.",
        ),
{
    ApiError::new(
        404,
        "workspace_setup_required",
        "Name your firm and first client workspace to begin.",
    )
}

/// The answer to a workspace outside the staff member's firm.
pub fn workspace_not_found() -> (r: ApiError)
    ensures
        r == api_error(404, "workspace_not_found", "Choose a workspace that belongs to your firm."),
{
    ApiError::new(404, "workspace_not_found", "Choose a workspace that belongs to your firm.")
}

/// The answer to an action outside the staff member's workspace.
pub fn workspace_action_not_found() -> (r: ApiError)
    ensures
        r == api_error(404, "action_not_found", "Choose an action from this workspace."),
{
    ApiError::new(404, "action_not_found", "Choose an action from this workspace.")
}

/// Refuses a link for a completed workspace action.
pub fn check_publishable(status: &str) -> (r: Result<(), ApiError>)
    ensures
        r == (if status@ == "completed"@ {
            Err(api_error(409, "already_completed", "This action is already complete."))
        } else {
            Ok(())
        }),
{
    if str_eq(status, "completed") {
        return Err(ApiError::new(409, "already_completed", "This action is already complete."));
    }
    Ok(())
}

/// Real workspaces live a hundred years.
pub const WORKSPACE_LIFETIME_SECS: i64 = 36_500 * DAY;

/// Deadlines of workspace actions may lie up to a year ahead.
pub const WORKSPACE_HORIZON_DAYS: i64 = 365;

/// Organization exports are kept a day.
pub const EXPORT_RETENTION_SECS: i64 = 24 * HOUR;

/// The format name of an organization export.
pub const EXPORT_FORMAT: &'static str = "client-action-room-export-v1";

impl StaffProfile {
    /// The profile of a signed-in staff member and their firm, if any.
    pub fn for_member(
        id: String,
        name: String,
        email: String,
        has_workspace: bool,
        membership: Option<(String, String)>,
    ) -> (r: StaffProfile)
        ensures
            r.id == id,
            r.name == name,
            r.email == email,
            r.has_workspace == has_workspace,
            r.organization_id == (match membership {
                Some(m) => Some(m.0),
                None => None,
            }),
            r.role == (match membership {
                Some(m) => Some(m.1),
                None => None,
            }),
    {
        let (organization_id, role) = match membership {
            Some((o, r)) => (Some(o), Some(r)),
            None => (None, None),
        };
        StaffProfile { id, name, email, has_workspace, organization_id, role }
    }
}


impl OrganizationOverview {
    /// A firm as a member with `role` sees it; recurring billing is not yet
    /// offered.
    pub fn assemble(
        id: String,
        name: String,
        time_zone: String,
        region: String,
        retention_days: i64,
        deletion_due_at: Option<String>,
        role: String,
        workspaces: Vec<WorkspaceSummary>,
        members: Vec<MemberSummary>,
        subscription: Option<SubscriptionSummary>,
    ) -> (r: OrganizationOverview)
        ensures
            r.id == id,
            r.name == name,
            r.time_zone == time_zone,
            r.region == region,
            r.retention_days == retention_days,
            r.deletion_due_at == deletion_due_at,
            r.role == role,
            r.workspaces == workspaces,
            r.members == members,
            r.subscription == subscription,
            !r.recurring_billing_available,
    {
        OrganizationOverview {
            id,
            name,
            time_zone,
            region,
            retention_days,
            deletion_due_at,
            role,
            workspaces,
            members,
            subscription,
            recurring_billing_available: false,
        }
    }
}

/// What the billing page shows: recurring billing is not registered yet,
/// the firm's plan if it has one, and that exports stay available.
#[derive(Clone, Debug)]
pub struct BillingStatus {
    pub available: bool,
    pub reason: &'static str,
    pub subscription: Option<SubscriptionSummary>,
    pub export_available: bool,
}

/// The billing status of a firm with plan `subscription`.
pub fn billing_status(subscription: Option<SubscriptionSummary>) -> (r: BillingStatus)
    ensures
        !r.available,
        r.reason == "recurring_billing_not_registered",
        r.subscription == subscription,
        r.export_available,
{
    BillingStatus {
        available: false,
        reason: "recurring_billing_not_registered",
        subscription,
        export_available: true,
    }
}


} // verus!
