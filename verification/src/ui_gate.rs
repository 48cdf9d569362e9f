//! What a user's message to an agent has to pass before the agent gets it.

use vstd::prelude::*;
use crate::auth::{Role, role_of};
use crate::ee::Approval;
use crate::record::{Audit, AuditView};
use crate::text::{cat2, cat3, cat4, i64_text, int_text, opt_text, str_eq};

verus! {

/// What is known of a kind of request: the action that policies name it by, and
/// whom it asks for.
#[derive(Debug, Clone, PartialEq, Eq)]
pub struct RequestSecurity {
    pub action: Option<String>,
    pub requires_admin: bool,
    pub requires_approval: bool,
}

/// A user's message to an agent, and what was found out about it so far.
#[derive(Debug, Clone, PartialEq, Eq)]
pub struct UiRequest {
    pub login: String,
    pub agent_id: String,
    /// The kind of the message.
    pub variant: String,
    /// Whether the user may see the agent.
    pub agent_allowed: bool,
    /// What is known of the kind, where it is one that users may send.
    pub security: Option<RequestSecurity>,
    /// Whether there is a sidecar.
    pub ee_active: bool,
    /// Whether all protections are off.
    pub dev_mode: bool,
    /// The role of the user as it is stored now. Inside, none where the user is
    /// not known.
    pub role: Option<Option<String>>,
    /// Whether the sidecar lets the user do it.
    pub permitted: Option<bool>,
    /// What the sidecar says of a second admin.
    pub approval: Option<Approval>,
    /// Whether the operation it belongs to is the user's own.
    pub owned: Option<bool>,
}

/// What happens next with a user's message.
#[derive(Debug, Clone, PartialEq, Eq)]
pub enum UiStep {
    /// Read the user's role.
    AskRole,
    /// Ask the sidecar whether the user may do it.
    AskPermission { action: String },
    /// Ask the sidecar whether a second admin has to agree.
    AskApproval { action: String },
    /// Start, use or stop the operation that the message belongs to.
    ClaimOperation,
    /// Tell the user that it is refused.
    Deny { variant: String, reason: String, audit: Option<Audit> },
    /// Send it to the agent.
    Deliver,
}

/// The view of an optional audit entry.
pub open spec fn opt_audit(o: Option<Audit>) -> Option<AuditView> {
    match o {
        Some(a) => Some(a@),
        None => None,
    }
}

/// Whether a step refuses with these words.
pub open spec fn denies(step: UiStep, with: Seq<char>, why: Seq<char>, entry: Option<AuditView>) -> bool {
    step matches UiStep::Deny { variant, reason, audit } && variant@ == with && reason@ == why
        && opt_audit(audit) == entry
}

/// The stored role, `viewer` where the user is not known.
pub open spec fn role_word(role: Option<Seq<char>>) -> Seq<char> {
    match role {
        Some(r) => r,
        None => "viewer"@,
    }
}

impl UiRequest {
    /// Whether the sidecar has a say.
    pub open spec fn policed(self) -> bool {
        self.ee_active && !self.dev_mode
    }

    /// Whether a step is the one that comes after the sidecar's policy was asked.
    pub open spec fn is_after_policy(self, security: RequestSecurity, step: UiStep) -> bool {
        if !self.dev_mode && security.requires_admin && self.role is None {
            step is AskRole
        } else if !self.dev_mode && security.requires_admin && role_of(
            role_word(opt_text(self.role->0)),
        ) != Role::Admin {
            denies(
                step,
                self.variant@,
                "admin only"@,
                Some(
                    AuditView {
                        actor: Some(self.login@),
                        agent_id: Some(self.agent_id@),
                        kind: "ws.send_to_agent.denied"@,
                        ok: false,
                        detail: Some(
                            "role="@ + role_word(opt_text(self.role->0)) + " variant="@
                                + self.variant@,
                        ),
                    },
                ),
            )
        } else if self.policed() && security.requires_approval {
            match opt_text(security.action) {
                None => denies(
                    step,
                    self.variant@,
                    "request has no approval action mapping"@,
                    None,
                ),
                Some(wanted) => match self.approval {
                    None => step matches UiStep::AskApproval { action } && action@ == wanted,
                    Some(Approval::NotNeeded) => self.is_after_approval(step),
                    Some(Approval::Held { request_id }) => denies(
                        step,
                        "approval_pending"@,
                        "held for approval — request #"@ + int_text(request_id as int)
                            + "; a second admin must approve it in the Approvals tab"@,
                        Some(
                            AuditView {
                                actor: Some(self.login@),
                                agent_id: Some(self.agent_id@),
                                kind: "ws.approval.held"@,
                                ok: true,
                                detail: Some(
                                    "action="@ + wanted + " request="@ + int_text(request_id as int),
                                ),
                            },
                        ),
                    ),
                    Some(Approval::Unavailable) => denies(
                        step,
                        "approval_unavailable"@,
                        "approval system unavailable — action blocked (fail-closed)"@,
                        None,
                    ),
                },
            }
        } else {
            self.is_after_approval(step)
        }
    }

    /// Whether a step is the one that comes after all policies were asked.
    pub open spec fn is_after_approval(self, step: UiStep) -> bool {
        match self.owned {
            None => step is ClaimOperation,
            Some(false) => denies(
                step,
                self.variant@,
                "operation is owned by another client"@,
                None,
            ),
            Some(true) => step is Deliver,
        }
    }

    /// Whether a step is the one that comes next.
    pub open spec fn is_next(self, step: UiStep) -> bool {
        if !self.agent_allowed {
            denies(step, "agent_access"@, "not in your allowed agents"@, None)
        } else {
            match self.security {
                None => denies(
                    step,
                    self.variant@,
                    "message is not an allowed UI request"@,
                    None,
                ),
                Some(security) => if self.policed() && self.role is None {
                    step is AskRole
                } else if self.policed() && opt_text(self.role->0) != Some("admin"@)
                    && security.action is Some && self.permitted is None {
                    step matches UiStep::AskPermission { action } && action@ == security.action->0@
                } else if self.policed() && opt_text(self.role->0) != Some("admin"@)
                    && security.action is Some && self.permitted == Some(false) {
                    denies(
                        step,
                        security.action->0@,
                        "denied: "@ + security.action->0@,
                        None,
                    )
                } else {
                    self.is_after_policy(security, step)
                },
            }
        }
    }

    /// What happens next.
    pub fn next(&self) -> (r: UiStep)
        ensures
            self.is_next(r),
    {
        if !self.agent_allowed {
            return deny("agent_access", "not in your allowed agents", None);
        }
        let security = match &self.security {
            None => return deny(
                self.variant.as_str(),
                "message is not an allowed UI request",
                None,
            ),
            Some(s) => s,
        };
        if self.ee_active && !self.dev_mode {
            let admin = match &self.role {
                None => return UiStep::AskRole,
                Some(None) => false,
                Some(Some(role)) => str_eq(role.as_str(), "admin"),
            };
            if !admin {
                if let Some(action) = &security.action {
                    match self.permitted {
                        None => return UiStep::AskPermission { action: action.clone() },
                        Some(false) => {
                            let reason = cat2("denied: ", action.as_str());
                            return deny(action.as_str(), reason.as_str(), None);
                        },
                        Some(true) => {},
                    }
                }
            }
        }
        self.after_policy(security)
    }

    fn after_policy(&self, security: &RequestSecurity) -> (r: UiStep)
        ensures
            self.is_after_policy(*security, r),
    {
        if !self.dev_mode && security.requires_admin {
            let role = match &self.role {
                None => return UiStep::AskRole,
                Some(None) => "viewer".to_owned(),
                Some(Some(role)) => role.clone(),
            };
            if Role::parse(role.as_str()) != Role::Admin {
                let audit = Audit {
                    actor: Some(self.login.clone()),
                    agent_id: Some(self.agent_id.clone()),
                    kind: "ws.send_to_agent.denied".to_owned(),
                    ok: false,
                    detail: Some(
                        cat4("role=", role.as_str(), " variant=", self.variant.as_str()),
                    ),
                };
                return deny(self.variant.as_str(), "admin only", Some(audit));
            }
        }
        if self.ee_active && !self.dev_mode && security.requires_approval {
            let action = match &security.action {
                None => return deny(
                    self.variant.as_str(),
                    "request has no approval action mapping",
                    None,
                ),
                Some(a) => a,
            };
            match self.approval {
                None => return UiStep::AskApproval { action: action.clone() },
                Some(Approval::NotNeeded) => {},
                Some(Approval::Held { request_id }) => {
                    let number = i64_text(request_id);
                    let reason = cat3(
                        "held for approval — request #",
                        number.as_str(),
                        "; a second admin must approve it in the Approvals tab",
                    );
                    let audit = Audit {
                        actor: Some(self.login.clone()),
                        agent_id: Some(self.agent_id.clone()),
                        kind: "ws.approval.held".to_owned(),
                        ok: true,
                        detail: Some(
                            cat4("action=", action.as_str(), " request=", number.as_str()),
                        ),
                    };
                    return deny("approval_pending", reason.as_str(), Some(audit));
                },
                Some(Approval::Unavailable) => return deny(
                    "approval_unavailable",
                    "approval system unavailable — action blocked (fail-closed)",
                    None,
                ),
            }
        }
        match self.owned {
            None => UiStep::ClaimOperation,
            Some(false) => deny(
                self.variant.as_str(),
                "operation is owned by another client",
                None,
            ),
            Some(true) => UiStep::Deliver,
        }
    }
}

fn deny(variant: &str, reason: &str, audit: Option<Audit>) -> (r: UiStep)
    ensures
        denies(r, variant@, reason@, opt_audit(audit)),
{
    UiStep::Deny { variant: variant.to_owned(), reason: reason.to_owned(), audit }
}

/// A message reaches an agent only if the user may see the agent, the message is
/// one that users may send, and the operation it belongs to is the user's own.
pub proof fn law_delivery_needs_access_and_ownership(q: UiRequest)
    requires
        q.is_next(UiStep::Deliver),
    ensures
        q.agent_allowed,
        q.security is Some,
        q.owned == Some(true),
{
}

/// Unless all protections are off, what asks for an admin reaches an agent only
/// from a user who is stored as one.
pub proof fn law_delivery_needs_the_role(q: UiRequest)
    requires
        q.is_next(UiStep::Deliver),
        !q.dev_mode,
        q.security->0.requires_admin,
    ensures
        q.role is Some,
        role_of(role_word(opt_text(q.role->0))) == Role::Admin,
{
}

/// Where there is a sidecar and protections are on, nothing reaches an agent that
/// the sidecar has to permit or to have approved and has not, and what it could
/// not be asked about does not either.
pub proof fn law_delivery_needs_the_sidecar(q: UiRequest)
    requires
        q.is_next(UiStep::Deliver),
        q.policed(),
    ensures
        q.security->0.action is Some && opt_text(q.role->0) != Some("admin"@) ==> q.permitted == Some(
            true,
        ),
        q.security->0.requires_approval ==> q.security->0.action is Some && q.approval == Some(
            Approval::NotNeeded,
        ),
{
}

/// No policy waits for a claim: a message that a policy refuses is refused before
/// its operation is claimed, and in the same words whoever owns the operation.
pub proof fn law_refusals_come_before_claims(q: UiRequest, owned: Option<bool>, step: UiStep)
    requires
        q.owned is None,
        q.is_next(step),
        step is Deny,
    ensures
        ({
            let later = UiRequest { owned, ..q };
            later.is_next(step)
        }),
{
}

/// A request reaches the agent as soon as nothing stands against it: the user may see
/// the agent, the message is one that users may send, the role is enough, the sidecar
/// permits it and asks for no second admin, and the operation is the user's own.
pub proof fn law_allowed_requests_are_delivered(q: UiRequest, step: UiStep)
    requires
        q.is_next(step),
        q.agent_allowed,
        q.security is Some,
        q.owned == Some(true),
        q.role is Some,
        q.security->0.requires_admin && !q.dev_mode ==> opt_text(q.role->0) == Some("admin"@),
        q.ee_active && !q.dev_mode && q.security->0.action is Some && opt_text(q.role->0) != Some(
            "admin"@,
        ) ==> q.permitted == Some(true),
        q.ee_active && !q.dev_mode && q.security->0.requires_approval ==> q.security->0.action is Some
            && q.approval == Some(Approval::NotNeeded),
    ensures
        step is Deliver,
{
}

/// What is refused is refused for its reason, and the user is told which.
pub proof fn law_refusals_name_their_reason(q: UiRequest, step: UiStep)
    requires
        q.is_next(step),
    ensures
        !q.agent_allowed ==> step is Deny && step->reason@ == "not in your allowed agents"@,
        q.agent_allowed && q.security is None ==> step is Deny && step->reason@
            == "message is not an allowed UI request"@,
        q.owned == Some(false) ==> !(step is Deliver),
        q.agent_allowed && q.security is Some && q.dev_mode && q.owned == Some(false) ==> step is Deny
            && step->reason@ == "operation is owned by another client"@,
        q.permitted == Some(false) && q.ee_active && !q.dev_mode && q.agent_allowed && q.security
            is Some && q.security->0.action is Some && q.role is Some && opt_text(q.role->0) != Some(
            "admin"@,
        ) ==> step is Deny && step->variant@ == q.security->0.action->0@,
        q.agent_allowed && q.security is Some && q.security->0.requires_admin && !q.dev_mode
            && !q.ee_active && q.role is Some && opt_text(q.role->0) != Some("admin"@) ==> step is Deny
            && step->reason@ == "admin only"@ && step->audit is Some && !step->audit->0@.ok,
{
    reveal_strlit("admin");
    reveal_strlit("viewer");
    assert("admin"@.len() != "viewer"@.len());
}

/// What the sidecar is asked is about the action that the message stands for, and only
/// where there is a sidecar; an action that is held is not sent.
pub proof fn law_the_sidecar_is_asked_for_the_action(q: UiRequest, step: UiStep)
    requires
        q.is_next(step),
    ensures
        step matches UiStep::AskPermission { action } ==> q.ee_active && !q.dev_mode
            && q.security is Some && opt_text(q.security->0.action) == Some(action@),
        step matches UiStep::AskApproval { action } ==> q.ee_active && !q.dev_mode
            && q.security is Some && opt_text(q.security->0.action) == Some(action@)
            && q.security->0.requires_approval,
        q.ee_active && !q.dev_mode && q.security is Some && q.security->0.requires_approval
            && q.approval is Some && q.approval->0 is Held ==> !(step is Deliver),
        q.ee_active && !q.dev_mode && q.security is Some && q.security->0.requires_approval
            && q.approval is Some && q.approval->0 is Unavailable ==> !(step is Deliver),
{
}

} // verus!
