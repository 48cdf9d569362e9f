//! What the server answers with and what it puts on record.

use vstd::prelude::*;
use crate::text::opt_text;

verus! {

/// A plain-text answer: an HTTP status and a body.
#[derive(Debug, Clone, PartialEq, Eq)]
pub struct Reply {
    pub status: u16,
    pub body: String,
}

/// The view of `Reply`.
pub struct ReplyView {
    pub status: u16,
    pub body: Seq<char>,
}

impl View for Reply {
    type V = ReplyView;

    open spec fn view(&self) -> ReplyView {
        ReplyView { status: self.status, body: self.body@ }
    }
}

/// An answer with the given status and body.
pub open spec fn answer(status: u16, body: Seq<char>) -> ReplyView {
    ReplyView { status, body }
}

/// An answer with the given status and body.
pub fn reply(status: u16, body: &str) -> (r: Reply)
    ensures
        r@ == answer(status, body@),
{
    Reply { status, body: body.to_owned() }
}

/// An entry of the audit log, without its time.
#[derive(Debug, Clone, PartialEq, Eq)]
pub struct Audit {
    pub actor: Option<String>,
    pub agent_id: Option<String>,
    pub kind: String,
    pub ok: bool,
    pub detail: Option<String>,
}

/// The view of `Audit`.
pub struct AuditView {
    pub actor: Option<Seq<char>>,
    pub agent_id: Option<Seq<char>>,
    pub kind: Seq<char>,
    pub ok: bool,
    pub detail: Option<Seq<char>>,
}

impl View for Audit {
    type V = AuditView;

    open spec fn view(&self) -> AuditView {
        AuditView {
            actor: opt_text(self.actor),
            agent_id: opt_text(self.agent_id),
            kind: self.kind@,
            ok: self.ok,
            detail: opt_text(self.detail),
        }
    }
}

/// An entry of the in-app notification list, without its time.
#[derive(Debug, Clone, PartialEq, Eq)]
pub struct Notice {
    pub kind: String,
    pub agent_id: Option<String>,
    pub level: String,
    pub title: String,
    pub body: Option<String>,
}

/// The view of `Notice`.
pub struct NoticeView {
    pub kind: Seq<char>,
    pub agent_id: Option<Seq<char>>,
    pub level: Seq<char>,
    pub title: Seq<char>,
    pub body: Option<Seq<char>>,
}

impl View for Notice {
    type V = NoticeView;

    open spec fn view(&self) -> NoticeView {
        NoticeView {
            kind: self.kind@,
            agent_id: opt_text(self.agent_id),
            level: self.level@,
            title: self.title@,
            body: opt_text(self.body),
        }
    }
}

} // verus!
