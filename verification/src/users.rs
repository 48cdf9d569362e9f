//! Changing and removing users.

use vstd::prelude::*;
use crate::auth::is_admin_text;
use crate::db::UserListRow;
use crate::record::{Audit, AuditView, Reply, ReplyView, answer, reply};
use crate::text::{cat2, cat4, lemma_filter_push, opt_str, str_eq};

verus! {

/// How many of the users are admins.
pub open spec fn admin_count(users: Seq<UserListRow>) -> nat {
    users.filter(|u: UserListRow| is_admin_text(u.role@)).len()
}

/// How many of the users are admins.
pub fn count_admins(users: &[UserListRow]) -> (r: usize)
    ensures
        r == admin_count(users@),
{
    let ghost p = |u: UserListRow| is_admin_text(u.role@);
    let mut n: usize = 0;
    let mut i: usize = 0;
    proof {
        reveal(Seq::filter);
        assert(users@.take(0) =~= Seq::<UserListRow>::empty());
    }
    while i < users.len()
        invariant
            i <= users.len(),
            n <= i,
            p == (|u: UserListRow| is_admin_text(u.role@)),
            n == users@.take(i as int).filter(p).len(),
        decreases users.len() - i,
    {
        proof {
            lemma_filter_push(users@.take(i as int), users@[i as int], p);
            assert(users@.take(i + 1) =~= users@.take(i as int).push(users@[i as int]));
        }
        if str_eq(users[i].role.as_str(), "admin") {
            n += 1;
        }
        i += 1;
    }
    assert(users@.take(i as int) =~= users@);
    n
}

/// Why a user may not get a role, if so: an unknown role, or the last admin
/// would be gone. `users` is missing where the table could not be read;
/// `target_role` is the user's role, where there is one.
pub open spec fn set_role_refusal(
    role: Seq<char>,
    users: Option<Seq<UserListRow>>,
    target_role: Option<Seq<char>>,
) -> Option<ReplyView> {
    if role != "admin"@ && role != "viewer"@ {
        Some(answer(400, "role must be admin or viewer"@))
    } else if role == "viewer"@ && users is None {
        Some(answer(500, "db error"@))
    } else if role == "viewer"@ && target_role == Some("admin"@) && admin_count(users->0) <= 1 {
        Some(answer(409, "cannot demote the last admin — promote someone else first"@))
    } else {
        None
    }
}

/// The view of an optional answer.
pub open spec fn reply_view(r: Option<Reply>) -> Option<ReplyView> {
    match r {
        Some(reply) => Some(reply@),
        None => None,
    }
}

/// The rows of an optional slice.
pub open spec fn opt_rows(o: Option<&[UserListRow]>) -> Option<Seq<UserListRow>> {
    match o {
        Some(s) => Some(s@),
        None => None,
    }
}

/// Why a user may not get a role, if so.
pub fn check_set_role(role: &str, users: Option<&[UserListRow]>, target_role: Option<&str>) -> (r:
    Option<Reply>)
    ensures
        reply_view(r) == set_role_refusal(role@, opt_rows(users), opt_str(target_role)),
{
    proof {
        reveal_strlit("admin");
        reveal_strlit("viewer");
    }
    if !str_eq(role, "admin") && !str_eq(role, "viewer") {
        return Some(reply(400, "role must be admin or viewer"));
    }
    if str_eq(role, "viewer") {
        match users {
            None => {
                return Some(reply(500, "db error"));
            },
            Some(list) => {
                let admins: usize = count_admins(list);
                let target_is_admin = match target_role {
                    Some(t) => str_eq(t, "admin"),
                    None => false,
                };
                if target_is_admin && admins <= 1 {
                    return Some(
                        reply(409, "cannot demote the last admin — promote someone else first"),
                    );
                }
            },
        }
    }
    None
}

/// How a change of the user table went.
#[derive(Debug, Clone, Copy, PartialEq, Eq, Structural)]
pub enum Change {
    Failed,
    NoSuchUser,
    Done,
}

/// What is on record of a new role.
pub open spec fn role_entry(actor: Seq<char>, login: Seq<char>, role: Seq<char>) -> AuditView {
    AuditView {
        actor: Some(actor),
        agent_id: None,
        kind: "users.set_role"@,
        ok: true,
        detail: Some("login="@ + login + " role="@ + role),
    }
}

/// Whether a change of role is answered and recorded so.
pub open spec fn role_is_changed(
    change: Change,
    actor: Seq<char>,
    login: Seq<char>,
    role: Seq<char>,
    r: (Reply, Option<Audit>),
) -> bool {
    &&& r.0@ == (match change {
        Change::Failed => answer(500, "db error"@),
        Change::NoSuchUser => answer(404, "no such user"@),
        Change::Done => answer(200, "ok"@),
    })
    &&& r.1 is Some == (change is Done)
    &&& r.1 is Some ==> r.1->0@ == role_entry(actor, login, role)
}

/// The answer to a change of a role, and what goes on record.
pub fn set_role_done(change: Change, actor: &str, login: &str, role: &str) -> (r: (
    Reply,
    Option<Audit>,
))
    ensures
        role_is_changed(change, actor@, login@, role@, r),
{
    match change {
        Change::Failed => (reply(500, "db error"), None),
        Change::NoSuchUser => (reply(404, "no such user"), None),
        Change::Done => {
            let audit = Audit {
                actor: Some(actor.to_owned()),
                agent_id: None,
                kind: "users.set_role".to_owned(),
                ok: true,
                detail: Some(cat4("login=", login, " role=", role)),
            };
            (reply(200, "ok"), Some(audit))
        },
    }
}

/// Why a user may not be removed, if so: it is the actor, or the last admin.
pub open spec fn delete_refusal(
    actor: Seq<char>,
    login: Seq<char>,
    users: Option<Seq<UserListRow>>,
    target_role: Option<Seq<char>>,
) -> Option<ReplyView> {
    if actor == login {
        Some(answer(409, "cannot remove your own seat"@))
    } else if target_role == Some("admin"@) && users is None {
        Some(answer(500, "db error"@))
    } else if target_role == Some("admin"@) && admin_count(users->0) <= 1 {
        Some(answer(409, "cannot remove the last admin — promote someone else first"@))
    } else {
        None
    }
}

/// Why a user may not be removed, if so.
pub fn check_delete(
    actor: &str,
    login: &str,
    users: Option<&[UserListRow]>,
    target_role: Option<&str>,
) -> (r: Option<Reply>)
    ensures
        reply_view(r) == delete_refusal(actor@, login@, opt_rows(users), opt_str(target_role)),
{
    if str_eq(actor, login) {
        return Some(reply(409, "cannot remove your own seat"));
    }
    let target_is_admin = match target_role {
        Some(t) => str_eq(t, "admin"),
        None => false,
    };
    if target_is_admin {
        match users {
            None => {
                return Some(reply(500, "db error"));
            },
            Some(list) => {
                if count_admins(list) <= 1 {
                    return Some(
                        reply(409, "cannot remove the last admin — promote someone else first"),
                    );
                }
            },
        }
    }
    None
}

/// Whether the removal of a user is answered and recorded so.
pub open spec fn user_is_deleted(
    change: Change,
    actor: Seq<char>,
    login: Seq<char>,
    r: (Reply, Option<Audit>),
) -> bool {
    &&& r.0@ == (match change {
        Change::Failed => answer(500, "db error"@),
        Change::NoSuchUser => answer(404, "no such user"@),
        Change::Done => answer(200, "ok"@),
    })
    &&& r.1 is Some == (change is Done)
    &&& r.1 is Some ==> r.1->0@ == (AuditView {
        actor: Some(actor),
        agent_id: None,
        kind: "users.delete"@,
        ok: true,
        detail: Some("login="@ + login),
    })
}

/// The answer to a removal, and what goes on record.
pub fn delete_done(change: Change, actor: &str, login: &str) -> (r: (Reply, Option<Audit>))
    ensures
        user_is_deleted(change, actor@, login@, r),
{
    match change {
        Change::Failed => (reply(500, "db error"), None),
        Change::NoSuchUser => (reply(404, "no such user"), None),
        Change::Done => {
            let audit = Audit {
                actor: Some(actor.to_owned()),
                agent_id: None,
                kind: "users.delete".to_owned(),
                ok: true,
                detail: Some(cat2("login=", login)),
            };
            (reply(200, "ok"), Some(audit))
        },
    }
}

proof fn lemma_two_admins(users: Seq<UserListRow>, i: int)
    requires
        0 <= i < users.len(),
        is_admin_text(users[i].role@),
        forall|j: int|
            0 <= j < users.len() && j != i ==> !is_admin_text((#[trigger] users[j]).role@),
    ensures
        admin_count(users) == 1,
    decreases users.len(),
{
    let p = |u: UserListRow| is_admin_text(u.role@);
    reveal(Seq::filter);
    let front = users.drop_last();
    assert(users =~= front.push(users.last()));
    lemma_filter_push(front, users.last(), p);
    if i == users.len() - 1 {
        lemma_no_admins(front);
    } else {
        assert(!is_admin_text(users[users.len() - 1].role@));
        lemma_two_admins(front, i);
    }
}

proof fn lemma_no_admins(users: Seq<UserListRow>)
    requires
        forall|j: int| 0 <= j < users.len() ==> !is_admin_text((#[trigger] users[j]).role@),
    ensures
        admin_count(users) == 0,
    decreases users.len(),
{
    let p = |u: UserListRow| is_admin_text(u.role@);
    reveal(Seq::filter);
    if users.len() > 0 {
        let front = users.drop_last();
        assert(users =~= front.push(users.last()));
        lemma_filter_push(front, users.last(), p);
        assert(!is_admin_text(users[users.len() - 1].role@));
        lemma_no_admins(front);
    }
}

/// The last admin stays one: where an admin may be demoted or removed, there is
/// another.
pub proof fn law_last_admin_stays(users: Seq<UserListRow>, i: int, actor: Seq<char>)
    requires
        0 <= i < users.len(),
        is_admin_text(users[i].role@),
        set_role_refusal("viewer"@, Some(users), Some(users[i].role@)) is None || delete_refusal(
            actor,
            users[i].login@,
            Some(users),
            Some(users[i].role@),
        ) is None,
    ensures
        exists|j: int| 0 <= j < users.len() && j != i && is_admin_text((#[trigger] users[j]).role@),
{
    reveal_strlit("admin");
    reveal_strlit("viewer");
    if forall|j: int|
        0 <= j < users.len() && j != i ==> !is_admin_text((#[trigger] users[j]).role@) {
        lemma_two_admins(users, i);
    }
}

/// Nobody removes themselves.
pub proof fn law_no_self_removal(
    login: Seq<char>,
    users: Option<Seq<UserListRow>>,
    target_role: Option<Seq<char>>,
)
    ensures
        delete_refusal(login, login, users, target_role) is Some,
{
}

/// A user's role can be set to either of the two roles, unless that would leave no
/// admin.
pub proof fn law_roles_can_be_set(
    role: Seq<char>,
    users: Seq<UserListRow>,
    target_role: Option<Seq<char>>,
)
    ensures
        set_role_refusal("admin"@, Some(users), target_role) is None,
        set_role_refusal("admin"@, None, target_role) is None,
        target_role != Some("admin"@) ==> set_role_refusal("viewer"@, Some(users), target_role) is None,
        target_role == Some("admin"@) ==> (set_role_refusal("viewer"@, Some(users), target_role)
            is None <==> users.filter(|u: UserListRow| u.role@ == "admin"@).len() >= 2),
        role != "admin"@ && role != "viewer"@ ==> (set_role_refusal(
            role,
            Some(users),
            target_role,
        ) matches Some(e) && e.status == 400),
        set_role_refusal("viewer"@, Some(users), target_role) matches Some(e) ==> e.status == 409,
{
    reveal_strlit("admin");
    reveal_strlit("viewer");
    assert("admin"@.len() != "viewer"@.len());
    assert((|u: UserListRow| is_admin_text(u.role@)) =~= (|u: UserListRow| u.role@ == "admin"@));
}

/// A user can be removed by another, unless that would leave no admin.
pub proof fn law_users_can_be_removed(
    actor: Seq<char>,
    login: Seq<char>,
    users: Seq<UserListRow>,
    target_role: Option<Seq<char>>,
)
    requires
        actor != login,
    ensures
        target_role != Some("admin"@) ==> delete_refusal(actor, login, Some(users), target_role)
            is None,
        target_role == Some("admin"@) ==> (delete_refusal(actor, login, Some(users), target_role)
            is None <==> users.filter(|u: UserListRow| u.role@ == "admin"@).len() >= 2),
        delete_refusal(actor, login, Some(users), target_role) matches Some(e) ==> e.status == 409,
        target_role == Some("admin"@) ==> delete_refusal(actor, login, None, target_role) is Some,
{
    assert((|u: UserListRow| is_admin_text(u.role@)) =~= (|u: UserListRow| u.role@ == "admin"@));
}

/// A change of a user is told as it went, and on record exactly where it was made: who
/// made it, and of whom.
pub proof fn law_changes_of_users_are_told_truly(
    change: Change,
    actor: Seq<char>,
    login: Seq<char>,
    role: Seq<char>,
    set: (Reply, Option<Audit>),
    gone: (Reply, Option<Audit>),
)
    requires
        role_is_changed(change, actor, login, role, set),
        user_is_deleted(change, actor, login, gone),
    ensures
        set.0@.status == 200 <==> change is Done,
        gone.0@.status == 200 <==> change is Done,
        change is NoSuchUser ==> set.0@.status == 404 && gone.0@.status == 404,
        change is Failed ==> set.0@.status == 500 && gone.0@.status == 500,
        set.1 is Some <==> change is Done,
        gone.1 is Some <==> change is Done,
        change is Done ==> set.1->0@.ok && set.1->0@.actor == Some(actor) && set.1->0@.detail == Some(
            "login="@ + login + " role="@ + role,
        ) && set.1->0@.kind == "users.set_role"@,
        change is Done ==> gone.1->0@.ok && gone.1->0@.actor == Some(actor) && gone.1->0@.detail
            == Some("login="@ + login) && gone.1->0@.kind == "users.delete"@,
{
}

/// Each admin counts once, and nobody else does.
pub proof fn law_admins_are_counted(users: Seq<UserListRow>, u: UserListRow)
    ensures
        admin_count(Seq::empty()) == 0,
        u.role@ == "admin"@ ==> admin_count(users.push(u)) == admin_count(users) + 1,
        u.role@ == "viewer"@ ==> admin_count(users.push(u)) == admin_count(users),
{
    reveal(Seq::filter);
    reveal_strlit("admin");
    reveal_strlit("viewer");
    assert("admin"@.len() != "viewer"@.len());
    lemma_filter_push(users, u, |u: UserListRow| is_admin_text(u.role@));
}

} // verus!
