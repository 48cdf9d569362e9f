//! API keys: what identifies them, and what their policies allow.

use vstd::prelude::*;
use vstd::utf8::encode_utf8;
use crate::json::{list_from_json, list_of_json, opt_list};
use crate::primitives::{sha256, sha256_of};
use crate::record::{Reply, ReplyView, answer, reply};
use crate::text::{
    after_prefix, cat3, chars_of, ends_with, hex, hex_text, i64_of_text, opt_str, opt_text,
    parse_i64, starts_with, str_eq, string_range, strip_prefix, texts, trim, trimmed,
};

verus! {

/// Whether a pattern covers an action: `*` covers all, one that ends in `:*`
/// all that start with what stands before the star, any other only itself.
pub open spec fn covers(pattern: Seq<char>, action: Seq<char>) -> bool {
    ||| pattern == "*"@
    ||| if ":*"@.is_suffix_of(pattern) {
        pattern.drop_last().is_prefix_of(action)
    } else {
        pattern == action
    }
}

/// Whether a pattern covers an action.
pub fn matches_action(pattern: &str, action: &str) -> (r: bool)
    ensures
        r == covers(pattern@, action@),
{
    if str_eq(pattern, "*") {
        return true;
    }
    if ends_with(pattern, ":*") {
        proof {
            reveal_strlit(":*");
        }
        let cs = chars_of(pattern);
        let prefix = string_range(cs.as_slice(), 0, cs.len() - 1);
        assert(prefix@ =~= pattern@.drop_last());
        return starts_with(action, prefix.as_str());
    }
    str_eq(pattern, action)
}

/// A statement of a policy. Its actions and resources are JSON lists.
#[derive(Debug, Clone, PartialEq, Eq)]
pub struct IamStatement {
    pub effect: String,
    pub actions: String,
    pub resources: String,
}

/// A statement with its lists, where they could be read.
#[derive(Debug, Clone, PartialEq, Eq)]
pub struct ReadStatement {
    pub effect: String,
    pub actions: Option<Vec<String>>,
    pub resources: Option<Vec<String>>,
}

/// The view of `ReadStatement`.
pub struct StatementView {
    pub effect: Seq<char>,
    pub actions: Option<Seq<Seq<char>>>,
    pub resources: Option<Seq<Seq<char>>>,
}

impl View for ReadStatement {
    type V = StatementView;

    open spec fn view(&self) -> StatementView {
        StatementView {
            effect: self.effect@,
            actions: opt_list(self.actions),
            resources: opt_list(self.resources),
        }
    }
}

/// The views of statements.
pub open spec fn statement_views(v: Seq<ReadStatement>) -> Seq<StatementView> {
    v.map_values(|s: ReadStatement| s@)
}

/// Why a statement cannot bind a key, if so: its resources are not exactly all.
pub open spec fn resource_refusal(s: StatementView) -> Option<ReplyView> {
    match s.resources {
        None => Some(answer(500, "malformed policy resources"@)),
        Some(list) => if list == seq!["*"@] {
            None
        } else {
            Some(answer(500, "resource-constrained policies cannot bind to API keys"@))
        },
    }
}

/// The refusal of the first statement that cannot bind a key.
pub open spec fn first_resource_refusal(rows: Seq<StatementView>) -> Option<ReplyView>
    decreases rows.len(),
{
    if rows.len() == 0 {
        None
    } else if resource_refusal(rows[0]) is Some {
        resource_refusal(rows[0])
    } else {
        first_resource_refusal(rows.skip(1))
    }
}

/// Whether some pattern of a list covers an action.
pub open spec fn any_covers(list: Seq<Seq<char>>, action: Seq<char>) -> bool {
    exists|i: int| 0 <= i < list.len() && covers(#[trigger] list[i], action)
}

/// What the statements say of an action, in order, where `allowed` says whether
/// an earlier one allowed it: a list that cannot be read or a statement that
/// denies it ends the matter; otherwise it has to be allowed.
pub open spec fn action_refusal(
    rows: Seq<StatementView>,
    action: Seq<char>,
    allowed: bool,
) -> Option<ReplyView>
    decreases rows.len(),
{
    if rows.len() == 0 {
        if allowed {
            None
        } else {
            Some(
                answer(
                    403,
                    "API key scope '"@ + action + "' is not permitted by its bound policy"@,
                ),
            )
        }
    } else {
        match rows[0].actions {
            None => Some(answer(500, "malformed policy actions"@)),
            Some(list) => if any_covers(list, action) && rows[0].effect == "Deny"@ {
                Some(
                    answer(403, "API key scope '"@ + action + "' is denied by its bound policy"@),
                )
            } else {
                action_refusal(
                    rows.skip(1),
                    action,
                    allowed || (any_covers(list, action) && rows[0].effect == "Allow"@),
                )
            },
        }
    }
}

/// Why the statements of a policy do not let a key do something, if so.
pub open spec fn policy_refusal(rows: Seq<StatementView>, action: Seq<char>) -> Option<ReplyView> {
    if first_resource_refusal(rows) is Some {
        first_resource_refusal(rows)
    } else {
        action_refusal(rows, action, false)
    }
}

/// The view of the outcome of a check.
pub open spec fn refusal_view(r: Result<(), Reply>) -> Option<ReplyView> {
    match r {
        Ok(()) => None,
        Err(e) => Some(e@),
    }
}

fn covered_by(list: &[String], action: &str) -> (r: bool)
    ensures
        r == any_covers(texts(list@), action@),
{
    let mut i: usize = 0;
    while i < list.len()
        invariant
            i <= list.len(),
            forall|j: int| 0 <= j < i ==> !covers(#[trigger] texts(list@)[j], action@),
        decreases list.len() - i,
    {
        assert(texts(list@)[i as int] == list@[i as int]@);
        if matches_action(list[i].as_str(), action) {
            return true;
        }
        i += 1;
    }
    false
}

/// Whether the statements of a policy let a key do something.
pub fn check_statements(rows: &[ReadStatement], action: &str) -> (r: Result<(), Reply>)
    ensures
        refusal_view(r) == policy_refusal(statement_views(rows@), action@),
{
    let ghost all = statement_views(rows@);
    let mut i: usize = 0;
    assert(all.skip(0) =~= all);
    while i < rows.len()
        invariant
            i <= rows.len(),
            all == statement_views(rows@),
            first_resource_refusal(all) == first_resource_refusal(all.skip(i as int)),
        decreases rows.len() - i,
    {
        assert(all.skip(i as int)[0] == rows@[i as int]@);
        assert(all.skip(i as int).skip(1) =~= all.skip(i + 1));
        match &rows[i].resources {
            None => {
                return Err(reply(500, "malformed policy resources"));
            },
            Some(list) => {
                if list.len() != 1 || !str_eq(list[0].as_str(), "*") {
                    assert(texts(list@) != seq!["*"@]) by {
                        if texts(list@) == seq!["*"@] {
                            assert(texts(list@).len() == 1);
                            assert(texts(list@)[0] == list@[0]@);
                        }
                    }
                    return Err(
                        reply(500, "resource-constrained policies cannot bind to API keys"),
                    );
                }
                assert(texts(list@) =~= seq!["*"@]);
            },
        }
        i += 1;
    }
    let mut allowed = false;
    let mut j: usize = 0;
    while j < rows.len()
        invariant
            j <= rows.len(),
            all == statement_views(rows@),
            first_resource_refusal(all) is None,
            action_refusal(all, action@, false) == action_refusal(
                all.skip(j as int),
                action@,
                allowed,
            ),
        decreases rows.len() - j,
    {
        assert(all.skip(j as int)[0] == rows@[j as int]@);
        assert(all.skip(j as int).skip(1) =~= all.skip(j + 1));
        match &rows[j].actions {
            None => {
                return Err(reply(500, "malformed policy actions"));
            },
            Some(list) => {
                if covered_by(list.as_slice(), action) {
                    if str_eq(rows[j].effect.as_str(), "Deny") {
                        let body = cat3(
                            "API key scope '",
                            action,
                            "' is denied by its bound policy",
                        );
                        return Err(reply(403, body.as_str()));
                    }
                    if str_eq(rows[j].effect.as_str(), "Allow") {
                        allowed = true;
                    }
                }
            },
        }
        j += 1;
    }
    if allowed {
        Ok(())
    } else {
        let body = cat3("API key scope '", action, "' is not permitted by its bound policy");
        Err(reply(403, body.as_str()))
    }
}

/// A statement with its lists read.
pub open spec fn read_view(s: IamStatement) -> StatementView {
    StatementView {
        effect: s.effect@,
        actions: list_of_json(s.actions@),
        resources: list_of_json(s.resources@),
    }
}

/// The policy that a key is bound to, by its header.
pub open spec fn bound_policy(header: Option<Seq<char>>) -> Option<i64> {
    match header {
        Some(h) => i64_of_text(h),
        None => None,
    }
}

/// The policy that a key is bound to, by its header.
pub fn policy_id(header: Option<&str>) -> (r: Option<i64>)
    ensures
        r == bound_policy(opt_str(header)),
{
    match header {
        Some(h) => parse_i64(h),
        None => None,
    }
}

/// Why a request is refused by the policy that its key is bound to. A key without a
/// policy is not; one whose policy cannot be loaded is.
pub open spec fn key_refusal(
    header: Option<Seq<char>>,
    rows: Option<Seq<StatementView>>,
    action: Seq<char>,
) -> Option<ReplyView> {
    if bound_policy(header) is None {
        None
    } else if rows is None {
        Some(answer(500, "failed to load policy statements"@))
    } else {
        policy_refusal(rows->0, action)
    }
}

/// The statements of a policy as they read.
pub open spec fn opt_statements(rows: Option<&[IamStatement]>) -> Option<Seq<StatementView>> {
    match rows {
        Some(list) => Some(list@.map_values(|s: IamStatement| read_view(s))),
        None => None,
    }
}

/// Whether a key may do something. `policy_header` names the policy that it is
/// bound to; a key without one may do what its role may. `rows` are the policy's
/// statements, missing where they could not be loaded.
pub fn require_key_action(
    policy_header: Option<&str>,
    rows: Option<&[IamStatement]>,
    required_action: &str,
) -> (r: Result<(), Reply>)
    ensures
        refusal_view(r) == key_refusal(
            opt_str(policy_header),
            opt_statements(rows),
            required_action@,
        ),
{
    if policy_id(policy_header).is_none() {
        return Ok(());
    }
    let rows = match rows {
        Some(rows) => rows,
        None => {
            return Err(reply(500, "failed to load policy statements"));
        },
    };
    let mut read: Vec<ReadStatement> = Vec::new();
    let mut i: usize = 0;
    while i < rows.len()
        invariant
            i <= rows.len(),
            read@.len() == i,
            forall|j: int| 0 <= j < i ==> (#[trigger] read@[j])@ == read_view(rows@[j]),
        decreases rows.len() - i,
    {
        read.push(
            ReadStatement {
                effect: rows[i].effect.clone(),
                actions: list_from_json(rows[i].actions.as_str()),
                resources: list_from_json(rows[i].resources.as_str()),
            },
        );
        i += 1;
    }
    assert(statement_views(read@) =~= rows@.map_values(|s: IamStatement| read_view(s)));
    check_statements(read.as_slice(), required_action)
}

/// A statement that denies an action wins over every statement that allows it.
pub proof fn law_deny_wins(rows: Seq<StatementView>, action: Seq<char>, i: int)
    requires
        0 <= i < rows.len(),
        rows[i].effect == "Deny"@,
        rows[i].actions is Some,
        any_covers(rows[i].actions->0, action),
    ensures
        policy_refusal(rows, action) is Some,
{
    lemma_deny_wins(rows, action, false, i);
}

proof fn lemma_deny_wins(rows: Seq<StatementView>, action: Seq<char>, allowed: bool, i: int)
    requires
        0 <= i < rows.len(),
        rows[i].effect == "Deny"@,
        rows[i].actions is Some,
        any_covers(rows[i].actions->0, action),
    ensures
        action_refusal(rows, action, allowed) is Some,
    decreases rows.len(),
{
    if i > 0 && rows[0].actions is Some && !(any_covers(rows[0].actions->0, action)
        && rows[0].effect == "Deny"@) {
        let next = allowed || (any_covers(rows[0].actions->0, action) && rows[0].effect
            == "Allow"@);
        assert(rows.skip(1)[i - 1] == rows[i]);
        lemma_deny_wins(rows.skip(1), action, next, i - 1);
    }
}

/// An action that no statement allows is refused.
pub proof fn law_default_is_deny(rows: Seq<StatementView>, action: Seq<char>)
    requires
        forall|i: int|
            0 <= i < rows.len() ==> !((#[trigger] rows[i]).effect == "Allow"@ && rows[i].actions
                is Some && any_covers(rows[i].actions->0, action)),
    ensures
        policy_refusal(rows, action) is Some,
{
    lemma_default_is_deny(rows, action);
}

proof fn lemma_default_is_deny(rows: Seq<StatementView>, action: Seq<char>)
    requires
        forall|i: int|
            0 <= i < rows.len() ==> !((#[trigger] rows[i]).effect == "Allow"@ && rows[i].actions
                is Some && any_covers(rows[i].actions->0, action)),
    ensures
        action_refusal(rows, action, false) is Some,
    decreases rows.len(),
{
    if rows.len() > 0 {
        assert forall|i: int| 0 <= i < rows.skip(1).len() implies !((
        #[trigger] rows.skip(1)[i]).effect == "Allow"@ && rows.skip(1)[i].actions is Some
            && any_covers(rows.skip(1)[i].actions->0, action)) by {
            assert(rows.skip(1)[i] == rows[i + 1]);
        }
        lemma_default_is_deny(rows.skip(1), action);
        assert(!(rows[0].effect == "Allow"@ && rows[0].actions is Some && any_covers(
            rows[0].actions->0,
            action,
        )));
    }
}

/// A policy with a list that cannot be read lets nothing through.
pub proof fn law_unreadable_policy_fails_closed(
    rows: Seq<StatementView>,
    action: Seq<char>,
    i: int,
)
    requires
        0 <= i < rows.len(),
        rows[i].actions is None || rows[i].resources is None,
    ensures
        policy_refusal(rows, action) is Some,
{
    if rows[i].resources is None {
        lemma_bad_resources(rows, i);
    } else {
        lemma_bad_actions(rows, action, false, i);
    }
}

proof fn lemma_bad_resources(rows: Seq<StatementView>, i: int)
    requires
        0 <= i < rows.len(),
        resource_refusal(rows[i]) is Some,
    ensures
        first_resource_refusal(rows) is Some,
    decreases rows.len(),
{
    if i > 0 && resource_refusal(rows[0]) is None {
        assert(rows.skip(1)[i - 1] == rows[i]);
        lemma_bad_resources(rows.skip(1), i - 1);
    }
}

proof fn lemma_bad_actions(rows: Seq<StatementView>, action: Seq<char>, allowed: bool, i: int)
    requires
        0 <= i < rows.len(),
        rows[i].actions is None,
    ensures
        action_refusal(rows, action, allowed) is Some,
    decreases rows.len(),
{
    if i > 0 && rows[0].actions is Some && !(any_covers(rows[0].actions->0, action)
        && rows[0].effect == "Deny"@) {
        let next = allowed || (any_covers(rows[0].actions->0, action) && rows[0].effect
            == "Allow"@);
        assert(rows.skip(1)[i - 1] == rows[i]);
        lemma_bad_actions(rows.skip(1), action, next, i - 1);
    }
}

/// The API key that an authorization header carries.
pub open spec fn api_key_of(header: Option<Seq<char>>) -> Option<Seq<char>> {
    match header {
        Some(h) => match after_prefix(h, "Bearer "@) {
            Some(t) => if "sf_live_"@.is_prefix_of(trimmed(t)) {
                Some(trimmed(t))
            } else {
                None
            },
            None => None,
        },
        None => None,
    }
}

/// The API key that an authorization header carries. A request without one is
/// none of this module's business.
pub fn api_key(header: Option<&str>) -> (r: Option<String>)
    ensures
        opt_text(r) == api_key_of(opt_str(header)),
{
    match header {
        Some(h) => match strip_prefix(h, "Bearer ") {
            Some(t) => {
                let t = trim(t.as_str());
                if starts_with(t.as_str(), "sf_live_") {
                    Some(t)
                } else {
                    None
                }
            },
            None => None,
        },
        None => None,
    }
}

/// What is stored of a key: its digest in hexadecimal.
pub fn key_hash(token: &str) -> (r: String)
    ensures
        r@ == hex_text(sha256_of(encode_utf8(token@))),
{
    let digest = sha256(token.as_bytes());
    hex(digest.as_slice())
}

/// A key that is on file and not revoked.
#[derive(Debug, Clone, PartialEq, Eq)]
pub struct KeyRow {
    pub id: i64,
    pub login: String,
    pub policy_id: Option<i64>,
    pub expires_at: Option<i64>,
}

/// Why a key is refused: there is none of that kind, or its time is over.
pub open spec fn key_fault(row: Option<KeyRow>, now: i64) -> Option<ReplyView> {
    if row is None {
        Some(answer(401, "invalid API key"@))
    } else if row->0.expires_at is Some && row->0.expires_at->0 < now {
        Some(answer(401, "API key expired"@))
    } else {
        None
    }
}

/// The row behind a reference, where there is one.
pub open spec fn opt_row(row: Option<&KeyRow>) -> Option<KeyRow> {
    match row {
        Some(k) => Some(*k),
        None => None,
    }
}

/// Whether a key may be used at `now`. `row` is missing where no such key is on
/// file.
pub fn check_key(row: Option<&KeyRow>, now: i64) -> (r: Option<Reply>)
    ensures
        (match r {
            Some(e) => Some(e@),
            None => None,
        }) == key_fault(opt_row(row), now),
{
    match row {
        None => Some(reply(401, "invalid API key")),
        Some(row) => match row.expires_at {
            Some(exp) => if exp < now {
                Some(reply(401, "API key expired"))
            } else {
                None
            },
            None => None,
        },
    }
}

/// The role of a key's user: a viewer where the user is not known.
pub fn key_role(user_role: Option<&str>) -> (r: String)
    ensures
        r@ == (match opt_str(user_role) {
            Some(t) => t,
            None => "viewer"@,
        }),
{
    match user_role {
        Some(t) => t.to_owned(),
        None => "viewer".to_owned(),
    }
}

/// A pattern covers what it names: everything, all actions of a service, or one
/// action.
pub proof fn law_patterns_cover_what_they_name(
    service: Seq<char>,
    rest: Seq<char>,
    pattern: Seq<char>,
    action: Seq<char>,
)
    ensures
        covers("*"@, action),
        covers(service + ":*"@, service + ":"@ + rest),
        covers(service + ":*"@, action) ==> (service + ":"@).is_prefix_of(action),
        covers(action, action),
        pattern != "*"@ && !":*"@.is_suffix_of(pattern) ==> (covers(pattern, action) <==> pattern
            == action),
{
    reveal_strlit("*");
    reveal_strlit(":*");
    reveal_strlit(":");
    let p = service + ":*"@;
    assert(p.subrange(p.len() - 2, p.len() as int) =~= ":*"@);
    assert(":*"@.is_suffix_of(p));
    assert(p.drop_last() =~= service + ":"@);
    assert(p.len() >= 2);
    assert("*"@.len() == 1);
    let a = service + ":"@ + rest;
    assert(a.subrange(0, p.drop_last().len() as int) =~= p.drop_last());
    if ":*"@.is_suffix_of(action) {
        assert(action.subrange(0, action.len() - 1) =~= action.drop_last());
    }
}

/// A policy lets an action pass exactly where all of it can be read, none of it is tied
/// to resources, something in it allows the action and nothing denies it.
pub proof fn law_policies_allow_what_they_say(rows: Seq<StatementView>, action: Seq<char>)
    ensures
        policy_refusal(rows, action) is None <==> {
            &&& forall|i: int|
                0 <= i < rows.len() ==> (#[trigger] rows[i]).resources == Some(seq!["*"@])
                    && rows[i].actions is Some && !(rows[i].effect == "Deny"@ && any_covers(
                    rows[i].actions->0,
                    action,
                ))
            &&& exists|i: int|
                0 <= i < rows.len() && (#[trigger] rows[i]).effect == "Allow"@ && any_covers(
                    rows[i].actions->0,
                    action,
                )
        },
        policy_refusal(rows, action) matches Some(told) ==> told.status == 403 || told.status == 500,
{
    lemma_resources(rows);
    lemma_actions(rows, action, false);
    reveal_strlit("Allow");
    reveal_strlit("Deny");
    assert("Allow"@.len() != "Deny"@.len());
}

proof fn lemma_resources(rows: Seq<StatementView>)
    ensures
        first_resource_refusal(rows) is None <==> forall|i: int|
            0 <= i < rows.len() ==> (#[trigger] rows[i]).resources == Some(seq!["*"@]),
        first_resource_refusal(rows) matches Some(told) ==> told.status == 500,
    decreases rows.len(),
{
    if rows.len() > 0 {
        lemma_resources(rows.skip(1));
        if first_resource_refusal(rows) is None {
            assert forall|i: int| 0 <= i < rows.len() implies (#[trigger] rows[i]).resources == Some(
                seq!["*"@],
            ) by {
                if i > 0 {
                    assert(rows.skip(1)[i - 1] == rows[i]);
                }
            }
        } else if forall|i: int|
            0 <= i < rows.len() ==> (#[trigger] rows[i]).resources == Some(seq!["*"@]) {
            assert(rows[0].resources == Some(seq!["*"@]));
            assert forall|i: int| 0 <= i < rows.skip(1).len() implies (
            #[trigger] rows.skip(1)[i]).resources == Some(seq!["*"@]) by {
                assert(rows.skip(1)[i] == rows[i + 1]);
            }
        }
    }
}

spec fn passes_all(rows: Seq<StatementView>, action: Seq<char>) -> bool {
    forall|i: int|
        0 <= i < rows.len() ==> (#[trigger] rows[i]).actions is Some && !(rows[i].effect == "Deny"@
            && any_covers(rows[i].actions->0, action))
}

spec fn allowed_by_one(rows: Seq<StatementView>, action: Seq<char>) -> bool {
    exists|i: int|
        0 <= i < rows.len() && (#[trigger] rows[i]).effect == "Allow"@ && any_covers(
            rows[i].actions->0,
            action,
        )
}

proof fn lemma_actions(rows: Seq<StatementView>, action: Seq<char>, allowed: bool)
    ensures
        action_refusal(rows, action, allowed) is None <==> passes_all(rows, action) && (allowed
            || allowed_by_one(rows, action)),
        action_refusal(rows, action, allowed) matches Some(told) ==> told.status == 403
            || told.status == 500,
    decreases rows.len(),
{
    if rows.len() > 0 {
        let rest = rows.skip(1);
        let here = rows[0].actions is Some && any_covers(rows[0].actions->0, action)
            && rows[0].effect == "Allow"@;
        if rows[0].actions is Some {
            lemma_actions(rest, action, allowed || here);
        }
        if passes_all(rows, action) {
            assert forall|i: int| 0 <= i < rest.len() implies (#[trigger] rest[i]).actions is Some && !(
            rest[i].effect == "Deny"@ && any_covers(rest[i].actions->0, action)) by {
                assert(rest[i] == rows[i + 1]);
            }
        }
        if rows[0].actions is Some && !(rows[0].effect == "Deny"@ && any_covers(
            rows[0].actions->0,
            action,
        )) && passes_all(rest, action) {
            assert forall|i: int| 0 <= i < rows.len() implies (#[trigger] rows[i]).actions is Some && !(
            rows[i].effect == "Deny"@ && any_covers(rows[i].actions->0, action)) by {
                if i > 0 {
                    assert(rest[i - 1] == rows[i]);
                }
            }
        }
        if allowed_by_one(rest, action) {
            let i = choose|i: int|
                0 <= i < rest.len() && (#[trigger] rest[i]).effect == "Allow"@ && any_covers(
                    rest[i].actions->0,
                    action,
                );
            assert(rows[i + 1] == rest[i]);
        }
        if allowed_by_one(rows, action) {
            let i = choose|i: int|
                0 <= i < rows.len() && (#[trigger] rows[i]).effect == "Allow"@ && any_covers(
                    rows[i].actions->0,
                    action,
                );
            if i > 0 {
                assert(rest[i - 1] == rows[i]);
            }
        }
    }
}

/// A key without a policy may do what its role may. One with a policy is bound by it,
/// and may do nothing where the policy cannot be loaded.
pub proof fn law_policies_bind_their_keys(
    header: Option<Seq<char>>,
    rows: Option<Seq<StatementView>>,
    action: Seq<char>,
)
    ensures
        header is None ==> key_refusal(header, rows, action) is None,
        header is Some && i64_of_text(header->0) is None ==> key_refusal(header, rows, action) is None,
        header is Some && i64_of_text(header->0) is Some && rows is None ==> (key_refusal(
            header,
            rows,
            action,
        ) matches Some(told) && told.status == 500),
        header is Some && i64_of_text(header->0) is Some && rows is Some ==> key_refusal(
            header,
            rows,
            action,
        ) == policy_refusal(rows->0, action),
{
}

/// A key is good until the second at which it expires, and for ever where it does not;
/// an unknown one never is.
pub proof fn law_keys_are_good_until_they_expire(row: KeyRow, now: i64)
    ensures
        key_fault(None, now) is Some && key_fault(None, now)->0.status == 401,
        row.expires_at is None ==> key_fault(Some(row), now) is None,
        row.expires_at is Some ==> (key_fault(Some(row), now) is None <==> now
            <= row.expires_at->0),
        key_fault(Some(row), now) matches Some(told) ==> told.status == 401,
{
}

/// A key is what stands behind `Bearer `, where it looks like one.
pub proof fn law_keys_are_read_from_the_header(key: Seq<char>, header: Seq<char>)
    ensures
        "sf_live_"@.is_prefix_of(key) && trimmed(key) == key ==> api_key_of(Some("Bearer "@ + key))
            == Some(key),
        api_key_of(None) is None,
        !"Bearer "@.is_prefix_of(header) ==> api_key_of(Some(header)) is None,
        api_key_of(Some(header)) matches Some(k) ==> "sf_live_"@.is_prefix_of(k),
{
    crate::text::lemma_after_prefix("Bearer "@, key);
}

/// A list covers what one of its patterns covers: the action itself, all of a family, or
/// everything.
pub proof fn law_patterns_cover_one_by_one(
    list: Seq<Seq<char>>,
    pattern: Seq<char>,
    action: Seq<char>,
    rest: Seq<char>,
)
    ensures
        any_covers(list.push(pattern), action) <==> any_covers(list, action) || covers(
            pattern,
            action,
        ),
        !any_covers(Seq::empty(), action),
        covers("*"@, action),
        !":*"@.is_suffix_of(action) ==> covers(action, action),
        covers(action + ":*"@, action + ":"@ + rest),
{
    let all = list.push(pattern);
    if any_covers(all, action) {
        let i = choose|i: int| 0 <= i < all.len() && covers(#[trigger] all[i], action);
        if i < list.len() {
            assert(covers(list[i], action));
        }
    }
    if any_covers(list, action) {
        let i = choose|i: int| 0 <= i < list.len() && covers(#[trigger] list[i], action);
        assert(covers(all[i], action));
    }
    if covers(pattern, action) {
        assert(covers(all[list.len() as int], action));
    }
    reveal_strlit(":*");
    reveal_strlit(":");
    let p = action + ":*"@;
    assert(p.subrange(p.len() - 2, p.len() as int) =~= ":*"@);
    assert(p.drop_last() =~= action + ":"@);
    let a = action + ":"@ + rest;
    assert(a.subrange(0, p.len() - 1) =~= p.drop_last());
}

} // verus!
