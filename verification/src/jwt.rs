//! Session tokens, as the `jsonwebtoken` crate signs and reads them.

use jsonwebtoken::{DecodingKey, EncodingKey, Header, Validation};
use serde::de::IgnoredAny;
use serde_json::Value;
use vstd::prelude::*;
use crate::json_object::{
    Member, MemberView, object_members, pick_member, read_object, sole_member,
};
use crate::primitives::{base64url_data, base64url_decode, lemma_base64url_reads_back};
use crate::text::{split_char, split_on, texts};

verus! {

/// The members that the server reads of a token.
#[derive(Debug, Clone, PartialEq, Eq)]
pub struct Members {
    pub sub: Member,
    pub exp: Member,
    pub iat: Member,
    pub role: Member,
    pub mfa: Member,
    pub cli: Member,
}

/// The view of `Members`.
pub struct MembersView {
    pub sub: MemberView,
    pub exp: MemberView,
    pub iat: MemberView,
    pub role: MemberView,
    pub mfa: MemberView,
    pub cli: MemberView,
}

impl View for Members {
    type V = MembersView;

    open spec fn view(&self) -> MembersView {
        MembersView {
            sub: self.sub@,
            exp: self.exp@,
            iat: self.iat@,
            role: self.role@,
            mfa: self.mfa@,
            cli: self.cli@,
        }
    }
}

/// The token that holds the members, signed with the secret.
pub uninterp spec fn signed_token(
    sub: Seq<char>,
    exp: u64,
    iat: i64,
    role: Seq<char>,
    mfa: bool,
    cli: bool,
    secret: Seq<char>,
) -> Seq<char>;

/// The second at which a token expires that is good under the secret but for its
/// age. None for any other text.
pub uninterp spec fn token_expiry(token: Seq<char>, secret: Seq<char>) -> Option<u64>;

/// What a token carries: the bytes that the second of its three parts encodes.
pub open spec fn token_payload(token: Seq<char>) -> Option<Seq<u8>> {
    let parts = split_on(token, '.');
    if parts.len() == 3 {
        base64url_data(parts[1])
    } else {
        None
    }
}

/// The members that the server reads of what a token carries, where each is there
/// once or not at all.
pub open spec fn payload_members(payload: Seq<u8>) -> Option<MembersView> {
    match object_members(payload) {
        None => None,
        Some(list) => {
            let sub = sole_member(list, "sub"@);
            let exp = sole_member(list, "exp"@);
            let iat = sole_member(list, "iat"@);
            let role = sole_member(list, "role"@);
            let mfa = sole_member(list, "mfa"@);
            let cli = sole_member(list, "cli"@);
            if sub is Some && exp is Some && iat is Some && role is Some && mfa is Some && cli
                is Some {
                Some(
                    MembersView {
                        sub: sub->0,
                        exp: exp->0,
                        iat: iat->0,
                        role: role->0,
                        mfa: mfa->0,
                        cli: cli->0,
                    },
                )
            } else {
                None
            }
        },
    }
}

/// The members that the server reads of a token.
pub open spec fn token_members(token: Seq<char>) -> Option<MembersView> {
    match token_payload(token) {
        Some(payload) => payload_members(payload),
        None => None,
    }
}

/// The members that a token is signed for.
pub open spec fn members_for(
    sub: Seq<char>,
    exp: u64,
    iat: i64,
    role: Seq<char>,
    mfa: bool,
    cli: bool,
) -> MembersView {
    MembersView {
        sub: MemberView::Text(sub),
        exp: MemberView::Number(Some(exp as i128)),
        iat: MemberView::Number(Some(iat as i128)),
        role: MemberView::Text(role),
        mfa: MemberView::Bool(mfa),
        cli: MemberView::Bool(cli),
    }
}

/// `jsonwebtoken::encode` with the default header, HMAC over the secret's bytes,
/// on an object with the given members. With an HMAC key and a JSON object it
/// has no way to fail. The token is good under the same secret until `exp`, and
/// carries each of these members once.
#[verifier::external_body]
pub(crate) fn sign_token(
    sub: &str,
    exp: u64,
    iat: i64,
    role: &str,
    mfa: bool,
    cli: bool,
    secret: &str,
) -> (r: Result<String, String>)
    ensures
        r is Ok,
        r->Ok_0@ == signed_token(sub@, exp, iat, role@, mfa, cli, secret@),
        token_expiry(r->Ok_0@, secret@) == Some(exp),
        token_members(r->Ok_0@) == Some(members_for(sub@, exp, iat, role@, mfa, cli)),
{
    let mut claims = serde_json::Map::new();
    claims.insert("sub".to_string(), Value::from(sub));
    claims.insert("exp".to_string(), Value::from(exp));
    claims.insert("iat".to_string(), Value::from(iat));
    claims.insert("role".to_string(), Value::from(role));
    claims.insert("mfa".to_string(), Value::from(mfa));
    claims.insert("cli".to_string(), Value::from(cli));
    let key = EncodingKey::from_secret(secret.as_bytes());
    jsonwebtoken::encode(&Header::default(), &claims, &key).map_err(|e| e.to_string())
}

/// The view of optional members.
pub open spec fn opt_members(o: Option<Members>) -> Option<MembersView> {
    match o {
        Some(m) => Some(m@),
        None => None,
    }
}

/// Whether an expiry lies at `floor` or after it.
pub open spec fn lives(expiry: Option<u64>, floor: u64) -> bool {
    expiry matches Some(at) && at >= floor
}

/// Whether a token that carries these members expires when they say, where they say
/// it by an integer.
pub open spec fn expires_as_said(expiry: Option<u64>, members: Option<MembersView>) -> bool {
    members matches Some(m) && m.exp matches MemberView::Number(Some(n)) ==> 0 <= n <= u64::MAX
        && expiry == Some(n as u64)
}

/// `jsonwebtoken::decode` with the default validation, whatever the token carries:
/// whether the secret confirms it and it has not expired. It has where its expiry
/// lies before some second, which is that of the clock less a leeway of 60; which
/// one that is depends on the clock. The expiry is the member `exp` where that is an
/// integer. Before the second minute of 1970 the call may panic.
#[verifier::external_body]
pub(crate) fn confirm_token(token: &str, secret: &str) -> (r: bool)
    ensures
        exists|floor: u64| r == #[trigger] lives(token_expiry(token@, secret@), floor),
        r ==> expires_as_said(token_expiry(token@, secret@), token_members(token@)),
{
    let key = DecodingKey::from_secret(secret.as_bytes());
    jsonwebtoken::decode::<IgnoredAny>(token, &key, &Validation::default()).is_ok()
}

/// What a token carries.
pub fn read_payload(token: &str) -> (r: Option<Vec<u8>>)
    ensures
        match r {
            Some(payload) => token_payload(token@) == Some(payload@),
            None => token_payload(token@) is None,
        },
{
    let parts = split_char(token, '.');
    assert(texts(parts@).len() == parts@.len());
    if parts.len() != 3 {
        return None;
    }
    assert(texts(parts@)[1] == parts@[1]@);
    let read = base64url_decode(parts[1].as_str());
    proof {
        if read is Some {
            lemma_base64url_reads_back(read->0@);
        }
    }
    read
}

/// The members that the server reads of what a token carries, where each is there
/// once or not at all.
pub fn read_members(payload: &[u8]) -> (r: Option<Members>)
    ensures
        opt_members(r) == payload_members(payload@),
{
    let list = read_object(payload)?;
    let sub = pick_member(list.as_slice(), "sub")?;
    let exp = pick_member(list.as_slice(), "exp")?;
    let iat = pick_member(list.as_slice(), "iat")?;
    let role = pick_member(list.as_slice(), "role")?;
    let mfa = pick_member(list.as_slice(), "mfa")?;
    let cli = pick_member(list.as_slice(), "cli")?;
    Some(Members { sub, exp, iat, role, mfa, cli })
}

/// The claims of a token are its middle part: of three parts, and of no other number.
pub proof fn law_claims_are_the_middle_part(head: Seq<char>, body: Seq<char>, sig: Seq<char>)
    requires
        !head.contains('.'),
        !body.contains('.'),
        !sig.contains('.'),
    ensures
        token_payload(head + seq!['.'] + body + seq!['.'] + sig) == base64url_data(body),
        token_payload(head) is None,
        token_payload(head + seq!['.'] + body) is None,
{
    lemma_one_part(head);
    lemma_one_part(body);
    lemma_one_part(sig);
    lemma_first_part(head, body);
    lemma_first_part(body, sig);
    lemma_first_part(head, body + seq!['.'] + sig);
    assert(head + seq!['.'] + body + seq!['.'] + sig =~= head + seq!['.'] + (body + seq!['.'] + sig));
}

proof fn lemma_one_part(s: Seq<char>)
    requires
        !s.contains('.'),
    ensures
        split_on(s, '.') == seq![s],
{
    crate::text::lemma_first_at(s, '.');
    if crate::text::first_at(s, '.') < s.len() {
        assert(s.contains(s[crate::text::first_at(s, '.')]));
    }
}

proof fn lemma_first_part(a: Seq<char>, b: Seq<char>)
    requires
        !a.contains('.'),
    ensures
        split_on(a + seq!['.'] + b, '.') == seq![a] + split_on(b, '.'),
{
    let s = a + seq!['.'] + b;
    assert forall|i: int| 0 <= i < a.len() implies s[i] != '.' by {
        assert(s[i] == a[i]);
        assert(a.contains(a[i]));
    }
    assert(s[a.len() as int] == '.');
    crate::text::lemma_first_at_unique(s, '.', a.len() as int);
    assert(s.take(a.len() as int) =~= a);
    assert(s.skip(a.len() as int + 1) =~= b);
}

/// A token whose payload names a claim twice says nothing, whichever claim it is.
pub proof fn law_claims_stand_once(payload: Seq<u8>, list: Seq<(Seq<char>, Seq<u8>)>)
    requires
        object_members(payload) == Some(list),
        payload_members(payload) is Some,
    ensures
        sole_member(list, "sub"@) == Some(payload_members(payload)->0.sub),
        sole_member(list, "exp"@) == Some(payload_members(payload)->0.exp),
        sole_member(list, "iat"@) == Some(payload_members(payload)->0.iat),
        sole_member(list, "role"@) == Some(payload_members(payload)->0.role),
        sole_member(list, "mfa"@) == Some(payload_members(payload)->0.mfa),
        sole_member(list, "cli"@) == Some(payload_members(payload)->0.cli),
{
}

} // verus!
