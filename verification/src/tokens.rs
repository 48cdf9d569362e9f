//! The list of agent tokens.

use vstd::prelude::*;
use vstd::seq_lib::to_multiset_insert;
use crate::clock::system_seconds;
use crate::record::{Reply, answer, reply};
use crate::text::{chars_of, opt_text};

verus! {

/// What is known of a token.
#[derive(Debug, Clone, PartialEq, Eq)]
pub struct TokenInfo {
    /// When it was approved; 0 for imported tokens.
    pub created_at: u64,
    /// The host that last registered with it.
    pub hostname: Option<String>,
    /// When an agent last connected with it.
    pub last_seen: u64,
}

impl Default for TokenInfo {
    fn default() -> (r: Self)
        ensures
            r == (TokenInfo { created_at: 0, hostname: None, last_seen: 0 }),
    {
        TokenInfo { created_at: 0, hostname: None, last_seen: 0 }
    }
}

/// A token as the operator sees it.
#[derive(Debug, Clone, PartialEq, Eq)]
pub struct TokenListRow {
    pub token_preview: String,
    pub hostname: Option<String>,
    pub created_at: u64,
    pub last_seen: u64,
}

/// The view of `TokenListRow`.
pub struct TokenListView {
    pub token_preview: Seq<char>,
    pub hostname: Option<Seq<char>>,
    pub created_at: u64,
    pub last_seen: u64,
}

impl View for TokenListRow {
    type V = TokenListView;

    open spec fn view(&self) -> TokenListView {
        TokenListView {
            token_preview: self.token_preview@,
            hostname: opt_text(self.hostname),
            created_at: self.created_at,
            last_seen: self.last_seen,
        }
    }
}

/// What is shown of a token: its first and last four characters, or only stars
/// where it is short.
pub open spec fn preview_of(token: Seq<char>) -> Seq<char> {
    if token.len() <= 12 {
        Seq::new(token.len(), |i: int| '*')
    } else {
        token.take(4) + seq!['…'] + token.skip(token.len() - 4)
    }
}

/// What is shown of a token.
pub fn preview(token: &str) -> (r: String)
    ensures
        r@ == preview_of(token@),
{
    let cs = chars_of(token);
    let n: usize = cs.len();
    let mut out = String::new();
    if n <= 12 {
        let mut i: usize = 0;
        while i < n
            invariant
                i <= n,
                out@ == Seq::new(i as nat, |j: int| '*'),
            decreases n - i,
        {
            out.push('*');
            i += 1;
            assert(out@ =~= Seq::new(i as nat, |j: int| '*'));
        }
        return out;
    }
    out.push(cs[0]);
    out.push(cs[1]);
    out.push(cs[2]);
    out.push(cs[3]);
    out.push('…');
    out.push(cs[n - 4]);
    out.push(cs[n - 3]);
    out.push(cs[n - 2]);
    out.push(cs[n - 1]);
    assert(out@ =~= preview_of(token@));
    out
}

/// A preview of a long token gives away eight of its characters.
pub proof fn law_preview_hides_the_middle(a: Seq<char>, b: Seq<char>)
    requires
        a.len() > 12,
        b.len() > 12,
        a.take(4) == b.take(4),
        a.skip(a.len() - 4) == b.skip(b.len() - 4),
    ensures
        preview_of(a) == preview_of(b),
{
}

/// Whether a row comes no later than another: the last seen first, and of two
/// seen at the same time the last created.
pub open spec fn in_order(a: TokenListView, b: TokenListView) -> bool {
    a.last_seen > b.last_seen || (a.last_seen == b.last_seen && a.created_at >= b.created_at)
}

/// The views of rows.
pub open spec fn row_views(v: Seq<TokenListRow>) -> Seq<TokenListView> {
    v.map_values(|r: TokenListRow| r@)
}

/// The row of a token.
pub open spec fn row_of(t: (String, TokenInfo)) -> TokenListView {
    TokenListView {
        token_preview: preview_of(t.0@),
        hostname: opt_text(t.1.hostname),
        created_at: t.1.created_at,
        last_seen: t.1.last_seen,
    }
}

fn row_for(t: &(String, TokenInfo)) -> (r: TokenListRow)
    ensures
        r@ == row_of(*t),
{
    TokenListRow {
        token_preview: preview(t.0.as_str()),
        hostname: crate::text::copy_opt(&t.1.hostname),
        created_at: t.1.created_at,
        last_seen: t.1.last_seen,
    }
}

/// The tokens as the operator sees them: each once, the last seen first.
pub fn list_rows(tokens: &[(String, TokenInfo)]) -> (r: Vec<TokenListRow>)
    ensures
        row_views(r@).to_multiset() == tokens@.map_values(
            |t: (String, TokenInfo)| row_of(t),
        ).to_multiset(),
        forall|i: int, j: int|
            0 <= i < j < r@.len() ==> in_order((#[trigger] r@[i])@, (#[trigger] r@[j])@),
{
    let mut out: Vec<TokenListRow> = Vec::new();
    let ghost rows = tokens@.map_values(|t: (String, TokenInfo)| row_of(t));
    let mut n: usize = 0;
    proof {
        assert(rows.take(0) =~= Seq::<TokenListView>::empty());
        assert(row_views(out@) =~= Seq::<TokenListView>::empty());
    }
    while n < tokens.len()
        invariant
            n <= tokens.len(),
            out@.len() == n,
            rows == tokens@.map_values(|t: (String, TokenInfo)| row_of(t)),
            row_views(out@).to_multiset() == rows.take(n as int).to_multiset(),
            forall|i: int, j: int|
                0 <= i < j < out@.len() ==> in_order((#[trigger] out@[i])@, (#[trigger] out@[j])@),
        decreases tokens.len() - n,
    {
        let row = row_for(&tokens[n]);
        let mut at: usize = 0;
        while at < out.len() && (out[at].last_seen > row.last_seen || (out[at].last_seen
            == row.last_seen && out[at].created_at >= row.created_at))
            invariant
                at <= out@.len(),
                forall|i: int| 0 <= i < at ==> in_order((#[trigger] out@[i])@, row@),
            decreases out@.len() - at,
        {
            at += 1;
        }
        let ghost before = out@;
        let ghost v = row@;
        assert(at < before.len() ==> in_order(v, before[at as int]@));
        assert forall|i: int| at <= i < before.len() implies in_order(v, (#[trigger] before[i])@) by {
            if i > at {
                assert(in_order(before[at as int]@, before[i]@));
            }
        }
        out.insert(at, row);
        proof {
            assert(row_views(out@) =~= row_views(before).insert(at as int, v));
            to_multiset_insert(row_views(before), at as int, v);
            assert(rows.take(n + 1) =~= rows.take(n as int).push(v));
            vstd::seq_lib::to_multiset_build(rows.take(n as int), v);
            assert forall|i: int, j: int| 0 <= i < j < out@.len() implies in_order(
                (#[trigger] out@[i])@,
                (#[trigger] out@[j])@,
            ) by {
                let bi = if i < at {
                    i
                } else {
                    i - 1
                };
                let bj = if j < at {
                    j
                } else {
                    j - 1
                };
                if i != at {
                    assert(out@[i] == before[bi]);
                }
                if j != at {
                    assert(out@[j] == before[bj]);
                }
            }
        }
        n += 1;
    }
    assert(rows.take(n as int) =~= rows);
    out
}

/// The answer to a request to revoke a token.
pub fn revoke_reply(known: bool) -> (r: Reply)
    ensures
        r@ == (if known {
            answer(200, "Revoked"@)
        } else {
            answer(404, "Unknown token"@)
        }),
{
    if known {
        reply(200, "Revoked")
    } else {
        reply(404, "Unknown token")
    }
}

/// The seconds since 1970 by the machine's clock.
pub fn now_unix() -> (r: u64) {
    system_seconds()
}

/// A preview shows four characters at either end of a long token and none of a short
/// one.
pub proof fn law_previews_show_the_ends(token: Seq<char>, i: int)
    ensures
        token.len() > 12 ==> preview_of(token).len() == 9 && preview_of(token).take(4) == token.take(
            4,
        ) && preview_of(token).skip(5) == token.skip(token.len() - 4) && preview_of(token)[4] == '…',
        token.len() <= 12 ==> preview_of(token).len() == token.len(),
        token.len() <= 12 && 0 <= i < token.len() ==> preview_of(token)[i] == '*',
{
    if token.len() > 12 {
        assert(preview_of(token).take(4) =~= token.take(4));
        assert(preview_of(token).skip(5) =~= token.skip(token.len() - 4));
    }
}

/// What is listed of a token is what is known of it, under its preview.
pub proof fn law_tokens_are_listed_as_known(t: (String, TokenInfo))
    ensures
        row_of(t).hostname == opt_text(t.1.hostname),
        row_of(t).created_at == t.1.created_at,
        row_of(t).last_seen == t.1.last_seen,
        row_of(t).token_preview == preview_of(t.0@),
{
}

/// Those seen last come first, and of those the newest.
pub proof fn law_recent_tokens_come_first(a: TokenListView, b: TokenListView)
    ensures
        a.last_seen > b.last_seen ==> in_order(a, b) && !in_order(b, a),
        a.last_seen == b.last_seen && a.created_at > b.created_at ==> in_order(a, b) && !in_order(b, a),
{
}

} // verus!
