//! The members of a JSON object, in the order and number in which it holds them.

use serde_json::Value;
use vstd::prelude::*;
use crate::text::str_eq;

verus! {

/// A member of a JSON object.
#[derive(Debug, Clone, PartialEq, Eq)]
pub enum Member {
    /// There is none of that name.
    Missing,
    Text(String),
    /// A number, where it is an integer.
    Number(Option<i128>),
    Bool(bool),
    /// Null, a list, an object, or nothing that can be read.
    Other,
}

/// The view of `Member`.
pub enum MemberView {
    Missing,
    Text(Seq<char>),
    Number(Option<i128>),
    Bool(bool),
    Other,
}

impl View for Member {
    type V = MemberView;

    open spec fn view(&self) -> MemberView {
        match self {
            Member::Missing => MemberView::Missing,
            Member::Text(s) => MemberView::Text(s@),
            Member::Number(n) => MemberView::Number(*n),
            Member::Bool(b) => MemberView::Bool(*b),
            Member::Other => MemberView::Other,
        }
    }
}

/// What a JSON text holds.
pub uninterp spec fn json_value(json: Seq<u8>) -> MemberView;

/// `serde_json::from_slice` into a `Value`: the text, the number or the truth value
/// that the bytes hold, and `Other` for the rest.
#[verifier::external_body]
pub(crate) fn read_value(json: &[u8]) -> (r: Member)
    ensures
        r@ == json_value(json@),
{
    match serde_json::from_slice::<Value>(json) {
        Ok(Value::String(s)) => Member::Text(s),
        Ok(Value::Number(n)) => Member::Number(n.as_i128()),
        Ok(Value::Bool(b)) => Member::Bool(b),
        _ => Member::Other,
    }
}

/// A double quote.
pub const QUOTE: u8 = 0x22;

/// A backslash.
pub const BACKSLASH: u8 = 0x5c;

/// What stands between members.
pub const COMMA: u8 = 0x2c;

/// What stands between the name of a member and its value.
pub const COLON: u8 = 0x3a;

/// Whether a byte opens a list or an object.
pub open spec fn opens(c: u8) -> bool {
    c == 0x7b || c == 0x5b
}

/// Whether a byte ends a list or an object.
pub open spec fn closes(c: u8) -> bool {
    c == 0x7d || c == 0x5d
}

/// Whether a byte is a blank, a tab or the end of a line.
pub open spec fn is_gap(c: u8) -> bool {
    c == 0x20 || c == 0x09 || c == 0x0a || c == 0x0d
}

/// How far it is to the first `mark` outside quotes and brackets, or to the end.
/// So many brackets are open before the text; it begins in quotes or outside, and
/// behind a backslash or not.
pub open spec fn mark_from(b: Seq<u8>, mark: u8, depth: nat, quoted: bool, escaped: bool) -> nat
    decreases b.len(),
{
    if b.len() == 0 {
        0
    } else if quoted {
        let on = escaped || b[0] != QUOTE;
        1 + mark_from(b.skip(1), mark, depth, on, !escaped && b[0] == BACKSLASH)
    } else if depth == 0 && b[0] == mark {
        0
    } else if opens(b[0]) {
        1 + mark_from(b.skip(1), mark, depth + 1, false, false)
    } else if closes(b[0]) && depth > 0 {
        1 + mark_from(b.skip(1), mark, (depth - 1) as nat, false, false)
    } else {
        1 + mark_from(b.skip(1), mark, depth, b[0] == QUOTE, false)
    }
}

/// Where the first `mark` outside quotes and brackets stands, or the length.
pub open spec fn mark_at(b: Seq<u8>, mark: u8) -> nat {
    mark_from(b, mark, 0, false, false)
}

fn find_mark(b: &[u8], mark: u8, from: usize, to: usize) -> (r: usize)
    requires
        from <= to <= b@.len(),
    ensures
        from <= r <= to,
        r - from == mark_at(b@.subrange(from as int, to as int), mark),
{
    let mut i: usize = from;
    let mut depth: usize = 0;
    let mut quoted: bool = false;
    let mut escaped: bool = false;
    while i < to
        invariant
            from <= i <= to <= b@.len(),
            depth <= i,
            mark_at(b@.subrange(from as int, to as int), mark) == i - from + mark_from(
                b@.subrange(i as int, to as int),
                mark,
                depth as nat,
                quoted,
                escaped,
            ),
        decreases to - i,
    {
        let c: u8 = b[i];
        let ghost rest = b@.subrange(i as int, to as int);
        assert(rest.skip(1) =~= b@.subrange(i + 1, to as int));
        if quoted {
            quoted = escaped || c != QUOTE;
            escaped = !escaped && c == BACKSLASH;
        } else if depth == 0 && c == mark {
            return i;
        } else {
            escaped = false;
            if c == 0x7b || c == 0x5b {
                depth += 1;
            } else if (c == 0x7d || c == 0x5d) && depth > 0 {
                depth -= 1;
            } else {
                quoted = c == QUOTE;
            }
        }
        i += 1;
    }
    i
}

/// A text without the gaps at its ends.
pub open spec fn ungapped(b: Seq<u8>) -> Seq<u8>
    decreases b.len(),
{
    if b.len() > 0 && is_gap(b[0]) {
        ungapped(b.skip(1))
    } else if b.len() > 0 && is_gap(b.last()) {
        ungapped(b.drop_last())
    } else {
        b
    }
}

/// What stands between the braces of an object.
pub open spec fn object_body(b: Seq<u8>) -> Option<Seq<u8>> {
    let t = ungapped(b);
    if t.len() >= 2 && t[0] == 0x7b && t.last() == 0x7d {
        Some(t.subrange(1, t.len() - 1))
    } else {
        None
    }
}

/// The members that stand between the braces of an object: the name of each, and
/// the bytes of its value. None where one of them has no name.
pub open spec fn body_members(b: Seq<u8>) -> Option<Seq<(Seq<char>, Seq<u8>)>>
    decreases b.len(),
{
    let end = mark_at(b, COMMA) as int;
    let piece = b.take(end);
    let colon = mark_at(piece, COLON) as int;
    if colon >= piece.len() || !(json_value(piece.take(colon)) is Text) {
        None
    } else {
        let first = (json_value(piece.take(colon))->Text_0, piece.skip(colon + 1));
        if end >= b.len() {
            Some(seq![first])
        } else {
            match body_members(b.skip(end + 1)) {
                Some(more) => Some(seq![first] + more),
                None => None,
            }
        }
    }
}

/// The members of an object, where the bytes are one.
pub open spec fn object_members(b: Seq<u8>) -> Option<Seq<(Seq<char>, Seq<u8>)>> {
    match object_body(b) {
        Some(body) => body_members(body),
        None => None,
    }
}

/// The views of members.
pub open spec fn member_views(v: Seq<(String, Vec<u8>)>) -> Seq<(Seq<char>, Seq<u8>)> {
    v.map_values(|m: (String, Vec<u8>)| (m.0@, m.1@))
}

/// The view of what was read of an object.
pub open spec fn opt_member_views(o: Option<Vec<(String, Vec<u8>)>>) -> Option<
    Seq<(Seq<char>, Seq<u8>)>,
> {
    match o {
        Some(v) => Some(member_views(v@)),
        None => None,
    }
}

fn bytes_range(b: &[u8], from: usize, to: usize) -> (r: Vec<u8>)
    requires
        from <= to <= b@.len(),
    ensures
        r@ == b@.subrange(from as int, to as int),
{
    let mut out: Vec<u8> = Vec::new();
    let mut i: usize = from;
    while i < to
        invariant
            from <= i <= to <= b@.len(),
            out@ == b@.subrange(from as int, i as int),
        decreases to - i,
    {
        out.push(b[i]);
        i += 1;
        assert(out@ =~= b@.subrange(from as int, i as int));
    }
    out
}

fn read_body(b: &[u8], from: usize, to: usize) -> (r: Option<Vec<(String, Vec<u8>)>>)
    requires
        from <= to <= b@.len(),
    ensures
        opt_member_views(r) == body_members(b@.subrange(from as int, to as int)),
{
    let mut out: Vec<(String, Vec<u8>)> = Vec::new();
    let mut at: usize = from;
    let ghost whole = body_members(b@.subrange(from as int, to as int));
    assert(whole is Some ==> member_views(out@) + whole->0 =~= whole->0);
    loop
        invariant
            from <= at <= to <= b@.len(),
            whole == (match body_members(b@.subrange(at as int, to as int)) {
                Some(more) => Some(member_views(out@) + more),
                None => None,
            }),
            whole == body_members(b@.subrange(from as int, to as int)),
        decreases to - at,
    {
        let end: usize = find_mark(b, COMMA, at, to);
        let colon: usize = find_mark(b, COLON, at, end);
        let ghost rest = b@.subrange(at as int, to as int);
        let ghost piece = b@.subrange(at as int, end as int);
        assert(rest.take(end - at) =~= piece);
        if colon >= end {
            return None;
        }
        let name_json = bytes_range(b, at, colon);
        assert(name_json@ =~= piece.take(colon - at));
        let name = match read_value(name_json.as_slice()) {
            Member::Text(s) => s,
            _ => {
                return None;
            },
        };
        let value = bytes_range(b, colon + 1, end);
        assert(value@ =~= piece.skip(colon - at + 1));
        let ghost first = (name@, value@);
        let ghost before = member_views(out@);
        out.push((name, value));
        assert(member_views(out@) =~= before.push(first));
        if end >= to {
            assert(member_views(out@) =~= before + seq![first]);
            return Some(out);
        }
        proof {
            let next = b@.subrange(end + 1, to as int);
            assert(rest.skip(end - at + 1) =~= next);
            if body_members(next) is Some {
                let more = body_members(next)->0;
                assert(before + (seq![first] + more) =~= member_views(out@) + more);
            }
        }
        at = end + 1;
    }
}

/// The members of an object, where the bytes are one: the name of each, and the
/// bytes of its value.
pub fn read_object(b: &[u8]) -> (r: Option<Vec<(String, Vec<u8>)>>)
    ensures
        opt_member_views(r) == object_members(b@),
{
    let mut from: usize = 0;
    let mut to: usize = b.len();
    assert(b@.subrange(0, to as int) =~= b@);
    while from < to && (b[from] == 0x20 || b[from] == 0x09 || b[from] == 0x0a || b[from] == 0x0d)
        invariant
            from <= to <= b@.len(),
            ungapped(b@.subrange(from as int, to as int)) == ungapped(b@),
        decreases to - from,
    {
        assert(b@.subrange(from as int, to as int).skip(1) =~= b@.subrange(from + 1, to as int));
        from += 1;
    }
    while from < to && (b[to - 1] == 0x20 || b[to - 1] == 0x09 || b[to - 1] == 0x0a || b[to - 1]
        == 0x0d)
        invariant
            from <= to <= b@.len(),
            from < to ==> !is_gap(b@[from as int]),
            ungapped(b@.subrange(from as int, to as int)) == ungapped(b@),
        decreases to - from,
    {
        assert(b@.subrange(from as int, to as int).drop_last() =~= b@.subrange(
            from as int,
            to - 1,
        ));
        to -= 1;
    }
    let ghost t = b@.subrange(from as int, to as int);
    assert(ungapped(b@) == t);
    if to - from < 2 || b[from] != 0x7b || b[to - 1] != 0x7d {
        return None;
    }
    assert(t.subrange(1, t.len() - 1) =~= b@.subrange(from + 1, to - 1));
    read_body(b, from + 1, to - 1)
}

/// Whether a member has this name.
pub open spec fn named(name: Seq<char>) -> spec_fn((Seq<char>, Seq<u8>)) -> bool {
    |m: (Seq<char>, Seq<u8>)| m.0 == name
}

/// The values of the members of a name, in order.
pub open spec fn values_of(list: Seq<(Seq<char>, Seq<u8>)>, name: Seq<char>) -> Seq<Seq<u8>> {
    list.filter(named(name)).map_values(|m: (Seq<char>, Seq<u8>)| m.1)
}

/// The member of a name. None where there are several.
pub open spec fn sole_member(list: Seq<(Seq<char>, Seq<u8>)>, name: Seq<char>) -> Option<
    MemberView,
> {
    let values = values_of(list, name);
    if values.len() == 0 {
        Some(MemberView::Missing)
    } else if values.len() == 1 {
        Some(json_value(values[0]))
    } else {
        None
    }
}

/// The view of an optional member.
pub open spec fn opt_member(o: Option<Member>) -> Option<MemberView> {
    match o {
        Some(m) => Some(m@),
        None => None,
    }
}

/// The member of a name. None where there are several.
pub fn pick_member(list: &[(String, Vec<u8>)], name: &str) -> (r: Option<Member>)
    ensures
        opt_member(r) == sole_member(member_views(list@), name@),
{
    let ghost views = member_views(list@);
    let ghost same = named(name@);
    let mut count: usize = 0;
    let mut last: usize = 0;
    let mut i: usize = 0;
    proof {
        reveal(Seq::filter);
        assert(views.take(0).filter(same) =~= Seq::empty());
    }
    while i < list.len()
        invariant
            count <= i <= list@.len(),
            views == member_views(list@),
            same == named(name@),
            count == views.take(i as int).filter(same).len(),
            count > 0 ==> last < list@.len() && views.take(i as int).filter(same).last()
                == views[last as int],
        decreases list.len() - i,
    {
        proof {
            crate::text::lemma_filter_push(views.take(i as int), views[i as int], same);
            assert(views.take(i + 1) =~= views.take(i as int).push(views[i as int]));
        }
        if str_eq(list[i].0.as_str(), name) {
            count += 1;
            last = i;
        }
        i += 1;
    }
    assert(views.take(i as int) =~= views);
    assert(values_of(views, name@).len() == count);
    if count == 0 {
        Some(Member::Missing)
    } else if count == 1 {
        assert(values_of(views, name@)[0] == views[last as int].1);
        Some(read_value(list[last].1.as_slice()))
    } else {
        None
    }
}

/// A member counts where its name stands once: where it stands nowhere it is missing, and
/// where it stands twice the object says nothing.
pub proof fn law_members_stand_once(
    a: Seq<(Seq<char>, Seq<u8>)>,
    b: Seq<(Seq<char>, Seq<u8>)>,
    c: Seq<(Seq<char>, Seq<u8>)>,
    name: Seq<char>,
    v: Seq<u8>,
    w: Seq<u8>,
)
    requires
        forall|i: int| 0 <= i < a.len() ==> (#[trigger] a[i]).0 != name,
        forall|i: int| 0 <= i < b.len() ==> (#[trigger] b[i]).0 != name,
        forall|i: int| 0 <= i < c.len() ==> (#[trigger] c[i]).0 != name,
    ensures
        sole_member(a, name) == Some(MemberView::Missing),
        sole_member(a + seq![(name, v)] + b, name) == Some(json_value(v)),
        sole_member(a + seq![(name, v)] + b + seq![(name, w)] + c, name) is None,
{
    reveal(Seq::filter);
    let p = named(name);
    lemma_none_named(a, name);
    lemma_none_named(b, name);
    lemma_none_named(c, name);
    let x = seq![(name, v)];
    let y = seq![(name, w)];
    lemma_one_named(name, v);
    lemma_one_named(name, w);
    Seq::filter_distributes_over_add(a, x, p);
    Seq::filter_distributes_over_add(a + x, b, p);
    Seq::filter_distributes_over_add(a + x + b, y, p);
    Seq::filter_distributes_over_add(a + x + b + y, c, p);
    assert((a + x + b).filter(p) =~= x);
    assert((a + x + b + y + c).filter(p) =~= x + y);
    assert(values_of(a + x + b, name) =~= seq![v]);
    assert(values_of(a + x + b + y + c, name).len() == 2);
}

proof fn lemma_none_named(a: Seq<(Seq<char>, Seq<u8>)>, name: Seq<char>)
    requires
        forall|i: int| 0 <= i < a.len() ==> (#[trigger] a[i]).0 != name,
    ensures
        a.filter(named(name)) == Seq::<(Seq<char>, Seq<u8>)>::empty(),
    decreases a.len(),
{
    reveal(Seq::filter);
    if a.len() > 0 {
        assert forall|i: int| 0 <= i < a.drop_last().len() implies (
        #[trigger] a.drop_last()[i]).0 != name by {
            assert(a.drop_last()[i] == a[i]);
        }
        lemma_none_named(a.drop_last(), name);
    }
}

proof fn lemma_one_named(name: Seq<char>, v: Seq<u8>)
    ensures
        seq![(name, v)].filter(named(name)) == seq![(name, v)],
{
    reveal(Seq::filter);
    let s = seq![(name, v)];
    let p = named(name);
    assert(s.drop_last() =~= Seq::empty());
    assert(s.drop_last().filter(p) =~= Seq::empty());
    assert(s.last() == (name, v));
    assert(s.filter(p) =~= s);
}

/// An object stands in braces, the space around it aside.
pub proof fn law_objects_are_in_braces(b: Seq<u8>)
    ensures
        object_members(b) is Some ==> ungapped(b).len() >= 2 && ungapped(b)[0] == 0x7b
            && ungapped(b).last() == 0x7d,
        ungapped(b).len() > 0 ==> !is_gap(ungapped(b)[0]) && !is_gap(ungapped(b).last()),
{
    lemma_ungapped(b);
}

proof fn lemma_ungapped(b: Seq<u8>)
    ensures
        ungapped(b).len() > 0 ==> !is_gap(ungapped(b)[0]) && !is_gap(ungapped(b).last()),
    decreases b.len(),
{
    if b.len() > 0 && is_gap(b[0]) {
        lemma_ungapped(b.skip(1));
    } else if b.len() > 0 && is_gap(b.last()) {
        lemma_ungapped(b.drop_last());
    }
}

/// Whether a byte stands for itself: it neither quotes, nests nor separates.
pub open spec fn is_plain(c: u8) -> bool {
    c != QUOTE && c != COMMA && c != COLON && !opens(c) && !closes(c)
}

/// Plain bytes hide no mark.
proof fn lemma_plain_bytes(a: Seq<u8>, b: Seq<u8>, mark: u8)
    requires
        mark == COMMA || mark == COLON,
        forall|i: int| 0 <= i < a.len() ==> is_plain(#[trigger] a[i]),
    ensures
        mark_from(a + b, mark, 0, false, false) == a.len() + mark_from(b, mark, 0, false, false),
    decreases a.len(),
{
    if a.len() == 0 {
        assert(a + b =~= b);
    } else {
        assert((a + b)[0] == a[0] && is_plain(a[0]));
        assert((a + b).skip(1) =~= a.skip(1) + b);
        assert forall|i: int| 0 <= i < a.skip(1).len() implies is_plain(#[trigger] a.skip(1)[i]) by {
            assert(a.skip(1)[i] == a[i + 1]);
        }
        lemma_plain_bytes(a.skip(1), b, mark);
    }
}

/// What is quoted hides every mark up to the quote's end.
proof fn lemma_quoted_bytes(a: Seq<u8>, b: Seq<u8>, mark: u8)
    requires
        forall|i: int| 0 <= i < a.len() ==> #[trigger] a[i] != QUOTE && a[i] != BACKSLASH,
    ensures
        mark_from(a + seq![QUOTE] + b, mark, 0, true, false) == a.len() + 1 + mark_from(
            b,
            mark,
            0,
            false,
            false,
        ),
    decreases a.len(),
{
    let s = a + seq![QUOTE] + b;
    if a.len() == 0 {
        assert(s[0] == QUOTE);
        assert(s.skip(1) =~= b);
    } else {
        assert(s[0] == a[0]);
        assert(s.skip(1) =~= a.skip(1) + seq![QUOTE] + b);
        assert forall|i: int| 0 <= i < a.skip(1).len() implies #[trigger] a.skip(1)[i] != QUOTE
            && a.skip(1)[i] != BACKSLASH by {
            assert(a.skip(1)[i] == a[i + 1]);
        }
        lemma_quoted_bytes(a.skip(1), b, mark);
    }
}

/// A member is its quoted name, a colon and its value, whatever commas and colons stand
/// in the name; members are read one after another.
pub proof fn law_members_are_read_in_turn(name: Seq<u8>, value: Seq<u8>, rest: Seq<u8>)
    requires
        forall|i: int| 0 <= i < name.len() ==> #[trigger] name[i] != QUOTE && name[i] != BACKSLASH,
        forall|i: int| 0 <= i < value.len() ==> is_plain(#[trigger] value[i]),
        json_value(seq![QUOTE] + name + seq![QUOTE]) is Text,
    ensures
        ({
            let key = seq![QUOTE] + name + seq![QUOTE];
            let member = (json_value(key)->Text_0, value);
            &&& body_members(key + seq![COLON] + value) == Some(seq![member])
            &&& body_members(rest) is Some ==> body_members(key + seq![COLON] + value + seq![COMMA] + rest)
                == Some(seq![member] + body_members(rest)->0)
            &&& body_members(rest) is None ==> body_members(
                key + seq![COLON] + value + seq![COMMA] + rest,
            ) is None
        }),
{
    let key = seq![QUOTE] + name + seq![QUOTE];
    let piece = key + seq![COLON] + value;
    lemma_piece(name, value, Seq::empty());
    lemma_piece(name, value, seq![COMMA] + rest);
    assert(piece + Seq::<u8>::empty() =~= piece);
    assert(piece.take(piece.len() as int) =~= piece);
    let all = piece + seq![COMMA] + rest;
    assert(all =~= piece + (seq![COMMA] + rest));
    assert((seq![COMMA] + rest)[0] == COMMA);
    assert(mark_from(seq![COMMA] + rest, COMMA, 0, false, false) == 0);
    assert(all.take(piece.len() as int) =~= piece);
    assert(all.skip(piece.len() as int + 1) =~= rest);
    assert(piece.take(key.len() as int) =~= key);
    assert(piece.skip(key.len() as int + 1) =~= value);
}

/// The first comma outside a member is behind it, and its first colon behind its name.
proof fn lemma_piece(name: Seq<u8>, value: Seq<u8>, more: Seq<u8>)
    requires
        forall|i: int| 0 <= i < name.len() ==> #[trigger] name[i] != QUOTE && name[i] != BACKSLASH,
        forall|i: int| 0 <= i < value.len() ==> is_plain(#[trigger] value[i]),
    ensures
        ({
            let key = seq![QUOTE] + name + seq![QUOTE];
            let piece = key + seq![COLON] + value;
            &&& mark_at(piece + more, COMMA) == piece.len() + mark_from(more, COMMA, 0, false, false)
            &&& mark_at(piece, COLON) == key.len()
        }),
{
    let key = seq![QUOTE] + name + seq![QUOTE];
    let piece = key + seq![COLON] + value;
    let tail = seq![COLON] + value;
    assert(piece.skip(1) =~= name + seq![QUOTE] + tail);
    assert(piece[0] == QUOTE);
    lemma_quoted_bytes(name, tail, COLON);
    assert(tail[0] == COLON);
    let t = tail + more;
    assert((piece + more).skip(1) =~= name + seq![QUOTE] + t);
    assert((piece + more)[0] == QUOTE);
    lemma_quoted_bytes(name, t, COMMA);
    assert(t[0] == COLON);
    assert(t.skip(1) =~= value + more);
    lemma_plain_bytes(value, more, COMMA);
}

} // verus!
