//! Text helpers. Every function is specified over `Seq<char>`, the view of
//! `str` and `String`.

use vstd::prelude::*;
use vstd::string::StringExecFns;
use vstd::utf8::{encode_utf8, encode_utf8_decode_utf8};

verus! {

/// `String::push`: appends one character.
pub assume_specification[ String::push ](s: &mut String, ch: char)
    ensures
        final(s)@ == old(s)@.push(ch),
;

/// The texts held by a sequence of strings.
pub open spec fn texts(v: Seq<String>) -> Seq<Seq<char>> {
    v.map_values(|s: String| s@)
}

/// Whether two texts are the same.
pub fn str_eq(a: &str, b: &str) -> (r: bool)
    ensures
        r == (a@ == b@),
{
    let x: &[u8] = a.as_bytes();
    let y: &[u8] = b.as_bytes();
    proof {
        encode_utf8_decode_utf8(a@);
        encode_utf8_decode_utf8(b@);
    }
    if x.len() != y.len() {
        return false;
    }
    let mut i: usize = 0;
    while i < x.len()
        invariant
            i <= x.len(),
            x@.len() == y@.len(),
            x@ == encode_utf8(a@),
            y@ == encode_utf8(b@),
            x@.take(i as int) == y@.take(i as int),
        decreases x.len() - i,
    {
        if x[i] != y[i] {
            return false;
        }
        assert(x@.take(i + 1) =~= x@.take(i as int).push(x@[i as int]));
        assert(y@.take(i + 1) =~= y@.take(i as int).push(y@[i as int]));
        i += 1;
    }
    assert(x@.take(i as int) =~= x@);
    assert(y@.take(i as int) =~= y@);
    true
}

/// The characters of a text.
pub fn chars_of(s: &str) -> (r: Vec<char>)
    ensures
        r@ == s@,
{
    let mut out: Vec<char> = Vec::new();
    for c in it: s.chars()
        invariant
            it.seq() == s@,
            out@ == s@.take(it.index() as int),
    {
        out.push(c);
        assert(s@.take(it.index() + 1) =~= s@.take(it.index() as int).push(c));
    }
    assert(s@.take(s@.len() as int) =~= s@);
    out
}

/// The text made of a run of characters.
pub fn string_of(cs: &[char]) -> (r: String)
    ensures
        r@ == cs@,
{
    let mut out = String::new();
    let mut i: usize = 0;
    while i < cs.len()
        invariant
            i <= cs.len(),
            out@ == cs@.take(i as int),
        decreases cs.len() - i,
    {
        out.push(cs[i]);
        assert(cs@.take(i + 1) =~= cs@.take(i as int).push(cs@[i as int]));
        i += 1;
    }
    assert(cs@.take(i as int) =~= cs@);
    out
}

/// The text made of the characters from `from` up to but not including `to`.
pub fn string_range(cs: &[char], from: usize, to: usize) -> (r: String)
    requires
        from <= to <= cs@.len(),
    ensures
        r@ == cs@.subrange(from as int, to as int),
{
    let mut out = String::new();
    let mut i: usize = from;
    while i < to
        invariant
            from <= i <= to <= cs.len(),
            out@ == cs@.subrange(from as int, i as int),
        decreases to - i,
    {
        out.push(cs[i]);
        assert(cs@.subrange(from as int, i + 1) =~= cs@.subrange(from as int, i as int).push(
            cs@[i as int],
        ));
        i += 1;
    }
    out
}

/// The character of a decimal digit.
pub open spec fn digit_char(d: int) -> char {
    (48 + d) as char
}

/// A natural number in decimal, without leading zeros.
pub open spec fn decimal(n: nat) -> Seq<char>
    decreases n,
{
    if n < 10 {
        seq![digit_char(n as int)]
    } else {
        decimal(n / 10).push(digit_char((n % 10) as int))
    }
}

/// An integer in decimal, with a leading minus sign where it is negative.
pub open spec fn int_text(n: int) -> Seq<char> {
    if n < 0 {
        seq!['-'] + decimal((-n) as nat)
    } else {
        decimal(n as nat)
    }
}

/// `n` in decimal.
pub fn u64_text(n: u64) -> (r: String)
    ensures
        r@ == decimal(n as nat),
    decreases n,
{
    let d: u8 = (n % 10) as u8;
    let c: char = (48u8 + d) as char;
    if n < 10 {
        let mut out = String::new();
        out.push(c);
        assert(out@ =~= seq![digit_char(n as int)]);
        out
    } else {
        let mut out = u64_text(n / 10);
        out.push(c);
        out
    }
}

/// `n` in decimal.
pub fn i64_text(n: i64) -> (r: String)
    ensures
        r@ == int_text(n as int),
{
    if n >= 0 {
        u64_text(n as u64)
    } else {
        let m: u64 = (-(n as i128)) as u64;
        let mut out = String::new();
        out.push('-');
        let d = u64_text(m);
        assert(out@ =~= seq!['-']);
        out.append(d.as_str());
        out
    }
}


/// Unicode's `White_Space` property.
pub open spec fn is_space(c: char) -> bool {
    let u = c as u32;
    ||| 0x9 <= u <= 0xd
    ||| u == 0x20
    ||| u == 0x85
    ||| u == 0xa0
    ||| u == 0x1680
    ||| 0x2000 <= u <= 0x200a
    ||| u == 0x2028
    ||| u == 0x2029
    ||| u == 0x202f
    ||| u == 0x205f
    ||| u == 0x3000
}

/// Whether `c` has the `White_Space` property.
pub fn space_char(c: char) -> (r: bool)
    ensures
        r == is_space(c),
{
    let u: u32 = c as u32;
    (0x9 <= u && u <= 0xd) || u == 0x20 || u == 0x85 || u == 0xa0 || u == 0x1680 || (0x2000 <= u
        && u <= 0x200a) || u == 0x2028 || u == 0x2029 || u == 0x202f || u == 0x205f || u == 0x3000
}

/// `s` without the white space at its start.
pub open spec fn trim_left(s: Seq<char>) -> Seq<char>
    decreases s.len(),
{
    if s.len() > 0 && is_space(s[0]) {
        trim_left(s.skip(1))
    } else {
        s
    }
}

/// `s` without the white space at its end.
pub open spec fn trim_right(s: Seq<char>) -> Seq<char>
    decreases s.len(),
{
    if s.len() > 0 && is_space(s.last()) {
        trim_right(s.drop_last())
    } else {
        s
    }
}

/// `s` without the white space at both ends.
pub open spec fn trimmed(s: Seq<char>) -> Seq<char> {
    trim_right(trim_left(s))
}

/// A text without the white space at both ends.
pub fn trim(s: &str) -> (r: String)
    ensures
        r@ == trimmed(s@),
{
    let cs = chars_of(s);
    let mut from: usize = 0;
    assert(cs@.skip(0) =~= cs@);
    while from < cs.len() && space_char(cs[from])
        invariant
            from <= cs.len(),
            trim_left(cs@) == trim_left(cs@.skip(from as int)),
        decreases cs.len() - from,
    {
        assert(cs@.skip(from as int).skip(1) =~= cs@.skip(from + 1));
        from += 1;
    }
    let mut to: usize = cs.len();
    assert(cs@.subrange(from as int, to as int) =~= cs@.skip(from as int));
    while from < to && space_char(cs[to - 1])
        invariant
            from <= to <= cs.len(),
            trim_right(cs@.skip(from as int)) == trim_right(
                cs@.subrange(from as int, to as int),
            ),
        decreases to,
    {
        assert(cs@.subrange(from as int, to as int).drop_last() =~= cs@.subrange(
            from as int,
            to - 1,
        ));
        to -= 1;
    }
    string_range(cs.as_slice(), from, to)
}

/// The lower-case form of an ASCII capital; any other character as it is.
pub open spec fn lower_char(c: char) -> char {
    if 'A' <= c && c <= 'Z' {
        ((c as u32) + 32) as char
    } else {
        c
    }
}

/// The upper-case form of an ASCII small letter; any other character as it is.
pub open spec fn upper_char(c: char) -> char {
    if 'a' <= c && c <= 'z' {
        ((c as u32) - 32) as char
    } else {
        c
    }
}

/// `s` with its ASCII capitals in lower case.
pub open spec fn lowered(s: Seq<char>) -> Seq<char> {
    s.map_values(|c: char| lower_char(c))
}

/// `s` with its ASCII small letters in upper case.
pub open spec fn uppered(s: Seq<char>) -> Seq<char> {
    s.map_values(|c: char| upper_char(c))
}

/// One character in ASCII lower case.
pub fn to_lower_char(c: char) -> (r: char)
    ensures
        r == lower_char(c),
{
    if 'A' <= c && c <= 'Z' {
        (c as u8 + 32) as char
    } else {
        c
    }
}

/// One character in ASCII upper case.
pub fn to_upper_char(c: char) -> (r: char)
    ensures
        r == upper_char(c),
{
    if 'a' <= c && c <= 'z' {
        (c as u8 - 32) as char
    } else {
        c
    }
}

/// A text with its ASCII capitals in lower case.
pub fn ascii_lower(s: &str) -> (r: String)
    ensures
        r@ == lowered(s@),
{
    let cs = chars_of(s);
    let mut out = String::new();
    let mut i: usize = 0;
    while i < cs.len()
        invariant
            i <= cs.len(),
            out@ == lowered(cs@.take(i as int)),
        decreases cs.len() - i,
    {
        out.push(to_lower_char(cs[i]));
        i += 1;
        assert(out@ =~= lowered(cs@.take(i as int)));
    }
    assert(cs@.take(i as int) =~= cs@);
    out
}

/// A text with its ASCII small letters in upper case.
pub fn ascii_upper(s: &str) -> (r: String)
    ensures
        r@ == uppered(s@),
{
    let cs = chars_of(s);
    let mut out = String::new();
    let mut i: usize = 0;
    while i < cs.len()
        invariant
            i <= cs.len(),
            out@ == uppered(cs@.take(i as int)),
        decreases cs.len() - i,
    {
        out.push(to_upper_char(cs[i]));
        i += 1;
        assert(out@ =~= uppered(cs@.take(i as int)));
    }
    assert(cs@.take(i as int) =~= cs@);
    out
}

/// Whether the characters of `p` stand in `s` from position `at` on.
pub open spec fn occurs_at(s: Seq<char>, p: Seq<char>, at: int) -> bool {
    0 <= at && at + p.len() <= s.len() && s.subrange(at, at + p.len()) == p
}

/// Whether `p` stands somewhere in `s`.
pub open spec fn occurs(s: Seq<char>, p: Seq<char>) -> bool {
    exists|at: int| occurs_at(s, p, at)
}

/// Whether the characters of `p` stand in `s` from position `at` on.
pub fn match_at(s: &[char], p: &[char], at: usize) -> (r: bool)
    ensures
        r == occurs_at(s@, p@, at as int),
{
    if at > s.len() || p.len() > s.len() - at {
        return false;
    }
    let mut i: usize = 0;
    while i < p.len()
        invariant
            i <= p.len(),
            at + p.len() <= s.len(),
            forall|j: int| 0 <= j < i ==> s@[at + j] == p@[j],
        decreases p.len() - i,
    {
        if s[at + i] != p[i] {
            assert(s@.subrange(at as int, at + p@.len())[i as int] != p@[i as int]);
            return false;
        }
        i += 1;
    }
    assert(s@.subrange(at as int, at + p@.len()) =~= p@);
    true
}

/// Whether `s` starts with `p`.
pub fn starts_with(s: &str, p: &str) -> (r: bool)
    ensures
        r == p@.is_prefix_of(s@),
{
    let a = chars_of(s);
    let b = chars_of(p);
    assert(p@.len() <= s@.len() ==> s@.take(p@.len() as int) =~= s@.subrange(0, p@.len() as int));
    match_at(a.as_slice(), b.as_slice(), 0)
}

/// Whether `s` ends with `p`.
pub fn ends_with(s: &str, p: &str) -> (r: bool)
    ensures
        r == p@.is_suffix_of(s@),
{
    let a = chars_of(s);
    let b = chars_of(p);
    if b.len() > a.len() {
        return false;
    }
    assert(s@.subrange(s@.len() - p@.len(), s@.len() as int) =~= s@.subrange(
        s@.len() - p@.len(),
        s@.len() - p@.len() + p@.len(),
    ));
    match_at(a.as_slice(), b.as_slice(), a.len() - b.len())
}

/// Whether `p` stands somewhere in `s`.
pub fn contains_text(s: &str, p: &str) -> (r: bool)
    ensures
        r == occurs(s@, p@),
{
    let a = chars_of(s);
    let b = chars_of(p);
    if b.len() > a.len() {
        return false;
    }
    let mut at: usize = 0;
    while at <= a.len() - b.len()
        invariant
            b.len() <= a.len(),
            a@ == s@,
            b@ == p@,
            at <= a.len() - b.len() + 1,
            forall|j: int| 0 <= j < at ==> !occurs_at(s@, p@, j),
        decreases a.len() + 1 - at,
    {
        if match_at(a.as_slice(), b.as_slice(), at) {
            return true;
        }
        if at == a.len() - b.len() {
            assert(forall|j: int| occurs_at(s@, p@, j) ==> j <= at);
            return false;
        }
        at += 1;
    }
    false
}

/// What follows the prefix `p` in `s`, where `s` has it.
pub open spec fn after_prefix(s: Seq<char>, p: Seq<char>) -> Option<Seq<char>> {
    if p.is_prefix_of(s) {
        Some(s.skip(p.len() as int))
    } else {
        None
    }
}

/// The text of an optional string.
pub open spec fn opt_text(o: Option<String>) -> Option<Seq<char>> {
    match o {
        Some(s) => Some(s@),
        None => None,
    }
}

/// What follows the prefix `p` in `s`, where `s` has it.
pub fn strip_prefix(s: &str, p: &str) -> (r: Option<String>)
    ensures
        opt_text(r) == after_prefix(s@, p@),
{
    if starts_with(s, p) {
        let a = chars_of(s);
        let b = chars_of(p);
        assert(s@.subrange(p@.len() as int, s@.len() as int) =~= s@.skip(p@.len() as int));
        Some(string_range(a.as_slice(), b.len(), a.len()))
    } else {
        None
    }
}

/// What precedes the suffix `p` in `s`, where `s` has it.
pub open spec fn before_suffix(s: Seq<char>, p: Seq<char>) -> Option<Seq<char>> {
    if p.is_suffix_of(s) {
        Some(s.take(s.len() - p.len()))
    } else {
        None
    }
}

/// What precedes the suffix `p` in `s`, where `s` has it.
pub fn strip_suffix(s: &str, p: &str) -> (r: Option<String>)
    ensures
        opt_text(r) == before_suffix(s@, p@),
{
    if ends_with(s, p) {
        let a = chars_of(s);
        let b = chars_of(p);
        assert(s@.subrange(0, s@.len() - p@.len()) =~= s@.take(s@.len() - p@.len()));
        Some(string_range(a.as_slice(), 0, a.len() - b.len()))
    } else {
        None
    }
}

/// `s` without the run of `c` at its end.
pub open spec fn without_trailing(s: Seq<char>, c: char) -> Seq<char>
    decreases s.len(),
{
    if s.len() > 0 && s.last() == c {
        without_trailing(s.drop_last(), c)
    } else {
        s
    }
}

/// A text without the run of `c` at its end.
pub fn trim_end_char(s: &str, c: char) -> (r: String)
    ensures
        r@ == without_trailing(s@, c),
{
    let cs = chars_of(s);
    let mut to: usize = cs.len();
    assert(cs@.subrange(0, to as int) =~= cs@);
    while 0 < to && cs[to - 1] == c
        invariant
            to <= cs.len(),
            without_trailing(cs@, c) == without_trailing(cs@.subrange(0, to as int), c),
        decreases to,
    {
        assert(cs@.subrange(0, to as int).drop_last() =~= cs@.subrange(0, to - 1));
        to -= 1;
    }
    string_range(cs.as_slice(), 0, to)
}

/// The position of the first `c` in `s`, or the length of `s` where there is none.
pub open spec fn first_at(s: Seq<char>, c: char) -> int
    decreases s.len(),
{
    if s.len() == 0 || s[0] == c {
        0
    } else {
        1 + first_at(s.skip(1), c)
    }
}

/// `first_at` is the first position that holds `c`.
pub proof fn lemma_first_at(s: Seq<char>, c: char)
    ensures
        0 <= first_at(s, c) <= s.len(),
        first_at(s, c) < s.len() ==> s[first_at(s, c)] == c,
        forall|i: int| 0 <= i < first_at(s, c) ==> s[i] != c,
    decreases s.len(),
{
    if s.len() > 0 && s[0] != c {
        lemma_first_at(s.skip(1), c);
        assert forall|i: int| 0 <= i < first_at(s, c) implies s[i] != c by {
            if i > 0 {
                assert(s[i] == s.skip(1)[i - 1]);
            }
        }
        if first_at(s, c) < s.len() {
            assert(s[first_at(s, c)] == s.skip(1)[first_at(s, c) - 1]);
        }
    }
}

/// A position that holds `c` and before which nothing does is the first one.
pub proof fn lemma_first_at_unique(s: Seq<char>, c: char, at: int)
    requires
        0 <= at <= s.len(),
        at < s.len() ==> s[at] == c,
        forall|i: int| 0 <= i < at ==> s[i] != c,
    ensures
        first_at(s, c) == at,
{
    lemma_first_at(s, c);
}

/// The position of the first `c` at or after `from`, or the length.
pub fn find_char(s: &[char], c: char, from: usize) -> (r: usize)
    requires
        from <= s@.len(),
    ensures
        r == from + first_at(s@.skip(from as int), c),
        from <= r <= s@.len(),
{
    let mut i: usize = from;
    while i < s.len() && s[i] != c
        invariant
            from <= i <= s.len(),
            forall|j: int| from <= j < i ==> s@[j] != c,
        decreases s.len() - i,
    {
        i += 1;
    }
    proof {
        let t = s@.skip(from as int);
        assert forall|j: int| 0 <= j < i - from implies t[j] != c by {
            assert(t[j] == s@[from + j]);
        }
        lemma_first_at_unique(t, c, i - from);
    }
    i
}

/// The pieces of `s` between the occurrences of `c`, in order.
pub open spec fn split_on(s: Seq<char>, c: char) -> Seq<Seq<char>>
    decreases s.len(),
{
    let at = first_at(s, c);
    if 0 <= at < s.len() {
        seq![s.take(at)] + split_on(s.skip(at + 1), c)
    } else {
        seq![s]
    }
}

/// The pieces of a text between the occurrences of `c`, in order.
pub fn split_char(s: &str, c: char) -> (r: Vec<String>)
    ensures
        texts(r@) == split_on(s@, c),
{
    let cs = chars_of(s);
    let mut out: Vec<String> = Vec::new();
    let mut from: usize = 0;
    assert(cs@.skip(0) =~= cs@);
    assert(texts(out@) + split_on(cs@, c) =~= split_on(cs@, c));
    loop
        invariant_except_break
            from <= cs.len(),
            cs@ == s@,
            texts(out@) + split_on(cs@.skip(from as int), c) == split_on(s@, c),
        ensures
            texts(out@) == split_on(s@, c),
        decreases cs.len() - from,
    {
        let at: usize = find_char(cs.as_slice(), c, from);
        let ghost rest = cs@.skip(from as int);
        let ghost before = texts(out@);
        let piece = string_range(cs.as_slice(), from, at);
        let ghost piece_text = piece@;
        out.push(piece);
        assert(texts(out@) =~= before.push(piece_text));
        if at >= cs.len() {
            assert(piece_text =~= rest);
            assert(texts(out@) =~= before + seq![rest]);
            break;
        }
        assert(piece_text =~= rest.take(at - from));
        assert(rest.skip(at - from + 1) =~= cs@.skip(at + 1));
        assert(texts(out@) + split_on(cs@.skip(at + 1), c) =~= before + (seq![rest.take(at - from)]
            + split_on(cs@.skip(at + 1), c)));
        from = at + 1;
    }
    out
}

/// `s` cut at the first `c`, where it holds one.
pub open spec fn cut_at(s: Seq<char>, c: char) -> Option<(Seq<char>, Seq<char>)> {
    let at = first_at(s, c);
    if at < s.len() {
        Some((s.take(at), s.skip(at + 1)))
    } else {
        None
    }
}

/// The texts of an optional pair of strings.
pub open spec fn opt_pair(o: Option<(String, String)>) -> Option<(Seq<char>, Seq<char>)> {
    match o {
        Some((a, b)) => Some((a@, b@)),
        None => None,
    }
}

/// A text cut at the first `c`, where it holds one.
pub fn split_once(s: &str, c: char) -> (r: Option<(String, String)>)
    ensures
        opt_pair(r) == cut_at(s@, c),
{
    let cs = chars_of(s);
    assert(cs@.skip(0) =~= cs@);
    let at: usize = find_char(cs.as_slice(), c, 0);
    if at < cs.len() {
        let a = string_range(cs.as_slice(), 0, at);
        let b = string_range(cs.as_slice(), at + 1, cs.len());
        assert(a@ =~= s@.take(at as int));
        assert(b@ =~= s@.skip(at + 1));
        Some((a, b))
    } else {
        None
    }
}

/// The texts of `parts` one after another with `sep` between them.
pub open spec fn joined(parts: Seq<Seq<char>>, sep: Seq<char>) -> Seq<char>
    decreases parts.len(),
{
    if parts.len() == 0 {
        Seq::empty()
    } else if parts.len() == 1 {
        parts[0]
    } else {
        joined(parts.drop_last(), sep) + sep + parts.last()
    }
}

/// The texts of `parts` one after another with `sep` between them.
pub fn join(parts: &[String], sep: &str) -> (r: String)
    ensures
        r@ == joined(texts(parts@), sep@),
{
    let mut out = String::new();
    let mut i: usize = 0;
    while i < parts.len()
        invariant
            i <= parts.len(),
            out@ == joined(texts(parts@).take(i as int), sep@),
        decreases parts.len() - i,
    {
        let ghost prev = texts(parts@).take(i as int);
        let ghost next = texts(parts@).take(i + 1);
        assert(next.drop_last() =~= prev);
        if i > 0 {
            out.append(sep);
        }
        let ghost mid = out@;
        out.append(parts[i].as_str());
        assert(i == 0 ==> out@ =~= parts@[0]@);
        assert(next.last() == parts@[i as int]@);
        i += 1;
    }
    assert(texts(parts@).take(i as int) =~= texts(parts@));
    out
}

/// `s` with every `from`, taken from the left, turned into `to`. Defined for a
/// `from` that is not empty.
pub open spec fn replaced(s: Seq<char>, from: Seq<char>, to: Seq<char>) -> Seq<char>
    decreases s.len(),
{
    if s.len() == 0 || from.len() == 0 {
        s
    } else if occurs_at(s, from, 0) {
        to + replaced(s.skip(from.len() as int), from, to)
    } else {
        seq![s[0]] + replaced(s.skip(1), from, to)
    }
}

/// A text with every `from`, taken from the left, turned into `to`.
pub fn replace(s: &str, from: &str, to: &str) -> (r: String)
    requires
        from@.len() > 0,
    ensures
        r@ == replaced(s@, from@, to@),
{
    let cs = chars_of(s);
    let fs = chars_of(from);
    let mut out = String::new();
    let mut i: usize = 0;
    assert(cs@.skip(0) =~= cs@);
    assert(out@ + replaced(cs@, from@, to@) =~= replaced(cs@, from@, to@));
    while i < cs.len()
        invariant
            i <= cs.len(),
            cs@ == s@,
            fs@ == from@,
            from@.len() > 0,
            out@ + replaced(cs@.skip(i as int), from@, to@) == replaced(s@, from@, to@),
        decreases cs.len() - i,
    {
        let ghost rest = cs@.skip(i as int);
        let ghost done = out@;
        if match_at(cs.as_slice(), fs.as_slice(), i) {
            assert(rest.subrange(0, from@.len() as int) =~= cs@.subrange(
                i as int,
                i + from@.len(),
            ));
            assert(occurs_at(rest, from@, 0));
            assert(rest.skip(from@.len() as int) =~= cs@.skip(i + from@.len()));
            out.append(to);
            i += fs.len();
            assert(out@ + replaced(cs@.skip(i as int), from@, to@) =~= done + replaced(
                rest,
                from@,
                to@,
            ));
        } else {
            assert(!occurs_at(rest, from@, 0)) by {
                if occurs_at(rest, from@, 0) {
                    assert(rest.subrange(0, from@.len() as int) =~= cs@.subrange(
                        i as int,
                        i + from@.len(),
                    ));
                }
            }
            assert(rest.skip(1) =~= cs@.skip(i + 1));
            out.push(cs[i]);
            i += 1;
            assert(out@ + replaced(cs@.skip(i as int), from@, to@) =~= done + replaced(
                rest,
                from@,
                to@,
            ));
        }
    }
    assert(cs@.skip(i as int) =~= Seq::<char>::empty());
    assert(out@ + Seq::<char>::empty() =~= out@);
    out
}

/// One line without its line ending: the line feed that ends it, and the
/// carriage return before that.
pub open spec fn line_body(piece: Seq<char>, ended: bool) -> Seq<char> {
    if ended && piece.len() > 0 && piece.last() == '\r' {
        piece.drop_last()
    } else {
        piece
    }
}

/// The lines of `s`: a line ends at a line feed, or at a carriage return and a
/// line feed; what follows the last line feed is a line only if it is not empty.
pub open spec fn lines_of(s: Seq<char>) -> Seq<Seq<char>>
    decreases s.len(),
{
    let at = first_at(s, '\n');
    if s.len() == 0 {
        Seq::empty()
    } else if 0 <= at < s.len() {
        seq![line_body(s.take(at), true)] + lines_of(s.skip(at + 1))
    } else {
        seq![s]
    }
}

/// The lines of a text.
pub fn lines(s: &str) -> (r: Vec<String>)
    ensures
        texts(r@) == lines_of(s@),
{
    let cs = chars_of(s);
    let mut out: Vec<String> = Vec::new();
    let mut from: usize = 0;
    assert(cs@.skip(0) =~= cs@);
    assert(texts(out@) + lines_of(cs@) =~= lines_of(cs@));
    while from < cs.len()
        invariant
            from <= cs.len(),
            cs@ == s@,
            texts(out@) + lines_of(cs@.skip(from as int)) == lines_of(s@),
        decreases cs.len() - from,
    {
        let at: usize = find_char(cs.as_slice(), '\n', from);
        let ghost rest = cs@.skip(from as int);
        let ghost before = texts(out@);
        if at >= cs.len() {
            let piece = string_range(cs.as_slice(), from, at);
            assert(piece@ =~= rest);
            let ghost piece_text = piece@;
            out.push(piece);
            assert(texts(out@) =~= before + seq![piece_text]);
            assert(cs@.skip(at as int) =~= Seq::<char>::empty());
            assert(texts(out@) + lines_of(cs@.skip(at as int)) =~= texts(out@));
            from = at;
        } else {
            let mut to: usize = at;
            if to > from && cs[to - 1] == '\r' {
                to -= 1;
            }
            let piece = string_range(cs.as_slice(), from, to);
            assert(piece@ =~= line_body(rest.take(at - from), true));
            let ghost piece_text = piece@;
            out.push(piece);
            assert(texts(out@) =~= before.push(piece_text));
            assert(rest.skip(at - from + 1) =~= cs@.skip(at + 1));
            assert(texts(out@) + lines_of(cs@.skip(at + 1)) =~= before + (seq![piece_text]
                + lines_of(cs@.skip(at + 1))));
            from = at + 1;
        }
    }
    assert(cs@.skip(from as int) =~= Seq::<char>::empty());
    assert(texts(out@) + Seq::<Seq<char>>::empty() =~= texts(out@));
    out
}

/// Whether `c` is an ASCII decimal digit.
pub open spec fn is_digit(c: char) -> bool {
    '0' <= c && c <= '9'
}

/// The number that a run of decimal digits denotes.
pub open spec fn digits_value(s: Seq<char>) -> nat
    decreases s.len(),
{
    if s.len() == 0 {
        0
    } else {
        digits_value(s.drop_last()) * 10 + ((s.last() as int - 48) as nat)
    }
}

/// Whether `s` is a non-empty run of decimal digits.
pub open spec fn all_digits(s: Seq<char>) -> bool {
    s.len() > 0 && forall|i: int| 0 <= i < s.len() ==> is_digit(#[trigger] s[i])
}

/// The integer that `s` denotes: decimal digits with an optional sign.
pub open spec fn int_of_text(s: Seq<char>) -> Option<int> {
    if s.len() > 0 && s[0] == '-' {
        if all_digits(s.skip(1)) {
            Some(-(digits_value(s.skip(1)) as int))
        } else {
            None
        }
    } else if s.len() > 0 && s[0] == '+' {
        if all_digits(s.skip(1)) {
            Some(digits_value(s.skip(1)) as int)
        } else {
            None
        }
    } else if all_digits(s) {
        Some(digits_value(s) as int)
    } else {
        None
    }
}

/// The integer that `s` denotes, where it denotes one that an `i64` holds.
pub open spec fn i64_of_text(s: Seq<char>) -> Option<i64> {
    match int_of_text(s) {
        Some(n) => if i64::MIN <= n <= i64::MAX {
            Some(n as i64)
        } else {
            None
        },
        None => None,
    }
}

/// The integer that a text denotes, where it denotes one that an `i64` holds.
pub fn parse_i64(s: &str) -> (r: Option<i64>)
    ensures
        r == i64_of_text(s@),
{
    let cs = chars_of(s);
    let mut i: usize = 0;
    let mut negative: bool = false;
    if cs.len() > 0 && cs[0] == '-' {
        negative = true;
        i = 1;
    } else if cs.len() > 0 && cs[0] == '+' {
        i = 1;
    }
    let start: usize = i;
    let ghost body = cs@.skip(start as int);
    assert(start == 0 ==> body =~= cs@);
    if i >= cs.len() {
        return None;
    }
    let limit: u128 = 0x8000_0000_0000_0000;
    let mut value: u128 = 0;
    let mut over: bool = false;
    assert(body.take(0) =~= Seq::<char>::empty());
    while i < cs.len()
        invariant
            start <= i <= cs.len(),
            start < cs.len(),
            body == cs@.skip(start as int),
            limit == 0x8000_0000_0000_0000,
            forall|j: int| 0 <= j < i - start ==> is_digit(#[trigger] body[j]),
            over <==> digits_value(body.take(i - start)) > limit,
            !over ==> value == digits_value(body.take(i - start)) && value <= limit,
            cs@ == s@,
            start == 1 <==> (cs@[0] == '-' || cs@[0] == '+'),
            start <= 1,
        decreases cs.len() - i,
    {
        let c: char = cs[i];
        assert(body[i - start] == c);
        if c < '0' || '9' < c {
            assert(!all_digits(body));
            return None;
        }
        let ghost next = body.take(i + 1 - start);
        assert(next.drop_last() =~= body.take(i - start));
        assert(next.last() == c);
        if !over {
            let d: u128 = (c as u32 - 48) as u128;
            value = value * 10 + d;
            if value > limit {
                over = true;
                assert(digits_value(body.take(i + 1 - start)) > limit);
            }
        }
        i += 1;
    }
    assert(body.take(i - start) =~= body);
    assert(all_digits(body));
    if over {
        None
    } else if negative {
        if value == limit {
            Some(i64::MIN)
        } else {
            Some(-(value as i64))
        }
    } else if value == limit {
        None
    } else {
        Some(value as i64)
    }
}

/// The hexadecimal digit of `n`, which is below sixteen.
pub open spec fn hex_digit(n: int) -> char {
    if n < 10 {
        (48 + n) as char
    } else {
        (87 + n) as char
    }
}

/// The bytes in lower-case hexadecimal, two digits each.
pub open spec fn hex_text(bytes: Seq<u8>) -> Seq<char>
    decreases bytes.len(),
{
    if bytes.len() == 0 {
        Seq::empty()
    } else {
        hex_text(bytes.drop_last()).push(hex_digit(bytes.last() as int / 16)).push(
            hex_digit(bytes.last() as int % 16),
        )
    }
}

/// One hexadecimal digit.
fn hex_char(n: u8) -> (r: char)
    requires
        n < 16,
    ensures
        r == hex_digit(n as int),
{
    if n < 10 {
        (48u8 + n) as char
    } else {
        (87u8 + n) as char
    }
}

/// Bytes in lower-case hexadecimal.
pub fn hex(bytes: &[u8]) -> (r: String)
    ensures
        r@ == hex_text(bytes@),
{
    let mut out = String::new();
    let mut i: usize = 0;
    while i < bytes.len()
        invariant
            i <= bytes.len(),
            out@ == hex_text(bytes@.take(i as int)),
        decreases bytes.len() - i,
    {
        let ghost next = bytes@.take(i + 1);
        assert(next.drop_last() =~= bytes@.take(i as int));
        let b: u8 = bytes[i];
        out.push(hex_char(b / 16));
        out.push(hex_char(b % 16));
        i += 1;
    }
    assert(bytes@.take(i as int) =~= bytes@);
    out
}

/// Two texts one after the other.
pub fn cat2(a: &str, b: &str) -> (r: String)
    ensures
        r@ == a@ + b@,
{
    let mut out = a.to_owned();
    out.append(b);
    out
}

/// Three texts one after another.
pub fn cat3(a: &str, b: &str, c: &str) -> (r: String)
    ensures
        r@ == a@ + b@ + c@,
{
    let mut out = a.to_owned();
    out.append(b);
    out.append(c);
    out
}

/// Four texts one after another.
pub fn cat4(a: &str, b: &str, c: &str, d: &str) -> (r: String)
    ensures
        r@ == a@ + b@ + c@ + d@,
{
    let mut out = cat3(a, b, c);
    out.append(d);
    out
}

/// Five texts one after another.
pub fn cat5(a: &str, b: &str, c: &str, d: &str, e: &str) -> (r: String)
    ensures
        r@ == a@ + b@ + c@ + d@ + e@,
{
    let mut out = cat4(a, b, c, d);
    out.append(e);
    out
}

/// The text of an optional borrowed string.
pub open spec fn opt_str(o: Option<&str>) -> Option<Seq<char>> {
    match o {
        Some(s) => Some(s@),
        None => None,
    }
}

/// An optional string, copied.
pub fn copy_opt(o: &Option<String>) -> (r: Option<String>)
    ensures
        opt_text(r) == opt_text(*o),
{
    match o {
        Some(s) => Some(s.clone()),
        None => None,
    }
}

/// Whether the text stands in the list.
pub fn list_has(list: &[String], s: &str) -> (r: bool)
    ensures
        r == texts(list@).contains(s@),
{
    let mut i: usize = 0;
    while i < list.len()
        invariant
            i <= list.len(),
            forall|j: int| 0 <= j < i ==> list@[j]@ != s@,
        decreases list.len() - i,
    {
        if str_eq(list[i].as_str(), s) {
            assert(texts(list@)[i as int] == s@);
            return true;
        }
        i += 1;
    }
    assert forall|j: int| 0 <= j < texts(list@).len() implies texts(list@)[j] != s@ by {
        assert(texts(list@)[j] == list@[j]@);
    }
    false
}

/// Whether every character of `s` satisfies the ASCII alphanumeric test.
pub open spec fn is_alphanumeric(c: char) -> bool {
    is_digit(c) || ('a' <= c && c <= 'z') || ('A' <= c && c <= 'Z')
}

/// Whether `c` is an ASCII letter or digit.
pub fn alphanumeric_char(c: char) -> (r: bool)
    ensures
        r == is_alphanumeric(c),
{
    ('0' <= c && c <= '9') || ('a' <= c && c <= 'z') || ('A' <= c && c <= 'Z')
}

/// Whether `c` is a control character: the C0 and C1 sets and delete.
pub open spec fn is_control(c: char) -> bool {
    c as u32 <= 0x1f || 0x7f <= c as u32 <= 0x9f
}

/// Whether `c` is a control character.
pub fn control_char(c: char) -> (r: bool)
    ensures
        r == is_control(c),
{
    let u: u32 = c as u32;
    u <= 0x1f || (0x7f <= u && u <= 0x9f)
}

/// The texts held by a sequence of pairs of strings.
pub open spec fn pair_texts(v: Seq<(String, String)>) -> Seq<(Seq<char>, Seq<char>)> {
    v.map_values(|p: (String, String)| (p.0@, p.1@))
}

/// Filtering one more element.
pub proof fn lemma_filter_push<A>(s: Seq<A>, x: A, p: spec_fn(A) -> bool)
    ensures
        s.push(x).filter(p) == (if p(x) {
            s.filter(p).push(x)
        } else {
            s.filter(p)
        }),
{
    reveal(Seq::filter);
    assert(s.push(x).drop_last() =~= s);
}

/// The parts of `s` between commas, trimmed, without the empty ones.
pub open spec fn comma_parts(s: Seq<char>) -> Seq<Seq<char>> {
    split_on(s, ',').map_values(|t: Seq<char>| trimmed(t)).filter(|t: Seq<char>| t.len() > 0)
}

/// Whether a text is empty.
pub fn is_blank(s: &str) -> (r: bool)
    ensures
        r == (s@.len() == 0),
{
    chars_of(s).len() == 0
}

/// The parts of a text between commas, trimmed, without the empty ones.
pub fn comma_list(s: &str) -> (r: Vec<String>)
    ensures
        texts(r@) == comma_parts(s@),
{
    let parts = split_char(s, ',');
    let mut out: Vec<String> = Vec::new();
    let mut i: usize = 0;
    let ghost all = split_on(s@, ',').map_values(|t: Seq<char>| trimmed(t));
    let ghost full = |t: Seq<char>| t.len() > 0;
    proof {
        reveal(Seq::filter);
        assert(all.take(0) =~= Seq::<Seq<char>>::empty());
        assert(texts(out@) =~= Seq::<Seq<char>>::empty());
    }
    while i < parts.len()
        invariant
            i <= parts.len(),
            texts(parts@) == split_on(s@, ','),
            all == split_on(s@, ',').map_values(|t: Seq<char>| trimmed(t)),
            full == (|t: Seq<char>| t.len() > 0),
            texts(out@) == all.take(i as int).filter(full),
        decreases parts.len() - i,
    {
        let t = trim(parts[i].as_str());
        assert(texts(parts@)[i as int] == parts@[i as int]@);
        assert(all[i as int] == t@);
        proof {
            lemma_filter_push(all.take(i as int), t@, full);
            assert(all.take(i + 1) =~= all.take(i as int).push(t@));
        }
        if !is_blank(t.as_str()) {
            let ghost before = out@;
            let ghost tt = t@;
            out.push(t);
            assert(texts(out@) =~= texts(before).push(tt));
        }
        i += 1;
    }
    assert(all.take(i as int) =~= all);
    out
}

/// `s` without the copies of `p` at its end. Defined for a `p` that is not empty.
pub open spec fn without_suffixes(s: Seq<char>, p: Seq<char>) -> Seq<char>
    decreases s.len(),
{
    if p.len() > 0 && p.is_suffix_of(s) {
        without_suffixes(s.take(s.len() - p.len()), p)
    } else {
        s
    }
}

/// A text without the copies of `p` at its end.
pub fn trim_end_text(s: &str, p: &str) -> (r: String)
    ensures
        r@ == without_suffixes(s@, p@),
{
    let cs = chars_of(s);
    let ps = chars_of(p);
    let mut to: usize = cs.len();
    assert(cs@.subrange(0, to as int) =~= cs@);
    while 0 < ps.len() && ps.len() <= to && match_at(cs.as_slice(), ps.as_slice(), to - ps.len())
        invariant
            to <= cs.len(),
            cs@ == s@,
            ps@ == p@,
            without_suffixes(cs@, p@) == without_suffixes(cs@.subrange(0, to as int), p@),
        decreases to,
    {
        let ghost cur = cs@.subrange(0, to as int);
        assert(cs@.subrange(to - ps@.len(), to as int) =~= cur.subrange(
            cur.len() - p@.len(),
            cur.len() as int,
        ));
        assert(p@.is_suffix_of(cur));
        assert(cur.take(cur.len() - p@.len()) =~= cs@.subrange(0, to - ps@.len()));
        to -= ps.len();
    }
    proof {
        let cur = cs@.subrange(0, to as int);
        if p@.len() > 0 && p@.is_suffix_of(cur) {
            assert(cur.subrange(cur.len() - p@.len(), cur.len() as int) =~= cs@.subrange(
                to - ps@.len(),
                to as int,
            ));
            assert(occurs_at(cs@, ps@, to - ps@.len()));
        }
    }
    string_range(cs.as_slice(), 0, to)
}

/// A prefix comes off what it was put in front of.
pub proof fn lemma_after_prefix(p: Seq<char>, s: Seq<char>)
    ensures
        after_prefix(p + s, p) == Some(s),
{
    assert((p + s).subrange(0, p.len() as int) =~= p);
    assert((p + s).skip(p.len() as int) =~= s);
}

/// A text is cut where a character was put between two parts, if the first part
/// does not hold it.
pub proof fn lemma_cut_between(a: Seq<char>, c: char, b: Seq<char>)
    requires
        forall|i: int| 0 <= i < a.len() ==> a[i] != c,
    ensures
        cut_at(a + seq![c] + b, c) == Some((a, b)),
{
    let s = a + seq![c] + b;
    assert forall|i: int| 0 <= i < a.len() implies s[i] != c by {
        assert(s[i] == a[i]);
    }
    assert(s[a.len() as int] == c);
    lemma_first_at_unique(s, c, a.len() as int);
    assert(s.take(a.len() as int) =~= a);
    assert(s.skip(a.len() as int + 1) =~= b);
}

/// The position of the first `t` in a list, or the length of the list.
pub open spec fn first_index(list: Seq<Seq<char>>, t: Seq<char>) -> int
    decreases list.len(),
{
    if list.len() == 0 || list[0] == t {
        0
    } else {
        1 + first_index(list.skip(1), t)
    }
}

/// `first_index` is the first position that holds `t`.
pub proof fn lemma_first_index(list: Seq<Seq<char>>, t: Seq<char>)
    ensures
        0 <= first_index(list, t) <= list.len(),
        first_index(list, t) < list.len() ==> list[first_index(list, t)] == t,
        forall|i: int| 0 <= i < first_index(list, t) ==> list[i] != t,
        first_index(list, t) < list.len() <==> list.contains(t),
    decreases list.len(),
{
    if list.len() > 0 && list[0] != t {
        lemma_first_index(list.skip(1), t);
        assert forall|i: int| 0 <= i < first_index(list, t) implies list[i] != t by {
            if i > 0 {
                assert(list[i] == list.skip(1)[i - 1]);
            }
        }
        if first_index(list, t) < list.len() {
            assert(list[first_index(list, t)] == list.skip(1)[first_index(list, t) - 1]);
        }
    }
}

/// The word for a truth value.
pub open spec fn bool_text(b: bool) -> Seq<char> {
    if b {
        "true"@
    } else {
        "false"@
    }
}

/// The word for a truth value.
pub fn bool_word(b: bool) -> (r: &'static str)
    ensures
        r@ == bool_text(b),
{
    if b {
        "true"
    } else {
        "false"
    }
}

/// The text between quotes that stands for a text in a debug print.
pub uninterp spec fn quoted(s: Seq<char>) -> Seq<char>;

/// The `{:?}` of std's formatting on a text: letters and digits stand for
/// themselves.
#[verifier::external_body]
pub(crate) fn quote(s: &str) -> (r: String)
    ensures
        r@ == quoted(s@),
        (forall|i: int| 0 <= i < s@.len() ==> is_alphanumeric(#[trigger] s@[i])) ==> r@ == "\""@
            + s@ + "\""@,
{
    format!("{:?}", s)
}

/// A text has not more characters than bytes.
pub proof fn lemma_chars_within_bytes(s: Seq<char>)
    ensures
        s.len() <= vstd::utf8::encode_utf8(s).len(),
    decreases s.len(),
{
    if s.len() > 0 {
        vstd::utf8::char_is_scalar(s[0]);
        lemma_chars_within_bytes(s.drop_first());
        assert(vstd::utf8::encode_utf8(s) == vstd::utf8::encode_scalar(s[0] as u32)
            + vstd::utf8::encode_utf8(s.drop_first()));
        assert(vstd::utf8::encode_scalar(s[0] as u32).len() >= 1);
    }
}

/// The digits of a number are digits, and their value is the number.
proof fn lemma_decimal(n: nat)
    ensures
        all_digits(decimal(n)),
        digits_value(decimal(n)) == n,
    decreases n,
{
    if n < 10 {
        assert(decimal(n).drop_last() =~= Seq::empty());
        assert(decimal(n).last() == digit_char(n as int));
        assert(digits_value(decimal(n).drop_last()) == 0);
    } else {
        lemma_decimal(n / 10);
        let d = decimal(n / 10);
        let last = digit_char((n % 10) as int);
        assert(decimal(n) == d.push(last));
        assert(d.push(last).drop_last() =~= d);
        assert forall|i: int| 0 <= i < decimal(n).len() implies is_digit(
            #[trigger] decimal(n)[i],
        ) by {
            if i < d.len() {
                assert(decimal(n)[i] == d[i]);
            }
        }
    }
}

/// A number that is written down reads back as itself, with its sign.
pub proof fn law_numbers_read_back(n: int)
    ensures
        int_of_text(int_text(n)) == Some(n),
        i64::MIN <= n <= i64::MAX ==> i64_of_text(int_text(n)) == Some(n as i64),
        n > i64::MAX || n < i64::MIN ==> i64_of_text(int_text(n)) is None,
{
    if n < 0 {
        lemma_decimal((-n) as nat);
        assert(int_text(n).skip(1) =~= decimal((-n) as nat));
    } else {
        lemma_decimal(n as nat);
        assert(is_digit(int_text(n)[0]));
    }
}

/// Only what is digits, with at most one sign before them, is read as a number.
pub proof fn law_only_numbers_are_read(s: Seq<char>, i: int)
    requires
        0 <= i < s.len(),
        !('0' <= s[i] <= '9'),
        i > 0 || (s[i] != '-' && s[i] != '+'),
    ensures
        int_of_text(s) is None,
        int_of_text(Seq::empty()) is None,
{
    if s[0] == '-' || s[0] == '+' {
        assert(s.skip(1)[i - 1] == s[i]);
        assert(!is_digit(s.skip(1)[i - 1]));
    } else {
        assert(!is_digit(s[i]));
    }
}

/// What is cut off in front is white.
proof fn lemma_trim_left(s: Seq<char>) -> (at: int)
    ensures
        0 <= at <= s.len(),
        trim_left(s) == s.skip(at),
        forall|i: int| 0 <= i < at ==> is_space(#[trigger] s[i]),
        at < s.len() ==> !is_space(s[at]),
    decreases s.len(),
{
    if s.len() > 0 && is_space(s[0]) {
        let more = lemma_trim_left(s.skip(1));
        assert(s.skip(1).skip(more) =~= s.skip(more + 1));
        assert forall|i: int| 0 <= i < more + 1 implies is_space(#[trigger] s[i]) by {
            if i > 0 {
                assert(s[i] == s.skip(1)[i - 1]);
            }
        }
        if more + 1 < s.len() {
            assert(s[more + 1] == s.skip(1)[more]);
        }
        more + 1
    } else {
        assert(s.skip(0) =~= s);
        0
    }
}

/// What is cut off behind is white.
proof fn lemma_trim_right(s: Seq<char>) -> (at: int)
    ensures
        0 <= at <= s.len(),
        trim_right(s) == s.take(at),
        forall|i: int| at <= i < s.len() ==> is_space(#[trigger] s[i]),
        at > 0 ==> !is_space(s[at - 1]),
    decreases s.len(),
{
    if s.len() > 0 && is_space(s.last()) {
        let at = lemma_trim_right(s.drop_last());
        assert(s.drop_last().take(at) =~= s.take(at));
        assert forall|i: int| at <= i < s.len() implies is_space(#[trigger] s[i]) by {
            if i < s.len() - 1 {
                assert(s[i] == s.drop_last()[i]);
            }
        }
        if at > 0 {
            assert(s[at - 1] == s.drop_last()[at - 1]);
        }
        at
    } else {
        assert(s.take(s.len() as int) =~= s);
        s.len() as int
    }
}

/// Trimming takes the white space off both ends, and nothing else: what is left starts
/// and ends with something else, or is empty, and what went was white.
pub proof fn law_trimming_takes_the_ends(s: Seq<char>) -> (ends: (int, int))
    ensures
        0 <= ends.0 <= ends.1 <= s.len(),
        trimmed(s) == s.subrange(ends.0, ends.1),
        forall|i: int| 0 <= i < ends.0 ==> is_space(#[trigger] s[i]),
        forall|i: int| ends.1 <= i < s.len() ==> is_space(#[trigger] s[i]),
        trimmed(s).len() > 0 ==> !is_space(trimmed(s)[0]) && !is_space(trimmed(s).last()),
        is_space(' ') && is_space('\t') && is_space('\n') && is_space('\r'),
        forall|c: char| '!' <= c && c <= '~' ==> !#[trigger] is_space(c),
{
    let from = lemma_trim_left(s);
    let t = s.skip(from);
    let len = lemma_trim_right(t);
    assert(t.take(len) =~= s.subrange(from, from + len));
    assert forall|i: int| from + len <= i < s.len() implies is_space(#[trigger] s[i]) by {
        assert(s[i] == t[i - from]);
    }
    if len > 0 {
        assert(trimmed(s)[0] == s[from]);
        assert(trimmed(s).last() == t[len - 1]);
    }
    (from, from + len)
}

/// Letters change their case, and nothing else changes.
pub proof fn law_case_changes_letters_only(s: Seq<char>, i: int)
    requires
        0 <= i < s.len(),
    ensures
        lowered(s).len() == s.len(),
        uppered(s).len() == s.len(),
        !('A' <= lowered(s)[i] <= 'Z'),
        !('a' <= uppered(s)[i] <= 'z'),
        'A' <= s[i] <= 'Z' ==> lowered(s)[i] as int == s[i] as int + 32,
        'a' <= s[i] <= 'z' ==> uppered(s)[i] as int == s[i] as int - 32,
        !('A' <= s[i] <= 'Z') ==> lowered(s)[i] == s[i],
        !('a' <= s[i] <= 'z') ==> uppered(s)[i] == s[i],
        lowered(lowered(s)) == lowered(s),
        lowered(uppered(s)) == lowered(s),
{
    assert(lowered(lowered(s)) =~= lowered(s));
    assert(lowered(uppered(s)) =~= lowered(s));
}

/// A list that is joined starts with its first part.
proof fn lemma_joined_first(first: Seq<char>, rest: Seq<Seq<char>>, sep: Seq<char>)
    requires
        rest.len() > 0,
    ensures
        joined(seq![first] + rest, sep) == first + sep + joined(rest, sep),
    decreases rest.len(),
{
    let all = seq![first] + rest;
    assert(all.last() == rest.last());
    if rest.len() == 1 {
        assert(all.drop_last() =~= seq![first]);
        assert(joined(seq![first], sep) == first);
    } else {
        assert(all.drop_last() =~= seq![first] + rest.drop_last());
        lemma_joined_first(first, rest.drop_last(), sep);
        assert(joined(all, sep) =~= first + sep + joined(rest, sep));
    }
}

/// The parts of a text hold no separator, and joined by it they are the text again.
pub proof fn law_parts_make_the_text(s: Seq<char>, c: char)
    ensures
        split_on(s, c).len() > 0,
        joined(split_on(s, c), seq![c]) == s,
        forall|i: int, j: int|
            0 <= i < split_on(s, c).len() && 0 <= j < split_on(s, c)[i].len() ==> #[trigger] split_on(
                s,
                c,
            )[i][j] != c,
    decreases s.len(),
{
    lemma_first_at(s, c);
    let at = first_at(s, c);
    if at < s.len() {
        let rest = split_on(s.skip(at + 1), c);
        law_parts_make_the_text(s.skip(at + 1), c);
        assert(split_on(s, c) == seq![s.take(at)] + rest);
        lemma_joined_first(s.take(at), rest, seq![c]);
        assert(s.take(at) + seq![c] + s.skip(at + 1) =~= s);
        assert forall|i: int, j: int|
            0 <= i < split_on(s, c).len() && 0 <= j < split_on(s, c)[i].len() implies #[trigger] split_on(
            s,
            c,
        )[i][j] != c by {
            if i > 0 {
                assert(split_on(s, c)[i] == rest[i - 1]);
            }
        }
    } else {
        assert(split_on(s, c) == seq![s]);
    }
}

/// A text is cut at the first separator: the two parts with it between them are the
/// text, and the first holds none. A text without one is not cut.
pub proof fn law_texts_are_cut_once(s: Seq<char>, c: char)
    ensures
        cut_at(s, c) is Some <==> s.contains(c),
        cut_at(s, c) matches Some((a, b)) ==> a + seq![c] + b == s && !a.contains(c),
{
    lemma_first_at(s, c);
    let at = first_at(s, c);
    if at < s.len() {
        assert(s.contains(s[at]));
        assert(s.take(at) + seq![c] + s.skip(at + 1) =~= s);
    }
}

/// Nothing is replaced before the first place where it could start.
pub proof fn lemma_replaced_after(a: Seq<char>, b: Seq<char>, from: Seq<char>, to: Seq<char>)
    requires
        from.len() > 0,
        forall|i: int| 0 <= i < a.len() ==> #[trigger] a[i] != from[0],
    ensures
        replaced(a + b, from, to) == a + replaced(b, from, to),
    decreases a.len(),
{
    if a.len() == 0 {
        assert(a + b =~= b);
        assert(a + replaced(b, from, to) =~= replaced(b, from, to));
    } else {
        let s = a + b;
        assert(s[0] == a[0]);
        if occurs_at(s, from, 0) {
            assert(s.subrange(0, from.len() as int)[0] == from[0]);
        }
        assert(s.skip(1) =~= a.skip(1) + b);
        assert forall|i: int| 0 <= i < a.skip(1).len() implies #[trigger] a.skip(1)[i] != from[0] by {
            assert(a.skip(1)[i] == a[i + 1]);
        }
        lemma_replaced_after(a.skip(1), b, from, to);
        assert(seq![s[0]] + (a.skip(1) + replaced(b, from, to)) =~= a + replaced(b, from, to));
    }
}

/// What occurs is replaced, wherever it first starts, and what does not is left.
pub proof fn law_what_occurs_is_replaced(
    a: Seq<char>,
    b: Seq<char>,
    from: Seq<char>,
    to: Seq<char>,
)
    requires
        from.len() > 0,
        forall|i: int| 0 <= i < a.len() ==> #[trigger] a[i] != from[0],
    ensures
        replaced(a + from + b, from, to) == a + to + replaced(b, from, to),
        replaced(a, from, to) == a,
{
    lemma_replaced_after(a, from + b, from, to);
    assert(a + from + b =~= a + (from + b));
    assert((from + b).subrange(0, from.len() as int) =~= from);
    assert((from + b).skip(from.len() as int) =~= b);
    assert(occurs_at(from + b, from, 0));
    assert(a + (to + replaced(b, from, to)) =~= a + to + replaced(b, from, to));
    lemma_replaced_after(a, Seq::empty(), from, to);
    assert(a + Seq::<char>::empty() =~= a);
}

/// Replacing a thing by itself changes nothing.
pub proof fn law_the_rest_is_kept(s: Seq<char>, from: Seq<char>)
    ensures
        replaced(s, from, from) == s,
    decreases s.len(),
{
    if s.len() > 0 && from.len() > 0 {
        if occurs_at(s, from, 0) {
            law_the_rest_is_kept(s.skip(from.len() as int), from);
            assert(s.subrange(0, from.len() as int) + s.skip(from.len() as int) =~= s);
        } else {
            law_the_rest_is_kept(s.skip(1), from);
            assert(seq![s[0]] + s.skip(1) =~= s);
        }
    }
}

/// Bytes in hexadecimal take two digits each, and different bytes look different.
pub proof fn law_hex_tells_bytes_apart(a: Seq<u8>, b: Seq<u8>)
    ensures
        hex_text(a).len() == 2 * a.len(),
        hex_text(a) == hex_text(b) ==> a == b,
    decreases a.len(),
{
    lemma_hex_len(a);
    lemma_hex_len(b);
    if hex_text(a) == hex_text(b) && a.len() > 0 {
        let x = a.last() as int;
        let y = b.last() as int;
        let s = hex_text(a);
        let n = s.len() as int;
        assert(s[n - 1] == hex_digit(x % 16) && s[n - 1] == hex_digit(y % 16));
        assert(s[n - 2] == hex_digit(x / 16) && s[n - 2] == hex_digit(y / 16));
        lemma_hex_digit(x % 16, y % 16);
        lemma_hex_digit(x / 16, y / 16);
        assert(x == y);
        assert(s.take(n - 2) =~= hex_text(a.drop_last()));
        assert(s.take(n - 2) =~= hex_text(b.drop_last()));
        law_hex_tells_bytes_apart(a.drop_last(), b.drop_last());
        assert(a =~= a.drop_last().push(a.last()));
        assert(b =~= b.drop_last().push(b.last()));
    }
    if a.len() == 0 && hex_text(a) == hex_text(b) {
        assert(b.len() == 0);
        assert(a =~= b);
    }
}

proof fn lemma_hex_len(a: Seq<u8>)
    ensures
        hex_text(a).len() == 2 * a.len(),
    decreases a.len(),
{
    if a.len() > 0 {
        lemma_hex_len(a.drop_last());
    }
}

proof fn lemma_hex_digit(m: int, n: int)
    requires
        0 <= m < 16,
        0 <= n < 16,
        hex_digit(m) == hex_digit(n),
    ensures
        m == n,
{
}

/// The run of a character at the end goes, and nothing else.
pub proof fn law_trailing_runs_go(s: Seq<char>, c: char)
    ensures
        without_trailing(s, c).is_prefix_of(s),
        without_trailing(s, c).len() > 0 ==> without_trailing(s, c).last() != c,
        forall|i: int| without_trailing(s, c).len() <= i < s.len() ==> #[trigger] s[i] == c,
    decreases s.len(),
{
    if s.len() > 0 && s.last() == c {
        law_trailing_runs_go(s.drop_last(), c);
        let t = without_trailing(s, c);
        assert(s.drop_last().subrange(0, t.len() as int) =~= s.subrange(0, t.len() as int));
        assert forall|i: int| t.len() <= i < s.len() implies #[trigger] s[i] == c by {
            if i < s.len() - 1 {
                assert(s[i] == s.drop_last()[i]);
            }
        }
    } else {
        assert(s.subrange(0, s.len() as int) =~= s);
    }
}

/// A line ends at its line break, with or without a carriage return before it.
pub proof fn law_lines_end_at_breaks(line: Seq<char>, rest: Seq<char>)
    requires
        forall|i: int| 0 <= i < line.len() ==> #[trigger] line[i] != '\n',
    ensures
        line.len() > 0 ==> lines_of(line) == seq![line],
        lines_of(Seq::empty()).len() == 0,
        line.len() == 0 || line.last() != '\r' ==> lines_of(line + seq!['\n'] + rest) == seq![line]
            + lines_of(rest),
        lines_of(line + seq!['\r'] + seq!['\n'] + rest) == seq![line] + lines_of(rest),
{
    let n = line.len() as int;
    lemma_first_at_unique(line, '\n', n);
    let s = line + seq!['\n'] + rest;
    assert forall|i: int| 0 <= i < n implies s[i] != '\n' by {
        assert(s[i] == line[i]);
    }
    assert(s[n] == '\n');
    lemma_first_at_unique(s, '\n', n);
    assert(s.take(n) =~= line);
    assert(s.skip(n + 1) =~= rest);
    let t = line + seq!['\r'] + seq!['\n'] + rest;
    assert forall|i: int| 0 <= i < n + 1 implies t[i] != '\n' by {
        if i < n {
            assert(t[i] == line[i]);
        }
    }
    assert(t[n + 1] == '\n');
    lemma_first_at_unique(t, '\n', n + 1);
    assert(t.take(n + 1) =~= line.push('\r'));
    assert(line.push('\r').drop_last() =~= line);
    assert(t.skip(n + 2) =~= rest);
}

/// The entries of a comma list are what stands between the commas, trimmed, where
/// anything is left.
pub proof fn law_comma_lists_hold_what_is_between(s: Seq<char>, t: Seq<char>)
    ensures
        comma_parts(s).contains(t) <==> t.len() > 0 && exists|i: int|
            0 <= i < split_on(s, ',').len() && t == trimmed(#[trigger] split_on(s, ',')[i]),
{
    let parts = split_on(s, ',').map_values(|t: Seq<char>| trimmed(t));
    let p = |t: Seq<char>| t.len() > 0;
    lemma_filter_holds(parts, p, t);
    if comma_parts(s).contains(t) {
        let i = choose|i: int| 0 <= i < parts.len() && parts[i] == t;
        assert(parts[i] == trimmed(split_on(s, ',')[i]));
    }
    if t.len() > 0 && exists|i: int|
        0 <= i < split_on(s, ',').len() && t == trimmed(#[trigger] split_on(s, ',')[i]) {
        let i = choose|i: int|
            0 <= i < split_on(s, ',').len() && t == trimmed(#[trigger] split_on(s, ',')[i]);
        assert(parts[i] == t);
    }
}

/// A filtered list holds what the list holds and the filter lets through.
pub proof fn lemma_filter_holds<A>(s: Seq<A>, p: spec_fn(A) -> bool, x: A)
    ensures
        s.filter(p).contains(x) <==> s.contains(x) && p(x),
    decreases s.len(),
{
    reveal(Seq::filter);
    if s.len() > 0 {
        lemma_filter_holds(s.drop_last(), p, x);
        assert(s =~= s.drop_last().push(s.last()));
        let f = s.drop_last().filter(p);
        if s.filter(p).contains(x) {
            if f.contains(x) {
                let i = choose|i: int| 0 <= i < s.drop_last().len() && s.drop_last()[i] == x;
                assert(s[i] == x);
            } else {
                assert(x == s.last());
            }
        }
        if s.contains(x) && p(x) {
            let i = choose|i: int| 0 <= i < s.len() && s[i] == x;
            if i < s.len() - 1 {
                assert(s.drop_last()[i] == x);
                let j = choose|j: int| 0 <= j < f.len() && f[j] == x;
                assert(s.filter(p)[j] == x);
            } else {
                assert(s.filter(p).last() == x);
            }
        }
    }
}

/// Every repetition of an ending goes, and nothing else.
pub proof fn law_repeated_endings_go(s: Seq<char>, p: Seq<char>)
    requires
        p.len() > 0,
    ensures
        without_suffixes(s, p).is_prefix_of(s),
        !p.is_suffix_of(without_suffixes(s, p)),
        !p.is_suffix_of(s) ==> without_suffixes(s, p) == s,
        without_suffixes(s + p, p) == without_suffixes(s, p),
    decreases s.len(),
{
    let t = s + p;
    assert(t.subrange(t.len() - p.len(), t.len() as int) =~= p);
    assert(t.take(t.len() - p.len()) =~= s);
    if p.is_suffix_of(s) {
        let cut = s.take(s.len() - p.len());
        law_repeated_endings_go(cut, p);
        let r = without_suffixes(s, p);
        assert(cut.subrange(0, r.len() as int) =~= s.subrange(0, r.len() as int));
    } else {
        assert(s.subrange(0, s.len() as int) =~= s);
    }
}

/// The two words for yes and no differ.
pub proof fn law_yes_and_no_differ(a: bool, b: bool)
    ensures
        bool_text(true) == "true"@,
        bool_text(false) == "false"@,
        bool_text(a) == bool_text(b) ==> a == b,
{
    reveal_strlit("true");
    reveal_strlit("false");
    assert("true"@.len() != "false"@.len());
}

/// What stands before an ending is what the ending was put behind, and where there is no
/// such ending there is nothing before it.
pub proof fn law_endings_come_off(s: Seq<char>, p: Seq<char>)
    ensures
        before_suffix(s + p, p) == Some(s),
        after_prefix(p + s, p) == Some(s),
        before_suffix(s, p) is Some ==> before_suffix(s, p)->0 + p == s,
        after_prefix(s, p) is Some ==> p + after_prefix(s, p)->0 == s,
{
    let t = s + p;
    assert(t.subrange(t.len() - p.len(), t.len() as int) =~= p);
    assert(t.take(t.len() - p.len()) =~= s);
    lemma_after_prefix(p, s);
    if p.is_suffix_of(s) {
        assert(s.take(s.len() - p.len()) + p =~= s);
    }
    if p.is_prefix_of(s) {
        assert(p + s.skip(p.len() as int) =~= s);
    }
}

} // verus!
