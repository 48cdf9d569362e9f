//! Outbound notifications: what is sent where, and what goes on record of it.

use vstd::prelude::*;
use vstd::string::StringExecFns;
use vstd::utf8::{encode_scalar, encode_utf8};
use crate::message::HealthProbeState;
use crate::record::{Audit, AuditView};
use crate::strmap::StrMap;
use crate::text::{cat2, cat3, cat4, cat5, chars_of, control_char, decimal, i64_text, int_text, is_blank, is_control,
    join, joined, lemma_chars_within_bytes, lines, lines_of, opt_str, opt_text, str_eq, string_range, texts, u64_text};

verus! {

/// How many bytes of a log are sent at most.
pub const LOG_CAP: usize = 3000;

/// How many bytes of a log fit a Telegram message.
pub const TELEGRAM_LOG_CAP: usize = 3500;

/// How many characters a Telegram message has at most, with its markup.
pub const TELEGRAM_CAP: usize = 4096;

/// How many characters of a headline, an agent's name or a status are left where a
/// Telegram message would be too long.
pub const TELEGRAM_FIELD_CAP: usize = 120;

/// How many bytes of a Discord message are kept.
pub const DISCORD_CAP: usize = 1900;

/// How many characters Discord takes.
pub const DISCORD_LIMIT: usize = 2000;

/// How many characters of a refusing answer go on record.
pub const SNIPPET_CAP: usize = 200;

/// How many bytes a text has in UTF-8.
pub open spec fn byte_len(s: Seq<char>) -> nat {
    encode_utf8(s).len()
}

/// How many bytes a character has in UTF-8.
pub open spec fn char_width(c: char) -> nat {
    if c as u32 <= 0x7f {
        1
    } else if c as u32 <= 0x7ff {
        2
    } else if c as u32 <= 0xffff {
        3
    } else {
        4
    }
}

proof fn lemma_byte_len_first(s: Seq<char>)
    requires
        s.len() > 0,
    ensures
        byte_len(s) == char_width(s[0]) + byte_len(s.skip(1)),
{
    vstd::utf8::char_is_scalar(s[0]);
    assert(s.drop_first() =~= s.skip(1));
    assert(encode_utf8(s) == encode_scalar(s[0] as u32) + encode_utf8(s.drop_first()));
    assert(encode_scalar(s[0] as u32).len() == char_width(s[0]));
}

proof fn lemma_byte_len_concat(a: Seq<char>, b: Seq<char>)
    ensures
        byte_len(a + b) == byte_len(a) + byte_len(b),
    decreases a.len(),
{
    if a.len() == 0 {
        assert(a + b =~= b);
        assert(encode_utf8(a).len() == 0);
    } else {
        lemma_byte_len_first(a);
        lemma_byte_len_first(a + b);
        assert((a + b).skip(1) =~= a.skip(1) + b);
        lemma_byte_len_concat(a.skip(1), b);
    }
}

fn width_of(c: char) -> (r: usize)
    ensures
        r == char_width(c),
{
    let u: u32 = c as u32;
    if u <= 0x7f {
        1
    } else if u <= 0x7ff {
        2
    } else if u <= 0xffff {
        3
    } else {
        4
    }
}

/// The longest end of `s` that has at most `cap` bytes.
pub open spec fn fitting_end(s: Seq<char>, cap: nat) -> Seq<char>
    decreases s.len(),
{
    if s.len() == 0 || byte_len(s) <= cap {
        s
    } else {
        fitting_end(s.skip(1), cap)
    }
}

/// What stands for the bytes that were cut off.
pub open spec fn cut_note(cut: nat) -> Seq<char> {
    "…["@ + decimal(cut) + " bytes truncated]…\n"@
}

/// `s`, or its longest end of at most `cap` bytes behind a note of how many bytes
/// were cut off.
pub open spec fn truncated(s: Seq<char>, cap: nat) -> Seq<char> {
    if byte_len(s) <= cap {
        s
    } else {
        cut_note((byte_len(s) - byte_len(fitting_end(s, cap))) as nat) + fitting_end(s, cap)
    }
}

/// The smallest number with more than `k` decimal digits.
spec fn power_of_ten(k: nat) -> nat
    decreases k,
{
    if k == 0 {
        1
    } else {
        10 * power_of_ten((k - 1) as nat)
    }
}

proof fn lemma_decimal_len(n: nat, k: nat)
    requires
        k > 0,
        n < power_of_ten(k),
    ensures
        decimal(n).len() <= k,
    decreases k,
{
    if n >= 10 {
        if k == 1 {
            assert(power_of_ten(1) == 10 * power_of_ten(0));
        } else {
            assert(n / 10 < power_of_ten((k - 1) as nat));
            lemma_decimal_len(n / 10, (k - 1) as nat);
        }
    }
}

proof fn lemma_note_len(cut: nat)
    requires
        cut <= u64::MAX,
    ensures
        cut_note(cut).len() <= 41,
{
    assert(u64::MAX < power_of_ten(20)) by {
        reveal_with_fuel(power_of_ten, 21);
    }
    lemma_decimal_len(cut, 20);
    reveal_strlit("…[");
    reveal_strlit(" bytes truncated]…\n");
}

fn note(cut: usize) -> (r: String)
    ensures
        r@ == cut_note(cut as nat),
{
    let n = u64_text(cut as u64);
    cat3("…[", n.as_str(), " bytes truncated]…\n")
}

/// Where the longest end of at most `cap` bytes starts, and how many bytes stand
/// before it.
fn end_start(cs: &[char], total: usize, cap: usize) -> (r: (usize, usize))
    requires
        total == byte_len(cs@),
    ensures
        r.0 <= cs@.len(),
        cs@.skip(r.0 as int) == fitting_end(cs@, cap as nat),
        r.1 == total - byte_len(cs@.skip(r.0 as int)),
{
    let mut i: usize = 0;
    let mut left: usize = total;
    assert(cs@.skip(0) =~= cs@);
    while i < cs.len() && left > cap
        invariant
            i <= cs@.len(),
            left == byte_len(cs@.skip(i as int)),
            left <= total,
            fitting_end(cs@, cap as nat) == fitting_end(cs@.skip(i as int), cap as nat),
        decreases cs@.len() - i,
    {
        proof {
            lemma_byte_len_first(cs@.skip(i as int));
            assert(cs@.skip(i as int).skip(1) =~= cs@.skip(i + 1));
            assert(cs@.skip(i as int)[0] == cs@[i as int]);
        }
        left -= width_of(cs[i]);
        i += 1;
    }
    (i, total - left)
}

/// A text, or its longest end of at most `cap` bytes behind a note.
pub fn truncate(s: &str, cap: usize) -> (r: String)
    ensures
        r@ == truncated(s@, cap as nat),
{
    let total: usize = s.as_bytes().len();
    if total <= cap {
        return s.to_owned();
    }
    let cs = chars_of(s);
    let (from, cut) = end_start(cs.as_slice(), total, cap);
    let n = note(cut);
    let tail = string_range(cs.as_slice(), from, cs.len());
    assert(tail@ =~= s@.skip(from as int));
    cat2(n.as_str(), tail.as_str())
}

/// A truncated text is the text itself or ends as it does, in at most `cap`
/// bytes.
pub proof fn law_truncation_keeps_the_end(s: Seq<char>, cap: nat)
    ensures
        byte_len(s) <= cap ==> truncated(s, cap) == s,
        fitting_end(s, cap).is_suffix_of(s),
        byte_len(fitting_end(s, cap)) <= cap,
    decreases s.len(),
{
    if s.len() > 0 && byte_len(s) > cap {
        law_truncation_keeps_the_end(s.skip(1), cap);
        let e = fitting_end(s, cap);
        let t = s.skip(1);
        assert(t.subrange(t.len() - e.len(), t.len() as int) =~= s.subrange(
            s.len() - e.len(),
            s.len() as int,
        ));
    } else {
        assert(s.subrange(0, s.len() as int) =~= s);
    }
}

/// The last `n` lines, joined by line feeds.
pub open spec fn tail_lines(log: Seq<char>, n: nat) -> Seq<char> {
    let all = lines_of(log);
    joined(
        all.skip(
            if all.len() > n {
                all.len() - n
            } else {
                0
            },
        ),
        "\n"@,
    )
}

/// The last `n` lines of a log.
pub fn last_n_lines(log: &str, n: usize) -> (r: String)
    ensures
        r@ == tail_lines(log@, n as nat),
{
    let all = lines(log);
    let from: usize = if all.len() > n {
        all.len() - n
    } else {
        0
    };
    let mut kept: Vec<String> = Vec::new();
    let mut i: usize = from;
    assert(texts(kept@) =~= texts(all@).subrange(from as int, i as int));
    while i < all.len()
        invariant
            from <= i <= all.len(),
            texts(kept@) == texts(all@).subrange(from as int, i as int),
        decreases all.len() - i,
    {
        let ghost before = kept@;
        kept.push(all[i].clone());
        assert(texts(kept@) =~= texts(before).push(all@[i as int]@));
        assert(texts(all@).subrange(from as int, i + 1) =~= texts(all@).subrange(
            from as int,
            i as int,
        ).push(all@[i as int]@));
        i += 1;
    }
    assert(texts(all@).subrange(from as int, i as int) =~= texts(all@).skip(from as int));
    join(kept.as_slice(), "\n")
}

/// Whether a status is a good one.
pub open spec fn is_good(status: Seq<char>) -> bool {
    status == "success"@ || status == "green"@
}

fn good(status: &str) -> (r: bool)
    ensures
        r == is_good(status@),
{
    str_eq(status, "success") || str_eq(status, "green")
}

/// An error line in a quoted block, where there is an error.
pub open spec fn error_quote(error: Option<Seq<char>>) -> Seq<char> {
    if error is Some && error->0.len() > 0 {
        "\n> error: "@ + error->0
    } else {
        Seq::empty()
    }
}

/// The end of a log in a code block, where there is one.
pub open spec fn log_block(log: Seq<char>) -> Seq<char> {
    let tail = tail_lines(log, 6);
    if tail.len() > 0 {
        "\n```\n"@ + tail + "\n```"@
    } else {
        Seq::empty()
    }
}

fn append_error_and_log(text: &mut String, error: Option<&str>, log: &str)
    ensures
        final(text)@ == old(text)@ + error_quote(opt_str(error)) + log_block(log@),
{
    let ghost start = text@;
    match error {
        Some(e) => {
            if !is_blank(e) {
                text.append("\n> error: ");
                text.append(e);
            }
        },
        None => {},
    }
    assert(text@ =~= start + error_quote(opt_str(error)));
    let ghost middle = text@;
    let tail = last_n_lines(log, 6);
    if !is_blank(tail.as_str()) {
        text.append("\n```\n");
        text.append(tail.as_str());
        text.append("\n```");
    }
    assert(text@ =~= middle + log_block(log@));
}

/// The Slack text of an event.
pub open spec fn slack_of(
    headline: Seq<char>,
    agent_id: Seq<char>,
    status: Seq<char>,
    error: Option<Seq<char>>,
    log: Seq<char>,
) -> Seq<char> {
    let icon = if is_good(status) {
        ":white_check_mark:"@
    } else if status == "disconnected"@ {
        ":warning:"@
    } else {
        ":x:"@
    };
    icon + " *"@ + headline + "* on `"@ + agent_id + "` → *"@ + status + "*"@ + error_quote(error)
        + log_block(log)
}

/// The Slack text of an event.
pub fn slack_text(headline: &str, agent_id: &str, status: &str, error: Option<&str>, log: &str) -> (r:
    String)
    ensures
        r@ == slack_of(headline@, agent_id@, status@, opt_str(error), log@),
{
    let icon = if good(status) {
        ":white_check_mark:"
    } else if str_eq(status, "disconnected") {
        ":warning:"
    } else {
        ":x:"
    };
    let mut text = cat5(icon, " *", headline, "* on `", agent_id);
    text.append("` → *");
    text.append(status);
    text.append("*");
    append_error_and_log(&mut text, error, log);
    text
}

/// The emoji of an event's status.
pub open spec fn emoji_of(status: Seq<char>) -> Seq<char> {
    if is_good(status) {
        "✅"@
    } else if status == "disconnected"@ {
        "⚠️"@
    } else {
        "❌"@
    }
}

fn emoji(status: &str) -> (r: &'static str)
    ensures
        r@ == emoji_of(status@),
{
    if good(status) {
        "✅"
    } else if str_eq(status, "disconnected") {
        "⚠️"
    } else {
        "❌"
    }
}

/// The Discord text of an event before it is cut to size.
pub open spec fn discord_full(
    headline: Seq<char>,
    agent_id: Seq<char>,
    status: Seq<char>,
    error: Option<Seq<char>>,
    log: Seq<char>,
) -> Seq<char> {
    emoji_of(status) + " **"@ + headline + "** on `"@ + agent_id + "` → **"@ + status + "**"@
        + error_quote(error) + log_block(log)
}

fn discord_plain(headline: &str, agent_id: &str, status: &str, error: Option<&str>, log: &str) -> (r:
    String)
    ensures
        r@ == discord_full(headline@, agent_id@, status@, opt_str(error), log@),
{
    let mut text = cat5(emoji(status), " **", headline, "** on `", agent_id);
    text.append("` → **");
    text.append(status);
    text.append("**");
    append_error_and_log(&mut text, error, log);
    text
}

/// The Discord text of an event: whole where it has at most `DISCORD_CAP` bytes,
/// else its end behind a note. Discord takes it.
pub fn discord_text(
    headline: &str,
    agent_id: &str,
    status: &str,
    error: Option<&str>,
    log: &str,
) -> (r: String)
    ensures
        r@ == truncated(
            discord_full(headline@, agent_id@, status@, opt_str(error), log@),
            DISCORD_CAP as nat,
        ),
        r@.len() <= DISCORD_LIMIT,
{
    let text = discord_plain(headline, agent_id, status, error, log);
    let total: usize = text.as_str().as_bytes().len();
    proof {
        law_truncation_stays_short(text@, DISCORD_CAP as nat);
    }
    truncate(text.as_str(), DISCORD_CAP)
}

/// A truncated text has not more characters than `cap` and what the note takes. No
/// text in memory has more bytes than a `u64` counts.
pub proof fn law_truncation_stays_short(s: Seq<char>, cap: nat)
    requires
        byte_len(s) <= u64::MAX,
    ensures
        truncated(s, cap).len() <= cap + 41,
{
    law_truncation_keeps_the_end(s, cap);
    lemma_chars_within_bytes(s);
    lemma_chars_within_bytes(fitting_end(s, cap));
    if byte_len(s) > cap {
        lemma_note_len((byte_len(s) - byte_len(fitting_end(s, cap))) as nat);
    }
}

/// What stands for a character in HTML.
pub open spec fn escape_char(c: char) -> Seq<char> {
    if c == '&' {
        "&amp;"@
    } else if c == '<' {
        "&lt;"@
    } else if c == '>' {
        "&gt;"@
    } else if c == '\'' {
        "&#39;"@
    } else if c == '"' {
        "&quot;"@
    } else {
        seq![c]
    }
}

/// A text with the characters replaced that mean something in HTML.
pub open spec fn escaped(s: Seq<char>) -> Seq<char>
    decreases s.len(),
{
    if s.len() == 0 {
        Seq::empty()
    } else {
        escaped(s.drop_last()) + escape_char(s.last())
    }
}

fn push_escaped(out: &mut String, c: char)
    ensures
        final(out)@ == old(out)@ + escape_char(c),
{
    if c == '&' {
        out.append("&amp;");
    } else if c == '<' {
        out.append("&lt;");
    } else if c == '>' {
        out.append("&gt;");
    } else if c == '\'' {
        out.append("&#39;");
    } else if c == '"' {
        out.append("&quot;");
    } else {
        let ghost before = out@;
        out.push(c);
        assert(out@ =~= before + seq![c]);
    }
}

/// A text with the characters replaced that mean something in HTML.
pub fn html_escape(s: &str) -> (r: String)
    ensures
        r@ == escaped(s@),
{
    let cs = chars_of(s);
    let mut out = String::new();
    let mut i: usize = 0;
    while i < cs.len()
        invariant
            i <= cs.len(),
            out@ == escaped(cs@.take(i as int)),
        decreases cs.len() - i,
    {
        assert(cs@.take(i + 1).drop_last() =~= cs@.take(i as int));
        push_escaped(&mut out, cs[i]);
        i += 1;
    }
    assert(cs@.take(i as int) =~= cs@);
    out
}

proof fn lemma_escaped_first(s: Seq<char>)
    requires
        s.len() > 0,
    ensures
        escaped(s) == escape_char(s[0]) + escaped(s.skip(1)),
    decreases s.len(),
{
    let front = s.drop_last();
    if s.len() == 1 {
        assert(front =~= Seq::<char>::empty());
        assert(s.skip(1) =~= Seq::<char>::empty());
        assert(escaped(s) =~= escape_char(s[0]) + escaped(s.skip(1)));
    } else {
        lemma_escaped_first(front);
        assert(s.skip(1).drop_last() =~= front.skip(1));
        assert(escaped(s) =~= escape_char(s[0]) + escaped(s.skip(1)));
    }
}

/// The escaped form of the longest front of `s` that takes at most `cap`
/// characters so.
pub open spec fn escaped_front(s: Seq<char>, cap: nat) -> Seq<char>
    decreases s.len(),
{
    if s.len() == 0 || escaped(s).len() <= cap {
        escaped(s)
    } else {
        escaped_front(s.drop_last(), cap)
    }
}

/// The escaped form of the longest end of `s` that takes at most `cap` bytes so.
pub open spec fn escaped_end(s: Seq<char>, cap: nat) -> Seq<char>
    decreases s.len(),
{
    if s.len() == 0 || byte_len(escaped(s)) <= cap {
        escaped(s)
    } else {
        escaped_end(s.skip(1), cap)
    }
}

/// A front that is cut to size is the start of the escaped text, fits, and is the
/// escaped form of a front of the text, so that no entity is cut.
pub proof fn law_escaped_front_fits(s: Seq<char>, cap: nat)
    ensures
        escaped_front(s, cap).len() <= cap,
        escaped_front(s, cap).is_prefix_of(escaped(s)),
        exists|k: int| 0 <= k <= s.len() && escaped_front(s, cap) == #[trigger] escaped(s.take(k)),
    decreases s.len(),
{
    if s.len() == 0 || escaped(s).len() <= cap {
        assert(s.take(s.len() as int) =~= s);
        assert(escaped(s).subrange(0, escaped(s).len() as int) =~= escaped(s));
    } else {
        let front = s.drop_last();
        law_escaped_front_fits(front, cap);
        let k = choose|k: int|
            0 <= k <= front.len() && escaped_front(front, cap) == #[trigger] escaped(front.take(k));
        assert(front.take(k) =~= s.take(k));
        assert(escaped_front(s, cap) == escaped(s.take(k)));
        let e = escaped_front(front, cap);
        assert(escaped(front).subrange(0, e.len() as int) =~= escaped(s).subrange(
            0,
            e.len() as int,
        ));
    }
}

/// An end that is cut to size is the end of the escaped text, fits, and is the
/// escaped form of an end of the text, so that no entity is cut.
pub proof fn law_escaped_end_fits(s: Seq<char>, cap: nat)
    ensures
        byte_len(escaped_end(s, cap)) <= cap,
        escaped_end(s, cap).is_suffix_of(escaped(s)),
        exists|k: int| 0 <= k <= s.len() && escaped_end(s, cap) == #[trigger] escaped(s.skip(k)),
    decreases s.len(),
{
    if s.len() == 0 || byte_len(escaped(s)) <= cap {
        assert(s.skip(0) =~= s);
        assert(escaped(s).subrange(0, escaped(s).len() as int) =~= escaped(s));
    } else {
        let rest = s.skip(1);
        law_escaped_end_fits(rest, cap);
        lemma_escaped_first(s);
        let k = choose|k: int|
            0 <= k <= rest.len() && escaped_end(rest, cap) == #[trigger] escaped(rest.skip(k));
        assert(rest.skip(k) =~= s.skip(k + 1));
        assert(escaped_end(s, cap) == escaped(s.skip(k + 1)));
        let e = escaped_end(rest, cap);
        let all = escaped(s);
        let t = escaped(rest);
        assert(t.subrange(t.len() - e.len(), t.len() as int) =~= all.subrange(
            all.len() - e.len(),
            all.len() as int,
        ));
    }
}

proof fn lemma_escaped_grows(s: Seq<char>, j: int)
    requires
        0 <= j <= s.len(),
    ensures
        escaped(s.take(j)).len() <= escaped(s).len(),
    decreases s.len(),
{
    if j == s.len() {
        assert(s.take(j) =~= s);
    } else {
        let front = s.drop_last();
        lemma_escaped_grows(front, j);
        assert(front.take(j) =~= s.take(j));
    }
}

proof fn lemma_front_stops(s: Seq<char>, i: int, cap: nat)
    requires
        0 <= i <= s.len(),
        escaped(s.take(i)).len() <= cap,
        i < s.len() ==> escaped(s.take(i + 1)).len() > cap,
    ensures
        escaped_front(s, cap) == escaped(s.take(i)),
    decreases s.len(),
{
    if i == s.len() {
        assert(s.take(i) =~= s);
    } else {
        lemma_escaped_grows(s, i + 1);
        let front = s.drop_last();
        assert(front.take(i) =~= s.take(i));
        if i < front.len() {
            assert(front.take(i + 1) =~= s.take(i + 1));
        }
        lemma_front_stops(front, i, cap);
    }
}

fn escaped_len(c: char) -> (r: usize)
    ensures
        r == escape_char(c).len(),
        r <= 6,
{
    proof {
        reveal_strlit("&amp;");
        reveal_strlit("&lt;");
        reveal_strlit("&gt;");
        reveal_strlit("&#39;");
        reveal_strlit("&quot;");
    }
    if c == '&' || c == '\'' {
        5
    } else if c == '<' || c == '>' {
        4
    } else if c == '"' {
        6
    } else {
        1
    }
}

/// A text escaped for HTML and cut to at most `cap` characters, not inside an
/// entity.
pub fn escape_front(s: &str, cap: usize) -> (r: String)
    ensures
        r@ == escaped_front(s@, cap as nat),
{
    let cs = chars_of(s);
    let mut out = String::new();
    let mut used: usize = 0;
    let mut i: usize = 0;
    assert(cs@.take(0) =~= Seq::<char>::empty());
    while i < cs.len() && escaped_len(cs[i]) <= cap - used
        invariant
            i <= cs.len(),
            out@ == escaped(cs@.take(i as int)),
            used == out@.len(),
            used <= cap,
        decreases cs.len() - i,
    {
        assert(cs@.take(i + 1).drop_last() =~= cs@.take(i as int));
        used += escaped_len(cs[i]);
        push_escaped(&mut out, cs[i]);
        i += 1;
    }
    proof {
        if i < cs@.len() {
            assert(cs@.take(i + 1).drop_last() =~= cs@.take(i as int));
            assert(escaped(cs@.take(i + 1)) == out@ + escape_char(cs@[i as int]));
        }
        lemma_front_stops(s@, i as int, cap as nat);
    }
    out
}

proof fn lemma_escaped_bytes(c: char)
    ensures
        byte_len(escape_char(c)) == (if c == '&' || c == '\'' {
            5
        } else if c == '<' || c == '>' {
            4
        } else if c == '"' {
            6
        } else {
            char_width(c)
        }),
{
    reveal_strlit("&amp;");
    reveal_strlit("&lt;");
    reveal_strlit("&gt;");
    reveal_strlit("&#39;");
    reveal_strlit("&quot;");
    let e = escape_char(c);
    if c == '&' || c == '\'' || c == '<' || c == '>' || c == '"' {
        assert(vstd::utf8::is_ascii_chars(e));
        vstd::utf8::is_ascii_chars_encode_utf8(e);
    } else {
        lemma_byte_len_first(e);
        assert(e.skip(1) =~= Seq::<char>::empty());
    }
}

fn escaped_width(c: char) -> (r: usize)
    ensures
        r == byte_len(escape_char(c)),
{
    proof {
        lemma_escaped_bytes(c);
    }
    if c == '&' || c == '\'' {
        5
    } else if c == '<' || c == '>' {
        4
    } else if c == '"' {
        6
    } else {
        width_of(c)
    }
}

/// How many bytes of the escaped text are cut off where its end is cut to size.
pub open spec fn escaped_cut(s: Seq<char>, cap: nat) -> nat {
    (byte_len(escaped(s)) - byte_len(escaped_end(s, cap))) as nat
}

/// A text escaped for HTML, or its longest end of at most `cap` bytes so behind a
/// note of how many bytes were cut off.
pub open spec fn truncated_escape(s: Seq<char>, cap: nat) -> Seq<char> {
    if byte_len(escaped(s)) <= cap {
        escaped(s)
    } else {
        cut_note(escaped_cut(s, cap)) + escaped_end(s, cap)
    }
}

/// A text escaped for HTML, or its longest end of at most `cap` bytes so behind a
/// note. No entity is cut.
pub fn truncate_escaped(s: &str, cap: usize) -> (r: String)
    ensures
        r@ == truncated_escape(s@, cap as nat),
        byte_len(escaped(s@)) <= u64::MAX,
{
    let whole = html_escape(s);
    let total: usize = whole.as_str().as_bytes().len();
    if total <= cap {
        return whole;
    }
    let cs = chars_of(s);
    let mut i: usize = 0;
    let mut left: usize = total;
    assert(cs@.skip(0) =~= cs@);
    while i < cs.len() && left > cap
        invariant
            i <= cs@.len(),
            left == byte_len(escaped(cs@.skip(i as int))),
            left <= total,
            escaped_end(cs@, cap as nat) == escaped_end(cs@.skip(i as int), cap as nat),
        decreases cs@.len() - i,
    {
        proof {
            let rest = cs@.skip(i as int);
            lemma_escaped_first(rest);
            lemma_byte_len_concat(escape_char(rest[0]), escaped(rest.skip(1)));
            assert(rest.skip(1) =~= cs@.skip(i + 1));
            assert(rest[0] == cs@[i as int]);
        }
        left -= escaped_width(cs[i]);
        i += 1;
    }
    let tail = string_range(cs.as_slice(), i, cs.len());
    assert(tail@ =~= cs@.skip(i as int));
    let n = note(total - left);
    let end = html_escape(tail.as_str());
    cat2(n.as_str(), end.as_str())
}

/// Whether a character could open or close a tag or an attribute.
pub open spec fn is_markup(c: char) -> bool {
    c == '<' || c == '>' || c == '\'' || c == '"'
}

/// An escaped text holds no character that could open or close a tag or an
/// attribute.
pub proof fn law_escaped_text_has_no_markup(s: Seq<char>)
    ensures
        forall|i: int| 0 <= i < escaped(s).len() ==> !is_markup(#[trigger] escaped(s)[i]),
    decreases s.len(),
{
    if s.len() > 0 {
        law_escaped_text_has_no_markup(s.drop_last());
        reveal_strlit("&amp;");
        reveal_strlit("&lt;");
        reveal_strlit("&gt;");
        reveal_strlit("&#39;");
        reveal_strlit("&quot;");
        let a = escaped(s.drop_last());
        let b = escape_char(s.last());
        assert forall|i: int| 0 <= i < escaped(s).len() implies !is_markup(
            #[trigger] escaped(s)[i],
        ) by {
            if i < a.len() {
                assert(escaped(s)[i] == a[i]);
            } else {
                assert(escaped(s)[i] == b[i - a.len()]);
            }
        }
    }
}

/// Whether a character turns the direction of text.
pub open spec fn is_bidi(c: char) -> bool {
    0x202a <= c as u32 <= 0x202e || 0x2066 <= c as u32 <= 0x2069
}

/// Whether a character is dropped from foreign text.
pub open spec fn is_dropped(c: char) -> bool {
    is_bidi(c) || (is_control(c) && c != '\t' && c != '\n' && c != '\r')
}

/// What follows the final byte of a control sequence.
pub open spec fn after_sequence(s: Seq<char>) -> Seq<char>
    decreases s.len(),
{
    if s.len() == 0 {
        s
    } else if 0x40 <= s[0] as u32 <= 0x7e {
        s.skip(1)
    } else {
        after_sequence(s.skip(1))
    }
}

/// A control sequence is not longer than what it is cut from.
pub proof fn lemma_after_sequence_shrinks(s: Seq<char>)
    ensures
        after_sequence(s).len() <= s.len(),
    decreases s.len(),
{
    if s.len() > 0 {
        lemma_after_sequence_shrinks(s.skip(1));
    }
}

/// A text without terminal control sequences, direction marks and control
/// characters other than tabs and line ends.
pub open spec fn stripped(s: Seq<char>) -> Seq<char>
    decreases s.len(),
{
    if s.len() == 0 {
        Seq::empty()
    } else if s[0] as u32 == 0x1b {
        if s.len() > 1 && s[1] == '[' {
            proof {
                lemma_after_sequence_shrinks(s.skip(2));
            }
            stripped(after_sequence(s.skip(2)))
        } else {
            stripped(s.skip(1))
        }
    } else if is_dropped(s[0]) {
        stripped(s.skip(1))
    } else {
        seq![s[0]] + stripped(s.skip(1))
    }
}

/// A text without terminal control sequences, direction marks and control
/// characters other than tabs and line ends.
pub fn strip_ansi(s: &str) -> (r: String)
    ensures
        r@ == stripped(s@),
{
    let cs = chars_of(s);
    let mut out = String::new();
    let mut i: usize = 0;
    assert(cs@.skip(0) =~= cs@);
    assert(out@ + stripped(cs@) =~= stripped(cs@));
    while i < cs.len()
        invariant
            i <= cs.len(),
            cs@ == s@,
            out@ + stripped(cs@.skip(i as int)) == stripped(s@),
        decreases cs.len() - i,
    {
        let c: char = cs[i];
        let u: u32 = c as u32;
        let ghost rest = cs@.skip(i as int);
        let ghost done = out@;
        assert(rest[0] == c);
        assert(rest.skip(1) =~= cs@.skip(i + 1));
        if u == 0x1b {
            if i + 1 < cs.len() && cs[i + 1] == '[' {
                assert(rest[1] == '[');
                assert(rest.skip(2) =~= cs@.skip(i + 2));
                let mut j: usize = i + 2;
                let mut over = false;
                while !over && j < cs.len()
                    invariant
                        i + 2 <= j <= cs.len(),
                        !over ==> after_sequence(cs@.skip(i + 2)) == after_sequence(
                            cs@.skip(j as int),
                        ),
                        over ==> after_sequence(cs@.skip(i + 2)) == cs@.skip(j as int),
                    decreases cs.len() - j,
                {
                    let n: u32 = cs[j] as u32;
                    assert(cs@.skip(j as int)[0] == cs@[j as int]);
                    assert(cs@.skip(j as int).skip(1) =~= cs@.skip(j + 1));
                    if 0x40 <= n && n <= 0x7e {
                        over = true;
                    }
                    j += 1;
                }
                if !over {
                    assert(cs@.skip(j as int).len() == 0);
                }
                i = j;
            } else {
                i += 1;
            }
        } else if (0x202a <= u && u <= 0x202e) || (0x2066 <= u && u <= 0x2069) || (control_char(c)
            && c != '\t' && c != '\n' && c != '\r') {
            i += 1;
        } else {
            out.push(c);
            i += 1;
            assert(out@ + stripped(cs@.skip(i as int)) =~= done + (seq![c] + stripped(
                cs@.skip(i as int),
            )));
        }
    }
    assert(cs@.skip(i as int) =~= Seq::<char>::empty());
    assert(out@ + Seq::<char>::empty() =~= out@);
    out
}

/// A stripped text holds nothing that is dropped from foreign text.
pub proof fn law_stripped_text_is_clean(s: Seq<char>)
    ensures
        forall|i: int| 0 <= i < stripped(s).len() ==> !is_dropped(#[trigger] stripped(s)[i]),
    decreases s.len(),
{
    if s.len() > 0 {
        if s[0] as u32 == 0x1b {
            if s.len() > 1 && s[1] == '[' {
                lemma_after_sequence_shrinks(s.skip(2));
                law_stripped_text_is_clean(after_sequence(s.skip(2)));
                assert(stripped(s) == stripped(after_sequence(s.skip(2))));
            } else {
                law_stripped_text_is_clean(s.skip(1));
                assert(stripped(s) == stripped(s.skip(1)));
            }
        } else {
            law_stripped_text_is_clean(s.skip(1));
            if is_dropped(s[0]) {
                assert(stripped(s) == stripped(s.skip(1)));
            } else {
                assert(stripped(s) == seq![s[0]] + stripped(s.skip(1)));
                let t = stripped(s.skip(1));
                assert forall|i: int| 0 <= i < stripped(s).len() implies !is_dropped(
                    #[trigger] stripped(s)[i],
                ) by {
                    if i > 0 {
                        assert(stripped(s)[i] == t[i - 1]);
                    }
                }
            }
        }
    }
}

/// A bot's token. It has no debug form, so that no log shows it.
#[derive(Clone, PartialEq, Eq)]
pub struct RedactedToken(pub String);

impl RedactedToken {
    /// The token's text.
    pub fn expose(&self) -> (r: &str)
        ensures
            r@ == self.0@,
    {
        self.0.as_str()
    }
}

/// An error line in Telegram's HTML, where there is an error.
pub open spec fn telegram_error(error: Option<Seq<char>>) -> Seq<char> {
    if error is Some && error->0.len() > 0 {
        "\n<i>error:</i> "@ + escaped(error->0)
    } else {
        Seq::empty()
    }
}

/// An error line in Telegram's HTML of at most `room` characters, where there is an
/// error.
pub open spec fn telegram_error_within(error: Option<Seq<char>>, room: nat) -> Seq<char> {
    if error is Some && error->0.len() > 0 {
        "\n<i>error:</i> "@ + escaped_front(error->0, (room - 15) as nat)
    } else {
        Seq::empty()
    }
}

/// The end of a log in Telegram's HTML, where there is one: at most
/// `TELEGRAM_LOG_CAP` bytes of it, before its markup is escaped.
pub open spec fn telegram_plain_log(log: Seq<char>) -> Seq<char> {
    let tail = tail_lines(log, 8);
    if tail.len() > 0 {
        "\n<pre>"@ + escaped(truncated(tail, TELEGRAM_LOG_CAP as nat)) + "</pre>"@
    } else {
        Seq::empty()
    }
}

/// The end of a log in Telegram's HTML, where there is one: at most
/// `TELEGRAM_LOG_CAP` bytes of it, with its markup escaped.
pub open spec fn telegram_log(log: Seq<char>) -> Seq<char> {
    let tail = tail_lines(log, 8);
    if tail.len() > 0 {
        "\n<pre>"@ + truncated_escape(tail, TELEGRAM_LOG_CAP as nat) + "</pre>"@
    } else {
        Seq::empty()
    }
}

/// The log that is cut with its markup escaped has at most `TELEGRAM_LOG_CAP` bytes,
/// besides its tags and the note of what was cut off.
pub proof fn law_telegram_log_fits(log: Seq<char>)
    ensures
        byte_len(telegram_log(log)) <= TELEGRAM_LOG_CAP + byte_len(
            cut_note(escaped_cut(tail_lines(log, 8), TELEGRAM_LOG_CAP as nat)),
        ) + 12,
{
    let tail = tail_lines(log, 8);
    let cap = TELEGRAM_LOG_CAP as nat;
    let body = truncated_escape(tail, cap);
    law_escaped_end_fits(tail, cap);
    lemma_byte_len_concat("\n<pre>"@, body);
    lemma_byte_len_concat("\n<pre>"@ + body, "</pre>"@);
    lemma_byte_len_concat(cut_note(escaped_cut(tail, cap)), escaped_end(tail, cap));
    reveal_strlit("\n<pre>");
    reveal_strlit("</pre>");
    vstd::utf8::is_ascii_chars_encode_utf8("\n<pre>"@);
    vstd::utf8::is_ascii_chars_encode_utf8("</pre>"@);
    assert(byte_len(Seq::<char>::empty()) == 0);
}

/// The first line of a Telegram message, of texts that are already escaped.
pub open spec fn telegram_title(
    icon: Seq<char>,
    headline: Seq<char>,
    agent_id: Seq<char>,
    status: Seq<char>,
) -> Seq<char> {
    icon + " <b>"@ + headline + "</b> on <code>"@ + agent_id + "</code> → <b>"@ + status + "</b>"@
}

/// The Telegram text of an event with nothing cut but its log, which is given.
pub open spec fn telegram_with(
    headline: Seq<char>,
    agent_id: Seq<char>,
    status: Seq<char>,
    error: Option<Seq<char>>,
    block: Seq<char>,
) -> Seq<char> {
    telegram_title(emoji_of(status), escaped(headline), escaped(agent_id), escaped(status))
        + telegram_error(error) + block
}

/// The Telegram text of an event. Where it would be too long, the log is cut with
/// its markup counted. Where that does not do, the headline, the agent's name and
/// the status are cut too, and the error gets the room that is left.
pub open spec fn telegram_of(
    headline: Seq<char>,
    agent_id: Seq<char>,
    status: Seq<char>,
    error: Option<Seq<char>>,
    log: Seq<char>,
) -> Seq<char> {
    let plain = telegram_with(headline, agent_id, status, error, telegram_plain_log(log));
    let block = telegram_log(log);
    let less = telegram_with(headline, agent_id, status, error, block);
    if plain.len() <= TELEGRAM_CAP {
        plain
    } else if less.len() <= TELEGRAM_CAP {
        less
    } else {
        let cap = TELEGRAM_FIELD_CAP as nat;
        let title = telegram_title(
            emoji_of(status),
            escaped_front(headline, cap),
            escaped_front(agent_id, cap),
            escaped_front(status, cap),
        );
        title + telegram_error_within(error, (TELEGRAM_CAP - title.len() - block.len()) as nat)
            + block
    }
}

/// A message that fits Telegram is sent as it is, with no more cut than the end of
/// its log.
pub proof fn law_fitting_telegram_text_is_whole(
    headline: Seq<char>,
    agent_id: Seq<char>,
    status: Seq<char>,
    error: Option<Seq<char>>,
    log: Seq<char>,
)
    requires
        telegram_with(headline, agent_id, status, error, telegram_plain_log(log)).len()
            <= TELEGRAM_CAP,
    ensures
        telegram_of(headline, agent_id, status, error, log) == telegram_with(
            headline,
            agent_id,
            status,
            error,
            telegram_plain_log(log),
        ),
{
}

proof fn lemma_title_fits(
    status: Seq<char>,
    headline: Seq<char>,
    agent_id: Seq<char>,
    shown: Seq<char>,
)
    requires
        headline.len() <= TELEGRAM_FIELD_CAP,
        agent_id.len() <= TELEGRAM_FIELD_CAP,
        shown.len() <= TELEGRAM_FIELD_CAP,
    ensures
        telegram_title(emoji_of(status), headline, agent_id, shown).len() <= 400,
{
    reveal_strlit("✅");
    reveal_strlit("⚠️");
    reveal_strlit("❌");
    reveal_strlit(" <b>");
    reveal_strlit("</b> on <code>");
    reveal_strlit("</code> → <b>");
    reveal_strlit("</b>");
}

proof fn lemma_log_fits(log: Seq<char>)
    requires
        byte_len(escaped(tail_lines(log, 8))) <= u64::MAX,
    ensures
        telegram_log(log).len() <= 3560,
{
    let tail = tail_lines(log, 8);
    let cap = TELEGRAM_LOG_CAP as nat;
    law_escaped_end_fits(tail, cap);
    lemma_chars_within_bytes(escaped(tail));
    lemma_chars_within_bytes(escaped_end(tail, cap));
    if byte_len(escaped(tail)) > cap {
        lemma_note_len(escaped_cut(tail, cap));
    }
    reveal_strlit("\n<pre>");
    reveal_strlit("</pre>");
}

/// A Telegram message has never more characters than Telegram takes, its markup
/// counted. No text in memory has more bytes than a `u64` counts.
pub proof fn law_telegram_text_fits(
    headline: Seq<char>,
    agent_id: Seq<char>,
    status: Seq<char>,
    error: Option<Seq<char>>,
    log: Seq<char>,
)
    requires
        byte_len(escaped(tail_lines(log, 8))) <= u64::MAX,
    ensures
        telegram_of(headline, agent_id, status, error, log).len() <= TELEGRAM_CAP,
{
    let cap = TELEGRAM_FIELD_CAP as nat;
    law_escaped_front_fits(headline, cap);
    law_escaped_front_fits(agent_id, cap);
    law_escaped_front_fits(status, cap);
    let h = escaped_front(headline, cap);
    let a = escaped_front(agent_id, cap);
    let s = escaped_front(status, cap);
    lemma_title_fits(status, h, a, s);
    lemma_log_fits(log);
    let room = (TELEGRAM_CAP - telegram_title(emoji_of(status), h, a, s).len() - telegram_log(
        log,
    ).len()) as nat;
    reveal_strlit("\n<i>error:</i> ");
    if error is Some {
        law_escaped_front_fits(error->0, (room - 15) as nat);
    }
}

fn title(icon: &str, headline: &str, agent_id: &str, status: &str) -> (r: String)
    ensures
        r@ == telegram_title(icon@, headline@, agent_id@, status@),
{
    let mut text = cat5(icon, " <b>", headline, "</b> on <code>", agent_id);
    text.append("</code> → <b>");
    text.append(status);
    text.append("</b>");
    text
}

fn plain_log_part(log: &str) -> (r: String)
    ensures
        r@ == telegram_plain_log(log@),
{
    let tail = last_n_lines(log, 8);
    if is_blank(tail.as_str()) {
        return String::new();
    }
    let body = truncate(tail.as_str(), TELEGRAM_LOG_CAP);
    let shown = html_escape(body.as_str());
    cat3("\n<pre>", shown.as_str(), "</pre>")
}

fn log_part(log: &str) -> (r: String)
    ensures
        r@ == telegram_log(log@),
        byte_len(escaped(tail_lines(log@, 8))) <= u64::MAX,
{
    let tail = last_n_lines(log, 8);
    let body = truncate_escaped(tail.as_str(), TELEGRAM_LOG_CAP);
    if is_blank(tail.as_str()) {
        return String::new();
    }
    cat3("\n<pre>", body.as_str(), "</pre>")
}

/// The Telegram text of an event. Telegram takes it.
pub fn telegram_text(
    headline: &str,
    agent_id: &str,
    status: &str,
    error: Option<&str>,
    log: &str,
) -> (r: String)
    ensures
        r@ == telegram_of(headline@, agent_id@, status@, opt_str(error), log@),
        r@.len() <= TELEGRAM_CAP,
{
    let icon = emoji(status);
    let block = log_part(log);
    proof {
        law_telegram_text_fits(headline@, agent_id@, status@, opt_str(error), log@);
    }
    let h = html_escape(headline);
    let a = html_escape(agent_id);
    let s = html_escape(status);
    let mut text = title(icon, h.as_str(), a.as_str(), s.as_str());
    let ghost head = text@;
    if let Some(e) = error {
        if !is_blank(e) {
            let x = html_escape(e);
            text.append("\n<i>error:</i> ");
            text.append(x.as_str());
        }
    }
    assert(text@ =~= head + telegram_error(opt_str(error)));
    let plain_block = plain_log_part(log);
    let plain = cat2(text.as_str(), plain_block.as_str());
    let n: usize = chars_of(plain.as_str()).len();
    if n <= TELEGRAM_CAP {
        return plain;
    }
    text.append(block.as_str());
    let n: usize = chars_of(text.as_str()).len();
    if n <= TELEGRAM_CAP {
        return text;
    }
    let h = escape_front(headline, TELEGRAM_FIELD_CAP);
    let a = escape_front(agent_id, TELEGRAM_FIELD_CAP);
    let s = escape_front(status, TELEGRAM_FIELD_CAP);
    let mut short = title(icon, h.as_str(), a.as_str(), s.as_str());
    let ghost head = short@;
    proof {
        law_escaped_front_fits(headline@, TELEGRAM_FIELD_CAP as nat);
        law_escaped_front_fits(agent_id@, TELEGRAM_FIELD_CAP as nat);
        law_escaped_front_fits(status@, TELEGRAM_FIELD_CAP as nat);
        lemma_title_fits(status@, h@, a@, s@);
        lemma_log_fits(log@);
    }
    let title_len: usize = chars_of(short.as_str()).len();
    let block_len: usize = chars_of(block.as_str()).len();
    let room: usize = TELEGRAM_CAP - title_len - block_len;
    if let Some(e) = error {
        if !is_blank(e) {
            let x = escape_front(e, room - 15);
            short.append("\n<i>error:</i> ");
            short.append(x.as_str());
        }
    }
    assert(short@ =~= head + telegram_error_within(opt_str(error), room as nat));
    short.append(block.as_str());
    short
}

/// A configured destination.
#[derive(Clone, PartialEq, Eq)]
pub enum Sink {
    /// A structured event.
    GenericJson { url: String },
    Slack { url: String },
    Discord { url: String },
    Telegram { bot_token: RedactedToken, chat_id: String },
}

/// The view of `Sink`.
pub enum SinkView {
    GenericJson(Seq<char>),
    Slack(Seq<char>),
    Discord(Seq<char>),
    Telegram(Seq<char>, Seq<char>),
}

impl View for Sink {
    type V = SinkView;

    open spec fn view(&self) -> SinkView {
        match self {
            Sink::GenericJson { url } => SinkView::GenericJson(url@),
            Sink::Slack { url } => SinkView::Slack(url@),
            Sink::Discord { url } => SinkView::Discord(url@),
            Sink::Telegram { bot_token, chat_id } => SinkView::Telegram(bot_token.0@, chat_id@),
        }
    }
}

/// The name of a kind of destination.
pub open spec fn label_of(s: SinkView) -> Seq<char> {
    match s {
        SinkView::GenericJson(_) => "generic"@,
        SinkView::Slack(_) => "slack"@,
        SinkView::Discord(_) => "discord"@,
        SinkView::Telegram(_, _) => "telegram"@,
    }
}

impl Sink {
    /// The name of the kind of destination.
    pub fn label(&self) -> (r: &'static str)
        ensures
            r@ == label_of(self@),
    {
        match self {
            Sink::GenericJson { .. } => "generic",
            Sink::Slack { .. } => "slack",
            Sink::Discord { .. } => "discord",
            Sink::Telegram { .. } => "telegram",
        }
    }
}

/// The value of a setting, empty where it is not set.
pub open spec fn setting_of(env: Map<Seq<char>, String>, name: Seq<char>) -> Seq<char> {
    if env.contains_key(name) {
        env[name]@
    } else {
        Seq::empty()
    }
}

/// The value of a setting of an event, or of the general one where that is empty.
pub open spec fn setting_or_general(
    env: Map<Seq<char>, String>,
    prefix: Seq<char>,
    suffix: Seq<char>,
) -> Seq<char> {
    let own = setting_of(env, prefix + suffix);
    if own.len() > 0 {
        own
    } else {
        setting_of(env, suffix)
    }
}

/// The value of a setting, empty where it is not set.
pub fn env_or_empty(env: &StrMap<String>, name: &str) -> (r: String)
    ensures
        r@ == setting_of(env@, name@),
{
    let key = name.to_owned();
    match env.get(&key) {
        Some(v) => v.clone(),
        None => {
            let r = String::new();
            r
        },
    }
}

/// The value of a setting of an event, or of the general one where that is empty.
pub fn env_with_fallback(env: &StrMap<String>, prefix: &str, suffix: &str) -> (r: String)
    ensures
        r@ == setting_or_general(env@, prefix@, suffix@),
{
    let name = cat2(prefix, suffix);
    let own = env_or_empty(env, name.as_str());
    if !is_blank(own.as_str()) {
        return own;
    }
    env_or_empty(env, suffix)
}

/// The generic destination of an event, where one is set.
pub open spec fn generic_sink(env: Map<Seq<char>, String>, prefix: Seq<char>) -> Seq<SinkView> {
    let url = setting_or_general(env, prefix, "WEBHOOK_URL"@);
    if url.len() == 0 {
        Seq::empty()
    } else if setting_or_general(env, prefix, "WEBHOOK_FORMAT"@) == "slack"@ {
        seq![SinkView::Slack(url)]
    } else {
        seq![SinkView::GenericJson(url)]
    }
}

/// The destinations of an event.
pub open spec fn sinks_of(env: Map<Seq<char>, String>, prefix: Seq<char>) -> Seq<SinkView> {
    let slack = setting_or_general(env, prefix, "SLACK_WEBHOOK_URL"@);
    let discord = setting_or_general(env, prefix, "DISCORD_WEBHOOK_URL"@);
    let token = setting_or_general(env, prefix, "TELEGRAM_BOT_TOKEN"@);
    let chat = setting_or_general(env, prefix, "TELEGRAM_CHAT_ID"@);
    generic_sink(env, prefix) + (if slack.len() > 0 {
        seq![SinkView::Slack(slack)]
    } else {
        Seq::empty()
    }) + (if discord.len() > 0 {
        seq![SinkView::Discord(discord)]
    } else {
        Seq::empty()
    }) + (if token.len() > 0 && chat.len() > 0 {
        seq![SinkView::Telegram(token, chat)]
    } else {
        Seq::empty()
    })
}

/// The views of destinations.
pub open spec fn sink_views(v: Seq<Sink>) -> Seq<SinkView> {
    v.map_values(|s: Sink| s@)
}

/// The destinations of an event. Its own settings come before the general ones.
pub fn configured_sinks(env: &StrMap<String>, prefix: &str) -> (r: Vec<Sink>)
    ensures
        sink_views(r@) == sinks_of(env@, prefix@),
{
    let mut sinks: Vec<Sink> = Vec::new();
    let generic = env_with_fallback(env, prefix, "WEBHOOK_URL");
    if !is_blank(generic.as_str()) {
        let format = env_with_fallback(env, prefix, "WEBHOOK_FORMAT");
        if str_eq(format.as_str(), "slack") {
            sinks.push(Sink::Slack { url: generic });
        } else {
            sinks.push(Sink::GenericJson { url: generic });
        }
    }
    let ghost v1 = sink_views(sinks@);
    assert(v1 =~= generic_sink(env@, prefix@));
    let slack = env_with_fallback(env, prefix, "SLACK_WEBHOOK_URL");
    let ghost s1 = slack@;
    if !is_blank(slack.as_str()) {
        sinks.push(Sink::Slack { url: slack });
    }
    let ghost v2 = sink_views(sinks@);
    assert(v2 =~= v1 + (if s1.len() > 0 {
        seq![SinkView::Slack(s1)]
    } else {
        Seq::empty()
    }));
    let discord = env_with_fallback(env, prefix, "DISCORD_WEBHOOK_URL");
    let ghost s2 = discord@;
    if !is_blank(discord.as_str()) {
        sinks.push(Sink::Discord { url: discord });
    }
    let ghost v3 = sink_views(sinks@);
    assert(v3 =~= v2 + (if s2.len() > 0 {
        seq![SinkView::Discord(s2)]
    } else {
        Seq::empty()
    }));
    let token = env_with_fallback(env, prefix, "TELEGRAM_BOT_TOKEN");
    let chat_id = env_with_fallback(env, prefix, "TELEGRAM_CHAT_ID");
    let ghost s3 = token@;
    let ghost s4 = chat_id@;
    if !is_blank(token.as_str()) && !is_blank(chat_id.as_str()) {
        sinks.push(Sink::Telegram { bot_token: RedactedToken(token), chat_id });
    }
    assert(sink_views(sinks@) =~= v3 + (if s3.len() > 0 && s4.len() > 0 {
        seq![SinkView::Telegram(s3, s4)]
    } else {
        Seq::empty()
    }));
    sinks
}

/// An event that destinations are told of.
#[derive(Debug, Clone, PartialEq, Eq)]
pub struct Event {
    /// What it is put on record as, behind `webhook.`.
    pub kind: String,
    /// What it is called, in JSON and in every text.
    pub headline: String,
    pub agent_id: String,
    pub status: String,
    pub log: String,
    pub error: Option<String>,
    pub at: i64,
}

/// The view of `Event`.
pub struct EventView {
    pub kind: Seq<char>,
    pub headline: Seq<char>,
    pub agent_id: Seq<char>,
    pub status: Seq<char>,
    pub log: Seq<char>,
    pub error: Option<Seq<char>>,
    pub at: i64,
}

impl View for Event {
    type V = EventView;

    open spec fn view(&self) -> EventView {
        EventView {
            kind: self.kind@,
            headline: self.headline@,
            agent_id: self.agent_id@,
            status: self.status@,
            log: self.log@,
            error: opt_text(self.error),
            at: self.at,
        }
    }
}

/// An event as JSON destinations get it.
#[derive(Debug, Clone, PartialEq, Eq)]
pub struct JsonPayload {
    /// The headline.
    pub event: String,
    pub agent_id: String,
    pub status: String,
    pub log: String,
    pub error: Option<String>,
    pub at: i64,
}

/// Whether a JSON payload tells of an event.
pub open spec fn tells(p: JsonPayload, e: EventView) -> bool {
    &&& p.event@ == e.headline
    &&& p.agent_id@ == e.agent_id
    &&& p.status@ == e.status
    &&& p.log@ == e.log
    &&& opt_text(p.error) == e.error
    &&& p.at == e.at
}

/// What is sent to a destination.
#[derive(Clone, PartialEq, Eq)]
pub enum Payload {
    /// The event as JSON, to `url`.
    Json { url: String, body: JsonPayload },
    /// A text under the name `text`, to `url`.
    Slack { url: String, text: String },
    /// A text under the name `content`, to `url`.
    Discord { url: String, content: String },
    /// A message in HTML to a chat, to `url`.
    Telegram { url: String, chat_id: String, text: String },
}

/// Whether `p` is what is sent of an event to a destination.
pub open spec fn is_payload(s: SinkView, e: EventView, p: Payload) -> bool {
    match s {
        SinkView::GenericJson(u) => p matches Payload::Json { url, body } && url@ == u && tells(
            body,
            e,
        ),
        SinkView::Slack(u) => p matches Payload::Slack { url, text } && url@ == u && text@
            == slack_of(e.headline, e.agent_id, e.status, e.error, e.log),
        SinkView::Discord(u) => p matches Payload::Discord { url, content } && url@ == u && content@
            == truncated(
            discord_full(e.headline, e.agent_id, e.status, e.error, e.log),
            DISCORD_CAP as nat,
        ) && content@.len() <= DISCORD_LIMIT,
        SinkView::Telegram(t, c) => p matches Payload::Telegram { url, chat_id, text } && url@
            == "https://api.telegram.org/bot"@ + t + "/sendMessage"@ && chat_id@ == c && text@
            == telegram_of(e.headline, e.agent_id, e.status, e.error, e.log) && text@.len()
            <= TELEGRAM_CAP,
    }
}

impl Event {
    /// The same event once more.
    pub fn copy(&self) -> (r: Event)
        ensures
            r@ == self@,
    {
        Event {
            kind: self.kind.clone(),
            headline: self.headline.clone(),
            agent_id: self.agent_id.clone(),
            status: self.status.clone(),
            log: self.log.clone(),
            error: crate::text::copy_opt(&self.error),
            at: self.at,
        }
    }

    /// The event with its log cut to what is sent at most.
    pub fn capped(&self) -> (r: Event)
        ensures
            r@ == (EventView { log: truncated(self.log@, LOG_CAP as nat), ..self@ }),
    {
        let mut e = self.copy();
        e.log = truncate(self.log.as_str(), LOG_CAP);
        e
    }
}

/// What is sent of an event to a destination.
pub fn payload(sink: &Sink, event: &Event) -> (r: Payload)
    ensures
        is_payload(sink@, event@, r),
{
    let headline = event.headline.as_str();
    let agent_id = event.agent_id.as_str();
    let status = event.status.as_str();
    let log = event.log.as_str();
    let error: Option<&str> = match &event.error {
        Some(e) => Some(e.as_str()),
        None => None,
    };
    match sink {
        Sink::GenericJson { url } => Payload::Json {
            url: url.clone(),
            body: JsonPayload {
                event: event.headline.clone(),
                agent_id: event.agent_id.clone(),
                status: event.status.clone(),
                log: event.log.clone(),
                error: crate::text::copy_opt(&event.error),
                at: event.at,
            },
        },
        Sink::Slack { url } => Payload::Slack {
            url: url.clone(),
            text: slack_text(headline, agent_id, status, error, log),
        },
        Sink::Discord { url } => Payload::Discord {
            url: url.clone(),
            content: discord_text(headline, agent_id, status, error, log),
        },
        Sink::Telegram { bot_token, chat_id } => Payload::Telegram {
            url: cat3("https://api.telegram.org/bot", bot_token.expose(), "/sendMessage"),
            chat_id: chat_id.clone(),
            text: telegram_text(headline, agent_id, status, error, log),
        },
    }
}

/// How a delivery went.
#[derive(Debug, Clone, PartialEq, Eq)]
pub enum Delivery {
    /// The destination answered with success.
    Accepted { code: u16 },
    /// It answered with another status and this text.
    Rejected { code: u16, body: String },
    /// It could not be reached.
    Failed { error: String },
}

/// What goes on record of a refusing answer: clean and escaped, and then at most
/// `SNIPPET_CAP` characters of it, not cut inside an entity.
pub open spec fn snippet_of(body: Seq<char>) -> Seq<char> {
    escaped_front(stripped(body), SNIPPET_CAP as nat)
}

fn snippet(body: &str) -> (r: String)
    ensures
        r@ == snippet_of(body@),
        r@.len() <= SNIPPET_CAP,
{
    let clean = strip_ansi(body);
    proof {
        law_escaped_front_fits(clean@, SNIPPET_CAP as nat);
    }
    escape_front(clean.as_str(), SNIPPET_CAP)
}

/// Whatever a destination answers, what goes on record of it is the start of the
/// clean and escaped answer, is not longer than `SNIPPET_CAP` characters, and holds
/// neither markup nor control characters.
pub proof fn law_snippet_is_safe(body: Seq<char>)
    ensures
        snippet_of(body).len() <= SNIPPET_CAP,
        snippet_of(body).is_prefix_of(escaped(stripped(body))),
        forall|i: int| 0 <= i < snippet_of(body).len() ==> !is_markup(#[trigger] snippet_of(body)[i]),
        forall|i: int|
            0 <= i < snippet_of(body).len() ==> !is_dropped(#[trigger] snippet_of(body)[i]),
{
    let clean = stripped(body);
    law_stripped_text_is_clean(body);
    law_escaped_front_fits(clean, SNIPPET_CAP as nat);
    let k = choose|k: int|
        0 <= k <= clean.len() && snippet_of(body) == #[trigger] escaped(clean.take(k));
    law_escaped_text_has_no_markup(clean.take(k));
    assert forall|i: int| 0 <= i < clean.take(k).len() implies !is_dropped(
        #[trigger] clean.take(k)[i],
    ) by {
        assert(clean.take(k)[i] == clean[i]);
    }
    lemma_escape_keeps_clean(clean.take(k));
}

proof fn lemma_escape_keeps_clean(s: Seq<char>)
    requires
        forall|i: int| 0 <= i < s.len() ==> !is_dropped(#[trigger] s[i]),
    ensures
        forall|i: int| 0 <= i < escaped(s).len() ==> !is_dropped(#[trigger] escaped(s)[i]),
    decreases s.len(),
{
    if s.len() > 0 {
        lemma_escape_keeps_clean(s.drop_last());
        reveal_strlit("&amp;");
        reveal_strlit("&lt;");
        reveal_strlit("&gt;");
        reveal_strlit("&#39;");
        reveal_strlit("&quot;");
        let a = escaped(s.drop_last());
        let b = escape_char(s.last());
        assert(!is_dropped(s[s.len() - 1]));
        assert forall|i: int| 0 <= i < escaped(s).len() implies !is_dropped(
            #[trigger] escaped(s)[i],
        ) by {
            if i < a.len() {
                assert(escaped(s)[i] == a[i]);
            } else {
                assert(escaped(s)[i] == b[i - a.len()]);
            }
        }
    }
}

/// An entry of the audit log about the delivery of an event.
pub open spec fn delivery_entry(e: EventView, ok: bool, detail: Seq<char>) -> AuditView {
    AuditView {
        actor: Some("webhook"@),
        agent_id: Some(e.agent_id),
        kind: "webhook."@ + e.kind,
        ok,
        detail: Some(detail),
    }
}

fn delivery_audit(event: &Event, ok: bool, detail: String) -> (r: Audit)
    ensures
        r@ == delivery_entry(event@, ok, detail@),
{
    Audit {
        actor: Some("webhook".to_owned()),
        agent_id: Some(event.agent_id.clone()),
        kind: cat2("webhook.", event.kind.as_str()),
        ok,
        detail: Some(detail),
    }
}

/// What goes on record of a delivery.
pub open spec fn delivery_record(sink: SinkView, event: EventView, delivery: Delivery) -> AuditView {
    match delivery {
        Delivery::Accepted { code } => delivery_entry(
            event,
            true,
            "sink="@ + label_of(sink) + " code="@ + decimal(code as nat),
        ),
        Delivery::Rejected { code, body } => delivery_entry(
            event,
            false,
            "sink="@ + label_of(sink) + " code="@ + decimal(code as nat) + " body="@ + snippet_of(
                body@,
            ),
        ),
        Delivery::Failed { error } => delivery_entry(
            event,
            false,
            "sink="@ + label_of(sink) + " send: "@ + error@,
        ),
    }
}

/// What goes on record of a delivery.
pub fn delivered(sink: &Sink, event: &Event, delivery: &Delivery) -> (r: Audit)
    ensures
        r@ == delivery_record(sink@, event@, *delivery),
{
    let label = sink.label();
    match delivery {
        Delivery::Accepted { code } => {
            let n = u64_text(*code as u64);
            delivery_audit(event, true, cat4("sink=", label, " code=", n.as_str()))
        },
        Delivery::Rejected { code, body } => {
            let n = u64_text(*code as u64);
            let head = cat5("sink=", label, " code=", n.as_str(), " body=");
            let s = snippet(body.as_str());
            delivery_audit(event, false, cat2(head.as_str(), s.as_str()))
        },
        Delivery::Failed { error } => delivery_audit(
            event,
            false,
            cat4("sink=", label, " send: ", error.as_str()),
        ),
    }
}

/// What goes on record of an event that found the queue full.
pub fn queue_full_audit(event: &Event) -> (r: Audit)
    ensures
        r@ == delivery_entry(event@, false, "dispatch queue full, event dropped"@),
{
    delivery_audit(event, false, "dispatch queue full, event dropped".to_owned())
}

/// What goes on record of an event for which no client could be made.
pub fn client_failed_audit(event: &Event, error: &str) -> (r: Audit)
    ensures
        r@ == delivery_entry(event@, false, "client: "@ + error@),
{
    delivery_audit(event, false, cat2("client: ", error))
}

/// The event of a finished upgrade. Its settings start with `UPDATE_`.
pub open spec fn update_event(
    agent_id: Seq<char>,
    status: Seq<char>,
    log: Seq<char>,
    error: Option<Seq<char>>,
    at: i64,
) -> EventView {
    EventView {
        kind: "update_result"@,
        headline: "sys-manager apt upgrade"@,
        agent_id,
        status,
        log,
        error,
        at,
    }
}

/// The event of a finished upgrade. Its settings start with `UPDATE_`.
pub fn update_result(
    agent_id: &str,
    status: &str,
    log: &str,
    error: &Option<String>,
    at: i64,
) -> (r: Event)
    ensures
        r@ == update_event(agent_id@, status@, log@, opt_text(*error), at),
{
    Event {
        kind: "update_result".to_owned(),
        headline: "sys-manager apt upgrade".to_owned(),
        agent_id: agent_id.to_owned(),
        status: status.to_owned(),
        log: log.to_owned(),
        error: crate::text::copy_opt(error),
        at,
    }
}

/// The word for what a health probe found.
pub open spec fn state_word(s: HealthProbeState) -> Seq<char> {
    match s {
        HealthProbeState::Green => "green"@,
        HealthProbeState::Red => "red"@,
    }
}

/// The word for what a health probe found.
pub fn state_text(s: HealthProbeState) -> (r: &'static str)
    ensures
        r@ == state_word(s),
{
    match s {
        HealthProbeState::Green => "green",
        HealthProbeState::Red => "red",
    }
}

/// The event of a health probe that changed. Its settings start with `HEALTH_`.
pub open spec fn probe_event(
    agent_id: Seq<char>,
    probe_name: Seq<char>,
    state: HealthProbeState,
    detail: Seq<char>,
    at: i64,
) -> EventView {
    EventView {
        kind: "health_probe.transition"@,
        headline: "sys-manager health probe `"@ + probe_name + "`"@,
        agent_id,
        status: state_word(state),
        log: detail,
        error: None,
        at,
    }
}

/// The event of a health probe that changed. Its settings start with `HEALTH_`.
pub fn health_probe_transition(
    agent_id: &str,
    probe_name: &str,
    state: HealthProbeState,
    detail: &str,
    at: i64,
) -> (r: Event)
    ensures
        r@ == probe_event(agent_id@, probe_name@, state, detail@, at),
{
    Event {
        kind: "health_probe.transition".to_owned(),
        headline: cat3("sys-manager health probe `", probe_name, "`"),
        agent_id: agent_id.to_owned(),
        status: state_text(state).to_owned(),
        log: detail.to_owned(),
        error: None,
        at,
    }
}

/// The event of a finished backup. Its settings start with `BACKUP_`.
pub open spec fn backup_event(
    agent_id: Seq<char>,
    name: Seq<char>,
    success: bool,
    log: Seq<char>,
    error: Option<Seq<char>>,
    at: i64,
) -> EventView {
    EventView {
        kind: "backup_job.result"@,
        headline: "sys-manager backup `"@ + name + "`"@,
        agent_id,
        status: if success {
            "success"@
        } else {
            "failed"@
        },
        log,
        error,
        at,
    }
}

/// The event of a finished backup. Its settings start with `BACKUP_`.
pub fn backup_result(
    agent_id: &str,
    name: &str,
    success: bool,
    log: &str,
    error: &Option<String>,
    at: i64,
) -> (r: Event)
    ensures
        r@ == backup_event(agent_id@, name@, success, log@, opt_text(*error), at),
{
    let status = if success {
        "success"
    } else {
        "failed"
    };
    Event {
        kind: "backup_job.result".to_owned(),
        headline: cat3("sys-manager backup `", name, "`"),
        agent_id: agent_id.to_owned(),
        status: status.to_owned(),
        log: log.to_owned(),
        error: crate::text::copy_opt(error),
        at,
    }
}

/// The event of an agent that is gone. Its settings start with `DISCONNECT_`.
pub open spec fn disconnect_event(agent_id: Seq<char>, at: i64) -> EventView {
    EventView {
        kind: "agent.disconnect"@,
        headline: "sys-manager agent"@,
        agent_id,
        status: "disconnected"@,
        log: ""@,
        error: None,
        at,
    }
}

/// The event of an agent that is gone. Its settings start with `DISCONNECT_`.
pub fn agent_disconnect(agent_id: &str, at: i64) -> (r: Event)
    ensures
        r@ == disconnect_event(agent_id@, at),
{
    Event {
        kind: "agent.disconnect".to_owned(),
        headline: "sys-manager agent".to_owned(),
        agent_id: agent_id.to_owned(),
        status: "disconnected".to_owned(),
        log: "".to_owned(),
        error: None,
        at,
    }
}

/// The event of an agent that is back after it was told that it is gone. Its
/// settings start with `DISCONNECT_`.
pub open spec fn connect_event(agent_id: Seq<char>, at: i64) -> EventView {
    EventView {
        kind: "agent.reconnect"@,
        headline: "sys-manager agent"@,
        agent_id,
        status: "connected"@,
        log: ""@,
        error: None,
        at,
    }
}

/// The event of an agent that is back after it was told that it is gone. Its
/// settings start with `DISCONNECT_`.
pub fn agent_connect(agent_id: &str, at: i64) -> (r: Event)
    ensures
        r@ == connect_event(agent_id@, at),
{
    Event {
        kind: "agent.reconnect".to_owned(),
        headline: "sys-manager agent".to_owned(),
        agent_id: agent_id.to_owned(),
        status: "connected".to_owned(),
        log: "".to_owned(),
        error: None,
        at,
    }
}

/// The event of an agent that has been gone for these seconds and still is. Its
/// settings start with `DISCONNECT_`.
pub open spec fn offline_event(agent_id: Seq<char>, down_secs: i64, at: i64) -> EventView {
    EventView {
        kind: "agent.still_offline"@,
        headline: "sys-manager agent"@,
        agent_id,
        status: "disconnected"@,
        log: "offline for "@ + int_text(down_secs as int) + " s"@,
        error: None,
        at,
    }
}

/// The event of an agent that has been gone for these seconds and still is. Its
/// settings start with `DISCONNECT_`.
pub fn agent_still_offline(agent_id: &str, down_secs: i64, at: i64) -> (r: Event)
    ensures
        r@ == offline_event(agent_id@, down_secs, at),
{
    let n = i64_text(down_secs);
    Event {
        kind: "agent.still_offline".to_owned(),
        headline: "sys-manager agent".to_owned(),
        agent_id: agent_id.to_owned(),
        status: "disconnected".to_owned(),
        log: cat3("offline for ", n.as_str(), " s"),
        error: None,
        at,
    }
}

/// A setting of an event counts before the general one, unless it is empty.
pub proof fn law_own_settings_come_first(
    env: Map<Seq<char>, String>,
    prefix: Seq<char>,
    suffix: Seq<char>,
)
    ensures
        env.contains_key(prefix + suffix) && env[prefix + suffix]@.len() > 0 ==> setting_or_general(
            env,
            prefix,
            suffix,
        ) == env[prefix + suffix]@,
        !env.contains_key(prefix + suffix) || env[prefix + suffix]@.len() == 0 ==> {
            &&& env.contains_key(suffix) ==> setting_or_general(env, prefix, suffix) == env[suffix]@
            &&& !env.contains_key(suffix) ==> setting_or_general(env, prefix, suffix).len() == 0
        },
        !env.contains_key(suffix) ==> setting_of(env, suffix).len() == 0,
{
}

proof fn lemma_in_concat(a: Seq<SinkView>, b: Seq<SinkView>, x: SinkView)
    ensures
        (a + b).contains(x) <==> a.contains(x) || b.contains(x),
{
    if a.contains(x) {
        let i = choose|i: int| 0 <= i < a.len() && a[i] == x;
        assert((a + b)[i] == x);
    }
    if b.contains(x) {
        let i = choose|i: int| 0 <= i < b.len() && b[i] == x;
        assert((a + b)[a.len() + i] == x);
    }
    if (a + b).contains(x) {
        let i = choose|i: int| 0 <= i < (a + b).len() && (a + b)[i] == x;
        if i < a.len() {
            assert(a[i] == x);
        } else {
            assert(b[i - a.len()] == x);
        }
    }
}

proof fn lemma_in_single(x: SinkView, y: SinkView)
    ensures
        seq![x].contains(y) <==> x == y,
{
    assert(seq![x][0] == x);
}

/// Each destination gets what it understands: an event goes to Discord, Slack,
/// Telegram or as JSON exactly where the setting for that is there. Slack is also the
/// general address where its format says so.
pub proof fn law_destinations_follow_their_settings(
    env: Map<Seq<char>, String>,
    prefix: Seq<char>,
    u: Seq<char>,
    chat: Seq<char>,
)
    ensures
        sinks_of(env, prefix).contains(SinkView::Discord(u)) <==> u.len() > 0 && u
            == setting_or_general(env, prefix, "DISCORD_WEBHOOK_URL"@),
        sinks_of(env, prefix).contains(SinkView::Slack(u)) <==> u.len() > 0 && (u
            == setting_or_general(env, prefix, "SLACK_WEBHOOK_URL"@) || (u == setting_or_general(
            env,
            prefix,
            "WEBHOOK_URL"@,
        ) && setting_or_general(env, prefix, "WEBHOOK_FORMAT"@) == "slack"@)),
        sinks_of(env, prefix).contains(SinkView::GenericJson(u)) <==> u.len() > 0 && u
            == setting_or_general(env, prefix, "WEBHOOK_URL"@) && setting_or_general(
            env,
            prefix,
            "WEBHOOK_FORMAT"@,
        ) != "slack"@,
        sinks_of(env, prefix).contains(SinkView::Telegram(u, chat)) <==> u.len() > 0 && chat.len() > 0
            && u == setting_or_general(env, prefix, "TELEGRAM_BOT_TOKEN"@) && chat
            == setting_or_general(env, prefix, "TELEGRAM_CHAT_ID"@),
{
    let slack = setting_or_general(env, prefix, "SLACK_WEBHOOK_URL"@);
    let discord = setting_or_general(env, prefix, "DISCORD_WEBHOOK_URL"@);
    let token = setting_or_general(env, prefix, "TELEGRAM_BOT_TOKEN"@);
    let room = setting_or_general(env, prefix, "TELEGRAM_CHAT_ID"@);
    let url = setting_or_general(env, prefix, "WEBHOOK_URL"@);
    let none = Seq::<SinkView>::empty();
    let a = generic_sink(env, prefix);
    let b = if slack.len() > 0 {
        seq![SinkView::Slack(slack)]
    } else {
        none
    };
    let c = if discord.len() > 0 {
        seq![SinkView::Discord(discord)]
    } else {
        none
    };
    let d = if token.len() > 0 && room.len() > 0 {
        seq![SinkView::Telegram(token, room)]
    } else {
        none
    };
    assert(sinks_of(env, prefix) == a + b + c + d);
    assert forall|x: SinkView| #[trigger] sinks_of(env, prefix).contains(x) <==> a.contains(x)
        || b.contains(x) || c.contains(x) || d.contains(x) by {
        lemma_in_concat(a + b + c, d, x);
        lemma_in_concat(a + b, c, x);
        lemma_in_concat(a, b, x);
    }
    assert forall|x: SinkView, y: SinkView| #[trigger] seq![x].contains(y) <==> x == y by {
        lemma_in_single(x, y);
    }
    assert(sinks_of(env, prefix).contains(SinkView::Discord(u)) <==> u.len() > 0 && u == discord);
    assert(a.contains(SinkView::Slack(url)) || url.len() == 0 || setting_or_general(
        env,
        prefix,
        "WEBHOOK_FORMAT"@,
    ) != "slack"@);
}

/// Each destination is tried once for each setting that names it, and none where
/// nothing is set.
pub proof fn law_nothing_set_nothing_sent(env: Map<Seq<char>, String>, prefix: Seq<char>)
    ensures
        sinks_of(env, prefix).len() <= 4,
        setting_or_general(env, prefix, "WEBHOOK_URL"@).len() == 0 && setting_or_general(
            env,
            prefix,
            "SLACK_WEBHOOK_URL"@,
        ).len() == 0 && setting_or_general(env, prefix, "DISCORD_WEBHOOK_URL"@).len() == 0
            && setting_or_general(env, prefix, "TELEGRAM_BOT_TOKEN"@).len() == 0 ==> sinks_of(
            env,
            prefix,
        ).len() == 0,
{
}

/// What is posted goes to the address of its destination, in the form that the
/// destination understands. As JSON it holds every part of the event.
pub proof fn law_payloads_fit_their_destination(s: SinkView, e: EventView, p: Payload)
    requires
        is_payload(s, e, p),
    ensures
        s matches SinkView::GenericJson(u) ==> (p matches Payload::Json { url, body } && url@ == u
            && body.event@ == e.headline && body.agent_id@ == e.agent_id && body.status@ == e.status
            && body.log@ == e.log && opt_text(body.error) == e.error && body.at == e.at),
        s matches SinkView::Slack(u) ==> (p matches Payload::Slack { url, .. } && url@ == u),
        s matches SinkView::Discord(u) ==> (p matches Payload::Discord { url, content } && url@ == u
            && content@.len() <= 2000),
        s matches SinkView::Telegram(t, c) ==> (p matches Payload::Telegram { url, chat_id, text }
            && url@ == "https://api.telegram.org/bot"@ + t + "/sendMessage"@ && chat_id@ == c
            && text@.len() <= 4096),
{
}

/// What begins every Slack text: a mark that tells good from bad, what it is about,
/// where, and how it ended. The error follows, where there is one.
pub proof fn law_slack_texts_tell_the_event(
    headline: Seq<char>,
    agent_id: Seq<char>,
    status: Seq<char>,
    error: Option<Seq<char>>,
    log: Seq<char>,
)
    ensures
        ({
            let said = " *"@ + headline + "* on `"@ + agent_id + "` → *"@ + status + "*"@;
            let text = slack_of(headline, agent_id, status, error, log);
            let front = if status == "success"@ || status == "green"@ {
                ":white_check_mark:"@ + said
            } else if status == "disconnected"@ {
                ":warning:"@ + said
            } else {
                ":x:"@ + said
            };
            &&& front.is_prefix_of(text)
            &&& error is Some && error->0.len() > 0 ==> (front + "\n> error: "@ + error->0).is_prefix_of(
                text,
            )
            &&& (error is None || error->0.len() == 0) && tail_lines(log, 6).len() == 0 ==> text
                == front
            &&& tail_lines(log, 6).len() > 0 ==> ("\n```\n"@ + tail_lines(log, 6)
                + "\n```"@).is_suffix_of(text)
        }),
{
    let said = " *"@ + headline + "* on `"@ + agent_id + "` → *"@ + status + "*"@;
    let text = slack_of(headline, agent_id, status, error, log);
    let icon = if status == "success"@ || status == "green"@ {
        ":white_check_mark:"@
    } else if status == "disconnected"@ {
        ":warning:"@
    } else {
        ":x:"@
    };
    assert(text =~= (icon + said) + error_quote(error) + log_block(log));
    if tail_lines(log, 6).len() == 0 {
        assert(log_block(log) =~= Seq::<char>::empty());
    }
    if error is Some && error->0.len() > 0 {
        assert((icon + said) + error_quote(error) =~= icon + said + "\n> error: "@ + error->0);
    }
}

/// What begins every Discord text that is not too long.
pub proof fn law_discord_texts_tell_the_event(
    headline: Seq<char>,
    agent_id: Seq<char>,
    status: Seq<char>,
    error: Option<Seq<char>>,
    log: Seq<char>,
)
    ensures
        ({
            let said = " **"@ + headline + "** on `"@ + agent_id + "` → **"@ + status + "**"@;
            let text = discord_full(headline, agent_id, status, error, log);
            let front = if status == "success"@ || status == "green"@ {
                "✅"@ + said
            } else if status == "disconnected"@ {
                "⚠️"@ + said
            } else {
                "❌"@ + said
            };
            &&& front.is_prefix_of(text)
            &&& error is Some && error->0.len() > 0 ==> (front + "\n> error: "@ + error->0).is_prefix_of(
                text,
            )
            &&& (error is None || error->0.len() == 0) && tail_lines(log, 6).len() == 0 ==> text
                == front
            &&& tail_lines(log, 6).len() > 0 ==> ("\n```\n"@ + tail_lines(log, 6)
                + "\n```"@).is_suffix_of(text)
        }),
{
    let said = " **"@ + headline + "** on `"@ + agent_id + "` → **"@ + status + "**"@;
    let text = discord_full(headline, agent_id, status, error, log);
    let icon = emoji_of(status);
    assert(text =~= (icon + said) + error_quote(error) + log_block(log));
    if tail_lines(log, 6).len() == 0 {
        assert(log_block(log) =~= Seq::<char>::empty());
    }
    if error is Some && error->0.len() > 0 {
        assert((icon + said) + error_quote(error) =~= icon + said + "\n> error: "@ + error->0);
    }
}

/// What begins every Telegram text that is not too long, with all markup of the event
/// itself escaped.
pub proof fn law_telegram_texts_tell_the_event(
    headline: Seq<char>,
    agent_id: Seq<char>,
    status: Seq<char>,
    error: Option<Seq<char>>,
    log: Seq<char>,
)
    requires
        telegram_of(headline, agent_id, status, error, log) == telegram_with(
            headline,
            agent_id,
            status,
            error,
            telegram_plain_log(log),
        ),
    ensures
        ({
            let said = " <b>"@ + escaped(headline) + "</b> on <code>"@ + escaped(agent_id)
                + "</code> → <b>"@ + escaped(status) + "</b>"@;
            let text = telegram_of(headline, agent_id, status, error, log);
            let front = if status == "success"@ || status == "green"@ {
                "✅"@ + said
            } else if status == "disconnected"@ {
                "⚠️"@ + said
            } else {
                "❌"@ + said
            };
            &&& front.is_prefix_of(text)
            &&& error is Some && error->0.len() > 0 ==> (front + "\n<i>error:</i> "@ + escaped(
                error->0,
            )).is_prefix_of(text)
            &&& tail_lines(log, 8).len() > 0 && byte_len(tail_lines(log, 8)) <= 3500 ==> (
            "\n<pre>"@ + escaped(tail_lines(log, 8)) + "</pre>"@).is_suffix_of(text)
        }),
{
    let said = " <b>"@ + escaped(headline) + "</b> on <code>"@ + escaped(agent_id)
        + "</code> → <b>"@ + escaped(status) + "</b>"@;
    let text = telegram_of(headline, agent_id, status, error, log);
    let icon = emoji_of(status);
    let block = telegram_plain_log(log);
    assert(text =~= (icon + said) + telegram_error(error) + block);
    if error is Some && error->0.len() > 0 {
        assert((icon + said) + telegram_error(error) =~= icon + said + "\n<i>error:</i> "@ + escaped(
            error->0,
        ));
    }
}

/// The end of a log is its last lines, in order: all of them where there are no more.
pub proof fn law_last_lines_are_kept(log: Seq<char>, n: nat)
    ensures
        lines_of(log).len() <= n ==> tail_lines(log, n) == joined(lines_of(log), "\n"@),
        lines_of(log).len() > n ==> tail_lines(log, n) == joined(
            lines_of(log).subrange(lines_of(log).len() - n, lines_of(log).len() as int),
            "\n"@,
        ),
{
    let all = lines_of(log);
    assert(all.skip(0) =~= all);
    if all.len() > n {
        assert(all.skip(all.len() - n) =~= all.subrange(all.len() - n, all.len() as int));
    }
}

/// What is cut off a text is no more than needed: no longer end of it would fit. The
/// text says that, and how much, was cut.
pub proof fn law_no_more_is_cut_than_needed(s: Seq<char>, cap: nat, k: int)
    requires
        0 <= k <= s.len(),
        byte_len(s) > cap,
    ensures
        byte_len(s.skip(k)) <= cap ==> s.skip(k).len() <= fitting_end(s, cap).len(),
        fitting_end(s, cap).is_suffix_of(truncated(s, cap)),
        truncated(s, cap) == "…["@ + decimal(
            (byte_len(s) - byte_len(fitting_end(s, cap))) as nat,
        ) + " bytes truncated]…\n"@ + fitting_end(s, cap),
    decreases s.len(),
{
    if k > 0 {
        let rest = s.skip(1);
        assert(rest.skip(k - 1) =~= s.skip(k));
        assert(fitting_end(s, cap) == fitting_end(rest, cap));
        if byte_len(rest) > cap {
            law_no_more_is_cut_than_needed(rest, cap, k - 1);
        } else {
            assert(fitting_end(rest, cap) == rest);
        }
    } else {
        assert(s.skip(0) =~= s);
    }
}

/// Escaping goes character by character: each of the five that mean something in HTML
/// becomes an entity, and every other stays.
pub proof fn law_escaping_goes_by_character(s: Seq<char>, c: char)
    ensures
        escaped(Seq::<char>::empty()) == Seq::<char>::empty(),
        escaped(s.push('&')) == escaped(s) + "&amp;"@,
        escaped(s.push('<')) == escaped(s) + "&lt;"@,
        escaped(s.push('>')) == escaped(s) + "&gt;"@,
        escaped(s.push('\'')) == escaped(s) + "&#39;"@,
        escaped(s.push('"')) == escaped(s) + "&quot;"@,
        c != '&' && c != '<' && c != '>' && c != '\'' && c != '"' ==> escaped(s.push(c)) == escaped(
            s,
        ).push(c),
{
    assert(s.push('&').drop_last() =~= s);
    assert(s.push('<').drop_last() =~= s);
    assert(s.push('>').drop_last() =~= s);
    assert(s.push('\'').drop_last() =~= s);
    assert(s.push('"').drop_last() =~= s);
    assert(s.push(c).drop_last() =~= s);
    assert(escaped(s) + seq![c] =~= escaped(s).push(c));
}

/// A text without control characters, direction marks and escape sequences is kept as
/// it is; tabs and line ends count as text.
pub proof fn law_plain_text_is_not_stripped(s: Seq<char>)
    requires
        forall|i: int|
            0 <= i < s.len() ==> (!is_control(#[trigger] s[i]) || s[i] == '\t' || s[i] == '\n' || s[i]
                == '\r') && !(0x202a <= s[i] as u32 <= 0x202e) && !(0x2066 <= s[i] as u32 <= 0x2069),
    ensures
        stripped(s) == s,
    decreases s.len(),
{
    if s.len() > 0 {
        assert(s[0] == s[0]);
        assert forall|i: int| 0 <= i < s.skip(1).len() implies (!is_control(#[trigger] s.skip(1)[i])
            || s.skip(1)[i] == '\t' || s.skip(1)[i] == '\n' || s.skip(1)[i] == '\r') && !(0x202a
            <= s.skip(1)[i] as u32 <= 0x202e) && !(0x2066 <= s.skip(1)[i] as u32 <= 0x2069) by {
            assert(s.skip(1)[i] == s[i + 1]);
        }
        law_plain_text_is_not_stripped(s.skip(1));
        assert(is_control('\u{1b}'));
        assert(seq![s[0]] + s.skip(1) =~= s);
    }
}

/// An escape sequence leaves nothing of itself behind, up to the letter that ends it.
pub proof fn law_escape_sequences_are_stripped(params: Seq<char>, last: char, rest: Seq<char>)
    requires
        forall|i: int|
            0 <= i < params.len() ==> !(0x40 <= (#[trigger] params[i]) as u32 <= 0x7e),
        0x40 <= last as u32 <= 0x7e,
    ensures
        stripped(seq!['\u{1b}', '['] + params + seq![last] + rest) == stripped(rest),
{
    let s = seq!['\u{1b}', '['] + params + seq![last] + rest;
    assert(s.skip(2) =~= params + seq![last] + rest);
    lemma_sequence_ends(params, last, rest);
    assert(s[0] == '\u{1b}');
}

proof fn lemma_sequence_ends(params: Seq<char>, last: char, rest: Seq<char>)
    requires
        forall|i: int|
            0 <= i < params.len() ==> !(0x40 <= (#[trigger] params[i]) as u32 <= 0x7e),
        0x40 <= last as u32 <= 0x7e,
    ensures
        after_sequence(params + seq![last] + rest) == rest,
    decreases params.len(),
{
    let s = params + seq![last] + rest;
    if params.len() == 0 {
        assert(s[0] == last);
        assert(s.skip(1) =~= rest);
    } else {
        assert(s[0] == params[0]);
        assert(s.skip(1) =~= params.skip(1) + seq![last] + rest);
        assert forall|i: int| 0 <= i < params.skip(1).len() implies !(0x40 <= (
        #[trigger] params.skip(1)[i]) as u32 <= 0x7e) by {
            assert(params.skip(1)[i] == params[i + 1]);
        }
        lemma_sequence_ends(params.skip(1), last, rest);
    }
}

/// A delivery goes on record as good exactly where the destination accepted it, under
/// the agent and the kind of its event.
pub proof fn law_deliveries_are_recorded_truly(s: SinkView, e: EventView, d: Delivery)
    ensures
        delivery_record(s, e, d).ok <==> d is Accepted,
        delivery_record(s, e, d).agent_id == Some(e.agent_id),
        delivery_record(s, e, d).actor == Some("webhook"@),
        delivery_record(s, e, d).kind == "webhook."@ + e.kind,
{
}

/// The record of a delivery names the kind of its destination, and two kinds have two
/// names.
pub proof fn law_destinations_have_names(u: Seq<char>, v: Seq<char>)
    ensures
        label_of(SinkView::GenericJson(u)) == "generic"@,
        label_of(SinkView::Slack(u)) == "slack"@,
        label_of(SinkView::Discord(u)) == "discord"@,
        label_of(SinkView::Telegram(u, v)) == "telegram"@,
{
}

/// Events say of an agent what is so: that it is gone, that it still is, or that it is
/// back.
pub proof fn law_presence_is_told_truly(agent_id: Seq<char>, down_secs: i64, at: i64)
    ensures
        disconnect_event(agent_id, at).status == "disconnected"@,
        offline_event(agent_id, down_secs, at).status == "disconnected"@,
        connect_event(agent_id, at).status == "connected"@,
        disconnect_event(agent_id, at).kind == "agent.disconnect"@,
        offline_event(agent_id, down_secs, at).kind == "agent.still_offline"@,
        connect_event(agent_id, at).kind == "agent.reconnect"@,
        disconnect_event(agent_id, at).agent_id == agent_id,
        offline_event(agent_id, down_secs, at).agent_id == agent_id,
        connect_event(agent_id, at).agent_id == agent_id,
        disconnect_event(agent_id, at).at == at,
        offline_event(agent_id, down_secs, at).at == at,
        connect_event(agent_id, at).at == at,
        offline_event(agent_id, down_secs, at).log == "offline for "@ + int_text(down_secs as int)
            + " s"@,
{
}

/// The events of work that has ended say of which agent it was, when, and how it ended.
pub proof fn law_finished_work_is_told_truly(
    agent_id: Seq<char>,
    name: Seq<char>,
    success: bool,
    state: HealthProbeState,
    status: Seq<char>,
    log: Seq<char>,
    error: Option<Seq<char>>,
    at: i64,
)
    ensures
        ({
            let b = backup_event(agent_id, name, success, log, error, at);
            &&& success ==> b.status == "success"@
            &&& !success ==> b.status == "failed"@
            &&& b.agent_id == agent_id && b.at == at && b.log == log && b.error == error
        }),
        ({
            let p = probe_event(agent_id, name, state, log, at);
            &&& state == HealthProbeState::Green ==> p.status == "green"@
            &&& state == HealthProbeState::Red ==> p.status == "red"@
            &&& p.agent_id == agent_id && p.at == at && p.log == log && p.error is None
        }),
        ({
            let u = update_event(agent_id, status, log, error, at);
            u.agent_id == agent_id && u.status == status && u.log == log && u.error == error && u.at
                == at
        }),
{
}

/// An error that says nothing is as none: in no text does it take a line.
pub proof fn law_empty_errors_take_no_line(
    headline: Seq<char>,
    agent_id: Seq<char>,
    status: Seq<char>,
    log: Seq<char>,
)
    ensures
        slack_of(headline, agent_id, status, Some(Seq::empty()), log) == slack_of(
            headline,
            agent_id,
            status,
            None,
            log,
        ),
        telegram_of(headline, agent_id, status, Some(Seq::empty()), log) == telegram_of(
            headline,
            agent_id,
            status,
            None,
            log,
        ),
        telegram_of(headline, agent_id, status, None, log) == telegram_with(
            headline,
            agent_id,
            status,
            None,
            telegram_plain_log(log),
        ) && telegram_plain_log(log).len() == 0 ==> telegram_of(headline, agent_id, status, None, log)
            == emoji_of(status) + " <b>"@ + escaped(headline) + "</b> on <code>"@ + escaped(agent_id)
            + "</code> → <b>"@ + escaped(status) + "</b>"@,
{
    let title = telegram_title(emoji_of(status), escaped(headline), escaped(agent_id), escaped(status));
    if telegram_plain_log(log).len() == 0 {
        assert(title + Seq::<char>::empty() + telegram_plain_log(log) =~= title);
    }
}

/// An error that says anything, however little, is told.
pub proof fn law_errors_are_told(error: Seq<char>, room: nat)
    requires
        error.len() > 0,
        byte_len(escaped(error)) + 15 <= room,
    ensures
        error_quote(Some(error)) == "\n> error: "@ + error,
        telegram_error(Some(error)) == "\n<i>error:</i> "@ + escaped(error),
        "\n<i>error:</i> "@.is_prefix_of(telegram_error_within(Some(error), room)),
{
}

/// The marks that turn the direction of a text are the five that embed or override it
/// and the four that isolate it.
pub proof fn law_direction_marks_are_known(c: char)
    ensures
        is_bidi(c) <==> {
            let u = c as u32;
            u == 0x202a || u == 0x202b || u == 0x202c || u == 0x202d || u == 0x202e || u == 0x2066
                || u == 0x2067 || u == 0x2068 || u == 0x2069
        },
{
}

} // verus!
