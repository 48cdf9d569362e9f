//! The recording of terminal sessions: which sessions are recorded, and how their
//! frames are written.

use vstd::prelude::*;
use crate::auth::{is_on, switches_on};
use crate::message::Message;
use crate::strmap::StrMap;
use crate::text::{ascii_lower, cat3, is_blank, lowered, texts, trim, trim_end_char, trimmed, without_trailing};

verus! {

/// Whether sessions are recorded: the sidecar is there, and the switch is on.
pub open spec fn records(ee_active: bool, setting: Seq<char>) -> bool {
    ee_active && is_on(lowered(trimmed(setting)))
}

/// Whether sessions are recorded: the sidecar is there, and the switch is on.
pub fn enabled(ee_active: bool, setting: &str) -> (r: bool)
    ensures
        r == records(ee_active, setting@),
{
    if !ee_active {
        return false;
    }
    let word = trim(setting);
    let word = ascii_lower(word.as_str());
    switches_on(word.as_str())
}

/// The character of the base64 alphabet for `n`, which is below 64.
pub open spec fn b64_digit(n: int) -> char {
    if n < 26 {
        (65 + n) as char
    } else if n < 52 {
        (71 + n) as char
    } else if n < 62 {
        (n - 4) as char
    } else if n == 62 {
        '+'
    } else {
        '/'
    }
}

/// Three bytes as one number; what is missing counts as 0.
pub open spec fn group(data: Seq<u8>) -> int {
    let b1 = if data.len() > 1 {
        data[1] as int
    } else {
        0
    };
    let b2 = if data.len() > 2 {
        data[2] as int
    } else {
        0
    };
    data[0] as int * 65536 + b1 * 256 + b2
}

/// The four characters of up to three bytes.
pub open spec fn b64_group(data: Seq<u8>) -> Seq<char> {
    let n = group(data);
    seq![
        b64_digit(n / 262144),
        b64_digit(n / 4096 % 64),
        if data.len() > 1 {
            b64_digit(n / 64 % 64)
        } else {
            '='
        },
        if data.len() > 2 {
            b64_digit(n % 64)
        } else {
            '='
        },
    ]
}

/// Bytes in standard base64, padded.
pub open spec fn b64_text(data: Seq<u8>) -> Seq<char>
    decreases data.len(),
{
    if data.len() == 0 {
        Seq::empty()
    } else if data.len() <= 3 {
        b64_group(data)
    } else {
        b64_group(data.take(3)) + b64_text(data.skip(3))
    }
}

fn digit(n: u32) -> (r: char)
    requires
        n < 64,
    ensures
        r == b64_digit(n as int),
{
    let k: u8 = n as u8;
    if n < 26 {
        (65u8 + k) as char
    } else if n < 52 {
        (71u8 + k) as char
    } else if n < 62 {
        (k - 4) as char
    } else if n == 62 {
        '+'
    } else {
        '/'
    }
}

/// Bytes in standard base64, padded.
pub fn b64(data: &[u8]) -> (r: String)
    ensures
        r@ == b64_text(data@),
{
    let mut out = String::new();
    let mut i: usize = 0;
    assert(data@.skip(0) =~= data@);
    while i < data.len()
        invariant
            i <= data.len(),
            out@ + b64_text(data@.skip(i as int)) == b64_text(data@),
        decreases data.len() - i,
    {
        let left: usize = data.len() - i;
        let ghost rest = data@.skip(i as int);
        let ghost head = if left <= 3 {
            rest
        } else {
            rest.take(3)
        };
        let ghost before = out@;
        let b0: u32 = data[i] as u32;
        let b1: u32 = if left > 1 {
            data[i + 1] as u32
        } else {
            0
        };
        let b2: u32 = if left > 2 {
            data[i + 2] as u32
        } else {
            0
        };
        let n: u32 = b0 * 65536 + b1 * 256 + b2;
        assert(n == group(head));
        out.push(digit(n / 262144));
        out.push(digit(n / 4096 % 64));
        out.push(
            if left > 1 {
                digit(n / 64 % 64)
            } else {
                '='
            },
        );
        out.push(
            if left > 2 {
                digit(n % 64)
            } else {
                '='
            },
        );
        assert(out@ =~= before + b64_group(head));
        if left <= 3 {
            i = data.len();
            assert(data@.skip(i as int) =~= Seq::<u8>::empty());
            assert(out@ + b64_text(data@.skip(i as int)) =~= before + b64_text(rest));
        } else {
            assert(rest.skip(3) =~= data@.skip(i + 3));
            i += 3;
            assert(out@ + b64_text(data@.skip(i as int)) =~= before + b64_text(rest));
        }
    }
    assert(data@.skip(i as int) =~= Seq::<u8>::empty());
    assert(out@ =~= out@ + b64_text(data@.skip(i as int)));
    out
}

/// The number that a character of the base64 alphabet stands for.
pub open spec fn b64_value(c: char) -> int {
    let u = c as int;
    if 65 <= u <= 90 {
        u - 65
    } else if 97 <= u <= 122 {
        u - 71
    } else if 48 <= u <= 57 {
        u + 4
    } else if c == '+' {
        62
    } else {
        63
    }
}

/// The bytes that four characters stand for.
pub open spec fn group_bytes(s: Seq<char>) -> Seq<u8> {
    let n = b64_value(s[0]) * 262144 + b64_value(s[1]) * 4096 + (if s[2] == '=' {
        0
    } else {
        b64_value(s[2]) * 64
    }) + (if s[3] == '=' {
        0
    } else {
        b64_value(s[3])
    });
    if s[2] == '=' {
        seq![(n / 65536) as u8]
    } else if s[3] == '=' {
        seq![(n / 65536) as u8, (n / 256 % 256) as u8]
    } else {
        seq![(n / 65536) as u8, (n / 256 % 256) as u8, (n % 256) as u8]
    }
}

/// The bytes that a text in base64 stands for.
pub open spec fn b64_bytes(s: Seq<char>) -> Seq<u8>
    decreases s.len(),
{
    if s.len() < 4 {
        Seq::empty()
    } else {
        group_bytes(s.take(4)) + b64_bytes(s.skip(4))
    }
}

proof fn lemma_digit_value(n: int)
    requires
        0 <= n < 64,
    ensures
        b64_value(b64_digit(n)) == n,
        b64_digit(n) != '=',
{
}

proof fn lemma_digits(n: int)
    requires
        0 <= n < 16777216,
    ensures
        0 <= n / 262144 < 64,
        (n / 262144) * 262144 + (n / 4096 % 64) * 4096 + (n / 64 % 64) * 64 + n % 64 == n,
{
    let a = n / 64;
    let b = n / 4096;
    assert(b == a / 64);
    assert(n / 262144 == b / 64);
    assert(a == (a / 64) * 64 + a % 64);
    assert(b == (b / 64) * 64 + b % 64);
    assert(n == a * 64 + n % 64);
}

proof fn lemma_bytes(b0: int, b1: int, b2: int)
    requires
        0 <= b0 < 256,
        0 <= b1 < 256,
        0 <= b2 < 256,
    ensures
        (b0 * 65536 + b1 * 256 + b2) / 65536 == b0,
        (b0 * 65536 + b1 * 256 + b2) / 256 % 256 == b1,
        (b0 * 65536 + b1 * 256 + b2) % 256 == b2,
{
    let n = b0 * 65536 + b1 * 256 + b2;
    assert(n / 256 == b0 * 256 + b1);
}

proof fn lemma_short_group(b0: int, b1: int)
    requires
        0 <= b0 < 256,
        0 <= b1 < 256,
    ensures
        (b0 * 65536) / 64 % 64 == 0,
        (b0 * 65536) % 64 == 0,
        (b0 * 65536 + b1 * 256) % 64 == 0,
{
    assert(b0 * 65536 / 64 == b0 * 1024);
}

proof fn lemma_group_reads_back(data: Seq<u8>)
    requires
        0 < data.len() <= 3,
    ensures
        group_bytes(b64_group(data)) == data,
{
    let n = group(data);
    let b0 = data[0] as int;
    let b1 = if data.len() > 1 {
        data[1] as int
    } else {
        0
    };
    let b2 = if data.len() > 2 {
        data[2] as int
    } else {
        0
    };
    let s = b64_group(data);
    let d0 = n / 262144;
    let d1 = n / 4096 % 64;
    let d2 = n / 64 % 64;
    let d3 = n % 64;
    lemma_digits(n);
    lemma_bytes(b0, b1, b2);
    lemma_short_group(b0, b1);
    lemma_digit_value(d0);
    lemma_digit_value(d1);
    lemma_digit_value(d2);
    lemma_digit_value(d3);
    assert(s[0] == b64_digit(d0) && s[1] == b64_digit(d1));
    let m = d0 * 262144 + d1 * 4096 + (if s[2] == '=' {
        0
    } else {
        d2 * 64
    }) + (if s[3] == '=' {
        0
    } else {
        d3
    });
    assert(m == n) by {
        if data.len() == 1 {
            assert(d2 == 0 && d3 == 0);
        } else if data.len() == 2 {
            assert(d3 == 0);
        }
    }
    assert(group_bytes(s) =~= data);
}

/// What a frame is written as reads back as the frame.
pub proof fn law_base64_reads_back(data: Seq<u8>)
    ensures
        b64_bytes(b64_text(data)) == data,
    decreases data.len(),
{
    let s = b64_text(data);
    if data.len() == 0 {
        assert(b64_bytes(s) =~= data);
    } else if data.len() <= 3 {
        lemma_group_reads_back(data);
        assert(s.take(4) =~= s);
        assert(s.skip(4) =~= Seq::<char>::empty());
        assert(b64_bytes(s.skip(4)) =~= Seq::<u8>::empty());
        assert(b64_bytes(s) =~= data);
    } else {
        lemma_group_reads_back(data.take(3));
        law_base64_reads_back(data.skip(3));
        assert(s.take(4) =~= b64_group(data.take(3)));
        assert(s.skip(4) =~= b64_text(data.skip(3)));
        assert(data =~= data.take(3) + data.skip(3));
        assert(b64_bytes(s) =~= data);
    }
}

/// The sessions that are being recorded.
pub struct Recorder {
    sessions: StrMap<()>,
}

impl View for Recorder {
    type V = Set<Seq<char>>;

    closed spec fn view(&self) -> Set<Seq<char>> {
        self.sessions@.dom()
    }
}

/// Whether a session that is opened is recorded from then on and was not before.
pub open spec fn starts(recorded: Set<Seq<char>>, on: bool, session_id: Seq<char>) -> bool {
    on && session_id.len() > 0 && !recorded.contains(session_id)
}

impl Recorder {
    /// Nothing is recorded.
    pub fn new() -> (r: Self)
        ensures
            r@ == Set::<Seq<char>>::empty(),
    {
        let r = Recorder { sessions: StrMap::new() };
        assert(r@ =~= Set::<Seq<char>>::empty());
        r
    }

    /// A session was opened: whether a recording starts. None starts where
    /// recording is off, for the session without a name, and for one that is
    /// already recorded.
    pub fn start(&mut self, on: bool, session_id: &str) -> (r: bool)
        ensures
            r == starts(old(self)@, on, session_id@),
            final(self)@ == (if r {
                old(self)@.insert(session_id@)
            } else {
                old(self)@
            }),
    {
        if !on || is_blank(session_id) {
            return false;
        }
        let key = session_id.to_owned();
        if self.sessions.contains_key(&key) {
            return false;
        }
        let ghost before = self.sessions@;
        self.sessions.insert(key, ());
        assert(self.sessions@.dom() =~= before.dom().insert(session_id@));
        true
    }

    /// Whether the frames of a session are mirrored.
    pub fn frame(&self, session_id: &str) -> (r: bool)
        ensures
            r == (session_id@.len() > 0 && self@.contains(session_id@)),
    {
        if is_blank(session_id) {
            return false;
        }
        let key = session_id.to_owned();
        self.sessions.contains_key(&key)
    }

    /// A session was closed: whether it was recorded.
    pub fn stop(&mut self, session_id: &str) -> (r: bool)
        ensures
            r == old(self)@.contains(session_id@),
            final(self)@ == old(self)@.remove(session_id@),
    {
        let ghost before = self.sessions@;
        let key = session_id.to_owned();
        let known = self.sessions.contains_key(&key);
        self.sessions.remove(&key);
        assert(self.sessions@.dom() =~= before.dom().remove(session_id@));
        known
    }
}

impl Default for Recorder {
    fn default() -> (r: Self)
        ensures
            r@ == Set::<Seq<char>>::empty(),
    {
        Recorder::new()
    }
}

/// Where a step of a recording is posted to: `start`, `frame` or `stop`.
pub fn recording_url(sidecar: &str, step: &str) -> (r: String)
    ensures
        r@ == without_trailing(sidecar@, '/') + "/internal/recording/"@ + step@,
{
    let base = trim_end_char(sidecar, '/');
    cat3(base.as_str(), "/internal/recording/", step)
}

/// What the recording of a session has to do with a user's message.
#[derive(Debug, Clone, Copy, PartialEq, Eq, Structural)]
pub enum Tap {
    Nothing,
    /// A recording starts.
    Start,
    /// The message is mirrored.
    Frame,
    /// A recording ends.
    Stop,
}

/// The sessions that one connection of a user has opened and not closed.
pub struct OpenSessions {
    sessions: StrMap<()>,
}

impl View for OpenSessions {
    type V = Set<Seq<char>>;

    closed spec fn view(&self) -> Set<Seq<char>> {
        self.sessions@.dom()
    }
}

/// What a user's message has to do with the recordings.
pub open spec fn tap_of(recorded: Set<Seq<char>>, on: bool, m: Message) -> Tap {
    match m {
        Message::StartTerminalRequest { session_id } => if starts(recorded, on, session_id@) {
            Tap::Start
        } else {
            Tap::Nothing
        },
        Message::TerminalData { session_id, .. } => if session_id@.len() > 0 && recorded.contains(
            session_id@,
        ) {
            Tap::Frame
        } else {
            Tap::Nothing
        },
        Message::StopTerminalRequest { session_id } => if recorded.contains(session_id@) {
            Tap::Stop
        } else {
            Tap::Nothing
        },
        _ => Tap::Nothing,
    }
}

/// The recordings after a user's message.
pub open spec fn recorded_after(recorded: Set<Seq<char>>, on: bool, m: Message) -> Set<Seq<char>> {
    match m {
        Message::StartTerminalRequest { session_id } => if starts(recorded, on, session_id@) {
            recorded.insert(session_id@)
        } else {
            recorded
        },
        Message::StopTerminalRequest { session_id } => recorded.remove(session_id@),
        _ => recorded,
    }
}

/// The open sessions after a user's message.
pub open spec fn open_after(sessions: Set<Seq<char>>, m: Message) -> Set<Seq<char>> {
    match m {
        Message::StartTerminalRequest { session_id } => sessions.insert(session_id@),
        Message::StopTerminalRequest { session_id } => sessions.remove(session_id@),
        _ => sessions,
    }
}

impl OpenSessions {
    /// No session is open.
    pub fn new() -> (r: Self)
        ensures
            r@ == Set::<Seq<char>>::empty(),
    {
        let r = OpenSessions { sessions: StrMap::new() };
        assert(r@ =~= Set::<Seq<char>>::empty());
        r
    }

    /// Follows a user's message: what it has to do with the recordings.
    pub fn tap(&mut self, recorder: &mut Recorder, on: bool, m: &Message) -> (r: Tap)
        ensures
            r == tap_of(old(recorder)@, on, *m),
            final(recorder)@ == recorded_after(old(recorder)@, on, *m),
            final(self)@ == open_after(old(self)@, *m),
    {
        let ghost before = self.sessions@;
        match m {
            Message::StartTerminalRequest { session_id } => {
                let started = recorder.start(on, session_id.as_str());
                self.sessions.insert(session_id.clone(), ());
                assert(self.sessions@.dom() =~= before.dom().insert(session_id@));
                if started {
                    Tap::Start
                } else {
                    Tap::Nothing
                }
            },
            Message::TerminalData { session_id, .. } => {
                if recorder.frame(session_id.as_str()) {
                    Tap::Frame
                } else {
                    Tap::Nothing
                }
            },
            Message::StopTerminalRequest { session_id } => {
                let known = recorder.stop(session_id.as_str());
                self.sessions.remove(session_id);
                assert(self.sessions@.dom() =~= before.dom().remove(session_id@));
                if known {
                    Tap::Stop
                } else {
                    Tap::Nothing
                }
            },
            _ => Tap::Nothing,
        }
    }

    /// The connection is gone: ends the recordings of all its sessions, and tells
    /// which ended.
    pub fn close(&self, recorder: &mut Recorder) -> (r: Vec<String>)
        ensures
            final(recorder)@ == old(recorder)@.difference(self@),
            texts(r@).to_set() == old(recorder)@.intersect(self@),
    {
        let n: usize = self.sessions.len();
        let ghost list = self.sessions.list();
        let mut ended: Vec<String> = Vec::new();
        let mut i: usize = 0;
        while i < n
            invariant
                i <= n,
                n == list.len(),
                list == self.sessions.list(),
                forall|x: int, y: int|
                    0 <= x < list.len() && 0 <= y < list.len() && x != y ==> (#[trigger] list[x]).0@
                        != (#[trigger] list[y]).0@,
                forall|s: Seq<char>| #[trigger]
                    recorder@.contains(s) <==> old(recorder)@.contains(s) && forall|x: int|
                        0 <= x < i ==> (#[trigger] list[x]).0@ != s,
                forall|s: Seq<char>| #[trigger]
                    texts(ended@).contains(s) <==> old(recorder)@.contains(s) && exists|x: int|
                        0 <= x < i && (#[trigger] list[x]).0@ == s,
            decreases n - i,
        {
            let (session_id, _) = self.sessions.entry(i);
            let ghost s0 = list[i as int].0@;
            let ghost ended0 = texts(ended@);
            let ghost rec0 = recorder@;
            assert(recorder@.contains(s0) == old(recorder)@.contains(s0));
            if recorder.stop(session_id.as_str()) {
                ended.push(session_id.clone());
                assert(texts(ended@) =~= ended0.push(s0));
            }
            proof {
                assert forall|s: Seq<char>| #[trigger]
                    recorder@.contains(s) <==> old(recorder)@.contains(s) && forall|x: int|
                        0 <= x < i + 1 ==> (#[trigger] list[x]).0@ != s by {
                    assert(rec0.contains(s) <==> old(recorder)@.contains(s) && forall|x: int|
                        0 <= x < i ==> (#[trigger] list[x]).0@ != s);
                    if s == s0 {
                        assert(list[i as int].0@ == s);
                    }
                }
                assert forall|s: Seq<char>| #[trigger]
                    texts(ended@).contains(s) <==> old(recorder)@.contains(s) && exists|x: int|
                        0 <= x < i + 1 && (#[trigger] list[x]).0@ == s by {
                    assert(ended0.contains(s) <==> old(recorder)@.contains(s) && exists|x: int|
                        0 <= x < i && (#[trigger] list[x]).0@ == s);
                    if rec0.contains(s0) {
                        assert(texts(ended@) == ended0.push(s0));
                        if ended0.contains(s) {
                            let k = choose|k: int| 0 <= k < ended0.len() && ended0[k] == s;
                            assert(texts(ended@)[k] == s);
                        }
                        assert(texts(ended@)[ended0.len() as int] == s0);
                        if texts(ended@).contains(s) && s != s0 {
                            let k = choose|k: int| 0 <= k < texts(ended@).len() && texts(ended@)[k] == s;
                            assert(ended0[k] == s);
                        }
                    } else {
                        assert(texts(ended@) == ended0);
                    }
                    if s == s0 {
                        assert(list[i as int].0@ == s);
                    }
                    if exists|x: int| 0 <= x < i && (#[trigger] list[x]).0@ == s {
                        let x = choose|x: int| 0 <= x < i && (#[trigger] list[x]).0@ == s;
                        assert(0 <= x < i + 1 && list[x].0@ == s);
                    }
                }
            }
            i += 1;
        }
        proof {
            assert forall|s: Seq<char>| self@.contains(s) <==> exists|x: int|
                0 <= x < n && (#[trigger] list[x]).0@ == s by {
                if self.sessions@.contains_key(s) {
                    let x = choose|x: int|
                        0 <= x < self.sessions.list().len() && (#[trigger] self.sessions.list()[x]).0@
                            == s;
                    assert(list[x].0@ == s);
                }
                if exists|x: int| 0 <= x < n && (#[trigger] list[x]).0@ == s {
                    let x = choose|x: int| 0 <= x < n && (#[trigger] list[x]).0@ == s;
                    assert(self.sessions@.contains_key(self.sessions.list()[x].0@));
                }
            }
            assert(recorder@ =~= old(recorder)@.difference(self@));
            assert(texts(ended@).to_set() =~= old(recorder)@.intersect(self@));
        }
        ended
    }
}

/// Terminals are recorded where there is a sidecar and the setting says so in one of its
/// four words, in whatever case and however it is spaced.
pub proof fn law_recording_has_to_be_asked_for(ee_active: bool, setting: Seq<char>)
    ensures
        !records(false, setting),
        records(true, setting) <==> (lowered(trimmed(setting)) == "1"@ || lowered(trimmed(setting))
            == "true"@ || lowered(trimmed(setting)) == "yes"@ || lowered(trimmed(setting)) == "on"@),
        records(ee_active, setting) ==> ee_active,
{
}

/// A recording runs from the start of its terminal to the end of it: from the start on
/// its output is mirrored, a second start begins none, and after the end nothing is.
pub proof fn law_recordings_run_from_start_to_stop(
    recorded: Set<Seq<char>>,
    start: Message,
    data: Message,
    stop: Message,
    on: bool,
    later: bool,
)
    requires
        start is StartTerminalRequest,
        data is TerminalData,
        stop is StopTerminalRequest,
        data->TerminalData_session_id@ == start->StartTerminalRequest_session_id@,
        stop->StopTerminalRequest_session_id@ == start->StartTerminalRequest_session_id@,
        start->StartTerminalRequest_session_id@.len() > 0,
        !recorded.contains(start->StartTerminalRequest_session_id@),
    ensures
        on ==> tap_of(recorded, on, start) == Tap::Start,
        !on ==> tap_of(recorded, on, start) == Tap::Nothing && recorded_after(recorded, on, start)
            == recorded,
        on ==> ({
            let during = recorded_after(recorded, on, start);
            &&& tap_of(during, later, data) == Tap::Frame
            &&& recorded_after(during, later, data) == during
            &&& tap_of(during, later, start) == Tap::Nothing
            &&& tap_of(during, later, stop) == Tap::Stop
            &&& tap_of(recorded_after(during, later, stop), later, data) == Tap::Nothing
            &&& tap_of(recorded_after(during, later, stop), later, stop) == Tap::Nothing
            &&& recorded_after(during, later, stop) == recorded
        }),
        tap_of(recorded, on, data) == Tap::Nothing,
        tap_of(recorded, on, stop) == Tap::Nothing,
{
}

/// A message of one terminal leaves the recordings of the others alone.
pub proof fn law_recordings_are_apart(
    recorded: Set<Seq<char>>,
    sessions: Set<Seq<char>>,
    on: bool,
    m: Message,
    other: Seq<char>,
)
    requires
        m is StartTerminalRequest ==> m->StartTerminalRequest_session_id@ != other,
        m is StopTerminalRequest ==> m->StopTerminalRequest_session_id@ != other,
    ensures
        recorded_after(recorded, on, m).contains(other) == recorded.contains(other),
        open_after(sessions, m).contains(other) == sessions.contains(other),
        !(m is StartTerminalRequest || m is StopTerminalRequest || m is TerminalData) ==> tap_of(
            recorded,
            on,
            m,
        ) == Tap::Nothing,
{
}

} // verus!
