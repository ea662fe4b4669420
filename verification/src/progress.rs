//! Progress monitoring for a render job: parsing the diagnostic-stream lines
//! of the external tool into normalized progress events, the event sequence a
//! whole job emits, and the FIFO queue that carries events to the
//! presentation side.

use vstd::arithmetic::div_mod::lemma_fundamental_div_mod;
use vstd::prelude::*;
use vstd::string::*;

verus! {

/// One event of a render job: elapsed output time in whole seconds, or the
/// terminal event emitted once the external process has exited.
#[derive(Clone, Copy, Debug, PartialEq, Eq, Structural)]
pub enum ProgressEvent {
    Progress(u64),
    Done,
}

/// The one recognized key of the diagnostic stream, announcing elapsed output
/// time in microseconds.
pub open spec fn progress_key() -> Seq<char> {
    seq!['o', 'u', 't', '_', 't', 'i', 'm', 'e', '_', 'm', 's', '=']
}

pub const MICROS_PER_SECOND: u64 = 1000000;

pub open spec fn is_digit(c: char) -> bool {
    0x30 <= c as u32 <= 0x39
}

pub open spec fn digit_val(c: char) -> nat {
    (c as u32 - 0x30) as nat
}

pub open spec fn all_digits(s: Seq<char>) -> bool {
    forall|i: int| 0 <= i < s.len() ==> is_digit(#[trigger] s[i])
}

/// The number a digit string denotes, most significant digit first.
pub open spec fn dec_val(s: Seq<char>) -> nat
    decreases s.len(),
{
    if s.len() == 0 {
        0
    } else {
        dec_val(s.drop_last()) * 10 + digit_val(s.last())
    }
}

pub open spec fn is_trailing_ws(c: char) -> bool {
    c == ' ' || c == '\t' || c == '\r' || c == '\n'
}

/// The value field with trailing whitespace removed.
pub open spec fn trim_trailing_ws(s: Seq<char>) -> Seq<char>
    decreases s.len(),
{
    if s.len() > 0 && is_trailing_ws(s.last()) {
        trim_trailing_ws(s.drop_last())
    } else {
        s
    }
}

/// The reading a digit string yields: its value, if it is a nonempty run of
/// digits whose value fits in a `u64`; nothing otherwise.
pub open spec fn parse_u64_digits(s: Seq<char>) -> Option<u64> {
    if s.len() > 0 && all_digits(s) && dec_val(s) <= u64::MAX {
        Some(dec_val(s) as u64)
    } else {
        None
    }
}

/// What one diagnostic line reports: the elapsed microseconds, when the line
/// carries the recognized progress key and a well-formed numeric value; a
/// malformed or unrelated line reports nothing.
pub open spec fn parse_progress_spec(line: Seq<char>) -> Option<u64> {
    if line.len() >= 12 && line.subrange(0, 12) == progress_key() {
        parse_u64_digits(trim_trailing_ws(line.subrange(12, line.len() as int)))
    } else {
        None
    }
}

/// The event one diagnostic line contributes: elapsed time converted from
/// microseconds to whole seconds by truncating division.
pub open spec fn event_for_line(line: Seq<char>) -> Option<ProgressEvent> {
    match parse_progress_spec(line) {
        Some(us) => Some(ProgressEvent::Progress(us / MICROS_PER_SECOND)),
        None => None,
    }
}

/// The progress events a stream of diagnostic lines produces, in stream
/// order; lines that report nothing contribute nothing.
pub open spec fn progress_events(lines: Seq<Seq<char>>) -> Seq<ProgressEvent>
    decreases lines.len(),
{
    if lines.len() == 0 {
        Seq::empty()
    } else {
        (match event_for_line(lines[0]) {
            Some(e) => seq![e],
            None => Seq::empty(),
        }) + progress_events(lines.drop_first())
    }
}

/// Everything a render job emits on its channel: the progress events of its
/// diagnostic stream, followed by exactly one terminal event.
pub open spec fn worker_events_spec(lines: Seq<Seq<char>>) -> Seq<ProgressEvent> {
    progress_events(lines) + seq![ProgressEvent::Done]
}

proof fn lemma_dec_val_prefix_le(t: Seq<char>, i: int, j: int)
    requires
        0 <= i <= j <= t.len(),
    ensures
        dec_val(t.subrange(0, i)) <= dec_val(t.subrange(0, j)),
    decreases j - i,
{
    if i < j {
        lemma_dec_val_prefix_le(t, i, j - 1);
        let p = t.subrange(0, j);
        assert(p.drop_last() =~= t.subrange(0, j - 1));
        assert(dec_val(t.subrange(0, j - 1)) * 10 >= dec_val(t.subrange(0, j - 1)));
    }
}

/// Parses the decimal value field of a recognized progress line, spanning the
/// characters of `line` from position 12 to `end`.
fn parse_value(line: &str, end: usize) -> (r: Option<u64>)
    requires
        12 <= end <= line@.len(),
    ensures
        r == parse_u64_digits(line@.subrange(12, end as int)),
{
    let ghost t = line@.subrange(12, end as int);
    if end == 12 {
        return None;
    }
    let mut v: u64 = 0;
    let mut i: usize = 12;
    proof {
        assert(t.subrange(0, 0) =~= Seq::<char>::empty());
    }
    while i < end
        invariant
            12 <= i <= end <= line@.len(),
            t == line@.subrange(12, end as int),
            all_digits(t.subrange(0, i - 12)),
            v == dec_val(t.subrange(0, i - 12)),
        decreases end - i,
    {
        let c: char = line.get_char(i);
        proof {
            assert(t[i - 12] == line@[i as int]);
        }
        let code: u32 = c as u32;
        if code < 0x30 || code > 0x39 {
            proof {
                assert(!is_digit(t[i - 12]));
            }
            return None;
        }
        let d: u64 = (code - 0x30) as u64;
        let limit: u64 = (u64::MAX - d) / 10;
        proof {
            lemma_fundamental_div_mod((u64::MAX - d) as int, 10);
            let p = t.subrange(0, i - 12 + 1);
            assert(p.drop_last() =~= t.subrange(0, i - 12));
            assert(p.last() == t[i - 12]);
            assert(dec_val(p) == dec_val(t.subrange(0, i - 12)) * 10 + digit_val(t[i - 12]));
        }
        if v > limit {
            proof {
                assert(dec_val(t.subrange(0, i - 12 + 1)) > u64::MAX);
                lemma_dec_val_prefix_le(t, i - 12 + 1, t.len() as int);
                assert(t.subrange(0, t.len() as int) =~= t);
            }
            return None;
        }
        v = v * 10 + d;
        i = i + 1;
    }
    proof {
        assert(t.subrange(0, t.len() as int) =~= t);
    }
    Some(v)
}

/// Reads one diagnostic line: the elapsed microseconds when the line matches
/// the recognized progress key with a numeric value, nothing otherwise.
/// A malformed line is ignored, never an error.
pub fn parse_progress_line(line: &str) -> (r: Option<u64>)
    ensures
        r == parse_progress_spec(line@),
{
    let n: usize = line.unicode_len();
    if n < 12 {
        return None;
    }
    let key: [char; 12] = ['o', 'u', 't', '_', 't', 'i', 'm', 'e', '_', 'm', 's', '='];
    let mut k: usize = 0;
    while k < 12
        invariant
            n == line@.len(),
            n >= 12,
            0 <= k <= 12,
            key@ == progress_key(),
            forall|j: int| 0 <= j < k ==> line@[j] == progress_key()[j],
        decreases 12 - k,
    {
        let c: char = line.get_char(k);
        if c != key[k] {
            proof {
                assert(line@.subrange(0, 12)[k as int] != progress_key()[k as int]);
            }
            return None;
        }
        k = k + 1;
    }
    proof {
        assert(line@.subrange(0, 12) =~= progress_key());
    }
    let mut end: usize = n;
    while end > 12
        invariant
            n == line@.len(),
            12 <= end <= n,
            trim_trailing_ws(line@.subrange(12, n as int)) == trim_trailing_ws(
                line@.subrange(12, end as int),
            ),
        ensures
            12 <= end <= n,
            trim_trailing_ws(line@.subrange(12, n as int)) == trim_trailing_ws(
                line@.subrange(12, end as int),
            ),
            end > 12 ==> !is_trailing_ws(line@[end - 1]),
        decreases end,
    {
        let c: char = line.get_char(end - 1);
        if c == ' ' || c == '\t' || c == '\r' || c == '\n' {
            proof {
                let p = line@.subrange(12, end as int);
                assert(p.last() == line@[end - 1]);
                assert(p.drop_last() =~= line@.subrange(12, end - 1));
            }
            end = end - 1;
        } else {
            break;
        }
    }
    proof {
        let p = line@.subrange(12, end as int);
        if end > 12 {
            assert(p.last() == line@[end - 1]);
        }
        assert(trim_trailing_ws(p) == p);
    }
    parse_value(line, end)
}

/// The event one diagnostic line contributes, already converted to whole
/// seconds of elapsed output time.
pub fn progress_event_for_line(line: &str) -> (r: Option<ProgressEvent>)
    ensures
        r == event_for_line(line@),
{
    match parse_progress_line(line) {
        Some(us) => Some(ProgressEvent::Progress(us / MICROS_PER_SECOND)),
        None => None,
    }
}

proof fn lemma_progress_events_concat(a: Seq<Seq<char>>, b: Seq<Seq<char>>)
    ensures
        progress_events(a + b) == progress_events(a) + progress_events(b),
    decreases a.len(),
{
    if a.len() == 0 {
        assert(a + b =~= b);
        assert(progress_events(a) + progress_events(b) =~= progress_events(b));
    } else {
        assert((a + b).drop_first() =~= a.drop_first() + b);
        lemma_progress_events_concat(a.drop_first(), b);
        assert(progress_events(a + b) =~= progress_events(a) + progress_events(b));
    }
}

/// The whole event sequence of one job, computed from its full diagnostic
/// stream: every recognized line in order, then the terminal event.
pub fn worker_events(lines: &Vec<String>) -> (evs: Vec<ProgressEvent>)
    ensures
        evs@ == worker_events_spec(lines.deep_view()),
{
    let ghost ls = lines.deep_view();
    let mut evs: Vec<ProgressEvent> = Vec::new();
    let n: usize = lines.len();
    let mut i: usize = 0;
    proof {
        assert(ls.subrange(0, 0) =~= Seq::<Seq<char>>::empty());
    }
    while i < n
        invariant
            n == lines.len(),
            i <= n,
            ls == lines.deep_view(),
            evs@ == progress_events(ls.subrange(0, i as int)),
        decreases n - i,
    {
        proof {
            assert(ls[i as int] == lines@[i as int]@);
        }
        match progress_event_for_line(lines[i].as_str()) {
            Some(e) => evs.push(e),
            None => {},
        }
        proof {
            let a = ls.subrange(0, i as int);
            let one = seq![ls[i as int]];
            assert(ls.subrange(0, i + 1 as int) =~= a + one);
            lemma_progress_events_concat(a, one);
            assert(one[0] == ls[i as int]);
            assert(one.drop_first() =~= Seq::<Seq<char>>::empty());
            assert(progress_events(Seq::<Seq<char>>::empty()) =~= Seq::<ProgressEvent>::empty());
            if event_for_line(ls[i as int]) is Some {
                assert(progress_events(one) =~= seq![event_for_line(ls[i as int])->0]);
            } else {
                assert(progress_events(one) =~= Seq::<ProgressEvent>::empty());
            }
            assert(evs@ =~= progress_events(ls.subrange(0, i + 1 as int)));
        }
        i = i + 1;
    }
    evs.push(ProgressEvent::Done);
    proof {
        assert(ls.subrange(0, n as int) =~= ls);
    }
    evs
}

proof fn lemma_progress_events_all_progress(lines: Seq<Seq<char>>)
    ensures
        forall|i: int|
            0 <= i < progress_events(lines).len() ==> (#[trigger] progress_events(lines)[i])
                is Progress,
    decreases lines.len(),
{
    if lines.len() > 0 {
        lemma_progress_events_all_progress(lines.drop_first());
    }
}

/// The lifecycle law of a render job: whatever its diagnostic stream held,
/// the job emits exactly one terminal event, and it is the last event; every
/// event before it is a progress report.
pub proof fn lemma_worker_events_terminal(lines: Seq<Seq<char>>)
    ensures
        worker_events_spec(lines).len() >= 1,
        worker_events_spec(lines).last() == ProgressEvent::Done,
        forall|i: int|
            0 <= i < worker_events_spec(lines).len() - 1 ==> (#[trigger] worker_events_spec(
                lines,
            )[i]) is Progress,
{
    lemma_progress_events_all_progress(lines);
}

/// The single-producer single-consumer conduit of progress events, drained by
/// non-blocking polls on the presentation side. Unbounded, so no event is
/// ever lost, and first-in first-out, so events arrive in emission order.
pub struct EventQueue {
    items: Vec<ProgressEvent>,
}

impl View for EventQueue {
    type V = Seq<ProgressEvent>;

    closed spec fn view(&self) -> Seq<ProgressEvent> {
        self.items@
    }
}

impl EventQueue {
    pub fn new() -> (q: EventQueue)
        ensures
            q@ == Seq::<ProgressEvent>::empty(),
    {
        EventQueue { items: Vec::new() }
    }

    /// The producer side: appends one event behind all buffered ones.
    pub fn send(&mut self, ev: ProgressEvent)
        ensures
            final(self)@ == old(self)@.push(ev),
    {
        self.items.push(ev);
    }

    /// The consumer side: removes and returns the oldest buffered event
    /// without blocking; nothing when the queue is empty.
    pub fn poll(&mut self) -> (r: Option<ProgressEvent>)
        ensures
            old(self)@.len() == 0 ==> r is None && final(self)@ == old(self)@,
            old(self)@.len() > 0 ==> r == Some(old(self)@[0]) && final(self)@ == old(
                self,
            )@.drop_first(),
    {
        if self.items.len() == 0 {
            None
        } else {
            let e = self.items.remove(0);
            proof {
                assert(old(self)@.remove(0) =~= old(self)@.drop_first());
            }
            Some(e)
        }
    }

    pub fn len(&self) -> (n: usize)
        ensures
            n == self@.len(),
    {
        self.items.len()
    }
}

} // verus!
