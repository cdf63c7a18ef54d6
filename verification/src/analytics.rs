//! Anonymous usage analytics: the launch identifier handed over on the
//! command line, and which events may be queued.

use vstd::prelude::*;

use crate::git::runner::opt_text;
use crate::settings::SettingWrite;
use crate::text::{
    chars_eq_str, chars_of, find_char, first_index_is, has_prefix, slice_range, split,
    split_chars, starts_with_str, string_of, texts, trim, trim_str,
};

verus! {

/// The distinct ID handed to this launch that the first-launch event has not
/// used yet.
#[derive(Debug, Default)]
pub struct AnalyticsState {
    pub pending_distinct_id: Option<String>,
}

/// The position of the first `=` of a query pair.
pub open spec fn eq_pos(pair: Seq<char>) -> int {
    choose|k: int| first_index_is(pair, '=', k)
}

/// The name of a query pair: the text up to its first `=`.
pub open spec fn pair_name(pair: Seq<char>) -> Seq<char> {
    if pair.contains('=') {
        pair.take(eq_pos(pair))
    } else {
        pair
    }
}

/// The value of a query pair: the text after its first `=`, empty without one.
pub open spec fn pair_value(pair: Seq<char>) -> Seq<char> {
    if pair.contains('=') {
        pair.skip(eq_pos(pair) + 1)
    } else {
        seq![]
    }
}

/// The first non-empty value given to `key` among the pairs.
pub open spec fn first_value(pairs: Seq<Seq<char>>, key: Seq<char>) -> Option<Seq<char>>
    decreases pairs.len(),
{
    if pairs.len() == 0 {
        None
    } else if pair_name(pairs[0]) == key && pair_value(pairs[0]).len() > 0 {
        Some(pair_value(pairs[0]))
    } else {
        first_value(pairs.drop_first(), key)
    }
}

/// The value of `key` in the query of a URL: the text between the first and
/// second `?`, split at `&`.
pub open spec fn query_value(input: Seq<char>, key: Seq<char>) -> Option<Seq<char>> {
    let parts = split(input, '?');
    if parts.len() < 2 {
        None
    } else {
        first_value(split(parts[1], '&'), key)
    }
}

/// The name and value of one pair.
fn pair_parts(pair: &[char]) -> (r: (Vec<char>, Vec<char>))
    ensures
        r.0@ == pair_name(pair@),
        r.1@ == pair_value(pair@),
{
    match find_char(pair, '=') {
        None => (slice_range(pair, 0, pair.len()), Vec::new()),
        Some(k) => {
            proof {
                assert(pair@.contains('=')) by {
                    assert(pair@[k as int] == '=');
                }
                let c = eq_pos(pair@);
                assert(first_index_is(pair@, '=', c));
                if c < k {
                    assert(pair@[c] == '=');
                } else if c > k {
                    assert(pair@[k as int] == '=');
                }
                assert(c == k);
            }
            assert(k < pair.len());
            (slice_range(pair, 0, k), slice_range(pair, k + 1, pair.len()))
        },
    }
}

pub fn query_param(input: &str, key: &str) -> (r: Option<String>)
    ensures
        opt_text(r) == query_value(input@, key@),
{
    let cs = chars_of(input);
    let parts = split_chars(cs.as_slice(), '?');
    if parts.len() < 2 {
        return None;
    }
    assert(texts(parts@)[1] == parts@[1]@);
    let pairs = split_chars(parts[1].as_slice(), '&');
    let ghost ps = texts(pairs@);
    let kc = chars_of(key);
    let mut i: usize = 0;
    assert(ps.skip(0) =~= ps);
    assert(query_value(input@, key@) == first_value(ps, key@));
    while i < pairs.len()
        invariant
            i <= pairs.len(),
            query_value(input@, key@) == first_value(ps, key@),
            ps == texts(pairs@),
            kc@ == key@,
            first_value(ps, key@) == first_value(ps.skip(i as int), key@),
        decreases pairs.len() - i,
    {
        assert(ps.skip(i as int)[0] == pairs@[i as int]@);
        assert(ps.skip(i as int).drop_first() =~= ps.skip(i + 1));
        let (name, value) = pair_parts(pairs[i].as_slice());
        if crate::text::chars_eq(name.as_slice(), kc.as_slice()) && value.len() > 0 {
            return Some(string_of(value.as_slice()));
        }
        i += 1;
    }
    None
}

/// The distinct ID passed to this launch: the argument after `--pid`, the
/// text of `--pid=<id>`, or the `pid` query value of a URL argument; the
/// first argument that names one decides.
pub open spec fn pid_from(args: Seq<Seq<char>>, i: int) -> Option<Seq<char>>
    decreases args.len() - i,
{
    if i < 0 || i >= args.len() {
        None
    } else if args[i] == "--pid"@ {
        if i + 1 < args.len() && args[i + 1].len() > 0 {
            Some(args[i + 1])
        } else {
            None
        }
    } else if has_prefix(args[i], "--pid="@) && args[i].len() > "--pid="@.len() {
        Some(args[i].skip("--pid="@.len() as int))
    } else if query_value(args[i], "pid"@) is Some {
        query_value(args[i], "pid"@)
    } else {
        pid_from(args, i + 1)
    }
}

pub fn pending_distinct_id_from_args(args: &Vec<String>) -> (r: Option<String>)
    ensures
        opt_text(r) == pid_from(crate::git::runner::strs(args@), 0),
{
    let ghost a = crate::git::runner::strs(args@);
    let mut i: usize = 0;
    while i < args.len()
        invariant
            i <= args.len(),
            a == crate::git::runner::strs(args@),
            pid_from(a, 0) == pid_from(a, i as int),
        decreases args.len() - i,
    {
        assert(a[i as int] == args@[i as int]@);
        let arg = chars_of(args[i].as_str());
        if chars_eq_str(arg.as_slice(), "--pid") {
            if i + 1 < args.len() && args[i + 1].as_str().unicode_len() > 0 {
                assert(a[i + 1] == args@[i + 1]@);
                return Some(args[i + 1].clone());
            }
            return None;
        }
        let plen = chars_of("--pid=").len();
        if starts_with_str(arg.as_slice(), "--pid=") && arg.len() > plen {
            return Some(string_of(slice_range(arg.as_slice(), plen, arg.len()).as_slice()));
        }
        match query_param(args[i].as_str(), "pid") {
            Some(v) => {
                return Some(v);
            },
            None => {},
        }
        i += 1;
    }
    None
}

/// Whether an event may be queued: nothing is queued without consent, and
/// an event needs a name and a distinct ID that are not blank.
pub fn queue_event_check(opted_in: bool, distinct_id: &str, event: &str) -> (r: Result<bool, String>)
    ensures
        !opted_in ==> r == Ok::<bool, String>(false),
        opted_in ==> (r is Ok <==> (trim(distinct_id@).len() > 0 && trim(event@).len() > 0)),
        opted_in ==> (r matches Ok(b) ==> b),
        r matches Err(e) ==> e@ == "Analytics event and distinct ID are required"@,
{
    if !opted_in {
        return Ok(false);
    }
    if trim_str(distinct_id).len() == 0 || trim_str(event).len() == 0 {
        return Err(String::from_str("Analytics event and distinct ID are required"));
    }
    Ok(true)
}

/// The write that stores an optional text setting: an empty or absent value
/// removes the key.
pub fn optional_setting_write(key: &str, value: Option<&str>) -> (w: SettingWrite)
    ensures
        w.key@ == key@,
        opt_text(w.value) == (match value {
            Some(t) => if t@.len() > 0 {
                Some(t@)
            } else {
                None
            },
            None => None,
        }),
{
    match value {
        Some(text) => if text.unicode_len() > 0 {
            SettingWrite { key: String::from_str(key), value: Some(String::from_str(text)) }
        } else {
            SettingWrite { key: String::from_str(key), value: None }
        },
        None => SettingWrite { key: String::from_str(key), value: None },
    }
}

/// What flushing the queue asks for next.
#[derive(PartialEq, Eq, Structural, Clone, Copy, Debug)]
pub enum FlushAction {
    /// Send the queued event with this ID.
    Send { id: i64 },
    /// Stop; this many events were sent.
    Finish { sent: u64 },
}

/// A change to the queue after a send.
pub enum FlushWrite {
    /// The event was sent; it leaves the queue.
    Delete { id: i64 },
    /// The send failed; the event stays, with one more attempt and the error.
    RecordFailure { id: i64, error: String },
}

/// Sending queued events in queue order until one fails.
pub struct FlushRun {
    /// The queued events to send, oldest first.
    pub ids: Vec<i64>,
    /// How many were sent; while the flush goes on, the one being sent is
    /// `ids[sent]`.
    pub sent: usize,
    pub finished: bool,
}

impl FlushRun {
    pub open spec fn wf(&self) -> bool {
        &&& self.sent <= self.ids@.len()
        &&& !self.finished ==> self.sent < self.ids@.len()
    }

    /// Starts a flush of the queued events `ids` (oldest first); nothing is
    /// sent without consent.
    pub fn start(opted_in: bool, ids: Vec<i64>) -> (r: (FlushRun, FlushAction))
        ensures
            r.0.wf(),
            r.0.ids@ == ids@,
            r.0.sent == 0,
            r.0.finished == (!opted_in || ids@.len() == 0),
            r.0.finished ==> r.1 == (FlushAction::Finish { sent: 0 }),
            !r.0.finished ==> r.1 == (FlushAction::Send { id: ids@[0] }),
    {
        if !opted_in || ids.len() == 0 {
            return (FlushRun { ids, sent: 0, finished: true }, FlushAction::Finish { sent: 0 });
        }
        let first = ids[0];
        (FlushRun { ids, sent: 0, finished: false }, FlushAction::Send { id: first })
    }

    /// Takes the outcome of sending `ids[sent]`: a sent event leaves the
    /// queue and the next one is sent; a failure is recorded and ends the
    /// flush.
    pub fn advance(&mut self, outcome: Result<(), String>) -> (r: (FlushWrite, FlushAction))
        requires
            old(self).wf(),
            !old(self).finished,
        ensures
            final(self).wf(),
            final(self).ids@ == old(self).ids@,
            outcome is Ok ==> {
                &&& r.0 matches FlushWrite::Delete { id } && id == old(self).ids@[old(self).sent as int]
                &&& final(self).sent == old(self).sent + 1
                &&& final(self).finished == (final(self).sent == old(self).ids@.len())
                &&& final(self).finished ==> r.1 == (FlushAction::Finish { sent: final(self).sent as u64 })
                &&& !final(self).finished ==> r.1 == (FlushAction::Send {
                    id: old(self).ids@[final(self).sent as int],
                })
            },
            outcome matches Err(e) ==> {
                &&& r.0 matches FlushWrite::RecordFailure { id, error } && id == old(self).ids@[old(
                    self,
                ).sent as int] && error == e
                &&& final(self).sent == old(self).sent
                &&& final(self).finished
                &&& r.1 == (FlushAction::Finish { sent: old(self).sent as u64 })
            },
    {
        let id = self.ids[self.sent];
        let n = self.ids.len();
        match outcome {
            Ok(()) => {
                self.sent = self.sent + 1;
                if self.sent == n {
                    self.finished = true;
                    (FlushWrite::Delete { id }, FlushAction::Finish { sent: self.sent as u64 })
                } else {
                    let next = self.ids[self.sent];
                    (FlushWrite::Delete { id }, FlushAction::Send { id: next })
                }
            },
            Err(error) => {
                self.finished = true;
                (FlushWrite::RecordFailure { id, error }, FlushAction::Finish { sent: self.sent as u64 })
            },
        }
    }
}

/// The most events the local queue holds.
pub const MAX_QUEUED_EVENTS: usize = 10000;

/// The queued events beyond the newest [`MAX_QUEUED_EVENTS`], given newest first.
pub open spec fn overflow_spec(ids_newest_first: Seq<i64>) -> Seq<i64> {
    if ids_newest_first.len() > MAX_QUEUED_EVENTS {
        ids_newest_first.subrange(MAX_QUEUED_EVENTS as int, ids_newest_first.len() as int)
    } else {
        seq![]
    }
}

/// The queued events to drop after one is added: given the queue's ids
/// newest first, those beyond the newest [`MAX_QUEUED_EVENTS`].
pub fn queue_overflow(ids_newest_first: &Vec<i64>) -> (r: Vec<i64>)
    ensures
        r@ == overflow_spec(ids_newest_first@),
{
    let mut r: Vec<i64> = Vec::new();
    let mut i: usize = MAX_QUEUED_EVENTS;
    if ids_newest_first.len() <= MAX_QUEUED_EVENTS {
        return r;
    }
    while i < ids_newest_first.len()
        invariant
            MAX_QUEUED_EVENTS <= i <= ids_newest_first@.len(),
            r@ == ids_newest_first@.subrange(MAX_QUEUED_EVENTS as int, i as int),
        decreases ids_newest_first@.len() - i,
    {
        r.push(ids_newest_first[i]);
        i += 1;
        assert(r@ =~= ids_newest_first@.subrange(MAX_QUEUED_EVENTS as int, i as int));
    }
    r
}

/// Dropping the overflow leaves at most [`MAX_QUEUED_EVENTS`] events, and
/// they are the newest ones: the queue, newest first, is the events kept
/// followed by the events dropped.
pub proof fn queue_stays_bounded(ids_newest_first: Seq<i64>)
    ensures
        ids_newest_first.len() - overflow_spec(ids_newest_first).len() <= MAX_QUEUED_EVENTS,
        ids_newest_first == ids_newest_first.take(
            ids_newest_first.len() - overflow_spec(ids_newest_first).len(),
        ) + overflow_spec(ids_newest_first),
{
    let k = ids_newest_first.len() - overflow_spec(ids_newest_first).len();
    assert(ids_newest_first =~= ids_newest_first.take(k) + overflow_spec(ids_newest_first));
}

} // verus!
