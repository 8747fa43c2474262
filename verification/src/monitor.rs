//! What a monitor keeps of the frames that it saw.
use crate::clock::{format_system_time, moment_now, Moment};
use crate::frame::{copy_words, Frame, FrameInfo};
use std::collections::HashMap;
use std::time::Instant;
use vstd::prelude::*;

verus! {

/// How many frames are kept.
pub const MAX_HISTORY: usize = 500;

/// A frame that was seen, and when.
#[derive(Debug)]
pub struct FrameRecord {
    pub timestamp: Instant,
    pub human_time: String,
    pub func_code: u8,
    pub func_name: String,
    pub addr: u16,
    pub values: Vec<u16>,
    pub is_tcp: bool,
    pub is_request: bool,
    pub unit: u8,
}

/// A frame that was seen, and the time of day, mathematically. The time stamp
/// that orders records is no part of what they say.
pub struct Record {
    pub time: Seq<char>,
    pub frame: Frame,
}

impl View for FrameRecord {
    type V = Record;

    open spec fn view(&self) -> Record {
        Record {
            time: self.human_time@,
            frame: Frame {
                is_tcp: self.is_tcp,
                unit: self.unit,
                func_code: self.func_code,
                func_name: self.func_name@,
                addr: self.addr,
                values: self.values@,
                is_request: self.is_request,
            },
        }
    }
}

/// What records say.
pub open spec fn records(v: Seq<FrameRecord>) -> Seq<Record> {
    Seq::new(v.len(), |i: int| v[i]@)
}

/// The frames that were seen last, and how often each function code and each
/// address was seen.
#[derive(Debug)]
pub struct MonitorStats {
    /// The last frames, the oldest first.
    pub history: Vec<FrameRecord>,
    /// How often each function code was seen.
    pub func_count: HashMap<u8, usize>,
    /// How often each address was seen.
    pub addr_count: HashMap<u16, usize>,
    /// How many frames were seen.
    pub total_frames: usize,
}

/// What a monitor keeps, mathematically.
pub struct Stats {
    pub history: Seq<Record>,
    pub func_count: Map<u8, usize>,
    pub addr_count: Map<u16, usize>,
    pub total_frames: usize,
}

impl View for MonitorStats {
    type V = Stats;

    open spec fn view(&self) -> Stats {
        Stats {
            history: records(self.history@),
            func_count: self.func_count@,
            addr_count: self.addr_count@,
            total_frames: self.total_frames,
        }
    }
}

impl Stats {
    /// Whether nothing was seen more often than there were frames.
    pub open spec fn wf(self) -> bool {
        &&& forall|k: u8| #[trigger]
            self.func_count.contains_key(k) ==> self.func_count[k] <= self.total_frames
        &&& forall|k: u16| #[trigger]
            self.addr_count.contains_key(k) ==> self.addr_count[k] <= self.total_frames
    }
}

/// What a monitor keeps that has seen nothing.
pub open spec fn no_stats() -> Stats {
    Stats {
        history: Seq::empty(),
        func_count: Map::empty(),
        addr_count: Map::empty(),
        total_frames: 0,
    }
}

impl Default for MonitorStats {
    fn default() -> (r: MonitorStats)
        ensures
            r@ == no_stats(),
            r@.wf(),
    {
        let r = MonitorStats {
            history: Vec::new(),
            func_count: HashMap::new(),
            addr_count: HashMap::new(),
            total_frames: 0,
        };
        assert(r@.history =~= Seq::<Record>::empty());
        r
    }
}

/// How often something was seen.
pub open spec fn seen<K>(m: Map<K, usize>, k: K) -> nat {
    if m.contains_key(k) {
        m[k] as nat
    } else {
        0
    }
}

/// Counts with one more for a key.
pub open spec fn counted<K>(m: Map<K, usize>, k: K) -> Map<K, usize> {
    m.insert(k, (seen(m, k) + 1) as usize)
}

/// A list with one more at the end, without its first where it holds `max`.
pub open spec fn appended<T>(s: Seq<T>, x: T, max: nat) -> Seq<T> {
    if s.len() >= max {
        s.drop_first().push(x)
    } else {
        s.push(x)
    }
}

/// What is kept when a frame was seen at a time.
pub open spec fn with_frame(s: Stats, f: Frame, time: Seq<char>) -> Stats {
    Stats {
        history: appended(s.history, Record { time, frame: f }, MAX_HISTORY as nat),
        func_count: counted(s.func_count, f.func_code),
        addr_count: counted(s.addr_count, f.addr),
        total_frames: (s.total_frames + 1) as usize,
    }
}

/// Counts one more for a function code.
pub(crate) fn count_code(m: &mut HashMap<u8, usize>, k: u8)
    requires
        seen(old(m)@, k) < usize::MAX,
    ensures
        final(m)@ == counted(old(m)@, k),
{
    broadcast use vstd::std_specs::hash::group_hash_axioms;

    let n: usize = match m.get(&k) {
        Some(n) => *n,
        None => 0,
    };
    m.insert(k, n + 1);
}

/// Counts one more for an address.
pub(crate) fn count_addr(m: &mut HashMap<u16, usize>, k: u16)
    requires
        seen(old(m)@, k) < usize::MAX,
    ensures
        final(m)@ == counted(old(m)@, k),
{
    broadcast use vstd::std_specs::hash::group_hash_axioms;

    let n: usize = match m.get(&k) {
        Some(n) => *n,
        None => 0,
    };
    m.insert(k, n + 1);
}

/// Keeps a frame that was seen at a moment.
pub fn record_frame_at(monitor: &mut MonitorStats, fi: &FrameInfo, at: Option<Moment>)
    requires
        old(monitor)@.wf(),
        old(monitor)@.total_frames < usize::MAX,
    ensures
        final(monitor)@ == with_frame(old(monitor)@, fi@, crate::clock::clock_text(at)),
        final(monitor)@.wf(),
{
    let ghost before = monitor@;
    assert(seen(before.func_count, fi.func_code) <= before.total_frames);
    assert(seen(before.addr_count, fi.addr) <= before.total_frames);
    let record = FrameRecord {
        timestamp: Instant::now(),
        human_time: format_system_time(at),
        func_code: fi.func_code,
        func_name: fi.func_name.clone(),
        addr: fi.addr,
        values: copy_words(&fi.values),
        is_tcp: fi.is_tcp,
        is_request: fi.is_request,
        unit: fi.unit,
    };
    let ghost kept = Record { time: crate::clock::clock_text(at), frame: fi@ };
    assert(record@ == kept);
    if monitor.history.len() >= MAX_HISTORY {
        monitor.history.remove(0);
        assert(records(monitor.history@) =~= before.history.drop_first());
    }
    let ghost h = monitor.history@;
    monitor.history.push(record);
    assert(records(monitor.history@) =~= records(h).push(kept));
    count_code(&mut monitor.func_count, fi.func_code);
    count_addr(&mut monitor.addr_count, fi.addr);
    monitor.total_frames = monitor.total_frames + 1;
}

/// Keeps a frame that was seen now.
pub fn record_frame(monitor: &mut MonitorStats, fi: &FrameInfo)
    requires
        old(monitor)@.wf(),
        old(monitor)@.total_frames < usize::MAX,
    ensures
        exists|at: Option<Moment>|
            final(monitor)@ == with_frame(
                old(monitor)@,
                fi@,
                #[trigger] crate::clock::clock_text(at),
            ),
        final(monitor)@.wf(),
{
    let at = moment_now();
    record_frame_at(monitor, fi, at);
}

/// Frames that are seen one after another.
pub open spec fn with_frames(s: Stats, frames: Seq<(Frame, Seq<char>)>) -> Stats
    decreases frames.len(),
{
    if frames.len() == 0 {
        s
    } else {
        with_frame(with_frames(s, frames.drop_last()), frames.last().0, frames.last().1)
    }
}

/// How many of some frames have a function code.
pub open spec fn frames_with_code(frames: Seq<(Frame, Seq<char>)>, code: u8) -> nat
    decreases frames.len(),
{
    if frames.len() == 0 {
        0
    } else {
        frames_with_code(frames.drop_last(), code) + (if frames.last().0.func_code == code {
            1nat
        } else {
            0
        })
    }
}

/// How many of some frames have an address.
pub open spec fn frames_at(frames: Seq<(Frame, Seq<char>)>, addr: u16) -> nat
    decreases frames.len(),
{
    if frames.len() == 0 {
        0
    } else {
        frames_at(frames.drop_last(), addr) + (if frames.last().0.addr == addr {
            1nat
        } else {
            0
        })
    }
}

/// A monitor that saw some frames has counted each function code and each
/// address as often as it came, and keeps the last frames, in the order in
/// which they came: all of them, or as many as it may.
pub proof fn law_monitor_keeps_last(frames: Seq<(Frame, Seq<char>)>, code: u8, addr: u16)
    requires
        frames.len() <= usize::MAX,
    ensures
        ({
            let s = with_frames(no_stats(), frames);
            let n = frames.len() as int;
            let k = s.history.len() as int;
            &&& s.total_frames == n
            &&& seen(s.func_count, code) == frames_with_code(frames, code)
            &&& seen(s.addr_count, addr) == frames_at(frames, addr)
            &&& k == if n <= MAX_HISTORY {
                n
            } else {
                MAX_HISTORY as int
            }
            &&& forall|i: int|
                0 <= i < k ==> #[trigger] s.history[i] == (Record {
                    time: frames[n - k + i].1,
                    frame: frames[n - k + i].0,
                })
        }),
    decreases frames.len(),
{
    if frames.len() > 0 {
        let prev = frames.drop_last();
        law_monitor_keeps_last(prev, code, addr);
        lemma_counts_bounded(prev, frames.last().0.func_code, frames.last().0.addr);
        let p = with_frames(no_stats(), prev);
        law_monitor_keeps_last(prev, frames.last().0.func_code, frames.last().0.addr);
        let s = with_frames(no_stats(), frames);
        let n = frames.len() as int;
        let k = s.history.len() as int;
        assert forall|i: int| 0 <= i < k implies #[trigger] s.history[i] == (Record {
            time: frames[n - k + i].1,
            frame: frames[n - k + i].0,
        }) by {
            if i < k - 1 {
                if p.history.len() >= MAX_HISTORY {
                    assert(s.history[i] == p.history[i + 1]);
                } else {
                    assert(s.history[i] == p.history[i]);
                }
            }
        }
    }
}

/// How often the function codes below `n` were seen, all together.
pub open spec fn codes_seen(m: Map<u8, usize>, n: nat) -> nat
    decreases n,
{
    if n == 0 {
        0
    } else {
        codes_seen(m, (n - 1) as nat) + seen(m, (n - 1) as u8)
    }
}

/// How often the addresses below `n` were seen, all together.
pub open spec fn addresses_seen(m: Map<u16, usize>, n: nat) -> nat
    decreases n,
{
    if n == 0 {
        0
    } else {
        addresses_seen(m, (n - 1) as nat) + seen(m, (n - 1) as u16)
    }
}

proof fn lemma_code_counted(m: Map<u8, usize>, k: u8, n: nat)
    requires
        n <= 256,
        seen(m, k) < usize::MAX,
    ensures
        codes_seen(counted(m, k), n) == codes_seen(m, n) + (if k < n {
            1nat
        } else {
            0
        }),
    decreases n,
{
    if n > 0 {
        lemma_code_counted(m, k, (n - 1) as nat);
    }
}

proof fn lemma_address_counted(m: Map<u16, usize>, k: u16, n: nat)
    requires
        n <= 65536,
        seen(m, k) < usize::MAX,
    ensures
        addresses_seen(counted(m, k), n) == addresses_seen(m, n) + (if k < n {
            1nat
        } else {
            0
        }),
    decreases n,
{
    if n > 0 {
        lemma_address_counted(m, k, (n - 1) as nat);
    }
}

proof fn lemma_nothing_seen(n: nat)
    ensures
        codes_seen(Map::empty(), n) == 0,
        addresses_seen(Map::empty(), n) == 0,
    decreases n,
{
    if n > 0 {
        lemma_nothing_seen((n - 1) as nat);
    }
}

/// The counts of all function codes add up to the number of frames that a
/// monitor saw, and so do the counts of all addresses, however many frames it
/// still keeps.
pub proof fn law_counts_add_up(frames: Seq<(Frame, Seq<char>)>)
    requires
        frames.len() <= usize::MAX,
    ensures
        ({
            let s = with_frames(no_stats(), frames);
            &&& s.total_frames == frames.len()
            &&& codes_seen(s.func_count, 256) == s.total_frames
            &&& addresses_seen(s.addr_count, 65536) == s.total_frames
        }),
    decreases frames.len(),
{
    if frames.len() > 0 {
        let prev = frames.drop_last();
        let f = frames.last().0;
        law_counts_add_up(prev);
        law_monitor_keeps_last(prev, f.func_code, f.addr);
        lemma_counts_bounded(prev, f.func_code, f.addr);
        let p = with_frames(no_stats(), prev);
        lemma_code_counted(p.func_count, f.func_code, 256);
        lemma_address_counted(p.addr_count, f.addr, 65536);
    } else {
        lemma_nothing_seen(256);
        lemma_nothing_seen(65536);
    }
}

proof fn lemma_counts_bounded(frames: Seq<(Frame, Seq<char>)>, code: u8, addr: u16)
    ensures
        frames_with_code(frames, code) <= frames.len(),
        frames_at(frames, addr) <= frames.len(),
    decreases frames.len(),
{
    if frames.len() > 0 {
        lemma_counts_bounded(frames.drop_last(), code, addr);
    }
}

/// How often each function code stands in records.
pub open spec fn code_counts(recs: Seq<Record>) -> Map<u8, usize>
    decreases recs.len(),
{
    if recs.len() == 0 {
        Map::empty()
    } else {
        counted(code_counts(recs.drop_last()), recs.last().frame.func_code)
    }
}

/// How often each address stands in records.
pub open spec fn addr_counts(recs: Seq<Record>) -> Map<u16, usize>
    decreases recs.len(),
{
    if recs.len() == 0 {
        Map::empty()
    } else {
        counted(addr_counts(recs.drop_last()), recs.last().frame.addr)
    }
}

/// How many records have a function code.
pub open spec fn records_with_code(recs: Seq<Record>, code: u8) -> nat {
    recs.filter(|r: Record| r.frame.func_code == code).len()
}

/// How many records have an address.
pub open spec fn records_at(recs: Seq<Record>, addr: u16) -> nat {
    recs.filter(|r: Record| r.frame.addr == addr).len()
}

/// The last of some records, as many as a monitor keeps.
pub open spec fn last_kept(recs: Seq<Record>) -> Seq<Record> {
    if recs.len() > MAX_HISTORY {
        recs.skip(recs.len() - MAX_HISTORY)
    } else {
        recs
    }
}

/// What a monitor keeps that was filled from records: the last of them, and the
/// counts of all.
pub open spec fn stats_of(recs: Seq<Record>) -> Stats {
    Stats {
        history: last_kept(recs),
        func_count: code_counts(recs),
        addr_count: addr_counts(recs),
        total_frames: recs.len() as usize,
    }
}

/// The counts of a monitor that was filled from records are how many of them
/// have each function code and each address, and only what occurs is counted.
pub proof fn law_counts_match_records(recs: Seq<Record>, code: u8, addr: u16)
    requires
        recs.len() <= usize::MAX,
    ensures
        seen(code_counts(recs), code) == records_with_code(recs, code),
        seen(addr_counts(recs), addr) == records_at(recs, addr),
        code_counts(recs).contains_key(code) <==> records_with_code(recs, code) > 0,
        addr_counts(recs).contains_key(addr) <==> records_at(recs, addr) > 0,
        records_with_code(recs, code) <= recs.len(),
        records_at(recs, addr) <= recs.len(),
    decreases recs.len(),
{
    reveal(Seq::filter);
    if recs.len() > 0 {
        law_counts_match_records(recs.drop_last(), code, addr);
        law_counts_match_records(
            recs.drop_last(),
            recs.last().frame.func_code,
            recs.last().frame.addr,
        );
    }
}

/// Records as frames that are seen at their times.
pub open spec fn frames_of(recs: Seq<Record>) -> Seq<(Frame, Seq<char>)> {
    Seq::new(recs.len(), |i: int| (recs[i].frame, recs[i].time))
}

/// A monitor that is filled from records keeps what one keeps that saw their
/// frames, one after another.
pub proof fn law_filled_as_seen(recs: Seq<Record>)
    requires
        recs.len() <= usize::MAX,
    ensures
        stats_of(recs) == with_frames(no_stats(), frames_of(recs)),
    decreases recs.len(),
{
    let a = stats_of(recs);
    let b = with_frames(no_stats(), frames_of(recs));
    if recs.len() > 0 {
        let prev = recs.drop_last();
        law_filled_as_seen(prev);
        assert(frames_of(recs).drop_last() =~= frames_of(prev));
        let last = Record { time: recs.last().time, frame: recs.last().frame };
        assert(a.history =~= appended(last_kept(prev), last, MAX_HISTORY as nat));
    } else {
        assert(a.history =~= b.history);
    }
}

/// A monitor that is filled from records.
pub fn stats_from(history: Vec<FrameRecord>) -> (r: MonitorStats)
    ensures
        r@ == stats_of(records(history@)),
        r@.wf(),
{
    let mut stats = MonitorStats::default();
    let n: usize = history.len();
    let ghost all = records(history@);
    assert(all.take(0) =~= Seq::<Record>::empty());
    for i in 0..n
        invariant
            n == history@.len(),
            all == records(history@),
            stats.func_count@ == code_counts(all.take(i as int)),
            stats.addr_count@ == addr_counts(all.take(i as int)),
            stats.total_frames == i,
    {
        let ghost t = all.take(i + 1);
        proof {
            assert(t.drop_last() =~= all.take(i as int));
            assert(t.last() == history@[i as int]@);
            law_counts_match_records(
                all.take(i as int),
                history@[i as int].func_code,
                history@[i as int].addr,
            );
        }
        count_code(&mut stats.func_count, history[i].func_code);
        count_addr(&mut stats.addr_count, history[i].addr);
        stats.total_frames = stats.total_frames + 1;
    }
    assert(all.take(n as int) =~= all);
    let mut history = history;
    if n > MAX_HISTORY {
        let kept = history.split_off(n - MAX_HISTORY);
        assert(records(kept@) =~= last_kept(all));
        stats.history = kept;
    } else {
        stats.history = history;
    }
    proof {
        assert forall|k: u8| #[trigger] stats@.func_count.contains_key(k) implies stats@.func_count[k]
            <= stats@.total_frames by {
            law_counts_match_records(all, k, 0);
        }
        assert forall|k: u16| #[trigger]
            stats@.addr_count.contains_key(k) implies stats@.addr_count[k]
            <= stats@.total_frames by {
            law_counts_match_records(all, 0, k);
        }
    }
    stats
}

} // verus!
