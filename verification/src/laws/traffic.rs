//! What a monitor keeps of the frames that pass.
use crate::frame::Frame;
use crate::monitor::{
    appended, no_stats, records_at, records_with_code, seen, stats_of, with_frame, with_frames,
    Record, Stats,
};
use vstd::prelude::*;

verus! {

/// A frame that was seen is the last one that is kept, with its time; what was kept before
/// stays but for the oldest where there are 500. It counts once, once for its function
/// code and once for its address, and for no other.
pub proof fn law_frame_is_counted(s: Stats, f: Frame, time: Seq<char>, code: u8, addr: u16)
    requires
        s.wf(),
        s.total_frames < usize::MAX,
        s.history.len() <= 500,
    ensures
        ({
            let t = with_frame(s, f, time);
            &&& t.total_frames == s.total_frames + 1
            &&& t.history.len() > 0
            &&& t.history.last().frame == f
            &&& t.history.last().time == time
            &&& s.history.len() < 500 ==> t.history.drop_last() == s.history
            &&& s.history.len() == 500 ==> t.history.len() == 500 && t.history.drop_last()
                == s.history.skip(1)
            &&& code == f.func_code ==> seen(t.func_count, code) == seen(s.func_count, code) + 1
            &&& code != f.func_code ==> seen(t.func_count, code) == seen(s.func_count, code)
            &&& addr == f.addr ==> seen(t.addr_count, addr) == seen(s.addr_count, addr) + 1
            &&& addr != f.addr ==> seen(t.addr_count, addr) == seen(s.addr_count, addr)
        }),
{
    let t = with_frame(s, f, time);
    if s.history.len() < 500 {
        assert(t.history.drop_last() =~= s.history);
    } else {
        assert(t.history.drop_last() =~= s.history.skip(1));
    }
}

/// A monitor that has seen nothing has counted nothing.
pub proof fn law_nothing_seen(code: u8, addr: u16)
    ensures
        no_stats().total_frames == 0,
        no_stats().history.len() == 0,
        seen(no_stats().func_count, code) == 0,
        seen(no_stats().addr_count, addr) == 0,
{
}

/// Of the frames that were seen, the last 500 are kept, in order.
pub proof fn law_last_frames_are_kept(frames: Seq<(Frame, Seq<char>)>, i: int)
    requires
        frames.len() <= usize::MAX,
        0 <= i < frames.len(),
        frames.len() - i <= 500,
    ensures
        ({
            let h = with_frames(no_stats(), frames).history;
            let back = frames.len() - i;
            &&& h.len() <= 500
            &&& frames.len() >= 500 ==> h.len() == 500
            &&& back <= h.len()
            &&& h[h.len() - back].frame == frames[i].0
            &&& h[h.len() - back].time == frames[i].1
        }),
{
    crate::monitor::law_monitor_keeps_last(frames, 0, 0);
}

/// A monitor that is filled from records has counted all of them, each code and each
/// address as often as it stands in them, and keeps the last 500.
pub proof fn law_monitor_is_filled(recs: Seq<Record>, code: u8, addr: u16, i: int)
    requires
        recs.len() <= usize::MAX,
    ensures
        ({
            let s = stats_of(recs);
            &&& s.total_frames == recs.len()
            &&& seen(s.func_count, code) == recs.filter(
                |r: Record| r.frame.func_code == code,
            ).len()
            &&& seen(s.addr_count, addr) == recs.filter(|r: Record| r.frame.addr == addr).len()
            &&& recs.len() <= 500 ==> s.history == recs
            &&& recs.len() > 500 ==> s.history.len() == 500
            &&& recs.len() > 500 && 0 <= i < 500 ==> s.history[i] == recs[recs.len() - 500 + i]
        }),
{
    crate::monitor::law_counts_match_records(recs, code, addr);
    assert(records_with_code(recs, code) == recs.filter(
        |r: Record| r.frame.func_code == code,
    ).len());
    assert(records_at(recs, addr) == recs.filter(|r: Record| r.frame.addr == addr).len());
}

/// A list that is full loses its first when one more is put at its end.
pub proof fn law_full_list_loses_first<T>(s: Seq<T>, x: T, max: nat, i: int)
    requires
        0 < max,
        s.len() <= max,
    ensures
        appended(s, x, max).last() == x,
        s.len() < max ==> appended(s, x, max).len() == s.len() + 1,
        s.len() == max ==> appended(s, x, max).len() == max,
        s.len() < max && 0 <= i < s.len() ==> appended(s, x, max)[i] == s[i],
        s.len() == max && 0 < i < s.len() ==> appended(s, x, max)[i - 1] == s[i],
{
}

} // verus!
