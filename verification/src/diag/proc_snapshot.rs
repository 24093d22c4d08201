//! Process sampling: when, after the start of this boot, each running
//! process appeared, and what it has read and used since.
//!
//! The read bytes and CPU time are totals since the process started, not
//! what it used during the boot; the time of the sample is kept with them
//! so that this can be said. Reading the processes is the caller's (it is
//! Windows' own API); turning the readings into a snapshot is here.

use vstd::prelude::*;
use crate::text::{chars_eq, chars_of, owned};

verus! {

/// One sampled process.
#[derive(Debug, Clone)]
pub struct ProcSnapshot {
    /// The executable's file name, lower case.
    pub name: String,
    /// When it was created, in ms after the start of this boot.
    pub start_offset_ms: u64,
    /// Bytes read since it started, at the time of the sample.
    pub read_bytes: u64,
    /// CPU time since it started (kernel and user), in ms.
    pub cpu_ms: u64,
}

/// One sampling of the processes.
#[derive(Debug, Clone)]
pub struct Snapshot {
    /// How long after the start of the boot the sample was taken; `None`
    /// when the start of the boot is unknown, and then there are no processes.
    pub captured_at_offset_ms: Option<u64>,
    /// Ordered by start.
    pub procs: Vec<ProcSnapshot>,
    /// Why there is no sample, in plain words.
    pub unavailable_reason: Option<String>,
}

impl Default for Snapshot {
    /// No sample and no reason.
    fn default() -> (r: Snapshot)
        ensures
            r.captured_at_offset_ms is None,
            r.procs@.len() == 0,
            r.unavailable_reason is None,
    {
        Snapshot { captured_at_offset_ms: None, procs: Vec::new(), unavailable_reason: None }
    }
}

impl Snapshot {
    /// A snapshot without data, with the reason.
    pub fn unavailable(why: String) -> (r: Snapshot)
        ensures
            r.captured_at_offset_ms is None,
            r.procs@.len() == 0,
            r.unavailable_reason == Some(why),
    {
        Snapshot { captured_at_offset_ms: None, procs: Vec::new(), unavailable_reason: Some(why) }
    }

    /// Whether there is a sample.
    pub fn is_available(&self) -> (r: bool)
        ensures
            r == (self.captured_at_offset_ms is Some),
    {
        self.captured_at_offset_ms.is_some()
    }
}

/// 100 ns units from 1601-01-01 (the `FILETIME` epoch) to 1970-01-01.
pub const EPOCH_DIFF_100NS: u64 = 116_444_736_000_000_000;

/// How many processes a snapshot keeps.
pub const MAX_PROCS: usize = 300;

/// Only processes started this many ms after the start of the boot count.
pub const BOOT_WINDOW_MS: u64 = 600_000;

/// The reason given when the start of the boot is unknown.
pub const NO_BOOT_START: &'static str = "读不到本次开机的起点时刻，无法把进程创建时刻换算成\"开机后第几秒\"。";

/// A `FILETIME`'s two halves as one number.
pub fn filetime_value(low: u32, high: u32) -> (r: u64)
    ensures
        r == high as int * 0x1_0000_0000 + low as int,
{
    let r = (high as u64) * 0x1_0000_0000u64 + low as u64;
    r
}

/// The start of the boot as a `FILETIME` value, from its UTC seconds and
/// nanoseconds.
pub fn boot_filetime(secs: i64, nanos: u32) -> (r: i128)
    ensures
        r == secs as int * 10_000_000 + nanos as int / 100 + EPOCH_DIFF_100NS as int,
{
    secs as i128 * 10_000_000i128 + nanos as i128 / 100i128 + EPOCH_DIFF_100NS as i128
}

/// When a process appeared, in ms after the start of the boot: a process
/// created before it (restored by fast startup) appeared at 0.
pub fn start_offset_ms(create_ft: u64, boot_ft: i128) -> (r: u64)
    requires
        0 <= boot_ft <= u64::MAX,
    ensures
        r == if create_ft - boot_ft > 0 { (create_ft - boot_ft) / 10_000 } else { 0 },
{
    let d: i128 = create_ft as i128 - boot_ft;
    if d > 0 {
        let du: u64 = d as u64;
        du / 10_000
    } else {
        0
    }
}

/// CPU time in ms from the kernel and user times in 100 ns units.
pub fn cpu_ms_of(kernel_100ns: u64, user_100ns: u64) -> (r: u64)
    requires
        kernel_100ns + user_100ns <= u64::MAX,
    ensures
        r == (kernel_100ns + user_100ns) / 10_000,
{
    (kernel_100ns + user_100ns) / 10_000
}

/// A process as name, start, read bytes and CPU time.
pub type ProcView = (Seq<char>, u64, u64, u64);

pub open spec fn proc_view(p: ProcSnapshot) -> ProcView {
    (p.name@, p.start_offset_ms, p.read_bytes, p.cpu_ms)
}

pub open spec fn proc_views(v: Seq<ProcSnapshot>) -> Seq<ProcView> {
    v.map_values(|p: ProcSnapshot| proc_view(p))
}

/// The processes started within the boot window, in order.
pub open spec fn in_window(s: Seq<ProcView>) -> Seq<ProcView>
    decreases s.len(),
{
    if s.len() == 0 {
        Seq::empty()
    } else if s.last().1 <= BOOT_WINDOW_MS {
        in_window(s.drop_last()).push(s.last())
    } else {
        in_window(s.drop_last())
    }
}

/// `v` placed after every process that did not start later.
pub open spec fn insert_by_start(sorted: Seq<ProcView>, v: ProcView) -> Seq<ProcView>
    decreases sorted.len(),
{
    if sorted.len() == 0 {
        seq![v]
    } else if sorted.last().1 > v.1 {
        insert_by_start(sorted.drop_last(), v).push(sorted.last())
    } else {
        sorted.push(v)
    }
}

/// A stable sort by start.
pub open spec fn sort_by_start(s: Seq<ProcView>) -> Seq<ProcView>
    decreases s.len(),
{
    if s.len() == 0 {
        Seq::empty()
    } else {
        insert_by_start(sort_by_start(s.drop_last()), s.last())
    }
}

/// Neighbours with the same name and start reduced to one.
pub open spec fn dedup_neighbours(s: Seq<ProcView>) -> Seq<ProcView>
    decreases s.len(),
{
    if s.len() == 0 {
        Seq::empty()
    } else {
        let d = dedup_neighbours(s.drop_last());
        if d.len() > 0 && d.last().0 == s.last().0 && d.last().1 == s.last().1 {
            d
        } else {
            d.push(s.last())
        }
    }
}

/// The processes a snapshot keeps: those started within ten minutes of
/// the boot, by start, without repeats, at most `MAX_PROCS`.
pub open spec fn shape_spec(s: Seq<ProcView>) -> Seq<ProcView> {
    let d = dedup_neighbours(sort_by_start(in_window(s)));
    if d.len() > MAX_PROCS {
        d.take(MAX_PROCS as int)
    } else {
        d
    }
}

fn insert_position(out: &Vec<ProcSnapshot>, start: u64) -> (pos: usize)
    ensures
        pos <= out.len(),
        ({
            let s = proc_views(out@);
            forall|v: ProcView| v.1 == start ==> #[trigger] insert_by_start(s, v) == s.take(pos as int).push(v) + s.skip(pos as int)
        }),
{
    let ghost s = proc_views(out@);
    let mut pos = out.len();
    proof {
        assert forall|v: ProcView| v.1 == start implies #[trigger] insert_by_start(s, v) == insert_by_start(s.take(pos as int), v)
            + s.skip(pos as int) by {
            assert(s.take(pos as int) =~= s);
            assert(s.skip(pos as int) =~= Seq::<ProcView>::empty());
            assert(insert_by_start(s, v) + Seq::empty() =~= insert_by_start(s, v));
        }
    }
    while pos > 0 && out[pos - 1].start_offset_ms > start
        invariant
            pos <= out.len(),
            s == proc_views(out@),
            forall|v: ProcView| v.1 == start ==> #[trigger] insert_by_start(s, v) == insert_by_start(s.take(pos as int), v)
                + s.skip(pos as int),
        decreases pos,
    {
        proof {
            assert forall|v: ProcView| v.1 == start implies #[trigger] insert_by_start(s, v) == insert_by_start(s.take(pos - 1), v)
                + s.skip(pos - 1) by {
                let t = s.take(pos as int);
                assert(t.drop_last() =~= s.take(pos - 1));
                assert(t.last() == s[pos - 1]);
                assert(insert_by_start(t, v) == insert_by_start(s.take(pos - 1), v).push(s[pos - 1]));
                assert(insert_by_start(s.take(pos - 1), v).push(s[pos - 1]) + s.skip(pos as int)
                    =~= insert_by_start(s.take(pos - 1), v) + s.skip(pos - 1));
            }
        }
        pos = pos - 1;
    }
    proof {
        assert forall|v: ProcView| v.1 == start implies #[trigger] insert_by_start(s, v) == s.take(pos as int).push(v) + s.skip(pos as int) by {
            let t = s.take(pos as int);
            if pos > 0 {
                assert(t.last() == s[pos - 1]);
            } else {
                assert(t =~= Seq::<ProcView>::empty());
            }
        }
    }
    pos
}

/// Keeps the processes of a snapshot: started within `BOOT_WINDOW_MS` of
/// the boot, ordered by start (equal starts keep their order), a process
/// listed twice with the same name and start kept once, at most
/// `MAX_PROCS` of them.
pub fn shape_procs(procs: Vec<ProcSnapshot>) -> (r: Vec<ProcSnapshot>)
    ensures
        proc_views(r@) == shape_spec(proc_views(procs@)),
{
    let ghost all = proc_views(procs@);
    // within the window
    let mut input = procs;
    let mut kept: Vec<ProcSnapshot> = Vec::new();
    let mut j: usize = 0;
    let n = input.len();
    assert(all.take(0) =~= Seq::<ProcView>::empty());
    assert(proc_views(kept@) =~= Seq::<ProcView>::empty());
    while input.len() > 0
        invariant
            j + input.len() == n,
            all.len() == n,
            proc_views(input@) == all.skip(j as int),
            proc_views(kept@) == in_window(all.take(j as int)),
        decreases input.len(),
    {
        let p = input.remove(0);
        proof {
            assert(all.skip(j as int)[0] == proc_view(p));
            assert(all.take(j + 1).drop_last() =~= all.take(j as int));
            assert(all.take(j + 1).last() == all[j as int]);
            assert(proc_views(input@) =~= all.skip(j as int).drop_first());
            assert(all.skip(j + 1) =~= all.skip(j as int).drop_first());
        }
        let ghost before = proc_views(kept@);
        if p.start_offset_ms <= BOOT_WINDOW_MS {
            kept.push(p);
            assert(proc_views(kept@) =~= before.push(proc_view(p)));
        }
        j = j + 1;
    }
    assert(all.take(j as int) =~= all);
    // stable sort by start
    let ghost w = proc_views(kept@);
    let mut sorted: Vec<ProcSnapshot> = Vec::new();
    let m = kept.len();
    let mut k: usize = 0;
    assert(w.take(0) =~= Seq::<ProcView>::empty());
    assert(proc_views(sorted@) =~= Seq::<ProcView>::empty());
    while kept.len() > 0
        invariant
            k + kept.len() == m,
            w.len() == m,
            proc_views(kept@) == w.skip(k as int),
            proc_views(sorted@) == sort_by_start(w.take(k as int)),
        decreases kept.len(),
    {
        let p = kept.remove(0);
        proof {
            assert(w.skip(k as int)[0] == proc_view(p));
            assert(w.take(k + 1).drop_last() =~= w.take(k as int));
            assert(w.take(k + 1).last() == w[k as int]);
            assert(proc_views(kept@) =~= w.skip(k as int).drop_first());
            assert(w.skip(k + 1) =~= w.skip(k as int).drop_first());
        }
        let pos = insert_position(&sorted, p.start_offset_ms);
        let ghost before = proc_views(sorted@);
        sorted.insert(pos, p);
        proof {
            assert(proc_views(sorted@) =~= before.take(pos as int).push(proc_view(p)) + before.skip(pos as int));
        }
        k = k + 1;
    }
    assert(w.take(k as int) =~= w);
    // neighbours with the same name and start once
    let ghost t = proc_views(sorted@);
    let mut out: Vec<ProcSnapshot> = Vec::new();
    let q = sorted.len();
    let mut i: usize = 0;
    assert(t.take(0) =~= Seq::<ProcView>::empty());
    assert(proc_views(out@) =~= Seq::<ProcView>::empty());
    while sorted.len() > 0
        invariant
            i + sorted.len() == q,
            t.len() == q,
            proc_views(sorted@) == t.skip(i as int),
            proc_views(out@) == dedup_neighbours(t.take(i as int)),
        decreases sorted.len(),
    {
        let p = sorted.remove(0);
        proof {
            assert(t.skip(i as int)[0] == proc_view(p));
            assert(t.take(i + 1).drop_last() =~= t.take(i as int));
            assert(t.take(i + 1).last() == t[i as int]);
            assert(proc_views(sorted@) =~= t.skip(i as int).drop_first());
            assert(t.skip(i + 1) =~= t.skip(i as int).drop_first());
        }
        let ghost before = proc_views(out@);
        let dup = out.len() > 0 && out[out.len() - 1].start_offset_ms == p.start_offset_ms
            && chars_eq(chars_of(out[out.len() - 1].name.as_str()).as_slice(), chars_of(p.name.as_str()).as_slice());
        if !dup {
            out.push(p);
            assert(proc_views(out@) =~= before.push(proc_view(p)));
        } else {
            assert(before.last() == proc_view(out@[out@.len() - 1]));
        }
        i = i + 1;
    }
    assert(t.take(i as int) =~= t);
    if out.len() > MAX_PROCS {
        out.truncate(MAX_PROCS);
        assert(proc_views(out@) =~= dedup_neighbours(t).take(MAX_PROCS as int));
    }
    out
}

/// A snapshot taken `captured_ms` after the start of the boot (never
/// below zero), with its processes shaped as `shape_procs` says.
pub fn snapshot_of(captured_ms: i64, procs: Vec<ProcSnapshot>) -> (r: Snapshot)
    ensures
        r.captured_at_offset_ms == Some((if captured_ms > 0 { captured_ms } else { 0 }) as u64),
        proc_views(r.procs@) == shape_spec(proc_views(procs@)),
        r.unavailable_reason is None,
{
    let c: u64 = if captured_ms > 0 { captured_ms as u64 } else { 0 };
    Snapshot { captured_at_offset_ms: Some(c), procs: shape_procs(procs), unavailable_reason: None }
}

/// The snapshot when the start of the boot is unknown.
pub fn no_boot_start() -> (r: Snapshot)
    ensures
        r.captured_at_offset_ms is None,
        r.procs@.len() == 0,
        opt_text(r.unavailable_reason) == Some(NO_BOOT_START@),
{
    Snapshot::unavailable(owned(NO_BOOT_START))
}

/// Milliseconds from the start `start` to the moment `now` (each as whole
/// seconds since the Unix epoch and nanoseconds), rounded down, never
/// below zero and at most `u64::MAX`.
pub open spec fn offset_ms_spec(now: (i64, u32), start: (i64, u32)) -> u64 {
    let ms = crate::diag::boot_marker::nanos_between(now, start) / 1_000_000;
    if ms <= 0 {
        0
    } else if ms > u64::MAX {
        u64::MAX
    } else {
        ms as u64
    }
}

/// A sampling of `procs` taken at `now`, against the start of this boot
/// as the event log gave it (RFC 3339 text): no start, or a text that is
/// not RFC 3339, gives the snapshot without data (`no_boot_start`);
/// otherwise the sample is taken `offset_ms_spec(now, start)` after the
/// start and its processes are shaped as `shape_procs` says.
pub fn capture(boot_start: Option<String>, now: (i64, u32), procs: Vec<ProcSnapshot>) -> (r: Snapshot)
    ensures
        (match boot_start {
            Some(t) => crate::diag::boot_marker::rfc3339_instant(t@),
            None => None,
        }) matches Some(start) ==> {
            &&& r.captured_at_offset_ms == Some(offset_ms_spec(now, start))
            &&& proc_views(r.procs@) == shape_spec(proc_views(procs@))
            &&& r.unavailable_reason is None
        },
        (match boot_start {
            Some(t) => crate::diag::boot_marker::rfc3339_instant(t@),
            None => None,
        }) is None ==> {
            &&& r.captured_at_offset_ms is None
            &&& r.procs@.len() == 0
            &&& opt_text(r.unavailable_reason) == Some(NO_BOOT_START@)
        },
{
    let start = match &boot_start {
        Some(t) => crate::diag::boot_marker::parse_instant(t.as_str()),
        None => None,
    };
    match start {
        None => no_boot_start(),
        Some(st) => {
            let nanos: i128 = (now.0 as i128 - st.0 as i128) * 1_000_000_000 + (now.1 as i128 - st.1 as i128);
            assert(nanos == crate::diag::boot_marker::nanos_between(now, st));
            let c: u64 = if nanos <= 0 {
                0
            } else {
                let ms: i128 = nanos / 1_000_000;
                if ms > u64::MAX as i128 { u64::MAX } else { ms as u64 }
            };
            Snapshot { captured_at_offset_ms: Some(c), procs: shape_procs(procs), unavailable_reason: None }
        },
    }
}

pub open spec fn opt_text(o: Option<String>) -> Option<Seq<char>> {
    crate::text::opt_chars(o)
}

} // verus!
