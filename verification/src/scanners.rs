pub mod builder;
pub mod registry;
pub mod scheduled_task;
pub mod service;
pub mod startup_folder;
pub mod system_hooks;

use vstd::prelude::*;
use crate::diag::proc_snapshot::Snapshot;
use crate::model::{BootTimeline, ImpactOverview, ItemObservation, OsInfo, ScanResult, SourceKind, StartupItem};
use crate::text::{owned, push_str};

verus! {

/// The version assumed when the system's own cannot be read.
pub fn fallback_os() -> (r: OsInfo)
    ensures
        r.major == 10 && r.minor == 0 && r.build == 0 && r.sku@ == "Windows"@,
{
    OsInfo { major: 10, minor: 0, build: 0, sku: owned("Windows") }
}

/// The names of the sources, in the order they are scanned.
pub open spec fn source_labels() -> Seq<Seq<char>> {
    seq!["启动文件夹"@, "注册表启动项"@, "计划任务"@, "系统服务"@, "系统注入"@]
}

/// Messages joined by `；`.
pub open spec fn joined(ms: Seq<Seq<char>>) -> Seq<char>
    decreases ms.len(),
{
    if ms.len() == 0 {
        Seq::empty()
    } else if ms.len() == 1 {
        ms[0]
    } else {
        joined(ms.drop_last()) + seq!['；'] + ms.last()
    }
}

pub open spec fn views_of(v: Seq<String>) -> Seq<Seq<char>> {
    v.map_values(|s: String| s@)
}

pub fn join_errors(errors: &Vec<String>) -> (r: String)
    ensures
        r@ == joined(views_of(errors@)),
{
    let ghost es = views_of(errors@);
    let mut s = String::new();
    let mut i: usize = 0;
    while i < errors.len()
        invariant
            i <= errors.len(),
            es == views_of(errors@),
            s@ == joined(es.take(i as int)),
        decreases errors.len() - i,
    {
        assert(es.take(i + 1).drop_last() =~= es.take(i as int));
        assert(es.take(i + 1).last() == errors@[i as int]@);
        if i > 0 {
            crate::text::push_char(&mut s, '；');
        }
        push_str(&mut s, errors[i].as_str());
        i = i + 1;
        assert(s@ =~= joined(es.take(i as int)));
    }
    assert(es.take(errors.len() as int) =~= es);
    s
}

/// What a source gives when some of its places failed: the items found,
/// unless nothing was found and something failed, then the failures
/// joined. One place that cannot be read does not empty the source.
pub fn source_outcome(items: Vec<StartupItem>, errors: &Vec<String>) -> (r: Result<Vec<StartupItem>, String>)
    ensures
        items@.len() == 0 && errors@.len() > 0 ==> (r matches Err(m) && m@ == joined(views_of(errors@))),
        !(items@.len() == 0 && errors@.len() > 0) ==> r == Ok::<Vec<StartupItem>, String>(items),
{
    if items.len() == 0 && errors.len() > 0 {
        return Err(join_errors(errors));
    }
    Ok(items)
}

/// The registry's rule: a failure only when no location could be read at
/// all (a key that does not exist is not a failure).
pub fn registry_outcome(items: Vec<StartupItem>, readable: usize, errors: &Vec<String>) -> (r: Result<Vec<StartupItem>, String>)
    ensures
        readable == 0 && errors@.len() > 0 ==> (r matches Err(m) && m@ == joined(views_of(errors@))),
        !(readable == 0 && errors@.len() > 0) ==> r == Ok::<Vec<StartupItem>, String>(items),
{
    if readable == 0 && errors.len() > 0 {
        return Err(join_errors(errors));
    }
    Ok(items)
}

/// The scheduled-task scan's rule: when nothing was collected although
/// tasks were seen, and every one of them was denied, the scan failed for
/// lack of permission (an empty list would read as "no tasks"), and the
/// message says how many were denied; otherwise the items are the result.
pub fn task_scan_outcome(items: Vec<StartupItem>, total_tasks: u64, denied: u64) -> (r: Result<Vec<StartupItem>, String>)
    ensures
        (items@.len() == 0 && total_tasks > 0 && denied >= total_tasks) ==> (r matches Err(m)
            && m@ == crate::text::decimal(denied as nat) + " 个计划任务全部因权限不足未能读取，请以管理员身份重试"@),
        !(items@.len() == 0 && total_tasks > 0 && denied >= total_tasks) ==> r == Ok::<Vec<StartupItem>, String>(items),
{
    if items.len() == 0 && total_tasks > 0 && denied >= total_tasks {
        let mut m = String::new();
        crate::text::push_decimal(&mut m, denied);
        push_str(&mut m, " 个计划任务全部因权限不足未能读取，请以管理员身份重试");
        return Err(m);
    }
    Ok(items)
}

/// The items of all sources and the failures, each failure under its
/// source's name (`<source>：<why>`); a failed source does not stop the
/// others. The results come in the order of `source_labels`.
pub open spec fn gathered(results: Seq<Result<Vec<StartupItem>, String>>, n: int) -> (Seq<StartupItem>, Seq<Seq<char>>)
    decreases n,
{
    if n <= 0 {
        (Seq::empty(), Seq::empty())
    } else {
        let (items, errs) = gathered(results, n - 1);
        match results[n - 1] {
            Ok(v) => (items + v@, errs),
            Err(e) => (items, errs.push(source_labels()[n - 1] + "："@ + e@)),
        }
    }
}

pub fn gather_sources(results: Vec<Result<Vec<StartupItem>, String>>) -> (r: (Vec<StartupItem>, Vec<String>))
    requires
        results@.len() == 5,
    ensures
        (r.0@, views_of(r.1@)) == gathered(results@, 5),
{
    let ghost rs = results@;
    let labels: Vec<&'static str> = vec!["启动文件夹", "注册表启动项", "计划任务", "系统服务", "系统注入"];
    assert(labels@.map_values(|x: &str| x@) =~= source_labels());
    let mut results = results;
    let mut all: Vec<StartupItem> = Vec::new();
    let mut errors: Vec<String> = Vec::new();
    let mut i: usize = 0;
    while i < 5
        invariant
            i <= 5,
            rs.len() == 5,
            labels@.len() == 5,
            labels@.map_values(|x: &str| x@) == source_labels(),
            results@ == rs.skip(i as int),
            (all@, views_of(errors@)) == gathered(rs, i as int),
        decreases 5 - i,
    {
        let r = results.remove(0);
        assert(r == rs[i as int]);
        assert(results@ =~= rs.skip(i + 1));
        assert(labels@[i as int]@ == source_labels()[i as int]);
        match r {
            Ok(mut v) => {
                let ghost before = all@;
                let ghost vv = v@;
                all.append(&mut v);
                assert(all@ =~= before + vv);
            },
            Err(e) => {
                let ghost before = views_of(errors@);
                let mut m = owned(labels[i]);
                push_str(&mut m, "：");
                push_str(&mut m, e.as_str());
                errors.push(m);
                assert(views_of(errors@) =~= before.push(source_labels()[i as int] + "："@ + e@));
            },
        }
        i = i + 1;
    }
    (all, errors)
}

/// What the process sample says about the items.
pub fn observation_of(snapshot: &Snapshot, observed: usize) -> (r: ItemObservation)
    ensures
        r.captured_at_offset_ms == snapshot.captured_at_offset_ms,
        r.process_count == snapshot.procs@.len(),
        r.observed_count == observed,
        crate::text::opt_chars(r.unavailable_reason) == crate::text::opt_chars(snapshot.unavailable_reason),
{
    ItemObservation {
        captured_at_offset_ms: snapshot.captured_at_offset_ms,
        process_count: snapshot.procs.len(),
        observed_count: observed,
        unavailable_reason: crate::text::owned_opt(&snapshot.unavailable_reason),
    }
}

/// The result of a scan: the finished items, the system, whether the scan
/// ran elevated, when it ran, the boot time line, what the process sample
/// says (with `observed` items seen in it), the WDI impact overview and the
/// errors of the sources that failed.
pub fn scan_result(
    items: Vec<StartupItem>,
    os: OsInfo,
    elevated: bool,
    scanned_at: String,
    boot_timeline: BootTimeline,
    snapshot: &Snapshot,
    observed: usize,
    impact: ImpactOverview,
    errors: Vec<String>,
) -> (r: ScanResult)
    ensures
        r.items == items,
        r.os == os,
        r.elevated == elevated,
        r.scanned_at == scanned_at,
        r.boot_timeline == boot_timeline,
        r.observation.captured_at_offset_ms == snapshot.captured_at_offset_ms,
        r.observation.process_count == snapshot.procs@.len(),
        r.observation.observed_count == observed,
        crate::text::opt_chars(r.observation.unavailable_reason) == crate::text::opt_chars(snapshot.unavailable_reason),
        r.impact == impact,
        r.errors == errors,
{
    let observation = observation_of(snapshot, observed);
    ScanResult { items, os, elevated, scanned_at, boot_timeline, observation, impact, errors }
}

/// The items of one source, in order.
pub open spec fn of_source(items: Seq<StartupItem>, source: SourceKind) -> Seq<StartupItem>
    decreases items.len(),
{
    if items.len() == 0 {
        Seq::empty()
    } else if items.last().source == source {
        of_source(items.drop_last(), source).push(items.last())
    } else {
        of_source(items.drop_last(), source)
    }
}

pub fn items_of_source(items: Vec<StartupItem>, source: SourceKind) -> (r: Vec<StartupItem>)
    ensures
        r@ == of_source(items@, source),
{
    let ghost all = items@;
    let mut input = items;
    let mut out: Vec<StartupItem> = Vec::new();
    let n = input.len();
    let mut j: usize = 0;
    assert(all.take(0) =~= Seq::<StartupItem>::empty());
    while input.len() > 0
        invariant
            j + input.len() == n,
            all.len() == n,
            input@ == all.skip(j as int),
            out@ == of_source(all.take(j as int), source),
        decreases input.len(),
    {
        let it = input.remove(0);
        assert(it == all[j as int]);
        assert(all.take(j + 1).drop_last() =~= all.take(j as int));
        assert(all.take(j + 1).last() == all[j as int]);
        assert(input@ =~= all.skip(j + 1));
        if it.source == source {
            out.push(it);
        }
        j = j + 1;
    }
    assert(all.take(j as int) =~= all);
    out
}

} // verus!
