//! Where snapshots are kept, and which of them stay: the files live in the
//! program's folder under the user's roaming data, one file per snapshot,
//! the newest ones kept. Reading and writing the files is the caller's;
//! what is decided about them is here.

use vstd::prelude::*;
use crate::error::AppError;
use crate::snapshot::model::{Snapshot, SnapshotReason, SnapshotRecord, SNAPSHOT_SCHEMA_VERSION};
use crate::text::{chars_of, decimal, ends_with, ends_with_exec, owned, push_decimal, push_str, slice_of, string_of};

verus! {

/// The folder of the snapshots, in the program's data folder.
pub const SNAPSHOT_DIR_NAME: &'static str = "snapshots";

/// How many snapshots are kept unless the caller says otherwise.
pub fn default_retention() -> (r: usize)
    ensures
        r == 20,
{
    20
}

/// The file a snapshot is written to: its id and `.json`.
pub fn snapshot_file_name(id: &str) -> (r: String)
    ensures
        r@ == id@ + ".json"@,
{
    let mut s = owned(id);
    push_str(&mut s, ".json");
    s
}

/// The file a snapshot is first written to, then renamed: hidden, `.tmp`.
pub fn temp_file_name(id: &str) -> (r: String)
    ensures
        r@ == "."@ + id@ + ".tmp"@,
{
    let mut s = owned(".");
    push_str(&mut s, id);
    push_str(&mut s, ".tmp");
    s
}

/// `.json` suffixes removed, as many as there are.
pub open spec fn strip_json(s: Seq<char>) -> Seq<char>
    decreases s.len(),
{
    if s.len() >= 5 && ends_with(s, ".json"@) {
        strip_json(s.take(s.len() - 5))
    } else {
        s
    }
}

/// The snapshot id a file name stands for: a `.json` file that is not
/// hidden (temporary files start with a dot).
pub open spec fn id_of_file_spec(name: Seq<char>) -> Option<Seq<char>> {
    if ends_with(name, ".json"@) && !(name.len() > 0 && name[0] == '.') {
        Some(strip_json(name))
    } else {
        None
    }
}

pub fn id_of_file_name(name: &str) -> (r: Option<String>)
    ensures
        crate::text::opt_chars(r) == id_of_file_spec(name@),
{
    proof {
        reveal_strlit(".json");
    }
    let v = chars_of(name);
    let suffix = chars_of(".json");
    if !ends_with_exec(v.as_slice(), suffix.as_slice()) || (v.len() > 0 && v[0] == '.') {
        return None;
    }
    let mut cur = v;
    while cur.len() >= 5 && ends_with_exec(cur.as_slice(), suffix.as_slice())
        invariant
            suffix@ == ".json"@,
            strip_json(name@) == strip_json(cur@),
        decreases cur.len(),
    {
        let n = cur.len();
        cur = slice_of(cur.as_slice(), 0, n - 5);
    }
    Some(string_of(cur.as_slice()))
}

/// The snapshots to delete: beyond the newest `retention` of a list that
/// is newest first; none when the retention is zero (keep everything).
pub open spec fn prune_spec(all: Seq<Seq<char>>, retention: nat) -> Seq<Seq<char>> {
    if retention == 0 || all.len() <= retention {
        Seq::empty()
    } else {
        all.skip(retention as int)
    }
}

pub fn prune_targets(all: &Vec<String>, retention: usize) -> (r: Vec<String>)
    ensures
        r@.map_values(|s: String| s@) == prune_spec(all@.map_values(|s: String| s@), retention as nat),
{
    let mut out: Vec<String> = Vec::new();
    if retention == 0 || all.len() <= retention {
        return out;
    }
    let ghost a = all@.map_values(|s: String| s@);
    let mut i = retention;
    while i < all.len()
        invariant
            retention <= i <= all.len(),
            a == all@.map_values(|s: String| s@),
            out@.map_values(|s: String| s@) == a.subrange(retention as int, i as int),
        decreases all.len() - i,
    {
        let ghost before = out@.map_values(|s: String| s@);
        out.push(owned(all[i].as_str()));
        assert(out@.map_values(|s: String| s@) =~= before.push(a[i as int]));
        assert(a.subrange(retention as int, i + 1) =~= a.subrange(retention as int, i as int).push(a[i as int]));
        i = i + 1;
    }
    assert(a.subrange(retention as int, all.len() as int) =~= a.skip(retention as int));
    out
}

/// After pruning, the newest `retention` snapshots remain, no more.
pub proof fn lemma_prune_keeps_newest(all: Seq<Seq<char>>, retention: nat)
    requires
        retention > 0,
    ensures
        all.len() - prune_spec(all, retention).len() == if all.len() > retention { retention as int } else { all.len() as int },
        prune_spec(all, retention) =~= all.skip(all.len() - prune_spec(all, retention).len()),
{
    if all.len() <= retention {
        assert(all.skip(all.len() as int) =~= Seq::<Seq<char>>::empty());
    }
}

/// A snapshot read from disk, accepted only in the current layout: one of
/// another version is refused, never read with the wrong meaning.
pub fn check_loaded(snap: Snapshot, id: &str) -> (r: Result<Snapshot, AppError>)
    ensures
        snap.schema_version == SNAPSHOT_SCHEMA_VERSION ==> r == Ok::<Snapshot, AppError>(snap),
        snap.schema_version != SNAPSHOT_SCHEMA_VERSION ==> (r matches Err(AppError::Other(m))
            && m@ == "快照 "@ + id@ + " 的 schema 版本 "@ + decimal(snap.schema_version as nat) + " 与当前 "@
            + decimal(SNAPSHOT_SCHEMA_VERSION as nat) + " 不兼容"@),
{
    if snap.schema_version != SNAPSHOT_SCHEMA_VERSION {
        let mut m = owned("快照 ");
        push_str(&mut m, id);
        push_str(&mut m, " 的 schema 版本 ");
        push_decimal(&mut m, snap.schema_version as u64);
        push_str(&mut m, " 与当前 ");
        push_decimal(&mut m, SNAPSHOT_SCHEMA_VERSION as u64);
        push_str(&mut m, " 不兼容");
        return Err(AppError::Other(m));
    }
    Ok(snap)
}

/// The baseline taken before a change, at a given time: every item's
/// record, marked as taken for a scan.
pub fn scan_baseline_at(item_records: Vec<SnapshotRecord>, now: String) -> (r: Snapshot)
    ensures
        r.schema_version == SNAPSHOT_SCHEMA_VERSION,
        r.id@ == crate::dedupe::uuid_v5_text(crate::snapshot::model::SNAPSHOT_NS, crate::snapshot::model::snapshot_seed(now@)),
        r.created_at == now,
        r.description@ == "扫描前基线"@,
        r.reason == SnapshotReason::Scan,
        r.records == item_records,
{
    let id = crate::snapshot::model::snapshot_id("BootFlow", now.as_str());
    Snapshot {
        schema_version: SNAPSHOT_SCHEMA_VERSION,
        id,
        created_at: now,
        description: owned("扫描前基线"),
        reason: SnapshotReason::Scan,
        records: item_records,
    }
}

} // verus!
