//! The change log: one line per write, appended and never rewritten. Each
//! entry names the snapshot taken before it, so that what was changed can
//! be checked against the state before. Appending to and reading the file
//! is the caller's; the entries and their rendering are here.

use vstd::prelude::*;
use crate::snapshot::model::SnapshotRecord;
use crate::text::{decimal, owned, push_decimal, push_str};

verus! {

/// The folder of the log, under the user's roaming data.
pub const LOG_DIR_NAME: &'static str = "BootFlow";

/// The log file: one JSON entry per line.
pub const LOG_FILE_NAME: &'static str = "changelog.jsonl";

/// The kinds of change; the log's vocabulary is closed.
#[derive(Debug, Clone, Copy, PartialEq, Eq, Structural)]
pub enum Action {
    Enable,
    Disable,
    StartType,
    Rollback,
}

pub open spec fn label_spec(a: Action) -> &'static str {
    match a {
        Action::Enable => "启用",
        Action::Disable => "停用",
        Action::StartType => "改启动类型",
        Action::Rollback => "回滚",
    }
}

impl Action {
    /// The action in plain words.
    pub fn label(&self) -> (r: &'static str)
        ensures
            r@ == label_spec(*self)@,
    {
        match self {
            Action::Enable => "启用",
            Action::Disable => "停用",
            Action::StartType => "改启动类型",
            Action::Rollback => "回滚",
        }
    }
}

/// One entry of the log.
#[derive(Debug, Clone)]
pub struct ChangeEntry {
    /// When, RFC 3339.
    pub at: String,
    /// The snapshot taken before.
    pub snapshot_id: String,
    /// The transaction, in plain words.
    pub txn_description: String,
    pub item_id: String,
    pub display_name: String,
    pub before: String,
    pub after: String,
    /// `ok`, or `error: ` and what went wrong.
    pub result: String,
    pub action: Action,
    /// Which button it came from.
    pub origin: String,
}

/// What an entry is made of, apart from the time and the result.
#[derive(Debug, Clone)]
pub struct ChangeDraft {
    pub snap_id: String,
    pub txn: String,
    pub rec: SnapshotRecord,
    pub action: Action,
    pub before: String,
    pub after: String,
    pub origin: String,
}

/// An entry as time, snapshot, transaction, item, name, before, after,
/// result, action and origin.
pub type EntryView = (Seq<char>, Seq<char>, Seq<char>, Seq<char>, Seq<char>, Seq<char>, Seq<char>, Seq<char>, Action, Seq<char>);

pub open spec fn entry_view(e: ChangeEntry) -> EntryView {
    (e.at@, e.snapshot_id@, e.txn_description@, e.item_id@, e.display_name@, e.before@, e.after@, e.result@, e.action, e.origin@)
}

pub open spec fn draft_entry(at: Seq<char>, d: ChangeDraft, result: Seq<char>) -> EntryView {
    (at, d.snap_id@, d.txn@, d.rec.id@, d.rec.display_name@, d.before@, d.after@, result, d.action, d.origin@)
}

impl ChangeEntry {
    /// An entry for a change that succeeded.
    pub fn ok(at: &str, draft: &ChangeDraft) -> (r: ChangeEntry)
        ensures
            entry_view(r) == draft_entry(at@, *draft, "ok"@),
    {
        ChangeEntry {
            at: owned(at),
            snapshot_id: owned(draft.snap_id.as_str()),
            txn_description: owned(draft.txn.as_str()),
            item_id: owned(draft.rec.id.as_str()),
            display_name: owned(draft.rec.display_name.as_str()),
            before: owned(draft.before.as_str()),
            after: owned(draft.after.as_str()),
            result: owned("ok"),
            action: draft.action,
            origin: owned(draft.origin.as_str()),
        }
    }

    /// An entry for a change that failed: the log keeps those too.
    pub fn fail(at: &str, draft: &ChangeDraft, error: &str) -> (r: ChangeEntry)
        ensures
            entry_view(r) == draft_entry(at@, *draft, "error: "@ + error@),
    {
        let mut e = ChangeEntry::ok(at, draft);
        let mut result = owned("error: ");
        push_str(&mut result, error);
        e.result = result;
        e
    }
}

/// One table row of an entry.
pub open spec fn markdown_row(e: EntryView) -> Seq<char> {
    "| "@ + e.0 + " | "@ + e.4 + " | "@ + label_spec(e.8)@ + " | "@ + e.5 + " | "@ + e.6 + " | "@ + e.7 + " | "@ + e.1 + " |\n"@
}

pub open spec fn markdown_rows(es: Seq<EntryView>) -> Seq<char>
    decreases es.len(),
{
    if es.len() == 0 {
        Seq::empty()
    } else {
        markdown_rows(es.drop_last()) + markdown_row(es.last())
    }
}

pub open spec fn entry_views(v: Seq<ChangeEntry>) -> Seq<EntryView> {
    v.map_values(|e: ChangeEntry| entry_view(e))
}

/// The log as a Markdown table: a title, the number of entries, the
/// header and one row per entry, oldest first.
pub open spec fn markdown_spec(es: Seq<EntryView>) -> Seq<char> {
    "# 变更日志\n\n"@ + "共 "@ + decimal(es.len()) + " 条记录\n\n"@ + "| 时间 | 项 | 动作 | 原值 | 新值 | 结果 | 快照 |\n"@
        + "|---|---|---|---|---|---|---|\n"@ + markdown_rows(es)
}

fn row_of(e: &ChangeEntry) -> (r: String)
    ensures
        r@ == markdown_row(entry_view(*e)),
{
    let mut s = owned("| ");
    push_str(&mut s, e.at.as_str());
    push_str(&mut s, " | ");
    push_str(&mut s, e.display_name.as_str());
    push_str(&mut s, " | ");
    push_str(&mut s, e.action.label());
    push_str(&mut s, " | ");
    push_str(&mut s, e.before.as_str());
    push_str(&mut s, " | ");
    push_str(&mut s, e.after.as_str());
    push_str(&mut s, " | ");
    push_str(&mut s, e.result.as_str());
    push_str(&mut s, " | ");
    push_str(&mut s, e.snapshot_id.as_str());
    push_str(&mut s, " |\n");
    assert(s@ =~= markdown_row(entry_view(*e)));
    s
}

/// Renders the entries of the log as Markdown.
pub fn render_markdown(entries: &Vec<ChangeEntry>) -> (r: String)
    ensures
        r@ == markdown_spec(entry_views(entries@)),
{
    let mut s = owned("# 变更日志\n\n");
    push_str(&mut s, "共 ");
    let n = entries.len();
    push_decimal(&mut s, n as u64);
    push_str(&mut s, " 条记录\n\n");
    push_str(&mut s, "| 时间 | 项 | 动作 | 原值 | 新值 | 结果 | 快照 |\n");
    push_str(&mut s, "|---|---|---|---|---|---|---|\n");
    let ghost head = s@;
    let ghost es = entry_views(entries@);
    let mut i: usize = 0;
    while i < n
        invariant
            i <= n,
            n == entries.len(),
            es == entry_views(entries@),
            s@ == head + markdown_rows(es.take(i as int)),
        decreases n - i,
    {
        let e = &entries[i];
        assert(es.take(i + 1).drop_last() =~= es.take(i as int));
        assert(es.take(i + 1).last() == entry_view(*e));
        let row = row_of(e);
        push_str(&mut s, row.as_str());
        assert(s@ =~= head + markdown_rows(es.take(i + 1)));
        i = i + 1;
    }
    assert(es.take(n as int) =~= es);
    assert(s@ =~= markdown_spec(es));
    s
}

/// The newest `n` entries, newest first, of a log read oldest first.
pub fn recent_of(all: Vec<ChangeEntry>, n: usize) -> (r: Vec<ChangeEntry>)
    ensures
        r@.len() == if all@.len() < n { all@.len() } else { n as nat },
        forall|i: int| 0 <= i < r@.len() ==> #[trigger] r@[i] == all@[all@.len() - 1 - i],
{
    let mut rest = all;
    let ghost a = rest@;
    let mut out: Vec<ChangeEntry> = Vec::new();
    while out.len() < n && rest.len() > 0
        invariant
            rest@ == a.take(rest@.len() as int),
            rest@.len() + out@.len() == a.len(),
            out@.len() <= n,
            forall|i: int| 0 <= i < out@.len() ==> #[trigger] out@[i] == a[a.len() - 1 - i],
        decreases rest@.len(),
    {
        let e = rest.pop().unwrap();
        assert(e == a[a.len() - 1 - out@.len()]);
        let ghost k = rest@.len();
        out.push(e);
        assert(rest@ =~= a.take(k as int));
    }
    out
}

} // verus!
