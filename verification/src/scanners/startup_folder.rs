//! The startup folders, the user's and the machine's: every file there
//! (but `desktop.ini`, `Thumbs.db` and hidden names) starts at logon; a
//! shortcut starts its target. Reading the folders and the shortcuts is
//! the caller's; the items are made here.

use vstd::prelude::*;
use crate::model::{derive_kind_spec, BootPhase, Scope, SourceDetail, SourceKind, StartupItem, ValidityStatus};
use crate::scanners::builder::{displayable_name, displayable_spec, fresh_item, FileMeta, ItemBuilder};
use crate::text::{owned, push_char, push_str};

verus! {

/// The startup folder below `%APPDATA%` and below `%ProgramData%`.
pub const STARTUP_SUBDIR: &'static str = "Microsoft\\Windows\\Start Menu\\Programs\\Startup";

/// Words joined by single spaces.
pub open spec fn join_words(ws: Seq<String>) -> Seq<char>
    decreases ws.len(),
{
    if ws.len() == 0 {
        Seq::empty()
    } else if ws.len() == 1 {
        ws[0]@
    } else {
        join_words(ws.drop_last()) + seq![' '] + ws.last()@
    }
}

/// The command line of a shortcut: its target in quotes, then its arguments.
pub open spec fn shortcut_command(target: Seq<char>, args: Seq<String>) -> Seq<char> {
    if args.len() == 0 {
        seq!['"'] + target + seq!['"']
    } else {
        seq!['"'] + target + seq!['"', ' '] + join_words(args)
    }
}

fn join_exec(ws: &Vec<String>) -> (r: String)
    ensures
        r@ == join_words(ws@),
{
    let mut s = String::new();
    let mut i: usize = 0;
    while i < ws.len()
        invariant
            i <= ws.len(),
            s@ == join_words(ws@.take(i as int)),
        decreases ws.len() - i,
    {
        assert(ws@.take(i + 1).drop_last() =~= ws@.take(i as int));
        assert(ws@.take(i + 1).last() == ws@[i as int]);
        if i > 0 {
            push_char(&mut s, ' ');
        }
        push_str(&mut s, ws[i].as_str());
        i = i + 1;
        assert(s@ =~= join_words(ws@.take(i as int)));
    }
    assert(ws@.take(ws.len() as int) =~= ws@);
    s
}

/// A file of a startup folder as an item. `shortcut` is the target and
/// arguments of a shortcut file (`None` for any other file, which starts
/// itself); `enabled` is what `StartupApproved` says of the file. The name
/// shown is the file name without its extension.
pub fn folder_item(
    source: SourceKind,
    dir: &str,
    full_path: &str,
    file_name: &str,
    shortcut: Option<(String, Vec<String>)>,
    enabled: bool,
    meta: FileMeta,
) -> (r: StartupItem)
    ensures
        r.source == source,
        r.name@ == displayable_spec(file_name@),
        r.scope == (if source is StartupFolderMachine { Scope::Machine } else { Scope::User }),
        r.location@ == dir@,
        match shortcut {
            Some((t, a)) => r.command@ == shortcut_command(t@, a@) && r.resolved_path == t && r.args == a,
            None => r.command@ == full_path@ && r.resolved_path@ == full_path@ && r.args@.len() == 0,
        },
        r.enabled == enabled,
        r.boot_phase == BootPhase::Logon,
        r.display_name == meta.display_name,
        r.name_from == meta.name_from,
        r.summary is None,
        r.signer.is_os_component == meta.signer.is_os_component,
        r.kind == derive_kind_spec(source, meta.signer.is_os_component),
        r.validity == ValidityStatus::Valid && r.validity_detail is None,
        r.raw.start_type is None && r.raw.task_enabled is None && r.raw.trigger_enabled is None
            && r.raw.value_name is None,
        r.raw.detail matches SourceDetail::StartupFile { file_name: n, file_path: p }
            && n@ == file_name@ && p@ == full_path@,
        r.diagnostics@.len() == 0,
        fresh_item(r, meta),
{
    let mut b = ItemBuilder::new(source, displayable_name(file_name));
    b.scope = if source == SourceKind::StartupFolderMachine { Scope::Machine } else { Scope::User };
    b.location = owned(dir);
    match shortcut {
        Some((t, a)) => {
            let mut c = String::new();
            push_char(&mut c, '"');
            push_str(&mut c, t.as_str());
            push_char(&mut c, '"');
            if a.len() > 0 {
                push_char(&mut c, ' ');
                push_str(&mut c, join_exec(&a).as_str());
            }
            b.command = c;
            b.resolved_path = t;
            b.args = a;
        },
        None => {
            b.command = owned(full_path);
            b.resolved_path = owned(full_path);
        },
    }
    b.enabled = enabled;
    b.boot_phase = BootPhase::Logon;
    b.raw.detail = SourceDetail::StartupFile { file_name: owned(file_name), file_path: owned(full_path) };
    b.build(meta)
}

} // verus!
