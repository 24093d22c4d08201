//! Duplicate detection across sources.
//!
//! One program often has several autostart entries (a Run value, a
//! shortcut in the startup folder, ...). `identity_key` (path and
//! arguments) says whether two entries are the same entry; `program_key`
//! (path only) says whether they start the same program. Arguments keep
//! their case on purpose: merging two different configurations is worse
//! than missing one merge.

use vstd::prelude::*;
use crate::model::{
    is_autostart_spec, is_broken_spec, keep_rank_spec, StartupItem, ValidityStatus,
};
use crate::text::{
    chars_eq, chars_of, compare_lex, compare_lex_exec, lemma_compare_lex_equal,
    lemma_compare_lex_flip, lemma_compare_lex_trans, lower_chars, lower_seq, opt_chars,
    push_char, push_chars, push_str, replace_char, replace_char_exec, string_of, trim,
    trim_chars, trim_matches, trim_matches_chars, Order,
};

verus! {

/// The fixed namespace of item ids. Changing it would change every id.
pub const BOOTFLOW_NS: u128 = 0x6b1f7c2a_4d3e_4a11_9c8b_2f1a3d5e7f90u128;

/// The UUID (version 5, SHA-1 based) that `uuid` derives from a namespace
/// and the bytes of a name, in hyphenated lower-case text.
pub uninterp spec fn uuid_v5_text(namespace: u128, seed: Seq<char>) -> Seq<char>;

/// `Uuid::new_v5(&Uuid::from_u128(namespace), seed.as_bytes()).to_string()`.
/// The result is the named value `uuid_v5_text` of the namespace and the
/// seed, in `uuid`'s hyphenated form (`Display` writes `as_hyphenated`,
/// whose `LENGTH` is 36); what the digits are (a SHA-1 digest) is not stated.
#[verifier::external_body]
pub(crate) fn uuid_v5(namespace: u128, seed: &str) -> (r: String)
    ensures
        r@ == uuid_v5_text(namespace, seed@),
        r@.len() == 36,
{
    uuid::Uuid::new_v5(&uuid::Uuid::from_u128(namespace), seed.as_bytes()).to_string()
}

/// Quotes and surrounding blanks removed, `/` turned into `\`, ASCII
/// lower-cased.
pub open spec fn normalize_path_spec(p: Seq<char>) -> Seq<char> {
    lower_seq(replace_char(trim(trim_matches(trim(p), '"')), '/', '\\'))
}

/// Normalises a path so that case, quotes and separators do not matter.
pub fn normalize_path(path: &str) -> (r: String)
    ensures
        r@ == normalize_path_spec(path@),
{
    let a = trim_chars(chars_of(path).as_slice());
    let b = trim_matches_chars(a.as_slice(), '"');
    let c = trim_chars(b.as_slice());
    let d = replace_char_exec(c.as_slice(), '/', '\\');
    let e = lower_chars(d.as_slice());
    string_of(e.as_slice())
}

/// The trimmed arguments that are not blank, in order.
pub open spec fn arg_parts(args: Seq<String>) -> Seq<Seq<char>>
    decreases args.len(),
{
    if args.len() == 0 {
        Seq::empty()
    } else {
        let rest = arg_parts(args.drop_last());
        let t = trim(args.last()@);
        if t.len() > 0 {
            rest.push(t)
        } else {
            rest
        }
    }
}

/// The parts joined with `sep` between them.
pub open spec fn join(parts: Seq<Seq<char>>, sep: Seq<char>) -> Seq<char>
    decreases parts.len(),
{
    if parts.len() == 0 {
        Seq::empty()
    } else if parts.len() == 1 {
        parts[0]
    } else {
        join(parts.drop_last(), sep) + sep + parts.last()
    }
}

pub open spec fn normalize_args_spec(args: Seq<String>) -> Seq<char> {
    join(arg_parts(args), seq![' '])
}

proof fn lemma_join_empty(parts: Seq<Seq<char>>, sep: Seq<char>)
    requires
        forall|i: int| 0 <= i < parts.len() ==> #[trigger] parts[i].len() > 0,
    ensures
        (join(parts, sep).len() == 0) == (parts.len() == 0),
    decreases parts.len(),
{
    if parts.len() > 1 {
        lemma_join_empty(parts.drop_last(), sep);
    }
}

proof fn lemma_arg_parts_nonblank(args: Seq<String>)
    ensures
        forall|i: int| 0 <= i < arg_parts(args).len() ==> #[trigger] arg_parts(args)[i].len() > 0,
    decreases args.len(),
{
    if args.len() > 0 {
        lemma_arg_parts_nonblank(args.drop_last());
        let rest = arg_parts(args.drop_last());
        assert forall|i: int| 0 <= i < arg_parts(args).len() implies #[trigger] arg_parts(args)[i].len() > 0 by {
            if i < rest.len() {
                assert(arg_parts(args)[i] == rest[i]);
            }
        }
    }
}

/// Each argument trimmed, blank ones dropped, joined by single spaces.
/// The case is kept.
pub fn normalize_args(args: &[String]) -> (r: String)
    ensures
        r@ == normalize_args_spec(args@),
{
    let mut out = String::new();
    let mut i: usize = 0;
    assert(args@.take(0) =~= Seq::<String>::empty());
    while i < args.len()
        invariant
            i <= args.len(),
            out@ == join(arg_parts(args@.take(i as int)), seq![' ']),
        decreases args.len() - i,
    {
        proof {
            lemma_arg_parts_nonblank(args@.take(i as int));
            lemma_join_empty(arg_parts(args@.take(i as int)), seq![' ']);
        }
        let ghost prev = args@.take(i as int);
        assert(args@.take(i + 1).drop_last() =~= prev);
        let t = trim_chars(chars_of(args[i].as_str()).as_slice());
        if t.len() > 0 {
            if !out.as_str().is_empty() {
                push_char(&mut out, ' ');
            }
            push_chars(&mut out, t.as_slice());
            proof {
                let parts = arg_parts(prev).push(t@);
                assert(parts.drop_last() =~= arg_parts(prev));
            }
        }
        i = i + 1;
    }
    assert(args@.take(args.len() as int) =~= args@);
    out
}

pub open spec fn identity_key_spec(path: Seq<char>, args: Seq<String>) -> Seq<char> {
    let p = normalize_path_spec(path);
    let a = normalize_args_spec(args);
    if a.len() == 0 {
        p
    } else {
        p + seq!['#'] + a
    }
}

/// Exact identity of an entry: normalised path, then `#` and the
/// normalised arguments when there are any.
pub fn identity_key(resolved_path: &str, args: &[String]) -> (r: String)
    ensures
        r@ == identity_key_spec(resolved_path@, args@),
{
    let p = normalize_path(resolved_path);
    let a = normalize_args(args);
    if a.as_str().is_empty() {
        p
    } else {
        let mut s = p;
        push_char(&mut s, '#');
        push_str(&mut s, a.as_str());
        s
    }
}

pub open spec fn program_key_spec(path: Seq<char>) -> Seq<char> {
    normalize_path_spec(path)
}

/// Program identity: the normalised path only.
pub fn program_key(resolved_path: &str) -> (r: String)
    ensures
        r@ == program_key_spec(resolved_path@),
{
    normalize_path(resolved_path)
}

/// The separator used inside id seeds; it cannot occur in locations or names.
pub open spec fn unit_sep() -> char {
    '\u{1f}'
}

pub open spec fn discriminator_spec(location: Seq<char>, name: Seq<char>) -> Seq<char> {
    location + seq![unit_sep()] + name
}

/// What tells an item apart from others of the same source: its location
/// and raw name, joined by the unit separator.
pub fn discriminator_of(it: &StartupItem) -> (r: String)
    ensures
        r@ == discriminator_spec(it.location@, it.name@),
{
    let mut s = String::new();
    push_str(&mut s, it.location.as_str());
    push_char(&mut s, '\u{1f}');
    push_str(&mut s, it.name.as_str());
    s
}

pub open spec fn id_seed(source: Seq<char>, identity: Seq<char>, discriminator: Seq<char>) -> Seq<char> {
    source + seq![unit_sep()] + identity + seq![unit_sep()] + discriminator
}

/// The stable id of an item: the version-5 UUID of source, identity and
/// discriminator joined by the unit separator, in the fixed namespace.
pub fn stable_id(source: &str, identity: &str, discriminator: &str) -> (r: String)
    ensures
        r@ == uuid_v5_text(BOOTFLOW_NS, id_seed(source@, identity@, discriminator@)),
        r@.len() == 36,
{
    let mut seed = String::new();
    push_str(&mut seed, source);
    push_char(&mut seed, '\u{1f}');
    push_str(&mut seed, identity);
    push_char(&mut seed, '\u{1f}');
    push_str(&mut seed, discriminator);
    assert(seed@ =~= id_seed(source@, identity@, discriminator@));
    uuid_v5(BOOTFLOW_NS, seed.as_str())
}

// ───────────────────────── duplicates ─────────────────────────

/// Items that take part in duplicate detection: not broken, an autostart
/// entry, with a non-empty path.
pub open spec fn dedup_eligible(it: StartupItem) -> bool {
    &&& !is_broken_spec(it.validity)
    &&& is_autostart_spec(it.source)
    &&& program_key_spec(it.resolved_path@).len() > 0
}

pub open spec fn in_group(it: StartupItem, key: Seq<char>) -> bool {
    dedup_eligible(it) && program_key_spec(it.resolved_path@) == key
}

/// `a` is kept in preference to `b`: enabled first, then the source's
/// keep rank, then the smaller id.
pub open spec fn keep_before(a: StartupItem, b: StartupItem) -> bool {
    let da: int = if a.enabled { 0 } else { 1 };
    let db: int = if b.enabled { 0 } else { 1 };
    let ra = keep_rank_spec(a.source);
    let rb = keep_rank_spec(b.source);
    ||| da < db
    ||| (da == db && ra < rb)
    ||| (da == db && ra == rb && compare_lex(a.id@, b.id@) == Order::Less)
}

/// The representative among the first `n` items of group `key`: the first
/// one that no later one is kept in preference to.
pub open spec fn group_rep(s: Seq<StartupItem>, key: Seq<char>, n: int) -> Option<int>
    decreases n,
{
    if n <= 0 {
        None
    } else {
        let prev = group_rep(s, key, n - 1);
        if in_group(s[n - 1], key) {
            match prev {
                None => Some(n - 1),
                Some(p) => if keep_before(s[n - 1], s[p]) {
                    Some(n - 1)
                } else {
                    Some(p)
                },
            }
        } else {
            prev
        }
    }
}

/// How many of the first `n` items are in group `key`.
pub open spec fn group_size(s: Seq<StartupItem>, key: Seq<char>, n: int) -> nat
    decreases n,
{
    if n <= 0 {
        0
    } else {
        group_size(s, key, n - 1) + if in_group(s[n - 1], key) {
            1nat
        } else {
            0nat
        }
    }
}

proof fn lemma_group_rep_none(s: Seq<StartupItem>, key: Seq<char>, n: int)
    ensures
        (group_rep(s, key, n) is None) == (group_size(s, key, n) == 0),
        group_rep(s, key, n) matches Some(j) ==> 0 <= j < n && in_group(s[j], key),
    decreases n,
{
    if n > 0 {
        lemma_group_rep_none(s, key, n - 1);
    }
}

proof fn lemma_group_size_member(s: Seq<StartupItem>, key: Seq<char>, n: int, i: int)
    requires
        0 <= i < n,
        in_group(s[i], key),
    ensures
        group_size(s, key, n) > 0,
    decreases n,
{
    if i < n - 1 {
        lemma_group_size_member(s, key, n - 1, i);
    }
}

/// Item `i` is an extra entry of a program that has another one.
pub open spec fn dup_marked(s: Seq<StartupItem>, i: int) -> bool {
    let key = program_key_spec(s[i].resolved_path@);
    &&& in_group(s[i], key)
    &&& group_size(s, key, s.len() as int) >= 2
    &&& group_rep(s, key, s.len() as int) != Some(i)
}

/// The representative of item `i`'s group.
pub open spec fn rep_of(s: Seq<StartupItem>, i: int) -> StartupItem {
    s[group_rep(s, program_key_spec(s[i].resolved_path@), s.len() as int)->0]
}

pub open spec fn rep_name(rep: StartupItem) -> Seq<char> {
    match rep.display_name {
        Some(d) => d@,
        None => rep.name@,
    }
}

/// The explanation given to a marked item.
pub open spec fn dup_detail(it: StartupItem, rep: StartupItem) -> Seq<char> {
    if !it.enabled {
        "和「"@ + rep_name(rep) + "」指向同一个程序，而这一条已经停用了"@
    } else if it.identity_key@ == rep.identity_key@ {
        "和「"@ + rep_name(rep) + "」完全重复：同一个程序、同样的启动参数"@
    } else {
        "和「"@ + rep_name(rep) + "」指向同一个程序，但启动参数不同，两个入口都会被拉起"@
    }
}

/// How many of the first `n` items are marked.
pub open spec fn marked_count(s: Seq<StartupItem>, n: int) -> nat
    decreases n,
{
    if n <= 0 {
        0
    } else {
        marked_count(s, n - 1) + if dup_marked(s, n - 1) {
            1nat
        } else {
            0nat
        }
    }
}

/// What duplicate marking does to item `i`: a marked item becomes
/// `Duplicate` (still enabled) or `DisabledRemnant` (disabled), points at
/// its representative and gets an explanation; every other field stays.
pub open spec fn dedup_result(s: Seq<StartupItem>, i: int, r: StartupItem) -> bool {
    if dup_marked(s, i) {
        let it = s[i];
        let rep = rep_of(s, i);
        &&& r == StartupItem {
            validity: r.validity,
            duplicate_of: r.duplicate_of,
            validity_detail: r.validity_detail,
            ..it
        }
        &&& r.validity == (if it.enabled {
            ValidityStatus::Duplicate
        } else {
            ValidityStatus::DisabledRemnant
        })
        &&& opt_chars(r.duplicate_of) == Some(rep.id@)
        &&& opt_chars(r.validity_detail) == Some(dup_detail(it, rep))
    } else {
        r == s[i]
    }
}

/// Whether `a` is kept in preference to `b`.
fn keep_before_exec(a: &StartupItem, b: &StartupItem) -> (r: bool)
    ensures
        r == keep_before(*a, *b),
{
    let da: u8 = if a.enabled { 0 } else { 1 };
    let db: u8 = if b.enabled { 0 } else { 1 };
    let ra = a.source.keep_rank();
    let rb = b.source.keep_rank();
    if da != db {
        return da < db;
    }
    if ra != rb {
        return ra < rb;
    }
    let ia = chars_of(a.id.as_str());
    let ib = chars_of(b.id.as_str());
    compare_lex_exec(ia.as_slice(), ib.as_slice()) == Order::Less
}

/// Program key and eligibility of every item.
fn group_keys(items: &Vec<StartupItem>) -> (r: (Vec<Vec<char>>, Vec<bool>))
    ensures
        r.0.len() == items.len(),
        r.1.len() == items.len(),
        forall|i: int| 0 <= i < items.len() ==> (#[trigger] r.0[i])@ == program_key_spec(items@[i].resolved_path@),
        forall|i: int| 0 <= i < items.len() ==> #[trigger] r.1[i] == dedup_eligible(items@[i]),
{
    let mut keys: Vec<Vec<char>> = Vec::new();
    let mut ok: Vec<bool> = Vec::new();
    let mut i: usize = 0;
    while i < items.len()
        invariant
            i <= items.len(),
            keys.len() == i,
            ok.len() == i,
            forall|j: int| 0 <= j < i ==> (#[trigger] keys[j])@ == program_key_spec(items@[j].resolved_path@),
            forall|j: int| 0 <= j < i ==> #[trigger] ok[j] == dedup_eligible(items@[j]),
        decreases items.len() - i,
    {
        let it = &items[i];
        let k = chars_of(program_key(it.resolved_path.as_str()).as_str());
        let e = !it.validity.is_broken() && it.source.is_autostart_entry() && k.len() > 0;
        keys.push(k);
        ok.push(e);
        i = i + 1;
    }
    (keys, ok)
}

/// The representative and size of the group `key`.
fn find_rep(items: &Vec<StartupItem>, keys: &Vec<Vec<char>>, ok: &Vec<bool>, key: &Vec<char>) -> (r: (
    Option<usize>,
    usize,
))
    requires
        keys.len() == items.len(),
        ok.len() == items.len(),
        forall|i: int| 0 <= i < items.len() ==> (#[trigger] keys[i])@ == program_key_spec(items@[i].resolved_path@),
        forall|i: int| 0 <= i < items.len() ==> #[trigger] ok[i] == dedup_eligible(items@[i]),
    ensures
        match r.0 {
            Some(j) => j < items.len() && group_rep(items@, key@, items.len() as int) == Some(j as int),
            None => group_rep(items@, key@, items.len() as int) is None,
        },
        r.1 == group_size(items@, key@, items.len() as int),
{
    let mut best: Option<usize> = None;
    let mut size: usize = 0;
    let mut j: usize = 0;
    while j < items.len()
        invariant
            j <= items.len(),
            keys.len() == items.len(),
            ok.len() == items.len(),
            forall|i: int| 0 <= i < items.len() ==> (#[trigger] keys[i])@ == program_key_spec(items@[i].resolved_path@),
            forall|i: int| 0 <= i < items.len() ==> #[trigger] ok[i] == dedup_eligible(items@[i]),
            size == group_size(items@, key@, j as int),
            size <= j,
            match best {
                Some(b) => b < j && group_rep(items@, key@, j as int) == Some(b as int),
                None => group_rep(items@, key@, j as int) is None,
            },
        decreases items.len() - j,
    {
        if ok[j] && chars_eq(keys[j].as_slice(), key.as_slice()) {
            size = size + 1;
            best = match best {
                None => Some(j),
                Some(b) => if keep_before_exec(&items[j], &items[b]) {
                    Some(j)
                } else {
                    Some(b)
                },
            };
        }
        j = j + 1;
    }
    (best, size)
}

/// The explanation for a marked item.
fn dup_detail_exec(it: &StartupItem, rep: &StartupItem) -> (r: String)
    ensures
        r@ == dup_detail(*it, *rep),
{
    let mut s = String::new();
    push_str(&mut s, "和「");
    match &rep.display_name {
        Some(d) => push_str(&mut s, d.as_str()),
        None => push_str(&mut s, rep.name.as_str()),
    }
    if !it.enabled {
        push_str(&mut s, "」指向同一个程序，而这一条已经停用了");
    } else if it.identity_key == rep.identity_key {
        push_str(&mut s, "」完全重复：同一个程序、同样的启动参数");
    } else {
        push_str(&mut s, "」指向同一个程序，但启动参数不同，两个入口都会被拉起");
    }
    s
}

/// Marks extra autostart entries of the same program and returns how many
/// were marked.
///
/// Broken items and services, tasks and hooks take no part. Items are
/// grouped by `program_key`; a group of two or more keeps one
/// representative (enabled first, then by source rank, then by id) and
/// marks the others: `Duplicate` when still enabled, `DisabledRemnant`
/// when already disabled.
///
/// Groups are found by comparing keys along the list instead of in a
/// `HashMap<String, Vec<usize>>`: vstd specifies `HashMap` lookups only
/// under `obeys_key_model::<K>()`, which holds for integer keys and cannot
/// be established for `String`, so such a map would leave the grouping
/// unstated. Over the sequence itself, which group an item falls in and
/// which member represents it are stated exactly (`group_rep`,
/// `group_size`).
pub fn mark_duplicates(items: &mut Vec<StartupItem>) -> (count: usize)
    ensures
        final(items)@.len() == old(items)@.len(),
        count == marked_count(old(items)@, old(items)@.len() as int),
        forall|i: int| 0 <= i < old(items)@.len() ==> dedup_result(old(items)@, i, #[trigger] final(items)@[i]),
{
    let ghost s = items@;
    let n = items.len();
    let (keys, ok) = group_keys(items);
    // decisions first, from the unchanged items
    let mut plan: Vec<Option<(usize, String, String)>> = Vec::new();
    let mut i: usize = 0;
    while i < n
        invariant
            n == items.len(),
            items@ == s,
            i <= n,
            plan.len() == i,
            keys.len() == n,
            ok.len() == n,
            forall|k: int| 0 <= k < n ==> (#[trigger] keys[k])@ == program_key_spec(s[k].resolved_path@),
            forall|k: int| 0 <= k < n ==> #[trigger] ok[k] == dedup_eligible(s[k]),
            forall|k: int| 0 <= k < i ==> match #[trigger] plan[k] {
                Some(p) => dup_marked(s, k) && group_rep(s, program_key_spec(s[k].resolved_path@), n as int) == Some(p.0 as int)
                    && p.1@ == rep_of(s, k).id@ && p.2@ == dup_detail(s[k], rep_of(s, k)),
                None => !dup_marked(s, k),
            },
        decreases n - i,
    {
        let mut decision: Option<(usize, String, String)> = None;
        proof {
            lemma_group_rep_none(s, program_key_spec(s[i as int].resolved_path@), n as int);
            if ok[i as int] {
                assert(group_size(s, program_key_spec(s[i as int].resolved_path@), n as int) > 0) by {
                    lemma_group_size_member(s, program_key_spec(s[i as int].resolved_path@), n as int, i as int);
                }
            }
        }
        if ok[i] {
            let (rep, size) = find_rep(items, &keys, &ok, &keys[i]);
            match rep {
                Some(r) => {
                    if size >= 2 && r != i {
                        let rid = items[r].id.clone();
                        let detail = dup_detail_exec(&items[i], &items[r]);
                        decision = Some((r, rid, detail));
                    }
                },
                None => {},
            }
        }
        plan.push(decision);
        i = i + 1;
    }
    // then apply them
    let mut count: usize = 0;
    let mut i: usize = 0;
    while i < n
        invariant
            n == items.len(),
            n == s.len(),
            i <= n,
            plan.len() == n,
            count == marked_count(s, i as int),
            count <= i,
            forall|k: int| 0 <= k < n ==> match #[trigger] plan[k] {
                Some(p) => dup_marked(s, k) && group_rep(s, program_key_spec(s[k].resolved_path@), n as int) == Some(p.0 as int)
                    && p.1@ == rep_of(s, k).id@ && p.2@ == dup_detail(s[k], rep_of(s, k)),
                None => !dup_marked(s, k),
            },
            forall|k: int| 0 <= k < i ==> dedup_result(s, k, #[trigger] items@[k]),
            forall|k: int| i <= k < n ==> #[trigger] items@[k] == s[k],
        decreases n - i,
    {
        match &plan[i] {
            Some(p) => {
                let mut it = items.remove(i);
                it.validity = if it.enabled {
                    ValidityStatus::Duplicate
                } else {
                    ValidityStatus::DisabledRemnant
                };
                it.duplicate_of = Some(p.1.clone());
                it.validity_detail = Some(p.2.clone());
                items.insert(i, it);
                count = count + 1;
            },
            None => {},
        }
        i = i + 1;
    }
    count
}

// ───────────────────────── laws of duplicate marking ─────────────────────────

proof fn lemma_keep_before_trans(a: StartupItem, b: StartupItem, c: StartupItem)
    requires
        keep_before(a, b),
        keep_before(b, c),
    ensures
        keep_before(a, c),
{
    if compare_lex(a.id@, b.id@) == Order::Less && compare_lex(b.id@, c.id@) == Order::Less {
        lemma_compare_lex_trans(a.id@, b.id@, c.id@);
    }
}

proof fn lemma_keep_before_total(a: StartupItem, b: StartupItem)
    requires
        a.id@ != b.id@,
    ensures
        keep_before(a, b) || keep_before(b, a),
{
    lemma_compare_lex_flip(a.id@, b.id@);
    if compare_lex(a.id@, b.id@) == Order::Equal {
        lemma_compare_lex_equal(a.id@, b.id@);
    }
}

proof fn lemma_keep_before_irreflexive(a: StartupItem)
    ensures
        !keep_before(a, a),
{
    crate::text::lemma_compare_lex_refl(a.id@);
}

proof fn lemma_group_rep_least(s: Seq<StartupItem>, key: Seq<char>, n: int)
    requires
        n <= s.len(),
    ensures
        group_rep(s, key, n) matches Some(p) ==> forall|k: int|
            0 <= k < n && in_group(#[trigger] s[k], key) ==> !keep_before(s[k], s[p]),
    decreases n,
{
    if n > 0 {
        lemma_group_rep_least(s, key, n - 1);
        lemma_group_rep_none(s, key, n - 1);
        let x = s[n - 1];
        if let Some(p) = group_rep(s, key, n) {
            assert forall|k: int| 0 <= k < n && in_group(#[trigger] s[k], key) implies !keep_before(
                s[k],
                s[p],
            ) by {
                if k == p {
                    lemma_keep_before_irreflexive(s[k]);
                } else {
                    match group_rep(s, key, n - 1) {
                        None => {
                            if k < n - 1 {
                                lemma_group_size_member(s, key, n - 1, k);
                            }
                        },
                        Some(q) => {
                            if p == n - 1 && k < n - 1 {
                                if keep_before(s[k], x) {
                                    lemma_keep_before_trans(s[k], x, s[q]);
                                }
                            }
                        },
                    }
                }
            }
        }
    }
}

/// Which entry of a group is kept does not depend on the order in which
/// the items were listed: the representative is preferred (`keep_before`)
/// to every other member whose id differs from its own.
pub proof fn lemma_representative_is_preferred(s: Seq<StartupItem>, k: int)
    requires
        0 <= k < s.len(),
        dedup_eligible(s[k]),
        rep_of(s, k).id@ != s[k].id@,
    ensures
        keep_before(rep_of(s, k), s[k]),
{
    let key = program_key_spec(s[k].resolved_path@);
    lemma_group_size_member(s, key, s.len() as int, k);
    lemma_group_rep_none(s, key, s.len() as int);
    lemma_group_rep_least(s, key, s.len() as int);
    lemma_keep_before_total(rep_of(s, k), s[k]);
}

/// An enabled entry is never marked in favour of a disabled one: when a
/// group has an enabled member, its representative is enabled.
pub proof fn lemma_enabled_entry_is_kept(s: Seq<StartupItem>, k: int)
    requires
        0 <= k < s.len(),
        dedup_eligible(s[k]),
        s[k].enabled,
    ensures
        rep_of(s, k).enabled,
{
    let key = program_key_spec(s[k].resolved_path@);
    lemma_group_size_member(s, key, s.len() as int, k);
    lemma_group_rep_none(s, key, s.len() as int);
    lemma_group_rep_least(s, key, s.len() as int);
}

/// Entries of different programs are never merged, and every group keeps
/// one entry: a marked entry points at its group's representative, which
/// runs the same program (same normalised path) and is itself not marked.
pub proof fn lemma_duplicate_points_to_a_kept_entry(s: Seq<StartupItem>, i: int)
    requires
        0 <= i < s.len(),
        dup_marked(s, i),
    ensures
        group_rep(s, program_key_spec(s[i].resolved_path@), s.len() as int) matches Some(j) && {
            &&& 0 <= j < s.len()
            &&& j != i
            &&& rep_of(s, i) == s[j]
            &&& program_key_spec(s[j].resolved_path@) == program_key_spec(s[i].resolved_path@)
            &&& !dup_marked(s, j)
        },
{
    let key = program_key_spec(s[i].resolved_path@);
    lemma_group_size_member(s, key, s.len() as int, i);
    lemma_group_rep_none(s, key, s.len() as int);
}

proof fn lemma_two_members(s: Seq<StartupItem>, key: Seq<char>, n: int, i: int, j: int)
    requires
        0 <= i < n,
        0 <= j < n,
        i != j,
        in_group(s[i], key),
        in_group(s[j], key),
    ensures
        group_size(s, key, n) >= 2,
    decreases n,
{
    if i == n - 1 {
        lemma_group_size_member(s, key, n - 1, j);
    } else if j == n - 1 {
        lemma_group_size_member(s, key, n - 1, i);
    } else {
        lemma_two_members(s, key, n - 1, i, j);
    }
}

/// Item `i` represents its group: it takes part and is the one kept.
pub open spec fn is_rep(s: Seq<StartupItem>, i: int) -> bool {
    dedup_eligible(s[i]) && group_rep(s, program_key_spec(s[i].resolved_path@), s.len() as int) == Some(i)
}

/// How many of the first `n` items take part in duplicate detection.
pub open spec fn eligible_count(s: Seq<StartupItem>, n: int) -> nat
    decreases n,
{
    if n <= 0 {
        0
    } else {
        eligible_count(s, n - 1) + if dedup_eligible(s[n - 1]) { 1nat } else { 0nat }
    }
}

/// How many of the first `n` items represent their group: one per group.
pub open spec fn rep_count(s: Seq<StartupItem>, n: int) -> nat
    decreases n,
{
    if n <= 0 {
        0
    } else {
        rep_count(s, n - 1) + if is_rep(s, n - 1) { 1nat } else { 0nat }
    }
}

/// Every group keeps exactly its representative and marks all its other
/// members, so the number marked is the sum over the groups of their size
/// less one: the entries that take part, less one per group.
pub proof fn lemma_marked_count_is_sum_over_groups(s: Seq<StartupItem>, n: int)
    requires
        0 <= n <= s.len(),
    ensures
        marked_count(s, n) + rep_count(s, n) == eligible_count(s, n),
    decreases n,
{
    if n > 0 {
        lemma_marked_count_is_sum_over_groups(s, n - 1);
        let i = n - 1;
        let key = program_key_spec(s[i].resolved_path@);
        let len = s.len() as int;
        if dedup_eligible(s[i]) {
            lemma_group_size_member(s, key, len, i);
            lemma_group_rep_none(s, key, len);
            let j = group_rep(s, key, len)->0;
            if group_size(s, key, len) < 2 && j != i {
                lemma_two_members(s, key, len, i, j);
            }
        }
    }
}

/// Whether an entry is marked does not depend on the order of the list:
/// when ids differ, an entry is marked exactly when another entry of the
/// same program is preferred to it (`keep_before`), which is a statement
/// about the set of entries alone.
pub proof fn lemma_marking_ignores_order(s: Seq<StartupItem>, i: int)
    requires
        0 <= i < s.len(),
        forall|a: int, b: int| 0 <= a < b < s.len() ==> (#[trigger] s[a]).id@ != (#[trigger] s[b]).id@,
    ensures
        dup_marked(s, i) <==> (dedup_eligible(s[i]) && exists|j: int| 0 <= j < s.len() && j != i
            && in_group(#[trigger] s[j], program_key_spec(s[i].resolved_path@)) && keep_before(s[j], s[i])),
{
    let key = program_key_spec(s[i].resolved_path@);
    let len = s.len() as int;
    lemma_group_rep_none(s, key, len);
    lemma_group_rep_least(s, key, len);
    if dup_marked(s, i) {
        let j = group_rep(s, key, len)->0;
        assert(s[i].id@ != s[j].id@) by {
            if i < j { assert(s[i].id@ != s[j].id@); } else { assert(s[j].id@ != s[i].id@); }
        }
        lemma_keep_before_total(s[j], s[i]);
        assert(in_group(s[j], key) && keep_before(s[j], s[i]));
    }
    if dedup_eligible(s[i]) && exists|j: int| 0 <= j < s.len() && j != i
        && in_group(#[trigger] s[j], key) && keep_before(s[j], s[i]) {
        let j = choose|j: int| 0 <= j < s.len() && j != i && in_group(#[trigger] s[j], key) && keep_before(s[j], s[i]);
        lemma_two_members(s, key, len, i, j);
    }
}

/// Duplicate marking as a whole, for a list whose ids are distinct. An
/// entry is marked exactly when it takes part and another entry of the
/// same program is preferred to it; a marked entry's group is kept by its
/// representative, an entry of the same program that is preferred to every
/// other member and is not marked itself; and the number marked is, over
/// the groups, their size less one (the entries that take part, less one
/// per group). What marking writes into each entry is `dedup_result`, the
/// contract of `mark_duplicates`.
pub proof fn lemma_duplicate_marking(s: Seq<StartupItem>)
    requires
        forall|a: int, b: int| 0 <= a < b < s.len() ==> (#[trigger] s[a]).id@ != (#[trigger] s[b]).id@,
    ensures
        forall|i: int| 0 <= i < s.len() ==> (dup_marked(s, i) <==> (dedup_eligible(#[trigger] s[i])
            && exists|j: int| 0 <= j < s.len() && j != i
                && in_group(#[trigger] s[j], program_key_spec(s[i].resolved_path@)) && keep_before(s[j], s[i]))),
        forall|i: int| 0 <= i < s.len() && #[trigger] dup_marked(s, i) ==> {
            &&& in_group(rep_of(s, i), program_key_spec(s[i].resolved_path@))
            &&& exists|r: int| 0 <= r < s.len() && r != i && s[r] == rep_of(s, i) && !#[trigger] dup_marked(s, r)
            &&& forall|j: int| 0 <= j < s.len() && in_group(#[trigger] s[j], program_key_spec(s[i].resolved_path@))
                && s[j].id@ != rep_of(s, i).id@ ==> keep_before(rep_of(s, i), s[j])
        },
        marked_count(s, s.len() as int) + rep_count(s, s.len() as int) == eligible_count(s, s.len() as int),
{
    let len = s.len() as int;
    assert forall|i: int| 0 <= i < s.len() implies (dup_marked(s, i) <==> (dedup_eligible(#[trigger] s[i])
        && exists|j: int| 0 <= j < s.len() && j != i
            && in_group(#[trigger] s[j], program_key_spec(s[i].resolved_path@)) && keep_before(s[j], s[i]))) by {
        lemma_marking_ignores_order(s, i);
    }
    assert forall|i: int| 0 <= i < s.len() && #[trigger] dup_marked(s, i) implies {
        &&& in_group(rep_of(s, i), program_key_spec(s[i].resolved_path@))
        &&& exists|r: int| 0 <= r < s.len() && r != i && s[r] == rep_of(s, i) && !#[trigger] dup_marked(s, r)
        &&& forall|j: int| 0 <= j < s.len() && in_group(#[trigger] s[j], program_key_spec(s[i].resolved_path@))
            && s[j].id@ != rep_of(s, i).id@ ==> keep_before(rep_of(s, i), s[j])
    } by {
        let key = program_key_spec(s[i].resolved_path@);
        lemma_duplicate_points_to_a_kept_entry(s, i);
        lemma_group_rep_none(s, key, len);
        let r = group_rep(s, key, len)->0;
        assert(0 <= r < s.len() && r != i && s[r] == rep_of(s, i) && !dup_marked(s, r));
        assert(in_group(rep_of(s, i), key));
        assert forall|j: int| 0 <= j < s.len() && in_group(#[trigger] s[j], key)
            && s[j].id@ != rep_of(s, i).id@ implies keep_before(rep_of(s, i), s[j]) by {
            assert(rep_of(s, j) == rep_of(s, i));
            lemma_representative_is_preferred(s, j);
        }
    }
    lemma_marked_count_is_sum_over_groups(s, len);
}

/// A startup-folder entry is kept in preference to a `Run` or `RunOnce`
/// entry of the same program: when both are enabled and take part (ids
/// distinct), the `Run`/`RunOnce` entry is marked, and the entry kept for
/// the program is itself one in a startup folder.
pub proof fn lemma_startup_folder_is_kept_over_run_keys(s: Seq<StartupItem>, f: int, r: int)
    requires
        forall|a: int, b: int| 0 <= a < b < s.len() ==> (#[trigger] s[a]).id@ != (#[trigger] s[b]).id@,
        0 <= f < s.len(),
        0 <= r < s.len(),
        dedup_eligible(s[f]),
        dedup_eligible(s[r]),
        program_key_spec(s[f].resolved_path@) == program_key_spec(s[r].resolved_path@),
        s[f].enabled,
        s[r].enabled,
        s[f].source is StartupFolderMachine || s[f].source is StartupFolderUser,
        s[r].source is RunMachine || s[r].source is RunMachine32 || s[r].source is RunUser
            || s[r].source is RunOnceMachine || s[r].source is RunOnceMachine32 || s[r].source is RunOnceUser,
    ensures
        dup_marked(s, r),
        rep_of(s, r).source is StartupFolderMachine || rep_of(s, r).source is StartupFolderUser,
{
    let key = program_key_spec(s[r].resolved_path@);
    crate::model::lemma_keep_rank_follows_keep_order();
    let o = crate::model::keep_order();
    assert(o[0] == crate::model::SourceKind::StartupFolderMachine && o[1] == crate::model::SourceKind::StartupFolderUser);
    assert(o[4] == crate::model::SourceKind::RunMachine && o[5] == crate::model::SourceKind::RunMachine32 && o[6] == crate::model::SourceKind::RunUser);
    assert(o[7] == crate::model::SourceKind::RunOnceMachine && o[8] == crate::model::SourceKind::RunOnceMachine32 && o[9] == crate::model::SourceKind::RunOnceUser);
    assert(keep_rank_spec(s[f].source) < keep_rank_spec(s[r].source));
    assert(f != r);
    assert(keep_before(s[f], s[r]));
    assert(in_group(s[f], key));
    lemma_marking_ignores_order(s, r);
    assert(dup_marked(s, r));
    assert(rep_of(s, f) == rep_of(s, r));
    lemma_enabled_entry_is_kept(s, f);
    if rep_of(s, f).id@ != s[f].id@ {
        lemma_representative_is_preferred(s, f);
    } else {
        lemma_duplicate_points_to_a_kept_entry(s, r);
        let j = group_rep(s, key, s.len() as int)->0;
        assert(s[j].id@ == s[f].id@);
        if j != f {
            if j < f { assert(s[j].id@ != s[f].id@); } else { assert(s[f].id@ != s[j].id@); }
        }
    }
}

} // verus!
