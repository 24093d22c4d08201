//! Update check: is there a release on GitHub newer than the running build?
//!
//! A failed check is never reported as "up to date": when the request, the
//! rate limit or the data go wrong, the result says that the check failed
//! and why.

use vstd::prelude::*;
use crate::error::AppError;
use crate::text::{
    after_last, after_last_exec, after_stop, after_stop_exec, before_stop, before_stop_exec,
    chars_eq, chars_of, compare_int, compare_lex, compare_lex_exec, contains, contains_exec,
    copy_chars, decimal, ends_with, ends_with_exec, first_stop, flip, lemma_compare_lex_flip,
    lemma_compare_lex_refl, lemma_compare_lex_equal, lemma_compare_lex_trans, lemma_first_stop,
    lemma_cut_at, lemma_decimal_spells, lemma_no_cut, lemma_trim_unchanged, lemma_trimmed_ends, is_digit, lower_chars, lower_seq, one_char, opt_chars,
    parse_u64, parse_u64_spec, push_chars, push_char, push_decimal, push_str, slice_of,
    starts_with, starts_with_exec, string_of, three_chars, trim, trim_chars, trimmed, Order,
};

verus! {

/// The project's repository; releases are looked up there only.
pub const REPO: &'static str = "TEGCeylonQi/bootflow";

/// The version of this build.
pub const VERSION: &'static str = "0.2.0";

/// How many characters of release notes are kept.
pub const NOTES_LIMIT: usize = 1500;

/// What is appended to release notes that were cut.
pub const NOTES_TAIL: &'static str = "\n\n（说明过长，完整内容见发布页）";

/// The version compiled into this program.
pub fn current_version() -> (r: &'static str)
    ensures
        r@ == VERSION@,
{
    VERSION
}

// ───────────────────────── version numbers ─────────────────────────

/// A semantic version: three numbers and an optional pre-release tag.
/// Build metadata (`+build.5`) does not take part in ordering and is dropped.
#[derive(Debug, Clone, PartialEq, Eq)]
pub struct Version {
    pub major: u64,
    pub minor: u64,
    pub patch: u64,
    /// A pre-release tag makes the version older than the plain one.
    pub pre: Option<String>,
}

impl View for Version {
    type V = (u64, u64, u64, Option<Seq<char>>);

    open spec fn view(&self) -> Self::V {
        (self.major, self.minor, self.patch, opt_chars(self.pre))
    }
}

/// A leading `v` or `V` removed.
pub open spec fn strip_v(s: Seq<char>) -> Seq<char> {
    if s.len() > 0 && (s[0] == 'v' || s[0] == 'V') {
        s.drop_first()
    } else {
        s
    }
}

/// The trimmed tag without its `v` and its build metadata.
pub open spec fn version_core(raw: Seq<char>) -> Seq<char> {
    before_stop(strip_v(trim(raw)), seq!['+'])
}

/// The pre-release tag: what follows the first `-`, trimmed, unless empty.
pub open spec fn version_pre(raw: Seq<char>) -> Option<Seq<char>> {
    match after_stop(version_core(raw), seq!['-']) {
        Some(p) => if trim(p).len() > 0 {
            Some(trim(p))
        } else {
            None
        },
        None => None,
    }
}

/// The `k`-th dot-separated segment of `numbers`, if there are that many.
pub open spec fn segment(numbers: Seq<char>, k: nat) -> Option<Seq<char>>
    decreases k,
{
    if k == 0 {
        Some(before_stop(numbers, seq!['.']))
    } else {
        match after_stop(numbers, seq!['.']) {
            Some(rest) => segment(rest, (k - 1) as nat),
            None => None,
        }
    }
}

/// A missing segment counts as 0; a present one must parse as a number.
pub open spec fn segment_value(numbers: Seq<char>, k: nat) -> Option<u64> {
    match segment(numbers, k) {
        Some(p) => parse_u64_spec(trim(p)),
        None => Some(0u64),
    }
}

/// What `Version::parse` reads from `raw`.
pub open spec fn parse_version(raw: Seq<char>) -> Option<(u64, u64, u64, Option<Seq<char>>)> {
    let numbers = before_stop(version_core(raw), seq!['-']);
    match (segment_value(numbers, 0), segment_value(numbers, 1), segment_value(numbers, 2)) {
        (Some(a), Some(b), Some(c)) => Some((a, b, c, version_pre(raw))),
        _ => None,
    }
}

/// Order of two pre-release segments: numbers by value, numbers before
/// words, words lexicographically.
pub open spec fn compare_ident(x: Seq<char>, y: Seq<char>) -> Order {
    match (parse_u64_spec(x), parse_u64_spec(y)) {
        (Some(nx), Some(ny)) => compare_int(nx as int, ny as int),
        (Some(_), None) => Order::Less,
        (None, Some(_)) => Order::Greater,
        (None, None) => compare_lex(x, y),
    }
}

/// Order of two pre-release tags, segment by segment; a tag that runs out
/// of segments first is the smaller (`beta` < `beta.1`).
pub open spec fn compare_pre(a: Seq<char>, b: Seq<char>) -> Order
    decreases a.len() + b.len(),
{
    let o = compare_ident(before_stop(a, seq!['.']), before_stop(b, seq!['.']));
    if o != Order::Equal {
        o
    } else {
        match (after_stop(a, seq!['.']), after_stop(b, seq!['.'])) {
            (None, None) => Order::Equal,
            (None, Some(_)) => Order::Less,
            (Some(_), None) => Order::Greater,
            (Some(ra), Some(rb)) => compare_pre(ra, rb),
        }
    }
}

/// `a` is a newer version than `b`.
pub open spec fn newer(a: (u64, u64, u64, Option<Seq<char>>), b: (u64, u64, u64, Option<Seq<char>>)) -> bool {
    if a.0 != b.0 {
        a.0 > b.0
    } else if a.1 != b.1 {
        a.1 > b.1
    } else if a.2 != b.2 {
        a.2 > b.2
    } else {
        match (a.3, b.3) {
            (None, None) => false,
            (None, Some(_)) => true,
            (Some(_), None) => false,
            (Some(x), Some(y)) => compare_pre(x, y) == Order::Greater,
        }
    }
}

/// `major.minor.patch`, then `-pre` when there is a pre-release tag.
pub open spec fn version_text(v: (u64, u64, u64, Option<Seq<char>>)) -> Seq<char> {
    decimal(v.0 as nat) + seq!['.'] + decimal(v.1 as nat) + seq!['.'] + decimal(v.2 as nat)
        + match v.3 {
        Some(p) => seq!['-'] + p,
        None => Seq::empty(),
    }
}

fn segment_exec(numbers: &[char], k: u64) -> (r: Option<Vec<char>>)
    ensures
        match r {
            Some(p) => segment(numbers@, k as nat) == Some(p@),
            None => segment(numbers@, k as nat) is None,
        },
    decreases k,
{
    let dot = one_char('.');
    if k == 0 {
        Some(before_stop_exec(numbers, dot.as_slice()))
    } else {
        match after_stop_exec(numbers, dot.as_slice()) {
            Some(rest) => segment_exec(rest.as_slice(), k - 1),
            None => None,
        }
    }
}

fn segment_value_exec(numbers: &[char], k: u64) -> (r: Option<u64>)
    ensures
        r == segment_value(numbers@, k as nat),
{
    match segment_exec(numbers, k) {
        Some(p) => {
            let t = trim_chars(p.as_slice());
            parse_u64(t.as_slice())
        },
        None => Some(0),
    }
}

fn compare_ident_exec(x: &[char], y: &[char]) -> (r: Order)
    ensures
        r == compare_ident(x@, y@),
{
    match (parse_u64(x), parse_u64(y)) {
        (Some(nx), Some(ny)) => if nx < ny {
            Order::Less
        } else if nx > ny {
            Order::Greater
        } else {
            Order::Equal
        },
        (Some(_), None) => Order::Less,
        (None, Some(_)) => Order::Greater,
        (None, None) => compare_lex_exec(x, y),
    }
}

/// Order of two pre-release tags (semver rule 11).
pub fn compare_pre_exec(a: &[char], b: &[char]) -> (r: Order)
    ensures
        r == compare_pre(a@, b@),
{
    let dot = one_char('.');
    let mut ra = copy_chars(a);
    let mut rb = copy_chars(b);
    loop
        invariant
            compare_pre(a@, b@) == compare_pre(ra@, rb@),
            dot@ == seq!['.'],
        decreases ra@.len() + rb@.len(),
    {
        let x = before_stop_exec(ra.as_slice(), dot.as_slice());
        let y = before_stop_exec(rb.as_slice(), dot.as_slice());
        let o = compare_ident_exec(x.as_slice(), y.as_slice());
        if o != Order::Equal {
            return o;
        }
        let na = after_stop_exec(ra.as_slice(), dot.as_slice());
        let nb = after_stop_exec(rb.as_slice(), dot.as_slice());
        match (na, nb) {
            (None, None) => {
                return Order::Equal;
            },
            (None, Some(_)) => {
                return Order::Less;
            },
            (Some(_), None) => {
                return Order::Greater;
            },
            (Some(p), Some(q)) => {
                proof {
                    lemma_first_stop(ra@, seq!['.']);
                    lemma_first_stop(rb@, seq!['.']);
                }
                ra = p;
                rb = q;
            },
        }
    }
}

impl Version {
    /// Reads `v0.1.1`, `0.1.1`, `1.0.0-beta.2` and the like.
    ///
    /// Returns `None` when the text is no comparable version; missing
    /// segments count as 0 (`v1` is `1.0.0`).
    pub fn parse(raw: &str) -> (r: Option<Version>)
        ensures
            match r {
                Some(v) => parse_version(raw@) == Some(v@),
                None => parse_version(raw@) is None,
            },
    {
        let t = trimmed(raw);
        let s = if t.len() > 0 && (t[0] == 'v' || t[0] == 'V') {
            let u = slice_of(t.as_slice(), 1, t.len());
            assert(u@ =~= t@.drop_first());
            u
        } else {
            t
        };
        let plus = one_char('+');
        let core = before_stop_exec(s.as_slice(), plus.as_slice());
        let minus = one_char('-');
        let numbers = before_stop_exec(core.as_slice(), minus.as_slice());
        let pre: Option<String> = match after_stop_exec(core.as_slice(), minus.as_slice()) {
            Some(p) => {
                let tp = trim_chars(p.as_slice());
                if tp.len() > 0 {
                    Some(string_of(tp.as_slice()))
                } else {
                    None
                }
            },
            None => None,
        };
        assert(opt_chars(pre) == version_pre(raw@));
        let major = match segment_value_exec(numbers.as_slice(), 0) {
            Some(x) => x,
            None => {
                return None;
            },
        };
        let minor = match segment_value_exec(numbers.as_slice(), 1) {
            Some(x) => x,
            None => {
                return None;
            },
        };
        let patch = match segment_value_exec(numbers.as_slice(), 2) {
            Some(x) => x,
            None => {
                return None;
            },
        };
        Some(Version { major, minor, patch, pre })
    }

    /// Whether `self` is newer than `other`: by the three numbers first;
    /// on a tie a plain version beats a pre-release, and two pre-release
    /// tags are compared segment by segment.
    pub fn is_newer_than(&self, other: &Version) -> (r: bool)
        ensures
            r == newer(self@, other@),
    {
        if self.major != other.major {
            return self.major > other.major;
        }
        if self.minor != other.minor {
            return self.minor > other.minor;
        }
        if self.patch != other.patch {
            return self.patch > other.patch;
        }
        match (&self.pre, &other.pre) {
            (None, None) => false,
            (None, Some(_)) => true,
            (Some(_), None) => false,
            (Some(a), Some(b)) => {
                let av = chars_of(a.as_str());
                let bv = chars_of(b.as_str());
                compare_pre_exec(av.as_slice(), bv.as_slice()) == Order::Greater
            },
        }
    }

    /// `major.minor.patch`, with `-pre` when there is a pre-release tag.
    pub fn to_string(&self) -> (r: String)
        ensures
            r@ == version_text(self@),
    {
        let mut s = String::new();
        push_decimal(&mut s, self.major);
        push_char(&mut s, '.');
        push_decimal(&mut s, self.minor);
        push_char(&mut s, '.');
        push_decimal(&mut s, self.patch);
        let ghost base = s@;
        match &self.pre {
            Some(p) => {
                push_char(&mut s, '-');
                push_str(&mut s, p.as_str());
                assert(s@ =~= base + (seq!['-'] + p@));
            },
            None => {
                assert(s@ =~= base + Seq::<char>::empty());
            },
        }
        s
    }
}

// ───────────────────────── result of a check ─────────────────────────

#[derive(Debug, Clone, Copy, PartialEq, Eq, Structural)]
pub enum UpdateStatus {
    /// The running build is the newest.
    UpToDate,
    /// A newer release exists.
    Available,
    /// The check did not succeed (network, rate limit, data).
    Failed,
}

/// A downloadable file of a release.
#[derive(Debug, Clone)]
pub struct ReleaseAsset {
    pub name: String,
    pub url: String,
    pub size: u64,
}

/// A file of a release as GitHub lists it.
#[derive(Debug, Clone)]
pub struct GhAsset {
    pub name: String,
    pub browser_download_url: String,
    pub size: u64,
}

/// The latest release as GitHub describes it.
#[derive(Debug, Clone)]
pub struct GhRelease {
    pub tag_name: String,
    pub name: Option<String>,
    pub body: Option<String>,
    pub html_url: String,
    pub published_at: Option<String>,
    pub assets: Vec<GhAsset>,
}

#[derive(Debug, Clone)]
pub struct UpdateCheck {
    pub status: UpdateStatus,
    pub current_version: String,
    pub latest_version: Option<String>,
    pub release_name: Option<String>,
    pub release_url: Option<String>,
    pub published_at: Option<String>,
    /// Release notes (Markdown), cut to a limit.
    pub notes: Option<String>,
    pub assets: Vec<ReleaseAsset>,
    /// Why the check failed; always present when `status` is `Failed`.
    pub reason: Option<String>,
    pub checked_at: String,
}

/// A failed check with the given reason and nothing else filled in.
pub open spec fn failed_with(r: UpdateCheck, reason: Seq<char>, at: Seq<char>) -> bool {
    &&& r.status == UpdateStatus::Failed
    &&& r.checked_at@ == at
    &&& r.current_version@ == VERSION@
    &&& r.latest_version is None
    &&& r.release_name is None
    &&& r.release_url is None
    &&& r.published_at is None
    &&& r.notes is None
    &&& r.assets@.len() == 0
    &&& opt_chars(r.reason) == Some(reason)
}

impl UpdateCheck {
    /// A result that says the check failed, and why, stamped with the time
    /// of the check (`checked_at`, RFC 3339, taken by the caller).
    pub fn failed(reason: String, checked_at: String) -> (r: UpdateCheck)
        ensures
            failed_with(r, reason@, checked_at@),
    {
        let mut cur = String::new();
        push_str(&mut cur, current_version());
        UpdateCheck {
            status: UpdateStatus::Failed,
            current_version: cur,
            latest_version: None,
            release_name: None,
            release_url: None,
            published_at: None,
            notes: None,
            assets: Vec::new(),
            reason: Some(reason),
            checked_at,
        }
    }
}

/// The reason given when the release tag is no version.
pub open spec fn bad_tag_reason(tag: Seq<char>) -> Seq<char> {
    "发布标签「"@ + tag + "」不是可比较的版本号，无法判断新旧"@
}

/// The reason given when the running version is no version.
pub open spec fn bad_current_reason(cur: Seq<char>) -> Seq<char> {
    "当前版本号「"@ + cur + "」无法解析"@
}

/// A release name is shown unless it is blank.
pub open spec fn kept_name(name: Option<Seq<char>>) -> Option<Seq<char>> {
    match name {
        Some(n) => if trim(n).len() > 0 {
            Some(n)
        } else {
            None
        },
        None => None,
    }
}

/// Release notes: trimmed, `None` when blank, cut to `NOTES_LIMIT`
/// characters with `NOTES_TAIL` appended when longer.
pub open spec fn notes_spec(body: Option<Seq<char>>) -> Option<Seq<char>> {
    match body {
        None => None,
        Some(b) => {
            let t = trim(b);
            if t.len() == 0 {
                None
            } else if t.len() > NOTES_LIMIT {
                Some(t.take(NOTES_LIMIT as int) + NOTES_TAIL@)
            } else {
                Some(t)
            }
        },
    }
}

/// 0 for installers, 1 for portable packages, 2 for everything else.
pub open spec fn asset_rank_spec(name: Seq<char>) -> u8 {
    let n = lower_seq(name);
    if contains(n, "setup"@) || contains(n, "installer"@) || ends_with(n, ".msi"@) {
        0
    } else if contains(n, "portable"@) {
        1
    } else {
        2
    }
}

/// An asset as name, address and size.
pub open spec fn gh_asset_view(a: GhAsset) -> (Seq<char>, Seq<char>, u64) {
    (a.name@, a.browser_download_url@, a.size)
}

pub open spec fn release_assets_view(s: Seq<ReleaseAsset>) -> Seq<(Seq<char>, Seq<char>, u64)> {
    s.map_values(|a: ReleaseAsset| (a.name@, a.url@, a.size))
}

/// The assets of rank `k`, in their original order.
pub open spec fn assets_of_rank(s: Seq<GhAsset>, k: u8) -> Seq<(Seq<char>, Seq<char>, u64)>
    decreases s.len(),
{
    if s.len() == 0 {
        Seq::empty()
    } else {
        let rest = assets_of_rank(s.drop_last(), k);
        if asset_rank_spec(s.last().name@) == k {
            rest.push(gh_asset_view(s.last()))
        } else {
            rest
        }
    }
}

/// Installers first, portable packages next, the rest last; each group
/// keeps GitHub's order.
pub open spec fn sorted_assets_spec(s: Seq<GhAsset>) -> Seq<(Seq<char>, Seq<char>, u64)> {
    assets_of_rank(s, 0) + assets_of_rank(s, 1) + assets_of_rank(s, 2)
}

/// What a successful answer from GitHub turns into.
pub open spec fn classified(rel: GhRelease, at: Seq<char>, r: UpdateCheck) -> bool {
    match parse_version(rel.tag_name@) {
        None => failed_with(r, bad_tag_reason(rel.tag_name@), at),
        Some(latest) => match parse_version(VERSION@) {
            None => failed_with(r, bad_current_reason(VERSION@), at),
            Some(mine) => {
                &&& r.checked_at@ == at
                &&& r.status == (if newer(latest, mine) {
                    UpdateStatus::Available
                } else {
                    UpdateStatus::UpToDate
                })
                &&& r.current_version@ == VERSION@
                &&& opt_chars(r.latest_version) == Some(version_text(latest))
                &&& opt_chars(r.release_name) == kept_name(opt_chars(rel.name))
                &&& opt_chars(r.release_url) == Some(rel.html_url@)
                &&& r.published_at == rel.published_at
                &&& opt_chars(r.notes) == notes_spec(opt_chars(rel.body))
                &&& release_assets_view(r.assets@) == sorted_assets_spec(rel.assets@)
                &&& r.reason is None
            },
        },
    }
}

/// Cuts release notes by characters, not bytes, so that no character is
/// split.
pub fn trim_notes(body: Option<String>) -> (r: Option<String>)
    ensures
        opt_chars(r) == notes_spec(opt_chars(body)),
{
    let body = match body {
        Some(b) => b,
        None => {
            return None;
        },
    };
    let t = trimmed(body.as_str());
    if t.len() == 0 {
        return None;
    }
    if t.len() > NOTES_LIMIT {
        let head = slice_of(t.as_slice(), 0, NOTES_LIMIT);
        let mut out = string_of(head.as_slice());
        push_str(&mut out, NOTES_TAIL);
        assert(head@ =~= t@.take(NOTES_LIMIT as int));
        Some(out)
    } else {
        Some(string_of(t.as_slice()))
    }
}

/// The rank of an asset by its name: installer, portable, other.
pub fn asset_rank(name: &str) -> (r: u8)
    ensures
        r == asset_rank_spec(name@),
{
    let n = lower_chars(chars_of(name).as_slice());
    let setup = chars_of("setup");
    let installer = chars_of("installer");
    let msi = chars_of(".msi");
    let portable = chars_of("portable");
    if contains_exec(n.as_slice(), setup.as_slice()) || contains_exec(
        n.as_slice(),
        installer.as_slice(),
    ) || ends_with_exec(n.as_slice(), msi.as_slice()) {
        0
    } else if contains_exec(n.as_slice(), portable.as_slice()) {
        1
    } else {
        2
    }
}

fn append_rank(out: &mut Vec<ReleaseAsset>, assets: &Vec<GhAsset>, k: u8)
    ensures
        release_assets_view(final(out)@) == release_assets_view(old(out)@) + assets_of_rank(
            assets@,
            k,
        ),
{
    let ghost start = release_assets_view(out@);
    let mut i: usize = 0;
    assert(assets@.take(0) =~= Seq::<GhAsset>::empty());
    assert(start + Seq::empty() =~= start);
    while i < assets.len()
        invariant
            i <= assets.len(),
            release_assets_view(out@) == start + assets_of_rank(assets@.take(i as int), k),
        decreases assets.len() - i,
    {
        let a = &assets[i];
        let ghost before = out@;
        let ghost pre = assets@.take(i as int);
        assert(assets@.take(i + 1).drop_last() =~= pre);
        assert(assets@.take(i + 1).last() == assets@[i as int]);
        if asset_rank(a.name.as_str()) == k {
            let ra = ReleaseAsset {
                name: a.name.clone(),
                url: a.browser_download_url.clone(),
                size: a.size,
            };
            out.push(ra);
            assert(release_assets_view(out@) =~= release_assets_view(before).push(
                gh_asset_view(assets@[i as int]),
            ));
            assert(start + assets_of_rank(pre, k).push(gh_asset_view(assets@[i as int])) =~= (
            start + assets_of_rank(pre, k)).push(gh_asset_view(assets@[i as int])));
        }
        i = i + 1;
    }
    assert(assets@.take(assets.len() as int) =~= assets@);
}

/// Orders release files so that the one to download comes first:
/// installers, then portable packages, then the rest, each group in
/// GitHub's order.
pub fn sorted_assets(assets: Vec<GhAsset>) -> (r: Vec<ReleaseAsset>)
    ensures
        release_assets_view(r@) == sorted_assets_spec(assets@),
{
    let mut out: Vec<ReleaseAsset> = Vec::new();
    assert(release_assets_view(out@) =~= Seq::empty());
    append_rank(&mut out, &assets, 0);
    append_rank(&mut out, &assets, 1);
    append_rank(&mut out, &assets, 2);
    assert(Seq::<(Seq<char>, Seq<char>, u64)>::empty() + assets_of_rank(assets@, 0) =~= assets_of_rank(assets@, 0));
    out
}

/// The file name at the end of a download address, or a default name
/// when the address ends in `/`.
pub open spec fn asset_name_spec(url: Seq<char>) -> Seq<char> {
    let last = after_last(url, seq!['/']);
    if last.len() > 0 {
        last
    } else {
        "BootFlow-setup.exe"@
    }
}

pub fn asset_name_from_url(url: &str) -> (r: String)
    ensures
        r@ == asset_name_spec(url@),
{
    let u = chars_of(url);
    let slash = one_char('/');
    let last = after_last_exec(u.as_slice(), slash.as_slice());
    if last.len() > 0 {
        string_of(last.as_slice())
    } else {
        let mut s = String::new();
        push_str(&mut s, "BootFlow-setup.exe");
        s
    }
}

/// Turns GitHub's answer into the result shown to the user, stamped with
/// the time of the check that the caller took.
pub fn classify(release: GhRelease, checked_at: String) -> (r: UpdateCheck)
    ensures
        classified(release, checked_at@, r),
{
    let mut current = String::new();
    push_str(&mut current, current_version());
    let latest = match Version::parse(release.tag_name.as_str()) {
        Some(v) => v,
        None => {
            let mut m = String::new();
            push_str(&mut m, "发布标签「");
            push_str(&mut m, release.tag_name.as_str());
            push_str(&mut m, "」不是可比较的版本号，无法判断新旧");
            return UpdateCheck::failed(m, checked_at);
        },
    };
    let mine = match Version::parse(current.as_str()) {
        Some(v) => v,
        None => {
            let mut m = String::new();
            push_str(&mut m, "当前版本号「");
            push_str(&mut m, current.as_str());
            push_str(&mut m, "」无法解析");
            return UpdateCheck::failed(m, checked_at);
        },
    };
    let status = if latest.is_newer_than(&mine) {
        UpdateStatus::Available
    } else {
        UpdateStatus::UpToDate
    };
    let release_name = match release.name {
        Some(n) => {
            let t = trimmed(n.as_str());
            if t.len() > 0 {
                Some(n)
            } else {
                None
            }
        },
        None => None,
    };
    UpdateCheck {
        status,
        current_version: current,
        latest_version: Some(latest.to_string()),
        release_name,
        release_url: Some(release.html_url),
        published_at: release.published_at,
        notes: trim_notes(release.body),
        assets: sorted_assets(release.assets),
        reason: None,
        checked_at,
    }
}

/// Finishes a check from what the request for the latest release gave:
/// the release, or the reason the request failed. A failure is never
/// turned into "up to date".
pub fn check(fetched: Result<GhRelease, String>, checked_at: String) -> (r: UpdateCheck)
    ensures
        match fetched {
            Ok(rel) => classified(rel, checked_at@, r),
            Err(e) => failed_with(r, e@, checked_at@),
        },
{
    match fetched {
        Ok(release) => classify(release, checked_at),
        Err(e) => UpdateCheck::failed(e, checked_at),
    }
}

/// The problem an HTTP status of GitHub's answer stands for, if any.
pub open spec fn status_problem_spec(status: u16) -> Option<Seq<char>> {
    if 200 <= status <= 299 {
        None
    } else if status == 404 {
        Some("GitHub 上还没有可用的发布版本"@)
    } else if status == 403 || status == 429 {
        Some("GitHub 接口的访问次数已超限，请过一会儿再试"@)
    } else if 500 <= status <= 599 {
        Some("GitHub 服务暂时不可用（HTTP "@ + decimal(status as nat) + "）"@)
    } else {
        Some("GitHub 返回了意外的状态码 HTTP "@ + decimal(status as nat))
    }
}

/// What an HTTP status of GitHub's answer means for the check: `None`
/// for success, else the reason shown to the user.
pub fn status_problem(status: u16) -> (r: Option<String>)
    ensures
        opt_chars(r) == status_problem_spec(status),
{
    let mut m = String::new();
    if 200 <= status && status <= 299 {
        return None;
    } else if status == 404 {
        push_str(&mut m, "GitHub 上还没有可用的发布版本");
    } else if status == 403 || status == 429 {
        push_str(&mut m, "GitHub 接口的访问次数已超限，请过一会儿再试");
    } else if 500 <= status && status <= 599 {
        push_str(&mut m, "GitHub 服务暂时不可用（HTTP ");
        push_decimal(&mut m, status as u64);
        push_str(&mut m, "）");
    } else {
        push_str(&mut m, "GitHub 返回了意外的状态码 HTTP ");
        push_decimal(&mut m, status as u64);
    }
    Some(m)
}

/// The identity GitHub asks callers to declare.
pub fn user_agent() -> (r: String)
    ensures
        r@ == "BootFlow/"@ + VERSION@ + " (+https://github.com/"@ + REPO@ + ")"@,
{
    let mut s = String::new();
    push_str(&mut s, "BootFlow/");
    push_str(&mut s, current_version());
    push_str(&mut s, " (+https://github.com/");
    push_str(&mut s, REPO);
    push_str(&mut s, ")");
    s
}

// ───────────────────────── trusted addresses ─────────────────────────

/// The host of an `https://` address, lower-cased, without user and port;
/// `None` for any other scheme.
pub open spec fn url_host(url: Seq<char>) -> Option<Seq<char>> {
    if starts_with(url, "https://"@) {
        let rest = url.skip("https://"@.len() as int);
        let authority = before_stop(rest, seq!['/', '?', '#']);
        let host = after_last(authority, seq!['@']);
        Some(lower_seq(before_stop(host, seq![':'])))
    } else {
        None
    }
}

/// GitHub's own hosts.
pub open spec fn trusted_host(h: Seq<char>) -> bool {
    ||| h == "github.com"@
    ||| ends_with(h, ".github.com"@)
    ||| h == "githubusercontent.com"@
    ||| ends_with(h, ".githubusercontent.com"@)
}

/// What `ensure_trusted_url` answers.
pub open spec fn trusted_url_result(url: Seq<char>, r: Result<(), AppError>) -> bool {
    match url_host(url) {
        None => r matches Err(AppError::Other(m)) && m@ == "只允许打开 https 地址："@ + url,
        Some(h) => if trusted_host(h) {
            r is Ok
        } else {
            r matches Err(AppError::Other(m)) && m@ == "拒绝打开非 GitHub 的地址："@ + h
        },
    }
}

/// Lets `url` through to the browser only when it is an `https` address
/// on GitHub's own hosts.
pub fn ensure_trusted_url(url: &str) -> (r: Result<(), AppError>)
    ensures
        trusted_url_result(url@, r),
{
    let u = chars_of(url);
    let scheme = chars_of("https://");
    if !starts_with_exec(u.as_slice(), scheme.as_slice()) {
        let mut m = String::new();
        push_str(&mut m, "只允许打开 https 地址：");
        push_str(&mut m, url);
        return Err(AppError::Other(m));
    }
    let rest = slice_of(u.as_slice(), scheme.len(), u.len());
    assert(rest@ =~= u@.skip("https://"@.len() as int));
    let stops = three_chars('/', '?', '#');
    let authority = before_stop_exec(rest.as_slice(), stops.as_slice());
    let at = one_char('@');
    let host = after_last_exec(authority.as_slice(), at.as_slice());
    let colon = one_char(':');
    let host = lower_chars(before_stop_exec(host.as_slice(), colon.as_slice()).as_slice());
    let gh = chars_of("github.com");
    let dot_gh = chars_of(".github.com");
    let ghu = chars_of("githubusercontent.com");
    let dot_ghu = chars_of(".githubusercontent.com");
    let trusted = chars_eq(host.as_slice(), gh.as_slice()) || ends_with_exec(
        host.as_slice(),
        dot_gh.as_slice(),
    ) || chars_eq(host.as_slice(), ghu.as_slice()) || ends_with_exec(
        host.as_slice(),
        dot_ghu.as_slice(),
    );
    if !trusted {
        let mut m = String::new();
        push_str(&mut m, "拒绝打开非 GitHub 的地址：");
        push_chars(&mut m, host.as_slice());
        return Err(AppError::Other(m));
    }
    Ok(())
}

/// The address prefix under which this repository's release files lie.
pub open spec fn download_prefix() -> Seq<char> {
    "https://github.com/"@ + REPO@ + "/releases/download/"@
}

/// What `check_asset_url` answers.
pub open spec fn asset_url_result(url: Seq<char>, r: Result<(), AppError>) -> bool {
    match url_host(url) {
        Some(h) if trusted_host(h) => if starts_with(url, download_prefix()) {
            r is Ok
        } else {
            r matches Err(AppError::Other(m)) && m@ == "安装包地址不在本仓库发布页下："@ + url
        },
        _ => trusted_url_result(url, r),
    }
}

/// Checks an installer address before it is downloaded: a trusted GitHub
/// address (`ensure_trusted_url`) under this repository's release
/// download prefix.
pub fn check_asset_url(asset_url: &str) -> (r: Result<(), AppError>)
    ensures
        asset_url_result(asset_url@, r),
{
    match ensure_trusted_url(asset_url) {
        Ok(()) => {},
        Err(e) => {
            return Err(e);
        },
    }
    let mut expected = String::new();
    push_str(&mut expected, "https://github.com/");
    push_str(&mut expected, REPO);
    push_str(&mut expected, "/releases/download/");
    let u = chars_of(asset_url);
    let p = chars_of(expected.as_str());
    if !starts_with_exec(u.as_slice(), p.as_slice()) {
        let mut m = String::new();
        push_str(&mut m, "安装包地址不在本仓库发布页下：");
        push_str(&mut m, asset_url);
        return Err(AppError::Other(m));
    }
    Ok(())
}

// ───────────────────────── laws of the order ─────────────────────────

proof fn lemma_compare_ident_flip(x: Seq<char>, y: Seq<char>)
    ensures
        compare_ident(y, x) == flip(compare_ident(x, y)),
{
    lemma_compare_lex_flip(x, y);
}

proof fn lemma_compare_pre_flip(a: Seq<char>, b: Seq<char>)
    ensures
        compare_pre(b, a) == flip(compare_pre(a, b)),
    decreases a.len() + b.len(),
{
    let dot = seq!['.'];
    lemma_compare_ident_flip(before_stop(a, dot), before_stop(b, dot));
    lemma_first_stop(a, dot);
    lemma_first_stop(b, dot);
    if let (Some(ra), Some(rb)) = (after_stop(a, dot), after_stop(b, dot)) {
        lemma_compare_pre_flip(ra, rb);
    }
}

proof fn lemma_compare_pre_refl(a: Seq<char>)
    ensures
        compare_pre(a, a) == Order::Equal,
    decreases a.len(),
{
    let dot = seq!['.'];
    lemma_compare_lex_refl(before_stop(a, dot));
    lemma_first_stop(a, dot);
    if let Some(ra) = after_stop(a, dot) {
        lemma_compare_pre_refl(ra);
    }
}

/// Two steps that do not go down: down when either step goes down.
pub open spec fn chain(o1: Order, o2: Order) -> Order {
    if o1 == Order::Less || o2 == Order::Less {
        Order::Less
    } else {
        Order::Equal
    }
}

proof fn lemma_compare_ident_trans(x: Seq<char>, y: Seq<char>, z: Seq<char>)
    requires
        compare_ident(x, y) != Order::Greater,
        compare_ident(y, z) != Order::Greater,
    ensures
        compare_ident(x, z) == chain(compare_ident(x, y), compare_ident(y, z)),
{
    if parse_u64_spec(x) is None && parse_u64_spec(y) is None && parse_u64_spec(z) is None {
        if compare_lex(x, y) == Order::Equal {
            lemma_compare_lex_equal(x, y);
        } else if compare_lex(y, z) == Order::Equal {
            lemma_compare_lex_equal(y, z);
        } else {
            lemma_compare_lex_trans(x, y, z);
        }
    }
}

proof fn lemma_compare_pre_trans(a: Seq<char>, b: Seq<char>, c: Seq<char>)
    requires
        compare_pre(a, b) != Order::Greater,
        compare_pre(b, c) != Order::Greater,
    ensures
        compare_pre(a, c) == chain(compare_pre(a, b), compare_pre(b, c)),
    decreases a.len() + b.len() + c.len(),
{
    let dot = seq!['.'];
    let (sa, sb, sc) = (before_stop(a, dot), before_stop(b, dot), before_stop(c, dot));
    lemma_first_stop(a, dot);
    lemma_first_stop(b, dot);
    lemma_first_stop(c, dot);
    lemma_compare_ident_trans(sa, sb, sc);
    if compare_ident(sa, sb) == Order::Equal && compare_ident(sb, sc) == Order::Equal {
        if let (Some(ra), Some(rb), Some(rc)) = (after_stop(a, dot), after_stop(b, dot), after_stop(c, dot)) {
            lemma_compare_pre_trans(ra, rb, rc);
        }
    }
}

/// Being newer is transitive: with irreflexivity and asymmetry, being newer
/// is a strict order on versions.
pub proof fn lemma_newer_transitive(
    a: (u64, u64, u64, Option<Seq<char>>),
    b: (u64, u64, u64, Option<Seq<char>>),
    c: (u64, u64, u64, Option<Seq<char>>),
)
    requires
        newer(a, b),
        newer(b, c),
    ensures
        newer(a, c),
{
    if let (Some(x), Some(y), Some(z)) = (a.3, b.3, c.3) {
        lemma_compare_pre_flip(x, y);
        lemma_compare_pre_flip(y, z);
        lemma_compare_pre_flip(x, z);
        if compare_pre(z, y) != Order::Greater && compare_pre(y, x) != Order::Greater {
            lemma_compare_pre_trans(z, y, x);
        }
    }
}

/// No version is newer than itself.
pub proof fn lemma_newer_irreflexive(v: (u64, u64, u64, Option<Seq<char>>))
    ensures
        !newer(v, v),
{
    if let Some(p) = v.3 {
        lemma_compare_pre_refl(p);
    }
}

/// Of two versions at most one is newer than the other.
pub proof fn lemma_newer_asymmetric(
    a: (u64, u64, u64, Option<Seq<char>>),
    b: (u64, u64, u64, Option<Seq<char>>),
)
    requires
        newer(a, b),
    ensures
        !newer(b, a),
{
    if let (Some(x), Some(y)) = (a.3, b.3) {
        lemma_compare_pre_flip(x, y);
    }
}

/// A pre-release tag that `to_string` writes and `parse` reads back: not
/// empty, without white space around it, without build metadata.
pub open spec fn pre_writable(p: Seq<char>) -> bool {
    p.len() > 0 && trim(p) == p && !p.contains('+')
}

proof fn lemma_number_reads_back(d: Seq<char>, n: u64)
    requires
        d == decimal(n as nat),
    ensures
        trim(d) == d,
        parse_u64_spec(trim(d)) == Some(n),
        forall|j: int| 0 <= j < d.len() ==> is_digit(#[trigger] d[j]),
{
    lemma_decimal_spells(n as nat);
    assert(is_digit(d[0]));
    assert(is_digit(d[d.len() - 1]));
    lemma_trim_unchanged(d);
}

/// `Version::parse` reads back what `to_string` wrote, for every version
/// whose pre-release tag is absent or can be written and read.
pub proof fn lemma_parse_reads_back_text(v: (u64, u64, u64, Option<Seq<char>>))
    requires
        v.3 matches Some(p) ==> pre_writable(p),
    ensures
        parse_version(version_text(v)) == Some(v),
{
    let (d0, d1, d2) = (decimal(v.0 as nat), decimal(v.1 as nat), decimal(v.2 as nat));
    lemma_number_reads_back(d0, v.0);
    lemma_number_reads_back(d1, v.1);
    lemma_number_reads_back(d2, v.2);
    let dot = seq!['.'];
    let y = d1 + dot + d2;
    let x = d0 + dot + y;
    let tail: Seq<char> = match v.3 {
        Some(p) => seq!['-'] + p,
        None => Seq::empty(),
    };
    let t = version_text(v);
    assert(t =~= x + tail);
    assert forall|j: int| 0 <= j < y.len() implies (#[trigger] y[j] == '.' || is_digit(y[j])) by {
        if j < d1.len() { assert(y[j] == d1[j]); } else if j > d1.len() { assert(y[j] == d2[j - d1.len() - 1]); }
    }
    assert forall|j: int| 0 <= j < x.len() implies (#[trigger] x[j] == '.' || is_digit(x[j])) by {
        if j < d0.len() { assert(x[j] == d0[j]); } else if j > d0.len() { assert(x[j] == y[j - d0.len() - 1]); }
    }
    // No build metadata anywhere, no `v` in front, nothing to trim.
    assert forall|j: int| 0 <= j < t.len() implies !seq!['+'].contains(#[trigger] t[j]) by {
        if j < x.len() {
            assert(t[j] == x[j]);
            assert(x[j] == '.' || is_digit(x[j]));
        } else {
            match v.3 {
                Some(p) => {
                    if j > x.len() {
                        assert(t[j] == p[j - x.len() - 1]);
                        assert(p.contains(p[j - x.len() - 1]));
                    } else {
                        assert(t[j] == '-');
                    }
                },
                None => {},
            }
        }
        if seq!['+'].contains(t[j]) {
            assert(seq!['+'][0] == '+');
        }
    }
    assert(t[0] == x[0] && x[0] == d0[0]);
    match v.3 {
        Some(p) => {
            lemma_trimmed_ends(p);
            assert(t.last() == p.last());
        },
        None => {
            assert(t.last() == x.last() && x.last() == y.last() && y.last() == d2.last());
            assert(is_digit(d2[d2.len() - 1]));
        },
    }
    lemma_trim_unchanged(t);
    lemma_no_cut(t, seq!['+']);
    assert(version_core(t) == t);
    // The numbers and the tag.
    assert forall|j: int| 0 <= j < x.len() implies !seq!['-'].contains(#[trigger] x[j]) by {
        assert(x[j] == '.' || is_digit(x[j]));
        if seq!['-'].contains(x[j]) {
            assert(seq!['-'][0] == '-');
        }
    }
    assert(seq!['-'].contains('-')) by { assert(seq!['-'][0] == '-'); }
    match v.3 {
        Some(p) => {
            assert(t =~= x + seq!['-'] + p);
            lemma_cut_at(x, '-', p, seq!['-']);
        },
        None => {
            assert(t =~= x);
            lemma_no_cut(x, seq!['-']);
        },
    }
    assert(version_pre(t) == v.3);
    // The three segments.
    assert(seq!['.'].contains('.')) by { assert(seq!['.'][0] == '.'); }
    assert forall|j: int| 0 <= j < d0.len() implies !seq!['.'].contains(#[trigger] d0[j]) by {
        if seq!['.'].contains(d0[j]) { assert(seq!['.'][0] == '.'); }
    }
    assert forall|j: int| 0 <= j < d1.len() implies !seq!['.'].contains(#[trigger] d1[j]) by {
        if seq!['.'].contains(d1[j]) { assert(seq!['.'][0] == '.'); }
    }
    assert forall|j: int| 0 <= j < d2.len() implies !seq!['.'].contains(#[trigger] d2[j]) by {
        if seq!['.'].contains(d2[j]) { assert(seq!['.'][0] == '.'); }
    }
    lemma_cut_at(d0, '.', y, dot);
    lemma_cut_at(d1, '.', d2, dot);
    lemma_no_cut(d2, dot);
    assert(segment(x, 0) == Some(d0));
    assert(segment(x, 1) == segment(y, 0));
    assert(segment(x, 2) == segment(y, 1));
    assert(segment(y, 1) == segment(d2, 0));
    assert(segment_value(x, 0) == Some(v.0));
    assert(segment_value(x, 1) == Some(v.1));
    assert(segment_value(x, 2) == Some(v.2));
}

} // verus!
