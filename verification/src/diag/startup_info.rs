//! WDI `StartupInfo`: the resources Windows measured for each process of
//! the logon window (`%WINDIR%\System32\WDI\LogFiles\StartupInfo`).
//!
//! Each `<Process>` node carries the image (`Name`), `PID`,
//! `StartedInTraceSec`, `CpuUsage` (microseconds) and `DiskUsage` (bytes).
//! Task Manager's "startup impact" column reads the same file. CPU time is
//! not wall-clock time. Parsing tolerates missing fields and never guesses.

use vstd::prelude::*;
use crate::diag::boot_log::{unescape_spec, unescape_xml};
use crate::model::{ImpactLevel, ImpactOverview};
use crate::text::{
    after_last, after_last_exec, all_digits, chars_eq, chars_of, digits_to_u64, digits_value,
    ends_with, ends_with_exec, find_exec, find_from, first_stop, first_stop_exec, is_digit, is_ws,
    is_ws_char, lemma_find_from_some, lemma_first_stop, lower_chars, lower_seq, one_char,
    opt_chars, parse_i64, parse_i64_spec, parse_u32, parse_u32_spec, parse_u64, parse_u64_spec,
    push_str, slice_of, starts_with, starts_with_exec, string_of, trim, trim_chars, trim_end,
    trim_end_chars, two_chars,
};

verus! {

/// One WDI record, one process instance.
#[derive(Debug, Clone, PartialEq)]
pub struct StartupInfoRecord {
    /// The executable's file name, lower-cased (`chrome.exe`).
    pub exe: String,
    /// The full image path as written.
    pub image: String,
    pub pid: u32,
    /// When in the trace window it was started (ms).
    pub started_in_trace_ms: Option<u64>,
    /// CPU time in the window (ms); the file gives microseconds.
    pub cpu_ms: u64,
    /// Bytes read and written in the window.
    pub disk_bytes: u64,
}

impl View for StartupInfoRecord {
    type V = (Seq<char>, Seq<char>, u32, Option<u64>, u64, u64);

    open spec fn view(&self) -> Self::V {
        (self.exe@, self.image@, self.pid, self.started_in_trace_ms, self.cpu_ms, self.disk_bytes)
    }
}

/// One reading of the WDI data.
#[derive(Debug, Clone)]
pub struct StartupInfoReport {
    /// Length of the trace window (ms).
    pub window_ms: Option<u64>,
    pub records: Vec<StartupInfoRecord>,
    /// Whose logon the data is from (SID).
    pub source_sid: Option<String>,
    /// Whether that SID is the current user's.
    pub is_current_user: bool,
    /// The file that was read.
    pub source_file: Option<String>,
    /// Why nothing is available, in plain words.
    pub unavailable_reason: Option<String>,
}

impl Default for StartupInfoReport {
    /// No reading: no window, no records, no reason.
    fn default() -> (r: StartupInfoReport)
        ensures
            r.window_ms is None,
            r.records@.len() == 0,
            r.source_sid is None,
            !r.is_current_user,
            r.source_file is None,
            r.unavailable_reason is None,
    {
        StartupInfoReport {
            window_ms: None,
            records: Vec::new(),
            source_sid: None,
            is_current_user: false,
            source_file: None,
            unavailable_reason: None,
        }
    }
}

impl StartupInfoReport {
    /// A reading that says nothing could be read, and why.
    pub fn unavailable(why: String) -> (r: StartupInfoReport)
        ensures
            opt_chars(r.unavailable_reason) == Some(why@),
            r.window_ms is None,
            r.records@.len() == 0,
            r.source_sid is None,
            !r.is_current_user,
            r.source_file is None,
    {
        StartupInfoReport {
            window_ms: None,
            records: Vec::new(),
            source_sid: None,
            is_current_user: false,
            source_file: None,
            unavailable_reason: Some(why),
        }
    }

    /// Whether there are records to use.
    pub fn is_available(&self) -> (r: bool)
        ensures
            r == (self.unavailable_reason is None && self.records@.len() > 0),
    {
        self.unavailable_reason.is_none() && self.records.len() > 0
    }
}

// ───────────────────────── impact levels ─────────────────────────

/// Task Manager's scale: high above 1 s of CPU or 3 MiB of disk, medium
/// from 300 ms or 300 KiB, else low.
pub open spec fn level_spec(cpu_ms: u64, disk_bytes: u64) -> ImpactLevel {
    if cpu_ms > 1000 || disk_bytes > 3 * 1024 * 1024 {
        ImpactLevel::High
    } else if cpu_ms >= 300 || disk_bytes >= 300 * 1024 {
        ImpactLevel::Medium
    } else {
        ImpactLevel::Low
    }
}

/// The impact level of the CPU time and disk bytes, the worse axis deciding.
pub fn level_of(cpu_ms: u64, disk_bytes: u64) -> (r: ImpactLevel)
    ensures
        r == level_spec(cpu_ms, disk_bytes),
{
    if cpu_ms > 1000 || disk_bytes > 3 * 1024 * 1024 {
        ImpactLevel::High
    } else if cpu_ms >= 300 || disk_bytes >= 300 * 1024 {
        ImpactLevel::Medium
    } else {
        ImpactLevel::Low
    }
}

// ───────────────────────── attributes ─────────────────────────

/// `char::is_ascii_whitespace`.
pub open spec fn is_ascii_ws(c: char) -> bool {
    c == ' ' || c == '\t' || c == '\n' || c == '\x0C' || c == '\r'
}

/// The value of the first `needle` (`attr=`) that starts a word (after a
/// blank, `<` or at the start) and is followed by a quote, up to the same
/// quote. An unclosed quote, or a word-start match at the very end, gives
/// nothing.
pub open spec fn attr_scan(head: Seq<char>, needle: Seq<char>, from: int) -> Option<Seq<char>>
    decreases head.len() + 1 - from,
{
    if from < 0 || needle.len() == 0 {
        None
    } else {
        match find_from(head, needle, from) {
            None => None,
            Some(rel) => {
                proof {
                    lemma_find_from_some(head, needle, from);
                }
                let eq = rel + needle.len();
                let ok_before = rel == 0 || is_ascii_ws(head[rel - 1]) || head[rel - 1] == '<';
                if ok_before && eq >= head.len() {
                    None
                } else if ok_before && (head[eq] == '"' || head[eq] == '\'') {
                    match find_from(head, seq![head[eq]], eq + 1) {
                        Some(e) => Some(head.subrange(eq + 1, e)),
                        None => None,
                    }
                } else {
                    attr_scan(head, needle, eq)
                }
            },
        }
    }
}

/// `attr="value"` or `attr='value'` in a tag head.
pub open spec fn attr_spec(head: Seq<char>, attr: Seq<char>) -> Option<Seq<char>> {
    attr_scan(head, attr + seq!['='], 0)
}

fn attr_in(head: &[char], attr: &str) -> (r: Option<Vec<char>>)
    ensures
        match r {
            Some(v) => attr_spec(head@, attr@) == Some(v@),
            None => attr_spec(head@, attr@) is None,
        },
{
    let mut needle = chars_of(attr);
    needle.push('=');
    let ghost n = needle@;
    assert(n =~= attr@ + seq!['=']);
    let hl = head.len();
    let mut from: usize = 0;
    loop
        invariant
            needle@ == n,
            n == attr@ + seq!['='],
            n.len() > 0,
            hl == head.len(),
            from <= head.len(),
            attr_scan(head@, n, 0) == attr_scan(head@, n, from as int),
        decreases head.len() + 1 - from,
    {
        let rel = match find_exec(head, needle.as_slice(), from) {
            None => {
                return None;
            },
            Some(r) => r,
        };
        proof {
            lemma_find_from_some(head@, n, from as int);
        }
        let eq = rel + needle.len();
        let ok_before = rel == 0 || {
            let c = head[rel - 1];
            c == ' ' || c == '\t' || c == '\n' || c == '\x0C' || c == '\r' || c == '<'
        };
        if ok_before && eq >= head.len() {
            return None;
        }
        if ok_before && (head[eq] == '"' || head[eq] == '\'') {
            let q = one_char(head[eq]);
            return match find_exec(head, q.as_slice(), eq + 1) {
                Some(e) => {
                    proof {
                        lemma_find_from_some(head@, q@, eq + 1);
                    }
                    Some(slice_of(head, eq + 1, e))
                },
                None => None,
            };
        }
        from = eq;
    }
}

/// The value of `attr="…"` or `attr='…'` in a tag head. The name must
/// start a word, so `PID` does not match `ParentPID`.
pub fn attr_of(head: &str, attr: &str) -> (r: Option<String>)
    ensures
        opt_chars(r) == attr_spec(head@, attr@),
{
    let h = chars_of(head);
    match attr_in(h.as_slice(), attr) {
        Some(v) => Some(string_of(v.as_slice())),
        None => None,
    }
}

// ───────────────────────── child elements ─────────────────────────

/// One pass for one lower-cased tag: `None` when the tag does not occur
/// (the next tag is tried), `Some(None)` when the scan gives up,
/// `Some(Some(text))` when found. An opening tag must be followed by `>`
/// or white space, so `<CpuUsageX>` is not `<CpuUsage>`.
pub open spec fn child_scan(body: Seq<char>, lower: Seq<char>, t: Seq<char>, from: int) -> Option<Option<Seq<char>>>
    decreases body.len() + 1 - from,
{
    let open = seq!['<'] + t;
    let close = seq!['<', '/'] + t + seq!['>'];
    if from < 0 {
        None
    } else {
        match find_from(lower, open, from) {
            None => None,
            Some(start) => {
                proof {
                    lemma_find_from_some(lower, open, from);
                }
                let a = start + open.len();
                if a >= body.len() {
                    Some(None)
                } else if body[a] != '>' && !is_ws(body[a]) {
                    child_scan(body, lower, t, a)
                } else {
                    match find_from(body, seq!['>'], a) {
                        None => Some(None),
                        Some(g) => match find_from(lower, close, g + 1) {
                            None => Some(None),
                            Some(c) => Some(Some(body.subrange(g + 1, c))),
                        },
                    }
                }
            },
        }
    }
}

/// The text of the first child element named by one of `tags` (ASCII case
/// ignored; the opening tag may carry attributes).
pub open spec fn child_text_spec(body: Seq<char>, tags: Seq<Seq<char>>) -> Option<Seq<char>>
    decreases tags.len(),
{
    if tags.len() == 0 {
        None
    } else {
        match child_scan(body, lower_seq(body), lower_seq(tags[0]), 0) {
            None => child_text_spec(body, tags.drop_first()),
            Some(r) => r,
        }
    }
}

fn child_scan_exec(body: &[char], lower: &[char], t: &[char]) -> (r: Option<Option<Vec<char>>>)
    requires
        lower@ == lower_seq(body@),
    ensures
        match r {
            None => child_scan(body@, lower@, t@, 0) is None,
            Some(None) => child_scan(body@, lower@, t@, 0) == Some(None::<Seq<char>>),
            Some(Some(v)) => child_scan(body@, lower@, t@, 0) == Some(Some(v@)),
        },
{
    let mut open = one_char('<');
    crate::text::extend_chars(&mut open, t);
    let mut close = two_chars('<', '/');
    crate::text::extend_chars(&mut close, t);
    close.push('>');
    assert(open@ =~= seq!['<'] + t@);
    assert(close@ =~= seq!['<', '/'] + t@ + seq!['>']);
    let gt = one_char('>');
    let bl = body.len();
    let mut from: usize = 0;
    loop
        invariant
            open@ == seq!['<'] + t@,
            close@ == seq!['<', '/'] + t@ + seq!['>'],
            gt@ == seq!['>'],
            lower@ == lower_seq(body@),
            bl == body.len(),
            from <= body.len(),
            child_scan(body@, lower@, t@, 0) == child_scan(body@, lower@, t@, from as int),
        decreases body.len() + 1 - from,
    {
        let start = match find_exec(lower, open.as_slice(), from) {
            None => {
                return None;
            },
            Some(s) => s,
        };
        proof {
            lemma_find_from_some(lower@, open@, from as int);
        }
        let a = start + open.len();
        if a >= body.len() {
            return Some(None);
        }
        if body[a] != '>' && !is_ws_char(body[a]) {
            from = a;
        } else {
            let g = match find_exec(body, gt.as_slice(), a) {
                None => {
                    return Some(None);
                },
                Some(g) => g,
            };
            proof {
                lemma_find_from_some(body@, gt@, a as int);
            }
            let c = match find_exec(lower, close.as_slice(), g + 1) {
                None => {
                    return Some(None);
                },
                Some(c) => c,
            };
            proof {
                lemma_find_from_some(lower@, close@, g + 1);
            }
            return Some(Some(slice_of(body, g + 1, c)));
        }
    }
}

fn child_text(body: &[char], tags: &Vec<Vec<char>>) -> (r: Option<Vec<char>>)
    ensures
        match r {
            Some(v) => child_text_spec(body@, tags@.map_values(|t: Vec<char>| t@)) == Some(v@),
            None => child_text_spec(body@, tags@.map_values(|t: Vec<char>| t@)) is None,
        },
{
    let lower = lower_chars(body);
    let ghost all = tags@.map_values(|t: Vec<char>| t@);
    let mut i: usize = 0;
    assert(all.skip(0) =~= all);
    while i < tags.len()
        invariant
            i <= tags.len(),
            all == tags@.map_values(|t: Vec<char>| t@),
            lower@ == lower_seq(body@),
            child_text_spec(body@, all) == child_text_spec(body@, all.skip(i as int)),
        decreases tags.len() - i,
    {
        let t = lower_chars(tags[i].as_slice());
        let ghost rest = all.skip(i as int);
        assert(rest[0] == tags@[i as int]@);
        assert(rest.drop_first() =~= all.skip(i + 1));
        match child_scan_exec(body, lower.as_slice(), t.as_slice()) {
            None => {},
            Some(found) => {
                return found;
            },
        }
        i = i + 1;
    }
    None
}

/// `s` with every leading copy of `p` removed.
pub open spec fn strip_prefix_all(s: Seq<char>, p: Seq<char>) -> Seq<char>
    decreases s.len(),
{
    if p.len() > 0 && starts_with(s, p) {
        strip_prefix_all(s.skip(p.len() as int), p)
    } else {
        s
    }
}

/// `s` with every trailing copy of `p` removed.
pub open spec fn strip_suffix_all(s: Seq<char>, p: Seq<char>) -> Seq<char>
    decreases s.len(),
{
    if p.len() > 0 && ends_with(s, p) {
        strip_suffix_all(s.take(s.len() - p.len()), p)
    } else {
        s
    }
}

/// How many ASCII digits `s` starts with.
pub open spec fn digit_run(s: Seq<char>) -> nat
    decreases s.len(),
{
    if s.len() > 0 && is_digit(s[0]) {
        1 + digit_run(s.drop_first())
    } else {
        0
    }
}

/// The number in a child element: CDATA and blanks stripped, the leading
/// digits read.
pub open spec fn child_num_spec(body: Seq<char>, tags: Seq<Seq<char>>) -> Option<u64> {
    match child_text_spec(body, tags) {
        None => None,
        Some(raw) => {
            let c = trim(strip_suffix_all(strip_prefix_all(trim(raw), "<![CDATA["@), "]]>"@));
            let d = c.take(digit_run(c) as int);
            if d.len() == 0 {
                None
            } else {
                parse_u64_spec(d)
            }
        },
    }
}

fn strip_prefix_all_exec(s: &[char], p: &[char]) -> (r: Vec<char>)
    ensures
        r@ == strip_prefix_all(s@, p@),
{
    let mut cur = crate::text::copy_chars(s);
    if p.len() == 0 {
        return cur;
    }
    while starts_with_exec(cur.as_slice(), p)
        invariant
            p@.len() > 0,
            strip_prefix_all(s@, p@) == strip_prefix_all(cur@, p@),
        decreases cur@.len(),
    {
        let l = cur.len();
        cur = slice_of(cur.as_slice(), p.len(), l);
    }
    cur
}

fn strip_suffix_all_exec(s: &[char], p: &[char]) -> (r: Vec<char>)
    ensures
        r@ == strip_suffix_all(s@, p@),
{
    let mut cur = crate::text::copy_chars(s);
    if p.len() == 0 {
        return cur;
    }
    while ends_with_exec(cur.as_slice(), p)
        invariant
            p@.len() > 0,
            strip_suffix_all(s@, p@) == strip_suffix_all(cur@, p@),
        decreases cur@.len(),
    {
        let l = cur.len();
        cur = slice_of(cur.as_slice(), 0, l - p.len());
    }
    cur
}

proof fn lemma_digit_run(s: Seq<char>, i: int)
    requires
        0 <= i <= s.len(),
        forall|j: int| 0 <= j < i ==> is_digit(#[trigger] s[j]),
        i == s.len() || !is_digit(s[i]),
    ensures
        digit_run(s) == i,
    decreases i,
{
    if i > 0 {
        let t = s.drop_first();
        assert forall|j: int| 0 <= j < i - 1 implies is_digit(#[trigger] t[j]) by {
            assert(t[j] == s[j + 1]);
        }
        if i < s.len() {
            assert(t[i - 1] == s[i]);
        }
        lemma_digit_run(t, i - 1);
    }
}

fn child_num(body: &[char], tags: &Vec<Vec<char>>) -> (r: Option<u64>)
    ensures
        r == child_num_spec(body@, tags@.map_values(|t: Vec<char>| t@)),
{
    let raw = match child_text(body, tags) {
        None => {
            return None;
        },
        Some(v) => v,
    };
    let a = trim_chars(raw.as_slice());
    let b = strip_prefix_all_exec(a.as_slice(), chars_of("<![CDATA[").as_slice());
    let c0 = strip_suffix_all_exec(b.as_slice(), chars_of("]]>").as_slice());
    let c = trim_chars(c0.as_slice());
    let mut k: usize = 0;
    while k < c.len() && '0' <= c[k] && c[k] <= '9'
        invariant
            k <= c.len(),
            forall|j: int| 0 <= j < k ==> is_digit(#[trigger] c@[j]),
        decreases c.len() - k,
    {
        k = k + 1;
    }
    proof {
        lemma_digit_run(c@, k as int);
    }
    if k == 0 {
        return None;
    }
    let d = slice_of(c.as_slice(), 0, k);
    assert(d@ =~= c@.take(k as int));
    parse_u64(d.as_slice())
}

// ───────────────────────── numbers ─────────────────────────

/// The digits before and after the decimal point of a plain decimal number
/// (an optional `+`, digits, an optional `.` and digits; at least one digit).
pub open spec fn decimal_parts(t: Seq<char>) -> Option<(Seq<char>, Seq<char>)> {
    let body = if t.len() > 0 && t[0] == '+' { t.drop_first() } else { t };
    let i = first_stop(body, seq!['.']);
    let ip = body.take(i as int);
    let fp = if i < body.len() { body.skip(i + 1int) } else { Seq::empty() };
    if all_digits(ip) && all_digits(fp) && ip.len() + fp.len() > 0 {
        Some((ip, fp))
    } else {
        None
    }
}

/// Thousandths of the fraction digits, rounded half up at the fourth digit.
pub open spec fn frac_ms(fp: Seq<char>) -> int {
    let n = if fp.len() < 3 { fp.len() as int } else { 3 };
    let head = digits_value(fp.take(n));
    let scaled = if n == 0 { 0 } else if n == 1 { head * 100 } else if n == 2 { head * 10 } else { head };
    scaled + if fp.len() > 3 && fp[3] >= '5' { 1int } else { 0int }
}

/// Seconds with a decimal fraction as whole milliseconds, rounded; values
/// past `u64::MAX` stay at `u64::MAX`.
pub open spec fn secs_to_ms_spec(raw: Seq<char>) -> Option<u64> {
    match decimal_parts(trim(raw)) {
        None => None,
        Some((ip, fp)) => {
            let v = digits_value(ip) * 1000 + frac_ms(fp);
            Some(if v > u64::MAX { u64::MAX } else { v as u64 })
        },
    }
}

proof fn lemma_small_digits(s: Seq<char>)
    requires
        all_digits(s),
        s.len() <= 3,
    ensures
        0 <= digits_value(s) < 1000,
        s.len() <= 2 ==> digits_value(s) < 100,
        s.len() <= 1 ==> digits_value(s) < 10,
    decreases s.len(),
{
    if s.len() > 0 {
        assert(all_digits(s.drop_last()));
        lemma_small_digits(s.drop_last());
        assert(is_digit(s[s.len() - 1]));
    }
}

/// `"48.500"` → 48500: seconds to milliseconds by exact decimal reading.
pub fn parse_secs_to_ms(raw: &[char]) -> (r: Option<u64>)
    ensures
        r == secs_to_ms_spec(raw@),
{
    let t = trim_chars(raw);
    let body = if t.len() > 0 && t[0] == '+' {
        let b = slice_of(t.as_slice(), 1, t.len());
        assert(b@ =~= t@.drop_first());
        b
    } else {
        t
    };
    let dot = one_char('.');
    let i = first_stop_exec(body.as_slice(), dot.as_slice());
    let ip = slice_of(body.as_slice(), 0, i);
    assert(ip@ =~= body@.take(i as int));
    let fp = if i < body.len() {
        let f = slice_of(body.as_slice(), i + 1, body.len());
        assert(f@ =~= body@.skip(i + 1));
        f
    } else {
        Vec::new()
    };
    if !crate::text::all_digits_exec(ip.as_slice()) || !crate::text::all_digits_exec(fp.as_slice())
        || ip.len() + fp.len() == 0 {
        return None;
    }
    let n: usize = if fp.len() < 3 { fp.len() } else { 3 };
    let fhead = slice_of(fp.as_slice(), 0, n);
    assert(fhead@ =~= fp@.take(n as int));
    assert(all_digits(fhead@));
    proof {
        lemma_small_digits(fhead@);
    }
    let h = match digits_to_u64(fhead.as_slice()) {
        Some(h) => h,
        None => {
            return None;
        },
    };
    let scaled: u64 = if n == 0 { 0 } else if n == 1 { h * 100 } else if n == 2 { h * 10 } else { h };
    let round: u64 = if fp.len() > 3 && fp[3] >= '5' { 1 } else { 0 };
    let frac = scaled + round;
    match digits_to_u64(ip.as_slice()) {
        None => {
            proof {
                crate::text::lemma_digits_value_nonneg(fp@.take(n as int));
            }
            Some(u64::MAX)
        },
        Some(w) => {
            if w > (u64::MAX - frac) / 1000 {
                assert(w * 1000 + frac > u64::MAX) by (nonlinear_arith)
                    requires
                        w > (u64::MAX - frac) / 1000,
                        frac <= 1000,
                ;
                Some(u64::MAX)
            } else {
                assert(w * 1000 + frac <= u64::MAX) by (nonlinear_arith)
                    requires
                        w <= (u64::MAX - frac) / 1000,
                        frac <= 1000,
                ;
                Some(w * 1000 + frac)
            }
        },
    }
}

// ───────────────────────── records ─────────────────────────

/// The lower-cased file name of an image path, unless blank.
pub open spec fn exe_spec(image: Seq<char>) -> Option<Seq<char>> {
    let base = trim(after_last(image, seq!['\\', '/']));
    if base.len() == 0 {
        None
    } else {
        Some(lower_seq(base))
    }
}

fn exe_of(image: &[char]) -> (r: Option<Vec<char>>)
    ensures
        match r {
            Some(v) => exe_spec(image@) == Some(v@),
            None => exe_spec(image@) is None,
        },
{
    let seps = two_chars('\\', '/');
    let base = trim_chars(after_last_exec(image, seps.as_slice()).as_slice());
    if base.len() == 0 {
        None
    } else {
        Some(lower_chars(base.as_slice()))
    }
}

pub open spec fn cpu_tags() -> Seq<Seq<char>> {
    seq!["CpuUsage"@, "CPUUsage"@, "CpuTime"@]
}

pub open spec fn disk_tags() -> Seq<Seq<char>> {
    seq!["DiskUsage"@]
}

pub open spec fn start_tags() -> Seq<Seq<char>> {
    seq!["StartedInTraceSec"@]
}

/// The record a `<Process>` node gives: it needs a non-blank `Name` and a
/// `PID`; missing CPU or disk usage counts as 0.
pub open spec fn record_spec(head: Seq<char>, body: Seq<char>) -> Option<(Seq<char>, Seq<char>, u32, Option<u64>, u64, u64)> {
    match attr_spec(head, "Name"@) {
        None => None,
        Some(image) => if trim(image).len() == 0 {
            None
        } else {
            match exe_spec(image) {
                None => None,
                Some(exe) => match attr_spec(head, "PID"@) {
                    None => None,
                    Some(p) => match parse_u32_spec(trim(p)) {
                        None => None,
                        Some(pid) => {
                            let cpu_us = match child_num_spec(body, cpu_tags()) {
                                Some(v) => v,
                                None => 0,
                            };
                            let disk = match child_num_spec(body, disk_tags()) {
                                Some(v) => v,
                                None => 0,
                            };
                            let st = match attr_spec(head, "StartedInTraceSec"@) {
                                Some(v) => Some(v),
                                None => child_text_spec(body, start_tags()),
                            };
                            let started = match st {
                                Some(v) => secs_to_ms_spec(v),
                                None => None,
                            };
                            Some((exe, unescape_spec(image), pid, started, cpu_us / 1000, disk))
                        },
                    },
                },
            }
        },
    }
}

/// The records of the `<Process>` nodes from `cursor` on. A node whose
/// closing tag is missing (a truncated file) ends the scan, so no record
/// is half read.
pub open spec fn records_from(x: Seq<char>, cursor: int) -> Seq<(Seq<char>, Seq<char>, u32, Option<u64>, u64, u64)>
    decreases x.len() + 1 - cursor,
{
    if cursor < 0 || cursor > x.len() {
        Seq::empty()
    } else {
        match find_from(x, "<Process"@, cursor) {
            None => Seq::empty(),
            Some(start) => {
                proof {
                    lemma_find_from_some(x, "<Process"@, cursor);
                }
                match find_from(x, seq!['>'], start) {
                    None => Seq::empty(),
                    Some(gt) => {
                        proof {
                            lemma_find_from_some(x, seq!['>'], start);
                        }
                        let head = x.subrange(start, gt);
                        let bs = gt + 1;
                        let th = trim_end(head);
                        let self_closing = th.len() > 0 && th.last() == '/';
                        let be = if self_closing {
                            Some(bs)
                        } else {
                            find_from(x, "</Process>"@, bs)
                        };
                        match be {
                            None => Seq::empty(),
                            Some(e) => {
                                proof {
                                    if !self_closing {
                                        lemma_find_from_some(x, "</Process>"@, bs);
                                    }
                                }
                                let rest = records_from(x, e);
                                match record_spec(head, x.subrange(bs, e)) {
                                    Some(r) => seq![r] + rest,
                                    None => rest,
                                }
                            },
                        }
                    },
                }
            },
        }
    }
}

pub open spec fn records_view(v: Seq<StartupInfoRecord>) -> Seq<(Seq<char>, Seq<char>, u32, Option<u64>, u64, u64)> {
    v.map_values(|r: StartupInfoRecord| r@)
}

fn tag_list(names: &[&str]) -> (r: Vec<Vec<char>>)
    ensures
        r@.len() == names@.len(),
        forall|i: int| 0 <= i < names@.len() ==> (#[trigger] r@[i])@ == names@[i]@,
{
    let mut out: Vec<Vec<char>> = Vec::new();
    let mut i: usize = 0;
    while i < names.len()
        invariant
            i <= names.len(),
            out@.len() == i,
            forall|j: int| 0 <= j < i ==> (#[trigger] out@[j])@ == names@[j]@,
        decreases names.len() - i,
    {
        out.push(chars_of(names[i]));
        i = i + 1;
    }
    out
}

fn record_of(head: &[char], body: &[char]) -> (r: Option<StartupInfoRecord>)
    ensures
        match r {
            Some(rec) => record_spec(head@, body@) == Some(rec@),
            None => record_spec(head@, body@) is None,
        },
{
    let image = match attr_in(head, "Name") {
        None => {
            return None;
        },
        Some(v) => v,
    };
    if trim_chars(image.as_slice()).len() == 0 {
        return None;
    }
    let exe = match exe_of(image.as_slice()) {
        None => {
            return None;
        },
        Some(e) => e,
    };
    let pid = match attr_in(head, "PID") {
        None => {
            return None;
        },
        Some(p) => match parse_u32(trim_chars(p.as_slice()).as_slice()) {
            None => {
                return None;
            },
            Some(v) => v,
        },
    };
    let cpu = tag_list(&["CpuUsage", "CPUUsage", "CpuTime"]);
    assert(cpu@.map_values(|t: Vec<char>| t@) =~= cpu_tags());
    let disk = tag_list(&["DiskUsage"]);
    assert(disk@.map_values(|t: Vec<char>| t@) =~= disk_tags());
    let start = tag_list(&["StartedInTraceSec"]);
    assert(start@.map_values(|t: Vec<char>| t@) =~= start_tags());
    let cpu_us = match child_num(body, &cpu) {
        Some(v) => v,
        None => 0,
    };
    let disk_bytes = match child_num(body, &disk) {
        Some(v) => v,
        None => 0,
    };
    let st = match attr_in(head, "StartedInTraceSec") {
        Some(v) => Some(v),
        None => child_text(body, &start),
    };
    let started_in_trace_ms = match st {
        Some(v) => parse_secs_to_ms(v.as_slice()),
        None => None,
    };
    let img = unescape_xml(image.as_slice());
    Some(
        StartupInfoRecord {
            exe: string_of(exe.as_slice()),
            image: string_of(img.as_slice()),
            pid,
            started_in_trace_ms,
            cpu_ms: cpu_us / 1000,
            disk_bytes,
        },
    )
}

/// Reads every `<Process>` record of a `StartupInfo` document. Nodes
/// without a name or PID are skipped; a truncated last node is not read.
pub fn parse_records(xml: &str) -> (r: Vec<StartupInfoRecord>)
    ensures
        records_view(r@) == records_from(xml@, 0),
{
    let x = chars_of(xml);
    let open = chars_of("<Process");
    let gt = one_char('>');
    let close = chars_of("</Process>");
    let xl = x.len();
    let mut out: Vec<StartupInfoRecord> = Vec::new();
    let mut cursor: usize = 0;
    loop
        invariant
            xl == x.len(),
            cursor <= x.len(),
            open@ == "<Process"@,
            gt@ == seq!['>'],
            close@ == "</Process>"@,
            records_view(out@) + records_from(x@, cursor as int) == records_from(xml@, 0),
            x@ == xml@,
        decreases x.len() + 1 - cursor,
    {
        let ghost before = records_view(out@);
        let start = match find_exec(x.as_slice(), open.as_slice(), cursor) {
            None => {
                assert(records_view(out@) =~= records_from(xml@, 0));
                return out;
            },
            Some(s) => s,
        };
        proof {
            lemma_find_from_some(x@, open@, cursor as int);
        }
        let g = match find_exec(x.as_slice(), gt.as_slice(), start) {
            None => {
                assert(records_view(out@) =~= records_from(xml@, 0));
                return out;
            },
            Some(g) => g,
        };
        proof {
            lemma_find_from_some(x@, gt@, start as int);
        }
        let head = slice_of(x.as_slice(), start, g);
        let bs = g + 1;
        let th = trim_end_chars(head.as_slice());
        let self_closing = th.len() > 0 && th[th.len() - 1] == '/';
        let be = if self_closing {
            bs
        } else {
            match find_exec(x.as_slice(), close.as_slice(), bs) {
                None => {
                    assert(records_view(out@) =~= records_from(xml@, 0));
                    return out;
                },
                Some(e) => {
                    proof {
                        lemma_find_from_some(x@, close@, bs as int);
                    }
                    e
                },
            }
        };
        let body = slice_of(x.as_slice(), bs, be);
        match record_of(head.as_slice(), body.as_slice()) {
            Some(rec) => {
                out.push(rec);
                assert(records_view(out@) =~= before.push(rec@));
                assert(before + records_from(x@, cursor as int) =~= records_view(out@)
                    + records_from(x@, be as int));
            },
            None => {},
        }
        cursor = be;
    }
}

// ───────────────────────── the trace window ─────────────────────────

/// Skips the `<?…?>` and `<!…>` declarations from `i` and gives the head of
/// the root element (up to its `>`). `None` when the skipping runs past
/// the end of the text; `Some(None)` when there is no root head.
pub open spec fn root_scan(x: Seq<char>, i: int) -> Option<Option<Seq<char>>>
    decreases x.len() + 2 - i,
{
    if i < 0 || i > x.len() {
        None
    } else {
        let rest = x.skip(i);
        if starts_with(rest, "<?"@) || starts_with(rest, "<!"@) {
            let pos = match find_from(rest, "?>"@, 0) {
                Some(p) => Some(p),
                None => find_from(rest, seq!['>'], 0),
            };
            match pos {
                None => Some(None),
                Some(p) => {
                    proof {
                        if find_from(rest, "?>"@, 0) is Some {
                            lemma_find_from_some(rest, "?>"@, 0);
                        } else {
                            lemma_find_from_some(rest, seq!['>'], 0);
                        }
                    }
                    root_scan(x, i + p + 2)
                },
            }
        } else {
            match find_from(rest, seq!['>'], 0) {
                None => Some(None),
                Some(e) => Some(Some(rest.take(e))),
            }
        }
    }
}

pub open spec fn root_head_spec(x: Seq<char>) -> Option<Option<Seq<char>>> {
    match find_from(x, seq!['<'], 0) {
        None => Some(None),
        Some(s) => root_scan(x, s),
    }
}

/// Skipping declarations runs past the end of the text: such a document
/// has no root element and cannot be read.
pub open spec fn root_head_overruns(x: Seq<char>) -> bool {
    root_head_spec(x) is None
}

/// The trace window from the root's `IntervalStartMs` and
/// `IntervalEndMs`; only a positive length counts.
pub open spec fn window_spec(x: Seq<char>) -> Option<u64> {
    match root_head_spec(x) {
        Some(Some(head)) => match (attr_spec(head, "IntervalStartMs"@), attr_spec(head, "IntervalEndMs"@)) {
            (Some(a), Some(b)) => match (parse_i64_spec(trim(a)), parse_i64_spec(trim(b))) {
                (Some(s), Some(e)) => if e - s > 0 && e - s <= i64::MAX {
                    Some((e - s) as u64)
                } else {
                    None
                },
                _ => None,
            },
            _ => None,
        },
        _ => None,
    }
}

fn root_head(x: &[char]) -> (r: Option<Option<Vec<char>>>)
    ensures
        match r {
            None => root_head_spec(x@) is None,
            Some(None) => root_head_spec(x@) == Some(None::<Seq<char>>),
            Some(Some(h)) => root_head_spec(x@) == Some(Some(h@)),
        },
{
    let lt = one_char('<');
    let gt = one_char('>');
    let decl = two_chars('?', '>');
    let qm = two_chars('<', '?');
    let bang = two_chars('<', '!');
    assert(decl@ =~= "?>"@) by {
        reveal_strlit("?>");
    }
    assert(qm@ =~= "<?"@) by {
        reveal_strlit("<?");
    }
    assert(bang@ =~= "<!"@) by {
        reveal_strlit("<!");
    }
    let xl = x.len();
    let mut i = match find_exec(x, lt.as_slice(), 0) {
        None => {
            return Some(None);
        },
        Some(s) => s,
    };
    proof {
        lemma_find_from_some(x@, lt@, 0);
    }
    loop
        invariant
            xl == x.len(),
            i <= x.len(),
            gt@ == seq!['>'],
            decl@ == "?>"@,
            decl@ == seq!['?', '>'],
            qm@ == "<?"@,
            bang@ == "<!"@,
            root_head_spec(x@) == root_scan(x@, i as int),
        decreases x.len() + 2 - i,
    {
        let rest = slice_of(x, i, x.len());
        assert(rest@ =~= x@.skip(i as int));
        if starts_with_exec(rest.as_slice(), qm.as_slice()) || starts_with_exec(
            rest.as_slice(),
            bang.as_slice(),
        ) {
            let pos = match find_exec(rest.as_slice(), decl.as_slice(), 0) {
                Some(p) => {
                    proof {
                        lemma_find_from_some(rest@, decl@, 0);
                    }
                    p
                },
                None => match find_exec(rest.as_slice(), gt.as_slice(), 0) {
                    Some(p) => {
                        proof {
                            lemma_find_from_some(rest@, gt@, 0);
                        }
                        p
                    },
                    None => {
                        return Some(None);
                    },
                },
            };
            if pos + 1 >= x.len() - i {
                assert(root_scan(x@, i + pos + 2) is None);
                return None;
            }
            i = i + pos + 2;
        } else {
            return match find_exec(rest.as_slice(), gt.as_slice(), 0) {
                None => Some(None),
                Some(e) => {
                    proof {
                        lemma_find_from_some(rest@, gt@, 0);
                    }
                    Some(Some(slice_of(rest.as_slice(), 0, e)))
                },
            };
        }
    }
}

/// The length of the trace window: `IntervalEndMs - IntervalStartMs` of
/// the root element, when positive.
pub fn parse_window_ms(xml: &str) -> (r: Option<u64>)
    requires
        !root_head_overruns(xml@),
    ensures
        r == window_spec(xml@),
{
    let x = chars_of(xml);
    let head = match root_head(x.as_slice()) {
        Some(Some(h)) => h,
        _ => {
            return None;
        },
    };
    let a = match attr_in(head.as_slice(), "IntervalStartMs") {
        Some(a) => a,
        None => {
            return None;
        },
    };
    let b = match attr_in(head.as_slice(), "IntervalEndMs") {
        Some(b) => b,
        None => {
            return None;
        },
    };
    let s = match parse_i64(trim_chars(a.as_slice()).as_slice()) {
        Some(s) => s,
        None => {
            return None;
        },
    };
    let e = match parse_i64(trim_chars(b.as_slice()).as_slice()) {
        Some(e) => e,
        None => {
            return None;
        },
    };
    match e.checked_sub(s) {
        Some(diff) => if diff > 0 {
            Some(diff as u64)
        } else {
            None
        },
        None => None,
    }
}

/// Whether reading the root head of `xml` would run past its end, the one
/// input on which `parse_window_ms` may not be called.
pub fn window_overruns(xml: &str) -> (r: bool)
    ensures
        r == root_head_overruns(xml@),
{
    let x = chars_of(xml);
    match root_head(x.as_slice()) {
        None => true,
        Some(_) => false,
    }
}

// ───────────────────────── text encoding ─────────────────────────

/// UTF-16 decoding, as `String::from_utf16_lossy` does it: a unit outside
/// the surrogate range is its own character; a high surrogate followed by a
/// low one is the character they encode together; any other surrogate is
/// invalid and becomes U+FFFD.
pub open spec fn utf16_lossy(units: Seq<u16>) -> Seq<char>
    decreases units.len(),
{
    if units.len() == 0 {
        Seq::empty()
    } else {
        let a = units[0];
        if a < 0xD800 || a > 0xDFFF {
            seq![a as char] + utf16_lossy(units.drop_first())
        } else if a <= 0xDBFF && units.len() >= 2 && 0xDC00 <= units[1] <= 0xDFFF {
            let c = 0x10000 + (a - 0xD800) * 0x400 + (units[1] - 0xDC00);
            seq![c as char] + utf16_lossy(units.skip(2))
        } else {
            seq!['\u{FFFD}'] + utf16_lossy(units.drop_first())
        }
    }
}

/// What `String::from_utf8_lossy` makes of bytes.
pub uninterp spec fn utf8_lossy(bytes: Seq<u8>) -> Seq<char>;

/// `String::from_utf16_lossy(units)`: the text of the code units, with
/// U+FFFD for every unpaired surrogate (std documents it as decoding UTF-16
/// and replacing invalid data with the replacement character).
#[verifier::external_body]
pub(crate) fn from_utf16(units: &[u16]) -> (r: String)
    ensures
        r@ == utf16_lossy(units@),
{
    String::from_utf16_lossy(units)
}

/// `String::from_utf8_lossy(bytes).into_owned()`: the text of the bytes,
/// with U+FFFD for invalid sequences. Its value is the named result
/// `utf8_lossy` of the bytes; of valid UTF-8 (the encoding of some text)
/// it is that text, as std documents.
#[verifier::external_body]
fn from_utf8(bytes: &[u8]) -> (r: String)
    ensures
        r@ == utf8_lossy(bytes@),
        forall|t: Seq<char>| #[trigger] utf8_encode(t) == bytes@ ==> r@ == t,
{
    String::from_utf8_lossy(bytes).into_owned()
}

/// Little-endian code units of byte pairs (an odd last byte is dropped).
pub open spec fn le_units(b: Seq<u8>) -> Seq<u16> {
    Seq::new(b.len() / 2, |i: int| (b[2 * i] + 256 * b[2 * i + 1]) as u16)
}

/// Big-endian code units of byte pairs (an odd last byte is dropped).
pub open spec fn be_units(b: Seq<u8>) -> Seq<u16> {
    Seq::new(b.len() / 2, |i: int| (256 * b[2 * i] + b[2 * i + 1]) as u16)
}

/// How many of the odd positions below `n` hold a zero byte.
pub open spec fn odd_nuls(s: Seq<u8>, n: int) -> nat
    decreases n,
{
    if n <= 0 {
        0
    } else {
        odd_nuls(s, n - 1) + if (n - 1) % 2 == 1 && s[n - 1] == 0 { 1nat } else { 0nat }
    }
}

/// Text without a byte order mark looks like UTF-16 when, in its first 64
/// bytes, at least half of the odd positions hold a zero byte.
pub open spec fn looks_utf16(b: Seq<u8>) -> bool {
    let n = if b.len() < 64 { b.len() as int } else { 64 };
    let odd_slots = n / 2;
    b.len() >= 4 && odd_slots > 0 && odd_nuls(b, n) * 2 >= odd_slots
}

/// The text of a WDI file: UTF-16 LE or BE by byte order mark, UTF-16 LE by
/// the distribution of zero bytes, else UTF-8.
pub open spec fn decode_spec(b: Seq<u8>) -> Seq<char> {
    if b.len() >= 2 && b[0] == 0xFF && b[1] == 0xFE {
        utf16_lossy(le_units(b.skip(2)))
    } else if b.len() >= 2 && b[0] == 0xFE && b[1] == 0xFF {
        utf16_lossy(be_units(b.skip(2)))
    } else if looks_utf16(b) {
        utf16_lossy(le_units(b))
    } else {
        utf8_lossy(b)
    }
}

pub(crate) fn units_of(b: &[u8], start: usize, big_endian: bool) -> (r: Vec<u16>)
    requires
        start <= b.len(),
    ensures
        r@ == (if big_endian {
            be_units(b@.skip(start as int))
        } else {
            le_units(b@.skip(start as int))
        }),
{
    let ghost t = b@.skip(start as int);
    let n = (b.len() - start) / 2;
    let mut out: Vec<u16> = Vec::new();
    let mut i: usize = 0;
    while i < n
        invariant
            i <= n,
            n == t.len() / 2,
            t == b@.skip(start as int),
            start <= b.len(),
            out@.len() == i,
            forall|j: int| 0 <= j < i ==> #[trigger] out@[j] == (if big_endian {
                (256 * t[2 * j] + t[2 * j + 1]) as u16
            } else {
                (t[2 * j] + 256 * t[2 * j + 1]) as u16
            }),
        decreases n - i,
    {
        let lo = b[start + 2 * i];
        let hi = b[start + 2 * i + 1];
        assert(t[2 * i] == lo && t[2 * i + 1] == hi);
        let u: u16 = if big_endian {
            (lo as u16) * 256 + (hi as u16)
        } else {
            (hi as u16) * 256 + (lo as u16)
        };
        out.push(u);
        i = i + 1;
    }
    if big_endian {
        assert(out@ =~= be_units(t));
    } else {
        assert(out@ =~= le_units(t));
    }
    out
}

/// Decodes a WDI file, which Windows writes as UTF-16 LE with a byte order
/// mark; BE and mark-less UTF-16 are recognised too, anything else is
/// read as UTF-8.
pub fn decode_bytes(bytes: &[u8]) -> (r: String)
    ensures
        r@ == decode_spec(bytes@),
        forall|t: Seq<char>| #[trigger] utf8_encode(t) == bytes@ && !t.contains('\0') ==> r@ == t,
{
    if bytes.len() >= 2 && bytes[0] == 0xFF && bytes[1] == 0xFE {
        let u = units_of(bytes, 2, false);
        proof {
            assert forall|t: Seq<char>| #[trigger] utf8_encode(t) == bytes@ && !t.contains('\0') implies false by {
                lemma_utf8_text_is_read_as_utf8(t);
            }
        }
        return from_utf16(u.as_slice());
    }
    if bytes.len() >= 2 && bytes[0] == 0xFE && bytes[1] == 0xFF {
        let u = units_of(bytes, 2, true);
        proof {
            assert forall|t: Seq<char>| #[trigger] utf8_encode(t) == bytes@ && !t.contains('\0') implies false by {
                lemma_utf8_text_is_read_as_utf8(t);
            }
        }
        return from_utf16(u.as_slice());
    }
    if bytes.len() >= 4 {
        let n: usize = if bytes.len() < 64 { bytes.len() } else { 64 };
        let mut nuls: usize = 0;
        let mut k: usize = 0;
        while k < n
            invariant
                k <= n,
                n <= bytes.len(),
                n <= 64,
                nuls == odd_nuls(bytes@, k as int),
                nuls <= k,
            decreases n - k,
        {
            if k % 2 == 1 && bytes[k] == 0 {
                nuls = nuls + 1;
            }
            k = k + 1;
        }
        let odd_slots = n / 2;
        if odd_slots > 0 && nuls * 2 >= odd_slots {
            let u = units_of(bytes, 0, false);
            assert(bytes@.skip(0) =~= bytes@);
            assert(looks_utf16(bytes@));
            proof {
                assert forall|t: Seq<char>| #[trigger] utf8_encode(t) == bytes@ && !t.contains('\0') implies false by {
                    lemma_utf8_text_is_read_as_utf8(t);
                }
            }
            return from_utf16(u.as_slice());
        }
    }
    from_utf8(bytes)
}

// ───────────────────────── encodings written back ─────────────────────────

/// The UTF-16 code units of one character.
pub open spec fn utf16_units(c: char) -> Seq<u16> {
    let v = c as u32 as int;
    if v < 0x10000 {
        seq![v as u16]
    } else {
        let w = v - 0x10000;
        seq![(0xD800 + w / 0x400) as u16, (0xDC00 + w % 0x400) as u16]
    }
}

/// A text in UTF-16 code units.
pub open spec fn utf16_encode(s: Seq<char>) -> Seq<u16>
    decreases s.len(),
{
    if s.len() == 0 {
        Seq::empty()
    } else {
        utf16_units(s[0]) + utf16_encode(s.drop_first())
    }
}

/// Code units as little-endian byte pairs.
pub open spec fn le_bytes(us: Seq<u16>) -> Seq<u8> {
    Seq::new(2 * us.len(), |j: int| if j % 2 == 0 { (us[j / 2] % 256) as u8 } else { (us[j / 2] / 256) as u8 })
}

/// Code units as big-endian byte pairs.
pub open spec fn be_bytes(us: Seq<u16>) -> Seq<u8> {
    Seq::new(2 * us.len(), |j: int| if j % 2 == 0 { (us[j / 2] / 256) as u8 } else { (us[j / 2] % 256) as u8 })
}

/// The UTF-8 bytes of one character.
pub open spec fn utf8_char(c: char) -> Seq<u8> {
    let v = c as u32 as int;
    if v < 0x80 {
        seq![v as u8]
    } else if v < 0x800 {
        seq![(0xC0 + v / 64) as u8, (0x80 + v % 64) as u8]
    } else if v < 0x10000 {
        seq![(0xE0 + v / 4096) as u8, (0x80 + (v / 64) % 64) as u8, (0x80 + v % 64) as u8]
    } else {
        seq![(0xF0 + v / 262144) as u8, (0x80 + (v / 4096) % 64) as u8, (0x80 + (v / 64) % 64) as u8,
            (0x80 + v % 64) as u8]
    }
}

/// A text in UTF-8.
pub open spec fn utf8_encode(s: Seq<char>) -> Seq<u8>
    decreases s.len(),
{
    if s.len() == 0 {
        Seq::empty()
    } else {
        utf8_encode(s.drop_last()) + utf8_char(s.last())
    }
}

/// A character's code point is a Unicode scalar value.
proof fn lemma_char_value(c: char)
    ensures
        c as u32 as int == c as int,
        (c as u32) <= 0x10FFFF,
        !(0xD800 <= (c as u32) <= 0xDFFF),
        forall|x: int| x == c as int ==> #[trigger] (x as char) == c,
{
}

proof fn lemma_utf16_round_trip(s: Seq<char>)
    ensures
        utf16_lossy(utf16_encode(s)) == s,
    decreases s.len(),
{
    if s.len() > 0 {
        let c = s[0];
        let v = c as u32 as int;
        lemma_char_value(c);
        let rest = utf16_encode(s.drop_first());
        let u = utf16_encode(s);
        lemma_utf16_round_trip(s.drop_first());
        assert(u == utf16_units(c) + rest);
        if v < 0x10000 {
            assert(u[0] == v as u16);
            assert((v as u16) as int == v);
            assert(u.drop_first() =~= rest);
            assert((u[0] as char) == c);
            assert(s =~= seq![c] + s.drop_first());
        } else {
            let w = v - 0x10000;
            assert(0 <= w < 0x100000);
            assert(0 <= w / 0x400 < 0x400 && 0 <= w % 0x400 < 0x400) by (nonlinear_arith)
                requires 0 <= w < 0x100000;
            assert(u[0] == (0xD800 + w / 0x400) as u16);
            assert(u[1] == (0xDC00 + w % 0x400) as u16);
            assert(u.skip(2) =~= rest);
            assert(0x10000 + (w / 0x400) * 0x400 + w % 0x400 == v) by (nonlinear_arith)
                requires w == v - 0x10000, w >= 0;
            assert(((0x10000 + (u[0] - 0xD800) * 0x400 + (u[1] - 0xDC00)) as char) == c);
            assert(s =~= seq![c] + s.drop_first());
        }
    }
}

proof fn lemma_le_round_trip(us: Seq<u16>)
    ensures
        le_units(le_bytes(us)) == us,
        be_units(be_bytes(us)) == us,
{
    let b = le_bytes(us);
    let e = be_bytes(us);
    assert forall|i: int| 0 <= i < us.len() implies le_units(b)[i] == us[i] && be_units(e)[i] == us[i] by {
        assert((2 * i) % 2 == 0 && (2 * i) / 2 == i && (2 * i + 1) % 2 == 1 && (2 * i + 1) / 2 == i);
        let x = us[i] as int;
        assert(x % 256 + 256 * (x / 256) == x) by (nonlinear_arith);
        assert(0 <= x / 256 < 256 && 0 <= x % 256 < 256) by (nonlinear_arith)
            requires 0 <= x < 0x10000;
    }
    assert(le_units(b) =~= us);
    assert(be_units(e) =~= us);
}

/// A text written as UTF-16 (little- or big-endian, with its byte order
/// mark) is read back as that text.
pub proof fn lemma_decode_reads_back_utf16(s: Seq<char>)
    ensures
        decode_spec(seq![0xFFu8, 0xFEu8] + le_bytes(utf16_encode(s))) == s,
        decode_spec(seq![0xFEu8, 0xFFu8] + be_bytes(utf16_encode(s))) == s,
{
    let us = utf16_encode(s);
    lemma_utf16_round_trip(s);
    lemma_le_round_trip(us);
    assert((seq![0xFFu8, 0xFEu8] + le_bytes(us)).skip(2) =~= le_bytes(us));
    assert((seq![0xFEu8, 0xFFu8] + be_bytes(us)).skip(2) =~= be_bytes(us));
}

proof fn lemma_utf8_char_bytes(c: char)
    requires
        c != '\0',
    ensures
        utf8_char(c).len() >= 1,
        forall|j: int| 0 <= j < utf8_char(c).len() ==> 0 < #[trigger] utf8_char(c)[j] < 0xF5,
{
    let v = c as u32 as int;
    assert(0 < v <= 0x10FFFF);
    if v < 0x80 {
    } else if v < 0x800 {
        assert(0xC0 + v / 64 < 0xE0 && 0x80 + v % 64 < 0xC0) by (nonlinear_arith) requires 0x80 <= v < 0x800;
    } else if v < 0x10000 {
        assert(0xE0 + v / 4096 < 0xF0 && 0x80 + (v / 64) % 64 < 0xC0 && 0x80 + v % 64 < 0xC0) by (nonlinear_arith)
            requires 0x800 <= v < 0x10000;
    } else {
        assert(0xF0 + v / 262144 < 0xF5 && 0x80 + (v / 4096) % 64 < 0xC0 && 0x80 + (v / 64) % 64 < 0xC0
            && 0x80 + v % 64 < 0xC0) by (nonlinear_arith)
            requires 0x10000 <= v <= 0x10FFFF;
    }
}

proof fn lemma_utf8_bytes(s: Seq<char>)
    requires
        !s.contains('\0'),
    ensures
        forall|j: int| 0 <= j < utf8_encode(s).len() ==> 0 < #[trigger] utf8_encode(s)[j] < 0xF5,
    decreases s.len(),
{
    if s.len() > 0 {
        let t = s.drop_last();
        assert(!t.contains('\0')) by {
            if t.contains('\0') {
                let k = choose|k: int| 0 <= k < t.len() && t[k] == '\0';
                assert(s[k] == '\0');
            }
        }
        lemma_utf8_bytes(t);
        assert(s.last() != '\0') by {
            if s.last() == '\0' {
                assert(s[s.len() - 1] == '\0');
            }
        }
        lemma_utf8_char_bytes(s.last());
        let a = utf8_encode(t);
        let b = utf8_char(s.last());
        assert forall|j: int| 0 <= j < utf8_encode(s).len() implies 0 < #[trigger] utf8_encode(s)[j] < 0xF5 by {
            assert(utf8_encode(s) == a + b);
            if j >= a.len() {
                assert(utf8_encode(s)[j] == b[j - a.len()]);
            }
        }
    }
}

proof fn lemma_no_odd_nuls(b: Seq<u8>, n: int)
    requires
        n <= b.len(),
        forall|j: int| 0 <= j < b.len() ==> #[trigger] b[j] != 0,
    ensures
        odd_nuls(b, n) == 0,
    decreases n,
{
    if n > 0 {
        lemma_no_odd_nuls(b, n - 1);
    }
}

/// Text written as UTF-8 without NUL characters takes the UTF-8 way: it
/// has no byte order mark and no zero bytes to look like UTF-16.
pub proof fn lemma_utf8_text_is_read_as_utf8(s: Seq<char>)
    requires
        !s.contains('\0'),
    ensures
        decode_spec(utf8_encode(s)) == utf8_lossy(utf8_encode(s)),
        utf8_encode(s).len() > 0 ==> utf8_encode(s)[0] < 0xF5,
        !looks_utf16(utf8_encode(s)),
{
    let b = utf8_encode(s);
    lemma_utf8_bytes(s);
    let n = if b.len() < 64 { b.len() as int } else { 64 };
    lemma_no_odd_nuls(b, n);
}

// ───────────────────────── reading the file ─────────────────────────

/// The WDI file that was picked and read, with whose logon it records.
#[derive(Debug, Clone)]
pub struct WdiFile {
    pub bytes: Vec<u8>,
    pub source_sid: Option<String>,
    pub is_current_user: bool,
    pub source_file: Option<String>,
}

pub const NO_RECORDS: &'static str = "文件读到了，但里面没有任何可解析的进程记录（格式与已知版本不同）。";

/// What `capture` reports for the file it was handed, or for the reason
/// no file could be read.
pub open spec fn capture_spec(found: Result<WdiFile, String>, r: StartupInfoReport) -> bool {
    match found {
        Err(why) => {
            &&& opt_chars(r.unavailable_reason) == Some(why@)
            &&& r.window_ms is None
            &&& r.records@.len() == 0
            &&& r.source_sid is None
            &&& !r.is_current_user
            &&& r.source_file is None
        },
        Ok(f) => {
            let x = decode_spec(f.bytes@);
            let recs = records_from(x, 0);
            &&& r.source_sid == f.source_sid
            &&& r.is_current_user == f.is_current_user
            &&& r.source_file == f.source_file
            &&& records_view(r.records@) == recs
            &&& if recs.len() == 0 {
                &&& opt_chars(r.unavailable_reason) == Some(NO_RECORDS@)
                &&& r.window_ms is None
            } else {
                &&& r.unavailable_reason is None
                &&& r.window_ms == window_spec(x)
            }
        },
    }
}

/// The report for a WDI file that was found and read (or for why none
/// could be): the decoded records and the trace window. A file without a
/// single record is reported as such, not as an empty success.
pub fn capture(found: Result<WdiFile, String>) -> (r: StartupInfoReport)
    requires
        found matches Ok(f) ==> (records_from(decode_spec(f.bytes@), 0).len() > 0
            ==> !root_head_overruns(decode_spec(f.bytes@))),
    ensures
        capture_spec(found, r),
{
    let f = match found {
        Err(why) => {
            return StartupInfoReport::unavailable(why);
        },
        Ok(f) => f,
    };
    let xml = decode_bytes(f.bytes.as_slice());
    let records = parse_records(xml.as_str());
    if records.len() == 0 {
        let mut m = String::new();
        push_str(&mut m, NO_RECORDS);
        return StartupInfoReport {
            window_ms: None,
            records,
            source_sid: f.source_sid,
            is_current_user: f.is_current_user,
            source_file: f.source_file,
            unavailable_reason: Some(m),
        };
    }
    StartupInfoReport {
        window_ms: parse_window_ms(xml.as_str()),
        records,
        source_sid: f.source_sid,
        is_current_user: f.is_current_user,
        source_file: f.source_file,
        unavailable_reason: None,
    }
}

pub const HEAD_OVERRUN: &'static str = "文件的根元素不完整（声明部分一直延续到文件末尾），无法读出记录窗口。";

/// The report for a WDI file that was found and read, for any content: a
/// file whose records parse but whose root element runs past the end of
/// the text is reported as unavailable with `HEAD_OVERRUN`; every other
/// file is reported as `capture` does.
pub fn capture_file(found: Result<WdiFile, String>) -> (r: StartupInfoReport)
    ensures
        match found {
            Ok(f) => if records_from(decode_spec(f.bytes@), 0).len() > 0 && root_head_overruns(decode_spec(f.bytes@)) {
                &&& opt_chars(r.unavailable_reason) == Some(HEAD_OVERRUN@)
                &&& r.window_ms is None && r.records@.len() == 0
                &&& r.source_sid is None && !r.is_current_user && r.source_file is None
            } else {
                capture_spec(found, r)
            },
            Err(_) => capture_spec(found, r),
        },
{
    match &found {
        Ok(f) => {
            let xml = decode_bytes(f.bytes.as_slice());
            let records = parse_records(xml.as_str());
            if records.len() > 0 && window_overruns(xml.as_str()) {
                return StartupInfoReport::unavailable(crate::text::owned(HEAD_OVERRUN));
            }
        },
        Err(_) => {},
    }
    capture(found)
}

/// Why listing or reading the WDI directory failed.
#[derive(Debug, Clone)]
pub enum AccessFailure {
    PermissionDenied,
    NotFound,
    Other(String),
}

pub const ACCESS_DENIED_TEXT: &'static str = "读取这份数据需要管理员权限，当前以普通权限运行。以管理员身份重开本程序即可看到。";

pub const NOT_FOUND_TEXT: &'static str = "系统里还没有这份记录（Windows 会在每次登录后生成一份，也可能被策略关掉了）。";

pub open spec fn access_error_text(e: AccessFailure) -> Seq<char> {
    match e {
        AccessFailure::PermissionDenied => ACCESS_DENIED_TEXT@,
        AccessFailure::NotFound => NOT_FOUND_TEXT@,
        AccessFailure::Other(d) => "读取开机启动记录失败："@ + d@,
    }
}

/// Says in plain words why the records could not be read, keeping "no
/// permission" (retry as administrator) apart from "not there" (wait for
/// Windows to write it).
pub fn classify_access_error(e: &AccessFailure) -> (r: String)
    ensures
        r@ == access_error_text(*e),
{
    let mut m = String::new();
    match e {
        AccessFailure::PermissionDenied => push_str(&mut m, ACCESS_DENIED_TEXT),
        AccessFailure::NotFound => push_str(&mut m, NOT_FOUND_TEXT),
        AccessFailure::Other(d) => {
            push_str(&mut m, "读取开机启动记录失败：");
            push_str(&mut m, d.as_str());
        },
    }
    m
}

/// The SID in a file name `<SID>_StartupInfo<n>.xml`, when it looks like one.
pub open spec fn sid_spec(name: Seq<char>) -> Option<Seq<char>> {
    match find_from(name, "_StartupInfo"@, 0) {
        None => None,
        Some(i) => if starts_with(name.take(i), "S-1-"@) {
            Some(name.take(i))
        } else {
            None
        },
    }
}

pub fn sid_of(file_name: &str) -> (r: Option<String>)
    ensures
        opt_chars(r) == sid_spec(file_name@),
{
    let n = chars_of(file_name);
    let marker = chars_of("_StartupInfo");
    match find_exec(n.as_slice(), marker.as_slice(), 0) {
        None => None,
        Some(i) => {
            proof {
                lemma_find_from_some(n@, marker@, 0);
            }
            let sid = slice_of(n.as_slice(), 0, i);
            assert(sid@ =~= n@.take(i as int));
            let prefix = chars_of("S-1-");
            if starts_with_exec(sid.as_slice(), prefix.as_slice()) {
                Some(string_of(sid.as_slice()))
            } else {
                None
            }
        },
    }
}

// ───────────────────────── choosing the file ─────────────────────────

/// Whether a file counts: any file when no SID is asked for, else a file
/// whose name carries that SID.
pub open spec fn file_counts(name: Seq<char>, sid: Option<Seq<char>>) -> bool {
    match sid {
        None => true,
        Some(x) => sid_spec(name) == Some(x),
    }
}

/// The newest counting file among the first `n` (name, modification time)
/// pairs; of several equally new ones, the last.
pub open spec fn newest_of(files: Seq<(String, u64)>, sid: Option<Seq<char>>, n: int) -> Option<int>
    decreases n,
{
    if n <= 0 {
        None
    } else {
        let p = newest_of(files, sid, n - 1);
        if file_counts(files[n - 1].0@, sid) {
            match p {
                None => Some(n - 1),
                Some(k) => if files[n - 1].1 >= files[k].1 { Some(n - 1) } else { Some(k) },
            }
        } else {
            p
        }
    }
}

/// Which WDI file is read: the current user's newest when there is one
/// (flag `true`); else the newest file of any user (flag `false`, the
/// report must say it is someone else's logon); none when there are no
/// files.
pub open spec fn pick_spec(files: Seq<(String, u64)>, own_sid: Option<Seq<char>>) -> Option<(int, bool)> {
    let fallback = match newest_of(files, None, files.len() as int) {
        Some(i) => Some((i, false)),
        None => None,
    };
    match own_sid {
        Some(x) => match newest_of(files, Some(x), files.len() as int) {
            Some(i) => Some((i, true)),
            None => fallback,
        },
        None => fallback,
    }
}

/// The newest counting file is a counting file, no counting file is newer,
/// and there is one as soon as some file counts.
pub proof fn lemma_newest_is_newest(files: Seq<(String, u64)>, sid: Option<Seq<char>>, n: int)
    requires
        0 <= n <= files.len(),
    ensures
        newest_of(files, sid, n) matches Some(i) ==> {
            &&& 0 <= i < n
            &&& file_counts(files[i].0@, sid)
            &&& forall|j: int| 0 <= j < n && file_counts(#[trigger] files[j].0@, sid) ==> files[j].1 <= files[i].1
        },
        (newest_of(files, sid, n) is None) <==> (forall|j: int| 0 <= j < n ==> !file_counts(#[trigger] files[j].0@, sid)),
    decreases n,
{
    if n > 0 {
        lemma_newest_is_newest(files, sid, n - 1);
    }
}

fn newest_index(files: &Vec<(String, u64)>, sid: &Option<String>) -> (r: Option<usize>)
    ensures
        match r {
            Some(i) => newest_of(files@, opt_chars(*sid), files@.len() as int) == Some(i as int),
            None => newest_of(files@, opt_chars(*sid), files@.len() as int) is None,
        },
{
    let mut best: Option<usize> = None;
    let mut i: usize = 0;
    while i < files.len()
        invariant
            i <= files.len(),
            match best {
                Some(k) => k < i && newest_of(files@, opt_chars(*sid), i as int) == Some(k as int),
                None => newest_of(files@, opt_chars(*sid), i as int) is None,
            },
        decreases files.len() - i,
    {
        let counts = match sid {
            None => true,
            Some(x) => match sid_of(files[i].0.as_str()) {
                Some(y) => crate::text::chars_eq(chars_of(y.as_str()).as_slice(), chars_of(x.as_str()).as_slice()),
                None => false,
            },
        };
        assert(counts == file_counts(files@[i as int].0@, opt_chars(*sid)));
        if counts {
            best = match best {
                None => Some(i),
                Some(k) => if files[i].1 >= files[k].1 { Some(i) } else { Some(k) },
            };
        }
        i = i + 1;
    }
    best
}

/// The WDI file to read, given each file's name and modification time and
/// the current user's SID: its index, and whether it is the current user's.
pub fn pick_wdi_file(files: &Vec<(String, u64)>, own_sid: &Option<String>) -> (r: Option<(usize, bool)>)
    ensures
        match r {
            Some((i, mine)) => pick_spec(files@, opt_chars(*own_sid)) == Some((i as int, mine)),
            None => pick_spec(files@, opt_chars(*own_sid)) is None,
        },
{
    let mine = match own_sid {
        Some(_) => newest_index(files, own_sid),
        None => None,
    };
    match mine {
        Some(i) => Some((i, true)),
        None => match newest_index(files, &None) {
            Some(i) => Some((i, false)),
            None => None,
        },
    }
}

pub const NO_IMPACT_RECORDS: &'static str = "这次没有读到任何开机启动影响记录。";

impl ImpactOverview {
    /// The overview of one reading; `matched_count` is filled in later.
    /// A reading without records always carries a reason, so the user is
    /// never left to guess between "empty" and "not read".
    pub fn from_report(rep: &StartupInfoReport) -> (r: ImpactOverview)
        ensures
            r.window_ms == rep.window_ms,
            r.record_count == rep.records@.len(),
            r.matched_count == 0,
            r.source_sid == rep.source_sid,
            r.is_current_user == rep.is_current_user,
            r.source_file == rep.source_file,
            opt_chars(r.unavailable_reason) == match rep.unavailable_reason {
                Some(why) => Some(why@),
                None => if rep.records@.len() == 0 {
                    Some(NO_IMPACT_RECORDS@)
                } else {
                    None
                },
            },
    {
        let reason = match &rep.unavailable_reason {
            Some(why) => Some(why.clone()),
            None => if rep.records.len() == 0 {
                let mut m = String::new();
                push_str(&mut m, NO_IMPACT_RECORDS);
                Some(m)
            } else {
                None
            },
        };
        let sid = match &rep.source_sid {
            Some(s) => Some(s.clone()),
            None => None,
        };
        let file = match &rep.source_file {
            Some(s) => Some(s.clone()),
            None => None,
        };
        ImpactOverview {
            window_ms: rep.window_ms,
            record_count: rep.records.len(),
            matched_count: 0,
            source_sid: sid,
            is_current_user: rep.is_current_user,
            source_file: file,
            unavailable_reason: reason,
        }
    }
}

} // verus!
