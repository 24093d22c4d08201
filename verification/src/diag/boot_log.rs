//! Reading the boot performance events.
//!
//! The events come from the `Microsoft-Windows-Diagnostics-Performance/
//! Operational` channel: 100 is the boot itself with its phase fields,
//! 101/102/103 name an application, driver or service that started slowly.
//! Fields are read by `Data@Name`, never by position, and a missing field
//! is only missing. Reading the channel needs administrator rights, so the
//! outcome keeps "no permission" apart from "no data".

use vstd::prelude::*;
use crate::text::{
    chars_of, find_exec, find_from, lemma_find_from_some, lower_chars, lower_seq, one_char,
    opt_chars, parse_u32, parse_u32_spec, parse_u64, parse_u64_spec, push_chars, push_str,
    slice_of, string_of, trim, trim_chars, trim_end, trim_end_chars,
};

verus! {

/// How many events one reading keeps at most.
pub const MAX_EVENTS: usize = 64;

// ───────────────────────── event data ─────────────────────────

/// The map that a sequence of insertions leaves behind (a later insertion
/// of a key replaces an earlier one).
pub open spec fn entries_map(s: Seq<(Seq<char>, Seq<char>)>) -> Map<Seq<char>, Seq<char>>
    decreases s.len(),
{
    if s.len() == 0 {
        Map::empty()
    } else {
        entries_map(s.drop_last()).insert(s.last().0, s.last().1)
    }
}

pub open spec fn pair_view(e: (String, String)) -> (Seq<char>, Seq<char>) {
    (e.0@, e.1@)
}

/// The `Data@Name` → value pairs of an event, seen as a map from name to
/// value (the last pair of a name wins, as an insert into a map would).
///
/// The pairs are held in a `Vec` rather than a `BTreeMap<String, String>`:
/// vstd specifies `BTreeMap` only under `key_obeys_cmp_spec::<K>()`, which
/// it establishes for integer keys and not for `String`, so such a map
/// would leave every lookup unstated; the view below is the map.
#[derive(Debug, Clone)]
pub struct EventData {
    entries: Vec<(String, String)>,
}

impl View for EventData {
    type V = Map<Seq<char>, Seq<char>>;

    closed spec fn view(&self) -> Map<Seq<char>, Seq<char>> {
        entries_map(self.entries@.map_values(|e: (String, String)| pair_view(e)))
    }
}

proof fn lemma_entries_map_suffix(s: Seq<(Seq<char>, Seq<char>)>, j: int, k: Seq<char>)
    requires
        0 <= j <= s.len(),
        forall|i: int| j <= i < s.len() ==> (#[trigger] s[i]).0 != k,
    ensures
        entries_map(s).contains_key(k) == entries_map(s.take(j)).contains_key(k),
        entries_map(s).contains_key(k) ==> entries_map(s)[k] == entries_map(s.take(j))[k],
    decreases s.len() - j,
{
    if j < s.len() {
        lemma_entries_map_suffix(s.drop_last(), j, k);
        assert(s.drop_last().take(j) =~= s.take(j));
    } else {
        assert(s.take(j) =~= s);
    }
}

/// The pairs whose key is not `k`, in order.
pub open spec fn without_key(s: Seq<(Seq<char>, Seq<char>)>, k: Seq<char>) -> Seq<(Seq<char>, Seq<char>)>
    decreases s.len(),
{
    if s.len() == 0 {
        s
    } else if s.last().0 == k {
        without_key(s.drop_last(), k)
    } else {
        without_key(s.drop_last(), k).push(s.last())
    }
}

proof fn lemma_entries_map_without(s: Seq<(Seq<char>, Seq<char>)>, k: Seq<char>)
    ensures
        entries_map(without_key(s, k)) == entries_map(s).remove(k),
    decreases s.len(),
{
    if s.len() == 0 {
        assert(entries_map(s).remove(k) =~= Map::empty());
    } else {
        lemma_entries_map_without(s.drop_last(), k);
        let w = without_key(s.drop_last(), k);
        if s.last().0 != k {
            assert(w.push(s.last()).drop_last() =~= w);
            assert(entries_map(s).remove(k) =~= entries_map(s.drop_last()).remove(k).insert(
                s.last().0,
                s.last().1,
            ));
        } else {
            assert(entries_map(s).remove(k) =~= entries_map(s.drop_last()).remove(k));
        }
    }
}

impl EventData {
    /// The pairs in insertion order, as characters.
    pub closed spec fn pairs(&self) -> Seq<(Seq<char>, Seq<char>)> {
        self.entries@.map_values(|e: (String, String)| pair_view(e))
    }

    pub proof fn lemma_view_is_pairs(&self)
        ensures
            self@ == entries_map(self.pairs()),
    {
    }

    pub fn new() -> (r: EventData)
        ensures
            r@ == Map::<Seq<char>, Seq<char>>::empty(),
            r.pairs() == Seq::<(Seq<char>, Seq<char>)>::empty(),
    {
        let r = EventData { entries: Vec::new() };
        assert(r.pairs() =~= Seq::<(Seq<char>, Seq<char>)>::empty());
        r
    }

    /// Sets `key` to `value`, replacing an earlier value.
    pub fn insert(&mut self, key: String, value: String)
        ensures
            final(self)@ == old(self)@.insert(key@, value@),
            final(self).pairs() == old(self).pairs().push((key@, value@)),
    {
        let ghost before = self.pairs();
        self.entries.push((key, value));
        assert(self.pairs() =~= before.push(pair_view((key, value))));
        assert(self.pairs().drop_last() =~= before);
    }

    /// Whether `key` has a value.
    pub fn contains_key(&self, key: &str) -> (r: bool)
        ensures
            r == self@.contains_key(key@),
    {
        match self.get(key) {
            Some(_) => true,
            None => false,
        }
    }

    /// The value of `key`, if any.
    pub fn get(&self, key: &str) -> (r: Option<&String>)
        ensures
            match r {
                Some(v) => self@.contains_key(key@) && self@[key@] == v@,
                None => !self@.contains_key(key@),
            },
    {
        let ghost s = self.pairs();
        let k = chars_of(key);
        let mut j: usize = self.entries.len();
        while j > 0
            invariant
                j <= self.entries.len(),
                s == self.pairs(),
                s.len() == self.entries.len(),
                k@ == key@,
                forall|i: int| j <= i < s.len() ==> (#[trigger] s[i]).0 != key@,
            decreases j,
        {
            let e = &self.entries[j - 1];
            let ek = chars_of(e.0.as_str());
            if crate::text::chars_eq(ek.as_slice(), k.as_slice()) {
                proof {
                    lemma_entries_map_suffix(s, j as int, key@);
                    let t = s.take(j as int);
                    assert(t.drop_last() =~= s.take(j - 1));
                    assert(t.last() == s[j - 1]);
                }
                return Some(&e.1);
            }
            j = j - 1;
        }
        proof {
            lemma_entries_map_suffix(s, 0, key@);
            assert(s.take(0) =~= Seq::<(Seq<char>, Seq<char>)>::empty());
        }
        None
    }

    /// Removes `key` and returns the value it had.
    pub fn remove(&mut self, key: &str) -> (r: Option<String>)
        ensures
            final(self)@ == old(self)@.remove(key@),
            match r {
                Some(v) => old(self)@.contains_key(key@) && old(self)@[key@] == v@,
                None => !old(self)@.contains_key(key@),
            },
    {
        let prev = match self.get(key) {
            Some(v) => Some(v.clone()),
            None => None,
        };
        let ghost s = self.pairs();
        let k = chars_of(key);
        let mut out: Vec<(String, String)> = Vec::new();
        let mut i: usize = 0;
        while i < self.entries.len()
            invariant
                i <= self.entries.len(),
                s == self.pairs(),
                s.len() == self.entries.len(),
                k@ == key@,
                out@.map_values(|e: (String, String)| pair_view(e)) == without_key(s.take(i as int), key@),
            decreases self.entries.len() - i,
        {
            let ghost before = out@.map_values(|e: (String, String)| pair_view(e));
            let e = &self.entries[i];
            let ek = chars_of(e.0.as_str());
            proof {
                assert(s.take(i + 1).drop_last() =~= s.take(i as int));
                assert(s[i as int] == pair_view(self.entries@[i as int]));
            }
            if !crate::text::chars_eq(ek.as_slice(), k.as_slice()) {
                out.push((e.0.clone(), e.1.clone()));
                assert(out@.map_values(|e: (String, String)| pair_view(e)) =~= before.push(
                    s[i as int],
                ));
            }
            i = i + 1;
        }
        assert(s.take(s.len() as int) =~= s);
        self.entries = out;
        proof {
            lemma_entries_map_without(s, key@);
        }
        prev
    }
}

// ───────────────────────── events ─────────────────────────

/// What reading the channel gave.
#[derive(Debug, Clone)]
pub enum BootLogOutcome {
    /// Events were read.
    Events(Vec<RawEvent>),
    /// No permission; retry with administrator rights.
    AccessDenied,
    /// The log itself is unavailable (disabled, cleared, removed).
    Unavailable(String),
}

/// One parsed event.
#[derive(Debug, Clone)]
pub struct RawEvent {
    pub event_id: u32,
    /// `EventData`'s `Data@Name` → value.
    pub data: EventData,
    /// `System/TimeCreated@SystemTime`
    pub time_created: Option<String>,
    /// `System/Computer`
    pub computer: Option<String>,
}

impl View for RawEvent {
    type V = (u32, Map<Seq<char>, Seq<char>>, Option<Seq<char>>, Option<Seq<char>>);

    open spec fn view(&self) -> Self::V {
        (self.event_id, self.data@, opt_chars(self.time_created), opt_chars(self.computer))
    }
}

/// A field's value; an empty value counts as missing.
pub open spec fn field(d: Map<Seq<char>, Seq<char>>, key: Seq<char>) -> Option<Seq<char>> {
    if d.contains_key(key) && d[key].len() > 0 {
        Some(d[key])
    } else {
        None
    }
}

/// A numeric field; one that does not parse counts as missing.
pub open spec fn field_u64(d: Map<Seq<char>, Seq<char>>, key: Seq<char>) -> Option<u64> {
    match field(d, key) {
        Some(v) => parse_u64_spec(trim(v)),
        None => None,
    }
}

/// A boolean field written `true`/`false` or `1`/`0`, in any case.
pub open spec fn field_bool(d: Map<Seq<char>, Seq<char>>, key: Seq<char>) -> Option<bool> {
    match field(d, key) {
        Some(v) => {
            let t = lower_seq(trim(v));
            if t == "true"@ || t == "1"@ {
                Some(true)
            } else if t == "false"@ || t == "0"@ {
                Some(false)
            } else {
                None
            }
        },
        None => None,
    }
}

impl RawEvent {
    /// A text field; empty values count as missing.
    pub fn get(&self, key: &str) -> (r: Option<&str>)
        ensures
            opt_str(r) == field(self.data@, key@),
    {
        match self.data.get(key) {
            Some(v) => if v.as_str().is_empty() {
                None
            } else {
                Some(v.as_str())
            },
            None => None,
        }
    }

    /// A numeric field; a value that does not parse counts as missing.
    pub fn get_u64(&self, key: &str) -> (r: Option<u64>)
        ensures
            r == field_u64(self.data@, key@),
    {
        match self.get(key) {
            Some(v) => {
                let t = trim_chars(chars_of(v).as_slice());
                parse_u64(t.as_slice())
            },
            None => None,
        }
    }

    /// A boolean field (`true`/`false`, `1`/`0`).
    pub fn get_bool(&self, key: &str) -> (r: Option<bool>)
        ensures
            r == field_bool(self.data@, key@),
    {
        match self.get(key) {
            Some(v) => {
                let t = lower_chars(trim_chars(chars_of(v).as_slice()).as_slice());
                let yes = chars_of("true");
                let one = chars_of("1");
                let no = chars_of("false");
                let zero = chars_of("0");
                if crate::text::chars_eq(t.as_slice(), yes.as_slice()) || crate::text::chars_eq(
                    t.as_slice(),
                    one.as_slice(),
                ) {
                    Some(true)
                } else if crate::text::chars_eq(t.as_slice(), no.as_slice())
                    || crate::text::chars_eq(t.as_slice(), zero.as_slice()) {
                    Some(false)
                } else {
                    None
                }
            },
            None => None,
        }
    }
}

/// `Option<&str>` seen as characters.
pub open spec fn opt_str(o: Option<&str>) -> Option<Seq<char>> {
    match o {
        Some(s) => Some(s@),
        None => None,
    }
}

// ───────────────────────── XML ─────────────────────────

/// Every non-overlapping occurrence of `pat`, from the left, replaced by `rep`.
pub open spec fn replace_all(s: Seq<char>, pat: Seq<char>, rep: Seq<char>) -> Seq<char>
    decreases s.len(),
{
    if pat.len() == 0 {
        s
    } else {
        match find_from(s, pat, 0) {
            None => s,
            Some(i) => {
                proof {
                    lemma_find_from_some(s, pat, 0);
                }
                s.take(i) + rep + replace_all(s.skip(i + pat.len()), pat, rep)
            },
        }
    }
}

/// XML entities restored; `&amp;` last, so that `&amp;lt;` stays `&lt;`.
pub open spec fn unescape_spec(s: Seq<char>) -> Seq<char> {
    let a = replace_all(s, "&lt;"@, "<"@);
    let b = replace_all(a, "&gt;"@, ">"@);
    let c = replace_all(b, "&quot;"@, "\""@);
    let d = replace_all(c, "&apos;"@, "'"@);
    let e = replace_all(d, "&#13;"@, "\r"@);
    let f = replace_all(e, "&#10;"@, "\n"@);
    let g = replace_all(f, "&#9;"@, "\t"@);
    replace_all(g, "&amp;"@, "&"@)
}

fn replace_all_exec(s: &[char], pat: &str, rep: &str) -> (r: Vec<char>)
    ensures
        r@ == replace_all(s@, pat@, rep@),
{
    let p = chars_of(pat);
    let q = chars_of(rep);
    if p.len() == 0 {
        return crate::text::copy_chars(s);
    }
    let mut out: Vec<char> = Vec::new();
    let mut cur = crate::text::copy_chars(s);
    loop
        invariant
            p@ == pat@,
            q@ == rep@,
            p.len() > 0,
            out@ + replace_all(cur@, pat@, rep@) == replace_all(s@, pat@, rep@),
        decreases cur@.len(),
    {
        match find_exec(cur.as_slice(), p.as_slice(), 0) {
            None => {
                let mut i: usize = 0;
                let ghost o = out@;
                while i < cur.len()
                    invariant
                        i <= cur.len(),
                        out@ == o + cur@.take(i as int),
                    decreases cur.len() - i,
                {
                    out.push(cur[i]);
                    i = i + 1;
                    assert(out@ =~= o + cur@.take(i as int));
                }
                assert(cur@.take(cur.len() as int) =~= cur@);
                return out;
            },
            Some(i) => {
                proof {
                    lemma_find_from_some(cur@, pat@, 0);
                    assert(crate::text::occurs_at(cur@, p@, i as int));
                }
                let ghost o = out@;
                let ghost c = cur@;
                let head = slice_of(cur.as_slice(), 0, i);
                let mut k: usize = 0;
                while k < head.len()
                    invariant
                        k <= head.len(),
                        out@ == o + head@.take(k as int),
                    decreases head.len() - k,
                {
                    out.push(head[k]);
                    k = k + 1;
                    assert(out@ =~= o + head@.take(k as int));
                }
                assert(head@.take(head.len() as int) =~= head@);
                let ghost o2 = out@;
                let mut k: usize = 0;
                while k < q.len()
                    invariant
                        k <= q.len(),
                        out@ == o2 + q@.take(k as int),
                    decreases q.len() - k,
                {
                    out.push(q[k]);
                    k = k + 1;
                    assert(out@ =~= o2 + q@.take(k as int));
                }
                assert(q@.take(q.len() as int) =~= q@);
                let clen = cur.len();
                cur = slice_of(cur.as_slice(), i + p.len(), clen);
                assert(head@ =~= c.take(i as int));
                assert(cur@ =~= c.skip(i + pat@.len()));
                assert(o + (c.take(i as int) + rep@ + replace_all(c.skip(i + pat@.len()), pat@, rep@))
                    =~= out@ + replace_all(cur@, pat@, rep@));
            },
        }
    }
}

/// Restores the XML entities of a value.
pub fn unescape_xml(s: &[char]) -> (r: Vec<char>)
    ensures
        r@ == unescape_spec(s@),
{
    let a = replace_all_exec(s, "&lt;", "<");
    let b = replace_all_exec(a.as_slice(), "&gt;", ">");
    let c = replace_all_exec(b.as_slice(), "&quot;", "\"");
    let d = replace_all_exec(c.as_slice(), "&apos;", "'");
    let e = replace_all_exec(d.as_slice(), "&#13;", "\r");
    let f = replace_all_exec(e.as_slice(), "&#10;", "\n");
    let g = replace_all_exec(f.as_slice(), "&#9;", "\t");
    replace_all_exec(g.as_slice(), "&amp;", "&")
}

/// The text between `<tag>` and the next `</tag>`.
pub open spec fn extract_tag_spec(x: Seq<char>, tag: Seq<char>) -> Option<Seq<char>> {
    let open = seq!['<'] + tag + seq!['>'];
    let close = seq!['<', '/'] + tag + seq!['>'];
    match find_from(x, open, 0) {
        None => None,
        Some(i) => {
            let start = i + open.len();
            match find_from(x, close, start) {
                None => None,
                Some(e) => Some(x.subrange(start, e)),
            }
        },
    }
}

/// The value of `attr="…"` inside the first `<tag …>`.
pub open spec fn extract_attr_spec(x: Seq<char>, tag: Seq<char>, attr: Seq<char>) -> Option<Seq<char>> {
    match find_from(x, seq!['<'] + tag, 0) {
        None => None,
        Some(tp) => {
            let rest = x.skip(tp);
            match find_from(rest, seq!['>'], 0) {
                None => None,
                Some(te) => {
                    let head = rest.take(te);
                    let needle = attr + seq!['=', '"'];
                    match find_from(head, needle, 0) {
                        None => None,
                        Some(ns) => {
                            let s = ns + needle.len();
                            match find_from(head, seq!['"'], s) {
                                None => None,
                                Some(e) => Some(head.subrange(s, e)),
                            }
                        },
                    }
                },
            }
        },
    }
}

fn extract_tag(x: &[char], tag: &str) -> (r: Option<Vec<char>>)
    ensures
        match r {
            Some(v) => extract_tag_spec(x@, tag@) == Some(v@),
            None => extract_tag_spec(x@, tag@) is None,
        },
{
    let t = chars_of(tag);
    let mut open = one_char('<');
    crate::text::extend_chars(&mut open, t.as_slice());
    open.push('>');
    let mut close = crate::text::two_chars('<', '/');
    crate::text::extend_chars(&mut close, t.as_slice());
    close.push('>');
    assert(open@ =~= seq!['<'] + tag@ + seq!['>']);
    assert(close@ =~= seq!['<', '/'] + tag@ + seq!['>']);
    match find_exec(x, open.as_slice(), 0) {
        None => None,
        Some(i) => {
            proof {
                lemma_find_from_some(x@, open@, 0);
                assert(crate::text::occurs_at(x@, open@, i as int));
            }
            let _xl = x.len();
            let start = i + open.len();
            match find_exec(x, close.as_slice(), start) {
                None => None,
                Some(e) => {
                    proof {
                        lemma_find_from_some(x@, close@, start as int);
                    }
                    Some(slice_of(x, start, e))
                },
            }
        },
    }
}

fn extract_attr(x: &[char], tag: &str, attr: &str) -> (r: Option<Vec<char>>)
    ensures
        match r {
            Some(v) => extract_attr_spec(x@, tag@, attr@) == Some(v@),
            None => extract_attr_spec(x@, tag@, attr@) is None,
        },
{
    let mut lt = one_char('<');
    crate::text::extend_chars(&mut lt, chars_of(tag).as_slice());
    assert(lt@ =~= seq!['<'] + tag@);
    let tp = match find_exec(x, lt.as_slice(), 0) {
        None => {
            return None;
        },
        Some(p) => p,
    };
    proof {
        lemma_find_from_some(x@, lt@, 0);
    }
    let rest = slice_of(x, tp, x.len());
    assert(rest@ =~= x@.skip(tp as int));
    let gt = one_char('>');
    let te = match find_exec(rest.as_slice(), gt.as_slice(), 0) {
        None => {
            return None;
        },
        Some(p) => p,
    };
    proof {
        lemma_find_from_some(rest@, gt@, 0);
    }
    let head = slice_of(rest.as_slice(), 0, te);
    assert(head@ =~= rest@.take(te as int));
    let mut needle = chars_of(attr);
    needle.push('=');
    needle.push('"');
    assert(needle@ =~= attr@ + seq!['=', '"']);
    let ns = match find_exec(head.as_slice(), needle.as_slice(), 0) {
        None => {
            return None;
        },
        Some(p) => p,
    };
    proof {
        lemma_find_from_some(head@, needle@, 0);
    }
    let s = ns + needle.len();
    let quote = one_char('"');
    match find_exec(head.as_slice(), quote.as_slice(), s) {
        None => None,
        Some(e) => {
            proof {
                lemma_find_from_some(head@, quote@, s as int);
            }
            Some(slice_of(head.as_slice(), s, e))
        },
    }
}

/// The `(name, value)` pairs of the `<Data Name="…">…</Data>` and
/// `<Data Name="…"/>` elements from `cursor` on. A `Data` without a name
/// is skipped; an unclosed element ends the scan.
pub open spec fn data_entries(x: Seq<char>, cursor: int) -> Seq<(Seq<char>, Seq<char>)>
    decreases x.len() + 1 - cursor,
{
    if cursor < 0 || cursor > x.len() {
        Seq::empty()
    } else {
        match find_from(x, "<Data"@, cursor) {
            None => Seq::empty(),
            Some(start) => {
                proof {
                    lemma_find_from_some(x, "<Data"@, cursor);
                }
                match find_from(x, seq!['>'], start) {
                    None => Seq::empty(),
                    Some(gt) => {
                        proof {
                            lemma_find_from_some(x, seq!['>'], start);
                        }
                        let head = trim_end(x.subrange(start, gt));
                        let c1 = gt + 1;
                        match find_from(head, "Name=\""@, 0) {
                            None => data_entries(x, c1),
                            Some(p) => {
                                let s = p + "Name=\""@.len();
                                let name = match find_from(head, seq!['"'], s) {
                                    Some(e) => head.subrange(s, e),
                                    None => head.subrange(s, head.len() as int),
                                };
                                if name.len() == 0 {
                                    data_entries(x, c1)
                                } else if head.len() > 0 && head.last() == '/' {
                                    seq![(name, Seq::<char>::empty())] + data_entries(x, c1)
                                } else {
                                    match find_from(x, "</Data>"@, c1) {
                                        None => Seq::empty(),
                                        Some(cl) => {
                                            proof {
                                                lemma_find_from_some(x, "</Data>"@, c1);
                                            }
                                            seq![(name, unescape_spec(x.subrange(c1, cl)))]
                                                + data_entries(x, cl + "</Data>"@.len())
                                        },
                                    }
                                }
                            },
                        }
                    },
                }
            },
        }
    }
}

fn parse_data_entries(x: &[char]) -> (r: EventData)
    ensures
        r.pairs() == data_entries(x@, 0),
{
    let open = chars_of("<Data");
    let gt = one_char('>');
    let name_attr = chars_of("Name=\"");
    let quote = one_char('"');
    let close = chars_of("</Data>");
    let mut data = EventData::new();
    let mut cursor: usize = 0;
    loop
        invariant
            cursor <= x.len(),
            open@ == "<Data"@,
            gt@ == seq!['>'],
            name_attr@ == "Name=\""@,
            quote@ == seq!['"'],
            close@ == "</Data>"@,
            data.pairs() + data_entries(x@, cursor as int) == data_entries(x@, 0),
        decreases x.len() + 1 - cursor,
    {
        let ghost before = data.pairs();
        let start = match find_exec(x, open.as_slice(), cursor) {
            None => {
                assert(data.pairs() =~= data_entries(x@, 0));
                return data;
            },
            Some(s) => s,
        };
        proof {
            lemma_find_from_some(x@, "<Data"@, cursor as int);
        }
        let g = match find_exec(x, gt.as_slice(), start) {
            None => {
                assert(data.pairs() =~= data_entries(x@, 0));
                return data;
            },
            Some(g) => g,
        };
        proof {
            lemma_find_from_some(x@, seq!['>'], start as int);
        }
        let head = trim_end_chars(slice_of(x, start, g).as_slice());
        let c1 = g + 1;
        match find_exec(head.as_slice(), name_attr.as_slice(), 0) {
            None => {
                cursor = c1;
            },
            Some(p) => {
                proof {
                    lemma_find_from_some(head@, name_attr@, 0);
                    assert(crate::text::occurs_at(head@, name_attr@, p as int));
                }
                let _hl = head.len();
                let s = p + name_attr.len();
                let name = match find_exec(head.as_slice(), quote.as_slice(), s) {
                    Some(e) => {
                        proof {
                            lemma_find_from_some(head@, seq!['"'], s as int);
                        }
                        slice_of(head.as_slice(), s, e)
                    },
                    None => slice_of(head.as_slice(), s, head.len()),
                };
                if name.len() == 0 {
                    cursor = c1;
                } else if head.len() > 0 && head[head.len() - 1] == '/' {
                    data.insert(string_of(name.as_slice()), String::new());
                    assert(before + data_entries(x@, cursor as int) =~= data.pairs() + data_entries(
                        x@,
                        c1 as int,
                    ));
                    cursor = c1;
                } else {
                    match find_exec(x, close.as_slice(), c1) {
                        None => {
                            assert(data.pairs() =~= data_entries(x@, 0));
                            return data;
                        },
                        Some(cl) => {
                            proof {
                                lemma_find_from_some(x@, "</Data>"@, c1 as int);
                            }
                            let raw = slice_of(x, c1, cl);
                            let value = unescape_xml(raw.as_slice());
                            data.insert(string_of(name.as_slice()), string_of(value.as_slice()));
                            let next = cl + close.len();
                            assert(before + data_entries(x@, cursor as int) =~= data.pairs()
                                + data_entries(x@, next as int));
                            cursor = next;
                        },
                    }
                }
            },
        }
    }
}

/// What `parse_event_xml` reads from one rendered event.
pub open spec fn parse_event_spec(x: Seq<char>) -> Option<(u32, Map<Seq<char>, Seq<char>>, Option<Seq<char>>, Option<Seq<char>>)> {
    match extract_tag_spec(x, "EventID"@) {
        None => None,
        Some(t) => match parse_u32_spec(trim(t)) {
            None => None,
            Some(id) => Some(
                (
                    id,
                    entries_map(data_entries(x, 0)),
                    extract_attr_spec(x, "TimeCreated"@, "SystemTime"@),
                    extract_tag_spec(x, "Computer"@),
                ),
            ),
        },
    }
}

/// Reads one rendered `<Event>`: its `EventID`, `TimeCreated@SystemTime`,
/// `Computer` and `Data` fields. No `EventID` means no event.
pub fn parse_event_xml(xml: &str) -> (r: Option<RawEvent>)
    ensures
        match r {
            Some(e) => parse_event_spec(xml@) == Some(e@),
            None => parse_event_spec(xml@) is None,
        },
{
    let x = chars_of(xml);
    let id_text = match extract_tag(x.as_slice(), "EventID") {
        Some(t) => t,
        None => {
            return None;
        },
    };
    let event_id = match parse_u32(trim_chars(id_text.as_slice()).as_slice()) {
        Some(id) => id,
        None => {
            return None;
        },
    };
    let time_created = match extract_attr(x.as_slice(), "TimeCreated", "SystemTime") {
        Some(v) => Some(string_of(v.as_slice())),
        None => None,
    };
    let computer = match extract_tag(x.as_slice(), "Computer") {
        Some(v) => Some(string_of(v.as_slice())),
        None => None,
    };
    let data = parse_data_entries(x.as_slice());
    proof {
        data.lemma_view_is_pairs();
    }
    Some(RawEvent { event_id, data, time_created, computer })
}

// ───────────────────────── reading ─────────────────────────

/// Why the query on the channel could not be opened.
#[derive(Debug, Clone)]
pub enum QueryFailure {
    /// The account may not read the channel.
    AccessDenied,
    /// The platform has no such log.
    Unsupported,
    /// Any other failure, with the system's words.
    Other(String),
}

/// The events that parse, in order.
pub open spec fn parsed_events(xmls: Seq<String>) -> Seq<(u32, Map<Seq<char>, Seq<char>>, Option<Seq<char>>, Option<Seq<char>>)>
    decreases xmls.len(),
{
    if xmls.len() == 0 {
        Seq::empty()
    } else {
        let rest = parsed_events(xmls.drop_last());
        match parse_event_spec(xmls.last()@) {
            Some(e) => rest.push(e),
            None => rest,
        }
    }
}

pub open spec fn events_view(v: Seq<RawEvent>) -> Seq<(u32, Map<Seq<char>, Seq<char>>, Option<Seq<char>>, Option<Seq<char>>)> {
    v.map_values(|e: RawEvent| e@)
}

/// What `read_boot_events` gives for the query's answer.
pub open spec fn outcome_spec(query: Result<Vec<String>, QueryFailure>, r: BootLogOutcome) -> bool {
    match query {
        Err(QueryFailure::AccessDenied) => r is AccessDenied,
        Err(QueryFailure::Unsupported) => r matches BootLogOutcome::Unavailable(m) && m@ == "仅支持 Windows"@,
        Err(QueryFailure::Other(e)) => r matches BootLogOutcome::Unavailable(m) && m@ == "无法读取系统性能日志："@ + e@,
        Ok(xmls) => {
            let all = parsed_events(xmls@);
            if all.len() == 0 {
                r matches BootLogOutcome::Unavailable(m) && m@ == "这台电脑还没有记录过开机性能事件"@
            } else {
                r matches BootLogOutcome::Events(v) && events_view(v@) == all.take(
                    if all.len() < MAX_EVENTS { all.len() as int } else { MAX_EVENTS as int },
                )
            }
        },
    }
}

proof fn lemma_parsed_events_prefix(xmls: Seq<String>, i: int)
    requires
        0 <= i < xmls.len(),
    ensures
        parsed_events(xmls.take(i + 1)) == match parse_event_spec(xmls[i]@) {
            Some(e) => parsed_events(xmls.take(i)).push(e),
            None => parsed_events(xmls.take(i)),
        },
{
    assert(xmls.take(i + 1).drop_last() =~= xmls.take(i));
}

proof fn lemma_parsed_events_grow(xmls: Seq<String>, i: int, j: int)
    requires
        0 <= i <= j <= xmls.len(),
    ensures
        parsed_events(xmls.take(i)).len() <= parsed_events(xmls.take(j)).len(),
        parsed_events(xmls.take(j)).take(parsed_events(xmls.take(i)).len() as int) == parsed_events(xmls.take(i)),
    decreases j - i,
{
    if i < j {
        lemma_parsed_events_grow(xmls, i, j - 1);
        lemma_parsed_events_prefix(xmls, j - 1);
        let a = parsed_events(xmls.take(i));
        let b = parsed_events(xmls.take(j - 1));
        let c = parsed_events(xmls.take(j));
        assert(c.take(a.len() as int) =~= b.take(a.len() as int));
    } else {
        assert(parsed_events(xmls.take(j)).take(parsed_events(xmls.take(i)).len() as int) =~= parsed_events(xmls.take(i)));
    }
}

/// Turns the answer of the query on the performance channel (the rendered
/// events, newest first, or why the query failed) into an outcome that
/// keeps "no permission" apart from "no data". At most `MAX_EVENTS`
/// events are kept.
pub fn read_boot_events(query: Result<Vec<String>, QueryFailure>) -> (r: BootLogOutcome)
    ensures
        outcome_spec(query, r),
{
    let xmls = match query {
        Err(QueryFailure::AccessDenied) => {
            return BootLogOutcome::AccessDenied;
        },
        Err(QueryFailure::Unsupported) => {
            let mut m = String::new();
            push_str(&mut m, "仅支持 Windows");
            return BootLogOutcome::Unavailable(m);
        },
        Err(QueryFailure::Other(e)) => {
            let mut m = String::new();
            push_str(&mut m, "无法读取系统性能日志：");
            push_str(&mut m, e.as_str());
            return BootLogOutcome::Unavailable(m);
        },
        Ok(v) => v,
    };
    let mut out: Vec<RawEvent> = Vec::new();
    let mut i: usize = 0;
    assert(xmls@.take(0) =~= Seq::<String>::empty());
    while i < xmls.len() && out.len() < MAX_EVENTS
        invariant
            i <= xmls.len(),
            out.len() <= MAX_EVENTS,
            events_view(out@) == parsed_events(xmls@.take(i as int)),
        decreases xmls.len() - i,
    {
        proof {
            lemma_parsed_events_prefix(xmls@, i as int);
        }
        let ghost before = out@;
        match parse_event_xml(xmls[i].as_str()) {
            Some(ev) => {
                out.push(ev);
                assert(events_view(out@) =~= events_view(before).push(out@.last()@));
            },
            None => {},
        }
        i = i + 1;
    }
    proof {
        lemma_parsed_events_grow(xmls@, i as int, xmls@.len() as int);
        assert(xmls@.take(xmls@.len() as int) =~= xmls@);
    }
    if out.len() == 0 {
        proof {
            if i < xmls.len() {
                assert(false);
            }
        }
        let mut m = String::new();
        push_str(&mut m, "这台电脑还没有记录过开机性能事件");
        return BootLogOutcome::Unavailable(m);
    }
    BootLogOutcome::Events(out)
}

} // verus!
