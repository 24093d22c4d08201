//! Character-level helpers shared by the parsers and formatters.
//!
//! Text is handled as sequences of `char`: a `&str` is turned into a
//! `Vec<char>` once, the logic works on that, and the result is turned back
//! into a `String`.  Every helper states its result over `Seq<char>`.

use vstd::prelude::*;

verus! {

// ───────────────────────── specifications ─────────────────────────

/// `char::is_whitespace`: the Unicode `White_Space` property.
pub open spec fn is_ws(c: char) -> bool {
    let u = c as u32;
    ||| (9 <= u && u <= 13)
    ||| u == 32
    ||| u == 0x85
    ||| u == 0xA0
    ||| u == 0x1680
    ||| (0x2000 <= u && u <= 0x200A)
    ||| u == 0x2028
    ||| u == 0x2029
    ||| u == 0x202F
    ||| u == 0x205F
    ||| u == 0x3000
}

/// `char::to_ascii_lowercase`.
pub open spec fn lower(c: char) -> char {
    if 'A' <= c && c <= 'Z' {
        ((c as u32) + 32) as char
    } else {
        c
    }
}

/// `str::to_ascii_lowercase`, character by character.
pub open spec fn lower_seq(s: Seq<char>) -> Seq<char> {
    s.map_values(|c: char| lower(c))
}

/// `str::trim_start`.
pub open spec fn trim_start(s: Seq<char>) -> Seq<char>
    decreases s.len(),
{
    if s.len() > 0 && is_ws(s[0]) {
        trim_start(s.drop_first())
    } else {
        s
    }
}

/// `str::trim_end`.
pub open spec fn trim_end(s: Seq<char>) -> Seq<char>
    decreases s.len(),
{
    if s.len() > 0 && is_ws(s.last()) {
        trim_end(s.drop_last())
    } else {
        s
    }
}

/// `str::trim`.
pub open spec fn trim(s: Seq<char>) -> Seq<char> {
    trim_end(trim_start(s))
}

/// `n` occurs in `h` starting at index `i`.
pub open spec fn occurs_at(h: Seq<char>, n: Seq<char>, i: int) -> bool {
    0 <= i && i + n.len() <= h.len() && h.subrange(i, i + n.len()) == n
}

/// The first index `>= from` at which `n` occurs in `h`.
pub open spec fn find_from(h: Seq<char>, n: Seq<char>, from: int) -> Option<int>
    decreases h.len() + 1 - from,
{
    if from < 0 || from + n.len() > h.len() {
        None
    } else if occurs_at(h, n, from) {
        Some(from)
    } else {
        find_from(h, n, from + 1)
    }
}

/// `h.starts_with(n)`.
pub open spec fn starts_with(h: Seq<char>, n: Seq<char>) -> bool {
    occurs_at(h, n, 0)
}

/// `h.ends_with(n)`.
pub open spec fn ends_with(h: Seq<char>, n: Seq<char>) -> bool {
    occurs_at(h, n, h.len() - n.len())
}

/// `str::contains`.
pub open spec fn contains(h: Seq<char>, n: Seq<char>) -> bool {
    find_from(h, n, 0) is Some
}

/// An ASCII decimal digit.
pub open spec fn is_digit(c: char) -> bool {
    '0' <= c && c <= '9'
}

pub open spec fn all_digits(s: Seq<char>) -> bool {
    forall|i: int| 0 <= i < s.len() ==> is_digit(#[trigger] s[i])
}

/// The number that a run of decimal digits spells.
pub open spec fn digits_value(s: Seq<char>) -> int
    decreases s.len(),
{
    if s.len() == 0 {
        0
    } else {
        digits_value(s.drop_last()) * 10 + ((s.last() as u32) - 48)
    }
}

/// What `str::parse` of an unsigned integer reads, before the range check:
/// an optional `+`, then at least one decimal digit.
pub open spec fn unsigned_value(s: Seq<char>) -> Option<int> {
    let body = if s.len() > 0 && s[0] == '+' { s.drop_first() } else { s };
    if body.len() > 0 && all_digits(body) {
        Some(digits_value(body))
    } else {
        None
    }
}

/// `s.parse::<u64>().ok()`.
pub open spec fn parse_u64_spec(s: Seq<char>) -> Option<u64> {
    match unsigned_value(s) {
        Some(v) => if v <= u64::MAX { Some(v as u64) } else { None },
        None => None,
    }
}

/// `s.parse::<u32>().ok()`.
pub open spec fn parse_u32_spec(s: Seq<char>) -> Option<u32> {
    match unsigned_value(s) {
        Some(v) => if v <= u32::MAX { Some(v as u32) } else { None },
        None => None,
    }
}

/// `s.parse::<i64>().ok()`.
pub open spec fn parse_i64_spec(s: Seq<char>) -> Option<i64> {
    if s.len() > 0 && s[0] == '-' {
        let body = s.drop_first();
        if body.len() > 0 && all_digits(body) && digits_value(body) <= 0x8000_0000_0000_0000 {
            Some((0 - digits_value(body)) as i64)
        } else {
            None
        }
    } else {
        match unsigned_value(s) {
            Some(v) => if v <= i64::MAX { Some(v as i64) } else { None },
            None => None,
        }
    }
}

/// Replaces every occurrence of `c` by `d`.
pub open spec fn replace_char(s: Seq<char>, c: char, d: char) -> Seq<char> {
    s.map_values(|x: char| if x == c { d } else { x })
}

/// `s.trim_matches(c)` for a single character `c`.
pub open spec fn strip_char_start(s: Seq<char>, c: char) -> Seq<char>
    decreases s.len(),
{
    if s.len() > 0 && s[0] == c {
        strip_char_start(s.drop_first(), c)
    } else {
        s
    }
}

pub open spec fn strip_char_end(s: Seq<char>, c: char) -> Seq<char>
    decreases s.len(),
{
    if s.len() > 0 && s.last() == c {
        strip_char_end(s.drop_last(), c)
    } else {
        s
    }
}

pub open spec fn trim_matches(s: Seq<char>, c: char) -> Seq<char> {
    strip_char_end(strip_char_start(s, c), c)
}

/// The part of `s` after the last `\` or `/` (`rsplit(['\\', '/']).next()`).
pub open spec fn last_path_part(s: Seq<char>) -> Seq<char>
    decreases s.len(),
{
    if s.len() == 0 {
        s
    } else if s.last() == '\\' || s.last() == '/' {
        Seq::empty()
    } else {
        last_path_part(s.drop_last()).push(s.last())
    }
}

/// Index of the first character of `s` that is one of `stops`, or `s.len()`
/// when there is none.
pub open spec fn first_stop(s: Seq<char>, stops: Seq<char>) -> nat
    decreases s.len(),
{
    if s.len() == 0 {
        0
    } else if stops.contains(s[0]) {
        0
    } else {
        1 + first_stop(s.drop_first(), stops)
    }
}

/// What comes before the first stop character (`split(stops).next()`).
pub open spec fn before_stop(s: Seq<char>, stops: Seq<char>) -> Seq<char> {
    s.take(first_stop(s, stops) as int)
}

/// What comes after the first stop character, if there is one.
pub open spec fn after_stop(s: Seq<char>, stops: Seq<char>) -> Option<Seq<char>> {
    let i = first_stop(s, stops);
    if i < s.len() {
        Some(s.skip(i + 1int))
    } else {
        None
    }
}

/// The part of `s` after the last stop character (`rsplit(stops).next()`).
pub open spec fn after_last(s: Seq<char>, stops: Seq<char>) -> Seq<char>
    decreases s.len(),
{
    if s.len() == 0 {
        s
    } else if stops.contains(s.last()) {
        Seq::empty()
    } else {
        after_last(s.drop_last(), stops).push(s.last())
    }
}

/// `Option<String>` seen as characters.
pub open spec fn opt_chars(o: Option<String>) -> Option<Seq<char>> {
    match o {
        Some(s) => Some(s@),
        None => None,
    }
}

/// The ASCII digit for `d` in `0..10`.
pub open spec fn digit_char(d: nat) -> char {
    ((d + 48) as u8) as char
}

/// The decimal spelling of `n`, without leading zeros.
pub open spec fn decimal(n: nat) -> Seq<char>
    decreases n,
{
    if n < 10 {
        seq![digit_char(n)]
    } else {
        decimal(n / 10).push(digit_char(n % 10))
    }
}

/// Three-way result of a comparison.
#[derive(Debug, Clone, Copy, PartialEq, Eq, Structural)]
pub enum Order {
    Less,
    Equal,
    Greater,
}

/// The same comparison seen from the other side.
pub open spec fn flip(o: Order) -> Order {
    match o {
        Order::Less => Order::Greater,
        Order::Equal => Order::Equal,
        Order::Greater => Order::Less,
    }
}

/// Three-way comparison of two integers.
pub open spec fn compare_int(a: int, b: int) -> Order {
    if a < b {
        Order::Less
    } else if a > b {
        Order::Greater
    } else {
        Order::Equal
    }
}

/// Lexicographic order of code points, which is `str`'s order (UTF-8 keeps it).
pub open spec fn compare_lex(a: Seq<char>, b: Seq<char>) -> Order
    decreases a.len(),
{
    if a.len() == 0 && b.len() == 0 {
        Order::Equal
    } else if a.len() == 0 {
        Order::Less
    } else if b.len() == 0 {
        Order::Greater
    } else if a[0] < b[0] {
        Order::Less
    } else if a[0] > b[0] {
        Order::Greater
    } else {
        compare_lex(a.drop_first(), b.drop_first())
    }
}

// ───────────────────────── proofs ─────────────────────────

pub proof fn lemma_first_stop(s: Seq<char>, stops: Seq<char>)
    ensures
        first_stop(s, stops) <= s.len(),
        first_stop(s, stops) < s.len() ==> stops.contains(s[first_stop(s, stops) as int]),
        forall|j: int| 0 <= j < first_stop(s, stops) ==> !stops.contains(#[trigger] s[j]),
    decreases s.len(),
{
    if s.len() > 0 && !stops.contains(s[0]) {
        lemma_first_stop(s.drop_first(), stops);
        let t = s.drop_first();
        assert forall|j: int| 0 <= j < first_stop(s, stops) implies !stops.contains(#[trigger] s[j]) by {
            if j > 0 {
                assert(s[j] == t[j - 1]);
            }
        }
    }
}

/// Characterises `first_stop` by the index at which a left-to-right scan stops.
pub proof fn lemma_first_stop_at(s: Seq<char>, stops: Seq<char>, i: int)
    requires
        0 <= i <= s.len(),
        forall|j: int| 0 <= j < i ==> !stops.contains(#[trigger] s[j]),
        i == s.len() || stops.contains(s[i]),
    ensures
        first_stop(s, stops) == i,
    decreases i,
{
    if i > 0 {
        let t = s.drop_first();
        assert forall|j: int| 0 <= j < i - 1 implies !stops.contains(#[trigger] t[j]) by {
            assert(t[j] == s[j + 1]);
        }
        if i < s.len() {
            assert(t[i - 1] == s[i]);
        }
        lemma_first_stop_at(t, stops, i - 1);
    }
}

pub proof fn lemma_decimal_len(n: nat)
    ensures
        decimal(n).len() >= 1,
    decreases n,
{
    if n >= 10 {
        lemma_decimal_len(n / 10);
    }
}

pub proof fn lemma_compare_lex_flip(a: Seq<char>, b: Seq<char>)
    ensures
        compare_lex(b, a) == flip(compare_lex(a, b)),
    decreases a.len(),
{
    if a.len() > 0 && b.len() > 0 && a[0] == b[0] {
        lemma_compare_lex_flip(a.drop_first(), b.drop_first());
    }
}

pub proof fn lemma_compare_lex_refl(a: Seq<char>)
    ensures
        compare_lex(a, a) == Order::Equal,
    decreases a.len(),
{
    if a.len() > 0 {
        lemma_compare_lex_refl(a.drop_first());
    }
}

pub proof fn lemma_compare_lex_equal(a: Seq<char>, b: Seq<char>)
    requires
        compare_lex(a, b) == Order::Equal,
    ensures
        a == b,
    decreases a.len(),
{
    if a.len() > 0 && b.len() > 0 {
        lemma_compare_lex_equal(a.drop_first(), b.drop_first());
        assert(a[0] == b[0]);
        assert(a =~= seq![a[0]] + a.drop_first());
        assert(b =~= seq![b[0]] + b.drop_first());
    } else {
        assert(a =~= b);
    }
}

pub proof fn lemma_compare_lex_trans(a: Seq<char>, b: Seq<char>, c: Seq<char>)
    requires
        compare_lex(a, b) == Order::Less,
        compare_lex(b, c) == Order::Less,
    ensures
        compare_lex(a, c) == Order::Less,
    decreases a.len(),
{
    if a.len() > 0 && b.len() > 0 && c.len() > 0 && a[0] == b[0] && b[0] == c[0] {
        lemma_compare_lex_trans(a.drop_first(), b.drop_first(), c.drop_first());
    }
}

pub proof fn lemma_find_from_some(h: Seq<char>, n: Seq<char>, from: int)
    requires
        find_from(h, n, from) is Some,
    ensures
        ({
            let i = find_from(h, n, from)->0;
            &&& from <= i
            &&& occurs_at(h, n, i)
            &&& forall|j: int| from <= j < i ==> !occurs_at(h, n, j)
        }),
    decreases h.len() + 1 - from,
{
    if from < 0 || from + n.len() > h.len() {
    } else if occurs_at(h, n, from) {
    } else {
        lemma_find_from_some(h, n, from + 1);
    }
}

pub proof fn lemma_find_from_none(h: Seq<char>, n: Seq<char>, from: int, j: int)
    requires
        find_from(h, n, from) is None,
        0 <= from <= j,
    ensures
        !occurs_at(h, n, j),
    decreases h.len() + 1 - from,
{
    if from + n.len() > h.len() {
    } else if occurs_at(h, n, from) {
    } else if from < j {
        lemma_find_from_none(h, n, from + 1, j);
    }
}

pub proof fn lemma_digits_value_nonneg(s: Seq<char>)
    requires
        all_digits(s),
    ensures
        digits_value(s) >= 0,
    decreases s.len(),
{
    if s.len() > 0 {
        assert(all_digits(s.drop_last()));
        lemma_digits_value_nonneg(s.drop_last());
        assert(is_digit(s[s.len() - 1]));
    }
}

pub proof fn lemma_unsigned_value_nonneg(s: Seq<char>)
    ensures
        unsigned_value(s) matches Some(v) ==> v >= 0,
{
    let body = if s.len() > 0 && s[0] == '+' { s.drop_first() } else { s };
    if body.len() > 0 && all_digits(body) {
        lemma_digits_value_nonneg(body);
    }
}

/// A longer run of digits spells a number at least as large.
pub proof fn lemma_digits_value_prefix(s: Seq<char>, i: int)
    requires
        all_digits(s),
        0 <= i <= s.len(),
    ensures
        digits_value(s.take(i)) <= digits_value(s),
    decreases s.len(),
{
    if i < s.len() {
        assert(all_digits(s.drop_last()));
        lemma_digits_value_prefix(s.drop_last(), i);
        assert(s.drop_last().take(i) =~= s.take(i));
        lemma_digits_value_nonneg(s.drop_last());
        assert(is_digit(s[s.len() - 1]));
    } else {
        assert(s.take(i) =~= s);
    }
}

proof fn lemma_digit_char(d: nat)
    requires
        d < 10,
    ensures
        digit_char(d) as u32 == d + 48,
        is_digit(digit_char(d)),
{
    let b = (d + 48) as u8;
    assert(b as int == d + 48);
    assert((b as char) as u32 == b as u32);
}

/// The decimal spelling of `n` is a non-empty run of digits that spells `n`.
pub proof fn lemma_decimal_spells(n: nat)
    ensures
        decimal(n).len() >= 1,
        all_digits(decimal(n)),
        digits_value(decimal(n)) == n,
    decreases n,
{
    lemma_digit_char(n % 10);
    if n < 10 {
        let e = decimal(n);
        assert(e.drop_last() =~= Seq::<char>::empty());
        assert(digits_value(e.drop_last()) == 0);
        assert(e.last() == digit_char(n));
        assert(digits_value(e) == n);
    }
    if n >= 10 {
        lemma_decimal_spells(n / 10);
        let d = decimal(n / 10);
        let e = decimal(n);
        assert(e == d.push(digit_char(n % 10)));
        assert(e.drop_last() =~= d);
        assert(e.last() == digit_char(n % 10));
        assert(n == (n / 10) * 10 + n % 10) by (nonlinear_arith);
        assert(digits_value(e) == digits_value(d) * 10 + ((e.last() as u32) - 48));
        assert(digits_value(e) == n);
        assert forall|i: int| 0 <= i < e.len() implies is_digit(#[trigger] e[i]) by {
            if i < d.len() {
                assert(e[i] == d[i]);
            }
        }
    }
}

/// Cutting at the first stop: what comes before a stop-free part and a
/// stop, and what comes after it.
pub proof fn lemma_cut_at(a: Seq<char>, c: char, b: Seq<char>, stops: Seq<char>)
    requires
        forall|j: int| 0 <= j < a.len() ==> !stops.contains(#[trigger] a[j]),
        stops.contains(c),
    ensures
        before_stop(a + seq![c] + b, stops) == a,
        after_stop(a + seq![c] + b, stops) == Some(b),
{
    let s = a + seq![c] + b;
    assert forall|j: int| 0 <= j < a.len() implies !stops.contains(#[trigger] s[j]) by {
        assert(s[j] == a[j]);
    }
    assert(s[a.len() as int] == c);
    lemma_first_stop_at(s, stops, a.len() as int);
    assert(s.take(a.len() as int) =~= a);
    assert(s.skip(a.len() + 1int) =~= b);
}

/// A text without a stop is not cut.
pub proof fn lemma_no_cut(a: Seq<char>, stops: Seq<char>)
    requires
        forall|j: int| 0 <= j < a.len() ==> !stops.contains(#[trigger] a[j]),
    ensures
        before_stop(a, stops) == a,
        after_stop(a, stops) is None,
{
    lemma_first_stop_at(a, stops, a.len() as int);
    assert(a.take(a.len() as int) =~= a);
}

/// A text that neither starts nor ends with white space is its own trim.
pub proof fn lemma_trim_unchanged(s: Seq<char>)
    requires
        s.len() > 0,
        !is_ws(s[0]),
        !is_ws(s.last()),
    ensures
        trim(s) == s,
{
}

proof fn lemma_trim_start_len(s: Seq<char>)
    ensures
        trim_start(s).len() <= s.len(),
        trim_start(s).len() == s.len() ==> trim_start(s) == s,
    decreases s.len(),
{
    if s.len() > 0 && is_ws(s[0]) {
        lemma_trim_start_len(s.drop_first());
    }
}

proof fn lemma_trim_end_len(s: Seq<char>)
    ensures
        trim_end(s).len() <= s.len(),
        trim_end(s).len() == s.len() ==> trim_end(s) == s,
    decreases s.len(),
{
    if s.len() > 0 && is_ws(s.last()) {
        lemma_trim_end_len(s.drop_last());
    }
}

/// A non-empty text that is its own trim neither starts nor ends with
/// white space.
pub proof fn lemma_trimmed_ends(s: Seq<char>)
    requires
        s.len() > 0,
        trim(s) == s,
    ensures
        !is_ws(s[0]),
        !is_ws(s.last()),
{
    lemma_trim_start_len(s);
    lemma_trim_end_len(trim_start(s));
    if is_ws(s[0]) {
        lemma_trim_start_len(s.drop_first());
    }
    assert(trim_start(s) == s);
    if is_ws(s.last()) {
        lemma_trim_end_len(s.drop_last());
    }
}

// ───────────────────────── executable helpers ─────────────────────────

/// `String::push`: appends one character.
#[verifier::external_body]
pub(crate) fn push_char(s: &mut String, c: char)
    ensures
        final(s)@ == old(s)@.push(c),
{
    s.push(c);
}

/// The characters of `s`, in order.
pub fn chars_of(s: &str) -> (v: Vec<char>)
    ensures
        v@ == s@,
{
    broadcast use vstd::string::group_string_axioms;

    let mut v: Vec<char> = Vec::new();
    for c in it: s.chars()
        invariant
            v@ == it.seq().take(it.index() as int),
    {
        v.push(c);
    }
    v
}

/// A `String` holding exactly the characters `v`.
pub fn string_of(v: &[char]) -> (s: String)
    ensures
        s@ == v@,
{
    let mut s = String::new();
    let mut i: usize = 0;
    while i < v.len()
        invariant
            i <= v.len(),
            s@ == v@.take(i as int),
        decreases v.len() - i,
    {
        push_char(&mut s, v[i]);
        i = i + 1;
        assert(s@ =~= v@.take(i as int));
    }
    assert(v@.take(v.len() as int) =~= v@);
    s
}

/// Appends the characters of `t` to `s`.
pub fn push_chars(s: &mut String, t: &[char])
    ensures
        final(s)@ == old(s)@ + t@,
{
    let ghost s0 = s@;
    let mut i: usize = 0;
    while i < t.len()
        invariant
            i <= t.len(),
            s@ == s0 + t@.take(i as int),
        decreases t.len() - i,
    {
        push_char(s, t[i]);
        i = i + 1;
        assert(s@ =~= s0 + t@.take(i as int));
    }
    assert(t@.take(t.len() as int) =~= t@);
}

/// Appends a string slice.
pub fn push_str(s: &mut String, t: &str)
    ensures
        final(s)@ == old(s)@ + t@,
{
    let v = chars_of(t);
    push_chars(s, v.as_slice());
}

/// An owned copy of a string slice.
pub fn owned(t: &str) -> (r: String)
    ensures
        r@ == t@,
{
    let mut s = String::new();
    push_str(&mut s, t);
    s
}

/// An owned copy of an optional string.
pub fn owned_opt(t: &Option<String>) -> (r: Option<String>)
    ensures
        opt_chars(r) == opt_chars(*t),
{
    match t {
        Some(x) => Some(owned(x.as_str())),
        None => None,
    }
}

/// `v[lo..hi]` as a fresh vector.
pub fn slice_of(v: &[char], lo: usize, hi: usize) -> (r: Vec<char>)
    requires
        lo <= hi <= v.len(),
    ensures
        r@ == v@.subrange(lo as int, hi as int),
{
    let mut r: Vec<char> = Vec::new();
    let mut i = lo;
    while i < hi
        invariant
            lo <= i <= hi,
            hi <= v.len(),
            r@ == v@.subrange(lo as int, i as int),
        decreases hi - i,
    {
        r.push(v[i]);
        i = i + 1;
        assert(r@ =~= v@.subrange(lo as int, i as int));
    }
    r
}

/// A copy of `v`.
pub fn copy_chars(v: &[char]) -> (r: Vec<char>)
    ensures
        r@ == v@,
{
    let r = slice_of(v, 0, v.len());
    assert(v@.subrange(0, v@.len() as int) =~= v@);
    r
}

/// `char::is_whitespace`.
pub fn is_ws_char(c: char) -> (b: bool)
    ensures
        b == is_ws(c),
{
    let u = c as u32;
    (9 <= u && u <= 13) || u == 32 || u == 0x85 || u == 0xA0 || u == 0x1680 || (0x2000 <= u && u
        <= 0x200A) || u == 0x2028 || u == 0x2029 || u == 0x202F || u == 0x205F || u == 0x3000
}

/// `char::to_ascii_lowercase`.
pub fn lower_char(c: char) -> (d: char)
    ensures
        d == lower(c),
{
    if 'A' <= c && c <= 'Z' {
        let u = (c as u32) + 32;
        assert(u < 128);
        let b = u as u8;
        b as char
    } else {
        c
    }
}

/// `to_ascii_lowercase` of a whole sequence.
pub fn lower_chars(v: &[char]) -> (r: Vec<char>)
    ensures
        r@ == lower_seq(v@),
{
    let mut r: Vec<char> = Vec::new();
    let mut i: usize = 0;
    while i < v.len()
        invariant
            i <= v.len(),
            r@ == lower_seq(v@.take(i as int)),
        decreases v.len() - i,
    {
        let c = lower_char(v[i]);
        r.push(c);
        i = i + 1;
        assert(r@ =~= lower_seq(v@.take(i as int)));
    }
    assert(v@.take(v.len() as int) =~= v@);
    r
}

/// Equality of two character sequences.
pub fn chars_eq(a: &[char], b: &[char]) -> (r: bool)
    ensures
        r == (a@ == b@),
{
    if a.len() != b.len() {
        return false;
    }
    let mut i: usize = 0;
    while i < a.len()
        invariant
            i <= a.len(),
            a.len() == b.len(),
            forall|j: int| 0 <= j < i ==> a@[j] == b@[j],
        decreases a.len() - i,
    {
        if a[i] != b[i] {
            return false;
        }
        i = i + 1;
    }
    assert(a@ =~= b@);
    true
}

/// `eq_ignore_ascii_case`.
pub fn eq_ignore_case(a: &[char], b: &[char]) -> (r: bool)
    ensures
        r == (lower_seq(a@) == lower_seq(b@)),
{
    if a.len() != b.len() {
        proof {
            assert(lower_seq(a@).len() != lower_seq(b@).len());
        }
        return false;
    }
    let mut i: usize = 0;
    while i < a.len()
        invariant
            i <= a.len(),
            a.len() == b.len(),
            forall|j: int| 0 <= j < i ==> lower(a@[j]) == lower(b@[j]),
        decreases a.len() - i,
    {
        let x = lower_char(a[i]);
        let y = lower_char(b[i]);
        if x != y {
            proof {
                assert(lower_seq(a@)[i as int] != lower_seq(b@)[i as int]);
            }
            return false;
        }
        i = i + 1;
    }
    assert(lower_seq(a@) =~= lower_seq(b@));
    true
}

/// Whether `n` occurs in `h` at index `i`.
pub fn occurs_at_exec(h: &[char], n: &[char], i: usize) -> (r: bool)
    ensures
        r == occurs_at(h@, n@, i as int),
{
    if i > h.len() || n.len() > h.len() - i {
        return false;
    }
    let mut k: usize = 0;
    while k < n.len()
        invariant
            k <= n.len(),
            i + n.len() <= h.len(),
            forall|j: int| 0 <= j < k ==> h@[i + j] == n@[j],
        decreases n.len() - k,
    {
        if h[i + k] != n[k] {
            proof {
                assert(h@.subrange(i as int, i + n.len())[k as int] != n@[k as int]);
            }
            return false;
        }
        k = k + 1;
    }
    assert(h@.subrange(i as int, i + n.len()) =~= n@);
    true
}

/// The first index `>= from` at which `n` occurs in `h`.
pub fn find_exec(h: &[char], n: &[char], from: usize) -> (r: Option<usize>)
    ensures
        match r {
            Some(i) => find_from(h@, n@, from as int) == Some(i as int),
            None => find_from(h@, n@, from as int) is None,
        },
{
    let mut i = from;
    while i <= h.len() && n.len() <= h.len() - i
        invariant
            from <= i,
            find_from(h@, n@, from as int) == find_from(h@, n@, i as int),
        decreases h.len() + 1 - i,
    {
        if occurs_at_exec(h, n, i) {
            return Some(i);
        }
        proof {
            if n@.len() == 0 {
                assert(h@.subrange(i as int, i as int) =~= n@);
            }
        }
        i = i + 1;
    }
    None
}

/// `h.starts_with(n)`.
pub fn starts_with_exec(h: &[char], n: &[char]) -> (r: bool)
    ensures
        r == starts_with(h@, n@),
{
    occurs_at_exec(h, n, 0)
}

/// `h.ends_with(n)`.
pub fn ends_with_exec(h: &[char], n: &[char]) -> (r: bool)
    ensures
        r == ends_with(h@, n@),
{
    if n.len() > h.len() {
        return false;
    }
    occurs_at_exec(h, n, h.len() - n.len())
}

/// `str::contains`.
pub fn contains_exec(h: &[char], n: &[char]) -> (r: bool)
    ensures
        r == contains(h@, n@),
{
    find_exec(h, n, 0).is_some()
}

/// `str::trim_start`.
pub fn trim_start_chars(v: &[char]) -> (r: Vec<char>)
    ensures
        r@ == trim_start(v@),
{
    let mut i: usize = 0;
    assert(v@.subrange(0, v@.len() as int) =~= v@);
    while i < v.len() && is_ws_char(v[i])
        invariant
            i <= v.len(),
            trim_start(v@) == trim_start(v@.subrange(i as int, v@.len() as int)),
        decreases v.len() - i,
    {
        proof {
            let s = v@.subrange(i as int, v@.len() as int);
            assert(s.drop_first() =~= v@.subrange(i + 1, v@.len() as int));
        }
        i = i + 1;
    }
    slice_of(v, i, v.len())
}

/// `str::trim_end`.
pub fn trim_end_chars(v: &[char]) -> (r: Vec<char>)
    ensures
        r@ == trim_end(v@),
{
    let mut j: usize = v.len();
    assert(v@.subrange(0, v@.len() as int) =~= v@);
    while j > 0 && is_ws_char(v[j - 1])
        invariant
            j <= v.len(),
            trim_end(v@) == trim_end(v@.subrange(0, j as int)),
        decreases j,
    {
        proof {
            let s = v@.subrange(0, j as int);
            assert(s.drop_last() =~= v@.subrange(0, j - 1));
        }
        j = j - 1;
    }
    slice_of(v, 0, j)
}

/// `str::trim`.
pub fn trim_chars(v: &[char]) -> (r: Vec<char>)
    ensures
        r@ == trim(v@),
{
    let a = trim_start_chars(v);
    trim_end_chars(a.as_slice())
}

/// `s.trim()` of a string slice, as characters.
pub fn trimmed(s: &str) -> (r: Vec<char>)
    ensures
        r@ == trim(s@),
{
    let v = chars_of(s);
    trim_chars(v.as_slice())
}

/// `trim_matches(c)` for one character.
pub fn trim_matches_chars(v: &[char], c: char) -> (r: Vec<char>)
    ensures
        r@ == trim_matches(v@, c),
{
    let mut i: usize = 0;
    assert(v@.subrange(0, v@.len() as int) =~= v@);
    while i < v.len() && v[i] == c
        invariant
            i <= v.len(),
            strip_char_start(v@, c) == strip_char_start(v@.subrange(i as int, v@.len() as int), c),
        decreases v.len() - i,
    {
        proof {
            let s = v@.subrange(i as int, v@.len() as int);
            assert(s.drop_first() =~= v@.subrange(i + 1, v@.len() as int));
        }
        i = i + 1;
    }
    let a = slice_of(v, i, v.len());
    let mut j: usize = a.len();
    assert(a@.subrange(0, a@.len() as int) =~= a@);
    while j > 0 && a[j - 1] == c
        invariant
            j <= a.len(),
            strip_char_end(a@, c) == strip_char_end(a@.subrange(0, j as int), c),
        decreases j,
    {
        proof {
            let s = a@.subrange(0, j as int);
            assert(s.drop_last() =~= a@.subrange(0, j - 1));
        }
        j = j - 1;
    }
    slice_of(a.as_slice(), 0, j)
}

/// Replaces every occurrence of `c` by `d`.
pub fn replace_char_exec(v: &[char], c: char, d: char) -> (r: Vec<char>)
    ensures
        r@ == replace_char(v@, c, d),
{
    let mut r: Vec<char> = Vec::new();
    let mut i: usize = 0;
    while i < v.len()
        invariant
            i <= v.len(),
            r@ == replace_char(v@.take(i as int), c, d),
        decreases v.len() - i,
    {
        if v[i] == c {
            r.push(d);
        } else {
            r.push(v[i]);
        }
        i = i + 1;
        assert(r@ =~= replace_char(v@.take(i as int), c, d));
    }
    assert(v@.take(v.len() as int) =~= v@);
    r
}

/// Index just after the last `\` or `/`, or 0 when there is none.
pub fn last_path_start(v: &[char]) -> (k: usize)
    ensures
        k <= v.len(),
        last_path_part(v@) == v@.subrange(k as int, v@.len() as int),
{
    let mut k: usize = v.len();
    assert(v@.subrange(0, v@.len() as int) =~= v@);
    assert(v@.subrange(v@.len() as int, v@.len() as int) =~= Seq::<char>::empty());
    assert(v@ + Seq::<char>::empty() =~= v@);
    while k > 0 && v[k - 1] != '\\' && v[k - 1] != '/'
        invariant
            k <= v.len(),
            last_path_part(v@) == last_path_part(v@.subrange(0, k as int)) + v@.subrange(
                k as int,
                v@.len() as int,
            ),
        decreases k,
    {
        proof {
            let s = v@.subrange(0, k as int);
            assert(s.drop_last() =~= v@.subrange(0, k - 1));
            assert(last_path_part(s) == last_path_part(s.drop_last()).push(s.last()));
            assert(last_path_part(v@.subrange(0, k - 1)).push(v@[k - 1]) + v@.subrange(
                k as int,
                v@.len() as int,
            ) =~= last_path_part(v@.subrange(0, k - 1)) + v@.subrange(k - 1, v@.len() as int));
        }
        k = k - 1;
    }
    proof {
        let s = v@.subrange(0, k as int);
        if k > 0 {
            assert(last_path_part(s) =~= Seq::<char>::empty());
        } else {
            assert(last_path_part(s) =~= Seq::<char>::empty());
        }
        assert(Seq::<char>::empty() + v@.subrange(k as int, v@.len() as int) =~= v@.subrange(
            k as int,
            v@.len() as int,
        ));
    }
    k
}

/// The part of a path after the last separator.
pub fn last_path_part_exec(v: &[char]) -> (r: Vec<char>)
    ensures
        r@ == last_path_part(v@),
{
    let k = last_path_start(v);
    slice_of(v, k, v.len())
}

/// Whether every character is an ASCII digit.
pub fn all_digits_exec(v: &[char]) -> (r: bool)
    ensures
        r == all_digits(v@),
{
    let mut i: usize = 0;
    while i < v.len()
        invariant
            i <= v.len(),
            forall|j: int| 0 <= j < i ==> is_digit(#[trigger] v@[j]),
        decreases v.len() - i,
    {
        if !('0' <= v[i] && v[i] <= '9') {
            proof {
                assert(!is_digit(v@[i as int]));
            }
            return false;
        }
        i = i + 1;
    }
    true
}

/// Reads a run of decimal digits as a `u64`; `None` when it does not fit.
pub fn digits_to_u64(v: &[char]) -> (r: Option<u64>)
    requires
        all_digits(v@),
    ensures
        match r {
            Some(x) => x == digits_value(v@),
            None => digits_value(v@) > u64::MAX,
        },
{
    let mut acc: u64 = 0;
    let mut i: usize = 0;
    while i < v.len()
        invariant
            i <= v.len(),
            all_digits(v@),
            acc == digits_value(v@.take(i as int)),
        decreases v.len() - i,
    {
        proof {
            assert(v@.take(i + 1).drop_last() =~= v@.take(i as int));
            assert(is_digit(v@[i as int]));
        }
        let d = (v[i] as u32) - 48;
        if acc > (u64::MAX - (d as u64)) / 10 {
            proof {
                lemma_digits_value_prefix(v@, i + 1);
                assert(digits_value(v@.take(i + 1)) == acc * 10 + d);
            }
            return None;
        }
        acc = acc * 10 + (d as u64);
        i = i + 1;
    }
    assert(v@.take(v.len() as int) =~= v@);
    Some(acc)
}

/// `s.parse::<u64>().ok()`.
pub fn parse_u64(v: &[char]) -> (r: Option<u64>)
    ensures
        r == parse_u64_spec(v@),
{
    let body = if v.len() > 0 && v[0] == '+' {
        slice_of(v, 1, v.len())
    } else {
        copy_chars(v)
    };
    proof {
        if v@.len() > 0 && v@[0] == '+' {
            assert(body@ =~= v@.drop_first());
        }
    }
    if body.len() == 0 {
        return None;
    }
    if !all_digits_exec(body.as_slice()) {
        return None;
    }
    digits_to_u64(body.as_slice())
}

/// `s.parse::<u32>().ok()`.
pub fn parse_u32(v: &[char]) -> (r: Option<u32>)
    ensures
        r == parse_u32_spec(v@),
{
    proof {
        lemma_unsigned_value_nonneg(v@);
    }
    match parse_u64(v) {
        Some(x) => {
            if x <= 0xFFFF_FFFF {
                Some(x as u32)
            } else {
                None
            }
        },
        None => {
            proof {
                if let Some(val) = unsigned_value(v@) {
                    assert(val > u64::MAX);
                }
            }
            None
        },
    }
}

/// `s.parse::<i64>().ok()`.
pub fn parse_i64(v: &[char]) -> (r: Option<i64>)
    ensures
        r == parse_i64_spec(v@),
{
    proof {
        lemma_unsigned_value_nonneg(v@);
        if v@.len() > 0 && all_digits(v@.drop_first()) {
            lemma_digits_value_nonneg(v@.drop_first());
        }
    }
    if v.len() > 0 && v[0] == '-' {
        let body = slice_of(v, 1, v.len());
        assert(body@ =~= v@.drop_first());
        if body.len() == 0 {
            return None;
        }
        if !all_digits_exec(body.as_slice()) {
            return None;
        }
        match digits_to_u64(body.as_slice()) {
            Some(x) => {
                if x <= 0x8000_0000_0000_0000 {
                    if x == 0x8000_0000_0000_0000 {
                        Some(i64::MIN)
                    } else {
                        let y = x as i64;
                        Some(0 - y)
                    }
                } else {
                    None
                }
            },
            None => None,
        }
    } else {
        match parse_u64(v) {
            Some(x) => {
                if x <= 0x7FFF_FFFF_FFFF_FFFF {
                    Some(x as i64)
                } else {
                    None
                }
            },
            None => {
                proof {
                    if let Some(val) = unsigned_value(v@) {
                        assert(val > u64::MAX);
                    }
                }
                None
            },
        }
    }
}

/// Whether `c` is one of `set`.
pub fn has_char(set: &[char], c: char) -> (r: bool)
    ensures
        r == set@.contains(c),
{
    let mut i: usize = 0;
    while i < set.len()
        invariant
            i <= set.len(),
            forall|j: int| 0 <= j < i ==> set@[j] != c,
        decreases set.len() - i,
    {
        if set[i] == c {
            assert(set@[i as int] == c);
            return true;
        }
        i = i + 1;
    }
    proof {
        if set@.contains(c) {
            let j = choose|j: int| 0 <= j < set@.len() && set@[j] == c;
            assert(set@[j] != c);
        }
    }
    false
}

/// The index of the first character of `v` that is one of `stops`, or `v.len()`.
pub fn first_stop_exec(v: &[char], stops: &[char]) -> (i: usize)
    ensures
        i == first_stop(v@, stops@),
        i <= v.len(),
{
    let mut i: usize = 0;
    while i < v.len() && !has_char(stops, v[i])
        invariant
            i <= v.len(),
            forall|j: int| 0 <= j < i ==> !stops@.contains(#[trigger] v@[j]),
        decreases v.len() - i,
    {
        i = i + 1;
    }
    proof {
        lemma_first_stop_at(v@, stops@, i as int);
    }
    i
}

/// `split(stops).next()`: the characters before the first stop.
pub fn before_stop_exec(v: &[char], stops: &[char]) -> (r: Vec<char>)
    ensures
        r@ == before_stop(v@, stops@),
{
    let i = first_stop_exec(v, stops);
    let r = slice_of(v, 0, i);
    assert(r@ =~= v@.take(i as int));
    r
}

/// The characters after the first stop, if there is one.
pub fn after_stop_exec(v: &[char], stops: &[char]) -> (r: Option<Vec<char>>)
    ensures
        match r {
            Some(t) => after_stop(v@, stops@) == Some(t@),
            None => after_stop(v@, stops@) is None,
        },
{
    let i = first_stop_exec(v, stops);
    if i < v.len() {
        let t = slice_of(v, i + 1, v.len());
        assert(t@ =~= v@.skip(i + 1));
        Some(t)
    } else {
        None
    }
}

/// Index just after the last stop character, or 0 when there is none.
pub fn last_stop_start(v: &[char], stops: &[char]) -> (k: usize)
    ensures
        k <= v.len(),
        after_last(v@, stops@) == v@.subrange(k as int, v@.len() as int),
{
    let mut k: usize = v.len();
    assert(v@.subrange(0, v@.len() as int) =~= v@);
    assert(v@.subrange(v@.len() as int, v@.len() as int) =~= Seq::<char>::empty());
    assert(v@ + Seq::<char>::empty() =~= v@);
    while k > 0 && !has_char(stops, v[k - 1])
        invariant
            k <= v.len(),
            after_last(v@, stops@) == after_last(v@.subrange(0, k as int), stops@) + v@.subrange(
                k as int,
                v@.len() as int,
            ),
        decreases k,
    {
        proof {
            let s = v@.subrange(0, k as int);
            assert(s.drop_last() =~= v@.subrange(0, k - 1));
            assert(after_last(s, stops@) == after_last(s.drop_last(), stops@).push(s.last()));
            assert(after_last(v@.subrange(0, k - 1), stops@).push(v@[k - 1]) + v@.subrange(
                k as int,
                v@.len() as int,
            ) =~= after_last(v@.subrange(0, k - 1), stops@) + v@.subrange(
                k - 1,
                v@.len() as int,
            ));
        }
        k = k - 1;
    }
    proof {
        let s = v@.subrange(0, k as int);
        assert(after_last(s, stops@) =~= Seq::<char>::empty());
        assert(Seq::<char>::empty() + v@.subrange(k as int, v@.len() as int) =~= v@.subrange(
            k as int,
            v@.len() as int,
        ));
    }
    k
}

/// `rsplit(stops).next()`: the characters after the last stop.
pub fn after_last_exec(v: &[char], stops: &[char]) -> (r: Vec<char>)
    ensures
        r@ == after_last(v@, stops@),
{
    let k = last_stop_start(v, stops);
    slice_of(v, k, v.len())
}

/// The decimal spelling of `n`.
pub fn decimal_chars(n: u64) -> (r: Vec<char>)
    ensures
        r@ == decimal(n as nat),
    decreases n,
{
    let d: u8 = (n % 10) as u8;
    let c: char = (d + 48) as char;
    assert(c == digit_char((n % 10) as nat));
    if n < 10 {
        let mut r: Vec<char> = Vec::new();
        r.push(c);
        assert(r@ =~= seq![digit_char(n as nat)]);
        r
    } else {
        let mut r = decimal_chars(n / 10);
        r.push(c);
        r
    }
}

/// Appends the decimal spelling of `n`.
pub fn push_decimal(s: &mut String, n: u64)
    ensures
        final(s)@ == old(s)@ + decimal(n as nat),
{
    let d = decimal_chars(n);
    push_chars(s, d.as_slice());
}

/// `value / unit` rounded to tenths, half up, as whole tenths.
pub open spec fn tenths_of(value: nat, unit: nat) -> nat
    recommends
        unit > 0,
{
    (20 * value + unit) / (2 * unit)
}

/// `value / unit` written with one decimal (`3.2`), rounded half up on the
/// exact quotient.
pub open spec fn one_decimal(value: nat, unit: nat) -> Seq<char> {
    let t = tenths_of(value, unit);
    decimal(t / 10) + seq!['.'] + decimal(t % 10)
}

pub fn push_one_decimal(s: &mut String, value: u64, unit: u64)
    requires
        unit > 0,
    ensures
        final(s)@ == old(s)@ + one_decimal(value as nat, unit as nat),
{
    let t: u128 = (20u128 * value as u128 + unit as u128) / (2u128 * unit as u128);
    assert(t <= 10 * value) by (nonlinear_arith)
        requires
            t == (20 * value + unit) / (2 * unit),
            unit > 0,
            value <= u64::MAX,
            unit <= u64::MAX,
    ;
    let whole: u128 = t / 10;
    assert(whole <= u64::MAX);
    push_decimal(s, whole as u64);
    push_char(s, '.');
    push_decimal(s, (t % 10) as u64);
}

/// Lexicographic comparison of two character sequences.
pub fn compare_lex_exec(a: &[char], b: &[char]) -> (r: Order)
    ensures
        r == compare_lex(a@, b@),
{
    let mut i: usize = 0;
    assert(a@.skip(0) =~= a@);
    assert(b@.skip(0) =~= b@);
    while i < a.len() && i < b.len() && a[i] == b[i]
        invariant
            i <= a.len(),
            i <= b.len(),
            compare_lex(a@, b@) == compare_lex(a@.skip(i as int), b@.skip(i as int)),
        decreases a.len() - i,
    {
        proof {
            let x = a@.skip(i as int);
            let y = b@.skip(i as int);
            assert(x.drop_first() =~= a@.skip(i + 1));
            assert(y.drop_first() =~= b@.skip(i + 1));
        }
        i = i + 1;
    }
    let ghost x = a@.skip(i as int);
    let ghost y = b@.skip(i as int);
    if i == a.len() && i == b.len() {
        Order::Equal
    } else if i == a.len() {
        Order::Less
    } else if i == b.len() {
        Order::Greater
    } else if a[i] < b[i] {
        assert(x[0] == a@[i as int]);
        Order::Less
    } else {
        assert(x[0] == a@[i as int] && y[0] == b@[i as int]);
        Order::Greater
    }
}

/// A vector holding the single character `c`.
pub fn one_char(c: char) -> (v: Vec<char>)
    ensures
        v@ == seq![c],
{
    let mut v: Vec<char> = Vec::new();
    v.push(c);
    v
}

/// A vector holding the two characters `c` and `d`.
pub fn two_chars(c: char, d: char) -> (v: Vec<char>)
    ensures
        v@ == seq![c, d],
{
    let mut v: Vec<char> = Vec::new();
    v.push(c);
    v.push(d);
    v
}

/// A vector holding the three characters `c`, `d` and `e`.
pub fn three_chars(c: char, d: char, e: char) -> (v: Vec<char>)
    ensures
        v@ == seq![c, d, e],
{
    let mut v: Vec<char> = Vec::new();
    v.push(c);
    v.push(d);
    v.push(e);
    v
}

/// Appends the characters `t` to `v`.
pub fn extend_chars(v: &mut Vec<char>, t: &[char])
    ensures
        final(v)@ == old(v)@ + t@,
{
    let ghost v0 = v@;
    let mut i: usize = 0;
    while i < t.len()
        invariant
            i <= t.len(),
            v@ == v0 + t@.take(i as int),
        decreases t.len() - i,
    {
        v.push(t[i]);
        i = i + 1;
        assert(v@ =~= v0 + t@.take(i as int));
    }
    assert(t@.take(t.len() as int) =~= t@);
}

} // verus!
