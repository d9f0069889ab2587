//! Session ids: the conductor's counter, a decimal number kept in a text
//! file (reading tolerates surrounding whitespace and treats anything that
//! is not a `u32` as zero; ids are claimed by incrementing it and raised by
//! explicit ids), and the ids of the session directories on disk.
use vstd::prelude::*;

verus! {

broadcast use vstd::string::axiom_spec_iter;

/// Unicode `White_Space`, the characters `char::is_whitespace` accepts.
pub open spec fn is_whitespace(c: char) -> bool {
    ||| '\t' <= c <= '\r'
    ||| c == ' '
    ||| c == '\u{85}'
    ||| c == '\u{a0}'
    ||| c == '\u{1680}'
    ||| '\u{2000}' <= c <= '\u{200a}'
    ||| c == '\u{2028}'
    ||| c == '\u{2029}'
    ||| c == '\u{202f}'
    ||| c == '\u{205f}'
    ||| c == '\u{3000}'
}

/// `s` without its leading whitespace.
pub open spec fn trim_start(s: Seq<char>) -> Seq<char>
    decreases s.len(),
{
    if s.len() > 0 && is_whitespace(s[0]) {
        trim_start(s.drop_first())
    } else {
        s
    }
}

/// `s` without its trailing whitespace.
pub open spec fn trim_end(s: Seq<char>) -> Seq<char>
    decreases s.len(),
{
    if s.len() > 0 && is_whitespace(s.last()) {
        trim_end(s.drop_last())
    } else {
        s
    }
}

/// `s` without leading and trailing whitespace.
pub open spec fn trim(s: Seq<char>) -> Seq<char> {
    trim_end(trim_start(s))
}

pub open spec fn is_digit(c: char) -> bool {
    '0' <= c <= '9'
}

pub open spec fn digit_value(c: char) -> nat {
    (c as int - '0' as int) as nat
}

/// The number a string of decimal digits denotes.
pub open spec fn decimal_value(d: Seq<char>) -> nat
    decreases d.len(),
{
    if d.len() == 0 {
        0
    } else {
        decimal_value(d.drop_last()) * 10 + digit_value(d.last())
    }
}

/// The digits of an unsigned number: the text after an optional `+`.
pub open spec fn unsigned_digits(s: Seq<char>) -> Seq<char> {
    if s.len() > 0 && s[0] == '+' { s.drop_first() } else { s }
}

/// One or more decimal digits whose value fits a `u32`.
pub open spec fn parse_digits(d: Seq<char>) -> Option<u32> {
    if d.len() == 0 || (exists|i: int| 0 <= i < d.len() && !is_digit(#[trigger] d[i]))
        || decimal_value(d) > u32::MAX {
        None
    } else {
        Some(decimal_value(d) as u32)
    }
}

/// `u32`'s `FromStr`: an optional `+`, then one or more decimal digits
/// whose value fits.
pub open spec fn parse_u32(s: Seq<char>) -> Option<u32> {
    parse_digits(unsigned_digits(s))
}

/// The counter a file's text holds: the trimmed text as a `u32`, zero when
/// it is not one.
pub open spec fn counter_value(text: Seq<char>) -> u32 {
    match parse_u32(trim(text)) {
        Some(v) => v,
        None => 0,
    }
}

pub open spec fn digit_char(d: nat) -> char {
    ('0' as int + d) as char
}

/// Decimal notation of `v`, without sign or leading zeros.
pub open spec fn decimal_text(v: nat) -> Seq<char>
    decreases v,
{
    if v < 10 {
        seq![digit_char(v)]
    } else {
        decimal_text(v / 10).push(digit_char(v % 10))
    }
}

proof fn lemma_trim_start_at(s: Seq<char>, k: int)
    requires
        0 <= k <= s.len(),
        forall|j: int| 0 <= j < k ==> is_whitespace(#[trigger] s[j]),
        k == s.len() || !is_whitespace(s[k]),
    ensures
        trim_start(s) == s.subrange(k, s.len() as int),
    decreases k,
{
    if k == 0 {
        assert(s.subrange(0, s.len() as int) =~= s);
    } else {
        let t = s.drop_first();
        assert forall|j: int| 0 <= j < k - 1 implies is_whitespace(#[trigger] t[j]) by {
            assert(t[j] == s[j + 1]);
        }
        lemma_trim_start_at(t, k - 1);
        assert(t.subrange(k - 1, t.len() as int) =~= s.subrange(k, s.len() as int));
    }
}

proof fn lemma_trim_end_at(s: Seq<char>, m: int)
    requires
        0 <= m <= s.len(),
        forall|j: int| m <= j < s.len() ==> is_whitespace(#[trigger] s[j]),
        m == 0 || !is_whitespace(s[m - 1]),
    ensures
        trim_end(s) == s.subrange(0, m),
    decreases s.len() - m,
{
    if m == s.len() {
        assert(s.subrange(0, m) =~= s);
    } else {
        let t = s.drop_last();
        assert forall|j: int| m <= j < t.len() implies is_whitespace(#[trigger] t[j]) by {
            assert(t[j] == s[j]);
        }
        lemma_trim_end_at(t, m);
        assert(t.subrange(0, m) =~= s.subrange(0, m));
    }
}

proof fn lemma_decimal_prefix(d: Seq<char>, i: int)
    requires
        0 <= i < d.len(),
    ensures
        decimal_value(d.subrange(0, i + 1)) == decimal_value(d.subrange(0, i)) * 10 + digit_value(
            d[i],
        ),
{
    assert(d.subrange(0, i + 1).drop_last() =~= d.subrange(0, i));
}

proof fn lemma_decimal_monotone(d: Seq<char>, j: int, k: int)
    requires
        0 <= j <= k <= d.len(),
    ensures
        decimal_value(d.subrange(0, j)) <= decimal_value(d.subrange(0, k)),
    decreases k - j,
{
    if j < k {
        lemma_decimal_monotone(d, j, k - 1);
        lemma_decimal_prefix(d, k - 1);
    }
}

/// The characters of `text`.
fn chars_of(text: &str) -> (v: Vec<char>)
    ensures
        v@ == text@,
{
    let mut v: Vec<char> = Vec::new();
    for c in it: text.chars()
        invariant
            v@ == it.seq().take(it.index() as int),
    {
        v.push(c);
    }
    v
}

fn is_whitespace_char(c: char) -> (r: bool)
    ensures
        r == is_whitespace(c),
{
    ('\t' <= c && c <= '\r') || c == ' ' || c == '\u{85}' || c == '\u{a0}' || c == '\u{1680}' || (
    '\u{2000}' <= c && c <= '\u{200a}') || c == '\u{2028}' || c == '\u{2029}' || c == '\u{202f}'
        || c == '\u{205f}' || c == '\u{3000}'
}

/// Reads the counter file's text: trimmed, parsed as a `u32`, zero when it
/// is not one.
pub fn parse_counter(text: &str) -> (r: u32)
    ensures
        r == counter_value(text@),
{
    let v = chars_of(text);
    let len = v.len();
    let mut start: usize = 0;
    while start < len && is_whitespace_char(v[start])
        invariant
            len == v@.len(),
            start <= len,
            forall|j: int| 0 <= j < start ==> is_whitespace(#[trigger] v@[j]),
        decreases len - start,
    {
        start = start + 1;
    }
    let mut end: usize = len;
    while end > start && is_whitespace_char(v[end - 1])
        invariant
            len == v@.len(),
            start <= end <= len,
            forall|j: int| end <= j < len ==> is_whitespace(#[trigger] v@[j]),
        decreases end - start,
    {
        end = end - 1;
    }
    let ghost t = v@.subrange(start as int, end as int);
    proof {
        lemma_trim_start_at(v@, start as int);
        let ts = v@.subrange(start as int, len as int);
        assert forall|j: int| end - start <= j < ts.len() implies is_whitespace(#[trigger] ts[j]) by {
            assert(ts[j] == v@[start + j]);
        }
        if end > start {
            assert(ts[end - start - 1] == v@[end - 1]);
        }
        lemma_trim_end_at(ts, end - start);
        assert(ts.subrange(0, end - start) =~= t);
    }
    match parse_u32_range(&v, start, end) {
        Some(x) => x,
        None => 0,
    }
}

/// `u32`'s `FromStr` on `v[start..end]`.
fn parse_u32_range(v: &Vec<char>, start: usize, end: usize) -> (r: Option<u32>)
    requires
        start <= end <= v@.len(),
    ensures
        r == parse_u32(v@.subrange(start as int, end as int)),
{
    let len = v.len();
    let ghost t = v@.subrange(start as int, end as int);
    let mut i = start;
    if i < end && v[i] == '+' {
        i = i + 1;
    }
    let first = i;
    let ghost d = v@.subrange(first as int, end as int);
    proof {
        assert(d =~= unsigned_digits(t));
    }
    if first == end {
        return None;
    }
    let mut acc: u64 = 0;
    while i < end
        invariant
            len == v@.len(),
            first <= i <= end <= len,
            start <= end,
            d == v@.subrange(first as int, end as int),
            acc == decimal_value(d.subrange(0, i - first)),
            d.len() > 0,
            t == v@.subrange(start as int, end as int),
            d == unsigned_digits(t),
            acc <= u32::MAX,
            forall|j: int| 0 <= j < i - first ==> is_digit(#[trigger] d[j]),
        decreases end - i,
    {
        let c = v[i];
        if !('0' <= c && c <= '9') {
            proof {
                assert(!is_digit(d[i - first]));
                assert(exists|k: int| 0 <= k < d.len() && !is_digit(#[trigger] d[k]));
            }
            return None;
        }
        proof {
            lemma_decimal_prefix(d, i - first);
        }
        acc = acc * 10 + ((c as u32) - ('0' as u32)) as u64;
        if acc > 0xFFFF_FFFF {
            proof {
                lemma_decimal_monotone(d, i - first + 1, d.len() as int);
                assert(d.subrange(0, d.len() as int) =~= d);
            }
            return None;
        }
        i = i + 1;
    }
    proof {
        assert(d.subrange(0, d.len() as int) =~= d);
    }
    Some(acc as u32)
}

/// A session directory's name as an id: `u32`'s `FromStr`, no trimming.
pub fn parse_session_dir(name: &str) -> (r: Option<u32>)
    ensures
        r == parse_u32(name@),
{
    let v = chars_of(name);
    let len = v.len();
    proof {
        assert(v@.subrange(0, len as int) =~= v@);
    }
    parse_u32_range(&v, 0, len)
}

/// Appends `c` to `s`.
#[verifier::external_body]
pub(crate) fn push_char(s: &mut String, c: char)
    ensures
        final(s)@ == old(s)@.push(c),
{
    s.push(c);
}

pub(crate) fn push_decimal(s: &mut String, v: u64)
    ensures
        final(s)@ == old(s)@ + decimal_text(v as nat),
    decreases v,
{
    if v >= 10 {
        push_decimal(s, v / 10);
    }
    let d = v % 10;
    let c = ((d as u8) + 48u8) as char;
    proof {
        assert(c == digit_char((v % 10) as nat));
    }
    push_char(s, c);
    proof {
        if v >= 10 {
            assert(decimal_text(v as nat) == decimal_text((v / 10) as nat).push(digit_char((v % 10) as nat)));
        }
    }
}

/// The counter file's text for `v`: its decimal digits.
pub fn counter_text(v: u32) -> (s: String)
    ensures
        s@ == decimal_text(v as nat),
{
    let mut s = String::new();
    push_decimal(&mut s, v as u64);
    s
}

proof fn lemma_decimal_text(v: nat)
    ensures
        decimal_text(v).len() > 0,
        forall|i: int| 0 <= i < decimal_text(v).len() ==> is_digit(#[trigger] decimal_text(v)[i]),
        decimal_value(decimal_text(v)) == v,
        decimal_text(v)[0] != '+',
    decreases v,
{
    assert(digit_value(digit_char(v % 10)) == v % 10);
    if v < 10 {
        let s = decimal_text(v);
        assert(s == seq![digit_char(v)]);
        assert(s.drop_last() =~= Seq::<char>::empty());
        assert(decimal_value(Seq::<char>::empty()) == 0);
        assert(decimal_value(s) == decimal_value(s.drop_last()) * 10 + digit_value(s.last()));
        assert(decimal_value(s) == v);
    } else {
        lemma_decimal_text(v / 10);
        let p = decimal_text(v / 10);
        let s = decimal_text(v);
        assert(s.drop_last() =~= p);
        assert(s.last() == digit_char(v % 10));
        assert(decimal_value(s) == decimal_value(p) * 10 + digit_value(s.last()));
        assert((v / 10) * 10 + v % 10 == v);
        assert forall|i: int| 0 <= i < s.len() implies is_digit(#[trigger] s[i]) by {
            if i < p.len() {
                assert(s[i] == p[i]);
            }
        }
        assert(s[0] == p[0]);
    }
}

/// The counter reads back what was written: parsing the text written for
/// `v` gives `v`.
pub proof fn lemma_counter_roundtrip(v: u32)
    ensures
        counter_value(decimal_text(v as nat)) == v,
{
    let s = decimal_text(v as nat);
    lemma_decimal_text(v as nat);
    assert(!is_whitespace(s[0]));
    assert(!is_whitespace(s[s.len() - 1]));
    lemma_trim_start_at(s, 0);
    assert(s.subrange(0, s.len() as int) =~= s);
    lemma_trim_end_at(s, s.len() as int);
}

/// The id an automatic claim takes: one past the counter.
pub fn next_session_id(current: u32) -> (r: u32)
    requires
        current < u32::MAX,
    ensures
        r == current + 1,
{
    current + 1
}

/// The counter after an explicit id registers: raised to the id when it is
/// above, `None` when the counter stays.
pub fn raised_counter(current: u32, id: u32) -> (r: Option<u32>)
    ensures
        id > current ==> r == Some(id),
        id <= current ==> r is None,
{
    if id > current {
        Some(id)
    } else {
        None
    }
}


/// The ids among directory names, in order: each name that parses as a
/// `u32`.
pub open spec fn parsed_ids(names: Seq<Seq<char>>) -> Seq<u32>
    decreases names.len(),
{
    if names.len() == 0 {
        Seq::empty()
    } else {
        let rest = parsed_ids(names.drop_last());
        match parse_u32(names.last()) {
            Some(id) => rest.push(id),
            None => rest,
        }
    }
}

pub open spec fn is_sorted(s: Seq<u32>) -> bool {
    forall|i: int, j: int| 0 <= i <= j < s.len() ==> s[i] <= s[j]
}

/// The session ids of directories that hold a manifest, sorted ascending:
/// names that are not a `u32` are skipped.
pub fn session_ids(names: &Vec<String>) -> (r: Vec<u32>)
    ensures
        is_sorted(r@),
        r@.to_multiset() == parsed_ids(names@.map_values(|n: String| n@)).to_multiset(),
{
    let ghost view = names@.map_values(|n: String| n@);
    let mut out: Vec<u32> = Vec::new();
    let mut k: usize = 0;
    while k < names.len()
        invariant
            k <= names@.len(),
            view == names@.map_values(|n: String| n@),
            is_sorted(out@),
            out@.to_multiset() == parsed_ids(view.take(k as int)).to_multiset(),
        decreases names@.len() - k,
    {
        let parsed = parse_session_dir(names[k].as_str());
        proof {
            assert(view.take(k + 1).drop_last() =~= view.take(k as int));
            assert(view.take(k + 1).last() == names@[k as int]@);
        }
        match parsed {
            Some(id) => {
                let mut p: usize = 0;
                while p < out.len() && out[p] <= id
                    invariant
                        p <= out@.len(),
                        forall|j: int| 0 <= j < p ==> out@[j] <= id,
                    decreases out@.len() - p,
                {
                    p = p + 1;
                }
                let ghost before = out@;
                out.insert(p, id);
                proof {
                    assert(out@ == before.insert(p as int, id));
                    vstd::seq_lib::to_multiset_insert(before, p as int, id);
                    assert(out@.to_multiset() == before.to_multiset().insert(id));
                    assert forall|i: int, j: int| 0 <= i <= j < out@.len() implies out@[i] <= out@[j] by {
                        if p < before.len() {
                            assert(before[p as int] > id);
                        }
                        if i < p && j > p {
                            assert(before[i] <= before[j - 1]);
                        } else if i > p {
                            assert(before[i - 1] <= before[j - 1]);
                        } else if j < p {
                        } else if i == p && j > p {
                            assert(before[p as int] <= before[j - 1]);
                        }
                    }
                    assert(parsed_ids(view.take(k + 1)) == parsed_ids(view.take(k as int)).push(id));
                    assert(parsed_ids(view.take(k as int)).push(id).to_multiset() =~= parsed_ids(
                        view.take(k as int),
                    ).to_multiset().insert(id)) by {
                        vstd::seq_lib::to_multiset_build(parsed_ids(view.take(k as int)), id);
                    }
                    assert(out@.to_multiset() == parsed_ids(view.take(k + 1)).to_multiset());
                }
            },
            None => {
                proof {
                    assert(parsed_ids(view.take(k + 1)) == parsed_ids(view.take(k as int)));
                }
            },
        }
        k = k + 1;
    }
    proof {
        assert(view.take(names@.len() as int) =~= view);
    }
    out
}

/// The counter an explicit id leaves behind: the larger of the two.
pub open spec fn counter_after_register(current: u32, id: u32) -> u32 {
    if id > current { id } else { current }
}

/// Automatic ids are fresh: after an explicit id is registered and the
/// counter written back as text, the next claim reads it back and lands
/// above both the explicit id and every earlier claim.
pub proof fn lemma_claim_after_register(current: u32, id: u32)
    requires
        counter_after_register(current, id) < u32::MAX,
    ensures
        counter_value(decimal_text(counter_after_register(current, id) as nat)) + 1 > id,
        counter_value(decimal_text(counter_after_register(current, id) as nat)) + 1 > current,
{
    lemma_counter_roundtrip(counter_after_register(current, id));
}

} // verus!
