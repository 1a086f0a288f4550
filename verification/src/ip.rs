//! IPv4 receiver addresses.
//!
//! A receiver is addressed by a dotted-decimal IPv4 host. The accepted texts
//! are exactly the canonical forms: four decimal octets separated by `'.'`,
//! each the shortest decimal spelling of a value in `0..=255` (so no leading
//! zeros and at most three digits per octet).

use vstd::prelude::*;

verus! {

/// An IPv4 host address, one field per octet.
#[derive(PartialEq, Eq, Structural, Clone, Copy, Debug)]
pub struct Ipv4Host {
    pub a: u8,
    pub b: u8,
    pub c: u8,
    pub d: u8,
}

/// Is `c` a decimal digit?
pub open spec fn is_dec_digit(c: char) -> bool {
    48 <= c as u32 && c as u32 <= 57
}

/// Numeric value of a decimal digit character.
pub open spec fn digit_val(c: char) -> int {
    c as u32 - 48
}

/// The decimal digit character for `k`, when `0 <= k < 10`.
pub open spec fn digit_of(k: int) -> char
    recommends
        0 <= k < 10,
{
    if k == 0 {
        '0'
    } else if k == 1 {
        '1'
    } else if k == 2 {
        '2'
    } else if k == 3 {
        '3'
    } else if k == 4 {
        '4'
    } else if k == 5 {
        '5'
    } else if k == 6 {
        '6'
    } else if k == 7 {
        '7'
    } else if k == 8 {
        '8'
    } else {
        '9'
    }
}

/// The canonical decimal spelling of an octet: one, two or three digits,
/// never with a leading zero.
pub open spec fn dec_repr(v: u8) -> Seq<char> {
    if v < 10 {
        seq![digit_of(v as int)]
    } else if v < 100 {
        seq![digit_of(v as int / 10), digit_of(v as int % 10)]
    } else {
        seq![digit_of(v as int / 100), digit_of(v as int / 10 % 10), digit_of(v as int % 10)]
    }
}

/// The value a digit string denotes, most significant digit first.
pub open spec fn dec_val(s: Seq<char>) -> int
    decreases s.len(),
{
    if s.len() == 0 {
        0
    } else {
        dec_val(s.drop_last()) * 10 + digit_val(s.last())
    }
}

/// The canonical text of a whole address: four octet spellings joined by dots.
pub open spec fn ipv4_seq(h: Ipv4Host) -> Seq<char> {
    dec_repr(h.a) + seq!['.'] + dec_repr(h.b) + seq!['.'] + dec_repr(h.c) + seq!['.'] + dec_repr(
        h.d,
    )
}

/// A character sequence is a well-formed IPv4 address text exactly when it is
/// the canonical text of some host.
pub open spec fn is_ipv4_text(s: Seq<char>) -> bool {
    exists|h: Ipv4Host| s == ipv4_seq(h)
}

/// Every digit character produced by `digit_of` evaluates back to its value.
pub proof fn lemma_digit_of_val(k: int)
    requires
        0 <= k < 10,
    ensures
        is_dec_digit(digit_of(k)),
        digit_val(digit_of(k)) == k,
{
}

/// The canonical octet spelling is one to three digits, carries no leading
/// zero, and denotes the octet itself.
pub proof fn lemma_dec_repr_wf(v: u8)
    ensures
        1 <= dec_repr(v).len() <= 3,
        forall|i: int| 0 <= i < dec_repr(v).len() ==> is_dec_digit(#[trigger] dec_repr(v)[i]),
        dec_repr(v).len() > 1 ==> dec_repr(v)[0] != '0',
        dec_val(dec_repr(v)) == v,
{
    let s = dec_repr(v);
    if v < 10 {
        lemma_digit_of_val(v as int);
        assert(s.drop_last().len() == 0);
        assert(dec_val(s.drop_last()) == 0);
        assert(dec_val(s) == digit_val(s.last()));
    } else if v < 100 {
        lemma_digit_of_val(v as int / 10);
        lemma_digit_of_val(v as int % 10);
        let t = s.drop_last();
        assert(t.len() == 1 && t[0] == s[0]);
        assert(t.last() == digit_of(v as int / 10));
        assert(t.drop_last().len() == 0);
        assert(dec_val(t.drop_last()) == 0);
        assert(dec_val(t) == digit_val(t.last()));
        assert(dec_val(s) == dec_val(t) * 10 + digit_val(s.last()));
        assert(dec_val(s) == (v as int / 10) * 10 + v as int % 10);
        assert(digit_of(v as int / 10) != '0');
    } else {
        lemma_digit_of_val(v as int / 100);
        lemma_digit_of_val(v as int / 10 % 10);
        lemma_digit_of_val(v as int % 10);
        let t = s.drop_last();
        let u = t.drop_last();
        assert(t.len() == 2 && t[0] == s[0] && t[1] == s[1]);
        assert(u.len() == 1 && u[0] == t[0]);
        assert(t.last() == digit_of(v as int / 10 % 10));
        assert(u.last() == digit_of(v as int / 100));
        assert(u.drop_last().len() == 0);
        assert(dec_val(u.drop_last()) == 0);
        assert(dec_val(u) == digit_val(u.last()));
        assert(dec_val(t) == dec_val(u) * 10 + digit_val(t.last()));
        assert(dec_val(s) == dec_val(t) * 10 + digit_val(s.last()));
        assert(v as int == ((v as int / 100) * 10 + v as int / 10 % 10) * 10 + v as int % 10);
        assert(digit_of(v as int / 100) != '0');
    }
}

/// A digit character is recovered from its value.
pub proof fn lemma_digit_roundtrip(c: char)
    requires
        is_dec_digit(c),
    ensures
        0 <= digit_val(c) < 10,
        digit_of(digit_val(c)) == c,
{
}

/// Reading an octet must stop exactly at the end of the digit run that starts
/// at `start`: a canonical octet spelling followed by a non-digit (or by the
/// end of the text) can end nowhere else.
pub proof fn lemma_candidate_at_run_end(s: Seq<char>, start: int, end: int, v: u8, e: int)
    requires
        0 <= start <= end <= s.len(),
        forall|k: int| start <= k < end ==> is_dec_digit(#[trigger] s[k]),
        end == s.len() || !is_dec_digit(s[end]),
        start < e <= s.len(),
        s.subrange(start, e) == dec_repr(v),
        e == s.len() || !is_dec_digit(s[e]),
    ensures
        e == end,
        s.subrange(start, end) == dec_repr(v),
{
    lemma_dec_repr_wf(v);
    if e < end {
        assert(is_dec_digit(s[e]));
        assert(false);
    }
    if e > end {
        assert(end < s.len());
        assert(s[end] == s.subrange(start, e)[end - start]);
        assert(is_dec_digit(dec_repr(v)[end - start]));
        assert(false);
    }
}

/// Two canonical octet readings from the same start position agree.
pub proof fn lemma_octet_unique(s: Seq<char>, start: int, v1: u8, e1: int, v2: u8, e2: int)
    requires
        0 <= start,
        start < e1 <= s.len(),
        start < e2 <= s.len(),
        s.subrange(start, e1) == dec_repr(v1),
        e1 == s.len() || !is_dec_digit(s[e1]),
        s.subrange(start, e2) == dec_repr(v2),
        e2 == s.len() || !is_dec_digit(s[e2]),
    ensures
        v1 == v2,
        e1 == e2,
{
    lemma_dec_repr_wf(v1);
    lemma_dec_repr_wf(v2);
    assert forall|k: int| start <= k < e1 implies is_dec_digit(#[trigger] s[k]) by {
        assert(s[k] == s.subrange(start, e1)[k - start]);
        assert(is_dec_digit(dec_repr(v1)[k - start]));
    }
    lemma_candidate_at_run_end(s, start, e1, v2, e2);
    assert(dec_repr(v1) == dec_repr(v2));
    assert(dec_val(dec_repr(v1)) == dec_val(dec_repr(v2)));
}

/// A digit string of at most three characters, without a leading zero and
/// denoting at most 255, is the canonical spelling of its value.
pub proof fn lemma_digit_seq_canonical(t: Seq<char>)
    requires
        1 <= t.len() <= 3,
        forall|i: int| 0 <= i < t.len() ==> is_dec_digit(#[trigger] t[i]),
        t.len() > 1 ==> t[0] != '0',
        dec_val(t) <= 255,
    ensures
        0 <= dec_val(t) <= 255,
        t == dec_repr(dec_val(t) as u8),
{
    if t.len() == 1 {
        lemma_digit_roundtrip(t[0]);
        assert(t.drop_last().len() == 0);
        assert(dec_val(t.drop_last()) == 0);
        assert(dec_val(t) == digit_val(t[0]));
        let v = dec_val(t) as u8;
        assert(t =~= dec_repr(v));
    } else if t.len() == 2 {
        lemma_digit_roundtrip(t[0]);
        lemma_digit_roundtrip(t[1]);
        let u = t.drop_last();
        assert(u.len() == 1 && u[0] == t[0]);
        assert(u.drop_last().len() == 0);
        assert(dec_val(u.drop_last()) == 0);
        assert(dec_val(u) == digit_val(t[0]));
        assert(dec_val(t) == digit_val(t[0]) * 10 + digit_val(t[1]));
        let d0 = digit_val(t[0]);
        let d1 = digit_val(t[1]);
        assert(d0 >= 1) by {
            if d0 == 0 {
                assert(digit_of(0) == '0');
                assert(t[0] == '0');
            }
        }
        let v = dec_val(t) as u8;
        assert(10 <= dec_val(t) <= 99);
        assert(v as int / 10 == d0 && v as int % 10 == d1);
        assert(t =~= dec_repr(v));
    } else {
        lemma_digit_roundtrip(t[0]);
        lemma_digit_roundtrip(t[1]);
        lemma_digit_roundtrip(t[2]);
        let u = t.drop_last();
        let w = u.drop_last();
        assert(u.len() == 2 && u[0] == t[0] && u[1] == t[1]);
        assert(w.len() == 1 && w[0] == t[0]);
        assert(w.drop_last().len() == 0);
        assert(dec_val(w.drop_last()) == 0);
        assert(dec_val(w) == digit_val(t[0]));
        assert(dec_val(u) == digit_val(t[0]) * 10 + digit_val(t[1]));
        assert(dec_val(t) == (digit_val(t[0]) * 10 + digit_val(t[1])) * 10 + digit_val(t[2]));
        let d0 = digit_val(t[0]);
        let d1 = digit_val(t[1]);
        let d2 = digit_val(t[2]);
        assert(d0 >= 1) by {
            if d0 == 0 {
                assert(digit_of(0) == '0');
                assert(t[0] == '0');
            }
        }
        assert(dec_val(t) == d0 * 100 + d1 * 10 + d2);
        let v = dec_val(t) as u8;
        assert(100 <= dec_val(t) <= 255);
        assert(v as int / 100 == d0) by {
            assert(v as int == d0 * 100 + (d1 * 10 + d2));
            assert(0 <= d1 * 10 + d2 < 100);
        }
        assert(v as int / 10 % 10 == d1) by {
            assert(v as int == (d0 * 10 + d1) * 10 + d2);
            assert(v as int / 10 == d0 * 10 + d1);
        }
        assert(v as int % 10 == d2);
        assert(t =~= dec_repr(v));
    }
}

/// Position just past the first octet spelling in the canonical text.
pub open spec fn dot1(h: Ipv4Host) -> int {
    dec_repr(h.a).len() as int
}

/// Position of the second dot in the canonical text.
pub open spec fn dot2(h: Ipv4Host) -> int {
    dot1(h) + 1 + dec_repr(h.b).len()
}

/// Position of the third dot in the canonical text.
pub open spec fn dot3(h: Ipv4Host) -> int {
    dot2(h) + 1 + dec_repr(h.c).len()
}

/// A canonical address text splits into four octet spellings with a dot
/// after each of the first three.
pub proof fn lemma_ipv4_seq_structure(s: Seq<char>, h: Ipv4Host)
    requires
        s == ipv4_seq(h),
    ensures
        0 < dot1(h) < dot2(h) < dot3(h) < s.len(),
        s.len() == dot3(h) + 1 + dec_repr(h.d).len(),
        s.subrange(0, dot1(h)) == dec_repr(h.a),
        s[dot1(h)] == '.',
        s.subrange(dot1(h) + 1, dot2(h)) == dec_repr(h.b),
        s[dot2(h)] == '.',
        s.subrange(dot2(h) + 1, dot3(h)) == dec_repr(h.c),
        s[dot3(h)] == '.',
        s.subrange(dot3(h) + 1, s.len() as int) == dec_repr(h.d),
{
    lemma_dec_repr_wf(h.a);
    lemma_dec_repr_wf(h.b);
    lemma_dec_repr_wf(h.c);
    lemma_dec_repr_wf(h.d);
    let ra = dec_repr(h.a);
    let rb = dec_repr(h.b);
    let rc = dec_repr(h.c);
    let rd = dec_repr(h.d);
    let dot = seq!['.'];
    assert(s == ra + dot + rb + dot + rc + dot + rd);
    assert(s.len() == ra.len() + 1 + rb.len() + 1 + rc.len() + 1 + rd.len());
    assert(s.subrange(0, dot1(h)) =~= ra);
    assert(s[dot1(h)] == '.');
    assert(s.subrange(dot1(h) + 1, dot2(h)) =~= rb);
    assert(s[dot2(h)] == '.');
    assert(s.subrange(dot2(h) + 1, dot3(h)) =~= rc);
    assert(s[dot3(h)] == '.');
    assert(s.subrange(dot3(h) + 1, s.len() as int) =~= rd);
}

/// The converse: a text that splits into four octet spellings separated by
/// dots is the canonical text of that host.
pub proof fn lemma_ipv4_seq_compose(s: Seq<char>, h: Ipv4Host, p1: int, p2: int, p3: int)
    requires
        0 < p1 < p2 < p3 < s.len(),
        s.subrange(0, p1) == dec_repr(h.a),
        s[p1] == '.',
        s.subrange(p1 + 1, p2) == dec_repr(h.b),
        s[p2] == '.',
        s.subrange(p2 + 1, p3) == dec_repr(h.c),
        s[p3] == '.',
        s.subrange(p3 + 1, s.len() as int) == dec_repr(h.d),
    ensures
        s == ipv4_seq(h),
{
    assert(dec_repr(h.a).len() == p1);
    assert(dec_repr(h.b).len() == p2 - p1 - 1);
    assert(dec_repr(h.c).len() == p3 - p2 - 1);
    assert(dec_repr(h.d).len() == s.len() - p3 - 1);
    assert forall|i: int| 0 <= i < s.len() implies s[i] == #[trigger] ipv4_seq(h)[i] by {
        if i < p1 {
            assert(s.subrange(0, p1)[i] == s[i]);
        } else if i == p1 {
        } else if i < p2 {
            assert(s.subrange(p1 + 1, p2)[i - p1 - 1] == s[i]);
        } else if i == p2 {
        } else if i < p3 {
            assert(s.subrange(p2 + 1, p3)[i - p2 - 1] == s[i]);
        } else if i == p3 {
        } else {
            assert(s.subrange(p3 + 1, s.len() as int)[i - p3 - 1] == s[i]);
        }
    }
    assert(s =~= ipv4_seq(h));
}

/// Does the text continue with a canonical octet spelling at `end`?  Used to
/// state when reading an octet must succeed: the spelling must be followed by
/// a non-digit or by the end of the text.
pub open spec fn octet_reading(s: Seq<char>, start: int, v: u8, end: int) -> bool {
    &&& start < end <= s.len()
    &&& s.subrange(start, end) == dec_repr(v)
    &&& (end == s.len() || !is_dec_digit(s[end]))
}

/// Decimal digit test on a character.
fn is_digit_char(c: char) -> (r: bool)
    ensures
        r == is_dec_digit(c),
{
    let u = c as u32;
    48 <= u && u <= 57
}

/// Read one octet of a dotted-decimal address, starting at `start`.
///
/// On success the returned value and end position are the unique canonical
/// reading there; on failure no canonical reading exists at `start`.
fn parse_octet(s: &str, start: usize, n: usize) -> (r: Option<(u8, usize)>)
    requires
        n == s@.len(),
        start <= n,
    ensures
        match r {
            Some(p) => octet_reading(s@, start as int, p.0, p.1 as int),
            None => forall|v: u8, end: int| !octet_reading(s@, start as int, v, end),
        },
{
    let mut end: usize = start;
    let mut val: u32 = 0;
    while end < n && end - start < 4 && is_digit_char(s.get_char(end))
        invariant
            n == s@.len(),
            start <= end <= n,
            end - start <= 4,
            forall|k: int| start <= k < end ==> is_dec_digit(#[trigger] s@[k]),
            val == dec_val(s@.subrange(start as int, end as int)),
            end - start == 0 ==> val == 0,
            end - start == 1 ==> val <= 9,
            end - start == 2 ==> val <= 99,
            end - start == 3 ==> val <= 999,
            end - start == 4 ==> val <= 9999,
        decreases n - end,
    {
        proof {
            let t = s@.subrange(start as int, end as int + 1);
            assert(t.drop_last() =~= s@.subrange(start as int, end as int));
            assert(t.last() == s@[end as int]);
        }
        let d = s.get_char(end) as u32 - 48;
        val = val * 10 + d;
        end = end + 1;
    }
    // The run of digits beginning at `start` is s[start..end], capped at four.
    if end == start {
        // No digit at all: an octet spelling cannot begin here.
        proof {
            assert forall|v: u8, end2: int| !octet_reading(s@, start as int, v, end2) by {
                if octet_reading(s@, start as int, v, end2) {
                    lemma_dec_repr_wf(v);
                    assert(s@[start as int] == s@.subrange(start as int, end2)[0]);
                    assert(is_dec_digit(dec_repr(v)[0]));
                }
            }
        }
        return None;
    }
    if end - start == 4 {
        // Four digits in a row: longer than any canonical octet spelling.
        proof {
            assert forall|v: u8, end2: int| !octet_reading(s@, start as int, v, end2) by {
                if octet_reading(s@, start as int, v, end2) {
                    lemma_dec_repr_wf(v);
                    assert(end2 - start <= 3);
                    assert(end2 < end);
                    assert(is_dec_digit(s@[end2]));
                }
            }
        }
        return None;
    }
    proof {
        // The run ended on a non-digit or at the end of the text, so any
        // canonical reading must end exactly at `end`.
        assert(end == n || !is_dec_digit(s@[end as int]));
        assert forall|v: u8, end2: int|
            octet_reading(s@, start as int, v, end2) implies end2 == end as int && s@.subrange(
            start as int,
            end as int,
        ) == dec_repr(v) by {
            lemma_candidate_at_run_end(s@, start as int, end as int, v, end2);
        }
    }
    let run_ghost = Ghost(s@.subrange(start as int, end as int));
    if end - start > 1 && s.get_char(start) as u32 == 48 {
        // A leading zero is not canonical.
        proof {
            assert forall|v: u8, end2: int| !octet_reading(s@, start as int, v, end2) by {
                if octet_reading(s@, start as int, v, end2) {
                    lemma_dec_repr_wf(v);
                    assert(dec_repr(v) == run_ghost@);
                    assert(dec_repr(v)[0] == s@[start as int]);
                    assert(digit_of(0) == '0');
                    assert(dec_repr(v)[0] != '0');
                    assert(s@[start as int] as u32 == 48);
                }
            }
        }
        return None;
    }
    if val > 255 {
        // The digits denote more than an octet holds.
        proof {
            assert forall|v: u8, end2: int| !octet_reading(s@, start as int, v, end2) by {
                if octet_reading(s@, start as int, v, end2) {
                    lemma_dec_repr_wf(v);
                    assert(dec_repr(v) == run_ghost@);
                    assert(dec_val(run_ghost@) == v);
                }
            }
        }
        return None;
    }
    proof {
        assert(run_ghost@[0] == s@[start as int]);
        lemma_digit_seq_canonical(run_ghost@);
    }
    Some((val as u8, end))
}

// The lemmas below drive the completeness half of `parse_ipv4`: at each point
// where the scan gives up, the text cannot be the canonical spelling of any
// host, because the octet readings made so far are forced (`lemma_octet_unique`)
// and the canonical text would let the scan take one more step.
proof fn lemma_fail_octet1(s: Seq<char>)
    requires
        forall|v: u8, end: int| !octet_reading(s, 0, v, end),
    ensures
        !is_ipv4_text(s),
{
    assert forall|h: Ipv4Host| s != ipv4_seq(h) by {
        if s == ipv4_seq(h) {
            lemma_ipv4_seq_structure(s, h);
            assert(octet_reading(s, 0, h.a, dot1(h)));
        }
    }
}

proof fn lemma_fail_dot1(s: Seq<char>, a: u8, i1: int)
    requires
        octet_reading(s, 0, a, i1),
        i1 == s.len() || s[i1] != '.',
    ensures
        !is_ipv4_text(s),
{
    assert forall|h: Ipv4Host| s != ipv4_seq(h) by {
        if s == ipv4_seq(h) {
            lemma_ipv4_seq_structure(s, h);
            assert(octet_reading(s, 0, h.a, dot1(h)));
            lemma_octet_unique(s, 0, a, i1, h.a, dot1(h));
        }
    }
}

proof fn lemma_fail_octet2(s: Seq<char>, a: u8, i1: int, j1: int)
    requires
        octet_reading(s, 0, a, i1),
        i1 < s.len() && s[i1] == '.',
        j1 == i1 + 1,
        forall|v: u8, end: int| !octet_reading(s, j1, v, end),
    ensures
        !is_ipv4_text(s),
{
    assert forall|h: Ipv4Host| s != ipv4_seq(h) by {
        if s == ipv4_seq(h) {
            lemma_ipv4_seq_structure(s, h);
            assert(octet_reading(s, 0, h.a, dot1(h)));
            lemma_octet_unique(s, 0, a, i1, h.a, dot1(h));
            assert(octet_reading(s, dot1(h) + 1, h.b, dot2(h)));
        }
    }
}

proof fn lemma_fail_dot2(s: Seq<char>, a: u8, i1: int, b: u8, i2: int)
    requires
        octet_reading(s, 0, a, i1),
        i1 < s.len() && s[i1] == '.',
        octet_reading(s, i1 + 1, b, i2),
        i2 == s.len() || s[i2] != '.',
    ensures
        !is_ipv4_text(s),
{
    assert forall|h: Ipv4Host| s != ipv4_seq(h) by {
        if s == ipv4_seq(h) {
            lemma_ipv4_seq_structure(s, h);
            assert(octet_reading(s, 0, h.a, dot1(h)));
            lemma_octet_unique(s, 0, a, i1, h.a, dot1(h));
            assert(octet_reading(s, dot1(h) + 1, h.b, dot2(h)));
            lemma_octet_unique(s, i1 + 1, b, i2, h.b, dot2(h));
        }
    }
}

proof fn lemma_fail_octet3(s: Seq<char>, a: u8, i1: int, b: u8, i2: int, j2: int)
    requires
        octet_reading(s, 0, a, i1),
        i1 < s.len() && s[i1] == '.',
        octet_reading(s, i1 + 1, b, i2),
        i2 < s.len() && s[i2] == '.',
        j2 == i2 + 1,
        forall|v: u8, end: int| !octet_reading(s, j2, v, end),
    ensures
        !is_ipv4_text(s),
{
    assert forall|h: Ipv4Host| s != ipv4_seq(h) by {
        if s == ipv4_seq(h) {
            lemma_ipv4_seq_structure(s, h);
            assert(octet_reading(s, 0, h.a, dot1(h)));
            lemma_octet_unique(s, 0, a, i1, h.a, dot1(h));
            assert(octet_reading(s, dot1(h) + 1, h.b, dot2(h)));
            lemma_octet_unique(s, i1 + 1, b, i2, h.b, dot2(h));
            assert(octet_reading(s, dot2(h) + 1, h.c, dot3(h)));
        }
    }
}

proof fn lemma_fail_dot3(s: Seq<char>, a: u8, i1: int, b: u8, i2: int, c: u8, i3: int)
    requires
        octet_reading(s, 0, a, i1),
        i1 < s.len() && s[i1] == '.',
        octet_reading(s, i1 + 1, b, i2),
        i2 < s.len() && s[i2] == '.',
        octet_reading(s, i2 + 1, c, i3),
        i3 == s.len() || s[i3] != '.',
    ensures
        !is_ipv4_text(s),
{
    assert forall|h: Ipv4Host| s != ipv4_seq(h) by {
        if s == ipv4_seq(h) {
            lemma_ipv4_seq_structure(s, h);
            assert(octet_reading(s, 0, h.a, dot1(h)));
            lemma_octet_unique(s, 0, a, i1, h.a, dot1(h));
            assert(octet_reading(s, dot1(h) + 1, h.b, dot2(h)));
            lemma_octet_unique(s, i1 + 1, b, i2, h.b, dot2(h));
            assert(octet_reading(s, dot2(h) + 1, h.c, dot3(h)));
            lemma_octet_unique(s, i2 + 1, c, i3, h.c, dot3(h));
        }
    }
}

proof fn lemma_fail_octet4(s: Seq<char>, a: u8, i1: int, b: u8, i2: int, c: u8, i3: int, j3: int)
    requires
        octet_reading(s, 0, a, i1),
        i1 < s.len() && s[i1] == '.',
        octet_reading(s, i1 + 1, b, i2),
        i2 < s.len() && s[i2] == '.',
        octet_reading(s, i2 + 1, c, i3),
        i3 < s.len() && s[i3] == '.',
        j3 == i3 + 1,
        forall|v: u8, end: int| !octet_reading(s, j3, v, end),
    ensures
        !is_ipv4_text(s),
{
    assert forall|h: Ipv4Host| s != ipv4_seq(h) by {
        if s == ipv4_seq(h) {
            lemma_ipv4_seq_structure(s, h);
            assert(octet_reading(s, 0, h.a, dot1(h)));
            lemma_octet_unique(s, 0, a, i1, h.a, dot1(h));
            assert(octet_reading(s, dot1(h) + 1, h.b, dot2(h)));
            lemma_octet_unique(s, i1 + 1, b, i2, h.b, dot2(h));
            assert(octet_reading(s, dot2(h) + 1, h.c, dot3(h)));
            lemma_octet_unique(s, i2 + 1, c, i3, h.c, dot3(h));
            assert(octet_reading(s, dot3(h) + 1, h.d, s.len() as int));
        }
    }
}

proof fn lemma_fail_tail(s: Seq<char>, a: u8, i1: int, b: u8, i2: int, c: u8, i3: int, d: u8, i4: int)
    requires
        octet_reading(s, 0, a, i1),
        i1 < s.len() && s[i1] == '.',
        octet_reading(s, i1 + 1, b, i2),
        i2 < s.len() && s[i2] == '.',
        octet_reading(s, i2 + 1, c, i3),
        i3 < s.len() && s[i3] == '.',
        octet_reading(s, i3 + 1, d, i4),
        i4 != s.len(),
    ensures
        !is_ipv4_text(s),
{
    assert forall|h: Ipv4Host| s != ipv4_seq(h) by {
        if s == ipv4_seq(h) {
            lemma_ipv4_seq_structure(s, h);
            assert(octet_reading(s, 0, h.a, dot1(h)));
            lemma_octet_unique(s, 0, a, i1, h.a, dot1(h));
            assert(octet_reading(s, dot1(h) + 1, h.b, dot2(h)));
            lemma_octet_unique(s, i1 + 1, b, i2, h.b, dot2(h));
            assert(octet_reading(s, dot2(h) + 1, h.c, dot3(h)));
            lemma_octet_unique(s, i2 + 1, c, i3, h.c, dot3(h));
            assert(octet_reading(s, dot3(h) + 1, h.d, s.len() as int));
            lemma_octet_unique(s, i3 + 1, d, i4, h.d, s.len() as int);
        }
    }
}

/// Parse a dotted-decimal IPv4 address.
///
/// Returns the host exactly when the whole text is its canonical spelling;
/// otherwise there is no host whose spelling the text is.
pub fn parse_ipv4(s: &str) -> (r: Option<Ipv4Host>)
    ensures
        match r {
            Some(h) => s@ == ipv4_seq(h) && h == ipv4_of_text(s@),
            None => !is_ipv4_text(s@),
        },
{
    let n = s.unicode_len();
    let (a, i1) = match parse_octet(s, 0, n) {
        Some(p) => p,
        None => {
            proof {
                lemma_fail_octet1(s@);
            }
            return None;
        },
    };
    if i1 == n || s.get_char(i1) as u32 != 46 {
        proof {
            lemma_fail_dot1(s@, a, i1 as int);
        }
        return None;
    }
    let (b, i2) = match parse_octet(s, i1 + 1, n) {
        Some(p) => p,
        None => {
            proof {
                lemma_fail_octet2(s@, a, i1 as int, i1 as int + 1);
            }
            return None;
        },
    };
    if i2 == n || s.get_char(i2) as u32 != 46 {
        proof {
            lemma_fail_dot2(s@, a, i1 as int, b, i2 as int);
        }
        return None;
    }
    let (c, i3) = match parse_octet(s, i2 + 1, n) {
        Some(p) => p,
        None => {
            proof {
                lemma_fail_octet3(s@, a, i1 as int, b, i2 as int, i2 as int + 1);
            }
            return None;
        },
    };
    if i3 == n || s.get_char(i3) as u32 != 46 {
        proof {
            lemma_fail_dot3(s@, a, i1 as int, b, i2 as int, c, i3 as int);
        }
        return None;
    }
    let (d, i4) = match parse_octet(s, i3 + 1, n) {
        Some(p) => p,
        None => {
            proof {
                lemma_fail_octet4(s@, a, i1 as int, b, i2 as int, c, i3 as int, i3 as int + 1);
            }
            return None;
        },
    };
    if i4 != n {
        proof {
            lemma_fail_tail(s@, a, i1 as int, b, i2 as int, c, i3 as int, d, i4 as int);
        }
        return None;
    }
    let h = Ipv4Host { a, b, c, d };
    proof {
        lemma_ipv4_seq_compose(s@, h, i1 as int, i2 as int, i3 as int);
        lemma_text_host(s@, h);
    }
    Some(h)
}

/// Two hosts with the same canonical text are the same host.
pub proof fn lemma_ipv4_seq_injective(h1: Ipv4Host, h2: Ipv4Host)
    requires
        ipv4_seq(h1) == ipv4_seq(h2),
    ensures
        h1 == h2,
{
    let s = ipv4_seq(h1);
    lemma_ipv4_seq_structure(s, h1);
    lemma_ipv4_seq_structure(s, h2);
    lemma_octet_unique(s, 0, h1.a, dot1(h1), h2.a, dot1(h2));
    lemma_octet_unique(s, dot1(h1) + 1, h1.b, dot2(h1), h2.b, dot2(h2));
    lemma_octet_unique(s, dot2(h1) + 1, h1.c, dot3(h1), h2.c, dot3(h2));
    lemma_octet_unique(s, dot3(h1) + 1, h1.d, s.len() as int, h2.d, s.len() as int);
    assert(dec_repr(h1.d) == dec_repr(h2.d));
    assert(dec_val(dec_repr(h1.d)) == dec_val(dec_repr(h2.d)));
    lemma_dec_repr_wf(h1.d);
    lemma_dec_repr_wf(h2.d);
}

/// The host a well-formed address text denotes.
pub open spec fn ipv4_of_text(s: Seq<char>) -> Ipv4Host {
    choose|h: Ipv4Host| s == ipv4_seq(h)
}

/// A canonical text is well formed and denotes exactly its host.
pub proof fn lemma_text_host(s: Seq<char>, h: Ipv4Host)
    requires
        s == ipv4_seq(h),
    ensures
        is_ipv4_text(s),
        ipv4_of_text(s) == h,
{
    assert(is_ipv4_text(s));
    let h2 = choose|h2: Ipv4Host| s == ipv4_seq(h2);
    lemma_ipv4_seq_injective(h, h2);
}

/// Is the text a well-formed dotted-decimal IPv4 address?
pub fn is_valid_ipv4(ip: &str) -> (r: bool)
    ensures
        r == is_ipv4_text(ip@),
{
    let p = parse_ipv4(ip);
    proof {
        if p is Some {
            assert(is_ipv4_text(ip@));
        }
    }
    p.is_some()
}

} // verus!
