//! The port-list grammar.
//!
//! A port query is comma-separated tokens, each either a bare port number
//! or an inclusive `start-end` range (whitespace allowed around the dash).
//! The result is the deduplicated union of every token's ports, ascending.
//! A token of neither form, or a number past 65535, aborts the whole parse:
//! there are no partial results.

use vstd::prelude::*;
use vstd::string::StrSliceExecFns;
use vstd::utf8::encode_utf8;
use crate::error::FindiError;
use crate::text::spec_is_space;

verus! {

/// TCP port the liveness fallback probes.
pub const TCP_PING_PORT: u16 = 80;

/// An ASCII decimal digit.
pub open spec fn spec_is_digit(b: u8) -> bool {
    0x30 <= b <= 0x39
}

/// Length of the leading run of decimal digits.
pub open spec fn spec_digits_len(s: Seq<u8>) -> int
    decreases s.len(),
{
    if s.len() == 0 || !spec_is_digit(s[0]) {
        0
    } else {
        1 + spec_digits_len(s.drop_first())
    }
}

/// Length of the leading run of whitespace.
pub open spec fn spec_ws_len(s: Seq<u8>) -> int
    decreases s.len(),
{
    if s.len() == 0 || !spec_is_space(s[0]) {
        0
    } else {
        1 + spec_ws_len(s.drop_first())
    }
}

/// Position of the first comma, or the whole length.
pub open spec fn spec_comma_len(s: Seq<u8>) -> int
    decreases s.len(),
{
    if s.len() == 0 || s[0] == 0x2c {
        0
    } else {
        1 + spec_comma_len(s.drop_first())
    }
}

/// The number a digit string spells.
pub open spec fn spec_digits_val(s: Seq<u8>) -> int
    decreases s.len(),
{
    if s.len() == 0 {
        0
    } else {
        spec_digits_val(s.drop_last()) * 10 + (s.last() - 0x30)
    }
}

/// An index that sees only digits before it and a non-digit (or the end) at
/// it is the digit-run length.
pub proof fn lemma_digits_len_unique(s: Seq<u8>, i: int)
    requires
        0 <= i <= s.len(),
        forall|j: int| 0 <= j < i ==> spec_is_digit(#[trigger] s[j]),
        i < s.len() ==> !spec_is_digit(s[i]),
    ensures
        spec_digits_len(s) == i,
    decreases s.len(),
{
    if s.len() != 0 && spec_is_digit(s[0]) {
        assert forall|j: int| 0 <= j < i - 1 implies spec_is_digit(
            #[trigger] s.drop_first()[j],
        ) by {
            assert(spec_is_digit(s[j + 1]));
        }
        lemma_digits_len_unique(s.drop_first(), i - 1);
    }
}

/// Likewise for the whitespace run.
pub proof fn lemma_ws_len_unique(s: Seq<u8>, i: int)
    requires
        0 <= i <= s.len(),
        forall|j: int| 0 <= j < i ==> spec_is_space(#[trigger] s[j]),
        i < s.len() ==> !spec_is_space(s[i]),
    ensures
        spec_ws_len(s) == i,
    decreases s.len(),
{
    if s.len() != 0 && spec_is_space(s[0]) {
        assert forall|j: int| 0 <= j < i - 1 implies spec_is_space(
            #[trigger] s.drop_first()[j],
        ) by {
            assert(spec_is_space(s[j + 1]));
        }
        lemma_ws_len_unique(s.drop_first(), i - 1);
    }
}

/// Likewise for the comma position.
pub proof fn lemma_comma_len_unique(s: Seq<u8>, i: int)
    requires
        0 <= i <= s.len(),
        forall|j: int| 0 <= j < i ==> #[trigger] s[j] != 0x2c,
        i < s.len() ==> s[i] == 0x2c,
    ensures
        spec_comma_len(s) == i,
    decreases s.len(),
{
    if s.len() != 0 && s[0] != 0x2c {
        assert forall|j: int| 0 <= j < i - 1 implies #[trigger] s.drop_first()[j] != 0x2c by {
            assert(s[j + 1] != 0x2c);
        }
        lemma_comma_len_unique(s.drop_first(), i - 1);
    }
}

/// The ports one token names: a singleton for a bare number, the inclusive
/// range for `start-end` (empty when start exceeds end), nothing for any
/// other shape or for a number past 65535.
pub open spec fn spec_token_ports(t: Seq<u8>) -> Option<Set<u16>> {
    let d1 = spec_digits_len(t);
    if d1 == 0 {
        None
    } else {
        let v1 = spec_digits_val(t.take(d1));
        if d1 == t.len() {
            if v1 <= 65535 {
                Some(Set::empty().insert(v1 as u16))
            } else {
                None
            }
        } else {
            let r1 = t.skip(d1);
            let w1 = spec_ws_len(r1);
            if w1 < r1.len() && r1[w1] == 0x2d {
                let r2 = r1.skip(w1 + 1);
                let w2 = spec_ws_len(r2);
                let r3 = r2.skip(w2);
                let d2 = spec_digits_len(r3);
                if d2 == r3.len() && d2 > 0 {
                    let v2 = spec_digits_val(r3);
                    if v1 <= 65535 && v2 <= 65535 {
                        Some(Set::new(|p: u16| v1 <= p <= v2))
                    } else {
                        None
                    }
                } else {
                    None
                }
            } else {
                None
            }
        }
    }
}

/// The ports a whole comma-separated list names, or nothing when any token
/// is rejected.
pub open spec fn spec_portlist(s: Seq<u8>) -> Option<Set<u16>>
    decreases s.len(),
{
    let k = spec_comma_len(s);
    if k < 0 || k > s.len() {
        None
    } else {
        match spec_token_ports(s.take(k)) {
            None => None,
            Some(ps) => if k == s.len() {
                Some(ps)
            } else {
                match spec_portlist(s.skip(k + 1)) {
                    None => None,
                    Some(rest) => Some(ps.union(rest)),
                }
            },
        }
    }
}

/// The fixed table of commonly probed TCP ports.
pub open spec fn spec_common_ports() -> Seq<u16> {
    seq![
        21u16,
        22u16,
        23u16,
        25u16,
        53u16,
        80u16,
        110u16,
        139u16,
        143u16,
        443u16,
        445u16,
        993u16,
        995u16,
        1723u16,
        3306u16,
        3389u16,
        5900u16,
        8080u16,
    ]
}

/// The commonly probed TCP ports, for the fixed "common ports" scan.
pub fn common_ports() -> (r: Vec<u16>)
    ensures
        r@ == spec_common_ports(),
{
    let mut v: Vec<u16> = Vec::new();
    v.push(21);
    v.push(22);
    v.push(23);
    v.push(25);
    v.push(53);
    v.push(80);
    v.push(110);
    v.push(139);
    v.push(143);
    v.push(443);
    v.push(445);
    v.push(993);
    v.push(995);
    v.push(1723);
    v.push(3306);
    v.push(3389);
    v.push(5900);
    v.push(8080);
    proof {
        assert(v@ =~= spec_common_ports());
    }
    v
}

/// Strictly ascending: sorted with no duplicates.
pub open spec fn spec_ascending(v: Seq<u16>) -> bool {
    forall|i: int, j: int| 0 <= i < j < v.len() ==> v[i] < v[j]
}

/// Insert a port into an ascending list, keeping it ascending and adding
/// nothing else.
pub fn insert_port(v: &mut Vec<u16>, p: u16)
    requires
        spec_ascending(old(v)@),
    ensures
        spec_ascending(final(v)@),
        forall|q: u16| final(v)@.contains(q) <==> (old(v)@.contains(q) || q == p),
{
    let mut i: usize = 0;
    while i < v.len() && v[i] < p
        invariant
            i <= v@.len(),
            spec_ascending(v@),
            v@ == old(v)@,
            forall|j: int| 0 <= j < i ==> v@[j] < p,
        decreases v@.len() - i,
    {
        i = i + 1;
    }
    if i < v.len() && v[i] == p {
        proof {
            assert(v@.contains(p));
        }
    } else {
        let ghost pre = v@;
        v.insert(i, p);
        proof {
            assert(v@ == pre.insert(i as int, p));
            assert forall|a: int, b: int| 0 <= a < b < v@.len() implies v@[a] < v@[b] by {
                if a < i && b > i {
                    assert(v@[a] == pre[a] && v@[b] == pre[b - 1]);
                } else if a == i && b > i {
                    assert(v@[b] == pre[b - 1]);
                    assert(pre[b - 1] >= pre[i as int] || b - 1 == i);
                    if i < pre.len() {
                        assert(pre[i as int] != p);
                        assert(pre[i as int] > p || pre[i as int] < p);
                    }
                } else if a < i && b == i {
                    assert(v@[a] == pre[a]);
                }
            }
            assert forall|q: u16| v@.contains(q) <==> (pre.contains(q) || q == p) by {
                if v@.contains(q) {
                    let w = choose|w: int| 0 <= w < v@.len() && v@[w] == q;
                    if w < i {
                        assert(pre[w] == q);
                    } else if w > i {
                        assert(pre[w - 1] == q);
                    }
                }
                if pre.contains(q) {
                    let w = choose|w: int| 0 <= w < pre.len() && pre[w] == q;
                    if w < i {
                        assert(v@[w] == q);
                    } else {
                        assert(v@[w + 1] == q);
                    }
                }
                if q == p {
                    assert(v@[i as int] == q);
                }
            }
        }
    }
}

/// Parse a comma-separated port list into its deduplicated union, in
/// ascending order. Any token that is neither a bare port nor an inclusive
/// range aborts the whole parse.
pub fn parse_portlist(plist_str: &str) -> (r: Result<Vec<u16>, FindiError>)
    ensures
        match r {
            Ok(v) => spec_portlist(encode_utf8(plist_str@)) matches Some(ps) && spec_ascending(
                v@,
            ) && forall|p: u16| v@.contains(p) <==> ps.contains(p),
            Err(e) => e == FindiError::ParseError && spec_portlist(
                encode_utf8(plist_str@),
            ) is None,
        },
{
    let bytes = plist_str.as_bytes_vec();
    let n = bytes.len();
    let mut out: Vec<u16> = Vec::new();
    let mut pos: usize = 0;
    let ghost mut acc: Set<u16> = Set::empty();
    proof {
        assert(bytes@.skip(0) =~= bytes@);
        match spec_portlist(bytes@) {
            Some(ps) => {
                assert(ps.union(Set::empty()) =~= ps);
            },
            None => {},
        }
    }
    loop
        invariant_except_break
            forall|p: u16| out@.contains(p) <==> acc.contains(p),
            match spec_portlist(bytes@.skip(pos as int)) {
                Some(ps) => spec_portlist(bytes@) == Some(ps.union(acc)),
                None => spec_portlist(bytes@) is None,
            },
        invariant
            pos <= n,
            n == bytes@.len(),
            bytes@ == encode_utf8(plist_str@),
            spec_ascending(out@),
        ensures
            ({
                &&& spec_portlist(bytes@) matches Some(ps)
                &&& forall|p: u16| out@.contains(p) <==> ps.contains(p)
                &&& spec_ascending(out@)
            }),
        decreases n - pos + 1,
    {
        let ghost acc0 = acc;
        let ghost tok_start = pos as int;
        let ghost s = bytes@.skip(tok_start);
        // Find the end of this token.
        let mut e: usize = pos;
        while e < n && bytes[e] != 0x2c
            invariant
                pos <= e <= n,
                n == bytes@.len(),
                forall|j: int| pos <= j < e ==> bytes@[j] != 0x2c,
            decreases n - e,
        {
            e = e + 1;
        }
        proof {
            assert forall|j: int| 0 <= j < e - tok_start implies #[trigger] s[j] != 0x2c by {
                assert(s[j] == bytes@[tok_start + j]);
            }
            if e < n {
                assert(s[e - tok_start] == 0x2c);
            }
            lemma_comma_len_unique(s, e - tok_start);
        }
        let ghost tok = s.take(e - tok_start);
        // Parse the token in place: digits, then optionally ws '-' ws digits.
        match parse_token(&bytes, pos, e) {
            None => {
                proof {
                    assert(spec_token_ports(tok) is None);
                    assert(spec_portlist(s) is None);
                }
                return Err(FindiError::ParseError);
            },
            Some((lo, hi)) => {
                proof {
                    assert(spec_token_ports(tok) == Some(Set::new(|p: u16| lo <= p <= hi)));
                }
                let mut p: u32 = lo as u32;
                while p <= hi as u32
                    invariant
                        lo as u32 <= p <= 0x10000,
                        p <= hi as u32 + 1 || p == lo as u32,
                        spec_ascending(out@),
                        forall|q: u16|
                            out@.contains(q) <==> (acc.contains(q) || (lo <= q && (q as u32)
                                < p)),
                    decreases hi as u32 + 1 - p,
                {
                    insert_port(&mut out, p as u16);
                    p = p + 1;
                }
                proof {
                    acc = acc.union(Set::new(|q: u16| lo <= q <= hi));
                    assert(p == hi as u32 + 1 || (lo > hi && p == lo as u32));
                    assert forall|q: u16| out@.contains(q) <==> acc.contains(q) by {
                        assert(acc.contains(q) <==> (acc0.contains(q) || (lo <= q <= hi)));
                    }
                }
            },
        }
        proof {
            let tokp = spec_token_ports(tok).unwrap();
            if e == n as usize {
                assert(tok =~= s);
                assert(spec_portlist(s) == Some(tokp));
                assert(tokp.union(acc0) =~= acc);
            } else {
                assert(bytes@.skip(tok_start + (e - tok_start) + 1) =~= s.skip(
                    (e - tok_start) + 1,
                ));
                match spec_portlist(s.skip((e - tok_start) + 1)) {
                    Some(rest) => {
                        assert(spec_portlist(s) == Some(tokp.union(rest)));
                        assert(tokp.union(rest).union(acc0) =~= rest.union(acc));
                    },
                    None => {
                        assert(spec_portlist(s) is None);
                    },
                }
            }
        }
        if e == n {
            break;
        }
        pos = e + 1;
    }
    Ok(out)
}

/// Parse one token `bytes[from..to]` as a bare port or an inclusive range:
/// `(p, p)` for a bare port, `(lo, hi)` for a range, nothing otherwise.
fn parse_token(bytes: &Vec<u8>, from: usize, to: usize) -> (r: Option<(u16, u16)>)
    requires
        from <= to <= bytes@.len(),
    ensures
        match r {
            Some((lo, hi)) => spec_token_ports(bytes@.skip(from as int).take(to - from)) == Some(
                Set::new(|p: u16| lo <= p <= hi),
            ),
            None => spec_token_ports(bytes@.skip(from as int).take(to - from)) is None,
        },
{
    let ghost t = bytes@.skip(from as int).take(to - from);
    let (d1_end, v1) = scan_number(bytes, from, to);
    proof {
        assert forall|j: int| 0 <= j < d1_end - from implies spec_is_digit(#[trigger] t[j]) by {
            assert(t[j] == bytes@[from + j]);
        }
        if d1_end < to {
            assert(t[d1_end - from] == bytes@[d1_end as int]);
        }
        lemma_digits_len_unique(t, d1_end - from);
        assert(t.take(d1_end - from) =~= bytes@.subrange(from as int, d1_end as int));
    }
    if d1_end == from {
        return None;
    }
    proof {
        lemma_scan_value(bytes@, from as int, d1_end as int, t.take(d1_end - from));
    }
    if d1_end == to {
        if v1 <= 65535 {
            proof {
                assert(Set::empty().insert(v1 as u16) =~= Set::new(
                    |p: u16| v1 as u16 <= p <= v1 as u16,
                ));
            }
            return Some((v1 as u16, v1 as u16));
        } else {
            return None;
        }
    }
    let ghost r1 = t.skip(d1_end - from);
    let mut w: usize = d1_end;
    while w < to && is_space_byte(bytes[w])
        invariant
            d1_end <= w <= to <= bytes@.len(),
            forall|j: int| d1_end <= j < w ==> spec_is_space(#[trigger] bytes@[j]),
        decreases to - w,
    {
        w = w + 1;
    }
    proof {
        assert forall|j: int| 0 <= j < w - d1_end implies spec_is_space(#[trigger] r1[j]) by {
            assert(r1[j] == bytes@[d1_end + j]);
        }
        if w < to {
            assert(r1[w - d1_end] == bytes@[w as int]);
        }
        lemma_ws_len_unique(r1, w - d1_end);
    }
    if w == to {
        return None;
    }
    if bytes[w] != 0x2d {
        return None;
    }
    let ghost r2 = r1.skip((w - d1_end) + 1);
    let mut w2: usize = w + 1;
    while w2 < to && is_space_byte(bytes[w2])
        invariant
            w + 1 <= w2 <= to <= bytes@.len(),
            forall|j: int| w + 1 <= j < w2 ==> spec_is_space(#[trigger] bytes@[j]),
        decreases to - w2,
    {
        w2 = w2 + 1;
    }
    proof {
        assert(r2 =~= bytes@.skip(w as int + 1).take(to - (w + 1)));
        assert forall|j: int| 0 <= j < w2 - (w + 1) implies spec_is_space(#[trigger] r2[j]) by {
            assert(r2[j] == bytes@[w + 1 + j]);
        }
        if w2 < to {
            assert(r2[w2 - (w + 1)] == bytes@[w2 as int]);
        }
        lemma_ws_len_unique(r2, w2 - (w + 1));
    }
    let ghost r3 = r2.skip(w2 - (w + 1));
    let (d2_end, v2) = scan_number(bytes, w2, to);
    proof {
        assert(r3 =~= bytes@.subrange(w2 as int, to as int));
        assert forall|j: int| 0 <= j < d2_end - w2 implies spec_is_digit(#[trigger] r3[j]) by {
            assert(r3[j] == bytes@[w2 + j]);
        }
        if d2_end < to {
            assert(r3[d2_end - w2] == bytes@[d2_end as int]);
        }
        lemma_digits_len_unique(r3, d2_end - w2);
    }
    if d2_end != to || d2_end == w2 {
        return None;
    }
    proof {
        lemma_scan_value(bytes@, w2 as int, d2_end as int, r3);
        assert(r3 =~= r3.take(r3.len() as int));
    }
    if v1 <= 65535 && v2 <= 65535 {
        Some((v1 as u16, v2 as u16))
    } else {
        None
    }
}

/// Whether `b` is ASCII whitespace (executable twin of `spec_is_space`).
fn is_space_byte(b: u8) -> (r: bool)
    ensures
        r == spec_is_space(b),
{
    b == 0x20 || b == 0x09 || b == 0x0a || b == 0x0b || b == 0x0c || b == 0x0d
}

/// Scan the digit run starting at `from`: where it ends, and its value
/// clamped sticky at 65536.
fn scan_number(bytes: &Vec<u8>, from: usize, to: usize) -> (r: (usize, u32))
    requires
        from <= to <= bytes@.len(),
    ensures
        from <= r.0 <= to,
        forall|j: int| from <= j < r.0 ==> spec_is_digit(#[trigger] bytes@[j]),
        r.0 < to ==> !spec_is_digit(bytes@[r.0 as int]),
        r.1 == spec_clamped(bytes@.subrange(from as int, r.0 as int)),
{
    let mut i: usize = from;
    let mut v: u32 = 0;
    while i < to && bytes[i] >= 0x30 && bytes[i] <= 0x39
        invariant
            from <= i <= to <= bytes@.len(),
            forall|j: int| from <= j < i ==> spec_is_digit(#[trigger] bytes@[j]),
            v == spec_clamped(bytes@.subrange(from as int, i as int)),
            v <= 0x10000,
        decreases to - i,
    {
        let d = (bytes[i] - 0x30) as u32;
        let nv = v * 10 + d;
        if nv > 0xffff {
            v = 0x10000;
        } else {
            v = nv;
        }
        i = i + 1;
        proof {
            let pre = bytes@.subrange(from as int, i as int - 1);
            let cur = bytes@.subrange(from as int, i as int);
            assert(cur.drop_last() =~= pre);
            lemma_clamped_bounds(pre);
        }
    }
    (i, v)
}

/// The clamped value of a digit string: its value when at most 65535, the
/// marker 65536 otherwise.
pub open spec fn spec_clamped(s: Seq<u8>) -> u32 {
    if spec_digits_val(s) <= 65535 {
        spec_digits_val(s) as u32
    } else {
        0x10000u32
    }
}

/// A digit string's value is nonnegative and grows with its digits.
pub proof fn lemma_clamped_bounds(s: Seq<u8>)
    requires
        forall|j: int| 0 <= j < s.len() ==> spec_is_digit(#[trigger] s[j]),
    ensures
        spec_digits_val(s) >= 0,
        0 <= spec_clamped(s) <= 0x10000,
    decreases s.len(),
{
    if s.len() > 0 {
        assert forall|j: int| 0 <= j < s.drop_last().len() implies spec_is_digit(
            #[trigger] s.drop_last()[j],
        ) by {
            assert(s[j] == s.drop_last()[j]);
        }
        lemma_clamped_bounds(s.drop_last());
        assert(spec_is_digit(s.last()));
    }
}

/// The clamped scan agrees with the exact value on accepted ports.
pub proof fn lemma_scan_value(buf: Seq<u8>, from: int, to: int, t: Seq<u8>)
    requires
        0 <= from <= to <= buf.len(),
        t == buf.subrange(from, to),
        forall|j: int| 0 <= j < t.len() ==> spec_is_digit(#[trigger] t[j]),
    ensures
        spec_clamped(t) <= 65535 ==> spec_digits_val(t) == spec_clamped(t),
        spec_clamped(t) > 65535 ==> spec_digits_val(t) > 65535,
{
    lemma_clamped_bounds(t);
}

} // verus!
