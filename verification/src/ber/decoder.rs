//! Reading BER: each function reads what its contract names from
//! `buf[pos..end]`.

use super::encoder::{lemma_fields_model, lemma_schemas_model};
use super::model::{
    fields_model, options_model, schema_model, schemas_model, values_model, Asn,
    AsnValue, Field, Kind, Schema, SpecSchema,
};
use super::octets::{
    base128_value, be_signed, be_unsigned, first_final, lemma_be_unsigned_push,
    lemma_pow256_8, lemma_pow256_monotone, parse_header, parse_identifier, parse_length, pow256,
    Header, Tag, UNIVERSAL,
};
use super::encoder::append_octets;
use super::integer::Integer;
use super::roundtrip::lemma_dec_items_eoc_wt;
use super::spec::{
    absent, dec, dec_fields, dec_items, dec_items_eoc, dec_segment, dec_segments, dec_segments_eoc,
    find_alt, SEGMENT_DEPTH,
};
use vstd::arithmetic::mul::{lemma_mul_inequality, lemma_mul_is_associative};
use vstd::prelude::*;

verus! {

pub proof fn lemma_be_unsigned_bound(s: Seq<u8>)
    ensures
        be_unsigned(s) < pow256(s.len()),
    decreases s.len(),
{
    if s.len() > 0 {
        lemma_be_unsigned_bound(s.drop_last());
    }
}

pub proof fn lemma_be_unsigned_first(s: Seq<u8>)
    requires
        s.len() >= 1,
    ensures
        be_unsigned(s) == s[0] * pow256((s.len() - 1) as nat) + be_unsigned(s.drop_first()),
    decreases s.len(),
{
    if s.len() == 1 {
        assert(s.drop_last() =~= Seq::<u8>::empty());
        assert(s.drop_first() =~= Seq::<u8>::empty());
        assert(be_unsigned(s.drop_last()) == 0);
        assert(be_unsigned(s) == s[0]);
        assert(pow256(0) == 1);
    } else {
        let dl = s.drop_last();
        let t = dl.drop_first();
        let p = pow256((s.len() - 2) as nat);
        lemma_be_unsigned_first(dl);
        assert(dl[0] == s[0]);
        assert(be_unsigned(dl) == s[0] * p + be_unsigned(t));
        assert(be_unsigned(s) == be_unsigned(dl) * 256 + s.last());
        assert(s.drop_first() =~= t.push(s.last()));
        lemma_be_unsigned_push(t, s.last());
        assert(pow256((s.len() - 1) as nat) == 256 * p);
        lemma_mul_is_associative(s[0] as int, p as int, 256);
        assert((s[0] * p) * 256 == s[0] * (256 * p)) by (nonlinear_arith);
    }
}

/// One to eight octets hold a two's complement value that fits in 64 bits.
pub proof fn lemma_be_signed_i64(s: Seq<u8>)
    requires
        1 <= s.len() <= 8,
    ensures
        i64::MIN <= be_signed(s) <= i64::MAX,
        be_unsigned(s) < pow256(s.len()),
{
    let p = pow256((s.len() - 1) as nat);
    lemma_be_unsigned_first(s);
    lemma_be_unsigned_bound(s.drop_first());
    lemma_be_unsigned_bound(s);
    lemma_pow256_monotone((s.len() - 1) as nat, 7);
    reveal_with_fuel(pow256, 8);
    assert(pow256(s.len()) == 256 * p);
    if s[0] < 128 {
        lemma_mul_inequality(s[0] as int, 127, p as int);
    } else {
        lemma_mul_inequality(128, s[0] as int, p as int);
    }
}

pub proof fn lemma_first_final(s: Seq<u8>, j: int)
    requires
        0 <= j <= s.len(),
        forall|t: int| 0 <= t < j ==> s[t] >= 128,
        j < s.len() ==> s[j] < 128,
    ensures
        first_final(s) == if j < s.len() {
            Some(j as nat)
        } else {
            None::<nat>
        },
    decreases s.len(),
{
    if s.len() > 0 && j > 0 {
        let r = s.drop_first();
        assert forall|t: int| 0 <= t < j - 1 implies r[t] >= 128 by {
            assert(r[t] == s[t + 1]);
        }
        lemma_first_final(r, j - 1);
    }
}

/// Each further octet multiplies the unsigned value read so far by 256 at least.
proof fn lemma_be_unsigned_grows(s: Seq<u8>, j: int, m: int)
    requires
        0 <= j < m <= s.len(),
    ensures
        be_unsigned(s.take(m)) >= 256 * be_unsigned(s.take(j)),
    decreases m - j,
{
    assert(s.take(m).drop_last() =~= s.take(m - 1));
    if m - 1 > j {
        lemma_be_unsigned_grows(s, j, m - 1);
    }
}

/// Each further base-128 digit multiplies what was read so far by 128 at least.
proof fn lemma_base128_grows(s: Seq<u8>, j: int, m: int)
    requires
        0 <= j < m <= s.len(),
    ensures
        base128_value(s.take(m)) >= 128 * base128_value(s.take(j)),
    decreases m - j,
{
    assert(s.take(m).drop_last() =~= s.take(m - 1));
    if m - 1 > j {
        lemma_base128_grows(s, j, m - 1);
    }
}

/// What `first_final` finds: an octet without the continuation bit, after
/// octets that all have it.
proof fn lemma_first_final_found(s: Seq<u8>)
    requires
        first_final(s) is Some,
    ensures
        first_final(s)->0 < s.len(),
        s[first_final(s)->0 as int] < 128,
        forall|t: int| 0 <= t < first_final(s)->0 ==> s[t] >= 128,
    decreases s.len(),
{
    if s[0] >= 128 {
        lemma_first_final_found(s.drop_first());
        let k = first_final(s.drop_first())->0;
        assert forall|t: int| 0 <= t < first_final(s)->0 implies s[t] >= 128 by {
            if t > 0 {
                assert(s[t] == s.drop_first()[t - 1]);
            }
        }
    }
}

/// Reads identifier octets from `buf[pos..end]`.
pub fn read_identifier(buf: &[u8], pos: usize, end: usize) -> (r: Option<(Tag, bool, usize)>)
    requires
        pos <= end <= buf.len(),
    ensures
        parse_identifier(buf@.subrange(pos as int, end as int)) == match r {
            Some((t, c, n)) => Some((t, c, n as nat)),
            None => None,
        },
        r matches Some((_, _, n)) ==> 1 <= n <= end - pos,
{
    let ghost s = buf@.subrange(pos as int, end as int);
    if pos >= end {
        return None;
    }
    let b = buf[pos];
    assert(s[0] == b);
    let class: u8 = b / 64;
    let constructed: bool = b % 64 >= 32;
    let low: u8 = b % 32;
    if class == 0 && low == 0 {
        return None;
    }
    if low < 31 {
        return Some((Tag { class, number: low as u32 }, constructed, 1));
    }
    let ghost rest = s.skip(1);
    assert(rest =~= buf@.subrange(pos + 1, end as int));
    let mut i: usize = pos + 1;
    let mut acc: u32 = 0;
    assert(rest.take(0) =~= Seq::<u8>::empty());
    loop
        invariant
            pos + 1 <= i <= end,
            end <= buf.len(),
            s == buf@.subrange(pos as int, end as int),
            rest == s.skip(1),
            rest == buf@.subrange(pos + 1, end as int),
            s.len() >= 1,
            class == s[0] / 64,
            low == s[0] % 32,
            low == 31,
            constructed == (s[0] % 64 >= 32),
            forall|t: int| 0 <= t < i - pos - 1 ==> rest[t] >= 128,
            acc == base128_value(rest.take(i - pos - 1)),
        decreases end - i,
    {
        let ghost k = i - pos - 1;
        if i >= end {
            proof {
                lemma_first_final(rest, rest.len() as int);
            }
            return None;
        }
        let b = buf[i];
        assert(rest[k] == b);
        if acc > 0x1FF_FFFF {
            proof {
                if first_final(rest) is Some {
                    lemma_first_final_found(rest);
                    let kf = first_final(rest)->0 as int;
                    assert(kf >= k);
                    lemma_base128_grows(rest, k, kf + 1);
                }
            }
            return None;
        }
        let ghost pre = rest.take(k);
        assert(rest.take(k + 1) =~= pre.push(b));
        assert(pre.push(b).drop_last() =~= pre);
        acc = acc * 128 + (b % 128) as u32;
        i = i + 1;
        if b < 128 {
            proof {
                lemma_first_final(rest, k);
            }
            if class == 0 && acc == 0 {
                return None;
            }
            return Some((Tag { class, number: acc }, constructed, i - pos));
        }
    }
}

/// Reads `len` octets at `start` as an unsigned big-endian number.
fn read_unsigned(buf: &[u8], start: usize, len: usize) -> (r: u64)
    requires
        len <= 8,
        start + len <= buf.len(),
    ensures
        r == be_unsigned(buf@.subrange(start as int, start + len)),
{
    let mut acc: u64 = 0;
    let mut j: usize = 0;
    assert(buf@.subrange(start as int, start as int) =~= Seq::<u8>::empty());
    while j < len
        invariant
            j <= len <= 8,
            start + len <= buf.len(),
            acc == be_unsigned(buf@.subrange(start as int, start + j)),
        decreases len - j,
    {
        let ghost pre = buf@.subrange(start as int, start + j);
        proof {
            lemma_be_unsigned_bound(pre);
            lemma_pow256_monotone(j as nat, 7);
            reveal_with_fuel(pow256, 8);
            lemma_be_unsigned_push(pre, buf[start + j]);
        }
        assert(buf@.subrange(start as int, start + j + 1) =~= pre.push(buf[start + j]));
        acc = acc * 256 + buf[start + j] as u64;
        j = j + 1;
    }
    acc
}

/// Reads definite length octets from `buf[pos..end]`.
pub fn read_length(buf: &[u8], pos: usize, end: usize) -> (r: Option<(u64, usize)>)
    requires
        pos <= end <= buf.len(),
    ensures
        parse_length(buf@.subrange(pos as int, end as int)) == match r {
            Some((v, n)) => Some((v as nat, n as nat)),
            None => None,
        },
        r matches Some((_, n)) ==> 1 <= n <= end - pos,
{
    let ghost s = buf@.subrange(pos as int, end as int);
    if pos >= end {
        return None;
    }
    let b = buf[pos];
    assert(s[0] == b);
    if b < 128 {
        return Some((b as u64, 1));
    }
    if b == 128 || b == 255 {
        return None;
    }
    let k: usize = (b - 128) as usize;
    if end - pos < k + 1 {
        return None;
    }
    let ghost lo = s.subrange(1, k + 1 as int);
    assert(lo =~= buf@.subrange(pos + 1, pos + 1 + k));
    let mut acc: u64 = 0;
    let mut j: usize = 0;
    assert(lo.take(0) =~= Seq::<u8>::empty());
    while j < k
        invariant
            j <= k,
            pos + 1 + k <= end <= buf.len(),
            lo == buf@.subrange(pos + 1, pos + 1 + k),
            s == buf@.subrange(pos as int, end as int),
            s[0] == b,
            128 < b < 255,
            k == b - 128,
            lo == s.subrange(1, k + 1 as int),
            acc == be_unsigned(lo.take(j as int)),
        decreases k - j,
    {
        if acc > 0xFF_FFFF_FFFF_FFFF {
            proof {
                lemma_be_unsigned_grows(lo, j as int, k as int);
                assert(lo.take(k as int) =~= lo);
                assert(256 * (acc as int) >= 0x1_0000_0000_0000_0000) by (nonlinear_arith)
                    requires
                        acc > 0xFF_FFFF_FFFF_FFFF,
                ;
            }
            return None;
        }
        let o = buf[pos + 1 + j];
        assert(lo[j as int] == o);
        assert(lo.take(j + 1) =~= lo.take(j as int).push(o));
        proof {
            lemma_be_unsigned_push(lo.take(j as int), o);
        }
        acc = acc * 256 + o as u64;
        j = j + 1;
    }
    assert(lo.take(k as int) =~= lo);
    Some((acc, k + 1))
}

/// Reads identifier and length octets from `buf[pos..end]`: tag, constructed
/// bit, header length and contents length.
pub fn read_header(buf: &[u8], pos: usize, end: usize) -> (r: Option<(Tag, bool, usize, usize)>)
    requires
        pos <= end <= buf.len(),
    ensures
        parse_header(buf@.subrange(pos as int, end as int)) == match r {
            Some((t, c, hl, cl)) => Some(
                Header { tag: t, constructed: c, header_len: hl as nat, content_len: cl as nat },
            ),
            None => None,
        },
        r matches Some((_, _, hl, cl)) ==> hl + cl <= end - pos,
{
    let ghost s = buf@.subrange(pos as int, end as int);
    match read_identifier(buf, pos, end) {
        None => None,
        Some((tag, constructed, il)) => {
            assert(s.skip(il as int) =~= buf@.subrange(pos + il, end as int));
            match read_length(buf, pos + il, end) {
                None => None,
                Some((cl, ll)) => {
                    let room: usize = end - pos - il - ll;
                    if cl > room as u64 {
                        None
                    } else {
                        Some((tag, constructed, il + ll, cl as usize))
                    }
                },
            }
        },
    }
}

/// Reads `len` (one to eight) contents octets at `start` as a two's
/// complement INTEGER.
pub fn read_int(buf: &[u8], start: usize, len: usize) -> (r: i64)
    requires
        1 <= len <= 8,
        start + len <= buf.len(),
    ensures
        r as int == be_signed(buf@.subrange(start as int, start + len)),
{
    let ghost s = buf@.subrange(start as int, start + len);
    proof {
        lemma_be_signed_i64(s);
        lemma_pow256_monotone(len as nat, 8);
        lemma_pow256_8();
    }
    let u = read_unsigned(buf, start, len);
    assert(s[0] == buf[start as int]);
    if buf[start] >= 128 {
        let mut p: u128 = 1;
        let mut j: usize = 0;
        while j < len
            invariant
                j <= len <= 8,
                p == pow256(j as nat),
            decreases len - j,
        {
            proof {
                lemma_pow256_monotone(j as nat, 7);
                reveal_with_fuel(pow256, 8);
            }
            p = p * 256;
            j = j + 1;
        }
        ((u as i128) - (p as i128)) as i64
    } else {
        u as i64
    }
}

/// `absent`, read from `buf[pos..end]`.
fn is_absent(tag: Tag, buf: &[u8], pos: usize, end: usize) -> (r: bool)
    requires
        pos <= end <= buf.len(),
    ensures
        r == absent(tag, buf@.subrange(pos as int, end as int)),
{
    let ghost s = buf@.subrange(pos as int, end as int);
    if pos >= end {
        return true;
    }
    if end - pos >= 2 && buf[pos] == 0 && buf[pos + 1] == 0 {
        assert(s[0] == buf[pos as int] && s[1] == buf[pos + 1]);
        return true;
    }
    assert(s.len() >= 2 ==> s[0] == buf[pos as int] && s[1] == buf[pos + 1]);
    match read_identifier(buf, pos, end) {
        Some((t, _, _)) => t != tag,
        None => false,
    }
}

fn copy_octets(buf: &[u8], start: usize, end: usize) -> (r: Vec<u8>)
    requires
        start <= end <= buf.len(),
    ensures
        r@ == buf@.subrange(start as int, end as int),
{
    let mut r: Vec<u8> = Vec::new();
    let mut i: usize = start;
    while i < end
        invariant
            start <= i <= end <= buf.len(),
            r@ == buf@.subrange(start as int, i as int),
        decreases end - i,
    {
        r.push(buf[i]);
        i = i + 1;
        assert(r@ =~= buf@.subrange(start as int, i as int));
    }
    r
}

fn contains_i64(vs: &Vec<i64>, x: i64) -> (r: bool)
    ensures
        r == vs@.contains(x),
{
    let mut i: usize = 0;
    while i < vs.len()
        invariant
            i <= vs.len(),
            forall|j: int| 0 <= j < i ==> vs@[j] != x,
        decreases vs.len() - i,
    {
        if vs[i] == x {
            return true;
        }
        i = i + 1;
    }
    false
}

proof fn lemma_find_alt_first(ss: Seq<SpecSchema>, t: Tag, i: int)
    requires
        0 <= i <= ss.len(),
        forall|j: int| 0 <= j < i ==> ss[j].tag != t,
        i < ss.len() ==> ss[i].tag == t,
    ensures
        find_alt(ss, t) == if i < ss.len() {
            Some(i as nat)
        } else {
            None::<nat>
        },
    decreases ss.len(),
{
    if ss.len() > 0 && i > 0 {
        let r = ss.drop_first();
        assert forall|j: int| 0 <= j < i - 1 implies r[j].tag != t by {
            assert(r[j] == ss[j + 1]);
        }
        lemma_find_alt_first(r, t, i - 1);
    }
}

/// The result of reading components, after those already read (`acc`, which
/// took `k` octets).
pub open spec fn after_fields(
    acc: Seq<Option<Asn>>,
    k: nat,
    r: Option<(Seq<Option<Asn>>, nat)>,
) -> Option<(Seq<Option<Asn>>, nat)> {
    match r {
        Some((rest, m)) => Some((acc + rest, k + m)),
        None => None,
    }
}

/// The result of reading elements, after those already read (`acc`).
pub open spec fn after_items(acc: Seq<Asn>, r: Option<Seq<Asn>>) -> Option<Seq<Asn>> {
    match r {
        Some(rest) => Some(acc + rest),
        None => None,
    }
}

/// The result of reading elements up to the end-of-contents octets, after
/// those already read (`acc`, which took `k` octets).
pub open spec fn after_items_eoc(acc: Seq<Asn>, k: nat, r: Option<(Seq<Asn>, nat)>) -> Option<
    (Seq<Asn>, nat),
> {
    match r {
        Some((rest, m)) => Some((acc + rest, k + m)),
        None => None,
    }
}

/// The result of reading segments, after the octets already read (`acc`).
pub open spec fn after_segments(acc: Seq<u8>, r: Option<Seq<u8>>) -> Option<Seq<u8>> {
    match r {
        Some(rest) => Some(acc + rest),
        None => None,
    }
}

/// The result of reading segments up to the end-of-contents octets, after
/// the octets already read (`acc`, from segments that took `k` octets).
pub open spec fn after_segments_eoc(acc: Seq<u8>, k: nat, r: Option<(Seq<u8>, nat)>) -> Option<
    (Seq<u8>, nat),
> {
    match r {
        Some((rest, m)) => Some((acc + rest, k + m)),
        None => None,
    }
}

/// Appends to `out` the contents of the OCTET STRING segment that starts
/// `buf[pos..end]`, read at nesting depth `depth`, and returns where the
/// segment ends.
fn append_segment(depth: u32, buf: &[u8], pos: usize, end: usize, out: &mut Vec<u8>) -> (r:
    Option<usize>)
    requires
        pos <= end <= buf.len(),
    ensures
        match dec_segment(depth as nat, buf@.subrange(pos as int, end as int)) {
            None => r is None,
            Some((b, n)) => r matches Some(p) && p == pos + n && final(out)@ == old(out)@ + b,
        },
        r matches Some(p) ==> pos < p <= end,
    decreases depth, 0nat,
{
    let ghost input = buf@.subrange(pos as int, end as int);
    match read_header(buf, pos, end) {
        Some((tag, constructed, hl, cl)) => {
            if tag.class != UNIVERSAL || tag.number != 4 || hl == 0 {
                return None;
            }
            let next: usize = pos + hl + cl;
            assert(input.subrange(hl as int, (hl + cl) as int) =~= buf@.subrange(
                (pos + hl) as int,
                next as int,
            ));
            if !constructed {
                append_octets(out, &buf[pos + hl..next]);
                return Some(next);
            }
            if depth == 0 {
                return None;
            }
            if append_segments(depth - 1, buf, pos + hl, next, out) {
                Some(next)
            } else {
                None
            }
        },
        None => {
            let (tag, constructed, il) = match read_identifier(buf, pos, end) {
                None => {
                    return None;
                },
                Some(h) => h,
            };
            if !constructed || il >= end - pos || buf[pos + il] != 0x80 {
                assert(il < input.len() ==> input[il as int] == buf[pos + il]);
                return None;
            }
            assert(input[il as int] == buf[pos + il]);
            if tag.class != UNIVERSAL || tag.number != 4 || depth == 0 {
                return None;
            }
            let cstart: usize = pos + il + 1;
            assert(input.skip(il + 1) =~= buf@.subrange(cstart as int, end as int));
            match append_segments_eoc(depth - 1, buf, cstart, end, out) {
                Some(p) => Some(p + 2),
                None => None,
            }
        },
    }
}

/// Appends to `out` the contents of all of `buf[start..end]`, read as the
/// segments of a constructed OCTET STRING at nesting depth `depth`; `false`
/// where it is not made of such segments.
fn append_segments(depth: u32, buf: &[u8], start: usize, end: usize, out: &mut Vec<u8>) -> (ok:
    bool)
    requires
        start <= end <= buf.len(),
    ensures
        match dec_segments(depth as nat, buf@.subrange(start as int, end as int)) {
            None => !ok,
            Some(b) => ok && final(out)@ == old(out)@ + b,
        },
    decreases depth, 1nat,
{
    let ghost first = out@;
    let mut cur: usize = start;
    while cur < end
        invariant
            start <= cur <= end,
            end <= buf.len(),
            first == old(out)@,
            after_segments(first, dec_segments(depth as nat, buf@.subrange(start as int, end as int)))
                == after_segments(out@, dec_segments(depth as nat, buf@.subrange(cur as int, end as int))),
        decreases end - cur,
    {
        let ghost c = buf@.subrange(cur as int, end as int);
        let ghost before = out@;
        match append_segment(depth, buf, cur, end, out) {
            None => {
                return false;
            },
            Some(next) => {
                assert(c.skip((next - cur) as int) =~= buf@.subrange(next as int, end as int));
                let ghost b = dec_segment(depth as nat, c)->Some_0.0;
                assert forall|rest: Seq<u8>| #[trigger] (before + (b + rest)) == out@ + rest by {
                    assert(before + (b + rest) =~= out@ + rest);
                }
                cur = next;
            },
        }
    }
    assert(buf@.subrange(cur as int, end as int) =~= Seq::<u8>::empty());
    assert(out@ + Seq::<u8>::empty() =~= out@);
    true
}

/// Appends to `out` the contents of the segments of a constructed OCTET
/// STRING of indefinite length, read at nesting depth `depth` from the start
/// of `buf[start..end]` up to the end-of-contents octets, and returns where
/// those octets start.
fn append_segments_eoc(depth: u32, buf: &[u8], start: usize, end: usize, out: &mut Vec<u8>) -> (r:
    Option<usize>)
    requires
        start <= end <= buf.len(),
    ensures
        match dec_segments_eoc(depth as nat, buf@.subrange(start as int, end as int)) {
            None => r is None,
            Some((b, m)) => r matches Some(p) && p == start + m && final(out)@ == old(out)@ + b,
        },
        r matches Some(p) ==> start <= p && p + 2 <= end,
    decreases depth, 1nat,
{
    let ghost first = out@;
    let mut cur: usize = start;
    loop
        invariant
            start <= cur <= end,
            end <= buf.len(),
            first == old(out)@,
            after_segments_eoc(
                first,
                0,
                dec_segments_eoc(depth as nat, buf@.subrange(start as int, end as int)),
            ) == after_segments_eoc(
                out@,
                (cur - start) as nat,
                dec_segments_eoc(depth as nat, buf@.subrange(cur as int, end as int)),
            ),
        decreases end - cur,
    {
        let ghost c = buf@.subrange(cur as int, end as int);
        let ghost before = out@;
        if end - cur >= 2 && buf[cur] == 0 && buf[cur + 1] == 0 {
            assert(c[0] == buf[cur as int] && c[1] == buf[cur + 1]);
            assert(before + Seq::<u8>::empty() =~= before);
            assert(first + Seq::<u8>::empty() =~= first);
            return Some(cur);
        }
        assert(c.len() >= 2 ==> c[0] == buf[cur as int] && c[1] == buf[cur + 1]);
        match append_segment(depth, buf, cur, end, out) {
            None => {
                return None;
            },
            Some(next) => {
                assert(c.skip((next - cur) as int) =~= buf@.subrange(next as int, end as int));
                let ghost b = dec_segment(depth as nat, c)->Some_0.0;
                assert forall|rest: Seq<u8>| #[trigger] (before + (b + rest)) == out@ + rest by {
                    assert(before + (b + rest) =~= out@ + rest);
                }
                cur = next;
            },
        }
    }
}

/// Reads the components of a SEQUENCE from the start of `buf[start..end]`:
/// their values and where they end.
fn decode_fields(fuel: u32, fs: &Vec<Field>, buf: &[u8], start: usize, end: usize) -> (r: Option<
    (Vec<Option<AsnValue>>, usize),
>)
    requires
        start <= end <= buf.len(),
    ensures
        match dec_fields(fuel as nat, fields_model(fs@), buf@.subrange(start as int, end as int)) {
            None => r is None,
            Some((vs, m)) => r matches Some((x, p)) && options_model(x@) == vs && p == start + m,
        },
        r matches Some((_, p)) ==> start <= p <= end,
    decreases fuel, 2nat,
{
    let ghost fsm = fields_model(fs@);
    proof {
        lemma_fields_model(fs@);
    }
    let mut vals: Vec<Option<AsnValue>> = Vec::new();
    let mut cur: usize = start;
    let mut i: usize = 0;
    assert(fsm.skip(0) =~= fsm);
    assert(options_model(vals@) =~= Seq::<Option<Asn>>::empty());
    assert(Seq::<Option<Asn>>::empty() + Seq::<Option<Asn>>::empty() =~= Seq::<Option<Asn>>::empty());
    while i < fs.len()
        invariant
            i <= fs.len(),
            start <= cur <= end,
            end <= buf.len(),
            fsm == fields_model(fs@),
            fsm.len() == fs.len(),
            forall|k: int|
                0 <= k < fs.len() ==> (#[trigger] fsm[k]).optional == fs[k].optional
                    && fsm[k].schema == schema_model(fs[k].schema),
            dec_fields(fuel as nat, fsm, buf@.subrange(start as int, end as int)) == after_fields(
                options_model(vals@),
                (cur - start) as nat,
                dec_fields(fuel as nat, fsm.skip(i as int), buf@.subrange(cur as int, end as int)),
            ),
        decreases fs.len() - i,
    {
        let ghost fr = fsm.skip(i as int);
        let ghost c = buf@.subrange(cur as int, end as int);
        assert(fr.drop_first() =~= fsm.skip(i + 1));
        assert(fr[0] == fsm[i as int]);
        let ghost before = options_model(vals@);
        let ghost old_vals = vals@;
        if fs[i].optional && is_absent(fs[i].schema.tag, buf, cur, end) {
            vals.push(None);
            assert(vals@.drop_last() =~= old_vals);
            assert(options_model(vals@) =~= before.push(None));
            assert(c.skip(0) =~= c);
            assert(before.push(None) + Seq::<Option<Asn>>::empty() =~= before.push(None));
            assert forall|rest: Seq<Option<Asn>>| #[trigger] (before + (seq![None] + rest))
                == before.push(None) + rest by {
                assert(before + (seq![None] + rest) =~= before.push(None) + rest);
            }
        } else {
            match decode_value(fuel, &fs[i].schema, buf, cur, end) {
                None => {
                    assert(dec_fields(fuel as nat, fr, c) is None);
                    return None;
                },
                Some((v, p)) => {
                    let ghost vm = v@;
                    vals.push(Some(v));
                    assert(vals@.drop_last() =~= old_vals);
                    assert(options_model(vals@) =~= before.push(Some(vm)));
                    assert(c.skip((p - cur) as int) =~= buf@.subrange(p as int, end as int));
                    assert forall|rest: Seq<Option<Asn>>| #[trigger] (before + (seq![Some(vm)] + rest))
                        == before.push(Some(vm)) + rest by {
                        assert(before + (seq![Some(vm)] + rest) =~= before.push(Some(vm)) + rest);
                    }
                    cur = p;
                },
            }
        }
        i = i + 1;
    }
    assert(fsm.skip(i as int) =~= Seq::<super::model::SpecField>::empty());
    assert(options_model(vals@) + Seq::<Option<Asn>>::empty() =~= options_model(vals@));
    Some((vals, cur))
}

/// Reads all of `buf[start..end]` as the elements of a SEQUENCE OF `e`.
fn decode_items(fuel: u32, e: &Schema, buf: &[u8], start: usize, end: usize) -> (r: Option<
    Vec<AsnValue>,
>)
    requires
        start <= end <= buf.len(),
    ensures
        match dec_items(fuel as nat, e@, buf@.subrange(start as int, end as int)) {
            None => r is None,
            Some(items) => r matches Some(x) && values_model(x@) == items,
        },
    decreases fuel, 2nat,
{
    let ghost em = e@;
    let mut items: Vec<AsnValue> = Vec::new();
    let mut cur: usize = start;
    assert(values_model(items@) =~= Seq::<Asn>::empty());
    assert(Seq::<Asn>::empty() + Seq::<Asn>::empty() =~= Seq::<Asn>::empty());
    while cur < end
        invariant
            start <= cur <= end,
            end <= buf.len(),
            em == e@,
            dec_items(fuel as nat, em, buf@.subrange(start as int, end as int)) == after_items(
                values_model(items@),
                dec_items(fuel as nat, em, buf@.subrange(cur as int, end as int)),
            ),
        decreases end - cur,
    {
        let ghost c = buf@.subrange(cur as int, end as int);
        let ghost before = values_model(items@);
        let ghost old_items = items@;
        match decode_value(fuel, e, buf, cur, end) {
            None => {
                assert(dec_items(fuel as nat, em, c) is None);
                return None;
            },
            Some((v, p)) => {
                if p == cur {
                    assert(dec_items(fuel as nat, em, c) is None);
                    return None;
                }
                let ghost vm = v@;
                items.push(v);
                assert(items@.drop_last() =~= old_items);
                assert(values_model(items@) =~= before.push(vm));
                assert(c.skip((p - cur) as int) =~= buf@.subrange(p as int, end as int));
                assert forall|rest: Seq<Asn>| #[trigger] (before + (seq![vm] + rest))
                    == before.push(vm) + rest by {
                    assert(before + (seq![vm] + rest) =~= before.push(vm) + rest);
                }
                cur = p;
            },
        }
    }
    assert(values_model(items@) + Seq::<Asn>::empty() =~= values_model(items@));
    Some(items)
}

/// Reads the elements of an indefinite-length SEQUENCE OF `e` from the start
/// of `buf[start..end]`, up to the end-of-contents octets: the elements and
/// where the end-of-contents octets start.
fn decode_items_eoc(fuel: u32, e: &Schema, buf: &[u8], start: usize, end: usize) -> (r: Option<
    (Vec<AsnValue>, usize),
>)
    requires
        start <= end <= buf.len(),
    ensures
        match dec_items_eoc(fuel as nat, e@, buf@.subrange(start as int, end as int)) {
            None => r is None,
            Some((items, m)) => r matches Some((x, p)) && values_model(x@) == items && p == start
                + m,
        },
        r matches Some((_, p)) ==> start <= p <= end,
    decreases fuel, 2nat,
{
    let ghost em = e@;
    let mut items: Vec<AsnValue> = Vec::new();
    let mut cur: usize = start;
    assert(values_model(items@) =~= Seq::<Asn>::empty());
    assert(Seq::<Asn>::empty() + Seq::<Asn>::empty() =~= Seq::<Asn>::empty());
    loop
        invariant
            start <= cur <= end,
            end <= buf.len(),
            em == e@,
            dec_items_eoc(fuel as nat, em, buf@.subrange(start as int, end as int))
                == after_items_eoc(
                values_model(items@),
                (cur - start) as nat,
                dec_items_eoc(fuel as nat, em, buf@.subrange(cur as int, end as int)),
            ),
        decreases end - cur,
    {
        let ghost c = buf@.subrange(cur as int, end as int);
        let ghost before = values_model(items@);
        let ghost old_items = items@;
        if end - cur >= 2 && buf[cur] == 0 && buf[cur + 1] == 0 {
            assert(c[0] == buf[cur as int] && c[1] == buf[cur + 1]);
            assert(before + Seq::<Asn>::empty() =~= before);
            return Some((items, cur));
        }
        assert(c.len() >= 2 ==> c[0] == buf[cur as int] && c[1] == buf[cur + 1]);
        if cur == end {
            return None;
        }
        match decode_value(fuel, e, buf, cur, end) {
            None => {
                return None;
            },
            Some((v, p)) => {
                if p == cur {
                    return None;
                }
                let ghost vm = v@;
                items.push(v);
                assert(items@.drop_last() =~= old_items);
                assert(values_model(items@) =~= before.push(vm));
                assert(c.skip((p - cur) as int) =~= buf@.subrange(p as int, end as int));
                assert forall|rest: Seq<Asn>| #[trigger] (before + (seq![vm] + rest))
                    == before.push(vm) + rest by {
                    assert(before + (seq![vm] + rest) =~= before.push(vm) + rest);
                }
                cur = p;
            },
        }
    }
}

/// Reads a value of `s` from the start of `buf[pos..end]`: the value and
/// where it ends.
pub fn decode_value(fuel: u32, s: &Schema, buf: &[u8], pos: usize, end: usize) -> (r: Option<
    (AsnValue, usize),
>)
    requires
        pos <= end <= buf.len(),
    ensures
        match dec(fuel as nat, s@, buf@.subrange(pos as int, end as int)) {
            None => r is None,
            Some((v, n)) => r matches Some((x, p)) && x@ == v && p == pos + n,
        },
        r matches Some((_, p)) ==> pos <= p <= end,
    decreases fuel, 1nat,
{
    let ghost input = buf@.subrange(pos as int, end as int);
    if fuel == 0 {
        return None;
    }
    if let Kind::Choice(alts) = &s.kind {
        proof {
            lemma_schemas_model(alts@);
        }
        let ghost am = schemas_model(alts@);
        match read_identifier(buf, pos, end) {
            None => {
                return None;
            },
            Some((t, _, _)) => {
                let mut i: usize = 0;
                while i < alts.len() && alts[i].tag != t
                    invariant
                        i <= alts.len(),
                        am == schemas_model(alts@),
                        am.len() == alts.len(),
                        forall|j: int| 0 <= j < alts.len() ==> #[trigger] am[j] == schema_model(alts[j]),
                        forall|j: int| 0 <= j < i ==> am[j].tag != t,
                    decreases alts.len() - i,
                {
                    i = i + 1;
                }
                proof {
                    lemma_find_alt_first(am, t, i as int);
                }
                if i == alts.len() {
                    return None;
                }
                match decode_value(fuel - 1, &alts[i], buf, pos, end) {
                    None => {
                        return None;
                    },
                    Some((v, p)) => {
                        let r = AsnValue::Choice(i, Box::new(v));
                        return Some((r, p));
                    },
                }
            },
        }
    }
    let (tag, constructed, hl, cl) = match read_header(buf, pos, end) {
        None => {
            return decode_indefinite(fuel, s, buf, pos, end);
        },
        Some(h) => h,
    };
    if tag != s.tag {
        return None;
    }
    let cstart: usize = pos + hl;
    let cend: usize = cstart + cl;
    let ghost content = buf@.subrange(cstart as int, cend as int);
    assert(content =~= input.subrange(hl as int, hl + cl));
    match &s.kind {
        Kind::Boolean => {
            if cl == 1 {
                assert(content[0] == buf[cstart as int]);
                Some((AsnValue::Bool(buf[cstart] != 0), cend))
            } else {
                None
            }
        },
        Kind::Integer => {
            if 1 <= cl {
                let x = Integer::from_contents(buf, cstart, cend);
                Some((AsnValue::Integer(x), cend))
            } else {
                None
            }
        },
        Kind::Enumerated(allowed) => {
            if 1 <= cl {
                match Integer::from_contents(buf, cstart, cend).to_i64() {
                    Some(x) => if contains_i64(allowed, x) {
                        Some((AsnValue::Int(x), cend))
                    } else {
                        None
                    },
                    None => None,
                }
            } else {
                None
            }
        },
        Kind::Null => {
            if cl == 0 {
                Some((AsnValue::Null, cend))
            } else {
                None
            }
        },
        Kind::OctetString => {
            if !constructed {
                let o = copy_octets(buf, cstart, cend);
                Some((AsnValue::Octets(o), cend))
            } else {
                let mut o: Vec<u8> = Vec::new();
                if append_segments(SEGMENT_DEPTH, buf, cstart, cend, &mut o) {
                    assert(Seq::<u8>::empty() + o@ =~= o@);
                    Some((AsnValue::Octets(o), cend))
                } else {
                    None
                }
            }
        },
        Kind::Sequence(fs) => {
            if !constructed {
                return None;
            }
            match decode_fields(fuel - 1, fs, buf, cstart, cend) {
                None => None,
                Some((vals, p)) => {
                    if p != cend {
                        None
                    } else {
                        Some((AsnValue::Sequence(vals), cend))
                    }
                },
            }
        },
        Kind::SequenceOf(e) => {
            if !constructed {
                return None;
            }
            match decode_items(fuel - 1, e, buf, cstart, cend) {
                None => None,
                Some(items) => Some((AsnValue::SequenceOf(items), cend)),
            }
        },
        Kind::Choice(_) => None,
    }
}

/// Reads a SEQUENCE or SEQUENCE OF `s` of indefinite length from the start of
/// `buf[pos..end]`, where no definite header starts.
fn decode_indefinite(fuel: u32, s: &Schema, buf: &[u8], pos: usize, end: usize) -> (r: Option<
    (AsnValue, usize),
>)
    requires
        pos <= end <= buf.len(),
        fuel > 0,
        !(s.kind is Choice),
        parse_header(buf@.subrange(pos as int, end as int)) is None,
    ensures
        match dec(fuel as nat, s@, buf@.subrange(pos as int, end as int)) {
            None => r is None,
            Some((v, n)) => r matches Some((x, p)) && x@ == v && p == pos + n,
        },
        r matches Some((_, p)) ==> pos <= p <= end,
    decreases fuel, 0nat,
{
    let ghost input = buf@.subrange(pos as int, end as int);
    let (tag, constructed, il) = match read_identifier(buf, pos, end) {
        None => {
            return None;
        },
        Some(h) => h,
    };
    if !constructed || il >= end - pos || buf[pos + il] != 0x80 {
        assert(il < input.len() ==> input[il as int] == buf[pos + il]);
        return None;
    }
    assert(input[il as int] == buf[pos + il]);
    if tag != s.tag {
        return None;
    }
    let cstart: usize = pos + il + 1;
    assert(input.skip(il + 1) =~= buf@.subrange(cstart as int, end as int));
    match &s.kind {
        Kind::Sequence(fs) => {
            match decode_fields(fuel - 1, fs, buf, cstart, end) {
                None => None,
                Some((vals, p)) => {
                    let ghost c = buf@.subrange(cstart as int, end as int);
                    assert(c.skip((p - cstart) as int) =~= buf@.subrange(p as int, end as int));
                    if end - p >= 2 && buf[p] == 0 && buf[p + 1] == 0 {
                        Some((AsnValue::Sequence(vals), p + 2))
                    } else {
                        None
                    }
                },
            }
        },
        Kind::OctetString => {
            let mut o: Vec<u8> = Vec::new();
            match append_segments_eoc(SEGMENT_DEPTH, buf, cstart, end, &mut o) {
                None => None,
                Some(p) => {
                    assert(Seq::<u8>::empty() + o@ =~= o@);
                    Some((AsnValue::Octets(o), p + 2))
                },
            }
        },
        Kind::SequenceOf(e) => {
            match decode_items_eoc(fuel - 1, e, buf, cstart, end) {
                None => None,
                Some((items, p)) => {
                    proof {
                        lemma_dec_items_eoc_wt(
                            (fuel - 1) as nat,
                            schema_model(**e),
                            buf@.subrange(cstart as int, end as int),
                        );
                    }
                    Some((AsnValue::SequenceOf(items), p + 2))
                },
            }
        },
        _ => None,
    }
}

} // verus!
