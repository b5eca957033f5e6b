//! The octet-level pieces of a BER encoding: identifier, length and integer
//! contents octets, with the functions that read them back.

use vstd::arithmetic::div_mod::{
    lemma_fundamental_div_mod, lemma_fundamental_div_mod_converse_mod, lemma_mod_bound,
};
use vstd::prelude::*;

verus! {

/// 256 to the power `k`.
pub open spec fn pow256(k: nat) -> nat
    decreases k,
{
    if k == 0 {
        1
    } else {
        256 * pow256((k - 1) as nat)
    }
}

/// The unsigned big-endian value of a string of octets.
pub open spec fn be_unsigned(s: Seq<u8>) -> nat
    decreases s.len(),
{
    if s.len() == 0 {
        0
    } else {
        be_unsigned(s.drop_last()) * 256 + s.last() as nat
    }
}

/// The two's complement value of a string of octets (most significant first).
pub open spec fn be_signed(s: Seq<u8>) -> int {
    if s.len() > 0 && s[0] >= 128 {
        be_unsigned(s) - pow256(s.len())
    } else {
        be_unsigned(s) as int
    }
}

/// The shortest big-endian octets of `n` (none for zero).
pub open spec fn be_octets(n: nat) -> Seq<u8>
    decreases n,
{
    if n == 0 {
        Seq::empty()
    } else {
        be_octets(n / 256).push((n % 256) as u8)
    }
}

/// Definite length octets in their shortest form (X.690 8.1.3).
pub open spec fn length_octets(n: nat) -> Seq<u8> {
    if n < 128 {
        seq![n as u8]
    } else {
        seq![(128 + be_octets(n).len()) as u8] + be_octets(n)
    }
}

/// The absolute value of an integer.
pub open spec fn abs(v: int) -> nat {
    if v < 0 {
        (-v) as nat
    } else {
        v as nat
    }
}

/// The contents octets of an INTEGER: the shortest two's complement form
/// (X.690 8.3.2).
pub open spec fn int_octets(v: int) -> Seq<u8>
    decreases abs(v),
{
    if -128 <= v < 128 {
        seq![(v % 256) as u8]
    } else {
        int_octets(v / 256).push((v % 256) as u8)
    }
}

/// Base-128 digits of `n`, each with the continuation bit set.
pub open spec fn base128_lead(n: nat) -> Seq<u8>
    decreases n,
{
    if n == 0 {
        Seq::empty()
    } else {
        base128_lead(n / 128).push((n % 128 + 128) as u8)
    }
}

/// The shortest base-128 form of `n`, continuation bit set on all but the
/// last octet (X.690 8.1.2.4).
pub open spec fn base128_octets(n: nat) -> Seq<u8> {
    base128_lead(n / 128).push((n % 128) as u8)
}

/// The value of base-128 digits; the continuation bit of each octet is ignored.
pub open spec fn base128_value(s: Seq<u8>) -> nat
    decreases s.len(),
{
    if s.len() == 0 {
        0
    } else {
        base128_value(s.drop_last()) * 128 + (s.last() % 128) as nat
    }
}

/// The index of the first octet without the continuation bit.
pub open spec fn first_final(s: Seq<u8>) -> Option<nat>
    decreases s.len(),
{
    if s.len() == 0 {
        None
    } else if s[0] < 128 {
        Some(0)
    } else {
        match first_final(s.drop_first()) {
            Some(k) => Some(k + 1),
            None => None,
        }
    }
}

/// Tag class `universal` (X.680 8.1).
pub const UNIVERSAL: u8 = 0;
/// Tag class `context-specific`.
pub const CONTEXT: u8 = 2;

/// An ASN.1 tag: class (0..=3) and number.
#[derive(Clone, Copy, Debug, PartialEq, Eq, Structural)]
pub struct Tag {
    pub class: u8,
    pub number: u32,
}

impl Tag {
    /// A tag that can be written: a class of two bits, and not the
    /// end-of-contents tag `[UNIVERSAL 0]`.
    pub open spec fn valid(self) -> bool {
        &&& self.class < 4
        &&& !(self.class == 0 && self.number == 0)
    }
}

/// The identifier octets of a tag (X.690 8.1.2).
pub open spec fn identifier_octets(tag: Tag, constructed: bool) -> Seq<u8> {
    let lead = tag.class * 64 + (if constructed {
        32int
    } else {
        0int
    });
    if tag.number < 31 {
        seq![(lead + tag.number) as u8]
    } else {
        seq![(lead + 31) as u8] + base128_octets(tag.number as nat)
    }
}

/// Reads identifier octets: the tag, the constructed bit, and the number of
/// octets read. A tag number of 2^32 or more, and the end-of-contents tag
/// `[UNIVERSAL 0]` in either form, are refused.
pub open spec fn parse_identifier(s: Seq<u8>) -> Option<(Tag, bool, nat)> {
    if s.len() == 0 {
        None
    } else {
        let b = s[0];
        let class = b / 64;
        let constructed = b % 64 >= 32;
        let low = b % 32;
        if class == 0 && low == 0 {
            None
        } else if low < 31 {
            Some((Tag { class, number: low as u32 }, constructed, 1))
        } else {
            let rest = s.skip(1);
            match first_final(rest) {
                Some(k) => {
                    let number = base128_value(rest.take(k + 1 as int));
                    if number >= 0x1_0000_0000 || (class == 0 && number == 0) {
                        None
                    } else {
                        Some((Tag { class, number: number as u32 }, constructed, k + 2))
                    }
                },
                None => None,
            }
        }
    }
}

/// Reads definite length octets: the length and the number of octets read.
/// The indefinite form (0x80), the reserved octet 0xFF and a length of 2^64
/// or more are refused; a long form may carry leading zero octets.
pub open spec fn parse_length(s: Seq<u8>) -> Option<(nat, nat)> {
    if s.len() == 0 {
        None
    } else {
        let b = s[0];
        if b < 128 {
            Some((b as nat, 1))
        } else if b == 128 || b == 255 {
            None
        } else {
            let k = (b - 128) as nat;
            if s.len() < k + 1 {
                None
            } else {
                let n = be_unsigned(s.subrange(1, k + 1 as int));
                if n >= 0x1_0000_0000_0000_0000 {
                    None
                } else {
                    Some((n, k + 1))
                }
            }
        }
    }
}

/// What the identifier and length octets of an encoding say.
pub struct Header {
    pub tag: Tag,
    pub constructed: bool,
    pub header_len: nat,
    pub content_len: nat,
}

/// Reads identifier and length octets, and checks that the contents fit in `s`.
pub open spec fn parse_header(s: Seq<u8>) -> Option<Header> {
    match parse_identifier(s) {
        None => None,
        Some((tag, constructed, il)) => match parse_length(s.skip(il as int)) {
            None => None,
            Some((cl, ll)) => if il + ll + cl <= s.len() {
                Some(Header { tag, constructed, header_len: il + ll, content_len: cl })
            } else {
                None
            },
        },
    }
}

/// An encoding: identifier, length and contents octets.
pub open spec fn tlv(tag: Tag, constructed: bool, content: Seq<u8>) -> Seq<u8> {
    identifier_octets(tag, constructed) + length_octets(content.len()) + content
}

// ---------------------------------------------------------------------------
// Lemmas

pub proof fn lemma_be_unsigned_push(s: Seq<u8>, b: u8)
    ensures
        be_unsigned(s.push(b)) == be_unsigned(s) * 256 + b,
{
    assert(s.push(b).drop_last() =~= s);
}

pub proof fn lemma_be_octets(n: nat)
    ensures
        be_unsigned(be_octets(n)) == n,
        n > 0 ==> be_octets(n).len() > 0 && be_octets(n)[0] > 0,
        n < pow256(be_octets(n).len()),
        n > 0 ==> pow256((be_octets(n).len() - 1) as nat) <= n,
    decreases n,
{
    if n > 0 {
        lemma_be_octets(n / 256);
        lemma_be_unsigned_push(be_octets(n / 256), (n % 256) as u8);
        let p = be_octets(n / 256);
        assert(pow256(p.len() + 1) == 256 * pow256(p.len()));
        if n / 256 > 0 {
            assert(pow256((p.len() - 1) as nat) * 256 == pow256(p.len()));
        } else {
            assert(p.len() == 0);
        }
    }
}

pub proof fn lemma_pow256_monotone(a: nat, b: nat)
    requires
        a <= b,
    ensures
        pow256(a) <= pow256(b),
        1 <= pow256(a),
    decreases b,
{
    if a < b {
        lemma_pow256_monotone(a, (b - 1) as nat);
    } else if a > 0 {
        lemma_pow256_monotone((a - 1) as nat, (a - 1) as nat);
    }
}

pub proof fn lemma_pow256_8()
    ensures
        pow256(8) == 0x1_0000_0000_0000_0000,
{
    reveal_with_fuel(pow256, 9);
}

/// A length below 2^64 has at most eight octets in its long form.
pub proof fn lemma_be_octets_short(n: nat)
    requires
        n < 0x1_0000_0000_0000_0000,
    ensures
        be_octets(n).len() <= 8,
{
    lemma_be_octets(n);
    if be_octets(n).len() > 8 {
        lemma_pow256_8();
        lemma_pow256_monotone(8, (be_octets(n).len() - 1) as nat);
    }
}

pub proof fn lemma_length_roundtrip(n: nat, rest: Seq<u8>)
    requires
        n < 0x1_0000_0000_0000_0000,
    ensures
        parse_length(length_octets(n) + rest) == Some((n, length_octets(n).len())),
        1 <= length_octets(n).len() <= 9,
{
    let s = length_octets(n) + rest;
    if n >= 128 {
        lemma_be_octets_short(n);
        lemma_be_octets(n);
        let b = be_octets(n);
        assert(s.subrange(1, b.len() + 1 as int) =~= b);
    }
}

pub proof fn lemma_base128_lead(n: nat)
    ensures
        base128_value(base128_lead(n)) == n,
        forall|i: int| 0 <= i < base128_lead(n).len() ==> base128_lead(n)[i] >= 128,
    decreases n,
{
    if n > 0 {
        lemma_base128_lead(n / 128);
        let p = base128_lead(n / 128);
        assert(base128_lead(n).drop_last() =~= p);
    }
}

pub proof fn lemma_first_final_lead(p: Seq<u8>, b: u8, rest: Seq<u8>)
    requires
        forall|i: int| 0 <= i < p.len() ==> p[i] >= 128,
        b < 128,
    ensures
        first_final(p.push(b) + rest) == Some(p.len()),
    decreases p.len(),
{
    let s = p.push(b) + rest;
    if p.len() > 0 {
        let q = p.drop_first();
        assert(s.drop_first() =~= q.push(b) + rest);
        lemma_first_final_lead(q, b, rest);
    }
}

pub proof fn lemma_base128_roundtrip(n: nat, rest: Seq<u8>)
    ensures
        first_final(base128_octets(n) + rest) == Some((base128_octets(n).len() - 1) as nat),
        base128_value(base128_octets(n)) == n,
        base128_octets(n).len() >= 1,
{
    lemma_base128_lead(n / 128);
    let p = base128_lead(n / 128);
    lemma_first_final_lead(p, (n % 128) as u8, rest);
    assert(base128_octets(n).drop_last() =~= p);
}

pub proof fn lemma_identifier_roundtrip(tag: Tag, constructed: bool, rest: Seq<u8>)
    requires
        tag.valid(),
    ensures
        parse_identifier(identifier_octets(tag, constructed) + rest) == Some(
            (tag, constructed, identifier_octets(tag, constructed).len()),
        ),
        identifier_octets(tag, constructed).len() >= 1,
        identifier_octets(tag, constructed)[0] != 0,
{
    let s = identifier_octets(tag, constructed) + rest;
    if tag.number >= 31 {
        let t = base128_octets(tag.number as nat);
        lemma_base128_roundtrip(tag.number as nat, rest);
        assert(s.skip(1) =~= t + rest);
        assert((t + rest).take(t.len() as int) =~= t);
    }
}

/// A header is read back from the encoding it was written into.
pub proof fn lemma_tlv_roundtrip(tag: Tag, constructed: bool, content: Seq<u8>, rest: Seq<u8>)
    requires
        tag.valid(),
        content.len() < 0x1_0000_0000_0000_0000,
    ensures
        parse_header(tlv(tag, constructed, content) + rest) == Some(
            Header {
                tag,
                constructed,
                header_len: identifier_octets(tag, constructed).len() + length_octets(
                    content.len(),
                ).len(),
                content_len: content.len(),
            },
        ),
        ({
            let h = identifier_octets(tag, constructed).len() + length_octets(content.len()).len();
            (tlv(tag, constructed, content) + rest).subrange(h as int, h + content.len() as int)
                == content
        }),
        tlv(tag, constructed, content).len() == identifier_octets(tag, constructed).len()
            + length_octets(content.len()).len() + content.len(),
        tlv(tag, constructed, content)[0] != 0,
        parse_identifier(tlv(tag, constructed, content) + rest) == Some(
            (tag, constructed, identifier_octets(tag, constructed).len()),
        ),
{
    let id = identifier_octets(tag, constructed);
    let len = length_octets(content.len());
    let s = tlv(tag, constructed, content) + rest;
    lemma_identifier_roundtrip(tag, constructed, len + content + rest);
    assert(s =~= id + (len + content + rest));
    assert(s.skip(id.len() as int) =~= len + (content + rest));
    lemma_length_roundtrip(content.len(), content + rest);
    assert(s.subrange(id.len() + len.len() as int, id.len() + len.len() + content.len() as int) =~= content);
}

/// The integer contents octets: one to eight of them for a 64-bit value, and
/// their two's complement value is the integer.
pub proof fn lemma_int_octets(v: int)
    ensures
        be_signed(int_octets(v)) == v,
        int_octets(v).len() >= 1,
        int_octets(v)[0] >= 128 <==> v < 0,
        be_unsigned(int_octets(v)) == v + (if v < 0 {
            pow256(int_octets(v).len()) as int
        } else {
            0
        }),
    decreases abs(v),
{
    lemma_fundamental_div_mod(v, 256);
    lemma_mod_bound(v, 256);
    if -128 <= v < 128 {
        let s = int_octets(v);
        assert(s.drop_last() =~= Seq::<u8>::empty());
        assert(be_unsigned(s.drop_last()) == 0);
        assert(be_unsigned(s) == s[0]);
        reveal_with_fuel(pow256, 2);
        if v < 0 {
            lemma_fundamental_div_mod_converse_mod(v, 256, -1, v + 256);
        } else {
            lemma_fundamental_div_mod_converse_mod(v, 256, 0, v);
        }
    } else {
        let u = v / 256;
        let b = (v % 256) as u8;
        lemma_int_octets(u);
        let p = int_octets(u);
        lemma_be_unsigned_push(p, b);
        assert(int_octets(v) == p.push(b));
        assert(int_octets(v)[0] == p[0]);
        assert(u < 0 <==> v < 0);
        assert(pow256(p.len() + 1) == 256 * pow256(p.len()));
    }
}

/// An INTEGER that fits in 64 bits has at most eight contents octets.
pub proof fn lemma_int_octets_len(v: int, k: nat)
    requires
        1 <= k,
        -128 * pow256((k - 1) as nat) <= v < 128 * pow256((k - 1) as nat),
    ensures
        int_octets(v).len() <= k,
    decreases k,
{
    if !(-128 <= v < 128) {
        assert(k > 1) by {
            if k == 1 {
                assert(pow256(0) == 1);
            }
        }
        assert(pow256((k - 1) as nat) == 256 * pow256((k - 2) as nat));
        lemma_int_octets_len(v / 256, (k - 1) as nat);
    }
}

pub proof fn lemma_int_octets_i64(v: i64)
    ensures
        1 <= int_octets(v as int).len() <= 8,
        be_signed(int_octets(v as int)) == v,
{
    lemma_int_octets(v as int);
    reveal_with_fuel(pow256, 8);
    lemma_int_octets_len(v as int, 8);
}

} // verus!
