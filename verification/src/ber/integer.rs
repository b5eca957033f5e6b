//! ASN.1 INTEGER values of any size, held as their shortest two's complement
//! contents octets.

use super::decoder::{lemma_be_unsigned_first, read_int};
use super::encoder::{append_octets, write_int_octets};
use super::octets::{
    be_signed, be_unsigned, int_octets, lemma_int_octets, lemma_int_octets_len, pow256,
};
use vstd::arithmetic::div_mod::{
    lemma_fundamental_div_mod_converse_div, lemma_fundamental_div_mod_converse_mod,
};
use vstd::prelude::*;

verus! {

/// An INTEGER: a mathematical integer of any size.
#[derive(Debug, PartialEq, Eq)]
pub struct Integer {
    octets: Vec<u8>,
}

/// The first octet of `s` only repeats the sign of the next one, so dropping
/// it keeps the value.
pub open spec fn redundant(s: Seq<u8>) -> bool {
    s.len() >= 2 && ((s[0] == 0 && s[1] < 128) || (s[0] == 255 && s[1] >= 128))
}

/// `v` fits in a 64-bit signed integer.
pub open spec fn fits_i64(v: int) -> bool {
    i64::MIN <= v <= i64::MAX
}

/// A redundant first octet does not change the value.
pub proof fn lemma_redundant_drop(s: Seq<u8>)
    requires
        redundant(s),
    ensures
        be_signed(s.drop_first()) == be_signed(s),
{
    let t = s.drop_first();
    lemma_be_unsigned_first(s);
    assert(t[0] == s[1]);
    assert(pow256(s.len()) == 256 * pow256(t.len()));
}

/// Two or more octets: the value is that of all but the last, times 256, plus
/// the last.
proof fn lemma_signed_last(s: Seq<u8>)
    requires
        s.len() >= 2,
    ensures
        be_signed(s) == be_signed(s.drop_last()) * 256 + s.last(),
{
    let d = s.drop_last();
    assert(d[0] == s[0]);
    assert(pow256(s.len()) == 256 * pow256(d.len()));
}

/// Contents octets without a redundant first octet are the shortest form of
/// their value.
pub proof fn lemma_shortest(s: Seq<u8>)
    requires
        s.len() >= 1,
        !redundant(s),
    ensures
        int_octets(be_signed(s)) == s,
    decreases s.len(),
{
    let v = be_signed(s);
    if s.len() == 1 {
        assert(s.drop_last() =~= Seq::<u8>::empty());
        assert(be_unsigned(s.drop_last()) == 0);
        assert(be_unsigned(s) == s[0]);
        reveal_with_fuel(pow256, 2);
        if s[0] >= 128 {
            lemma_fundamental_div_mod_converse_mod(v, 256, -1, s[0] as int);
        } else {
            lemma_fundamental_div_mod_converse_mod(v, 256, 0, s[0] as int);
        }
        assert(int_octets(v) =~= s);
    } else {
        let d = s.drop_last();
        let b = s.last();
        let w = be_signed(d);
        lemma_signed_last(s);
        lemma_fundamental_div_mod_converse_div(v, 256, w, b as int);
        lemma_fundamental_div_mod_converse_mod(v, 256, w, b as int);
        if d.len() == 1 {
            assert(d.drop_last() =~= Seq::<u8>::empty());
            assert(be_unsigned(d.drop_last()) == 0);
            assert(be_unsigned(d) == d[0]);
            reveal_with_fuel(pow256, 2);
            assert(d[0] == s[0] && s[1] == b);
            assert(int_octets(w) =~= d) by {
                lemma_shortest(d);
            }
        } else {
            assert(d[0] == s[0] && d[1] == s[1]);
            lemma_shortest(d);
            assert(!(-128 <= w < 128)) by {
                if -128 <= w < 128 {
                    assert(int_octets(w).len() == 1);
                }
            }
        }
        assert(!(-128 <= v < 128));
        assert(int_octets(v) == int_octets(w).push(b));
        assert(d.push(b) =~= s);
    }
}

impl View for Integer {
    type V = int;

    closed spec fn view(&self) -> int {
        be_signed(self.octets@)
    }
}

impl Integer {
    /// The octets held are the shortest form of the value.
    #[verifier::type_invariant]
    closed spec fn shortest(self) -> bool {
        self.octets@ == int_octets(be_signed(self.octets@))
    }

    /// The contents octets of the INTEGER: the shortest two's complement form
    /// of its value.
    pub fn octets(&self) -> (r: &[u8])
        ensures
            r@ == int_octets(self@),
    {
        proof {
            use_type_invariant(self);
        }
        self.octets.as_slice()
    }

    /// The INTEGER with value `v`.
    pub fn from_i64(v: i64) -> (r: Self)
        ensures
            r@ == v,
    {
        let mut octets: Vec<u8> = Vec::new();
        write_int_octets(v, &mut octets);
        proof {
            lemma_int_octets(v as int);
            assert(octets@ =~= int_octets(v as int));
        }
        Integer { octets }
    }

    /// The INTEGER whose two's complement contents octets are
    /// `buf[start..end]` (at least one).
    pub fn from_contents(buf: &[u8], start: usize, end: usize) -> (r: Self)
        requires
            start < end <= buf.len(),
        ensures
            r@ == be_signed(buf@.subrange(start as int, end as int)),
    {
        let ghost c = buf@.subrange(start as int, end as int);
        let mut i: usize = start;
        while i + 1 < end && ((buf[i] == 0 && buf[i + 1] < 128) || (buf[i] == 255 && buf[i + 1]
            >= 128))
            invariant
                start <= i < end <= buf.len(),
                be_signed(buf@.subrange(i as int, end as int)) == be_signed(c),
            decreases end - i,
        {
            let ghost s = buf@.subrange(i as int, end as int);
            assert(s[0] == buf[i as int] && s[1] == buf[i + 1]);
            proof {
                lemma_redundant_drop(s);
            }
            assert(s.drop_first() =~= buf@.subrange(i + 1, end as int));
            i = i + 1;
        }
        let ghost s = buf@.subrange(i as int, end as int);
        assert(s.len() >= 2 ==> s[0] == buf[i as int] && s[1] == buf[i + 1]);
        let mut octets: Vec<u8> = Vec::new();
        append_octets(&mut octets, &buf[i..end]);
        assert(octets@ =~= s);
        proof {
            lemma_shortest(s);
        }
        Integer { octets }
    }

    /// The value, where it fits in 64 bits.
    pub fn to_i64(&self) -> (r: Option<i64>)
        ensures
            r == (if fits_i64(self@) {
                Some(self@ as i64)
            } else {
                None
            }),
    {
        proof {
            use_type_invariant(self);
            lemma_int_octets(self@);
        }
        let n = self.octets.len();
        if n <= 8 {
            let v = read_int(self.octets.as_slice(), 0, n);
            assert(self.octets@.subrange(0, n as int) =~= self.octets@);
            Some(v)
        } else {
            proof {
                reveal_with_fuel(pow256, 8);
                if fits_i64(self@) {
                    lemma_int_octets_len(self@, 8);
                }
            }
            None
        }
    }

    /// A copy of the INTEGER.
    pub fn duplicate(&self) -> (r: Self)
        ensures
            r@ == self@,
    {
        proof {
            use_type_invariant(self);
        }
        let mut octets: Vec<u8> = Vec::new();
        append_octets(&mut octets, self.octets.as_slice());
        assert(octets@ =~= self.octets@);
        Integer { octets }
    }
}

impl Clone for Integer {
    fn clone(&self) -> (r: Self)
        ensures
            r@ == self@,
    {
        self.duplicate()
    }
}

} // verus!
