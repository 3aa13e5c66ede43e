//! Byte-sequence helpers: concatenation and decimal rendering.

use vstd::prelude::*;

verus! {

/// Appends every byte of `src` to `dst`.
pub fn push_all(dst: &mut Vec<u8>, src: &[u8])
    ensures
        final(dst)@ == old(dst)@ + src@,
{
    let mut i: usize = 0;
    while i < src.len()
        invariant
            i <= src.len(),
            dst@ == old(dst)@ + src@.take(i as int),
        decreases src.len() - i,
    {
        dst.push(src[i]);
        i = i + 1;
        proof {
            assert(dst@ =~= old(dst)@ + src@.take(i as int));
        }
    }
    proof {
        assert(old(dst)@ + src@.take(src@.len() as int) =~= old(dst)@ + src@);
    }
}

/// Copies a byte slice into a fresh vector.
pub fn copy_bytes(src: &[u8]) -> (v: Vec<u8>)
    ensures
        v@ == src@,
{
    let mut v: Vec<u8> = Vec::new();
    push_all(&mut v, src);
    proof {
        assert(v@ =~= src@);
    }
    v
}

/// Decimal digits of `n`, most significant first, as ASCII bytes.
pub open spec fn dec_nat(n: nat) -> Seq<u8>
    decreases n,
{
    if n < 10 {
        seq![(48 + n) as u8]
    } else {
        dec_nat(n / 10).push((48 + n % 10) as u8)
    }
}

proof fn lemma_reverse_push(s: Seq<u8>, x: u8)
    ensures
        s.push(x).reverse() == seq![x] + s.reverse(),
{
    assert(s.push(x).reverse() =~= seq![x] + s.reverse());
}

/// Renders `n` in decimal.
pub fn u64_to_dec(n: u64) -> (v: Vec<u8>)
    ensures
        v@ == dec_nat(n as nat),
{
    let mut rev: Vec<u8> = Vec::new();
    let mut m: u64 = n;
    loop
        invariant_except_break
            rev@.len() == 0 ==> m == n,
            rev@.len() > 0 ==> m > 0 && dec_nat(n as nat) == dec_nat(m as nat) + rev@.reverse(),
        ensures
            dec_nat(n as nat) == rev@.reverse(),
        decreases m,
    {
        let d: u8 = (48 + m % 10) as u8;
        proof {
            lemma_reverse_push(rev@, d);
        }
        let ghost old_rev = rev@;
        let ghost old_m = m as nat;
        rev.push(d);
        m = m / 10;
        proof {
            if old_rev.len() == 0 {
                if old_m < 10 {
                    assert(dec_nat(n as nat) =~= rev@.reverse());
                } else {
                    assert(dec_nat(n as nat) == dec_nat(old_m / 10).push(d));
                    assert(dec_nat(n as nat) =~= dec_nat(m as nat) + rev@.reverse());
                }
            } else {
                if old_m < 10 {
                    assert(dec_nat(old_m) == seq![d]);
                    assert(dec_nat(n as nat) =~= rev@.reverse());
                } else {
                    assert(dec_nat(old_m) == dec_nat(old_m / 10).push(d));
                    assert(dec_nat(n as nat) =~= dec_nat(m as nat) + rev@.reverse());
                }
            }
        }
        if m == 0 {
            break;
        }
    }
    let mut v: Vec<u8> = Vec::new();
    let mut i: usize = rev.len();
    while i > 0
        invariant
            i <= rev.len(),
            dec_nat(n as nat) == rev@.reverse(),
            v@.len() == rev@.len() - i,
            forall|j: int| 0 <= j < v@.len() ==> v@[j] == rev@[rev@.len() - 1 - j],
        decreases i,
    {
        i = i - 1;
        let b: u8 = rev[i];
        v.push(b);
    }
    proof {
        assert(v@ =~= rev@.reverse());
    }
    v
}

} // verus!
