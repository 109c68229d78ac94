//! Decimal rendering of integers as ASCII digit bytes, used for status codes
//! and `Content-Length` values in response framing.
use vstd::prelude::*;

verus! {

/// The decimal representation of `n` as a sequence of ASCII digit bytes,
/// most significant digit first, with no leading zeros (except for `n == 0`,
/// which is rendered as "0").
pub open spec fn dec_rep(n: nat) -> Seq<u8>
    decreases n,
{
    if n < 10 {
        seq![(n + 48) as u8]
    } else {
        dec_rep(n / 10).push((n % 10 + 48) as u8)
    }
}

/// The numeric value of a sequence of ASCII digit bytes, most significant first.
pub open spec fn dec_val(s: Seq<u8>) -> nat
    decreases s.len(),
{
    if s.len() == 0 {
        0
    } else {
        dec_val(s.drop_last()) * 10 + (if 48 <= s.last() <= 57 {
            (s.last() - 48) as nat
        } else {
            0
        })
    }
}

/// Every byte of a decimal representation is an ASCII digit.
pub proof fn lemma_dec_rep_digits(n: nat)
    ensures
        forall|i: int| 0 <= i < dec_rep(n).len() ==> 48 <= #[trigger] dec_rep(n)[i] <= 57,
    decreases n,
{
    if n < 10 {
        assert(dec_rep(n) =~= seq![(n + 48) as u8]);
        assert(dec_rep(n)[0] == (n + 48) as u8);
    } else {
        lemma_dec_rep_digits(n / 10);
        let p = dec_rep(n / 10);
        assert forall|i: int| 0 <= i < dec_rep(n).len() implies 48 <= #[trigger] dec_rep(n)[i]
            <= 57 by {
            assert(dec_rep(n) == p.push((n % 10 + 48) as u8));
            if i < p.len() {
                assert(dec_rep(n)[i] == p[i]);
            } else {
                assert(dec_rep(n)[i] == (n % 10 + 48) as u8);
            }
        }
    }
}

/// Rendering a number and reading the digits back yields the same number.
pub proof fn lemma_dec_roundtrip(n: nat)
    ensures
        dec_val(dec_rep(n)) == n,
    decreases n,
{
    if n < 10 {
        let d = (n + 48) as u8;
        assert(dec_rep(n) =~= seq![d]);
        assert(dec_rep(n).last() == d);
        assert(dec_rep(n).drop_last() =~= Seq::<u8>::empty());
        assert(dec_val(Seq::<u8>::empty()) == 0);
        assert(dec_val(dec_rep(n)) == 0 * 10 + (d - 48) as nat);
    } else {
        lemma_dec_roundtrip(n / 10);
        let d = (n % 10 + 48) as u8;
        assert(n % 10 < 10);
        assert(dec_rep(n).last() == d);
        assert(dec_rep(n).drop_last() =~= dec_rep(n / 10));
        assert(dec_val(dec_rep(n)) == dec_val(dec_rep(n / 10)) * 10 + (d - 48) as nat);
        vstd::arithmetic::div_mod::lemma_fundamental_div_mod(n as int, 10);
    }
}

/// Renders `n` in decimal as ASCII digit bytes.
pub fn dec_of(n: usize) -> (r: Vec<u8>)
    ensures
        r@ == dec_rep(n as nat),
    decreases n,
{
    if n < 10 {
        let mut v: Vec<u8> = Vec::new();
        v.push((n as u8) + 48);
        proof {
            assert(v@ =~= dec_rep(n as nat));
        }
        v
    } else {
        let mut v = dec_of(n / 10);
        v.push(((n % 10) as u8) + 48);
        proof {
            assert(v@ =~= dec_rep(n as nat));
        }
        v
    }
}

} // verus!
