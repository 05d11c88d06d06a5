//! Decimal numerals as byte sequences: parsing (for `Content-Length`) and
//! rendering (for emitted headers), with a proved round trip between them.

use vstd::prelude::*;

verus! {

/// True of the ASCII digit bytes `'0'..='9'`.
pub open spec fn is_digit(b: u8) -> bool {
    ('0' as u8) <= b <= ('9' as u8)
}

/// Numeric value of one digit byte.
pub open spec fn digit_val(b: u8) -> nat {
    (b - ('0' as u8)) as nat
}

/// True when every byte of `s` is a digit.
pub open spec fn all_digits(s: Seq<u8>) -> bool {
    forall|i: int| 0 <= i < s.len() ==> is_digit(s[i])
}

/// Value of `s` read as a base-ten numeral.
pub open spec fn dec_val(s: Seq<u8>) -> nat
    decreases s.len(),
{
    if s.len() == 0 {
        0
    } else {
        dec_val(s.drop_last()) * 10 + digit_val(s.last())
    }
}

/// What parsing a decimal numeral yields: defined exactly on non-empty
/// all-digit sequences whose value fits in a `u64`.
pub open spec fn parse_dec(s: Seq<u8>) -> Option<u64> {
    if s.len() > 0 && all_digits(s) && dec_val(s) <= u64::MAX {
        Some(dec_val(s) as u64)
    } else {
        None
    }
}

/// The canonical decimal numeral of `n`: no sign, no leading zero except
/// for `n == 0` itself.
pub open spec fn dec_of(n: nat) -> Seq<u8>
    decreases n,
{
    if n < 10 {
        seq![(('0' as u8) + n) as u8]
    } else {
        dec_of(n / 10).push((('0' as u8) + n % 10) as u8)
    }
}

/// Appending digits never lowers the value: the value of a digit prefix is
/// a lower bound for the value of the whole numeral.
proof fn lemma_dec_val_prefix(s: Seq<u8>, j: int)
    requires
        0 <= j <= s.len(),
    ensures
        dec_val(s) >= dec_val(s.take(j)),
    decreases s.len() - j,
{
    if j < s.len() {
        assert(s.take(j + 1).drop_last() =~= s.take(j));
        assert(s.take(j + 1).last() == s[j]);
        assert(dec_val(s.take(j + 1)) == dec_val(s.take(j)) * 10 + digit_val(s[j]));
        assert(dec_val(s.take(j)) * 10 >= dec_val(s.take(j)));
        lemma_dec_val_prefix(s, j + 1);
    } else {
        assert(s.take(j) =~= s);
    }
}

/// Parses a decimal numeral.
pub fn parse_u64(s: &[u8]) -> (r: Option<u64>)
    ensures
        r == parse_dec(s@),
{
    if s.len() == 0 {
        return None;
    }
    let mut i: usize = 0;
    let mut val: u64 = 0;
    while i < s.len()
        invariant
            i <= s@.len(),
            s@.len() > 0,
            all_digits(s@.take(i as int)),
            val == dec_val(s@.take(i as int)),
        decreases s@.len() - i,
    {
        let b = s[i];
        if b < ('0' as u8) || b > ('9' as u8) {
            assert(!is_digit(s@[i as int]));
            return None;
        }
        let d: u64 = (b - ('0' as u8)) as u64;
        if val > (u64::MAX - d) / 10 {
            proof {
                assert(s@.take(i + 1).drop_last() =~= s@.take(i as int));
                assert(dec_val(s@.take(i + 1)) == val * 10 + d);
                assert(val * 10 + d > u64::MAX) by (nonlinear_arith)
                    requires
                        val > (u64::MAX - d) / 10,
                        d <= 9,
                ;
                if all_digits(s@) {
                    lemma_dec_val_prefix(s@, i + 1);
                }
            }
            return None;
        }
        proof {
            assert(val * 10 + d <= u64::MAX) by (nonlinear_arith)
                requires
                    val <= (u64::MAX - d) / 10,
                    d <= 9,
            ;
            assert(s@.take(i + 1).drop_last() =~= s@.take(i as int));
        }
        val = val * 10 + d;
        i = i + 1;
    }
    proof {
        assert(s@.take(s@.len() as int) =~= s@);
    }
    Some(val)
}

/// Renders `n` as its canonical decimal numeral.
pub fn u64_to_dec(n: u64) -> (out: Vec<u8>)
    ensures
        out@ == dec_of(n as nat),
    decreases n,
{
    if n < 10 {
        let mut out: Vec<u8> = Vec::new();
        out.push(('0' as u8) + (n as u8));
        proof {
            assert(out@ =~= dec_of(n as nat));
        }
        out
    } else {
        let mut out = u64_to_dec(n / 10);
        out.push(('0' as u8) + ((n % 10) as u8));
        out
    }
}

/// The canonical numeral of `n` is non-empty, all digits, and reads back
/// as `n`.
pub proof fn lemma_dec_of_val(n: nat)
    ensures
        dec_val(dec_of(n)) == n,
        all_digits(dec_of(n)),
        dec_of(n).len() >= 1,
    decreases n,
{
    if n < 10 {
        let d = (('0' as u8) + n) as u8;
        assert(dec_of(n) == seq![d]);
        assert(seq![d].drop_last() =~= Seq::<u8>::empty());
        assert(dec_val(Seq::<u8>::empty()) == 0);
        assert(dec_val(seq![d]) == digit_val(d));
        assert(digit_val(d) == n);
    } else {
        lemma_dec_of_val(n / 10);
        assert(dec_of(n).drop_last() =~= dec_of(n / 10));
        assert(dec_of(n).last() == (('0' as u8) + n % 10) as u8);
        assert(n % 10 < 10);
        assert(dec_val(dec_of(n)) == (n / 10) * 10 + n % 10);
        assert((n / 10) * 10 + n % 10 == n) by (nonlinear_arith);
        assert(all_digits(dec_of(n)));
    }
}

/// Round trip: parsing the rendered numeral of `n` gives back `n`.
pub proof fn lemma_parse_dec_of(n: u64)
    ensures
        parse_dec(dec_of(n as nat)) == Some(n),
{
    lemma_dec_of_val(n as nat);
}

} // verus!
