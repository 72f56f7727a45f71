//! Decimal rendering of counters: plain digits, digits grouped in threes with
//! commas (the en-US convention the summary uses), and fixed-point
//! percentages with two decimal places.

use vstd::prelude::*;

verus! {

/// The character for one decimal digit value.
pub open spec fn digit_char(d: int) -> char {
    if d == 0 {
        '0'
    } else if d == 1 {
        '1'
    } else if d == 2 {
        '2'
    } else if d == 3 {
        '3'
    } else if d == 4 {
        '4'
    } else if d == 5 {
        '5'
    } else if d == 6 {
        '6'
    } else if d == 7 {
        '7'
    } else if d == 8 {
        '8'
    } else {
        '9'
    }
}

/// Decimal representation of a natural number, most significant digit first.
pub open spec fn dec_rep(n: nat) -> Seq<char>
    decreases n,
{
    if n < 10 {
        seq![digit_char(n as int)]
    } else {
        dec_rep(n / 10).push(digit_char((n % 10) as int))
    }
}

/// Commas inserted from the right, between groups of three digits.
pub open spec fn group3(s: Seq<char>) -> Seq<char>
    decreases s.len(),
{
    if s.len() <= 3 {
        s
    } else {
        group3(s.take(s.len() - 3)) + seq![','] + s.skip(s.len() - 3)
    }
}

fn digit_to_char(d: u128) -> (c: char)
    requires
        d < 10,
    ensures
        c == digit_char(d as int),
{
    match d {
        0 => '0',
        1 => '1',
        2 => '2',
        3 => '3',
        4 => '4',
        5 => '5',
        6 => '6',
        7 => '7',
        8 => '8',
        _ => '9',
    }
}

/// The decimal digits of `n` as characters.
pub fn dec_chars(n: u128) -> (r: Vec<char>)
    ensures
        r@ == dec_rep(n as nat),
        r@.len() >= 1,
    decreases n,
{
    if n < 10 {
        let mut r: Vec<char> = Vec::new();
        r.push(digit_to_char(n));
        proof {
            assert(r@ =~= seq![digit_char(n as int)]);
        }
        r
    } else {
        let mut r = dec_chars(n / 10);
        r.push(digit_to_char(n % 10));
        r
    }
}

/// Groups a digit string in threes with commas.
pub fn group3_chars(v: &[char]) -> (r: Vec<char>)
    ensures
        r@ == group3(v@),
    decreases v@.len(),
{
    if v.len() <= 3 {
        let mut r: Vec<char> = Vec::new();
        let mut i: usize = 0;
        while i < v.len()
            invariant
                i <= v@.len(),
                r@ == v@.take(i as int),
            decreases v@.len() - i,
        {
            r.push(v[i]);
            proof {
                assert(v@.take(i + 1) =~= v@.take(i as int).push(v@[i as int]));
            }
            i = i + 1;
        }
        proof {
            assert(v@.take(v@.len() as int) =~= v@);
        }
        r
    } else {
        let head = crate::chars::subrange_vec(v, 0, v.len() - 3);
        let mut r = group3_chars(head.as_slice());
        proof {
            assert(head@ == v@.take(v@.len() - 3));
        }
        r.push(',');
        let mut i: usize = v.len() - 3;
        while i < v.len()
            invariant
                v@.len() > 3,
                v@.len() - 3 <= i <= v@.len(),
                r@ == group3(v@.take(v@.len() - 3)) + seq![','] + v@.subrange(
                    v@.len() - 3,
                    i as int,
                ),
            decreases v@.len() - i,
        {
            r.push(v[i]);
            proof {
                assert(v@.subrange(v@.len() - 3, i + 1) =~= v@.subrange(v@.len() - 3, i as int).push(
                    v@[i as int],
                ));
                assert((group3(v@.take(v@.len() - 3)) + seq![','] + v@.subrange(
                    v@.len() - 3,
                    i as int,
                )).push(v@[i as int]) =~= group3(v@.take(v@.len() - 3)) + seq![','] + v@.subrange(
                    v@.len() - 3,
                    i + 1,
                ));
            }
            i = i + 1;
        }
        proof {
            assert(v@.skip(v@.len() - 3) =~= v@.subrange(v@.len() - 3, v@.len() as int));
        }
        r
    }
}

/// A counter rendered with comma thousands separators, e.g. `1,234,567`.
pub fn format_count(n: u64) -> (r: String)
    ensures
        r@ == group3(dec_rep(n as nat)),
{
    let d = dec_chars(n as u128);
    let g = group3_chars(d.as_slice());
    crate::chars::string_from_chars(g.as_slice())
}

/// A counter rendered without separators.
pub fn format_plain(n: u64) -> (r: String)
    ensures
        r@ == dec_rep(n as nat),
{
    let d = dec_chars(n as u128);
    crate::chars::string_from_chars(d.as_slice())
}

/// `num * 100 / den` truncated to two decimal places, as `"qq.rr"`;
/// `0.00` when the denominator is zero.
pub open spec fn pct2(num: int, den: int) -> Seq<char> {
    if den <= 0 {
        seq!['0', '.', '0', '0']
    } else {
        let scaled = num * 10000 / den;
        dec_rep((scaled / 100) as nat) + seq!['.'] + seq![
            digit_char(scaled / 10 % 10),
            digit_char(scaled % 10),
        ]
    }
}

/// Renders a ratio as a percentage with two decimal places, guarding the
/// zero denominator with `0.00` instead of failing.
pub fn format_pct2(num: u64, den: u64) -> (r: String)
    ensures
        r@ == pct2(num as int, den as int),
{
    if den == 0 {
        let mut v: Vec<char> = Vec::new();
        v.push('0');
        v.push('.');
        v.push('0');
        v.push('0');
        proof {
            assert(v@ =~= seq!['0', '.', '0', '0']);
        }
        crate::chars::string_from_chars(v.as_slice())
    } else {
        let ghost sc_int = (num as int) * 10000 / (den as int);
        assert((num as int) * 10000 <= 0xffff_ffff_ffff_ffffu64 * 10000) by (nonlinear_arith)
            requires
                num <= 0xffff_ffff_ffff_ffffu64,
        ;
        let scaled: u128 = (num as u128) * 10000 / (den as u128);
        proof {
            assert(scaled == sc_int);
            assert(sc_int >= 0) by {
                assert((num as int) * 10000 >= 0) by (nonlinear_arith);
            };
        }
        let whole: u128 = scaled / 100;
        let t1: u128 = scaled / 10 % 10;
        let t2: u128 = scaled % 10;
        let mut v = dec_chars(whole);
        v.push('.');
        v.push(digit_to_char(t1));
        v.push(digit_to_char(t2));
        proof {
            assert(v@ =~= dec_rep((sc_int / 100) as nat) + seq!['.'] + seq![
                digit_char(sc_int / 10 % 10),
                digit_char(sc_int % 10),
            ]);
        }
        crate::chars::string_from_chars(v.as_slice())
    }
}

/// Integer percentage `num * 100 / den`, with the zero denominator guarded.
pub open spec fn pct_int(num: int, den: int) -> int {
    if den <= 0 {
        0
    } else {
        num * 100 / den
    }
}

/// Renders `num * 100 / den` as a whole-number string, `0` when `den` is 0.
pub fn format_pct_int(num: u64, den: u64) -> (r: String)
    ensures
        r@ == dec_rep(pct_int(num as int, den as int) as nat),
{
    if den == 0 {
        format_plain(0)
    } else {
        assert((num as int) * 100 <= 0xffff_ffff_ffff_ffffu64 * 100) by (nonlinear_arith)
            requires
                num <= 0xffff_ffff_ffff_ffffu64,
        ;
        let scaled: u128 = (num as u128) * 100 / (den as u128);
        proof {
            assert((num as int) * 100 >= 0) by (nonlinear_arith);
            assert(pct_int(num as int, den as int) >= 0);
        }
        let d = dec_chars(scaled);
        crate::chars::string_from_chars(d.as_slice())
    }
}

} // verus!
