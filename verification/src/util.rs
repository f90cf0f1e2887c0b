//! Capacity sizing: rounding a requested byte count up to a whole number of
//! pages, and the power-of-two test used to validate the result.

use vstd::prelude::*;
use vstd::arithmetic::div_mod::{
    lemma_fundamental_div_mod, lemma_mod_multiples_basic, lemma_small_mod,
};
use vstd::string::StringExecFns;

verus! {

/// A positive size whose binary representation has exactly one bit set.
/// `n & (n - 1)` clears the lowest set bit, so it is zero exactly for powers
/// of two.
pub open spec fn is_pow2(n: usize) -> bool {
    n > 0 && (n & ((n - 1) as usize)) == 0
}

/// The smallest positive multiple of `page_size` that is at least `n`.
pub open spec fn round_up_spec(n: int, page_size: int) -> int
    recommends
        page_size > 0,
{
    if n > 0 && n % page_size == 0 {
        n
    } else {
        (n / page_size + 1) * page_size
    }
}

/// `round_up_spec` really is a positive page multiple no smaller than `n`
/// and overshoots by less than one page.
pub proof fn lemma_round_up_properties(n: int, page_size: int)
    requires
        page_size > 0,
        n >= 0,
    ensures
        round_up_spec(n, page_size) % page_size == 0,
        round_up_spec(n, page_size) >= n,
        round_up_spec(n, page_size) > 0,
        round_up_spec(n, page_size) <= n + page_size,
        n > 0 && n % page_size == 0 ==> round_up_spec(n, page_size) == n,
{
    if n > 0 && n % page_size == 0 {
    } else {
        let q = n / page_size;
        lemma_fundamental_div_mod(n, page_size);
        assert(n == page_size * q + n % page_size);
        lemma_mod_multiples_basic(q + 1, page_size);
        assert((q + 1) * page_size == page_size * (q + 1)) by (nonlinear_arith);
        assert(page_size * (q + 1) == page_size * q + page_size) by (nonlinear_arith);
    }
}

/// Rounds `n` up to the next multiple of `page_size`; an exact positive
/// multiple is kept as-is. A request of zero still yields one whole page.
pub fn round_up_to_page_size(n: usize, page_size: usize) -> (r: usize)
    requires
        page_size > 0,
        n + page_size <= usize::MAX,
    ensures
        r == round_up_spec(n as int, page_size as int),
        r % page_size == 0,
        r >= n,
        r > 0,
        r <= n + page_size,
{
    proof {
        lemma_round_up_properties(n as int, page_size as int);
    }
    if n > 0 && n % page_size == 0 {
        n
    } else {
        (n / page_size + 1) * page_size
    }
}

/// The character for one decimal digit.
pub open spec fn digit_char(d: int) -> char
    recommends
        0 <= d < 10,
{
    if d == 0 {
        '0'
    } else if d == 1 {
        '1'
    } else if d == 2 {
        '2'
    } else if d == 3 {
        '3'
    } else if d == 4 {
        '4'
    } else if d == 5 {
        '5'
    } else if d == 6 {
        '6'
    } else if d == 7 {
        '7'
    } else if d == 8 {
        '8'
    } else {
        '9'
    }
}

/// The decimal writing of `n`, most significant digit first, with no leading
/// zero except for `n == 0` itself.
pub open spec fn decimal_digits(n: int) -> Seq<char>
    recommends
        n >= 0,
    decreases n,
{
    if n < 10 {
        seq![digit_char(n)]
    } else {
        decimal_digits(n / 10).push(digit_char(n % 10))
    }
}

/// Renders `n` in decimal.
pub fn decimal_string(n: u64) -> (r: String)
    ensures
        r@ == decimal_digits(n as int),
    decreases n,
{
    let d = n % 10;
    let ds = match d {
        0 => "0",
        1 => "1",
        2 => "2",
        3 => "3",
        4 => "4",
        5 => "5",
        6 => "6",
        7 => "7",
        8 => "8",
        _ => "9",
    };
    proof {
        reveal_strlit("0");
        reveal_strlit("1");
        reveal_strlit("2");
        reveal_strlit("3");
        reveal_strlit("4");
        reveal_strlit("5");
        reveal_strlit("6");
        reveal_strlit("7");
        reveal_strlit("8");
        reveal_strlit("9");
        assert(ds@ =~= seq![digit_char(d as int)]);
    }
    if n < 10 {
        proof {
            lemma_small_mod(n as nat, 10nat);
        }
        String::from_str(ds)
    } else {
        let mut s = decimal_string(n / 10);
        s.append(ds);
        proof {
            assert(s@ =~= decimal_digits((n / 10) as int).push(digit_char((n % 10) as int)));
        }
        s
    }
}

} // verus!
