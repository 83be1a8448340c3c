//! Fixed-point decimal arithmetic and text for values held in billionths.
use vstd::prelude::*;

verus! {

/// Billionths per unit: the scale of every fixed-point value of the library.
pub const SCALE: u64 = 1_000_000_000;

/// The decimal digit character for `d < 10`.
pub open spec fn digit_char(d: nat) -> char {
    if d == 0 { '0' }
    else if d == 1 { '1' }
    else if d == 2 { '2' }
    else if d == 3 { '3' }
    else if d == 4 { '4' }
    else if d == 5 { '5' }
    else if d == 6 { '6' }
    else if d == 7 { '7' }
    else if d == 8 { '8' }
    else { '9' }
}

/// The shortest decimal notation of `n` (`"0"` for zero).
pub open spec fn digits(n: nat) -> Seq<char>
    decreases n,
{
    if n < 10 {
        seq![digit_char(n)]
    } else {
        digits(n / 10) + seq![digit_char(n % 10)]
    }
}

/// The last `k` decimal digits of `n`, with leading zeros.
pub open spec fn padded_digits(n: nat, k: nat) -> Seq<char>
    decreases k,
{
    if k == 0 {
        Seq::empty()
    } else {
        padded_digits(n / 10, (k - 1) as nat) + seq![digit_char(n % 10)]
    }
}

/// The `k` fraction digits of `f` with the trailing zeros dropped.
pub open spec fn trimmed_digits(f: nat, k: nat) -> Seq<char>
    decreases k,
{
    if k > 0 && f % 10 == 0 {
        trimmed_digits(f / 10, (k - 1) as nat)
    } else {
        padded_digits(f, k)
    }
}

pub open spec fn abs(v: int) -> nat {
    if v < 0 { (-v) as nat } else { v as nat }
}

pub open spec fn sign_text(v: int) -> Seq<char> {
    if v < 0 { seq!['-'] } else { Seq::empty() }
}

/// `v` billionths written with exactly nine fraction digits (`1.500000000`).
#[verifier::opaque]
pub open spec fn fixed9_text(v: int) -> Seq<char> {
    sign_text(v) + digits(abs(v) / SCALE as nat) + seq!['.'] + padded_digits(
        abs(v) % SCALE as nat,
        9,
    )
}

/// `v` billionths in shortest form: no fraction part when it is whole
/// (`0`, `2`), else without trailing zeros (`0.1`, `-1.25`).
#[verifier::opaque]
pub open spec fn plain_text(v: int) -> Seq<char> {
    let f = abs(v) % SCALE as nat;
    sign_text(v) + digits(abs(v) / SCALE as nat) + if f == 0 {
        Seq::empty()
    } else {
        seq!['.'] + trimmed_digits(f, 9)
    }
}

/// `n / d` rounded to the nearest integer, ties to the even neighbour.
pub open spec fn round_half_even(n: nat, d: nat) -> nat
    recommends
        d > 0,
{
    let q = n / d;
    let r = n % d;
    if 2 * r > d {
        q + 1
    } else if 2 * r < d {
        q
    } else if q % 2 == 0 {
        q
    } else {
        q + 1
    }
}

/// `n / d` rounded to the nearest integer, ties to even, symmetric in sign.
pub open spec fn round_ratio(n: int, d: nat) -> int
    recommends
        d > 0,
{
    if n < 0 {
        -(round_half_even((-n) as nat, d) as int)
    } else {
        round_half_even(n as nat, d) as int
    }
}

/// Rounding a value that already lies on the grid leaves it unchanged.
pub proof fn lemma_round_exact(k: int, d: nat)
    requires
        d > 0,
    ensures
        round_ratio(k * d, d) == k,
{
    let a = abs(k);
    assert((a * d) / d == a && (a * d) % d == 0) by {
        vstd::arithmetic::div_mod::lemma_fundamental_div_mod_converse(
            (a * d) as int,
            d as int,
            a as int,
            0,
        );
    }
    if k < 0 {
        assert(-(k * d) == a * d) by (nonlinear_arith)
            requires
                a == -k,
        ;
        assert(k * d < 0 || k * d == 0) by (nonlinear_arith)
            requires
                k < 0,
                d > 0,
        ;
        assert(k * d != 0) by (nonlinear_arith)
            requires
                k < 0,
                d > 0,
        ;
    } else {
        assert(k * d >= 0) by (nonlinear_arith)
            requires
                k >= 0,
                d > 0,
        ;
    }
}

/// Rounds `q + r / d` to an integer, ties to even, given the quotient and
/// remainder of a division by `d`.
pub fn round_from_parts(q: u128, r: u128, d: u128) -> (res: u128)
    requires
        r < d,
        q < u128::MAX,
        d <= u128::MAX / 2,
    ensures
        res == round_half_even((q * d + r) as nat, d as nat),
{
    proof {
        vstd::arithmetic::div_mod::lemma_fundamental_div_mod_converse(
            (q * d + r) as int,
            d as int,
            q as int,
            r as int,
        );
    }
    if 2 * r > d {
        q + 1
    } else if 2 * r < d {
        q
    } else if q % 2 == 0 {
        q
    } else {
        q + 1
    }
}

/// Appends the digit character of `d`.
fn push_digit(out: &mut String, d: u64)
    requires
        d < 10,
    ensures
        final(out)@ == old(out)@ + seq![digit_char(d as nat)],
{
    let s: &str = if d == 0 {
        "0"
    } else if d == 1 {
        "1"
    } else if d == 2 {
        "2"
    } else if d == 3 {
        "3"
    } else if d == 4 {
        "4"
    } else if d == 5 {
        "5"
    } else if d == 6 {
        "6"
    } else if d == 7 {
        "7"
    } else if d == 8 {
        "8"
    } else {
        "9"
    };
    proof {
        reveal_strlit("0");
        reveal_strlit("1");
        reveal_strlit("2");
        reveal_strlit("3");
        reveal_strlit("4");
        reveal_strlit("5");
        reveal_strlit("6");
        reveal_strlit("7");
        reveal_strlit("8");
        reveal_strlit("9");
        assert(s@ =~= seq![digit_char(d as nat)]);
    }
    out.append(s);
}

/// Appends the shortest decimal notation of `n`.
pub fn push_digits(out: &mut String, n: u64)
    ensures
        final(out)@ == old(out)@ + digits(n as nat),
    decreases n,
{
    if n >= 10 {
        push_digits(out, n / 10);
        push_digit(out, n % 10);
        assert(final(out)@ =~= old(out)@ + digits(n as nat));
    } else {
        push_digit(out, n);
    }
}

/// Appends the last `k` decimal digits of `n`, with leading zeros.
pub fn push_padded_digits(out: &mut String, n: u64, k: u64)
    ensures
        final(out)@ == old(out)@ + padded_digits(n as nat, k as nat),
    decreases k,
{
    if k > 0 {
        push_padded_digits(out, n / 10, k - 1);
        push_digit(out, n % 10);
        assert(final(out)@ =~= old(out)@ + padded_digits(n as nat, k as nat));
    } else {
        assert(final(out)@ =~= old(out)@ + padded_digits(n as nat, k as nat));
    }
}

/// Appends the `k` fraction digits of `f` with the trailing zeros dropped.
pub fn push_trimmed_digits(out: &mut String, f: u64, k: u64)
    ensures
        final(out)@ == old(out)@ + trimmed_digits(f as nat, k as nat),
    decreases k,
{
    if k > 0 && f % 10 == 0 {
        push_trimmed_digits(out, f / 10, k - 1);
    } else {
        push_padded_digits(out, f, k);
    }
}

fn push_sign(out: &mut String, v: i64)
    ensures
        final(out)@ == old(out)@ + sign_text(v as int),
{
    if v < 0 {
        proof {
            reveal_strlit("-");
        }
        out.append("-");
    } else {
        assert(old(out)@ + sign_text(v as int) =~= old(out)@);
    }
}

fn abs_u64(v: i64) -> (r: u64)
    ensures
        r as nat == abs(v as int),
{
    if v < 0 {
        if v == i64::MIN {
            9_223_372_036_854_775_808u64
        } else {
            (-v) as u64
        }
    } else {
        v as u64
    }
}

/// Appends `v` billionths with exactly nine fraction digits.
pub fn push_fixed9(out: &mut String, v: i64)
    ensures
        final(out)@ == old(out)@ + fixed9_text(v as int),
{
    reveal(fixed9_text);
    let a = abs_u64(v);
    push_sign(out, v);
    push_digits(out, a / SCALE);
    proof {
        reveal_strlit(".");
    }
    out.append(".");
    push_padded_digits(out, a % SCALE, 9);
    assert(final(out)@ =~= old(out)@ + fixed9_text(v as int));
}

/// Appends `v` billionths in shortest form.
pub fn push_plain(out: &mut String, v: i64)
    ensures
        final(out)@ == old(out)@ + plain_text(v as int),
{
    reveal(plain_text);
    let a = abs_u64(v);
    push_sign(out, v);
    push_digits(out, a / SCALE);
    let f = a % SCALE;
    if f != 0 {
        proof {
            reveal_strlit(".");
        }
        out.append(".");
        push_trimmed_digits(out, f, 9);
    }
    assert(final(out)@ =~= old(out)@ + plain_text(v as int));
}

} // verus!
