//! Numeric and text utilities: factorial, primality, addition, and greeting.

use vstd::prelude::*;
use vstd::string::*;

verus! {

broadcast use vstd::string::group_string_axioms;

/// The factorial of `n`: the product of the integers `1..=n`, with the
/// empty product (`n == 0`) equal to 1.
pub open spec fn fact(n: nat) -> nat
    decreases n,
{
    if n <= 1 {
        1
    } else {
        n * fact((n - 1) as nat)
    }
}

/// Calculate the factorial of a number.
///
/// The result overflows a `u64` for any `n > 20`, so such inputs are
/// excluded by contract rather than wrapped or saturated.
pub fn factorial(n: u64) -> (r: u64)
    requires
        n <= 20,
    ensures
        r == fact(n as nat),
    decreases n,
{
    if n <= 1 {
        1
    } else {
        proof {
            lemma_fact_monotonic(n as nat, 20);
            lemma_fact_20_value();
        }
        n * factorial(n - 1)
    }
}

/// The largest factorial that fits in a `u64`, computed step by step.
proof fn lemma_fact_20_value()
    ensures
        fact(20) == 2432902008176640000,
{
    assert(fact(0) == 1);
    assert(fact(1) == 1);
    assert(fact(2) == 2);
    assert(fact(3) == 6);
    assert(fact(4) == 24);
    assert(fact(5) == 120);
    assert(fact(6) == 720);
    assert(fact(7) == 5040);
    assert(fact(8) == 40320);
    assert(fact(9) == 362880);
    assert(fact(10) == 3628800);
    assert(fact(11) == 39916800);
    assert(fact(12) == 479001600);
    assert(fact(13) == 6227020800);
    assert(fact(14) == 87178291200);
    assert(fact(15) == 1307674368000);
    assert(fact(16) == 20922789888000);
    assert(fact(17) == 355687428096000);
    assert(fact(18) == 6402373705728000);
    assert(fact(19) == 121645100408832000);
    assert(fact(20) == 2432902008176640000);
}

/// Factorial grows monotonically: `a <= b` implies `fact(a) <= fact(b)`.
proof fn lemma_fact_monotonic(a: nat, b: nat)
    requires
        a <= b,
    ensures
        fact(a) <= fact(b),
    decreases b,
{
    if a < b {
        if b == 1 {
            assert(fact(a) == 1);
        } else {
            lemma_fact_monotonic(a, (b - 1) as nat);
            assert(fact(b) == b * fact((b - 1) as nat));
            assert(fact((b - 1) as nat) <= b * fact((b - 1) as nat))
                by (nonlinear_arith)
                requires b >= 2 && fact((b - 1) as nat) >= 0;
        }
    }
}

/// A number is prime when it is at least 2 and no integer strictly
/// between 1 and itself divides it.
pub open spec fn is_prime_spec(n: int) -> bool {
    n >= 2 && forall|d: int| 2 <= d < n ==> #[trigger] (n % d) != 0
}

/// For a positive candidate divisor `i`, comparing `i` against `n / i`
/// is the integer-square-root bound check: `i <= n / i` holds exactly
/// when `i * i <= n`.
proof fn lemma_sqrt_check(n: int, i: int)
    requires
        n >= 0,
        i >= 1,
    ensures
        (i <= n / i) <==> (i * i <= n),
{
    vstd::arithmetic::div_mod::lemma_fundamental_div_mod(n, i);
    assert((i <= n / i) <==> (i * i <= n)) by (nonlinear_arith)
        requires n == i * (n / i) + n % i && 0 <= n % i < i && i >= 1;
}

/// An even divisor forces an even dividend.
proof fn lemma_even_divisor_even(n: int, d: int)
    requires
        n >= 0,
        d >= 2,
        d % 2 == 0,
        n % d == 0,
    ensures
        n % 2 == 0,
{
    vstd::arithmetic::div_mod::lemma_fundamental_div_mod(n, d);
    vstd::arithmetic::div_mod::lemma_fundamental_div_mod(d, 2);
    assert(n == 2 * ((d / 2) * (n / d))) by (nonlinear_arith)
        requires n == d * (n / d) && d == 2 * (d / 2);
    vstd::arithmetic::div_mod::lemma_mod_multiples_basic((d / 2) * (n / d), 2);
}

/// If nothing below `i` divides `n` and `i` is past the integer square
/// root of `n`, then nothing below `n` divides `n`: a nontrivial
/// factorisation always has one factor at most the square root.
proof fn lemma_no_small_divisor(n: int, i: int)
    requires
        n >= 2,
        i >= 2,
        i * i > n,
        forall|d: int| 2 <= d < i ==> #[trigger] (n % d) != 0,
    ensures
        forall|d: int| 2 <= d < n ==> #[trigger] (n % d) != 0,
{
    assert forall|d: int| 2 <= d < n implies #[trigger] (n % d) != 0 by {
        if n % d == 0 && d >= i {
            vstd::arithmetic::div_mod::lemma_fundamental_div_mod(n, d);
            let e = n / d;
            assert(n == d * e);
            assert(e >= 1) by (nonlinear_arith)
                requires n == d * e && n >= 2 && d >= 2;
            assert(e != 1) by (nonlinear_arith)
                requires n == d * e && d < n;
            assert(e < i) by (nonlinear_arith)
                requires n == d * e && d >= i && i * i > n && e >= 1 && i >= 2;
            vstd::arithmetic::div_mod::lemma_mod_multiples_basic(d, e);
            assert(n % e == 0);  // contradicts the hypothesis at divisor e
            assert(false);
        }
    };
}

/// Check whether a number is prime, by trial division of odd candidates
/// up to the integer square root.
pub fn is_prime(n: u64) -> (r: bool)
    ensures
        r == is_prime_spec(n as int),
{
    if n < 2 {
        return false;
    }
    if n == 2 {
        return true;
    }
    if n % 2 == 0 {
        proof {
            assert((n as int) % 2 == 0);
        }
        return false;
    }
    let mut i: u64 = 3;
    while i <= n / i
        invariant
            n >= 3,
            (n as int) % 2 != 0,
            3 <= i,
            i % 2 == 1,
            forall|d: int| 2 <= d < i ==> #[trigger] ((n as int) % d) != 0,
        decreases n - i,
    {
        proof {
            lemma_sqrt_check(n as int, i as int);
            assert(3 * (i as int) <= (i as int) * (i as int)) by (nonlinear_arith)
                requires i >= 3;
        }
        if n % i == 0 {
            proof {
                assert((i as int) < (i as int) * (i as int)) by (nonlinear_arith)
                    requires i >= 2;
            }
            return false;
        }
        proof {
            assert forall|d: int| 2 <= d < i + 2 implies #[trigger] ((n as int) % d) != 0 by {
                if d == i + 1 && (n as int) % d == 0 {
                    lemma_even_divisor_even(n as int, d);
                    assert(false);
                }
            };
        }
        i += 2;
    }
    proof {
        lemma_sqrt_check(n as int, i as int);
        lemma_no_small_divisor(n as int, i as int);
    }
    true
}

/// Add two numbers. Sums outside the `i32` range are excluded by
/// contract rather than wrapped.
pub fn add(a: i32, b: i32) -> (r: i32)
    requires
        i32::MIN <= a + b <= i32::MAX,
    ensures
        r == a + b,
{
    a + b
}

/// Greet a user by name.
pub fn greet(name: &str) -> (r: String)
    ensures
        r@ == "Hello, "@ + name@ + "!"@,
{
    let mut s = "Hello, ".to_owned();
    s.append(name);
    s.append("!");
    s
}

/// The Unicode uppercase mapping of a sequence of characters, as
/// `str::to_uppercase` computes it.
pub uninterp spec fn upper_of(s: Seq<char>) -> Seq<char>;

/// Convert a string to uppercase.
///
/// Relies on `str::to_uppercase`: the result is the Unicode uppercase
/// mapping of the input, a function of the characters alone, and an
/// empty input stays empty.
#[verifier::external_body]
pub fn to_uppercase(input: &str) -> (r: String)
    ensures
        r@ == upper_of(input@),
        input@.len() == 0 ==> r@.len() == 0,
{
    input.to_uppercase()
}

#[verifier::external_type_specification]
#[verifier::external_body]
pub struct ExValue(serde_json::Value);

#[verifier::external_type_specification]
#[verifier::external_body]
pub struct ExError(serde_json::Error);

/// Parse a JSON string into a generic structured value.
///
/// Relies on `serde_json::from_str`: well-formed JSON text parses into
/// a `serde_json::Value`, and malformed text (for example a truncated
/// object) is reported as an error.
#[verifier::external_body]
pub fn parse_json(json_str: &str) -> Result<serde_json::Value, serde_json::Error> {
    serde_json::from_str(json_str)
}

} // verus!
