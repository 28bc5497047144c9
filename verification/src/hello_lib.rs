//! A greeting and a few small number utilities: Fibonacci numbers and primes.

use vstd::prelude::*;
use vstd::string::StringExecFns;

verus! {

/// The text that `generate_greeting` puts around a name.
pub open spec fn greeting_text(name: Seq<char>) -> Seq<char> {
    "Hello, "@ + name + "! Welcome to Ferric Continuum (Rust Edition)"@
}

/// Greets `name`.
pub fn generate_greeting(name: &str) -> (greeting: String)
    ensures
        greeting@ == greeting_text(name@),
{
    let mut greeting = String::from_str("Hello, ");
    greeting.append(name);
    greeting.append("! Welcome to Ferric Continuum (Rust Edition)");
    greeting
}

/// The Fibonacci numbers: 0, 1, and from there on the sum of the two before.
pub open spec fn fibonacci_number(n: nat) -> nat
    decreases n,
{
    if n < 2 {
        n
    } else {
        fibonacci_number((n - 1) as nat) + fibonacci_number((n - 2) as nat)
    }
}

/// The index of the largest Fibonacci number that a `u64` holds.
pub const MAX_FIBONACCI_INDEX: u32 = 93;

/// The Fibonacci numbers never decrease.
pub proof fn lemma_fibonacci_monotonic(i: nat, j: nat)
    requires
        i <= j,
    ensures
        fibonacci_number(i) <= fibonacci_number(j),
    decreases j,
{
    if i < j {
        lemma_fibonacci_monotonic(i, (j - 1) as nat);
    }
}

// Eight steps along the sequence at once.
proof fn lemma_fibonacci_skip(n: nat)
    ensures
        fibonacci_number(n + 8) == 13 * fibonacci_number(n) + 21 * fibonacci_number(n + 1),
        fibonacci_number(n + 9) == 21 * fibonacci_number(n) + 34 * fibonacci_number(n + 1),
{
    reveal_with_fuel(fibonacci_number, 10);
}

/// A Fibonacci number fits in a `u64` exactly up to `MAX_FIBONACCI_INDEX`.
pub proof fn lemma_fibonacci_fits(n: nat)
    ensures
        n <= MAX_FIBONACCI_INDEX <==> fibonacci_number(n) <= u64::MAX,
{
    assert(fibonacci_number(5) == 5 && fibonacci_number(6) == 8) by {
        reveal_with_fuel(fibonacci_number, 7);
    }
    lemma_fibonacci_skip(5);
    lemma_fibonacci_skip(13);
    lemma_fibonacci_skip(21);
    lemma_fibonacci_skip(29);
    lemma_fibonacci_skip(37);
    lemma_fibonacci_skip(45);
    lemma_fibonacci_skip(53);
    lemma_fibonacci_skip(61);
    lemma_fibonacci_skip(69);
    lemma_fibonacci_skip(77);
    lemma_fibonacci_skip(85);
    if n <= 93 {
        lemma_fibonacci_monotonic(n, 93);
    } else {
        lemma_fibonacci_monotonic(94, n);
    }
}

/// Computes the `n`th Fibonacci number by summing its way up from the first two.
pub fn fibonacci(n: u32) -> (value: u64)
    requires
        n <= MAX_FIBONACCI_INDEX,
    ensures
        value == fibonacci_number(n as nat),
{
    if n == 0 {
        return 0;
    }
    let mut previous: u64 = 0;
    let mut current: u64 = 1;
    let mut index: u32 = 1;
    while index < n
        invariant
            1 <= index <= n <= MAX_FIBONACCI_INDEX,
            previous == fibonacci_number((index - 1) as nat),
            current == fibonacci_number(index as nat),
        decreases n - index,
    {
        proof {
            lemma_fibonacci_fits((index + 1) as nat);
        }
        let sum: u64 = previous + current;
        previous = current;
        current = sum;
        index = index + 1;
    }
    current
}

/// `d` divides `n`.
pub open spec fn divides(d: nat, n: nat) -> bool {
    d > 0 && n % d == 0
}

/// `n` is at least 2 and nothing between 1 and `n` divides it.
pub open spec fn is_prime_number(n: nat) -> bool {
    n >= 2 && forall|d: nat| 2 <= d < n ==> !#[trigger] divides(d, n)
}

// An even number divides no odd one.
proof fn lemma_even_divisor(d: nat, n: nat)
    requires
        divides(d, n),
        d % 2 == 0,
    ensures
        n % 2 == 0,
{
    let half = d / 2;
    let times = n / d;
    assert(n == d * times) by {
        vstd::arithmetic::div_mod::lemma_fundamental_div_mod(n as int, d as int);
    }
    assert(d * times == 2 * (half * times)) by (nonlinear_arith)
        requires
            d == 2 * half,
    ;
}

// A number with a divisor below itself also has one whose square does not exceed it.
proof fn lemma_small_cofactor(d: nat, n: nat, bound: nat)
    requires
        divides(d, n),
        bound <= d < n,
        bound * bound > n,
    ensures
        divides(n / d, n),
        2 <= n / d < bound,
{
    let times = n / d;
    assert(n == d * times) by {
        vstd::arithmetic::div_mod::lemma_fundamental_div_mod(n as int, d as int);
    }
    assert(times >= 2) by (nonlinear_arith)
        requires
            n == d * times,
            0 < d < n,
    ;
    assert(times < bound) by (nonlinear_arith)
        requires
            n == d * times,
            bound <= d,
            bound * bound > n,
    ;
    assert(n % times == 0) by {
        vstd::arithmetic::div_mod::lemma_mod_multiples_basic(d as int, times as int);
    }
}

/// Decides primality by trial division: by 2, then by the odd numbers whose square
/// does not exceed `n`.
pub fn is_prime(n: u64) -> (prime: bool)
    ensures
        prime == is_prime_number(n as nat),
{
    if n < 2 {
        return false;
    }
    if n == 2 {
        return true;
    }
    if n % 2 == 0 {
        assert(divides(2, n as nat));
        return false;
    }
    let mut candidate: u64 = 3;
    while candidate <= n / candidate
        invariant
            3 <= candidate,
            candidate % 2 == 1,
            n % 2 == 1,
            forall|d: nat| 2 <= d < candidate ==> !#[trigger] divides(d, n as nat),
        decreases n - candidate,
    {
        if n % candidate == 0 {
            assert(candidate < n) by (nonlinear_arith)
                requires
                    3 <= candidate <= n / candidate,
            ;
            assert(divides(candidate as nat, n as nat));
            return false;
        }
        proof {
            assert(!divides((candidate + 1) as nat, n as nat)) by {
                if divides((candidate + 1) as nat, n as nat) {
                    lemma_even_divisor((candidate + 1) as nat, n as nat);
                }
            }
            assert(candidate + 2 <= n) by (nonlinear_arith)
                requires
                    3 <= candidate <= n / candidate,
            ;
        }
        candidate = candidate + 2;
    }
    proof {
        let bound = candidate as nat;
        assert(bound * bound > n) by (nonlinear_arith)
            requires
                bound > 0,
                bound > (n as nat) / bound,
        ;
        assert forall|d: nat| 2 <= d < n implies !#[trigger] divides(d, n as nat) by {
            if d >= bound && divides(d, n as nat) {
                lemma_small_cofactor(d, n as nat, bound);
            }
        }
    }
    true
}

/// The primes up to and including `n`, in ascending order.
pub fn primes_up_to(n: u64) -> (primes: Vec<u64>)
    ensures
        forall|i: int, j: int| 0 <= i < j < primes.len() ==> primes[i] < primes[j],
        forall|p: u64|
            #![trigger primes@.contains(p)]
            #![trigger is_prime_number(p as nat)]
            primes@.contains(p) <==> p <= n && is_prime_number(p as nat),
{
    let mut primes: Vec<u64> = Vec::new();
    let mut reached: u64 = 1;
    while reached < n
        invariant
            reached <= n || reached == 1,
            forall|i: int| 0 <= i < primes.len() ==> primes[i] <= reached,
            forall|i: int, j: int| 0 <= i < j < primes.len() ==> primes[i] < primes[j],
            forall|p: u64|
                #![trigger primes@.contains(p)]
                #![trigger is_prime_number(p as nat)]
                primes@.contains(p) <==> p <= reached && is_prime_number(p as nat),
        decreases n - reached,
    {
        reached = reached + 1;
        if is_prime(reached) {
            let ghost before = primes@;
            primes.push(reached);
            assert forall|p: u64|
                #![trigger primes@.contains(p)]
                #![trigger is_prime_number(p as nat)]
                primes@.contains(p) <==> p <= reached && is_prime_number(p as nat) by {
                if before.contains(p) {
                    let k = choose|k: int| 0 <= k < before.len() && before[k] == p;
                    assert(primes@[k] == p);
                }
                if p == reached {
                    assert(primes@[before.len() as int] == p);
                }
            }
        }
    }
    primes
}

} // verus!
