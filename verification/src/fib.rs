//! Small numeric utilities used as benchmark targets and as ready-made body
//! callables for the expansion engine: Fibonacci numbers (indexed so that the
//! zeroth and first are both 1) and a no-op.

use vstd::prelude::*;

verus! {

/// The Fibonacci number at `n`, with `fib(0) == fib(1) == 1`.
pub open spec fn fib(n: nat) -> nat
    decreases n,
{
    if n == 0 {
        1
    } else if n == 1 {
        1
    } else {
        fib((n - 1) as nat) + fib((n - 2) as nat)
    }
}

/// Fibonacci numbers never shrink as the index grows.
pub proof fn lemma_fib_mono(i: nat, j: nat)
    requires
        i <= j,
    ensures
        fib(i) <= fib(j),
    decreases j - i,
{
    if i < j {
        lemma_fib_mono(i, (j - 1) as nat);
    }
}

/// One step: the pair `(a, b) == (fib(k), fib(k+1))` advances to
/// `(fib(k+1), fib(k+2))`.
fn next(a: &mut u64, b: &mut u64)
    requires
        *old(a) + *old(b) <= u64::MAX,
    ensures
        *final(a) == *old(b),
        *final(b) == *old(a) + *old(b),
{
    let t: u64 = *a;
    *a = *b;
    *b = t + *b;
}

/// The Fibonacci number at `n`, iteratively.
pub fn fibonacci(n: u64) -> (r: u64)
    requires
        fib(n as nat) <= u64::MAX,
    ensures
        r as nat == fib(n as nat),
{
    if n == 0 {
        return 1;
    }
    if n == 1 {
        return 1;
    }
    let mut a: u64 = 1;
    let mut b: u64 = 1;
    let mut k: u64 = n - 1;
    while k > 0
        invariant
            0 <= k <= n - 1,
            a as nat == fib((n - 1 - k) as nat),
            b as nat == fib((n - k) as nat),
            fib(n as nat) <= u64::MAX,
        decreases k,
    {
        proof {
            lemma_fib_mono((n - k + 1) as nat, n as nat);
        }
        next(&mut a, &mut b);
        k = k - 1;
    }
    b
}

/// The Fibonacci number at `n`, via an explicit cache of the values from
/// `fib(2)` on, filled in order as the memoized recursion would fill it.
pub fn fibonacci_cache(n: u64) -> (r: u64)
    requires
        fib(n as nat) <= u64::MAX,
    ensures
        r as nat == fib(n as nat),
{
    if n == 0 {
        return 1;
    }
    if n == 1 {
        return 1;
    }
    let mut cache: Vec<u64> = Vec::new();
    let mut a: u64 = 1;
    let mut b: u64 = 1;
    let needed: u64 = n - 1;
    while (cache.len() as u64) < needed
        invariant
            n >= 2,
            needed == n - 1,
            cache@.len() <= needed,
            a as nat == fib(cache@.len() as nat),
            b as nat == fib((cache@.len() + 1) as nat),
            forall|j: int| 0 <= j < cache@.len() ==> cache@[j] as nat == fib((j + 2) as nat),
            fib(n as nat) <= u64::MAX,
        decreases needed - cache@.len(),
    {
        proof {
            lemma_fib_mono((cache@.len() + 2) as nat, n as nat);
        }
        let s: u64 = a + b;
        cache.push(s);
        a = b;
        b = s;
    }
    cache[(n - 2) as usize]
}

/// A no-op: does nothing and changes nothing.
pub fn empty_instruction() {
}

} // verus!
