//! Fibonacci numbers over 32-bit integers with overflow detection.

use vstd::prelude::*;

verus! {

/// The Fibonacci sequence.
pub open spec fn fib(n: nat) -> nat
    decreases n,
{
    if n == 0 {
        0
    } else if n == 1 {
        1
    } else {
        fib((n - 2) as nat) + fib((n - 1) as nat)
    }
}

/// The Fibonacci sequence never decreases.
pub proof fn lemma_fib_monotonic(i: nat, j: nat)
    requires
        i <= j,
    ensures
        fib(i) <= fib(j),
    decreases j,
{
    if i < j && j >= 2 {
        lemma_fib_monotonic(i, (j - 1) as nat);
    }
}

/// The `n`th Fibonacci number, or `None` exactly when it does not fit in 32
/// bits.
pub fn fibo(n: u32) -> (r: Option<u32>)
    ensures
        fib(n as nat) <= u32::MAX <==> r is Some,
        r matches Some(v) ==> v == fib(n as nat),
{
    if n == 0 {
        return Some(0);
    }
    if n == 1 {
        return Some(1);
    }
    let mut prev: u32 = 0;
    let mut cur: u32 = 1;
    let mut i: u32 = 1;
    while i < n
        invariant
            1 <= i <= n,
            prev == fib((i - 1) as nat),
            cur == fib(i as nat),
        decreases n - i,
    {
        match cur.checked_add(prev) {
            Some(next) => {
                prev = cur;
                cur = next;
                i = i + 1;
            },
            None => {
                proof {
                    lemma_fib_monotonic((i + 1) as nat, n as nat);
                }
                return None;
            },
        }
    }
    Some(cur)
}

} // verus!
