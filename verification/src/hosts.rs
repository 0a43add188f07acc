//! Host functions of the test components: a counter resource and a
//! computation over many flat arguments.
use vstd::prelude::*;

verus! {

/// The state of a counter resource.
pub struct Counter {
    pub count: u32,
}

impl Counter {
    /// A counter at zero, as the host creates it.
    pub fn new() -> (c: Counter)
        ensures
            c.count == 0,
    {
        Counter { count: 0 }
    }

    /// Counts one more.
    pub fn increment(&mut self)
        requires
            old(self).count < u32::MAX,
        ensures
            final(self).count == old(self).count + 1,
    {
        self.count = self.count + 1;
    }
}

/// Echoes its argument.
pub fn ping(n: u32) -> (r: u32)
    ensures
        r == n,
{
    n
}

/// The sum of the first `n` arguments.
pub open spec fn sum_of(a: Seq<u32>, n: int) -> int
    decreases n,
{
    if n <= 0 { 0 } else { sum_of(a, n - 1) + a[n - 1] }
}

proof fn lemma_sum_monotone(a: Seq<u32>, m: int, n: int)
    requires
        0 <= m <= n <= a.len(),
    ensures
        sum_of(a, m) <= sum_of(a, n),
    decreases n,
{
    if m < n {
        lemma_sum_monotone(a, m, n - 1);
    }
}

/// The sum of the 17 arguments and the product of the first four, modulo 2^32.
pub fn compute(a: &[u32; 17]) -> (r: (u32, u32))
    requires
        sum_of(a@, 17) <= u32::MAX,
    ensures
        r.0 == sum_of(a@, 17),
        r.1 == (a@[0] as int * a@[1] as int * a@[2] as int * a@[3] as int) % 0x1_0000_0000,
{
    let mut sum: u32 = 0;
    for i in 0..17
        invariant
            a@.len() == 17,
            sum_of(a@, 17) <= u32::MAX,
            sum == sum_of(a@, i as int),
    {
        proof {
            lemma_sum_monotone(a@, i + 1, 17);
        }
        sum = sum + a[i];
    }
    let p01 = a[0].wrapping_mul(a[1]);
    let p012 = p01.wrapping_mul(a[2]);
    let product = p012.wrapping_mul(a[3]);
    proof {
        let (x0, x1, x2, x3) = (a@[0] as int, a@[1] as int, a@[2] as int, a@[3] as int);
        let m = 0x1_0000_0000int;
        assert(p01 == (x0 * x1) % m);
        assert(p012 == ((x0 * x1) % m * x2) % m);
        assert(product == (((x0 * x1) % m * x2) % m * x3) % m);
        vstd::arithmetic::div_mod::lemma_mul_mod_noop_left(x0 * x1, x2, m);
        vstd::arithmetic::div_mod::lemma_mul_mod_noop_left(x0 * x1 * x2, x3, m);
    }
    (sum, product)
}

} // verus!
