//! Small arithmetic utilities: offsetting, the Fibonacci sequence, the
//! explicit overflow-handling operations, picking the largest element,
//! filtering by a bound, and a guarded guess value.
use vstd::prelude::*;

verus! {

/// Adds two to a number.
pub fn add_two(a: i32) -> (r: i32)
    requires
        a + 2 <= i32::MAX,
    ensures
        r == a + 2,
{
    a + 2
}

/// The Fibonacci sequence, starting 0, 1, 1, 2, ...
pub open spec fn spec_fib(n: nat) -> nat
    decreases n,
{
    if n < 2 {
        n
    } else {
        spec_fib((n - 2) as nat) + spec_fib((n - 1) as nat)
    }
}

/// The Fibonacci sequence never decreases.
pub proof fn lemma_fib_monotonic(a: nat, b: nat)
    requires
        a <= b,
    ensures
        spec_fib(a) <= spec_fib(b),
    decreases b, b - a,
{
    if a == b {
    } else if b == a + 1 {
        if b >= 2 {
            lemma_fib_monotonic((b - 2) as nat, (b - 1) as nat);
        }
    } else {
        lemma_fib_monotonic(a, (b - 1) as nat);
        lemma_fib_monotonic((b - 1) as nat, b);
    }
}

/// The nth Fibonacci number.
pub fn fib(n: u32) -> (r: u32)
    requires
        spec_fib(n as nat) <= u32::MAX,
    ensures
        r == spec_fib(n as nat),
    decreases n,
{
    if n < 2 {
        n
    } else {
        proof {
            lemma_fib_monotonic((n - 2) as nat, n as nat);
            lemma_fib_monotonic((n - 1) as nat, n as nat);
        }
        fib(n - 2) + fib(n - 1)
    }
}

/// Relies on u8::overflowing_add: the wrapped sum, together with a flag
/// that tells whether an arithmetic overflow occurred.
pub assume_specification[ u8::overflowing_add ](x: u8, y: u8) -> (r: (u8, bool))
    ensures
        r.0 == (x + y) % 256,
        r.1 == (x + y > 255),
;

/// The four explicit ways to add one to a byte that may already be at its
/// maximum: wrapping, checked, overflowing, and saturating.
pub fn explicit_integer_overflow(x: u8) -> (r: (u8, Option<u8>, (u8, bool), u8))
    ensures
        x < 255 ==> r.0 == x + 1,
        x == 255 ==> r.0 == 0,
        x < 255 ==> r.1 == Some((x + 1) as u8),
        x == 255 ==> r.1 is None,
        x < 255 ==> r.2 == ((x + 1) as u8, false),
        x == 255 ==> r.2 == (0u8, true),
        x < 255 ==> r.3 == x + 1,
        x == 255 ==> r.3 == 255,
{
    let wrapped = x.wrapping_add(1);
    let checked = x.checked_add(1);
    let overflowed = x.overflowing_add(1);
    let saturated = x.saturating_add(1);
    (wrapped, checked, overflowed, saturated)
}

/// The largest element of a non-empty slice; of equals, the first.
pub fn largest(items: &[i64]) -> (r: i64)
    requires
        items@.len() > 0,
    ensures
        items@.contains(r),
        forall|k: int| 0 <= k < items@.len() ==> items@[k] <= r,
{
    let mut r = items[0];
    let n = items.len();
    let mut i: usize = 1;
    while i < n
        invariant
            1 <= i <= n,
            n == items@.len(),
            items@.contains(r),
            forall|k: int| 0 <= k < i ==> items@[k] <= r,
        decreases n - i,
    {
        if items[i] > r {
            r = items[i];
        }
        i = i + 1;
    }
    r
}

/// Filtering one more element keeps it exactly when it is above the bound.
proof fn lemma_greater_filter_push(s: Seq<i64>, bound: i64, x: i64)
    ensures
        s.push(x).filter(|v: i64| v > bound) == if x > bound {
            s.filter(|v: i64| v > bound).push(x)
        } else {
            s.filter(|v: i64| v > bound)
        },
{
    reveal(Seq::filter);
    assert(s.push(x).drop_last() =~= s);
    assert(s.push(x).last() == x);
}

/// The elements strictly greater than `item`, in order.
pub fn is_greater_than(items: Vec<i64>, item: i64) -> (r: Vec<i64>)
    ensures
        r@ == items@.filter(|v: i64| v > item),
{
    let mut r: Vec<i64> = Vec::new();
    let n = items.len();
    proof {
        reveal(Seq::filter);
        assert(items@.subrange(0, 0) =~= Seq::<i64>::empty());
    }
    let mut i: usize = 0;
    while i < n
        invariant
            0 <= i <= n,
            n == items@.len(),
            r@ == items@.subrange(0, i as int).filter(|v: i64| v > item),
        decreases n - i,
    {
        let x = items[i];
        if x > item {
            r.push(x);
        }
        proof {
            lemma_greater_filter_push(items@.subrange(0, i as int), item, x);
            assert(items@.subrange(0, i as int).push(x) =~= items@.subrange(0, i + 1));
        }
        i = i + 1;
    }
    proof {
        assert(items@.subrange(0, n as int) =~= items@);
    }
    r
}

/// A guessing-game guess, guarded to lie between 1 and 100.
#[derive(Debug)]
pub struct Guess {
    value: i32,
}

impl Guess {
    /// The guarded value.
    pub closed spec fn spec_value(&self) -> int {
        self.value as int
    }

    /// Wraps a value that lies within the guarded range.
    pub fn new(value: i32) -> (g: Guess)
        requires
            1 <= value <= 100,
        ensures
            g.spec_value() == value,
    {
        Guess { value }
    }

    /// The value inside the guard.
    pub fn value(&self) -> (v: i32)
        ensures
            v == self.spec_value(),
    {
        self.value
    }
}

/// How a guess compares against the secret number.
#[derive(Clone, Copy, Debug, PartialEq, Eq, Structural)]
pub enum GuessOutcome {
    /// The guess is below the secret.
    TooSmall,
    /// The guess is above the secret.
    TooBig,
    /// The guess hits the secret.
    Win,
}

/// Judges one guess against the secret number.
pub fn compare_guess(guess: u32, secret: u32) -> (r: GuessOutcome)
    ensures
        guess < secret ==> r == GuessOutcome::TooSmall,
        guess > secret ==> r == GuessOutcome::TooBig,
        guess == secret ==> r == GuessOutcome::Win,
{
    if guess < secret {
        GuessOutcome::TooSmall
    } else if guess > secret {
        GuessOutcome::TooBig
    } else {
        GuessOutcome::Win
    }
}

} // verus!
