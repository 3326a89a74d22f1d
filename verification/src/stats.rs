//! Statistics over a list of numbers: sorting, the median, and the mode.
use vstd::prelude::*;
use vstd::seq_lib::lemma_multiset_commutative;

verus! {

/// How many times `x` occurs in `s`.
pub open spec fn count_of<A>(s: Seq<A>, x: A) -> nat
    decreases s.len(),
{
    if s.len() == 0 {
        0
    } else {
        count_of(s.drop_last(), x) + if s.last() == x {
            1nat
        } else {
            0nat
        }
    }
}

/// A value occurs in a sequence exactly when its count is positive, and no
/// count exceeds the sequence's length.
pub proof fn lemma_count_of_bounds<A>(s: Seq<A>, x: A)
    ensures
        count_of(s, x) <= s.len(),
        s.contains(x) <==> count_of(s, x) > 0,
    decreases s.len(),
{
    if s.len() == 0 {
    } else {
        lemma_count_of_bounds(s.drop_last(), x);
        if s.contains(x) && s.last() != x {
            let i = choose|i: int| 0 <= i < s.len() && s[i] == x;
            assert(s.drop_last()[i] == x);
        }
        if s.drop_last().contains(x) {
            let i = choose|i: int| 0 <= i < s.drop_last().len() && s.drop_last()[i] == x;
            assert(s[i] == x);
        }
    }
}

/// Counting a prefix one longer adds one exactly when the new element is the
/// counted value.
pub proof fn lemma_count_of_prefix_step<A>(s: Seq<A>, i: int, x: A)
    requires
        0 <= i < s.len(),
    ensures
        count_of(s.subrange(0, i + 1), x) == count_of(s.subrange(0, i), x) + if s[i] == x {
            1int
        } else {
            0int
        },
{
    assert(s.subrange(0, i + 1).drop_last() =~= s.subrange(0, i));
    assert(s.subrange(0, i + 1).last() == s[i]);
}

/// Counts how many elements of `values` equal `x`.
pub fn count_occurrences(values: &Vec<u64>, x: u64) -> (c: usize)
    ensures
        c == count_of(values@, x),
{
    let mut c: usize = 0;
    let n = values.len();
    proof {
        assert(values@.subrange(0, 0) =~= Seq::<u64>::empty());
    }
    let mut i: usize = 0;
    while i < n
        invariant
            0 <= i <= n,
            n == values@.len(),
            c <= i,
            c == count_of(values@.subrange(0, i as int), x),
        decreases n - i,
    {
        proof {
            lemma_count_of_prefix_step(values@, i as int, x);
            lemma_count_of_bounds(values@.subrange(0, i as int), x);
        }
        if values[i] == x {
            c = c + 1;
        }
        i = i + 1;
    }
    proof {
        assert(values@.subrange(0, n as int) =~= values@);
    }
    c
}

/// Whether a sequence is in nondecreasing order.
pub open spec fn sorted(s: Seq<u64>) -> bool {
    forall|i: int, j: int| 0 <= i < j < s.len() ==> s[i] <= s[j]
}

/// Inserting an element anywhere adds it to the sequence's multiset.
proof fn lemma_insert_to_multiset(s: Seq<u64>, i: int, a: u64)
    requires
        0 <= i <= s.len(),
    ensures
        s.insert(i, a).to_multiset() == s.to_multiset().insert(a),
{
    broadcast use vstd::seq_lib::group_to_multiset_ensures;

    let front = s.subrange(0, i);
    let back = s.subrange(i, s.len() as int);
    lemma_multiset_commutative(front.push(a), back);
    lemma_multiset_commutative(front, back);
    assert(s =~= front + back);
    assert(front.push(a).to_multiset() =~= front.to_multiset().insert(a));
    assert(front.to_multiset().insert(a).add(back.to_multiset()) =~= front.to_multiset().add(
        back.to_multiset(),
    ).insert(a));
}

/// Returns the elements of `values` in nondecreasing order.
pub fn sort_u64(values: &Vec<u64>) -> (r: Vec<u64>)
    ensures
        sorted(r@),
        r@.to_multiset() == values@.to_multiset(),
        r@.len() == values@.len(),
{
    broadcast use vstd::seq_lib::group_to_multiset_ensures;

    let mut r: Vec<u64> = Vec::new();
    let n = values.len();
    proof {
        assert(values@.subrange(0, 0) =~= Seq::<u64>::empty());
        assert(Seq::<u64>::empty().to_multiset() =~= values@.subrange(0, 0).to_multiset());
    }
    let mut i: usize = 0;
    while i < n
        invariant
            0 <= i <= n,
            n == values@.len(),
            r@.len() == i,
            sorted(r@),
            r@.to_multiset() == values@.subrange(0, i as int).to_multiset(),
        decreases n - i,
    {
        let x = values[i];
        let mut pos: usize = 0;
        while pos < r.len() && r[pos] <= x
            invariant
                0 <= pos <= r@.len(),
                forall|k: int| 0 <= k < pos ==> r@[k] <= x,
            decreases r@.len() - pos,
        {
            pos = pos + 1;
        }
        let ghost old_r = r@;
        r.insert(pos, x);
        proof {
            old_r.insert_ensures(pos as int, x);
            lemma_insert_to_multiset(old_r, pos as int, x);
            values@.subrange(0, i as int).to_multiset_ensures();
            assert(values@.subrange(0, i + 1) =~= values@.subrange(0, i as int).push(x));
            assert(values@.subrange(0, i as int).push(x).to_multiset() =~= values@.subrange(
                0,
                i as int,
            ).to_multiset().insert(x));
            assert forall|a: int, b: int| 0 <= a < b < r@.len() implies r@[a] <= r@[b] by {
                if b < pos {
                    assert(r@[a] == old_r[a] && r@[b] == old_r[b]);
                } else if a < pos && b == pos {
                    assert(r@[a] == old_r[a]);
                } else if a < pos {
                    assert(r@[a] == old_r[a] && r@[b] == old_r[b - 1]);
                    assert(old_r[pos as int] <= old_r[b - 1]);
                } else if a == pos {
                    assert(r@[b] == old_r[b - 1]);
                    assert(x <= old_r[pos as int] || pos == old_r.len());
                    assert(old_r[pos as int] <= old_r[b - 1]);
                } else {
                    assert(r@[a] == old_r[a - 1] && r@[b] == old_r[b - 1]);
                }
            }
        }
        i = i + 1;
    }
    proof {
        assert(values@.subrange(0, n as int) =~= values@);
    }
    r
}

/// Whether `s` is `of` rearranged into nondecreasing order.
pub open spec fn is_sorted_permutation(s: Seq<u64>, of: Seq<u64>) -> bool {
    sorted(s) && s.to_multiset() == of.to_multiset()
}

/// The middle element of the values in sorted order: the element at index
/// `len / 2` of any sorted rearrangement.
pub fn median(values: &Vec<u64>) -> (r: u64)
    requires
        values@.len() > 0,
    ensures
        exists|s: Seq<u64>|
            is_sorted_permutation(s, values@) && r == s[values@.len() as int / 2],
{
    let sorted_values = sort_u64(values);
    let middle = values.len() / 2;
    let r = sorted_values[middle];
    proof {
        assert(is_sorted_permutation(sorted_values@, values@) && r == sorted_values@[values@.len() as int
            / 2]);
    }
    r
}

/// A value that occurs in `values` at least as often as any value does; of
/// equally frequent values, the one whose first occurrence comes first.  An
/// empty list has mode zero.
pub fn mode(values: &Vec<u64>) -> (r: u64)
    ensures
        forall|x: u64| count_of(values@, x) <= count_of(values@, r),
        values@.len() > 0 ==> exists|k: int|
            {
                &&& 0 <= k < values@.len()
                &&& values@[k] == r
                &&& forall|j: int|
                    0 <= j < k ==> count_of(values@, values@[j]) < count_of(values@, r)
            },
        values@.len() == 0 ==> r == 0,
{
    let mut best: u64 = 0;
    let mut best_count: usize = 0;
    let mut best_at: usize = 0;
    let n = values.len();
    let mut i: usize = 0;
    while i < n
        invariant
            0 <= i <= n,
            n == values@.len(),
            forall|k: int| 0 <= k < i ==> count_of(values@, values@[k]) <= best_count,
            i > 0 ==> {
                &&& best_at < i
                &&& values@[best_at as int] == best
                &&& best_count == count_of(values@, best)
                &&& forall|j: int|
                    0 <= j < best_at ==> count_of(values@, values@[j]) < best_count
            },
            i == 0 ==> best_count == 0 && best == 0,
        decreases n - i,
    {
        let candidate = values[i];
        let c = count_occurrences(values, candidate);
        proof {
            lemma_count_of_bounds(values@, candidate);
            assert(values@.contains(values@[i as int]));
        }
        if c > best_count {
            best = candidate;
            best_count = c;
            best_at = i;
        }
        i = i + 1;
    }
    proof {
        if n == 0 {
            assert forall|x: u64| count_of(values@, x) <= count_of(values@, best) by {
                lemma_count_of_bounds(values@, x);
            }
        } else {
            assert forall|x: u64| count_of(values@, x) <= count_of(values@, best) by {
                lemma_count_of_bounds(values@, x);
                if count_of(values@, x) > 0 {
                    let k = choose|k: int| 0 <= k < values@.len() && values@[k] == x;
                    assert(count_of(values@, values@[k]) <= best_count);
                }
            }
            assert({
                &&& 0 <= best_at < values@.len()
                &&& values@[best_at as int] == best
                &&& forall|j: int|
                    0 <= j < best_at ==> count_of(values@, values@[j]) < count_of(values@, best)
            });
        }
    }
    best
}

} // verus!
