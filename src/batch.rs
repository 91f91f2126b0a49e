use vstd::prelude::*;

verus! {

/// Number of batches of at most `size` items that `n` items fall into: `ceil(n / size)`.
pub open spec fn spec_batch_count(n: nat, size: nat) -> nat
    recommends
        size > 0,
{
    if size == 0 {
        0
    } else {
        ((n + size - 1) as nat) / size
    }
}

/// First index (inclusive) of batch `i`.
pub open spec fn spec_batch_start(size: nat, i: nat) -> nat {
    i * size
}

/// Last index (exclusive) of batch `i`: the batch ends after `size` items or at `n`.
pub open spec fn spec_batch_end(n: nat, size: nat, i: nat) -> nat {
    if (i + 1) * size <= n {
        (i + 1) * size
    } else {
        n
    }
}

/// Number of batches that `n` items make when split into consecutive groups of `size`.
pub fn batch_count(n: usize, size: usize) -> (r: usize)
    requires
        size > 0,
    ensures
        r == spec_batch_count(n as nat, size as nat),
{
    let q = n / size;
    let rem = n % size;
    proof {
        lemma_count_by_division(n as nat, size as nat);
        if rem != 0 {
            assert(q < n) by (nonlinear_arith)
                requires
                    n == q * size + rem,
                    0 < rem < size,
            ;
        }
    }
    if rem == 0 {
        q
    } else {
        q + 1
    }
}

/// The index ranges `[start, end)` of the consecutive batches of at most `size` items
/// that cover `n` items, in order; the final batch may be shorter.
pub fn batch_bounds(n: usize, size: usize) -> (r: Vec<(usize, usize)>)
    requires
        size > 0,
    ensures
        r@.len() == spec_batch_count(n as nat, size as nat),
        forall|i: int|
            0 <= i < r@.len() ==> r@[i].0 == spec_batch_start(size as nat, i as nat) && r@[i].1
                == spec_batch_end(n as nat, size as nat, i as nat),
{
    let count = batch_count(n, size);
    let mut r: Vec<(usize, usize)> = Vec::new();
    let mut start: usize = 0;
    let mut i: usize = 0;
    proof {
        lemma_index_vs_count(n as nat, size as nat, 0);
    }
    while start < n
        invariant
            size > 0,
            count == spec_batch_count(n as nat, size as nat),
            start <= n,
            start < n ==> start == i * size,
            start < n ==> i < count,
            start >= n ==> i == count,
            r@.len() == i,
            forall|j: int|
                0 <= j < i ==> r@[j].0 == spec_batch_start(size as nat, j as nat) && r@[j].1
                    == spec_batch_end(n as nat, size as nat, j as nat),
        decreases n - start,
    {
        let end: usize = if size <= n - start {
            start + size
        } else {
            n
        };
        proof {
            assert((i + 1) * size == start + size) by (nonlinear_arith)
                requires
                    start == i * size,
            ;
            lemma_index_vs_count(n as nat, size as nat, (i + 1) as nat);
        }
        r.push((start, end));
        start = end;
        i = i + 1;
    }
    r
}

/// The batch count in terms of quotient and remainder.
proof fn lemma_count_by_division(n: nat, size: nat)
    requires
        size > 0,
    ensures
        n == (n / size) * size + n % size,
        n % size < size,
        spec_batch_count(n, size) == if n % size == 0 {
            n / size
        } else {
            n / size + 1
        },
{
    let q = n / size;
    let rem = n % size;
    assert(n == q * size + rem && rem < size) by (nonlinear_arith)
        requires
            q == n / size,
            rem == n % size,
            size > 0,
    ;
    if rem == 0 {
        assert((n + size - 1) as nat / size == q) by (nonlinear_arith)
            requires
                n == q * size,
                size > 0,
        ;
    } else {
        assert((n + size - 1) as nat / size == q + 1) by (nonlinear_arith)
            requires
                n == q * size + rem,
                0 < rem < size,
        ;
    }
}

/// Splitting `n` items into consecutive batches of `size` gives `ceil(n / size)` batches,
/// none at all when `n` is zero. Every batch but the last holds exactly `size` items and
/// ends where the next one starts; the last one ends at `n` and holds `n mod size` items,
/// or `size` items when `size` divides `n`.
pub proof fn lemma_batch_partition(n: nat, size: nat)
    requires
        size > 0,
    ensures
        spec_batch_count(n, size) == 0 <==> n == 0,
        n > 0 ==> spec_batch_end(n, size, (spec_batch_count(n, size) - 1) as nat) == n,
        n > 0 ==> spec_batch_end(n, size, (spec_batch_count(n, size) - 1) as nat)
            - spec_batch_start(size, (spec_batch_count(n, size) - 1) as nat) == if n % size
            == 0 {
            size
        } else {
            n % size
        },
        forall|i: nat|
            i + 1 < spec_batch_count(n, size) ==> spec_batch_end(n, size, i) - spec_batch_start(
                size,
                i,
            ) == size && spec_batch_end(n, size, i) == spec_batch_start(size, i + 1),
{
    let c = spec_batch_count(n, size);
    lemma_count_by_division(n, size);
    lemma_index_vs_count(n, size, 0);
    if n > 0 {
        let k = (c - 1) as nat;
        lemma_index_vs_count(n, size, k);
        lemma_index_vs_count(n, size, c);
        assert((k + 1) * size == c * size);
        let q = n / size;
        let rem = n % size;
        if rem == 0 {
            assert(n - k * size == size) by (nonlinear_arith)
                requires
                    n == q * size,
                    k + 1 == q,
            ;
        } else {
            assert(n - k * size == rem) by (nonlinear_arith)
                requires
                    n == q * size + rem,
                    k == q,
            ;
        }
    }
    assert forall|i: nat| i + 1 < c implies spec_batch_end(n, size, i) - spec_batch_start(size, i)
        == size && spec_batch_end(n, size, i) == spec_batch_start(size, i + 1) by {
        lemma_index_vs_count(n, size, i + 1);
        assert((i + 1) * size == i * size + size) by (nonlinear_arith);
    }
}

/// A batch index `k` is below the count exactly when batch `k` starts before `n`.
proof fn lemma_index_vs_count(n: nat, size: nat, k: nat)
    requires
        size > 0,
    ensures
        k < spec_batch_count(n, size) <==> k * size < n,
        k >= 1 && (k - 1) * size < n && k * size >= n ==> k == spec_batch_count(n, size),
{
    let c = spec_batch_count(n, size);
    assert(c * size < n + size && n <= c * size) by (nonlinear_arith)
        requires
            c == ((n + size - 1) as nat) / size,
            size > 0,
    ;
    if k < c {
        assert(k * size <= (c - 1) * size) by (nonlinear_arith)
            requires
                k <= c - 1,
        ;
        assert((c - 1) * size == c * size - size) by (nonlinear_arith);
    } else {
        assert(k * size >= c * size) by (nonlinear_arith)
            requires
                k >= c,
        ;
    }
    if k >= 1 && (k - 1) * size < n && k * size >= n {
        if k > c {
            assert((k - 1) * size >= c * size) by (nonlinear_arith)
                requires
                    k - 1 >= c,
            ;
        }
    }
}

} // verus!
