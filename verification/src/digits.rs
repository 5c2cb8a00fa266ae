use vstd::prelude::*;

verus! {

/// The minimal base-128 digit sequence of `n`, most-significant digit first.
/// Zero has no digits here; `digit_seq` below gives it its single zero digit.
pub open spec fn digits128(n: nat) -> Seq<int>
    decreases n,
{
    if n == 0 {
        Seq::empty()
    } else {
        digits128(n / 128).push((n % 128) as int)
    }
}

/// The digit sequence an encoding carries: minimal digits for a positive
/// number, and the single digit 0 for zero.
pub open spec fn digit_seq(n: nat) -> Seq<int> {
    if n == 0 {
        seq![0int]
    } else {
        digits128(n)
    }
}

/// The number a big-endian base-128 digit sequence denotes.
pub open spec fn value128(ds: Seq<int>) -> int
    decreases ds.len(),
{
    if ds.len() == 0 {
        0
    } else {
        value128(ds.drop_last()) * 128 + ds.last()
    }
}

/// The same number, read left to right with an accumulator, as a single-pass
/// decoder computes it.
pub open spec fn fold_value(ds: Seq<int>, acc: int) -> int
    decreases ds.len(),
{
    if ds.len() == 0 {
        acc
    } else {
        fold_value(ds.drop_first(), acc * 128 + ds.first())
    }
}

/// 128 raised to `e`.
pub open spec fn pow128(e: nat) -> int
    decreases e,
{
    if e == 0 {
        1
    } else {
        128 * pow128((e - 1) as nat)
    }
}

/// Every digit of a base-128 expansion lies in [0, 128).
pub proof fn lemma_digits_in_range(n: nat)
    ensures
        forall|i: int| 0 <= i < digits128(n).len() ==> 0 <= #[trigger] digits128(n)[i] < 128,
    decreases n,
{
    if n > 0 {
        lemma_digits_in_range(n / 128);
        let pre = digits128(n / 128);
        let last = (n % 128) as int;
        assert(digits128(n) == pre.push(last));
        assert forall|i: int| 0 <= i < digits128(n).len() implies 0 <= #[trigger] digits128(n)[i]
            < 128 by {
            assert(digits128(n)[i] == pre.push(last)[i]);
            if i < pre.len() {
                assert(pre.push(last)[i] == pre[i]);
            }
        }
    }
}

/// The base-128 expansion of `n` denotes `n`.
pub proof fn lemma_value_of_digits(n: nat)
    ensures
        value128(digits128(n)) == n,
    decreases n,
{
    if n > 0 {
        lemma_value_of_digits(n / 128);
        assert(digits128(n).drop_last() =~= digits128(n / 128));
    }
}

/// The digit sequence of `n` denotes `n`, the zero case included.
pub proof fn lemma_value_of_digit_seq(n: nat)
    ensures
        value128(digit_seq(n)) == n,
{
    if n == 0 {
        assert(value128(Seq::<int>::empty()) == 0);
        assert(seq![0int].drop_last() =~= Seq::<int>::empty());
        assert(value128(seq![0int]) == 0);
    } else {
        lemma_value_of_digits(n);
    }
}

/// A positive number's minimal digit count `k` is exactly the one with
/// 128^(k-1) <= n < 128^k; so the expansion is never empty and carries no
/// leading zero.
pub proof fn lemma_digits_len_bounds(n: nat)
    requires
        n > 0,
    ensures
        digits128(n).len() >= 1,
        pow128((digits128(n).len() - 1) as nat) <= n < pow128(digits128(n).len()),
    decreases n,
{
    if n / 128 == 0 {
        assert(digits128((n / 128) as nat) =~= Seq::<int>::empty());
        assert(digits128(n) =~= Seq::<int>::empty().push((n % 128) as int));
    } else {
        lemma_digits_len_bounds(n / 128);
        let k = digits128(n / 128).len();
        assert(digits128(n).len() == k + 1);
        assert(pow128(k) <= 128 * (n / 128)) by {
            assert(pow128((k - 1) as nat) <= n / 128);
            assert(128 * pow128((k - 1) as nat) <= 128 * (n / 128)) by (nonlinear_arith)
                requires
                    pow128((k - 1) as nat) <= n / 128,
            ;
        }
        assert(128 * (n / 128) <= n);
        assert(n < pow128((k + 1) as nat)) by {
            assert(n / 128 < pow128(k));
            assert(n / 128 + 1 <= pow128(k));
            assert(128 * (n / 128 + 1) <= 128 * pow128(k)) by (nonlinear_arith)
                requires
                    n / 128 + 1 <= pow128(k),
            ;
            assert(n < 128 * (n / 128) + 128);
        }
    }
}

/// Reading a digit sequence from the front: the leading digit weighs
/// 128^(len-1), the rest follow recursively.
pub proof fn lemma_value_from_front(ds: Seq<int>)
    requires
        ds.len() > 0,
    ensures
        value128(ds) == ds.first() * pow128((ds.len() - 1) as nat) + value128(ds.drop_first()),
    decreases ds.len(),
{
    if ds.len() == 1 {
        assert(value128(Seq::<int>::empty()) == 0);
        assert(ds.drop_last() =~= Seq::<int>::empty());
        assert(ds.drop_first() =~= Seq::<int>::empty());
        assert(ds.first() == ds.last());
        assert(ds.first() * 1 == ds.first()) by (nonlinear_arith);
    } else {
        let dl = ds.drop_last();
        lemma_value_from_front(dl);
        assert(dl.first() == ds.first());
        assert(dl.drop_first() =~= ds.drop_first().drop_last());
        assert(ds.drop_first().last() == ds.last());
        let e = (ds.len() - 2) as nat;
        let h = ds.first();
        let v = value128(ds.drop_first().drop_last());
        assert(value128(ds) == (h * pow128(e) + v) * 128 + ds.last());
        assert((h * pow128(e) + v) * 128 == h * (128 * pow128(e)) + v * 128) by (nonlinear_arith);
        assert(pow128((ds.len() - 1) as nat) == 128 * pow128(e));
    }
}

/// The accumulator form agrees with the positional form: folding `ds` onto
/// `acc` yields `acc` shifted past `ds` plus the value of `ds`.
pub proof fn lemma_fold_value(ds: Seq<int>, acc: int)
    ensures
        fold_value(ds, acc) == acc * pow128(ds.len()) + value128(ds),
    decreases ds.len(),
{
    if ds.len() == 0 {
        assert(acc * 1 == acc) by (nonlinear_arith);
    } else {
        let tail = ds.drop_first();
        let acc2 = acc * 128 + ds.first();
        lemma_fold_value(tail, acc2);
        lemma_value_from_front(ds);
        let e = (ds.len() - 1) as nat;
        assert((acc * 128 + ds.first()) * pow128(e) == acc * (128 * pow128(e)) + ds.first() * pow128(
            e,
        )) by (nonlinear_arith);
        assert(pow128(ds.len()) == 128 * pow128(e));
    }
}

/// Folding from an empty accumulator yields exactly the sequence's value.
pub proof fn lemma_fold_value_from_zero(ds: Seq<int>)
    ensures
        fold_value(ds, 0) == value128(ds),
{
    lemma_fold_value(ds, 0);
}

} // verus!
