//! The number of elements that a shape describes.

use vstd::prelude::*;

verus! {

/// The product of the entries of `shape`; the empty shape has product 1.
pub open spec fn shape_product(shape: Seq<usize>) -> nat
    decreases shape.len(),
{
    if shape.len() == 0 {
        1
    } else {
        shape_product(shape.drop_last()) * (shape.last() as nat)
    }
}

/// Whether some entry of `shape` is zero.
pub open spec fn has_zero(shape: Seq<usize>) -> bool {
    exists|i: int| 0 <= i < shape.len() && shape[i] == 0
}

/// Extending a shape by one dimension multiplies its product by that dimension.
pub proof fn lemma_product_push(shape: Seq<usize>, dim: usize)
    ensures
        shape_product(shape.push(dim)) == shape_product(shape) * (dim as nat),
{
    assert(shape.push(dim).drop_last() =~= shape);
}

/// The product of a shape is zero exactly when one of its entries is zero.
pub proof fn lemma_product_zero(shape: Seq<usize>)
    ensures
        shape_product(shape) == 0 <==> has_zero(shape),
    decreases shape.len(),
{
    if shape.len() > 0 {
        let init = shape.drop_last();
        let last = shape.last() as nat;
        lemma_product_zero(init);
        assert(shape_product(init) * last == 0 <==> shape_product(init) == 0 || last == 0)
            by (nonlinear_arith);
        if has_zero(init) {
            let i = choose|i: int| 0 <= i < init.len() && init[i] == 0;
            assert(shape[i] == 0);
        }
        if shape.last() == 0 {
            assert(shape[shape.len() - 1] == 0);
        }
        if has_zero(shape) {
            let i = choose|i: int| 0 <= i < shape.len() && shape[i] == 0;
            if i < init.len() {
                assert(init[i] == 0);
            }
        }
    }
}

/// Without a zero entry, the product of a prefix never exceeds the product of the whole shape.
pub proof fn lemma_product_prefix(shape: Seq<usize>, n: int)
    requires
        0 <= n <= shape.len(),
        !has_zero(shape),
    ensures
        1 <= shape_product(shape.take(n)) <= shape_product(shape),
    decreases shape.len() - n,
{
    lemma_product_zero(shape.take(n));
    if has_zero(shape.take(n)) {
        let i = choose|i: int| 0 <= i < shape.take(n).len() && shape.take(n)[i] == 0;
        assert(shape[i] == 0);
    }
    if n == shape.len() {
        assert(shape.take(n) =~= shape);
    } else {
        lemma_product_prefix(shape, n + 1);
        assert(shape.take(n + 1) =~= shape.take(n).push(shape[n]));
        lemma_product_push(shape.take(n), shape[n]);
        assert(shape[n] != 0);
        let p = shape_product(shape.take(n));
        let d = shape[n] as nat;
        assert(p <= p * d) by (nonlinear_arith)
            requires
                d >= 1,
        ;
    }
}

/// Computes the product of the entries of `shape`, or `None` when it does not fit in a `usize`.
///
/// A zero entry makes the product zero whatever the other entries are.
pub fn checked_product(shape: &[usize]) -> (product: Option<usize>)
    ensures
        match product {
            Some(p) => p == shape_product(shape@),
            None => shape_product(shape@) > usize::MAX,
        },
{
    let n: usize = shape.len();
    let mut k: usize = 0;
    while k < n
        invariant
            k <= n,
            n == shape@.len(),
            forall|j: int| 0 <= j < k ==> shape@[j] != 0,
        decreases n - k,
    {
        if shape[k] == 0 {
            proof {
                assert(shape@[k as int] == 0);
                lemma_product_zero(shape@);
            }
            return Some(0);
        }
        k += 1;
    }
    assert(!has_zero(shape@));
    let mut acc: usize = 1;
    let mut i: usize = 0;
    assert(shape@.take(0) =~= Seq::<usize>::empty());
    while i < n
        invariant
            i <= n,
            n == shape@.len(),
            !has_zero(shape@),
            acc == shape_product(shape@.take(i as int)),
        decreases n - i,
    {
        proof {
            assert(shape@.take(i + 1) =~= shape@.take(i as int).push(shape@[i as int]));
            lemma_product_push(shape@.take(i as int), shape@[i as int]);
            lemma_product_prefix(shape@, i + 1);
        }
        match acc.checked_mul(shape[i]) {
            Some(next) => {
                acc = next;
            },
            None => {
                return None;
            },
        }
        i += 1;
    }
    assert(shape@.take(n as int) =~= shape@);
    Some(acc)
}

} // verus!
