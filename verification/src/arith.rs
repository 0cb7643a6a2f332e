//! Reductions over numbers whose arithmetic the caller supplies.

use crate::value::Scalar;
use vstd::prelude::*;

verus! {

/// Whether `accs` are the running results of folding `op` over `xs` from
/// the left: the first is the first item, and each later one is what `op`
/// gave for the result before it and the item at its place.
pub open spec fn fold_trace<F: Fn(Scalar, Scalar) -> Scalar>(
    op: F,
    xs: Seq<Scalar>,
    accs: Seq<Scalar>,
) -> bool {
    &&& xs.len() > 0
    &&& accs.len() == xs.len()
    &&& accs[0] == xs[0]
    &&& forall|i: int| 1 <= i < xs.len() ==> op.ensures((accs[i - 1], xs[i]), #[trigger] accs[i])
}

/// Whether `r` can come out of folding `op` over `xs` from the left,
/// starting with the first item.
pub open spec fn folds_to<F: Fn(Scalar, Scalar) -> Scalar>(op: F, xs: Seq<Scalar>, r: Scalar) -> bool {
    exists|accs: Seq<Scalar>| #[trigger] fold_trace(op, xs, accs) && accs.last() == r
}

/// Folds `op` over `xs` from the left, starting with the first item; `None`
/// when there is no item.
pub fn reduce<F: Fn(Scalar, Scalar) -> Scalar>(xs: &Vec<Scalar>, op: &F) -> (r: Option<Scalar>)
    requires
        forall|a: Scalar, b: Scalar| op.requires((a, b)),
    ensures
        r.is_some() <==> xs.len() > 0,
        r matches Some(v) ==> folds_to(*op, xs@, v),
{
    if xs.len() == 0 {
        return None;
    }
    let mut acc = xs[0];
    let mut i: usize = 1;
    let ghost mut accs: Seq<Scalar> = seq![xs[0]];
    while i < xs.len()
        invariant
            1 <= i <= xs.len(),
            forall|a: Scalar, b: Scalar| op.requires((a, b)),
            fold_trace(*op, xs@.take(i as int), accs),
            accs.last() == acc,
        decreases xs.len() - i,
    {
        let next = op(acc, xs[i]);
        proof {
            let longer = accs.push(next);
            assert forall|j: int| 1 <= j < i + 1 implies (*op).ensures(
                (longer[j - 1], xs@.take(i + 1)[j]),
                #[trigger] longer[j],
            ) by {
                if j < i {
                    assert(longer[j] == accs[j]);
                    assert(xs@.take(i as int)[j] == xs[j]);
                }
            }
            accs = longer;
        }
        acc = next;
        i += 1;
    }
    assert(xs@.take(xs.len() as int) =~= xs@);
    Some(acc)
}

} // verus!
