use vstd::prelude::*;
use crate::entity::Entity;

verus! {

/// The sum of `f` over `es`.
pub open spec fn sum_over(es: Seq<Entity>, f: spec_fn(Entity) -> int) -> int
    decreases es.len(),
{
    if es.len() == 0 {
        0
    } else {
        sum_over(es.drop_last(), f) + f(es.last())
    }
}

/// The concatenation of `f` over `es`, in order.
pub open spec fn concat_over<T>(es: Seq<Entity>, f: spec_fn(Entity) -> Seq<T>) -> Seq<T>
    decreases es.len(),
{
    if es.len() == 0 {
        Seq::empty()
    } else {
        concat_over(es.drop_last(), f) + f(es.last())
    }
}

/// Extending a prefix by one element.
pub proof fn lemma_take_step(es: Seq<Entity>, i: int)
    requires
        0 <= i < es.len(),
    ensures
        es.take(i + 1).drop_last() == es.take(i),
        es.take(i + 1).last() == es[i],
        es.take(i + 1).len() > 0,
{
    assert(es.take(i + 1).drop_last() =~= es.take(i));
}

/// A sum whose terms are bounded by `b` in absolute value is bounded by
/// `b` times their number.
pub proof fn lemma_sum_bound(es: Seq<Entity>, f: spec_fn(Entity) -> int, b: int)
    requires
        b >= 0,
        forall|e: Entity| -b <= #[trigger] f(e) <= b,
    ensures
        -b * es.len() <= sum_over(es, f) <= b * es.len(),
    decreases es.len(),
{
    if es.len() > 0 {
        lemma_sum_bound(es.drop_last(), f, b);
        let n = es.drop_last().len() as int;
        let x = f(es.last());
        let s = sum_over(es.drop_last(), f);
        assert(-b * (n + 1) <= s + x <= b * (n + 1)) by (nonlinear_arith)
            requires
                -b * n <= s <= b * n,
                -b <= x <= b,
        ;
    }
}

} // verus!
