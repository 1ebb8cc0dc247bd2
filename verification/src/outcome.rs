//! How a walk over the pairs of a table ends: with a value or with the first
//! fatal issue, and with the warnings raised on the way.

use crate::diagnostic::{diagnostic_views, Diagnostic, DiagnosticModel};
use crate::value::ValueModel;
use vstd::prelude::*;

verus! {

/// What one pair of a table yields: a value, or a fatal issue.
pub type Each<T> = spec_fn(ValueModel, ValueModel) -> Result<T, DiagnosticModel>;

/// The values that `each` yields for `pairs`, in the order of the pairs, or
/// the issue of the first pair for which it fails.
pub open spec fn collect<T>(pairs: Seq<(ValueModel, ValueModel)>, each: Each<T>) -> Result<
    Seq<T>,
    DiagnosticModel,
>
    decreases pairs.len(),
{
    if pairs.len() == 0 {
        Ok(Seq::empty())
    } else {
        match collect(pairs.drop_last(), each) {
            Err(issue) => Err(issue),
            Ok(before) => match each(pairs.last().0, pairs.last().1) {
                Err(issue) => Err(issue),
                Ok(item) => Ok(before.push(item)),
            },
        }
    }
}

/// Collecting one pair more: the pairs before it decide first.
pub proof fn lemma_collect_next<T>(pairs: Seq<(ValueModel, ValueModel)>, each: Each<T>, n: int)
    requires
        0 <= n < pairs.len(),
    ensures
        collect(pairs.take(n + 1), each) == match collect(pairs.take(n), each) {
            Err(issue) => Err(issue),
            Ok(before) => match each(pairs[n].0, pairs[n].1) {
                Err(issue) => Err(issue),
                Ok(item) => Ok(before.push(item)),
            },
        },
{
    assert(pairs.take(n + 1).drop_last() =~= pairs.take(n));
}

/// Once a prefix of the pairs has failed, the whole has failed with the same
/// issue.
pub proof fn lemma_collect_abort<T>(pairs: Seq<(ValueModel, ValueModel)>, each: Each<T>, n: int)
    requires
        0 <= n <= pairs.len(),
        collect(pairs.take(n), each) is Err,
    ensures
        collect(pairs, each) == collect(pairs.take(n), each),
    decreases pairs.len() - n,
{
    if n == pairs.len() {
        assert(pairs.take(n) =~= pairs);
    } else {
        lemma_collect_next(pairs, each, n);
        lemma_collect_abort(pairs, each, n + 1);
    }
}

/// A walk succeeds exactly when every pair does; it then yields one item for
/// each pair, in the order of the pairs.
pub proof fn lemma_collect_ok<T>(pairs: Seq<(ValueModel, ValueModel)>, each: Each<T>)
    ensures
        collect(pairs, each) is Ok <==> forall|i: int|
            0 <= i < pairs.len() ==> each(#[trigger] pairs[i].0, pairs[i].1) is Ok,
        collect(pairs, each) matches Ok(items) ==> {
            &&& items.len() == pairs.len()
            &&& forall|i: int|
                0 <= i < pairs.len() ==> each(pairs[i].0, pairs[i].1) == Ok::<T, DiagnosticModel>(
                    #[trigger] items[i],
                )
        },
    decreases pairs.len(),
{
    if pairs.len() > 0 {
        let front = pairs.drop_last();
        lemma_collect_ok(front, each);
        if collect(pairs, each) is Ok {
            assert forall|i: int| 0 <= i < pairs.len() implies each(
                #[trigger] pairs[i].0,
                pairs[i].1,
            ) is Ok by {
                if i < front.len() {
                    assert(front[i] == pairs[i]);
                }
            }
        }
        if forall|i: int| 0 <= i < pairs.len() ==> each(#[trigger] pairs[i].0, pairs[i].1) is Ok {
            assert forall|i: int| 0 <= i < front.len() implies each(
                #[trigger] front[i].0,
                front[i].1,
            ) is Ok by {
                assert(front[i] == pairs[i]);
            }
            assert(each(pairs[pairs.len() - 1].0, pairs[pairs.len() - 1].1) is Ok);
        }
        if let Ok(items) = collect(pairs, each) {
            assert forall|i: int| 0 <= i < pairs.len() implies each(pairs[i].0, pairs[i].1) == Ok::<
                T,
                DiagnosticModel,
            >(#[trigger] items[i]) by {
                if i < front.len() {
                    assert(front[i] == pairs[i]);
                }
            }
        }
    }
}

/// A walk fails with the issue of its first failing pair.
pub proof fn lemma_collect_err<T>(pairs: Seq<(ValueModel, ValueModel)>, each: Each<T>)
    ensures
        collect(pairs, each) matches Err(issue) ==> exists|k: int|
            {
                &&& 0 <= k < pairs.len()
                &&& #[trigger] each(pairs[k].0, pairs[k].1) == Err::<T, DiagnosticModel>(issue)
                &&& forall|i: int| 0 <= i < k ==> each(#[trigger] pairs[i].0, pairs[i].1) is Ok
            },
    decreases pairs.len(),
{
    if pairs.len() > 0 {
        let front = pairs.drop_last();
        lemma_collect_err(front, each);
        lemma_collect_ok(front, each);
        if let Err(issue) = collect(pairs, each) {
            if let Err(early) = collect(front, each) {
                let k = choose|k: int|
                    {
                        &&& 0 <= k < front.len()
                        &&& #[trigger] each(front[k].0, front[k].1) == Err::<T, DiagnosticModel>(
                            early,
                        )
                        &&& forall|i: int|
                            0 <= i < k ==> each(#[trigger] front[i].0, front[i].1) is Ok
                    };
                assert(front[k] == pairs[k]);
                assert forall|i: int| 0 <= i < k implies each(
                    #[trigger] pairs[i].0,
                    pairs[i].1,
                ) is Ok by {
                    assert(front[i] == pairs[i]);
                }
                assert(each(pairs[k].0, pairs[k].1) == Err::<T, DiagnosticModel>(issue));
            } else {
                let k = pairs.len() - 1;
                assert forall|i: int| 0 <= i < k implies each(
                    #[trigger] pairs[i].0,
                    pairs[i].1,
                ) is Ok by {
                    assert(front[i] == pairs[i]);
                }
                assert(each(pairs[k].0, pairs[k].1) == Err::<T, DiagnosticModel>(issue));
            }
        }
    }
}

/// The end of a step that may warn: the warnings it raised, in order, and
/// its value or the fatal issue that stopped it.
pub ghost struct Outcome<T> {
    pub warnings: Seq<DiagnosticModel>,
    pub result: Result<T, DiagnosticModel>,
}

impl<T> Outcome<T> {
    /// A value, without warnings.
    pub open spec fn done(value: T) -> Outcome<T> {
        Outcome { warnings: Seq::empty(), result: Ok(value) }
    }

    /// A fatal issue, without warnings.
    pub open spec fn fatal(issue: DiagnosticModel) -> Outcome<T> {
        Outcome { warnings: Seq::empty(), result: Err(issue) }
    }

    /// This outcome, reached after `earlier` warnings.
    pub open spec fn after(self, earlier: Seq<DiagnosticModel>) -> Outcome<T> {
        Outcome { warnings: earlier + self.warnings, result: self.result }
    }
}

/// What one pair of a table does to the state of a walk.
pub type Step<S> = spec_fn(S, ValueModel, ValueModel) -> Outcome<S>;

/// The end of a walk that takes `pairs` in their order, each pair stepping
/// from the state that the pair before it left. The first fatal issue ends
/// the walk: no later pair is looked at, and the warnings raised up to there
/// stay.
pub open spec fn fold<S>(pairs: Seq<(ValueModel, ValueModel)>, start: S, step: Step<S>) -> Outcome<S>
    decreases pairs.len(),
{
    if pairs.len() == 0 {
        Outcome::done(start)
    } else {
        let before = fold(pairs.drop_last(), start, step);
        match before.result {
            Err(_) => before,
            Ok(state) => step(state, pairs.last().0, pairs.last().1).after(before.warnings),
        }
    }
}

/// Walking one pair more: the pairs before it decide first.
pub proof fn lemma_fold_next<S>(
    pairs: Seq<(ValueModel, ValueModel)>,
    start: S,
    step: Step<S>,
    n: int,
)
    requires
        0 <= n < pairs.len(),
    ensures
        fold(pairs.take(n + 1), start, step) == ({
            let before = fold(pairs.take(n), start, step);
            match before.result {
                Err(_) => before,
                Ok(state) => step(state, pairs[n].0, pairs[n].1).after(before.warnings),
            }
        }),
{
    assert(pairs.take(n + 1).drop_last() =~= pairs.take(n));
}

/// Once a prefix of the pairs has ended in a fatal issue, the whole walk has
/// ended there.
pub proof fn lemma_fold_abort<S>(
    pairs: Seq<(ValueModel, ValueModel)>,
    start: S,
    step: Step<S>,
    n: int,
)
    requires
        0 <= n <= pairs.len(),
        fold(pairs.take(n), start, step).result is Err,
    ensures
        fold(pairs, start, step) == fold(pairs.take(n), start, step),
    decreases pairs.len() - n,
{
    if n == pairs.len() {
        assert(pairs.take(n) =~= pairs);
    } else {
        lemma_fold_next(pairs, start, step, n);
        lemma_fold_abort(pairs, start, step, n + 1);
    }
}

/// Appending one diagnostic to a list appends its model to the models.
pub proof fn lemma_views_push(list: Seq<Diagnostic>, last: Diagnostic)
    ensures
        diagnostic_views(list.push(last)) == diagnostic_views(list).push(last@),
{
    assert(diagnostic_views(list.push(last)) =~= diagnostic_views(list).push(last@));
}

} // verus!
