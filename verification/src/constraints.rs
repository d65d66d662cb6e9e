//! The constraint aggregator: every violated predicate's label, collected
//! in declaration order, never only the first.

use vstd::prelude::*;

use crate::model::ConstraintsError;

verus! {

/// The labels of the predicates that failed, in declaration order.
pub open spec fn failed_labels(preds: Seq<(bool, String)>) -> Seq<Seq<char>>
    decreases preds.len(),
{
    if preds.len() == 0 {
        Seq::empty()
    } else {
        let rest = failed_labels(preds.drop_last());
        if preds.last().0 {
            rest
        } else {
            rest.push(preds.last().1@)
        }
    }
}

/// How many predicates hold.
pub open spec fn holding_count(preds: Seq<(bool, String)>) -> nat
    decreases preds.len(),
{
    if preds.len() == 0 {
        0
    } else {
        holding_count(preds.drop_last()) + if preds.last().0 {
            1nat
        } else {
            0nat
        }
    }
}

/// No label is lost: the report lists one entry per failed predicate, so
/// with `holding_count` predicates true the list has exactly the rest.
pub proof fn lemma_aggregation_complete(preds: Seq<(bool, String)>)
    ensures
        failed_labels(preds).len() + holding_count(preds) == preds.len(),
    decreases preds.len(),
{
    if preds.len() > 0 {
        lemma_aggregation_complete(preds.drop_last());
    }
}

/// Nothing is reordered and nothing else is reported: the report is the
/// failing subsequence of the predicates, in declaration order, mapped to
/// its labels.
pub proof fn lemma_aggregation_in_order(preds: Seq<(bool, String)>)
    ensures
        failed_labels(preds) == preds.filter(|p: (bool, String)| !p.0).map_values(
            |p: (bool, String)| p.1@,
        ),
    decreases preds.len(),
{
    reveal(Seq::filter);
    let fails = |p: (bool, String)| !p.0;
    let label_of = |p: (bool, String)| p.1@;
    if preds.len() == 0 {
        assert(failed_labels(preds) =~= preds.filter(fails).map_values(label_of));
    } else {
        lemma_aggregation_in_order(preds.drop_last());
        if !preds.last().0 {
            assert(preds.filter(fails).map_values(label_of) =~= preds.drop_last().filter(
                fails,
            ).map_values(label_of).push(preds.last().1@));
        }
    }
}

/// All predicates hold exactly when no label failed.
pub proof fn lemma_failed_labels_empty(preds: Seq<(bool, String)>)
    ensures
        failed_labels(preds).len() == 0 <==> (forall|i: int|
            0 <= i < preds.len() ==> (#[trigger] preds[i]).0),
    decreases preds.len(),
{
    if preds.len() > 0 {
        lemma_failed_labels_empty(preds.drop_last());
        if failed_labels(preds).len() == 0 {
            assert forall|i: int| 0 <= i < preds.len() implies (#[trigger] preds[i]).0 by {
                if i < preds.len() - 1 {
                    assert(preds.drop_last()[i] == preds[i]);
                }
            }
        } else {
            if forall|i: int| 0 <= i < preds.len() ==> (#[trigger] preds[i]).0 {
                assert forall|i: int|
                    0 <= i < preds.drop_last().len() implies (#[trigger] preds.drop_last()[i]).0
                by {
                    assert(preds.drop_last()[i] == preds[i]);
                }
                assert(preds.last().0);
            }
        }
    }
}

/// Evaluates labelled predicates and aggregates every failure: `Ok` when
/// all hold, otherwise the labels of all failed predicates, in order. The
/// check never stops at the first failure, and an error never carries an
/// empty list.
pub fn check_constraints(preds: &Vec<(bool, String)>) -> (r: Result<(), ConstraintsError>)
    ensures
        r is Ok <==> (forall|i: int| 0 <= i < preds@.len() ==> (#[trigger] preds@[i]).0),
        r matches Err(e) ==> e.messages@.map_values(|m: String| m@) == failed_labels(preds@)
            && e.messages@.len() > 0,
{
    let mut messages: Vec<String> = Vec::new();
    let mut idx: usize = 0;
    while idx < preds.len()
        invariant
            idx <= preds@.len(),
            messages@.map_values(|m: String| m@) == failed_labels(preds@.take(idx as int)),
        decreases preds@.len() - idx,
    {
        if !preds[idx].0 {
            messages.push(preds[idx].1.clone());
        }
        proof {
            let prefix = preds@.take(idx as int);
            assert(preds@.take(idx + 1 as int).drop_last() =~= prefix);
            assert(preds@.take(idx + 1 as int).last() == preds@[idx as int]);
            assert(messages@.map_values(|m: String| m@) =~= failed_labels(
                preds@.take(idx + 1 as int),
            ));
        }
        idx = idx + 1;
    }
    proof {
        assert(preds@.take(idx as int) =~= preds@);
        lemma_failed_labels_empty(preds@);
    }
    if messages.len() == 0 {
        Ok(())
    } else {
        Err(ConstraintsError { messages })
    }
}

} // verus!
