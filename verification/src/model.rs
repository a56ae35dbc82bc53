//! Models of sequences and of results, and the reading of a sequence of items of
//! which any may be refused.

use vstd::prelude::*;

use crate::error::{Error, ErrorModel};
use crate::json::{Json, JsonModel};

verus! {

/// What a sequence of values stands for.
pub open spec fn models<T: View>(values: Seq<T>) -> Seq<T::V> {
    values.map_values(|value: T| value@)
}

/// What the outcome of a reading stands for.
pub open spec fn outcome<T: View>(result: Result<T, Error>) -> Result<T::V, ErrorModel> {
    match result {
        Ok(value) => Ok(value@),
        Err(error) => Err(error@),
    }
}

/// What the outcome of the reading of a sequence stands for.
pub open spec fn outcomes<T: View>(result: Result<Vec<T>, Error>) -> Result<
    Seq<T::V>,
    ErrorModel,
> {
    match result {
        Ok(values) => Ok(models(values@)),
        Err(error) => Err(error@),
    }
}

/// The map that entries written in this order make up: the last value of a key counts.
pub open spec fn mapped<K, V>(entries: Seq<(K, V)>) -> Map<K, V>
    decreases entries.len(),
{
    if entries.len() == 0 {
        Map::empty()
    } else {
        mapped(entries.drop_last()).insert(entries.last().0, entries.last().1)
    }
}

/// A key is mapped exactly if it is written, and then to the last value that is
/// written for it.
pub proof fn lemma_mapped<K, V>(entries: Seq<(K, V)>, key: K)
    ensures
        mapped(entries).contains_key(key) <==> exists|i: int|
            0 <= i < entries.len() && #[trigger] entries[i].0 == key,
        forall|i: int|
            #![trigger entries[i]]
            0 <= i < entries.len() && entries[i].0 == key && (forall|j: int|
                i < j < entries.len() ==> #[trigger] entries[j].0 != key) ==> mapped(
                entries,
            )[key] == entries[i].1,
    decreases entries.len(),
{
    if entries.len() > 0 {
        let front = entries.drop_last();
        lemma_mapped(front, key);
        assert forall|i: int| 0 <= i < front.len() implies front[i] == entries[i] by {}
        if entries.last().0 == key {
            assert(entries[entries.len() - 1].0 == key);
        } else if mapped(front).contains_key(key) {
            let i = choose|i: int| 0 <= i < front.len() && #[trigger] front[i].0 == key;
            assert(entries[i].0 == key);
        } else {
            assert forall|i: int| 0 <= i < entries.len() implies #[trigger] entries[i].0 != key by {
                if i < front.len() {
                    assert(front[i].0 != key);
                }
            }
        }
        assert forall|i: int|
            #![trigger entries[i]]
            0 <= i < entries.len() && entries[i].0 == key && (forall|j: int|
                i < j < entries.len() ==> #[trigger] entries[j].0 != key) implies mapped(
            entries,
        )[key] == entries[i].1 by {
            if i < front.len() {
                assert(entries[entries.len() - 1].0 != key);
                assert(front[i].0 == key);
            }
        }
    }
}

/// All values, or the first error where there is one.
pub open spec fn collected<M>(results: Seq<Result<M, ErrorModel>>) -> Result<Seq<M>, ErrorModel>
    decreases results.len(),
{
    if results.len() == 0 {
        Ok(seq![])
    } else {
        match collected(results.drop_last()) {
            Err(error) => Err(error),
            Ok(front) => match results.last() {
                Err(error) => Err(error),
                Ok(value) => Ok(front.push(value)),
            },
        }
    }
}

/// Adding a value adds its model.
pub proof fn lemma_models_push<T: View>(values: Seq<T>, value: T)
    ensures
        models(values.push(value)) == models(values).push(value@),
{
    assert(models(values.push(value)) =~= models(values).push(value@));
}

/// One more result: it counts only where no earlier one is an error.
pub proof fn lemma_collected_take<M>(results: Seq<Result<M, ErrorModel>>, n: int)
    requires
        0 <= n < results.len(),
    ensures
        collected(results.take(n + 1)) == (match collected(results.take(n)) {
            Err(error) => Err(error),
            Ok(front) => match results[n] {
                Err(error) => Err(error),
                Ok(value) => Ok(front.push(value)),
            },
        }),
{
    assert(results.take(n + 1).drop_last() =~= results.take(n));
}

/// An error among the first results is the error of all.
pub proof fn lemma_collected_error<M>(results: Seq<Result<M, ErrorModel>>, n: int)
    requires
        0 <= n <= results.len(),
        collected(results.take(n)) is Err,
    ensures
        collected(results) == collected(results.take(n)),
    decreases results.len() - n,
{
    if n < results.len() {
        lemma_collected_take(results, n);
        lemma_collected_error(results, n + 1);
    } else {
        assert(results.take(n) =~= results);
    }
}

/// The collected values are those of the results, one for one and in order; they are
/// missing exactly if some result is an error, and then the first error stands for
/// all.
pub proof fn law_collected<M>(results: Seq<Result<M, ErrorModel>>)
    ensures
        match collected(results) {
            Ok(values) => results =~= values.map_values(|value: M| Ok::<M, ErrorModel>(value)),
            Err(error) => exists|i: int|
                0 <= i < results.len() && #[trigger] results[i] == Err::<M, ErrorModel>(error)
                    && forall|j: int| 0 <= j < i ==> #[trigger] results[j] is Ok,
        },
    decreases results.len(),
{
    if results.len() > 0 {
        let front = results.drop_last();
        law_collected(front);
        assert(forall|i: int| 0 <= i < front.len() ==> front[i] == results[i]);
        match collected(front) {
            Err(error) => {
                let i = choose|i: int|
                    0 <= i < front.len() && #[trigger] front[i] == Err::<M, ErrorModel>(error)
                        && forall|j: int| 0 <= j < i ==> #[trigger] front[j] is Ok;
                assert(results[i] == Err::<M, ErrorModel>(error));
                assert forall|j: int| 0 <= j < i implies #[trigger] results[j] is Ok by {
                    assert(front[j] is Ok);
                }
            },
            Ok(values) => {
                assert forall|j: int| 0 <= j < front.len() implies #[trigger] results[j] is Ok by {
                    assert(front[j] == values.map_values(|value: M| Ok::<M, ErrorModel>(value))[j]);
                }
                assert(results[results.len() - 1] == results.last());
            },
        }
    }
}

/// Reads every item with `read`, up to the first that is refused.
pub(crate) fn read_all<T: View, F: Fn(&Json) -> Result<T, Error>>(
    items: &Vec<Json>,
    read: F,
    Ghost(model): Ghost<spec_fn(JsonModel) -> Result<T::V, ErrorModel>>,
) -> (result: Result<Vec<T>, Error>)
    requires
        forall|item: &Json| #[trigger] call_requires(read, (item,)),
        forall|item: &Json, value: Result<T, Error>| #[trigger]
            call_ensures(read, (item,), value) ==> outcome(value) == model(item@),
    ensures
        outcomes(result) == collected(models(items@).map_values(model)),
{
    let ghost results = models(items@).map_values(model);
    let mut values: Vec<T> = Vec::new();
    let mut i: usize = 0;
    assert(models(values@) =~= seq![]);
    while i < items.len()
        invariant
            i <= items@.len(),
            results == models(items@).map_values(model),
            collected(results.take(i as int)) == Ok::<Seq<T::V>, ErrorModel>(models(values@)),
            forall|item: &Json| #[trigger] call_requires(read, (item,)),
            forall|item: &Json, value: Result<T, Error>| #[trigger]
                call_ensures(read, (item,), value) ==> outcome(value) == model(item@),
        decreases items@.len() - i,
    {
        proof {
            lemma_collected_take(results, i as int);
        }
        match read(&items[i]) {
            Err(error) => {
                proof {
                    lemma_collected_error(results, i + 1);
                }
                return Err(error);
            },
            Ok(value) => {
                proof {
                    lemma_models_push(values@, value);
                }
                values.push(value);
            },
        }
        i += 1;
    }
    assert(results.take(i as int) =~= results);
    Ok(values)
}

} // verus!
