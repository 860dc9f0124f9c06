//! Lists of values and the sequences that they stand for.

use vstd::prelude::*;

verus! {

/// Appending a value appends what it stands for.
pub proof fn lemma_push_deep_view<T: DeepView>(before: Seq<T>, list: Vec<T>, value: T)
    requires
        list@ == before.push(value),
    ensures
        list.deep_view() == models(before).push(value.deep_view()),
{
    assert(list.deep_view() =~= models(before).push(value.deep_view()));
}

/// What the values of a sequence stand for.
pub open spec fn models<T: DeepView>(values: Seq<T>) -> Seq<T::V> {
    values.map_values(|value: T| value.deep_view())
}

/// A list stands for what its values stand for.
pub proof fn lemma_models<T: DeepView>(list: Vec<T>)
    ensures
        list.deep_view() == models(list@),
{
    assert(list.deep_view() =~= models(list@));
}

/// The first item that meets a condition.
pub open spec fn first_where<T>(items: Seq<T>, meets: spec_fn(T) -> bool) -> Option<T>
    decreases items.len(),
{
    if items.len() == 0 {
        None
    } else if meets(items[0]) {
        Some(items[0])
    } else {
        first_where(items.drop_first(), meets)
    }
}

/// Passing over an item that does not meet the condition does not change the first that does.
pub proof fn lemma_first_where_skip<T>(items: Seq<T>, meets: spec_fn(T) -> bool, at: int)
    requires
        0 <= at < items.len(),
    ensures
        meets(items[at]) ==> first_where(items.skip(at), meets) == Some(items[at]),
        !meets(items[at]) ==> first_where(items.skip(at), meets) == first_where(
            items.skip(at + 1),
            meets,
        ),
{
    assert(items.skip(at).drop_first() =~= items.skip(at + 1));
    assert(items.skip(at)[0] == items[at]);
}

/// What the first item that meets a condition is.
pub proof fn lemma_first_where<T>(items: Seq<T>, meets: spec_fn(T) -> bool)
    ensures
        match first_where(items, meets) {
            Some(found) => meets(found) && items.contains(found),
            None => forall|i: int| 0 <= i < items.len() ==> !meets(#[trigger] items[i]),
        },
    decreases items.len(),
{
    if items.len() > 0 && !meets(items[0]) {
        let rest = items.drop_first();
        lemma_first_where(rest, meets);
        match first_where(rest, meets) {
            Some(found) => {
                let i = choose|i: int| 0 <= i < rest.len() && rest[i] == found;
                assert(items[i + 1] == found);
            },
            None => {
                assert forall|i: int| 0 <= i < items.len() implies !meets(#[trigger] items[i]) by {
                    if i > 0 {
                        assert(items[i] == rest[i - 1]);
                    }
                }
            },
        }
    } else if items.len() > 0 {
        assert(items[0] == first_where(items, meets)->0);
    }
}

/// The position of the first item that meets a condition.
pub open spec fn position<T>(items: Seq<T>, meets: spec_fn(T) -> bool) -> Option<int>
    decreases items.len(),
{
    if items.len() == 0 {
        None
    } else if meets(items[0]) {
        Some(0)
    } else {
        match position(items.drop_first(), meets) {
            Some(at) => Some(at + 1),
            None => None,
        }
    }
}

/// A position counted from further ahead.
pub open spec fn shifted(at: Option<int>, by: int) -> Option<int> {
    match at {
        Some(at) => Some(at + by),
        None => None,
    }
}

/// Passing over an item that does not meet the condition moves the position of the first that
/// does by one.
pub proof fn lemma_position_skip<T>(items: Seq<T>, meets: spec_fn(T) -> bool, at: int)
    requires
        0 <= at < items.len(),
    ensures
        meets(items[at]) ==> position(items.skip(at), meets) == Some(0int),
        !meets(items[at]) ==> position(items.skip(at), meets) == shifted(
            position(items.skip(at + 1), meets),
            1,
        ),
{
    assert(items.skip(at).drop_first() =~= items.skip(at + 1));
    assert(items.skip(at)[0] == items[at]);
}

/// A list of these values stands for what they stand for.
pub proof fn lemma_models_of<T: DeepView>(values: Seq<T>)
    ensures
        forall|list: Vec<T>| #![trigger list.deep_view()]
            list@ == values ==> list.deep_view() == models(values),
{
    assert forall|list: Vec<T>| #![trigger list.deep_view()] list@ == values implies list.deep_view()
        == models(values) by {
        lemma_models(list);
    }
}

/// What stands at the position of the first item that meets a condition.
pub proof fn lemma_position<T>(items: Seq<T>, meets: spec_fn(T) -> bool)
    ensures
        match position(items, meets) {
            Some(at) => 0 <= at < items.len() && meets(items[at]) && forall|i: int|
                0 <= i < at ==> !meets(#[trigger] items[i]),
            None => forall|i: int| 0 <= i < items.len() ==> !meets(#[trigger] items[i]),
        },
    decreases items.len(),
{
    if items.len() > 0 && !meets(items[0]) {
        let rest = items.drop_first();
        lemma_position(rest, meets);
        assert forall|i: int| 0 < i < items.len() implies #[trigger] items[i] == rest[i - 1] by {}
    }
}

} // verus!
