use vstd::prelude::*;
use crate::api::models::{ids_of, Ingredient, IngredientConstraint};
use crate::api::calculate::find_by_id;
use crate::text::{contains_str, lowercase, occurs_in, to_lowercase};

verus! {

/// How many of the ingredients on offer the optimizer shows at once.
pub const NUMBER_OF_INGREDIENTS_DISPLAYED: usize = 5;

/// The search term is empty, or its lowercase form occurs in the lowercase
/// form of the ingredient's name.
pub open spec fn matches_search(name: Seq<char>, search: Seq<char>) -> bool {
    search.len() == 0 || occurs_in(lowercase(search), lowercase(name))
}

/// The ingredient matches the search and is not selected yet.
pub open spec fn is_offered(ingredient: Ingredient, search: Seq<char>, selected: Seq<i32>) -> bool {
    matches_search(ingredient.name@, search) && !selected.contains(ingredient.id)
}

/// Whether an ingredient is offered, given the lowercase form of its name and
/// the lowercase form of the search term (`None` for an empty search): the
/// term occurs in the name, and the ingredient is not selected yet.
pub fn offer_decision(
    lowered_name: &str,
    lowered_search: Option<&str>,
    id: i32,
    selected: &Vec<i32>,
) -> (r: bool)
    ensures
        r == (match lowered_search {
            None => true,
            Some(term) => occurs_in(term@, lowered_name@),
        } && !selected@.contains(id)),
{
    let matches = match lowered_search {
        None => true,
        Some(term) => contains_str(lowered_name, term),
    };
    matches && find_by_id(selected, id).is_none()
}

/// The positions of the ingredients offered for selection: those that match
/// the search term and are not selected yet, in their listing order.
pub fn filter_ingredients(ingredients: &Vec<Ingredient>, search: &str, selected: &Vec<i32>) -> (r:
    Vec<usize>)
    ensures
        forall|k: int|
            0 <= k < r.len() ==> #[trigger] r@[k] < ingredients.len() && is_offered(
                ingredients@[r@[k] as int],
                search@,
                selected@,
            ),
        forall|k1: int, k2: int| 0 <= k1 < k2 < r.len() ==> #[trigger] r@[k1] < #[trigger] r@[k2],
        forall|i: int|
            0 <= i < ingredients.len() && is_offered(ingredients@[i], search@, selected@)
                ==> r@.contains(i as usize),
        forall|k: int|
            0 <= k < r.len() ==> search@.len() != 0 ==> occurs_in(
                lowercase(search@),
                lowercase(ingredients@[#[trigger] r@[k] as int].name@),
            ),
        forall|k: int|
            0 <= k < r.len() ==> !selected@.contains(ingredients@[#[trigger] r@[k] as int].id),
        forall|i: int|
            0 <= i < ingredients.len() && (search@.len() == 0 || occurs_in(
                lowercase(search@),
                lowercase(ingredients@[i].name@),
            )) && !selected@.contains(ingredients@[i].id) ==> r@.contains(i as usize),
{
    let term: Option<String> = if search.is_empty() {
        None
    } else {
        Some(to_lowercase(search))
    };
    let mut r: Vec<usize> = Vec::new();
    let mut i: usize = 0;
    while i < ingredients.len()
        invariant
            i <= ingredients.len(),
            match term {
                None => search@.len() == 0,
                Some(t) => search@.len() != 0 && t@ == lowercase(search@),
            },
            forall|k: int|
                0 <= k < r.len() ==> #[trigger] r@[k] < i && is_offered(
                    ingredients@[r@[k] as int],
                    search@,
                    selected@,
                ),
            forall|k1: int, k2: int| 0 <= k1 < k2 < r.len() ==> #[trigger] r@[k1] < #[trigger] r@[k2],
            forall|j: int|
                0 <= j < i && is_offered(ingredients@[j], search@, selected@) ==> r@.contains(
                    j as usize,
                ),
        decreases ingredients.len() - i,
    {
        let ingredient = &ingredients[i];
        let offered = match &term {
            None => offer_decision(ingredient.name.as_str(), None, ingredient.id, selected),
            Some(t) => {
                let name = to_lowercase(ingredient.name.as_str());
                offer_decision(name.as_str(), Some(t.as_str()), ingredient.id, selected)
            },
        };
        if offered {
            let ghost old_r = r@;
            r.push(i);
            proof {
                assert forall|j: int|
                    0 <= j < i + 1 && is_offered(ingredients@[j], search@, selected@) implies r@.contains(
                    j as usize,
                ) by {
                    if j < i {
                        let k = choose|k: int| 0 <= k < old_r.len() && old_r[k] == j as usize;
                        assert(r@[k] == j as usize);
                    } else {
                        assert(r@[r.len() - 1] == i);
                    }
                }
            }
        }
        i = i + 1;
    }
    r
}

/// The first `NUMBER_OF_INGREDIENTS_DISPLAYED` items, or all when fewer.
pub fn first_displayed<T: Copy>(items: &Vec<T>) -> (r: Vec<T>)
    ensures
        r@ == items@.take(
            if items.len() < NUMBER_OF_INGREDIENTS_DISPLAYED {
                items.len() as int
            } else {
                NUMBER_OF_INGREDIENTS_DISPLAYED as int
            },
        ),
{
    let mut r: Vec<T> = Vec::new();
    let mut i: usize = 0;
    while i < items.len() && i < NUMBER_OF_INGREDIENTS_DISPLAYED
        invariant
            i <= items.len(),
            i <= NUMBER_OF_INGREDIENTS_DISPLAYED,
            r@ == items@.take(i as int),
        decreases items.len() - i,
    {
        r.push(items[i]);
        i = i + 1;
        assert(r@ =~= items@.take(i as int));
    }
    r
}


/// The selection after the user picks ingredient `id`: unchanged when it is
/// already selected, else extended by a constraint on `id` with open bounds.
pub open spec fn with_ingredient<B>(selection: Seq<IngredientConstraint<B>>, id: i32) -> Seq<
    IngredientConstraint<B>,
> {
    if ids_of(selection).contains(id) {
        selection
    } else {
        selection.push(IngredientConstraint { id, min: None, max: None })
    }
}

/// Whether some constraint of the selection is on ingredient `id`.
pub fn is_selected<B>(selection: &Vec<IngredientConstraint<B>>, id: i32) -> (r: bool)
    ensures
        r == ids_of(selection@).contains(id),
        r <==> exists|k: int| 0 <= k < selection.len() && (#[trigger] selection@[k]).id == id,
{
    let mut i: usize = 0;
    while i < selection.len()
        invariant
            i <= selection.len(),
            forall|j: int| 0 <= j < i ==> selection@[j].id != id,
        decreases selection.len() - i,
    {
        if selection[i].id == id {
            assert(ids_of(selection@)[i as int] == id);
            return true;
        }
        i = i + 1;
    }
    proof {
        if ids_of(selection@).contains(id) {
            let j = choose|j: int| 0 <= j < ids_of(selection@).len() && ids_of(selection@)[j] == id;
            assert(selection@[j].id == id);
        }
    }
    false
}

/// The user picks ingredient `id` for the mix.
pub fn add_ingredient<B>(selection: &mut Vec<IngredientConstraint<B>>, id: i32)
    ensures
        final(selection)@ == with_ingredient(old(selection)@, id),
        (exists|k: int| 0 <= k < old(selection).len() && (#[trigger] old(selection)@[k]).id == id)
            ==> final(selection)@ == old(selection)@,
        (forall|k: int| 0 <= k < old(selection).len() ==> (#[trigger] old(selection)@[k]).id != id)
            ==> final(selection)@ == old(selection)@.push(
            IngredientConstraint { id, min: None, max: None },
        ),
{
    if !is_selected(selection, id) {
        selection.push(IngredientConstraint::unbounded(id));
    }
}

/// The user drops the constraint at position `index`.
pub fn remove_ingredient<B>(selection: &mut Vec<IngredientConstraint<B>>, index: usize)
    requires
        index < old(selection).len(),
    ensures
        final(selection)@ == old(selection)@.remove(index as int),
{
    selection.remove(index);
}

/// The user sets the lower bound of the constraint at position `index`.
pub fn set_min<B>(selection: &mut Vec<IngredientConstraint<B>>, index: usize, min: B)
    requires
        index < old(selection).len(),
    ensures
        final(selection)@ == old(selection)@.update(
            index as int,
            IngredientConstraint { min: Some(min), ..old(selection)@[index as int] },
        ),
{
    let c = selection.remove(index);
    selection.insert(index, IngredientConstraint { id: c.id, min: Some(min), max: c.max });
    assert(final(selection)@ =~= old(selection)@.update(
        index as int,
        IngredientConstraint { min: Some(min), ..old(selection)@[index as int] },
    ));
}

/// The user sets the upper bound of the constraint at position `index`.
pub fn set_max<B>(selection: &mut Vec<IngredientConstraint<B>>, index: usize, max: B)
    requires
        index < old(selection).len(),
    ensures
        final(selection)@ == old(selection)@.update(
            index as int,
            IngredientConstraint { max: Some(max), ..old(selection)@[index as int] },
        ),
{
    let c = selection.remove(index);
    selection.insert(index, IngredientConstraint { id: c.id, min: c.min, max: Some(max) });
    assert(final(selection)@ =~= old(selection)@.update(
        index as int,
        IngredientConstraint { max: Some(max), ..old(selection)@[index as int] },
    ));
}

/// Picking an ingredient never puts the same ingredient in the selection
/// twice: a selection without repeated ingredients keeps none.
pub proof fn lemma_add_keeps_ids_distinct<B>(selection: Seq<IngredientConstraint<B>>, id: i32)
    requires
        ids_of(selection).no_duplicates(),
    ensures
        ids_of(with_ingredient(selection, id)).no_duplicates(),
        ids_of(with_ingredient(selection, id)).contains(id),
{
    let c = IngredientConstraint::<B> { id, min: None, max: None };
    if ids_of(selection).contains(id) {
        let j = choose|j: int| 0 <= j < ids_of(selection).len() && ids_of(selection)[j] == id;
        assert(ids_of(selection)[j] == id);
    } else {
        assert(ids_of(selection.push(c)) =~= ids_of(selection).push(id));
        let ids = ids_of(selection).push(id);
        assert(ids[ids.len() - 1] == id);
    }
}

/// Dropping or re-bounding a constraint never repeats an ingredient either.
pub proof fn lemma_edits_keep_ids_distinct<B>(
    selection: Seq<IngredientConstraint<B>>,
    index: int,
    bounded: IngredientConstraint<B>,
)
    requires
        ids_of(selection).no_duplicates(),
        0 <= index < selection.len(),
        bounded.id == selection[index].id,
    ensures
        ids_of(selection.remove(index)).no_duplicates(),
        ids_of(selection.update(index, bounded)) == ids_of(selection),
{
    assert(ids_of(selection.remove(index)) =~= ids_of(selection).remove(index));
    assert(ids_of(selection.update(index, bounded)) =~= ids_of(selection));
    let ids = ids_of(selection);
    let r = ids.remove(index);
    assert forall|a: int, b: int| 0 <= a < r.len() && 0 <= b < r.len() && a != b implies r[a]
        != r[b] by {
        let oa = if a < index { a } else { a + 1 };
        let ob = if b < index { b } else { b + 1 };
        assert(r[a] == ids[oa]);
        assert(r[b] == ids[ob]);
    }
}

/// Picking the same ingredient twice has the effect of picking it once.
pub proof fn lemma_add_idempotent<B>(selection: Seq<IngredientConstraint<B>>, id: i32)
    ensures
        with_ingredient(with_ingredient(selection, id), id) == with_ingredient(selection, id),
{
    let c = IngredientConstraint::<B> { id, min: None, max: None };
    if !ids_of(selection).contains(id) {
        let s = selection.push(c);
        assert(ids_of(s)[s.len() - 1] == id);
    }
}

/// Dropping an ingredient right after picking a new one gives back the
/// selection as it was.
pub proof fn lemma_remove_undoes_add<B>(selection: Seq<IngredientConstraint<B>>, id: i32)
    requires
        !ids_of(selection).contains(id),
    ensures
        with_ingredient(selection, id).remove(selection.len() as int) == selection,
{
    let c = IngredientConstraint::<B> { id, min: None, max: None };
    assert(selection.push(c).remove(selection.len() as int) =~= selection);
}

/// Once picked, an ingredient is no longer offered, whatever the search.
pub proof fn lemma_added_not_offered<B>(
    selection: Seq<IngredientConstraint<B>>,
    ingredient: Ingredient,
    search: Seq<char>,
)
    ensures
        !is_offered(ingredient, search, ids_of(with_ingredient(selection, ingredient.id))),
{
    let id = ingredient.id;
    let c = IngredientConstraint::<B> { id, min: None, max: None };
    if !ids_of(selection).contains(id) {
        let s = selection.push(c);
        assert(ids_of(s)[s.len() - 1] == id);
    }
}

/// Picking an ingredient already in the selection changes nothing; picking a
/// new one appends an open constraint on it and keeps everything before.
pub proof fn lemma_with_ingredient<B>(selection: Seq<IngredientConstraint<B>>, id: i32)
    ensures
        (exists|k: int| 0 <= k < selection.len() && (#[trigger] selection[k]).id == id)
            ==> with_ingredient(selection, id) == selection,
        (forall|k: int| 0 <= k < selection.len() ==> (#[trigger] selection[k]).id != id)
            ==> with_ingredient(selection, id) == selection.push(
            IngredientConstraint { id, min: None, max: None },
        ),
{
    if exists|k: int| 0 <= k < selection.len() && (#[trigger] selection[k]).id == id {
        let k = choose|k: int| 0 <= k < selection.len() && (#[trigger] selection[k]).id == id;
        assert(ids_of(selection)[k] == id);
    }
    if forall|k: int| 0 <= k < selection.len() ==> (#[trigger] selection[k]).id != id {
        assert(!ids_of(selection).contains(id)) by {
            if ids_of(selection).contains(id) {
                let j = choose|j: int| 0 <= j < ids_of(selection).len() && ids_of(selection)[j] == id;
                assert(selection[j].id == id);
            }
        }
    }
}

/// An ingredient is offered exactly when the search is empty or the lowercase
/// search term occurs in its lowercase name, and it is not selected.
pub proof fn lemma_is_offered(ingredient: Ingredient, search: Seq<char>, selected: Seq<i32>)
    ensures
        is_offered(ingredient, search, selected) <==> ((search.len() == 0 || occurs_in(
            lowercase(search),
            lowercase(ingredient.name@),
        )) && !selected.contains(ingredient.id)),
{
}

} // verus!
