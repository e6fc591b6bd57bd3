use vstd::prelude::*;

verus! {

/// An ingredient as the optimizer lists it: its database id and its name.
#[derive(Clone, Debug)]
pub struct Ingredient {
    pub id: i32,
    pub name: String,
}

/// The bounds a user puts on the share of one ingredient in the mix; a bound
/// left open is `None`. `B` is the type of a share.
#[derive(Clone, Copy, Debug)]
pub struct IngredientConstraint<B> {
    pub id: i32,
    pub min: Option<B>,
    pub max: Option<B>,
}

impl<B> IngredientConstraint<B> {
    /// A constraint on ingredient `id` with both bounds open.
    pub fn unbounded(id: i32) -> (r: Self)
        ensures
            r == (IngredientConstraint::<B> { id, min: None, max: None }),
    {
        IngredientConstraint { id, min: None, max: None }
    }
}

/// The ids of the constrained ingredients, in order.
pub open spec fn ids_of<B>(constraints: Seq<IngredientConstraint<B>>) -> Seq<i32> {
    constraints.map_values(|c: IngredientConstraint<B>| c.id)
}

/// The ids of the constrained ingredients, in order.
pub fn constraint_ids<B>(constraints: &Vec<IngredientConstraint<B>>) -> (r: Vec<i32>)
    ensures
        r@ == ids_of(constraints@),
        r.len() == constraints.len(),
        forall|k: int| 0 <= k < r.len() ==> #[trigger] r@[k] == constraints@[k].id,
{
    let mut r: Vec<i32> = Vec::new();
    let mut i: usize = 0;
    while i < constraints.len()
        invariant
            i <= constraints.len(),
            r@ == ids_of(constraints@.subrange(0, i as int)),
        decreases constraints.len() - i,
    {
        r.push(constraints[i].id);
        i = i + 1;
        assert(ids_of(constraints@.subrange(0, i as int)) =~= ids_of(
            constraints@.subrange(0, i - 1 as int),
        ).push(constraints@[i - 1].id));
    }
    assert(constraints@.subrange(0, constraints.len() as int) =~= constraints@);
    r
}

/// The k-th id listed is the id of the k-th constraint.
pub proof fn lemma_ids_of<B>(constraints: Seq<IngredientConstraint<B>>)
    ensures
        ids_of(constraints).len() == constraints.len(),
        forall|k: int| 0 <= k < constraints.len() ==> #[trigger] ids_of(constraints)[k] == constraints[k].id,
{
}

} // verus!
