use vstd::prelude::*;
use crate::api::models::IngredientConstraint;

verus! {

/// Why a calculation was refused before any optimization ran.
#[derive(Clone, Copy, Debug, PartialEq, Eq, Structural)]
pub enum CalculationError {
    /// Some constrained ingredient has no record.
    IngredientsNotFound,
}

impl CalculationError {
    pub open spec fn spec_message(self) -> Seq<char> {
        match self {
            CalculationError::IngredientsNotFound => "Some ingredient IDs were not found"@,
        }
    }

    /// The text reported to the user.
    pub fn message(&self) -> (r: String)
        ensures
            r@ == self.spec_message(),
            r@ == "Some ingredient IDs were not found"@,
    {
        match self {
            CalculationError::IngredientsNotFound => String::from_str("Some ingredient IDs were not found"),
        }
    }
}

/// `i` is the position of the last occurrence of `id` in `ids`.
pub open spec fn is_last_occurrence(ids: Seq<i32>, id: i32, i: int) -> bool {
    &&& 0 <= i < ids.len()
    &&& ids[i] == id
    &&& forall|j: int| i < j < ids.len() ==> ids[j] != id
}

/// The position of the record with id `id` among the records with ids
/// `ids`; where two records share an id, the later one counts.
pub fn find_by_id(ids: &Vec<i32>, id: i32) -> (r: Option<usize>)
    ensures
        match r {
            Some(i) => is_last_occurrence(ids@, id, i as int),
            None => !ids@.contains(id),
        },
        r matches Some(i) ==> i < ids.len() && ids@[i as int] == id && forall|j: int|
            i < j < ids.len() ==> ids@[j] != id,
        r is None ==> forall|j: int| 0 <= j < ids.len() ==> ids@[j] != id,
{
    let mut i: usize = ids.len();
    while i > 0
        invariant
            i <= ids.len(),
            forall|j: int| i <= j < ids.len() ==> ids@[j] != id,
        decreases i,
    {
        i = i - 1;
        if ids[i] == id {
            return Some(i);
        }
    }
    None
}

/// Matches each constrained ingredient, in the order of the constraints, to
/// the position of its record among the records fetched (ids `row_ids`).
/// Refused when some constrained ingredient has no record.
pub fn select_ingredients(constraint_ids: &Vec<i32>, row_ids: &Vec<i32>) -> (r: Result<
    Vec<usize>,
    CalculationError,
>)
    ensures
        r is Ok <==> forall|k: int|
            0 <= k < constraint_ids.len() ==> row_ids@.contains(#[trigger] constraint_ids@[k]),
        r matches Err(e) ==> e == CalculationError::IngredientsNotFound,
        r matches Ok(v) ==> {
            &&& v.len() == constraint_ids.len()
            &&& forall|k: int|
                0 <= k < v.len() ==> is_last_occurrence(
                    row_ids@,
                    constraint_ids@[k],
                    #[trigger] v@[k] as int,
                )
        },
        r matches Ok(v) ==> forall|k: int|
            0 <= k < v.len() ==> #[trigger] v@[k] < row_ids.len() && row_ids@[v@[k] as int]
                == constraint_ids@[k] && forall|j: int|
                v@[k] < j < row_ids.len() ==> row_ids@[j] != constraint_ids@[k],
        r is Err <==> exists|k: int|
            0 <= k < constraint_ids.len() && !row_ids@.contains(#[trigger] constraint_ids@[k]),
{
    let mut v: Vec<usize> = Vec::new();
    let mut k: usize = 0;
    while k < constraint_ids.len()
        invariant
            k <= constraint_ids.len(),
            v.len() == k,
            forall|j: int| 0 <= j < k ==> row_ids@.contains(#[trigger] constraint_ids@[j]),
            forall|j: int|
                0 <= j < k ==> is_last_occurrence(
                    row_ids@,
                    constraint_ids@[j],
                    #[trigger] v@[j] as int,
                ),
        decreases constraint_ids.len() - k,
    {
        match find_by_id(row_ids, constraint_ids[k]) {
            Some(i) => {
                v.push(i);
            },
            None => {
                return Err(CalculationError::IngredientsNotFound);
            },
        }
        k = k + 1;
    }
    Ok(v)
}

/// `bound` where it is set, `default` where it is open.
pub open spec fn bound_or<B>(bound: Option<B>, default: B) -> B {
    match bound {
        Some(b) => b,
        None => default,
    }
}

/// The lower and upper bound of each constrained ingredient, in order, with
/// `default_min` and `default_max` standing for open bounds.
pub fn bounds<B: Copy>(
    constraints: &Vec<IngredientConstraint<B>>,
    default_min: B,
    default_max: B,
) -> (r: (Vec<B>, Vec<B>))
    ensures
        r.0.len() == constraints.len(),
        r.1.len() == constraints.len(),
        forall|k: int|
            0 <= k < constraints.len() ==> #[trigger] r.0@[k] == bound_or(
                constraints@[k].min,
                default_min,
            ) && r.1@[k] == bound_or(constraints@[k].max, default_max),
        forall|k: int|
            0 <= k < constraints.len() ==> (match constraints@[k].min {
                Some(b) => #[trigger] r.0@[k] == b,
                None => r.0@[k] == default_min,
            }) && (match constraints@[k].max {
                Some(b) => r.1@[k] == b,
                None => r.1@[k] == default_max,
            }),
{
    let mut mins: Vec<B> = Vec::new();
    let mut maxs: Vec<B> = Vec::new();
    let mut k: usize = 0;
    while k < constraints.len()
        invariant
            k <= constraints.len(),
            mins.len() == k,
            maxs.len() == k,
            forall|j: int|
                0 <= j < k ==> #[trigger] mins@[j] == bound_or(constraints@[j].min, default_min)
                    && maxs@[j] == bound_or(constraints@[j].max, default_max),
        decreases constraints.len() - k,
    {
        let c = constraints[k];
        let lo = match c.min {
            Some(b) => b,
            None => default_min,
        };
        let hi = match c.max {
            Some(b) => b,
            None => default_max,
        };
        mins.push(lo);
        maxs.push(hi);
        k = k + 1;
    }
    (mins, maxs)
}

} // verus!
