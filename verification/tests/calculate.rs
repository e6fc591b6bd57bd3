use creamy_cream::api::calculate::{bounds, find_by_id, select_ingredients, CalculationError};
use creamy_cream::api::models::{constraint_ids, IngredientConstraint};

#[test]
fn find_by_id_last_match() {
    let ids = vec![4, 1, 3, 1];
    assert_eq!(find_by_id(&ids, 1), Some(3));
    assert_eq!(find_by_id(&ids, 4), Some(0));
    assert_eq!(find_by_id(&ids, 9), None);
    assert_eq!(find_by_id(&Vec::new(), 1), None);
}

#[test]
fn select_in_constraint_order() {
    // rows as the database returns them; constraints in the user's order
    let rows = vec![1, 3, 4];
    let constraints = vec![4, 1, 3];
    assert_eq!(select_ingredients(&constraints, &rows), Ok(vec![2, 0, 1]));
}

#[test]
fn select_repeated_constraint() {
    let rows = vec![1, 3];
    assert_eq!(select_ingredients(&vec![3, 3], &rows), Ok(vec![1, 1]));
}

#[test]
fn select_missing_ingredient() {
    let rows = vec![1, 3];
    let r = select_ingredients(&vec![1, 2, 3], &rows);
    assert_eq!(r, Err(CalculationError::IngredientsNotFound));
    assert_eq!(
        CalculationError::IngredientsNotFound.message(),
        "Some ingredient IDs were not found"
    );
}

#[test]
fn select_nothing() {
    assert_eq!(select_ingredients(&Vec::new(), &vec![1]), Ok(Vec::new()));
}

#[test]
fn bounds_with_defaults() {
    let constraints = vec![
        IngredientConstraint { id: 1, min: Some(0.25), max: None },
        IngredientConstraint { id: 4, min: None, max: Some(0.5) },
        IngredientConstraint { id: 3, min: None, max: None },
    ];
    let (mins, maxs) = bounds(&constraints, 0.0, 1.0);
    assert_eq!(mins, vec![0.25, 0.0, 0.0]);
    assert_eq!(maxs, vec![1.0, 0.5, 1.0]);
    assert_eq!(constraint_ids(&constraints), vec![1, 4, 3]);
}
