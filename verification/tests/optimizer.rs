use creamy_cream::api::models::{Ingredient, IngredientConstraint};
use creamy_cream::components::optimizer::{
    add_ingredient, filter_ingredients, first_displayed, is_selected, offer_decision,
    remove_ingredient, set_max,
    set_min, NUMBER_OF_INGREDIENTS_DISPLAYED,
};

fn pantry() -> Vec<Ingredient> {
    vec![
        Ingredient { id: 1, name: "Cream".to_string() },
        Ingredient { id: 3, name: "Milk".to_string() },
        Ingredient { id: 4, name: "Sugar".to_string() },
        Ingredient { id: 7, name: "Sour Cream".to_string() },
    ]
}

#[test]
fn empty_search_offers_all_unselected() {
    assert_eq!(filter_ingredients(&pantry(), "", &vec![]), vec![0, 1, 2, 3]);
    assert_eq!(filter_ingredients(&pantry(), "", &vec![3, 7]), vec![0, 2]);
}

#[test]
fn search_ignores_case() {
    assert_eq!(filter_ingredients(&pantry(), "CREAM", &vec![]), vec![0, 3]);
    assert_eq!(filter_ingredients(&pantry(), "sour c", &vec![]), vec![3]);
    assert_eq!(filter_ingredients(&pantry(), "cream", &vec![1]), vec![3]);
}

#[test]
fn search_without_match() {
    assert_eq!(filter_ingredients(&pantry(), "almond", &vec![]), Vec::<usize>::new());
    assert_eq!(filter_ingredients(&Vec::new(), "milk", &vec![]), Vec::<usize>::new());
}

#[test]
fn at_most_five_displayed() {
    assert_eq!(NUMBER_OF_INGREDIENTS_DISPLAYED, 5);
    assert_eq!(first_displayed(&vec![1, 2, 3, 4, 5, 6, 7]), vec![1, 2, 3, 4, 5]);
    assert_eq!(first_displayed(&vec![9, 8]), vec![9, 8]);
    assert_eq!(first_displayed(&Vec::<u8>::new()), Vec::<u8>::new());
}

#[test]
fn pick_ingredient_once() {
    let mut selection: Vec<IngredientConstraint<f64>> = Vec::new();
    add_ingredient(&mut selection, 4);
    add_ingredient(&mut selection, 1);
    add_ingredient(&mut selection, 4);
    assert_eq!(selection.len(), 2);
    assert_eq!(selection[0].id, 4);
    assert_eq!(selection[1].id, 1);
    assert_eq!(selection[0].min, None);
    assert_eq!(selection[0].max, None);
    assert!(is_selected(&selection, 1));
    assert!(!is_selected(&selection, 3));
}

#[test]
fn bound_and_drop_ingredients() {
    let mut selection: Vec<IngredientConstraint<f64>> = Vec::new();
    add_ingredient(&mut selection, 1);
    add_ingredient(&mut selection, 3);
    set_min(&mut selection, 1, 0.5);
    set_max(&mut selection, 1, 0.75);
    set_max(&mut selection, 0, 0.2);
    assert_eq!((selection[1].min, selection[1].max), (Some(0.5), Some(0.75)));
    assert_eq!((selection[0].min, selection[0].max), (None, Some(0.2)));
    remove_ingredient(&mut selection, 0);
    assert_eq!(selection.len(), 1);
    assert_eq!(selection[0].id, 3);
    assert_eq!(selection[0].min, Some(0.5));
}

#[test]
fn remove_after_add_restores() {
    let mut selection: Vec<IngredientConstraint<i32>> = Vec::new();
    add_ingredient(&mut selection, 1);
    add_ingredient(&mut selection, 2);
    remove_ingredient(&mut selection, 1);
    assert_eq!(selection.len(), 1);
    assert_eq!(selection[0].id, 1);
}

#[test]
fn offer_decision_cases() {
    assert!(offer_decision("sour cream", Some("cream"), 7, &vec![1]));
    assert!(!offer_decision("sour cream", Some("cream"), 7, &vec![7]));
    assert!(!offer_decision("milk", Some("cream"), 3, &vec![]));
    assert!(offer_decision("Milk", None, 3, &vec![]));
    assert!(!offer_decision("Milk", Some("Milk "), 3, &vec![]));
    assert!(offer_decision("milk", Some(""), 3, &vec![]));
}
