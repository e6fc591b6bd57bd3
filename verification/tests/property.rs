use creamy_cream::entity::property::{collect_properties, property_rows, PropertyType, PropertyValues};

#[test]
fn percentage_properties() {
    assert!(PropertyType::Fat.is_percentage());
    assert!(PropertyType::Sugar.is_percentage());
    assert!(PropertyType::Water.is_percentage());
    assert!(!PropertyType::Density.is_percentage());
}

#[test]
fn rows_of_new_ingredient() {
    let values = PropertyValues { fat: 36.0, sugar: 0.0, water: 58.0, density: 994.0 };
    let rows = property_rows(&values);
    assert_eq!(
        rows,
        vec![
            (PropertyType::Fat, 36.0),
            (PropertyType::Sugar, 0.0),
            (PropertyType::Water, 58.0),
            (PropertyType::Density, 994.0),
        ]
    );
}

#[test]
fn stored_rows_read_back() {
    let values = PropertyValues { fat: 3.6_f64, sugar: 5.0, water: 87.0, density: 1035.0 };
    let back = collect_properties(&property_rows(&values), -1.0);
    assert_eq!(back.fat, 3.6);
    assert_eq!(back.sugar, 5.0);
    assert_eq!(back.water, 87.0);
    assert_eq!(back.density, 1035.0);
}

#[test]
fn missing_property_takes_default() {
    let rows = vec![(PropertyType::Sugar, 100.0_f64), (PropertyType::Density, 1550.0)];
    let v = collect_properties(&rows, 0.0);
    assert_eq!(v.fat, 0.0);
    assert_eq!(v.sugar, 100.0);
    assert_eq!(v.water, 0.0);
    assert_eq!(v.density, 1550.0);
}

#[test]
fn later_row_wins() {
    let rows = vec![(PropertyType::Fat, 10), (PropertyType::Water, 20), (PropertyType::Fat, 30)];
    let v = collect_properties(&rows, 0);
    assert_eq!(v.fat, 30);
    assert_eq!(v.water, 20);
    assert_eq!(v.get(PropertyType::Fat), 30);
    assert_eq!(v.get(PropertyType::Sugar), 0);
}

#[test]
fn no_rows_all_default() {
    let rows: Vec<(PropertyType, i64)> = Vec::new();
    let v = collect_properties(&rows, 7);
    assert_eq!((v.fat, v.sugar, v.water, v.density), (7, 7, 7, 7));
}

#[test]
fn set_replaces_one_value() {
    let mut v = PropertyValues::uniform(1);
    v.set(PropertyType::Water, 5);
    assert_eq!((v.fat, v.sugar, v.water, v.density), (1, 1, 5, 1));
}
