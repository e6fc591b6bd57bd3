use creamy_cream::views::ingredient_new::{created_feedback, failed_feedback};

#[test]
fn creation_feedback_messages() {
    assert_eq!(created_feedback("Cream"), "🎉 Ingredient 'Cream' created successfully!");
    assert_eq!(failed_feedback("no database"), "❌ Error creating ingredient: no database");
}
