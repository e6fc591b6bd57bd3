use vstd::prelude::*;

verus! {

/// The message shown after ingredient `name` was created.
pub fn created_feedback(name: &str) -> (r: String)
    ensures
        r@ == "🎉 Ingredient '"@ + name@ + "' created successfully!"@,
{
    let mut r = String::from_str("🎉 Ingredient '");
    r.append(name);
    r.append("' created successfully!");
    r
}

/// The message shown when creating an ingredient failed with `error`.
pub fn failed_feedback(error: &str) -> (r: String)
    ensures
        r@ == "❌ Error creating ingredient: "@ + error@,
{
    let mut r = String::from_str("❌ Error creating ingredient: ");
    r.append(error);
    r
}

} // verus!
