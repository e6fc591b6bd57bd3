# creamy_cream

The verified core of the Creamy Cream ice-cream ratio optimizer.

- `src/` — the library, verified with Verus:
  - `entity::property`: nutritional property types, per-ingredient property
    values, and the rows that store and read them back.
  - `api::models`, `api::calculate`: constraints on ingredient shares, and the
    matching of constraints to stored ingredients before an optimization.
  - `components::optimizer`: the decisions of the optimizer screen (which
    ingredients are offered, how the selection changes).
  - `views::ingredient_new`: the messages of the ingredient form.
  - `text`: the two string operations taken from `std`.
- `app/` — the web application around it: the user interface, the database,
  and the floating-point optimization.
- `tests/` — tests of the library.
