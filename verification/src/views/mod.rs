pub mod ingredient_new;
