pub mod property;
