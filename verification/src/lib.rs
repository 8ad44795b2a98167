pub mod text;
pub mod segment;
pub mod numeric;
pub mod sources;
pub mod variables;
pub mod expansion;
pub mod runtime;
pub mod suggest;
pub mod catalog;
pub mod packs;
pub mod store;
pub mod seeding;
pub mod keyboard;
pub mod monitor;
pub mod shell;
