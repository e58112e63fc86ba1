//! vacuum: find build artifacts and dependency caches that can be deleted.

pub mod adapter;
pub mod adapters;
pub mod cleaner;
pub mod disk;
pub mod inbox;
pub mod interactive;
pub mod layout;
pub mod order;
pub mod path;
pub mod scanner;
pub mod sizes;
pub mod text;
pub mod walk;
