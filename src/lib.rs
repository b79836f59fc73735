//! Lending of catalogue items to holders: who holds an item, since when,
//! when it came back, and the full loan history, with the guarantee that an
//! item is never out to two holders at once.

pub mod auth;
pub mod book;
pub mod env;
pub mod error;
pub mod laws;
pub mod model;
pub mod registry;
pub mod store;
