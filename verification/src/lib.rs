//! User-account management core: credential hashing, the `Person` / `AppUser`
//! entity model, the abstract storage port that mediates between domain logic
//! and a relational backend, an in-memory backend satisfying that port, and
//! the user domain service that orchestrates login and entity lifecycle.

pub mod api;
pub mod domain;
pub mod entities;
pub mod hash;
pub mod laws;
pub mod memory;
pub mod model;
pub mod order;
pub mod storage;
