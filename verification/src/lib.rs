//! The authoring and distribution core of a social feed actor.
//!
//! A feed actor owns the posts of one user, replicates them to a storage
//! shard, announces them by reference to notifier actors, and keeps a local
//! cache of the posts it was told about. Every remote call is made by the
//! host: the library decides, step by step, which call comes next and what
//! its reply changes.

pub mod address;
pub mod cache;
pub mod decimal;
pub mod feed;
pub mod guarantees;
pub mod identity;
pub mod model;
pub mod post;
pub mod protocol;
pub mod store;
pub mod text;
