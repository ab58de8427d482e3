//! Store and retrieve one value of any Rust type, addressed by the type alone.
//!
//! [`GothamStore`] keeps at most one value per type. Its contracts are stated over a
//! map from type identities to type-erased values. A value is known by the data that
//! its type declares through [`Storable`]; the identity of a type and the data inside
//! an erased value are the notions taken on trust from `std::any`.

pub mod erased;
pub mod laws;
pub mod plain;
pub mod store;

pub use erased::{erased_plain, erased_tag, same_type, type_key, Erased, Plain, Storable};
pub use store::{holds, lookup, model_ok, plain_of, removed, stored, GothamStore, Model};
