//! A deduplicated, append-only store of pages and of the directed links
//! between them.
//!
//! A page is an [`Entity`]: a URL together with the days on which the page
//! was seen and the names and labels it was seen with. A [`Collection`] holds
//! entities under dense, permanent [`Id`]s, finds the entity of a URL, folds
//! a repeated sighting of a URL into the entity it already holds, and records
//! the links between entities. Nothing is ever removed from it.
//!
//! A URL is held as its text, a [`PageUrl`], and a day as its Julian day
//! number, a [`Date`]: the collection needs to tell URLs apart and to put
//! days in order, and nothing else.
//!
//! Every function is verified against the mathematical value of the data it
//! works on: an [`EntityView`] for an entity, a [`CollectionView`] for a
//! collection. The module [`laws`] proves what holds of these values over any
//! number of calls.

pub mod id;
pub mod set;
pub mod date;
pub mod text;
pub mod entity;
pub mod collection;
pub mod laws;

pub use collection::{Collection, CollectionView, Edges};
pub use date::Date;
pub use entity::{Entity, EntityView};
pub use id::Id;
pub use set::{ItemSet, Member};
pub use text::{Label, Name, PageUrl};
