//! Normalisation of rental listings from several providers into one canonical
//! property model, and the search filter applied to that model.
pub mod filter;
pub mod model;
pub mod pipeline;
pub mod price;
pub mod record;
pub mod snapshot;
pub mod sources;
pub mod text;

