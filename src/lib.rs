//! Resolves GitHub web links (file views with optional line anchors, and pull
//! requests) into raw-content requests, and selects the requested lines from
//! the fetched text.
pub mod error;
pub mod numbers;
pub mod text;
pub mod selection;
pub mod link;
pub mod reference;
pub mod pipeline;
pub mod laws;
