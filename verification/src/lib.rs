//! Statement PDF generation: the verified core.
//!
//! The library checks statement data, turns it into the view that the document
//! template reads, keeps the assets that the document embeds, and computes the
//! names, paths and replies of the web service that hands documents out.

pub mod assets;
pub mod calendar;
pub mod error;
pub mod model;
pub mod paths;
pub mod render;
pub mod service;
pub mod text;
pub mod validation;

pub use error::{StatementPdfError, ValidationError, ValidationErrors};
pub use model::{ApplicantInput, RecipientInput, SignatureInput, StatementInput};
pub use render::StatementAssets;
