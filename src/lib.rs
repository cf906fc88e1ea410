use vstd::prelude::*;

pub mod account;
pub mod bucket;
pub mod error;
pub mod json;
pub mod listing;
pub mod publish;
pub mod template;

pub use account::AccountEntry;
pub use error::ListingError;
pub use listing::{EldoradoListing, ProcessorSettings};
pub use publish::UploadedImageInfo;

verus! {

} // verus!
