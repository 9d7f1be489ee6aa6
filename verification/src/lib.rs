//! Partial ("optioned") counterparts of data types.

pub mod container;
pub mod convert;
pub mod derive;
pub mod error;
pub mod generated;
pub mod laws;
pub mod leaf;
pub mod map;
pub mod mapping;
pub mod marker;
pub mod schema;
pub mod set;

pub use convert::{Optionable, OptionableConvert};
pub use error::{merge_errors, Error};
