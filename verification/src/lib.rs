//! Lookup of carrier and region metadata for phone number prefixes in a
//! compact binary database image.

pub mod card;
pub mod codec;
pub mod database;
pub mod error;
pub mod index;
pub mod laws;
pub mod query;
pub mod text;

pub use card::CardType;
pub use database::{PhoneData, PhoneNoInfo, Records};
pub use error::ErrorKind;
pub use index::Index;
