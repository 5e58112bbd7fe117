//! What holds of the pool whatever is done with it.
pub mod amounts;
pub mod answers;
pub mod books;
pub mod claims;
pub mod consent;
pub mod entries;
pub mod epochs;
pub mod estimates;
pub mod exchange;
pub mod gates;
pub mod limits;
pub mod positions;
pub mod ranks;
pub mod records;
pub mod registry;
pub mod rewards;
pub mod settings;
pub mod streaks;
pub mod success;
pub mod told;
pub mod traces;
