//! A registry of digital wills: an owner records a document hash and a list
//! of beneficiaries, and the will can later be marked executed exactly once.

pub mod address;
pub mod laws;
pub mod will;

pub use address::Address;
pub use will::{Will, WillData, WillError, WillView};
