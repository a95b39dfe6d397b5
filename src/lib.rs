//! A record store that allocates fixed-capacity storage cells and copies a
//! caller's JSON text into a freshly created cell, byte for byte.

pub mod account;
pub mod store;

pub use account::DesignAccount;
pub use store::{store_design, RecordStore, StoreDesign, StoreError};
