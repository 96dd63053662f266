//! A European call option whose settlement depends on an oracle price, and
//! the price oracle it consults.
//!
//! - `price_store`: bounded per-(source, asset) price histories with range,
//!   tail and filtered-removal operations.
//! - `oracle`: an oracle instance over a price store, with settings fixed
//!   once and admin-gated changes.
//! - `option`: the option's lifecycle as operations on an explicit state,
//!   each returning the authorisation and token transfers the host must
//!   carry out, all or nothing.
//! - `address`: ledger identities.
pub mod address;
pub mod price_store;
pub mod oracle;
pub mod option;
