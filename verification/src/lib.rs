//! A contact book for the terminal, as a library: the components of the
//! interface with their states and messages, the fuzzy search over the
//! contacts, the validation of a contact, and the search for duplicates.
//!
//! The library reads no key, draws nothing and stores nothing. Whoever runs
//! it hands it keys and the replies of the store, and takes the states to
//! draw and the requests for the store from it.

pub mod app;
pub mod components;
pub mod duplicates;
pub mod filter;
pub mod key;
pub mod modal;
pub mod mode;
pub mod model;
pub mod search;
pub mod seed;
pub mod text;
