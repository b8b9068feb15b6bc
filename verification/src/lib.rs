//! Verified core of a local clipboard-history store: the validation,
//! normalisation, cursor and search-projection rules that sit between the
//! user interface and the SQLite database.

pub mod text;
pub mod types;
pub mod external;
pub mod encoding;
pub mod ids;
pub mod time;
pub mod formats;
pub mod ocr;
pub mod item;
pub mod numbers;
pub mod cursor;
pub mod search;
pub mod order;
pub mod query;
pub mod batch;
pub mod collection;
pub mod payload;
pub mod health;
pub mod storage;
pub mod policy;
pub mod recovery;
pub mod quarantine;
pub mod legacy;
pub mod predicate;
pub mod restore;
pub mod mutation;
pub mod thumbnail;
pub mod pages;
pub mod identity;
pub mod capacity;
